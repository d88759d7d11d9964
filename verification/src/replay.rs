//! Replaying a sequence of actions, and the plain map that the answers are
//! measured against.

use crate::map::TopMap;
use crate::model::lookup;
use vstd::prelude::*;

verus! {

/// One step of a replay.
#[derive(Debug)]
pub enum Action<V> {
    /// Store `value` under `key`.
    Insert { key: isize, value: V },
    /// Remove `key`.
    Remove { key: isize },
    /// Look `key` up.
    Get { key: isize },
}

/// What a plain map answers to an action: the value that the key has before
/// the action.
pub open spec fn answer<V>(m: Map<isize, V>, action: Action<V>) -> Option<V> {
    match action {
        Action::Insert { key, value } => lookup(m, key),
        Action::Remove { key } => lookup(m, key),
        Action::Get { key } => lookup(m, key),
    }
}

/// What a plain map is after an action.
pub open spec fn after<V>(m: Map<isize, V>, action: Action<V>) -> Map<isize, V> {
    match action {
        Action::Insert { key, value } => m.insert(key, value),
        Action::Remove { key } => m.remove(key),
        Action::Get { key } => m,
    }
}

/// What a plain map is after a sequence of actions.
pub open spec fn after_all<V>(m: Map<isize, V>, actions: Seq<Action<V>>) -> Map<isize, V>
    decreases actions.len(),
{
    if actions.len() == 0 {
        m
    } else {
        after(after_all(m, actions.drop_last()), actions.last())
    }
}

/// What a plain map answers to each action of a sequence, in turn.
pub open spec fn answers<V>(m: Map<isize, V>, actions: Seq<Action<V>>) -> Seq<Option<V>>
    decreases actions.len(),
{
    if actions.len() == 0 {
        Seq::empty()
    } else {
        answers(m, actions.drop_last()).push(
            answer(after_all(m, actions.drop_last()), actions.last()),
        )
    }
}

impl<V: Copy> TopMap<V> {
    /// Whether this map is `before` after the action.
    pub open spec fn follows_action(&self, before: &Self, action: Action<V>) -> bool {
        match action {
            Action::Insert { key, value } => self.follows_insert(before, key, value),
            Action::Remove { key } => self.follows_remove(before, key),
            Action::Get { key } => self.wf() && self.same_layout(before),
        }
    }

    /// Whether each of the `states` but the first is the one before it
    /// after the next of the `actions`.
    pub open spec fn chain_of_actions(states: Seq<Self>, actions: Seq<Action<V>>) -> bool {
        &&& states.len() == actions.len() + 1
        &&& forall|i: int|
            1 <= i < states.len() ==> (#[trigger] states[i]).follows_action(
                &states[i - 1],
                actions[i - 1],
            )
    }

    /// Whether this map is `before` after the actions, in turn.
    pub open spec fn follows_replay(&self, before: &Self, actions: Seq<Action<V>>) -> bool {
        exists|states: Seq<Self>| #[trigger]
            Self::chain_of_actions(states, actions) && states[0] == *before && states.last()
                == *self
    }

    /// Performs one action. The answer and the map afterwards are those of a
    /// plain map.
    pub fn apply(&mut self, action: Action<V>) -> (r: Option<V>)
        requires
            old(self).wf(),
        ensures
            final(self).wf(),
            final(self).spec_width() == old(self).spec_width(),
            final(self).spec_low() == old(self).spec_low(),
            r == answer(old(self)@, action),
            final(self)@ == after(old(self)@, action),
            final(self).follows_action(old(self), action),
    {
        match action {
            Action::Insert { key, value } => self.insert(key, value),
            Action::Remove { key } => self.remove(key),
            Action::Get { key } => match self.get(key) {
                Some(value) => Some(*value),
                None => None,
            },
        }
    }

    /// Performs the actions in turn. At every step the answer is that of a
    /// plain map that has gone through the same actions.
    pub fn replay(&mut self, actions: Vec<Action<V>>) -> (r: Vec<Option<V>>)
        requires
            old(self).wf(),
        ensures
            final(self).wf(),
            final(self).spec_width() == old(self).spec_width(),
            final(self).spec_low() == old(self).spec_low(),
            r@ == answers(old(self)@, actions@),
            final(self)@ == after_all(old(self)@, actions@),
            final(self).follows_replay(old(self), actions@),
    {
        let mut r: Vec<Option<V>> = Vec::new();
        let ghost all = actions@;
        let ghost mut states: Seq<Self> = seq![*self];
        for action in it: actions
            invariant
                it.seq() == all,
                self.wf(),
                self.spec_width() == old(self).spec_width(),
                self.spec_low() == old(self).spec_low(),
                r@ == answers(old(self)@, all.subrange(0, it.index())),
                self@ == after_all(old(self)@, all.subrange(0, it.index())),
                Self::chain_of_actions(states, all.subrange(0, it.index())),
                states[0] == *old(self),
                states.last() == *self,
        {
            let ghost at = it.index();
            let ghost so_far = states;
            proof {
                assert(all.subrange(0, at + 1).drop_last() =~= all.subrange(0, at));
            }
            let answer = self.apply(action);
            r.push(answer);
            proof {
                states = so_far.push(*self);
            }
        }
        proof {
            assert(all.subrange(0, all.len() as int) =~= all);
        }
        r
    }
}

} // verus!
