//! Asking plugins in turn until one answers: the decisions of the loops that
//! run resolvers and loaders one after another.
use vstd::prelude::*;

verus! {

/// What to do next while asking a list of plugins in turn.
pub enum ChainStep<T> {
    /// Ask the plugin at this position.
    Ask(usize),
    /// A plugin answered with this value: the search is over.
    Found(T),
    /// Every plugin was asked and none answered.
    Exhausted,
}

/// The step after the plugin at `index` of `count` gave `reply`.
pub open spec fn step_after<T>(count: nat, index: nat, reply: Option<T>) -> ChainStep<T> {
    match reply {
        Some(v) => ChainStep::Found(v),
        None => if index + 1 < count {
            ChainStep::Ask((index + 1) as usize)
        } else {
            ChainStep::Exhausted
        },
    }
}

/// Where asking the plugins from position `index` on ends, when the plugins
/// give `replies`, in order.
pub open spec fn outcome<T>(replies: Seq<Option<T>>, index: nat) -> ChainStep<T>
    decreases replies.len() - index,
{
    if index >= replies.len() {
        ChainStep::Exhausted
    } else {
        match replies[index as int] {
            Some(v) => ChainStep::Found(v),
            None => outcome(replies, index + 1),
        }
    }
}

/// Following the steps of a chain ends where `outcome` says: a step that asks
/// the next plugin leads to that plugin's outcome, and any other step is the
/// outcome itself.
pub proof fn chain_steps_reach_outcome<T>(replies: Seq<Option<T>>, index: nat)
    requires
        index < replies.len() <= usize::MAX,
    ensures
        match step_after(replies.len(), index, replies[index as int]) {
            ChainStep::Ask(j) => j == index + 1 && outcome(replies, index) == outcome(replies, j as nat),
            other => outcome(replies, index) == other,
        },
{
    if replies[index as int] is None && index + 1 >= replies.len() {
        assert(outcome(replies, index + 1) == ChainStep::<T>::Exhausted);
    }
}

/// A chain over plugins that give `replies` finds the answer of the first
/// plugin that answers, and is exhausted exactly when none answers.
pub proof fn chain_finds_first_answer<T>(replies: Seq<Option<T>>, index: nat)
    ensures
        forall|i: int, v: T|
            index <= i < replies.len() && replies[i] == Some(v) && (forall|j: int|
                index <= j < i ==> #[trigger] replies[j] is None) ==> outcome(replies, index)
                == ChainStep::Found(v),
        (forall|j: int| index <= j < replies.len() ==> #[trigger] replies[j] is None) <==> outcome(
            replies,
            index,
        ) == ChainStep::<T>::Exhausted,
    decreases replies.len() - index,
{
    if index < replies.len() {
        chain_finds_first_answer(replies, index + 1);
        if replies[index as int] is None {
            assert forall|i: int, v: T|
                index <= i < replies.len() && replies[i] == Some(v) && (forall|j: int|
                    index <= j < i ==> #[trigger] replies[j] is None) implies outcome(replies, index)
                == ChainStep::Found(v) by {
                assert(i != index);
                assert forall|j: int| index + 1 <= j < i implies #[trigger] replies[j] is None by {
                    assert(index <= j < i);
                }
            }
        } else {
            let w = replies[index as int]->Some_0;
            assert(outcome(replies, index) == ChainStep::Found(w));
            assert forall|i: int, v: T|
                index <= i < replies.len() && replies[i] == Some(v) && (forall|j: int|
                    index <= j < i ==> #[trigger] replies[j] is None) implies outcome(replies, index)
                == ChainStep::Found(v) by {
                if i > index {
                    assert(replies[index as int] is None);
                }
            }
            assert(!(forall|j: int| index <= j < replies.len() ==> #[trigger] replies[j] is None)) by {
                assert(replies[index as int] is Some);
            }
        }
    }
}

/// The first step of asking `count` plugins in turn.
pub fn chain_start<T>(count: usize) -> (step: ChainStep<T>)
    ensures
        count > 0 ==> step == ChainStep::<T>::Ask(0),
        count == 0 ==> step == ChainStep::<T>::Exhausted,
{
    if count > 0 {
        ChainStep::Ask(0)
    } else {
        ChainStep::Exhausted
    }
}

/// The step after the plugin at `index` (of `count`) gave `reply`: its
/// answer ends the search; without one, the next plugin is asked, and after
/// the last there is nobody left.
pub fn chain_next<T>(count: usize, index: usize, reply: Option<T>) -> (step: ChainStep<T>)
    requires
        index < count,
    ensures
        step == step_after(count as nat, index as nat, reply),
{
    match reply {
        Some(v) => ChainStep::Found(v),
        None => if index + 1 < count {
            ChainStep::Ask(index + 1)
        } else {
            ChainStep::Exhausted
        },
    }
}

} // verus!
