use vstd::prelude::*;

verus! {

/// The borrow state of one element.
///
/// `Shared(n)` counts the shared guards outstanding on that element; it is
/// never `Shared(0)` in a well-formed container.
#[derive(Clone, Copy, Debug, PartialEq, Eq, Structural)]
pub enum BorrowState {
    Free,
    Shared(usize),
    Exclusive,
}

/// Number of shared guards that one state accounts for.
pub open spec fn shared_holders(s: BorrowState) -> nat {
    match s {
        BorrowState::Shared(n) => n as nat,
        _ => 0,
    }
}

/// Number of exclusive guards that one state accounts for.
pub open spec fn exclusive_holders(s: BorrowState) -> nat {
    if s is Exclusive {
        1
    } else {
        0
    }
}

/// Shared guards outstanding over a whole table of states.
pub open spec fn shared_total(states: Seq<BorrowState>) -> nat
    decreases states.len(),
{
    if states.len() == 0 {
        0
    } else {
        shared_total(states.drop_last()) + shared_holders(states.last())
    }
}

/// Exclusive guards outstanding over a whole table of states.
pub open spec fn exclusive_total(states: Seq<BorrowState>) -> nat
    decreases states.len(),
{
    if states.len() == 0 {
        0
    } else {
        exclusive_total(states.drop_last()) + exclusive_holders(states.last())
    }
}

/// Overwriting one state moves the shared total by the difference of the two.
pub proof fn lemma_shared_total_update(states: Seq<BorrowState>, i: int, s: BorrowState)
    requires
        0 <= i < states.len(),
    ensures
        shared_total(states.update(i, s)) + shared_holders(states[i]) == shared_total(states)
            + shared_holders(s),
    decreases states.len(),
{
    let t = states.update(i, s);
    if i == states.len() - 1 {
        assert(t.drop_last() =~= states.drop_last());
    } else {
        assert(t.drop_last() =~= states.drop_last().update(i, s));
        lemma_shared_total_update(states.drop_last(), i, s);
    }
}

/// Overwriting one state moves the exclusive total by the difference of the two.
pub proof fn lemma_exclusive_total_update(states: Seq<BorrowState>, i: int, s: BorrowState)
    requires
        0 <= i < states.len(),
    ensures
        exclusive_total(states.update(i, s)) + exclusive_holders(states[i]) == exclusive_total(
            states,
        ) + exclusive_holders(s),
    decreases states.len(),
{
    let t = states.update(i, s);
    if i == states.len() - 1 {
        assert(t.drop_last() =~= states.drop_last());
    } else {
        assert(t.drop_last() =~= states.drop_last().update(i, s));
        lemma_exclusive_total_update(states.drop_last(), i, s);
    }
}

/// One element's shared guards are part of the total.
pub proof fn lemma_shared_holders_bounded(states: Seq<BorrowState>, i: int)
    requires
        0 <= i < states.len(),
    ensures
        shared_holders(states[i]) <= shared_total(states),
    decreases states.len(),
{
    if i < states.len() - 1 {
        lemma_shared_holders_bounded(states.drop_last(), i);
    }
}

/// At most one exclusive guard per element, and fewer than the length when
/// some element is not exclusively held.
pub proof fn lemma_exclusive_total_bounded(states: Seq<BorrowState>, i: int)
    requires
        0 <= i < states.len(),
        !(states[i] is Exclusive),
    ensures
        exclusive_total(states) < states.len(),
    decreases states.len(),
{
    lemma_exclusive_total_at_most_len(states.drop_last());
    if i < states.len() - 1 {
        lemma_exclusive_total_bounded(states.drop_last(), i);
    }
}

/// The exclusive total never exceeds the number of states.
pub proof fn lemma_exclusive_total_at_most_len(states: Seq<BorrowState>)
    ensures
        exclusive_total(states) <= states.len(),
    decreases states.len(),
{
    if states.len() > 0 {
        lemma_exclusive_total_at_most_len(states.drop_last());
    }
}

/// The exclusive total is positive exactly when some state is `Exclusive`.
pub proof fn lemma_exclusive_total_positive(states: Seq<BorrowState>)
    ensures
        exclusive_total(states) > 0 <==> exists|i: int|
            0 <= i < states.len() && #[trigger] states[i] is Exclusive,
    decreases states.len(),
{
    if states.len() > 0 {
        let init = states.drop_last();
        lemma_exclusive_total_positive(init);
        if exclusive_total(states) > 0 && !(states.last() is Exclusive) {
            let j = choose|j: int| 0 <= j < init.len() && #[trigger] init[j] is Exclusive;
            assert(states[j] == init[j]);
        }
        if exists|i: int| 0 <= i < states.len() && #[trigger] states[i] is Exclusive {
            let j = choose|j: int| 0 <= j < states.len() && #[trigger] states[j] is Exclusive;
            if j < states.len() - 1 {
                assert(init[j] == states[j]);
            }
        }
    }
}

/// Appending a state adds what it accounts for to both totals.
pub proof fn lemma_totals_push(states: Seq<BorrowState>, s: BorrowState)
    ensures
        shared_total(states.push(s)) == shared_total(states) + shared_holders(s),
        exclusive_total(states.push(s)) == exclusive_total(states) + exclusive_holders(s),
{
    assert(states.push(s).drop_last() =~= states);
}

} // verus!
