use vstd::prelude::*;
use crate::model::{BookId, LoanRecord, Role, UpdateReturned, User, CreateCheckout};
use crate::error::AppError;
use crate::auth::{permits, Action};
use crate::store::{
    active_count, active_for, clock_exhausted, has_active, lemma_select_matches, query_matches,
    select, LendingStore, LoanQuery,
};

verus! {

/// No two distinct loans of `loans` are both active loans of `book`.
pub open spec fn single_active(loans: Seq<LoanRecord>, book: BookId) -> bool {
    forall|i: int, j: int|
        0 <= i < loans.len() && 0 <= j < loans.len() && i != j && active_for(
            #[trigger] loans[i],
            book,
        ) ==> !active_for(#[trigger] loans[j], book)
}

/// Loans are listed in strictly increasing order of borrow time.
pub open spec fn ordered_by_borrow_time(loans: Seq<LoanRecord>) -> bool {
    forall|a: int, b: int|
        0 <= a < b < loans.len() ==> (#[trigger] loans[a]).checked_out_at
            < (#[trigger] loans[b]).checked_out_at
}

/// The active-loan count of `book` is zero when it has no active loan, at
/// least one when it has, and at most one when no two loans are active.
proof fn lemma_active_count(loans: Seq<LoanRecord>, book: BookId)
    ensures
        !has_active(loans, book) ==> active_count(loans, book) == 0,
        has_active(loans, book) ==> active_count(loans, book) >= 1,
        single_active(loans, book) ==> active_count(loans, book) <= 1,
    decreases loans.len(),
{
    if loans.len() > 0 {
        let rest = loans.drop_last();
        lemma_active_count(rest, book);
        if has_active(loans, book) && !active_for(loans.last(), book) {
            let i = choose|i: int| 0 <= i < loans.len() && active_for(#[trigger] loans[i], book);
            assert(active_for(rest[i], book));
        }
        if !has_active(loans, book) {
            assert(!active_for(loans[loans.len() - 1], book));
            assert forall|i: int| 0 <= i < rest.len() implies !active_for(#[trigger] rest[i], book) by {
                assert(rest[i] == loans[i]);
            }
        }
        if single_active(loans, book) {
            assert forall|i: int, j: int|
                0 <= i < rest.len() && 0 <= j < rest.len() && i != j && active_for(
                    #[trigger] rest[i],
                    book,
                ) implies !active_for(#[trigger] rest[j], book) by {
                assert(rest[i] == loans[i] && rest[j] == loans[j]);
            }
            if active_for(loans.last(), book) {
                assert forall|i: int| 0 <= i < rest.len() implies !active_for(#[trigger] rest[i], book) by {
                    assert(rest[i] == loans[i]);
                    assert(loans.last() == loans[loans.len() - 1]);
                }
            }
        }
    }
}

/// Every loan of `loans` that `q` matches is among those `q` selects.
proof fn lemma_select_contains(loans: Seq<LoanRecord>, q: LoanQuery, i: int)
    requires
        0 <= i < loans.len(),
        query_matches(q, loans[i]),
    ensures
        select(loans, q).contains(loans[i]),
    decreases loans.len(),
{
    let rest = loans.drop_last();
    if i < loans.len() - 1 {
        lemma_select_contains(rest, q, i);
        let k = choose|k: int| 0 <= k < select(rest, q).len() && select(rest, q)[k] == rest[i];
        assert(select(loans, q)[k] == loans[i]);
    } else {
        assert(select(loans, q).last() == loans[i]);
    }
}

/// Selecting keeps the order of borrow times.
proof fn lemma_select_ordered(loans: Seq<LoanRecord>, q: LoanQuery)
    requires
        ordered_by_borrow_time(loans),
    ensures
        ordered_by_borrow_time(select(loans, q)),
    decreases loans.len(),
{
    if loans.len() > 0 {
        let rest = loans.drop_last();
        assert forall|a: int, b: int| 0 <= a < b < rest.len() implies (#[trigger] rest[a]).checked_out_at
            < (#[trigger] rest[b]).checked_out_at by {
            assert(rest[a] == loans[a] && rest[b] == loans[b]);
        }
        lemma_select_ordered(rest, q);
        lemma_select_matches(rest, q);
        let sel = select(loans, q);
        let sr = select(rest, q);
        if query_matches(q, loans.last()) {
            assert forall|a: int, b: int| 0 <= a < b < sel.len() implies (#[trigger] sel[a]).checked_out_at
                < (#[trigger] sel[b]).checked_out_at by {
                if b == sel.len() - 1 {
                    let i = choose|i: int| 0 <= i < rest.len() && rest[i] == #[trigger] sr[a];
                    assert(loans[i] == sel[a]);
                    assert(loans[loans.len() - 1] == sel[b]);
                } else {
                    assert(sel[a] == sr[a] && sel[b] == sr[b]);
                }
            }
        }
    }
}

/// In a well-formed store no item ever has more than one active loan.
pub proof fn lemma_at_most_one_active(s: LendingStore, book: BookId)
    requires
        s.wf(),
    ensures
        active_count(s.loans(), book) <= 1,
{
    assert forall|i: int, j: int|
        0 <= i < s.loans().len() && 0 <= j < s.loans().len() && i != j && active_for(
            #[trigger] s.loans()[i],
            book,
        ) implies !active_for(#[trigger] s.loans()[j], book) by {
        assert(active_for(s.loans()[i], s.loans()[j].book_id) || s.loans()[j].book_id != book);
    }
    lemma_active_count(s.loans(), book);
}

/// Once a borrow of an item has succeeded, the item has exactly one active
/// loan, and every further borrow of it that is otherwise permitted is
/// refused with `Conflict` (which leaves the store unchanged), so of any
/// number of borrows of one available item exactly one succeeds.
pub proof fn lemma_borrow_excludes_others(
    s: LendingStore,
    next: LendingStore,
    user: User,
    event: CreateCheckout,
    other: User,
    again: CreateCheckout,
)
    requires
        s.wf(),
        next.wf(),
        s.borrow_error(user, event) is None,
        s.borrowed_into(next, event),
        again.book_id == event.book_id,
        permits(other, Action::Borrow { on_behalf_of: again.checked_out_by }),
    ensures
        active_count(next.loans(), event.book_id) == 1,
        next.borrow_error(other, again) == Some(AppError::Conflict),
{
    let n = s.loans().len() as int;
    assert(active_for(next.loans()[n], event.book_id));
    assert(has_active(next.loans(), event.book_id));
    lemma_active_count(next.loans(), event.book_id);
    lemma_at_most_one_active(next, event.book_id);
}

/// Borrowing an item and returning the loan as its holder closes that loan:
/// the return is accepted (unless no later time can be recorded), the loan
/// then has a return time later than its borrow time, and it appears so in
/// the item's history.
pub proof fn lemma_borrow_return_round_trip(
    s0: LendingStore,
    s1: LendingStore,
    s2: LendingStore,
    user: User,
    event: CreateCheckout,
    holder: User,
    ret: UpdateReturned,
)
    requires
        s0.wf(),
        s1.wf(),
        s0.borrow_error(user, event) is None,
        s0.borrowed_into(s1, event),
        ret.checkout_id == s0.new_loan(event).id,
        holder.id == event.checked_out_by,
        !clock_exhausted(s1.clock(), ret.returned_at),
        s1.returned_into(s2, ret),
    ensures
        s1.return_error(holder, ret) is None,
        s2.loans()[ret.checkout_id as int].returned_at matches Some(t)
            && s2.loans()[ret.checkout_id as int].checked_out_at < t,
        select(s2.loans(), LoanQuery::HistoryOf(event.book_id)).contains(
            s2.loans()[ret.checkout_id as int],
        ),
{
    let n = s0.loans().len() as int;
    assert(s1.loans()[n] == s0.new_loan(event));
    assert(ret.checkout_id as int == n);
    lemma_select_contains(s2.loans(), LoanQuery::HistoryOf(event.book_id), n);
}

/// A loan is returned at most once: after a successful return, returning it
/// again is refused with `Conflict`, whoever asks.
pub proof fn lemma_second_return_conflicts(
    s1: LendingStore,
    s2: LendingStore,
    user: User,
    ret: UpdateReturned,
    other: User,
)
    requires
        s1.wf(),
        s1.return_error(user, ret) is None,
        s1.returned_into(s2, ret),
    ensures
        s2.return_error(other, ret) == Some(AppError::Conflict),
{
}

/// Only the holder of an active loan or an administrator may return it: any
/// other identity is refused with `Forbidden`, while an administrator's
/// return is accepted (unless no later time can be recorded).
pub proof fn lemma_return_authorization(s: LendingStore, user: User, ret: UpdateReturned)
    requires
        s.wf(),
        ret.checkout_id < s.loans().len(),
        s.loans()[ret.checkout_id as int].is_active(),
    ensures
        user.role != Role::Admin && user.id != s.loans()[ret.checkout_id as int].user_id
            ==> s.return_error(user, ret) == Some(AppError::Forbidden),
        user.role == Role::Admin && !clock_exhausted(s.clock(), ret.returned_at) ==> s.return_error(
            user,
            ret,
        ) is None,
{
}

/// An item's history lists its loans in strictly increasing order of borrow
/// time.
pub proof fn lemma_history_ordered(s: LendingStore, book: BookId)
    requires
        s.wf(),
    ensures
        ordered_by_borrow_time(select(s.loans(), LoanQuery::HistoryOf(book))),
{
    lemma_select_ordered(s.loans(), LoanQuery::HistoryOf(book));
}

} // verus!
