use vstd::prelude::*;
use crate::auth::{permit, permits, Action};
use crate::book::CreateBookRequest;
use crate::error::AppError;
use crate::model::{
    AuthorizedUser, Book, BookId, Checkout, CheckoutBook, CheckoutId, CheckoutStateRow,
    CreateCheckout, LoanRecord, Timestamp, UpdateReturned, User, UserId,
};

verus! {

/// `l` is an active loan of `book`.
pub open spec fn active_for(l: LoanRecord, book: BookId) -> bool {
    l.book_id == book && l.is_active()
}

/// Some loan of `loans` is an active loan of `book`.
pub open spec fn has_active(loans: Seq<LoanRecord>, book: BookId) -> bool {
    exists|i: int| 0 <= i < loans.len() && active_for(#[trigger] loans[i], book)
}

/// How many loans of `loans` are active loans of `book`.
pub open spec fn active_count(loans: Seq<LoanRecord>, book: BookId) -> nat
    decreases loans.len(),
{
    if loans.len() == 0 {
        0
    } else {
        active_count(loans.drop_last(), book) + if active_for(loans.last(), book) {
            1nat
        } else {
            0nat
        }
    }
}

/// The time a transition made at `now` is recorded with: `now`, unless the
/// store's clock has already reached it, in which case the next tick.
pub open spec fn next_stamp(clock: Timestamp, now: Timestamp) -> int {
    if now > clock {
        now as int
    } else {
        clock + 1
    }
}

/// No later time than `clock` can be recorded.
pub open spec fn clock_exhausted(clock: Timestamp, now: Timestamp) -> bool {
    now <= clock && clock == u64::MAX
}

/// The three read views over the loan table.
#[derive(Debug, Clone, Copy, PartialEq, Eq, Structural)]
pub enum LoanQuery {
    /// Every active loan.
    Unreturned,
    /// The active loans of one holder.
    UnreturnedBy(UserId),
    /// Every loan, active or returned, of one item.
    HistoryOf(BookId),
}

pub open spec fn query_matches(q: LoanQuery, l: LoanRecord) -> bool {
    match q {
        LoanQuery::Unreturned => l.is_active(),
        LoanQuery::UnreturnedBy(u) => l.is_active() && l.user_id == u,
        LoanQuery::HistoryOf(b) => l.book_id == b,
    }
}

/// The loans of `loans` that `q` asks for, in the order they were made.
pub open spec fn select(loans: Seq<LoanRecord>, q: LoanQuery) -> Seq<LoanRecord>
    decreases loans.len(),
{
    if loans.len() == 0 {
        Seq::empty()
    } else {
        let rest = select(loans.drop_last(), q);
        if query_matches(q, loans.last()) {
            rest.push(loans.last())
        } else {
            rest
        }
    }
}

/// A record at position `i` of a store with `n_books` items and clock `clock`
/// is sound: it is numbered by its position, names an existing item, and its
/// times are ordered and not later than the clock.
pub open spec fn record_sound(l: LoanRecord, i: int, n_books: nat, clock: Timestamp) -> bool {
    &&& l.id == i
    &&& l.book_id < n_books
    &&& l.checked_out_at <= clock
    &&& match l.returned_at {
        Some(t) => l.checked_out_at < t && t <= clock,
        None => true,
    }
}

/// The lending state: the items, the append-only loan table, and the clock
/// that stamps transitions. The current state of an item is never stored: it
/// is computed from the loan table.
pub struct LendingStore {
    books: Vec<Book>,
    loans: Vec<LoanRecord>,
    clock: Timestamp,
}

impl LendingStore {
    pub closed spec fn books(self) -> Seq<Book> {
        self.books@
    }

    pub closed spec fn loans(self) -> Seq<LoanRecord> {
        self.loans@
    }

    /// The latest time recorded so far.
    pub closed spec fn clock(self) -> Timestamp {
        self.clock
    }

    /// Items are numbered by position, every record is sound, loans are
    /// recorded in strictly increasing order of time, and no item has two
    /// active loans.
    pub open spec fn wf(self) -> bool {
        &&& forall|j: int| 0 <= j < self.books().len() ==> (#[trigger] self.books()[j]).id == j
        &&& forall|i: int|
            0 <= i < self.loans().len() ==> record_sound(
                #[trigger] self.loans()[i],
                i,
                self.books().len(),
                self.clock(),
            )
        &&& forall|i: int, j: int|
            0 <= i < j < self.loans().len() ==> (#[trigger] self.loans()[i]).checked_out_at
                < (#[trigger] self.loans()[j]).checked_out_at
        &&& forall|i: int, j: int|
            0 <= i < self.loans().len() && 0 <= j < self.loans().len() && i != j && active_for(
                #[trigger] self.loans()[i],
                self.loans()[j].book_id,
            ) ==> !(#[trigger] self.loans()[j]).is_active()
    }

    /// Why a borrow by `user` of `event` is refused, if it is.
    pub open spec fn borrow_error(self, user: User, event: CreateCheckout) -> Option<AppError> {
        if event.book_id >= self.books().len() {
            Some(AppError::NotFound)
        } else if !permits(user, Action::Borrow { on_behalf_of: event.checked_out_by }) {
            Some(AppError::Forbidden)
        } else if has_active(self.loans(), event.book_id) {
            Some(AppError::Conflict)
        } else if clock_exhausted(self.clock(), event.checked_out_at) {
            Some(AppError::StorageUnavailable)
        } else {
            None
        }
    }

    /// The record a successful borrow of `event` adds.
    pub open spec fn new_loan(self, event: CreateCheckout) -> LoanRecord {
        LoanRecord {
            id: self.loans().len() as u64,
            book_id: event.book_id,
            user_id: event.checked_out_by,
            checked_out_at: next_stamp(self.clock(), event.checked_out_at) as u64,
            returned_at: None,
        }
    }

    /// `next` is this store after a successful borrow of `event`.
    pub open spec fn borrowed_into(self, next: LendingStore, event: CreateCheckout) -> bool {
        &&& next.books() == self.books()
        &&& next.loans() == self.loans().push(self.new_loan(event))
        &&& next.clock() == next_stamp(self.clock(), event.checked_out_at)
    }

    /// Why a return by `user` of `event` is refused, if it is.
    pub open spec fn return_error(self, user: User, event: UpdateReturned) -> Option<AppError> {
        if event.checkout_id >= self.loans().len() {
            Some(AppError::NotFound)
        } else if !self.loans()[event.checkout_id as int].is_active() {
            Some(AppError::Conflict)
        } else if !permits(
            user,
            Action::Return { loan_holder: self.loans()[event.checkout_id as int].user_id },
        ) {
            Some(AppError::Forbidden)
        } else if clock_exhausted(self.clock(), event.returned_at) {
            Some(AppError::StorageUnavailable)
        } else {
            None
        }
    }

    /// The record a successful return of `event` leaves.
    pub open spec fn closed_loan(self, event: UpdateReturned) -> LoanRecord {
        let l = self.loans()[event.checkout_id as int];
        LoanRecord {
            returned_at: Some(next_stamp(self.clock(), event.returned_at) as u64),
            ..l
        }
    }

    /// `next` is this store after a successful return of `event`.
    pub open spec fn returned_into(self, next: LendingStore, event: UpdateReturned) -> bool {
        &&& next.books() == self.books()
        &&& next.loans() == self.loans().update(
            event.checkout_id as int,
            self.closed_loan(event),
        )
        &&& next.clock() == next_stamp(self.clock(), event.returned_at)
    }

    /// An empty store.
    pub fn new() -> (r: LendingStore)
        ensures
            r.wf(),
            r.books().len() == 0,
            r.loans().len() == 0,
            r.clock() == 0,
    {
        LendingStore { books: Vec::new(), loans: Vec::new(), clock: 0 }
    }

    /// Adds an item to the catalogue and returns its id.
    pub fn register_book(&mut self, request: CreateBookRequest, owner: UserId) -> (r: BookId)
        requires
            old(self).wf(),
        ensures
            final(self).wf(),
            r == old(self).books().len(),
            final(self).books() == old(self).books().push(
                (Book {
                    id: r,
                    title: request.title,
                    author: request.author,
                    isbn: request.isbn,
                    description: request.description,
                    owner,
                }),
            ),
            final(self).loans() == old(self).loans(),
            final(self).clock() == old(self).clock(),
    {
        let id = self.books.len() as u64;
        let CreateBookRequest { title, author, isbn, description } = request;
        self.books.push(Book { id, title, author, isbn, description, owner });
        assert forall|j: int| 0 <= j < self.books().len() implies (#[trigger] self.books()[j]).id
            == j by {
            if j < old(self).books().len() {
                assert(self.books()[j] == old(self).books()[j]);
            }
        }
        assert forall|i: int| 0 <= i < self.loans().len() implies record_sound(
            #[trigger] self.loans()[i],
            i,
            self.books().len(),
            self.clock(),
        ) by {
            assert(record_sound(old(self).loans()[i], i, old(self).books().len(), self.clock()));
        }
        id
    }

    /// The number of items in the catalogue.
    pub fn book_count(&self) -> (r: usize)
        ensures
            r == self.books().len(),
    {
        self.books.len()
    }

    /// The whole loan table, in the order the loans were made.
    pub fn loan_records(&self) -> (r: Vec<LoanRecord>)
        ensures
            r@ == self.loans(),
    {
        self.loans.clone()
    }

    /// The loan record `id`, if there is one.
    pub fn find_loan(&self, id: CheckoutId) -> (r: Option<LoanRecord>)
        ensures
            r == if id < self.loans().len() {
                Some(self.loans()[id as int])
            } else {
                None::<LoanRecord>
            },
    {
        if id < self.loans.len() as u64 {
            Some(self.loans[id as usize])
        } else {
            None
        }
    }

    /// Finds the active loan of `book_id`, if any. Requires the item to
    /// exist.
    fn active_loan_of(&self, book_id: BookId) -> (r: Option<usize>)
        requires
            self.wf(),
        ensures
            r is None <==> !has_active(self.loans(), book_id),
            r matches Some(i) ==> i < self.loans().len() && active_for(self.loans()[i as int], book_id),
    {
        let mut i: usize = 0;
        while i < self.loans.len()
            invariant
                i <= self.loans().len(),
                forall|k: int| 0 <= k < i ==> !active_for(#[trigger] self.loans()[k], book_id),
            decreases self.loans().len() - i,
        {
            let l = self.loans[i];
            if l.book_id == book_id && l.returned_at.is_none() {
                return Some(i);
            }
            i = i + 1;
        }
        None
    }

    /// The current state of an item: its active loan and holder, or neither
    /// when it is available.
    pub fn current_state(&self, book_id: BookId) -> (r: Result<CheckoutStateRow, AppError>)
        requires
            self.wf(),
        ensures
            book_id >= self.books().len() ==> r == Err::<CheckoutStateRow, AppError>(
                AppError::NotFound,
            ),
            book_id < self.books().len() ==> (r matches Ok(row) && row.book_id == book_id && (
            match row.checkout_id {
                Some(c) => c < self.loans().len() && active_for(self.loans()[c as int], book_id)
                    && row.user_id == Some(self.loans()[c as int].user_id),
                None => !has_active(self.loans(), book_id) && row.user_id is None,
            })),
    {
        if book_id >= self.books.len() as u64 {
            return Err(AppError::NotFound);
        }
        match self.active_loan_of(book_id) {
            Some(i) => {
                let l = self.loans[i];
                Ok(CheckoutStateRow { book_id, checkout_id: Some(l.id), user_id: Some(l.user_id) })
            },
            None => Ok(CheckoutStateRow { book_id, checkout_id: None, user_id: None }),
        }
    }

    /// Borrows an item: lends `event.book_id` to `event.checked_out_by`,
    /// as asked by `requester`. Refused with `NotFound` when the item does
    /// not exist, `Forbidden` when the requester may not borrow for that
    /// holder, `Conflict` when the item is already out, and
    /// `StorageUnavailable` when no later time can be recorded; a refusal
    /// changes nothing. On success the new active loan is appended and
    /// returned joined with its item.
    pub fn create(&mut self, requester: &AuthorizedUser, event: CreateCheckout) -> (r: Result<
        Checkout,
        AppError,
    >)
        requires
            old(self).wf(),
        ensures
            final(self).wf(),
            match old(self).borrow_error(requester.user, event) {
                Some(e) => r == Err::<Checkout, AppError>(e) && *final(self) == *old(self),
                None => old(self).borrowed_into(*final(self), event) && (r matches Ok(c)
                    && c.shows(
                    old(self).new_loan(event),
                    old(self).books()[event.book_id as int],
                )),
            },
    {
        if event.book_id >= self.books.len() as u64 {
            return Err(AppError::NotFound);
        }
        if !permit(requester, Action::Borrow { on_behalf_of: event.checked_out_by }) {
            return Err(AppError::Forbidden);
        }
        if self.active_loan_of(event.book_id).is_some() {
            return Err(AppError::Conflict);
        }
        let stamp = match self.stamp(event.checked_out_at) {
            Some(t) => t,
            None => return Err(AppError::StorageUnavailable),
        };
        let loan = LoanRecord {
            id: self.loans.len() as u64,
            book_id: event.book_id,
            user_id: event.checked_out_by,
            checked_out_at: stamp,
            returned_at: None,
        };
        proof {
            assert(loan == old(self).new_loan(event));
        }
        self.loans.push(loan);
        self.clock = stamp;
        proof {
            let n = old(self).loans().len();
            assert forall|i: int| 0 <= i < self.loans().len() implies record_sound(
                #[trigger] self.loans()[i],
                i,
                self.books().len(),
                self.clock(),
            ) by {
                if i < n {
                    assert(self.loans()[i] == old(self).loans()[i]);
                }
            }
            assert forall|i: int, j: int|
                0 <= i < j < self.loans().len() implies (#[trigger] self.loans()[i]).checked_out_at
                < (#[trigger] self.loans()[j]).checked_out_at by {
                assert(self.loans()[i] == old(self).loans()[i]);
                if j < n {
                    assert(self.loans()[j] == old(self).loans()[j]);
                } else {
                    assert(record_sound(old(self).loans()[i], i, old(self).books().len(), old(self).clock()));
                }
            }
            assert forall|i: int, j: int|
                0 <= i < self.loans().len() && 0 <= j < self.loans().len() && i != j && active_for(
                    #[trigger] self.loans()[i],
                    self.loans()[j].book_id,
                ) implies !(#[trigger] self.loans()[j]).is_active() by {
                if i < n && j < n {
                    assert(self.loans()[i] == old(self).loans()[i]);
                    assert(self.loans()[j] == old(self).loans()[j]);
                } else if i < n {
                    assert(self.loans()[i] == old(self).loans()[i]);
                    assert(!active_for(old(self).loans()[i], event.book_id));
                } else {
                    assert(self.loans()[j] == old(self).loans()[j]);
                    assert(!active_for(old(self).loans()[j], event.book_id));
                }
            }
        }
        Ok(self.checkout_view(loan))
    }

    /// Returns a loan: closes loan `event.checkout_id`, as asked by
    /// `requester`. Refused with `NotFound` when there is no such loan,
    /// `Conflict` when it was already returned, `Forbidden` when the
    /// requester is neither its holder nor an administrator, and
    /// `StorageUnavailable` when no later time can be recorded; a refusal
    /// changes nothing. On success the loan gets its return time, once, and
    /// is returned joined with its item.
    pub fn update_returned(&mut self, requester: &AuthorizedUser, event: UpdateReturned) -> (r:
        Result<Checkout, AppError>)
        requires
            old(self).wf(),
        ensures
            final(self).wf(),
            match old(self).return_error(requester.user, event) {
                Some(e) => r == Err::<Checkout, AppError>(e) && *final(self) == *old(self),
                None => old(self).returned_into(*final(self), event) && (r matches Ok(c)
                    && c.shows(
                    old(self).closed_loan(event),
                    old(self).books()[old(self).loans()[event.checkout_id as int].book_id as int],
                )),
            },
    {
        let n = self.loans.len();
        if event.checkout_id >= n as u64 {
            return Err(AppError::NotFound);
        }
        let idx = event.checkout_id as usize;
        let loan = self.loans[idx];
        if loan.returned_at.is_some() {
            return Err(AppError::Conflict);
        }
        if !permit(requester, Action::Return { loan_holder: loan.user_id }) {
            return Err(AppError::Forbidden);
        }
        let stamp = match self.stamp(event.returned_at) {
            Some(t) => t,
            None => return Err(AppError::StorageUnavailable),
        };
        let closed = LoanRecord { returned_at: Some(stamp), ..loan };
        proof {
            assert(closed == old(self).closed_loan(event));
        }
        self.loans.set(idx, closed);
        self.clock = stamp;
        proof {
            assert forall|i: int| 0 <= i < self.loans().len() implies record_sound(
                #[trigger] self.loans()[i],
                i,
                self.books().len(),
                self.clock(),
            ) by {
                assert(record_sound(old(self).loans()[i], i, old(self).books().len(), old(self).clock()));
            }
            assert forall|i: int, j: int|
                0 <= i < j < self.loans().len() implies (#[trigger] self.loans()[i]).checked_out_at
                < (#[trigger] self.loans()[j]).checked_out_at by {
                assert(old(self).loans()[i].checked_out_at < old(self).loans()[j].checked_out_at);
            }
            assert forall|i: int, j: int|
                0 <= i < self.loans().len() && 0 <= j < self.loans().len() && i != j && active_for(
                    #[trigger] self.loans()[i],
                    self.loans()[j].book_id,
                ) implies !(#[trigger] self.loans()[j]).is_active() by {
                assert(old(self).loans()[i].book_id == self.loans()[i].book_id);
                assert(old(self).loans()[j].book_id == self.loans()[j].book_id);
                if i != idx && j != idx {
                    assert(active_for(old(self).loans()[i], old(self).loans()[j].book_id));
                }
            }
        }
        Ok(self.checkout_view(closed))
    }

    /// The loans `q` asks for, joined with their items, in the order they
    /// were made.
    fn collect(&self, q: LoanQuery) -> (r: Vec<Checkout>)
        requires
            self.wf(),
        ensures
            r@.len() == select(self.loans(), q).len(),
            forall|k: int|
                0 <= k < r@.len() ==> (#[trigger] r@[k]).shows(
                    select(self.loans(), q)[k],
                    self.books()[select(self.loans(), q)[k].book_id as int],
                ),
    {
        let mut out: Vec<Checkout> = Vec::new();
        let mut i: usize = 0;
        while i < self.loans.len()
            invariant
                self.wf(),
                i <= self.loans().len(),
                out@.len() == select(self.loans().take(i as int), q).len(),
                forall|k: int|
                    0 <= k < out@.len() ==> (#[trigger] out@[k]).shows(
                        select(self.loans().take(i as int), q)[k],
                        self.books()[select(self.loans().take(i as int), q)[k].book_id as int],
                    ),
            decreases self.loans().len() - i,
        {
            let l = self.loans[i];
            proof {
                assert(self.loans().take(i + 1).drop_last() == self.loans().take(i as int));
                assert(self.loans().take(i + 1).last() == l);
                assert(record_sound(self.loans()[i as int], i as int, self.books().len(), self.clock()));
            }
            let hit = match q {
                LoanQuery::Unreturned => l.returned_at.is_none(),
                LoanQuery::UnreturnedBy(u) => l.returned_at.is_none() && l.user_id == u,
                LoanQuery::HistoryOf(b) => l.book_id == b,
            };
            if hit {
                let c = self.checkout_view(l);
                out.push(c);
            }
            i = i + 1;
        }
        proof {
            assert(self.loans().take(self.loans().len() as int) == self.loans());
        }
        out
    }

    /// Every active loan, oldest first.
    pub fn find_unreturned_all(&self) -> (r: Vec<Checkout>)
        requires
            self.wf(),
        ensures
            r@.len() == select(self.loans(), LoanQuery::Unreturned).len(),
            forall|k: int|
                0 <= k < r@.len() ==> (#[trigger] r@[k]).shows(
                    select(self.loans(), LoanQuery::Unreturned)[k],
                    self.books()[select(self.loans(), LoanQuery::Unreturned)[k].book_id as int],
                ),
    {
        self.collect(LoanQuery::Unreturned)
    }

    /// The active loans held by `user_id`, oldest first.
    pub fn find_unreturned_by_user_id(&self, user_id: UserId) -> (r: Vec<Checkout>)
        requires
            self.wf(),
        ensures
            r@.len() == select(self.loans(), LoanQuery::UnreturnedBy(user_id)).len(),
            forall|k: int|
                0 <= k < r@.len() ==> (#[trigger] r@[k]).shows(
                    select(self.loans(), LoanQuery::UnreturnedBy(user_id))[k],
                    self.books()[select(
                        self.loans(),
                        LoanQuery::UnreturnedBy(user_id),
                    )[k].book_id as int],
                ),
    {
        self.collect(LoanQuery::UnreturnedBy(user_id))
    }

    /// Every loan of `book_id`, active or returned, in increasing order of
    /// borrow time, so that the latest comes last.
    pub fn find_history_by_book_id(&self, book_id: BookId) -> (r: Vec<Checkout>)
        requires
            self.wf(),
        ensures
            r@.len() == select(self.loans(), LoanQuery::HistoryOf(book_id)).len(),
            forall|k: int|
                0 <= k < r@.len() ==> (#[trigger] r@[k]).shows(
                    select(self.loans(), LoanQuery::HistoryOf(book_id))[k],
                    self.books()[book_id as int],
                ),
            forall|a: int, b: int|
                0 <= a < b < r@.len() ==> (#[trigger] r@[a]).checked_out_at
                    < (#[trigger] r@[b]).checked_out_at,
    {
        let r = self.collect(LoanQuery::HistoryOf(book_id));
        proof {
            lemma_select_matches(self.loans(), LoanQuery::HistoryOf(book_id));
            crate::laws::lemma_history_ordered(*self, book_id);
            let sel = select(self.loans(), LoanQuery::HistoryOf(book_id));
            assert forall|a: int, b: int| 0 <= a < b < r@.len() implies (#[trigger] r@[a]).checked_out_at
                < (#[trigger] r@[b]).checked_out_at by {
                assert(r@[a].record() == sel[a] && r@[b].record() == sel[b]);
            }
        }
        r
    }

    /// The view of loan `l` joined with its item.
    fn checkout_view(&self, l: LoanRecord) -> (r: Checkout)
        requires
            self.wf(),
            l.book_id < self.books().len(),
        ensures
            r.shows(l, self.books()[l.book_id as int]),
    {
        let n = self.books.len();
        assert(l.book_id < n);
        let idx = l.book_id as usize;
        let b = &self.books[idx];
        Checkout {
            id: l.id,
            checked_out_by: l.user_id,
            checked_out_at: l.checked_out_at,
            returned_at: l.returned_at,
            book: CheckoutBook {
                book_id: l.book_id,
                title: b.title.clone(),
                author: b.author.clone(),
                isbn: b.isbn.clone(),
            },
        }
    }

    /// The time a transition made at `now` is recorded with, if the clock can
    /// still advance.
    fn stamp(&self, now: Timestamp) -> (r: Option<Timestamp>)
        ensures
            r is None <==> clock_exhausted(self.clock(), now),
            r matches Some(t) ==> t == next_stamp(self.clock(), now),
    {
        if now > self.clock {
            Some(now)
        } else if self.clock < u64::MAX {
            Some(self.clock + 1)
        } else {
            None
        }
    }
}

/// Every loan that `q` selects is one of `loans` that it matches.
pub proof fn lemma_select_matches(loans: Seq<LoanRecord>, q: LoanQuery)
    ensures
        forall|k: int|
            0 <= k < select(loans, q).len() ==> query_matches(q, #[trigger] select(loans, q)[k]),
        forall|k: int|
            0 <= k < select(loans, q).len() ==> exists|i: int|
                0 <= i < loans.len() && loans[i] == #[trigger] select(loans, q)[k],
    decreases loans.len(),
{
    if loans.len() > 0 {
        let rest = loans.drop_last();
        lemma_select_matches(rest, q);
        assert forall|k: int| 0 <= k < select(loans, q).len() implies exists|i: int|
            0 <= i < loans.len() && loans[i] == #[trigger] select(loans, q)[k] by {
            if k < select(rest, q).len() {
                let i = choose|i: int| 0 <= i < rest.len() && rest[i] == select(rest, q)[k];
                assert(loans[i] == select(loans, q)[k]);
            } else {
                assert(loans[loans.len() - 1] == select(loans, q)[k]);
            }
        }
    }
}

} // verus!
