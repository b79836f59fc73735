use vstd::prelude::*;

verus! {

/// Identifies a user (a holder).
pub type UserId = u64;

/// Identifies a catalogue item (a book).
pub type BookId = u64;

/// Identifies a loan record.
pub type CheckoutId = u64;

/// A point in time, as a count of clock ticks.
pub type Timestamp = u64;

/// What a user may do beyond acting on their own behalf.
#[derive(Debug, Clone, Copy, PartialEq, Eq, Structural)]
pub enum Role {
    Admin,
    User,
}

/// A resolved identity.
#[derive(Debug, Clone, Copy, PartialEq, Eq, Structural)]
pub struct User {
    pub id: UserId,
    pub role: Role,
}

/// The bearer credential a request presented.
#[derive(Debug, Clone)]
pub struct AccessToken(pub String);

/// A request's identity once its credential has been resolved.
#[derive(Debug, Clone)]
pub struct AuthorizedUser {
    pub access_token: AccessToken,
    pub user: User,
}

impl AuthorizedUser {
    pub fn id(&self) -> (r: UserId)
        ensures
            r == self.user.id,
    {
        self.user.id
    }

    pub fn is_admin(&self) -> (r: bool)
        ensures
            r == (self.user.role == Role::Admin),
    {
        match self.user.role {
            Role::Admin => true,
            Role::User => false,
        }
    }
}

/// A catalogue entry that can be lent.
#[derive(Debug, Clone)]
pub struct Book {
    pub id: BookId,
    pub title: String,
    pub author: String,
    pub isbn: String,
    pub description: String,
    pub owner: UserId,
}

/// One borrow-to-return cycle of one item by one holder. A loan with no
/// `returned_at` is active.
#[derive(Debug, Clone, Copy, PartialEq, Eq, Structural)]
pub struct LoanRecord {
    pub id: CheckoutId,
    pub book_id: BookId,
    pub user_id: UserId,
    pub checked_out_at: Timestamp,
    pub returned_at: Option<Timestamp>,
}

impl LoanRecord {
    pub open spec fn is_active(self) -> bool {
        self.returned_at is None
    }
}

/// The descriptive fields of the lent item, as shown beside a loan.
#[derive(Debug, Clone)]
pub struct CheckoutBook {
    pub book_id: BookId,
    pub title: String,
    pub author: String,
    pub isbn: String,
}

/// A loan joined with the item it concerns.
#[derive(Debug, Clone)]
pub struct Checkout {
    pub id: CheckoutId,
    pub checked_out_by: UserId,
    pub checked_out_at: Timestamp,
    pub returned_at: Option<Timestamp>,
    pub book: CheckoutBook,
}

impl Checkout {
    /// The loan record this view shows.
    pub open spec fn record(self) -> LoanRecord {
        LoanRecord {
            id: self.id,
            book_id: self.book.book_id,
            user_id: self.checked_out_by,
            checked_out_at: self.checked_out_at,
            returned_at: self.returned_at,
        }
    }

    /// The view shows the loan `l` of the item `b`.
    pub open spec fn shows(self, l: LoanRecord, b: Book) -> bool {
        &&& self.record() == l
        &&& self.book.title@ == b.title@
        &&& self.book.author@ == b.author@
        &&& self.book.isbn@ == b.isbn@
    }
}

/// The current state of one item: when it is out, the active loan and its
/// holder; when it is available, neither.
#[derive(Debug, Clone, Copy, PartialEq, Eq, Structural)]
pub struct CheckoutStateRow {
    pub book_id: BookId,
    pub checkout_id: Option<CheckoutId>,
    pub user_id: Option<UserId>,
}

/// A request to lend an item to a holder at a given time.
#[derive(Debug, Clone, Copy, PartialEq, Eq, Structural)]
pub struct CreateCheckout {
    pub book_id: BookId,
    pub checked_out_by: UserId,
    pub checked_out_at: Timestamp,
}

/// A request to close a loan at a given time.
#[derive(Debug, Clone, Copy, PartialEq, Eq, Structural)]
pub struct UpdateReturned {
    pub checkout_id: CheckoutId,
    pub returned_at: Timestamp,
}

} // verus!
