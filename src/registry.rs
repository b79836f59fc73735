use vstd::prelude::*;
use crate::book::CreateBookRequest;
use crate::error::AppError;
use crate::model::{
    AccessToken, AuthorizedUser, BookId, Checkout, CheckoutId, CreateCheckout, Role,
    Timestamp, UpdateReturned, User, UserId,
};
use crate::store::LendingStore;

verus! {

/// The known users, numbered by position.
pub struct UserRepository {
    users: Vec<User>,
}

impl UserRepository {
    pub closed spec fn users(self) -> Seq<User> {
        self.users@
    }

    pub open spec fn wf(self) -> bool {
        forall|i: int| 0 <= i < self.users().len() ==> (#[trigger] self.users()[i]).id == i
    }

    /// The user `id`, if known.
    pub open spec fn user_of(self, id: UserId) -> Option<User> {
        if id < self.users().len() {
            Some(self.users()[id as int])
        } else {
            None
        }
    }

    pub fn new() -> (r: UserRepository)
        ensures
            r.wf(),
            r.users().len() == 0,
    {
        UserRepository { users: Vec::new() }
    }

    /// Adds a user with the given role and returns its id.
    pub fn create(&mut self, role: Role) -> (r: UserId)
        requires
            old(self).wf(),
        ensures
            final(self).wf(),
            r == old(self).users().len(),
            final(self).users() == old(self).users().push(User { id: r, role }),
    {
        let id = self.users.len() as u64;
        self.users.push(User { id, role });
        assert forall|i: int| 0 <= i < self.users().len() implies (#[trigger] self.users()[i]).id
            == i by {
            if i < old(self).users().len() {
                assert(self.users()[i] == old(self).users()[i]);
            }
        }
        id
    }

    /// The user `user_id`, if known.
    pub fn find_current_user(&self, user_id: UserId) -> (r: Option<User>)
        ensures
            r == self.user_of(user_id),
    {
        if user_id < self.users.len() as u64 {
            Some(self.users[user_id as usize])
        } else {
            None
        }
    }
}

/// A credential that was issued to a user.
pub struct Session {
    pub token: AccessToken,
    pub user_id: UserId,
}

/// The user a credential was issued to, the latest issue winning.
pub open spec fn token_owner(sessions: Seq<Session>, token: Seq<char>) -> Option<UserId>
    decreases sessions.len(),
{
    if sessions.len() == 0 {
        None
    } else if sessions.last().token.0@ == token {
        Some(sessions.last().user_id)
    } else {
        token_owner(sessions.drop_last(), token)
    }
}

/// The issued credentials.
pub struct AuthRepository {
    sessions: Vec<Session>,
}

impl AuthRepository {
    pub closed spec fn sessions(self) -> Seq<Session> {
        self.sessions@
    }

    pub fn new() -> (r: AuthRepository)
        ensures
            r.sessions().len() == 0,
    {
        AuthRepository { sessions: Vec::new() }
    }

    /// Records that `token` was issued to `user_id`; it replaces any earlier
    /// issue of the same token.
    pub fn create_token(&mut self, token: AccessToken, user_id: UserId)
        ensures
            final(self).sessions() == old(self).sessions().push(Session { token, user_id }),
            token_owner(final(self).sessions(), token.0@) == Some(user_id),
    {
        self.sessions.push(Session { token, user_id });
        assert(self.sessions().drop_last() == old(self).sessions());
    }

    /// The user `token` was issued to, if any.
    pub fn fetch_user_id_from_token(&self, token: &AccessToken) -> (r: Option<UserId>)
        ensures
            r == token_owner(self.sessions(), token.0@),
    {
        let mut i: usize = self.sessions.len();
        assert(self.sessions().take(i as int) == self.sessions());
        while i > 0
            invariant
                i <= self.sessions().len(),
                token_owner(self.sessions(), token.0@) == token_owner(
                    self.sessions().take(i as int),
                    token.0@,
                ),
            decreases i,
        {
            proof {
                assert(self.sessions().take(i as int).drop_last() == self.sessions().take(i - 1));
            }
            let s = &self.sessions[i - 1];
            if s.token.0 == token.0 {
                return Some(s.user_id);
            }
            i = i - 1;
        }
        None
    }
}

/// The explicit wiring of the lending state with the user and credential
/// tables; handlers resolve the caller's identity through it and then act on
/// the store.
pub struct AppRegistry {
    book_repository: LendingStore,
    auth_repository: AuthRepository,
    user_repository: UserRepository,
}

impl AppRegistry {
    pub closed spec fn store(self) -> LendingStore {
        self.book_repository
    }

    pub closed spec fn auth(self) -> AuthRepository {
        self.auth_repository
    }

    pub closed spec fn users(self) -> UserRepository {
        self.user_repository
    }

    pub open spec fn wf(self) -> bool {
        self.store().wf() && self.users().wf()
    }

    /// The identity a credential resolves to: the known user it was issued
    /// to, if any.
    pub open spec fn identity_of(self, token: Seq<char>) -> Option<User> {
        match token_owner(self.auth().sessions(), token) {
            Some(id) => self.users().user_of(id),
            None => None,
        }
    }

    pub fn new() -> (r: AppRegistry)
        ensures
            r.wf(),
            r.store().books().len() == 0,
            r.store().loans().len() == 0,
            r.auth().sessions().len() == 0,
            r.users().users().len() == 0,
    {
        AppRegistry {
            book_repository: LendingStore::new(),
            auth_repository: AuthRepository::new(),
            user_repository: UserRepository::new(),
        }
    }

    pub fn book_repository(&self) -> (r: &LendingStore)
        ensures
            *r == self.store(),
    {
        &self.book_repository
    }

    pub fn auth_repository(&self) -> (r: &AuthRepository)
        ensures
            *r == self.auth(),
    {
        &self.auth_repository
    }

    pub fn user_repository(&self) -> (r: &UserRepository)
        ensures
            *r == self.users(),
    {
        &self.user_repository
    }

    /// Adds a user and returns its id.
    pub fn register_user(&mut self, role: Role) -> (r: UserId)
        requires
            old(self).wf(),
        ensures
            final(self).wf(),
            final(self).store() == old(self).store(),
            final(self).auth() == old(self).auth(),
            r == old(self).users().users().len(),
            final(self).users().users() == old(self).users().users().push(User { id: r, role }),
    {
        self.user_repository.create(role)
    }

    /// Records that `token` was issued to `user_id`.
    pub fn issue_token(&mut self, token: AccessToken, user_id: UserId)
        requires
            old(self).wf(),
        ensures
            final(self).wf(),
            final(self).store() == old(self).store(),
            final(self).users() == old(self).users(),
            final(self).auth().sessions() == old(self).auth().sessions().push(
                Session { token, user_id },
            ),
    {
        self.auth_repository.create_token(token, user_id)
    }

    /// Adds an item to the catalogue and returns its id.
    pub fn register_book(&mut self, request: CreateBookRequest, owner: UserId) -> (r: BookId)
        requires
            old(self).wf(),
        ensures
            final(self).wf(),
            final(self).auth() == old(self).auth(),
            final(self).users() == old(self).users(),
            r == old(self).store().books().len(),
            final(self).store().books().len() == old(self).store().books().len() + 1,
            final(self).store().books()[r as int].id == r,
            final(self).store().books()[r as int].title == request.title,
            final(self).store().books()[r as int].author == request.author,
            final(self).store().books()[r as int].isbn == request.isbn,
            final(self).store().books()[r as int].description == request.description,
            final(self).store().books()[r as int].owner == owner,
            forall|j: int|
                0 <= j < old(self).store().books().len() ==> final(self).store().books()[j]
                    == old(self).store().books()[j],
            final(self).store().loans() == old(self).store().loans(),
    {
        self.book_repository.register_book(request, owner)
    }

    /// Resolves the identity behind a credential: `Unauthenticated` when the
    /// credential was never issued or its user is unknown.
    pub fn authorize(&self, token: &AccessToken) -> (r: Result<AuthorizedUser, AppError>)
        ensures
            match self.identity_of(token.0@) {
                None => r == Err::<AuthorizedUser, AppError>(AppError::Unauthenticated),
                Some(u) => r matches Ok(a) && a.user == u && a.access_token.0@ == token.0@,
            },
    {
        let user_id = match self.auth_repository.fetch_user_id_from_token(token) {
            Some(id) => id,
            None => return Err(AppError::Unauthenticated),
        };
        match self.user_repository.find_current_user(user_id) {
            Some(user) => Ok(AuthorizedUser { access_token: AccessToken(token.0.clone()), user }),
            None => Err(AppError::Unauthenticated),
        }
    }

    /// Borrows item `book_id` at `now` for the caller behind `token`.
    pub fn checkout_book(&mut self, token: &AccessToken, book_id: BookId, now: Timestamp) -> (r:
        Result<Checkout, AppError>)
        requires
            old(self).wf(),
        ensures
            final(self).wf(),
            final(self).auth() == old(self).auth(),
            final(self).users() == old(self).users(),
            match old(self).identity_of(token.0@) {
                None => r == Err::<Checkout, AppError>(AppError::Unauthenticated) && *final(self)
                    == *old(self),
                Some(u) => {
                    let event = CreateCheckout {
                        book_id,
                        checked_out_by: u.id,
                        checked_out_at: now,
                    };
                    match old(self).store().borrow_error(u, event) {
                        Some(e) => r == Err::<Checkout, AppError>(e) && final(self).store()
                            == old(self).store(),
                        None => old(self).store().borrowed_into(final(self).store(), event) && (r matches Ok(c)
                            && c.shows(
                            old(self).store().new_loan(event),
                            old(self).store().books()[book_id as int],
                        )),
                    }
                },
            },
    {
        let requester = match self.authorize(token) {
            Ok(a) => a,
            Err(e) => return Err(e),
        };
        let event = CreateCheckout { book_id, checked_out_by: requester.id(), checked_out_at: now };
        self.book_repository.create(&requester, event)
    }

    /// Returns loan `checkout_id` at `now` for the caller behind `token`.
    pub fn return_book(&mut self, token: &AccessToken, checkout_id: CheckoutId, now: Timestamp) -> (r:
        Result<Checkout, AppError>)
        requires
            old(self).wf(),
        ensures
            final(self).wf(),
            final(self).auth() == old(self).auth(),
            final(self).users() == old(self).users(),
            match old(self).identity_of(token.0@) {
                None => r == Err::<Checkout, AppError>(AppError::Unauthenticated) && *final(self)
                    == *old(self),
                Some(u) => {
                    let event = UpdateReturned { checkout_id, returned_at: now };
                    match old(self).store().return_error(u, event) {
                        Some(e) => r == Err::<Checkout, AppError>(e) && final(self).store()
                            == old(self).store(),
                        None => old(self).store().returned_into(final(self).store(), event) && (r matches Ok(c)
                            && c.shows(
                            old(self).store().closed_loan(event),
                            old(self).store().books()[old(self).store().loans()[checkout_id as int].book_id as int],
                        )),
                    }
                },
            },
    {
        let requester = match self.authorize(token) {
            Ok(a) => a,
            Err(e) => return Err(e),
        };
        let event = UpdateReturned { checkout_id, returned_at: now };
        self.book_repository.update_returned(&requester, event)
    }
}

} // verus!
