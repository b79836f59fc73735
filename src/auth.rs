use vstd::prelude::*;
use crate::model::{AuthorizedUser, Role, User, UserId};

verus! {

/// A transition an identity asks to perform.
#[derive(Debug, Clone, Copy, PartialEq, Eq, Structural)]
pub enum Action {
    /// Borrow an item for the given holder.
    Borrow { on_behalf_of: UserId },
    /// Close a loan held by the given holder.
    Return { loan_holder: UserId },
}

/// An administrator may do anything; anyone else may borrow only for
/// themselves and close only their own loans.
pub open spec fn permits(user: User, action: Action) -> bool {
    user.role == Role::Admin || match action {
        Action::Borrow { on_behalf_of } => on_behalf_of == user.id,
        Action::Return { loan_holder } => loan_holder == user.id,
    }
}

/// Decides whether `identity` may perform `action`.
pub fn permit(identity: &AuthorizedUser, action: Action) -> (r: bool)
    ensures
        r == permits(identity.user, action),
{
    if identity.is_admin() {
        return true;
    }
    match action {
        Action::Borrow { on_behalf_of } => on_behalf_of == identity.id(),
        Action::Return { loan_holder } => loan_holder == identity.id(),
    }
}

} // verus!
