use book_manager::book::{default_limit, BookListQuery, CreateBookRequest};
use book_manager::env::{parse_environment, which_from, Environment};
use book_manager::error::AppError;
use book_manager::model::{
    AccessToken, AuthorizedUser, CheckoutStateRow, CreateCheckout, LoanRecord, Role,
    UpdateReturned, User,
};
use book_manager::registry::AppRegistry;
use book_manager::store::LendingStore;

fn book(title: &str) -> CreateBookRequest {
    CreateBookRequest {
        title: title.to_string(),
        author: "An Author".to_string(),
        isbn: "978-0".to_string(),
        description: String::new(),
    }
}

fn who(id: u64, role: Role) -> AuthorizedUser {
    AuthorizedUser { access_token: AccessToken(format!("t{}", id)), user: User { id, role } }
}

fn borrow(book_id: u64, by: u64, at: u64) -> CreateCheckout {
    CreateCheckout { book_id, checked_out_by: by, checked_out_at: at }
}

fn give_back(checkout_id: u64, at: u64) -> UpdateReturned {
    UpdateReturned { checkout_id, returned_at: at }
}

fn active_count(records: &[LoanRecord], book_id: u64) -> usize {
    records.iter().filter(|l| l.book_id == book_id && l.returned_at.is_none()).count()
}

fn store_with_books(n: usize) -> LendingStore {
    let mut s = LendingStore::new();
    for i in 0..n {
        let id = s.register_book(book(&format!("Book {}", i)), 1);
        assert_eq!(id, i as u64);
    }
    s
}

#[test]
fn never_two_active_loans_per_item() {
    let mut s = store_with_books(2);
    let u = who(1, Role::User);
    let v = who(2, Role::User);
    let mut t = 10;
    for round in 0..4u64 {
        let _ = s.create(&u, borrow(0, 1, t));
        let _ = s.create(&v, borrow(0, 2, t + 1));
        let _ = s.create(&v, borrow(1, 2, t + 2));
        let recs = s.loan_records();
        assert!(active_count(&recs, 0) <= 1);
        assert!(active_count(&recs, 1) <= 1);
        if round % 2 == 0 {
            let id = recs.iter().find(|l| l.book_id == 0 && l.returned_at.is_none()).unwrap().id;
            s.update_returned(&u, give_back(id, t + 3)).unwrap();
        }
        let recs = s.loan_records();
        assert!(active_count(&recs, 0) <= 1);
        assert!(active_count(&recs, 1) <= 1);
        t += 10;
    }
}

#[test]
fn many_borrows_of_one_item_give_one_success() {
    let mut s = store_with_books(1);
    let k = 8u64;
    let mut ok = 0;
    let mut conflicts = 0;
    for i in 0..k {
        let u = who(i + 1, Role::User);
        match s.create(&u, borrow(0, i + 1, 100)) {
            Ok(_) => ok += 1,
            Err(AppError::Conflict) => conflicts += 1,
            Err(e) => panic!("unexpected {:?}", e),
        }
    }
    assert_eq!(ok, 1);
    assert_eq!(conflicts, k - 1);
    assert_eq!(active_count(&s.loan_records(), 0), 1);
    assert_eq!(s.loan_records().len(), 1);
}

#[test]
fn borrow_then_return_round_trip() {
    let mut s = store_with_books(1);
    let u = who(3, Role::User);
    let c = s.create(&u, borrow(0, 3, 50)).unwrap();
    assert_eq!(c.id, 0);
    assert_eq!(c.checked_out_by, 3);
    assert_eq!(c.checked_out_at, 50);
    assert_eq!(c.returned_at, None);
    assert_eq!(c.book.book_id, 0);
    assert_eq!(c.book.title, "Book 0");
    assert_eq!(c.book.author, "An Author");
    assert_eq!(c.book.isbn, "978-0");
    let r = s.update_returned(&u, give_back(c.id, 80)).unwrap();
    assert_eq!(r.id, c.id);
    assert_eq!(r.returned_at, Some(80));
    let h = s.find_history_by_book_id(0);
    assert_eq!(h.len(), 1);
    assert_eq!(h[0].id, c.id);
    assert_eq!(h[0].checked_out_at, 50);
    assert_eq!(h[0].returned_at, Some(80));
    assert!(h[0].checked_out_at < h[0].returned_at.unwrap());
}

#[test]
fn return_at_same_time_is_stamped_later() {
    let mut s = store_with_books(1);
    let u = who(3, Role::User);
    let c = s.create(&u, borrow(0, 3, 50)).unwrap();
    let r = s.update_returned(&u, give_back(c.id, 50)).unwrap();
    assert_eq!(r.returned_at, Some(51));
    let r2 = s.create(&u, borrow(0, 3, 20)).unwrap();
    assert_eq!(r2.checked_out_at, 52);
}

#[test]
fn second_return_conflicts_and_changes_nothing() {
    let mut s = store_with_books(1);
    let u = who(3, Role::User);
    let c = s.create(&u, borrow(0, 3, 5)).unwrap();
    s.update_returned(&u, give_back(c.id, 6)).unwrap();
    let before = s.loan_records();
    assert_eq!(s.update_returned(&u, give_back(c.id, 9)).unwrap_err(), AppError::Conflict);
    assert_eq!(s.loan_records(), before);
    let admin = who(9, Role::Admin);
    assert_eq!(s.update_returned(&admin, give_back(c.id, 9)).unwrap_err(), AppError::Conflict);
}

#[test]
fn only_holder_or_admin_may_return() {
    let mut s = store_with_books(1);
    let u = who(3, Role::User);
    let v = who(4, Role::User);
    let admin = who(9, Role::Admin);
    let c = s.create(&u, borrow(0, 3, 5)).unwrap();
    let before = s.loan_records();
    assert_eq!(s.update_returned(&v, give_back(c.id, 6)).unwrap_err(), AppError::Forbidden);
    assert_eq!(s.loan_records(), before);
    let r = s.update_returned(&admin, give_back(c.id, 7)).unwrap();
    assert_eq!(r.returned_at, Some(7));
    assert_eq!(r.checked_out_by, 3);
}

#[test]
fn history_is_ordered_by_borrow_time() {
    let mut s = store_with_books(2);
    let u = who(3, Role::User);
    let v = who(4, Role::User);
    let times = [(10u64, 20u64), (30, 40), (50, 60)];
    for (i, (b, r)) in times.iter().enumerate() {
        let holder = if i % 2 == 0 { &u } else { &v };
        let c = s.create(holder, borrow(0, holder.id(), *b)).unwrap();
        s.create(holder, borrow(1, holder.id(), *b + 1)).ok();
        s.update_returned(holder, give_back(c.id, *r)).unwrap();
    }
    let last = s.create(&u, borrow(0, 3, 70)).unwrap();
    let h = s.find_history_by_book_id(0);
    assert_eq!(h.len(), 4);
    let at: Vec<u64> = h.iter().map(|c| c.checked_out_at).collect();
    assert_eq!(at, vec![10, 30, 50, 70]);
    assert_eq!(h[3].id, last.id);
    assert_eq!(h[3].returned_at, None);
    assert!(h.iter().all(|c| c.book.book_id == 0));
    assert!(s.find_history_by_book_id(7).is_empty());
}

#[test]
fn borrow_of_missing_item_is_not_found() {
    let mut s = store_with_books(1);
    let u = who(3, Role::User);
    assert_eq!(s.create(&u, borrow(1, 3, 5)).unwrap_err(), AppError::NotFound);
    assert!(s.loan_records().is_empty());
}

#[test]
fn return_of_missing_loan_is_not_found() {
    let mut s = store_with_books(1);
    let u = who(3, Role::User);
    assert_eq!(s.update_returned(&u, give_back(0, 5)).unwrap_err(), AppError::NotFound);
}

#[test]
fn borrow_on_behalf_needs_admin() {
    let mut s = store_with_books(1);
    let u = who(3, Role::User);
    let admin = who(9, Role::Admin);
    assert_eq!(s.create(&u, borrow(0, 4, 5)).unwrap_err(), AppError::Forbidden);
    let c = s.create(&admin, borrow(0, 4, 5)).unwrap();
    assert_eq!(c.checked_out_by, 4);
}

#[test]
fn exhausted_clock_is_storage_unavailable() {
    let mut s = store_with_books(2);
    let u = who(3, Role::User);
    let c = s.create(&u, borrow(0, 3, u64::MAX)).unwrap();
    assert_eq!(c.checked_out_at, u64::MAX);
    assert_eq!(s.create(&u, borrow(1, 3, 7)).unwrap_err(), AppError::StorageUnavailable);
    assert_eq!(
        s.update_returned(&u, give_back(c.id, u64::MAX)).unwrap_err(),
        AppError::StorageUnavailable
    );
    assert_eq!(s.loan_records().len(), 1);
}

#[test]
fn current_state_follows_loans() {
    let mut s = store_with_books(1);
    let u = who(3, Role::User);
    let free = CheckoutStateRow { book_id: 0, checkout_id: None, user_id: None };
    assert_eq!(s.current_state(0), Ok(free));
    let c = s.create(&u, borrow(0, 3, 5)).unwrap();
    assert_eq!(
        s.current_state(0),
        Ok(CheckoutStateRow { book_id: 0, checkout_id: Some(c.id), user_id: Some(3) })
    );
    s.update_returned(&u, give_back(c.id, 6)).unwrap();
    assert_eq!(s.current_state(0), Ok(free));
    assert_eq!(s.current_state(1), Err(AppError::NotFound));
}

#[test]
fn active_views_filter_by_holder() {
    let mut s = store_with_books(3);
    let u = who(3, Role::User);
    let v = who(4, Role::User);
    let a = s.create(&u, borrow(0, 3, 1)).unwrap();
    let b = s.create(&v, borrow(1, 4, 2)).unwrap();
    let c = s.create(&u, borrow(2, 3, 3)).unwrap();
    s.update_returned(&u, give_back(a.id, 4)).unwrap();
    let all: Vec<u64> = s.find_unreturned_all().iter().map(|c| c.id).collect();
    assert_eq!(all, vec![b.id, c.id]);
    let mine = s.find_unreturned_by_user_id(3);
    assert_eq!(mine.len(), 1);
    assert_eq!(mine[0].id, c.id);
    assert_eq!(mine[0].book.title, "Book 2");
    assert!(s.find_unreturned_by_user_id(5).is_empty());
    assert_eq!(s.find_loan(b.id).unwrap().user_id, 4);
    assert_eq!(s.find_loan(9), None);
    assert_eq!(s.book_count(), 3);
}

#[test]
fn status_codes() {
    assert_eq!(AppError::NotFound.status_code(), 404);
    assert_eq!(AppError::Conflict.status_code(), 409);
    assert_eq!(AppError::Forbidden.status_code(), 403);
    assert_eq!(AppError::Unauthenticated.status_code(), 401);
    assert_eq!(AppError::StorageUnavailable.status_code(), 500);
    assert!(AppError::Conflict.is_expected());
    assert!(!AppError::StorageUnavailable.is_expected());
}

#[test]
fn authorized_user_accessors() {
    let a = who(3, Role::Admin);
    assert_eq!(a.id(), 3);
    assert!(a.is_admin());
    assert!(!who(4, Role::User).is_admin());
}

#[test]
fn registry_resolves_identities() {
    let mut reg = AppRegistry::new();
    let alice = reg.register_user(Role::User);
    let root = reg.register_user(Role::Admin);
    reg.issue_token(AccessToken("alice-token".to_string()), alice);
    reg.issue_token(AccessToken("root-token".to_string()), root);
    reg.issue_token(AccessToken("ghost-token".to_string()), 77);
    let a = reg.authorize(&AccessToken("alice-token".to_string())).unwrap();
    assert_eq!(a.user, User { id: alice, role: Role::User });
    assert_eq!(a.access_token.0, "alice-token");
    assert!(reg.authorize(&AccessToken("root-token".to_string())).unwrap().is_admin());
    assert_eq!(
        reg.authorize(&AccessToken("nobody".to_string())).unwrap_err(),
        AppError::Unauthenticated
    );
    assert_eq!(
        reg.authorize(&AccessToken("ghost-token".to_string())).unwrap_err(),
        AppError::Unauthenticated
    );
    reg.issue_token(AccessToken("alice-token".to_string()), root);
    assert!(reg.authorize(&AccessToken("alice-token".to_string())).unwrap().is_admin());
    assert_eq!(
        reg.auth_repository().fetch_user_id_from_token(&AccessToken("root-token".to_string())),
        Some(root)
    );
    assert_eq!(reg.user_repository().find_current_user(root), Some(User { id: root, role: Role::Admin }));
    assert_eq!(reg.user_repository().find_current_user(5), None);
}

#[test]
fn registry_checkout_and_return() {
    let mut reg = AppRegistry::new();
    let alice = reg.register_user(Role::User);
    let bob = reg.register_user(Role::User);
    let root = reg.register_user(Role::Admin);
    reg.issue_token(AccessToken("a".to_string()), alice);
    reg.issue_token(AccessToken("b".to_string()), bob);
    reg.issue_token(AccessToken("r".to_string()), root);
    let book_id = reg.register_book(book("Dune"), root);
    let a = AccessToken("a".to_string());
    let b = AccessToken("b".to_string());
    let r = AccessToken("r".to_string());
    let none = AccessToken("x".to_string());
    assert_eq!(reg.checkout_book(&none, book_id, 1).unwrap_err(), AppError::Unauthenticated);
    assert_eq!(reg.checkout_book(&a, 5, 1).unwrap_err(), AppError::NotFound);
    let c = reg.checkout_book(&a, book_id, 1).unwrap();
    assert_eq!(c.checked_out_by, alice);
    assert_eq!(c.book.title, "Dune");
    assert_eq!(reg.checkout_book(&b, book_id, 2).unwrap_err(), AppError::Conflict);
    assert_eq!(reg.return_book(&none, c.id, 3).unwrap_err(), AppError::Unauthenticated);
    assert_eq!(reg.return_book(&b, c.id, 3).unwrap_err(), AppError::Forbidden);
    assert_eq!(reg.return_book(&r, c.id, 4).unwrap().returned_at, Some(4));
    assert_eq!(reg.return_book(&a, c.id, 5).unwrap_err(), AppError::Conflict);
    assert_eq!(reg.return_book(&a, 9, 5).unwrap_err(), AppError::NotFound);
    assert_eq!(reg.book_repository().find_history_by_book_id(book_id).len(), 1);
}

#[test]
fn book_requests_validate() {
    assert!(book("T").is_valid());
    let mut empty_title = book("");
    assert!(!empty_title.is_valid());
    empty_title.title = "x".to_string();
    empty_title.isbn = String::new();
    assert!(!empty_title.is_valid());
    assert_eq!(default_limit(), 20);
    let q = BookListQuery::new_default();
    assert_eq!(q, BookListQuery { limit: 20, offset: 0 });
    assert!(q.is_valid());
    assert!(!BookListQuery { limit: -1, offset: 0 }.is_valid());
    assert!(!BookListQuery { limit: 5, offset: -3 }.is_valid());
}

#[test]
fn environment_selection() {
    assert_eq!(parse_environment(&"production".to_string()), Some(Environment::Production));
    assert_eq!(parse_environment(&"development".to_string()), Some(Environment::Development));
    assert_eq!(parse_environment(&"Production".to_string()), None);
    assert_eq!(which_from(None, Environment::Development), Environment::Development);
    assert_eq!(
        which_from(Some("production".to_string()), Environment::Development),
        Environment::Production
    );
    assert_eq!(
        which_from(Some("staging".to_string()), Environment::Production),
        Environment::Production
    );
}
