use carbon_ledger::records::{Credit, Listing, Project, User};
use carbon_ledger::store::Store;

fn project(id: u64) -> Project {
    Project {
        id,
        name: String::from("forest"),
        description: String::from("reforestation"),
        credits: 1000,
        price: 10,
        owner: String::from("alice"),
        verified: false,
    }
}

fn credit(id: u64, owner: &str, amount: u64) -> Credit {
    Credit {
        id,
        project_id: 0,
        amount,
        price: 5,
        issued_to: String::from(owner),
        owner: String::from(owner),
        is_for_sale: false,
    }
}

fn listing(id: u64, credit_id: u64, price: u64) -> Listing {
    Listing { id, credit_id, amount: 1, price, seller: String::from("alice") }
}

fn user(id: u64, name: &str, balance: u64) -> User {
    User { id, name: String::from(name), credit_balance: balance }
}

#[test]
fn round_trip_project() {
    let mut s: Store<Project> = Store::new();
    s.insert(3, project(3));
    assert_eq!(s.get(3), Some(&project(3)));
    assert_eq!(s.remove(3), Some(project(3)));
    assert_eq!(s.get(3), None);
}

#[test]
fn round_trip_credit() {
    let mut s: Store<Credit> = Store::new();
    s.insert(7, credit(7, "A", 10));
    assert_eq!(s.get(7), Some(&credit(7, "A", 10)));
    assert_eq!(s.remove(7), Some(credit(7, "A", 10)));
    assert_eq!(s.get(7), None);
}

#[test]
fn round_trip_listing() {
    let mut s: Store<Listing> = Store::new();
    s.insert(11, listing(11, 7, 50));
    assert_eq!(s.get(11), Some(&listing(11, 7, 50)));
    assert_eq!(s.remove(11), Some(listing(11, 7, 50)));
    assert_eq!(s.get(11), None);
}

#[test]
fn round_trip_user() {
    let mut s: Store<User> = Store::new();
    s.insert(2, user(2, "bob", 100));
    assert_eq!(s.get(2), Some(&user(2, "bob", 100)));
    assert_eq!(s.remove(2), Some(user(2, "bob", 100)));
    assert_eq!(s.get(2), None);
}

#[test]
fn insert_overwrites_and_remove_absent_is_none() {
    let mut s: Store<User> = Store::new();
    s.insert(1, user(1, "bob", 100));
    s.insert(1, user(1, "bob", 25));
    assert_eq!(s.get(1), Some(&user(1, "bob", 25)));
    assert_eq!(s.len(), 1);
    assert_eq!(s.remove(9), None);
    assert_eq!(s.get(1), Some(&user(1, "bob", 25)));
}

#[test]
fn enumeration_follows_insertion() {
    let mut s: Store<Credit> = Store::new();
    s.insert(5, credit(5, "A", 1));
    s.insert(9, credit(9, "B", 2));
    s.insert(6, credit(6, "C", 3));
    assert_eq!(s.len(), 3);
    assert_eq!(s.entry_at(0).0, 5);
    assert_eq!(s.entry_at(1).0, 9);
    assert_eq!(s.entry_at(2).0, 6);
}
