use carbon_ledger::ledger::Ledger;
use carbon_ledger::records::{Credit, Entity, LedgerError, Listing, Project, User};

fn user(id: u64, name: &str, balance: u64) -> User {
    User { id, name: String::from(name), credit_balance: balance }
}

#[test]
fn allocator_returns_distinct_increasing_ids() {
    let mut l = Ledger::new();
    let mut ids: Vec<u64> = Vec::new();
    for _ in 0..5 {
        ids.push(l.next_id().unwrap());
    }
    for i in 0..ids.len() - 1 {
        assert!(ids[i] < ids[i + 1]);
    }
    assert_eq!(ids, vec![0, 1, 2, 3, 4]);
}

#[test]
fn allocated_ids_never_collide_across_kinds() {
    let mut l = Ledger::new();
    let p = l
        .register_project(
            String::from("forest"),
            String::from("reforestation"),
            1000,
            10,
            String::from("alice"),
        )
        .unwrap();
    let c = l.issue_credit(p.id, 10, 5, String::from("alice")).unwrap();
    let s = l.list_credit_for_sale(c.id, 10, 50, String::from("alice")).unwrap();
    assert!(p.id != c.id && c.id != s.id && p.id != s.id);
}

#[test]
fn allocator_exhaustion_is_reported() {
    let mut l = Ledger::new();
    l.counter = u64::MAX;
    assert_eq!(l.next_id(), Err(LedgerError::AllocatorExhausted));
    let r = l.register_project(
        String::from("n"),
        String::from("d"),
        1,
        1,
        String::from("o"),
    );
    assert_eq!(r, Err(LedgerError::AllocatorExhausted));
    assert_eq!(l.counter, u64::MAX);
}

#[test]
fn register_and_read_project() {
    let mut l = Ledger::new();
    let p = l
        .register_project(
            String::from("forest"),
            String::from("reforestation"),
            1000,
            10,
            String::from("alice"),
        )
        .unwrap();
    assert!(!p.verified);
    assert_eq!(l.read_project(p.id), Ok(p));
}

#[test]
fn update_project_replaces_every_field_except_id() {
    let mut l = Ledger::new();
    let p = l
        .register_project(
            String::from("forest"),
            String::from("reforestation"),
            1000,
            10,
            String::from("alice"),
        )
        .unwrap();
    let q = l
        .update_project(
            p.id,
            String::from("wetland"),
            String::from("peat restoration"),
            500,
            20,
            String::from("bob"),
            true,
        )
        .unwrap();
    let expected = Project {
        id: p.id,
        name: String::from("wetland"),
        description: String::from("peat restoration"),
        credits: 500,
        price: 20,
        owner: String::from("bob"),
        verified: true,
    };
    assert_eq!(q, expected);
    assert_eq!(l.read_project(p.id), Ok(expected));
}

#[test]
fn update_on_absent_id_fails_and_changes_nothing() {
    let mut l = Ledger::new();
    let p = l
        .register_project(
            String::from("forest"),
            String::from("reforestation"),
            1000,
            10,
            String::from("alice"),
        )
        .unwrap();
    let before = l.track_credits();
    let r = l.update_project(
        p.id + 1,
        String::from("x"),
        String::from("y"),
        1,
        1,
        String::from("z"),
        false,
    );
    assert_eq!(
        r,
        Err(LedgerError::NotFound { entity: Entity::Project, id: p.id + 1 })
    );
    assert_eq!(l.read_project(p.id), Ok(p));
    assert_eq!(l.track_credits(), before);

    let rc = l.update_credit(
        42,
        0,
        1,
        1,
        String::from("a"),
        String::from("a"),
        false,
    );
    assert_eq!(rc, Err(LedgerError::NotFound { entity: Entity::Credit, id: 42 }));

    let rl = l.update_credit_for_sale(42, 0, 1, 1, String::from("a"));
    assert_eq!(rl, Err(LedgerError::NotFound { entity: Entity::Listing, id: 42 }));
}

#[test]
fn delete_returns_prior_record() {
    let mut l = Ledger::new();
    let p = l
        .register_project(
            String::from("forest"),
            String::from("reforestation"),
            1000,
            10,
            String::from("alice"),
        )
        .unwrap();
    assert_eq!(l.delete_project(p.id), Ok(p.clone()));
    assert_eq!(
        l.read_project(p.id),
        Err(LedgerError::NotFound { entity: Entity::Project, id: p.id })
    );
    assert_eq!(
        l.delete_project(p.id),
        Err(LedgerError::NotFound { entity: Entity::Project, id: p.id })
    );
}

#[test]
fn verify_project_is_idempotent() {
    let mut l = Ledger::new();
    let p = l
        .register_project(
            String::from("forest"),
            String::from("reforestation"),
            1000,
            10,
            String::from("alice"),
        )
        .unwrap();
    let v1 = l.verify_project(p.id).unwrap();
    assert!(v1.verified);
    let v2 = l.verify_project(p.id).unwrap();
    assert!(v2.verified);
    assert_eq!(v1, v2);
    assert_eq!(
        l.verify_project(p.id + 1),
        Err(LedgerError::NotFound { entity: Entity::Project, id: p.id + 1 })
    );
}

#[test]
fn issue_and_track_credits() {
    let mut l = Ledger::new();
    let c1 = l.issue_credit(0, 10, 5, String::from("A")).unwrap();
    let c2 = l.issue_credit(0, 5, 5, String::from("B")).unwrap();
    assert_eq!(c1.owner, c1.issued_to);
    assert!(!c1.is_for_sale);
    assert_eq!(l.track_credits(), vec![c1.clone(), c2.clone()]);
    assert_eq!(l.query_credit(c1.id), Ok(c1.clone()));
    assert_eq!(l.read_credit(c2.id), Ok(c2));
    assert_eq!(
        l.read_credit(99),
        Err(LedgerError::NotFound { entity: Entity::Credit, id: 99 })
    );
    assert_eq!(l.delete_credit(c1.id), Ok(c1));
    assert_eq!(
        l.delete_credit(99),
        Err(LedgerError::NotFound { entity: Entity::Credit, id: 99 })
    );
}

#[test]
fn listing_crud() {
    let mut l = Ledger::new();
    let s = l.list_credit_for_sale(3, 10, 50, String::from("alice")).unwrap();
    assert_eq!(l.read_credit_for_sale(s.id), Ok(s.clone()));
    let s2 = l
        .update_credit_for_sale(s.id, 4, 5, 60, String::from("bob"))
        .unwrap();
    assert_eq!(
        s2,
        Listing {
            id: s.id,
            credit_id: 4,
            amount: 5,
            price: 60,
            seller: String::from("bob")
        }
    );
    assert_eq!(l.delete_credit_for_sale(s.id), Ok(s2));
    assert_eq!(
        l.read_credit_for_sale(s.id),
        Err(LedgerError::NotFound { entity: Entity::Listing, id: s.id })
    );
}

#[test]
fn purchase_success_transfers_ownership_and_debits_buyer() {
    let mut l = Ledger::new();
    let credit = l.issue_credit(0, 10, 5, String::from("A")).unwrap();
    let listing = l
        .list_credit_for_sale(credit.id, 10, 50, String::from("A"))
        .unwrap();
    let buyer_id = l.next_id().unwrap();
    l.users.insert(buyer_id, user(buyer_id, "bob", 100));

    assert_eq!(l.buy_credits(listing.id, buyer_id), Ok(()));

    let buyer = l.users.get(buyer_id).unwrap();
    assert_eq!(buyer.credit_balance, 50);
    let owned = l.read_credit(credit.id).unwrap();
    assert_eq!(owned.owner, String::from("bob"));
    assert_eq!(owned.issued_to, String::from("A"));
    assert_eq!(
        l.read_credit_for_sale(listing.id),
        Err(LedgerError::NotFound { entity: Entity::Listing, id: listing.id })
    );
}

#[test]
fn purchase_with_insufficient_funds_rolls_back() {
    let mut l = Ledger::new();
    let credit = l.issue_credit(0, 10, 5, String::from("A")).unwrap();
    let listing = l
        .list_credit_for_sale(credit.id, 10, 150, String::from("A"))
        .unwrap();
    let buyer_id = l.next_id().unwrap();
    l.users.insert(buyer_id, user(buyer_id, "bob", 100));

    assert_eq!(
        l.buy_credits(listing.id, buyer_id),
        Err(LedgerError::InsufficientBalance)
    );

    assert_eq!(l.read_credit_for_sale(listing.id), Ok(listing));
    assert_eq!(l.users.get(buyer_id), Some(&user(buyer_id, "bob", 100)));
    assert_eq!(l.read_credit(credit.id), Ok(credit));
}

#[test]
fn purchase_of_missing_listing_changes_nothing() {
    let mut l = Ledger::new();
    let buyer_id = l.next_id().unwrap();
    l.users.insert(buyer_id, user(buyer_id, "bob", 100));

    assert_eq!(
        l.buy_credits(77, buyer_id),
        Err(LedgerError::NotFound { entity: Entity::Listing, id: 77 })
    );
    assert_eq!(l.users.get(buyer_id), Some(&user(buyer_id, "bob", 100)));
    assert_eq!(l.users.len(), 1);
}

#[test]
fn purchase_with_missing_buyer_keeps_listing() {
    let mut l = Ledger::new();
    let credit = l.issue_credit(0, 10, 5, String::from("A")).unwrap();
    let listing = l
        .list_credit_for_sale(credit.id, 10, 50, String::from("A"))
        .unwrap();
    assert_eq!(
        l.buy_credits(listing.id, 99),
        Err(LedgerError::NotFound { entity: Entity::User, id: 99 })
    );
    assert_eq!(l.read_credit_for_sale(listing.id), Ok(listing));
}

#[test]
fn purchase_with_dangling_credit_reference_rolls_back() {
    let mut l = Ledger::new();
    let credit = l.issue_credit(0, 10, 5, String::from("A")).unwrap();
    let listing = l
        .list_credit_for_sale(credit.id, 10, 50, String::from("A"))
        .unwrap();
    let buyer_id = l.next_id().unwrap();
    l.users.insert(buyer_id, user(buyer_id, "bob", 100));
    l.delete_credit(credit.id).unwrap();

    assert_eq!(
        l.buy_credits(listing.id, buyer_id),
        Err(LedgerError::CreditNotFound)
    );
    assert_eq!(l.read_credit_for_sale(listing.id), Ok(listing));
    assert_eq!(l.users.get(buyer_id), Some(&user(buyer_id, "bob", 100)));
}

#[test]
fn purchase_of_free_listing_with_zero_balance_succeeds() {
    let mut l = Ledger::new();
    let credit = l.issue_credit(0, 10, 5, String::from("A")).unwrap();
    let listing = l
        .list_credit_for_sale(credit.id, 10, 0, String::from("A"))
        .unwrap();
    let buyer_id = l.next_id().unwrap();
    l.users.insert(buyer_id, user(buyer_id, "bob", 0));
    assert_eq!(l.buy_credits(listing.id, buyer_id), Ok(()));
    assert_eq!(l.users.get(buyer_id).unwrap().credit_balance, 0);
}

#[test]
fn total_owned_sums_matching_credits_only() {
    let mut l = Ledger::new();
    l.issue_credit(0, 10, 5, String::from("A")).unwrap();
    l.issue_credit(0, 5, 5, String::from("B")).unwrap();
    l.issue_credit(0, 3, 5, String::from("A")).unwrap();
    assert_eq!(l.total_owned(&String::from("A")), 13);
    assert_eq!(l.total_owned(&String::from("C")), 0);
}

#[test]
fn carbon_footprint_reads_without_mutating() {
    let mut l = Ledger::new();
    let c1 = l.issue_credit(0, 10, 5, String::from("A")).unwrap();
    let c2 = l.issue_credit(0, 5, 5, String::from("B")).unwrap();
    let c3 = l.issue_credit(0, 3, 5, String::from("A")).unwrap();
    let uid = l.next_id().unwrap();
    l.users.insert(uid, user(uid, "A", 40));

    assert_eq!(l.calculate_carbon_footprint(uid), Ok(13));
    assert_eq!(l.calculate_carbon_footprint(uid), Ok(13));
    assert_eq!(
        l.calculate_carbon_footprint(999),
        Err(LedgerError::NotFound { entity: Entity::User, id: 999 })
    );
    assert_eq!(l.users.get(uid), Some(&user(uid, "A", 40)));
    assert_eq!(l.track_credits(), vec![c1, c2, c3]);
}

#[test]
fn empty_ledger_reports_not_found_everywhere() {
    let l = Ledger::new();
    assert_eq!(
        l.read_project(0),
        Err(LedgerError::NotFound { entity: Entity::Project, id: 0 })
    );
    assert_eq!(
        l.read_credit(0),
        Err(LedgerError::NotFound { entity: Entity::Credit, id: 0 })
    );
    assert_eq!(
        l.read_credit_for_sale(0),
        Err(LedgerError::NotFound { entity: Entity::Listing, id: 0 })
    );
    assert_eq!(l.track_credits(), Vec::<Credit>::new());
}
