//! The entity records kept by the ledger, and the typed failures its
//! operations report. Every record is immutable-by-replace: an update reads
//! the record, builds a copy with changed fields, and writes it back.
use vstd::prelude::*;

verus! {

/// The entity kinds kept by the ledger, used to report which collection a
/// failed lookup was aimed at.
#[derive(Clone, Copy, Debug, PartialEq, Eq, Structural)]
pub enum Entity {
    Project,
    Credit,
    Listing,
    User,
}

/// A typed failure of a ledger operation. Every failure is reported to the
/// caller; no operation panics on missing data.
#[derive(Clone, Copy, Debug, PartialEq, Eq, Structural)]
pub enum LedgerError {
    /// A lookup, update or delete named an identifier that is absent from
    /// the collection of the given entity kind.
    NotFound { entity: Entity, id: u64 },
    /// A purchase named a listing whose price exceeds the buyer's balance.
    InsufficientBalance,
    /// A purchase named a listing that references a credit no longer present.
    CreditNotFound,
    /// The identifier allocator has exhausted the 64-bit identifier space;
    /// there is no wraparound.
    AllocatorExhausted,
}

/// A carbon-offset project against which credits are issued.
#[derive(Debug, PartialEq, Eq)]
pub struct Project {
    pub id: u64,
    pub name: String,
    pub description: String,
    /// Total issuable credits.
    pub credits: u64,
    pub price: u64,
    /// Identity of the project owner.
    pub owner: String,
    /// Transitions false to true only, via the verification operation.
    pub verified: bool,
}

impl Clone for Project {
    fn clone(&self) -> (res: Self)
        ensures
            res == *self,
    {
        Project {
            id: self.id,
            name: self.name.clone(),
            description: self.description.clone(),
            credits: self.credits,
            price: self.price,
            owner: self.owner.clone(),
            verified: self.verified,
        }
    }
}

/// An emission credit issued against a project.
#[derive(Debug, PartialEq, Eq)]
pub struct Credit {
    pub id: u64,
    /// Soft reference to the project the credit was issued against.
    pub project_id: u64,
    pub amount: u64,
    pub price: u64,
    /// Identity the credit was issued to; set at issuance, immutable after.
    pub issued_to: String,
    /// Current holder; changes only at issuance or on a completed purchase.
    pub owner: String,
    pub is_for_sale: bool,
}

impl Clone for Credit {
    fn clone(&self) -> (res: Self)
        ensures
            res == *self,
    {
        Credit {
            id: self.id,
            project_id: self.project_id,
            amount: self.amount,
            price: self.price,
            issued_to: self.issued_to.clone(),
            owner: self.owner.clone(),
            is_for_sale: self.is_for_sale,
        }
    }
}

/// An offer to sell a specific amount of a credit at a fixed price. It
/// exists only while the credit is actively offered, and is removed exactly
/// once: on purchase or on explicit cancellation.
#[derive(Debug, PartialEq, Eq)]
pub struct Listing {
    pub id: u64,
    /// Soft reference to the credit on offer.
    pub credit_id: u64,
    pub amount: u64,
    pub price: u64,
    /// Identity of the seller.
    pub seller: String,
}

impl Clone for Listing {
    fn clone(&self) -> (res: Self)
        ensures
            res == *self,
    {
        Listing {
            id: self.id,
            credit_id: self.credit_id,
            amount: self.amount,
            price: self.price,
            seller: self.seller.clone(),
        }
    }
}

/// A marketplace participant with a spendable credit balance. The balance
/// decreases only by exactly a listing's price on a successful purchase.
#[derive(Debug, PartialEq, Eq)]
pub struct User {
    pub id: u64,
    pub name: String,
    pub credit_balance: u64,
}

impl Clone for User {
    fn clone(&self) -> (res: Self)
        ensures
            res == *self,
    {
        User { id: self.id, name: self.name.clone(), credit_balance: self.credit_balance }
    }
}

} // verus!
