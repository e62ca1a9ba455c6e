//! The ledger: four independent keyed collections (projects, credits,
//! listings, users) sharing one monotonic identifier allocator, the CRUD
//! services over them, the aggregation queries, and the atomic purchase
//! transaction. Every failed operation leaves the ledger exactly as it was
//! before the call.
use crate::records::{Credit, Entity, LedgerError, Listing, Project, User};
use crate::store::Store;
use vstd::prelude::*;

verus! {

/// The persistent state of the marketplace. All identifiers are drawn from
/// the one shared `counter`, so records of different kinds never collide.
pub struct Ledger {
    pub counter: u64,
    pub projects: Store<Project>,
    pub credits: Store<Credit>,
    pub listings: Store<Listing>,
    pub users: Store<User>,
}

/// The record of `p` with the verification flag raised; every other field,
/// the identifier included, is kept.
pub open spec fn with_verified(p: Project) -> Project {
    Project {
        id: p.id,
        name: p.name,
        description: p.description,
        credits: p.credits,
        price: p.price,
        owner: p.owner,
        verified: true,
    }
}

/// No collection of `post` differs from its counterpart in `pre`.
pub open spec fn stores_unchanged(pre: Ledger, post: Ledger) -> bool {
    &&& post.projects == pre.projects
    &&& post.credits == pre.credits
    &&& post.listings == pre.listings
    &&& post.users == pre.users
}

/// One successful draw from the identifier allocator: `id` is the counter of
/// `pre`, the counter of `post` sits just above it, and no collection moves.
pub open spec fn alloc_step(pre: Ledger, post: Ledger, id: u64) -> bool {
    &&& pre.counter < u64::MAX
    &&& id == pre.counter
    &&& post.counter == id + 1
    &&& stores_unchanged(pre, post)
}

/// One successful verification of the project at `pid`: the stored record is
/// replaced by `p`, its copy with the verification flag raised, and nothing
/// else moves.
pub open spec fn verify_ok_step(pre: Ledger, post: Ledger, pid: u64, p: Project) -> bool {
    &&& pre.projects@.contains_key(pid)
    &&& p == with_verified(pre.projects@[pid])
    &&& post.projects@ == pre.projects@.insert(pid, p)
    &&& post.counter == pre.counter
    &&& post.credits == pre.credits
    &&& post.listings == pre.listings
    &&& post.users == pre.users
}

/// A purchase of the listing at `lid` by the user at `uid` can commit:
/// listing and buyer exist, the buyer can afford the price, and the credit
/// the listing refers to is present.
pub open spec fn purchase_ok(pre: Ledger, lid: u64, uid: u64) -> bool {
    &&& pre.listings@.contains_key(lid)
    &&& pre.users@.contains_key(uid)
    &&& pre.listings@[lid].price <= pre.users@[uid].credit_balance
    &&& pre.credits@.contains_key(pre.listings@[lid].credit_id)
}

/// The one failure a purchase of `lid` by `uid` reports, checked in this
/// order: absent listing, absent buyer, insufficient balance, dangling
/// credit reference.
pub open spec fn purchase_error(pre: Ledger, lid: u64, uid: u64) -> LedgerError {
    if !pre.listings@.contains_key(lid) {
        LedgerError::NotFound { entity: Entity::Listing, id: lid }
    } else if !pre.users@.contains_key(uid) {
        LedgerError::NotFound { entity: Entity::User, id: uid }
    } else if pre.users@[uid].credit_balance < pre.listings@[lid].price {
        LedgerError::InsufficientBalance
    } else {
        LedgerError::CreditNotFound
    }
}

/// The committed state of a purchase of `lid` by `uid`: the listing is
/// consumed, the buyer is debited by exactly the listing's price, the credit
/// is reassigned to the buyer, and nothing else moves.
pub open spec fn purchase_post(pre: Ledger, post: Ledger, lid: u64, uid: u64) -> bool {
    let listing = pre.listings@[lid];
    let buyer = pre.users@[uid];
    let credit = pre.credits@[listing.credit_id];
    &&& post.listings@ == pre.listings@.remove(lid)
    &&& post.users@ == pre.users@.insert(
        uid,
        (User {
            id: buyer.id,
            name: buyer.name,
            credit_balance: (buyer.credit_balance - listing.price) as u64,
        }),
    )
    &&& post.credits@ == pre.credits@.insert(
        listing.credit_id,
        (Credit {
            id: credit.id,
            project_id: credit.project_id,
            amount: credit.amount,
            price: credit.price,
            issued_to: credit.issued_to,
            owner: buyer.name,
            is_for_sale: credit.is_for_sale,
        }),
    )
    &&& post.projects == pre.projects
    &&& post.counter == pre.counter
}

/// The amount of credit held under `owner`: the sum of `amount` over the
/// credit entries whose owner equals `owner`.
pub open spec fn sum_owned(s: Seq<(u64, Credit)>, owner: Seq<char>) -> int
    decreases s.len(),
{
    if s.len() == 0 {
        0
    } else {
        sum_owned(s.drop_last(), owner) + if s.last().1.owner@ == owner {
            s.last().1.amount as int
        } else {
            0int
        }
    }
}

/// The sum of held amounts is never negative.
pub proof fn lemma_sum_owned_nonneg(s: Seq<(u64, Credit)>, owner: Seq<char>)
    ensures
        sum_owned(s, owner) >= 0,
    decreases s.len(),
{
    if s.len() > 0 {
        lemma_sum_owned_nonneg(s.drop_last(), owner);
    }
}

/// A prefix never holds more than the whole sequence.
pub proof fn lemma_sum_owned_prefix_le(s: Seq<(u64, Credit)>, owner: Seq<char>, i: int)
    requires
        0 <= i <= s.len(),
    ensures
        sum_owned(s.subrange(0, i), owner) <= sum_owned(s, owner),
    decreases s.len() - i,
{
    if i == s.len() {
        assert(s.subrange(0, i) =~= s);
    } else {
        lemma_sum_owned_prefix_le(s, owner, i + 1);
        assert(s.subrange(0, i + 1).drop_last() =~= s.subrange(0, i));
        assert(s.subrange(0, i + 1).last() == s[i]);
    }
}

/// An owner holding no credit at all holds a total of zero.
pub proof fn lemma_sum_owned_no_match(s: Seq<(u64, Credit)>, owner: Seq<char>)
    requires
        forall|i: int| 0 <= i < s.len() ==> s[i].1.owner@ != owner,
    ensures
        sum_owned(s, owner) == 0,
    decreases s.len(),
{
    if s.len() > 0 {
        assert forall|i: int| 0 <= i < s.drop_last().len() implies s.drop_last()[i].1.owner@
            != owner by {
            assert(s.drop_last()[i] == s[i]);
        }
        lemma_sum_owned_no_match(s.drop_last(), owner);
        assert(s[s.len() - 1].1.owner@ != owner);
    }
}

impl Ledger {
    /// Every identifier in use was drawn from the shared allocator, so it
    /// sits strictly below the counter, in all four collections alike.
    pub open spec fn keys_allocated(&self) -> bool {
        &&& forall|k: u64| self.projects@.contains_key(k) ==> k < self.counter
        &&& forall|k: u64| self.credits@.contains_key(k) ==> k < self.counter
        &&& forall|k: u64| self.listings@.contains_key(k) ==> k < self.counter
        &&& forall|k: u64| self.users@.contains_key(k) ==> k < self.counter
    }

    /// All four collections carry pairwise-distinct keys, each strictly
    /// below the allocator counter.
    pub open spec fn wf(&self) -> bool {
        &&& self.projects.wf()
        &&& self.credits.wf()
        &&& self.listings.wf()
        &&& self.users.wf()
        &&& self.keys_allocated()
    }

    /// A fresh ledger: every collection empty, the allocator at its start.
    pub fn new() -> (l: Ledger)
        ensures
            l.wf(),
            l.counter == 0,
            l.projects@ == Map::<u64, Project>::empty(),
            l.credits@ == Map::<u64, Credit>::empty(),
            l.listings@ == Map::<u64, Listing>::empty(),
            l.users@ == Map::<u64, User>::empty(),
            l.credits.entries() == Seq::<(u64, Credit)>::empty(),
    {
        Ledger {
            counter: 0,
            projects: Store::new(),
            credits: Store::new(),
            listings: Store::new(),
            users: Store::new(),
        }
    }

    /// Draws the next identifier: strictly above every identifier returned
    /// before, shared by all entity kinds. Exhaustion of the 64-bit space is
    /// reported, never wrapped around.
    pub fn next_id(&mut self) -> (r: Result<u64, LedgerError>)
        ensures
            r is Ok <==> old(self).counter < u64::MAX,
            match r {
                Ok(id) => alloc_step(*old(self), *final(self), id),
                Err(e) => e == LedgerError::AllocatorExhausted && *final(self) == *old(self),
            },
    {
        if self.counter == u64::MAX {
            Err(LedgerError::AllocatorExhausted)
        } else {
            let id = self.counter;
            self.counter = self.counter + 1;
            Ok(id)
        }
    }

    /// Registers a project under a fresh identifier, unverified; returns the
    /// created record. Fails only on allocator exhaustion, changing nothing.
    pub fn register_project(
        &mut self,
        name: String,
        description: String,
        credits: u64,
        price: u64,
        owner: String,
    ) -> (r: Result<Project, LedgerError>)
        requires
            old(self).wf(),
        ensures
            final(self).wf(),
            r is Ok <==> old(self).counter < u64::MAX,
            match r {
                Ok(p) => {
                    &&& p == (Project {
                        id: old(self).counter,
                        name,
                        description,
                        credits,
                        price,
                        owner,
                        verified: false,
                    })
                    &&& !old(self).projects@.contains_key(p.id)
                    &&& !old(self).credits@.contains_key(p.id)
                    &&& !old(self).listings@.contains_key(p.id)
                    &&& !old(self).users@.contains_key(p.id)
                    &&& final(self).counter == old(self).counter + 1
                    &&& final(self).projects@ == old(self).projects@.insert(p.id, p)
                    &&& final(self).credits == old(self).credits
                    &&& final(self).listings == old(self).listings
                    &&& final(self).users == old(self).users
                },
                Err(e) => e == LedgerError::AllocatorExhausted && *final(self) == *old(self),
            },
    {
        let id = match self.next_id() {
            Ok(id) => id,
            Err(e) => {
                return Err(e);
            },
        };
        let project = Project { id, name, description, credits, price, owner, verified: false };
        let result = project.clone();
        self.projects.insert(id, project);
        Ok(result)
    }

    /// Point lookup of a project; reports which identifier was absent.
    pub fn read_project(&self, project_id: u64) -> (r: Result<Project, LedgerError>)
        requires
            self.wf(),
        ensures
            r is Ok <==> self.projects@.contains_key(project_id),
            match r {
                Ok(p) => p == self.projects@[project_id],
                Err(e) => e == (LedgerError::NotFound { entity: Entity::Project, id: project_id }),
            },
    {
        match self.projects.get(project_id) {
            Some(p) => Ok(p.clone()),
            None => Err(LedgerError::NotFound { entity: Entity::Project, id: project_id }),
        }
    }

    /// Full replace of every field of a project except its identifier. On an
    /// absent identifier it fails and leaves the ledger unchanged.
    pub fn update_project(
        &mut self,
        project_id: u64,
        name: String,
        description: String,
        credits: u64,
        price: u64,
        owner: String,
        verified: bool,
    ) -> (r: Result<Project, LedgerError>)
        requires
            old(self).wf(),
        ensures
            final(self).wf(),
            r is Ok <==> old(self).projects@.contains_key(project_id),
            match r {
                Ok(p) => {
                    &&& p == (Project {
                        id: project_id,
                        name,
                        description,
                        credits,
                        price,
                        owner,
                        verified,
                    })
                    &&& final(self).projects@ == old(self).projects@.insert(project_id, p)
                    &&& final(self).counter == old(self).counter
                    &&& final(self).credits == old(self).credits
                    &&& final(self).listings == old(self).listings
                    &&& final(self).users == old(self).users
                },
                Err(e) => e == (LedgerError::NotFound { entity: Entity::Project, id: project_id })
                    && *final(self) == *old(self),
            },
    {
        if self.projects.get(project_id).is_none() {
            return Err(LedgerError::NotFound { entity: Entity::Project, id: project_id });
        }
        let project = Project { id: project_id, name, description, credits, price, owner, verified };
        let result = project.clone();
        self.projects.insert(project_id, project);
        Ok(result)
    }

    /// Deletes a project and returns the prior record. On an absent
    /// identifier it fails and leaves the ledger unchanged.
    pub fn delete_project(&mut self, project_id: u64) -> (r: Result<Project, LedgerError>)
        requires
            old(self).wf(),
        ensures
            final(self).wf(),
            r is Ok <==> old(self).projects@.contains_key(project_id),
            match r {
                Ok(p) => {
                    &&& p == old(self).projects@[project_id]
                    &&& final(self).projects@ == old(self).projects@.remove(project_id)
                    &&& final(self).counter == old(self).counter
                    &&& final(self).credits == old(self).credits
                    &&& final(self).listings == old(self).listings
                    &&& final(self).users == old(self).users
                },
                Err(e) => e == (LedgerError::NotFound { entity: Entity::Project, id: project_id })
                    && *final(self) == *old(self),
            },
    {
        match self.projects.remove(project_id) {
            Some(p) => Ok(p),
            None => Err(LedgerError::NotFound { entity: Entity::Project, id: project_id }),
        }
    }

    /// Raises the verification flag of a project, whatever its prior value,
    /// and returns the stored record; repeating the call changes nothing
    /// further. On an absent identifier it fails and leaves the ledger
    /// unchanged.
    pub fn verify_project(&mut self, project_id: u64) -> (r: Result<Project, LedgerError>)
        requires
            old(self).wf(),
        ensures
            final(self).wf(),
            r is Ok <==> old(self).projects@.contains_key(project_id),
            match r {
                Ok(p) => p.verified && verify_ok_step(*old(self), *final(self), project_id, p),
                Err(e) => e == (LedgerError::NotFound { entity: Entity::Project, id: project_id })
                    && *final(self) == *old(self),
            },
    {
        let current = match self.projects.get(project_id) {
            Some(p) => p.clone(),
            None => {
                return Err(LedgerError::NotFound { entity: Entity::Project, id: project_id });
            },
        };
        let project = Project {
            id: current.id,
            name: current.name,
            description: current.description,
            credits: current.credits,
            price: current.price,
            owner: current.owner,
            verified: true,
        };
        let result = project.clone();
        self.projects.insert(project_id, project);
        Ok(result)
    }

    /// Issues a credit under a fresh identifier, owned by and issued to the
    /// same identity, not for sale; returns the created record. The project
    /// reference is not validated here: referential checks are the caller's
    /// responsibility at the point of use. Fails only on allocator
    /// exhaustion, changing nothing.
    pub fn issue_credit(
        &mut self,
        project_id: u64,
        amount: u64,
        price: u64,
        issued_to: String,
    ) -> (r: Result<Credit, LedgerError>)
        requires
            old(self).wf(),
        ensures
            final(self).wf(),
            r is Ok <==> old(self).counter < u64::MAX,
            match r {
                Ok(c) => {
                    &&& c == (Credit {
                        id: old(self).counter,
                        project_id,
                        amount,
                        price,
                        issued_to,
                        owner: issued_to,
                        is_for_sale: false,
                    })
                    &&& !old(self).projects@.contains_key(c.id)
                    &&& !old(self).credits@.contains_key(c.id)
                    &&& !old(self).listings@.contains_key(c.id)
                    &&& !old(self).users@.contains_key(c.id)
                    &&& final(self).counter == old(self).counter + 1
                    &&& final(self).credits@ == old(self).credits@.insert(c.id, c)
                    &&& final(self).credits.entries() == old(self).credits.entries().push(
                        (c.id, c),
                    )
                    &&& final(self).projects == old(self).projects
                    &&& final(self).listings == old(self).listings
                    &&& final(self).users == old(self).users
                },
                Err(e) => e == LedgerError::AllocatorExhausted && *final(self) == *old(self),
            },
    {
        let id = match self.next_id() {
            Ok(id) => id,
            Err(e) => {
                return Err(e);
            },
        };
        let owner = issued_to.clone();
        let credit = Credit { id, project_id, amount, price, issued_to, owner, is_for_sale: false };
        let result = credit.clone();
        self.credits.insert_fresh(id, credit);
        Ok(result)
    }

    /// Point lookup of a credit; reports which identifier was absent.
    pub fn read_credit(&self, credit_id: u64) -> (r: Result<Credit, LedgerError>)
        requires
            self.wf(),
        ensures
            r is Ok <==> self.credits@.contains_key(credit_id),
            match r {
                Ok(c) => c == self.credits@[credit_id],
                Err(e) => e == (LedgerError::NotFound { entity: Entity::Credit, id: credit_id }),
            },
    {
        match self.credits.get(credit_id) {
            Some(c) => Ok(c.clone()),
            None => Err(LedgerError::NotFound { entity: Entity::Credit, id: credit_id }),
        }
    }

    /// Point lookup of a credit under its query-surface name; behaves
    /// exactly as `read_credit`.
    pub fn query_credit(&self, credit_id: u64) -> (r: Result<Credit, LedgerError>)
        requires
            self.wf(),
        ensures
            r is Ok <==> self.credits@.contains_key(credit_id),
            match r {
                Ok(c) => c == self.credits@[credit_id],
                Err(e) => e == (LedgerError::NotFound { entity: Entity::Credit, id: credit_id }),
            },
    {
        self.read_credit(credit_id)
    }

    /// Full replace of every field of a credit except its identifier. On an
    /// absent identifier it fails and leaves the ledger unchanged.
    pub fn update_credit(
        &mut self,
        credit_id: u64,
        project_id: u64,
        amount: u64,
        price: u64,
        issued_to: String,
        owner: String,
        is_for_sale: bool,
    ) -> (r: Result<Credit, LedgerError>)
        requires
            old(self).wf(),
        ensures
            final(self).wf(),
            r is Ok <==> old(self).credits@.contains_key(credit_id),
            match r {
                Ok(c) => {
                    &&& c == (Credit {
                        id: credit_id,
                        project_id,
                        amount,
                        price,
                        issued_to,
                        owner,
                        is_for_sale,
                    })
                    &&& final(self).credits@ == old(self).credits@.insert(credit_id, c)
                    &&& final(self).counter == old(self).counter
                    &&& final(self).projects == old(self).projects
                    &&& final(self).listings == old(self).listings
                    &&& final(self).users == old(self).users
                },
                Err(e) => e == (LedgerError::NotFound { entity: Entity::Credit, id: credit_id })
                    && *final(self) == *old(self),
            },
    {
        if self.credits.get(credit_id).is_none() {
            return Err(LedgerError::NotFound { entity: Entity::Credit, id: credit_id });
        }
        let credit = Credit {
            id: credit_id,
            project_id,
            amount,
            price,
            issued_to,
            owner,
            is_for_sale,
        };
        let result = credit.clone();
        self.credits.insert(credit_id, credit);
        Ok(result)
    }

    /// Deletes a credit and returns the prior record. On an absent
    /// identifier it fails and leaves the ledger unchanged.
    pub fn delete_credit(&mut self, credit_id: u64) -> (r: Result<Credit, LedgerError>)
        requires
            old(self).wf(),
        ensures
            final(self).wf(),
            r is Ok <==> old(self).credits@.contains_key(credit_id),
            match r {
                Ok(c) => {
                    &&& c == old(self).credits@[credit_id]
                    &&& final(self).credits@ == old(self).credits@.remove(credit_id)
                    &&& final(self).counter == old(self).counter
                    &&& final(self).projects == old(self).projects
                    &&& final(self).listings == old(self).listings
                    &&& final(self).users == old(self).users
                },
                Err(e) => e == (LedgerError::NotFound { entity: Entity::Credit, id: credit_id })
                    && *final(self) == *old(self),
            },
    {
        match self.credits.remove(credit_id) {
            Some(c) => Ok(c),
            None => Err(LedgerError::NotFound { entity: Entity::Credit, id: credit_id }),
        }
    }

    /// A snapshot of every credit currently stored, in enumeration order.
    /// A pure read: the ledger is untouched.
    pub fn track_credits(&self) -> (r: Vec<Credit>)
        requires
            self.wf(),
        ensures
            r@ == self.credits.entries().map_values(|e: (u64, Credit)| e.1),
    {
        let ghost entries = self.credits.entries();
        let n = self.credits.len();
        let mut out: Vec<Credit> = Vec::new();
        let mut i: usize = 0;
        while i < n
            invariant
                self.wf(),
                n == entries.len(),
                entries == self.credits.entries(),
                i <= n,
                out@ == entries.subrange(0, i as int).map_values(|e: (u64, Credit)| e.1),
            decreases n - i,
        {
            let entry = self.credits.entry_at(i);
            out.push(entry.1.clone());
            proof {
                assert(entries.subrange(0, i + 1).drop_last() =~= entries.subrange(0, i as int));
                assert(out@ =~= entries.subrange(0, i + 1).map_values(|e: (u64, Credit)| e.1));
            }
            i = i + 1;
        }
        proof {
            assert(entries.subrange(0, n as int) =~= entries);
        }
        out
    }

    /// The total amount of credit held under `owner`: the sum of `amount`
    /// over all credits whose owner equals `owner`, zero when none match.
    /// A pure read: the ledger is untouched.
    pub fn total_owned(&self, owner: &String) -> (r: u64)
        requires
            self.wf(),
            sum_owned(self.credits.entries(), owner@) <= u64::MAX,
        ensures
            r == sum_owned(self.credits.entries(), owner@),
    {
        let ghost entries = self.credits.entries();
        let n = self.credits.len();
        let mut total: u64 = 0;
        let mut i: usize = 0;
        while i < n
            invariant
                self.wf(),
                n == entries.len(),
                entries == self.credits.entries(),
                sum_owned(entries, owner@) <= u64::MAX,
                i <= n,
                total == sum_owned(entries.subrange(0, i as int), owner@),
            decreases n - i,
        {
            let entry = self.credits.entry_at(i);
            proof {
                assert(entries.subrange(0, i + 1).drop_last() =~= entries.subrange(0, i as int));
                assert(entries.subrange(0, i + 1).last() == entries[i as int]);
                lemma_sum_owned_prefix_le(entries, owner@, i + 1);
                lemma_sum_owned_nonneg(entries.subrange(0, i as int), owner@);
            }
            if entry.1.owner == *owner {
                total = total + entry.1.amount;
            }
            i = i + 1;
        }
        proof {
            assert(entries.subrange(0, n as int) =~= entries);
        }
        total
    }

    /// The total amount of credit held by the user at `user_id`, found by
    /// that user's name. On an absent identifier it fails; it never touches
    /// any record.
    pub fn calculate_carbon_footprint(&self, user_id: u64) -> (r: Result<u64, LedgerError>)
        requires
            self.wf(),
            self.users@.contains_key(user_id) ==> sum_owned(
                self.credits.entries(),
                self.users@[user_id].name@,
            ) <= u64::MAX,
        ensures
            r is Ok <==> self.users@.contains_key(user_id),
            match r {
                Ok(total) => total == sum_owned(
                    self.credits.entries(),
                    self.users@[user_id].name@,
                ),
                Err(e) => e == (LedgerError::NotFound { entity: Entity::User, id: user_id }),
            },
    {
        match self.users.get(user_id) {
            Some(user) => Ok(self.total_owned(&user.name)),
            None => Err(LedgerError::NotFound { entity: Entity::User, id: user_id }),
        }
    }

    /// Offers a credit for sale under a fresh listing identifier; returns
    /// the created listing. Neither the credit reference nor the seller's
    /// holding is validated here: referential checks are the caller's
    /// responsibility at the point of use. Fails only on allocator
    /// exhaustion, changing nothing.
    pub fn list_credit_for_sale(
        &mut self,
        credit_id: u64,
        amount: u64,
        price: u64,
        seller: String,
    ) -> (r: Result<Listing, LedgerError>)
        requires
            old(self).wf(),
        ensures
            final(self).wf(),
            r is Ok <==> old(self).counter < u64::MAX,
            match r {
                Ok(l) => {
                    &&& l == (Listing { id: old(self).counter, credit_id, amount, price, seller })
                    &&& !old(self).projects@.contains_key(l.id)
                    &&& !old(self).credits@.contains_key(l.id)
                    &&& !old(self).listings@.contains_key(l.id)
                    &&& !old(self).users@.contains_key(l.id)
                    &&& final(self).counter == old(self).counter + 1
                    &&& final(self).listings@ == old(self).listings@.insert(l.id, l)
                    &&& final(self).projects == old(self).projects
                    &&& final(self).credits == old(self).credits
                    &&& final(self).users == old(self).users
                },
                Err(e) => e == LedgerError::AllocatorExhausted && *final(self) == *old(self),
            },
    {
        let id = match self.next_id() {
            Ok(id) => id,
            Err(e) => {
                return Err(e);
            },
        };
        let listing = Listing { id, credit_id, amount, price, seller };
        let result = listing.clone();
        self.listings.insert(id, listing);
        Ok(result)
    }

    /// Point lookup of a listing; reports which identifier was absent.
    pub fn read_credit_for_sale(&self, listing_id: u64) -> (r: Result<Listing, LedgerError>)
        requires
            self.wf(),
        ensures
            r is Ok <==> self.listings@.contains_key(listing_id),
            match r {
                Ok(l) => l == self.listings@[listing_id],
                Err(e) => e == (LedgerError::NotFound { entity: Entity::Listing, id: listing_id }),
            },
    {
        match self.listings.get(listing_id) {
            Some(l) => Ok(l.clone()),
            None => Err(LedgerError::NotFound { entity: Entity::Listing, id: listing_id }),
        }
    }

    /// Full replace of every field of a listing except its identifier. On an
    /// absent identifier it fails and leaves the ledger unchanged.
    pub fn update_credit_for_sale(
        &mut self,
        listing_id: u64,
        credit_id: u64,
        amount: u64,
        price: u64,
        seller: String,
    ) -> (r: Result<Listing, LedgerError>)
        requires
            old(self).wf(),
        ensures
            final(self).wf(),
            r is Ok <==> old(self).listings@.contains_key(listing_id),
            match r {
                Ok(l) => {
                    &&& l == (Listing { id: listing_id, credit_id, amount, price, seller })
                    &&& final(self).listings@ == old(self).listings@.insert(listing_id, l)
                    &&& final(self).counter == old(self).counter
                    &&& final(self).projects == old(self).projects
                    &&& final(self).credits == old(self).credits
                    &&& final(self).users == old(self).users
                },
                Err(e) => e == (LedgerError::NotFound { entity: Entity::Listing, id: listing_id })
                    && *final(self) == *old(self),
            },
    {
        if self.listings.get(listing_id).is_none() {
            return Err(LedgerError::NotFound { entity: Entity::Listing, id: listing_id });
        }
        let listing = Listing { id: listing_id, credit_id, amount, price, seller };
        let result = listing.clone();
        self.listings.insert(listing_id, listing);
        Ok(result)
    }

    /// Deletes a listing (explicit cancellation) and returns the prior
    /// record. On an absent identifier it fails and leaves the ledger
    /// unchanged.
    pub fn delete_credit_for_sale(&mut self, listing_id: u64) -> (r: Result<Listing, LedgerError>)
        requires
            old(self).wf(),
        ensures
            final(self).wf(),
            r is Ok <==> old(self).listings@.contains_key(listing_id),
            match r {
                Ok(l) => {
                    &&& l == old(self).listings@[listing_id]
                    &&& final(self).listings@ == old(self).listings@.remove(listing_id)
                    &&& final(self).counter == old(self).counter
                    &&& final(self).projects == old(self).projects
                    &&& final(self).credits == old(self).credits
                    &&& final(self).users == old(self).users
                },
                Err(e) => e == (LedgerError::NotFound { entity: Entity::Listing, id: listing_id })
                    && *final(self) == *old(self),
            },
    {
        match self.listings.remove(listing_id) {
            Some(l) => Ok(l),
            None => Err(LedgerError::NotFound { entity: Entity::Listing, id: listing_id }),
        }
    }

    /// The purchase transaction: the buyer at `buyer_id` buys the listing at
    /// `listing_id`. All or nothing: on success the listing is consumed, the
    /// buyer is debited by exactly the listing's price, and the listed
    /// credit's owner becomes the buyer's name; on any failure the ledger is
    /// exactly as it was before the call, and the failure says what was
    /// wrong: an absent listing or buyer, a price above the buyer's balance,
    /// or a listing whose credit is no longer present.
    pub fn buy_credits(&mut self, listing_id: u64, buyer_id: u64) -> (r: Result<
        (),
        LedgerError,
    >)
        requires
            old(self).wf(),
        ensures
            final(self).wf(),
            r is Ok <==> purchase_ok(*old(self), listing_id, buyer_id),
            match r {
                Ok(u) => purchase_post(*old(self), *final(self), listing_id, buyer_id),
                Err(e) => e == purchase_error(*old(self), listing_id, buyer_id) && *final(self)
                    == *old(self),
            },
    {
        let listing = match self.listings.get(listing_id) {
            Some(l) => l.clone(),
            None => {
                return Err(LedgerError::NotFound { entity: Entity::Listing, id: listing_id });
            },
        };
        let buyer = match self.users.get(buyer_id) {
            Some(u) => u.clone(),
            None => {
                return Err(LedgerError::NotFound { entity: Entity::User, id: buyer_id });
            },
        };
        if buyer.credit_balance < listing.price {
            return Err(LedgerError::InsufficientBalance);
        }
        let credit = match self.credits.get(listing.credit_id) {
            Some(c) => c.clone(),
            None => {
                return Err(LedgerError::CreditNotFound);
            },
        };
        let debited = User {
            id: buyer.id,
            name: buyer.name,
            credit_balance: buyer.credit_balance - listing.price,
        };
        let transferred = Credit {
            id: credit.id,
            project_id: credit.project_id,
            amount: credit.amount,
            price: credit.price,
            issued_to: credit.issued_to,
            owner: debited.name.clone(),
            is_for_sale: credit.is_for_sale,
        };
        let _ = self.listings.remove(listing_id);
        self.users.insert(buyer_id, debited);
        self.credits.insert(listing.credit_id, transferred);
        Ok(())
    }
}

} // verus!
