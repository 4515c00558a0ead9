//! Claims that were submitted and are not yet settled, found by label or by identifier.

use vstd::prelude::*;

use crate::alias::texts;
use crate::error::CliError;
use crate::table::Table;
use crate::text::owned;

verus! {

/// What a pending claim holds, as plain values.
pub struct PendingClaimView {
    pub claim: Seq<char>,
    pub claim_type: Seq<char>,
    pub proof: Seq<char>,
    pub nonce: Seq<char>,
    pub to: Seq<Seq<char>>,
    pub quorum: u16,
    pub from: Seq<char>,
    pub expires: u64,
    pub fee: Seq<char>,
}

/// A claim as it was submitted.
pub struct PendingClaim {
    /// The label chosen by the submitter.
    pub claim: String,
    pub claim_type: String,
    pub proof: String,
    /// The submitter's nonce, in decimal.
    pub nonce: String,
    /// The addresses of the verifiers.
    pub to: Vec<String>,
    pub quorum: u16,
    /// The submitter's address.
    pub from: String,
    /// Expiry time, in seconds.
    pub expires: u64,
    /// The fee, as `0x` hexadecimal.
    pub fee: String,
}

impl View for PendingClaim {
    type V = PendingClaimView;

    open spec fn view(&self) -> PendingClaimView {
        PendingClaimView {
            claim: self.claim@,
            claim_type: self.claim_type@,
            proof: self.proof@,
            nonce: self.nonce@,
            to: texts(self.to@),
            quorum: self.quorum,
            from: self.from@,
            expires: self.expires,
            fee: self.fee@,
        }
    }
}

impl Clone for PendingClaim {
    fn clone(&self) -> (r: Self)
        ensures
            r@ == self@,
    {
        let to = self.to.clone();
        assert(to@ =~= self.to@);
        PendingClaim {
            claim: self.claim.clone(),
            claim_type: self.claim_type.clone(),
            proof: self.proof.clone(),
            nonce: self.nonce.clone(),
            to,
            quorum: self.quorum,
            from: self.from.clone(),
            expires: self.expires,
            fee: self.fee.clone(),
        }
    }
}

/// A pending claim with both of its keys.
struct LedgerEntry {
    label: String,
    id: String,
    record: PendingClaim,
}

impl LedgerEntry {
    fn copy(&self) -> (r: Self)
        ensures
            r.label@ == self.label@,
            r.id@ == self.id@,
            r.record@ == self.record@,
    {
        LedgerEntry { label: self.label.clone(), id: self.id.clone(), record: self.record.clone() }
    }
}

/// The pending claims, each stored under its label and under the identifier the service gave it.
pub struct ClaimLedger {
    by_key: Table<LedgerEntry>,
}

impl ClaimLedger {
    /// The pending claim under each key.
    pub closed spec fn claims(&self) -> Map<Seq<char>, PendingClaimView> {
        Map::new(|k: Seq<char>| self.by_key@.contains_key(k), |k: Seq<char>| self.by_key@[k].record@)
    }

    /// The label of the claim stored under `key`.
    pub closed spec fn label_of(&self, key: Seq<char>) -> Seq<char> {
        self.by_key@[key].label@
    }

    /// The identifier of the claim stored under `key`.
    pub closed spec fn id_of(&self, key: Seq<char>) -> Seq<char> {
        self.by_key@[key].id@
    }

    /// Each claim is stored under exactly its label and its identifier.
    pub open spec fn well_formed(&self) -> bool {
        &&& self.table_well_formed()
        &&& forall|k: Seq<char>| #[trigger]
            self.claims().contains_key(k) ==> {
                let l = self.label_of(k);
                let i = self.id_of(k);
                &&& (k == l || k == i)
                &&& self.claims().contains_key(l)
                &&& self.claims().contains_key(i)
                &&& self.label_of(l) == l && self.id_of(l) == i
                &&& self.label_of(i) == l && self.id_of(i) == i
                &&& self.claims()[l] == self.claims()[k]
                &&& self.claims()[i] == self.claims()[k]
            }
    }

    pub closed spec fn table_well_formed(&self) -> bool {
        self.by_key.well_formed()
    }

    /// No pending claims.
    pub fn new() -> (r: Self)
        ensures
            r.well_formed(),
            r.claims() == Map::<Seq<char>, PendingClaimView>::empty(),
    {
        let r = ClaimLedger { by_key: Table::new() };
        assert(r.claims() =~= Map::<Seq<char>, PendingClaimView>::empty());
        r
    }

    /// Records `record` under its label and under `claim_id`; refused when either key is already
    /// recorded.
    pub fn add(&mut self, record: PendingClaim, claim_id: String) -> (r: Result<(), CliError>)
        requires
            old(self).well_formed(),
        ensures
            final(self).well_formed(),
            if old(self).claims().contains_key(record.claim@) || old(self).claims().contains_key(
                claim_id@,
            ) {
                r == Err::<(), CliError>(CliError::AlreadySubmitted) && final(self).claims() == old(
                    self,
                ).claims()
            } else {
                &&& r is Ok
                &&& final(self).claims() == old(self).claims().insert(record.claim@, record@).insert(
                    claim_id@,
                    record@,
                )
                &&& final(self).label_of(record.claim@) == record.claim@
                &&& final(self).id_of(record.claim@) == claim_id@
                &&& final(self).label_of(claim_id@) == record.claim@
                &&& final(self).id_of(claim_id@) == claim_id@
            },
    {
        if self.by_key.contains_key(&record.claim) || self.by_key.contains_key(&claim_id) {
            return Err(CliError::AlreadySubmitted);
        }
        let label = record.claim.clone();
        let entry = LedgerEntry { label: label.clone(), id: claim_id.clone(), record };
        let copy = entry.copy();
        let ghost before = self.claims();
        let ghost old_table = self.by_key@;
        self.by_key.insert(label, entry);
        self.by_key.insert(claim_id, copy);
        assert(self.claims() =~= before.insert(copy.label@, copy.record@).insert(copy.id@, copy.record@));
        assert forall|k: Seq<char>| #[trigger] self.claims().contains_key(k) implies {
            let l = self.label_of(k);
            let i = self.id_of(k);
            &&& (k == l || k == i)
            &&& self.claims().contains_key(l)
            &&& self.claims().contains_key(i)
            &&& self.label_of(l) == l && self.id_of(l) == i
            &&& self.label_of(i) == l && self.id_of(i) == i
            &&& self.claims()[l] == self.claims()[k]
            &&& self.claims()[i] == self.claims()[k]
        } by {
            if k != copy.label@ && k != copy.id@ {
                assert(old(self).claims().contains_key(k));
                let l = old(self).label_of(k);
                let i = old(self).id_of(k);
                assert(old(self).claims().contains_key(l));
                assert(old(self).claims().contains_key(i));
                assert(l != copy.label@ && l != copy.id@);
                assert(i != copy.label@ && i != copy.id@);
            }
        }
        Ok(())
    }

    /// The pending claim stored under `key`.
    pub fn get(&self, key: &str) -> (r: Result<&PendingClaim, CliError>)
        requires
            self.well_formed(),
        ensures
            if self.claims().contains_key(key@) {
                r matches Ok(c) && c@ == self.claims()[key@]
            } else {
                r == Err::<&PendingClaim, CliError>(CliError::NotSubmitted)
            },
    {
        let k = owned(key);
        match self.by_key.get(&k) {
            Some(t) => Ok(&t.record),
            None => Err(CliError::NotSubmitted),
        }
    }

    /// Whether a claim is stored under `key`.
    pub fn has(&self, key: &str) -> (r: bool)
        requires
            self.well_formed(),
        ensures
            r == self.claims().contains_key(key@),
    {
        let k = owned(key);
        self.by_key.contains_key(&k)
    }

    /// Every pending claim once, with its label and its identifier.
    pub fn entries(&self) -> (r: Vec<(&String, &String, &PendingClaim)>)
        requires
            self.well_formed(),
        ensures
            forall|i: int|
                0 <= i < r@.len() ==> {
                    let (l, id, c) = #[trigger] r@[i];
                    &&& self.claims().contains_key(l@)
                    &&& self.label_of(l@) == l@
                    &&& self.id_of(l@) == id@
                    &&& self.claims()[l@] == c@
                },
            forall|k: Seq<char>| #[trigger]
                self.claims().contains_key(k) ==> exists|i: int|
                    0 <= i < r@.len() && #[trigger] r@[i].0@ == self.label_of(k),
    {
        let all = self.by_key.list();
        let mut r: Vec<(&String, &String, &PendingClaim)> = Vec::new();
        let mut i: usize = 0;
        while i < all.len()
            invariant
                i <= all@.len(),
                self.well_formed(),
                forall|j: int|
                    0 <= j < all@.len() ==> self.by_key@.contains_key(#[trigger] all@[j].0@)
                        && self.by_key@[all@[j].0@] == *all@[j].1,
                forall|k: Seq<char>| #[trigger]
                    self.by_key@.contains_key(k) ==> exists|j: int| 0 <= j < all@.len() && #[trigger] all@[j].0@ == k,
                forall|j: int|
                    0 <= j < r@.len() ==> {
                        let (l, id, c) = #[trigger] r@[j];
                        &&& self.claims().contains_key(l@)
                        &&& self.label_of(l@) == l@
                        &&& self.id_of(l@) == id@
                        &&& self.claims()[l@] == c@
                    },
                forall|j: int|
                    0 <= j < i && #[trigger] all@[j].1.label@ == all@[j].0@ ==> exists|m: int|
                        0 <= m < r@.len() && #[trigger] r@[m].0@ == all@[j].0@,
            decreases all@.len() - i,
        {
            let (key, entry) = (all[i].0, all[i].1);
            let ghost old_r = r@;
            if *key == entry.label {
                r.push((&entry.label, &entry.id, &entry.record));
            }
            proof {
                assert forall|j: int|
                    0 <= j < i + 1 && #[trigger] all@[j].1.label@ == all@[j].0@ implies exists|m: int|
                        0 <= m < r@.len() && #[trigger] r@[m].0@ == all@[j].0@ by {
                    if j < i {
                        let m = choose|m: int| 0 <= m < old_r.len() && #[trigger] old_r[m].0@ == all@[j].0@;
                        assert(r@[m] == old_r[m]);
                    } else {
                        assert(r@[r@.len() - 1].0@ == all@[j].0@);
                    }
                }
            }
            i = i + 1;
        }
        assert forall|k: Seq<char>| #[trigger] self.claims().contains_key(k) implies exists|m: int|
            0 <= m < r@.len() && #[trigger] r@[m].0@ == self.label_of(k) by {
            let l = self.label_of(k);
            assert(self.claims().contains_key(l));
            assert(self.by_key@.contains_key(l));
            let j = choose|j: int| 0 <= j < all@.len() && #[trigger] all@[j].0@ == l;
            assert(all@[j].1.label@ == all@[j].0@);
        }
        r
    }

    /// Stops tracking the claim stored under `key`, under both of its keys.
    pub fn remove(&mut self, key: &str) -> (r: Result<(), CliError>)
        requires
            old(self).well_formed(),
        ensures
            final(self).well_formed(),
            if old(self).claims().contains_key(key@) {
                &&& r is Ok
                &&& final(self).claims() == old(self).claims().remove(old(self).label_of(key@)).remove(
                    old(self).id_of(key@),
                )
            } else {
                r == Err::<(), CliError>(CliError::NotPresent) && final(self).claims() == old(
                    self,
                ).claims()
            },
    {
        let k = owned(key);
        let (label, id) = match self.by_key.get(&k) {
            Some(t) => (t.label.clone(), t.id.clone()),
            None => return Err(CliError::NotPresent),
        };
        let ghost before = self.claims();
        self.by_key.remove(&label);
        self.by_key.remove(&id);
        assert(self.claims() =~= before.remove(label@).remove(id@));
        assert forall|q: Seq<char>| #[trigger] self.claims().contains_key(q) implies {
            let l = self.label_of(q);
            let i = self.id_of(q);
            &&& (q == l || q == i)
            &&& self.claims().contains_key(l)
            &&& self.claims().contains_key(i)
            &&& self.label_of(l) == l && self.id_of(l) == i
            &&& self.label_of(i) == l && self.id_of(i) == i
            &&& self.claims()[l] == self.claims()[q]
            &&& self.claims()[i] == self.claims()[q]
        } by {
            assert(old(self).claims().contains_key(q));
            assert(old(self).claims().contains_key(key@));
            assert(label@ == old(self).label_of(key@));
            assert(id@ == old(self).id_of(key@));
            let l = old(self).label_of(q);
            let i = old(self).id_of(q);
            assert(old(self).claims().contains_key(l));
            assert(old(self).claims().contains_key(label@));
            assert(old(self).claims().contains_key(id@));
            assert(q != label@ && q != id@);
        }
        Ok(())
    }
}

/// Once a claim stops being recorded, neither its label nor its identifier finds it.
pub proof fn lemma_settled_claim_gone(before: ClaimLedger, after: ClaimLedger, key: Seq<char>)
    requires
        before.well_formed(),
        before.claims().contains_key(key),
        after.claims() == before.claims().remove(before.label_of(key)).remove(before.id_of(key)),
    ensures
        !after.claims().contains_key(key),
        !after.claims().contains_key(before.label_of(key)),
        !after.claims().contains_key(before.id_of(key)),
{
}

/// Once a claim is recorded, its label is among the keys, so recording any claim with the same
/// label again is refused as already submitted.
pub proof fn lemma_no_double_submission(
    before: ClaimLedger,
    after: ClaimLedger,
    record: PendingClaimView,
    claim_id: Seq<char>,
)
    requires
        after.claims() == before.claims().insert(record.claim, record).insert(claim_id, record),
    ensures
        after.claims().contains_key(record.claim),
{
}

} // verus!
