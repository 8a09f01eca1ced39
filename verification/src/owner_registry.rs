//! The single-keyed registry from a log file name to the account that first
//! created that log file name. First writer claims ownership; an owner is
//! never updated or removed afterwards.

use vstd::prelude::*;
use crate::audit_log::AccountId;
use crate::bytes::bytes_eq;

verus! {

struct OwnerRecord {
    file_name: Vec<u8>,
    owner: AccountId,
}

spec fn record_key(r: OwnerRecord) -> Seq<u8> {
    r.file_name@
}

spec fn owners_of(s: Seq<OwnerRecord>) -> Map<Seq<u8>, AccountId>
    decreases s.len(),
{
    if s.len() == 0 {
        Map::empty()
    } else {
        owners_of(s.drop_last()).insert(record_key(s.last()), s.last().owner)
    }
}

spec fn record_keys_unique(s: Seq<OwnerRecord>) -> bool {
    forall|i: int, j: int| 0 <= i < j < s.len() ==> record_key(s[i]) != record_key(s[j])
}

proof fn lemma_owners_of_absent(s: Seq<OwnerRecord>, k: Seq<u8>)
    requires
        forall|i: int| 0 <= i < s.len() ==> record_key(s[i]) != k,
    ensures
        !owners_of(s).contains_key(k),
    decreases s.len(),
{
    if s.len() > 0 {
        assert(forall|i: int|
            0 <= i < s.drop_last().len() ==> record_key(s.drop_last()[i]) != k);
        lemma_owners_of_absent(s.drop_last(), k);
    }
}

proof fn lemma_owners_of_found(s: Seq<OwnerRecord>, i: int)
    requires
        record_keys_unique(s),
        0 <= i < s.len(),
    ensures
        owners_of(s).contains_key(record_key(s[i])),
        owners_of(s)[record_key(s[i])] == s[i].owner,
    decreases s.len(),
{
    if i < s.len() - 1 {
        assert(record_keys_unique(s.drop_last()));
        assert(s.drop_last()[i] == s[i]);
        lemma_owners_of_found(s.drop_last(), i);
        assert(record_key(s.last()) != record_key(s[i]));
    }
}

/// The registry of log file name owners: a map from a log file name to the
/// account that first appended under it.
pub struct OwnerRegistry {
    records: Vec<OwnerRecord>,
}

impl View for OwnerRegistry {
    type V = Map<Seq<u8>, AccountId>;

    closed spec fn view(&self) -> Map<Seq<u8>, AccountId> {
        owners_of(self.records@)
    }
}

impl OwnerRegistry {
    /// Internal validity: no log file name is recorded twice.
    pub closed spec fn wf(self) -> bool {
        record_keys_unique(self.records@)
    }

    /// An empty registry: no log file name has an owner.
    pub fn new() -> (r: OwnerRegistry)
        ensures
            r.wf(),
            r@ == Map::<Seq<u8>, AccountId>::empty(),
    {
        OwnerRegistry { records: Vec::new() }
    }

    fn find(&self, file_name: &Vec<u8>) -> (r: Option<usize>)
        ensures
            match r {
                Some(i) => i < self.records@.len() && record_key(self.records@[i as int])
                    == file_name@,
                None => forall|i: int|
                    0 <= i < self.records@.len() ==> record_key(self.records@[i]) != file_name@,
            },
    {
        let mut i: usize = 0;
        while i < self.records.len()
            invariant
                i <= self.records@.len(),
                forall|j: int| 0 <= j < i ==> record_key(self.records@[j]) != file_name@,
            decreases self.records@.len() - i,
        {
            if bytes_eq(&self.records[i].file_name, file_name) {
                return Some(i);
            }
            i = i + 1;
        }
        None
    }

    /// The recorded owner of `file_name`, if any account has claimed it.
    pub fn owner_of(&self, file_name: &Vec<u8>) -> (r: Option<AccountId>)
        requires
            self.wf(),
        ensures
            r == (if self@.contains_key(file_name@) {
                Some(self@[file_name@])
            } else {
                Option::<AccountId>::None
            }),
    {
        match self.find(file_name) {
            Some(i) => {
                proof {
                    lemma_owners_of_found(self.records@, i as int);
                }
                Some(self.records[i].owner)
            },
            None => {
                proof {
                    lemma_owners_of_absent(self.records@, file_name@);
                }
                None
            },
        }
    }

    /// Records `account` as the owner of `file_name` if no owner exists yet,
    /// and reports whether it did so; an existing owner is never overwritten.
    pub fn claim(&mut self, file_name: Vec<u8>, account: AccountId) -> (r: bool)
        requires
            old(self).wf(),
        ensures
            final(self).wf(),
            r == !old(self)@.contains_key(file_name@),
            final(self)@ == (if old(self)@.contains_key(file_name@) {
                old(self)@
            } else {
                old(self)@.insert(file_name@, account)
            }),
    {
        match self.find(&file_name) {
            Some(i) => {
                proof {
                    lemma_owners_of_found(self.records@, i as int);
                }
                false
            },
            None => {
                proof {
                    lemma_owners_of_absent(self.records@, file_name@);
                }
                let ghost old_records = self.records@;
                self.records.push(OwnerRecord { file_name, owner: account });
                proof {
                    assert(self.records@.drop_last() =~= old_records);
                    assert(record_keys_unique(self.records@));
                }
                true
            },
        }
    }
}

} // verus!
