//! The double-keyed store from (log file name, date) to the ordered sequence
//! of audit entries recorded under that key. A sequence is created implicitly
//! by the first append to its key, grows at its end, and is never shrunk or
//! deleted.

use vstd::prelude::*;
use crate::audit_log::{AuditLog, AuditLogView};
use crate::bytes::bytes_eq;
use vstd::pervasive::VecAdditionalExecFns;

verus! {

/// A key of the store: the log file name and the date, as byte sequences.
pub type LogKey = (Seq<u8>, Seq<u8>);

/// The mathematical values of a sequence of stored entries.
pub open spec fn logs_view(s: Seq<AuditLog>) -> Seq<AuditLogView> {
    s.map_values(|l: AuditLog| l@)
}

/// The sequence recorded under `key`, the empty sequence where the key is
/// absent: a read of an absent key is not a failure.
pub open spec fn entries_at(m: Map<LogKey, Seq<AuditLogView>>, key: LogKey) -> Seq<AuditLogView> {
    if m.contains_key(key) {
        m[key]
    } else {
        Seq::empty()
    }
}

struct LogBucket {
    file_name: Vec<u8>,
    date: Vec<u8>,
    logs: Vec<AuditLog>,
}

spec fn bucket_key(b: LogBucket) -> LogKey {
    (b.file_name@, b.date@)
}

spec fn map_of(s: Seq<LogBucket>) -> Map<LogKey, Seq<AuditLogView>>
    decreases s.len(),
{
    if s.len() == 0 {
        Map::empty()
    } else {
        map_of(s.drop_last()).insert(bucket_key(s.last()), logs_view(s.last().logs@))
    }
}

spec fn bucket_keys_unique(s: Seq<LogBucket>) -> bool {
    forall|i: int, j: int| 0 <= i < j < s.len() ==> bucket_key(s[i]) != bucket_key(s[j])
}

proof fn lemma_map_of_absent(s: Seq<LogBucket>, k: LogKey)
    requires
        forall|i: int| 0 <= i < s.len() ==> bucket_key(s[i]) != k,
    ensures
        !map_of(s).contains_key(k),
    decreases s.len(),
{
    if s.len() > 0 {
        assert(forall|i: int|
            0 <= i < s.drop_last().len() ==> bucket_key(s.drop_last()[i]) != k);
        lemma_map_of_absent(s.drop_last(), k);
    }
}

proof fn lemma_map_of_found(s: Seq<LogBucket>, i: int)
    requires
        bucket_keys_unique(s),
        0 <= i < s.len(),
    ensures
        map_of(s).contains_key(bucket_key(s[i])),
        map_of(s)[bucket_key(s[i])] == logs_view(s[i].logs@),
    decreases s.len(),
{
    if i < s.len() - 1 {
        assert(bucket_keys_unique(s.drop_last()));
        assert(s.drop_last()[i] == s[i]);
        lemma_map_of_found(s.drop_last(), i);
        assert(bucket_key(s.last()) != bucket_key(s[i]));
    }
}

proof fn lemma_map_of_update(s: Seq<LogBucket>, i: int, b: LogBucket)
    requires
        bucket_keys_unique(s),
        0 <= i < s.len(),
        bucket_key(b) == bucket_key(s[i]),
    ensures
        map_of(s.update(i, b)) == map_of(s).insert(bucket_key(b), logs_view(b.logs@)),
    decreases s.len(),
{
    let t = s.update(i, b);
    if i == s.len() - 1 {
        assert(t.drop_last() =~= s.drop_last());
        assert(t.last() == b);
        assert(map_of(t) =~= map_of(s).insert(bucket_key(b), logs_view(b.logs@)));
    } else {
        assert(bucket_keys_unique(s.drop_last()));
        assert(s.drop_last()[i] == s[i]);
        lemma_map_of_update(s.drop_last(), i, b);
        assert(t.drop_last() =~= s.drop_last().update(i, b));
        assert(t.last() == s.last());
        assert(bucket_key(s.last()) != bucket_key(b));
        assert(map_of(t) =~= map_of(s).insert(bucket_key(b), logs_view(b.logs@)));
    }
}

/// The store of audit-log sequences, keyed by (log file name, date).
pub struct LogStore {
    buckets: Vec<LogBucket>,
}

impl View for LogStore {
    type V = Map<LogKey, Seq<AuditLogView>>;

    closed spec fn view(&self) -> Map<LogKey, Seq<AuditLogView>> {
        map_of(self.buckets@)
    }
}

impl LogStore {
    /// Internal validity: no key owns two sequences.
    pub closed spec fn wf(self) -> bool {
        bucket_keys_unique(self.buckets@)
    }

    /// An empty store: no key holds any entry.
    pub fn new() -> (r: LogStore)
        ensures
            r.wf(),
            r@ == Map::<LogKey, Seq<AuditLogView>>::empty(),
    {
        LogStore { buckets: Vec::new() }
    }

    fn find(&self, file_name: &Vec<u8>, date: &Vec<u8>) -> (r: Option<usize>)
        ensures
            match r {
                Some(i) => i < self.buckets@.len() && bucket_key(self.buckets@[i as int])
                    == (file_name@, date@),
                None => forall|i: int|
                    0 <= i < self.buckets@.len() ==> bucket_key(self.buckets@[i])
                        != (file_name@, date@),
            },
    {
        let mut i: usize = 0;
        while i < self.buckets.len()
            invariant
                i <= self.buckets@.len(),
                forall|j: int| 0 <= j < i ==> bucket_key(self.buckets@[j]) != (file_name@, date@),
            decreases self.buckets@.len() - i,
        {
            if bytes_eq(&self.buckets[i].file_name, file_name) && bytes_eq(
                &self.buckets[i].date,
                date,
            ) {
                return Some(i);
            }
            i = i + 1;
        }
        None
    }

    /// Whether `(file_name, date)` already holds a sequence.
    pub fn contains_key(&self, file_name: &Vec<u8>, date: &Vec<u8>) -> (r: bool)
        requires
            self.wf(),
        ensures
            r == self@.contains_key((file_name@, date@)),
    {
        match self.find(file_name, date) {
            Some(i) => {
                proof {
                    lemma_map_of_found(self.buckets@, i as int);
                }
                true
            },
            None => {
                proof {
                    lemma_map_of_absent(self.buckets@, (file_name@, date@));
                }
                false
            },
        }
    }

    /// The full ordered history recorded under `(file_name, date)`, as fresh
    /// copies; the empty vector where the key is absent.
    pub fn get(&self, file_name: &Vec<u8>, date: &Vec<u8>) -> (r: Vec<AuditLog>)
        requires
            self.wf(),
        ensures
            logs_view(r@) == entries_at(self@, (file_name@, date@)),
    {
        match self.find(file_name, date) {
            Some(i) => {
                proof {
                    lemma_map_of_found(self.buckets@, i as int);
                }
                clone_logs(&self.buckets[i].logs)
            },
            None => {
                proof {
                    lemma_map_of_absent(self.buckets@, (file_name@, date@));
                    assert(logs_view(Seq::<AuditLog>::empty()) =~= Seq::<AuditLogView>::empty());
                }
                Vec::new()
            },
        }
    }

    /// Appends `log` at the end of the sequence under `(file_name, date)`,
    /// creating the sequence with `log` alone where the key was absent.
    pub fn append(&mut self, file_name: Vec<u8>, date: Vec<u8>, log: AuditLog)
        requires
            old(self).wf(),
        ensures
            final(self).wf(),
            final(self)@ == old(self)@.insert(
                (file_name@, date@),
                entries_at(old(self)@, (file_name@, date@)).push(log@),
            ),
    {
        let ghost key: LogKey = (file_name@, date@);
        match self.find(&file_name, &date) {
            Some(i) => {
                proof {
                    lemma_map_of_found(self.buckets@, i as int);
                }
                let mut logs = clone_logs(&self.buckets[i].logs);
                logs.push(log);
                proof {
                    assert(logs_view(logs@) =~= entries_at(old(self)@, key).push(log@));
                }
                let ghost old_buckets = self.buckets@;
                let b = LogBucket { file_name, date, logs };
                self.buckets.set(i, b);
                proof {
                    assert(bucket_keys_unique(self.buckets@));
                    lemma_map_of_update(old_buckets, i as int, self.buckets@[i as int]);
                }
            },
            None => {
                proof {
                    lemma_map_of_absent(self.buckets@, key);
                }
                let mut logs: Vec<AuditLog> = Vec::new();
                logs.push(log);
                proof {
                    assert(logs_view(logs@) =~= entries_at(old(self)@, key).push(log@));
                }
                let ghost old_buckets = self.buckets@;
                self.buckets.push(LogBucket { file_name, date, logs });
                proof {
                    assert(self.buckets@.drop_last() =~= old_buckets);
                    assert(bucket_keys_unique(self.buckets@));
                }
            },
        }
    }
}

/// Returns fresh copies of the given entries, value for value.
fn clone_logs(v: &Vec<AuditLog>) -> (r: Vec<AuditLog>)
    ensures
        logs_view(r@) == logs_view(v@),
{
    let mut r: Vec<AuditLog> = Vec::new();
    let mut i: usize = 0;
    while i < v.len()
        invariant
            i <= v.len(),
            r@.len() == i,
            forall|j: int| 0 <= j < i ==> r@[j]@ == v@[j]@,
        decreases v.len() - i,
    {
        r.push(v[i].clone());
        i = i + 1;
    }
    proof {
        assert(logs_view(r@) =~= logs_view(v@));
    }
    r
}

} // verus!
