//! The general laws of the store, stated over the mathematical model that the
//! exposed operations are specified with (`saved`, `authorized`,
//! `entries_at`) and proved once for all inputs.

use vstd::prelude::*;
use crate::audit_log::{AccountId, AuditLogView};
use crate::log_store::{entries_at, LogKey};
use crate::pallet::{authorized, owners_cover_logs, saved, PalletView};

verus! {

/// The first append under a log file name with no owner is authorized, makes
/// the sequence under its key exactly `[entry]`, and records the entry's
/// reporter as the owner of the log file name.
pub proof fn lemma_first_append_creates(
    s: PalletView,
    file_name: Seq<u8>,
    date: Seq<u8>,
    entry: AuditLogView,
)
    requires
        owners_cover_logs(s),
        !s.owners.contains_key(file_name),
    ensures
        authorized(s, file_name, entry.reporter),
        entries_at(saved(s, file_name, date, entry).logs, (file_name, date)) == seq![entry],
        saved(s, file_name, date, entry).owners == s.owners.insert(file_name, entry.reporter),
{
    assert(!s.logs.contains_key((file_name, date)));
    assert(entries_at(saved(s, file_name, date, entry).logs, (file_name, date)) =~= seq![entry]);
}

/// Appends from the same reporter keep call order: after appending `entry1`
/// and then `entry2` under one key, the key's sequence is the old one with
/// `entry1` and then `entry2` at its end — no reordering, no deduplication —
/// and the second append is authorized whenever the first was.
pub proof fn lemma_append_keeps_order(
    s: PalletView,
    file_name: Seq<u8>,
    date: Seq<u8>,
    entry1: AuditLogView,
    entry2: AuditLogView,
)
    requires
        entry1.reporter == entry2.reporter,
        authorized(s, file_name, entry1.reporter),
    ensures
        authorized(saved(s, file_name, date, entry1), file_name, entry2.reporter),
        entries_at(
            saved(saved(s, file_name, date, entry1), file_name, date, entry2).logs,
            (file_name, date),
        ) == entries_at(s.logs, (file_name, date)).push(entry1).push(entry2),
{
}

/// Ownership is scoped to the log file name alone, shared across its dates:
/// after an append under `date1`, the same reporter is authorized under a
/// distinct `date2` with no further claim — the owner registry does not
/// change again — and each date's sequence grows independently of the other.
pub proof fn lemma_ownership_spans_dates(
    s: PalletView,
    file_name: Seq<u8>,
    date1: Seq<u8>,
    date2: Seq<u8>,
    entry1: AuditLogView,
    entry2: AuditLogView,
)
    requires
        entry1.reporter == entry2.reporter,
        authorized(s, file_name, entry1.reporter),
        date1 != date2,
    ensures
        authorized(saved(s, file_name, date1, entry1), file_name, entry2.reporter),
        saved(saved(s, file_name, date1, entry1), file_name, date2, entry2).owners == saved(
            s,
            file_name,
            date1,
            entry1,
        ).owners,
        entries_at(
            saved(saved(s, file_name, date1, entry1), file_name, date2, entry2).logs,
            (file_name, date1),
        ) == entries_at(s.logs, (file_name, date1)).push(entry1),
        entries_at(
            saved(saved(s, file_name, date1, entry1), file_name, date2, entry2).logs,
            (file_name, date2),
        ) == entries_at(s.logs, (file_name, date2)).push(entry2),
{
}

/// A caller distinct from the recorded owner of a log file name is not
/// authorized under it — whatever the date. By the contract of the exposed
/// operation, such a call returns `Error::Unauthorized` and changes nothing.
pub proof fn lemma_foreign_caller_rejected(s: PalletView, file_name: Seq<u8>, caller: AccountId)
    requires
        s.owners.contains_key(file_name),
        s.owners[file_name] != caller,
    ensures
        !authorized(s, file_name, caller),
{
}

/// A read of an absent key is the empty sequence, never a failure.
pub proof fn lemma_retrieve_absent_is_empty(
    logs: Map<LogKey, Seq<AuditLogView>>,
    file_name: Seq<u8>,
    date: Seq<u8>,
)
    requires
        !logs.contains_key((file_name, date)),
    ensures
        entries_at(logs, (file_name, date)) == Seq::<AuditLogView>::empty(),
{
}

/// An append touches its own key alone: the sequence under every other key
/// is exactly what it was.
pub proof fn lemma_other_keys_unchanged(
    s: PalletView,
    file_name: Seq<u8>,
    date: Seq<u8>,
    entry: AuditLogView,
    other: LogKey,
)
    requires
        other != (file_name, date),
    ensures
        entries_at(saved(s, file_name, date, entry).logs, other) == entries_at(s.logs, other),
{
}

/// A recorded owner is never overwritten or removed: whatever is appended,
/// every log file name that had an owner keeps that owner.
pub proof fn lemma_owner_never_overwritten(
    s: PalletView,
    file_name: Seq<u8>,
    date: Seq<u8>,
    entry: AuditLogView,
    name: Seq<u8>,
)
    requires
        s.owners.contains_key(name),
    ensures
        saved(s, file_name, date, entry).owners.contains_key(name),
        saved(s, file_name, date, entry).owners[name] == s.owners[name],
{
}

/// A successful append preserves the relationship invariant: every key with
/// a stored sequence keeps a recorded owner for its log file name.
pub proof fn lemma_save_preserves_owner_coverage(
    s: PalletView,
    file_name: Seq<u8>,
    date: Seq<u8>,
    entry: AuditLogView,
)
    requires
        owners_cover_logs(s),
    ensures
        owners_cover_logs(saved(s, file_name, date, entry)),
{
    let s2 = saved(s, file_name, date, entry);
    assert forall|k: LogKey| #[trigger] s2.logs.contains_key(k) implies s2.owners.contains_key(
        k.0,
    ) by {
        if k != (file_name, date) {
            assert(s.logs.contains_key(k));
        }
    }
}

} // verus!
