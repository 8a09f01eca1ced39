//! The one exposed operation and its read path: an append consults the owner
//! registry, mutates the log store, and hands back the notification for the
//! hosting runtime's event sink; a read is open to any caller.

use vstd::prelude::*;
use crate::audit_log::{AccountId, AuditLog, AuditLogView};
use crate::bytes::clone_bytes;
use crate::log_store::{entries_at, logs_view, LogKey, LogStore};
use crate::owner_registry::OwnerRegistry;

verus! {

/// Mathematical value of the whole store: the entry sequences by key, and the
/// recorded owner by log file name.
pub ghost struct PalletView {
    pub logs: Map<LogKey, Seq<AuditLogView>>,
    pub owners: Map<Seq<u8>, AccountId>,
}

/// Mathematical value of one emitted notification.
pub ghost struct EventView {
    pub file_name: Seq<u8>,
    pub date: Seq<u8>,
    pub reporter: AccountId,
}

/// A notification raised on every successful append, for the hosting
/// runtime's event sink.
pub enum Event {
    AuditLogInformationStored(Vec<u8>, Vec<u8>, AccountId),
}

impl View for Event {
    type V = EventView;

    open spec fn view(&self) -> EventView {
        match self {
            Event::AuditLogInformationStored(file_name, date, reporter) => EventView {
                file_name: file_name@,
                date: date@,
                reporter: *reporter,
            },
        }
    }
}

/// A failure surfaced to the caller; no mutation accompanies it.
#[derive(Clone, Copy, Debug, PartialEq, Eq, Structural)]
pub enum Error {
    /// The caller attempted to append under a log file name it does not own.
    Unauthorized,
}

/// A caller may write under `file_name` exactly when the name has no owner
/// yet or the caller is its recorded owner.
pub open spec fn authorized(s: PalletView, file_name: Seq<u8>, caller: AccountId) -> bool {
    !s.owners.contains_key(file_name) || s.owners[file_name] == caller
}

/// The state after a successful append of `entry` under `(file_name, date)`:
/// the entry stands at the end of its key's sequence, and the reporter is
/// recorded as owner of `file_name` where no owner existed.
pub open spec fn saved(s: PalletView, file_name: Seq<u8>, date: Seq<u8>, entry: AuditLogView)
    -> PalletView {
    PalletView {
        logs: s.logs.insert((file_name, date), entries_at(s.logs, (file_name, date)).push(entry)),
        owners: if s.owners.contains_key(file_name) {
            s.owners
        } else {
            s.owners.insert(file_name, entry.reporter)
        },
    }
}

/// Every key with a stored sequence has an owner recorded for its log file
/// name: ownership is established with, or before, the first entry.
pub open spec fn owners_cover_logs(s: PalletView) -> bool {
    forall|k: LogKey| #[trigger] s.logs.contains_key(k) ==> s.owners.contains_key(k.0)
}

/// The store and the registry behind the exposed operation.
pub struct Pallet {
    logs: LogStore,
    owners: OwnerRegistry,
}

impl View for Pallet {
    type V = PalletView;

    closed spec fn view(&self) -> PalletView {
        PalletView { logs: self.logs@, owners: self.owners@ }
    }
}

impl Pallet {
    /// Internal validity of the two components, and the relationship between
    /// them: every stored sequence's log file name has a recorded owner.
    pub closed spec fn wf(self) -> bool {
        &&& self.logs.wf()
        &&& self.owners.wf()
        &&& owners_cover_logs(self@)
    }

    /// An empty pallet, as the hosting substrate initializes it: no entry
    /// stored, no owner recorded.
    pub fn new() -> (r: Pallet)
        ensures
            r.wf(),
            r@ == (PalletView {
                logs: Map::<LogKey, Seq<AuditLogView>>::empty(),
                owners: Map::<Seq<u8>, AccountId>::empty(),
            }),
    {
        Pallet { logs: LogStore::new(), owners: OwnerRegistry::new() }
    }

    /// Appends one audit entry under `(log_file_name, log_date)` for the
    /// authenticated `caller`, claiming ownership of the log file name on its
    /// first use. Exactly the authorized calls succeed; a rejected call
    /// mutates nothing. On success the returned notification carries the key
    /// and the caller, for the hosting runtime to emit exactly once.
    pub fn save_audit_log(
        &mut self,
        caller: AccountId,
        log_file_name: Vec<u8>,
        log_date: Vec<u8>,
        log_title: Vec<u8>,
        log_content: Vec<u8>,
        log_timestamp: Vec<u8>,
    ) -> (r: Result<Event, Error>)
        requires
            old(self).wf(),
        ensures
            final(self).wf(),
            r is Ok <==> authorized(old(self)@, log_file_name@, caller),
            r matches Ok(event) ==> {
                &&& final(self)@ == saved(
                    old(self)@,
                    log_file_name@,
                    log_date@,
                    AuditLogView {
                        title: log_title@,
                        content: log_content@,
                        timestamp: log_timestamp@,
                        reporter: caller,
                    },
                )
                &&& event@ == (EventView { file_name: log_file_name@, date: log_date@, reporter: caller })
            },
            r is Err ==> final(self)@ == old(self)@ && r == Result::<Event, Error>::Err(
                Error::Unauthorized,
            ),
    {
        match self.owners.owner_of(&log_file_name) {
            Some(owner) => {
                if owner != caller {
                    return Err(Error::Unauthorized);
                }
            },
            None => {
                let name_for_owner = clone_bytes(&log_file_name);
                self.owners.claim(name_for_owner, caller);
            },
        }
        let audit_log = AuditLog::new(log_title, log_content, log_timestamp, caller);
        let name_for_store = clone_bytes(&log_file_name);
        let date_for_store = clone_bytes(&log_date);
        self.logs.append(name_for_store, date_for_store, audit_log);
        proof {
            assert forall|k: LogKey| #[trigger]
                self.logs@.contains_key(k) implies self.owners@.contains_key(k.0) by {
                if k != (log_file_name@, log_date@) {
                    assert(old(self)@.logs.contains_key(k));
                }
            }
        }
        Ok(Event::AuditLogInformationStored(log_file_name, log_date, caller))
    }

    /// The full ordered history under `(log_file_name, log_date)`: a pure
    /// read, open to any caller, and empty — never a failure — where the key
    /// is absent.
    pub fn retrieve_audit_log(&self, log_file_name: Vec<u8>, log_date: Vec<u8>) -> (r: Vec<AuditLog>)
        requires
            self.wf(),
        ensures
            logs_view(r@) == entries_at(self@.logs, (log_file_name@, log_date@)),
    {
        self.logs.get(&log_file_name, &log_date)
    }

    /// The recorded owner of `log_file_name`, if any.
    pub fn retrieve_audit_log_owner(&self, log_file_name: Vec<u8>) -> (r: Option<AccountId>)
        requires
            self.wf(),
        ensures
            r == (if self@.owners.contains_key(log_file_name@) {
                Some(self@.owners[log_file_name@])
            } else {
                Option::<AccountId>::None
            }),
    {
        self.owners.owner_of(&log_file_name)
    }
}

} // verus!
