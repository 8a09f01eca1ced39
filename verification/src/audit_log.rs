//! One immutable audit entry: a title, a content, a caller-supplied opaque
//! timestamp, and the account that reported it.

use vstd::prelude::*;
use crate::bytes::clone_bytes;

verus! {

/// The account identifier of an authenticated caller, as handed in by the
/// hosting runtime. The core never inspects it beyond equality.
pub type AccountId = u64;

/// Mathematical value of one audit entry.
pub ghost struct AuditLogView {
    pub title: Seq<u8>,
    pub content: Seq<u8>,
    pub timestamp: Seq<u8>,
    pub reporter: AccountId,
}

/// One recorded audit entry. Immutable once stored: no operation of this
/// crate updates or removes an existing entry.
pub struct AuditLog {
    title: Vec<u8>,
    content: Vec<u8>,
    timestamp: Vec<u8>,
    reporter: AccountId,
}

impl View for AuditLog {
    type V = AuditLogView;

    closed spec fn view(&self) -> AuditLogView {
        AuditLogView {
            title: self.title@,
            content: self.content@,
            timestamp: self.timestamp@,
            reporter: self.reporter,
        }
    }
}

impl AuditLog {
    /// Builds an entry from its four fields.
    pub fn new(
        title: Vec<u8>,
        content: Vec<u8>,
        timestamp: Vec<u8>,
        reporter: AccountId,
    ) -> (r: AuditLog)
        ensures
            r@ == (AuditLogView { title: title@, content: content@, timestamp: timestamp@, reporter }),
    {
        AuditLog { title, content, timestamp, reporter }
    }

    pub fn get_title(self) -> (r: Vec<u8>)
        ensures
            r@ == self@.title,
    {
        self.title
    }

    pub fn get_content(self) -> (r: Vec<u8>)
        ensures
            r@ == self@.content,
    {
        self.content
    }

    pub fn get_timestamp(self) -> (r: Vec<u8>)
        ensures
            r@ == self@.timestamp,
    {
        self.timestamp
    }

    pub fn get_reporter(self) -> (r: AccountId)
        ensures
            r == self@.reporter,
    {
        self.reporter
    }
}

impl Clone for AuditLog {
    /// The copy holds the same mathematical value as the original.
    fn clone(&self) -> (r: Self)
        ensures
            r@ == self@,
    {
        AuditLog {
            title: clone_bytes(&self.title),
            content: clone_bytes(&self.content),
            timestamp: clone_bytes(&self.timestamp),
            reporter: self.reporter,
        }
    }
}

} // verus!
