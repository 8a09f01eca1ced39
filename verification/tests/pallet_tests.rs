use auditor::audit_log::AuditLog;
use auditor::log_store::LogStore;
use auditor::owner_registry::OwnerRegistry;
use auditor::pallet::{Error, Event, Pallet};

fn bytes(s: &str) -> Vec<u8> {
    s.as_bytes().to_vec()
}

#[test]
fn save_audit_log_one_item() {
    let mut auditor = Pallet::new();
    let sender: u64 = 1;
    let file_name = bytes("log-file-name");
    let date = bytes("2021-10-08");
    let title = bytes("log-title");
    let content = bytes("transaction with id 123 is processed");
    let timestamp = bytes("2021-10-08 17:30:00 UTC");
    assert!(auditor
        .save_audit_log(sender, file_name, date, title, content, timestamp)
        .is_ok());

    let retrieve_file_name = bytes("log-file-name");
    let retrieve_date = bytes("2021-10-08");
    let audit_logs = auditor.retrieve_audit_log(retrieve_file_name, retrieve_date);

    for result in audit_logs {
        assert_eq!(result.get_title(), bytes("log-title"));
    }

    assert_eq!(
        auditor
            .retrieve_audit_log(bytes("log-file-name"), bytes("2021-10-08"))
            .len(),
        1
    );
}

#[test]
fn save_audit_log_two_items() {
    let mut auditor = Pallet::new();
    let sender: u64 = 1;
    let file_name = bytes("log-file-name");
    let date = bytes("2021-10-08");
    let title = bytes("log-title");
    let content = bytes("transaction with id 123 is processed");
    let timestamp = bytes("2021-10-08 17:30:00 UTC");
    assert!(auditor
        .save_audit_log(sender, file_name, date, title, content, timestamp)
        .is_ok());

    let sender2: u64 = 1;
    let file_name2 = bytes("log-file-name");
    let date2 = bytes("2021-10-08");
    let title2 = bytes("log-title");
    let content2 = bytes("transaction with id 123 is processed");
    let timestamp2 = bytes("2021-10-08 17:45:00 UTC");
    assert!(auditor
        .save_audit_log(sender2, file_name2, date2, title2, content2, timestamp2)
        .is_ok());

    let retrieve_file_name = bytes("log-file-name");
    let retrieve_date = bytes("2021-10-08");
    assert_eq!(
        auditor
            .retrieve_audit_log(retrieve_file_name, retrieve_date)
            .len(),
        2
    );
}

#[test]
fn save_audit_log_two_items_but_different_keys() {
    let mut auditor = Pallet::new();
    let sender: u64 = 1;
    let file_name = bytes("log-file-name");
    let date = bytes("2021-10-08");
    let title = bytes("log-title");
    let content = bytes("transaction with id 123 is processed");
    let timestamp = bytes("2021-10-08 17:30:00 UTC");
    assert!(auditor
        .save_audit_log(sender, file_name, date, title, content, timestamp)
        .is_ok());

    let sender2: u64 = 1;
    let file_name2 = bytes("different-file-name");
    let date2 = bytes("2021-10-08");
    let title2 = bytes("log-title");
    let content2 = bytes("transaction with id 123 is processed");
    let timestamp2 = bytes("2021-10-08 17:45:00 UTC");
    assert!(auditor
        .save_audit_log(sender2, file_name2, date2, title2, content2, timestamp2)
        .is_ok());

    let retrieve_file_name = bytes("log-file-name");
    let retrieve_date = bytes("2021-10-08");
    assert_eq!(
        auditor
            .retrieve_audit_log(retrieve_file_name, retrieve_date)
            .len(),
        1
    );
}

#[test]
fn first_append_registers_owner() {
    let mut auditor = Pallet::new();
    assert!(auditor
        .save_audit_log(
            1,
            bytes("log-file-name"),
            bytes("2021-10-08"),
            bytes("log-title"),
            bytes("transaction with id 123 is processed"),
            bytes("2021-10-08 17:30:00 UTC"),
        )
        .is_ok());

    assert_eq!(
        auditor.retrieve_audit_log_owner(bytes("log-file-name")),
        Some(1)
    );

    let logs = auditor.retrieve_audit_log(bytes("log-file-name"), bytes("2021-10-08"));
    assert_eq!(logs.len(), 1);
    let entry = logs.into_iter().next().unwrap();
    assert_eq!(entry.clone().get_title(), bytes("log-title"));
    assert_eq!(
        entry.clone().get_content(),
        bytes("transaction with id 123 is processed")
    );
    assert_eq!(
        entry.clone().get_timestamp(),
        bytes("2021-10-08 17:30:00 UTC")
    );
    assert_eq!(entry.get_reporter(), 1);
}

#[test]
fn appends_keep_call_order() {
    let mut auditor = Pallet::new();
    assert!(auditor
        .save_audit_log(
            1,
            bytes("log-file-name"),
            bytes("2021-10-08"),
            bytes("log-title"),
            bytes("first"),
            bytes("2021-10-08 17:30:00 UTC"),
        )
        .is_ok());
    assert!(auditor
        .save_audit_log(
            1,
            bytes("log-file-name"),
            bytes("2021-10-08"),
            bytes("log-title"),
            bytes("second"),
            bytes("2021-10-08 17:45:00 UTC"),
        )
        .is_ok());

    let logs = auditor.retrieve_audit_log(bytes("log-file-name"), bytes("2021-10-08"));
    assert_eq!(logs.len(), 2);
    let mut it = logs.into_iter();
    assert_eq!(it.next().unwrap().get_content(), bytes("first"));
    assert_eq!(it.next().unwrap().get_content(), bytes("second"));
}

#[test]
fn owner_appends_under_two_dates_without_reclaim() {
    let mut auditor = Pallet::new();
    assert!(auditor
        .save_audit_log(
            1,
            bytes("log-file-name"),
            bytes("2021-10-08"),
            bytes("log-title"),
            bytes("first day"),
            bytes("2021-10-08 17:30:00 UTC"),
        )
        .is_ok());
    assert!(auditor
        .save_audit_log(
            1,
            bytes("log-file-name"),
            bytes("2021-10-09"),
            bytes("log-title"),
            bytes("second day"),
            bytes("2021-10-09 09:00:00 UTC"),
        )
        .is_ok());

    assert_eq!(
        auditor
            .retrieve_audit_log(bytes("log-file-name"), bytes("2021-10-08"))
            .len(),
        1
    );
    assert_eq!(
        auditor
            .retrieve_audit_log(bytes("log-file-name"), bytes("2021-10-09"))
            .len(),
        1
    );
    assert_eq!(
        auditor.retrieve_audit_log_owner(bytes("log-file-name")),
        Some(1)
    );
}

#[test]
fn foreign_caller_is_rejected_and_nothing_changes() {
    let mut auditor = Pallet::new();
    assert!(auditor
        .save_audit_log(
            1,
            bytes("L"),
            bytes("2021-10-08"),
            bytes("log-title"),
            bytes("owned"),
            bytes("2021-10-08 17:30:00 UTC"),
        )
        .is_ok());

    let rejected = auditor.save_audit_log(
        2,
        bytes("L"),
        bytes("2021-10-08"),
        bytes("log-title"),
        bytes("intruder"),
        bytes("2021-10-08 17:45:00 UTC"),
    );
    assert!(matches!(rejected, Err(Error::Unauthorized)));

    let also_rejected = auditor.save_audit_log(
        2,
        bytes("L"),
        bytes("2021-12-31"),
        bytes("log-title"),
        bytes("intruder, other date"),
        bytes("2021-12-31 00:00:00 UTC"),
    );
    assert!(matches!(also_rejected, Err(Error::Unauthorized)));

    let logs = auditor.retrieve_audit_log(bytes("L"), bytes("2021-10-08"));
    assert_eq!(logs.len(), 1);
    let entry = logs.into_iter().next().unwrap();
    assert_eq!(entry.get_content(), bytes("owned"));
    assert_eq!(
        auditor
            .retrieve_audit_log(bytes("L"), bytes("2021-12-31"))
            .len(),
        0
    );
    assert_eq!(auditor.retrieve_audit_log_owner(bytes("L")), Some(1));
}

#[test]
fn retrieve_absent_key_is_empty() {
    let auditor = Pallet::new();
    let logs = auditor.retrieve_audit_log(bytes("never-used"), bytes("2021-10-08"));
    assert_eq!(logs.len(), 0);
}

#[test]
fn retrieve_owner_of_absent_name_is_none() {
    let auditor = Pallet::new();
    assert_eq!(auditor.retrieve_audit_log_owner(bytes("never-used")), None);
}

#[test]
fn distinct_keys_are_independent() {
    let mut auditor = Pallet::new();
    assert!(auditor
        .save_audit_log(
            1,
            bytes("log-file-name"),
            bytes("2021-10-08"),
            bytes("log-title"),
            bytes("one"),
            bytes("2021-10-08 17:30:00 UTC"),
        )
        .is_ok());
    assert!(auditor
        .save_audit_log(
            1,
            bytes("different-file-name"),
            bytes("2021-10-08"),
            bytes("log-title"),
            bytes("two"),
            bytes("2021-10-08 17:45:00 UTC"),
        )
        .is_ok());

    assert_eq!(
        auditor
            .retrieve_audit_log(bytes("log-file-name"), bytes("2021-10-08"))
            .len(),
        1
    );
    assert_eq!(
        auditor
            .retrieve_audit_log(bytes("different-file-name"), bytes("2021-10-08"))
            .len(),
        1
    );
}

#[test]
fn event_carries_key_and_caller() {
    let mut auditor = Pallet::new();
    let saved = auditor.save_audit_log(
        7,
        bytes("log-file-name"),
        bytes("2021-10-08"),
        bytes("log-title"),
        bytes("content"),
        bytes("2021-10-08 17:30:00 UTC"),
    );
    match saved {
        Ok(Event::AuditLogInformationStored(file_name, date, reporter)) => {
            assert_eq!(file_name, bytes("log-file-name"));
            assert_eq!(date, bytes("2021-10-08"));
            assert_eq!(reporter, 7);
        }
        Err(_) => panic!("the first append must succeed"),
    }
}

#[test]
fn audit_log_getters_return_fields() {
    let entry = AuditLog::new(bytes("t"), bytes("c"), bytes("s"), 9);
    assert_eq!(entry.clone().get_title(), bytes("t"));
    assert_eq!(entry.clone().get_content(), bytes("c"));
    assert_eq!(entry.clone().get_timestamp(), bytes("s"));
    assert_eq!(entry.get_reporter(), 9);
}

#[test]
fn log_store_creates_then_extends() {
    let mut store = LogStore::new();
    assert!(!store.contains_key(&bytes("k"), &bytes("d")));
    store.append(bytes("k"), bytes("d"), AuditLog::new(bytes("a"), bytes("x"), bytes("s1"), 1));
    assert!(store.contains_key(&bytes("k"), &bytes("d")));
    store.append(bytes("k"), bytes("d"), AuditLog::new(bytes("b"), bytes("y"), bytes("s2"), 1));
    let logs = store.get(&bytes("k"), &bytes("d"));
    assert_eq!(logs.len(), 2);
    let mut it = logs.into_iter();
    assert_eq!(it.next().unwrap().get_title(), bytes("a"));
    assert_eq!(it.next().unwrap().get_title(), bytes("b"));
    assert_eq!(store.get(&bytes("k"), &bytes("other")).len(), 0);
}

#[test]
fn owner_registry_claims_only_once() {
    let mut owners = OwnerRegistry::new();
    assert_eq!(owners.owner_of(&bytes("k")), None);
    assert!(owners.claim(bytes("k"), 1));
    assert_eq!(owners.owner_of(&bytes("k")), Some(1));
    assert!(!owners.claim(bytes("k"), 2));
    assert_eq!(owners.owner_of(&bytes("k")), Some(1));
}
