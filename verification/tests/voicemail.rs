use rustalk::voicemail::{VoicemailBox, VoicemailError, VoicemailGreeting, VoicemailManager};

fn alice() -> VoicemailBox {
    VoicemailBox {
        id: "1001".to_string(),
        extension: "1001".to_string(),
        name: "Alice".to_string(),
        pin: "1234".to_string(),
        ..Default::default()
    }
}

#[test]
fn mod_test_create_mailbox() {
    let mut manager = VoicemailManager::new("/tmp/voicemail_test");

    let mailbox = alice();

    assert!(manager.add_mailbox(mailbox.clone()).is_ok());
    assert!(manager.get_mailbox("1001").is_some());
}

#[test]
fn test_leave_message() {
    let mut manager = VoicemailManager::new("/tmp/voicemail_test");

    manager.add_mailbox(alice()).unwrap();

    let result = manager.leave_message("1001", "5551234", Some("Bob".to_string()), 10);

    assert!(result.is_ok());

    let messages = manager.get_messages("1001", false);
    assert_eq!(messages.len(), 1);
    assert_eq!(messages[0].from_number, "5551234");
}

#[test]
fn test_mwi_status() {
    let mut manager = VoicemailManager::new("/tmp/voicemail_test");

    manager.add_mailbox(alice()).unwrap();

    // Leave two messages
    manager.leave_message("1001", "5551234", None, 10).unwrap();
    manager.leave_message("1001", "5555678", None, 15).unwrap();

    let status = manager.get_mwi_status("1001");
    assert_eq!(status.new_messages, 2);
    assert_eq!(status.old_messages, 0);
    assert_eq!(status.total_messages, 2);
}

#[test]
fn test_mark_message_read() {
    let mut manager = VoicemailManager::new("/tmp/voicemail_test");

    manager.add_mailbox(alice()).unwrap();

    let message_id = manager.leave_message("1001", "5551234", None, 10).unwrap();

    manager.mark_message_read(&message_id).unwrap();

    let status = manager.get_mwi_status("1001");
    assert_eq!(status.new_messages, 0);
    assert_eq!(status.old_messages, 1);
}

#[test]
fn test_delete_message() {
    let mut manager = VoicemailManager::new("/tmp/voicemail_test");

    manager.add_mailbox(alice()).unwrap();

    let message_id = manager.leave_message("1001", "5551234", None, 10).unwrap();

    manager.delete_message(&message_id).unwrap();

    let messages = manager.get_messages("1001", true);
    assert_eq!(messages.len(), 0);
}

#[test]
fn test_verify_pin() {
    let mut manager = VoicemailManager::new("/tmp/voicemail_test");

    manager.add_mailbox(alice()).unwrap();

    assert!(manager.verify_pin("1001", "1234"));
    assert!(!manager.verify_pin("1001", "0000"));
}

#[test]
fn test_mailbox_full() {
    let mut manager = VoicemailManager::new("/tmp/voicemail_test");

    let mailbox = VoicemailBox {
        max_messages: 2,
        ..alice()
    };

    manager.add_mailbox(mailbox).unwrap();

    manager.leave_message("1001", "5551234", None, 10).unwrap();
    manager.leave_message("1001", "5555678", None, 10).unwrap();

    // Third message should fail
    let result = manager.leave_message("1001", "5559999", None, 10);
    assert!(result.is_err());
}

#[test]
fn voicemail_records_and_paths() {
    let mut manager = VoicemailManager::new("/var/vm");
    assert_eq!(manager.mailbox_dir("1001"), "/var/vm/1001");
    assert_eq!(manager.message_file_path("1001", "m1"), "/var/vm/1001/m1.wav");
    let defaults = VoicemailBox::default();
    assert_eq!(defaults.pin, "0000");
    assert_eq!(defaults.max_messages, 100);
    assert_eq!(defaults.max_message_length, 300);
    assert_eq!(defaults.greeting, VoicemailGreeting::Default);
    assert!(defaults.enabled);

    assert_eq!(manager.add_mailbox(alice()), Ok(()));
    assert_eq!(manager.add_mailbox(alice()), Err(VoicemailError::MailboxExists));
    let mut bob = alice();
    bob.id = "1002".to_string();
    bob.enabled = false;
    manager.add_mailbox(bob).unwrap();
    assert_eq!(manager.list_mailboxes().len(), 2);
    assert!(manager.get_mailbox("1003").is_none());
    assert!(!manager.verify_pin("1003", "1234"));

    let leave = |m: &mut VoicemailManager, mailbox: &str, duration: u32, id: &str| {
        m.leave_message_with(mailbox, "555", Some("Caller".to_string()), duration, id, 1_700_000_000)
    };
    assert_eq!(leave(&mut manager, "1003", 10, "m0"), Err(VoicemailError::MailboxNotFound));
    assert_eq!(leave(&mut manager, "1002", 10, "m0"), Err(VoicemailError::MailboxDisabled));
    assert_eq!(leave(&mut manager, "1001", 301, "m0"), Err(VoicemailError::MessageTooLong));
    assert_eq!(leave(&mut manager, "1001", 300, "m1"), Ok("/var/vm/1001/m1.wav".to_string()));
    assert_eq!(leave(&mut manager, "1001", 0, "m2"), Ok("/var/vm/1001/m2.wav".to_string()));
    let all = manager.get_messages("1001", true);
    assert_eq!(all.len(), 2);
    assert_eq!(all[0].id, "m1");
    assert_eq!(all[0].mailbox_id, "1001");
    assert_eq!(all[0].from_name, Some("Caller".to_string()));
    assert_eq!(all[0].timestamp, 1_700_000_000);
    assert_eq!(all[0].duration, 300);
    assert_eq!(all[0].file_path, "/var/vm/1001/m1.wav");
    assert!(!all[0].read);
    assert!(!all[0].urgent);

    assert_eq!(manager.mark_message_read("m1"), Ok(()));
    assert_eq!(manager.mark_message_read("nope"), Err(VoicemailError::MessageNotFound));
    let unread: Vec<&str> = manager.get_messages("1001", false).iter().map(|m| m.id.as_str()).collect();
    assert_eq!(unread, vec!["m2"]);
    let status = manager.get_mwi_status("1001");
    assert_eq!((status.new_messages, status.old_messages, status.total_messages), (1, 1, 2));
    assert_eq!(status.mailbox_id, "1001");
    assert_eq!(manager.get_mwi_status("1002").total_messages, 0);

    assert_eq!(manager.delete_message("m1"), Ok("/var/vm/1001/m1.wav".to_string()));
    assert_eq!(manager.delete_message("m1"), Err(VoicemailError::MessageNotFound));
    assert_eq!(VoicemailError::MailboxFull.message(), "Mailbox is full");

    // removing a mailbox removes its records, and no others
    let mut carol = alice();
    carol.id = "1004".to_string();
    manager.add_mailbox(carol).unwrap();
    leave(&mut manager, "1004", 5, "m3").unwrap();
    assert!(manager.remove_mailbox("1001"));
    assert!(!manager.remove_mailbox("1001"));
    assert!(manager.get_messages("1001", true).is_empty());
    assert_eq!(manager.get_messages("1004", true).len(), 1);
}
