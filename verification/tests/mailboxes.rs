use blackbird::config::PollConfig;
use blackbird::mailbox::{fetch_items, inbox, unseen_query, MailboxOp};

#[test]
fn flag_changes_in_the_words_of_the_protocol() {
    assert_eq!(MailboxOp::MarkSeen(3).flags().as_deref(), Some("+FLAGS (\\Seen)"));
    assert_eq!(MailboxOp::MarkUnseen(3).flags().as_deref(), Some("-FLAGS (\\Seen)"));
    assert_eq!(MailboxOp::MarkDeleted(3).flags().as_deref(), Some("+FLAGS (\\Deleted)"));
    assert_eq!(MailboxOp::Expunge.flags(), None);
}

#[test]
fn targets_of_the_changes() {
    assert_eq!(MailboxOp::MarkSeen(3).target(), Some(3));
    assert_eq!(MailboxOp::MarkUnseen(4).target(), Some(4));
    assert_eq!(MailboxOp::MarkDeleted(5).target(), Some(5));
    assert_eq!(MailboxOp::Expunge.target(), None);
}

#[test]
fn interval_is_held_in_seconds() {
    let c = PollConfig::new(15, "x1".to_string()).unwrap();
    assert_eq!(c.interval_seconds, 900);
    assert_eq!(c.command_tag, "x1");
    let c = PollConfig::new(1, String::new()).unwrap();
    assert_eq!(c.interval_seconds, 60);
}

#[test]
fn interval_of_zero_is_refused() {
    assert!(PollConfig::new(0, "x1".to_string()).is_none());
}

#[test]
fn interval_beyond_the_range_is_refused() {
    assert!(PollConfig::new(u64::MAX / 60 + 1, "x1".to_string()).is_none());
    assert!(PollConfig::new(u64::MAX, "x1".to_string()).is_none());
    let c = PollConfig::new(u64::MAX / 60, "x1".to_string()).unwrap();
    assert_eq!(c.interval_seconds, (u64::MAX / 60) * 60);
}

#[test]
fn words_of_the_protocol() {
    assert_eq!(inbox(), "INBOX");
    assert_eq!(unseen_query(), "UNSEEN");
    assert_eq!(fetch_items(), "(BODY[] ENVELOPE)");
}

#[test]
fn scheduler_launches_then_waits_the_interval() {
    let config = PollConfig::new(2, "x1".to_string()).unwrap();
    let mut scheduler = blackbird::schedule::Scheduler::new(&config);
    for _ in 0..4 {
        assert_eq!(scheduler.next(), blackbird::schedule::Tick::Launch);
        assert_eq!(scheduler.next(), blackbird::schedule::Tick::Wait(120));
    }
}
