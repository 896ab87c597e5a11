use startchatgpt::usage::{quota_windows, record_read, NO_QUOTA_DATA_MESSAGE};
use startchatgpt::usage::{
    choose_bucket, classify_reply, is_stale, reset_minutes, reset_note, slot_label, window_description,
    window_label, window_usable, worker_continues, Action, Bucket, Reply, Wakeup,
};

#[test]
fn labels_quota_windows() {
    assert_eq!(window_label(10080), "1W");
    assert_eq!(window_label(300), "5H");
    assert_eq!(window_label(90), "90m");
    assert_eq!(window_label(60 * 48), "48H");
    assert_eq!(window_description(10080), "每周额度");
    assert_eq!(window_description(300), "5 小时额度");
    assert_eq!(window_description(45), "45 分钟额度");
}

#[test]
fn slots_without_data_keep_their_usual_labels() {
    assert_eq!(slot_label(0, None), "5H");
    assert_eq!(slot_label(1, None), "1W");
    assert_eq!(slot_label(1, Some(120)), "2H");
}

#[test]
fn prefers_the_codex_bucket_of_a_multi_bucket_reply() {
    assert_eq!(choose_bucket(Some(true), Some(None)), Bucket::ByLimitId);
    assert_eq!(choose_bucket(Some(false), Some(None)), Bucket::Missing);
    assert_eq!(choose_bucket(None, Some(None)), Bucket::Legacy);
    assert_eq!(choose_bucket(None, Some(Some("codex".into()))), Bucket::Legacy);
    assert_eq!(choose_bucket(None, Some(Some("other".into()))), Bucket::Missing);
    assert_eq!(choose_bucket(None, None), Bucket::Missing);
    assert!(window_usable(true, 300));
    assert!(!window_usable(true, 0));
    assert!(!window_usable(false, 300));
}

#[test]
fn classifies_replies_by_request_id() {
    assert_eq!(classify_reply(2, Some(1), false, true), Reply::Unrelated);
    assert_eq!(classify_reply(2, None, false, true), Reply::Unrelated);
    assert_eq!(classify_reply(2, Some(2), true, true), Reply::Refused);
    assert_eq!(classify_reply(2, Some(2), false, false), Reply::Invalid);
    assert_eq!(classify_reply(2, Some(2), false, true), Reply::Answered);
}

#[test]
fn data_turns_stale_after_two_minutes_or_an_error() {
    assert!(is_stale(false, None));
    assert!(is_stale(true, Some((0, 0))));
    assert!(!is_stale(false, Some((120, 0))));
    assert!(is_stale(false, Some((120, 1))));
    assert!(is_stale(false, Some((121, 0))));
}

#[test]
fn a_stop_anywhere_ends_the_reader() {
    assert!(worker_continues(Wakeup::TimedOut, &vec![]));
    assert!(worker_continues(Wakeup::Received(Action::Refresh), &vec![Action::Refresh, Action::Refresh]));
    assert!(!worker_continues(Wakeup::Received(Action::Stop), &vec![]));
    assert!(!worker_continues(Wakeup::Disconnected, &vec![]));
    assert!(!worker_continues(Wakeup::TimedOut, &vec![Action::Refresh, Action::Stop]));
}

#[test]
fn reset_times_round_up_to_whole_minutes() {
    assert_eq!(reset_minutes(1000, 1000), 0);
    assert_eq!(reset_minutes(900, 1000), 0);
    assert_eq!(reset_minutes(1001, 1000), 1);
    assert_eq!(reset_minutes(1060, 1000), 1);
    assert_eq!(reset_minutes(1061, 1000), 2);
    assert_eq!(reset_note(1000 + 3 * 3600 + 5 * 60, 1000), "，约 3 小时 5 分钟后重置");
    assert_eq!(reset_note(0, u64::MAX), "，约 0 小时 0 分钟后重置");
}

#[test]
fn picks_the_cli_build_for_the_architecture() {
    assert_eq!(startchatgpt::usage::cli_platform("aarch64"), ("arm64", "aarch64-pc-windows-msvc"));
    assert_eq!(startchatgpt::usage::cli_platform("x86_64"), ("x64", "x86_64-pc-windows-msvc"));
}

#[test]
fn a_reply_without_any_window_has_no_quota_data() {
    assert_eq!(quota_windows::<u8>(None, None).err().unwrap(), NO_QUOTA_DATA_MESSAGE);
    assert_eq!(quota_windows(Some(1u8), None).unwrap(), (Some(1), None));
    assert_eq!(quota_windows(None, Some(2u8)).unwrap(), (None, Some(2)));
}

#[test]
fn a_failed_read_keeps_the_last_numbers_and_marks_them_stale() {
    let mut windows = [None, None];
    let mut updated: Option<u32> = None;
    let mut error = Some("old".to_string());
    assert!(record_read(&mut windows, &mut updated, &mut error, Ok([Some(37u8), None]), 5));
    assert_eq!((windows, updated, error.clone()), ([Some(37), None], Some(5), None));
    assert!(!record_read(&mut windows, &mut updated, &mut error, Err("lost".to_string()), 9));
    assert_eq!((windows, updated, error.clone()), ([Some(37), None], Some(5), Some("lost".to_string())));
    assert!(is_stale(error.is_some(), Some((0, 0))));
    assert!(record_read(&mut windows, &mut updated, &mut error, Ok([None, Some(63)]), 12));
    assert_eq!((windows, updated, error), ([None, Some(63)], Some(12), None));
}
