use ax_gpt::open_api_models::{Gpt3Role, Message};
use ax_gpt::session_storage::{Session, SessionStorage, Timestamp};

fn msg(role: Gpt3Role, text: &str) -> Message {
    Message { role, content: text.to_string() }
}

fn session_with(n: usize, at: Timestamp) -> Session {
    let mut s = Session::started_at(at);
    for i in 0..n {
        s.push_message(msg(Gpt3Role::User, &format!("m{}", i)));
    }
    s
}

fn contents(s: &Session) -> Vec<String> {
    s.messages.iter().map(|m| m.content.clone()).collect()
}

const T0: Timestamp = Timestamp { secs: 1_700_000_000, nanos: 500 };

#[test]
fn started_session_is_empty() {
    let s = Session::started_at(T0);
    assert_eq!(s.created_at, T0);
    assert!(s.messages.is_empty());
}

#[test]
fn new_session_is_empty_and_recent() {
    let s = Session::new().unwrap();
    assert!(s.messages.is_empty());
    assert!(s.created_at.secs > 1_600_000_000);
}

#[test]
fn push_appends_at_end() {
    let mut s = session_with(2, T0);
    s.push_message(msg(Gpt3Role::Assistant, "reply"));
    assert_eq!(contents(&s), vec!["m0", "m1", "reply"]);
    assert_eq!(s.messages[2].role, Gpt3Role::Assistant);
    assert_eq!(s.created_at, T0);
}

#[test]
fn trim_keeps_last_messages() {
    let mut s = session_with(6, T0);
    s.trim(4);
    assert_eq!(contents(&s), vec!["m2", "m3", "m4", "m5"]);
    assert_eq!(s.created_at, T0);
}

#[test]
fn trim_short_session_unchanged() {
    let mut s = session_with(3, T0);
    s.trim(4);
    assert_eq!(contents(&s), vec!["m0", "m1", "m2"]);
    s.trim(3);
    assert_eq!(contents(&s), vec!["m0", "m1", "m2"]);
}

#[test]
fn trim_to_zero_empties() {
    let mut s = session_with(3, T0);
    s.trim(0);
    assert!(s.messages.is_empty());
}

#[test]
fn trim_is_idempotent() {
    let mut a = session_with(7, T0);
    a.trim(3);
    let once = contents(&a);
    a.trim(3);
    assert_eq!(contents(&a), once);
}

#[test]
fn trim_twice_is_trim_to_smaller() {
    let mut a = session_with(9, T0);
    a.trim(5);
    a.trim(2);
    let mut b = session_with(9, T0);
    b.trim(2);
    assert_eq!(contents(&a), contents(&b));
    assert_eq!(contents(&a), vec!["m7", "m8"]);
}

#[test]
fn exchange_then_trim_ends_with_question_and_answer() {
    let mut s = session_with(5, T0);
    s.push_message(msg(Gpt3Role::User, "q"));
    s.push_message(msg(Gpt3Role::Assistant, "a"));
    s.trim(4);
    assert_eq!(contents(&s), vec!["m3", "m4", "q", "a"]);
    assert_eq!(s.messages[2].role, Gpt3Role::User);
    assert_eq!(s.messages[3].role, Gpt3Role::Assistant);
}

#[test]
fn resume_without_stored_session_starts_fresh() {
    let s = Session::resume(None, T0);
    assert_eq!(s.created_at, T0);
    assert!(s.messages.is_empty());
}

#[test]
fn resume_keeps_session_within_ttl() {
    let stored = session_with(2, T0);
    let now = Timestamp { secs: T0.secs + 300, nanos: T0.nanos };
    let s = Session::resume(Some(stored), now);
    assert_eq!(s.created_at, T0);
    assert_eq!(contents(&s), vec!["m0", "m1"]);
}

#[test]
fn resume_replaces_expired_session() {
    let stored = session_with(2, T0);
    let now = Timestamp { secs: T0.secs + 300, nanos: T0.nanos + 1 };
    let s = Session::resume(Some(stored), now);
    assert_eq!(s.created_at, now);
    assert!(s.messages.is_empty());
}

#[test]
fn resume_replaces_long_expired_session() {
    let stored = session_with(2, T0);
    let now = Timestamp { secs: T0.secs + 3600, nanos: 0 };
    let s = Session::resume(Some(stored), now);
    assert_eq!(s.created_at, now);
    assert!(s.messages.is_empty());
}

#[test]
fn resume_keeps_just_started_session() {
    let stored = session_with(1, T0);
    let s = Session::resume(Some(stored), T0);
    assert_eq!(contents(&s), vec!["m0"]);
}

#[test]
fn restore_keeps_recent_session() {
    let now = Session::new().unwrap().created_at;
    let stored = session_with(2, now);
    let s = Session::restore(Some(stored)).unwrap();
    assert_eq!(s.created_at, now);
    assert_eq!(contents(&s), vec!["m0", "m1"]);
}

#[test]
fn restore_replaces_old_session() {
    let stored = session_with(2, Timestamp { secs: 1_000, nanos: 0 });
    let s = Session::restore(Some(stored)).unwrap();
    assert!(s.messages.is_empty());
    assert!(s.created_at.secs > 1_600_000_000);
}

#[test]
fn clone_copies_session() {
    let s = session_with(3, T0);
    let c = s.clone();
    assert_eq!(c.created_at, s.created_at);
    assert_eq!(contents(&c), contents(&s));
}

#[test]
fn resumable_bounds() {
    assert!(T0.is_resumable());
    assert!(!Timestamp { secs: 8210266876799, nanos: 0 }.is_resumable());
    assert!(Timestamp { secs: 8210266876799 - 300, nanos: 0 }.is_resumable());
    assert!(!Timestamp { secs: -8334601315201, nanos: 0 }.is_resumable());
    assert!(Timestamp { secs: 59, nanos: 1_500_000_000 }.is_resumable());
    assert!(!Timestamp { secs: 58, nanos: 1_500_000_000 }.is_resumable());
    assert!(Timestamp { secs: -1, nanos: 1_500_000_000 }.is_resumable());
    assert!(!Timestamp { secs: 59, nanos: 2_000_000_000 }.is_resumable());
}

#[test]
fn leap_second_expiry() {
    // started in a leap second: the time to live ends 300 s after the second it follows
    let leap = Timestamp { secs: 1_483_228_799, nanos: 1_200_000_000 };
    let stored = session_with(1, leap);
    let kept = Session::resume(Some(stored), Timestamp { secs: 1_483_229_099, nanos: 200_000_000 });
    assert_eq!(contents(&kept), vec!["m0"]);
    let stored = session_with(1, leap);
    let now = Timestamp { secs: 1_483_229_099, nanos: 200_000_001 };
    let replaced = Session::resume(Some(stored), now);
    assert!(replaced.messages.is_empty());
}

#[test]
fn storage_path_from_session_id() {
    let st = SessionStorage::new("/tmp/sessions", 1234);
    assert_eq!(st.path(), "/tmp/sessions/1234.json");
    let st = SessionStorage::new("/tmp/ax_gpt/sessions", -7);
    assert_eq!(st.path(), "/tmp/ax_gpt/sessions/-7.json");
    let st = SessionStorage::new("/tmp", 0);
    assert_eq!(st.path(), "/tmp/0.json");
}

#[test]
fn storage_path_for_any_directory() {
    assert_eq!(SessionStorage::new("/tmp/sessions/", 42).path(), "/tmp/sessions/42.json");
    assert_eq!(SessionStorage::new("", 42).path(), "42.json");
    assert_eq!(SessionStorage::new("/", 42).path(), "/42.json");
}

#[test]
fn different_terminals_have_different_files() {
    let a = SessionStorage::new("/tmp/sessions", 12);
    let b = SessionStorage::new("/tmp/sessions", 123);
    let c = SessionStorage::new("/tmp/sessions", -12);
    assert_ne!(a.path(), b.path());
    assert_ne!(a.path(), c.path());
    assert_eq!(a.path(), SessionStorage::new("/tmp/sessions", 12).path());
}

#[test]
fn restore_without_stored_session_starts_fresh() {
    let s = Session::restore(None).unwrap();
    assert!(s.messages.is_empty());
    assert!(s.created_at.secs > 1_600_000_000);
    assert!(s.created_at.nanos < 1_000_000_000);
}

#[test]
fn storage_path_agrees_with_std_join() {
    for dir in ["/tmp/sessions", "/tmp/sessions/", "", "/", "rel/dir", "a//"] {
        for id in [0, 7, -1, 42, i32::MAX, i32::MIN] {
            let expected = std::path::Path::new(dir).join(format!("{}.json", id));
            assert_eq!(SessionStorage::new(dir, id).path(), expected.to_str().unwrap());
        }
    }
}
