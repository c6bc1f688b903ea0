use calbridge::session::{
    message_triggers, new_client_session, room_is_watched, seconds_until_weekly, split_room_ids,
    ClientSession, FullSession, MatrixCredentials, SyncAction, SyncInput, SyncMachine, SyncPhase,
};
use calbridge::time::{Date, Timestamp};

fn record() -> FullSession {
    FullSession {
        client_session: ClientSession {
            homeserver: "https://matrix.example".to_string(),
            db_path: "/data/persist_session/abcdefg".to_string(),
            passphrase: "SECRET-REDACTED".to_string(),
        },
        user_session: "{\"user_id\":\"@bot:example\"}".to_string(),
        sync_token: None,
    }
}

#[test]
fn failed_initial_sync_is_retried() {
    let mut m = SyncMachine::start(record());
    assert_eq!(m.step(SyncInput::SyncFailed), SyncAction::Retry);
    assert_eq!(m.phase, SyncPhase::InitialSync);
    assert_eq!(m.stored.sync_token, None);
    assert_eq!(m.step(SyncInput::SyncFailed), SyncAction::Retry);
    assert_eq!(m.phase, SyncPhase::InitialSync);
}

#[test]
fn a_batch_persists_its_cursor_and_listens() {
    let mut m = SyncMachine::start(record());
    assert_eq!(m.step(SyncInput::Batch("s1".to_string())), SyncAction::Persist);
    assert_eq!(m.phase, SyncPhase::Listening);
    assert_eq!(m.stored.sync_token, Some("s1".to_string()));
}

#[test]
fn after_n_batches_the_record_holds_the_nth_cursor() {
    let mut m = SyncMachine::start(record());
    for i in 1..=5 {
        let token = format!("cursor-{}", i);
        assert_eq!(m.step(SyncInput::Batch(token.clone())), SyncAction::Persist);
        assert_eq!(m.stored.sync_token, Some(token));
    }
    assert_eq!(m.phase, SyncPhase::Listening);
    assert_eq!(m.stored.sync_token, Some("cursor-5".to_string()));
    // the connection data never changes along the way
    assert_eq!(m.stored.client_session.homeserver, "https://matrix.example");
}

#[test]
fn a_failure_while_listening_stops_the_machine() {
    let mut m = SyncMachine::start(record());
    m.step(SyncInput::Batch("s1".to_string()));
    assert_eq!(m.step(SyncInput::SyncFailed), SyncAction::Stop);
    assert_eq!(m.phase, SyncPhase::Failed);
    assert_eq!(m.stored.sync_token, Some("s1".to_string()));
    assert_eq!(m.step(SyncInput::Batch("s2".to_string())), SyncAction::Stop);
}

#[test]
fn triggers_fire_on_both_commands() {
    assert!(message_triggers("!calendar"));
    assert!(message_triggers("could you run !cal please"));
    assert!(message_triggers("prefix !calendar suffix"));
    assert!(!message_triggers("calendar without the bang"));
    assert!(!message_triggers(""));
    assert!(!message_triggers("!ca l"));
}

#[test]
fn the_watch_list_is_checked_by_identifier() {
    let watched = vec!["!roomA:example".to_string(), "!roomB:example".to_string()];
    assert!(room_is_watched("!roomA:example", &watched));
    assert!(room_is_watched("!roomB:example", &watched));
    assert!(!room_is_watched("!roomC:example", &watched));
    assert!(!room_is_watched("!roomA:example", &Vec::new()));
}

#[test]
fn room_ids_split_on_commas() {
    assert_eq!(
        split_room_ids("!a:x,!b:y,!c:z"),
        vec!["!a:x".to_string(), "!b:y".to_string(), "!c:z".to_string()]
    );
    assert_eq!(split_room_ids("single"), vec!["single".to_string()]);
    assert_eq!(split_room_ids(""), vec!["".to_string()]);
    assert_eq!(
        split_room_ids("a,,b"),
        vec!["a".to_string(), "".to_string(), "b".to_string()]
    );
}

#[test]
fn fresh_client_sessions_are_randomized() {
    let credentials = MatrixCredentials {
        username: "bot".to_string(),
        password: "SECRET-REDACTED".to_string(),
        homeserver: "https://matrix.example".to_string(),
    };
    let s = new_client_session(credentials.homeserver.clone(), "/data/persist_session");
    assert_eq!(s.homeserver, "https://matrix.example");
    assert!(s.db_path.starts_with("/data/persist_session/"));
    assert_eq!(s.db_path.len(), "/data/persist_session".len() + 8);
    assert!(s.db_path["/data/persist_session/".len()..]
        .chars()
        .all(|c| c.is_ascii_alphanumeric()));
    assert_eq!(s.passphrase.len(), 32);
    assert!(s.passphrase.chars().all(|c| c.is_ascii_alphanumeric()));
    // two draws almost surely differ; equal 32-character draws would mean
    // the randomness is not wired through at all
    let s2 = new_client_session("https://matrix.example".to_string(), "/data/persist_session");
    assert_ne!(s.passphrase, s2.passphrase);
}

#[test]
fn the_weekly_gap_counts_down_to_the_next_firing() {
    // 2024-06-17 is a Monday; the target is Sunday (6) at 09:00
    let monday_ten = Timestamp {
        date: Date { year: 2024, month: 6, day: 17 },
        hour: 10,
        minute: 0,
        second: 0,
    };
    assert_eq!(seconds_until_weekly(&monday_ten, 6, 9), 6 * 86400 - 3600);
    // on Sunday before nine, the gap runs to nine o'clock today
    let sunday_eight = Timestamp {
        date: Date { year: 2024, month: 6, day: 23 },
        hour: 8,
        minute: 0,
        second: 0,
    };
    assert_eq!(seconds_until_weekly(&sunday_eight, 6, 9), 3600);
    // on Sunday past nine, the moment has passed: the gap rolls over
    // to next Sunday at nine
    let sunday_ten = Timestamp {
        date: Date { year: 2024, month: 6, day: 23 },
        hour: 10,
        minute: 0,
        second: 0,
    };
    assert_eq!(seconds_until_weekly(&sunday_ten, 6, 9), 7 * 86400 - 3600);
}
