use pipe_game::config::Config;
use pipe_game::engine::{App, Subscriber};
use pipe_game::events::{LogEntry, LogMessage};
use pipe_game::pipe::{Pipe, PipeDirection};
use pipe_game::runner::{RaceOutcome, RunnerAction};
use pipe_game::user::UserToken;

fn base_config() -> Config {
    Config {
        reverse_cost: 0,
        double_cost: 5,
        double_uses: 1,
        slow_cost: 0,
        slow_uses: 1,
        shuffle_cost: 0,
        min_cost: 0,
        min_uses: 1,
        pipe_count: 1,
        min_value: 100,
        max_value: 200,
        min_delay_ms: 0,
        max_delay_ms: 0,
        pipe_value_delay_ms: 0,
        time_to_run_ms: None,
    }
}

fn one_pipe(value: i64) -> Vec<Pipe> {
    vec![Pipe {
        value,
        base_delay_ms: 0,
        direction: PipeDirection::Up,
        slow_uses: 0,
        double_uses: 0,
        min_uses: 0,
    }]
}

fn tok(s: &str) -> UserToken {
    UserToken(s.to_string())
}

fn user_of(msg: &LogMessage<UserToken>) -> Option<&str> {
    match msg {
        LogMessage::CollectStart { user, .. } => Some(user.0.as_str()),
        LogMessage::CollectEnd { user } => Some(user.0.as_str()),
        LogMessage::UpdateUser { user, .. } => Some(user.0.as_str()),
        LogMessage::UpdatePipe { .. } => None,
    }
}

#[test]
fn initial_history_lists_roster_then_pipes() {
    let cfg = base_config();
    let app = App::init_with_pipes(cfg, vec![tok("alice"), tok("bob")], one_pipe(150));
    let mut app = app;
    let h = app.register_logs();
    let replay = app.poll_logs(h);
    assert_eq!(replay.len(), 3);
    assert_eq!(replay[0].time_ms, 0);
    match &replay[0].msg {
        LogMessage::UpdateUser { user, state } => {
            assert_eq!(user.0, "alice");
            assert_eq!(state.score, 0);
        }
        _ => panic!("expected a player update first"),
    }
    match &replay[1].msg {
        LogMessage::UpdateUser { user, .. } => assert_eq!(user.0, "bob"),
        _ => panic!("expected the second player update"),
    }
    match &replay[2].msg {
        LogMessage::UpdatePipe { id, state } => {
            assert_eq!(*id, 1);
            assert_eq!(state.value, 150);
        }
        _ => panic!("expected the pipe update last"),
    }
}

#[test]
fn collect_appends_events_in_order() {
    let cfg = base_config();
    let mut app = App::init_with_pipes(cfg, vec![], one_pipe(150));
    let t = tok("p");
    let h = app.register_logs();
    app.poll_logs(h);
    app.collect(&t, 1, 7, 9).unwrap();
    let tail = app.poll_logs(h);
    assert_eq!(tail.len(), 5);
    assert!(matches!(tail[0].msg, LogMessage::UpdatePipe { id: 1, .. }));
    assert_eq!(tail[0].time_ms, 7);
    match &tail[1].msg {
        LogMessage::CollectStart { user, pipe_id, delay_ms } => {
            assert_eq!(user.0, "p");
            assert_eq!(*pipe_id, 1);
            assert_eq!(*delay_ms, 0);
        }
        _ => panic!("expected the collection start"),
    }
    assert_eq!(user_of(&tail[2].msg), Some("p"));
    assert!(matches!(tail[2].msg, LogMessage::CollectEnd { .. }));
    assert_eq!(tail[2].time_ms, 9);
    match &tail[3].msg {
        LogMessage::UpdatePipe { id, state } => {
            assert_eq!(*id, 1);
            assert_eq!(state.value, 151);
        }
        _ => panic!("expected the pipe update"),
    }
    match &tail[4].msg {
        LogMessage::UpdateUser { user, state } => {
            assert_eq!(user.0, "p");
            assert_eq!(state.score, 150);
        }
        _ => panic!("expected the player update"),
    }
}

#[test]
fn replay_and_tail_cover_history_exactly_once() {
    let cfg = base_config();
    let mut app = App::init_with_pipes(cfg, vec![tok("alice")], one_pipe(150));
    let alice = tok("alice");
    app.collect(&alice, 1, 1, 2).unwrap();
    let h = app.register_logs();
    let replay = app.poll_logs(h);
    assert_eq!(replay.len(), 7, "replay starts with the full history");
    app.collect(&alice, 1, 3, 4).unwrap();
    let tail = app.poll_logs(h);
    assert_eq!(tail.len(), 5);
    assert!(app.poll_logs(h).is_empty(), "nothing is delivered twice");
    app.collect(&alice, 1, 5, 6).unwrap();
    let tail2 = app.poll_logs(h);
    assert_eq!(tail2.len(), 5);
    assert_eq!(replay.len() + tail.len() + tail2.len(), 17);
}

#[test]
fn two_subscribers_see_the_same_events() {
    let cfg = base_config();
    let mut app = App::init_with_pipes(cfg, vec![], one_pipe(150));
    let t = tok("p");
    let h1 = app.register_logs();
    app.collect(&t, 1, 0, 0).unwrap();
    let h2 = app.register_logs();
    let d1 = app.poll_logs(h1);
    let d2 = app.poll_logs(h2);
    assert_eq!(d1.len(), 6, "the first subscriber replays the opening event too");
    assert_eq!(d2.len(), 6, "a late subscriber still replays the full history");
    for (a, b) in d1.iter().zip(d2.iter()) {
        assert_eq!(a.time_ms, b.time_ms);
        assert_eq!(user_of(&a.msg), user_of(&b.msg));
    }
}

#[test]
fn unregister_stops_delivery() {
    let cfg = base_config();
    let mut app = App::init_with_pipes(cfg, vec![], one_pipe(150));
    let t = tok("p");
    let h = app.register_logs();
    app.poll_logs(h);
    app.unregister_logs(h);
    app.unregister_logs(h);
    app.collect(&t, 1, 0, 0).unwrap();
    assert!(app.poll_logs(h).is_empty());
    let fresh = app.register_logs();
    assert!(!app.poll_logs(fresh).is_empty());
}

#[test]
fn map_user_preserves_payload() {
    let msg: LogMessage<UserToken> = LogMessage::CollectStart {
        user: tok("alice"),
        pipe_id: 3,
        delay_ms: 40,
    };
    let mapped: LogMessage<i64> = msg.map_user(|u: UserToken| u.0.len() as i64);
    match mapped {
        LogMessage::CollectStart { user, pipe_id, delay_ms } => {
            assert_eq!(user, 5);
            assert_eq!(pipe_id, 3);
            assert_eq!(delay_ms, 40);
        }
        _ => panic!("the variant must be preserved"),
    }
    let entry = LogEntry {
        time_ms: 11,
        msg: LogMessage::CollectEnd { user: tok("bob") },
    };
    let mapped_entry: LogEntry<String> = entry.map_user(|u: UserToken| u.0);
    assert_eq!(mapped_entry.time_ms, 11);
    match mapped_entry.msg {
        LogMessage::CollectEnd { user } => assert_eq!(user, "bob"),
        _ => panic!("the variant must be preserved"),
    }
}

#[test]
fn subscriber_state_is_plain() {
    let s = Subscriber { active: true, cursor: 4 };
    let copy = s;
    assert_eq!(copy, s);
}

#[test]
fn runner_decisions() {
    assert_eq!(
        RaceOutcome::TransportStopped.next_action(),
        RunnerAction::ReportEarlyStop
    );
    assert_eq!(
        RaceOutcome::DeadlineElapsed.next_action(),
        RunnerAction::StopGracefully
    );
}
