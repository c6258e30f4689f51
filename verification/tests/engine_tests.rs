use pipe_game::config::Config;
use pipe_game::engine::{App, Error};
use pipe_game::pipe::{Modifier, Pipe, PipeDirection};
use pipe_game::user::UserToken;

fn base_config() -> Config {
    Config {
        reverse_cost: 0,
        double_cost: 5,
        double_uses: 1,
        slow_cost: 0,
        slow_uses: 1,
        shuffle_cost: 0,
        min_cost: 0,
        min_uses: 1,
        pipe_count: 1,
        min_value: 100,
        max_value: 200,
        min_delay_ms: 0,
        max_delay_ms: 0,
        pipe_value_delay_ms: 0,
        time_to_run_ms: None,
    }
}

fn pipe(value: i64, delay: u64, direction: PipeDirection) -> Pipe {
    Pipe {
        value,
        base_delay_ms: delay,
        direction,
        slow_uses: 0,
        double_uses: 0,
        min_uses: 0,
    }
}

fn tok(s: &str) -> UserToken {
    UserToken(s.to_string())
}

#[test]
fn wrap_at_max_bound() {
    let cfg = base_config();
    let mut app = App::init_with_pipes(cfg, vec![], vec![pipe(199, 0, PipeDirection::Up)]);
    let t = tok("p");
    let first = app.collect(&t, 1, 0, 0).unwrap();
    assert_eq!(first.value, 199);
    assert_eq!(app.pipe_state(1).unwrap().value, 200);
    let second = app.collect(&t, 1, 0, 0).unwrap();
    assert_eq!(second.value, 200);
    assert_eq!(app.pipe_state(1).unwrap().value, 100);
}

#[test]
fn wrap_at_min_bound() {
    let cfg = base_config();
    let mut app = App::init_with_pipes(cfg, vec![], vec![pipe(100, 0, PipeDirection::Down)]);
    let t = tok("p");
    let first = app.collect(&t, 1, 0, 0).unwrap();
    assert_eq!(first.value, 100);
    assert_eq!(app.pipe_state(1).unwrap().value, 200);
}

#[test]
fn double_modifier_scenario() {
    let mut cfg = base_config();
    cfg.pipe_count = 2;
    cfg.min_value = 10;
    cfg.max_value = 200;
    let pipes = vec![
        pipe(10, 0, PipeDirection::Up),
        pipe(50, 0, PipeDirection::Up),
    ];
    let mut app = App::init_with_pipes(cfg, vec![], pipes);
    let t = tok("p");
    let earned = app.collect(&t, 1, 0, 0).unwrap();
    assert_eq!(earned.value, 10);
    assert_eq!(app.results()[0].1, 10);
    app.apply_modifier(&t, 2, Modifier::Double, 0).unwrap();
    assert_eq!(app.results()[0].1, 5);
    assert_eq!(app.pipe_state(2).unwrap().double_uses, 1);
    let doubled = app.collect(&t, 2, 0, 0).unwrap();
    assert_eq!(doubled.value, 100);
    assert_eq!(app.pipe_state(2).unwrap().double_uses, 0);
    assert_eq!(app.results()[0].1, 105);
}

#[test]
fn closed_roster_rejects_unknown_token() {
    let cfg = base_config();
    let mut app = App::init_with_pipes(
        cfg,
        vec![tok("alice")],
        vec![pipe(150, 0, PipeDirection::Up)],
    );
    let bob = tok("bob");
    assert_eq!(app.collect(&bob, 1, 0, 0), Err(Error::UserNotFound));
    let alice = tok("alice");
    assert!(app.collect(&alice, 1, 0, 0).is_ok());
}

#[test]
fn open_roster_creates_unseen_player() {
    let cfg = base_config();
    let mut app = App::init_with_pipes(cfg, vec![], vec![pipe(150, 0, PipeDirection::Up)]);
    let t = tok("newcomer");
    assert!(app.collect(&t, 1, 0, 0).is_ok());
    let results = app.results();
    assert_eq!(results.len(), 1);
    assert_eq!(results[0].0, "newcomer");
    assert_eq!(results[0].1, 150);
}

#[test]
fn second_operation_while_busy_is_rejected() {
    let cfg = base_config();
    let mut app = App::init_with_pipes(cfg, vec![], vec![pipe(150, 0, PipeDirection::Up)]);
    let t = tok("p");
    let (idx, _delay) = app.collect_begin(&t, 1, 0).unwrap();
    assert_eq!(app.collect(&t, 1, 0, 0), Err(Error::UserBusy));
    assert_eq!(app.pipe_value(&t, 1), Err(Error::UserBusy));
    assert_eq!(
        app.apply_modifier(&t, 1, Modifier::Reverse, 0),
        Err(Error::UserBusy)
    );
    let other = tok("q");
    assert!(app.pipe_value(&other, 1).is_ok());
    let score = app.collect_finish(idx, &t, 1, 0);
    assert_eq!(score, 150);
    assert!(app.pipe_value(&t, 1).is_ok());
}

#[test]
fn stacking_modifier_lifecycle() {
    let mut cfg = base_config();
    cfg.min_delay_ms = 4;
    cfg.max_delay_ms = 4;
    let mut app = App::init_with_pipes(cfg, vec![], vec![pipe(150, 4, PipeDirection::Up)]);
    let t = tok("p");
    app.apply_modifier(&t, 1, Modifier::Slow, 0).unwrap();
    assert_eq!(app.pipe_state(1).unwrap().slow_uses, 1);
    assert_eq!(
        app.apply_modifier(&t, 1, Modifier::Slow, 0),
        Err(Error::ModifierAlreadyApplied)
    );
    let (idx, delay) = app.collect_begin(&t, 1, 0).unwrap();
    assert_eq!(delay, 8, "an active Slow doubles the collection delay");
    assert_eq!(app.pipe_state(1).unwrap().slow_uses, 0);
    app.collect_finish(idx, &t, 1, 0);
    app.apply_modifier(&t, 1, Modifier::Slow, 0).unwrap();
    assert_eq!(app.pipe_state(1).unwrap().slow_uses, 1);
}

#[test]
fn insufficient_score_changes_nothing() {
    let cfg = base_config();
    let mut app = App::init_with_pipes(
        cfg,
        vec![tok("alice")],
        vec![pipe(150, 0, PipeDirection::Up)],
    );
    let t = tok("alice");
    let before = app.pipe_state(1).unwrap();
    let h = app.register_logs();
    let replay = app.poll_logs(h);
    assert_eq!(replay.len(), 2);
    assert_eq!(
        app.apply_modifier(&t, 1, Modifier::Double, 0),
        Err(Error::NotEnoughScore)
    );
    assert_eq!(app.results(), vec![("alice".to_string(), 0)]);
    assert_eq!(app.pipe_state(1).unwrap(), before);
    assert!(app.poll_logs(h).is_empty(), "a failed attempt logs nothing");
}

#[test]
fn exact_debit_on_success() {
    let mut cfg = base_config();
    cfg.min_value = 10;
    cfg.double_cost = 7;
    let mut app = App::init_with_pipes(cfg, vec![], vec![pipe(30, 0, PipeDirection::Up)]);
    let t = tok("p");
    app.collect(&t, 1, 0, 0).unwrap();
    assert_eq!(app.results()[0].1, 30);
    app.apply_modifier(&t, 1, Modifier::Double, 0).unwrap();
    assert_eq!(app.results()[0].1, 23);
}

#[test]
fn min_modifier_forces_floor() {
    let mut cfg = base_config();
    cfg.min_value = 10;
    let mut app = App::init_with_pipes(cfg, vec![], vec![pipe(50, 0, PipeDirection::Up)]);
    let t = tok("p");
    app.apply_modifier(&t, 1, Modifier::Min, 0).unwrap();
    assert_eq!(app.pipe_state(1).unwrap().min_uses, 1);
    let collected = app.collect(&t, 1, 0, 0).unwrap();
    assert_eq!(collected.value, 10, "Min forces the award to the floor");
    assert_eq!(app.pipe_state(1).unwrap().min_uses, 0);
}

#[test]
fn double_then_min_forces_floor() {
    let mut cfg = base_config();
    cfg.min_value = 10;
    let mut app = App::init_with_pipes(cfg, vec![], vec![pipe(50, 0, PipeDirection::Up)]);
    let t = tok("p");
    app.collect(&t, 1, 0, 0).unwrap();
    app.apply_modifier(&t, 1, Modifier::Double, 0).unwrap();
    app.apply_modifier(&t, 1, Modifier::Min, 0).unwrap();
    let collected = app.collect(&t, 1, 0, 0).unwrap();
    assert_eq!(collected.value, 10, "Min is evaluated after Double");
    assert_eq!(app.pipe_state(1).unwrap().double_uses, 0);
    assert_eq!(app.pipe_state(1).unwrap().min_uses, 0);
}

#[test]
fn reverse_flips_direction() {
    let cfg = base_config();
    let mut app = App::init_with_pipes(cfg, vec![], vec![pipe(150, 0, PipeDirection::Up)]);
    let t = tok("p");
    app.apply_modifier(&t, 1, Modifier::Reverse, 0).unwrap();
    assert_eq!(app.pipe_state(1).unwrap().direction, PipeDirection::Down);
    app.collect(&t, 1, 0, 0).unwrap();
    assert_eq!(app.pipe_state(1).unwrap().value, 149);
}

#[test]
fn shuffle_rerolls_delay_inside_bounds() {
    let mut cfg = base_config();
    cfg.min_delay_ms = 70;
    cfg.max_delay_ms = 70;
    let mut app = App::init_with_pipes(cfg, vec![], vec![pipe(150, 70, PipeDirection::Up)]);
    let t = tok("p");
    app.apply_modifier(&t, 1, Modifier::Shuffle, 0).unwrap();
    assert_eq!(app.pipe_state(1).unwrap().base_delay_ms, 70);
    assert_eq!(app.pipe_state(1).unwrap().slow_uses, 0);
}

#[test]
fn pipe_not_found() {
    let cfg = base_config();
    let mut app = App::init_with_pipes(cfg, vec![], vec![pipe(150, 0, PipeDirection::Up)]);
    let t = tok("p");
    assert_eq!(app.collect(&t, 0, 0, 0), Err(Error::PipeNotFound));
    assert_eq!(app.collect(&t, 2, 0, 0), Err(Error::PipeNotFound));
    assert_eq!(app.pipe_value(&t, 9), Err(Error::PipeNotFound));
    assert_eq!(
        app.apply_modifier(&t, 2, Modifier::Reverse, 0),
        Err(Error::PipeNotFound)
    );
    assert!(app.pipe_state(2).is_err());
}

#[test]
fn pipe_value_reads_without_mutation() {
    let mut cfg = base_config();
    cfg.pipe_value_delay_ms = 25;
    let mut app = App::init_with_pipes(cfg, vec![], vec![pipe(163, 0, PipeDirection::Up)]);
    let t = tok("p");
    let (idx, delay) = app.pipe_value_begin(&t, 1).unwrap();
    assert_eq!(delay, 25);
    let value = app.pipe_value_finish(idx, 1);
    assert_eq!(value, 163);
    assert_eq!(app.pipe_state(1).unwrap().value, 163);
    let resp = app.pipe_value(&t, 1).unwrap();
    assert_eq!(resp.value, 163);
    assert_eq!(app.results()[0].1, 0, "inspection earns nothing");
}

#[test]
fn awarded_value_is_read_after_wait() {
    let cfg = base_config();
    let mut app = App::init_with_pipes(cfg, vec![], vec![pipe(150, 0, PipeDirection::Up)]);
    let racer = tok("racer");
    let other = tok("other");
    let (idx, _delay) = app.collect_begin(&racer, 1, 0).unwrap();
    // While the racer waits, another player commits a whole collection on
    // the same pipe and advances its value.
    app.collect(&other, 1, 0, 0).unwrap();
    let awarded = app.collect_finish(idx, &racer, 1, 0);
    assert_eq!(awarded, 151, "the award reflects the live value, not the value at request time");
}

#[test]
fn init_draws_pipes_inside_bounds() {
    let mut cfg = base_config();
    cfg.pipe_count = 8;
    cfg.min_value = 150;
    cfg.max_value = 150;
    cfg.min_delay_ms = 70;
    cfg.max_delay_ms = 70;
    let app = App::init(cfg, vec![]);
    for id in 1..=8usize {
        let p = app.pipe_state(id).unwrap();
        assert_eq!(p.value, 150);
        assert_eq!(p.base_delay_ms, 70);
        assert_eq!(p.slow_uses, 0);
        assert_eq!(p.double_uses, 0);
        assert_eq!(p.min_uses, 0);
        assert!(p.direction == PipeDirection::Up || p.direction == PipeDirection::Down);
    }
}

#[test]
fn init_draws_ranged_values_inside_bounds() {
    let mut cfg = base_config();
    cfg.pipe_count = 16;
    cfg.min_delay_ms = 10;
    cfg.max_delay_ms = 20;
    let app = App::init(cfg, vec![]);
    for id in 1..=16usize {
        let p = app.pipe_state(id).unwrap();
        assert!((100..=200).contains(&p.value));
        assert!((10..=20).contains(&p.base_delay_ms));
    }
}

#[test]
fn results_keys_sorted_for_determinism() {
    let mut cfg = base_config();
    cfg.min_value = 10;
    cfg.max_value = 20;
    let mut app = App::init_with_pipes(
        cfg,
        vec![tok("carol"), tok("bob"), tok("alice")],
        vec![pipe(15, 0, PipeDirection::Up)],
    );
    let bob = tok("bob");
    app.collect(&bob, 1, 0, 0).unwrap();
    assert_eq!(
        app.results(),
        vec![
            ("alice".to_string(), 0),
            ("bob".to_string(), 15),
            ("carol".to_string(), 0),
        ]
    );
}

#[test]
fn results_sort_late_enrolled_players() {
    let cfg = base_config();
    let mut app = App::init_with_pipes(cfg, vec![], vec![pipe(150, 0, PipeDirection::Up)]);
    app.collect(&tok("zoe"), 1, 0, 0).unwrap();
    app.collect(&tok("amy"), 1, 0, 0).unwrap();
    let results = app.results();
    assert_eq!(results[0].0, "amy");
    assert_eq!(results[0].1, 151);
    assert_eq!(results[1].0, "zoe");
    assert_eq!(results[1].1, 150);
}

#[test]
fn modifier_costs_match_config() {
    let mut cfg = base_config();
    cfg.slow_cost = 1;
    cfg.double_cost = 2;
    cfg.min_cost = 3;
    cfg.shuffle_cost = 4;
    cfg.reverse_cost = 5;
    assert_eq!(cfg.modifier_cost(Modifier::Slow), 1);
    assert_eq!(cfg.modifier_cost(Modifier::Double), 2);
    assert_eq!(cfg.modifier_cost(Modifier::Min), 3);
    assert_eq!(cfg.modifier_cost(Modifier::Shuffle), 4);
    assert_eq!(cfg.modifier_cost(Modifier::Reverse), 5);
}

#[test]
fn use_modifier_counts_down_and_removes() {
    let mut p = pipe(150, 0, PipeDirection::Up);
    p.double_uses = 2;
    assert!(p.use_modifier(Modifier::Double));
    assert_eq!(p.double_uses, 1);
    assert!(p.use_modifier(Modifier::Double));
    assert_eq!(p.double_uses, 0);
    assert!(!p.use_modifier(Modifier::Double));
    assert!(!p.use_modifier(Modifier::Shuffle));
    assert!(!p.use_modifier(Modifier::Reverse));
    assert!(!p.use_modifier(Modifier::Slow));
}

#[test]
fn direction_inverse() {
    assert_eq!(PipeDirection::Up.inverse(), PipeDirection::Down);
    assert_eq!(PipeDirection::Down.inverse(), PipeDirection::Up);
}

#[test]
fn error_messages() {
    assert_eq!(Error::UserNotFound.message(), "User not found");
    assert_eq!(
        Error::UserBusy.message(),
        "User is already processing another request"
    );
    assert_eq!(Error::PipeNotFound.message(), "Pipe not found");
    assert_eq!(Error::NotEnoughScore.message(), "Not enough score");
    assert_eq!(
        Error::ModifierAlreadyApplied.message(),
        "This modifier is already applied to the pipe"
    );
}
