//! The game-state engine: players, pipes, the event log, and the
//! player-visible operations with their locking, modifier and scoring rules.
//!
//! Every operation is an atomic step on [`App`].  An operation that
//! suspends (a collection or an inspection) is split into a begin step and
//! a finish step; the caller waits in between, and the player's busy flag
//! set by the begin step is what rejects a second operation for the same
//! token while the first is in flight.

use vstd::prelude::*;
use vstd::pervasive::VecAdditionalExecFns;
use crate::config::{Config, Score};
use crate::events::{LogEntry, LogMessage};
use crate::order::{lemma_lex_le_total, lemma_lex_le_trans, lex_le, str_le};
use crate::pipe::{spec_award, spec_collect_pipe, Modifier, Pipe, PipeDirection};
use crate::user::{User, UserToken};

verus! {

/// Why an operation was refused.  All errors are non-fatal and returned to
/// the caller of the specific operation.
#[derive(Debug, Copy, Clone, PartialEq, Eq, Structural)]
pub enum Error {
    /// Closed roster, and the token was never registered.
    UserNotFound,
    /// The player already has an operation in flight.
    UserBusy,
    /// The pipe id is outside the configured range.
    PipeNotFound,
    /// The modifier's cost exceeds the player's current score.
    NotEnoughScore,
    /// A stacking modifier kind is already active on the target pipe.
    ModifierAlreadyApplied,
}

impl Error {
    /// A human-readable description of the error.
    pub fn message(&self) -> (r: &'static str)
        ensures
            *self == Error::UserNotFound ==> r@ == "User not found"@,
            *self == Error::UserBusy ==> r@ == "User is already processing another request"@,
            *self == Error::PipeNotFound ==> r@ == "Pipe not found"@,
            *self == Error::NotEnoughScore ==> r@ == "Not enough score"@,
            *self == Error::ModifierAlreadyApplied ==> r@
                == "This modifier is already applied to the pipe"@,
    {
        match self {
            Error::UserNotFound => "User not found",
            Error::UserBusy => "User is already processing another request",
            Error::PipeNotFound => "Pipe not found",
            Error::NotEnoughScore => "Not enough score",
            Error::ModifierAlreadyApplied => "This modifier is already applied to the pipe",
        }
    }
}

/// One roster entry: a player, their token, and whether an operation for
/// that token is currently in flight.
#[derive(Debug)]
pub struct PlayerSlot {
    pub token: UserToken,
    pub user: User,
    pub busy: bool,
}

/// One log observer: a cursor into the history.  Everything before the
/// cursor has been delivered; polling delivers the rest and advances it.
/// An inactive observer receives nothing more.
#[derive(Debug, Copy, Clone, PartialEq, Eq, Structural)]
pub struct Subscriber {
    pub active: bool,
    pub cursor: usize,
}

/// The mathematical state of the engine: what [`App`] looks like in
/// contracts.
#[verifier::ext_equal]
pub ghost struct AppView {
    pub config: Config,
    pub allow_unknown_users: bool,
    pub users: Seq<PlayerSlot>,
    pub pipes: Seq<Pipe>,
    pub history: Seq<LogEntry<UserToken>>,
    pub subscribers: Seq<Subscriber>,
}

/// What an inspection returns: the pipe's current value.
#[derive(Debug, Copy, Clone, PartialEq, Eq, Structural)]
pub struct PipeValueResponse {
    pub value: Score,
}

/// What a collection returns: the score taken from the pipe.
#[derive(Debug, Copy, Clone, PartialEq, Eq, Structural)]
pub struct CollectResponse {
    pub value: Score,
}

/// What a successful modifier application returns.
#[derive(Debug, Copy, Clone, PartialEq, Eq, Structural)]
pub struct ApplyModifierResponse {}

/// The engine state.
///
/// Operations that append events take the elapsed match time `now_ms` as
/// an argument: the clock lives with the caller, who is expected to read
/// a monotonic clock started at match initialization, so that successive
/// calls pass non-decreasing times and the history's timestamps appear in
/// append order.  The engine records whatever it is handed; the event
/// *order* it guarantees is append order, whatever the timestamps say.
pub struct App {
    pub config: Config,
    pub allow_unknown_users: bool,
    pub users: Vec<PlayerSlot>,
    pub pipes: Vec<Pipe>,
    pub history: Vec<LogEntry<UserToken>>,
    pub subscribers: Vec<Subscriber>,
}

impl View for App {
    type V = AppView;

    open spec fn view(&self) -> AppView {
        AppView {
            config: self.config,
            allow_unknown_users: self.allow_unknown_users,
            users: self.users@,
            pipes: self.pipes@,
            history: self.history@,
            subscribers: self.subscribers@,
        }
    }
}

/// The index of the first roster entry holding token `t`, or `-1` when no
/// entry holds it.
pub open spec fn spec_find_user(users: Seq<PlayerSlot>, t: Seq<char>) -> int
    decreases users.len(),
{
    if users.len() == 0 {
        -1
    } else if users[0].token@ == t {
        0
    } else {
        let r = spec_find_user(users.drop_first(), t);
        if r < 0 {
            -1
        } else {
            r + 1
        }
    }
}

/// What `spec_find_user` returns: a valid index of the first entry holding
/// the token, or `-1` exactly when no entry holds it.
pub proof fn lemma_find_user(users: Seq<PlayerSlot>, t: Seq<char>)
    ensures
        spec_find_user(users, t) == -1 || 0 <= spec_find_user(users, t) < users.len(),
        spec_find_user(users, t) >= 0 ==> users[spec_find_user(users, t)].token@ == t,
        spec_find_user(users, t) == -1 ==> forall|i: int|
            0 <= i < users.len() ==> users[i].token@ != t,
        forall|i: int| 0 <= i < spec_find_user(users, t) ==> users[i].token@ != t,
    decreases users.len(),
{
    if users.len() == 0 {
    } else if users[0].token@ == t {
    } else {
        lemma_find_user(users.drop_first(), t);
        let fd = spec_find_user(users.drop_first(), t);
        let f = spec_find_user(users, t);
        assert forall|i: int| 0 <= i < users.len() - 1 implies #[trigger] users.drop_first()[i]
            == users[i + 1] by {}
        if fd == -1 {
            assert forall|i: int| 0 <= i < users.len() implies users[i].token@ != t by {
                if i >= 1 {
                    assert(users.drop_first()[i - 1] == users[i]);
                }
            }
        } else {
            assert(users[f] == users.drop_first()[fd]);
            assert forall|i: int| 0 <= i < f implies users[i].token@ != t by {
                if i >= 1 {
                    assert(users.drop_first()[i - 1] == users[i]);
                }
            }
        }
    }
}

/// Two rosters with the same tokens in the same places are searched alike.
pub proof fn lemma_find_user_same_tokens(u1: Seq<PlayerSlot>, u2: Seq<PlayerSlot>, t: Seq<char>)
    requires
        u1.len() == u2.len(),
        forall|i: int| 0 <= i < u1.len() ==> u1[i].token@ == #[trigger] u2[i].token@,
    ensures
        spec_find_user(u1, t) == spec_find_user(u2, t),
    decreases u1.len(),
{
    if u1.len() == 0 {
    } else {
        assert(u1[0].token@ == u2[0].token@);
        assert(forall|i: int|
            0 <= i < u1.len() - 1 ==> #[trigger] u1.drop_first()[i].token@ == u1[i + 1].token@);
        assert(forall|i: int|
            0 <= i < u2.len() - 1 ==> #[trigger] u2.drop_first()[i].token@ == u2[i + 1].token@);
        lemma_find_user_same_tokens(u1.drop_first(), u2.drop_first(), t);
    }
}

/// Appending a roster entry does not change where existing tokens are
/// found, and a fresh token is found at the appended place.
pub proof fn lemma_find_user_push(users: Seq<PlayerSlot>, slot: PlayerSlot, t: Seq<char>)
    ensures
        spec_find_user(users, t) >= 0 ==> spec_find_user(users.push(slot), t) == spec_find_user(
            users,
            t,
        ),
        spec_find_user(users, t) == -1 && slot.token@ == t ==> spec_find_user(
            users.push(slot),
            t,
        ) == users.len(),
        spec_find_user(users, t) == -1 && slot.token@ != t ==> spec_find_user(
            users.push(slot),
            t,
        ) == -1,
    decreases users.len(),
{
    if users.len() == 0 {
        assert(users.push(slot)[0] == slot);
        assert(users.push(slot).len() == 1);
        if slot.token@ != t {
            assert(users.push(slot).drop_first() =~= Seq::<PlayerSlot>::empty());
            assert(spec_find_user(users.push(slot).drop_first(), t) == -1);
            assert(spec_find_user(users.push(slot), t) == -1);
        }
    } else {
        assert(users.push(slot)[0] == users[0]);
        if users[0].token@ == t {
        } else {
            assert(users.push(slot).drop_first() =~= users.drop_first().push(slot));
            lemma_find_user_push(users.drop_first(), slot, t);
        }
    }
}

impl AppView {
    /// The roster holds no token twice.
    pub open spec fn tokens_unique(self) -> bool {
        forall|i: int, j: int|
            0 <= i < j < self.users.len() ==> #[trigger] self.users[i].token@ != #[trigger] self.users[j].token@
    }

    /// Well-formedness, preserved by every operation: the configuration is
    /// sane, the pipe set matches it and every pipe is inside its bounds,
    /// tokens are unique, and every observer cursor is inside the history.
    pub open spec fn wf(self) -> bool {
        &&& self.config.wf()
        &&& self.pipes.len() == self.config.pipe_count
        &&& forall|i: int| 0 <= i < self.pipes.len() ==> (#[trigger] self.pipes[i]).wf(self.config)
        &&& self.tokens_unique()
        &&& self.users.len() <= usize::MAX
        &&& forall|i: int|
            0 <= i < self.subscribers.len() ==> (#[trigger] self.subscribers[i]).cursor
                <= self.history.len()
    }

    /// Whether an operation for token `t` is in flight.
    pub open spec fn user_busy(self, t: Seq<char>) -> bool {
        let f = spec_find_user(self.users, t);
        f >= 0 && self.users[f].busy
    }

    /// Whether a pipe id is inside the configured range.
    pub open spec fn pipe_id_valid(self, pipe_id: usize) -> bool {
        1 <= pipe_id <= self.config.pipe_count
    }

    /// The pipe a valid id names.
    pub open spec fn pipe_at(self, pipe_id: usize) -> Pipe {
        self.pipes[pipe_id - 1]
    }

    /// The roster with the busy flag at `i` replaced.
    pub open spec fn set_busy(self, i: int, b: bool) -> AppView {
        AppView {
            users: self.users.update(
                i,
                PlayerSlot { busy: b, ..self.users[i] },
            ),
            ..self
        }
    }

    /// Acquiring the player's lock, non-blocking: an in-flight operation is
    /// rejected rather than queued, an unknown token is rejected on a
    /// closed roster and enrolled as a fresh busy player on an open one.
    pub open spec fn spec_try_lock(self, t: UserToken) -> (AppView, Result<usize, Error>) {
        let f = spec_find_user(self.users, t@);
        if f >= 0 {
            if self.users[f].busy {
                (self, Err(Error::UserBusy))
            } else {
                (self.set_busy(f, true), Ok(f as usize))
            }
        } else if self.allow_unknown_users {
            (
                AppView {
                    users: self.users.push(
                        PlayerSlot { token: t, user: User { score: 0 }, busy: true },
                    ),
                    ..self
                },
                Ok(self.users.len() as usize),
            )
        } else {
            (self, Err(Error::UserNotFound))
        }
    }

    /// One event appended to the history.
    pub open spec fn with_event(self, now_ms: u64, msg: LogMessage<UserToken>) -> AppView {
        AppView { history: self.history.push(LogEntry { time_ms: now_ms, msg }), ..self }
    }
}

impl App {
    /// The index of the roster entry holding `token`, if any.
    fn find_user_index(&self, token: &UserToken) -> (r: Option<usize>)
        ensures
            r == (if spec_find_user(self@.users, token@) >= 0 {
                Some(spec_find_user(self@.users, token@) as usize)
            } else {
                None::<usize>
            }),
    {
        proof {
            lemma_find_user(self@.users, token@);
        }
        let ghost f = spec_find_user(self@.users, token@);
        let mut i: usize = 0;
        while i < self.users.len()
            invariant
                i <= self.users.len(),
                f == spec_find_user(self@.users, token@),
                f == -1 || 0 <= f < self.users.len(),
                f >= 0 ==> self@.users[f].token@ == token@,
                f == -1 ==> forall|j: int| 0 <= j < self@.users.len() ==> self@.users[j].token@ != token@,
                forall|j: int| 0 <= j < f ==> self@.users[j].token@ != token@,
                forall|j: int| 0 <= j < i ==> self@.users[j].token@ != token@,
            decreases self.users.len() - i,
        {
            if self.users[i].token == *token {
                assert(f == i);
                return Some(i);
            }
            i = i + 1;
        }
        None
    }

    /// Acquire the player's lock for `token`, without blocking: fail with
    /// `UserBusy` when an operation for this token is already in flight,
    /// with `UserNotFound` when the roster is closed and the token unseen;
    /// on an open roster an unseen token enrolls a fresh player.
    fn try_lock_user(&mut self, token: &UserToken) -> (r: Result<usize, Error>)
        requires
            old(self)@.wf(),
        ensures
            final(self)@ == old(self)@.spec_try_lock(*token).0,
            r == old(self)@.spec_try_lock(*token).1,
            final(self)@.wf(),
    {
        proof {
            assert(self.users.len() == self@.users.len());
            lemma_find_user(self@.users, token@);
        }
        let ghost target = self@.spec_try_lock(*token).0;
        match self.find_user_index(token) {
            Some(i) => {
                if self.users[i].busy {
                    Err(Error::UserBusy)
                } else {
                    let slot = PlayerSlot {
                        token: self.users[i].token.clone(),
                        user: self.users[i].user,
                        busy: true,
                    };
                    self.users.set(i, slot);
                    assert(self@ =~= target);
                    Ok(i)
                }
            }
            None => {
                if self.allow_unknown_users {
                    let idx = self.users.len();
                    let slot = PlayerSlot {
                        token: token.clone(),
                        user: User { score: 0 },
                        busy: true,
                    };
                    self.users.push(slot);
                    assert(self.users.len() == self@.users.len());
                    assert(self@ =~= target);
                    Ok(idx)
                } else {
                    Err(Error::UserNotFound)
                }
            }
        }
    }

    /// Release the player's lock taken by a begin step.
    fn unlock_user(&mut self, i: usize)
        requires
            old(self)@.wf(),
            i < old(self)@.users.len(),
        ensures
            final(self)@ == old(self)@.set_busy(i as int, false),
            final(self)@.wf(),
    {
        let slot = PlayerSlot {
            token: self.users[i].token.clone(),
            user: self.users[i].user,
            busy: false,
        };
        self.users.set(i, slot);
        assert(self@ =~= old(self)@.set_busy(i as int, false));
    }

    /// Append one timestamped event to the history.
    fn log(&mut self, now_ms: u64, msg: LogMessage<UserToken>)
        requires
            old(self)@.wf(),
        ensures
            final(self)@ == old(self)@.with_event(now_ms, msg),
            final(self)@.wf(),
    {
        self.history.push(LogEntry { time_ms: now_ms, msg });
        assert(self@ =~= old(self)@.with_event(now_ms, msg));
    }

    /// Register a new log observer.  Its cursor starts at the beginning of
    /// the history, so the full replay and the live tail come from the one
    /// gap-free sequence of polls.
    pub fn register_logs(&mut self) -> (h: usize)
        requires
            old(self)@.wf(),
        ensures
            final(self)@.wf(),
            h == old(self)@.subscribers.len(),
            final(self)@ == (AppView {
                subscribers: old(self)@.subscribers.push(Subscriber { active: true, cursor: 0 }),
                ..old(self)@
            }),
    {
        let h = self.subscribers.len();
        self.subscribers.push(Subscriber { active: true, cursor: 0 });
        assert(self@ =~= (AppView {
            subscribers: old(self)@.subscribers.push(Subscriber { active: true, cursor: 0 }),
            ..old(self)@
        }));
        h
    }

    /// Deliver to observer `h` every event appended since its last poll, in
    /// append order, and advance its cursor past them.  An unregistered
    /// observer receives nothing.
    pub fn poll_logs(&mut self, h: usize) -> (events: Vec<LogEntry<UserToken>>)
        requires
            old(self)@.wf(),
            h < old(self)@.subscribers.len(),
        ensures
            final(self)@.wf(),
            old(self)@.subscribers[h as int].active ==> {
                &&& events@ == old(self)@.history.subrange(
                    old(self)@.subscribers[h as int].cursor as int,
                    old(self)@.history.len() as int,
                )
                &&& final(self)@ == (AppView {
                    subscribers: old(self)@.subscribers.update(
                        h as int,
                        Subscriber { active: true, cursor: old(self)@.history.len() as usize },
                    ),
                    ..old(self)@
                })
            },
            !old(self)@.subscribers[h as int].active ==> {
                &&& events@ == Seq::<LogEntry<UserToken>>::empty()
                &&& final(self)@ == old(self)@
            },
    {
        let sub = self.subscribers[h];
        if !sub.active {
            return Vec::new();
        }
        let mut events: Vec<LogEntry<UserToken>> = Vec::new();
        let mut i: usize = sub.cursor;
        while i < self.history.len()
            invariant
                sub.cursor <= i <= self.history.len(),
                events@ == self@.history.subrange(sub.cursor as int, i as int),
                self == old(self),
            decreases self.history.len() - i,
        {
            events.push(self.history[i].clone());
            assert(events@ =~= self@.history.subrange(sub.cursor as int, i + 1 as int));
            i = i + 1;
        }
        assert(events@ =~= self@.history.subrange(
            sub.cursor as int,
            self@.history.len() as int,
        ));
        let len = self.history.len();
        self.subscribers.set(h, Subscriber { active: true, cursor: len });
        assert(self@ =~= (AppView {
            subscribers: old(self)@.subscribers.update(
                h as int,
                Subscriber { active: true, cursor: old(self)@.history.len() as usize },
            ),
            ..old(self)@
        }));
        events
    }

    /// Remove observer `h` from delivery: later polls deliver nothing.
    /// Already-delivered events are unaffected; unregistering twice is
    /// harmless.
    pub fn unregister_logs(&mut self, h: usize)
        requires
            old(self)@.wf(),
            h < old(self)@.subscribers.len(),
        ensures
            final(self)@.wf(),
            final(self)@ == (AppView {
                subscribers: old(self)@.subscribers.update(
                    h as int,
                    Subscriber { active: false, cursor: old(self)@.subscribers[h as int].cursor },
                ),
                ..old(self)@
            }),
    {
        let cursor = self.subscribers[h].cursor;
        self.subscribers.set(h, Subscriber { active: false, cursor });
        assert(self@ =~= (AppView {
            subscribers: old(self)@.subscribers.update(
                h as int,
                Subscriber { active: false, cursor: old(self)@.subscribers[h as int].cursor },
            ),
            ..old(self)@
        }));
    }

    /// Every player's current score, keyed by token, with the keys sorted
    /// ascending for a deterministic final snapshot: one entry per player,
    /// no extras, no omissions, nothing modified.
    pub fn results(&self) -> (r: Vec<(String, Score)>)
        ensures
            r@.len() == self@.users.len(),
            results_sorted(r@),
            results_cover(self@.users, self@.users.len() as int, r@),
            results_from(self@.users, self@.users.len() as int, r@),
    {
        let ghost users = self@.users;
        let mut r: Vec<(String, Score)> = Vec::new();
        let mut i: usize = 0;
        while i < self.users.len()
            invariant
                users == self@.users,
                i <= users.len(),
                r@.len() == i,
                results_sorted(r@),
                results_cover(users, i as int, r@),
                results_from(users, i as int, r@),
            decreases self.users.len() - i,
        {
            let key = self.users[i].token.0.clone();
            let score = self.users[i].user.score;
            insert_result_entry(&mut r, key, score, Ghost(users), Ghost(i as int));
            i = i + 1;
        }
        r
    }

    /// A snapshot of the pipe a valid id names.
    pub fn pipe_state(&self, pipe_id: usize) -> (r: Result<Pipe, Error>)
        requires
            self@.wf(),
        ensures
            self@.pipe_id_valid(pipe_id) ==> r == Ok::<Pipe, Error>(self@.pipe_at(pipe_id)),
            !self@.pipe_id_valid(pipe_id) ==> r == Err::<Pipe, Error>(Error::PipeNotFound),
    {
        if 1 <= pipe_id && pipe_id <= self.config.pipe_count {
            Ok(self.pipes[pipe_id - 1])
        } else {
            Err(Error::PipeNotFound)
        }
    }
}

/// `a + b` clamped to the representable range of a score.
pub open spec fn spec_add_score(a: int, b: int) -> int {
    if a + b > i64::MAX {
        i64::MAX as int
    } else if a + b < i64::MIN {
        i64::MIN as int
    } else {
        a + b
    }
}

/// A score credit, saturating at the representable bounds.
fn add_score(a: i64, b: i64) -> (r: i64)
    ensures
        r == spec_add_score(a as int, b as int),
{
    if b >= 0 {
        if a > i64::MAX - b {
            i64::MAX
        } else {
            a + b
        }
    } else {
        if a < i64::MIN - b {
            i64::MIN
        } else {
            a + b
        }
    }
}

impl AppView {
    /// The begin step of an inspection: the player's lock is taken, the
    /// pipe id validated, and the configured inspection delay returned for
    /// the caller to wait out.
    pub open spec fn spec_pipe_value_begin(self, t: UserToken, pipe_id: usize) -> (
        AppView,
        Result<(usize, u64), Error>,
    ) {
        let s1 = self.spec_try_lock(t).0;
        match self.spec_try_lock(t).1 {
            Err(e) => (s1, Err(e)),
            Ok(idx) => {
                if !s1.pipe_id_valid(pipe_id) {
                    (s1.set_busy(idx as int, false), Err(Error::PipeNotFound))
                } else {
                    (s1, Ok((idx, self.config.pipe_value_delay_ms)))
                }
            }
        }
    }

    /// The finish step of an inspection, after the wait: the pipe's value
    /// is read live, without mutating it, and the player's lock released.
    pub open spec fn spec_pipe_value_finish(self, idx: int, pipe_id: usize) -> (AppView, Score) {
        (self.set_busy(idx, false), self.pipe_at(pipe_id).value)
    }

    /// A whole inspection, begin and finish back to back with nothing
    /// interleaved.
    pub open spec fn spec_pipe_value(self, t: UserToken, pipe_id: usize) -> (
        AppView,
        Result<PipeValueResponse, Error>,
    ) {
        let s1 = self.spec_pipe_value_begin(t, pipe_id).0;
        match self.spec_pipe_value_begin(t, pipe_id).1 {
            Err(e) => (s1, Err(e)),
            Ok((idx, delay)) => {
                let s2 = s1.spec_pipe_value_finish(idx as int, pipe_id).0;
                let v = s1.spec_pipe_value_finish(idx as int, pipe_id).1;
                (s2, Ok(PipeValueResponse { value: v }))
            }
        }
    }

    /// The begin step of a collection: the player's lock is taken, the
    /// pipe id validated, one `Slow` use consumed (doubling the wait), and
    /// the pipe update and the collection start logged.
    pub open spec fn spec_collect_begin(self, t: UserToken, pipe_id: usize, now_ms: u64) -> (
        AppView,
        Result<(usize, u64), Error>,
    ) {
        let s1 = self.spec_try_lock(t).0;
        match self.spec_try_lock(t).1 {
            Err(e) => (s1, Err(e)),
            Ok(idx) => {
                if !s1.pipe_id_valid(pipe_id) {
                    (s1.set_busy(idx as int, false), Err(Error::PipeNotFound))
                } else {
                    let p = s1.pipe_at(pipe_id);
                    let p1 = p.spec_use_modifier(Modifier::Slow).0;
                    let used = p.spec_use_modifier(Modifier::Slow).1;
                    let delay = if used {
                        (2 * p.base_delay_ms) as u64
                    } else {
                        p.base_delay_ms
                    };
                    let s2 = AppView { pipes: s1.pipes.update(pipe_id - 1, p1), ..s1 };
                    let s3 = s2.with_event(
                        now_ms,
                        LogMessage::UpdatePipe { id: pipe_id, state: p1 },
                    ).with_event(
                        now_ms,
                        LogMessage::CollectStart { user: t, pipe_id, delay_ms: delay },
                    );
                    (s3, Ok((idx, delay)))
                }
            }
        }
    }

    /// The finish step of a collection, after the wait: the end of the
    /// collection is logged, the award is computed from the pipe's live
    /// state (not the state captured before the wait), `Double` then `Min`
    /// are consumed, the score is credited, the value steps along the
    /// trend with wraparound, the pipe and player updates are logged, and
    /// the player's lock is released.
    pub open spec fn spec_collect_finish(self, idx: int, t: UserToken, pipe_id: usize, now_ms: u64)
        -> (AppView, Score) {
        let p = self.pipe_at(pipe_id);
        let award = spec_award(p, self.config);
        let p3 = spec_collect_pipe(p, self.config);
        let new_score = spec_add_score(self.users[idx].user.score as int, award) as i64;
        let s1 = self.with_event(now_ms, LogMessage::CollectEnd { user: t });
        let s2 = AppView {
            pipes: s1.pipes.update(pipe_id - 1, p3),
            users: s1.users.update(
                idx,
                PlayerSlot { user: User { score: new_score }, ..s1.users[idx] },
            ),
            ..s1
        };
        let s3 = s2.with_event(now_ms, LogMessage::UpdatePipe { id: pipe_id, state: p3 }).with_event(
            now_ms,
            LogMessage::UpdateUser { user: t, state: User { score: new_score } },
        );
        (s3.set_busy(idx, false), award as i64)
    }

    /// A whole collection, begin and finish back to back with nothing
    /// interleaved between the two steps.
    pub open spec fn spec_collect(
        self,
        t: UserToken,
        pipe_id: usize,
        now_start_ms: u64,
        now_end_ms: u64,
    ) -> (AppView, Result<CollectResponse, Error>) {
        let s1 = self.spec_collect_begin(t, pipe_id, now_start_ms).0;
        match self.spec_collect_begin(t, pipe_id, now_start_ms).1 {
            Err(e) => (s1, Err(e)),
            Ok((idx, delay)) => {
                let s2 = s1.spec_collect_finish(idx as int, t, pipe_id, now_end_ms).0;
                let v = s1.spec_collect_finish(idx as int, t, pipe_id, now_end_ms).1;
                (s2, Ok(CollectResponse { value: v }))
            }
        }
    }

    /// Applying a modifier, with the freshly rolled base delay that a
    /// `Shuffle` installs passed in: the player's lock is taken, the pipe
    /// id validated, the cost checked against the score, a still-active
    /// stacking kind rejected; then the effect is applied, the cost
    /// debited exactly, the player and pipe updates logged, and the lock
    /// released.
    pub open spec fn spec_apply_modifier(
        self,
        t: UserToken,
        pipe_id: usize,
        modifier: Modifier,
        now_ms: u64,
        rolled_delay_ms: u64,
    ) -> (AppView, Result<ApplyModifierResponse, Error>) {
        let s1 = self.spec_try_lock(t).0;
        match self.spec_try_lock(t).1 {
            Err(e) => (s1, Err(e)),
            Ok(idx) => {
                if !s1.pipe_id_valid(pipe_id) {
                    (s1.set_busy(idx as int, false), Err(Error::PipeNotFound))
                } else {
                    let cost = self.config.spec_modifier_cost(modifier);
                    if s1.users[idx as int].user.score < cost {
                        (s1.set_busy(idx as int, false), Err(Error::NotEnoughScore))
                    } else {
                        let p = s1.pipe_at(pipe_id);
                        if modifier.is_stacking() && p.spec_uses(modifier) > 0 {
                            (s1.set_busy(idx as int, false), Err(Error::ModifierAlreadyApplied))
                        } else {
                            let p1 = if modifier.is_stacking() {
                                p.spec_set_uses(modifier, self.config.spec_modifier_uses(modifier))
                            } else if modifier == Modifier::Shuffle {
                                Pipe { base_delay_ms: rolled_delay_ms, ..p }
                            } else {
                                Pipe { direction: p.direction.spec_inverse(), ..p }
                            };
                            let new_score = (s1.users[idx as int].user.score - cost) as i64;
                            let s2 = AppView {
                                users: s1.users.update(
                                    idx as int,
                                    PlayerSlot {
                                        user: User { score: new_score },
                                        ..s1.users[idx as int]
                                    },
                                ),
                                pipes: s1.pipes.update(pipe_id - 1, p1),
                                ..s1
                            };
                            let s3 = s2.with_event(
                                now_ms,
                                LogMessage::UpdateUser {
                                    user: t,
                                    state: User { score: new_score },
                                },
                            ).with_event(
                                now_ms,
                                LogMessage::UpdatePipe { id: pipe_id, state: p1 },
                            );
                            (s3.set_busy(idx as int, false), Ok(ApplyModifierResponse {  }))
                        }
                    }
                }
            }
        }
    }
}

impl App {
    /// Find out a pipe's current value: acquire the player's lock and
    /// validate the pipe id; the caller then waits out the returned
    /// inspection delay and calls [`App::pipe_value_finish`].
    pub fn pipe_value_begin(&mut self, token: &UserToken, pipe_id: usize) -> (r: Result<
        (usize, u64),
        Error,
    >)
        requires
            old(self)@.wf(),
        ensures
            final(self)@ == old(self)@.spec_pipe_value_begin(*token, pipe_id).0,
            r == old(self)@.spec_pipe_value_begin(*token, pipe_id).1,
            final(self)@.wf(),
    {
        proof {
            lemma_try_lock_ok(self@, *token);
        }
        let idx = match self.try_lock_user(token) {
            Ok(idx) => idx,
            Err(e) => {
                return Err(e);
            }
        };
        if !(1 <= pipe_id && pipe_id <= self.config.pipe_count) {
            self.unlock_user(idx);
            return Err(Error::PipeNotFound);
        }
        Ok((idx, self.config.pipe_value_delay_ms))
    }

    /// The read after the inspection wait: the pipe's value at this very
    /// moment, not at request time; releases the player's lock.
    pub fn pipe_value_finish(&mut self, user_idx: usize, pipe_id: usize) -> (v: Score)
        requires
            old(self)@.wf(),
            user_idx < old(self)@.users.len(),
            old(self)@.users[user_idx as int].busy,
            old(self)@.pipe_id_valid(pipe_id),
        ensures
            final(self)@ == old(self)@.spec_pipe_value_finish(user_idx as int, pipe_id).0,
            v == old(self)@.spec_pipe_value_finish(user_idx as int, pipe_id).1,
            final(self)@.wf(),
    {
        let v = self.pipes[pipe_id - 1].value;
        self.unlock_user(user_idx);
        v
    }

    /// A whole inspection: lock, validate, wait (here: nothing interleaves
    /// with the wait), read the live value, unlock.
    pub fn pipe_value(&mut self, token: &UserToken, pipe_id: usize) -> (r: Result<
        PipeValueResponse,
        Error,
    >)
        requires
            old(self)@.wf(),
        ensures
            final(self)@ == old(self)@.spec_pipe_value(*token, pipe_id).0,
            r == old(self)@.spec_pipe_value(*token, pipe_id).1,
            final(self)@.wf(),
    {
        proof {
            lemma_try_lock_ok(self@, *token);
        }
        let idx = match self.pipe_value_begin(token, pipe_id) {
            Ok((idx, _delay)) => idx,
            Err(e) => {
                return Err(e);
            }
        };
        let v = self.pipe_value_finish(idx, pipe_id);
        Ok(PipeValueResponse { value: v })
    }

    /// Start a collection: acquire the player's lock, validate the pipe,
    /// consume one `Slow` use (doubling the wait if one was active), and
    /// log the pipe update and the collection start.  The caller then
    /// waits out the returned delay and calls [`App::collect_finish`]; the
    /// player's lock stays held across the wait, but the pipe stays free
    /// for other players to race for.
    pub fn collect_begin(&mut self, token: &UserToken, pipe_id: usize, now_ms: u64) -> (r: Result<
        (usize, u64),
        Error,
    >)
        requires
            old(self)@.wf(),
        ensures
            final(self)@ == old(self)@.spec_collect_begin(*token, pipe_id, now_ms).0,
            r == old(self)@.spec_collect_begin(*token, pipe_id, now_ms).1,
            final(self)@.wf(),
    {
        proof {
            lemma_try_lock_ok(self@, *token);
        }
        let ghost target = self@.spec_collect_begin(*token, pipe_id, now_ms).0;
        let idx = match self.try_lock_user(token) {
            Ok(idx) => idx,
            Err(e) => {
                return Err(e);
            }
        };
        if !(1 <= pipe_id && pipe_id <= self.config.pipe_count) {
            self.unlock_user(idx);
            return Err(Error::PipeNotFound);
        }
        let pi = pipe_id - 1;
        assert(self@.pipes[pi as int].wf(self@.config));
        let mut pipe = self.pipes[pi];
        let used = pipe.use_modifier(Modifier::Slow);
        let delay = if used {
            pipe.base_delay_ms * 2
        } else {
            pipe.base_delay_ms
        };
        self.pipes.set(pi, pipe);
        self.log(now_ms, LogMessage::UpdatePipe { id: pipe_id, state: pipe });
        self.log(
            now_ms,
            LogMessage::CollectStart { user: token.clone(), pipe_id, delay_ms: delay },
        );
        assert(self@ =~= target);
        Ok((idx, delay))
    }

    /// Commit a collection after the wait: log the end of the collection,
    /// take the award from the pipe's live state (`Double` then `Min`
    /// consumed as triggered), credit the player, step the pipe's value
    /// with wraparound, log the pipe and player updates, and release the
    /// player's lock.  A collection in flight is always committed; there
    /// is no cancelling it.
    pub fn collect_finish(
        &mut self,
        user_idx: usize,
        token: &UserToken,
        pipe_id: usize,
        now_ms: u64,
    ) -> (score: Score)
        requires
            old(self)@.wf(),
            user_idx < old(self)@.users.len(),
            old(self)@.users[user_idx as int].busy,
            old(self)@.users[user_idx as int].token@ == token@,
            old(self)@.pipe_id_valid(pipe_id),
        ensures
            final(self)@ == old(self)@.spec_collect_finish(
                user_idx as int,
                *token,
                pipe_id,
                now_ms,
            ).0,
            score == old(self)@.spec_collect_finish(user_idx as int, *token, pipe_id, now_ms).1,
            final(self)@.wf(),
    {
        let ghost target = self@.spec_collect_finish(user_idx as int, *token, pipe_id, now_ms).0;
        let pi = pipe_id - 1;
        assert(self@.pipes[pi as int].wf(self@.config));
        self.log(now_ms, LogMessage::CollectEnd { user: token.clone() });
        let mut pipe = self.pipes[pi];
        let mut award = pipe.value;
        if pipe.use_modifier(Modifier::Double) {
            award = award * 2;
        }
        if pipe.use_modifier(Modifier::Min) {
            award = self.config.min_value;
        }
        let new_score = add_score(self.users[user_idx].user.score, award);
        let slot = PlayerSlot {
            token: self.users[user_idx].token.clone(),
            user: User { score: new_score },
            busy: true,
        };
        self.users.set(user_idx, slot);
        let next = match pipe.direction {
            PipeDirection::Up => pipe.value + 1,
            PipeDirection::Down => pipe.value - 1,
        };
        pipe.value = if next < self.config.min_value {
            self.config.max_value
        } else if next > self.config.max_value {
            self.config.min_value
        } else {
            next
        };
        self.pipes.set(pi, pipe);
        self.log(now_ms, LogMessage::UpdatePipe { id: pipe_id, state: pipe });
        self.log(
            now_ms,
            LogMessage::UpdateUser { user: token.clone(), state: User { score: new_score } },
        );
        self.unlock_user(user_idx);
        assert(self@ =~= target);
        award
    }

    /// A whole collection: begin, wait (here: nothing interleaves with the
    /// wait), finish.
    pub fn collect(
        &mut self,
        token: &UserToken,
        pipe_id: usize,
        now_start_ms: u64,
        now_end_ms: u64,
    ) -> (r: Result<CollectResponse, Error>)
        requires
            old(self)@.wf(),
        ensures
            final(self)@ == old(self)@.spec_collect(*token, pipe_id, now_start_ms, now_end_ms).0,
            r == old(self)@.spec_collect(*token, pipe_id, now_start_ms, now_end_ms).1,
            final(self)@.wf(),
    {
        proof {
            lemma_try_lock_ok(self@, *token);
        }
        let idx = match self.collect_begin(token, pipe_id, now_start_ms) {
            Ok((idx, _delay)) => idx,
            Err(e) => {
                return Err(e);
            }
        };
        let score = self.collect_finish(idx, token, pipe_id, now_end_ms);
        Ok(CollectResponse { value: score })
    }

    /// Apply a modifier, rolling the fresh base delay a `Shuffle` installs.
    /// Whatever delay the roll produced, it lies inside the configured
    /// bounds and the rest of the outcome is as
    /// [`App::apply_modifier_with_delay`] describes; a kind other than
    /// `Shuffle` never looks at the roll.
    pub fn apply_modifier(
        &mut self,
        token: &UserToken,
        pipe_id: usize,
        modifier: Modifier,
        now_ms: u64,
    ) -> (r: Result<ApplyModifierResponse, Error>)
        requires
            old(self)@.wf(),
        ensures
            final(self)@.wf(),
            exists|d: u64|
                {
                    &&& old(self)@.config.min_delay_ms <= d <= old(self)@.config.max_delay_ms
                    &&& #[trigger] old(self)@.spec_apply_modifier(
                        *token,
                        pipe_id,
                        modifier,
                        now_ms,
                        d,
                    ) == (final(self)@, r)
                },
            modifier != Modifier::Shuffle ==> (final(self)@, r) == old(self)@.spec_apply_modifier(
                *token,
                pipe_id,
                modifier,
                now_ms,
                0,
            ),
    {
        let rolled = self.config.random_pipe_delay();
        let r = self.apply_modifier_with_delay(token, pipe_id, modifier, now_ms, rolled);
        proof {
            let applied = old(self)@.spec_apply_modifier(*token, pipe_id, modifier, now_ms, rolled);
            assert(applied == (final(self)@, r));
            if modifier != Modifier::Shuffle {
                assert((final(self)@, r) == old(self)@.spec_apply_modifier(
                    *token,
                    pipe_id,
                    modifier,
                    now_ms,
                    0,
                ));
            }
        }
        r
    }

    /// Apply a modifier to a pipe, with the rolled base delay a `Shuffle`
    /// would install passed in by the caller: check the player's lock and
    /// the pipe id, check the cost against the score, reject a stacking
    /// kind that is still active; then install the use counter or apply
    /// the one-shot effect, debit exactly the cost, log the player and
    /// pipe updates, and release the lock.  A failed attempt changes no
    /// state beyond enrolling a fresh player on an open roster.
    pub fn apply_modifier_with_delay(
        &mut self,
        token: &UserToken,
        pipe_id: usize,
        modifier: Modifier,
        now_ms: u64,
        rolled_delay_ms: u64,
    ) -> (r: Result<ApplyModifierResponse, Error>)
        requires
            old(self)@.wf(),
            modifier == Modifier::Shuffle ==> old(self)@.config.min_delay_ms <= rolled_delay_ms
                <= old(self)@.config.max_delay_ms,
        ensures
            final(self)@ == old(self)@.spec_apply_modifier(
                *token,
                pipe_id,
                modifier,
                now_ms,
                rolled_delay_ms,
            ).0,
            r == old(self)@.spec_apply_modifier(*token, pipe_id, modifier, now_ms, rolled_delay_ms).1,
            final(self)@.wf(),
    {
        proof {
            lemma_try_lock_ok(self@, *token);
        }
        let ghost target = self@.spec_apply_modifier(
            *token,
            pipe_id,
            modifier,
            now_ms,
            rolled_delay_ms,
        ).0;
        let idx = match self.try_lock_user(token) {
            Ok(idx) => idx,
            Err(e) => {
                return Err(e);
            }
        };
        if !(1 <= pipe_id && pipe_id <= self.config.pipe_count) {
            self.unlock_user(idx);
            return Err(Error::PipeNotFound);
        }
        let cost = self.config.modifier_cost(modifier);
        if self.users[idx].user.score < cost {
            self.unlock_user(idx);
            return Err(Error::NotEnoughScore);
        }
        let pi = pipe_id - 1;
        assert(self@.pipes[pi as int].wf(self@.config));
        let mut pipe = self.pipes[pi];
        match modifier {
            Modifier::Slow | Modifier::Double | Modifier::Min => {
                let active = match modifier {
                    Modifier::Slow => pipe.slow_uses,
                    Modifier::Double => pipe.double_uses,
                    _ => pipe.min_uses,
                };
                if active > 0 {
                    self.unlock_user(idx);
                    return Err(Error::ModifierAlreadyApplied);
                }
                let uses = match modifier {
                    Modifier::Slow => self.config.slow_uses,
                    Modifier::Double => self.config.double_uses,
                    _ => self.config.min_uses,
                };
                match modifier {
                    Modifier::Slow => {
                        pipe.slow_uses = uses;
                    }
                    Modifier::Double => {
                        pipe.double_uses = uses;
                    }
                    _ => {
                        pipe.min_uses = uses;
                    }
                }
            }
            Modifier::Shuffle => {
                pipe.base_delay_ms = rolled_delay_ms;
            }
            Modifier::Reverse => {
                pipe.direction = pipe.direction.inverse();
            }
        }
        let new_score = self.users[idx].user.score - cost;
        let slot = PlayerSlot {
            token: self.users[idx].token.clone(),
            user: User { score: new_score },
            busy: true,
        };
        self.users.set(idx, slot);
        self.pipes.set(pi, pipe);
        self.log(
            now_ms,
            LogMessage::UpdateUser { user: token.clone(), state: User { score: new_score } },
        );
        self.log(now_ms, LogMessage::UpdatePipe { id: pipe_id, state: pipe });
        self.unlock_user(idx);
        assert(self@ =~= target);
        Ok(ApplyModifierResponse {  })
    }
}

/// The events a match opens with: one player update per roster entry, in
/// roster order, then one pipe update per pipe, all at time zero.
pub open spec fn spec_init_history(users: Seq<UserToken>, pipes: Seq<Pipe>) -> Seq<
    LogEntry<UserToken>,
> {
    Seq::new(
        users.len() + pipes.len(),
        |i: int|
            if i < users.len() {
                LogEntry {
                    time_ms: 0,
                    msg: LogMessage::UpdateUser { user: users[i], state: User { score: 0 } },
                }
            } else {
                LogEntry {
                    time_ms: 0,
                    msg: LogMessage::UpdatePipe {
                        id: (i - users.len() + 1) as usize,
                        state: pipes[i - users.len()],
                    },
                }
            },
    )
}

/// A freshly initialized match: the given roster, each player idle with no
/// score, the given pipes, the opening events, and no observers.  An empty
/// roster opens the match to unseen tokens.
pub open spec fn spec_init(config: Config, users: Seq<UserToken>, pipes: Seq<Pipe>) -> AppView {
    AppView {
        config,
        allow_unknown_users: users.len() == 0,
        users: Seq::new(
            users.len(),
            |i: int| PlayerSlot { token: users[i], user: User { score: 0 }, busy: false },
        ),
        pipes,
        history: spec_init_history(users, pipes),
        subscribers: Seq::<Subscriber>::empty(),
    }
}

impl App {
    /// Initialize a match over the given pipes.  The roster is fixed when
    /// `users` is non-empty and open otherwise; each pipe must start
    /// inside the configured bounds with no modifier active.
    pub fn init_with_pipes(config: Config, users: Vec<UserToken>, pipes: Vec<Pipe>) -> (app: App)
        requires
            config.wf(),
            pipes@.len() == config.pipe_count,
            forall|i: int|
                0 <= i < pipes@.len() ==> (#[trigger] pipes@[i]).wf(config) && pipes@[i].slow_uses
                    == 0 && pipes@[i].double_uses == 0 && pipes@[i].min_uses == 0,
            forall|i: int, j: int|
                0 <= i < j < users@.len() ==> #[trigger] users@[i]@ != #[trigger] users@[j]@,
        ensures
            app@ == spec_init(config, users@, pipes@),
            app@.wf(),
    {
        let allow_unknown_users = users.len() == 0;
        let mut slots: Vec<PlayerSlot> = Vec::new();
        let mut history: Vec<LogEntry<UserToken>> = Vec::new();
        let mut i: usize = 0;
        while i < users.len()
            invariant
                i <= users@.len(),
                users@.len() <= usize::MAX,
                slots@.len() == i,
                history@.len() == i,
                forall|j: int|
                    0 <= j < i ==> #[trigger] slots@[j] == (PlayerSlot {
                        token: users@[j],
                        user: User { score: 0 },
                        busy: false,
                    }),
                forall|j: int|
                    0 <= j < i ==> #[trigger] history@[j] == (LogEntry {
                        time_ms: 0u64,
                        msg: LogMessage::UpdateUser { user: users@[j], state: User { score: 0 } },
                    }),
            decreases users@.len() - i,
        {
            history.push(
                LogEntry {
                    time_ms: 0,
                    msg: LogMessage::UpdateUser {
                        user: users[i].clone(),
                        state: User { score: 0 },
                    },
                },
            );
            slots.push(
                PlayerSlot { token: users[i].clone(), user: User { score: 0 }, busy: false },
            );
            i = i + 1;
        }
        let user_count = users.len();
        let mut j: usize = 0;
        while j < pipes.len()
            invariant
                j <= pipes@.len(),
                user_count == users@.len(),
                history@.len() == users@.len() + j,
                forall|k: int|
                    0 <= k < users@.len() ==> #[trigger] history@[k] == (LogEntry {
                        time_ms: 0u64,
                        msg: LogMessage::UpdateUser { user: users@[k], state: User { score: 0 } },
                    }),
                forall|k: int|
                    users@.len() <= k < history@.len() ==> #[trigger] history@[k]
                        == (LogEntry::<UserToken> {
                        time_ms: 0u64,
                        msg: LogMessage::UpdatePipe {
                            id: (k - users@.len() + 1) as usize,
                            state: pipes@[k - users@.len()],
                        },
                    }),
            decreases pipes@.len() - j,
        {
            history.push(
                LogEntry {
                    time_ms: 0,
                    msg: LogMessage::UpdatePipe { id: j + 1, state: pipes[j] },
                },
            );
            j = j + 1;
        }
        let app = App {
            config,
            allow_unknown_users,
            users: slots,
            pipes,
            history,
            subscribers: Vec::new(),
        };
        assert(app@.users =~= spec_init(config, users@, app.pipes@).users);
        assert(app@.history =~= spec_init_history(users@, app.pipes@));
        assert(app@ =~= spec_init(config, users@, app.pipes@));
        app
    }

    /// Initialize a match: every pipe starts with a value, a base delay
    /// and a direction drawn at random inside the configured bounds, and
    /// no modifier active.
    pub fn init(config: Config, users: Vec<UserToken>) -> (app: App)
        requires
            config.wf(),
            forall|i: int, j: int|
                0 <= i < j < users@.len() ==> #[trigger] users@[i]@ != #[trigger] users@[j]@,
        ensures
            app@.wf(),
            app@.pipes.len() == config.pipe_count,
            forall|i: int|
                0 <= i < app@.pipes.len() ==> (#[trigger] app@.pipes[i]).wf(config)
                    && app@.pipes[i].slow_uses == 0 && app@.pipes[i].double_uses == 0
                    && app@.pipes[i].min_uses == 0,
            app@ == spec_init(config, users@, app@.pipes),
    {
        let mut pipes: Vec<Pipe> = Vec::new();
        let mut i: usize = 0;
        while i < config.pipe_count
            invariant
                config.wf(),
                i <= config.pipe_count,
                pipes@.len() == i,
                forall|k: int|
                    0 <= k < i ==> (#[trigger] pipes@[k]).wf(config) && pipes@[k].slow_uses == 0
                        && pipes@[k].double_uses == 0 && pipes@[k].min_uses == 0,
            decreases config.pipe_count - i,
        {
            pipes.push(
                Pipe {
                    value: config.random_pipe_value(),
                    base_delay_ms: config.random_pipe_delay(),
                    direction: PipeDirection::random(),
                    slow_uses: 0,
                    double_uses: 0,
                    min_uses: 0,
                },
            );
            i = i + 1;
        }
        App::init_with_pipes(config, users, pipes)
    }
}

/// The results snapshot's keys are sorted ascending.
pub open spec fn results_sorted(r: Seq<(String, Score)>) -> bool {
    forall|a: int, b: int| 0 <= a < b < r.len() ==> lex_le(#[trigger] r[a].0@, #[trigger] r[b].0@)
}

/// Each of the first `n` players appears in the snapshot with their
/// current score.
pub open spec fn results_cover(users: Seq<PlayerSlot>, n: int, r: Seq<(String, Score)>) -> bool {
    forall|k: int|
        0 <= k < n ==> exists|j: int|
            0 <= j < r.len() && (#[trigger] users[k]).token@ == r[j].0@ && r[j].1
                == users[k].user.score
}

/// Each snapshot entry belongs to one of the first `n` players.
pub open spec fn results_from(users: Seq<PlayerSlot>, n: int, r: Seq<(String, Score)>) -> bool {
    forall|j: int|
        0 <= j < r.len() ==> exists|k: int|
            0 <= k < n && (#[trigger] r[j]).0@ == users[k].token@ && r[j].1
                == users[k].user.score
}

/// How the snapshot looks after one entry is put in at position `p`:
/// everything before `p` kept, the entry at `p`, the rest shifted up one.
spec fn inserted_at(
    old_r: Seq<(String, Score)>,
    new_r: Seq<(String, Score)>,
    p: int,
    entry: (String, Score),
) -> bool {
    &&& 0 <= p <= old_r.len()
    &&& new_r.len() == old_r.len() + 1
    &&& (forall|q: int| 0 <= q < p ==> new_r[q] == old_r[q])
    &&& new_r[p] == entry
    &&& (forall|q: int| p < q < new_r.len() ==> new_r[q] == old_r[q - 1])
}

/// Put one player's entry into the snapshot at its sorted position.
fn insert_result_entry(
    r: &mut Vec<(String, Score)>,
    key: String,
    score: Score,
    Ghost(users): Ghost<Seq<PlayerSlot>>,
    Ghost(i): Ghost<int>,
)
    requires
        0 <= i < users.len(),
        old(r)@.len() == i,
        key@ == users[i].token@,
        score == users[i].user.score,
        results_sorted(old(r)@),
        results_cover(users, i, old(r)@),
        results_from(users, i, old(r)@),
    ensures
        final(r)@.len() == i + 1,
        results_sorted(final(r)@),
        results_cover(users, i + 1, final(r)@),
        results_from(users, i + 1, final(r)@),
{
    let mut p: usize = 0;
    while p < r.len() && str_le(r[p].0.as_str(), key.as_str())
        invariant
            p <= r@.len(),
            forall|a: int| 0 <= a < p ==> lex_le(#[trigger] r@[a].0@, key@),
        decreases r@.len() - p,
    {
        p = p + 1;
    }
    let ghost old_r = r@;
    let ghost entry = ((key, score));
    proof {
        if p < old_r.len() {
            lemma_lex_le_total(old_r[p as int].0@, key@);
        }
    }
    r.insert(p, (key, score));
    proof {
        lemma_insert_shape(old_r, p as int, entry);
        assert(inserted_at(old_r, r@, p as int, entry));
        lemma_results_insert_sorted(old_r, r@, p as int, entry);
        lemma_results_insert_cover(users, i, old_r, r@, p as int, entry);
        lemma_results_insert_from(users, i, old_r, r@, p as int, entry);
    }
}

/// What `Seq::insert` produces, in the shape the insertion proofs use.
proof fn lemma_insert_shape(old_r: Seq<(String, Score)>, p: int, entry: (String, Score))
    requires
        0 <= p <= old_r.len(),
    ensures
        inserted_at(old_r, old_r.insert(p, entry), p, entry),
{
    old_r.insert_ensures(p, entry);
    let new_r = old_r.insert(p, entry);
    assert forall|q: int| p < q < new_r.len() implies new_r[q] == old_r[q - 1] by {
        assert(old_r.insert(p, entry)[(q - 1) + 1] == old_r[q - 1]);
    }
}

/// Putting an entry in at its sorted position keeps the snapshot sorted.
proof fn lemma_results_insert_sorted(
    old_r: Seq<(String, Score)>,
    new_r: Seq<(String, Score)>,
    p: int,
    entry: (String, Score),
)
    requires
        results_sorted(old_r),
        inserted_at(old_r, new_r, p, entry),
        forall|a: int| 0 <= a < p ==> lex_le(#[trigger] old_r[a].0@, entry.0@),
        p < old_r.len() ==> lex_le(entry.0@, old_r[p].0@),
    ensures
        results_sorted(new_r),
{
    assert forall|a: int, b: int| 0 <= a < b < new_r.len() implies lex_le(
        #[trigger] new_r[a].0@,
        #[trigger] new_r[b].0@,
    ) by {
        if a == p && b > p && b - 1 > p {
            lemma_lex_le_trans(entry.0@, old_r[p].0@, old_r[b - 1].0@);
        }
    }
}

/// The snapshot still covers every player it covered, and the new one.
proof fn lemma_results_insert_cover(
    users: Seq<PlayerSlot>,
    i: int,
    old_r: Seq<(String, Score)>,
    new_r: Seq<(String, Score)>,
    p: int,
    entry: (String, Score),
)
    requires
        0 <= i < users.len(),
        entry.0@ == users[i].token@,
        entry.1 == users[i].user.score,
        results_cover(users, i, old_r),
        inserted_at(old_r, new_r, p, entry),
    ensures
        results_cover(users, i + 1, new_r),
{
    assert forall|k: int| 0 <= k < i + 1 implies exists|j: int|
        0 <= j < new_r.len() && (#[trigger] users[k]).token@ == new_r[j].0@ && new_r[j].1
            == users[k].user.score by {
        if k == i {
            assert(users[k].token@ == new_r[p].0@ && new_r[p].1 == users[k].user.score);
        } else {
            let j = choose|j: int|
                0 <= j < old_r.len() && users[k].token@ == #[trigger] old_r[j].0@ && old_r[j].1
                    == users[k].user.score;
            if j < p {
                assert(users[k].token@ == new_r[j].0@ && new_r[j].1 == users[k].user.score);
            } else {
                assert(users[k].token@ == new_r[j + 1].0@ && new_r[j + 1].1
                    == users[k].user.score);
            }
        }
    }
}

/// Every snapshot entry still belongs to a player: the kept and shifted
/// ones as before, the new one to the player just added.
proof fn lemma_results_insert_from(
    users: Seq<PlayerSlot>,
    i: int,
    old_r: Seq<(String, Score)>,
    new_r: Seq<(String, Score)>,
    p: int,
    entry: (String, Score),
)
    requires
        0 <= i < users.len(),
        entry.0@ == users[i].token@,
        entry.1 == users[i].user.score,
        results_from(users, i, old_r),
        inserted_at(old_r, new_r, p, entry),
    ensures
        results_from(users, i + 1, new_r),
{
    assert forall|j: int| 0 <= j < new_r.len() implies exists|k: int|
        0 <= k < i + 1 && (#[trigger] new_r[j]).0@ == users[k].token@ && new_r[j].1
            == users[k].user.score by {
        if j == p {
            assert(new_r[j].0@ == users[i].token@ && new_r[j].1 == users[i].user.score);
        } else {
            let jo: int = if j < p {
                j
            } else {
                j - 1
            };
            assert(new_r[j] == old_r[jo]);
            let k = choose|k: int|
                0 <= k < i && #[trigger] old_r[jo].0@ == users[k].token@ && old_r[jo].1
                    == users[k].user.score;
            assert(new_r[j].0@ == users[k].token@ && new_r[j].1 == users[k].user.score);
        }
    }
}

/// What a granted lock looks like: the index is a valid roster slot that
/// holds the requested token and is now busy, and nothing else changed.
pub proof fn lemma_try_lock_ok(s: AppView, t: UserToken)
    requires
        s.wf(),
    ensures
        ({
            let s1 = s.spec_try_lock(t).0;
            match s.spec_try_lock(t).1 {
                Ok(idx) => {
                    &&& idx < s1.users.len()
                    &&& s1.users[idx as int].busy
                    &&& s1.users[idx as int].token@ == t@
                    &&& s1.config == s.config
                    &&& s1.allow_unknown_users == s.allow_unknown_users
                    &&& s1.pipes == s.pipes
                    &&& s1.history == s.history
                    &&& s1.subscribers == s.subscribers
                    &&& s1.users.len() >= s.users.len()
                }
                Err(e) => s1 == s,
            }
        }),
{
    lemma_find_user(s.users, t@);
}

} // verus!
