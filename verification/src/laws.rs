//! The engine's guarantees, stated and proved once over the transition
//! functions that every operation's contract is written with.

use vstd::prelude::*;
use crate::config::Config;
use crate::engine::{
    lemma_find_user, lemma_find_user_push, lemma_find_user_same_tokens, spec_find_user, AppView,
    ApplyModifierResponse, Error, PlayerSlot,
};
use crate::events::LogEntry;
use crate::pipe::{spec_step_value, Modifier, PipeDirection};
use crate::user::{User, UserToken};

verus! {

/// A pipe's value never leaves the configured bounds, and a step that
/// crosses either bound wraps to the opposite bound rather than
/// saturating.  (That the bound holds for all time is each operation's
/// `wf` postcondition; this is the step itself.)
pub proof fn lemma_value_bounds_and_wrap(cfg: Config, value: int, direction: PipeDirection)
    requires
        cfg.wf(),
        cfg.min_value <= value <= cfg.max_value,
    ensures
        cfg.min_value <= spec_step_value(value, direction, cfg) <= cfg.max_value,
        value == cfg.max_value && direction == PipeDirection::Up ==> spec_step_value(
            value,
            direction,
            cfg,
        ) == cfg.min_value,
        value == cfg.min_value && direction == PipeDirection::Down ==> spec_step_value(
            value,
            direction,
            cfg,
        ) == cfg.max_value,
{
}

/// A begin step that succeeds leaves its token busy: the player's lock is
/// held for the whole operation, so that player's operations are
/// linearized.
pub proof fn lemma_begin_holds_lock(s: AppView, t: UserToken, pipe_id: usize, now_ms: u64)
    requires
        s.wf(),
    ensures
        s.spec_collect_begin(t, pipe_id, now_ms).1 is Ok ==> s.spec_collect_begin(
            t,
            pipe_id,
            now_ms,
        ).0.user_busy(t@),
        s.spec_pipe_value_begin(t, pipe_id).1 is Ok ==> s.spec_pipe_value_begin(
            t,
            pipe_id,
        ).0.user_busy(t@),
{
    lemma_find_user(s.users, t@);
    let f = spec_find_user(s.users, t@);
    let s1 = s.spec_try_lock(t).0;
    if s.spec_try_lock(t).1 is Ok {
        if f >= 0 {
            lemma_find_user_same_tokens(s.users, s1.users, t@);
        } else {
            lemma_find_user_push(
                s.users,
                PlayerSlot { token: t, user: User { score: 0 }, busy: true },
                t@,
            );
        }
        assert(s1.user_busy(t@));
    }
}

/// While a token is busy, every further operation for it — a collection,
/// an inspection, a modifier purchase — is rejected at once with
/// `UserBusy`, never queued, and the state is left untouched.
pub proof fn lemma_busy_rejected(
    s: AppView,
    t: UserToken,
    pipe_id: usize,
    now_ms: u64,
    modifier: Modifier,
    rolled_delay_ms: u64,
)
    requires
        s.user_busy(t@),
    ensures
        s.spec_collect_begin(t, pipe_id, now_ms) == (s, Err::<(usize, u64), Error>(Error::UserBusy)),
        s.spec_pipe_value_begin(t, pipe_id) == (s, Err::<(usize, u64), Error>(Error::UserBusy)),
        s.spec_apply_modifier(t, pipe_id, modifier, now_ms, rolled_delay_ms) == (
            s,
            Err::<ApplyModifierResponse, Error>(Error::UserBusy),
        ),
{
}

/// No two operations for one token are ever in flight together: after a
/// collection's begin step succeeds, a second begin step for the same
/// token — on any pipe — yields `UserBusy` and changes nothing, until the
/// finish step releases the lock.
pub proof fn lemma_player_operations_serialized(
    s: AppView,
    t: UserToken,
    pipe_id: usize,
    now_ms: u64,
    second_pipe_id: usize,
    second_now_ms: u64,
    modifier: Modifier,
    rolled_delay_ms: u64,
)
    requires
        s.wf(),
        s.spec_collect_begin(t, pipe_id, now_ms).1 is Ok,
    ensures
        ({
            let s1 = s.spec_collect_begin(t, pipe_id, now_ms).0;
            &&& s1.spec_collect_begin(t, second_pipe_id, second_now_ms) == (
                s1,
                Err::<(usize, u64), Error>(Error::UserBusy),
            )
            &&& s1.spec_pipe_value_begin(t, second_pipe_id) == (
                s1,
                Err::<(usize, u64), Error>(Error::UserBusy),
            )
            &&& s1.spec_apply_modifier(t, second_pipe_id, modifier, second_now_ms, rolled_delay_ms)
                == (s1, Err::<ApplyModifierResponse, Error>(Error::UserBusy))
        }),
{
    lemma_begin_holds_lock(s, t, pipe_id, now_ms);
    let s1 = s.spec_collect_begin(t, pipe_id, now_ms).0;
    lemma_busy_rejected(s1, t, second_pipe_id, second_now_ms, modifier, rolled_delay_ms);
}

/// The same serialization holds when the operation in flight is an
/// inspection: until its finish step, every further operation for the
/// token is rejected with `UserBusy` and changes nothing.
pub proof fn lemma_inspection_serialized(
    s: AppView,
    t: UserToken,
    pipe_id: usize,
    second_pipe_id: usize,
    second_now_ms: u64,
    modifier: Modifier,
    rolled_delay_ms: u64,
)
    requires
        s.wf(),
        s.spec_pipe_value_begin(t, pipe_id).1 is Ok,
    ensures
        ({
            let s1 = s.spec_pipe_value_begin(t, pipe_id).0;
            &&& s1.spec_collect_begin(t, second_pipe_id, second_now_ms) == (
                s1,
                Err::<(usize, u64), Error>(Error::UserBusy),
            )
            &&& s1.spec_pipe_value_begin(t, second_pipe_id) == (
                s1,
                Err::<(usize, u64), Error>(Error::UserBusy),
            )
            &&& s1.spec_apply_modifier(t, second_pipe_id, modifier, second_now_ms, rolled_delay_ms)
                == (s1, Err::<ApplyModifierResponse, Error>(Error::UserBusy))
        }),
{
    lemma_begin_holds_lock(s, t, pipe_id, 0);
    let s1 = s.spec_pipe_value_begin(t, pipe_id).0;
    lemma_busy_rejected(s1, t, second_pipe_id, second_now_ms, modifier, rolled_delay_ms);
}

/// A finish step releases the player's lock: afterwards the slot is idle
/// again, so the player's next operation can begin.
pub proof fn lemma_finish_releases_lock(
    s: AppView,
    idx: int,
    t: UserToken,
    pipe_id: usize,
    now_ms: u64,
)
    requires
        0 <= idx < s.users.len(),
    ensures
        !s.spec_collect_finish(idx, t, pipe_id, now_ms).0.users[idx].busy,
        !s.spec_pipe_value_finish(idx, pipe_id).0.users[idx].busy,
{
}

/// Applying a stacking modifier kind that is still active on the pipe
/// fails with `ModifierAlreadyApplied` and changes nothing; applying it
/// when its uses are exhausted (the counter is gone) succeeds and installs
/// the configured number of uses.
pub proof fn lemma_stacking_modifier_reapply(
    s: AppView,
    t: UserToken,
    pipe_id: usize,
    modifier: Modifier,
    now_ms: u64,
    rolled_delay_ms: u64,
)
    requires
        s.wf(),
        modifier.is_stacking(),
        !s.user_busy(t@),
        spec_find_user(s.users, t@) >= 0,
        s.users[spec_find_user(s.users, t@)].user.score >= s.config.spec_modifier_cost(modifier),
        s.pipe_id_valid(pipe_id),
    ensures
        s.pipe_at(pipe_id).spec_uses(modifier) > 0 ==> s.spec_apply_modifier(
            t,
            pipe_id,
            modifier,
            now_ms,
            rolled_delay_ms,
        ) == (s, Err::<ApplyModifierResponse, Error>(Error::ModifierAlreadyApplied)),
        s.pipe_at(pipe_id).spec_uses(modifier) == 0 ==> {
            let next = s.spec_apply_modifier(t, pipe_id, modifier, now_ms, rolled_delay_ms);
            &&& next.1 == Ok::<ApplyModifierResponse, Error>(ApplyModifierResponse {  })
            &&& next.0.pipe_at(pipe_id).spec_uses(modifier) == s.config.spec_modifier_uses(
                modifier,
            )
        },
{
    lemma_find_user(s.users, t@);
    let f = spec_find_user(s.users, t@);
    if s.pipe_at(pipe_id).spec_uses(modifier) > 0 {
        assert(s.spec_apply_modifier(t, pipe_id, modifier, now_ms, rolled_delay_ms).0 =~~= s);
    }
}

/// `ApplyModifier` debits exactly the configured cost, and an attempt that
/// fails for insufficient score changes no state at all: player score and
/// pipe state are identical before and after the failed attempt.
pub proof fn lemma_apply_modifier_exact_debit(
    s: AppView,
    t: UserToken,
    pipe_id: usize,
    modifier: Modifier,
    now_ms: u64,
    rolled_delay_ms: u64,
)
    requires
        s.wf(),
        !s.user_busy(t@),
        spec_find_user(s.users, t@) >= 0,
        s.pipe_id_valid(pipe_id),
    ensures
        s.users[spec_find_user(s.users, t@)].user.score < s.config.spec_modifier_cost(modifier)
            ==> s.spec_apply_modifier(t, pipe_id, modifier, now_ms, rolled_delay_ms) == (
            s,
            Err::<ApplyModifierResponse, Error>(Error::NotEnoughScore),
        ),
        ({
            let f = spec_find_user(s.users, t@);
            let next = s.spec_apply_modifier(t, pipe_id, modifier, now_ms, rolled_delay_ms);
            next.1 is Ok ==> next.0.users[f].user.score == s.users[f].user.score
                - s.config.spec_modifier_cost(modifier)
        }),
{
    lemma_find_user(s.users, t@);
    let f = spec_find_user(s.users, t@);
    if s.users[f].user.score < s.config.spec_modifier_cost(modifier) {
        assert(s.spec_apply_modifier(t, pipe_id, modifier, now_ms, rolled_delay_ms).0 =~~= s);
    }
}

/// Replay plus live tail are gap-free: a new observer's cursor starts at
/// zero, a poll delivers exactly the history from the cursor on, and
/// appends only extend the history.  So what two successive polls deliver,
/// with any appends in between, is one contiguous slice of the history:
/// every appended event at most once, in append order.
pub proof fn lemma_replay_and_tail_gap_free(
    h0: Seq<LogEntry<UserToken>>,
    h1: Seq<LogEntry<UserToken>>,
    c0: int,
    delivered_first: Seq<LogEntry<UserToken>>,
    delivered_second: Seq<LogEntry<UserToken>>,
)
    requires
        0 <= c0 <= h0.len(),
        delivered_first == h0.subrange(c0, h0.len() as int),
        h0.len() <= h1.len(),
        h0 == h1.subrange(0, h0.len() as int),
        delivered_second == h1.subrange(h0.len() as int, h1.len() as int),
    ensures
        delivered_first + delivered_second == h1.subrange(c0, h1.len() as int),
{
    assert forall|i: int| 0 <= i < h0.len() implies h0[i] == h1[i] by {
        assert(h0[i] == h1.subrange(0, h0.len() as int)[i]);
    }
    assert(delivered_first + delivered_second =~= h1.subrange(c0, h1.len() as int));
}

} // verus!
