//! The event log's entries: every state transition the engine makes.

use vstd::prelude::*;
use crate::pipe::Pipe;
use crate::user::{User, UserToken};

verus! {

/// One state-change event.  `U` is the player identity carried in events;
/// the engine logs [`UserToken`]s, and an exporter may map them to another
/// identity with [`LogMessage::map_user`].
#[derive(Debug)]
pub enum LogMessage<U> {
    CollectStart { user: U, pipe_id: usize, delay_ms: u64 },
    UpdatePipe { id: usize, state: Pipe },
    CollectEnd { user: U },
    UpdateUser { user: U, state: User },
}

/// How a message relates to the same message with its player identity
/// mapped through `f`: same variant, same payload, identity a possible
/// output of `f` on the original identity.
pub open spec fn maps_message<U, V, F: Fn(U) -> V>(
    f: F,
    m: LogMessage<U>,
    r: LogMessage<V>,
) -> bool {
    &&& (m matches LogMessage::CollectStart { user, pipe_id, delay_ms } ==> (r matches
        LogMessage::CollectStart { user: u2, pipe_id: p2, delay_ms: d2 } && call_ensures(
        f,
        (user,),
        u2,
    ) && p2 == pipe_id && d2 == delay_ms))
    &&& (m matches LogMessage::UpdatePipe { id, state } ==> r == (LogMessage::UpdatePipe::<
        V,
    > { id, state }))
    &&& (m matches LogMessage::CollectEnd { user } ==> (r matches LogMessage::CollectEnd {
        user: u2 } && call_ensures(f, (user,), u2)))
    &&& (m matches LogMessage::UpdateUser { user, state } ==> (r matches LogMessage::UpdateUser {
        user: u2, state: s2 } && call_ensures(f, (user,), u2) && s2 == state))
}

/// The precondition `f` needs so every identity in `m` may be handed to it.
pub open spec fn message_map_requires<U, V, F: Fn(U) -> V>(f: F, m: LogMessage<U>) -> bool {
    &&& (m matches LogMessage::CollectStart { user, .. } ==> call_requires(f, (user,)))
    &&& (m matches LogMessage::CollectEnd { user } ==> call_requires(f, (user,)))
    &&& (m matches LogMessage::UpdateUser { user, .. } ==> call_requires(f, (user,)))
}

impl<U> LogMessage<U> {
    /// The same message with the player identity mapped through `f`.
    pub fn map_user<V, F: Fn(U) -> V>(self, f: F) -> (r: LogMessage<V>)
        requires
            message_map_requires(f, self),
        ensures
            maps_message(f, self, r),
    {
        match self {
            LogMessage::CollectStart { user, pipe_id, delay_ms } => LogMessage::CollectStart {
                user: f(user),
                pipe_id,
                delay_ms,
            },
            LogMessage::UpdatePipe { id, state } => LogMessage::UpdatePipe { id, state },
            LogMessage::CollectEnd { user } => LogMessage::CollectEnd { user: f(user) },
            LogMessage::UpdateUser { user, state } => LogMessage::UpdateUser {
                user: f(user),
                state,
            },
        }
    }
}

/// A timestamped event, immutable once appended: the elapsed match time in
/// milliseconds and the state change itself.
#[derive(Debug)]
pub struct LogEntry<U> {
    pub time_ms: u64,
    pub msg: LogMessage<U>,
}

impl<U> LogEntry<U> {
    /// The same entry with the player identity mapped through `f`.
    pub fn map_user<V, F: Fn(U) -> V>(self, f: F) -> (r: LogEntry<V>)
        requires
            message_map_requires(f, self.msg),
        ensures
            r.time_ms == self.time_ms,
            maps_message(f, self.msg, r.msg),
    {
        LogEntry { time_ms: self.time_ms, msg: self.msg.map_user(f) }
    }
}

impl Clone for LogMessage<UserToken> {
    fn clone(&self) -> (r: LogMessage<UserToken>)
        ensures
            r == *self,
    {
        match self {
            LogMessage::CollectStart { user, pipe_id, delay_ms } => LogMessage::CollectStart {
                user: user.clone(),
                pipe_id: *pipe_id,
                delay_ms: *delay_ms,
            },
            LogMessage::UpdatePipe { id, state } => LogMessage::UpdatePipe {
                id: *id,
                state: *state,
            },
            LogMessage::CollectEnd { user } => LogMessage::CollectEnd { user: user.clone() },
            LogMessage::UpdateUser { user, state } => LogMessage::UpdateUser {
                user: user.clone(),
                state: *state,
            },
        }
    }
}

impl Clone for LogEntry<UserToken> {
    fn clone(&self) -> (r: LogEntry<UserToken>)
        ensures
            r == *self,
    {
        LogEntry { time_ms: self.time_ms, msg: self.msg.clone() }
    }
}

} // verus!
