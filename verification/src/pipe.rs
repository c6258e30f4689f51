//! Pipes: the contested resources of a match, and the modifiers on them.

use vstd::prelude::*;
use crate::config::{Config, Score};
use crate::rng::random_u64_in;

verus! {

/// The trend of a pipe's value: it steps by one in this direction after
/// every collection, wrapping at the configured bounds.
#[derive(Debug, Copy, Clone, PartialEq, Eq, Hash, Structural)]
pub enum PipeDirection {
    Up,
    Down,
}

impl PipeDirection {
    pub open spec fn spec_inverse(self) -> PipeDirection {
        match self {
            PipeDirection::Up => PipeDirection::Down,
            PipeDirection::Down => PipeDirection::Up,
        }
    }

    /// The opposite trend.
    pub fn inverse(&self) -> (r: PipeDirection)
        ensures
            r == self.spec_inverse(),
    {
        match self {
            PipeDirection::Up => PipeDirection::Down,
            PipeDirection::Down => PipeDirection::Up,
        }
    }

    /// A trend drawn at random; either outcome is possible.
    pub fn random() -> PipeDirection {
        let coin = random_u64_in(0, 1);
        if coin == 0 {
            PipeDirection::Up
        } else {
            PipeDirection::Down
        }
    }
}

/// A purchasable effect on a pipe.  `Slow`, `Double` and `Min` stack on the
/// pipe with a remaining-uses counter; `Shuffle` and `Reverse` act once at
/// apply time and are never stored.
#[derive(Debug, Copy, Clone, PartialEq, Eq, Hash, Structural)]
pub enum Modifier {
    Slow,
    Double,
    Min,
    Shuffle,
    Reverse,
}

impl Modifier {
    /// Whether this kind carries a remaining-uses counter on the pipe.
    pub open spec fn is_stacking(self) -> bool {
        self == Modifier::Slow || self == Modifier::Double || self == Modifier::Min
    }
}

/// One pipe.  A stacking modifier kind is active exactly while its uses
/// counter is positive; a counter of zero means the kind is absent.
#[derive(Debug, Copy, Clone, PartialEq, Eq, Structural)]
pub struct Pipe {
    pub value: Score,
    pub base_delay_ms: u64,
    pub direction: PipeDirection,
    pub slow_uses: usize,
    pub double_uses: usize,
    pub min_uses: usize,
}

impl Pipe {
    /// The pipe's value and base delay stay inside the configured bounds.
    pub open spec fn wf(self, cfg: Config) -> bool {
        &&& cfg.min_value <= self.value <= cfg.max_value
        &&& cfg.min_delay_ms <= self.base_delay_ms <= cfg.max_delay_ms
    }

    /// Remaining uses of a stacking modifier kind; one-shot kinds have none.
    pub open spec fn spec_uses(self, m: Modifier) -> usize {
        match m {
            Modifier::Slow => self.slow_uses,
            Modifier::Double => self.double_uses,
            Modifier::Min => self.min_uses,
            Modifier::Shuffle => 0,
            Modifier::Reverse => 0,
        }
    }

    /// The pipe with the counter of a stacking kind replaced; one-shot kinds
    /// have no counter, so the pipe is unchanged.
    pub open spec fn spec_set_uses(self, m: Modifier, n: usize) -> Pipe {
        match m {
            Modifier::Slow => Pipe { slow_uses: n, ..self },
            Modifier::Double => Pipe { double_uses: n, ..self },
            Modifier::Min => Pipe { min_uses: n, ..self },
            Modifier::Shuffle => self,
            Modifier::Reverse => self,
        }
    }

    /// Consuming one use of a modifier kind: the pipe afterwards, and
    /// whether a use was consumed.
    pub open spec fn spec_use_modifier(self, m: Modifier) -> (Pipe, bool) {
        if self.spec_uses(m) > 0 {
            (self.spec_set_uses(m, (self.spec_uses(m) - 1) as usize), true)
        } else {
            (self, false)
        }
    }

    /// Consume one use of a modifier kind if it is active.  Returns whether
    /// a use was consumed; reaching zero uses removes the kind.
    pub fn use_modifier(&mut self, modifier: Modifier) -> (used: bool)
        ensures
            (*final(self), used) == old(self).spec_use_modifier(modifier),
    {
        match modifier {
            Modifier::Slow => {
                if self.slow_uses > 0 {
                    self.slow_uses = self.slow_uses - 1;
                    true
                } else {
                    false
                }
            }
            Modifier::Double => {
                if self.double_uses > 0 {
                    self.double_uses = self.double_uses - 1;
                    true
                } else {
                    false
                }
            }
            Modifier::Min => {
                if self.min_uses > 0 {
                    self.min_uses = self.min_uses - 1;
                    true
                } else {
                    false
                }
            }
            Modifier::Shuffle => false,
            Modifier::Reverse => false,
        }
    }
}

/// A pipe value stepped once along a trend: it moves by one and wraps to
/// the opposite bound when it crosses either configured bound.
pub open spec fn spec_step_value(value: int, direction: PipeDirection, cfg: Config) -> int {
    let next = if direction == PipeDirection::Up {
        value + 1
    } else {
        value - 1
    };
    if next < cfg.min_value {
        cfg.max_value as int
    } else if next > cfg.max_value {
        cfg.min_value as int
    } else {
        next
    }
}

/// What a collection awards from a pipe's live state: the current value,
/// doubled by an active `Double`, then forced to the configured floor by
/// an active `Min`.
pub open spec fn spec_award(p: Pipe, cfg: Config) -> int {
    let doubled = if p.double_uses > 0 {
        2 * p.value
    } else {
        p.value as int
    };
    if p.min_uses > 0 {
        cfg.min_value as int
    } else {
        doubled
    }
}

/// The pipe after a collection is taken from it: `Double` and `Min` each
/// consumed once if active, then the value stepped along the trend with
/// wraparound.
pub open spec fn spec_collect_pipe(p: Pipe, cfg: Config) -> Pipe {
    let p1 = p.spec_use_modifier(Modifier::Double).0;
    let p2 = p1.spec_use_modifier(Modifier::Min).0;
    Pipe { value: spec_step_value(p2.value as int, p2.direction, cfg) as i64, ..p2 }
}

} // verus!
