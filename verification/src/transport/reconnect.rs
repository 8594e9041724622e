//! Restoring lost connections: attempts with growing delays.

use vstd::arithmetic::power2;
use vstd::prelude::*;

use crate::config::NetworkConfig;

verus! {

/// What is reported of the restoring of a connection.
#[derive(Clone, Copy, Debug, PartialEq, Eq, Structural)]
pub enum ReconnectEvent {
    /// The connection was lost and is being restored.
    Disconnected,
    /// The connection was restored.
    Reconnected,
    /// Restoring was given up.
    Exhausted,
}

impl ReconnectEvent {
    /// The number that stands for the event outside of the library.
    pub open spec fn number(self) -> u8 {
        match self {
            ReconnectEvent::Disconnected => 0,
            ReconnectEvent::Reconnected => 1,
            ReconnectEvent::Exhausted => 2,
        }
    }

    /// The number that stands for the event outside of the library.
    pub fn as_u8(self) -> (r: u8)
        ensures
            r == self.number(),
    {
        match self {
            Self::Disconnected => 0,
            Self::Reconnected => 1,
            Self::Exhausted => 2,
        }
    }
}

/// What to do next to restore a connection.
#[derive(Clone, Copy, Debug, PartialEq, Eq, Structural)]
pub enum ReconnectStep {
    /// Wait this long (ms), then ask again with
    /// [`Reconnect::delay_elapsed`].
    Wait { delay_ms: u64 },
    /// Try to connect, then report with [`Reconnect::connected`] or
    /// [`Reconnect::attempt_failed`].
    Connect,
    /// Stop, and report the event.
    Stop { event: ReconnectEvent },
}

/// The value of a [`Reconnect`].
pub struct ReconnectView {
    pub delay_ms: u64,
    pub attempts: u8,
    pub max_ms: u64,
    /// Failed attempts after which to give up; `0` for never.
    pub max_retries: u8,
}

impl ReconnectView {
    /// Before the first attempt.
    pub open spec fn initial(config: NetworkConfig) -> Self {
        ReconnectView {
            delay_ms: config.reconnect_initial_ms,
            attempts: 0,
            max_ms: config.reconnect_max_ms,
            max_retries: config.reconnect_max_retries,
        }
    }

    /// How many attempts have failed after one more, as far as they are
    /// counted.
    pub open spec fn attempts_after_failure(self) -> u8 {
        if self.attempts < u8::MAX {
            (self.attempts + 1) as u8
        } else {
            u8::MAX
        }
    }

    /// Is restoring given up after one more failed attempt?
    pub open spec fn gives_up(self) -> bool {
        self.max_retries > 0 && self.attempts_after_failure() >= self.max_retries
    }

    /// The next delay: twice the last one, the maximum at most.
    pub open spec fn next_delay(self) -> u64 {
        if 2 * self.delay_ms <= self.max_ms {
            (2 * self.delay_ms) as u64
        } else {
            self.max_ms
        }
    }

    /// The state after a failed attempt.
    pub open spec fn failed(self) -> Self {
        ReconnectView {
            attempts: self.attempts_after_failure(),
            delay_ms: if self.gives_up() {
                self.delay_ms
            } else {
                self.next_delay()
            },
            ..self
        }
    }

    /// The state after `n` failed attempts.
    pub open spec fn failed_times(self, n: nat) -> Self
        decreases n,
    {
        if n == 0 {
            self
        } else {
            self.failed_times((n - 1) as nat).failed()
        }
    }
}

/// The restoring of one lost connection.
pub struct Reconnect {
    delay_ms: u64,
    attempts: u8,
    max_ms: u64,
    max_retries: u8,
}

impl View for Reconnect {
    type V = ReconnectView;

    closed spec fn view(&self) -> ReconnectView {
        ReconnectView {
            delay_ms: self.delay_ms,
            attempts: self.attempts,
            max_ms: self.max_ms,
            max_retries: self.max_retries,
        }
    }
}

impl Reconnect {
    /// Start restoring a connection.
    pub fn new(config: &NetworkConfig) -> (r: Self)
        ensures
            r@ == ReconnectView::initial(*config),
    {
        Self {
            delay_ms: config.reconnect_initial_ms,
            attempts: 0,
            max_ms: config.reconnect_max_ms,
            max_retries: config.reconnect_max_retries,
        }
    }

    /// The first thing to do, and after each failed attempt: wait.
    pub fn next_step(&self) -> (r: ReconnectStep)
        ensures
            r == (ReconnectStep::Wait { delay_ms: self@.delay_ms }),
    {
        ReconnectStep::Wait { delay_ms: self.delay_ms }
    }

    /// The delay is over. Restoring may have been switched off meanwhile.
    pub fn delay_elapsed(&self, auto_reconnect_enabled: bool) -> (r: ReconnectStep)
        ensures
            r == (if auto_reconnect_enabled {
                ReconnectStep::Connect
            } else {
                ReconnectStep::Stop { event: ReconnectEvent::Exhausted }
            }),
    {
        if auto_reconnect_enabled {
            ReconnectStep::Connect
        } else {
            ReconnectStep::Stop { event: ReconnectEvent::Exhausted }
        }
    }

    /// The attempt has succeeded.
    pub fn connected(&self) -> (r: ReconnectStep)
        ensures
            r == (ReconnectStep::Stop { event: ReconnectEvent::Reconnected }),
    {
        ReconnectStep::Stop { event: ReconnectEvent::Reconnected }
    }

    /// The attempt has failed: wait longer, or give up.
    pub fn attempt_failed(&mut self) -> (r: ReconnectStep)
        ensures
            final(self)@ == old(self)@.failed(),
            r == (if old(self)@.gives_up() {
                ReconnectStep::Stop { event: ReconnectEvent::Exhausted }
            } else {
                ReconnectStep::Wait { delay_ms: old(self)@.next_delay() }
            }),
    {
        if self.attempts < u8::MAX {
            self.attempts = self.attempts + 1;
        }
        if self.max_retries > 0 && self.attempts >= self.max_retries {
            return ReconnectStep::Stop { event: ReconnectEvent::Exhausted };
        }
        self.delay_ms = if self.delay_ms <= self.max_ms / 2 {
            self.delay_ms * 2
        } else {
            self.max_ms
        };
        self.next_step()
    }
}

// --- laws -------------------------------------------------------------------
/// The smaller of two numbers.
pub open spec fn smaller(a: nat, b: nat) -> nat {
    if a <= b {
        a
    } else {
        b
    }
}

/// The delay before an attempt is the initial one, doubled for each failed
/// attempt, and the maximum at most. An initial delay above the maximum is
/// kept before the first attempt only.
pub proof fn law_delays_double_up_to_maximum(config: NetworkConfig, n: nat)
    requires
        config.reconnect_max_retries == 0 || n < config.reconnect_max_retries,
    ensures
        ReconnectView::initial(config).failed_times(0).delay_ms == config.reconnect_initial_ms,
        n > 0 || config.reconnect_initial_ms <= config.reconnect_max_ms ==> ReconnectView::initial(
            config,
        ).failed_times(n).delay_ms == smaller(
            config.reconnect_initial_ms as nat * power2::pow2(n),
            config.reconnect_max_ms as nat,
        ),
        config.reconnect_initial_ms <= config.reconnect_max_ms ==> config.reconnect_initial_ms
            <= ReconnectView::initial(config).failed_times(n).delay_ms <= config.reconnect_max_ms,
    decreases n,
{
    let first = ReconnectView::initial(config);
    let i = config.reconnect_initial_ms as nat;
    lemma_attempts(config, n);
    if n == 0 {
        power2::lemma2_to64();
        assert(i * 1 == i);
    } else {
        let m = (n - 1) as nat;
        law_delays_double_up_to_maximum(config, m);
        lemma_attempts(config, m);
        power2::lemma_pow2_unfold(n);
        assert(i * power2::pow2(n) == 2 * (i * power2::pow2(m))) by (nonlinear_arith)
            requires
                power2::pow2(n) == 2 * power2::pow2(m),
        ;
        power2::lemma_pow2_pos(n);
        assert(i * power2::pow2(n) >= i) by (nonlinear_arith)
            requires
                power2::pow2(n) >= 1,
        ;
    }
}

proof fn lemma_attempts(config: NetworkConfig, n: nat)
    ensures
        ({
            let s = ReconnectView::initial(config).failed_times(n);
            &&& s.attempts == smaller(n, 255)
            &&& s.max_ms == config.reconnect_max_ms
            &&& s.max_retries == config.reconnect_max_retries
        }),
    decreases n,
{
    if n > 0 {
        lemma_attempts(config, (n - 1) as nat);
    }
}

/// With a limit set, restoring is given up after exactly that many failed
/// attempts; without one it never is.
pub proof fn law_gives_up_after_limit(config: NetworkConfig, n: nat)
    ensures
        config.reconnect_max_retries == 0 ==> !ReconnectView::initial(config).failed_times(
            n,
        ).gives_up(),
        config.reconnect_max_retries > 0 ==> (ReconnectView::initial(config).failed_times(
            n,
        ).gives_up() <==> n + 1 >= config.reconnect_max_retries),
{
    lemma_attempts(config, n);
}

} // verus!
