//! Joining the server again after the connection was lost.

use vstd::prelude::*;
#[allow(unused_imports)]
use vstd::arithmetic::power2::{lemma2_to64, lemma_pow2_pos, lemma_pow2_unfold, pow2};

verus! {

/// The state shared by all connections: none.
#[derive(Debug, Default, Clone, Copy)]
pub struct SwarmState {}

/// The seconds to wait before the first attempt to join again.
pub const FIRST_WAIT_SECS: u64 = 5;

/// The most seconds to wait between two attempts.
pub const LONGEST_WAIT_SECS: u64 = 1800;

/// What happened to a client that was disconnected.
#[derive(Debug, Clone, Copy, PartialEq, Eq, Structural)]
pub enum RejoinEvent {
    /// The connection was lost just now.
    Disconnected,
    /// The wait is over.
    Waited,
    /// An attempt to join was refused.
    JoinFailed,
    /// An attempt to join was successful.
    Joined,
}

/// What to do next.
#[derive(Debug, Clone, Copy, PartialEq, Eq, Structural)]
pub enum RejoinAction {
    /// Wait this many seconds.
    Wait(u64),
    /// Try to join.
    Join,
    /// Nothing more.
    Done,
}

/// The wait after one of `secs` seconds: twice as long, up to half an hour.
pub open spec fn next_wait(secs: int) -> int {
    if 2 * secs < LONGEST_WAIT_SECS {
        2 * secs
    } else {
        LONGEST_WAIT_SECS as int
    }
}

/// The wait before the attempt with the number `n`, counted from nought.
pub open spec fn nth_wait(n: nat) -> int
    decreases n,
{
    if n == 0 {
        FIRST_WAIT_SECS as int
    } else {
        next_wait(nth_wait((n - 1) as nat))
    }
}

/// What is done next, and the wait after that, where the next wait is `secs`.
pub open spec fn stepped(secs: u64, event: RejoinEvent) -> (RejoinAction, int) {
    match event {
        RejoinEvent::Disconnected | RejoinEvent::JoinFailed => (
            RejoinAction::Wait(secs),
            secs as int,
        ),
        RejoinEvent::Waited => (RejoinAction::Join, next_wait(secs as int)),
        RejoinEvent::Joined => (RejoinAction::Done, secs as int),
    }
}

/// The attempts of one client to join again.
#[derive(Debug)]
pub struct Rejoin {
    reconnect_after_secs: u64,
}

impl View for Rejoin {
    type V = u64;

    /// The seconds of the next wait.
    closed spec fn view(&self) -> u64 {
        self.reconnect_after_secs
    }
}

impl Rejoin {
    #[verifier::type_invariant]
    spec fn inv(self) -> bool {
        self.reconnect_after_secs <= LONGEST_WAIT_SECS
    }

    /// Before the first attempt.
    pub fn new() -> (r: Self)
        ensures
            r@ == nth_wait(0),
    {
        Rejoin { reconnect_after_secs: FIRST_WAIT_SECS }
    }

    /// Decides what to do next.
    pub fn step(&mut self, event: RejoinEvent) -> (action: RejoinAction)
        ensures
            (action, final(self)@ as int) == stepped(old(self)@, event),
            match event {
                RejoinEvent::Disconnected | RejoinEvent::JoinFailed => action
                    == RejoinAction::Wait(old(self)@) && final(self)@ == old(self)@,
                RejoinEvent::Waited => action == RejoinAction::Join && final(self)@ == next_wait(
                    old(self)@ as int,
                ),
                RejoinEvent::Joined => action == RejoinAction::Done && final(self)@ == old(self)@,
            },
    {
        proof {
            use_type_invariant(&*self);
        }
        match event {
            RejoinEvent::Disconnected | RejoinEvent::JoinFailed => {
                RejoinAction::Wait(self.reconnect_after_secs)
            },
            RejoinEvent::Waited => {
                let twice: u64 = self.reconnect_after_secs * 2;
                self.reconnect_after_secs = if twice < LONGEST_WAIT_SECS {
                    twice
                } else {
                    LONGEST_WAIT_SECS
                };
                RejoinAction::Join
            },
            RejoinEvent::Joined => RejoinAction::Done,
        }
    }
}

/// After a lost connection and after every attempt that was refused the client
/// waits, after every wait it tries to join, and once it joined it is done. Only a
/// wait that is over makes the next one longer: twice as long, and half an hour
/// at most.
pub proof fn law_attempts_alternate_with_waits(secs: u64)
    ensures
        stepped(secs, RejoinEvent::Disconnected) == (RejoinAction::Wait(secs), secs as int),
        stepped(secs, RejoinEvent::JoinFailed) == (RejoinAction::Wait(secs), secs as int),
        stepped(secs, RejoinEvent::Waited).0 == RejoinAction::Join,
        stepped(secs, RejoinEvent::Joined).0 == RejoinAction::Done,
        secs <= 900 ==> stepped(secs, RejoinEvent::Waited).1 == secs + secs,
        secs >= 900 ==> stepped(secs, RejoinEvent::Waited).1 == 1800,
        nth_wait(0) == 5,
        forall|n: nat| #[trigger] nth_wait(n + 1) == next_wait(nth_wait(n)),
{
}

/// The waits begin with five seconds, double every time, and stay at half an
/// hour once they got there.
pub proof fn law_waits_double(n: nat)
    ensures
        nth_wait(n) == if FIRST_WAIT_SECS * pow2(n) < LONGEST_WAIT_SECS {
            FIRST_WAIT_SECS * pow2(n)
        } else {
            LONGEST_WAIT_SECS as int
        },
        FIRST_WAIT_SECS <= nth_wait(n) <= nth_wait(n + 1) <= LONGEST_WAIT_SECS,
    decreases n,
{
    lemma_pow2_unfold(n + 1);
    if n == 0 {
        lemma2_to64();
    } else {
        law_waits_double((n - 1) as nat);
        lemma_pow2_unfold(n);
    }
    lemma_pow2_pos(n);
}

} // verus!
