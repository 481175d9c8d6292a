//! What the bot was started with.

use vstd::prelude::*;
use crate::text::{ascii_lower, eq_ignore_ascii_case};

verus! {

/// The options that the bot's decisions depend on.
#[derive(Debug)]
pub struct Opts {
    /// Player names who are considered more trustworthy for certain commands.
    pub admin: Vec<String>,
    /// Translate the protocol to the given version by a proxy.
    pub via: Option<String>,
    /// Log out once the health is low or a totem pops.
    pub autolog: bool,
    /// Send no messages to players on the bot's own account.
    pub quiet: bool,
    /// Do no stasis-related duties.
    pub no_stasis: bool,
    /// Use the authentication protocol that works across proxies.
    pub openauthmod: bool,
    /// Never mine blocks to get somewhere.
    pub no_mining: bool,
    /// Look at the closest player who is no more than this many blocks away.
    pub look_at_players: Option<u32>,
    /// Let admins ask for the position of the bot.
    pub enable_pos_command: bool,
    /// Eat food from the hotbar when appropriate.
    pub auto_eat: bool,
    /// The version that the bot reports.
    pub version: String,
}

impl Opts {
    /// Whether `name` is the name of an admin, whatever the case of its ASCII
    /// letters.
    pub open spec fn has_admin(self, name: Seq<char>) -> bool {
        exists|i: int|
            0 <= i < self.admin@.len() && ascii_lower(#[trigger] self.admin@[i]@) == ascii_lower(
                name,
            )
    }

    /// Whether `name` is the name of an admin.
    pub fn is_admin(&self, name: &str) -> (r: bool)
        ensures
            r == self.has_admin(name@),
    {
        let n: usize = self.admin.len();
        let mut i: usize = 0;
        while i < n
            invariant
                n == self.admin@.len(),
                i <= n,
                forall|j: int|
                    0 <= j < i ==> ascii_lower(#[trigger] self.admin@[j]@) != ascii_lower(name@),
            decreases n - i,
        {
            if eq_ignore_ascii_case(name, self.admin[i].as_str()) {
                assert(ascii_lower(self.admin@[i as int]@) == ascii_lower(name@));
                return true;
            }
            i = i + 1;
        }
        false
    }

    /// Whether the options exclude each other.
    pub open spec fn excluded(self) -> bool {
        self.openauthmod && self.via is Some
    }

    /// The square of the distance up to which players are looked at.
    pub open spec fn squared_reach(self) -> Option<int> {
        match self.look_at_players {
            Some(n) => Some(n * n),
            None => None,
        }
    }

    /// Whether the options exclude each other.
    pub fn conflicting(&self) -> (r: bool)
        ensures
            r == self.excluded(),
            r == (self.openauthmod && self.via is Some),
    {
        self.openauthmod && self.via.is_some()
    }

    /// The square of the distance up to which players are looked at.
    pub fn look_radius_squared(&self) -> (r: Option<u64>)
        ensures
            match self.look_at_players {
                Some(n) => r matches Some(squared) && squared == n * n,
                None => r is None,
            },
            self.squared_reach() == match r {
                Some(squared) => Some(squared as int),
                None => None,
            },
    {
        match self.look_at_players {
            Some(n) => {
                let wide: u64 = n as u64;
                assert(wide * wide <= u64::MAX) by (nonlinear_arith)
                    requires
                        wide <= u32::MAX,
                ;
                Some(wide * wide)
            },
            None => None,
        }
    }
}

} // verus!
