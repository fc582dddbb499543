//! A pooled-staking raffle ledger.
//!
//! Users deposit funds into a pool that re-stakes them with an external
//! staking service; the accrued yield becomes a prize that is periodically
//! raffled to a stake-weighted random winner.  The crate holds the verified
//! core: the weighted-selection ledger (an array-backed binary tree with
//! per-account stake and subtree weight), the pool accounting state, the
//! raffle engine, and the coordinator protocol around the asynchronous
//! external calls.  All interaction with the outside world (the external
//! staking contract, the host environment) happens elsewhere: every
//! operation here takes the environment facts it needs (caller, attached
//! amount, current time, current epoch, randomness) as plain arguments and
//! reports the external call to make, or the transfer owed, in its result.

use vstd::prelude::*;

pub mod external;
pub mod pool;
pub mod users;

use crate::pool::Pool;
use crate::users::Users;
use crate::users::Winner;

verus! {

/// Default wait between raffles, in milliseconds (one day).
pub const RAFFLE_WAIT: u64 = 86400000;

/// Default cap on a single user's tickets, to limit whale size
/// (a thousand of the external service's base units).
pub const MAX_DEPOSIT: u128 = 1000000000000000000000000000;

/// Default minimum deposit, to limit sybil accounts (one base unit).
pub const MIN_DEPOSIT: u128 = 1000000000000000000000000;

/// Default number of epochs to wait before an external withdrawal.
pub const EPOCHS_WAIT: u64 = 4;

/// Default minimum prize worth raffling (a tenth of a base unit).
pub const MIN_TO_RAFFLE: u128 = 100000000000000000000000;

/// Default cap on the raffled prize (a hundred base units).
pub const MAX_TO_RAFFLE: u128 = 100000000000000000000000000;

/// Which external interaction the coordinator performs next.  After a
/// successful external unstake the next interaction must be a withdrawal,
/// and vice versa: the order is a two-state protocol, not the caller's
/// choice.
#[derive(Clone, Copy, Debug, PartialEq, Eq)]
pub enum Action {
    Unstake,
    Withdraw,
}

/// Why an operation was refused.  Synchronous precondition failures leave
/// the state exactly as it was.
#[derive(Clone, Copy, Debug, PartialEq, Eq)]
pub enum PoolError {
    /// The emergency switch is on: all mutating operations are disabled.
    Emergency,
    /// The attached deposit is below the configured minimum.
    BelowMinDeposit,
    /// The very first deposit must come from the guardian account.
    GuardianFirst,
    /// The deposit would push the account over the configured maximum.
    AboveMaxDeposit,
    /// The account has never deposited.
    NotRegistered,
    /// More tickets were requested than the account holds.
    AmountTooHigh,
    /// An external interaction is already in flight.
    AlreadyInteracting,
    /// There is nothing queued for an external unstake.
    NothingToUnstake,
    /// The account's withdraw turn has not come yet, or it never unstaked.
    WithdrawNotReady,
    /// The account's unstaked balance is zero.
    NothingToWithdraw,
    /// The external cooldown has not elapsed yet.
    EpochNotReached,
    /// The next raffle is not due yet.
    RaffleNotDue,
    /// The accrued prize is below the configured minimum worth raffling.
    PrizeTooSmall,
    /// Nobody holds a ticket, so no winner can be drawn.
    NoParticipants,
    /// The prize was updated too recently.
    PrizeUpdateNotDue,
}

/// What a user sees of their own account.
#[derive(Clone, Copy, Debug, PartialEq, Eq)]
pub struct UserInfo {
    pub staked: u128,
    pub unstaked: u128,
    pub available: bool,
    pub withdraw_turn: u8,
}

/// The fixed parameters of the pool, set at initialization.
#[derive(Clone, Debug)]
pub struct Config {
    /// Identity of the external staking service the pool delegates to.
    pub external_pool: String,
    pub min_to_raffle: u128,
    pub max_to_raffle: u128,
    pub min_deposit: u128,
    pub max_deposit: u128,
    pub epochs_wait: u64,
    pub time_between_raffles: u64,
    /// The reserve account: first registrant, fee recipient, excluded from
    /// ordinary lottery odds.
    pub guardian: String,
    /// Global switch disabling every mutating operation while set.
    pub emergency: bool,
}

/// The whole contract state: configuration, aggregate accounting, the
/// weighted ledger, the coordinator's action toggle and the winner history.
#[derive(Debug)]
pub struct Contract {
    pub config: Config,
    pub pool: Pool,
    pub users: Users,
    pub next_action: Action,
    /// Append-only history of raffle winners.
    pub winners: Vec<Winner>,
}

impl Contract {
    /// All structural invariants of the contract state: the ledger is
    /// well formed and, once anyone registered, the guardian owns node 0
    /// and the fee percentage is meaningful.
    pub open spec fn wf(self) -> bool {
        &&& self.users.wf()
        &&& self.users.tree@.len() > 0 ==> self.users.tree@[0].account_id@
            == self.config.guardian@
        &&& self.pool.pool_fee <= 100
    }

    /// Fields other than `config` agree between the two states.
    pub open spec fn same_outside_config(a: Contract, b: Contract) -> bool {
        &&& a.pool == b.pool
        &&& a.users == b.users
        &&& a.next_action == b.next_action
        &&& a.winners == b.winners
    }

    /// Fields other than `pool` agree between the two states.
    pub open spec fn same_outside_pool(a: Contract, b: Contract) -> bool {
        &&& a.config == b.config
        &&& a.users == b.users
        &&& a.next_action == b.next_action
        &&& a.winners == b.winners
    }

    /// Fields other than `users` agree between the two states.
    pub open spec fn same_outside_users(a: Contract, b: Contract) -> bool {
        &&& a.config == b.config
        &&& a.pool == b.pool
        &&& a.next_action == b.next_action
        &&& a.winners == b.winners
    }

    /// Fields other than `pool` and `next_action` agree between the two
    /// states.
    pub open spec fn same_outside_coordinator(a: Contract, b: Contract) -> bool {
        &&& a.config == b.config
        &&& a.users == b.users
        &&& a.winners == b.winners
    }

    /// Creates the contract. Parameters left as `None` fall back to the
    /// default constants.
    pub fn new(
        external_pool: String,
        guardian: String,
        first_raffle: u64,
        min_to_raffle: Option<u128>,
        max_to_raffle: Option<u128>,
        min_deposit: Option<u128>,
        max_deposit: Option<u128>,
        epochs_wait: Option<u64>,
        time_between_raffles: Option<u64>,
    ) -> (r: Contract)
        ensures
            r.wf(),
            r.config.external_pool@ == external_pool@,
            r.config.guardian@ == guardian@,
            r.config.min_to_raffle == (match min_to_raffle {
                Some(v) => v,
                None => MIN_TO_RAFFLE,
            }),
            r.config.max_to_raffle == (match max_to_raffle {
                Some(v) => v,
                None => MAX_TO_RAFFLE,
            }),
            r.config.min_deposit == (match min_deposit {
                Some(v) => v,
                None => MIN_DEPOSIT,
            }),
            r.config.max_deposit == (match max_deposit {
                Some(v) => v,
                None => MAX_DEPOSIT,
            }),
            r.config.epochs_wait == (match epochs_wait {
                Some(v) => v,
                None => EPOCHS_WAIT,
            }),
            r.config.time_between_raffles == (match time_between_raffles {
                Some(v) => v,
                None => RAFFLE_WAIT,
            }),
            !r.config.emergency,
            r.pool == Pool::init(first_raffle),
            r.users.tree@.len() == 0,
            r.users.map@.len() == 0,
            r.next_action is Unstake,
            r.winners@.len() == 0,
    {
        Contract {
            config: Config {
                external_pool,
                guardian,
                min_to_raffle: unwrap_or_u128(min_to_raffle, MIN_TO_RAFFLE),
                max_to_raffle: unwrap_or_u128(max_to_raffle, MAX_TO_RAFFLE),
                min_deposit: unwrap_or_u128(min_deposit, MIN_DEPOSIT),
                max_deposit: unwrap_or_u128(max_deposit, MAX_DEPOSIT),
                epochs_wait: unwrap_or_u64(epochs_wait, EPOCHS_WAIT),
                time_between_raffles: unwrap_or_u64(time_between_raffles, RAFFLE_WAIT),
                emergency: false,
            },
            pool: Pool::new(first_raffle),
            users: Users::new(),
            next_action: Action::Unstake,
            winners: Vec::new(),
        }
    }

    /// A copy of the configuration.
    pub fn get_config(&self) -> (r: Config)
        ensures
            r == self.config,
    {
        Config {
            external_pool: self.config.external_pool.clone(),
            min_to_raffle: self.config.min_to_raffle,
            max_to_raffle: self.config.max_to_raffle,
            min_deposit: self.config.min_deposit,
            max_deposit: self.config.max_deposit,
            epochs_wait: self.config.epochs_wait,
            time_between_raffles: self.config.time_between_raffles,
            guardian: self.config.guardian.clone(),
            emergency: self.config.emergency,
        }
    }

    /// What `user` sees of their account: stake, claimable balance,
    /// whether a withdrawal is available, and how many turns remain
    /// until it is.  An unregistered account reads as all zeroes.
    pub fn get_user_info(&self, user: &String) -> (r: UserInfo)
        requires
            self.users.wf(),
        ensures
            !self.users.registered(user@) ==> r == (UserInfo {
                staked: 0,
                unstaked: 0,
                available: false,
                withdraw_turn: 0,
            }),
            self.users.registered(user@) ==> ({
                let staked = self.users.staked_of(user@);
                let unstaked = self.users.unstaked_of(user@);
                let when = (match self.users.turn_of(user@) {
                    Some(t) => t,
                    None => 0u64,
                });
                let turn_now = (if self.pool.next_withdraw_epoch >= 1 {
                    (self.pool.next_withdraw_epoch - 1) as u64
                } else {
                    0u64
                });
                let remaining = (if when > turn_now {
                    (when - turn_now) as u64
                } else {
                    0u64
                });
                &&& r.staked == staked
                &&& r.unstaked == unstaked
                &&& r.available == (unstaked > 0 && turn_now >= when)
                &&& r.withdraw_turn == remaining as u8
            }),
    {
        match self.find_index(user) {
            Some(i) => {
                let u = self.users.map[i].user;
                let staked = self.users.tree[u.node as usize].staked;
                let when: u64 = match u.withdraw_turn {
                    Some(t) => t,
                    None => 0,
                };
                let turn_now: u64 = if self.pool.next_withdraw_epoch >= 1 {
                    self.pool.next_withdraw_epoch - 1
                } else {
                    0
                };
                let remaining: u64 = if when > turn_now {
                    when - turn_now
                } else {
                    0
                };
                let available = u.unstaked > 0 && turn_now >= when;
                UserInfo {
                    staked,
                    unstaked: u.unstaked,
                    available,
                    withdraw_turn: #[verifier::truncate] (remaining as u8),
                }
            },
            None => UserInfo { staked: 0, unstaked: 0, available: false, withdraw_turn: 0 },
        }
    }

    /// Turns the emergency switch off, re-enabling mutating operations.
    pub fn emergency_stop(&mut self)
        ensures
            final(self).config == (Config { emergency: false, ..old(self).config }),
            Contract::same_outside_config(*final(self), *old(self)),
            old(self).wf() ==> final(self).wf(),
    {
        self.config.emergency = false;
    }

    /// Turns the emergency switch on, disabling mutating operations.
    pub fn emergency_start(&mut self)
        ensures
            final(self).config == (Config { emergency: true, ..old(self).config }),
            Contract::same_outside_config(*final(self), *old(self)),
            old(self).wf() ==> final(self).wf(),
    {
        self.config.emergency = true;
    }

    /// Sets the pause between raffles.
    pub fn set_time_between_raffles(&mut self, time: u64)
        ensures
            final(self).config == (Config {
                time_between_raffles: time,
                ..old(self).config
            }),
            Contract::same_outside_config(*final(self), *old(self)),
            old(self).wf() ==> final(self).wf(),
    {
        self.config.time_between_raffles = time;
    }

    /// Sets how many epochs an external unstake must season before the
    /// withdrawal.
    pub fn set_epochs_wait(&mut self, epochs: u64)
        ensures
            final(self).config == (Config { epochs_wait: epochs, ..old(self).config }),
            Contract::same_outside_config(*final(self), *old(self)),
            old(self).wf() ==> final(self).wf(),
    {
        self.config.epochs_wait = epochs;
    }
}

/// `o.unwrap_or(d)` for `u128`, with its value pinned in the contract.
fn unwrap_or_u128(o: Option<u128>, d: u128) -> (r: u128)
    ensures
        r == (match o {
            Some(v) => v,
            None => d,
        }),
{
    match o {
        Some(v) => v,
        None => d,
    }
}

/// `o.unwrap_or(d)` for `u64`, with its value pinned in the contract.
fn unwrap_or_u64(o: Option<u64>, d: u64) -> (r: u64)
    ensures
        r == (match o {
            Some(v) => v,
            None => d,
        }),
{
    match o {
        Some(v) => v,
        None => d,
    }
}

} // verus!
