//! Pool accounting: the aggregate counters and the operations around
//! deposits, unstaking, withdrawal, the raffle and the prize update.

use vstd::prelude::*;

use crate::users::on_path;
use crate::users::pick_spec;
use crate::users::winning_ticket;
use crate::users::User;
use crate::users::UserEntry;
use crate::users::Users;
use crate::users::Winner;
use crate::Contract;
use crate::PoolError;

verus! {

/// Time between two prize updates, in nanoseconds (ten seconds), so that
/// the balance query does not hog the interaction semaphore.
pub const PRIZE_UPDATE_INTERVAL: u64 = 10000000000;

/// What the external staking service reports about this pool's account.
#[derive(Clone, Copy, Debug, PartialEq, Eq)]
pub struct ExternalUser {
    pub unstaked_balance: u128,
    pub staked_balance: u128,
    pub available: bool,
}

/// The pool's aggregate counters.
#[derive(Clone, Copy, Debug, PartialEq, Eq)]
pub struct Pool {
    /// Amount queued for the next external unstake call.
    pub to_unstake: u128,
    /// The raffle-eligible surplus.
    pub prize: u128,
    pub last_prize_update: u64,
    /// Percentage of each prize kept for the guardian reserve, 0 to 100.
    pub pool_fee: u8,
    /// Earliest time the next raffle may run.
    pub next_raffle: u64,
    /// Sum of all tickets the pool believes it has delegated externally.
    pub tickets: u128,
    /// The single-flight semaphore around external interactions.
    pub is_interacting: bool,
    /// Generation counter gating which unstake cohort may withdraw.
    pub next_withdraw_turn: u64,
    /// Earliest epoch an external withdrawal is permitted.
    pub next_withdraw_epoch: u64,
}

impl Pool {
    /// The counters a fresh pool starts from.
    pub open spec fn init(first_raffle: u64) -> Pool {
        Pool {
            tickets: 0,
            to_unstake: 0,
            prize: 0,
            last_prize_update: 0,
            pool_fee: 0,
            next_raffle: first_raffle,
            is_interacting: false,
            next_withdraw_turn: 1,
            next_withdraw_epoch: 0,
        }
    }

    /// A fresh pool whose first raffle is scheduled at `first_raffle`.
    pub fn new(first_raffle: u64) -> (r: Pool)
        ensures
            r == Pool::init(first_raffle),
    {
        Pool {
            tickets: 0,
            to_unstake: 0,
            prize: 0,
            last_prize_update: 0,
            pool_fee: 0,
            next_raffle: first_raffle,
            is_interacting: false,
            next_withdraw_turn: 1,
            next_withdraw_epoch: 0,
        }
    }
}

/// The optimistic half of a deposit: the pool's ticket counter grows at
/// request time, before the ledger commit.
pub open spec fn deposit_add_tickets(p: Pool, amount: u128) -> Pool {
    Pool { tickets: p.tickets.saturating_add(amount), ..p }
}

/// The rollback of a failed deposit: the counter shrinks back;
/// saturation is the deliberate best-effort containment policy here.
pub open spec fn deposit_rollback_tickets(p: Pool, amount: u128) -> Pool {
    Pool { tickets: p.tickets.saturating_sub(amount), ..p }
}

/// Where no saturation happened on the way in, the rollback of a failed
/// deposit restores the pool counters exactly.
pub proof fn lemma_deposit_rollback_exact(p: Pool, amount: u128)
    requires
        p.tickets + amount <= u128::MAX,
    ensures
        deposit_rollback_tickets(deposit_add_tickets(p, amount), amount) == p,
{
}

impl Contract {
    /// When a deposit is accepted, and which refusal it gets otherwise.
    pub open spec fn deposit_check(self, user: Seq<char>, attached: u128) -> Result<
        (),
        PoolError,
    > {
        if self.config.emergency {
            Err(PoolError::Emergency)
        } else if attached < self.config.min_deposit {
            Err(PoolError::BelowMinDeposit)
        } else if self.users.tree@.len() == 0 && user != self.config.guardian@ {
            Err(PoolError::GuardianFirst)
        } else if self.users.staked_of(user) + attached > self.config.max_deposit {
            Err(PoolError::AboveMaxDeposit)
        } else {
            Ok(())
        }
    }

    /// A deposit request from `user` carrying `attached` tokens.  On
    /// success the tickets are added to the pool's counter only — the
    /// caller must now pass the funds to the external staking service and
    /// later report the outcome to `deposit_and_stake_callback`, which
    /// either commits the tickets to the user or rolls the counter back.
    pub fn deposit_and_stake(&mut self, user: &String, attached: u128) -> (r: Result<
        (),
        PoolError,
    >)
        requires
            old(self).wf(),
            old(self).users.tree@.len() < u32::MAX,
        ensures
            final(self).wf(),
            r == old(self).deposit_check(user@, attached),
            r is Err ==> *final(self) == *old(self),
            r is Ok ==> ({
                &&& final(self).pool == deposit_add_tickets(old(self).pool, attached)
                &&& final(self).config == old(self).config
                &&& final(self).next_action == old(self).next_action
                &&& final(self).winners == old(self).winners
                &&& final(self).users.registered(user@)
                &&& final(self).users.staked_of(user@) == old(self).users.staked_of(user@)
                &&& final(self).users.unstaked_of(user@) == old(self).users.unstaked_of(user@)
                &&& final(self).users.turn_of(user@) == old(self).users.turn_of(user@)
                &&& (old(self).users.registered(user@) ==> final(self).users == old(self).users)
                &&& (!old(self).users.registered(user@) ==> {
                    &&& final(self).users.map@.len() == old(self).users.map@.len() + 1
                    &&& final(self).users.tree@.len() == old(self).users.tree@.len() + 1
                    &&& (forall|j: int|
                        0 <= j < old(self).users.map@.len() ==> final(self).users.map@[j] == old(
                            self,
                        ).users.map@[j])
                    &&& (forall|j: int|
                        0 <= j < old(self).users.tree@.len() ==> final(self).users.tree@[j] == old(
                            self,
                        ).users.tree@[j])
                    &&& final(self).users.tree@.last().account_id@ == user@
                    &&& final(self).users.tree@.last().staked == 0
                    &&& final(self).users.tree@.last().weight == 0
                    &&& final(self).users.map@.last().account_id@ == user@
                    &&& final(self).users.map@.last().user == (User {
                        node: old(self).users.tree@.len() as u32,
                        unstaked: 0,
                        withdraw_turn: None,
                    })
                })
            }),
    {
        if self.config.emergency {
            return Err(PoolError::Emergency);
        }
        if attached < self.config.min_deposit {
            return Err(PoolError::BelowMinDeposit);
        }
        let n = self.users.tree.len();
        if n == 0 && !(*user == self.config.guardian) {
            return Err(PoolError::GuardianFirst);
        }
        let registered = self.is_registered(user);
        let staked: u128 = if registered {
            self.get_staked_for(user)
        } else {
            0
        };
        if staked > self.config.max_deposit || attached > self.config.max_deposit - staked {
            return Err(PoolError::AboveMaxDeposit);
        }
        if !registered {
            self.add_new_user(user);
        }
        self.pool.tickets = self.pool.tickets.saturating_add(attached);
        Ok(())
    }

    /// The resumption of a deposit.  A failure rolls the ticket counter
    /// back and reports the full amount owed back to the depositor; a
    /// success commits the tickets into the user's ledger node.
    pub fn deposit_and_stake_callback(
        &mut self,
        success: bool,
        user: &String,
        tickets_amount: u128,
    ) -> (refund: Option<u128>)
        requires
            old(self).wf(),
            old(self).users.registered(user@),
            success ==> old(self).users.tree@[0].weight + tickets_amount <= u128::MAX,
        ensures
            final(self).wf(),
            refund == (if success {
                None::<u128>
            } else {
                Some(tickets_amount)
            }),
            !success ==> ({
                &&& final(self).pool == deposit_rollback_tickets(old(self).pool, tickets_amount)
                &&& final(self).users == old(self).users
                &&& final(self).config == old(self).config
                &&& final(self).next_action == old(self).next_action
                &&& final(self).winners == old(self).winners
            }),
            success ==> ({
                &&& final(self).pool == old(self).pool
                &&& final(self).config == old(self).config
                &&& final(self).next_action == old(self).next_action
                &&& final(self).winners == old(self).winners
                &&& final(self).users.map == old(self).users.map
                &&& final(self).users.tree@.len() == old(self).users.tree@.len()
                &&& (forall|j: int| #![trigger final(self).users.tree@[j]]
                    0 <= j < old(self).users.tree@.len() ==> final(self).users.tree@[j].account_id
                        == old(self).users.tree@[j].account_id)
                &&& (forall|j: int| #![trigger final(self).users.tree@[j]]
                    0 <= j < old(self).users.tree@.len() ==> final(self).users.tree@[j].staked
                        == old(self).users.tree@[j].staked + (if j == old(self).users.index_of(
                        user@,
                    ) {
                        tickets_amount as int
                    } else {
                        0int
                    }))
                &&& (forall|j: int| #![trigger final(self).users.tree@[j]]
                    0 <= j < old(self).users.tree@.len() ==> final(self).users.tree@[j].weight
                        == old(self).users.tree@[j].weight + (if on_path(
                        old(self).users.index_of(user@),
                        j,
                    ) {
                        tickets_amount as int
                    } else {
                        0int
                    }))
                &&& final(self).users.staked_of(user@) == old(self).users.staked_of(user@)
                    + tickets_amount
                &&& final(self).users.tree@[0].weight == old(self).users.tree@[0].weight
                    + tickets_amount
            }),
    {
        if success {
            self.stake_tickets_for(user, tickets_amount);
            None
        } else {
            self.pool.tickets = self.pool.tickets.saturating_sub(tickets_amount);
            Some(tickets_amount)
        }
    }

    /// When an unstake request is accepted, and which refusal it gets
    /// otherwise.
    pub open spec fn unstake_check(self, user: Seq<char>, amount: u128) -> Result<
        (),
        PoolError,
    > {
        if self.config.emergency {
            Err(PoolError::Emergency)
        } else if !self.users.registered(user) {
            Err(PoolError::NotRegistered)
        } else if amount > self.users.staked_of(user) {
            Err(PoolError::AmountTooHigh)
        } else {
            Ok(())
        }
    }

    /// The amount an accepted unstake request actually unstakes: the
    /// requested amount, unless the remainder would fall below the
    /// minimum deposit — then the whole balance goes (dust avoidance).
    pub open spec fn unstake_amount(self, user: Seq<char>, amount: u128) -> u128 {
        if self.users.staked_of(user) - amount < self.config.min_deposit {
            self.users.staked_of(user)
        } else {
            amount
        }
    }

    /// Queues tickets for the next external unstake.  Synchronous: the
    /// tickets leave the user's ledger node and become a claimable
    /// balance at once, withdrawable once the user's assigned turn comes
    /// and the external cooldown elapses.
    pub fn unstake(&mut self, user: &String, amount: u128) -> (r: Result<(), PoolError>)
        requires
            old(self).wf(),
            old(self).users.unstaked_of(user@) + old(self).users.staked_of(user@) <= u128::MAX,
        ensures
            final(self).wf(),
            r == old(self).unstake_check(user@, amount),
            r is Err ==> *final(self) == *old(self),
            r is Ok ==> ({
                let a = old(self).unstake_amount(user@, amount);
                let idx = old(self).users.index_of(user@);
                &&& final(self).pool == (Pool {
                    to_unstake: old(self).pool.to_unstake.saturating_add(a),
                    ..old(self).pool
                })
                &&& final(self).config == old(self).config
                &&& final(self).next_action == old(self).next_action
                &&& final(self).winners == old(self).winners
                &&& final(self).users.map@.len() == old(self).users.map@.len()
                &&& final(self).users.tree@.len() == old(self).users.tree@.len()
                &&& (forall|j: int|
                    0 <= j < old(self).users.map@.len() && j != idx ==> final(self).users.map@[j]
                        == old(self).users.map@[j])
                &&& final(self).users.map@[idx] == (UserEntry {
                    user: User {
                        unstaked: (old(self).users.unstaked_of(user@) + a) as u128,
                        withdraw_turn: Some(old(self).pool.next_withdraw_turn),
                        ..old(self).users.user_of(user@)
                    },
                    ..old(self).users.map@[idx]
                })
                &&& (forall|j: int| #![trigger final(self).users.tree@[j]]
                    0 <= j < old(self).users.tree@.len() ==> final(self).users.tree@[j].account_id
                        == old(self).users.tree@[j].account_id)
                &&& (forall|j: int| #![trigger final(self).users.tree@[j]]
                    0 <= j < old(self).users.tree@.len() ==> final(self).users.tree@[j].staked
                        == old(self).users.tree@[j].staked - (if j == idx {
                        a as int
                    } else {
                        0int
                    }))
                &&& (forall|j: int| #![trigger final(self).users.tree@[j]]
                    0 <= j < old(self).users.tree@.len() ==> final(self).users.tree@[j].weight
                        == old(self).users.tree@[j].weight - (if on_path(idx, j) {
                        a as int
                    } else {
                        0int
                    }))
                &&& final(self).users.staked_of(user@) == old(self).users.staked_of(user@) - a
                &&& final(self).users.unstaked_of(user@) == old(self).users.unstaked_of(user@) + a
                &&& final(self).users.turn_of(user@) == Some(old(self).pool.next_withdraw_turn)
                &&& final(self).users.tree@[0].weight == old(self).users.tree@[0].weight - a
            }),
    {
        if self.config.emergency {
            return Err(PoolError::Emergency);
        }
        let registered = self.is_registered(user);
        if !registered {
            return Err(PoolError::NotRegistered);
        }
        let user_tickets = self.get_staked_for(user);
        if amount > user_tickets {
            return Err(PoolError::AmountTooHigh);
        }
        let mut unstake_amount = amount;
        if user_tickets - amount < self.config.min_deposit {
            unstake_amount = user_tickets;
        }
        // queue the tickets for the next external unstake call
        self.pool.to_unstake = self.pool.to_unstake.saturating_add(unstake_amount);
        // the user may withdraw once the coming turn is served
        let turn = self.pool.next_withdraw_turn;
        self.set_withdraw_turn_for(user, turn);
        // move the tickets out of the tree and into the claimable balance
        self.unstake_tickets_for(user, unstake_amount);
        Ok(())
    }

    /// When a withdrawal is accepted — and then of how much — and which
    /// refusal it gets otherwise.
    pub open spec fn withdraw_all_check(self, user: Seq<char>, epoch: u64) -> Result<
        u128,
        PoolError,
    > {
        if self.config.emergency {
            Err(PoolError::Emergency)
        } else if !self.users.registered(user) {
            Err(PoolError::NotRegistered)
        } else {
            match self.users.turn_of(user) {
                None => Err(PoolError::WithdrawNotReady),
                Some(turn) => {
                    if self.pool.next_withdraw_turn < turn {
                        Err(PoolError::WithdrawNotReady)
                    } else if self.users.unstaked_of(user) == 0 {
                        Err(PoolError::NothingToWithdraw)
                    } else if epoch < self.pool.next_withdraw_epoch {
                        Err(PoolError::EpochNotReached)
                    } else {
                        Ok(self.users.unstaked_of(user))
                    }
                },
            }
        }
    }

    /// Pays out the account's whole claimable balance.  On success the
    /// returned amount is owed to the user by transfer; the balance it
    /// came from is zeroed.
    pub fn withdraw_all(&mut self, user: &String, epoch: u64) -> (r: Result<u128, PoolError>)
        requires
            old(self).wf(),
        ensures
            final(self).wf(),
            r == old(self).withdraw_all_check(user@, epoch),
            r is Err ==> *final(self) == *old(self),
            r is Ok ==> ({
                let idx = old(self).users.index_of(user@);
                &&& final(self).pool == old(self).pool
                &&& final(self).config == old(self).config
                &&& final(self).next_action == old(self).next_action
                &&& final(self).winners == old(self).winners
                &&& final(self).users.tree == old(self).users.tree
                &&& final(self).users.map@ == old(self).users.map@.update(
                    idx,
                    (UserEntry {
                        user: User { unstaked: 0, ..old(self).users.user_of(user@) },
                        ..old(self).users.map@[idx]
                    }),
                )
                &&& final(self).users.unstaked_of(user@) == 0
                &&& final(self).users.staked_of(user@) == old(self).users.staked_of(user@)
                &&& final(self).users.turn_of(user@) == old(self).users.turn_of(user@)
            }),
    {
        if self.config.emergency {
            return Err(PoolError::Emergency);
        }
        let registered = self.is_registered(user);
        if !registered {
            return Err(PoolError::NotRegistered);
        }
        let turn_opt = self.get_withdraw_turn_for(user);
        let turn = match turn_opt {
            Some(t) => t,
            None => {
                return Err(PoolError::WithdrawNotReady);
            },
        };
        if self.pool.next_withdraw_turn < turn {
            return Err(PoolError::WithdrawNotReady);
        }
        let u = self.get_user(user);
        if u.unstaked == 0 {
            return Err(PoolError::NothingToWithdraw);
        }
        if epoch < self.pool.next_withdraw_epoch {
            return Err(PoolError::EpochNotReached);
        }
        let amount = self.withdraw_all_for(user);
        Ok(amount)
    }

    /// Withdrawing is idempotent in its failure: a successful withdrawal
    /// empties the account's claimable balance, so a second attempt from
    /// any state the first one can leave (same turn assignment, same
    /// pool, balance now zero) is refused with `NothingToWithdraw` — and
    /// `withdraw_all` leaves the state untouched on every refusal.
    pub proof fn lemma_withdraw_all_idempotent(
        c1: Contract,
        c2: Contract,
        user: Seq<char>,
        epoch: u64,
    )
        requires
            c1.withdraw_all_check(user, epoch) is Ok,
            c2.users.registered(user),
            c2.users.unstaked_of(user) == 0,
            c2.users.turn_of(user) == c1.users.turn_of(user),
            c2.pool == c1.pool,
            c2.config == c1.config,
        ensures
            c2.withdraw_all_check(user, epoch) == Err::<u128, PoolError>(
                PoolError::NothingToWithdraw,
            ),
    {
    }

    /// When a raffle may run, and which refusal it gets otherwise.
    pub open spec fn raffle_check(self, now: u64) -> Result<(), PoolError> {
        if self.config.emergency {
            Err(PoolError::Emergency)
        } else if self.users.tree@.len() == 0 || self.users.tree@[0].weight == 0 {
            Err(PoolError::NoParticipants)
        } else if now < self.pool.next_raffle {
            Err(PoolError::RaffleNotDue)
        } else if self.pool.prize < self.config.min_to_raffle {
            Err(PoolError::PrizeTooSmall)
        } else {
            Ok(())
        }
    }

    /// The account the raffle pays for the given randomness.
    pub open spec fn raffle_winner(self, seed: Seq<u8>) -> Seq<char> {
        self.users.tree@[pick_spec(
            self.users.tree@,
            0,
            winning_ticket(self.users.tree@, seed),
        )].account_id@
    }

    /// The slice of the prize kept for the guardian reserve, rounded
    /// down.
    pub open spec fn raffle_fee(self) -> int {
        (self.pool.prize * self.pool.pool_fee) / 100
    }

    /// Runs the raffle: draws a stake-weighted random winner from the
    /// given randomness, stakes the fee slice of the prize for the
    /// guardian and the rest for the winner, folds the prize into the
    /// pool's tickets, resets the prize, schedules the next raffle and
    /// records the winner.
    pub fn raffle(&mut self, now: u64, seed: &Vec<u8>) -> (r: Result<String, PoolError>)
        requires
            old(self).wf(),
            seed@.len() >= 16,
            old(self).pool.prize <= u128::MAX / 100,
            old(self).users.tree@.len() > 0 ==> old(self).users.tree@[0].weight + old(
                self,
            ).pool.prize <= u128::MAX,
            now + old(self).config.time_between_raffles <= u64::MAX,
        ensures
            final(self).wf(),
            (match r {
                Ok(w) => old(self).raffle_check(now) is Ok && w@ == old(self).raffle_winner(seed@),
                Err(e) => old(self).raffle_check(now) == Err::<(), PoolError>(e),
            }),
            r is Err ==> *final(self) == *old(self),
            r is Ok ==> ({
                let winner = old(self).raffle_winner(seed@);
                let widx = pick_spec(
                    old(self).users.tree@,
                    0,
                    winning_ticket(old(self).users.tree@, seed@),
                );
                let fee = old(self).raffle_fee();
                let prize = old(self).pool.prize;
                &&& final(self).pool == (Pool {
                    tickets: old(self).pool.tickets.saturating_add(prize),
                    prize: 0,
                    next_raffle: (now + old(self).config.time_between_raffles) as u64,
                    ..old(self).pool
                })
                &&& final(self).config == old(self).config
                &&& final(self).next_action == old(self).next_action
                &&& final(self).winners@.len() == old(self).winners@.len() + 1
                &&& (forall|k: int|
                    0 <= k < old(self).winners@.len() ==> final(self).winners@[k] == old(
                        self,
                    ).winners@[k])
                &&& final(self).winners@.last().0@ == winner
                &&& final(self).winners@.last().1 == prize - fee
                &&& final(self).winners@.last().2 == now
                &&& final(self).users.map == old(self).users.map
                &&& final(self).users.tree@.len() == old(self).users.tree@.len()
                &&& (forall|j: int| #![trigger final(self).users.tree@[j]]
                    0 <= j < old(self).users.tree@.len() ==> final(self).users.tree@[j].account_id
                        == old(self).users.tree@[j].account_id)
                &&& (forall|j: int| #![trigger final(self).users.tree@[j]]
                    0 <= j < old(self).users.tree@.len() ==> final(self).users.tree@[j].staked
                        == old(self).users.tree@[j].staked + (if j == 0 {
                        fee
                    } else {
                        0int
                    }) + (if j == widx {
                        prize - fee
                    } else {
                        0int
                    }))
                &&& final(self).users.tree@[0].weight == old(self).users.tree@[0].weight + prize
            }),
    {
        if self.config.emergency {
            return Err(PoolError::Emergency);
        }
        let n = self.users.tree.len();
        if n == 0 {
            return Err(PoolError::NoParticipants);
        }
        let root_weight = self.users.tree[0].weight;
        if root_weight == 0 {
            return Err(PoolError::NoParticipants);
        }
        if now < self.pool.next_raffle {
            return Err(PoolError::RaffleNotDue);
        }
        let prize = self.pool.prize;
        if prize < self.config.min_to_raffle {
            return Err(PoolError::PrizeTooSmall);
        }
        // draw the winner
        let winner = self.choose_random_winner(seed);
        proof {
            let t0 = old(self).users.tree@;
            let widx = pick_spec(t0, 0, winning_ticket(t0, seed@));
            self.users.lemma_index_of_unique(winner@, widx);
            self.users.lemma_index_of_unique(self.config.guardian@, 0);
            assert(self.pool.prize * self.pool.pool_fee <= self.pool.prize * 100) by (nonlinear_arith)
                requires
                    self.pool.pool_fee <= 100,
                    self.pool.prize >= 0,
            ;
        }
        // the reserve's fee slice, rounded down
        let pool_fee_amount = (prize * (self.pool.pool_fee as u128)) / 100;
        let guardian = self.config.guardian.clone();
        self.stake_tickets_for(&guardian, pool_fee_amount);
        proof {
            Users::lemma_index_stable(old(self).users, self.users, winner@);
        }
        // the winner takes the rest
        self.stake_tickets_for(&winner, prize - pool_fee_amount);
        // fold the distributed prize into the pool and rearm the raffle
        self.pool.tickets = self.pool.tickets.saturating_add(prize);
        self.pool.next_raffle = now + self.config.time_between_raffles;
        self.pool.prize = 0;
        self.winners.push(Winner(winner.clone(), prize - pool_fee_amount, now));
        Ok(winner)
    }

    /// When a prize update may start, and which refusal it gets
    /// otherwise.
    pub open spec fn update_prize_check(self, now: u64) -> Result<(), PoolError> {
        if self.config.emergency {
            Err(PoolError::Emergency)
        } else if now < self.pool.last_prize_update + PRIZE_UPDATE_INTERVAL {
            Err(PoolError::PrizeUpdateNotDue)
        } else if self.pool.is_interacting {
            Err(PoolError::AlreadyInteracting)
        } else {
            Ok(())
        }
    }

    /// Starts a prize update: takes the interaction semaphore so that the
    /// caller may query the external staking service for this pool's
    /// staked balance and report it to `update_prize_callback`.
    pub fn update_prize(&mut self, now: u64) -> (r: Result<(), PoolError>)
        requires
            old(self).wf(),
            old(self).pool.last_prize_update + PRIZE_UPDATE_INTERVAL <= u64::MAX,
        ensures
            final(self).wf(),
            r == old(self).update_prize_check(now),
            r is Err ==> *final(self) == *old(self),
            r is Ok ==> ({
                &&& final(self).pool == (Pool { is_interacting: true, ..old(self).pool })
                &&& Contract::same_outside_pool(*final(self), *old(self))
            }),
    {
        if self.config.emergency {
            return Err(PoolError::Emergency);
        }
        if now < self.pool.last_prize_update + PRIZE_UPDATE_INTERVAL {
            return Err(PoolError::PrizeUpdateNotDue);
        }
        if self.pool.is_interacting {
            return Err(PoolError::AlreadyInteracting);
        }
        self.pool.is_interacting = true;
        Ok(())
    }

    /// The prize the pool records for a reported external balance: the
    /// excess of that balance over the pool's own ticket counter, clamped
    /// from above by the configured maximum.
    pub open spec fn prize_from_balance(self, staked_balance: u128) -> u128 {
        let excess: u128 = if staked_balance > self.pool.tickets {
            (staked_balance - self.pool.tickets) as u128
        } else {
            0
        };
        if excess > self.config.max_to_raffle {
            self.config.max_to_raffle
        } else {
            excess
        }
    }

    /// The resumption of a prize update.  Always releases the semaphore;
    /// on success it records the prize derived from the reported balance
    /// and the update time, on failure it changes nothing else.
    pub fn update_prize_callback(&mut self, external: ExternalUser, success: bool, now: u64) -> (r:
        u128)
        requires
            old(self).wf(),
        ensures
            final(self).wf(),
            !final(self).pool.is_interacting,
            Contract::same_outside_pool(*final(self), *old(self)),
            !success ==> ({
                &&& r == old(self).pool.prize
                &&& final(self).pool == (Pool { is_interacting: false, ..old(self).pool })
            }),
            success ==> ({
                &&& r == old(self).prize_from_balance(external.staked_balance)
                &&& final(self).pool == (Pool {
                    is_interacting: false,
                    prize: old(self).prize_from_balance(external.staked_balance),
                    last_prize_update: now,
                    ..old(self).pool
                })
            }),
    {
        self.pool.is_interacting = false;
        if !success {
            return self.pool.prize;
        }
        let staked_in_external = external.staked_balance;
        let excess: u128 = if staked_in_external > self.pool.tickets {
            staked_in_external - self.pool.tickets
        } else {
            0
        };
        let prize: u128 = if excess > self.config.max_to_raffle {
            self.config.max_to_raffle
        } else {
            excess
        };
        self.pool.prize = prize;
        self.pool.last_prize_update = now;
        prize
    }

    /// Sets the guardian reserve's share of each prize, a percentage.
    pub fn set_pool_fee(&mut self, fee: u8)
        requires
            old(self).wf(),
            fee <= 100,
        ensures
            final(self).wf(),
            final(self).pool == (Pool { pool_fee: fee, ..old(self).pool }),
            Contract::same_outside_pool(*final(self), *old(self)),
    {
        self.pool.pool_fee = fee;
    }

    /// A copy of the pool's aggregate counters.
    pub fn get_pool_info(&self) -> (r: Pool)
        ensures
            r == self.pool,
    {
        self.pool
    }

    /// The slice of the winner history starting at `from`, at most
    /// `limit` entries long.
    pub fn get_winners(&self, from: u64, limit: u64) -> (r: Vec<Winner>)
        ensures
            r@ == self.winners@.subrange(
                (if from <= self.winners@.len() {
                    from as int
                } else {
                    self.winners@.len() as int
                }),
                (if from + limit <= self.winners@.len() {
                    from + limit
                } else {
                    self.winners@.len() as int
                }),
            ),
    {
        let n = self.winners.len();
        let start: usize = if from >= n as u64 {
            n
        } else {
            from as usize
        };
        let end: usize = if limit >= (n - start) as u64 {
            n
        } else {
            start + (limit as usize)
        };
        let mut out: Vec<Winner> = Vec::new();
        let mut i: usize = start;
        while i < end
            invariant
                start <= i <= end <= n,
                n == self.winners@.len(),
                out@.len() == i - start,
                forall|k: int| 0 <= k < out@.len() ==> out@[k] == self.winners@[start + k],
            decreases end - i,
        {
            let w = Winner(self.winners[i].0.clone(), self.winners[i].1, self.winners[i].2);
            proof {
                assert(w == self.winners@[i as int]);
            }
            out.push(w);
            i = i + 1;
        }
        proof {
            assert(out@ =~= self.winners@.subrange(start as int, end as int));
        }
        out
    }
}

} // verus!
