//! The external-interaction coordinator: the single-flight semaphore and
//! the two-phase unstake / withdraw protocol against the external staking
//! service.
//!
//! Each external interaction is a pair of steps.  The request step takes
//! the semaphore, speculatively advances a counter where the protocol
//! needs it, and tells the caller which external call to make.  The
//! resumption step — run later, after the external call resolved — either
//! commits the interaction's effect or undoes the speculative advance,
//! and always releases the semaphore so a failure can never wedge the
//! pool.

use vstd::prelude::*;

use crate::pool::Pool;
use crate::Action;
use crate::Contract;
use crate::PoolError;

verus! {

/// Taking the single-flight semaphore: refused while an interaction is
/// already in flight.
pub open spec fn begin_interaction(p: Pool) -> Result<Pool, PoolError> {
    if p.is_interacting {
        Err(PoolError::AlreadyInteracting)
    } else {
        Ok(Pool { is_interacting: true, ..p })
    }
}

/// Releasing the single-flight semaphore: always succeeds.
pub open spec fn end_interaction(p: Pool) -> Pool {
    Pool { is_interacting: false, ..p }
}

/// The request step of an external unstake: only meaningful when
/// something is queued, takes the semaphore and speculatively opens the
/// next withdraw turn.
pub open spec fn unstake_request(p: Pool) -> Result<Pool, PoolError> {
    if p.to_unstake == 0 {
        Err(PoolError::NothingToUnstake)
    } else if p.is_interacting {
        Err(PoolError::AlreadyInteracting)
    } else {
        Ok(
            Pool {
                is_interacting: true,
                next_withdraw_turn: (p.next_withdraw_turn + 1) as u64,
                ..p
            },
        )
    }
}

/// The resumption of a failed external unstake: undoes the speculative
/// turn advance and releases the semaphore.
pub open spec fn unstake_fail(p: Pool) -> Pool {
    Pool {
        is_interacting: false,
        next_withdraw_turn: (p.next_withdraw_turn - 1) as u64,
        ..p
    }
}

/// The resumption of a successful external unstake: the unstaked amount
/// leaves the pool's ticket counter and the unstake queue (saturating as
/// best-effort containment), the withdrawal cooldown starts, and the
/// semaphore is released.
pub open spec fn unstake_commit(p: Pool, amount: u128, epoch: u64, epochs_wait: u64) -> Pool {
    Pool {
        is_interacting: false,
        tickets: p.tickets.saturating_sub(amount),
        to_unstake: p.to_unstake.saturating_sub(amount),
        next_withdraw_epoch: (epoch + epochs_wait) as u64,
        ..p
    }
}

/// The request step of an external withdrawal: only once the cooldown
/// elapsed, and takes the semaphore.
pub open spec fn withdraw_request(p: Pool, epoch: u64) -> Result<Pool, PoolError> {
    if epoch < p.next_withdraw_epoch {
        Err(PoolError::EpochNotReached)
    } else if p.is_interacting {
        Err(PoolError::AlreadyInteracting)
    } else {
        Ok(Pool { is_interacting: true, ..p })
    }
}

/// The resumption of a failed external withdrawal: steps the cooldown
/// boundary one epoch back and releases the semaphore.
pub open spec fn withdraw_fail(p: Pool) -> Pool {
    Pool {
        is_interacting: false,
        next_withdraw_epoch: (p.next_withdraw_epoch - 1) as u64,
        ..p
    }
}

/// The resumption of a successful external withdrawal: opens the next
/// withdraw cohort and releases the semaphore.
pub open spec fn withdraw_commit(p: Pool) -> Pool {
    Pool {
        is_interacting: false,
        next_withdraw_turn: (p.next_withdraw_turn + 1) as u64,
        ..p
    }
}

/// The semaphore is exclusive and its release is harmless: taking it
/// twice without a release in between fails the second time, and
/// releasing it is idempotent (and, being total, always succeeds).
pub proof fn lemma_semaphore_exclusive(p: Pool)
    ensures
        begin_interaction(p) matches Ok(q) ==> begin_interaction(q) == Err::<
            Pool,
            PoolError,
        >(PoolError::AlreadyInteracting),
        end_interaction(end_interaction(p)) == end_interaction(p),
{
}

/// A failed external unstake rolls the pool back exactly: the turn
/// counter, the semaphore, and every other counter return to their
/// values from just before the request.
pub proof fn lemma_unstake_rollback_exact(p: Pool)
    requires
        p.next_withdraw_turn < u64::MAX,
    ensures
        unstake_request(p) matches Ok(q) ==> unstake_fail(q) == p,
{
}

/// A failed external withdrawal leaves the cooldown boundary exactly one
/// epoch below its value from before the request (the request itself
/// advances nothing), and restores everything else.
pub proof fn lemma_withdraw_failure_effect(p: Pool, epoch: u64)
    ensures
        withdraw_request(p, epoch) matches Ok(q) ==> withdraw_fail(q) == (Pool {
            next_withdraw_epoch: (p.next_withdraw_epoch - 1) as u64,
            ..p
        }),
{
}

impl Contract {
    /// Which external interaction `interact_external` performs, with
    /// what amount, or why it refuses.
    pub open spec fn interact_check(self, epoch: u64) -> Result<(Action, u128), PoolError> {
        if self.config.emergency {
            Err(PoolError::Emergency)
        } else {
            match self.next_action {
                Action::Unstake => match unstake_request(self.pool) {
                    Ok(q) => Ok((Action::Unstake, self.pool.to_unstake)),
                    Err(e) => Err(e),
                },
                Action::Withdraw => match withdraw_request(self.pool, epoch) {
                    Ok(q) => Ok((Action::Withdraw, 0)),
                    Err(e) => Err(e),
                },
            }
        }
    }

    /// Takes the single-flight semaphore.
    pub fn start_interacting(&mut self) -> (r: Result<(), PoolError>)
        ensures
            old(self).wf() ==> final(self).wf(),
            Contract::same_outside_pool(*final(self), *old(self)),
            begin_interaction(old(self).pool) matches Ok(q) ==> r is Ok && final(self).pool == q,
            begin_interaction(old(self).pool) matches Err(e) ==> r == Err::<(), PoolError>(e)
                && *final(self) == *old(self),
    {
        if self.pool.is_interacting {
            return Err(PoolError::AlreadyInteracting);
        }
        self.pool.is_interacting = true;
        Ok(())
    }

    /// Releases the single-flight semaphore, whatever its state.
    pub fn stop_interacting(&mut self)
        ensures
            old(self).wf() ==> final(self).wf(),
            Contract::same_outside_pool(*final(self), *old(self)),
            final(self).pool == end_interaction(old(self).pool),
    {
        self.pool.is_interacting = false;
    }

    /// Performs the protocol's next external interaction: an unstake of
    /// everything queued, or a withdrawal once the cooldown elapsed —
    /// the order is the coordinator's, not the caller's.  On success the
    /// caller must make the named external call and later report its
    /// outcome to the matching resumption.
    pub fn interact_external(&mut self, epoch: u64) -> (r: Result<(Action, u128), PoolError>)
        requires
            old(self).wf(),
            old(self).next_action is Unstake ==> old(self).pool.next_withdraw_turn < u64::MAX,
        ensures
            final(self).wf(),
            r == old(self).interact_check(epoch),
            r is Err ==> *final(self) == *old(self),
            Contract::same_outside_pool(*final(self), *old(self)),
            (r is Ok && old(self).next_action is Unstake) ==> unstake_request(old(self).pool)
                == Ok::<Pool, PoolError>(final(self).pool),
            (r is Ok && old(self).next_action is Withdraw) ==> withdraw_request(
                old(self).pool,
                epoch,
            ) == Ok::<Pool, PoolError>(final(self).pool),
    {
        if self.config.emergency {
            return Err(PoolError::Emergency);
        }
        match self.next_action {
            Action::Unstake => match self.unstake_external() {
                Ok(amount) => Ok((Action::Unstake, amount)),
                Err(e) => Err(e),
            },
            Action::Withdraw => match self.withdraw_external(epoch) {
                Ok(_) => Ok((Action::Withdraw, 0)),
                Err(e) => Err(e),
            },
        }
    }

    /// The request step of the external unstake: queue checked, semaphore
    /// taken, next withdraw turn speculatively opened.  Returns the
    /// amount the caller must ask the external service to unstake and
    /// later hand to `unstake_external_callback`.
    fn unstake_external(&mut self) -> (r: Result<u128, PoolError>)
        requires
            old(self).wf(),
            old(self).pool.next_withdraw_turn < u64::MAX,
        ensures
            final(self).wf(),
            Contract::same_outside_pool(*final(self), *old(self)),
            unstake_request(old(self).pool) matches Ok(q) ==> r == Ok::<u128, PoolError>(
                old(self).pool.to_unstake,
            ) && final(self).pool == q,
            unstake_request(old(self).pool) matches Err(e) ==> r == Err::<u128, PoolError>(e)
                && *final(self) == *old(self),
    {
        if self.pool.to_unstake == 0 {
            return Err(PoolError::NothingToUnstake);
        }
        if self.pool.is_interacting {
            return Err(PoolError::AlreadyInteracting);
        }
        self.pool.is_interacting = true;
        self.pool.next_withdraw_turn = self.pool.next_withdraw_turn + 1;
        Ok(self.pool.to_unstake)
    }

    /// The resumption of the external unstake.  On failure the
    /// speculative turn advance is undone; on success the unstaked
    /// amount leaves the counters, the cooldown starts, and the protocol
    /// toggles to withdrawal.  The semaphore is released either way.
    pub fn unstake_external_callback(&mut self, amount: u128, success: bool, epoch: u64)
        requires
            old(self).wf(),
            !success ==> old(self).pool.next_withdraw_turn >= 1,
            success ==> epoch + old(self).config.epochs_wait <= u64::MAX,
        ensures
            final(self).wf(),
            !final(self).pool.is_interacting,
            Contract::same_outside_coordinator(*final(self), *old(self)),
            !success ==> final(self).pool == unstake_fail(old(self).pool)
                && final(self).next_action == old(self).next_action,
            success ==> final(self).pool == unstake_commit(
                old(self).pool,
                amount,
                epoch,
                old(self).config.epochs_wait,
            ) && final(self).next_action is Withdraw,
    {
        if !success {
            // undo the speculative turn advance
            self.pool.next_withdraw_turn = self.pool.next_withdraw_turn - 1;
        } else {
            self.pool.tickets = self.pool.tickets.saturating_sub(amount);
            self.pool.next_withdraw_epoch = epoch + self.config.epochs_wait;
            // next time we want to withdraw
            self.next_action = Action::Withdraw;
            self.pool.to_unstake = self.pool.to_unstake.saturating_sub(amount);
        }
        self.stop_interacting();
    }

    /// The request step of the external withdrawal: cooldown checked,
    /// semaphore taken.  On success the caller must ask the external
    /// service to withdraw everything and later report to
    /// `withdraw_external_callback`.
    fn withdraw_external(&mut self, epoch: u64) -> (r: Result<(), PoolError>)
        requires
            old(self).wf(),
        ensures
            final(self).wf(),
            Contract::same_outside_pool(*final(self), *old(self)),
            withdraw_request(old(self).pool, epoch) matches Ok(q) ==> r is Ok && final(self).pool
                == q,
            withdraw_request(old(self).pool, epoch) matches Err(e) ==> r == Err::<(), PoolError>(e)
                && *final(self) == *old(self),
    {
        if epoch < self.pool.next_withdraw_epoch {
            return Err(PoolError::EpochNotReached);
        }
        if self.pool.is_interacting {
            return Err(PoolError::AlreadyInteracting);
        }
        self.pool.is_interacting = true;
        Ok(())
    }

    /// The resumption of the external withdrawal.  On failure the
    /// cooldown boundary steps one epoch back; on success the next
    /// withdraw cohort opens and the protocol toggles back to unstaking.
    /// The semaphore is released either way, and the outcome is passed
    /// through.
    pub fn withdraw_external_callback(&mut self, success: bool) -> (r: bool)
        requires
            old(self).wf(),
            !success ==> old(self).pool.next_withdraw_epoch >= 1,
            success ==> old(self).pool.next_withdraw_turn < u64::MAX,
        ensures
            final(self).wf(),
            r == success,
            !final(self).pool.is_interacting,
            Contract::same_outside_coordinator(*final(self), *old(self)),
            !success ==> final(self).pool == withdraw_fail(old(self).pool)
                && final(self).next_action == old(self).next_action,
            success ==> final(self).pool == withdraw_commit(old(self).pool)
                && final(self).next_action is Unstake,
    {
        self.stop_interacting();
        if !success {
            // step the cooldown boundary back
            self.pool.next_withdraw_epoch = self.pool.next_withdraw_epoch - 1;
            false
        } else {
            self.next_action = Action::Unstake;
            self.pool.next_withdraw_turn = self.pool.next_withdraw_turn + 1;
            true
        }
    }
}

} // verus!
