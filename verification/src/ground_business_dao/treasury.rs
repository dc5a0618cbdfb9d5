//! The internal market, revenue and compensation, and the settings.

use vstd::prelude::*;
use scrypto::types::ComponentAddress;
use crate::assets::{contains_address, Badge, Bucket, Vault};
use crate::error::DaoError;
use crate::fixed::{bounded, mul_checked, Fixed, SCALE};
use crate::ground_business_dao::{
    percent_fraction, rate_fraction, DaoModel, GroundBusinessDAO, Settings,
};
use crate::ground_cv::{distinct_requirements, requirement_ids};
use crate::ground_id::{assert_rate, rate_in_bounds};

verus! {

/// What of an input counts after the swap fee: the amount times one less the
/// fee.
pub open spec fn effective_input(amount: int, fee: int) -> Option<int> {
    match bounded(SCALE - fee) {
        Some(kept) => mul_checked(amount, kept),
        None => None,
    }
}

/// What the market quotes for an effective input of `dx`: `dx` times the
/// other pool's balance, times the sum of the own pool's balance and `dx`,
/// both balances as they are before the trade.
pub open spec fn swap_output(dx: int, own: int, other: int) -> Option<int> {
    match mul_checked(dx, other) {
        Some(a) => match bounded(own + dx) {
            Some(b) => mul_checked(a, b),
            None => None,
        },
        None => None,
    }
}

/// What counts of an input after the swap fee.
pub fn effective_input_of(amount: Fixed, fee: Fixed) -> (r: Option<Fixed>)
    ensures
        r == Fixed::of_checked(effective_input(amount@, fee@)),
{
    match Fixed::one().checked_sub(fee) {
        Some(kept) => amount.checked_mul(kept),
        None => None,
    }
}

/// What the market quotes for an effective input.
pub fn swap_output_of(dx: Fixed, own: Fixed, other: Fixed) -> (r: Option<Fixed>)
    ensures
        r == Fixed::of_checked(swap_output(dx@, own@, other@)),
{
    match dx.checked_mul(other) {
        Some(a) => match own.checked_add(dx) {
            Some(b) => a.checked_mul(b),
            None => None,
        },
        None => None,
    }
}

/// What a swap changes: whether the stable asset came in, what the pool of
/// the asset that came in holds after, and the amount that goes out.
pub struct SwapPlan {
    pub stable_in: bool,
    pub own_after: int,
    pub output: int,
}

/// The list without the first occurrence of `item`, if it has one.
pub open spec fn without_first(list: Seq<u64>, item: u64) -> Seq<u64>
    decreases list.len(),
{
    if list.len() == 0 {
        list
    } else if list[0] == item {
        list.drop_first()
    } else {
        seq![list[0]] + without_first(list.drop_first(), item)
    }
}

/// Where `item` occurs at `i` and not before, the list without its first
/// occurrence is the list without entry `i`.
pub proof fn lemma_without_first_at(list: Seq<u64>, item: u64, i: int)
    requires
        0 <= i < list.len(),
        list[i] == item,
        forall|j: int| 0 <= j < i ==> list[j] != item,
    ensures
        without_first(list, item) == list.remove(i),
    decreases list.len(),
{
    if i == 0 {
        assert(list.remove(0) =~= list.drop_first());
    } else {
        let rest = list.drop_first();
        assert forall|j: int| 0 <= j < i - 1 implies rest[j] != item by {
            assert(rest[j] == list[j + 1]);
        }
        lemma_without_first_at(rest, item, i - 1);
        assert(list.remove(i) =~= seq![list[0]] + rest.remove(i - 1));
    }
}

/// A list in which `item` does not occur is the same without it.
pub proof fn lemma_without_first_absent(list: Seq<u64>, item: u64)
    requires
        !list.contains(item),
    ensures
        without_first(list, item) == list,
    decreases list.len(),
{
    if list.len() > 0 {
        let rest = list.drop_first();
        assert(list[0] != item);
        assert forall|j: int| 0 <= j < rest.len() implies rest[j] != item by {
            assert(rest[j] == list[j + 1]);
        }
        lemma_without_first_absent(rest, item);
        assert(seq![list[0]] + rest =~= list);
    }
}

impl DaoModel {
    /// What `auto_swap` decides for `token`: the plan, or the first check
    /// that fails.
    pub open spec fn swap_plan(self, token: Bucket) -> Result<SwapPlan, DaoError> {
        if token.resource_address != self.treasury.0.resource_address && token.resource_address
            != self.treasury.1.resource_address {
            Err(DaoError::WrongResource)
        } else if token.amount@ < 0 {
            Err(DaoError::InvalidInput)
        } else {
            let stable_in = token.resource_address == self.treasury.0.resource_address;
            let own = if stable_in {
                self.treasury.0.amount@
            } else {
                self.treasury.1.amount@
            };
            let other = if stable_in {
                self.treasury.1.amount@
            } else {
                self.treasury.0.amount@
            };
            match effective_input(token.amount@, self.settings.swap_fee@) {
                None => Err(DaoError::Arithmetic),
                Some(dx) => match swap_output(dx, own, other) {
                    None => Err(DaoError::Arithmetic),
                    Some(output) => if own + token.amount@ > i128::MAX {
                        Err(DaoError::Arithmetic)
                    } else if output > other {
                        Err(DaoError::InsufficientFunds)
                    } else {
                        Ok(SwapPlan { stable_in, own_after: own + token.amount@, output })
                    },
                },
            }
        }
    }

    /// The state after a swap.
    pub open spec fn swapped(self, plan: SwapPlan) -> DaoModel {
        let stable = if plan.stable_in {
            plan.own_after
        } else {
            self.treasury.0.amount@ - plan.output
        };
        let share = if plan.stable_in {
            self.treasury.1.amount@ - plan.output
        } else {
            plan.own_after
        };
        DaoModel {
            treasury: (
                Vault {
                    resource_address: self.treasury.0.resource_address,
                    amount: Fixed::of(stable),
                },
                Vault { resource_address: self.treasury.1.resource_address, amount: Fixed::of(share) },
            ),
            ..self
        }
    }

    /// Whether `badge` shows the organisation's authority.
    pub open spec fn authorised(self, badge: Badge) -> bool {
        badge.resource_address == self.resources.dao_badge
    }

    /// The state with the settings changed to `settings`.
    pub open spec fn with_settings(self, settings: Settings) -> DaoModel {
        DaoModel { settings, ..self }
    }

    /// What a change of a rate answers, for a rate given in percent that is
    /// kept as a fraction: the fraction, or the check that fails.
    pub open spec fn rate_change(self, authority: Badge, rate: int) -> Result<Fixed, DaoError> {
        if !self.authorised(authority) {
            Err(DaoError::WrongResource)
        } else if !rate_in_bounds(rate) {
            Err(DaoError::InvalidInput)
        } else {
            Ok(Fixed::of(percent_fraction(rate)))
        }
    }
}

impl GroundBusinessDAO {
    /// Swaps the bucket for the other asset of the internal market. The fee
    /// is taken off the amount that counts, the whole bucket goes into the
    /// pool of its asset, and the output is the amount that counts, times
    /// the other pool's balance, times the sum of the own pool's balance and
    /// the amount that counts, with both balances as before the trade.
    ///
    /// Refuses a bucket of neither asset (`WrongResource`), a negative
    /// amount (`InvalidInput`), numbers that have no value (`Arithmetic`),
    /// and an output above what the other pool holds (`InsufficientFunds`).
    /// A refusal changes nothing.
    pub fn auto_swap(&mut self, token: Bucket) -> (r: Result<Bucket, DaoError>)
        requires
            old(self).wf(),
        ensures
            final(self).wf(),
            match old(self)@.swap_plan(token) {
                Err(e) => r matches Err(f) && f == e && final(self)@ == old(self)@,
                Ok(plan) => {
                    &&& r == Ok::<Bucket, DaoError>(
                        Bucket {
                            resource_address: if plan.stable_in {
                                old(self).treasury.1.resource_address
                            } else {
                                old(self).treasury.0.resource_address
                            },
                            amount: Fixed::of(plan.output),
                        },
                    )
                    &&& final(self)@ == old(self)@.swapped(plan)
                },
            },
    {
        let stable_in = token.resource_address == self.treasury.0.resource_address;
        if !stable_in && token.resource_address != self.treasury.1.resource_address {
            return Err(DaoError::WrongResource);
        }
        if token.amount.is_negative() {
            return Err(DaoError::InvalidInput);
        }
        let (own, other) = if stable_in {
            (self.treasury.0.amount, self.treasury.1.amount)
        } else {
            (self.treasury.1.amount, self.treasury.0.amount)
        };
        let dx = match effective_input_of(token.amount, self.settings.swap_fee) {
            Some(x) => x,
            None => {
                return Err(DaoError::Arithmetic);
            },
        };
        let dy = match swap_output_of(dx, own, other) {
            Some(y) => y,
            None => {
                return Err(DaoError::Arithmetic);
            },
        };
        let own_after = match own.checked_add(token.amount) {
            Some(a) => a,
            None => {
                return Err(DaoError::Arithmetic);
            },
        };
        if other.lt(&dy) {
            return Err(DaoError::InsufficientFunds);
        }
        let other_after = other.checked_sub(dy).unwrap();
        if stable_in {
            self.treasury.0.amount = own_after;
            self.treasury.1.amount = other_after;
            Ok(Bucket { resource_address: self.treasury.1.resource_address, amount: dy })
        } else {
            self.treasury.1.amount = own_after;
            self.treasury.0.amount = other_after;
            Ok(Bucket { resource_address: self.treasury.0.resource_address, amount: dy })
        }
    }

    /// Puts revenue in the stable asset into the market's stable pool.
    /// Refuses what the vault refuses; a refusal changes nothing.
    pub fn deposit(&mut self, bucket: Bucket) -> (r: Result<(), DaoError>)
        requires
            old(self).wf(),
        ensures
            final(self).wf(),
            match old(self).treasury.0.put_spec(bucket) {
                Err(e) => r == Err::<(), DaoError>(e) && final(self)@ == old(self)@,
                Ok(amount) => r is Ok && final(self)@ == (DaoModel {
                    treasury: (
                        Vault {
                            resource_address: old(self).treasury.0.resource_address,
                            amount: Fixed::of(amount),
                        },
                        old(self).treasury.1,
                    ),
                    ..old(self)@
                }),
            },
    {
        self.treasury.0.put(bucket)
    }

    /// Puts the share asset into the dividend vault, from which dividends
    /// are paid. Refuses what the vault refuses; a refusal changes nothing.
    pub fn deposit_dividend(&mut self, bucket: Bucket) -> (r: Result<(), DaoError>)
        requires
            old(self).wf(),
        ensures
            final(self).wf(),
            match old(self).dividend_vault.put_spec(bucket) {
                Err(e) => r == Err::<(), DaoError>(e) && final(self)@ == old(self)@,
                Ok(amount) => r is Ok && final(self)@ == (DaoModel {
                    dividend_vault: Vault {
                        resource_address: old(self).dividend_vault.resource_address,
                        amount: Fixed::of(amount),
                    },
                    ..old(self)@
                }),
            },
    {
        self.dividend_vault.put(bucket)
    }

    /// Takes `amount` of the stable asset out of the market for the
    /// organisation. Refuses an authority other than the organisation's
    /// (`WrongResource`) and what the vault refuses; a refusal changes
    /// nothing.
    pub fn withdraw(&mut self, authority: &Badge, amount: Fixed) -> (r: Result<Bucket, DaoError>)
        requires
            old(self).wf(),
        ensures
            final(self).wf(),
            r == (if old(self)@.authorised(*authority) {
                old(self).treasury.0.take_spec(amount)
            } else {
                Err(DaoError::WrongResource)
            }),
            match r {
                Err(_) => final(self)@ == old(self)@,
                Ok(_) => final(self)@ == (DaoModel {
                    treasury: (
                        Vault {
                            resource_address: old(self).treasury.0.resource_address,
                            amount: Fixed::of(old(self).treasury.0.amount@ - amount@),
                        },
                        old(self).treasury.1,
                    ),
                    ..old(self)@
                }),
            },
    {
        if authority.resource_address != self.resources.dao_badge {
            return Err(DaoError::WrongResource);
        }
        self.treasury.0.take(amount)
    }

    /// Takes `amount` of the stable asset out of the market for a protocol
    /// that the organisation runs, to compensate its users. Refuses a caller
    /// whose authority is not that of a registered protocol
    /// (`UnauthorizedProtocol`) and what the vault refuses; a refusal
    /// changes nothing.
    pub fn compensate(&mut self, protocol_proof: &Badge, amount: Fixed) -> (r: Result<
        Bucket,
        DaoError,
    >)
        requires
            old(self).wf(),
        ensures
            final(self).wf(),
            r == (if old(self)@.protocols.contains(protocol_proof.resource_address) {
                old(self).treasury.0.take_spec(amount)
            } else {
                Err(DaoError::UnauthorizedProtocol)
            }),
            match r {
                Err(_) => final(self)@ == old(self)@,
                Ok(_) => final(self)@ == (DaoModel {
                    treasury: (
                        Vault {
                            resource_address: old(self).treasury.0.resource_address,
                            amount: Fixed::of(old(self).treasury.0.amount@ - amount@),
                        },
                        old(self).treasury.1,
                    ),
                    ..old(self)@
                }),
            },
    {
        if !contains_address(&self.protocols, protocol_proof.resource_address) {
            return Err(DaoError::UnauthorizedProtocol);
        }
        self.treasury.0.take(amount)
    }

    /// Pays `share` out of the dividend vault to a caller that holds a
    /// registered controller's authority. Refuses another caller
    /// (`UnauthorizedController`) and what the vault refuses; a refusal
    /// changes nothing.
    pub fn take_dividend_delegator(&mut self, controller_proof: &Badge, share: Fixed) -> (r: Result<
        Bucket,
        DaoError,
    >)
        requires
            old(self).wf(),
        ensures
            final(self).wf(),
            r == (if old(self)@.dao_controllers.contains(controller_proof.resource_address) {
                old(self).dividend_vault.take_spec(share)
            } else {
                Err(DaoError::UnauthorizedController)
            }),
            match r {
                Err(_) => final(self)@ == old(self)@,
                Ok(_) => final(self)@ == (DaoModel {
                    dividend_vault: Vault {
                        resource_address: old(self).dividend_vault.resource_address,
                        amount: Fixed::of(old(self).dividend_vault.amount@ - share@),
                    },
                    ..old(self)@
                }),
            },
    {
        if !contains_address(&self.dao_controllers, controller_proof.resource_address) {
            return Err(DaoError::UnauthorizedController);
        }
        self.dividend_vault.take(share)
    }

    /// Registers a protocol's authority. Refuses an authority other than the
    /// organisation's (`WrongResource`).
    pub fn add_protocol(&mut self, authority: &Badge, protocol_controller_address: u64) -> (r: Result<
        (),
        DaoError,
    >)
        requires
            old(self).wf(),
        ensures
            final(self).wf(),
            if old(self)@.authorised(*authority) {
                r is Ok && final(self)@ == (DaoModel {
                    protocols: old(self)@.protocols.push(protocol_controller_address),
                    ..old(self)@
                })
            } else {
                r == Err::<(), DaoError>(DaoError::WrongResource) && final(self)@ == old(self)@
            },
    {
        if authority.resource_address != self.resources.dao_badge {
            return Err(DaoError::WrongResource);
        }
        self.protocols.push(protocol_controller_address);
        Ok(())
    }

    /// Takes a protocol's authority off the register: its first entry, where
    /// it has one. Refuses an authority other than the organisation's
    /// (`WrongResource`).
    pub fn remove_protocol(&mut self, authority: &Badge, protocol_controller_address: u64) -> (r:
        Result<(), DaoError>)
        requires
            old(self).wf(),
        ensures
            final(self).wf(),
            if old(self)@.authorised(*authority) {
                r is Ok && final(self)@ == (DaoModel {
                    protocols: without_first(old(self)@.protocols, protocol_controller_address),
                    ..old(self)@
                })
            } else {
                r == Err::<(), DaoError>(DaoError::WrongResource) && final(self)@ == old(self)@
            },
    {
        if authority.resource_address != self.resources.dao_badge {
            return Err(DaoError::WrongResource);
        }
        let mut i: usize = 0;
        while i < self.protocols.len()
            invariant
                i <= self.protocols.len(),
                self@ == old(self)@,
                old(self).wf(),
                old(self)@.authorised(*authority),
                forall|j: int| 0 <= j < i ==> self.protocols@[j] != protocol_controller_address,
            decreases self.protocols.len() - i,
        {
            if self.protocols[i] == protocol_controller_address {
                proof {
                    lemma_without_first_at(self.protocols@, protocol_controller_address, i as int);
                }
                self.protocols.remove(i);
                return Ok(());
            }
            i = i + 1;
        }
        proof {
            lemma_without_first_absent(self.protocols@, protocol_controller_address);
        }
        Ok(())
    }

    /// Sets the share of a delegator's dividend that goes to the pool, given
    /// in percent. Refuses an authority other than the organisation's
    /// (`WrongResource`) and a rate not above zero and at most one hundred
    /// (`InvalidInput`).
    pub fn change_voting_pool_fee(&mut self, authority: &Badge, new_fee: Fixed) -> (r: Result<
        (),
        DaoError,
    >)
        requires
            old(self).wf(),
        ensures
            final(self).wf(),
            match old(self)@.rate_change(*authority, new_fee@) {
                Err(e) => r == Err::<(), DaoError>(e) && final(self)@ == old(self)@,
                Ok(fraction) => r is Ok && final(self)@ == old(self)@.with_settings(
                    Settings { voting_pool_fee: fraction, ..old(self).settings },
                ),
            },
    {
        if authority.resource_address != self.resources.dao_badge {
            return Err(DaoError::WrongResource);
        }
        match rate_fraction(new_fee) {
            Ok(fraction) => {
                self.settings.voting_pool_fee = fraction;
                Ok(())
            },
            Err(e) => Err(e),
        }
    }

    /// Sets the swap fee, given in percent. Refuses as
    /// `change_voting_pool_fee` does.
    pub fn change_swap_fee(&mut self, authority: &Badge, new_fee: Fixed) -> (r: Result<(), DaoError>)
        requires
            old(self).wf(),
        ensures
            final(self).wf(),
            match old(self)@.rate_change(*authority, new_fee@) {
                Err(e) => r == Err::<(), DaoError>(e) && final(self)@ == old(self)@,
                Ok(fraction) => r is Ok && final(self)@ == old(self)@.with_settings(
                    Settings { swap_fee: fraction, ..old(self).settings },
                ),
            },
    {
        if authority.resource_address != self.resources.dao_badge {
            return Err(DaoError::WrongResource);
        }
        match rate_fraction(new_fee) {
            Ok(fraction) => {
                self.settings.swap_fee = fraction;
                Ok(())
            },
            Err(e) => Err(e),
        }
    }

    /// Sets the dividend rate, given in percent. Refuses as
    /// `change_voting_pool_fee` does.
    pub fn change_dividend_rate(&mut self, authority: &Badge, dividend_rate: Fixed) -> (r: Result<
        (),
        DaoError,
    >)
        requires
            old(self).wf(),
        ensures
            final(self).wf(),
            match old(self)@.rate_change(*authority, dividend_rate@) {
                Err(e) => r == Err::<(), DaoError>(e) && final(self)@ == old(self)@,
                Ok(fraction) => r is Ok && final(self)@ == old(self)@.with_settings(
                    Settings { dividend_rate: fraction, ..old(self).settings },
                ),
            },
    {
        if authority.resource_address != self.resources.dao_badge {
            return Err(DaoError::WrongResource);
        }
        match rate_fraction(dividend_rate) {
            Ok(fraction) => {
                self.settings.dividend_rate = fraction;
                Ok(())
            },
            Err(e) => Err(e),
        }
    }

    /// Sets the gain in voting power for each year committed, given in
    /// percent. Refuses as `change_voting_pool_fee` does.
    pub fn change_year_commited_rate(&mut self, authority: &Badge, year_commited_rate: Fixed) -> (r:
        Result<(), DaoError>)
        requires
            old(self).wf(),
        ensures
            final(self).wf(),
            match old(self)@.rate_change(*authority, year_commited_rate@) {
                Err(e) => r == Err::<(), DaoError>(e) && final(self)@ == old(self)@,
                Ok(fraction) => r is Ok && final(self)@ == old(self)@.with_settings(
                    Settings { year_commited_rate: fraction, ..old(self).settings },
                ),
            },
    {
        if authority.resource_address != self.resources.dao_badge {
            return Err(DaoError::WrongResource);
        }
        match rate_fraction(year_commited_rate) {
            Ok(fraction) => {
                self.settings.year_commited_rate = fraction;
                Ok(())
            },
            Err(e) => Err(e),
        }
    }

    /// Sets the base of the developer reward's growth. Refuses an authority
    /// other than the organisation's (`WrongResource`) and a base not above
    /// zero and at most one hundred (`InvalidInput`).
    pub fn change_dev_expo_reward(&mut self, authority: &Badge, dev_expo_reward: Fixed) -> (r: Result<
        (),
        DaoError,
    >)
        requires
            old(self).wf(),
        ensures
            final(self).wf(),
            if !old(self)@.authorised(*authority) {
                r == Err::<(), DaoError>(DaoError::WrongResource) && final(self)@ == old(self)@
            } else if !rate_in_bounds(dev_expo_reward@) {
                r == Err::<(), DaoError>(DaoError::InvalidInput) && final(self)@ == old(self)@
            } else {
                r is Ok && final(self)@ == old(self)@.with_settings(
                    Settings { dev_expo_reward, ..old(self).settings },
                )
            },
    {
        if authority.resource_address != self.resources.dao_badge {
            return Err(DaoError::WrongResource);
        }
        match assert_rate(dev_expo_reward) {
            Ok(()) => {
                self.settings.dev_expo_reward = dev_expo_reward;
                Ok(())
            },
            Err(e) => Err(e),
        }
    }

    /// Replaces the entry requirement. Refuses an authority other than the
    /// organisation's (`WrongResource`) and a requirement that names a
    /// credential twice (`InvalidInput`).
    pub fn change_member_entry_requirement(
        &mut self,
        authority: &Badge,
        new_requirement: Vec<(u32, u8)>,
    ) -> (r: Result<(), DaoError>)
        requires
            old(self).wf(),
        ensures
            final(self).wf(),
            if !old(self)@.authorised(*authority) {
                r == Err::<(), DaoError>(DaoError::WrongResource) && final(self)@ == old(self)@
            } else if !requirement_ids(new_requirement@).no_duplicates() {
                r == Err::<(), DaoError>(DaoError::InvalidInput) && final(self)@ == old(self)@
            } else {
                r is Ok && final(self)@ == (DaoModel {
                    member_entry_requirement: new_requirement@,
                    ..old(self)@
                })
            },
    {
        if authority.resource_address != self.resources.dao_badge {
            return Err(DaoError::WrongResource);
        }
        if !distinct_requirements(&new_requirement) {
            return Err(DaoError::InvalidInput);
        }
        self.member_entry_requirement = new_requirement;
        Ok(())
    }

    /// Sets the level of the proposal-authorship skill that a proposer must
    /// hold. Refuses an authority other than the organisation's
    /// (`WrongResource`).
    pub fn change_proposal_requirement(&mut self, authority: &Badge, new: u8) -> (r: Result<
        (),
        DaoError,
    >)
        requires
            old(self).wf(),
        ensures
            final(self).wf(),
            if old(self)@.authorised(*authority) {
                r is Ok && final(self)@ == old(self)@.with_settings(
                    Settings { proposal_requirement: new, ..old(self).settings },
                )
            } else {
                r == Err::<(), DaoError>(DaoError::WrongResource) && final(self)@ == old(self)@
            },
    {
        if authority.resource_address != self.resources.dao_badge {
            return Err(DaoError::WrongResource);
        }
        self.settings.proposal_requirement = new;
        Ok(())
    }

    /// Sets the most years that a stake may be committed for. Refuses an
    /// authority other than the organisation's (`WrongResource`).
    pub fn change_year_cap(&mut self, authority: &Badge, year_cap: u8) -> (r: Result<(), DaoError>)
        requires
            old(self).wf(),
        ensures
            final(self).wf(),
            if old(self)@.authorised(*authority) {
                r is Ok && final(self)@ == old(self)@.with_settings(
                    Settings { year_cap, ..old(self).settings },
                )
            } else {
                r == Err::<(), DaoError>(DaoError::WrongResource) && final(self)@ == old(self)@
            },
    {
        if authority.resource_address != self.resources.dao_badge {
            return Err(DaoError::WrongResource);
        }
        self.settings.year_cap = year_cap;
        Ok(())
    }

    /// Sets the seconds between the start of unstaking and the withdrawal.
    /// Refuses an authority other than the organisation's (`WrongResource`).
    pub fn change_unstake_delay(&mut self, authority: &Badge, unstake_delay: u64) -> (r: Result<
        (),
        DaoError,
    >)
        requires
            old(self).wf(),
        ensures
            final(self).wf(),
            if old(self)@.authorised(*authority) {
                r is Ok && final(self)@ == old(self)@.with_settings(
                    Settings { unstake_delay, ..old(self).settings },
                )
            } else {
                r == Err::<(), DaoError>(DaoError::WrongResource) && final(self)@ == old(self)@
            },
    {
        if authority.resource_address != self.resources.dao_badge {
            return Err(DaoError::WrongResource);
        }
        self.settings.unstake_delay = unstake_delay;
        Ok(())
    }

    pub fn pool_fee(&self) -> (r: Fixed)
        ensures
            r == self.settings.voting_pool_fee,
    {
        self.settings.voting_pool_fee
    }

    pub fn stable_coin_address(&self) -> (r: u64)
        ensures
            r == self.treasury.0.resource_address,
    {
        self.treasury.0.resource_address
    }

    pub fn dao_share_address(&self) -> (r: u64)
        ensures
            r == self.stake_vault.resource_address,
    {
        self.stake_vault.resource_address
    }

    pub fn unstake_delay(&self) -> (r: u64)
        ensures
            r == self.settings.unstake_delay,
    {
        self.settings.unstake_delay
    }

    pub fn proposal_id_counter(&self) -> (r: u64)
        ensures
            r == self.proposal_id_counter,
    {
        self.proposal_id_counter
    }

    pub fn year_cap(&self) -> (r: u8)
        ensures
            r == self.settings.year_cap,
    {
        self.settings.year_cap
    }
}

impl GroundBusinessDAO {
    /// Changes the time oracle in use: notes its address, hands back the
    /// badge shown to the oracle so far, and keeps `data_badge` to show from
    /// now on.
    ///
    /// Refuses an authority other than the organisation's, and a badge of
    /// another resource than the one kept so far (`WrongResource`), and a
    /// negative amount (`InvalidInput`). A refusal changes nothing.
    pub fn use_oracle(&mut self, authority: &Badge, oracle: ComponentAddress, data_badge: Bucket) -> (r:
        Result<Bucket, DaoError>)
        requires
            old(self).wf(),
        ensures
            final(self).wf(),
            if !old(self)@.authorised(*authority) || data_badge.resource_address
                != old(self).oracle.1.resource_address {
                r == Err::<Bucket, DaoError>(DaoError::WrongResource) && final(self)@ == old(self)@
            } else if data_badge.amount@ < 0 {
                r == Err::<Bucket, DaoError>(DaoError::InvalidInput) && final(self)@ == old(self)@
            } else {
                &&& r == Ok::<Bucket, DaoError>(
                    Bucket {
                        resource_address: old(self).oracle.1.resource_address,
                        amount: old(self).oracle.1.amount,
                    },
                )
                &&& final(self)@ == (DaoModel {
                    oracle: (
                        oracle,
                        Vault {
                            resource_address: old(self).oracle.1.resource_address,
                            amount: data_badge.amount,
                        },
                    ),
                    ..old(self)@
                })
            },
    {
        if authority.resource_address != self.resources.dao_badge || data_badge.resource_address
            != self.oracle.1.resource_address {
            return Err(DaoError::WrongResource);
        }
        if data_badge.amount.is_negative() {
            return Err(DaoError::InvalidInput);
        }
        let shown = self.oracle.1.take_all();
        self.oracle.0 = oracle;
        self.oracle.1.amount = data_badge.amount;
        Ok(shown)
    }
}

} // verus!
