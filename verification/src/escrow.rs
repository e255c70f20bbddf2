//! The escrow offer engine: offers lock assets from a creator until the
//! recipient pays the expected assets (and satisfies the oracle conditions,
//! if any), cancels, or lets the offer expire.
//!
//! The external runtime is modelled at the boundary: each endpoint takes the
//! caller, the clock and the attached payments as plain values, and returns
//! the asset transfers the runtime must perform. Accounts and asset
//! identifiers are plain integers; amounts are unsigned integers wide enough
//! for any practical custody balance.

use vstd::prelude::*;
use crate::errors::LedgerError;

verus! {

/// One line of assets: an asset identifier and an amount. Value object.
#[derive(Clone, Copy, Debug, PartialEq, Eq, Structural)]
pub struct TokenAmount {
    pub token_identifier: u64,
    pub amount: u128,
}

/// An external attestation requirement: reading `data_key` at
/// `oracle_address` must return exactly `expected_value`.
#[derive(Debug)]
pub struct OracleCondition {
    pub oracle_address: u64,
    pub data_key: Vec<u8>,
    pub expected_value: Vec<u8>,
}

/// Lifecycle of an offer. `Active` is the only non-terminal status.
#[derive(Clone, Copy, Debug, PartialEq, Eq, Structural)]
pub enum OfferStatus {
    Active,
    Completed,
    Cancelled,
    Expired,
}

/// An escrow record: assets locked by a creator, assets expected from the
/// recipient, optional oracle gating, and a lifecycle status.
#[derive(Debug)]
pub struct Offer {
    pub offer_id: u64,
    pub creator: u64,
    pub recipient: u64,
    pub offered_tokens: Vec<TokenAmount>,
    pub expected_tokens: Vec<TokenAmount>,
    pub creation_timestamp: u64,
    pub expiration_timestamp: u64,
    pub status: OfferStatus,
    pub platform_fee: u128,
    pub oracle_conditions: Option<Vec<OracleCondition>>,
}

/// One asset movement out of ledger custody, to be performed by the runtime.
#[derive(Clone, Copy, Debug, PartialEq, Eq, Structural)]
pub struct Transfer {
    pub to: u64,
    pub token_identifier: u64,
    pub amount: u128,
}

/// The escrow engine's durable state.
pub struct TokenEscrow {
    pub owner: u64,
    pub platform_fee_percentage: u128,
    pub offer_id_counter: u64,
    pub offers: Vec<Offer>,
}

impl TokenEscrow {
    /// Every offer id was assigned from the counter, so ids are strictly
    /// increasing along the ledger and never exceed the counter; the fee
    /// percentage respects its cap.
    pub open spec fn wf(self) -> bool {
        &&& self.platform_fee_percentage <= 5
        &&& forall|i: int, j: int|
                0 <= i < j < self.offers@.len() ==> self.offers@[i].offer_id < self.offers@[j].offer_id
        &&& forall|i: int|
                0 <= i < self.offers@.len() ==> 1 <= #[trigger] self.offers@[i].offer_id <= self.offer_id_counter
    }

    /// Fresh ledger: a one-percent platform fee, the deploying caller as
    /// owner, and no offers yet.
    pub fn init(caller: u64) -> (r: TokenEscrow)
        ensures
            r.owner == caller,
            r.platform_fee_percentage == 1,
            r.offer_id_counter == 0,
            r.offers@.len() == 0,
            r.wf(),
    {
        TokenEscrow {
            owner: caller,
            platform_fee_percentage: 1,
            offer_id_counter: 0,
            offers: Vec::new(),
        }
    }
}

/// Whether some offer in the ledger carries this id.
pub open spec fn has_offer(offers: Seq<Offer>, offer_id: u64) -> bool {
    exists|i: int| 0 <= i < offers.len() && offers[i].offer_id == offer_id
}

/// The index of the offer with this id; under `wf` the match is unique.
pub open spec fn offer_index(offers: Seq<Offer>, offer_id: u64) -> int {
    choose|i: int| 0 <= i < offers.len() && offers[i].offer_id == offer_id
}

impl TokenEscrow {
    /// Linear scan for the offer with this id; `None` when absent.
    pub fn get_offer_index_by_id(&self, offer_id: u64) -> (r: Option<usize>)
        requires
            self.wf(),
        ensures
            match r {
                Some(i) => has_offer(self.offers@, offer_id)
                    && i == offer_index(self.offers@, offer_id)
                    && i < self.offers@.len()
                    && self.offers@[i as int].offer_id == offer_id,
                None => !has_offer(self.offers@, offer_id),
            },
    {
        let mut i: usize = 0;
        while i < self.offers.len()
            invariant
                self.wf(),
                i <= self.offers@.len(),
                forall|j: int| 0 <= j < i ==> self.offers@[j].offer_id != offer_id,
            decreases self.offers@.len() - i,
        {
            if self.offers[i].offer_id == offer_id {
                proof {
                    lemma_offer_index_unique(self.offers@, offer_id, i as int);
                }
                return Some(i);
            }
            i += 1;
        }
        None
    }
}

/// The platform fee of one asset line: `amount * fee_percent / 100`,
/// with truncating division.
pub open spec fn line_fee(amount: u128, pct: u128) -> int {
    amount * pct / 100
}

/// The platform fee of an offer: the line fees of all offered assets,
/// summed. A single scalar aggregated across all lines regardless of
/// asset type.
pub open spec fn total_fee(tokens: Seq<TokenAmount>, pct: u128) -> int
    decreases tokens.len(),
{
    if tokens.len() == 0 {
        0
    } else {
        total_fee(tokens.drop_last(), pct) + line_fee(tokens.last().amount, pct)
    }
}

/// Room for the fee computation: each line fee's product and the aggregate
/// sum stay within the amount type.
pub open spec fn fee_fits(tokens: Seq<TokenAmount>, pct: u128) -> bool {
    &&& forall|k: int| 0 <= k < tokens.len() ==> #[trigger] tokens[k].amount * pct <= u128::MAX
    &&& total_fee(tokens, pct) <= u128::MAX
}

proof fn lemma_total_fee_nonneg(tokens: Seq<TokenAmount>, pct: u128)
    ensures
        total_fee(tokens, pct) >= 0,
    decreases tokens.len(),
{
    if tokens.len() > 0 {
        lemma_total_fee_nonneg(tokens.drop_last(), pct);
    }
}

/// Summing one more line extends the aggregate by that line's fee.
proof fn lemma_total_fee_take_succ(tokens: Seq<TokenAmount>, pct: u128, i: int)
    requires
        0 <= i < tokens.len(),
    ensures
        total_fee(tokens.take(i + 1), pct)
            == total_fee(tokens.take(i), pct) + line_fee(tokens[i].amount, pct),
{
    assert(tokens.take(i + 1).drop_last() =~= tokens.take(i));
    assert(tokens.take(i + 1).last() == tokens[i]);
}

/// Every prefix sum stays below the whole: the terms are non-negative.
proof fn lemma_total_fee_prefix_bound(tokens: Seq<TokenAmount>, pct: u128, i: int)
    requires
        0 <= i <= tokens.len(),
    ensures
        total_fee(tokens.take(i), pct) <= total_fee(tokens, pct),
    decreases tokens.len() - i,
{
    if i == tokens.len() {
        assert(tokens.take(i) =~= tokens);
    } else {
        lemma_total_fee_take_succ(tokens, pct, i);
        lemma_total_fee_prefix_bound(tokens, pct, i + 1);
    }
}

/// An offer as it would stand with another status, all else equal.
pub open spec fn with_status(o: Offer, status: OfferStatus) -> Offer {
    Offer {
        offer_id: o.offer_id,
        creator: o.creator,
        recipient: o.recipient,
        offered_tokens: o.offered_tokens,
        expected_tokens: o.expected_tokens,
        creation_timestamp: o.creation_timestamp,
        expiration_timestamp: o.expiration_timestamp,
        status: status,
        platform_fee: o.platform_fee,
        oracle_conditions: o.oracle_conditions,
    }
}

impl TokenEscrow {
    /// Opens an offer. The attached `payments` are already in ledger
    /// custody (the runtime moved them before this logic runs) and are
    /// snapshotted verbatim as the offered assets; `expected_tokens` and
    /// the optional `oracle_conditions` are recorded verbatim. The platform
    /// fee is fixed here, once, as `total_fee` of the offered assets, and
    /// never recomputed. Fails with `ValidationError` — and changes nothing
    /// — exactly when the expiration is not in the future; the runtime then
    /// returns the attached payments with the aborted call.
    pub fn create_offer(
        &mut self,
        caller: u64,
        payments: Vec<TokenAmount>,
        recipient: u64,
        expected_tokens: Vec<TokenAmount>,
        expiration_timestamp: u64,
        oracle_conditions: Option<Vec<OracleCondition>>,
        now: u64,
    ) -> (r: Result<u64, LedgerError>)
        requires
            old(self).wf(),
            old(self).offer_id_counter < u64::MAX,
            fee_fits(payments@, old(self).platform_fee_percentage),
        ensures
            final(self).wf(),
            expiration_timestamp <= now ==> r == Err::<u64, LedgerError>(LedgerError::ValidationError)
                && *final(self) == *old(self),
            expiration_timestamp > now ==> {
                &&& r == Ok::<u64, LedgerError>((old(self).offer_id_counter + 1) as u64)
                &&& final(self).offer_id_counter == old(self).offer_id_counter + 1
                &&& final(self).offers@ == old(self).offers@.push(
                    (Offer {
                        offer_id: (old(self).offer_id_counter + 1) as u64,
                        creator: caller,
                        recipient: recipient,
                        offered_tokens: payments,
                        expected_tokens: expected_tokens,
                        creation_timestamp: now,
                        expiration_timestamp: expiration_timestamp,
                        status: OfferStatus::Active,
                        platform_fee: total_fee(payments@, old(self).platform_fee_percentage) as u128,
                        oracle_conditions: oracle_conditions,
                    }),
                )
                &&& final(self).owner == old(self).owner
                &&& final(self).platform_fee_percentage == old(self).platform_fee_percentage
            },
    {
        if expiration_timestamp <= now {
            return Err(LedgerError::ValidationError);
        }

        let fee_percentage = self.platform_fee_percentage;
        let ghost all = payments@;
        let mut fee_acc: u128 = 0;
        let mut k: usize = 0;
        proof {
            assert(all.take(0) =~= Seq::<TokenAmount>::empty());
        }
        while k < payments.len()
            invariant
                all == payments@,
                fee_percentage == self.platform_fee_percentage,
                fee_fits(all, fee_percentage),
                k <= all.len(),
                fee_acc == total_fee(all.take(k as int), fee_percentage),
            decreases all.len() - k,
        {
            proof {
                lemma_total_fee_take_succ(all, fee_percentage, k as int);
                lemma_total_fee_prefix_bound(all, fee_percentage, k + 1);
                lemma_total_fee_nonneg(all.take(k as int), fee_percentage);
                vstd::arithmetic::div_mod::lemma_div_pos_is_pos(
                    all[k as int].amount * fee_percentage as int,
                    100,
                );
            }
            let line = payments[k].amount * fee_percentage / 100;
            fee_acc = fee_acc + line;
            k += 1;
        }
        proof {
            assert(all.take(all.len() as int) =~= all);
        }

        let offer_id = self.offer_id_counter + 1;
        self.offer_id_counter = offer_id;

        let offer = Offer {
            offer_id: offer_id,
            creator: caller,
            recipient: recipient,
            offered_tokens: payments,
            expected_tokens: expected_tokens,
            creation_timestamp: now,
            expiration_timestamp: expiration_timestamp,
            status: OfferStatus::Active,
            platform_fee: fee_acc,
            oracle_conditions: oracle_conditions,
        };
        self.offers.push(offer);
        proof {
            let offers = self.offers@;
            assert forall|i: int, j: int| 0 <= i < j < offers.len()
                implies offers[i].offer_id < offers[j].offer_id
            by {
                if j == offers.len() - 1 {
                    assert(old(self).offers@[i].offer_id <= old(self).offer_id_counter);
                }
            }
        }
        Ok(offer_id)
    }
}

/// Whether refunding or paying out this offer would underflow: the
/// aggregate fee is subtracted from every asset line, so a line smaller
/// than the fee cannot be moved.
pub open spec fn refund_underflows(o: Offer) -> bool {
    exists|k: int| 0 <= k < o.offered_tokens@.len() && o.offered_tokens@[k].amount < o.platform_fee
}

/// One transfer per asset line, each of `amount - fee`.
pub open spec fn deducted_transfers(tokens: Seq<TokenAmount>, fee: u128, to: u64) -> Seq<Transfer> {
    Seq::new(
        tokens.len(),
        |k: int| (Transfer {
            to: to,
            token_identifier: tokens[k].token_identifier,
            amount: (tokens[k].amount - fee) as u128,
        }),
    )
}

/// The asset movements that release an offer's locked assets to `to`:
/// one transfer per offered line, each of `amount - platform_fee` — the
/// aggregate fee is retained once per line as platform revenue.
pub open spec fn release_transfers(o: Offer, to: u64) -> Seq<Transfer> {
    deducted_transfers(o.offered_tokens@, o.platform_fee, to)
}

impl TokenEscrow {
    /// Builds the transfer list that releases the locked assets of the
    /// offer at index `i` to `to`, fee-deducted per asset line. Returns
    /// `ArithmeticError` — with nothing moved — when any line is smaller
    /// than the aggregate fee.
    fn build_release_transfers(&self, i: usize, to: u64) -> (r: Result<
        Vec<Transfer>,
        LedgerError,
    >)
        requires
            i < self.offers@.len(),
        ensures
            refund_underflows(self.offers@[i as int])
                ==> r == Err::<Vec<Transfer>, LedgerError>(LedgerError::ArithmeticError),
            !refund_underflows(self.offers@[i as int]) ==> (r matches Ok(ts) && ts@
                == release_transfers(self.offers@[i as int], to)),
    {
        let ghost o = self.offers@[i as int];
        let offer = &self.offers[i];
        let mut ts: Vec<Transfer> = Vec::new();
        let mut k: usize = 0;
        while k < offer.offered_tokens.len()
            invariant
                offer == self.offers@[i as int],
                o == self.offers@[i as int],
                k <= o.offered_tokens@.len(),
                ts@.len() == k,
                forall|m: int| 0 <= m < k ==> o.offered_tokens@[m].amount >= o.platform_fee,
                forall|m: int| 0 <= m < k ==> ts@[m] == release_transfers(o, to)[m],
            decreases o.offered_tokens@.len() - k,
        {
            let line = offer.offered_tokens[k];
            if line.amount < offer.platform_fee {
                return Err(LedgerError::ArithmeticError);
            }
            ts.push(
                Transfer {
                    to: to,
                    token_identifier: line.token_identifier,
                    amount: line.amount - offer.platform_fee,
                },
            );
            k += 1;
        }
        proof {
            assert(ts@ =~= release_transfers(o, to));
        }
        Ok(ts)
    }

    /// Cancels an offer: only its creator may cancel, only while it is
    /// `Active`. The locked assets go back to the creator, each line minus
    /// the aggregate `platform_fee`; the fee portion stays in custody as
    /// platform revenue. On any error nothing changes. The status check
    /// comes before the authorization check, so a terminal offer reports
    /// `StateError` to everyone.
    pub fn cancel_offer(&mut self, caller: u64, offer_id: u64) -> (r: Result<
        Vec<Transfer>,
        LedgerError,
    >)
        requires
            old(self).wf(),
        ensures
            final(self).wf(),
            !has_offer(old(self).offers@, offer_id) ==> r == Err::<Vec<Transfer>, LedgerError>(
                LedgerError::StateError,
            ) && *final(self) == *old(self),
            has_offer(old(self).offers@, offer_id) ==> {
                let i = offer_index(old(self).offers@, offer_id);
                let o = old(self).offers@[i];
                &&& !(o.status is Active) ==> r == Err::<Vec<Transfer>, LedgerError>(
                    LedgerError::StateError,
                ) && *final(self) == *old(self)
                &&& o.status is Active && o.creator != caller ==> r == Err::<
                    Vec<Transfer>,
                    LedgerError,
                >(LedgerError::AuthorizationError) && *final(self) == *old(self)
                &&& o.status is Active && o.creator == caller && refund_underflows(o) ==> r
                    == Err::<Vec<Transfer>, LedgerError>(LedgerError::ArithmeticError)
                    && *final(self) == *old(self)
                &&& o.status is Active && o.creator == caller && !refund_underflows(o) ==> {
                    &&& r matches Ok(ts) && ts@ == release_transfers(o, o.creator)
                    &&& final(self).offers@ == old(self).offers@.update(
                        i,
                        with_status(o, OfferStatus::Cancelled),
                    )
                    &&& final(self).owner == old(self).owner
                    &&& final(self).platform_fee_percentage == old(self).platform_fee_percentage
                    &&& final(self).offer_id_counter == old(self).offer_id_counter
                }
            },
    {
        let i = match self.get_offer_index_by_id(offer_id) {
            Some(i) => i,
            None => {
                return Err(LedgerError::StateError);
            },
        };
        if !(self.offers[i].status == OfferStatus::Active) {
            return Err(LedgerError::StateError);
        }
        if self.offers[i].creator != caller {
            return Err(LedgerError::AuthorizationError);
        }

        let creator = self.offers[i].creator;
        let ts = match self.build_release_transfers(i, creator) {
            Ok(ts) => ts,
            Err(e) => {
                return Err(e);
            },
        };

        self.offers[i].status = OfferStatus::Cancelled;
        proof {
            let o = old(self).offers@[i as int];
            assert(self.offers@[i as int] == with_status(o, OfferStatus::Cancelled));
            assert(self.offers@ =~= old(self).offers@.update(
                i as int,
                with_status(o, OfferStatus::Cancelled),
            ));
        }
        Ok(ts)
    }
}

/// An oracle condition holds exactly when the read returned bytes equal to
/// the expected value; a failed read (`None`) never satisfies it.
pub open spec fn condition_met(c: OracleCondition, observed: Option<Vec<u8>>) -> bool {
    match observed {
        Some(v) => v@ == c.expected_value@,
        None => false,
    }
}

/// All of an offer's conditions hold: one observation per condition, each
/// matching its expected value exactly.
pub open spec fn conditions_met(conds: Seq<OracleCondition>, observed: Seq<Option<Vec<u8>>>) -> bool {
    &&& observed.len() == conds.len()
    &&& forall|k: int| 0 <= k < conds.len() ==> condition_met(conds[k], #[trigger] observed[k])
}

/// An offer's oracle gate: trivially open when the offer has no conditions.
pub open spec fn offer_conditions_met(o: Offer, observed: Seq<Option<Vec<u8>>>) -> bool {
    match o.oracle_conditions {
        Some(cs) => conditions_met(cs@, observed),
        None => true,
    }
}

/// The asset movements that forward an attached payment in full to `to`:
/// one transfer per payment line, undiminished.
pub open spec fn forward_transfers(payments: Seq<TokenAmount>, to: u64) -> Seq<Transfer> {
    Seq::new(
        payments.len(),
        |k: int| (Transfer {
            to: to,
            token_identifier: payments[k].token_identifier,
            amount: payments[k].amount,
        }),
    )
}

/// Exact byte-for-byte comparison of two byte sequences.
fn bytes_eq(a: &Vec<u8>, b: &Vec<u8>) -> (r: bool)
    ensures
        r == (a@ == b@),
{
    if a.len() != b.len() {
        proof {
            assert(a@.len() != b@.len());
        }
        return false;
    }
    let mut k: usize = 0;
    while k < a.len()
        invariant
            a@.len() == b@.len(),
            k <= a@.len(),
            forall|m: int| 0 <= m < k ==> a@[m] == b@[m],
        decreases a@.len() - k,
    {
        if a[k] != b[k] {
            return false;
        }
        k += 1;
    }
    proof {
        assert(a@ =~= b@);
    }
    true
}

impl TokenEscrow {
    /// Evaluates one oracle condition against the bytes the runtime's
    /// synchronous read brought back (`None` when the read itself failed).
    /// `ConditionError` exactly when the condition is not met.
    pub fn check_oracle_condition(
        &self,
        condition: &OracleCondition,
        observed: &Option<Vec<u8>>,
    ) -> (r: Result<(), LedgerError>)
        ensures
            condition_met(*condition, *observed) ==> r == Ok::<(), LedgerError>(()),
            !condition_met(*condition, *observed) ==> r == Err::<(), LedgerError>(
                LedgerError::ConditionError,
            ),
    {
        match observed {
            Some(v) => {
                if bytes_eq(v, &condition.expected_value) {
                    Ok(())
                } else {
                    Err(LedgerError::ConditionError)
                }
            },
            None => Err(LedgerError::ConditionError),
        }
    }

    /// Accepts an offer. Only the recipient may accept, only while the
    /// offer is `Active` and not yet expired, and only when every oracle
    /// condition is met — `oracle_results` carries, in order, the bytes the
    /// runtime read for each condition. All checks run before any asset
    /// movement, so a single failing condition aborts with nothing moved.
    /// On success the recipient receives the offered assets, each line
    /// minus the aggregate `platform_fee`, and the attached `payments` are
    /// forwarded in full to the creator.
    pub fn accept_offer(
        &mut self,
        caller: u64,
        payments: Vec<TokenAmount>,
        offer_id: u64,
        oracle_results: &Vec<Option<Vec<u8>>>,
        now: u64,
    ) -> (r: Result<Vec<Transfer>, LedgerError>)
        requires
            old(self).wf(),
        ensures
            final(self).wf(),
            !has_offer(old(self).offers@, offer_id) ==> r == Err::<Vec<Transfer>, LedgerError>(
                LedgerError::StateError,
            ) && *final(self) == *old(self),
            has_offer(old(self).offers@, offer_id) ==> {
                let i = offer_index(old(self).offers@, offer_id);
                let o = old(self).offers@[i];
                &&& !(o.status is Active) ==> r == Err::<Vec<Transfer>, LedgerError>(
                    LedgerError::StateError,
                ) && *final(self) == *old(self)
                &&& o.status is Active && o.recipient != caller ==> r == Err::<
                    Vec<Transfer>,
                    LedgerError,
                >(LedgerError::AuthorizationError) && *final(self) == *old(self)
                &&& o.status is Active && o.recipient == caller && now > o.expiration_timestamp
                    ==> r == Err::<Vec<Transfer>, LedgerError>(LedgerError::TimingError)
                    && *final(self) == *old(self)
                &&& o.status is Active && o.recipient == caller && now <= o.expiration_timestamp
                    && !offer_conditions_met(o, oracle_results@) ==> r == Err::<
                    Vec<Transfer>,
                    LedgerError,
                >(LedgerError::ConditionError) && *final(self) == *old(self)
                &&& o.status is Active && o.recipient == caller && now <= o.expiration_timestamp
                    && offer_conditions_met(o, oracle_results@) && refund_underflows(o) ==> r
                    == Err::<Vec<Transfer>, LedgerError>(LedgerError::ArithmeticError)
                    && *final(self) == *old(self)
                &&& o.status is Active && o.recipient == caller && now <= o.expiration_timestamp
                    && offer_conditions_met(o, oracle_results@) && !refund_underflows(o) ==> {
                    &&& (r matches Ok(ts) && ts@ == release_transfers(o, o.recipient)
                        + forward_transfers(payments@, o.creator))
                    &&& final(self).offers@ == old(self).offers@.update(
                        i,
                        with_status(o, OfferStatus::Completed),
                    )
                    &&& final(self).owner == old(self).owner
                    &&& final(self).platform_fee_percentage == old(self).platform_fee_percentage
                    &&& final(self).offer_id_counter == old(self).offer_id_counter
                }
            },
    {
        let i = match self.get_offer_index_by_id(offer_id) {
            Some(i) => i,
            None => {
                return Err(LedgerError::StateError);
            },
        };
        if !(self.offers[i].status == OfferStatus::Active) {
            return Err(LedgerError::StateError);
        }
        if self.offers[i].recipient != caller {
            return Err(LedgerError::AuthorizationError);
        }
        if now > self.offers[i].expiration_timestamp {
            return Err(LedgerError::TimingError);
        }

        let ghost o = self.offers@[i as int];
        match &self.offers[i].oracle_conditions {
            Some(conds) => {
                if oracle_results.len() != conds.len() {
                    return Err(LedgerError::ConditionError);
                }
                let mut k: usize = 0;
                while k < conds.len()
                    invariant
                        *self == *old(self),
                        self.wf(),
                        has_offer(old(self).offers@, offer_id),
                        i == offer_index(old(self).offers@, offer_id),
                        i < self.offers@.len(),
                        o == self.offers@[i as int],
                        o.status is Active,
                        o.recipient == caller,
                        now <= o.expiration_timestamp,
                        conds == o.oracle_conditions->Some_0,
                        o.oracle_conditions is Some,
                        oracle_results@.len() == conds@.len(),
                        k <= conds@.len(),
                        forall|m: int| 0 <= m < k
                            ==> condition_met(conds@[m], #[trigger] oracle_results@[m]),
                    decreases conds@.len() - k,
                {
                    match self.check_oracle_condition(&conds[k], &oracle_results[k]) {
                        Ok(()) => {},
                        Err(e) => {
                            return Err(e);
                        },
                    }
                    k += 1;
                }
            },
            None => {},
        }
        assert(offer_conditions_met(o, oracle_results@));

        let recipient = self.offers[i].recipient;
        let creator = self.offers[i].creator;
        let mut ts = match self.build_release_transfers(i, recipient) {
            Ok(ts) => ts,
            Err(e) => {
                return Err(e);
            },
        };

        let ghost release = release_transfers(o, o.recipient);
        let mut k: usize = 0;
        while k < payments.len()
            invariant
                k <= payments@.len(),
                ts@.len() == release.len() + k,
                forall|m: int| 0 <= m < release.len() ==> ts@[m] == release[m],
                forall|m: int| 0 <= m < k
                    ==> ts@[release.len() + m] == forward_transfers(payments@, o.creator)[m],
                creator == o.creator,
            decreases payments@.len() - k,
        {
            let line = payments[k];
            ts.push(
                Transfer { to: creator, token_identifier: line.token_identifier, amount: line.amount },
            );
            k += 1;
        }
        proof {
            assert(ts@ =~= release + forward_transfers(payments@, o.creator));
        }

        self.offers[i].status = OfferStatus::Completed;
        proof {
            assert(self.offers@[i as int] == with_status(o, OfferStatus::Completed));
            assert(self.offers@ =~= old(self).offers@.update(
                i as int,
                with_status(o, OfferStatus::Completed),
            ));
        }
        Ok(ts)
    }
}

/// An offer the expiration sweep picks up: still `Active`, and its
/// expiration lies strictly in the past.
pub open spec fn sweepable(o: Offer, now: u64) -> bool {
    o.status is Active && o.expiration_timestamp < now
}

/// Whether sweeping would underflow on some expired offer's refund.
pub open spec fn cleanup_underflows(offers: Seq<Offer>, now: u64) -> bool {
    exists|i: int|
        0 <= i < offers.len() && sweepable(offers[i], now) && refund_underflows(offers[i])
}

/// The refunds the sweep performs: for each sweepable offer, in ledger
/// order, the fee-deducted release of its assets to its creator.
pub open spec fn cleanup_transfers(offers: Seq<Offer>, now: u64) -> Seq<Transfer>
    decreases offers.len(),
{
    if offers.len() == 0 {
        Seq::empty()
    } else {
        cleanup_transfers(offers.drop_last(), now) + (if sweepable(offers.last(), now) {
            release_transfers(offers.last(), offers.last().creator)
        } else {
            Seq::empty()
        })
    }
}

/// The ledger after the sweep: sweepable offers become `Expired`, all
/// others stand untouched.
pub open spec fn swept(offers: Seq<Offer>, now: u64) -> Seq<Offer> {
    Seq::new(
        offers.len(),
        |i: int| if sweepable(offers[i], now) {
            with_status(offers[i], OfferStatus::Expired)
        } else {
            offers[i]
        },
    )
}

/// Sweeping one more offer extends the refunds by that offer's release,
/// or by nothing when it is not sweepable.
proof fn lemma_cleanup_take_succ(offers: Seq<Offer>, now: u64, i: int)
    requires
        0 <= i < offers.len(),
    ensures
        cleanup_transfers(offers.take(i + 1), now) == cleanup_transfers(offers.take(i), now)
            + (if sweepable(offers[i], now) {
            release_transfers(offers[i], offers[i].creator)
        } else {
            Seq::<Transfer>::empty()
        }),
{
    assert(offers.take(i + 1).drop_last() =~= offers.take(i));
    assert(offers.take(i + 1).last() == offers[i]);
}

impl TokenEscrow {
    /// Whether releasing this offer's assets would underflow on some line.
    fn release_underflows(&self, i: usize) -> (r: bool)
        requires
            i < self.offers@.len(),
        ensures
            r == refund_underflows(self.offers@[i as int]),
    {
        let offer = &self.offers[i];
        let mut k: usize = 0;
        while k < offer.offered_tokens.len()
            invariant
                offer == self.offers@[i as int],
                k <= offer.offered_tokens@.len(),
                forall|m: int| 0 <= m < k
                    ==> (#[trigger] offer.offered_tokens@[m]).amount >= offer.platform_fee,
            decreases offer.offered_tokens@.len() - k,
        {
            if offer.offered_tokens[k].amount < offer.platform_fee {
                return true;
            }
            k += 1;
        }
        false
    }

    /// Expiration sweep, callable by anyone. Every offer that is still
    /// `Active` with its expiration in the past is marked `Expired` and its
    /// assets are released to its creator, fee-deducted per line exactly as
    /// on cancellation. Already-terminal and still-running offers are
    /// skipped, so repeated calls are harmless, and a sweep that matches
    /// nothing is a no-op. All refunds are checked before anything moves:
    /// one underflowing line anywhere aborts the whole sweep unchanged.
    pub fn cleanup_expired_offers(&mut self, now: u64) -> (r: Result<Vec<Transfer>, LedgerError>)
        requires
            old(self).wf(),
        ensures
            final(self).wf(),
            cleanup_underflows(old(self).offers@, now) ==> r == Err::<Vec<Transfer>, LedgerError>(
                LedgerError::ArithmeticError,
            ) && *final(self) == *old(self),
            !cleanup_underflows(old(self).offers@, now) ==> {
                &&& (r matches Ok(ts) && ts@ == cleanup_transfers(old(self).offers@, now))
                &&& final(self).offers@ == swept(old(self).offers@, now)
                &&& final(self).owner == old(self).owner
                &&& final(self).platform_fee_percentage == old(self).platform_fee_percentage
                &&& final(self).offer_id_counter == old(self).offer_id_counter
            },
    {
        // First pass: check every refund the sweep would perform, so that a
        // failing one aborts before any asset has moved.
        let mut i: usize = 0;
        while i < self.offers.len()
            invariant
                *self == *old(self),
                self.wf(),
                i <= self.offers@.len(),
                forall|j: int| 0 <= j < i
                    ==> !(sweepable(self.offers@[j], now) && refund_underflows(self.offers@[j])),
            decreases self.offers@.len() - i,
        {
            let active = self.offers[i].status == OfferStatus::Active;
            let expired = self.offers[i].expiration_timestamp < now;
            if active && expired {
                if self.release_underflows(i) {
                    return Err(LedgerError::ArithmeticError);
                }
            }
            i += 1;
        }

        // Second pass: mark and refund.
        let ghost orig = self.offers@;
        let mut ts: Vec<Transfer> = Vec::new();
        proof {
            assert(orig.take(0) =~= Seq::<Offer>::empty());
        }
        let mut i: usize = 0;
        while i < self.offers.len()
            invariant
                !cleanup_underflows(orig, now),
                orig == old(self).offers@,
                old(self).wf(),
                self.owner == old(self).owner,
                self.platform_fee_percentage == old(self).platform_fee_percentage,
                self.offer_id_counter == old(self).offer_id_counter,
                self.offers@.len() == orig.len(),
                i <= orig.len(),
                forall|j: int| i <= j < orig.len() ==> self.offers@[j] == orig[j],
                forall|j: int| 0 <= j < i ==> self.offers@[j] == swept(orig, now)[j],
                ts@ == cleanup_transfers(orig.take(i as int), now),
            decreases orig.len() - i,
        {
            proof {
                lemma_cleanup_take_succ(orig, now, i as int);
            }
            let active = self.offers[i].status == OfferStatus::Active;
            let expired = self.offers[i].expiration_timestamp < now;
            if active && expired {
                let creator = self.offers[i].creator;
                let mut refund = match self.build_release_transfers(i, creator) {
                    Ok(refund) => refund,
                    Err(_) => {
                        proof {
                            assert(sweepable(orig[i as int], now) && refund_underflows(
                                orig[i as int],
                            ));
                        }
                        // Unreachable: the first pass checked this refund.
                        return Err(LedgerError::ArithmeticError);
                    },
                };
                ts.append(&mut refund);
                self.offers[i].status = OfferStatus::Expired;
                proof {
                    assert(self.offers@[i as int] == with_status(orig[i as int], OfferStatus::Expired));
                }
            }
            i += 1;
        }
        proof {
            assert(orig.take(orig.len() as int) =~= orig);
            assert(self.offers@ =~= swept(orig, now));
            assert forall|p: int, q: int| 0 <= p < q < self.offers@.len()
                implies self.offers@[p].offer_id < self.offers@[q].offer_id
            by {
                assert(self.offers@[p].offer_id == orig[p].offer_id);
                assert(self.offers@[q].offer_id == orig[q].offer_id);
            }
            assert forall|p: int| 0 <= p < self.offers@.len()
                implies 1 <= #[trigger] self.offers@[p].offer_id <= self.offer_id_counter
            by {
                assert(self.offers@[p].offer_id == orig[p].offer_id);
            }
        }
        Ok(ts)
    }
}

/// Two conditions agree field for field.
pub open spec fn condition_like(a: OracleCondition, b: OracleCondition) -> bool {
    &&& a.oracle_address == b.oracle_address
    &&& a.data_key@ == b.data_key@
    &&& a.expected_value@ == b.expected_value@
}

/// Two optional condition lists agree entry for entry.
pub open spec fn conditions_like(
    a: Option<Vec<OracleCondition>>,
    b: Option<Vec<OracleCondition>>,
) -> bool {
    match a {
        Some(x) => match b {
            Some(y) => x@.len() == y@.len() && forall|k: int|
                0 <= k < x@.len() ==> condition_like(x@[k], #[trigger] y@[k]),
            None => false,
        },
        None => b is None,
    }
}

/// Two offers agree field for field, contents included: what a read-only
/// projection promises of the copies it hands out.
pub open spec fn offer_like(a: Offer, b: Offer) -> bool {
    &&& a.offer_id == b.offer_id
    &&& a.creator == b.creator
    &&& a.recipient == b.recipient
    &&& a.offered_tokens@ == b.offered_tokens@
    &&& a.expected_tokens@ == b.expected_tokens@
    &&& a.creation_timestamp == b.creation_timestamp
    &&& a.expiration_timestamp == b.expiration_timestamp
    &&& a.status == b.status
    &&& a.platform_fee == b.platform_fee
    &&& conditions_like(a.oracle_conditions, b.oracle_conditions)
}

/// A fresh copy of a byte sequence.
fn clone_bytes(v: &Vec<u8>) -> (r: Vec<u8>)
    ensures
        r@ == v@,
{
    let mut r: Vec<u8> = Vec::new();
    let mut k: usize = 0;
    while k < v.len()
        invariant
            k <= v@.len(),
            r@ == v@.take(k as int),
        decreases v@.len() - k,
    {
        r.push(v[k]);
        proof {
            assert(r@ =~= v@.take(k + 1));
        }
        k += 1;
    }
    proof {
        assert(v@.take(v@.len() as int) =~= v@);
    }
    r
}

/// A fresh copy of a list of asset lines.
fn clone_token_amounts(v: &Vec<TokenAmount>) -> (r: Vec<TokenAmount>)
    ensures
        r@ == v@,
{
    let mut r: Vec<TokenAmount> = Vec::new();
    let mut k: usize = 0;
    while k < v.len()
        invariant
            k <= v@.len(),
            r@ == v@.take(k as int),
        decreases v@.len() - k,
    {
        r.push(v[k]);
        proof {
            assert(r@ =~= v@.take(k + 1));
        }
        k += 1;
    }
    proof {
        assert(v@.take(v@.len() as int) =~= v@);
    }
    r
}

/// A fresh copy of an optional condition list.
fn clone_conditions(cs: &Option<Vec<OracleCondition>>) -> (r: Option<Vec<OracleCondition>>)
    ensures
        conditions_like(*cs, r),
{
    match cs {
        None => None,
        Some(v) => {
            let mut r: Vec<OracleCondition> = Vec::new();
            let mut k: usize = 0;
            while k < v.len()
                invariant
                    k <= v@.len(),
                    r@.len() == k,
                    forall|m: int| 0 <= m < k ==> condition_like(v@[m], #[trigger] r@[m]),
                decreases v@.len() - k,
            {
                let c = OracleCondition {
                    oracle_address: v[k].oracle_address,
                    data_key: clone_bytes(&v[k].data_key),
                    expected_value: clone_bytes(&v[k].expected_value),
                };
                r.push(c);
                k += 1;
            }
            Some(r)
        },
    }
}

/// A fresh copy of an offer.
fn clone_offer(o: &Offer) -> (r: Offer)
    ensures
        offer_like(*o, r),
{
    Offer {
        offer_id: o.offer_id,
        creator: o.creator,
        recipient: o.recipient,
        offered_tokens: clone_token_amounts(&o.offered_tokens),
        expected_tokens: clone_token_amounts(&o.expected_tokens),
        creation_timestamp: o.creation_timestamp,
        expiration_timestamp: o.expiration_timestamp,
        status: o.status,
        platform_fee: o.platform_fee,
        oracle_conditions: clone_conditions(&o.oracle_conditions),
    }
}

/// An offer the active-offer listing shows: `Active` and not yet expired.
pub open spec fn listed(o: Offer, now: u64) -> bool {
    o.status is Active && o.expiration_timestamp > now
}

/// The subsequence of offers the active-offer listing shows, in ledger
/// order.
pub open spec fn active_offers(offers: Seq<Offer>, now: u64) -> Seq<Offer>
    decreases offers.len(),
{
    if offers.len() == 0 {
        Seq::empty()
    } else {
        active_offers(offers.drop_last(), now) + (if listed(offers.last(), now) {
            seq![offers.last()]
        } else {
            Seq::empty()
        })
    }
}

proof fn lemma_active_offers_take_succ(offers: Seq<Offer>, now: u64, i: int)
    requires
        0 <= i < offers.len(),
    ensures
        active_offers(offers.take(i + 1), now) == active_offers(offers.take(i), now)
            + (if listed(offers[i], now) {
            seq![offers[i]]
        } else {
            Seq::<Offer>::empty()
        }),
{
    assert(offers.take(i + 1).drop_last() =~= offers.take(i));
    assert(offers.take(i + 1).last() == offers[i]);
}

impl TokenEscrow {
    /// Owner-only fee adjustment, capped at five percent.
    pub fn set_fee_percentage(&mut self, caller: u64, new_percentage: u128) -> (r: Result<
        (),
        LedgerError,
    >)
        requires
            old(self).wf(),
        ensures
            final(self).wf(),
            caller != old(self).owner ==> r == Err::<(), LedgerError>(
                LedgerError::AuthorizationError,
            ) && *final(self) == *old(self),
            caller == old(self).owner && new_percentage > 5 ==> r == Err::<(), LedgerError>(
                LedgerError::ValidationError,
            ) && *final(self) == *old(self),
            caller == old(self).owner && new_percentage <= 5 ==> {
                &&& r == Ok::<(), LedgerError>(())
                &&& final(self).platform_fee_percentage == new_percentage
                &&& final(self).owner == old(self).owner
                &&& final(self).offer_id_counter == old(self).offer_id_counter
                &&& final(self).offers == old(self).offers
            },
    {
        if caller != self.owner {
            return Err(LedgerError::AuthorizationError);
        }
        if new_percentage > 5 {
            return Err(LedgerError::ValidationError);
        }
        self.platform_fee_percentage = new_percentage;
        Ok(())
    }

    /// Read-only lookup: a copy of the offer with this id, `None` when
    /// absent.
    pub fn get_offer_by_id(&self, offer_id: u64) -> (r: Option<Offer>)
        requires
            self.wf(),
        ensures
            !has_offer(self.offers@, offer_id) ==> r is None,
            has_offer(self.offers@, offer_id) ==> (r matches Some(o) && offer_like(
                self.offers@[offer_index(self.offers@, offer_id)],
                o,
            )),
    {
        match self.get_offer_index_by_id(offer_id) {
            Some(i) => Some(clone_offer(&self.offers[i])),
            None => None,
        }
    }

    /// Read-only projection: copies of the offers that are `Active` and not
    /// yet expired, in ledger order.
    pub fn get_active_offers(&self, now: u64) -> (r: Vec<Offer>)
        ensures
            r@.len() == active_offers(self.offers@, now).len(),
            forall|k: int| 0 <= k < r@.len() ==> offer_like(
                active_offers(self.offers@, now)[k],
                #[trigger] r@[k],
            ),
    {
        let ghost all = self.offers@;
        let mut r: Vec<Offer> = Vec::new();
        proof {
            assert(all.take(0) =~= Seq::<Offer>::empty());
        }
        let mut i: usize = 0;
        while i < self.offers.len()
            invariant
                all == self.offers@,
                i <= all.len(),
                r@.len() == active_offers(all.take(i as int), now).len(),
                forall|k: int| 0 <= k < r@.len() ==> offer_like(
                    active_offers(all.take(i as int), now)[k],
                    #[trigger] r@[k],
                ),
            decreases all.len() - i,
        {
            proof {
                lemma_active_offers_take_succ(all, now, i as int);
            }
            let active = self.offers[i].status == OfferStatus::Active;
            let running = self.offers[i].expiration_timestamp > now;
            if active && running {
                r.push(clone_offer(&self.offers[i]));
            }
            i += 1;
        }
        proof {
            assert(all.take(all.len() as int) =~= all);
        }
        r
    }
}

/// The total amount carried by a transfer list, across all asset lines.
pub open spec fn sum_transfer_amounts(ts: Seq<Transfer>) -> int
    decreases ts.len(),
{
    if ts.len() == 0 {
        0
    } else {
        sum_transfer_amounts(ts.drop_last()) + ts.last().amount
    }
}

/// The total amount carried by a list of asset lines.
pub open spec fn sum_token_amounts(ts: Seq<TokenAmount>) -> int
    decreases ts.len(),
{
    if ts.len() == 0 {
        0
    } else {
        sum_token_amounts(ts.drop_last()) + ts.last().amount
    }
}

/// Transfer totals add up over concatenation.
pub proof fn lemma_sum_transfer_concat(a: Seq<Transfer>, b: Seq<Transfer>)
    ensures
        sum_transfer_amounts(a + b) == sum_transfer_amounts(a) + sum_transfer_amounts(b),
    decreases b.len(),
{
    if b.len() == 0 {
        assert(a + b =~= a);
    } else {
        assert((a + b).drop_last() =~= a + b.drop_last());
        assert((a + b).last() == b.last());
        lemma_sum_transfer_concat(a, b.drop_last());
    }
}

/// Offer ids are strictly increasing in order of creation, and hence
/// unique: no two offers in the ledger ever share an id.
pub proof fn lemma_offer_ids_unique(e: TokenEscrow)
    requires
        e.wf(),
    ensures
        forall|i: int, j: int|
            0 <= i < j < e.offers@.len() ==> e.offers@[i].offer_id < e.offers@[j].offer_id,
        forall|i: int, j: int|
            0 <= i < e.offers@.len() && 0 <= j < e.offers@.len() && i != j
                ==> e.offers@[i].offer_id != e.offers@[j].offer_id,
{
}

/// Releasing an offer's assets conserves custody exactly: the total amount
/// leaving equals the total locked, minus the recorded aggregate fee
/// retained once per asset line — no asset is created or destroyed.
pub proof fn lemma_release_conserves_assets(o: Offer, to: u64)
    requires
        !refund_underflows(o),
    ensures
        sum_transfer_amounts(release_transfers(o, to)) == sum_token_amounts(o.offered_tokens@)
            - o.offered_tokens@.len() * o.platform_fee,
{
    lemma_deducted_sum(o.offered_tokens@, o.platform_fee, to);
}

proof fn lemma_deducted_sum(tokens: Seq<TokenAmount>, fee: u128, to: u64)
    requires
        forall|k: int| 0 <= k < tokens.len() ==> (#[trigger] tokens[k]).amount >= fee,
    ensures
        sum_transfer_amounts(deducted_transfers(tokens, fee, to)) == sum_token_amounts(tokens)
            - tokens.len() * fee,
    decreases tokens.len(),
{
    if tokens.len() == 0 {
        assert(deducted_transfers(tokens, fee, to) =~= Seq::<Transfer>::empty());
    } else {
        assert(deducted_transfers(tokens, fee, to).drop_last() =~= deducted_transfers(
            tokens.drop_last(),
            fee,
            to,
        ));
        lemma_deducted_sum(tokens.drop_last(), fee, to);
        assert(deducted_transfers(tokens, fee, to).last().amount == tokens.last().amount - fee);
        assert(tokens.len() * fee == (tokens.len() - 1) * fee + fee) by (nonlinear_arith);
    }
}

/// Forwarding an attached payment conserves custody exactly: the total
/// amount leaving equals the total attached, undiminished.
pub proof fn lemma_forward_conserves_assets(payments: Seq<TokenAmount>, to: u64)
    ensures
        sum_transfer_amounts(forward_transfers(payments, to)) == sum_token_amounts(payments),
    decreases payments.len(),
{
    if payments.len() == 0 {
        assert(forward_transfers(payments, to) =~= Seq::<Transfer>::empty());
    } else {
        assert(forward_transfers(payments, to).drop_last() =~= forward_transfers(
            payments.drop_last(),
            to,
        ));
        lemma_forward_conserves_assets(payments.drop_last(), to);
        assert(forward_transfers(payments, to).last().amount == payments.last().amount);
    }
}

/// An offer leaves `Active` at most once. The statuses the transitions
/// write — `Cancelled`, `Completed`, `Expired` — are all terminal: an offer
/// carrying one is no longer `Active`, so `cancel_offer` and `accept_offer`
/// answer it with `StateError` and the expiration sweep skips it, by their
/// contracts' non-`Active` cases.
pub proof fn lemma_transitions_are_single_shot(o: Offer, now: u64)
    ensures
        !(with_status(o, OfferStatus::Cancelled).status is Active),
        !(with_status(o, OfferStatus::Completed).status is Active),
        !(with_status(o, OfferStatus::Expired).status is Active),
        !sweepable(with_status(o, OfferStatus::Cancelled), now),
        !sweepable(with_status(o, OfferStatus::Completed), now),
        !sweepable(with_status(o, OfferStatus::Expired), now),
{
}

/// What the expiration sweep releases in total: for each sweepable offer,
/// its locked total minus the fee retained once per asset line.
pub open spec fn swept_release_total(offers: Seq<Offer>, now: u64) -> int
    decreases offers.len(),
{
    if offers.len() == 0 {
        0
    } else {
        swept_release_total(offers.drop_last(), now) + (if sweepable(offers.last(), now) {
            sum_token_amounts(offers.last().offered_tokens@) - offers.last().offered_tokens@.len()
                * offers.last().platform_fee
        } else {
            0
        })
    }
}

/// The expiration sweep conserves custody exactly: the total amount its
/// transfers carry equals, summed over the swept offers, the locked total
/// minus the recorded fee retained once per asset line.
pub proof fn lemma_cleanup_conserves_assets(offers: Seq<Offer>, now: u64)
    requires
        !cleanup_underflows(offers, now),
    ensures
        sum_transfer_amounts(cleanup_transfers(offers, now)) == swept_release_total(offers, now),
    decreases offers.len(),
{
    if offers.len() > 0 {
        let pre = offers.drop_last();
        assert(!cleanup_underflows(pre, now)) by {
            if cleanup_underflows(pre, now) {
                let i = choose|i: int|
                    0 <= i < pre.len() && sweepable(pre[i], now) && refund_underflows(pre[i]);
                assert(sweepable(offers[i], now) && refund_underflows(offers[i]));
            }
        }
        lemma_cleanup_conserves_assets(pre, now);
        if sweepable(offers.last(), now) {
            assert(!refund_underflows(offers.last())) by {
                assert(!(sweepable(offers[offers.len() - 1], now) && refund_underflows(
                    offers[offers.len() - 1],
                )));
            }
            lemma_release_conserves_assets(offers.last(), offers.last().creator);
            lemma_sum_transfer_concat(
                cleanup_transfers(pre, now),
                release_transfers(offers.last(), offers.last().creator),
            );
        } else {
            lemma_sum_transfer_concat(cleanup_transfers(pre, now), Seq::<Transfer>::empty());
        }
    }
}

/// In a ledger whose ids strictly increase, an index holding the sought id
/// is the chosen `offer_index`.
proof fn lemma_offer_index_unique(offers: Seq<Offer>, offer_id: u64, i: int)
    requires
        forall|p: int, q: int| 0 <= p < q < offers.len() ==> offers[p].offer_id < offers[q].offer_id,
        0 <= i < offers.len(),
        offers[i].offer_id == offer_id,
    ensures
        has_offer(offers, offer_id),
        offer_index(offers, offer_id) == i,
{
    assert(has_offer(offers, offer_id));
    let c = offer_index(offers, offer_id);
    if c != i {
        if c < i {
            assert(offers[c].offer_id < offers[i].offer_id);
        } else {
            assert(offers[i].offer_id < offers[c].offer_id);
        }
    }
}

} // verus!
