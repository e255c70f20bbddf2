use token_escrow::errors::LedgerError;
use token_escrow::escrow::{OfferStatus, OracleCondition, TokenAmount, TokenEscrow, Transfer};

const OWNER: u64 = 1;
const CREATOR: u64 = 2;
const RECIPIENT: u64 = 3;

fn line(token: u64, amount: u128) -> TokenAmount {
    TokenAmount { token_identifier: token, amount }
}

fn simple_offer(e: &mut TokenEscrow, offered: Vec<TokenAmount>, expires: u64, now: u64) -> u64 {
    e.create_offer(CREATOR, offered, RECIPIENT, vec![line(9, 50)], expires, None, now)
        .expect("offer should open")
}

#[test]
fn offer_ids_strictly_increasing_and_unique() {
    let mut e = TokenEscrow::init(OWNER);
    let a = simple_offer(&mut e, vec![line(7, 100)], 100, 0);
    let b = simple_offer(&mut e, vec![line(7, 100)], 200, 0);
    let c = simple_offer(&mut e, vec![line(7, 100)], 300, 0);
    assert_eq!(a, 1);
    assert_eq!(b, 2);
    assert_eq!(c, 3);
    assert!(a < b && b < c);
    assert!(e.get_offer_by_id(1).is_some());
    assert!(e.get_offer_by_id(2).is_some());
    assert!(e.get_offer_by_id(3).is_some());
    assert!(e.get_offer_by_id(4).is_none());
}

#[test]
fn create_offer_rejects_expiration_not_in_future() {
    let mut e = TokenEscrow::init(OWNER);
    let r = e.create_offer(CREATOR, vec![line(7, 100)], RECIPIENT, vec![], 5, None, 5);
    assert_eq!(r, Err(LedgerError::ValidationError));
    let r = e.create_offer(CREATOR, vec![line(7, 100)], RECIPIENT, vec![], 4, None, 5);
    assert_eq!(r, Err(LedgerError::ValidationError));
    assert!(e.get_offer_by_id(1).is_none());
}

#[test]
fn platform_fee_aggregates_across_asset_lines() {
    let mut e = TokenEscrow::init(OWNER);
    // One percent of 100 plus one percent of 200: a single scalar fee of 3.
    let id = simple_offer(&mut e, vec![line(7, 100), line(8, 200)], 100, 0);
    let offer = e.get_offer_by_id(id).expect("offer exists");
    assert_eq!(offer.platform_fee, 3);
    assert_eq!(offer.status, OfferStatus::Active);
    assert_eq!(offer.creator, CREATOR);
    assert_eq!(offer.recipient, RECIPIENT);
    assert_eq!(offer.creation_timestamp, 0);
    assert_eq!(offer.expiration_timestamp, 100);
}

#[test]
fn cancel_refunds_each_line_minus_aggregate_fee() {
    let mut e = TokenEscrow::init(OWNER);
    let id = simple_offer(&mut e, vec![line(7, 100), line(8, 200)], 100, 0);
    let ts = e.cancel_offer(CREATOR, id).expect("creator cancels");
    // The aggregate fee of 3 is deducted once per asset line.
    assert_eq!(
        ts,
        vec![
            Transfer { to: CREATOR, token_identifier: 7, amount: 97 },
            Transfer { to: CREATOR, token_identifier: 8, amount: 197 },
        ]
    );
    assert_eq!(e.get_offer_by_id(id).unwrap().status, OfferStatus::Cancelled);
}

#[test]
fn cancel_requires_creator_and_active_status() {
    let mut e = TokenEscrow::init(OWNER);
    let id = simple_offer(&mut e, vec![line(7, 100)], 100, 0);
    assert_eq!(e.cancel_offer(RECIPIENT, id), Err(LedgerError::AuthorizationError));
    assert_eq!(e.cancel_offer(CREATOR, 99), Err(LedgerError::StateError));
    assert!(e.cancel_offer(CREATOR, id).is_ok());
    // A terminal offer can never transition again.
    assert_eq!(e.cancel_offer(CREATOR, id), Err(LedgerError::StateError));
    assert_eq!(
        e.accept_offer(RECIPIENT, vec![], id, &vec![], 0),
        Err(LedgerError::StateError)
    );
}

#[test]
fn cancel_underflows_when_a_line_is_smaller_than_the_fee() {
    let mut e = TokenEscrow::init(OWNER);
    // Fee: 40 / 100 = 0 plus 5000 / 100 = 50; the 40 line cannot cover 50.
    let id = simple_offer(&mut e, vec![line(7, 40), line(8, 5000)], 100, 0);
    assert_eq!(e.cancel_offer(CREATOR, id), Err(LedgerError::ArithmeticError));
    // Nothing changed: the offer is still active.
    assert_eq!(e.get_offer_by_id(id).unwrap().status, OfferStatus::Active);
}

#[test]
fn accept_pays_recipient_minus_fee_and_forwards_payment_to_creator() {
    let mut e = TokenEscrow::init(OWNER);
    let id = simple_offer(&mut e, vec![line(7, 100)], 100, 0);
    let ts = e
        .accept_offer(RECIPIENT, vec![line(9, 50)], id, &vec![], 10)
        .expect("recipient accepts");
    assert_eq!(
        ts,
        vec![
            Transfer { to: RECIPIENT, token_identifier: 7, amount: 99 },
            Transfer { to: CREATOR, token_identifier: 9, amount: 50 },
        ]
    );
    assert_eq!(e.get_offer_by_id(id).unwrap().status, OfferStatus::Completed);
    // A terminal offer can never transition again.
    assert_eq!(
        e.accept_offer(RECIPIENT, vec![line(9, 50)], id, &vec![], 10),
        Err(LedgerError::StateError)
    );
}

#[test]
fn accept_requires_recipient_and_respects_expiration() {
    let mut e = TokenEscrow::init(OWNER);
    let id = simple_offer(&mut e, vec![line(7, 100)], 100, 0);
    assert_eq!(
        e.accept_offer(CREATOR, vec![], id, &vec![], 10),
        Err(LedgerError::AuthorizationError)
    );
    assert_eq!(
        e.accept_offer(RECIPIENT, vec![], id, &vec![], 101),
        Err(LedgerError::TimingError)
    );
    // Acceptance exactly at the expiration timestamp is still allowed.
    assert!(e.accept_offer(RECIPIENT, vec![], id, &vec![], 100).is_ok());
}

fn condition(oracle: u64, key: &[u8], expected: &[u8]) -> OracleCondition {
    OracleCondition {
        oracle_address: oracle,
        data_key: key.to_vec(),
        expected_value: expected.to_vec(),
    }
}

#[test]
fn accept_checks_every_oracle_condition_before_moving_assets() {
    let mut e = TokenEscrow::init(OWNER);
    let conds = vec![condition(5, b"price", b"42"), condition(6, b"flag", b"on")];
    let id = e
        .create_offer(CREATOR, vec![line(7, 100)], RECIPIENT, vec![], 100, Some(conds), 0)
        .unwrap();

    // A mismatching read fails the whole call with nothing moved.
    let bad = vec![Some(b"42".to_vec()), Some(b"off".to_vec())];
    assert_eq!(
        e.accept_offer(RECIPIENT, vec![], id, &bad, 10),
        Err(LedgerError::ConditionError)
    );
    assert_eq!(e.get_offer_by_id(id).unwrap().status, OfferStatus::Active);

    // A failed read is indistinguishable from a failed condition.
    let failed = vec![Some(b"42".to_vec()), None];
    assert_eq!(
        e.accept_offer(RECIPIENT, vec![], id, &failed, 10),
        Err(LedgerError::ConditionError)
    );

    // A missing observation fails too.
    assert_eq!(
        e.accept_offer(RECIPIENT, vec![], id, &vec![], 10),
        Err(LedgerError::ConditionError)
    );

    // All conditions met: the offer completes.
    let good = vec![Some(b"42".to_vec()), Some(b"on".to_vec())];
    let ts = e.accept_offer(RECIPIENT, vec![], id, &good, 10).unwrap();
    assert_eq!(ts, vec![Transfer { to: RECIPIENT, token_identifier: 7, amount: 99 }]);
    assert_eq!(e.get_offer_by_id(id).unwrap().status, OfferStatus::Completed);
}

#[test]
fn check_oracle_condition_compares_exact_bytes() {
    let e = TokenEscrow::init(OWNER);
    let c = condition(5, b"k", b"v");
    assert_eq!(e.check_oracle_condition(&c, &Some(b"v".to_vec())), Ok(()));
    assert_eq!(
        e.check_oracle_condition(&c, &Some(b"w".to_vec())),
        Err(LedgerError::ConditionError)
    );
    assert_eq!(
        e.check_oracle_condition(&c, &Some(b"vv".to_vec())),
        Err(LedgerError::ConditionError)
    );
    assert_eq!(e.check_oracle_condition(&c, &None), Err(LedgerError::ConditionError));
}

#[test]
fn cleanup_skips_running_offers_and_expires_overdue_ones() {
    let mut e = TokenEscrow::init(OWNER);
    let id = simple_offer(&mut e, vec![line(7, 100)], 100, 0);

    // Halfway to expiration: nothing to sweep.
    let ts = e.cleanup_expired_offers(50).unwrap();
    assert!(ts.is_empty());
    assert_eq!(e.get_offer_by_id(id).unwrap().status, OfferStatus::Active);

    // Past expiration: the creator receives the offered assets minus the fee.
    let ts = e.cleanup_expired_offers(101).unwrap();
    assert_eq!(ts, vec![Transfer { to: CREATOR, token_identifier: 7, amount: 99 }]);
    assert_eq!(e.get_offer_by_id(id).unwrap().status, OfferStatus::Expired);

    // The sweep is idempotent: a terminal offer is skipped.
    let ts = e.cleanup_expired_offers(102).unwrap();
    assert!(ts.is_empty());
    assert_eq!(e.get_offer_by_id(id).unwrap().status, OfferStatus::Expired);
}

#[test]
fn cleanup_aborts_whole_sweep_on_an_underflowing_refund() {
    let mut e = TokenEscrow::init(OWNER);
    let ok_id = simple_offer(&mut e, vec![line(7, 100)], 50, 0);
    let bad_id = simple_offer(&mut e, vec![line(7, 40), line(8, 5000)], 60, 0);
    assert_eq!(e.cleanup_expired_offers(70), Err(LedgerError::ArithmeticError));
    // Atomic abort: neither offer changed.
    assert_eq!(e.get_offer_by_id(ok_id).unwrap().status, OfferStatus::Active);
    assert_eq!(e.get_offer_by_id(bad_id).unwrap().status, OfferStatus::Active);
}

#[test]
fn set_fee_percentage_is_owner_only_and_capped() {
    let mut e = TokenEscrow::init(OWNER);
    assert_eq!(e.set_fee_percentage(CREATOR, 2), Err(LedgerError::AuthorizationError));
    assert_eq!(e.set_fee_percentage(OWNER, 6), Err(LedgerError::ValidationError));
    assert_eq!(e.set_fee_percentage(OWNER, 5), Ok(()));
    // The new percentage governs offers created from now on.
    let id = simple_offer(&mut e, vec![line(7, 100)], 100, 0);
    assert_eq!(e.get_offer_by_id(id).unwrap().platform_fee, 5);
}

#[test]
fn get_active_offers_lists_only_running_active_offers() {
    let mut e = TokenEscrow::init(OWNER);
    let running = simple_offer(&mut e, vec![line(7, 100)], 200, 0);
    let overdue = simple_offer(&mut e, vec![line(7, 100)], 50, 0);
    let cancelled = simple_offer(&mut e, vec![line(7, 100)], 300, 0);
    e.cancel_offer(CREATOR, cancelled).unwrap();

    let listed = e.get_active_offers(100);
    assert_eq!(listed.len(), 1);
    assert_eq!(listed[0].offer_id, running);
    assert_ne!(listed[0].offer_id, overdue);

    // Before anything lapsed, both still-active offers are listed.
    let listed = e.get_active_offers(10);
    assert_eq!(listed.len(), 2);
    assert_eq!(listed[0].offer_id, running);
    assert_eq!(listed[1].offer_id, overdue);
}

#[test]
fn empty_ledger_and_empty_offers_are_handled() {
    let mut e = TokenEscrow::init(OWNER);
    // Sweeping an empty ledger is a no-op.
    assert_eq!(e.cleanup_expired_offers(100), Ok(vec![]));
    assert!(e.get_active_offers(0).is_empty());
    // An offer with no attached assets has a zero fee and releases nothing.
    let id = simple_offer(&mut e, vec![], 100, 0);
    assert_eq!(e.get_offer_by_id(id).unwrap().platform_fee, 0);
    assert_eq!(e.cancel_offer(CREATOR, id), Ok(vec![]));
}

#[test]
fn offered_and_expected_assets_are_recorded_verbatim() {
    let mut e = TokenEscrow::init(OWNER);
    let id = e
        .create_offer(
            CREATOR,
            vec![line(7, 100), line(8, 200)],
            RECIPIENT,
            vec![line(9, 50)],
            100,
            Some(vec![condition(5, b"k", b"v")]),
            1,
        )
        .unwrap();
    let offer = e.get_offer_by_id(id).unwrap();
    assert_eq!(offer.offered_tokens, vec![line(7, 100), line(8, 200)]);
    assert_eq!(offer.expected_tokens, vec![line(9, 50)]);
    let conds = offer.oracle_conditions.as_ref().unwrap();
    assert_eq!(conds.len(), 1);
    assert_eq!(conds[0].oracle_address, 5);
    assert_eq!(conds[0].data_key, b"k".to_vec());
    assert_eq!(conds[0].expected_value, b"v".to_vec());
}
