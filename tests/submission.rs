use tiny_feeder::alarm::{new_balance_alarm, sui_amount_text, Alarm, AlarmIds, AlarmType};
use tiny_feeder::misc::{get_timestamp, millis_of};
use tiny_feeder::submit::{
    effective_interval, on_balance, pack_params, Next, PackError, Submitter, CLOCK_ID,
};

#[test]
fn stale_envelope_is_dropped() {
    let mut s = Submitter::new(1_000, 10_000, 60_000, 2);
    let plan = s.on_envelope(20_001, 10_000);
    assert!(!plan.submit);
    let plan = s.on_envelope(20_000, 10_000);
    assert!(plan.submit);
    let plan = s.on_envelope(5_000, 9_000);
    assert!(plan.submit);
}

#[test]
fn balance_sampled_after_its_interval() {
    let mut s = Submitter::new(1_000, 10_000, 60_000, 2);
    assert!(!s.on_envelope(61_000, 61_000).check_balance);
    assert!(s.on_envelope(61_001, 61_001).check_balance);
    assert_eq!(s.last_balance_check, 61_001);
    assert!(!s.on_envelope(62_000, 62_000).check_balance);
}

#[test]
fn failed_submission_rotates_endpoint_and_retries_once() {
    let mut s = Submitter::new(0, 10_000, 60_000, 2);
    assert_eq!(s.after_attempt(false, false), Next::RetryOn(1));
    assert_eq!(s.after_attempt(true, true), Next::Done);
    assert_eq!(s.rpc_index, 1);
    assert_eq!(s.after_attempt(false, false), Next::RetryOn(0));
    assert_eq!(s.after_attempt(true, false), Next::GiveUp);
    assert_eq!(s.after_attempt(false, true), Next::Done);
}

#[test]
fn pack_rejects_length_mismatch() {
    let r = pack_params(&"0x1".to_string(), &"0x2".to_string(), &vec![0, 1], &vec![5], 7);
    assert_eq!(r.err(), Some(PackError::LengthMismatch));
}

#[test]
fn pack_stamps_every_index() {
    let p = pack_params(&"0x1".to_string(), &"0x2".to_string(), &vec![0, 2], &vec![5, 6], 7)
        .unwrap();
    assert_eq!(p.oracle_cap, "0x1");
    assert_eq!(p.price_oracle, "0x2");
    assert_eq!(p.clock, CLOCK_ID);
    assert_eq!(p.pool_indices, vec![0, 2]);
    assert_eq!(p.token_prices, vec![5, 6]);
    assert_eq!(p.timestamps, vec![7, 7]);
}

#[test]
fn balance_sample_policy() {
    let a = on_balance(Some(5), true, 10);
    assert!(a.push && a.alarm);
    let a = on_balance(Some(50), true, 10);
    assert!(a.push && !a.alarm);
    let a = on_balance(Some(5), false, 10);
    assert!(a.push && !a.alarm);
    let a = on_balance(Some(0), true, 10);
    assert!(!a.push && !a.alarm);
    let a = on_balance(None, true, 10);
    assert!(!a.push && !a.alarm);
}

#[test]
fn interval_takes_larger_value() {
    assert_eq!(effective_interval(10, 30), 30);
    assert_eq!(effective_interval(60, 30), 60);
}

#[test]
fn sui_amounts_in_decimal() {
    assert_eq!(sui_amount_text(1_500_000_000), "1.5");
    assert_eq!(sui_amount_text(2_000_000_000), "2");
    assert_eq!(sui_amount_text(1), "0.000000001");
    assert_eq!(sui_amount_text(0), "0");
    assert_eq!(sui_amount_text(12_340_000_000), "12.34");
}

#[test]
fn balance_alarm_text() {
    let mut ids = AlarmIds::new();
    let a = new_balance_alarm(&mut ids, 500_000_000, 1_000_000_000);
    assert_eq!(a.alarm_type, AlarmType::Balance);
    assert_eq!(a.subject, "Balance Alarm");
    assert_eq!(a.message, "Balance: 0.5, below 1");
    assert_eq!(a.message_id, 1);
    assert_eq!(ids.next, 2);
}

#[test]
fn alarm_ids_are_assigned_when_zero() {
    let mut ids = AlarmIds::new();
    let a = Alarm::new(&mut ids, 0, AlarmType::Price, "s".to_string(), "m".to_string());
    let b = Alarm::new(&mut ids, 42, AlarmType::Price, "s".to_string(), "m".to_string());
    let c = Alarm::new(&mut ids, 0, AlarmType::Balance, "s".to_string(), "m".to_string());
    assert_eq!((a.message_id, b.message_id, c.message_id), (1, 42, 2));
}

#[test]
fn timestamps_in_whole_seconds() {
    assert_eq!(millis_of(Some(5)), 5_000);
    assert_eq!(millis_of(None), 0);
    assert_eq!(millis_of(Some(u64::MAX)), u64::MAX);
    let now = get_timestamp();
    assert!(now > 1_600_000_000_000);
    assert_eq!(now % 1000, 0);
}
