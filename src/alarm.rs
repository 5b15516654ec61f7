use vstd::prelude::*;
use vstd::string::StringExecFns;

use crate::text::push_char;

verus! {

/// One SUI in its smallest unit (MIST).
pub const BASE_SUI_UNIT: u64 = 1_000_000_000;

#[derive(Debug, Clone, Copy, PartialEq, Eq, Structural)]
pub enum AlarmType {
    Balance,
    Price,
}

/// A notice for the operator, sent by email.
#[derive(Debug, Clone)]
pub struct Alarm {
    pub message_id: u64,
    pub alarm_type: AlarmType,
    pub subject: String,
    pub message: String,
}

/// Source of alarm ids: a process-wide counter, starting at 1.
#[derive(Debug)]
pub struct AlarmIds {
    pub next: u64,
}

impl AlarmIds {
    pub fn new() -> (r: AlarmIds)
        ensures
            r.next == 1,
    {
        AlarmIds { next: 1 }
    }
}

impl Alarm {
    /// An alarm with id `message_id`, or with the next id of `ids` when
    /// `message_id` is 0 (the counter then moves on by one, wrapping).
    pub fn new(
        ids: &mut AlarmIds,
        message_id: u64,
        alarm_type: AlarmType,
        subject: String,
        message: String,
    ) -> (r: Alarm)
        ensures
            message_id != 0 ==> r.message_id == message_id && final(ids).next == old(ids).next,
            message_id == 0 ==> r.message_id == old(ids).next && final(ids).next == (if old(
                ids,
            ).next == u64::MAX {
                0
            } else {
                (old(ids).next + 1) as u64
            }),
            r.alarm_type == alarm_type,
            r.subject@ == subject@,
            r.message@ == message@,
    {
        let mut msg_id = message_id;
        if message_id == 0 {
            msg_id = ids.next;
            ids.next = if ids.next == u64::MAX { 0 } else { ids.next + 1 };
        }
        Alarm { message_id: msg_id, subject, alarm_type, message }
    }
}

pub open spec fn digit_char(d: nat) -> char {
    if d == 0 { '0' }
    else if d == 1 { '1' }
    else if d == 2 { '2' }
    else if d == 3 { '3' }
    else if d == 4 { '4' }
    else if d == 5 { '5' }
    else if d == 6 { '6' }
    else if d == 7 { '7' }
    else if d == 8 { '8' }
    else { '9' }
}

/// Decimal digits of `n`, without leading zeros.
pub open spec fn decimal(n: nat) -> Seq<char>
    decreases n,
{
    if n < 10 {
        seq![digit_char(n)]
    } else {
        decimal(n / 10) + seq![digit_char(n % 10)]
    }
}

/// The `width` lowest decimal digits of `n`, zero-padded on the left.
pub open spec fn padded(n: nat, width: nat) -> Seq<char>
    decreases width,
{
    if width == 0 {
        Seq::empty()
    } else {
        padded(n / 10, (width - 1) as nat) + seq![digit_char(n % 10)]
    }
}

/// `s` without its trailing `'0'` characters.
pub open spec fn strip_zeros(s: Seq<char>) -> Seq<char>
    decreases s.len(),
{
    if s.len() > 0 && s.last() == '0' {
        strip_zeros(s.drop_last())
    } else {
        s
    }
}

/// `v / BASE_SUI_UNIT` written in decimal: the whole part, then a point and
/// the fraction without trailing zeros when the fraction is not zero.
pub open spec fn sui_text(v: u64) -> Seq<char> {
    let whole = decimal((v / BASE_SUI_UNIT) as nat);
    let frac = (v % BASE_SUI_UNIT) as nat;
    if frac == 0 {
        whole
    } else {
        whole + seq!['.'] + strip_zeros(padded(frac, 9))
    }
}

fn digit_of(d: u64) -> (c: char)
    requires
        d < 10,
    ensures
        c == digit_char(d as nat),
{
    if d == 0 { '0' }
    else if d == 1 { '1' }
    else if d == 2 { '2' }
    else if d == 3 { '3' }
    else if d == 4 { '4' }
    else if d == 5 { '5' }
    else if d == 6 { '6' }
    else if d == 7 { '7' }
    else if d == 8 { '8' }
    else { '9' }
}

/// Appends the `width` lowest decimal digits of `n`, zero-padded.
fn push_padded(s: &mut String, n: u64, width: u64)
    ensures
        final(s)@ == old(s)@ + padded(n as nat, width as nat),
    decreases width,
{
    if width == 0 {
        assert(old(s)@ + padded(n as nat, 0) =~= old(s)@);
        return;
    }
    push_padded(s, n / 10, width - 1);
    push_char(s, digit_of(n % 10));
    assert(old(s)@ + padded(n as nat, width as nat) =~= old(s)@ + padded((n / 10) as nat, (width - 1) as nat)
        + seq![digit_char((n % 10) as nat)]);
}

/// Appends the decimal digits of `n`.
fn push_decimal(s: &mut String, n: u64)
    ensures
        final(s)@ == old(s)@ + decimal(n as nat),
    decreases n,
{
    if n >= 10 {
        push_decimal(s, n / 10);
    }
    push_char(s, digit_of(n % 10));
    assert(old(s)@ + decimal(n as nat) =~= (if n >= 10 { old(s)@ + decimal((n / 10) as nat) } else { old(s)@ })
        + seq![digit_char((n % 10) as nat)]);
}

/// A balance in MIST as a SUI amount in decimal (e.g. `1500000000` as `1.5`).
pub fn sui_amount_text(v: u64) -> (r: String)
    ensures
        r@ == sui_text(v),
{
    let mut s = String::new();
    push_decimal(&mut s, v / BASE_SUI_UNIT);
    let mut frac = v % BASE_SUI_UNIT;
    if frac == 0 {
        return s;
    }
    let mut width: u64 = 9;
    while width > 0 && frac % 10 == 0
        invariant
            width <= 9,
            strip_zeros(padded((v % BASE_SUI_UNIT) as nat, 9)) == strip_zeros(padded(frac as nat, width as nat)),
        decreases width,
    {
        assert(padded(frac as nat, width as nat).drop_last() == padded((frac / 10) as nat, (width - 1) as nat));
        frac = frac / 10;
        width = width - 1;
    }
    assert(strip_zeros(padded(frac as nat, width as nat)) == padded(frac as nat, width as nat));
    let ghost whole = s@;
    s.append(".");
    push_padded(&mut s, frac, width);
    proof {
        reveal_strlit(".");
        assert(s@ =~= whole + seq!['.'] + strip_zeros(padded((v % BASE_SUI_UNIT) as nat, 9)));
    }
    s
}

/// An alarm that the wallet balance is below the threshold (both in MIST).
pub fn new_balance_alarm(ids: &mut AlarmIds, balance: u64, threshold: u64) -> (r: Alarm)
    ensures
        r.message_id == old(ids).next,
        r.alarm_type == AlarmType::Balance,
        r.subject@ == "Balance Alarm"@,
        r.message@ == "Balance: "@ + sui_text(balance) + ", below "@ + sui_text(threshold),
{
    let mut text = "Balance: ".to_owned();
    text.append(sui_amount_text(balance).as_str());
    text.append(", below ");
    text.append(sui_amount_text(threshold).as_str());
    Alarm::new(ids, 0, AlarmType::Balance, "Balance Alarm".to_owned(), text)
}

/// An alarm that prices could not be obtained, with `desc` as its text.
pub fn new_price_alarm(ids: &mut AlarmIds, desc: &str) -> (r: Alarm)
    ensures
        r.message_id == old(ids).next,
        r.alarm_type == AlarmType::Price,
        r.subject@ == "Price Alarm"@,
        r.message@ == desc@,
{
    Alarm::new(ids, 0, AlarmType::Price, "Price Alarm".to_owned(), desc.to_owned())
}

} // verus!
