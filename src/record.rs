use vstd::prelude::*;

verus! {

/// A wall-clock date and time, as the output record shows it.
#[derive(PartialEq, Eq, Structural, Clone, Copy, Debug)]
pub struct Timestamp {
    pub year: u32,
    pub month: u32,
    pub day: u32,
    pub hour: u32,
    pub minute: u32,
    /// 60 during a leap second.
    pub second: u32,
}

impl Timestamp {
    /// Every field within its calendar or clock range; the year has at most four digits.
    pub open spec fn wf(&self) -> bool {
        &&& self.year <= 9999
        &&& 1 <= self.month <= 12
        &&& 1 <= self.day <= 31
        &&& self.hour < 24
        &&& self.minute < 60
        &&& self.second <= 60
    }

    /// Tests `wf`.
    pub fn is_valid(&self) -> (r: bool)
        ensures
            r == self.wf(),
    {
        self.year <= 9999 && 1 <= self.month && self.month <= 12 && 1 <= self.day && self.day
            <= 31 && self.hour < 24 && self.minute < 60 && self.second <= 60
    }
}

/// The decimal digits, by value.
pub open spec fn digit_chars() -> Seq<char> {
    seq!['0', '1', '2', '3', '4', '5', '6', '7', '8', '9']
}

/// The last `width` decimal digits of `n`, with leading zeros.
pub open spec fn padded(n: nat, width: nat) -> Seq<char>
    decreases width,
{
    if width == 0 {
        Seq::empty()
    } else {
        padded(n / 10, (width - 1) as nat).push(digit_chars()[(n % 10) as int])
    }
}

/// `n` in decimal, without leading zeros.
pub open spec fn decimal_text(n: nat) -> Seq<char>
    decreases n,
{
    if n < 10 {
        seq![digit_chars()[n as int]]
    } else {
        decimal_text(n / 10).push(digit_chars()[(n % 10) as int])
    }
}

/// `DD-MM-YYYY, HH:MM:SS`
pub open spec fn stamp_text(t: Timestamp) -> Seq<char> {
    padded(t.day as nat, 2) + seq!['-'] + padded(t.month as nat, 2) + seq!['-'] + padded(
        t.year as nat,
        4,
    ) + seq![','] + seq![' '] + padded(t.hour as nat, 2) + seq![':'] + padded(t.minute as nat, 2)
        + seq![':'] + padded(t.second as nat, 2)
}

/// The whole output file: a header line, then the time of writing and the weight.
pub open spec fn record_text(t: Timestamp, weight: u32) -> Seq<char> {
    "Date, Time, Weight\n"@ + stamp_text(t) + ", "@ + decimal_text(weight as nat) + "\n"@
}

/// Relies on `String::push`: appends one character.
#[verifier::external_body]
fn push_char(s: &mut String, c: char)
    ensures
        final(s)@ == old(s)@.push(c),
{
    s.push(c)
}

fn digit_char(d: u32) -> (c: char)
    requires
        d < 10,
    ensures
        c == digit_chars()[d as int],
{
    let digits = vec!['0', '1', '2', '3', '4', '5', '6', '7', '8', '9'];
    assert(digits@ =~= digit_chars());
    digits[d as usize]
}

fn push_padded(out: &mut String, n: u32, width: u32)
    ensures
        final(out)@ == old(out)@ + padded(n as nat, width as nat),
    decreases width,
{
    if width > 0 {
        push_padded(out, n / 10, width - 1);
        push_char(out, digit_char(n % 10));
    }
}

fn push_decimal(out: &mut String, n: u32)
    ensures
        final(out)@ == old(out)@ + decimal_text(n as nat),
    decreases n,
{
    if n >= 10 {
        push_decimal(out, n / 10);
    }
    push_char(out, digit_char(n % 10));
}

/// The text of the output file for `weight`, written at time `t`.
pub fn format_record(t: &Timestamp, weight: u32) -> (r: String)
    requires
        t.wf(),
    ensures
        r@ == record_text(*t, weight),
{
    let mut out = String::from_str("Date, Time, Weight\n");
    push_padded(&mut out, t.day, 2);
    push_char(&mut out, '-');
    push_padded(&mut out, t.month, 2);
    push_char(&mut out, '-');
    push_padded(&mut out, t.year, 4);
    push_char(&mut out, ',');
    push_char(&mut out, ' ');
    push_padded(&mut out, t.hour, 2);
    push_char(&mut out, ':');
    push_padded(&mut out, t.minute, 2);
    push_char(&mut out, ':');
    push_padded(&mut out, t.second, 2);
    out.append(", ");
    push_decimal(&mut out, weight);
    out.append("\n");
    assert(out@ =~= record_text(*t, weight));
    out
}

} // verus!
