use vstd::prelude::*;

use crate::chars::{char_is_digit, char_is_space, is_digit, is_space};
use crate::frame::{
    date_tag, decimal_value, field_line_at, first_frame_at, frame_at, frame_weight, gross_tag,
    has_frame, lit_at, skip_digits, skip_space, time_tag, two_digits_at, unit_tag, weight_end,
    weight_start,
};

verus! {

/// What a buffer holds, as far as frames go.
#[derive(PartialEq, Eq, Structural, Clone, Copy, Debug)]
pub enum FrameScan {
    /// No complete frame yet.
    NotFound,
    /// The first complete frame, with its gross weight.
    Weight(u32),
    /// The first complete frame states a weight larger than `u32::MAX`.
    Overflow,
}

/// What scanning `s` gives: the weight of its first frame, if there is one.
pub open spec fn scan_spec(s: Seq<char>) -> FrameScan {
    if has_frame(s) {
        let d = choose|d: int| first_frame_at(s, d);
        if frame_weight(s, d) <= u32::MAX {
            FrameScan::Weight(frame_weight(s, d) as u32)
        } else {
            FrameScan::Overflow
        }
    } else {
        FrameScan::NotFound
    }
}

pub proof fn lemma_skip_space_bounds(s: Seq<char>, i: int)
    requires
        0 <= i <= s.len(),
    ensures
        i <= skip_space(s, i) <= s.len(),
        forall|k: int| i <= k < skip_space(s, i) ==> is_space(#[trigger] s[k]),
        skip_space(s, i) < s.len() ==> !is_space(s[skip_space(s, i)]),
    decreases s.len() - i,
{
    if i < s.len() && is_space(s[i]) {
        lemma_skip_space_bounds(s, i + 1);
    }
}

pub proof fn lemma_skip_digits_bounds(s: Seq<char>, i: int)
    requires
        0 <= i <= s.len(),
    ensures
        i <= skip_digits(s, i) <= s.len(),
        forall|k: int| i <= k < skip_digits(s, i) ==> is_digit(#[trigger] s[k]),
        skip_digits(s, i) < s.len() ==> !is_digit(s[skip_digits(s, i)]),
    decreases s.len() - i,
{
    if i < s.len() && is_digit(s[i]) {
        lemma_skip_digits_bounds(s, i + 1);
    }
}

/// The first frame of a text decides what scanning it gives.
pub proof fn lemma_first_frame_decides(s: Seq<char>, d: int)
    requires
        first_frame_at(s, d),
    ensures
        scan_spec(s) == (if frame_weight(s, d) <= u32::MAX {
            FrameScan::Weight(frame_weight(s, d) as u32)
        } else {
            FrameScan::Overflow
        }),
{
    assert(has_frame(s));
    let e = choose|e: int| first_frame_at(s, e);
    if e < d {
        assert(!frame_at(s, e));
    } else if e > d {
        assert(!frame_at(s, d));
    }
}

/// The characters of `s`, one by one.
fn chars_of(s: &str) -> (v: Vec<char>)
    ensures
        v@ == s@,
{
    let mut v: Vec<char> = Vec::new();
    let mut it = s.chars();
    proof {
        broadcast use vstd::string::axiom_spec_iter;
    }
    for c in iter: it
        invariant
            iter.seq() == s@,
            v@ == s@.take(iter.index() as int),
    {
        v.push(c);
        proof {
            assert(v@ =~= s@.take(iter.index() + 1));
        }
    }
    assert(v@ =~= s@);
    v
}

fn skip_space_exec(v: &Vec<char>, i: usize) -> (r: usize)
    requires
        i <= v.len(),
    ensures
        r == skip_space(v@, i as int),
        i <= r <= v.len(),
{
    proof {
        lemma_skip_space_bounds(v@, i as int);
    }
    let mut j: usize = i;
    while j < v.len() && char_is_space(v[j])
        invariant
            i <= j <= v.len(),
            skip_space(v@, j as int) == skip_space(v@, i as int),
        decreases v.len() - j,
    {
        j = j + 1;
    }
    j
}

fn skip_digits_exec(v: &Vec<char>, i: usize) -> (r: usize)
    requires
        i <= v.len(),
    ensures
        r == skip_digits(v@, i as int),
        i <= r <= v.len(),
{
    proof {
        lemma_skip_digits_bounds(v@, i as int);
    }
    let mut j: usize = i;
    while j < v.len() && char_is_digit(v[j])
        invariant
            i <= j <= v.len(),
            skip_digits(v@, j as int) == skip_digits(v@, i as int),
        decreases v.len() - j,
    {
        j = j + 1;
    }
    j
}

fn lit_at_exec(v: &Vec<char>, i: usize, lit: &Vec<char>) -> (r: bool)
    ensures
        r == lit_at(v@, i as int, lit@),
{
    if i > v.len() || v.len() - i < lit.len() {
        return false;
    }
    let mut k: usize = 0;
    while k < lit.len()
        invariant
            i + lit.len() <= v.len(),
            k <= lit.len(),
            forall|m: int| 0 <= m < k ==> #[trigger] v@[i + m] == lit@[m],
        decreases lit.len() - k,
    {
        if v[i + k] != lit[k] {
            return false;
        }
        k = k + 1;
    }
    true
}

fn two_digits_at_exec(v: &Vec<char>, i: usize) -> (r: bool)
    ensures
        r == two_digits_at(v@, i as int),
{
    i <= v.len() && v.len() - i >= 2 && char_is_digit(v[i]) && char_is_digit(v[i + 1])
}

fn field_line_at_exec(v: &Vec<char>, i: usize, sep: char) -> (r: bool)
    ensures
        r == field_line_at(v@, i as int, sep),
{
    i <= v.len() && v.len() - i >= 9 && two_digits_at_exec(v, i) && v[i + 2] == sep
        && two_digits_at_exec(v, i + 3) && v[i + 5] == sep && two_digits_at_exec(v, i + 6)
        && v[i + 8] == '\n'
}

/// Checks for a frame whose `Date:` tag is at `d`, and gives where its weight digits stand.
fn frame_at_exec(v: &Vec<char>, d: usize) -> (r: Option<(usize, usize)>)
    ensures
        r is Some <==> frame_at(v@, d as int),
        r matches Some((a, b)) ==> a == weight_start(v@, d as int) && b == weight_end(v@, d as int),
{
    let ghost s = v@;
    let n = v.len();
    if d < 1 || d > n || !char_is_space(v[d - 1]) {
        return None;
    }
    let date = vec!['D', 'a', 't', 'e', ':'];
    assert(date@ =~= date_tag());
    if !lit_at_exec(v, d, &date) {
        return None;
    }
    let df = skip_space_exec(v, d + 5);
    if df == d + 5 || !field_line_at_exec(v, df, '.') {
        return None;
    }
    let tp = skip_space_exec(v, df + 9);
    let time = vec!['T', 'i', 'm', 'e', ':'];
    assert(time@ =~= time_tag());
    if tp == df + 9 || !lit_at_exec(v, tp, &time) {
        return None;
    }
    let tf = skip_space_exec(v, tp + 5);
    if tf == tp + 5 || !field_line_at_exec(v, tf, ':') {
        return None;
    }
    let gp = skip_space_exec(v, tf + 9);
    let gross = vec!['G', 'r', 'o', 's', 's'];
    assert(gross@ =~= gross_tag());
    if gp == tf + 9 || !lit_at_exec(v, gp, &gross) {
        return None;
    }
    let ws = skip_space_exec(v, gp + 5);
    if ws == gp + 5 {
        return None;
    }
    let we = skip_digits_exec(v, ws);
    let unit = vec!['k', 'g'];
    assert(unit@ =~= unit_tag());
    if we > ws && lit_at_exec(v, we, &unit) {
        Some((ws, we))
    } else {
        None
    }
}

pub proof fn lemma_decimal_prefix_le(s: Seq<char>, a: int, i: int, j: int)
    requires
        0 <= a <= i <= j <= s.len(),
    ensures
        decimal_value(s.subrange(a, i)) <= decimal_value(s.subrange(a, j)),
    decreases j - i,
{
    if i < j {
        lemma_decimal_prefix_le(s, a, i, j - 1);
        assert(s.subrange(a, j).drop_last() =~= s.subrange(a, j - 1));
    }
}

/// Reads the digits `v[start..end]` as a `u32`; `None` when their value does not fit.
fn decimal_u32(v: &Vec<char>, start: usize, end: usize) -> (r: Option<u32>)
    requires
        start <= end <= v.len(),
        forall|k: int| start <= k < end ==> is_digit(#[trigger] v@[k]),
    ensures
        match r {
            Some(w) => w as nat == decimal_value(v@.subrange(start as int, end as int)),
            None => decimal_value(v@.subrange(start as int, end as int)) > u32::MAX,
        },
{
    let mut acc: u32 = 0;
    let mut k: usize = start;
    assert(v@.subrange(start as int, start as int) =~= Seq::<char>::empty());
    while k < end
        invariant
            start <= k <= end <= v.len(),
            forall|m: int| start <= m < end ==> is_digit(#[trigger] v@[m]),
            acc as nat == decimal_value(v@.subrange(start as int, k as int)),
        decreases end - k,
    {
        let c = v[k];
        assert(is_digit(v@[k as int]));
        let dv: u32 = c as u32 - '0' as u32;
        let next: u64 = acc as u64 * 10 + dv as u64;
        assert(v@.subrange(start as int, k + 1).drop_last() =~= v@.subrange(start as int, k as int));
        assert(next == decimal_value(v@.subrange(start as int, k + 1)));
        if next > u32::MAX as u64 {
            proof {
                lemma_decimal_prefix_le(v@, start as int, k + 1, end as int);
            }
            return None;
        }
        acc = next as u32;
        k = k + 1;
    }
    Some(acc)
}

/// Looks for the first complete frame in `data`.
pub fn scan_frame(data: &str) -> (r: FrameScan)
    ensures
        r == scan_spec(data@),
{
    let v = chars_of(data);
    let n = v.len();
    let mut d: usize = 0;
    while d < n
        invariant
            n == v.len(),
            v@ == data@,
            d <= n,
            forall|k: int| 0 <= k < d ==> !#[trigger] frame_at(v@, k),
        decreases n - d,
    {
        if let Some((ws, we)) = frame_at_exec(&v, d) {
            let ghost s = v@;
            proof {
                assert(first_frame_at(s, d as int));
                lemma_first_frame_decides(s, d as int);
                lemma_skip_digits_bounds(s, weight_start(s, d as int));
            }
            return match decimal_u32(&v, ws, we) {
                Some(w) => FrameScan::Weight(w),
                None => FrameScan::Overflow,
            };
        }
        d = d + 1;
    }
    assert(!has_frame(v@));
    FrameScan::NotFound
}

/// The gross weight of the first frame in `data`, paired with a reserved field that is always 0.
/// `None` while no complete frame is present, and also when the first frame states a weight
/// that does not fit in a `u32` (such a frame is rejected rather than read).
pub fn parse_scale_data(data: &str) -> (r: Option<(u32, u32)>)
    ensures
        r == (match scan_spec(data@) {
            FrameScan::Weight(w) => Some((w, 0u32)),
            _ => None,
        }),
{
    match scan_frame(data) {
        FrameScan::Weight(w) => Some((w, 0)),
        _ => None,
    }
}

} // verus!
