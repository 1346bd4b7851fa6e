use vstd::prelude::*;

use crate::chars::{is_digit, is_space};
use crate::frame::{
    date_field, date_tag, decimal_value, field_line_at, first_frame_at, frame_at, frame_end,
    frame_weight, gross_pos, gross_tag, has_frame, lit_at, skip_digits, skip_space, time_field,
    time_pos, time_tag, unit_tag, weight_end, weight_start,
};
use crate::scan::{
    lemma_first_frame_decides, lemma_skip_digits_bounds, lemma_skip_space_bounds, scan_spec,
    FrameScan,
};

verus! {

/// `u` and `v` hold the same characters before position `n`.
pub open spec fn agree_before(u: Seq<char>, v: Seq<char>, n: int) -> bool {
    &&& 0 <= n <= u.len()
    &&& n <= v.len()
    &&& forall|k: int| #![trigger u[k]] #![trigger v[k]] 0 <= k < n ==> u[k] == v[k]
}

proof fn lemma_skip_space_agree(u: Seq<char>, v: Seq<char>, i: int, n: int)
    requires
        agree_before(u, v, n),
        0 <= i <= n,
        skip_space(u, i) < n,
    ensures
        skip_space(v, i) == skip_space(u, i),
    decreases n - i,
{
    lemma_skip_space_bounds(u, i);
    if is_space(u[i]) {
        lemma_skip_space_agree(u, v, i + 1, n);
    }
}

proof fn lemma_skip_digits_agree(u: Seq<char>, v: Seq<char>, i: int, n: int)
    requires
        agree_before(u, v, n),
        0 <= i <= n,
        skip_digits(u, i) < n,
    ensures
        skip_digits(v, i) == skip_digits(u, i),
    decreases n - i,
{
    lemma_skip_digits_bounds(u, i);
    if is_digit(u[i]) {
        lemma_skip_digits_agree(u, v, i + 1, n);
    }
}

proof fn lemma_lit_agree(u: Seq<char>, v: Seq<char>, i: int, lit: Seq<char>, n: int)
    requires
        agree_before(u, v, n),
        lit_at(u, i, lit),
        i + lit.len() <= n,
    ensures
        lit_at(v, i, lit),
{
    assert forall|k: int| 0 <= k < lit.len() implies #[trigger] v[i + k] == lit[k] by {
        assert(u[i + k] == lit[k]);
    }
}

proof fn lemma_field_line_agree(u: Seq<char>, v: Seq<char>, i: int, sep: char, n: int)
    requires
        agree_before(u, v, n),
        field_line_at(u, i, sep),
        i + 9 <= n,
    ensures
        field_line_at(v, i, sep),
{
    assert(u[i] == v[i] && u[i + 1] == v[i + 1] && u[i + 2] == v[i + 2]);
    assert(u[i + 3] == v[i + 3] && u[i + 4] == v[i + 4] && u[i + 5] == v[i + 5]);
    assert(u[i + 6] == v[i + 6] && u[i + 7] == v[i + 7] && u[i + 8] == v[i + 8]);
}

/// The positions of a frame's parts come in order, and the frame ends within the text.
pub proof fn lemma_frame_layout(s: Seq<char>, d: int)
    requires
        frame_at(s, d),
    ensures
        d + 5 < date_field(s, d),
        date_field(s, d) + 9 < time_pos(s, d),
        time_pos(s, d) + 5 < time_field(s, d),
        time_field(s, d) + 9 < gross_pos(s, d),
        gross_pos(s, d) + 5 < weight_start(s, d),
        weight_start(s, d) < weight_end(s, d),
        frame_end(s, d) <= s.len(),
{
}

/// A frame depends only on the text up to its end.
pub proof fn lemma_frame_agree(u: Seq<char>, v: Seq<char>, d: int, n: int)
    requires
        frame_at(u, d),
        frame_end(u, d) <= n,
        agree_before(u, v, n),
    ensures
        frame_at(v, d),
        frame_end(v, d) == frame_end(u, d),
        frame_weight(v, d) == frame_weight(u, d),
{
    lemma_frame_layout(u, d);
    assert(u[d - 1] == v[d - 1]);
    lemma_lit_agree(u, v, d, date_tag(), n);
    lemma_skip_space_agree(u, v, d + 5, n);
    let df = date_field(u, d);
    lemma_field_line_agree(u, v, df, '.', n);
    lemma_skip_space_agree(u, v, df + 9, n);
    let tp = time_pos(u, d);
    lemma_lit_agree(u, v, tp, time_tag(), n);
    lemma_skip_space_agree(u, v, tp + 5, n);
    let tf = time_field(u, d);
    lemma_field_line_agree(u, v, tf, ':', n);
    lemma_skip_space_agree(u, v, tf + 9, n);
    let gp = gross_pos(u, d);
    lemma_lit_agree(u, v, gp, gross_tag(), n);
    lemma_skip_space_agree(u, v, gp + 5, n);
    let ws = weight_start(u, d);
    lemma_skip_digits_agree(u, v, ws, n);
    let we = weight_end(u, d);
    lemma_lit_agree(u, v, we, unit_tag(), n);
    assert(u.subrange(ws, we) =~= v.subrange(ws, we));
}

/// No `D` stands inside a frame after its own `Date:` tag, so a frame that starts before
/// another frame's `Date:` tag ends before it.
pub proof fn lemma_frame_ends_before_date(s: Seq<char>, e: int, d: int)
    requires
        frame_at(s, e),
        e < d < s.len(),
        s[d] == 'D',
    ensures
        frame_end(s, e) <= d,
{
    lemma_frame_layout(s, e);
    let df = date_field(s, e);
    let tp = time_pos(s, e);
    let tf = time_field(s, e);
    let gp = gross_pos(s, e);
    let ws = weight_start(s, e);
    let we = weight_end(s, e);
    lemma_skip_space_bounds(s, e + 5);
    lemma_skip_space_bounds(s, df + 9);
    lemma_skip_space_bounds(s, tp + 5);
    lemma_skip_space_bounds(s, tf + 9);
    lemma_skip_space_bounds(s, gp + 5);
    lemma_skip_digits_bounds(s, ws);
    if d < we + 2 {
        if d < e + 5 {
            assert(s[e + (d - e)] == date_tag()[d - e]);
        } else if d < df {
            assert(is_space(s[d]));
        } else if d < df + 9 {
            assert(s[d] != 'D');
        } else if d < tp {
            assert(is_space(s[d]));
        } else if d < tp + 5 {
            assert(s[tp + (d - tp)] == time_tag()[d - tp]);
        } else if d < tf {
            assert(is_space(s[d]));
        } else if d < tf + 9 {
            assert(s[d] != 'D');
        } else if d < gp {
            assert(is_space(s[d]));
        } else if d < gp + 5 {
            assert(s[gp + (d - gp)] == gross_tag()[d - gp]);
        } else if d < ws {
            assert(is_space(s[d]));
        } else if d < we {
            assert(is_digit(s[d]));
        } else {
            assert(s[we + (d - we)] == unit_tag()[d - we]);
        }
    }
}

/// Appending text to a buffer that holds a frame keeps its first frame first, so scanning
/// the longer buffer gives what scanning the shorter one gave.
pub proof fn lemma_scan_extends(s: Seq<char>, t: Seq<char>)
    requires
        has_frame(s),
    ensures
        scan_spec(s + t) == scan_spec(s),
{
    let u = s + t;
    let d0 = choose|d: int| frame_at(s, d);
    let d = lemma_first_frame_exists(s, d0);
    lemma_frame_layout(s, d);
    assert(agree_before(s, u, s.len() as int));
    lemma_frame_agree(s, u, d, s.len() as int);
    assert(s[d + 0] == date_tag()[0]);
    assert forall|k: int| 0 <= k < d implies !#[trigger] frame_at(u, k) by {
        if frame_at(u, k) {
            lemma_frame_ends_before_date(u, k, d);
            assert(agree_before(u, s, d));
            lemma_frame_agree(u, s, k, d);
            assert(!frame_at(s, k));
        }
    }
    lemma_first_frame_decides(s, d);
    lemma_first_frame_decides(u, d);
}

/// A text with a frame has a first one, at or before any frame it holds.
pub proof fn lemma_first_frame_exists(s: Seq<char>, d: int) -> (f: int)
    requires
        frame_at(s, d),
    ensures
        first_frame_at(s, f),
        f <= d,
    decreases d,
{
    if exists|k: int| 0 <= k < d && #[trigger] frame_at(s, k) {
        let k = choose|k: int| 0 <= k < d && #[trigger] frame_at(s, k);
        lemma_first_frame_exists(s, k)
    } else {
        d
    }
}

/// A non-empty run of whitespace.
pub open spec fn is_space_run(w: Seq<char>) -> bool {
    w.len() > 0 && forall|k: int| 0 <= k < w.len() ==> is_space(#[trigger] w[k])
}

/// A non-empty run of decimal digits.
pub open spec fn is_digit_run(w: Seq<char>) -> bool {
    w.len() > 0 && forall|k: int| 0 <= k < w.len() ==> is_digit(#[trigger] w[k])
}

/// `DD<sep>DD<sep>DD`
pub open spec fn is_field(f: Seq<char>, sep: char) -> bool {
    &&& f.len() == 8
    &&& is_digit(f[0]) && is_digit(f[1]) && f[2] == sep
    &&& is_digit(f[3]) && is_digit(f[4]) && f[5] == sep
    &&& is_digit(f[6]) && is_digit(f[7])
}

/// A frame laid out from its parts, after the text `before` and followed by `after`.
pub open spec fn laid_out(
    before: Seq<char>,
    w0: Seq<char>,
    w1: Seq<char>,
    date: Seq<char>,
    w2: Seq<char>,
    w3: Seq<char>,
    time: Seq<char>,
    w4: Seq<char>,
    w5: Seq<char>,
    digits: Seq<char>,
    after: Seq<char>,
) -> Seq<char> {
    before + w0 + date_tag() + w1 + date + seq!['\n'] + w2 + time_tag() + w3 + time + seq!['\n']
        + w4 + gross_tag() + w5 + digits + unit_tag() + after
}

proof fn lemma_skip_space_over(s: Seq<char>, i: int, w: Seq<char>)
    requires
        lit_at(s, i, w),
        forall|k: int| 0 <= k < w.len() ==> is_space(#[trigger] w[k]),
        i + w.len() < s.len(),
        !is_space(s[i + w.len()]),
    ensures
        skip_space(s, i) == i + w.len(),
    decreases w.len(),
{
    if w.len() > 0 {
        assert(s[i + 0] == w[0]);
        assert(lit_at(s, i + 1, w.drop_first())) by {
            assert forall|k: int| 0 <= k < w.len() - 1 implies #[trigger] s[i + 1 + k]
                == w.drop_first()[k] by {
                assert(s[i + (k + 1)] == w[k + 1]);
            }
        }
        lemma_skip_space_over(s, i + 1, w.drop_first());
    }
}

proof fn lemma_skip_digits_over(s: Seq<char>, i: int, w: Seq<char>)
    requires
        lit_at(s, i, w),
        forall|k: int| 0 <= k < w.len() ==> is_digit(#[trigger] w[k]),
        i + w.len() < s.len(),
        !is_digit(s[i + w.len()]),
    ensures
        skip_digits(s, i) == i + w.len(),
    decreases w.len(),
{
    if w.len() > 0 {
        assert(s[i + 0] == w[0]);
        assert(lit_at(s, i + 1, w.drop_first())) by {
            assert forall|k: int| 0 <= k < w.len() - 1 implies #[trigger] s[i + 1 + k]
                == w.drop_first()[k] by {
                assert(s[i + (k + 1)] == w[k + 1]);
            }
        }
        lemma_skip_digits_over(s, i + 1, w.drop_first());
    }
}

proof fn lemma_field_line_over(s: Seq<char>, i: int, f: Seq<char>, sep: char)
    requires
        lit_at(s, i, f),
        is_field(f, sep),
        i + 8 < s.len(),
        s[i + 8] == '\n',
    ensures
        field_line_at(s, i, sep),
{
    assert(s[i + 0] == f[0] && s[i + 1] == f[1] && s[i + 2] == f[2]);
    assert(s[i + 3] == f[3] && s[i + 4] == f[4] && s[i + 5] == f[5]);
    assert(s[i + 6] == f[6] && s[i + 7] == f[7]);
}

proof fn lemma_lit_append(x: Seq<char>, y: Seq<char>, i: int, z: Seq<char>)
    requires
        lit_at(x, i, z),
    ensures
        lit_at(x + y, i, z),
{
    assert forall|k: int| 0 <= k < z.len() implies #[trigger] (x + y)[i + k] == z[k] by {
        assert(x[i + k] == z[k]);
    }
}

proof fn lemma_agree_shrink(x: Seq<char>, y: Seq<char>, s: Seq<char>)
    requires
        agree_before(x + y, s, (x + y).len() as int),
    ensures
        agree_before(x, s, x.len() as int),
{
    assert forall|k: int| 0 <= k < x.len() implies x[k] == s[k] by {
        assert((x + y)[k] == x[k]);
    }
}

proof fn lemma_lit_end(x: Seq<char>, z: Seq<char>)
    ensures
        lit_at(x + z, x.len() as int, z),
{
    assert forall|k: int| 0 <= k < z.len() implies #[trigger] (x + z)[x.len() + k] == z[k] by {}
}

proof fn lemma_parts_first_frame(
    s: Seq<char>,
    before: Seq<char>,
    w0: Seq<char>,
    w1: Seq<char>,
    date: Seq<char>,
    w2: Seq<char>,
    w3: Seq<char>,
    time: Seq<char>,
    w4: Seq<char>,
    w5: Seq<char>,
    digits: Seq<char>,
    o0: int,
    o1: int,
    o2: int,
    o3: int,
    o4: int,
    o5: int,
    o6: int,
    o7: int,
    o8: int,
    o9: int,
    o10: int,
    o11: int,
    o12: int,
    o13: int,
    o14: int,
    o15: int,
)
    requires
        !has_frame(before),
        agree_before(before, s, o0),
        o0 == before.len(),
        is_space_run(w0),
        is_space_run(w1),
        is_space_run(w2),
        is_space_run(w3),
        is_space_run(w4),
        is_space_run(w5),
        is_field(date, '.'),
        is_field(time, ':'),
        is_digit_run(digits),
        o1 == o0 + w0.len(),
        lit_at(s, o0, w0),
        o2 == o1 + date_tag().len(),
        lit_at(s, o1, date_tag()),
        o3 == o2 + w1.len(),
        lit_at(s, o2, w1),
        o4 == o3 + date.len(),
        lit_at(s, o3, date),
        o5 == o4 + seq!['\n'].len(),
        lit_at(s, o4, seq!['\n']),
        o6 == o5 + w2.len(),
        lit_at(s, o5, w2),
        o7 == o6 + time_tag().len(),
        lit_at(s, o6, time_tag()),
        o8 == o7 + w3.len(),
        lit_at(s, o7, w3),
        o9 == o8 + time.len(),
        lit_at(s, o8, time),
        o10 == o9 + seq!['\n'].len(),
        lit_at(s, o9, seq!['\n']),
        o11 == o10 + w4.len(),
        lit_at(s, o10, w4),
        o12 == o11 + gross_tag().len(),
        lit_at(s, o11, gross_tag()),
        o13 == o12 + w5.len(),
        lit_at(s, o12, w5),
        o14 == o13 + digits.len(),
        lit_at(s, o13, digits),
        o15 == o14 + unit_tag().len(),
        lit_at(s, o14, unit_tag()),
        o15 <= s.len(),
    ensures
        first_frame_at(s, o1),
        frame_weight(s, o1) == decimal_value(digits),
{
    let d = o1;
    assert(s[o0 + (w0.len() - 1) as int] == w0[w0.len() - 1]);
    assert(s[o3 + 0] == date[0]);
    lemma_skip_space_over(s, o2, w1);
    assert(s[o4 + 0] == seq!['\n'][0]);
    lemma_field_line_over(s, o3, date, '.');
    assert(s[o6 + 0] == time_tag()[0]);
    lemma_skip_space_over(s, o5, w2);
    assert(s[o8 + 0] == time[0]);
    lemma_skip_space_over(s, o7, w3);
    assert(s[o9 + 0] == seq!['\n'][0]);
    lemma_field_line_over(s, o8, time, ':');
    assert(s[o11 + 0] == gross_tag()[0]);
    lemma_skip_space_over(s, o10, w4);
    assert(s[o13 + 0] == digits[0]);
    lemma_skip_space_over(s, o12, w5);
    assert(s[o14 + 0] == unit_tag()[0]);
    lemma_skip_digits_over(s, o13, digits);
    assert(frame_at(s, d));
    assert(s.subrange(o13, o14) =~= digits) by {
        assert forall|k: int| 0 <= k < digits.len() implies s.subrange(o13, o14)[k] == digits[k] by {
            assert(s[o13 + k] == digits[k]);
        }
    }
    assert(s[d + 0] == date_tag()[0]);
    assert forall|k: int| 0 <= k < d implies !#[trigger] frame_at(s, k) by {
        if frame_at(s, k) {
            lemma_frame_ends_before_date(s, k, d);
            let we = weight_end(s, k);
            assert(s[we + 1] == unit_tag()[1]);
            if we + 1 >= o0 {
                assert(s[o0 + (we + 1 - o0)] == w0[we + 1 - o0]);
            }
            assert(agree_before(s, before, o0));
            lemma_frame_agree(s, before, k, o0);
        }
    }
}

/// A frame written with any non-empty runs of whitespace between its tokens scans to the
/// value of its weight digits, whatever text follows it and whatever frameless text comes
/// before it.
pub proof fn lemma_laid_out_frame_scans(
    before: Seq<char>,
    w0: Seq<char>,
    w1: Seq<char>,
    date: Seq<char>,
    w2: Seq<char>,
    w3: Seq<char>,
    time: Seq<char>,
    w4: Seq<char>,
    w5: Seq<char>,
    digits: Seq<char>,
    after: Seq<char>,
)
    requires
        !has_frame(before),
        is_space_run(w0),
        is_space_run(w1),
        is_space_run(w2),
        is_space_run(w3),
        is_space_run(w4),
        is_space_run(w5),
        is_field(date, '.'),
        is_field(time, ':'),
        is_digit_run(digits),
    ensures
        scan_spec(laid_out(before, w0, w1, date, w2, w3, time, w4, w5, digits, after)) == (if decimal_value(
            digits,
        ) <= u32::MAX {
            FrameScan::Weight(decimal_value(digits) as u32)
        } else {
            FrameScan::Overflow
        }),
{
    let q0 = before;
    let q1 = q0 + w0;
    let q2 = q1 + date_tag();
    let q3 = q2 + w1;
    let q4 = q3 + date;
    let q5 = q4 + seq!['\n'];
    let q6 = q5 + w2;
    let q7 = q6 + time_tag();
    let q8 = q7 + w3;
    let q9 = q8 + time;
    let q10 = q9 + seq!['\n'];
    let q11 = q10 + w4;
    let q12 = q11 + gross_tag();
    let q13 = q12 + w5;
    let q14 = q13 + digits;
    let q15 = q14 + unit_tag();
    let s = q15 + after;
    assert(s == laid_out(before, w0, w1, date, w2, w3, time, w4, w5, digits, after));
    // Each part stands in `s` where it stood in the prefix that ends with it.
    assert(agree_before(q15, s, q15.len() as int));
    lemma_agree_shrink(q14, unit_tag(), s);
    lemma_agree_shrink(q13, digits, s);
    lemma_agree_shrink(q12, w5, s);
    lemma_agree_shrink(q11, gross_tag(), s);
    lemma_agree_shrink(q10, w4, s);
    lemma_agree_shrink(q9, seq!['\n'], s);
    lemma_agree_shrink(q8, time, s);
    lemma_agree_shrink(q7, w3, s);
    lemma_agree_shrink(q6, time_tag(), s);
    lemma_agree_shrink(q5, w2, s);
    lemma_agree_shrink(q4, seq!['\n'], s);
    lemma_agree_shrink(q3, date, s);
    lemma_agree_shrink(q2, w1, s);
    lemma_agree_shrink(q1, date_tag(), s);
    lemma_agree_shrink(q0, w0, s);
    lemma_lit_end(q0, w0);
    lemma_lit_agree(q1, s, q0.len() as int, w0, q1.len() as int);
    lemma_lit_end(q1, date_tag());
    lemma_lit_agree(q2, s, q1.len() as int, date_tag(), q2.len() as int);
    lemma_lit_end(q2, w1);
    lemma_lit_agree(q3, s, q2.len() as int, w1, q3.len() as int);
    lemma_lit_end(q3, date);
    lemma_lit_agree(q4, s, q3.len() as int, date, q4.len() as int);
    lemma_lit_end(q4, seq!['\n']);
    lemma_lit_agree(q5, s, q4.len() as int, seq!['\n'], q5.len() as int);
    lemma_lit_end(q5, w2);
    lemma_lit_agree(q6, s, q5.len() as int, w2, q6.len() as int);
    lemma_lit_end(q6, time_tag());
    lemma_lit_agree(q7, s, q6.len() as int, time_tag(), q7.len() as int);
    lemma_lit_end(q7, w3);
    lemma_lit_agree(q8, s, q7.len() as int, w3, q8.len() as int);
    lemma_lit_end(q8, time);
    lemma_lit_agree(q9, s, q8.len() as int, time, q9.len() as int);
    lemma_lit_end(q9, seq!['\n']);
    lemma_lit_agree(q10, s, q9.len() as int, seq!['\n'], q10.len() as int);
    lemma_lit_end(q10, w4);
    lemma_lit_agree(q11, s, q10.len() as int, w4, q11.len() as int);
    lemma_lit_end(q11, gross_tag());
    lemma_lit_agree(q12, s, q11.len() as int, gross_tag(), q12.len() as int);
    lemma_lit_end(q12, w5);
    lemma_lit_agree(q13, s, q12.len() as int, w5, q13.len() as int);
    lemma_lit_end(q13, digits);
    lemma_lit_agree(q14, s, q13.len() as int, digits, q14.len() as int);
    lemma_lit_end(q14, unit_tag());
    lemma_lit_agree(q15, s, q14.len() as int, unit_tag(), q15.len() as int);
    lemma_parts_first_frame(
        s,
        before,
        w0,
        w1,
        date,
        w2,
        w3,
        time,
        w4,
        w5,
        digits,
        q0.len() as int,
        q1.len() as int,
        q2.len() as int,
        q3.len() as int,
        q4.len() as int,
        q5.len() as int,
        q6.len() as int,
        q7.len() as int,
        q8.len() as int,
        q9.len() as int,
        q10.len() as int,
        q11.len() as int,
        q12.len() as int,
        q13.len() as int,
        q14.len() as int,
        q15.len() as int,
    );
    lemma_first_frame_decides(s, q1.len() as int);
}

/// The date and time fields of every frame are three groups of exactly two digits: the
/// character before each field is whitespace and the one after it is a line break.
pub proof fn lemma_frame_fields_two_digits(s: Seq<char>, d: int)
    requires
        frame_at(s, d),
    ensures
        is_field(s.subrange(date_field(s, d), date_field(s, d) + 8), '.'),
        is_space(s[date_field(s, d) - 1]),
        s[date_field(s, d) + 8] == '\n',
        is_field(s.subrange(time_field(s, d), time_field(s, d) + 8), ':'),
        is_space(s[time_field(s, d) - 1]),
        s[time_field(s, d) + 8] == '\n',
{
    lemma_frame_layout(s, d);
    lemma_skip_space_bounds(s, d + 5);
    lemma_skip_space_bounds(s, time_pos(s, d) + 5);
}

} // verus!
