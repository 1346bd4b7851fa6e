use vstd::prelude::*;

use crate::chars::{digit_value, is_digit, is_space};

verus! {

/// End of the run of whitespace that starts at `i` (`i` itself when there is none).
pub open spec fn skip_space(s: Seq<char>, i: int) -> int
    decreases s.len() - i,
{
    if 0 <= i < s.len() && is_space(s[i]) {
        skip_space(s, i + 1)
    } else {
        i
    }
}

/// End of the run of decimal digits that starts at `i`.
pub open spec fn skip_digits(s: Seq<char>, i: int) -> int
    decreases s.len() - i,
{
    if 0 <= i < s.len() && is_digit(s[i]) {
        skip_digits(s, i + 1)
    } else {
        i
    }
}

/// `lit` stands in `s` at position `i`.
pub open spec fn lit_at(s: Seq<char>, i: int, lit: Seq<char>) -> bool {
    &&& 0 <= i
    &&& i + lit.len() <= s.len()
    &&& forall|k: int| 0 <= k < lit.len() ==> #[trigger] s[i + k] == lit[k]
}

/// Two decimal digits at `i`.
pub open spec fn two_digits_at(s: Seq<char>, i: int) -> bool {
    0 <= i && i + 2 <= s.len() && is_digit(s[i]) && is_digit(s[i + 1])
}

/// `DD<sep>DD<sep>DD` followed by a line break, at `i`.
pub open spec fn field_line_at(s: Seq<char>, i: int, sep: char) -> bool {
    &&& two_digits_at(s, i)
    &&& i + 9 <= s.len()
    &&& s[i + 2] == sep
    &&& two_digits_at(s, i + 3)
    &&& s[i + 5] == sep
    &&& two_digits_at(s, i + 6)
    &&& s[i + 8] == '\n'
}

/// The tag that opens a frame.
pub open spec fn date_tag() -> Seq<char> {
    seq!['D', 'a', 't', 'e', ':']
}

/// The tag of the second line.
pub open spec fn time_tag() -> Seq<char> {
    seq!['T', 'i', 'm', 'e', ':']
}

/// The tag of the weight line.
pub open spec fn gross_tag() -> Seq<char> {
    seq!['G', 'r', 'o', 's', 's']
}

/// The unit that closes a frame.
pub open spec fn unit_tag() -> Seq<char> {
    seq!['k', 'g']
}

/// Where the `DD.DD.DD` field of a frame whose `Date:` tag is at `d` starts.
pub open spec fn date_field(s: Seq<char>, d: int) -> int {
    skip_space(s, d + 5)
}

/// Where the `Time:` tag starts.
pub open spec fn time_pos(s: Seq<char>, d: int) -> int {
    skip_space(s, date_field(s, d) + 9)
}

/// Where the `DD:DD:DD` field starts.
pub open spec fn time_field(s: Seq<char>, d: int) -> int {
    skip_space(s, time_pos(s, d) + 5)
}

/// Where the `Gross` tag starts.
pub open spec fn gross_pos(s: Seq<char>, d: int) -> int {
    skip_space(s, time_field(s, d) + 9)
}

/// Where the weight digits start.
pub open spec fn weight_start(s: Seq<char>, d: int) -> int {
    skip_space(s, gross_pos(s, d) + 5)
}

/// Where the weight digits end.
pub open spec fn weight_end(s: Seq<char>, d: int) -> int {
    skip_digits(s, weight_start(s, d))
}

/// One position past the `kg` that closes the frame.
pub open spec fn frame_end(s: Seq<char>, d: int) -> int {
    weight_end(s, d) + 2
}

/// A complete frame whose `Date:` tag starts at `d`:
///
/// ```text
/// <ws>Date:<ws>DD.DD.DD\n<ws>Time:<ws>DD:DD:DD\n<ws>Gross<ws>DIGITS kg
/// ```
///
/// where `<ws>` is one or more whitespace characters (the space before `kg`
/// above is only for reading: the unit follows the digits directly).
pub open spec fn frame_at(s: Seq<char>, d: int) -> bool {
    &&& 1 <= d
    &&& d <= s.len()
    &&& is_space(s[d - 1])
    &&& lit_at(s, d, date_tag())
    &&& date_field(s, d) > d + 5
    &&& field_line_at(s, date_field(s, d), '.')
    &&& time_pos(s, d) > date_field(s, d) + 9
    &&& lit_at(s, time_pos(s, d), time_tag())
    &&& time_field(s, d) > time_pos(s, d) + 5
    &&& field_line_at(s, time_field(s, d), ':')
    &&& gross_pos(s, d) > time_field(s, d) + 9
    &&& lit_at(s, gross_pos(s, d), gross_tag())
    &&& weight_start(s, d) > gross_pos(s, d) + 5
    &&& weight_end(s, d) > weight_start(s, d)
    &&& lit_at(s, weight_end(s, d), unit_tag())
}

/// The value of a string of decimal digits.
pub open spec fn decimal_value(digits: Seq<char>) -> nat
    decreases digits.len(),
{
    if digits.len() == 0 {
        0
    } else {
        decimal_value(digits.drop_last()) * 10 + digit_value(digits.last())
    }
}

/// The gross weight that the frame at `d` states.
pub open spec fn frame_weight(s: Seq<char>, d: int) -> nat {
    decimal_value(s.subrange(weight_start(s, d), weight_end(s, d)))
}

/// The frame at `d` is the first one in `s`.
pub open spec fn first_frame_at(s: Seq<char>, d: int) -> bool {
    frame_at(s, d) && forall|k: int| 0 <= k < d ==> !#[trigger] frame_at(s, k)
}

/// `s` holds a complete frame.
pub open spec fn has_frame(s: Seq<char>) -> bool {
    exists|d: int| #[trigger] frame_at(s, d)
}

} // verus!
