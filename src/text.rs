//! The textual forms of a 128-bit identifier, as mathematical sequences.
use vstd::prelude::*;

verus! {

/// An ASCII hexadecimal digit, in either case.
pub open spec fn is_hex_digit(c: char) -> bool {
    ('0' <= c && c <= '9') || ('a' <= c && c <= 'f') || ('A' <= c && c <= 'F')
}

/// An ASCII hexadecimal digit in lower case.
pub open spec fn is_lower_hex_digit(c: char) -> bool {
    ('0' <= c && c <= '9') || ('a' <= c && c <= 'f')
}

/// The value of a hexadecimal digit.
pub open spec fn hex_digit_value(c: char) -> nat {
    if '0' <= c && c <= '9' {
        (c as int - '0' as int) as nat
    } else if 'a' <= c && c <= 'f' {
        (c as int - 'a' as int + 10) as nat
    } else {
        (c as int - 'A' as int + 10) as nat
    }
}

/// The lower-case digit that writes `d` (for `d < 16`).
pub open spec fn lower_hex_char(d: nat) -> char {
    if d < 10 {
        ((d + 48) as u8) as char
    } else {
        ((d + 87) as u8) as char
    }
}

pub open spec fn all_hex(s: Seq<char>) -> bool {
    forall|i: int| 0 <= i < s.len() ==> is_hex_digit(#[trigger] s[i])
}

/// The number that the hexadecimal digits `s` write, most significant first.
pub open spec fn hex_number(s: Seq<char>) -> nat
    decreases s.len(),
{
    if s.len() == 0 {
        0
    } else {
        hex_number(s.drop_last()) * 16 + hex_digit_value(s.last())
    }
}

/// The `n` lowest hexadecimal digits of `v`, most significant first.
pub open spec fn hex_digits(v: nat, n: nat) -> Seq<nat>
    decreases n,
{
    if n == 0 {
        seq![]
    } else {
        hex_digits(v / 16, (n - 1) as nat).push(v % 16)
    }
}

/// The 32 lower-case hexadecimal digits of a 128-bit value.
pub open spec fn simple_text(v: nat) -> Seq<char> {
    hex_digits(v, 32).map_values(|d: nat| lower_hex_char(d))
}

/// Groups 32 digits as 8-4-4-4-12, joined by hyphens.
pub open spec fn hyphenate(s: Seq<char>) -> Seq<char> {
    s.subrange(0, 8) + seq!['-'] + s.subrange(8, 12) + seq!['-'] + s.subrange(12, 16)
        + seq!['-'] + s.subrange(16, 20) + seq!['-'] + s.subrange(20, 32)
}

/// The canonical rendering of a 128-bit value: lower-case, hyphen-grouped.
pub open spec fn hyphenated_text(v: nat) -> Seq<char> {
    hyphenate(simple_text(v))
}

/// The positions of the four hyphens in a hyphenated identifier.
pub open spec fn is_hyphen_position(i: int) -> bool {
    i == 8 || i == 13 || i == 18 || i == 23
}

/// The 32 digits of a 36-character hyphenated identifier, hyphens left out.
pub open spec fn unhyphenate(s: Seq<char>) -> Seq<char> {
    s.subrange(0, 8) + s.subrange(9, 13) + s.subrange(14, 18) + s.subrange(19, 23)
        + s.subrange(24, 36)
}

/// The value written by a 36-character hyphenated identifier of either case.
pub open spec fn hyphenated_value(s: Seq<char>) -> Option<nat> {
    if s.len() == 36 && s[8] == '-' && s[13] == '-' && s[18] == '-' && s[23] == '-' && all_hex(
        unhyphenate(s),
    ) {
        Some(hex_number(unhyphenate(s)))
    } else {
        None
    }
}

/// `c` equals the lower-case ASCII letter or sign `l`, ignoring ASCII case.
pub open spec fn same_ignoring_case(c: char, l: char) -> bool {
    c == l || ('a' <= l && l <= 'z' && c as int == l as int - 32)
}

/// The nine characters `urn:uuid:`, in any ASCII case.
pub open spec fn is_urn_prefix(p: Seq<char>) -> bool {
    &&& p.len() == 9
    &&& same_ignoring_case(p[0], 'u')
    &&& same_ignoring_case(p[1], 'r')
    &&& same_ignoring_case(p[2], 'n')
    &&& p[3] == ':'
    &&& same_ignoring_case(p[4], 'u')
    &&& same_ignoring_case(p[5], 'u')
    &&& same_ignoring_case(p[6], 'i')
    &&& same_ignoring_case(p[7], 'd')
    &&& p[8] == ':'
}

/// The value of an identifier written in one of the accepted text forms:
/// 32 digits; 36 characters hyphen-grouped; those 36 in braces; or those 36
/// after `urn:uuid:`. Digits may be of either case.
pub open spec fn identifier_text_value(s: Seq<char>) -> Option<nat> {
    if s.len() == 32 {
        if all_hex(s) {
            Some(hex_number(s))
        } else {
            None
        }
    } else if s.len() == 36 {
        hyphenated_value(s)
    } else if s.len() == 38 && s[0] == '{' && s[37] == '}' {
        hyphenated_value(s.subrange(1, 37))
    } else if s.len() == 45 && is_urn_prefix(s.subrange(0, 9)) {
        hyphenated_value(s.subrange(9, 45))
    } else {
        None
    }
}

/// A canonical rendering: 36 characters, hyphens at positions 8, 13, 18 and
/// 23, lower-case hexadecimal digits everywhere else.
pub open spec fn is_canonical_text(s: Seq<char>) -> bool {
    &&& s.len() == 36
    &&& forall|i: int|
        0 <= i < 36 ==> if is_hyphen_position(i) {
            #[trigger] s[i] == '-'
        } else {
            is_lower_hex_digit(s[i])
        }
}

/// The lower-case form of a text of hexadecimal digits.
pub open spec fn lower_hex_text(s: Seq<char>) -> Seq<char> {
    s.map_values(|c: char| lower_hex_char(hex_digit_value(c)))
}

proof fn lemma_hex_digits_shape(v: nat, n: nat)
    ensures
        hex_digits(v, n).len() == n,
        forall|i: int| 0 <= i < n ==> #[trigger] hex_digits(v, n)[i] < 16,
    decreases n,
{
    if n > 0 {
        lemma_hex_digits_shape(v / 16, (n - 1) as nat);
    }
}

proof fn lemma_lower_hex_char(d: nat)
    requires
        d < 16,
    ensures
        is_lower_hex_digit(lower_hex_char(d)),
        hex_digit_value(lower_hex_char(d)) == d,
{
}

/// The digits of the number that hexadecimal digits write are those digits.
proof fn lemma_digits_of_number(s: Seq<char>)
    requires
        all_hex(s),
    ensures
        hex_digits(hex_number(s), s.len()) == s.map_values(|c: char| hex_digit_value(c)),
    decreases s.len(),
{
    if s.len() > 0 {
        let p = s.drop_last();
        assert(all_hex(p)) by {
            assert forall|i: int| 0 <= i < p.len() implies is_hex_digit(#[trigger] p[i]) by {
                assert(p[i] == s[i]);
            }
        }
        lemma_digits_of_number(p);
        let a = hex_number(p);
        let d = hex_digit_value(s.last());
        assert(is_hex_digit(s[s.len() - 1]));
        assert(d < 16);
        assert((a * 16 + d) / 16 == a && (a * 16 + d) % 16 == d) by (nonlinear_arith)
            requires
                d < 16,
        ;
        assert(hex_digits(hex_number(s), s.len()) =~= s.map_values(|c: char| hex_digit_value(c)));
    }
}

/// Every rendering is canonical: 32 lower-case hexadecimal digits grouped
/// 8-4-4-4-12 by hyphens.
pub proof fn lemma_rendering_canonical(v: nat)
    ensures
        is_canonical_text(hyphenated_text(v)),
{
    lemma_hex_digits_shape(v, 32);
    let s = simple_text(v);
    assert(s.len() == 32);
    assert forall|i: int| 0 <= i < 32 implies is_lower_hex_digit(#[trigger] s[i]) by {
        lemma_lower_hex_char(hex_digits(v, 32)[i]);
    }
    let h = hyphenated_text(v);
    assert forall|i: int| 0 <= i < 36 implies if is_hyphen_position(i) {
        #[trigger] h[i] == '-'
    } else {
        is_lower_hex_digit(h[i])
    } by {
        if i < 8 {
            assert(h[i] == s[i]);
        } else if 8 < i < 13 {
            assert(h[i] == s[i - 1]);
        } else if 13 < i < 18 {
            assert(h[i] == s[i - 2]);
        } else if 18 < i < 23 {
            assert(h[i] == s[i - 3]);
        } else if 23 < i {
            assert(h[i] == s[i - 4]);
        }
    }
}

/// Reading 32 hexadecimal digits and rendering the value gives those digits,
/// in lower case and hyphen-grouped; digits already in lower case come back
/// as they were.
pub proof fn lemma_round_trip(s: Seq<char>)
    requires
        s.len() == 32,
        all_hex(s),
    ensures
        identifier_text_value(s) == Some(hex_number(s)),
        hyphenated_text(hex_number(s)) == hyphenate(lower_hex_text(s)),
        (forall|i: int| 0 <= i < 32 ==> is_lower_hex_digit(#[trigger] s[i])) ==> hyphenated_text(
            hex_number(s),
        ) == hyphenate(s),
{
    lemma_digits_of_number(s);
    assert(simple_text(hex_number(s)) =~= lower_hex_text(s));
    if forall|i: int| 0 <= i < 32 ==> is_lower_hex_digit(#[trigger] s[i]) {
        assert(lower_hex_text(s) =~= s);
    }
}

} // verus!
