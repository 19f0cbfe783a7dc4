//! What reading, writing and cutting text keeps: a number that was written reads
//! back, and what is cut away is only what was to go.

use vstd::prelude::*;

use crate::text::{
    all_digits, ascii_lowered, control, decimal, digits_value, escaped_byte, hex_value, is_digit, position_of,
    position_of_either, signed_decimal, signed_value, split, trimmed, trimmed_end, trimmed_start, unreserved,
    unsigned_value, white_space, without_leading, without_leading_char, without_surrounding, without_trailing,
};

verus! {

/// A number's digits are digits, the first of them no zero but for zero itself, and
/// they read back as the number.
pub proof fn law_numbers_read_back(n: nat)
    ensures
        decimal(n).len() > 0,
        forall|i: int| 0 <= i < decimal(n).len() ==> '0' <= #[trigger] decimal(n)[i] <= '9',
        n > 0 ==> decimal(n)[0] != '0',
        digits_value(decimal(n)) == n,
        all_digits(decimal(n)),
        n <= u64::MAX ==> unsigned_value(decimal(n)) == Some(n as int),
        n <= u64::MAX ==> unsigned_value(seq!['+'] + decimal(n)) == Some(n as int),
        n > u64::MAX ==> unsigned_value(decimal(n)) is None,
    decreases n,
{
    let digits = decimal(n);
    if n >= 10 {
        law_numbers_read_back(n / 10);
        assert(digits.drop_last() =~= decimal(n / 10));
        assert(digits[0] == decimal(n / 10)[0]);
        assert forall|i: int| 0 <= i < digits.len() implies '0' <= #[trigger] digits[i] <= '9' by {
            if i < digits.len() - 1 {
                assert(digits[i] == decimal(n / 10)[i]);
            }
        }
    } else {
        assert(digits.drop_last().len() == 0);
        assert(digits_value(digits.drop_last()) == 0);
    }
    assert forall|i: int| 0 <= i < digits.len() implies is_digit(#[trigger] digits[i]) by {}
    assert('0' <= digits[0] <= '9');
    assert((seq!['+'] + digits).skip(1) =~= digits);
}

/// A text without digits only is no number.
pub proof fn law_other_texts_are_no_numbers(s: Seq<char>, i: int)
    requires
        0 < i < s.len(),
        !('0' <= s[i] <= '9'),
    ensures
        unsigned_value(s) is None,
        signed_value(s) is None,
        unsigned_value(Seq::empty()) is None,
        signed_value(Seq::empty()) is None,
{
    assert(s.skip(1)[i - 1] == s[i]);
    assert(!is_digit(s[i]));
}

/// A signed number reads back, and no two numbers are written alike.
pub proof fn law_signed_numbers_read_back(n: int, m: int)
    ensures
        i64::MIN <= n <= i64::MAX ==> signed_value(signed_decimal(n)) == Some(n),
        signed_decimal(n) == signed_decimal(m) ==> n == m,
        (signed_decimal(n)[0] == '-') <==> n < 0,
        signed_decimal(n).len() > 0,
{
    law_numbers_read_back((if n < 0 { -n } else { n }) as nat);
    law_numbers_read_back((if m < 0 { -m } else { m }) as nat);
    if n < 0 {
        assert(signed_decimal(n).skip(1) =~= decimal((-n) as nat));
    } else {
        assert('0' <= decimal(n as nat)[0] <= '9');
    }
    if m < 0 {
        assert(signed_decimal(m).skip(1) =~= decimal((-m) as nat));
    } else {
        assert('0' <= decimal(m as nat)[0] <= '9');
    }
}

/// A text is what is left of it without the white space at its beginning, and
/// that white space.
proof fn lemma_trimmed_start(s: Seq<char>) -> (cut: int)
    ensures
        0 <= cut <= s.len(),
        trimmed_start(s) == s.skip(cut),
        forall|i: int| 0 <= i < cut ==> white_space(#[trigger] s[i]),
        cut < s.len() ==> !white_space(s[cut]),
    decreases s.len(),
{
    if s.len() > 0 && white_space(s[0]) {
        let rest = s.skip(1);
        let cut = lemma_trimmed_start(rest);
        assert(rest.skip(cut) =~= s.skip(cut + 1));
        assert forall|i: int| 0 <= i < cut + 1 implies white_space(#[trigger] s[i]) by {
            if i > 0 {
                assert(rest[i - 1] == s[i]);
            }
        }
        if cut < rest.len() {
            assert(rest[cut] == s[cut + 1]);
        }
        cut + 1
    } else {
        assert(s.skip(0) =~= s);
        0
    }
}

/// A text is what is left of it without the white space at its end, and that
/// white space.
proof fn lemma_trimmed_end(s: Seq<char>) -> (kept: int)
    ensures
        0 <= kept <= s.len(),
        trimmed_end(s) == s.take(kept),
        forall|i: int| kept <= i < s.len() ==> white_space(#[trigger] s[i]),
        kept > 0 ==> !white_space(s[kept - 1]),
    decreases s.len(),
{
    if s.len() > 0 && white_space(s.last()) {
        let front = s.drop_last();
        let kept = lemma_trimmed_end(front);
        assert(front.take(kept) =~= s.take(kept));
        assert forall|i: int| kept <= i < s.len() implies white_space(#[trigger] s[i]) by {
            if i < front.len() {
                assert(front[i] == s[i]);
            }
        }
        kept
    } else {
        assert(s.take(s.len() as int) =~= s);
        s.len() as int
    }
}

/// Trimming cuts white space off both ends and nothing else: what is left is one
/// stretch of the text with no white space at its ends.
pub proof fn law_trimming_cuts_only_white_space(s: Seq<char>) -> (at: (int, int))
    ensures
        0 <= at.0 <= at.1 <= s.len(),
        trimmed(s) == s.subrange(at.0, at.1),
        forall|i: int| 0 <= i < at.0 ==> white_space(#[trigger] s[i]),
        forall|i: int| at.1 <= i < s.len() ==> white_space(#[trigger] s[i]),
        trimmed(s).len() > 0 ==> !white_space(trimmed(s)[0]) && !white_space(trimmed(s).last()),
{
    let cut = lemma_trimmed_start(s);
    let rest = s.skip(cut);
    let kept = lemma_trimmed_end(rest);
    assert(rest.take(kept) =~= s.subrange(cut, cut + kept));
    assert forall|i: int| cut + kept <= i < s.len() implies white_space(#[trigger] s[i]) by {
        assert(rest[i - cut] == s[i]);
    }
    if kept > 0 {
        assert(rest[0] == s[cut] && rest[kept - 1] == s[cut + kept - 1]);
    }
    (cut, cut + kept)
}

/// A text without white space at its ends is left as it is.
pub proof fn law_trimmed_texts_stay(s: Seq<char>)
    requires
        s.len() > 0 ==> !white_space(s[0]) && !white_space(s.last()),
    ensures
        trimmed(s) == s,
{
}

/// Cutting a trailing character leaves a beginning of the text that does not end
/// in it, and cuts nothing else.
pub proof fn law_trailing_characters_go(s: Seq<char>, ch: char)
    ensures
        without_trailing(s, ch).is_prefix_of(s),
        forall|i: int| without_trailing(s, ch).len() <= i < s.len() ==> #[trigger] s[i] == ch,
        without_trailing(s, ch).len() > 0 ==> without_trailing(s, ch).last() != ch,
    decreases s.len(),
{
    if s.len() > 0 && s.last() == ch {
        law_trailing_characters_go(s.drop_last(), ch);
        let kept = without_trailing(s, ch);
        assert forall|i: int| kept.len() <= i < s.len() implies #[trigger] s[i] == ch by {
            if i < s.len() - 1 {
                assert(s.drop_last()[i] == s[i]);
            }
        }
        assert(kept =~= s.subrange(0, kept.len() as int)) by {
            assert(kept == s.drop_last().subrange(0, kept.len() as int));
        }
    } else {
        assert(s =~= s.subrange(0, s.len() as int));
    }
}

/// A text that neither begins nor ends with a character is left as it is.
pub proof fn law_bare_texts_stay(s: Seq<char>, ch: char)
    requires
        s.len() > 0 ==> s[0] != ch && s.last() != ch,
    ensures
        without_surrounding(s, ch) == s,
        without_trailing(s, ch) == s,
        without_leading_char(s, ch) == s,
{
}

/// What pieces make when each but the first is put behind a character.
pub open spec fn joined(parts: Seq<Seq<char>>, ch: char) -> Seq<char>
    decreases parts.len(),
{
    if parts.len() == 0 {
        Seq::empty()
    } else if parts.len() == 1 {
        parts[0]
    } else {
        joined(parts.drop_last(), ch) + seq![ch] + parts.last()
    }
}

/// The pieces between the occurrences of a character hold it nowhere, and put
/// together with it again they are the text.
pub proof fn law_splitting_is_undone(s: Seq<char>, ch: char)
    ensures
        split(s, ch).len() > 0,
        joined(split(s, ch), ch) == s,
        forall|i: int| 0 <= i < split(s, ch).len() ==> !(#[trigger] split(s, ch)[i]).contains(ch),
    decreases s.len(),
{
    let parts = split(s, ch);
    if s.len() > 0 {
        let front = s.drop_last();
        let before = split(front, ch);
        law_splitting_is_undone(front, ch);
        assert(s =~= front.push(s.last()));
        if s.last() == ch {
            assert(parts.drop_last() =~= before);
            assert(joined(parts, ch) =~= s);
            assert forall|i: int| 0 <= i < parts.len() implies !(#[trigger] parts[i]).contains(ch) by {
                if i < before.len() {
                    assert(parts[i] == before[i]);
                }
            }
        } else {
            assert(parts.drop_last() =~= before.drop_last());
            let grown = before.last().push(s.last());
            assert(parts.last() == grown);
            assert(!before[before.len() - 1].contains(ch));
            assert(!grown.contains(ch)) by {
                if grown.contains(ch) {
                    let k = choose|k: int| 0 <= k < grown.len() && grown[k] == ch;
                    assert(before.last()[k] == ch);
                }
            }
            if before.len() == 1 {
                assert(joined(parts, ch) =~= s);
            } else {
                assert(joined(before, ch) == joined(before.drop_last(), ch) + seq![ch] + before.last());
                assert(joined(parts, ch) =~= s);
            }
            assert forall|i: int| 0 <= i < parts.len() implies !(#[trigger] parts[i]).contains(ch) by {
                if i < before.len() - 1 {
                    assert(parts[i] == before[i]);
                }
            }
        }
    } else {
        assert(parts.len() == 1);
        assert(joined(parts, ch) =~= s);
    }
}

/// The position of either of two characters is the first at which one stands, and
/// the length of a text that holds neither.
pub proof fn law_positions_are_the_first(s: Seq<char>, a: char, b: char)
    ensures
        0 <= position_of_either(s, a, b) <= s.len(),
        position_of_either(s, a, b) < s.len() ==> s[position_of_either(s, a, b)] == a || s[position_of_either(s, a, b)]
            == b,
        forall|i: int| 0 <= i < position_of_either(s, a, b) ==> #[trigger] s[i] != a && s[i] != b,
        position_of(s, a) == position_of_either(s, a, a),
    decreases s.len(),
{
    if s.len() > 0 {
        let rest = s.skip(1);
        law_positions_are_the_first(rest, a, b);
        if s[0] != a && s[0] != b {
            let at = position_of_either(s, a, b);
            if at < s.len() {
                assert(rest[at - 1] == s[at]);
            }
            assert forall|i: int| 0 <= i < at implies #[trigger] s[i] != a && s[i] != b by {
                if i > 0 {
                    assert(rest[i - 1] == s[i]);
                }
            }
        }
    }
}

/// Lowering changes ASCII capitals into their small letters, and no other
/// character.
pub proof fn law_lowering_changes_capitals_only(s: Seq<char>, i: int)
    requires
        0 <= i < s.len(),
    ensures
        ascii_lowered(s).len() == s.len(),
        !('A' <= s[i] <= 'Z') ==> ascii_lowered(s)[i] == s[i],
        'A' <= s[i] <= 'Z' ==> ascii_lowered(s)[i] as u32 == s[i] as u32 + 32,
{
}

/// Letters, digits and the four marks are written as they are; every other byte is a
/// percent sign and its two hexadecimal digits, in upper case.
pub proof fn law_bytes_are_escaped_in_upper_case(byte: u8)
    ensures
        unreserved(byte) <==> {
            let ch = byte as char;
            'A' <= ch <= 'Z' || 'a' <= ch <= 'z' || '0' <= ch <= '9' || ch == '-' || ch == '_' || ch == '.' || ch == '~'
        },
        unreserved(byte) ==> escaped_byte(byte) == seq![byte as char],
        !unreserved(byte) ==> {
            let text = escaped_byte(byte);
            &&& text.len() == 3
            &&& text[0] == '%'
            &&& '0' <= text[1] <= '9' || 'A' <= text[1] <= 'F'
            &&& '0' <= text[2] <= '9' || 'A' <= text[2] <= 'F'
            &&& hex_value(text[1]) is Some && hex_value(text[2]) is Some
            &&& 16 * hex_value(text[1])->0 + hex_value(text[2])->0 == byte
        },
{
}

/// A hexadecimal digit has its value, in either case, and no other character has
/// one.
pub proof fn law_hexadecimal_digits_have_their_value(ch: char)
    ensures
        hex_value(ch) is Some <==> '0' <= ch <= '9' || 'A' <= ch <= 'F' || 'a' <= ch <= 'f',
        '0' <= ch <= '9' ==> hex_value(ch) == Some(ch as int - '0' as int),
        'A' <= ch <= 'F' ==> hex_value(ch) == Some(ch as int - 'A' as int + 10),
        'a' <= ch <= 'f' ==> hex_value(ch) == Some(ch as int - 'a' as int + 10),
{
}

/// Cutting a prefix off the beginning, as often as it stands there, leaves an end of
/// the text that does not begin with it, and a text that does not is left as it is.
pub proof fn law_leading_prefixes_go(s: Seq<char>, prefix: Seq<char>)
    requires
        prefix.len() > 0,
    ensures
        without_leading(s, prefix).is_suffix_of(s),
        !prefix.is_prefix_of(without_leading(s, prefix)),
        !prefix.is_prefix_of(s) ==> without_leading(s, prefix) == s,
        without_leading(prefix + s, prefix) == without_leading(s, prefix),
    decreases s.len(),
{
    assert((prefix + s).subrange(0, prefix.len() as int) =~= prefix);
    assert((prefix + s).skip(prefix.len() as int) =~= s);
    let kept = without_leading(s, prefix);
    if prefix.is_prefix_of(s) {
        let rest = s.skip(prefix.len() as int);
        law_leading_prefixes_go(rest, prefix);
        assert(kept =~= s.subrange(s.len() - kept.len(), s.len() as int)) by {
            assert(kept == rest.subrange(rest.len() - kept.len(), rest.len() as int));
        }
    } else {
        assert(kept =~= s.subrange(0, s.len() as int));
    }
}

/// The blank, the tab and the ends of a line are white space; letters, digits and
/// the other visible characters of ASCII are not, nor are they control characters.
pub proof fn law_visible_characters_are_kept(ch: char)
    ensures
        ch == ' ' || ch == '\t' || ch == '\n' || ch == '\r' ==> white_space(ch),
        '!' <= ch <= '~' ==> !white_space(ch) && !control(ch),
        control(ch) <==> ch as u32 <= 31 || 127 <= ch as u32 <= 159,
{
}

} // verus!
