//! Text primitives shared by the request, session, sync and view logic.
//!
//! Every function here is stated over `Seq<char>` (a string's characters) or
//! `Seq<u8>` (its UTF-8 bytes).

use vstd::prelude::*;

verus! {

/// `String::push` appends the one character it is given.
pub assume_specification[ String::push ](text: &mut String, ch: char)
    ensures
        final(text)@ == old(text)@.push(ch),
;

/// The characters of `text`, in order.
pub fn chars_of(text: &str) -> (chars: Vec<char>)
    ensures
        chars@ == text@,
{
    let mut chars: Vec<char> = Vec::new();
    for ch in it: text.chars()
        invariant
            chars@ == it.seq().take(it.index() as int),
            it.seq() == text@,
    {
        chars.push(ch);
    }
    chars
}

/// UTF-8 is injective: texts with the same bytes are the same text.
pub proof fn lemma_utf8_injective(left: Seq<char>, right: Seq<char>)
    ensures
        vstd::utf8::encode_utf8(left) == vstd::utf8::encode_utf8(right) ==> left == right,
{
    vstd::utf8::encode_utf8_decode_utf8(left);
    vstd::utf8::encode_utf8_decode_utf8(right);
}

/// Whether two texts are the same.
pub fn same_text(left: &str, right: &str) -> (same: bool)
    ensures
        same == (left@ == right@),
{
    proof {
        lemma_utf8_injective(left@, right@);
    }
    same_bytes(left.as_bytes(), right.as_bytes())
}

/// Whether two byte strings are the same.
pub fn same_bytes(left: &[u8], right: &[u8]) -> (same: bool)
    ensures
        same == (left@ == right@),
{
    if left.len() != right.len() {
        return false;
    }
    let mut i: usize = 0;
    while i < left.len()
        invariant
            i <= left@.len(),
            left@.len() == right@.len(),
            forall|j: int| 0 <= j < i ==> left@[j] == right@[j],
        decreases left@.len() - i,
    {
        if left[i] != right[i] {
            assert(left@[i as int] != right@[i as int]);
            return false;
        }
        i = i + 1;
    }
    assert(left@ =~= right@);
    true
}

/// The characters with Unicode's `White_Space` property.
pub open spec fn white_space(ch: char) -> bool {
    let code = ch as u32;
    ||| 0x09 <= code <= 0x0d
    ||| code == 0x20
    ||| code == 0x85
    ||| code == 0xa0
    ||| code == 0x1680
    ||| 0x2000 <= code <= 0x200a
    ||| code == 0x2028
    ||| code == 0x2029
    ||| code == 0x202f
    ||| code == 0x205f
    ||| code == 0x3000
}

/// Whether `ch` has Unicode's `White_Space` property.
pub fn is_white_space(ch: char) -> (white: bool)
    ensures
        white == white_space(ch),
{
    let code: u32 = ch as u32;
    (0x09 <= code && code <= 0x0d) || code == 0x20 || code == 0x85 || code == 0xa0 || code == 0x1680
        || (0x2000 <= code && code <= 0x200a) || code == 0x2028 || code == 0x2029 || code == 0x202f
        || code == 0x205f || code == 0x3000
}

/// The characters of the Unicode category `Cc`.
pub open spec fn control(ch: char) -> bool {
    let code = ch as u32;
    code <= 0x1f || 0x7f <= code <= 0x9f
}

/// Whether `ch` is a control character.
pub fn is_control(ch: char) -> (result: bool)
    ensures
        result == control(ch),
{
    let code: u32 = ch as u32;
    code <= 0x1f || (0x7f <= code && code <= 0x9f)
}

/// `s` without its leading white space.
pub open spec fn trimmed_start(s: Seq<char>) -> Seq<char>
    decreases s.len(),
{
    if s.len() > 0 && white_space(s[0]) {
        trimmed_start(s.skip(1))
    } else {
        s
    }
}

/// `s` without its trailing white space.
pub open spec fn trimmed_end(s: Seq<char>) -> Seq<char>
    decreases s.len(),
{
    if s.len() > 0 && white_space(s.last()) {
        trimmed_end(s.drop_last())
    } else {
        s
    }
}

/// `s` without the white space at either end.
pub open spec fn trimmed(s: Seq<char>) -> Seq<char> {
    trimmed_end(trimmed_start(s))
}

/// `text` without the white space at either end.
pub fn trim(text: &str) -> (out: &str)
    ensures
        out@ == trimmed(text@),
{
    let chars = chars_of(text);
    let mut from: usize = 0;
    assert(text@.skip(0) =~= text@);
    while from < chars.len() && is_white_space(chars[from])
        invariant
            chars@ == text@,
            from <= text@.len(),
            trimmed_start(text@) == trimmed_start(text@.skip(from as int)),
        decreases text@.len() - from,
    {
        assert(text@.skip(from as int).skip(1) =~= text@.skip(from + 1));
        from = from + 1;
    }
    let ghost rest = text@.skip(from as int);
    assert(trimmed_start(text@) == rest);
    let mut to: usize = chars.len();
    assert(text@.subrange(from as int, to as int) =~= rest);
    while from < to && is_white_space(chars[to - 1])
        invariant
            chars@ == text@,
            from <= to <= text@.len(),
            trimmed_end(rest) == trimmed_end(text@.subrange(from as int, to as int)),
        decreases to,
    {
        let ghost part = text@.subrange(from as int, to as int);
        assert(part.last() == text@[to - 1]);
        assert(part.drop_last() =~= text@.subrange(from as int, to - 1));
        to = to - 1;
    }
    assert(from < to ==> text@.subrange(from as int, to as int).last() == text@[to - 1]);
    text.substring_char(from, to)
}

/// `s` without its trailing run of `ch`.
pub open spec fn without_trailing(s: Seq<char>, ch: char) -> Seq<char>
    decreases s.len(),
{
    if s.len() > 0 && s.last() == ch {
        without_trailing(s.drop_last(), ch)
    } else {
        s
    }
}

/// `text` without its trailing run of `ch`.
pub fn trim_end_matches(text: &str, ch: char) -> (out: &str)
    ensures
        out@ == without_trailing(text@, ch),
{
    let chars = chars_of(text);
    let mut to: usize = chars.len();
    assert(text@.take(to as int) =~= text@);
    while 0 < to && chars[to - 1] == ch
        invariant
            chars@ == text@,
            to <= text@.len(),
            without_trailing(text@, ch) == without_trailing(text@.take(to as int), ch),
        decreases to,
    {
        assert(text@.take(to as int).drop_last() =~= text@.take(to - 1));
        to = to - 1;
    }
    assert(text@.subrange(0, to as int) =~= text@.take(to as int));
    text.substring_char(0, to)
}

/// Whether `text` begins with `prefix`.
pub fn starts_with(text: &str, prefix: &str) -> (result: bool)
    ensures
        result == prefix@.is_prefix_of(text@),
{
    let chars = chars_of(text);
    let head = chars_of(prefix);
    if head.len() > chars.len() {
        return false;
    }
    let mut i: usize = 0;
    while i < head.len()
        invariant
            chars@ == text@,
            head@ == prefix@,
            i <= head@.len() <= chars@.len(),
            forall|j: int| 0 <= j < i ==> head@[j] == chars@[j],
        decreases head@.len() - i,
    {
        if head[i] != chars[i] {
            assert(prefix@[i as int] != text@.subrange(0, prefix@.len() as int)[i as int]);
            return false;
        }
        i = i + 1;
    }
    assert(prefix@ =~= text@.subrange(0, prefix@.len() as int));
    true
}

/// Whether `text` ends with `suffix`.
pub fn ends_with(text: &str, suffix: &str) -> (result: bool)
    ensures
        result == suffix@.is_suffix_of(text@),
{
    let chars = chars_of(text);
    let tail = chars_of(suffix);
    if tail.len() > chars.len() {
        return false;
    }
    let shift: usize = chars.len() - tail.len();
    let mut i: usize = 0;
    while i < tail.len()
        invariant
            chars@ == text@,
            tail@ == suffix@,
            shift + tail.len() == chars.len(),
            i <= tail@.len() <= chars@.len(),
            forall|j: int| 0 <= j < i ==> tail@[j] == chars@[shift + j],
        decreases tail@.len() - i,
    {
        if tail[i] != chars[shift + i] {
            assert(suffix@[i as int] != text@.subrange(shift as int, text@.len() as int)[i as int]);
            return false;
        }
        i = i + 1;
    }
    assert(suffix@ =~= text@.subrange(shift as int, text@.len() as int));
    true
}

/// What follows `prefix` in `text`, when `text` begins with it.
pub fn strip_prefix<'a>(text: &'a str, prefix: &str) -> (rest: Option<&'a str>)
    ensures
        rest is Some <==> prefix@.is_prefix_of(text@),
        rest matches Some(rest) ==> rest@ == text@.skip(prefix@.len() as int),
{
    if !starts_with(text, prefix) {
        return None;
    }
    let from: usize = prefix.unicode_len();
    let to: usize = text.unicode_len();
    let rest = text.substring_char(from, to);
    assert(rest@ =~= text@.skip(prefix@.len() as int));
    Some(rest)
}

/// Whether `needle` stands in `s` at offset `at`.
pub open spec fn stands_at(s: Seq<char>, needle: Seq<char>, at: int) -> bool {
    0 <= at && at + needle.len() <= s.len() && s.subrange(at, at + needle.len()) == needle
}

/// Whether `needle` occurs somewhere in `s`.
pub open spec fn occurs_in(needle: Seq<char>, s: Seq<char>) -> bool {
    exists|at: int| stands_at(s, needle, at)
}

/// Whether `needle` stands in `text` at offset `at`.
fn matches_at(text: &[char], needle: &[char], at: usize) -> (result: bool)
    requires
        at + needle@.len() <= text@.len(),
    ensures
        result == stands_at(text@, needle@, at as int),
{
    let mut i: usize = 0;
    while i < needle.len()
        invariant
            i <= needle@.len(),
            at + needle.len() <= text.len(),
            forall|j: int| 0 <= j < i ==> needle@[j] == text@[at + j],
        decreases needle@.len() - i,
    {
        if needle[i] != text[at + i] {
            assert(text@.subrange(at as int, at + needle@.len())[i as int] != needle@[i as int]);
            return false;
        }
        i = i + 1;
    }
    assert(text@.subrange(at as int, at + needle@.len()) =~= needle@);
    true
}

/// Whether `needle` occurs somewhere in `text`.
pub fn contains(text: &str, needle: &str) -> (result: bool)
    ensures
        result == occurs_in(needle@, text@),
{
    let chars = chars_of(text);
    let part = chars_of(needle);
    if part.len() > chars.len() {
        return false;
    }
    let last: usize = chars.len() - part.len();
    let mut at: usize = 0;
    loop
        invariant
            chars@ == text@,
            part@ == needle@,
            last == chars@.len() - part@.len(),
            at <= last,
            forall|k: int| 0 <= k < at ==> !#[trigger] stands_at(text@, needle@, k),
        decreases last - at,
    {
        if matches_at(chars.as_slice(), part.as_slice(), at) {
            return true;
        }
        if at == last {
            return false;
        }
        at = at + 1;
    }
}

/// `ch` with an ASCII capital made small.
pub open spec fn ascii_lower(ch: char) -> char {
    if 'A' <= ch <= 'Z' {
        ((ch as u32) + 32) as char
    } else {
        ch
    }
}

/// `s` with its ASCII capitals made small.
pub open spec fn ascii_lowered(s: Seq<char>) -> Seq<char> {
    s.map_values(|ch: char| ascii_lower(ch))
}

/// `ch` with an ASCII capital made small.
fn lower_char(ch: char) -> (out: char)
    ensures
        out == ascii_lower(ch),
{
    if 'A' <= ch && ch <= 'Z' {
        let code: u8 = ch as u8;
        (code + 32) as char
    } else {
        ch
    }
}

/// `text` with its ASCII capitals made small.
pub fn to_ascii_lowercase(text: &str) -> (out: String)
    ensures
        out@ == ascii_lowered(text@),
{
    let chars = chars_of(text);
    let mut out = String::new();
    let mut i: usize = 0;
    while i < chars.len()
        invariant
            chars@ == text@,
            i <= chars@.len(),
            out@ == ascii_lowered(chars@.take(i as int)),
        decreases chars@.len() - i,
    {
        out.push(lower_char(chars[i]));
        assert(ascii_lowered(chars@.take(i + 1)) =~= ascii_lowered(chars@.take(i as int)).push(
            ascii_lower(chars@[i as int]),
        ));
        i = i + 1;
    }
    assert(chars@.take(i as int) =~= text@);
    out
}

/// Whether two texts differ at most in the case of ASCII letters.
pub fn eq_ignore_ascii_case(left: &str, right: &str) -> (same: bool)
    ensures
        same == (ascii_lowered(left@) == ascii_lowered(right@)),
{
    same_text(to_ascii_lowercase(left).as_str(), to_ascii_lowercase(right).as_str())
}

/// The pieces of `s` between occurrences of `ch`: one more than there are
/// occurrences, in order.
pub open spec fn split(s: Seq<char>, ch: char) -> Seq<Seq<char>>
    decreases s.len(),
{
    if s.len() == 0 {
        seq![Seq::empty()]
    } else {
        let before = split(s.drop_last(), ch);
        if s.last() == ch {
            before.push(Seq::empty())
        } else {
            before.drop_last().push(before.last().push(s.last()))
        }
    }
}

/// Splitting yields at least one piece.
pub proof fn lemma_split_nonempty(s: Seq<char>, ch: char)
    ensures
        split(s, ch).len() > 0,
    decreases s.len(),
{
    if s.len() > 0 {
        lemma_split_nonempty(s.drop_last(), ch);
    }
}

/// A text without the character is one piece.
pub proof fn lemma_split_whole(s: Seq<char>, ch: char)
    requires
        forall|i: int| 0 <= i < s.len() ==> s[i] != ch,
    ensures
        split(s, ch) == seq![s],
    decreases s.len(),
{
    if s.len() > 0 {
        let front = s.drop_last();
        assert forall|i: int| 0 <= i < front.len() implies front[i] != ch by {
            assert(front[i] == s[i]);
        }
        lemma_split_whole(front, ch);
        assert(front.push(s.last()) =~= s);
        assert(split(s, ch) =~= seq![s]);
    } else {
        assert(s =~= Seq::empty());
    }
}

/// The pieces of `text` between occurrences of `ch`.
pub fn split_on(text: &str, ch: char) -> (parts: Vec<String>)
    ensures
        parts.deep_view() == split(text@, ch),
{
    let chars = chars_of(text);
    let mut parts: Vec<String> = Vec::new();
    let mut current = String::new();
    let mut i: usize = 0;
    assert(chars@.take(0) =~= Seq::empty());
    assert(parts.deep_view().push(current@) =~= split(Seq::empty(), ch));
    while i < chars.len()
        invariant
            chars@ == text@,
            i <= chars@.len(),
            parts.deep_view().push(current@) == split(chars@.take(i as int), ch),
        decreases chars@.len() - i,
    {
        let ghost before = parts.deep_view();
        let ghost so_far = current@;
        let ghost next = chars@.take(i + 1);
        assert(next.drop_last() =~= chars@.take(i as int));
        assert(before.push(so_far).drop_last() =~= before);
        if chars[i] == ch {
            parts.push(current);
            assert(parts.deep_view() =~= before.push(so_far));
            current = String::new();
        } else {
            current.push(chars[i]);
        }
        i = i + 1;
        assert(parts.deep_view().push(current@) =~= split(next, ch));
    }
    let ghost before = parts.deep_view();
    let ghost so_far = current@;
    parts.push(current);
    assert(parts.deep_view() =~= before.push(so_far));
    assert(chars@.take(i as int) =~= text@);
    parts
}

/// The offset of the first `ch` in `s`, or the length of `s` when there is none.
pub open spec fn position_of(s: Seq<char>, ch: char) -> int
    decreases s.len(),
{
    if s.len() == 0 || s[0] == ch {
        0
    } else {
        1 + position_of(s.skip(1), ch)
    }
}

/// `position_of` is the first offset at which `ch` stands.
pub proof fn lemma_position_of(s: Seq<char>, ch: char, at: int)
    requires
        0 <= at <= s.len(),
        forall|j: int| 0 <= j < at ==> s[j] != ch,
        at < s.len() ==> s[at] == ch,
    ensures
        position_of(s, ch) == at,
    decreases s.len(),
{
    if at > 0 {
        assert(s[0] != ch);
        assert forall|j: int| 0 <= j < at - 1 implies s.skip(1)[j] != ch by {
            assert(s.skip(1)[j] == s[j + 1]);
        }
        lemma_position_of(s.skip(1), ch, at - 1);
    }
}

/// The offset of the first `ch` in `chars`, or their number when there is none.
pub fn position(chars: &[char], ch: char) -> (at: usize)
    ensures
        at == position_of(chars@, ch),
        at <= chars@.len(),
        at < chars@.len() ==> chars@[at as int] == ch,
        forall|j: int| 0 <= j < at ==> chars@[j] != ch,
{
    let mut at: usize = 0;
    while at < chars.len() && chars[at] != ch
        invariant
            at <= chars@.len(),
            forall|j: int| 0 <= j < at ==> chars@[j] != ch,
        decreases chars@.len() - at,
    {
        at = at + 1;
    }
    proof {
        lemma_position_of(chars@, ch, at as int);
    }
    at
}

/// `text` cut at its first `ch`: what stands before it and what follows it.
pub fn split_once<'a>(text: &'a str, ch: char) -> (parts: Option<(&'a str, &'a str)>)
    ensures
        parts is Some <==> position_of(text@, ch) < text@.len(),
        parts matches Some((head, tail)) ==> {
            &&& head@ == text@.take(position_of(text@, ch))
            &&& tail@ == text@.skip(position_of(text@, ch) + 1)
        },
{
    let chars = chars_of(text);
    let at: usize = position(chars.as_slice(), ch);
    if at == chars.len() {
        return None;
    }
    let head = text.substring_char(0, at);
    let tail = text.substring_char(at + 1, chars.len());
    assert(head@ =~= text@.take(at as int));
    assert(tail@ =~= text@.skip(at + 1));
    Some((head, tail))
}

/// The decimal digit for a number below ten.
pub open spec fn digit(n: int) -> char {
    (48 + n) as char
}

/// `n` in decimal, without leading zeros.
pub open spec fn decimal(n: nat) -> Seq<char>
    decreases n,
{
    if n < 10 {
        seq![digit(n as int)]
    } else {
        decimal(n / 10).push(digit(n as int % 10))
    }
}

/// `n` in decimal, with a minus sign when it is below zero.
pub open spec fn signed_decimal(n: int) -> Seq<char> {
    if n < 0 {
        seq!['-'] + decimal((-n) as nat)
    } else {
        decimal(n as nat)
    }
}

/// The decimal digit for a number below ten.
pub fn digit_char(n: u64) -> (ch: char)
    requires
        n < 10,
    ensures
        ch == digit(n as int),
{
    let code: u8 = 48 + n as u8;
    code as char
}

/// `n` in decimal, without leading zeros.
pub fn decimal_text(n: u64) -> (text: String)
    ensures
        text@ == decimal(n as nat),
    decreases n,
{
    if n < 10 {
        let mut text = String::new();
        text.push(digit_char(n));
        assert(text@ =~= seq![digit(n as int)]);
        text
    } else {
        let mut text = decimal_text(n / 10);
        text.push(digit_char(n % 10));
        text
    }
}

/// `n` in decimal, with a minus sign when it is below zero.
pub fn signed_decimal_text(n: i64) -> (text: String)
    ensures
        text@ == signed_decimal(n as int),
{
    if n < 0 {
        let magnitude: u64 = if n == i64::MIN { 0x8000_0000_0000_0000u64 } else { (-n) as u64 };
        let mut text = String::new();
        text.push('-');
        text.append(decimal_text(magnitude).as_str());
        assert(text@ =~= seq!['-'] + decimal((-n) as nat));
        text
    } else {
        decimal_text(n as u64)
    }
}

/// `s` without `prefix` in front, as often as it stands there.
pub open spec fn without_leading(s: Seq<char>, prefix: Seq<char>) -> Seq<char>
    decreases s.len(),
{
    if prefix.len() > 0 && prefix.is_prefix_of(s) {
        without_leading(s.skip(prefix.len() as int), prefix)
    } else {
        s
    }
}

/// `text` without `prefix` in front, as often as it stands there.
pub fn trim_start_matches<'a>(text: &'a str, prefix: &str) -> (out: &'a str)
    ensures
        out@ == without_leading(text@, prefix@),
    decreases text@.len(),
{
    if prefix.unicode_len() == 0 {
        return text;
    }
    match strip_prefix(text, prefix) {
        Some(rest) => trim_start_matches(rest, prefix),
        None => text,
    }
}

/// `s` without its leading run of `ch`.
pub open spec fn without_leading_char(s: Seq<char>, ch: char) -> Seq<char>
    decreases s.len(),
{
    if s.len() > 0 && s[0] == ch {
        without_leading_char(s.skip(1), ch)
    } else {
        s
    }
}

/// `s` without the runs of `ch` at either end.
pub open spec fn without_surrounding(s: Seq<char>, ch: char) -> Seq<char> {
    without_trailing(without_leading_char(s, ch), ch)
}

/// `text` without the runs of `ch` at either end.
pub fn trim_matches(text: &str, ch: char) -> (out: &str)
    ensures
        out@ == without_surrounding(text@, ch),
{
    let chars = chars_of(text);
    let mut from: usize = 0;
    assert(text@.skip(0) =~= text@);
    while from < chars.len() && chars[from] == ch
        invariant
            chars@ == text@,
            from <= text@.len(),
            without_leading_char(text@, ch) == without_leading_char(text@.skip(from as int), ch),
        decreases text@.len() - from,
    {
        assert(text@.skip(from as int).skip(1) =~= text@.skip(from + 1));
        from = from + 1;
    }
    let rest = text.substring_char(from, chars.len());
    assert(rest@ =~= text@.skip(from as int));
    trim_end_matches(rest, ch)
}

/// The first offset at which one of two characters stands, or the length of `s`
/// when neither does.
pub open spec fn position_of_either(s: Seq<char>, a: char, b: char) -> int
    decreases s.len(),
{
    if s.len() == 0 || s[0] == a || s[0] == b {
        0
    } else {
        1 + position_of_either(s.skip(1), a, b)
    }
}

/// What stands in `text` before the first of two characters.
pub fn before_either(text: &str, a: char, b: char) -> (out: &str)
    ensures
        out@ == text@.take(position_of_either(text@, a, b)),
{
    let chars = chars_of(text);
    let mut at: usize = 0;
    assert(text@.skip(0) =~= text@);
    while at < chars.len() && chars[at] != a && chars[at] != b
        invariant
            chars@ == text@,
            at <= text@.len(),
            position_of_either(text@, a, b) == at + position_of_either(text@.skip(at as int), a, b),
        decreases text@.len() - at,
    {
        assert(text@.skip(at as int).skip(1) =~= text@.skip(at + 1));
        at = at + 1;
    }
    let out = text.substring_char(0, at);
    assert(out@ =~= text@.take(at as int));
    out
}

/// An ASCII digit.
pub open spec fn is_digit(ch: char) -> bool {
    '0' <= ch <= '9'
}

/// Whether `s` is a nonempty run of digits.
pub open spec fn all_digits(s: Seq<char>) -> bool {
    s.len() > 0 && forall|i: int| 0 <= i < s.len() ==> is_digit(#[trigger] s[i])
}

/// The number that a run of digits spells.
pub open spec fn digits_value(s: Seq<char>) -> nat
    decreases s.len(),
{
    if s.len() == 0 {
        0
    } else {
        digits_value(s.drop_last()) * 10 + (s.last() as nat - '0' as nat) as nat
    }
}

/// The number that a run of digits spells, with an optional plus sign in front,
/// when it fits in 64 bits.
pub open spec fn unsigned_value(s: Seq<char>) -> Option<int> {
    let digits = if s.len() > 0 && s[0] == '+' {
        s.skip(1)
    } else {
        s
    };
    if all_digits(digits) && digits_value(digits) <= u64::MAX {
        Some(digits_value(digits) as int)
    } else {
        None
    }
}

/// The number that a run of digits spells, with an optional sign in front, when
/// it fits in 64 bits.
pub open spec fn signed_value(s: Seq<char>) -> Option<int> {
    if s.len() > 0 && s[0] == '-' {
        if all_digits(s.skip(1)) && digits_value(s.skip(1)) <= 0x8000_0000_0000_0000 {
            Some(-digits_value(s.skip(1)))
        } else {
            None
        }
    } else {
        let digits = if s.len() > 0 && s[0] == '+' {
            s.skip(1)
        } else {
            s
        };
        if all_digits(digits) && digits_value(digits) <= i64::MAX {
            Some(digits_value(digits) as int)
        } else {
            None
        }
    }
}

/// A longer run of digits spells no smaller a number.
proof fn lemma_digits_value_grows(s: Seq<char>, n: int)
    requires
        0 <= n <= s.len(),
    ensures
        digits_value(s.take(n)) <= digits_value(s),
    decreases s.len(),
{
    if n == s.len() {
        assert(s.take(n) =~= s);
    } else {
        lemma_digits_value_grows(s.drop_last(), n);
        assert(s.drop_last().take(n) =~= s.take(n));
    }
}

/// The number that the digits from `from` on spell, when it fits in 64 bits.
fn parse_digits(chars: &[char], from: usize) -> (value: Option<u64>)
    requires
        from <= chars@.len(),
    ensures
        match value {
            Some(value) => all_digits(chars@.skip(from as int)) && digits_value(chars@.skip(from as int)) == value,
            None => !all_digits(chars@.skip(from as int)) || digits_value(chars@.skip(from as int)) > u64::MAX,
        },
{
    let ghost all = chars@.skip(from as int);
    if from == chars.len() {
        return None;
    }
    let mut value: u64 = 0;
    let mut i: usize = from;
    assert(all.take(0) =~= Seq::empty());
    while i < chars.len()
        invariant
            from <= i <= chars@.len(),
            all == chars@.skip(from as int),
            forall|j: int| 0 <= j < i - from ==> is_digit(#[trigger] all[j]),
            digits_value(all.take(i - from)) == value,
        decreases chars@.len() - i,
    {
        let ch: char = chars[i];
        let ghost n = i - from;
        assert(all[n] == ch);
        if !('0' <= ch && ch <= '9') {
            assert(!is_digit(all[n]));
            return None;
        }
        let digit: u64 = ch as u64 - 48;
        assert(all.take(n + 1).drop_last() =~= all.take(n));
        assert(digits_value(all.take(n + 1)) == value * 10 + digit);
        if value > 1_844_674_407_370_955_161u64 || (value == 1_844_674_407_370_955_161u64 && digit > 5) {
            proof {
                lemma_digits_value_grows(all, n + 1);
            }
            return None;
        }
        value = value * 10 + digit;
        i = i + 1;
    }
    assert(all.take(i - from) =~= all);
    Some(value)
}

/// The unsigned number that `text` spells.
pub fn parse_unsigned(text: &str) -> (value: Option<u64>)
    ensures
        match value {
            Some(value) => unsigned_value(text@) == Some(value as int),
            None => unsigned_value(text@) is None,
        },
{
    let chars = chars_of(text);
    let from: usize = if chars.len() > 0 && chars[0] == '+' { 1 } else { 0 };
    assert(from == 0 ==> chars@.skip(from as int) =~= text@);
    parse_digits(chars.as_slice(), from)
}

/// The signed number that `text` spells.
pub fn parse_signed(text: &str) -> (value: Option<i64>)
    ensures
        match value {
            Some(value) => signed_value(text@) == Some(value as int),
            None => signed_value(text@) is None,
        },
{
    let chars = chars_of(text);
    let negative: bool = chars.len() > 0 && chars[0] == '-';
    let from: usize = if negative || (chars.len() > 0 && chars[0] == '+') { 1 } else { 0 };
    assert(from == 0 ==> chars@.skip(from as int) =~= text@);
    match parse_digits(chars.as_slice(), from) {
        Some(value) => if negative {
            if value > 0x8000_0000_0000_0000u64 {
                None
            } else if value == 0x8000_0000_0000_0000u64 {
                Some(i64::MIN)
            } else {
                Some(-(value as i64))
            }
        } else if value > 0x7fff_ffff_ffff_ffffu64 {
            None
        } else {
            Some(value as i64)
        },
        None => None,
    }
}

/// A byte that stands for itself in a URL.
pub open spec fn unreserved(byte: u8) -> bool {
    ||| 65 <= byte <= 90
    ||| 97 <= byte <= 122
    ||| 48 <= byte <= 57
    ||| byte == 45
    ||| byte == 95
    ||| byte == 46
    ||| byte == 126
}

/// The upper-case hexadecimal digit for a number below sixteen.
pub open spec fn upper_hex(n: int) -> char {
    if n < 10 {
        (48 + n) as char
    } else {
        (55 + n) as char
    }
}

/// One byte in a URL: itself, or a percent sign and two hexadecimal digits.
pub open spec fn escaped_byte(byte: u8) -> Seq<char> {
    if unreserved(byte) {
        seq![byte as char]
    } else {
        seq!['%', upper_hex(byte as int / 16), upper_hex(byte as int % 16)]
    }
}

/// A byte string in a URL.
pub open spec fn escaped(bytes: Seq<u8>) -> Seq<char>
    decreases bytes.len(),
{
    if bytes.len() == 0 {
        Seq::empty()
    } else {
        escaped(bytes.drop_last()) + escaped_byte(bytes.last())
    }
}

/// The upper-case hexadecimal digit for a number below sixteen.
fn hex_char(n: u8) -> (ch: char)
    requires
        n < 16,
    ensures
        ch == upper_hex(n as int),
{
    if n < 10 {
        (48 + n) as char
    } else {
        (55 + n) as char
    }
}

/// `raw` as a value in a URL's query: every byte but letters, digits and `-_.~`
/// is percent-encoded.
pub fn urlencode(raw: &str) -> (out: String)
    ensures
        out@ == escaped(vstd::utf8::encode_utf8(raw@)),
{
    let bytes = raw.as_bytes();
    let mut out = String::new();
    let mut i: usize = 0;
    while i < bytes.len()
        invariant
            i <= bytes@.len(),
            out@ == escaped(bytes@.take(i as int)),
        decreases bytes@.len() - i,
    {
        let byte: u8 = bytes[i];
        let ghost before = out@;
        if (65 <= byte && byte <= 90) || (97 <= byte && byte <= 122) || (48 <= byte && byte <= 57) || byte == 45
            || byte == 95 || byte == 46 || byte == 126 {
            out.push(byte as char);
        } else {
            out.push('%');
            out.push(hex_char(byte / 16));
            out.push(hex_char(byte % 16));
        }
        assert(bytes@.take(i + 1).drop_last() =~= bytes@.take(i as int));
        assert(out@ =~= before + escaped_byte(byte));
        i = i + 1;
    }
    assert(bytes@.take(i as int) =~= bytes@);
    out
}

/// What is escaped can stand in a query: it holds nothing but unreserved bytes
/// and percent signs, so no `&`, `=`, `#` or quote of its own.
pub proof fn law_escaped_text_is_inert(bytes: Seq<u8>)
    ensures
        forall|i: int|
            0 <= i < escaped(bytes).len() ==> {
                let ch = #[trigger] escaped(bytes)[i];
                ch == '%' || (ch as u32 <= 127 && unreserved(ch as u8))
            },
    decreases bytes.len(),
{
    if bytes.len() > 0 {
        law_escaped_text_is_inert(bytes.drop_last());
        let front = escaped(bytes.drop_last());
        let last = escaped_byte(bytes.last());
        assert forall|i: int| 0 <= i < escaped(bytes).len() implies ({
            let ch = #[trigger] escaped(bytes)[i];
            ch == '%' || (ch as u32 <= 127 && unreserved(ch as u8))
        }) by {
            if i < front.len() {
                assert(escaped(bytes)[i] == front[i]);
            } else {
                assert(escaped(bytes)[i] == last[i - front.len()]);
            }
        }
    }
}

/// The number that a hexadecimal digit stands for, in either case.
pub open spec fn hex_value(ch: char) -> Option<int> {
    if '0' <= ch <= '9' {
        Some(ch as int - 48)
    } else if 'A' <= ch <= 'F' {
        Some(ch as int - 55)
    } else if 'a' <= ch <= 'f' {
        Some(ch as int - 87)
    } else {
        None
    }
}

/// The bytes that a percent-encoded text stands for: each percent sign and the
/// two hexadecimal digits behind it are one byte, and every other ASCII character
/// is itself.
pub open spec fn unescaped(text: Seq<char>) -> Option<Seq<u8>>
    decreases text.len(),
{
    if text.len() == 0 {
        Some(Seq::empty())
    } else if text[0] == '%' {
        if text.len() < 3 {
            None
        } else {
            match (hex_value(text[1]), hex_value(text[2]), unescaped(text.skip(3))) {
                (Some(high), Some(low), Some(rest)) => Some(seq![(16 * high + low) as u8] + rest),
                _ => None,
            }
        }
    } else if text[0] as u32 <= 127 {
        match unescaped(text.skip(1)) {
            Some(rest) => Some(seq![text[0] as u8] + rest),
            None => None,
        }
    } else {
        None
    }
}

/// A character that stands for itself in a URL.
pub open spec fn unreserved_char(ch: char) -> bool {
    ch as u32 <= 127 && unreserved(ch as u8)
}

/// Whether a text is made of unreserved characters and of percent signs, each
/// with two upper-case hexadecimal digits behind it.
pub open spec fn well_escaped(text: Seq<char>) -> bool
    decreases text.len(),
{
    if text.len() == 0 {
        true
    } else if text[0] == '%' {
        &&& text.len() >= 3
        &&& '0' <= text[1] <= '9' || 'A' <= text[1] <= 'F'
        &&& '0' <= text[2] <= '9' || 'A' <= text[2] <= 'F'
        &&& well_escaped(text.skip(3))
    } else {
        unreserved_char(text[0]) && well_escaped(text.skip(1))
    }
}

/// Byte strings that are joined are escaped one behind the other.
pub proof fn law_escaping_goes_byte_by_byte(a: Seq<u8>, b: Seq<u8>)
    ensures
        escaped(a + b) == escaped(a) + escaped(b),
    decreases b.len(),
{
    if b.len() == 0 {
        assert(a + b =~= a);
        assert(escaped(a) + escaped(b) =~= escaped(a));
    } else {
        law_escaping_goes_byte_by_byte(a, b.drop_last());
        assert((a + b).drop_last() =~= a + b.drop_last());
        assert((escaped(a) + escaped(b.drop_last())) + escaped_byte(b.last()) =~= escaped(a) + escaped(b));
    }
}

/// The encoding of two texts that are joined.
proof fn lemma_utf8_joined(a: Seq<char>, b: Seq<char>)
    ensures
        vstd::utf8::encode_utf8(a + b) == vstd::utf8::encode_utf8(a) + vstd::utf8::encode_utf8(b),
    decreases a.len(),
{
    reveal(vstd::utf8::encode_utf8);
    if a.len() == 0 {
        assert(a + b =~= b);
        assert(vstd::utf8::encode_utf8(a) + vstd::utf8::encode_utf8(b) =~= vstd::utf8::encode_utf8(b));
    } else {
        lemma_utf8_joined(a.drop_first(), b);
        assert((a + b).drop_first() =~= a.drop_first() + b);
        assert(vstd::utf8::encode_utf8(a + b) =~= vstd::utf8::encode_utf8(a) + vstd::utf8::encode_utf8(b));
    }
}

/// Texts that are joined are escaped one behind the other.
pub proof fn law_escaping_goes_text_by_text(a: Seq<char>, b: Seq<char>)
    ensures
        escaped(vstd::utf8::encode_utf8(a + b)) == escaped(vstd::utf8::encode_utf8(a)) + escaped(
            vstd::utf8::encode_utf8(b),
        ),
{
    lemma_utf8_joined(a, b);
    law_escaping_goes_byte_by_byte(vstd::utf8::encode_utf8(a), vstd::utf8::encode_utf8(b));
}

/// The first byte of what is escaped comes first.
proof fn lemma_escaped_first(bytes: Seq<u8>)
    requires
        bytes.len() > 0,
    ensures
        escaped(bytes) == escaped_byte(bytes[0]) + escaped(bytes.skip(1)),
{
    let first = bytes.take(1);
    law_escaping_goes_byte_by_byte(first, bytes.skip(1));
    assert(first + bytes.skip(1) =~= bytes);
    reveal_with_fuel(escaped, 2);
    assert(escaped(first) =~= escaped_byte(bytes[0]));
}

/// Percent-decoding what is escaped gives the bytes back, and what is escaped is
/// made of unreserved characters and of percent signs with two upper-case
/// hexadecimal digits each.
pub proof fn law_escaping_is_undone(bytes: Seq<u8>)
    ensures
        unescaped(escaped(bytes)) == Some(bytes),
        well_escaped(escaped(bytes)),
    decreases bytes.len(),
{
    if bytes.len() == 0 {
        assert(bytes =~= Seq::<u8>::empty());
    } else {
        let byte = bytes[0];
        let rest = bytes.skip(1);
        let text = escaped(bytes);
        lemma_escaped_first(bytes);
        law_escaping_is_undone(rest);
        assert(seq![byte] + rest =~= bytes);
        if unreserved(byte) {
            assert(text.skip(1) =~= escaped(rest));
            assert(text[0] == byte as char);
            assert(text[0] as u8 == byte);
        } else {
            assert(text.skip(3) =~= escaped(rest));
            assert(text[1] == upper_hex(byte as int / 16));
            assert(text[2] == upper_hex(byte as int % 16));
            assert(hex_value(text[1]) == Some(byte as int / 16));
            assert(hex_value(text[2]) == Some(byte as int % 16));
            assert((16 * (byte as int / 16) + byte as int % 16) as u8 == byte);
        }
    }
}

/// What is escaped is at least as long, and as long only where every byte stands
/// for itself.
proof fn lemma_escaped_length(bytes: Seq<u8>)
    ensures
        escaped(bytes).len() >= bytes.len(),
        escaped(bytes).len() == bytes.len() <==> forall|i: int|
            0 <= i < bytes.len() ==> unreserved(#[trigger] bytes[i]),
        escaped(bytes).len() == bytes.len() ==> forall|i: int|
            0 <= i < bytes.len() ==> escaped(bytes)[i] == #[trigger] bytes[i] as char,
    decreases bytes.len(),
{
    if bytes.len() > 0 {
        let front = bytes.drop_last();
        lemma_escaped_length(front);
        if escaped(bytes).len() == bytes.len() {
            assert(unreserved(bytes.last()));
            assert forall|i: int| 0 <= i < bytes.len() implies {
                &&& unreserved(#[trigger] bytes[i])
                &&& escaped(bytes)[i] == bytes[i] as char
            } by {
                if i < front.len() {
                    assert(front[i] == bytes[i]);
                }
            }
        } else if forall|i: int| 0 <= i < bytes.len() ==> unreserved(#[trigger] bytes[i]) {
            assert forall|i: int| 0 <= i < front.len() implies unreserved(#[trigger] front[i]) by {
                assert(front[i] == bytes[i]);
            }
            assert(unreserved(bytes[bytes.len() - 1]));
        }
    }
}

/// A character below 128 is an ASCII character, and its byte stands for it.
proof fn lemma_ascii_char(ch: char)
    requires
        ch as u32 <= 127,
    ensures
        '\0' <= ch <= '\u{7f}',
        ch as u8 as char == ch,
{
}

/// A text is escaped to itself exactly where it holds only unreserved characters.
pub proof fn law_only_unreserved_texts_stay(text: Seq<char>)
    ensures
        escaped(vstd::utf8::encode_utf8(text)) == text <==> forall|i: int|
            0 <= i < text.len() ==> unreserved_char(#[trigger] text[i]),
{
    let bytes = vstd::utf8::encode_utf8(text);
    lemma_escaped_length(bytes);
    if escaped(bytes) == text {
        law_escaped_text_is_inert(bytes);
        assert forall|i: int| 0 <= i < text.len() implies '\0' <= #[trigger] text[i] <= '\u{7f}' by {
            assert(text[i] == '%' || unreserved_char(text[i]));
            lemma_ascii_char(text[i]);
        }
        vstd::utf8::is_ascii_chars_encode_utf8(text);
        assert forall|i: int| 0 <= i < text.len() implies unreserved_char(#[trigger] text[i]) by {
            assert(unreserved(bytes[i]));
            assert(text[i] as u8 == bytes[i]);
        }
    }
    if forall|i: int| 0 <= i < text.len() ==> unreserved_char(#[trigger] text[i]) {
        assert forall|i: int| 0 <= i < text.len() implies '\0' <= #[trigger] text[i] <= '\u{7f}' by {
            assert(text[i] == '%' || unreserved_char(text[i]));
            lemma_ascii_char(text[i]);
        }
        vstd::utf8::is_ascii_chars_encode_utf8(text);
        assert forall|i: int| 0 <= i < bytes.len() implies unreserved(#[trigger] bytes[i]) by {
            assert(unreserved_char(text[i]));
        }
        assert forall|i: int| 0 <= i < text.len() implies escaped(bytes)[i] == #[trigger] text[i] by {
            lemma_ascii_char(text[i]);
            assert(escaped(bytes)[i] == bytes[i] as char);
        }
        assert(escaped(bytes) =~= text);
    }
}

/// The text that `{:?}` writes for a string: the string in double quotes, with
/// what needs escaping escaped.
pub uninterp spec fn debug_quoted(text: Seq<char>) -> Seq<char>;

/// std's `Debug` for `str`: a quoted text that depends on the string alone.
#[verifier::external_body]
pub(crate) fn quoted(text: &str) -> (out: String)
    ensures
        out@ == debug_quoted(text@),
{
    format!("{:?}", text)
}

} // verus!
