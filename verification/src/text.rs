//! Text building blocks: decimal numbers, character lists, substring search.

use vstd::prelude::*;

verus! {

/// The decimal digit for `d`, which is below ten.
pub open spec fn digit_char(d: nat) -> char {
    (48 + d) as char
}

/// Whether `c` is one of the ten ASCII digits.
pub open spec fn is_digit(c: char) -> bool {
    48 <= c as int <= 57
}

/// The value of an ASCII digit.
pub open spec fn digit_value(c: char) -> nat {
    (c as int - 48) as nat
}

/// Whether `s` is a number: one digit or more, and nothing else.
pub open spec fn is_number(s: Seq<char>) -> bool {
    &&& s.len() > 0
    &&& forall|i: int| 0 <= i < s.len() ==> is_digit(#[trigger] s[i])
}

/// The number that a run of digits writes in base ten.
pub open spec fn number(s: Seq<char>) -> nat
    decreases s.len(),
{
    if s.len() == 0 {
        0
    } else {
        number(s.drop_last()) * 10 + digit_value(s.last())
    }
}

/// `n` written in base ten without leading zeros.
pub open spec fn decimal(n: nat) -> Seq<char>
    decreases n,
{
    if n < 10 {
        seq![digit_char(n)]
    } else {
        decimal(n / 10).push(digit_char(n % 10))
    }
}

/// Writing a number and reading it back gives the same number.
pub proof fn decimal_reads_back(n: nat)
    ensures
        is_number(decimal(n)),
        number(decimal(n)) == n,
    decreases n,
{
    reveal_with_fuel(number, 2);
    if n >= 10 {
        decimal_reads_back(n / 10);
        assert(decimal(n).drop_last() =~= decimal(n / 10));
    } else {
        assert(decimal(n).drop_last() =~= Seq::<char>::empty());
    }
}

/// A longer run of digits writes a number that is at least as large.
pub proof fn number_grows(s: Seq<char>, i: int)
    requires
        0 <= i <= s.len(),
    ensures
        number(s.take(i)) <= number(s),
    decreases s.len(),
{
    if i == s.len() {
        assert(s.take(i) =~= s);
    } else {
        number_grows(s.drop_last(), i);
        assert(s.drop_last().take(i) =~= s.take(i));
    }
}

/// The text of one digit.
fn digit_str(d: u64) -> (s: &'static str)
    requires
        d < 10,
    ensures
        s@ == seq![digit_char(d as nat)],
{
    proof {
        reveal_strlit("0");
        reveal_strlit("1");
        reveal_strlit("2");
        reveal_strlit("3");
        reveal_strlit("4");
        reveal_strlit("5");
        reveal_strlit("6");
        reveal_strlit("7");
        reveal_strlit("8");
        reveal_strlit("9");
    }
    match d {
        0 => "0",
        1 => "1",
        2 => "2",
        3 => "3",
        4 => "4",
        5 => "5",
        6 => "6",
        7 => "7",
        8 => "8",
        _ => "9",
    }
}

/// `n` in base ten, as `{}` formats it.
pub(crate) fn format_decimal(n: u64) -> (text: String)
    ensures
        text@ == decimal(n as nat),
    decreases n,
{
    if n < 10 {
        digit_str(n).to_owned()
    } else {
        let mut text = format_decimal(n / 10);
        text.append(digit_str(n % 10));
        text
    }
}

/// The characters of `s`, in order.
pub(crate) fn chars_of(s: &str) -> (chars: Vec<char>)
    ensures
        chars@ == s@,
{
    let mut chars: Vec<char> = Vec::new();
    for c in it: s.chars()
        invariant
            chars@ == it.seq().take(it.index()),
            it.seq() == s@,
    {
        chars.push(c);
    }
    assert(s@.take(s@.len() as int) =~= s@);
    chars
}

/// The lower-case form of an ASCII letter, any other character unchanged.
pub open spec fn ascii_lower(c: char) -> char {
    if 65 <= c as int <= 90 {
        (c as int + 32) as char
    } else {
        c
    }
}

/// `s` with its ASCII letters in lower case.
pub open spec fn lowercase(s: Seq<char>) -> Seq<char> {
    s.map_values(|c: char| ascii_lower(c))
}

/// The characters of `s`, ASCII letters in lower case.
pub(crate) fn lowercase_chars(s: &str) -> (chars: Vec<char>)
    ensures
        chars@ == lowercase(s@),
{
    let all = chars_of(s);
    let mut chars: Vec<char> = Vec::new();
    for i in 0..all.len()
        invariant
            all@ == s@,
            chars@ == lowercase(s@).take(i as int),
    {
        let c = all[i];
        if 'A' <= c && c <= 'Z' {
            chars.push(((c as u8) + 32) as char);
        } else {
            chars.push(c);
        }
        assert(lowercase(s@).take(i + 1) =~= lowercase(s@).take(i as int).push(ascii_lower(c)));
    }
    assert(lowercase(s@).take(all@.len() as int) =~= lowercase(s@));
    chars
}

/// Whether `needle` stands at position `at` of `hay`.
pub open spec fn occurs_at(hay: Seq<char>, needle: Seq<char>, at: int) -> bool {
    &&& 0 <= at
    &&& at + needle.len() <= hay.len()
    &&& hay.subrange(at, at + needle.len()) == needle
}

/// Whether `needle` stands anywhere in `hay`.
pub open spec fn contains(hay: Seq<char>, needle: Seq<char>) -> bool {
    exists|at: int| occurs_at(hay, needle, at)
}

/// Whether `needle` stands at position `at` of `hay`.
fn found_at(hay: &Vec<char>, needle: &Vec<char>, at: usize) -> (r: bool)
    requires
        at + needle@.len() <= hay@.len(),
    ensures
        r == occurs_at(hay@, needle@, at as int),
{
    let end: usize = hay.len();
    for j in 0..needle.len()
        invariant
            end == hay@.len(),
            at + needle@.len() <= end,
            forall|i: int| 0 <= i < j ==> hay@[at + i] == needle@[i],
    {
        if hay[at + j] != needle[j] {
            assert(hay@.subrange(at as int, at + needle@.len())[j as int] != needle@[j as int]);
            return false;
        }
    }
    assert(hay@.subrange(at as int, at + needle@.len()) =~= needle@);
    true
}

/// Whether `needle` stands anywhere in `hay`.
pub(crate) fn has(hay: &Vec<char>, needle: &str) -> (r: bool)
    ensures
        r == contains(hay@, needle@),
{
    let wanted = chars_of(needle);
    if wanted.len() > hay.len() {
        return false;
    }
    let last: usize = hay.len() - wanted.len();
    let mut at: usize = 0;
    while at < last
        invariant
            wanted@ == needle@,
            at <= last,
            last + wanted@.len() == hay@.len(),
            forall|i: int| 0 <= i < at ==> !occurs_at(hay@, needle@, i),
        decreases last - at,
    {
        if found_at(hay, &wanted, at) {
            return true;
        }
        at += 1;
    }
    found_at(hay, &wanted, last)
}

/// How `{:?}` formats a character: in single quotes, escaped where it is not
/// printable.
pub uninterp spec fn debug_char(c: char) -> Seq<char>;

/// Whether `c` is a printable ASCII character that needs no escape between
/// single quotes.
pub open spec fn is_plain(c: char) -> bool {
    32 <= c as int <= 126 && c != '\'' && c != '\\'
}

/// Calls the `Debug` formatting of `char` from std. Taken on trust: the text
/// depends on the character alone, and a printable ASCII character that needs
/// no escape comes out as it is, in single quotes. What the text of any other
/// character is stays unsaid.
#[verifier::external_body]
fn format_debug_char(c: char) -> (text: String)
    ensures
        text@ == debug_char(c),
        is_plain(c) ==> text@ == seq!['\'', c, '\''],
{
    format!("{:?}", c)
}

/// A character in single quotes, escaped where it is not plain.
pub open spec fn quoted(c: char) -> Seq<char> {
    if is_plain(c) {
        seq!['\'', c, '\'']
    } else {
        debug_char(c)
    }
}

/// `c` in single quotes, as `{:?}` formats it.
pub(crate) fn format_quoted(c: char) -> (text: String)
    ensures
        text@ == quoted(c),
{
    format_debug_char(c)
}

/// One more digit makes ten times the number and the value of the digit, and
/// no digit at all is zero. Only the ten ASCII digits are digits.
pub proof fn number_is_positional(s: Seq<char>, c: char)
    ensures
        number(Seq::empty()) == 0,
        '0' <= c <= '9' ==> number(s.push(c)) == 10 * number(s) + (c as int - '0' as int),
        is_number(s.push(c)) <==> '0' <= c <= '9' && (s.len() == 0 || is_number(s)),
        !is_number(Seq::empty()),
{
    assert(s.push(c).drop_last() =~= s);
    assert(s.push(c).last() == c);
    if is_number(s.push(c)) {
        assert(is_digit(s.push(c)[s.len() as int]));
        assert forall|i: int| 0 <= i < s.len() implies is_digit(#[trigger] s[i]) by {
            assert(s.push(c)[i] == s[i]);
        }
    }
    if '0' <= c <= '9' && (s.len() == 0 || is_number(s)) {
        assert forall|i: int| 0 <= i < s.push(c).len() implies is_digit(
            #[trigger] s.push(c)[i],
        ) by {
            if i < s.len() {
                assert(s.push(c)[i] == s[i]);
            }
        }
    }
}

/// Whether `digits` is how `n` is written: digits that come to `n`, without
/// a zero in front of others.
pub open spec fn is_numeral(digits: Seq<char>, n: nat) -> bool {
    &&& is_number(digits)
    &&& number(digits) == n
    &&& digits.len() > 1 ==> digits[0] != '0'
}

/// Every number is written in one way, and in no other.
pub proof fn numerals_are_unique(digits: Seq<char>, n: nat)
    ensures
        is_numeral(digits, n) <==> digits == decimal(n),
{
    decimal_is_numeral(n);
    if is_numeral(digits, n) {
        numeral_is_decimal(digits, n);
    }
}

/// The decimal form has no zero in front of other digits.
proof fn decimal_is_numeral(n: nat)
    ensures
        is_numeral(decimal(n), n),
        n > 0 ==> decimal(n)[0] != '0',
    decreases n,
{
    decimal_reads_back(n);
    if n >= 10 {
        decimal_is_numeral(n / 10);
        decimal_reads_back(n / 10);
        assert(decimal(n)[0] == decimal(n / 10)[0]);
    }
}

/// Digits without a zero in front are the decimal form of what they come to.
proof fn numeral_is_decimal(digits: Seq<char>, n: nat)
    requires
        is_numeral(digits, n),
    ensures
        digits == decimal(n),
    decreases digits.len(),
{
    let init = digits.drop_last();
    let last = digits.last();
    assert(is_digit(digits[digits.len() - 1]));
    assert(is_digit(digits[0]));
    assert(digits =~= init.push(last));
    if digits.len() == 1 {
        reveal_with_fuel(number, 2);
        assert(init =~= Seq::<char>::empty());
        assert(digits =~= seq![digit_char(n)]);
    } else {
        assert forall|i: int| 0 <= i < init.len() implies is_digit(#[trigger] init[i]) by {
            assert(init[i] == digits[i]);
        }
        reveal_with_fuel(number, 2);
        number_grows(init, 1);
        assert(init.take(1).drop_last() =~= Seq::<char>::empty());
        assert(number(init.take(1)) == digit_value(digits[0]));
        assert(n == number(init) * 10 + digit_value(last));
        numeral_is_decimal(init, number(init));
        assert(n / 10 == number(init));
        assert(n % 10 == digit_value(last));
    }
}

/// Lower case replaces each of the capitals A to Z by its small letter, and
/// leaves everything else as it is.
pub proof fn lowercase_replaces_capitals(s: Seq<char>, i: int)
    requires
        0 <= i < s.len(),
    ensures
        lowercase(s).len() == s.len(),
        'A' <= s[i] <= 'Z' ==> lowercase(s)[i] as int == s[i] as int + ('a' as int - 'A' as int),
        !('A' <= s[i] <= 'Z') ==> lowercase(s)[i] == s[i],
{
}

/// A text contains another one exactly if it is that one with something
/// before and something after it.
pub proof fn contains_is_between(hay: Seq<char>, needle: Seq<char>)
    ensures
        contains(hay, needle) <==> exists|before: Seq<char>, after: Seq<char>|
            hay == #[trigger] (before + needle + after),
{
    if contains(hay, needle) {
        let at = choose|at: int| occurs_at(hay, needle, at);
        let before = hay.take(at);
        let after = hay.skip(at + needle.len());
        assert(hay =~= before + needle + after) by {
            assert forall|j: int| 0 <= j < needle.len() implies hay[at + j] == needle[j] by {
                assert(hay.subrange(at, at + needle.len())[j] == hay[at + j]);
            }
        }
    }
    if exists|before: Seq<char>, after: Seq<char>| hay == #[trigger] (before + needle + after) {
        let (before, after) = choose|before: Seq<char>, after: Seq<char>|
            hay == #[trigger] (before + needle + after);
        let at = before.len() as int;
        assert(hay.subrange(at, at + needle.len()) =~= needle);
        assert(occurs_at(hay, needle, at));
    }
}

/// What is contained in a text is contained in any longer one.
pub proof fn contains_in_longer(before: Seq<char>, hay: Seq<char>, after: Seq<char>, needle: Seq<char>)
    requires
        contains(hay, needle),
    ensures
        contains(before + hay + after, needle),
{
    let at = choose|at: int| occurs_at(hay, needle, at);
    let all = before + hay + after;
    let there = before.len() + at;
    assert(all.subrange(there, there + needle.len()) =~= hay.subrange(at, at + needle.len()));
    assert(occurs_at(all, needle, there));
}

/// What does not hold the separator is contained in two texts with the
/// separator between them exactly if it is contained in one of them.
pub proof fn contains_in_one_of_two(a: Seq<char>, separator: char, b: Seq<char>, needle: Seq<char>)
    requires
        needle.len() > 0,
        !needle.contains(separator),
    ensures
        contains(a + seq![separator] + b, needle) <==> contains(a, needle) || contains(b, needle),
{
    let all = a + seq![separator] + b;
    let n = needle.len() as int;
    if contains(all, needle) {
        let at = choose|at: int| occurs_at(all, needle, at);
        if at + n <= a.len() {
            assert(a.subrange(at, at + n) =~= all.subrange(at, at + n));
            assert(occurs_at(a, needle, at));
        } else if at > a.len() {
            let there = at - a.len() - 1;
            assert(b.subrange(there, there + n) =~= all.subrange(at, at + n));
            assert(occurs_at(b, needle, there));
        } else {
            let k = a.len() - at;
            assert(all.subrange(at, at + n)[k] == all[a.len() as int]);
            assert(needle[k] == separator);
        }
    }
    if contains(a, needle) {
        contains_in_longer(Seq::empty(), a, seq![separator] + b, needle);
        assert(Seq::<char>::empty() + a + (seq![separator] + b) =~= all);
    }
    if contains(b, needle) {
        contains_in_longer(a + seq![separator], b, Seq::empty(), needle);
        assert(a + seq![separator] + b + Seq::<char>::empty() =~= all);
    }
}

} // verus!
