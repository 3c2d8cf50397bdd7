//! Parser for compound duration strings like `1h30m45s`.
//!
//! Grammar (informal):
//!   duration = component+
//!   component = integer unit
//!   unit = "h" | "m" | "s"
//!
//! Constraints:
//!   - units must appear in order h -> m -> s
//!   - each unit may appear at most once
//!   - integer values only, must be non-negative
//!   - at least one component required
//!   - total duration must be > 0

use crate::text::{chars_of, format_decimal, format_quoted};
use crate::time::Duration;
use vstd::prelude::*;

verus! {

/// What is wrong with a duration string.
#[derive(Debug, Clone, Copy, PartialEq, Eq, Structural)]
pub enum ParseError {
    /// There is no text at all.
    Empty,
    /// A character at a position where it cannot stand.
    UnexpectedChar(char, usize),
    /// The text ends in a number.
    MissingUnit,
    /// A number, or the sum, is beyond what can be counted.
    Overflow,
    /// A unit occurs a second time.
    DuplicateUnit(char),
    /// A unit follows a smaller one.
    OutOfOrderUnit(char),
    /// Every number is zero.
    Zero,
}

impl ParseError {
    /// The wording of the error.
    pub open spec fn text(self) -> Seq<char> {
        match self {
            ParseError::Empty => "empty duration string"@,
            ParseError::UnexpectedChar(c, at) => "unexpected character "@
                + crate::text::quoted(c) + " at position "@ + crate::text::decimal(at as nat),
            ParseError::MissingUnit => "missing unit suffix after number"@,
            ParseError::Overflow => "number overflow"@,
            ParseError::DuplicateUnit(c) => "unit "@ + crate::text::quoted(c)
                + " appears twice"@,
            ParseError::OutOfOrderUnit(c) => "unit "@ + crate::text::quoted(c)
                + " appears after smaller unit (must be ordered h, m, s)"@,
            ParseError::Zero => "duration must be greater than zero"@,
        }
    }

    /// The error in words.
    pub fn to_string(&self) -> (text: String)
        ensures
            text@ == self.text(),
    {
        match *self {
            ParseError::Empty => "empty duration string".to_owned(),
            ParseError::UnexpectedChar(c, at) => {
                let mut text = "unexpected character ".to_owned();
                text.append(format_quoted(c).as_str());
                text.append(" at position ");
                text.append(format_decimal(at as u64).as_str());
                text
            },
            ParseError::MissingUnit => "missing unit suffix after number".to_owned(),
            ParseError::Overflow => "number overflow".to_owned(),
            ParseError::DuplicateUnit(c) => {
                let mut text = "unit ".to_owned();
                text.append(format_quoted(c).as_str());
                text.append(" appears twice");
                text
            },
            ParseError::OutOfOrderUnit(c) => {
                let mut text = "unit ".to_owned();
                text.append(format_quoted(c).as_str());
                text.append(" appears after smaller unit (must be ordered h, m, s)");
                text
            },
            ParseError::Zero => "duration must be greater than zero".to_owned(),
        }
    }
}

/// The seconds that one `unit` stands for, or `None` if it is no unit.
pub open spec fn unit_secs(unit: char) -> Option<nat> {
    match unit {
        'h' => Some(3600),
        'm' => Some(60),
        's' => Some(1),
        _ => None,
    }
}

/// Where the run of digits that starts at `i` ends.
pub open spec fn digits_end(s: Seq<char>, i: int) -> int
    decreases s.len() - i,
{
    if 0 <= i < s.len() && crate::text::is_digit(s[i]) {
        digits_end(s, i + 1)
    } else {
        i
    }
}

/// What reading `s` from `i` on comes to, after components with the given
/// `units` have added up to `total` seconds.
///
/// A component is a run of digits and one unit. The first thing that is
/// wrong decides the error.
pub open spec fn components(s: Seq<char>, i: int, units: Seq<char>, total: nat) -> Result<
    nat,
    ParseError,
>
    decreases s.len() - i,
{
    let end = digits_end(s, i);
    let value = crate::text::number(s.subrange(i, end));
    if i >= s.len() {
        if total == 0 {
            Err(ParseError::Zero)
        } else {
            Ok(total)
        }
    } else if value > u64::MAX {
        Err(ParseError::Overflow)
    } else if end == s.len() {
        Err(ParseError::MissingUnit)
    } else if end <= i || unit_secs(s[end]) is None {
        Err(ParseError::UnexpectedChar(s[end], end as usize))
    } else if units.contains(s[end]) {
        Err(ParseError::DuplicateUnit(s[end]))
    } else if units.len() > 0 && unit_secs(s[end])->0 > unit_secs(units.last())->0 {
        Err(ParseError::OutOfOrderUnit(s[end]))
    } else if total + value * unit_secs(s[end])->0 > u64::MAX {
        Err(ParseError::Overflow)
    } else {
        proof {
            digits_end_bounds(s, i);
        }
        components(s, end + 1, units.push(s[end]), total + value * unit_secs(s[end])->0)
    }
}

/// The number of seconds that a duration string stands for, or what is wrong
/// with it.
pub open spec fn parsed(s: Seq<char>) -> Result<nat, ParseError> {
    if s.len() == 0 {
        Err(ParseError::Empty)
    } else {
        components(s, 0, Seq::empty(), 0)
    }
}

/// A run of digits holds digits only, and is as long as it can be.
pub proof fn digits_end_bounds(s: Seq<char>, i: int)
    requires
        i <= s.len(),
    ensures
        i <= digits_end(s, i) <= s.len(),
        forall|j: int| i <= j < digits_end(s, i) ==> crate::text::is_digit(#[trigger] s[j]),
        0 <= digits_end(s, i) < s.len() ==> !crate::text::is_digit(s[digits_end(s, i)]),
    decreases s.len() - i,
{
    if 0 <= i < s.len() && crate::text::is_digit(s[i]) {
        digits_end_bounds(s, i + 1);
    }
}

/// Parse a duration string like `"1h30m"`, `"5m"`, `"30s"`.
///
/// The position in an error counts characters. All characters before it are
/// digits and units, so it is the position in bytes as well.
pub fn parse(s: &str) -> (result: Result<Duration, ParseError>)
    ensures
        match result {
            Ok(d) => parsed(s@) == Ok::<nat, ParseError>(d.secs()) && d@ == d.secs()
                * 1_000_000_000,
            Err(e) => parsed(s@) == Err::<nat, ParseError>(e),
        },
        result matches Ok(d) ==> d@ > 0,
{
    if s.is_empty() {
        return Err(ParseError::Empty);
    }
    let chars = chars_of(s);
    let mut total: u64 = 0;
    let mut current: Option<u64> = None;
    let mut last_unit_rank: i8 = -1;  // h=0, m=1, s=2; we require strictly increasing
    let mut seen_h = false;
    let mut seen_m = false;
    let mut seen_s = false;
    let ghost mut start: int = 0;
    let ghost mut units: Seq<char> = Seq::empty();

    for i in 0..chars.len()
        invariant
            chars@ == s@,
            0 <= start <= i,
            parsed(s@) == components(s@, start, units, total as nat),
            digits_end(s@, start) == digits_end(s@, i as int),
            current is None <==> start == i,
            current matches Some(v) ==> v == crate::text::number(s@.subrange(start, i as int)),
            seen_h <==> units.contains('h'),
            seen_m <==> units.contains('m'),
            seen_s <==> units.contains('s'),
            units.len() == 0 <==> last_unit_rank == -1,
            units.len() > 0 ==> match last_unit_rank {
                0 => units.last() == 'h',
                1 => units.last() == 'm',
                2 => units.last() == 's',
                _ => false,
            },
    {
        let ch = chars[i];
        proof {
            digits_end_bounds(s@, start);
        }
        if '0' <= ch && ch <= '9' {
            let digit: u64 = (ch as u8 - 48) as u64;
            let prev: u64 = match current {
                Some(v) => v,
                None => 0,
            };
            proof {
                let run = s@.subrange(start, i + 1);
                let whole = s@.subrange(start, digits_end(s@, start));
                digits_end_bounds(s@, i + 1);
                assert(run.drop_last() =~= s@.subrange(start, i as int));
                assert(whole.take(i + 1 - start) =~= run);
                crate::text::number_grows(whole, i + 1 - start);
            }
            match prev.checked_mul(10) {
                None => {
                    return Err(ParseError::Overflow);
                },
                Some(tens) => match tens.checked_add(digit) {
                    None => {
                        return Err(ParseError::Overflow);
                    },
                    Some(next) => {
                        current = Some(next);
                    },
                },
            }
        } else {
            let value: u64 = match current {
                None => {
                    return Err(ParseError::UnexpectedChar(ch, i));
                },
                Some(v) => v,
            };
            current = None;
            let (rank, multiplier, seen): (i8, u64, bool) = match ch {
                'h' => (0, 3600, seen_h),
                'm' => (1, 60, seen_m),
                's' => (2, 1, seen_s),
                _ => {
                    return Err(ParseError::UnexpectedChar(ch, i));
                },
            };
            if seen {
                return Err(ParseError::DuplicateUnit(ch));
            }
            if rank <= last_unit_rank {
                return Err(ParseError::OutOfOrderUnit(ch));
            }
            match ch {
                'h' => {
                    seen_h = true;
                },
                'm' => {
                    seen_m = true;
                },
                _ => {
                    seen_s = true;
                },
            }
            last_unit_rank = rank;
            let component: u64 = match value.checked_mul(multiplier) {
                None => {
                    return Err(ParseError::Overflow);
                },
                Some(component) => component,
            };
            total = match total.checked_add(component) {
                None => {
                    return Err(ParseError::Overflow);
                },
                Some(sum) => sum,
            };
            proof {
                let before = units;
                units = before.push(ch);
                start = i + 1;
                assert(units.last() == ch);
                assert forall|c: char| units.contains(c) <==> before.contains(c) || c == ch by {
                    if before.contains(c) {
                        let k = choose|k: int| 0 <= k < before.len() && before[k] == c;
                        assert(units[k] == c);
                    }
                    assert(units[before.len() as int] == ch);
                }
            }
        }
    }
    proof {
        digits_end_bounds(s@, start);
    }
    if current.is_some() {
        return Err(ParseError::MissingUnit);
    }
    if total == 0 {
        return Err(ParseError::Zero);
    }
    Ok(Duration::from_secs(total))
}

/// The text of one component, a number and its unit, or nothing where the
/// component is left out.
pub open spec fn component(digits: Option<Seq<char>>, unit: char) -> Seq<char> {
    match digits {
        Some(digits) => digits.push(unit),
        None => Seq::empty(),
    }
}

/// The seconds that one component adds.
pub open spec fn component_secs(digits: Option<Seq<char>>, unit: char) -> nat {
    match digits {
        Some(digits) => crate::text::number(digits) * unit_secs(unit)->0,
        None => 0,
    }
}

/// Whether `s` is the components `h`, `m` and `sec`, in this order, each of
/// which may be left out.
pub open spec fn spells(
    s: Seq<char>,
    h: Option<Seq<char>>,
    m: Option<Seq<char>>,
    sec: Option<Seq<char>>,
) -> bool {
    &&& h matches Some(digits) ==> crate::text::is_number(digits)
    &&& m matches Some(digits) ==> crate::text::is_number(digits)
    &&& sec matches Some(digits) ==> crate::text::is_number(digits)
    &&& s == component(h, 'h') + component(m, 'm') + component(sec, 's')
}

/// The seconds that three components come to.
pub open spec fn spelled_secs(
    h: Option<Seq<char>>,
    m: Option<Seq<char>>,
    sec: Option<Seq<char>>,
) -> nat {
    component_secs(h, 'h') + component_secs(m, 'm') + component_secs(sec, 's')
}

/// One component that stands at `i` is read as such.
proof fn reads_component(s: Seq<char>, i: int, digits: Seq<char>, unit: char, units: Seq<char>, total: nat)
    requires
        0 <= i,
        i + digits.len() < s.len(),
        crate::text::is_number(digits),
        s.subrange(i, i + digits.len()) == digits,
        s[i + digits.len()] == unit,
        unit_secs(unit) is Some,
        !units.contains(unit),
        units.len() > 0 ==> unit_secs(units.last())->0 > unit_secs(unit)->0,
        total + crate::text::number(digits) * unit_secs(unit)->0 <= u64::MAX,
    ensures
        components(s, i, units, total) == components(
            s,
            i + digits.len() + 1,
            units.push(unit),
            total + crate::text::number(digits) * unit_secs(unit)->0,
        ),
{
    digits_end_bounds(s, i);
    let end = digits_end(s, i);
    assert(s.subrange(i, i + digits.len())[0] == s[i]);
    if end < i + digits.len() {
        assert(digits[end - i] == s[end]);
    }
    if end > i + digits.len() {
        assert(crate::text::is_digit(s[i + digits.len()]));
    }
    assert(crate::text::number(digits) <= crate::text::number(digits) * unit_secs(unit)->0)
        by (nonlinear_arith)
        requires
            unit_secs(unit)->0 >= 1,
    ;
}

/// What was read to the end without an error is made of components, largest
/// unit first.
proof fn splits_into_components(s: Seq<char>, i: int, units: Seq<char>, total: nat) -> (parts: (
    Option<Seq<char>>,
    Option<Seq<char>>,
    Option<Seq<char>>,
))
    requires
        0 <= i <= s.len(),
        components(s, i, units, total) is Ok,
        forall|k: int|
            0 <= k < units.len() ==> unit_secs(#[trigger] units[k]) is Some && unit_secs(
                units[k],
            )->0 >= unit_secs(units.last())->0,
    ensures
        spells(s.subrange(i, s.len() as int), parts.0, parts.1, parts.2),
        components(s, i, units, total)->Ok_0 == total + spelled_secs(parts.0, parts.1, parts.2),
        units.len() > 0 && unit_secs(units.last())->0 <= 3600 ==> parts.0 is None,
        units.len() > 0 && unit_secs(units.last())->0 <= 60 ==> parts.1 is None,
        units.len() > 0 && unit_secs(units.last())->0 <= 1 ==> parts.2 is None,
    decreases s.len() - i,
{
    if i == s.len() {
        assert(s.subrange(i, s.len() as int) =~= Seq::<char>::empty());
        assert(component(None, 'h') + component(None, 'm') + component(None, 's')
            =~= Seq::<char>::empty());
        (None, None, None)
    } else {
        digits_end_bounds(s, i);
        let end = digits_end(s, i);
        let digits = s.subrange(i, end);
        let unit = s[end];
        let more = units.push(unit);
        let sum = total + crate::text::number(digits) * unit_secs(unit)->0;
        if units.len() > 0 {
            assert(unit_secs(units.last()) is Some);
        }
        assert forall|k: int| 0 <= k < more.len() implies unit_secs(#[trigger] more[k]) is Some
            && unit_secs(more[k])->0 >= unit_secs(more.last())->0 by {
            if k < units.len() {
                assert(more[k] == units[k]);
            }
        }
        let rest = splits_into_components(s, end + 1, more, sum);
        let tail = s.subrange(end + 1, s.len() as int);
        assert(s.subrange(i, s.len() as int) =~= digits.push(unit) + tail);
        let parts = if unit == 'h' {
            (Some(digits), rest.1, rest.2)
        } else if unit == 'm' {
            (rest.0, Some(digits), rest.2)
        } else {
            (rest.0, rest.1, Some(digits))
        };
        assert(s.subrange(i, s.len() as int) =~= component(parts.0, 'h') + component(parts.1, 'm')
            + component(parts.2, 's'));
        if units.len() > 0 && unit_secs(units.last())->0 == unit_secs(unit)->0 {
            assert(units.last() == unit);
            assert(units.contains(unit));
        }
        parts
    }
}

/// A duration string is accepted exactly if it follows the grammar: an
/// optional number of hours, then of minutes, then of seconds, that come to
/// more than zero and to no more than can be counted. It then stands for
/// their sum.
pub proof fn parse_follows_grammar(s: Seq<char>, secs: nat)
    ensures
        parsed(s) == Ok::<nat, ParseError>(secs) <==> {
            &&& 0 < secs <= u64::MAX
            &&& exists|h: Option<Seq<char>>, m: Option<Seq<char>>, sec: Option<Seq<char>>|
                #![trigger spells(s, h, m, sec)]
                spells(s, h, m, sec) && secs == spelled_secs(h, m, sec)
        },
{
    if parsed(s) == Ok::<nat, ParseError>(secs) {
        let parts = splits_into_components(s, 0, Seq::empty(), 0);
        assert(s.subrange(0, s.len() as int) =~= s);
        assert(spells(s, parts.0, parts.1, parts.2));
        components_in_range(s, 0, Seq::empty(), 0);
    }
    if 0 < secs <= u64::MAX {
        assert forall|h: Option<Seq<char>>, m: Option<Seq<char>>, sec: Option<Seq<char>>|
            #![trigger spells(s, h, m, sec)]
            spells(s, h, m, sec) && secs == spelled_secs(h, m, sec) implies parsed(s) == Ok::<
            nat,
            ParseError,
        >(secs) by {
            reads_components(s, h, m, sec);
        }
    }
}

/// A sum that was read without an error can be counted, and is not zero.
proof fn components_in_range(s: Seq<char>, i: int, units: Seq<char>, total: nat)
    requires
        total <= u64::MAX,
        i <= s.len(),
    ensures
        components(s, i, units, total) matches Ok(secs) ==> 0 < secs <= u64::MAX,
    decreases s.len() - i,
{
    if i < s.len() {
        digits_end_bounds(s, i);
        let end = digits_end(s, i);
        if components(s, i, units, total) is Ok {
            let sum = total + crate::text::number(s.subrange(i, end)) * unit_secs(s[end])->0;
            components_in_range(s, end + 1, units.push(s[end]), sum);
        }
    }
}

/// Text that follows the grammar is read as what it spells.
proof fn reads_components(
    s: Seq<char>,
    h: Option<Seq<char>>,
    m: Option<Seq<char>>,
    sec: Option<Seq<char>>,
)
    requires
        spells(s, h, m, sec),
        0 < spelled_secs(h, m, sec) <= u64::MAX,
    ensures
        parsed(s) == Ok::<nat, ParseError>(spelled_secs(h, m, sec)),
{
    let u0 = Seq::<char>::empty();
    let i1 = component(h, 'h').len() as int;
    let u1 = if h is Some {
        u0.push('h')
    } else {
        u0
    };
    if let Some(digits) = h {
        assert(s.subrange(0, digits.len() as int) =~= digits);
        reads_component(s, 0, digits, 'h', u0, 0);
    }
    let i2 = i1 + component(m, 'm').len();
    let u2 = if m is Some {
        u1.push('m')
    } else {
        u1
    };
    let t1 = component_secs(h, 'h');
    if let Some(digits) = m {
        assert(s.subrange(i1, i1 + digits.len()) =~= digits);
        reads_component(s, i1, digits, 'm', u1, t1);
    }
    let t2 = t1 + component_secs(m, 'm');
    if let Some(digits) = sec {
        assert(s.subrange(i2, i2 + digits.len()) =~= digits);
        reads_component(s, i2, digits, 's', u2, t2);
    }
    assert(s.len() > 0);
}

/// An unexpected character stands where the error says, and that position is
/// the number of bytes before it.
pub proof fn position_counts_bytes(s: Seq<char>, c: char, at: usize)
    requires
        parsed(s) == Err::<nat, ParseError>(ParseError::UnexpectedChar(c, at)),
        s.len() <= usize::MAX,
    ensures
        at < s.len(),
        s[at as int] == c,
        vstd::utf8::encode_utf8(s.take(at as int)).len() == at,
{
    unexpected_after_ascii(s, 0, Seq::empty(), 0, c, at);
    vstd::utf8::is_ascii_chars_encode_utf8(s.take(at as int));
}

/// Only digits and units come before an unexpected character.
proof fn unexpected_after_ascii(
    s: Seq<char>,
    i: int,
    units: Seq<char>,
    total: nat,
    c: char,
    at: usize,
)
    requires
        0 <= i <= s.len() <= usize::MAX,
        vstd::utf8::is_ascii_chars(s.take(i)),
        components(s, i, units, total) == Err::<nat, ParseError>(
            ParseError::UnexpectedChar(c, at),
        ),
    ensures
        at < s.len(),
        s[at as int] == c,
        vstd::utf8::is_ascii_chars(s.take(at as int)),
    decreases s.len() - i,
{
    digits_end_bounds(s, i);
    let end = digits_end(s, i);
    assert forall|j: int| 0 <= j < end implies '\0' <= #[trigger] s.take(end)[j] <= '\u{7f}' by {
        if j < i {
            assert(s.take(i)[j] == s[j]);
        } else {
            assert(crate::text::is_digit(s[j]));
        }
    }
    if i < end < s.len() && unit_secs(s[end]) is Some {
        assert forall|j: int| 0 <= j < end + 1 implies '\0' <= #[trigger] s.take(end + 1)[j]
            <= '\u{7f}' by {
            if j < end {
                assert(s.take(end)[j] == s[j]);
            }
        }
        unexpected_after_ascii(
            s,
            end + 1,
            units.push(s[end]),
            total + crate::text::number(s.subrange(i, end)) * unit_secs(s[end])->0,
            c,
            at,
        );
    }
}

/// The result of `parse` depends on how far the text can be taken apart:
/// numbers `h`, `m` and `sec` with their units, each of which may be left out,
/// then a run of `digits`, then what is left.
///
/// Text that is used up stands for the sum of the numbers. Any other text has
/// the first problem behind the components that could be read.
pub proof fn parse_reports_first_problem(
    s: Seq<char>,
    h: Seq<char>,
    m: Seq<char>,
    sec: Seq<char>,
    digits: Seq<char>,
    left: Seq<char>,
)
    requires
        forall|i: int| 0 <= i < h.len() ==> '0' <= #[trigger] h[i] <= '9',
        forall|i: int| 0 <= i < m.len() ==> '0' <= #[trigger] m[i] <= '9',
        forall|i: int| 0 <= i < sec.len() ==> '0' <= #[trigger] sec[i] <= '9',
        forall|i: int| 0 <= i < digits.len() ==> '0' <= #[trigger] digits[i] <= '9',
        left.len() > 0 ==> !('0' <= left[0] <= '9'),
        s == (if h.len() > 0 {
            h.push('h')
        } else {
            Seq::empty()
        }) + (if m.len() > 0 {
            m.push('m')
        } else {
            Seq::empty()
        }) + (if sec.len() > 0 {
            sec.push('s')
        } else {
            Seq::empty()
        }) + digits + left,
        3600 * crate::text::number(h) + 60 * crate::text::number(m) + crate::text::number(sec)
            <= u64::MAX,
    ensures
        ({
            let sum = 3600 * crate::text::number(h) + 60 * crate::text::number(m)
                + crate::text::number(sec);
            let value = crate::text::number(digits);
            let at = (s.len() - left.len()) as usize;
            let result = parsed(s);
            // Nothing at all.
            &&& s.len() == 0 ==> result == Err::<nat, ParseError>(ParseError::Empty)
            // Components and nothing else.
            &&& s.len() > 0 && digits.len() == 0 && left.len() == 0 ==> result == if sum > 0 {
                Ok::<nat, ParseError>(sum)
            } else {
                Err(ParseError::Zero)
            }
            // A number that is too large, whatever follows it.
            &&& value > u64::MAX ==> result == Err::<nat, ParseError>(ParseError::Overflow)
            // A number at the end.
            &&& digits.len() > 0 && left.len() == 0 && value <= u64::MAX ==> result == Err::<
                nat,
                ParseError,
            >(ParseError::MissingUnit)
            // A unit without a number, or something that is no unit.
            &&& left.len() > 0 && value <= u64::MAX && (digits.len() == 0 || (left[0] != 'h'
                && left[0] != 'm' && left[0] != 's')) ==> result == Err::<nat, ParseError>(
                ParseError::UnexpectedChar(left[0], at),
            )
            &&& left.len() > 0 && digits.len() > 0 && value <= u64::MAX ==> {
                // A unit that was there before.
                &&& left[0] == 'h' && h.len() > 0 || left[0] == 'm' && m.len() > 0 || left[0] == 's'
                    && sec.len() > 0 ==> result == Err::<nat, ParseError>(
                    ParseError::DuplicateUnit(left[0]),
                )
                // A unit behind a smaller one.
                &&& left[0] == 'h' && h.len() == 0 && (m.len() > 0 || sec.len() > 0) || left[0]
                    == 'm' && m.len() == 0 && sec.len() > 0 ==> result == Err::<nat, ParseError>(
                    ParseError::OutOfOrderUnit(left[0]),
                )
                // A unit in its place, and a sum that is too large.
                &&& left[0] == 'h' && h.len() + m.len() + sec.len() == 0 && 3600 * value > u64::MAX
                    || left[0] == 'm' && m.len() + sec.len() == 0 && sum + 60 * value > u64::MAX
                    || left[0] == 's' && sec.len() == 0 && sum + value > u64::MAX ==> result
                    == Err::<nat, ParseError>(ParseError::Overflow)
            }
        }),
{
    let sum = 3600 * crate::text::number(h) + 60 * crate::text::number(m) + crate::text::number(
        sec,
    );
    if s.len() > 0 {
        let (i, units) = reads_leading_components(s, h, m, sec, digits + left);
        assert(s.subrange(i, s.len() as int) =~= digits + left);
        reads_what_is_left(s, i, units, sum, digits, left);
        if left.len() > 0 && digits.len() > 0 {
            assert(unit_secs('h') == Some(3600nat));
            assert(unit_secs('m') == Some(60nat));
            assert(unit_secs('s') == Some(1nat));
            assert(crate::text::number(digits) * 1 == crate::text::number(digits));
        }
    }
}

/// What follows the components is a run of digits and something else.
proof fn reads_what_is_left(
    s: Seq<char>,
    i: int,
    units: Seq<char>,
    total: nat,
    digits: Seq<char>,
    left: Seq<char>,
)
    requires
        0 <= i <= s.len(),
        s.subrange(i, s.len() as int) == digits + left,
        forall|i: int| 0 <= i < digits.len() ==> '0' <= #[trigger] digits[i] <= '9',
        left.len() > 0 ==> !('0' <= left[0] <= '9'),
    ensures
        i + digits.len() == s.len() - left.len(),
        digits.len() == 0 ==> crate::text::number(digits) == 0,
        components(s, i, units, total) == if digits.len() + left.len() == 0 {
            if total == 0 {
                Err(ParseError::Zero)
            } else {
                Ok::<nat, ParseError>(total)
            }
        } else if crate::text::number(digits) > u64::MAX {
            Err(ParseError::Overflow)
        } else if left.len() == 0 {
            Err(ParseError::MissingUnit)
        } else if digits.len() == 0 || unit_secs(left[0]) is None {
            Err(ParseError::UnexpectedChar(left[0], (s.len() - left.len()) as usize))
        } else if units.contains(left[0]) {
            Err(ParseError::DuplicateUnit(left[0]))
        } else if units.len() > 0 && unit_secs(left[0])->0 > unit_secs(units.last())->0 {
            Err(ParseError::OutOfOrderUnit(left[0]))
        } else if total + crate::text::number(digits) * unit_secs(left[0])->0 > u64::MAX {
            Err(ParseError::Overflow)
        } else {
            components(
                s,
                i + digits.len() + 1,
                units.push(left[0]),
                total + crate::text::number(digits) * unit_secs(left[0])->0,
            )
        },
{
    let rest = s.subrange(i, s.len() as int);
    assert(rest.len() == digits.len() + left.len());
    digits_end_bounds(s, i);
    let end = digits_end(s, i);
    assert(end == i + digits.len()) by {
        if end < i + digits.len() {
            assert(rest[end - i] == s[end]);
            assert(rest[end - i] == digits[end - i]);
        }
        if end > i + digits.len() {
            assert(rest[digits.len() as int] == left[0]);
            assert(crate::text::is_digit(s[i + digits.len()]));
        }
    }
    assert(s.subrange(i, end) =~= digits) by {
        assert forall|k: int| 0 <= k < digits.len() implies s[i + k] == digits[k] by {
            assert(rest[k] == digits[k]);
        }
    }
    assert(left.len() > 0 ==> s[end] == rest[digits.len() as int]);
}

/// The components that a text starts with are read, in order.
proof fn reads_leading_components(
    s: Seq<char>,
    h: Seq<char>,
    m: Seq<char>,
    sec: Seq<char>,
    rest: Seq<char>,
) -> (at: (int, Seq<char>))
    requires
        forall|i: int| 0 <= i < h.len() ==> '0' <= #[trigger] h[i] <= '9',
        forall|i: int| 0 <= i < m.len() ==> '0' <= #[trigger] m[i] <= '9',
        forall|i: int| 0 <= i < sec.len() ==> '0' <= #[trigger] sec[i] <= '9',
        s =~= with_unit(h, 'h') + with_unit(m, 'm') + with_unit(sec, 's') + rest,
        3600 * crate::text::number(h) + 60 * crate::text::number(m) + crate::text::number(sec)
            <= u64::MAX,
    ensures
        at.0 == s.len() - rest.len(),
        0 <= at.0,
        components(s, 0, Seq::empty(), 0) == components(
            s,
            at.0,
            at.1,
            3600 * crate::text::number(h) + 60 * crate::text::number(m) + crate::text::number(sec),
        ),
        at.1.contains('h') <==> h.len() > 0,
        at.1.contains('m') <==> m.len() > 0,
        at.1.contains('s') <==> sec.len() > 0,
        at.1.len() == 0 <==> h.len() + m.len() + sec.len() == 0,
        at.1.len() > 0 ==> at.1.last() == if sec.len() > 0 {
            's'
        } else if m.len() > 0 {
            'm'
        } else {
            'h'
        },
{
    let u0 = Seq::<char>::empty();
    let t0 = 0nat;
    let i1 = with_unit(h, 'h').len() as int;
    let i2 = i1 + with_unit(m, 'm').len();
    let i3 = i2 + with_unit(sec, 's').len();
    let t1 = 3600 * crate::text::number(h);
    let t2 = t1 + 60 * crate::text::number(m);
    let t3 = t2 + crate::text::number(sec);
    let u1 = if h.len() > 0 {
        u0.push('h')
    } else {
        u0
    };
    let u2 = if m.len() > 0 {
        u1.push('m')
    } else {
        u1
    };
    let u3 = if sec.len() > 0 {
        u2.push('s')
    } else {
        u2
    };
    assert(unit_secs('h') == Some(3600nat));
    assert(unit_secs('m') == Some(60nat));
    assert(unit_secs('s') == Some(1nat));
    assert(crate::text::number(sec) * 1 == crate::text::number(sec));
    if h.len() > 0 {
        assert(s.subrange(0, h.len() as int) =~= h);
        reads_component(s, 0, h, 'h', u0, t0);
    }
    if m.len() > 0 {
        assert(s.subrange(i1, i1 + m.len()) =~= m);
        assert(!u1.contains('m'));
        reads_component(s, i1, m, 'm', u1, t1);
    }
    if sec.len() > 0 {
        assert(s.subrange(i2, i2 + sec.len()) =~= sec);
        assert(!u2.contains('s'));
        reads_component(s, i2, sec, 's', u2, t2);
    }
    assert(h.len() > 0 ==> u3[0] == 'h');
    assert(m.len() > 0 ==> u3[u1.len() as int] == 'm');
    assert(sec.len() > 0 ==> u3[u2.len() as int] == 's');
    (i3, u3)
}

/// A number and its unit, or nothing where there is no number.
spec fn with_unit(digits: Seq<char>, unit: char) -> Seq<char> {
    if digits.len() > 0 {
        digits.push(unit)
    } else {
        Seq::empty()
    }
}

/// The wording of an error names what is wrong: the character in quotes, and
/// its position as a number.
pub proof fn errors_name_the_problem(c: char, at: usize, digits: Seq<char>)
    requires
        crate::text::is_numeral(digits, at as nat),
    ensures
        ParseError::UnexpectedChar(c, at).text() == "unexpected character "@ + crate::text::quoted(
            c,
        ) + " at position "@ + digits,
        ParseError::DuplicateUnit(c).text() == "unit "@ + crate::text::quoted(c)
            + " appears twice"@,
        ParseError::OutOfOrderUnit(c).text() == "unit "@ + crate::text::quoted(c)
            + " appears after smaller unit (must be ordered h, m, s)"@,
        32 <= c as int <= 126 && c != '\'' && c != '\\' ==> crate::text::quoted(c) == seq![
            '\'',
            c,
            '\'',
        ],
        !(32 <= c as int <= 126 && c != '\'' && c != '\\') ==> crate::text::quoted(c)
            == crate::text::debug_char(c),
        ParseError::Empty.text() == "empty duration string"@,
        ParseError::MissingUnit.text() == "missing unit suffix after number"@,
        ParseError::Overflow.text() == "number overflow"@,
        ParseError::Zero.text() == "duration must be greater than zero"@,
{
    crate::text::numerals_are_unique(digits, at as nat);
}

} // verus!
