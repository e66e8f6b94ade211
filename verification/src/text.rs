//! Verified text utilities: decimal rendering and parsing of integers,
//! and path joining over plain strings.

use vstd::prelude::*;

verus! {

/// Relies on `String::push`: appends one character at the end of the string.
#[verifier::external_body]
pub(crate) fn push_char(s: &mut String, c: char)
    ensures
        final(s)@ == old(s)@.push(c),
{
    s.push(c)
}

/// The decimal digit character for a value below ten.
pub open spec fn digit_char(d: int) -> char {
    if d == 0 {
        '0'
    } else if d == 1 {
        '1'
    } else if d == 2 {
        '2'
    } else if d == 3 {
        '3'
    } else if d == 4 {
        '4'
    } else if d == 5 {
        '5'
    } else if d == 6 {
        '6'
    } else if d == 7 {
        '7'
    } else if d == 8 {
        '8'
    } else {
        '9'
    }
}

/// The decimal representation of a natural number, without sign or
/// leading zeros (zero itself is "0").
pub open spec fn dec_rep(n: nat) -> Seq<char>
    decreases n,
{
    if n < 10 {
        seq![digit_char(n as int)]
    } else {
        dec_rep(n / 10).push(digit_char((n % 10) as int))
    }
}

fn push_digit(s: &mut String, d: u64)
    requires
        d < 10,
    ensures
        final(s)@ == old(s)@.push(digit_char(d as int)),
{
    if d == 0 {
        push_char(s, '0');
    } else if d == 1 {
        push_char(s, '1');
    } else if d == 2 {
        push_char(s, '2');
    } else if d == 3 {
        push_char(s, '3');
    } else if d == 4 {
        push_char(s, '4');
    } else if d == 5 {
        push_char(s, '5');
    } else if d == 6 {
        push_char(s, '6');
    } else if d == 7 {
        push_char(s, '7');
    } else if d == 8 {
        push_char(s, '8');
    } else {
        push_char(s, '9');
    }
}

fn append_dec(s: &mut String, n: u64)
    ensures
        final(s)@ == old(s)@ + dec_rep(n as nat),
    decreases n,
{
    if n >= 10 {
        append_dec(s, n / 10);
    }
    push_digit(s, n % 10);
    proof {
        if n < 10 {
            assert(dec_rep(n as nat) =~= seq![digit_char(n as int)]);
            assert(final(s)@ =~= old(s)@ + dec_rep(n as nat));
        } else {
            assert(final(s)@ =~= old(s)@ + dec_rep(n as nat));
        }
    }
}

/// Renders an unsigned integer in decimal.
pub fn u64_to_string(n: u64) -> (s: String)
    ensures
        s@ == dec_rep(n as nat),
{
    let mut s = String::new();
    append_dec(&mut s, n);
    proof {
        assert(s@ =~= dec_rep(n as nat));
    }
    s
}

/// The decimal representation of a signed integer: a minus sign for
/// negative values, then the digits of the magnitude.
pub open spec fn dec_rep_signed(n: int) -> Seq<char> {
    if n < 0 {
        seq!['-'] + dec_rep((-n) as nat)
    } else {
        dec_rep(n as nat)
    }
}

/// Renders a signed integer in decimal.
pub fn i32_to_string(n: i32) -> (s: String)
    ensures
        s@ == dec_rep_signed(n as int),
{
    let mut s = String::new();
    if n < 0 {
        push_char(&mut s, '-');
        let magnitude: u64 = (-(n as i64)) as u64;
        append_dec(&mut s, magnitude);
        proof {
            assert(s@ =~= dec_rep_signed(n as int));
        }
    } else {
        append_dec(&mut s, n as u64);
        proof {
            assert(s@ =~= dec_rep_signed(n as int));
        }
    }
    s
}

/// Whether a character is a decimal digit.
pub open spec fn is_digit_char(c: char) -> bool {
    48 <= c as u32 <= 57
}

/// The value of a decimal digit character.
pub open spec fn digit_val(c: char) -> int {
    c as u32 - 48
}

/// Whether a sequence consists of decimal digits only, and is not empty.
pub open spec fn all_digits(t: Seq<char>) -> bool {
    t.len() > 0 && forall|i: int| 0 <= i < t.len() ==> is_digit_char(#[trigger] t[i])
}

/// The value of a sequence of decimal digit characters.
pub open spec fn dec_val(t: Seq<char>) -> int
    decreases t.len(),
{
    if t.len() == 0 {
        0
    } else {
        dec_val(t.drop_last()) * 10 + digit_val(t.last())
    }
}

/// A digit string's value is never negative.
proof fn lemma_dec_val_nonneg(t: Seq<char>)
    requires
        forall|j: int| 0 <= j < t.len() ==> is_digit_char(#[trigger] t[j]),
    ensures
        dec_val(t) >= 0,
    decreases t.len(),
{
    if t.len() > 0 {
        lemma_dec_val_nonneg(t.drop_last());
    }
}

/// The digits of a number string, with an optional leading plus sign
/// stripped.
pub open spec fn sign_stripped(t: Seq<char>) -> Seq<char> {
    if t.len() > 0 && t[0] == '+' {
        t.subrange(1, t.len() as int)
    } else {
        t
    }
}

/// What `str::parse::<u16>` accepts: an optional leading plus sign,
/// then decimal digits whose value fits in sixteen bits.
pub open spec fn parse_u16_spec(t: Seq<char>) -> Option<u16> {
    if all_digits(sign_stripped(t)) && dec_val(sign_stripped(t)) <= 65535 {
        Some(dec_val(sign_stripped(t)) as u16)
    } else {
        None
    }
}

/// Parses a decimal unsigned sixteen-bit integer, as `str::parse::<u16>`
/// does: an optional leading plus sign, then at least one digit, no
/// other characters, value at most 65535.
pub fn parse_u16(chars: &Vec<char>) -> (r: Option<u16>)
    ensures
        r == parse_u16_spec(chars@),
{
    let ghost body: Seq<char> = sign_stripped(chars@);
    let start: usize = if chars.len() > 0 && chars[0] == '+' {
        1
    } else {
        0
    };
    proof {
        assert(body =~= chars@.subrange(start as int, chars@.len() as int));
    }
    if chars.len() == start {
        return None;
    }
    let mut i: usize = start;
    let mut value: u32 = 0;
    let mut over: bool = false;
    while i < chars.len()
        invariant
            start <= i <= chars.len(),
            body == sign_stripped(chars@),
            body =~= chars@.subrange(start as int, chars@.len() as int),
            forall|j: int| start <= j < i ==> is_digit_char(#[trigger] chars@[j]),
            !over ==> value == dec_val(chars@.subrange(start as int, i as int)) && value <= 65535,
            over ==> forall|j: int|
                i <= j <= chars@.len() && (forall|k: int|
                    start <= k < j ==> is_digit_char(#[trigger] chars@[k])) ==> dec_val(
                    #[trigger] chars@.subrange(start as int, j),
                ) > 65535,
        decreases chars.len() - i,
    {
        let c = chars[i];
        let code = c as u32;
        if code < 48 || code > 57 {
            proof {
                assert(body[i - start] == chars@[i as int]);
                assert(!all_digits(body));
            }
            return None;
        }
        proof {
            assert(chars@.subrange(start as int, i + 1 as int).drop_last() =~= chars@.subrange(
                start as int,
                i as int,
            ));
        }
        if !over {
            let d = code - 48;
            if value > 6553 || (value == 6553 && d > 5) {
                proof {
                    lemma_over_stays(chars@, start as int, i as int);
                }
                over = true;
            } else {
                value = value * 10 + d;
            }
        }
        i += 1;
    }
    proof {
        assert(chars@.subrange(start as int, chars@.len() as int) =~= body);
        assert(forall|k: int| 0 <= k < body.len() ==> body[k] == chars@[start + k]);
    }
    if over {
        None
    } else {
        Some(value as u16)
    }
}

/// Once a digit prefix exceeds the bound, every longer digit prefix does.
proof fn lemma_over_stays(s: Seq<char>, start: int, i: int)
    requires
        0 <= start <= i < s.len(),
        forall|j: int| start <= j <= i ==> is_digit_char(#[trigger] s[j]),
        dec_val(s.subrange(start, i)) * 10 + digit_val(s[i]) > 65535,
    ensures
        forall|j: int| i + 1 <= j <= s.len() && (forall|k: int|
            start <= k < j ==> is_digit_char(#[trigger] s[k])) ==> dec_val(
            #[trigger] s.subrange(start, j),
        ) > 65535,
{
    assert forall|j: int|
        i + 1 <= j <= s.len() && (forall|k: int|
            start <= k < j ==> is_digit_char(#[trigger] s[k])) implies dec_val(
        #[trigger] s.subrange(start, j),
    ) > 65535 by {
        lemma_dec_val_grows(s, start, i + 1, j);
        assert(s.subrange(start, i + 1).drop_last() =~= s.subrange(start, i));
        assert(s.subrange(start, i + 1).last() == s[i]);
    }
}

/// A digit string's value is at least the value of any of its prefixes.
proof fn lemma_dec_val_grows(s: Seq<char>, start: int, i: int, j: int)
    requires
        0 <= start <= i <= j <= s.len(),
        forall|k: int| start <= k < j ==> is_digit_char(#[trigger] s[k]),
    ensures
        dec_val(s.subrange(start, j)) >= dec_val(s.subrange(start, i)),
    decreases j - i,
{
    if i < j {
        lemma_dec_val_grows(s, start, i + 1, j);
        assert(s.subrange(start, i + 1).drop_last() =~= s.subrange(start, i));
        assert(forall|k: int|
            0 <= k < s.subrange(start, i).len() ==> is_digit_char(
                #[trigger] s.subrange(start, i)[k],
            ));
        lemma_dec_val_nonneg(s.subrange(start, i));
    }
}

/// The path obtained by appending one component to a base path, with a
/// forward slash between them (accepted as a separator on every
/// platform this orchestrator targets).
pub open spec fn joined_path(base: Seq<char>, component: Seq<char>) -> Seq<char> {
    base + seq!['/'] + component
}

/// Joins a path component onto a base path.
pub fn path_join(base: &str, component: &str) -> (r: String)
    ensures
        r@ == joined_path(base@, component@),
{
    let mut s = base.to_owned();
    push_char(&mut s, '/');
    let r = s.concat(component);
    proof {
        assert(r@ =~= joined_path(base@, component@));
    }
    r
}

} // verus!
