//! Character and string helpers shared by the validators and by the text
//! that the server writes itself.

use vstd::prelude::*;

verus! {

/// Whether `c` is whitespace in the sense of `char::is_whitespace`.
pub uninterp spec fn is_whitespace_char(c: char) -> bool;

/// `char::is_whitespace` of the standard library. Its result depends on the
/// character alone (the Unicode `White_Space` property); the contract only
/// gives that result a name.
pub assume_specification[ char::is_whitespace ](c: char) -> (r: bool)
    ensures
        r == is_whitespace_char(c),
;

/// `String::push` of the standard library: appends one character to the end
/// of the string.
pub assume_specification[ std::string::String::push ](s: &mut std::string::String, c: char)
    ensures
        final(s)@ == old(s)@.push(c),
;

/// Every character of `s` is whitespace. True of the empty text.
pub open spec fn all_whitespace(s: Seq<char>) -> bool {
    forall|i: int| 0 <= i < s.len() ==> is_whitespace_char(#[trigger] s[i])
}

/// One of the four blanks that a username may be forbidden to hold.
pub open spec fn is_blank(c: char) -> bool {
    c == ' ' || c == '\n' || c == '\t' || c == '\r'
}

/// Some character of `s` is a blank.
pub open spec fn has_blank(s: Seq<char>) -> bool {
    exists|i: int| 0 <= i < s.len() && is_blank(#[trigger] s[i])
}

/// The decimal digit for `d`, which is below ten.
pub open spec fn digit(d: nat) -> char {
    if d == 0 {
        '0'
    } else if d == 1 {
        '1'
    } else if d == 2 {
        '2'
    } else if d == 3 {
        '3'
    } else if d == 4 {
        '4'
    } else if d == 5 {
        '5'
    } else if d == 6 {
        '6'
    } else if d == 7 {
        '7'
    } else if d == 8 {
        '8'
    } else {
        '9'
    }
}

/// `n` in decimal, most significant digit first, without leading zeros.
pub open spec fn decimal(n: nat) -> Seq<char>
    decreases n,
{
    if n < 10 {
        seq![digit(n)]
    } else {
        decimal(n / 10).push(digit(n % 10))
    }
}

/// `i` in decimal, with a leading minus sign when it is negative.
pub open spec fn signed_decimal(i: int) -> Seq<char> {
    if i < 0 {
        seq!['-'] + decimal((-i) as nat)
    } else {
        decimal(i as nat)
    }
}

proof fn lemma_all_whitespace_step(s: Seq<char>, n: int)
    requires
        0 <= n < s.len(),
    ensures
        all_whitespace(s.take(n + 1)) == (all_whitespace(s.take(n)) && is_whitespace_char(s[n])),
{
    let shorter = s.take(n);
    let longer = s.take(n + 1);
    if all_whitespace(shorter) && is_whitespace_char(s[n]) {
        assert forall|i: int| 0 <= i < longer.len() implies is_whitespace_char(
            #[trigger] longer[i],
        ) by {
            if i < n {
                assert(longer[i] == shorter[i]);
            }
        }
    }
    if all_whitespace(longer) {
        assert(is_whitespace_char(longer[n]));
        assert forall|i: int| 0 <= i < shorter.len() implies is_whitespace_char(
            #[trigger] shorter[i],
        ) by {
            assert(longer[i] == shorter[i]);
        }
    }
}

proof fn lemma_has_blank_step(s: Seq<char>, n: int)
    requires
        0 <= n < s.len(),
    ensures
        has_blank(s.take(n + 1)) == (has_blank(s.take(n)) || is_blank(s[n])),
{
    let shorter = s.take(n);
    let longer = s.take(n + 1);
    if has_blank(shorter) {
        let i = choose|i: int| 0 <= i < shorter.len() && is_blank(#[trigger] shorter[i]);
        assert(is_blank(longer[i]));
    }
    if is_blank(s[n]) {
        assert(is_blank(longer[n]));
    }
    if has_blank(longer) {
        let i = choose|i: int| 0 <= i < longer.len() && is_blank(#[trigger] longer[i]);
        if i < n {
            assert(is_blank(shorter[i]));
        }
    }
}

/// Whether every character of `s` is whitespace.
pub fn is_all_whitespace(s: &str) -> (r: bool)
    ensures
        r == all_whitespace(s@),
{
    let mut all: bool = true;
    for c in it: s.chars()
        invariant
            it.seq() == s@,
            all == all_whitespace(s@.take(it.index())),
    {
        proof {
            lemma_all_whitespace_step(s@, it.index());
        }
        all = all && c.is_whitespace();
    }
    proof {
        assert(s@.take(s@.len() as int) == s@);
    }
    all
}

/// Whether `s` holds a space, a line feed, a tab or a carriage return.
pub fn contains_blank(s: &str) -> (r: bool)
    ensures
        r == has_blank(s@),
{
    let mut found: bool = false;
    for c in it: s.chars()
        invariant
            it.seq() == s@,
            found == has_blank(s@.take(it.index())),
    {
        proof {
            lemma_has_blank_step(s@, it.index());
        }
        found = found || c == ' ' || c == '\n' || c == '\t' || c == '\r';
    }
    proof {
        assert(s@.take(s@.len() as int) == s@);
    }
    found
}

/// The first character of `s`, if it has one.
pub fn first_char(s: &str) -> (r: Option<char>)
    ensures
        r == (if s@.len() == 0 {
            None
        } else {
            Some(s@[0])
        }),
{
    if s.unicode_len() == 0 {
        None
    } else {
        Some(s.get_char(0))
    }
}

/// The last character of `s`, if it has one.
pub fn last_char(s: &str) -> (r: Option<char>)
    ensures
        r == (if s@.len() == 0 {
            None
        } else {
            Some(s@.last())
        }),
{
    let n: usize = s.unicode_len();
    if n == 0 {
        None
    } else {
        Some(s.get_char(n - 1))
    }
}

fn digit_of(d: u64) -> (c: char)
    requires
        d < 10,
    ensures
        c == digit(d as nat),
{
    if d == 0 {
        '0'
    } else if d == 1 {
        '1'
    } else if d == 2 {
        '2'
    } else if d == 3 {
        '3'
    } else if d == 4 {
        '4'
    } else if d == 5 {
        '5'
    } else if d == 6 {
        '6'
    } else if d == 7 {
        '7'
    } else if d == 8 {
        '8'
    } else {
        '9'
    }
}

/// Appends `n` in decimal to `out`.
pub fn push_decimal(out: &mut String, n: u64)
    ensures
        final(out)@ == old(out)@ + decimal(n as nat),
    decreases n,
{
    if n >= 10 {
        push_decimal(out, n / 10);
    }
    out.push(digit_of(n % 10));
    proof {
        if n >= 10 {
            assert(old(out)@ + decimal(n as nat) == (old(out)@ + decimal((n / 10) as nat)).push(
                digit((n % 10) as nat),
            ));
        } else {
            assert(old(out)@ + decimal(n as nat) == old(out)@.push(digit(n as nat)));
        }
    }
}

/// Appends `i` in decimal to `out`, with a minus sign when it is negative.
pub fn push_signed_decimal(out: &mut String, i: i64)
    ensures
        final(out)@ == old(out)@ + signed_decimal(i as int),
{
    if i < 0 {
        out.push('-');
        let magnitude: u64 = (-(i as i128)) as u64;
        push_decimal(out, magnitude);
        proof {
            assert(old(out)@ + signed_decimal(i as int) == old(out)@.push('-') + decimal(
                magnitude as nat,
            ));
        }
    } else {
        push_decimal(out, i as u64);
    }
}

/// Appends the text `s` to `out`.
pub fn push_text(out: &mut String, s: &str)
    ensures
        final(out)@ == old(out)@ + s@,
{
    out.append(s);
}

} // verus!
