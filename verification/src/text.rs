//! Small verified helpers over text.
//!
//! Strings are reasoned about through their view, a `Seq<char>`. The helpers
//! here give the few operations the rest of the crate needs an exact meaning
//! over that view.

use vstd::prelude::*;

verus! {

/// Appends one character to a string.
///
/// Trusted: the body is `String::push` of the standard library, which is
/// documented to append the given character to the end of the string.
#[verifier::external_body]
pub(crate) fn push_char(s: &mut String, c: char)
    ensures
        final(s)@ == old(s)@.push(c),
{
    s.push(c)
}

/// The characters of `s`, in order.
pub fn chars_of(s: &str) -> (v: Vec<char>)
    ensures
        v@ == s@,
{
    let mut v: Vec<char> = Vec::new();
    for c in it: s.chars()
        invariant
            it.seq() == s@,
            v@ == it.seq().take(it.index() as int),
    {
        v.push(c);
    }
    v
}

/// The string made of the characters `chars[from..to]`.
pub fn string_of(chars: &Vec<char>, from: usize, to: usize) -> (s: String)
    requires
        from <= to <= chars@.len(),
    ensures
        s@ == chars@.subrange(from as int, to as int),
{
    let mut s = String::new();
    let mut i: usize = from;
    while i < to
        invariant
            from <= i <= to <= chars@.len(),
            s@ == chars@.subrange(from as int, i as int),
        decreases to - i,
    {
        push_char(&mut s, chars[i]);
        i += 1;
    }
    s
}

/// Whether two strings hold the same characters.
pub fn str_eq(a: &str, b: &str) -> (r: bool)
    ensures
        r == (a@ == b@),
{
    let x = String::from_str(a);
    let y = String::from_str(b);
    x == y
}

/// A copy of `s`.
pub fn copy_str(s: &str) -> (r: String)
    ensures
        r@ == s@,
{
    String::from_str(s)
}

/// Whether `pat` occurs in `s` at position `at`.
pub open spec fn occurs_at(s: Seq<char>, pat: Seq<char>, at: int) -> bool {
    &&& 0 <= at
    &&& at + pat.len() <= s.len()
    &&& s.subrange(at, at + pat.len()) == pat
}

/// Decides `occurs_at` on character vectors.
pub fn matches_at(s: &Vec<char>, pat: &Vec<char>, at: usize) -> (r: bool)
    ensures
        r == occurs_at(s@, pat@, at as int),
{
    if at > s.len() || pat.len() > s.len() - at {
        return false;
    }
    let mut j: usize = 0;
    while j < pat.len()
        invariant
            at + pat@.len() <= s@.len() <= usize::MAX,
            j <= pat@.len(),
            s@.subrange(at as int, at + j) == pat@.subrange(0, j as int),
        decreases pat@.len() - j,
    {
        if s[at + j] != pat[j] {
            proof {
                let whole = s@.subrange(at as int, at + pat@.len());
                assert(whole[j as int] == s@[at + j]);
            }
            return false;
        }
        proof {
            assert(s@.subrange(at as int, at + j + 1) == s@.subrange(at as int, at + j).push(
                s@[at + j],
            ));
            assert(pat@.subrange(0, j + 1) == pat@.subrange(0, j as int).push(pat@[j as int]));
        }
        j += 1;
    }
    proof {
        assert(pat@.subrange(0, pat@.len() as int) == pat@);
    }
    true
}

/// Whether `s` begins with `prefix`.
pub fn starts_with(s: &str, prefix: &str) -> (r: bool)
    ensures
        r == prefix@.is_prefix_of(s@),
{
    let sv = chars_of(s);
    let pv = chars_of(prefix);
    matches_at(&sv, &pv, 0)
}

/// Whether `s` ends with `suffix`.
pub fn ends_with(s: &str, suffix: &str) -> (r: bool)
    ensures
        r == suffix@.is_suffix_of(s@),
{
    let sv = chars_of(s);
    let pv = chars_of(suffix);
    if pv.len() > sv.len() {
        return false;
    }
    matches_at(&sv, &pv, sv.len() - pv.len())
}

/// `s` without its leading `prefix`, or `None` where `s` does not begin with it.
pub fn strip_prefix(s: &str, prefix: &str) -> (r: Option<String>)
    ensures
        match r {
            Some(rest) => prefix@.is_prefix_of(s@) && rest@ == s@.skip(prefix@.len() as int),
            None => !prefix@.is_prefix_of(s@),
        },
{
    let sv = chars_of(s);
    let pv = chars_of(prefix);
    if matches_at(&sv, &pv, 0) {
        Some(string_of(&sv, pv.len(), sv.len()))
    } else {
        None
    }
}

/// `s` with `to` before each of its characters and after the last.
pub open spec fn spec_interleave(s: Seq<char>, to: Seq<char>) -> Seq<char>
    decreases s.len(),
{
    if s.len() == 0 {
        to
    } else {
        to + seq![s[0]] + spec_interleave(s.skip(1), to)
    }
}

/// `s` with every occurrence of `from` replaced by `to`, scanning from the
/// left and never matching inside an earlier match. The empty pattern
/// occurs before each character and after the last.
pub open spec fn spec_replace(s: Seq<char>, from: Seq<char>, to: Seq<char>) -> Seq<char>
    decreases s.len(),
{
    if from.len() == 0 {
        spec_interleave(s, to)
    } else if s.len() < from.len() {
        s
    } else if occurs_at(s, from, 0) {
        to + spec_replace(s.skip(from.len() as int), from, to)
    } else {
        seq![s[0]] + spec_replace(s.skip(1), from, to)
    }
}

/// Puts `to` before each character of `s` and after the last.
fn interleave(sv: &Vec<char>, to: &str) -> (r: String)
    ensures
        r@ == spec_interleave(sv@, to@),
{
    let mut out = String::new();
    let mut i: usize = 0;
    proof {
        assert(sv@.skip(0) == sv@);
        assert(out@ + spec_interleave(sv@, to@) == spec_interleave(sv@, to@));
    }
    while i < sv.len()
        invariant
            i <= sv@.len(),
            out@ + spec_interleave(sv@.skip(i as int), to@) == spec_interleave(sv@, to@),
        decreases sv@.len() - i,
    {
        let ghost before = out@;
        let ghost rest = sv@.skip(i as int);
        out.append(to);
        push_char(&mut out, sv[i]);
        i += 1;
        proof {
            assert(rest.skip(1) == sv@.skip(i as int));
            assert(rest[0] == sv@[i - 1]);
            let after = spec_interleave(sv@.skip(i as int), to@);
            assert((before + to@).push(rest[0]) + after == before + (to@ + seq![rest[0]] + after));
        }
    }
    let ghost before = out@;
    out.append(to);
    proof {
        assert(sv@.skip(sv@.len() as int).len() == 0);
        assert(spec_interleave(sv@.skip(sv@.len() as int), to@) == to@);
    }
    out
}

/// Replaces every occurrence of the pattern `from` in `s` by `to`.
pub fn replace(s: &str, from: &str, to: &str) -> (r: String)
    ensures
        r@ == spec_replace(s@, from@, to@),
{
    let sv = chars_of(s);
    let fv = chars_of(from);
    if fv.len() == 0 {
        return interleave(&sv, to);
    }
    let mut out = String::new();
    let mut i: usize = 0;
    proof {
        assert(sv@.skip(0) == sv@);
        assert(out@ + spec_replace(sv@, fv@, to@) == spec_replace(sv@, fv@, to@));
    }
    while i < sv.len()
        invariant
            i <= sv@.len(),
            fv@ == from@,
            fv@.len() > 0,
            out@ + spec_replace(sv@.skip(i as int), fv@, to@) == spec_replace(sv@, fv@, to@),
        decreases sv@.len() - i,
    {
        let ghost rest = sv@.skip(i as int);
        let ghost before = out@;
        if matches_at(&sv, &fv, i) {
            proof {
                assert(rest.subrange(0, fv@.len() as int) == sv@.subrange(
                    i as int,
                    i + fv@.len(),
                ));
                assert(rest.skip(fv@.len() as int) == sv@.skip(i + fv@.len()));
            }
            out.append(to);
            i += fv.len();
            proof {
                let after = spec_replace(sv@.skip(i as int), fv@, to@);
                assert((before + to@) + after == before + (to@ + after));
            }
        } else {
            proof {
                if rest.len() >= fv@.len() {
                    assert(rest.subrange(0, fv@.len() as int) == sv@.subrange(
                        i as int,
                        i + fv@.len(),
                    ));
                }
                assert(rest.skip(1) == sv@.skip(i + 1));
                assert(rest[0] == sv@[i as int]);
            }
            if sv.len() - i < fv.len() {
                let tail = string_of(&sv, i, sv.len());
                proof {
                    assert(sv@.subrange(i as int, sv@.len() as int) == rest);
                    assert(sv@.skip(sv@.len() as int).len() == 0);
                }
                out.append(tail.as_str());
                i = sv.len();
                proof {
                    assert(spec_replace(sv@.skip(i as int), fv@, to@).len() == 0);
                    assert(out@ + spec_replace(sv@.skip(i as int), fv@, to@) == before + rest);
                }
            } else {
                push_char(&mut out, sv[i]);
                i += 1;
                proof {
                    let after = spec_replace(sv@.skip(i as int), fv@, to@);
                    assert(before.push(rest[0]) + after == before + (seq![rest[0]] + after));
                }
            }
        }
    }
    proof {
        assert(sv@.skip(sv@.len() as int).len() == 0);
    }
    out
}

/// The character of a decimal digit.
pub open spec fn digit_char(d: int) -> char
    recommends
        0 <= d < 10,
{
    ((48 + d) as u8) as char
}

/// The decimal digits of a natural number, most significant first, without
/// leading zeros.
pub open spec fn decimal_nat(n: nat) -> Seq<char>
    decreases n,
{
    if n < 10 {
        seq![digit_char(n as int)]
    } else {
        decimal_nat(n / 10).push(digit_char((n % 10) as int))
    }
}

/// The decimal form of an integer: a minus sign for a negative one, then
/// the digits of its magnitude.
pub open spec fn decimal(n: int) -> Seq<char> {
    if n < 0 {
        seq!['-'] + decimal_nat((-n) as nat)
    } else {
        decimal_nat(n as nat)
    }
}

/// Appends the decimal digits of `n` to `s`.
pub fn push_decimal(s: &mut String, n: u64)
    ensures
        final(s)@ == old(s)@ + decimal_nat(n as nat),
    decreases n,
{
    if n >= 10 {
        push_decimal(s, n / 10);
    }
    let d: u8 = (n % 10) as u8;
    push_char(s, (48 + d) as char);
}

/// The decimal form of `n`.
pub fn decimal_of(n: i64) -> (r: String)
    ensures
        r@ == decimal(n as int),
{
    let mut r = String::new();
    if n < 0 {
        push_char(&mut r, '-');
        let m: u64 = if n == i64::MIN {
            9223372036854775808u64
        } else {
            (-n) as u64
        };
        push_decimal(&mut r, m);
    } else {
        push_decimal(&mut r, n as u64);
    }
    r
}

/// The texts of a list of strings.
pub open spec fn strings_view(s: Seq<String>) -> Seq<Seq<char>> {
    Seq::new(s.len(), |i: int| s[i]@)
}

} // verus!
