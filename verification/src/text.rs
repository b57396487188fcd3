//! Text building blocks for the exposition format: decimal rendering of
//! integers, rendering of nanosecond counts as seconds, and escaping of
//! label values.

use vstd::prelude::*;
use vstd::string::StrSliceExecFns;
use vstd::string::StringExecFns;

verus! {

/// Nanoseconds in one second; durations are carried as integer nanoseconds.
pub const NANOS_PER_SECOND: u64 = 1_000_000_000;

/// The single decimal digit character for `d` (low digit of `d`).
pub open spec fn digit_text(d: nat) -> Seq<char> {
    if d % 10 == 0 {
        "0"@
    } else if d % 10 == 1 {
        "1"@
    } else if d % 10 == 2 {
        "2"@
    } else if d % 10 == 3 {
        "3"@
    } else if d % 10 == 4 {
        "4"@
    } else if d % 10 == 5 {
        "5"@
    } else if d % 10 == 6 {
        "6"@
    } else if d % 10 == 7 {
        "7"@
    } else if d % 10 == 8 {
        "8"@
    } else {
        "9"@
    }
}

/// Decimal digits of `n`, most significant first, no leading zeros
/// (a single "0" for zero).
pub open spec fn dec_text(n: nat) -> Seq<char>
    decreases n,
{
    if n < 10 {
        digit_text(n)
    } else {
        dec_text(n / 10) + digit_text(n % 10)
    }
}

/// The low `k` decimal digits of `f`, zero-padded to width `k`.
pub open spec fn padded_text(f: nat, k: nat) -> Seq<char>
    decreases k,
{
    if k == 0 {
        Seq::<char>::empty()
    } else {
        padded_text(f / 10, (k - 1) as nat) + digit_text(f % 10)
    }
}

/// A fractional part of width `k` with its trailing zeros removed;
/// empty when `f` is zero.
pub open spec fn frac_text(f: nat, k: nat) -> Seq<char>
    decreases k,
{
    if k == 0 {
        Seq::<char>::empty()
    } else if f % 10 == 0 {
        frac_text(f / 10, (k - 1) as nat)
    } else {
        padded_text(f, k)
    }
}

/// A nanosecond count rendered as seconds: the integer part in decimal,
/// then, when the fractional part is not zero, a point and the fraction
/// with trailing zeros removed (2_000_000 renders as "0.002").
pub open spec fn seconds_text(nanos: nat) -> Seq<char> {
    if nanos % (NANOS_PER_SECOND as nat) == 0 {
        dec_text(nanos / (NANOS_PER_SECOND as nat))
    } else {
        dec_text(nanos / (NANOS_PER_SECOND as nat)) + "."@ + frac_text(
            nanos % (NANOS_PER_SECOND as nat),
            9,
        )
    }
}

/// How one character appears inside a quoted label value: backslash,
/// double quote and line feed get a backslash escape, all else is itself.
pub open spec fn escape_char(c: char) -> Seq<char> {
    if c == '\\' {
        "\\\\"@
    } else if c == '"' {
        "\\\""@
    } else if c == '\n' {
        "\\n"@
    } else {
        seq![c]
    }
}

/// A whole label value escaped character by character.
pub open spec fn escaped(s: Seq<char>) -> Seq<char>
    decreases s.len(),
{
    if s.len() == 0 {
        Seq::<char>::empty()
    } else {
        escaped(s.drop_last()) + escape_char(s.last())
    }
}

/// Appends the single digit `d` to `out`.
fn append_digit(out: &mut String, d: u64)
    requires
        d < 10,
    ensures
        final(out)@ == old(out)@ + digit_text(d as nat),
{
    match d {
        0 => out.append("0"),
        1 => out.append("1"),
        2 => out.append("2"),
        3 => out.append("3"),
        4 => out.append("4"),
        5 => out.append("5"),
        6 => out.append("6"),
        7 => out.append("7"),
        8 => out.append("8"),
        _ => out.append("9"),
    }
}

/// Appends the decimal rendering of `n` to `out`.
pub fn append_u64(out: &mut String, n: u64)
    ensures
        final(out)@ == old(out)@ + dec_text(n as nat),
    decreases n,
{
    if n < 10 {
        append_digit(out, n);
    } else {
        append_u64(out, n / 10);
        append_digit(out, n % 10);
    }
}

/// Appends the low `k` digits of `f`, zero-padded, to `out`.
fn append_padded(out: &mut String, f: u64, k: u64)
    ensures
        final(out)@ == old(out)@ + padded_text(f as nat, k as nat),
    decreases k,
{
    if k == 0 {
        proof {
            assert(old(out)@ + Seq::<char>::empty() =~= old(out)@);
        }
    } else {
        append_padded(out, f / 10, k - 1);
        append_digit(out, f % 10);
    }
}

/// Appends a fractional part of width `k` with trailing zeros removed.
fn append_frac(out: &mut String, f: u64, k: u64)
    ensures
        final(out)@ == old(out)@ + frac_text(f as nat, k as nat),
    decreases k,
{
    if k == 0 {
        proof {
            assert(old(out)@ + Seq::<char>::empty() =~= old(out)@);
        }
    } else if f % 10 == 0 {
        append_frac(out, f / 10, k - 1);
    } else {
        append_padded(out, f, k);
    }
}

/// Appends the seconds rendering of a nanosecond count to `out`.
pub fn append_seconds(out: &mut String, nanos: u64)
    ensures
        final(out)@ == old(out)@ + seconds_text(nanos as nat),
{
    append_u64(out, nanos / NANOS_PER_SECOND);
    let f: u64 = nanos % NANOS_PER_SECOND;
    if f != 0 {
        out.append(".");
        append_frac(out, f, 9);
    }
}

/// Appends the escaped form of the label value `s` to `out`.
pub fn append_escaped(out: &mut String, s: &str)
    ensures
        final(out)@ == old(out)@ + escaped(s@),
{
    let n = s.unicode_len();
    let mut i: usize = 0;
    proof {
        assert(s@.take(0) =~= Seq::<char>::empty());
        assert(out@ + escaped(s@.take(0)) =~= out@);
    }
    while i < n
        invariant
            i <= n,
            n == s@.len(),
            out@ == old(out)@ + escaped(s@.take(i as int)),
        decreases n - i,
    {
        let c = s.get_char(i);
        proof {
            assert(s@.take(i as int + 1).drop_last() =~= s@.take(i as int));
            assert(s@.take(i as int + 1).last() == s@[i as int]);
        }
        if c == '\\' {
            out.append("\\\\");
        } else if c == '"' {
            out.append("\\\"");
        } else if c == '\n' {
            out.append("\\n");
        } else {
            let piece = s.substring_char(i, i + 1);
            proof {
                assert(s@.subrange(i as int, i as int + 1) =~= seq![s@[i as int]]);
            }
            out.append(piece);
        }
        i += 1;
    }
    proof {
        assert(s@.take(n as int) =~= s@);
    }
}

/// Character-for-character equality of two string slices.
pub fn str_eq(a: &str, b: &str) -> (r: bool)
    ensures
        r == (a@ == b@),
{
    let n = a.unicode_len();
    if n != b.unicode_len() {
        return false;
    }
    let mut i: usize = 0;
    while i < n
        invariant
            i <= n,
            n == a@.len(),
            n == b@.len(),
            forall|j: int| 0 <= j < i ==> a@[j] == b@[j],
        decreases n - i,
    {
        if a.get_char(i) != b.get_char(i) {
            return false;
        }
        i += 1;
    }
    proof {
        assert(a@ =~= b@);
    }
    true
}

} // verus!
