//! Configuration values: the enabled flag and the exporter port. The host
//! reads the raw strings from its environment and hands them in; an absent
//! or unreadable value yields the stated default.

use vstd::prelude::*;
use vstd::string::StrSliceExecFns;
use vstd::string::StringExecFns;

use crate::text::str_eq;

verus! {

/// The default exporter port.
pub const DEFAULT_PORT: u16 = 9100;

/// ASCII lowercase of one character, as a one-character sequence; characters
/// outside 'A'..'Z' stand for themselves.
pub open spec fn lower_char_text(c: char) -> Seq<char> {
    if c == 'A' {
        "a"@
    } else if c == 'B' {
        "b"@
    } else if c == 'C' {
        "c"@
    } else if c == 'D' {
        "d"@
    } else if c == 'E' {
        "e"@
    } else if c == 'F' {
        "f"@
    } else if c == 'G' {
        "g"@
    } else if c == 'H' {
        "h"@
    } else if c == 'I' {
        "i"@
    } else if c == 'J' {
        "j"@
    } else if c == 'K' {
        "k"@
    } else if c == 'L' {
        "l"@
    } else if c == 'M' {
        "m"@
    } else if c == 'N' {
        "n"@
    } else if c == 'O' {
        "o"@
    } else if c == 'P' {
        "p"@
    } else if c == 'Q' {
        "q"@
    } else if c == 'R' {
        "r"@
    } else if c == 'S' {
        "s"@
    } else if c == 'T' {
        "t"@
    } else if c == 'U' {
        "u"@
    } else if c == 'V' {
        "v"@
    } else if c == 'W' {
        "w"@
    } else if c == 'X' {
        "x"@
    } else if c == 'Y' {
        "y"@
    } else if c == 'Z' {
        "z"@
    } else {
        seq![c]
    }
}

/// ASCII lowercase of a character sequence.
pub open spec fn lower(s: Seq<char>) -> Seq<char>
    decreases s.len(),
{
    if s.len() == 0 {
        Seq::<char>::empty()
    } else {
        lower(s.drop_last()) + lower_char_text(s.last())
    }
}

/// The recognized truthy values, compared after ASCII lowercasing.
pub open spec fn is_truthy(s: Seq<char>) -> bool {
    lower(s) == "1"@ || lower(s) == "true"@ || lower(s) == "yes"@
}

/// Appends the ASCII lowercase of the character at `i` in `s` to `out`.
fn append_lower_char(out: &mut String, s: &str, i: usize)
    requires
        i < s@.len(),
        i < usize::MAX,
    ensures
        final(out)@ == old(out)@ + lower_char_text(s@[i as int]),
{
    let c = s.get_char(i);
    if c == 'A' {
        out.append("a");
    } else if c == 'B' {
        out.append("b");
    } else if c == 'C' {
        out.append("c");
    } else if c == 'D' {
        out.append("d");
    } else if c == 'E' {
        out.append("e");
    } else if c == 'F' {
        out.append("f");
    } else if c == 'G' {
        out.append("g");
    } else if c == 'H' {
        out.append("h");
    } else if c == 'I' {
        out.append("i");
    } else if c == 'J' {
        out.append("j");
    } else if c == 'K' {
        out.append("k");
    } else if c == 'L' {
        out.append("l");
    } else if c == 'M' {
        out.append("m");
    } else if c == 'N' {
        out.append("n");
    } else if c == 'O' {
        out.append("o");
    } else if c == 'P' {
        out.append("p");
    } else if c == 'Q' {
        out.append("q");
    } else if c == 'R' {
        out.append("r");
    } else if c == 'S' {
        out.append("s");
    } else if c == 'T' {
        out.append("t");
    } else if c == 'U' {
        out.append("u");
    } else if c == 'V' {
        out.append("v");
    } else if c == 'W' {
        out.append("w");
    } else if c == 'X' {
        out.append("x");
    } else if c == 'Y' {
        out.append("y");
    } else if c == 'Z' {
        out.append("z");
    } else {
        let piece = s.substring_char(i, i + 1);
        proof {
            assert(s@.subrange(i as int, i as int + 1) =~= seq![s@[i as int]]);
        }
        out.append(piece);
    }
}

/// The ASCII lowercase of a string slice.
fn to_ascii_lower(s: &str) -> (r: String)
    ensures
        r@ == lower(s@),
{
    let n = s.unicode_len();
    let mut out = String::new();
    let mut i: usize = 0;
    proof {
        assert(lower(s@.take(0)) =~= Seq::<char>::empty());
        assert(out@ + lower(s@.take(0)) =~= out@);
    }
    while i < n
        invariant
            i <= n,
            n == s@.len(),
            out@ == lower(s@.take(i as int)),
        decreases n - i,
    {
        proof {
            assert(s@.take(i as int + 1).drop_last() =~= s@.take(i as int));
            assert(s@.take(i as int + 1).last() == s@[i as int]);
        }
        append_lower_char(&mut out, s, i);
        i += 1;
    }
    proof {
        assert(s@.take(n as int) =~= s@);
    }
    out
}

/// Whether metric collection is enabled: an absent value means enabled, and
/// a present value enables exactly when it reads "1", "true" or "yes",
/// case-insensitively; anything else disables.
pub fn metrics_enabled(value: Option<&str>) -> (enabled: bool)
    ensures
        value is None ==> enabled,
        (value matches Some(s) ==> enabled == is_truthy(s@)),
{
    match value {
        None => true,
        Some(s) => {
            let low = to_ascii_lower(s);
            str_eq(low.as_str(), "1") || str_eq(low.as_str(), "true") || str_eq(
                low.as_str(),
                "yes",
            )
        },
    }
}

/// Decimal digit value of a character; 10 stands for "not a digit".
pub open spec fn digit_val(c: char) -> nat {
    match c {
        '0' => 0,
        '1' => 1,
        '2' => 2,
        '3' => 3,
        '4' => 4,
        '5' => 5,
        '6' => 6,
        '7' => 7,
        '8' => 8,
        '9' => 9,
        _ => 10,
    }
}

/// Whether every character of `s` is a decimal digit.
pub open spec fn all_digits(s: Seq<char>) -> bool {
    forall|i: int| 0 <= i < s.len() ==> digit_val(#[trigger] s[i]) < 10
}

/// The numeric value of a digit string, most significant digit first.
pub open spec fn dec_val(s: Seq<char>) -> nat
    decreases s.len(),
{
    if s.len() == 0 {
        0
    } else {
        dec_val(s.drop_last()) * 10 + digit_val(s.last())
    }
}

/// The digit part of a number string: everything after one optional
/// leading plus sign.
pub open spec fn digits_part(s: Seq<char>) -> Seq<char> {
    if s.len() > 0 && s[0] == '+' {
        s.drop_first()
    } else {
        s
    }
}

/// A readable port string: an optional leading plus sign, then one or more
/// decimal digits whose value fits a port number.
pub open spec fn is_valid_port(s: Seq<char>) -> bool {
    &&& digits_part(s).len() > 0
    &&& all_digits(digits_part(s))
    &&& dec_val(digits_part(s)) <= 65535
}

/// The port a string names, or the default where it names none.
pub open spec fn port_of(s: Seq<char>) -> u16 {
    if is_valid_port(s) {
        dec_val(digits_part(s)) as u16
    } else {
        DEFAULT_PORT
    }
}

/// A digit string's value never shrinks when digits are appended.
proof fn lemma_dec_val_prefix(s: Seq<char>, k: int)
    requires
        0 <= k <= s.len(),
    ensures
        dec_val(s.take(k)) <= dec_val(s),
    decreases s.len() - k,
{
    if k < s.len() {
        assert(s.take(k + 1).drop_last() =~= s.take(k));
        assert(s.take(k + 1).last() == s[k]);
        assert(dec_val(s.take(k)) <= dec_val(s.take(k)) * 10 + digit_val(s[k]));
        lemma_dec_val_prefix(s, k + 1);
    } else {
        assert(s.take(k) =~= s);
    }
}

/// Reads a port number from a string as the host's runtime does: an
/// optional leading plus sign, then decimal digits; anything else, or a
/// value over 65535, yields the default.
#[verifier::loop_isolation(false)]
fn parse_port(s: &str) -> (port: u16)
    ensures
        port == port_of(s@),
{
    let n = s.unicode_len();
    let start: usize = if n > 0 && s.get_char(0) == '+' {
        1
    } else {
        0
    };
    proof {
        assert(digits_part(s@) =~= s@.subrange(start as int, n as int));
    }
    if start == n {
        return DEFAULT_PORT;
    }
    let mut acc: u32 = 0;
    let mut i: usize = start;
    proof {
        assert(s@.subrange(start as int, start as int) =~= Seq::<char>::empty());
    }
    while i < n
        invariant
            start <= i <= n,
            acc <= 65535,
            acc as nat == dec_val(s@.subrange(start as int, i as int)),
            all_digits(s@.subrange(start as int, i as int)),
        decreases n - i,
    {
        let c = s.get_char(i);
        let d = digit_of(c);
        proof {
            assert(digits_part(s@)[i - start] == s@[i as int]);
        }
        if d >= 10 {
            return DEFAULT_PORT;
        }
        let next: u32 = acc * 10 + d;
        proof {
            assert(s@.subrange(start as int, i as int + 1).drop_last() =~= s@.subrange(
                start as int,
                i as int,
            ));
            assert(s@.subrange(start as int, i as int + 1).last() == s@[i as int]);
            assert(next as nat == dec_val(s@.subrange(start as int, i as int + 1)));
        }
        if next > 65535 {
            proof {
                if all_digits(digits_part(s@)) {
                    assert(digits_part(s@).take(i as int + 1 - start) =~= s@.subrange(
                        start as int,
                        i as int + 1,
                    ));
                    lemma_dec_val_prefix(digits_part(s@), i as int + 1 - start);
                }
            }
            return DEFAULT_PORT;
        }
        acc = next;
        proof {
            assert forall|k: int| 0 <= k < i as int + 1 - start as int implies digit_val(
                #[trigger] s@.subrange(start as int, i as int + 1)[k],
            ) < 10 by {
                if k < i as int - start as int {
                    assert(s@.subrange(start as int, i as int + 1)[k] == s@.subrange(
                        start as int,
                        i as int,
                    )[k]);
                }
            };
        }
        i += 1;
    }
    proof {
        assert(is_valid_port(s@));
    }
    acc as u16
}

/// The decimal value of a digit character; 10 for any other character.
fn digit_of(c: char) -> (d: u32)
    ensures
        d == digit_val(c),
{
    match c {
        '0' => 0,
        '1' => 1,
        '2' => 2,
        '3' => 3,
        '4' => 4,
        '5' => 5,
        '6' => 6,
        '7' => 7,
        '8' => 8,
        '9' => 9,
        _ => 10,
    }
}

/// The exporter port: an absent value means the default, and a present
/// value is read as a decimal port number, an unreadable one meaning the
/// default again.
pub fn metrics_port(value: Option<&str>) -> (port: u16)
    ensures
        value is None ==> port == DEFAULT_PORT,
        (value matches Some(s) ==> port == port_of(s@)),
{
    match value {
        None => DEFAULT_PORT,
        Some(s) => parse_port(s),
    }
}

} // verus!
