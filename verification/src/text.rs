//! Character classes, run scanning and decimal text, shared by the grammar
//! parser and by the display renderers.

use vstd::prelude::*;
use vstd::string::StrSliceExecFns;
use vstd::string::StringExecFns;

verus! {

/// Whether `c` counts as alphanumeric for the log grammar, in the Unicode
/// sense of `char::is_alphanumeric`.
pub uninterp spec fn alphanumeric(c: char) -> bool;

/// Relies on `char::is_alphanumeric`: a Unicode property of the character
/// alone.
#[verifier::external_body]
pub(crate) fn exec_alphanumeric(c: char) -> (r: bool)
    ensures
        r == alphanumeric(c),
{
    c.is_alphanumeric()
}

pub open spec fn is_digit(c: char) -> bool {
    48 <= c as u32 && c as u32 <= 57
}

/// Numeric value of a decimal digit character.
pub open spec fn digit_val(c: char) -> nat {
    (c as u32 - 48) as nat
}

/// The decimal digit character for a value below ten.
pub open spec fn digit_char(d: nat) -> char {
    ((48 + d) as u8) as char
}

/// Value of a sequence of decimal digit characters, most significant first.
pub open spec fn digits_value(s: Seq<char>) -> nat
    decreases s.len(),
{
    if s.len() == 0 {
        0
    } else {
        digits_value(s.drop_last()) * 10 + digit_val(s.last())
    }
}

/// The character classes whose runs the grammar consumes.
#[derive(Debug, PartialEq, Eq, Structural, Clone, Copy)]
pub enum CharClass {
    /// Decimal digits.
    Digit,
    /// Characters allowed in a hostname: alphanumeric, `.` or `-`.
    Hostname,
    /// Characters allowed in a component name: alphanumeric or `.-_+:`.
    Component,
    /// Characters allowed in a file path: alphanumeric, `.`, `/` or `_`.
    File,
    /// Anything but a closing parenthesis.
    NotRParen,
    /// Anything but a line feed.
    NotNewline,
}

pub open spec fn in_class(cl: CharClass, c: char) -> bool {
    match cl {
        CharClass::Digit => is_digit(c),
        CharClass::Hostname => alphanumeric(c) || c == '.' || c == '-',
        CharClass::Component => alphanumeric(c) || c == '.' || c == '-' || c == '_' || c == '+'
            || c == ':',
        CharClass::File => alphanumeric(c) || c == '.' || c == '/' || c == '_',
        CharClass::NotRParen => c != ')',
        CharClass::NotNewline => c != '\n',
    }
}

pub(crate) fn char_in_class(cl: CharClass, c: char) -> (r: bool)
    ensures
        r == in_class(cl, c),
{
    match cl {
        CharClass::Digit => 48 <= c as u32 && c as u32 <= 57,
        CharClass::Hostname => exec_alphanumeric(c) || c == '.' || c == '-',
        CharClass::Component => exec_alphanumeric(c) || c == '.' || c == '-' || c == '_' || c
            == '+' || c == ':',
        CharClass::File => exec_alphanumeric(c) || c == '.' || c == '/' || c == '_',
        CharClass::NotRParen => c != ')',
        CharClass::NotNewline => c != '\n',
    }
}

/// First position at or after `i` that leaves the class `cl`, or the end of
/// the text.
pub open spec fn run_end(s: Seq<char>, i: int, cl: CharClass) -> int
    decreases s.len() - i,
{
    if 0 <= i < s.len() && in_class(cl, s[i]) {
        run_end(s, i + 1, cl)
    } else {
        i
    }
}

pub proof fn lemma_run_end_bounds(s: Seq<char>, i: int, cl: CharClass)
    requires
        0 <= i <= s.len(),
    ensures
        i <= run_end(s, i, cl) <= s.len(),
        forall|k: int| i <= k < run_end(s, i, cl) ==> in_class(cl, #[trigger] s[k]),
        run_end(s, i, cl) < s.len() ==> !in_class(cl, s[run_end(s, i, cl)]),
    decreases s.len() - i,
{
    if i < s.len() && in_class(cl, s[i]) {
        lemma_run_end_bounds(s, i + 1, cl);
    }
}

/// Scans the run of class `cl` that starts at `i`.
pub(crate) fn scan_class(s: &str, i: usize, cl: CharClass) -> (j: usize)
    requires
        i <= s@.len(),
    ensures
        j == run_end(s@, i as int, cl),
        i <= j <= s@.len(),
{
    let n = s.unicode_len();
    let mut j = i;
    loop
        invariant
            i <= j <= n,
            n == s@.len(),
            run_end(s@, i as int, cl) == run_end(s@, j as int, cl),
        ensures
            j == run_end(s@, i as int, cl),
            i <= j <= s@.len(),
        decreases n - j,
    {
        if j == n {
            break ;
        }
        let c = s.get_char(j);
        if !char_in_class(cl, c) {
            break ;
        }
        j = j + 1;
    }
    j
}

/// Scans the digit run at `i` and decodes its value, telling a value that
/// does not fit in 32 bits apart from one that does.
pub(crate) fn scan_number(s: &str, i: usize) -> (r: (usize, Option<u32>))
    requires
        i <= s@.len(),
    ensures
        r.0 == run_end(s@, i as int, CharClass::Digit),
        i <= r.0 <= s@.len(),
        ({
            let v = digits_value(s@.subrange(i as int, r.0 as int));
            match r.1 {
                Some(value) => v <= u32::MAX && value == v,
                None => v > u32::MAX,
            }
        }),
{
    let n = s.unicode_len();
    let mut j = i;
    let mut acc: u64 = 0;
    let mut over: bool = false;
    proof {
        assert(s@.subrange(i as int, i as int) =~= Seq::<char>::empty());
    }
    loop
        invariant
            i <= j <= n,
            n == s@.len(),
            run_end(s@, i as int, CharClass::Digit) == run_end(s@, j as int, CharClass::Digit),
            over ==> digits_value(s@.subrange(i as int, j as int)) > u32::MAX,
            !over ==> acc == digits_value(s@.subrange(i as int, j as int)) && acc <= u32::MAX,
        ensures
            j == run_end(s@, i as int, CharClass::Digit),
            i <= j <= s@.len(),
            over ==> digits_value(s@.subrange(i as int, j as int)) > u32::MAX,
            !over ==> acc == digits_value(s@.subrange(i as int, j as int)) && acc <= u32::MAX,
        decreases n - j,
    {
        if j == n {
            break ;
        }
        let c = s.get_char(j);
        if !char_in_class(CharClass::Digit, c) {
            break ;
        }
        proof {
            assert(s@.subrange(i as int, j + 1).drop_last() =~= s@.subrange(i as int, j as int));
            assert(s@.subrange(i as int, j + 1).last() == s@[j as int]);
        }
        let d: u64 = (c as u32 - 48) as u64;
        if !over {
            let next = acc * 10 + d;
            if next > u32::MAX as u64 {
                over = true;
            } else {
                acc = next;
            }
        } else {
            proof {
                let prev = digits_value(s@.subrange(i as int, j as int));
                assert(digits_value(s@.subrange(i as int, j + 1)) == prev * 10 + digit_val(
                    s@[j as int],
                ));
                assert(prev * 10 >= prev) by (nonlinear_arith)
                    requires
                        prev >= 0,
                ;
            }
        }
        j = j + 1;
    }
    if over {
        (j, None)
    } else {
        (j, Some(acc as u32))
    }
}

/// The decimal rendering of `n`, most significant digit first, no sign and
/// no leading zero except for zero itself.
pub open spec fn dec_str(n: nat) -> Seq<char>
    decreases n,
{
    if n < 10 {
        seq![digit_char(n)]
    } else {
        dec_str(n / 10).push(digit_char(n % 10))
    }
}

/// `dec_str`, left-padded with zeros to at least `w` characters.
pub open spec fn dec_str_pad(n: nat, w: nat) -> Seq<char> {
    let d = dec_str(n);
    if d.len() >= w {
        d
    } else {
        Seq::new((w - d.len()) as nat, |k: int| '0') + d
    }
}

/// The single-character string for a digit value.
pub(crate) fn digit_string(d: u32) -> (r: &'static str)
    requires
        d <= 9,
    ensures
        r@ =~= seq![digit_char(d as nat)],
{
    proof {
        reveal_strlit("0");
        reveal_strlit("1");
        reveal_strlit("2");
        reveal_strlit("3");
        reveal_strlit("4");
        reveal_strlit("5");
        reveal_strlit("6");
        reveal_strlit("7");
        reveal_strlit("8");
        reveal_strlit("9");
    }
    match d {
        0 => "0",
        1 => "1",
        2 => "2",
        3 => "3",
        4 => "4",
        5 => "5",
        6 => "6",
        7 => "7",
        8 => "8",
        _ => "9",
    }
}

/// Renders `n` in decimal.
pub fn u32_dec(n: u32) -> (r: String)
    ensures
        r@ == dec_str(n as nat),
    decreases n,
{
    if n < 10 {
        digit_string(n).to_owned()
    } else {
        let mut s = u32_dec(n / 10);
        s.append(digit_string(n % 10));
        proof {
            assert(s@ =~= dec_str(n as nat));
        }
        s
    }
}

/// Renders `n` in decimal, left-padded with zeros to at least `w` characters.
pub fn u32_dec_pad(n: u32, w: usize) -> (r: String)
    ensures
        r@ == dec_str_pad(n as nat, w as nat),
{
    let d = u32_dec(n);
    let len = d.as_str().unicode_len();
    if len >= w {
        proof {
            assert(d@ =~= dec_str_pad(n as nat, w as nat));
        }
        d
    } else {
        let mut r = String::new();
        let mut k: usize = len;
        proof {
            reveal_strlit("0");
            assert(r@ =~= Seq::new((k - len) as nat, |x: int| '0'));
        }
        while k < w
            invariant
                len <= k <= w,
                r@ == Seq::new((k - len) as nat, |x: int| '0'),
            decreases w - k,
        {
            r.append("0");
            k = k + 1;
            proof {
                reveal_strlit("0");
                assert(r@ =~= Seq::new((k - len) as nat, |x: int| '0'));
            }
        }
        let out = r.concat(d.as_str());
        proof {
            assert(out@ =~= dec_str_pad(n as nat, w as nat));
        }
        out
    }
}

/// Decides whether two pieces of text hold the same characters.
pub(crate) fn str_eq(a: &str, b: &str) -> (r: bool)
    ensures
        r == (a@ == b@),
{
    let an = a.unicode_len();
    let bn = b.unicode_len();
    if an != bn {
        return false;
    }
    let mut k: usize = 0;
    loop
        invariant
            0 <= k <= an,
            an == a@.len(),
            an == b@.len(),
            forall|x: int| 0 <= x < k ==> a@[x] == b@[x],
        ensures
            k <= an,
            forall|x: int| 0 <= x < k ==> a@[x] == b@[x],
            k < an ==> a@[k as int] != b@[k as int],
        decreases an - k,
    {
        if k == an {
            break ;
        }
        if a.get_char(k) != b.get_char(k) {
            break ;
        }
        k = k + 1;
    }
    if k == an {
        proof {
            assert(a@ =~= b@);
        }
        true
    } else {
        false
    }
}

} // verus!
