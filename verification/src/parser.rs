//! The log grammar: turns raw text into an ordered sequence of entries.
//!
//! A record is, left to right: a zero-padded `YYYY-MM-DD HH:MM:SS`
//! date-time, a `<n>` severity code, a hostname, a `(pid)`, a
//! `[component]`, a location (`file`, optional `(method)`, optional
//! `:line`) and the message. The message takes the rest of the physical
//! line and every following line that does not begin a new record; a new
//! record is recognized by a line that starts with one or more digits
//! followed by `-` (the date of the next record). The whole input is one
//! run of such records; an empty input is an empty log, and any text that
//! does not fit the grammar fails the parse as a whole.
//!
//! The grammar itself is written as spec functions over the character
//! sequence; the executable parser is proved to return exactly what they
//! describe.

use vstd::prelude::*;
use vstd::string::StrSliceExecFns;
use vstd::string::StringExecFns;
use crate::datetime::DateTime;
use crate::log::{Entry, EntryView, Level, Location, LocationView, Pid};
use crate::text::{digits_value, is_digit, lemma_run_end_bounds, run_end, scan_class, scan_number,
    CharClass};

verus! {

/// The input text is not structurally valid against the log grammar.
/// The whole parse fails: no partial results are returned.
#[derive(Debug, PartialEq, Eq, Structural, Clone, Copy)]
pub struct ParseError;

impl ParseError {
    /// A short description of the failure.
    pub fn message(&self) -> (r: &'static str)
        ensures
            r@ == "unable to parse the log"@,
    {
        "unable to parse the log"
    }
}

/// Position after the literal character `c` at `i`, if it is there.
pub open spec fn lit(s: Seq<char>, i: int, c: char) -> Option<int> {
    if i < s.len() && s[i] == c {
        Some(i + 1)
    } else {
        None
    }
}

/// Exactly `w` decimal digits at `i`, decoded as a number.
pub open spec fn tok_fixed_digits(s: Seq<char>, i: int, w: int) -> Option<(int, u32)> {
    if i + w <= s.len() && (forall|k: int| i <= k < i + w ==> is_digit(#[trigger] s[k]))
        && digits_value(s.subrange(i, i + w)) <= u32::MAX {
        Some((i + w, digits_value(s.subrange(i, i + w)) as u32))
    } else {
        None
    }
}

/// A zero-padded `YYYY-MM-DD HH:MM:SS` date-time at `i`.
pub open spec fn tok_datetime(s: Seq<char>, i: int) -> Option<(int, DateTime)> {
    match tok_fixed_digits(s, i, 4) {
        None => None,
        Some((i1, year)) => match lit(s, i1, '-') {
            None => None,
            Some(i2) => match tok_fixed_digits(s, i2, 2) {
                None => None,
                Some((i3, month)) => match lit(s, i3, '-') {
                    None => None,
                    Some(i4) => match tok_fixed_digits(s, i4, 2) {
                        None => None,
                        Some((i5, day)) => match lit(s, i5, ' ') {
                            None => None,
                            Some(i6) => match tok_fixed_digits(s, i6, 2) {
                                None => None,
                                Some((i7, hour)) => match lit(s, i7, ':') {
                                    None => None,
                                    Some(i8) => match tok_fixed_digits(s, i8, 2) {
                                        None => None,
                                        Some((i9, minute)) => match lit(s, i9, ':') {
                                            None => None,
                                            Some(i10) => match tok_fixed_digits(s, i10, 2) {
                                                None => None,
                                                Some((i11, second)) => Some(
                                                    (
                                                        i11,
                                                        DateTime {
                                                            year,
                                                            month,
                                                            day,
                                                            hour,
                                                            minute,
                                                            second,
                                                        },
                                                    ),
                                                ),
                                            },
                                        },
                                    },
                                },
                            },
                        },
                    },
                },
            },
        },
    }
}

/// A `<n>` severity code at `i`. A numeric code of any size decodes to a
/// level, falling back to `Unknown` above five; only non-numeric content
/// between the angle brackets fails.
pub open spec fn tok_level(s: Seq<char>, i: int) -> Option<(int, Level)> {
    match lit(s, i, '<') {
        None => None,
        Some(i1) => {
            let j = run_end(s, i1, CharClass::Digit);
            if j > i1 && lit(s, j, '>') is Some {
                Some((j + 1, Level::decoded(digits_value(s.subrange(i1, j)))))
            } else {
                None
            }
        },
    }
}

/// A `(pid)` at `i`: at least one digit between parentheses, and a value
/// that fits the type.
pub open spec fn tok_pid(s: Seq<char>, i: int) -> Option<(int, Pid)> {
    match lit(s, i, '(') {
        None => None,
        Some(i1) => {
            let j = run_end(s, i1, CharClass::Digit);
            if j > i1 && digits_value(s.subrange(i1, j)) <= u32::MAX && lit(s, j, ')') is Some {
                Some((j + 1, Pid(digits_value(s.subrange(i1, j)) as u32)))
            } else {
                None
            }
        },
    }
}

/// A `[component]` at `i`: a possibly empty run of component characters
/// between square brackets.
pub open spec fn tok_component(s: Seq<char>, i: int) -> Option<(int, Seq<char>)> {
    match lit(s, i, '[') {
        None => None,
        Some(i1) => {
            let j = run_end(s, i1, CharClass::Component);
            match lit(s, j, ']') {
                None => None,
                Some(j1) => Some((j1, s.subrange(i1, j))),
            }
        },
    }
}

/// A location at `i`: a non-empty file name, an optional `(method)` and an
/// optional `:line`. An opening parenthesis with no closing one, or a colon
/// with no digits or an oversized number after it, is not taken as part of
/// the location.
pub open spec fn tok_location(s: Seq<char>, i: int) -> Option<(int, LocationView)> {
    let j = run_end(s, i, CharClass::File);
    if j == i {
        None
    } else {
        let file = s.subrange(i, j);
        let with_method: (int, Option<Seq<char>>) = if lit(s, j, '(') is Some {
            let k = run_end(s, j + 1, CharClass::NotRParen);
            if k < s.len() {
                (k + 1, Some(s.subrange(j + 1, k)))
            } else {
                (j, None)
            }
        } else {
            (j, None)
        };
        let j2 = with_method.0;
        let with_line: (int, Option<u32>) = if lit(s, j2, ':') is Some {
            let m = run_end(s, j2 + 1, CharClass::Digit);
            if m > j2 + 1 && digits_value(s.subrange(j2 + 1, m)) <= u32::MAX {
                (m, Some(digits_value(s.subrange(j2 + 1, m)) as u32))
            } else {
                (j2, None)
            }
        } else {
            (j2, None)
        };
        Some((with_line.0, LocationView { file, method: with_method.1, line: with_line.1 }))
    }
}

/// End of the physical line that `i` is on: the next line feed, or the end
/// of the text.
pub open spec fn line_end(s: Seq<char>, i: int) -> int {
    run_end(s, i, CharClass::NotNewline)
}

/// Whether a new record begins at `i`: one or more digits followed by `-`,
/// the look-ahead that recognizes the date of the next record.
pub open spec fn starts_record(s: Seq<char>, i: int) -> bool {
    let j = run_end(s, i, CharClass::Digit);
    j > i && j < s.len() && s[j] == '-'
}

/// Continuation of a message from a line end `i` (a line feed or the end of
/// the text): every following physical line that does not begin a new
/// record is consumed into the message, line feed included; the line feed
/// before a new record is consumed but not kept.
pub open spec fn message_cont(s: Seq<char>, i: int) -> (int, Seq<char>)
    decreases s.len() - i,
    when 0 <= i <= s.len()
    via message_cont_decreases
{
    if i >= s.len() {
        (i, Seq::<char>::empty())
    } else if starts_record(s, i + 1) {
        (i + 1, Seq::<char>::empty())
    } else {
        let le = line_end(s, i + 1);
        let rest = message_cont(s, le);
        (rest.0, seq!['\n'] + s.subrange(i + 1, le) + rest.1)
    }
}

#[via_fn]
proof fn message_cont_decreases(s: Seq<char>, i: int) {
    if i < s.len() && !starts_record(s, i + 1) {
        lemma_run_end_bounds(s, i + 1, CharClass::NotNewline);
    }
}

/// The message at `i`: the rest of the current physical line, plus its
/// continuation lines. This token never fails; it consumes up to the start
/// of the next record or the end of the text.
pub open spec fn tok_message(s: Seq<char>, i: int) -> (int, Seq<char>)
    recommends
        0 <= i <= s.len(),
{
    let le = line_end(s, i);
    let rest = message_cont(s, le);
    (rest.0, s.subrange(i, le) + rest.1)
}

/// One whole record at `i`: the fields in order, separated by single
/// spaces, the pid glued to the hostname and the message last.
pub open spec fn tok_entry(s: Seq<char>, i: int) -> Option<(int, EntryView)> {
    match tok_datetime(s, i) {
        None => None,
        Some((i1, datetime)) => match lit(s, i1, ' ') {
            None => None,
            Some(i2) => match tok_level(s, i2) {
                None => None,
                Some((i3, level)) => match lit(s, i3, ' ') {
                    None => None,
                    Some(i4) => {
                        let j = run_end(s, i4, CharClass::Hostname);
                        let hostname = s.subrange(i4, j);
                        match tok_pid(s, j) {
                            None => None,
                            Some((i5, pid)) => match lit(s, i5, ' ') {
                                None => None,
                                Some(i6) => match tok_component(s, i6) {
                                    None => None,
                                    Some((i7, component)) => match lit(s, i7, ' ') {
                                        None => None,
                                        Some(i8) => match tok_location(s, i8) {
                                            None => None,
                                            Some((i9, location)) => match lit(s, i9, ' ') {
                                                None => None,
                                                Some(i10) => {
                                                    let msg = tok_message(s, i10);
                                                    Some(
                                                        (
                                                            msg.0,
                                                            EntryView {
                                                                datetime,
                                                                level,
                                                                hostname,
                                                                pid,
                                                                component,
                                                                location,
                                                                message: msg.1,
                                                            },
                                                        ),
                                                    )
                                                },
                                            },
                                        },
                                    },
                                },
                            },
                        }
                    },
                },
            },
        },
    }
}

/// The run of records from `i` to the end of the text: empty at the end,
/// otherwise one record and the records after it; anything else fails.
pub open spec fn tok_entries(s: Seq<char>, i: int) -> Option<Seq<EntryView>>
    decreases s.len() - i,
{
    if i >= s.len() {
        Some(Seq::<EntryView>::empty())
    } else {
        match tok_entry(s, i) {
            None => None,
            Some((j, e)) => if i < j <= s.len() {
                match tok_entries(s, j) {
                    None => None,
                    Some(rest) => Some(seq![e] + rest),
                }
            } else {
                None
            },
        }
    }
}

/// What parsing a whole text yields: the records in file order, or nothing
/// if the text does not fit the grammar.
pub open spec fn parse_spec(s: Seq<char>) -> Option<Seq<EntryView>> {
    tok_entries(s, 0)
}

/// Position after the literal character `c` at `i`, if it is there.
fn expect_char(s: &str, i: usize, c: char) -> (r: Option<usize>)
    requires
        i <= s@.len(),
    ensures
        match r {
            Some(j) => lit(s@, i as int, c) == Some(j as int) && j == i + 1 && j <= s@.len(),
            None => lit(s@, i as int, c) is None,
        },
{
    if i < s.unicode_len() && s.get_char(i) == c {
        Some(i + 1)
    } else {
        None
    }
}

/// Reads exactly `w` digits at `i` and decodes them.
fn read_fixed_digits(s: &str, i: usize, w: usize) -> (r: Option<(usize, u32)>)
    requires
        i <= s@.len(),
        w <= 4,
    ensures
        match r {
            Some((j, v)) => tok_fixed_digits(s@, i as int, w as int) == Some((j as int, v)) && j
                == i + w && j <= s@.len(),
            None => tok_fixed_digits(s@, i as int, w as int) is None,
        },
{
    let n = s.unicode_len();
    if n - i < w {
        return None;
    }
    let mut k: usize = 0;
    let mut acc: u32 = 0;
    proof {
        assert(s@.subrange(i as int, i as int) =~= Seq::<char>::empty());
    }
    while k < w
        invariant
            k <= w,
            w <= 4,
            i + w <= n,
            n == s@.len(),
            forall|x: int| i <= x < i + k ==> is_digit(#[trigger] s@[x]),
            acc == digits_value(s@.subrange(i as int, i + k)),
        decreases w - k,
    {
        let c = s.get_char(i + k);
        if !(48 <= c as u32 && c as u32 <= 57) {
            return None;
        }
        proof {
            assert(s@.subrange(i as int, i + k + 1).drop_last() =~= s@.subrange(i as int, i + k));
            assert(s@.subrange(i as int, i + k + 1).last() == s@[i + k]);
            lemma_digits_bound(s@.subrange(i as int, i + k));
        }
        acc = acc * 10 + (c as u32 - 48);
        k = k + 1;
    }
    proof {
        lemma_digits_bound(s@.subrange(i as int, i + w));
    }
    Some((i + w, acc))
}

/// A sequence of at most four decimal digits is worth at most 9999; stated
/// for the widths the date-time token uses.
proof fn lemma_digits_bound(s: Seq<char>)
    requires
        forall|k: int| 0 <= k < s.len() ==> is_digit(#[trigger] s[k]),
    ensures
        s.len() == 0 ==> digits_value(s) == 0,
        s.len() <= 1 ==> digits_value(s) <= 9,
        s.len() <= 2 ==> digits_value(s) <= 99,
        s.len() <= 3 ==> digits_value(s) <= 999,
        s.len() <= 4 ==> digits_value(s) <= 9999,
    decreases s.len(),
{
    if s.len() > 0 {
        assert(forall|k: int| 0 <= k < s.drop_last().len() ==> is_digit(#[trigger] s.drop_last()[k]));
        lemma_digits_bound(s.drop_last());
    }
}

/// Reads the date-time token at `i`.
fn read_datetime(s: &str, i: usize) -> (r: Option<(usize, DateTime)>)
    requires
        i <= s@.len(),
    ensures
        match r {
            Some((j, d)) => tok_datetime(s@, i as int) == Some((j as int, d)) && i < j <= s@.len(),
            None => tok_datetime(s@, i as int) is None,
        },
{
    let (i1, year) = match read_fixed_digits(s, i, 4) {
        Some(p) => p,
        None => {
            return None;
        },
    };
    let i2 = match expect_char(s, i1, '-') {
        Some(j) => j,
        None => {
            return None;
        },
    };
    let (i3, month) = match read_fixed_digits(s, i2, 2) {
        Some(p) => p,
        None => {
            return None;
        },
    };
    let i4 = match expect_char(s, i3, '-') {
        Some(j) => j,
        None => {
            return None;
        },
    };
    let (i5, day) = match read_fixed_digits(s, i4, 2) {
        Some(p) => p,
        None => {
            return None;
        },
    };
    let i6 = match expect_char(s, i5, ' ') {
        Some(j) => j,
        None => {
            return None;
        },
    };
    let (i7, hour) = match read_fixed_digits(s, i6, 2) {
        Some(p) => p,
        None => {
            return None;
        },
    };
    let i8 = match expect_char(s, i7, ':') {
        Some(j) => j,
        None => {
            return None;
        },
    };
    let (i9, minute) = match read_fixed_digits(s, i8, 2) {
        Some(p) => p,
        None => {
            return None;
        },
    };
    let i10 = match expect_char(s, i9, ':') {
        Some(j) => j,
        None => {
            return None;
        },
    };
    let (i11, second) = match read_fixed_digits(s, i10, 2) {
        Some(p) => p,
        None => {
            return None;
        },
    };
    Some((i11, DateTime { year, month, day, hour, minute, second }))
}

/// Reads the `<n>` severity token at `i`.
fn read_level(s: &str, i: usize) -> (r: Option<(usize, Level)>)
    requires
        i <= s@.len(),
    ensures
        match r {
            Some((j, level)) => tok_level(s@, i as int) == Some((j as int, level)) && i < j
                <= s@.len(),
            None => tok_level(s@, i as int) is None,
        },
{
    let i1 = match expect_char(s, i, '<') {
        Some(j) => j,
        None => {
            return None;
        },
    };
    let (j, value) = scan_number(s, i1);
    if j == i1 {
        return None;
    }
    let j1 = match expect_char(s, j, '>') {
        Some(k) => k,
        None => {
            return None;
        },
    };
    let level = match value {
        Some(v) => Level::from_ordinal(v),
        None => Level::Unknown,
    };
    Some((j1, level))
}

/// Reads the `(pid)` token at `i`.
fn read_pid(s: &str, i: usize) -> (r: Option<(usize, Pid)>)
    requires
        i <= s@.len(),
    ensures
        match r {
            Some((j, pid)) => tok_pid(s@, i as int) == Some((j as int, pid)) && i < j <= s@.len(),
            None => tok_pid(s@, i as int) is None,
        },
{
    let i1 = match expect_char(s, i, '(') {
        Some(j) => j,
        None => {
            return None;
        },
    };
    let (j, value) = scan_number(s, i1);
    if j == i1 {
        return None;
    }
    let v = match value {
        Some(v) => v,
        None => {
            return None;
        },
    };
    match expect_char(s, j, ')') {
        Some(j1) => Some((j1, Pid(v))),
        None => None,
    }
}

/// Reads the `[component]` token at `i`.
fn read_component(s: &str, i: usize) -> (r: Option<(usize, String)>)
    requires
        i <= s@.len(),
    ensures
        match r {
            Some((j, c)) => tok_component(s@, i as int) == Some((j as int, c@)) && i < j
                <= s@.len(),
            None => tok_component(s@, i as int) is None,
        },
{
    let i1 = match expect_char(s, i, '[') {
        Some(j) => j,
        None => {
            return None;
        },
    };
    let j = scan_class(s, i1, CharClass::Component);
    match expect_char(s, j, ']') {
        Some(j1) => Some((j1, s.substring_char(i1, j).to_owned())),
        None => None,
    }
}

/// Reads the location token at `i`.
fn read_location(s: &str, i: usize) -> (r: Option<(usize, Location)>)
    requires
        i <= s@.len(),
    ensures
        match r {
            Some((j, l)) => tok_location(s@, i as int) == Some((j as int, l@)) && i < j
                <= s@.len(),
            None => tok_location(s@, i as int) is None,
        },
{
    let n = s.unicode_len();
    let j = scan_class(s, i, CharClass::File);
    if j == i {
        return None;
    }
    let file = s.substring_char(i, j).to_owned();
    let mut j2 = j;
    let mut method: Option<String> = None;
    if expect_char(s, j, '(').is_some() {
        let k = scan_class(s, j + 1, CharClass::NotRParen);
        if k < n {
            method = Some(s.substring_char(j + 1, k).to_owned());
            j2 = k + 1;
        }
    }
    let mut j3 = j2;
    let mut line: Option<u32> = None;
    if expect_char(s, j2, ':').is_some() {
        let (m, value) = scan_number(s, j2 + 1);
        if m > j2 + 1 {
            match value {
                Some(v) => {
                    line = Some(v);
                    j3 = m;
                },
                None => {},
            }
        }
    }
    Some((j3, Location { file, method, line }))
}

/// Whether a new record begins at `i`.
fn is_record_start(s: &str, i: usize) -> (r: bool)
    requires
        i <= s@.len(),
    ensures
        r == starts_record(s@, i as int),
{
    let n = s.unicode_len();
    let j = scan_class(s, i, CharClass::Digit);
    j > i && j < n && s.get_char(j) == '-'
}

/// Reads the message at `i`: the rest of the line and every continuation
/// line. Never fails.
fn read_message(s: &str, i: usize) -> (r: (usize, String))
    requires
        i <= s@.len(),
    ensures
        r.0 == tok_message(s@, i as int).0,
        r.1@ == tok_message(s@, i as int).1,
        i <= r.0 <= s@.len(),
{
    let n = s.unicode_len();
    let le = scan_class(s, i, CharClass::NotNewline);
    proof {
        lemma_run_end_bounds(s@, i as int, CharClass::NotNewline);
    }
    let mut msg = s.substring_char(i, le).to_owned();
    let mut pos = le;
    loop
        invariant_except_break
            pos == n || s@[pos as int] == '\n',
            tok_message(s@, i as int).0 == message_cont(s@, pos as int).0,
            tok_message(s@, i as int).1 == msg@ + message_cont(s@, pos as int).1,
        invariant
            i <= pos <= n,
            n == s@.len(),
        ensures
            pos == tok_message(s@, i as int).0,
            msg@ == tok_message(s@, i as int).1,
        decreases n - pos,
    {
        if pos == n {
            proof {
                assert(msg@ + message_cont(s@, pos as int).1 =~= msg@);
            }
            break ;
        }
        if is_record_start(s, pos + 1) {
            pos = pos + 1;
            proof {
                assert(msg@ + message_cont(s@, pos - 1).1 =~= msg@);
            }
            break ;
        }
        let le2 = scan_class(s, pos + 1, CharClass::NotNewline);
        proof {
            lemma_run_end_bounds(s@, pos + 1, CharClass::NotNewline);
            reveal_strlit("\n");
        }
        let ghost old_msg = msg@;
        msg.append("\n");
        let piece = s.substring_char(pos + 1, le2);
        msg.append(piece);
        proof {
            assert(message_cont(s@, pos as int).1 == seq!['\n'] + s@.subrange(pos + 1, le2 as int)
                + message_cont(s@, le2 as int).1);
            assert(old_msg + message_cont(s@, pos as int).1 =~= msg@ + message_cont(
                s@,
                le2 as int,
            ).1);
        }
        pos = le2;
    }
    (pos, msg)
}

/// Reads one whole record at `i`.
fn read_entry(s: &str, i: usize) -> (r: Option<(usize, Entry)>)
    requires
        i <= s@.len(),
    ensures
        match r {
            Some((j, e)) => tok_entry(s@, i as int) == Some((j as int, e@)) && i < j <= s@.len(),
            None => tok_entry(s@, i as int) is None,
        },
{
    let (i1, datetime) = match read_datetime(s, i) {
        Some(p) => p,
        None => {
            return None;
        },
    };
    let i2 = match expect_char(s, i1, ' ') {
        Some(j) => j,
        None => {
            return None;
        },
    };
    let (i3, level) = match read_level(s, i2) {
        Some(p) => p,
        None => {
            return None;
        },
    };
    let i4 = match expect_char(s, i3, ' ') {
        Some(j) => j,
        None => {
            return None;
        },
    };
    let j = scan_class(s, i4, CharClass::Hostname);
    let hostname = s.substring_char(i4, j).to_owned();
    let (i5, pid) = match read_pid(s, j) {
        Some(p) => p,
        None => {
            return None;
        },
    };
    let i6 = match expect_char(s, i5, ' ') {
        Some(j) => j,
        None => {
            return None;
        },
    };
    let (i7, component) = match read_component(s, i6) {
        Some(p) => p,
        None => {
            return None;
        },
    };
    let i8 = match expect_char(s, i7, ' ') {
        Some(j) => j,
        None => {
            return None;
        },
    };
    let (i9, location) = match read_location(s, i8) {
        Some(p) => p,
        None => {
            return None;
        },
    };
    let i10 = match expect_char(s, i9, ' ') {
        Some(j) => j,
        None => {
            return None;
        },
    };
    let (i11, message) = read_message(s, i10);
    Some((i11, Entry { datetime, level, hostname, pid, component, location, message }))
}

/// Parses one record from the start of `s`, returning how many characters
/// it took and the record, or nothing where no record starts there.
pub fn parse_line(s: &str) -> (r: Option<(usize, Entry)>)
    ensures
        match r {
            Some((j, e)) => tok_entry(s@, 0) == Some((j as int, e@)) && 0 < j <= s@.len(),
            None => tok_entry(s@, 0) is None,
        },
{
    read_entry(s, 0)
}

/// Parses a location from the start of `s`, returning how many characters
/// it took and the location.
pub fn parse_location(s: &str) -> (r: Option<(usize, Location)>)
    ensures
        match r {
            Some((j, l)) => tok_location(s@, 0) == Some((j as int, l@)) && 0 < j <= s@.len(),
            None => tok_location(s@, 0) is None,
        },
{
    read_location(s, 0)
}

/// Decodes a `YYYY-MM-DD HH:MM:SS` date-time that fills the whole of `s`;
/// anything else is rejected.
pub fn parse_datetime(s: &str) -> (r: Result<DateTime, String>)
    ensures
        match r {
            Ok(d) => tok_datetime(s@, 0) == Some((s@.len() as int, d)),
            Err(_) => (match tok_datetime(s@, 0) {
                Some((j, d)) => j != s@.len(),
                None => true,
            }),
        },
{
    match read_datetime(s, 0) {
        Some((j, d)) => {
            if j == s.unicode_len() {
                Ok(d)
            } else {
                Err("text left over after the date-time".to_owned())
            }
        },
        None => Err("not a date-time".to_owned()),
    }
}

/// Parses the whole text as a run of records. An empty input yields an
/// empty sequence; any structural fault anywhere fails the whole parse
/// with no partial results.
#[verifier::rlimit(50)]
pub fn parse_string(s: &str) -> (r: Result<Vec<Entry>, ParseError>)
    ensures
        r is Ok <==> parse_spec(s@) is Some,
        r matches Ok(entries) ==> Some(entries@.map_values(|e: Entry| e@)) == parse_spec(s@),
        s@.len() == 0 ==> (r matches Ok(entries) && entries@.len() == 0),
{
    let n = s.unicode_len();
    let mut out: Vec<Entry> = Vec::new();
    let mut i: usize = 0;
    proof {
        assert(out@.map_values(|e: Entry| e@) =~= Seq::<EntryView>::empty());
        assert(Seq::<EntryView>::empty() + tok_entries(s@, 0)->Some_0 =~= tok_entries(
            s@,
            0,
        )->Some_0);
    }
    loop
        invariant
            0 <= i <= n,
            n == s@.len(),
            parse_spec(s@) is Some <==> tok_entries(s@, i as int) is Some,
            tok_entries(s@, i as int) is Some ==> parse_spec(s@)->Some_0 == out@.map_values(
                |e: Entry| e@,
            ) + tok_entries(s@, i as int)->Some_0,
        ensures
            i == n,
            parse_spec(s@) is Some,
            parse_spec(s@)->Some_0 == out@.map_values(|e: Entry| e@),
        decreases n - i,
    {
        if i == n {
            proof {
                assert(tok_entries(s@, i as int) == Some(Seq::<EntryView>::empty()));
                assert(out@.map_values(|e: Entry| e@) + Seq::<EntryView>::empty() =~= out@
                    .map_values(|e: Entry| e@));
            }
            break ;
        }
        match read_entry(s, i) {
            Some((j, e)) => {
                let ghost prev = out@.map_values(|ent: Entry| ent@);
                out.push(e);
                proof {
                    assert(out@.map_values(|ent: Entry| ent@) =~= prev.push(e@));
                    if tok_entries(s@, j as int) is Some {
                        let rest = tok_entries(s@, j as int)->Some_0;
                        assert(tok_entries(s@, i as int) == Some(seq![e@] + rest));
                        assert(prev + (seq![e@] + rest) =~= prev.push(e@) + rest);
                    } else {
                        assert(tok_entries(s@, i as int) is None);
                    }
                }
                i = j;
            },
            None => {
                proof {
                    assert(tok_entries(s@, i as int) is None);
                }
                return Err(ParseError);
            },
        }
    }
    Ok(out)
}

} // verus!
