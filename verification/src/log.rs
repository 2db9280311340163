//! The log data model — severity levels, process ids, message origins and
//! whole entries — and the query engine that filters a log by a set of
//! optional, conjunctive predicates.

use vstd::prelude::*;
use vstd::seq_lib::group_seq_properties;
use vstd::string::StrSliceExecFns;
use vstd::string::StringExecFns;
use crate::datetime::DateTime;
use crate::text::{dec_str, digit_char, digits_value, is_digit, run_end, scan_number, str_eq,
    u32_dec, CharClass};

verus! {

/// Log level of an entry, ordered from `Debug` (ordinal 0) to `Unknown`
/// (ordinal 5).
#[derive(Debug, PartialEq, Eq, Structural, Clone, Copy)]
pub enum Level {
    Debug,
    Info,
    Warn,
    Error,
    Fatal,
    Unknown,
}

impl Level {
    /// The numeric severity code of this level, as the raw log text and the
    /// canonical rendering write it.
    pub open spec fn ordinal(self) -> u32 {
        match self {
            Level::Debug => 0,
            Level::Info => 1,
            Level::Warn => 2,
            Level::Error => 3,
            Level::Fatal => 4,
            Level::Unknown => 5,
        }
    }

    /// The level a numeric severity code decodes to: codes above five fall
    /// back to `Unknown` instead of failing.
    pub open spec fn decoded(n: nat) -> Level {
        if n == 0 {
            Level::Debug
        } else if n == 1 {
            Level::Info
        } else if n == 2 {
            Level::Warn
        } else if n == 3 {
            Level::Error
        } else if n == 4 {
            Level::Fatal
        } else {
            Level::Unknown
        }
    }

    /// Returns the numeric severity code of this level.
    pub fn to_ordinal(&self) -> (r: u32)
        ensures
            r == self.ordinal(),
    {
        match self {
            Level::Debug => 0,
            Level::Info => 1,
            Level::Warn => 2,
            Level::Error => 3,
            Level::Fatal => 4,
            Level::Unknown => 5,
        }
    }

    /// Decodes a numeric severity code; any code outside the table decodes
    /// to `Unknown`.
    pub fn from_ordinal(n: u32) -> (r: Level)
        ensures
            r == Level::decoded(n as nat),
    {
        match n {
            0 => Level::Debug,
            1 => Level::Info,
            2 => Level::Warn,
            3 => Level::Error,
            4 => Level::Fatal,
            _ => Level::Unknown,
        }
    }

    /// The lower-case name of this level.
    pub open spec fn token(self) -> Seq<char> {
        match self {
            Level::Debug => "debug"@,
            Level::Info => "info"@,
            Level::Warn => "warn"@,
            Level::Error => "error"@,
            Level::Fatal => "fatal"@,
            Level::Unknown => "unknown"@,
        }
    }

    /// Decodes a lower-case level name; any other text is rejected.
    pub fn from_str(s: &str) -> (r: Result<Level, String>)
        ensures
            match r {
                Ok(level) => s@ == level.token(),
                Err(_) => forall|level: Level| s@ != level.token(),
            },
    {
        if str_eq(s, "debug") {
            Ok(Level::Debug)
        } else if str_eq(s, "info") {
            Ok(Level::Info)
        } else if str_eq(s, "warn") {
            Ok(Level::Warn)
        } else if str_eq(s, "error") {
            Ok(Level::Error)
        } else if str_eq(s, "fatal") {
            Ok(Level::Fatal)
        } else if str_eq(s, "unknown") {
            Ok(Level::Unknown)
        } else {
            Err("not a log level name".to_owned())
        }
    }

    /// Renders this level as its severity code, the canonical textual form.
    pub fn to_display_string(&self) -> (r: String)
        ensures
            r@ == seq![digit_char(self.ordinal() as nat)],
    {
        crate::text::digit_string(self.to_ordinal()).to_owned()
    }

    /// Decoding any level's ordinal yields that level back, and decoding
    /// re-encodes to the same ordinal; every code above five decodes to
    /// `Unknown`.
    pub proof fn lemma_ordinal_round_trip(level: Level, n: nat)
        ensures
            Level::decoded(level.ordinal() as nat) == level,
            Level::decoded(n).ordinal() <= 5,
            n <= 5 ==> Level::decoded(n).ordinal() == n,
            n > 5 ==> Level::decoded(n) == Level::Unknown,
    {
    }
}

/// Identifier of the process that wrote an entry.
#[derive(Debug, PartialEq, Eq, Structural, Clone, Copy)]
pub struct Pid(pub u32);

impl Pid {
    /// Whether `s` is the decimal text of a process id that fits the type.
    pub open spec fn text_valid(s: Seq<char>) -> bool {
        &&& s.len() > 0
        &&& (forall|k: int| 0 <= k < s.len() ==> is_digit(#[trigger] s[k]))
        &&& digits_value(s) <= u32::MAX
    }

    /// Decodes a decimal process id; non-numeric text is rejected.
    pub fn from_str(s: &str) -> (r: Result<Pid, String>)
        ensures
            match r {
                Ok(pid) => Pid::text_valid(s@) && pid.0 == digits_value(s@),
                Err(_) => !Pid::text_valid(s@),
            },
    {
        let n = s.unicode_len();
        let (j, value) = scan_number(s, 0);
        proof {
            crate::text::lemma_run_end_bounds(s@, 0, CharClass::Digit);
            assert(s@.subrange(0, s@.len() as int) =~= s@);
        }
        if j == n && n > 0 {
            match value {
                Some(v) => Ok(Pid(v)),
                None => Err("process id out of range".to_owned()),
            }
        } else {
            proof {
                if j < s@.len() {
                    assert(!is_digit(s@[j as int]));
                }
            }
            Err("not a decimal process id".to_owned())
        }
    }

    /// Renders this process id in decimal.
    pub fn to_display_string(&self) -> (r: String)
        ensures
            r@ == dec_str(self.0 as nat),
    {
        u32_dec(self.0)
    }
}

/// The origin of a log message: a file, and optionally a method and a line
/// number.
#[derive(Debug, PartialEq, Eq)]
pub struct Location {
    /// File name.
    pub file: String,
    /// Method name.
    pub method: Option<String>,
    /// Line number.
    pub line: Option<u32>,
}

/// The mathematical value of a `Location`.
pub ghost struct LocationView {
    pub file: Seq<char>,
    pub method: Option<Seq<char>>,
    pub line: Option<u32>,
}

impl View for Location {
    type V = LocationView;

    open spec fn view(&self) -> LocationView {
        LocationView {
            file: self.file@,
            method: match self.method {
                Some(m) => Some(m@),
                None => None,
            },
            line: self.line,
        }
    }
}

impl Clone for Location {
    /// Clones the location, field for field.
    fn clone(&self) -> (r: Self)
        ensures
            r == *self,
    {
        Location {
            file: self.file.clone(),
            method: match &self.method {
                Some(m) => Some(m.clone()),
                None => None,
            },
            line: self.line,
        }
    }
}

impl Location {
    /// The canonical text of a location: the file, then `(method)` if a
    /// method is present, then `:line` if a line is present.
    pub open spec fn render(l: LocationView) -> Seq<char> {
        l.file + (match l.method {
            Some(m) => seq!['('] + m + seq![')'],
            None => Seq::<char>::empty(),
        }) + (match l.line {
            Some(n) => seq![':'] + dec_str(n as nat),
            None => Seq::<char>::empty(),
        })
    }

    /// Renders this location in its canonical form.
    pub fn to_display_string(&self) -> (r: String)
        ensures
            r@ == Location::render(self@),
    {
        proof {
            reveal_strlit("(");
            reveal_strlit(")");
            reveal_strlit(":");
        }
        let mut r = self.file.clone();
        match &self.method {
            Some(m) => {
                r.append("(");
                r.append(m.as_str());
                r.append(")");
            },
            None => {},
        }
        match self.line {
            Some(n) => {
                r.append(":");
                let d = u32_dec(n);
                r.append(d.as_str());
            },
            None => {},
        }
        proof {
            assert(r@ =~= Location::render(self@));
        }
        r
    }
}

/// One parsed log record.
#[derive(Debug, PartialEq, Eq)]
pub struct Entry {
    /// Entry date and time.
    pub datetime: DateTime,
    /// Entry level (debug, info, etc.).
    pub level: Level,
    /// Hostname.
    pub hostname: String,
    /// Process ID.
    pub pid: Pid,
    /// Component name.
    pub component: String,
    /// Origin of the log message.
    pub location: Location,
    /// Message body; may hold embedded line breaks.
    pub message: String,
}

/// The mathematical value of an `Entry`.
pub ghost struct EntryView {
    pub datetime: DateTime,
    pub level: Level,
    pub hostname: Seq<char>,
    pub pid: Pid,
    pub component: Seq<char>,
    pub location: LocationView,
    pub message: Seq<char>,
}

impl View for Entry {
    type V = EntryView;

    open spec fn view(&self) -> EntryView {
        EntryView {
            datetime: self.datetime,
            level: self.level,
            hostname: self.hostname@,
            pid: self.pid,
            component: self.component@,
            location: self.location@,
            message: self.message@,
        }
    }
}

impl Clone for Entry {
    /// Clones the entry, field for field.
    fn clone(&self) -> (r: Self)
        ensures
            r == *self,
    {
        Entry {
            datetime: self.datetime,
            level: self.level,
            hostname: self.hostname.clone(),
            pid: self.pid,
            component: self.component.clone(),
            location: self.location.clone(),
            message: self.message.clone(),
        }
    }
}

impl Entry {
    /// The canonical display line of an entry:
    /// `datetime <level> hostname(pid) [component] location message`.
    pub open spec fn render(e: EntryView) -> Seq<char> {
        e.datetime.render() + seq![' ', '<', digit_char(e.level.ordinal() as nat), '>', ' ']
            + e.hostname + seq!['('] + dec_str(e.pid.0 as nat) + seq![')', ' ', '['] + e.component
            + seq![']', ' '] + Location::render(e.location) + seq![' '] + e.message
    }

    /// Renders this entry as its canonical display line.
    pub fn to_display_string(&self) -> (r: String)
        ensures
            r@ == Entry::render(self@),
    {
        proof {
            reveal_strlit(" <");
            reveal_strlit("> ");
            reveal_strlit("(");
            reveal_strlit(") [");
            reveal_strlit("] ");
            reveal_strlit(" ");
        }
        let mut r = self.datetime.to_display_string();
        r.append(" <");
        let level = self.level.to_display_string();
        r.append(level.as_str());
        r.append("> ");
        r.append(self.hostname.as_str());
        r.append("(");
        let pid = self.pid.to_display_string();
        r.append(pid.as_str());
        r.append(") [");
        r.append(self.component.as_str());
        r.append("] ");
        let location = self.location.to_display_string();
        r.append(location.as_str());
        r.append(" ");
        r.append(self.message.as_str());
        proof {
            assert(r@ =~= Entry::render(self@));
        }
        r
    }
}

/// An ordered collection of log entries, in file order.
#[derive(Debug)]
pub struct Log {
    entries: Vec<Entry>,
}

impl View for Log {
    type V = Seq<Entry>;

    closed spec fn view(&self) -> Seq<Entry> {
        self.entries@
    }
}

impl Log {
    /// Wraps a sequence of entries, keeping their order.
    pub fn from_entries(entries: Vec<Entry>) -> (r: Log)
        ensures
            r@ == entries@,
    {
        Log { entries }
    }

    /// The entries of the log, in order.
    pub fn entries(&self) -> (r: &Vec<Entry>)
        ensures
            r@ == self@,
    {
        &self.entries
    }

    /// Constructs a query over this log, with every predicate unset.
    pub fn query(&self) -> (q: Query<'_>)
        ensures
            q@ == (QueryView {
                entries: self@,
                level: None,
                pid: None,
                component: None,
                hostname: None,
                from_datetime: None,
                to_datetime: None,
            }),
    {
        Query::new(self)
    }
}

/// A filter over one source log: a set of optional predicates that compose
/// conjunctively. Building is purely additive; nothing happens until
/// [`Query::to_log`] materializes the filtered log.
#[derive(Debug)]
pub struct Query<'a> {
    log: &'a Log,
    level: Option<Level>,
    pid: Option<Pid>,
    component: Option<String>,
    hostname: Option<String>,
    from_datetime: Option<DateTime>,
    to_datetime: Option<DateTime>,
}

/// The mathematical value of a `Query`: the source entries and the
/// predicate set.
pub ghost struct QueryView {
    pub entries: Seq<Entry>,
    pub level: Option<Level>,
    pub pid: Option<Pid>,
    pub component: Option<Seq<char>>,
    pub hostname: Option<Seq<char>>,
    pub from_datetime: Option<DateTime>,
    pub to_datetime: Option<DateTime>,
}

impl<'a> View for Query<'a> {
    type V = QueryView;

    closed spec fn view(&self) -> QueryView {
        QueryView {
            entries: self.log@,
            level: self.level,
            pid: self.pid,
            component: match self.component {
                Some(ref c) => Some(c@),
                None => None,
            },
            hostname: match self.hostname {
                Some(ref h) => Some(h@),
                None => None,
            },
            from_datetime: self.from_datetime,
            to_datetime: self.to_datetime,
        }
    }
}

/// An unset level predicate restricts nothing; a set one asks for equality.
pub open spec fn level_matches(q: QueryView, e: EntryView) -> bool {
    match q.level {
        Some(level) => e.level == level,
        None => true,
    }
}

/// An unset pid predicate restricts nothing; a set one asks for equality.
pub open spec fn pid_matches(q: QueryView, e: EntryView) -> bool {
    match q.pid {
        Some(pid) => e.pid == pid,
        None => true,
    }
}

/// An unset component predicate restricts nothing; a set one asks for exact
/// equality of the component name.
pub open spec fn component_matches(q: QueryView, e: EntryView) -> bool {
    match q.component {
        Some(component) => e.component == component,
        None => true,
    }
}

/// An unset hostname predicate restricts nothing; a set one asks for exact
/// equality of the hostname.
pub open spec fn hostname_matches(q: QueryView, e: EntryView) -> bool {
    match q.hostname {
        Some(hostname) => e.hostname == hostname,
        None => true,
    }
}

/// An unset lower bound restricts nothing; a set one is inclusive.
pub open spec fn from_matches(q: QueryView, e: EntryView) -> bool {
    match q.from_datetime {
        Some(from) => from.le(e.datetime),
        None => true,
    }
}

/// An unset upper bound restricts nothing; a set one is inclusive.
pub open spec fn to_matches(q: QueryView, e: EntryView) -> bool {
    match q.to_datetime {
        Some(to) => e.datetime.le(to),
        None => true,
    }
}

/// An entry survives the query exactly when every set predicate matches it.
pub open spec fn entry_matches(q: QueryView, e: EntryView) -> bool {
    &&& level_matches(q, e)
    &&& pid_matches(q, e)
    &&& component_matches(q, e)
    &&& hostname_matches(q, e)
    &&& from_matches(q, e)
    &&& to_matches(q, e)
}

/// The predicates compose conjunctively: the query keeps an entry exactly
/// when each of the six predicates, taken alone, would keep it — never a
/// union.
pub proof fn lemma_conjunctive_filtering(q: QueryView, e: EntryView)
    ensures
        entry_matches(q, e) <==> (level_matches(q, e) && pid_matches(q, e) && component_matches(
            q,
            e,
        ) && hostname_matches(q, e) && from_matches(q, e) && to_matches(q, e)),
{
}

/// Setting a predicate overwrites any earlier value for the same field:
/// after setting the pid to `p1` and then to `p2`, the query is the one
/// that only ever saw `p2`.
pub proof fn lemma_pid_overwrite(q: QueryView, p1: Pid, p2: Pid)
    ensures
        (QueryView { pid: Some(p2), ..(QueryView { pid: Some(p1), ..q }) }) == (QueryView {
            pid: Some(p2),
            ..q
        }),
{
}

/// A bound that equals an entry's timestamp keeps the entry: both range
/// predicates are inclusive.
pub proof fn lemma_range_bounds_inclusive(q: QueryView, e: EntryView)
    ensures
        q.from_datetime == Some(e.datetime) ==> from_matches(q, e),
        q.to_datetime == Some(e.datetime) ==> to_matches(q, e),
{
    e.datetime.lemma_le_reflexive();
}

/// Every element of `s` satisfies `pred`, so filtering keeps all of `s`.
proof fn lemma_filter_keeps_all(s: Seq<Entry>, pred: spec_fn(Entry) -> bool)
    requires
        forall|i: int| 0 <= i < s.len() ==> pred(#[trigger] s[i]),
    ensures
        s.filter(pred) == s,
    decreases s.len(),
{
    reveal(Seq::filter);
    if s.len() > 0 {
        assert(forall|i: int|
            0 <= i < s.drop_last().len() ==> pred(#[trigger] s.drop_last()[i]));
        lemma_filter_keeps_all(s.drop_last(), pred);
        assert(s.drop_last().push(s.last()) =~= s);
    }
}

/// A query with no predicate set restricts nothing: every entry of the
/// source survives, and the filtered log is the source, order and all.
pub proof fn lemma_no_predicates_keep_everything(q: QueryView)
    requires
        q.level is None,
        q.pid is None,
        q.component is None,
        q.hostname is None,
        q.from_datetime is None,
        q.to_datetime is None,
    ensures
        forall|e: EntryView| entry_matches(q, e),
        q.entries.filter(|e: Entry| entry_matches(q, e@)) == q.entries,
{
    lemma_filter_keeps_all(q.entries, |e: Entry| entry_matches(q, e@));
}

/// Filtering preserves the original relative order of the survivors: the
/// survivors of an earlier part of the log all come before the survivors
/// of a later part.
pub proof fn lemma_filter_preserves_order(q: QueryView, a: Seq<Entry>, b: Seq<Entry>)
    ensures
        (a + b).filter(|e: Entry| entry_matches(q, e@)) == a.filter(|e: Entry| entry_matches(q, e@))
            + b.filter(|e: Entry| entry_matches(q, e@)),
{
    Seq::<Entry>::filter_distributes_over_add(a, b, |e: Entry| entry_matches(q, e@));
}

impl<'a> Query<'a> {
    /// Constructs a new query over `log`, with every predicate unset.
    pub fn new(log: &'a Log) -> (q: Self)
        ensures
            q@ == (QueryView {
                entries: log@,
                level: None,
                pid: None,
                component: None,
                hostname: None,
                from_datetime: None,
                to_datetime: None,
            }),
    {
        Query {
            log,
            level: None,
            pid: None,
            component: None,
            hostname: None,
            from_datetime: None,
            to_datetime: None,
        }
    }

    /// Sets the level predicate, overwriting any earlier value.
    pub fn with_level(&mut self, level: Level)
        ensures
            final(self)@ == (QueryView { level: Some(level), ..old(self)@ }),
    {
        self.level = Some(level);
    }

    /// Sets the pid predicate, overwriting any earlier value.
    pub fn with_pid(&mut self, pid: Pid)
        ensures
            final(self)@ == (QueryView { pid: Some(pid), ..old(self)@ }),
    {
        self.pid = Some(pid);
    }

    /// Sets the component predicate, overwriting any earlier value.
    pub fn with_component(&mut self, component: String)
        ensures
            final(self)@ == (QueryView { component: Some(component@), ..old(self)@ }),
    {
        self.component = Some(component);
    }

    /// Sets the hostname predicate, overwriting any earlier value.
    pub fn with_hostname(&mut self, hostname: String)
        ensures
            final(self)@ == (QueryView { hostname: Some(hostname@), ..old(self)@ }),
    {
        self.hostname = Some(hostname);
    }

    /// Sets the inclusive lower time bound, overwriting any earlier value.
    pub fn from_datetime(&mut self, datetime: DateTime)
        ensures
            final(self)@ == (QueryView { from_datetime: Some(datetime), ..old(self)@ }),
    {
        self.from_datetime = Some(datetime);
    }

    /// Sets the inclusive upper time bound, overwriting any earlier value.
    pub fn to_datetime(&mut self, datetime: DateTime)
        ensures
            final(self)@ == (QueryView { to_datetime: Some(datetime), ..old(self)@ }),
    {
        self.to_datetime = Some(datetime);
    }

    /// Decides whether `e` matches every set predicate.
    pub fn matches_entry(&self, e: &Entry) -> (r: bool)
        ensures
            r == entry_matches(self@, e@),
    {
        match self.level {
            Some(level) => {
                if level != e.level {
                    return false;
                }
            },
            None => {},
        }
        match self.pid {
            Some(pid) => {
                if pid != e.pid {
                    return false;
                }
            },
            None => {},
        }
        match &self.component {
            Some(component) => {
                if !(*component == e.component) {
                    return false;
                }
            },
            None => {},
        }
        match &self.hostname {
            Some(hostname) => {
                if !(*hostname == e.hostname) {
                    return false;
                }
            },
            None => {},
        }
        match &self.from_datetime {
            Some(from) => {
                if !from.is_at_or_before(&e.datetime) {
                    return false;
                }
            },
            None => {},
        }
        match &self.to_datetime {
            Some(to) => {
                if !e.datetime.is_at_or_before(to) {
                    return false;
                }
            },
            None => {},
        }
        true
    }

    /// Filters the source log by the set predicates and wraps the survivors,
    /// in their original order, in a new log. The source log is not touched.
    pub fn to_log(&self) -> (r: Log)
        ensures
            r@ == self@.entries.filter(|e: Entry| entry_matches(self@, e@)),
    {
        broadcast use group_seq_properties;

        let ghost pred = |e: Entry| entry_matches(self@, e@);
        let mut entries: Vec<Entry> = Vec::new();
        let n = self.log.entries.len();
        let mut i: usize = 0;
        proof {
            assert(self@.entries.take(0int).filter(pred) =~= Seq::<Entry>::empty());
        }
        while i < n
            invariant
                i <= n,
                n == self.log.entries.len(),
                self@.entries == self.log.entries@,
                entries@ == self@.entries.take(i as int).filter(pred),
                pred == (|e: Entry| entry_matches(self@, e@)),
            decreases n - i,
        {
            let e = &self.log.entries[i];
            proof {
                reveal(Seq::filter);
                assert(self@.entries.take(i + 1).drop_last() =~= self@.entries.take(i as int));
                assert(self@.entries.take(i + 1).last() == self@.entries[i as int]);
            }
            if self.matches_entry(e) {
                entries.push(e.clone());
            }
            i = i + 1;
        }
        proof {
            assert(self@.entries.take(n as int) =~= self@.entries);
        }
        Log { entries }
    }
}

} // verus!
