//! Logging: which records are written and how each line looks, for the host and for the
//! agent in a virtual machine, and the splitting of the log stream that a machine sends
//! into lines.
use vstd::prelude::*;
use crate::text::{concat2, concat3, concat4, starts_with, has_prefix, chars_of, string_from_chars,
    string_from_utf8, is_blank, is_blank_text};

verus! {

/// The number of log messages that the agent buffers before it drops new ones.
pub const LOG_CHANNEL_CAPACITY: usize = 1000;

/// The level of a record, from the most to the least severe.
#[derive(Debug, Clone, Copy, PartialEq, Eq, Structural)]
pub enum LogLevel {
    Error,
    Warn,
    Info,
    Debug,
    Trace,
}

/// The most verbose level that a logger writes (`Off`: none).
#[derive(Debug, Clone, Copy, PartialEq, Eq, Structural)]
pub enum LogLevelFilter {
    Off,
    Error,
    Warn,
    Info,
    Debug,
    Trace,
}

/// The rank of a level: 1 for errors up to 5 for traces.
pub open spec fn level_rank(l: LogLevel) -> int {
    match l {
        LogLevel::Error => 1,
        LogLevel::Warn => 2,
        LogLevel::Info => 3,
        LogLevel::Debug => 4,
        LogLevel::Trace => 5,
    }
}

/// The rank of a filter: 0 when off, up to 5 for traces.
pub open spec fn filter_rank(f: LogLevelFilter) -> int {
    match f {
        LogLevelFilter::Off => 0,
        LogLevelFilter::Error => 1,
        LogLevelFilter::Warn => 2,
        LogLevelFilter::Info => 3,
        LogLevelFilter::Debug => 4,
        LogLevelFilter::Trace => 5,
    }
}

/// The name of a level as `log` writes it.
pub open spec fn level_name(l: LogLevel) -> Seq<char> {
    match l {
        LogLevel::Error => "ERROR"@,
        LogLevel::Warn => "WARN"@,
        LogLevel::Info => "INFO"@,
        LogLevel::Debug => "DEBUG"@,
        LogLevel::Trace => "TRACE"@,
    }
}

impl LogLevel {
    /// The name of the level.
    pub fn as_str(&self) -> (s: &'static str)
        ensures
            s@ == level_name(*self),
    {
        match self {
            LogLevel::Error => "ERROR",
            LogLevel::Warn => "WARN",
            LogLevel::Info => "INFO",
            LogLevel::Debug => "DEBUG",
            LogLevel::Trace => "TRACE",
        }
    }

    /// The rank of the level.
    pub fn rank(&self) -> (r: u8)
        ensures
            r == level_rank(*self),
    {
        match self {
            LogLevel::Error => 1,
            LogLevel::Warn => 2,
            LogLevel::Info => 3,
            LogLevel::Debug => 4,
            LogLevel::Trace => 5,
        }
    }
}

impl LogLevelFilter {
    /// The rank of the filter.
    pub fn rank(&self) -> (r: u8)
        ensures
            r == filter_rank(*self),
    {
        match self {
            LogLevelFilter::Off => 0,
            LogLevelFilter::Error => 1,
            LogLevelFilter::Warn => 2,
            LogLevelFilter::Info => 3,
            LogLevelFilter::Debug => 4,
            LogLevelFilter::Trace => 5,
        }
    }
}

/// Where a line goes: standard error or standard output.
#[derive(Debug, Clone, PartialEq, Eq)]
pub struct LogOutput {
    pub to_stderr: bool,
    pub text: String,
}

/// The host's logger: everything but traces, each line tagged with where it comes from.
#[derive(Debug, Clone, Copy, PartialEq, Eq)]
pub struct HostLogger;

/// The tag of a host line: `host` for the host's own modules, else the first part of the
/// target (up to the first `::`).
pub open spec fn spec_origin(is_host: bool, target: Seq<char>) -> Seq<char> {
    if is_host {
        "host"@
    } else {
        first_segment(target)
    }
}

/// The part of `s` before its first `::` (all of `s` when there is none).
pub open spec fn first_segment(s: Seq<char>) -> Seq<char>
    decreases s.len(),
{
    if s.len() < 2 {
        s
    } else if s[0] == ':' && s[1] == ':' {
        Seq::empty()
    } else {
        seq![s[0]] + first_segment(s.drop_first())
    }
}

/// The part of a text before its first `::`.
pub fn first_segment_of(s: &str) -> (r: String)
    ensures
        r@ == first_segment(s@),
{
    let v = chars_of(s);
    let mut i: usize = 0;
    assert(v@.skip(0) =~= v@);
    assert(v@.subrange(0, 0) + first_segment(v@) =~= first_segment(v@));
    while i < v.len()
        invariant
            v@ == s@,
            i <= v@.len(),
            first_segment(s@) == v@.subrange(0, i as int) + first_segment(v@.skip(i as int)),
        decreases v@.len() - i,
    {
        let ghost rest = v@.skip(i as int);
        if i + 1 < v.len() && v[i] == ':' && v[i + 1] == ':' {
            assert(rest[0] == ':' && rest[1] == ':');
            assert(first_segment(rest) == Seq::<char>::empty());
            assert(v@.subrange(0, i as int) + Seq::<char>::empty() =~= v@.subrange(0, i as int));
            return crate::text::slice_string(&v, 0, i);
        }
        if i + 1 == v.len() {
            assert(rest.len() == 1);
            assert(first_segment(rest) == rest);
            assert(v@.subrange(0, i as int) + rest =~= v@);
            return string_from_chars(v.as_slice());
        }
        assert(rest.drop_first() =~= v@.skip(i + 1));
        assert(first_segment(rest) == seq![v@[i as int]] + first_segment(v@.skip(i + 1)));
        assert(v@.subrange(0, i + 1) =~= v@.subrange(0, i as int) + seq![v@[i as int]]);
        i = i + 1;
    }
    assert(v@.skip(i as int) =~= Seq::<char>::empty());
    assert(v@.subrange(0, i as int) =~= v@);
    string_from_chars(v.as_slice())
}

impl HostLogger {
    /// Whether a record of this level is written: all but traces.
    pub fn enabled(&self, level: LogLevel) -> (b: bool)
        ensures
            b == (level != LogLevel::Trace),
    {
        level.rank() <= 3 || level.rank() == 1 || level.rank() == 2 || level.rank() == 4
    }

    /// The line written for a record, and where: nothing for a trace; errors go to standard
    /// error, the rest to standard output. A message that begins with `[` is written as it
    /// is; any other is tagged with its origin.
    pub fn format_record(&self, level: LogLevel, module: Option<&str>, target: &str, message: &str) -> (r: Option<LogOutput>)
        ensures
            level == LogLevel::Trace ==> r is None,
            level != LogLevel::Trace ==> (r matches Some(out) && {
                let is_host = match module {
                    Some(p) => has_prefix(p@, "hyperlight_agents"@),
                    None => false,
                } || has_prefix(target@, "hyperlight_agents"@);
                &&& out.to_stderr == (level == LogLevel::Error)
                &&& has_prefix(message@, "["@) ==> out.text@ == message@ + "\n"@
                &&& !has_prefix(message@, "["@) ==> out.text@ == "["@ + spec_origin(is_host, target@) + "] "@ + message@
                    + "\n"@
            }),
    {
        if !self.enabled(level) {
            return None;
        }
        let path = match module {
            Some(p) => p,
            None => "",
        };
        proof {
            reveal_strlit("");
            reveal_strlit("hyperlight_agents");
        }
        let is_host = starts_with(path, "hyperlight_agents") || starts_with(target, "hyperlight_agents");
        let text = if starts_with(message, "[") {
            concat2(message, "\n")
        } else {
            let origin = if is_host {
                String::from_str("host")
            } else {
                first_segment_of(target)
            };
            let head = concat3("[", origin.as_str(), "] ");
            concat3(head.as_str(), message, "\n")
        };
        Some(LogOutput { to_stderr: level.rank() == 1, text })
    }
}

/// Whether the agent's logger writes a record of `level` under the filter `filter`.
pub fn combined_enabled(level: LogLevel, filter: LogLevelFilter) -> (b: bool)
    ensures
        b == (level_rank(level) <= filter_rank(filter)),
{
    level.rank() <= filter.rank()
}

/// The line that the agent's logger writes (to the console and to the host).
pub fn combined_log_line(level: LogLevel, message: &str) -> (s: String)
    ensures
        s@ == level_name(level) + " - "@ + message@ + "\n"@,
{
    concat4(level.as_str(), " - ", message, "\n")
}

/// Whether a character ends a line of the log stream.
pub open spec fn is_line_break(c: char) -> bool {
    c == '\n' || c == '\r'
}

/// The lines of a text, each with the break that ends it, read from `cur` (the line being
/// read) and `acc` (the lines already read); and what follows the last break.
pub open spec fn lines_from(s: Seq<char>, cur: Seq<char>, acc: Seq<(Seq<char>, char)>) -> (Seq<(Seq<char>, char)>, Seq<char>)
    decreases s.len(),
{
    if s.len() == 0 {
        (acc, cur)
    } else if is_line_break(s[0]) {
        lines_from(s.drop_first(), Seq::empty(), acc.push((cur, s[0])))
    } else {
        lines_from(s.drop_first(), cur.push(s[0]), acc)
    }
}

/// The lines of a text, each with the break that ends it, and what follows the last break.
pub open spec fn split_lines(s: Seq<char>) -> (Seq<(Seq<char>, char)>, Seq<char>) {
    lines_from(s, Seq::empty(), Seq::empty())
}

/// The lines that are written: those that are not blank, in order.
pub open spec fn written_lines(pieces: Seq<(Seq<char>, char)>) -> Seq<Seq<char>>
    decreases pieces.len(),
{
    if pieces.len() == 0 {
        Seq::empty()
    } else {
        let rest = written_lines(pieces.drop_last());
        if is_blank_text(pieces.last().0) {
            rest
        } else {
            rest.push(pieces.last().0)
        }
    }
}

/// The text that the lines make when each is followed by its break.
pub open spec fn rejoin(pieces: Seq<(Seq<char>, char)>) -> Seq<char>
    decreases pieces.len(),
{
    if pieces.len() == 0 {
        Seq::empty()
    } else {
        rejoin(pieces.drop_last()) + pieces.last().0 + seq![pieces.last().1]
    }
}

/// Reading lines from `s` after `acc` and `cur` loses nothing: the lines found, then what
/// is left, make up `rejoin(acc) + cur + s`; and no line, nor what is left, holds a break.
pub proof fn lemma_lines_from_rejoin(s: Seq<char>, cur: Seq<char>, acc: Seq<(Seq<char>, char)>)
    requires
        forall|i: int| 0 <= i < cur.len() ==> !is_line_break(#[trigger] cur[i]),
        forall|k: int, i: int|
            0 <= k < acc.len() && 0 <= i < acc[k].0.len() ==> !is_line_break(#[trigger] acc[k].0[i]),
    ensures
        ({
            let (pieces, rest) = lines_from(s, cur, acc);
            &&& rejoin(pieces) + rest == rejoin(acc) + cur + s
            &&& forall|i: int| 0 <= i < rest.len() ==> !is_line_break(#[trigger] rest[i])
            &&& forall|k: int, i: int|
                0 <= k < pieces.len() && 0 <= i < pieces[k].0.len() ==> !is_line_break(
                    #[trigger] pieces[k].0[i],
                )
            &&& forall|k: int| 0 <= k < pieces.len() ==> is_line_break(#[trigger] pieces[k].1) || k < acc.len()
            &&& pieces.len() >= acc.len()
            &&& forall|k: int| 0 <= k < acc.len() ==> #[trigger] pieces[k] == acc[k]
        }),
    decreases s.len(),
{
    if s.len() == 0 {
        assert(rejoin(acc) + cur + s =~= rejoin(acc) + cur);
    } else if is_line_break(s[0]) {
        let acc2 = acc.push((cur, s[0]));
        assert(acc2.drop_last() =~= acc);
        assert forall|k: int, i: int| 0 <= k < acc2.len() && 0 <= i < acc2[k].0.len() implies !is_line_break(
            #[trigger] acc2[k].0[i],
        ) by {
            if k < acc.len() {
                assert(acc2[k] == acc[k]);
            } else {
                assert(acc2[k].0 == cur);
            }
        }
        lemma_lines_from_rejoin(s.drop_first(), Seq::empty(), acc2);
        assert(rejoin(acc2) == rejoin(acc) + cur + seq![s[0]]);
        assert(rejoin(acc2) + Seq::<char>::empty() + s.drop_first() =~= rejoin(acc) + cur + s);
        let (pieces, rest) = lines_from(s, cur, acc);
        assert forall|k: int| 0 <= k < pieces.len() implies is_line_break(#[trigger] pieces[k].1) || k < acc.len() by {
            if k == acc.len() {
                assert(pieces[k] == acc2[k]);
                assert(acc2[k].1 == s[0]);
            }
        }
        assert forall|k: int| 0 <= k < acc.len() implies #[trigger] pieces[k] == acc[k] by {
            assert(pieces[k] == acc2[k]);
        }
    } else {
        let cur2 = cur.push(s[0]);
        assert forall|i: int| 0 <= i < cur2.len() implies !is_line_break(#[trigger] cur2[i]) by {
            if i < cur.len() {
                assert(cur2[i] == cur[i]);
            }
        }
        lemma_lines_from_rejoin(s.drop_first(), cur2, acc);
        assert(rejoin(acc) + cur2 + s.drop_first() =~= rejoin(acc) + cur + s);
    }
}

/// Splitting the log stream into lines loses nothing: each line followed by its break, and
/// then what is left after the last break, give back the text; no line holds a break, and
/// each ends with one.
pub proof fn lemma_split_lines_rejoin(s: Seq<char>)
    ensures
        ({
            let (pieces, rest) = split_lines(s);
            &&& rejoin(pieces) + rest == s
            &&& forall|i: int| 0 <= i < rest.len() ==> !is_line_break(#[trigger] rest[i])
            &&& forall|k: int, i: int|
                0 <= k < pieces.len() && 0 <= i < pieces[k].0.len() ==> !is_line_break(
                    #[trigger] pieces[k].0[i],
                )
            &&& forall|k: int| 0 <= k < pieces.len() ==> is_line_break(#[trigger] pieces[k].1)
        }),
{
    lemma_lines_from_rejoin(s, Seq::empty(), Seq::empty());
    assert(rejoin(Seq::<(Seq<char>, char)>::empty()) + Seq::<char>::empty() + s =~= s);
}

/// Reading on from where an earlier reading stopped: the lines already read stay in front,
/// and what comes after them does not depend on them.
pub proof fn lemma_lines_from_acc(s: Seq<char>, cur: Seq<char>, acc: Seq<(Seq<char>, char)>)
    ensures
        lines_from(s, cur, acc).0 == acc + lines_from(s, cur, Seq::empty()).0,
        lines_from(s, cur, acc).1 == lines_from(s, cur, Seq::empty()).1,
    decreases s.len(),
{
    if s.len() == 0 {
        assert(acc + Seq::<(Seq<char>, char)>::empty() =~= acc);
    } else if is_line_break(s[0]) {
        let e = Seq::<(Seq<char>, char)>::empty();
        lemma_lines_from_acc(s.drop_first(), Seq::empty(), acc.push((cur, s[0])));
        lemma_lines_from_acc(s.drop_first(), Seq::empty(), e.push((cur, s[0])));
        assert(acc.push((cur, s[0])) =~= acc + e.push((cur, s[0])));
        let tail = lines_from(s.drop_first(), Seq::empty(), Seq::empty()).0;
        assert(acc.push((cur, s[0])) + tail =~= acc + (e.push((cur, s[0])) + tail));
    } else {
        lemma_lines_from_acc(s.drop_first(), cur.push(s[0]), acc);
    }
}

/// Reading a text in two parts is reading it whole.
pub proof fn lemma_lines_from_append(s1: Seq<char>, s2: Seq<char>, cur: Seq<char>, acc: Seq<(Seq<char>, char)>)
    ensures
        lines_from(s1 + s2, cur, acc) == lines_from(s2, lines_from(s1, cur, acc).1, lines_from(s1, cur, acc).0),
    decreases s1.len(),
{
    if s1.len() == 0 {
        assert(s1 + s2 =~= s2);
    } else {
        assert((s1 + s2)[0] == s1[0]);
        assert((s1 + s2).drop_first() =~= s1.drop_first() + s2);
        if is_line_break(s1[0]) {
            lemma_lines_from_append(s1.drop_first(), s2, Seq::empty(), acc.push((cur, s1[0])));
        } else {
            lemma_lines_from_append(s1.drop_first(), s2, cur.push(s1[0]), acc);
        }
    }
}

/// The lines written from two lists of lines one after the other.
pub proof fn lemma_written_lines_append(p1: Seq<(Seq<char>, char)>, p2: Seq<(Seq<char>, char)>)
    ensures
        written_lines(p1 + p2) == written_lines(p1) + written_lines(p2),
    decreases p2.len(),
{
    if p2.len() == 0 {
        assert(p1 + p2 =~= p1);
        assert(written_lines(p1) + Seq::<Seq<char>>::empty() =~= written_lines(p1));
    } else {
        lemma_written_lines_append(p1, p2.drop_last());
        assert((p1 + p2).drop_last() =~= p1 + p2.drop_last());
        assert((p1 + p2).last() == p2.last());
        if !is_blank_text(p2.last().0) {
            assert(written_lines(p1) + written_lines(p2.drop_last()).push(p2.last().0) =~= (written_lines(p1)
                + written_lines(p2.drop_last())).push(p2.last().0));
        }
    }
}

/// Where the log stream is cut into reads does not matter: the lines written from the first
/// part, then those written from what was left of it followed by the second part, are the
/// lines written from the whole; and the same text is left over.
pub proof fn lemma_split_lines_cut(s1: Seq<char>, s2: Seq<char>)
    ensures
        ({
            let (p1, r1) = split_lines(s1);
            let (p2, r2) = split_lines(r1 + s2);
            let (p, r) = split_lines(s1 + s2);
            &&& written_lines(p) == written_lines(p1) + written_lines(p2)
            &&& r == r2
        }),
{
    let e = Seq::<(Seq<char>, char)>::empty();
    let (p1, r1) = split_lines(s1);
    lemma_lines_from_append(s1, s2, Seq::empty(), e);
    lemma_lines_from_acc(s2, r1, p1);
    lemma_split_lines_rejoin(s1);
    lemma_lines_from_append(r1, s2, Seq::empty(), e);
    lemma_no_break_reads_whole(r1, Seq::empty());
    assert(Seq::<char>::empty() + r1 =~= r1);
    lemma_written_lines_append(p1, lines_from(s2, r1, e).0);
}

/// A text without line breaks is read as part of the current line.
pub proof fn lemma_no_break_reads_whole(s: Seq<char>, cur: Seq<char>)
    requires
        forall|i: int| 0 <= i < s.len() ==> !is_line_break(#[trigger] s[i]),
    ensures
        lines_from(s, cur, Seq::empty()) == (Seq::<(Seq<char>, char)>::empty(), cur + s),
    decreases s.len(),
{
    if s.len() == 0 {
        assert(cur + s =~= cur);
    } else {
        assert(!is_line_break(s[0]));
        assert forall|i: int| 0 <= i < s.drop_first().len() implies !is_line_break(#[trigger] s.drop_first()[i]) by {
            assert(s.drop_first()[i] == s[i + 1]);
        }
        lemma_no_break_reads_whole(s.drop_first(), cur.push(s[0]));
        assert(cur.push(s[0]) + s.drop_first() =~= cur + s);
    }
}

/// The log stream of one virtual machine: bytes not yet decoded (an incomplete character)
/// and the text after the last line break.
pub struct LogStream {
    pub pending: Vec<u8>,
    pub incomplete: String,
}

impl LogStream {
    /// A stream that has received nothing.
    pub fn new() -> (s: Self)
        ensures
            s.pending@ == Seq::<u8>::empty(),
            s.incomplete@ == Seq::<char>::empty(),
    {
        LogStream { pending: Vec::new(), incomplete: String::new() }
    }

    /// Takes in bytes that arrived. While the bytes held are not valid UTF-8 they are kept;
    /// once they are, their text is added to the incomplete line and split at line breaks:
    /// the lines that are not blank are given back, and what follows the last break is kept.
    pub fn feed(&mut self, bytes: &[u8]) -> (lines: Vec<String>)
        ensures
            ({
                let buf = old(self).pending@ + bytes@;
                if vstd::utf8::valid_utf8(buf) {
                    let (pieces, rest) = split_lines(old(self).incomplete@ + vstd::utf8::decode_utf8(buf));
                    &&& final(self).pending@ == Seq::<u8>::empty()
                    &&& final(self).incomplete@ == rest
                    &&& lines@.map_values(|l: String| l@) == written_lines(pieces)
                } else {
                    &&& final(self).pending@ == buf
                    &&& final(self).incomplete == old(self).incomplete
                    &&& lines@.len() == 0
                }
            }),
    {
        let mut i: usize = 0;
        while i < bytes.len()
            invariant
                i <= bytes@.len(),
                self.pending@ == old(self).pending@ + bytes@.subrange(0, i as int),
                self.incomplete == old(self).incomplete,
            decreases bytes@.len() - i,
        {
            self.pending.push(bytes[i]);
            i = i + 1;
            assert(self.pending@ =~= old(self).pending@ + bytes@.subrange(0, i as int));
        }
        assert(bytes@.subrange(0, bytes@.len() as int) =~= bytes@);
        let decoded = match string_from_utf8(self.pending.clone()) {
            Some(t) => t,
            None => {
                return Vec::new();
            },
        };
        self.pending = Vec::new();
        let text = concat2(self.incomplete.as_str(), decoded.as_str());
        let v = chars_of(text.as_str());
        let mut out: Vec<String> = Vec::new();
        let mut cur: Vec<char> = Vec::new();
        let ghost mut pieces: Seq<(Seq<char>, char)> = Seq::empty();
        let mut k: usize = 0;
        assert(v@.skip(0) =~= v@);
        assert(cur@ =~= Seq::<char>::empty());
        while k < v.len()
            invariant
                v@ == text@,
                k <= v@.len(),
                lines_from(v@.skip(k as int), cur@, pieces) == split_lines(text@),
                out@.map_values(|l: String| l@) == written_lines(pieces),
            decreases v@.len() - k,
        {
            let c = v[k];
            assert(v@.skip(k as int).drop_first() =~= v@.skip(k + 1));
            assert(v@.skip(k as int)[0] == c);
            if c == '\n' || c == '\r' {
                let line = string_from_chars(cur.as_slice());
                let ghost before = pieces;
                proof {
                    pieces = pieces.push((cur@, c));
                    assert(pieces.drop_last() =~= before);
                }
                if !is_blank(line.as_str()) {
                    let ghost out_before = out@;
                    out.push(line);
                    assert(out@.map_values(|l: String| l@) =~= out_before.map_values(|l: String| l@).push(cur@));
                }
                cur = Vec::new();
            } else {
                cur.push(c);
            }
            k = k + 1;
        }
        assert(v@.skip(k as int) =~= Seq::<char>::empty());
        self.incomplete = string_from_chars(cur.as_slice());
        out
    }

    /// The line written when the stream ends: what is left after the last break, unless it
    /// is blank.
    pub fn finish(&self) -> (r: Option<String>)
        ensures
            is_blank_text(self.incomplete@) ==> r is None,
            !is_blank_text(self.incomplete@) ==> r == Some(self.incomplete),
    {
        if is_blank(self.incomplete.as_str()) {
            None
        } else {
            Some(self.incomplete.clone())
        }
    }
}

/// How the host prints a line of a machine's log: the machine's id in brackets, then the
/// line.
pub fn machine_log_line(vm_id: &str, line: &str) -> (s: String)
    ensures
        s@ == "["@ + vm_id@ + "] "@ + line@,
{
    concat4("[", vm_id, "] ", line)
}

} // verus!
