//! Structured log formatting: one record, rendered either as a `logfmt`
//! line or as a single JSON object, with stable field order and typed
//! values. Writing the line to a sink is the caller's concern.
use vstd::prelude::*;

use crate::strutil::append_str;
use crate::strutil::chars_of;
use crate::strutil::dec_str;
use crate::strutil::push_char;
use crate::strutil::string_of;
use crate::strutil::u64_to_string;

verus! {

/// A log severity, most severe first.
#[derive(Debug, Clone, Copy, PartialEq, Eq, Structural, Hash)]
pub enum Level {
    Error,
    Warn,
    Info,
    Debug,
    Trace,
}

/// The rank of a severity: smaller is more severe.
pub open spec fn level_rank(l: Level) -> int {
    match l {
        Level::Error => 1,
        Level::Warn => 2,
        Level::Info => 3,
        Level::Debug => 4,
        Level::Trace => 5,
    }
}

/// The upper-case name of a severity.
pub open spec fn level_str(l: Level) -> Seq<char> {
    match l {
        Level::Error => "ERROR"@,
        Level::Warn => "WARN"@,
        Level::Info => "INFO"@,
        Level::Debug => "DEBUG"@,
        Level::Trace => "TRACE"@,
    }
}

impl Level {
    /// The upper-case name of this severity.
    pub fn as_str(&self) -> (r: &'static str)
        ensures
            r@ == level_str(*self),
    {
        match self {
            Level::Error => "ERROR",
            Level::Warn => "WARN",
            Level::Info => "INFO",
            Level::Debug => "DEBUG",
            Level::Trace => "TRACE",
        }
    }

    /// Whether a record of this severity passes a filter set to `max`.
    pub fn enabled_at(&self, max: Level) -> (r: bool)
        ensures
            r == (level_rank(*self) <= level_rank(max)),
    {
        self.rank() <= max.rank()
    }

    fn rank(&self) -> (r: u8)
        ensures
            r == level_rank(*self),
    {
        match self {
            Level::Error => 1,
            Level::Warn => 2,
            Level::Info => 3,
            Level::Debug => 4,
            Level::Trace => 5,
        }
    }

    /// Parse a severity name, any casing.
    pub fn parse(s: &str) -> (r: Option<Level>)
        ensures
            r == level_parse_spec(s@),
    {
        let cs = chars_of(s);
        let low = ascii_lower(cs.as_slice());
        proof {
            reveal_strlit("error");
            reveal_strlit("warn");
            reveal_strlit("info");
            reveal_strlit("debug");
            reveal_strlit("trace");
        }
        if crate::strutil::chars_eq_str(low.as_slice(), "error") {
            Some(Level::Error)
        } else if crate::strutil::chars_eq_str(low.as_slice(), "warn") {
            Some(Level::Warn)
        } else if crate::strutil::chars_eq_str(low.as_slice(), "info") {
            Some(Level::Info)
        } else if crate::strutil::chars_eq_str(low.as_slice(), "debug") {
            Some(Level::Debug)
        } else if crate::strutil::chars_eq_str(low.as_slice(), "trace") {
            Some(Level::Trace)
        } else {
            None
        }
    }
}

/// The severity a name denotes, any casing; unknown names denote nothing.
pub open spec fn level_parse_spec(s: Seq<char>) -> Option<Level> {
    let low = lower_seq(s);
    if low == "error"@ {
        Some(Level::Error)
    } else if low == "warn"@ {
        Some(Level::Warn)
    } else if low == "info"@ {
        Some(Level::Info)
    } else if low == "debug"@ {
        Some(Level::Debug)
    } else if low == "trace"@ {
        Some(Level::Trace)
    } else {
        None
    }
}

/// A letter lowered, when it is an ASCII capital.
pub open spec fn lower_char(c: char) -> char {
    if 'A' <= c && c <= 'Z' {
        ((c as int) + 32) as char
    } else {
        c
    }
}

pub open spec fn lower_seq(s: Seq<char>) -> Seq<char> {
    s.map_values(|c: char| lower_char(c))
}

/// Lower the ASCII capitals of a character slice.
pub fn ascii_lower(s: &[char]) -> (r: Vec<char>)
    ensures
        r@ == lower_seq(s@),
{
    let mut r: Vec<char> = Vec::new();
    let mut i: usize = 0;
    proof {
        assert(r@ =~= lower_seq(s@.subrange(0, 0)));
    }
    while i < s.len()
        invariant
            i <= s@.len(),
            r@ == lower_seq(s@.subrange(0, i as int)),
        decreases s@.len() - i,
    {
        let c = s[i];
        if c >= 'A' && c <= 'Z' {
            r.push(((c as u8) + 32) as char);
        } else {
            r.push(c);
        }
        i = i + 1;
        proof {
            assert(r@ =~= lower_seq(s@.subrange(0, i as int)));
        }
    }
    proof {
        assert(s@.subrange(0, s@.len() as int) =~= s@);
    }
    r
}

/// An output format.
#[derive(Debug, Clone, Copy, PartialEq, Eq, Structural, Hash)]
pub enum Format {
    LogFmt,
    Json,
    Butt,
}

/// The format a name denotes, any casing: unknown names fall back to
/// `logfmt`.
pub open spec fn format_parse_spec(s: Seq<char>) -> Format {
    let low = lower_seq(s);
    if low == "json"@ {
        Format::Json
    } else if low == "logfmt"@ || low == "text"@ {
        Format::LogFmt
    } else if low == "butt"@ {
        Format::Butt
    } else {
        Format::LogFmt
    }
}

impl Format {
    /// Parse a format name, any casing; unknown names give `logfmt`.
    pub fn from(value: &str) -> (r: Format)
        ensures
            r == format_parse_spec(value@),
    {
        let cs = chars_of(value);
        let low = ascii_lower(cs.as_slice());
        proof {
            reveal_strlit("json");
            reveal_strlit("logfmt");
            reveal_strlit("text");
            reveal_strlit("butt");
        }
        if crate::strutil::chars_eq_str(low.as_slice(), "json") {
            Format::Json
        } else if crate::strutil::chars_eq_str(low.as_slice(), "logfmt") {
            Format::LogFmt
        } else if crate::strutil::chars_eq_str(low.as_slice(), "text") {
            Format::LogFmt
        } else if crate::strutil::chars_eq_str(low.as_slice(), "butt") {
            Format::Butt
        } else {
            Format::LogFmt
        }
    }

    /// The name of this format.
    pub fn to_str(&self) -> (r: &'static str)
        ensures
            *self == Format::LogFmt ==> r@ == "logfmt"@,
            *self == Format::Json ==> r@ == "json"@,
            *self == Format::Butt ==> r@ == "butt"@,
    {
        match self {
            Format::LogFmt => "logfmt",
            Format::Json => "json",
            Format::Butt => "butt",
        }
    }
}

impl Default for Format {
    /// The plain text format.
    fn default() -> (r: Format)
        ensures
            r == Format::LogFmt,
    {
        Format::LogFmt
    }
}

/// The logger configuration: a severity filter and an output format.
#[derive(Debug, Clone, Copy)]
pub struct Config {
    pub level: Level,
    pub format: Format,
}

impl Config {
    /// The defaults: informational records, plain text.
    pub fn new() -> (r: Config)
        ensures
            r.level == Level::Info,
            r.format == Format::LogFmt,
    {
        Config { level: Level::Info, format: Format::LogFmt }
    }

    /// The same configuration with another severity filter.
    pub fn level(self, lvl: Level) -> (r: Config)
        ensures
            r.level == lvl,
            r.format == self.format,
    {
        Config { level: lvl, format: self.format }
    }

    /// The same configuration with another output format.
    pub fn format(self, format: Format) -> (r: Config)
        ensures
            r.format == format,
            r.level == self.level,
    {
        Config { level: self.level, format: format }
    }
}

/// A typed log value. A number rendered upstream travels as `Num` and is
/// written bare in both formats.
#[derive(Debug)]
pub enum Value {
    Str(String),
    U64(u64),
    I64(i64),
    Bool(bool),
    Null,
    Num(String),
}

/// One log record, already stamped with its time.
#[derive(Debug)]
pub struct LogRecord {
    pub time: String,
    pub level: Level,
    pub target: String,
    pub msg: String,
    pub kv: Vec<(String, Value)>,
}

/// The decimal text of a signed integer.
pub open spec fn i64_str(x: int) -> Seq<char> {
    if x < 0 {
        seq!['-'] + dec_str((-x) as nat)
    } else {
        dec_str(x as nat)
    }
}

pub open spec fn bool_str(b: bool) -> Seq<char> {
    if b {
        "true"@
    } else {
        "false"@
    }
}

/// Whether a text holds a space character.
pub open spec fn has_space(s: Seq<char>) -> bool {
    exists|i: int| 0 <= i < s.len() && s[i] == ' '
}

/// The `logfmt` text of a value: strings with spaces are quoted, other
/// strings bare; numbers and booleans in their natural form; null as
/// `nil`.
pub open spec fn logfmt_value(v: Value) -> Seq<char> {
    match v {
        Value::Str(s) => if has_space(s@) {
            seq!['"'] + s@ + seq!['"']
        } else {
            s@
        },
        Value::U64(x) => dec_str(x as nat),
        Value::I64(x) => i64_str(x as int),
        Value::Bool(b) => bool_str(b),
        Value::Null => "nil"@,
        Value::Num(s) => s@,
    }
}

/// The `logfmt` text of the pairs, each one ` key=value`.
pub open spec fn logfmt_pairs(kv: Seq<(String, Value)>) -> Seq<char>
    decreases kv.len(),
{
    if kv.len() == 0 {
        Seq::<char>::empty()
    } else {
        logfmt_pairs(kv.drop_last()) + seq![' '] + kv.last().0@ + seq!['='] + logfmt_value(
            kv.last().1,
        )
    }
}

/// The `logfmt` line of a record.
pub open spec fn logfmt_text(
    time: Seq<char>,
    level: Level,
    target: Seq<char>,
    msg: Seq<char>,
    kv: Seq<(String, Value)>,
) -> Seq<char> {
    "time=\""@ + time + "\" level="@ + level_str(level) + " target="@ + target + " msg=\""@ + msg
        + seq!['"'] + logfmt_pairs(kv)
}

/// A JSON string escape: quotes and backslashes escaped, control
/// characters by their short names or as `\u00..`.
pub open spec fn esc_char(c: char) -> Seq<char> {
    if c == '"' {
        seq!['\\', '"']
    } else if c == '\\' {
        seq!['\\', '\\']
    } else if c == '\n' {
        seq!['\\', 'n']
    } else if c == '\r' {
        seq!['\\', 'r']
    } else if c == '\t' {
        seq!['\\', 't']
    } else if c as u32 == 8 {
        seq!['\\', 'b']
    } else if c as u32 == 12 {
        seq!['\\', 'f']
    } else if (c as u32) < 32 {
        seq!['\\', 'u', '0', '0', hex_char(((c as u32) / 16) as int), hex_char(((c as u32) % 16) as int)]
    } else {
        seq![c]
    }
}

pub open spec fn hex_char(i: int) -> char {
    if i < 10 {
        (48 + i) as char
    } else {
        (97 + i - 10) as char
    }
}

/// The escaped JSON text of a string body.
pub open spec fn esc(s: Seq<char>) -> Seq<char>
    decreases s.len(),
{
    if s.len() == 0 {
        Seq::<char>::empty()
    } else {
        esc(s.drop_last()) + esc_char(s.last())
    }
}

/// The JSON text of a value.
pub open spec fn json_value(v: Value) -> Seq<char> {
    match v {
        Value::Str(s) => seq!['"'] + esc(s@) + seq!['"'],
        Value::U64(x) => dec_str(x as nat),
        Value::I64(x) => i64_str(x as int),
        Value::Bool(b) => bool_str(b),
        Value::Null => "null"@,
        Value::Num(s) => s@,
    }
}

/// The JSON text of the pairs, each one `,"key":value`.
pub open spec fn json_pairs(kv: Seq<(String, Value)>) -> Seq<char>
    decreases kv.len(),
{
    if kv.len() == 0 {
        Seq::<char>::empty()
    } else {
        json_pairs(kv.drop_last()) + seq![','] + seq!['"'] + esc(kv.last().0@) + seq!['"', ':']
            + json_value(kv.last().1)
    }
}

/// The JSON object of a record: `time`, `level`, `target`, `msg`, then
/// the pairs in record order.
pub open spec fn json_text(
    time: Seq<char>,
    level: Level,
    target: Seq<char>,
    msg: Seq<char>,
    kv: Seq<(String, Value)>,
) -> Seq<char> {
    "{\"time\":\""@ + esc(time) + "\",\"level\":\""@ + level_str(level) + "\",\"target\":\""@
        + esc(target) + "\",\"msg\":\""@ + esc(msg) + seq!['"'] + json_pairs(kv) + seq!['}']
}

/// Escape a string body for JSON.
pub fn escape_json(s: &str) -> (r: Vec<char>)
    ensures
        r@ == esc(s@),
{
    let cs = chars_of(s);
    let mut out: Vec<char> = Vec::new();
    let mut i: usize = 0;
    proof {
        assert(out@ =~= esc(s@.subrange(0, 0)));
    }
    while i < cs.len()
        invariant
            i <= cs@.len(),
            cs@ == s@,
            out@ == esc(s@.subrange(0, i as int)),
        decreases cs@.len() - i,
    {
        let c = cs[i];
        if c == '"' {
            out.push('\\');
            out.push('"');
        } else if c == '\\' {
            out.push('\\');
            out.push('\\');
        } else if c == '\n' {
            out.push('\\');
            out.push('n');
        } else if c == '\r' {
            out.push('\\');
            out.push('r');
        } else if c == '\t' {
            out.push('\\');
            out.push('t');
        } else if (c as u32) == 8 {
            out.push('\\');
            out.push('b');
        } else if (c as u32) == 12 {
            out.push('\\');
            out.push('f');
        } else if (c as u32) < 32 {
            out.push('\\');
            out.push('u');
            out.push('0');
            out.push('0');
            let hi = ((c as u32) / 16) as u8;
            let lo = ((c as u32) % 16) as u8;
            out.push(hex_digit(hi));
            out.push(hex_digit(lo));
        } else {
            out.push(c);
        }
        i = i + 1;
        proof {
            assert(s@.subrange(0, i as int).drop_last() =~= s@.subrange(0, i - 1));
            assert(s@.subrange(0, i as int).last() == c);
            assert(out@ =~= esc(s@.subrange(0, i as int)));
        }
    }
    proof {
        assert(s@.subrange(0, s@.len() as int) =~= s@);
    }
    out
}

/// A lower-case hexadecimal digit.
fn hex_digit(i: u8) -> (r: char)
    requires
        i < 16,
    ensures
        r == hex_char(i as int),
{
    if i < 10 {
        (48 + i) as char
    } else {
        (97 + i - 10) as char
    }
}

/// The decimal text of a signed integer.
pub fn i64_to_string(x: i64) -> (r: String)
    ensures
        r@ == i64_str(x as int),
{
    if x >= 0 {
        u64_to_string(x as u64)
    } else {
        let m: u64 = ((-(x + 1)) as u64) + 1;
        let digits = u64_to_string(m);
        let mut r = String::new();
        push_char(&mut r, '-');
        append_str(&mut r, digits.as_str());
        proof {
            assert(Seq::<char>::empty().push('-') + dec_str(m as nat) =~= seq!['-'] + dec_str(
                m as nat,
            ));
        }
        r
    }
}

/// Whether a text holds a space.
fn contains_space(s: &str) -> (r: bool)
    ensures
        r == has_space(s@),
{
    let n: usize = s.unicode_len();
    let mut i: usize = 0;
    while i < n
        invariant
            n == s@.len(),
            i <= n,
            forall|j: int| 0 <= j < i ==> s@[j] != ' ',
        decreases n - i,
    {
        if s.get_char(i) == ' ' {
            return true;
        }
        i = i + 1;
    }
    false
}

/// Append the `logfmt` text of a value.
fn push_logfmt_value(out: &mut String, v: &Value)
    ensures
        final(out)@ == old(out)@ + logfmt_value(*v),
{
    match v {
        Value::Str(s) => {
            if contains_space(s.as_str()) {
                push_char(out, '"');
                append_str(out, s.as_str());
                push_char(out, '"');
                proof {
                    assert(old(out)@.push('"') + s@ =~= old(out)@ + (seq!['"'] + s@));
                    assert((old(out)@ + (seq!['"'] + s@)).push('"') =~= old(out)@ + (seq!['"'] + s@
                        + seq!['"']));
                }
            } else {
                append_str(out, s.as_str());
            }
        },
        Value::U64(x) => {
            let t = u64_to_string(*x);
            append_str(out, t.as_str());
        },
        Value::I64(x) => {
            let t = i64_to_string(*x);
            append_str(out, t.as_str());
        },
        Value::Bool(b) => {
            if *b {
                append_str(out, "true");
            } else {
                append_str(out, "false");
            }
        },
        Value::Null => {
            append_str(out, "nil");
        },
        Value::Num(s) => {
            append_str(out, s.as_str());
        },
    }
}

/// Render a record as one `logfmt` line.
pub fn format_logfmt(rec: &LogRecord) -> (r: String)
    ensures
        r@ == logfmt_text(rec.time@, rec.level, rec.target@, rec.msg@, rec.kv@),
{
    let mut out = String::new();
    append_str(&mut out, "time=\"");
    append_str(&mut out, rec.time.as_str());
    append_str(&mut out, "\" level=");
    append_str(&mut out, rec.level.as_str());
    append_str(&mut out, " target=");
    append_str(&mut out, rec.target.as_str());
    append_str(&mut out, " msg=\"");
    append_str(&mut out, rec.msg.as_str());
    push_char(&mut out, '"');
    let ghost head = out@;
    let mut i: usize = 0;
    proof {
        assert(logfmt_pairs(rec.kv@.subrange(0, 0)) =~= Seq::<char>::empty());
        assert(out@ =~= head + logfmt_pairs(rec.kv@.subrange(0, 0)));
    }
    while i < rec.kv.len()
        invariant
            i <= rec.kv@.len(),
            out@ == head + logfmt_pairs(rec.kv@.subrange(0, i as int)),
        decreases rec.kv@.len() - i,
    {
        push_char(&mut out, ' ');
        append_str(&mut out, rec.kv[i].0.as_str());
        push_char(&mut out, '=');
        push_logfmt_value(&mut out, &rec.kv[i].1);
        i = i + 1;
        proof {
            assert(rec.kv@.subrange(0, i as int).drop_last() =~= rec.kv@.subrange(0, i - 1));
            assert(rec.kv@.subrange(0, i as int).last() == rec.kv@[i - 1]);
            assert(out@ =~= head + logfmt_pairs(rec.kv@.subrange(0, i as int)));
        }
    }
    proof {
        assert(rec.kv@.subrange(0, rec.kv@.len() as int) =~= rec.kv@);
        assert(out@ =~= logfmt_text(rec.time@, rec.level, rec.target@, rec.msg@, rec.kv@));
    }
    out
}

/// Append the JSON text of a value.
fn push_json_value(out: &mut String, v: &Value)
    ensures
        final(out)@ == old(out)@ + json_value(*v),
{
    match v {
        Value::Str(s) => {
            push_char(out, '"');
            let e = escape_json(s.as_str());
            let es = string_of(e.as_slice());
            append_str(out, es.as_str());
            push_char(out, '"');
            proof {
                assert(old(out)@.push('"') + esc(s@) =~= old(out)@ + (seq!['"'] + esc(s@)));
                assert((old(out)@ + (seq!['"'] + esc(s@))).push('"') =~= old(out)@ + (seq!['"']
                    + esc(s@) + seq!['"']));
            }
        },
        Value::U64(x) => {
            let t = u64_to_string(*x);
            append_str(out, t.as_str());
        },
        Value::I64(x) => {
            let t = i64_to_string(*x);
            append_str(out, t.as_str());
        },
        Value::Bool(b) => {
            if *b {
                append_str(out, "true");
            } else {
                append_str(out, "false");
            }
        },
        Value::Null => {
            append_str(out, "null");
        },
        Value::Num(s) => {
            append_str(out, s.as_str());
        },
    }
}

/// Render a record as one JSON object.
pub fn format_json(rec: &LogRecord) -> (r: String)
    ensures
        r@ == json_text(rec.time@, rec.level, rec.target@, rec.msg@, rec.kv@),
{
    let mut out = String::new();
    append_str(&mut out, "{\"time\":\"");
    let te = escape_json(rec.time.as_str());
    let ts = string_of(te.as_slice());
    append_str(&mut out, ts.as_str());
    append_str(&mut out, "\",\"level\":\"");
    append_str(&mut out, rec.level.as_str());
    append_str(&mut out, "\",\"target\":\"");
    let ge = escape_json(rec.target.as_str());
    let gs = string_of(ge.as_slice());
    append_str(&mut out, gs.as_str());
    append_str(&mut out, "\",\"msg\":\"");
    let me = escape_json(rec.msg.as_str());
    let ms = string_of(me.as_slice());
    append_str(&mut out, ms.as_str());
    push_char(&mut out, '"');
    let ghost head = out@;
    let mut i: usize = 0;
    proof {
        assert(json_pairs(rec.kv@.subrange(0, 0)) =~= Seq::<char>::empty());
        assert(out@ =~= head + json_pairs(rec.kv@.subrange(0, 0)));
    }
    while i < rec.kv.len()
        invariant
            i <= rec.kv@.len(),
            out@ == head + json_pairs(rec.kv@.subrange(0, i as int)),
        decreases rec.kv@.len() - i,
    {
        push_char(&mut out, ',');
        push_char(&mut out, '"');
        let ke = escape_json(rec.kv[i].0.as_str());
        let ks = string_of(ke.as_slice());
        append_str(&mut out, ks.as_str());
        push_char(&mut out, '"');
        push_char(&mut out, ':');
        push_json_value(&mut out, &rec.kv[i].1);
        i = i + 1;
        proof {
            assert(rec.kv@.subrange(0, i as int).drop_last() =~= rec.kv@.subrange(0, i - 1));
            assert(rec.kv@.subrange(0, i as int).last() == rec.kv@[i - 1]);
            assert(out@ =~= head + json_pairs(rec.kv@.subrange(0, i as int)));
        }
    }
    push_char(&mut out, '}');
    proof {
        assert(rec.kv@.subrange(0, rec.kv@.len() as int) =~= rec.kv@);
        assert(out@ =~= json_text(rec.time@, rec.level, rec.target@, rec.msg@, rec.kv@));
    }
    out
}

/// A record formatter.
pub trait Fmt {
    /// The text this formatter writes for a record.
    spec fn spec_render(&self, rec: &LogRecord) -> Seq<char>;

    /// Render one record.
    fn render(&self, rec: &LogRecord) -> (r: String)
        ensures
            r@ == self.spec_render(rec),
    ;
}

/// The `logfmt` line formatter.
#[derive(Debug, Clone, Copy)]
pub struct LogFmt;

/// The JSON object formatter.
#[derive(Debug, Clone, Copy)]
pub struct JsonFmt;

/// A joke formatter: every record reads `butt`.
#[derive(Debug, Clone, Copy)]
pub struct ButtFmt;

impl Fmt for LogFmt {
    open spec fn spec_render(&self, rec: &LogRecord) -> Seq<char> {
        logfmt_text(rec.time@, rec.level, rec.target@, rec.msg@, rec.kv@)
    }

    fn render(&self, rec: &LogRecord) -> (r: String) {
        format_logfmt(rec)
    }
}

impl Fmt for JsonFmt {
    open spec fn spec_render(&self, rec: &LogRecord) -> Seq<char> {
        json_text(rec.time@, rec.level, rec.target@, rec.msg@, rec.kv@)
    }

    fn render(&self, rec: &LogRecord) -> (r: String) {
        format_json(rec)
    }
}

impl Fmt for ButtFmt {
    open spec fn spec_render(&self, rec: &LogRecord) -> Seq<char> {
        "butt"@
    }

    fn render(&self, rec: &LogRecord) -> (r: String) {
        let mut out = String::new();
        append_str(&mut out, "butt");
        proof {
            assert(Seq::<char>::empty() + "butt"@ =~= "butt"@);
        }
        out
    }
}

/// Relies on chrono's `Utc::now` and `to_rfc3339_opts`: the current UTC
/// time, written to seconds with a trailing `Z`. The value depends on the
/// clock, so only the shape is promised: a date, `T`, a time, and the `Z`,
/// at least twenty characters in all.
#[verifier::external_body]
fn now_rfc3339() -> (r: String)
    ensures
        r@.len() >= 20,
        r@[r@.len() - 1] == 'Z',
{
    chrono::Utc::now().to_rfc3339_opts(chrono::SecondsFormat::Secs, true)
}

/// Render a record stamped with the current time, in the chosen format.
pub fn format_record_now(
    format: Format,
    level: Level,
    target: &str,
    msg: &str,
    kv: Vec<(String, Value)>,
) -> (r: String)
    ensures
        exists|t: Seq<char>|
            t.len() >= 20 && t[t.len() - 1] == 'Z' && r@ == #[trigger] rendered_text(
                format,
                t,
                level,
                target@,
                msg@,
                kv@,
            ),
{
    let time = now_rfc3339();
    let ghost t = time@;
    let rec = LogRecord {
        time: time,
        level: level,
        target: target.to_owned(),
        msg: msg.to_owned(),
        kv: kv,
    };
    let r = match format {
        Format::LogFmt => format_logfmt(&rec),
        Format::Json => format_json(&rec),
        Format::Butt => {
            let b = ButtFmt;
            b.render(&rec)
        },
    };
    proof {
        assert(r@ == rendered_text(format, t, level, target@, msg@, kv@));
    }
    r
}

/// The text of a record in a format.
pub open spec fn rendered_text(
    format: Format,
    time: Seq<char>,
    level: Level,
    target: Seq<char>,
    msg: Seq<char>,
    kv: Seq<(String, Value)>,
) -> Seq<char> {
    match format {
        Format::LogFmt => logfmt_text(time, level, target, msg, kv),
        Format::Json => json_text(time, level, target, msg, kv),
        Format::Butt => "butt"@,
    }
}

} // verus!
