use crate::textfmt::{push_u64, spec_dec, spec_digit};
use vstd::prelude::*;
use vstd::string::StringExecFns;

verus! {

#[verifier::external_type_specification]
#[verifier::external_body]
pub struct ExValue(serde_json::Value);

/// The character for one hexadecimal digit, lower case.
pub open spec fn spec_hex_digit(d: nat) -> char {
    if d < 10 {
        spec_digit(d)
    } else if d == 10 {
        'a'
    } else if d == 11 {
        'b'
    } else if d == 12 {
        'c'
    } else if d == 13 {
        'd'
    } else if d == 14 {
        'e'
    } else {
        'f'
    }
}

/// How one character appears inside a JSON string: double quote and
/// backslash get a backslash escape, the five control characters with short
/// escapes use them, any other control character becomes `\u00` plus two
/// lower-case hex digits, and everything else stands for itself.
pub open spec fn spec_escape_char(c: char) -> Seq<char> {
    if c == '"' {
        seq!['\\', '"']
    } else if c == '\\' {
        seq!['\\', '\\']
    } else if c == '\u{8}' {
        seq!['\\', 'b']
    } else if c == '\t' {
        seq!['\\', 't']
    } else if c == '\n' {
        seq!['\\', 'n']
    } else if c == '\u{c}' {
        seq!['\\', 'f']
    } else if c == '\r' {
        seq!['\\', 'r']
    } else if (c as u32) < 32 {
        seq!['\\', 'u', '0', '0'] + seq![
            spec_hex_digit(((c as u32) / 16) as nat),
            spec_hex_digit(((c as u32) % 16) as nat),
        ]
    } else {
        seq![c]
    }
}

/// The body of a JSON string: every character escaped as JSON asks.
pub open spec fn spec_escape(s: Seq<char>) -> Seq<char>
    decreases s.len(),
{
    if s.len() == 0 {
        Seq::empty()
    } else {
        spec_escape_char(s[0]) + spec_escape(s.drop_first())
    }
}

/// The JSON string literal for the text `s`: the escaped body between
/// double quotes.
pub open spec fn spec_json_string(s: Seq<char>) -> Seq<char> {
    seq!['"'] + spec_escape(s) + seq!['"']
}

/// Relies on serde_json's string serialization (`Value::String` printed
/// through `Display`): the result is the input between double quotes, with
/// `"`, `\` and the control characters escaped exactly as
/// `spec_json_string` states, and nothing else changed.
#[verifier::external_body]
pub(crate) fn json_string(s: &str) -> (r: String)
    ensures
        r@ == spec_json_string(s@),
{
    serde_json::Value::String(s.to_owned()).to_string()
}

/// Relies on serde_json's `Value::Null`: the payload an argument-less span
/// carries into its trace event.
#[verifier::external_body]
pub(crate) fn value_null() -> serde_json::Value {
    serde_json::Value::Null
}

/// Relies on serde_json's `Display` for `Value`: it renders any value as
/// compact JSON text, which is never empty, and cannot fail for a `Value`.
#[verifier::external_body]
pub(crate) fn value_to_json(v: &serde_json::Value) -> (r: String)
    ensures
        r@.len() >= 1,
{
    v.to_string()
}

/// The bytes appended to the trace sink for one completed span: a JSON
/// object with the span's label (already a JSON string literal), the
/// complete-event phase marker `X`, start timestamp and duration in
/// microseconds, process and thread ids, the argument payload (already
/// JSON text), and the separator that keeps the sink a JSON array.
pub open spec fn spec_event_line(
    name_json: Seq<char>,
    ts: nat,
    dur: nat,
    pid: nat,
    tid: nat,
    args_json: Seq<char>,
) -> Seq<char> {
    "{\"name\":"@ + name_json + ",\"ph\":\"X\",\"ts\":"@ + spec_dec(ts) + ",\"dur\":"@ + spec_dec(
        dur,
    ) + ",\"pid\":"@ + spec_dec(pid) + ",\"tid\":"@ + spec_dec(tid) + ",\"args\":"@ + args_json
        + "},\n"@
}

/// Builds the trace-sink bytes for one completed span, from the span's
/// label, its timing in microseconds, the process and thread ids, and its
/// argument payload already rendered as JSON text.
pub fn event_line(name: &str, ts_us: u64, dur_us: u64, pid: u64, tid: u64, args_json: &str) -> (r:
    String)
    ensures
        r@ == spec_event_line(
            spec_json_string(name@),
            ts_us as nat,
            dur_us as nat,
            pid as nat,
            tid as nat,
            args_json@,
        ),
{
    let mut out = String::new();
    out.append("{\"name\":");
    let quoted = json_string(name);
    out.append(quoted.as_str());
    out.append(",\"ph\":\"X\",\"ts\":");
    push_u64(&mut out, ts_us);
    out.append(",\"dur\":");
    push_u64(&mut out, dur_us);
    out.append(",\"pid\":");
    push_u64(&mut out, pid);
    out.append(",\"tid\":");
    push_u64(&mut out, tid);
    out.append(",\"args\":");
    out.append(args_json);
    out.append("},\n");
    proof {
        assert(out@ =~= spec_event_line(
            spec_json_string(name@),
            ts_us as nat,
            dur_us as nat,
            pid as nat,
            tid as nat,
            args_json@,
        ));
    }
    out
}

/// The text written once when the trace sink is first opened: the opening
/// bracket of the JSON array that the events extend. The array is never
/// closed here; finishing it is the trace consumer's task.
pub fn sink_header() -> (r: String)
    ensures
        r@ == "[\n"@,
{
    String::from_str("[\n")
}

/// Where the process-wide trace sink stands: untouched, settled without a
/// destination, or open with the header written.
pub enum SinkState {
    Uninitialized,
    NoSink,
    Open,
}

/// The process-wide trace sink as a state machine: it starts untouched and
/// moves exactly once, on the first span completion, to `Open` (a
/// destination was configured and could be created) or `NoSink` (none was,
/// or creating it failed); it never returns to `Uninitialized` and is never
/// re-initialized.
pub struct TraceSink {
    pub state: SinkState,
}

impl TraceSink {
    pub open spec fn is_uninitialized(&self) -> bool {
        self.state is Uninitialized
    }

    pub open spec fn is_open_spec(&self) -> bool {
        self.state is Open
    }

    /// A sink nothing has touched yet.
    pub fn new() -> (s: TraceSink)
        ensures
            s.is_uninitialized(),
    {
        TraceSink { state: SinkState::Uninitialized }
    }

    /// Whether the one-time initialization still has to run.
    pub fn needs_init(&self) -> (r: bool)
        ensures
            r == self.is_uninitialized(),
    {
        match self.state {
            SinkState::Uninitialized => true,
            _ => false,
        }
    }

    /// The single guarded transition: records whether the destination was
    /// opened. It takes the sink out of `Uninitialized` for good; no
    /// operation leads back.
    pub fn complete_init(&mut self, opened: bool)
        requires
            old(self).is_uninitialized(),
        ensures
            final(self).is_open_spec() == opened,
            !final(self).is_uninitialized(),
    {
        if opened {
            self.state = SinkState::Open;
        } else {
            self.state = SinkState::NoSink;
        }
    }

    /// Whether events should be written to the destination.
    pub fn is_open(&self) -> (r: bool)
        ensures
            r == self.is_open_spec(),
    {
        match self.state {
            SinkState::Open => true,
            _ => false,
        }
    }
}

} // verus!
