use crate::duration::{in_micros, in_millis, Duration};
use crate::event::{event_line, spec_event_line, spec_json_string, value_null, value_to_json};
use crate::report::{render, spec_report, Record};
use vstd::prelude::*;

verus! {

/// A live span: what `start` hands the caller and what comes back at
/// disposal. It carries only the span's label and the structured argument
/// payload for the trace event; the timing lives on the thread's span
/// stack.
pub struct Profiler {
    pub desc: String,
    pub args: serde_json::Value,
}

impl Profiler {
    /// Attaches a structured payload to the span, to be emitted with its
    /// trace event; a second call replaces the first. The label is
    /// untouched.
    pub fn args(&mut self, args: serde_json::Value)
        ensures
            final(self).desc == old(self).desc,
            final(self).args == args,
    {
        self.args = args;
    }
}

/// One thread's share of the engine: the enabled level fixed when the
/// thread first touches the profiler, the stack of start instants of the
/// spans still in progress, the buffer of finished spans, and the latest
/// clock reading seen. Instants are nanosecond readings of one monotonic
/// clock, counted from the process-wide reference. The ghost `emitted`
/// field records, for each event handed to the open trace sink by this
/// thread, its start and duration in microseconds and its exact completion
/// instant.
pub struct ThreadState {
    pub level: Option<usize>,
    pub stack: Vec<u64>,
    pub records: Vec<Record>,
    pub last_now: u64,
    pub emitted: Ghost<Seq<(u64, u64, u64)>>,
}

/// What a span's disposal returns to its surroundings: the bytes for the
/// trace sink, present exactly when the sink is open, and the rendered
/// report, present exactly when the outermost span of the thread finished.
pub struct FinishOutput {
    pub event: Option<String>,
    pub report: Option<String>,
}

impl ThreadState {
    /// Instrumentation is off when no level was configured.
    pub open spec fn enabled(&self) -> bool {
        self.level is Some
    }

    /// The state every operation preserves: spans lower on the stack
    /// started no later than those above them, no span started after the
    /// latest clock reading, and the events already emitted completed in
    /// order, none after the latest clock reading.
    pub open spec fn wf(&self) -> bool {
        &&& forall|k: int, j: int|
            0 <= k <= j < self.stack@.len() ==> self.stack@[k] <= self.stack@[j]
        &&& forall|k: int| 0 <= k < self.stack@.len() ==> self.stack@[k] <= self.last_now
        &&& forall|k: int|
            #![trigger self.emitted@[k]]
            0 <= k && k + 1 < self.emitted@.len() ==> self.emitted@[k].2 <= self.emitted@[k + 1].2
        &&& self.emitted@.len() > 0 ==> self.emitted@.last().2 <= self.last_now
    }

    /// A fresh thread state: nothing in progress, nothing buffered,
    /// instrumentation at the configured level (`None` = disabled).
    pub fn new(level: Option<usize>) -> (st: ThreadState)
        ensures
            st.wf(),
            st.level == level,
            st.stack@ == Seq::<u64>::empty(),
            st.records@ == Seq::<Record>::empty(),
            st.last_now == 0,
            st.emitted@ == Seq::<(u64, u64, u64)>::empty(),
    {
        ThreadState {
            level,
            stack: Vec::new(),
            records: Vec::new(),
            last_now: 0,
            emitted: Ghost(Seq::empty()),
        }
    }

    /// Whether spans are being measured at all.
    pub fn is_enabled(&self) -> (r: bool)
        ensures
            r == self.enabled(),
    {
        match self.level {
            Some(_) => true,
            None => false,
        }
    }

    /// How many spans are in progress on this thread.
    pub fn depth(&self) -> (r: usize)
        ensures
            r == self.stack@.len(),
    {
        self.stack.len()
    }

    /// The latest clock reading this state has seen.
    pub fn latest(&self) -> (r: u64)
        ensures
            r == self.last_now,
    {
        self.last_now
    }
}

/// Begins a span labelled `desc` at instant `now_ns`. Disabled, it touches
/// nothing and returns an inert handle with an empty label; enabled, it
/// pushes the start instant on the thread's span stack and hands back the
/// handle carrying the label and an empty payload.
pub fn start(st: &mut ThreadState, now_ns: u64, desc: String) -> (p: Profiler)
    requires
        old(st).wf(),
        old(st).enabled() ==> now_ns >= old(st).last_now,
    ensures
        final(st).wf(),
        !old(st).enabled() ==> *final(st) == *old(st) && p.desc@ == Seq::<char>::empty(),
        old(st).enabled() ==> ({
            &&& final(st).stack@ == old(st).stack@.push(now_ns)
            &&& final(st).records == old(st).records
            &&& final(st).level == old(st).level
            &&& final(st).emitted == old(st).emitted
            &&& final(st).last_now == now_ns
            &&& p.desc == desc
        }),
{
    if st.is_enabled() {
        st.stack.push(now_ns);
        st.last_now = now_ns;
        Profiler { desc, args: value_null() }
    } else {
        Profiler { desc: String::new(), args: value_null() }
    }
}

/// The record that disposing the innermost span of `pre` at instant
/// `now_ns` appends to the buffer: the stack depth left after the pop, the
/// duration in whole milliseconds, and the span's label.
pub open spec fn finished_record(pre: ThreadState, desc: String, now_ns: u64) -> Record {
    (Record {
        depth: (pre.stack@.len() - 1) as usize,
        ms: ((now_ns - pre.stack@.last()) / 1_000_000) as u64,
        label: desc,
    })
}

/// Everything `finish` does when instrumentation is enabled, relating the
/// state before (`pre`) and after (`post`): the innermost span is popped,
/// its record joins the buffer, the sink — when open — receives exactly
/// one event line for it, and the outermost span's completion renders and
/// clears the buffer.
pub open spec fn finish_post(
    pre: ThreadState,
    p: Profiler,
    now_ns: u64,
    pid: u64,
    tid: u64,
    sink_open: bool,
    post: ThreadState,
    out: FinishOutput,
) -> bool {
    let start_ns = pre.stack@.last();
    let depth = pre.stack@.len() - 1;
    let rec = finished_record(pre, p.desc, now_ns);
    &&& post.level == pre.level
    &&& post.stack@ == pre.stack@.drop_last()
    &&& post.last_now == now_ns
    &&& (out.event is Some <==> sink_open)
    &&& sink_open ==> (out.event matches Some(ev) && (exists|a: Seq<char>|
        a.len() >= 1 && ev@ == spec_event_line(
            spec_json_string(p.desc@),
            (start_ns / 1000) as nat,
            ((now_ns - start_ns) / 1000) as nat,
            pid as nat,
            tid as nat,
            a,
        )))
    &&& sink_open ==> post.emitted@ == pre.emitted@.push(
        ((start_ns / 1000) as u64, ((now_ns - start_ns) / 1000) as u64, now_ns),
    )
    &&& !sink_open ==> post.emitted == pre.emitted
    &&& depth > 0 ==> post.records@ == pre.records@.push(rec) && out.report is None
    &&& depth == 0 ==> post.records@ == Seq::<Record>::empty() && (out.report matches Some(r)
        && r@ == spec_report(pre.records@.push(rec), pre.level.unwrap() as nat))
}

/// Ends the span `p`, at instant `now_ns`, in the process `pid` on the
/// thread `tid`. Disabled, it is a no-op with empty output. Enabled, it
/// pops the span's start instant, measures the duration, builds the trace
/// event for an open sink, appends the completed-span record, and — when
/// this was the thread's outermost span — renders the report and clears
/// the buffer.
pub fn finish(
    p: Profiler,
    st: &mut ThreadState,
    now_ns: u64,
    pid: u64,
    tid: u64,
    sink_open: bool,
) -> (out: FinishOutput)
    requires
        old(st).wf(),
        old(st).enabled() ==> now_ns >= old(st).last_now && old(st).stack@.len() >= 1,
    ensures
        final(st).wf(),
        !old(st).enabled() ==> *final(st) == *old(st) && out.event is None && out.report is None,
        old(st).enabled() ==> finish_post(
            *old(st),
            p,
            now_ns,
            pid,
            tid,
            sink_open,
            *final(st),
            out,
        ),
{
    let lvl: usize = match st.level {
        Some(l) => l,
        None => {
            return FinishOutput { event: None, report: None };
        },
    };
    let start_ns: u64 = st.stack.pop().unwrap();
    let depth: usize = st.stack.len();
    let d = Duration::between(start_ns, now_ns);
    let ms: u64 = in_millis(&d);
    st.last_now = now_ns;

    let event: Option<String> = if sink_open {
        let ts_us: u64 = in_micros(&Duration::between(0, start_ns));
        let dur_us: u64 = in_micros(&d);
        let args_json = value_to_json(&p.args);
        let line = event_line(p.desc.as_str(), ts_us, dur_us, pid, tid, args_json.as_str());
        proof {
            st.emitted@ = st.emitted@.push((ts_us, dur_us, now_ns));
            assert(args_json@.len() >= 1 && line@ == spec_event_line(
                spec_json_string(p.desc@),
                ts_us as nat,
                dur_us as nat,
                pid as nat,
                tid as nat,
                args_json@,
            ));
        }
        Some(line)
    } else {
        None
    };

    let rec = Record { depth, ms, label: p.desc };
    let report: Option<String> = if depth == 0 {
        st.records.push(rec);
        let r = render(&st.records, lvl);
        st.records = Vec::new();
        Some(r)
    } else {
        st.records.push(rec);
        None
    };
    FinishOutput { event, report }
}

/// The stack is popped in reverse order of pushing, so a span started
/// while another was active always ends before it: at any disposal the
/// span that ends is the one started last, every span still active started
/// no later than it, and its measured duration is non-negative.
pub proof fn lemma_lifo_nesting(st: ThreadState, now_ns: u64)
    requires
        st.wf(),
        st.stack@.len() >= 1,
        now_ns >= st.last_now,
    ensures
        forall|k: int| 0 <= k < st.stack@.len() ==> st.stack@[k] <= st.stack@.last(),
        st.stack@.last() <= now_ns,
{
}

/// Within one thread the trace sink sees spans in completion order: the
/// exact completion instants of the events emitted so far never decrease.
pub proof fn lemma_event_order(st: ThreadState)
    requires
        st.wf(),
    ensures
        forall|k: int, j: int|
            0 <= k <= j < st.emitted@.len() ==> st.emitted@[k].2 <= st.emitted@[j].2,
{
    assert forall|k: int, j: int|
        0 <= k <= j < st.emitted@.len() implies st.emitted@[k].2 <= st.emitted@[j].2 by {
        lemma_end_chain(st.emitted@, k, j);
    }
}

/// Chains the pairwise ordering of completion instants across any gap.
proof fn lemma_end_chain(s: Seq<(u64, u64, u64)>, k: int, j: int)
    requires
        forall|m: int| #![trigger s[m]] 0 <= m && m + 1 < s.len() ==> s[m].2 <= s[m + 1].2,
        0 <= k <= j < s.len(),
    ensures
        s[k].2 <= s[j].2,
    decreases j - k,
{
    if k < j {
        lemma_end_chain(s, k, j - 1);
        assert(s[j - 1].2 <= s[j].2);
    }
}

} // verus!

