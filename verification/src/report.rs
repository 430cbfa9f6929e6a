use crate::textfmt::{push_indent, push_padded_u64, spec_indent, spec_padded};
use vstd::prelude::*;
use vstd::string::StringExecFns;

verus! {

/// One finished span, as the per-thread buffer keeps it: the nesting depth
/// at completion (0 = the outermost span of its thread), the measured
/// duration in whole milliseconds, and the span's label.
pub struct Record {
    pub depth: usize,
    pub ms: u64,
    pub label: String,
}

/// One report line for a span printed at nesting level `lvl`: indentation,
/// a space, the millisecond count in a six-wide column, `ms - `, the label,
/// and a line break.
pub open spec fn spec_line(lvl: nat, ms: nat, label: Seq<char>) -> Seq<char> {
    spec_indent(lvl + 1) + seq![' '] + spec_padded(ms) + "ms - "@ + label + seq!['\n']
}

/// The text that the hierarchy printer emits while scanning the completion
/// log `msgs` at nesting level `lvl` over the positions `i ..= hi - 1`,
/// where `last` marks the start of the window holding the descendants of
/// the next span found at this level (the position just past the previous
/// span printed at this level, or the window start).
///
/// A span found at position `i` of the scanned level is printed, then the
/// records between `last` and `i` — exactly its descendants, because
/// records arrive in completion order and a span always completes after
/// everything nested in it — are printed one level deeper. Levels beyond
/// `enabled` are left out entirely.
pub open spec fn spec_print(
    msgs: Seq<Record>,
    enabled: nat,
    lvl: nat,
    last: int,
    i: int,
    hi: int,
) -> Seq<char>
    decreases hi - last, hi - i,
{
    if !(0 <= last <= i <= hi <= msgs.len()) || lvl > enabled || i >= hi {
        Seq::empty()
    } else if msgs[i].depth == lvl {
        spec_line(lvl, msgs[i].ms as nat, msgs[i].label@) + spec_print(
            msgs,
            enabled,
            (lvl + 1) as nat,
            last,
            last,
            i,
        ) + spec_print(msgs, enabled, lvl, i, i + 1, hi)
    } else {
        spec_print(msgs, enabled, lvl, last, i + 1, hi)
    }
}

/// The whole report for one thread's completion log, rendered down to
/// nesting level `enabled`.
pub open spec fn spec_report(msgs: Seq<Record>, enabled: nat) -> Seq<char> {
    spec_print(msgs, enabled, 0, 0, 0, msgs.len() as int)
}

/// Appends one report line for a span printed at level `lvl`.
fn push_line(out: &mut String, lvl: usize, ms: u64, label: &String)
    requires
        lvl < usize::MAX,
    ensures
        final(out)@ == old(out)@ + spec_line(lvl as nat, ms as nat, label@),
{
    push_indent(out, lvl + 1);
    out.append(" ");
    push_padded_u64(out, ms);
    out.append("ms - ");
    out.append(label.as_str());
    out.append("\n");
    proof {
        reveal_strlit(" ");
        reveal_strlit("\n");
        assert(out@ =~= old(out)@ + spec_line(lvl as nat, ms as nat, label@));
    }
}

/// Scans `msgs[lo .. hi]` at nesting level `lvl` and appends every report
/// line that `spec_print` emits for that window.
fn print_range(msgs: &Vec<Record>, enabled: usize, lvl: usize, lo: usize, hi: usize, out: &mut String)
    requires
        lo <= hi <= msgs@.len(),
        lvl + (hi - lo) <= usize::MAX,
    ensures
        final(out)@ == old(out)@ + spec_print(
            msgs@,
            enabled as nat,
            lvl as nat,
            lo as int,
            lo as int,
            hi as int,
        ),
    decreases hi - lo,
{
    if lvl > enabled {
        proof {
            assert(out@ =~= old(out)@ + spec_print(
                msgs@,
                enabled as nat,
                lvl as nat,
                lo as int,
                lo as int,
                hi as int,
            ));
        }
        return ;
    }
    let mut last: usize = lo;
    let mut i: usize = lo;
    while i < hi
        invariant
            lo <= last <= i <= hi <= msgs@.len(),
            lvl <= enabled,
            lvl + (hi - lo) <= usize::MAX,
            old(out)@ + spec_print(
                msgs@,
                enabled as nat,
                lvl as nat,
                lo as int,
                lo as int,
                hi as int,
            ) == out@ + spec_print(
                msgs@,
                enabled as nat,
                lvl as nat,
                last as int,
                i as int,
                hi as int,
            ),
        decreases hi - i,
    {
        if msgs[i].depth == lvl {
            let ghost out_before: Seq<char> = out@;
            push_line(out, lvl, msgs[i].ms, &msgs[i].label);
            print_range(msgs, enabled, lvl + 1, last, i, out);
            proof {
                assert(out@ =~= out_before + (spec_line(
                    lvl as nat,
                    msgs@[i as int].ms as nat,
                    msgs@[i as int].label@,
                ) + spec_print(
                    msgs@,
                    enabled as nat,
                    (lvl + 1) as nat,
                    last as int,
                    last as int,
                    i as int,
                )));
                assert(out_before + (spec_line(
                    lvl as nat,
                    msgs@[i as int].ms as nat,
                    msgs@[i as int].label@,
                ) + spec_print(
                    msgs@,
                    enabled as nat,
                    (lvl + 1) as nat,
                    last as int,
                    last as int,
                    i as int,
                )) + spec_print(msgs@, enabled as nat, lvl as nat, i as int, i + 1, hi as int)
                    =~= out_before + spec_print(
                    msgs@,
                    enabled as nat,
                    lvl as nat,
                    last as int,
                    i as int,
                    hi as int,
                ));
            }
            last = i;
        }
        i = i + 1;
    }
    proof {
        assert(out@ + spec_print(
            msgs@,
            enabled as nat,
            lvl as nat,
            last as int,
            i as int,
            hi as int,
        ) =~= out@);
    }
}

/// The spans the printer emits while scanning as `spec_print` does, in
/// print order, each paired with the nesting level it is printed at.
pub open spec fn spec_printed(
    msgs: Seq<Record>,
    enabled: nat,
    lvl: nat,
    last: int,
    i: int,
    hi: int,
) -> Seq<(nat, Record)>
    decreases hi - last, hi - i,
{
    if !(0 <= last <= i <= hi <= msgs.len()) || lvl > enabled || i >= hi {
        Seq::empty()
    } else if msgs[i].depth == lvl {
        seq![(lvl, msgs[i])] + spec_printed(msgs, enabled, (lvl + 1) as nat, last, last, i)
            + spec_printed(msgs, enabled, lvl, i, i + 1, hi)
    } else {
        spec_printed(msgs, enabled, lvl, last, i + 1, hi)
    }
}

/// The report text for a list of printed spans: one line each, at the
/// level it is printed at.
pub open spec fn spec_lines_of(entries: Seq<(nat, Record)>) -> Seq<char>
    decreases entries.len(),
{
    if entries.len() == 0 {
        Seq::empty()
    } else {
        spec_line(entries[0].0, entries[0].1.ms as nat, entries[0].1.label@) + spec_lines_of(
            entries.drop_first(),
        )
    }
}

/// Lines concatenate over split lists of printed spans.
proof fn lemma_lines_of_add(a: Seq<(nat, Record)>, b: Seq<(nat, Record)>)
    ensures
        spec_lines_of(a + b) == spec_lines_of(a) + spec_lines_of(b),
    decreases a.len(),
{
    if a.len() == 0 {
        assert(a + b =~= b);
        assert(spec_lines_of(a) + spec_lines_of(b) =~= spec_lines_of(b));
    } else {
        assert((a + b).drop_first() =~= a.drop_first() + b);
        lemma_lines_of_add(a.drop_first(), b);
        assert((a + b)[0] == a[0]);
        assert(spec_lines_of(a + b) =~= spec_lines_of(a) + spec_lines_of(b));
    }
}

/// The printer's text is exactly one line per printed span, in print
/// order.
pub proof fn lemma_print_is_lines(
    msgs: Seq<Record>,
    enabled: nat,
    lvl: nat,
    last: int,
    i: int,
    hi: int,
)
    ensures
        spec_print(msgs, enabled, lvl, last, i, hi) == spec_lines_of(
            spec_printed(msgs, enabled, lvl, last, i, hi),
        ),
    decreases hi - last, hi - i,
{
    if !(0 <= last <= i <= hi <= msgs.len()) || lvl > enabled || i >= hi {
    } else if msgs[i].depth == lvl {
        let e = seq![(lvl, msgs[i])];
        let e1 = spec_printed(msgs, enabled, (lvl + 1) as nat, last, last, i);
        let e2 = spec_printed(msgs, enabled, lvl, i, i + 1, hi);
        lemma_print_is_lines(msgs, enabled, (lvl + 1) as nat, last, last, i);
        lemma_print_is_lines(msgs, enabled, lvl, i, i + 1, hi);
        lemma_lines_of_add(e + e1, e2);
        lemma_lines_of_add(e, e1);
        assert(e.drop_first() =~= Seq::<(nat, Record)>::empty());
        assert(spec_lines_of(e.drop_first()) == Seq::<char>::empty());
        assert(e[0] == (lvl, msgs[i]));
        assert(spec_lines_of(e) =~= spec_line(lvl, msgs[i].ms as nat, msgs[i].label@));
        assert(spec_print(msgs, enabled, lvl, last, i, hi) =~= spec_lines_of(
            spec_printed(msgs, enabled, lvl, last, i, hi),
        ));
    } else {
        lemma_print_is_lines(msgs, enabled, lvl, last, i + 1, hi);
    }
}

/// What holds of one printed span: it stands at exactly the nesting depth
/// recorded for it at disposal, and that depth is within the enabled
/// level.
pub open spec fn entry_ok(e: (nat, Record), enabled: nat) -> bool {
    e.0 == e.1.depth && e.0 <= enabled
}

/// Every span the printer emits is printed at exactly the nesting depth
/// recorded for it at disposal, and never at a level beyond `enabled`.
pub proof fn lemma_printed_depths(
    msgs: Seq<Record>,
    enabled: nat,
    lvl: nat,
    last: int,
    i: int,
    hi: int,
)
    ensures
        forall|k: int|
            0 <= k < spec_printed(msgs, enabled, lvl, last, i, hi).len() ==> entry_ok(
                #[trigger] spec_printed(msgs, enabled, lvl, last, i, hi)[k],
                enabled,
            ),
    decreases hi - last, hi - i,
{
    if !(0 <= last <= i <= hi <= msgs.len()) || lvl > enabled || i >= hi {
    } else if msgs[i].depth == lvl {
        lemma_printed_depths(msgs, enabled, (lvl + 1) as nat, last, last, i);
        lemma_printed_depths(msgs, enabled, lvl, i, i + 1, hi);
        let e1 = spec_printed(msgs, enabled, (lvl + 1) as nat, last, last, i);
        let e2 = spec_printed(msgs, enabled, lvl, i, i + 1, hi);
        assert forall|k: int|
            0 <= k < spec_printed(msgs, enabled, lvl, last, i, hi).len() implies entry_ok(
            #[trigger] spec_printed(msgs, enabled, lvl, last, i, hi)[k],
            enabled,
        ) by {
            assert(spec_printed(msgs, enabled, lvl, last, i, hi) == seq![(lvl, msgs[i])] + e1
                + e2);
            if k == 0 {
                assert(spec_printed(msgs, enabled, lvl, last, i, hi)[k] == (lvl, msgs[i]));
            } else if k < 1 + e1.len() {
                assert(spec_printed(msgs, enabled, lvl, last, i, hi)[k] == e1[k - 1]);
            } else {
                assert(spec_printed(msgs, enabled, lvl, last, i, hi)[k] == e2[k - 1 - e1.len()]);
            }
        }
    } else {
        lemma_printed_depths(msgs, enabled, lvl, last, i + 1, hi);
        assert forall|k: int|
            0 <= k < spec_printed(msgs, enabled, lvl, last, i, hi).len() implies entry_ok(
            #[trigger] spec_printed(msgs, enabled, lvl, last, i, hi)[k],
            enabled,
        ) by {
            assert(spec_printed(msgs, enabled, lvl, last, i, hi)[k] == spec_printed(
                msgs,
                enabled,
                lvl,
                last,
                i + 1,
                hi,
            )[k]);
        }
    }
}

/// The whole report is one line per printed span, each span standing at
/// exactly the depth recorded for it at disposal, and spans recorded
/// deeper than the enabled level contribute no line at all.
pub proof fn lemma_report_depths(msgs: Seq<Record>, enabled: nat)
    ensures
        spec_report(msgs, enabled) == spec_lines_of(
            spec_printed(msgs, enabled, 0, 0, 0, msgs.len() as int),
        ),
        forall|k: int|
            0 <= k < spec_printed(msgs, enabled, 0, 0, 0, msgs.len() as int).len() ==> entry_ok(
                #[trigger] spec_printed(msgs, enabled, 0, 0, 0, msgs.len() as int)[k],
                enabled,
            ),
{
    lemma_print_is_lines(msgs, enabled, 0, 0, 0, msgs.len() as int);
    lemma_printed_depths(msgs, enabled, 0, 0, 0, msgs.len() as int);
}

/// Renders one thread's completion log as the indented, human-readable
/// report: spans at nesting level 0 in their stored order, each followed by
/// its descendants one indentation step deeper, down to level `enabled`.
pub fn render(msgs: &Vec<Record>, enabled: usize) -> (r: String)
    ensures
        r@ == spec_report(msgs@, enabled as nat),
{
    let mut out = String::new();
    print_range(msgs, enabled, 0, 0, msgs.len(), &mut out);
    proof {
        assert(out@ =~= spec_report(msgs@, enabled as nat));
    }
    out
}

} // verus!
