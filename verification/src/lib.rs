//! A lightweight, opt-in span profiler: nested logical operations are timed
//! on a per-thread span stack, finished spans accumulate in a per-thread
//! buffer, every completion can be emitted as one JSON trace event, and when
//! the outermost span of a thread finishes the buffer is rendered as an
//! indented, human-readable report.

mod config;
mod duration;
mod event;
mod profiler;
mod report;
mod textfmt;

pub use profiler::{
    finish, finish_post, finished_record, lemma_event_order, lemma_lifo_nesting, start,
    FinishOutput, Profiler, ThreadState,
};

pub use config::{parse_level, spec_all_digits, spec_digits_val, spec_parse_body, spec_parse_level};
pub use duration::{in_micros, in_millis, Duration};
pub use event::{
    event_line, sink_header, spec_escape, spec_escape_char, spec_event_line, spec_hex_digit,
    spec_json_string, SinkState, TraceSink,
};
pub use report::{
    entry_ok, lemma_print_is_lines, lemma_printed_depths, lemma_report_depths, render, spec_line,
    spec_lines_of, spec_print, spec_printed, spec_report, Record,
};
pub use textfmt::{spec_dec, spec_digit, spec_indent, spec_padded, spec_spaces};
