//! Conversion of log records into events and breadcrumbs.
//!
//! A [`LogRecord`] holds what a record of a structured logger exposes: its
//! message, its severity, its key and value pairs, and the place in the
//! source where it was written.

use crate::protocol::{
    blank_event, Breadcrumb, BreadcrumbView, Event, EventView, Exception, ExceptionView, Frame,
    FrameView, JsonValue, Level, Stacktrace, StacktraceView,
};
use crate::strmap::{lemma_pairs_map_concat, pairs_map, StrMap};
use crate::views::views;
use vstd::prelude::*;

verus! {

/// Severity of a log record, from least to most severe.
#[derive(Clone, Copy, Debug, PartialEq, Eq, Structural)]
pub enum LogLevel {
    Trace,
    Debug,
    Info,
    Warning,
    Error,
    Critical,
}

/// A record of a structured logger.
#[derive(Debug)]
pub struct LogRecord {
    pub message: String,
    pub level: LogLevel,
    pub function: String,
    pub module: String,
    pub file: String,
    pub line: u32,
    pub column: u32,
    pub kv: Vec<(String, JsonValue)>,
}

/// The event level that stands for a log severity: the two lowest
/// severities are `Debug`, the two highest are `Error`.
pub open spec fn level_of(level: LogLevel) -> Level {
    match level {
        LogLevel::Trace | LogLevel::Debug => Level::Debug,
        LogLevel::Info => Level::Info,
        LogLevel::Warning => Level::Warning,
        LogLevel::Error | LogLevel::Critical => Level::Error,
    }
}

/// Converts a log severity to an event level.
pub fn convert_log_level(level: LogLevel) -> (r: Level)
    ensures
        r == level_of(level),
{
    match level {
        LogLevel::Trace | LogLevel::Debug => Level::Debug,
        LogLevel::Info => Level::Info,
        LogLevel::Warning => Level::Warning,
        LogLevel::Error | LogLevel::Critical => Level::Error,
    }
}

/// The data of a record: its own pairs followed by those of its logger,
/// a later pair replacing an earlier one with the same key.
pub open spec fn record_data(
    record: LogRecord,
    values: Seq<(String, JsonValue)>,
) -> Map<Seq<char>, serde_json::Value> {
    pairs_map(record.kv@ + values)
}

/// Adds the pairs of a record, then those of its logger, to `map`.
fn add_kv_to_map(
    map: &mut StrMap<JsonValue>,
    record: &LogRecord,
    values: &Vec<(String, JsonValue)>,
)
    ensures
        final(map)@ == old(map)@.union_prefer_right(record_data(*record, values@)),
{
    map.insert_all(&record.kv);
    map.insert_all(values);
    proof {
        lemma_pairs_map_concat(record.kv@, values@);
    }
}

/// The breadcrumb that stands for a record.
pub open spec fn breadcrumb_of(
    record: LogRecord,
    values: Seq<(String, JsonValue)>,
    timestamp: u64,
) -> BreadcrumbView {
    BreadcrumbView {
        timestamp,
        ty: "log"@,
        category: None,
        message: Some(record.message@),
        level: level_of(record.level),
        data: record_data(record, values),
    }
}

/// Creates a breadcrumb of type `log` from a record: it carries the
/// record's message, its level, and as data the pairs of the record and of
/// its logger.
pub fn breadcrumb_from_record(
    record: &LogRecord,
    values: &Vec<(String, JsonValue)>,
    timestamp: u64,
) -> (r: Breadcrumb)
    ensures
        r@ == breadcrumb_of(*record, values@, timestamp),
{
    let mut data: StrMap<JsonValue> = StrMap::new();
    add_kv_to_map(&mut data, record, values);
    assert(data@ =~= record_data(*record, values@));
    Breadcrumb {
        timestamp,
        ty: "log".to_owned(),
        category: None,
        message: Some(record.message.clone()),
        level: convert_log_level(record.level),
        data,
    }
}

/// The message event that stands for a record.
pub open spec fn event_of(record: LogRecord, timestamp: u64) -> EventView {
    EventView {
        message: Some(record.message@),
        level: level_of(record.level),
        ..blank_event(timestamp)
    }
}

/// Creates a message event from a record: it carries the record's message
/// and level. The pairs of the record and of its logger are left out.
pub fn event_from_record(
    record: &LogRecord,
    values: &Vec<(String, JsonValue)>,
    timestamp: u64,
) -> (r: Event)
    ensures
        r@ == event_of(*record, timestamp),
{
    let mut event = Event::new(timestamp);
    event.message = Some(record.message.clone());
    event.level = convert_log_level(record.level);
    event
}

/// The stack frame that the source location of a record describes.
pub open spec fn frame_of(record: LogRecord) -> FrameView {
    FrameView {
        function: Some(record.function@),
        module: Some(record.module@),
        filename: Some(record.file@),
        lineno: Some(record.line as u64),
        colno: Some(record.column as u64),
    }
}

/// The exception event that stands for a record.
pub open spec fn exception_event_of(record: LogRecord, timestamp: u64) -> EventView {
    EventView {
        exception: seq![
            ExceptionView {
                ty: "slog::Record"@,
                value: None,
                stacktrace: Some(StacktraceView { frames: seq![frame_of(record)] }),
            },
        ],
        ..event_of(record, timestamp)
    }
}

/// Creates an exception event from a record: the message event of the
/// record, with one exception whose stack trace has one frame, the source
/// location of the record.
pub fn exception_from_record(
    record: &LogRecord,
    values: &Vec<(String, JsonValue)>,
    timestamp: u64,
) -> (r: Event)
    ensures
        r@ == exception_event_of(*record, timestamp),
{
    let mut event = event_from_record(record, values, timestamp);
    let frame = Frame {
        function: Some(record.function.clone()),
        module: Some(record.module.clone()),
        filename: Some(record.file.clone()),
        lineno: Some(record.line as u64),
        colno: Some(record.column as u64),
    };
    let mut frames: Vec<Frame> = Vec::new();
    frames.push(frame);
    let exception = Exception {
        ty: "slog::Record".to_owned(),
        value: None,
        stacktrace: Some(Stacktrace { frames }),
    };
    let mut exceptions: Vec<Exception> = Vec::new();
    exceptions.push(exception);
    proof {
        assert(views(frames@) =~= seq![frame_of(*record)]);
        assert(views(exceptions@) =~= exception_event_of(*record, timestamp).exception);
    }
    event.exception = exceptions;
    event
}

} // verus!
