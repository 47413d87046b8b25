//! The canonical event model: what an event, a breadcrumb and their parts hold.

use crate::strmap::StrMap;
use crate::views::{opt_view, replicate_opt, replicate_vec, views, Replicate};
use vstd::prelude::*;

verus! {

/// Severity of an event or breadcrumb, from least to most severe.
#[derive(Clone, Copy, Debug, PartialEq, Eq, Structural)]
pub enum Level {
    Debug,
    Info,
    Warning,
    Error,
    Fatal,
}

impl Level {
    /// Position of the level in the order of severity.
    pub open spec fn rank(self) -> nat {
        match self {
            Level::Debug => 0,
            Level::Info => 1,
            Level::Warning => 2,
            Level::Error => 3,
            Level::Fatal => 4,
        }
    }

    /// Position of the level in the order of severity, `Debug` being 0.
    pub fn severity(self) -> (r: u8)
        ensures
            r == self.rank(),
    {
        match self {
            Level::Debug => 0,
            Level::Info => 1,
            Level::Warning => 2,
            Level::Error => 3,
            Level::Fatal => 4,
        }
    }
}

/// Identifier of a captured event.
#[derive(Clone, Copy, Debug, PartialEq, Eq, Structural)]
pub struct EventId {
    pub value: u128,
}

/// A JSON value of `serde_json`. The library stores and copies such values
/// and never looks inside them.
#[verifier::external_type_specification]
#[verifier::external_body]
pub struct ExJsonValue(serde_json::Value);

/// `Clone::clone` of `serde_json::Value`: the copy is the same JSON value.
/// Not proved here.
pub assume_specification[ <serde_json::Value as Clone>::clone ](
    json: &serde_json::Value,
) -> (r: serde_json::Value)
    ensures
        r == *json,
;

/// An arbitrary structured value, attached to events and breadcrumbs.
#[derive(Debug)]
pub struct JsonValue {
    pub json: serde_json::Value,
}

impl View for JsonValue {
    type V = serde_json::Value;

    open spec fn view(&self) -> serde_json::Value {
        self.json
    }
}

impl JsonValue {
    /// Wraps a JSON value.
    pub fn new(json: serde_json::Value) -> (r: JsonValue)
        ensures
            r@ == json,
    {
        JsonValue { json }
    }
}

impl Clone for JsonValue {
    fn clone(&self) -> (r: JsonValue)
        ensures
            r@ == self@,
    {
        self.replicate()
    }
}

impl Replicate for JsonValue {
    fn replicate(&self) -> (r: JsonValue) {
        JsonValue { json: self.json.clone() }
    }
}

/// Identity of the user that an event concerns.
#[derive(Debug)]
pub struct User {
    pub id: Option<String>,
    pub username: Option<String>,
    pub email: Option<String>,
    pub ip_address: Option<String>,
}

/// What a `User` holds, as mathematical values.
pub ghost struct UserView {
    pub id: Option<Seq<char>>,
    pub username: Option<Seq<char>>,
    pub email: Option<Seq<char>>,
    pub ip_address: Option<Seq<char>>,
}

impl View for User {
    type V = UserView;

    open spec fn view(&self) -> UserView {
        UserView {
            id: opt_view(self.id),
            username: opt_view(self.username),
            email: opt_view(self.email),
            ip_address: opt_view(self.ip_address),
        }
    }
}

impl Clone for User {
    fn clone(&self) -> (r: User)
        ensures
            r@ == self@,
    {
        self.replicate()
    }
}

impl Replicate for User {
    fn replicate(&self) -> (r: User) {
        User {
            id: replicate_opt(&self.id),
            username: replicate_opt(&self.username),
            email: replicate_opt(&self.email),
            ip_address: replicate_opt(&self.ip_address),
        }
    }
}

/// A structured context such as the operating system, the device or the
/// language runtime.
#[derive(Debug)]
pub struct Context {
    pub name: Option<String>,
    pub version: Option<String>,
    pub data: StrMap<String>,
}

/// What a `Context` holds, as mathematical values.
pub ghost struct ContextView {
    pub name: Option<Seq<char>>,
    pub version: Option<Seq<char>>,
    pub data: Map<Seq<char>, Seq<char>>,
}

impl View for Context {
    type V = ContextView;

    open spec fn view(&self) -> ContextView {
        ContextView {
            name: opt_view(self.name),
            version: opt_view(self.version),
            data: self.data@,
        }
    }
}

impl Clone for Context {
    fn clone(&self) -> (r: Context)
        ensures
            r@ == self@,
    {
        self.replicate()
    }
}

impl Replicate for Context {
    fn replicate(&self) -> (r: Context) {
        Context {
            name: replicate_opt(&self.name),
            version: replicate_opt(&self.version),
            data: self.data.duplicate(),
        }
    }
}

/// One frame of a stack trace.
#[derive(Debug)]
pub struct Frame {
    pub function: Option<String>,
    pub module: Option<String>,
    pub filename: Option<String>,
    pub lineno: Option<u64>,
    pub colno: Option<u64>,
}

/// What a `Frame` holds, as mathematical values.
pub ghost struct FrameView {
    pub function: Option<Seq<char>>,
    pub module: Option<Seq<char>>,
    pub filename: Option<Seq<char>>,
    pub lineno: Option<u64>,
    pub colno: Option<u64>,
}

impl View for Frame {
    type V = FrameView;

    open spec fn view(&self) -> FrameView {
        FrameView {
            function: opt_view(self.function),
            module: opt_view(self.module),
            filename: opt_view(self.filename),
            lineno: self.lineno,
            colno: self.colno,
        }
    }
}

impl Clone for Frame {
    fn clone(&self) -> (r: Frame)
        ensures
            r@ == self@,
    {
        self.replicate()
    }
}

impl Replicate for Frame {
    fn replicate(&self) -> (r: Frame) {
        Frame {
            function: replicate_opt(&self.function),
            module: replicate_opt(&self.module),
            filename: replicate_opt(&self.filename),
            lineno: self.lineno,
            colno: self.colno,
        }
    }
}

/// A stack trace: its frames, the outermost call first.
#[derive(Debug)]
pub struct Stacktrace {
    pub frames: Vec<Frame>,
}

/// What a `Stacktrace` holds, as mathematical values.
pub ghost struct StacktraceView {
    pub frames: Seq<FrameView>,
}

impl View for Stacktrace {
    type V = StacktraceView;

    open spec fn view(&self) -> StacktraceView {
        StacktraceView { frames: views(self.frames@) }
    }
}

impl Clone for Stacktrace {
    fn clone(&self) -> (r: Stacktrace)
        ensures
            r@ == self@,
    {
        self.replicate()
    }
}

impl Replicate for Stacktrace {
    fn replicate(&self) -> (r: Stacktrace) {
        Stacktrace { frames: replicate_vec(&self.frames) }
    }
}

/// One exception of an event.
#[derive(Debug)]
pub struct Exception {
    pub ty: String,
    pub value: Option<String>,
    pub stacktrace: Option<Stacktrace>,
}

/// What an `Exception` holds, as mathematical values.
pub ghost struct ExceptionView {
    pub ty: Seq<char>,
    pub value: Option<Seq<char>>,
    pub stacktrace: Option<StacktraceView>,
}

impl View for Exception {
    type V = ExceptionView;

    open spec fn view(&self) -> ExceptionView {
        ExceptionView {
            ty: self.ty@,
            value: opt_view(self.value),
            stacktrace: opt_view(self.stacktrace),
        }
    }
}

impl Clone for Exception {
    fn clone(&self) -> (r: Exception)
        ensures
            r@ == self@,
    {
        self.replicate()
    }
}

impl Replicate for Exception {
    fn replicate(&self) -> (r: Exception) {
        Exception {
            ty: self.ty.clone(),
            value: replicate_opt(&self.value),
            stacktrace: replicate_opt(&self.stacktrace),
        }
    }
}

/// A trail entry that records activity which led up to an event.
#[derive(Debug)]
pub struct Breadcrumb {
    pub timestamp: u64,
    pub ty: String,
    pub category: Option<String>,
    pub message: Option<String>,
    pub level: Level,
    pub data: StrMap<JsonValue>,
}

/// What a `Breadcrumb` holds, as mathematical values.
pub ghost struct BreadcrumbView {
    pub timestamp: u64,
    pub ty: Seq<char>,
    pub category: Option<Seq<char>>,
    pub message: Option<Seq<char>>,
    pub level: Level,
    pub data: Map<Seq<char>, serde_json::Value>,
}

impl View for Breadcrumb {
    type V = BreadcrumbView;

    open spec fn view(&self) -> BreadcrumbView {
        BreadcrumbView {
            timestamp: self.timestamp,
            ty: self.ty@,
            category: opt_view(self.category),
            message: opt_view(self.message),
            level: self.level,
            data: self.data@,
        }
    }
}

impl Clone for Breadcrumb {
    fn clone(&self) -> (r: Breadcrumb)
        ensures
            r@ == self@,
    {
        self.replicate()
    }
}

impl Replicate for Breadcrumb {
    fn replicate(&self) -> (r: Breadcrumb) {
        Breadcrumb {
            timestamp: self.timestamp,
            ty: self.ty.clone(),
            category: replicate_opt(&self.category),
            message: replicate_opt(&self.message),
            level: self.level,
            data: self.data.duplicate(),
        }
    }
}

impl Breadcrumb {
    /// A breadcrumb of type `default` and level `Info` that holds nothing else.
    pub fn new(timestamp: u64) -> (r: Breadcrumb)
        ensures
            r@ == (BreadcrumbView {
                timestamp,
                ty: "default"@,
                category: None,
                message: None,
                level: Level::Info,
                data: Map::empty(),
            }),
    {
        Breadcrumb {
            timestamp,
            ty: "default".to_owned(),
            category: None,
            message: None,
            level: Level::Info,
            data: StrMap::new(),
        }
    }
}

/// A reportable occurrence: a message, an exception, or both, with the
/// contextual data that was gathered for it.
#[derive(Debug)]
pub struct Event {
    pub event_id: Option<EventId>,
    pub message: Option<String>,
    pub level: Level,
    pub timestamp: u64,
    pub exception: Vec<Exception>,
    pub breadcrumbs: Vec<Breadcrumb>,
    pub tags: StrMap<String>,
    pub extra: StrMap<JsonValue>,
    pub user: Option<User>,
    pub contexts: StrMap<Context>,
    pub server_name: Option<String>,
    pub fingerprint: Option<Vec<String>>,
}

/// What an `Event` holds, as mathematical values.
pub ghost struct EventView {
    pub event_id: Option<EventId>,
    pub message: Option<Seq<char>>,
    pub level: Level,
    pub timestamp: u64,
    pub exception: Seq<ExceptionView>,
    pub breadcrumbs: Seq<BreadcrumbView>,
    pub tags: Map<Seq<char>, Seq<char>>,
    pub extra: Map<Seq<char>, serde_json::Value>,
    pub user: Option<UserView>,
    pub contexts: Map<Seq<char>, ContextView>,
    pub server_name: Option<Seq<char>>,
    pub fingerprint: Option<Seq<Seq<char>>>,
}

/// The view of an optional list of texts.
pub open spec fn opt_texts(o: Option<Vec<String>>) -> Option<Seq<Seq<char>>> {
    match o {
        Some(v) => Some(views(v@)),
        None => None,
    }
}

/// Copies an optional list of texts.
pub fn replicate_texts(item: &Option<Vec<String>>) -> (r: Option<Vec<String>>)
    ensures
        opt_texts(r) == opt_texts(*item),
{
    match item {
        Some(v) => Some(replicate_vec(v)),
        None => None,
    }
}

impl View for Event {
    type V = EventView;

    open spec fn view(&self) -> EventView {
        EventView {
            event_id: self.event_id,
            message: opt_view(self.message),
            level: self.level,
            timestamp: self.timestamp,
            exception: views(self.exception@),
            breadcrumbs: views(self.breadcrumbs@),
            tags: self.tags@,
            extra: self.extra@,
            user: opt_view(self.user),
            contexts: self.contexts@,
            server_name: opt_view(self.server_name),
            fingerprint: opt_texts(self.fingerprint),
        }
    }
}

/// The event of level `Error` that holds nothing but its time.
pub open spec fn blank_event(timestamp: u64) -> EventView {
    EventView {
        event_id: None,
        message: None,
        level: Level::Error,
        timestamp,
        exception: Seq::empty(),
        breadcrumbs: Seq::empty(),
        tags: Map::empty(),
        extra: Map::empty(),
        user: None,
        contexts: Map::empty(),
        server_name: None,
        fingerprint: None,
    }
}

impl Event {
    /// An event of level `Error` that holds nothing but its time.
    pub fn new(timestamp: u64) -> (r: Event)
        ensures
            r@ == blank_event(timestamp),
    {
        let r = Event {
            event_id: None,
            message: None,
            level: Level::Error,
            timestamp,
            exception: Vec::new(),
            breadcrumbs: Vec::new(),
            tags: StrMap::new(),
            extra: StrMap::new(),
            user: None,
            contexts: StrMap::new(),
            server_name: None,
            fingerprint: None,
        };
        assert(r@.exception =~= Seq::empty());
        assert(r@.breadcrumbs =~= Seq::empty());
        r
    }
}

impl Clone for Event {
    fn clone(&self) -> (r: Event)
        ensures
            r@ == self@,
    {
        self.replicate()
    }
}

impl Replicate for Event {
    fn replicate(&self) -> (r: Event) {
        Event {
            event_id: self.event_id,
            message: replicate_opt(&self.message),
            level: self.level,
            timestamp: self.timestamp,
            exception: replicate_vec(&self.exception),
            breadcrumbs: replicate_vec(&self.breadcrumbs),
            tags: self.tags.duplicate(),
            extra: self.extra.duplicate(),
            user: replicate_opt(&self.user),
            contexts: self.contexts.duplicate(),
            server_name: replicate_opt(&self.server_name),
            fingerprint: replicate_texts(&self.fingerprint),
        }
    }
}

} // verus!
