//! The producer side of the log pipeline: entries are built here and put
//! on a bounded queue, from which a worker outside this library takes
//! them.
//!
//! Putting an entry on the queue never waits. Where the queue is full the
//! caller is told to wait for room for a bounded time, and is told what
//! the outcome of that wait means.

use crate::diagnostics::{Diagnostic, Level};
use crate::text::{decimal, to_decimal};
use vstd::prelude::*;
use vstd::string::StringExecFns;

verus! {

/// The sending half of a bounded `tokio` channel. Nothing is known of a
/// value but what `channel` and `try_send` state.
#[verifier::external_type_specification]
#[verifier::external_body]
#[verifier::reject_recursive_types(T)]
pub struct ExSender<T>(tokio::sync::mpsc::Sender<T>);

/// The receiving half of a bounded `tokio` channel.
#[verifier::external_type_specification]
#[verifier::external_body]
#[verifier::reject_recursive_types(T)]
pub struct ExReceiver<T>(tokio::sync::mpsc::Receiver<T>);

/// The kinds of a console message.
#[derive(Clone, Copy, Debug, PartialEq, Eq, Structural)]
pub enum LogKind {
    Info,
    Warning,
    Error,
    Fatal,
}

/// Why an entry was not queued.
#[derive(Clone, Copy, Debug)]
pub enum GlobalError {
    SendFailed(&'static str),
    Timeout(&'static str),
}

/// What every entry carries.
#[derive(Debug)]
pub struct BaseLogEntry {
    /// Milliseconds since the Unix epoch.
    pub timestamp: u64,
    pub request_id: Option<String>,
    pub message: Option<String>,
}

/// An entry of the server log.
#[derive(Debug)]
pub struct ServerLogEntry {
    pub base: BaseLogEntry,
    pub level: Level,
    pub source: String,
    pub user_id: Option<String>,
    pub fields: Vec<(String, String)>,
}

/// An entry of the audit log.
#[derive(Debug)]
pub struct AuditLogEntry {
    pub base: BaseLogEntry,
    pub event: String,
    pub api_name: Option<String>,
}

/// An entry of the console log.
#[derive(Debug)]
pub struct ConsoleLogEntry {
    pub base: BaseLogEntry,
    pub level: LogKind,
    pub node_name: String,
    pub console_msg: String,
}

/// An entry of any of the three logs.
#[derive(Debug)]
pub enum UnifiedLogEntry {
    Server(ServerLogEntry),
    Audit(Box<AuditLogEntry>),
    Console(ConsoleLogEntry),
}

/// The settings of the logger.
#[derive(Debug)]
pub struct LoggerConfig {
    pub queue_capacity: Option<usize>,
}

/// The settings of the application, as far as the logger reads them.
#[derive(Debug)]
pub struct AppConfig {
    pub logger: Option<LoggerConfig>,
}

/// The settings of the telemetry, as far as the start-up entry reads them.
#[derive(Debug)]
pub struct OtelConfig {
    pub environment: Option<String>,
    pub service_version: Option<String>,
}

/// The queue holds this many entries where the settings name no usable
/// capacity.
pub const DEFAULT_QUEUE_CAPACITY: usize = 10000;

/// A full queue is waited for this long, in milliseconds.
pub const BACKPRESSURE_MILLIS: u64 = 500;

/// The largest capacity that a queue can have.
pub open spec fn max_queue_capacity() -> nat {
    (usize::MAX / 8) as nat
}

/// The capacity that the settings ask for, if they name one.
pub open spec fn configured_capacity(config: AppConfig) -> Option<usize> {
    match config.logger {
        Some(l) => l.queue_capacity,
        None => None,
    }
}

/// Whether a queue can be made as the settings ask: a capacity that they
/// name is at least one and no more than a queue can have.
pub open spec fn capacity_accepted(config: AppConfig) -> bool {
    configured_capacity(config) matches Some(n) ==> 0 < n <= max_queue_capacity()
}

/// The capacity of the queue: what the settings ask for, and the default
/// where they name none.
pub open spec fn queue_capacity_of(config: AppConfig) -> usize {
    match configured_capacity(config) {
        Some(n) => n,
        None => DEFAULT_QUEUE_CAPACITY,
    }
}

/// What an attempt to queue an entry without waiting came to.
pub enum TrySend {
    /// The entry is in the queue.
    Sent,
    /// The queue is full; the entry comes back.
    Full(UnifiedLogEntry),
    /// Nobody takes entries any more; the entry comes back.
    Closed(UnifiedLogEntry),
}

/// What a wait for room in the queue came to.
#[derive(Clone, Copy, Debug, PartialEq, Eq, Structural)]
pub enum TimedSend {
    /// The entry is in the queue.
    Sent,
    /// Nobody takes entries any more.
    Closed,
    /// The time was over before there was room.
    Elapsed,
}

/// What the caller of `log_entry` has to do next.
pub enum SendStep {
    /// Nothing: the entry is in the queue.
    Sent,
    /// Wait for room for at most `BACKPRESSURE_MILLIS` with the entry that
    /// comes back, and hand the outcome to `after_backpressure`.
    Backpressure(UnifiedLogEntry),
    /// Nothing: the entry is lost, for the reason given.
    Failed(GlobalError),
}

/// The capacity that the channel of this sending end was made with: what
/// `Sender::max_capacity` returns for it.
pub uninterp spec fn sender_bound(sender: tokio::sync::mpsc::Sender<UnifiedLogEntry>) -> usize;

/// The capacity that the channel of this receiving end was made with: what
/// `Receiver::max_capacity` returns for it.
pub uninterp spec fn receiver_bound(receiver: tokio::sync::mpsc::Receiver<UnifiedLogEntry>) -> usize;

/// `tokio::sync::mpsc::channel`: a bounded queue and its two ends. The
/// capacity must be one that `tokio` accepts: it panics on zero and on
/// more than `usize::MAX >> 3`. Both ends keep the capacity as the bound
/// that they were made with. Nothing else is claimed of them.
#[verifier::external_body]
fn channel(capacity: usize) -> (ends: (
    tokio::sync::mpsc::Sender<UnifiedLogEntry>,
    tokio::sync::mpsc::Receiver<UnifiedLogEntry>,
))
    requires
        0 < capacity <= max_queue_capacity(),
    ensures
        sender_bound(ends.0) == capacity,
        receiver_bound(ends.1) == capacity,
{
    tokio::sync::mpsc::channel(capacity)
}

/// `Sender::try_send`: queues the entry if there is room and somebody to
/// take it, without waiting. An entry that is not queued comes back
/// unchanged. Which of the three happens depends on the other end.
#[verifier::external_body]
fn try_send(sender: &tokio::sync::mpsc::Sender<UnifiedLogEntry>, entry: UnifiedLogEntry) -> (r: TrySend)
    ensures
        r matches TrySend::Full(e) ==> e == entry,
        r matches TrySend::Closed(e) ==> e == entry,
{
    match sender.try_send(entry) {
        Ok(()) => TrySend::Sent,
        Err(tokio::sync::mpsc::error::TrySendError::Full(e)) => TrySend::Full(e),
        Err(tokio::sync::mpsc::error::TrySendError::Closed(e)) => TrySend::Closed(e),
    }
}

/// The step that follows an attempt to queue an entry.
pub open spec fn step_of_try(outcome: TrySend) -> SendStep {
    match outcome {
        TrySend::Sent => SendStep::Sent,
        TrySend::Full(e) => SendStep::Backpressure(e),
        TrySend::Closed(_) => SendStep::Failed(GlobalError::SendFailed("Logger channel closed")),
    }
}

/// What a wait for room means for the caller.
pub open spec fn result_of_wait(outcome: TimedSend) -> Result<(), GlobalError> {
    match outcome {
        TimedSend::Sent => Ok(()),
        TimedSend::Closed => Err(GlobalError::SendFailed("Channel closed")),
        TimedSend::Elapsed => Err(GlobalError::Timeout("Queue backpressure timeout")),
    }
}

/// Decides what follows an attempt to queue an entry: a full queue is
/// waited for, a closed one is an error.
pub fn after_try_send(outcome: TrySend) -> (step: SendStep)
    ensures
        step == step_of_try(outcome),
{
    match outcome {
        TrySend::Sent => SendStep::Sent,
        TrySend::Full(e) => SendStep::Backpressure(e),
        TrySend::Closed(_) => SendStep::Failed(GlobalError::SendFailed("Logger channel closed")),
    }
}

/// Decides what a wait for room in the queue means for the caller.
pub fn after_backpressure(outcome: TimedSend) -> (r: Result<(), GlobalError>)
    ensures
        r == result_of_wait(outcome),
{
    match outcome {
        TimedSend::Sent => Ok(()),
        TimedSend::Closed => Err(GlobalError::SendFailed("Channel closed")),
        TimedSend::Elapsed => Err(GlobalError::Timeout("Queue backpressure timeout")),
    }
}

impl Level {
    /// The name of the level.
    pub open spec fn text(self) -> Seq<char> {
        match self {
            Level::Trace => "TRACE"@,
            Level::Debug => "DEBUG"@,
            Level::Info => "INFO"@,
            Level::Warn => "WARN"@,
            Level::Error => "ERROR"@,
        }
    }

    /// The name of the level.
    pub fn as_str(&self) -> (s: &'static str)
        ensures
            s@ == self.text(),
    {
        match self {
            Level::Trace => "TRACE",
            Level::Debug => "DEBUG",
            Level::Info => "INFO",
            Level::Warn => "WARN",
            Level::Error => "ERROR",
        }
    }
}

impl LogKind {
    /// The level under which a console message is shown.
    pub open spec fn text(self) -> Seq<char> {
        match self {
            LogKind::Info => "INFO"@,
            LogKind::Warning => "WARN"@,
            LogKind::Error => "ERROR"@,
            LogKind::Fatal => "FATAL"@,
        }
    }

    /// The level under which a console message is shown.
    pub fn as_str(&self) -> (s: &'static str)
        ensures
            s@ == self.text(),
    {
        match self {
            LogKind::Info => "INFO",
            LogKind::Warning => "WARN",
            LogKind::Error => "ERROR",
            LogKind::Fatal => "FATAL",
        }
    }
}

/// The text of an optional string.
pub open spec fn opt_text(s: Option<String>) -> Option<Seq<char>> {
    match s {
        Some(s) => Some(s@),
        None => None,
    }
}

/// Whether `s` is the entry of a message without context.
pub open spec fn is_message_entry(
    s: ServerLogEntry,
    message: Seq<char>,
    source: Seq<char>,
    level: Level,
    timestamp: u64,
) -> bool {
    &&& s.base.timestamp == timestamp
    &&& opt_text(s.base.message) == Some(message)
    &&& s.base.request_id is None
    &&& s.level == level
    &&& s.source@ == source
    &&& s.user_id is None
    &&& s.fields.len() == 0
}

/// Whether `s` is the entry that reports the start of the service of the
/// given name, version and environment.
pub open spec fn is_init_entry(
    s: ServerLogEntry,
    timestamp: u64,
    service_name: Seq<char>,
    version: Seq<char>,
    environment: Seq<char>,
) -> bool {
    &&& s.base.timestamp == timestamp
    &&& opt_text(s.base.message) == Some(init_message_text(service_name, version, environment))
    &&& opt_text(s.base.request_id) == Some("system_init"@)
    &&& s.level == Level::Info
    &&& s.source@ == "system_initialization"@
    &&& opt_text(s.user_id) == Some("system"@)
    &&& s.fields.len() == 0
}

/// The version that the start-up entry reports for the settings.
pub open spec fn version_of(config: OtelConfig) -> Seq<char> {
    match config.service_version {
        Some(v) => v@,
        None => default_version(),
    }
}

/// The environment that the start-up entry reports for the settings.
pub open spec fn environment_of(config: OtelConfig) -> Seq<char> {
    match config.environment {
        Some(e) => e@,
        None => default_environment(),
    }
}

/// Whether the step reports that the entry is in the queue.
pub fn was_sent(step: &SendStep) -> (queued: bool)
    ensures
        queued == (*step is Sent),
{
    match step {
        SendStep::Sent => true,
        _ => false,
    }
}

impl ServerLogEntry {
    /// The entry of a message with its context.
    pub fn from_context(
        message: &str,
        source: &str,
        level: Level,
        request_id: Option<String>,
        user_id: Option<String>,
        fields: Vec<(String, String)>,
        timestamp: u64,
    ) -> (entry: ServerLogEntry)
        ensures
            entry.base.timestamp == timestamp,
            entry.base.request_id == request_id,
            opt_text(entry.base.message) == Some(message@),
            entry.level == level,
            entry.source@ == source@,
            entry.user_id == user_id,
            entry.fields == fields,
    {
        ServerLogEntry {
            base: BaseLogEntry { timestamp, request_id, message: Some(String::from_str(message)) },
            level,
            source: String::from_str(source),
            user_id,
            fields,
        }
    }

    /// The entry of a record of the lock manager: one field for each
    /// resource of the record, and one for the number of lockers that did
    /// not answer.
    pub fn from_diagnostic(d: &Diagnostic, timestamp: u64) -> (entry: ServerLogEntry)
        ensures
            entry.base.timestamp == timestamp,
            entry.base.request_id is None,
            opt_text(entry.base.message) == Some(d@.message),
            entry.level == d@.level,
            entry.source@ == d@.source,
            entry.user_id is None,
            entry.fields.len() == d@.resource_set.len() + 1,
            forall|i: int|
                0 <= i < d@.resource_set.len() ==> (#[trigger] entry.fields[i]).0@ == "resource"@
                    && entry.fields[i].1@ == d@.resource_set[i],
            entry.fields[d@.resource_set.len() as int].0@ == "unanswered"@,
            entry.fields[d@.resource_set.len() as int].1@ == decimal(d@.unanswered),
    {
        let mut fields: Vec<(String, String)> = Vec::new();
        let mut i: usize = 0;
        while i < d.resource_set.len()
            invariant
                i <= d.resource_set.len(),
                fields.len() == i,
                forall|j: int|
                    0 <= j < i ==> (#[trigger] fields[j]).0@ == "resource"@ && fields[j].1@
                        == d.resource_set[j]@,
            decreases d.resource_set.len() - i,
        {
            fields.push((String::from_str("resource"), d.resource_set[i].clone()));
            i += 1;
        }
        fields.push((String::from_str("unanswered"), to_decimal(d.unanswered as u64)));
        ServerLogEntry {
            base: BaseLogEntry { timestamp, request_id: None, message: Some(d.message.clone()) },
            level: d.level,
            source: d.source.clone(),
            user_id: None,
            fields,
        }
    }
}

/// The producer end of the log queue.
#[derive(Debug)]
pub struct Logger {
    sender: tokio::sync::mpsc::Sender<UnifiedLogEntry>,
    queue_capacity: usize,
}

impl Logger {
    /// The capacity that the queue was made with.
    pub closed spec fn capacity(&self) -> usize {
        self.queue_capacity
    }

    /// Whether a logger can be made as the settings ask.
    pub fn accepts(config: &AppConfig) -> (ok: bool)
        ensures
            ok == capacity_accepted(*config),
    {
        match &config.logger {
            Some(l) => match l.queue_capacity {
                Some(n) => 0 < n && n <= usize::MAX / 8,
                None => true,
            },
            None => true,
        }
    }

    /// A logger and the receiving end of its queue. The queue holds as
    /// many entries as the settings ask for, or the default where they
    /// name no capacity. A capacity of zero, or one beyond what a queue can
    /// have, is not accepted.
    pub fn new(config: &AppConfig) -> (made: (Logger, tokio::sync::mpsc::Receiver<UnifiedLogEntry>))
        requires
            capacity_accepted(*config),
        ensures
            made.0.capacity() == queue_capacity_of(*config),
            sender_bound(made.0.sending_end()) == queue_capacity_of(*config),
            receiver_bound(made.1) == queue_capacity_of(*config),
    {
        let asked = match &config.logger {
            Some(l) => l.queue_capacity,
            None => None,
        };
        let queue_capacity = match asked {
            Some(n) => n,
            None => DEFAULT_QUEUE_CAPACITY,
        };
        let (sender, receiver) = channel(queue_capacity);
        (Logger { sender, queue_capacity }, receiver)
    }

    /// The capacity of the queue.
    pub fn get_queue_capacity(&self) -> (n: usize)
        ensures
            n == self.capacity(),
    {
        self.queue_capacity
    }

    /// The sending end of the queue, for the caller that has to wait for
    /// room.
    pub fn sender(&self) -> (s: &tokio::sync::mpsc::Sender<UnifiedLogEntry>)
        ensures
            *s == self.sending_end(),
    {
        &self.sender
    }

    /// Puts the entry on the queue if that needs no waiting, and says what
    /// the caller has to do next. Whether there is room depends on the
    /// worker that empties the queue; an entry that is not queued is
    /// handed back for the wait or dropped with the reason.
    pub fn log_entry(&self, entry: UnifiedLogEntry) -> (step: SendStep)
        ensures
            step matches SendStep::Backpressure(e) ==> e == entry,
            step matches SendStep::Failed(e) ==> e == GlobalError::SendFailed("Logger channel closed"),
    {
        after_try_send(try_send(&self.sender, entry))
    }

    /// Queues an entry of the server log.
    pub fn log_server_entry(&self, entry: ServerLogEntry) -> (step: SendStep)
        ensures
            step matches SendStep::Backpressure(e) ==> e == UnifiedLogEntry::Server(entry),
            step matches SendStep::Failed(e) ==> e == GlobalError::SendFailed("Logger channel closed"),
    {
        self.log_entry(UnifiedLogEntry::Server(entry))
    }

    /// Queues an entry of the audit log.
    pub fn log_audit_entry(&self, entry: AuditLogEntry) -> (step: SendStep)
        ensures
            step matches SendStep::Backpressure(e) ==> e == UnifiedLogEntry::Audit(Box::new(entry)),
            step matches SendStep::Failed(e) ==> e == GlobalError::SendFailed("Logger channel closed"),
    {
        self.log_entry(UnifiedLogEntry::Audit(Box::new(entry)))
    }

    /// Queues an entry of the console log.
    pub fn log_console_entry(&self, entry: ConsoleLogEntry) -> (step: SendStep)
        ensures
            step matches SendStep::Backpressure(e) ==> e == UnifiedLogEntry::Console(entry),
            step matches SendStep::Failed(e) ==> e == GlobalError::SendFailed("Logger channel closed"),
    {
        self.log_entry(UnifiedLogEntry::Console(entry))
    }

    /// Queues a message of the server log with its context.
    pub fn write_with_context(
        &self,
        message: &str,
        source: &str,
        level: Level,
        request_id: Option<String>,
        user_id: Option<String>,
        fields: Vec<(String, String)>,
        timestamp: u64,
    ) -> (step: SendStep)
        ensures
            step matches SendStep::Backpressure(e) ==> e matches UnifiedLogEntry::Server(s) && s.level
                == level && s.source@ == source@ && opt_text(s.base.message) == Some(message@)
                && s.base.request_id == request_id && s.user_id == user_id && s.fields == fields
                && s.base.timestamp == timestamp,
            step matches SendStep::Failed(e) ==> e == GlobalError::SendFailed("Logger channel closed"),
    {
        let entry = ServerLogEntry::from_context(message, source, level, request_id, user_id, fields, timestamp);
        self.log_server_entry(entry)
    }

    /// Queues a message of the server log.
    pub fn write(&self, message: &str, source: &str, level: Level, timestamp: u64) -> (step: SendStep)
        ensures
            step matches SendStep::Backpressure(e) ==> e matches UnifiedLogEntry::Server(s)
                && is_message_entry(s, message@, source@, level, timestamp),
            step matches SendStep::Failed(e) ==> e == GlobalError::SendFailed("Logger channel closed"),
    {
        self.write_with_context(message, source, level, None, None, Vec::new(), timestamp)
    }

    /// Queues a record of the lock manager if that needs no waiting, and
    /// drops it otherwise: a lock operation neither waits for the log nor
    /// fails with it. Says whether the record was queued.
    pub fn log_diagnostic(&self, d: &Diagnostic, timestamp: u64) -> (queued: bool) {
        let entry = ServerLogEntry::from_diagnostic(d, timestamp);
        let step = self.log_server_entry(entry);
        was_sent(&step)
    }

    /// Closes the sending end: the worker learns that no entry follows.
    pub fn shutdown(self) -> (r: Result<(), GlobalError>)
        ensures
            r is Ok,
    {
        Ok(())
    }
}

/// Queues a message at the level `Info`.
pub fn log_info(logger: &Logger, message: &str, source: &str, timestamp: u64) -> (step: SendStep)
    ensures
        step matches SendStep::Backpressure(e) ==> e matches UnifiedLogEntry::Server(s)
            && is_message_entry(s, message@, source@, Level::Info, timestamp),
        step matches SendStep::Failed(e) ==> e == GlobalError::SendFailed("Logger channel closed"),
{
    logger.write(message, source, Level::Info, timestamp)
}

/// Queues a message at the level `Error`.
pub fn log_error(logger: &Logger, message: &str, source: &str, timestamp: u64) -> (step: SendStep)
    ensures
        step matches SendStep::Backpressure(e) ==> e matches UnifiedLogEntry::Server(s)
            && is_message_entry(s, message@, source@, Level::Error, timestamp),
        step matches SendStep::Failed(e) ==> e == GlobalError::SendFailed("Logger channel closed"),
{
    logger.write(message, source, Level::Error, timestamp)
}

/// Queues a message at the level `Warn`.
pub fn log_warn(logger: &Logger, message: &str, source: &str, timestamp: u64) -> (step: SendStep)
    ensures
        step matches SendStep::Backpressure(e) ==> e matches UnifiedLogEntry::Server(s)
            && is_message_entry(s, message@, source@, Level::Warn, timestamp),
        step matches SendStep::Failed(e) ==> e == GlobalError::SendFailed("Logger channel closed"),
{
    logger.write(message, source, Level::Warn, timestamp)
}

/// Queues a message at the level `Debug`.
pub fn log_debug(logger: &Logger, message: &str, source: &str, timestamp: u64) -> (step: SendStep)
    ensures
        step matches SendStep::Backpressure(e) ==> e matches UnifiedLogEntry::Server(s)
            && is_message_entry(s, message@, source@, Level::Debug, timestamp),
        step matches SendStep::Failed(e) ==> e == GlobalError::SendFailed("Logger channel closed"),
{
    logger.write(message, source, Level::Debug, timestamp)
}

/// Queues a message at the level `Trace`.
pub fn log_trace(logger: &Logger, message: &str, source: &str, timestamp: u64) -> (step: SendStep)
    ensures
        step matches SendStep::Backpressure(e) ==> e matches UnifiedLogEntry::Server(s)
            && is_message_entry(s, message@, source@, Level::Trace, timestamp),
        step matches SendStep::Failed(e) ==> e == GlobalError::SendFailed("Logger channel closed"),
{
    logger.write(message, source, Level::Trace, timestamp)
}

/// Queues a message with its context.
pub fn log_with_context(
    logger: &Logger,
    message: &str,
    source: &str,
    level: Level,
    request_id: Option<String>,
    user_id: Option<String>,
    fields: Vec<(String, String)>,
    timestamp: u64,
) -> (step: SendStep)
    ensures
        step matches SendStep::Backpressure(e) ==> e matches UnifiedLogEntry::Server(s) && s.level
            == level && s.source@ == source@ && opt_text(s.base.message) == Some(message@)
            && s.base.request_id == request_id && s.user_id == user_id && s.fields == fields
            && s.base.timestamp == timestamp,
        step matches SendStep::Failed(e) ==> e == GlobalError::SendFailed("Logger channel closed"),
{
    logger.write_with_context(message, source, level, request_id, user_id, fields, timestamp)
}

/// The name under which the service reports.
pub open spec fn app_name() -> Seq<char> {
    "object-storage"@
}

/// The version that is reported where the settings name none.
pub open spec fn default_version() -> Seq<char> {
    "0.0.1"@
}

/// The environment that is reported where the settings name none.
pub open spec fn default_environment() -> Seq<char> {
    "production"@
}

/// What the entry written at start-up reports.
#[derive(Debug)]
pub struct InitLogStatus {
    /// Milliseconds since the Unix epoch.
    pub timestamp: u64,
    pub service_name: String,
    pub version: String,
    pub environment: String,
}

/// The message of the entry written at start-up.
pub open spec fn init_message_text(service_name: Seq<char>, version: Seq<char>, environment: Seq<char>) -> Seq<
    char,
> {
    "Service initialization started - "@ + service_name + " v"@ + version + " in "@ + environment
}

impl InitLogStatus {
    /// The status of a service started at `timestamp` with nothing
    /// configured.
    pub fn at(timestamp: u64) -> (status: InitLogStatus)
        ensures
            status.timestamp == timestamp,
            status.service_name@ == app_name(),
            status.version@ == default_version(),
            status.environment@ == default_environment(),
    {
        InitLogStatus {
            timestamp,
            service_name: String::from_str("object-storage"),
            version: String::from_str("0.0.1"),
            environment: String::from_str("production"),
        }
    }

    /// The status of a service started at `timestamp`: version and
    /// environment as the settings name them, and the defaults where they
    /// name none.
    pub fn new_config(config: &OtelConfig, timestamp: u64) -> (status: InitLogStatus)
        ensures
            status.timestamp == timestamp,
            status.service_name@ == app_name(),
            status.version@ == version_of(*config),
            status.environment@ == environment_of(*config),
    {
        let environment = match &config.environment {
            Some(e) => e.clone(),
            None => String::from_str("production"),
        };
        let version = match &config.service_version {
            Some(v) => v.clone(),
            None => String::from_str("0.0.1"),
        };
        InitLogStatus { timestamp, service_name: String::from_str("object-storage"), version, environment }
    }

    /// The message of the entry written at start-up.
    pub fn message(&self) -> (text: String)
        ensures
            text@ == init_message_text(self.service_name@, self.version@, self.environment@),
    {
        String::from_str("Service initialization started - ").concat(self.service_name.as_str()).concat(
            " v",
        ).concat(self.version.as_str()).concat(" in ").concat(self.environment.as_str())
    }

    /// The entry written at start-up.
    pub fn entry(&self) -> (entry: ServerLogEntry)
        ensures
            is_init_entry(entry, self.timestamp, self.service_name@, self.version@, self.environment@),
    {
        ServerLogEntry {
            base: BaseLogEntry {
                timestamp: self.timestamp,
                request_id: Some(String::from_str("system_init")),
                message: Some(self.message()),
            },
            level: Level::Info,
            source: String::from_str("system_initialization"),
            user_id: Some(String::from_str("system")),
            fields: Vec::new(),
        }
    }

    /// Queues the entry that reports the start of the service as the
    /// settings describe it.
    pub fn init_start_log(logger: &Logger, config: &OtelConfig, timestamp: u64) -> (step: SendStep)
        ensures
            step matches SendStep::Backpressure(e) ==> e matches UnifiedLogEntry::Server(s)
                && is_init_entry(s, timestamp, app_name(), version_of(*config), environment_of(*config)),
            step matches SendStep::Failed(e) ==> e == GlobalError::SendFailed("Logger channel closed"),
    {
        let status = InitLogStatus::new_config(config, timestamp);
        log_init_state(logger, Some(status), timestamp)
    }
}

/// Queues the entry that reports the start of the service; without a
/// status, that of a service with nothing configured.
pub fn log_init_state(logger: &Logger, status: Option<InitLogStatus>, timestamp: u64) -> (step: SendStep)
    ensures
        step matches SendStep::Backpressure(e) ==> e matches UnifiedLogEntry::Server(s) && match status {
            Some(st) => is_init_entry(s, st.timestamp, st.service_name@, st.version@, st.environment@),
            None => is_init_entry(s, timestamp, app_name(), default_version(), default_environment()),
        },
        step matches SendStep::Failed(e) ==> e == GlobalError::SendFailed("Logger channel closed"),
{
    let status = match status {
        Some(s) => s,
        None => InitLogStatus::at(timestamp),
    };
    logger.log_server_entry(status.entry())
}

impl Logger {
    /// The sending end of the logger's own queue: the end that `new` made
    /// together with the receiving end that it handed out.
    pub closed spec fn sending_end(&self) -> tokio::sync::mpsc::Sender<UnifiedLogEntry> {
        self.sender
    }
}

} // verus!
