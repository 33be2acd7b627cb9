use quorum_lock::diagnostics::{Diagnostic, Level};
use quorum_lock::logger::{
    after_backpressure, after_try_send, was_sent, log_debug, log_error, log_info, log_init_state, log_trace, log_warn,
    log_with_context, AppConfig, AuditLogEntry, BaseLogEntry, ConsoleLogEntry, GlobalError, InitLogStatus,
    LogKind, Logger, LoggerConfig, OtelConfig, SendStep, ServerLogEntry, TimedSend, TrySend, UnifiedLogEntry,
    BACKPRESSURE_MILLIS, DEFAULT_QUEUE_CAPACITY,
};

fn config(queue_capacity: Option<usize>) -> AppConfig {
    AppConfig { logger: Some(LoggerConfig { queue_capacity }) }
}

fn server(entry: UnifiedLogEntry) -> ServerLogEntry {
    match entry {
        UnifiedLogEntry::Server(s) => s,
        _ => panic!("an entry of the server log was expected"),
    }
}

#[test]
fn queue_capacity_from_the_settings_or_the_default() {
    assert_eq!(DEFAULT_QUEUE_CAPACITY, 10000);
    assert_eq!(BACKPRESSURE_MILLIS, 500);
    assert_eq!(Logger::new(&AppConfig { logger: None }).0.get_queue_capacity(), 10000);
    assert_eq!(Logger::new(&config(None)).0.get_queue_capacity(), 10000);
    assert_eq!(Logger::new(&config(Some(3))).0.get_queue_capacity(), 3);
    assert_eq!(Logger::new(&config(Some(1))).0.get_queue_capacity(), 1);
    assert_eq!(Logger::new(&config(Some(usize::MAX / 8))).0.get_queue_capacity(), usize::MAX / 8);
    let (logger, rx) = Logger::new(&config(Some(2)));
    assert_eq!(rx.max_capacity(), 2);
    assert_eq!(logger.sender().max_capacity(), 2);
    assert!(logger.shutdown().is_ok());
    let (logger, rx) = Logger::new(&AppConfig { logger: None });
    assert_eq!(rx.max_capacity(), 10000);
    assert_eq!(logger.sender().max_capacity(), 10000);
}

#[test]
fn a_queue_needs_a_capacity_that_it_can_have() {
    assert!(Logger::accepts(&AppConfig { logger: None }));
    assert!(Logger::accepts(&config(None)));
    assert!(Logger::accepts(&config(Some(1))));
    assert!(Logger::accepts(&config(Some(10000))));
    assert!(Logger::accepts(&config(Some(usize::MAX / 8))));
    assert!(!Logger::accepts(&config(Some(0))));
    assert!(!Logger::accepts(&config(Some(usize::MAX / 8 + 1))));
    assert!(!Logger::accepts(&config(Some(usize::MAX))));
}

#[test]
fn a_step_says_whether_the_entry_is_queued() {
    assert!(was_sent(&SendStep::Sent));
    assert!(!was_sent(&SendStep::Failed(GlobalError::Timeout("Queue backpressure timeout"))));
    let entry = UnifiedLogEntry::Server(ServerLogEntry::from_context("m", "s", Level::Info, None, None, Vec::new(), 1));
    assert!(!was_sent(&SendStep::Backpressure(entry)));
}

#[test]
fn entries_reach_the_receiver_in_order() {
    let (logger, mut rx) = Logger::new(&config(Some(4)));
    assert!(matches!(log_info(&logger, "first", "test", 1), SendStep::Sent));
    assert!(matches!(log_error(&logger, "second", "test", 2), SendStep::Sent));
    assert!(matches!(log_warn(&logger, "third", "test", 3), SendStep::Sent));
    assert!(matches!(log_debug(&logger, "fourth", "test", 4), SendStep::Sent));
    let levels = [Level::Info, Level::Error, Level::Warn, Level::Debug];
    let messages = ["first", "second", "third", "fourth"];
    for i in 0..4 {
        let s = server(rx.try_recv().unwrap());
        assert_eq!(s.level, levels[i]);
        assert_eq!(s.base.message.as_deref(), Some(messages[i]));
        assert_eq!(s.source, "test");
        assert_eq!(s.base.timestamp, i as u64 + 1);
        assert!(s.base.request_id.is_none() && s.user_id.is_none() && s.fields.is_empty());
    }
    assert!(rx.try_recv().is_err());
    assert!(matches!(log_trace(&logger, "fifth", "test", 5), SendStep::Sent));
    assert_eq!(server(rx.try_recv().unwrap()).level, Level::Trace);
}

#[test]
fn a_full_queue_hands_the_entry_back_for_the_wait() {
    let (logger, mut rx) = Logger::new(&config(Some(1)));
    assert!(matches!(logger.write("kept", "src", Level::Info, 7), SendStep::Sent));
    let fields = vec![("endpoint".to_string(), "/api/v1/data".to_string())];
    let step = log_with_context(
        &logger,
        "late",
        "src",
        Level::Warn,
        Some("req-12345".to_string()),
        Some("user-6789".to_string()),
        fields.clone(),
        8,
    );
    match step {
        SendStep::Backpressure(e) => {
            let s = server(e);
            assert_eq!(s.base.message.as_deref(), Some("late"));
            assert_eq!(s.base.request_id.as_deref(), Some("req-12345"));
            assert_eq!(s.user_id.as_deref(), Some("user-6789"));
            assert_eq!(s.fields, fields);
            assert_eq!(s.level, Level::Warn);
            assert_eq!(s.base.timestamp, 8);
        }
        _ => panic!("the queue holds one entry only"),
    }
    assert_eq!(server(rx.try_recv().unwrap()).base.message.as_deref(), Some("kept"));
    assert!(rx.try_recv().is_err());
    assert!(matches!(logger.write("room again", "src", Level::Info, 9), SendStep::Sent));
}

#[test]
fn a_closed_queue_is_an_error() {
    let (logger, rx) = Logger::new(&config(Some(1)));
    drop(rx);
    match logger.write("lost", "src", Level::Info, 1) {
        SendStep::Failed(GlobalError::SendFailed(why)) => assert_eq!(why, "Logger channel closed"),
        _ => panic!("nobody takes entries"),
    }
}

#[test]
fn decisions_after_a_send() {
    assert!(matches!(after_try_send(TrySend::Sent), SendStep::Sent));
    let entry = UnifiedLogEntry::Console(ConsoleLogEntry {
        base: BaseLogEntry { timestamp: 1, request_id: None, message: None },
        level: LogKind::Fatal,
        node_name: "n1".to_string(),
        console_msg: "down".to_string(),
    });
    match after_try_send(TrySend::Full(entry)) {
        SendStep::Backpressure(UnifiedLogEntry::Console(c)) => {
            assert_eq!(c.node_name, "n1");
            assert_eq!(c.console_msg, "down");
            assert_eq!(c.level.as_str(), "FATAL");
        }
        _ => panic!("a full queue is waited for"),
    }
    let audit = UnifiedLogEntry::Audit(Box::new(AuditLogEntry {
        base: BaseLogEntry { timestamp: 1, request_id: None, message: None },
        event: "put".to_string(),
        api_name: None,
    }));
    match after_try_send(TrySend::Closed(audit)) {
        SendStep::Failed(GlobalError::SendFailed(why)) => assert_eq!(why, "Logger channel closed"),
        _ => panic!("a closed queue is an error"),
    }
    assert!(after_backpressure(TimedSend::Sent).is_ok());
    match after_backpressure(TimedSend::Closed) {
        Err(GlobalError::SendFailed(why)) => assert_eq!(why, "Channel closed"),
        _ => panic!("closed while waiting"),
    }
    match after_backpressure(TimedSend::Elapsed) {
        Err(GlobalError::Timeout(why)) => assert_eq!(why, "Queue backpressure timeout"),
        _ => panic!("the wait is bounded"),
    }
}

#[test]
fn audit_and_console_entries_are_queued_as_they_are() {
    let (logger, mut rx) = Logger::new(&config(Some(2)));
    let audit = AuditLogEntry {
        base: BaseLogEntry { timestamp: 3, request_id: None, message: Some("m".to_string()) },
        event: "get".to_string(),
        api_name: Some("GetObject".to_string()),
    };
    assert!(matches!(logger.log_audit_entry(audit), SendStep::Sent));
    let console = ConsoleLogEntry {
        base: BaseLogEntry { timestamp: 4, request_id: None, message: None },
        level: LogKind::Warning,
        node_name: "n2".to_string(),
        console_msg: "slow".to_string(),
    };
    assert!(matches!(logger.log_console_entry(console), SendStep::Sent));
    match rx.try_recv().unwrap() {
        UnifiedLogEntry::Audit(a) => {
            assert_eq!(a.event, "get");
            assert_eq!(a.api_name.as_deref(), Some("GetObject"));
        }
        _ => panic!("the audit entry comes first"),
    }
    match rx.try_recv().unwrap() {
        UnifiedLogEntry::Console(c) => assert_eq!(c.console_msg, "slow"),
        _ => panic!("the console entry comes second"),
    }
}

#[test]
fn names_of_levels() {
    assert_eq!(Level::Trace.as_str(), "TRACE");
    assert_eq!(Level::Debug.as_str(), "DEBUG");
    assert_eq!(Level::Info.as_str(), "INFO");
    assert_eq!(Level::Warn.as_str(), "WARN");
    assert_eq!(Level::Error.as_str(), "ERROR");
    assert_eq!(LogKind::Info.as_str(), "INFO");
    assert_eq!(LogKind::Warning.as_str(), "WARN");
    assert_eq!(LogKind::Error.as_str(), "ERROR");
    assert_eq!(LogKind::Fatal.as_str(), "FATAL");
}

#[test]
fn the_start_up_entry() {
    let plain = InitLogStatus::at(42);
    assert_eq!(plain.message(), "Service initialization started - object-storage v0.0.1 in production");
    let configured = InitLogStatus::new_config(
        &OtelConfig { environment: Some("staging".to_string()), service_version: Some("1.2.3".to_string()) },
        43,
    );
    assert_eq!(configured.timestamp, 43);
    assert_eq!(configured.service_name, "object-storage");
    assert_eq!(configured.message(), "Service initialization started - object-storage v1.2.3 in staging");
    let half = InitLogStatus::new_config(&OtelConfig { environment: None, service_version: Some("9".to_string()) }, 1);
    assert_eq!(half.message(), "Service initialization started - object-storage v9 in production");
    let (logger, mut rx) = Logger::new(&config(Some(2)));
    assert!(matches!(log_init_state(&logger, None, 44), SendStep::Sent));
    let s = server(rx.try_recv().unwrap());
    assert_eq!(s.base.timestamp, 44);
    assert_eq!(s.base.message.as_deref(), Some("Service initialization started - object-storage v0.0.1 in production"));
    assert_eq!(s.base.request_id.as_deref(), Some("system_init"));
    assert_eq!(s.user_id.as_deref(), Some("system"));
    assert_eq!(s.source, "system_initialization");
    assert_eq!(s.level, Level::Info);
    let otel = OtelConfig { environment: Some("dev".to_string()), service_version: None };
    assert!(matches!(InitLogStatus::init_start_log(&logger, &otel, 45), SendStep::Sent));
    let s = server(rx.try_recv().unwrap());
    assert_eq!(s.base.message.as_deref(), Some("Service initialization started - object-storage v0.0.1 in dev"));
}

#[test]
fn lock_records_are_logged_without_waiting() {
    let (logger, mut rx) = Logger::new(&config(Some(1)));
    let d = Diagnostic::quorum_failure(&vec!["vol/a".to_string(), "vol/b".to_string()], 2);
    assert_eq!(d.unanswered, 2);
    assert!(logger.log_diagnostic(&d, 5));
    assert!(!logger.log_diagnostic(&Diagnostic::retry_exhausted(&vec!["vol/a".to_string()]), 6));
    let s = server(rx.try_recv().unwrap());
    assert_eq!(s.level, Level::Warn);
    assert_eq!(s.source, "drwmutex");
    assert_eq!(s.base.message.as_deref(), Some("unable to acquire lock in quorum"));
    assert_eq!(
        s.fields,
        vec![
            ("resource".to_string(), "vol/a".to_string()),
            ("resource".to_string(), "vol/b".to_string()),
            ("unanswered".to_string(), "2".to_string()),
        ]
    );
    assert!(rx.try_recv().is_err());
    let r = Diagnostic::release_failure(&Vec::new(), 0);
    assert_eq!(r.message, "unable to release lock on every locker");
    let e = ServerLogEntry::from_diagnostic(&r, 9);
    assert_eq!(e.base.timestamp, 9);
    assert_eq!(e.fields, vec![("unanswered".to_string(), "0".to_string())]);
    assert_eq!(Diagnostic::retry_exhausted(&Vec::new()).unanswered, 0);
    drop(rx);
    assert!(!logger.log_diagnostic(&d, 7));
}
