use substreams_sink_winston::{Logger, LoggerOperation, LoggerOperations, LoggingLevels, Meta};

#[test]
fn test_counter() {
    let mut log_ops: LoggerOperations = Default::default();
    let mut logger = Logger::new("user-service");

    log_ops.push(logger.info("info message"));
    log_ops.push(logger.warning("warning"));
    assert_eq!(log_ops.operations.len(), 2);
}

fn check(operation: &LoggerOperation, level: LoggingLevels, message: &str, service: &str) {
    assert_eq!(operation.level, level);
    assert_eq!(operation.message, message);
    assert_eq!(operation.service, service);
    assert!(operation.meta.is_empty());
    assert_eq!(operation.meta, Meta::new());
}

#[test]
fn each_severity_method_stamps_its_level() {
    let mut logger = Logger::new("svc");
    check(&logger.emerg("m0"), LoggingLevels::Emerg, "m0", "svc");
    check(&logger.alert("m1"), LoggingLevels::Alert, "m1", "svc");
    check(&logger.crit("m2"), LoggingLevels::Crit, "m2", "svc");
    check(&logger.error("m3"), LoggingLevels::Error, "m3", "svc");
    check(&logger.warning("m4"), LoggingLevels::Warning, "m4", "svc");
    check(&logger.notice("m5"), LoggingLevels::Notice, "m5", "svc");
    check(&logger.info("m6"), LoggingLevels::Info, "m6", "svc");
    check(&logger.debug("m7"), LoggingLevels::Debug, "m7", "svc");
    assert_eq!(logger, Logger::new("svc"));
}

#[test]
fn log_takes_any_level() {
    let logger = Logger::new("svc");
    for code in 0..8 {
        let level = LoggingLevels::from_code(code).unwrap();
        let operation = logger.log(level, "message");
        check(&operation, level, "message", "svc");
        assert_eq!(operation.level.code(), code);
    }
}

#[test]
fn empty_message_and_service_are_taken() {
    let mut logger = Logger::new("");
    check(&logger.error(""), LoggingLevels::Error, "", "");
    check(&Logger::default().info(""), LoggingLevels::Info, "", "");
}

#[test]
fn message_is_kept_verbatim() {
    let logger = Logger::new("svc");
    let message = "  line one\nline \"two\"\t\u{e9}\u{1F600} ";
    assert_eq!(logger.info(message).message, message);
}

#[test]
fn defaults_are_stamped_on_later_records() {
    let logger = Logger::new("svc");
    let before = logger.info("before");

    let mut defaults = Meta::new();
    defaults.insert("region", "eu");
    let mut logger = logger.with_defaults(defaults.clone());
    let after = logger.warning("after");
    let again = logger.info("again");

    assert!(before.meta.is_empty());
    assert_eq!(after.meta, defaults);
    assert_eq!(again.meta, defaults);
    assert_eq!(after.service, "svc");
    assert_eq!(after.level, LoggingLevels::Warning);
    assert_eq!(after.message, "after");
}

#[test]
fn with_defaults_replaces_earlier_defaults() {
    let mut first = Meta::new();
    first.insert("a", "1");
    let mut second = Meta::new();
    second.insert("b", "2");
    let logger = Logger::new("svc").with_defaults(first).with_defaults(second.clone());
    assert_eq!(logger.info("m").meta, second);
    assert_eq!(logger.service, "svc");
}

#[test]
fn with_overrides_defaults_on_one_record() {
    let mut defaults = Meta::new();
    defaults.insert("a", "1");
    let logger = Logger::new("svc").with_defaults(defaults.clone());
    let mut own = Meta::new();
    own.insert("b", "2");
    assert_eq!(logger.info("m").with(own.clone()).meta, own);
    assert_eq!(logger.info("m").meta, defaults);
}

#[test]
fn with_is_idempotent() {
    let logger = Logger::new("svc");
    let mut meta = Meta::new();
    meta.insert("a", "1");
    let once = logger.info("m").with(meta.clone());
    let twice = logger.info("m").with(meta.clone()).with(meta.clone());
    assert_eq!(once, twice);
}

#[test]
fn with_replaces_rather_than_merges() {
    let logger = Logger::new("svc");
    let first = Meta::from(vec![["a", "1"]]);
    let second = Meta::from(vec![["b", "2"]]);
    let operation = logger.info("m").with(first).with(second.clone());
    assert_eq!(operation.meta, second);
    assert_eq!(operation.meta.get("a"), None);
    assert_eq!(operation.meta.get("b"), Some("2"));
    assert_eq!(operation.meta.len(), 1);
    assert_eq!(operation, logger.info("m").with(second));
}

#[test]
fn with_keeps_the_other_fields() {
    let mut logger = Logger::new("svc");
    let operation = logger.crit("boom").with(Meta::from(vec!["x"]));
    assert_eq!(operation.level, LoggingLevels::Crit);
    assert_eq!(operation.message, "boom");
    assert_eq!(operation.service, "svc");
}

#[test]
fn records_compare_field_by_field() {
    let logger = Logger::new("svc");
    let base = logger.info("m");
    assert_eq!(base, logger.info("m"));
    assert_eq!(base, base.clone());
    assert_ne!(base, logger.info("other"));
    assert_ne!(base, logger.log(LoggingLevels::Debug, "m"));
    assert_ne!(base, Logger::new("other").info("m"));
    assert_ne!(base, logger.info("m").with(Meta::from(vec!["x"])));
}

#[test]
fn loggers_compare_by_service_and_defaults() {
    assert_eq!(Logger::new("a"), Logger::new("a"));
    assert_ne!(Logger::new("a"), Logger::new("b"));
    assert_eq!(Logger::default(), Logger::new(""));
    let with = Logger::new("a").with_defaults(Meta::from(vec!["x"]));
    assert_ne!(with, Logger::new("a"));
    assert_eq!(with, with.clone());
}
