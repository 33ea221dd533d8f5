use uefi_hid_core::logger::{AdvancedLogger, LogAction, _log, DEBUG_INIT, DEBUG_WARN,
    DEBUG_INFO, DEBUG_VERBOSE, DEBUG_ERROR};

#[test]
fn init_should_initialize_logger() {
    let mut logger = AdvancedLogger::new();
    assert!(logger.log(DEBUG_INFO).is_none());
    logger.init(Some(7));
    assert_eq!(logger.log(DEBUG_INFO), Some(LogAction { sink: 7, level: DEBUG_INFO }));
}

#[test]
fn debug_macro_should_log_things() {
    let mut logger = AdvancedLogger::new();
    logger.init(Some(3));
    assert_eq!(_log(&logger, DEBUG_INIT), Some(LogAction { sink: 3, level: DEBUG_INIT }));
    assert_eq!(_log(&logger, DEBUG_WARN), Some(LogAction { sink: 3, level: DEBUG_WARN }));
    assert_eq!(_log(&logger, DEBUG_INFO), Some(LogAction { sink: 3, level: DEBUG_INFO }));
    assert_eq!(_log(&logger, DEBUG_VERBOSE), Some(LogAction { sink: 3, level: DEBUG_VERBOSE }));
    assert_eq!(_log(&logger, DEBUG_ERROR), Some(LogAction { sink: 3, level: DEBUG_ERROR }));
}

#[test]
fn sample_test() {
    assert_eq!(1 + 1, 2);
}
