use rres::{decrement_loglevel, increment_loglevel, LogLevel};

#[test]
fn loglevel_steps_up() {
    assert_eq!(increment_loglevel(LogLevel::Off), LogLevel::Error);
    assert_eq!(increment_loglevel(LogLevel::Warn), LogLevel::Info);
    assert_eq!(increment_loglevel(LogLevel::Debug), LogLevel::Trace);
    assert_eq!(increment_loglevel(LogLevel::Trace), LogLevel::Trace);
}

#[test]
fn loglevel_steps_down() {
    assert_eq!(decrement_loglevel(LogLevel::Off), LogLevel::Off);
    assert_eq!(decrement_loglevel(LogLevel::Error), LogLevel::Off);
    assert_eq!(decrement_loglevel(LogLevel::Info), LogLevel::Warn);
    assert_eq!(decrement_loglevel(LogLevel::Trace), LogLevel::Debug);
}
