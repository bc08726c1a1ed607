use rulox::cli::{Args, LogLevel, ProgramSource};

#[test]
fn log_level_reports_the_chosen_level() {
    let args = Args::new(None, None, false, false, false, LogLevel::Warn);
    assert_eq!(args.log_level(), LogLevel::Warn);
    assert_eq!(args.effective_log_level(), LogLevel::Warn);
}

#[test]
fn verbose_forces_the_trace_level() {
    let args = Args::new(None, None, false, true, false, LogLevel::Error);
    assert_eq!(args.log_level(), LogLevel::Error);
    assert_eq!(args.effective_log_level(), LogLevel::Trace);
}

#[test]
fn inline_code_overrides_file_and_stdin() {
    let args = Args::new(
        Some("main.lox".to_string()),
        Some("print 1;".to_string()),
        false,
        false,
        false,
        LogLevel::Info,
    );
    assert_eq!(args.program_source(), ProgramSource::Inline);
}

#[test]
fn file_overrides_stdin() {
    let args = Args::new(Some("main.lox".to_string()), None, false, false, false, LogLevel::Info);
    assert_eq!(args.program_source(), ProgramSource::File);
}

#[test]
fn stdin_is_the_last_resort() {
    let args = Args::new(None, None, true, false, false, LogLevel::Info);
    assert_eq!(args.program_source(), ProgramSource::Stdin);
}
