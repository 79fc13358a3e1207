use std::path::PathBuf;

use moonclient::logger::{init, Level, LevelFilter, MoonLogger, MoonLoggerBuilder, SetupStep, Sink};
use moonclient::moment::{Moment, TIMESTAMP_FORMAT};

fn moment() -> Moment {
    Moment::new(2026, 3, 9, 7, 5, 1, 42).unwrap()
}

fn logger(builder: MoonLoggerBuilder) -> MoonLogger {
    for step in builder.setup() {
        if let SetupStep::Register(logger) = step {
            return logger;
        }
    }
    panic!("no logger to register")
}

fn everywhere() -> MoonLoggerBuilder {
    init()
        .with_global_file(PathBuf::from("logs/all.log"))
        .with_split_files(PathBuf::from("logs/core.log"), PathBuf::from("logs/api.log"))
}

#[test]
fn timestamps_are_written_like_chrono_writes_them() {
    assert_eq!(moment().to_text(), "2026-03-09 07:05:01.042");
    for (year, month, day, hour, minute, second, milli) in
        [
        (1970, 1, 1, 0, 0, 0, 0),
        (2024, 2, 29, 23, 59, 59, 999),
        (9999, 12, 31, 12, 30, 0, 1),
        (10_000, 1, 1, 0, 0, 0, 0),
        (262_142, 12, 31, 23, 59, 59, 999),
        (0, 2, 29, 1, 2, 3, 4),
        (7, 6, 5, 4, 3, 2, 1),
        (-4, 2, 29, 0, 0, 0, 0),
        (-262_143, 1, 1, 0, 0, 0, 0),
    ]
    {
        let expected = chrono::NaiveDate::from_ymd_opt(year, month, day)
            .unwrap()
            .and_hms_milli_opt(hour, minute, second, milli)
            .unwrap()
            .format(TIMESTAMP_FORMAT)
            .to_string();
        let moment = Moment::new(year, month, day, hour, minute, second, milli).unwrap();
        assert_eq!(moment.to_text(), expected);
    }
}

#[test]
fn moments_are_on_the_calendar() {
    assert!(Moment::new(2024, 2, 29, 0, 0, 0, 0).is_some());
    assert!(Moment::new(2023, 2, 29, 0, 0, 0, 0).is_none());
    assert!(Moment::new(1900, 2, 29, 0, 0, 0, 0).is_none());
    assert!(Moment::new(2000, 2, 29, 0, 0, 0, 0).is_some());
    assert!(Moment::new(2024, 4, 31, 0, 0, 0, 0).is_none());
    assert!(Moment::new(2024, 13, 1, 0, 0, 0, 0).is_none());
    assert!(Moment::new(2024, 0, 1, 0, 0, 0, 0).is_none());
    assert!(Moment::new(2024, 1, 0, 0, 0, 0, 0).is_none());
    assert!(Moment::new(2024, 1, 1, 24, 0, 0, 0).is_none());
    assert!(Moment::new(2024, 1, 1, 0, 60, 0, 0).is_none());
    assert!(Moment::new(262_143, 1, 1, 0, 0, 0, 0).is_none());
    assert!(Moment::new(-262_144, 1, 1, 0, 0, 0, 0).is_none());
    assert!(Moment::new(-100, 2, 29, 0, 0, 0, 0).is_none());
    assert_eq!(Moment::new(10_000, 1, 1, 0, 0, 0, 0).unwrap().to_text(), "+10000-01-01 00:00:00.000");
    assert_eq!(Moment::new(-1, 1, 1, 0, 0, 0, 0).unwrap().to_text(), "-0001-01-01 00:00:00.000");
}

#[test]
fn line_says_when_how_much_where_and_what() {
    let dispatch = logger(init())
        .log(Level::Info, "moonclient::client", "request sent", moment())
        .unwrap();
    assert_eq!(
        dispatch.line,
        "[2026-03-09 07:05:01.042] [INFO ] [moonclient::client] request sent"
    );
    assert!(dispatch.sinks.is_empty());
}

#[test]
fn levels_fill_five_columns() {
    let logger = logger(init().with_level(LevelFilter::Trace));
    for (level, text) in [
        (Level::Error, "ERROR"),
        (Level::Warn, "WARN "),
        (Level::Info, "INFO "),
        (Level::Debug, "DEBUG"),
        (Level::Trace, "TRACE"),
    ] {
        let line = logger.log(level, "t", "m", moment()).unwrap().line;
        assert_eq!(line, format!("[2026-03-09 07:05:01.042] [{}] [t] m", text));
    }
}

#[test]
fn filter_is_the_one_of_the_log_crate() {
    let levels = [
        (Level::Error, log::Level::Error),
        (Level::Warn, log::Level::Warn),
        (Level::Info, log::Level::Info),
        (Level::Debug, log::Level::Debug),
        (Level::Trace, log::Level::Trace),
    ];
    let filters = [
        (LevelFilter::Off, log::LevelFilter::Off),
        (LevelFilter::Error, log::LevelFilter::Error),
        (LevelFilter::Warn, log::LevelFilter::Warn),
        (LevelFilter::Info, log::LevelFilter::Info),
        (LevelFilter::Debug, log::LevelFilter::Debug),
        (LevelFilter::Trace, log::LevelFilter::Trace),
    ];
    for (filter, theirs) in filters {
        let logger = logger(init().with_level(filter));
        for (level, their_level) in levels {
            assert_eq!(logger.enabled(level), their_level <= theirs);
            let logged = logger.log(level, "t", "m", moment()).is_some();
            assert_eq!(logged, logger.enabled(level));
        }
    }
}

#[test]
fn records_are_split_by_origin() {
    let logger = logger(everywhere());
    let sinks = |target: &str| logger.log(Level::Warn, target, "m", moment()).unwrap().sinks;
    assert_eq!(sinks("moonclient"), vec![Sink::Global, Sink::Core]);
    assert_eq!(sinks("moonclient::limiter"), vec![Sink::Global, Sink::Core]);
    assert_eq!(sinks("shikimori"), vec![Sink::Global, Sink::Api]);
    assert_eq!(sinks("moon"), vec![Sink::Global, Sink::Api]);
    assert_eq!(sinks(""), vec![Sink::Global, Sink::Api]);
    assert_eq!(logger.flush(), vec![Sink::Global, Sink::Core, Sink::Api]);
}

#[test]
fn sinks_without_a_file_get_nothing() {
    let split = logger(
        MoonLoggerBuilder::new()
            .with_split_files(PathBuf::from("core.log"), PathBuf::from("api.log")),
    );
    assert_eq!(split.log(Level::Error, "x", "m", moment()).unwrap().sinks, vec![Sink::Api]);
    assert_eq!(split.flush(), vec![Sink::Core, Sink::Api]);
    let global = logger(init().with_global_file(PathBuf::from("all.log")));
    assert_eq!(global.log(Level::Error, "x", "m", moment()).unwrap().sinks, vec![Sink::Global]);
    assert_eq!(global.flush(), vec![Sink::Global]);
}

#[test]
fn setup_opens_files_before_it_registers() {
    let steps = everywhere().with_level(LevelFilter::Debug).setup();
    assert_eq!(steps.len(), 5);
    let opens: Vec<(Sink, String)> = steps
        .iter()
        .filter_map(|step| match step {
            SetupStep::Open { sink, path } => Some((*sink, path.display().to_string())),
            _ => None,
        })
        .collect();
    assert_eq!(
        opens,
        vec![
            (Sink::Global, "logs/all.log".to_string()),
            (Sink::Core, "logs/core.log".to_string()),
            (Sink::Api, "logs/api.log".to_string()),
        ]
    );
    assert!(matches!(&steps[3], SetupStep::Register(_)));
    assert!(matches!(&steps[4], SetupStep::SetMaxLevel(LevelFilter::Debug)));
}

#[test]
fn plain_setup_logs_to_standard_output_only() {
    let steps = init().setup();
    assert_eq!(steps.len(), 2);
    assert!(matches!(&steps[1], SetupStep::SetMaxLevel(LevelFilter::Info)));
}
