//! Diagnostic logging with one sink for everything and two that split the records by origin.
//!
//! ```text
//!   record ──► standard output
//!          ──► global sink   (every record)
//!          ──► core sink     (target begins with "moonclient")
//!          ──► API sink      (every other target)
//! ```
//!
//! This module decides which records are logged, what their line says and where it goes.
//! Opening files and writing lines is left to the caller.

use std::path::PathBuf;
use vstd::prelude::*;

use crate::moment::Moment;
use crate::text::starts_with;

verus! {

/// An owned file path, [`std::path::PathBuf`]. Its value is carried through unread.
#[verifier::external_type_specification]
#[verifier::external_body]
pub struct ExPathBuf(PathBuf);

/// How much a record matters.
#[derive(Clone, Copy, Debug, PartialEq, Eq, Structural)]
pub enum Level {
    Error,
    Warn,
    Info,
    Debug,
    Trace,
}

/// The least important level that is still logged.
#[derive(Clone, Copy, Debug, PartialEq, Eq, Structural)]
pub enum LevelFilter {
    Off,
    Error,
    Warn,
    Info,
    Debug,
    Trace,
}

impl Level {
    /// The rank of the level: the less a record matters, the higher.
    pub open spec fn rank(self) -> int {
        match self {
            Level::Error => 1,
            Level::Warn => 2,
            Level::Info => 3,
            Level::Debug => 4,
            Level::Trace => 5,
        }
    }

    /// The name of the level, filled up with spaces to five characters.
    pub open spec fn padded_name(self) -> Seq<char> {
        match self {
            Level::Error => "ERROR"@,
            Level::Warn => "WARN "@,
            Level::Info => "INFO "@,
            Level::Debug => "DEBUG"@,
            Level::Trace => "TRACE"@,
        }
    }

    fn padded_text(self) -> (name: &'static str)
        ensures
            name@ == self.padded_name(),
    {
        match self {
            Level::Error => "ERROR",
            Level::Warn => "WARN ",
            Level::Info => "INFO ",
            Level::Debug => "DEBUG",
            Level::Trace => "TRACE",
        }
    }

    fn rank_number(self) -> (rank: u8)
        ensures
            rank == self.rank(),
    {
        match self {
            Level::Error => 1,
            Level::Warn => 2,
            Level::Info => 3,
            Level::Debug => 4,
            Level::Trace => 5,
        }
    }
}

impl LevelFilter {
    /// The highest rank that passes.
    pub open spec fn rank(self) -> int {
        match self {
            LevelFilter::Off => 0,
            LevelFilter::Error => 1,
            LevelFilter::Warn => 2,
            LevelFilter::Info => 3,
            LevelFilter::Debug => 4,
            LevelFilter::Trace => 5,
        }
    }

    fn rank_number(self) -> (rank: u8)
        ensures
            rank == self.rank(),
    {
        match self {
            LevelFilter::Off => 0,
            LevelFilter::Error => 1,
            LevelFilter::Warn => 2,
            LevelFilter::Info => 3,
            LevelFilter::Debug => 4,
            LevelFilter::Trace => 5,
        }
    }
}

/// A place that log lines go to, beside standard output.
#[derive(Clone, Copy, Debug, PartialEq, Eq, Structural)]
pub enum Sink {
    /// Takes every record.
    Global,
    /// Takes the records of this library.
    Core,
    /// Takes the records of everything else.
    Api,
}

/// What a logged record turns into.
#[derive(Debug)]
pub struct LogDispatch {
    /// The line, without a line end. It goes to standard output first.
    pub line: String,
    /// The sinks that the line goes to, in order.
    pub sinks: Vec<Sink>,
}

/// Whether a record comes from this library.
pub open spec fn is_core_target(target: Seq<char>) -> bool {
    "moonclient"@.is_prefix_of(target)
}

/// The line for a record.
pub open spec fn log_line(
    timestamp: Seq<char>,
    level: Level,
    target: Seq<char>,
    message: Seq<char>,
) -> Seq<char> {
    "["@ + timestamp + "] ["@ + level.padded_name() + "] ["@ + target + "] "@ + message
}

/// The part of a list that is there only if `condition` holds.
pub open spec fn only_if(condition: bool, sink: Sink) -> Seq<Sink> {
    if condition {
        seq![sink]
    } else {
        Seq::empty()
    }
}

/// A logger: which sinks it has, and which records it lets through.
#[derive(Debug)]
pub struct MoonLogger {
    global_sink: bool,
    core_sink: bool,
    api_sink: bool,
    default_level: LevelFilter,
}

impl MoonLogger {
    /// Whether the logger has this sink.
    pub closed spec fn has(&self, sink: Sink) -> bool {
        match sink {
            Sink::Global => self.global_sink,
            Sink::Core => self.core_sink,
            Sink::Api => self.api_sink,
        }
    }

    /// The least important level that is still logged.
    pub closed spec fn level(&self) -> LevelFilter {
        self.default_level
    }

    /// The sinks that a record with this target goes to: the global one, and the one for the
    /// record's origin, as far as the logger has them.
    pub open spec fn routes(&self, target: Seq<char>) -> Seq<Sink> {
        only_if(self.has(Sink::Global), Sink::Global) + if is_core_target(target) {
            only_if(self.has(Sink::Core), Sink::Core)
        } else {
            only_if(self.has(Sink::Api), Sink::Api)
        }
    }

    /// Whether records of this level are logged.
    pub fn enabled(&self, level: Level) -> (enabled: bool)
        ensures
            enabled == (level.rank() <= self.level().rank()),
    {
        level.rank_number() <= self.default_level.rank_number()
    }

    /// Decides what becomes of a record: nothing if its level is not enabled, and otherwise its
    /// line and the sinks for it.
    pub fn log(&self, level: Level, target: &str, message: &str, now: Moment) -> (dispatch: Option<
        LogDispatch,
    >)
        ensures
            dispatch is Some <==> level.rank() <= self.level().rank(),
            dispatch matches Some(d) ==> d.line@ == log_line(
                now.stamp_text(),
                level,
                target@,
                message@,
            ) && d.sinks@ == self.routes(target@),
    {
        if !self.enabled(level) {
            return None;
        }
        let timestamp = now.to_text();
        let mut line = "[".to_owned();
        line.append(timestamp.as_str());
        line.append("] [");
        line.append(level.padded_text());
        line.append("] [");
        line.append(target);
        line.append("] ");
        line.append(message);
        assert(line@ =~= log_line(now.stamp_text(), level, target@, message@));

        let mut sinks: Vec<Sink> = Vec::new();
        if self.global_sink {
            sinks.push(Sink::Global);
        }
        if self.core_sink || self.api_sink {
            if starts_with(target, "moonclient") {
                if self.core_sink {
                    sinks.push(Sink::Core);
                }
            } else {
                if self.api_sink {
                    sinks.push(Sink::Api);
                }
            }
        }
        assert(sinks@ =~= self.routes(target@));
        Some(LogDispatch { line, sinks })
    }

    /// The sinks to flush, in order: every one that the logger has.
    pub fn flush(&self) -> (sinks: Vec<Sink>)
        ensures
            sinks@ == only_if(self.has(Sink::Global), Sink::Global) + only_if(
                self.has(Sink::Core),
                Sink::Core,
            ) + only_if(self.has(Sink::Api), Sink::Api),
    {
        let mut sinks: Vec<Sink> = Vec::new();
        if self.global_sink {
            sinks.push(Sink::Global);
        }
        if self.core_sink {
            sinks.push(Sink::Core);
        }
        if self.api_sink {
            sinks.push(Sink::Api);
        }
        assert(sinks@ =~= only_if(self.has(Sink::Global), Sink::Global) + only_if(
            self.has(Sink::Core),
            Sink::Core,
        ) + only_if(self.has(Sink::Api), Sink::Api));
        sinks
    }

    /// No record goes to both split sinks, nor twice to any sink, and each goes only to sinks that
    /// the logger has. Every record goes to the global sink if there is one.
    pub proof fn law_records_are_split(&self, target: Seq<char>)
        ensures
            self.routes(target).no_duplicates(),
            !(self.routes(target).contains(Sink::Core) && self.routes(target).contains(Sink::Api)),
            forall|sink: Sink| self.routes(target).contains(sink) ==> #[trigger] self.has(sink),
            self.has(Sink::Global) <==> self.routes(target).contains(Sink::Global),
            self.routes(target).contains(Sink::Core) <==> self.has(Sink::Core) && is_core_target(
                target,
            ),
            self.routes(target).contains(Sink::Api) <==> self.has(Sink::Api) && !is_core_target(
                target,
            ),
    {
        let routes = self.routes(target);
        assert(self.has(Sink::Global) ==> routes[0] == Sink::Global);
        assert(routes.len() > 0 && is_core_target(target) && self.has(Sink::Core) ==> routes.last()
            == Sink::Core);
        assert(routes.len() > 0 && !is_core_target(target) && self.has(Sink::Api) ==> routes.last()
            == Sink::Api);
    }

    /// A record that is logged under a filter is logged under every more permissive one, and none
    /// is logged when the filter is off.
    pub proof fn law_filter_is_a_threshold(level: Level, strict: LevelFilter, lax: LevelFilter)
        requires
            strict.rank() <= lax.rank(),
            level.rank() <= strict.rank(),
        ensures
            level.rank() <= lax.rank(),
            strict != LevelFilter::Off,
    {
    }
}

/// One step of putting a logger into service.
#[derive(Debug)]
pub enum SetupStep {
    /// Open the file of a sink for appending.
    Open { sink: Sink, path: PathBuf },
    /// Make this logger the one of the process.
    Register(MoonLogger),
    /// Set the level up to which records reach the logger at all.
    SetMaxLevel(LevelFilter),
}

/// Collects the settings of a logger.
#[derive(Debug)]
pub struct MoonLoggerBuilder {
    global_path: Option<PathBuf>,
    core_path: Option<PathBuf>,
    api_path: Option<PathBuf>,
    default_level: LevelFilter,
}

/// The step that opens a sink, if it has a path.
pub open spec fn open_step(sink: Sink, path: Option<PathBuf>) -> Seq<SetupStep> {
    match path {
        Some(path) => seq![SetupStep::Open { sink, path }],
        None => Seq::empty(),
    }
}

impl MoonLoggerBuilder {
    /// The file of a sink.
    pub closed spec fn path(&self, sink: Sink) -> Option<PathBuf> {
        match sink {
            Sink::Global => self.global_path,
            Sink::Core => self.core_path,
            Sink::Api => self.api_path,
        }
    }

    /// The least important level that is still logged.
    pub closed spec fn level(&self) -> LevelFilter {
        self.default_level
    }

    /// `logger` has a sink wherever the settings have a path, and their level.
    pub open spec fn describes(&self, logger: MoonLogger) -> bool {
        &&& forall|sink: Sink| #[trigger] logger.has(sink) <==> self.path(sink) is Some
        &&& logger.level() == self.level()
    }

    /// Settings without any file, that log up to [`LevelFilter::Info`].
    pub fn new() -> (builder: MoonLoggerBuilder)
        ensures
            forall|sink: Sink| #[trigger] builder.path(sink) is None,
            builder.level() == LevelFilter::Info,
    {
        MoonLoggerBuilder {
            global_path: None,
            core_path: None,
            api_path: None,
            default_level: LevelFilter::Info,
        }
    }

    /// Sets the least important level that is still logged.
    pub fn with_level(self, level: LevelFilter) -> (builder: MoonLoggerBuilder)
        ensures
            builder.level() == level,
            forall|sink: Sink| #[trigger] builder.path(sink) == self.path(sink),
    {
        MoonLoggerBuilder { default_level: level, ..self }
    }

    /// Sets the file that takes every record.
    pub fn with_global_file(self, path: PathBuf) -> (builder: MoonLoggerBuilder)
        ensures
            builder.path(Sink::Global) == Some(path),
            builder.path(Sink::Core) == self.path(Sink::Core),
            builder.path(Sink::Api) == self.path(Sink::Api),
            builder.level() == self.level(),
    {
        MoonLoggerBuilder { global_path: Some(path), ..self }
    }

    /// Sets the file for the records of this library, and the file for all others.
    pub fn with_split_files(self, core_path: PathBuf, api_path: PathBuf) -> (builder:
        MoonLoggerBuilder)
        ensures
            builder.path(Sink::Core) == Some(core_path),
            builder.path(Sink::Api) == Some(api_path),
            builder.path(Sink::Global) == self.path(Sink::Global),
            builder.level() == self.level(),
    {
        MoonLoggerBuilder { core_path: Some(core_path), api_path: Some(api_path), ..self }
    }

    /// The steps that put the logger into service, to be taken in order until one fails: open the
    /// files of the global, the core and the API sink, as far as they are set; register the
    /// logger; only then set the maximum level.
    pub fn setup(self) -> (steps: Vec<SetupStep>)
        ensures
            exists|logger: MoonLogger| #[trigger]
                self.describes(logger) && steps@ == open_step(
                    Sink::Global,
                    self.path(Sink::Global),
                ) + open_step(Sink::Core, self.path(Sink::Core)) + open_step(
                    Sink::Api,
                    self.path(Sink::Api),
                ) + seq![SetupStep::Register(logger), SetupStep::SetMaxLevel(self.level())],
    {
        let logger = MoonLogger {
            global_sink: self.global_path.is_some(),
            core_sink: self.core_path.is_some(),
            api_sink: self.api_path.is_some(),
            default_level: self.default_level,
        };
        let ghost described = logger;
        let mut steps: Vec<SetupStep> = Vec::new();
        if let Some(path) = self.global_path {
            steps.push(SetupStep::Open { sink: Sink::Global, path });
        }
        if let Some(path) = self.core_path {
            steps.push(SetupStep::Open { sink: Sink::Core, path });
        }
        if let Some(path) = self.api_path {
            steps.push(SetupStep::Open { sink: Sink::Api, path });
        }
        steps.push(SetupStep::Register(logger));
        steps.push(SetupStep::SetMaxLevel(self.default_level));
        proof {
            assert(self.describes(described));
            assert(steps@ =~= open_step(Sink::Global, self.path(Sink::Global)) + open_step(
                Sink::Core,
                self.path(Sink::Core),
            ) + open_step(Sink::Api, self.path(Sink::Api)) + seq![
                SetupStep::Register(described),
                SetupStep::SetMaxLevel(self.level()),
            ]);
        }
        steps
    }
}

/// Starts to collect the settings of a logger.
pub fn init() -> (builder: MoonLoggerBuilder)
    ensures
        forall|sink: Sink| #[trigger] builder.path(sink) is None,
        builder.level() == LevelFilter::Info,
{
    MoonLoggerBuilder::new()
}

/// A filter lets a level through together with every level that matters more, and no other: `Off`
/// lets none through, `Trace` lets all.
pub proof fn law_which_levels_pass(level: Level, filter: LevelFilter)
    ensures
        level.rank() <= filter.rank() <==> match filter {
            LevelFilter::Off => false,
            LevelFilter::Error => level is Error,
            LevelFilter::Warn => level is Error || level is Warn,
            LevelFilter::Info => level is Error || level is Warn || level is Info,
            LevelFilter::Debug => !(level is Trace),
            LevelFilter::Trace => true,
        },
{
}

/// A log line is the timestamp, the level in five columns and the target, each in brackets, and behind
/// them the whole message.
pub proof fn law_line_holds_everything(
    timestamp: Seq<char>,
    level: Level,
    target: Seq<char>,
    message: Seq<char>,
)
    ensures
        ({
            let line = log_line(timestamp, level, target, message);
            let columns = match level {
                Level::Error => "ERROR"@,
                Level::Warn => "WARN "@,
                Level::Info => "INFO "@,
                Level::Debug => "DEBUG"@,
                Level::Trace => "TRACE"@,
            };
            &&& columns.len() == 5
            &&& line == "["@ + timestamp + "] ["@ + columns + "] ["@ + target + "] "@ + message
            &&& line.len() == timestamp.len() + target.len() + message.len() + 14
            &&& line.skip(line.len() - message.len()) == message
            &&& line.subrange(1, 1 + timestamp.len() as int) == timestamp
        }),
{
    reveal_strlit("ERROR");
    reveal_strlit("WARN ");
    reveal_strlit("INFO ");
    reveal_strlit("DEBUG");
    reveal_strlit("TRACE");
    reveal_strlit("[");
    reveal_strlit("] [");
    reveal_strlit("] ");
    let line = log_line(timestamp, level, target, message);
    assert(line.skip(line.len() - message.len()) =~= message);
    assert(line.subrange(1, 1 + timestamp.len() as int) =~= timestamp);
}

/// A record is one of this library exactly when its target begins with `moonclient`.
pub proof fn law_what_is_a_core_target(target: Seq<char>)
    ensures
        is_core_target(target) <==> target.len() >= 10 && target.take(10) == "moonclient"@,
{
    reveal_strlit("moonclient");
    if is_core_target(target) {
        assert(target.take(10) =~= "moonclient"@);
    }
}

/// A logger that has a sink uses it, the global one first: what is there only under a condition is
/// there exactly once if the condition holds, and not at all otherwise.
pub proof fn law_only_if(condition: bool, sink: Sink, other: Sink)
    ensures
        only_if(condition, sink).contains(other) <==> condition && sink == other,
        only_if(condition, sink).len() == if condition {
            1nat
        } else {
            0nat
        },
{
    if condition {
        assert(only_if(condition, sink)[0] == sink);
    }
}

/// A record goes to the global sink before the one for its origin.
pub proof fn law_global_sink_comes_first(logger: &MoonLogger, target: Seq<char>)
    ensures
        logger.has(Sink::Global) ==> logger.routes(target).len() > 0 && logger.routes(target)[0]
            == Sink::Global,
        logger.routes(target).len() <= 2,
{
}

/// A sink is opened exactly when it has a file, and then that file.
pub proof fn law_sinks_with_a_file_are_opened(sink: Sink, path: Option<PathBuf>)
    ensures
        match path {
            Some(path) => open_step(sink, Some(path)).len() == 1 && open_step(sink, Some(path))[0]
                == (SetupStep::Open { sink, path }),
            None => open_step(sink, None).len() == 0,
        },
{
}

/// A logger that is put into service has a sink exactly where there is a file, and the level that was
/// set.
pub proof fn law_logger_is_as_set(builder: &MoonLoggerBuilder, logger: MoonLogger, sink: Sink)
    requires
        builder.describes(logger),
    ensures
        logger.has(sink) <==> builder.path(sink) is Some,
        logger.level() == builder.level(),
{
}

/// A record is written exactly if its level passes the filter of the logger, and then its whole
/// message stands at the end of the line.
pub proof fn law_records_are_written_whole(
    logger: MoonLogger,
    level: Level,
    target: &str,
    message: &str,
    now: Moment,
    dispatch: Option<LogDispatch>,
    enabled: bool,
)
    requires
        call_ensures(MoonLogger::log, (&logger, level, target, message, now), dispatch),
        call_ensures(MoonLogger::enabled, (&logger, level), enabled),
    ensures
        dispatch is Some <==> enabled,
        enabled <==> match logger.level() {
            LevelFilter::Off => false,
            LevelFilter::Error => level is Error,
            LevelFilter::Warn => level is Error || level is Warn,
            LevelFilter::Info => level is Error || level is Warn || level is Info,
            LevelFilter::Debug => !(level is Trace),
            LevelFilter::Trace => true,
        },
        dispatch matches Some(d) ==> {
            &&& d.line@.len() == now.stamp_text().len() + target@.len() + message@.len() + 14
            &&& d.line@.skip(d.line@.len() - message@.len()) == message@
            &&& d.sinks@ == logger.routes(target@)
        },
{
    law_line_holds_everything(now.stamp_text(), level, target@, message@);
}

} // verus!
