//! The life of one request, as decisions between one piece of outside work and the next.
//!
//! ```text
//!   pre-request hook ─► user agent, timeout, rate limit ─► send ─► post-request hook
//!         ▲                                                              │
//!         └── replay, once ◄── session refreshed ◄── 401 Unauthorized ◄──┤
//!                                                                        ▼
//!                                                                    extraction
//! ```
//!
//! An [`Exchange`] never does any of that work. It says what to do next, and is told what came of
//! it. A [`Download`] is the shorter life of a request for binary content.

use vstd::prelude::*;

use crate::error::{MoonError, SendFailure};
use crate::status::{status_line, status_text};
use crate::time_span::TimeSpan;

verus! {

/// The status that asks for fresh credentials.
pub const UNAUTHORIZED: u16 = 401;

/// What a client adds to its requests, as it is set at the time.
#[derive(Debug)]
pub struct RequestSettings {
    /// The value of the `User-Agent` header.
    pub user_agent: String,
    /// How long a request may take, if there is a limit.
    pub timeout: Option<TimeSpan>,
    /// The most bytes of a successful body that are read.
    pub body_limit: usize,
}

/// Which sending of a request.
#[derive(Clone, Copy, Debug, PartialEq, Eq, Structural)]
pub enum Attempt {
    /// The request as it was made.
    First,
    /// The copy of it that is sent once the session is refreshed.
    Replay,
}

/// What an exchange waits for.
#[derive(Clone, Copy, Debug, PartialEq, Eq, Structural)]
pub enum Phase {
    /// The pre-request hook.
    Preparing,
    /// The rate limiter.
    Waiting,
    /// The response.
    Sending,
    /// The post-request hook.
    Inspecting,
    /// The hook that refreshes the session.
    Refreshing,
    /// Nothing: the exchange is over.
    Closed,
}

/// What came of the outside work.
#[derive(Debug)]
pub enum ExchangeEvent {
    /// The pre-request hook is done with the request, or failed with this text.
    Prepared(Result<(), String>),
    /// The rate limiter lets the request through, or failed.
    Admitted(Result<(), MoonError>),
    /// A response is there, or sending failed.
    Answered(Result<(), SendFailure>),
    /// The post-request hook is done with the response, which has this status, or failed with this
    /// text.
    Inspected(Result<u16, String>),
    /// The session was refreshed, or was not, or the hook failed with this text.
    Refreshed(Result<bool, String>),
}

/// The outside work that comes next.
#[derive(Debug)]
pub enum ExchangeAction {
    /// Run the pre-request hook on the request of this attempt.
    Prepare(Attempt),
    /// Set the user agent and, if there is one, the timeout on the request. Then wait for the rate
    /// limiter.
    Wait {
        /// The value of the `User-Agent` header.
        user_agent: String,
        /// How long the request may take.
        timeout: Option<TimeSpan>,
    },
    /// Send the request.
    Send,
    /// Run the post-request hook on the response.
    Inspect,
    /// Run the hook that refreshes the session.
    Refresh,
    /// Extract the result from the latest response, of whose body at most this many bytes are read
    /// on success.
    Extract {
        /// The most bytes of a successful body that are read.
        body_limit: usize,
    },
    /// Give up with this error.
    Fail(MoonError),
}

/// How far a request has come.
#[derive(Clone, Copy, Debug, PartialEq, Eq, Structural)]
pub struct Exchange {
    /// Which sending of the request is under way.
    pub attempt: Attempt,
    /// What the exchange waits for.
    pub phase: Phase,
    /// Whether there is a copy of the request to replay.
    pub replayable: bool,
}

impl Exchange {
    /// The exchange in another phase.
    pub open spec fn at(self, phase: Phase) -> Exchange {
        Exchange { phase, ..self }
    }

    /// Whether the event is one that the exchange waits for.
    pub open spec fn awaits(self, event: ExchangeEvent) -> bool {
        match event {
            ExchangeEvent::Prepared(_) => self.phase == Phase::Preparing,
            ExchangeEvent::Admitted(_) => self.phase == Phase::Waiting,
            ExchangeEvent::Answered(_) => self.phase == Phase::Sending,
            ExchangeEvent::Inspected(_) => self.phase == Phase::Inspecting,
            ExchangeEvent::Refreshed(_) => self.phase == Phase::Refreshing,
        }
    }

    /// The exchange after an event.
    pub open spec fn after(self, event: ExchangeEvent) -> Exchange {
        match event {
            ExchangeEvent::Prepared(Ok(_)) => self.at(Phase::Waiting),
            ExchangeEvent::Admitted(Ok(_)) => self.at(Phase::Sending),
            ExchangeEvent::Answered(Ok(_)) => self.at(Phase::Inspecting),
            ExchangeEvent::Inspected(Ok(status)) => if self.recovers_from(status) {
                self.at(Phase::Refreshing)
            } else {
                self.at(Phase::Closed)
            },
            ExchangeEvent::Refreshed(Ok(refreshed)) => if refreshed && self.replayable {
                Exchange { attempt: Attempt::Replay, phase: Phase::Preparing, ..self }
            } else {
                self.at(Phase::Closed)
            },
            _ => self.at(Phase::Closed),
        }
    }

    /// Whether a response with this status leads to an attempt to refresh the session.
    pub open spec fn recovers_from(self, status: u16) -> bool {
        self.attempt == Attempt::First && status == UNAUTHORIZED
    }

    /// `action` is the work that comes after an event.
    pub open spec fn is_next(
        self,
        event: ExchangeEvent,
        settings: RequestSettings,
        action: ExchangeAction,
    ) -> bool {
        match event {
            ExchangeEvent::Prepared(Ok(_)) => action == (ExchangeAction::Wait {
                user_agent: settings.user_agent,
                timeout: settings.timeout,
            }),
            ExchangeEvent::Admitted(Ok(_)) => action == ExchangeAction::Send,
            ExchangeEvent::Answered(Ok(_)) => action == ExchangeAction::Inspect,
            ExchangeEvent::Inspected(Ok(status)) => action == (if self.recovers_from(status) {
                ExchangeAction::Refresh
            } else {
                ExchangeAction::Extract { body_limit: settings.body_limit }
            }),
            ExchangeEvent::Refreshed(Ok(refreshed)) => action == (if refreshed && self.replayable {
                ExchangeAction::Prepare(Attempt::Replay)
            } else {
                ExchangeAction::Extract { body_limit: settings.body_limit }
            }),
            ExchangeEvent::Prepared(Err(text)) => action == ExchangeAction::Fail(
                MoonError::Middleware(text),
            ),
            ExchangeEvent::Admitted(Err(error)) => action == ExchangeAction::Fail(error),
            ExchangeEvent::Answered(Err(failure)) => action == ExchangeAction::Fail(
                failure.as_error(),
            ),
            ExchangeEvent::Inspected(Err(text)) => action == ExchangeAction::Fail(
                MoonError::Middleware(text),
            ),
            ExchangeEvent::Refreshed(Err(text)) => action == ExchangeAction::Fail(
                MoonError::Middleware(text),
            ),
        }
    }

    /// A new exchange. The first thing to do is to run the pre-request hook on the request.
    /// `replayable` says whether a copy of the request could be put aside.
    pub fn begin(replayable: bool) -> (started: (Exchange, ExchangeAction))
        ensures
            started.0 == (Exchange {
                attempt: Attempt::First,
                phase: Phase::Preparing,
                replayable,
            }),
            started.1 == ExchangeAction::Prepare(Attempt::First),
    {
        (
            Exchange { attempt: Attempt::First, phase: Phase::Preparing, replayable },
            ExchangeAction::Prepare(Attempt::First),
        )
    }

    /// Takes note of an event, and says what to do next.
    pub fn step(self, event: ExchangeEvent, settings: &RequestSettings) -> (next: (
        Exchange,
        ExchangeAction,
    ))
        requires
            self.awaits(event),
        ensures
            next.0 == self.after(event),
            self.is_next(event, *settings, next.1),
    {
        let closed = Exchange { phase: Phase::Closed, ..self };
        match event {
            ExchangeEvent::Prepared(Ok(_)) => (
                Exchange { phase: Phase::Waiting, ..self },
                ExchangeAction::Wait {
                    user_agent: settings.user_agent.clone(),
                    timeout: settings.timeout,
                },
            ),
            ExchangeEvent::Prepared(Err(text)) => (
                closed,
                ExchangeAction::Fail(MoonError::Middleware(text)),
            ),
            ExchangeEvent::Admitted(Ok(_)) => (
                Exchange { phase: Phase::Sending, ..self },
                ExchangeAction::Send,
            ),
            ExchangeEvent::Admitted(Err(error)) => (closed, ExchangeAction::Fail(error)),
            ExchangeEvent::Answered(Ok(_)) => (
                Exchange { phase: Phase::Inspecting, ..self },
                ExchangeAction::Inspect,
            ),
            ExchangeEvent::Answered(Err(failure)) => (
                closed,
                ExchangeAction::Fail(failure.into_error()),
            ),
            ExchangeEvent::Inspected(Ok(status)) => if self.attempt == Attempt::First && status
                == UNAUTHORIZED {
                (Exchange { phase: Phase::Refreshing, ..self }, ExchangeAction::Refresh)
            } else {
                (closed, ExchangeAction::Extract { body_limit: settings.body_limit })
            },
            ExchangeEvent::Inspected(Err(text)) => (
                closed,
                ExchangeAction::Fail(MoonError::Middleware(text)),
            ),
            ExchangeEvent::Refreshed(Ok(refreshed)) => if refreshed && self.replayable {
                (
                    Exchange { attempt: Attempt::Replay, phase: Phase::Preparing, ..self },
                    ExchangeAction::Prepare(Attempt::Replay),
                )
            } else {
                (closed, ExchangeAction::Extract { body_limit: settings.body_limit })
            },
            ExchangeEvent::Refreshed(Err(text)) => (
                closed,
                ExchangeAction::Fail(MoonError::Middleware(text)),
            ),
        }
    }

    /// The most events that the exchange can still take.
    pub open spec fn events_left(self) -> nat {
        let phases_left: nat = match self.phase {
            Phase::Preparing => 4,
            Phase::Waiting => 3,
            Phase::Sending => 2,
            Phase::Inspecting => 1,
            Phase::Refreshing => 0,
            Phase::Closed => 0,
        };
        match self.attempt {
            Attempt::First => if self.phase == Phase::Closed {
                0
            } else {
                (phases_left + 5) as nat
            },
            Attempt::Replay => phases_left,
        }
    }
}

/// Every event brings an exchange closer to its end: it takes at most nine.
pub proof fn law_exchange_ends(exchange: Exchange, event: ExchangeEvent)
    requires
        exchange.awaits(event),
        exchange.attempt == Attempt::Replay ==> exchange.phase != Phase::Refreshing,
    ensures
        exchange.after(event).events_left() < exchange.events_left() <= 9,
        exchange.after(event).attempt == Attempt::Replay ==> exchange.after(event).phase
            != Phase::Refreshing,
{
}

/// The exchange after a run of events.
pub open spec fn exchange_after(start: Exchange, events: Seq<ExchangeEvent>) -> Exchange
    decreases events.len(),
{
    if events.len() == 0 {
        start
    } else {
        exchange_after(start, events.drop_last()).after(events.last())
    }
}

/// A run of events, each of which the exchange waits for.
pub open spec fn is_run(start: Exchange, events: Seq<ExchangeEvent>) -> bool
    decreases events.len(),
{
    events.len() == 0 || (is_run(start, events.drop_last()) && exchange_after(
        start,
        events.drop_last(),
    ).awaits(events.last()))
}

/// A new exchange.
pub open spec fn new_exchange(replayable: bool) -> Exchange {
    Exchange { attempt: Attempt::First, phase: Phase::Preparing, replayable }
}

/// The number of times that the rate limiter let the request through, and with it the number of
/// times that the request is sent.
pub open spec fn times_sent(events: Seq<ExchangeEvent>) -> nat
    decreases events.len(),
{
    if events.len() == 0 {
        0
    } else {
        times_sent(events.drop_last()) + if events.last() matches ExchangeEvent::Admitted(Ok(_)) {
            1nat
        } else {
            0nat
        }
    }
}

/// Whether the session was refreshed in the course of a run.
pub open spec fn was_refreshed(events: Seq<ExchangeEvent>) -> bool {
    exists|i: int|
        0 <= i < events.len() && (#[trigger] events[i] matches ExchangeEvent::Refreshed(Ok(true)))
}

/// Whether a run holds a response with the status that asks for fresh credentials.
pub open spec fn was_unauthorized(events: Seq<ExchangeEvent>) -> bool {
    exists|i: int|
        0 <= i < events.len() && (#[trigger] events[i] matches ExchangeEvent::Inspected(Ok(status))
            && status == UNAUTHORIZED)
}

proof fn lemma_run(replayable: bool, events: Seq<ExchangeEvent>)
    requires
        is_run(new_exchange(replayable), events),
    ensures
        ({
            let now = exchange_after(new_exchange(replayable), events);
            &&& now.replayable == replayable
            &&& now.attempt == Attempt::Replay ==> replayable && was_refreshed(events)
                && was_unauthorized(events) && now.phase != Phase::Refreshing
            &&& now.phase == Phase::Refreshing ==> was_unauthorized(events)
            &&& times_sent(events) <= 2
            &&& now.attempt == Attempt::First && (now.phase == Phase::Preparing || now.phase
                == Phase::Waiting) ==> times_sent(events) == 0
            &&& now.attempt == Attempt::First ==> times_sent(events) <= 1
            &&& now.attempt == Attempt::Replay && (now.phase == Phase::Preparing || now.phase
                == Phase::Waiting) ==> times_sent(events) <= 1
            &&& events.len() + now.events_left() <= 9
        }),
    decreases events.len(),
{
    if events.len() > 0 {
        let earlier = events.drop_last();
        lemma_run(replayable, earlier);
        let before = exchange_after(new_exchange(replayable), earlier);
        let event = events.last();
        assert(events[events.len() - 1] == event);
        if was_refreshed(earlier) {
            let i = choose|i: int|
                0 <= i < earlier.len() && (#[trigger] earlier[i] matches ExchangeEvent::Refreshed(
                    Ok(true),
                ));
            assert(events[i] == earlier[i]);
            assert(was_refreshed(events));
        }
        if was_unauthorized(earlier) {
            let i = choose|i: int|
                0 <= i < earlier.len() && (#[trigger] earlier[i] matches ExchangeEvent::Inspected(
                    Ok(status),
                ) && status == UNAUTHORIZED);
            assert(events[i] == earlier[i]);
            assert(was_unauthorized(events));
        }
        law_exchange_ends(before, event);
    }
}

/// A request is sent at most twice, and an exchange takes at most nine events.
pub proof fn law_sent_at_most_twice(replayable: bool, events: Seq<ExchangeEvent>)
    requires
        is_run(new_exchange(replayable), events),
    ensures
        times_sent(events) <= 2,
        events.len() <= 9,
{
    lemma_run(replayable, events);
}

/// A request is sent a second time only if the first response asked for fresh credentials, the
/// session was refreshed since, and a copy of the request had been put aside.
pub proof fn law_replay_needs_fresh_session(replayable: bool, events: Seq<ExchangeEvent>)
    requires
        is_run(new_exchange(replayable), events),
        times_sent(events) == 2,
    ensures
        replayable,
        was_unauthorized(events),
        was_refreshed(events),
{
    lemma_run(replayable, events);
}

/// A request is handed to the transport only once the pre-request hook is done with this very
/// attempt and the rate limiter has let it through: those are the last two events before it.
pub proof fn law_send_follows_hook_and_limiter(replayable: bool, events: Seq<ExchangeEvent>)
    requires
        is_run(new_exchange(replayable), events),
        exchange_after(new_exchange(replayable), events).phase == Phase::Sending,
    ensures
        events.len() >= 2,
        events[events.len() - 1] matches ExchangeEvent::Admitted(Ok(_)),
        events[events.len() - 2] matches ExchangeEvent::Prepared(Ok(_)),
{
    let start = new_exchange(replayable);
    let earlier = events.drop_last();
    assert(is_run(start, earlier));
    assert(exchange_after(start, earlier).awaits(events.last()));
    assert(exchange_after(start, earlier).phase == Phase::Waiting);
    assert(earlier.len() > 0);
    assert(is_run(start, earlier.drop_last()));
    assert(exchange_after(start, earlier.drop_last()).awaits(earlier.last()));
}

/// The number of responses that came in.
pub open spec fn times_answered(events: Seq<ExchangeEvent>) -> nat
    decreases events.len(),
{
    if events.len() == 0 {
        0
    } else {
        times_answered(events.drop_last()) + if events.last() matches ExchangeEvent::Answered(
            Ok(_),
        ) {
            1nat
        } else {
            0nat
        }
    }
}

/// The number of responses that the post-request hook is done with.
pub open spec fn times_inspected(events: Seq<ExchangeEvent>) -> nat
    decreases events.len(),
{
    if events.len() == 0 {
        0
    } else {
        times_inspected(events.drop_last()) + if events.last() is Inspected {
            1nat
        } else {
            0nat
        }
    }
}

/// Every response goes through the post-request hook, the one to a replay too: the only one that
/// has not is the one that the hook is looking at.
pub proof fn law_every_response_is_inspected(replayable: bool, events: Seq<ExchangeEvent>)
    requires
        is_run(new_exchange(replayable), events),
    ensures
        times_answered(events) == times_inspected(events) + if exchange_after(
            new_exchange(replayable),
            events,
        ).phase == Phase::Inspecting {
            1nat
        } else {
            0nat
        },
    decreases events.len(),
{
    if events.len() > 0 {
        law_every_response_is_inspected(replayable, events.drop_last());
    }
}

/// An exchange is over without an error only once a response went through the post-request hook.
pub proof fn law_extraction_follows_inspection(
    exchange: Exchange,
    event: ExchangeEvent,
    settings: RequestSettings,
    action: ExchangeAction,
)
    requires
        exchange.awaits(event),
        exchange.is_next(event, settings, action),
        action is Extract,
    ensures
        event is Inspected || event is Refreshed,
        exchange.after(event).phase == Phase::Closed,
{
}

/// The first failure ends an exchange, and nothing but a failure makes it fail.
pub proof fn law_failures_are_final(
    exchange: Exchange,
    event: ExchangeEvent,
    settings: RequestSettings,
    action: ExchangeAction,
)
    requires
        exchange.awaits(event),
        exchange.is_next(event, settings, action),
    ensures
        action is Fail <==> match event {
            ExchangeEvent::Prepared(outcome) => outcome is Err,
            ExchangeEvent::Admitted(outcome) => outcome is Err,
            ExchangeEvent::Answered(outcome) => outcome is Err,
            ExchangeEvent::Inspected(outcome) => outcome is Err,
            ExchangeEvent::Refreshed(outcome) => outcome is Err,
        },
        action is Fail ==> exchange.after(event).phase == Phase::Closed,
{
}

/// If the session is not refreshed, or there is no copy of the request to replay, the first response
/// is the one that is extracted: its caller gets to see the refusal.
pub proof fn law_unrecovered_response_is_extracted(
    exchange: Exchange,
    refreshed: bool,
    settings: RequestSettings,
    action: ExchangeAction,
)
    requires
        exchange.phase == Phase::Refreshing,
        !(refreshed && exchange.replayable),
        exchange.is_next(ExchangeEvent::Refreshed(Ok(refreshed)), settings, action),
    ensures
        action == (ExchangeAction::Extract { body_limit: settings.body_limit }),
        exchange.after(ExchangeEvent::Refreshed(Ok(refreshed))) == exchange.at(Phase::Closed),
{
}

/// How far a download has come.
#[derive(Clone, Copy, Debug, PartialEq, Eq, Structural)]
pub enum Download {
    /// It waits for the rate limiter.
    Waiting,
    /// It waits for the response.
    Sending,
    /// It is over.
    Closed,
}

/// What came of the outside work for a download.
#[derive(Debug)]
pub enum DownloadEvent {
    /// The rate limiter lets the request through, or failed.
    Admitted(Result<(), MoonError>),
    /// A response with this status is there, or sending failed.
    Answered(Result<u16, SendFailure>),
}

/// The outside work that comes next for a download.
#[derive(Debug)]
pub enum DownloadAction {
    /// Set the user agent and, if there is one, the timeout on the request. Then wait for the rate
    /// limiter.
    Wait {
        /// The value of the `User-Agent` header.
        user_agent: String,
        /// How long the request may take.
        timeout: Option<TimeSpan>,
    },
    /// Send the request.
    Send,
    /// Read the body.
    ReadBody,
    /// Give up with this error.
    Fail(MoonError),
}

/// A status from 400 to 599.
pub open spec fn is_error_status(status: u16) -> bool {
    crate::response::is_client_error(status) || crate::response::is_server_error(status)
}

impl Download {
    /// Whether the event is one that the download waits for.
    pub open spec fn awaits(self, event: DownloadEvent) -> bool {
        match event {
            DownloadEvent::Admitted(_) => self == Download::Waiting,
            DownloadEvent::Answered(_) => self == Download::Sending,
        }
    }

    /// The download after an event.
    pub open spec fn after(self, event: DownloadEvent) -> Download {
        match event {
            DownloadEvent::Admitted(Ok(_)) => Download::Sending,
            _ => Download::Closed,
        }
    }

    /// `action` is the work that comes after an event.
    pub open spec fn is_next(self, event: DownloadEvent, action: DownloadAction) -> bool {
        match event {
            DownloadEvent::Admitted(Ok(_)) => action == DownloadAction::Send,
            DownloadEvent::Admitted(Err(error)) => action == DownloadAction::Fail(error),
            DownloadEvent::Answered(Ok(status)) => if is_error_status(status) {
                action matches DownloadAction::Fail(MoonError::ApiError { code, message }) && code
                    == status && message@ == status_line(status)
            } else {
                action == DownloadAction::ReadBody
            },
            DownloadEvent::Answered(Err(failure)) => action == DownloadAction::Fail(
                failure.as_error(),
            ),
        }
    }

    /// A new download. The first thing to do is to wait for the rate limiter.
    pub fn begin(settings: &RequestSettings) -> (started: (Download, DownloadAction))
        ensures
            started.0 == Download::Waiting,
            started.1 == (DownloadAction::Wait {
                user_agent: settings.user_agent,
                timeout: settings.timeout,
            }),
    {
        (
            Download::Waiting,
            DownloadAction::Wait {
                user_agent: settings.user_agent.clone(),
                timeout: settings.timeout,
            },
        )
    }

    /// Takes note of an event, and says what to do next.
    pub fn step(self, event: DownloadEvent) -> (next: (Download, DownloadAction))
        requires
            self.awaits(event),
        ensures
            next.0 == self.after(event),
            self.is_next(event, next.1),
    {
        match event {
            DownloadEvent::Admitted(Ok(_)) => (Download::Sending, DownloadAction::Send),
            DownloadEvent::Admitted(Err(error)) => (Download::Closed, DownloadAction::Fail(error)),
            DownloadEvent::Answered(Ok(status)) => if 400 <= status && status < 600 {
                (
                    Download::Closed,
                    DownloadAction::Fail(
                        MoonError::ApiError { code: status, message: status_text(status) },
                    ),
                )
            } else {
                (Download::Closed, DownloadAction::ReadBody)
            },
            DownloadEvent::Answered(Err(failure)) => (
                Download::Closed,
                DownloadAction::Fail(failure.into_error()),
            ),
        }
    }
}

/// Whenever something is extracted, at most as many bytes of a successful body are read as the
/// settings say, whatever the status and whatever came before.
pub proof fn law_extraction_reads_what_is_set(
    exchange: Exchange,
    event: ExchangeEvent,
    settings: RequestSettings,
    action: ExchangeAction,
)
    requires
        exchange.awaits(event),
        exchange.is_next(event, settings, action),
    ensures
        action matches ExchangeAction::Extract { body_limit } ==> body_limit == settings.body_limit,
{
}

/// Whenever a request goes on to the limiter, it carries the user agent and the timeout that are set.
pub proof fn law_requests_carry_the_settings(
    exchange: Exchange,
    event: ExchangeEvent,
    settings: RequestSettings,
    action: ExchangeAction,
)
    requires
        exchange.awaits(event),
        exchange.is_next(event, settings, action),
    ensures
        action matches ExchangeAction::Wait { user_agent, timeout } ==> user_agent
            == settings.user_agent && timeout == settings.timeout,
{
}

/// What is done next, and when: the limiter comes after the pre-request hook, sending after the
/// limiter, the post-request hook after a response; the session is refreshed exactly after a first
/// response with status 401, a replay is prepared exactly after a refresh when there is a copy, and
/// everything else that went well is extracted.
pub proof fn law_each_action_has_its_place(
    exchange: Exchange,
    event: ExchangeEvent,
    settings: RequestSettings,
    action: ExchangeAction,
)
    requires
        exchange.awaits(event),
        exchange.is_next(event, settings, action),
    ensures
        action is Wait <==> (event matches ExchangeEvent::Prepared(Ok(_))),
        action is Send <==> (event matches ExchangeEvent::Admitted(Ok(_))),
        action is Inspect <==> (event matches ExchangeEvent::Answered(Ok(_))),
        action is Refresh <==> exchange.attempt == Attempt::First && (
        event matches ExchangeEvent::Inspected(Ok(status)) && status == 401),
        action is Prepare <==> exchange.replayable && (event matches ExchangeEvent::Refreshed(
            Ok(refreshed),
        ) && refreshed),
        action matches ExchangeAction::Prepare(attempt) ==> attempt == Attempt::Replay,
        action is Extract <==> ((event matches ExchangeEvent::Inspected(Ok(status)) && !(status
            == 401 && exchange.attempt == Attempt::First)) || (
        event matches ExchangeEvent::Refreshed(Ok(refreshed)) && !(refreshed
            && exchange.replayable))),
{
}

/// An exchange fails with what went wrong and nothing else: the text of a hook's failure, the
/// limiter's own error, or the text of the transport or of the pipeline.
pub proof fn law_failures_are_reported_as_they_are(
    exchange: Exchange,
    event: ExchangeEvent,
    settings: RequestSettings,
    error: MoonError,
)
    requires
        exchange.awaits(event),
        exchange.is_next(event, settings, ExchangeAction::Fail(error)),
    ensures
        match event {
            ExchangeEvent::Prepared(outcome) => outcome matches Err(text) && error
                == MoonError::Middleware(text),
            ExchangeEvent::Admitted(outcome) => outcome == Err::<(), MoonError>(error),
            ExchangeEvent::Answered(outcome) => match outcome {
                Err(SendFailure::Transport(text)) => error == MoonError::Network(text),
                Err(SendFailure::Pipeline(text)) => error == MoonError::Middleware(text),
                Ok(_) => false,
            },
            ExchangeEvent::Inspected(outcome) => outcome matches Err(text) && error
                == MoonError::Middleware(text),
            ExchangeEvent::Refreshed(outcome) => outcome matches Err(text) && error
                == MoonError::Middleware(text),
        },
{
}

/// After an event an exchange waits for the outcome of what is done next, and for nothing else: the
/// attempt changes only when a replay is prepared, and whether there is a copy never does.
pub proof fn law_exchange_waits_for_its_action(
    exchange: Exchange,
    event: ExchangeEvent,
    settings: RequestSettings,
    action: ExchangeAction,
)
    requires
        exchange.awaits(event),
        exchange.is_next(event, settings, action),
    ensures
        exchange.after(event).phase == match action {
            ExchangeAction::Prepare(_) => Phase::Preparing,
            ExchangeAction::Wait { .. } => Phase::Waiting,
            ExchangeAction::Send => Phase::Sending,
            ExchangeAction::Inspect => Phase::Inspecting,
            ExchangeAction::Refresh => Phase::Refreshing,
            ExchangeAction::Extract { .. } => Phase::Closed,
            ExchangeAction::Fail(_) => Phase::Closed,
        },
        exchange.after(event).attempt == match action {
            ExchangeAction::Prepare(attempt) => attempt,
            _ => exchange.attempt,
        },
        exchange.after(event).replayable == exchange.replayable,
{
}

/// Each event is awaited in exactly one phase, and none once the exchange is over.
pub proof fn law_events_come_in_their_phase(exchange: Exchange, event: ExchangeEvent)
    ensures
        exchange.awaits(event) <==> match exchange.phase {
            Phase::Preparing => event is Prepared,
            Phase::Waiting => event is Admitted,
            Phase::Sending => event is Answered,
            Phase::Inspecting => event is Inspected,
            Phase::Refreshing => event is Refreshed,
            Phase::Closed => false,
        },
{
}

/// What is done next is settled: there is one action for an event.
pub proof fn law_next_action_is_settled(
    exchange: Exchange,
    event: ExchangeEvent,
    settings: RequestSettings,
    a: ExchangeAction,
    b: ExchangeAction,
)
    requires
        exchange.is_next(event, settings, a),
        exchange.is_next(event, settings, b),
    ensures
        a == b,
{
}

/// A download reads the body of every response but those with a status from 400 to 599, which it
/// reports with their status and its words. It sends once the limiter lets it, and fails with what
/// went wrong.
pub proof fn law_download_each_action_has_its_place(
    download: Download,
    event: DownloadEvent,
    action: DownloadAction,
)
    requires
        download.awaits(event),
        download.is_next(event, action),
    ensures
        match event {
            DownloadEvent::Admitted(Ok(_)) => action is Send && download.after(event)
                == Download::Sending,
            DownloadEvent::Admitted(Err(error)) => action == DownloadAction::Fail(error)
                && download.after(event) == Download::Closed,
            DownloadEvent::Answered(Ok(status)) => {
                &&& download.after(event) == Download::Closed
                &&& action is ReadBody <==> !(400 <= status <= 599)
                &&& 400 <= status <= 599 ==> (action matches DownloadAction::Fail(
                    MoonError::ApiError { code, message },
                ) && code == status && message@ == status_line(status))
            },
            DownloadEvent::Answered(Err(SendFailure::Transport(text))) => action
                == DownloadAction::Fail(MoonError::Network(text)) && download.after(event)
                == Download::Closed,
            DownloadEvent::Answered(Err(SendFailure::Pipeline(text))) => action
                == DownloadAction::Fail(MoonError::Middleware(text)) && download.after(event)
                == Download::Closed,
        },
        download == match event {
            DownloadEvent::Admitted(_) => Download::Waiting,
            DownloadEvent::Answered(_) => Download::Sending,
        },
{
}

/// A request starts with its first attempt before the pre-request hook, with a copy to replay exactly
/// if one could be put aside.
pub proof fn law_exchange_starts(replayable: bool)
    ensures
        new_exchange(replayable).attempt == Attempt::First,
        new_exchange(replayable).phase == Phase::Preparing,
        new_exchange(replayable).replayable == replayable,
        new_exchange(replayable).events_left() == 9,
{
}

/// What a step answers: the next state awaits the outcome of the action, and an extraction reads what
/// the settings allow.
pub proof fn law_steps_follow_the_settings(
    exchange: Exchange,
    event: ExchangeEvent,
    settings: RequestSettings,
    next: (Exchange, ExchangeAction),
)
    requires
        exchange.awaits(event),
        call_ensures(Exchange::step, (exchange, event, &settings), next),
    ensures
        next.1 matches ExchangeAction::Extract { body_limit } ==> body_limit == settings.body_limit,
        next.1 matches ExchangeAction::Wait { user_agent, timeout } ==> user_agent
            == settings.user_agent && timeout == settings.timeout,
        next.1 is Refresh ==> exchange.attempt == Attempt::First && event
            == ExchangeEvent::Inspected(Ok(401)),
        (next.1 is Extract || next.1 is Fail) <==> next.0.phase == Phase::Closed,
        next.0.replayable == exchange.replayable,
{
}

} // verus!
