//! Starting the frontend's development server when none is listening yet, as
//! decisions taken one event at a time: the caller performs each action
//! (connect, spawn, look at the clock, poll the child, sleep, kill) and
//! reports what happened.
use vstd::prelude::*;

verus! {

/// Where the development server listens.
pub const DEV_SERVER_ADDRESS: &'static str = "127.0.0.1:1420";

/// How long the server may take to start listening, in milliseconds.
pub const STARTUP_TIMEOUT_MS: u64 = 10_000;

/// How long to wait between two looks, in milliseconds.
pub const POLL_INTERVAL_MS: u64 = 100;

/// The error of a server that did not listen in time.
pub const STARTUP_TIMEOUT_MESSAGE: &'static str = "pnpm dev did not start listening on 127.0.0.1:1420 within 10 seconds";

/// The start of the error of a server process that exited.
pub const EXITED_MESSAGE: &'static str = "pnpm dev exited with ";

/// Where starting the server stands.
#[derive(Clone, Copy, Debug, PartialEq, Eq, Structural)]
pub enum DevServerState {
    /// Nothing done yet.
    Idle,
    /// Asked whether a server already listens.
    CheckingExisting,
    /// Asked to start `pnpm dev`.
    Spawning,
    /// Asked for the time since the start.
    ReadingClock,
    /// Asked whether the started server listens.
    Probing,
    /// Asked whether the server process has exited.
    PollingChild,
    /// Asked to wait before looking again.
    Sleeping,
    /// Finished.
    Done,
}

/// What the caller reports.
pub enum DevServerEvent {
    /// Starting is asked for.
    Begin,
    /// Whether a connection to the server's address succeeded.
    Listening(bool),
    /// Starting the process failed with this message.
    SpawnFailed(String),
    /// The process started.
    Spawned,
    /// Milliseconds since the process started.
    Elapsed(u64),
    /// The process is still running.
    ChildRunning,
    /// The process exited with this status.
    ChildExited(String),
    /// Asking about the process failed with this message.
    PollFailed(String),
    /// The wait is over.
    Slept,
}

/// What the caller is to do next.
pub enum DevServerAction {
    /// Try to connect to the server's address.
    CheckListening,
    /// Start `pnpm dev` in the frontend directory.
    SpawnServer,
    /// Report the time since the process started.
    ReadClock,
    /// Ask whether the process has exited.
    PollChild,
    /// Wait this many milliseconds.
    Sleep(u64),
    /// Finished: a server was already listening, none was started.
    UseExisting,
    /// Finished: the started server listens; keep its process.
    KeepStarted,
    /// Finished with this error.
    Fail(String),
    /// Finished: kill the process and fail with a time-out and this message.
    KillAndTimeOut(String),
    /// The event does not fit where starting stands: nothing to do.
    Ignore,
}

/// A reported event, as a value.
pub enum DevServerEventView {
    Begin,
    Listening(bool),
    SpawnFailed(Seq<char>),
    Spawned,
    Elapsed(u64),
    ChildRunning,
    ChildExited(Seq<char>),
    PollFailed(Seq<char>),
    Slept,
}

/// An action, as a value.
pub enum DevServerActionView {
    CheckListening,
    SpawnServer,
    ReadClock,
    PollChild,
    Sleep(u64),
    UseExisting,
    KeepStarted,
    Fail(Seq<char>),
    KillAndTimeOut(Seq<char>),
    Ignore,
}

impl View for DevServerEvent {
    type V = DevServerEventView;

    open spec fn view(&self) -> DevServerEventView {
        match self {
            DevServerEvent::Begin => DevServerEventView::Begin,
            DevServerEvent::Listening(up) => DevServerEventView::Listening(*up),
            DevServerEvent::SpawnFailed(message) => DevServerEventView::SpawnFailed(message@),
            DevServerEvent::Spawned => DevServerEventView::Spawned,
            DevServerEvent::Elapsed(ms) => DevServerEventView::Elapsed(*ms),
            DevServerEvent::ChildRunning => DevServerEventView::ChildRunning,
            DevServerEvent::ChildExited(status) => DevServerEventView::ChildExited(status@),
            DevServerEvent::PollFailed(message) => DevServerEventView::PollFailed(message@),
            DevServerEvent::Slept => DevServerEventView::Slept,
        }
    }
}

impl View for DevServerAction {
    type V = DevServerActionView;

    open spec fn view(&self) -> DevServerActionView {
        match self {
            DevServerAction::CheckListening => DevServerActionView::CheckListening,
            DevServerAction::SpawnServer => DevServerActionView::SpawnServer,
            DevServerAction::ReadClock => DevServerActionView::ReadClock,
            DevServerAction::PollChild => DevServerActionView::PollChild,
            DevServerAction::Sleep(ms) => DevServerActionView::Sleep(*ms),
            DevServerAction::UseExisting => DevServerActionView::UseExisting,
            DevServerAction::KeepStarted => DevServerActionView::KeepStarted,
            DevServerAction::Fail(message) => DevServerActionView::Fail(message@),
            DevServerAction::KillAndTimeOut(message) => DevServerActionView::KillAndTimeOut(
                message@,
            ),
            DevServerAction::Ignore => DevServerActionView::Ignore,
        }
    }
}

/// The next state and action: look for a running server first and use it if
/// there is one; otherwise start `pnpm dev`, then, while less than
/// `STARTUP_TIMEOUT_MS` have passed since it started, look whether it listens
/// (done), else whether it exited (an error naming its status), else wait
/// `POLL_INTERVAL_MS` and look again; once the time is up, kill it and fail.
pub open spec fn dev_server_step(state: DevServerState, event: DevServerEventView) -> (
    DevServerState,
    DevServerActionView,
) {
    match (state, event) {
        (DevServerState::Idle, DevServerEventView::Begin) => (
            DevServerState::CheckingExisting,
            DevServerActionView::CheckListening,
        ),
        (DevServerState::CheckingExisting, DevServerEventView::Listening(up)) => if up {
            (DevServerState::Done, DevServerActionView::UseExisting)
        } else {
            (DevServerState::Spawning, DevServerActionView::SpawnServer)
        },
        (DevServerState::Spawning, DevServerEventView::SpawnFailed(message)) => (
            DevServerState::Done,
            DevServerActionView::Fail(message),
        ),
        (DevServerState::Spawning, DevServerEventView::Spawned) => (
            DevServerState::ReadingClock,
            DevServerActionView::ReadClock,
        ),
        (DevServerState::ReadingClock, DevServerEventView::Elapsed(ms)) => if ms
            < STARTUP_TIMEOUT_MS {
            (DevServerState::Probing, DevServerActionView::CheckListening)
        } else {
            (DevServerState::Done, DevServerActionView::KillAndTimeOut(STARTUP_TIMEOUT_MESSAGE@))
        },
        (DevServerState::Probing, DevServerEventView::Listening(up)) => if up {
            (DevServerState::Done, DevServerActionView::KeepStarted)
        } else {
            (DevServerState::PollingChild, DevServerActionView::PollChild)
        },
        (DevServerState::PollingChild, DevServerEventView::ChildRunning) => (
            DevServerState::Sleeping,
            DevServerActionView::Sleep(POLL_INTERVAL_MS),
        ),
        (DevServerState::PollingChild, DevServerEventView::ChildExited(status)) => (
            DevServerState::Done,
            DevServerActionView::Fail(EXITED_MESSAGE@ + status),
        ),
        (DevServerState::PollingChild, DevServerEventView::PollFailed(message)) => (
            DevServerState::Done,
            DevServerActionView::Fail(message),
        ),
        (DevServerState::Sleeping, DevServerEventView::Slept) => (
            DevServerState::ReadingClock,
            DevServerActionView::ReadClock,
        ),
        _ => (state, DevServerActionView::Ignore),
    }
}

/// Takes one reported event and gives the next state and action.
pub fn dev_server_next(state: DevServerState, event: DevServerEvent) -> (r: (
    DevServerState,
    DevServerAction,
))
    ensures
        (r.0, r.1@) == dev_server_step(state, event@),
{
    match (state, event) {
        (DevServerState::Idle, DevServerEvent::Begin) => (
            DevServerState::CheckingExisting,
            DevServerAction::CheckListening,
        ),
        (DevServerState::CheckingExisting, DevServerEvent::Listening(up)) => if up {
            (DevServerState::Done, DevServerAction::UseExisting)
        } else {
            (DevServerState::Spawning, DevServerAction::SpawnServer)
        },
        (DevServerState::Spawning, DevServerEvent::SpawnFailed(message)) => (
            DevServerState::Done,
            DevServerAction::Fail(message),
        ),
        (DevServerState::Spawning, DevServerEvent::Spawned) => (
            DevServerState::ReadingClock,
            DevServerAction::ReadClock,
        ),
        (DevServerState::ReadingClock, DevServerEvent::Elapsed(ms)) => if ms < STARTUP_TIMEOUT_MS {
            (DevServerState::Probing, DevServerAction::CheckListening)
        } else {
            (
                DevServerState::Done,
                DevServerAction::KillAndTimeOut(String::from_str(STARTUP_TIMEOUT_MESSAGE)),
            )
        },
        (DevServerState::Probing, DevServerEvent::Listening(up)) => if up {
            (DevServerState::Done, DevServerAction::KeepStarted)
        } else {
            (DevServerState::PollingChild, DevServerAction::PollChild)
        },
        (DevServerState::PollingChild, DevServerEvent::ChildRunning) => (
            DevServerState::Sleeping,
            DevServerAction::Sleep(POLL_INTERVAL_MS),
        ),
        (DevServerState::PollingChild, DevServerEvent::ChildExited(status)) => {
            let mut message = String::from_str(EXITED_MESSAGE);
            message.append(status.as_str());
            (DevServerState::Done, DevServerAction::Fail(message))
        },
        (DevServerState::PollingChild, DevServerEvent::PollFailed(message)) => (
            DevServerState::Done,
            DevServerAction::Fail(message),
        ),
        (DevServerState::Sleeping, DevServerEvent::Slept) => (
            DevServerState::ReadingClock,
            DevServerAction::ReadClock,
        ),
        _ => (state, DevServerAction::Ignore),
    }
}

/// The action ends the start: the server is used, kept, or an error is given.
pub open spec fn is_final_action(action: DevServerActionView) -> bool {
    action is UseExisting || action is KeepStarted || action is Fail || action is KillAndTimeOut
}

/// Law: starting ends exactly with a final action, and once it has ended every
/// further event is ignored.
pub proof fn law_start_ends_once(state: DevServerState, event: DevServerEventView)
    ensures
        state != DevServerState::Done ==> (dev_server_step(state, event).0
            == DevServerState::Done <==> is_final_action(dev_server_step(state, event).1)),
        state == DevServerState::Done ==> dev_server_step(state, event) == (
            DevServerState::Done,
            DevServerActionView::Ignore,
        ),
{
}

/// Law: the process is killed only when the time since it started has reached
/// `STARTUP_TIMEOUT_MS`, and it is kept only when it was found listening.
pub proof fn law_kill_only_after_timeout(state: DevServerState, event: DevServerEventView)
    ensures
        dev_server_step(state, event).1 is KillAndTimeOut ==> (state == DevServerState::ReadingClock
            && (event matches DevServerEventView::Elapsed(ms) && ms >= STARTUP_TIMEOUT_MS)),
        dev_server_step(state, event).1 is KeepStarted ==> state == DevServerState::Probing
            && event == DevServerEventView::Listening(true),
{
}

/// The state after a run of reported events from `state`, and the actions
/// decided, one for each event.
pub open spec fn dev_server_run(state: DevServerState, events: Seq<DevServerEventView>) -> (
    DevServerState,
    Seq<DevServerActionView>,
)
    decreases events.len(),
{
    if events.len() == 0 {
        (state, Seq::empty())
    } else {
        let (next, action) = dev_server_step(state, events[0]);
        let (end, rest) = dev_server_run(next, events.drop_first());
        (end, seq![action] + rest)
    }
}

proof fn lemma_run_shape(state: DevServerState, events: Seq<DevServerEventView>)
    ensures
        dev_server_run(state, events).1.len() == events.len(),
        events.len() > 0 ==> dev_server_run(state, events).1[0] == dev_server_step(
            state,
            events[0],
        ).1,
        forall|k: int|
            0 < k < events.len() ==> #[trigger] dev_server_run(state, events).1[k]
                == dev_server_run(dev_server_step(state, events[0]).0, events.drop_first()).1[k
                - 1],
    decreases events.len(),
{
    if events.len() > 0 {
        lemma_run_shape(dev_server_step(state, events[0]).0, events.drop_first());
    }
}

/// From `Done`, every event is ignored.
proof fn lemma_done_run(events: Seq<DevServerEventView>)
    ensures
        dev_server_run(DevServerState::Done, events).0 == DevServerState::Done,
        forall|k: int|
            0 <= k < events.len() ==> #[trigger] dev_server_run(DevServerState::Done, events).1[k]
                == DevServerActionView::Ignore,
    decreases events.len(),
{
    lemma_run_shape(DevServerState::Done, events);
    if events.len() > 0 {
        lemma_done_run(events.drop_first());
    }
}

/// Once past the first look for a running server, the server is never
/// started again.
proof fn lemma_no_spawn_later(state: DevServerState, events: Seq<DevServerEventView>)
    requires
        state != DevServerState::Idle,
        state != DevServerState::CheckingExisting,
    ensures
        forall|k: int|
            0 <= k < events.len() ==> #[trigger] dev_server_run(state, events).1[k]
                != DevServerActionView::SpawnServer,
    decreases events.len(),
{
    lemma_run_shape(state, events);
    if events.len() > 0 {
        lemma_no_spawn_later(dev_server_step(state, events[0]).0, events.drop_first());
    }
}

/// Law: over any run, once a final action (use the running server, keep the
/// started one, fail, or kill it and time out) has been decided, every later
/// event is ignored; and the server is started at most once.
pub proof fn law_dev_server_run(state: DevServerState, events: Seq<DevServerEventView>)
    ensures
        forall|i: int, j: int|
            0 <= i < j < events.len() && is_final_action(
                #[trigger] dev_server_run(state, events).1[i],
            ) ==> #[trigger] dev_server_run(state, events).1[j] == DevServerActionView::Ignore,
        forall|i: int, j: int|
            0 <= i < j < events.len() && #[trigger] dev_server_run(state, events).1[i]
                == DevServerActionView::SpawnServer ==> #[trigger] dev_server_run(state, events).1[j]
                != DevServerActionView::SpawnServer,
    decreases events.len(),
{
    lemma_run_shape(state, events);
    if events.len() > 0 {
        let next = dev_server_step(state, events[0]).0;
        let rest = events.drop_first();
        law_dev_server_run(next, rest);
        law_start_ends_once(state, events[0]);
        lemma_run_shape(next, rest);
        if is_final_action(dev_server_step(state, events[0]).1) {
            lemma_done_run(rest);
        }
        if dev_server_step(state, events[0]).1 == DevServerActionView::SpawnServer {
            lemma_no_spawn_later(next, rest);
        }
        assert forall|i: int, j: int|
            0 <= i < j < events.len() && is_final_action(
                #[trigger] dev_server_run(state, events).1[i],
            ) implies #[trigger] dev_server_run(state, events).1[j]
            == DevServerActionView::Ignore by {
            if i > 0 {
                assert(dev_server_run(next, rest).1[i - 1] == dev_server_run(state, events).1[i]);
                assert(dev_server_run(next, rest).1[j - 1] == dev_server_run(state, events).1[j]);
            } else if state == DevServerState::Done {
                lemma_done_run(events);
            }
        }
        assert forall|i: int, j: int|
            0 <= i < j < events.len() && #[trigger] dev_server_run(state, events).1[i]
                == DevServerActionView::SpawnServer implies #[trigger] dev_server_run(
            state,
            events,
        ).1[j] != DevServerActionView::SpawnServer by {
            if i > 0 {
                assert(dev_server_run(next, rest).1[i - 1] == dev_server_run(state, events).1[i]);
                assert(dev_server_run(next, rest).1[j - 1] == dev_server_run(state, events).1[j]);
            }
        }
    }
}

/// Law: when a server is already listening at the first look, it is used as
/// it is: starting ends at once and nothing is ever started.
pub proof fn law_existing_server_is_used(events: Seq<DevServerEventView>)
    requires
        events.len() >= 2,
        events[0] == DevServerEventView::Begin,
        events[1] == DevServerEventView::Listening(true),
    ensures
        dev_server_run(DevServerState::Idle, events).1[0] == DevServerActionView::CheckListening,
        dev_server_run(DevServerState::Idle, events).1[1] == DevServerActionView::UseExisting,
        dev_server_run(DevServerState::Idle, events).0 == DevServerState::Done,
        forall|k: int|
            0 <= k < events.len() ==> #[trigger] dev_server_run(DevServerState::Idle, events).1[k]
                != DevServerActionView::SpawnServer,
{
    let rest = events.drop_first();
    lemma_run_shape(DevServerState::Idle, events);
    lemma_run_shape(DevServerState::CheckingExisting, rest);
    assert(rest[0] == DevServerEventView::Listening(true));
    lemma_done_run(rest.drop_first());
    lemma_run_shape(DevServerState::Done, rest.drop_first());
    assert forall|k: int| 0 <= k < events.len() implies #[trigger] dev_server_run(
        DevServerState::Idle,
        events,
    ).1[k] != DevServerActionView::SpawnServer by {
        if k >= 2 {
            assert(dev_server_run(DevServerState::Idle, events).1[k] == dev_server_run(
                DevServerState::CheckingExisting,
                rest,
            ).1[k - 1]);
            assert(dev_server_run(DevServerState::CheckingExisting, rest).1[k - 1]
                == dev_server_run(DevServerState::Done, rest.drop_first()).1[k - 2]);
        }
    }
}

/// Law: over any run, the started server is killed only in answer to a clock
/// reading of at least `STARTUP_TIMEOUT_MS`, kept only in answer to finding it
/// listening, and every wait lasts `POLL_INTERVAL_MS`.
pub proof fn law_dev_server_timing(state: DevServerState, events: Seq<DevServerEventView>)
    ensures
        forall|i: int|
            0 <= i < events.len() && #[trigger] dev_server_run(state, events).1[i] is KillAndTimeOut
                ==> (events[i] matches DevServerEventView::Elapsed(ms) && ms >= STARTUP_TIMEOUT_MS),
        forall|i: int|
            0 <= i < events.len() && #[trigger] dev_server_run(state, events).1[i] is KeepStarted
                ==> events[i] == DevServerEventView::Listening(true),
        forall|i: int|
            0 <= i < events.len() && #[trigger] dev_server_run(state, events).1[i] is Sleep
                ==> dev_server_run(state, events).1[i] == DevServerActionView::Sleep(
                POLL_INTERVAL_MS,
            ),
    decreases events.len(),
{
    lemma_run_shape(state, events);
    if events.len() > 0 {
        let next = dev_server_step(state, events[0]).0;
        let rest = events.drop_first();
        law_dev_server_timing(next, rest);
        law_kill_only_after_timeout(state, events[0]);
        assert forall|i: int| 0 < i < events.len() implies rest[i - 1] == events[i]
            && dev_server_run(state, events).1[i] == dev_server_run(next, rest).1[i - 1] by {}
    }
}

/// Law: a clock reading decides the start alone: below `STARTUP_TIMEOUT_MS`
/// (10 000 ms) the server is looked for again, and at or past it the process is
/// killed and the start times out, whatever the reading.
pub proof fn law_timeout_at_deadline(ms: u64)
    ensures
        STARTUP_TIMEOUT_MS == 10_000,
        ms >= STARTUP_TIMEOUT_MS ==> dev_server_step(
            DevServerState::ReadingClock,
            DevServerEventView::Elapsed(ms),
        ) == (DevServerState::Done, DevServerActionView::KillAndTimeOut(STARTUP_TIMEOUT_MESSAGE@)),
        ms < STARTUP_TIMEOUT_MS ==> dev_server_step(
            DevServerState::ReadingClock,
            DevServerEventView::Elapsed(ms),
        ) == (DevServerState::Probing, DevServerActionView::CheckListening),
{
}

/// Law: the poll loop: a server found listening is kept; one not listening
/// has its process polled; a running process is waited on for
/// `POLL_INTERVAL_MS` (100 ms) and the clock is read again; an exited one ends
/// the start with an error naming its status; a server listening at the first
/// look is used and one not listening is started.
pub proof fn law_poll_loop(up: bool, status: Seq<char>)
    ensures
        POLL_INTERVAL_MS == 100,
        dev_server_step(DevServerState::Idle, DevServerEventView::Begin) == (
            DevServerState::CheckingExisting,
            DevServerActionView::CheckListening,
        ),
        dev_server_step(DevServerState::CheckingExisting, DevServerEventView::Listening(up)) == (
            if up {
                (DevServerState::Done, DevServerActionView::UseExisting)
            } else {
                (DevServerState::Spawning, DevServerActionView::SpawnServer)
            }),
        dev_server_step(DevServerState::Spawning, DevServerEventView::Spawned) == (
            DevServerState::ReadingClock,
            DevServerActionView::ReadClock,
        ),
        dev_server_step(DevServerState::Probing, DevServerEventView::Listening(up)) == (if up {
            (DevServerState::Done, DevServerActionView::KeepStarted)
        } else {
            (DevServerState::PollingChild, DevServerActionView::PollChild)
        }),
        dev_server_step(DevServerState::PollingChild, DevServerEventView::ChildRunning) == (
            DevServerState::Sleeping,
            DevServerActionView::Sleep(100),
        ),
        dev_server_step(DevServerState::Sleeping, DevServerEventView::Slept) == (
            DevServerState::ReadingClock,
            DevServerActionView::ReadClock,
        ),
        dev_server_step(DevServerState::PollingChild, DevServerEventView::ChildExited(status)) == (
            DevServerState::Done,
            DevServerActionView::Fail("pnpm dev exited with "@ + status),
        ),
{
    reveal_strlit("pnpm dev exited with ");
}

} // verus!
