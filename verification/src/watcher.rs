//! The compositor watcher: a state machine that keeps one bridge process
//! alive exactly while the compositor's socket exists.
//!
//! The machine itself performs no I/O. Its driver feeds it events (the socket
//! appeared, the socket vanished, a spawn it asked for succeeded or failed)
//! and carries out the action each step returns.

use crate::message::CopySource;
use crate::text::same_text;
use vstd::prelude::*;

verus! {

/// A change to the compositor's socket.
#[derive(Debug, Clone, Copy, PartialEq, Eq, Structural)]
pub enum SocketEvent {
    /// The socket was created.
    Created,
    /// The socket was deleted.
    Deleted,
}

/// One entry of a change notification for the runtime directory.
pub struct DirEvent {
    /// The name of the directory entry that changed, if the notification has one.
    pub name: Option<String>,
    /// The notification reports a creation.
    pub created: bool,
    /// The notification reports a deletion.
    pub deleted: bool,
}

/// What a notification means for the socket named `display`: nothing unless
/// it carries exactly that name; a creation wins over a deletion.
pub open spec fn classify_spec(
    name: Option<Seq<char>>,
    created: bool,
    deleted: bool,
    display: Seq<char>,
) -> Option<SocketEvent> {
    if name != Some(display) {
        None
    } else if created {
        Some(SocketEvent::Created)
    } else if deleted {
        Some(SocketEvent::Deleted)
    } else {
        None
    }
}

impl DirEvent {
    /// The entry name as a sequence of characters.
    pub open spec fn name_view(&self) -> Option<Seq<char>> {
        match self.name {
            Some(n) => Some(n@),
            None => None,
        }
    }

    /// Narrows a directory notification to the socket named `display`.
    pub fn classify(&self, display: &str) -> (r: Option<SocketEvent>)
        ensures
            r == classify_spec(self.name_view(), self.created, self.deleted, display@),
    {
        match &self.name {
            None => None,
            Some(n) => {
                if !same_text(n.as_str(), display) {
                    None
                } else if self.created {
                    Some(SocketEvent::Created)
                } else if self.deleted {
                    Some(SocketEvent::Deleted)
                } else {
                    None
                }
            },
        }
    }
}

/// Where the watcher looks: a directory and the socket's name inside it.
pub struct WatchTarget {
    /// The per-user runtime directory.
    pub directory: String,
    /// The session's display name, which is also the socket's file name.
    pub name: String,
}

/// The watcher has something to watch only when both the runtime directory
/// and the display name are known.
pub fn watch_target(runtime_dir: Option<String>, display: Option<String>) -> (r: Option<
    WatchTarget,
>)
    ensures
        r is Some <==> runtime_dir is Some && display is Some,
        r matches Some(t) ==> Some(t.directory) == runtime_dir && Some(t.name) == display,
{
    match runtime_dir {
        None => None,
        Some(directory) => match display {
            None => None,
            Some(name) => Some(WatchTarget { directory, name }),
        },
    }
}

/// The program that watches the compositor's clipboard.
pub const WATCH_PROGRAM: &'static str = "wl-paste";

/// The program that sets the compositor's clipboard from its standard input.
pub const COPY_PROGRAM: &'static str = "wl-copy";

/// The arguments of the bridge: watch the compositor's clipboard and, on
/// every change, run `client` to copy the new content to the daemon, tagged
/// as coming from the compositor.
pub open spec fn bridge_arguments_spec(client: Seq<char>) -> Seq<Seq<char>> {
    seq![
        "--watch"@,
        "--"@,
        client,
        "copy"@,
        "--source"@,
        CopySource::Wayland.name_spec(),
    ]
}

/// The arguments to start the bridge with (see `bridge_arguments_spec`).
pub fn bridge_arguments(client: &str) -> (r: Vec<String>)
    ensures
        r.deep_view() == bridge_arguments_spec(client@),
{
    let mut arguments: Vec<String> = Vec::new();
    arguments.push("--watch".to_owned());
    arguments.push("--".to_owned());
    arguments.push(client.to_owned());
    arguments.push("copy".to_owned());
    arguments.push("--source".to_owned());
    arguments.push(CopySource::Wayland.name().to_owned());
    assert(arguments.deep_view() =~= bridge_arguments_spec(client@));
    arguments
}

/// Whether a bridge process is running, and if so the handle that ends it.
#[derive(Debug, PartialEq, Eq)]
pub enum WatcherState<H> {
    /// No bridge is running.
    Inactive,
    /// A bridge is running; the handle is used only to terminate it.
    Active(H),
}

/// What the watcher is told.
#[derive(Debug, PartialEq, Eq)]
pub enum WatcherEvent<H> {
    /// The compositor's socket appeared (or was found at startup).
    SocketCreated,
    /// The compositor's socket disappeared.
    SocketDeleted,
    /// A requested spawn succeeded; this is the new process.
    BridgeStarted(H),
    /// A requested spawn failed.
    SpawnFailed,
    /// The daemon is shutting down.
    Shutdown,
}

impl<H> WatcherEvent<H> {
    /// The watcher event that reports a change to the socket.
    pub open spec fn from_socket_spec(event: SocketEvent) -> WatcherEvent<H> {
        match event {
            SocketEvent::Created => WatcherEvent::SocketCreated,
            SocketEvent::Deleted => WatcherEvent::SocketDeleted,
        }
    }

    /// The watcher event that reports a change to the socket.
    pub fn from_socket(event: SocketEvent) -> (r: WatcherEvent<H>)
        ensures
            r == Self::from_socket_spec(event),
    {
        match event {
            SocketEvent::Created => WatcherEvent::SocketCreated,
            SocketEvent::Deleted => WatcherEvent::SocketDeleted,
        }
    }
}

/// What the watcher asks its driver to do.
#[derive(Debug, PartialEq, Eq)]
pub enum BridgeAction<H> {
    /// Nothing to do.
    Nothing,
    /// Spawn a bridge and report `BridgeStarted` or `SpawnFailed`.
    Spawn,
    /// Terminate and reap this process.
    Terminate(H),
}

/// The transition function.
///
/// * The socket appearing asks for a spawn only while no bridge runs.
/// * A started bridge is adopted while none runs; a surplus one is
///   terminated at once, so no process is ever left untracked.
/// * The socket disappearing, or shutdown, terminates the running bridge.
/// * Everything else changes nothing.
pub open spec fn step_spec<H>(state: WatcherState<H>, event: WatcherEvent<H>) -> (
    WatcherState<H>,
    BridgeAction<H>,
) {
    match (state, event) {
        (WatcherState::Inactive, WatcherEvent::SocketCreated) => (
            WatcherState::Inactive,
            BridgeAction::Spawn,
        ),
        (WatcherState::Inactive, WatcherEvent::BridgeStarted(h)) => (
            WatcherState::Active(h),
            BridgeAction::Nothing,
        ),
        (WatcherState::Inactive, _) => (WatcherState::Inactive, BridgeAction::Nothing),
        (WatcherState::Active(h), WatcherEvent::SocketDeleted) => (
            WatcherState::Inactive,
            BridgeAction::Terminate(h),
        ),
        (WatcherState::Active(h), WatcherEvent::Shutdown) => (
            WatcherState::Inactive,
            BridgeAction::Terminate(h),
        ),
        (WatcherState::Active(h), WatcherEvent::BridgeStarted(surplus)) => (
            WatcherState::Active(h),
            BridgeAction::Terminate(surplus),
        ),
        (WatcherState::Active(h), _) => (WatcherState::Active(h), BridgeAction::Nothing),
    }
}

impl<H> WatcherState<H> {
    /// The state and first action at watcher startup: a spawn is requested
    /// at once if the socket is already there.
    pub fn start(socket_present: bool) -> (r: (WatcherState<H>, BridgeAction<H>))
        ensures
            r.0 == WatcherState::<H>::Inactive,
            socket_present ==> r == step_spec(
                WatcherState::<H>::Inactive,
                WatcherEvent::SocketCreated,
            ),
            !socket_present ==> r.1 == BridgeAction::<H>::Nothing,
    {
        if socket_present {
            (WatcherState::Inactive, BridgeAction::Spawn)
        } else {
            (WatcherState::Inactive, BridgeAction::Nothing)
        }
    }

    /// Whether a bridge is running.
    pub fn is_active(&self) -> (r: bool)
        ensures
            r == (*self is Active),
    {
        match self {
            WatcherState::Inactive => false,
            WatcherState::Active(_) => true,
        }
    }

    /// Takes one event and returns the next state with the action to carry out.
    pub fn step(self, event: WatcherEvent<H>) -> (r: (WatcherState<H>, BridgeAction<H>))
        ensures
            r == step_spec(self, event),
    {
        match self {
            WatcherState::Inactive => match event {
                WatcherEvent::SocketCreated => (WatcherState::Inactive, BridgeAction::Spawn),
                WatcherEvent::BridgeStarted(h) => (WatcherState::Active(h), BridgeAction::Nothing),
                WatcherEvent::SocketDeleted => (WatcherState::Inactive, BridgeAction::Nothing),
                WatcherEvent::SpawnFailed => (WatcherState::Inactive, BridgeAction::Nothing),
                WatcherEvent::Shutdown => (WatcherState::Inactive, BridgeAction::Nothing),
            },
            WatcherState::Active(h) => match event {
                WatcherEvent::SocketDeleted => (WatcherState::Inactive, BridgeAction::Terminate(h)),
                WatcherEvent::Shutdown => (WatcherState::Inactive, BridgeAction::Terminate(h)),
                WatcherEvent::BridgeStarted(surplus) => (
                    WatcherState::Active(h),
                    BridgeAction::Terminate(surplus),
                ),
                WatcherEvent::SocketCreated => (WatcherState::Active(h), BridgeAction::Nothing),
                WatcherEvent::SpawnFailed => (WatcherState::Active(h), BridgeAction::Nothing),
            },
        }
    }
}

/// The state reached from `state` after `events`, with the action of every
/// step, in order.
pub open spec fn run<H>(state: WatcherState<H>, events: Seq<WatcherEvent<H>>) -> (
    WatcherState<H>,
    Seq<BridgeAction<H>>,
)
    decreases events.len(),
{
    if events.len() == 0 {
        (state, Seq::empty())
    } else {
        let before = run(state, events.drop_last());
        let last = step_spec(before.0, events.last());
        (last.0, before.1.push(last.1))
    }
}

/// How many bridge processes `events` report as started.
pub open spec fn started_count<H>(events: Seq<WatcherEvent<H>>) -> nat
    decreases events.len(),
{
    if events.len() == 0 {
        0
    } else {
        started_count(events.drop_last()) + if events.last() is BridgeStarted {
            1nat
        } else {
            0nat
        }
    }
}

/// How many `Spawn` requests `actions` holds.
pub open spec fn spawn_count<H>(actions: Seq<BridgeAction<H>>) -> nat
    decreases actions.len(),
{
    if actions.len() == 0 {
        0
    } else {
        spawn_count(actions.drop_last()) + if actions.last() is Spawn {
            1nat
        } else {
            0nat
        }
    }
}

/// How many processes `actions` asks to terminate.
pub open spec fn terminate_count<H>(actions: Seq<BridgeAction<H>>) -> nat
    decreases actions.len(),
{
    if actions.len() == 0 {
        0
    } else {
        terminate_count(actions.drop_last()) + if actions.last() is Terminate {
            1nat
        } else {
            0nat
        }
    }
}

/// How many bridge processes a state holds: one while active, none otherwise.
pub open spec fn running_count<H>(state: WatcherState<H>) -> nat {
    if state is Active {
        1
    } else {
        0
    }
}

/// What one socket event leads to when the driver answers a spawn request
/// at once: `spawned` is the new process, or `None` if the spawn failed.
pub open spec fn observe<H>(state: WatcherState<H>, event: SocketEvent, spawned: Option<H>) -> (
    WatcherState<H>,
    Seq<BridgeAction<H>>,
) {
    let first = WatcherEvent::<H>::from_socket_spec(event);
    let answer = match spawned {
        Some(h) => WatcherEvent::BridgeStarted(h),
        None => WatcherEvent::SpawnFailed,
    };
    if step_spec(state, first).1 is Spawn {
        run(state, seq![first, answer])
    } else {
        run(state, seq![first])
    }
}

/// A run gives one action per event.
pub proof fn run_gives_one_action_per_event<H>(
    state: WatcherState<H>,
    events: Seq<WatcherEvent<H>>,
)
    ensures
        run(state, events).1.len() == events.len(),
    decreases events.len(),
{
    if events.len() > 0 {
        run_gives_one_action_per_event(state, events.drop_last());
    }
}

/// A run of a prefix is the prefix of the run: the action at position `i` is
/// the step taken from the state that the first `i` events led to.
pub proof fn run_action_at<H>(state: WatcherState<H>, events: Seq<WatcherEvent<H>>, i: int)
    requires
        0 <= i < events.len(),
    ensures
        run(state, events).1.len() == events.len(),
        run(state, events).1[i] == step_spec(run(state, events.take(i)).0, events[i]).1,
    decreases events.len(),
{
    run_gives_one_action_per_event(state, events);
    run_gives_one_action_per_event(state, events.drop_last());
    if i == events.len() - 1 {
        assert(events.take(i) == events.drop_last());
    } else {
        run_action_at(state, events.drop_last(), i);
        assert(events.drop_last().take(i) == events.take(i));
    }
}

/// No process is lost and none is invented: over any run, the processes
/// held at the start plus those reported as started equal those asked to
/// terminate plus those held at the end.
pub proof fn processes_are_conserved<H>(state: WatcherState<H>, events: Seq<WatcherEvent<H>>)
    ensures
        running_count(state) + started_count(events) == terminate_count(run(state, events).1)
            + running_count(run(state, events).0),
    decreases events.len(),
{
    if events.len() > 0 {
        processes_are_conserved(state, events.drop_last());
        let before = run(state, events.drop_last());
        let last = step_spec(before.0, events.last());
        assert(run(state, events).1.drop_last() == before.1);
        assert(run(state, events).1.last() == last.1);
    }
}

/// A spawn is requested only while no bridge runs, and only because the
/// socket appeared: the watcher never asks for a second process.
pub proof fn spawn_only_while_inactive<H>(
    state: WatcherState<H>,
    events: Seq<WatcherEvent<H>>,
    i: int,
)
    requires
        0 <= i < events.len(),
        run(state, events).1[i] is Spawn,
    ensures
        run(state, events.take(i)).0 is Inactive,
        events[i] is SocketCreated,
{
    run_action_at(state, events, i);
}

/// One cycle: from `Inactive`, the socket appearing starts exactly one
/// bridge and leads to `Active`; the socket disappearing then terminates
/// exactly that bridge and leads back to `Inactive`.
pub proof fn lifecycle_of_one_cycle<H>(handle: H)
    ensures
        observe(WatcherState::Inactive, SocketEvent::Created, Some(handle)) == (
            WatcherState::Active(handle),
            seq![BridgeAction::<H>::Spawn, BridgeAction::<H>::Nothing],
        ),
        observe(WatcherState::Active(handle), SocketEvent::Deleted, None) == (
            WatcherState::<H>::Inactive,
            seq![BridgeAction::Terminate(handle)],
        ),
{
    let created = seq![WatcherEvent::SocketCreated, WatcherEvent::BridgeStarted(handle)];
    assert(created.drop_last() == seq![WatcherEvent::<H>::SocketCreated]);
    assert(created.drop_last().drop_last() == Seq::<WatcherEvent<H>>::empty());
    reveal_with_fuel(run, 3);
    assert(run(WatcherState::Inactive, created).1 == seq![
        BridgeAction::<H>::Spawn,
        BridgeAction::Nothing,
    ]);
    let deleted = seq![WatcherEvent::<H>::SocketDeleted];
    assert(deleted.drop_last() == Seq::<WatcherEvent<H>>::empty());
    assert(run(WatcherState::Active(handle), deleted).1 == seq![BridgeAction::Terminate(handle)]);
}

/// A creation seen while a bridge runs changes nothing and asks for nothing,
/// whatever a spawn would have returned.
pub proof fn duplicate_create_is_ignored<H>(handle: H, spawned: Option<H>)
    ensures
        observe(WatcherState::Active(handle), SocketEvent::Created, spawned) == (
            WatcherState::Active(handle),
            seq![BridgeAction::<H>::Nothing],
        ),
        spawn_count(observe(WatcherState::Active(handle), SocketEvent::Created, spawned).1) == 0,
{
    let created = seq![WatcherEvent::<H>::SocketCreated];
    assert(created.drop_last() == Seq::<WatcherEvent<H>>::empty());
    reveal_with_fuel(run, 2);
    let actions = run(WatcherState::Active(handle), created).1;
    assert(actions == seq![BridgeAction::<H>::Nothing]);
    assert(actions.drop_last() == Seq::<BridgeAction<H>>::empty());
    reveal_with_fuel(spawn_count, 2);
}

/// As long as spawns succeed, the watcher is active exactly when the socket
/// was last seen created.
pub proof fn active_iff_socket_last_seen_created<H>(
    state: WatcherState<H>,
    event: SocketEvent,
    handle: H,
)
    ensures
        observe(state, event, Some(handle)).0 is Active <==> event == SocketEvent::Created,
{
    let first = WatcherEvent::<H>::from_socket_spec(event);
    let one = seq![first];
    let two = seq![first, WatcherEvent::BridgeStarted(handle)];
    assert(one.drop_last() == Seq::<WatcherEvent<H>>::empty());
    assert(two.drop_last() == one);
    reveal_with_fuel(run, 3);
}

} // verus!
