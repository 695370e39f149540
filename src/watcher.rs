//! Watching a title's save directories and triggering backups after changes settle.
use vstd::prelude::*;


verus! {

/// Seconds of quiet awaited after a change before a backup is taken.
pub const DEBOUNCE_SECS: u64 = 5;

/// Snapshots kept per title by backups that the watcher triggers.
pub const AUTO_RETENTION_LIMIT: usize = 10;

/// Where a watch session stands.
#[derive(Clone, Copy, Debug, PartialEq, Eq, Structural)]
pub enum WatchState {
    /// The change subscription is not set up yet.
    Idle,
    Watching,
    /// A change came in; waiting for the quiet period to pass.
    Debouncing,
    BackingUp,
    /// The session is over: registration failed or the event source closed.
    Ended,
}

/// What the outside world reports to a watch session.
#[derive(Clone, Copy, Debug, PartialEq, Eq, Structural)]
pub enum WatchEvent {
    /// Setting up the change subscription succeeded or failed.
    Registered(bool),
    /// A file-system event arrived; `true` when it is a modification.
    Changed(bool),
    /// The event source reported an error (it is logged, and watching goes on).
    SourceError,
    /// The quiet period has passed.
    QuietPeriodOver,
    /// The triggered backup and retention have run (their errors are logged).
    BackupFinished,
    /// The event source has closed.
    Closed,
}

/// What the session asks of the outside world next.
#[derive(Clone, Copy, Debug, PartialEq, Eq, Structural)]
pub enum WatchAction {
    /// Subscribe to changes under every existing path, recursively.
    Register,
    /// Wait for the next event.
    Listen,
    /// Sleep this many seconds, then report `QuietPeriodOver`.
    Wait(u64),
    /// Back up the title, then enforce this retention limit; report `BackupFinished`.
    Backup(usize),
    /// Log the event source's error, then wait for the next event.
    LogError,
    /// End the session.
    Stop,
}

/// What a session in state `s` asks for while no event moves it on.
pub open spec fn resting_action(s: WatchState) -> WatchAction {
    match s {
        WatchState::Idle => WatchAction::Register,
        WatchState::Watching => WatchAction::Listen,
        WatchState::Debouncing => WatchAction::Wait(DEBOUNCE_SECS),
        WatchState::BackingUp => WatchAction::Backup(AUTO_RETENTION_LIMIT),
        WatchState::Ended => WatchAction::Stop,
    }
}

/// The transition of a watch session: next state and action.
pub open spec fn watch_step(s: WatchState, e: WatchEvent) -> (WatchState, WatchAction) {
    match (s, e) {
        (WatchState::Ended, _) => (WatchState::Ended, WatchAction::Stop),
        (_, WatchEvent::Closed) => (WatchState::Ended, WatchAction::Stop),
        (WatchState::Idle, WatchEvent::Registered(true)) => (WatchState::Watching, WatchAction::Listen),
        (WatchState::Idle, WatchEvent::Registered(false)) => (WatchState::Ended, WatchAction::Stop),
        (WatchState::Watching, WatchEvent::Changed(true)) => (
            WatchState::Debouncing,
            WatchAction::Wait(DEBOUNCE_SECS),
        ),
        (WatchState::Watching, WatchEvent::SourceError) => (WatchState::Watching, WatchAction::LogError),
        (WatchState::Debouncing, WatchEvent::QuietPeriodOver) => (
            WatchState::BackingUp,
            WatchAction::Backup(AUTO_RETENTION_LIMIT),
        ),
        (WatchState::BackingUp, WatchEvent::BackupFinished) => (WatchState::Watching, WatchAction::Listen),
        (_, _) => (s, resting_action(s)),
    }
}

/// One title's auto-backup session.
#[derive(Clone, Debug)]
pub struct WatchSession {
    pub game_id: u32,
    pub title_name: String,
    pub state: WatchState,
}

/// The watch session of a title whose auto-backup is on.
pub struct WatcherService;

impl WatcherService {
    /// The paths to watch for a title: its manifest locations, then its override if any;
    /// `None` when there is none at all.
    pub fn watch_paths(manifest: Vec<String>, custom: Option<String>) -> (r: Option<Vec<String>>)
        ensures
            (r is None) == (manifest@.len() == 0 && custom is None),
            r matches Some(v) ==> v@ == manifest@ + match custom {
                Some(c) => seq![c],
                None => Seq::<String>::empty(),
            },
    {
        let mut paths = manifest;
        let ghost m = paths@;
        match custom {
            Some(c) => paths.push(c),
            None => {},
        }
        if paths.len() == 0 {
            None
        } else {
            proof {
                assert(paths@ =~= m + match custom {
                    Some(c) => seq![c],
                    None => Seq::<String>::empty(),
                });
            }
            Some(paths)
        }
    }

    /// A new session for a title, not yet subscribed to changes.
    pub fn start_watching(game_id: u32, title_name: String) -> (r: WatchSession)
        ensures
            r.game_id == game_id,
            r.title_name == title_name,
            r.state == WatchState::Idle,
    {
        WatchSession { game_id, title_name, state: WatchState::Idle }
    }
}

impl WatchSession {
    /// What the session asks for first.
    pub fn first_action(&self) -> (r: WatchAction)
        ensures
            r == resting_action(self.state),
    {
        match self.state {
            WatchState::Idle => WatchAction::Register,
            WatchState::Watching => WatchAction::Listen,
            WatchState::Debouncing => WatchAction::Wait(DEBOUNCE_SECS),
            WatchState::BackingUp => WatchAction::Backup(AUTO_RETENTION_LIMIT),
            WatchState::Ended => WatchAction::Stop,
        }
    }

    /// Takes in an event and answers with the next action.
    pub fn on_event(&mut self, e: WatchEvent) -> (r: WatchAction)
        ensures
            (final(self).state, r) == watch_step(old(self).state, e),
            final(self).game_id == old(self).game_id,
            final(self).title_name == old(self).title_name,
    {
        let (s, a) = match (self.state, e) {
            (WatchState::Ended, _) => (WatchState::Ended, WatchAction::Stop),
            (_, WatchEvent::Closed) => (WatchState::Ended, WatchAction::Stop),
            (WatchState::Idle, WatchEvent::Registered(true)) => (WatchState::Watching, WatchAction::Listen),
            (WatchState::Idle, WatchEvent::Registered(false)) => (WatchState::Ended, WatchAction::Stop),
            (WatchState::Watching, WatchEvent::Changed(true)) => (
                WatchState::Debouncing,
                WatchAction::Wait(DEBOUNCE_SECS),
            ),
            (WatchState::Watching, WatchEvent::SourceError) => (
                WatchState::Watching,
                WatchAction::LogError,
            ),
            (WatchState::Debouncing, WatchEvent::QuietPeriodOver) => (
                WatchState::BackingUp,
                WatchAction::Backup(AUTO_RETENTION_LIMIT),
            ),
            (WatchState::BackingUp, WatchEvent::BackupFinished) => (
                WatchState::Watching,
                WatchAction::Listen,
            ),
            (WatchState::Idle, _) => (WatchState::Idle, WatchAction::Register),
            (WatchState::Debouncing, _) => (WatchState::Debouncing, WatchAction::Wait(DEBOUNCE_SECS)),
            (WatchState::BackingUp, _) => (
                WatchState::BackingUp,
                WatchAction::Backup(AUTO_RETENTION_LIMIT),
            ),
            (WatchState::Watching, _) => (WatchState::Watching, WatchAction::Listen),
        };
        self.state = s;
        a
    }
}

/// An ended session stays ended and only ever asks to stop.
pub proof fn lemma_ended_is_final(e: WatchEvent)
    ensures
        watch_step(WatchState::Ended, e) == (WatchState::Ended, WatchAction::Stop),
{
}

/// A modification seen while watching is always followed by the quiet period, and the
/// quiet period by a backup with the automatic retention limit, after which watching
/// resumes.
pub proof fn lemma_change_leads_to_backup()
    ensures
        watch_step(WatchState::Watching, WatchEvent::Changed(true)) == (
            WatchState::Debouncing,
            WatchAction::Wait(DEBOUNCE_SECS),
        ),
        watch_step(WatchState::Debouncing, WatchEvent::QuietPeriodOver) == (
            WatchState::BackingUp,
            WatchAction::Backup(AUTO_RETENTION_LIMIT),
        ),
        watch_step(WatchState::BackingUp, WatchEvent::BackupFinished) == (
            WatchState::Watching,
            WatchAction::Listen,
        ),
{
}

} // verus!
