//! The decisions of the daemon's watch loop. Times are milliseconds on a
//! monotonic clock whose origin the caller picks; durations are
//! milliseconds too.
use vstd::prelude::*;
use crate::text::string_of;
use crate::number::same_chars;
use crate::text::chars_of;
use crate::config::DaemonConfig;

verus! {

/// Whether audio counts as active.
#[derive(Clone, Copy, Debug, PartialEq, Eq, Structural)]
pub enum ActivityState {
    Active,
    Inactive,
}

/// How long a changed configuration file must stay unchanged before it is
/// reloaded, in milliseconds.
pub const CONFIG_RELOAD_DEBOUNCE_MS: u64 = 260;

/// How long the daemon waits between attempts to start the overlay, in
/// milliseconds.
pub const SPAWN_RETRY_INTERVAL_MS: u64 = 1800;

/// The grace period while audio is active, moved to end no earlier than
/// `now + duration`.
pub open spec fn extended_grace(
    current_until: Option<u64>,
    activity_state: ActivityState,
    now: u64,
    duration: u64,
) -> Option<u64> {
    if activity_state != ActivityState::Active {
        current_until
    } else {
        match current_until {
            Some(existing) if existing > now + duration => Some(existing),
            _ => Some((now + duration) as u64),
        }
    }
}

/// Extends the inactivity grace period after a configuration switch: only
/// while audio is active, and never to an earlier end.
pub fn extend_inactivity_grace(
    current_until: Option<u64>,
    activity_state: ActivityState,
    now: u64,
    duration: u64,
) -> (r: Option<u64>)
    requires
        now + duration <= u64::MAX,
    ensures
        r == extended_grace(current_until, activity_state, now, duration),
{
    if activity_state != ActivityState::Active {
        return current_until;
    }
    let next_until = now + duration;
    match current_until {
        Some(existing) if existing > next_until => Some(existing),
        _ => Some(next_until),
    }
}

/// The shortest grace period after a configuration switch, in milliseconds.
pub const CONFIG_SWITCH_MIN_GRACE_MS: u64 = 2500;

/// The grace period after switching from configuration `current` to
/// `next`: the longer of their deactivation delays, and no shorter than
/// `CONFIG_SWITCH_MIN_GRACE_MS`.
pub open spec fn switch_grace(current_delay_ms: u64, next_delay_ms: u64) -> u64 {
    let m = if current_delay_ms >= next_delay_ms {
        current_delay_ms
    } else {
        next_delay_ms
    };
    if m >= CONFIG_SWITCH_MIN_GRACE_MS {
        m
    } else {
        CONFIG_SWITCH_MIN_GRACE_MS
    }
}

/// How long, in milliseconds, the overlay stays up after a configuration
/// switch.
pub fn config_switch_grace_duration(current: &DaemonConfig, next: &DaemonConfig) -> (ms: u64)
    ensures
        ms == switch_grace(current.deactivate_delay_ms, next.deactivate_delay_ms),
{
    let m = if current.deactivate_delay_ms >= next.deactivate_delay_ms {
        current.deactivate_delay_ms
    } else {
        next.deactivate_delay_ms
    };
    if m >= CONFIG_SWITCH_MIN_GRACE_MS {
        m
    } else {
        CONFIG_SWITCH_MIN_GRACE_MS
    }
}

/// What identifies one version of the files a program watches; two
/// readings with equal stamps count as no change.
pub trait Stamp: Sized {
    type View;

    spec fn stamp_view(&self) -> Self::View;

    /// Whether two stamps are equal in every field.
    fn same_as(&self, other: &Self) -> (r: bool)
        ensures
            r == (self.stamp_view() == other.stamp_view()),
    ;

    /// The same stamp, copied.
    fn duplicate(&self) -> (r: Self)
        ensures
            r.stamp_view() == self.stamp_view(),
    ;
}

/// What identifies one version of a configuration file: its resolved
/// path, whether it exists, its modification time and its length.
#[derive(Debug)]
pub struct ConfigStamp {
    pub path: String,
    pub exists: bool,
    pub modified_millis: u128,
    pub len: u64,
}

pub struct ConfigStampView {
    pub path: Seq<char>,
    pub exists: bool,
    pub modified_millis: u128,
    pub len: u64,
}

impl Stamp for ConfigStamp {
    type View = ConfigStampView;

    open spec fn stamp_view(&self) -> ConfigStampView {
        ConfigStampView {
            path: self.path@,
            exists: self.exists,
            modified_millis: self.modified_millis,
            len: self.len,
        }
    }

    fn same_as(&self, other: &ConfigStamp) -> (r: bool) {
        let a = chars_of(self.path.as_str());
        let b = chars_of(other.path.as_str());
        same_chars(&a, &b) && self.exists == other.exists && self.modified_millis
            == other.modified_millis && self.len == other.len
    }

    fn duplicate(&self) -> (r: ConfigStamp) {
        ConfigStamp {
            path: string_of(&chars_of(self.path.as_str())),
            exists: self.exists,
            modified_millis: self.modified_millis,
            len: self.len,
        }
    }
}

/// The overlay's stamp: the configuration file and the colors file.
#[derive(Debug)]
pub struct FilesStamp {
    pub config: ConfigStamp,
    pub colors: ConfigStamp,
}

impl Stamp for FilesStamp {
    type View = (ConfigStampView, ConfigStampView);

    open spec fn stamp_view(&self) -> (ConfigStampView, ConfigStampView) {
        (self.config.stamp_view(), self.colors.stamp_view())
    }

    fn same_as(&self, other: &FilesStamp) -> (r: bool) {
        self.config.same_as(&other.config) && self.colors.same_as(&other.colors)
    }

    fn duplicate(&self) -> (r: FilesStamp) {
        FilesStamp { config: self.config.duplicate(), colors: self.colors.duplicate() }
    }
}

/// A change waiting for its debounce to end.
#[derive(Debug)]
pub struct PendingConfigReload<S> {
    pub stamp: S,
    pub ready_at: u64,
}

pub struct PendingView<V> {
    pub stamp: V,
    pub ready_at: u64,
}

pub open spec fn pending_view<S: Stamp>(p: Option<PendingConfigReload<S>>) -> Option<PendingView<S::View>> {
    match p {
        Some(p) => Some(PendingView { stamp: p.stamp.stamp_view(), ready_at: p.ready_at }),
        None => None,
    }
}

/// The debounce state after seeing stamp `next` at time `now`, when
/// `current` is the stamp of the files in use: nothing waits when the
/// files are as in use; a new stamp (re)starts the wait; the same stamp
/// keeps waiting.
pub open spec fn tracked_reload<V>(
    current: V,
    pending: Option<PendingView<V>>,
    next: V,
    now: u64,
) -> Option<PendingView<V>> {
    if next == current {
        None
    } else {
        match pending {
            Some(p) if p.stamp == next => Some(p),
            _ => Some(PendingView { stamp: next, ready_at: (now + CONFIG_RELOAD_DEBOUNCE_MS) as u64 }),
        }
    }
}

/// Updates the reload debounce with the stamp read at `now`.
pub fn track_config_change<S: Stamp>(
    current: &S,
    pending: Option<PendingConfigReload<S>>,
    next: S,
    now: u64,
) -> (r: Option<PendingConfigReload<S>>)
    requires
        now + CONFIG_RELOAD_DEBOUNCE_MS <= u64::MAX,
    ensures
        pending_view(r) == tracked_reload(current.stamp_view(), pending_view(pending), next.stamp_view(), now),
{
    if next.same_as(current) {
        return None;
    }
    match pending {
        Some(p) => {
            if p.stamp.same_as(&next) {
                Some(p)
            } else {
                Some(PendingConfigReload { stamp: next, ready_at: now + CONFIG_RELOAD_DEBOUNCE_MS })
            }
        },
        None => Some(PendingConfigReload { stamp: next, ready_at: now + CONFIG_RELOAD_DEBOUNCE_MS }),
    }
}

/// Takes the waiting stamp out once its debounce has ended at `now`: the
/// first result is what still waits, the second the stamp to reload.
pub fn take_ready_reload<S: Stamp>(pending: Option<PendingConfigReload<S>>, now: u64) -> (r: (
    Option<PendingConfigReload<S>>,
    Option<S>,
))
    ensures
        match pending_view(pending) {
            Some(p) if now >= p.ready_at => pending_view(r.0) is None && (r.1 matches Some(s)
                && s.stamp_view() == p.stamp),
            _ => pending_view(r.0) == pending_view(pending) && r.1 is None,
        },
{
    match pending {
        Some(p) => {
            if now >= p.ready_at {
                (None, Some(p.stamp))
            } else {
                (Some(p), None)
            }
        },
        None => (None, None),
    }
}

/// One poll of the reload debounce: the stamp in use and the waiting
/// reload after reading stamp `next` at `now`, and whether the files are
/// reloaded then (the waiting stamp becoming the one in use).
pub open spec fn poll_step<V>(current: V, pending: Option<PendingView<V>>, next: V, now: u64) -> (
    V,
    Option<PendingView<V>>,
    bool,
) {
    match tracked_reload(current, pending, next, now) {
        Some(p) => if now >= p.ready_at {
            (p.stamp, None, true)
        } else {
            (current, Some(p), false)
        },
        None => (current, None, false),
    }
}

/// One poll of the files: updates the debounce with the stamp read at
/// `now` and takes the waiting stamp out once its debounce has ended. The
/// result is the stamp in use, what still waits, and whether the files are
/// to be reloaded now.
pub fn poll_reload<S: Stamp>(current: S, pending: Option<PendingConfigReload<S>>, next: S, now: u64) -> (r: (
    S,
    Option<PendingConfigReload<S>>,
    bool,
))
    requires
        now + CONFIG_RELOAD_DEBOUNCE_MS <= u64::MAX,
    ensures
        (r.0.stamp_view(), pending_view(r.1), r.2) == poll_step(
            current.stamp_view(),
            pending_view(pending),
            next.stamp_view(),
            now,
        ),
{
    let waiting = track_config_change(&current, pending, next, now);
    let (still, ready) = take_ready_reload(waiting, now);
    match ready {
        Some(s) => (s, still, true),
        None => (current, still, false),
    }
}

/// Whether the overlay should be started at `now`: only when it is not
/// running and no attempt was made in the last retry interval.
pub open spec fn spawn_due(child_running: bool, last_attempt: Option<u64>, now: u64) -> bool {
    !child_running && match last_attempt {
        None => true,
        Some(last) => now >= last + SPAWN_RETRY_INTERVAL_MS,
    }
}

/// When the daemon last tried to start the overlay.
pub struct SpawnThrottle {
    pub last_spawn_attempt: Option<u64>,
}

impl SpawnThrottle {
    pub fn new() -> (r: SpawnThrottle)
        ensures
            r.last_spawn_attempt is None,
    {
        SpawnThrottle { last_spawn_attempt: None }
    }

    /// Whether to start the overlay now; when so, the attempt is recorded.
    pub fn begin_attempt(&mut self, child_running: bool, now: u64) -> (start: bool)
        ensures
            start == spawn_due(child_running, old(self).last_spawn_attempt, now),
            final(self).last_spawn_attempt == (if start {
                Some(now)
            } else {
                old(self).last_spawn_attempt
            }),
    {
        if child_running {
            return false;
        }
        match self.last_spawn_attempt {
            Some(last) => {
                if now < last || now - last < SPAWN_RETRY_INTERVAL_MS {
                    return false;
                }
            },
            None => {},
        }
        self.last_spawn_attempt = Some(now);
        true
    }
}

/// What one pass of the watch loop decides before the activity tracker
/// is updated.
pub struct ActivityInput {
    /// Whether audio counts as active at this instant.
    pub instantaneous_active: bool,
    /// The grace period that remains.
    pub grace_until: Option<u64>,
    /// Whether the overlay must be stopped because no allowed process runs.
    pub stop_overlay: bool,
}

/// Audio counts as active when an allowed process runs and something plays,
/// or, while the state is active, during a grace period that has not ended.
/// The grace period is dropped when no allowed process runs, and once it
/// has ended.
pub open spec fn activity_input_spec(
    process_allowed: bool,
    playback_active: bool,
    state: ActivityState,
    grace_until: Option<u64>,
    now: u64,
) -> (bool, Option<u64>, bool) {
    let grace = if process_allowed {
        grace_until
    } else {
        None
    };
    let active = (process_allowed && playback_active) || (state == ActivityState::Active && (
    grace matches Some(until) && now < until));
    let grace_after = match grace {
        Some(until) if now >= until => None,
        g => g,
    };
    (active, grace_after, !process_allowed)
}

pub fn activity_input(
    process_allowed: bool,
    playback_active: bool,
    state: ActivityState,
    grace_until: Option<u64>,
    now: u64,
) -> (r: ActivityInput)
    ensures
        (r.instantaneous_active, r.grace_until, r.stop_overlay) == activity_input_spec(
            process_allowed,
            playback_active,
            state,
            grace_until,
            now,
        ),
{
    let mut grace = grace_until;
    if !process_allowed {
        grace = None;
    }
    let mut active = process_allowed && playback_active;
    if !active && state == ActivityState::Active {
        match grace {
            Some(until) => {
                if now < until {
                    active = true;
                }
            },
            None => {},
        }
    }
    match grace {
        Some(until) => {
            if now >= until {
                grace = None;
            }
        },
        None => {},
    }
    ActivityInput { instantaneous_active: active, grace_until: grace, stop_overlay: !process_allowed }
}

/// Follows whether audio counts as active. A reading that differs from the
/// current state takes effect only once readings have differed for the
/// state's delay without a break: the activation delay to become active,
/// the deactivation delay to become inactive.
pub struct ActivityTracker {
    pub state: ActivityState,
    /// Since when the readings have differed from `state`.
    pub change_since: Option<u64>,
}

/// The tracker's state, the start of the pending change, and whether the
/// state changed, after reading `active` at `now`.
pub open spec fn tracked_activity(
    state: ActivityState,
    change_since: Option<u64>,
    now: u64,
    active: bool,
    activate_delay_ms: u64,
    deactivate_delay_ms: u64,
) -> (ActivityState, Option<u64>, bool) {
    let target = if active {
        ActivityState::Active
    } else {
        ActivityState::Inactive
    };
    if target == state {
        (state, None, false)
    } else {
        let start = match change_since {
            Some(t) => t,
            None => now,
        };
        let delay = if active {
            activate_delay_ms
        } else {
            deactivate_delay_ms
        };
        if now >= start + delay {
            (target, None, true)
        } else {
            (state, Some(start), false)
        }
    }
}

impl ActivityTracker {
    /// A tracker that starts inactive, with no change pending.
    pub fn new() -> (t: ActivityTracker)
        ensures
            t.state == ActivityState::Inactive,
            t.change_since is None,
    {
        ActivityTracker { state: ActivityState::Inactive, change_since: None }
    }

    pub fn state(&self) -> (s: ActivityState)
        ensures
            s == self.state,
    {
        self.state
    }

    /// Takes the reading `active` at `now`; returns whether the state
    /// changed.
    pub fn update(&mut self, now: u64, active: bool, activate_delay_ms: u64, deactivate_delay_ms: u64) -> (changed: bool)
        ensures
            (final(self).state, final(self).change_since, changed) == tracked_activity(
                old(self).state,
                old(self).change_since,
                now,
                active,
                activate_delay_ms,
                deactivate_delay_ms,
            ),
    {
        let target = if active {
            ActivityState::Active
        } else {
            ActivityState::Inactive
        };
        if target == self.state {
            self.change_since = None;
            return false;
        }
        let start = match self.change_since {
            Some(t) => t,
            None => now,
        };
        let delay = if active {
            activate_delay_ms
        } else {
            deactivate_delay_ms
        };
        if now >= start && now - start >= delay {
            self.state = target;
            self.change_since = None;
            true
        } else {
            self.change_since = Some(start);
            false
        }
    }
}

/// What to do with the overlay once the activity state is known.
#[derive(Clone, Copy, Debug, PartialEq, Eq, Structural)]
pub enum OverlayAction {
    EnsureRunning,
    Stop,
    Leave,
}

/// While active the overlay is kept running; while inactive it is stopped
/// when the configuration says to stop on silence.
pub fn overlay_action(state: ActivityState, stop_on_silence: bool) -> (a: OverlayAction)
    ensures
        a == (match state {
            ActivityState::Active => OverlayAction::EnsureRunning,
            ActivityState::Inactive => if stop_on_silence {
                OverlayAction::Stop
            } else {
                OverlayAction::Leave
            },
        }),
{
    match state {
        ActivityState::Active => OverlayAction::EnsureRunning,
        ActivityState::Inactive => if stop_on_silence {
            OverlayAction::Stop
        } else {
            OverlayAction::Leave
        },
    }
}

} // verus!
