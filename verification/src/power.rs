//! Power-aware animation frame pacing.
//!
//! Compositor-driven animations (workspace transitions, dock hover, overview,
//! window open/close) normally re-render at the full output refresh rate.
//! On battery this spends significant power for little visual benefit on
//! high-refresh displays, so animation-driven redraws can be capped to a
//! lower frame rate. Client content and cursor updates are never capped.
//!
//! The cap is controlled by (in order of precedence):
//! - `COSMIC_ANIMATION_FPS`: `N` (> 0) caps animations to N fps everywhere,
//!   `0` disables capping entirely.
//! - Otherwise logind's `OnBattery` property: on battery animations are
//!   capped to [`BATTERY_CAP_FPS`], on AC they run at full refresh rate.

use std::time::Duration;
use vstd::prelude::*;

verus! {

/// Animation frame cap applied while on battery power.
pub const BATTERY_CAP_FPS: u64 = 60;

/// What `Duration::from_millis` returns: the duration of `ms` milliseconds.
pub uninterp spec fn duration_of_millis(ms: u64) -> Duration;

/// `Duration::from_millis`: the duration of `ms` milliseconds.
#[verifier::external_body]
fn duration_from_millis(ms: u64) -> (r: Duration)
    ensures
        r == duration_of_millis(ms),
{
    Duration::from_millis(ms)
}

/// The minimum interval between animation-driven frames, in milliseconds, that
/// caps them to `fps`. 0 = no capping. The shortest interval that caps is one
/// millisecond.
pub open spec fn interval_of_fps(fps: u64) -> u64 {
    if fps == 0 {
        0
    } else if fps > 1000 {
        1
    } else {
        1000u64 / fps
    }
}

/// The minimum interval that goes with the power source.
pub open spec fn interval_of_power(on_battery: bool) -> u64 {
    if on_battery {
        interval_of_fps(BATTERY_CAP_FPS)
    } else {
        0
    }
}

/// The minimum interval between animation-driven frames, if capping is active.
pub open spec fn frame_interval(interval_ms: u64) -> Option<Duration> {
    if interval_ms == 0 {
        None
    } else {
        Some(duration_of_millis(interval_ms))
    }
}

/// Returns the minimum interval between animation-driven frames, if capping
/// is active. `interval_ms` is the interval in milliseconds, 0 if animations
/// render at the output refresh rate.
pub fn animation_frame_interval(interval_ms: u64) -> (r: Option<Duration>)
    ensures
        r == (if interval_ms == 0 {
            None
        } else {
            Some(duration_of_millis(interval_ms))
        }),
        r == frame_interval(interval_ms),
{
    match interval_ms {
        0 => None,
        ms => Some(duration_from_millis(ms)),
    }
}

/// The minimum interval between animation-driven frames, in milliseconds, that
/// caps them to `fps`, or does not cap them if that is 0.
pub fn set_interval_from_fps(fps: u64) -> (interval_ms: u64)
    ensures
        interval_ms == interval_of_fps(fps),
        interval_ms == 0 <==> fps == 0,
{
    proof {
        lemma_cap_allows_fps(fps);
    }
    if fps == 0 {
        0
    } else if fps > 1000 {
        1
    } else {
        1000 / fps
    }
}

/// What decides about the cap.
#[derive(Clone, Copy, Debug, PartialEq, Eq, Structural)]
pub enum CapMode {
    /// Always cap to the given fps (env override).
    Fixed(u64),
    /// Follow the battery status.
    Battery,
    /// Never cap (env override).
    Off,
}

/// The characters that have the Unicode property `White_Space`.
pub open spec fn white_space(c: char) -> bool {
    let code = c as u32;
    ||| 0x9 <= code <= 0xd
    ||| code == 0x20
    ||| code == 0x85
    ||| code == 0xa0
    ||| code == 0x1680
    ||| 0x2000 <= code <= 0x200a
    ||| code == 0x2028
    ||| code == 0x2029
    ||| code == 0x202f
    ||| code == 0x205f
    ||| code == 0x3000
}

/// `s` without the white space it starts with.
pub open spec fn trimmed_start(s: Seq<char>) -> Seq<char>
    decreases s.len(),
{
    if s.len() > 0 && white_space(s.first()) {
        trimmed_start(s.drop_first())
    } else {
        s
    }
}

/// `s` without the white space it ends with.
pub open spec fn trimmed_end(s: Seq<char>) -> Seq<char>
    decreases s.len(),
{
    if s.len() > 0 && white_space(s.last()) {
        trimmed_end(s.drop_last())
    } else {
        s
    }
}

/// `s` without the white space around it.
pub open spec fn trimmed(s: Seq<char>) -> Seq<char> {
    trimmed_end(trimmed_start(s))
}

/// All characters of `s` are decimal digits, and there is one.
pub open spec fn decimal(s: Seq<char>) -> bool {
    &&& s.len() > 0
    &&& forall|i: int| 0 <= i < s.len() ==> '0' <= #[trigger] s[i] <= '9'
}

/// The value of the decimal digits `s`.
pub open spec fn decimal_value(s: Seq<char>) -> int
    decreases s.len(),
{
    if s.len() == 0 {
        0
    } else {
        10 * decimal_value(s.drop_last()) + (s.last() as int - '0' as int)
    }
}

/// The number that `s` spells: decimal digits, which may follow a plus sign,
/// of a value that fits into 64 bits.
pub open spec fn parsed_u64(s: Seq<char>) -> Option<u64> {
    let digits = if s.len() > 0 && s.first() == '+' {
        s.drop_first()
    } else {
        s
    };
    if decimal(digits) && decimal_value(digits) <= u64::MAX {
        Some(decimal_value(digits) as u64)
    } else {
        None
    }
}

/// `str::trim`: the string without the Unicode white space around it.
#[verifier::external_body]
fn str_trim(s: &str) -> (r: &str)
    ensures
        r@ == trimmed(s@),
{
    s.trim()
}

/// `str::parse`, to a `u64`: the number that the string spells, if it is one
/// and fits.
#[verifier::external_body]
fn str_parse_u64(s: &str) -> (r: Option<u64>)
    ensures
        r == parsed_u64(s@),
{
    s.parse::<u64>().ok()
}

/// What decides about the cap, by the value of `COSMIC_ANIMATION_FPS`.
pub open spec fn mode_of(value: Option<Seq<char>>) -> CapMode {
    match value {
        Some(value) => match parsed_u64(trimmed(value)) {
            Some(fps) => if fps == 0 {
                CapMode::Off
            } else {
                CapMode::Fixed(fps)
            },
            None => CapMode::Battery,
        },
        None => CapMode::Battery,
    }
}

/// What decides about the cap, by the value of `COSMIC_ANIMATION_FPS`, if that
/// is set. A value that is not a number is ignored.
pub fn cap_mode(value: Option<&str>) -> (mode: CapMode)
    ensures
        mode == mode_of(
            match value {
                Some(value) => Some(value@),
                None => None,
            },
        ),
{
    match value {
        Some(value) => match str_parse_u64(str_trim(value)) {
            Some(0) => CapMode::Off,
            Some(fps) => CapMode::Fixed(fps),
            None => CapMode::Battery,
        },
        None => CapMode::Battery,
    }
}

/// What to do when the compositor starts.
#[derive(Clone, Copy, Debug, PartialEq, Eq, Structural)]
pub struct PowerStart {
    /// The minimum interval between animation-driven frames to set, in
    /// milliseconds, if it is known already.
    pub interval_ms: Option<u64>,
    /// Whether to watch the power source.
    pub watch: bool,
}

/// What to do when the compositor starts.
pub open spec fn start_of(mode: CapMode) -> PowerStart {
    match mode {
        CapMode::Fixed(fps) => PowerStart { interval_ms: Some(interval_of_fps(fps)), watch: false },
        CapMode::Off => PowerStart { interval_ms: None, watch: false },
        CapMode::Battery => PowerStart { interval_ms: None, watch: true },
    }
}

/// Start tracking the power source (if needed for the configured cap mode).
/// There is nothing to watch when capping is fixed or disabled.
pub fn spawn_power_watcher(mode: CapMode) -> (start: PowerStart)
    ensures
        start == start_of(mode),
{
    match mode {
        CapMode::Fixed(fps) => PowerStart {
            interval_ms: Some(set_interval_from_fps(fps)),
            watch: false,
        },
        CapMode::Off => PowerStart { interval_ms: None, watch: false },
        CapMode::Battery => PowerStart { interval_ms: None, watch: true },
    }
}

/// How far watching the power source has come.
#[derive(Clone, Copy, Debug, PartialEq, Eq, Structural)]
pub enum WatchPhase {
    /// Connecting to the system bus.
    Connecting,
    /// Creating the proxy for the properties of logind.
    CreatingProperties,
    /// Creating the proxy for the manager of logind.
    CreatingManager,
    /// Reading `OnBattery` for the first time.
    ReadingFirst,
    /// Subscribing to changes of properties.
    Subscribing,
    /// Waiting for a change.
    Waiting,
    /// Reading `OnBattery` again after it has changed.
    Reading,
    /// Done.
    Stopped,
}

/// What to do next.
#[derive(Clone, Copy, Debug, PartialEq, Eq, Structural)]
pub enum WatchAction {
    /// Connect to the system bus.
    Connect,
    /// Create the proxy for the properties of logind.
    CreateProperties,
    /// Create the proxy for the manager of logind.
    CreateManager,
    /// Read `OnBattery`.
    ReadOnBattery,
    /// Subscribe to changes of properties.
    Subscribe,
    /// Wait for a change.
    AwaitChange,
    /// Stop.
    Stop,
}

/// A message that properties have changed.
#[derive(Debug)]
pub struct PropertiesChanged {
    /// The interface that the properties belong to.
    pub interface: String,
    /// The properties whose new value is known.
    pub changed: Vec<String>,
    /// The properties whose new value is not known.
    pub invalidated: Vec<String>,
}

/// What has come of an action.
#[derive(Debug)]
pub enum WatchEvent {
    /// It succeeded.
    Done,
    /// It failed, or the message was malformed.
    Failed,
    /// `OnBattery` has been read.
    OnBattery(bool),
    /// Properties have changed.
    Changed(PropertiesChanged),
    /// There will be no more changes.
    Closed,
}

/// `name` is in `list`.
pub open spec fn lists(list: Seq<String>, name: Seq<char>) -> bool {
    exists|i: int| 0 <= i < list.len() && (#[trigger] list[i])@ == name
}

impl PropertiesChanged {
    /// `OnBattery` of the manager of logind has changed.
    pub open spec fn concerns_battery(self) -> bool {
        &&& self.interface@ == "org.freedesktop.login1.Manager"@
        &&& lists(self.changed@, "OnBattery"@) || lists(self.invalidated@, "OnBattery"@)
    }

    /// Whether `OnBattery` of the manager of logind has changed.
    pub fn is_battery_change(&self) -> (r: bool)
        ensures
            r == self.concerns_battery(),
    {
        is_named(&self.interface, "org.freedesktop.login1.Manager") && (contains(
            &self.changed,
            "OnBattery",
        ) || contains(&self.invalidated, "OnBattery"))
    }
}

fn is_named(s: &String, name: &str) -> (r: bool)
    ensures
        r == (s@ == name@),
{
    *s == name.to_owned()
}

fn contains(list: &Vec<String>, name: &str) -> (r: bool)
    ensures
        r == lists(list@, name@),
{
    let mut i: usize = 0;
    while i < list.len()
        invariant
            i <= list.len(),
            forall|k: int| 0 <= k < i ==> (#[trigger] list@[k])@ != name@,
        decreases list.len() - i,
    {
        if is_named(&list[i], name) {
            return true;
        }
        i = i + 1;
    }
    false
}

/// The phase after `event`. The preparations have to succeed, and so has the
/// first reading: without a battery there is nothing to watch. Later readings
/// may fail, and messages may be malformed. An event that does not answer the
/// action of the phase changes nothing.
pub open spec fn phase_after(phase: WatchPhase, event: WatchEvent) -> WatchPhase {
    match (phase, event) {
        (WatchPhase::Connecting, WatchEvent::Done) => WatchPhase::CreatingProperties,
        (WatchPhase::Connecting, WatchEvent::Failed) => WatchPhase::Stopped,
        (WatchPhase::CreatingProperties, WatchEvent::Done) => WatchPhase::CreatingManager,
        (WatchPhase::CreatingProperties, WatchEvent::Failed) => WatchPhase::Stopped,
        (WatchPhase::CreatingManager, WatchEvent::Done) => WatchPhase::ReadingFirst,
        (WatchPhase::CreatingManager, WatchEvent::Failed) => WatchPhase::Stopped,
        (WatchPhase::ReadingFirst, WatchEvent::OnBattery(_)) => WatchPhase::Subscribing,
        (WatchPhase::ReadingFirst, WatchEvent::Failed) => WatchPhase::Stopped,
        (WatchPhase::Subscribing, WatchEvent::Done) => WatchPhase::Waiting,
        (WatchPhase::Subscribing, WatchEvent::Failed) => WatchPhase::Stopped,
        (WatchPhase::Waiting, WatchEvent::Changed(change)) => if change.concerns_battery() {
            WatchPhase::Reading
        } else {
            WatchPhase::Waiting
        },
        (WatchPhase::Waiting, WatchEvent::Closed) => WatchPhase::Stopped,
        (WatchPhase::Reading, WatchEvent::OnBattery(_)) => WatchPhase::Waiting,
        (WatchPhase::Reading, WatchEvent::Failed) => WatchPhase::Waiting,
        _ => phase,
    }
}

/// The phase is one in which `OnBattery` is read.
pub open spec fn reads_battery(phase: WatchPhase) -> bool {
    phase == WatchPhase::ReadingFirst || phase == WatchPhase::Reading
}

/// The interval after `event`: a reading decides about it.
pub open spec fn interval_after(interval_ms: u64, phase: WatchPhase, event: WatchEvent) -> u64 {
    match event {
        WatchEvent::OnBattery(on_battery) => if reads_battery(phase) {
            interval_of_power(on_battery)
        } else {
            interval_ms
        },
        _ => interval_ms,
    }
}

/// What to do in a phase.
pub open spec fn action_of(phase: WatchPhase) -> WatchAction {
    match phase {
        WatchPhase::Connecting => WatchAction::Connect,
        WatchPhase::CreatingProperties => WatchAction::CreateProperties,
        WatchPhase::CreatingManager => WatchAction::CreateManager,
        WatchPhase::ReadingFirst => WatchAction::ReadOnBattery,
        WatchPhase::Subscribing => WatchAction::Subscribe,
        WatchPhase::Waiting => WatchAction::AwaitChange,
        WatchPhase::Reading => WatchAction::ReadOnBattery,
        WatchPhase::Stopped => WatchAction::Stop,
    }
}

/// The minimum interval that goes with the power source, in milliseconds.
pub fn interval_for_power(on_battery: bool) -> (interval_ms: u64)
    ensures
        interval_ms == interval_of_power(on_battery),
{
    let fps: u64 = if on_battery {
        BATTERY_CAP_FPS
    } else {
        0
    };
    set_interval_from_fps(fps)
}

/// Follows the power source.
#[derive(Clone, Copy, Debug)]
pub struct BatteryWatcher {
    pub phase: WatchPhase,
    /// Minimum interval between animation-driven frames, in milliseconds.
    /// 0 = no capping.
    pub interval_ms: u64,
}

impl BatteryWatcher {
    /// The watcher after `event`.
    pub open spec fn after(self, event: WatchEvent) -> BatteryWatcher {
        BatteryWatcher {
            phase: phase_after(self.phase, event),
            interval_ms: interval_after(self.interval_ms, self.phase, event),
        }
    }

    /// The watcher after all of `events`.
    pub open spec fn after_all(self, events: Seq<WatchEvent>) -> BatteryWatcher
        decreases events.len(),
    {
        if events.len() == 0 {
            self
        } else {
            self.after_all(events.drop_last()).after(events.last())
        }
    }

    /// The watcher before its first action.
    pub open spec fn fresh() -> BatteryWatcher {
        BatteryWatcher { phase: WatchPhase::Connecting, interval_ms: 0 }
    }

    /// The watcher before its first action. Nothing is capped yet.
    pub fn new() -> (watcher: BatteryWatcher)
        ensures
            watcher == BatteryWatcher::fresh(),
    {
        BatteryWatcher { phase: WatchPhase::Connecting, interval_ms: 0 }
    }

    /// What to do next.
    pub fn action(&self) -> (action: WatchAction)
        ensures
            action == action_of(self.phase),
    {
        match self.phase {
            WatchPhase::Connecting => WatchAction::Connect,
            WatchPhase::CreatingProperties => WatchAction::CreateProperties,
            WatchPhase::CreatingManager => WatchAction::CreateManager,
            WatchPhase::ReadingFirst => WatchAction::ReadOnBattery,
            WatchPhase::Subscribing => WatchAction::Subscribe,
            WatchPhase::Waiting => WatchAction::AwaitChange,
            WatchPhase::Reading => WatchAction::ReadOnBattery,
            WatchPhase::Stopped => WatchAction::Stop,
        }
    }

    /// Takes note of what has come of the action, and says what to do next.
    pub fn watch_battery(&mut self, event: &WatchEvent) -> (action: WatchAction)
        ensures
            *final(self) == old(self).after(*event),
            action == action_of(final(self).phase),
    {
        match event {
            WatchEvent::OnBattery(on_battery) => match self.phase {
                WatchPhase::ReadingFirst => {
                    self.interval_ms = interval_for_power(*on_battery);
                    self.phase = WatchPhase::Subscribing;
                },
                WatchPhase::Reading => {
                    self.interval_ms = interval_for_power(*on_battery);
                    self.phase = WatchPhase::Waiting;
                },
                _ => {},
            },
            WatchEvent::Done => match self.phase {
                WatchPhase::Connecting => {
                    self.phase = WatchPhase::CreatingProperties;
                },
                WatchPhase::CreatingProperties => {
                    self.phase = WatchPhase::CreatingManager;
                },
                WatchPhase::CreatingManager => {
                    self.phase = WatchPhase::ReadingFirst;
                },
                WatchPhase::Subscribing => {
                    self.phase = WatchPhase::Waiting;
                },
                _ => {},
            },
            WatchEvent::Failed => match self.phase {
                WatchPhase::Waiting => {},
                WatchPhase::Reading => {
                    self.phase = WatchPhase::Waiting;
                },
                _ => {
                    self.phase = WatchPhase::Stopped;
                },
            },
            WatchEvent::Changed(change) => {
                if self.phase == WatchPhase::Waiting && change.is_battery_change() {
                    self.phase = WatchPhase::Reading;
                }
            },
            WatchEvent::Closed => {
                if self.phase == WatchPhase::Waiting {
                    self.phase = WatchPhase::Stopped;
                }
            },
        }
        self.action()
    }
}

/// Every number of frames per second but 0 caps. The interval of up to 1000
/// frames per second is the longest whole number of milliseconds that allows
/// as many frames.
pub proof fn lemma_cap_allows_fps(fps: u64)
    ensures
        fps > 0 ==> interval_of_fps(fps) > 0,
        1 <= fps <= 1000 ==> interval_of_fps(fps) * fps <= 1000 < (interval_of_fps(fps) + 1) * fps,
{
    if 1 <= fps <= 1000 {
        let ms = interval_of_fps(fps);
        vstd::arithmetic::div_mod::lemma_fundamental_div_mod(1000, fps as int);
        vstd::arithmetic::div_mod::lemma_mod_bound(1000, fps as int);
        assert(ms * fps == fps * ms) by (nonlinear_arith);
        assert((ms + 1) * fps == ms * fps + fps) by (nonlinear_arith);
        if ms == 0 {
            assert(fps * ms == 0) by (nonlinear_arith)
                requires
                    ms == 0,
            ;
        }
    }
}

/// A number in `COSMIC_ANIMATION_FPS` takes precedence over the power source,
/// which is then not watched: any but 0 is a cap, and 0 disables capping.
pub proof fn lemma_variable_takes_precedence(value: Seq<char>, fps: u64)
    requires
        parsed_u64(trimmed(value)) == Some(fps),
    ensures
        !start_of(mode_of(Some(value))).watch,
        start_of(mode_of(Some(value))).interval_ms == (if fps == 0 {
            None
        } else {
            Some(interval_of_fps(fps))
        }),
        fps > 0 ==> interval_of_fps(fps) > 0,
{
    lemma_cap_allows_fps(fps);
}

/// Without a number in `COSMIC_ANIMATION_FPS` the power source decides.
pub proof fn lemma_power_source_decides_otherwise(value: Option<Seq<char>>)
    requires
        value matches Some(value) ==> parsed_u64(trimmed(value)) is None,
    ensures
        start_of(mode_of(value)).watch,
        start_of(mode_of(value)).interval_ms is None,
{
}

/// On battery animations are capped, on AC they are not.
pub proof fn lemma_battery_caps()
    ensures
        interval_of_power(true) == 16,
        interval_of_power(false) == 0,
{
}

/// Whatever happens, the interval is one that goes with a power source.
/// Without a reading that the compositor is on battery, nothing is capped.
pub proof fn lemma_interval_follows_readings(events: Seq<WatchEvent>)
    ensures
        ({
            let interval_ms = BatteryWatcher::fresh().after_all(events).interval_ms;
            &&& interval_ms == interval_of_power(true) || interval_ms == interval_of_power(false)
            &&& (forall|i: int|
                0 <= i < events.len() ==> (#[trigger] events[i]) != WatchEvent::OnBattery(true))
                ==> interval_ms == 0
        }),
    decreases events.len(),
{
    if events.len() > 0 {
        let before = events.drop_last();
        lemma_interval_follows_readings(before);
        if forall|i: int|
            0 <= i < events.len() ==> (#[trigger] events[i]) != WatchEvent::OnBattery(true) {
            assert forall|i: int| 0 <= i < before.len() implies (#[trigger] before[i])
                != WatchEvent::OnBattery(true) by {
                assert(before[i] == events[i]);
            }
            assert(events[events.len() - 1] != WatchEvent::OnBattery(true));
        }
    }
}

/// A reading that was asked for decides about the interval, whatever came
/// before.
pub proof fn lemma_last_reading_decides(watcher: BatteryWatcher, on_battery: bool)
    requires
        action_of(watcher.phase) == WatchAction::ReadOnBattery,
    ensures
        watcher.after(WatchEvent::OnBattery(on_battery)).interval_ms == interval_of_power(
            on_battery,
        ),
{
}

/// Only readings change the interval: failures, changes and the end of the
/// changes leave it as it is.
pub proof fn lemma_only_readings_change_interval(watcher: BatteryWatcher, event: WatchEvent)
    requires
        event !is OnBattery,
    ensures
        watcher.after(event).interval_ms == watcher.interval_ms,
{
}

/// A change of the power source is noticed: it is read again.
pub proof fn lemma_battery_change_is_read(watcher: BatteryWatcher, change: PropertiesChanged)
    requires
        watcher.phase == WatchPhase::Waiting,
    ensures
        change.concerns_battery() ==> action_of(watcher.after(WatchEvent::Changed(change)).phase)
            == WatchAction::ReadOnBattery,
        !change.concerns_battery() ==> watcher.after(WatchEvent::Changed(change)) == watcher,
{
}

/// A watcher that has stopped does nothing more.
pub proof fn lemma_stopped_stays(watcher: BatteryWatcher, events: Seq<WatchEvent>)
    requires
        watcher.phase == WatchPhase::Stopped,
    ensures
        watcher.after_all(events) == watcher,
    decreases events.len(),
{
    if events.len() > 0 {
        lemma_stopped_stays(watcher, events.drop_last());
    }
}

/// More frames per second never mean a longer interval, unless nothing was
/// capped before. The longest interval is one second, and the shortest one
/// millisecond.
pub proof fn lemma_more_frames_shorten_interval(slower: u64, faster: u64)
    requires
        0 < slower <= faster,
    ensures
        1 <= interval_of_fps(faster) <= interval_of_fps(slower) <= 1000,
        interval_of_fps(1) == 1000,
        interval_of_fps(1000) == 1,
        interval_of_fps(0) == 0,
{
    lemma_cap_allows_fps(slower);
    lemma_cap_allows_fps(faster);
    if faster <= 1000 {
        vstd::arithmetic::div_mod::lemma_div_is_ordered_by_denominator(
            1000,
            slower as int,
            faster as int,
        );
    }
    if slower <= 1000 {
        vstd::arithmetic::div_mod::lemma_div_is_ordered_by_denominator(1000, 1, slower as int);
    }
}

/// What the modes start: a fixed cap is set and nothing is watched, without
/// capping nothing is done, and otherwise the power source is watched.
pub proof fn lemma_modes_start(fps: u64)
    ensures
        start_of(CapMode::Fixed(fps)).interval_ms == Some(interval_of_fps(fps)),
        !start_of(CapMode::Fixed(fps)).watch,
        start_of(CapMode::Off).interval_ms is None,
        !start_of(CapMode::Off).watch,
        start_of(CapMode::Battery).interval_ms is None,
        start_of(CapMode::Battery).watch,
{
}

/// The value of the variable decides about the mode: no value, and what is not a
/// number, follow the battery, 0 never caps, and any other number is the cap.
pub proof fn lemma_value_decides_mode(value: Seq<char>)
    ensures
        mode_of(None) == CapMode::Battery,
        parsed_u64(trimmed(value)) is None <==> mode_of(Some(value)) == CapMode::Battery,
        parsed_u64(trimmed(value)) == Some(0u64) <==> mode_of(Some(value)) == CapMode::Off,
        mode_of(Some(value)) matches CapMode::Fixed(fps) ==> fps > 0 && parsed_u64(trimmed(value))
            == Some(fps),
{
}

proof fn lemma_trimmed_start_is_rest(s: Seq<char>) -> (i: int)
    ensures
        0 <= i <= s.len(),
        trimmed_start(s) == s.skip(i),
        forall|k: int| 0 <= k < i ==> white_space(#[trigger] s[k]),
        i < s.len() ==> !white_space(s[i]),
    decreases s.len(),
{
    if s.len() > 0 && white_space(s.first()) {
        let rest = s.drop_first();
        let i = lemma_trimmed_start_is_rest(rest);
        assert(rest.skip(i) =~= s.skip(i + 1));
        assert forall|k: int| 0 <= k < i + 1 implies white_space(#[trigger] s[k]) by {
            if k > 0 {
                assert(s[k] == rest[k - 1]);
            }
        }
        i + 1
    } else {
        assert(s.skip(0) =~= s);
        0
    }
}

proof fn lemma_trimmed_end_is_start(s: Seq<char>) -> (j: int)
    ensures
        0 <= j <= s.len(),
        trimmed_end(s) == s.take(j),
        forall|k: int| j <= k < s.len() ==> white_space(#[trigger] s[k]),
        0 < j ==> !white_space(s[j - 1]),
    decreases s.len(),
{
    if s.len() > 0 && white_space(s.last()) {
        let rest = s.drop_last();
        let j = lemma_trimmed_end_is_start(rest);
        assert(rest.take(j) =~= s.take(j));
        assert forall|k: int| j <= k < s.len() implies white_space(#[trigger] s[k]) by {
            if k < s.len() - 1 {
                assert(s[k] == rest[k]);
            }
        }
        j
    } else {
        assert(s.take(s.len() as int) =~= s);
        s.len() as int
    }
}

/// Trimming takes white space away from both ends, and nothing else: what is
/// left is a part of the string that neither starts nor ends with white space,
/// and all around it is white space.
pub proof fn lemma_trimmed_is_part(s: Seq<char>) -> (r: (int, int))
    ensures
        0 <= r.0 <= r.1 <= s.len(),
        trimmed(s) == s.subrange(r.0, r.1),
        forall|k: int| 0 <= k < r.0 ==> white_space(#[trigger] s[k]),
        forall|k: int| r.1 <= k < s.len() ==> white_space(#[trigger] s[k]),
        r.0 < r.1 ==> !white_space(s[r.0]) && !white_space(s[r.1 - 1]),
{
    let i = lemma_trimmed_start_is_rest(s);
    let rest = s.skip(i);
    let j = lemma_trimmed_end_is_start(rest);
    assert(rest.take(j) =~= s.subrange(i, i + j));
    assert forall|k: int| i + j <= k < s.len() implies white_space(#[trigger] s[k]) by {
        assert(s[k] == rest[k - i]);
    }
    (i, i + j)
}

/// A single character spells a number exactly if it is a decimal digit, and then
/// that digit.
pub proof fn lemma_digit_parsed(c: char)
    ensures
        '0' <= c <= '9' ==> parsed_u64(seq![c]) == Some((c as int - '0' as int) as u64),
        !('0' <= c <= '9') ==> parsed_u64(seq![c]) is None,
        parsed_u64(Seq::empty()) is None,
{
    let s = seq![c];
    assert(s.first() == c);
    assert(s[0] == c);
    assert(s.drop_last() =~= Seq::<char>::empty());
    reveal_with_fuel(decimal_value, 2);
    assert(s.last() == c);
    if c == '+' {
        assert(s.drop_first() =~= Seq::<char>::empty());
    } else if '0' <= c <= '9' {
        assert(decimal(s));
        assert(decimal_value(s) == c as int - '0' as int);
    } else {
        assert(!decimal(s));
    }
}

proof fn lemma_decimal_not_negative(s: Seq<char>)
    requires
        forall|i: int| 0 <= i < s.len() ==> '0' <= #[trigger] s[i] <= '9',
    ensures
        decimal_value(s) >= 0,
    decreases s.len(),
{
    if s.len() > 0 {
        let before = s.drop_last();
        assert forall|i: int| 0 <= i < before.len() implies '0' <= #[trigger] before[i] <= '9' by {
            assert(before[i] == s[i]);
        }
        lemma_decimal_not_negative(before);
        assert('0' <= s[s.len() - 1] <= '9');
    }
}

/// Appending a digit to a number multiplies it by ten and adds the digit, as long
/// as that fits into 64 bits. Appending anything else makes it no number.
pub proof fn lemma_appended_digit_parsed(s: Seq<char>, n: u64, c: char)
    requires
        parsed_u64(s) == Some(n),
    ensures
        '0' <= c <= '9' ==> {
            let value = 10 * n + (c as int - '0' as int);
            parsed_u64(s.push(c)) == if value <= u64::MAX {
                Some(value as u64)
            } else {
                None
            }
        },
        !('0' <= c <= '9') ==> parsed_u64(s.push(c)) is None,
{
    let longer = s.push(c);
    let signed = s.len() > 0 && s.first() == '+';
    let digits = if signed {
        s.drop_first()
    } else {
        s
    };
    let more = if signed {
        longer.drop_first()
    } else {
        longer
    };
    assert(s.len() > 0);
    assert(longer.first() == s.first());
    assert(more =~= digits.push(c));
    assert(more.drop_last() =~= digits);
    assert(more.last() == c);
    lemma_decimal_not_negative(digits);
    if '0' <= c <= '9' {
        assert(decimal(more));
    } else {
        assert(more[digits.len() as int] == c);
        assert(!decimal(more));
    }
}

/// A plus sign before digits makes no difference.
pub proof fn lemma_plus_sign_parsed(s: Seq<char>)
    requires
        s.len() > 0,
        s.first() != '+',
    ensures
        parsed_u64(seq!['+'] + s) == parsed_u64(s),
{
    let signed = seq!['+'] + s;
    assert(signed.first() == '+');
    assert(signed.drop_first() =~= s);
}

/// How the preparations go on: each leads to the next when it succeeds, and ends
/// the watcher when it fails. The first reading is one of them, whatever is read.
pub proof fn lemma_preparations_in_order(on_battery: bool)
    ensures
        phase_after(WatchPhase::Connecting, WatchEvent::Done) == WatchPhase::CreatingProperties,
        phase_after(WatchPhase::CreatingProperties, WatchEvent::Done)
            == WatchPhase::CreatingManager,
        phase_after(WatchPhase::CreatingManager, WatchEvent::Done) == WatchPhase::ReadingFirst,
        phase_after(WatchPhase::ReadingFirst, WatchEvent::OnBattery(on_battery))
            == WatchPhase::Subscribing,
        phase_after(WatchPhase::Subscribing, WatchEvent::Done) == WatchPhase::Waiting,
        phase_after(WatchPhase::Connecting, WatchEvent::Failed) == WatchPhase::Stopped,
        phase_after(WatchPhase::CreatingProperties, WatchEvent::Failed) == WatchPhase::Stopped,
        phase_after(WatchPhase::CreatingManager, WatchEvent::Failed) == WatchPhase::Stopped,
        phase_after(WatchPhase::ReadingFirst, WatchEvent::Failed) == WatchPhase::Stopped,
        phase_after(WatchPhase::Subscribing, WatchEvent::Failed) == WatchPhase::Stopped,
        action_of(WatchPhase::Connecting) == WatchAction::Connect,
        action_of(WatchPhase::CreatingProperties) == WatchAction::CreateProperties,
        action_of(WatchPhase::CreatingManager) == WatchAction::CreateManager,
        action_of(WatchPhase::ReadingFirst) == WatchAction::ReadOnBattery,
        action_of(WatchPhase::Subscribing) == WatchAction::Subscribe,
        action_of(WatchPhase::Waiting) == WatchAction::AwaitChange,
        action_of(WatchPhase::Reading) == WatchAction::ReadOnBattery,
        action_of(WatchPhase::Stopped) == WatchAction::Stop,
        BatteryWatcher::fresh().phase == WatchPhase::Connecting,
        BatteryWatcher::fresh().interval_ms == 0,
{
}

/// Once a watcher waits for changes, only the end of the changes stops it: any
/// other event leaves it waiting, or reading. After a reading that answers a
/// change, whatever was read, and after one that failed, it waits for the next
/// change.
pub proof fn lemma_watching_goes_on(watcher: BatteryWatcher, event: WatchEvent)
    requires
        watcher.phase == WatchPhase::Waiting || watcher.phase == WatchPhase::Reading,
    ensures
        ({
            let after = watcher.after(event);
            &&& event !is Closed ==> after.phase == WatchPhase::Waiting || after.phase
                == WatchPhase::Reading
            &&& event !is Closed ==> action_of(after.phase) != WatchAction::Stop
            &&& watcher.phase == WatchPhase::Reading && (event is OnBattery || event is Failed)
                ==> after.phase == WatchPhase::Waiting && action_of(after.phase)
                == WatchAction::AwaitChange
            &&& watcher.phase == WatchPhase::Waiting && event is Closed ==> after.phase
                == WatchPhase::Stopped
            &&& watcher.phase == WatchPhase::Waiting && event is Failed ==> after == watcher
        }),
{
}

/// As long as the changes do not end, a watcher that waits keeps following the
/// power source, however often it changes.
pub proof fn lemma_watching_goes_on_for_good(watcher: BatteryWatcher, events: Seq<WatchEvent>)
    requires
        watcher.phase == WatchPhase::Waiting || watcher.phase == WatchPhase::Reading,
        forall|i: int| 0 <= i < events.len() ==> (#[trigger] events[i]) !is Closed,
    ensures
        watcher.after_all(events).phase == WatchPhase::Waiting || watcher.after_all(events).phase
            == WatchPhase::Reading,
    decreases events.len(),
{
    if events.len() > 0 {
        let before = events.drop_last();
        assert forall|i: int| 0 <= i < before.len() implies (#[trigger] before[i]) !is Closed by {
            assert(before[i] == events[i]);
        }
        lemma_watching_goes_on_for_good(watcher, before);
        assert(events[events.len() - 1] !is Closed);
        lemma_watching_goes_on(watcher.after_all(before), events.last());
    }
}

/// The power source is read again exactly after a message about the manager of
/// logind that lists `OnBattery`, be it among the changed or among the
/// invalidated properties, anywhere in the list.
pub proof fn lemma_battery_messages(change: PropertiesChanged)
    ensures
        ({
            let listed = {
                ||| exists|i: int|
                    0 <= i < change.changed@.len() && (#[trigger] change.changed@[i])@
                        == "OnBattery"@
                ||| exists|i: int|
                    0 <= i < change.invalidated@.len() && (#[trigger] change.invalidated@[i])@
                        == "OnBattery"@
            };
            let after = phase_after(WatchPhase::Waiting, WatchEvent::Changed(change));
            &&& change.interface@ == "org.freedesktop.login1.Manager"@ && listed ==> after
                == WatchPhase::Reading
            &&& change.interface@ != "org.freedesktop.login1.Manager"@ || !listed ==> after
                == WatchPhase::Waiting
        }),
{
}

/// An event that does not answer the action of the phase changes nothing.
pub proof fn lemma_unasked_events_ignored(watcher: BatteryWatcher, event: WatchEvent)
    requires
        match action_of(watcher.phase) {
            WatchAction::Connect
            | WatchAction::CreateProperties
            | WatchAction::CreateManager
            | WatchAction::Subscribe => event !is Done && event !is Failed,
            WatchAction::ReadOnBattery => event !is OnBattery && event !is Failed,
            WatchAction::AwaitChange => event !is Changed && event !is Closed,
            WatchAction::Stop => true,
        },
    ensures
        watcher.after(event) == watcher,
{
}

/// The cap follows the power source: after a change that was read, animations
/// are capped to 16 milliseconds if the reading says that the compositor is on
/// battery, not at all if it says that it is not, and as before if it failed.
pub proof fn lemma_cap_follows_power_source(
    watcher: BatteryWatcher,
    change: PropertiesChanged,
    on_battery: bool,
)
    requires
        watcher.phase == WatchPhase::Waiting,
        change.concerns_battery(),
    ensures
        ({
            let reading = watcher.after(WatchEvent::Changed(change));
            let read = reading.after(WatchEvent::OnBattery(on_battery));
            let failed = reading.after(WatchEvent::Failed);
            &&& reading.interval_ms == watcher.interval_ms
            &&& on_battery ==> read.interval_ms == 16
            &&& !on_battery ==> read.interval_ms == 0
            &&& read.phase == WatchPhase::Waiting
            &&& failed == watcher
        }),
{
}

/// A watcher that prepares without a failure has read the power source once, and
/// waits for changes.
pub proof fn lemma_prepared_watcher_waits(on_battery: bool)
    ensures
        ({
            let prepared = BatteryWatcher::fresh().after(WatchEvent::Done).after(
                WatchEvent::Done,
            ).after(WatchEvent::Done).after(WatchEvent::OnBattery(on_battery)).after(
                WatchEvent::Done,
            );
            &&& prepared.phase == WatchPhase::Waiting
            &&& on_battery ==> prepared.interval_ms == 16
            &&& !on_battery ==> prepared.interval_ms == 0
        }),
{
}

/// There is a minimum interval between frames exactly if they are capped: for
/// every number of frames per second but 0, and on battery, but not on AC. It is
/// as many milliseconds as were set.
pub proof fn lemma_frames_spaced_if_capped(fps: u64, interval_ms: u64)
    ensures
        frame_interval(interval_of_fps(fps)) is Some <==> fps > 0,
        frame_interval(interval_of_power(true)) == Some(duration_of_millis(16)),
        frame_interval(interval_of_power(false)) is None,
        frame_interval(interval_ms) is None <==> interval_ms == 0,
        frame_interval(interval_ms) matches Some(d) ==> d == duration_of_millis(interval_ms),
{
    lemma_cap_allows_fps(fps);
}

} // verus!
