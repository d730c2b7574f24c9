//! Decisions of the scheduler's event loop.
//!
//! The daemon receives screen, mode, load, frame and configuration events and
//! decides, for each, what the frame-aware controller (FAS) and the CPU load
//! governor (CLG) must do. This module holds those decisions as a state
//! machine: `SchedulerState::step` takes an event and what the caller observes
//! of the world (time, whether FAS holds policies, whether the governor is
//! active, which modes enable the governor) and returns the next state and the
//! actions to perform, in order.

use vstd::prelude::*;

verus! {

/// How long a FAS session left for another app may be resumed (5 s).
pub const FAS_SUSPEND_GRACE_NS: u64 = 5_000_000_000;

/// How often the CPU temperature is sampled while FAS runs (3 s).
pub const TEMP_POLL_INTERVAL_NS: u64 = 3_000_000_000;

/// Which governor configuration to install.
#[derive(Debug, Clone, PartialEq, Eq)]
pub enum ClgProfile<S> {
    /// The screen-off profile, derived from the powersave mode.
    Doze,
    /// The configuration of the named mode.
    Mode(S),
}

/// One thing the event loop must do, in the order given.
#[derive(Debug, Clone, PartialEq, Eq)]
pub enum Action<S> {
    /// Restore every FAS policy to its full frequency range.
    FasResetAllFreqs,
    /// Forget the current game (package, profile, load data).
    FasClearGame,
    /// Drop the FAS policy controllers.
    FasClearPolicies,
    /// Rewrite the frequencies that FAS last chose (resume after a short absence).
    FasForceReapply,
    /// Build the FAS policy controllers from the current rules.
    FasLoadPolicies,
    /// Tell FAS which game is in front.
    FasSetGame { pid: i32, package: S },
    /// Pass the temperature carried by the event to FAS.
    FasSetTemperature,
    /// Pass the rules' temperature threshold to FAS.
    FasSetTempThreshold,
    /// Pass the event's utilisation figures to FAS.
    FasUpdateLoad,
    /// Read the temperature sensor and, if that succeeds, pass it to FAS.
    FasReadTemperature,
    /// Pass the event's frame interval to FAS.
    FasUpdateFrame,
    /// Hot-reload the FAS rules.
    FasReloadRules,
    /// (Re)initialise the load governor with a profile.
    ClgInit(ClgProfile<S>),
    /// Stop the load governor.
    ClgRelease,
    /// Give the running governor the configuration of the named mode.
    ClgReloadConfig(S),
    /// Feed the event's per-core utilisation to the governor.
    ClgOnLoadUpdate,
    /// Record the new mode in the mode file.
    WriteModeFile(S),
    /// Apply the static (non-frequency) settings of the current mode.
    ApplyStaticMode,
    /// Keep the rules carried by the event as the current rules.
    ReplaceRules,
}

/// What reaches the event loop, without the payloads that it only passes on.
#[derive(Debug, Clone, PartialEq, Eq)]
pub enum Event<S> {
    ScreenStateChange(bool),
    ModeChange { package_name: S, pid: i32, mode: S },
    SystemLoadUpdate,
    FrameUpdate,
    ConfigReload,
}

/// Which of the four configured modes enable the load governor.
#[derive(Debug, Clone, Copy, PartialEq, Eq)]
pub struct ClgEnabled {
    pub powersave: bool,
    pub balance: bool,
    pub performance: bool,
    pub fast: bool,
}

/// What the caller observes when an event arrives.
#[derive(Debug, Clone, Copy, PartialEq, Eq)]
pub struct Observation {
    /// Monotonic time in nanoseconds.
    pub now_ns: u64,
    /// Whether FAS currently holds policy controllers.
    pub fas_has_policies: bool,
    /// Whether the load governor is active.
    pub clg_active: bool,
    /// The `enabled` flag of each mode's governor configuration.
    pub clg_enabled: ClgEnabled,
}

/// State of the event loop.
#[derive(Debug, Clone)]
pub struct SchedulerState {
    /// Name of the current mode ("fas", "balance", ...).
    pub mode: String,
    pub screen_on: bool,
    /// The game that FAS was started for, while the mode is FAS.
    pub fas_package: String,
    /// When FAS was suspended because its game left the foreground.
    pub suspended_at_ns: Option<u64>,
    /// The game whose FAS session is suspended.
    pub suspended_package: String,
    /// Whether a CPU temperature sensor was found.
    pub has_temp_sensor: bool,
    /// When the temperature was last sampled.
    pub last_temp_update_ns: u64,
}

/// The state with strings taken by their characters.
pub struct SchedulerView {
    pub mode: Seq<char>,
    pub screen_on: bool,
    pub fas_package: Seq<char>,
    pub suspended_at_ns: Option<u64>,
    pub suspended_package: Seq<char>,
    pub has_temp_sensor: bool,
    pub last_temp_update_ns: u64,
}

impl View for SchedulerState {
    type V = SchedulerView;

    open spec fn view(&self) -> SchedulerView {
        SchedulerView {
            mode: self.mode@,
            screen_on: self.screen_on,
            fas_package: self.fas_package@,
            suspended_at_ns: self.suspended_at_ns,
            suspended_package: self.suspended_package@,
            has_temp_sensor: self.has_temp_sensor,
            last_temp_update_ns: self.last_temp_update_ns,
        }
    }
}

impl View for ClgProfile<String> {
    type V = ClgProfile<Seq<char>>;

    open spec fn view(&self) -> ClgProfile<Seq<char>> {
        match self {
            ClgProfile::Doze => ClgProfile::Doze,
            ClgProfile::Mode(m) => ClgProfile::Mode(m@),
        }
    }
}

impl View for Action<String> {
    type V = Action<Seq<char>>;

    open spec fn view(&self) -> Action<Seq<char>> {
        match self {
            Action::FasResetAllFreqs => Action::FasResetAllFreqs,
            Action::FasClearGame => Action::FasClearGame,
            Action::FasClearPolicies => Action::FasClearPolicies,
            Action::FasForceReapply => Action::FasForceReapply,
            Action::FasLoadPolicies => Action::FasLoadPolicies,
            Action::FasSetGame { pid, package } => Action::FasSetGame {
                pid: *pid,
                package: package@,
            },
            Action::FasSetTemperature => Action::FasSetTemperature,
            Action::FasSetTempThreshold => Action::FasSetTempThreshold,
            Action::FasUpdateLoad => Action::FasUpdateLoad,
            Action::FasReadTemperature => Action::FasReadTemperature,
            Action::FasUpdateFrame => Action::FasUpdateFrame,
            Action::FasReloadRules => Action::FasReloadRules,
            Action::ClgInit(p) => Action::ClgInit(p@),
            Action::ClgRelease => Action::ClgRelease,
            Action::ClgReloadConfig(m) => Action::ClgReloadConfig(m@),
            Action::ClgOnLoadUpdate => Action::ClgOnLoadUpdate,
            Action::WriteModeFile(m) => Action::WriteModeFile(m@),
            Action::ApplyStaticMode => Action::ApplyStaticMode,
            Action::ReplaceRules => Action::ReplaceRules,
        }
    }
}

impl View for Event<String> {
    type V = Event<Seq<char>>;

    open spec fn view(&self) -> Event<Seq<char>> {
        match self {
            Event::ScreenStateChange(on) => Event::ScreenStateChange(*on),
            Event::ModeChange { package_name, pid, mode } => Event::ModeChange {
                package_name: package_name@,
                pid: *pid,
                mode: mode@,
            },
            Event::SystemLoadUpdate => Event::SystemLoadUpdate,
            Event::FrameUpdate => Event::FrameUpdate,
            Event::ConfigReload => Event::ConfigReload,
        }
    }
}

/// The views of a list of actions.
pub open spec fn actions_view(v: Seq<Action<String>>) -> Seq<Action<Seq<char>>> {
    v.map_values(|a: Action<String>| a@)
}

/// The name of the frame-aware mode.
pub open spec fn fas_mode() -> Seq<char> {
    "fas"@
}

/// `Instant::elapsed` between two monotonic readings (saturating at zero).
pub open spec fn elapsed_ns(now: u64, since: u64) -> int {
    if now >= since {
        now - since
    } else {
        0
    }
}

/// Whether a mode enables the governor; a mode that is none of the four
/// configured ones gets the default configuration, which enables it.
pub open spec fn clg_enabled_for(flags: ClgEnabled, mode: Seq<char>) -> bool {
    if mode == "powersave"@ {
        flags.powersave
    } else if mode == "balance"@ {
        flags.balance
    } else if mode == "performance"@ {
        flags.performance
    } else if mode == "fast"@ {
        flags.fast
    } else {
        true
    }
}

/// The screen turned on or off.
pub open spec fn spec_screen_change(s: SchedulerView, on: bool, o: Observation) -> (
    SchedulerView,
    Seq<Action<Seq<char>>>,
) {
    if !on {
        let fas = s.mode == fas_mode();
        let s1 = if fas {
            SchedulerView {
                screen_on: false,
                fas_package: Seq::empty(),
                suspended_at_ns: None,
                suspended_package: Seq::empty(),
                ..s
            }
        } else {
            SchedulerView { screen_on: false, ..s }
        };
        let a = if fas {
            seq![
                Action::FasResetAllFreqs,
                Action::FasClearGame,
                Action::FasClearPolicies,
                Action::ClgInit(ClgProfile::Doze),
            ]
        } else {
            seq![Action::ClgInit(ClgProfile::Doze)]
        };
        (s1, a)
    } else if s.mode != fas_mode() {
        let a = if clg_enabled_for(o.clg_enabled, s.mode) {
            seq![Action::ClgInit(ClgProfile::Mode(s.mode))]
        } else {
            seq![Action::ClgRelease]
        };
        (SchedulerView { screen_on: true, ..s }, a)
    } else {
        (
            SchedulerView { screen_on: true, mode: Seq::empty(), fas_package: Seq::empty(), ..s },
            seq![Action::ClgRelease],
        )
    }
}

/// The foreground app asks for mode `mode`.
pub open spec fn spec_mode_change(
    s: SchedulerView,
    package: Seq<char>,
    pid: i32,
    mode: Seq<char>,
    o: Observation,
) -> (SchedulerView, Seq<Action<Seq<char>>>) {
    if s.mode == mode {
        if mode == fas_mode() {
            (s, seq![Action::FasSetTemperature])
        } else {
            (s, seq![])
        }
    } else if mode == fas_mode() {
        let can_resume = match s.suspended_at_ns {
            Some(at) => elapsed_ns(o.now_ns, at) < FAS_SUSPEND_GRACE_NS && s.suspended_package
                == package && o.fas_has_policies,
            None => false,
        };
        let s1 = SchedulerView {
            mode: mode,
            fas_package: package,
            suspended_at_ns: None,
            suspended_package: Seq::empty(),
            ..s
        };
        let start = if can_resume {
            Action::FasForceReapply
        } else {
            Action::FasLoadPolicies
        };
        (
            s1,
            seq![
                Action::WriteModeFile(mode),
                Action::ClgRelease,
                start,
                Action::FasSetGame { pid, package },
                Action::FasSetTemperature,
                Action::FasSetTempThreshold,
            ],
        )
    } else {
        let was_suspended = s.suspended_at_ns is Some;
        let drop_old = if was_suspended {
            seq![Action::FasResetAllFreqs, Action::FasClearGame, Action::FasClearPolicies]
        } else {
            seq![]
        };
        let has_policies = !was_suspended && o.fas_has_policies;
        let old_fas = s.mode == fas_mode();
        let (sus, spkg, leave) = if old_fas && has_policies {
            (Some(o.now_ns), s.fas_package, seq![])
        } else if old_fas {
            (None, Seq::empty(), seq![Action::FasClearGame, Action::FasClearPolicies])
        } else if was_suspended {
            (None, Seq::empty(), seq![])
        } else {
            (s.suspended_at_ns, s.suspended_package, seq![])
        };
        let clg = if s.screen_on {
            if clg_enabled_for(o.clg_enabled, mode) {
                seq![Action::ClgInit(ClgProfile::Mode(mode))]
            } else {
                seq![Action::ClgRelease]
            }
        } else {
            seq![]
        };
        (
            SchedulerView {
                mode: mode,
                fas_package: Seq::empty(),
                suspended_at_ns: sus,
                suspended_package: spkg,
                ..s
            },
            seq![Action::WriteModeFile(mode)] + drop_old + leave + seq![Action::ApplyStaticMode]
                + clg,
        )
    }
}

/// A periodic utilisation sample arrived.
pub open spec fn spec_load_update(s: SchedulerView, o: Observation) -> Seq<Action<Seq<char>>> {
    let fas = if s.screen_on && s.mode == fas_mode() && s.suspended_at_ns is None {
        seq![Action::FasUpdateLoad]
    } else {
        seq![]
    };
    let clg = if o.clg_active {
        seq![Action::ClgOnLoadUpdate]
    } else {
        seq![]
    };
    fas + clg
}

/// A frame interval arrived while the screen is on.
pub open spec fn spec_frame_update(s: SchedulerView, o: Observation) -> (
    SchedulerView,
    Seq<Action<Seq<char>>>,
) {
    if s.mode == fas_mode() {
        if s.has_temp_sensor && elapsed_ns(o.now_ns, s.last_temp_update_ns)
            >= TEMP_POLL_INTERVAL_NS {
            (
                SchedulerView { last_temp_update_ns: o.now_ns, ..s },
                seq![Action::FasReadTemperature, Action::FasUpdateFrame],
            )
        } else {
            (s, seq![Action::FasUpdateFrame])
        }
    } else {
        (s, seq![])
    }
}

/// New rules arrived.
pub open spec fn spec_config_reload(s: SchedulerView, o: Observation) -> Seq<Action<Seq<char>>> {
    let rest = if s.mode == fas_mode() {
        if o.fas_has_policies {
            seq![Action::FasReloadRules]
        } else {
            seq![Action::FasLoadPolicies]
        }
    } else if s.screen_on {
        if clg_enabled_for(o.clg_enabled, s.mode) {
            if o.clg_active {
                seq![Action::ClgReloadConfig(s.mode)]
            } else {
                seq![Action::ClgInit(ClgProfile::Mode(s.mode))]
            }
        } else if o.clg_active {
            seq![Action::ClgRelease, Action::ApplyStaticMode]
        } else {
            seq![]
        }
    } else {
        seq![]
    };
    seq![Action::ReplaceRules] + rest
}

/// After an event: a suspension older than the grace period ends FAS.
pub open spec fn spec_expire(s: SchedulerView, o: Observation) -> (
    SchedulerView,
    Seq<Action<Seq<char>>>,
) {
    match s.suspended_at_ns {
        Some(at) => if elapsed_ns(o.now_ns, at) >= FAS_SUSPEND_GRACE_NS {
            (
                SchedulerView { suspended_at_ns: None, suspended_package: Seq::empty(), ..s },
                seq![Action::FasResetAllFreqs, Action::FasClearGame, Action::FasClearPolicies],
            )
        } else {
            (s, seq![])
        },
        None => (s, seq![]),
    }
}

/// One turn of the event loop: the event's own handling, then the
/// suspension check. A frame that arrives while the screen is off is skipped
/// entirely, suspension check included.
pub open spec fn spec_step(s: SchedulerView, e: Event<Seq<char>>, o: Observation) -> (
    SchedulerView,
    Seq<Action<Seq<char>>>,
) {
    if e is FrameUpdate && !s.screen_on {
        (s, seq![])
    } else {
        let (s1, a1) = match e {
            Event::ScreenStateChange(on) => spec_screen_change(s, on, o),
            Event::ModeChange { package_name, pid, mode } => spec_mode_change(
                s,
                package_name,
                pid,
                mode,
                o,
            ),
            Event::SystemLoadUpdate => (s, spec_load_update(s, o)),
            Event::FrameUpdate => spec_frame_update(s, o),
            Event::ConfigReload => (s, spec_config_reload(s, o)),
        };
        let (s2, a2) = spec_expire(s1, o);
        (s2, a1 + a2)
    }
}

} // verus!

verus! {

use crate::text::same_text;

pub proof fn lemma_actions_view_concat(a: Seq<Action<String>>, b: Seq<Action<String>>)
    ensures
        actions_view(a + b) == actions_view(a) + actions_view(b),
{
    assert(actions_view(a + b) =~= actions_view(a) + actions_view(b));
}

/// Whether the governor is enabled for `mode`, as `Config::get_mode` and the
/// default configuration decide it.
pub fn clg_enabled_for_mode(flags: ClgEnabled, mode: &str) -> (r: bool)
    ensures
        r == clg_enabled_for(flags, mode@),
{
    if same_text(mode, "powersave") {
        flags.powersave
    } else if same_text(mode, "balance") {
        flags.balance
    } else if same_text(mode, "performance") {
        flags.performance
    } else if same_text(mode, "fast") {
        flags.fast
    } else {
        true
    }
}

/// Whether `mode` names the frame-aware mode.
pub fn is_fas_mode(mode: &str) -> (r: bool)
    ensures
        r == (mode@ == fas_mode()),
{
    same_text(mode, "fas")
}

/// What the loop does when it starts: unless the start mode is FAS, install
/// its governor configuration when that is enabled.
pub open spec fn spec_startup(s: SchedulerView, flags: ClgEnabled) -> Seq<Action<Seq<char>>> {
    if s.mode != fas_mode() && clg_enabled_for(flags, s.mode) {
        seq![Action::ClgInit(ClgProfile::Mode(s.mode))]
    } else {
        seq![]
    }
}

impl SchedulerState {
    /// The state at start-up: mode "balance", screen on, nothing suspended.
    pub fn new(has_temp_sensor: bool, now_ns: u64) -> (s: Self)
        ensures
            s@.mode == "balance"@,
            s@.screen_on,
            s@.fas_package == Seq::<char>::empty(),
            s@.suspended_at_ns is None,
            s@.suspended_package == Seq::<char>::empty(),
            s@.has_temp_sensor == has_temp_sensor,
            s@.last_temp_update_ns == now_ns,
    {
        SchedulerState {
            mode: String::from_str("balance"),
            screen_on: true,
            fas_package: String::new(),
            suspended_at_ns: None,
            suspended_package: String::new(),
            has_temp_sensor,
            last_temp_update_ns: now_ns,
        }
    }

    /// The actions to take once at start-up.
    pub fn startup_actions(&self, flags: ClgEnabled) -> (r: Vec<Action<String>>)
        ensures
            actions_view(r@) == spec_startup(self@, flags),
    {
        let mut r: Vec<Action<String>> = Vec::new();
        if !is_fas_mode(self.mode.as_str()) && clg_enabled_for_mode(flags, self.mode.as_str()) {
            r.push(Action::ClgInit(ClgProfile::Mode(self.mode.clone())));
        }
        assert(actions_view(r@) =~= spec_startup(self@, flags));
        r
    }

    fn screen_change(&mut self, on: bool, o: Observation) -> (r: Vec<Action<String>>)
        ensures
            (final(self)@, actions_view(r@)) == spec_screen_change(old(self)@, on, o),
    {
        let mut r: Vec<Action<String>> = Vec::new();
        let fas = is_fas_mode(self.mode.as_str());
        if !on {
            self.screen_on = false;
            if fas {
                r.push(Action::FasResetAllFreqs);
                r.push(Action::FasClearGame);
                r.push(Action::FasClearPolicies);
                self.fas_package = String::new();
                self.suspended_at_ns = None;
                self.suspended_package = String::new();
            }
            r.push(Action::ClgInit(ClgProfile::Doze));
        } else {
            self.screen_on = true;
            if !fas {
                if clg_enabled_for_mode(o.clg_enabled, self.mode.as_str()) {
                    r.push(Action::ClgInit(ClgProfile::Mode(self.mode.clone())));
                } else {
                    r.push(Action::ClgRelease);
                }
            } else {
                r.push(Action::ClgRelease);
                self.mode = String::new();
                self.fas_package = String::new();
            }
        }
        assert(actions_view(r@) =~= spec_screen_change(old(self)@, on, o).1);
        r
    }

    fn mode_change(&mut self, package: &String, pid: i32, mode: &String, o: Observation) -> (r: Vec<
        Action<String>,
    >)
        ensures
            (final(self)@, actions_view(r@)) == spec_mode_change(
                old(self)@,
                package@,
                pid,
                mode@,
                o,
            ),
    {
        let mut r: Vec<Action<String>> = Vec::new();
        let ghost s0 = self@;
        if self.mode == *mode {
            if is_fas_mode(mode.as_str()) {
                r.push(Action::FasSetTemperature);
            }
            assert(actions_view(r@) =~= spec_mode_change(s0, package@, pid, mode@, o).1);
            return r;
        }
        let old_fas = is_fas_mode(self.mode.as_str());
        self.mode = mode.clone();
        r.push(Action::WriteModeFile(mode.clone()));
        if is_fas_mode(mode.as_str()) {
            r.push(Action::ClgRelease);
            let can_resume = match self.suspended_at_ns {
                Some(at) => {
                    let el = if o.now_ns >= at {
                        o.now_ns - at
                    } else {
                        0
                    };
                    el < FAS_SUSPEND_GRACE_NS && self.suspended_package == *package
                        && o.fas_has_policies
                },
                None => false,
            };
            self.fas_package = package.clone();
            self.suspended_at_ns = None;
            self.suspended_package = String::new();
            if can_resume {
                r.push(Action::FasForceReapply);
            } else {
                r.push(Action::FasLoadPolicies);
            }
            r.push(Action::FasSetGame { pid, package: package.clone() });
            r.push(Action::FasSetTemperature);
            r.push(Action::FasSetTempThreshold);
        } else {
            let mut has_policies = o.fas_has_policies;
            if self.suspended_at_ns.is_some() {
                r.push(Action::FasResetAllFreqs);
                r.push(Action::FasClearGame);
                r.push(Action::FasClearPolicies);
                has_policies = false;
                self.suspended_at_ns = None;
                self.suspended_package = String::new();
            }
            if old_fas && has_policies {
                self.suspended_at_ns = Some(o.now_ns);
                self.suspended_package = self.fas_package.clone();
            } else if old_fas {
                r.push(Action::FasClearGame);
                r.push(Action::FasClearPolicies);
                self.suspended_at_ns = None;
                self.suspended_package = String::new();
            }
            self.fas_package = String::new();
            r.push(Action::ApplyStaticMode);
            if self.screen_on {
                if clg_enabled_for_mode(o.clg_enabled, mode.as_str()) {
                    r.push(Action::ClgInit(ClgProfile::Mode(mode.clone())));
                } else {
                    r.push(Action::ClgRelease);
                }
            }
        }
        assert(actions_view(r@) =~= spec_mode_change(s0, package@, pid, mode@, o).1);
        r
    }

    fn load_update(&self, o: Observation) -> (r: Vec<Action<String>>)
        ensures
            actions_view(r@) == spec_load_update(self@, o),
    {
        let mut r: Vec<Action<String>> = Vec::new();
        if self.screen_on && is_fas_mode(self.mode.as_str()) && self.suspended_at_ns.is_none() {
            r.push(Action::FasUpdateLoad);
        }
        if o.clg_active {
            r.push(Action::ClgOnLoadUpdate);
        }
        assert(actions_view(r@) =~= spec_load_update(self@, o));
        r
    }

    fn frame_update(&mut self, o: Observation) -> (r: Vec<Action<String>>)
        ensures
            (final(self)@, actions_view(r@)) == spec_frame_update(old(self)@, o),
    {
        let mut r: Vec<Action<String>> = Vec::new();
        if is_fas_mode(self.mode.as_str()) {
            let el = if o.now_ns >= self.last_temp_update_ns {
                o.now_ns - self.last_temp_update_ns
            } else {
                0
            };
            if self.has_temp_sensor && el >= TEMP_POLL_INTERVAL_NS {
                r.push(Action::FasReadTemperature);
                self.last_temp_update_ns = o.now_ns;
            }
            r.push(Action::FasUpdateFrame);
        }
        assert(actions_view(r@) =~= spec_frame_update(old(self)@, o).1);
        r
    }

    fn config_reload(&self, o: Observation) -> (r: Vec<Action<String>>)
        ensures
            actions_view(r@) == spec_config_reload(self@, o),
    {
        let mut r: Vec<Action<String>> = Vec::new();
        r.push(Action::ReplaceRules);
        if is_fas_mode(self.mode.as_str()) {
            if o.fas_has_policies {
                r.push(Action::FasReloadRules);
            } else {
                r.push(Action::FasLoadPolicies);
            }
        } else if self.screen_on {
            if clg_enabled_for_mode(o.clg_enabled, self.mode.as_str()) {
                if o.clg_active {
                    r.push(Action::ClgReloadConfig(self.mode.clone()));
                } else {
                    r.push(Action::ClgInit(ClgProfile::Mode(self.mode.clone())));
                }
            } else if o.clg_active {
                r.push(Action::ClgRelease);
                r.push(Action::ApplyStaticMode);
            }
        }
        assert(actions_view(r@) =~= spec_config_reload(self@, o));
        r
    }

    fn expire(&mut self, o: Observation) -> (r: Vec<Action<String>>)
        ensures
            (final(self)@, actions_view(r@)) == spec_expire(old(self)@, o),
    {
        let mut r: Vec<Action<String>> = Vec::new();
        if let Some(at) = self.suspended_at_ns {
            let el = if o.now_ns >= at {
                o.now_ns - at
            } else {
                0
            };
            if el >= FAS_SUSPEND_GRACE_NS {
                r.push(Action::FasResetAllFreqs);
                r.push(Action::FasClearGame);
                r.push(Action::FasClearPolicies);
                self.suspended_at_ns = None;
                self.suspended_package = String::new();
            }
        }
        assert(actions_view(r@) =~= spec_expire(old(self)@, o).1);
        r
    }

    /// Handles one event: returns the actions to perform, in order, and moves
    /// to the next state.
    pub fn step(&mut self, e: &Event<String>, o: Observation) -> (r: Vec<Action<String>>)
        ensures
            (final(self)@, actions_view(r@)) == spec_step(old(self)@, e@, o),
    {
        if matches!(e, Event::FrameUpdate) && !self.screen_on {
            let r: Vec<Action<String>> = Vec::new();
            assert(actions_view(r@) =~= Seq::<Action<Seq<char>>>::empty());
            return r;
        }
        let mut r = match e {
            Event::ScreenStateChange(on) => self.screen_change(*on, o),
            Event::ModeChange { package_name, pid, mode } => self.mode_change(
                package_name,
                *pid,
                mode,
                o,
            ),
            Event::SystemLoadUpdate => self.load_update(o),
            Event::FrameUpdate => self.frame_update(o),
            Event::ConfigReload => self.config_reload(o),
        };
        let ghost r1 = r@;
        let mut tail = self.expire(o);
        let ghost r2 = tail@;
        r.append(&mut tail);
        proof {
            lemma_actions_view_concat(r1, r2);
        }
        r
    }
}

} // verus!

verus! {

/// What every reachable state satisfies: a game is remembered as FAS's own
/// only in FAS mode, a suspended FAS session exists only outside FAS mode, and
/// without one no package is remembered for it.
pub open spec fn scheduler_inv(s: SchedulerView) -> bool {
    &&& s.mode != fas_mode() ==> s.fas_package == Seq::<char>::empty()
    &&& s.suspended_at_ns is Some ==> s.mode != fas_mode()
    &&& s.suspended_at_ns is None ==> s.suspended_package == Seq::<char>::empty()
}

/// The start-up state satisfies the invariant.
pub proof fn law_initial_state_invariant(s: SchedulerView)
    requires
        s.mode == "balance"@,
        s.fas_package == Seq::<char>::empty(),
        s.suspended_at_ns is None,
        s.suspended_package == Seq::<char>::empty(),
    ensures
        scheduler_inv(s),
{
}

/// Every turn of the event loop keeps the invariant.
pub proof fn law_step_preserves_invariant(s: SchedulerView, e: Event<Seq<char>>, o: Observation)
    requires
        scheduler_inv(s),
    ensures
        scheduler_inv(spec_step(s, e, o).0),
{
    reveal_strlit("fas");
    reveal_strlit("");
    assert(Seq::<char>::empty() != fas_mode()) by {
        assert(fas_mode().len() == 3);
    }
}

/// A suspended FAS session never outlives the grace period: after any event
/// that the loop handles, a remaining suspension is younger than 5 s.
pub proof fn law_suspension_within_grace(s: SchedulerView, e: Event<Seq<char>>, o: Observation)
    requires
        !(e is FrameUpdate && !s.screen_on),
    ensures
        spec_step(s, e, o).0.suspended_at_ns matches Some(at) ==> elapsed_ns(o.now_ns, at)
            < FAS_SUSPEND_GRACE_NS,
{
}

/// Turning the screen off hands the CPU to the governor's doze profile and,
/// in FAS mode, takes frequency control away from FAS.
pub proof fn law_screen_off_dozes(s: SchedulerView, o: Observation)
    ensures
        ({
            let (s2, a) = spec_step(s, Event::ScreenStateChange(false), o);
            &&& !s2.screen_on
            &&& a.contains(Action::ClgInit(ClgProfile::Doze))
            &&& s.mode == fas_mode() ==> {
                &&& a.contains(Action::FasResetAllFreqs)
                &&& a.contains(Action::FasClearPolicies)
                &&& s2.suspended_at_ns is None
            }
        }),
{
    let (s1, a1) = spec_screen_change(s, false, o);
    let (s2, a2) = spec_expire(s1, o);
    let a = a1 + a2;
    if s.mode == fas_mode() {
        assert(a[3] == Action::<Seq<char>>::ClgInit(ClgProfile::Doze));
        assert(a[0] == Action::<Seq<char>>::FasResetAllFreqs);
        assert(a[2] == Action::<Seq<char>>::FasClearPolicies);
    } else {
        assert(a[0] == Action::<Seq<char>>::ClgInit(ClgProfile::Doze));
    }
}

/// Turning the screen on restores the current mode's governor: its
/// configuration when the mode enables the governor, none otherwise; in FAS
/// mode the governor stays off and the mode is cleared, so that the next
/// foreground report starts FAS afresh.
pub proof fn law_screen_on_restores(s: SchedulerView, o: Observation)
    ensures
        ({
            let (s2, a) = spec_step(s, Event::ScreenStateChange(true), o);
            &&& s2.screen_on
            &&& s.mode != fas_mode() && clg_enabled_for(o.clg_enabled, s.mode) ==> a.contains(
                Action::ClgInit(ClgProfile::Mode(s.mode)),
            )
            &&& s.mode != fas_mode() && !clg_enabled_for(o.clg_enabled, s.mode) ==> a.contains(
                Action::ClgRelease,
            )
            &&& s.mode == fas_mode() ==> a.contains(Action::ClgRelease) && s2.mode
                == Seq::<char>::empty()
        }),
{
    let (s1, a1) = spec_screen_change(s, true, o);
    let (s2, a2) = spec_expire(s1, o);
    let a = a1 + a2;
    assert(a[0] == a1[0]);
}

/// Frames drive FAS exactly when the screen is on and the mode is FAS.
pub proof fn law_frames_only_drive_fas(s: SchedulerView, e: Event<Seq<char>>, o: Observation)
    ensures
        spec_step(s, e, o).1.contains(Action::FasUpdateFrame) <==> (e is FrameUpdate
            && s.screen_on && s.mode == fas_mode()),
{
    let a = spec_step(s, e, o).1;
    if e is FrameUpdate && s.screen_on && s.mode == fas_mode() {
        let a1 = spec_frame_update(s, o).1;
        assert(a1.last() == Action::<Seq<char>>::FasUpdateFrame);
        assert(a[a1.len() - 1] == a1[a1.len() - 1]);
    } else {
        assert forall|i: int| 0 <= i < a.len() implies a[i] != Action::<Seq<char>>::FasUpdateFrame by {
            if !(e is FrameUpdate && !s.screen_on) {
                let (s1, a1) = match e {
                    Event::ScreenStateChange(on) => spec_screen_change(s, on, o),
                    Event::ModeChange { package_name, pid, mode } => spec_mode_change(
                        s,
                        package_name,
                        pid,
                        mode,
                        o,
                    ),
                    Event::SystemLoadUpdate => (s, spec_load_update(s, o)),
                    Event::FrameUpdate => spec_frame_update(s, o),
                    Event::ConfigReload => (s, spec_config_reload(s, o)),
                };
                let a2 = spec_expire(s1, o).1;
                if i < a1.len() {
                    assert(a[i] == a1[i]);
                } else {
                    assert(a[i] == a2[i - a1.len()]);
                }
            }
        }
    }
}

/// Utilisation samples reach FAS exactly when the screen is on, the mode is
/// FAS and no session is suspended.
pub proof fn law_load_only_feeds_active_fas(
    s: SchedulerView,
    e: Event<Seq<char>>,
    o: Observation,
)
    ensures
        spec_step(s, e, o).1.contains(Action::FasUpdateLoad) <==> (e is SystemLoadUpdate
            && s.screen_on && s.mode == fas_mode() && s.suspended_at_ns is None),
{
    let a = spec_step(s, e, o).1;
    if e is SystemLoadUpdate && s.screen_on && s.mode == fas_mode() && s.suspended_at_ns is None {
        assert(a[0] == Action::<Seq<char>>::FasUpdateLoad);
    } else {
        assert forall|i: int| 0 <= i < a.len() implies a[i] != Action::<Seq<char>>::FasUpdateLoad by {
            if !(e is FrameUpdate && !s.screen_on) {
                let (s1, a1) = match e {
                    Event::ScreenStateChange(on) => spec_screen_change(s, on, o),
                    Event::ModeChange { package_name, pid, mode } => spec_mode_change(
                        s,
                        package_name,
                        pid,
                        mode,
                        o,
                    ),
                    Event::SystemLoadUpdate => (s, spec_load_update(s, o)),
                    Event::FrameUpdate => spec_frame_update(s, o),
                    Event::ConfigReload => (s, spec_config_reload(s, o)),
                };
                let a2 = spec_expire(s1, o).1;
                if i < a1.len() {
                    assert(a[i] == a1[i]);
                } else {
                    assert(a[i] == a2[i - a1.len()]);
                }
            }
        }
    }
}

/// Windowed-mode resume: a game that FAS was started for may leave the
/// foreground for another app and come back; when it comes back less than
/// 5 s later, with the policies still held, FAS resumes by rewriting its
/// frequencies instead of reloading its policies. Another game arriving in
/// its place reloads them.
pub proof fn law_short_absence_resumes(
    s: SchedulerView,
    game: Seq<char>,
    other: Seq<char>,
    other_mode: Seq<char>,
    returning: Seq<char>,
    pid: i32,
    o0: Observation,
    o1: Observation,
    o2: Observation,
)
    requires
        scheduler_inv(s),
        s.mode != fas_mode(),
        other_mode != fas_mode(),
        o1.fas_has_policies,
        o2.fas_has_policies,
        o1.now_ns <= o2.now_ns,
        o2.now_ns - o1.now_ns < FAS_SUSPEND_GRACE_NS,
    ensures
        ({
            let s1 = spec_step(s, Event::ModeChange { package_name: game, pid, mode: fas_mode() }, o0).0;
            let s2 = spec_step(s1, Event::ModeChange { package_name: other, pid, mode: other_mode }, o1).0;
            let (s3, a3) = spec_step(s2, Event::ModeChange { package_name: returning, pid, mode: fas_mode() }, o2);
            &&& s1.fas_package == game
            &&& s2.suspended_at_ns == Some(o1.now_ns)
            &&& s2.suspended_package == game
            &&& a3.contains(Action::FasForceReapply) <==> returning == game
            &&& a3.contains(Action::FasLoadPolicies) <==> returning != game
            &&& a3.contains(Action::FasSetGame { pid, package: returning })
            &&& s3.mode == fas_mode()
            &&& s3.fas_package == returning
            &&& s3.suspended_at_ns is None
        }),
{
    let s1 = spec_step(s, Event::ModeChange { package_name: game, pid, mode: fas_mode() }, o0).0;
    let s2 = spec_step(s1, Event::ModeChange { package_name: other, pid, mode: other_mode }, o1).0;
    let e3 = Event::ModeChange { package_name: returning, pid, mode: fas_mode() };
    let (s3, a3) = spec_step(s2, e3, o2);
    let a = spec_mode_change(s2, returning, pid, fas_mode(), o2).1;
    assert(a3 == a + spec_expire(spec_mode_change(s2, returning, pid, fas_mode(), o2).0, o2).1);
    assert(a3[3] == Action::<Seq<char>>::FasSetGame { pid, package: returning });
    if returning == game {
        assert(a3[2] == Action::<Seq<char>>::FasForceReapply);
        assert forall|i: int| 0 <= i < a3.len() implies a3[i] != Action::<Seq<char>>::FasLoadPolicies by {
            if i < a.len() {
                assert(a3[i] == a[i]);
            }
        }
    } else {
        assert(a3[2] == Action::<Seq<char>>::FasLoadPolicies);
        assert forall|i: int| 0 <= i < a3.len() implies a3[i] != Action::<Seq<char>>::FasForceReapply by {
            if i < a.len() {
                assert(a3[i] == a[i]);
            }
        }
    }
}

/// Whether an action changes the load governor's configuration.
pub open spec fn reconfigures_governor(a: Action<Seq<char>>) -> bool {
    a is ClgInit || a is ClgReloadConfig || a is ClgRelease
}

/// The suspension check that closes every turn never touches the governor.
proof fn lemma_expire_leaves_governor(s: SchedulerView, o: Observation)
    ensures
        forall|i: int|
            0 <= i < spec_expire(s, o).1.len() ==> !reconfigures_governor(
                #[trigger] spec_expire(s, o).1[i],
            ),
{
}

/// New rules never displace the doze profile: with the screen off, a
/// configuration reload keeps the new rules and, in FAS mode, reloads FAS,
/// but installs, reloads or releases no governor configuration. Outside FAS
/// mode and with no suspended session, keeping the rules is all it does.
pub proof fn law_reload_keeps_doze(s: SchedulerView, o: Observation)
    requires
        !s.screen_on,
    ensures
        ({
            let a = spec_step(s, Event::ConfigReload, o).1;
            &&& a.len() > 0
            &&& a[0] == Action::<Seq<char>>::ReplaceRules
            &&& forall|i: int| 0 <= i < a.len() ==> !reconfigures_governor(#[trigger] a[i])
            &&& s.mode != fas_mode() && s.suspended_at_ns is None ==> a == seq![
                Action::<Seq<char>>::ReplaceRules,
            ]
        }),
{
    let a1 = spec_config_reload(s, o);
    let a2 = spec_expire(s, o).1;
    let a = spec_step(s, Event::ConfigReload, o).1;
    assert(a == a1 + a2);
    lemma_expire_leaves_governor(s, o);
    assert forall|i: int| 0 <= i < a.len() implies !reconfigures_governor(#[trigger] a[i]) by {
        if i < a1.len() {
            assert(a[i] == a1[i]);
        } else {
            assert(a[i] == a2[i - a1.len()]);
        }
    }
    if s.mode != fas_mode() && s.suspended_at_ns is None {
        assert(a1 =~= seq![Action::<Seq<char>>::ReplaceRules]);
        assert(a2 =~= Seq::<Action<Seq<char>>>::empty());
        assert(a =~= seq![Action::<Seq<char>>::ReplaceRules]);
    }
}

/// A foreground app asking for an ordinary (non-FAS) mode while the screen
/// is off never displaces the doze profile: the turn installs, reloads or
/// releases no governor configuration, whatever the mode and the app.
pub proof fn law_mode_change_keeps_doze(
    s: SchedulerView,
    package: Seq<char>,
    pid: i32,
    mode: Seq<char>,
    o: Observation,
)
    requires
        !s.screen_on,
        mode != fas_mode(),
    ensures
        ({
            let a = spec_step(s, Event::ModeChange { package_name: package, pid, mode }, o).1;
            forall|i: int| 0 <= i < a.len() ==> !reconfigures_governor(#[trigger] a[i])
        }),
{
    let a1 = spec_mode_change(s, package, pid, mode, o).1;
    let s1 = spec_mode_change(s, package, pid, mode, o).0;
    let a2 = spec_expire(s1, o).1;
    let a = spec_step(s, Event::ModeChange { package_name: package, pid, mode }, o).1;
    assert(a == a1 + a2);
    lemma_expire_leaves_governor(s1, o);
    assert forall|i: int| 0 <= i < a.len() implies !reconfigures_governor(#[trigger] a[i]) by {
        if i < a1.len() {
            assert(a[i] == a1[i]);
        } else {
            assert(a[i] == a2[i - a1.len()]);
        }
    }
}

/// With the screen on, an app asking for a new ordinary mode installs that
/// mode's governor configuration when the mode enables the governor, and
/// releases the governor otherwise; it never installs another mode's.
pub proof fn law_mode_change_sets_governor(
    s: SchedulerView,
    package: Seq<char>,
    pid: i32,
    mode: Seq<char>,
    o: Observation,
)
    requires
        s.screen_on,
        mode != fas_mode(),
        s.mode != mode,
    ensures
        ({
            let a = spec_step(s, Event::ModeChange { package_name: package, pid, mode }, o).1;
            &&& a.contains(Action::ClgInit(ClgProfile::Mode(mode))) <==> clg_enabled_for(
                o.clg_enabled,
                mode,
            )
            &&& a.contains(Action::ClgRelease) <==> !clg_enabled_for(o.clg_enabled, mode)
            &&& forall|i: int|
                0 <= i < a.len() && (#[trigger] a[i]) is ClgInit ==> a[i] == Action::ClgInit(
                    ClgProfile::Mode(mode),
                )
        }),
{
    let (s1, a1) = spec_mode_change(s, package, pid, mode, o);
    let a2 = spec_expire(s1, o).1;
    let a = spec_step(s, Event::ModeChange { package_name: package, pid, mode }, o).1;
    assert(a == a1 + a2);
    lemma_expire_leaves_governor(s1, o);
    let g = if clg_enabled_for(o.clg_enabled, mode) {
        Action::<Seq<char>>::ClgInit(ClgProfile::Mode(mode))
    } else {
        Action::<Seq<char>>::ClgRelease
    };
    assert(a1.last() == g);
    assert(a[a1.len() - 1] == g);
    assert forall|i: int| 0 <= i < a.len() && reconfigures_governor(#[trigger] a[i]) implies a[i]
        == g by {
        if i < a1.len() {
            assert(a[i] == a1[i]);
        } else {
            assert(a[i] == a2[i - a1.len()]);
        }
    }
    if a.contains(Action::ClgInit(ClgProfile::Mode(mode))) {
        let j = choose|j: int| 0 <= j < a.len() && a[j] == Action::<Seq<char>>::ClgInit(
            ClgProfile::Mode(mode),
        );
        assert(reconfigures_governor(a[j]));
    }
    if a.contains(Action::ClgRelease) {
        let j = choose|j: int| 0 <= j < a.len() && a[j] == Action::<Seq<char>>::ClgRelease;
        assert(reconfigures_governor(a[j]));
    }
}

/// With the screen on and an ordinary mode, new rules reach the governor:
/// a running governor gets the mode's new configuration when the mode
/// enables it, a stopped one is started with it, and a running governor
/// that the mode no longer enables is released (and the static settings
/// reapplied).
pub proof fn law_reload_reaches_governor(s: SchedulerView, o: Observation)
    requires
        s.screen_on,
        s.mode != fas_mode(),
    ensures
        ({
            let a = spec_step(s, Event::ConfigReload, o).1;
            let on = clg_enabled_for(o.clg_enabled, s.mode);
            &&& a.contains(Action::ClgReloadConfig(s.mode)) <==> (on && o.clg_active)
            &&& a.contains(Action::ClgInit(ClgProfile::Mode(s.mode))) <==> (on && !o.clg_active)
            &&& a.contains(Action::ClgRelease) <==> (!on && o.clg_active)
        }),
{
    let a1 = spec_config_reload(s, o);
    let a2 = spec_expire(s, o).1;
    let a = spec_step(s, Event::ConfigReload, o).1;
    assert(a == a1 + a2);
    lemma_expire_leaves_governor(s, o);
    assert forall|x: Action<Seq<char>>| reconfigures_governor(x) implies (a.contains(x)
        <==> a1.contains(x)) by {
        if a.contains(x) {
            let j = choose|j: int| 0 <= j < a.len() && a[j] == x;
            if j < a1.len() {
                assert(a1[j] == x);
            } else {
                assert(a2[j - a1.len()] == x);
            }
        }
        if a1.contains(x) {
            let j = choose|j: int| 0 <= j < a1.len() && a1[j] == x;
            assert(a[j] == x);
        }
    }
    let on = clg_enabled_for(o.clg_enabled, s.mode);
    let reload = Action::<Seq<char>>::ClgReloadConfig(s.mode);
    let init = Action::<Seq<char>>::ClgInit(ClgProfile::Mode(s.mode));
    let release = Action::<Seq<char>>::ClgRelease;
    assert(reconfigures_governor(reload) && reconfigures_governor(init) && reconfigures_governor(
        release,
    ));
    // Every governor action of the reload is the one its case calls for.
    assert forall|j: int| 0 <= j < a1.len() && reconfigures_governor(#[trigger] a1[j]) implies (
    on && o.clg_active && a1[j] == reload) || (on && !o.clg_active && a1[j] == init) || (!on
        && o.clg_active && a1[j] == release) by {}
    if on && o.clg_active {
        assert(a1[1] == reload);
    } else if on {
        assert(a1[1] == init);
    } else if o.clg_active {
        assert(a1[1] == release);
    }
    assert(a1.contains(reload) <==> (on && o.clg_active)) by {
        if a1.contains(reload) {
            let j = choose|j: int| 0 <= j < a1.len() && a1[j] == reload;
            assert(reconfigures_governor(a1[j]));
        }
    }
    assert(a1.contains(init) <==> (on && !o.clg_active)) by {
        if a1.contains(init) {
            let j = choose|j: int| 0 <= j < a1.len() && a1[j] == init;
            assert(reconfigures_governor(a1[j]));
        }
    }
    assert(a1.contains(release) <==> (!on && o.clg_active)) by {
        if a1.contains(release) {
            let j = choose|j: int| 0 <= j < a1.len() && a1[j] == release;
            assert(reconfigures_governor(a1[j]));
        }
    }
}

} // verus!
