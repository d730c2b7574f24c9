use yumi::daemon::{
    clg_enabled_for_mode, is_fas_mode, Action, ClgEnabled, ClgProfile, Event, Observation,
    SchedulerState, FAS_SUSPEND_GRACE_NS, TEMP_POLL_INTERVAL_NS,
};

fn flags(all: bool) -> ClgEnabled {
    ClgEnabled { powersave: all, balance: all, performance: all, fast: all }
}

fn obs(now_ns: u64, fas_has_policies: bool, clg_active: bool) -> Observation {
    Observation { now_ns, fas_has_policies, clg_active, clg_enabled: flags(true) }
}

fn mode(package: &str, pid: i32, m: &str) -> Event<String> {
    Event::ModeChange { package_name: package.to_string(), pid, mode: m.to_string() }
}

#[test]
fn startup_installs_balance_governor() {
    let s = SchedulerState::new(true, 0);
    assert_eq!(s.mode, "balance");
    assert!(s.screen_on);
    assert_eq!(s.startup_actions(flags(true)), vec![Action::ClgInit(ClgProfile::Mode("balance".to_string()))]);
    assert!(s.startup_actions(flags(false)).is_empty());
}

#[test]
fn mode_helpers() {
    assert!(is_fas_mode("fas"));
    assert!(!is_fas_mode("balance"));
    let f = ClgEnabled { powersave: false, balance: true, performance: false, fast: true };
    assert!(!clg_enabled_for_mode(f, "powersave"));
    assert!(clg_enabled_for_mode(f, "fast"));
    assert!(clg_enabled_for_mode(f, "unknown-mode"));
}

#[test]
fn entering_fas_loads_policies() {
    let mut s = SchedulerState::new(false, 0);
    let a = s.step(&mode("com.game", 42, "fas"), obs(1, false, true));
    assert_eq!(
        a,
        vec![
            Action::WriteModeFile("fas".to_string()),
            Action::ClgRelease,
            Action::FasLoadPolicies,
            Action::FasSetGame { pid: 42, package: "com.game".to_string() },
            Action::FasSetTemperature,
            Action::FasSetTempThreshold,
        ]
    );
    assert_eq!(s.mode, "fas");
    let same = s.step(&mode("com.game", 42, "fas"), obs(2, true, false));
    assert_eq!(same, vec![Action::FasSetTemperature]);
}

#[test]
fn short_absence_resumes_and_long_absence_ends_fas() {
    let mut s = SchedulerState::new(false, 0);
    s.step(&mode("com.game", 42, "fas"), obs(1, false, true));
    assert_eq!(s.fas_package, "com.game");
    let leave = s.step(&mode("com.launcher", 7, "balance"), obs(1_000, true, false));
    assert_eq!(
        leave,
        vec![
            Action::WriteModeFile("balance".to_string()),
            Action::ApplyStaticMode,
            Action::ClgInit(ClgProfile::Mode("balance".to_string())),
        ]
    );
    assert_eq!(s.suspended_at_ns, Some(1_000));
    assert_eq!(s.suspended_package, "com.game");
    assert_eq!(s.fas_package, "");
    let back = s.step(&mode("com.game", 42, "fas"), obs(1_000 + FAS_SUSPEND_GRACE_NS - 1, true, true));
    assert!(back.contains(&Action::FasForceReapply));
    assert!(!back.contains(&Action::FasLoadPolicies));

    let mut s2 = SchedulerState::new(false, 0);
    s2.step(&mode("com.game", 42, "fas"), obs(1, false, true));
    s2.step(&mode("com.game", 42, "balance"), obs(10, true, false));
    let later = s2.step(&Event::SystemLoadUpdate, obs(10 + FAS_SUSPEND_GRACE_NS, true, false));
    assert_eq!(
        later,
        vec![Action::FasResetAllFreqs, Action::FasClearGame, Action::FasClearPolicies]
    );
    assert_eq!(s2.suspended_at_ns, None);
}

#[test]
fn game_returns_from_other_app_within_grace() {
    let mut s = SchedulerState::new(false, 0);
    s.step(&mode("com.game.a", 10, "fas"), obs(1, false, true));
    s.step(&mode("com.chat.b", 20, "performance"), obs(100, true, false));
    assert_eq!(s.suspended_package, "com.game.a");
    let back = s.step(&mode("com.game.a", 11, "fas"), obs(200, true, true));
    assert_eq!(
        back,
        vec![
            Action::WriteModeFile("fas".to_string()),
            Action::ClgRelease,
            Action::FasForceReapply,
            Action::FasSetGame { pid: 11, package: "com.game.a".to_string() },
            Action::FasSetTemperature,
            Action::FasSetTempThreshold,
        ]
    );
    assert_eq!(s.suspended_at_ns, None);
    assert_eq!(s.fas_package, "com.game.a");
}

#[test]
fn other_game_does_not_resume() {
    let mut s = SchedulerState::new(false, 0);
    s.step(&mode("com.a", 1, "fas"), obs(1, false, true));
    s.step(&mode("com.a", 1, "balance"), obs(10, true, false));
    let a = s.step(&mode("com.b", 2, "fas"), obs(20, true, false));
    assert!(a.contains(&Action::FasLoadPolicies));
    assert!(!a.contains(&Action::FasForceReapply));
}

#[test]
fn screen_off_dozes_and_on_restores() {
    let mut s = SchedulerState::new(false, 0);
    let off = s.step(&Event::ScreenStateChange(false), obs(5, false, true));
    assert_eq!(off, vec![Action::ClgInit(ClgProfile::Doze)]);
    assert!(!s.screen_on);
    let on = s.step(&Event::ScreenStateChange(true), obs(6, false, true));
    assert_eq!(on, vec![Action::ClgInit(ClgProfile::Mode("balance".to_string()))]);

    let mut f = SchedulerState::new(false, 0);
    f.step(&mode("com.game", 42, "fas"), obs(1, false, true));
    let off = f.step(&Event::ScreenStateChange(false), obs(2, true, false));
    assert_eq!(
        off,
        vec![
            Action::FasResetAllFreqs,
            Action::FasClearGame,
            Action::FasClearPolicies,
            Action::ClgInit(ClgProfile::Doze),
        ]
    );
    let on = f.step(&Event::ScreenStateChange(true), obs(3, false, true));
    assert_eq!(on, vec![Action::ClgRelease]);
    assert_eq!(f.mode, "");
}

#[test]
fn frames_drive_fas_only() {
    let mut s = SchedulerState::new(true, 0);
    assert!(s.step(&Event::FrameUpdate, obs(1, false, false)).is_empty());
    s.step(&mode("com.game", 42, "fas"), obs(2, false, false));
    assert_eq!(s.step(&Event::FrameUpdate, obs(3, true, false)), vec![Action::FasUpdateFrame]);
    let with_temp = s.step(&Event::FrameUpdate, obs(TEMP_POLL_INTERVAL_NS, true, false));
    assert_eq!(with_temp, vec![Action::FasReadTemperature, Action::FasUpdateFrame]);
    assert_eq!(s.last_temp_update_ns, TEMP_POLL_INTERVAL_NS);
    s.step(&Event::ScreenStateChange(false), obs(TEMP_POLL_INTERVAL_NS + 1, true, false));
    assert!(s.step(&Event::FrameUpdate, obs(TEMP_POLL_INTERVAL_NS + 2, true, false)).is_empty());
}

#[test]
fn load_updates() {
    let mut s = SchedulerState::new(false, 0);
    assert_eq!(s.step(&Event::SystemLoadUpdate, obs(1, false, true)), vec![Action::ClgOnLoadUpdate]);
    assert!(s.step(&Event::SystemLoadUpdate, obs(1, false, false)).is_empty());
    s.step(&mode("g", 1, "fas"), obs(2, false, false));
    assert_eq!(s.step(&Event::SystemLoadUpdate, obs(3, true, false)), vec![Action::FasUpdateLoad]);
}

#[test]
fn config_reload() {
    let mut s = SchedulerState::new(false, 0);
    assert_eq!(
        s.step(&Event::ConfigReload, obs(1, false, true)),
        vec![Action::ReplaceRules, Action::ClgReloadConfig("balance".to_string())]
    );
    let off = Observation { now_ns: 1, fas_has_policies: false, clg_active: true, clg_enabled: flags(false) };
    assert_eq!(
        s.step(&Event::ConfigReload, off),
        vec![Action::ReplaceRules, Action::ClgRelease, Action::ApplyStaticMode]
    );
    s.step(&mode("g", 1, "fas"), obs(2, false, false));
    assert_eq!(
        s.step(&Event::ConfigReload, obs(3, true, false)),
        vec![Action::ReplaceRules, Action::FasReloadRules]
    );
    assert_eq!(
        s.step(&Event::ConfigReload, obs(4, false, false)),
        vec![Action::ReplaceRules, Action::FasLoadPolicies]
    );
}

#[test]
fn leaving_fas_without_policies_clears_game() {
    let mut s = SchedulerState::new(false, 0);
    s.step(&mode("g", 1, "fas"), obs(1, false, false));
    let a = s.step(&mode("g", 1, "powersave"), obs(2, false, false));
    assert_eq!(
        a,
        vec![
            Action::WriteModeFile("powersave".to_string()),
            Action::FasClearGame,
            Action::FasClearPolicies,
            Action::ApplyStaticMode,
            Action::ClgInit(ClgProfile::Mode("powersave".to_string())),
        ]
    );
    assert_eq!(s.suspended_at_ns, None);
}
