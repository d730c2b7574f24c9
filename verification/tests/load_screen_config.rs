use yumi::foreground::{cmdline_package, is_ignored, mode_for, ModeReporter};
use yumi::config::{
    cpu_idle_governor_write, d_auto_cap, d_boost_dur, d_clg_down_rate, d_cold_ms, d_dampen,
    d_dn_confirm, d_fd_thresh, d_force_int, d_jank_cd, d_load_tol, d_post_guard, d_post_ign,
    d_up_cd, d_up_confirm, d_verify_interval, default_iostats, default_language,
    default_loglevel, default_nomerges, default_read_ahead_kb, default_true, io_queue_writes,
    mode_kind, CpuIdle, FunctionToggles, IOSettings, Meta, ModeKind, QueueWrite,
};
use yumi::cpu_load::{thread_ids, CoreDelta, CoreReadings, CoreSampler, ForegroundTracker, TgidUsage};
use yumi::paths::SysPathExist;
use yumi::screen::{
    backlight_nodes, backlight_state, power_action_state, read_int_value, route_uevent,
    screen_signal, update_state_if_changed, ScreenSignal, UeventRoute,
};

#[test]
fn defaults_of_the_rules() {
    assert_eq!(d_post_ign(), 5);
    assert!(d_auto_cap());
    assert_eq!(d_load_tol(), 3);
    assert_eq!(d_post_guard(), 90);
    assert_eq!(d_up_confirm(), 60);
    assert_eq!(d_dn_confirm(), 90);
    assert_eq!(d_up_cd(), 90);
    assert_eq!(d_dampen(), 60);
    assert_eq!(d_boost_dur(), 45);
    assert_eq!(d_fd_thresh(), 75);
    assert_eq!(d_jank_cd(), 15);
    assert_eq!(d_force_int(), 30);
    assert_eq!(d_cold_ms(), 3500);
    assert_eq!(d_verify_interval(), 3);
    assert_eq!(d_clg_down_rate(), 3);
    assert!(default_true());
    assert_eq!(default_loglevel(), "INFO");
    assert_eq!(default_language(), "en");
    assert_eq!(default_read_ahead_kb(), "128");
    assert_eq!(default_nomerges(), "2");
    assert_eq!(default_iostats(), "0");
}

#[test]
fn config_records_default() {
    let m = Meta::default();
    assert_eq!(m.loglevel, "");
    assert_eq!(m.language, "");
    let io = IOSettings::default();
    assert_eq!(io.scheduler, "");
    assert_eq!(io.read_ahead_kb, "128");
    assert_eq!(io.nomerges, "2");
    assert_eq!(io.iostats, "0");
    assert_eq!(CpuIdle::default().current_governor, "");
    let f = FunctionToggles::default();
    assert!(!f.cpu_idle_scaling_governor && !f.io_optimization);
}

#[test]
fn mode_names() {
    assert_eq!(mode_kind("powersave"), Some(ModeKind::Powersave));
    assert_eq!(mode_kind("balance"), Some(ModeKind::Balance));
    assert_eq!(mode_kind("performance"), Some(ModeKind::Performance));
    assert_eq!(mode_kind("fast"), Some(ModeKind::Fast));
    assert_eq!(mode_kind("fas"), None);
}

#[test]
fn io_optimisation_writes() {
    let on = FunctionToggles { cpu_idle_scaling_governor: false, io_optimization: true };
    let io = IOSettings {
        scheduler: String::new(),
        read_ahead_kb: "128".into(),
        nomerges: "2".into(),
        iostats: "0".into(),
    };
    let q = |a: &str, v: &str| QueueWrite { attr: a.into(), value: v.into() };
    assert_eq!(io_queue_writes(&on, &io), vec![q("read_ahead_kb", "128"), q("nomerges", "2"), q("iostats", "0")]);
    let io2 = IOSettings { scheduler: "none".into(), ..io.clone() };
    assert_eq!(io_queue_writes(&on, &io2)[0], q("scheduler", "none"));
    assert!(io_queue_writes(&FunctionToggles::default(), &io2).is_empty());
}

#[test]
fn cpuidle_governor() {
    let on = FunctionToggles { cpu_idle_scaling_governor: true, io_optimization: false };
    let idle = CpuIdle { current_governor: "ladder".into() };
    assert_eq!(cpu_idle_governor_write(&on, &idle, true), Some("ladder".to_string()));
    assert_eq!(cpu_idle_governor_write(&on, &idle, false), None);
    assert_eq!(cpu_idle_governor_write(&on, &CpuIdle::default(), true), None);
    assert_eq!(cpu_idle_governor_write(&FunctionToggles::default(), &idle, true), None);
}

#[test]
fn sys_paths_probed() {
    let p = SysPathExist::new(|path: &'static str| path.starts_with("/dev/cpuset"));
    assert!(p.cpuset_top_app_exist && p.cpuset_root_exist && p.cpuset_restricted_exist);
    assert!(!p.cpuctl_top_app_exist && !p.walt_exist && !p.qcom_feas_exist);
}

#[test]
fn screen_state_updates() {
    let mut s = true;
    assert!(!update_state_if_changed(&mut s, true));
    assert!(update_state_if_changed(&mut s, false));
    assert!(!s);
    assert_eq!(read_int_value(" 0\n"), Some(0));
    assert_eq!(read_int_value("-1"), Some(-1));
    assert_eq!(read_int_value("x"), None);
    assert_eq!(power_action_state("early_suspend"), Some(false));
    assert_eq!(power_action_state("late_resume"), Some(true));
    assert_eq!(power_action_state("other"), None);
    assert_eq!(backlight_state(Some(0), Some(0)), Some(true));
    assert_eq!(backlight_state(Some(4), Some(100)), Some(false));
    assert_eq!(backlight_state(None, Some(100)), Some(true));
    assert_eq!(backlight_state(None, Some(0)), Some(false));
    assert_eq!(backlight_state(None, None), None);
}

#[test]
fn uevent_routing() {
    assert_eq!(route_uevent("power", false, Some("early_suspend")), UeventRoute::Power(false));
    assert_eq!(route_uevent("power", true, None), UeventRoute::Ignore);
    assert_eq!(route_uevent("backlight", true, None), UeventRoute::Backlight);
    assert_eq!(route_uevent("backlight", false, None), UeventRoute::Ignore);
    assert_eq!(route_uevent("net", true, Some("late_resume")), UeventRoute::Ignore);
    assert_eq!(
        backlight_nodes("/devices/platform/soc/backlight/panel0"),
        (
            "/sys/devices/platform/soc/backlight/panel0/bl_power".to_string(),
            "/sys/devices/platform/soc/backlight/panel0/actual_brightness".to_string()
        )
    );
}

#[test]
fn netlink_packets() {
    let power = b"change@/devices/virtual/power\0ACTION=change\0DEVPATH=/devices/virtual/power\0SUBSYSTEM=power\0POWER_ACTION=late_resume\0SEQNUM=12\0";
    assert_eq!(screen_signal(power), ScreenSignal::Power(true));
    let bl = b"change@/devices/bl/panel0\0ACTION=change\0DEVPATH=/devices/bl/panel0\0SUBSYSTEM=backlight\0SEQNUM=13\0";
    assert_eq!(
        screen_signal(bl),
        ScreenSignal::Backlight {
            bl_power: "/sys/devices/bl/panel0/bl_power".to_string(),
            actual_brightness: "/sys/devices/bl/panel0/actual_brightness".to_string()
        }
    );
    let add = b"add@/devices/bl/panel0\0ACTION=add\0DEVPATH=/devices/bl/panel0\0SUBSYSTEM=backlight\0SEQNUM=14\0";
    assert_eq!(screen_signal(add), ScreenSignal::Ignore);
    let no_seq = b"ACTION=change\0DEVPATH=/d\0SUBSYSTEM=power\0POWER_ACTION=late_resume\0";
    assert_eq!(screen_signal(no_seq), ScreenSignal::Ignore);
    assert_eq!(screen_signal(&[0xff, 0xfe]), ScreenSignal::Ignore);
}

#[test]
fn core_sampling() {
    let mut s = CoreSampler::new(vec![0, 1]);
    let r = CoreReadings {
        idle: vec![1_000, 2_000],
        busy: vec![3_000, 500],
        last_switch: vec![10_000, 10_000],
        current_tid: vec![0, 55],
    };
    let d = s.sample(&r, 10_100);
    assert_eq!(d, vec![CoreDelta { busy_ns: 3_000, total_ns: 4_100 }, CoreDelta { busy_ns: 600, total_ns: 2_600 }]);
    let r2 = CoreReadings {
        idle: vec![1_500, 2_000],
        busy: vec![3_000, 900],
        last_switch: vec![10_000, 20_000],
        current_tid: vec![0, 0],
    };
    let d2 = s.sample(&r2, 20_000);
    assert_eq!(d2[0], CoreDelta { busy_ns: 0, total_ns: 10_400 });
    assert_eq!(d2[1], CoreDelta { busy_ns: 300, total_ns: 300 });
}

#[test]
fn core_sampling_indexes_by_cpu_number() {
    // CPUs 1 and 2 offline: the result still has an entry for each CPU
    // number up to the highest online one, and entry 3 is CPU 3.
    let mut s = CoreSampler::new(vec![0, 3]);
    let r = CoreReadings {
        idle: vec![100, 0, 0, 700],
        busy: vec![50, 0, 0, 200],
        last_switch: vec![0, 0, 0, 0],
        current_tid: vec![0, 0, 0, 9],
    };
    let d = s.sample(&r, 5_000_000_000);
    let zero = CoreDelta { busy_ns: 0, total_ns: 0 };
    assert_eq!(
        d,
        vec![CoreDelta { busy_ns: 50, total_ns: 150 }, zero, zero, CoreDelta { busy_ns: 200, total_ns: 900 }]
    );
}

#[test]
fn foreground_process_usage() {
    let mut t = ForegroundTracker::new();
    t.select_pid(100);
    let online = vec![0u32, 1];
    let cur = Some(vec![100u32, 7]);
    let ls = Some(vec![900u64, 0]);
    assert_eq!(t.tgid_usage(100, 0, &cur, &ls, &online, 1_000), TgidUsage::Untracked);
    assert_eq!(t.tgid_usage(100, 5_000, &cur, &ls, &online, 1_000), TgidUsage::Baseline);
    assert_eq!(t.tgid_usage(100, 8_000, &cur, &ls, &online, 1_000), TgidUsage::Busy(3_100));
    assert_eq!(t.tgid_usage(100, 7_000, &None, &None, &online, 1_000), TgidUsage::Baseline);
    t.select_pid(200);
    assert_eq!(t.last_tgid_run, 0);
    assert_eq!(t.last_tgid_pid, 200);
}

#[test]
fn foreground_thread_usage() {
    let mut t = ForegroundTracker::new();
    t.select_pid(1);
    let online = vec![0u32];
    let tids = vec![11u32, 12];
    assert_eq!(t.thread_usage(&tids, &vec![100, 200], &None, &None, &online, 0), 0);
    assert_eq!(t.thread_usage(&tids, &vec![400, 250], &None, &None, &online, 0), 300);
    assert_eq!(t.thread_usage(&tids, &vec![10, 300], &Some(vec![12]), &Some(vec![50]), &online, 80), 80);
    assert_eq!(thread_ids(&vec!["12".into(), "self".into(), "7".into()]), vec![12, 7]);
}

#[test]
fn monotonic_clock_in_nanoseconds() {
    assert_eq!(yumi::cpu_load::ktime_ns(3, 250), 3_000_000_250);
    assert_eq!(yumi::cpu_load::ktime_ns(0, 0), 0);
}

#[test]
fn module_root_and_frame_probe_decisions() {
    assert_eq!(yumi::paths::module_root_of("/data/adb/modules/yumi/core/bin/yumi"), "/data/adb/modules/yumi");
    assert_eq!(yumi::paths::module_root_of("/yumi"), "/");
    assert_eq!(yumi::frame::followed_pid_change(10, 20), Some(20));
    assert_eq!(yumi::frame::followed_pid_change(10, 10), None);
    assert_eq!(yumi::frame::followed_pid_change(10, 0), None);
    assert_eq!(yumi::frame::poll_timeout_ms(true), 100);
    assert_eq!(yumi::frame::poll_timeout_ms(false), 500);
}

#[test]
fn cmdline_names_package() {
    assert_eq!(cmdline_package(b"com.tencent.tmgp.sgame\0"), Some(b"com.tencent.tmgp.sgame".to_vec()));
    assert_eq!(cmdline_package(b"com.android.chrome:sandboxed_process0\0--type"), Some(b"com.android.chrome".to_vec()));
    assert_eq!(cmdline_package(b"/system/bin/surfaceflinger\0"), None);
    assert_eq!(cmdline_package(b"zygote64\0"), None);
    assert_eq!(cmdline_package(b""), None);
    assert_eq!(cmdline_package(b"a.b"), Some(b"a.b".to_vec()));
}

#[test]
fn ignored_apps_and_modes() {
    let ignored = vec!["com.a.b".to_string(), "com.c.d".to_string()];
    assert!(is_ignored(&ignored, &"com.c.d".to_string()));
    assert!(!is_ignored(&ignored, &"com.c".to_string()));
    assert!(!is_ignored(&vec![], &"com.a.b".to_string()));
    let fas = "fas".to_string();
    let global = "balance".to_string();
    assert_eq!(mode_for(true, Some(&fas), &global), "fas");
    assert_eq!(mode_for(false, Some(&fas), &global), "balance");
    assert_eq!(mode_for(true, None, &global), "balance");
}

#[test]
fn mode_reports_only_on_change_or_refresh() {
    let mut r = ModeReporter::new();
    let game = "com.game".to_string();
    let chat = "com.chat".to_string();
    let fas = "fas".to_string();
    let balance = "balance".to_string();
    assert!(r.report(&game, &fas, false));
    assert!(!r.report(&game, &fas, false));
    assert!(r.report(&game, &fas, true));
    assert!(r.report(&chat, &fas, false));
    assert!(r.report(&chat, &balance, false));
    assert!(!r.report(&chat, &balance, false));
}

#[test]
fn core_sampling_counts_a_repeated_cpu_once() {
    let mut s = CoreSampler::new(vec![1, 0, 1]);
    let r = CoreReadings {
        idle: vec![400, 100],
        busy: vec![600, 300],
        last_switch: vec![0, 0],
        current_tid: vec![0, 0],
    };
    let d = s.sample(&r, 5_000_000_000);
    assert_eq!(d, vec![CoreDelta { busy_ns: 600, total_ns: 1_000 }, CoreDelta { busy_ns: 300, total_ns: 400 }]);
}
