//! Paths of the module's files and the system nodes that it probes.

use vstd::prelude::*;
use crate::text::{chars_of, string_from_chars};
use crate::release::{find_chars, find_from, has_prefix, starts_with};

verus! {

/// `PathBuf::join` of a relative path on Unix: the base, a `/` unless the
/// base is empty or already ends with one, then the relative path.
pub open spec fn path_join(base: Seq<char>, rel: Seq<char>) -> Seq<char> {
    if base.len() == 0 || base.last() == '/' {
        base + rel
    } else {
        base + seq!['/'] + rel
    }
}

/// Joins a relative path (one that does not start with `/`) onto a base.
pub fn join_path(base: &str, rel: &str) -> (r: String)
    requires
        rel@.len() == 0 || rel@[0] != '/',
    ensures
        r@ == path_join(base@, rel@),
{
    let mut b = chars_of(base);
    let mut r = chars_of(rel);
    if b.len() > 0 && b[b.len() - 1] != '/' {
        b.push('/');
    }
    b.append(&mut r);
    string_from_chars(b.as_slice())
}

/// The rules file under the module root.
pub fn get_rules_path(module_root: &str) -> (r: String)
    ensures
        r@ == path_join(module_root@, "rules.yaml"@),
{
    proof {
        reveal_strlit("rules.yaml");
    }
    join_path(module_root, "rules.yaml")
}

/// Which optional kernel and cgroup nodes exist on this device.
#[derive(Debug, Clone, Copy)]
pub struct SysPathExist {
    pub qcom_feas_exist: bool,
    pub mtk_feas_exist: bool,
    pub walt_exist: bool,
    pub stune_exist: bool,
    pub hi6220_ufs_exist: bool,
    pub cpuctl_top_app_exist: bool,
    pub cpuctl_foreground_exist: bool,
    pub cpuctl_background_exist: bool,
    pub cpuset_top_app_exist: bool,
    pub cpuset_foreground_exist: bool,
    pub cpuset_background_exist: bool,
    pub cpuset_system_background_exist: bool,
    pub cpuset_restricted_exist: bool,
    pub cpuset_root_exist: bool,
    pub cpuidle_governor_exist: bool,
    pub sda_scheduler_exist: bool,
}

impl SysPathExist {
    /// Probes each node with `probe`; each flag is the answer for its node.
    pub fn new(probe: impl Fn(&'static str) -> bool) -> (r: Self)
        requires
            forall|p: &'static str| probe.requires((p,)),
        ensures
            probe.ensures(("/sys/module/perfmgr/parameters/perfmgr_enable",), r.qcom_feas_exist),
            probe.ensures(
                ("/sys/module/mtk_fpsgo/parameters/perfmgr_enable",),
                r.mtk_feas_exist,
            ),
            probe.ensures(("/proc/sys/walt",), r.walt_exist),
            probe.ensures(("/dev/stune",), r.stune_exist),
            probe.ensures(
                ("/sys/bus/platform/devices/hi6220-ufs/ufs_clk_gate_disable",),
                r.hi6220_ufs_exist,
            ),
            probe.ensures(("/dev/cpuctl/top-app",), r.cpuctl_top_app_exist),
            probe.ensures(("/dev/cpuctl/foreground",), r.cpuctl_foreground_exist),
            probe.ensures(("/dev/cpuctl/background",), r.cpuctl_background_exist),
            probe.ensures(("/dev/cpuset/top-app",), r.cpuset_top_app_exist),
            probe.ensures(("/dev/cpuset/foreground",), r.cpuset_foreground_exist),
            probe.ensures(("/dev/cpuset/background",), r.cpuset_background_exist),
            probe.ensures(("/dev/cpuset/system-background",), r.cpuset_system_background_exist),
            probe.ensures(("/dev/cpuset/restricted",), r.cpuset_restricted_exist),
            probe.ensures(("/dev/cpuset",), r.cpuset_root_exist),
            probe.ensures(
                ("/sys/devices/system/cpu/cpuidle/current_governor",),
                r.cpuidle_governor_exist,
            ),
            probe.ensures(("/sys/block/sda/queue/scheduler",), r.sda_scheduler_exist),
    {
        SysPathExist {
            qcom_feas_exist: probe("/sys/module/perfmgr/parameters/perfmgr_enable"),
            mtk_feas_exist: probe("/sys/module/mtk_fpsgo/parameters/perfmgr_enable"),
            walt_exist: probe("/proc/sys/walt"),
            stune_exist: probe("/dev/stune"),
            hi6220_ufs_exist: probe("/sys/bus/platform/devices/hi6220-ufs/ufs_clk_gate_disable"),
            cpuctl_top_app_exist: probe("/dev/cpuctl/top-app"),
            cpuctl_foreground_exist: probe("/dev/cpuctl/foreground"),
            cpuctl_background_exist: probe("/dev/cpuctl/background"),
            cpuset_top_app_exist: probe("/dev/cpuset/top-app"),
            cpuset_foreground_exist: probe("/dev/cpuset/foreground"),
            cpuset_background_exist: probe("/dev/cpuset/background"),
            cpuset_system_background_exist: probe("/dev/cpuset/system-background"),
            cpuset_restricted_exist: probe("/dev/cpuset/restricted"),
            cpuset_root_exist: probe("/dev/cpuset"),
            cpuidle_governor_exist: probe("/sys/devices/system/cpu/cpuidle/current_governor"),
            sda_scheduler_exist: probe("/sys/block/sda/queue/scheduler"),
        }
    }
}

/// Whether `p` occurs in `s` (`str::contains`).
pub open spec fn contains_text(s: Seq<char>, p: Seq<char>) -> bool {
    find_from(s, p, 0) is Some
}

/// Decides `contains_text`.
pub fn contains_chars(s: &[char], p: &str) -> (r: bool)
    ensures
        r == contains_text(s@, p@),
{
    let pc = chars_of(p);
    find_chars(s, pc.as_slice(), 0).is_some()
}

/// Whether a thermal zone measures the CPU: its directory is a
/// `thermal_zone*` and its (trimmed) `type` names a CPU sensor.
pub open spec fn cpu_thermal_zone(dir_name: Seq<char>, zone_type: Seq<char>) -> bool {
    &&& starts_with(dir_name, "thermal_zone"@)
    &&& {
        ||| contains_text(zone_type, "soc_max"@)
        ||| contains_text(zone_type, "mtktscpu"@)
        ||| contains_text(zone_type, "cpu-1-"@)
        ||| contains_text(zone_type, "cpu-0-0-usr"@)
    }
}

/// Decides `cpu_thermal_zone` (the test `find_cpu_temp_path` makes of each
/// zone).
pub fn is_cpu_thermal_zone(dir_name: &str, zone_type: &str) -> (r: bool)
    ensures
        r == cpu_thermal_zone(dir_name@, zone_type@),
{
    let name = chars_of(dir_name);
    if !has_prefix(name.as_slice(), chars_of("thermal_zone").as_slice()) {
        return false;
    }
    let t = chars_of(zone_type);
    contains_chars(t.as_slice(), "soc_max") || contains_chars(t.as_slice(), "mtktscpu")
        || contains_chars(t.as_slice(), "cpu-1-") || contains_chars(t.as_slice(), "cpu-0-0-usr")
}

/// A node of a thermal zone: `/sys/class/thermal/{zone}/{node}`.
pub fn thermal_zone_node(zone: &str, node: &str) -> (r: String)
    requires
        zone@.len() == 0 || zone@[0] != '/',
        node@.len() == 0 || node@[0] != '/',
    ensures
        r@ == path_join(path_join("/sys/class/thermal"@, zone@), node@),
{
    let dir = join_path("/sys/class/thermal", zone);
    join_path(dir.as_str(), node)
}

/// The translation file of a language: `{root}/config/i18n/{lang}.ftl`.
pub fn ftl_path(module_root: &str, lang: &str) -> (r: String)
    ensures
        r@ == path_join(module_root@, "config/i18n/"@ + lang@ + ".ftl"@),
{
    proof {
        reveal_strlit("config/i18n/");
    }
    let mut rel = chars_of("config/i18n/");
    let mut l = chars_of(lang);
    let mut ext = chars_of(".ftl");
    rel.append(&mut l);
    rel.append(&mut ext);
    let rel_s = string_from_chars(rel.as_slice());
    join_path(module_root, rel_s.as_str())
}

/// What `Path::parent` gives for a path: the path without its last
/// component, or `None` for a root or empty path.
pub uninterp spec fn path_parent(path: Seq<char>) -> Option<Seq<char>>;

/// `Path::parent`, as text.
#[verifier::external_body]
fn parent_path(path: &str) -> (r: Option<String>)
    ensures
        match r {
            Some(q) => path_parent(path@) == Some(q@),
            None => path_parent(path@) is None,
        },
{
    std::path::Path::new(path).parent().map(|q| q.to_string_lossy().into_owned())
}

/// The parent of `path`, or `fallback` when it has none.
pub open spec fn parent_or(path: Seq<char>, fallback: Seq<char>) -> Seq<char> {
    match path_parent(path) {
        Some(q) => q,
        None => fallback,
    }
}

/// The module root of an executable at `exe`, three levels up
/// (`<root>/core/bin/yumi`); a level without a parent falls back to `exe`
/// itself.
pub open spec fn module_root_spec(exe: Seq<char>) -> Seq<char> {
    parent_or(parent_or(parent_or(exe, exe), exe), exe)
}

/// The module root for the running executable (`get_module_root` once the
/// executable's path is known).
pub fn module_root_of(exe: &str) -> (r: String)
    ensures
        r@ == module_root_spec(exe@),
{
    let up1 = match parent_path(exe) {
        Some(q) => q,
        None => exe.to_string(),
    };
    let up2 = match parent_path(up1.as_str()) {
        Some(q) => q,
        None => exe.to_string(),
    };
    match parent_path(up2.as_str()) {
        Some(q) => q,
        None => exe.to_string(),
    }
}

} // verus!
