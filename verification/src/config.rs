//! Configuration records of `config.yaml` and `rules.yaml` that hold no
//! fractional values, their defaults, and the decisions taken from them.

use vstd::prelude::*;
use crate::text::{same_text, string_from_chars, chars_of};

verus! {

// ─────────────────────────── defaults ───────────────────────────

/// Default log level.
pub fn default_loglevel() -> (r: String)
    ensures
        r@ == "INFO"@,
{
    String::from_str("INFO")
}

/// Default log language.
pub fn default_language() -> (r: String)
    ensures
        r@ == "en"@,
{
    String::from_str("en")
}

/// Default of switches that are on unless turned off.
pub fn default_true() -> (r: bool)
    ensures
        r,
{
    true
}

/// Default I/O read-ahead (KiB).
pub fn default_read_ahead_kb() -> (r: String)
    ensures
        r@ == "128"@,
{
    String::from_str("128")
}

/// Default I/O merge policy (2: no merging).
pub fn default_nomerges() -> (r: String)
    ensures
        r@ == "2"@,
{
    String::from_str("2")
}

/// Default I/O statistics switch (0: off).
pub fn default_iostats() -> (r: String)
    ensures
        r@ == "0"@,
{
    String::from_str("0")
}

/// Default number of 200 ms ticks that the governor waits before lowering a
/// cluster's frequency.
pub fn d_clg_down_rate() -> (r: u32)
    ensures
        r == 3,
{
    3
}

/// Default: capacity weights are detected from `cpu_capacity`.
pub fn d_auto_cap() -> (r: bool)
    ensures
        r,
{
    true
}

/// Default number of normal frames tolerated before loading ends.
pub fn d_load_tol() -> (r: u32)
    ensures
        r == 3,
{
    3
}

/// Default number of frames ignored after loading ends.
pub fn d_post_ign() -> (r: u32)
    ensures
        r == 5,
{
    5
}

/// Default number of frames after loading during which no gear is dropped.
pub fn d_post_guard() -> (r: u32)
    ensures
        r == 90,
{
    90
}

/// Default number of frames that confirm a gear upgrade.
pub fn d_up_confirm() -> (r: u32)
    ensures
        r == 60,
{
    60
}

/// Default number of frames that confirm a gear downgrade.
pub fn d_dn_confirm() -> (r: u32)
    ensures
        r == 90,
{
    90
}

/// Default upgrade cool-down after a downgrade (frames).
pub fn d_up_cd() -> (r: u32)
    ensures
        r == 90,
{
    90
}

/// Default number of damped frames after a gear switch.
pub fn d_dampen() -> (r: u32)
    ensures
        r == 60,
{
    60
}

/// Default length of the boost tried before a downgrade (frames).
pub fn d_boost_dur() -> (r: u32)
    ensures
        r == 45,
{
    45
}

/// Default number of normal frames before a fast decay.
pub fn d_fd_thresh() -> (r: u32)
    ensures
        r == 75,
{
    75
}

/// Default jank cool-down (frames).
pub fn d_jank_cd() -> (r: u32)
    ensures
        r == 15,
{
    15
}

/// Default interval of forced frequency rewrites (frames).
pub fn d_force_int() -> (r: u32)
    ensures
        r == 30,
{
    30
}

/// Default cold-boot period (ms).
pub fn d_cold_ms() -> (r: u64)
    ensures
        r == 3500,
{
    3500
}

/// Default frequency verification interval (s).
pub fn d_verify_interval() -> (r: u32)
    ensures
        r == 3,
{
    3
}

// ─────────────────────────── records ───────────────────────────

/// `meta` section: log level and language.
#[derive(Debug, Clone)]
pub struct Meta {
    pub loglevel: String,
    pub language: String,
}

impl Default for Meta {
    fn default() -> (r: Self)
        ensures
            r.loglevel@ == Seq::<char>::empty(),
            r.language@ == Seq::<char>::empty(),
    {
        Meta { loglevel: String::new(), language: String::new() }
    }
}

/// `IO_Settings` section: what is written to each block device's queue.
#[derive(Debug, Clone)]
pub struct IOSettings {
    pub scheduler: String,
    pub read_ahead_kb: String,
    pub nomerges: String,
    pub iostats: String,
}

impl Default for IOSettings {
    fn default() -> (r: Self)
        ensures
            r.scheduler@ == Seq::<char>::empty(),
            r.read_ahead_kb@ == "128"@,
            r.nomerges@ == "2"@,
            r.iostats@ == "0"@,
    {
        IOSettings {
            scheduler: String::new(),
            read_ahead_kb: default_read_ahead_kb(),
            nomerges: default_nomerges(),
            iostats: default_iostats(),
        }
    }
}

/// `CpuIdle` section: the cpuidle governor to select.
#[derive(Debug, Clone)]
pub struct CpuIdle {
    pub current_governor: String,
}

impl Default for CpuIdle {
    fn default() -> (r: Self)
        ensures
            r.current_governor@ == Seq::<char>::empty(),
    {
        CpuIdle { current_governor: String::new() }
    }
}

/// `function` section: optional tweaks.
#[derive(Debug, Clone, Copy)]
pub struct FunctionToggles {
    pub cpu_idle_scaling_governor: bool,
    pub io_optimization: bool,
}

impl Default for FunctionToggles {
    fn default() -> (r: Self)
        ensures
            !r.cpu_idle_scaling_governor,
            !r.io_optimization,
    {
        FunctionToggles { cpu_idle_scaling_governor: false, io_optimization: false }
    }
}

// ─────────────────────────── decisions ───────────────────────────

/// The four modes that have a configuration section.
#[derive(Debug, Clone, Copy, PartialEq, Eq)]
pub enum ModeKind {
    Powersave,
    Balance,
    Performance,
    Fast,
}

/// The section that a mode name selects (`Config::get_mode`).
pub open spec fn mode_kind_spec(name: Seq<char>) -> Option<ModeKind> {
    if name == "powersave"@ {
        Some(ModeKind::Powersave)
    } else if name == "balance"@ {
        Some(ModeKind::Balance)
    } else if name == "performance"@ {
        Some(ModeKind::Performance)
    } else if name == "fast"@ {
        Some(ModeKind::Fast)
    } else {
        None
    }
}

/// Decides `mode_kind_spec`.
pub fn mode_kind(name: &str) -> (r: Option<ModeKind>)
    ensures
        r == mode_kind_spec(name@),
{
    if same_text(name, "powersave") {
        Some(ModeKind::Powersave)
    } else if same_text(name, "balance") {
        Some(ModeKind::Balance)
    } else if same_text(name, "performance") {
        Some(ModeKind::Performance)
    } else if same_text(name, "fast") {
        Some(ModeKind::Fast)
    } else {
        None
    }
}

/// One value written to a block device's `queue/<attr>` node.
#[derive(Debug, Clone, PartialEq, Eq)]
pub struct QueueWrite {
    pub attr: String,
    pub value: String,
}

/// The queue writes of the I/O optimisation, in order: each setting that is
/// not empty, none when the optimisation is off.
pub open spec fn io_queue_writes_spec(enabled: bool, io: IOSettings) -> Seq<(Seq<char>, Seq<char>)> {
    if !enabled {
        Seq::empty()
    } else {
        (if io.scheduler@.len() > 0 {
            seq![("scheduler"@, io.scheduler@)]
        } else {
            seq![]
        }) + (if io.read_ahead_kb@.len() > 0 {
            seq![("read_ahead_kb"@, io.read_ahead_kb@)]
        } else {
            seq![]
        }) + (if io.nomerges@.len() > 0 {
            seq![("nomerges"@, io.nomerges@)]
        } else {
            seq![]
        }) + (if io.iostats@.len() > 0 {
            seq![("iostats"@, io.iostats@)]
        } else {
            seq![]
        })
    }
}

fn push_queue_write(v: &mut Vec<QueueWrite>, attr: &str, value: &String)
    ensures
        final(v)@.len() == old(v)@.len() + 1,
        forall|i: int| 0 <= i < old(v)@.len() ==> final(v)@[i] == old(v)@[i],
        final(v)@.last().attr@ == attr@,
        final(v)@.last().value@ == value@,
{
    let a = chars_of(attr);
    v.push(QueueWrite { attr: string_from_chars(a.as_slice()), value: value.clone() });
}

/// Computes `io_queue_writes_spec`.
pub fn io_queue_writes(toggles: &FunctionToggles, io: &IOSettings) -> (r: Vec<QueueWrite>)
    ensures
        r@.map_values(|w: QueueWrite| (w.attr@, w.value@)) == io_queue_writes_spec(
            toggles.io_optimization,
            *io,
        ),
{
    let mut r: Vec<QueueWrite> = Vec::new();
    if !toggles.io_optimization {
        assert(r@.map_values(|w: QueueWrite| (w.attr@, w.value@)) =~= Seq::<
            (Seq<char>, Seq<char>),
        >::empty());
        return r;
    }
    let ghost s0 = r@;
    if !io.scheduler.as_str().is_empty() {
        push_queue_write(&mut r, "scheduler", &io.scheduler);
    }
    let ghost s1 = r@;
    if !io.read_ahead_kb.as_str().is_empty() {
        push_queue_write(&mut r, "read_ahead_kb", &io.read_ahead_kb);
    }
    let ghost s2 = r@;
    if !io.nomerges.as_str().is_empty() {
        push_queue_write(&mut r, "nomerges", &io.nomerges);
    }
    let ghost s3 = r@;
    if !io.iostats.as_str().is_empty() {
        push_queue_write(&mut r, "iostats", &io.iostats);
    }
    assert(r@.map_values(|w: QueueWrite| (w.attr@, w.value@)) =~= io_queue_writes_spec(
        toggles.io_optimization,
        *io,
    ));
    r
}

/// The cpuidle governor to write, if the tweak is on, a governor is named
/// and the node exists.
pub fn cpu_idle_governor_write(
    toggles: &FunctionToggles,
    idle: &CpuIdle,
    node_exists: bool,
) -> (r: Option<String>)
    ensures
        (toggles.cpu_idle_scaling_governor && idle.current_governor@.len() > 0 && node_exists)
            ==> (r matches Some(g) && g@ == idle.current_governor@),
        !(toggles.cpu_idle_scaling_governor && idle.current_governor@.len() > 0 && node_exists)
            ==> r is None,
{
    if toggles.cpu_idle_scaling_governor && !idle.current_governor.as_str().is_empty() && node_exists {
        Some(idle.current_governor.clone())
    } else {
        None
    }
}

/// With the I/O optimisation on, each queue setting is written exactly when
/// it is not empty, with its own value, whatever the other settings are;
/// nothing else is written, and with the optimisation off nothing is.
pub proof fn law_io_settings_written_independently(enabled: bool, io: IOSettings)
    ensures
        ({
            let w = io_queue_writes_spec(enabled, io);
            &&& !enabled ==> w.len() == 0
            &&& enabled ==> (w.contains(("scheduler"@, io.scheduler@)) <==> io.scheduler@.len() > 0)
            &&& enabled ==> (w.contains(("read_ahead_kb"@, io.read_ahead_kb@))
                <==> io.read_ahead_kb@.len() > 0)
            &&& enabled ==> (w.contains(("nomerges"@, io.nomerges@)) <==> io.nomerges@.len() > 0)
            &&& enabled ==> (w.contains(("iostats"@, io.iostats@)) <==> io.iostats@.len() > 0)
            &&& forall|i: int|
                0 <= i < w.len() ==> {
                    ||| #[trigger] w[i] == ("scheduler"@, io.scheduler@)
                    ||| w[i] == ("read_ahead_kb"@, io.read_ahead_kb@)
                    ||| w[i] == ("nomerges"@, io.nomerges@)
                    ||| w[i] == ("iostats"@, io.iostats@)
                }
        }),
{
    reveal_strlit("scheduler");
    reveal_strlit("read_ahead_kb");
    reveal_strlit("nomerges");
    reveal_strlit("iostats");
    let w = io_queue_writes_spec(enabled, io);
    if enabled {
        let a = if io.scheduler@.len() > 0 {
            seq![("scheduler"@, io.scheduler@)]
        } else {
            seq![]
        };
        let b = if io.read_ahead_kb@.len() > 0 {
            seq![("read_ahead_kb"@, io.read_ahead_kb@)]
        } else {
            seq![]
        };
        let c = if io.nomerges@.len() > 0 {
            seq![("nomerges"@, io.nomerges@)]
        } else {
            seq![]
        };
        let d = if io.iostats@.len() > 0 {
            seq![("iostats"@, io.iostats@)]
        } else {
            seq![]
        };
        assert(w == a + b + c + d);
        let ab = a + b;
        let abc = ab + c;
        assert forall|x: (Seq<char>, Seq<char>)| #[trigger] w.contains(x) <==> (a.contains(x)
            || b.contains(x) || c.contains(x) || d.contains(x)) by {
            if w.contains(x) {
                let i = choose|i: int| 0 <= i < w.len() && w[i] == x;
                if i < a.len() {
                    assert(w[i] == a[i]);
                } else if i < ab.len() {
                    assert(w[i] == b[i - a.len()]);
                } else if i < abc.len() {
                    assert(w[i] == c[i - ab.len()]);
                } else {
                    assert(w[i] == d[i - abc.len()]);
                }
            }
            if a.contains(x) {
                assert(w[0] == x);
            }
            if b.contains(x) {
                assert(w[a.len() as int] == x);
            }
            if c.contains(x) {
                assert(w[ab.len() as int] == x);
            }
            if d.contains(x) {
                assert(w[abc.len() as int] == x);
            }
        }
        assert("scheduler"@ != "read_ahead_kb"@ && "scheduler"@ != "nomerges"@
            && "scheduler"@ != "iostats"@ && "read_ahead_kb"@ != "nomerges"@
            && "read_ahead_kb"@ != "iostats"@ && "nomerges"@ != "iostats"@) by {
            assert("scheduler"@[0] != "read_ahead_kb"@[0]);
            assert("scheduler"@[0] != "nomerges"@[0]);
            assert("scheduler"@[0] != "iostats"@[0]);
            assert("read_ahead_kb"@[0] != "nomerges"@[0]);
            assert("read_ahead_kb"@[0] != "iostats"@[0]);
            assert("nomerges"@[0] != "iostats"@[0]);
        }
        let t_a = ("scheduler"@, io.scheduler@);
        if a.len() > 0 {
            assert(a[0] == t_a);
        }
        assert(a.contains(t_a) <==> io.scheduler@.len() > 0);
        let t_b = ("read_ahead_kb"@, io.read_ahead_kb@);
        if b.len() > 0 {
            assert(b[0] == t_b);
        }
        assert(b.contains(t_b) <==> io.read_ahead_kb@.len() > 0);
        let t_c = ("nomerges"@, io.nomerges@);
        if c.len() > 0 {
            assert(c[0] == t_c);
        }
        assert(c.contains(t_c) <==> io.nomerges@.len() > 0);
        let t_d = ("iostats"@, io.iostats@);
        if d.len() > 0 {
            assert(d[0] == t_d);
        }
        assert(d.contains(t_d) <==> io.iostats@.len() > 0);
        assert(!b.contains(t_a)) by {
            if b.contains(t_a) {
                let j = choose|j: int| 0 <= j < b.len() && b[j] == t_a;
                assert(b[j].0 == "read_ahead_kb"@);
            }
        }
        assert(!c.contains(t_a)) by {
            if c.contains(t_a) {
                let j = choose|j: int| 0 <= j < c.len() && c[j] == t_a;
                assert(c[j].0 == "nomerges"@);
            }
        }
        assert(!d.contains(t_a)) by {
            if d.contains(t_a) {
                let j = choose|j: int| 0 <= j < d.len() && d[j] == t_a;
                assert(d[j].0 == "iostats"@);
            }
        }
        assert(w.contains(t_a) <==> io.scheduler@.len() > 0);
        assert(!a.contains(t_b)) by {
            if a.contains(t_b) {
                let j = choose|j: int| 0 <= j < a.len() && a[j] == t_b;
                assert(a[j].0 == "scheduler"@);
            }
        }
        assert(!c.contains(t_b)) by {
            if c.contains(t_b) {
                let j = choose|j: int| 0 <= j < c.len() && c[j] == t_b;
                assert(c[j].0 == "nomerges"@);
            }
        }
        assert(!d.contains(t_b)) by {
            if d.contains(t_b) {
                let j = choose|j: int| 0 <= j < d.len() && d[j] == t_b;
                assert(d[j].0 == "iostats"@);
            }
        }
        assert(w.contains(t_b) <==> io.read_ahead_kb@.len() > 0);
        assert(!a.contains(t_c)) by {
            if a.contains(t_c) {
                let j = choose|j: int| 0 <= j < a.len() && a[j] == t_c;
                assert(a[j].0 == "scheduler"@);
            }
        }
        assert(!b.contains(t_c)) by {
            if b.contains(t_c) {
                let j = choose|j: int| 0 <= j < b.len() && b[j] == t_c;
                assert(b[j].0 == "read_ahead_kb"@);
            }
        }
        assert(!d.contains(t_c)) by {
            if d.contains(t_c) {
                let j = choose|j: int| 0 <= j < d.len() && d[j] == t_c;
                assert(d[j].0 == "iostats"@);
            }
        }
        assert(w.contains(t_c) <==> io.nomerges@.len() > 0);
        assert(!a.contains(t_d)) by {
            if a.contains(t_d) {
                let j = choose|j: int| 0 <= j < a.len() && a[j] == t_d;
                assert(a[j].0 == "scheduler"@);
            }
        }
        assert(!b.contains(t_d)) by {
            if b.contains(t_d) {
                let j = choose|j: int| 0 <= j < b.len() && b[j] == t_d;
                assert(b[j].0 == "read_ahead_kb"@);
            }
        }
        assert(!c.contains(t_d)) by {
            if c.contains(t_d) {
                let j = choose|j: int| 0 <= j < c.len() && c[j] == t_d;
                assert(c[j].0 == "nomerges"@);
            }
        }
        assert(w.contains(t_d) <==> io.iostats@.len() > 0);
        assert forall|i: int| 0 <= i < w.len() implies {
            ||| #[trigger] w[i] == ("scheduler"@, io.scheduler@)
            ||| w[i] == ("read_ahead_kb"@, io.read_ahead_kb@)
            ||| w[i] == ("nomerges"@, io.nomerges@)
            ||| w[i] == ("iostats"@, io.iostats@)
        } by {
            if i < a.len() {
                assert(w[i] == a[i]);
            } else if i < ab.len() {
                assert(w[i] == b[i - a.len()]);
            } else if i < abc.len() {
                assert(w[i] == c[i - ab.len()]);
            } else {
                assert(w[i] == d[i - abc.len()]);
            }
        }
    }
}

} // verus!
