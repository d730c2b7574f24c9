//! Decisions of the foreground-app monitor.
//!
//! Once a second the monitor finds the app in front (the last process of the
//! `top-app` cpuset whose command line names a package), looks up the mode
//! that the rules give it and reports that mode to the scheduler when the app
//! or its mode changed, or when the rules were reloaded. This module holds
//! what those steps decide; reading the cpuset, the command lines and the
//! rules is the caller's.

use vstd::prelude::*;

verus! {

/// The byte that ends a process name in a command line (NUL).
pub const NAME_END: u8 = 0;

/// The byte that separates a package from a process suffix (`:`).
pub const PROCESS_SUFFIX: u8 = 58;

/// `.`, which every package name contains.
pub const PACKAGE_DOT: u8 = 46;

/// `/`, which starts the path of a native program.
pub const PATH_START: u8 = 47;

/// `n` is where the package part of the command line `c` ends: at the first
/// NUL or `:`, or at the end.
pub open spec fn is_package_end(c: Seq<u8>, n: int) -> bool {
    &&& 0 <= n <= c.len()
    &&& forall|j: int| 0 <= j < n ==> #[trigger] c[j] != NAME_END && c[j] != PROCESS_SUFFIX
    &&& (n == c.len() || c[n] == NAME_END || c[n] == PROCESS_SUFFIX)
}

/// A candidate package names an app when it contains a dot and is not a path.
pub open spec fn names_app(p: Seq<u8>) -> bool {
    &&& p.contains(PACKAGE_DOT)
    &&& !(p.len() > 0 && p[0] == PATH_START)
}

/// An optional byte string by its contents.
pub open spec fn opt_bytes(o: Option<Vec<u8>>) -> Option<Seq<u8>> {
    match o {
        Some(v) => Some(v@),
        None => None,
    }
}

/// The package that a process's command line names: the first argument up
/// to any `:suffix` (the process name of an app's secondary process), when it
/// contains a dot and is not a path; `None` for native programs and kernel
/// threads.
pub fn cmdline_package(cmdline: &[u8]) -> (r: Option<Vec<u8>>)
    ensures
        exists|n: int|
            is_package_end(cmdline@, n) && opt_bytes(r) == (if names_app(cmdline@.take(n)) {
                Some(cmdline@.take(n))
            } else {
                None
            }),
{
    let mut p: Vec<u8> = Vec::new();
    let mut dot = false;
    let mut i: usize = 0;
    while i < cmdline.len() && cmdline[i] != NAME_END && cmdline[i] != PROCESS_SUFFIX
        invariant
            i <= cmdline@.len(),
            p@ == cmdline@.take(i as int),
            forall|j: int| 0 <= j < i ==> #[trigger] cmdline@[j] != NAME_END && cmdline@[j]
                != PROCESS_SUFFIX,
            dot == p@.contains(PACKAGE_DOT),
        decreases cmdline@.len() - i,
    {
        let b = cmdline[i];
        proof {
            assert(p@.push(b) == cmdline@.take(i + 1));
            if p@.push(b).contains(PACKAGE_DOT) && b != PACKAGE_DOT {
                let w = choose|w: int| 0 <= w < p@.push(b).len() && p@.push(b)[w] == PACKAGE_DOT;
                assert(p@[w] == PACKAGE_DOT);
            }
            if b == PACKAGE_DOT {
                assert(p@.push(b)[i as int] == PACKAGE_DOT);
            }
            if dot {
                let w = choose|w: int| 0 <= w < p@.len() && p@[w] == PACKAGE_DOT;
                assert(p@.push(b)[w] == PACKAGE_DOT);
            }
        }
        p.push(b);
        if b == PACKAGE_DOT {
            dot = true;
        }
        i += 1;
    }
    assert(is_package_end(cmdline@, i as int));
    if dot && !(p.len() > 0 && p[0] == PATH_START) {
        Some(p)
    } else {
        None
    }
}

/// Whether `package` is one of the apps that the rules leave alone.
pub fn is_ignored(ignored_apps: &Vec<String>, package: &String) -> (r: bool)
    ensures
        r == exists|i: int| 0 <= i < ignored_apps@.len() && #[trigger] ignored_apps@[i]@ == package@,
{
    let mut i: usize = 0;
    while i < ignored_apps.len()
        invariant
            i <= ignored_apps@.len(),
            forall|j: int| 0 <= j < i ==> #[trigger] ignored_apps@[j]@ != package@,
        decreases ignored_apps@.len() - i,
    {
        if ignored_apps[i] == *package {
            return true;
        }
        i += 1;
    }
    false
}

/// The mode that the rules give an app: its own mode when dynamic modes are
/// on and it has one, the global mode otherwise.
pub open spec fn mode_for_spec(
    dynamic_enabled: bool,
    app_mode: Option<Seq<char>>,
    global_mode: Seq<char>,
) -> Seq<char> {
    match app_mode {
        Some(m) => if dynamic_enabled {
            m
        } else {
            global_mode
        },
        None => global_mode,
    }
}

/// An optional borrowed string by its characters.
pub open spec fn opt_text(o: Option<&String>) -> Option<Seq<char>> {
    match o {
        Some(s) => Some(s@),
        None => None,
    }
}

/// The mode that the rules give an app, from the app's own entry in the
/// rules (if any) and the global mode.
pub fn mode_for(dynamic_enabled: bool, app_mode: Option<&String>, global_mode: &String) -> (r:
    String)
    ensures
        r@ == mode_for_spec(dynamic_enabled, opt_text(app_mode), global_mode@),
{
    if dynamic_enabled {
        if let Some(m) = app_mode {
            return m.clone();
        }
    }
    global_mode.clone()
}

/// What the monitor last reported: the app in front and its mode.
pub struct ModeReporter {
    last_package: Option<String>,
    last_mode: Option<String>,
}

/// The reporter by the characters of what it last reported.
pub struct ReporterView {
    pub last_package: Option<Seq<char>>,
    pub last_mode: Option<Seq<char>>,
}

/// An optional owned string by its characters.
pub open spec fn opt_string(o: Option<String>) -> Option<Seq<char>> {
    match o {
        Some(s) => Some(s@),
        None => None,
    }
}

impl View for ModeReporter {
    type V = ReporterView;

    closed spec fn view(&self) -> ReporterView {
        ReporterView {
            last_package: opt_string(self.last_package),
            last_mode: opt_string(self.last_mode),
        }
    }
}

/// One foreground check: report when the app or its mode differs from the
/// last report, or when the rules were reloaded since (`refresh`); a report
/// remembers the app and its mode.
pub open spec fn spec_report(s: ReporterView, package: Seq<char>, mode: Seq<char>, refresh: bool) -> (
    ReporterView,
    bool,
) {
    if refresh || s.last_package != Some(package) || s.last_mode != Some(mode) {
        (ReporterView { last_package: Some(package), last_mode: Some(mode) }, true)
    } else {
        (s, false)
    }
}

impl ModeReporter {
    /// A reporter that has reported nothing yet.
    pub fn new() -> (r: Self)
        ensures
            r@.last_package is None,
            r@.last_mode is None,
    {
        ModeReporter { last_package: None, last_mode: None }
    }

    /// Whether the mode of the app in front is to be reported; see
    /// `spec_report`.
    pub fn report(&mut self, package: &String, mode: &String, refresh: bool) -> (r: bool)
        ensures
            (final(self)@, r) == spec_report(old(self)@, package@, mode@, refresh),
    {
        let same_package = match &self.last_package {
            Some(p) => *p == *package,
            None => false,
        };
        let same_mode = match &self.last_mode {
            Some(m) => *m == *mode,
            None => false,
        };
        if refresh || !same_package || !same_mode {
            self.last_package = Some(package.clone());
            self.last_mode = Some(mode.clone());
            true
        } else {
            false
        }
    }
}

} // verus!

verus! {

/// A report is made once: right after the mode of an app has been reported,
/// the same app with the same mode is not reported again (unless the rules
/// are reloaded), and the reporter stays as it is.
pub proof fn law_report_once(
    s: ReporterView,
    package: Seq<char>,
    mode: Seq<char>,
    refresh: bool,
)
    ensures
        ({
            let (s1, r1) = spec_report(s, package, mode, refresh);
            let (s2, r2) = spec_report(s1, package, mode, false);
            &&& !r2
            &&& s2 == s1
        }),
{
}

/// A change of app or of mode is always reported.
pub proof fn law_change_is_reported(
    s: ReporterView,
    package: Seq<char>,
    mode: Seq<char>,
    refresh: bool,
)
    requires
        s.last_package != Some(package) || s.last_mode != Some(mode),
    ensures
        spec_report(s, package, mode, refresh).1,
{
}

} // verus!
