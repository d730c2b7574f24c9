//! Version bumps for a release: the edits made to `module.prop`,
//! `Cargo.toml` and `update.json`, and the names of the build outputs.

use vstd::prelude::*;
use crate::paths::{join_path, path_join};
use crate::text::{
    chars_of, decimal, decimal_chars, lemma_decimal_digits, lemma_decimal_roundtrip, parse_u32, parse_unsigned_spec, string_from_chars, trim,
    trim_chars, trim_start, trim_start_chars, parse_usize,
};

verus! {

/// `line` without one trailing carriage return.
pub open spec fn strip_cr(line: Seq<char>) -> Seq<char> {
    if line.len() > 0 && line.last() == '\r' {
        line.drop_last()
    } else {
        line
    }
}

/// Left-to-right state of `str::lines`: the finished lines and the line
/// being read.
pub open spec fn line_state(s: Seq<char>) -> (Seq<Seq<char>>, Seq<char>)
    decreases s.len(),
{
    if s.len() == 0 {
        (Seq::empty(), Seq::empty())
    } else {
        let prev = line_state(s.drop_last());
        if s.last() == '\n' {
            (prev.0.push(strip_cr(prev.1)), Seq::empty())
        } else {
            (prev.0, prev.1.push(s.last()))
        }
    }
}

/// `str::lines`: the text split at each `\n` (a `\r` right before it is
/// dropped too); a final line ending adds no empty line.
pub open spec fn text_lines(s: Seq<char>) -> Seq<Seq<char>> {
    let st = line_state(s);
    if st.1.len() > 0 {
        st.0.push(st.1)
    } else {
        st.0
    }
}

/// `lines.join("\n")`.
pub open spec fn join_lines(lines: Seq<Seq<char>>) -> Seq<char>
    decreases lines.len(),
{
    if lines.len() == 0 {
        Seq::empty()
    } else if lines.len() == 1 {
        lines[0]
    } else {
        join_lines(lines.drop_last()) + seq!['\n'] + lines.last()
    }
}

/// The lines of `s`, as `str::lines` yields them.
pub fn lines_of(s: &[char]) -> (r: Vec<Vec<char>>)
    ensures
        r@.map_values(|l: Vec<char>| l@) == text_lines(s@),
{
    let mut done: Vec<Vec<char>> = Vec::new();
    let mut cur: Vec<char> = Vec::new();
    let mut i: usize = 0;
    while i < s.len()
        invariant
            i <= s@.len(),
            done@.map_values(|l: Vec<char>| l@) == line_state(s@.take(i as int)).0,
            cur@ == line_state(s@.take(i as int)).1,
        decreases s@.len() - i,
    {
        let c = s[i];
        assert(s@.take(i + 1).drop_last() == s@.take(i as int));
        if c == '\n' {
            let mut line = cur;
            let n = line.len();
            if n > 0 && line[n - 1] == '\r' {
                line.pop();
            }
            done.push(line);
            cur = Vec::new();
        } else {
            cur.push(c);
        }
        i += 1;
    }
    assert(s@.take(s@.len() as int) == s@);
    if cur.len() > 0 {
        done.push(cur);
    }
    done
}

/// Whether `s` begins with `p` (`str::starts_with`).
pub open spec fn starts_with(s: Seq<char>, p: Seq<char>) -> bool {
    p.len() <= s.len() && s.take(p.len() as int) == p
}

/// `str::find` from position `i` on: the first position at or after `i`
/// where `p` occurs in `s`.
pub open spec fn find_from(s: Seq<char>, p: Seq<char>, i: int) -> Option<int>
    decreases s.len() - i,
{
    if i < 0 || i + p.len() > s.len() {
        None
    } else if p.len() == 0 || s.subrange(i, i + p.len()) == p {
        Some(i)
    } else {
        find_from(s, p, i + 1)
    }
}

/// `str::trim_end_matches(',')`: `s` without its trailing commas.
pub open spec fn trim_end_commas(s: Seq<char>) -> Seq<char>
    decreases s.len(),
{
    if s.len() > 0 && s.last() == ',' {
        trim_end_commas(s.drop_last())
    } else {
        s
    }
}

/// `str::trim_start_matches(p)`: `s` without any number of leading copies
/// of `p`.
pub open spec fn strip_repeated(s: Seq<char>, p: Seq<char>) -> Seq<char>
    decreases s.len(),
{
    if p.len() > 0 && starts_with(s, p) {
        strip_repeated(s.skip(p.len() as int), p)
    } else {
        s
    }
}

/// Whether `p` occurs in `s` at position `i`.
fn occurs_at(s: &[char], p: &[char], i: usize) -> (r: bool)
    requires
        i + p@.len() <= s@.len(),
    ensures
        r == (s@.subrange(i as int, i + p@.len()) == p@),
{
    let n = s.len();
    let mut j: usize = 0;
    while j < p.len()
        invariant
            j <= p@.len(),
            n == s@.len(),
            i + p@.len() <= s@.len(),
            forall|k: int| 0 <= k < j ==> s@[i + k] == p@[k],
        decreases p@.len() - j,
    {
        assert(i + j < s@.len());
        if s[i + j] != p[j] {
            assert(s@.subrange(i as int, i + p@.len())[j as int] != p@[j as int]);
            return false;
        }
        j += 1;
    }
    assert(s@.subrange(i as int, i + p@.len()) =~= p@);
    true
}

/// Decides `starts_with`.
pub fn has_prefix(s: &[char], p: &[char]) -> (r: bool)
    ensures
        r == starts_with(s@, p@),
{
    if p.len() > s.len() {
        false
    } else {
        assert(s@.take(p@.len() as int) == s@.subrange(0, p@.len() as int));
        occurs_at(s, p, 0)
    }
}

/// Computes `find_from`.
pub fn find_chars(s: &[char], p: &[char], from: usize) -> (r: Option<usize>)
    ensures
        match r {
            Some(i) => find_from(s@, p@, from as int) == Some(i as int),
            None => find_from(s@, p@, from as int) is None,
        },
{
    let mut i: usize = from;
    if p.len() == 0 {
        if i <= s.len() {
            return Some(i);
        } else {
            return None;
        }
    }
    while i <= s.len() && p.len() <= s.len() - i
        invariant
            from <= i,
            p@.len() > 0,
            find_from(s@, p@, from as int) == find_from(s@, p@, i as int),
        decreases s@.len() - i,
    {
        if occurs_at(s, p, i) {
            return Some(i);
        }
        i += 1;
    }
    None
}

/// Computes `trim_end_commas`.
pub fn trim_end_commas_chars(s: &[char]) -> (r: Vec<char>)
    ensures
        r@ == trim_end_commas(s@),
{
    let mut n: usize = s.len();
    assert(s@.take(n as int) == s@);
    while n > 0 && s[n - 1] == ','
        invariant
            n <= s@.len(),
            trim_end_commas(s@) == trim_end_commas(s@.take(n as int)),
        decreases n,
    {
        assert(s@.take(n as int).drop_last() == s@.take(n - 1));
        n -= 1;
    }
    let mut r: Vec<char> = Vec::new();
    let mut i: usize = 0;
    while i < n
        invariant
            i <= n <= s@.len(),
            r@ == s@.take(i as int),
        decreases n - i,
    {
        r.push(s[i]);
        assert(s@.take(i + 1) == s@.take(i as int).push(s@[i as int]));
        i += 1;
    }
    r
}

/// Computes `strip_repeated`.
pub fn strip_repeated_chars(s: &[char], p: &[char]) -> (r: Vec<char>)
    ensures
        r@ == strip_repeated(s@, p@),
{
    let mut pos: usize = 0;
    assert(s@.skip(0) == s@);
    if p.len() > 0 {
        while pos <= s.len() && p.len() <= s.len() - pos && occurs_at(s, p, pos)
            invariant
                pos <= s@.len(),
                p@.len() > 0,
                strip_repeated(s@, p@) == strip_repeated(s@.skip(pos as int), p@),
            decreases s@.len() - pos,
        {
            let ghost t = s@.skip(pos as int);
            assert(t.take(p@.len() as int) == s@.subrange(pos as int, pos + p@.len()));
            assert(t.skip(p@.len() as int) == s@.skip(pos + p@.len()));
            pos += p.len();
        }
        proof {
            let t = s@.skip(pos as int);
            if p@.len() <= t.len() {
                assert(t.take(p@.len() as int) == s@.subrange(pos as int, pos + p@.len()));
            }
        }
    }
    let mut r: Vec<char> = Vec::new();
    let mut i: usize = pos;
    while i < s.len()
        invariant
            pos <= i <= s@.len(),
            r@ == s@.subrange(pos as int, i as int),
        decreases s@.len() - i,
    {
        r.push(s[i]);
        assert(s@.subrange(pos as int, i + 1) == s@.subrange(pos as int, i as int).push(s@[i as int]));
        i += 1;
    }
    assert(r@ =~= s@.skip(pos as int));
    r
}

/// Appends `s` to `out`.
fn extend_chars(out: &mut Vec<char>, s: &[char])
    ensures
        final(out)@ == old(out)@ + s@,
{
    let mut i: usize = 0;
    while i < s.len()
        invariant
            i <= s@.len(),
            out@ == old(out)@ + s@.take(i as int),
        decreases s@.len() - i,
    {
        out.push(s[i]);
        assert(s@.take(i + 1) == s@.take(i as int).push(s@[i as int]));
        i += 1;
    }
    assert(s@.take(s@.len() as int) == s@);
}

/// The three files a release edits.
#[derive(Debug, Clone, Copy, PartialEq, Eq)]
pub enum ReleaseFile {
    /// `module/module.prop`.
    ModuleProp,
    /// `Cargo.toml`.
    CargoManifest,
    /// `updateInformation/update.json`.
    UpdateJson,
}

/// A `module.prop` line after the bump: `version=` and `versionCode=` lines
/// take the new values, other lines stay.
pub open spec fn prop_line(line: Seq<char>, ver: Seq<char>, code: nat) -> Seq<char> {
    if starts_with(line, "version="@) {
        "version=v"@ + ver
    } else if starts_with(line, "versionCode="@) {
        "versionCode="@ + decimal(code)
    } else {
        line
    }
}

/// A `Cargo.toml` line after the bump: every line that starts, after its
/// indentation, with `version = ` takes the new version.
pub open spec fn cargo_line(line: Seq<char>, ver: Seq<char>) -> Seq<char> {
    if starts_with(trim_start(line), "version = "@) {
        "version = \""@ + ver + "\""@
    } else {
        line
    }
}

/// What follows the release directory in a `zipUrl` line: from the first
/// `/` after the first `yumi-v` (or after the line's start when there is
/// none) to the end of the line; empty when there is no such `/`.
pub open spec fn zip_url_rest(line: Seq<char>) -> Seq<char> {
    let start = match find_from(line, "yumi-v"@, 0) {
        Some(i) => i,
        None => 0,
    };
    let end = match find_from(line.skip(start), seq!['/'], 0) {
        Some(j) => j,
        None => line.len() - start,
    };
    if start + end < line.len() {
        line.skip(start + end)
    } else {
        Seq::empty()
    }
}

/// An `update.json` line after the bump, chosen by the key it starts with
/// once trimmed: `version`, `versionCode`, `zipUrl` and `changelog` are
/// rewritten, other lines stay.
pub open spec fn json_line(line: Seq<char>, ver: Seq<char>, code: nat) -> Seq<char> {
    let t = trim(line);
    if starts_with(t, "\"version\""@) {
        "  \"version\": \"v"@ + ver + "\","@
    } else if starts_with(t, "\"versionCode\""@) {
        "  \"versionCode\": "@ + decimal(code) + ","@
    } else if starts_with(t, "\"zipUrl\""@) {
        "  \"zipUrl\": \"https://github.com/imacte/yumi/releases/download/yumi-v"@ + ver
            + "/yumi-v"@ + ver + ".zip"@ + trim_end_commas(zip_url_rest(line)) + ","@
    } else if starts_with(t, "\"changelog\""@) {
        "  \"changelog\": \"https://raw.githubusercontent.com/imacte/yumi/main/updateInformation/changelog.md\""@
    } else {
        line
    }
}

/// One line of `file` after the bump to version `ver` and code `code`.
pub open spec fn rewrite_line_spec(file: ReleaseFile, line: Seq<char>, ver: Seq<char>, code: nat) -> Seq<
    char,
> {
    match file {
        ReleaseFile::ModuleProp => prop_line(line, ver, code),
        ReleaseFile::CargoManifest => cargo_line(line, ver),
        ReleaseFile::UpdateJson => json_line(line, ver, code),
    }
}

/// The whole of `file` after the bump: each line rewritten, joined with
/// `\n` (so a final line ending is dropped).
pub open spec fn rewritten(file: ReleaseFile, text: Seq<char>, ver: Seq<char>, code: nat) -> Seq<
    char,
> {
    join_lines(text_lines(text).map_values(|l: Seq<char>| rewrite_line_spec(file, l, ver, code)))
}

/// Computes `zip_url_rest`.
fn zip_url_rest_chars(line: &[char]) -> (r: Vec<char>)
    ensures
        r@ == zip_url_rest(line@),
{
    let marker = chars_of("yumi-v");
    let start: usize = match find_chars(line, marker.as_slice(), 0) {
        Some(i) => i,
        None => 0,
    };
    proof {
        if find_from(line@, "yumi-v"@, 0) is Some {
            lemma_find_from_bounds(line@, "yumi-v"@, 0);
        }
    }
    let slash = vec!['/'];
    let mut tail: Vec<char> = Vec::new();
    let mut i: usize = start;
    while i < line.len()
        invariant
            start <= i <= line@.len(),
            tail@ == line@.subrange(start as int, i as int),
        decreases line@.len() - i,
    {
        tail.push(line[i]);
        assert(line@.subrange(start as int, i + 1) == line@.subrange(start as int, i as int).push(
            line@[i as int],
        ));
        i += 1;
    }
    assert(tail@ == line@.skip(start as int));
    assert(slash@ == seq!['/']);
    let end: usize = match find_chars(tail.as_slice(), slash.as_slice(), 0) {
        Some(j) => j,
        None => line.len() - start,
    };
    proof {
        if find_from(tail@, seq!['/'], 0) is Some {
            lemma_find_from_bounds(tail@, seq!['/'], 0);
        }
    }
    let mut r: Vec<char> = Vec::new();
    if start + end < line.len() {
        let mut k: usize = start + end;
        while k < line.len()
            invariant
                start + end <= k <= line@.len(),
                r@ == line@.subrange(start + end, k as int),
            decreases line@.len() - k,
        {
            r.push(line[k]);
            assert(line@.subrange(start + end, k + 1) == line@.subrange(start + end, k as int).push(
                line@[k as int],
            ));
            k += 1;
        }
        assert(r@ == line@.skip(start + end));
    }
    r
}

/// A position that `find_from` gives lies where the pattern fits.
pub proof fn lemma_find_from_bounds(s: Seq<char>, p: Seq<char>, i: int)
    requires
        find_from(s, p, i) is Some,
    ensures
        i <= find_from(s, p, i)->0,
        find_from(s, p, i)->0 + p.len() <= s.len(),
    decreases s.len() - i,
{
    if !(i < 0 || i + p.len() > s.len()) && !(p.len() == 0 || s.subrange(i, i + p.len()) == p) {
        lemma_find_from_bounds(s, p, i + 1);
    }
}

/// Computes `rewrite_line_spec`.
pub fn rewrite_line(file: ReleaseFile, line: &[char], ver: &[char], code: u32) -> (r: Vec<char>)
    ensures
        r@ == rewrite_line_spec(file, line@, ver@, code as nat),
{
    let mut out: Vec<char> = Vec::new();
    match file {
        ReleaseFile::ModuleProp => {
            if has_prefix(line, chars_of("version=").as_slice()) {
                out = chars_of("version=v");
                extend_chars(&mut out, ver);
            } else if has_prefix(line, chars_of("versionCode=").as_slice()) {
                out = chars_of("versionCode=");
                extend_chars(&mut out, decimal_chars(code as u64).as_slice());
            } else {
                extend_chars(&mut out, line);
            }
        },
        ReleaseFile::CargoManifest => {
            let t = trim_start_chars(line);
            if has_prefix(t.as_slice(), chars_of("version = ").as_slice()) {
                out = chars_of("version = \"");
                extend_chars(&mut out, ver);
                extend_chars(&mut out, chars_of("\"").as_slice());
            } else {
                extend_chars(&mut out, line);
            }
        },
        ReleaseFile::UpdateJson => {
            let t = trim_chars(line);
            if has_prefix(t.as_slice(), chars_of("\"version\"").as_slice()) {
                out = chars_of("  \"version\": \"v");
                extend_chars(&mut out, ver);
                extend_chars(&mut out, chars_of("\",").as_slice());
            } else if has_prefix(t.as_slice(), chars_of("\"versionCode\"").as_slice()) {
                out = chars_of("  \"versionCode\": ");
                extend_chars(&mut out, decimal_chars(code as u64).as_slice());
                extend_chars(&mut out, chars_of(",").as_slice());
            } else if has_prefix(t.as_slice(), chars_of("\"zipUrl\"").as_slice()) {
                out = chars_of(
                    "  \"zipUrl\": \"https://github.com/imacte/yumi/releases/download/yumi-v",
                );
                extend_chars(&mut out, ver);
                extend_chars(&mut out, chars_of("/yumi-v").as_slice());
                extend_chars(&mut out, ver);
                extend_chars(&mut out, chars_of(".zip").as_slice());
                let rest = zip_url_rest_chars(line);
                extend_chars(&mut out, trim_end_commas_chars(rest.as_slice()).as_slice());
                extend_chars(&mut out, chars_of(",").as_slice());
            } else if has_prefix(t.as_slice(), chars_of("\"changelog\"").as_slice()) {
                out = chars_of(
                    "  \"changelog\": \"https://raw.githubusercontent.com/imacte/yumi/main/updateInformation/changelog.md\"",
                );
            } else {
                extend_chars(&mut out, line);
            }
        },
    }
    out
}

/// Joining one more line onto the joined lines before it.
pub proof fn lemma_join_lines_push(lines: Seq<Seq<char>>, i: int)
    requires
        0 <= i < lines.len(),
    ensures
        join_lines(lines.take(i + 1)) == if i == 0 {
            lines[0]
        } else {
            join_lines(lines.take(i)) + seq!['\n'] + lines[i]
        },
{
    let t = lines.take(i + 1);
    assert(t.drop_last() == lines.take(i));
    assert(t.last() == lines[i]);
    if i == 0 {
        assert(t.len() == 1);
    }
}

/// Computes `rewritten`.
pub fn rewrite_text(file: ReleaseFile, text: &str, ver: &[char], code: u32) -> (r: String)
    ensures
        r@ == rewritten(file, text@, ver@, code as nat),
{
    let chars = chars_of(text);
    let lines = lines_of(chars.as_slice());
    let ghost mapped = text_lines(text@).map_values(
        |l: Seq<char>| rewrite_line_spec(file, l, ver@, code as nat),
    );
    let mut out: Vec<char> = Vec::new();
    let mut i: usize = 0;
    while i < lines.len()
        invariant
            i <= lines@.len(),
            lines@.map_values(|l: Vec<char>| l@) == text_lines(text@),
            mapped == text_lines(text@).map_values(
                |l: Seq<char>| rewrite_line_spec(file, l, ver@, code as nat),
            ),
            out@ == join_lines(mapped.take(i as int)),
        decreases lines@.len() - i,
    {
        assert(lines@.map_values(|l: Vec<char>| l@)[i as int] == lines@[i as int]@);
        let new_line = rewrite_line(file, lines[i].as_slice(), ver, code);
        proof {
            lemma_join_lines_push(mapped, i as int);
        }
        if i > 0 {
            out.push('\n');
        }
        extend_chars(&mut out, new_line.as_slice());
        i += 1;
    }
    assert(mapped.take(lines@.len() as int) == mapped);
    string_from_chars(out.as_slice())
}

/// `version` without one leading `v`, as the release writes it.
pub open spec fn release_version(version: Seq<char>) -> Seq<char> {
    if version.len() > 0 && version[0] == 'v' {
        version.drop_first()
    } else {
        version
    }
}

/// The first line that starts with `versionCode=`.
pub open spec fn first_code_line(lines: Seq<Seq<char>>) -> Option<Seq<char>>
    decreases lines.len(),
{
    if lines.len() == 0 {
        None
    } else if starts_with(lines[0], "versionCode="@) {
        Some(lines[0])
    } else {
        first_code_line(lines.drop_first())
    }
}

/// The `versionCode` that `module.prop` holds: the number after the prefix
/// on its first `versionCode=` line, 0 when there is none or it is not a
/// `u32`.
pub open spec fn current_version_code(prop: Seq<char>) -> nat {
    match first_code_line(text_lines(prop)) {
        Some(line) => match parse_unsigned_spec(
            strip_repeated(line, "versionCode="@),
            u32::MAX as nat,
        ) {
            Some(v) => v,
            None => 0,
        },
        None => 0,
    }
}

/// The code a release gets: the one asked for, or the current one plus one.
pub open spec fn new_version_code(prop: Seq<char>, code: Option<u32>) -> nat {
    match code {
        Some(c) => c as nat,
        None => current_version_code(prop) + 1,
    }
}

/// Computes `release_version`.
pub fn strip_version_prefix(version: &str) -> (r: Vec<char>)
    ensures
        r@ == release_version(version@),
{
    let v = chars_of(version);
    if v.len() > 0 && v[0] == 'v' {
        let mut r: Vec<char> = Vec::new();
        let mut i: usize = 1;
        while i < v.len()
            invariant
                1 <= i <= v@.len(),
                r@ == v@.subrange(1, i as int),
            decreases v@.len() - i,
        {
            r.push(v[i]);
            assert(v@.subrange(1, i + 1) == v@.subrange(1, i as int).push(v@[i as int]));
            i += 1;
        }
        assert(r@ =~= v@.drop_first());
        r
    } else {
        v
    }
}

/// Computes `current_version_code`.
pub fn read_version_code(prop: &str) -> (r: u32)
    ensures
        r == current_version_code(prop@),
{
    let chars = chars_of(prop);
    let lines = lines_of(chars.as_slice());
    let ghost ls = text_lines(prop@);
    let prefix = chars_of("versionCode=");
    let mut i: usize = 0;
    assert(ls.skip(0) == ls);
    while i < lines.len()
        invariant
            i <= lines@.len(),
            lines@.map_values(|l: Vec<char>| l@) == ls,
            ls == text_lines(prop@),
            prefix@ == "versionCode="@,
            first_code_line(ls) == first_code_line(ls.skip(i as int)),
        decreases lines@.len() - i,
    {
        let ghost rest = ls.skip(i as int);
        assert(rest[0] == lines@[i as int]@);
        assert(rest.drop_first() == ls.skip(i + 1));
        if has_prefix(lines[i].as_slice(), prefix.as_slice()) {
            let digits = strip_repeated_chars(lines[i].as_slice(), prefix.as_slice());
            return match parse_u32(digits.as_slice()) {
                Some(v) => v,
                None => 0,
            };
        }
        i += 1;
    }
    assert(ls.skip(i as int).len() == 0);
    0
}

/// Computes `new_version_code`. The current code must leave room for one
/// more when no code is given.
pub fn next_version_code(prop: &str, code: Option<u32>) -> (r: u32)
    requires
        code is Some || current_version_code(prop@) < u32::MAX,
    ensures
        r == new_version_code(prop@, code),
{
    match code {
        Some(c) => c,
        None => read_version_code(prop) + 1,
    }
}

/// The edited files of a release, and the version and code written.
pub struct ReleaseEdit {
    /// The version without its leading `v`.
    pub version: String,
    /// The new `versionCode`.
    pub version_code: u32,
    /// The new `module.prop`.
    pub module_prop: String,
    /// The new `Cargo.toml`.
    pub cargo_manifest: String,
    /// The new `update.json`, when there is one.
    pub update_json: Option<String>,
}

/// The edits of a release to `version`: the code is `code`, or one more than
/// the one in `module.prop`; `module.prop`, `Cargo.toml` and, when present,
/// `update.json` get the new version and code.
pub fn release(
    version: &str,
    code: Option<u32>,
    module_prop: &str,
    cargo_manifest: &str,
    update_json: Option<&str>,
) -> (r: ReleaseEdit)
    requires
        code is Some || current_version_code(module_prop@) < u32::MAX,
    ensures
        r.version@ == release_version(version@),
        r.version_code == new_version_code(module_prop@, code),
        r.module_prop@ == rewritten(
            ReleaseFile::ModuleProp,
            module_prop@,
            release_version(version@),
            r.version_code as nat,
        ),
        r.cargo_manifest@ == rewritten(
            ReleaseFile::CargoManifest,
            cargo_manifest@,
            release_version(version@),
            r.version_code as nat,
        ),
        match update_json {
            Some(json) => r.update_json matches Some(j) && j@ == rewritten(
                ReleaseFile::UpdateJson,
                json@,
                release_version(version@),
                r.version_code as nat,
            ),
            None => r.update_json is None,
        },
{
    let ver = strip_version_prefix(version);
    let new_code = next_version_code(module_prop, code);
    let prop = rewrite_text(ReleaseFile::ModuleProp, module_prop, ver.as_slice(), new_code);
    let cargo = rewrite_text(ReleaseFile::CargoManifest, cargo_manifest, ver.as_slice(), new_code);
    let json = match update_json {
        Some(j) => Some(rewrite_text(ReleaseFile::UpdateJson, j, ver.as_slice(), new_code)),
        None => None,
    };
    ReleaseEdit {
        version: string_from_chars(ver.as_slice()),
        version_code: new_code,
        module_prop: prop,
        cargo_manifest: cargo,
        update_json: json,
    }
}

/// The directory where a build assembles the module before zipping it.
pub fn temp_dir() -> (r: String)
    ensures
        r@ == path_join("output"@, ".temp"@),
{
    proof {
        reveal_strlit(".temp");
    }
    join_path("output", ".temp")
}

/// Where the cross-compiled daemon binary is found after a build.
pub fn aarch64_bin_path() -> (r: String)
    ensures
        r@ == path_join(
            path_join(path_join("target"@, "aarch64-linux-android"@), "release"@),
            "yumi"@,
        ),
{
    proof {
        reveal_strlit("aarch64-linux-android");
        reveal_strlit("release");
        reveal_strlit("yumi");
    }
    let a = join_path("target", "aarch64-linux-android");
    let b = join_path(a.as_str(), "release");
    join_path(b.as_str(), "yumi")
}

/// The name of the zip a build produces for a version, commit count and
/// date: `yumi-{version}-{count}-{date}.zip`.
pub fn zip_file_name(version: &str, commit_count: usize, date: &str) -> (r: String)
    ensures
        r@ == "yumi-"@ + version@ + "-"@ + decimal(commit_count as nat) + "-"@ + date@ + ".zip"@,
{
    let mut out = chars_of("yumi-");
    extend_chars(&mut out, chars_of(version).as_slice());
    extend_chars(&mut out, chars_of("-").as_slice());
    extend_chars(&mut out, decimal_chars(commit_count as u64).as_slice());
    extend_chars(&mut out, chars_of("-").as_slice());
    extend_chars(&mut out, chars_of(date).as_slice());
    extend_chars(&mut out, chars_of(".zip").as_slice());
    string_from_chars(out.as_slice())
}

/// The commit count that `git rev-list --count` printed.
pub fn parse_commit_count(output: &str) -> (r: Option<usize>)
    ensures
        match r {
            Some(v) => parse_unsigned_spec(trim(output@), usize::MAX as nat) == Some(v as nat),
            None => parse_unsigned_spec(trim(output@), usize::MAX as nat) is None,
        },
{
    let t = trim_chars(chars_of(output).as_slice());
    parse_usize(t.as_slice())
}

/// Whether no character of `s` is a line feed.
pub open spec fn no_newline(s: Seq<char>) -> bool {
    forall|i: int| 0 <= i < s.len() ==> s[i] != '\n'
}

/// Reading on past a piece without line feeds only extends the open line.
proof fn lemma_line_state_extend(s: Seq<char>, t: Seq<char>)
    requires
        no_newline(t),
    ensures
        line_state(s + t) == (line_state(s).0, line_state(s).1 + t),
    decreases t.len(),
{
    if t.len() == 0 {
        assert(s + t == s);
        assert(line_state(s).1 + t == line_state(s).1);
    } else {
        let t1 = t.drop_last();
        assert(no_newline(t1)) by {
            assert forall|i: int| 0 <= i < t1.len() implies t1[i] != '\n' by {
                assert(t1[i] == t[i]);
            }
        }
        lemma_line_state_extend(s, t1);
        assert((s + t).drop_last() == s + t1);
        assert((s + t).last() == t.last());
        assert(t[t.len() - 1] != '\n');
        assert(line_state(s).1 + t1 + seq![t.last()] == line_state(s).1 + t);
    }
}

/// The lines read back from joined lines: every line but the last loses a
/// trailing carriage return; the last stays as it is.
proof fn lemma_line_state_join(ls: Seq<Seq<char>>)
    requires
        ls.len() >= 1,
        forall|j: int| 0 <= j < ls.len() ==> no_newline(#[trigger] ls[j]),
    ensures
        line_state(join_lines(ls)) == (
            ls.drop_last().map_values(|l: Seq<char>| strip_cr(l)),
            ls.last(),
        ),
    decreases ls.len(),
{
    if ls.len() == 1 {
        lemma_line_state_extend(Seq::empty(), ls[0]);
        assert(Seq::<char>::empty() + ls[0] == ls[0]);
        assert(line_state(Seq::<char>::empty()).0 =~= ls.drop_last().map_values(
            |l: Seq<char>| strip_cr(l),
        ));
    } else {
        let prev = ls.drop_last();
        assert forall|j: int| 0 <= j < prev.len() implies no_newline(#[trigger] prev[j]) by {
            assert(prev[j] == ls[j]);
        }
        lemma_line_state_join(prev);
        let a = join_lines(prev);
        let an = a + seq!['\n'];
        assert(an.drop_last() == a);
        assert(line_state(an) == (
            line_state(a).0.push(strip_cr(line_state(a).1)),
            Seq::<char>::empty(),
        ));
        assert(line_state(a).0.push(strip_cr(line_state(a).1)) =~= ls.drop_last().map_values(
            |l: Seq<char>| strip_cr(l),
        ));
        assert(ls.last() == ls[ls.len() - 1]);
        lemma_line_state_extend(an, ls.last());
        assert(join_lines(ls) == an + ls.last());
        assert(Seq::<char>::empty() + ls.last() == ls.last());
    }
}

/// The lines of any text hold no line feed.
proof fn lemma_text_lines_no_newline(s: Seq<char>)
    ensures
        forall|j: int| 0 <= j < text_lines(s).len() ==> no_newline(#[trigger] text_lines(s)[j]),
        no_newline(line_state(s).1),
        forall|j: int| 0 <= j < line_state(s).0.len() ==> no_newline(
            #[trigger] line_state(s).0[j],
        ),
    decreases s.len(),
{
    if s.len() > 0 {
        lemma_text_lines_no_newline(s.drop_last());
        let prev = line_state(s.drop_last());
        if s.last() == '\n' {
            let l = strip_cr(prev.1);
            assert(no_newline(l)) by {
                assert forall|i: int| 0 <= i < l.len() implies l[i] != '\n' by {
                    assert(l[i] == prev.1[i]);
                }
            }
            assert forall|j: int| 0 <= j < line_state(s).0.len() implies no_newline(
                #[trigger] line_state(s).0[j],
            ) by {
                if j < prev.0.len() {
                    assert(line_state(s).0[j] == prev.0[j]);
                }
            }
        } else {
            let l = prev.1.push(s.last());
            assert(no_newline(l)) by {
                assert forall|i: int| 0 <= i < l.len() implies l[i] != '\n' by {
                    if i < prev.1.len() {
                        assert(l[i] == prev.1[i]);
                    }
                }
            }
        }
    }
    let st = line_state(s);
    assert forall|j: int| 0 <= j < text_lines(s).len() implies no_newline(
        #[trigger] text_lines(s)[j],
    ) by {
        if j < st.0.len() {
            assert(text_lines(s)[j] == st.0[j]);
        }
    }
}

/// Where `first_code_line` finds its line: the first line that starts with
/// `versionCode=`.
proof fn lemma_first_code_line_index(ls: Seq<Seq<char>>)
    requires
        first_code_line(ls) is Some,
    ensures
        exists|k: int|
            0 <= k < ls.len() && ls[k] == first_code_line(ls)->0 && starts_with(
                ls[k],
                "versionCode="@,
            ) && forall|j: int| 0 <= j < k ==> !starts_with(#[trigger] ls[j], "versionCode="@),
    decreases ls.len(),
{
    if !starts_with(ls[0], "versionCode="@) {
        let rest = ls.drop_first();
        lemma_first_code_line_index(rest);
        let k = choose|k: int|
            0 <= k < rest.len() && rest[k] == first_code_line(rest)->0 && starts_with(
                rest[k],
                "versionCode="@,
            ) && forall|j: int| 0 <= j < k ==> !starts_with(#[trigger] rest[j], "versionCode="@);
        assert(ls[k + 1] == rest[k]);
        assert forall|j: int| 0 <= j < k + 1 implies !starts_with(
            #[trigger] ls[j],
            "versionCode="@,
        ) by {
            if j > 0 {
                assert(ls[j] == rest[j - 1]);
            }
        }
    } else {
        assert forall|j: int| 0 <= j < 0 implies !starts_with(#[trigger] ls[j], "versionCode="@) by {}
    }
}

/// A line that comes first with `versionCode=` is what `first_code_line`
/// finds.
proof fn lemma_first_code_line_at(ls: Seq<Seq<char>>, k: int)
    requires
        0 <= k < ls.len(),
        starts_with(ls[k], "versionCode="@),
        forall|j: int| 0 <= j < k ==> !starts_with(#[trigger] ls[j], "versionCode="@),
    ensures
        first_code_line(ls) == Some(ls[k]),
    decreases k,
{
    if k > 0 {
        let rest = ls.drop_first();
        assert(!starts_with(ls[0], "versionCode="@));
        assert forall|j: int| 0 <= j < k - 1 implies !starts_with(
            #[trigger] rest[j],
            "versionCode="@,
        ) by {
            assert(rest[j] == ls[j + 1]);
        }
        assert(rest[k - 1] == ls[k]);
        lemma_first_code_line_at(rest, k - 1);
    }
}

/// A line that does not start with `p` still does not once a trailing
/// carriage return is dropped.
proof fn lemma_strip_cr_keeps_non_prefix(x: Seq<char>, p: Seq<char>)
    requires
        !starts_with(x, p),
    ensures
        !starts_with(strip_cr(x), p),
{
    if x.len() > 0 && x.last() == '\r' && starts_with(strip_cr(x), p) {
        assert(x.take(p.len() as int) =~= x.drop_last().take(p.len() as int));
    }
}

/// A release's `module.prop` declares the code it was given: reading the
/// version code back from the rewritten file gives that code, whenever the
/// file had a `versionCode=` line and the version holds no line feed.
pub proof fn law_release_code_reads_back(prop: Seq<char>, ver: Seq<char>, code: u32)
    requires
        first_code_line(text_lines(prop)) is Some,
        no_newline(ver),
    ensures
        current_version_code(rewritten(ReleaseFile::ModuleProp, prop, ver, code as nat)) == code,
{
    reveal_strlit("versionCode=");
    reveal_strlit("version=");
    reveal_strlit("version=v");
    let pc = "versionCode="@;
    let l = text_lines(prop);
    let m = l.map_values(|x: Seq<char>| rewrite_line_spec(ReleaseFile::ModuleProp, x, ver, code as nat));
    let out = join_lines(m);
    let vline = "version=v"@ + ver;
    let cline = pc + decimal(code as nat);
    lemma_text_lines_no_newline(prop);
    lemma_decimal_digits(code as nat);
    // the version line never reads as a code line
    assert(!starts_with(vline, pc)) by {
        if starts_with(vline, pc) {
            assert(vline.take(12)[8] == pc[8]);
        }
    }
    // every rewritten line is a single line
    assert forall|j: int| 0 <= j < m.len() implies no_newline(#[trigger] m[j]) by {
        let x = l[j];
        assert(m[j] == prop_line(x, ver, code as nat));
        if starts_with(x, "version="@) {
            assert forall|i: int| 0 <= i < vline.len() implies vline[i] != '\n' by {
                if i >= 9 {
                    assert(vline[i] == ver[i - 9]);
                }
            }
        } else if starts_with(x, pc) {
            assert forall|i: int| 0 <= i < cline.len() implies cline[i] != '\n' by {
                if i >= 12 {
                    assert(cline[i] == decimal(code as nat)[i - 12]);
                    assert('0' <= decimal(code as nat)[i - 12] <= '9');
                }
            }
        }
    }
    lemma_first_code_line_index(l);
    let k = choose|k: int|
        0 <= k < l.len() && l[k] == first_code_line(l)->0 && starts_with(l[k], pc) && forall|
            j: int,
        | 0 <= j < k ==> !starts_with(#[trigger] l[j], pc);
    // the code line becomes the new code line
    assert(!starts_with(l[k], "version="@)) by {
        if starts_with(l[k], "version="@) {
            assert(l[k].take(8)[7] == "version="@[7]);
            assert(l[k].take(12)[7] == pc[7]);
        }
    }
    assert(m[k] == cline);
    assert(cline.take(12) =~= pc);
    assert(starts_with(cline, pc));
    // earlier lines do not become code lines
    assert forall|j: int| 0 <= j < k implies !starts_with(#[trigger] m[j], pc) by {
        assert(m[j] == prop_line(l[j], ver, code as nat));
    }
    lemma_line_state_join(m);
    let st = line_state(out);
    let r = text_lines(out);
    let dl = decimal(code as nat);
    assert(cline.last() == dl.last());
    assert('0' <= dl[dl.len() - 1] <= '9');
    assert(strip_cr(cline) == cline);
    assert(k < r.len() && r[k] == cline) by {
        if k < m.len() - 1 {
            assert(st.0[k] == strip_cr(m[k]));
            assert(r[k] == st.0[k]);
        } else {
            assert(m.last() == m[k]);
            assert(cline.len() > 0);
        }
    }
    assert forall|j: int| 0 <= j < k implies !starts_with(#[trigger] r[j], pc) by {
        assert(j < m.len() - 1);
        assert(st.0[j] == strip_cr(m[j]));
        assert(r[j] == st.0[j]);
        lemma_strip_cr_keeps_non_prefix(m[j], pc);
    }
    lemma_first_code_line_at(r, k);
    // the number after the prefix is the code
    assert(cline.skip(12) =~= dl);
    assert(pc.len() == 12);
    assert(!starts_with(dl, pc)) by {
        if starts_with(dl, pc) {
            assert(dl.take(12)[0] == pc[0]);
            assert('0' <= dl[0] <= '9');
        }
    }
    assert(strip_repeated(cline, pc) == strip_repeated(dl, pc));
    assert(strip_repeated(dl, pc) == dl);
    lemma_decimal_roundtrip(code as nat, u32::MAX as nat);
}

} // verus!
