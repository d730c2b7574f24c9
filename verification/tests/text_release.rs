use yumi::paths::{
    contains_chars, ftl_path, get_rules_path, is_cpu_thermal_zone, join_path, thermal_zone_node,
};
use yumi::release::{
    aarch64_bin_path, find_chars, has_prefix, lines_of, next_version_code, parse_commit_count,
    read_version_code, release, rewrite_line, rewrite_text, strip_repeated_chars,
    strip_version_prefix, temp_dir, trim_end_commas_chars, zip_file_name, ReleaseFile,
};
use yumi::text::{
    chars_of, decimal_chars, i32_decimal_chars, parse_i32, parse_u32, parse_usize, split_ws,
    string_from_chars, trim_chars, trim_start_chars,
};

fn cs(s: &str) -> Vec<char> {
    s.chars().collect()
}

fn st(v: &[char]) -> String {
    v.iter().collect()
}

#[test]
fn chars_and_back() {
    let v = chars_of("héllo");
    assert_eq!(v, cs("héllo"));
    assert_eq!(string_from_chars(&v), "héllo");
    assert_eq!(string_from_chars(&[]), "");
}

#[test]
fn trimming_follows_str_trim() {
    assert_eq!(st(&trim_chars(&cs("  12 \n"))), "12");
    assert_eq!(st(&trim_chars(&cs("\t\u{3000}"))), "");
    assert_eq!(st(&trim_start_chars(&cs("  version = 1 "))), "version = 1 ");
}

#[test]
fn split_whitespace_tokens() {
    let toks = split_ws(&cs("  300000 576000\t1017600\n"));
    let toks: Vec<String> = toks.iter().map(|t| st(t)).collect();
    assert_eq!(toks, vec!["300000", "576000", "1017600"]);
    assert!(split_ws(&cs("   ")).is_empty());
}

#[test]
fn integer_parsing_matches_from_str() {
    assert_eq!(parse_u32(&cs("4294967295")), Some(u32::MAX));
    assert_eq!(parse_u32(&cs("4294967296")), None);
    assert_eq!(parse_u32(&cs("+7")), Some(7));
    assert_eq!(parse_u32(&cs("")), None);
    assert_eq!(parse_u32(&cs("+")), None);
    assert_eq!(parse_u32(&cs("1a")), None);
    assert_eq!(parse_usize(&cs("42")), Some(42));
    assert_eq!(parse_i32(&cs("-2147483648")), Some(i32::MIN));
    assert_eq!(parse_i32(&cs("2147483648")), None);
    assert_eq!(parse_i32(&cs("-")), None);
    assert_eq!(parse_i32(&cs("-0")), Some(0));
}

#[test]
fn decimal_formatting() {
    assert_eq!(st(&decimal_chars(0)), "0");
    assert_eq!(st(&decimal_chars(1017600)), "1017600");
    assert_eq!(st(&decimal_chars(u64::MAX)), "18446744073709551615");
    assert_eq!(st(&i32_decimal_chars(-12)), "-12");
    assert_eq!(st(&i32_decimal_chars(i32::MIN)), "-2147483648");
    assert_eq!(st(&i32_decimal_chars(7)), "7");
}

#[test]
fn lines_follow_str_lines() {
    let ls = |s: &str| -> Vec<String> { lines_of(&cs(s)).iter().map(|l| st(l)).collect() };
    assert_eq!(ls("a\nb\n"), vec!["a", "b"]);
    assert_eq!(ls("a\r\nb"), vec!["a", "b"]);
    assert_eq!(ls("a\r"), vec!["a\r"]);
    assert_eq!(ls("\n\n"), vec!["", ""]);
    assert!(ls("").is_empty());
    for s in ["x\ny\r\n\nz", "only", "\r\n", "a\r\r\n"] {
        assert_eq!(ls(s), s.lines().map(|l| l.to_string()).collect::<Vec<_>>());
    }
}

#[test]
fn prefix_and_search() {
    assert!(has_prefix(&cs("versionCode=5"), &cs("versionCode=")));
    assert!(!has_prefix(&cs("version"), &cs("version=")));
    assert_eq!(find_chars(&cs("a/b/c"), &cs("/"), 0), Some(1));
    assert_eq!(find_chars(&cs("a/b/c"), &cs("/"), 2), Some(3));
    assert_eq!(find_chars(&cs("abc"), &cs("x"), 0), None);
    assert_eq!(st(&trim_end_commas_chars(&cs("\"x\",,"))), "\"x\"");
    assert_eq!(st(&strip_repeated_chars(&cs("ab=ab=7"), &cs("ab="))), "7");
    assert_eq!(st(&strip_repeated_chars(&cs("7"), &cs(""))), "7");
}

#[test]
fn version_prefix_is_dropped_once() {
    assert_eq!(st(&strip_version_prefix("v1.0.7")), "1.0.7");
    assert_eq!(st(&strip_version_prefix("vv2")), "v2");
    assert_eq!(st(&strip_version_prefix("1.0.7")), "1.0.7");
}

#[test]
fn version_code_read_and_bumped() {
    let prop = "id=yumi\nversion=v1.0.6\nversionCode=106\nversionCode=900\n";
    assert_eq!(read_version_code(prop), 106);
    assert_eq!(next_version_code(prop, None), 107);
    assert_eq!(next_version_code(prop, Some(300)), 300);
    assert_eq!(read_version_code("versionCode=versionCode=12"), 12);
    assert_eq!(read_version_code("versionCode=abc\nversionCode=3"), 0);
    assert_eq!(next_version_code("name=x", None), 1);
}

#[test]
fn module_prop_rewrite() {
    let prop = "id=yumi\nversion=v1.0.6\nversionCode=106\nauthor=yuki\n";
    let out = rewrite_text(ReleaseFile::ModuleProp, prop, &cs("1.0.7"), 107);
    assert_eq!(out, "id=yumi\nversion=v1.0.7\nversionCode=107\nauthor=yuki");
}

#[test]
fn cargo_manifest_rewrite_touches_every_version_line() {
    let cargo = "[package]\nname = \"yumi\"\nversion = \"1.0.6\"\n  version = \"0.1\"\nedition = \"2021\"";
    let out = rewrite_text(ReleaseFile::CargoManifest, cargo, &cs("1.0.7"), 0);
    assert_eq!(
        out,
        "[package]\nname = \"yumi\"\nversion = \"1.0.7\"\nversion = \"1.0.7\"\nedition = \"2021\""
    );
}

#[test]
fn update_json_rewrite() {
    let json = "{\n  \"version\": \"v1.0.6\",\n  \"versionCode\": 106,\n  \"zipUrl\": \"https://github.com/imacte/yumi/releases/download/yumi-v1.0.6/yumi-v1.0.6-42.zip\",\n  \"changelog\": \"old\"\n}\n";
    let out = rewrite_text(ReleaseFile::UpdateJson, json, &cs("1.0.7"), 107);
    let expected = "{\n  \"version\": \"v1.0.7\",\n  \"versionCode\": 107,\n  \"zipUrl\": \"https://github.com/imacte/yumi/releases/download/yumi-v1.0.7/yumi-v1.0.7.zip/yumi-v1.0.6-42.zip\",\n  \"changelog\": \"https://raw.githubusercontent.com/imacte/yumi/main/updateInformation/changelog.md\"\n}";
    assert_eq!(out, expected);
}

#[test]
fn zip_url_without_marker_or_slash() {
    let line = cs("\"zipUrl\": \"none\",");
    let out = st(&rewrite_line(ReleaseFile::UpdateJson, &line, &cs("2"), 1));
    assert_eq!(
        out,
        "  \"zipUrl\": \"https://github.com/imacte/yumi/releases/download/yumi-v2/yumi-v2.zip,"
    );
}

#[test]
fn whole_release() {
    let edit = release(
        "v2.0.0",
        None,
        "version=v1.9.9\nversionCode=199",
        "version = \"1.9.9\"",
        Some("\"versionCode\": 199,"),
    );
    assert_eq!(edit.version, "2.0.0");
    assert_eq!(edit.version_code, 200);
    assert_eq!(edit.module_prop, "version=v2.0.0\nversionCode=200");
    assert_eq!(edit.cargo_manifest, "version = \"2.0.0\"");
    assert_eq!(edit.update_json.as_deref(), Some("  \"versionCode\": 200,"));
    let no_json = release("3.0", Some(5), "", "", None);
    assert_eq!(no_json.version_code, 5);
    assert!(no_json.update_json.is_none());
}

#[test]
fn build_outputs() {
    assert_eq!(temp_dir(), "output/.temp");
    assert_eq!(aarch64_bin_path(), "target/aarch64-linux-android/release/yumi");
    assert_eq!(zip_file_name("1.0.7", 321, "20260101-0930"), "yumi-1.0.7-321-20260101-0930.zip");
    assert_eq!(parse_commit_count(" 321\n"), Some(321));
    assert_eq!(parse_commit_count("abc"), None);
}

#[test]
fn paths_join() {
    assert_eq!(join_path("/data/adb/modules/yumi", "rules.yaml"), "/data/adb/modules/yumi/rules.yaml");
    assert_eq!(join_path("/", "x"), "/x");
    assert_eq!(join_path("", "x"), "x");
    assert_eq!(get_rules_path("/data/adb/modules/yumi"), "/data/adb/modules/yumi/rules.yaml");
    assert_eq!(ftl_path("/m", "zh"), "/m/config/i18n/zh.ftl");
    assert_eq!(thermal_zone_node("thermal_zone3", "temp"), "/sys/class/thermal/thermal_zone3/temp");
}

#[test]
fn thermal_zone_selection() {
    assert!(is_cpu_thermal_zone("thermal_zone0", "soc_max"));
    assert!(is_cpu_thermal_zone("thermal_zone12", "mtktscpu"));
    assert!(is_cpu_thermal_zone("thermal_zone5", "cpu-1-0-usr"));
    assert!(is_cpu_thermal_zone("thermal_zone5", "cpu-0-0-usr"));
    assert!(!is_cpu_thermal_zone("thermal_zone5", "battery"));
    assert!(!is_cpu_thermal_zone("cooling_device0", "soc_max"));
    assert!(contains_chars(&cs("xx cpu-1-"), "cpu-1-"));
    assert!(!contains_chars(&cs("cpu-"), "cpu-1-"));
}

#[test]
fn released_prop_reads_back_its_code() {
    let prop = "id=yumi\r\nversion=v1\r\nversionCode=41\r\nupdateJson=x\r\n";
    let out = rewrite_text(ReleaseFile::ModuleProp, prop, &cs("2.0"), 77);
    assert_eq!(read_version_code(&out), 77);
    assert_eq!(out, "id=yumi\nversion=v2.0\nversionCode=77\nupdateJson=x");
}
