use yumi::i18n::{t, translation_or_key, try_load_language, Catalog, LoadError};
use yumi::sched_probe::{
    handle_sched_switch, CoreSlots, RunTimeTable, PROCESS_TABLE_CAPACITY, SWITCH_GAP_LIMIT_NS,
    THREAD_TABLE_CAPACITY,
};

const EN: &str = "monitor-starting = Monitor starting\nattr-only =\n    .label = Label\nbroken = { $missing }\n";

#[test]
fn default_catalog_echoes_keys() {
    let c = Catalog::new();
    assert_eq!(t(&c, "monitor-starting"), "monitor-starting");
    assert_eq!(t(&c, ""), "");
}

#[test]
fn loaded_language_translates() {
    let mut c = Catalog::new();
    assert_eq!(try_load_language(&mut c, "en", EN.to_string()), Ok(()));
    assert_eq!(t(&c, "monitor-starting"), "Monitor starting");
    assert_eq!(t(&c, "attr-only"), "attr-only");
    assert_eq!(t(&c, "unknown-key"), "unknown-key");
    assert_eq!(t(&c, "broken"), "broken");
}

#[test]
fn translation_with_arguments() {
    let mut c = Catalog::new();
    let src = "greet = Hello { $name }!\n".to_string();
    assert_eq!(try_load_language(&mut c, "zh", src), Ok(()));
    let mut args = fluent::FluentArgs::new();
    args.set("name", "yumi");
    let s = yumi::i18n::t_with_args(&c, "greet", &args);
    assert_eq!(s, "Hello \u{2068}yumi\u{2069}!");
    assert_eq!(yumi::i18n::t_with_args(&c, "nope", &args), "nope");
}

#[test]
fn failed_loads_keep_the_catalog() {
    let mut c = Catalog::new();
    assert_eq!(try_load_language(&mut c, "en", EN.to_string()), Ok(()));
    assert_eq!(try_load_language(&mut c, "zh", "this is not ftl".to_string()), Err(LoadError::Parse));
    assert_eq!(t(&c, "monitor-starting"), "Monitor starting");
    let dup = "a = 1\na = 2\n".to_string();
    assert_eq!(try_load_language(&mut c, "zh", dup), Err(LoadError::Resource));
    assert_eq!(t(&c, "monitor-starting"), "Monitor starting");
    assert_eq!(try_load_language(&mut c, "not a tag!", "a = 1\n".to_string()), Err(LoadError::InvalidLanguage));
    assert_eq!(try_load_language(&mut c, "not a tag!", "= =".to_string()), Err(LoadError::Parse));
    assert_eq!(t(&c, "monitor-starting"), "Monitor starting");
}

#[test]
fn settling_a_translation() {
    assert_eq!(translation_or_key("k", Some(("Text".to_string(), 0))), "Text");
    assert_eq!(translation_or_key("k", Some(("Text".to_string(), 2))), "k");
    assert_eq!(translation_or_key("k", None), "k");
}

fn slots(last_time: u64, tgid: u32) -> CoreSlots {
    CoreSlots { last_time, idle_time: 0, busy_time: 0, current_tid: 0, current_tgid: tgid }
}

#[test]
fn sched_switch_accounting() {
    let mut c = slots(1_000, 0);
    let mut th = RunTimeTable::new(THREAD_TABLE_CAPACITY);
    let mut pr = RunTimeTable::new(PROCESS_TABLE_CAPACITY);
    handle_sched_switch(&mut c, &mut th, &mut pr, 1_500, 0, 42, 40);
    assert_eq!((c.idle_time, c.busy_time), (500, 0));
    assert_eq!((c.last_time, c.current_tid, c.current_tgid), (1_500, 42, 40));
    handle_sched_switch(&mut c, &mut th, &mut pr, 2_000, 42, 43, 40);
    assert_eq!((c.idle_time, c.busy_time), (500, 500));
    assert_eq!(th.get(42), Some(500));
    assert_eq!(pr.get(40), Some(500));
    handle_sched_switch(&mut c, &mut th, &mut pr, 2_300, 43, 42, 40);
    handle_sched_switch(&mut c, &mut th, &mut pr, 2_400, 42, 0, 0);
    assert_eq!(th.get(42), Some(600));
    assert_eq!(th.get(43), Some(300));
    assert_eq!(pr.get(40), Some(900));
    assert_eq!(c.busy_time, 900);
    handle_sched_switch(&mut c, &mut th, &mut pr, 2_400 + SWITCH_GAP_LIMIT_NS, 0, 5, 5);
    assert_eq!((c.idle_time, c.busy_time), (500, 900));
    handle_sched_switch(&mut c, &mut th, &mut pr, 100, 5, 6, 6);
    assert_eq!(th.get(5), None);
    assert_eq!(pr.get(5), None);
    assert_eq!(c.last_time, 100);
}

#[test]
fn full_tables_drop_new_keys() {
    let mut th = RunTimeTable::new(1);
    th.add(1, 10);
    th.add(2, 10);
    th.add(1, u64::MAX);
    assert_eq!(th.len(), 1);
    assert_eq!(th.get(1), Some(9));
    assert_eq!(th.get(2), None);
}

#[test]
fn switch_time_goes_to_one_counter() {
    let mut c = slots(100, 9);
    c.idle_time = 1_000;
    c.busy_time = 2_000;
    let mut th = RunTimeTable::new(THREAD_TABLE_CAPACITY);
    let mut pr = RunTimeTable::new(PROCESS_TABLE_CAPACITY);
    handle_sched_switch(&mut c, &mut th, &mut pr, 350, 77, 78, 9);
    assert_eq!(c.idle_time + c.busy_time, 3_000 + 250);
    assert_eq!(pr.get(9), Some(250));
}
