use yumi::frame::{decode_frame_event, frame_event, FrameTimestampEvent, FrameTracker, FRAMETIME_WINDOW, MAX_FRAME_NS, MIN_FRAME_NS};
use yumi::freq::{
    available_frequencies, cluster_write_plan, first_u32, freq_mismatch, locked_writes,
    merge_boost_freqs, parse_policy_name, parse_trimmed_u32, parse_u32_list, parse_usize_list,
    policies_from_entries, policy_node_path, sort_i32, sorted_unique, u32_to_buf, verify_bounds,
    FreqNode, FreqWrite, FreqWriteCache, PolicyState,
};

fn w(node: FreqNode, value: u32) -> FreqWrite {
    FreqWrite { node, value }
}

#[test]
fn u32_to_buf_writes_decimal_line() {
    let mut buf = [0xAAu8; 20];
    let n = u32_to_buf(1017600, &mut buf);
    assert_eq!(&buf[..n], b"1017600\n");
    assert!(buf[n..].iter().all(|&b| b == 0xAA));
    let n = u32_to_buf(0, &mut buf);
    assert_eq!(&buf[..n], b"0\n");
    let n = u32_to_buf(u32::MAX, &mut buf);
    assert_eq!(&buf[..n], b"4294967295\n");
}

#[test]
fn frequency_lists() {
    assert_eq!(parse_u32_list("300000 576000 x 1017600\n"), vec![300000, 576000, 1017600]);
    assert_eq!(parse_usize_list("0 1 2 3"), vec![0, 1, 2, 3]);
    assert_eq!(first_u32("1804800 2000000"), Some(1804800));
    assert_eq!(first_u32("  "), None);
    assert_eq!(parse_trimmed_u32(" 1200000\n"), Some(1200000));
    assert_eq!(parse_trimmed_u32("busy"), None);
    assert_eq!(available_frequencies("900 300 600 300"), vec![300, 600, 900]);
    assert_eq!(sorted_unique(&vec![5, 1, 5, 3]), vec![1, 3, 5]);
    assert_eq!(merge_boost_freqs(&vec![100, 300], &vec![200, 300, 400]), vec![100, 200, 300, 400]);
    assert_eq!(sort_i32(&vec![7, -1, 4, 4]), vec![-1, 4, 4, 7]);
}

#[test]
fn policy_names() {
    assert_eq!(parse_policy_name("policy4"), Some(4));
    assert_eq!(parse_policy_name("policy"), None);
    assert_eq!(parse_policy_name("cpufreq"), None);
    let names = vec!["policy7".to_string(), "boost".to_string(), "policy0".to_string(), "policy4".to_string()];
    assert_eq!(policies_from_entries(&names), vec![0, 4, 7]);
    assert_eq!(policy_node_path(4, "scaling_max_freq"), "/sys/devices/system/cpu/cpufreq/policy4/scaling_max_freq");
}

#[test]
fn locking_order() {
    assert_eq!(locked_writes(1000, 2000), vec![w(FreqNode::Max, 2000), w(FreqNode::Min, 2000)]);
    assert_eq!(locked_writes(2000, 1000), vec![w(FreqNode::Min, 1000), w(FreqNode::Max, 1000)]);
    assert!(cluster_write_plan(1500, 1500).is_empty());
    assert_eq!(cluster_write_plan(1500, 1600), vec![w(FreqNode::Max, 1600), w(FreqNode::Min, 1600)]);
}

#[test]
fn verification_bounds() {
    let freqs = vec![300, 600, 900, 1200];
    assert_eq!(verify_bounds(&freqs, 600), (600, 600));
    assert!(!freq_mismatch(&freqs, 600, 600));
    assert!(freq_mismatch(&freqs, 600, 900));
    let mut p = PolicyState::new(freqs.clone(), 0, 300);
    assert!(!p.expects_verification());
    assert!(p.verify(600, true, Some(600)).is_none());
    assert!(p.expects_verification());
    let fix = p.verify(900, true, Some(1200));
    assert_eq!(fix, Some(vec![w(FreqNode::Min, 900), w(FreqNode::Max, 900)]));
    assert_eq!(p.verify_freq, Some(900));
    assert!(p.verify(900, false, Some(300)).is_none());
}

#[test]
fn policy_state_writes() {
    let mut p = PolicyState::new(vec![300, 600, 900], 2, 600);
    assert_eq!(p.apply_freq_locked(900), vec![w(FreqNode::Max, 900), w(FreqNode::Min, 900)]);
    assert_eq!(p.current_freq, 900);
    assert_eq!(p.freq_hold_frames, 2);
    assert!(p.hold_tick(false));
    assert!(!p.hold_tick(true));
    assert_eq!(p.freq_hold_frames, 0);
    assert!(!p.hold_tick(false));
    assert_eq!(p.apply_freq_relaxed(600), vec![w(FreqNode::Min, 300), w(FreqNode::Max, 600)]);
    assert_eq!(p.force_reapply(), Some(vec![w(FreqNode::Min, 600), w(FreqNode::Max, 600)]));
    assert_eq!(p.reset(), vec![w(FreqNode::Max, 900), w(FreqNode::Min, 300)]);
    assert_eq!(p.current_freq, 900);
    p.ignore_write = true;
    assert!(p.apply_freq_locked(300).is_empty());
    assert_eq!(p.current_freq, 900);
    assert!(p.force_reapply().is_none());
}

#[test]
fn write_cache_dedups() {
    let mut c = FreqWriteCache::new();
    assert!(c.needs_write(500));
    c.record_write(500, true);
    assert!(!c.needs_write(500));
    assert!(c.needs_write(600));
    c.record_write(600, false);
    assert!(c.needs_write(600));
    assert!(!c.needs_write(500));
    c.invalidate();
    assert!(c.needs_write(500));
}

#[test]
fn frame_records() {
    let mut rec = Vec::new();
    rec.extend_from_slice(&1234u32.to_ne_bytes());
    rec.extend_from_slice(&99_000_000u64.to_ne_bytes());
    assert_eq!(decode_frame_event(&rec), Some(FrameTimestampEvent { pid: 1234, ktime_ns: 99_000_000 }));
    assert_eq!(decode_frame_event(&rec[..11]), None);
    assert_eq!(frame_event((77u64 << 32) | 5, 10), FrameTimestampEvent { pid: 77, ktime_ns: 10 });
}

#[test]
fn frame_tracker_window() {
    let mut t = FrameTracker::new();
    assert_eq!(t.latest_frametime(), None);
    t.record(1_000_000_000);
    assert_eq!(t.latest_frametime(), None);
    t.record(1_016_000_000);
    assert_eq!(t.latest_frametime(), Some(16_000_000));
    t.record(1_016_500_000);
    assert_eq!(t.latest_frametime(), Some(16_000_000));
    t.record(2_016_500_000);
    assert_eq!(t.latest_frametime(), Some(16_000_000));
    t.record(2_016_500_000 + MIN_FRAME_NS);
    assert_eq!(t.latest_frametime(), Some(MIN_FRAME_NS));
    t.record(2_016_500_000 + MIN_FRAME_NS + MAX_FRAME_NS);
    assert_eq!(t.latest_frametime(), Some(MAX_FRAME_NS));
    let mut now = 3_000_000_000u64;
    for _ in 0..(FRAMETIME_WINDOW + 10) {
        now += 8_000_000;
        t.record(now);
    }
    assert_eq!(t.latest_frametime(), Some(8_000_000));
}

#[test]
fn frame_tracker_polls_records() {
    let mut t = FrameTracker::new();
    let mk = |k: u64| {
        let mut r = Vec::new();
        r.extend_from_slice(&1u32.to_ne_bytes());
        r.extend_from_slice(&k.to_ne_bytes());
        r
    };
    let records = vec![mk(100_000_000), vec![1, 2, 3], mk(120_000_000)];
    assert_eq!(t.poll_frames(&records), vec![20_000_000]);
    assert_eq!(t.latest_frametime(), Some(20_000_000));
    // Three more frames: 16 ms, a 500 ms stall (not kept), then 8 ms; each
    // kept interval is reported once, oldest first.
    let more = vec![mk(136_000_000), mk(636_000_000), mk(644_000_000)];
    assert_eq!(t.poll_frames(&more), vec![16_000_000, 8_000_000]);
    assert_eq!(t.poll_frames(&vec![]), Vec::<u64>::new());
    assert_eq!(t.latest_frametime(), Some(8_000_000));
}

#[test]
fn capacity_reference_is_the_smallest_nonzero_set() {
    assert_eq!(yumi::freq::capacity_reference(&vec![512, 1024, 256, 870]), Some(256));
    assert_eq!(yumi::freq::capacity_reference(&vec![1024]), Some(1024));
    assert_eq!(yumi::freq::capacity_reference(&vec![]), None);
    assert_eq!(yumi::freq::capacity_reference(&vec![512, 0, 1024]), None);
}
