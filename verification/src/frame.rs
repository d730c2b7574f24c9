//! Frame intervals from the queueBuffer probe.
//!
//! The probe writes one `FrameTimestampEvent` per submitted frame. The
//! tracker turns successive timestamps into frame intervals, keeps those
//! that are plausible (1 ms to 200 ms) in a window of the 144 most recent,
//! newest first, and reports the newest one.

use vstd::prelude::*;
use std::collections::VecDeque;

verus! {

/// Shortest frame interval that is kept (1 ms).
pub const MIN_FRAME_NS: u64 = 1_000_000;

/// Longest frame interval that is kept (200 ms).
pub const MAX_FRAME_NS: u64 = 200_000_000;

/// Number of frame intervals kept.
pub const FRAMETIME_WINDOW: usize = 144;

/// A frame submission seen by the probe: the process and the kernel time.
#[derive(Debug, Clone, Copy, PartialEq, Eq)]
pub struct FrameTimestampEvent {
    pub pid: u32,
    pub ktime_ns: u64,
}

/// The event the frame probe submits: the process id is the upper half of
/// the current `pid_tgid`. This is a model of the eBPF program's record; the
/// program that runs is the prebuilt `core/bin/bpf_probe.o`, which nothing
/// here checks against it.
pub fn frame_event(pid_tgid: u64, ktime_ns: u64) -> (r: FrameTimestampEvent)
    ensures
        r.pid == pid_tgid / 0x1_0000_0000,
        r.ktime_ns == ktime_ns,
{
    let pid = (pid_tgid >> 32) as u32;
    assert(pid_tgid >> 32 == pid_tgid / 0x1_0000_0000) by (bit_vector);
    FrameTimestampEvent { pid, ktime_ns }
}

/// The number that bytes denote, least significant first.
pub open spec fn le_value(b: Seq<u8>) -> nat
    decreases b.len(),
{
    if b.len() == 0 {
        0
    } else {
        b[0] as nat + 256 * le_value(b.drop_first())
    }
}

/// The number that bytes denote, most significant first.
pub open spec fn be_value(b: Seq<u8>) -> nat
    decreases b.len(),
{
    if b.len() == 0 {
        0
    } else {
        b.last() as nat + 256 * be_value(b.drop_last())
    }
}

/// `u32::from_ne_bytes`: the bytes read in this machine's byte order, which is
/// little- or big-endian.
#[verifier::external_body]
fn u32_from_ne_bytes(b: [u8; 4]) -> (r: u32)
    ensures
        r as nat == le_value(b@) || r as nat == be_value(b@),
{
    u32::from_ne_bytes(b)
}

/// `u64::from_ne_bytes`: the bytes read in this machine's byte order, which is
/// little- or big-endian.
#[verifier::external_body]
fn u64_from_ne_bytes(b: [u8; 8]) -> (r: u64)
    ensures
        r as nat == le_value(b@) || r as nat == be_value(b@),
{
    u64::from_ne_bytes(b)
}

/// Decodes one ring-buffer record: the pid in bytes 0..4 and the kernel time
/// in bytes 4..12, each in the machine's byte order. Records shorter than 12
/// bytes are not events.
pub fn decode_frame_event(data: &[u8]) -> (r: Option<FrameTimestampEvent>)
    ensures
        r is None <==> data@.len() < 12,
        r matches Some(ev) ==> {
            &&& (ev.pid as nat == le_value(data@.subrange(0, 4)) || ev.pid as nat == be_value(
                data@.subrange(0, 4),
            ))
            &&& (ev.ktime_ns as nat == le_value(data@.subrange(4, 12)) || ev.ktime_ns as nat
                == be_value(data@.subrange(4, 12)))
        },
{
    if data.len() < 12 {
        return None;
    }
    let p: [u8; 4] = [data[0], data[1], data[2], data[3]];
    let k: [u8; 8] = [data[4], data[5], data[6], data[7], data[8], data[9], data[10], data[11]];
    assert(p@ =~= data@.subrange(0, 4));
    assert(k@ =~= data@.subrange(4, 12));
    let pid = u32_from_ne_bytes(p);
    let ktime_ns = u64_from_ne_bytes(k);
    Some(FrameTimestampEvent { pid, ktime_ns })
}

/// `a - b`, or zero when `b > a` (`u64::saturating_sub`).
pub open spec fn sat_sub(a: u64, b: u64) -> u64 {
    if a >= b {
        (a - b) as u64
    } else {
        0
    }
}

/// Whether a frame interval is kept.
pub open spec fn plausible_frame(delta: u64) -> bool {
    MIN_FRAME_NS <= delta <= MAX_FRAME_NS
}

/// The window after a new interval: it goes first, and the oldest falls off
/// when the window is full.
pub open spec fn window_push(w: Seq<u64>, delta: u64) -> Seq<u64> {
    seq![delta] + if w.len() >= FRAMETIME_WINDOW {
        w.drop_last()
    } else {
        w
    }
}

/// Frame-interval tracker of one probed process.
pub struct FrameTracker {
    last_ktime_ns: Option<u64>,
    frametimes: VecDeque<u64>,
}

/// The tracker as the timestamp last seen and the window, newest first.
pub struct FrameTrackerView {
    pub last_ktime_ns: Option<u64>,
    pub frametimes: Seq<u64>,
}

impl View for FrameTracker {
    type V = FrameTrackerView;

    closed spec fn view(&self) -> FrameTrackerView {
        FrameTrackerView { last_ktime_ns: self.last_ktime_ns, frametimes: self.frametimes@ }
    }
}

/// The effect of one timestamp on the tracker.
pub open spec fn spec_record(t: FrameTrackerView, ktime_ns: u64) -> FrameTrackerView {
    let w = match t.last_ktime_ns {
        Some(last) => if plausible_frame(sat_sub(ktime_ns, last)) {
            window_push(t.frametimes, sat_sub(ktime_ns, last))
        } else {
            t.frametimes
        },
        None => t.frametimes,
    };
    FrameTrackerView { last_ktime_ns: Some(ktime_ns), frametimes: w }
}

/// The timestamp bytes (4..12) of the records that are events, in order.
pub open spec fn timestamp_bytes(recs: Seq<Vec<u8>>) -> Seq<Seq<u8>>
    decreases recs.len(),
{
    if recs.len() == 0 {
        Seq::empty()
    } else {
        let p = timestamp_bytes(recs.drop_last());
        if recs.last()@.len() >= 12 {
            p.push(recs.last()@.subrange(4, 12))
        } else {
            p
        }
    }
}

/// `ks` are the timestamps that `bytes` denote, each read little- or
/// big-endian.
pub open spec fn decodes(bytes: Seq<Seq<u8>>, ks: Seq<u64>) -> bool {
    &&& ks.len() == bytes.len()
    &&& forall|j: int|
        0 <= j < ks.len() ==> #[trigger] ks[j] as nat == le_value(bytes[j]) || ks[j] as nat
            == be_value(bytes[j])
}

/// The tracker after taking the timestamps `ks` in order.
pub open spec fn record_all(t: FrameTrackerView, ks: Seq<u64>) -> FrameTrackerView
    decreases ks.len(),
{
    if ks.len() == 0 {
        t
    } else {
        spec_record(record_all(t, ks.drop_last()), ks.last())
    }
}

/// The interval that a timestamp adds to the window, if any.
pub open spec fn recorded_interval(t: FrameTrackerView, ktime_ns: u64) -> Option<u64> {
    match t.last_ktime_ns {
        Some(last) => if plausible_frame(sat_sub(ktime_ns, last)) {
            Some(sat_sub(ktime_ns, last))
        } else {
            None
        },
        None => None,
    }
}

/// The intervals that taking the timestamps `ks` in order adds to the
/// window, oldest first.
pub open spec fn intervals_of(t: FrameTrackerView, ks: Seq<u64>) -> Seq<u64>
    decreases ks.len(),
{
    if ks.len() == 0 {
        Seq::empty()
    } else {
        let rest = intervals_of(t, ks.drop_last());
        match recorded_interval(record_all(t, ks.drop_last()), ks.last()) {
            Some(d) => rest.push(d),
            None => rest,
        }
    }
}

/// The window is never longer than 144 and holds only plausible intervals.
pub open spec fn tracker_wf(t: FrameTrackerView) -> bool {
    &&& t.frametimes.len() <= FRAMETIME_WINDOW
    &&& forall|i: int| 0 <= i < t.frametimes.len() ==> plausible_frame(#[trigger] t.frametimes[i])
}

impl FrameTracker {
    /// A tracker that has seen nothing.
    pub fn new() -> (r: Self)
        ensures
            r@.last_ktime_ns is None,
            r@.frametimes == Seq::<u64>::empty(),
    {
        FrameTracker { last_ktime_ns: None, frametimes: VecDeque::new() }
    }

    /// Takes one frame timestamp.
    pub fn record(&mut self, ktime_ns: u64)
        ensures
            final(self)@ == spec_record(old(self)@, ktime_ns),
    {
        if let Some(last_ns) = self.last_ktime_ns {
            let delta_ns = ktime_ns.saturating_sub(last_ns);
            if MIN_FRAME_NS <= delta_ns && delta_ns <= MAX_FRAME_NS {
                if self.frametimes.len() >= FRAMETIME_WINDOW {
                    self.frametimes.pop_back();
                }
                self.frametimes.push_front(delta_ns);
            }
        }
        self.last_ktime_ns = Some(ktime_ns);
        assert(self@.frametimes =~= spec_record(old(self)@, ktime_ns).frametimes);
    }

    /// Takes the records read from the ring buffer, in order; records that
    /// are not events are skipped. Returns the frame intervals that this poll
    /// added to the window, oldest first: one per frame that followed the
    /// previous one by a plausible interval. The timestamps are read in the
    /// machine's byte order, which is little- or big-endian.
    pub fn poll_frames(&mut self, records: &Vec<Vec<u8>>) -> (r: Vec<u64>)
        ensures
            exists|ks: Seq<u64>|
                {
                    &&& decodes(timestamp_bytes(records@), ks)
                    &&& final(self)@ == record_all(old(self)@, ks)
                    &&& r@ == intervals_of(old(self)@, ks)
                },
    {
        let mut out: Vec<u64> = Vec::new();
        let ghost ks: Seq<u64> = Seq::empty();
        let mut i: usize = 0;
        while i < records.len()
            invariant
                i <= records@.len(),
                decodes(timestamp_bytes(records@.take(i as int)), ks),
                self@ == record_all(old(self)@, ks),
                out@ == intervals_of(old(self)@, ks),
            decreases records@.len() - i,
        {
            assert(records@.take(i + 1).drop_last() == records@.take(i as int));
            assert(records@.take(i + 1).last() == records@[i as int]);
            let ghost prev = timestamp_bytes(records@.take(i as int));
            match decode_frame_event(records[i].as_slice()) {
                Some(ev) => {
                    let ghost ks0 = ks;
                    let last = self.last_ktime_ns;
                    self.record(ev.ktime_ns);
                    if let Some(last_ns) = last {
                        let delta_ns = ev.ktime_ns.saturating_sub(last_ns);
                        if MIN_FRAME_NS <= delta_ns && delta_ns <= MAX_FRAME_NS {
                            out.push(delta_ns);
                        }
                    }
                    proof {
                        ks = ks.push(ev.ktime_ns);
                        assert(ks.drop_last() == ks0);
                        assert(out@ == intervals_of(old(self)@, ks));
                        let now = timestamp_bytes(records@.take(i + 1));
                        assert(now == prev.push(records@[i as int]@.subrange(4, 12)));
                        assert forall|j: int| 0 <= j < ks.len() implies #[trigger] ks[j] as nat
                            == le_value(now[j]) || ks[j] as nat == be_value(now[j]) by {
                            if j < ks.len() - 1 {
                                assert(ks[j] == ks0[j]);
                                assert(now[j] == prev[j]);
                            }
                        }
                    }
                },
                None => {},
            }
            i += 1;
        }
        assert(records@.take(records@.len() as int) == records@);
        out
    }

    /// The newest kept frame interval.
    pub fn latest_frametime(&self) -> (r: Option<u64>)
        ensures
            self@.frametimes.len() == 0 ==> r is None,
            self@.frametimes.len() > 0 ==> r == Some(self@.frametimes[0]),
    {
        if self.frametimes.len() == 0 {
            None
        } else {
            Some(self.frametimes[0])
        }
    }
}

} // verus!

verus! {

/// Taking a timestamp keeps the window bounded by 144 and free of
/// implausible intervals.
pub proof fn law_record_keeps_window_wf(t: FrameTrackerView, ktime_ns: u64)
    requires
        tracker_wf(t),
    ensures
        tracker_wf(spec_record(t, ktime_ns)),
{
    let r = spec_record(t, ktime_ns);
    if let Some(last) = t.last_ktime_ns {
        let d = sat_sub(ktime_ns, last);
        if plausible_frame(d) {
            let rest = if t.frametimes.len() >= FRAMETIME_WINDOW {
                t.frametimes.drop_last()
            } else {
                t.frametimes
            };
            assert forall|i: int| 0 <= i < r.frametimes.len() implies plausible_frame(
                #[trigger] r.frametimes[i],
            ) by {
                if i > 0 {
                    assert(r.frametimes[i] == rest[i - 1]);
                    assert(rest[i - 1] == t.frametimes[i - 1]);
                }
            }
        }
    }
}

/// After a timestamp that follows the previous one by a plausible interval,
/// the newest frame time is that interval; any other timestamp leaves the
/// window as it was.
pub proof fn law_latest_is_last_interval(t: FrameTrackerView, ktime_ns: u64)
    ensures
        ({
            let r = spec_record(t, ktime_ns);
            &&& r.last_ktime_ns == Some(ktime_ns)
            &&& match t.last_ktime_ns {
                Some(last) => if ktime_ns >= last && plausible_frame((ktime_ns - last) as u64) {
                    r.frametimes.len() > 0 && r.frametimes[0] == ktime_ns - last
                } else {
                    r.frametimes == t.frametimes
                },
                None => r.frametimes == t.frametimes,
            }
        }),
{
}

/// The process that the frame probe must follow after a foreground check:
/// the new foreground process when it differs from the one followed and is
/// a real process (pid above zero), otherwise no change.
pub fn followed_pid_change(followed: i32, foreground: i32) -> (r: Option<i32>)
    ensures
        r == (if foreground != followed && foreground > 0 {
            Some(foreground)
        } else {
            None
        }),
{
    if foreground != followed && foreground > 0 {
        Some(foreground)
    } else {
        None
    }
}

/// How long the ring-buffer poll waits, in milliseconds: 100 while a probe
/// is attached, 500 while none is.
pub fn poll_timeout_ms(probe_attached: bool) -> (r: u64)
    ensures
        r == (if probe_attached {
            100u64
        } else {
            500u64
        }),
{
    if probe_attached {
        100
    } else {
        500
    }
}

} // verus!
