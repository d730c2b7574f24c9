//! cpufreq policy data: parsing sysfs lists, normalising frequency tables,
//! encoding the values written to `scaling_{min,max}_freq`, and the order in
//! which the two limits are written.

use vstd::prelude::*;
use crate::text::{
    all_digits, chars_of, decimal, decimal_chars, i32_decimal_chars, lemma_decimal_digits,
    lemma_decimal_len, parse_i32, signed_decimal, string_from_chars,
    parse_i32_spec, parse_u32, parse_unsigned_spec, parse_usize, pow10, split_ws, trim, trim_chars,
    ws_tokens,
};

verus! {

broadcast use {vstd::seq_lib::group_to_multiset_ensures, vstd::seq_lib::group_seq_properties};

// ───────────────────────────── encoding ─────────────────────────────

/// The bytes written to a sysfs frequency node: the decimal digits of `v`
/// and a newline.
pub open spec fn freq_line(v: nat) -> Seq<u8> {
    decimal(v).map_values(|c: char| c as u8).push(10u8)
}

/// Writes `v` in decimal followed by `\n` at the start of `buf` and returns
/// the number of bytes written; the rest of `buf` is left as it was.
pub fn u32_to_buf(v: u32, buf: &mut [u8; 20]) -> (len: usize)
    ensures
        len == decimal(v as nat).len() + 1,
        len <= 11,
        final(buf)@.take(len as int) == freq_line(v as nat),
        final(buf)@.skip(len as int) == old(buf)@.skip(len as int),
{
    let digits = decimal_chars(v as u64);
    proof {
        reveal_with_fuel(pow10, 11);
        assert(pow10(10) == 10000000000nat);
        lemma_decimal_len(v as nat, 10);
        lemma_decimal_digits(v as nat);
    }
    let n = digits.len();
    let mut i: usize = 0;
    while i < n
        invariant
            n == digits@.len(),
            n <= 10,
            digits@ == decimal(v as nat),
            all_digits(digits@),
            i <= n,
            forall|j: int| 0 <= j < i ==> buf@[j] == #[trigger] digits@[j] as u8,
            forall|j: int| i <= j < 20 ==> buf@[j] == old(buf)@[j],
        decreases n - i,
    {
        let c = digits[i];
        assert('0' <= digits@[i as int] <= '9');
        buf[i] = c as u8;
        i += 1;
    }
    buf[n] = 10u8;
    assert(final(buf)@.take(n + 1) =~= freq_line(v as nat));
    assert(final(buf)@.skip(n + 1) =~= old(buf)@.skip(n + 1));
    n + 1
}

// ───────────────────────────── parsing ─────────────────────────────

/// The words of a sysfs list that read as `u32`, in order; the others are
/// dropped (`split_whitespace().filter_map(|s| s.parse().ok())`).
pub open spec fn u32_values(toks: Seq<Seq<char>>) -> Seq<u32>
    decreases toks.len(),
{
    if toks.len() == 0 {
        Seq::empty()
    } else {
        let p = u32_values(toks.drop_last());
        match parse_unsigned_spec(toks.last(), u32::MAX as nat) {
            Some(v) => p.push(v as u32),
            None => p,
        }
    }
}

/// The words of a sysfs list that read as `usize`, in order.
pub open spec fn usize_values(toks: Seq<Seq<char>>) -> Seq<usize>
    decreases toks.len(),
{
    if toks.len() == 0 {
        Seq::empty()
    } else {
        let p = usize_values(toks.drop_last());
        match parse_unsigned_spec(toks.last(), usize::MAX as nat) {
            Some(v) => p.push(v as usize),
            None => p,
        }
    }
}

/// The `u32` values of a whitespace-separated list, such as
/// `scaling_available_frequencies`.
pub fn parse_u32_list(text: &str) -> (r: Vec<u32>)
    ensures
        r@ == u32_values(ws_tokens(text@)),
{
    let chars = chars_of(text);
    let toks = split_ws(chars.as_slice());
    let ghost tv = toks@.map_values(|t: Vec<char>| t@);
    let mut r: Vec<u32> = Vec::new();
    let mut i: usize = 0;
    while i < toks.len()
        invariant
            i <= toks@.len(),
            tv == toks@.map_values(|t: Vec<char>| t@),
            r@ == u32_values(tv.take(i as int)),
        decreases toks@.len() - i,
    {
        assert(tv.take(i + 1).drop_last() == tv.take(i as int));
        assert(tv.take(i + 1).last() == toks@[i as int]@);
        match parse_u32(toks[i].as_slice()) {
            Some(v) => {
                r.push(v);
            },
            None => {},
        }
        i += 1;
    }
    assert(tv.take(toks@.len() as int) == tv);
    r
}

/// The `usize` values of a whitespace-separated list, such as
/// `affected_cpus`.
pub fn parse_usize_list(text: &str) -> (r: Vec<usize>)
    ensures
        r@ == usize_values(ws_tokens(text@)),
{
    let chars = chars_of(text);
    let toks = split_ws(chars.as_slice());
    let ghost tv = toks@.map_values(|t: Vec<char>| t@);
    let mut r: Vec<usize> = Vec::new();
    let mut i: usize = 0;
    while i < toks.len()
        invariant
            i <= toks@.len(),
            tv == toks@.map_values(|t: Vec<char>| t@),
            r@ == usize_values(tv.take(i as int)),
        decreases toks@.len() - i,
    {
        assert(tv.take(i + 1).drop_last() == tv.take(i as int));
        assert(tv.take(i + 1).last() == toks@[i as int]@);
        match parse_usize(toks[i].as_slice()) {
            Some(v) => {
                r.push(v);
            },
            None => {},
        }
        i += 1;
    }
    assert(tv.take(toks@.len() as int) == tv);
    r
}

/// The first word of a list read as `u32`, if there is a first word and it
/// reads as one (`split_whitespace().next()?.parse().ok()`).
pub fn first_u32(text: &str) -> (r: Option<u32>)
    ensures
        ws_tokens(text@).len() == 0 ==> r is None,
        ws_tokens(text@).len() > 0 ==> (r matches Some(v) ==> parse_unsigned_spec(
            ws_tokens(text@)[0],
            u32::MAX as nat,
        ) == Some(v as nat)),
        ws_tokens(text@).len() > 0 ==> (r is None ==> parse_unsigned_spec(
            ws_tokens(text@)[0],
            u32::MAX as nat,
        ) is None),
{
    let chars = chars_of(text);
    let toks = split_ws(chars.as_slice());
    if toks.len() == 0 {
        return None;
    }
    assert(toks@.map_values(|t: Vec<char>| t@)[0] == toks@[0]@);
    parse_u32(toks[0].as_slice())
}

/// A whole file read as one `u32` after trimming
/// (`trim().parse::<u32>().ok()`), as for `scaling_cur_freq`.
pub fn parse_trimmed_u32(text: &str) -> (r: Option<u32>)
    ensures
        r matches Some(v) ==> parse_unsigned_spec(trim(text@), u32::MAX as nat) == Some(v as nat),
        r is None ==> parse_unsigned_spec(trim(text@), u32::MAX as nat) is None,
{
    let chars = chars_of(text);
    let t = trim_chars(chars.as_slice());
    parse_u32(t.as_slice())
}

// ───────────────────────── frequency tables ─────────────────────────

/// Each element is smaller than the next.
pub open spec fn strictly_increasing(s: Seq<u32>) -> bool {
    forall|i: int, j: int| 0 <= i < j < s.len() ==> s[i] < s[j]
}

/// Each element is at most the next.
pub open spec fn non_decreasing(s: Seq<i32>) -> bool {
    forall|i: int, j: int| 0 <= i <= j < s.len() ==> s[i] <= s[j]
}

/// The values of `v`, sorted and without repeats (`sort_unstable` then
/// `dedup`).
pub fn sorted_unique(v: &Vec<u32>) -> (r: Vec<u32>)
    ensures
        strictly_increasing(r@),
        forall|x: u32| r@.contains(x) <==> v@.contains(x),
{
    let mut r: Vec<u32> = Vec::new();
    let mut i: usize = 0;
    while i < v.len()
        invariant
            i <= v@.len(),
            strictly_increasing(r@),
            forall|x: u32| r@.contains(x) <==> v@.take(i as int).contains(x),
        decreases v@.len() - i,
    {
        let x = v[i];
        let mut j: usize = 0;
        while j < r.len() && r[j] < x
            invariant
                j <= r@.len(),
                forall|k: int| 0 <= k < j ==> r@[k] < x,
            decreases r@.len() - j,
        {
            j += 1;
        }
        let ghost old_r = r@;
        assert(v@.take(i + 1) == v@.take(i as int).push(x));
        if j < r.len() && r[j] == x {
            assert forall|y: u32| r@.contains(y) <==> v@.take(i + 1).contains(y) by {
                if y == x {
                    assert(r@[j as int] == x);
                }
            }
        } else {
            r.insert(j, x);
            proof {
                old_r.insert_ensures(j as int, x);
                assert forall|a: int, b: int| 0 <= a < b < r@.len() implies r@[a] < r@[b] by {
                    if b < j {
                    } else if a < j && b == j {
                    } else if a < j {
                        assert(r@[b] == old_r[b - 1]);
                    } else if a == j {
                        assert(r@[b] == old_r[b - 1]);
                        assert(old_r[j as int] >= x);
                        if b - 1 > j {
                            assert(old_r[j as int] < old_r[b - 1]);
                        }
                    } else {
                        assert(r@[a] == old_r[a - 1]);
                        assert(r@[b] == old_r[b - 1]);
                    }
                }
                assert forall|y: u32| r@.contains(y) <==> v@.take(i + 1).contains(y) by {
                    if r@.contains(y) {
                        let k = choose|k: int| 0 <= k < r@.len() && r@[k] == y;
                        if k < j {
                            assert(old_r[k] == y);
                        } else if k > j {
                            assert(old_r[k - 1] == y);
                        }
                    }
                    if old_r.contains(y) {
                        let k = choose|k: int| 0 <= k < old_r.len() && old_r[k] == y;
                        if k < j {
                            assert(r@[k] == y);
                        } else {
                            assert(r@[k + 1] == y);
                        }
                    }
                    if y == x {
                        assert(r@[j as int] == x);
                    }
                }
            }
        }
        i += 1;
    }
    assert(v@.take(v@.len() as int) == v@);
    r
}

/// The frequency table of a policy: the values of
/// `scaling_available_frequencies`, sorted, without repeats.
pub fn available_frequencies(text: &str) -> (r: Vec<u32>)
    ensures
        strictly_increasing(r@),
        forall|x: u32| r@.contains(x) <==> u32_values(ws_tokens(text@)).contains(x),
{
    let parsed = parse_u32_list(text);
    sorted_unique(&parsed)
}

/// A frequency table with a platform's extra boost frequencies merged in.
pub fn merge_boost_freqs(freqs: &Vec<u32>, boost: &Vec<u32>) -> (r: Vec<u32>)
    ensures
        strictly_increasing(r@),
        forall|x: u32| r@.contains(x) <==> (freqs@.contains(x) || boost@.contains(x)),
{
    let mut all = freqs.clone();
    let mut b = boost.clone();
    all.append(&mut b);
    let r = sorted_unique(&all);
    assert forall|x: u32| r@.contains(x) <==> (freqs@.contains(x) || boost@.contains(x)) by {
        if all@.contains(x) {
            let k = choose|k: int| 0 <= k < all@.len() && all@[k] == x;
            if k < freqs@.len() {
                assert(freqs@[k] == x);
            } else {
                assert(boost@[k - freqs@.len()] == x);
            }
        }
        if freqs@.contains(x) {
            let k = choose|k: int| 0 <= k < freqs@.len() && freqs@[k] == x;
            assert(all@[k] == x);
        }
        if boost@.contains(x) {
            let k = choose|k: int| 0 <= k < boost@.len() && boost@[k] == x;
            assert(all@[k + freqs@.len()] == x);
        }
    }
    r
}

/// The values of `v` in non-decreasing order (`sort_unstable`).
pub fn sort_i32(v: &Vec<i32>) -> (r: Vec<i32>)
    ensures
        non_decreasing(r@),
        r@.to_multiset() == v@.to_multiset(),
{
    let mut r: Vec<i32> = Vec::new();
    let mut i: usize = 0;
    while i < v.len()
        invariant
            i <= v@.len(),
            non_decreasing(r@),
            r@.to_multiset() == v@.take(i as int).to_multiset(),
        decreases v@.len() - i,
    {
        let x = v[i];
        let mut j: usize = 0;
        while j < r.len() && r[j] <= x
            invariant
                j <= r@.len(),
                forall|k: int| 0 <= k < j ==> r@[k] <= x,
            decreases r@.len() - j,
        {
            j += 1;
        }
        let ghost old_r = r@;
        assert(v@.take(i + 1) == v@.take(i as int).push(x));
        r.insert(j, x);
        proof {
            old_r.insert_ensures(j as int, x);
            assert forall|a: int, b: int| 0 <= a <= b < r@.len() implies r@[a] <= r@[b] by {
                if b < j {
                } else if a < j && b == j {
                } else if a < j {
                    assert(r@[b] == old_r[b - 1]);
                    assert(old_r[a] <= old_r[b - 1]);
                } else if a == j {
                    if b > j {
                        assert(r@[b] == old_r[b - 1]);
                        assert(old_r[j as int] > x);
                        assert(old_r[j as int] <= old_r[b - 1]);
                    }
                } else {
                    assert(r@[a] == old_r[a - 1]);
                    assert(r@[b] == old_r[b - 1]);
                }
            }
        }
        i += 1;
    }
    assert(v@.take(v@.len() as int) == v@);
    r
}

/// The policy number of a `cpufreq` directory entry named `policy<N>`.
pub open spec fn policy_id_of(name: Seq<char>) -> Option<i32> {
    if name.len() >= 6 && name.take(6) == "policy"@ {
        match parse_i32_spec(name.skip(6)) {
            Some(v) => Some(v as i32),
            None => None,
        }
    } else {
        None
    }
}

/// The policy numbers of the directory entries, in the order given.
pub open spec fn policy_ids(names: Seq<Seq<char>>) -> Seq<i32>
    decreases names.len(),
{
    if names.len() == 0 {
        Seq::empty()
    } else {
        let p = policy_ids(names.drop_last());
        match policy_id_of(names.last()) {
            Some(v) => p.push(v),
            None => p,
        }
    }
}

/// The policy of a directory entry name, if it is `policy<N>` with an
/// `i32` number.
pub fn parse_policy_name(name: &str) -> (r: Option<i32>)
    ensures
        r == policy_id_of(name@),
{
    let c = chars_of(name);
    let p = chars_of("policy");
    proof {
        reveal_strlit("policy");
    }
    if c.len() < 6 {
        return None;
    }
    let mut i: usize = 0;
    while i < 6
        invariant
            i <= 6,
            c@ == name@,
            c@.len() >= 6,
            p@ == "policy"@,
            p@.len() == 6,
            forall|k: int| 0 <= k < i ==> c@[k] == p@[k],
        decreases 6 - i,
    {
        if c[i] != p[i] {
            assert(c@.take(6)[i as int] != "policy"@[i as int]);
            return None;
        }
        i += 1;
    }
    assert(c@.take(6) =~= "policy"@);
    let mut rest: Vec<char> = Vec::new();
    let mut k: usize = 6;
    while k < c.len()
        invariant
            6 <= k <= c@.len(),
            rest@ == c@.subrange(6, k as int),
        decreases c@.len() - k,
    {
        rest.push(c[k]);
        assert(c@.subrange(6, k + 1) == c@.subrange(6, k as int).push(c@[k as int]));
        k += 1;
    }
    assert(rest@ == c@.skip(6));
    parse_i32(rest.as_slice())
}

/// The CPU policies among the entries of `/sys/devices/system/cpu/cpufreq`,
/// sorted.
pub fn policies_from_entries(names: &Vec<String>) -> (r: Vec<i32>)
    ensures
        non_decreasing(r@),
        r@.to_multiset() == policy_ids(names@.map_values(|n: String| n@)).to_multiset(),
{
    let ghost nv = names@.map_values(|n: String| n@);
    let mut ids: Vec<i32> = Vec::new();
    let mut i: usize = 0;
    while i < names.len()
        invariant
            i <= names@.len(),
            nv == names@.map_values(|n: String| n@),
            ids@ == policy_ids(nv.take(i as int)),
        decreases names@.len() - i,
    {
        assert(nv.take(i + 1).drop_last() == nv.take(i as int));
        assert(nv.take(i + 1).last() == names@[i as int]@);
        match parse_policy_name(names[i].as_str()) {
            Some(v) => {
                ids.push(v);
            },
            None => {},
        }
        i += 1;
    }
    assert(nv.take(names@.len() as int) == nv);
    sort_i32(&ids)
}

} // verus!

verus! {

// ─────────────────────────── write plans ───────────────────────────

/// The two limits of a cpufreq policy.
#[derive(Debug, Clone, Copy, PartialEq, Eq)]
pub enum FreqNode {
    /// `scaling_max_freq`
    Max,
    /// `scaling_min_freq`
    Min,
}

/// One write of a frequency to one limit.
#[derive(Debug, Clone, Copy, PartialEq, Eq)]
pub struct FreqWrite {
    pub node: FreqNode,
    pub value: u32,
}

/// The limits that the kernel holds for a policy.
#[derive(Debug, Clone, Copy, PartialEq, Eq)]
pub struct FreqLimits {
    pub min: u32,
    pub max: u32,
}

/// The limits after one write.
pub open spec fn apply_write(l: FreqLimits, w: FreqWrite) -> FreqLimits {
    match w.node {
        FreqNode::Max => FreqLimits { max: w.value, ..l },
        FreqNode::Min => FreqLimits { min: w.value, ..l },
    }
}

/// The plan that locks a policy at `target` when it runs at `current`: when
/// rising, the maximum is raised first; when falling, the minimum is lowered
/// first.
pub open spec fn lock_plan(current: u32, target: u32) -> Seq<FreqWrite> {
    if target >= current {
        seq![
            FreqWrite { node: FreqNode::Max, value: target },
            FreqWrite { node: FreqNode::Min, value: target },
        ]
    } else {
        seq![
            FreqWrite { node: FreqNode::Min, value: target },
            FreqWrite { node: FreqNode::Max, value: target },
        ]
    }
}

/// The writes that lock a policy at `target`, given the frequency it runs
/// at now.
pub fn locked_writes(current: u32, target: u32) -> (r: Vec<FreqWrite>)
    ensures
        r@ == lock_plan(current, target),
{
    let mut r: Vec<FreqWrite> = Vec::new();
    if target >= current {
        r.push(FreqWrite { node: FreqNode::Max, value: target });
        r.push(FreqWrite { node: FreqNode::Min, value: target });
    } else {
        r.push(FreqWrite { node: FreqNode::Min, value: target });
        r.push(FreqWrite { node: FreqNode::Max, value: target });
    }
    assert(r@ =~= lock_plan(current, target));
    r
}

/// Locking never asks the kernel for a minimum above the maximum: when the
/// current frequency lies within the limits, the limits stay ordered after
/// the first write and both equal `target` after the second.
pub proof fn law_lock_plan_keeps_limits_ordered(l: FreqLimits, current: u32, target: u32)
    requires
        l.min <= current <= l.max,
    ensures
        ({
            let p = lock_plan(current, target);
            let l1 = apply_write(l, p[0]);
            let l2 = apply_write(l1, p[1]);
            &&& p.len() == 2
            &&& l1.min <= l1.max
            &&& l2 == (FreqLimits { min: target, max: target })
        }),
{
}

/// The writes of a CPU-load-governor cluster moving to `freq`: nothing when
/// it already runs there, otherwise the locking writes.
pub fn cluster_write_plan(current: u32, freq: u32) -> (r: Vec<FreqWrite>)
    ensures
        freq == current ==> r@ == Seq::<FreqWrite>::empty(),
        freq != current ==> r@ == lock_plan(current, freq),
{
    if freq == current {
        Vec::new()
    } else {
        locked_writes(current, freq)
    }
}

/// How many leading elements of `s` satisfy `p` (the length of
/// `take_while(p)`).
pub open spec fn prefix_len(s: Seq<u32>, p: spec_fn(u32) -> bool) -> nat
    decreases s.len(),
{
    if s.len() > 0 && p(s[0]) {
        1 + prefix_len(s.drop_first(), p)
    } else {
        0
    }
}

pub proof fn lemma_prefix_len_exact(s: Seq<u32>, p: spec_fn(u32) -> bool, i: int)
    requires
        0 <= i <= s.len(),
        forall|j: int| 0 <= j < i ==> p(#[trigger] s[j]),
        i == s.len() || !p(s[i]),
    ensures
        prefix_len(s, p) == i,
    decreases i,
{
    if i > 0 {
        let t = s.drop_first();
        assert forall|j: int| 0 <= j < i - 1 implies p(#[trigger] t[j]) by {
            assert(t[j] == s[j + 1]);
        }
        if i < s.len() {
            assert(t[i - 1] == s[i]);
        }
        lemma_prefix_len_exact(t, p, i - 1);
    }
}

/// The bounds within which a policy that was asked for `expected` may
/// legitimately run: the last of the leading table frequencies at or below
/// it (`take_while(|f| f <= expected).last()`) and the first table frequency
/// at or above it (`find(|f| f >= expected)`), each `expected` where there is
/// none.
pub open spec fn verify_bounds_spec(freqs: Seq<u32>, expected: u32) -> (u32, u32) {
    let n = prefix_len(freqs, |f: u32| f <= expected);
    let m = prefix_len(freqs, |f: u32| f < expected);
    (
        if n > 0 {
            freqs[n - 1]
        } else {
            expected
        },
        if m < freqs.len() {
            freqs[m as int]
        } else {
            expected
        },
    )
}

/// Computes `verify_bounds_spec`.
pub fn verify_bounds(freqs: &Vec<u32>, expected: u32) -> (r: (u32, u32))
    ensures
        r == verify_bounds_spec(freqs@, expected),
{
    let mut i: usize = 0;
    while i < freqs.len() && freqs[i] <= expected
        invariant
            i <= freqs@.len(),
            forall|k: int| 0 <= k < i ==> #[trigger] freqs@[k] <= expected,
        decreases freqs@.len() - i,
    {
        i += 1;
    }
    proof {
        lemma_prefix_len_exact(freqs@, |f: u32| f <= expected, i as int);
    }
    let min_ok = if i > 0 {
        freqs[i - 1]
    } else {
        expected
    };
    let mut j: usize = 0;
    while j < freqs.len() && freqs[j] < expected
        invariant
            j <= freqs@.len(),
            forall|k: int| 0 <= k < j ==> #[trigger] freqs@[k] < expected,
        decreases freqs@.len() - j,
    {
        j += 1;
    }
    proof {
        lemma_prefix_len_exact(freqs@, |f: u32| f < expected, j as int);
    }
    let max_ok = if j < freqs.len() {
        freqs[j]
    } else {
        expected
    };
    (min_ok, max_ok)
}

/// Whether a policy asked for `expected` runs where it should not: outside
/// the bounds of `verify_bounds_spec`.
pub open spec fn freq_mismatch_spec(freqs: Seq<u32>, expected: u32, actual: u32) -> bool {
    let (lo, hi) = verify_bounds_spec(freqs, expected);
    actual < lo || actual > hi
}

/// Decides `freq_mismatch_spec`.
pub fn freq_mismatch(freqs: &Vec<u32>, expected: u32, actual: u32) -> (r: bool)
    ensures
        r == freq_mismatch_spec(freqs@, expected, actual),
{
    let (lo, hi) = verify_bounds(freqs, expected);
    actual < lo || actual > hi
}

} // verus!

verus! {

/// On a sorted table that lists `expected`, a policy is out of place exactly
/// when it does not run at `expected`.
pub proof fn law_verify_exact_when_listed(freqs: Seq<u32>, expected: u32, actual: u32)
    requires
        strictly_increasing(freqs),
        freqs.contains(expected),
    ensures
        freq_mismatch_spec(freqs, expected, actual) == (actual != expected),
{
    let k = choose|k: int| 0 <= k < freqs.len() && freqs[k] == expected;
    assert forall|j: int| 0 <= j < k + 1 implies (|f: u32| f <= expected)(#[trigger] freqs[j]) by {
        if j < k {
            assert(freqs[j] < freqs[k]);
        }
    }
    if k + 1 < freqs.len() {
        assert(freqs[k] < freqs[k + 1]);
    }
    lemma_prefix_len_exact(freqs, |f: u32| f <= expected, k + 1);
    assert forall|j: int| 0 <= j < k implies (|f: u32| f < expected)(#[trigger] freqs[j]) by {
        assert(freqs[j] < freqs[k]);
    }
    lemma_prefix_len_exact(freqs, |f: u32| f < expected, k);
}

/// The frequency state of one cpufreq policy under FAS.
#[derive(Debug, Clone)]
pub struct PolicyState {
    /// The table of frequencies, ascending.
    pub available_freqs: Vec<u32>,
    /// The frequency last locked.
    pub current_freq: u32,
    pub policy_id: usize,
    /// Frames during which a new frequency is not chosen.
    pub freq_hold_frames: u32,
    /// The frequency to check at the next verification.
    pub verify_freq: Option<u32>,
    /// Whether writes to this policy are suppressed.
    pub ignore_write: bool,
}

impl PolicyState {
    /// A policy that runs at `current_freq`.
    pub fn new(available_freqs: Vec<u32>, policy_id: usize, current_freq: u32) -> (r: Self)
        ensures
            r.available_freqs@ == available_freqs@,
            r.current_freq == current_freq,
            r.policy_id == policy_id,
            r.freq_hold_frames == 0,
            r.verify_freq is None,
            !r.ignore_write,
    {
        PolicyState {
            available_freqs,
            current_freq,
            policy_id,
            freq_hold_frames: 0,
            verify_freq: None,
            ignore_write: false,
        }
    }

    /// Locks the policy at `target` (minimum = maximum) and holds it for two
    /// frames; returns the writes, or none when writes are suppressed.
    pub fn apply_freq_locked(&mut self, target: u32) -> (r: Vec<FreqWrite>)
        ensures
            old(self).ignore_write ==> r@ == Seq::<FreqWrite>::empty() && *final(self) == *old(
                self,
            ),
            !old(self).ignore_write ==> {
                &&& r@ == lock_plan(old(self).current_freq, target)
                &&& *final(self) == (PolicyState {
                    current_freq: target,
                    freq_hold_frames: 2,
                    ..*old(self)
                })
            },
    {
        if self.ignore_write {
            return Vec::new();
        }
        let r = locked_writes(self.current_freq, target);
        self.current_freq = target;
        self.freq_hold_frames = 2;
        r
    }

    /// The verification step after writing `write_freq`: when a check is
    /// due and the frequency read back (`actual`) lies outside the bounds of
    /// the frequency asked for last time, returns the writes that restore
    /// `write_freq`; in all cases `write_freq` becomes the frequency to check
    /// next.
    pub fn verify(&mut self, write_freq: u32, due: bool, actual: Option<u32>) -> (r: Option<
        Vec<FreqWrite>,
    >)
        ensures
            *final(self) == (PolicyState { verify_freq: Some(write_freq), ..*old(self) }),
            match (old(self).verify_freq, actual) {
                (Some(e), Some(a)) => if due && freq_mismatch_spec(
                    old(self).available_freqs@,
                    e,
                    a,
                ) {
                    (r matches Some(w) && w@ == lock_plan(a, write_freq))
                } else {
                    r is None
                },
                _ => r is None,
            },
    {
        let mut r: Option<Vec<FreqWrite>> = None;
        if due {
            if let Some(expected) = self.verify_freq {
                if let Some(a) = actual {
                    if freq_mismatch(&self.available_freqs, expected, a) {
                        r = Some(locked_writes(a, write_freq));
                    }
                }
            }
        }
        self.verify_freq = Some(write_freq);
        r
    }

    /// Whether the verification would compare a read-back frequency.
    pub fn expects_verification(&self) -> (r: bool)
        ensures
            r == self.verify_freq is Some,
    {
        self.verify_freq.is_some()
    }

    /// Relaxed write: minimum at the lowest table frequency, maximum at
    /// `target`; returns the writes, or none when writes are suppressed.
    pub fn apply_freq_relaxed(&mut self, target: u32) -> (r: Vec<FreqWrite>)
        requires
            old(self).available_freqs@.len() > 0,
        ensures
            old(self).ignore_write ==> r@ == Seq::<FreqWrite>::empty() && *final(self) == *old(
                self,
            ),
            !old(self).ignore_write ==> {
                &&& r@ == seq![
                    FreqWrite { node: FreqNode::Min, value: old(self).available_freqs@[0] },
                    FreqWrite { node: FreqNode::Max, value: target },
                ]
                &&& *final(self) == (PolicyState {
                    current_freq: target,
                    freq_hold_frames: 2,
                    ..*old(self)
                })
            },
    {
        if self.ignore_write {
            return Vec::new();
        }
        let mut r: Vec<FreqWrite> = Vec::new();
        r.push(FreqWrite { node: FreqNode::Min, value: self.available_freqs[0] });
        r.push(FreqWrite { node: FreqNode::Max, value: target });
        self.current_freq = target;
        self.freq_hold_frames = 2;
        assert(r@ =~= seq![
            FreqWrite { node: FreqNode::Min, value: old(self).available_freqs@[0] },
            FreqWrite { node: FreqNode::Max, value: target },
        ]);
        r
    }

    /// The writes that restore the current frequency after an outside
    /// change (minimum first), or `None` when writes are suppressed.
    pub fn force_reapply(&self) -> (r: Option<Vec<FreqWrite>>)
        ensures
            self.ignore_write ==> r is None,
            !self.ignore_write ==> (r matches Some(w) && w@ == seq![
                FreqWrite { node: FreqNode::Min, value: self.current_freq },
                FreqWrite { node: FreqNode::Max, value: self.current_freq },
            ]),
    {
        if self.ignore_write {
            return None;
        }
        let mut r: Vec<FreqWrite> = Vec::new();
        r.push(FreqWrite { node: FreqNode::Min, value: self.current_freq });
        r.push(FreqWrite { node: FreqNode::Max, value: self.current_freq });
        assert(r@ =~= seq![
            FreqWrite { node: FreqNode::Min, value: self.current_freq },
            FreqWrite { node: FreqNode::Max, value: self.current_freq },
        ]);
        Some(r)
    }

    /// Gives the policy its whole range back: maximum at the highest table
    /// frequency, minimum at the lowest.
    pub fn reset(&mut self) -> (r: Vec<FreqWrite>)
        requires
            old(self).available_freqs@.len() > 0,
        ensures
            r@ == seq![
                FreqWrite { node: FreqNode::Max, value: old(self).available_freqs@.last() },
                FreqWrite { node: FreqNode::Min, value: old(self).available_freqs@[0] },
            ],
            *final(self) == (PolicyState {
                current_freq: old(self).available_freqs@.last(),
                verify_freq: None,
                ..*old(self)
            }),
    {
        let n = self.available_freqs.len();
        let min_f = self.available_freqs[0];
        let max_f = self.available_freqs[n - 1];
        let mut r: Vec<FreqWrite> = Vec::new();
        r.push(FreqWrite { node: FreqNode::Max, value: max_f });
        r.push(FreqWrite { node: FreqNode::Min, value: min_f });
        self.current_freq = max_f;
        self.verify_freq = None;
        assert(r@ =~= seq![
            FreqWrite { node: FreqNode::Max, value: old(self).available_freqs@.last() },
            FreqWrite { node: FreqNode::Min, value: old(self).available_freqs@[0] },
        ]);
        r
    }

    /// One frame of the hold countdown: returns whether this frame must
    /// keep the current frequency (a hold is running and no reapplication is
    /// forced); the countdown moves down by one, not below zero.
    pub fn hold_tick(&mut self, force: bool) -> (skip: bool)
        ensures
            skip == (old(self).freq_hold_frames > 0 && !force),
            final(self).freq_hold_frames == if old(self).freq_hold_frames > 0 {
                (old(self).freq_hold_frames - 1) as u32
            } else {
                0
            },
            *final(self) == (PolicyState {
                freq_hold_frames: final(self).freq_hold_frames,
                ..*old(self)
            }),
    {
        if self.freq_hold_frames > 0 && !force {
            self.freq_hold_frames = self.freq_hold_frames - 1;
            return true;
        }
        self.freq_hold_frames = self.freq_hold_frames.saturating_sub(1);
        false
    }
}

/// The value a sysfs writer wrote last, used to skip repeated writes.
#[derive(Debug, Clone, Copy, PartialEq, Eq)]
pub struct FreqWriteCache {
    pub last_value: Option<u32>,
}

impl FreqWriteCache {
    /// A cache that remembers nothing.
    pub fn new() -> (r: Self)
        ensures
            r.last_value is None,
    {
        FreqWriteCache { last_value: None }
    }

    /// Whether writing `value` is needed (it is not what was written last).
    pub fn needs_write(&self, value: u32) -> (r: bool)
        ensures
            r == cache_needs_write(*self, value),
    {
        match self.last_value {
            Some(v) => v != value,
            None => true,
        }
    }

    /// Records the outcome of writing `value`: a successful write is
    /// remembered; a failed one is not, so that it is retried.
    pub fn record_write(&mut self, value: u32, ok: bool)
        ensures
            *final(self) == cache_after_write(*old(self), value, ok),
    {
        if ok {
            self.last_value = Some(value);
        }
    }

    /// Forgets the last value, so that the next write happens.
    pub fn invalidate(&mut self)
        ensures
            final(self).last_value is None,
    {
        self.last_value = None;
    }
}

/// Whether a writer with cache `c` must write `v`.
pub open spec fn cache_needs_write(c: FreqWriteCache, v: u32) -> bool {
    c.last_value != Some(v)
}

/// The cache after an attempt to write `v`.
pub open spec fn cache_after_write(c: FreqWriteCache, v: u32, ok: bool) -> FreqWriteCache {
    if ok {
        FreqWriteCache { last_value: Some(v) }
    } else {
        c
    }
}

/// After a successful write of `v`, writing `v` again is skipped; after a
/// failed write, it is still needed; after invalidation every write is
/// needed.
pub proof fn law_write_cache_dedup(c: FreqWriteCache, v: u32, w: u32)
    ensures
        !cache_needs_write(cache_after_write(c, v, true), v),
        cache_needs_write(c, v) ==> cache_needs_write(cache_after_write(c, v, false), v),
        cache_needs_write(FreqWriteCache { last_value: None }, w),
{
}

/// The node `node` of cpufreq policy `policy`:
/// `/sys/devices/system/cpu/cpufreq/policy{policy}/{node}`.
pub open spec fn policy_node_spec(policy: int, node: Seq<char>) -> Seq<char> {
    "/sys/devices/system/cpu/cpufreq/policy"@ + signed_decimal(policy) + seq!['/'] + node
}

/// Computes `policy_node_spec`.
pub fn policy_node_path(policy: i32, node: &str) -> (r: String)
    ensures
        r@ == policy_node_spec(policy as int, node@),
{
    let mut out = chars_of("/sys/devices/system/cpu/cpufreq/policy");
    let mut num = i32_decimal_chars(policy);
    let mut rest = chars_of(node);
    out.append(&mut num);
    out.push('/');
    out.append(&mut rest);
    string_from_chars(out.as_slice())
}

/// The capacity that cluster weights are measured against: the smallest
/// probed capacity, or none when nothing was probed or some cluster reports
/// a capacity of zero (then no weights are derived).
pub open spec fn capacity_reference_spec(caps: Seq<u32>) -> Option<u32> {
    if caps.len() == 0 || exists|i: int| 0 <= i < caps.len() && caps[i] == 0 {
        None
    } else {
        Some(caps[min_index(caps, caps.len() as int)])
    }
}

/// The position of the first smallest of the first `n` values.
pub open spec fn min_index(caps: Seq<u32>, n: int) -> int
    decreases n,
{
    if n <= 1 {
        0
    } else {
        let m = min_index(caps, n - 1);
        if caps[n - 1] < caps[m] {
            n - 1
        } else {
            m
        }
    }
}

/// Computes `capacity_reference_spec`; the result, when there is one, is no
/// larger than any capacity and is one of them.
pub fn capacity_reference(caps: &Vec<u32>) -> (r: Option<u32>)
    ensures
        r == capacity_reference_spec(caps@),
        r matches Some(m) ==> (forall|i: int| 0 <= i < caps@.len() ==> m <= #[trigger] caps@[i])
            && caps@.contains(m),
{
    if caps.len() == 0 {
        return None;
    }
    let mut m: usize = 0;
    let mut i: usize = 0;
    while i < caps.len()
        invariant
            i <= caps@.len(),
            caps@.len() > 0,
            forall|j: int| 0 <= j < i ==> caps@[j] != 0,
            i > 0 ==> m == min_index(caps@, i as int),
            i == 0 ==> m == 0,
            m < caps@.len(),
            forall|j: int| 0 <= j < i ==> caps@[m as int] <= #[trigger] caps@[j],
        decreases caps@.len() - i,
    {
        if caps[i] == 0 {
            return None;
        }
        if i > 0 && caps[i] < caps[m] {
            m = i;
        }
        i += 1;
    }
    assert(caps@.contains(caps@[m as int]));
    Some(caps[m])
}

} // verus!
