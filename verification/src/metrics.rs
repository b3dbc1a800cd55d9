//! Derived metrics: bandwidth, bandwidth loss, and error summaries read
//! from one counter record.
//!
//! Bandwidth is kept in thousandths of a gigabit per second, computed in
//! exact integer arithmetic.  Outside Delta mode the time divisor is one
//! by design: the figure is a comparable volume, not a rate.

use vstd::prelude::*;

use crate::app::CounterMode;
use crate::counters::{spec_get_or, CounterRecord};

verus! {

/// The counter names summed into the error column.
pub open spec fn spec_error_counters() -> Seq<Seq<char>> {
    seq![
        "symbol_errors"@,
        "link_recovers"@,
        "link_downed"@,
        "rcv_errors"@,
        "phys_rcv_errors"@,
        "switch_rel_errors"@,
        "excess_overrun_errors"@,
        "vl15dropped"@,
        "qp1_drops"@,
    ]
}

/// The error-counter names, in the order they are summed and listed.
pub fn error_counters() -> (v: Vec<&'static str>)
    ensures
        v@.len() == spec_error_counters().len(),
        forall|i: int| 0 <= i < v@.len() ==> v@[i]@ == spec_error_counters()[i],
{
    let mut v: Vec<&'static str> = Vec::new();
    v.push("symbol_errors");
    v.push("link_recovers");
    v.push("link_downed");
    v.push("rcv_errors");
    v.push("phys_rcv_errors");
    v.push("switch_rel_errors");
    v.push("excess_overrun_errors");
    v.push("vl15dropped");
    v.push("qp1_drops");
    v
}

/// The divisor applied to a bandwidth figure: in Delta mode the sample's
/// end timestamp in nanoseconds (so the figure becomes a rate), otherwise
/// one second's worth of nanoseconds (so the scaling alone remains).
pub open spec fn spec_time_den(m: Map<Seq<char>, u64>, mode: CounterMode) -> int {
    if mode is Delta {
        let ts = spec_get_or(m, "end_timestamp"@, 1);
        if ts == 0 {
            1
        } else {
            ts as int
        }
    } else {
        1_000_000_000
    }
}

/// Bandwidth in milli-gigabits per second: the byte counter times four
/// lanes times eight bits, against the mode's time divisor.
pub open spec fn spec_bw_milli(m: Map<Seq<char>, u64>, key: Seq<char>, mode: CounterMode) -> int {
    if m.contains_key(key) {
        32000 * m[key] / spec_time_den(m, mode)
    } else {
        0
    }
}

/// Bandwidth lost to transmit waits, in milli-gigabits per second: the
/// wait counter times sixty-four, against the mode's time divisor.
pub open spec fn spec_bw_loss_milli(
    m: Map<Seq<char>, u64>,
    key: Seq<char>,
    mode: CounterMode,
) -> int {
    if m.contains_key(key) {
        64000 * m[key] / spec_time_den(m, mode)
    } else {
        0
    }
}

/// The sum of the given counters, counters absent from the record
/// counting as zero.
pub open spec fn spec_sum_counters(m: Map<Seq<char>, u64>, keys: Seq<Seq<char>>) -> int
    decreases keys.len(),
{
    if keys.len() == 0 {
        0
    } else {
        spec_sum_counters(m, keys.drop_last()) + spec_get_or(m, keys.last(), 0)
    }
}

pub open spec fn spec_count_errors(m: Map<Seq<char>, u64>) -> int {
    spec_sum_counters(m, spec_error_counters())
}

/// The names of the error counters with a value above zero, joined with
/// commas in their listed order.
pub open spec fn spec_error_strings_of(m: Map<Seq<char>, u64>, keys: Seq<Seq<char>>) -> Seq<char>
    decreases keys.len(),
{
    if keys.len() == 0 {
        Seq::empty()
    } else {
        let rest = spec_error_strings_of(m, keys.drop_last());
        let k = keys.last();
        if m.contains_key(k) && m[k] > 0 {
            if rest.len() == 0 {
                k
            } else {
                rest + ","@ + k
            }
        } else {
            rest
        }
    }
}

pub open spec fn spec_error_strings(m: Map<Seq<char>, u64>) -> Seq<char> {
    spec_error_strings_of(m, spec_error_counters())
}

fn time_den(perfcounters: &CounterRecord, counter_mode: &CounterMode) -> (den: u64)
    requires
        perfcounters.wf(),
    ensures
        den as int == spec_time_den(perfcounters@, *counter_mode),
        den > 0,
{
    match counter_mode {
        CounterMode::Delta => {
            let ts = perfcounters.get_or("end_timestamp", 1);
            if ts == 0 {
                1
            } else {
                ts
            }
        },
        _ => 1_000_000_000,
    }
}

/// Receive or send bandwidth in milli-gigabits per second, read from one
/// counter of the record.
pub fn get_bw(perfcounters: &CounterRecord, counter: &str, counter_mode: &CounterMode) -> (r:
    u128)
    requires
        perfcounters.wf(),
    ensures
        r as int == spec_bw_milli(perfcounters@, counter@, *counter_mode),
{
    let den = time_den(perfcounters, counter_mode);
    match perfcounters.get(counter) {
        Some(val) => (val as u128 * 32000) / (den as u128),
        None => 0,
    }
}

/// Bandwidth loss in milli-gigabits per second, read from one counter of
/// the record.
pub fn get_bw_loss(perfcounters: &CounterRecord, counter: &str, counter_mode: &CounterMode) -> (r:
    u128)
    requires
        perfcounters.wf(),
    ensures
        r as int == spec_bw_loss_milli(perfcounters@, counter@, *counter_mode),
{
    let den = time_den(perfcounters, counter_mode);
    match perfcounters.get(counter) {
        Some(val) => (val as u128 * 64000) / (den as u128),
        None => 0,
    }
}

/// Sums all error counters of the record.
pub fn count_errors(perfcounters: &CounterRecord) -> (r: u128)
    requires
        perfcounters.wf(),
    ensures
        r as int == spec_count_errors(perfcounters@),
{
    let keys = error_counters();
    let n = keys.len();
    let mut sum: u128 = 0;
    let mut i: usize = 0;
    while i < n
        invariant
            perfcounters.wf(),
            n == keys@.len(),
            i <= n,
            keys@.len() == spec_error_counters().len(),
            forall|j: int| 0 <= j < n ==> keys@[j]@ == spec_error_counters()[j],
            sum as int == spec_sum_counters(perfcounters@, spec_error_counters().take(i as int)),
            sum <= i * 0xffff_ffff_ffff_ffff,
        decreases n - i,
    {
        let v = perfcounters.get_or(keys[i], 0);
        proof {
            let pre = spec_error_counters().take(i as int);
            assert(spec_error_counters().take(i + 1).drop_last() =~= pre);
            assert(spec_error_counters().take(i + 1).last() == spec_error_counters()[i as int]);
        }
        sum = sum + v as u128;
        i += 1;
    }
    proof {
        assert(spec_error_counters().take(n as int) =~= spec_error_counters());
    }
    sum
}

/// The comma-joined names of the error counters with a value above zero.
pub fn get_error_strings(perfcounters: &CounterRecord) -> (r: String)
    requires
        perfcounters.wf(),
    ensures
        r@ == spec_error_strings(perfcounters@),
{
    let keys = error_counters();
    let n = keys.len();
    let mut out = String::new();
    let mut i: usize = 0;
    while i < n
        invariant
            perfcounters.wf(),
            n == keys@.len(),
            keys@.len() == spec_error_counters().len(),
            i <= n,
            forall|j: int| 0 <= j < n ==> keys@[j]@ == spec_error_counters()[j],
            out@ == spec_error_strings_of(perfcounters@, spec_error_counters().take(i as int)),
        decreases n - i,
    {
        proof {
            let pre = spec_error_counters().take(i as int);
            assert(spec_error_counters().take(i + 1).drop_last() =~= pre);
            assert(spec_error_counters().take(i + 1).last() == spec_error_counters()[i as int]);
        }
        match perfcounters.get(keys[i]) {
            Some(v) => {
                if v > 0 {
                    if out.as_str().is_empty() {
                        out.append(keys[i]);
                    } else {
                        let ghost before = out@;
                        out.append(",");
                        out.append(keys[i]);
                        proof {
                            assert(out@ =~= before + ","@ + keys@[i as int]@);
                        }
                    }
                }
            },
            None => {},
        }
        i += 1;
    }
    proof {
        assert(spec_error_counters().take(n as int) =~= spec_error_counters());
    }
    out
}

} // verus!
