//! The scheduler's rules: its configuration, retry backoff, source
//! registration, digests, and the reading of upstream bridge openings.

use vstd::prelude::*;

use crate::dto::BridgeStateDto;
use crate::location::LocationSearchError;
use crate::preferences::PreferencesError;
use crate::text::{concat, owned, str_eq, trim_chars, trim_seq};

verus! {

/// The longest span a `std::time::Duration` holds, in nanoseconds.
pub const MAX_SPAN_NANOS: u128 = 18_446_744_073_709_551_615_999_999_999;

/// A span of time with nanosecond resolution, bounded as
/// `std::time::Duration` is.
#[derive(Clone, Copy, Debug, PartialEq, Eq, PartialOrd, Ord, Hash)]
pub struct TimeSpan {
    nanos: u128,
}

impl TimeSpan {
    #[verifier::type_invariant]
    spec fn bounded(self) -> bool {
        self.nanos <= MAX_SPAN_NANOS
    }

    /// The span in nanoseconds.
    pub closed spec fn nanos_spec(self) -> nat {
        self.nanos as nat
    }

    pub fn from_secs(secs: u64) -> (d: TimeSpan)
        ensures
            d.nanos_spec() == secs * 1_000_000_000,
    {
        TimeSpan { nanos: (secs as u128) * 1_000_000_000 }
    }

    pub fn from_millis(millis: u64) -> (d: TimeSpan)
        ensures
            d.nanos_spec() == millis * 1_000_000,
    {
        TimeSpan { nanos: (millis as u128) * 1_000_000 }
    }

    /// The span of `nanos` nanoseconds, when a `Duration` can hold it.
    pub fn from_nanos(nanos: u128) -> (d: Option<TimeSpan>)
        ensures
            nanos <= MAX_SPAN_NANOS ==> d is Some && d.unwrap().nanos_spec() == nanos,
            nanos > MAX_SPAN_NANOS ==> d is None,
    {
        if nanos <= MAX_SPAN_NANOS {
            Some(TimeSpan { nanos })
        } else {
            None
        }
    }

    pub fn as_nanos(&self) -> (n: u128)
        ensures
            n == self.nanos_spec(),
            n <= MAX_SPAN_NANOS,
    {
        proof {
            use_type_invariant(self);
        }
        self.nanos
    }

    pub fn is_zero(&self) -> (r: bool)
        ensures
            r == (self.nanos_spec() == 0),
    {
        self.nanos == 0
    }

    /// `self × factor`, or the longest span when that overflows.
    pub fn saturating_mul(&self, factor: u32) -> (d: TimeSpan)
        ensures
            d.nanos_spec() == if self.nanos_spec() * factor <= MAX_SPAN_NANOS {
                (self.nanos_spec() * factor) as int
            } else {
                MAX_SPAN_NANOS as int
            },
    {
        proof {
            use_type_invariant(self);
            assert(self.nanos * factor <= MAX_SPAN_NANOS * 0x1_0000_0000) by (nonlinear_arith)
                requires
                    self.nanos <= MAX_SPAN_NANOS,
                    factor <= 0xffff_ffff;
        }
        let product = self.nanos * (factor as u128);
        if product <= MAX_SPAN_NANOS {
            TimeSpan { nanos: product }
        } else {
            TimeSpan { nanos: MAX_SPAN_NANOS }
        }
    }

    /// The shorter of two spans.
    pub fn min(self, other: TimeSpan) -> (d: TimeSpan)
        ensures
            d.nanos_spec() == if self.nanos_spec() <= other.nanos_spec() {
                self.nanos_spec()
            } else {
                other.nanos_spec()
            },
    {
        if self.nanos <= other.nanos {
            self
        } else {
            other
        }
    }

    /// Whether `self` is shorter than `other`.
    pub fn shorter_than(&self, other: &TimeSpan) -> (r: bool)
        ensures
            r == (self.nanos_spec() < other.nanos_spec()),
    {
        self.nanos < other.nanos
    }
}

/// Why the runtime refused to start or to change its state.
#[derive(Clone, Debug, PartialEq, Eq)]
pub enum RuntimeError {
    Preferences(PreferencesError),
    LocationSearch(LocationSearchError),
    Configuration(String),
    Normalization(String),
    Time(String),
    ShuttingDown,
}

/// How the scheduler polls and backs off.
#[derive(Clone, Debug)]
pub struct RuntimeConfig {
    pub user_agent: String,
    pub poll_interval: TimeSpan,
    pub collector_timeout: TimeSpan,
    pub max_concurrent_collectors: usize,
    pub backoff_initial: TimeSpan,
    pub backoff_max: TimeSpan,
}

impl Default for RuntimeConfig {
    fn default() -> (c: Self)
        ensures
            c.user_agent@ == "BrickellStatus/0.1 (+https://github.com/cmiami/BrickellStatus)"@,
            c.poll_interval.nanos_spec() == 15_000_000_000,
            c.collector_timeout.nanos_spec() == 20_000_000_000,
            c.max_concurrent_collectors == 4,
            c.backoff_initial.nanos_spec() == 15_000_000_000,
            c.backoff_max.nanos_spec() == 900_000_000_000,
    {
        RuntimeConfig {
            user_agent: owned("BrickellStatus/0.1 (+https://github.com/cmiami/BrickellStatus)"),
            poll_interval: TimeSpan::from_secs(15),
            collector_timeout: TimeSpan::from_secs(20),
            max_concurrent_collectors: 4,
            backoff_initial: TimeSpan::from_secs(15),
            backoff_max: TimeSpan::from_secs(15 * 60),
        }
    }
}

impl RuntimeConfig {
    /// The rules a configuration meets: a User-Agent with text in it, nonzero
    /// poll, timeout and initial backoff, a ceiling no shorter than the first
    /// backoff, and one to thirty-two concurrent collectors.
    pub open spec fn valid(&self) -> bool {
        &&& trim_seq(self.user_agent@).len() > 0
        &&& self.poll_interval.nanos_spec() > 0
        &&& self.collector_timeout.nanos_spec() > 0
        &&& self.backoff_initial.nanos_spec() > 0
        &&& self.backoff_max.nanos_spec() >= self.backoff_initial.nanos_spec()
        &&& 1 <= self.max_concurrent_collectors <= 32
    }

    pub fn validate(&self) -> (r: Result<(), RuntimeError>)
        ensures
            r is Ok <==> self.valid(),
            r is Err ==> r->Err_0 is Configuration,
    {
        let agent = trim_chars(self.user_agent.as_str());
        if agent.len() == 0 {
            return Err(RuntimeError::Configuration(owned("runtime User-Agent cannot be empty")));
        }
        if self.poll_interval.is_zero() || self.collector_timeout.is_zero() || self.backoff_initial.is_zero()
            || self.backoff_max.shorter_than(&self.backoff_initial) {
            return Err(RuntimeError::Configuration(owned("poll, timeout, and backoff durations are invalid")));
        }
        if self.max_concurrent_collectors < 1 || self.max_concurrent_collectors > 32 {
            return Err(RuntimeError::Configuration(owned("max_concurrent_collectors must be between 1 and 32")));
        }
        Ok(())
    }
}

/// `2^n`.
pub open spec fn pow2(n: nat) -> nat
    decreases n,
{
    if n == 0 {
        1
    } else {
        2 * pow2((n - 1) as nat)
    }
}

/// The doubling exponent after `failures` consecutive failures: none after
/// the first, and never more than twenty doublings.
pub open spec fn backoff_exponent(failures: nat) -> nat {
    if failures <= 1 {
        0
    } else if failures - 1 >= 20 {
        20
    } else {
        (failures - 1) as nat
    }
}

/// The wait, in nanoseconds, after `failures` consecutive failures: the
/// initial backoff doubled per failure after the first, held to the ceiling.
pub open spec fn backoff_nanos(initial: nat, maximum: nat, failures: nat) -> nat {
    let grown = initial * pow2(backoff_exponent(failures));
    let saturated = if grown <= MAX_SPAN_NANOS { grown } else { MAX_SPAN_NANOS as nat };
    if saturated <= maximum {
        saturated
    } else {
        maximum
    }
}

proof fn lemma_pow2_monotone(a: nat, b: nat)
    requires
        a <= b,
    ensures
        1 <= pow2(a) <= pow2(b),
    decreases b,
{
    if b > 0 && a < b {
        lemma_pow2_monotone(a, (b - 1) as nat);
    } else if b > 0 {
        lemma_pow2_monotone(0, (b - 1) as nat);
    }
}

fn shift_pow2(e: u32) -> (r: u32)
    requires
        e <= 20,
    ensures
        r == pow2(e as nat),
{
    let mut r: u32 = 1;
    let mut i: u32 = 0;
    while i < e
        invariant
            i <= e <= 20,
            r == pow2(i as nat),
            r <= 0x10_0000,
        decreases e - i,
    {
        proof {
            lemma_pow2_monotone(i as nat + 1, 20);
            assert(pow2(20) == 0x10_0000) by {
                reveal_with_fuel(pow2, 21);
            }
        }
        r = r * 2;
        i = i + 1;
    }
    r
}

/// How long a source waits after `failures` consecutive failures.
pub fn backoff_for(config: &RuntimeConfig, failures: u32) -> (d: TimeSpan)
    ensures
        d.nanos_spec() == backoff_nanos(config.backoff_initial.nanos_spec(), config.backoff_max.nanos_spec(), failures as nat),
{
    let below = if failures >= 1 { failures - 1 } else { 0 };
    let exponent = if below >= 20 { 20 } else { below };
    config.backoff_initial.saturating_mul(shift_pow2(exponent)).min(config.backoff_max)
}

/// The backoff never exceeds its ceiling, and never shrinks as failures
/// accumulate.
pub proof fn lemma_backoff_bounded_and_monotone(initial: nat, maximum: nat, f1: nat, f2: nat)
    requires
        f1 <= f2,
    ensures
        backoff_nanos(initial, maximum, f1) <= maximum,
        backoff_nanos(initial, maximum, f1) <= backoff_nanos(initial, maximum, f2),
{
    let e1 = backoff_exponent(f1);
    let e2 = backoff_exponent(f2);
    lemma_pow2_monotone(e1, e2);
    assert(initial * pow2(e1) <= initial * pow2(e2)) by (nonlinear_arith)
        requires
            pow2(e1) <= pow2(e2);
}

/// The first failure waits exactly the initial backoff when that is under
/// the ceiling, and enough failures reach the ceiling once twenty doublings
/// of the initial backoff pass it.
pub proof fn lemma_backoff_ends(initial: nat, maximum: nat, failures: nat)
    requires
        initial <= maximum,
        maximum <= MAX_SPAN_NANOS,
    ensures
        backoff_nanos(initial, maximum, 1) == initial,
        failures >= 21 && initial * pow2(20) >= maximum ==> backoff_nanos(initial, maximum, failures) == maximum,
{
    assert(pow2(0) == 1);
    assert(initial * pow2(0) == initial);
}

/// A span as whole milliseconds, held to `i64::MAX`.
pub fn duration_millis(duration: TimeSpan) -> (ms: i64)
    ensures
        ms == if duration.nanos_spec() / 1_000_000 <= i64::MAX { duration.nanos_spec() / 1_000_000 } else { i64::MAX as nat },
{
    let millis = duration.as_nanos() / 1_000_000;
    if millis <= 0x7fff_ffff_ffff_ffff {
        millis as i64
    } else {
        i64::MAX
    }
}

/// The lowercase hexadecimal digit for `n < 16`.
pub open spec fn hex_char(n: int) -> char {
    if n < 10 {
        (('0' as int) + n) as char
    } else {
        (('a' as int) + n - 10) as char
    }
}

/// Each byte as two lowercase hexadecimal digits, in order.
pub open spec fn hex_text(bytes: Seq<u8>) -> Seq<char>
    decreases bytes.len(),
{
    if bytes.len() == 0 {
        Seq::empty()
    } else {
        hex_text(bytes.drop_last()).push(hex_char(bytes.last() as int / 16)).push(hex_char(bytes.last() as int % 16))
    }
}

fn hex_digit(n: u8) -> (c: char)
    requires
        n < 16,
    ensures
        c == hex_char(n as int),
{
    match n {
        0 => '0',
        1 => '1',
        2 => '2',
        3 => '3',
        4 => '4',
        5 => '5',
        6 => '6',
        7 => '7',
        8 => '8',
        9 => '9',
        10 => 'a',
        11 => 'b',
        12 => 'c',
        13 => 'd',
        14 => 'e',
        _ => 'f',
    }
}

/// `bytes` as lowercase hexadecimal.
pub fn hex_digest(bytes: &[u8]) -> (r: String)
    ensures
        r@ == hex_text(bytes@),
        r@.len() == 2 * bytes@.len(),
{
    let mut out = String::new();
    let mut i: usize = 0;
    while i < bytes.len()
        invariant
            i <= bytes@.len(),
            out@ == hex_text(bytes@.take(i as int)),
            out@.len() == 2 * i,
        decreases bytes@.len() - i,
    {
        let b = bytes[i];
        proof {
            assert(bytes@.take(i + 1).drop_last() == bytes@.take(i as int));
            assert(bytes@.take(i + 1).last() == b);
        }
        crate::text::push_char(&mut out, hex_digit(b / 16));
        crate::text::push_char(&mut out, hex_digit(b % 16));
        i = i + 1;
    }
    proof {
        assert(bytes@.take(bytes@.len() as int) == bytes@);
    }
    out
}

/// Position of an upstream bascule in the river, counting upstream from the
/// target bridge.
pub open spec fn upstream_rank_spec(key: Seq<char>) -> Option<u8> {
    if key == "sw_2_ave"@ { Some(1u8) }
    else if key == "sw_1_st"@ { Some(2u8) }
    else if key == "w_flagler"@ { Some(3u8) }
    else if key == "nw_5_st"@ { Some(4u8) }
    else if key == "nw_12_ave"@ { Some(5u8) }
    else if key == "nw_17_ave"@ { Some(6u8) }
    else if key == "nw_22_ave"@ { Some(7u8) }
    else if key == "nw_27_ave"@ { Some(8u8) }
    else { None }
}

pub fn upstream_rank(bridge_key: &str) -> (r: Option<u8>)
    ensures
        r == upstream_rank_spec(bridge_key@),
{
    if str_eq(bridge_key, "sw_2_ave") { Some(1) }
    else if str_eq(bridge_key, "sw_1_st") { Some(2) }
    else if str_eq(bridge_key, "w_flagler") { Some(3) }
    else if str_eq(bridge_key, "nw_5_st") { Some(4) }
    else if str_eq(bridge_key, "nw_12_ave") { Some(5) }
    else if str_eq(bridge_key, "nw_17_ave") { Some(6) }
    else if str_eq(bridge_key, "nw_22_ave") { Some(7) }
    else if str_eq(bridge_key, "nw_27_ave") { Some(8) }
    else { None }
}

/// The river distance from an upstream bascule down to the target bridge,
/// in whole metres.
pub open spec fn upstream_distance_spec(key: Seq<char>) -> Option<u32> {
    if key == "sw_2_ave"@ { Some(759u32) }
    else if key == "sw_1_st"@ { Some(1112u32) }
    else if key == "w_flagler"@ { Some(1223u32) }
    else if key == "nw_5_st"@ { Some(1932u32) }
    else if key == "nw_12_ave"@ { Some(2845u32) }
    else if key == "nw_17_ave"@ { Some(3744u32) }
    else if key == "nw_22_ave"@ { Some(4611u32) }
    else if key == "nw_27_ave"@ { Some(5574u32) }
    else { None }
}

pub fn upstream_distance_meters(bridge_key: &str) -> (r: Option<u32>)
    ensures
        r == upstream_distance_spec(bridge_key@),
{
    if str_eq(bridge_key, "sw_2_ave") { Some(759) }
    else if str_eq(bridge_key, "sw_1_st") { Some(1112) }
    else if str_eq(bridge_key, "w_flagler") { Some(1223) }
    else if str_eq(bridge_key, "nw_5_st") { Some(1932) }
    else if str_eq(bridge_key, "nw_12_ave") { Some(2845) }
    else if str_eq(bridge_key, "nw_17_ave") { Some(3744) }
    else if str_eq(bridge_key, "nw_22_ave") { Some(4611) }
    else if str_eq(bridge_key, "nw_27_ave") { Some(5574) }
    else { None }
}

/// When a vessel that just cleared an upstream bascule could reach the
/// target, in whole minutes: the river distance at six knots, rounded down,
/// to the distance at three knots, rounded up and at least one. A knot is
/// 1852 metres an hour.
pub open spec fn outbound_eta_spec(key: Seq<char>) -> Option<(u16, u16)> {
    match upstream_distance_spec(key) {
        Some(m) => {
            let fastest = (m * 10) / 1852;
            let slowest = (m * 20 + 1851) / 1852;
            Some((fastest as u16, if slowest < 1 { 1u16 } else { slowest as u16 }))
        },
        None => None,
    }
}

pub fn outbound_eta(bridge_key: &str) -> (r: Option<(u16, u16)>)
    ensures
        r == outbound_eta_spec(bridge_key@),
{
    match upstream_distance_meters(bridge_key) {
        Some(m) => {
            let fastest = (m * 10) / 1852;
            let slowest = (m * 20 + 1851) / 1852;
            Some((fastest as u16, if slowest < 1 { 1u16 } else { slowest as u16 }))
        },
        None => None,
    }
}

/// The label, meaning and action shown for a bridge state.
pub open spec fn decision_copy_spec(state: BridgeStateDto) -> (Seq<char>, Seq<char>, Seq<char>) {
    match state {
        BridgeStateDto::Clear => ("Road open"@, "No current predictive evidence points to an opening."@,
            "No opening activity is currently detected."@),
        BridgeStateDto::Likely => ("Opening likely"@, "Current predictive evidence indicates a meaningful opening risk."@,
            "Predictive evidence is above the Likely threshold."@),
        BridgeStateDto::Open => ("Bridge open"@, "Florida 511 reports the span open to marine traffic."@,
            "Florida 511 reports the roadway span open for marine traffic."@),
    }
}

pub fn decision_copy(state: BridgeStateDto) -> (r: (&'static str, &'static str, &'static str))
    ensures
        (r.0@, r.1@, r.2@) == decision_copy_spec(state),
        state == BridgeStateDto::Clear ==> r.0@ == "Road open"@
            && r.1@ == "No current predictive evidence points to an opening."@
            && r.2@ == "No opening activity is currently detected."@,
        state == BridgeStateDto::Likely ==> r.0@ == "Opening likely"@
            && r.1@ == "Current predictive evidence indicates a meaningful opening risk."@
            && r.2@ == "Predictive evidence is above the Likely threshold."@,
        state == BridgeStateDto::Open ==> r.0@ == "Bridge open"@
            && r.1@ == "Florida 511 reports the span open to marine traffic."@
            && r.2@ == "Florida 511 reports the roadway span open for marine traffic."@,
{
    match state {
        BridgeStateDto::Clear => (
            "Road open",
            "No current predictive evidence points to an opening.",
            "No opening activity is currently detected.",
        ),
        BridgeStateDto::Likely => (
            "Opening likely",
            "Current predictive evidence indicates a meaningful opening risk.",
            "Predictive evidence is above the Likely threshold.",
        ),
        BridgeStateDto::Open => (
            "Bridge open",
            "Florida 511 reports the span open to marine traffic.",
            "Florida 511 reports the roadway span open for marine traffic.",
        ),
    }
}

/// The words for a confidence given in basis points.
pub open spec fn confidence_label_spec(basis_points: u16) -> Seq<char> {
    if basis_points <= 2499 {
        "Low estimate"@
    } else if basis_points <= 5799 {
        "Moderate estimate"@
    } else if basis_points <= 8199 {
        "High estimate"@
    } else {
        "Very high estimate"@
    }
}

pub fn confidence_label(basis_points: u16) -> (r: &'static str)
    ensures
        r@ == confidence_label_spec(basis_points),
        basis_points <= 2499 ==> r@ == "Low estimate"@,
        2500 <= basis_points <= 5799 ==> r@ == "Moderate estimate"@,
        5800 <= basis_points <= 8199 ==> r@ == "High estimate"@,
        8200 <= basis_points ==> r@ == "Very high estimate"@,
{
    if basis_points <= 2499 {
        "Low estimate"
    } else if basis_points <= 5799 {
        "Moderate estimate"
    } else if basis_points <= 8199 {
        "High estimate"
    } else {
        "Very high estimate"
    }
}

/// What one refresh cycle did.
#[derive(Clone, Debug, PartialEq, Eq)]
pub struct RefreshReport {
    pub attempted: usize,
    pub succeeded: usize,
    pub failed: usize,
    pub skipped_backoff: usize,
    pub finished_at: String,
}

/// The identifiers a collector is registered under.
#[derive(Clone, Debug, PartialEq, Eq)]
pub struct SourceRegistration {
    pub id: String,
    pub channel_id: String,
}

/// The registrations `regs` as a map from source id to channel id, when every
/// id has text and no source id repeats.
pub open spec fn registrations_valid(regs: Seq<SourceRegistration>) -> bool {
    &&& forall|i: int| 0 <= i < regs.len() ==> trim_seq((#[trigger] regs[i]).id@).len() > 0 && trim_seq(regs[i].channel_id@).len() > 0
    &&& forall|i: int, j: int| 0 <= i < j < regs.len() ==> (#[trigger] regs[i]).id@ != (#[trigger] regs[j]).id@
}

/// Pairs each registered source with the channel it feeds.
#[verifier::loop_isolation(false)]
pub fn active_source_map(registrations: &[SourceRegistration]) -> (r: Result<Vec<(String, String)>, RuntimeError>)
    ensures
        r is Ok <==> registrations_valid(registrations@),
        r is Err ==> r->Err_0 is Configuration,
        r is Ok ==> r->Ok_0@.len() == registrations@.len() && forall|i: int| 0 <= i < registrations@.len()
            ==> (#[trigger] r->Ok_0@[i]).0@ == registrations@[i].id@ && r->Ok_0@[i].1@ == registrations@[i].channel_id@,
{
    let mut out: Vec<(String, String)> = Vec::new();
    let mut i: usize = 0;
    while i < registrations.len()
        invariant
            i <= registrations@.len(),
            out@.len() == i,
            forall|a: int| 0 <= a < i ==> trim_seq((#[trigger] registrations@[a]).id@).len() > 0 && trim_seq(registrations@[a].channel_id@).len() > 0,
            forall|a: int, b: int| 0 <= a < b < i ==> (#[trigger] registrations@[a]).id@ != (#[trigger] registrations@[b]).id@,
            forall|a: int| 0 <= a < i ==> (#[trigger] out@[a]).0@ == registrations@[a].id@ && out@[a].1@ == registrations@[a].channel_id@,
        decreases registrations@.len() - i,
    {
        let reg = &registrations[i];
        if trim_chars(reg.id.as_str()).len() == 0 || trim_chars(reg.channel_id.as_str()).len() == 0 {
            return Err(RuntimeError::Configuration(owned("collector registration ids cannot be empty")));
        }
        let mut k: usize = 0;
        while k < i
            invariant
                k <= i,
                forall|a: int| 0 <= a < k ==> (#[trigger] registrations@[a]).id@ != registrations@[i as int].id@,
            decreases i - k,
        {
            if str_eq(registrations[k].id.as_str(), reg.id.as_str()) {
                return Err(RuntimeError::Configuration(concat("duplicate collector registration ", reg.id.as_str())));
            }
            k = k + 1;
        }
        out.push((owned(reg.id.as_str()), owned(reg.channel_id.as_str())));
        i = i + 1;
    }
    Ok(out)
}

} // verus!
