//! The derived-metrics engine.
//!
//! Rows carry their readings as signed 64-bit integers in milli-units
//! (milli-degrees Celsius, milli-percent, milli-kilometres-per-hour,
//! milli-millimetres, milli-index points), and row times as nanoseconds
//! since the Unix epoch — the resolution the time-series store keeps.
//! The boundary that deserializes store rows converts each reading once,
//! on the way in and out.
//!
//! Apparent temperature follows the Australian Bureau of Meteorology
//! approximation `AT = Ta + 0.33·e − 0.70·ws − 4.00` with the Magnus vapour
//! pressure `e = (rh/100)·6.105·exp(17.27·Ta/(237.7+Ta))`, chosen as the one
//! canonical formula and evaluated in fixed point ([`spec_feels_like`]).
//! It is a single closed formula with no threshold switch between branches.

use vstd::prelude::*;

verus! {

/// One hourly row as the store returns it: mean values of each field over
/// a one-hour window, plus the window timestamp.
#[derive(Clone, Copy, Debug, PartialEq, Eq, Structural)]
pub struct HourRecordFlux {
    /// Nanoseconds since the Unix epoch.
    pub time: i64,
    /// Outdoor temperature, milli-degrees Celsius.
    pub tempc: i64,
    /// Indoor temperature, milli-degrees Celsius.
    pub tempinc: i64,
    /// Outdoor relative humidity, milli-percent.
    pub humidity: i64,
    /// Indoor relative humidity, milli-percent.
    pub humidityin: i64,
    /// Wind speed, milli-kilometres per hour.
    pub windspeedkph: i64,
    /// Wind gust speed, milli-kilometres per hour.
    pub windgustkph: i64,
    /// Wind direction, milli-degrees.
    pub winddir: i64,
    /// Rain rate, milli-millimetres per hour.
    pub rainratemm: i64,
    /// Cumulative rain counter, milli-millimetres.
    pub totalrainmm: i64,
    /// UV index, milli-points.
    pub uv: i64,
    /// Solar radiation, milli-watts per square metre.
    pub solarradiation: i64,
}

/// An hourly row enriched with apparent temperatures, its cumulative rain
/// reading replaced by the per-interval delta.
#[derive(Clone, Copy, Debug, PartialEq, Eq, Structural)]
pub struct HourRecordWithDerivedTypes {
    pub time: i64,
    pub tempc: i64,
    pub tempinc: i64,
    pub humidity: i64,
    pub humidityin: i64,
    pub windspeedkph: i64,
    pub windgustkph: i64,
    pub winddir: i64,
    pub rainratemm: i64,
    /// Rainfall in this interval, milli-millimetres (a delta, not the counter).
    pub totalrainmm: i64,
    pub uv: i64,
    pub solarradiation: i64,
    /// Outdoor apparent temperature, milli-degrees Celsius.
    pub feelslike: i64,
    /// Indoor apparent temperature (zero wind), milli-degrees Celsius.
    pub feelslikein: i64,
}

impl Default for HourRecordFlux {
    /// Zeroed readings at the epoch; solar radiation starts at the
    /// smallest value so any real reading replaces it.
    fn default() -> (r: Self)
        ensures
            r == HourRecordFlux::spec_default(),
    {
        HourRecordFlux {
            time: 0,
            tempc: 0,
            tempinc: 0,
            humidity: 0,
            humidityin: 0,
            windspeedkph: 0,
            windgustkph: 0,
            winddir: 0,
            rainratemm: 0,
            totalrainmm: 0,
            uv: 0,
            solarradiation: i64::MIN,
        }
    }
}

impl HourRecordFlux {
    /// The value [`Default::default`] returns.
    pub open spec fn spec_default() -> HourRecordFlux {
        HourRecordFlux {
            time: 0,
            tempc: 0,
            tempinc: 0,
            humidity: 0,
            humidityin: 0,
            windspeedkph: 0,
            windgustkph: 0,
            winddir: 0,
            rainratemm: 0,
            totalrainmm: 0,
            uv: 0,
            solarradiation: i64::MIN,
        }
    }
}

impl HourRecordWithDerivedTypes {
    /// The raw row's readings carried over; the derived fields start at
    /// the smallest value until the engine fills them.
    pub open spec fn spec_from_raw(raw: HourRecordFlux) -> HourRecordWithDerivedTypes {
        HourRecordWithDerivedTypes {
            time: raw.time,
            tempc: raw.tempc,
            tempinc: raw.tempinc,
            humidity: raw.humidity,
            humidityin: raw.humidityin,
            windspeedkph: raw.windspeedkph,
            windgustkph: raw.windgustkph,
            winddir: raw.winddir,
            rainratemm: raw.rainratemm,
            totalrainmm: raw.totalrainmm,
            uv: raw.uv,
            solarradiation: raw.solarradiation,
            feelslike: i64::MIN,
            feelslikein: i64::MIN,
        }
    }

}

impl From<HourRecordFlux> for HourRecordWithDerivedTypes {
    /// Copies the raw readings into an enriched row, leaving the derived
    /// fields at their sentinel.
    fn from(raw: HourRecordFlux) -> (r: HourRecordWithDerivedTypes) {
        HourRecordWithDerivedTypes {
            time: raw.time,
            tempc: raw.tempc,
            tempinc: raw.tempinc,
            humidity: raw.humidity,
            humidityin: raw.humidityin,
            windspeedkph: raw.windspeedkph,
            windgustkph: raw.windgustkph,
            winddir: raw.winddir,
            rainratemm: raw.rainratemm,
            totalrainmm: raw.totalrainmm,
            uv: raw.uv,
            solarradiation: raw.solarradiation,
            feelslike: i64::MIN,
            feelslikein: i64::MIN,
        }
    }
}

impl vstd::std_specs::convert::FromSpecImpl<HourRecordFlux> for HourRecordWithDerivedTypes {
    open spec fn obeys_from_spec() -> bool {
        true
    }

    open spec fn from_spec(raw: HourRecordFlux) -> Self {
        HourRecordWithDerivedTypes::spec_from_raw(raw)
    }
}

impl Default for HourRecordWithDerivedTypes {
    /// The enrichment of the default raw row: zeroed readings with every
    /// derived field still at its sentinel.
    fn default() -> (r: Self)
        ensures
            r == HourRecordWithDerivedTypes::spec_from_raw(HourRecordFlux::spec_default()),
    {
        HourRecordWithDerivedTypes::from(HourRecordFlux::default())
    }
}

// ---------------------------------------------------------------------------
// Apparent temperature in fixed point.
// ---------------------------------------------------------------------------
/// Fifth-order series for `1000·exp(f/1000)` on one fractional step,
/// `0 <= f < 1000`.
pub open spec fn taylor_exp_milli(f: int) -> int {
    1000 + f + f * f / 2000 + f * f * f / 6_000_000 + f * f * f * f / 24_000_000_000 + f * f * f * f
        * f / 120_000_000_000_000
}

/// `1000·exp(n)` for whole `n`, by repeated scaling with `e ≈ 2.718`.
pub open spec fn e_factor_milli(n: int) -> int
    decreases
            (if n >= 0 {
                n
            } else {
                -n
            }),
{
    if n == 0 {
        1000
    } else if n > 0 {
        e_factor_milli(n - 1) * 2718 / 1000
    } else {
        e_factor_milli(n + 1) * 1000 / 2718
    }
}

/// `1000·exp(x/1000)` in fixed point: whole steps by [`e_factor_milli`],
/// the fractional step by [`taylor_exp_milli`].
pub open spec fn exp_milli(x: int) -> int {
    e_factor_milli(x / 1000) * taylor_exp_milli(x % 1000) / 1000
}

/// The readings the apparent-temperature formula admits: temperature
/// within ±100 °C — the span the fixed-point exponential's whole-step
/// table covers — humidity a real percentage, and wind speed a
/// non-negative value no faster than 500 km/h.  Readings are never
/// altered to fit: a caller with a wilder value must not ask.
pub open spec fn feels_like_domain(tempc: int, humidity: int, wind: int) -> bool {
    &&& -100_000 <= tempc <= 100_000
    &&& 0 <= humidity <= 100_000
    &&& 0 <= wind <= 500_000
}

/// Apparent temperature in milli-degrees Celsius from temperature
/// (milli-degrees), relative humidity (milli-percent) and wind speed
/// (milli-kph), on the domain [`feels_like_domain`].
pub open spec fn spec_feels_like(tempc: int, humidity: int, wind: int) -> int
    recommends
        feels_like_domain(tempc, humidity, wind),
{
    let x = if tempc >= 0 {
        17270 * tempc / (237_700 + tempc)
    } else {
        -(17270 * (-tempc) / (237_700 + tempc))
    };
    let e = humidity * 6105 * exp_milli(x) / 100_000_000;
    let ws_ms = wind * 10 / 36;
    tempc + 33 * e / 100 - 7 * ws_ms / 10 - 4000
}

/// `e_factor_milli` stays within `[0, e_factor_milli(7)]` on every whole
/// step the formula can reach.
proof fn lemma_e_factor_bounds(n: int)
    requires
        -15 <= n <= 7,
    ensures
        0 <= e_factor_milli(n) <= 1_095_701,
        n >= 0 ==> e_factor_milli(n) >= 1000,
    decreases 16 - n,
{
    if n >= 0 {
        assert(e_factor_milli(0) == 1000 && e_factor_milli(1) == 2718 && e_factor_milli(2) == 7387
            && e_factor_milli(3) == 20077 && e_factor_milli(4) == 54569 && e_factor_milli(5)
            == 148318 && e_factor_milli(6) == 403128 && e_factor_milli(7) == 1095701) by {
            reveal_with_fuel(e_factor_milli, 9);
        }
    } else {
        lemma_e_factor_bounds(n + 1);
        assert(e_factor_milli(n) == e_factor_milli(n + 1) * 1000 / 2718);
        assert(0 <= e_factor_milli(n + 1) * 1000 / 2718 <= 1_095_701) by (nonlinear_arith)
            requires
                0 <= e_factor_milli(n + 1) <= 1_095_701,
        ;
    }
}

/// Fixed-point `1000·exp(x/1000)`, as [`exp_milli`] states it.
fn exp_milli_exec(x: i64) -> (r: i64)
    requires
        -15_000 <= x <= 7_000,
    ensures
        r == exp_milli(x as int),
        0 <= r <= 2_972_636,
{
    // Euclidean quotient and remainder of x by 1000.
    let n: i64;
    let f: i64;
    if x >= 0 {
        n = x / 1000;
        f = x % 1000;
    } else {
        let m = (-x) / 1000;
        let r0 = (-x) % 1000;
        if r0 == 0 {
            n = -m;
            f = 0;
        } else {
            n = -m - 1;
            f = 1000 - r0;
        }
        proof {
            vstd::arithmetic::div_mod::lemma_fundamental_div_mod((-x) as int, 1000);
            vstd::arithmetic::div_mod::lemma_fundamental_div_mod_converse(
                x as int,
                1000,
                n as int,
                f as int,
            );
        }
    }
    assert(n == x as int / 1000 && f == x as int % 1000);
    assert(-15 <= n <= 7 && 0 <= f <= 999);
    // Whole steps.
    let mut factor: i64 = 1000;
    if n >= 0 {
        let mut i: i64 = 0;
        while i < n
            invariant
                0 <= i <= n <= 7,
                factor == e_factor_milli(i as int),
            decreases n - i,
        {
            proof {
                lemma_e_factor_bounds(i as int);
                lemma_e_factor_bounds(i + 1);
            }
            factor = factor * 2718 / 1000;
            i = i + 1;
        }
    } else {
        let mut i: i64 = 0;
        while i > n
            invariant
                n <= i <= 0,
                -15 <= n,
                factor == e_factor_milli(i as int),
            decreases i - n,
        {
            proof {
                lemma_e_factor_bounds(i as int);
                lemma_e_factor_bounds(i - 1);
            }
            factor = factor * 1000 / 2718;
            i = i - 1;
        }
    }
    proof {
        lemma_e_factor_bounds(n as int);
    }
    // Fractional step.
    proof {
        assert(f * f <= 999 * 999 && f * f >= 0) by (nonlinear_arith)
            requires
                0 <= f <= 999,
        ;
        assert(f * f * f <= 999 * 999 * 999 && f * f * f >= 0) by (nonlinear_arith)
            requires
                0 <= f <= 999,
        ;
        assert(f * f * f * f <= 999 * 999 * 999 * 999 && f * f * f * f >= 0) by (nonlinear_arith)
            requires
                0 <= f <= 999,
        ;
        assert(f * f * f * f * f <= 999 * 999 * 999 * 999 * 999 && f * f * f * f * f >= 0)
            by (nonlinear_arith)
            requires
                0 <= f <= 999,
        ;
    }
    let tay: i64 = 1000 + f + f * f / 2000 + f * f * f / 6_000_000 + f * f * f * f
        / 24_000_000_000 + f * f * f * f * f / 120_000_000_000_000;
    assert(tay == taylor_exp_milli(f as int));
    assert(1000 <= tay <= 2713);
    proof {
        assert(0 <= factor * tay <= 1_095_701 * 2713) by (nonlinear_arith)
            requires
                0 <= factor <= 1_095_701,
                1000 <= tay <= 2713,
        ;
    }
    factor * tay / 1000
}

/// Apparent temperature in milli-degrees Celsius, the one canonical
/// formula of the engine: the BOM approximation in fixed point, exactly
/// as [`spec_feels_like`] states it, on readings within
/// [`feels_like_domain`].  Indoor rows call it with zero wind.
pub fn feels_like_temperature(tempc: i64, humidity: i64, windspeedkph: i64) -> (r: i64)
    requires
        feels_like_domain(tempc as int, humidity as int, windspeedkph as int),
    ensures
        r == spec_feels_like(tempc as int, humidity as int, windspeedkph as int),
{
    let ta: i64 = tempc;
    let rh: i64 = humidity;
    let ws: i64 = windspeedkph;
    let x: i64;
    if ta >= 0 {
        x = 17270 * ta / (237_700 + ta);
        proof {
            vstd::arithmetic::div_mod::lemma_fundamental_div_mod(
                17270 * ta as int,
                237_700 + ta as int,
            );
            assert(0 <= x <= 7_000) by (nonlinear_arith)
                requires
                    0 <= ta <= 100_000,
                    17270 * ta as int == (237_700 + ta as int) * x + (17270 * ta as int) % (237_700
                        + ta as int),
                    0 <= (17270 * ta as int) % (237_700 + ta as int) < 237_700 + ta as int,
            ;
        }
    } else {
        let q = 17270 * (-ta) / (237_700 + ta);
        proof {
            vstd::arithmetic::div_mod::lemma_fundamental_div_mod(
                17270 * (-ta as int),
                237_700 + ta as int,
            );
            assert(0 <= q <= 15_000) by (nonlinear_arith)
                requires
                    -100_000 <= ta < 0,
                    17270 * (-ta as int) == (237_700 + ta as int) * q + (17270 * (-ta as int)) % (
                    237_700 + ta as int),
                    0 <= (17270 * (-ta as int)) % (237_700 + ta as int) < 237_700 + ta as int,
            ;
        }
        x = -q;
    }
    let expm = exp_milli_exec(x);
    proof {
        assert(0 <= rh * 6105 * expm <= 100_000 * 6105 * 2_972_636) by (nonlinear_arith)
            requires
                0 <= rh <= 100_000,
                0 <= expm <= 2_972_636,
        ;
    }
    let e: i64 = rh * 6105 * expm / 100_000_000;
    let ws_ms: i64 = ws * 10 / 36;
    ta + 33 * e / 100 - 7 * ws_ms / 10 - 4000
}

/// On the admitted temperature span the formula's scaled exponent stays
/// within the whole-step table, and the fixed-point exponential of it is
/// non-negative and bounded.
proof fn lemma_exp_term_bounds(tempc: int)
    requires
        -100_000 <= tempc <= 100_000,
    ensures
        ({
            let x = if tempc >= 0 {
                17270 * tempc / (237_700 + tempc)
            } else {
                -(17270 * (-tempc) / (237_700 + tempc))
            };
            -15_000 <= x <= 7_000 && 0 <= exp_milli(x) <= 2_972_636
        }),
{
    let x = if tempc >= 0 {
        17270 * tempc / (237_700 + tempc)
    } else {
        -(17270 * (-tempc) / (237_700 + tempc))
    };
    if tempc >= 0 {
        vstd::arithmetic::div_mod::lemma_fundamental_div_mod(17270 * tempc, 237_700 + tempc);
        assert(0 <= x <= 7_000) by (nonlinear_arith)
            requires
                0 <= tempc <= 100_000,
                17270 * tempc == (237_700 + tempc) * x + (17270 * tempc) % (237_700 + tempc),
                0 <= (17270 * tempc) % (237_700 + tempc) < 237_700 + tempc,
        ;
    } else {
        let q = 17270 * (-tempc) / (237_700 + tempc);
        vstd::arithmetic::div_mod::lemma_fundamental_div_mod(17270 * (-tempc), 237_700 + tempc);
        assert(0 <= q <= 15_000) by (nonlinear_arith)
            requires
                -100_000 <= tempc < 0,
                17270 * (-tempc) == (237_700 + tempc) * q + (17270 * (-tempc)) % (237_700 + tempc),
                0 <= (17270 * (-tempc)) % (237_700 + tempc) < 237_700 + tempc,
        ;
    }
    let n = x / 1000;
    let f = x % 1000;
    vstd::arithmetic::div_mod::lemma_div_is_ordered(-15_000, x, 1000);
    vstd::arithmetic::div_mod::lemma_div_is_ordered(x, 7_000, 1000);
    vstd::arithmetic::div_mod::lemma_mod_division_less_than_divisor(x, 1000);
    lemma_e_factor_bounds(n);
    assert(f * f <= 999 * 999 && f * f >= 0) by (nonlinear_arith)
        requires
            0 <= f <= 999,
    ;
    assert(f * f * f <= 999 * 999 * 999 && f * f * f >= 0) by (nonlinear_arith)
        requires
            0 <= f <= 999,
    ;
    assert(f * f * f * f <= 999 * 999 * 999 * 999 && f * f * f * f >= 0) by (nonlinear_arith)
        requires
            0 <= f <= 999,
    ;
    assert(f * f * f * f * f <= 999 * 999 * 999 * 999 * 999 && f * f * f * f * f >= 0)
        by (nonlinear_arith)
        requires
            0 <= f <= 999,
    ;
    let tay = taylor_exp_milli(f);
    assert(1000 <= tay <= 2713);
    assert(0 <= e_factor_milli(n) * tay <= 1_095_701 * 2713) by (nonlinear_arith)
        requires
            0 <= e_factor_milli(n) <= 1_095_701,
            1000 <= tay <= 2713,
    ;
    vstd::arithmetic::div_mod::lemma_div_is_ordered(0, e_factor_milli(n) * tay, 1000);
    vstd::arithmetic::div_mod::lemma_div_is_ordered(e_factor_milli(n) * tay, 1_095_701int * 2713, 1000);
}

/// With no humidity and no wind the apparent temperature is the dry-bulb
/// reading minus four degrees, on the whole admitted span.
pub proof fn lemma_feels_like_dry_still(tempc: int)
    requires
        -100_000 <= tempc <= 100_000,
    ensures
        spec_feels_like(tempc, 0, 0) == tempc - 4000,
{
    let x = if tempc >= 0 {
        17270 * tempc / (237_700 + tempc)
    } else {
        -(17270 * (-tempc) / (237_700 + tempc))
    };
    assert(0 * 6105 * exp_milli(x) == 0) by (nonlinear_arith);
    assert(0int / 100_000_000 == 0) by (nonlinear_arith);
    assert(33int * 0 / 100 == 0) by (nonlinear_arith);
    assert(0int * 10 / 36 == 0) by (nonlinear_arith);
    assert(7int * 0 / 10 == 0) by (nonlinear_arith);
}

/// More wind never raises the apparent temperature: the chill term only
/// grows with the wind speed.  Fixed-point truncation makes the fall
/// stepwise, so the bound is not strict.
pub proof fn lemma_feels_like_wind_antitone(tempc: int, humidity: int, w1: int, w2: int)
    requires
        feels_like_domain(tempc, humidity, w1),
        feels_like_domain(tempc, humidity, w2),
        w1 <= w2,
    ensures
        spec_feels_like(tempc, humidity, w2) <= spec_feels_like(tempc, humidity, w1),
{
    vstd::arithmetic::div_mod::lemma_div_is_ordered(w1 * 10, w2 * 10, 36);
    vstd::arithmetic::div_mod::lemma_div_is_ordered(7 * (w1 * 10 / 36), 7 * (w2 * 10 / 36), 10);
}

/// More humidity never lowers the apparent temperature: the vapour
/// pressure term only grows with it.  Fixed-point truncation makes the
/// rise stepwise, so the bound is not strict.
pub proof fn lemma_feels_like_humidity_monotone(tempc: int, h1: int, h2: int, wind: int)
    requires
        feels_like_domain(tempc, h1, wind),
        feels_like_domain(tempc, h2, wind),
        h1 <= h2,
    ensures
        spec_feels_like(tempc, h1, wind) <= spec_feels_like(tempc, h2, wind),
{
    lemma_exp_term_bounds(tempc);
    let x = if tempc >= 0 {
        17270 * tempc / (237_700 + tempc)
    } else {
        -(17270 * (-tempc) / (237_700 + tempc))
    };
    let em = exp_milli(x);
    assert(h1 * 6105 * em <= h2 * 6105 * em) by (nonlinear_arith)
        requires
            h1 <= h2,
            em >= 0,
    ;
    vstd::arithmetic::div_mod::lemma_div_is_ordered(h1 * 6105 * em, h2 * 6105 * em, 100_000_000);
    let e1 = h1 * 6105 * em / 100_000_000;
    let e2 = h2 * 6105 * em / 100_000_000;
    vstd::arithmetic::div_mod::lemma_div_is_ordered(33 * e1, 33 * e2, 100);
}

// ---------------------------------------------------------------------------
// Ordering rows by time.
// ---------------------------------------------------------------------------
/// Row times never decrease along the sequence.
pub open spec fn sorted_by_time(s: Seq<HourRecordFlux>) -> bool {
    forall|i: int, j: int|
        0 <= i < j < s.len() ==> (#[trigger] s[i]).time <= (#[trigger] s[j]).time
}

/// Sorts rows by their time column: the result is ordered and holds
/// exactly the rows given, as a multiset.
pub fn sort_hour_records(rows: Vec<HourRecordFlux>) -> (r: Vec<HourRecordFlux>)
    ensures
        sorted_by_time(r@),
        r@.to_multiset() == rows@.to_multiset(),
        r@.len() == rows@.len(),
{
    broadcast use vstd::seq_lib::to_multiset_update;
    broadcast use vstd::seq_lib::group_to_multiset_ensures;
    broadcast use vstd::multiset::group_multiset_axioms;

    let ghost orig = rows@;
    let mut v = rows;
    let mut i: usize = 1;
    while i < v.len()
        invariant
            i >= 1,
            v@.len() == orig.len(),
            v@.to_multiset() == orig.to_multiset(),
            forall|a: int, b: int|
                0 <= a < b < i && b < v@.len() ==> (#[trigger] v@[a]).time <= (#[trigger] v@[b]).time,
        decreases v@.len() - i,
    {
        let mut j: usize = i;
        while j > 0 && v[j - 1].time > v[j].time
            invariant
                0 <= j <= i < v@.len(),
                v@.len() == orig.len(),
                v@.to_multiset() == orig.to_multiset(),
                forall|a: int, b: int|
                    0 <= a < b <= i && b != j ==> (#[trigger] v@[a]).time <= (#[trigger] v@[b]).time,
            decreases j,
        {
            let ghost before = v@;
            let lo = v[j - 1];
            let hi = v[j];
            v.set(j - 1, hi);
            v.set(j, lo);
            proof {
                assert(before.contains(lo)) by {
                    assert(before[j as int - 1] == lo);
                }
                assert(before.contains(hi)) by {
                    assert(before[j as int] == hi);
                }
                let mid = before.update(j as int - 1, hi);
                vstd::seq_lib::to_multiset_update(before, j as int - 1, hi);
                vstd::seq_lib::to_multiset_update(mid, j as int, lo);
                assert(mid.to_multiset() == before.to_multiset().insert(hi).remove(lo));
                assert(mid[j as int] == hi);
                assert(v@ == mid.update(j as int, lo));
                assert(v@.to_multiset() == mid.to_multiset().insert(lo).remove(hi));
                vstd::seq_lib::to_multiset_contains(before, lo);
                vstd::seq_lib::to_multiset_contains(before, hi);
                assert(before.to_multiset().count(lo) > 0);
                assert(before.to_multiset().count(hi) > 0);
                assert(v@.to_multiset() =~= before.to_multiset());
            }
            j = j - 1;
        }
        i = i + 1;
    }
    v
}

// ---------------------------------------------------------------------------
// Rainfall deltas and the enriched series.
// ---------------------------------------------------------------------------
/// A cumulative-counter reading clamped to be non-negative.
pub open spec fn spec_clamp0(v: int) -> int {
    if v < 0 {
        0
    } else {
        v
    }
}

/// Rainfall between two consecutive readings of the cumulative counter:
/// each reading clamped non-negative first, and a falling counter (a reset
/// or glitch) arrested to zero rather than propagated as negative rain.
pub open spec fn spec_rain_delta(prev: int, cur: int) -> int {
    let p = spec_clamp0(prev);
    let c = spec_clamp0(cur);
    if c - p > 0 {
        c - p
    } else {
        0
    }
}

/// The enriched row a consecutive pair produces: the later row's readings,
/// its cumulative rain replaced by the pair's delta, and both apparent
/// temperatures filled in (indoor with zero wind).
pub open spec fn spec_enrich_pair(prev: HourRecordFlux, cur: HourRecordFlux)
    -> HourRecordWithDerivedTypes {
    HourRecordWithDerivedTypes {
        totalrainmm: spec_rain_delta(prev.totalrainmm as int, cur.totalrainmm as int) as i64,
        feelslike: spec_feels_like(cur.tempc as int, cur.humidity as int, cur.windspeedkph as int)
            as i64,
        feelslikein: spec_feels_like(cur.tempinc as int, cur.humidityin as int, 0) as i64,
        ..HourRecordWithDerivedTypes::spec_from_raw(cur)
    }
}

/// One row's readings within the domains the derived metrics admit:
/// both temperatures and both humidities inside [`feels_like_domain`]'s
/// spans, wind speed likewise, and the cumulative rain counter small
/// enough that two readings subtract without overflowing.
pub open spec fn reading_in_domain(r: HourRecordFlux) -> bool {
    &&& -100_000 <= r.tempc <= 100_000
    &&& -100_000 <= r.tempinc <= 100_000
    &&& 0 <= r.humidity <= 100_000
    &&& 0 <= r.humidityin <= 100_000
    &&& 0 <= r.windspeedkph <= 500_000
    &&& -1_000_000_000_000_000 <= r.totalrainmm <= 1_000_000_000_000_000
}

/// Every row's readings within the admitted domains.
pub open spec fn readings_in_domain(s: Seq<HourRecordFlux>) -> bool {
    forall|k: int| 0 <= k < s.len() ==> reading_in_domain(#[trigger] s[k])
}

/// Any arrangement of the same rows keeps the per-row domain bound.
proof fn lemma_domain_transfers(s1: Seq<HourRecordFlux>, s2: Seq<HourRecordFlux>)
    requires
        s1.to_multiset() == s2.to_multiset(),
        readings_in_domain(s1),
    ensures
        readings_in_domain(s2),
{
    broadcast use vstd::seq_lib::group_to_multiset_ensures;

    assert forall|k: int| 0 <= k < s2.len() implies reading_in_domain(#[trigger] s2[k]) by {
        assert(s2.contains(s2[k]));
        vstd::seq_lib::to_multiset_contains(s2, s2[k]);
        vstd::seq_lib::to_multiset_contains(s1, s2[k]);
        assert(s1.contains(s2[k]));
        let j = choose|j: int| 0 <= j < s1.len() && s1[j] == s2[k];
        assert(reading_in_domain(s1[j]));
    }
}

/// Enriches a time-ordered row sequence of admitted readings: row `k` of
/// the output pairs rows `k` and `k + 1` of the input, so the first input
/// row serves only as the delta baseline and the output is one row
/// shorter.  An empty input reports `EmptyResult` rather than touching a
/// first row it lacks.
pub fn enrich_hourly(rows: &Vec<HourRecordFlux>) -> (r: Result<
    Vec<HourRecordWithDerivedTypes>,
    crate::ApiError,
>)
    requires
        readings_in_domain(rows@),
    ensures
        (r is Err) == (rows@.len() == 0),
        r matches Err(e) ==> e is EmptyResult,
        r matches Ok(v) ==> {
            &&& v@.len() == rows@.len() - 1
            &&& forall|k: int|
                0 <= k < v@.len() ==> v@[k] == spec_enrich_pair(rows@[k], #[trigger] rows@[k + 1])
        },
{
    if rows.len() == 0 {
        return Err(crate::ApiError::EmptyResult);
    }
    let mut out: Vec<HourRecordWithDerivedTypes> = Vec::new();
    let first = rows[0];
    let mut last_total_rain: i64 = if first.totalrainmm > 0 {
        first.totalrainmm
    } else {
        0
    };
    let mut k: usize = 1;
    while k < rows.len()
        invariant
            readings_in_domain(rows@),
            1 <= k <= rows@.len(),
            last_total_rain == spec_clamp0(rows@[k - 1].totalrainmm as int),
            out@.len() == k - 1,
            forall|q: int|
                0 <= q < out@.len() ==> out@[q] == spec_enrich_pair(
                    rows@[q],
                    #[trigger] rows@[q + 1],
                ),
        decreases rows@.len() - k,
    {
        let cur = rows[k];
        proof {
            assert(reading_in_domain(rows@[k as int]));
        }
        let next_total_rain: i64 = if cur.totalrainmm > 0 {
            cur.totalrainmm
        } else {
            0
        };
        let delta: i64 = if next_total_rain - last_total_rain > 0 {
            next_total_rain - last_total_rain
        } else {
            0
        };
        last_total_rain = next_total_rain;
        let mut datum = HourRecordWithDerivedTypes::from(cur);
        datum.totalrainmm = delta;
        datum.feelslike = feels_like_temperature(cur.tempc, cur.humidity, cur.windspeedkph);
        datum.feelslikein = feels_like_temperature(cur.tempinc, cur.humidityin, 0);
        out.push(datum);
        k = k + 1;
    }
    Ok(out)
}

/// The whole range pipeline on fetched rows of admitted readings: order
/// by time, then enrich.  Exactly the empty fetch fails, with
/// `EmptyResult`; otherwise the output enriches some time-ordered
/// arrangement of the given rows.
pub fn process_past_rows(rows: Vec<HourRecordFlux>) -> (r: Result<
    Vec<HourRecordWithDerivedTypes>,
    crate::ApiError,
>)
    requires
        readings_in_domain(rows@),
    ensures
        (r is Err) == (rows@.len() == 0),
        r matches Err(e) ==> e is EmptyResult,
        r matches Ok(v) ==> exists|s: Seq<HourRecordFlux>|
            {
                &&& sorted_by_time(s)
                &&& #[trigger] s.to_multiset() == rows@.to_multiset()
                &&& v@.len() == s.len() - 1
                &&& forall|k: int|
                    0 <= k < v@.len() ==> v@[k] == spec_enrich_pair(s[k], #[trigger] s[k + 1])
            },
{
    broadcast use vstd::seq_lib::group_to_multiset_ensures;

    let ghost n = rows@.len();
    let ghost given = rows@;
    let sorted = sort_hour_records(rows);
    proof {
        lemma_domain_transfers(given, sorted@);
    }
    let result = enrich_hourly(&sorted);
    proof {
        if n > 0 {
            let s = sorted@;
            assert(sorted_by_time(s) && s.to_multiset() == rows@.to_multiset());
        }
    }
    result
}

// ---------------------------------------------------------------------------
// The summary of the current day.
// ---------------------------------------------------------------------------
/// The aggregate record of the current calendar day: the latest sample's
/// instantaneous readings, running extrema over the day, total rainfall
/// since midnight, and the day's solar events as RFC 3339 strings.
#[derive(Clone, Debug)]
pub struct TodayDataWithDerivedTypes {
    pub time: i64,
    pub tempc: i64,
    pub tempinc: i64,
    pub humidity: i64,
    pub humidityin: i64,
    pub windspeedkph: i64,
    pub windgustkph: i64,
    pub winddir: i64,
    pub rainratemm: i64,
    /// Rain since the first sample of the day: last counter reading minus
    /// the first, not a delta sum.
    pub totalrainmm: i64,
    pub uv: i64,
    pub mintemp: i64,
    pub maxtemp: i64,
    pub mintempin: i64,
    pub maxtempin: i64,
    pub sunrise: String,
    pub sunset: String,
    pub maxuv: i64,
    pub solarradiation: i64,
    pub feelslike: i64,
    pub feelslikein: i64,
}

impl Default for TodayDataWithDerivedTypes {
    /// Zeroed instantaneous readings with every running extremum at the
    /// sentinel that any real sample beats, and empty solar strings.
    fn default() -> (r: Self)
        ensures
            r.time == 0,
            r.tempc == 0 && r.tempinc == 0 && r.humidity == 0 && r.humidityin == 0,
            r.windspeedkph == 0 && r.windgustkph == 0 && r.winddir == 0,
            r.rainratemm == 0 && r.totalrainmm == 0 && r.uv == 0,
            r.mintemp == i64::MAX && r.maxtemp == i64::MIN,
            r.mintempin == i64::MAX && r.maxtempin == i64::MIN,
            r.maxuv == i64::MIN && r.solarradiation == i64::MIN,
            r.feelslike == i64::MIN && r.feelslikein == i64::MIN,
            r.sunrise@ == Seq::<char>::empty() && r.sunset@ == Seq::<char>::empty(),
    {
        TodayDataWithDerivedTypes {
            time: 0,
            tempc: 0,
            tempinc: 0,
            humidity: 0,
            humidityin: 0,
            windspeedkph: 0,
            windgustkph: 0,
            winddir: 0,
            rainratemm: 0,
            totalrainmm: 0,
            uv: 0,
            mintemp: i64::MAX,
            maxtemp: i64::MIN,
            mintempin: i64::MAX,
            maxtempin: i64::MIN,
            sunrise: String::new(),
            sunset: String::new(),
            maxuv: i64::MIN,
            solarradiation: i64::MIN,
            feelslike: i64::MIN,
            feelslikein: i64::MIN,
        }
    }
}

/// Running minimum of outdoor temperature, from the largest sentinel.
pub open spec fn spec_min_temp(s: Seq<HourRecordFlux>) -> int
    decreases s.len(),
{
    if s.len() == 0 {
        i64::MAX as int
    } else {
        let rest = spec_min_temp(s.drop_last());
        if s.last().tempc < rest {
            s.last().tempc as int
        } else {
            rest
        }
    }
}

/// Running maximum of outdoor temperature, from the smallest sentinel.
pub open spec fn spec_max_temp(s: Seq<HourRecordFlux>) -> int
    decreases s.len(),
{
    if s.len() == 0 {
        i64::MIN as int
    } else {
        let rest = spec_max_temp(s.drop_last());
        if s.last().tempc > rest {
            s.last().tempc as int
        } else {
            rest
        }
    }
}

/// Running minimum of indoor temperature.
pub open spec fn spec_min_temp_in(s: Seq<HourRecordFlux>) -> int
    decreases s.len(),
{
    if s.len() == 0 {
        i64::MAX as int
    } else {
        let rest = spec_min_temp_in(s.drop_last());
        if s.last().tempinc < rest {
            s.last().tempinc as int
        } else {
            rest
        }
    }
}

/// Running maximum of indoor temperature.
pub open spec fn spec_max_temp_in(s: Seq<HourRecordFlux>) -> int
    decreases s.len(),
{
    if s.len() == 0 {
        i64::MIN as int
    } else {
        let rest = spec_max_temp_in(s.drop_last());
        if s.last().tempinc > rest {
            s.last().tempinc as int
        } else {
            rest
        }
    }
}

/// Running maximum of the UV index.
pub open spec fn spec_max_uv(s: Seq<HourRecordFlux>) -> int
    decreases s.len(),
{
    if s.len() == 0 {
        i64::MIN as int
    } else {
        let rest = spec_max_uv(s.drop_last());
        if s.last().uv > rest {
            s.last().uv as int
        } else {
            rest
        }
    }
}

/// The summary a time-ordered, non-empty day of samples produces.
pub open spec fn spec_today(
    s: Seq<HourRecordFlux>,
    sunrise: String,
    sunset: String,
) -> TodayDataWithDerivedTypes
    recommends
        s.len() > 0,
{
    let last = s.last();
    let first = s[0];
    TodayDataWithDerivedTypes {
        time: last.time,
        tempc: last.tempc,
        tempinc: last.tempinc,
        humidity: last.humidity,
        humidityin: last.humidityin,
        windspeedkph: last.windspeedkph,
        windgustkph: last.windgustkph,
        winddir: last.winddir,
        rainratemm: last.rainratemm,
        totalrainmm: (last.totalrainmm - first.totalrainmm) as i64,
        uv: last.uv,
        mintemp: spec_min_temp(s) as i64,
        maxtemp: spec_max_temp(s) as i64,
        mintempin: spec_min_temp_in(s) as i64,
        maxtempin: spec_max_temp_in(s) as i64,
        sunrise: sunrise,
        sunset: sunset,
        maxuv: spec_max_uv(s) as i64,
        solarradiation: last.solarradiation,
        feelslike: spec_feels_like(
            last.tempc as int,
            last.humidity as int,
            last.windspeedkph as int,
        ) as i64,
        feelslikein: spec_feels_like(last.tempinc as int, last.humidityin as int, 0) as i64,
    }
}

/// Each running extremum is attained by some row and bounds every row.
pub proof fn lemma_extrema_ensures(s: Seq<HourRecordFlux>)
    requires
        s.len() > 0,
    ensures
        forall|k: int| 0 <= k < s.len() ==> spec_min_temp(s) <= (#[trigger] s[k]).tempc,
        exists|k: int| 0 <= k < s.len() && spec_min_temp(s) == (#[trigger] s[k]).tempc,
        forall|k: int| 0 <= k < s.len() ==> spec_max_temp(s) >= (#[trigger] s[k]).tempc,
        exists|k: int| 0 <= k < s.len() && spec_max_temp(s) == (#[trigger] s[k]).tempc,
        forall|k: int| 0 <= k < s.len() ==> spec_min_temp_in(s) <= (#[trigger] s[k]).tempinc,
        exists|k: int| 0 <= k < s.len() && spec_min_temp_in(s) == (#[trigger] s[k]).tempinc,
        forall|k: int| 0 <= k < s.len() ==> spec_max_temp_in(s) >= (#[trigger] s[k]).tempinc,
        exists|k: int| 0 <= k < s.len() && spec_max_temp_in(s) == (#[trigger] s[k]).tempinc,
        forall|k: int| 0 <= k < s.len() ==> spec_max_uv(s) >= (#[trigger] s[k]).uv,
        exists|k: int| 0 <= k < s.len() && spec_max_uv(s) == (#[trigger] s[k]).uv,
    decreases s.len(),
{
    if s.len() == 1 {
        assert(s[0] == s.last());
        assert(spec_min_temp(s.drop_last()) == i64::MAX as int);
        assert(spec_max_temp(s.drop_last()) == i64::MIN as int);
        assert(spec_min_temp_in(s.drop_last()) == i64::MAX as int);
        assert(spec_max_temp_in(s.drop_last()) == i64::MIN as int);
        assert(spec_max_uv(s.drop_last()) == i64::MIN as int);
        assert(0 <= 0 < s.len() && spec_min_temp(s) == (s[0]).tempc);
        assert(0 <= 0 < s.len() && spec_max_temp(s) == (s[0]).tempc);
        assert(0 <= 0 < s.len() && spec_min_temp_in(s) == (s[0]).tempinc);
        assert(0 <= 0 < s.len() && spec_max_temp_in(s) == (s[0]).tempinc);
        assert(0 <= 0 < s.len() && spec_max_uv(s) == (s[0]).uv);
    } else {
        let t = s.drop_last();
        lemma_extrema_ensures(t);
        assert(forall|k: int| 0 <= k < s.len() - 1 ==> t[k] == (#[trigger] s[k]));
        let last = s.len() - 1;
        assert(s[last] == s.last());
        if spec_min_temp(s) == s.last().tempc {
            assert(0 <= last < s.len() && spec_min_temp(s) == (s[last]).tempc);
        } else {
            let w = choose|w: int| 0 <= w < t.len() && spec_min_temp(t) == (#[trigger] t[w]).tempc;
            assert(0 <= w < s.len() && spec_min_temp(s) == (s[w]).tempc);
        }
        if spec_max_temp(s) == s.last().tempc {
            assert(0 <= last < s.len() && spec_max_temp(s) == (s[last]).tempc);
        } else {
            let w = choose|w: int| 0 <= w < t.len() && spec_max_temp(t) == (#[trigger] t[w]).tempc;
            assert(0 <= w < s.len() && spec_max_temp(s) == (s[w]).tempc);
        }
        if spec_min_temp_in(s) != s.last().tempinc {
            let w = choose|w: int|
                0 <= w < t.len() && spec_min_temp_in(t) == (#[trigger] t[w]).tempinc;
            assert(spec_min_temp_in(s) == (s[w]).tempinc);
        }
        if spec_max_temp_in(s) != s.last().tempinc {
            let w = choose|w: int|
                0 <= w < t.len() && spec_max_temp_in(t) == (#[trigger] t[w]).tempinc;
            assert(spec_max_temp_in(s) == (s[w]).tempinc);
        }
        if spec_max_uv(s) != s.last().uv {
            let w = choose|w: int| 0 <= w < t.len() && spec_max_uv(t) == (#[trigger] t[w]).uv;
            assert(spec_max_uv(s) == (s[w]).uv);
        }
    }
}

/// The extrema of a day's samples do not depend on the order the rows
/// arrived in: any two arrangements of the same rows agree on all five.
pub proof fn lemma_extrema_order_independent(s1: Seq<HourRecordFlux>, s2: Seq<HourRecordFlux>)
    requires
        s1.to_multiset() == s2.to_multiset(),
        s1.len() > 0,
    ensures
        spec_min_temp(s1) == spec_min_temp(s2),
        spec_max_temp(s1) == spec_max_temp(s2),
        spec_min_temp_in(s1) == spec_min_temp_in(s2),
        spec_max_temp_in(s1) == spec_max_temp_in(s2),
        spec_max_uv(s1) == spec_max_uv(s2),
{
    broadcast use vstd::seq_lib::group_to_multiset_ensures;

    assert(s2.len() > 0) by {
        assert(s1.to_multiset().len() == s1.len());
        assert(s2.to_multiset().len() == s2.len());
    }
    lemma_extrema_ensures(s1);
    lemma_extrema_ensures(s2);
    assert forall|k: int| 0 <= k < s1.len() implies {
        &&& spec_min_temp(s2) <= (#[trigger] s1[k]).tempc <= spec_max_temp(s2)
        &&& spec_min_temp_in(s2) <= s1[k].tempinc <= spec_max_temp_in(s2)
        &&& s1[k].uv <= spec_max_uv(s2)
    } by {
        assert(s1.contains(s1[k]));
        vstd::seq_lib::to_multiset_contains(s1, s1[k]);
        vstd::seq_lib::to_multiset_contains(s2, s1[k]);
        assert(s2.contains(s1[k]));
        let j = choose|j: int| 0 <= j < s2.len() && s2[j] == s1[k];
        assert(spec_min_temp(s2) <= (s2[j]).tempc);
    }
    assert forall|k: int| 0 <= k < s2.len() implies {
        &&& spec_min_temp(s1) <= (#[trigger] s2[k]).tempc <= spec_max_temp(s1)
        &&& spec_min_temp_in(s1) <= s2[k].tempinc <= spec_max_temp_in(s1)
        &&& s2[k].uv <= spec_max_uv(s1)
    } by {
        assert(s2.contains(s2[k]));
        vstd::seq_lib::to_multiset_contains(s2, s2[k]);
        vstd::seq_lib::to_multiset_contains(s1, s2[k]);
        assert(s1.contains(s2[k]));
        let j = choose|j: int| 0 <= j < s1.len() && s1[j] == s2[k];
        assert(spec_min_temp(s1) <= (s1[j]).tempc);
    }
}

/// Computes the day's summary from rows of admitted readings: rows are
/// ordered by time, the last one supplies the instantaneous readings, a
/// fold over all rows tracks the extrema from their sentinels, and total
/// rain is the last cumulative reading minus the first.  Exactly the
/// empty day fails, with
/// `EmptyResult`.  The extrema bound every given row and are attained by
/// one, whatever order the rows arrived in.
pub fn today_summary(rows: Vec<HourRecordFlux>, sunrise: String, sunset: String) -> (r: Result<
    TodayDataWithDerivedTypes,
    crate::ApiError,
>)
    requires
        readings_in_domain(rows@),
    ensures
        (r is Err) == (rows@.len() == 0),
        r matches Err(e) ==> e is EmptyResult,
        r matches Ok(t) ==> exists|s: Seq<HourRecordFlux>|
            {
                &&& sorted_by_time(s)
                &&& #[trigger] s.to_multiset() == rows@.to_multiset()
                &&& t == spec_today(s, sunrise, sunset)
            },
        r matches Ok(t) ==> {
            &&& (forall|k: int| 0 <= k < rows@.len() ==> t.mintemp <= (#[trigger] rows@[k]).tempc)
            &&& (forall|k: int| 0 <= k < rows@.len() ==> t.maxtemp >= (#[trigger] rows@[k]).tempc)
            &&& (forall|k: int|
                0 <= k < rows@.len() ==> t.mintempin <= (#[trigger] rows@[k]).tempinc)
            &&& (forall|k: int|
                0 <= k < rows@.len() ==> t.maxtempin >= (#[trigger] rows@[k]).tempinc)
            &&& (forall|k: int| 0 <= k < rows@.len() ==> t.maxuv >= (#[trigger] rows@[k]).uv)
        },
{
    broadcast use vstd::seq_lib::group_to_multiset_ensures;

    if rows.len() == 0 {
        return Err(crate::ApiError::EmptyResult);
    }
    let ghost given = rows@;
    let data = sort_hour_records(rows);
    let ghost s = data@;
    proof {
        // The per-row bounds carry over to the sorted arrangement.
        lemma_domain_transfers(given, s);
        assert(reading_in_domain(s[s.len() - 1]) && reading_in_domain(s[0]));
    }
    let last = data[data.len() - 1];
    let first = data[0];
    let mut mintemp: i64 = i64::MAX;
    let mut maxtemp: i64 = i64::MIN;
    let mut mintempin: i64 = i64::MAX;
    let mut maxtempin: i64 = i64::MIN;
    let mut maxuv: i64 = i64::MIN;
    let mut i: usize = 0;
    while i < data.len()
        invariant
            0 <= i <= s.len(),
            s == data@,
            mintemp == spec_min_temp(s.take(i as int)),
            maxtemp == spec_max_temp(s.take(i as int)),
            mintempin == spec_min_temp_in(s.take(i as int)),
            maxtempin == spec_max_temp_in(s.take(i as int)),
            maxuv == spec_max_uv(s.take(i as int)),
        decreases s.len() - i,
    {
        proof {
            assert(s.take(i + 1).drop_last() =~= s.take(i as int));
            assert(s.take(i + 1).last() == s[i as int]);
        }
        let row = data[i];
        if row.tempc < mintemp {
            mintemp = row.tempc;
        }
        if row.tempc > maxtemp {
            maxtemp = row.tempc;
        }
        if row.tempinc < mintempin {
            mintempin = row.tempinc;
        }
        if row.tempinc > maxtempin {
            maxtempin = row.tempinc;
        }
        if row.uv > maxuv {
            maxuv = row.uv;
        }
        i = i + 1;
    }
    proof {
        assert(s.take(s.len() as int) =~= s);
    }
    let result = TodayDataWithDerivedTypes {
        time: last.time,
        tempc: last.tempc,
        tempinc: last.tempinc,
        humidity: last.humidity,
        humidityin: last.humidityin,
        windspeedkph: last.windspeedkph,
        windgustkph: last.windgustkph,
        winddir: last.winddir,
        rainratemm: last.rainratemm,
        totalrainmm: last.totalrainmm - first.totalrainmm,
        uv: last.uv,
        mintemp,
        maxtemp,
        mintempin,
        maxtempin,
        sunrise,
        sunset,
        maxuv,
        solarradiation: last.solarradiation,
        feelslike: feels_like_temperature(last.tempc, last.humidity, last.windspeedkph),
        feelslikein: feels_like_temperature(last.tempinc, last.humidityin, 0),
    };
    proof {
        assert(last == s.last());
        lemma_extrema_ensures(s);
        lemma_extrema_order_independent(s, given);
        lemma_extrema_ensures(given);
    }
    Ok(result)
}

// ---------------------------------------------------------------------------
// Monthly statistics rows.
// ---------------------------------------------------------------------------
/// One month's statistics as the store's join pipeline delivers them: for
/// each field its current mean, absolute extrema and means of daily
/// extrema, plus rainfall totals and UV statistics.  The service computes
/// nothing further on these rows; it only re-sorts them by time.
#[derive(Clone, Copy, Debug, PartialEq, Eq, Structural)]
pub struct MonthRecordFlux {
    /// Nanoseconds since the Unix epoch (the month's start).
    pub time: i64,
    pub humidity: i64,
    pub humidity_absolute_max: i64,
    pub humidity_absolute_min: i64,
    pub humidity_mean_max: i64,
    pub humidity_mean_min: i64,
    pub humidityin: i64,
    pub humidityin_absolute_max: i64,
    pub humidityin_absolute_min: i64,
    pub humidityin_mean_max: i64,
    pub humidityin_mean_min: i64,
    pub solarradiation: i64,
    pub solarradiation_absolute_max: i64,
    pub solarradiation_absolute_min: i64,
    pub solarradiation_mean_max: i64,
    pub solarradiation_mean_min: i64,
    pub tempc: i64,
    pub tempc_absolute_max: i64,
    pub tempc_absolute_min: i64,
    pub tempc_mean_max: i64,
    pub tempc_mean_min: i64,
    pub tempinc: i64,
    pub tempinc_absolute_max: i64,
    pub tempinc_absolute_min: i64,
    pub tempinc_mean_max: i64,
    pub tempinc_mean_min: i64,
    /// Total rain in the month, milli-millimetres.
    pub totalrainmm: i64,
    /// Days of the month with positive rainfall.
    pub raindayscount: i64,
    pub uv_absolute: i64,
    pub uv_mean: i64,
}

impl MonthRecordFlux {
    /// The value [`Default::default`] returns: a zeroed row at the epoch.
    pub open spec fn spec_default() -> MonthRecordFlux {
        MonthRecordFlux {
            time: 0,
            humidity: 0,
            humidity_absolute_max: 0,
            humidity_absolute_min: 0,
            humidity_mean_max: 0,
            humidity_mean_min: 0,
            humidityin: 0,
            humidityin_absolute_max: 0,
            humidityin_absolute_min: 0,
            humidityin_mean_max: 0,
            humidityin_mean_min: 0,
            solarradiation: 0,
            solarradiation_absolute_max: 0,
            solarradiation_absolute_min: 0,
            solarradiation_mean_max: 0,
            solarradiation_mean_min: 0,
            tempc: 0,
            tempc_absolute_max: 0,
            tempc_absolute_min: 0,
            tempc_mean_max: 0,
            tempc_mean_min: 0,
            tempinc: 0,
            tempinc_absolute_max: 0,
            tempinc_absolute_min: 0,
            tempinc_mean_max: 0,
            tempinc_mean_min: 0,
            totalrainmm: 0,
            raindayscount: 0,
            uv_absolute: 0,
            uv_mean: 0,
        }
    }
}

impl Default for MonthRecordFlux {
    /// A zeroed row at the epoch.
    fn default() -> (r: Self)
        ensures
            r == MonthRecordFlux::spec_default(),
    {
        MonthRecordFlux {
            time: 0,
            humidity: 0,
            humidity_absolute_max: 0,
            humidity_absolute_min: 0,
            humidity_mean_max: 0,
            humidity_mean_min: 0,
            humidityin: 0,
            humidityin_absolute_max: 0,
            humidityin_absolute_min: 0,
            humidityin_mean_max: 0,
            humidityin_mean_min: 0,
            solarradiation: 0,
            solarradiation_absolute_max: 0,
            solarradiation_absolute_min: 0,
            solarradiation_mean_max: 0,
            solarradiation_mean_min: 0,
            tempc: 0,
            tempc_absolute_max: 0,
            tempc_absolute_min: 0,
            tempc_mean_max: 0,
            tempc_mean_min: 0,
            tempinc: 0,
            tempinc_absolute_max: 0,
            tempinc_absolute_min: 0,
            tempinc_mean_max: 0,
            tempinc_mean_min: 0,
            totalrainmm: 0,
            raindayscount: 0,
            uv_absolute: 0,
            uv_mean: 0,
        }
    }
}

/// Month times never decrease along the sequence.
pub open spec fn sorted_by_time_month(s: Seq<MonthRecordFlux>) -> bool {
    forall|i: int, j: int|
        0 <= i < j < s.len() ==> (#[trigger] s[i]).time <= (#[trigger] s[j]).time
}

/// Sorts monthly rows by their time column — the defensive re-sort of the
/// monthly passthrough: the result is ordered and holds exactly the rows
/// the store delivered, as a multiset.
pub fn sort_month_records(rows: Vec<MonthRecordFlux>) -> (r: Vec<MonthRecordFlux>)
    ensures
        sorted_by_time_month(r@),
        r@.to_multiset() == rows@.to_multiset(),
        r@.len() == rows@.len(),
{
    broadcast use vstd::seq_lib::group_to_multiset_ensures;
    broadcast use vstd::multiset::group_multiset_axioms;

    let ghost orig = rows@;
    let mut v = rows;
    let mut i: usize = 1;
    while i < v.len()
        invariant
            i >= 1,
            v@.len() == orig.len(),
            v@.to_multiset() == orig.to_multiset(),
            forall|a: int, b: int|
                0 <= a < b < i && b < v@.len() ==> (#[trigger] v@[a]).time <= (#[trigger] v@[b]).time,
        decreases v@.len() - i,
    {
        let mut j: usize = i;
        while j > 0 && v[j - 1].time > v[j].time
            invariant
                0 <= j <= i < v@.len(),
                v@.len() == orig.len(),
                v@.to_multiset() == orig.to_multiset(),
                forall|a: int, b: int|
                    0 <= a < b <= i && b != j ==> (#[trigger] v@[a]).time <= (#[trigger] v@[b]).time,
            decreases j,
        {
            let ghost before = v@;
            let lo = v[j - 1];
            let hi = v[j];
            v.set(j - 1, hi);
            v.set(j, lo);
            proof {
                assert(before.contains(lo)) by {
                    assert(before[j as int - 1] == lo);
                }
                assert(before.contains(hi)) by {
                    assert(before[j as int] == hi);
                }
                let mid = before.update(j as int - 1, hi);
                vstd::seq_lib::to_multiset_update(before, j as int - 1, hi);
                vstd::seq_lib::to_multiset_update(mid, j as int, lo);
                vstd::seq_lib::to_multiset_contains(before, lo);
                vstd::seq_lib::to_multiset_contains(before, hi);
                assert(v@.to_multiset() =~= before.to_multiset());
            }
            j = j - 1;
        }
        i = i + 1;
    }
    v
}

// ---------------------------------------------------------------------------
// The join policy of the monthly query.
// ---------------------------------------------------------------------------
/// The months the store's inner-join tree keeps, by the join stages the
/// monthly query requests: each stage keeps a month only when both sides
/// carry it.  The arguments are the month sets of the seven joined tables.
pub open spec fn spec_monthly_join_months(
    maximums: Set<int>,
    mean_maximums: Set<int>,
    averages: Set<int>,
    mean_minimums: Set<int>,
    minimums: Set<int>,
    total_rain: Set<int>,
    rainy_days_count: Set<int>,
) -> Set<int> {
    let rain = total_rain.intersect(rainy_days_count);
    let max_mmax = maximums.intersect(mean_maximums);
    let min_mmin = minimums.intersect(mean_minimums);
    let min_max = min_mmin.intersect(max_mmax);
    let max_and_avgs = min_max.intersect(averages);
    max_and_avgs.intersect(rain)
}

/// The monthly join is an inner join: a month appears in the final rows
/// exactly when every sub-pipeline carries it — in particular, a month
/// present in the max aggregation but absent from the rainfall pipeline
/// is dropped whole, never null-padded.
pub proof fn lemma_monthly_join_inner(
    maximums: Set<int>,
    mean_maximums: Set<int>,
    averages: Set<int>,
    mean_minimums: Set<int>,
    minimums: Set<int>,
    total_rain: Set<int>,
    rainy_days_count: Set<int>,
    month: int,
)
    ensures
        spec_monthly_join_months(
            maximums,
            mean_maximums,
            averages,
            mean_minimums,
            minimums,
            total_rain,
            rainy_days_count,
        ).contains(month) <==> {
            &&& maximums.contains(month)
            &&& mean_maximums.contains(month)
            &&& averages.contains(month)
            &&& mean_minimums.contains(month)
            &&& minimums.contains(month)
            &&& total_rain.contains(month)
            &&& rainy_days_count.contains(month)
        },
{
}

/// In particular, a month the max aggregation carries but the rainfall
/// pipeline lacks is dropped from the joined result entirely, never
/// null-padded.
pub proof fn lemma_month_without_rain_is_dropped(
    maximums: Set<int>,
    mean_maximums: Set<int>,
    averages: Set<int>,
    mean_minimums: Set<int>,
    minimums: Set<int>,
    total_rain: Set<int>,
    rainy_days_count: Set<int>,
    month: int,
)
    requires
        maximums.contains(month),
        !total_rain.contains(month),
    ensures
        !spec_monthly_join_months(
            maximums,
            mean_maximums,
            averages,
            mean_minimums,
            minimums,
            total_rain,
            rainy_days_count,
        ).contains(month),
{
    lemma_monthly_join_inner(
        maximums,
        mean_maximums,
        averages,
        mean_minimums,
        minimums,
        total_rain,
        rainy_days_count,
        month,
    );
}

} // verus!
