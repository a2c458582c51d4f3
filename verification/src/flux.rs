//! Rendering Flux query programs for the time-series store.
//!
//! The builders are pure: the produced text is a function of the bucket
//! name and the two range endpoints alone, so equal inputs give identical
//! programs.  Every interpolated value is escaped first
//! ([`flux_escape`]), so a value can never break out of its string
//! literal in the query language.

use vstd::prelude::*;
use crate::ApiError;
use crate::RangeParams;
use crate::time::Timestamp;
use crate::time::spec_range_valid;
use crate::time::spec_rfc3339_text;
use crate::time::format_rfc3339;
use crate::time::parse_time_range;
use crate::time::date_time_shape;
use crate::time::parse_frac;
use crate::time::parse_offset;
use crate::time::digit_run_end;
use crate::time::is_digit;

verus! {

/// How one character is written inside a Flux string literal: quotes and
/// backslashes get a leading backslash, everything else stands as it is.
pub open spec fn esc_char(c: char) -> Seq<char> {
    if c == '"' || c == '\\' {
        seq!['\\', c]
    } else {
        seq![c]
    }
}

/// A text escaped for interpolation into a Flux string literal.
pub open spec fn flux_escape(s: Seq<char>) -> Seq<char>
    decreases s.len(),
{
    if s.len() == 0 {
        Seq::<char>::empty()
    } else {
        flux_escape(s.drop_last()) + esc_char(s.last())
    }
}

/// A text that needs no escaping: free of quotes and backslashes.
pub open spec fn flux_plain(s: Seq<char>) -> bool {
    forall|i: int| 0 <= i < s.len() ==> s[i] != '"' && (#[trigger] s[i]) != '\\'
}

/// Escaping changes nothing on a plain text.
pub proof fn lemma_escape_plain(s: Seq<char>)
    requires
        flux_plain(s),
    ensures
        flux_escape(s) == s,
    decreases s.len(),
{
    if s.len() > 0 {
        lemma_escape_plain(s.drop_last());
        assert(flux_escape(s) =~= s);
    }
}

/// Relies on `String::push`: appends exactly the one character.
#[verifier::external_body]
fn push_char(out: &mut String, c: char)
    ensures
        final (out)@ == old(out)@ + seq![c],
{
    out.push(c);
}

/// Appends `s` with quotes and backslashes escaped.
fn append_escaped(out: &mut String, s: &str)
    ensures
        final (out)@ == old(out)@ + flux_escape(s@),
{
    let n = s.unicode_len();
    let mut i: usize = 0;
    while i < n
        invariant
            i <= n,
            n == s@.len(),
            out@ == old(out)@ + flux_escape(s@.subrange(0, i as int)),
        decreases n - i,
    {
        let c = s.get_char(i);
        if c == '"' || c == '\\' {
            push_char(out, '\\');
        }
        push_char(out, c);
        proof {
            let pre = s@.subrange(0, i as int);
            let cur = s@.subrange(0, i + 1);
            assert(cur.drop_last() =~= pre);
            assert(out@ =~= old(out)@ + flux_escape(cur));
        }
        i = i + 1;
    }
    proof {
        assert(s@.subrange(0, n as int) =~= s@);
    }
}

/// The `from` and `range` stages that head every pipeline, with the three
/// values escaped into their string literals.
pub open spec fn spec_query_head(bucket: Seq<char>, start: Seq<char>, end: Seq<char>) -> Seq<
    char,
> {
    "from(bucket: \""@ + flux_escape(bucket) + "\")\n|> range(start: time(v: \""@ + flux_escape(
        start,
    ) + "\"), stop: time(v: \""@ + flux_escape(end) + "\"))\n"@
}

fn append_query_head(out: &mut String, bucket: &str, start: &str, end: &str)
    ensures
        final (out)@ == old(out)@ + spec_query_head(bucket@, start@, end@),
{
    out.append("from(bucket: \"");
    append_escaped(out, bucket);
    out.append("\")\n|> range(start: time(v: \"");
    append_escaped(out, start);
    out.append("\"), stop: time(v: \"");
    append_escaped(out, end);
    out.append("\"))\n");
    proof {
        assert(out@ =~= old(out)@ + spec_query_head(bucket@, start@, end@));
    }
}

/// The hourly range query: the allow-listed fields of the `weather`
/// measurement, averaged over non-empty one-hour windows, pivoted wide
/// and sorted by time.
pub open spec fn spec_hourly_query(bucket: Seq<char>, start: Seq<char>, end: Seq<char>) -> Seq<
    char,
> {
    spec_query_head(bucket, start, end)
        + "|> filter(fn: (r) => r._measurement == \"weather\")\n|> filter(fn: (r) =>\nr._field == \"tempc\" or r._field == \"tempinc\" or r._field == \"humidity\" or r._field == \"humidityin\" or\nr._field == \"windspeedkph\" or r._field == \"windgustkph\" or r._field == \"winddir\" or r._field == \"rainratemm\" or\nr._field == \"totalrainmm\" or r._field == \"uv\" or r._field == \"solarradiation\")\n|> aggregateWindow(every: 1h, fn: mean, createEmpty: false)\n|> pivot(rowKey:[\"_time\"], columnKey:[\"_field\"], valueColumn:\"_value\")\n|> sort(columns:[\"_time\"])\n|> rename(columns: {_measurement: \"_field\", submitted_by: \"_value\"})\n"@
}

/// Renders the hourly range query, exactly as [`spec_hourly_query`]
/// states it; pure, and injection-safe through escaping.
pub fn build_range_flux(bucket: &str, start: &str, end: &str) -> (r: String)
    ensures
        r@ == spec_hourly_query(bucket@, start@, end@),
{
    let mut out = String::new();
    append_query_head(&mut out, bucket, start, end);
    out.append(
        "|> filter(fn: (r) => r._measurement == \"weather\")\n|> filter(fn: (r) =>\nr._field == \"tempc\" or r._field == \"tempinc\" or r._field == \"humidity\" or r._field == \"humidityin\" or\nr._field == \"windspeedkph\" or r._field == \"windgustkph\" or r._field == \"winddir\" or r._field == \"rainratemm\" or\nr._field == \"totalrainmm\" or r._field == \"uv\" or r._field == \"solarradiation\")\n|> aggregateWindow(every: 1h, fn: mean, createEmpty: false)\n|> pivot(rowKey:[\"_time\"], columnKey:[\"_field\"], valueColumn:\"_value\")\n|> sort(columns:[\"_time\"])\n|> rename(columns: {_measurement: \"_field\", submitted_by: \"_value\"})\n",
    );
    proof {
        assert(out@ =~= spec_hourly_query(bucket@, start@, end@));
    }
    out
}

/// The monthly statistics query: six sub-pipelines over one-month windows
/// — absolute maxima, means of daily maxima, means, means of daily minima,
/// absolute minima, and the rainfall pipeline that turns the cumulative
/// counter into non-negative daily differences — inner-joined on the month
/// timestamp, so a month missing from any sub-pipeline is dropped whole.
pub open spec fn spec_monthly_query(bucket: Seq<char>, start: Seq<char>, end: Seq<char>) -> Seq<
    char,
> {
    "maximums = "@ + spec_query_head(bucket, start, end)
        + "|> filter(fn: (r) => r._measurement == \"weather\")\n|> filter(fn: (r) =>\nr._field == \"tempc\" or r._field == \"tempinc\" or r._field == \"humidity\" or r._field == \"humidityin\" or\nr._field == \"uv\" or r._field == \"solarradiation\")\n|> aggregateWindow(every: 1mo, fn: max, createEmpty: false, timeSrc: \"_start\")\n|> pivot(rowKey:[\"_time\"], columnKey:[\"_field\"], valueColumn:\"_value\")\n|> sort(columns:[\"_time\"])\n|> drop(columns: [\"_model\", \"_field\", \"_start\", \"_stop\", \"_value\", \"_measurement\", \"submitted_by\"])\n\nmean_maximums = "@
        + spec_query_head(bucket, start, end)
        + "|> filter(fn: (r) => r._measurement == \"weather\")\n|> filter(fn: (r) =>\nr._field == \"tempc\" or r._field == \"tempinc\" or r._field == \"humidity\" or r._field == \"humidityin\" or\nr._field == \"uv\" or r._field == \"solarradiation\")\n|> aggregateWindow(every: 1d, fn: max, createEmpty: false, timeSrc: \"_start\")\n|> aggregateWindow(every: 1mo, fn: mean, createEmpty: false, timeSrc: \"_start\")\n|> pivot(rowKey:[\"_time\"], columnKey:[\"_field\"], valueColumn:\"_value\")\n|> sort(columns:[\"_time\"])\n|> drop(columns: [\"_model\", \"_field\", \"_start\", \"_stop\", \"_value\", \"_measurement\", \"submitted_by\"])\n\naverages = "@
        + spec_query_head(bucket, start, end)
        + "|> filter(fn: (r) => r._measurement == \"weather\")\n|> filter(fn: (r) =>\nr._field == \"tempc\" or r._field == \"tempinc\" or r._field == \"humidity\" or r._field == \"humidityin\" or\nr._field == \"solarradiation\")\n|> aggregateWindow(every: 1mo, fn: mean, createEmpty: false, timeSrc: \"_start\")\n|> pivot(rowKey:[\"_time\"], columnKey:[\"_field\"], valueColumn:\"_value\")\n|> sort(columns:[\"_time\"])\n|> drop(columns: [\"_model\", \"_field\", \"_start\", \"_stop\", \"_value\", \"_measurement\", \"submitted_by\"])\n\nmean_minimums = "@
        + spec_query_head(bucket, start, end)
        + "|> filter(fn: (r) => r._measurement == \"weather\")\n|> filter(fn: (r) =>\nr._field == \"tempc\" or r._field == \"tempinc\" or r._field == \"humidity\" or r._field == \"humidityin\" or\nr._field == \"solarradiation\")\n|> aggregateWindow(every: 1d, fn: min, createEmpty: false, timeSrc: \"_start\")\n|> aggregateWindow(every: 1mo, fn: mean, createEmpty: false, timeSrc: \"_start\")\n|> pivot(rowKey:[\"_time\"], columnKey:[\"_field\"], valueColumn:\"_value\")\n|> sort(columns:[\"_time\"])\n|> drop(columns: [\"_model\", \"_field\", \"_start\", \"_stop\", \"_value\", \"_measurement\", \"submitted_by\"])\n\nminimums = "@
        + spec_query_head(bucket, start, end)
        + "|> filter(fn: (r) => r._measurement == \"weather\")\n|> filter(fn: (r) =>\nr._field == \"tempc\" or r._field == \"tempinc\" or r._field == \"humidity\" or r._field == \"humidityin\" or\nr._field == \"solarradiation\")\n|> aggregateWindow(every: 1mo, fn: min, createEmpty: false, timeSrc: \"_start\")\n|> pivot(rowKey:[\"_time\"], columnKey:[\"_field\"], valueColumn:\"_value\")\n|> sort(columns:[\"_time\"])\n|> drop(columns: [\"_model\", \"_field\", \"_start\", \"_stop\", \"_value\", \"submitted_by\"])\n\nrainy_days = "@
        + spec_query_head(bucket, start, end)
        + "|> filter(fn: (r) => r._measurement == \"weather\")\n|> filter(fn: (r) => r._field == \"totalrainmm\")\n|> aggregateWindow(every: 1d, fn: last, timeSrc: \"_start\")\n|> map(fn: (r) => ({ r with _value: if exists r._value then r._value else 0.0 }))\n|> difference(nonNegative: true, initialZero: true)\n\ntotal_rain = rainy_days\n|> aggregateWindow(every: 1mo, fn: sum, createEmpty: false, timeSrc: \"_start\")\n|> rename(columns: { _value: \"totalrainmm\" })\n|> drop(columns: [\"_model\", \"_field\", \"_start\", \"_stop\", \"_value\", \"_measurement\", \"submitted_by\", \"model\"])\n\nrainy_days_count = rainy_days\n|> map(fn: (r) => ({ r with _value: if r._value > 0 then 1 else 0 }))\n|> aggregateWindow(every: 1mo, fn: sum, createEmpty: false, timeSrc: \"_start\")\n|> rename(columns: { _value: \"raindayscount\" })\n|> drop(columns: [\"model\", \"_field\", \"_start\", \"_stop\", \"_value\", \"_measurement\", \"submitted_by\"])\n\nrain = join(\n    tables: {left: total_rain, right: rainy_days_count},\n    on: [\"_time\"],\n    method: \"inner\"\n)\n\nmax_mmax = join(\n  tables: {absolute: maximums, mean: mean_maximums},\n  on: [\"_time\"],\n  method: \"inner\"\n)\n\nmin_mmin = join(\n  tables: {absolute: minimums, mean: mean_minimums},\n  on: [\"_time\"],\n  method: \"inner\"\n)\n\nmin_max = join(\n  tables: {min: min_mmin, max: max_mmax},\n  on: [\"_time\"],\n  method: \"inner\"\n)\n\nmax_and_avgs = join(\n  tables: {abs: min_max, avg: averages},\n  on: [\"_time\"],\n  method: \"inner\"\n)\n\nall_stats = join(\n    tables: {left: max_and_avgs, right: rain},\n    on: [\"_time\"],\n    method: \"inner\"\n)\n\nall_stats\n  |> sort(columns: [\"_time\"])\n  |> rename(columns: {_measurement: \"_field\", model: \"_value\"})\n    "@
}

/// Renders the monthly statistics query, exactly as
/// [`spec_monthly_query`] states it; pure, and injection-safe through
/// escaping.
pub fn build_monthly_flux(bucket: &str, start: &str, end: &str) -> (r: String)
    ensures
        r@ == spec_monthly_query(bucket@, start@, end@),
{
    let mut out = String::new();
    out.append("maximums = ");
    append_query_head(&mut out, bucket, start, end);
    out.append(
        "|> filter(fn: (r) => r._measurement == \"weather\")\n|> filter(fn: (r) =>\nr._field == \"tempc\" or r._field == \"tempinc\" or r._field == \"humidity\" or r._field == \"humidityin\" or\nr._field == \"uv\" or r._field == \"solarradiation\")\n|> aggregateWindow(every: 1mo, fn: max, createEmpty: false, timeSrc: \"_start\")\n|> pivot(rowKey:[\"_time\"], columnKey:[\"_field\"], valueColumn:\"_value\")\n|> sort(columns:[\"_time\"])\n|> drop(columns: [\"_model\", \"_field\", \"_start\", \"_stop\", \"_value\", \"_measurement\", \"submitted_by\"])\n\nmean_maximums = ",
    );
    append_query_head(&mut out, bucket, start, end);
    out.append(
        "|> filter(fn: (r) => r._measurement == \"weather\")\n|> filter(fn: (r) =>\nr._field == \"tempc\" or r._field == \"tempinc\" or r._field == \"humidity\" or r._field == \"humidityin\" or\nr._field == \"uv\" or r._field == \"solarradiation\")\n|> aggregateWindow(every: 1d, fn: max, createEmpty: false, timeSrc: \"_start\")\n|> aggregateWindow(every: 1mo, fn: mean, createEmpty: false, timeSrc: \"_start\")\n|> pivot(rowKey:[\"_time\"], columnKey:[\"_field\"], valueColumn:\"_value\")\n|> sort(columns:[\"_time\"])\n|> drop(columns: [\"_model\", \"_field\", \"_start\", \"_stop\", \"_value\", \"_measurement\", \"submitted_by\"])\n\naverages = ",
    );
    append_query_head(&mut out, bucket, start, end);
    out.append(
        "|> filter(fn: (r) => r._measurement == \"weather\")\n|> filter(fn: (r) =>\nr._field == \"tempc\" or r._field == \"tempinc\" or r._field == \"humidity\" or r._field == \"humidityin\" or\nr._field == \"solarradiation\")\n|> aggregateWindow(every: 1mo, fn: mean, createEmpty: false, timeSrc: \"_start\")\n|> pivot(rowKey:[\"_time\"], columnKey:[\"_field\"], valueColumn:\"_value\")\n|> sort(columns:[\"_time\"])\n|> drop(columns: [\"_model\", \"_field\", \"_start\", \"_stop\", \"_value\", \"_measurement\", \"submitted_by\"])\n\nmean_minimums = ",
    );
    append_query_head(&mut out, bucket, start, end);
    out.append(
        "|> filter(fn: (r) => r._measurement == \"weather\")\n|> filter(fn: (r) =>\nr._field == \"tempc\" or r._field == \"tempinc\" or r._field == \"humidity\" or r._field == \"humidityin\" or\nr._field == \"solarradiation\")\n|> aggregateWindow(every: 1d, fn: min, createEmpty: false, timeSrc: \"_start\")\n|> aggregateWindow(every: 1mo, fn: mean, createEmpty: false, timeSrc: \"_start\")\n|> pivot(rowKey:[\"_time\"], columnKey:[\"_field\"], valueColumn:\"_value\")\n|> sort(columns:[\"_time\"])\n|> drop(columns: [\"_model\", \"_field\", \"_start\", \"_stop\", \"_value\", \"_measurement\", \"submitted_by\"])\n\nminimums = ",
    );
    append_query_head(&mut out, bucket, start, end);
    out.append(
        "|> filter(fn: (r) => r._measurement == \"weather\")\n|> filter(fn: (r) =>\nr._field == \"tempc\" or r._field == \"tempinc\" or r._field == \"humidity\" or r._field == \"humidityin\" or\nr._field == \"solarradiation\")\n|> aggregateWindow(every: 1mo, fn: min, createEmpty: false, timeSrc: \"_start\")\n|> pivot(rowKey:[\"_time\"], columnKey:[\"_field\"], valueColumn:\"_value\")\n|> sort(columns:[\"_time\"])\n|> drop(columns: [\"_model\", \"_field\", \"_start\", \"_stop\", \"_value\", \"submitted_by\"])\n\nrainy_days = ",
    );
    append_query_head(&mut out, bucket, start, end);
    out.append(
        "|> filter(fn: (r) => r._measurement == \"weather\")\n|> filter(fn: (r) => r._field == \"totalrainmm\")\n|> aggregateWindow(every: 1d, fn: last, timeSrc: \"_start\")\n|> map(fn: (r) => ({ r with _value: if exists r._value then r._value else 0.0 }))\n|> difference(nonNegative: true, initialZero: true)\n\ntotal_rain = rainy_days\n|> aggregateWindow(every: 1mo, fn: sum, createEmpty: false, timeSrc: \"_start\")\n|> rename(columns: { _value: \"totalrainmm\" })\n|> drop(columns: [\"_model\", \"_field\", \"_start\", \"_stop\", \"_value\", \"_measurement\", \"submitted_by\", \"model\"])\n\nrainy_days_count = rainy_days\n|> map(fn: (r) => ({ r with _value: if r._value > 0 then 1 else 0 }))\n|> aggregateWindow(every: 1mo, fn: sum, createEmpty: false, timeSrc: \"_start\")\n|> rename(columns: { _value: \"raindayscount\" })\n|> drop(columns: [\"model\", \"_field\", \"_start\", \"_stop\", \"_value\", \"_measurement\", \"submitted_by\"])\n\nrain = join(\n    tables: {left: total_rain, right: rainy_days_count},\n    on: [\"_time\"],\n    method: \"inner\"\n)\n\nmax_mmax = join(\n  tables: {absolute: maximums, mean: mean_maximums},\n  on: [\"_time\"],\n  method: \"inner\"\n)\n\nmin_mmin = join(\n  tables: {absolute: minimums, mean: mean_minimums},\n  on: [\"_time\"],\n  method: \"inner\"\n)\n\nmin_max = join(\n  tables: {min: min_mmin, max: max_mmax},\n  on: [\"_time\"],\n  method: \"inner\"\n)\n\nmax_and_avgs = join(\n  tables: {abs: min_max, avg: averages},\n  on: [\"_time\"],\n  method: \"inner\"\n)\n\nall_stats = join(\n    tables: {left: max_and_avgs, right: rain},\n    on: [\"_time\"],\n    method: \"inner\"\n)\n\nall_stats\n  |> sort(columns: [\"_time\"])\n  |> rename(columns: {_measurement: \"_field\", model: \"_value\"})\n    ",
    );
    proof {
        assert(out@ =~= spec_monthly_query(bucket@, start@, end@));
    }
    out
}

// ---------------------------------------------------------------------------
// The rendered query carries the request values verbatim.
// ---------------------------------------------------------------------------
/// `needle` occurs contiguously in `hay`.
pub open spec fn contains_seq(hay: Seq<char>, needle: Seq<char>) -> bool {
    exists|i: int|
        0 <= i <= hay.len() - needle.len() && #[trigger] hay.subrange(i, i + needle.len())
            == needle
}

/// The hourly query text carries the bucket name and both endpoint texts
/// verbatim, wherever they need no escaping.
pub proof fn lemma_hourly_query_verbatim(bucket: Seq<char>, start: Seq<char>, end: Seq<char>)
    requires
        flux_plain(bucket),
        flux_plain(start),
        flux_plain(end),
    ensures
        contains_seq(spec_hourly_query(bucket, start, end), bucket),
        contains_seq(spec_hourly_query(bucket, start, end), start),
        contains_seq(spec_hourly_query(bucket, start, end), end),
{
    lemma_escape_plain(bucket);
    lemma_escape_plain(start);
    lemma_escape_plain(end);
    reveal_strlit("from(bucket: \"");
    reveal_strlit("\")\n|> range(start: time(v: \"");
    reveal_strlit("\"), stop: time(v: \"");
    reveal_strlit("\"))\n");
    let t = spec_hourly_query(bucket, start, end);
    let i1 = 14int;
    let i2 = i1 + bucket.len() + 28;
    let i3 = i2 + start.len() + 19;
    assert(t.subrange(i1, i1 + bucket.len()) =~= bucket);
    assert(t.subrange(i2, i2 + start.len()) =~= start);
    assert(t.subrange(i3, i3 + end.len()) =~= end);
}

/// The monthly query text carries the bucket name and both endpoint texts
/// verbatim, wherever they need no escaping.
pub proof fn lemma_monthly_query_verbatim(bucket: Seq<char>, start: Seq<char>, end: Seq<char>)
    requires
        flux_plain(bucket),
        flux_plain(start),
        flux_plain(end),
    ensures
        contains_seq(spec_monthly_query(bucket, start, end), bucket),
        contains_seq(spec_monthly_query(bucket, start, end), start),
        contains_seq(spec_monthly_query(bucket, start, end), end),
{
    lemma_escape_plain(bucket);
    lemma_escape_plain(start);
    lemma_escape_plain(end);
    reveal_strlit("maximums = ");
    reveal_strlit("from(bucket: \"");
    reveal_strlit("\")\n|> range(start: time(v: \"");
    reveal_strlit("\"), stop: time(v: \"");
    reveal_strlit("\"))\n");
    let t = spec_monthly_query(bucket, start, end);
    let i1 = 11 + 14int;
    let i2 = i1 + bucket.len() + 28;
    let i3 = i2 + start.len() + 19;
    assert(t.subrange(i1, i1 + bucket.len()) =~= bucket);
    assert(t.subrange(i2, i2 + start.len()) =~= start);
    assert(t.subrange(i3, i3 + end.len()) =~= end);
}

/// A text that parses as an RFC 3339 date-time carries only date-time
/// characters, so it never needs escaping.
pub proof fn lemma_parsed_is_plain(s: Seq<char>)
    requires
        crate::time::spec_parse_rfc3339(s) is Some,
    ensures
        flux_plain(s),
{
    assert(date_time_shape(s));
    let frac = parse_frac(s, 19);
    assert(frac is Some);
    let rest = frac.unwrap().1;
    assert(parse_offset(s, rest) is Some);
    if s.len() > 19 && s[19] == '.' {
        crate::time::lemma_digit_run_end(s, 20);
        assert(rest == digit_run_end(s, 20));
    } else {
        assert(rest == 19);
    }
    let zulu = s[rest] == 'Z' || s[rest] == 'z';
    assert forall|i: int| 0 <= i < s.len() implies s[i] != '"' && (#[trigger] s[i]) != '\\' by {
        if i < 19 {
            assert(is_digit(s[0]) && is_digit(s[1]) && is_digit(s[2]) && is_digit(s[3]));
        } else if i < rest {
            assert(i == 19 || is_digit(s[i]));
        } else if zulu {
            assert(i == rest);
        } else {
            assert(s.len() == rest + 6);
            assert(s[rest] == '+' || s[rest] == '-');
            assert(is_digit(s[rest + 1]) && is_digit(s[rest + 2]) && is_digit(s[rest + 4])
                && is_digit(s[rest + 5]));
            assert(s[rest + 3] == ':');
        }
    }
}

// ---------------------------------------------------------------------------
// Planning a request: validation first, query text only on success.
// ---------------------------------------------------------------------------
/// Validates the requested range, then renders the hourly query.
/// `InvalidRange` comes exactly on the ranges [`spec_range_valid`]
/// refuses, and then no query text exists to send: validation always
/// precedes any store interaction.  On success the text carries both
/// endpoint texts verbatim.
pub fn plan_past_query(bucket: &str, params: &RangeParams) -> (r: Result<String, ApiError>)
    ensures
        (r is Ok) == spec_range_valid(params.start@, params.end@),
        r matches Ok(q) ==> {
            &&& q@ == spec_hourly_query(bucket@, params.start@, params.end@)
            &&& contains_seq(q@, params.start@)
            &&& contains_seq(q@, params.end@)
            &&& flux_plain(bucket@) ==> contains_seq(q@, bucket@)
        },
        r matches Err(e) ==> e is InvalidRange,
{
    match parse_time_range(params) {
        Err(e) => Err(e),
        Ok(_) => {
            proof {
                lemma_parsed_is_plain(params.start@);
                lemma_parsed_is_plain(params.end@);
                if flux_plain(bucket@) {
                    lemma_hourly_query_verbatim(bucket@, params.start@, params.end@);
                } else {
                    lemma_all_plain_query_verbatim(bucket@, params.start@, params.end@);
                }
            }
            Ok(build_range_flux(bucket, params.start.as_str(), params.end.as_str()))
        },
    }
}

/// Validates the requested range, then renders the monthly query, under
/// the same contract shape as [`plan_past_query`].
pub fn plan_monthly_query(bucket: &str, params: &RangeParams) -> (r: Result<String, ApiError>)
    ensures
        (r is Ok) == spec_range_valid(params.start@, params.end@),
        r matches Ok(q) ==> {
            &&& q@ == spec_monthly_query(bucket@, params.start@, params.end@)
            &&& contains_seq(q@, params.start@)
            &&& contains_seq(q@, params.end@)
            &&& flux_plain(bucket@) ==> contains_seq(q@, bucket@)
        },
        r matches Err(e) ==> e is InvalidRange,
{
    match parse_time_range(params) {
        Err(e) => Err(e),
        Ok(_) => {
            proof {
                lemma_parsed_is_plain(params.start@);
                lemma_parsed_is_plain(params.end@);
                if flux_plain(bucket@) {
                    lemma_monthly_query_verbatim(bucket@, params.start@, params.end@);
                } else {
                    lemma_all_plain_monthly_verbatim(bucket@, params.start@, params.end@);
                }
            }
            Ok(build_monthly_flux(bucket, params.start.as_str(), params.end.as_str()))
        },
    }
}

/// The endpoint texts stand verbatim in the hourly query whatever the
/// bucket is: only the positions behind the bucket shift by its escaping.
proof fn lemma_all_plain_query_verbatim(bucket: Seq<char>, start: Seq<char>, end: Seq<char>)
    requires
        flux_plain(start),
        flux_plain(end),
    ensures
        contains_seq(spec_hourly_query(bucket, start, end), start),
        contains_seq(spec_hourly_query(bucket, start, end), end),
{
    lemma_escape_plain(start);
    lemma_escape_plain(end);
    reveal_strlit("from(bucket: \"");
    reveal_strlit("\")\n|> range(start: time(v: \"");
    reveal_strlit("\"), stop: time(v: \"");
    reveal_strlit("\"))\n");
    let t = spec_hourly_query(bucket, start, end);
    let i2 = 14 + flux_escape(bucket).len() as int + 28;
    let i3 = i2 + start.len() + 19;
    assert(t.subrange(i2, i2 + start.len()) =~= start);
    assert(t.subrange(i3, i3 + end.len()) =~= end);
}

/// As [`lemma_all_plain_query_verbatim`], for the monthly query.
proof fn lemma_all_plain_monthly_verbatim(bucket: Seq<char>, start: Seq<char>, end: Seq<char>)
    requires
        flux_plain(start),
        flux_plain(end),
    ensures
        contains_seq(spec_monthly_query(bucket, start, end), start),
        contains_seq(spec_monthly_query(bucket, start, end), end),
{
    lemma_escape_plain(start);
    lemma_escape_plain(end);
    reveal_strlit("maximums = ");
    reveal_strlit("from(bucket: \"");
    reveal_strlit("\")\n|> range(start: time(v: \"");
    reveal_strlit("\"), stop: time(v: \"");
    reveal_strlit("\"))\n");
    let t = spec_monthly_query(bucket, start, end);
    let i2 = 11 + 14 + flux_escape(bucket).len() as int + 28;
    let i3 = i2 + start.len() + 19;
    assert(t.subrange(i2, i2 + start.len()) =~= start);
    assert(t.subrange(i3, i3 + end.len()) =~= end);
}

/// Renders the hourly query for the current day: from the local midnight
/// that opens the day of `now` up to `now` itself, both endpoints in
/// canonical RFC 3339 text.
pub fn plan_today_query(bucket: &str, now: &Timestamp) -> (r: String)
    requires
        now.wf(),
    ensures
        r@ == spec_hourly_query(
            bucket@,
            spec_rfc3339_text(Timestamp { hour: 0, minute: 0, second: 0, nanos: 0, ..*now }),
            spec_rfc3339_text(*now),
        ),
{
    let start = now.start_of_day();
    let start_text = format_rfc3339(&start);
    let end_text = format_rfc3339(now);
    build_range_flux(bucket, start_text.as_str(), end_text.as_str())
}

} // verus!
