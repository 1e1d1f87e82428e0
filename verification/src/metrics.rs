//! Metrics bookkeeping: the dashboard's time windows, hour buckets, what a
//! logged transaction contributes to the metrics tables, and the pricing tier
//! of a model. Amounts of money and averages are floating point and are
//! computed outside this library from the integers given here.
use vstd::prelude::*;
use crate::text::{
    occurs_at, decimal, digit_char, has_substring, lowercase_str, str_eq, to_chars, contains_chars,
    unicode_lowercase, all_ascii, ascii_lowercase,
};

verus! {

#[verifier::external_type_specification]
#[verifier::external_body]
pub struct ExChronoParseError(chrono::ParseError);

/// A dashboard time window.
#[derive(Clone, Copy, PartialEq, Eq, Structural)]
pub enum TimeWindow {
    Minutes1,
    Minutes5,
    Minutes15,
    Hours1,
    Hours6,
    Hours12,
    Hours24,
}

impl TimeWindow {
    /// The window a query value names: `1m`, `5m`, `15m`, `1h`, `6h`, `12h`
    /// or `24h`.
    pub open spec fn parse_spec(s: Seq<char>) -> Option<TimeWindow> {
        if s == "1m"@ {
            Some(TimeWindow::Minutes1)
        } else if s == "5m"@ {
            Some(TimeWindow::Minutes5)
        } else if s == "15m"@ {
            Some(TimeWindow::Minutes15)
        } else if s == "1h"@ {
            Some(TimeWindow::Hours1)
        } else if s == "6h"@ {
            Some(TimeWindow::Hours6)
        } else if s == "12h"@ {
            Some(TimeWindow::Hours12)
        } else if s == "24h"@ {
            Some(TimeWindow::Hours24)
        } else {
            None
        }
    }

    /// Reads a window from its query value.
    pub fn from_str(s: &str) -> (r: Option<TimeWindow>)
        ensures
            r == Self::parse_spec(s@),
    {
        if str_eq(s, "1m") {
            Some(TimeWindow::Minutes1)
        } else if str_eq(s, "5m") {
            Some(TimeWindow::Minutes5)
        } else if str_eq(s, "15m") {
            Some(TimeWindow::Minutes15)
        } else if str_eq(s, "1h") {
            Some(TimeWindow::Hours1)
        } else if str_eq(s, "6h") {
            Some(TimeWindow::Hours6)
        } else if str_eq(s, "12h") {
            Some(TimeWindow::Hours12)
        } else if str_eq(s, "24h") {
            Some(TimeWindow::Hours24)
        } else {
            None
        }
    }

    /// The length of the window in seconds.
    pub open spec fn seconds_spec(self) -> i64 {
        match self {
            TimeWindow::Minutes1 => 60,
            TimeWindow::Minutes5 => 300,
            TimeWindow::Minutes15 => 900,
            TimeWindow::Hours1 => 3600,
            TimeWindow::Hours6 => 21600,
            TimeWindow::Hours12 => 43200,
            TimeWindow::Hours24 => 86400,
        }
    }

    /// The length of the window in seconds.
    pub fn as_seconds(&self) -> (r: i64)
        ensures
            r == self.seconds_spec(),
    {
        match self {
            TimeWindow::Minutes1 => 60,
            TimeWindow::Minutes5 => 300,
            TimeWindow::Minutes15 => 900,
            TimeWindow::Hours1 => 3600,
            TimeWindow::Hours6 => 21600,
            TimeWindow::Hours12 => 43200,
            TimeWindow::Hours24 => 86400,
        }
    }

    /// The window's name for people.
    pub open spec fn label_spec(self) -> Seq<char> {
        match self {
            TimeWindow::Minutes1 => "1 minute"@,
            TimeWindow::Minutes5 => "5 minutes"@,
            TimeWindow::Minutes15 => "15 minutes"@,
            TimeWindow::Hours1 => "1 hour"@,
            TimeWindow::Hours6 => "6 hours"@,
            TimeWindow::Hours12 => "12 hours"@,
            TimeWindow::Hours24 => "24 hours"@,
        }
    }

    /// The window's name for people.
    pub fn as_label(&self) -> (r: &'static str)
        ensures
            r@ == self.label_spec(),
    {
        match self {
            TimeWindow::Minutes1 => "1 minute",
            TimeWindow::Minutes5 => "5 minutes",
            TimeWindow::Minutes15 => "15 minutes",
            TimeWindow::Hours1 => "1 hour",
            TimeWindow::Hours6 => "6 hours",
            TimeWindow::Hours12 => "12 hours",
            TimeWindow::Hours24 => "24 hours",
        }
    }

    /// The width in seconds of the buckets a chart of this window uses.
    pub open spec fn bucket_spec(self) -> i64 {
        match self {
            TimeWindow::Minutes1 => 10,
            TimeWindow::Minutes5 => 60,
            TimeWindow::Minutes15 => 300,
            TimeWindow::Hours1 => 300,
            TimeWindow::Hours6 => 1800,
            TimeWindow::Hours12 => 3600,
            TimeWindow::Hours24 => 3600,
        }
    }

    /// The width in seconds of the buckets a chart of this window uses.
    pub fn bucket_seconds(&self) -> (r: i64)
        ensures
            r == self.bucket_spec(),
    {
        match self {
            TimeWindow::Minutes1 => 10,
            TimeWindow::Minutes5 => 60,
            TimeWindow::Minutes15 => 300,
            TimeWindow::Hours1 => 300,
            TimeWindow::Hours6 => 1800,
            TimeWindow::Hours12 => 3600,
            TimeWindow::Hours24 => 3600,
        }
    }

    /// The window a request asks for: the named one, or one hour where the
    /// value is missing or names no window.
    pub fn from_param(param: Option<&str>) -> (r: TimeWindow)
        ensures
            r == match param {
                Some(p) => match Self::parse_spec(p@) {
                    Some(w) => w,
                    None => TimeWindow::Hours1,
                },
                None => TimeWindow::Hours1,
            },
    {
        match param {
            Some(p) => match Self::from_str(p) {
                Some(w) => w,
                None => TimeWindow::Hours1,
            },
            None => TimeWindow::Hours1,
        }
    }
}

/// The query of the chart and stats endpoints.
pub struct ChartParams {
    pub hours: Option<i64>,
    pub window: Option<String>,
}

impl ChartParams {
    /// The number of hours the hourly chart covers: the requested number, 24
    /// by default.
    pub fn hours_or_default(&self) -> (r: i64)
        ensures
            r == match self.hours {
                Some(h) => h,
                None => 24,
            },
    {
        match self.hours {
            Some(h) => h,
            None => 24,
        }
    }

    /// The window the query asks for, one hour by default.
    pub fn time_window(&self) -> (r: TimeWindow)
        ensures
            r == match self.window {
                Some(w) => match TimeWindow::parse_spec(w@) {
                    Some(t) => t,
                    None => TimeWindow::Hours1,
                },
                None => TimeWindow::Hours1,
            },
    {
        match &self.window {
            Some(w) => TimeWindow::from_param(Some(w.as_str())),
            None => TimeWindow::from_param(None),
        }
    }

    /// The window value as the stats pane shows it: as given, `1h` by default.
    pub fn window_text(&self) -> (r: String)
        ensures
            r@ == match self.window {
                Some(w) => w@,
                None => "1h"@,
            },
    {
        match &self.window {
            Some(w) => w.clone(),
            None => String::from_str("1h"),
        }
    }
}

/// Requests in one hour of the hourly chart.
pub struct HourlyData {
    pub hour: String,
    pub requests: i64,
}

/// One point of the chart of a window.
pub struct ChartDataPoint {
    pub label: String,
    pub requests: i64,
}

/// Integer division rounding toward zero, as Rust's `/` on integers does.
pub open spec fn div_toward_zero(a: int, b: int) -> int {
    if a >= 0 {
        a / b
    } else {
        -((-a) / b)
    }
}

/// The start of the hour bucket of a Unix timestamp: the timestamp divided
/// by 3600 (rounding toward zero) and multiplied back.
pub open spec fn hour_bucket_spec(ts: i64) -> int {
    div_toward_zero(ts as int, 3600) * 3600
}

/// The hour bucket that a Unix timestamp falls into.
pub fn hour_bucket(ts: i64) -> (r: i64)
    ensures
        r == hour_bucket_spec(ts),
{
    let q = ts / 3600;
    assert(q == div_toward_zero(ts as int, 3600));
    q * 3600
}

/// The first second of a window that ends at `now`.
pub fn window_start(now: i64, window: TimeWindow) -> (r: i64)
    requires
        now - window.seconds_spec() >= i64::MIN,
    ensures
        r == now - window.seconds_spec(),
{
    now - window.as_seconds()
}

/// The largest number of seconds a `chrono::TimeDelta` holds.
pub open spec fn max_delta_seconds() -> int {
    i64::MAX / 1000
}

/// The first hour bucket of the hourly chart over the last `hours` hours:
/// the bucket of `now` minus that many hours.
pub fn chart_start_bucket(now: i64, hours: i64) -> (r: i64)
    requires
        -max_delta_seconds() <= hours * 3600 <= max_delta_seconds(),
        i64::MIN <= now - hours * 3600 <= i64::MAX,
    ensures
        r == hour_bucket_spec((now - hours * 3600) as i64),
{
    hour_bucket(now - hours * 3600)
}

/// The buckets the dashboard sums over: those from the hour before `now`,
/// and those from the start of the current day (UTC).
pub struct DashboardRanges {
    pub last_hour_bucket: i64,
    pub today_start: i64,
}

/// The start of the UTC day of a Unix timestamp.
pub open spec fn day_start_spec(now: i64) -> int {
    now - (now as int) % 86400
}

/// The ranges the dashboard's windows cover at `now`.
pub fn dashboard_ranges(now: i64) -> (r: DashboardRanges)
    requires
        now >= i64::MIN + 86400,
    ensures
        r.last_hour_bucket == hour_bucket_spec((now - 3600) as i64),
        r.today_start == day_start_spec(now),
{
    let mut rem = now % 86400;
    if rem < 0 {
        rem = rem + 86400;
    }
    assert(rem == (now as int) % 86400);
    DashboardRanges { last_hour_bucket: hour_bucket(now - 3600), today_start: now - rem }
}

/// How a status counts in the error columns: as a client error (4xx) and as
/// a server error (5xx and above).
pub fn error_counts(status: u16) -> (r: (i64, i64))
    ensures
        r.0 == (if 400 <= status < 500 {
            1i64
        } else {
            0i64
        }),
        r.1 == (if status >= 500 {
            1i64
        } else {
            0i64
        }),
{
    let client: i64 = if status >= 400 && status < 500 {
        1
    } else {
        0
    };
    let server: i64 = if status >= 500 {
        1
    } else {
        0
    };
    (client, server)
}

/// The pricing tier of a model; the price per 1K tokens of each tier lives
/// with the cost computation.
#[derive(Clone, Copy, PartialEq, Eq, Structural)]
pub enum PriceTier {
    Gpt4o,
    Gpt4oMini,
    Gpt4Turbo,
    Gpt4,
    Gpt35Turbo,
    /// No name matched; priced like gpt-3.5-turbo.
    Unlisted,
}

/// The pricing tier of a lower-cased model name: the tier of the most
/// specific listed name it contains. `gpt-4o-mini` is tested before
/// `gpt-4o` and `gpt-4-turbo` before `gpt-4`, so each listed model gets its
/// own price; a name that contains none of them is `Unlisted`.
pub open spec fn tier_of(lower: Seq<char>) -> PriceTier {
    if has_substring(lower, "gpt-4o-mini"@) {
        PriceTier::Gpt4oMini
    } else if has_substring(lower, "gpt-4o"@) {
        PriceTier::Gpt4o
    } else if has_substring(lower, "gpt-4-turbo"@) {
        PriceTier::Gpt4Turbo
    } else if has_substring(lower, "gpt-4"@) {
        PriceTier::Gpt4
    } else if has_substring(lower, "gpt-3.5-turbo"@) {
        PriceTier::Gpt35Turbo
    } else {
        PriceTier::Unlisted
    }
}

/// The pricing tier of a model: matched on its lower-cased name.
pub fn price_tier(model: &str) -> (r: PriceTier)
    ensures
        r == tier_of(unicode_lowercase(model@)),
        all_ascii(model@) ==> r == tier_of(ascii_lowercase(model@)),
{
    let lower = lowercase_str(model);
    let v = to_chars(lower.as_str());
    if contains_chars(&v, &to_chars("gpt-4o-mini")) {
        PriceTier::Gpt4oMini
    } else if contains_chars(&v, &to_chars("gpt-4o")) {
        PriceTier::Gpt4o
    } else if contains_chars(&v, &to_chars("gpt-4-turbo")) {
        PriceTier::Gpt4Turbo
    } else if contains_chars(&v, &to_chars("gpt-4")) {
        PriceTier::Gpt4
    } else if contains_chars(&v, &to_chars("gpt-3.5-turbo")) {
        PriceTier::Gpt35Turbo
    } else {
        PriceTier::Unlisted
    }
}

proof fn lemma_not_contained(hay: Seq<char>, needle: Seq<char>, k: int)
    requires
        0 <= k < needle.len(),
        forall|i: int| 1 <= i < hay.len() ==> hay[i] != needle[0],
        k < hay.len() ==> hay[k] != needle[k],
    ensures
        !has_substring(hay, needle),
{
    assert forall|at: int| !occurs_at(hay, needle, at) by {
        if occurs_at(hay, needle, at) {
            if at == 0 {
                assert(hay.subrange(0, needle.len() as int)[k] == needle[k]);
            } else {
                assert(hay.subrange(at, at + needle.len())[0] == needle[0]);
            }
        }
    }
}

proof fn lemma_contains_itself(s: Seq<char>)
    ensures
        has_substring(s, s),
{
    assert(s.subrange(0, s.len() as int) =~= s);
    assert(occurs_at(s, s, 0));
}

proof fn lemma_plain_name(s: Seq<char>)
    requires
        forall|i: int|
            0 <= i < s.len() ==> {
                let c = #[trigger] s[i];
                ||| 'a' <= c <= 'z'
                ||| '0' <= c <= '9'
                ||| c == '-'
                ||| c == '.'
            },
    ensures
        all_ascii(s),
        ascii_lowercase(s) == s,
{
    assert(ascii_lowercase(s) =~= s);
}

proof fn lemma_mini_plain()
    ensures
        all_ascii("gpt-4o-mini"@),
        ascii_lowercase("gpt-4o-mini"@) == "gpt-4o-mini"@,
{
    reveal_strlit("gpt-4o-mini");
    lemma_plain_name("gpt-4o-mini"@);
}

proof fn lemma_4o_plain()
    ensures
        all_ascii("gpt-4o"@),
        ascii_lowercase("gpt-4o"@) == "gpt-4o"@,
{
    reveal_strlit("gpt-4o");
    lemma_plain_name("gpt-4o"@);
}

proof fn lemma_turbo_plain()
    ensures
        all_ascii("gpt-4-turbo"@),
        ascii_lowercase("gpt-4-turbo"@) == "gpt-4-turbo"@,
{
    reveal_strlit("gpt-4-turbo");
    lemma_plain_name("gpt-4-turbo"@);
}

proof fn lemma_gpt4_plain()
    ensures
        all_ascii("gpt-4"@),
        ascii_lowercase("gpt-4"@) == "gpt-4"@,
{
    reveal_strlit("gpt-4");
    lemma_plain_name("gpt-4"@);
}

proof fn lemma_gpt35_plain()
    ensures
        all_ascii("gpt-3.5-turbo"@),
        ascii_lowercase("gpt-3.5-turbo"@) == "gpt-3.5-turbo"@,
{
    reveal_strlit("gpt-3.5-turbo");
    lemma_plain_name("gpt-3.5-turbo"@);
}

proof fn lemma_mini_tier()
    ensures
        tier_of("gpt-4o-mini"@) == PriceTier::Gpt4oMini,
{
    assert(has_substring("gpt-4o-mini"@, "gpt-4o-mini"@)) by {
        lemma_contains_itself("gpt-4o-mini"@);
    }
}

proof fn lemma_4o_tier()
    ensures
        tier_of("gpt-4o"@) == PriceTier::Gpt4o,
{
    assert(!has_substring("gpt-4o"@, "gpt-4o-mini"@)) by {
        reveal_strlit("gpt-4o");
        reveal_strlit("gpt-4o-mini");
        lemma_not_contained("gpt-4o"@, "gpt-4o-mini"@, 6);
    }
    assert(has_substring("gpt-4o"@, "gpt-4o"@)) by {
        lemma_contains_itself("gpt-4o"@);
    }
}

proof fn lemma_turbo_tier()
    ensures
        tier_of("gpt-4-turbo"@) == PriceTier::Gpt4Turbo,
{
    assert(!has_substring("gpt-4-turbo"@, "gpt-4o-mini"@)) by {
        reveal_strlit("gpt-4-turbo");
        reveal_strlit("gpt-4o-mini");
        lemma_not_contained("gpt-4-turbo"@, "gpt-4o-mini"@, 5);
    }
    assert(!has_substring("gpt-4-turbo"@, "gpt-4o"@)) by {
        reveal_strlit("gpt-4-turbo");
        reveal_strlit("gpt-4o");
        lemma_not_contained("gpt-4-turbo"@, "gpt-4o"@, 5);
    }
    assert(has_substring("gpt-4-turbo"@, "gpt-4-turbo"@)) by {
        lemma_contains_itself("gpt-4-turbo"@);
    }
}

proof fn lemma_gpt4_tier()
    ensures
        tier_of("gpt-4"@) == PriceTier::Gpt4,
{
    assert(!has_substring("gpt-4"@, "gpt-4o-mini"@)) by {
        reveal_strlit("gpt-4");
        reveal_strlit("gpt-4o-mini");
        lemma_not_contained("gpt-4"@, "gpt-4o-mini"@, 5);
    }
    assert(!has_substring("gpt-4"@, "gpt-4o"@)) by {
        reveal_strlit("gpt-4");
        reveal_strlit("gpt-4o");
        lemma_not_contained("gpt-4"@, "gpt-4o"@, 5);
    }
    assert(!has_substring("gpt-4"@, "gpt-4-turbo"@)) by {
        reveal_strlit("gpt-4");
        reveal_strlit("gpt-4-turbo");
        lemma_not_contained("gpt-4"@, "gpt-4-turbo"@, 5);
    }
    assert(has_substring("gpt-4"@, "gpt-4"@)) by {
        lemma_contains_itself("gpt-4"@);
    }
}

proof fn lemma_gpt35_tier()
    ensures
        tier_of("gpt-3.5-turbo"@) == PriceTier::Gpt35Turbo,
{
    assert(!has_substring("gpt-3.5-turbo"@, "gpt-4o-mini"@)) by {
        reveal_strlit("gpt-3.5-turbo");
        reveal_strlit("gpt-4o-mini");
        lemma_not_contained("gpt-3.5-turbo"@, "gpt-4o-mini"@, 4);
    }
    assert(!has_substring("gpt-3.5-turbo"@, "gpt-4o"@)) by {
        reveal_strlit("gpt-3.5-turbo");
        reveal_strlit("gpt-4o");
        lemma_not_contained("gpt-3.5-turbo"@, "gpt-4o"@, 4);
    }
    assert(!has_substring("gpt-3.5-turbo"@, "gpt-4-turbo"@)) by {
        reveal_strlit("gpt-3.5-turbo");
        reveal_strlit("gpt-4-turbo");
        lemma_not_contained("gpt-3.5-turbo"@, "gpt-4-turbo"@, 4);
    }
    assert(!has_substring("gpt-3.5-turbo"@, "gpt-4"@)) by {
        reveal_strlit("gpt-3.5-turbo");
        reveal_strlit("gpt-4");
        lemma_not_contained("gpt-3.5-turbo"@, "gpt-4"@, 4);
    }
    assert(has_substring("gpt-3.5-turbo"@, "gpt-3.5-turbo"@)) by {
        lemma_contains_itself("gpt-3.5-turbo"@);
    }
}

/// Each model of the price table, written in lower case, gets its own tier,
/// also as `price_tier` reads the name (an all-ASCII name is lower-cased
/// letter by letter).
pub proof fn listed_models_get_own_tier()
    ensures
        all_ascii("gpt-4o-mini"@),
        all_ascii("gpt-4o"@),
        all_ascii("gpt-4-turbo"@),
        all_ascii("gpt-4"@),
        all_ascii("gpt-3.5-turbo"@),
        tier_of(ascii_lowercase("gpt-4o-mini"@)) == PriceTier::Gpt4oMini,
        tier_of(ascii_lowercase("gpt-4o"@)) == PriceTier::Gpt4o,
        tier_of(ascii_lowercase("gpt-4-turbo"@)) == PriceTier::Gpt4Turbo,
        tier_of(ascii_lowercase("gpt-4"@)) == PriceTier::Gpt4,
        tier_of(ascii_lowercase("gpt-3.5-turbo"@)) == PriceTier::Gpt35Turbo,
        tier_of("gpt-4o-mini"@) == PriceTier::Gpt4oMini,
        tier_of("gpt-4o"@) == PriceTier::Gpt4o,
        tier_of("gpt-4-turbo"@) == PriceTier::Gpt4Turbo,
        tier_of("gpt-4"@) == PriceTier::Gpt4,
        tier_of("gpt-3.5-turbo"@) == PriceTier::Gpt35Turbo,
{
    lemma_mini_plain();
    lemma_4o_plain();
    lemma_turbo_plain();
    lemma_gpt4_plain();
    lemma_gpt35_plain();
    lemma_mini_tier();
    lemma_4o_tier();
    lemma_turbo_tier();
    lemma_gpt4_tier();
    lemma_gpt35_tier();
}

/// A model is priced by the most specific listed name its lower-cased name
/// contains, and only a name that contains none of them is unlisted:
/// containing `gpt-4o-mini` gives that tier whatever else the name holds,
/// `gpt-4o` the next, then `gpt-4-turbo`, `gpt-4` and `gpt-3.5-turbo`.
pub proof fn tier_is_most_specific_listed_name(lower: Seq<char>)
    ensures
        has_substring(lower, "gpt-4o-mini"@) ==> tier_of(lower) == PriceTier::Gpt4oMini,
        !has_substring(lower, "gpt-4o-mini"@) && has_substring(lower, "gpt-4o"@) ==> tier_of(lower)
            == PriceTier::Gpt4o,
        !has_substring(lower, "gpt-4o"@) && has_substring(lower, "gpt-4-turbo"@) ==> tier_of(lower)
            == PriceTier::Gpt4Turbo,
        !has_substring(lower, "gpt-4o"@) && !has_substring(lower, "gpt-4-turbo"@)
            && has_substring(lower, "gpt-4"@) ==> tier_of(lower) == PriceTier::Gpt4,
        !has_substring(lower, "gpt-4"@) && has_substring(lower, "gpt-3.5-turbo"@) ==> tier_of(lower)
            == PriceTier::Gpt35Turbo,
        tier_of(lower) == PriceTier::Unlisted <==> (!has_substring(lower, "gpt-4o-mini"@)
            && !has_substring(lower, "gpt-4o"@) && !has_substring(lower, "gpt-4-turbo"@)
            && !has_substring(lower, "gpt-4"@) && !has_substring(lower, "gpt-3.5-turbo"@)),
{
    if has_substring(lower, "gpt-4o-mini"@) {
        lemma_prefix_mini_4o();
        lemma_substring_of_contained(lower, "gpt-4o-mini"@, "gpt-4o"@);
    }
    if has_substring(lower, "gpt-4o"@) || has_substring(lower, "gpt-4-turbo"@) {
        if has_substring(lower, "gpt-4o"@) {
            lemma_prefix_4o_4();
            lemma_substring_of_contained(lower, "gpt-4o"@, "gpt-4"@);
        } else {
            lemma_prefix_turbo_4();
            lemma_substring_of_contained(lower, "gpt-4-turbo"@, "gpt-4"@);
        }
    }
}

proof fn lemma_prefix_mini_4o()
    ensures
        "gpt-4o"@.len() <= "gpt-4o-mini"@.len(),
        "gpt-4o-mini"@.take("gpt-4o"@.len() as int) == "gpt-4o"@,
{
    reveal_strlit("gpt-4o-mini");
    reveal_strlit("gpt-4o");
    assert("gpt-4o-mini"@.take("gpt-4o"@.len() as int) =~= "gpt-4o"@);
}

proof fn lemma_prefix_4o_4()
    ensures
        "gpt-4"@.len() <= "gpt-4o"@.len(),
        "gpt-4o"@.take("gpt-4"@.len() as int) == "gpt-4"@,
{
    reveal_strlit("gpt-4o");
    reveal_strlit("gpt-4");
    assert("gpt-4o"@.take("gpt-4"@.len() as int) =~= "gpt-4"@);
}

proof fn lemma_prefix_turbo_4()
    ensures
        "gpt-4"@.len() <= "gpt-4-turbo"@.len(),
        "gpt-4-turbo"@.take("gpt-4"@.len() as int) == "gpt-4"@,
{
    reveal_strlit("gpt-4-turbo");
    reveal_strlit("gpt-4");
    assert("gpt-4-turbo"@.take("gpt-4"@.len() as int) =~= "gpt-4"@);
}

/// A name that contains `big`, which starts with `small`, contains `small`.
proof fn lemma_substring_of_contained(s: Seq<char>, big: Seq<char>, small: Seq<char>)
    requires
        has_substring(s, big),
        small.len() <= big.len(),
        big.take(small.len() as int) == small,
    ensures
        has_substring(s, small),
{
    let at = choose|at: int| occurs_at(s, big, at);
    assert(s.subrange(at, at + small.len()) =~= big.take(small.len() as int));
    assert(occurs_at(s, small, at));
}

/// The Unix timestamp that `chrono::DateTime::parse_from_rfc3339` reads
/// from `s`, or `None` where it rejects `s`.
pub uninterp spec fn rfc3339_seconds(s: Seq<char>) -> Option<i64>;

/// Calls `chrono::DateTime::parse_from_rfc3339` and takes the parsed time as
/// its Unix timestamp (`timestamp`, which no time zone changes). Which
/// strings parse is not stated; the outcome is named `rfc3339_seconds`.
#[verifier::external_body]
fn parse_rfc3339(s: &str) -> (r: Result<i64, chrono::ParseError>)
    ensures
        r is Ok <==> rfc3339_seconds(s@) is Some,
        r matches Ok(t) ==> rfc3339_seconds(s@) == Some(t),
{
    chrono::DateTime::parse_from_rfc3339(s).map(|d| d.timestamp())
}

/// The text `chrono` writes for the UTC time of a Unix timestamp with the
/// format `fmt`, or `None` where `chrono::DateTime::from_timestamp` has no
/// time for the timestamp.
pub uninterp spec fn utc_formatted(secs: i64, fmt: Seq<char>) -> Option<Seq<char>>;

/// Two decimal digits for `n`, which is below 100.
pub open spec fn two_digits(n: int) -> Seq<char> {
    seq![digit_char((n / 10) as nat), digit_char((n % 10) as nat)]
}

/// The `HH:MM` clock reading in UTC of a Unix timestamp.
pub open spec fn utc_clock_text(secs: i64) -> Seq<char> {
    let day_secs = (secs as int) % 86400;
    two_digits(day_secs / 3600) + seq![':'] + two_digits((day_secs % 3600) / 60)
}

/// Calls `chrono::DateTime::from_timestamp(secs, 0)` and formats the time
/// with `format(fmt)`. The outcome is named `utc_formatted`; for `%H:%M` the
/// crate documents the zero-padded hour and minute of the UTC time, which is
/// stated. For the `%Y-%m-%d` format the text is not stated.
#[verifier::external_body]
fn format_utc(secs: i64, fmt: &str) -> (r: Option<String>)
    requires
        fmt@ == "%H:%M"@ || fmt@ == "%Y-%m-%d"@,
    ensures
        r is None <==> utc_formatted(secs, fmt@) is None,
        r matches Some(t) ==> utc_formatted(secs, fmt@) == Some(t@),
        fmt@ == "%H:%M"@ ==> (r matches Some(t) ==> t@ == utc_clock_text(secs)),
{
    chrono::DateTime::from_timestamp(secs, 0).map(|d| d.format(fmt).to_string())
}

/// The `HH:MM` label (UTC) of a chart bucket, or `None` where chrono has no
/// time for the timestamp.
pub fn clock_label(secs: i64) -> (r: Option<String>)
    ensures
        r is None <==> utc_formatted(secs, "%H:%M"@) is None,
        r matches Some(t) ==> t@ == utc_clock_text(secs),
{
    format_utc(secs, "%H:%M")
}

/// The `YYYY-MM-DD` date (UTC) of a Unix timestamp, the key of the daily
/// totals, or `None` where chrono has no time for the timestamp.
pub fn date_bucket(secs: i64) -> (r: Option<String>)
    ensures
        r is None <==> utc_formatted(secs, "%Y-%m-%d"@) is None,
        r matches Some(t) ==> utc_formatted(secs, "%Y-%m-%d"@) == Some(t@),
{
    format_utc(secs, "%Y-%m-%d")
}

/// A chart point for a bucket: labelled with the bucket's `HH:MM`, or with
/// `fallback` (the label of the current time) where chrono has no time for
/// the bucket.
pub fn chart_point(bucket: i64, requests: i64, fallback: &str) -> (r: ChartDataPoint)
    ensures
        r.requests == requests,
        utc_formatted(bucket, "%H:%M"@) is Some ==> r.label@ == utc_clock_text(bucket),
        utc_formatted(bucket, "%H:%M"@) is None ==> r.label@ == fallback@,
{
    let label = match clock_label(bucket) {
        Some(t) => t,
        None => String::from_str(fallback),
    };
    ChartDataPoint { label, requests }
}

/// A point of the hourly chart, labelled as `chart_point` labels.
pub fn hourly_point(bucket: i64, requests: i64, fallback: &str) -> (r: HourlyData)
    ensures
        r.requests == requests,
        utc_formatted(bucket, "%H:%M"@) is Some ==> r.hour@ == utc_clock_text(bucket),
        utc_formatted(bucket, "%H:%M"@) is None ==> r.hour@ == fallback@,
{
    let p = chart_point(bucket, requests, fallback);
    HourlyData { hour: p.label, requests: p.requests }
}

/// Token counts of a logged response body's `usage`, each where it is an
/// unsigned integer.
pub struct UsageFields {
    pub prompt_tokens: Option<u64>,
    pub completion_tokens: Option<u64>,
}

/// What metrics read of a logged response body: its `model` where it is a
/// string, and its `usage` where present.
pub struct ResponseBodyFields {
    pub model: Option<String>,
    pub usage: Option<UsageFields>,
}

/// What metrics read of a logged response: `status` and `latency_ms` where
/// they are unsigned integers, and the body where present.
pub struct ResponseFields {
    pub status: Option<u64>,
    pub latency_ms: Option<u64>,
    pub body: Option<ResponseBodyFields>,
}

/// What metrics read of a logged transaction: whether it has a `request`,
/// its `timestamp` where it is a string, and its `response` where present.
pub struct LoggedTransaction {
    pub has_request: bool,
    pub timestamp: Option<String>,
    pub response: Option<ResponseFields>,
}

/// The metrics of one transaction. The time is a Unix timestamp; the cost,
/// a floating-point amount, is computed from the model's pricing tier and
/// the token counts outside this library.
pub struct TransactionMetrics {
    pub model: String,
    pub status: u16,
    pub latency_ms: i64,
    pub prompt_tokens: i64,
    pub completion_tokens: i64,
    pub timestamp: i64,
}

/// A transaction yields metrics when it has a request, a response with a
/// body, an integer status and latency, and a timestamp that parses as RFC 3339.
pub open spec fn yields_metrics(tx: LoggedTransaction) -> bool {
    &&& tx.has_request
    &&& tx.response matches Some(resp) && {
        &&& resp.body is Some
        &&& resp.status is Some
        &&& resp.latency_ms is Some
    }
    &&& tx.timestamp matches Some(ts) && rfc3339_seconds(ts@) is Some
}

/// The model a response body names, `unknown` where it names none.
pub open spec fn model_of(body: ResponseBodyFields) -> Seq<char> {
    match body.model {
        Some(m) => m@,
        None => "unknown"@,
    }
}

/// A token count of the usage: the count where present, else 0, as `i64`
/// (a count above `i64::MAX` wraps as an `as i64` conversion does).
pub open spec fn token_count(usage: Option<UsageFields>, prompt: bool) -> i64 {
    match usage {
        Some(u) => {
            let c = if prompt {
                u.prompt_tokens
            } else {
                u.completion_tokens
            };
            match c {
                Some(n) => n as i64,
                None => 0,
            }
        },
        None => 0,
    }
}

/// `m` holds the metrics of `tx`, which yields metrics.
pub open spec fn is_metrics_of(m: TransactionMetrics, tx: LoggedTransaction) -> bool {
    let resp = tx.response->0;
    let body = resp.body->0;
    &&& m.model@ == model_of(body)
    &&& m.status == resp.status->0 as u16
    &&& m.latency_ms == resp.latency_ms->0 as i64
    &&& m.prompt_tokens == token_count(body.usage, true)
    &&& m.completion_tokens == token_count(body.usage, false)
    &&& m.timestamp == rfc3339_seconds(tx.timestamp->0@)->0
}

fn count_of(c: Option<u64>) -> (r: i64)
    ensures
        r == match c {
            Some(n) => n as i64,
            None => 0i64,
        },
{
    match c {
        Some(n) => n as i64,
        None => 0,
    }
}

/// The metrics of a logged transaction, where it yields them.
pub fn extract_metrics_from_transaction(tx: &LoggedTransaction) -> (r: Option<TransactionMetrics>)
    ensures
        r is Some <==> yields_metrics(*tx),
        r matches Some(m) ==> is_metrics_of(m, *tx),
{
    let resp = match &tx.response {
        Some(r) => r,
        None => return None,
    };
    if !tx.has_request {
        return None;
    }
    let body = match &resp.body {
        Some(b) => b,
        None => return None,
    };
    let status = match resp.status {
        Some(s) => s as u16,
        None => return None,
    };
    let latency_ms = match resp.latency_ms {
        Some(l) => l as i64,
        None => return None,
    };
    let ts = match &tx.timestamp {
        Some(t) => t,
        None => return None,
    };
    let timestamp = match parse_rfc3339(ts.as_str()) {
        Ok(t) => t,
        Err(_) => return None,
    };
    let model = match &body.model {
        Some(m) => m.clone(),
        None => String::from_str("unknown"),
    };
    let (prompt_tokens, completion_tokens) = match &body.usage {
        Some(u) => (count_of(u.prompt_tokens), count_of(u.completion_tokens)),
        None => (0, 0),
    };
    Some(TransactionMetrics { model, status, latency_ms, prompt_tokens, completion_tokens, timestamp })
}

/// A transaction logged with a request, a response body, an HTTP status, a
/// latency that fits in `i64` and a timestamp that reads back as the Unix
/// second `secs` (as every timestamp that `log_timestamp` writes for years 0
/// to 9999 does) yields metrics, and they carry the logged status, latency,
/// second and model.
pub proof fn logged_transactions_yield_their_metrics(
    tx: LoggedTransaction,
    status: u16,
    latency: u64,
    secs: i64,
)
    requires
        tx.has_request,
        tx.response matches Some(resp) && {
            &&& resp.body is Some
            &&& resp.status == Some(status as u64)
            &&& resp.latency_ms == Some(latency)
        },
        latency <= i64::MAX,
        tx.timestamp matches Some(ts) && rfc3339_seconds(ts@) == Some(secs),
    ensures
        yields_metrics(tx),
        forall|m: TransactionMetrics| #[trigger]
            is_metrics_of(m, tx) ==> {
                &&& m.status == status
                &&& m.latency_ms == latency
                &&& m.timestamp == secs
                &&& m.model@ == model_of(tx.response->0.body->0)
            },
{
}

/// The token counts of a transaction's metrics are read each from its own
/// field of the response body's `usage`: the prompt count from
/// `prompt_tokens` and the completion count from `completion_tokens`, a
/// missing field or a missing `usage` counting 0.
pub proof fn token_counts_come_from_their_own_fields(tx: LoggedTransaction, m: TransactionMetrics)
    requires
        yields_metrics(tx),
        is_metrics_of(m, tx),
    ensures
        tx.response->0.body->0.usage matches Some(u) ==> {
            &&& u.prompt_tokens matches Some(n) ==> m.prompt_tokens == n as i64
            &&& u.prompt_tokens is None ==> m.prompt_tokens == 0
            &&& u.completion_tokens matches Some(n) ==> m.completion_tokens == n as i64
            &&& u.completion_tokens is None ==> m.completion_tokens == 0
        },
        tx.response->0.body->0.usage is None ==> m.prompt_tokens == 0 && m.completion_tokens == 0,
{
}

/// What one transaction adds to the row of its hour and model.
pub struct HourlyIncrement {
    pub hour_bucket: i64,
    pub model: String,
    pub errors_4xx: i64,
    pub errors_5xx: i64,
    pub latency_ms: i64,
    pub prompt_tokens: i64,
    pub completion_tokens: i64,
}

/// The hourly increment of a transaction: its hour bucket and model, one
/// error in the column its status falls in, its latency and token counts.
pub fn hourly_increment(m: &TransactionMetrics) -> (r: HourlyIncrement)
    ensures
        r.hour_bucket == hour_bucket_spec(m.timestamp),
        r.model@ == m.model@,
        r.errors_4xx == (if 400 <= m.status < 500 {
            1i64
        } else {
            0i64
        }),
        r.errors_5xx == (if m.status >= 500 {
            1i64
        } else {
            0i64
        }),
        r.latency_ms == m.latency_ms,
        r.prompt_tokens == m.prompt_tokens,
        r.completion_tokens == m.completion_tokens,
{
    let (errors_4xx, errors_5xx) = error_counts(m.status);
    HourlyIncrement {
        hour_bucket: hour_bucket(m.timestamp),
        model: m.model.clone(),
        errors_4xx,
        errors_5xx,
        latency_ms: m.latency_ms,
        prompt_tokens: m.prompt_tokens,
        completion_tokens: m.completion_tokens,
    }
}

/// What one transaction adds to the daily totals of its day and model.
pub struct DailyIncrement {
    pub date: String,
    pub model: String,
    pub total_tokens: i64,
}

/// The daily increment of a transaction: its UTC date, its model and its
/// token total; `None` where chrono has no date for its timestamp.
pub fn daily_increment(m: &TransactionMetrics) -> (r: Option<DailyIncrement>)
    requires
        i64::MIN <= m.prompt_tokens + m.completion_tokens <= i64::MAX,
    ensures
        r is None <==> utc_formatted(m.timestamp, "%Y-%m-%d"@) is None,
        r matches Some(d) ==> {
            &&& utc_formatted(m.timestamp, "%Y-%m-%d"@) == Some(d.date@)
            &&& d.model@ == m.model@
            &&& d.total_tokens == m.prompt_tokens + m.completion_tokens
        },
{
    match date_bucket(m.timestamp) {
        Some(date) => Some(
            DailyIncrement {
                date,
                model: m.model.clone(),
                total_tokens: m.prompt_tokens + m.completion_tokens,
            },
        ),
        None => None,
    }
}

/// Every window is a whole number of its chart buckets, at most 24.
pub proof fn buckets_tile_window(w: TimeWindow)
    ensures
        w.seconds_spec() % w.bucket_spec() == 0,
        1 <= w.seconds_spec() / w.bucket_spec() <= 24,
{
    match w {
        TimeWindow::Minutes1 => {
            assert(60 == 6 * 10);
        },
        TimeWindow::Minutes5 => {
            assert(300 == 5 * 60);
        },
        TimeWindow::Minutes15 => {
            assert(900 == 3 * 300);
        },
        TimeWindow::Hours1 => {
            assert(3600 == 12 * 300);
        },
        TimeWindow::Hours6 => {
            assert(21600 == 12 * 1800);
        },
        TimeWindow::Hours12 => {
            assert(43200 == 12 * 3600);
        },
        TimeWindow::Hours24 => {
            assert(86400 == 24 * 3600);
        },
    }
}

/// The query value of a window parses back to that window.
pub open spec fn window_value(w: TimeWindow) -> Seq<char> {
    match w {
        TimeWindow::Minutes1 => "1m"@,
        TimeWindow::Minutes5 => "5m"@,
        TimeWindow::Minutes15 => "15m"@,
        TimeWindow::Hours1 => "1h"@,
        TimeWindow::Hours6 => "6h"@,
        TimeWindow::Hours12 => "12h"@,
        TimeWindow::Hours24 => "24h"@,
    }
}

/// A length of time in words: whole minutes below an hour, whole hours
/// from an hour on, the unit in the plural except for one.
pub open spec fn duration_words(secs: int) -> Seq<char> {
    let n: int = if secs < 3600 {
        secs / 60
    } else {
        secs / 3600
    };
    let unit = if secs < 3600 {
        " minute"@
    } else {
        " hour"@
    };
    decimal(n as nat) + unit + if n == 1 {
        Seq::<char>::empty()
    } else {
        "s"@
    }
}

proof fn lemma_label_minutes1()
    ensures
        TimeWindow::Minutes1.label_spec() == duration_words(60),
{
    reveal_strlit("1 minute");
    reveal_strlit(" minute");
    assert(decimal(1) =~= seq!['1']) by {
        reveal_with_fuel(decimal, 2);
    }
    assert(duration_words(60) =~= seq!['1'] + " minute"@);
    assert("1 minute"@ =~= seq!['1'] + " minute"@);
}

proof fn lemma_label_minutes5()
    ensures
        TimeWindow::Minutes5.label_spec() == duration_words(300),
{
    reveal_strlit("5 minutes");
    reveal_strlit(" minute");
    reveal_strlit("s");
    assert(decimal(5) =~= seq!['5']) by {
        reveal_with_fuel(decimal, 2);
    }
    assert(duration_words(300) =~= seq!['5'] + " minute"@ + "s"@);
    assert("5 minutes"@ =~= seq!['5'] + " minute"@ + "s"@);
}

proof fn lemma_label_minutes15()
    ensures
        TimeWindow::Minutes15.label_spec() == duration_words(900),
{
    reveal_strlit("15 minutes");
    reveal_strlit(" minute");
    reveal_strlit("s");
    assert(decimal(15) =~= seq!['1', '5']) by {
        reveal_with_fuel(decimal, 2);
    }
    assert(duration_words(900) =~= seq!['1', '5'] + " minute"@ + "s"@);
    assert("15 minutes"@ =~= seq!['1', '5'] + " minute"@ + "s"@);
}

proof fn lemma_label_hours1()
    ensures
        TimeWindow::Hours1.label_spec() == duration_words(3600),
{
    reveal_strlit("1 hour");
    reveal_strlit(" hour");
    assert(decimal(1) =~= seq!['1']) by {
        reveal_with_fuel(decimal, 2);
    }
    assert(duration_words(3600) =~= seq!['1'] + " hour"@);
    assert("1 hour"@ =~= seq!['1'] + " hour"@);
}

proof fn lemma_label_hours6()
    ensures
        TimeWindow::Hours6.label_spec() == duration_words(21600),
{
    reveal_strlit("6 hours");
    reveal_strlit(" hour");
    reveal_strlit("s");
    assert(decimal(6) =~= seq!['6']) by {
        reveal_with_fuel(decimal, 2);
    }
    assert(duration_words(21600) =~= seq!['6'] + " hour"@ + "s"@);
    assert("6 hours"@ =~= seq!['6'] + " hour"@ + "s"@);
}

proof fn lemma_label_hours12()
    ensures
        TimeWindow::Hours12.label_spec() == duration_words(43200),
{
    reveal_strlit("12 hours");
    reveal_strlit(" hour");
    reveal_strlit("s");
    assert(decimal(12) =~= seq!['1', '2']) by {
        reveal_with_fuel(decimal, 2);
    }
    assert(duration_words(43200) =~= seq!['1', '2'] + " hour"@ + "s"@);
    assert("12 hours"@ =~= seq!['1', '2'] + " hour"@ + "s"@);
}

proof fn lemma_label_hours24()
    ensures
        TimeWindow::Hours24.label_spec() == duration_words(86400),
{
    reveal_strlit("24 hours");
    reveal_strlit(" hour");
    reveal_strlit("s");
    assert(decimal(24) =~= seq!['2', '4']) by {
        reveal_with_fuel(decimal, 2);
    }
    assert(duration_words(86400) =~= seq!['2', '4'] + " hour"@ + "s"@);
    assert("24 hours"@ =~= seq!['2', '4'] + " hour"@ + "s"@);
}

/// Each window's label says its length: whole minutes below an hour and
/// whole hours from an hour on, with the unit singular only for one.
pub proof fn window_label_states_its_length(w: TimeWindow)
    ensures
        w.seconds_spec() % 60 == 0,
        w.seconds_spec() >= 3600 ==> w.seconds_spec() % 3600 == 0,
        w.label_spec() == duration_words(w.seconds_spec() as int),
{
    match w {
        TimeWindow::Minutes1 => lemma_label_minutes1(),
        TimeWindow::Minutes5 => lemma_label_minutes5(),
        TimeWindow::Minutes15 => lemma_label_minutes15(),
        TimeWindow::Hours1 => lemma_label_hours1(),
        TimeWindow::Hours6 => lemma_label_hours6(),
        TimeWindow::Hours12 => lemma_label_hours12(),
        TimeWindow::Hours24 => lemma_label_hours24(),
    }
}

/// Each window is named by exactly one query value.
pub proof fn window_values_round_trip(w: TimeWindow, s: Seq<char>)
    ensures
        TimeWindow::parse_spec(window_value(w)) == Some(w),
        TimeWindow::parse_spec(s) == Some(w) ==> s == window_value(w),
{
    reveal_strlit("1m");
    reveal_strlit("5m");
    reveal_strlit("15m");
    reveal_strlit("1h");
    reveal_strlit("6h");
    reveal_strlit("12h");
    reveal_strlit("24h");
    match w {
        TimeWindow::Minutes1 => {
            assert(TimeWindow::parse_spec(window_value(w)) == Some(w));
        },
        TimeWindow::Minutes5 => {
            assert("5m"@[0] != "1m"@[0]);
            assert(TimeWindow::parse_spec(window_value(w)) == Some(w));
        },
        TimeWindow::Minutes15 => {
            assert("15m"@.len() != "1m"@.len());
            assert("15m"@.len() != "5m"@.len());
            assert(TimeWindow::parse_spec(window_value(w)) == Some(w));
        },
        TimeWindow::Hours1 => {
            assert("1h"@[1] != "1m"@[1]);
            assert("1h"@[0] != "5m"@[0]);
            assert("1h"@.len() != "15m"@.len());
            assert(TimeWindow::parse_spec(window_value(w)) == Some(w));
        },
        TimeWindow::Hours6 => {
            assert("6h"@[0] != "1m"@[0]);
            assert("6h"@[0] != "5m"@[0]);
            assert("6h"@.len() != "15m"@.len());
            assert("6h"@[0] != "1h"@[0]);
            assert(TimeWindow::parse_spec(window_value(w)) == Some(w));
        },
        TimeWindow::Hours12 => {
            assert("12h"@.len() != "1m"@.len());
            assert("12h"@.len() != "5m"@.len());
            assert("12h"@[1] != "15m"@[1]);
            assert("12h"@.len() != "1h"@.len());
            assert("12h"@.len() != "6h"@.len());
            assert(TimeWindow::parse_spec(window_value(w)) == Some(w));
        },
        TimeWindow::Hours24 => {
            assert("24h"@.len() != "1m"@.len());
            assert("24h"@.len() != "5m"@.len());
            assert("24h"@[0] != "15m"@[0]);
            assert("24h"@.len() != "1h"@.len());
            assert("24h"@.len() != "6h"@.len());
            assert("24h"@[0] != "12h"@[0]);
            assert(TimeWindow::parse_spec(window_value(w)) == Some(w));
        },
    }
}

/// The hour bucket of a timestamp at or after 1970 is the start of its
/// hour: a multiple of 3600 at most the timestamp and less than an hour
/// before it.
pub proof fn hour_bucket_is_hour_start(ts: i64)
    requires
        ts >= 0,
    ensures
        hour_bucket_spec(ts) % 3600 == 0,
        hour_bucket_spec(ts) <= ts < hour_bucket_spec(ts) + 3600,
{
}

/// No status counts as both a client and a server error.
pub proof fn error_columns_exclusive(status: u16)
    ensures
        !(400 <= status < 500 && status >= 500),
{
}

} // verus!
