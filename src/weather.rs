//! Daily weather: the request for one day from either data source, reading
//! that day out of a daily series, and the fall-back from the forecast
//! source to the archive.
use vstd::prelude::*;
use vstd::string::StringExecFns;
use crate::geocode::{url_encode, url_encoded};
use crate::text::same_text;

verus! {

/// Where a day's values come from.
#[derive(Clone, Copy, PartialEq, Eq, Structural, Debug)]
pub enum Source {
    Forecast,
    Archive,
}

pub open spec fn source_tag_text(s: Source) -> &'static str {
    match s {
        Source::Forecast => "forecast",
        Source::Archive => "archive",
    }
}

pub open spec fn source_base(s: Source) -> &'static str {
    match s {
        Source::Forecast => "https://api.open-meteo.com/v1/forecast",
        Source::Archive => "https://archive-api.open-meteo.com/v1/era5",
    }
}

impl Source {
    /// The tag a record carries for its source.
    pub fn tag(&self) -> (r: &'static str)
        ensures
            r == source_tag_text(*self),
    {
        match self {
            Source::Forecast => "forecast",
            Source::Archive => "archive",
        }
    }
}

/// One day's request: where, which day, and in which time zone. The
/// coordinates are kept as the decimal text they are sent as.
pub struct DayQuery {
    pub latitude: String,
    pub longitude: String,
    pub date: String,
    pub timezone: Option<String>,
}

pub open spec fn tz_param(tz: Option<String>) -> Seq<char> {
    match tz {
        Some(t) => t@,
        None => "auto"@,
    }
}

/// Address of the daily request for `q` at source `s`: one day, three
/// metrics, the time zone URL-encoded (`auto` when none is known).
pub open spec fn day_url_text(s: Source, q: DayQuery) -> Seq<char> {
    source_base(s)@ + day_query_text(q)
}

/// The query part of a daily request, the same for both sources.
pub open spec fn day_query_text(q: DayQuery) -> Seq<char> {
    "?latitude="@ + q.latitude@ + "&longitude="@ + q.longitude@
        + "&start_date="@ + q.date@ + "&end_date="@ + q.date@
        + "&daily=temperature_2m_max,temperature_2m_min,precipitation_sum&timezone="@
        + url_encoded(tz_param(q.timezone))
}

impl DayQuery {
    pub fn url(&self, s: Source) -> (r: String)
        ensures
            r@ == day_url_text(s, *self),
    {
        let mut r = match s {
            Source::Forecast => String::from_str("https://api.open-meteo.com/v1/forecast"),
            Source::Archive => String::from_str("https://archive-api.open-meteo.com/v1/era5"),
        };
        let ghost base = r@;
        r.append("?latitude=");
        r.append(self.latitude.as_str());
        r.append("&longitude=");
        r.append(self.longitude.as_str());
        r.append("&start_date=");
        r.append(self.date.as_str());
        r.append("&end_date=");
        r.append(self.date.as_str());
        r.append("&daily=temperature_2m_max,temperature_2m_min,precipitation_sum&timezone=");
        let enc = match &self.timezone {
            Some(t) => url_encode(t.as_str()),
            None => url_encode("auto"),
        };
        r.append(enc.as_str());
        assert(r@ =~= base + day_query_text(*self));
        r
    }
}

/// What the fetch does next.
pub enum FetchStep<W> {
    /// Ask this source for the day.
    Ask(Source),
    /// The fetch is over with this outcome.
    Finish(Result<W, String>),
}

/// After source `s` answered `outcome`: a forecast success finishes, a
/// forecast failure of any kind moves on to the archive, and the archive's
/// answer, success or error, finishes.
pub open spec fn step_after<W>(s: Source, outcome: Result<W, String>) -> FetchStep<W> {
    match s {
        Source::Forecast => match outcome {
            Ok(w) => FetchStep::Finish(Ok(w)),
            Err(_) => FetchStep::Ask(Source::Archive),
        },
        Source::Archive => FetchStep::Finish(outcome),
    }
}

/// The source a fetch asks first.
pub fn first_source() -> (r: Source)
    ensures
        r == Source::Forecast,
{
    Source::Forecast
}

pub fn next_step<W>(s: Source, outcome: Result<W, String>) -> (r: FetchStep<W>)
    ensures
        r == step_after(s, outcome),
{
    match s {
        Source::Forecast => match outcome {
            Ok(w) => FetchStep::Finish(Ok(w)),
            Err(_) => FetchStep::Ask(Source::Archive),
        },
        Source::Archive => FetchStep::Finish(outcome),
    }
}

/// A failed forecast, whatever its error, leads to the archive being asked
/// with the very query the forecast was asked with (same place, day and time
/// zone); a failed archive ends the fetch with the archive's own error.
pub proof fn lemma_forecast_falls_back<W>(q: DayQuery, forecast_err: String, archive_err: String)
    ensures
        step_after::<W>(Source::Forecast, Err(forecast_err)) == FetchStep::<W>::Ask(Source::Archive),
        day_url_text(Source::Forecast, q) == source_base(Source::Forecast)@ + day_query_text(q),
        day_url_text(Source::Archive, q) == source_base(Source::Archive)@ + day_query_text(q),
        step_after::<W>(Source::Archive, Err(archive_err)) == FetchStep::<W>::Finish(
            Err(archive_err),
        ),
{
}

/// The daily block of a weather answer: dates and the three series.
pub struct DailySeries<T> {
    pub time: Vec<String>,
    pub temperature_max: Vec<T>,
    pub temperature_min: Vec<T>,
    pub precipitation: Vec<T>,
}

/// One day read out of a daily block.
pub struct DayValues<T> {
    pub temp_max: T,
    pub temp_min: T,
    pub precipitation: T,
}

/// Why a day could not be read out of an answer.
#[derive(Clone, Copy, PartialEq, Eq, Structural, Debug)]
pub enum ExtractError {
    NoDaily,
    DateMissing,
    MissingMax,
    MissingMin,
}

impl ExtractError {
    pub fn message(&self) -> (r: &'static str)
        ensures
            r == match *self {
                ExtractError::NoDaily => "No daily data returned",
                ExtractError::DateMissing => "Requested date not in response",
                ExtractError::MissingMax => "missing tmax",
                ExtractError::MissingMin => "missing tmin",
            },
    {
        match self {
            ExtractError::NoDaily => "No daily data returned",
            ExtractError::DateMissing => "Requested date not in response",
            ExtractError::MissingMax => "missing tmax",
            ExtractError::MissingMin => "missing tmin",
        }
    }
}

/// Position of the first date in `time` equal to `date`, if any.
pub open spec fn date_index(time: Seq<String>, date: Seq<char>) -> Option<int> {
    if exists|i: int| 0 <= i < time.len() && (#[trigger] time[i])@ == date {
        Some(choose|i: int| 0 <= i < time.len() && time[i]@ == date
            && forall|j: int| 0 <= j < i ==> (#[trigger] time[j])@ != date)
    } else {
        None
    }
}

/// What reading `date` out of `daily` gives: the values at the date's first
/// position, the precipitation `zero` where that series is too short.
pub open spec fn extracted<T>(daily: Option<DailySeries<T>>, date: Seq<char>, zero: T) -> Result<
    (T, T, T),
    ExtractError,
> {
    match daily {
        None => Err(ExtractError::NoDaily),
        Some(d) => match date_index(d.time@, date) {
            None => Err(ExtractError::DateMissing),
            Some(i) => if i >= d.temperature_max@.len() {
                Err(ExtractError::MissingMax)
            } else if i >= d.temperature_min@.len() {
                Err(ExtractError::MissingMin)
            } else {
                Ok(
                    (
                        d.temperature_max@[i],
                        d.temperature_min@[i],
                        if i < d.precipitation@.len() {
                            d.precipitation@[i]
                        } else {
                            zero
                        },
                    ),
                )
            },
        },
    }
}

/// Position of `date` in `time`, first match.
pub fn find_date(time: &Vec<String>, date: &str) -> (r: Option<usize>)
    ensures
        match r {
            Some(i) => date_index(time@, date@) == Some(i as int),
            None => date_index(time@, date@) is None,
        },
{
    let mut i: usize = 0;
    while i < time.len()
        invariant
            i <= time@.len(),
            forall|j: int| 0 <= j < i ==> (#[trigger] time@[j])@ != date@,
        decreases time@.len() - i,
    {
        if same_text(time[i].as_str(), date) {
            proof {
                assert(0 <= i < time@.len() && time@[i as int]@ == date@);
            }
            return Some(i);
        }
        i += 1;
    }
    None
}

/// Reads the day `date` out of `daily`; a missing precipitation value reads
/// as `zero`.
pub fn extract_one_day<T: Copy>(daily: &Option<DailySeries<T>>, date: &str, zero: T) -> (r: Result<
    DayValues<T>,
    ExtractError,
>)
    ensures
        match r {
            Ok(v) => extracted(*daily, date@, zero) == Ok::<(T, T, T), ExtractError>(
                (v.temp_max, v.temp_min, v.precipitation),
            ),
            Err(e) => extracted(*daily, date@, zero) == Err::<(T, T, T), ExtractError>(e),
        },
{
    match daily {
        None => Err(ExtractError::NoDaily),
        Some(d) => match find_date(&d.time, date) {
            None => Err(ExtractError::DateMissing),
            Some(i) => {
                if i >= d.temperature_max.len() {
                    Err(ExtractError::MissingMax)
                } else if i >= d.temperature_min.len() {
                    Err(ExtractError::MissingMin)
                } else {
                    let p = if i < d.precipitation.len() {
                        d.precipitation[i]
                    } else {
                        zero
                    };
                    Ok(
                        DayValues {
                            temp_max: d.temperature_max[i],
                            temp_min: d.temperature_min[i],
                            precipitation: p,
                        },
                    )
                }
            },
        },
    }
}

} // verus!
