//! The weather service: where to ask, and what counts as an answer.
//!
//! The address of a request is the endpoint and a query of four pairs.
//! The city and the key go into it percent-encoded, so that whatever they
//! hold, the query reads as those four pairs and no others.
//!
//! A request has one of three ends: the service could not be reached, it
//! answered with a status and a body that does not read as a report, or it
//! answered with a status and a report. Only a report under a status of
//! success that describes the conditions at least once, with a humidity
//! of at most 100 percent, gives the weather; everything else is the one
//! failure.

use crate::query::{
    address_base, address_query, all_unreserved, lacks, lemma_index_of_absent,
    lemma_index_of_found, lemma_query_reads_back, pair_text, push_pair, query_pairs, query_text,
    without_fragment,
};
use vstd::prelude::*;
use vstd::string::StringExecFns;

verus! {

/// Current conditions in one place, ready to be shown.
///
/// Temperatures are kept as the decimal text of the number the service
/// gave, in degrees Celsius.
#[derive(Debug, Clone, PartialEq, Eq)]
pub struct Weather {
    /// Name of the place, as the service spells it.
    pub name: String,
    pub temp: String,
    pub temp_min: String,
    pub temp_max: String,
    /// Relative humidity in percent, from 0 to 100.
    pub humidity: u8,
    /// The service's first description of the conditions.
    pub description: String,
}

pub struct WeatherView {
    pub name: Seq<char>,
    pub temp: Seq<char>,
    pub temp_min: Seq<char>,
    pub temp_max: Seq<char>,
    pub humidity: u8,
    pub description: Seq<char>,
}

impl View for Weather {
    type V = WeatherView;

    open spec fn view(&self) -> WeatherView {
        WeatherView {
            name: self.name@,
            temp: self.temp@,
            temp_min: self.temp_min@,
            temp_max: self.temp_max@,
            humidity: self.humidity,
            description: self.description@,
        }
    }
}

/// The body of an answer, read but not yet judged.
#[derive(Debug, Clone, PartialEq, Eq)]
pub struct Report {
    pub name: String,
    pub temp: String,
    pub temp_min: String,
    pub temp_max: String,
    /// Relative humidity as the service gave it; above 100 it is no
    /// percentage, and the report is refused.
    pub humidity: u8,
    /// Every description of the conditions that the service gave, in its
    /// order.
    pub descriptions: Vec<String>,
}

pub struct ReportView {
    pub name: Seq<char>,
    pub temp: Seq<char>,
    pub temp_min: Seq<char>,
    pub temp_max: Seq<char>,
    pub humidity: u8,
    pub descriptions: Seq<Seq<char>>,
}

impl View for Report {
    type V = ReportView;

    open spec fn view(&self) -> ReportView {
        ReportView {
            name: self.name@,
            temp: self.temp@,
            temp_min: self.temp_min@,
            temp_max: self.temp_max@,
            humidity: self.humidity,
            descriptions: self.descriptions@.map_values(|s: String| s@),
        }
    }
}

/// How a request to the service ended.
#[derive(Debug, PartialEq, Eq)]
pub enum Fetched {
    /// No answer came back.
    Unreachable,
    /// The service answered with `status`; `report` is its body, or `None`
    /// where the body does not read as a report.
    Answered { status: u16, report: Option<Report> },
}

pub enum FetchedView {
    Unreachable,
    Answered { status: u16, report: Option<ReportView> },
}

impl View for Fetched {
    type V = FetchedView;

    open spec fn view(&self) -> FetchedView {
        match self {
            Fetched::Unreachable => FetchedView::Unreachable,
            Fetched::Answered { status, report } => FetchedView::Answered {
                status: *status,
                report: match report {
                    Some(r) => Some(r@),
                    None => None,
                },
            },
        }
    }
}

/// The one way a weather request fails. Network trouble, a refusal by the
/// service and an unusable answer are not told apart.
#[derive(Debug, Clone, Copy, PartialEq, Eq, Structural)]
pub struct FetchError;

/// The view of the weather or the failure to get it.
pub open spec fn outcome_view(o: Result<Weather, FetchError>) -> Result<WeatherView, FetchError> {
    match o {
        Ok(w) => Ok(w@),
        Err(e) => Err(e),
    }
}

/// Where the weather service is asked.
pub open spec fn weather_endpoint() -> Seq<char> {
    "https://api.openweathermap.org/data/2.5/weather"@
}

/// What the weather service is asked: the city, the key, metric units,
/// answers in Spanish.
pub open spec fn weather_pairs(city: Seq<char>, key: Seq<char>) -> Seq<(Seq<char>, Seq<char>)> {
    seq![("q"@, city), ("appid"@, key), ("units"@, "metric"@), ("lang"@, "es"@)]
}

/// The address to ask for the weather in `city`: the endpoint, `?`, and
/// the four pairs written out as a query, every value percent-encoded.
pub open spec fn weather_url_of(city: Seq<char>, key: Seq<char>) -> Seq<char> {
    weather_endpoint() + seq!['?'] + query_text(weather_pairs(city, key))
}

/// Builds the address to ask for the weather in `city`.
pub fn weather_url(city: &str, api_key: &str) -> (url: String)
    ensures
        url@ == weather_url_of(city@, api_key@),
{
    proof {
        reveal_strlit("?");
        reveal_strlit("&");
    }
    let mut url = String::from_str("https://api.openweathermap.org/data/2.5/weather");
    url.append("?");
    push_pair(&mut url, "q", city);
    url.append("&");
    push_pair(&mut url, "appid", api_key);
    url.append("&");
    push_pair(&mut url, "units", "metric");
    url.append("&");
    push_pair(&mut url, "lang", "es");
    proof {
        let pairs = weather_pairs(city@, api_key@);
        let from_key = pairs.drop_first();
        let from_units = from_key.drop_first();
        let from_lang = from_units.drop_first();
        assert(from_lang.len() == 1 && from_lang[0] == pairs[3]);
        assert(query_text(from_lang) == pair_text("lang"@, "es"@));
        assert(from_units[0] == pairs[2]);
        assert(query_text(from_units) == pair_text("units"@, "metric"@) + seq!['&'] + query_text(
            from_lang,
        ));
        assert(from_key[0] == pairs[1]);
        assert(query_text(from_key) == pair_text("appid"@, api_key@) + seq!['&'] + query_text(
            from_units,
        ));
        assert(query_text(pairs) == pair_text("q"@, city@) + seq!['&'] + query_text(from_key));
        assert(url@ == weather_url_of(city@, api_key@));
    }
    url
}

/// The request is what it is meant to be, whatever the city and the key
/// hold: it goes to the endpoint, it has no fragment, and its query reads
/// as exactly the four pairs, with the city and the key as they were
/// given. No character of either adds, drops or overrides a pair.
pub proof fn lemma_weather_request(city: Seq<char>, key: Seq<char>)
    ensures
        without_fragment(weather_url_of(city, key)) == weather_url_of(city, key),
        address_base(weather_url_of(city, key)) == weather_endpoint(),
        address_query(weather_url_of(city, key)) == query_text(weather_pairs(city, key)),
        query_pairs(address_query(weather_url_of(city, key))) == weather_pairs(city, key),
{
    let endpoint = weather_endpoint();
    let pairs = weather_pairs(city, key);
    let query = query_text(pairs);
    let address = weather_url_of(city, key);
    reveal_strlit("https://api.openweathermap.org/data/2.5/weather");
    reveal_strlit("q");
    reveal_strlit("appid");
    reveal_strlit("units");
    reveal_strlit("lang");
    assert(lacks(endpoint, '#'));
    assert(lacks(endpoint, '?'));
    assert(all_unreserved(pairs[0].0));
    assert(all_unreserved(pairs[1].0));
    assert(all_unreserved(pairs[2].0));
    assert(all_unreserved(pairs[3].0));
    lemma_query_reads_back(pairs);
    assert forall|i: int| 0 <= i < address.len() implies #[trigger] address[i] != '#' by {
        if i < endpoint.len() {
            assert(address[i] == endpoint[i]);
        } else if i > endpoint.len() {
            assert(address[i] == query[i - endpoint.len() - 1]);
        }
    }
    lemma_index_of_absent(address, '#');
    lemma_index_of_found(endpoint, query, '?');
}

/// Whether `status` reports success: the statuses from 200 to 299.
pub open spec fn is_success(status: u16) -> bool {
    200 <= status <= 299
}

/// The most that a humidity in percent can be.
pub open spec fn max_humidity() -> u8 {
    100
}

/// The weather that a report gives: what it says, under its first
/// description; a failure where it has none, or where its humidity is
/// above 100.
pub open spec fn weather_of_report(report: ReportView) -> Result<WeatherView, FetchError> {
    if report.descriptions.len() == 0 || report.humidity > max_humidity() {
        Err(FetchError)
    } else {
        Ok(
            WeatherView {
                name: report.name,
                temp: report.temp,
                temp_min: report.temp_min,
                temp_max: report.temp_max,
                humidity: report.humidity,
                description: report.descriptions[0],
            },
        )
    }
}

/// The weather that a request gave: that of its report, where the service
/// answered with success and a report; a failure otherwise.
pub open spec fn weather_of(fetched: FetchedView) -> Result<WeatherView, FetchError> {
    match fetched {
        FetchedView::Answered { status, report: Some(report) } => if is_success(status) {
            weather_of_report(report)
        } else {
            Err(FetchError)
        },
        _ => Err(FetchError),
    }
}

impl Weather {
    /// Judges a report. Only the first of its descriptions is kept; a
    /// report without any is a failure, and so is one whose humidity is
    /// above 100.
    pub fn from_report(report: Report) -> (r: Result<Weather, FetchError>)
        ensures
            outcome_view(r) == weather_of_report(report@),
    {
        if report.descriptions.len() == 0 || report.humidity > 100 {
            Err(FetchError)
        } else {
            let description = report.descriptions[0].clone();
            Ok(
                Weather {
                    name: report.name,
                    temp: report.temp,
                    temp_min: report.temp_min,
                    temp_max: report.temp_max,
                    humidity: report.humidity,
                    description,
                },
            )
        }
    }

    /// Judges how a request ended.
    pub fn from_fetched(fetched: Fetched) -> (r: Result<Weather, FetchError>)
        ensures
            outcome_view(r) == weather_of(fetched@),
    {
        match fetched {
            Fetched::Answered { status, report: Some(report) } => {
                if 200 <= status && status <= 299 {
                    Weather::from_report(report)
                } else {
                    Err(FetchError)
                }
            },
            _ => Err(FetchError),
        }
    }
}

/// The weather that a report gives never has a humidity above 100.
pub proof fn lemma_humidity_is_a_percentage(report: ReportView)
    ensures
        weather_of_report(report) matches Ok(weather) ==> weather.humidity <= 100,
        report.humidity > 100 ==> weather_of_report(report) == Err::<WeatherView, FetchError>(
            FetchError,
        ),
{
}

/// Whether a request ended without the weather: no answer came, the
/// answer was not a success, its body was no report, the report described
/// nothing, or its humidity was above 100.
pub open spec fn fetch_failed(fetched: FetchedView) -> bool {
    ||| fetched is Unreachable
    ||| fetched matches FetchedView::Answered { status, .. } && !is_success(status)
    ||| fetched matches FetchedView::Answered { report: None, .. }
    ||| fetched matches FetchedView::Answered { report: Some(report), .. }
        && report.descriptions.len() == 0
    ||| fetched matches FetchedView::Answered { report: Some(report), .. } && report.humidity
        > max_humidity()
}

/// A request gives the weather unless it failed in one of those five
/// ways, and then it gives what the report says under its first
/// description, with a humidity of at most 100.
pub proof fn lemma_weather_or_failure(fetched: FetchedView)
    ensures
        weather_of(fetched) is Err <==> fetch_failed(fetched),
        weather_of(fetched) matches Ok(weather) ==> {
            &&& fetched matches FetchedView::Answered { status, report: Some(report) }
            &&& is_success(status)
            &&& weather.name == report.name
            &&& weather.temp == report.temp
            &&& weather.temp_min == report.temp_min
            &&& weather.temp_max == report.temp_max
            &&& weather.humidity == report.humidity
            &&& weather.humidity <= 100
            &&& weather.description == report.descriptions[0]
        },
{
}

} // verus!
