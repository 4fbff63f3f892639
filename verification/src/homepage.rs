//! The homepage's snippets: the weather brief and the count of flights
//! touching the facility.

use crate::aviation::{
    flight_conditions, metar_ceiling, metar_ceiling_fits, metar_visibility, parse_metar,
    AirportWeather, WeatherConditions,
};
use crate::config::Airport;
use crate::text::{
    append_str, chars_eq, chars_of, join_strings, join_with, seqs_of, split_on,
    split_terminator_chars, split_terminator_on, string_from_chars, strings_of,
};
use vstd::prelude::*;

verus! {

// ---------------------------------------------------------------------------
// Weather
// ---------------------------------------------------------------------------

/// Where the METARs of the airports are fetched.
pub open spec fn weather_url_spec(airports: Seq<String>) -> Seq<char> {
    "https://metar.vatsim.net/"@ + join_with(strings_of(airports), ","@)
}

/// The request address for the METARs of the airports.
pub fn weather_url(airports: &Vec<String>) -> (url: String)
    ensures
        url@ == weather_url_spec(airports@),
{
    let mut v: Vec<char> = Vec::new();
    append_str(&mut v, "https://metar.vatsim.net/");
    let joined = join_strings(airports, ",");
    append_str(&mut v, joined.as_str());
    string_from_chars(&v)
}

/// What the weather brief shows of one parsed METAR: the airport, the
/// category, visibility, ceiling and the METAR itself.
pub type WeatherView = (Seq<char>, WeatherConditions, nat, nat, Seq<char>);

/// The weather brief entry of a METAR line, if it parses.
pub open spec fn metar_entry(line: Seq<char>) -> Option<WeatherView> {
    let parts = split_on(line, ' ');
    match (metar_ceiling(parts), metar_visibility(parts)) {
        (Ok(ceiling), Ok(visibility)) => Some(
            (parts[0], flight_conditions(visibility as int, ceiling as int), visibility, ceiling, line),
        ),
        _ => None,
    }
}

/// The entries of the lines that parse, in order; lines that do not parse
/// are left out.
pub open spec fn weather_entries(lines: Seq<Seq<char>>) -> Seq<WeatherView>
    decreases lines.len(),
{
    if lines.len() == 0 {
        Seq::empty()
    } else {
        let prev = weather_entries(lines.drop_last());
        match metar_entry(lines.last()) {
            Some(e) => prev.push(e),
            None => prev,
        }
    }
}

/// What an `AirportWeather` shows.
pub open spec fn weather_view(w: AirportWeather) -> WeatherView {
    (w.name@, w.conditions, w.visibility as nat, w.ceiling as nat, w.raw@)
}

/// The lines of the METAR service's reply.
pub open spec fn metar_lines(text: Seq<char>) -> Seq<Seq<char>> {
    split_terminator_on(text, '\n')
}

/// Every line's first broken or overcast layer fits in a `u16` once scaled
/// to feet.
pub open spec fn all_ceilings_fit(text: Seq<char>) -> bool {
    forall|i: int|
        0 <= i < metar_lines(text).len() ==> metar_ceiling_fits(#[trigger] metar_lines(text)[i])
}

/// Whether every line's ceiling fits (`weather_report` needs it to).
pub fn all_ceilings_fit_exec(text: &str) -> (r: bool)
    ensures
        r == all_ceilings_fit(text@),
{
    let chars = chars_of(text);
    let lines = split_terminator_chars(&chars, '\n');
    let mut i: usize = 0;
    while i < lines.len()
        invariant
            i <= lines.len(),
            seqs_of(lines@) == metar_lines(text@),
            forall|j: int| 0 <= j < i ==> metar_ceiling_fits(#[trigger] metar_lines(text@)[j]),
        decreases lines.len() - i,
    {
        let line = string_from_chars(&lines[i]);
        assert(line@ == metar_lines(text@)[i as int]);
        if !crate::aviation::metar_ceiling_fits_exec(line.as_str()) {
            return false;
        }
        i = i + 1;
    }
    true
}

/// The weather brief when every line's ceiling fits in a `u16` once scaled
/// to feet; `None` when one does not.
pub fn checked_weather_report(text: &str) -> (r: Option<Vec<AirportWeather>>)
    ensures
        !all_ceilings_fit(text@) ==> r is None,
        all_ceilings_fit(text@) ==> (r matches Some(weather) && weather@.map_values(
            |w: AirportWeather| weather_view(w),
        ) == weather_entries(metar_lines(text@))),
{
    if all_ceilings_fit_exec(text) {
        Some(weather_report(text))
    } else {
        None
    }
}

/// The weather brief: the METAR service's reply read line by line, keeping
/// the lines that parse.
pub fn weather_report(text: &str) -> (weather: Vec<AirportWeather>)
    requires
        all_ceilings_fit(text@),
    ensures
        weather@.map_values(|w: AirportWeather| weather_view(w)) == weather_entries(
            metar_lines(text@),
        ),
{
    let chars = chars_of(text);
    let lines = split_terminator_chars(&chars, '\n');
    let ghost ls = metar_lines(text@);
    let mut weather: Vec<AirportWeather> = Vec::new();
    let mut i: usize = 0;
    while i < lines.len()
        invariant
            i <= lines.len(),
            seqs_of(lines@) == ls,
            ls == metar_lines(text@),
            all_ceilings_fit(text@),
            weather@.map_values(|w: AirportWeather| weather_view(w)) == weather_entries(
                ls.take(i as int),
            ),
        decreases lines.len() - i,
    {
        assert(ls.take(i + 1).drop_last() =~= ls.take(i as int));
        let line = string_from_chars(&lines[i]);
        assert(line@ == ls[i as int]);
        assert(metar_ceiling_fits(ls[i as int]));
        let ghost before = weather@;
        match parse_metar(line.as_str()) {
            Ok(w) => {
                weather.push(w);
                assert(weather@.map_values(|w: AirportWeather| weather_view(w)) =~= before.map_values(
                    |w: AirportWeather| weather_view(w),
                ).push(weather_view(weather@.last())));
            },
            Err(_) => {},
        }
        i = i + 1;
    }
    assert(ls.take(lines.len() as int) =~= ls);
    weather
}

// ---------------------------------------------------------------------------
// Flights
// ---------------------------------------------------------------------------

/// Online flights touching the facility's airports.
#[derive(Debug, Clone, Copy, PartialEq, Eq, Structural)]
pub struct OnlineFlights {
    pub within: u16,
    pub from: u16,
    pub to: u16,
}

/// Whether `code` is one of the airports'.
pub open spec fn is_facility_airport(airports: Seq<Airport>, code: Seq<char>) -> bool {
    exists|i: int| 0 <= i < airports.len() && #[trigger] airports[i].code@ == code
}

/// Flights between two of the airports, leaving one, and arriving at one,
/// counted over the flight plans (departure, arrival) of the pilots
/// (pilots without a plan count for nothing).
pub open spec fn flight_tally(airports: Seq<Airport>, plans: Seq<Option<(String, String)>>) -> (
    nat,
    nat,
    nat,
)
    decreases plans.len(),
{
    if plans.len() == 0 {
        (0, 0, 0)
    } else {
        let (w, f, t) = flight_tally(airports, plans.drop_last());
        match plans.last() {
            Some((dep, arr)) => {
                let from = is_facility_airport(airports, dep@);
                let to = is_facility_airport(airports, arr@);
                if from && to {
                    (w + 1, f, t)
                } else if to {
                    (w, f, t + 1)
                } else if from {
                    (w, f + 1, t)
                } else {
                    (w, f, t)
                }
            },
            None => (w, f, t),
        }
    }
}

/// Whether `code` is one of the airports'.
fn is_facility_airport_exec(airports: &Vec<Airport>, code: &str) -> (r: bool)
    ensures
        r == is_facility_airport(airports@, code@),
{
    let c = chars_of(code);
    let mut i: usize = 0;
    while i < airports.len()
        invariant
            i <= airports.len(),
            c@ == code@,
            forall|j: int| 0 <= j < i ==> #[trigger] airports@[j].code@ != code@,
        decreases airports.len() - i,
    {
        let a = chars_of(airports[i].code.as_str());
        if chars_eq(&a, &c) {
            return true;
        }
        i = i + 1;
    }
    false
}

/// Count the online flights within, from and to the facility's airports.
pub fn count_flights(airports: &Vec<Airport>, plans: &Vec<Option<(String, String)>>) -> (flights:
    OnlineFlights)
    requires
        flight_tally(airports@, plans@).0 <= u16::MAX,
        flight_tally(airports@, plans@).1 <= u16::MAX,
        flight_tally(airports@, plans@).2 <= u16::MAX,
    ensures
        (flights.within as nat, flights.from as nat, flights.to as nat) == flight_tally(
            airports@,
            plans@,
        ),
{
    let mut flights = OnlineFlights { within: 0, from: 0, to: 0 };
    let mut i: usize = 0;
    while i < plans.len()
        invariant
            i <= plans.len(),
            (flights.within as nat, flights.from as nat, flights.to as nat) == flight_tally(
                airports@,
                plans@.take(i as int),
            ),
            flight_tally(airports@, plans@).0 <= u16::MAX,
            flight_tally(airports@, plans@).1 <= u16::MAX,
            flight_tally(airports@, plans@).2 <= u16::MAX,
        decreases plans.len() - i,
    {
        assert(plans@.take(i + 1).drop_last() =~= plans@.take(i as int));
        proof {
            lemma_tally_monotonic(airports@, plans@, i + 1);
        }
        match &plans[i] {
            Some((dep, arr)) => {
                let from = is_facility_airport_exec(airports, dep.as_str());
                let to = is_facility_airport_exec(airports, arr.as_str());
                if from && to {
                    flights.within = flights.within + 1;
                } else if to {
                    flights.to = flights.to + 1;
                } else if from {
                    flights.from = flights.from + 1;
                }
            },
            None => {},
        }
        i = i + 1;
    }
    assert(plans@.take(plans.len() as int) =~= plans@);
    flights
}

/// Count the online flights, or `None` when a count does not fit the
/// 16-bit counters.
pub fn checked_count_flights(
    airports: &Vec<Airport>,
    plans: &Vec<Option<(String, String)>>,
) -> (flights: Option<OnlineFlights>)
    ensures
        flights is Some <==> (flight_tally(airports@, plans@).0 <= u16::MAX && flight_tally(
            airports@,
            plans@,
        ).1 <= u16::MAX && flight_tally(airports@, plans@).2 <= u16::MAX),
        flights matches Some(f) ==> (f.within as nat, f.from as nat, f.to as nat) == flight_tally(
            airports@,
            plans@,
        ),
{
    let mut within: u64 = 0;
    let mut from: u64 = 0;
    let mut to: u64 = 0;
    let mut i: usize = 0;
    while i < plans.len()
        invariant
            i <= plans.len(),
            (within as nat, from as nat, to as nat) == flight_tally(airports@, plans@.take(i as int)),
        decreases plans.len() - i,
    {
        assert(plans@.take(i + 1).drop_last() =~= plans@.take(i as int));
        proof {
            lemma_flights_counted_once(airports@, plans@.take(i as int));
        }
        match &plans[i] {
            Some((dep, arr)) => {
                let f = is_facility_airport_exec(airports, dep.as_str());
                let t = is_facility_airport_exec(airports, arr.as_str());
                if f && t {
                    within = within + 1;
                } else if t {
                    to = to + 1;
                } else if f {
                    from = from + 1;
                }
            },
            None => {},
        }
        i = i + 1;
    }
    assert(plans@.take(plans.len() as int) =~= plans@);
    if within <= 65535 && from <= 65535 && to <= 65535 {
        Some(count_flights(airports, plans))
    } else {
        None
    }
}

/// Counting fewer plans never gives more flights.
proof fn lemma_tally_monotonic(airports: Seq<Airport>, plans: Seq<Option<(String, String)>>, n: int)
    requires
        0 <= n <= plans.len(),
    ensures
        flight_tally(airports, plans.take(n)).0 <= flight_tally(airports, plans).0,
        flight_tally(airports, plans.take(n)).1 <= flight_tally(airports, plans).1,
        flight_tally(airports, plans.take(n)).2 <= flight_tally(airports, plans).2,
    decreases plans.len() - n,
{
    if n < plans.len() {
        lemma_tally_monotonic(airports, plans, n + 1);
        assert(plans.take(n + 1).drop_last() =~= plans.take(n));
    } else {
        assert(plans.take(n) =~= plans);
    }
}

/// Each flight is counted at most once: the three counts together never
/// exceed the number of pilots.
pub proof fn lemma_flights_counted_once(airports: Seq<Airport>, plans: Seq<Option<(String, String)>>)
    ensures
        flight_tally(airports, plans).0 + flight_tally(airports, plans).1 + flight_tally(
            airports,
            plans,
        ).2 <= plans.len(),
    decreases plans.len(),
{
    if plans.len() > 0 {
        lemma_flights_counted_once(airports, plans.drop_last());
    }
}

} // verus!
