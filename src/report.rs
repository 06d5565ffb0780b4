//! The decoded report, the grammar of a report line, and the decoder that
//! ties the two together.

use crate::clock::current_year_month;
use crate::error::{is_field_error, Error};
use crate::fields::{
    alt_of, calm_wind, cloud_words, dew_part, is_alt, is_rvr, is_station, is_station_type,
    is_temp_dew, is_time, is_vis_fraction, is_vis_whole, is_vis_word, is_wind, is_wind_variation,
    keep_remarks, remark_words, rvr_word, split_weather, station_type_of, station_word, temp_dew_word,
    temp_of, temp_part, time_exists, time_of, time_word, vis_fraction_word, vis_text, vis_whole_word,
    vis_word, is_vis, day_of, hour_of, minute_of,
    weather_words, wind_of, wind_variation_of, ObservationTime, StationType, Wind,
};
use crate::text::{chars_of, is_literal, split_on, split_text, views};
use vstd::prelude::*;
use vstd::string::*;

verus! {

/// One decoded observation.
#[derive(Debug, PartialEq)]
pub struct ParsedMetar {
    /// Four letters or digits naming the reporting station.
    pub station: String,
    pub time: ObservationTime,
    pub station_type: StationType,
    /// All zero where the report gives no wind.
    pub wind: Wind,
    /// The two directions, in degrees, between which the wind swings.
    pub wind_variation: Option<(i32, i32)>,
    /// The visibility as written, without its unit; empty where none is given.
    pub vis: String,
    /// The runway visual range, as written.
    pub rvr: Option<String>,
    /// Present-weather phenomena, in report order.
    pub weather: Vec<String>,
    /// Cloud layers, in report order.
    pub clouds: Vec<String>,
    /// Degrees Celsius.
    pub temp: i32,
    /// Degrees Celsius.
    pub dew: i32,
    /// Hundredths of an inch of mercury.
    pub alt: Option<i32>,
    /// The words after the remarks marker.
    pub remarks: Vec<String>,
}

/// What a decoded report holds, as mathematical values.
pub struct ReportView {
    pub station: Seq<char>,
    pub time: ObservationTime,
    pub station_type: StationType,
    pub wind: Wind,
    pub wind_variation: Option<(i32, i32)>,
    pub vis: Seq<char>,
    pub rvr: Option<Seq<char>>,
    pub weather: Seq<Seq<char>>,
    pub clouds: Seq<Seq<char>>,
    pub temp: i32,
    pub dew: i32,
    pub alt: Option<i32>,
    pub remarks: Seq<Seq<char>>,
}

impl View for ParsedMetar {
    type V = ReportView;

    open spec fn view(&self) -> ReportView {
        ReportView {
            station: self.station@,
            time: self.time,
            station_type: self.station_type,
            wind: self.wind,
            wind_variation: self.wind_variation,
            vis: self.vis@,
            rvr: match self.rvr {
                Some(r) => Some(r@),
                None => None,
            },
            weather: views(self.weather@),
            clouds: views(self.clouds@),
            temp: self.temp,
            dew: self.dew,
            alt: self.alt,
            remarks: views(self.remarks@),
        }
    }
}

// The grammar of a report line. Its words are separated by single spaces:
//
//   STATION TIME [TYPE] [WIND] [VARIATION] [VISIBILITY] [RVR]
//   WEATHER-AND-CLOUDS... TEMP/DEW [ALTIMETER] [RMK REMARKS...]
//
// Each optional field is taken when the next word has its shape. The
// weather-and-cloud segment runs up to the first temperature and dew point
// pair, which the altimeter and the remarks may follow, and nothing else.

/// The words of a report line.
pub open spec fn words_of(line: Seq<char>) -> Seq<Seq<char>> {
    split_on(line, ' ')
}

/// Where the optional station type ends.
pub open spec fn type_end(ts: Seq<Seq<char>>) -> int {
    if 2 < ts.len() && is_station_type(ts[2]) {
        3
    } else {
        2
    }
}

/// Where a wind that may stand at `p` ends.
pub open spec fn wind_after(ts: Seq<Seq<char>>, p: int) -> int {
    if 0 <= p < ts.len() && is_wind(ts[p]) {
        p + 1
    } else {
        p
    }
}

/// Where a wind variation that may stand at `p` ends.
pub open spec fn variation_after(ts: Seq<Seq<char>>, p: int) -> int {
    if 0 <= p < ts.len() && is_wind_variation(ts[p]) {
        p + 1
    } else {
        p
    }
}

/// Where a visibility that may stand at `p` ends: it takes two words for
/// whole miles and a fraction.
pub open spec fn vis_after(ts: Seq<Seq<char>>, p: int) -> int {
    if 0 <= p && p + 1 < ts.len() && is_vis_whole(ts[p]) && is_vis_fraction(ts[p + 1]) {
        p + 2
    } else if 0 <= p < ts.len() && is_vis_word(ts[p]) {
        p + 1
    } else {
        p
    }
}

/// The raw text of a visibility at `p`, its words joined by a space.
pub open spec fn vis_raw_at(ts: Seq<Seq<char>>, p: int) -> Seq<char> {
    if vis_after(ts, p) == p + 2 {
        ts[p] + " "@ + ts[p + 1]
    } else {
        ts[p]
    }
}

/// Where a runway visual range that may stand at `p` ends.
pub open spec fn rvr_after(ts: Seq<Seq<char>>, p: int) -> int {
    if 0 <= p < ts.len() && is_rvr(ts[p]) {
        p + 1
    } else {
        p
    }
}

/// Where an altimeter that may stand at `p` ends.
pub open spec fn alt_after(ts: Seq<Seq<char>>, p: int) -> int {
    if 0 <= p < ts.len() && is_alt(ts[p]) {
        p + 1
    } else {
        p
    }
}

/// Where the optional wind ends.
pub open spec fn wind_end(ts: Seq<Seq<char>>) -> int {
    wind_after(ts, type_end(ts))
}

/// Where the optional wind variation ends.
pub open spec fn variation_end(ts: Seq<Seq<char>>) -> int {
    variation_after(ts, wind_end(ts))
}

/// Where the optional visibility ends.
pub open spec fn vis_end(ts: Seq<Seq<char>>) -> int {
    vis_after(ts, variation_end(ts))
}

/// Where the optional runway visual range ends.
pub open spec fn rvr_end(ts: Seq<Seq<char>>) -> int {
    rvr_after(ts, vis_end(ts))
}

/// The position of the first temperature and dew point pair from `i` on,
/// or the length of `ts` where there is none.
pub open spec fn first_temp_dew_from(ts: Seq<Seq<char>>, i: int) -> int
    decreases ts.len() - i,
{
    if i < 0 || i >= ts.len() {
        ts.len() as int
    } else if is_temp_dew(ts[i]) {
        i
    } else {
        first_temp_dew_from(ts, i + 1)
    }
}

/// Where the temperature and dew point pair stands.
pub open spec fn temp_dew_at(ts: Seq<Seq<char>>) -> int {
    first_temp_dew_from(ts, rvr_end(ts))
}

/// Where the optional altimeter ends.
pub open spec fn alt_end(ts: Seq<Seq<char>>) -> int {
    alt_after(ts, temp_dew_at(ts) + 1)
}

/// The wind that may stand at `p`.
pub open spec fn wind_at(ts: Seq<Seq<char>>, p: int) -> Wind {
    if wind_after(ts, p) > p {
        wind_of(ts[p])
    } else {
        calm_wind()
    }
}

/// The wind variation that may stand at `p`.
pub open spec fn variation_at(ts: Seq<Seq<char>>, p: int) -> Option<(i32, i32)> {
    if variation_after(ts, p) > p {
        Some(wind_variation_of(ts[p]))
    } else {
        None
    }
}

/// The visibility text that may stand at `p`.
pub open spec fn vis_at(ts: Seq<Seq<char>>, p: int) -> Seq<char> {
    if vis_after(ts, p) > p {
        vis_text(vis_raw_at(ts, p))
    } else {
        Seq::empty()
    }
}

/// The runway visual range that may stand at `p`.
pub open spec fn rvr_at(ts: Seq<Seq<char>>, p: int) -> Option<Seq<char>> {
    if rvr_after(ts, p) > p {
        Some(ts[p])
    } else {
        None
    }
}

/// The altimeter setting that may stand at `p`.
pub open spec fn alt_at(ts: Seq<Seq<char>>, p: int) -> Option<i32> {
    if alt_after(ts, p) > p {
        Some(alt_of(ts[p]) as i32)
    } else {
        None
    }
}

/// The line follows the report grammar.
pub open spec fn is_grammatical(line: Seq<char>) -> bool {
    let ts = words_of(line);
    &&& ts.len() >= 3
    &&& is_station(ts[0])
    &&& is_time(ts[1])
    &&& temp_dew_at(ts) < ts.len()
    &&& (alt_end(ts) >= ts.len() || ts[alt_end(ts)] == "RMK"@)
}

/// The line follows the grammar and its time names an existing minute of
/// `month` in `year`.
pub open spec fn decodes(line: Seq<char>, year: i32, month: u32) -> bool {
    is_grammatical(line) && time_exists(words_of(line)[1], year, month)
}

/// The time word names a minute that exists in every month of every year.
pub open spec fn exists_in_every_month(t: Seq<char>) -> bool {
    1 <= day_of(t) <= 28 && hour_of(t) < 24 && minute_of(t) < 60
}

/// The report that a grammatical line gives, in `year` and `month`.
pub open spec fn report_of(line: Seq<char>, year: i32, month: u32) -> ReportView {
    let ts = words_of(line);
    let k = temp_dew_at(ts);
    ReportView {
        station: ts[0],
        time: time_of(ts[1], year, month),
        station_type: if type_end(ts) == 3 {
            station_type_of(ts[2])
        } else {
            StationType::Unspecified
        },
        wind: wind_at(ts, type_end(ts)),
        wind_variation: variation_at(ts, wind_end(ts)),
        vis: vis_at(ts, variation_end(ts)),
        rvr: rvr_at(ts, vis_end(ts)),
        weather: weather_words(ts.subrange(rvr_end(ts), k)),
        clouds: cloud_words(ts.subrange(rvr_end(ts), k)),
        temp: temp_of(temp_part(ts[k])) as i32,
        dew: temp_of(dew_part(ts[k])) as i32,
        alt: alt_at(ts, k + 1),
        remarks: if alt_end(ts) < ts.len() {
            remark_words(ts.skip(alt_end(ts)))
        } else {
            Seq::empty()
        },
    }
}

pub proof fn lemma_first_temp_dew_bounds(ts: Seq<Seq<char>>, i: int)
    requires
        0 <= i <= ts.len(),
    ensures
        i <= first_temp_dew_from(ts, i) <= ts.len(),
        first_temp_dew_from(ts, i) < ts.len() ==> is_temp_dew(ts[first_temp_dew_from(ts, i)]),
    decreases ts.len() - i,
{
    if i < ts.len() && !is_temp_dew(ts[i]) {
        lemma_first_temp_dew_bounds(ts, i + 1);
    }
}

/// The error for a line that breaks the report grammar.
pub open spec fn is_ungrammatical_error(e: Error) -> bool {
    e is Invalid && e->Invalid_0@ == "Unable to parse METAR."@
}

fn ungrammatical() -> (r: Error)
    ensures
        is_ungrammatical_error(r),
{
    Error::Invalid(String::from_str("Unable to parse METAR."))
}

/// The wind that may stand at `p`, and where it ends.
fn take_wind(words: &Vec<String>, p: usize) -> (r: (Wind, usize))
    requires
        p <= words@.len(),
    ensures
        r.0 == wind_at(views(words@), p as int),
        r.1 == wind_after(views(words@), p as int),
{
    if p < words.len() {
        assert(views(words@)[p as int] == words@[p as int]@);
        if let Ok(w) = ParsedMetar::parse_wind(words[p].as_str()) {
            return (w, p + 1);
        }
    }
    (Wind::new(), p)
}

/// The wind variation that may stand at `p`, and where it ends.
fn take_variation(words: &Vec<String>, p: usize) -> (r: (Option<(i32, i32)>, usize))
    requires
        p <= words@.len(),
    ensures
        r.0 == variation_at(views(words@), p as int),
        r.1 == variation_after(views(words@), p as int),
{
    if p < words.len() {
        assert(views(words@)[p as int] == words@[p as int]@);
        if let Ok(v) = ParsedMetar::parse_wind_variation(words[p].as_str()) {
            return (Some(v), p + 1);
        }
    }
    (None, p)
}

/// The visibility text that may stand at `p`, and where it ends.
fn take_vis(words: &Vec<String>, p: usize) -> (r: (String, usize))
    requires
        p <= words@.len(),
    ensures
        r.0@ == vis_at(views(words@), p as int),
        r.1 == vis_after(views(words@), p as int),
{
    let ghost ts = views(words@);
    let n = words.len();
    if p < n && p + 1 < n && vis_whole_word(words[p].as_str()) && vis_fraction_word(
        words[p + 1].as_str(),
    ) {
        assert(ts[p as int] == words@[p as int]@ && ts[p + 1] == words@[p + 1]@);
        let mut raw = words[p].clone();
        raw.append(" ");
        raw.append(words[p + 1].as_str());
        proof {
            reveal_strlit(" ");
            let t = raw@;
            assert(t.take(1) =~= ts[p as int]);
            assert(t.skip(2) =~= ts[p + 1]);
            assert(t[1] == ' ');
            assert(is_vis(t));
        }
        match ParsedMetar::parse_vis(raw.as_str()) {
            Ok(v) => {
                return (v, p + 2);
            },
            Err(_) => {},
        }
    }
    if p < n && vis_word(words[p].as_str()) {
        assert(ts[p as int] == words@[p as int]@);
        match ParsedMetar::parse_vis(words[p].as_str()) {
            Ok(v) => {
                return (v, p + 1);
            },
            Err(_) => {},
        }
    }
    (String::new(), p)
}

/// The runway visual range that may stand at `p`, and where it ends.
fn take_rvr(words: &Vec<String>, p: usize) -> (r: (Option<String>, usize))
    requires
        p <= words@.len(),
    ensures
        r.1 == rvr_after(views(words@), p as int),
        match r.0 {
            Some(x) => rvr_at(views(words@), p as int) == Some(x@),
            None => rvr_at(views(words@), p as int) is None,
        },
{
    if p < words.len() && rvr_word(words[p].as_str()) {
        assert(views(words@)[p as int] == words@[p as int]@);
        return (Some(words[p].clone()), p + 1);
    }
    (None, p)
}

/// The altimeter setting that may stand at `p`, and where it ends.
fn take_alt(words: &Vec<String>, p: usize) -> (r: (Option<i32>, usize))
    requires
        p <= words@.len(),
    ensures
        r.0 == alt_at(views(words@), p as int),
        r.1 == alt_after(views(words@), p as int),
{
    if p < words.len() {
        assert(views(words@)[p as int] == words@[p as int]@);
        if let Ok(a) = ParsedMetar::parse_alt(words[p].as_str()) {
            return (Some(a), p + 1);
        }
    }
    (None, p)
}

/// The position of the first temperature and dew point pair from `p` on.
fn find_temp_dew(words: &Vec<String>, p: usize) -> (r: usize)
    requires
        p <= words@.len(),
    ensures
        r == first_temp_dew_from(views(words@), p as int),
{
    let ghost ts = views(words@);
    let n = words.len();
    let mut k: usize = p;
    while k < n && temp_dew_word(words[k].as_str()).is_none()
        invariant
            ts == views(words@),
            n == words@.len(),
            p <= k <= n,
            first_temp_dew_from(ts, p as int) == first_temp_dew_from(ts, k as int),
        decreases n - k,
    {
        assert(ts[k as int] == words@[k as int]@);
        k = k + 1;
    }
    if k < n {
        assert(ts[k as int] == words@[k as int]@);
    }
    k
}

impl ParsedMetar {
    /// Decodes a report line observed in `month` of `year`.
    ///
    /// A line that breaks the grammar is `Invalid`; a time that names no
    /// existing minute of that month is a field error on the time word.
    pub fn parse_data_at(raw_data: &str, year: i32, month: u32) -> (r: Result<ParsedMetar, Error>)
        ensures
            r is Ok <==> decodes(raw_data@, year, month),
            r is Ok ==> r->Ok_0@ == report_of(raw_data@, year, month),
            !is_grammatical(raw_data@) ==> r is Err && is_ungrammatical_error(r->Err_0),
            is_grammatical(raw_data@) && !decodes(raw_data@, year, month) ==> r is Err
                && is_field_error(r->Err_0, "time"@, words_of(raw_data@)[1]),
    {
        let words = split_text(raw_data, ' ');
        let ghost ts = words_of(raw_data@);
        assert(ts == views(words@));
        let n = words.len();
        if n < 3 || !station_word(words[0].as_str()) || !time_word(words[1].as_str()) {
            return Err(ungrammatical());
        }
        assert(ts[0] == words@[0]@ && ts[1] == words@[1]@ && ts[2] == words@[2]@);
        let station_type = ParsedMetar::parse_station_type(words[2].as_str());
        let p: usize = match station_type {
            StationType::Unspecified => 2,
            _ => 3,
        };
        assert(p == type_end(ts));
        let (wind, p) = take_wind(&words, p);
        let (wind_variation, p) = take_variation(&words, p);
        let (vis, p) = take_vis(&words, p);
        let (rvr, p) = take_rvr(&words, p);
        assert(p == rvr_end(ts));
        let k = find_temp_dew(&words, p);
        proof {
            lemma_first_temp_dew_bounds(ts, p as int);
        }
        if k == n {
            return Err(ungrammatical());
        }
        assert(ts[k as int] == words@[k as int]@);
        let (temp, dew) = match temp_dew_word(words[k].as_str()) {
            Some(pair) => pair,
            None => return Err(ungrammatical()),
        };
        let (alt, q) = take_alt(&words, k + 1);
        assert(q == alt_end(ts));
        let mut remarks: Vec<String> = Vec::new();
        if q < n {
            assert(ts[q as int] == words@[q as int]@);
            let marker = chars_of(words[q].as_str());
            if !is_literal(&marker, "RMK") {
                return Err(ungrammatical());
            }
            remarks = keep_remarks(&words, q, n);
            assert(views(words@).subrange(q as int, n as int) =~= ts.skip(q as int));
        }
        assert(is_grammatical(raw_data@));
        let time = match ParsedMetar::parse_time(words[1].as_str(), year, month) {
            Ok(t) => t,
            Err(e) => return Err(e),
        };
        let (weather, clouds) = split_weather(&words, p, k);
        let station = words[0].clone();
        let r = ParsedMetar {
            station,
            time,
            station_type,
            wind,
            wind_variation,
            vis,
            rvr,
            weather,
            clouds,
            temp,
            dew,
            alt,
            remarks,
        };
        let ghost expected = report_of(raw_data@, year, month);
        assert(r@.station == expected.station);
        assert(r@.time == expected.time);
        assert(r@.station_type == expected.station_type);
        assert(r@.wind == expected.wind);
        assert(r@.wind_variation == expected.wind_variation);
        assert(r@.vis == expected.vis);
        assert(r@.rvr == expected.rvr);
        assert(r@.weather == expected.weather);
        assert(r@.clouds == expected.clouds);
        assert(r@.temp == expected.temp);
        assert(r@.dew == expected.dew);
        assert(r@.alt == expected.alt);
        assert(r@.remarks == expected.remarks);
        Ok(r)
    }

    /// Decodes a report line observed in the present month.
    ///
    /// The year and month come from the clock; a time whose day is at most
    /// 28 exists in every month, so such a grammatical line always decodes.
    pub fn parse_data(raw_data: &str) -> (r: Result<ParsedMetar, Error>)
        ensures
            !is_grammatical(raw_data@) ==> r is Err && is_ungrammatical_error(r->Err_0),
            is_grammatical(raw_data@) && exists_in_every_month(words_of(raw_data@)[1]) ==> r is Ok,
            r is Ok ==> decodes(raw_data@, r->Ok_0.time.year, r->Ok_0.time.month) && r->Ok_0@
                == report_of(raw_data@, r->Ok_0.time.year, r->Ok_0.time.month),
            is_grammatical(raw_data@) && r is Err ==> is_field_error(
                r->Err_0,
                "time"@,
                words_of(raw_data@)[1],
            ),
    {
        let (year, month) = current_year_month();
        let r = ParsedMetar::parse_data_at(raw_data, year, month);
        assert(r is Ok ==> r->Ok_0.time == time_of(words_of(raw_data@)[1], year, month));
        r
    }
}

} // verus!
