//! The shape of each field of a report, and the decoder that turns its raw
//! text into a value.

use crate::clock::{calendar_date_exists, clock_time_exists, date_exists};
use crate::error::{field_error, is_field_error, Error};
use crate::report::ParsedMetar;
use crate::text::{
    all_digits, chars_of, digit, digits_between, has_at, holds_at, is_digit, is_literal,
    lemma_digits_within, lemma_num_of_bounds, num_of, pow10, read_number, split_on, split_text,
    views,
};
use vstd::prelude::*;
use vstd::string::*;

verus! {

/// A wind reading. A variable wind carries only `variable_speed`; a calm or
/// absent wind is all zero.
#[derive(Debug, Clone, Copy, PartialEq, Eq, Structural)]
pub struct Wind {
    pub direction: i32,
    pub speed: i32,
    pub gust_speed: i32,
    pub variable_speed: i32,
}

pub open spec fn calm_wind() -> Wind {
    Wind { direction: 0, speed: 0, gust_speed: 0, variable_speed: 0 }
}

impl Wind {
    /// The reading of a calm wind, used where a report gives none.
    pub fn new() -> (r: Wind)
        ensures
            r == calm_wind(),
    {
        Wind { direction: 0, speed: 0, gust_speed: 0, variable_speed: 0 }
    }
}

/// Who produced a report.
#[derive(Debug, Clone, Copy, PartialEq, Eq, Structural)]
pub enum StationType {
    /// `AUTO`: an automated station without human oversight.
    Automated,
    /// `COR`: a corrected report.
    Corrected,
    /// Neither marker was given.
    Unspecified,
}

impl StationType {
    /// The marker that stands for this type in a report; empty for none.
    pub fn as_str(&self) -> (r: &'static str)
        ensures
            r@ == station_type_text(*self),
    {
        match self {
            StationType::Automated => "AUTO",
            StationType::Corrected => "COR",
            StationType::Unspecified => "",
        }
    }
}

pub open spec fn station_type_text(t: StationType) -> Seq<char> {
    match t {
        StationType::Automated => "AUTO"@,
        StationType::Corrected => "COR"@,
        StationType::Unspecified => ""@,
    }
}

/// When a report was observed. The report gives day, hour and minute; the
/// year and month come from the moment of decoding.
#[derive(Debug, Clone, Copy, PartialEq, Eq, Structural)]
pub struct ObservationTime {
    pub year: i32,
    pub month: u32,
    pub day: u32,
    pub hour: u32,
    pub minute: u32,
}

// ---- time: DDHHMMZ ----

pub open spec fn is_time(t: Seq<char>) -> bool {
    t.len() == 7 && all_digits(t.take(6)) && t[6] == 'Z'
}

pub open spec fn day_of(t: Seq<char>) -> int {
    num_of(t.subrange(0, 2))
}

pub open spec fn hour_of(t: Seq<char>) -> int {
    num_of(t.subrange(2, 4))
}

pub open spec fn minute_of(t: Seq<char>) -> int {
    num_of(t.subrange(4, 6))
}

/// The time that a well-formed time field gives in `year` and `month`.
pub open spec fn time_of(t: Seq<char>, year: i32, month: u32) -> ObservationTime {
    ObservationTime {
        year,
        month,
        day: day_of(t) as u32,
        hour: hour_of(t) as u32,
        minute: minute_of(t) as u32,
    }
}

/// The time field names an existing minute of `month` in `year`.
pub open spec fn time_exists(t: Seq<char>, year: i32, month: u32) -> bool {
    &&& date_exists(year, month, day_of(t) as u32)
    &&& hour_of(t) < 24
    &&& minute_of(t) < 60
}

pub proof fn lemma_two_digits(t: Seq<char>, a: int)
    requires
        0 <= a <= a + 2 <= t.len(),
        all_digits(t.subrange(a, a + 2)),
    ensures
        0 <= num_of(t.subrange(a, a + 2)) < 100,
{
    lemma_num_of_bounds(t.subrange(a, a + 2));
    reveal_with_fuel(pow10, 3);
}

// ---- temperature and dew point: [M]NN ----

pub open spec fn is_temp(t: Seq<char>) -> bool {
    ||| t.len() == 2 && all_digits(t)
    ||| t.len() == 3 && t[0] == 'M' && all_digits(t.drop_first())
}

/// Degrees Celsius; a leading `M` marks a value below zero.
pub open spec fn temp_of(t: Seq<char>) -> int {
    if t[0] == 'M' {
        -num_of(t.drop_first())
    } else {
        num_of(t)
    }
}

// ---- altimeter: ANNNN ----

pub open spec fn is_alt(t: Seq<char>) -> bool {
    t.len() == 5 && t[0] == 'A' && all_digits(t.drop_first())
}

/// Hundredths of an inch of mercury.
pub open spec fn alt_of(t: Seq<char>) -> int {
    num_of(t.drop_first())
}

// ---- station: four letters or digits ----

pub open spec fn is_upper_alnum(c: char) -> bool {
    ('A' <= c && c <= 'Z') || is_digit(c)
}

pub open spec fn is_station(t: Seq<char>) -> bool {
    t.len() == 4 && forall|i: int| 0 <= i < 4 ==> #[trigger] is_upper_alnum(t[i])
}

// ---- station type: AUTO or COR ----

pub open spec fn is_station_type(t: Seq<char>) -> bool {
    t == "AUTO"@ || t == "COR"@
}

/// Any text but the two markers gives the unspecified type.
pub open spec fn station_type_of(t: Seq<char>) -> StationType {
    if t == "AUTO"@ {
        StationType::Automated
    } else if t == "COR"@ {
        StationType::Corrected
    } else {
        StationType::Unspecified
    }
}

// ---- visibility ----

pub open spec fn ends_in_miles(t: Seq<char>) -> bool {
    t.len() >= 2 && holds_at(t, t.len() - 2, "SM"@)
}

/// One word of visibility: `NSM`, `NNSM`, `N/NSM`, `N/NNSM`, `MN/NSM`, or a
/// four-digit distance in meters.
pub open spec fn is_vis_word(t: Seq<char>) -> bool {
    ||| (t.len() == 3 || t.len() == 4) && all_digits(t.take(t.len() - 2)) && ends_in_miles(t)
    ||| (t.len() == 5 || t.len() == 6) && is_digit(t[0]) && t[1] == '/' && all_digits(
        t.subrange(2, t.len() - 2),
    ) && ends_in_miles(t)
    ||| t.len() == 6 && t[0] == 'M' && is_digit(t[1]) && t[2] == '/' && is_digit(t[3])
        && ends_in_miles(t)
    ||| t.len() == 4 && all_digits(t)
}

/// The whole miles of a mixed visibility `N N/NSM`.
pub open spec fn is_vis_whole(t: Seq<char>) -> bool {
    t.len() == 1 && is_digit(t[0])
}

/// The fraction of a mixed visibility `N N/NSM`.
pub open spec fn is_vis_fraction(t: Seq<char>) -> bool {
    t.len() == 5 && is_digit(t[0]) && t[1] == '/' && is_digit(t[2]) && ends_in_miles(t)
}

/// The raw text of a visibility: one word, or whole miles and a fraction.
pub open spec fn is_vis(t: Seq<char>) -> bool {
    ||| is_vis_word(t)
    ||| t.len() == 7 && is_vis_whole(t.take(1)) && t[1] == ' ' && is_vis_fraction(t.skip(2))
}

/// The visibility without its unit; a leading `M` reads "< ".
pub open spec fn vis_text(t: Seq<char>) -> Seq<char> {
    let body = if ends_in_miles(t) {
        t.take(t.len() - 2)
    } else {
        t
    };
    if t[0] == 'M' {
        "< "@ + body.drop_first()
    } else {
        body
    }
}

// ---- wind: VRBssKT, dddssKT, dddssGggKT ----

pub open spec fn is_wind(t: Seq<char>) -> bool {
    ||| t.len() == 7 && holds_at(t, 0, "VRB"@) && all_digits(t.subrange(3, 5)) && holds_at(
        t,
        5,
        "KT"@,
    )
    ||| t.len() == 7 && all_digits(t.take(5)) && holds_at(t, 5, "KT"@)
    ||| t.len() == 10 && all_digits(t.take(5)) && t[5] == 'G' && all_digits(t.subrange(6, 8))
        && holds_at(t, 8, "KT"@)
}

pub open spec fn wind_of(t: Seq<char>) -> Wind {
    if holds_at(t, 0, "VRB"@) {
        Wind {
            direction: 0,
            speed: 0,
            gust_speed: 0,
            variable_speed: num_of(t.subrange(3, 5)) as i32,
        }
    } else {
        Wind {
            direction: num_of(t.take(3)) as i32,
            speed: num_of(t.subrange(3, 5)) as i32,
            gust_speed: if t.len() == 10 {
                num_of(t.subrange(6, 8)) as i32
            } else {
                0
            },
            variable_speed: 0,
        }
    }
}

// ---- wind variation: dddVddd ----

pub open spec fn is_wind_variation(t: Seq<char>) -> bool {
    t.len() == 7 && all_digits(t.take(3)) && t[3] == 'V' && all_digits(t.subrange(4, 7))
}

/// The two bounding directions, in degrees.
pub open spec fn wind_variation_of(t: Seq<char>) -> (i32, i32) {
    (num_of(t.take(3)) as i32, num_of(t.subrange(4, 7)) as i32)
}

// ---- runway visual range: a letter, two digits, more, then FT ----

pub open spec fn is_rvr(t: Seq<char>) -> bool {
    &&& t.len() >= 6
    &&& 'A' <= t[0] && t[0] <= 'Z'
    &&& all_digits(t.subrange(1, 3))
    &&& holds_at(t, t.len() - 2, "FT"@)
}

// ---- temperature and dew point pair: [M]NN/[M]NN ----

/// Where the slash of a temperature and dew point pair stands.
pub open spec fn slash_at(t: Seq<char>) -> int {
    if t.len() > 0 && t[0] == 'M' {
        3
    } else {
        2
    }
}

pub open spec fn is_temp_dew(t: Seq<char>) -> bool {
    let q = slash_at(t);
    t.len() > q && t[q] == '/' && is_temp(t.take(q)) && is_temp(t.skip(q + 1))
}

pub open spec fn temp_part(t: Seq<char>) -> Seq<char> {
    t.take(slash_at(t))
}

pub open spec fn dew_part(t: Seq<char>) -> Seq<char> {
    t.skip(slash_at(t) + 1)
}

// ---- present weather and clouds ----

/// A coverage abbreviation starts `t`.
pub open spec fn starts_with_coverage(t: Seq<char>) -> bool {
    holds_at(t, 0, "FEW"@) || holds_at(t, 0, "SCT"@) || holds_at(t, 0, "BKN"@) || holds_at(
        t,
        0,
        "OVC"@,
    )
}

/// A cloud-layer word: coverage and a three-digit height, optionally `CB` or
/// `TCU`; a vertical visibility `VVnnn`; or `CLR`, `SKC`, `CAVOK`.
pub open spec fn is_cloud(t: Seq<char>) -> bool {
    ||| (t.len() == 6 || t.len() == 8 && holds_at(t, 6, "CB"@) || t.len() == 9 && holds_at(
        t,
        6,
        "TCU"@,
    )) && starts_with_coverage(t) && all_digits(t.subrange(3, 6))
    ||| t.len() == 5 && holds_at(t, 0, "VV"@) && all_digits(t.subrange(2, 5))
    ||| t == "CLR"@ || t == "SKC"@ || t == "CAVOK"@
}

/// The cloud-layer words of `ts`, in order.
pub open spec fn cloud_words(ts: Seq<Seq<char>>) -> Seq<Seq<char>>
    decreases ts.len(),
{
    if ts.len() == 0 {
        Seq::empty()
    } else {
        let rest = cloud_words(ts.drop_last());
        if is_cloud(ts.last()) {
            rest.push(ts.last())
        } else {
            rest
        }
    }
}

/// The position of the first cloud-layer word of `ts` from `i` on, or the
/// length of `ts` where there is none.
pub open spec fn first_cloud_from(ts: Seq<Seq<char>>, i: int) -> int
    decreases ts.len() - i,
{
    if i < 0 || i >= ts.len() {
        ts.len() as int
    } else if is_cloud(ts[i]) {
        i
    } else {
        first_cloud_from(ts, i + 1)
    }
}

/// The words before the first cloud-layer word: all of them where there is
/// no cloud layer.
pub open spec fn weather_words(ts: Seq<Seq<char>>) -> Seq<Seq<char>> {
    ts.take(first_cloud_from(ts, 0))
}

// ---- remarks ----

/// The words of `ts` other than the remarks marker, in order.
pub open spec fn remark_words(ts: Seq<Seq<char>>) -> Seq<Seq<char>>
    decreases ts.len(),
{
    if ts.len() == 0 {
        Seq::empty()
    } else {
        let rest = remark_words(ts.drop_last());
        if ts.last() == "RMK"@ {
            rest
        } else {
            rest.push(ts.last())
        }
    }
}

pub proof fn lemma_first_cloud_bounds(ts: Seq<Seq<char>>, i: int)
    requires
        0 <= i <= ts.len(),
    ensures
        i <= first_cloud_from(ts, i) <= ts.len(),
    decreases ts.len() - i,
{
    if i < ts.len() && !is_cloud(ts[i]) {
        lemma_first_cloud_bounds(ts, i + 1);
    }
}

impl ParsedMetar {
    /// Decodes a time field `DDHHMMZ` in the given year and month.
    pub fn parse_time(raw: &str, year: i32, month: u32) -> (r: Result<ObservationTime, Error>)
        ensures
            r is Ok <==> is_time(raw@) && time_exists(raw@, year, month),
            r is Ok ==> r->Ok_0 == time_of(raw@, year, month),
            r is Err ==> is_field_error(r->Err_0, "time"@, raw@),
    {
        let cs = chars_of(raw);
        if !(cs.len() == 7 && digits_between(&cs, 0, 6) && cs[6] == 'Z') {
            return Err(field_error("time", raw));
        }
        assert(cs@.take(6) =~= cs@.subrange(0, 6));
        proof {
            lemma_digits_within(cs@, 0, 6, 0, 2);
            lemma_digits_within(cs@, 0, 6, 2, 4);
            lemma_digits_within(cs@, 0, 6, 4, 6);
            lemma_two_digits(cs@, 0);
            lemma_two_digits(cs@, 2);
            lemma_two_digits(cs@, 4);
        }
        let day = read_number(&cs, 0, 2) as u32;
        let hour = read_number(&cs, 2, 4) as u32;
        let minute = read_number(&cs, 4, 6) as u32;
        if calendar_date_exists(year, month, day) && clock_time_exists(hour, minute) {
            Ok(ObservationTime { year, month, day, hour, minute })
        } else {
            Err(field_error("time", raw))
        }
    }

    /// Decodes a station-type word; anything but `AUTO` or `COR` is unspecified.
    pub fn parse_station_type(raw: &str) -> (r: StationType)
        ensures
            r == station_type_of(raw@),
    {
        let cs = chars_of(raw);
        if is_literal(&cs, "AUTO") {
            StationType::Automated
        } else if is_literal(&cs, "COR") {
            StationType::Corrected
        } else {
            StationType::Unspecified
        }
    }

    /// Decodes a wind field: `VRBssKT`, `dddssKT` or `dddssGggKT`.
    pub fn parse_wind(raw: &str) -> (r: Result<Wind, Error>)
        ensures
            r is Ok <==> is_wind(raw@),
            r is Ok ==> r->Ok_0 == wind_of(raw@),
            r is Err ==> is_field_error(r->Err_0, "wind"@, raw@),
    {
        let cs = chars_of(raw);
        let n = cs.len();
        if n == 7 && has_at(&cs, 0, "VRB") && digits_between(&cs, 3, 5) && has_at(&cs, 5, "KT") {
            proof {
                lemma_two_digits(cs@, 3);
            }
            return Ok(
                Wind {
                    direction: 0,
                    speed: 0,
                    gust_speed: 0,
                    variable_speed: read_number(&cs, 3, 5),
                },
            );
        }
        let plain = n == 7 && digits_between(&cs, 0, 5) && has_at(&cs, 5, "KT");
        let gusty = n == 10 && digits_between(&cs, 0, 5) && cs[5] == 'G' && digits_between(
            &cs,
            6,
            8,
        ) && has_at(&cs, 8, "KT");
        assert(cs@.take(5) =~= cs@.subrange(0, 5));
        if !(plain || gusty) {
            return Err(field_error("wind", raw));
        }
        proof {
            reveal_strlit("VRB");
            assert(is_digit(cs@.subrange(0, 5)[0]));
            assert(!holds_at(cs@, 0, "VRB"@)) by {
                if holds_at(cs@, 0, "VRB"@) {
                    assert(cs@.subrange(0, 3)[0] == "VRB"@[0]);
                }
            }
            lemma_digits_within(cs@, 0, 5, 0, 3);
            lemma_digits_within(cs@, 0, 5, 3, 5);
            lemma_num_of_bounds(cs@.subrange(0, 3));
            reveal_with_fuel(pow10, 4);
            lemma_two_digits(cs@, 3);
            if gusty {
                lemma_two_digits(cs@, 6);
            }
        }
        assert(cs@.take(3) =~= cs@.subrange(0, 3));
        let direction = read_number(&cs, 0, 3);
        let speed = read_number(&cs, 3, 5);
        let gust_speed = if n == 10 {
            read_number(&cs, 6, 8)
        } else {
            0
        };
        Ok(Wind { direction, speed, gust_speed, variable_speed: 0 })
    }

    /// Decodes a wind variation `dddVddd` into its two directions.
    pub fn parse_wind_variation(raw: &str) -> (r: Result<(i32, i32), Error>)
        ensures
            r is Ok <==> is_wind_variation(raw@),
            r is Ok ==> r->Ok_0 == wind_variation_of(raw@),
            r is Err ==> is_field_error(r->Err_0, "wind variation"@, raw@),
    {
        let cs = chars_of(raw);
        if !(cs.len() == 7 && digits_between(&cs, 0, 3) && cs[3] == 'V' && digits_between(
            &cs,
            4,
            7,
        )) {
            assert(cs@.take(3) =~= cs@.subrange(0, 3));
            return Err(field_error("wind variation", raw));
        }
        assert(cs@.take(3) =~= cs@.subrange(0, 3));
        proof {
            lemma_num_of_bounds(cs@.subrange(0, 3));
            lemma_num_of_bounds(cs@.subrange(4, 7));
            reveal_with_fuel(pow10, 4);
        }
        Ok((read_number(&cs, 0, 3), read_number(&cs, 4, 7)))
    }

    /// Decodes a visibility into its display text: the unit is dropped, and
    /// a leading `M` ("less than") reads "< ".
    pub fn parse_vis(raw: &str) -> (r: Result<String, Error>)
        ensures
            r is Ok <==> is_vis(raw@),
            r is Ok ==> r->Ok_0@ == vis_text(raw@),
            r is Err ==> is_field_error(r->Err_0, "visibility"@, raw@),
    {
        let cs = chars_of(raw);
        if !vis_shape(&cs) {
            return Err(field_error("visibility", raw));
        }
        let n = cs.len();
        let miles = n >= 2 && has_at(&cs, n - 2, "SM");
        let end = if miles {
            n - 2
        } else {
            n
        };
        assert(cs@.take(end as int) =~= cs@.subrange(0, end as int));
        if cs[0] == 'M' {
            let mut s = String::from_str("< ");
            s.append(raw.substring_char(1, end));
            assert(cs@.subrange(0, end as int).drop_first() =~= cs@.subrange(1, end as int));
            Ok(s)
        } else {
            Ok(String::from_str(raw.substring_char(0, end)))
        }
    }

    /// Decodes a temperature `[M]NN` in degrees Celsius.
    pub fn parse_temp(raw: &str) -> (r: Result<i32, Error>)
        ensures
            r is Ok <==> is_temp(raw@),
            r is Ok ==> r->Ok_0 == temp_of(raw@),
            r is Err ==> is_field_error(r->Err_0, "temperature"@, raw@),
    {
        decode_degrees(raw, "temperature")
    }

    /// Decodes a dew point `[M]NN` in degrees Celsius.
    pub fn parse_dew(raw: &str) -> (r: Result<i32, Error>)
        ensures
            r is Ok <==> is_temp(raw@),
            r is Ok ==> r->Ok_0 == temp_of(raw@),
            r is Err ==> is_field_error(r->Err_0, "dew point"@, raw@),
    {
        decode_degrees(raw, "dew point")
    }

    /// Decodes an altimeter setting `ANNNN` in hundredths of an inch of mercury.
    pub fn parse_alt(raw: &str) -> (r: Result<i32, Error>)
        ensures
            r is Ok <==> is_alt(raw@),
            r is Ok ==> r->Ok_0 == alt_of(raw@),
            r is Err ==> is_field_error(r->Err_0, "altimeter"@, raw@),
    {
        let cs = chars_of(raw);
        if !(cs.len() == 5 && cs[0] == 'A' && digits_between(&cs, 1, 5)) {
            assert(cs@.drop_first() =~= cs@.subrange(1, cs@.len() as int));
            return Err(field_error("altimeter", raw));
        }
        assert(cs@.drop_first() =~= cs@.subrange(1, 5));
        Ok(read_number(&cs, 1, 5))
    }

    /// Splits a weather-and-cloud segment into its present-weather words and
    /// its cloud-layer words. The weather words are those before the first
    /// cloud layer; where no word is a cloud layer, every word is weather.
    pub fn parse_weather(raw: &str) -> (r: (Vec<String>, Vec<String>))
        ensures
            views(r.0@) == weather_words(split_on(raw@, ' ')),
            views(r.1@) == cloud_words(split_on(raw@, ' ')),
    {
        let words = split_text(raw, ' ');
        let r = split_weather(&words, 0, words.len());
        assert(views(words@).subrange(0, words@.len() as int) =~= views(words@));
        r
    }

    /// The words of a remarks section, without the `RMK` marker.
    pub fn parse_remarks(raw: &str) -> (r: Vec<String>)
        ensures
            views(r@) == remark_words(split_on(raw@, ' ')),
    {
        let words = split_text(raw, ' ');
        let r = keep_remarks(&words, 0, words.len());
        assert(views(words@).subrange(0, words@.len() as int) =~= views(words@));
        r
    }
}

/// Decodes `[M]NN` in degrees Celsius, naming `field` on failure.
fn decode_degrees(raw: &str, field: &str) -> (r: Result<i32, Error>)
    ensures
        r is Ok <==> is_temp(raw@),
        r is Ok ==> r->Ok_0 == temp_of(raw@),
        r is Err ==> is_field_error(r->Err_0, field@, raw@),
{
    let cs = chars_of(raw);
    let n = cs.len();
    assert(n == 3 ==> cs@.drop_first() =~= cs@.subrange(1, 3));
    assert(cs@.subrange(0, n as int) =~= cs@);
    if n == 2 && digits_between(&cs, 0, 2) {
        proof {
            lemma_two_digits(cs@, 0);
            assert(is_digit(cs@.subrange(0, 2)[0]));
        }
        Ok(read_number(&cs, 0, 2))
    } else if n == 3 && cs[0] == 'M' && digits_between(&cs, 1, 3) {
        proof {
            lemma_two_digits(cs@, 1);
        }
        Ok(-read_number(&cs, 1, 3))
    } else {
        Err(field_error(field, raw))
    }
}

/// Whether `cs` is one word of visibility.
fn vis_word_shape(cs: &Vec<char>) -> (r: bool)
    ensures
        r == is_vis_word(cs@),
{
    let n = cs.len();
    let miles = n >= 2 && has_at(cs, n - 2, "SM");
    assert(n >= 2 ==> cs@.take(n - 2) =~= cs@.subrange(0, n - 2));
    assert(cs@.subrange(0, n as int) =~= cs@);
    if (n == 3 || n == 4) && digits_between(cs, 0, n - 2) && miles {
        return true;
    }
    if (n == 5 || n == 6) && digit(cs[0]) && cs[1] == '/' && digits_between(cs, 2, n - 2) && miles {
        return true;
    }
    if n == 6 && cs[0] == 'M' && digit(cs[1]) && cs[2] == '/' && digit(cs[3]) && miles {
        return true;
    }
    n == 4 && digits_between(cs, 0, 4)
}

/// Whether `w` is one word of visibility.
pub fn vis_word(w: &str) -> (r: bool)
    ensures
        r == is_vis_word(w@),
{
    let cs = chars_of(w);
    vis_word_shape(&cs)
}

/// Whether `cs` is the raw text of a visibility.
fn vis_shape(cs: &Vec<char>) -> (r: bool)
    ensures
        r == is_vis(cs@),
{
    if vis_word_shape(cs) {
        return true;
    }
    let n = cs.len();
    proof {
        reveal_strlit("SM");
    }
    if n == 7 {
        assert(cs@.skip(2).subrange(3, 5) =~= cs@.subrange(5, 7));
        assert(cs@.take(1)[0] == cs@[0]);
        assert(cs@.skip(2)[0] == cs@[2]);
        assert(cs@.skip(2)[1] == cs@[3]);
        assert(cs@.skip(2)[2] == cs@[4]);
    }
    n == 7 && digit(cs[0]) && cs[1] == ' ' && digit(cs[2]) && cs[3] == '/' && digit(cs[4])
        && has_at(cs, 5, "SM")
}

/// Whether `w` is a station identifier.
pub fn station_word(w: &str) -> (r: bool)
    ensures
        r == is_station(w@),
{
    let cs = chars_of(w);
    if cs.len() != 4 {
        return false;
    }
    let mut i: usize = 0;
    while i < 4
        invariant
            cs@ == w@,
            cs@.len() == 4,
            i <= 4,
            forall|j: int| 0 <= j < i ==> #[trigger] is_upper_alnum(cs@[j]),
        decreases 4 - i,
    {
        let c = cs[i];
        if !(('A' <= c && c <= 'Z') || digit(c)) {
            assert(!is_upper_alnum(cs@[i as int]));
            return false;
        }
        i = i + 1;
    }
    true
}

/// Whether `w` is a time field `DDHHMMZ`.
pub fn time_word(w: &str) -> (r: bool)
    ensures
        r == is_time(w@),
{
    let cs = chars_of(w);
    assert(cs@.len() >= 6 ==> cs@.take(6) =~= cs@.subrange(0, 6));
    cs.len() == 7 && digits_between(&cs, 0, 6) && cs[6] == 'Z'
}

/// Whether `w` is a runway visual range.
pub fn rvr_word(w: &str) -> (r: bool)
    ensures
        r == is_rvr(w@),
{
    let cs = chars_of(w);
    let n = cs.len();
    n >= 6 && 'A' <= cs[0] && cs[0] <= 'Z' && digits_between(&cs, 1, 3) && has_at(&cs, n - 2, "FT")
}

/// Whether `w` is the whole miles of a mixed visibility.
pub fn vis_whole_word(w: &str) -> (r: bool)
    ensures
        r == is_vis_whole(w@),
{
    let cs = chars_of(w);
    cs.len() == 1 && digit(cs[0])
}

/// Whether `w` is the fraction of a mixed visibility.
pub fn vis_fraction_word(w: &str) -> (r: bool)
    ensures
        r == is_vis_fraction(w@),
{
    let cs = chars_of(w);
    let n = cs.len();
    n == 5 && digit(cs[0]) && cs[1] == '/' && digit(cs[2]) && has_at(&cs, 3, "SM")
}

/// The temperature and dew point of a pair `[M]NN/[M]NN`, if `w` is one.
pub fn temp_dew_word(w: &str) -> (r: Option<(i32, i32)>)
    ensures
        r is Some <==> is_temp_dew(w@),
        r is Some ==> r->Some_0 == (temp_of(temp_part(w@)) as i32, temp_of(dew_part(w@)) as i32),
{
    let cs = chars_of(w);
    let n = cs.len();
    let q: usize = if n > 0 && cs[0] == 'M' {
        3
    } else {
        2
    };
    if !(n > q && cs[q] == '/') {
        return None;
    }
    let t = ParsedMetar::parse_temp(w.substring_char(0, q));
    let d = ParsedMetar::parse_dew(w.substring_char(q + 1, n));
    assert(cs@.take(q as int) =~= cs@.subrange(0, q as int));
    assert(cs@.skip(q + 1) =~= cs@.subrange(q + 1, n as int));
    match (t, d) {
        (Ok(t), Ok(d)) => Some((t, d)),
        _ => None,
    }
}

/// Whether `w` is a cloud-layer word.
pub fn cloud_word(w: &str) -> (r: bool)
    ensures
        r == is_cloud(w@),
{
    let cs = chars_of(w);
    let n = cs.len();
    if n >= 6 && (n == 6 || n == 8 && has_at(&cs, 6, "CB") || n == 9 && has_at(&cs, 6, "TCU")) && (
    has_at(&cs, 0, "FEW") || has_at(&cs, 0, "SCT") || has_at(&cs, 0, "BKN") || has_at(
        &cs,
        0,
        "OVC",
    )) && digits_between(&cs, 3, 6) {
        return true;
    }
    if n == 5 && has_at(&cs, 0, "VV") && digits_between(&cs, 2, 5) {
        return true;
    }
    is_literal(&cs, "CLR") || is_literal(&cs, "SKC") || is_literal(&cs, "CAVOK")
}

/// Splits the words `words[from..to]` into present weather and cloud layers.
pub fn split_weather(words: &Vec<String>, from: usize, to: usize) -> (r: (Vec<String>, Vec<String>))
    requires
        from <= to <= words@.len(),
    ensures
        views(r.0@) == weather_words(views(words@).subrange(from as int, to as int)),
        views(r.1@) == cloud_words(views(words@).subrange(from as int, to as int)),
{
    let ghost ts = views(words@).subrange(from as int, to as int);
    let mut clouds: Vec<String> = Vec::new();
    let mut i: usize = from;
    assert(ts.subrange(0, 0) =~= Seq::<Seq<char>>::empty());
    while i < to
        invariant
            from <= i <= to <= words@.len(),
            ts == views(words@).subrange(from as int, to as int),
            views(clouds@) == cloud_words(ts.subrange(0, i - from)),
        decreases to - i,
    {
        let ghost prefix = ts.subrange(0, i - from + 1);
        assert(prefix.drop_last() =~= ts.subrange(0, i - from));
        assert(prefix.last() == words@[i as int]@);
        if cloud_word(words[i].as_str()) {
            let w = words[i].clone();
            let ghost old_clouds = clouds@;
            clouds.push(w);
            assert(views(clouds@) =~= views(old_clouds).push(words@[i as int]@));
        }
        i = i + 1;
    }
    assert(ts.subrange(0, ts.len() as int) =~= ts);
    let mut weather: Vec<String> = Vec::new();
    let mut j: usize = from;
    while j < to && !cloud_word(words[j].as_str())
        invariant
            from <= j <= to <= words@.len(),
            ts == views(words@).subrange(from as int, to as int),
            first_cloud_from(ts, 0) == first_cloud_from(ts, j - from),
            views(weather@) == ts.take(j - from),
        decreases to - j,
    {
        let w = words[j].clone();
        let ghost old_weather = weather@;
        weather.push(w);
        assert(ts[j - from] == words@[j as int]@);
        assert(views(weather@) =~= views(old_weather).push(words@[j as int]@));
        assert(views(weather@) =~= ts.take(j - from + 1));
        j = j + 1;
    }
    (weather, clouds)
}

/// The words of `words[from..to]` other than the remarks marker.
pub fn keep_remarks(words: &Vec<String>, from: usize, to: usize) -> (r: Vec<String>)
    requires
        from <= to <= words@.len(),
    ensures
        views(r@) == remark_words(views(words@).subrange(from as int, to as int)),
{
    let ghost ts = views(words@).subrange(from as int, to as int);
    let mut kept: Vec<String> = Vec::new();
    let mut i: usize = from;
    assert(ts.subrange(0, 0) =~= Seq::<Seq<char>>::empty());
    while i < to
        invariant
            from <= i <= to <= words@.len(),
            ts == views(words@).subrange(from as int, to as int),
            views(kept@) == remark_words(ts.subrange(0, i - from)),
        decreases to - i,
    {
        let ghost prefix = ts.subrange(0, i - from + 1);
        assert(prefix.drop_last() =~= ts.subrange(0, i - from));
        assert(prefix.last() == words@[i as int]@);
        let cs = chars_of(words[i].as_str());
        if !is_literal(&cs, "RMK") {
            let w = words[i].clone();
            let ghost old_kept = kept@;
            kept.push(w);
            assert(views(kept@) =~= views(old_kept).push(words@[i as int]@));
        }
        i = i + 1;
    }
    assert(ts.subrange(0, ts.len() as int) =~= ts);
    kept
}

} // verus!
