//! Laws that the decoder obeys, proved over its specification.

use crate::fields::{cloud_words, first_cloud_from, is_cloud, remark_words, weather_words, StationType};
use crate::clock::{MAX_CALENDAR_YEAR, MIN_CALENDAR_YEAR};
use crate::report::{
    alt_end, decodes, exists_in_every_month, is_grammatical, lemma_first_temp_dew_bounds, report_of, rvr_end, words_of, ParsedMetar,
};
use vstd::prelude::*;

verus! {

/// Decoding is a function of the line and the month it is read in: any two
/// reports that the decoder may give for one line in one month are equal.
pub proof fn decoding_is_deterministic(
    line: Seq<char>,
    year: i32,
    month: u32,
    a: ParsedMetar,
    b: ParsedMetar,
)
    requires
        a@ == report_of(line, year, month),
        b@ == report_of(line, year, month),
    ensures
        a@ == b@,
{
}

/// A grammatical line in which no word is the remarks marker decodes to no
/// remarks at all.
pub proof fn no_marker_no_remarks(line: Seq<char>, year: i32, month: u32)
    requires
        is_grammatical(line),
        forall|i: int| 0 <= i < words_of(line).len() ==> words_of(line)[i] != "RMK"@,
    ensures
        report_of(line, year, month).remarks.len() == 0,
{
    let ts = words_of(line);
    let q = alt_end(ts);
    if q < ts.len() {
        assert(q >= 0) by {
            lemma_first_temp_dew_bounds(ts, rvr_end(ts));
            assert(rvr_end(ts) >= 2);
        }
        assert(ts[q] != "RMK"@);
    }
}

/// The remarks of a section `RMK w1 w2 ...` are exactly the words after the
/// marker, in order, where none of them is itself the marker.
pub proof fn marker_is_excluded(ws: Seq<Seq<char>>)
    requires
        forall|i: int| 0 <= i < ws.len() ==> ws[i] != "RMK"@,
    ensures
        remark_words(seq!["RMK"@] + ws) == ws,
    decreases ws.len(),
{
    let s = seq!["RMK"@] + ws;
    if ws.len() == 0 {
        assert(s.drop_last() =~= Seq::<Seq<char>>::empty());
        assert(remark_words(s.drop_last()) == Seq::<Seq<char>>::empty());
        assert(remark_words(s) =~= ws);
    } else {
        assert(s.drop_last() =~= seq!["RMK"@] + ws.drop_last());
        assert(s.last() == ws.last());
        assert(ws[ws.len() - 1] != "RMK"@);
        marker_is_excluded(ws.drop_last());
        assert(ws.drop_last().push(ws.last()) =~= ws);
    }
}

/// A word other than `AUTO` or `COR` after the time gives no station type:
/// the report's type is unspecified.
pub proof fn unmarked_station_type_is_unspecified(line: Seq<char>, year: i32, month: u32)
    requires
        is_grammatical(line),
        words_of(line)[2] != "AUTO"@,
        words_of(line)[2] != "COR"@,
    ensures
        report_of(line, year, month).station_type == StationType::Unspecified,
{
}

/// A grammatical line whose time names a day no later than the 28th decodes
/// in every month of every year that chrono's dates hold, whatever stands in
/// the station-type position and whether or not it has remarks: only the
/// grammar and the time can make decoding fail.
pub proof fn early_days_decode_in_every_month(line: Seq<char>, year: i32, month: u32)
    requires
        is_grammatical(line),
        exists_in_every_month(words_of(line)[1]),
        MIN_CALENDAR_YEAR <= year <= MAX_CALENDAR_YEAR,
        1 <= month <= 12,
    ensures
        decodes(line, year, month),
{
}

/// The first cloud layer of a sequence with one more word at its end.
proof fn first_cloud_of_longer(ts: Seq<Seq<char>>, i: int)
    requires
        ts.len() > 0,
        0 <= i <= ts.len() - 1,
    ensures
        first_cloud_from(ts, i) == if first_cloud_from(ts.drop_last(), i) < ts.len() - 1 {
            first_cloud_from(ts.drop_last(), i)
        } else if is_cloud(ts.last()) {
            ts.len() - 1
        } else {
            ts.len() as int
        },
    decreases ts.len() - i,
{
    let t = ts.drop_last();
    if i < ts.len() - 1 {
        assert(t[i] == ts[i]);
        if !is_cloud(ts[i]) {
            first_cloud_of_longer(ts, i + 1);
        }
    } else {
        assert(first_cloud_from(t, i) == t.len());
        assert(first_cloud_from(ts, i + 1) == ts.len());
    }
}

/// Without cloud layers there are no cloud words.
proof fn no_clouds_no_cloud_words(ts: Seq<Seq<char>>)
    requires
        forall|i: int| 0 <= i < ts.len() ==> !is_cloud(#[trigger] ts[i]),
    ensures
        cloud_words(ts).len() == 0,
    decreases ts.len(),
{
    if ts.len() > 0 {
        assert(!is_cloud(ts[ts.len() - 1]));
        assert forall|i: int| 0 <= i < ts.drop_last().len() implies !is_cloud(
            #[trigger] ts.drop_last()[i],
        ) by {
            assert(ts.drop_last()[i] == ts[i]);
        }
        no_clouds_no_cloud_words(ts.drop_last());
    }
}

/// Where the cloud layers of a segment come after all of its weather words,
/// the weather words followed by the cloud words give back the segment.
pub proof fn weather_then_clouds(ts: Seq<Seq<char>>)
    requires
        forall|i: int, j: int|
            0 <= i < j < ts.len() && is_cloud(#[trigger] ts[i]) ==> is_cloud(#[trigger] ts[j]),
    ensures
        weather_words(ts) + cloud_words(ts) == ts,
    decreases ts.len(),
{
    if ts.len() == 0 {
        assert(weather_words(ts) + cloud_words(ts) =~= ts);
    } else {
        let t = ts.drop_last();
        assert forall|i: int, j: int|
            0 <= i < j < t.len() && is_cloud(#[trigger] t[i]) implies is_cloud(#[trigger] t[j]) by {
            assert(t[i] == ts[i] && t[j] == ts[j]);
        }
        weather_then_clouds(t);
        first_cloud_of_longer(ts, 0);
        crate::fields::lemma_first_cloud_bounds(t, 0);
        if is_cloud(ts.last()) {
            let f = first_cloud_from(t, 0);
            assert(first_cloud_from(ts, 0) == if f < t.len() {
                f
            } else {
                t.len() as int
            });
            assert(ts.take(first_cloud_from(ts, 0)) =~= t.take(f));
            assert(weather_words(ts) + cloud_words(ts) =~= (weather_words(t) + cloud_words(
                t,
            )).push(ts.last()));
        } else {
            assert forall|i: int| 0 <= i < ts.len() implies !is_cloud(#[trigger] ts[i]) by {
                if i < ts.len() - 1 && is_cloud(ts[i]) {
                    assert(is_cloud(ts[ts.len() - 1]));
                }
            }
            no_clouds_no_cloud_words(ts);
            no_clouds_no_cloud_words(t);
            assert(first_cloud_from(t, 0) == t.len()) by {
                if first_cloud_from(t, 0) < t.len() {
                    crate::fields::lemma_first_cloud_bounds(t, 0);
                }
            }
            assert(weather_words(ts) + cloud_words(ts) =~= ts);
        }
    }
}

} // verus!
