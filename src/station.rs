//! Station codes, and picking a station's report out of a retrieved feed.

use crate::clock::current_year_month;
use crate::error::Error;
use crate::error::is_field_error;
use crate::report::{
    decodes, exists_in_every_month, is_grammatical, is_ungrammatical_error, report_of, words_of,
    ParsedMetar,
};
use crate::text::{chars_of, has_at, holds_at, split_on, split_text, views};
use vstd::prelude::*;
use vstd::string::*;
use vstd::utf8::encode_utf8;

verus! {

/// A decoded report, with the line it was decoded from.
#[derive(Debug, PartialEq)]
pub struct Metar {
    pub raw_data: String,
    pub data: ParsedMetar,
}

/// What `str::to_uppercase` makes of a text.
pub uninterp spec fn upper_of(s: Seq<char>) -> Seq<char>;

/// Relies on `str::to_uppercase`: its result depends on the text alone.
#[verifier::external_body]
fn uppercase(s: &str) -> (r: String)
    ensures
        r@ == upper_of(s@),
{
    s.to_uppercase()
}

/// `s` holds `w` somewhere.
pub open spec fn contains_text(s: Seq<char>, w: Seq<char>) -> bool {
    exists|i: int| 0 <= i && #[trigger] holds_at(s, i, w)
}

/// Whether `s` holds `w` somewhere.
pub fn find_text(s: &Vec<char>, w: &str) -> (r: bool)
    ensures
        r == contains_text(s@, w@),
{
    let n = s.len();
    let mut i: usize = 0;
    while i <= n
        invariant
            n == s@.len(),
            forall|j: int| 0 <= j < i ==> !#[trigger] holds_at(s@, j, w@),
        decreases n + 1 - i,
    {
        if has_at(s, i, w) {
            return true;
        }
        if i == n {
            assert forall|j: int| 0 <= j implies !#[trigger] holds_at(s@, j, w@) by {
                if j > n {
                    assert(!(j + w@.len() <= s@.len()));
                }
            }
            return false;
        }
        i = i + 1;
    }
    false
}

/// The first of `lines` that holds `code`.
pub open spec fn first_line_with(lines: Seq<Seq<char>>, code: Seq<char>) -> Option<Seq<char>>
    decreases lines.len(),
{
    if lines.len() == 0 {
        None
    } else if contains_text(lines[0], code) {
        Some(lines[0])
    } else {
        first_line_with(lines.drop_first(), code)
    }
}

/// The length of a text in UTF-8 bytes.
pub open spec fn byte_len(s: Seq<char>) -> int {
    encode_utf8(s).len() as int
}

/// What a check of an upper-case station code gives: four bytes starting
/// with `K`, the prefix of the contiguous United States.
pub open spec fn code_accepted(code: Seq<char>) -> bool {
    byte_len(code) == 4 && code.len() > 0 && code[0] == 'K'
}

/// The error for a feed that holds no report of the station.
pub open spec fn is_not_found_error(e: Error) -> bool {
    e is NotFound && e->NotFound_0@ == "METAR not found."@
}

/// The marker of a feed that holds no report.
pub open spec fn missing_marker() -> Seq<char> {
    "The requested URL"@
}

/// The report line of `code` in a retrieved feed, if it holds one.
pub open spec fn feed_line(code: Seq<char>, feed: Seq<char>) -> Option<Seq<char>> {
    if contains_text(feed, missing_marker()) {
        None
    } else {
        first_line_with(split_on(feed, '\n'), code)
    }
}

fn not_found() -> (r: Error)
    ensures
        is_not_found_error(r),
{
    Error::NotFound(String::from_str("METAR not found."))
}

impl Metar {
    /// The line the report was decoded from.
    pub fn text(&self) -> (r: String)
        ensures
            r@ == self.raw_data@,
    {
        self.raw_data.clone()
    }

    /// Accepts an upper-case station code of four bytes starting with `K`.
    pub fn check_upper_code(code: &str) -> (r: Result<String, Error>)
        ensures
            r is Ok <==> code_accepted(code@),
            r is Ok ==> r->Ok_0@ == code@,
            r is Err ==> r->Err_0 is Invalid,
            byte_len(code@) == 4 && !code_accepted(code@) ==> r is Err && r->Err_0->Invalid_0@
                == "U.S. METARs only."@,
            byte_len(code@) != 4 ==> r is Err && r->Err_0->Invalid_0@ == "METAR not valid."@,
    {
        let cs = chars_of(code);
        if code.as_bytes().len() == 4 {
            if cs.len() > 0 && cs[0] == 'K' {
                Ok(String::from_str(code))
            } else {
                Err(Error::Invalid(String::from_str("U.S. METARs only.")))
            }
        } else {
            Err(Error::Invalid(String::from_str("METAR not valid.")))
        }
    }

    /// Upper-cases a station code and checks it.
    pub fn check_code(code: &str) -> (r: Result<String, Error>)
        ensures
            r is Ok <==> code_accepted(upper_of(code@)),
            r is Ok ==> r->Ok_0@ == upper_of(code@),
            r is Err ==> r->Err_0 is Invalid,
            byte_len(upper_of(code@)) == 4 && !code_accepted(upper_of(code@)) ==> r is Err
                && r->Err_0->Invalid_0@ == "U.S. METARs only."@,
            byte_len(upper_of(code@)) != 4 ==> r is Err && r->Err_0->Invalid_0@
                == "METAR not valid."@,
    {
        let upper = uppercase(code);
        Metar::check_upper_code(upper.as_str())
    }

    /// The first line of a feed that holds the station code.
    pub fn split_data(code: &str, raw_data: &str) -> (r: Option<String>)
        ensures
            match r {
                Some(l) => first_line_with(split_on(raw_data@, '\n'), code@) == Some(l@),
                None => first_line_with(split_on(raw_data@, '\n'), code@) is None,
            },
    {
        let lines = split_text(raw_data, '\n');
        let ghost ls = split_on(raw_data@, '\n');
        let mut i: usize = 0;
        assert(ls.skip(0) =~= ls);
        while i < lines.len()
            invariant
                ls == split_on(raw_data@, '\n'),
                views(lines@) == ls,
                i <= lines@.len(),
                first_line_with(ls, code@) == first_line_with(ls.skip(i as int), code@),
            decreases lines@.len() - i,
        {
            let cs = chars_of(lines[i].as_str());
            assert(ls.skip(i as int)[0] == lines@[i as int]@);
            if find_text(&cs, code) {
                assert(ls.skip(i as int).len() > 0);
                let found = lines[i].clone();
                assert(first_line_with(ls.skip(i as int), code@) == Some(found@));
                return Some(found);
            }
            assert(ls.skip(i as int).drop_first() =~= ls.skip(i + 1));
            i = i + 1;
        }
        assert(ls.skip(i as int).len() == 0);
        None
    }

    /// Decodes the report of `code` out of a retrieved feed, read in `month`
    /// of `year`.
    pub fn from_feed_at(code: &str, feed: &str, year: i32, month: u32) -> (r: Result<Metar, Error>)
        ensures
            feed_line(code@, feed@) is None ==> r is Err && is_not_found_error(r->Err_0),
            feed_line(code@, feed@) is Some ==> {
                let l = feed_line(code@, feed@)->Some_0;
                &&& (r is Ok <==> decodes(l, year, month))
                &&& (r is Ok ==> r->Ok_0.raw_data@ == l && r->Ok_0.data@ == report_of(
                    l,
                    year,
                    month,
                ))
                &&& (!is_grammatical(l) ==> r is Err && is_ungrammatical_error(r->Err_0))
                &&& (is_grammatical(l) && !decodes(l, year, month) ==> r is Err && is_field_error(
                    r->Err_0,
                    "time"@,
                    words_of(l)[1],
                ))
            },
    {
        let fs = chars_of(feed);
        if find_text(&fs, "The requested URL") {
            return Err(not_found());
        }
        match Metar::split_data(code, feed) {
            None => Err(not_found()),
            Some(line) => match ParsedMetar::parse_data_at(line.as_str(), year, month) {
                Ok(data) => Ok(Metar { raw_data: line, data }),
                Err(e) => Err(e),
            },
        }
    }

    /// Decodes the report of `code` out of a retrieved feed, read in the
    /// present month.
    pub fn from_feed(code: &str, feed: &str) -> (r: Result<Metar, Error>)
        ensures
            feed_line(code@, feed@) is None ==> r is Err && is_not_found_error(r->Err_0),
            feed_line(code@, feed@) is Some ==> {
                let l = feed_line(code@, feed@)->Some_0;
                &&& (r is Ok ==> r->Ok_0.raw_data@ == l && decodes(
                    l,
                    r->Ok_0.data.time.year,
                    r->Ok_0.data.time.month,
                ) && r->Ok_0.data@ == report_of(l, r->Ok_0.data.time.year, r->Ok_0.data.time.month))
                &&& (!is_grammatical(l) ==> r is Err && is_ungrammatical_error(r->Err_0))
                &&& (is_grammatical(l) && exists_in_every_month(words_of(l)[1]) ==> r is Ok)
                &&& (is_grammatical(l) && r is Err ==> is_field_error(
                    r->Err_0,
                    "time"@,
                    words_of(l)[1],
                ))
            },
    {
        let (year, month) = current_year_month();
        let r = Metar::from_feed_at(code, feed, year, month);
        proof {
            if r is Ok {
                let l = feed_line(code@, feed@)->Some_0;
                assert(r->Ok_0.data@.time == report_of(l, year, month).time);
            }
        }
        r
    }
}

} // verus!
