//! A parsed EPW file: its header, read at once, and its records, read on
//! first request.

use crate::error::EPWParseError;
use crate::header::{header_error, header_lines, header_matches, header_ok, lemma_header_time_zone, string_views, Header};
use crate::weather_data::{data_matches, first_failing_line, rows_ok_in_range, WeatherData};
use vstd::prelude::*;

verus! {

/// An EPW file whose header has been parsed. The data lines are kept and
/// parsed into records the first time they are asked for.
#[derive(Debug)]
pub struct EPWFile {
    header: Header,
    data: Option<WeatherData>,
    content: Vec<String>,
}

impl EPWFile {
    pub closed spec fn header_spec(&self) -> Header {
        self.header
    }

    /// The lines after the header.
    pub closed spec fn content_spec(&self) -> Seq<Seq<char>> {
        string_views(self.content@)
    }

    pub closed spec fn data_spec(&self) -> Option<WeatherData> {
        self.data
    }

    /// The header's time zone is a valid offset, and records that were read
    /// are those of the data lines.
    pub closed spec fn wf(&self) -> bool {
        &&& -86_400 < self.header.location.time_zone < 86_400
        &&& self.data matches Some(d) ==> data_matches(d, string_views(self.content@), self.header.location.time_zone as int)
    }

    /// Parses the header from the first eight of `lines` and keeps the rest
    /// as data lines.
    pub fn from_lines(lines: Vec<String>) -> (r: Result<EPWFile, EPWParseError>)
        ensures
            r is Ok <==> header_ok(header_lines(lines@)),
            r matches Ok(epw) ==> epw.wf() && header_matches(epw.header_spec(), header_lines(lines@))
                && epw.content_spec() == string_views(lines@).skip(header_lines(lines@).len() as int)
                && epw.data_spec() is None,
            r matches Err(e) ==> header_error(e, header_lines(lines@)),
    {
        let header = Header::parse(&lines)?;
        proof {
            lemma_header_time_zone(header, header_lines(lines@));
        }
        let k: usize = if lines.len() < 8 { lines.len() } else { 8 };
        let mut content: Vec<String> = Vec::new();
        let mut i = k;
        while i < lines.len()
            invariant
                k <= i <= lines.len(),
                string_views(content@) == string_views(lines@).subrange(k as int, i as int),
            decreases lines.len() - i,
        {
            let line = lines[i].clone();
            let ghost before = content@;
            content.push(line);
            assert(string_views(content@) =~= string_views(before).push(line@));
            assert(string_views(content@) =~= string_views(lines@).subrange(k as int, i + 1));
            i += 1;
        }
        assert(string_views(lines@).subrange(k as int, lines.len() as int) =~= string_views(lines@).skip(k as int));
        Ok(EPWFile { header, data: None, content })
    }

    pub fn get_header(&self) -> (r: &Header)
        ensures
            *r == self.header_spec(),
    {
        &self.header
    }

    /// The records of the data lines, parsed on the first call and kept.
    pub fn get_data(&mut self) -> (r: Result<&WeatherData, EPWParseError>)
        requires
            old(self).wf(),
        ensures
            final(self).wf(),
            final(self).header_spec() == old(self).header_spec(),
            final(self).content_spec() == old(self).content_spec(),
            r matches Ok(d) ==> data_matches(*d, old(self).content_spec(), old(self).header_spec().location.time_zone as int),
            r matches Ok(d) ==> final(self).data_spec() == Some(*d),
            old(self).data_spec() matches Some(d0) ==> (r matches Ok(d) && *d == d0),
            old(self).data_spec() is None && rows_ok_in_range(old(self).content_spec(), old(self).header_spec().location.time_zone as int) ==> r is Ok,
            r matches Err(e) ==> e is Data,
            r matches Err(e) ==> first_failing_line(e, old(self).content_spec(), old(self).header_spec().location.time_zone as int),
    {
        if self.data.is_none() {
            let d = WeatherData::parse(&self.content, &self.header)?;
            self.data = Some(d);
        }
        Ok(self.data.as_ref().unwrap())
    }
}

} // verus!
