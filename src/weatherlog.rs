//! Fetched weather records and their local log: one record per line, lines
//! that do not read back are skipped, and a CSV rendering of the list.
use vstd::prelude::*;
use vstd::string::StringExecFns;
use crate::text::{chars_of, string_of_range};
use crate::weather::{source_tag_text, DayValues, Source};

verus! {

/// One fetched day. `T` is the numeric type of coordinates and readings.
pub struct WeatherRecord<T> {
    pub timestamp: String,
    pub city: String,
    pub state: String,
    pub date: String,
    pub latitude: T,
    pub longitude: T,
    pub timezone: String,
    pub source: String,
    pub temp_max_c: T,
    pub temp_min_c: T,
    pub precipitation_mm: T,
}

/// Assembles the record of a successful fetch: the place as the geocoder
/// named it, the day's values, the source's tag, and the answer's time zone
/// (`auto` when it gave none).
pub fn build_record<T: Copy>(
    values: &DayValues<T>,
    latitude: T,
    longitude: T,
    date: &str,
    timezone: Option<String>,
    source: Source,
    timestamp: String,
    city: String,
    state: String,
) -> (r: WeatherRecord<T>)
    ensures
        r.timestamp == timestamp,
        r.city == city,
        r.state == state,
        r.date@ == date@,
        r.latitude == latitude,
        r.longitude == longitude,
        r.timezone@ == (match timezone {
            Some(t) => t@,
            None => "auto"@,
        }),
        r.source@ == source_tag_text(source)@,
        r.temp_max_c == values.temp_max,
        r.temp_min_c == values.temp_min,
        r.precipitation_mm == values.precipitation,
{
    let tz = match timezone {
        Some(t) => t,
        None => String::from_str("auto"),
    };
    WeatherRecord {
        timestamp,
        city,
        state,
        date: String::from_str(date),
        latitude,
        longitude,
        timezone: tz,
        source: String::from_str(source.tag()),
        temp_max_c: values.temp_max,
        temp_min_c: values.temp_min,
        precipitation_mm: values.precipitation,
    }
}

/// A finished line: its `\n` is gone, and a `\r` just before it too.
pub open spec fn strip_cr(l: Seq<char>) -> Seq<char> {
    if l.len() > 0 && l.last() == '\r' {
        l.drop_last()
    } else {
        l
    }
}

/// Reading `s` from the left: the finished lines and the unfinished rest.
pub open spec fn line_scan(s: Seq<char>) -> (Seq<Seq<char>>, Seq<char>)
    decreases s.len(),
{
    if s.len() == 0 {
        (Seq::empty(), Seq::empty())
    } else {
        let (done, cur) = line_scan(s.drop_last());
        if s.last() == '\n' {
            (done.push(strip_cr(cur)), Seq::empty())
        } else {
            (done, cur.push(s.last()))
        }
    }
}

/// The lines of a file's text, as a line-by-line reader yields them: split
/// at `\n`, a `\r` before it dropped, no empty line after a final `\n`.
pub open spec fn lines_of(s: Seq<char>) -> Seq<Seq<char>> {
    let (done, cur) = line_scan(s);
    if cur.len() > 0 {
        done.push(cur)
    } else {
        done
    }
}

pub open spec fn views_of(v: Seq<String>) -> Seq<Seq<char>> {
    v.map_values(|l: String| l@)
}

fn strip_cr_exec(cur: &mut Vec<char>)
    ensures
        final(cur)@ == strip_cr(old(cur)@),
{
    let n = cur.len();
    if n > 0 && cur[n - 1] == '\r' {
        cur.pop();
    }
}

/// Splits a log file's text into its lines.
pub fn log_lines(content: &str) -> (r: Vec<String>)
    ensures
        views_of(r@) == lines_of(content@),
{
    let cs = chars_of(content);
    let mut done: Vec<String> = Vec::new();
    let mut cur: Vec<char> = Vec::new();
    let mut i: usize = 0;
    while i < cs.len()
        invariant
            cs@ == content@,
            i <= cs@.len(),
            line_scan(cs@.subrange(0, i as int)) == (views_of(done@), cur@),
        decreases cs@.len() - i,
    {
        let c = cs[i];
        proof {
            assert(cs@.subrange(0, i as int + 1).drop_last() =~= cs@.subrange(0, i as int));
        }
        if c == '\n' {
            strip_cr_exec(&mut cur);
            let line = string_of_range(&cur, 0, cur.len());
            assert(cur@.subrange(0, cur@.len() as int) =~= cur@);
            let ghost before = done@;
            done.push(line);
            proof {
                assert(views_of(done@) =~= views_of(before).push(line@));
            }
            cur = Vec::new();
            proof {
                assert(cur@ =~= Seq::<char>::empty());
            }
        } else {
            cur.push(c);
        }
        i += 1;
    }
    proof {
        assert(cs@.subrange(0, cs@.len() as int) =~= cs@);
    }
    if cur.len() > 0 {
        let line = string_of_range(&cur, 0, cur.len());
        assert(cur@.subrange(0, cur@.len() as int) =~= cur@);
        let ghost before = done@;
        done.push(line);
        proof {
            assert(views_of(done@) =~= views_of(before).push(line@));
        }
    }
    done
}

/// The values present in `s`, in order.
pub open spec fn somes<T>(s: Seq<Option<T>>) -> Seq<T>
    decreases s.len(),
{
    if s.len() == 0 {
        Seq::empty()
    } else {
        let head: Seq<T> = match s[0] {
            Some(x) => seq![x],
            None => Seq::empty(),
        };
        head + somes(s.drop_first())
    }
}

/// Keeps the lines that read back as records, in file order, and skips the
/// others.
pub fn keep_parsed<T>(parsed: Vec<Option<T>>) -> (r: Vec<T>)
    ensures
        r@ == somes(parsed@),
{
    let mut rest = parsed;
    let mut out: Vec<T> = Vec::new();
    while rest.len() > 0
        invariant
            out@ + somes(rest@) == somes(parsed@),
        decreases rest@.len(),
    {
        let ghost before = rest@;
        let x = rest.remove(0);
        proof {
            assert(rest@ =~= before.drop_first());
        }
        match x {
            Some(v) => {
                let ghost o = out@;
                out.push(v);
                proof {
                    assert(o + (seq![v] + somes(rest@)) =~= out@ + somes(rest@));
                }
            },
            None => {
                assert(Seq::<T>::empty() + somes(rest@) =~= somes(rest@));
            },
        }
    }
    assert(out@ + Seq::<T>::empty() =~= out@);
    out
}

/// An emptied log reads back as no records.
pub proof fn lemma_cleared_log_reads_empty<T>()
    ensures
        lines_of(Seq::<char>::empty()) == Seq::<Seq<char>>::empty(),
        somes(Seq::<Option<T>>::empty()) == Seq::<T>::empty(),
{
}

/// First line of the CSV export.
pub open spec fn csv_header() -> Seq<char> {
    "timestamp,city,state,date,latitude,longitude,timezone,source,temp_max_c,temp_min_c,precipitation_mm\n"@
}

/// One CSV line of a record whose numbers are already written out.
pub open spec fn csv_row(r: WeatherRecord<String>) -> Seq<char> {
    r.timestamp@ + ","@ + r.city@ + ","@ + r.state@ + ","@ + r.date@ + ","@ + r.latitude@ + ","@
        + r.longitude@ + ","@ + r.timezone@ + ","@ + r.source@ + ","@ + r.temp_max_c@ + ","@
        + r.temp_min_c@ + ","@ + r.precipitation_mm@ + "\n"@
}

pub open spec fn csv_rows(rs: Seq<WeatherRecord<String>>) -> Seq<char>
    decreases rs.len(),
{
    if rs.len() == 0 {
        Seq::empty()
    } else {
        csv_rows(rs.drop_last()) + csv_row(rs.last())
    }
}

/// The CSV export of a list: the header, then one line per record in list
/// order.
pub open spec fn csv_document(rs: Seq<WeatherRecord<String>>) -> Seq<char> {
    csv_header() + csv_rows(rs)
}

fn append_row(out: &mut String, r: &WeatherRecord<String>)
    ensures
        final(out)@ == old(out)@ + csv_row(*r),
{
    let ghost start = out@;
    out.append(r.timestamp.as_str());
    out.append(",");
    out.append(r.city.as_str());
    out.append(",");
    out.append(r.state.as_str());
    out.append(",");
    out.append(r.date.as_str());
    out.append(",");
    out.append(r.latitude.as_str());
    out.append(",");
    out.append(r.longitude.as_str());
    out.append(",");
    out.append(r.timezone.as_str());
    out.append(",");
    out.append(r.source.as_str());
    out.append(",");
    out.append(r.temp_max_c.as_str());
    out.append(",");
    out.append(r.temp_min_c.as_str());
    out.append(",");
    out.append(r.precipitation_mm.as_str());
    out.append("\n");
    assert(out@ =~= start + csv_row(*r));
}

/// Renders the in-memory list as CSV text.
pub fn csv_text(rows: &Vec<WeatherRecord<String>>) -> (r: String)
    ensures
        r@ == csv_document(rows@),
{
    let mut out = String::from_str(
        "timestamp,city,state,date,latitude,longitude,timezone,source,temp_max_c,temp_min_c,precipitation_mm\n",
    );
    let mut i: usize = 0;
    while i < rows.len()
        invariant
            i <= rows@.len(),
            out@ == csv_header() + csv_rows(rows@.subrange(0, i as int)),
        decreases rows@.len() - i,
    {
        proof {
            assert(rows@.subrange(0, i as int + 1).drop_last() =~= rows@.subrange(0, i as int));
        }
        append_row(&mut out, &rows[i]);
        proof {
            assert(out@ =~= csv_header() + csv_rows(rows@.subrange(0, i as int + 1)));
        }
        i += 1;
    }
    assert(rows@.subrange(0, rows@.len() as int) =~= rows@);
    out
}

} // verus!
