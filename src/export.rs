//! Laying out the session log on PDF pages, and the status line each
//! export attempt ends with.
use vstd::prelude::*;
use vstd::string::StringExecFns;
use crate::mood::{entry_line, session_line, MoodBook, Pairs};
use crate::text::{chars_of, string_of_range};

verus! {

/// Height of the title line's baseline above the page bottom, in mm.
pub const TITLE_Y_MM: u32 = 282;

/// Height of the rule under the title, in mm.
pub const RULE_Y_MM: u32 = 272;

/// Where the first body line of the first page goes, in mm.
pub const BODY_START_MM: u32 = 266;

/// Where the first line of every further page goes, in mm.
pub const PAGE_TOP_MM: u32 = 282;

/// Vertical distance between two body lines, in mm.
pub const LINE_HEIGHT_MM: u32 = 6;

/// A line is moved to a new page once the cursor is at or below this, in mm.
pub const PAGE_BREAK_MM: u32 = 26;

/// Characters per body line before it is cut: the usable width (180 mm)
/// over 2.5 mm per character.
pub const MAX_LINE_CHARS: usize = 72;

/// `s` cut into pieces of `n` characters, the last one shorter; a line that
/// fits (the empty one too) stays whole.
pub open spec fn chunks(s: Seq<char>, n: nat) -> Seq<Seq<char>>
    decreases s.len(),
{
    if s.len() <= n || n == 0 {
        seq![s]
    } else {
        seq![s.subrange(0, n as int)] + chunks(s.subrange(n as int, s.len() as int), n)
    }
}

pub open spec fn views(v: Seq<String>) -> Seq<Seq<char>> {
    v.map_values(|l: String| l@)
}

/// Cuts `line` into pieces of at most `max` characters.
pub fn wrap_chars(line: &str, max: usize) -> (r: Vec<String>)
    requires
        max > 0,
    ensures
        views(r@) == chunks(line@, max as nat),
{
    let cs = chars_of(line);
    let n = cs.len();
    let mut out: Vec<String> = Vec::new();
    if n <= max {
        out.push(string_of_range(&cs, 0, n));
        proof {
            assert(cs@.subrange(0, n as int) =~= cs@);
            assert(views(out@) =~= seq![line@]);
        }
        return out;
    }
    let mut start: usize = 0;
    proof {
        assert(cs@.subrange(0, n as int) =~= cs@);
        assert(views(out@) + chunks(cs@.subrange(0, n as int), max as nat) =~= chunks(line@, max as nat));
    }
    while start < n
        invariant
            cs@ == line@,
            n == cs@.len(),
            max > 0,
            start <= n,
            start < n ==> views(out@) + chunks(cs@.subrange(start as int, n as int), max as nat)
                == chunks(line@, max as nat),
            start == n ==> views(out@) == chunks(line@, max as nat),
        decreases n - start,
    {
        let rest = Ghost(cs@.subrange(start as int, n as int));
        let end = if n - start > max { start + max } else { n };
        let piece = string_of_range(&cs, start, end);
        let ghost before = out@;
        out.push(piece);
        proof {
            assert(views(out@) =~= views(before).push(piece@));
            if n - start > max {
                assert(rest@.subrange(0, max as int) =~= piece@);
                assert(rest@.subrange(max as int, rest@.len() as int) =~= cs@.subrange(
                    end as int,
                    n as int,
                ));
                assert(views(before) + chunks(rest@, max as nat) =~= views(out@) + chunks(
                    cs@.subrange(end as int, n as int),
                    max as nat,
                ));
            } else {
                assert(rest@ =~= piece@);
                assert(views(before) + chunks(rest@, max as nat) =~= views(out@));
            }
        }
        start = end;
    }
    out
}

/// The body lines of the PDF: each pick's line, cut to the line width.
pub open spec fn body_lines(es: Pairs) -> Seq<Seq<char>>
    decreases es.len(),
{
    if es.len() == 0 {
        Seq::empty()
    } else {
        body_lines(es.drop_last()) + chunks(session_line(es.last()), 72)
    }
}

/// Placing lines top-down: the placed lines as (starts a new page, height
/// in mm, text), then the cursor height. A line that would sit at or below
/// the break height goes to the top of a new page.
pub open spec fn layout_scan(ls: Seq<Seq<char>>) -> (Seq<(bool, int, Seq<char>)>, int)
    decreases ls.len(),
{
    if ls.len() == 0 {
        (Seq::empty(), 266)
    } else {
        let (placed, y) = layout_scan(ls.drop_last());
        let fresh = y <= 26;
        let y2 = if fresh { 282 } else { y };
        (placed.push((fresh, y2, ls.last())), y2 - 6)
    }
}

/// One body line of the PDF: whether it opens a new page, its height in mm
/// above the page bottom, and its text.
pub struct PlacedLine {
    pub new_page: bool,
    pub y_mm: u32,
    pub text: String,
}

pub open spec fn placed_views(v: Seq<PlacedLine>) -> Seq<(bool, int, Seq<char>)> {
    v.map_values(|p: PlacedLine| (p.new_page, p.y_mm as int, p.text@))
}

proof fn lemma_scan_bounds(ls: Seq<Seq<char>>)
    ensures
        20 < layout_scan(ls).1 <= 276,
    decreases ls.len(),
{
    if ls.len() > 0 {
        lemma_scan_bounds(ls.drop_last());
    }
}

impl MoodBook {
    /// Lays the log out on PDF pages below the title and rule of the first
    /// page: one line per pick, cut to the line width, top-down.
    pub fn pdf_layout(&self) -> (r: Vec<PlacedLine>)
        ensures
            placed_views(r@) == layout_scan(body_lines(self.entries_view())).0,
    {
        let mut out: Vec<PlacedLine> = Vec::new();
        let mut y: u32 = BODY_START_MM;
        let mut i: usize = 0;
        proof {
            assert(self.entries_view().subrange(0, 0) =~= Seq::<(Seq<char>, i32)>::empty());
            assert(placed_views(out@) =~= Seq::<(bool, int, Seq<char>)>::empty());
        }
        while i < self.entries.len()
            invariant
                i <= self.entries@.len(),
                layout_scan(body_lines(self.entries_view().subrange(0, i as int))) == (
                    placed_views(out@),
                    y as int,
                ),
            decreases self.entries@.len() - i,
        {
            let ghost done = body_lines(self.entries_view().subrange(0, i as int));
            proof {
                assert(self.entries_view()[i as int] == (
                    self.entries@[i as int].0@,
                    self.entries@[i as int].1,
                ));
                assert(self.entries_view().subrange(0, i as int + 1).drop_last()
                    =~= self.entries_view().subrange(0, i as int));
            }
            let line = entry_line(&self.entries[i].0, self.entries[i].1);
            let pieces = wrap_chars(line.as_str(), MAX_LINE_CHARS);
            let mut k: usize = 0;
            proof {
                assert(done + views(pieces@).subrange(0, 0) =~= done);
            }
            while k < pieces.len()
                invariant
                    k <= pieces@.len(),
                    layout_scan(done + views(pieces@).subrange(0, k as int)) == (
                        placed_views(out@),
                        y as int,
                    ),
                decreases pieces@.len() - k,
            {
                let ghost ls = done + views(pieces@).subrange(0, k as int + 1);
                proof {
                    assert(ls.drop_last() =~= done + views(pieces@).subrange(0, k as int));
                    assert(ls.last() == pieces@[k as int]@);
                    lemma_scan_bounds(ls.drop_last());
                }
                let fresh = y <= PAGE_BREAK_MM;
                if fresh {
                    y = PAGE_TOP_MM;
                }
                let ghost before = out@;
                let text = pieces[k].clone();
                out.push(PlacedLine { new_page: fresh, y_mm: y, text });
                proof {
                    assert(placed_views(out@) =~= placed_views(before).push(
                        (fresh, y as int, ls.last()),
                    ));
                }
                y = y - LINE_HEIGHT_MM;
                k += 1;
            }
            proof {
                assert(views(pieces@).subrange(0, pieces@.len() as int) =~= views(pieces@));
            }
            i += 1;
        }
        proof {
            assert(self.entries_view().subrange(0, self.entries@.len() as int)
                =~= self.entries_view());
        }
        out
    }
}

/// How an export attempt ended.
pub enum ExportOutcome {
    /// The log holds no picks.
    NoEntries,
    /// The font dialog was closed without a choice.
    NoFont,
    /// The save dialog was closed without a choice.
    Cancelled,
    /// The chosen font file could not be opened; the reason.
    FontUnreadable(String),
    /// The font file could not be loaded as a font; the reason.
    FontInvalid(String),
    /// Writing the PDF failed; the reason.
    PdfWriteFailed(String),
    /// Writing the text file failed; the reason.
    TextWriteFailed(String),
    /// The file was written at this path.
    Saved(String),
}

pub open spec fn export_status_text(o: ExportOutcome) -> Seq<char> {
    match o {
        ExportOutcome::NoEntries => "No entries to save yet."@,
        ExportOutcome::NoFont => "PDF export cancelled (no font selected)."@,
        ExportOutcome::Cancelled => "PDF export cancelled."@,
        ExportOutcome::FontUnreadable(e) => "Failed to open font: "@ + e@,
        ExportOutcome::FontInvalid(e) => "Failed to load font: "@ + e@,
        ExportOutcome::PdfWriteFailed(e) => "Failed to save PDF: "@ + e@,
        ExportOutcome::TextWriteFailed(e) => "Failed to save TXT: "@ + e@,
        ExportOutcome::Saved(p) => "Saved: "@ + p@,
    }
}

/// The status line shown after an export attempt; each way of failing has
/// its own.
pub fn export_status(o: ExportOutcome) -> (r: String)
    ensures
        r@ == export_status_text(o),
{
    match o {
        ExportOutcome::NoEntries => String::from_str("No entries to save yet."),
        ExportOutcome::NoFont => String::from_str("PDF export cancelled (no font selected)."),
        ExportOutcome::Cancelled => String::from_str("PDF export cancelled."),
        ExportOutcome::FontUnreadable(e) => String::from_str("Failed to open font: ").concat(e.as_str()),
        ExportOutcome::FontInvalid(e) => String::from_str("Failed to load font: ").concat(e.as_str()),
        ExportOutcome::PdfWriteFailed(e) => String::from_str("Failed to save PDF: ").concat(e.as_str()),
        ExportOutcome::TextWriteFailed(e) => String::from_str("Failed to save TXT: ").concat(e.as_str()),
        ExportOutcome::Saved(p) => String::from_str("Saved: ").concat(p.as_str()),
    }
}

} // verus!
