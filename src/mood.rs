//! The mood journal: five mood levels, a full log of picks, one rollup per
//! calendar day, the prompt timer and the plain-text session export.
use vstd::prelude::*;
use vstd::string::StringExecFns;
use crate::text::{chars_of, string_of_range};

verus! {

/// Display name of a mood level; anything outside 1..=4 reads as the
/// lowest level.
pub open spec fn mood_name_spec(m: i32) -> &'static str {
    if m == 4 {
        "Happy"
    } else if m == 3 {
        "Good"
    } else if m == 2 {
        "Okay"
    } else if m == 1 {
        "Sad"
    } else {
        "Angry"
    }
}

pub fn mood_name(m: i32) -> (r: &'static str)
    ensures
        r == mood_name_spec(m),
{
    match m {
        4 => "Happy",
        3 => "Good",
        2 => "Okay",
        1 => "Sad",
        _ => "Angry",
    }
}

/// Bar colour (red, green, blue) of a mood level.
pub open spec fn mood_color_spec(m: i32) -> (u8, u8, u8) {
    if m == 4 {
        (90, 220, 120)
    } else if m == 3 {
        (160, 220, 120)
    } else if m == 2 {
        (220, 220, 120)
    } else if m == 1 {
        (230, 170, 120)
    } else {
        (230, 120, 120)
    }
}

pub fn mood_color(m: i32) -> (r: (u8, u8, u8))
    ensures
        r == mood_color_spec(m),
{
    match m {
        4 => (90, 220, 120),
        3 => (160, 220, 120),
        2 => (220, 220, 120),
        1 => (230, 170, 120),
        _ => (230, 120, 120),
    }
}

/// A log of `(key, mood)` pairs as plain values.
pub type Pairs = Seq<(Seq<char>, i32)>;

pub open spec fn pairs_of(v: Seq<(String, i32)>) -> Pairs {
    v.map_values(|p: (String, i32)| (p.0@, p.1))
}

/// Position of the first pair keyed `d`, or -1.
pub open spec fn index_of(h: Pairs, d: Seq<char>) -> int
    decreases h.len(),
{
    if h.len() == 0 {
        -1
    } else {
        let k = index_of(h.drop_last(), d);
        if k >= 0 {
            k
        } else if h.last().0 == d {
            h.len() - 1
        } else {
            -1
        }
    }
}

pub proof fn lemma_index_of(h: Pairs, d: Seq<char>)
    ensures
        index_of(h, d) == -1 <==> forall|j: int| 0 <= j < h.len() ==> (#[trigger] h[j]).0 != d,
        index_of(h, d) >= 0 ==> {
            &&& index_of(h, d) < h.len()
            &&& h[index_of(h, d)].0 == d
            &&& forall|j: int| 0 <= j < index_of(h, d) ==> (#[trigger] h[j]).0 != d
        },
        index_of(h, d) >= -1,
    decreases h.len(),
{
    if h.len() > 0 {
        let p = h.drop_last();
        lemma_index_of(p, d);
        assert forall|j: int| 0 <= j < p.len() implies h[j] == #[trigger] p[j] by {}
        if index_of(p, d) >= 0 {
            assert(h[index_of(p, d)] == p[index_of(p, d)]);
            assert forall|j: int| 0 <= j < index_of(h, d) implies (#[trigger] h[j]).0 != d by {
                assert(h[j] == p[j]);
            }
        }
        if index_of(p, d) == -1 && h.last().0 == d {
            assert(h[h.len() - 1] == h.last());
            assert forall|j: int| 0 <= j < h.len() - 1 implies (#[trigger] h[j]).0 != d by {
                assert(h[j] == p[j]);
            }
        }
        if index_of(p, d) == -1 && h.last().0 != d {
            assert forall|j: int| 0 <= j < h.len() implies (#[trigger] h[j]).0 != d by {
                if j < p.len() {
                    assert(h[j] == p[j]);
                }
            }
        }
    }
}

/// A characterisation of the first index, used to recognise it.
pub proof fn lemma_index_is(h: Pairs, d: Seq<char>, i: int)
    requires
        0 <= i < h.len(),
        h[i].0 == d,
        forall|j: int| 0 <= j < i ==> (#[trigger] h[j]).0 != d,
    ensures
        index_of(h, d) == i,
{
    lemma_index_of(h, d);
    if index_of(h, d) == -1 {
        assert(h[i].0 != d);
    }
}

/// The rollup after setting day `d` to mood `v`: the day's pair is
/// overwritten in place, or a new pair is appended.
pub open spec fn upsert(h: Pairs, d: Seq<char>, v: i32) -> Pairs {
    let i = index_of(h, d);
    if i >= 0 {
        h.update(i, (d, v))
    } else {
        h.push((d, v))
    }
}

/// The mood the rollup holds for day `d`.
pub open spec fn day_value(h: Pairs, d: Seq<char>) -> Option<i32> {
    let i = index_of(h, d);
    if i >= 0 {
        Some(h[i].1)
    } else {
        None
    }
}

/// Every key occurs at most once.
pub open spec fn keys_unique(h: Pairs) -> bool {
    forall|i: int, j: int| 0 <= i < j < h.len() ==> (#[trigger] h[i]).0 != (#[trigger] h[j]).0
}

/// After an upsert the day holds the new value, the length grows only for
/// a new day, and other days keep their values.
pub proof fn lemma_upsert(h: Pairs, d: Seq<char>, v: i32)
    ensures
        day_value(upsert(h, d, v), d) == Some(v),
        upsert(h, d, v).len() == h.len() + (if index_of(h, d) >= 0 { 0int } else { 1int }),
        keys_unique(h) ==> keys_unique(upsert(h, d, v)),
{
    lemma_index_of(h, d);
    let i = index_of(h, d);
    let u = upsert(h, d, v);
    if i >= 0 {
        assert forall|j: int| 0 <= j < i implies (#[trigger] u[j]).0 != d by {
            assert(u[j] == h[j]);
        }
        lemma_index_is(u, d, i);
        if keys_unique(h) {
            assert forall|a: int, b: int| 0 <= a < b < u.len() implies (#[trigger] u[a]).0 != (
            #[trigger] u[b]).0 by {
                if a == i {
                    assert(h[b].0 != h[i].0);
                } else if b == i {
                    assert(h[a].0 != h[i].0);
                } else {
                    assert(u[a] == h[a] && u[b] == h[b]);
                }
            }
        }
    } else {
        assert forall|j: int| 0 <= j < h.len() implies (#[trigger] u[j]).0 != d by {
            assert(u[j] == h[j]);
        }
        lemma_index_is(u, d, h.len() as int);
        if keys_unique(h) {
            assert forall|a: int, b: int| 0 <= a < b < u.len() implies (#[trigger] u[a]).0 != (
            #[trigger] u[b]).0 by {
                if b == h.len() {
                    assert(u[a] == h[a]);
                } else {
                    assert(u[a] == h[a] && u[b] == h[b]);
                }
            }
        }
    }
}

/// The journal: one rollup pair per calendar day and the full log of picks.
pub struct MoodBook {
    /// Per-day summary: (`YYYY-MM-DD`, mood 0..=4).
    pub history: Vec<(String, i32)>,
    /// Every pick: (timestamp, mood 0..=4).
    pub entries: Vec<(String, i32)>,
}

impl MoodBook {
    pub open spec fn history_view(&self) -> Pairs {
        pairs_of(self.history@)
    }

    pub open spec fn entries_view(&self) -> Pairs {
        pairs_of(self.entries@)
    }

    pub fn new() -> (r: MoodBook)
        ensures
            r.history_view() == Seq::<(Seq<char>, i32)>::empty(),
            r.entries_view() == Seq::<(Seq<char>, i32)>::empty(),
    {
        let r = MoodBook { history: Vec::new(), entries: Vec::new() };
        assert(r.history_view() =~= Seq::<(Seq<char>, i32)>::empty());
        assert(r.entries_view() =~= Seq::<(Seq<char>, i32)>::empty());
        r
    }

    /// Records mood `mood` picked at `stamp` on day `day`: the pick is
    /// appended to the log and the day's rollup set to `mood`.
    pub fn set_today(&mut self, mood: i32, stamp: String, day: String)
        ensures
            final(self).entries_view() == old(self).entries_view().push((stamp@, mood)),
            final(self).history_view() == upsert(old(self).history_view(), day@, mood),
    {
        let ghost h0 = self.history_view();
        let ghost e0 = self.entries_view();
        let ghost sv = stamp@;
        self.entries.push((stamp, mood));
        assert(self.entries_view() =~= e0.push((sv, mood)));
        proof {
            lemma_index_of(h0, day@);
        }
        let mut i: usize = 0;
        let mut found = false;
        while i < self.history.len() && !found
            invariant
                self.history_view() == h0,
                i <= self.history@.len(),
                found ==> i < self.history@.len() && h0[i as int].0 == day@,
                forall|j: int| 0 <= j < i ==> (#[trigger] h0[j]).0 != day@,
            decreases self.history@.len() - i + (if found { 0int } else { 1int }),
        {
            if self.history[i].0 == day {
                found = true;
            } else {
                i += 1;
            }
        }
        let ghost dv = day@;
        if found {
            proof {
                lemma_index_is(h0, dv, i as int);
            }
            self.history[i] = (day, mood);
            assert(self.history_view() =~= upsert(h0, dv, mood));
        } else {
            proof {
                lemma_index_of(h0, dv);
            }
            self.history.push((day, mood));
            assert(self.history_view() =~= upsert(h0, dv, mood));
        }
    }

    /// Records a pick made now: stamped with the local time and rolled up
    /// under the date part of that stamp. Whatever the clock reads, the log
    /// grows by one pick of `mood` and the rollup is set for its day.
    pub fn record_now(&mut self, mood: i32)
        ensures
            exists|stamp: Seq<char>| {
                &&& final(self).entries_view() == old(self).entries_view().push((stamp, mood))
                &&& final(self).history_view() == upsert(
                    old(self).history_view(),
                    stamp_day(stamp),
                    mood,
                )
                &&& stamp_day(stamp).len() < stamp.len()
                &&& stamp[stamp_day(stamp).len() as int] == ' '
            },
    {
        let stamp = local_stamp();
        proof {
            lemma_stamp_day_shape(stamp@);
        }
        let day = day_of_stamp(&stamp);
        self.set_today(mood, stamp, day);
    }
}

/// Two picks on the same day: after recording `v1` then `v2` for `day`,
/// the day's rollup holds `v2`, the rollup gained no second pair for the
/// day, and the log ends with both picks in order.
pub proof fn lemma_same_day_twice(
    h0: Pairs,
    e0: Pairs,
    h1: Pairs,
    e1: Pairs,
    h2: Pairs,
    e2: Pairs,
    day: Seq<char>,
    stamp1: Seq<char>,
    v1: i32,
    stamp2: Seq<char>,
    v2: i32,
)
    requires
        e1 == e0.push((stamp1, v1)),
        h1 == upsert(h0, day, v1),
        e2 == e1.push((stamp2, v2)),
        h2 == upsert(h1, day, v2),
    ensures
        day_value(h2, day) == Some(v2),
        h2.len() == h1.len(),
        e2.len() == e0.len() + 2,
        e2.subrange(0, e0.len() as int) == e0,
        e2[e0.len() as int] == (stamp1, v1),
        e2[e0.len() as int + 1] == (stamp2, v2),
{
    lemma_upsert(h0, day, v1);
    lemma_upsert(h1, day, v2);
    lemma_index_of(h1, day);
    assert(e2.subrange(0, e0.len() as int) =~= e0);
}

/// Relies on `chrono::Local::now` and `DateTime::format`: the local time as
/// `YYYY-MM-DD HH:MM:SS`. What it reads depends on the clock; whatever it
/// reads, the format's literal space separates date and time.
#[verifier::external_body]
fn local_stamp() -> (r: String)
    ensures
        exists|i: int| 0 <= i < r@.len() && r@[i] == ' ',
{
    chrono::Local::now().format("%Y-%m-%d %H:%M:%S").to_string()
}

/// The date part of a `date time` stamp: everything before the first space.
pub open spec fn stamp_day(s: Seq<char>) -> Seq<char>
    decreases s.len(),
{
    if s.len() == 0 || s[0] == ' ' {
        Seq::empty()
    } else {
        seq![s[0]] + stamp_day(s.drop_first())
    }
}

/// The date part is the stamp's prefix up to its first space; when the stamp
/// holds a space, that space follows the date part.
pub proof fn lemma_stamp_day_shape(s: Seq<char>)
    ensures
        stamp_day(s).len() <= s.len(),
        stamp_day(s) == s.subrange(0, stamp_day(s).len() as int),
        forall|k: int| 0 <= k < stamp_day(s).len() ==> stamp_day(s)[k] != ' ',
        (exists|i: int| 0 <= i < s.len() && s[i] == ' ') ==> stamp_day(s).len() < s.len()
            && s[stamp_day(s).len() as int] == ' ',
    decreases s.len(),
{
    if s.len() > 0 && s[0] != ' ' {
        let t = s.drop_first();
        lemma_stamp_day_shape(t);
        let d = stamp_day(s);
        assert(d =~= seq![s[0]] + stamp_day(t));
        assert(d =~= s.subrange(0, d.len() as int));
        assert forall|k: int| 0 <= k < d.len() implies d[k] != ' ' by {
            if k > 0 {
                assert(d[k] == stamp_day(t)[k - 1]);
            }
        }
        if exists|i: int| 0 <= i < s.len() && s[i] == ' ' {
            let i = choose|i: int| 0 <= i < s.len() && s[i] == ' ';
            assert(t[i - 1] == ' ');
            assert(s[d.len() as int] == t[stamp_day(t).len() as int]);
        }
    } else {
        assert(s.subrange(0, 0) =~= Seq::<char>::empty());
    }
}

proof fn lemma_stamp_day_prefix(s: Seq<char>, i: int)
    requires
        0 <= i <= s.len(),
        forall|k: int| 0 <= k < i ==> s[k] != ' ',
    ensures
        stamp_day(s) == s.subrange(0, i) + stamp_day(s.subrange(i, s.len() as int)),
    decreases i,
{
    if i > 0 {
        let t = s.drop_first();
        lemma_stamp_day_prefix(t, i - 1);
        assert(t.subrange(i - 1, t.len() as int) =~= s.subrange(i, s.len() as int));
        assert(seq![s[0]] + t.subrange(0, i - 1) =~= s.subrange(0, i));
    } else {
        assert(s.subrange(0, s.len() as int) =~= s);
        assert(Seq::<char>::empty() + s =~= s);
    }
}

/// The date part of a stamp.
pub fn day_of_stamp(stamp: &String) -> (r: String)
    ensures
        r@ == stamp_day(stamp@),
{
    let cs = chars_of(stamp.as_str());
    let mut i: usize = 0;
    while i < cs.len() && cs[i] != ' '
        invariant
            cs@ == stamp@,
            i <= cs@.len(),
            forall|k: int| 0 <= k < i ==> cs@[k] != ' ',
        decreases cs@.len() - i,
    {
        i += 1;
    }
    proof {
        lemma_stamp_day_prefix(stamp@, i as int);
        let rest = stamp@.subrange(i as int, stamp@.len() as int);
        assert(rest.len() == 0 || rest[0] == ' ');
        assert(stamp_day(stamp@) =~= stamp@.subrange(0, i as int));
    }
    string_of_range(&cs, 0, i)
}

/// Time between two quick mood prompts, in milliseconds.
pub const PROMPT_PERIOD_MS: u64 = 5000;

/// The cooperative prompt timer: checked on every redraw; when due it fires
/// once and is rescheduled from the time of the check.
pub struct PromptClock {
    pub next_due_ms: u64,
}

impl PromptClock {
    /// A timer first due one period after `now_ms`.
    pub fn new(now_ms: u64) -> (r: PromptClock)
        ensures
            r.next_due_ms == if now_ms as int + 5000 <= u64::MAX { now_ms + 5000 } else { u64::MAX as int },
    {
        PromptClock { next_due_ms: now_ms.saturating_add(PROMPT_PERIOD_MS) }
    }

    /// Whether the prompt shows at `now_ms`; when it does, the next one is
    /// due one period later (ticks missed meanwhile collapse into this one).
    pub fn tick(&mut self, now_ms: u64) -> (fire: bool)
        ensures
            fire == (now_ms >= old(self).next_due_ms),
            fire ==> final(self).next_due_ms == if now_ms as int + 5000 <= u64::MAX {
                now_ms + 5000
            } else {
                u64::MAX as int
            },
            !fire ==> final(self).next_due_ms == old(self).next_due_ms,
    {
        if now_ms >= self.next_due_ms {
            self.next_due_ms = now_ms.saturating_add(PROMPT_PERIOD_MS);
            true
        } else {
            false
        }
    }
}

pub open spec fn session_header() -> Seq<char> {
    "Mood Tracker \u{2014} Session Log\n----------------------------------------\n"@
}

/// One line of the session export: `timestamp — mood name`.
pub open spec fn session_line(e: (Seq<char>, i32)) -> Seq<char> {
    e.0 + " \u{2014} "@ + mood_name_spec(e.1)@
}

pub open spec fn session_body(es: Pairs) -> Seq<char>
    decreases es.len(),
{
    if es.len() == 0 {
        Seq::empty()
    } else {
        session_body(es.drop_last()) + session_line(es.last()) + "\n"@
    }
}

/// The session export: a title, a rule, and one line per pick in order.
pub open spec fn session_text(es: Pairs) -> Seq<char> {
    session_header() + session_body(es)
}

/// The line of a pick, as both exports write it.
pub fn entry_line(stamp: &String, m: i32) -> (r: String)
    ensures
        r@ == session_line((stamp@, m)),
{
    let mut s = stamp.clone();
    s.append(" \u{2014} ");
    s.append(mood_name(m));
    s
}

impl MoodBook {
    /// Plain-text rendering of the whole log.
    pub fn build_session_text(&self) -> (r: String)
        ensures
            r@ == session_text(self.entries_view()),
    {
        let mut s = String::from_str(
            "Mood Tracker \u{2014} Session Log\n----------------------------------------\n",
        );
        let mut i: usize = 0;
        while i < self.entries.len()
            invariant
                i <= self.entries@.len(),
                s@ == session_header() + session_body(self.entries_view().subrange(0, i as int)),
            decreases self.entries@.len() - i,
        {
            proof {
                assert(self.entries_view().subrange(0, i as int + 1).drop_last()
                    =~= self.entries_view().subrange(0, i as int));
                assert(self.entries_view().subrange(0, i as int + 1).last()
                    == self.entries_view()[i as int]);
            }
            let line = entry_line(&self.entries[i].0, self.entries[i].1);
            s.append(line.as_str());
            s.append("\n");
            proof {
                assert(s@ =~= session_header() + session_body(
                    self.entries_view().subrange(0, i as int + 1),
                ));
            }
            i += 1;
        }
        assert(self.entries_view().subrange(0, self.entries@.len() as int) =~= self.entries_view());
        s
    }
}

/// The journal window's state: the journal, whether it needs saving,
/// whether the quick prompt is open, its timer, and the last status line.
pub struct MoodSession {
    pub book: MoodBook,
    pub dirty: bool,
    pub show_prompt: bool,
    pub clock: PromptClock,
    pub last_status: Option<String>,
}

impl MoodSession {
    /// A session over a loaded journal, prompt closed, first prompt one
    /// period after `now_ms`.
    pub fn new(book: MoodBook, now_ms: u64) -> (r: MoodSession)
        ensures
            r.book == book,
            !r.dirty,
            !r.show_prompt,
            r.clock.next_due_ms == if now_ms as int + 5000 <= u64::MAX { now_ms + 5000 } else { u64::MAX as int },
            r.last_status is None,
    {
        MoodSession {
            book,
            dirty: false,
            show_prompt: false,
            clock: PromptClock::new(now_ms),
            last_status: None,
        }
    }

    /// A mood was picked at `stamp` on `day`: it is recorded, the journal
    /// needs saving, and the prompt closes.
    pub fn pick_at(&mut self, mood: i32, stamp: String, day: String)
        ensures
            final(self).book.entries_view() == old(self).book.entries_view().push((stamp@, mood)),
            final(self).book.history_view() == upsert(old(self).book.history_view(), day@, mood),
            final(self).dirty,
            !final(self).show_prompt,
            final(self).clock == old(self).clock,
    {
        self.book.set_today(mood, stamp, day);
        self.dirty = true;
        self.show_prompt = false;
    }

    /// A mood was picked now (local clock).
    pub fn pick(&mut self, mood: i32)
        ensures
            exists|stamp: Seq<char>| {
                &&& final(self).book.entries_view() == old(self).book.entries_view().push(
                    (stamp, mood),
                )
                &&& final(self).book.history_view() == upsert(
                    old(self).book.history_view(),
                    stamp_day(stamp),
                    mood,
                )
                &&& stamp_day(stamp).len() < stamp.len()
                &&& stamp[stamp_day(stamp).len() as int] == ' '
            },
            final(self).dirty,
            !final(self).show_prompt,
            final(self).clock == old(self).clock,
            final(self).last_status == old(self).last_status,
    {
        self.book.record_now(mood);
        self.dirty = true;
        self.show_prompt = false;
    }

    /// A redraw at `now_ms`: the prompt opens when the timer fires.
    pub fn on_frame(&mut self, now_ms: u64)
        ensures
            final(self).show_prompt == (old(self).show_prompt || now_ms >= old(self).clock.next_due_ms),
            now_ms >= old(self).clock.next_due_ms ==> final(self).clock.next_due_ms == (
            if now_ms as int + 5000 <= u64::MAX {
                now_ms + 5000
            } else {
                u64::MAX as int
            }),
            now_ms < old(self).clock.next_due_ms ==> final(self).clock == old(self).clock,
            final(self).book == old(self).book,
            final(self).dirty == old(self).dirty,
            final(self).last_status == old(self).last_status,
    {
        if self.clock.tick(now_ms) {
            self.show_prompt = true;
        }
    }

    /// Whether the journal must be written now; it counts as saved after.
    pub fn take_dirty(&mut self) -> (r: bool)
        ensures
            r == old(self).dirty,
            !final(self).dirty,
            final(self).book == old(self).book,
    {
        let r = self.dirty;
        self.dirty = false;
        r
    }
}

} // verus!
