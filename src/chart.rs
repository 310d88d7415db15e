//! The daily chart: the rollup kept in date order and the window of the
//! most recent days that the chart draws.
use vstd::prelude::*;
use vstd::seq_lib::{to_multiset_build, to_multiset_insert};
use crate::mood::{pairs_of, MoodBook, Pairs};
use crate::text::chars_of;

verus! {

/// `a` sorts no later than `b`, comparing characters from the left.
pub open spec fn text_le(a: Seq<char>, b: Seq<char>) -> bool
    decreases a.len(),
{
    if a.len() == 0 {
        true
    } else if b.len() == 0 {
        false
    } else if a[0] != b[0] {
        a[0] < b[0]
    } else {
        text_le(a.drop_first(), b.drop_first())
    }
}

pub proof fn lemma_text_le_total(a: Seq<char>, b: Seq<char>)
    ensures
        text_le(a, b) || text_le(b, a),
    decreases a.len(),
{
    if a.len() > 0 && b.len() > 0 && a[0] == b[0] {
        lemma_text_le_total(a.drop_first(), b.drop_first());
    }
}

/// Whether `a` sorts no later than `b`.
pub fn text_le_exec(a: &str, b: &str) -> (r: bool)
    ensures
        r == text_le(a@, b@),
{
    let x = chars_of(a);
    let y = chars_of(b);
    let mut i: usize = 0;
    proof {
        assert(x@.subrange(0, x@.len() as int) =~= x@);
        assert(y@.subrange(0, y@.len() as int) =~= y@);
    }
    while i < x.len() && i < y.len() && x[i] == y[i]
        invariant
            x@ == a@,
            y@ == b@,
            i <= x@.len(),
            i <= y@.len(),
            text_le(a@, b@) == text_le(x@.subrange(i as int, x@.len() as int), y@.subrange(
                i as int,
                y@.len() as int,
            )),
        decreases x@.len() - i,
    {
        proof {
            let xs = x@.subrange(i as int, x@.len() as int);
            let ys = y@.subrange(i as int, y@.len() as int);
            assert(xs.drop_first() =~= x@.subrange(i as int + 1, x@.len() as int));
            assert(ys.drop_first() =~= y@.subrange(i as int + 1, y@.len() as int));
        }
        i += 1;
    }
    proof {
        assert(x@.subrange(0, x@.len() as int) =~= x@);
        assert(y@.subrange(0, y@.len() as int) =~= y@);
    }
    if i == x.len() {
        true
    } else if i == y.len() {
        false
    } else {
        x[i] < y[i]
    }
}

/// Keys ascend: each pair's key sorts no later than the next one's.
pub open spec fn sorted_by_key(h: Pairs) -> bool {
    forall|i: int| 0 <= i < h.len() - 1 ==> text_le((#[trigger] h[i]).0, h[i + 1].0)
}

proof fn lemma_insert_sorted(s: Pairs, p: int, x: (Seq<char>, i32))
    requires
        sorted_by_key(s),
        0 <= p <= s.len(),
        p > 0 ==> text_le(s[p - 1].0, x.0),
        p < s.len() ==> text_le(x.0, s[p].0),
    ensures
        sorted_by_key(s.insert(p, x)),
{
    let t = s.insert(p, x);
    assert forall|i: int| 0 <= i < t.len() - 1 implies text_le((#[trigger] t[i]).0, t[i + 1].0) by {
        if i < p - 1 {
            assert(t[i] == s[i] && t[i + 1] == s[i + 1]);
        } else if i == p - 1 {
            assert(t[i] == s[i] && t[i + 1] == x);
        } else if i == p {
            assert(t[i] == x && t[i + 1] == s[p]);
        } else {
            assert(t[i] == s[i - 1] && t[i + 1] == s[i]);
        }
    }
}

impl MoodBook {
    /// Puts the rollup in ascending date order, keeping its pairs.
    pub fn sort_history(&mut self)
        ensures
            sorted_by_key(final(self).history_view()),
            final(self).history_view().to_multiset() == old(self).history_view().to_multiset(),
            final(self).entries_view() == old(self).entries_view(),
    {
        broadcast use {vstd::seq_lib::group_to_multiset_ensures, vstd::multiset::group_multiset_axioms};
        let ghost orig = self.history_view();
        let mut out: Vec<(String, i32)> = Vec::new();
        proof {
            assert(pairs_of(out@) =~= Seq::<(Seq<char>, i32)>::empty());
            assert(pairs_of(out@).to_multiset().add(self.history_view().to_multiset())
                =~= orig.to_multiset());
        }
        while self.history.len() > 0
            invariant
                sorted_by_key(pairs_of(out@)),
                pairs_of(out@).to_multiset().add(self.history_view().to_multiset())
                    == orig.to_multiset(),
                self.entries_view() == old(self).entries_view(),
            decreases self.history@.len(),
        {
            let ghost before = self.history_view();
            let x = self.history.pop().unwrap();
            proof {
                assert(before =~= self.history_view().push((x.0@, x.1)));
                to_multiset_build(self.history_view(), (x.0@, x.1));
            }
            let mut p: usize = 0;
            while p < out.len() && !text_le_exec(x.0.as_str(), out[p].0.as_str())
                invariant
                    p <= out@.len(),
                    forall|j: int| 0 <= j < p ==> !text_le(x.0@, (#[trigger] out@[j]).0@),
                decreases out@.len() - p,
            {
                p += 1;
            }
            let ghost so = pairs_of(out@);
            proof {
                if p > 0 {
                    assert(so[p - 1] == (out@[p - 1].0@, out@[p - 1].1));
                    lemma_text_le_total(x.0@, so[p - 1].0);
                }
                if p < out@.len() {
                    assert(so[p as int] == (out@[p as int].0@, out@[p as int].1));
                }
                lemma_insert_sorted(so, p as int, (x.0@, x.1));
                to_multiset_insert(so, p as int, (x.0@, x.1));
            }
            let ghost xv = (x.0@, x.1);
            out.insert(p, x);
            proof {
                assert(pairs_of(out@) =~= so.insert(p as int, xv));
                assert(pairs_of(out@).to_multiset().add(self.history_view().to_multiset())
                    =~= orig.to_multiset());
            }
        }
        proof {
            assert(self.history_view() =~= Seq::<(Seq<char>, i32)>::empty());
            assert(pairs_of(out@).to_multiset().add(Seq::<(Seq<char>, i32)>::empty().to_multiset())
                =~= pairs_of(out@).to_multiset());
        }
        self.history = out;
    }
}

/// Most days the chart shows.
pub const CHART_DAYS: usize = 14;

/// The days the chart draws: the last fourteen of the rollup, or all of it
/// when it is shorter.
pub open spec fn chart_days(h: Pairs) -> Pairs {
    if h.len() > 14 {
        h.subrange(h.len() - 14, h.len() as int)
    } else {
        h
    }
}

/// What the chart shows.
pub enum Chart {
    /// No data yet: a message in place of bars.
    Placeholder,
    /// One bar per day, oldest first.
    Bars(Vec<(String, i32)>),
}

/// The message shown in place of an empty chart.
pub fn placeholder_text() -> (r: &'static str)
    ensures
        r == "No data yet \u{2014} log a mood!",
{
    "No data yet \u{2014} log a mood!"
}

pub fn chart_window(h: &Vec<(String, i32)>) -> (r: Chart)
    ensures
        pairs_of(h@).len() == 0 <==> r is Placeholder,
        r matches Chart::Bars(b) ==> pairs_of(b@) == chart_days(pairs_of(h@)),
{
    let n = h.len();
    if n == 0 {
        return Chart::Placeholder;
    }
    let start: usize = if n > CHART_DAYS { n - CHART_DAYS } else { 0 };
    let mut bars: Vec<(String, i32)> = Vec::new();
    let mut i = start;
    while i < n
        invariant
            n == h@.len(),
            start <= i <= n,
            pairs_of(bars@) == pairs_of(h@).subrange(start as int, i as int),
        decreases n - i,
    {
        let ghost before = bars@;
        let item = (h[i].0.clone(), h[i].1);
        bars.push(item);
        proof {
            assert(bars@ == before.push(item));
            assert(pairs_of(bars@) =~= pairs_of(before).push((item.0@, item.1)));
            assert(pairs_of(h@)[i as int] == (h@[i as int].0@, h@[i as int].1));
            assert(pairs_of(bars@) =~= pairs_of(h@).subrange(start as int, i as int + 1));
        }
        i += 1;
    }
    proof {
        if n <= 14 {
            assert(pairs_of(h@).subrange(0, n as int) =~= pairs_of(h@));
        }
    }
    Chart::Bars(bars)
}

/// An empty rollup draws the placeholder; otherwise, once the rollup is in
/// date order, the chart draws exactly its last fourteen days (all of them
/// when fewer), in ascending date order.
pub proof fn lemma_chart_shows_last_days(h: Pairs)
    requires
        sorted_by_key(h),
    ensures
        h.len() > 14 ==> chart_days(h).len() == 14 && forall|k: int|
            0 <= k < 14 ==> #[trigger] chart_days(h)[k] == h[h.len() - 14 + k],
        h.len() <= 14 ==> chart_days(h) == h,
        sorted_by_key(chart_days(h)),
{
    let c = chart_days(h);
    if h.len() > 14 {
        assert forall|i: int| 0 <= i < c.len() - 1 implies text_le((#[trigger] c[i]).0, c[i + 1].0) by {
            assert(c[i] == h[h.len() - 14 + i]);
            assert(c[i + 1] == h[h.len() - 14 + i + 1]);
        }
    }
}

} // verus!
