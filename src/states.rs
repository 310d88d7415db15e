//! US state names: the two-letter postal codes and the normalisation of a
//! typed state into its full name.
use vstd::prelude::*;
use vstd::string::{StrSliceExecFns, StringExecFns};
use crate::text::{
    ascii_lower, ascii_upper, chars_of, is_white, is_white_char, push_char, to_ascii_lower,
    to_ascii_upper, trim_chars, trimmed,
};

verus! {

/// The state whose postal code is the two letters `a`, `b` (upper case).
pub open spec fn state_by_letters(a: char, b: char) -> Option<&'static str> {
    match (a, b) {
        ('A', 'L') => Some("Alabama"),
        ('A', 'K') => Some("Alaska"),
        ('A', 'Z') => Some("Arizona"),
        ('A', 'R') => Some("Arkansas"),
        ('C', 'A') => Some("California"),
        ('C', 'O') => Some("Colorado"),
        ('C', 'T') => Some("Connecticut"),
        ('D', 'E') => Some("Delaware"),
        ('F', 'L') => Some("Florida"),
        ('G', 'A') => Some("Georgia"),
        ('H', 'I') => Some("Hawaii"),
        ('I', 'D') => Some("Idaho"),
        ('I', 'L') => Some("Illinois"),
        ('I', 'N') => Some("Indiana"),
        ('I', 'A') => Some("Iowa"),
        ('K', 'S') => Some("Kansas"),
        ('K', 'Y') => Some("Kentucky"),
        ('L', 'A') => Some("Louisiana"),
        ('M', 'E') => Some("Maine"),
        ('M', 'D') => Some("Maryland"),
        ('M', 'A') => Some("Massachusetts"),
        ('M', 'I') => Some("Michigan"),
        ('M', 'N') => Some("Minnesota"),
        ('M', 'S') => Some("Mississippi"),
        ('M', 'O') => Some("Missouri"),
        ('M', 'T') => Some("Montana"),
        ('N', 'E') => Some("Nebraska"),
        ('N', 'V') => Some("Nevada"),
        ('N', 'H') => Some("New Hampshire"),
        ('N', 'J') => Some("New Jersey"),
        ('N', 'M') => Some("New Mexico"),
        ('N', 'Y') => Some("New York"),
        ('N', 'C') => Some("North Carolina"),
        ('N', 'D') => Some("North Dakota"),
        ('O', 'H') => Some("Ohio"),
        ('O', 'K') => Some("Oklahoma"),
        ('O', 'R') => Some("Oregon"),
        ('P', 'A') => Some("Pennsylvania"),
        ('R', 'I') => Some("Rhode Island"),
        ('S', 'C') => Some("South Carolina"),
        ('S', 'D') => Some("South Dakota"),
        ('T', 'N') => Some("Tennessee"),
        ('T', 'X') => Some("Texas"),
        ('U', 'T') => Some("Utah"),
        ('V', 'T') => Some("Vermont"),
        ('V', 'A') => Some("Virginia"),
        ('W', 'A') => Some("Washington"),
        ('W', 'V') => Some("West Virginia"),
        ('W', 'I') => Some("Wisconsin"),
        ('W', 'Y') => Some("Wyoming"),
        ('D', 'C') => Some("District of Columbia"),
        _ => None,
    }
}

/// The full name for a postal code, compared without regard to ASCII case.
pub open spec fn state_long_name(code: Seq<char>) -> Option<&'static str> {
    if code.len() == 2 {
        state_by_letters(ascii_upper(code[0]), ascii_upper(code[1]))
    } else {
        None
    }
}

fn letters_to_state(a: char, b: char) -> (r: Option<&'static str>)
    ensures
        r == state_by_letters(a, b),
{
    match (a, b) {
        ('A', 'L') => Some("Alabama"),
        ('A', 'K') => Some("Alaska"),
        ('A', 'Z') => Some("Arizona"),
        ('A', 'R') => Some("Arkansas"),
        ('C', 'A') => Some("California"),
        ('C', 'O') => Some("Colorado"),
        ('C', 'T') => Some("Connecticut"),
        ('D', 'E') => Some("Delaware"),
        ('F', 'L') => Some("Florida"),
        ('G', 'A') => Some("Georgia"),
        ('H', 'I') => Some("Hawaii"),
        ('I', 'D') => Some("Idaho"),
        ('I', 'L') => Some("Illinois"),
        ('I', 'N') => Some("Indiana"),
        ('I', 'A') => Some("Iowa"),
        ('K', 'S') => Some("Kansas"),
        ('K', 'Y') => Some("Kentucky"),
        ('L', 'A') => Some("Louisiana"),
        ('M', 'E') => Some("Maine"),
        ('M', 'D') => Some("Maryland"),
        ('M', 'A') => Some("Massachusetts"),
        ('M', 'I') => Some("Michigan"),
        ('M', 'N') => Some("Minnesota"),
        ('M', 'S') => Some("Mississippi"),
        ('M', 'O') => Some("Missouri"),
        ('M', 'T') => Some("Montana"),
        ('N', 'E') => Some("Nebraska"),
        ('N', 'V') => Some("Nevada"),
        ('N', 'H') => Some("New Hampshire"),
        ('N', 'J') => Some("New Jersey"),
        ('N', 'M') => Some("New Mexico"),
        ('N', 'Y') => Some("New York"),
        ('N', 'C') => Some("North Carolina"),
        ('N', 'D') => Some("North Dakota"),
        ('O', 'H') => Some("Ohio"),
        ('O', 'K') => Some("Oklahoma"),
        ('O', 'R') => Some("Oregon"),
        ('P', 'A') => Some("Pennsylvania"),
        ('R', 'I') => Some("Rhode Island"),
        ('S', 'C') => Some("South Carolina"),
        ('S', 'D') => Some("South Dakota"),
        ('T', 'N') => Some("Tennessee"),
        ('T', 'X') => Some("Texas"),
        ('U', 'T') => Some("Utah"),
        ('V', 'T') => Some("Vermont"),
        ('V', 'A') => Some("Virginia"),
        ('W', 'A') => Some("Washington"),
        ('W', 'V') => Some("West Virginia"),
        ('W', 'I') => Some("Wisconsin"),
        ('W', 'Y') => Some("Wyoming"),
        ('D', 'C') => Some("District of Columbia"),
        _ => None,
    }
}

/// Full name of the state with postal code `code` (any ASCII case), or
/// `None` when `code` is not one of the fifty states or DC.
pub fn us_state_long_name(code: &str) -> (r: Option<&'static str>)
    ensures
        r == state_long_name(code@),
{
    let cs = chars_of(code);
    if cs.len() != 2 {
        return None;
    }
    letters_to_state(to_ascii_upper(cs[0]), to_ascii_upper(cs[1]))
}

/// The white-space separated words of `s`, in order.
pub open spec fn words(s: Seq<char>) -> Seq<Seq<char>>
    decreases s.len(),
{
    if s.len() == 0 {
        Seq::empty()
    } else {
        let ws = words(s.drop_last());
        let c = s.last();
        if is_white(c) {
            ws
        } else if s.len() >= 2 && !is_white(s[s.len() - 2]) {
            ws.update(ws.len() - 1, ws.last().push(c))
        } else {
            ws.push(seq![c])
        }
    }
}

/// A word with its first character in ASCII upper case and the rest in
/// ASCII lower case.
pub open spec fn capitalized(w: Seq<char>) -> Seq<char> {
    if w.len() == 0 {
        w
    } else {
        seq![ascii_upper(w[0])] + w.drop_first().map_values(|c: char| ascii_lower(c))
    }
}

/// Words joined by single spaces.
pub open spec fn joined(ws: Seq<Seq<char>>) -> Seq<char>
    decreases ws.len(),
{
    if ws.len() == 0 {
        Seq::empty()
    } else if ws.len() == 1 {
        ws[0]
    } else {
        joined(ws.drop_last()) + seq![' '] + ws.last()
    }
}

/// The words of `s`, each capitalised, joined by single spaces.
pub open spec fn title_case(s: Seq<char>) -> Seq<char> {
    joined(words(s).map_values(|w: Seq<char>| capitalized(w)))
}

/// What a typed state stands for: the full name of a postal code, else the
/// typed text title-cased.
pub open spec fn resolved_state(input: Seq<char>) -> Seq<char> {
    match state_long_name(trimmed(input)) {
        Some(name) => name@,
        None => title_case(trimmed(input)),
    }
}

proof fn lemma_words(s: Seq<char>)
    ensures
        forall|k: int| 0 <= k < words(s).len() ==> (#[trigger] words(s)[k]).len() > 0,
        (s.len() > 0 && !is_white(s.last())) ==> words(s).len() > 0,
    decreases s.len(),
{
    if s.len() > 0 {
        let p = s.drop_last();
        lemma_words(p);
        if s.len() >= 2 && !is_white(s[s.len() - 2]) {
            assert(p.last() == s[s.len() - 2]);
        }
    }
}

proof fn lemma_joined_extend_last(xs: Seq<Seq<char>>, d: char)
    requires
        xs.len() > 0,
    ensures
        joined(xs.update(xs.len() - 1, xs.last().push(d))) == joined(xs).push(d),
{
    let ys = xs.update(xs.len() - 1, xs.last().push(d));
    if xs.len() > 1 {
        assert(ys.drop_last() =~= xs.drop_last());
    }
}

proof fn lemma_joined_nonempty(xs: Seq<Seq<char>>)
    ensures
        xs.len() == 0 ==> joined(xs).len() == 0,
        xs.len() > 0 && xs.last().len() > 0 ==> joined(xs).len() > 0,
{
}

/// Title-cases `s`: words split at white space, joined by one space, first
/// letter of each upper-cased and the rest lower-cased (ASCII only).
pub fn title_case_text(s: &Vec<char>) -> (r: String)
    ensures
        r@ == title_case(s@),
{
    let mut out = String::new();
    let mut in_word = false;
    let mut i: usize = 0;
    proof {
        assert(words(s@.subrange(0, 0)) =~= Seq::<Seq<char>>::empty());
        assert(words(s@.subrange(0, 0)).map_values(|w: Seq<char>| capitalized(w))
            =~= Seq::<Seq<char>>::empty());
    }
    while i < s.len()
        invariant
            i <= s@.len(),
            out@ == title_case(s@.subrange(0, i as int)),
            in_word == (i > 0 && !is_white(s@[i - 1])),
        decreases s@.len() - i,
    {
        let c = s[i];
        let ghost p = s@.subrange(0, i as int);
        let ghost q = s@.subrange(0, i as int + 1);
        let ghost ws = words(p);
        let ghost caps = ws.map_values(|w: Seq<char>| capitalized(w));
        proof {
            assert(q.drop_last() =~= p);
            assert(q.last() == c);
            lemma_words(p);
            if i > 0 {
                assert(p.last() == s@[i - 1]);
                assert(q[q.len() - 2] == s@[i - 1]);
            }
        }
        if is_white_char(c) {
            in_word = false;
        } else if in_word {
            proof {
                let w = ws.last();
                assert(w == ws[ws.len() - 1]);
                assert(capitalized(w.push(c)) =~= capitalized(w).push(ascii_lower(c)));
                assert(words(q).map_values(|w: Seq<char>| capitalized(w)) =~= caps.update(
                    caps.len() - 1,
                    caps.last().push(ascii_lower(c)),
                ));
                lemma_joined_extend_last(caps, ascii_lower(c));
            }
            push_char(&mut out, to_ascii_lower(c));
        } else {
            proof {
                assert(words(q) == ws.push(seq![c]));
                assert(capitalized(seq![c]) =~= seq![ascii_upper(c)]);
                assert(words(q).map_values(|w: Seq<char>| capitalized(w)) =~= caps.push(
                    seq![ascii_upper(c)],
                ));
                let nc = caps.push(seq![ascii_upper(c)]);
                assert(nc.drop_last() =~= caps);
                if caps.len() > 0 {
                    assert(caps.last() == capitalized(ws[ws.len() - 1]));
                    assert(ws[ws.len() - 1].len() > 0);
                }
                lemma_joined_nonempty(caps);
            }
            if out.as_str().unicode_len() > 0 {
                push_char(&mut out, ' ');
            }
            push_char(&mut out, to_ascii_upper(c));
            in_word = true;
            proof {
                assert(out@ =~= title_case(q));
            }
        }
        i += 1;
    }
    proof {
        assert(s@.subrange(0, s@.len() as int) =~= s@);
    }
    out
}

/// Normalises a typed state: a postal code becomes the state's full name,
/// anything else is title-cased; surrounding white space is ignored.
pub fn resolve_state_name(input: &str) -> (r: String)
    ensures
        r@ == resolved_state(input@),
{
    let t = trim_chars(input);
    let mut code = String::new();
    if t.len() == 2 {
        push_char(&mut code, t[0]);
        push_char(&mut code, t[1]);
        proof {
            assert(code@ =~= t@);
        }
        if let Some(name) = us_state_long_name(code.as_str()) {
            return String::from_str(name);
        }
    }
    proof {
        if t@.len() != 2 {
            assert(state_long_name(t@) is None);
        }
    }
    title_case_text(&t)
}

} // verus!
