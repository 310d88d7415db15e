//! Choosing one place among the candidates a geocoding search returns, and
//! the search request itself.
use vstd::prelude::*;
use vstd::string::StringExecFns;
use vstd::utf8::encode_utf8;
use crate::states::{resolve_state_name, resolved_state};
use crate::text::{ascii_lower, chars_of, to_ascii_lower, trim_chars, trimmed, push_char};

verus! {

/// What `str::to_lowercase` makes of a text (full Unicode lower-casing).
pub uninterp spec fn lower_of(s: Seq<char>) -> Seq<char>;

/// What `str::to_uppercase` makes of a text (full Unicode upper-casing).
pub uninterp spec fn upper_of(s: Seq<char>) -> Seq<char>;

/// A byte that URL encoding leaves as it is: an ASCII letter or digit, or
/// one of `-`, `.`, `_`, `~`.
pub open spec fn url_safe(b: u8) -> bool {
    (48 <= b <= 57) || (65 <= b <= 90) || (97 <= b <= 122) || b == 45 || b == 46 || b == 95
        || b == 126
}

/// Upper-case hexadecimal digit of a value below sixteen.
pub open spec fn hex_digit(d: u8) -> char {
    if d < 10 {
        (48 + d) as char
    } else {
        (55 + d) as char
    }
}

/// Bytes percent-encoded one by one: a safe byte stays, any other becomes
/// `%` and two upper-case hexadecimal digits.
pub open spec fn percent_bytes(bs: Seq<u8>) -> Seq<char>
    decreases bs.len(),
{
    if bs.len() == 0 {
        Seq::empty()
    } else {
        let b = bs[0];
        let head = if url_safe(b) {
            seq![b as char]
        } else {
            seq!['%', hex_digit(b / 16), hex_digit(b % 16)]
        };
        head + percent_bytes(bs.drop_first())
    }
}

/// URL encoding of a text: its UTF-8 bytes percent-encoded.
pub open spec fn url_encoded(s: Seq<char>) -> Seq<char> {
    percent_bytes(encode_utf8(s))
}

/// Relies on `str::to_lowercase`: the result depends on the text alone.
#[verifier::external_body]
fn lowercase(s: &str) -> (r: String)
    ensures
        r@ == lower_of(s@),
{
    s.to_lowercase()
}

/// Relies on `str::to_uppercase`: the result depends on the text alone.
#[verifier::external_body]
fn uppercase(s: &str) -> (r: String)
    ensures
        r@ == upper_of(s@),
{
    s.to_uppercase()
}

/// Relies on `urlencoding::encode`: keeps safe bytes and writes every other
/// UTF-8 byte as `%` and two upper-case hexadecimal digits.
#[verifier::external_body]
pub(crate) fn url_encode(s: &str) -> (r: String)
    ensures
        r@ == url_encoded(s@),
{
    urlencoding::encode(s).into_owned()
}

/// One place offered by the geocoding service: its first-level
/// administrative region (a US state) and its country code.
pub struct GeoCandidate {
    pub admin1: Option<String>,
    pub country_code: String,
}

/// `a` and `b` are equal when ASCII letters are compared without case.
pub open spec fn eq_ignore_ascii(a: Seq<char>, b: Seq<char>) -> bool {
    a.len() == b.len() && forall|k: int| 0 <= k < a.len() ==> ascii_lower(a[k]) == ascii_lower(b[k])
}

/// `needle` occurs in `hay` as a contiguous run.
pub open spec fn contains_text(hay: Seq<char>, needle: Seq<char>) -> bool {
    exists|i: int| 0 <= i && i + needle.len() <= hay.len() && #[trigger] hay.subrange(i, i + needle.len()) == needle
}

pub open spec fn is_us(c: GeoCandidate) -> bool {
    upper_of(c.country_code@) == seq!['U', 'S']
}

/// The candidate lies in the US and its region names the state: equal to it
/// up to ASCII case, or containing it once both are lower-cased.
pub open spec fn fits_state(c: GeoCandidate, state: Seq<char>) -> bool {
    is_us(c) && match c.admin1 {
        Some(a) => eq_ignore_ascii(a@, state) || contains_text(lower_of(a@), lower_of(state)),
        None => false,
    }
}

/// The candidate to pick: the first that fits the state, else the first in
/// the US, else none.
pub open spec fn chosen_index(cs: Seq<GeoCandidate>, state: Seq<char>) -> Option<int> {
    if exists|i: int| 0 <= i < cs.len() && fits_state(#[trigger] cs[i], state) {
        Some(choose|i: int| 0 <= i < cs.len() && fits_state(cs[i], state)
            && forall|j: int| 0 <= j < i ==> !fits_state(#[trigger] cs[j], state))
    } else if exists|i: int| 0 <= i < cs.len() && is_us(#[trigger] cs[i]) {
        Some(choose|i: int| 0 <= i < cs.len() && is_us(cs[i])
            && forall|j: int| 0 <= j < i ==> !is_us(#[trigger] cs[j]))
    } else {
        None
    }
}

fn eq_ignore_ascii_case(a: &str, b: &str) -> (r: bool)
    ensures
        r == eq_ignore_ascii(a@, b@),
{
    let x = chars_of(a);
    let y = chars_of(b);
    if x.len() != y.len() {
        return false;
    }
    let mut i: usize = 0;
    while i < x.len()
        invariant
            x@ == a@,
            y@ == b@,
            x@.len() == y@.len(),
            i <= x@.len(),
            forall|k: int| 0 <= k < i ==> ascii_lower(x@[k]) == ascii_lower(y@[k]),
        decreases x@.len() - i,
    {
        if to_ascii_lower(x[i]) != to_ascii_lower(y[i]) {
            return false;
        }
        i += 1;
    }
    true
}

/// Whether `needle` occurs in `hay`.
pub fn contains_str(hay: &str, needle: &str) -> (r: bool)
    ensures
        r == contains_text(hay@, needle@),
{
    let h = chars_of(hay);
    let n = chars_of(needle);
    if n.len() > h.len() {
        return false;
    }
    let mut i: usize = 0;
    while i <= h.len() - n.len()
        invariant
            h@ == hay@,
            n@ == needle@,
            n@.len() <= h@.len(),
            i <= h@.len() - n@.len() + 1,
            forall|p: int| 0 <= p < i ==> #[trigger] h@.subrange(p, p + n@.len()) != n@,
        decreases h@.len() - n@.len() + 1 - i,
    {
        let mut k: usize = 0;
        let mut same = true;
        while k < n.len()
            invariant
                h@ == hay@,
                n@ == needle@,
                i + n@.len() <= h@.len(),
                h@.len() == h.len(),
                k <= n@.len(),
                same == forall|q: int| 0 <= q < k ==> h@[i + q] == n@[q],
            decreases n@.len() - k,
        {
            if h[i + k] != n[k] {
                same = false;
            }
            k += 1;
        }
        if same {
            assert(h@.subrange(i as int, i + n@.len()) =~= n@);
            return true;
        }
        proof {
            let q = choose|q: int| 0 <= q < n@.len() && h@[i + q] != n@[q];
            assert(h@.subrange(i as int, i + n@.len())[q] != n@[q]);
        }
        i += 1;
    }
    false
}

fn is_us_code(code: &String) -> (r: bool)
    ensures
        r == (upper_of(code@) == seq!['U', 'S']),
{
    let u = uppercase(code.as_str());
    let c = chars_of(u.as_str());
    let r = c.len() == 2 && c[0] == 'U' && c[1] == 'S';
    proof {
        if r {
            assert(c@ =~= seq!['U', 'S']);
        }
    }
    r
}

fn fits(c: &GeoCandidate, state: &str, state_lower: &String) -> (r: bool)
    requires
        state_lower@ == lower_of(state@),
    ensures
        r == fits_state(*c, state@),
{
    if !is_us_code(&c.country_code) {
        return false;
    }
    match &c.admin1 {
        Some(a) => {
            if eq_ignore_ascii_case(a.as_str(), state) {
                true
            } else {
                let al = lowercase(a.as_str());
                contains_str(al.as_str(), state_lower.as_str())
            }
        },
        None => false,
    }
}

/// Picks the candidate for a normalised state name: the first US candidate
/// whose region equals or contains the state, else the first US candidate.
pub fn select_candidate(cands: &Vec<GeoCandidate>, state_norm: &str) -> (r: Option<usize>)
    ensures
        match r {
            Some(i) => chosen_index(cands@, state_norm@) == Some(i as int),
            None => chosen_index(cands@, state_norm@) is None,
        },
{
    let sl = lowercase(state_norm);
    let mut i: usize = 0;
    while i < cands.len()
        invariant
            sl@ == lower_of(state_norm@),
            i <= cands@.len(),
            forall|j: int| 0 <= j < i ==> !fits_state(#[trigger] cands@[j], state_norm@),
        decreases cands@.len() - i,
    {
        if fits(&cands[i], state_norm, &sl) {
            proof {
                assert(0 <= i < cands@.len() && fits_state(cands@[i as int], state_norm@));
            }
            return Some(i);
        }
        i += 1;
    }
    let mut k: usize = 0;
    while k < cands.len()
        invariant
            k <= cands@.len(),
            forall|j: int| 0 <= j < cands@.len() ==> !fits_state(#[trigger] cands@[j], state_norm@),
            forall|j: int| 0 <= j < k ==> !is_us(#[trigger] cands@[j]),
        decreases cands@.len() - k,
    {
        if is_us_code(&cands[k].country_code) {
            proof {
                assert(is_us(cands@[k as int]));
            }
            return Some(k);
        }
        k += 1;
    }
    None
}

/// Address of the geocoding search for `city`: up to ten US matches, in
/// English, as JSON.
pub open spec fn geocode_url_text(city: Seq<char>) -> Seq<char> {
    "https://geocoding-api.open-meteo.com/v1/search?name="@ + url_encoded(trimmed(city))
        + "&count=10&language=en&format=json&country=US"@
}

pub fn geocode_url(city: &str) -> (r: String)
    ensures
        r@ == geocode_url_text(city@),
{
    let t = trim_chars(city);
    let mut tc = String::new();
    let mut i: usize = 0;
    while i < t.len()
        invariant
            i <= t@.len(),
            tc@ == t@.subrange(0, i as int),
        decreases t@.len() - i,
    {
        push_char(&mut tc, t[i]);
        i += 1;
    }
    assert(tc@ =~= t@);
    let mut r = String::from_str("https://geocoding-api.open-meteo.com/v1/search?name=");
    let enc = url_encode(tc.as_str());
    r.append(enc.as_str());
    r.append("&count=10&language=en&format=json&country=US");
    r
}

/// `'city, state'` quoted, as the geocoding errors name the request.
pub open spec fn quoted_place(city: Seq<char>, state: Seq<char>) -> Seq<char> {
    "'"@ + city + ", "@ + state + "'"@
}

pub open spec fn no_results_text(city: Seq<char>, state: Seq<char>) -> Seq<char> {
    "No geocoding results for "@ + quoted_place(city, state)
}

pub open spec fn no_us_match_text(city: Seq<char>, state: Seq<char>) -> Seq<char> {
    "No US match for "@ + quoted_place(city, state)
}

fn place_message(prefix: &str, city: &str, state: &str) -> (r: String)
    ensures
        r@ == prefix@ + quoted_place(city@, state@),
{
    let mut r = String::from_str(prefix);
    r.append("'");
    r.append(city);
    r.append(", ");
    r.append(state);
    r.append("'");
    assert(r@ =~= prefix@ + quoted_place(city@, state@));
    r
}

/// Settles a geocoding answer for `city`, `state`: the index of the chosen
/// candidate, or the message that says why none was chosen.
pub fn choose_place(results: &Option<Vec<GeoCandidate>>, city: &str, state: &str) -> (r: Result<
    usize,
    String,
>)
    ensures
        match results {
            None => r is Err && r->Err_0@ == no_results_text(city@, state@),
            Some(cs) => match chosen_index(cs@, resolved_state(state@)) {
                Some(i) => r == Ok::<usize, String>(i as usize),
                None => r is Err && r->Err_0@ == no_us_match_text(city@, state@),
            },
        },
{
    match results {
        None => Err(place_message("No geocoding results for ", city, state)),
        Some(cs) => {
            let norm = resolve_state_name(state);
            match select_candidate(cs, norm.as_str()) {
                Some(i) => Ok(i),
                None => Err(place_message("No US match for ", city, state)),
            }
        },
    }
}

} // verus!
