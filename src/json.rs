//! Picking a value out of a JSON document by a dot-separated path.
use vstd::prelude::*;
use crate::clock::{apply_substring, substring_of};
use crate::text::{chars_of, string_of};
use crate::variables::Substring;

verus! {

/// The kind of value that a JSON text holds.
#[derive(Clone, Copy, PartialEq, Eq, Structural, Debug)]
pub enum JsonKind {
    /// Not JSON at all.
    Invalid,
    Array,
    Object,
    /// A JSON string.
    Text,
    /// A number, a boolean or null.
    Other,
}

/// The kind of value that `doc` parses to.
pub uninterp spec fn json_kind_of(doc: Seq<char>) -> JsonKind;

/// The compact text of element `index` of the array that `doc` parses to.
pub uninterp spec fn json_element_of(doc: Seq<char>, index: int) -> Option<Seq<char>>;

/// The compact text of member `key` of the object that `doc` parses to.
pub uninterp spec fn json_member_of(doc: Seq<char>, key: Seq<char>) -> Option<Seq<char>>;

pub open spec fn text_view(r: Option<String>) -> Option<Seq<char>> {
    match r {
        Some(s) => Some(s@),
        None => None,
    }
}

/// Relies on `serde_json::from_str` into a `Value`, and on its variants.
#[verifier::external_body]
fn json_kind(doc: &str) -> (r: JsonKind)
    ensures
        r == json_kind_of(doc@),
{
    match serde_json::from_str::<serde_json::Value>(doc) {
        Err(_) => JsonKind::Invalid,
        Ok(serde_json::Value::Array(_)) => JsonKind::Array,
        Ok(serde_json::Value::Object(_)) => JsonKind::Object,
        Ok(serde_json::Value::String(_)) => JsonKind::Text,
        Ok(_) => JsonKind::Other,
    }
}

/// Relies on `serde_json::from_str`, `Value::get` with an index, and the
/// compact `Display` of a `Value`.
#[verifier::external_body]
fn json_element(doc: &str, index: usize) -> (r: Option<String>)
    ensures
        text_view(r) == json_element_of(doc@, index as int),
{
    let v = serde_json::from_str::<serde_json::Value>(doc).ok()?;
    match v.get(index) {
        Some(e) => Some(e.to_string()),
        None => None,
    }
}

/// Relies on `serde_json::from_str`, `Value::get` with a key, and the compact
/// `Display` of a `Value`.
#[verifier::external_body]
fn json_member(doc: &str, key: &str) -> (r: Option<String>)
    ensures
        text_view(r) == json_member_of(doc@, key@),
{
    let v = serde_json::from_str::<serde_json::Value>(doc).ok()?;
    match v.get(key) {
        Some(e) => Some(e.to_string()),
        None => None,
    }
}

/// The segments of `cur` followed by `rest`, split at each `.`.
pub open spec fn split_from(cur: Seq<char>, rest: Seq<char>) -> Seq<Seq<char>>
    decreases rest.len(),
{
    if rest.len() == 0 {
        seq![cur]
    } else if rest[0] == '.' {
        seq![cur] + split_from(Seq::empty(), rest.drop_first())
    } else {
        split_from(cur.push(rest[0]), rest.drop_first())
    }
}

/// The dot-separated segments of a path; an empty path is one empty segment.
pub open spec fn split_path(path: Seq<char>) -> Seq<Seq<char>> {
    split_from(Seq::empty(), path)
}

pub open spec fn is_digit_char(c: char) -> bool {
    '0' <= c <= '9'
}

pub open spec fn digits_value(s: Seq<char>) -> int
    decreases s.len(),
{
    if s.len() == 0 {
        0
    } else {
        digits_value(s.drop_last()) * 10 + (s.last() as int - '0' as int)
    }
}

/// The digits of an unsigned number: the text without one leading `+`.
pub open spec fn unsigned_body(s: Seq<char>) -> Seq<char> {
    if s.len() > 0 && s[0] == '+' {
        s.drop_first()
    } else {
        s
    }
}

/// An unsigned decimal number as Rust's integer parsing reads it: an optional
/// `+`, then one or more ASCII digits, whose value fits a `usize`.
pub open spec fn parse_index(s: Seq<char>) -> Option<int> {
    parse_digits(unsigned_body(s))
}

/// One or more ASCII digits whose value fits a `usize`.
pub open spec fn parse_digits(s: Seq<char>) -> Option<int> {
    if s.len() > 0 && (forall|i: int| 0 <= i < s.len() ==> is_digit_char(#[trigger] s[i]))
        && digits_value(s) <= usize::MAX {
        Some(digits_value(s))
    } else {
        None
    }
}

/// One step down: an index into an array, or a key into anything else.
pub open spec fn json_step(doc: Seq<char>, seg: Seq<char>) -> Option<Seq<char>> {
    if json_kind_of(doc) == JsonKind::Array {
        match parse_index(seg) {
            Some(i) => json_element_of(doc, i),
            None => None,
        }
    } else {
        json_member_of(doc, seg)
    }
}

pub open spec fn json_walk(doc: Seq<char>, segs: Seq<Seq<char>>) -> Option<Seq<char>>
    decreases segs.len(),
{
    if segs.len() == 0 {
        Some(doc)
    } else {
        match json_step(doc, segs[0]) {
            Some(d) => json_walk(d, segs.drop_first()),
            None => None,
        }
    }
}

/// The text of the value at `path` in `body`, quotes stripped from a string;
/// empty where the body is no JSON or a segment is missing.
pub open spec fn json_value_text(body: Seq<char>, path: Seq<char>) -> Seq<char> {
    if json_kind_of(body) == JsonKind::Invalid {
        Seq::empty()
    } else {
        match json_walk(body, split_path(path)) {
            None => Seq::empty(),
            Some(t) => if json_kind_of(t) == JsonKind::Text && t.len() >= 2 {
                t.subrange(1, t.len() - 1)
            } else {
                t
            },
        }
    }
}

proof fn lemma_digits_grow(s: Seq<char>, j: int)
    requires
        0 <= j <= s.len(),
        forall|i: int| 0 <= i < s.len() ==> is_digit_char(#[trigger] s[i]),
    ensures
        digits_value(s.subrange(0, j)) <= digits_value(s),
        digits_value(s.subrange(0, j)) >= 0,
    decreases s.len() - j,
{
    if j < s.len() {
        lemma_digits_grow(s, j + 1);
        assert(s.subrange(0, j + 1).drop_last() =~= s.subrange(0, j));
        lemma_digits_nonneg(s.subrange(0, j));
    } else {
        assert(s.subrange(0, j) =~= s);
        lemma_digits_nonneg(s);
    }
}

proof fn lemma_digits_nonneg(s: Seq<char>)
    requires
        forall|i: int| 0 <= i < s.len() ==> is_digit_char(#[trigger] s[i]),
    ensures
        digits_value(s) >= 0,
    decreases s.len(),
{
    if s.len() > 0 {
        lemma_digits_nonneg(s.drop_last());
    }
}

/// Reads an unsigned decimal number (see `parse_index`).
pub fn parse_index_exec(s: &Vec<char>) -> (r: Option<usize>)
    ensures
        match r {
            Some(v) => parse_index(s@) == Some(v as int),
            None => parse_index(s@) is None,
        },
{
    if s.len() > 0 && s[0] == '+' {
        let mut tail: Vec<char> = Vec::new();
        let mut i: usize = 1;
        while i < s.len()
            invariant
                1 <= i <= s@.len(),
                tail@ == s@.subrange(1, i as int),
            decreases s@.len() - i,
        {
            tail.push(s[i]);
            i = i + 1;
            assert(tail@ =~= s@.subrange(1, i as int));
        }
        assert(tail@ =~= s@.drop_first());
        parse_digits_exec(&tail)
    } else {
        parse_digits_exec(s)
    }
}

fn parse_digits_exec(s: &Vec<char>) -> (r: Option<usize>)
    ensures
        match r {
            Some(v) => parse_digits(s@) == Some(v as int),
            None => parse_digits(s@) is None,
        },
{
    if s.len() == 0 {
        return None;
    }
    let mut v: usize = 0;
    let mut i: usize = 0;
    while i < s.len()
        invariant
            i <= s@.len(),
            forall|k: int| 0 <= k < i ==> is_digit_char(#[trigger] s@[k]),
            v as int == digits_value(s@.subrange(0, i as int)),
        decreases s@.len() - i,
    {
        let c = s[i];
        if !('0' <= c && c <= '9') {
            return None;
        }
        let d = (c as u32 - '0' as u32) as usize;
        assert(s@.subrange(0, i as int + 1).drop_last() =~= s@.subrange(0, i as int));
        if v > (usize::MAX - d) / 10 {
            proof {
                assert forall|k: int| 0 <= k < i + 1 implies is_digit_char(#[trigger] s@.subrange(0, i as int + 1)[k]) by {}
                let t = s@.subrange(0, i as int + 1);
                assert(digits_value(t) == v * 10 + d);
                assert(digits_value(t) > usize::MAX) by (nonlinear_arith)
                    requires v > (usize::MAX - d) / 10, d <= 9, digits_value(t) == v * 10 + d;
            }
            let mut j: usize = i + 1;
            while j < s.len()
                invariant
                    i < j <= s@.len(),
                    forall|k: int| 0 <= k < j ==> is_digit_char(#[trigger] s@[k]),
                    digits_value(s@.subrange(0, i as int + 1)) > usize::MAX,
                decreases s@.len() - j,
            {
                let c2 = s[j];
                if !('0' <= c2 && c2 <= '9') {
                    return None;
                }
                j = j + 1;
            }
            proof {
                lemma_digits_grow(s@, i as int + 1);
            }
            return None;
        }
        v = v * 10 + d;
        i = i + 1;
    }
    assert(s@.subrange(0, s@.len() as int) =~= s@);
    Some(v)
}

/// Splits a path at each `.`.
pub fn split_path_exec(path: &str) -> (r: Vec<Vec<char>>)
    ensures
        r@.len() == split_path(path@).len(),
        forall|i: int| 0 <= i < r@.len() ==> #[trigger] r@[i]@ == split_path(path@)[i],
{
    let cs = chars_of(path);
    let mut done: Vec<Vec<char>> = Vec::new();
    let mut cur: Vec<char> = Vec::new();
    let ghost views: Seq<Seq<char>> = Seq::empty();
    let mut i: usize = 0;
    assert(cs@.subrange(0, cs@.len() as int) =~= cs@);
    assert(cur@ =~= Seq::<char>::empty());
    assert(views + split_path(path@) =~= split_path(path@));
    while i < cs.len()
        invariant
            i <= cs@.len(),
            cs@ == path@,
            done@.len() == views.len(),
            forall|k: int| 0 <= k < done@.len() ==> #[trigger] done@[k]@ == views[k],
            views + split_from(cur@, cs@.subrange(i as int, cs@.len() as int)) == split_path(path@),
        decreases cs@.len() - i,
    {
        let c = cs[i];
        let ghost rest = cs@.subrange(i as int, cs@.len() as int);
        assert(rest.drop_first() =~= cs@.subrange(i as int + 1, cs@.len() as int));
        if c == '.' {
            proof {
                views = views.push(cur@);
                assert(seq![cur@] + split_from(Seq::empty(), rest.drop_first()) == split_from(cur@, rest));
                assert(views.drop_last() + (seq![cur@] + split_from(Seq::empty(), rest.drop_first()))
                    =~= views + split_from(Seq::empty(), rest.drop_first()));
            }
            done.push(cur);
            cur = Vec::new();
            assert(cur@ =~= Seq::<char>::empty());
        } else {
            cur.push(c);
        }
        i = i + 1;
    }
    proof {
        assert(cs@.subrange(i as int, cs@.len() as int).len() == 0);
        views = views.push(cur@);
    }
    done.push(cur);
    done
}

/// The text of the value at `path` in the JSON document `body`; a JSON string
/// loses its quotes; empty where the body is no JSON or the path does not lead
/// to a value.
pub fn extract_json_value(body: &str, path: &str) -> (r: String)
    ensures
        r@ == json_value_text(body@, path@),
{
    if json_kind(body) == JsonKind::Invalid {
        return String::new();
    }
    let segs = split_path_exec(path);
    let ghost all = split_path(path@);
    assert(segs@.len() == all.len());
    let mut doc = body.to_owned();
    let mut i: usize = 0;
    assert(all.subrange(0, all.len() as int) =~= all);
    while i < segs.len()
        invariant
            i <= segs@.len(),
            segs@.len() == all.len(),
            all == split_path(path@),
            forall|k: int| 0 <= k < segs@.len() ==> #[trigger] segs@[k]@ == all[k],
            json_kind_of(body@) != JsonKind::Invalid,
            json_walk(body@, all) == json_walk(doc@, all.subrange(i as int, all.len() as int)),
        decreases segs@.len() - i,
    {
        let ghost rest = all.subrange(i as int, all.len() as int);
        assert(rest.drop_first() =~= all.subrange(i as int + 1, all.len() as int));
        assert(rest[0] == segs@[i as int]@);
        let seg = &segs[i];
        let next = if json_kind(doc.as_str()) == JsonKind::Array {
            match parse_index_exec(seg) {
                Some(idx) => json_element(doc.as_str(), idx),
                None => None,
            }
        } else {
            let key = string_of(seg);
            json_member(doc.as_str(), key.as_str())
        };
        match next {
            Some(d) => {
                doc = d;
            },
            None => {
                return String::new();
            },
        }
        i = i + 1;
    }
    assert(all.subrange(i as int, all.len() as int).len() == 0);
    if json_kind(doc.as_str()) == JsonKind::Text && doc.unicode_len() >= 2 {
        let n = doc.unicode_len();
        doc.as_str().substring_char(1, n - 1).to_owned()
    } else {
        doc
    }
}

/// The value at `path` in `body`, then cut by the substring rule.
pub open spec fn json_variable_text(body: Seq<char>, path: Seq<char>, sub: Substring) -> Seq<char> {
    substring_of(json_value_text(body, path), sub)
}

/// The value at `path` in `body`, cut by a substring rule.
pub fn extract_json_variable(body: &str, path: &str, sub: Substring) -> (r: String)
    ensures
        r@ == json_variable_text(body@, path@, sub),
{
    let v = extract_json_value(body, path);
    apply_substring(v.as_str(), sub)
}

} // verus!
