//! Template substitution: each `__name__` token is replaced by the value of the
//! variable `name`, in one left-to-right pass that never rescans inserted text.
use vstd::prelude::*;
use crate::text::{chars_of, string_of};
use crate::variables::BoardVariable;

verus! {

/// The token that stands for variable `name`.
pub open spec fn token(name: Seq<char>) -> Seq<char> {
    seq!['_', '_'] + name + seq!['_', '_']
}

pub open spec fn starts_with_at(t: Seq<char>, i: int, p: Seq<char>) -> bool {
    i + p.len() <= t.len() && t.subrange(i, i + p.len()) == p
}

/// The first variable, from `k` on, whose token starts `t` at `i`.
pub open spec fn first_match(t: Seq<char>, i: int, names: Seq<Seq<char>>, k: int) -> Option<int>
    decreases names.len() - k,
{
    if k < 0 || k >= names.len() {
        None
    } else if starts_with_at(t, i, token(names[k])) {
        Some(k)
    } else {
        first_match(t, i, names, k + 1)
    }
}

/// The text from position `i` of `t` with every token replaced, scanning left
/// to right; where tokens of two variables start at one place the one listed
/// first wins.
pub open spec fn substitute_from(t: Seq<char>, i: int, names: Seq<Seq<char>>, values: Seq<Seq<char>>) -> Seq<char>
    decreases t.len() - i,
{
    if i < 0 || i >= t.len() {
        Seq::empty()
    } else {
        match first_match(t, i, names, 0) {
            Some(k) => {
                let n = token(names[k]).len();
                if n > 0 && i + n <= t.len() {
                    values[k] + substitute_from(t, i + n, names, values)
                } else {
                    seq![t[i]] + substitute_from(t, i + 1, names, values)
                }
            },
            None => seq![t[i]] + substitute_from(t, i + 1, names, values),
        }
    }
}

pub open spec fn substitute(t: Seq<char>, names: Seq<Seq<char>>, values: Seq<Seq<char>>) -> Seq<char> {
    substitute_from(t, 0, names, values)
}

/// Whether the token of `name` occurs anywhere in `t`.
pub open spec fn mentions(t: Seq<char>, name: Seq<char>) -> bool {
    exists|i: int| 0 <= i && #[trigger] starts_with_at(t, i, token(name))
}

proof fn lemma_first_match(t: Seq<char>, i: int, names: Seq<Seq<char>>, k: int)
    requires
        0 <= k,
    ensures
        first_match(t, i, names, k) matches Some(h) ==> k <= h < names.len() && starts_with_at(
            t,
            i,
            token(names[h]),
        ),
    decreases names.len() - k,
{
    if k < names.len() && !starts_with_at(t, i, token(names[k])) {
        lemma_first_match(t, i, names, k + 1);
    }
}

fn token_of(name: &str) -> (r: Vec<char>)
    ensures
        r@ == token(name@),
{
    let cs = chars_of(name);
    let mut v: Vec<char> = Vec::new();
    v.push('_');
    v.push('_');
    let mut i: usize = 0;
    while i < cs.len()
        invariant
            i <= cs@.len(),
            v@ == seq!['_', '_'] + cs@.subrange(0, i as int),
        decreases cs@.len() - i,
    {
        v.push(cs[i]);
        i = i + 1;
        assert(v@ =~= seq!['_', '_'] + cs@.subrange(0, i as int));
    }
    v.push('_');
    v.push('_');
    assert(cs@.subrange(0, cs@.len() as int) =~= cs@);
    assert(v@ =~= token(name@));
    v
}

fn starts_at(t: &Vec<char>, i: usize, p: &Vec<char>) -> (r: bool)
    ensures
        r == starts_with_at(t@, i as int, p@),
{
    if i > t.len() || p.len() > t.len() - i {
        return false;
    }
    let end = i + p.len();
    let mut k: usize = 0;
    while k < p.len()
        invariant
            k <= p@.len(),
            i + p@.len() == end,
            end <= t@.len(),
            forall|m: int| 0 <= m < k ==> t@[i + m] == p@[m],
        decreases p@.len() - k,
    {
        if t[i + k] != p[k] {
            assert(t@.subrange(i as int, i + p@.len())[k as int] != p@[k as int]);
            return false;
        }
        k = k + 1;
    }
    assert(t@.subrange(i as int, i + p@.len()) =~= p@);
    true
}

/// Whether the token of `name` occurs in `template`.
pub fn template_mentions(template: &str, name: &str) -> (r: bool)
    ensures
        r == mentions(template@, name@),
{
    let t = chars_of(template);
    let tok = token_of(name);
    let mut i: usize = 0;
    while i < t.len()
        invariant
            i <= t@.len(),
            t@ == template@,
            tok@ == token(name@),
            forall|j: int| 0 <= j < i ==> !#[trigger] starts_with_at(t@, j, tok@),
        decreases t@.len() - i,
    {
        if starts_at(&t, i, &tok) {
            return true;
        }
        i = i + 1;
    }
    assert forall|j: int| 0 <= j implies !#[trigger] starts_with_at(t@, j, tok@) by {
        if j >= i {
            assert(tok@.len() >= 4);
        }
    }
    false
}

/// Replaces each token `__names[k]__` in `template` by `values[k]`, in one
/// left-to-right pass; inserted values are not scanned again.
pub fn substitute_variables(template: &str, names: &Vec<String>, values: &Vec<String>) -> (r: String)
    requires
        names@.len() == values@.len(),
    ensures
        r@ == substitute(
            template@,
            Seq::new(names@.len(), |k: int| names@[k]@),
            Seq::new(values@.len(), |k: int| values@[k]@),
        ),
{
    let ghost ns = Seq::new(names@.len(), |k: int| names@[k]@);
    let ghost vs = Seq::new(values@.len(), |k: int| values@[k]@);
    let t = chars_of(template);
    let mut tokens: Vec<Vec<char>> = Vec::new();
    let mut k: usize = 0;
    while k < names.len()
        invariant
            k <= names@.len(),
            tokens@.len() == k,
            forall|m: int| 0 <= m < k ==> #[trigger] tokens@[m]@ == token(ns[m]),
            ns == Seq::new(names@.len(), |k: int| names@[k]@),
        decreases names@.len() - k,
    {
        tokens.push(token_of(names[k].as_str()));
        k = k + 1;
    }
    let mut out: Vec<char> = Vec::new();
    let mut i: usize = 0;
    while i < t.len()
        invariant
            i <= t@.len(),
            t@ == template@,
            tokens@.len() == names@.len(),
            names@.len() == values@.len(),
            ns == Seq::new(names@.len(), |k: int| names@[k]@),
            vs == Seq::new(values@.len(), |k: int| values@[k]@),
            forall|m: int| 0 <= m < tokens@.len() ==> #[trigger] tokens@[m]@ == token(ns[m]),
            out@ + substitute_from(t@, i as int, ns, vs) == substitute(t@, ns, vs),
        decreases t@.len() - i,
    {
        let mut m: usize = 0;
        let mut hit: Option<usize> = None;
        while m < tokens.len()
            invariant_except_break
                hit is None,
                first_match(t@, i as int, ns, 0) == first_match(t@, i as int, ns, m as int),
            invariant
                m <= tokens@.len(),
                i < t@.len(),
                tokens@.len() == ns.len(),
                forall|q: int| 0 <= q < tokens@.len() ==> #[trigger] tokens@[q]@ == token(ns[q]),
            ensures
                hit is None ==> first_match(t@, i as int, ns, 0) is None,
                hit matches Some(h) ==> first_match(t@, i as int, ns, 0) == Some(h as int) && h < ns.len(),
            decreases tokens@.len() - m,
        {
            if starts_at(&t, i, &tokens[m]) {
                assert(first_match(t@, i as int, ns, m as int) == Some(m as int));
                hit = Some(m);
                break;
            }
            m = m + 1;
        }
        let ghost before = substitute_from(t@, i as int, ns, vs);
        proof {
            lemma_first_match(t@, i as int, ns, 0);
        }
        match hit {
            Some(h) => {
                let v = chars_of(values[h].as_str());
                let mut q: usize = 0;
                let ghost start = out@;
                while q < v.len()
                    invariant
                        q <= v@.len(),
                        out@ == start + v@.subrange(0, q as int),
                    decreases v@.len() - q,
                {
                    out.push(v[q]);
                    q = q + 1;
                    assert(out@ =~= start + v@.subrange(0, q as int));
                }
                assert(v@.subrange(0, v@.len() as int) =~= v@);
                assert(v@ == vs[h as int]);
                let ghost next = i as int + token(ns[h as int]).len();
                assert(token(ns[h as int]).len() > 0);
                assert(before == vs[h as int] + substitute_from(t@, next, ns, vs));
                assert(out@ + substitute_from(t@, next, ns, vs) =~= start + before);
                i = i + tokens[h].len();
            },
            None => {
                out.push(t[i]);
                assert(before == seq![t@[i as int]] + substitute_from(t@, i as int + 1, ns, vs));
                assert(out@ + substitute_from(t@, i as int + 1, ns, vs) =~= out@.drop_last() + before);
                i = i + 1;
            },
        }
    }
    assert(substitute_from(t@, i as int, ns, vs) =~= Seq::<char>::empty());
    assert(out@ =~= out@ + substitute_from(t@, i as int, ns, vs));
    string_of(&out)
}

/// The indices, in order, of the variables whose token occurs in `template`:
/// the ones to resolve before substituting.
pub fn mentioned_variables(template: &str, vars: &Vec<(String, BoardVariable)>) -> (r: Vec<usize>)
    ensures
        forall|k: int| 0 <= k < r@.len() ==> #[trigger] r@[k] < vars@.len() && mentions(template@, vars@[r@[k] as int].0@),
        forall|k: int, m: int| 0 <= k < m < r@.len() ==> r@[k] < r@[m],
        forall|i: int| 0 <= i < vars@.len() && mentions(template@, #[trigger] vars@[i].0@) ==> r@.contains(i as usize),
{
    let mut out: Vec<usize> = Vec::new();
    let mut i: usize = 0;
    while i < vars.len()
        invariant
            i <= vars@.len(),
            forall|k: int| 0 <= k < out@.len() ==> #[trigger] out@[k] < i && mentions(template@, vars@[out@[k] as int].0@),
            forall|k: int, m: int| 0 <= k < m < out@.len() ==> out@[k] < out@[m],
            forall|j: int| 0 <= j < i && mentions(template@, #[trigger] vars@[j].0@) ==> out@.contains(j as usize),
        decreases vars@.len() - i,
    {
        let ghost before = out@;
        if template_mentions(template, vars[i].0.as_str()) {
            out.push(i);
            assert(out@[out@.len() - 1] == i);
            assert forall|j: int| 0 <= j < i + 1 && mentions(template@, #[trigger] vars@[j].0@) implies out@.contains(j as usize) by {
                if j < i {
                    let w = choose|w: int| 0 <= w < before.len() && before[w] == j as usize;
                    assert(out@[w] == j as usize);
                } else {
                    assert(out@[out@.len() - 1] == j as usize);
                }
            }
        }
        i = i + 1;
    }
    out
}

} // verus!
