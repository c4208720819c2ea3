//! The content-addressed image index: relative bitmap paths keyed by the first
//! five characters of the base64 SHA-256 digest of the path.
use vstd::prelude::*;
use base64::Engine;
use sha2::Digest;
use crate::text::{chars_of, push_char, string_of};

verus! {

broadcast use vstd::std_specs::vec::axiom_vec_index_decreases, vstd::std_specs::vec::axiom_vec_decreases_to_view, vstd::seq::axiom_seq_index_decreases, vstd::seq::axiom_seq_subrange_decreases;

/// A directory tree of image files.
#[derive(Debug)]
pub enum FileTree {
    File(String),
    Dir(String, Vec<FileTree>),
}

/// `dir/` before each path.
pub open spec fn under(dir: Seq<char>, paths: Seq<Seq<char>>) -> Seq<Seq<char>> {
    Seq::new(paths.len(), |i: int| dir + seq!['/'] + paths[i])
}

/// The relative paths of every file of a tree, in order.
pub open spec fn flatten_tree(t: FileTree) -> Seq<Seq<char>>
    decreases t,
{
    match t {
        FileTree::File(x) => seq![x@],
        FileTree::Dir(x, y) => under(x@, flatten_trees(y@)),
    }
}

/// The relative paths of every file of a list of trees, in order.
pub open spec fn flatten_trees(files: Seq<FileTree>) -> Seq<Seq<char>>
    decreases files,
{
    if files.len() == 0 {
        Seq::empty()
    } else {
        flatten_tree(files[0]) + flatten_trees(files.subrange(1, files.len() as int))
    }
}

proof fn lemma_flatten_step(files: Seq<FileTree>, i: int)
    requires
        0 <= i < files.len(),
    ensures
        flatten_trees(files.subrange(0, i + 1)) == flatten_trees(files.subrange(0, i)) + flatten_tree(files[i]),
    decreases i,
{
    let a = files.subrange(0, i + 1);
    if i == 0 {
        assert(a.subrange(1, a.len() as int) =~= Seq::<FileTree>::empty());
        assert(flatten_trees(files.subrange(0, 0)) == Seq::<Seq<char>>::empty());
        assert(a[0] == files[0]);
        assert(flatten_trees(a.subrange(1, a.len() as int)) == Seq::<Seq<char>>::empty());
        assert(flatten_trees(a) =~= flatten_tree(files[0]));
    } else {
        let b = files.subrange(1, files.len() as int);
        lemma_flatten_step(b, i - 1);
        assert(b.subrange(0, i) =~= a.subrange(1, a.len() as int));
        assert(b.subrange(0, i - 1) =~= files.subrange(0, i).subrange(1, i));
        assert(b[i - 1] == files[i]);
        assert(flatten_trees(a) =~= flatten_tree(files[0]) + flatten_trees(b.subrange(0, i)));
        assert(flatten_trees(files.subrange(0, i)) =~= flatten_tree(files[0]) + flatten_trees(b.subrange(0, i - 1)));
    }
}

fn join_path(dir: &String, path: &String) -> (r: String)
    ensures
        r@ == dir@ + seq!['/'] + path@,
{
    let mut s = dir.clone();
    push_char(&mut s, '/');
    s.append(path.as_str());
    s
}

/// The relative paths of every file, each directory name joined with `/`.
pub fn flatten(files: &Vec<FileTree>) -> (r: Vec<String>)
    ensures
        r@.len() == flatten_trees(files@).len(),
        forall|i: int| 0 <= i < r@.len() ==> #[trigger] r@[i]@ == flatten_trees(files@)[i],
    decreases files,
{
    let mut out: Vec<String> = Vec::new();
    let mut i: usize = 0;
    while i < files.len()
        invariant
            i <= files@.len(),
            out@.len() == flatten_trees(files@.subrange(0, i as int)).len(),
            forall|k: int| 0 <= k < out@.len() ==> #[trigger] out@[k]@ == flatten_trees(files@.subrange(0, i as int))[k],
        decreases files@.len() - i,
    {
        proof {
            lemma_flatten_step(files@, i as int);
        }
        let ghost before = flatten_trees(files@.subrange(0, i as int));
        let ghost this = flatten_tree(files@[i as int]);
        match &files[i] {
            FileTree::File(x) => {
                out.push(x.clone());
                assert(flatten_tree(files@[i as int]) == seq![x@]);
            },
            FileTree::Dir(x, y) => {
                assert(decreases_to!(files => files@[i as int]));
                let sub = flatten(y);
                let ghost inner = flatten_trees(y@);
                let ghost start = out@.len();
                let mut k: usize = 0;
                while k < sub.len()
                    invariant
                        k <= sub@.len(),
                        sub@.len() == inner.len(),
                        forall|q: int| 0 <= q < sub@.len() ==> #[trigger] sub@[q]@ == inner[q],
                        out@.len() == start + k,
                        start == before.len(),
                        forall|q: int| 0 <= q < start ==> #[trigger] out@[q]@ == before[q],
                        forall|q: int| 0 <= q < k ==> #[trigger] out@[start + q]@ == x@ + seq!['/'] + inner[q],
                    decreases sub@.len() - k,
                {
                    out.push(join_path(x, &sub[k]));
                    k = k + 1;
                }
                assert(flatten_tree(files@[i as int]) == under(x@, inner));
            },
        }
        assert(out@.len() == before.len() + this.len());
        assert forall|k: int| 0 <= k < out@.len() implies #[trigger] out@[k]@ == (before + this)[k] by {
            if k >= before.len() {
                let q = k - before.len();
                assert(out@[before.len() + q] == out@[k]);
            }
        }
        i = i + 1;
    }
    assert(files@.subrange(0, files@.len() as int) =~= files@);
    out
}

/// SHA-256 digest of the UTF-8 bytes of a text.
pub uninterp spec fn sha256_text(s: Seq<char>) -> Seq<u8>;

/// The character of a six-bit value in the standard base64 alphabet.
pub open spec fn base64_digit(v: int) -> char {
    if v < 26 {
        (0x41 + v) as char
    } else if v < 52 {
        (0x61 + v - 26) as char
    } else if v < 62 {
        (0x30 + v - 52) as char
    } else if v == 62 {
        '+'
    } else {
        '/'
    }
}

/// Whether `c` is one of the 64 characters of the standard base64 alphabet.
pub open spec fn is_base64_char(c: char) -> bool {
    ('A' <= c <= 'Z') || ('a' <= c <= 'z') || ('0' <= c <= '9') || c == '+' || c == '/'
}

/// Standard base64 with padding: every group of three bytes becomes four
/// six-bit digits, and a last group of one or two bytes is padded with `=`.
pub open spec fn base64_of(b: Seq<u8>) -> Seq<char>
    decreases b.len(),
{
    if b.len() == 0 {
        Seq::empty()
    } else if b.len() == 1 {
        seq![base64_digit((b[0] as int) / 4), base64_digit(((b[0] as int) % 4) * 16), '=', '=']
    } else if b.len() == 2 {
        seq![base64_digit((b[0] as int) / 4), base64_digit(((b[0] as int) % 4) * 16 + (b[1] as int) / 16), base64_digit(((b[1] as int) % 16) * 4), '=']
    } else {
        seq![
            base64_digit((b[0] as int) / 4),
            base64_digit(((b[0] as int) % 4) * 16 + (b[1] as int) / 16),
            base64_digit(((b[1] as int) % 16) * 4 + (b[2] as int) / 64),
            base64_digit((b[2] as int) % 64),
        ] + base64_of(b.subrange(3, b.len() as int))
    }
}

proof fn lemma_base64_len(b: Seq<u8>)
    ensures
        base64_of(b).len() == 4 * ((b.len() + 2) / 3),
    decreases b.len(),
{
    if b.len() >= 3 {
        lemma_base64_len(b.subrange(3, b.len() as int));
    }
}

proof fn lemma_base64_digit(v: int)
    requires
        0 <= v < 64,
    ensures
        is_base64_char(base64_digit(v)),
{
}

/// The first six characters of the base64 form of at least six bytes are all
/// digits of the alphabet (no padding).
proof fn lemma_base64_prefix(b: Seq<u8>)
    requires
        b.len() >= 6,
    ensures
        base64_of(b).len() >= 6,
        forall|i: int| 0 <= i < 6 ==> is_base64_char(#[trigger] base64_of(b)[i]),
{
    lemma_base64_len(b);
    let t = b.subrange(3, b.len() as int);
    lemma_base64_digit((b[0] as int) / 4);
    lemma_base64_digit(((b[0] as int) % 4) * 16 + (b[1] as int) / 16);
    lemma_base64_digit(((b[1] as int) % 16) * 4 + (b[2] as int) / 64);
    lemma_base64_digit((b[2] as int) % 64);
    lemma_base64_digit((t[0] as int) / 4);
    lemma_base64_digit(((t[0] as int) % 4) * 16 + (t[1] as int) / 16);
    assert(base64_of(b)[4] == base64_of(t)[0]);
    assert(base64_of(b)[5] == base64_of(t)[1]);
}

/// Relies on `sha2::Sha256::digest` of the text's bytes: a 32-byte digest that
/// depends on the text alone.
#[verifier::external_body]
fn sha256_digest(s: &str) -> (r: Vec<u8>)
    ensures
        r@ == sha256_text(s@),
        r@.len() == 32,
{
    sha2::Sha256::digest(s.as_bytes()).to_vec()
}

/// Relies on `base64::engine::general_purpose::STANDARD.encode`: standard
/// alphabet, padded.
#[verifier::external_body]
fn base64_standard(b: &Vec<u8>) -> (r: String)
    requires
        b@.len() <= 0x1000_0000,
    ensures
        r@ == base64_of(b@),
{
    base64::engine::general_purpose::STANDARD.encode(b)
}

/// The key of an image path: the first five characters of the base64 form of
/// the SHA-256 digest of the path.
pub open spec fn image_key_of(path: Seq<char>) -> Seq<char> {
    base64_of(sha256_text(path)).subrange(0, 5)
}

/// The five-character key of an image path: a function of the path alone, made
/// of characters of the base64 alphabet (two paths may share one).
pub fn image_key(path: &str) -> (r: String)
    ensures
        r@ == image_key_of(path@),
        r@.len() == 5,
        forall|i: int| 0 <= i < 5 ==> is_base64_char(#[trigger] r@[i]),
{
    let digest = sha256_digest(path);
    let encoded = base64_standard(&digest);
    proof {
        lemma_base64_len(digest@);
        lemma_base64_prefix(digest@);
    }
    let cs = chars_of(encoded.as_str());
    let mut key: Vec<char> = Vec::new();
    let mut i: usize = 0;
    while i < 5
        invariant
            i <= 5,
            cs@.len() == 44,
            cs@ == base64_of(sha256_text(path@)),
            forall|k: int| 0 <= k < 6 ==> is_base64_char(#[trigger] cs@[k]),
            key@ == cs@.subrange(0, i as int),
        decreases 5 - i,
    {
        key.push(cs[i]);
        i = i + 1;
        assert(key@ =~= cs@.subrange(0, i as int));
    }
    string_of(&key)
}

/// The map that inserting each pair in order gives (a later key wins).
pub open spec fn pairs_map(s: Seq<(String, String)>) -> Map<Seq<char>, Seq<char>>
    decreases s.len(),
{
    if s.len() == 0 {
        Map::empty()
    } else {
        pairs_map(s.drop_last()).insert(s.last().0@, s.last().1@)
    }
}

/// Image keys and the relative paths they name.
#[derive(Debug)]
pub struct ImageIndex {
    pub entries: Vec<(String, String)>,
}

/// Keys of a list of paths, in order.
pub open spec fn keyed(paths: Seq<String>) -> Seq<(Seq<char>, Seq<char>)> {
    Seq::new(paths.len(), |i: int| (image_key_of(paths[i]@), paths[i]@))
}

proof fn lemma_pairs_map_after(s: Seq<(String, String)>, i: int, k: Seq<char>)
    requires
        0 <= i <= s.len(),
        forall|j: int| i <= j < s.len() ==> (#[trigger] s[j]).0@ != k,
    ensures
        pairs_map(s).contains_key(k) == pairs_map(s.subrange(0, i)).contains_key(k),
        pairs_map(s).contains_key(k) ==> pairs_map(s)[k] == pairs_map(s.subrange(0, i))[k],
    decreases s.len() - i,
{
    if i < s.len() {
        let t = s.drop_last();
        assert(forall|j: int| i <= j < t.len() ==> t[j] == s[j]);
        lemma_pairs_map_after(t, i, k);
        assert(t.subrange(0, i) =~= s.subrange(0, i));
        assert(s.last() == s[s.len() - 1]);
    } else {
        assert(s.subrange(0, i) =~= s);
    }
}

impl ImageIndex {
    pub fn new() -> (r: ImageIndex)
        ensures
            r.entries@.len() == 0,
    {
        ImageIndex { entries: Vec::new() }
    }

    /// The index of `paths`: each path under its key, a later path replacing an
    /// earlier one with the same key.
    pub fn build(paths: &Vec<String>) -> (r: ImageIndex)
        ensures
            r.entries@.len() == paths@.len(),
            forall|i: int| 0 <= i < paths@.len() ==> (#[trigger] r.entries@[i]).0@ == image_key_of(paths@[i]@)
                && r.entries@[i].0@.len() == 5 && r.entries@[i].1@ == paths@[i]@,
    {
        let mut entries: Vec<(String, String)> = Vec::new();
        let mut i: usize = 0;
        while i < paths.len()
            invariant
                i <= paths@.len(),
                entries@.len() == i,
                forall|k: int| 0 <= k < i ==> (#[trigger] entries@[k]).0@ == image_key_of(paths@[k]@)
                    && entries@[k].0@.len() == 5 && entries@[k].1@ == paths@[k]@,
            decreases paths@.len() - i,
        {
            let key = image_key(paths[i].as_str());
            entries.push((key, paths[i].clone()));
            i = i + 1;
        }
        ImageIndex { entries }
    }

    pub fn is_empty(&self) -> (r: bool)
        ensures
            r == (self.entries@.len() == 0),
    {
        self.entries.len() == 0
    }

    /// The path that `key` names.
    pub fn lookup(&self, key: &str) -> (r: Option<String>)
        ensures
            match r {
                Some(p) => pairs_map(self.entries@).contains_key(key@) && pairs_map(self.entries@)[key@] == p@,
                None => !pairs_map(self.entries@).contains_key(key@),
            },
    {
        let k = key.to_owned();
        let mut i: usize = self.entries.len();
        while i > 0
            invariant
                i <= self.entries@.len(),
                k@ == key@,
                forall|j: int| i <= j < self.entries@.len() ==> (#[trigger] self.entries@[j]).0@ != key@,
            decreases i,
        {
            if self.entries[i - 1].0 == k {
                proof {
                    lemma_pairs_map_after(self.entries@, i as int, key@);
                    let pre = self.entries@.subrange(0, i as int);
                    assert(pre.drop_last() =~= self.entries@.subrange(0, i - 1));
                    assert(pre.last() == self.entries@[i - 1]);
                }
                return Some(self.entries[i - 1].1.clone());
            }
            i = i - 1;
        }
        proof {
            lemma_pairs_map_after(self.entries@, 0, key@);
            assert(self.entries@.subrange(0, 0) =~= Seq::<(String, String)>::empty());
        }
        None
    }

    /// The first key, in entry order, that names `path`, if any.
    pub fn key_for_path(&self, path: &str) -> (r: Option<String>)
        ensures
            match r {
                Some(k) => key_search(self.entries@, path@, 0) == Some(k@),
                None => key_search(self.entries@, path@, 0) is None,
            },
            match r {
                Some(k) => pairs_map(self.entries@).contains_key(k@) && pairs_map(self.entries@)[k@] == path@,
                None => forall|k: Seq<char>| #[trigger] pairs_map(self.entries@).contains_key(k)
                    ==> pairs_map(self.entries@)[k] != path@,
            },
    {
        let p = path.to_owned();
        let mut i: usize = 0;
        while i < self.entries.len()
            invariant
                i <= self.entries@.len(),
                p@ == path@,
                key_search(self.entries@, path@, 0) == key_search(self.entries@, path@, i as int),
                forall|j: int| 0 <= j < i ==> pairs_map(self.entries@).contains_key((#[trigger] self.entries@[j]).0@)
                    ==> pairs_map(self.entries@)[self.entries@[j].0@] != path@,
            decreases self.entries@.len() - i,
        {
            let key = &self.entries[i].0;
            match self.lookup(key.as_str()) {
                Some(found) => {
                    if found == p {
                        return Some(key.clone());
                    }
                },
                None => {},
            }
            i = i + 1;
        }
        proof {
            assert forall|k: Seq<char>| #[trigger] pairs_map(self.entries@).contains_key(k)
                implies pairs_map(self.entries@)[k] != path@ by {
                lemma_key_has_entry(self.entries@, k);
            }
        }
        None
    }
}

/// The first key from entry `j` on whose current path is `path`.
pub open spec fn key_search(s: Seq<(String, String)>, path: Seq<char>, j: int) -> Option<Seq<char>>
    decreases s.len() - j,
{
    if j < 0 || j >= s.len() {
        None
    } else if pairs_map(s).contains_key(s[j].0@) && pairs_map(s)[s[j].0@] == path {
        Some(s[j].0@)
    } else {
        key_search(s, path, j + 1)
    }
}

proof fn lemma_key_has_entry(s: Seq<(String, String)>, k: Seq<char>)
    requires
        pairs_map(s).contains_key(k),
    ensures
        exists|j: int| 0 <= j < s.len() && (#[trigger] s[j]).0@ == k,
    decreases s.len(),
{
    if s.last().0@ != k {
        lemma_key_has_entry(s.drop_last(), k);
        let j = choose|j: int| 0 <= j < s.drop_last().len() && (#[trigger] s.drop_last()[j]).0@ == k;
        assert(s[j] == s.drop_last()[j]);
    } else {
        assert(s[s.len() - 1] == s.last());
    }
}

} // verus!
