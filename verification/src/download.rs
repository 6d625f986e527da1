//! Choosing which files of a Hugging Face model repository to fetch, and naming where they go.
use vstd::prelude::*;

use crate::keyed::strs;
use crate::text::{
    ascii_lower, chars_of, contains_char, contains_seq, ends_with, has_substr, has_suffix,
    lower_all, matches_at, occurs_at, push_char, push_str, string_of, trim, trimmed,
};

verus! {

broadcast use vstd::seq_lib::group_to_multiset_ensures;

// ---------------------------------------------------------------------------------------
// Order of names

/// Lexicographic order of character sequences (the order of `String`s: UTF-8 keeps the order
/// of code points).
pub open spec fn lex_lt(a: Seq<char>, b: Seq<char>) -> bool
    decreases a.len(),
{
    if a.len() == 0 {
        b.len() > 0
    } else if b.len() == 0 {
        false
    } else if a[0] != b[0] {
        a[0] < b[0]
    } else {
        lex_lt(a.drop_first(), b.drop_first())
    }
}

/// `a` comes before `c` when it comes before `b` and `c` does not come before `b`.
pub proof fn lemma_lex_lt_le(a: Seq<char>, b: Seq<char>, c: Seq<char>)
    requires
        lex_lt(a, b),
        !lex_lt(c, b),
    ensures
        lex_lt(a, c),
    decreases a.len(),
{
    if a.len() > 0 && b.len() > 0 && c.len() > 0 && a[0] == b[0] && b[0] == c[0] {
        lemma_lex_lt_le(a.drop_first(), b.drop_first(), c.drop_first());
    }
}

/// Of two sequences, one comes first unless they are equal.
pub proof fn lemma_lex_total(a: Seq<char>, b: Seq<char>)
    ensures
        lex_lt(a, b) || lex_lt(b, a) || a == b,
    decreases a.len(),
{
    if a.len() > 0 && b.len() > 0 && a[0] == b[0] {
        lemma_lex_total(a.drop_first(), b.drop_first());
        if a.drop_first() == b.drop_first() {
            assert(a =~= seq![a[0]] + a.drop_first());
            assert(b =~= seq![b[0]] + b.drop_first());
        }
    } else if a.len() == 0 && b.len() == 0 {
        assert(a =~= b);
    }
}

/// Whether `a` comes before `b`.
pub fn chars_lt(a: &Vec<char>, b: &Vec<char>) -> (r: bool)
    ensures
        r == lex_lt(a@, b@),
{
    let mut i: usize = 0;
    assert(a@.skip(0) =~= a@ && b@.skip(0) =~= b@);
    while i < a.len() && i < b.len() && a[i] == b[i]
        invariant
            i <= a.len(),
            i <= b.len(),
            lex_lt(a@, b@) == lex_lt(a@.skip(i as int), b@.skip(i as int)),
        decreases a.len() - i,
    {
        assert(a@.skip(i as int).drop_first() =~= a@.skip(i + 1));
        assert(b@.skip(i as int).drop_first() =~= b@.skip(i + 1));
        i += 1;
    }
    if i == a.len() {
        i < b.len()
    } else if i == b.len() {
        false
    } else {
        a[i] < b[i]
    }
}

/// `n` is one of `names`, and none of them comes before it.
pub open spec fn is_least_name(names: Seq<String>, n: Seq<char>) -> bool {
    &&& exists|i: int| 0 <= i < names.len() && names[i]@ == n
    &&& forall|i: int| 0 <= i < names.len() ==> !lex_lt(names[i]@, n)
}

/// The first of a list of names in order (what sorting them and taking the first gives).
pub fn least_name(names: &Vec<String>) -> (r: Option<String>)
    ensures
        names@.len() == 0 <==> r is None,
        r matches Some(n) ==> is_least_name(names@, n@),
{
    if names.len() == 0 {
        return None;
    }
    let mut best: usize = 0;
    let mut best_chars = chars_of(names[0].as_str());
    proof {
        lemma_lex_irrefl(best_chars@);
    }
    let mut i: usize = 1;
    while i < names.len()
        invariant
            1 <= i <= names.len(),
            best < names.len(),
            best_chars@ == names@[best as int]@,
            forall|j: int| 0 <= j < i ==> !lex_lt(names@[j]@, best_chars@),
        decreases names.len() - i,
    {
        let c = chars_of(names[i].as_str());
        if chars_lt(&c, &best_chars) {
            proof {
                assert forall|j: int| 0 <= j < i implies !lex_lt(names@[j]@, c@) by {
                    if lex_lt(names@[j]@, c@) {
                        lemma_lex_lt_asym(c@, best_chars@);
                        lemma_lex_lt_le(names@[j]@, c@, best_chars@);
                    }
                }
                lemma_lex_irrefl(c@);
            }
            best = i;
            best_chars = c;
        }
        i += 1;
    }
    Some(names[best].clone())
}

pub proof fn lemma_lex_irrefl(a: Seq<char>)
    ensures
        !lex_lt(a, a),
    decreases a.len(),
{
    if a.len() > 0 {
        lemma_lex_irrefl(a.drop_first());
    }
}

pub proof fn lemma_lex_lt_asym(a: Seq<char>, b: Seq<char>)
    requires
        lex_lt(a, b),
    ensures
        !lex_lt(b, a),
    decreases a.len(),
{
    if a.len() > 0 && b.len() > 0 && a[0] == b[0] {
        lemma_lex_lt_asym(a.drop_first(), b.drop_first());
    }
}

// ---------------------------------------------------------------------------------------
// File names

/// A model weights file: ends with `.gguf` and is not a multimodal projector (`mmproj`),
/// letters compared without case.
pub open spec fn gguf_name(path: Seq<char>) -> bool {
    has_suffix(ascii_lower(path), ".gguf"@) && !has_substr(ascii_lower(path), "mmproj"@)
}

pub fn is_gguf_file(path: &str) -> (r: bool)
    ensures
        r == gguf_name(path@),
{
    let lower = lower_all(&chars_of(path));
    ends_with(&lower, &chars_of(".gguf")) && !contains_seq(&lower, &chars_of("mmproj"))
}

pub open spec fn is_sep(c: char) -> bool {
    c == '/' || c == '\\'
}

/// The parts of a path between separators (`/` or `\`), as `str::split` gives them.
pub open spec fn components(p: Seq<char>) -> Seq<Seq<char>>
    decreases p.len(),
{
    if p.len() == 0 {
        seq![Seq::<char>::empty()]
    } else {
        let rest = components(p.drop_last());
        if is_sep(p.last()) {
            rest.push(Seq::<char>::empty())
        } else {
            rest.update(rest.len() - 1, rest.last().push(p.last()))
        }
    }
}

pub proof fn lemma_components_nonempty(p: Seq<char>)
    ensures
        components(p).len() >= 1,
    decreases p.len(),
{
    if p.len() > 0 {
        lemma_components_nonempty(p.drop_last());
    }
}

/// A path component that names something inside the directory: not empty, `.` or `..`.
pub open spec fn plain_component(c: Seq<char>) -> bool {
    &&& c.len() != 0
    &&& !(c.len() == 1 && c[0] == '.')
    &&& !(c.len() == 2 && c[0] == '.' && c[1] == '.')
}

/// A relative path that stays inside the directory it is joined to.
pub open spec fn safe_relative_path(p: Seq<char>) -> bool {
    &&& p.len() != 0
    &&& !is_sep(p[0])
    &&& !p.contains(':')
    &&& forall|i: int| 0 <= i < components(p).len() ==> plain_component(#[trigger] components(p)[i])
}

fn plain_part(v: &Vec<char>, from: usize, to: usize) -> (r: bool)
    requires
        from <= to <= v.len(),
    ensures
        r == plain_component(v@.subrange(from as int, to as int)),
{
    let n = to - from;
    n != 0 && !(n == 1 && v[from] == '.') && !(n == 2 && v[from] == '.' && v[from + 1] == '.')
}

/// Whether a path from a repository listing is safe to write under the model directory.
pub fn is_safe_relative_path(path: &str) -> (r: bool)
    ensures
        r == safe_relative_path(path@),
{
    let v = chars_of(path);
    if v.len() == 0 || v[0] == '/' || v[0] == '\\' || contains_char(&v, ':') {
        return false;
    }
    let mut start: usize = 0;
    let mut i: usize = 0;
    while i < v.len()
        invariant
            v@ == path@,
            start <= i <= v.len(),
            components(v@.take(i as int)).len() >= 1,
            components(v@.take(i as int)).last() == v@.subrange(start as int, i as int),
            forall|k: int|
                0 <= k < components(v@.take(i as int)).len() - 1 ==> plain_component(
                    #[trigger] components(v@.take(i as int))[k],
                ),
        decreases v.len() - i,
    {
        let ghost before = components(v@.take(i as int));
        assert(v@.take(i + 1).drop_last() =~= v@.take(i as int));
        if v[i] == '/' || v[i] == '\\' {
            if !plain_part(&v, start, i) {
                proof {
                    let after = components(v@.take(i + 1));
                    assert(after[before.len() - 1] == before.last());
                    assert(!plain_component(after[before.len() - 1]));
                    assert(v@.take(v.len() as int) =~= v@);
                    lemma_prefix_components(v@, i + 1);
                }
                return false;
            }
            start = i + 1;
        } else {
            assert(v@.subrange(start as int, i + 1) =~= before.last().push(v@[i as int]));
        }
        i += 1;
    }
    assert(v@.take(v.len() as int) =~= v@);
    let last_ok = plain_part(&v, start, v.len());
    proof {
        let cs = components(v@);
        if !last_ok {
            assert(!plain_component(cs[cs.len() - 1]));
        }
    }
    last_ok
}

/// The components of a prefix stay, all but its last, among the components of the path.
proof fn lemma_prefix_components(p: Seq<char>, n: int)
    requires
        0 <= n <= p.len(),
    ensures
        components(p.take(n)).len() <= components(p).len(),
        forall|k: int|
            0 <= k < components(p.take(n)).len() - 1 ==> #[trigger] components(p.take(n))[k]
                == components(p)[k],
    decreases p.len() - n,
{
    lemma_components_nonempty(p.take(n));
    if n == p.len() {
        assert(p.take(n) =~= p);
    } else {
        lemma_prefix_components(p, n + 1);
        assert(p.take(n + 1).drop_last() =~= p.take(n));
        assert(p.take(n + 1).last() == p[n]);
        lemma_components_nonempty(p.take(n + 1));
        let a = components(p.take(n));
        let b = components(p.take(n + 1));
        assert(b.len() >= a.len());
        assert forall|k: int| 0 <= k < a.len() - 1 implies #[trigger] a[k] == components(p)[k] by {
            assert(b[k] == a[k]);
        }
    }
}

// ---------------------------------------------------------------------------------------
// Shards

/// The last position below `n` at which `pat` occurs in `s`, or `-1`.
pub open spec fn last_before(s: Seq<char>, pat: Seq<char>, n: nat) -> int
    decreases n,
{
    if n == 0 {
        -1
    } else if occurs_at(s, pat, n - 1) {
        n - 1
    } else {
        last_before(s, pat, (n - 1) as nat)
    }
}

/// The last position below `n` holding `c` in `s`, or `-1`.
pub open spec fn last_char_before(s: Seq<char>, c: char, n: nat) -> int
    decreases n,
{
    if n == 0 {
        -1
    } else if n - 1 < s.len() && s[n - 1] == c {
        n - 1
    } else {
        last_char_before(s, c, (n - 1) as nat)
    }
}

pub open spec fn all_digits(s: Seq<char>) -> bool {
    forall|i: int| 0 <= i < s.len() ==> '0' <= #[trigger] s[i] && s[i] <= '9'
}

/// A file name without its `.gguf` (or `.GGUF`) extension.
pub open spec fn gguf_stem(p: Seq<char>) -> Seq<char> {
    if has_suffix(p, ".gguf"@) {
        p.subrange(0, p.len() - ".gguf"@.len())
    } else if has_suffix(p, ".GGUF"@) {
        p.subrange(0, p.len() - ".GGUF"@.len())
    } else {
        p
    }
}

/// What the shards of one model share: the stem without its `-NNNNN-of-NNNNN` shard suffix
/// (the last `-of-`, found without case, with digits on both sides); the whole stem otherwise.
pub open spec fn shard_base_of(p: Seq<char>) -> Seq<char> {
    let stem = gguf_stem(p);
    let pos = last_before(ascii_lower(stem), "-of-"@, stem.len());
    if pos < 0 {
        stem
    } else {
        let before = stem.subrange(0, pos);
        let after = stem.subrange(pos + "-of-"@.len(), stem.len() as int);
        let dash = last_char_before(before, '-', before.len());
        let shard = before.subrange(dash + 1, before.len() as int);
        if dash >= 0 && shard.len() != 0 && all_digits(shard) && after.len() != 0 && all_digits(
            after,
        ) {
            before.subrange(0, dash)
        } else {
            stem
        }
    }
}

proof fn lemma_last_before_bounds(s: Seq<char>, pat: Seq<char>, n: nat)
    ensures
        last_before(s, pat, n) == -1 || (0 <= last_before(s, pat, n) < n && occurs_at(
            s,
            pat,
            last_before(s, pat, n),
        )),
    decreases n,
{
    if n > 0 {
        lemma_last_before_bounds(s, pat, (n - 1) as nat);
    }
}

proof fn lemma_last_char_before_bounds(s: Seq<char>, c: char, n: nat)
    ensures
        last_char_before(s, c, n) == -1 || 0 <= last_char_before(s, c, n) < n,
    decreases n,
{
    if n > 0 {
        lemma_last_char_before_bounds(s, c, (n - 1) as nat);
    }
}

fn digits_only(v: &Vec<char>, from: usize, to: usize) -> (r: bool)
    requires
        from <= to <= v.len(),
    ensures
        r == all_digits(v@.subrange(from as int, to as int)),
{
    let mut i = from;
    while i < to
        invariant
            from <= i <= to <= v.len(),
            all_digits(v@.subrange(from as int, i as int)),
        decreases to - i,
    {
        if !('0' <= v[i] && v[i] <= '9') {
            assert(v@.subrange(from as int, to as int)[i - from] == v@[i as int]);
            return false;
        }
        i += 1;
        assert forall|k: int| 0 <= k < i - from implies '0' <= #[trigger] v@.subrange(
            from as int,
            i as int,
        )[k] && v@.subrange(from as int, i as int)[k] <= '9' by {
            assert(v@.subrange(from as int, i as int)[k] == v@[from + k]);
            if k < i - 1 - from {
                assert(v@.subrange(from as int, i - 1)[k] == v@[from + k]);
            }
        }
    }
    true
}

/// The name that the shards of a split model file have in common.
pub fn shard_base(path: &str) -> (r: String)
    ensures
        r@ == shard_base_of(path@),
{
    let v = chars_of(path);
    let lower_ext = chars_of(".gguf");
    let upper_ext = chars_of(".GGUF");
    let stem_len = if ends_with(&v, &lower_ext) {
        v.len() - lower_ext.len()
    } else if ends_with(&v, &upper_ext) {
        v.len() - upper_ext.len()
    } else {
        v.len()
    };
    assert(v@.subrange(0, v@.len() as int) =~= v@);
    let stem = chars_of(string_of(&v, 0, stem_len).as_str());
    let lower = lower_all(&stem);
    let pat = chars_of("-of-");
    let mut n: usize = stem.len();
    while n > 0 && !matches_at(&lower, &pat, n - 1)
        invariant
            n <= stem.len(),
            last_before(lower@, pat@, stem@.len() as nat) == last_before(
                lower@,
                pat@,
                n as nat,
            ),
        decreases n,
    {
        n -= 1;
    }
    proof {
        lemma_last_before_bounds(lower@, pat@, n as nat);
    }
    assert(stem@.subrange(0, stem@.len() as int) =~= stem@);
    if n == 0 {
        return string_of(&stem, 0, stem.len());
    }
    let pos = n - 1;
    let mut d: usize = pos;
    while d > 0 && stem[d - 1] != '-'
        invariant
            d <= pos <= stem.len(),
            last_char_before(stem@.subrange(0, pos as int), '-', pos as nat) == last_char_before(
                stem@.subrange(0, pos as int),
                '-',
                d as nat,
            ),
        decreases d,
    {
        assert(stem@.subrange(0, pos as int)[d - 1] == stem@[d - 1]);
        d -= 1;
    }
    proof {
        if d > 0 {
            assert(stem@.subrange(0, pos as int)[d - 1] == stem@[d - 1]);
        }
        lemma_last_char_before_bounds(stem@.subrange(0, pos as int), '-', d as nat);
    }
    if d > 0 {
        let dash = d - 1;
        let after_start = pos + pat.len();
        if dash + 1 < pos && digits_only(&stem, dash + 1, pos) && after_start < stem.len()
            && digits_only(&stem, after_start, stem.len()) {
            assert(stem@.subrange(0, pos as int).subrange(dash + 1, pos as int) =~= stem@.subrange(
                dash + 1,
                pos as int,
            ));
            assert(stem@.subrange(0, pos as int).subrange(0, dash as int) =~= stem@.subrange(
                0,
                dash as int,
            ));
            return string_of(&stem, 0, dash);
        }
        assert(stem@.subrange(0, pos as int).subrange(dash + 1, pos as int) =~= stem@.subrange(
            dash + 1,
            pos as int,
        ));
    }
    string_of(&stem, 0, stem.len())
}

// ---------------------------------------------------------------------------------------
// Choosing the files of a model

/// An entry of a repository listing.
#[derive(Clone, Debug)]
pub struct HfTreeEntry {
    pub kind: String,
    pub path: String,
    pub size: u64,
}

pub struct TreeEntryView {
    pub kind: Seq<char>,
    pub path: Seq<char>,
    pub size: u64,
}

impl View for HfTreeEntry {
    type V = TreeEntryView;

    open spec fn view(&self) -> TreeEntryView {
        TreeEntryView { kind: self.kind@, path: self.path@, size: self.size }
    }
}

/// A file to fetch, and the size the listing gave it.
#[derive(Clone, Debug)]
pub struct PlannedFile {
    pub path: String,
    pub size: u64,
}

pub open spec fn tree_views(t: Seq<HfTreeEntry>) -> Seq<TreeEntryView> {
    t.map_values(|e: HfTreeEntry| e@)
}

pub open spec fn planned_views(v: Seq<PlannedFile>) -> Seq<(Seq<char>, u64)> {
    v.map_values(|f: PlannedFile| (f.path@, f.size))
}

/// A listed file that can be fetched as model weights.
pub open spec fn eligible(e: TreeEntryView) -> bool {
    e.kind == "file"@ && safe_relative_path(e.path) && gguf_name(e.path)
}

/// The preferred quantisation.
pub open spec fn prefers(key: Seq<char>) -> bool {
    has_substr(ascii_lower(key), "q4_k_m"@)
}

/// The first, in order, of the shard bases of the eligible entries (of those with the
/// preferred quantisation only, when `preferred`).
pub open spec fn first_key(t: Seq<TreeEntryView>, preferred: bool) -> Option<Seq<char>>
    decreases t.len(),
{
    if t.len() == 0 {
        None
    } else {
        let prev = first_key(t.drop_last(), preferred);
        let k = shard_base_of(t.last().path);
        if eligible(t.last()) && (!preferred || prefers(k)) {
            match prev {
                Some(p) => if lex_lt(k, p) {
                    Some(k)
                } else {
                    Some(p)
                },
                None => Some(k),
            }
        } else {
            prev
        }
    }
}

/// The model picked from a listing: the first group of shards with the preferred
/// quantisation, else the first group.
pub open spec fn chosen_key(t: Seq<TreeEntryView>) -> Option<Seq<char>> {
    if first_key(t, true) is Some {
        first_key(t, true)
    } else {
        first_key(t, false)
    }
}

/// The eligible entries of group `key`, in listing order.
pub open spec fn group_of(t: Seq<TreeEntryView>, key: Seq<char>) -> Seq<(Seq<char>, u64)>
    decreases t.len(),
{
    if t.len() == 0 {
        Seq::empty()
    } else {
        let prev = group_of(t.drop_last(), key);
        if eligible(t.last()) && shard_base_of(t.last().path) == key {
            prev.push((t.last().path, t.last().size))
        } else {
            prev
        }
    }
}

pub open spec fn sorted_by_path(s: Seq<(Seq<char>, u64)>) -> bool {
    forall|i: int, j: int| 0 <= i < j < s.len() ==> !lex_lt(#[trigger] s[j].0, #[trigger] s[i].0)
}

fn eligible_entry(e: &HfTreeEntry) -> (r: bool)
    ensures
        r == eligible(e@),
{
    crate::keyed::str_eq(e.kind.as_str(), "file") && is_safe_relative_path(e.path.as_str())
        && is_gguf_file(e.path.as_str())
}

fn pick_first(best: Option<Vec<char>>, k: Vec<char>) -> (r: Option<Vec<char>>)
    ensures
        r matches Some(x) && x@ == match best {
            Some(p) => if lex_lt(k@, p@) {
                k@
            } else {
                p@
            },
            None => k@,
        },
{
    match best {
        Some(p) => if chars_lt(&k, &p) {
            Some(k)
        } else {
            Some(p)
        },
        None => Some(k),
    }
}

pub open spec fn opt_chars_view(o: Option<Vec<char>>) -> Option<Seq<char>> {
    match o {
        Some(v) => Some(v@),
        None => None,
    }
}

/// Inserts `f` after the files whose paths do not come after its own.
fn insert_by_path(out: &mut Vec<PlannedFile>, f: PlannedFile)
    requires
        sorted_by_path(planned_views(old(out)@)),
    ensures
        sorted_by_path(planned_views(final(out)@)),
        planned_views(final(out)@).to_multiset() == planned_views(old(out)@).to_multiset().insert(
            (f.path@, f.size),
        ),
{
    let key = chars_of(f.path.as_str());
    let ghost s = planned_views(out@);
    let mut j: usize = 0;
    while j < out.len() && !chars_lt(&key, &chars_of(out[j].path.as_str()))
        invariant
            j <= out.len(),
            s == planned_views(out@),
            key@ == f.path@,
            forall|k: int| 0 <= k < j ==> !lex_lt(key@, #[trigger] s[k].0),
        decreases out.len() - j,
    {
        j += 1;
    }
    let ghost x = (f.path@, f.size);
    out.insert(j, f);
    proof {
        let t = planned_views(out@);
        assert(t =~= s.insert(j as int, x));
        assert forall|a: int, b: int| 0 <= a < b < t.len() implies !lex_lt(
            #[trigger] t[b].0,
            #[trigger] t[a].0,
        ) by {
            if b == j {
                assert(t[a] == s[a]);
            } else if a == j {
                assert(t[b] == s[b - 1]);
                if b - 1 > j {
                    assert(!lex_lt(s[b - 1].0, s[j as int].0));
                    lemma_lex_lt_le(key@, s[j as int].0, s[b - 1].0);
                }
                lemma_lex_lt_asym(key@, s[b - 1].0);
            } else if a < j && b < j {
                assert(t[a] == s[a] && t[b] == s[b]);
            } else if a < j && b > j {
                assert(t[a] == s[a] && t[b] == s[b - 1]);
            } else {
                assert(t[a] == s[a - 1] && t[b] == s[b - 1]);
            }
        }
    }
}

/// From a repository listing, the files to fetch: the group of shards (files sharing a
/// [`shard_base`]) that comes first among those with the preferred quantisation, else the
/// first group; only safe relative paths of model weights count; the files come in path
/// order.
pub fn select_gguf_files(tree: Vec<HfTreeEntry>) -> (r: Vec<PlannedFile>)
    ensures
        match chosen_key(tree_views(tree@)) {
            None => r@.len() == 0,
            Some(key) => {
                &&& sorted_by_path(planned_views(r@))
                &&& planned_views(r@).to_multiset() == group_of(tree_views(tree@), key).to_multiset()
            },
        },
        (exists|i: int|
            0 <= i < tree@.len() && eligible(#[trigger] tree@[i]@) && has_substr(
                ascii_lower(shard_base_of(tree@[i]@.path)),
                "q4_k_m"@,
            )) ==> forall|j: int|
            0 <= j < r@.len() ==> has_substr(
                ascii_lower(shard_base_of(#[trigger] r@[j].path@)),
                "q4_k_m"@,
            ),
{
    let ghost t = tree_views(tree@);
    let mut best_preferred: Option<Vec<char>> = None;
    let mut best_any: Option<Vec<char>> = None;
    let mut i: usize = 0;
    while i < tree.len()
        invariant
            i <= tree.len(),
            t == tree_views(tree@),
            opt_chars_view(best_preferred) == first_key(t.take(i as int), true),
            opt_chars_view(best_any) == first_key(t.take(i as int), false),
        decreases tree.len() - i,
    {
        assert(t.take(i + 1).drop_last() =~= t.take(i as int));
        assert(t.take(i + 1).last() == tree[i as int]@);
        if eligible_entry(&tree[i]) {
            let k = chars_of(shard_base(tree[i].path.as_str()).as_str());
            let preferred = contains_seq(&lower_all(&k), &chars_of("q4_k_m"));
            if preferred {
                let kp = chars_of(shard_base(tree[i].path.as_str()).as_str());
                best_preferred = pick_first(best_preferred, kp);
            }
            best_any = pick_first(best_any, k);
        }
        i += 1;
    }
    assert(t.take(tree.len() as int) =~= t);
    let key = match best_preferred {
        Some(k) => k,
        None => match best_any {
            Some(k) => k,
            None => {
                return Vec::new();
            },
        },
    };
    let mut out: Vec<PlannedFile> = Vec::new();
    let mut i: usize = 0;
    while i < tree.len()
        invariant
            i <= tree.len(),
            t == tree_views(tree@),
            sorted_by_path(planned_views(out@)),
            planned_views(out@).to_multiset() == group_of(t.take(i as int), key@).to_multiset(),
        decreases tree.len() - i,
    {
        assert(t.take(i + 1).drop_last() =~= t.take(i as int));
        assert(t.take(i + 1).last() == tree[i as int]@);
        if eligible_entry(&tree[i]) {
            let base = chars_of(shard_base(tree[i].path.as_str()).as_str());
            if base.len() == key.len() && chars_eq(&base, &key) {
                let f = PlannedFile { path: tree[i].path.clone(), size: tree[i].size };
                insert_by_path(&mut out, f);
            }
        }
        i += 1;
    }
    assert(t.take(tree.len() as int) =~= t);
    proof {
        if exists|i: int|
            0 <= i < tree@.len() && eligible(#[trigger] tree@[i]@) && has_substr(
                ascii_lower(shard_base_of(tree@[i]@.path)),
                "q4_k_m"@,
            ) {
            let i = choose|i: int|
                0 <= i < tree@.len() && eligible(#[trigger] tree@[i]@) && has_substr(
                    ascii_lower(shard_base_of(tree@[i]@.path)),
                    "q4_k_m"@,
                );
            assert(t[i] == tree@[i]@);
            law_preferred_quantisation_is_chosen(t, i);
            lemma_group_of_bases(t, key@);
            lemma_members_share_base(planned_views(out@), group_of(t, key@), key@);
            assert forall|j: int| 0 <= j < out@.len() implies has_substr(
                ascii_lower(shard_base_of(#[trigger] out@[j].path@)),
                "q4_k_m"@,
            ) by {
                assert(planned_views(out@)[j].0 == out@[j].path@);
            }
        }
    }
    out
}

/// Every entry of group `key` has `key` as its shard base.
proof fn lemma_group_of_bases(t: Seq<TreeEntryView>, key: Seq<char>)
    ensures
        forall|k: int|
            0 <= k < group_of(t, key).len() ==> shard_base_of(#[trigger] group_of(t, key)[k].0)
                == key,
    decreases t.len(),
{
    if t.len() > 0 {
        lemma_group_of_bases(t.drop_last(), key);
        let prev = group_of(t.drop_last(), key);
        let g = group_of(t, key);
        assert forall|k: int| 0 <= k < g.len() implies shard_base_of(#[trigger] g[k].0) == key by {
            if k < prev.len() {
                assert(g[k] == prev[k]);
            }
        }
    }
}

/// A sequence with the same elements as group `key` holds only files of that group.
proof fn lemma_members_share_base(
    r: Seq<(Seq<char>, u64)>,
    g: Seq<(Seq<char>, u64)>,
    key: Seq<char>,
)
    requires
        r.to_multiset() == g.to_multiset(),
        forall|k: int| 0 <= k < g.len() ==> shard_base_of(#[trigger] g[k].0) == key,
    ensures
        forall|j: int| 0 <= j < r.len() ==> shard_base_of(#[trigger] r[j].0) == key,
{
    assert forall|j: int| 0 <= j < r.len() implies shard_base_of(#[trigger] r[j].0) == key by {
        assert(r.contains(r[j]));
        assert(r.to_multiset().count(r[j]) > 0);
        assert(g.contains(r[j]));
        let k = choose|k: int| 0 <= k < g.len() && g[k] == r[j];
        assert(shard_base_of(g[k].0) == key);
    }
}

/// When an eligible file of the listing has the preferred quantisation (`q4_k_m`, in any
/// case), the chosen group has it too, and so has every file of that group: the first group
/// in order is taken only when no eligible file has it.
pub proof fn law_preferred_quantisation_is_chosen(t: Seq<TreeEntryView>, i: int)
    requires
        0 <= i < t.len(),
        eligible(t[i]),
        has_substr(ascii_lower(shard_base_of(t[i].path)), "q4_k_m"@),
    ensures
        chosen_key(t) is Some,
        has_substr(ascii_lower(chosen_key(t)->0), "q4_k_m"@),
        forall|k: int|
            0 <= k < group_of(t, chosen_key(t)->0).len() ==> has_substr(
                ascii_lower(shard_base_of(#[trigger] group_of(t, chosen_key(t)->0)[k].0)),
                "q4_k_m"@,
            ),
{
    law_chosen_group_comes_first(t, true, i);
    let j = choose|j: int|
        0 <= j < t.len() && eligible(t[j]) && (!true || prefers(shard_base_of(t[j].path)))
            && shard_base_of(#[trigger] t[j].path) == first_key(t, true)->0;
    assert(prefers(shard_base_of(t[j].path)));
    lemma_group_of_bases(t, chosen_key(t)->0);
}

fn chars_eq(a: &Vec<char>, b: &Vec<char>) -> (r: bool)
    ensures
        r == (a@ == b@),
{
    if a.len() != b.len() {
        return false;
    }
    let mut i: usize = 0;
    while i < a.len()
        invariant
            a.len() == b.len(),
            i <= a.len(),
            forall|k: int| 0 <= k < i ==> a@[k] == b@[k],
        decreases a.len() - i,
    {
        if a[i] != b[i] {
            return false;
        }
        i += 1;
    }
    assert(a@ =~= b@);
    true
}

/// The group a listing's files are chosen from comes first, in order, among the groups that
/// qualify: no qualifying entry has a shard base before it, and it is the base of one of them.
pub proof fn law_chosen_group_comes_first(t: Seq<TreeEntryView>, preferred: bool, i: int)
    requires
        0 <= i < t.len(),
        eligible(t[i]),
        !preferred || prefers(shard_base_of(t[i].path)),
    ensures
        first_key(t, preferred) is Some,
        !lex_lt(shard_base_of(t[i].path), first_key(t, preferred)->0),
        exists|j: int|
            0 <= j < t.len() && eligible(t[j]) && (!preferred || prefers(shard_base_of(t[j].path)))
                && shard_base_of(#[trigger] t[j].path) == first_key(t, preferred)->0,
    decreases t.len(),
{
    let last = t.len() - 1;
    let k = shard_base_of(t.last().path);
    let qualifies = eligible(t.last()) && (!preferred || prefers(k));
    if i < last {
        assert(t.drop_last()[i] == t[i]);
        law_chosen_group_comes_first(t.drop_last(), preferred, i);
        let p = first_key(t.drop_last(), preferred)->0;
        let j = choose|j: int|
            0 <= j < t.drop_last().len() && eligible(t.drop_last()[j]) && (!preferred || prefers(
                shard_base_of(t.drop_last()[j].path),
            )) && shard_base_of(#[trigger] t.drop_last()[j].path) == p;
        assert(t[j] == t.drop_last()[j]);
        if qualifies && lex_lt(k, p) {
            lemma_lex_lt_asym(k, p);
            if lex_lt(shard_base_of(t[i].path), k) {
                lemma_lex_lt_le(shard_base_of(t[i].path), k, p);
            }
            assert(shard_base_of(t[last].path) == first_key(t, preferred)->0);
        }
    } else {
        match first_key(t.drop_last(), preferred) {
            Some(p) => {
                if !lex_lt(k, p) {
                    let j0 = choose|j: int|
                        0 <= j < t.drop_last().len() && eligible(t.drop_last()[j]) && (!preferred
                            || prefers(shard_base_of(t.drop_last()[j].path))) && shard_base_of(
                            #[trigger] t.drop_last()[j].path,
                        ) == p;
                    if t.drop_last().len() > 0 {
                        assert(exists|j: int|
                            0 <= j < t.drop_last().len() && eligible(t.drop_last()[j]) && (
                            !preferred || prefers(shard_base_of(t.drop_last()[j].path)))
                                && shard_base_of(#[trigger] t.drop_last()[j].path) == p) by {
                            lemma_first_key_witness(t.drop_last(), preferred);
                        }
                        assert(t[j0] == t.drop_last()[j0]);
                    }
                } else {
                    lemma_lex_irrefl(k);
                    assert(shard_base_of(t[last].path) == first_key(t, preferred)->0);
                }
            },
            None => {
                lemma_lex_irrefl(k);
                assert(shard_base_of(t[last].path) == first_key(t, preferred)->0);
            },
        }
    }
}

proof fn lemma_first_key_witness(t: Seq<TreeEntryView>, preferred: bool)
    requires
        first_key(t, preferred) is Some,
    ensures
        exists|j: int|
            0 <= j < t.len() && eligible(t[j]) && (!preferred || prefers(shard_base_of(t[j].path)))
                && shard_base_of(#[trigger] t[j].path) == first_key(t, preferred)->0,
    decreases t.len(),
{
    let last = t.len() - 1;
    let k = shard_base_of(t.last().path);
    if eligible(t.last()) && (!preferred || prefers(k)) && (first_key(t.drop_last(), preferred) is None
        || lex_lt(k, first_key(t.drop_last(), preferred)->0)) {
        assert(shard_base_of(t[last].path) == first_key(t, preferred)->0);
    } else {
        lemma_first_key_witness(t.drop_last(), preferred);
        let j = choose|j: int|
            0 <= j < t.drop_last().len() && eligible(t.drop_last()[j]) && (!preferred || prefers(
                shard_base_of(t.drop_last()[j].path),
            )) && shard_base_of(#[trigger] t.drop_last()[j].path) == first_key(
                t.drop_last(),
                preferred,
            )->0;
        assert(t[j] == t.drop_last()[j]);
    }
}

/// The folder under which the Hugging Face cache keeps a repository: `models--` and the
/// repository id (trimmed) with each `/` written `--`; none for an id without `/`.
pub open spec fn hf_cache_folder_of(repo_id: Seq<char>) -> Option<Seq<char>> {
    let repo = trimmed(repo_id);
    if !repo.contains('/') {
        None
    } else {
        Some("models--"@ + slashes_doubled(repo))
    }
}

/// `s` with every `/` replaced by `--`.
pub open spec fn slashes_doubled(s: Seq<char>) -> Seq<char>
    decreases s.len(),
{
    if s.len() == 0 {
        Seq::empty()
    } else if s.last() == '/' {
        slashes_doubled(s.drop_last()) + seq!['-', '-']
    } else {
        slashes_doubled(s.drop_last()).push(s.last())
    }
}

pub fn hf_cache_folder(repo_id: &str) -> (r: Option<String>)
    ensures
        match hf_cache_folder_of(repo_id@) {
            Some(f) => (r matches Some(x) && x@ == f),
            None => r is None,
        },
{
    let repo = chars_of(trim(repo_id).as_str());
    if !contains_char(&repo, '/') {
        return None;
    }
    let mut out = String::new();
    push_str(&mut out, "models--");
    let ghost start = out@;
    let mut i: usize = 0;
    while i < repo.len()
        invariant
            i <= repo.len(),
            out@ == start + slashes_doubled(repo@.take(i as int)),
        decreases repo.len() - i,
    {
        assert(repo@.take(i + 1).drop_last() =~= repo@.take(i as int));
        if repo[i] == '/' {
            push_char(&mut out, '-');
            push_char(&mut out, '-');
        } else {
            push_char(&mut out, repo[i]);
        }
        i += 1;
        assert(out@ =~= start + slashes_doubled(repo@.take(i as int)));
    }
    assert(repo@.take(repo.len() as int) =~= repo@);
    Some(out)
}

/// The name a file is downloaded under before it is complete: `.<name>.tmp`.
pub fn temp_file_name(name: &str) -> (r: String)
    ensures
        r@ == "."@ + name@ + ".tmp"@,
{
    let mut out = String::new();
    push_str(&mut out, ".");
    push_str(&mut out, name);
    push_str(&mut out, ".tmp");
    out
}

/// A planned file is already on disk when it exists with the size the listing gave, and the
/// listing gave one.
pub fn already_downloaded(exists: bool, planned_size: u64, on_disk: u64) -> (r: bool)
    ensures
        r == (exists && planned_size > 0 && on_disk == planned_size),
{
    exists && planned_size > 0 && on_disk == planned_size
}

/// Where a model's files come from.
#[derive(Debug, Clone, Copy, PartialEq, Eq, Structural)]
pub enum ModelSource {
    /// Files the user pointed at; nothing is downloaded.
    Local,
    /// Files fetched from a repository; complete once the ready marker is written.
    Remote,
}

/// A model can be loaded: its files are present, and for a downloaded model the download
/// finished (its ready marker is present).
pub fn model_ready(source: ModelSource, ready_marker_present: bool, files_present: bool) -> (r: bool)
    ensures
        r == match source {
            ModelSource::Local => files_present,
            ModelSource::Remote => ready_marker_present && files_present,
        },
{
    match source {
        ModelSource::Local => files_present,
        ModelSource::Remote => ready_marker_present && files_present,
    }
}

/// The weights a model loads: the named `.gguf` file, or, when the name is empty, whichever
/// its folder holds.
#[derive(Debug, Clone, PartialEq, Eq)]
pub enum ModelKind {
    Gguf { file: String },
}

/// The weights file a kind names (empty when it names none).
pub open spec fn named_file(kind: ModelKind) -> Seq<char> {
    match kind {
        ModelKind::Gguf { file } => file@,
    }
}

/// The file name of a relative path: what follows its last `/`.
pub open spec fn file_name_of(p: Seq<char>) -> Seq<char>
    decreases p.len(),
{
    if p.len() == 0 {
        p
    } else if p.last() == '/' {
        Seq::empty()
    } else {
        file_name_of(p.drop_last()).push(p.last())
    }
}

/// The paths among `files` whose file name is a weights file, in order.
pub open spec fn weight_paths(files: Seq<Seq<char>>) -> Seq<Seq<char>>
    decreases files.len(),
{
    if files.len() == 0 {
        Seq::empty()
    } else {
        let w = weight_paths(files.drop_last());
        if gguf_name(file_name_of(files.last())) {
            w.push(files.last())
        } else {
            w
        }
    }
}

/// `n` is one of `names`, and none of them comes before it.
pub open spec fn is_least_of(names: Seq<Seq<char>>, n: Seq<char>) -> bool {
    &&& exists|i: int| 0 <= i < names.len() && names[i] == n
    &&& forall|i: int| 0 <= i < names.len() ==> !lex_lt(names[i], n)
}

proof fn lemma_least_views(w: Seq<String>, n: Seq<char>)
    requires
        is_least_name(w, n),
    ensures
        is_least_of(strs(w), n),
{
    let i = choose|i: int| 0 <= i < w.len() && w[i]@ == n;
    assert(strs(w)[i] == w[i]@);
    assert forall|j: int| 0 <= j < strs(w).len() implies !lex_lt(strs(w)[j], n) by {
        assert(strs(w)[j] == w[j]@);
    }
}

/// Where the file name of `v` starts: just past its last `/`.
fn file_name_start(v: &Vec<char>) -> (k: usize)
    ensures
        k <= v.len(),
        v@.subrange(k as int, v.len() as int) == file_name_of(v@),
{
    let mut k: usize = 0;
    let mut j: usize = 0;
    assert(v@.take(0) =~= Seq::<char>::empty());
    while j < v.len()
        invariant
            k <= j <= v.len(),
            v@.subrange(k as int, j as int) == file_name_of(v@.take(j as int)),
        decreases v.len() - j,
    {
        assert(v@.take(j + 1).drop_last() =~= v@.take(j as int));
        if v[j] == '/' {
            k = j + 1;
            assert(v@.subrange(k as int, j + 1) =~= Seq::<char>::empty());
        } else {
            assert(v@.subrange(k as int, j + 1) =~= v@.subrange(k as int, j as int).push(v[j as int]));
        }
        j += 1;
    }
    assert(v@.take(v.len() as int) =~= v@);
    k
}

/// The paths among `files` whose file name is a weights file (see [`is_gguf_file`]), in
/// order.
pub fn weight_files(files: &Vec<String>) -> (w: Vec<String>)
    ensures
        strs(w@) == weight_paths(strs(files@)),
{
    let mut w: Vec<String> = Vec::new();
    let mut i: usize = 0;
    assert(strs(w@) =~= weight_paths(strs(files@).take(0)));
    while i < files.len()
        invariant
            i <= files.len(),
            strs(w@) == weight_paths(strs(files@).take(i as int)),
        decreases files.len() - i,
    {
        assert(strs(files@).take(i + 1).drop_last() =~= strs(files@).take(i as int));
        assert(strs(files@).take(i + 1).last() == files@[i as int]@);
        let v = chars_of(files[i].as_str());
        let k = file_name_start(&v);
        let name = string_of(&v, k, v.len());
        if is_gguf_file(name.as_str()) {
            let ghost before = strs(w@);
            w.push(files[i].clone());
            assert(strs(w@) =~= before.push(files@[i as int]@));
        }
        i += 1;
    }
    assert(strs(files@).take(files.len() as int) =~= strs(files@));
    w
}

/// A model's files are present: its named weights file (`named_file_present`), or, when it
/// names none, any weights file among the files of its folder (`files`, relative paths).
pub fn model_exists(kind: &ModelKind, named_file_present: bool, files: &Vec<String>) -> (r: bool)
    ensures
        r == if named_file(*kind).len() > 0 {
            named_file_present
        } else {
            weight_paths(strs(files@)).len() > 0
        },
{
    match kind {
        ModelKind::Gguf { file } => {
            if chars_of(file.as_str()).len() > 0 {
                named_file_present
            } else {
                weight_files(files).len() > 0
            }
        },
    }
}

/// The weights file to load, relative to the model's folder: the named file when it is there
/// (none when it is not); when the kind names none, the first in order of the weights files
/// among the folder's files (`files`, relative paths).
pub fn resolve_gguf_path(kind: &ModelKind, named_file_present: bool, files: &Vec<String>) -> (r: Option<String>)
    ensures
        named_file(*kind).len() > 0 ==> if named_file_present {
            r matches Some(p) && p@ == named_file(*kind)
        } else {
            r is None
        },
        named_file(*kind).len() == 0 ==> (weight_paths(strs(files@)).len() == 0 <==> r is None),
        named_file(*kind).len() == 0 ==> (r matches Some(p) ==> is_least_of(weight_paths(strs(files@)), p@)),
{
    match kind {
        ModelKind::Gguf { file } => {
            if chars_of(file.as_str()).len() > 0 {
                if named_file_present {
                    Some(file.clone())
                } else {
                    None
                }
            } else {
                let w = weight_files(files);
                let r = least_name(&w);
                proof {
                    if r is Some {
                        lemma_least_views(w@, r->0@);
                    }
                }
                r
            }
        },
    }
}

/// The kind of a folder of local weights, given its files (relative paths): the first in
/// order of its weights files, if it has any.
pub fn detect_local_kind(files: &Vec<String>) -> (r: Option<ModelKind>)
    ensures
        weight_paths(strs(files@)).len() == 0 <==> r is None,
        r matches Some(k) ==> is_least_of(weight_paths(strs(files@)), named_file(k)),
{
    let w = weight_files(files);
    match least_name(&w) {
        Some(file) => {
            proof {
                lemma_least_views(w@, file@);
            }
            Some(ModelKind::Gguf { file })
        },
        None => None,
    }
}

/// The position of the first snapshot that holds a weights file, if any.
pub open spec fn first_with_weights(snapshots: Seq<(String, Vec<String>)>) -> Option<int>
    decreases snapshots.len(),
{
    if snapshots.len() == 0 {
        None
    } else if weight_paths(strs(snapshots[0].1@)).len() > 0 {
        Some(0)
    } else {
        match first_with_weights(snapshots.drop_first()) {
            Some(i) => Some(i + 1),
            None => None,
        }
    }
}

/// The cached snapshot to load a repository's model from: among the snapshots found under
/// each cache folder in turn (each with its files, as relative paths), the first that holds a
/// weights file.
pub fn hf_cache_snapshot(snapshots: &Vec<(String, Vec<String>)>) -> (r: Option<String>)
    ensures
        match first_with_weights(snapshots@) {
            Some(i) => (r matches Some(p) && p@ == snapshots@[i].0@),
            None => r is None,
        },
{
    let mut i: usize = 0;
    assert(snapshots@.skip(0) =~= snapshots@);
    while i < snapshots.len()
        invariant
            i <= snapshots.len(),
            first_with_weights(snapshots@) == match first_with_weights(snapshots@.skip(i as int)) {
                Some(j) => Some(j + i),
                None => None,
            },
        decreases snapshots.len() - i,
    {
        assert(snapshots@.skip(i as int).drop_first() =~= snapshots@.skip(i + 1));
        if weight_files(&snapshots[i].1).len() > 0 {
            return Some(snapshots[i].0.clone());
        }
        i += 1;
    }
    assert(snapshots@.skip(i as int) =~= Seq::<(String, Vec<String>)>::empty());
    None
}

} // verus!
