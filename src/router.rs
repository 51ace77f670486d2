use vstd::prelude::*;

use crate::state::StringMap;
use crate::text::{chars_of, string_of};

verus! {

/// Values bound to the placeholders of a route pattern, by placeholder name.
pub type Params = StringMap<String>;

/// The texts of a map of strings.
pub open spec fn texts(m: Map<Seq<char>, String>) -> Map<Seq<char>, Seq<char>> {
    m.map_values(|s: String| s@)
}

/// `s` without its leading slashes.
pub open spec fn strip_leading(s: Seq<char>) -> Seq<char>
    decreases s.len(),
{
    if s.len() > 0 && s[0] == '/' {
        strip_leading(s.drop_first())
    } else {
        s
    }
}

/// The pieces of `s` between slashes; a text without slashes is one piece.
pub open spec fn split_on_slash(s: Seq<char>) -> Seq<Seq<char>>
    decreases s.len(),
{
    if s.len() == 0 {
        seq![Seq::<char>::empty()]
    } else {
        let rest = split_on_slash(s.drop_last());
        if s.last() == '/' {
            rest.push(Seq::<char>::empty())
        } else {
            rest.update(rest.len() - 1, rest.last().push(s.last()))
        }
    }
}

/// The segments of a path or pattern: split on `/` after the leading slashes.
pub open spec fn path_segments(s: Seq<char>) -> Seq<Seq<char>> {
    split_on_slash(strip_leading(s))
}

/// A pattern segment that starts with `:` is a placeholder.
pub open spec fn is_placeholder(t: Seq<char>) -> bool {
    t.len() > 0 && t[0] == ':'
}

/// The name a placeholder binds.
pub open spec fn placeholder_name(t: Seq<char>) -> Seq<char> {
    t.drop_first()
}

/// Whether pattern segment `t` accepts path segment `p`: a placeholder takes
/// any non-empty segment, a literal only itself.
pub open spec fn segment_accepts(t: Seq<char>, p: Seq<char>) -> bool {
    if is_placeholder(t) {
        p.len() > 0
    } else {
        t == p
    }
}

/// Whether the path segments `qs` match the pattern segments `ps`.
pub open spec fn segments_match(ps: Seq<Seq<char>>, qs: Seq<Seq<char>>) -> bool {
    ps.len() == qs.len() && forall|i: int| 0 <= i < ps.len() ==> segment_accepts(ps[i], qs[i])
}

/// The placeholders of `ps` bound to the matching segments of `qs`; a later
/// placeholder of the same name wins.
pub open spec fn bound_params(ps: Seq<Seq<char>>, qs: Seq<Seq<char>>) -> Map<Seq<char>, Seq<char>>
    decreases ps.len(),
{
    if ps.len() == 0 || qs.len() == 0 {
        Map::empty()
    } else {
        let m = bound_params(ps.drop_last(), qs.drop_last());
        if is_placeholder(ps.last()) {
            m.insert(placeholder_name(ps.last()), qs.last())
        } else {
            m
        }
    }
}

/// The names of the placeholders among `ps`.
pub open spec fn placeholder_names(ps: Seq<Seq<char>>) -> Set<Seq<char>> {
    Set::new(
        |n: Seq<char>|
            exists|i: int| 0 <= i < ps.len() && is_placeholder(ps[i]) && placeholder_name(ps[i]) == n,
    )
}

/// What matching `path` against `pattern` gives: the bound placeholders, or
/// nothing when the path does not match.
pub open spec fn match_result(pattern: Seq<char>, path: Seq<char>) -> Option<
    Map<Seq<char>, Seq<char>>,
> {
    let ps = path_segments(pattern);
    let qs = path_segments(path);
    if segments_match(ps, qs) {
        Some(bound_params(ps, qs))
    } else {
        None
    }
}

proof fn lemma_split_nonempty(s: Seq<char>)
    ensures
        split_on_slash(s).len() >= 1,
    decreases s.len(),
{
    if s.len() > 0 {
        lemma_split_nonempty(s.drop_last());
    }
}

proof fn lemma_strip_from(s: Seq<char>, k: int)
    requires
        0 <= k <= s.len(),
        forall|j: int| 0 <= j < k ==> s[j] == '/',
        k == s.len() || s[k] != '/',
    ensures
        strip_leading(s) == s.subrange(k, s.len() as int),
    decreases k,
{
    if k == 0 {
        assert(s.subrange(0, s.len() as int) =~= s);
    } else {
        let t = s.drop_first();
        lemma_strip_from(t, k - 1);
        assert(t.subrange(k - 1, t.len() as int) =~= s.subrange(k, s.len() as int));
    }
}

spec fn views(v: Seq<Vec<char>>) -> Seq<Seq<char>> {
    v.map_values(|x: Vec<char>| x@)
}

/// The segments of `s`, as characters.
fn segments_of(s: &str) -> (r: Vec<Vec<char>>)
    ensures
        views(r@) == path_segments(s@),
{
    let cs = chars_of(s);
    let n = cs.len();
    let mut k: usize = 0;
    while k < n && cs[k] == '/'
        invariant
            cs@ == s@,
            n == cs@.len(),
            k <= n,
            forall|j: int| 0 <= j < k ==> cs@[j] == '/',
        decreases n - k,
    {
        k = k + 1;
    }
    let ghost t = cs@.subrange(k as int, n as int);
    proof {
        lemma_strip_from(cs@, k as int);
    }
    let mut segs: Vec<Vec<char>> = Vec::new();
    let mut cur: Vec<char> = Vec::new();
    let mut i: usize = k;
    while i < n
        invariant
            cs@ == s@,
            n == cs@.len(),
            k <= i <= n,
            t == cs@.subrange(k as int, n as int),
            split_on_slash(t.take(i - k)) == views(segs@).push(cur@),
        decreases n - i,
    {
        let c = cs[i];
        proof {
            let u = t.take(i - k + 1);
            assert(u.drop_last() =~= t.take(i - k));
            assert(u.last() == c);
            lemma_split_nonempty(u.drop_last());
        }
        if c == '/' {
            let done = cur;
            cur = Vec::new();
            segs.push(done);
            assert(views(segs@).push(cur@) =~= split_on_slash(t.take(i - k + 1)));
        } else {
            cur.push(c);
            assert(views(segs@).push(cur@) =~= split_on_slash(t.take(i - k + 1)));
        }
        i = i + 1;
    }
    segs.push(cur);
    proof {
        assert(t.take(n - k) =~= t);
        assert(views(segs@) =~= split_on_slash(t));
    }
    segs
}

/// A segment of a compiled pattern.
#[derive(Debug)]
enum Segment {
    Literal(String),
    Param(String),
}

/// Whether a compiled segment stands for the pattern segment `t`.
spec fn compiled_from(seg: Segment, t: Seq<char>) -> bool {
    match seg {
        Segment::Literal(l) => !is_placeholder(t) && l@ == t,
        Segment::Param(n) => is_placeholder(t) && n@ == placeholder_name(t),
    }
}

/// A route pattern such as `/resources/:id/subpage`: literal segments and
/// `:name` placeholders.
#[derive(Debug)]
pub struct RoutePattern {
    pattern: String,
    segments: Vec<Segment>,
}

impl RoutePattern {
    #[verifier::type_invariant]
    spec fn compiled(&self) -> bool {
        let ps = path_segments(self.pattern@);
        self.segments@.len() == ps.len() && forall|i: int|
            0 <= i < ps.len() ==> compiled_from(#[trigger] self.segments@[i], ps[i])
    }

    /// The text of the pattern.
    pub closed spec fn text(&self) -> Seq<char> {
        self.pattern@
    }

    /// Compiles `pattern`.
    pub fn new(pattern: &str) -> (r: RoutePattern)
        ensures
            r.text() == pattern@,
    {
        let pieces = segments_of(pattern);
        let ghost ps = path_segments(pattern@);
        let mut segments: Vec<Segment> = Vec::new();
        let mut i: usize = 0;
        while i < pieces.len()
            invariant
                views(pieces@) == ps,
                i <= pieces@.len(),
                segments@.len() == i,
                forall|j: int| 0 <= j < i ==> compiled_from(#[trigger] segments@[j], ps[j]),
            decreases pieces@.len() - i,
        {
            let piece = &pieces[i];
            assert(piece@ == ps[i as int]);
            let text = string_of(piece);
            if piece.len() > 0 && piece[0] == ':' {
                let len = piece.len();
                let name = text.as_str().substring_char(1, len).to_owned();
                assert(name@ =~= placeholder_name(ps[i as int]));
                segments.push(Segment::Param(name));
            } else {
                segments.push(Segment::Literal(text));
            }
            i = i + 1;
        }
        RoutePattern { pattern: pattern.to_owned(), segments }
    }

    /// Matches `path` against this pattern: the placeholders bound to their
    /// segments when every segment matches, else `None`.
    pub fn matches(&self, path: &str) -> (r: Option<Params>)
        ensures
            match match_result(self.text(), path@) {
                Some(m) => r is Some && texts(r->0@) == m,
                None => r is None,
            },
    {
        proof {
            use_type_invariant(self);
        }
        let ghost ps = path_segments(self.pattern@);
        let pieces = segments_of(path);
        let ghost qs = path_segments(path@);
        if pieces.len() != self.segments.len() {
            return None;
        }
        let mut params: Params = StringMap::new();
        assert(texts(params@) =~= Map::empty());
        let mut i: usize = 0;
        while i < pieces.len()
            invariant
                views(pieces@) == qs,
                ps == path_segments(self.pattern@),
                qs == path_segments(path@),
                ps.len() == qs.len(),
                pieces@.len() == self.segments@.len(),
                self.segments@.len() == ps.len(),
                forall|j: int| 0 <= j < ps.len() ==> compiled_from(#[trigger] self.segments@[j], ps[j]),
                i <= qs.len(),
                forall|j: int| 0 <= j < i ==> segment_accepts(ps[j], qs[j]),
                texts(params@) == bound_params(ps.take(i as int), qs.take(i as int)),
            decreases qs.len() - i,
        {
            let piece = string_of(&pieces[i]);
            assert(piece@ == qs[i as int]);
            assert(compiled_from(self.segments@[i as int], ps[i as int]));
            proof {
                assert(ps.take(i + 1).drop_last() =~= ps.take(i as int));
                assert(qs.take(i + 1).drop_last() =~= qs.take(i as int));
            }
            match &self.segments[i] {
                Segment::Literal(lit) => {
                    if !(*lit == piece) {
                        assert(!segment_accepts(ps[i as int], qs[i as int]));
                        assert(!segments_match(ps, qs));
                        return None;
                    }
                },
                Segment::Param(name) => {
                    if pieces[i].len() == 0 {
                        assert(!segment_accepts(ps[i as int], qs[i as int]));
                        assert(!segments_match(ps, qs));
                        return None;
                    }
                    let ghost before = params@;
                    params.insert(name.clone(), piece);
                    assert(texts(params@) =~= texts(before).insert(name@, qs[i as int]));
                },
            }
            i = i + 1;
        }
        proof {
            assert(ps.take(ps.len() as int) =~= ps);
            assert(qs.take(qs.len() as int) =~= qs);
        }
        Some(params)
    }

    /// The text of the pattern.
    pub fn pattern(&self) -> (r: &str)
        ensures
            r@ == self.text(),
    {
        self.pattern.as_str()
    }
}

/// The placeholders bound by a match are exactly the placeholder names of the
/// pattern.
proof fn lemma_bound_names(ps: Seq<Seq<char>>, qs: Seq<Seq<char>>)
    requires
        ps.len() == qs.len(),
    ensures
        bound_params(ps, qs).dom() == placeholder_names(ps),
    decreases ps.len(),
{
    if ps.len() > 0 {
        let pd = ps.drop_last();
        lemma_bound_names(pd, qs.drop_last());
        assert forall|n: Seq<char>| placeholder_names(ps).contains(n) <==> bound_params(ps, qs).dom().contains(n) by {
            if placeholder_names(ps).contains(n) {
                let i = choose|i: int| 0 <= i < ps.len() && is_placeholder(ps[i]) && placeholder_name(ps[i]) == n;
                if i < ps.len() - 1 {
                    assert(pd[i] == ps[i]);
                    assert(placeholder_names(pd).contains(n));
                }
            }
            if placeholder_names(pd).contains(n) {
                let i = choose|i: int| 0 <= i < pd.len() && is_placeholder(pd[i]) && placeholder_name(pd[i]) == n;
                assert(ps[i] == pd[i]);
            }
        }
        assert(bound_params(ps, qs).dom() =~= placeholder_names(ps));
    }
}

/// When a path matches a pattern, the bound parameters are exactly the
/// placeholder names of the pattern, each literal segment of the pattern equals
/// the path's segment at its place, and each placeholder takes a non-empty
/// segment.
pub proof fn lemma_match_binds_placeholders(pattern: Seq<char>, path: Seq<char>)
    requires
        match_result(pattern, path) is Some,
    ensures
        match_result(pattern, path)->0.dom() == placeholder_names(path_segments(pattern)),
        path_segments(pattern).len() == path_segments(path).len(),
        forall|i: int|
            0 <= i < path_segments(pattern).len() && !is_placeholder(path_segments(pattern)[i])
                ==> path_segments(pattern)[i] == path_segments(path)[i],
        forall|i: int|
            0 <= i < path_segments(pattern).len() && is_placeholder(path_segments(pattern)[i])
                ==> path_segments(path)[i].len() > 0,
{
    let ps = path_segments(pattern);
    let qs = path_segments(path);
    lemma_bound_names(ps, qs);
    assert forall|i: int| 0 <= i < ps.len() && !is_placeholder(ps[i]) implies ps[i] == qs[i] by {
        assert(segment_accepts(ps[i], qs[i]));
    }
    assert forall|i: int| 0 <= i < ps.len() && is_placeholder(ps[i]) implies qs[i].len() > 0 by {
        assert(segment_accepts(ps[i], qs[i]));
    }
}

} // verus!
