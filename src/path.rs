//! Resolution of a requested path against a root directory.
//!
//! Requested segments are split on `/`; `.` and empty pieces are dropped,
//! `..` removes the last kept component (never going above the start), and
//! every other piece is kept. The result is joined onto the root.
use vstd::prelude::*;
use vstd::string::*;

verus! {

/// The views of a sequence of strings.
pub open spec fn views(v: Seq<String>) -> Seq<Seq<char>> {
    v.map_values(|s: String| s@)
}

/// The pieces of `s` between `/` separators, empty pieces included.
pub open spec fn split_slash(s: Seq<char>) -> Seq<Seq<char>>
    decreases s.len(),
{
    if s.len() == 0 {
        seq![Seq::empty()]
    } else {
        let p = split_slash(s.drop_last());
        if s.last() == '/' {
            p.push(Seq::empty())
        } else {
            p.update(p.len() - 1, p.last().push(s.last()))
        }
    }
}

pub open spec fn is_parent(piece: Seq<char>) -> bool {
    piece.len() == 2 && piece[0] == '.' && piece[1] == '.'
}

pub open spec fn is_current(piece: Seq<char>) -> bool {
    piece.len() == 1 && piece[0] == '.'
}

/// A component that names an entry: not empty, not `.` or `..`, no separator.
pub open spec fn is_normal(c: Seq<char>) -> bool {
    &&& c.len() > 0
    &&& !is_current(c)
    &&& !is_parent(c)
    &&& !c.contains('/')
}

/// What one piece does to the components kept so far.
pub open spec fn step(acc: Seq<Seq<char>>, piece: Seq<char>) -> Seq<Seq<char>> {
    if is_parent(piece) {
        if acc.len() == 0 {
            acc
        } else {
            acc.drop_last()
        }
    } else if piece.len() == 0 || is_current(piece) {
        acc
    } else {
        acc.push(piece)
    }
}

pub open spec fn fold_pieces(acc: Seq<Seq<char>>, pieces: Seq<Seq<char>>) -> Seq<Seq<char>>
    decreases pieces.len(),
{
    if pieces.len() == 0 {
        acc
    } else {
        step(fold_pieces(acc, pieces.drop_last()), pieces.last())
    }
}

/// The normalized components of the requested segments.
pub open spec fn normalize_parts(parts: Seq<Seq<char>>) -> Seq<Seq<char>>
    decreases parts.len(),
{
    if parts.len() == 0 {
        Seq::empty()
    } else {
        fold_pieces(normalize_parts(parts.drop_last()), split_slash(parts.last()))
    }
}

/// `base` with one more component, a separator put between them where needed.
pub open spec fn push_component(base: Seq<char>, c: Seq<char>) -> Seq<char> {
    if base.len() == 0 || base.last() == '/' {
        base + c
    } else {
        base + seq!['/'] + c
    }
}

pub open spec fn join_all(base: Seq<char>, comps: Seq<Seq<char>>) -> Seq<char>
    decreases comps.len(),
{
    if comps.len() == 0 {
        base
    } else {
        push_component(join_all(base, comps.drop_last()), comps.last())
    }
}

/// The path that a request for `parts` under `root` resolves to.
pub open spec fn resolve(root: Seq<char>, parts: Seq<Seq<char>>) -> Seq<char> {
    join_all(root, normalize_parts(parts))
}

proof fn lemma_split_nonempty(s: Seq<char>)
    ensures
        split_slash(s).len() >= 1,
    decreases s.len(),
{
    if s.len() > 0 {
        lemma_split_nonempty(s.drop_last());
    }
}

proof fn lemma_split_no_slash(s: Seq<char>)
    ensures
        forall|k: int| 0 <= k < split_slash(s).len() ==> !(#[trigger] split_slash(s)[k]).contains('/'),
    decreases s.len(),
{
    if s.len() > 0 {
        let p = split_slash(s.drop_last());
        lemma_split_no_slash(s.drop_last());
        lemma_split_nonempty(s.drop_last());
        if s.last() != '/' {
            let last = p.last().push(s.last());
            assert forall|k: int| 0 <= k < split_slash(s).len() implies !(
            #[trigger] split_slash(s)[k]).contains('/') by {
                if k == p.len() - 1 {
                    if last.contains('/') {
                        let w = choose|w: int| 0 <= w < last.len() && last[w] == '/';
                        assert(p.last()[w] == '/');
                    }
                } else {
                    assert(split_slash(s)[k] == p[k]);
                }
            }
        } else {
            assert forall|k: int| 0 <= k < split_slash(s).len() implies !(
            #[trigger] split_slash(s)[k]).contains('/') by {
                if k < p.len() {
                    assert(split_slash(s)[k] == p[k]);
                }
            }
        }
    }
}

proof fn lemma_split_whole(s: Seq<char>)
    requires
        !s.contains('/'),
    ensures
        split_slash(s) == seq![s],
    decreases s.len(),
{
    if s.len() > 0 {
        assert(s.last() != '/') by {
            assert(s[s.len() - 1] == s.last());
        }
        assert(!s.drop_last().contains('/')) by {
            if s.drop_last().contains('/') {
                let w = choose|w: int| 0 <= w < s.drop_last().len() && s.drop_last()[w] == '/';
                assert(s[w] == '/');
            }
        }
        lemma_split_whole(s.drop_last());
        assert(s.drop_last().push(s.last()) =~= s);
        assert(seq![s.drop_last()].update(0, s) =~= seq![s]);
    } else {
        assert(s =~= Seq::<char>::empty());
    }
}

proof fn lemma_fold_normal(acc: Seq<Seq<char>>, pieces: Seq<Seq<char>>)
    requires
        forall|k: int| 0 <= k < acc.len() ==> is_normal(#[trigger] acc[k]),
        forall|k: int| 0 <= k < pieces.len() ==> !(#[trigger] pieces[k]).contains('/'),
    ensures
        forall|k: int|
            0 <= k < fold_pieces(acc, pieces).len() ==> is_normal(
                #[trigger] fold_pieces(acc, pieces)[k],
            ),
    decreases pieces.len(),
{
    if pieces.len() > 0 {
        let d = pieces.drop_last();
        assert forall|k: int| 0 <= k < d.len() implies !(#[trigger] d[k]).contains('/') by {
            assert(d[k] == pieces[k]);
        }
        lemma_fold_normal(acc, d);
        let prev = fold_pieces(acc, d);
        let piece = pieces.last();
        assert(!piece.contains('/')) by {
            assert(pieces[pieces.len() - 1] == piece);
        }
        let next = fold_pieces(acc, pieces);
        assert forall|k: int| 0 <= k < next.len() implies is_normal(#[trigger] next[k]) by {
            if k < prev.len() {
                assert(next[k] == prev[k]);
            }
        }
    }
}

proof fn lemma_normalize_normal(parts: Seq<Seq<char>>)
    ensures
        forall|k: int|
            0 <= k < normalize_parts(parts).len() ==> is_normal(
                #[trigger] normalize_parts(parts)[k],
            ),
    decreases parts.len(),
{
    if parts.len() > 0 {
        lemma_normalize_normal(parts.drop_last());
        lemma_split_no_slash(parts.last());
        lemma_fold_normal(normalize_parts(parts.drop_last()), split_slash(parts.last()));
    }
}

proof fn lemma_join_prefix(base: Seq<char>, comps: Seq<Seq<char>>)
    ensures
        base.is_prefix_of(join_all(base, comps)),
    decreases comps.len(),
{
    if comps.len() > 0 {
        lemma_join_prefix(base, comps.drop_last());
        let prev = join_all(base, comps.drop_last());
        let next = join_all(base, comps);
        assert(prev.is_prefix_of(next)) by {
            assert forall|k: int| 0 <= k < prev.len() implies prev[k] == next[k] by {}
        }
    }
}

/// A request can never climb above the root: whatever `..` pieces it holds,
/// every resolved component names an entry (it is not empty, `.` or `..`, and
/// holds no separator), and the resolved path begins with the root.
pub proof fn lemma_traversal_safe(root: Seq<char>, parts: Seq<Seq<char>>)
    ensures
        forall|k: int|
            0 <= k < normalize_parts(parts).len() ==> is_normal(
                #[trigger] normalize_parts(parts)[k],
            ),
        root.is_prefix_of(resolve(root, parts)),
{
    lemma_normalize_normal(parts);
    lemma_join_prefix(root, normalize_parts(parts));
}

proof fn lemma_normal_fixed(q: Seq<Seq<char>>)
    requires
        forall|k: int| 0 <= k < q.len() ==> is_normal(#[trigger] q[k]),
    ensures
        normalize_parts(q) == q,
    decreases q.len(),
{
    if q.len() > 0 {
        let d = q.drop_last();
        assert forall|k: int| 0 <= k < d.len() implies is_normal(#[trigger] d[k]) by {
            assert(d[k] == q[k]);
        }
        lemma_normal_fixed(d);
        let c = q.last();
        assert(is_normal(c)) by {
            assert(q[q.len() - 1] == c);
        }
        lemma_split_whole(c);
        assert(seq![c].drop_last() =~= Seq::<Seq<char>>::empty());
        assert(fold_pieces(d, Seq::<Seq<char>>::empty()) == d);
        assert(seq![c].last() == c);
        assert(fold_pieces(d, seq![c]) == step(d, c));
        assert(d.push(c) =~= q);
    } else {
        assert(q =~= Seq::<Seq<char>>::empty());
    }
}

/// Normalizing an already normalized path changes nothing.
pub proof fn lemma_normalize_idempotent(parts: Seq<Seq<char>>)
    ensures
        normalize_parts(normalize_parts(parts)) == normalize_parts(parts),
{
    lemma_normalize_normal(parts);
    lemma_normal_fixed(normalize_parts(parts));
}

/// Applies the piece `part[start..end]` to the kept components.
fn apply_piece(acc: &mut Vec<String>, part: &str, start: usize, end: usize)
    requires
        start <= end <= part@.len(),
    ensures
        views(final(acc)@) == step(views(old(acc)@), part@.subrange(start as int, end as int)),
{
    let ghost piece = part@.subrange(start as int, end as int);
    let len = end - start;
    let dot_dot = len == 2 && part.get_char(start) == '.' && part.get_char(start + 1) == '.';
    let dot = len == 1 && part.get_char(start) == '.';
    assert(len >= 1 ==> piece[0] == part@[start as int]);
    assert(len >= 2 ==> piece[1] == part@[start + 1]);
    if dot_dot {
        if acc.len() > 0 {
            acc.pop();
            assert(views(acc@) =~= views(old(acc)@).drop_last());
        }
    } else if len == 0 || dot {
    } else {
        let s = part.substring_char(start, end).to_owned();
        acc.push(s);
        assert(views(acc@) =~= views(old(acc)@).push(piece));
    }
}

/// Normalizes one segment onto the components kept so far.
fn normalize_part(acc: &mut Vec<String>, part: &str)
    ensures
        views(final(acc)@) == fold_pieces(views(old(acc)@), split_slash(part@)),
{
    let n = part.unicode_len();
    let mut start: usize = 0;
    let mut j: usize = 0;
    while j < n
        invariant
            n == part@.len(),
            start <= j <= n,
            split_slash(part@.take(j as int)).len() >= 1,
            split_slash(part@.take(j as int)).last() == part@.subrange(start as int, j as int),
            views(acc@) == fold_pieces(
                views(old(acc)@),
                split_slash(part@.take(j as int)).drop_last(),
            ),
        decreases n - j,
    {
        let ghost prev = split_slash(part@.take(j as int));
        let c = part.get_char(j);
        assert(part@.take(j as int + 1).drop_last() =~= part@.take(j as int));
        if c == '/' {
            apply_piece(acc, part, start, j);
            let ghost next = split_slash(part@.take(j as int + 1));
            assert(next == prev.push(Seq::empty()));
            assert(next.drop_last() =~= prev);
            assert(prev =~= prev.drop_last().push(prev.last()));
            j = j + 1;
            start = j;
            assert(part@.subrange(start as int, j as int) =~= Seq::<char>::empty());
        } else {
            j = j + 1;
            let ghost next = split_slash(part@.take(j as int));
            assert(next == prev.update(prev.len() - 1, prev.last().push(c)));
            assert(next.drop_last() =~= prev.drop_last());
            assert(part@.subrange(start as int, j as int) =~= part@.subrange(
                start as int,
                j - 1,
            ).push(c));
        }
    }
    assert(part@.take(n as int) =~= part@);
    let ghost all = split_slash(part@);
    apply_piece(acc, part, start, n);
    assert(all =~= all.drop_last().push(all.last()));
}

/// The normalized components of the requested segments: every `..` removes
/// the component before it and can never climb above the start.
pub fn normalize_path(parts: &Vec<String>) -> (r: Vec<String>)
    ensures
        views(r@) == normalize_parts(views(parts@)),
{
    let mut acc: Vec<String> = Vec::new();
    let mut i: usize = 0;
    while i < parts.len()
        invariant
            i <= parts.len(),
            views(acc@) == normalize_parts(views(parts@.take(i as int))),
        decreases parts.len() - i,
    {
        normalize_part(&mut acc, parts[i].as_str());
        assert(views(parts@.take(i as int + 1)).drop_last() =~= views(parts@.take(i as int)));
        i = i + 1;
    }
    assert(parts@.take(i as int) =~= parts@);
    acc
}

/// Appends each component to `root`, with a separator where `root` or the
/// previous component does not end in one.
pub fn join_path(root: &str, comps: &Vec<String>) -> (r: String)
    ensures
        r@ == join_all(root@, views(comps@)),
{
    let mut res = root.to_owned();
    let mut i: usize = 0;
    while i < comps.len()
        invariant
            i <= comps.len(),
            res@ == join_all(root@, views(comps@.take(i as int))),
        decreases comps.len() - i,
    {
        let ghost before = res@;
        let n = res.as_str().unicode_len();
        if n > 0 && res.as_str().get_char(n - 1) != '/' {
            res.append("/");
            assert(res@ =~= before + seq!['/']) by {
                reveal_strlit("/");
            }
        }
        res.append(comps[i].as_str());
        assert(res@ == push_component(before, comps@[i as int]@));
        assert(views(comps@.take(i as int + 1)).drop_last() =~= views(comps@.take(i as int)));
        i = i + 1;
    }
    assert(comps@.take(i as int) =~= comps@);
    res
}

} // verus!
