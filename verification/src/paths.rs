//! The path-decomposition model: a path fragment is split into its non-empty
//! `/`-separated segments, and its expansion is the fragment itself followed
//! by every enclosing directory prefix, each with a trailing slash.

use vstd::prelude::*;

verus! {

/// The pieces of `s` between `/` separators, empty pieces included; this is
/// the shape of splitting on a separator, so the empty string yields one
/// empty piece.
pub open spec fn split_parts(s: Seq<char>) -> Seq<Seq<char>>
    decreases s.len(),
{
    if s.len() == 0 {
        seq![Seq::<char>::empty()]
    } else if s.last() == '/' {
        split_parts(s.drop_last()).push(Seq::<char>::empty())
    } else {
        let p = split_parts(s.drop_last());
        p.update(p.len() - 1, p.last().push(s.last()))
    }
}

/// The elements of `parts` that are non-empty, in order.
pub open spec fn keep_nonempty(parts: Seq<Seq<char>>) -> Seq<Seq<char>>
    decreases parts.len(),
{
    if parts.len() == 0 {
        Seq::<Seq<char>>::empty()
    } else if parts.last().len() != 0 {
        keep_nonempty(parts.drop_last()).push(parts.last())
    } else {
        keep_nonempty(parts.drop_last())
    }
}

/// The non-empty `/`-separated segments of a path.
pub open spec fn segments_of(s: Seq<char>) -> Seq<Seq<char>> {
    keep_nonempty(split_parts(s))
}

/// Segments rejoined with a single `/` between each pair.
pub open spec fn join_segments(parts: Seq<Seq<char>>) -> Seq<char>
    decreases parts.len(),
{
    if parts.len() == 0 {
        Seq::<char>::empty()
    } else if parts.len() == 1 {
        parts[0]
    } else {
        join_segments(parts.drop_last()) + seq!['/'] + parts.last()
    }
}

/// Entry `i` of the expansion of `s`: the first `len - i` segments rejoined,
/// slash-terminated whenever the entry denotes an enclosing directory
/// (`i > 0`) rather than the original fragment itself (`i == 0`).
pub open spec fn expansion(s: Seq<char>) -> Seq<Seq<char>> {
    let segs = segments_of(s);
    Seq::new(
        segs.len(),
        |i: int|
            {
                let joined = join_segments(segs.take(segs.len() - i));
                if i == 0 {
                    joined
                } else {
                    joined + seq!['/']
                }
            },
    )
}

pub proof fn lemma_split_parts_len(s: Seq<char>)
    ensures
        split_parts(s).len() >= 1,
    decreases s.len(),
{
    if s.len() != 0 {
        lemma_split_parts_len(s.drop_last());
    }
}

/// Every segment produced by `keep_nonempty` is non-empty.
pub proof fn lemma_keep_nonempty_nonempty(parts: Seq<Seq<char>>)
    ensures
        forall|i: int|
            0 <= i < keep_nonempty(parts).len() ==> #[trigger] keep_nonempty(parts)[i].len() != 0,
    decreases parts.len(),
{
    if parts.len() != 0 {
        lemma_keep_nonempty_nonempty(parts.drop_last());
        let kn = keep_nonempty(parts);
        let prev = keep_nonempty(parts.drop_last());
        assert forall|i: int| 0 <= i < kn.len() implies #[trigger] kn[i].len() != 0 by {
            if parts.last().len() != 0 {
                assert(kn == prev.push(parts.last()));
                if i < prev.len() {
                    assert(kn[i] == prev[i]);
                }
            } else {
                assert(kn == prev);
            }
        }
    }
}

/// No piece produced by splitting on `/` contains a `/` itself.
pub proof fn lemma_split_parts_no_slash(s: Seq<char>)
    ensures
        forall|i: int, j: int|
            0 <= i < split_parts(s).len() && 0 <= j < split_parts(s)[i].len()
                ==> #[trigger] split_parts(s)[i][j] != '/',
    decreases s.len(),
{
    if s.len() != 0 {
        lemma_split_parts_no_slash(s.drop_last());
        lemma_split_parts_len(s.drop_last());
    }
}

/// `keep_nonempty` only keeps pieces that were already there, so slash-free
/// pieces stay slash-free.
pub proof fn lemma_keep_nonempty_no_slash(parts: Seq<Seq<char>>)
    requires
        forall|i: int, j: int|
            0 <= i < parts.len() && 0 <= j < parts[i].len() ==> #[trigger] parts[i][j] != '/',
    ensures
        forall|i: int, j: int|
            0 <= i < keep_nonempty(parts).len() && 0 <= j < keep_nonempty(parts)[i].len()
                ==> #[trigger] keep_nonempty(parts)[i][j] != '/',
    decreases parts.len(),
{
    if parts.len() != 0 {
        assert forall|i: int, j: int|
            0 <= i < parts.drop_last().len() && 0 <= j < parts.drop_last()[i].len() implies #[trigger] parts.drop_last()[i][j]
            != '/' by {
            assert(parts.drop_last()[i] == parts[i]);
            assert(parts[i][j] != '/');
        }
        lemma_keep_nonempty_no_slash(parts.drop_last());
        let kn = keep_nonempty(parts);
        let prev = keep_nonempty(parts.drop_last());
        assert forall|i: int, j: int|
            0 <= i < kn.len() && 0 <= j < kn[i].len() implies #[trigger] kn[i][j] != '/' by {
            if parts.last().len() != 0 {
                assert(kn == prev.push(parts.last()));
                if i < prev.len() {
                    assert(kn[i] == prev[i]);
                    assert(prev[i][j] != '/');
                } else {
                    assert(kn[i] == parts.last());
                    assert(parts[parts.len() - 1][j] != '/');
                }
            } else {
                assert(kn == prev);
                assert(prev[i][j] != '/');
            }
        }
    }
}

/// Extending the split string by one character that is a slash closes the
/// pending piece; by any other character it grows the pending piece.
pub proof fn lemma_split_parts_step(s: Seq<char>, i: int)
    requires
        0 <= i < s.len(),
    ensures
        s[i] == '/' ==> split_parts(s.take(i + 1)) == split_parts(s.take(i)).push(
            Seq::<char>::empty(),
        ),
        s[i] != '/' ==> split_parts(s.take(i + 1)) == split_parts(s.take(i)).update(
            split_parts(s.take(i)).len() - 1,
            split_parts(s.take(i)).last().push(s[i]),
        ),
{
    let t = s.take(i + 1);
    assert(t.len() == i + 1);
    assert(t.last() == s[i]);
    assert(t.drop_last() =~= s.take(i));
    lemma_split_parts_len(s.take(i));
}

/// Joining one more segment appends a separator and the segment.
pub proof fn lemma_join_segments_take(parts: Seq<Seq<char>>, k: int)
    requires
        0 <= k < parts.len(),
    ensures
        k == 0 ==> join_segments(parts.take(1)) == parts[0],
        k > 0 ==> join_segments(parts.take(k + 1)) == join_segments(parts.take(k)) + seq!['/']
            + parts[k],
{
    let t = parts.take(k + 1);
    assert(t.len() == k + 1);
    assert(t.last() == parts[k]);
    assert(t.drop_last() =~= parts.take(k));
    if k == 0 {
        assert(t[0] == parts[0]);
    }
}

/// The rejoined segments of a prefix are a proper prefix of the rejoined
/// segments of a longer prefix, provided every segment is non-empty.
pub proof fn lemma_join_take_prefix(parts: Seq<Seq<char>>, k: int, m: int)
    requires
        0 <= k < m <= parts.len(),
        1 <= k,
        forall|i: int| 0 <= i < parts.len() ==> #[trigger] parts[i].len() != 0,
    ensures
        (join_segments(parts.take(k)) + seq!['/']).len() <= join_segments(parts.take(m)).len(),
        join_segments(parts.take(m)).take((join_segments(parts.take(k)) + seq!['/']).len() as int)
            == join_segments(parts.take(k)) + seq!['/'],
    decreases m - k,
{
    let jk = join_segments(parts.take(k)) + seq!['/'];
    if m == k + 1 {
        lemma_join_segments_take(parts, k);
        let jm = join_segments(parts.take(m));
        assert(jm == join_segments(parts.take(k)) + seq!['/'] + parts[k]);
        assert(parts[k].len() != 0);
        assert(jm.take(jk.len() as int) =~= jk);
    } else {
        lemma_join_take_prefix(parts, k, m - 1);
        lemma_join_segments_take(parts, m - 1);
        let jp = join_segments(parts.take(m - 1));
        let jm = join_segments(parts.take(m));
        assert(jm == jp + seq!['/'] + parts[m - 1]);
        assert(jm.take(jk.len() as int) =~= jp.take(jk.len() as int));
    }
}

/// The shape of an expansion: as many entries as the fragment has non-empty
/// segments; the first is the rejoined fragment; every later entry is
/// slash-terminated; and the entries shrink strictly, each being a prefix of
/// every entry before it.
pub proof fn lemma_expansion_structure(s: Seq<char>)
    ensures
        expansion(s).len() == segments_of(s).len(),
        expansion(s).len() > 0 ==> expansion(s)[0] == join_segments(segments_of(s)),
        forall|i: int|
            1 <= i < expansion(s).len() ==> #[trigger] expansion(s)[i].len() > 0 && expansion(
                s,
            )[i].last() == '/',
        forall|i: int, j: int|
            0 <= i < j < expansion(s).len() ==> #[trigger] expansion(s)[j].len()
                < #[trigger] expansion(s)[i].len() && expansion(s)[i].take(
                expansion(s)[j].len() as int,
            ) == expansion(s)[j],
{
    let segs = segments_of(s);
    let n = segs.len() as int;
    lemma_keep_nonempty_nonempty(split_parts(s));
    if n > 0 {
        assert(segs.take(n) =~= segs);
    }
    assert forall|i: int| 1 <= i < expansion(s).len() implies #[trigger] expansion(s)[i].len() > 0
        && expansion(s)[i].last() == '/' by {
        let joined = join_segments(segs.take(n - i));
        assert(expansion(s)[i] == joined + seq!['/']);
        assert((joined + seq!['/']).last() == '/');
    }
    assert forall|i: int, j: int| 0 <= i < j < expansion(s).len() implies #[trigger] expansion(
        s,
    )[j].len() < #[trigger] expansion(s)[i].len() && expansion(s)[i].take(
        expansion(s)[j].len() as int,
    ) == expansion(s)[j] by {
        lemma_expansion_pair(s, i, j);
    }
}

proof fn lemma_expansion_pair(s: Seq<char>, i: int, j: int)
    requires
        0 <= i < j < expansion(s).len(),
    ensures
        expansion(s)[j].len() < expansion(s)[i].len(),
        expansion(s)[i].take(expansion(s)[j].len() as int) == expansion(s)[j],
{
    let segs = segments_of(s);
    let n = segs.len() as int;
    lemma_keep_nonempty_nonempty(split_parts(s));
    let k = n - j;
    let m = n - i;
    assert(1 <= k < m <= n);
    lemma_join_take_prefix(segs, k, m);
    let ej = join_segments(segs.take(k)) + seq!['/'];
    let jm = join_segments(segs.take(m));
    assert(expansion(s)[j] == ej);
    if i == 0 {
        assert(segs.take(n) =~= segs);
        assert(expansion(s)[i] == jm);
        assert(jm.take(ej.len() as int) == ej);
        assert(ej.len() < jm.len() || ej == jm) by {
            assert(jm.take(ej.len() as int).len() == if ej.len() <= jm.len() {
                ej.len()
            } else {
                jm.len()
            });
        }
        if ej.len() == jm.len() {
            // ej ends in '/' while jm ends in the last character of the
            // (non-empty, slash-free) segment m - 1: the two cannot coincide.
            assert(jm.take(ej.len() as int) =~= jm);
            lemma_split_parts_no_slash(s);
            lemma_keep_nonempty_no_slash(split_parts(s));
            lemma_last_not_slash(segs, m);
            assert(jm.last() == segs[m - 1].last());
            assert(segs[m - 1][segs[m - 1].len() - 1] != '/');
            assert(ej.last() == '/');
            assert(false);
        }
    } else {
        assert(expansion(s)[i] == jm + seq!['/']);
        assert((jm + seq!['/']).take(ej.len() as int) =~= jm.take(ej.len() as int));
        assert(ej.len() <= jm.len());
        assert(ej.len() < (jm + seq!['/']).len());
    }
}

/// Rejoined non-empty segments end in the last character of the last segment.
proof fn lemma_last_not_slash(parts: Seq<Seq<char>>, m: int)
    requires
        1 <= m <= parts.len(),
        forall|i: int| 0 <= i < parts.len() ==> #[trigger] parts[i].len() != 0,
    ensures
        join_segments(parts.take(m)).len() > 0,
        join_segments(parts.take(m)).last() == parts[m - 1].last(),
{
    lemma_join_segments_take(parts, m - 1);
    if m == 1 {
        assert(join_segments(parts.take(1)) == parts[0]);
    } else {
        let jm = join_segments(parts.take(m));
        assert(jm == join_segments(parts.take(m - 1)) + seq!['/'] + parts[m - 1]);
        assert(jm.last() == parts[m - 1].last());
    }
}

/// Split `path` into its non-empty `/`-separated segments.
pub(crate) fn split_segments<'a>(path: &'a str) -> (segs: Vec<&'a str>)
    ensures
        segs.deep_view() == segments_of(path@),
{
    let n = path.unicode_len();
    let mut segs: Vec<&'a str> = Vec::new();
    let mut start: usize = 0;
    let mut i: usize = 0;
    while i < n
        invariant
            n == path@.len(),
            start <= i <= n,
            split_parts(path@.take(i as int)).last() =~= path@.subrange(start as int, i as int),
            segs.deep_view() =~= keep_nonempty(split_parts(path@.take(i as int)).drop_last()),
        decreases n - i,
    {
        let ghost p_i = split_parts(path@.take(i as int));
        proof {
            lemma_split_parts_step(path@, i as int);
            lemma_split_parts_len(path@.take(i as int));
        }
        let c = path.get_char(i);
        if c == '/' {
            let ghost old_dv = segs.deep_view();
            if start < i {
                let seg = path.substring_char(start, i);
                segs.push(seg);
                proof {
                    assert(segs.deep_view() =~= old_dv.push(seg@));
                }
            }
            proof {
                let p_next = split_parts(path@.take(i as int + 1));
                assert(p_next == p_i.push(Seq::<char>::empty()));
                assert(p_next.drop_last() =~= p_i);
                assert(p_next.last() =~= path@.subrange(i as int + 1, i as int + 1));
                assert(p_i.drop_last() == p_next.drop_last().drop_last());
                if p_i.last().len() != 0 {
                    assert(keep_nonempty(p_i) == keep_nonempty(p_i.drop_last()).push(p_i.last()));
                } else {
                    assert(keep_nonempty(p_i) == keep_nonempty(p_i.drop_last()));
                }
            }
            start = i + 1;
        } else {
            proof {
                let p_next = split_parts(path@.take(i as int + 1));
                assert(p_next == p_i.update(p_i.len() - 1, p_i.last().push(path@[i as int])));
                assert(p_next.drop_last() =~= p_i.drop_last());
                assert(p_next.last() == p_i.last().push(path@[i as int]));
                assert(p_i.last().push(path@[i as int]) =~= path@.subrange(
                    start as int,
                    i as int + 1,
                ));
            }
        }
        i += 1;
    }
    proof {
        assert(path@.take(n as int) =~= path@);
        lemma_split_parts_len(path@);
    }
    let ghost p_n = split_parts(path@);
    let ghost old_dv = segs.deep_view();
    if start < n {
        let seg = path.substring_char(start, n);
        segs.push(seg);
        proof {
            assert(segs.deep_view() =~= old_dv.push(seg@));
        }
    }
    proof {
        if p_n.last().len() != 0 {
            assert(keep_nonempty(p_n) == keep_nonempty(p_n.drop_last()).push(p_n.last()));
        } else {
            assert(keep_nonempty(p_n) == keep_nonempty(p_n.drop_last()));
        }
    }
    segs
}

/// A single or double quote, the characters stripped from the ends of a raw
/// match before it is treated as a link candidate.
pub open spec fn is_quote_char(c: char) -> bool {
    c == '\'' || c == '"'
}

/// `s` with every leading and trailing quote character removed.
pub open spec fn trim_quotes(s: Seq<char>) -> Seq<char>
    decreases s.len(),
{
    if s.len() == 0 {
        s
    } else if is_quote_char(s.first()) {
        trim_quotes(s.drop_first())
    } else if is_quote_char(s.last()) {
        trim_quotes(s.drop_last())
    } else {
        s
    }
}

/// Strip single and double quotes from both ends of `s`.
pub(crate) fn trim_quote_chars<'a>(s: &'a str) -> (r: &'a str)
    ensures
        r@ == trim_quotes(s@),
{
    let n = s.unicode_len();
    let mut lo: usize = 0;
    let mut hi: usize = n;
    proof {
        assert(s@.subrange(0, n as int) =~= s@);
    }
    while lo < hi
        invariant
            lo <= hi <= n,
            n == s@.len(),
            trim_quotes(s@) == trim_quotes(s@.subrange(lo as int, hi as int)),
        ensures
            lo <= hi <= n,
            n == s@.len(),
            trim_quotes(s@) == trim_quotes(s@.subrange(lo as int, hi as int)),
            lo < hi ==> !is_quote_char(s@[lo as int]),
        decreases hi - lo,
    {
        let c = s.get_char(lo);
        if c == '\'' || c == '"' {
            proof {
                let sub = s@.subrange(lo as int, hi as int);
                assert(sub.first() == s@[lo as int]);
                assert(sub.drop_first() =~= s@.subrange(lo as int + 1, hi as int));
            }
            lo = lo + 1;
        } else {
            break ;
        }
    }
    while lo < hi
        invariant
            lo <= hi <= n,
            n == s@.len(),
            trim_quotes(s@) == trim_quotes(s@.subrange(lo as int, hi as int)),
            lo < hi ==> !is_quote_char(s@[lo as int]),
        ensures
            lo <= hi <= n,
            n == s@.len(),
            trim_quotes(s@) == trim_quotes(s@.subrange(lo as int, hi as int)),
            lo < hi ==> !is_quote_char(s@[lo as int]) && !is_quote_char(s@[hi as int - 1]),
        decreases hi - lo,
    {
        let c = s.get_char(hi - 1);
        if c == '\'' || c == '"' {
            proof {
                let sub = s@.subrange(lo as int, hi as int);
                assert(sub.first() == s@[lo as int]);
                assert(sub.last() == s@[hi as int - 1]);
                assert(sub.drop_last() =~= s@.subrange(lo as int, hi as int - 1));
            }
            hi = hi - 1;
        } else {
            break ;
        }
    }
    proof {
        let sub = s@.subrange(lo as int, hi as int);
        if sub.len() > 0 {
            assert(sub.first() == s@[lo as int]);
            assert(sub.last() == s@[hi as int - 1]);
        }
        assert(trim_quotes(sub) == sub);
    }
    s.substring_char(lo, hi)
}

} // verus!
