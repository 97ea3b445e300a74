//! Component-wise path model.
//!
//! Paths are `/`-separated strings. All matching and prefix questions in
//! this crate are decided over *components*: the segments left after
//! splitting on `/` and dropping empty segments and `.` segments. This is
//! what makes `src/foo` a prefix of `src/foo/bar.rs` but never of
//! `src/foobar/baz.rs`, and makes the empty filter match every path.

use vstd::prelude::*;
use vstd::seq_lib::*;

verus! {

/// A split segment counts as a component iff it is neither empty (produced
/// by doubled, leading or trailing separators) nor the no-op `.`.
pub open spec fn is_real_segment(seg: Seq<char>) -> bool {
    seg.len() > 0 && seg != seq!['.']
}

/// Raw split of `s` on `/`: always at least one segment, empty segments
/// preserved (`spec_split("a//b")` is `["a", "", "b"]`, `spec_split("")` is
/// `[""]`).
pub open spec fn spec_split(s: Seq<char>) -> Seq<Seq<char>>
    decreases s.len(),
{
    if s.len() == 0 {
        seq![Seq::<char>::empty()]
    } else if s.last() == '/' {
        spec_split(s.drop_last()).push(Seq::<char>::empty())
    } else {
        let rest = spec_split(s.drop_last());
        rest.update(rest.len() - 1, rest.last().push(s.last()))
    }
}

/// The components of a path: its real split segments, in order.
pub open spec fn spec_components(s: Seq<char>) -> Seq<Seq<char>> {
    spec_split(s).filter(|seg: Seq<char>| is_real_segment(seg))
}

/// Filter `f` matches entry path `e` iff `f`'s components are a prefix of
/// `e`'s components.
pub open spec fn spec_prefix_match(f: Seq<char>, e: Seq<char>) -> bool {
    spec_components(f).is_prefix_of(spec_components(e))
}

/// An entry path matches a path set iff some filter in it matches.
pub open spec fn spec_path_matches(e: Seq<char>, filters: Seq<Seq<char>>) -> bool {
    exists|i: int| 0 <= i < filters.len() && spec_prefix_match(filters[i], e)
}

/// No split segment of the path is the parent-directory marker `..`.
pub open spec fn no_dotdot(s: Seq<char>) -> bool {
    forall|i: int| 0 <= i < spec_split(s).len() ==> #[trigger] spec_split(s)[i] != seq!['.', '.']
}

/// The path is absolute: it starts with the separator.
pub open spec fn spec_is_absolute(s: Seq<char>) -> bool {
    s.len() > 0 && s[0] == '/'
}

/// The shape of path the store's entry operations accept: non-empty,
/// relative, and not starting with a `.` or `..` segment.
pub open spec fn repo_path_accepted(p: Seq<char>) -> bool {
    p.len() > 0 && p[0] != '/' && spec_split(p)[0] != seq!['.'] && spec_split(p)[0] != seq![
        '.',
        '.',
    ]
}

/// Join a possibly relative path onto a base directory: an absolute path
/// replaces the base, anything else is appended behind a single
/// separator.
pub open spec fn spec_join(base: Seq<char>, rel: Seq<char>) -> Seq<char> {
    if spec_is_absolute(rel) {
        rel
    } else if base.len() > 0 && base.last() == '/' {
        base + rel
    } else {
        base + seq!['/'] + rel
    }
}

/// Join components back into a path with single separators and no
/// leading or trailing separator.
pub open spec fn spec_join_components(cs: Seq<Seq<char>>) -> Seq<char>
    decreases cs.len(),
{
    if cs.len() == 0 {
        Seq::empty()
    } else if cs.len() == 1 {
        cs[0]
    } else {
        spec_join_components(cs.drop_last()) + seq!['/'] + cs.last()
    }
}

pub proof fn lemma_split_nonempty(s: Seq<char>)
    ensures
        spec_split(s).len() >= 1,
    decreases s.len(),
{
    if s.len() != 0 {
        lemma_split_nonempty(s.drop_last());
    }
}

/// Filtering a pushed element either appends it (if it satisfies the
/// predicate) or leaves the filtered sequence unchanged.
pub proof fn lemma_filter_push(s: Seq<Seq<char>>, x: Seq<char>)
    ensures
        s.push(x).filter(|seg: Seq<char>| is_real_segment(seg)) == (if is_real_segment(x) {
            s.filter(|seg: Seq<char>| is_real_segment(seg)).push(x)
        } else {
            s.filter(|seg: Seq<char>| is_real_segment(seg))
        }),
{
    reveal(Seq::filter);
    assert(s.push(x).drop_last() =~= s);
    assert(s.push(x).last() == x);
}

/// A well-formed relative path is empty, or splits into segments that are
/// all real components: no leading, trailing or doubled separators and no
/// `.` segments. Resolved repository-relative paths and the entry paths
/// the store reports have this shape.
pub open spec fn wf_rel_path(s: Seq<char>) -> bool {
    s.len() == 0 || forall|i: int|
        0 <= i < spec_split(s).len() ==> is_real_segment(#[trigger] spec_split(s)[i])
}

/// Filtering keeps a sequence whose elements all satisfy the predicate.
proof fn lemma_filter_all_real(cs: Seq<Seq<char>>)
    requires
        forall|i: int| 0 <= i < cs.len() ==> is_real_segment(#[trigger] cs[i]),
    ensures
        cs.filter(|seg: Seq<char>| is_real_segment(seg)) == cs,
    decreases cs.len(),
{
    reveal(Seq::filter);
    if cs.len() > 0 {
        assert(forall|i: int|
            0 <= i < cs.drop_last().len() ==> is_real_segment(#[trigger] cs.drop_last()[i]));
        lemma_filter_all_real(cs.drop_last());
        assert(is_real_segment(cs.last()));
        assert(cs.drop_last().push(cs.last()) =~= cs);
    }
}

/// Splitting a path assembled around a separator splits each side.
proof fn lemma_split_append(a: Seq<char>, b: Seq<char>)
    ensures
        spec_split(a + seq!['/'] + b) == spec_split(a) + spec_split(b),
    decreases b.len(),
{
    let s = a + seq!['/'] + b;
    if b.len() == 0 {
        assert(s =~= a.push('/'));
        assert(s.last() == '/');
        assert(s.drop_last() =~= a);
        assert(spec_split(b) =~= seq![Seq::<char>::empty()]);
        assert(spec_split(a).push(Seq::<char>::empty()) =~= spec_split(a) + spec_split(b));
    } else {
        lemma_split_append(a, b.drop_last());
        let s0 = a + seq!['/'] + b.drop_last();
        assert(s.drop_last() =~= s0);
        assert(s.last() == b.last());
        lemma_split_nonempty(b.drop_last());
        lemma_split_nonempty(a);
        let brest = spec_split(b.drop_last());
        if b.last() == '/' {
            assert(spec_split(s) == spec_split(s0).push(Seq::<char>::empty()));
            assert(spec_split(b) == brest.push(Seq::<char>::empty()));
            assert((spec_split(a) + brest).push(Seq::<char>::empty()) =~= spec_split(a)
                + brest.push(Seq::<char>::empty()));
        } else {
            let rest = spec_split(s0);
            assert(rest == spec_split(a) + brest);
            assert(rest.last() == brest.last());
            assert(spec_split(s) == rest.update(rest.len() - 1, rest.last().push(b.last())));
            assert(spec_split(b) == brest.update(brest.len() - 1, brest.last().push(b.last())));
            assert(rest.update(rest.len() - 1, rest.last().push(b.last())) =~= spec_split(a)
                + brest.update(brest.len() - 1, brest.last().push(b.last())));
        }
    }
}

/// Joining a path's split segments with separators rebuilds the path.
proof fn lemma_join_split(s: Seq<char>)
    ensures
        spec_join_components(spec_split(s)) == s,
    decreases s.len(),
{
    if s.len() == 0 {
        assert(spec_split(s) == seq![Seq::<char>::empty()]);
        assert(spec_join_components(spec_split(s)) =~= s);
    } else {
        lemma_join_split(s.drop_last());
        lemma_split_nonempty(s.drop_last());
        let r = spec_split(s.drop_last());
        if s.last() == '/' {
            let sp = r.push(Seq::<char>::empty());
            assert(spec_split(s) == sp);
            assert(sp.drop_last() =~= r);
            assert(sp.len() >= 2);
            assert(spec_join_components(sp) == spec_join_components(r) + seq!['/']
                + Seq::<char>::empty());
            assert(s.drop_last() + seq!['/'] + Seq::<char>::empty() =~= s);
        } else {
            let upd = r.update(r.len() - 1, r.last().push(s.last()));
            assert(spec_split(s) == upd);
            if r.len() == 1 {
                assert(upd.len() == 1);
                assert(upd[0] == r.last().push(s.last()));
                assert(r[0] == r.last());
                assert(spec_join_components(r) == r[0]);
                assert(r[0].push(s.last()) =~= s.drop_last().push(s.last()));
                assert(s.drop_last().push(s.last()) =~= s);
            } else {
                assert(upd.len() == r.len());
                assert(upd.drop_last() =~= r.drop_last());
                assert(upd.last() == r.last().push(s.last()));
                assert(spec_join_components(r.drop_last()) + seq!['/'] + r.last()
                    == s.drop_last());
                assert(spec_join_components(r.drop_last()) + seq!['/'] + r.last().push(s.last())
                    =~= (spec_join_components(r.drop_last()) + seq!['/'] + r.last()).push(
                    s.last(),
                ));
                assert(s.drop_last().push(s.last()) =~= s);
            }
        }
    }
}

/// Joining concatenated component lists inserts one separator between the
/// two joined halves.
proof fn lemma_join_append(x: Seq<Seq<char>>, y: Seq<Seq<char>>)
    requires
        x.len() > 0,
        y.len() > 0,
    ensures
        spec_join_components(x + y) == spec_join_components(x) + seq!['/']
            + spec_join_components(y),
    decreases y.len(),
{
    if y.len() == 1 {
        assert((x + y).len() >= 2);
        assert((x + y).drop_last() =~= x);
        assert((x + y).last() == y[0]);
        assert(spec_join_components(y) == y[0]);
    } else {
        lemma_join_append(x, y.drop_last());
        assert((x + y).drop_last() =~= x + y.drop_last());
        assert((x + y).last() == y.last());
        assert(spec_join_components(x + y) == spec_join_components(x + y.drop_last())
            + seq!['/'] + y.last());
        assert(spec_join_components(y) == spec_join_components(y.drop_last()) + seq!['/']
            + y.last());
        assert(spec_join_components(x) + seq!['/'] + (spec_join_components(y.drop_last())
            + seq!['/'] + y.last()) =~= (spec_join_components(x) + seq!['/']
            + spec_join_components(y.drop_last())) + seq!['/'] + y.last());
    }
}

/// A segment is separator-free. Split segments always are.
pub open spec fn seg_no_sep(seg: Seq<char>) -> bool {
    forall|j: int| 0 <= j < seg.len() ==> seg[j] != '/'
}

/// No split segment contains the separator.
pub proof fn lemma_split_segments_no_sep(s: Seq<char>)
    ensures
        forall|i: int|
            0 <= i < spec_split(s).len() ==> seg_no_sep(#[trigger] spec_split(s)[i]),
    decreases s.len(),
{
    if s.len() == 0 {
        assert(spec_split(s) == seq![Seq::<char>::empty()]);
        assert(seg_no_sep(Seq::<char>::empty()));
    } else {
        lemma_split_segments_no_sep(s.drop_last());
        lemma_split_nonempty(s.drop_last());
        let r = spec_split(s.drop_last());
        if s.last() == '/' {
            assert(seg_no_sep(Seq::<char>::empty()));
            assert forall|i: int| 0 <= i < spec_split(s).len() implies seg_no_sep(
                #[trigger] spec_split(s)[i],
            ) by {
                if i < r.len() {
                    assert(spec_split(s)[i] == r[i]);
                } else {
                    assert(spec_split(s)[i] == Seq::<char>::empty());
                }
            }
        } else {
            let grown = r.last().push(s.last());
            assert(seg_no_sep(r[r.len() - 1]));
            assert(seg_no_sep(grown)) by {
                assert forall|j: int| 0 <= j < grown.len() implies grown[j] != '/' by {
                    if j < r.last().len() {
                        assert(grown[j] == r.last()[j]);
                    } else {
                        assert(grown[j] == s.last());
                    }
                }
            }
            assert forall|i: int| 0 <= i < spec_split(s).len() implies seg_no_sep(
                #[trigger] spec_split(s)[i],
            ) by {
                if i < r.len() - 1 {
                    assert(spec_split(s)[i] == r[i]);
                } else {
                    assert(spec_split(s)[i] == grown);
                }
            }
        }
    }
}

/// Every filtered element occurs in the original sequence.
pub proof fn lemma_filter_element_from(cs: Seq<Seq<char>>, k: int)
    requires
        0 <= k < cs.filter(|seg: Seq<char>| is_real_segment(seg)).len(),
    ensures
        exists|i: int|
            0 <= i < cs.len() && #[trigger] cs[i] == cs.filter(
                |seg: Seq<char>| is_real_segment(seg),
            )[k],
    decreases cs.len(),
{
    reveal(Seq::filter);
    if cs.len() > 0 {
        let fr = cs.drop_last().filter(|seg: Seq<char>| is_real_segment(seg));
        if k < fr.len() {
            lemma_filter_element_from(cs.drop_last(), k);
            let i = choose|i: int|
                0 <= i < cs.drop_last().len() && #[trigger] cs.drop_last()[i] == fr[k];
            assert(cs[i] == cs.drop_last()[i]);
        } else {
            assert(cs[cs.len() - 1] == cs.last());
        }
    }
}

/// A separator-free segment splits into itself alone.
proof fn lemma_split_single(seg: Seq<char>)
    requires
        seg_no_sep(seg),
    ensures
        spec_split(seg) == seq![seg],
    decreases seg.len(),
{
    if seg.len() > 0 {
        assert(seg_no_sep(seg.drop_last())) by {
            assert(forall|j: int|
                0 <= j < seg.drop_last().len() ==> #[trigger] seg.drop_last()[j] == seg[j]);
        }
        lemma_split_single(seg.drop_last());
        assert(seg.last() != '/');
        let r = spec_split(seg.drop_last());
        assert(spec_split(seg) == r.update(r.len() - 1, r.last().push(seg.last())));
        assert(r.last() == seg.drop_last());
        assert(seg.drop_last().push(seg.last()) =~= seg);
        assert(r.update(0, seg) =~= seq![seg]);
    } else {
        assert(spec_split(seg) == seq![Seq::<char>::empty()]);
        assert(seg =~= Seq::<char>::empty());
        assert(seq![Seq::<char>::empty()] =~= seq![seg]);
    }
}

/// Splitting joined separator-free components recovers them.
proof fn lemma_split_join(cs: Seq<Seq<char>>)
    requires
        cs.len() > 0,
        forall|i: int| 0 <= i < cs.len() ==> seg_no_sep(#[trigger] cs[i]),
    ensures
        spec_split(spec_join_components(cs)) == cs,
    decreases cs.len(),
{
    if cs.len() == 1 {
        lemma_split_single(cs[0]);
        assert(spec_split(spec_join_components(cs)) =~= cs);
    } else {
        assert(forall|i: int|
            0 <= i < cs.drop_last().len() ==> seg_no_sep(#[trigger] cs.drop_last()[i]));
        lemma_split_join(cs.drop_last());
        lemma_split_append(spec_join_components(cs.drop_last()), cs.last());
        lemma_split_single(cs.last());
        assert(cs.drop_last() + seq![cs.last()] =~= cs);
    }
}

/// A path joined from real, separator-free, non-`..` components is a
/// well-formed relative path without `..` segments: the shape every
/// resolved repository-relative path has.
pub proof fn lemma_joined_components_wf(cs: Seq<Seq<char>>)
    requires
        forall|i: int| 0 <= i < cs.len() ==> is_real_segment(#[trigger] cs[i]),
        forall|i: int| 0 <= i < cs.len() ==> seg_no_sep(#[trigger] cs[i]),
        forall|i: int| 0 <= i < cs.len() ==> #[trigger] cs[i] != seq!['.', '.'],
    ensures
        wf_rel_path(spec_join_components(cs)),
        no_dotdot(spec_join_components(cs)),
{
    let joined = spec_join_components(cs);
    if cs.len() == 0 {
        assert(joined == Seq::<char>::empty());
        assert(spec_split(joined) == seq![Seq::<char>::empty()]);
        assert(seq!['.', '.'].len() == 2);
        assert(forall|i: int|
            0 <= i < spec_split(joined).len() ==> #[trigger] spec_split(joined)[i]
                != seq!['.', '.']);
    } else {
        lemma_split_join(cs);
        assert(joined.len() > 0) by {
            lemma_join_split(joined);
            if joined.len() == 0 {
                assert(spec_split(joined) == seq![Seq::<char>::empty()]);
                assert(cs[0] == Seq::<char>::empty());
                assert(is_real_segment(cs[0]));
            }
        }
    }
}

/// Under well-formedness, every split segment is a component.
proof fn lemma_wf_components(s: Seq<char>)
    requires
        wf_rel_path(s),
        s.len() > 0,
    ensures
        spec_components(s) == spec_split(s),
{
    lemma_filter_all_real(spec_split(s));
}

/// The empty path has no components.
proof fn lemma_empty_components(s: Seq<char>)
    requires
        s.len() == 0,
    ensures
        spec_components(s) == Seq::<Seq<char>>::empty(),
{
    reveal(Seq::filter);
    assert(spec_split(s) == seq![Seq::<char>::empty()]);
    assert(seq![Seq::<char>::empty()].drop_last() =~= Seq::<Seq<char>>::empty());
    assert(Seq::<Seq<char>>::empty().filter(|seg: Seq<char>| is_real_segment(seg))
        =~= Seq::<Seq<char>>::empty());
    assert(!is_real_segment(seq![Seq::<char>::empty()].last()));
    assert(spec_components(s) =~= Seq::<Seq<char>>::empty());
}

/// A filter that the entry extends right after a separator matches it.
proof fn lemma_prefix_match_extends(p: Seq<char>, e: Seq<char>)
    requires
        wf_rel_path(p),
        wf_rel_path(e),
        p.len() > 0,
        e.len() > p.len(),
        e.take(p.len() as int) == p,
        e[p.len() as int] == '/',
    ensures
        spec_prefix_match(p, e),
{
    lemma_wf_components(p);
    lemma_wf_components(e);
    let rest = e.skip(p.len() as int + 1);
    assert(e =~= p + seq!['/'] + rest);
    lemma_split_append(p, rest);
    assert(spec_split(e).subrange(0, spec_split(p).len() as int) =~= spec_split(p));
}

/// A matching filter that is not the entry itself is extended by the
/// entry right after a separator.
proof fn lemma_prefix_match_inverts(p: Seq<char>, e: Seq<char>)
    requires
        wf_rel_path(p),
        wf_rel_path(e),
        p.len() > 0,
        e.len() > 0,
        e != p,
        spec_prefix_match(p, e),
    ensures
        e.len() > p.len(),
        e.take(p.len() as int) == p,
        e[p.len() as int] == '/',
{
    lemma_wf_components(p);
    lemma_wf_components(e);
    lemma_split_nonempty(p);
    lemma_split_nonempty(e);
    let sp = spec_split(p);
    let se = spec_split(e);
    assert(sp.len() <= se.len());
    assert(se.subrange(0, sp.len() as int) == sp);
    lemma_join_split(p);
    lemma_join_split(e);
    if sp.len() == se.len() {
        assert(se =~= sp);
        assert(false);
    }
    let tail = se.skip(sp.len() as int);
    assert(se =~= sp + tail);
    lemma_join_append(sp, tail);
    assert(e == p + seq!['/'] + spec_join_components(tail));
    assert(e.take(p.len() as int) =~= p);
    assert(e[p.len() as int] == '/');
}

/// Prefix-matching correctness: over well-formed relative paths,
/// component-wise matching holds exactly when the filter is empty, equal
/// to the entry path, or a proper prefix of it ending right before a
/// separator. In particular a filter never matches an entry that merely
/// continues its last component.
pub proof fn lemma_prefix_match_characterization(p: Seq<char>, e: Seq<char>)
    requires
        wf_rel_path(p),
        wf_rel_path(e),
    ensures
        spec_prefix_match(p, e) <==> (p.len() == 0 || e == p || (e.len() > p.len() && e.take(
            p.len() as int,
        ) == p && e[p.len() as int] == '/')),
{
    if p.len() == 0 {
        lemma_empty_components(p);
        assert(spec_components(p) =~= spec_components(e).subrange(0, 0));
        assert(spec_prefix_match(p, e));
    } else if e.len() == 0 {
        lemma_wf_components(p);
        lemma_empty_components(e);
        lemma_split_nonempty(p);
        assert(!spec_prefix_match(p, e));
    } else {
        if e.len() > p.len() && e.take(p.len() as int) == p && e[p.len() as int] == '/' {
            lemma_prefix_match_extends(p, e);
        }
        if spec_prefix_match(p, e) && e != p {
            lemma_prefix_match_inverts(p, e);
        }
        if e == p {
            lemma_wf_components(p);
            assert(spec_components(p) =~= spec_components(e).subrange(
                0,
                spec_components(p).len() as int,
            ));
            assert(spec_prefix_match(p, e));
        }
    }
}

/// Split the path `s` into its components.
pub fn path_components(s: &str) -> (parts: Vec<String>)
    ensures
        parts.deep_view() == spec_components(s@),
{
    let n = s.unicode_len();
    let mut parts: Vec<String> = Vec::new();
    let mut start: usize = 0;
    let mut i: usize = 0;
    while i < n
        invariant
            n == s@.len(),
            start <= i <= n,
            spec_split(s@.take(i as int)).last() == s@.subrange(start as int, i as int),
            spec_split(s@.take(i as int)).drop_last().filter(
                |seg: Seq<char>| is_real_segment(seg),
            ) == parts.deep_view(),
        decreases n - i,
    {
        proof {
            lemma_split_nonempty(s@.take(i as int));
            assert(s@.take(i as int + 1).drop_last() =~= s@.take(i as int));
            assert(s@.take(i as int + 1).last() == s@[i as int]);
        }
        let c = s.get_char(i);
        if c == '/' {
            let seg_is_real = segment_is_real(s, start, i);
            proof {
                let split_i = spec_split(s@.take(i as int));
                assert(spec_split(s@.take(i as int + 1)) == split_i.push(Seq::<char>::empty()));
                assert(split_i.push(Seq::<char>::empty()).drop_last() =~= split_i);
                assert(split_i =~= split_i.drop_last().push(split_i.last()));
                lemma_filter_push(split_i.drop_last(), split_i.last());
            }
            if seg_is_real {
                let seg = s.substring_char(start, i).to_owned();
                let ghost old_parts = parts.deep_view();
                parts.push(seg);
                proof {
                    assert(parts.deep_view() =~= old_parts.push(
                        s@.subrange(start as int, i as int),
                    ));
                }
            }
            start = i + 1;
            proof {
                assert(s@.subrange(start as int, i as int + 1) =~= Seq::<char>::empty());
            }
        } else {
            proof {
                let split_i = spec_split(s@.take(i as int));
                let grown = split_i.update(split_i.len() - 1, split_i.last().push(s@[i as int]));
                assert(spec_split(s@.take(i as int + 1)) == grown);
                assert(grown.drop_last() =~= split_i.drop_last());
                assert(grown.last() == split_i.last().push(s@[i as int]));
                assert(s@.subrange(start as int, i as int).push(s@[i as int]) =~= s@.subrange(
                    start as int,
                    i as int + 1,
                ));
            }
        }
        i = i + 1;
    }
    proof {
        assert(s@.take(n as int) == s@);
        lemma_split_nonempty(s@);
    }
    let seg_is_real = segment_is_real(s, start, n);
    if seg_is_real {
        let seg = s.substring_char(start, n).to_owned();
        let ghost old_parts = parts.deep_view();
        parts.push(seg);
        proof {
            assert(parts.deep_view() =~= old_parts.push(s@.subrange(start as int, n as int)));
        }
    }
    proof {
        let split = spec_split(s@);
        assert(split =~= split.drop_last().push(split.last()));
        lemma_filter_push(split.drop_last(), split.last());
    }
    parts
}

/// Decide whether the segment `s[start..end]` is a real component.
fn segment_is_real(s: &str, start: usize, end: usize) -> (r: bool)
    requires
        start <= end <= s@.len(),
    ensures
        r == is_real_segment(s@.subrange(start as int, end as int)),
{
    if end == start {
        proof {
            assert(s@.subrange(start as int, end as int).len() == 0);
        }
        false
    } else if end == start + 1 && s.get_char(start) == '.' {
        proof {
            assert(s@.subrange(start as int, end as int) =~= seq!['.']);
        }
        false
    } else {
        proof {
            let seg = s@.subrange(start as int, end as int);
            assert(seg.len() > 0);
            if seg == seq!['.'] {
                assert(seg.len() == 1);
                assert(seg[0] == '.');
                assert(s@[start as int] == '.');
            }
        }
        true
    }
}

/// Decide whether the components in `pre` are a prefix of those in `full`.
pub fn components_prefix(pre: &Vec<String>, full: &Vec<String>) -> (r: bool)
    ensures
        r == pre.deep_view().is_prefix_of(full.deep_view()),
{
    if pre.len() > full.len() {
        return false;
    }
    let mut i: usize = 0;
    while i < pre.len()
        invariant
            i <= pre.len() <= full.len(),
            pre.deep_view().len() == pre.len(),
            full.deep_view().len() == full.len(),
            forall|j: int| 0 <= j < i ==> pre.deep_view()[j] == full.deep_view()[j],
        decreases pre.len() - i,
    {
        if !(pre[i] == full[i]) {
            proof {
                if pre.deep_view().is_prefix_of(full.deep_view()) {
                    assert(pre.deep_view()[i as int] == full.deep_view().subrange(
                        0,
                        pre.deep_view().len() as int,
                    )[i as int]);
                }
            }
            return false;
        }
        i = i + 1;
    }
    proof {
        assert(pre.deep_view() =~= full.deep_view().subrange(0, pre.len() as int));
    }
    true
}

/// Join a possibly relative path onto a base directory.
pub fn join_path(base: &str, rel: &str) -> (r: String)
    ensures
        r@ == spec_join(base@, rel@),
{
    let rel_len = rel.unicode_len();
    if rel_len > 0 && rel.get_char(0) == '/' {
        return rel.to_owned();
    }
    let base_len = base.unicode_len();
    let mut joined = base.to_owned();
    if base_len == 0 || base.get_char(base_len - 1) != '/' {
        joined.append("/");
        proof {
            reveal_strlit("/");
            assert(base@ + "/"@ + rel@ =~= base@ + seq!['/'] + rel@);
        }
    }
    joined.append(rel);
    joined
}

/// Join the components `parts[from..]` back into a relative path.
pub fn join_components_from(parts: &Vec<String>, from: usize) -> (r: String)
    requires
        from <= parts@.len(),
    ensures
        r@ == spec_join_components(parts.deep_view().skip(from as int)),
{
    let ghost tail = parts.deep_view().skip(from as int);
    let mut joined = String::new();
    let mut i: usize = from;
    while i < parts.len()
        invariant
            from <= i <= parts@.len(),
            parts.deep_view().len() == parts@.len(),
            tail == parts.deep_view().skip(from as int),
            joined@ == spec_join_components(tail.take(i - from)),
        decreases parts@.len() - i,
    {
        proof {
            let grown = tail.take(i + 1 - from);
            assert(grown.drop_last() =~= tail.take(i - from));
            assert(grown.last() == parts.deep_view()[i as int]);
        }
        if i > from {
            joined.append("/");
            proof {
                reveal_strlit("/");
                assert(spec_join_components(tail.take(i - from)) + "/"@ + parts.deep_view()[
                    i as int
                ] =~= spec_join_components(tail.take(i - from)) + seq!['/'] + parts.deep_view()[
                    i as int
                ]);
            }
        }
        joined.append(parts[i].as_str());
        i = i + 1;
    }
    proof {
        assert(tail.take(parts@.len() - from) == tail);
    }
    joined
}

/// Check if an entry path matches any of the requested paths (exact or
/// descendant, component-wise; an empty requested path matches everything).
pub fn path_matches(entry_path: &str, requested_paths: &Vec<String>) -> (r: bool)
    ensures
        r == spec_path_matches(entry_path@, requested_paths.deep_view()),
{
    let entry = path_components(entry_path);
    let mut i: usize = 0;
    while i < requested_paths.len()
        invariant
            requested_paths.deep_view().len() == requested_paths.len(),
            entry.deep_view() == spec_components(entry_path@),
            forall|j: int|
                0 <= j < i ==> !spec_prefix_match(
                    requested_paths.deep_view()[j],
                    entry_path@,
                ),
        decreases requested_paths.len() - i,
    {
        proof {
            assert(requested_paths.deep_view()[i as int] == requested_paths@[i as int]@);
        }
        let f = path_components(requested_paths[i].as_str());
        if components_prefix(&f, &entry) {
            proof {
                assert(spec_prefix_match(requested_paths.deep_view()[i as int], entry_path@));
            }
            return true;
        }
        proof {
            assert(!spec_prefix_match(requested_paths.deep_view()[i as int], entry_path@));
        }
        i = i + 1;
    }
    false
}

} // verus!
