//! Paths as the byte strings that Unix-like systems (and the Switch's
//! Horizon OS) use, with the component and joining rules of `std::path`.
use vstd::prelude::*;

verus! {

/// The path separator.
pub const SEP: u8 = 0x2f;

/// The byte `.`.
pub const DOT: u8 = 0x2e;

/// The bytes of an ASCII text, one per character.
pub open spec fn ascii_of(s: Seq<char>) -> Seq<u8> {
    s.map_values(|c: char| c as u8)
}

/// The pieces between separators, empty ones included: `a//b/` gives
/// `a`, ``, `b`, ``.
pub open spec fn pieces(p: Seq<u8>) -> Seq<Seq<u8>>
    decreases p.len(),
{
    if p.len() == 0 {
        seq![Seq::<u8>::empty()]
    } else {
        let before = pieces(p.drop_last());
        if p.last() == SEP {
            before.push(Seq::<u8>::empty())
        } else {
            before.update(before.len() - 1, before.last().push(p.last()))
        }
    }
}

/// A component that names an entry: not empty, not `.` and not `..`.
pub open spec fn is_normal(c: Seq<u8>) -> bool {
    &&& c.len() > 0
    &&& c != seq![DOT]
    &&& c != seq![DOT, DOT]
}

pub open spec fn normal() -> spec_fn(Seq<u8>) -> bool {
    |c: Seq<u8>| is_normal(c)
}

/// The names in a path, in order: what `Path::components` yields as
/// `Component::Normal`. Separators, the root, `.` and `..` name nothing.
pub open spec fn components(p: Seq<u8>) -> Seq<Seq<u8>> {
    pieces(p).filter(normal())
}

/// `PathBuf::push`: a path that starts at the root replaces the base;
/// otherwise it is appended, after a separator where the base is not empty
/// and does not end in one.
pub open spec fn push_path(base: Seq<u8>, seg: Seq<u8>) -> Seq<u8> {
    if seg.len() > 0 && seg[0] == SEP {
        seg
    } else if base.len() > 0 && base.last() != SEP {
        base + seq![SEP] + seg
    } else {
        base + seg
    }
}

/// `PathBuf::push` of each of `segs` in turn.
pub open spec fn push_all(base: Seq<u8>, segs: Seq<Seq<u8>>) -> Seq<u8>
    decreases segs.len(),
{
    if segs.len() == 0 {
        base
    } else {
        push_path(push_all(base, segs.drop_last()), segs.last())
    }
}

/// The views of a list of byte vectors.
pub open spec fn views(v: Seq<Vec<u8>>) -> Seq<Seq<u8>> {
    v.map_values(|x: Vec<u8>| x@)
}

pub proof fn lemma_pieces_len(p: Seq<u8>)
    ensures
        pieces(p).len() >= 1,
    decreases p.len(),
{
    if p.len() > 0 {
        lemma_pieces_len(p.drop_last());
    }
}

/// `pieces` splits at a separator: the pieces of `a`, then those of `b`.
pub proof fn lemma_pieces_split(a: Seq<u8>, b: Seq<u8>)
    ensures
        pieces(a + seq![SEP] + b) == pieces(a) + pieces(b),
    decreases b.len(),
{
    let ab = a + seq![SEP] + b;
    if b.len() == 0 {
        assert(ab =~= a.push(SEP));
        assert(ab.drop_last() =~= a);
        assert(pieces(a) + pieces(b) =~= pieces(a).push(Seq::<u8>::empty()));
    } else {
        let b0 = b.drop_last();
        lemma_pieces_split(a, b0);
        lemma_pieces_len(b0);
        lemma_pieces_len(a);
        assert(ab.drop_last() =~= a + seq![SEP] + b0);
        assert(ab.last() == b.last());
        let pa = pieces(a);
        let pb0 = pieces(b0);
        if b.last() == SEP {
            assert(pieces(ab) =~= (pa + pb0).push(Seq::<u8>::empty()));
            assert(pieces(b) =~= pb0.push(Seq::<u8>::empty()));
            assert((pa + pb0).push(Seq::<u8>::empty()) =~= pa + pb0.push(Seq::<u8>::empty()));
        } else {
            let pab0 = pa + pb0;
            assert(pab0.last() == pb0.last());
            assert(pieces(ab) =~= pab0.update(pab0.len() - 1, pb0.last().push(b.last())));
            assert(pieces(b) =~= pb0.update(pb0.len() - 1, pb0.last().push(b.last())));
            assert(pab0.update(pab0.len() - 1, pb0.last().push(b.last())) =~= pa + pb0.update(
                pb0.len() - 1,
                pb0.last().push(b.last()),
            ));
        }
    }
}

/// A path without separators is a single piece.
pub proof fn lemma_pieces_single(a: Seq<u8>)
    requires
        !a.contains(SEP),
    ensures
        pieces(a) == seq![a],
    decreases a.len(),
{
    if a.len() > 0 {
        let a0 = a.drop_last();
        assert(!a0.contains(SEP)) by {
            if a0.contains(SEP) {
                let k = choose|k: int| 0 <= k < a0.len() && a0[k] == SEP;
                assert(a[k] == SEP);
            }
        }
        lemma_pieces_single(a0);
        assert(a.last() != SEP) by {
            assert(a[a.len() - 1] == a.last());
        }
        assert(a0.push(a.last()) =~= a);
        assert(seq![a0].update(0, a0.push(a.last())) =~= seq![a]);
    } else {
        assert(a =~= Seq::<u8>::empty());
    }
}

/// No piece holds a separator.
pub proof fn lemma_pieces_no_sep(p: Seq<u8>)
    ensures
        forall|i: int| 0 <= i < pieces(p).len() ==> !(#[trigger] pieces(p)[i]).contains(SEP),
    decreases p.len(),
{
    if p.len() == 0 {
        assert forall|i: int| 0 <= i < pieces(p).len() implies !(
        #[trigger] pieces(p)[i]).contains(SEP) by {
            assert(pieces(p)[i] =~= Seq::<u8>::empty());
        }
    } else {
        let p0 = p.drop_last();
        lemma_pieces_no_sep(p0);
        lemma_pieces_len(p0);
        let before = pieces(p0);
        assert forall|i: int| 0 <= i < pieces(p).len() implies !(
        #[trigger] pieces(p)[i]).contains(SEP) by {
            if p.last() == SEP {
                if i < before.len() {
                    assert(pieces(p)[i] == before[i]);
                } else {
                    assert(pieces(p)[i] =~= Seq::<u8>::empty());
                }
            } else {
                if i < before.len() - 1 {
                    assert(pieces(p)[i] == before[i]);
                } else {
                    let c = before.last().push(p.last());
                    assert(pieces(p)[i] == c);
                    assert(!before[before.len() - 1].contains(SEP));
                    if c.contains(SEP) {
                        let k = choose|k: int| 0 <= k < c.len() && c[k] == SEP;
                        if k < c.len() - 1 {
                            assert(before.last()[k] == SEP);
                            assert(before.last().contains(SEP));
                        }
                    }
                }
            }
        }
    }
}

/// Every component names an entry and holds no separator.
pub proof fn lemma_components_normal(p: Seq<u8>)
    ensures
        forall|i: int|
            0 <= i < components(p).len() ==> is_normal(#[trigger] components(p)[i])
                && !components(p)[i].contains(SEP),
{
    lemma_pieces_no_sep(p);
    assert forall|i: int| 0 <= i < components(p).len() implies is_normal(
        #[trigger] components(p)[i],
    ) && !components(p)[i].contains(SEP) by {
        let c = components(p)[i];
        pieces(p).lemma_filter_pred(normal(), i);
        assert(components(p).contains(c));
        pieces(p).lemma_filter_contains_rev(normal(), c);
        let k = choose|k: int| 0 <= k < pieces(p).len() && pieces(p)[k] == c;
        assert(!pieces(p)[k].contains(SEP));
    }
}

proof fn lemma_filter_single(c: Seq<u8>)
    ensures
        seq![c].filter(normal()) == (if is_normal(c) {
            seq![c]
        } else {
            Seq::<Seq<u8>>::empty()
        }),
{
    reveal_with_fuel(Seq::filter, 2);
    assert(seq![c].drop_last() =~= Seq::<Seq<u8>>::empty());
    assert(Seq::<Seq<u8>>::empty().push(c) =~= seq![c]);
}

/// Pushing a name onto a path adds it as the path's last component.
pub proof fn lemma_components_push(base: Seq<u8>, seg: Seq<u8>)
    requires
        is_normal(seg),
        !seg.contains(SEP),
    ensures
        components(push_path(base, seg)) == components(base).push(seg),
{
    broadcast use Seq::filter_distributes_over_add;

    assert(seg[0] != SEP);
    lemma_pieces_single(seg);
    lemma_filter_single(seg);
    lemma_filter_single(Seq::<u8>::empty());
    if base.len() > 0 && base.last() != SEP {
        lemma_pieces_split(base, seg);
        assert(push_path(base, seg) == base + seq![SEP] + seg);
        assert(components(base) + seq![seg] =~= components(base).push(seg));
    } else if base.len() == 0 {
        assert(push_path(base, seg) =~= seg);
        assert(pieces(base) == seq![Seq::<u8>::empty()]);
        assert(components(base).push(seg) =~= seq![seg]);
    } else {
        let b0 = base.drop_last();
        assert(base =~= b0 + seq![SEP] + Seq::<u8>::empty());
        assert(push_path(base, seg) =~= b0 + seq![SEP] + seg);
        lemma_pieces_split(b0, seg);
        lemma_pieces_split(b0, Seq::<u8>::empty());
        assert(pieces(Seq::<u8>::empty()) == seq![Seq::<u8>::empty()]);
        assert(components(base) =~= components(b0) + Seq::<Seq<u8>>::empty());
        assert(components(b0) + seq![seg] =~= components(base).push(seg));
    }
}

/// Pushing names onto a path adds them, in order, after its components.
pub proof fn lemma_components_push_all(base: Seq<u8>, segs: Seq<Seq<u8>>)
    requires
        forall|i: int|
            0 <= i < segs.len() ==> is_normal(#[trigger] segs[i]) && !segs[i].contains(SEP),
    ensures
        components(push_all(base, segs)) == components(base) + segs,
    decreases segs.len(),
{
    if segs.len() == 0 {
        assert(components(base) + segs =~= components(base));
    } else {
        let s0 = segs.drop_last();
        lemma_components_push_all(base, s0);
        assert(segs.last() == segs[segs.len() - 1]);
        lemma_components_push(push_all(base, s0), segs.last());
        assert((components(base) + s0).push(segs.last()) =~= components(base) + segs);
    }
}

/// A single name without separators is the only component of itself.
pub proof fn lemma_components_single(c: Seq<u8>)
    requires
        is_normal(c),
        !c.contains(SEP),
    ensures
        components(c) == seq![c],
{
    lemma_pieces_single(c);
    lemma_filter_single(c);
}

/// Pushing a relative path onto a path adds its components after the
/// path's own.
pub proof fn lemma_components_push_relative(base: Seq<u8>, rel: Seq<u8>)
    requires
        !(rel.len() > 0 && rel[0] == SEP),
    ensures
        components(push_path(base, rel)) == components(base) + components(rel),
{
    broadcast use Seq::filter_distributes_over_add;

    lemma_filter_single(Seq::<u8>::empty());
    assert(pieces(Seq::<u8>::empty()) == seq![Seq::<u8>::empty()]);
    assert(components(Seq::<u8>::empty()) =~= Seq::<Seq<u8>>::empty());
    if base.len() > 0 && base.last() != SEP {
        lemma_pieces_split(base, rel);
        assert(push_path(base, rel) == base + seq![SEP] + rel);
    } else if base.len() == 0 {
        assert(push_path(base, rel) =~= rel);
        assert(components(base) + components(rel) =~= components(rel));
    } else {
        let b0 = base.drop_last();
        assert(base =~= b0 + seq![SEP] + Seq::<u8>::empty());
        assert(push_path(base, rel) =~= b0 + seq![SEP] + rel);
        lemma_pieces_split(b0, rel);
        lemma_pieces_split(b0, Seq::<u8>::empty());
        assert(components(base) =~= components(b0) + Seq::<Seq<u8>>::empty());
    }
}

/// Any non-empty name other than `.` and `..`, however long, is the last
/// component of a path that ends with it after a separator.
pub proof fn lemma_last_name(a: Seq<u8>, seg: Seq<u8>)
    requires
        seg.len() > 0,
        seg != seq![DOT],
        seg != seq![DOT, DOT],
        !seg.contains(SEP),
    ensures
        components(a + seq![SEP] + seg).len() >= 1,
        components(a + seq![SEP] + seg).last() == seg,
{
    broadcast use Seq::filter_distributes_over_add;

    lemma_pieces_split(a, seg);
    lemma_pieces_single(seg);
    lemma_filter_single(seg);
    assert(components(a + seq![SEP] + seg) == components(a) + seq![seg]);
}

/// The bytes of an ASCII literal.
pub fn literal_bytes(s: &str) -> (r: Vec<u8>)
    requires
        vstd::utf8::is_ascii_chars(s@),
    ensures
        r@ == ascii_of(s@),
{
    let n = s.unicode_len();
    let mut r: Vec<u8> = Vec::new();
    let mut i: usize = 0;
    while i < n
        invariant
            n == s@.len(),
            i <= n,
            vstd::utf8::is_ascii_chars(s@),
            r@ == ascii_of(s@.take(i as int)),
        decreases n - i,
    {
        let b = s.get_ascii(i);
        r.push(b);
        i = i + 1;
        assert(ascii_of(s@.take(i as int)) =~= ascii_of(s@.take((i - 1) as int)).push(b));
    }
    assert(s@.take(n as int) =~= s@);
    r
}

/// Appends `src` to `dst`.
pub fn append_bytes(dst: &mut Vec<u8>, src: &[u8])
    ensures
        final(dst)@ == old(dst)@ + src@,
{
    let mut i: usize = 0;
    while i < src.len()
        invariant
            i <= src@.len(),
            dst@ == old(dst)@ + src@.take(i as int),
        decreases src@.len() - i,
    {
        dst.push(src[i]);
        i = i + 1;
        assert(old(dst)@ + src@.take(i as int) =~= (old(dst)@ + src@.take((i - 1) as int)).push(
            src@[i - 1],
        ));
    }
    assert(src@.take(src@.len() as int) =~= src@);
}

/// Whether `c` names an entry (see `is_normal`).
pub fn is_normal_component(c: &[u8]) -> (b: bool)
    ensures
        b == is_normal(c@),
{
    if c.len() == 0 {
        false
    } else if c.len() == 1 && c[0] == DOT {
        assert(c@ =~= seq![DOT]);
        false
    } else if c.len() == 2 && c[0] == DOT && c[1] == DOT {
        assert(c@ =~= seq![DOT, DOT]);
        false
    } else {
        assert(c.len() == 1 ==> c@ != seq![DOT]) by {
            if c.len() == 1 {
                assert(c@[0] != seq![DOT][0]);
            }
        }
        assert(c.len() == 2 ==> c@ != seq![DOT, DOT]) by {
            if c.len() == 2 {
                assert(c@[0] != DOT || c@[1] != DOT);
                if c@ == seq![DOT, DOT] {
                    assert(c@[0] == seq![DOT, DOT][0]);
                    assert(c@[1] == seq![DOT, DOT][1]);
                }
            }
        }
        true
    }
}

/// The components of a path that name entries, in order (see `components`).
pub fn normal_components(path: &[u8]) -> (r: Vec<Vec<u8>>)
    ensures
        views(r@) == components(path@),
{
    let mut r: Vec<Vec<u8>> = Vec::new();
    let mut cur: Vec<u8> = Vec::new();
    let ghost mut done: Seq<Seq<u8>> = Seq::empty();
    let mut i: usize = 0;
    assert(path@.take(0) =~= Seq::<u8>::empty());
    assert(done.push(cur@) =~= seq![Seq::<u8>::empty()]);
    proof {
        reveal(Seq::filter);
        assert(done.filter(normal()) =~= Seq::<Seq<u8>>::empty());
    }
    while i < path.len()
        invariant
            i <= path@.len(),
            pieces(path@.take(i as int)) == done.push(cur@),
            views(r@) == done.filter(normal()),
        decreases path@.len() - i,
    {
        let b = path[i];
        let ghost before = path@.take(i as int);
        assert(path@.take((i + 1) as int).drop_last() =~= before);
        assert(path@.take((i + 1) as int).last() == b);
        if b == SEP {
            let keep = is_normal_component(cur.as_slice());
            proof {
                reveal(Seq::filter);
                assert(done.push(cur@).drop_last() =~= done);
            }
            if keep {
                let ghost old_r = r@;
                r.push(cur);
                assert(views(r@) =~= views(old_r).push(r@[r@.len() - 1]@));
            }
            proof {
                done = done.push(cur@);
            }
            cur = Vec::new();
            assert(pieces(path@.take((i + 1) as int)) =~= done.push(cur@));
        } else {
            let ghost old_cur = cur@;
            cur.push(b);
            assert(pieces(path@.take((i + 1) as int)) =~= done.push(cur@)) by {
                lemma_pieces_len(before);
                assert(done.push(old_cur).update(done.len() as int, old_cur.push(b))
                    =~= done.push(cur@));
            }
        }
        i = i + 1;
    }
    assert(path@.take(path@.len() as int) =~= path@);
    let keep = is_normal_component(cur.as_slice());
    proof {
        reveal(Seq::filter);
        assert(done.push(cur@).drop_last() =~= done);
    }
    if keep {
        let ghost old_r = r@;
        r.push(cur);
        assert(views(r@) =~= views(old_r).push(r@[r@.len() - 1]@));
    }
    r
}

/// `PathBuf::push`.
pub fn push_path_bytes(base: &mut Vec<u8>, seg: &[u8])
    ensures
        final(base)@ == push_path(old(base)@, seg@),
{
    if seg.len() > 0 && seg[0] == SEP {
        base.clear();
        append_bytes(base, seg);
        assert(base@ =~= seg@);
    } else {
        if base.len() > 0 && base[base.len() - 1] == SEP {
        } else if base.len() > 0 {
            base.push(SEP);
        }
        append_bytes(base, seg);
    }
}

} // verus!
