//! Draw order of fancy-console glyphs and sprites.
//!
//! Before a fancy console or a sprite console is rebuilt, its glyphs (or
//! sprites) are put in ascending z order with a stable sort, so that items of
//! equal z order keep the order in which they were added. An item is carried
//! here as its z order and its position in the console's list.
use vstd::prelude::*;
use crate::seqs::lemma_filter_push;

verus! {

/// A glyph or sprite, as far as drawing order goes: its z order and where it
/// sits in the console's list.
#[derive(Clone, Copy, PartialEq, Eq, Debug, Structural)]
pub struct ZTile {
    pub z_order: i32,
    pub id: usize,
}

/// The items whose z order is `z`.
pub open spec fn with_z(z: i32) -> spec_fn(ZTile) -> bool {
    |t: ZTile| t.z_order == z
}

/// Ascending z order.
pub open spec fn z_sorted(s: Seq<ZTile>) -> bool {
    forall|a: int, b: int| 0 <= a < b < s.len() ==> s[a].z_order <= s[b].z_order
}

/// `out` is `input` sorted by z order with a stable sort: ascending, and for
/// each z order the items that carry it appear in the order they had.
pub open spec fn stable_z_sort_of(out: Seq<ZTile>, input: Seq<ZTile>) -> bool {
    &&& out.len() == input.len()
    &&& z_sorted(out)
    &&& forall|z: i32| #[trigger] out.filter(with_z(z)) == input.filter(with_z(z))
}

proof fn lemma_filter_none(s: Seq<ZTile>, z: i32)
    requires
        forall|k: int| 0 <= k < s.len() ==> (#[trigger] s[k]).z_order != z,
    ensures
        s.filter(with_z(z)) == Seq::<ZTile>::empty(),
{
    broadcast use vstd::seq_lib::group_filter_ensures;

    let f = s.filter(with_z(z));
    if f.len() > 0 {
        assert(with_z(z)(f[0]));
        assert(f.contains(f[0]));
        s.lemma_filter_contains_rev(with_z(z), f[0]);
    }
}

/// Puts the items in ascending z order; items of equal z order keep their
/// relative order.
pub fn sort_by_z_order(tiles: &mut Vec<ZTile>)
    ensures
        stable_z_sort_of(final(tiles)@, old(tiles)@),
{
    let ghost input = tiles@;
    let mut out: Vec<ZTile> = Vec::new();
    let mut i: usize = 0;
    while i < tiles.len()
        invariant
            tiles@ == input,
            i <= input.len(),
            out@.len() == i,
            z_sorted(out@),
            forall|z: i32| #[trigger] out@.filter(with_z(z)) == input.take(i as int).filter(with_z(z)),
        decreases input.len() - i,
    {
        let e = tiles[i];
        let mut pos: usize = 0;
        while pos < out.len() && out[pos].z_order <= e.z_order
            invariant
                pos <= out@.len(),
                forall|k: int| 0 <= k < pos ==> (#[trigger] out@[k]).z_order <= e.z_order,
            decreases out@.len() - pos,
        {
            pos = pos + 1;
        }
        let ghost before = out@;
        out.insert(pos, e);
        proof {
            let pre = before.subrange(0, pos as int);
            let post = before.subrange(pos as int, before.len() as int);
            assert(before == pre + post);
            assert(out@ == pre + seq![e] + post);
            assert forall|k: int| 0 <= k < post.len() implies (#[trigger] post[k]).z_order
                > e.z_order by {
                if pos < before.len() {
                    assert(before[pos as int].z_order > e.z_order);
                    assert(post[k] == before[pos + k]);
                    assert(post[0] == before[pos as int]);
                }
            }
            assert(input.take(i + 1) == input.take(i as int).push(e));
            assert forall|z: i32| #[trigger] out@.filter(with_z(z)) == input.take(i + 1).filter(
                with_z(z),
            ) by {
                let p = with_z(z);
                Seq::filter_distributes_over_add(pre + seq![e], post, p);
                Seq::filter_distributes_over_add(pre, seq![e], p);
                Seq::filter_distributes_over_add(pre, post, p);
                lemma_filter_push(Seq::<ZTile>::empty(), e, p);
                assert(seq![e] == Seq::<ZTile>::empty().push(e));
                reveal_with_fuel(Seq::filter, 1);
                lemma_filter_push(input.take(i as int), e, p);
                assert(before.filter(p) == input.take(i as int).filter(p));
                if e.z_order == z {
                    lemma_filter_none(post, z);
                    assert(pre.filter(p) + seq![e] == pre.filter(p).push(e));
                }
            }
            assert forall|a: int, b: int| 0 <= a < b < out@.len() implies out@[a].z_order
                <= out@[b].z_order by {
                if a < pos && b < pos {
                    assert(out@[a] == before[a] && out@[b] == before[b]);
                } else if a < pos && b == pos {
                } else if a < pos {
                    assert(out@[a] == before[a] && out@[b] == before[b - 1]);
                } else if a == pos {
                    assert(out@[b] == post[b - pos - 1]);
                } else {
                    assert(out@[a] == before[a - 1] && out@[b] == before[b - 1]);
                }
            }
        }
        i = i + 1;
    }
    proof {
        assert(input.take(input.len() as int) == input);
    }
    *tiles = out;
}

} // verus!
