//! Areas of the desktop that shrink as windows are cut out of them.

use crate::geometry::Rect;
use vstd::prelude::*;

verus! {

/// A rectangle by its four edges; the right and the bottom one lie outside it.
#[derive(Clone, Copy, Debug, PartialEq, Eq, Structural)]
pub struct Edges {
    pub left: i64,
    pub top: i64,
    pub right: i64,
    pub bottom: i64,
}

impl Edges {
    /// Whether a pixel lies between the edges.
    pub open spec fn has(self, x: int, y: int) -> bool {
        self.left <= x < self.right && self.top <= y < self.bottom
    }

    pub open spec fn is_empty(self) -> bool {
        self.right <= self.left || self.bottom <= self.top
    }

    /// The edges of a rectangle.
    pub fn of(rect: Rect) -> (edges: Edges)
        ensures
            edges.left == rect.x,
            edges.top == rect.y,
            edges.right == rect.right(),
            edges.bottom == rect.bottom(),
            forall|x: int, y: int| edges.has(x, y) == rect.has(x, y),
    {
        Edges {
            left: rect.x as i64,
            top: rect.y as i64,
            right: rect.x as i64 + rect.width as i64,
            bottom: rect.y as i64 + rect.height as i64,
        }
    }
}

/// Whether any of some rectangles has a pixel.
pub open spec fn any_has(parts: Seq<Edges>, x: int, y: int) -> bool {
    exists|i: int| 0 <= i < parts.len() && (#[trigger] parts[i]).has(x, y)
}

/// A set of pixels, as rectangles none of which is empty.
pub struct Region {
    parts: Vec<Edges>,
}

impl Region {
    pub closed spec fn wf(&self) -> bool {
        forall|i: int| 0 <= i < self.parts@.len() ==> !(#[trigger] self.parts@[i]).is_empty()
    }

    /// Whether a pixel belongs to the region.
    pub closed spec fn has(&self, x: int, y: int) -> bool {
        any_has(self.parts@, x, y)
    }

    /// The region between four edges.
    pub fn rectangle(edges: Edges) -> (region: Region)
        requires
            !edges.is_empty(),
        ensures
            region.wf(),
            forall|x: int, y: int| #[trigger] region.has(x, y) == edges.has(x, y),
    {
        let mut parts: Vec<Edges> = Vec::new();
        parts.push(edges);
        assert forall|x: int, y: int| any_has(parts@, x, y) == edges.has(x, y) by {
            assert(parts@[0] == edges);
        }
        Region { parts }
    }

    /// Whether no pixel is left.
    pub fn is_empty(&self) -> (empty: bool)
        requires
            self.wf(),
        ensures
            empty <==> forall|x: int, y: int| ! #[trigger] self.has(x, y),
    {
        if self.parts.len() == 0 {
            true
        } else {
            proof {
                let part = self.parts@[0];
                assert(part.has(part.left as int, part.top as int));
                assert(self.has(part.left as int, part.top as int));
            }
            false
        }
    }

    /// Takes the pixels between four edges out of the region.
    pub fn subtract(&mut self, cut: Edges)
        requires
            old(self).wf(),
        ensures
            final(self).wf(),
            forall|x: int, y: int| #[trigger]
                final(self).has(x, y) == (old(self).has(x, y) && !cut.has(x, y)),
    {
        let mut kept: Vec<Edges> = Vec::new();
        let mut i: usize = 0;
        while i < self.parts.len()
            invariant
                i <= self.parts@.len(),
                self.wf(),
                *self == *old(self),
                forall|j: int| 0 <= j < kept@.len() ==> !(#[trigger] kept@[j]).is_empty(),
                forall|x: int, y: int|
                    #![trigger any_has(kept@, x, y)]
                    any_has(kept@, x, y) == (any_has(self.parts@.take(i as int), x, y) && !cut.has(
                        x,
                        y,
                    )),
            decreases self.parts@.len() - i,
        {
            let ghost before = kept@;
            carve(&mut kept, self.parts[i], cut);
            assert forall|x: int, y: int|
                #![trigger any_has(kept@, x, y)]
                any_has(kept@, x, y) == (any_has(self.parts@.take(i + 1), x, y) && !cut.has(
                    x,
                    y,
                )) by {
                lemma_one_more(self.parts@.take(i as int), self.parts@[i as int], x, y);
                assert(self.parts@.take(i + 1) == self.parts@.take(i as int).push(
                    self.parts@[i as int],
                ));
                assert(any_has(before, x, y) == (any_has(self.parts@.take(i as int), x, y)
                    && !cut.has(x, y)));
            }
            i += 1;
        }
        assert(self.parts@.take(i as int) == self.parts@);
        self.parts = kept;
        assert forall|x: int, y: int| #[trigger] self.has(x, y) == (old(self).has(x, y) && !cut.has(x, y)) by {
            assert(any_has(kept@, x, y) == (any_has(old(self).parts@, x, y) && !cut.has(x, y)));
        }
    }
}

proof fn lemma_one_more(parts: Seq<Edges>, next: Edges, x: int, y: int)
    ensures
        any_has(parts.push(next), x, y) == (any_has(parts, x, y) || next.has(x, y)),
{
    let more = parts.push(next);
    if any_has(parts, x, y) {
        let i = choose|i: int| 0 <= i < parts.len() && (#[trigger] parts[i]).has(x, y);
        assert(more[i] == parts[i]);
    }
    if next.has(x, y) {
        assert(more[parts.len() as int] == next);
    }
    if any_has(more, x, y) {
        let i = choose|i: int| 0 <= i < more.len() && (#[trigger] more[i]).has(x, y);
        if i < parts.len() {
            assert(parts[i] == more[i]);
        }
    }
}

fn keep(kept: &mut Vec<Edges>, piece: Edges)
    requires
        forall|j: int| 0 <= j < old(kept)@.len() ==> !(#[trigger] old(kept)@[j]).is_empty(),
    ensures
        forall|j: int| 0 <= j < final(kept)@.len() ==> !(#[trigger] final(kept)@[j]).is_empty(),
        forall|x: int, y: int|
            #![trigger any_has(final(kept)@, x, y)]
            any_has(final(kept)@, x, y) == (any_has(old(kept)@, x, y) || piece.has(x, y)),
{
    if piece.left < piece.right && piece.top < piece.bottom {
        let ghost before = kept@;
        kept.push(piece);
        assert forall|x: int, y: int|
            #![trigger any_has(kept@, x, y)]
            any_has(kept@, x, y) == (any_has(before, x, y) || piece.has(x, y)) by {
            lemma_one_more(before, piece, x, y);
        }
    }
}

/// Keeps what is left of one rectangle around a cut: the strips above and below
/// it, and the two pieces beside it.
fn carve(kept: &mut Vec<Edges>, part: Edges, cut: Edges)
    requires
        forall|j: int| 0 <= j < old(kept)@.len() ==> !(#[trigger] old(kept)@[j]).is_empty(),
    ensures
        forall|j: int| 0 <= j < final(kept)@.len() ==> !(#[trigger] final(kept)@[j]).is_empty(),
        forall|x: int, y: int|
            #![trigger any_has(final(kept)@, x, y)]
            any_has(final(kept)@, x, y) == (any_has(old(kept)@, x, y) || (part.has(x, y)
                && !cut.has(x, y))),
{
    let left = if cut.left < part.left {
        part.left
    } else {
        cut.left
    };
    let top = if cut.top < part.top {
        part.top
    } else {
        cut.top
    };
    let right = if cut.right > part.right {
        part.right
    } else {
        cut.right
    };
    let bottom = if cut.bottom > part.bottom {
        part.bottom
    } else {
        cut.bottom
    };
    if right <= left || bottom <= top {
        keep(kept, part);
        return;
    }
    let ghost start = kept@;
    keep(kept, Edges { left: part.left, top: part.top, right: part.right, bottom: top });
    let ghost above = kept@;
    keep(kept, Edges { left: part.left, top: bottom, right: part.right, bottom: part.bottom });
    let ghost below = kept@;
    keep(kept, Edges { left: part.left, top, right: left, bottom });
    let ghost beside = kept@;
    keep(kept, Edges { left: right, top, right: part.right, bottom });
    assert forall|x: int, y: int|
        #![trigger any_has(kept@, x, y)]
        any_has(kept@, x, y) == (any_has(start, x, y) || (part.has(x, y) && !cut.has(x, y))) by {
        assert(any_has(beside, x, y) || !any_has(beside, x, y));
        assert(any_has(below, x, y) || !any_has(below, x, y));
        assert(any_has(above, x, y) || !any_has(above, x, y));
    }
}

} // verus!
