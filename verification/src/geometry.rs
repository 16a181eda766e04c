//! Rectangles on the virtual desktop, in physical pixels.

use vstd::prelude::*;

verus! {

/// A rectangle by its corner and its size.
#[derive(Clone, Copy, Debug, Default, PartialEq, Eq, Structural)]
pub struct Rect {
    pub x: i32,
    pub y: i32,
    pub width: i32,
    pub height: i32,
}

pub open spec fn is_i32(value: int) -> bool {
    i32::MIN <= value <= i32::MAX
}

impl Rect {
    pub open spec fn right(self) -> int {
        self.x + self.width
    }

    pub open spec fn bottom(self) -> int {
        self.y + self.height
    }

    /// Whether a pixel lies in the rectangle.
    pub open spec fn has(self, x: int, y: int) -> bool {
        self.x <= x < self.right() && self.y <= y < self.bottom()
    }

    /// Whether all of `inner` lies within this rectangle.
    pub open spec fn encloses(self, inner: Rect) -> bool {
        &&& self.x <= inner.x
        &&& self.y <= inner.y
        &&& inner.right() <= self.right()
        &&& inner.bottom() <= self.bottom()
    }

    /// The far corner is a point of the desktop as well.
    pub open spec fn ends_in_range(self) -> bool {
        is_i32(self.right()) && is_i32(self.bottom())
    }

    /// The rectangle between two corners.
    pub open spec fn between(left: int, top: int, right: int, bottom: int) -> Rect {
        Rect {
            x: left as i32,
            y: top as i32,
            width: (right - left) as i32,
            height: (bottom - top) as i32,
        }
    }

    /// The rectangle that the system describes by its four edges.
    pub fn from_edges(left: i32, top: i32, right: i32, bottom: i32) -> (rect: Rect)
        requires
            is_i32(right - left),
            is_i32(bottom - top),
        ensures
            rect == Rect::between(left as int, top as int, right as int, bottom as int),
            rect.x == left,
            rect.y == top,
            rect.right() == right,
            rect.bottom() == bottom,
    {
        Rect { x: left, y: top, width: right - left, height: bottom - top }
    }
}

/// The smallest of some numbers, 0 where there are none.
pub open spec fn least(values: Seq<int>) -> int
    decreases values.len(),
{
    if values.len() == 0 {
        0
    } else if values.len() == 1 {
        values[0]
    } else if least(values.drop_last()) < values.last() {
        least(values.drop_last())
    } else {
        values.last()
    }
}

/// The largest of some numbers, 0 where there are none.
pub open spec fn greatest(values: Seq<int>) -> int
    decreases values.len(),
{
    if values.len() == 0 {
        0
    } else if values.len() == 1 {
        values[0]
    } else if greatest(values.drop_last()) > values.last() {
        greatest(values.drop_last())
    } else {
        values.last()
    }
}

pub open spec fn lefts(rects: Seq<Rect>) -> Seq<int> {
    rects.map_values(|r: Rect| r.x as int)
}

pub open spec fn tops(rects: Seq<Rect>) -> Seq<int> {
    rects.map_values(|r: Rect| r.y as int)
}

pub open spec fn rights(rects: Seq<Rect>) -> Seq<int> {
    rects.map_values(|r: Rect| r.right())
}

pub open spec fn bottoms(rects: Seq<Rect>) -> Seq<int> {
    rects.map_values(|r: Rect| r.bottom())
}

/// The rectangle from the leftmost edge to the rightmost one, and from the
/// topmost to the bottommost. Empty at the origin where there is nothing to join.
pub open spec fn union_of(rects: Seq<Rect>) -> Rect {
    Rect::between(
        least(lefts(rects)),
        least(tops(rects)),
        greatest(rights(rects)),
        greatest(bottoms(rects)),
    )
}

/// Whether the corners and the size of the union are all in range.
pub open spec fn union_in_range(rects: Seq<Rect>) -> bool {
    &&& forall|i: int| 0 <= i < rects.len() ==> (#[trigger] rects[i]).ends_in_range()
    &&& is_i32(greatest(rights(rects)) - least(lefts(rects)))
    &&& is_i32(greatest(bottoms(rects)) - least(tops(rects)))
}

proof fn lemma_least(values: Seq<int>)
    requires
        values.len() > 0,
    ensures
        forall|i: int| 0 <= i < values.len() ==> least(values) <= #[trigger] values[i],
        exists|i: int| 0 <= i < values.len() && least(values) == #[trigger] values[i],
    decreases values.len(),
{
    if values.len() == 1 {
        assert(least(values) == values[0]);
    } else {
        let front = values.drop_last();
        lemma_least(front);
        assert forall|i: int| 0 <= i < values.len() implies least(values) <= #[trigger] values[i] by {
            if i < front.len() {
                assert(front[i] == values[i]);
            }
        }
        let at = choose|i: int| 0 <= i < front.len() && least(front) == #[trigger] front[i];
        assert(values[at] == front[at]);
        assert(values.last() == values[values.len() - 1]);
    }
}

proof fn lemma_greatest(values: Seq<int>)
    requires
        values.len() > 0,
    ensures
        forall|i: int| 0 <= i < values.len() ==> greatest(values) >= #[trigger] values[i],
        exists|i: int| 0 <= i < values.len() && greatest(values) == #[trigger] values[i],
    decreases values.len(),
{
    if values.len() == 1 {
        assert(greatest(values) == values[0]);
    } else {
        let front = values.drop_last();
        lemma_greatest(front);
        assert forall|i: int| 0 <= i < values.len() implies greatest(values)
            >= #[trigger] values[i] by {
            if i < front.len() {
                assert(front[i] == values[i]);
            }
        }
        let at = choose|i: int| 0 <= i < front.len() && greatest(front) == #[trigger] front[i];
        assert(values[at] == front[at]);
        assert(values.last() == values[values.len() - 1]);
    }
}

spec fn extremes(rects: Seq<Rect>) -> (int, int, int, int) {
    (least(lefts(rects)), least(tops(rects)), greatest(rights(rects)), greatest(bottoms(rects)))
}

proof fn lemma_extremes_step(rects: Seq<Rect>, count: int)
    requires
        0 < count < rects.len(),
    ensures
        extremes(rects.take(count + 1)) == ({
            let (left, top, right, bottom) = extremes(rects.take(count));
            let next = rects[count];
            (
                if left < next.x {
                    left
                } else {
                    next.x as int
                },
                if top < next.y {
                    top
                } else {
                    next.y as int
                },
                if right > next.right() {
                    right
                } else {
                    next.right()
                },
                if bottom > next.bottom() {
                    bottom
                } else {
                    next.bottom()
                },
            )
        }),
{
    let longer = rects.take(count + 1);
    let shorter = rects.take(count);
    assert(lefts(longer).drop_last() == lefts(shorter));
    assert(tops(longer).drop_last() == tops(shorter));
    assert(rights(longer).drop_last() == rights(shorter));
    assert(bottoms(longer).drop_last() == bottoms(shorter));
}

/// The edges of the union, wherever they lie.
fn extremes_of(rects: &[Rect]) -> (edges: (i64, i64, i64, i64))
    ensures
        (edges.0 as int, edges.1 as int, edges.2 as int, edges.3 as int) == extremes(rects@),
        -0x1_0000_0000 <= edges.0 <= 0x1_0000_0000,
        -0x1_0000_0000 <= edges.1 <= 0x1_0000_0000,
        -0x1_0000_0000 <= edges.2 <= 0x1_0000_0000,
        -0x1_0000_0000 <= edges.3 <= 0x1_0000_0000,
{
    if rects.len() == 0 {
        return (0, 0, 0, 0);
    }
    let first = rects[0];
    let mut left: i64 = first.x as i64;
    let mut top: i64 = first.y as i64;
    let mut right: i64 = first.x as i64 + first.width as i64;
    let mut bottom: i64 = first.y as i64 + first.height as i64;
    let mut i: usize = 1;
    proof {
        let one = rects@.take(1);
        assert(lefts(one)[0] == left && tops(one)[0] == top);
        assert(rights(one)[0] == right && bottoms(one)[0] == bottom);
    }
    while i < rects.len()
        invariant
            1 <= i <= rects@.len(),
            (left as int, top as int, right as int, bottom as int) == extremes(
                rects@.take(i as int),
            ),
            -0x1_0000_0000 <= left <= 0x1_0000_0000,
            -0x1_0000_0000 <= top <= 0x1_0000_0000,
            -0x1_0000_0000 <= right <= 0x1_0000_0000,
            -0x1_0000_0000 <= bottom <= 0x1_0000_0000,
        decreases rects@.len() - i,
    {
        proof {
            lemma_extremes_step(rects@, i as int);
        }
        let next = rects[i];
        let next_right: i64 = next.x as i64 + next.width as i64;
        let next_bottom: i64 = next.y as i64 + next.height as i64;
        if next.x as i64 <= left {
            left = next.x as i64;
        }
        if next.y as i64 <= top {
            top = next.y as i64;
        }
        if next_right >= right {
            right = next_right;
        }
        if next_bottom >= bottom {
            bottom = next_bottom;
        }
        i += 1;
    }
    assert(rects@.take(i as int) == rects@);
    (left, top, right, bottom)
}

/// Whether [`union`] may be taken.
pub fn union_fits(rects: &[Rect]) -> (fits: bool)
    ensures
        fits == union_in_range(rects@),
{
    let mut i: usize = 0;
    while i < rects.len()
        invariant
            i <= rects@.len(),
            forall|j: int| 0 <= j < i ==> (#[trigger] rects@[j]).ends_in_range(),
        decreases rects@.len() - i,
    {
        let rect = rects[i];
        let right: i64 = rect.x as i64 + rect.width as i64;
        let bottom: i64 = rect.y as i64 + rect.height as i64;
        if right < i32::MIN as i64 || right > i32::MAX as i64 || bottom < i32::MIN as i64 || bottom
            > i32::MAX as i64 {
            assert(!rects@[i as int].ends_in_range());
            return false;
        }
        i += 1;
    }
    let (left, top, right, bottom) = extremes_of(rects);
    let width: i64 = right - left;
    let height: i64 = bottom - top;
    i32::MIN as i64 <= width && width <= i32::MAX as i64 && i32::MIN as i64 <= height && height
        <= i32::MAX as i64
}

/// The smallest rectangle around all the others.
pub fn union(rects: &[Rect]) -> (joined: Rect)
    requires
        union_in_range(rects@),
    ensures
        joined == union_of(rects@),
{
    let (left, top, right, bottom) = extremes_of(rects);
    proof {
        lemma_union_corners(rects@);
    }
    Rect {
        x: left as i32,
        y: top as i32,
        width: (right - left) as i32,
        height: (bottom - top) as i32,
    }
}

proof fn lemma_union_corners(rects: Seq<Rect>)
    requires
        union_in_range(rects),
    ensures
        is_i32(least(lefts(rects))),
        is_i32(least(tops(rects))),
        union_of(rects).x == least(lefts(rects)),
        union_of(rects).y == least(tops(rects)),
        union_of(rects).right() == greatest(rights(rects)),
        union_of(rects).bottom() == greatest(bottoms(rects)),
{
    if rects.len() > 0 {
        lemma_least(lefts(rects));
        lemma_least(tops(rects));
        assert(lefts(rects)[0] == rects[0].x);
        assert(tops(rects)[0] == rects[0].y);
    }
}

/// The union of some rectangles encloses every one of them.
pub proof fn union_encloses_each(rects: Seq<Rect>, i: int)
    requires
        union_in_range(rects),
        0 <= i < rects.len(),
    ensures
        union_of(rects).encloses(rects[i]),
{
    lemma_union_corners(rects);
    lemma_least(lefts(rects));
    lemma_least(tops(rects));
    lemma_greatest(rights(rects));
    lemma_greatest(bottoms(rects));
    assert(lefts(rects)[i] == rects[i].x);
    assert(tops(rects)[i] == rects[i].y);
    assert(rights(rects)[i] == rects[i].right());
    assert(bottoms(rects)[i] == rects[i].bottom());
}

/// Nothing smaller would do: whatever encloses all of them encloses their union.
pub proof fn union_is_smallest(rects: Seq<Rect>, outer: Rect)
    requires
        union_in_range(rects),
        rects.len() > 0,
        forall|i: int| 0 <= i < rects.len() ==> outer.encloses(#[trigger] rects[i]),
    ensures
        outer.encloses(union_of(rects)),
{
    lemma_union_corners(rects);
    lemma_least(lefts(rects));
    lemma_least(tops(rects));
    lemma_greatest(rights(rects));
    lemma_greatest(bottoms(rects));
    let l = choose|i: int| 0 <= i < lefts(rects).len() && least(lefts(rects)) == #[trigger] lefts(
        rects,
    )[i];
    let t = choose|i: int| 0 <= i < tops(rects).len() && least(tops(rects)) == #[trigger] tops(
        rects,
    )[i];
    let r = choose|i: int|
        0 <= i < rights(rects).len() && greatest(rights(rects)) == #[trigger] rights(rects)[i];
    let b = choose|i: int|
        0 <= i < bottoms(rects).len() && greatest(bottoms(rects)) == #[trigger] bottoms(rects)[i];
    assert(outer.encloses(rects[l]) && outer.encloses(rects[t]));
    assert(outer.encloses(rects[r]) && outer.encloses(rects[b]));
}


/// The edges of the union are edges of its parts: no part reaches beyond them, and
/// each is reached by some part.
pub proof fn union_reaches_its_edges(rects: Seq<Rect>) -> (edges: (int, int, int, int))
    requires
        union_in_range(rects),
        rects.len() > 0,
    ensures
        0 <= edges.0 < rects.len() && union_of(rects).x == rects[edges.0].x,
        0 <= edges.1 < rects.len() && union_of(rects).y == rects[edges.1].y,
        0 <= edges.2 < rects.len() && union_of(rects).x + union_of(rects).width
            == rects[edges.2].x + rects[edges.2].width,
        0 <= edges.3 < rects.len() && union_of(rects).y + union_of(rects).height
            == rects[edges.3].y + rects[edges.3].height,
        forall|i: int|
            0 <= i < rects.len() ==> {
                &&& union_of(rects).x <= (#[trigger] rects[i]).x
                &&& union_of(rects).y <= rects[i].y
                &&& rects[i].x + rects[i].width <= union_of(rects).x + union_of(rects).width
                &&& rects[i].y + rects[i].height <= union_of(rects).y + union_of(rects).height
            },
{
    lemma_union_corners(rects);
    lemma_least(lefts(rects));
    lemma_least(tops(rects));
    lemma_greatest(rights(rects));
    lemma_greatest(bottoms(rects));
    let l = choose|i: int| 0 <= i < lefts(rects).len() && least(lefts(rects)) == #[trigger] lefts(
        rects,
    )[i];
    let t = choose|i: int| 0 <= i < tops(rects).len() && least(tops(rects)) == #[trigger] tops(
        rects,
    )[i];
    let r = choose|i: int|
        0 <= i < rights(rects).len() && greatest(rights(rects)) == #[trigger] rights(rects)[i];
    let b = choose|i: int|
        0 <= i < bottoms(rects).len() && greatest(bottoms(rects)) == #[trigger] bottoms(rects)[i];
    assert forall|i: int| 0 <= i < rects.len() implies {
        &&& union_of(rects).x <= (#[trigger] rects[i]).x
        &&& union_of(rects).y <= rects[i].y
        &&& rects[i].x + rects[i].width <= union_of(rects).x + union_of(rects).width
        &&& rects[i].y + rects[i].height <= union_of(rects).y + union_of(rects).height
    } by {
        union_encloses_each(rects, i);
    }
    (l, t, r, b)
}

/// Nothing at all has an empty union at the origin.
pub proof fn union_of_nothing_is_empty()
    ensures
        union_of(Seq::<Rect>::empty()) == (Rect { x: 0, y: 0, width: 0, height: 0 }),
{
    let none = Seq::<Rect>::empty();
    assert(lefts(none).len() == 0 && tops(none).len() == 0);
    assert(rights(none).len() == 0 && bottoms(none).len() == 0);
}

/// The union of rectangles of any sensible size and place can be taken.
pub proof fn sensible_unions_fit(rects: Seq<Rect>)
    requires
        forall|i: int|
            0 <= i < rects.len() ==> {
                &&& -0x2000_0000 <= (#[trigger] rects[i]).x
                &&& -0x2000_0000 <= rects[i].y
                &&& rects[i].x <= 0x2000_0000
                &&& rects[i].y <= 0x2000_0000
                &&& -0x2000_0000 <= rects[i].x + rects[i].width <= 0x2000_0000
                &&& -0x2000_0000 <= rects[i].y + rects[i].height <= 0x2000_0000
            },
    ensures
        union_in_range(rects),
{
    if rects.len() > 0 {
        lemma_least(lefts(rects));
        lemma_least(tops(rects));
        lemma_greatest(rights(rects));
        lemma_greatest(bottoms(rects));
        let l = choose|i: int|
            0 <= i < lefts(rects).len() && least(lefts(rects)) == #[trigger] lefts(rects)[i];
        let t = choose|i: int|
            0 <= i < tops(rects).len() && least(tops(rects)) == #[trigger] tops(rects)[i];
        let r = choose|i: int|
            0 <= i < rights(rects).len() && greatest(rights(rects)) == #[trigger] rights(rects)[i];
        let b = choose|i: int|
            0 <= i < bottoms(rects).len() && greatest(bottoms(rects)) == #[trigger] bottoms(
                rects,
            )[i];
        assert(lefts(rects)[l] == rects[l].x);
        assert(tops(rects)[t] == rects[t].y);
        assert(rights(rects)[r] == rects[r].right());
        assert(bottoms(rects)[b] == rects[b].bottom());
    }
}

} // verus!
