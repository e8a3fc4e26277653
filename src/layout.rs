//! The layout engine: every node is sized to its content and placed at an
//! absolute position, in one recursive pass.
use vstd::prelude::*;
use crate::geometry::Rect;
use crate::metrics::{FontFaces, text_width};
use crate::widget::{Direction, Widget};

verus! {

/// A node of the positioned tree. It mirrors the widget tree it was computed
/// from: one rectangle per node, children in the same order.
#[derive(Debug)]
pub struct Placed {
    pub rect: Rect,
    pub children: Vec<Placed>,
}

/// The result of one layout pass: the viewport it was computed for and the
/// positioned tree, whose root is anchored at the origin.
#[derive(Debug)]
pub struct Layout {
    pub viewport_w: u64,
    pub viewport_h: u64,
    pub root: Placed,
}

/// The extent of a size `(width, height)` along a direction's main axis.
pub open spec fn main_len(d: Direction, s: (nat, nat)) -> nat {
    if d.spec_is_vertical() {
        s.1
    } else {
        s.0
    }
}

/// The extent of a size `(width, height)` across a direction's main axis.
pub open spec fn cross_len(d: Direction, s: (nat, nat)) -> nat {
    if d.spec_is_vertical() {
        s.0
    } else {
        s.1
    }
}

/// The content size `(width, height)` of a node. A leaf is as wide as its
/// label and as tall as its face's line; a flow container's main extent is
/// the sum of its children's, its cross extent their maximum.
pub open spec fn spec_size(w: Widget, f: FontFaces) -> (nat, nat)
    decreases w,
{
    match w {
        Widget::Leaf(l) => (
            text_width(f.spec_face(l.face), l.label@),
            f.spec_face(l.face).line_height as nat,
        ),
        Widget::Flow(d, cs) => {
            let m = sum_main(d, cs@, f);
            let c = max_cross(d, cs@, f);
            if d.spec_is_vertical() {
                (c, m)
            } else {
                (m, c)
            }
        },
    }
}

/// The sum of the children's extents along the main axis.
pub open spec fn sum_main(d: Direction, cs: Seq<Widget>, f: FontFaces) -> nat
    decreases cs,
{
    if cs.len() == 0 {
        0
    } else {
        sum_main(d, cs.drop_last(), f) + main_len(d, spec_size(cs.last(), f))
    }
}

/// The largest of the children's extents across the main axis, 0 for none.
pub open spec fn max_cross(d: Direction, cs: Seq<Widget>, f: FontFaces) -> nat
    decreases cs,
{
    if cs.len() == 0 {
        0
    } else {
        let a = max_cross(d, cs.drop_last(), f);
        let b = cross_len(d, spec_size(cs.last(), f));
        if a >= b {
            a
        } else {
            b
        }
    }
}

/// The offset of child `i` from its container's origin along the main axis:
/// the extents of the children before it, or after it for `Up` and `Left`.
pub open spec fn main_offset(d: Direction, cs: Seq<Widget>, f: FontFaces, i: int) -> int {
    if d.spec_is_reversed() {
        sum_main(d, cs, f) - sum_main(d, cs.subrange(0, i + 1), f)
    } else {
        sum_main(d, cs.subrange(0, i), f) as int
    }
}

/// Where child `i` of a flow container at `(x, y)` has its origin; children
/// are aligned to the container's left or top edge across the main axis.
pub open spec fn child_origin(d: Direction, cs: Seq<Widget>, f: FontFaces, i: int, x: int, y: int) -> (int, int) {
    if d.spec_is_vertical() {
        (x, y + main_offset(d, cs, f, i))
    } else {
        (x + main_offset(d, cs, f, i), y)
    }
}

/// `p` is the positioned form of `w` with its origin at `(x, y)`.
pub open spec fn placed_at(p: Placed, w: Widget, f: FontFaces, x: int, y: int) -> bool
    decreases w,
{
    &&& p.rect.x == x
    &&& p.rect.y == y
    &&& p.rect.w == spec_size(w, f).0
    &&& p.rect.h == spec_size(w, f).1
    &&& match w {
        Widget::Leaf(_) => p.children@.len() == 0,
        Widget::Flow(d, cs) => {
            &&& p.children@.len() == cs@.len()
            &&& forall|i: int|
                0 <= i < cs@.len() ==> placed_at(
                    #[trigger] p.children@[i],
                    cs@[i],
                    f,
                    child_origin(d, cs@, f, i, x, y).0,
                    child_origin(d, cs@, f, i, x, y).1,
                )
        },
    }
}

/// The node, placed at `(x, y)`, ends within 64-bit coordinates.
pub open spec fn spec_fits(w: Widget, f: FontFaces, x: int, y: int) -> bool {
    &&& x + spec_size(w, f).0 <= u64::MAX
    &&& y + spec_size(w, f).1 <= u64::MAX
}

/// One more child adds its main extent to the sum and may raise the maximum.
pub proof fn lemma_sums_step(d: Direction, cs: Seq<Widget>, f: FontFaces, i: int)
    requires
        0 <= i < cs.len(),
    ensures
        sum_main(d, cs.subrange(0, i + 1), f) == sum_main(d, cs.subrange(0, i), f) + main_len(
            d,
            spec_size(cs[i], f),
        ),
        max_cross(d, cs.subrange(0, i + 1), f) >= max_cross(d, cs.subrange(0, i), f),
        max_cross(d, cs.subrange(0, i + 1), f) >= cross_len(d, spec_size(cs[i], f)),
{
    assert(cs.subrange(0, i + 1).drop_last() =~= cs.subrange(0, i));
}

/// Sums and maxima over a prefix never exceed those over the whole sequence.
pub proof fn lemma_prefix_bounds(d: Direction, cs: Seq<Widget>, f: FontFaces, k: int)
    requires
        0 <= k <= cs.len(),
    ensures
        sum_main(d, cs.subrange(0, k), f) <= sum_main(d, cs, f),
        max_cross(d, cs.subrange(0, k), f) <= max_cross(d, cs, f),
    decreases cs.len(),
{
    if k == cs.len() {
        assert(cs.subrange(0, k) =~= cs);
    } else {
        assert(cs.drop_last().subrange(0, k) =~= cs.subrange(0, k));
        lemma_prefix_bounds(d, cs.drop_last(), f, k);
    }
}

/// The maximum is reached by one of the children, or is 0 when there are none.
pub proof fn lemma_max_cross_attained(d: Direction, cs: Seq<Widget>, f: FontFaces)
    ensures
        cs.len() == 0 ==> max_cross(d, cs, f) == 0,
        cs.len() > 0 ==> exists|i: int|
            0 <= i < cs.len() && max_cross(d, cs, f) == cross_len(d, spec_size(#[trigger] cs[i], f)),
    decreases cs.len(),
{
    if cs.len() > 0 {
        lemma_max_cross_attained(d, cs.drop_last(), f);
        if max_cross(d, cs, f) != cross_len(d, spec_size(cs.last(), f)) {
            let j = choose|j: int|
                0 <= j < cs.drop_last().len() && max_cross(d, cs.drop_last(), f) == cross_len(
                    d,
                    spec_size(#[trigger] cs.drop_last()[j], f),
                );
            assert(cs[j] == cs.drop_last()[j]);
        }
    }
}

/// Every child's cross extent is at most the maximum.
pub proof fn lemma_max_cross_bound(d: Direction, cs: Seq<Widget>, f: FontFaces, i: int)
    requires
        0 <= i < cs.len(),
    ensures
        cross_len(d, spec_size(cs[i], f)) <= max_cross(d, cs, f),
{
    lemma_sums_step(d, cs, f, i);
    lemma_prefix_bounds(d, cs, f, i + 1);
}

/// Sizes `w` to its content and places it with its origin at `(x, y)`.
/// Fails exactly when the node would reach past 64-bit coordinates.
#[verifier::rlimit(40)]
pub fn place(w: &Widget, f: &FontFaces, x: u64, y: u64) -> (r: Option<Placed>)
    ensures
        r is Some <==> spec_fits(*w, *f, x as int, y as int),
        r matches Some(p) ==> placed_at(p, *w, *f, x as int, y as int),
    decreases w,
{
    match w {
        Widget::Leaf(l) => {
            let m = f.face(l.face);
            match m.text_width(l.label.as_str()) {
                None => None,
                Some(tw) => {
                    if tw > u64::MAX - x || m.line_height > u64::MAX - y {
                        None
                    } else {
                        Some(
                            Placed {
                                rect: Rect { x, y, w: tw, h: m.line_height },
                                children: Vec::new(),
                            },
                        )
                    }
                },
            }
        },
        Widget::Flow(d, cs) => {
            let ghost s = cs@;
            let ghost fs = *f;
            let ghost total = sum_main(*d, s, fs);
            let n = cs.len();
            let vertical = d.is_vertical();
            let reversed = d.is_reversed();
            let base: u64 = if vertical {
                y
            } else {
                x
            };
            let mut off: u64 = base;
            let mut cross: u64 = 0;
            let mut kids: Vec<Placed> = Vec::new();
            assert(s.subrange(0, n as int) =~= s);
            assert(s.subrange(0, 0).len() == 0);
            for k in 0..n
                invariant
                    n == s.len(),
                    s == cs@,
                    fs == *f,
                    total == sum_main(*d, s, fs),
                    *w == Widget::Flow(*d, *cs),
                    vertical == d.spec_is_vertical(),
                    reversed == d.spec_is_reversed(),
                    base == (if vertical {
                        y
                    } else {
                        x
                    }),
                    kids@.len() == k,
                    !reversed ==> off == base + sum_main(*d, s.subrange(0, k as int), fs),
                    reversed ==> off == base + total - sum_main(
                        *d,
                        s.subrange(0, n - k),
                        fs,
                    ),
                    !reversed ==> forall|m: int|
                        0 <= m < k ==> placed_at(
                            #[trigger] kids@[m],
                            s[m],
                            fs,
                            child_origin(*d, s, fs, m, x as int, y as int).0,
                            child_origin(*d, s, fs, m, x as int, y as int).1,
                        ),
                    reversed ==> forall|m: int|
                        0 <= m < k ==> placed_at(
                            #[trigger] kids@[m],
                            s[n - k + m],
                            fs,
                            child_origin(*d, s, fs, n - k + m, x as int, y as int).0,
                            child_origin(*d, s, fs, n - k + m, x as int, y as int).1,
                        ),
                    cross <= max_cross(*d, s, fs),
                    (if vertical {
                        x
                    } else {
                        y
                    }) + cross <= u64::MAX,
                    !reversed ==> forall|j: int|
                        0 <= j < k ==> cross_len(*d, spec_size(#[trigger] s[j], fs)) <= cross,
                    reversed ==> forall|j: int|
                        n - k <= j < n ==> cross_len(*d, spec_size(#[trigger] s[j], fs)) <= cross,
            {
                let i: usize = if reversed {
                    n - 1 - k
                } else {
                    k
                };
                proof {
                    lemma_sums_step(*d, s, fs, i as int);
                    lemma_prefix_bounds(*d, s, fs, i as int);
                    lemma_prefix_bounds(*d, s, fs, i + 1);
                    lemma_max_cross_bound(*d, s, fs, i as int);
                    vstd::std_specs::vec::axiom_vec_index_decreases(*cs, i as int);
                    assert(decreases_to!(*w => (*w)->Flow_1));
                    assert(decreases_to!(*w => cs[i as int]));
                }
                let cx: u64 = if vertical {
                    x
                } else {
                    off
                };
                let cy: u64 = if vertical {
                    off
                } else {
                    y
                };
                assert(cx == child_origin(*d, s, fs, i as int, x as int, y as int).0);
                assert(cy == child_origin(*d, s, fs, i as int, x as int, y as int).1);
                let child = match place(&cs[i], f, cx, cy) {
                    None => {
                        return None;
                    },
                    Some(c) => c,
                };
                let cm: u64 = if vertical {
                    child.rect.h
                } else {
                    child.rect.w
                };
                let cc: u64 = if vertical {
                    child.rect.w
                } else {
                    child.rect.h
                };
                off = off + cm;
                if cc > cross {
                    cross = cc;
                }
                if reversed {
                    kids.insert(0, child);
                } else {
                    kids.push(child);
                }
            }
            proof {
                lemma_max_cross_attained(*d, s, fs);
            }
            let main = off - base;
            let rect = if vertical {
                Rect { x, y, w: cross, h: main }
            } else {
                Rect { x, y, w: main, h: cross }
            };
            Some(Placed { rect, children: kids })
        },
    }
}

/// Lays out a whole tree for a viewport of the given size. The root is
/// anchored at the origin and every node is sized to its content, so the
/// viewport size is recorded but moves and sizes nothing. Fails exactly when
/// the tree's content reaches past 64-bit coordinates.
pub fn compute(tree: &Widget, fonts: &FontFaces, available_w: u64, available_h: u64) -> (r: Option<Layout>)
    ensures
        r is Some <==> spec_fits(*tree, *fonts, 0, 0),
        r matches Some(l) ==> l.spec_laid_out(*tree, *fonts, available_w as int, available_h as int),
        r matches Some(l) ==> crate::draw::same_shape(*tree, l.root),
{
    match place(tree, fonts, 0, 0) {
        None => None,
        Some(root) => {
            proof {
                crate::draw::lemma_placed_shape(root, *tree, *fonts, 0, 0);
            }
            Some(Layout { viewport_w: available_w, viewport_h: available_h, root })
        },
    }
}

impl Layout {
    /// This is the layout of `w` under `f` for a viewport of `aw` by `ah`.
    pub open spec fn spec_laid_out(self, w: Widget, f: FontFaces, aw: int, ah: int) -> bool {
        &&& self.viewport_w == aw
        &&& self.viewport_h == ah
        &&& placed_at(self.root, w, f, 0, 0)
    }
}

/// The size of a rectangle as a pair `(width, height)`.
pub open spec fn rect_size(r: Rect) -> (nat, nat) {
    (r.w as nat, r.h as nat)
}

/// The sum of the placed nodes' extents along the main axis.
pub open spec fn rects_main_sum(d: Direction, ps: Seq<Placed>) -> nat
    decreases ps.len(),
{
    if ps.len() == 0 {
        0
    } else {
        rects_main_sum(d, ps.drop_last()) + main_len(d, rect_size(ps.last().rect))
    }
}

/// The largest of the placed nodes' extents across the main axis, 0 for none.
pub open spec fn rects_cross_max(d: Direction, ps: Seq<Placed>) -> nat
    decreases ps.len(),
{
    if ps.len() == 0 {
        0
    } else {
        let a = rects_cross_max(d, ps.drop_last());
        let b = cross_len(d, rect_size(ps.last().rect));
        if a >= b {
            a
        } else {
            b
        }
    }
}

/// Two positioned trees have the same shape and the same rectangle at every node.
pub open spec fn same_rects(a: Placed, b: Placed) -> bool
    decreases a,
{
    &&& a.rect == b.rect
    &&& a.children@.len() == b.children@.len()
    &&& forall|i: int|
        0 <= i < a.children@.len() ==> same_rects(#[trigger] a.children@[i], b.children@[i])
}

proof fn lemma_sums_of_sizes(d: Direction, ps: Seq<Placed>, cs: Seq<Widget>, f: FontFaces)
    requires
        ps.len() == cs.len(),
        forall|i: int| 0 <= i < ps.len() ==> rect_size(#[trigger] ps[i].rect) == spec_size(cs[i], f),
    ensures
        rects_main_sum(d, ps) == sum_main(d, cs, f),
        rects_cross_max(d, ps) == max_cross(d, cs, f),
    decreases ps.len(),
{
    if ps.len() > 0 {
        let n = ps.len() - 1;
        assert(rect_size(ps[n].rect) == spec_size(cs[n], f));
        lemma_sums_of_sizes(d, ps.drop_last(), cs.drop_last(), f);
    }
}

/// A flow container's extent along its main axis is the sum of its children's
/// extents there, and across it the largest of theirs, in either direction.
pub proof fn lemma_flow_extent(p: Placed, d: Direction, cs: Vec<Widget>, f: FontFaces, x: int, y: int)
    requires
        placed_at(p, Widget::Flow(d, cs), f, x, y),
    ensures
        main_len(d, rect_size(p.rect)) == rects_main_sum(d, p.children@),
        cross_len(d, rect_size(p.rect)) == rects_cross_max(d, p.children@),
{
    assert forall|i: int| 0 <= i < p.children@.len() implies rect_size(
        #[trigger] p.children@[i].rect,
    ) == spec_size(cs@[i], f) by {
        let o = child_origin(d, cs@, f, i, x, y);
        assert(placed_at(p.children@[i], cs@[i], f, o.0, o.1));
    }
    lemma_sums_of_sizes(d, p.children@, cs@, f);
}

/// A flow container without children has zero width and zero height.
pub proof fn lemma_empty_flow(p: Placed, d: Direction, cs: Vec<Widget>, f: FontFaces, x: int, y: int)
    requires
        placed_at(p, Widget::Flow(d, cs), f, x, y),
        cs@.len() == 0,
    ensures
        p.rect.w == 0,
        p.rect.h == 0,
{
}

/// A node placed twice at the same origin gets the same rectangles throughout.
pub proof fn lemma_placed_unique(a: Placed, b: Placed, w: Widget, f: FontFaces, x: int, y: int)
    requires
        placed_at(a, w, f, x, y),
        placed_at(b, w, f, x, y),
    ensures
        same_rects(a, b),
    decreases w,
{
    if let Widget::Flow(d, cs) = w {
        assert forall|i: int| 0 <= i < a.children@.len() implies same_rects(
            #[trigger] a.children@[i],
            b.children@[i],
        ) by {
            let o = child_origin(d, cs@, f, i, x, y);
            assert(placed_at(a.children@[i], cs@[i], f, o.0, o.1));
            assert(placed_at(b.children@[i], cs@[i], f, o.0, o.1));
            vstd::std_specs::vec::axiom_vec_index_decreases(cs, i);
            assert(decreases_to!(w => w->Flow_1));
            lemma_placed_unique(a.children@[i], b.children@[i], cs@[i], f, o.0, o.1);
        }
    }
}

/// Laying out the same tree twice with the same metrics and viewport gives
/// identical rectangles at every node.
pub proof fn lemma_layout_deterministic(a: Layout, b: Layout, w: Widget, f: FontFaces, aw: int, ah: int)
    requires
        a.spec_laid_out(w, f, aw, ah),
        b.spec_laid_out(w, f, aw, ah),
    ensures
        same_rects(a.root, b.root),
        a.viewport_w == b.viewport_w,
        a.viewport_h == b.viewport_h,
{
    lemma_placed_unique(a.root, b.root, w, f, 0, 0);
}

/// Resizing the viewport changes only the recorded viewport: every node keeps
/// its content-driven rectangle.
pub proof fn lemma_resize_keeps_content(
    a: Layout,
    b: Layout,
    w: Widget,
    f: FontFaces,
    aw: int,
    ah: int,
    bw: int,
    bh: int,
)
    requires
        a.spec_laid_out(w, f, aw, ah),
        b.spec_laid_out(w, f, bw, bh),
    ensures
        same_rects(a.root, b.root),
        a.viewport_w == aw && a.viewport_h == ah,
        b.viewport_w == bw && b.viewport_h == bh,
{
    lemma_placed_unique(a.root, b.root, w, f, 0, 0);
}

/// In a laid-out flow container no point lies in two different children:
/// siblings never overlap.
pub proof fn lemma_siblings_disjoint(
    p: Placed,
    d: Direction,
    cs: Vec<Widget>,
    f: FontFaces,
    x: int,
    y: int,
    i: int,
    j: int,
    pt: crate::geometry::Point,
)
    requires
        placed_at(p, Widget::Flow(d, cs), f, x, y),
        0 <= i < j < cs@.len(),
    ensures
        !(crate::geometry::spec_contains(p.children@[i].rect, pt)
            && crate::geometry::spec_contains(p.children@[j].rect, pt)),
{
    let s = cs@;
    let oi = child_origin(d, s, f, i, x, y);
    let oj = child_origin(d, s, f, j, x, y);
    assert(placed_at(p.children@[i], s[i], f, oi.0, oi.1));
    assert(placed_at(p.children@[j], s[j], f, oj.0, oj.1));
    lemma_sums_step(d, s, f, i);
    lemma_sums_step(d, s, f, j);
    assert(s.subrange(0, j).subrange(0, i + 1) =~= s.subrange(0, i + 1));
    lemma_prefix_bounds(d, s.subrange(0, j), f, i + 1);
}

} // verus!
