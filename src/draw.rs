//! The draw pass: a laid-out tree becomes a list of primitives for a 2D
//! drawing surface. Rectangles are absolute, so the surface applies one
//! viewport transform to all of them.
use vstd::prelude::*;
use crate::geometry::Rect;
use crate::layout::{Layout, Placed, placed_at};
use crate::metrics::{Face, FontFaces};
use crate::widget::{Rgb, Widget};

verus! {

/// One drawing primitive.
#[derive(Clone, Debug)]
pub enum Prim {
    /// A filled rectangle.
    Fill { rect: Rect, color: Rgb },
    /// A text run whose line box has its top-left corner at `(x, y)`.
    Text { x: u64, y: u64, label: String, face: Face },
}

/// The positioned tree has the widget tree's shape.
pub open spec fn same_shape(w: Widget, p: Placed) -> bool
    decreases w,
{
    match w {
        Widget::Leaf(_) => true,
        Widget::Flow(_, cs) => {
            &&& p.children@.len() == cs@.len()
            &&& forall|i: int|
                0 <= i < cs@.len() ==> same_shape(cs@[i], #[trigger] p.children@[i])
        },
    }
}

/// The primitives of a node: for each leaf, in depth-first order, its box
/// filled with its colour, then its label at the box's top-left corner.
pub open spec fn spec_draw(w: Widget, p: Placed) -> Seq<Prim>
    decreases w,
{
    match w {
        Widget::Leaf(l) => seq![
            Prim::Fill { rect: p.rect, color: l.color },
            Prim::Text { x: p.rect.x, y: p.rect.y, label: l.label, face: l.face },
        ],
        Widget::Flow(_, cs) => draw_all(cs@, p.children@),
    }
}

/// The primitives of the children, in order.
pub open spec fn draw_all(cs: Seq<Widget>, ps: Seq<Placed>) -> Seq<Prim>
    decreases cs,
{
    if cs.len() == 0 {
        Seq::empty()
    } else {
        draw_all(cs.drop_last(), ps) + spec_draw(cs.last(), ps[cs.len() - 1])
    }
}

/// A layout of a tree has that tree's shape.
pub proof fn lemma_placed_shape(p: Placed, w: Widget, f: FontFaces, x: int, y: int)
    requires
        placed_at(p, w, f, x, y),
    ensures
        same_shape(w, p),
    decreases w,
{
    if let Widget::Flow(d, cs) = w {
        assert forall|i: int| 0 <= i < cs@.len() implies same_shape(
            cs@[i],
            #[trigger] p.children@[i],
        ) by {
            let o = crate::layout::child_origin(d, cs@, f, i, x, y);
            assert(placed_at(p.children@[i], cs@[i], f, o.0, o.1));
            vstd::std_specs::vec::axiom_vec_index_decreases(cs, i);
            assert(decreases_to!(w => w->Flow_1));
            lemma_placed_shape(p.children@[i], cs@[i], f, o.0, o.1);
        }
    }
}

/// Appends the primitives of `w`, positioned by `p`, to `out`.
pub fn draw_into(w: &Widget, p: &Placed, out: &mut Vec<Prim>)
    requires
        same_shape(*w, *p),
    ensures
        final(out)@ == old(out)@ + spec_draw(*w, *p),
    decreases w,
{
    match w {
        Widget::Leaf(l) => {
            out.push(Prim::Fill { rect: p.rect, color: l.color });
            out.push(Prim::Text { x: p.rect.x, y: p.rect.y, label: l.label.clone(), face: l.face });
            assert(final(out)@ =~= old(out)@ + spec_draw(*w, *p));
        },
        Widget::Flow(_, cs) => {
            let ghost start = out@;
            let n = cs.len();
            assert(cs@.subrange(0, 0).len() == 0);
            for i in 0..n
                invariant
                    n == cs@.len(),
                    *w == Widget::Flow(w->Flow_0, *cs),
                    same_shape(*w, *p),
                    out@ == start + draw_all(cs@.subrange(0, i as int), p.children@),
            {
                proof {
                    vstd::std_specs::vec::axiom_vec_index_decreases(*cs, i as int);
                    assert(decreases_to!(*w => (*w)->Flow_1));
                    assert(cs@.subrange(0, i + 1).drop_last() =~= cs@.subrange(0, i as int));
                }
                draw_into(&cs[i], &p.children[i], out);
                assert(out@ =~= start + draw_all(cs@.subrange(0, i + 1), p.children@));
            }
            assert(cs@.subrange(0, n as int) =~= cs@);
        },
    }
}

/// The primitives of `w`, positioned by `p`.
pub fn draw(w: &Widget, p: &Placed) -> (r: Vec<Prim>)
    requires
        same_shape(*w, *p),
    ensures
        r@ == spec_draw(*w, *p),
{
    let mut out: Vec<Prim> = Vec::new();
    draw_into(w, p, &mut out);
    assert(out@ =~= spec_draw(*w, *p));
    out
}

impl Layout {
    /// The primitives of `tree` under this layout of it.
    pub fn draw(&self, tree: &Widget) -> (r: Vec<Prim>)
        requires
            same_shape(*tree, self.root),
        ensures
            r@ == spec_draw(*tree, self.root),
    {
        draw(tree, &self.root)
    }
}

} // verus!
