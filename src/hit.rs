//! Hit-testing: mouse events are routed to the leaf under the pointer by
//! point-in-rectangle tests against the last computed layout.
use vstd::prelude::*;
use crate::geometry::{Point, spec_contains};
use crate::layout::{Layout, Placed};

verus! {

/// A mouse button event at a position in window coordinates. Presses and
/// releases are independent point tests: no press is tracked or captured.
#[derive(Clone, Copy, Debug, PartialEq, Eq, Structural)]
pub enum MouseEvent {
    MouseDown(Point),
    MouseUp(Point),
}

impl MouseEvent {
    pub open spec fn spec_pos(self) -> Point {
        match self {
            MouseEvent::MouseDown(p) => p,
            MouseEvent::MouseUp(p) => p,
        }
    }

    /// The position of the event.
    pub fn pos(&self) -> (r: Point)
        ensures
            r == self.spec_pos(),
    {
        match self {
            MouseEvent::MouseDown(p) => *p,
            MouseEvent::MouseUp(p) => *p,
        }
    }
}

/// The path (child indices from the root) of the first childless node, in
/// depth-first order with children taken in order, whose rectangle holds `pt`.
/// Leaves are the childless nodes that can be hit: an empty container has
/// zero size and so holds no point.
pub open spec fn spec_hit(p: Placed, pt: Point) -> Option<Seq<usize>>
    decreases p, 0int,
{
    if p.children@.len() == 0 {
        if spec_contains(p.rect, pt) {
            Some(Seq::empty())
        } else {
            None
        }
    } else {
        hit_among(p.children@, pt, 0)
    }
}

/// The first hit among the nodes `ps[i..]`, its path starting with its index.
pub open spec fn hit_among(ps: Seq<Placed>, pt: Point, i: int) -> Option<Seq<usize>>
    decreases ps, ps.len() - i,
{
    if i < 0 || i >= ps.len() {
        None
    } else {
        match spec_hit(ps[i], pt) {
            Some(path) => Some(seq![i as usize] + path),
            None => hit_among(ps, pt, i + 1),
        }
    }
}

/// Finds the leaf under `pt`, as its path from `p`.
pub fn hit_placed(p: &Placed, pt: Point) -> (r: Option<Vec<usize>>)
    ensures
        r is Some <==> spec_hit(*p, pt) is Some,
        r matches Some(v) ==> spec_hit(*p, pt) == Some(v@),
    decreases p,
{
    let n = p.children.len();
    if n == 0 {
        if p.rect.contains(pt) {
            Some(Vec::new())
        } else {
            None
        }
    } else {
        for i in 0..n
            invariant
                n == p.children@.len(),
                n > 0,
                spec_hit(*p, pt) == hit_among(p.children@, pt, i as int),
        {
            proof {
                vstd::std_specs::vec::axiom_vec_index_decreases(p.children, i as int);
                assert(decreases_to!(*p => p.children));
            }
            match hit_placed(&p.children[i], pt) {
                Some(mut path) => {
                    path.insert(0, i);
                    assert(path@ =~= seq![i] + spec_hit(p.children@[i as int], pt)->0);
                    return Some(path);
                },
                None => {},
            }
        }
        None
    }
}

/// The node reached from `p` by following a path of child indices.
pub open spec fn node_at(p: Placed, path: Seq<usize>) -> Option<Placed>
    decreases path.len(),
{
    if path.len() == 0 {
        Some(p)
    } else if path[0] < p.children@.len() {
        node_at(p.children@[path[0] as int], path.drop_first())
    } else {
        None
    }
}

/// A hit names a childless node that holds the point.
pub proof fn lemma_hit_sound(p: Placed, pt: Point)
    requires
        spec_hit(p, pt) is Some,
    ensures
        node_at(p, spec_hit(p, pt)->0) matches Some(n) && n.children@.len() == 0 && spec_contains(
            n.rect,
            pt,
        ),
    decreases p, 0int,
{
    if p.children@.len() > 0 {
        lemma_hit_among_sound(p, pt, 0);
    }
}

/// A hit among the children of `p`, from child `i` on, names a childless
/// descendant of `p` that holds the point.
proof fn lemma_hit_among_sound(p: Placed, pt: Point, i: int)
    requires
        0 <= i,
        hit_among(p.children@, pt, i) is Some,
    ensures
        node_at(p, hit_among(p.children@, pt, i)->0) matches Some(n) && n.children@.len() == 0
            && spec_contains(n.rect, pt),
    decreases p.children@, p.children@.len() - i,
{
    let ps = p.children@;
    if i < ps.len() {
        match spec_hit(ps[i], pt) {
            Some(path) => {
                lemma_hit_sound(ps[i], pt);
                let full = seq![i as usize] + path;
                assert(full.drop_first() =~= path);
                assert(p.children.len() == ps.len());
                assert(full[0] == i as usize);
                assert(node_at(p, full) == node_at(ps[i], path));
            },
            None => {
                lemma_hit_among_sound(p, pt, i + 1);
            },
        }
    }
}

impl Layout {
    /// Routes a mouse event: the path of the leaf under its position, or
    /// `None` when it falls on no leaf.
    pub fn hit(&self, ev: MouseEvent) -> (r: Option<Vec<usize>>)
        ensures
            r is Some <==> spec_hit(self.root, ev.spec_pos()) is Some,
            r matches Some(v) ==> spec_hit(self.root, ev.spec_pos()) == Some(v@),
    {
        hit_placed(&self.root, ev.pos())
    }
}

} // verus!
