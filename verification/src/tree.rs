//! The surface tree walker: a depth-first walk of a root surface and its
//! subsurfaces that yields one draw operation per visible node. A node whose
//! buffer could not be imported hides its whole subtree, because a child's
//! position is relative to its parent and a parent without a buffer leaves
//! that geometry undefined.

use vstd::prelude::*;

use crate::geometry::{Extent, Pos};

verus! {

/// One node of a surface tree: the committed buffer's texture (if import
/// succeeded), the parent-relative offset, and the buffer dimensions.
pub struct SurfaceNode {
    /// Texture handle of the imported buffer; `None` while no buffer was
    /// committed or the last import failed.
    pub texture: Option<u64>,
    /// Offset relative to the parent surface (subsurface placement).
    pub offset: Pos,
    /// Dimensions of the committed buffer in logical pixels.
    pub size: Extent,
    pub children: Vec<SurfaceNode>,
}

/// A draw operation in logical coordinates: blit the whole texture with its
/// top-left corner at the absolute position `(x, y)`.
#[derive(Clone, Copy, Debug, PartialEq, Eq, Structural)]
pub struct LogicalOp {
    pub texture: u64,
    pub x: i32,
    pub y: i32,
    pub size: Extent,
}

/// The role a surface plays. A surface has at most one role for its
/// lifetime.
#[derive(Clone, Copy, Debug, PartialEq, Eq, Structural)]
pub enum SurfaceRole {
    Cursor,
    DragIcon,
    Subsurface,
    Toplevel,
    Popup,
    LayerSurface,
    /// A legacy window bridged through the embedded X server.
    X11,
}

/// Assigning a role is a one-time transition: a surface that already has a
/// role refuses any further assignment, which the caller treats as a
/// protocol violation by the client.
pub fn assign_role(current: &mut Option<SurfaceRole>, role: SurfaceRole) -> (r: Result<(), ()>)
    ensures
        match r {
            Ok(_) => *old(current) is None && *final(current) == Some(role),
            Err(_) => *old(current) is Some && *final(current) == *old(current),
        },
{
    match current {
        Some(_) => Err(()),
        None => {
            *current = Some(role);
            Ok(())
        },
    }
}

/// Every accumulated position along the tree stays within `i32`.
pub open spec fn tree_in_range(n: SurfaceNode, ox: int, oy: int) -> bool
    decreases n,
{
    &&& i32::MIN <= ox + n.offset.x <= i32::MAX
    &&& i32::MIN <= oy + n.offset.y <= i32::MAX
    &&& children_in_range(n.children@, ox + n.offset.x, oy + n.offset.y)
}

pub open spec fn children_in_range(s: Seq<SurfaceNode>, ox: int, oy: int) -> bool
    decreases s,
{
    s.len() == 0 || (tree_in_range(s[0], ox, oy) && children_in_range(s.drop_first(), ox, oy))
}

/// The draw operations of the subtree rooted at `n`, with the parent's
/// absolute position `(ox, oy)`: nothing if the node has no texture, else the
/// node's own operation followed by those of its children in order, so that
/// children draw after - and on top of - their parent. Subsurface offsets
/// accumulate additively down the tree.
pub open spec fn tree_ops(n: SurfaceNode, ox: int, oy: int) -> Seq<LogicalOp>
    decreases n,
{
    match n.texture {
        None => Seq::empty(),
        Some(t) => seq![
            LogicalOp {
                texture: t,
                x: (ox + n.offset.x) as i32,
                y: (oy + n.offset.y) as i32,
                size: n.size,
            },
        ] + children_ops(n.children@, ox + n.offset.x, oy + n.offset.y),
    }
}

pub open spec fn children_ops(s: Seq<SurfaceNode>, ox: int, oy: int) -> Seq<LogicalOp>
    decreases s,
{
    if s.len() == 0 {
        Seq::empty()
    } else {
        tree_ops(s[0], ox, oy) + children_ops(s.drop_first(), ox, oy)
    }
}

/// A surface with a non-importable buffer contributes nothing: neither it nor
/// any of its subsurface descendants appears in the emitted draw list.
pub proof fn lemma_skip_unimportable(n: SurfaceNode, ox: int, oy: int)
    requires
        n.texture is None,
    ensures
        tree_ops(n, ox, oy) =~= Seq::<LogicalOp>::empty(),
{
}

/// Walk the subtree rooted at `self` and emit its draw operations in
/// depth-first pre-order.
impl SurfaceNode {
    pub fn walk(&self, ox: i32, oy: i32) -> (r: Vec<LogicalOp>)
        requires
            tree_in_range(*self, ox as int, oy as int),
        ensures
            r@ == tree_ops(*self, ox as int, oy as int),
        decreases *self,
    {
        let mut out: Vec<LogicalOp> = Vec::new();
        let t = match self.texture {
            Some(t) => t,
            None => {
                proof {
                    assert(out@ =~= tree_ops(*self, ox as int, oy as int));
                }
                return out;
            },
        };
        let x = ox + self.offset.x;
        let y = oy + self.offset.y;
        out.push(LogicalOp { texture: t, x, y, size: self.size });
        let mut i: usize = 0;
        proof {
            assert(out@ =~= tree_ops(*self, ox as int, oy as int).subrange(0, 1));
        }
        while i < self.children.len()
            invariant
                i <= self.children@.len(),
                self.texture == Some(t),
                tree_in_range(*self, ox as int, oy as int),
                x == ox + self.offset.x,
                y == oy + self.offset.y,
                out@ == seq![
                    LogicalOp { texture: t, x, y, size: self.size },
                ] + children_ops_prefix(self.children@, x as int, y as int, i as int),
            decreases self.children@.len() - i,
        {
            proof {
                lemma_children_in_range_at(
                    self.children@,
                    x as int,
                    y as int,
                    i as int,
                );
            }
            let mut ops = self.children[i].walk(x, y);
            out.append(&mut ops);
            proof {
                lemma_children_ops_prefix_step(self.children@, x as int, y as int, i as int);
            }
            i += 1;
        }
        proof {
            lemma_children_ops_prefix_all(self.children@, x as int, y as int);
        }
        out
    }
}

/// The draw operations of the first `k` children.
pub open spec fn children_ops_prefix(s: Seq<SurfaceNode>, ox: int, oy: int, k: int) -> Seq<
    LogicalOp,
>
    decreases k,
{
    if k <= 0 {
        Seq::empty()
    } else {
        children_ops_prefix(s, ox, oy, k - 1) + tree_ops(s[k - 1], ox, oy)
    }
}

proof fn lemma_children_ops_prefix_step(s: Seq<SurfaceNode>, ox: int, oy: int, k: int)
    requires
        0 <= k < s.len(),
    ensures
        children_ops_prefix(s, ox, oy, k + 1) == children_ops_prefix(s, ox, oy, k) + tree_ops(
            s[k],
            ox,
            oy,
        ),
{
}

/// Walking the children one by one accumulates exactly `children_ops`.
proof fn lemma_children_ops_prefix_all(s: Seq<SurfaceNode>, ox: int, oy: int)
    ensures
        children_ops_prefix(s, ox, oy, s.len() as int) == children_ops(s, ox, oy),
    decreases s,
{
    if s.len() == 0 {
        assert(children_ops_prefix(s, ox, oy, 0) =~= children_ops(s, ox, oy));
    } else {
        lemma_children_ops_prefix_all(s.drop_first(), ox, oy);
        lemma_children_ops_prefix_shift(s, ox, oy, s.len() as int - 1);
        assert(children_ops(s, ox, oy) =~= tree_ops(s[0], ox, oy) + children_ops(
            s.drop_first(),
            ox,
            oy,
        ));
        assert(children_ops_prefix(s, ox, oy, s.len() as int) =~= children_ops(s, ox, oy));
    }
}

/// A prefix over `s` equals the node at 0 plus the shifted prefix over the
/// tail.
proof fn lemma_children_ops_prefix_shift(s: Seq<SurfaceNode>, ox: int, oy: int, k: int)
    requires
        0 <= k <= s.len() - 1,
    ensures
        children_ops_prefix(s, ox, oy, k + 1) == tree_ops(s[0], ox, oy) + children_ops_prefix(
            s.drop_first(),
            ox,
            oy,
            k,
        ),
    decreases k,
{
    if k == 0 {
        assert(children_ops_prefix(s, ox, oy, 0) =~= Seq::<LogicalOp>::empty());
        assert(children_ops_prefix(s.drop_first(), ox, oy, 0) =~= Seq::<LogicalOp>::empty());
        assert(children_ops_prefix(s, ox, oy, 1) == children_ops_prefix(s, ox, oy, 0) + tree_ops(
            s[0],
            ox,
            oy,
        ));
        assert(children_ops_prefix(s, ox, oy, 1) =~= tree_ops(s[0], ox, oy)
            + children_ops_prefix(s.drop_first(), ox, oy, 0));
    } else {
        lemma_children_ops_prefix_shift(s, ox, oy, k - 1);
        assert(s.drop_first()[k - 1] == s[k]);
        assert(children_ops_prefix(s, ox, oy, k + 1) =~= tree_ops(s[0], ox, oy)
            + children_ops_prefix(s.drop_first(), ox, oy, k));
    }
}

/// Every child of a tree whose children are in range is itself in range.
proof fn lemma_children_in_range_at(s: Seq<SurfaceNode>, ox: int, oy: int, k: int)
    requires
        children_in_range(s, ox, oy),
        0 <= k < s.len(),
    ensures
        tree_in_range(s[k], ox, oy),
    decreases k,
{
    if k > 0 {
        lemma_children_in_range_at(s.drop_first(), ox, oy, k - 1);
        assert(s.drop_first()[k - 1] == s[k]);
    }
}

} // verus!
