//! The acceleration structure: a bounding-volume hierarchy built once over
//! the frozen primitive list.
//!
//! `traverse` prunes by a division-free slab test against node boxes and
//! returns a candidate set that may contain false positives but provably
//! never omits a primitive the ray hits: every index whose box the ray
//! intersects (in the narrow, epsilon-guarded sense) is in the result.

use vstd::prelude::*;
use crate::vec3::{Vec3, v3_wf};
use crate::cube::{
    Cube, cube_wf, cube_hit, constrained, axis, den, lo_num, hi_num, pair_ok, pairs_ok,
    near_ok, prod128,
};
use crate::fx::SCALE;
use vstd::arithmetic::mul::lemma_mul_inequality;

verus! {

/// One node of the hierarchy.  A leaf covers the primitive index range
/// `lo..hi` directly; an internal node covers the union of its children's
/// ranges, which partition its own.
#[derive(Clone, Copy, Debug)]
pub struct BvhNode {
    pub bbox_min: Vec3,
    pub bbox_max: Vec3,
    pub left: usize,
    pub right: usize,
    pub lo: usize,
    pub hi: usize,
    pub leaf: bool,
}

/// The hierarchy: nodes in child-before-parent order, the root last.
pub struct Bvh {
    pub nodes: Vec<BvhNode>,
    pub n: usize,
}

/// The node box encloses the primitive's box.
pub open spec fn encloses(mn: Vec3, mx: Vec3, c: Cube) -> bool {
    &&& axis(mn, 0) <= axis(c.min_bounds, 0) && axis(c.max_bounds, 0) <= axis(mx, 0)
    &&& axis(mn, 1) <= axis(c.min_bounds, 1) && axis(c.max_bounds, 1) <= axis(mx, 1)
    &&& axis(mn, 2) <= axis(c.min_bounds, 2) && axis(c.max_bounds, 2) <= axis(mx, 2)
}

/// Entry-parameter numerator of a plain box on axis `k`.
pub open spec fn b_lo(mn: Vec3, mx: Vec3, o: Vec3, d: Vec3, k: int) -> int {
    if axis(d, k) > 0 {
        axis(mn, k) - axis(o, k)
    } else {
        axis(o, k) - axis(mx, k)
    }
}

/// Exit-parameter numerator of a plain box on axis `k`.
pub open spec fn b_hi(mn: Vec3, mx: Vec3, o: Vec3, d: Vec3, k: int) -> int {
    if axis(d, k) > 0 {
        axis(mx, k) - axis(o, k)
    } else {
        axis(o, k) - axis(mn, k)
    }
}

/// An unconstrained axis admits the ray when the origin is inside the slab.
pub open spec fn box_axis_ok(mn: Vec3, mx: Vec3, o: Vec3, d: Vec3, k: int) -> bool {
    constrained(d, k) || (axis(mn, k) <= axis(o, k) <= axis(mx, k))
}

/// The entry edge of axis `i` does not pass the exit edge of axis `j`.
pub open spec fn box_pair_ok(mn: Vec3, mx: Vec3, o: Vec3, d: Vec3, i: int, j: int) -> bool {
    !constrained(d, i) || !constrained(d, j)
        || b_lo(mn, mx, o, d, i) * den(d, j) <= b_hi(mn, mx, o, d, j) * den(d, i)
}

/// The exit edge of a constrained axis lies at a non-negative parameter.
pub open spec fn box_far_ok(mn: Vec3, mx: Vec3, o: Vec3, d: Vec3, i: int) -> bool {
    !constrained(d, i) || b_hi(mn, mx, o, d, i) >= 0
}

/// The pruning test: the ray could intersect the box (conservative; wider
/// than the narrow epsilon-guarded primitive test).
pub open spec fn ray_hits_box(o: Vec3, d: Vec3, mn: Vec3, mx: Vec3) -> bool {
    &&& box_axis_ok(mn, mx, o, d, 0)
    &&& box_axis_ok(mn, mx, o, d, 1)
    &&& box_axis_ok(mn, mx, o, d, 2)
    &&& box_pair_ok(mn, mx, o, d, 0, 0)
    &&& box_pair_ok(mn, mx, o, d, 0, 1)
    &&& box_pair_ok(mn, mx, o, d, 0, 2)
    &&& box_pair_ok(mn, mx, o, d, 1, 0)
    &&& box_pair_ok(mn, mx, o, d, 1, 1)
    &&& box_pair_ok(mn, mx, o, d, 1, 2)
    &&& box_pair_ok(mn, mx, o, d, 2, 0)
    &&& box_pair_ok(mn, mx, o, d, 2, 1)
    &&& box_pair_ok(mn, mx, o, d, 2, 2)
    &&& box_far_ok(mn, mx, o, d, 0)
    &&& box_far_ok(mn, mx, o, d, 1)
    &&& box_far_ok(mn, mx, o, d, 2)
}

/// A hit primitive has a strictly positive entry numerator on the axis
/// that witnesses the minimum-parameter bound.
proof fn lemma_near_witness_pos(c: Cube, o: Vec3, d: Vec3, k: int)
    requires
        near_ok(c, o, d, k),
    ensures
        lo_num(c, o, d, k) >= 1,
        den(d, k) >= 1,
{
    assert(lo_num(c, o, d, k) >= 1) by (nonlinear_arith)
        requires
            lo_num(c, o, d, k) * SCALE >= crate::cube::T_EPS * den(d, k),
            den(d, k) >= 1,
            SCALE == 1_000_000,
            crate::cube::T_EPS == 100;
}

/// The exit numerator of every constrained axis of a hit primitive is
/// positive.
proof fn lemma_hit_far_pos(c: Cube, o: Vec3, d: Vec3, i: int)
    requires
        cube_hit(c, o, d),
        constrained(d, i),
        0 <= i < 3,
    ensures
        hi_num(c, o, d, i) >= 1,
{
    let k: int = if near_ok(c, o, d, 0) { 0 } else if near_ok(c, o, d, 1) { 1 } else { 2 };
    assert(near_ok(c, o, d, k));
    lemma_near_witness_pos(c, o, d, k);
    assert(pair_ok(c, o, d, k, i));
    assert(hi_num(c, o, d, i) >= 1) by (nonlinear_arith)
        requires
            lo_num(c, o, d, k) * den(d, i) <= hi_num(c, o, d, i) * den(d, k),
            lo_num(c, o, d, k) >= 1,
            den(d, i) >= 1,
            den(d, k) >= 1;
}

/// A primitive the ray hits makes the pruning test pass for every box
/// that encloses it: traversal never omits a hit primitive.
pub proof fn lemma_cube_hit_in_box(c: Cube, o: Vec3, d: Vec3, mn: Vec3, mx: Vec3)
    requires
        cube_hit(c, o, d),
        encloses(mn, mx, c),
    ensures
        ray_hits_box(o, d, mn, mx),
{
    assert forall|i: int, j: int| 0 <= i < 3 && 0 <= j < 3 implies box_pair_ok(mn, mx, o, d, i, j) by {
        if constrained(d, i) && constrained(d, j) {
            assert(pair_ok(c, o, d, i, j)) by {
                assert(pairs_ok(c, o, d));
            }
            assert(b_lo(mn, mx, o, d, i) <= lo_num(c, o, d, i));
            assert(hi_num(c, o, d, j) <= b_hi(mn, mx, o, d, j));
            lemma_mul_inequality(b_lo(mn, mx, o, d, i), lo_num(c, o, d, i), den(d, j));
            lemma_mul_inequality(hi_num(c, o, d, j), b_hi(mn, mx, o, d, j), den(d, i));
        }
    }
    assert forall|i: int| 0 <= i < 3 implies box_far_ok(mn, mx, o, d, i) by {
        if constrained(d, i) {
            lemma_hit_far_pos(c, o, d, i);
        }
    }
    assert(box_pair_ok(mn, mx, o, d, 0, 0));
    assert(box_pair_ok(mn, mx, o, d, 0, 1));
    assert(box_pair_ok(mn, mx, o, d, 0, 2));
    assert(box_pair_ok(mn, mx, o, d, 1, 0));
    assert(box_pair_ok(mn, mx, o, d, 1, 1));
    assert(box_pair_ok(mn, mx, o, d, 1, 2));
    assert(box_pair_ok(mn, mx, o, d, 2, 0));
    assert(box_pair_ok(mn, mx, o, d, 2, 1));
    assert(box_pair_ok(mn, mx, o, d, 2, 2));
    assert(box_far_ok(mn, mx, o, d, 0));
    assert(box_far_ok(mn, mx, o, d, 1));
    assert(box_far_ok(mn, mx, o, d, 2));
}

/// Execute the pruning test.
fn hits_box_exec(o: &Vec3, d: &Vec3, mn: &Vec3, mx: &Vec3) -> (r: bool)
    requires
        v3_wf(*o),
        v3_wf(*d),
        v3_wf(*mn),
        v3_wf(*mx),
    ensures
        r == ray_hits_box(*o, *d, *mn, *mx),
{
    let c0: bool = d.x != 0;
    let c1: bool = d.y != 0;
    let c2: bool = d.z != 0;
    if !c0 && !(mn.x <= o.x && o.x <= mx.x) {
        return false;
    }
    if !c1 && !(mn.y <= o.y && o.y <= mx.y) {
        return false;
    }
    if !c2 && !(mn.z <= o.z && o.z <= mx.z) {
        return false;
    }
    let lo0: i128 = if d.x > 0 { mn.x as i128 - o.x as i128 } else { o.x as i128 - mx.x as i128 };
    let hi0: i128 = if d.x > 0 { mx.x as i128 - o.x as i128 } else { o.x as i128 - mn.x as i128 };
    let dn0: i128 = if d.x >= 0 { d.x as i128 } else { -(d.x as i128) };
    let lo1: i128 = if d.y > 0 { mn.y as i128 - o.y as i128 } else { o.y as i128 - mx.y as i128 };
    let hi1: i128 = if d.y > 0 { mx.y as i128 - o.y as i128 } else { o.y as i128 - mn.y as i128 };
    let dn1: i128 = if d.y >= 0 { d.y as i128 } else { -(d.y as i128) };
    let lo2: i128 = if d.z > 0 { mn.z as i128 - o.z as i128 } else { o.z as i128 - mx.z as i128 };
    let hi2: i128 = if d.z > 0 { mx.z as i128 - o.z as i128 } else { o.z as i128 - mn.z as i128 };
    let dn2: i128 = if d.z >= 0 { d.z as i128 } else { -(d.z as i128) };
    if c0 && hi0 < 0 {
        return false;
    }
    if c1 && hi1 < 0 {
        return false;
    }
    if c2 && hi2 < 0 {
        return false;
    }
    if c0 && prod128(lo0, dn0) > prod128(hi0, dn0) {
        return false;
    }
    if c0 && c1 && prod128(lo0, dn1) > prod128(hi1, dn0) {
        return false;
    }
    if c0 && c2 && prod128(lo0, dn2) > prod128(hi2, dn0) {
        return false;
    }
    if c1 && c0 && prod128(lo1, dn0) > prod128(hi0, dn1) {
        return false;
    }
    if c1 && prod128(lo1, dn1) > prod128(hi1, dn1) {
        return false;
    }
    if c1 && c2 && prod128(lo1, dn2) > prod128(hi2, dn1) {
        return false;
    }
    if c2 && c0 && prod128(lo2, dn0) > prod128(hi0, dn2) {
        return false;
    }
    if c2 && c1 && prod128(lo2, dn1) > prod128(hi1, dn2) {
        return false;
    }
    if c2 && prod128(lo2, dn2) > prod128(hi2, dn2) {
        return false;
    }
    true
}

/// Well-formedness of one node with respect to the node list and the
/// primitive list: a valid range whose primitives its box encloses, and,
/// for an internal node, earlier children whose ranges partition its own.
pub open spec fn node_wf(nodes: Seq<BvhNode>, i: int, objects: Seq<Cube>) -> bool {
    let nd = nodes[i];
    &&& nd.lo < nd.hi <= objects.len()
    &&& (nd.leaf ==> nd.hi - nd.lo <= 2)
    &&& v3_wf(nd.bbox_min) && v3_wf(nd.bbox_max)
    &&& forall|j: int| nd.lo <= j < nd.hi ==> encloses(nd.bbox_min, nd.bbox_max, #[trigger] objects[j])
    &&& !nd.leaf ==> {
        &&& nd.left < i
        &&& nd.right < i
        &&& nodes[nd.left as int].lo == nd.lo
        &&& nodes[nd.left as int].hi == nodes[nd.right as int].lo
        &&& nodes[nd.right as int].hi == nd.hi
    }
}

/// Well-formedness of the whole hierarchy over a primitive list.
pub open spec fn bvh_wf(b: Bvh, objects: Seq<Cube>) -> bool {
    &&& b.n == objects.len()
    &&& (b.n == 0 ==> b.nodes@.len() == 0)
    &&& (b.n > 0 ==> b.nodes@.len() > 0
        && b.nodes@[b.nodes@.len() - 1].lo == 0
        && b.nodes@[b.nodes@.len() - 1].hi == b.n)
    &&& forall|i: int| 0 <= i < b.nodes@.len() ==> node_wf(b.nodes@, i, objects)
}

/// Appending nodes preserves the well-formedness of existing ones, since a
/// node only looks at itself and at earlier children.
proof fn lemma_node_wf_append(s1: Seq<BvhNode>, s2: Seq<BvhNode>, i: int, objects: Seq<Cube>)
    requires
        0 <= i < s1.len(),
        s1.len() <= s2.len(),
        s2.subrange(0, s1.len() as int) == s1,
        node_wf(s1, i, objects),
    ensures
        node_wf(s2, i, objects),
{
    assert(s2[i] == s2.subrange(0, s1.len() as int)[i]);
    let nd = s1[i];
    if !nd.leaf {
        assert(s2[nd.left as int] == s2.subrange(0, s1.len() as int)[nd.left as int]);
        assert(s2[nd.right as int] == s2.subrange(0, s1.len() as int)[nd.right as int]);
    }
}

/// Componentwise minimum corner.
fn corner_min(a: &Vec3, b: &Vec3) -> (r: Vec3)
    requires
        v3_wf(*a),
        v3_wf(*b),
    ensures
        r.x == if a.x <= b.x { a.x } else { b.x },
        r.y == if a.y <= b.y { a.y } else { b.y },
        r.z == if a.z <= b.z { a.z } else { b.z },
        v3_wf(r),
{
    Vec3 {
        x: if a.x <= b.x { a.x } else { b.x },
        y: if a.y <= b.y { a.y } else { b.y },
        z: if a.z <= b.z { a.z } else { b.z },
    }
}

/// Componentwise maximum corner.
fn corner_max(a: &Vec3, b: &Vec3) -> (r: Vec3)
    requires
        v3_wf(*a),
        v3_wf(*b),
    ensures
        r.x == if a.x >= b.x { a.x } else { b.x },
        r.y == if a.y >= b.y { a.y } else { b.y },
        r.z == if a.z >= b.z { a.z } else { b.z },
        v3_wf(r),
{
    Vec3 {
        x: if a.x >= b.x { a.x } else { b.x },
        y: if a.y >= b.y { a.y } else { b.y },
        z: if a.z >= b.z { a.z } else { b.z },
    }
}

/// Build one subtree over `objects[lo..hi]`, pushing its nodes (children
/// first) and returning the subtree root's index, which is the last node.
fn build_range(objects: &Vec<Cube>, lo: usize, hi: usize, nodes: &mut Vec<BvhNode>) -> (root: usize)
    requires
        lo < hi <= objects@.len(),
        forall|i: int| 0 <= i < objects@.len() ==> cube_wf(#[trigger] objects@[i]),
        forall|i: int| 0 <= i < old(nodes)@.len() ==> node_wf(old(nodes)@, i, objects@),
    ensures
        final(nodes)@.len() == root + 1,
        old(nodes)@.len() <= root,
        final(nodes)@.subrange(0, old(nodes)@.len() as int) == old(nodes)@,
        forall|i: int| 0 <= i < final(nodes)@.len() ==> node_wf(final(nodes)@, i, objects@),
        final(nodes)@[root as int].lo == lo,
        final(nodes)@[root as int].hi == hi,
    decreases hi - lo,
{
    let count: usize = hi - lo;
    if count <= 2 {
        let mut bmin: Vec3 = objects[lo].min_bounds;
        let mut bmax: Vec3 = objects[lo].max_bounds;
        let mut j: usize = lo + 1;
        while j < hi
            invariant
                lo < j <= hi <= objects@.len(),
                forall|i: int| 0 <= i < objects@.len() ==> cube_wf(#[trigger] objects@[i]),
                v3_wf(bmin),
                v3_wf(bmax),
                forall|k: int| lo <= k < j ==> encloses(bmin, bmax, #[trigger] objects@[k]),
            decreases hi - j,
        {
            bmin = corner_min(&bmin, &objects[j].min_bounds);
            bmax = corner_max(&bmax, &objects[j].max_bounds);
            j = j + 1;
        }
        let node = BvhNode { bbox_min: bmin, bbox_max: bmax, left: 0, right: 0, lo, hi, leaf: true };
        let ghost before = nodes@;
        nodes.push(node);
        proof {
            assert(nodes@.subrange(0, before.len() as int) =~= before);
            assert forall|i: int| 0 <= i < nodes@.len() implies
                node_wf(nodes@, i, objects@) by {
                if i < before.len() {
                    lemma_node_wf_append(before, nodes@, i, objects@);
                }
            }
        }
        nodes.len() - 1
    } else {
        let mid: usize = lo + count / 2;
        let l: usize = build_range(objects, lo, mid, nodes);
        let ghost after_l = nodes@;
        let r: usize = build_range(objects, mid, hi, nodes);
        let ghost after_r = nodes@;
        proof {
            // the left root is untouched by the right build
            assert(after_r[l as int] == after_r.subrange(0, after_l.len() as int)[l as int]);
        }
        proof {
            assert(node_wf(nodes@, l as int, objects@));
            assert(node_wf(nodes@, r as int, objects@));
        }
        let lnode = nodes[l];
        let rnode = nodes[r];
        let bmin: Vec3 = corner_min(&lnode.bbox_min, &rnode.bbox_min);
        let bmax: Vec3 = corner_max(&lnode.bbox_max, &rnode.bbox_max);
        let node = BvhNode { bbox_min: bmin, bbox_max: bmax, left: l, right: r, lo, hi, leaf: false };
        nodes.push(node);
        proof {
            assert(nodes@.subrange(0, after_r.len() as int) =~= after_r);
            let full = nodes@;
            let own = full.len() - 1;
            assert forall|j: int| lo <= j < hi implies encloses(bmin, bmax, #[trigger] objects@[j]) by {
                if j < mid {
                    assert(node_wf(after_r, l as int, objects@));
                    assert(encloses(after_r[l as int].bbox_min, after_r[l as int].bbox_max, objects@[j]));
                } else {
                    assert(node_wf(after_r, r as int, objects@));
                    assert(encloses(after_r[r as int].bbox_min, after_r[r as int].bbox_max, objects@[j]));
                }
            }
            assert forall|i: int| 0 <= i < full.len() implies node_wf(full, i, objects@) by {
                if i < after_r.len() {
                    lemma_node_wf_append(after_r, full, i, objects@);
                } else {
                    assert(i == own);
                    assert(full[l as int] == after_r[l as int]);
                    assert(full[r as int] == after_r[r as int]);
                    assert(node_wf(full, own, objects@));
                }
            }
            // the old prefix is still the old prefix
            assert(full.subrange(0, old(nodes)@.len() as int) =~= old(nodes)@);
        }
        nodes.len() - 1
    }
}

impl Bvh {
    /// Build the hierarchy once over the frozen primitive list.
    pub fn build(objects: &Vec<Cube>) -> (r: Bvh)
        requires
            forall|i: int| 0 <= i < objects@.len() ==> cube_wf(#[trigger] objects@[i]),
        ensures
            bvh_wf(r, objects@),
    {
        let n: usize = objects.len();
        let mut nodes: Vec<BvhNode> = Vec::new();
        if n > 0 {
            build_range(objects, 0, n, &mut nodes);
        }
        Bvh { nodes, n }
    }

    /// Collect every primitive index in this subtree whose box the ray
    /// could hit.
    fn traverse_node(
        &self,
        i: usize,
        ray_origin: &Vec3,
        ray_direction: &Vec3,
        objects: &Vec<Cube>,
        out: &mut Vec<usize>,
    )
        requires
            bvh_wf(*self, objects@),
            i < self.nodes@.len(),
            v3_wf(*ray_origin),
            v3_wf(*ray_direction),
            forall|k: int| 0 <= k < old(out)@.len() ==> (#[trigger] old(out)@[k]) < objects@.len(),
        ensures
            final(out)@.len() >= old(out)@.len(),
            final(out)@.subrange(0, old(out)@.len() as int) == old(out)@,
            forall|k: int| 0 <= k < final(out)@.len() ==> (#[trigger] final(out)@[k]) < objects@.len(),
            forall|j: int| self.nodes@[i as int].lo <= j < self.nodes@[i as int].hi
                && cube_hit(#[trigger] objects@[j], *ray_origin, *ray_direction)
                ==> final(out)@.contains(j as usize),
        decreases i,
    {
        let nd = self.nodes[i];
        assert(node_wf(self.nodes@, i as int, objects@));
        if !hits_box_exec(ray_origin, ray_direction, &nd.bbox_min, &nd.bbox_max) {
            proof {
                assert forall|j: int| nd.lo <= j < nd.hi implies
                    !cube_hit(#[trigger] objects@[j], *ray_origin, *ray_direction) by {
                    if cube_hit(objects@[j], *ray_origin, *ray_direction) {
                        lemma_cube_hit_in_box(
                            objects@[j], *ray_origin, *ray_direction, nd.bbox_min, nd.bbox_max);
                    }
                }
            }
            proof {
                assert(out@.subrange(0, old(out)@.len() as int) =~= old(out)@);
            }
            return;
        }
        if nd.leaf {
            let mut j: usize = nd.lo;
            while j < nd.hi
                invariant
                    nd.lo <= j <= nd.hi <= objects@.len(),
                    out@.len() >= old(out)@.len(),
                    out@.subrange(0, old(out)@.len() as int) == old(out)@,
                    forall|k: int| 0 <= k < out@.len()
                        ==> (#[trigger] out@[k]) < objects@.len(),
                    forall|q: int| nd.lo <= q < j ==> #[trigger] out@.contains(q as usize),
                decreases nd.hi - j,
            {
                let ghost before = out@;
                out.push(j);
                proof {
                    assert(out@.subrange(0, before.len() as int) =~= before);
                    assert(out@.subrange(0, old(out)@.len() as int)
                        =~= before.subrange(0, old(out)@.len() as int));
                    assert(out@[out@.len() - 1] == j);
                    assert forall|q: int| nd.lo <= q < j + 1 implies
                        #[trigger] out@.contains(q as usize) by {
                        if q < j {
                            assert(before.contains(q as usize));
                            let w = choose|w: int| 0 <= w < before.len() && before[w] == q as usize;
                            assert(out@ == before.push(j));
                            assert(out@[w] == q as usize);
                        } else {
                            assert(out@[out@.len() - 1] == q as usize);
                        }
                    }
                }
                j = j + 1;
            }
        } else {
            let ghost before = out@;
            self.traverse_node(nd.left, ray_origin, ray_direction, objects, out);
            let ghost mid_out = out@;
            self.traverse_node(nd.right, ray_origin, ray_direction, objects, out);
            proof {
                assert(out@.subrange(0, mid_out.len() as int) =~= mid_out);
                assert(out@.subrange(0, old(out)@.len() as int)
                    =~= mid_out.subrange(0, before.len() as int));
                assert forall|j: int| nd.lo <= j < nd.hi
                    && cube_hit(#[trigger] objects@[j], *ray_origin, *ray_direction) implies
                    out@.contains(j as usize) by {
                    let lnode = self.nodes@[nd.left as int];
                    if j < lnode.hi {
                        assert(mid_out.contains(j as usize));
                        let w = choose|w: int| 0 <= w < mid_out.len() && mid_out[w] == j as usize;
                        assert(out@[w] == j as usize);
                    }
                }
            }
        }
    }

    /// Return the candidate set for a ray: in no guaranteed order, possibly
    /// with false positives, but provably containing every primitive the
    /// ray hits.
    pub fn traverse(&self, ray_origin: &Vec3, ray_direction: &Vec3, objects: &Vec<Cube>)
        -> (r: Vec<usize>)
        requires
            bvh_wf(*self, objects@),
            v3_wf(*ray_origin),
            v3_wf(*ray_direction),
        ensures
            forall|k: int| 0 <= k < r@.len() ==> (#[trigger] r@[k]) < objects@.len(),
            forall|j: int| 0 <= j < objects@.len()
                && cube_hit(#[trigger] objects@[j], *ray_origin, *ray_direction)
                ==> r@.contains(j as usize),
    {
        let mut out: Vec<usize> = Vec::new();
        if self.n > 0 {
            let root: usize = self.nodes.len() - 1;
            self.traverse_node(root, ray_origin, ray_direction, objects, &mut out);
        }
        out
    }
}

} // verus!
