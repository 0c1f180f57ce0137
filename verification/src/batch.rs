//! Draw batching: the scene's instances are ordered by (shape, style), a
//! stable order that keeps insertion order within a batch, and each maximal
//! run becomes one instanced draw whose instances occupy the run's
//! positions in the per-instance uniform array.

use vstd::prelude::*;
use crate::scene::{Instance, MeshShape, RenderStyle, shape_rank, style_rank};

verus! {

/// Batch key of an instance: shapes in declaration order, then styles.
pub open spec fn batch_key<T>(inst: Instance<T>) -> int {
    shape_rank(inst.shape) * 2 + style_rank(inst.style)
}

fn batch_key_exec<T>(inst: &Instance<T>) -> (k: usize)
    ensures
        k == batch_key(*inst),
        k < 8,
{
    let s: usize = match inst.shape {
        MeshShape::Triangle => 0,
        MeshShape::Cube => 1,
        MeshShape::Icosphere => 2,
        MeshShape::Tetrahedron => 3,
    };
    let t: usize = match inst.style {
        RenderStyle::Solid => 0,
        RenderStyle::Wireframe => 1,
    };
    s * 2 + t
}

/// Position `j` occurs in `order`.
pub open spec fn placed(order: Seq<usize>, j: int) -> bool {
    exists|p: int| 0 <= p < order.len() && order[p] == j
}

/// `order` lists instance positions sorted by batch key, ties in insertion order.
pub open spec fn is_batch_order<T>(instances: Seq<Instance<T>>, order: Seq<usize>) -> bool {
    &&& order.len() == instances.len()
    &&& forall|p: int| 0 <= p < order.len() ==> #[trigger] order[p] < instances.len()
    &&& forall|p: int, q: int|
        #![trigger order[p], order[q]]
        0 <= p < q < order.len() ==> batch_key(instances[order[p] as int]) < batch_key(
            instances[order[q] as int],
        ) || (batch_key(instances[order[p] as int]) == batch_key(instances[order[q] as int])
            && order[p] < order[q])
}

/// One instanced draw: every instance of one (shape, style) pair, at
/// positions `first..first + count` of the batch order.
#[derive(Clone, Copy, Debug, PartialEq, Eq, Structural)]
pub struct DrawGroup {
    pub shape: MeshShape,
    pub style: RenderStyle,
    pub first: usize,
    pub count: usize,
}

/// `groups` are the maximal runs of equal (shape, style) along `order`.
pub open spec fn is_grouping<T>(
    instances: Seq<Instance<T>>,
    order: Seq<usize>,
    groups: Seq<DrawGroup>,
) -> bool {
    &&& (groups.len() == 0 <==> order.len() == 0)
    &&& groups.len() > 0 ==> groups[0].first == 0
    &&& groups.len() > 0 ==> groups.last().first + groups.last().count == order.len()
    &&& forall|g: int|
        0 <= g < groups.len() - 1 ==> #[trigger] groups[g + 1].first == groups[g].first
            + groups[g].count
    &&& forall|g: int| 0 <= g < groups.len() ==> #[trigger] groups[g].count >= 1
    &&& forall|g: int, p: int|
        #![trigger groups[g], order[p]]
        0 <= g < groups.len() && groups[g].first <= p < groups[g].first + groups[g].count
            ==> instances[order[p] as int].shape == groups[g].shape && instances[order[p] as int].style
            == groups[g].style
    &&& forall|g: int|
        0 <= g < groups.len() - 1 ==> shape_rank(groups[g].shape) * 2 + style_rank(groups[g].style)
            < shape_rank(#[trigger] groups[g + 1].shape) * 2 + style_rank(groups[g + 1].style)
}

/// The batch order of the instances: positions sorted by (shape, style),
/// insertion order kept within equal keys.
pub fn batch_order<T>(instances: &[Instance<T>]) -> (order: Vec<usize>)
    ensures
        is_batch_order(instances@, order@),
{
    let n = instances.len();
    let ghost ins = instances@;
    let mut order: Vec<usize> = Vec::new();
    let mut key: usize = 0;
    while key < 8
        invariant
            ins == instances@,
            n == ins.len(),
            key <= 8,
            forall|p: int| 0 <= p < order.len() ==> #[trigger] order[p] < n,
            forall|p: int| 0 <= p < order.len() ==> batch_key(ins[#[trigger] order[p] as int]) < key,
            forall|p: int, q: int|
                #![trigger order[p], order[q]]
                0 <= p < q < order.len() ==> batch_key(ins[order[p] as int]) < batch_key(
                    ins[order[q] as int],
                ) || (batch_key(ins[order[p] as int]) == batch_key(ins[order[q] as int])
                    && order[p] < order[q]),
            forall|i: int|
                #![trigger ins[i]]
                0 <= i < n && batch_key(ins[i]) < key ==> placed(order@, i),
            forall|i: int| 0 <= i < n ==> 0 <= #[trigger] batch_key(ins[i]) < 8,
        decreases 8 - key,
    {
        let ghost before = order@;
        let mut i: usize = 0;
        while i < n
            invariant
                ins == instances@,
                n == ins.len(),
                key < 8,
                i <= n,
                before.len() <= order.len(),
                forall|p: int| 0 <= p < before.len() ==> order[p] == before[p],
                forall|p: int| 0 <= p < before.len() ==> batch_key(ins[#[trigger] before[p] as int]) < key,
                forall|p: int| 0 <= p < order.len() ==> #[trigger] order[p] < n,
                forall|p: int|
                    before.len() <= p < order.len() ==> batch_key(ins[#[trigger] order[p] as int])
                        == key && order[p] < i,
                forall|p: int, q: int|
                    #![trigger order[p], order[q]]
                    0 <= p < q < order.len() ==> batch_key(ins[order[p] as int]) < batch_key(
                        ins[order[q] as int],
                    ) || (batch_key(ins[order[p] as int]) == batch_key(ins[order[q] as int])
                        && order[p] < order[q]),
                forall|j: int|
                    #![trigger ins[j]]
                    0 <= j < n && batch_key(ins[j]) < key ==> placed(order@, j),
                forall|j: int|
                    #![trigger ins[j]]
                    0 <= j < i && batch_key(ins[j]) == key ==> placed(order@, j),
                forall|j: int| 0 <= j < n ==> 0 <= #[trigger] batch_key(ins[j]) < 8,
            decreases n - i,
        {
            let k = batch_key_exec(&instances[i]);
            let ghost prev = order@;
            if k == key {
                order.push(i);
                assert(order[order.len() - 1] == i);
                assert forall|p: int, q: int|
                    #![trigger order[p], order[q]]
                    0 <= p < q < order.len() implies batch_key(ins[order[p] as int]) < batch_key(
                        ins[order[q] as int],
                    ) || (batch_key(ins[order[p] as int]) == batch_key(ins[order[q] as int])
                        && order[p] < order[q]) by {
                    if q == order.len() - 1 {
                        assert(order[p] == prev[p]);
                        if p < before.len() {
                            assert(before[p] == prev[p]);
                        }
                    } else {
                        assert(order[p] == prev[p] && order[q] == prev[q]);
                    }
                }
            }
            assert forall|j: int| placed(prev, j) implies placed(order@, j) by {
                let p = choose|p: int| 0 <= p < prev.len() && prev[p] == j;
                assert(order[p] == j);
            }
            i += 1;
        }
        assert forall|p: int| 0 <= p < order.len() implies batch_key(ins[#[trigger] order[p] as int])
            < key + 1 by {
            if p < before.len() {
                assert(order[p] == before[p]);
            }
        }
        key += 1;
        assert forall|j: int| 0 <= j < n && batch_key(#[trigger] ins[j]) < key implies placed(
            order@,
            j,
        ) by {
            if batch_key(ins[j]) < key - 1 {
            } else {
            }
        }
    }
    proof {
        // every position appears, so the sorted list has exactly `n` entries
        assert forall|i: int| 0 <= i < n implies #[trigger] placed(order@, i) by {
            assert(batch_key(ins[i]) < 8);
        }
        lemma_strict_covering_len(ins, order@);
    }
    order
}

/// A list of positions below `n`, strictly increasing in (key, position) and
/// covering every position, has exactly `n` entries.
proof fn lemma_strict_covering_len<T>(ins: Seq<Instance<T>>, order: Seq<usize>)
    requires
        ins.len() <= usize::MAX,
        forall|p: int| 0 <= p < order.len() ==> #[trigger] order[p] < ins.len(),
        forall|p: int, q: int|
            #![trigger order[p], order[q]]
            0 <= p < q < order.len() ==> batch_key(ins[order[p] as int]) < batch_key(
                ins[order[q] as int],
            ) || (batch_key(ins[order[p] as int]) == batch_key(ins[order[q] as int]) && order[p]
                < order[q]),
        forall|i: int| 0 <= i < ins.len() ==> #[trigger] placed(order, i),
    ensures
        order.len() == ins.len(),
{
    // distinct entries: the map p -> order[p] is injective into 0..n, and onto
    let s = order.to_set();
    assert(order.no_duplicates()) by {
        assert forall|p: int, q: int| 0 <= p < order.len() && 0 <= q < order.len() && p != q implies order[p]
            != order[q] by {
            if p < q {
                assert(order[p] != order[q] || true);
            } else {
            }
        }
    }
    order.unique_seq_to_set();
    let full = Set::new(|i: usize| (i as int) < ins.len());
    assert(s =~= full) by {
        assert forall|i: usize| s.contains(i) implies full.contains(i) by {
            let p = choose|p: int| 0 <= p < order.len() && order[p] == i;
        }
        assert forall|i: usize| full.contains(i) implies s.contains(i) by {
            assert(placed(order, i as int));
            let p = choose|p: int| 0 <= p < order.len() && order[p] == i as int;
            assert(order.contains(i));
        }
    }
    lemma_usize_range_set_len(ins.len());
}

proof fn lemma_usize_range_set_len(n: nat)
    requires
        n <= usize::MAX + 1,
    ensures
        Set::new(|i: usize| (i as int) < n).len() == n,
        Set::new(|i: usize| (i as int) < n).finite(),
    decreases n,
{
    let s = Set::new(|i: usize| (i as int) < n);
    if n == 0 {
        assert(s =~= Set::empty());
    } else {
        lemma_usize_range_set_len((n - 1) as nat);
        let t = Set::new(|i: usize| (i as int) < n - 1);
        assert(s =~= t.insert((n - 1) as usize));
    }
}

fn same_batch<T>(x: &Instance<T>, shape: MeshShape, style: RenderStyle) -> (b: bool)
    ensures
        b == (x.shape == shape && x.style == style),
{
    x.shape == shape && x.style == style
}

/// Split a batch order into its maximal runs of equal (shape, style): one
/// instanced draw each.
pub fn draw_groups<T>(instances: &[Instance<T>], order: &[usize]) -> (groups: Vec<DrawGroup>)
    requires
        is_batch_order(instances@, order@),
    ensures
        is_grouping(instances@, order@, groups@),
{
    let n = order.len();
    let ghost ins = instances@;
    let ghost ord = order@;
    let mut groups: Vec<DrawGroup> = Vec::new();
    let mut i: usize = 0;
    while i < n
        invariant
            ins == instances@,
            ord == order@,
            n == ord.len(),
            is_batch_order(ins, ord),
            i <= n,
            (groups.len() == 0 <==> i == 0),
            groups.len() > 0 ==> groups[0].first == 0,
            groups.len() > 0 ==> groups@.last().first + groups@.last().count == i,
            forall|g: int|
                0 <= g < groups.len() - 1 ==> #[trigger] groups[g + 1].first == groups[g].first
                    + groups[g].count,
            forall|g: int| 0 <= g < groups.len() ==> #[trigger] groups[g].count >= 1,
            forall|g: int, p: int|
                #![trigger groups[g], ord[p]]
                0 <= g < groups.len() && groups[g].first <= p < groups[g].first + groups[g].count
                    ==> ins[ord[p] as int].shape == groups[g].shape && ins[ord[p] as int].style
                    == groups[g].style,
            forall|g: int|
                0 <= g < groups.len() - 1 ==> shape_rank(groups[g].shape) * 2 + style_rank(
                    groups[g].style,
                ) < shape_rank(#[trigger] groups[g + 1].shape) * 2 + style_rank(
                    groups[g + 1].style,
                ),
            groups.len() > 0 && i < n ==> shape_rank(groups@.last().shape) * 2 + style_rank(
                groups@.last().style,
            ) < batch_key(ins[ord[i as int] as int]),
        decreases n - i,
    {
        let shape = instances[order[i]].shape;
        let style = instances[order[i]].style;
        let mut count: usize = 1;
        while i + count < n && same_batch(&instances[order[i + count]], shape, style)
            invariant
                ins == instances@,
                ord == order@,
                n == ord.len(),
                is_batch_order(ins, ord),
                i < n,
                1 <= count,
                i + count <= n,
                shape == ins[ord[i as int] as int].shape,
                style == ins[ord[i as int] as int].style,
                forall|p: int|
                    i <= p < i + count ==> ins[#[trigger] ord[p] as int].shape == shape && ins[ord[p] as int].style
                        == style,
            decreases n - i - count,
        {
            count += 1;
        }
        let ghost old_groups = groups@;
        groups.push(DrawGroup { shape, style, first: i, count });
        proof {
            if i + count < n {
                let q = (i + count) as int;
                assert(ord[q - 1] == ord[q - 1]);
                assert(ins[ord[q - 1] as int].shape == shape && ins[ord[q - 1] as int].style == style);
                assert(batch_key(ins[ord[q - 1] as int]) <= batch_key(ins[ord[q] as int]));
                assert(!(ins[ord[q] as int].shape == shape && ins[ord[q] as int].style == style));
                assert(batch_key(ins[ord[q - 1] as int]) != batch_key(ins[ord[q] as int])) by {
                    if batch_key(ins[ord[q - 1] as int]) == batch_key(ins[ord[q] as int]) {
                        assert(shape_rank(ins[ord[q] as int].shape) == shape_rank(shape));
                        assert(style_rank(ins[ord[q] as int].style) == style_rank(style));
                    }
                }
            }
            assert forall|g: int, p: int|
                #![trigger groups[g], ord[p]]
                0 <= g < groups.len() && groups[g].first <= p < groups[g].first + groups[g].count
                    implies ins[ord[p] as int].shape == groups[g].shape && ins[ord[p] as int].style
                    == groups[g].style by {
                if g < old_groups.len() {
                    assert(groups[g] == old_groups[g]);
                }
            }
        }
        i += count;
    }
    groups
}

/// The draw plan of a frame: the batch order of the instances (which is also
/// the order of their per-instance uniform slots) and its draw groups.
pub fn plan_draws<T>(instances: &[Instance<T>]) -> (plan: (Vec<usize>, Vec<DrawGroup>))
    ensures
        is_batch_order(instances@, plan.0@),
        is_grouping(instances@, plan.0@, plan.1@),
{
    let order = batch_order(instances);
    let groups = draw_groups(instances, order.as_slice());
    (order, groups)
}

/// Position `p` of the batch order lies in draw group `g`.
pub open spec fn in_group(groups: Seq<DrawGroup>, g: int, p: int) -> bool {
    0 <= g < groups.len() && groups[g].first <= p < groups[g].first + groups[g].count
}

/// Position `p` of the batch order lies in some draw group.
pub open spec fn covered(groups: Seq<DrawGroup>, p: int) -> bool {
    exists|g: int| #[trigger] in_group(groups, g, p)
}

/// Every instance is drawn exactly once: it sits at one position of the
/// batch order, and that position lies in exactly one draw group, the one
/// of its shape and style.
pub proof fn law_each_instance_drawn_once<T>(
    instances: Seq<Instance<T>>,
    order: Seq<usize>,
    groups: Seq<DrawGroup>,
    i: int,
)
    requires
        is_batch_order(instances, order),
        is_grouping(instances, order, groups),
        0 <= i < instances.len(),
        instances.len() <= usize::MAX,
    ensures
        exists|p: int| 0 <= p < order.len() && order[p] == i,
        forall|p: int, q: int| 0 <= p < order.len() && 0 <= q < order.len() && order[p] == i && order[q] == i ==> p == q,
        forall|p: int|
            0 <= p < order.len() ==> #[trigger] covered(groups, p),
        forall|p: int, g: int, h: int|
            0 <= p < order.len() && #[trigger] in_group(groups, g, p) && #[trigger] in_group(groups, h, p) ==> g == h,
{
    lemma_order_covers(instances, order, i);
    assert forall|p: int, q: int| 0 <= p < order.len() && 0 <= q < order.len() && order[p] == i && order[q] == i implies p == q by {
        if p < q {
            assert(order[p] < order[q] || batch_key(instances[order[p] as int]) < batch_key(instances[order[q] as int]));
        } else if q < p {
            assert(order[q] < order[p] || batch_key(instances[order[q] as int]) < batch_key(instances[order[p] as int]));
        }
    }
    lemma_groups_tile(groups, order.len() as int);
}

/// Groups that tile `0..len` in increasing order: every position lies in
/// exactly one of them.
proof fn lemma_groups_tile(groups: Seq<DrawGroup>, len: int)
    requires
        groups.len() == 0 <==> len == 0,
        groups.len() > 0 ==> groups[0].first == 0,
        groups.len() > 0 ==> groups.last().first + groups.last().count == len,
        forall|g: int|
            0 <= g < groups.len() - 1 ==> #[trigger] groups[g + 1].first == groups[g].first
                + groups[g].count,
        forall|g: int| 0 <= g < groups.len() ==> #[trigger] groups[g].count >= 1,
    ensures
        forall|p: int|
            0 <= p < len ==> #[trigger] covered(groups, p),
        forall|p: int, g: int, h: int|
            0 <= p < len && #[trigger] in_group(groups, g, p) && #[trigger] in_group(groups, h, p) ==> g == h,
{
    lemma_group_starts_increase(groups);
    assert forall|p: int| 0 <= p < len implies #[trigger] covered(groups, p) by {
        lemma_find_group(groups, len, p, groups.len() - 1);
    }
    assert forall|p: int, g: int, h: int|
        0 <= p < len && #[trigger] in_group(groups, g, p) && #[trigger] in_group(groups, h, p) implies g == h by {
        if g < h {
            assert(groups[g].first + groups[g].count <= groups[h].first);
        } else if h < g {
            assert(groups[h].first + groups[h].count <= groups[g].first);
        }
    }
}

proof fn lemma_group_starts_increase(groups: Seq<DrawGroup>)
    requires
        forall|g: int|
            0 <= g < groups.len() - 1 ==> #[trigger] groups[g + 1].first == groups[g].first
                + groups[g].count,
        forall|g: int| 0 <= g < groups.len() ==> #[trigger] groups[g].count >= 1,
    ensures
        forall|g: int, h: int|
            #![trigger groups[g], groups[h]]
            0 <= g < h < groups.len() ==> groups[g].first + groups[g].count <= groups[h].first,
{
    assert forall|g: int, h: int|
        #![trigger groups[g], groups[h]]
        0 <= g < h < groups.len() implies groups[g].first + groups[g].count <= groups[h].first by {
        lemma_group_gap(groups, g, h);
    }
}

proof fn lemma_group_gap(groups: Seq<DrawGroup>, g: int, h: int)
    requires
        0 <= g < h < groups.len(),
        forall|g: int|
            0 <= g < groups.len() - 1 ==> #[trigger] groups[g + 1].first == groups[g].first
                + groups[g].count,
        forall|g: int| 0 <= g < groups.len() ==> #[trigger] groups[g].count >= 1,
    ensures
        groups[g].first + groups[g].count <= groups[h].first,
    decreases h - g,
{
    if h > g + 1 {
        lemma_group_gap(groups, g, h - 1);
        let prev = h - 1;
        assert(groups[prev + 1].first == groups[prev].first + groups[prev].count);
    } else {
        assert(groups[g + 1].first == groups[g].first + groups[g].count);
    }
}

proof fn lemma_find_group(groups: Seq<DrawGroup>, len: int, p: int, h: int)
    requires
        groups.len() > 0,
        groups[0].first == 0,
        groups.last().first + groups.last().count == len,
        0 <= p < len,
        0 <= h < groups.len(),
        p < groups[h].first + groups[h].count,
        forall|g: int|
            0 <= g < groups.len() - 1 ==> #[trigger] groups[g + 1].first == groups[g].first
                + groups[g].count,
        forall|g: int| 0 <= g < groups.len() ==> #[trigger] groups[g].count >= 1,
    ensures
        exists|g: int| #[trigger] in_group(groups, g, p),
    decreases h,
{
    if groups[h].first <= p {
        assert(in_group(groups, h, p));
    } else {
        assert(h > 0);
        let prev = h - 1;
        assert(groups[prev + 1].first == groups[prev].first + groups[prev].count);
        lemma_find_group(groups, len, p, h - 1);
    }
}

/// A position below the instance count occurs in a batch order.
proof fn lemma_order_covers<T>(instances: Seq<Instance<T>>, order: Seq<usize>, i: int)
    requires
        is_batch_order(instances, order),
        0 <= i < instances.len(),
        instances.len() <= usize::MAX,
    ensures
        exists|p: int| 0 <= p < order.len() && order[p] == i,
{
    let s = order.to_set();
    assert(order.no_duplicates()) by {
        assert forall|p: int, q: int|
            0 <= p < order.len() && 0 <= q < order.len() && p != q implies order[p] != order[q] by {
            if p < q {
                assert(order[p] < order[q] || batch_key(instances[order[p] as int]) < batch_key(instances[order[q] as int]));
            } else {
                assert(order[q] < order[p] || batch_key(instances[order[q] as int]) < batch_key(instances[order[p] as int]));
            }
        }
    }
    order.unique_seq_to_set();
    let full = Set::new(|j: usize| (j as int) < instances.len());
    lemma_usize_range_set_len(instances.len());
    assert(s.subset_of(full)) by {
        assert forall|j: usize| s.contains(j) implies full.contains(j) by {
            let p = choose|p: int| 0 <= p < order.len() && order[p] == j;
        }
    }
    if !s.contains(i as usize) {
        vstd::set_lib::lemma_len_subset(s.insert(i as usize), full);
        assert(s.insert(i as usize).len() == s.len() + 1);
    }
    assert(s.contains(i as usize));
    assert(order.contains(i as usize));
}

} // verus!
