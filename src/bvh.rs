use vstd::prelude::*;

verus! {

broadcast use vstd::seq_lib::group_to_multiset_ensures;

/// The shape of a bounding volume hierarchy over objects numbered from zero.
/// Each node's box, the union of its objects' boxes, is not part of the shape.
#[derive(Debug)]
pub enum BvhTree {
    /// A node over one object: both children are that object.
    Single { object: usize },
    /// A node over two objects, one child each, in order along the split axis.
    Pair { first: usize, second: usize },
    /// A node over more objects: sorted along the split axis and cut at the
    /// midpoint, the first half (rounded down) to the left.
    Split { left: Box<BvhTree>, right: Box<BvhTree> },
}

impl BvhTree {
    /// The objects under the node, left to right; `Single` counts its object once.
    pub open spec fn leaves(&self) -> Seq<usize>
        decreases self,
    {
        match self {
            BvhTree::Single { object } => seq![*object],
            BvhTree::Pair { first, second } => seq![*first, *second],
            BvhTree::Split { left, right } => left.leaves() + right.leaves(),
        }
    }

    /// Every `Split` is over at least three objects and gives its left child
    /// half of them, rounded down.
    pub open spec fn median_shaped(&self) -> bool
        decreases self,
    {
        match self {
            BvhTree::Split { left, right } => {
                &&& left.leaves().len() + right.leaves().len() >= 3
                &&& left.leaves().len() == (left.leaves().len() + right.leaves().len()) / 2
                &&& left.median_shaped()
                &&& right.median_shaped()
            },
            _ => true,
        }
    }

    /// Number of node levels from this node down to its deepest leaf node.
    pub open spec fn levels(&self) -> nat
        decreases self,
    {
        match self {
            BvhTree::Split { left, right } => {
                let l = left.levels();
                let r = right.levels();
                1 + if l >= r {
                    l
                } else {
                    r
                }
            },
            _ => 1,
        }
    }
}

/// The pairs of `items` and `keys`, position by position.
pub open spec fn keyed(items: Seq<usize>, keys: Seq<u64>) -> Seq<(usize, u64)> {
    Seq::new(items.len(), |i: int| (items[i], keys[i]))
}

/// `s` with `x` inserted after every entry whose key is at most `x`'s, taken
/// from the back: in a sequence sorted by key, after all keys not above it.
pub open spec fn insert_by_key(s: Seq<(usize, u64)>, x: (usize, u64)) -> Seq<(usize, u64)>
    decreases s.len(),
{
    if s.len() == 0 || s.last().1 <= x.1 {
        s.push(x)
    } else {
        insert_by_key(s.drop_last(), x).push(s.last())
    }
}

/// `s` sorted by key, entries with equal keys in the order they came in: each
/// entry in turn inserted into the sorted entries before it.
pub open spec fn stable_sorted(s: Seq<(usize, u64)>) -> Seq<(usize, u64)>
    decreases s.len(),
{
    if s.len() == 0 {
        s
    } else {
        insert_by_key(stable_sorted(s.drop_last()), s.last())
    }
}

/// The keys are in non-decreasing order.
pub open spec fn keys_sorted(keys: Seq<u64>) -> bool {
    forall|a: int, b: int| 0 <= a < b < keys.len() ==> keys[a] <= keys[b]
}

/// Exchanges positions `j - 1` and `j` of both vectors.
fn swap_down(items: &mut Vec<usize>, keys: &mut Vec<u64>, j: usize)
    requires
        0 < j < old(items)@.len(),
        old(items)@.len() == old(keys)@.len(),
    ensures
        final(items)@ == old(items)@.update(j - 1, old(items)@[j as int]).update(
            j as int,
            old(items)@[j - 1],
        ),
        final(keys)@ == old(keys)@.update(j - 1, old(keys)@[j as int]).update(
            j as int,
            old(keys)@[j - 1],
        ),
        final(items)@.to_multiset() == old(items)@.to_multiset(),
        keyed(final(items)@, final(keys)@).to_multiset() == keyed(old(items)@, old(keys)@).to_multiset(),
{
    let ghost s = old(items)@;
    let ghost k = old(keys)@;
    let a = items[j - 1];
    let b = items[j];
    items.set(j - 1, b);
    items.set(j, a);
    let ka = keys[j - 1];
    let kb = keys[j];
    keys.set(j - 1, kb);
    keys.set(j, ka);
    proof {
        broadcast use vstd::multiset::group_multiset_axioms;

        crate::swaps::lemma_swap_multiset(s, (j - 1) as int, j as int);
        let z = keyed(s, k);
        crate::swaps::lemma_swap_multiset(z, (j - 1) as int, j as int);
        assert(keyed(items@, keys@) =~= z.update(j - 1, z[j as int]).update(j as int, z[j - 1]));
    }
}

/// Sorts `items` by their `keys` (moved along with them), keeping the order of
/// items with equal keys.
fn sort_by_key(items: &mut Vec<usize>, keys: &mut Vec<u64>)
    requires
        old(items)@.len() == old(keys)@.len(),
    ensures
        final(items)@.len() == old(items)@.len(),
        final(keys)@.len() == old(keys)@.len(),
        final(items)@.to_multiset() == old(items)@.to_multiset(),
        keyed(final(items)@, final(keys)@).to_multiset() == keyed(old(items)@, old(keys)@).to_multiset(),
        keys_sorted(final(keys)@),
        keyed(final(items)@, final(keys)@) == stable_sorted(keyed(old(items)@, old(keys)@)),
{
    let ghost start = keyed(old(items)@, old(keys)@);
    let n = items.len();
    let mut i: usize = 1;
    if n == 0 {
        assert(start =~= Seq::<(usize, u64)>::empty());
        return;
    }
    proof {
        let s1 = start.subrange(0, 1);
        assert(s1.drop_last() =~= Seq::<(usize, u64)>::empty());
        assert(stable_sorted(s1.drop_last()) =~= Seq::<(usize, u64)>::empty());
        assert(insert_by_key(Seq::<(usize, u64)>::empty(), s1.last()) =~= seq![s1.last()]);
        assert(keyed(items@, keys@).subrange(0, 1) =~= stable_sorted(s1));
    }
    while i < n
        invariant
            1 <= i <= n,
            start == keyed(old(items)@, old(keys)@),
            start.len() == n,
            keyed(items@, keys@).subrange(0, i as int) == stable_sorted(start.subrange(0, i as int)),
            keyed(items@, keys@).subrange(i as int, n as int) == start.subrange(i as int, n as int),
            n == items@.len(),
            n == keys@.len(),
            items@.to_multiset() == old(items)@.to_multiset(),
            keyed(items@, keys@).to_multiset() == keyed(old(items)@, old(keys)@).to_multiset(),
            forall|a: int, b: int| 0 <= a < b < i ==> keys@[a] <= keys@[b],
        decreases n - i,
    {
        let ghost prefix = keyed(items@, keys@).subrange(0, i as int);
        let ghost e = keyed(items@, keys@)[i as int];
        let ghost rest = keyed(items@, keys@).subrange(i + 1, n as int);
        proof {
            assert(keyed(items@, keys@).subrange(i as int, n as int)[0] == start.subrange(i as int, n as int)[0]);
            assert(e == start[i as int]);
            assert(start.subrange(0, i + 1).drop_last() =~= start.subrange(0, i as int));
            assert(start.subrange(0, i + 1).last() == e);
            assert(keyed(items@, keys@) =~= prefix.subrange(0, i as int) + seq![e] + prefix.subrange(i as int, i as int) + rest);
            assert(prefix.subrange(0, i as int) =~= prefix);
            assert(prefix.subrange(i as int, i as int) =~= Seq::<(usize, u64)>::empty());
            assert(insert_by_key(prefix, e) =~= insert_by_key(prefix.subrange(0, i as int), e) + prefix.subrange(i as int, i as int));
            let cur = keyed(items@, keys@);
            assert forall|k: int| i + 1 <= k < n implies cur[k] == start[k] by {
                assert(cur.subrange(i as int, n as int)[k - i] == start.subrange(i as int, n as int)[k - i]);
            }
            assert(rest =~= start.subrange(i + 1, n as int));
        }
        let mut j: usize = i;
        while j > 0 && keys[j - 1] > keys[j]
            invariant
                0 <= j <= i < n,
                prefix.len() == i,
                e.1 == keys@[j as int],
                keyed(items@, keys@) == prefix.subrange(0, j as int) + seq![e] + prefix.subrange(j as int, i as int) + rest,
                insert_by_key(prefix, e) == insert_by_key(prefix.subrange(0, j as int), e) + prefix.subrange(j as int, i as int),
                n == items@.len(),
                n == keys@.len(),
                items@.to_multiset() == old(items)@.to_multiset(),
                keyed(items@, keys@).to_multiset() == keyed(old(items)@, old(keys)@).to_multiset(),
                forall|a: int, b: int| 0 <= a < b < j ==> keys@[a] <= keys@[b],
                forall|a: int, b: int| j < a < b <= i ==> keys@[a] <= keys@[b],
                forall|a: int, b: int| 0 <= a < j && j < b <= i ==> keys@[a] <= keys@[b],
                forall|b: int| j < b <= i ==> keys@[j as int] < keys@[b],
            decreases j,
        {
            proof {
                let pj = prefix.subrange(0, j as int);
                assert(pj.last() == prefix[j - 1]);
                assert(keyed(items@, keys@)[j - 1] == prefix[j - 1]);
                assert(pj.drop_last() =~= prefix.subrange(0, j - 1));
                assert(prefix.subrange(j - 1, i as int) =~= seq![prefix[j - 1]] + prefix.subrange(j as int, i as int));
                assert(insert_by_key(prefix, e) =~= insert_by_key(prefix.subrange(0, j - 1), e) + prefix.subrange(j - 1, i as int));
            }
            let ghost kd = keyed(items@, keys@);
            swap_down(items, keys, j);
            assert(keyed(items@, keys@) =~= kd.update(j - 1, kd[j as int]).update(j as int, kd[j - 1]));
            j = j - 1;
            assert(keyed(items@, keys@) =~= prefix.subrange(0, j as int) + seq![e] + prefix.subrange(j as int, i as int) + rest);
        }
        proof {
            let pj = prefix.subrange(0, j as int);
            if j > 0 {
                assert(pj.last() == prefix[j - 1]);
                assert(keyed(items@, keys@)[j - 1] == prefix[j - 1]);
                assert(keyed(items@, keys@)[j - 1].1 == keys@[j - 1]);
                assert(prefix[j - 1].1 <= e.1);
            } else {
                assert(pj =~= Seq::<(usize, u64)>::empty());
            }
            assert(insert_by_key(pj, e) == pj.push(e));
            assert(keyed(items@, keys@).subrange(0, i + 1) =~= insert_by_key(prefix, e));
            assert(keyed(items@, keys@).subrange(i + 1, n as int) =~= start.subrange(i + 1, n as int));
        }
        i = i + 1;
    }
    assert(start.subrange(0, n as int) =~= start);
    assert(keyed(items@, keys@).subrange(0, n as int) =~= keyed(items@, keys@));
}

/// `s` lists each of the objects `0..count` exactly once.
pub open spec fn covers_each_once(s: Seq<usize>, count: nat) -> bool {
    &&& s.len() == count
    &&& s.no_duplicates()
    &&& forall|i: int| 0 <= i < s.len() ==> #[trigger] s[i] < count
}

/// The objects `0..count` in order.
pub open spec fn all_objects(count: nat) -> Seq<usize> {
    Seq::new(count, |i: int| i as usize)
}

/// The objects of a keyed sequence, in its order.
pub open spec fn objects_of(s: Seq<(usize, u64)>) -> Seq<usize> {
    Seq::new(s.len(), |i: int| s[i].0)
}

/// How one node divides its objects, given their keys along the split axis.
#[derive(Debug)]
pub enum NodeSplit {
    /// One object, both children.
    Single { object: usize },
    /// Two objects, one child each.
    Pair { first: usize, second: usize },
    /// More objects: the children's objects.
    Halves { left: Vec<usize>, right: Vec<usize> },
}

/// How the node over `items` divides them, `keys[i]` being the position of
/// `items[i]` along the split axis. One object makes a `Single` node. Two make
/// a `Pair`, the second first unless its key is strictly greater. More are
/// sorted by key, ties keeping their order, and cut at the midpoint, the first
/// half (rounded down) to the left.
pub fn split_node(items: Vec<usize>, keys: Vec<u64>) -> (r: NodeSplit)
    requires
        items@.len() >= 1,
        keys@.len() == items@.len(),
    ensures
        items@.len() == 1 ==> r == (NodeSplit::Single { object: items@[0] }),
        items@.len() == 2 && keys@[0] < keys@[1] ==> r == (NodeSplit::Pair {
            first: items@[0],
            second: items@[1],
        }),
        items@.len() == 2 && keys@[0] >= keys@[1] ==> r == (NodeSplit::Pair {
            first: items@[1],
            second: items@[0],
        }),
        items@.len() >= 3 ==> r is Halves,
        r matches NodeSplit::Halves { left, right } ==> {
            &&& left@ + right@ == objects_of(stable_sorted(keyed(items@, keys@)))
            &&& left@.len() == items@.len() / 2
            &&& (left@ + right@).to_multiset() == items@.to_multiset()
        },
{
    let n = items.len();
    if n == 1 {
        return NodeSplit::Single { object: items[0] };
    }
    if n == 2 {
        if keys[0] < keys[1] {
            return NodeSplit::Pair { first: items[0], second: items[1] };
        } else {
            return NodeSplit::Pair { first: items[1], second: items[0] };
        }
    }
    let mut items = items;
    let mut keys = keys;
    let ghost given = keyed(items@, keys@);
    sort_by_key(&mut items, &mut keys);
    let ghost sorted = items@;
    proof {
        assert(objects_of(keyed(items@, keys@)) =~= items@);
    }
    let mid = n / 2;
    let right = items.split_off(mid);
    proof {
        assert(items@ + right@ =~= sorted);
    }
    NodeSplit::Halves { left: items, right }
}

/// The shape of the hierarchy over `items` (at least one): `split_node` at
/// every node, with the keys that `axis_keys` gives for the node's objects (the
/// low end of each box on the longest axis of their union) and the children
/// built the same way. A node over one object asks for no keys; keys of the
/// wrong count are read as all equal.
fn build_range<F: Fn(&Vec<usize>) -> Vec<u64>>(items: Vec<usize>, axis_keys: &F) -> (r: BvhTree)
    requires
        items@.len() >= 1,
        forall|v: &Vec<usize>| #[trigger] axis_keys.requires((v,)),
    ensures
        r.leaves().to_multiset() == items@.to_multiset(),
        r.median_shaped(),
    decreases items@.len(),
{
    let n = items.len();
    if n == 1 {
        let r = BvhTree::Single { object: items[0] };
        assert(r.leaves() =~= items@);
        return r;
    }
    let mut keys = axis_keys(&items);
    if keys.len() != n {
        keys = Vec::new();
        let mut k: usize = 0;
        while k < n
            invariant
                k <= n,
                keys@.len() == k,
            decreases n - k,
        {
            keys.push(0);
            k = k + 1;
        }
    }
    let ghost given = items@;
    let ghost given_keys = keys@;
    match split_node(items, keys) {
        NodeSplit::Single { object } => {
            assert(false);
            BvhTree::Single { object }
        },
        NodeSplit::Pair { first, second } => {
            let r = BvhTree::Pair { first, second };
            proof {
                if given_keys[0] < given_keys[1] {
                    assert(r.leaves() =~= given);
                } else {
                    crate::swaps::lemma_swap_multiset(given, 0, 1);
                    assert(r.leaves() =~= given.update(0, given[1]).update(1, given[0]));
                }
            }
            r
        },
        NodeSplit::Halves { left, right } => {
            let ghost l = left@;
            let ghost rr = right@;
            proof {
                vstd::seq_lib::to_multiset_len(l + rr);
                vstd::seq_lib::to_multiset_len(given);
            }
            let left_tree = build_range(left, axis_keys);
            let right_tree = build_range(right, axis_keys);
            proof {
                vstd::seq_lib::lemma_multiset_commutative(l, rr);
                vstd::seq_lib::lemma_multiset_commutative(left_tree.leaves(), right_tree.leaves());
                vstd::seq_lib::to_multiset_len(left_tree.leaves());
                vstd::seq_lib::to_multiset_len(l);
                vstd::seq_lib::to_multiset_len(right_tree.leaves());
                vstd::seq_lib::to_multiset_len(rr);
            }
            BvhTree::Split { left: Box::new(left_tree), right: Box::new(right_tree) }
        },
    }
}

/// The shape of the hierarchy over the objects `0..count`: `split_node` at
/// every node, with the keys that `axis_keys` gives for the node's objects.
/// Whatever the keys, every object stands in exactly one leaf position and
/// every split is at the midpoint.
pub fn build_bvh<F: Fn(&Vec<usize>) -> Vec<u64>>(count: usize, axis_keys: &F) -> (r: BvhTree)
    requires
        count >= 1,
        forall|v: &Vec<usize>| #[trigger] axis_keys.requires((v,)),
    ensures
        r.leaves().to_multiset() == all_objects(count as nat).to_multiset(),
        covers_each_once(r.leaves(), count as nat),
        r.median_shaped(),
{
    let mut items: Vec<usize> = Vec::new();
    let mut i: usize = 0;
    while i < count
        invariant
            i <= count,
            items@ == all_objects(i as nat),
        decreases count - i,
    {
        items.push(i);
        i = i + 1;
        assert(items@ =~= all_objects(i as nat));
    }
    let ghost objects = items@;
    let r = build_range(items, axis_keys);
    proof {
        let l = r.leaves();
        assert(objects.no_duplicates());
        objects.lemma_multiset_has_no_duplicates();
        l.lemma_multiset_has_no_duplicates_conv();
        vstd::seq_lib::to_multiset_len(l);
        vstd::seq_lib::to_multiset_len(objects);
        assert forall|k: int| 0 <= k < l.len() implies #[trigger] l[k] < count by {
            assert(l.to_multiset().contains(l[k]));
            assert(objects.contains(l[k]));
        }
    }
    r
}

/// The median split keeps the hierarchy balanced: over at most `2^k` objects
/// (`k >= 1`) it has at most `k` levels.
pub proof fn lemma_levels_logarithmic(t: &BvhTree, k: nat)
    requires
        t.median_shaped(),
        k >= 1,
        t.leaves().len() <= vstd::arithmetic::power2::pow2(k),
    ensures
        t.levels() <= k,
    decreases t,
{
    match t {
        BvhTree::Split { left, right } => {
            let n = left.leaves().len() + right.leaves().len();
            assert(t.leaves().len() == n);
            vstd::arithmetic::power2::lemma2_to64();
            if k == 1 {
                assert(false);
            }
            vstd::arithmetic::power2::lemma_pow2_unfold(k);
            let half = vstd::arithmetic::power2::pow2((k - 1) as nat);
            assert(right.leaves().len() <= half);
            lemma_levels_logarithmic(left, (k - 1) as nat);
            lemma_levels_logarithmic(right, (k - 1) as nat);
        },
        _ => {},
    }
}

} // verus!
