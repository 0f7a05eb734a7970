use vstd::prelude::*;

verus! {

/// The weight of one branch in a weighted choice tree.
pub type Weight = u16;

/// A weighted tree of choices: action generators hand back such trees,
/// and the runner draws one leaf at random, weighting each branch.
#[derive(Debug, PartialEq, Eq)]
pub enum Tree<T> {
    Leaf { value: T },
    Branch { branches: Vec<(Weight, Tree<T>)> },
}

/// The number of leaves under `t`.
pub open spec fn spec_leaf_count<T>(t: Tree<T>) -> nat
    decreases t,
{
    match t {
        Tree::Leaf { .. } => 1,
        Tree::Branch { branches } => spec_branches_leaf_count(branches@),
    }
}

/// The number of leaves under a sequence of weighted branches.
pub open spec fn spec_branches_leaf_count<T>(s: Seq<(Weight, Tree<T>)>) -> nat
    decreases s,
{
    if s.len() == 0 {
        0
    } else {
        spec_leaf_count(s[0].1) + spec_branches_leaf_count(s.subrange(1, s.len() as int))
    }
}

/// Whether `x` is a leaf value of `t`.
pub open spec fn spec_tree_contains<T>(t: Tree<T>, x: T) -> bool
    decreases t,
{
    match t {
        Tree::Leaf { value } => value == x,
        Tree::Branch { branches } => exists|i: int|
            0 <= i < branches@.len() && spec_tree_contains(#[trigger] branches@[i].1, x),
    }
}

/// Whether `x` is a leaf value of `t` that can be reached from the
/// root through branches of positive weight only.
pub open spec fn spec_tree_contains_weighted<T>(t: Tree<T>, x: T) -> bool
    decreases t,
{
    match t {
        Tree::Leaf { value } => value == x,
        Tree::Branch { branches } => exists|i: int|
            0 <= i < branches@.len() && branches@[i].0 > 0 && spec_tree_contains_weighted(
                #[trigger] branches@[i].1,
                x,
            ),
    }
}

/// A leaf reachable through positive-weight branches is in particular
/// a leaf of the tree.
pub proof fn lemma_weighted_leaf_is_leaf<T>(t: Tree<T>, x: T)
    requires
        spec_tree_contains_weighted(t, x),
    ensures
        spec_tree_contains(t, x),
    decreases t,
{
    match t {
        Tree::Leaf { .. } => {},
        Tree::Branch { branches } => {
            let i = choose|i: int|
                0 <= i < branches@.len() && branches@[i].0 > 0 && spec_tree_contains_weighted(
                    #[trigger] branches@[i].1,
                    x,
                );
            lemma_weighted_leaf_is_leaf(branches@[i].1, x);
            assert(spec_tree_contains(branches@[i].1, x));
        },
    }
}

/// The total weight of a sequence of branches.
pub open spec fn spec_total_weight<T>(s: Seq<(Weight, Tree<T>)>) -> int
    decreases s,
{
    if s.len() == 0 {
        0
    } else {
        s[0].0 + spec_total_weight(s.subrange(1, s.len() as int))
    }
}

/// Whether a random draw is guaranteed to reach a leaf: every branch
/// that can be chosen — positive weight all the way down — leads to a
/// subtree that can itself be picked from.
pub open spec fn spec_pickable<T>(t: Tree<T>) -> bool
    decreases t,
{
    match t {
        Tree::Leaf { .. } => true,
        Tree::Branch { branches } => spec_total_weight(branches@) > 0 && forall|i: int|
            0 <= i < branches@.len() && branches@[i].0 > 0 ==> spec_pickable(
                #[trigger] branches@[i].1,
            ),
    }
}

/// `result` is `orig` with every leafless subtree removed: order and
/// weights of the remaining branches are kept, and each kept subtree
/// is pruned in turn.
pub open spec fn spec_pruned_from<T>(orig: Tree<T>, result: Tree<T>) -> bool
    decreases orig,
{
    match orig {
        Tree::Leaf { .. } => result == orig,
        Tree::Branch { branches } => match result {
            Tree::Branch { branches: kept } => spec_pruned_branches(branches@, kept@),
            _ => false,
        },
    }
}

/// `kept` is `bs` with leafless entries dropped and the rest pruned,
/// in order.
pub open spec fn spec_pruned_branches<T>(
    bs: Seq<(Weight, Tree<T>)>,
    kept: Seq<(Weight, Tree<T>)>,
) -> bool
    decreases bs,
{
    if bs.len() == 0 {
        kept.len() == 0
    } else if spec_leaf_count(bs[0].1) == 0 {
        spec_pruned_branches(bs.subrange(1, bs.len() as int), kept)
    } else {
        &&& kept.len() > 0
        &&& kept[0].0 == bs[0].0
        &&& spec_pruned_from(bs[0].1, kept[0].1)
        &&& spec_pruned_branches(bs.subrange(1, bs.len() as int), kept.subrange(1, kept.len() as int))
    }
}

/// Pruning keeps every leaf: a pruned tree has as many leaves as the
/// original.
pub proof fn lemma_prune_preserves_leaves<T>(orig: Tree<T>, result: Tree<T>)
    requires
        spec_pruned_from(orig, result),
    ensures
        spec_leaf_count(result) == spec_leaf_count(orig),
    decreases orig,
{
    match orig {
        Tree::Leaf { .. } => {},
        Tree::Branch { branches } => match result {
            Tree::Branch { branches: kept } => {
                lemma_prune_preserves_branch_leaves(branches@, kept@);
            },
            _ => {},
        },
    }
}

/// Pruning keeps every leaf, over branch sequences.
pub proof fn lemma_prune_preserves_branch_leaves<T>(
    bs: Seq<(Weight, Tree<T>)>,
    kept: Seq<(Weight, Tree<T>)>,
)
    requires
        spec_pruned_branches(bs, kept),
    ensures
        spec_branches_leaf_count(kept) == spec_branches_leaf_count(bs),
    decreases bs,
{
    if bs.len() == 0 {
    } else if spec_leaf_count(bs[0].1) == 0 {
        lemma_prune_preserves_branch_leaves(bs.subrange(1, bs.len() as int), kept);
    } else {
        lemma_prune_preserves_leaves(bs[0].1, kept[0].1);
        lemma_prune_preserves_branch_leaves(
            bs.subrange(1, bs.len() as int),
            kept.subrange(1, kept.len() as int),
        );
        assert(spec_branches_leaf_count(kept) == spec_leaf_count(kept[0].1)
            + spec_branches_leaf_count(kept.subrange(1, kept.len() as int)));
    }
}

/// The leaf values of `t`, in depth-first left-to-right order: the
/// order in which `try_map` visits them.
pub open spec fn spec_leaves<T>(t: Tree<T>) -> Seq<T>
    decreases t,
{
    match t {
        Tree::Leaf { value } => seq![value],
        Tree::Branch { branches } => spec_branches_leaves(branches@),
    }
}

/// The leaf values under a sequence of weighted branches, in order.
pub open spec fn spec_branches_leaves<T>(s: Seq<(Weight, Tree<T>)>) -> Seq<T>
    decreases s,
{
    if s.len() == 0 {
        Seq::empty()
    } else {
        spec_leaves(s[0].1) + spec_branches_leaves(s.subrange(1, s.len() as int))
    }
}

/// Appending one branch appends its leaves.
proof fn lemma_branches_leaves_push<T>(s: Seq<(Weight, Tree<T>)>, entry: (Weight, Tree<T>))
    ensures
        spec_branches_leaves(s.push(entry)) == spec_branches_leaves(s) + spec_leaves(entry.1),
    decreases s,
{
    let ext = s.push(entry);
    if s.len() == 0 {
        assert(ext[0] == entry);
        assert(ext.subrange(1, ext.len() as int) =~= Seq::<(Weight, Tree<T>)>::empty());
        assert(spec_branches_leaves(Seq::<(Weight, Tree<T>)>::empty()) =~= Seq::<T>::empty());
        assert(spec_branches_leaves(ext) =~= spec_branches_leaves(s) + spec_leaves(entry.1));
    } else {
        assert(ext[0] == s[0]);
        assert(ext.subrange(1, ext.len() as int) =~= s.subrange(1, s.len() as int).push(entry));
        lemma_branches_leaves_push(s.subrange(1, s.len() as int), entry);
        assert(spec_branches_leaves(ext) =~= spec_branches_leaves(s) + spec_leaves(entry.1));
    }
}

/// The relation `try_map` establishes between an original leaf and
/// its image: the mapping function, applied to the one, may return the
/// other.
pub open spec fn spec_map_rel<T, U, E, F: Fn(T) -> Result<U, E>>(f: F) -> spec_fn(T, U) -> bool {
    |a: T, b: U| call_ensures(f, (a,), Ok(b))
}

/// The mapping function has some image it can return for `a`.
pub open spec fn spec_can_map<T, U, E, F: Fn(T) -> Result<U, E>>(f: F, a: T) -> bool {
    exists|b: U| call_ensures(f, (a,), Result::<U, E>::Ok(b))
}

/// The error arose at the first failing leaf: in depth-first order,
/// every leaf before position `k` has an image the mapping function
/// can return, and the function can return `Err(e)` on the leaf at
/// `k`.
pub open spec fn spec_first_error_at<T, U, E, F: Fn(T) -> Result<U, E>>(
    f: F,
    leaves: Seq<T>,
    e: E,
    k: int,
) -> bool {
    &&& 0 <= k < leaves.len()
    &&& forall|i: int| 0 <= i < k ==> #[trigger] spec_can_map(f, leaves[i])
    &&& call_ensures(f, (leaves[k],), Result::<U, E>::Err(e))
}

/// The error is the first one the traversal meets: some position in
/// the depth-first leaf order is the first failing leaf, every leaf
/// before it has an image, and the function can fail there with `e`.
pub open spec fn spec_first_error<T, U, E, F: Fn(T) -> Result<U, E>>(
    f: F,
    leaves: Seq<T>,
    e: E,
) -> bool {
    exists|k: int| #[trigger] spec_first_error_at(f, leaves, e, k)
}

/// A mapped subtree's leaves all have images the mapping function can
/// return.
proof fn lemma_maps_to_can_map<T, U, E, F: Fn(T) -> Result<U, E>>(t: Tree<T>, u: Tree<U>, f: F)
    requires
        spec_tree_maps_to(t, u, spec_map_rel(f)),
    ensures
        forall|i: int| 0 <= i < spec_leaves(t).len() ==> #[trigger] spec_can_map(
            f,
            spec_leaves(t)[i],
        ),
    decreases t,
{
    match t {
        Tree::Leaf { value } => match u {
            Tree::Leaf { value: mapped } => {
                assert(call_ensures(f, (value,), Result::<U, E>::Ok(mapped)));
                assert(spec_can_map(f, value));
                assert forall|i: int| 0 <= i < spec_leaves(t).len() implies #[trigger]
                    spec_can_map(f, spec_leaves(t)[i]) by {
                    assert(spec_leaves(t)[i] == value);
                }
            },
            _ => {},
        },
        Tree::Branch { branches } => match u {
            Tree::Branch { branches: mapped } => {
                assert(forall|j: int| 0 <= j < branches@.len() ==> spec_tree_maps_to(
                    (#[trigger] branches@[j]).1,
                    mapped@[j].1,
                    spec_map_rel(f),
                ));
                lemma_maps_to_can_map_branches(branches@, mapped@, f);
                assert(spec_leaves(t) == spec_branches_leaves(branches@));
            },
            _ => {},
        },
    }
}

/// Every leaf under a sequence of pairwise mapped branches has an
/// image the mapping function can return.
proof fn lemma_maps_to_can_map_branches<T, U, E, F: Fn(T) -> Result<U, E>>(
    bs: Seq<(Weight, Tree<T>)>,
    cs: Seq<(Weight, Tree<U>)>,
    f: F,
)
    requires
        bs.len() == cs.len(),
        forall|j: int| 0 <= j < bs.len() ==> spec_tree_maps_to(
            (#[trigger] bs[j]).1,
            cs[j].1,
            spec_map_rel(f),
        ),
    ensures
        forall|i: int| 0 <= i < spec_branches_leaves(bs).len() ==> #[trigger] spec_can_map(
            f,
            spec_branches_leaves(bs)[i],
        ),
    decreases bs,
{
    if bs.len() > 0 {
        let head = spec_leaves(bs[0].1);
        let tail = spec_branches_leaves(bs.subrange(1, bs.len() as int));
        lemma_maps_to_can_map(bs[0].1, cs[0].1, f);
        assert(forall|j: int| 0 <= j < bs.len() - 1 ==> spec_tree_maps_to(
            (#[trigger] bs.subrange(1, bs.len() as int)[j]).1,
            cs.subrange(1, cs.len() as int)[j].1,
            spec_map_rel(f),
        ));
        lemma_maps_to_can_map_branches(
            bs.subrange(1, bs.len() as int),
            cs.subrange(1, cs.len() as int),
            f,
        );
        assert forall|i: int| 0 <= i < spec_branches_leaves(bs).len() implies #[trigger]
            spec_can_map(f, spec_branches_leaves(bs)[i]) by {
            if i < head.len() {
                assert(spec_branches_leaves(bs)[i] == head[i]);
            } else {
                assert(spec_branches_leaves(bs)[i] == tail[i - head.len()]);
            }
        }
    }
}

impl<T> Tree<T> {
    /// Map every leaf through a fallible function, keeping the shape
    /// and the weights; the first error wins.
    pub fn try_map<U, E, F: Fn(T) -> Result<U, E>>(self, f: &F) -> (r: Result<Tree<U>, E>)
        requires
            forall|a: T| #[trigger] call_requires(*f, (a,)),
        ensures
            r matches Ok(u) ==> spec_tree_maps_to(self, u, spec_map_rel(*f)),
            r matches Err(e) ==> spec_first_error(*f, spec_leaves(self), e),
        decreases self,
    {
        let ghost orig = self;
        match self {
            Tree::Leaf { value } => {
                let ghost arg = value;
                match f(value) {
                    Ok(mapped) => Ok(Tree::Leaf { value: mapped }),
                    Err(e) => {
                        proof {
                            assert(call_ensures(*f, (arg,), Result::<U, E>::Err(e)));
                            assert(spec_leaves(orig) == seq![arg]);
                            assert(spec_first_error_at(*f, spec_leaves(orig), e, 0));
                            assert(spec_first_error(*f, spec_leaves(orig), e));
                        }
                        Err(e)
                    },
                }
            },
            Tree::Branch { branches } => {
                let mut rest = branches;
                let mut out: Vec<(Weight, Tree<U>)> = Vec::new();
                let ghost all = rest@;
                proof {
                    assert(all.subrange(0, 0) =~= Seq::<(Weight, Tree<T>)>::empty());
                    assert(spec_branches_leaves(Seq::<(Weight, Tree<T>)>::empty())
                        =~= Seq::<T>::empty());
                }
                #[verifier::loop_isolation(false)]
                while rest.len() > 0
                    invariant
                        forall|a: T| #[trigger] call_requires(*f, (a,)),
                        all.len() == out@.len() + rest@.len(),
                        rest@ == all.subrange(out@.len() as int, all.len() as int),
                        orig is Branch,
                        orig->branches@ == all,
                        forall|j: int| 0 <= j < out@.len() ==> (#[trigger] out@[j]).0 == all[j].0
                            && spec_tree_maps_to(all[j].1, out@[j].1, spec_map_rel(*f)),
                        forall|i: int|
                            0 <= i < spec_branches_leaves(
                                all.subrange(0, out@.len() as int),
                            ).len() ==> #[trigger] spec_can_map(
                                *f,
                                spec_branches_leaves(all.subrange(0, out@.len() as int))[i],
                            ),
                    decreases rest@.len(),
                {
                    let ghost k = out@.len() as int;
                    let ghost done = all.subrange(0, k);
                    let (w, sub) = rest.remove(0);
                    proof {
                        assert(all.subrange(k, all.len() as int)[0] == all[k]);
                        assert(sub == orig->branches@[k].1);
                        assert(rest@ =~= all.subrange(k + 1, all.len() as int));
                        assert(decreases_to!(orig => orig->branches));
                        assert(decreases_to!(orig->branches => orig->branches@[k].1));
                        assert(decreases_to!(orig => sub));
                    }
                    match sub.try_map(f) {
                        Ok(mapped) => {
                            proof {
                                lemma_maps_to_can_map(all[k].1, mapped, *f);
                                lemma_branches_leaves_push(done, all[k]);
                                assert(done.push(all[k]) =~= all.subrange(0, k + 1));
                                let extended = spec_branches_leaves(all.subrange(0, k + 1));
                                let prefix = spec_branches_leaves(done);
                                let mid = spec_leaves(all[k].1);
                                assert forall|i: int| 0 <= i < extended.len() implies #[trigger]
                                    spec_can_map(*f, extended[i]) by {
                                    if i < prefix.len() {
                                        assert(extended[i] == prefix[i]);
                                    } else {
                                        assert(extended[i] == mid[i - prefix.len()]);
                                    }
                                }
                            }
                            out.push((w, mapped));
                        },
                        Err(e) => {
                            proof {
                                let whole = spec_leaves(orig);
                                let prefix = spec_branches_leaves(done);
                                let mid = spec_leaves(all[k].1);
                                let suffix = all.subrange(k, all.len() as int);
                                assert(all =~= done + suffix);
                                lemma_branches_leaves_concat(done, suffix);
                                assert(suffix.subrange(1, suffix.len() as int) =~= all.subrange(
                                    k + 1,
                                    all.len() as int,
                                ));
                                assert(spec_branches_leaves(suffix) == mid
                                    + spec_branches_leaves(
                                    all.subrange(k + 1, all.len() as int),
                                ));
                                assert(whole == spec_branches_leaves(all));
                                let ks = choose|ks: int|
                                    #[trigger] spec_first_error_at(*f, mid, e, ks);
                                let kw = prefix.len() + ks;
                                assert forall|i: int| 0 <= i < kw implies #[trigger] spec_can_map(
                                    *f,
                                    whole[i],
                                ) by {
                                    if i < prefix.len() {
                                        assert(whole[i] == prefix[i]);
                                    } else {
                                        assert(whole[i] == mid[i - prefix.len()]);
                                    }
                                }
                                assert(whole[kw as int] == mid[ks]);
                                assert(spec_first_error_at(*f, spec_leaves(orig), e, kw as int));
                                assert(spec_first_error(*f, spec_leaves(orig), e));
                            }
                            return Err(e);
                        },
                    }
                }
                Ok(Tree::Branch { branches: out })
            },
        }
    }
}

/// Leaves distribute over branch concatenation.
proof fn lemma_branches_leaves_concat<T>(s1: Seq<(Weight, Tree<T>)>, s2: Seq<(Weight, Tree<T>)>)
    ensures
        spec_branches_leaves(s1 + s2) == spec_branches_leaves(s1) + spec_branches_leaves(s2),
    decreases s1,
{
    let joined = s1 + s2;
    if s1.len() == 0 {
        assert(joined =~= s2);
        assert(spec_branches_leaves(s1) =~= Seq::<T>::empty());
        assert(spec_branches_leaves(s1) + spec_branches_leaves(s2) =~= spec_branches_leaves(s2));
    } else {
        assert(joined[0] == s1[0]);
        assert(joined.subrange(1, joined.len() as int) =~= s1.subrange(1, s1.len() as int) + s2);
        lemma_branches_leaves_concat(s1.subrange(1, s1.len() as int), s2);
        assert(spec_branches_leaves(joined) =~= spec_branches_leaves(s1)
            + spec_branches_leaves(s2));
    }
}

/// The relation `filter` establishes between a leaf and the
/// predicate's answer for it.
pub open spec fn spec_keep_rel<T, F: Fn(&T) -> bool>(f: F) -> spec_fn(T, bool) -> bool {
    |a: T, kept: bool| call_ensures(f, (&a,), kept)
}

/// `u` is `t` with every leaf the predicate rejected replaced by an
/// empty branch; shape and weights are otherwise kept.
pub open spec fn spec_tree_filtered<T>(
    t: Tree<T>,
    u: Tree<T>,
    keep: spec_fn(T, bool) -> bool,
) -> bool
    decreases t,
{
    match t {
        Tree::Leaf { value } => match u {
            Tree::Leaf { value: v2 } => v2 == value && keep(value, true),
            Tree::Branch { branches } => branches@.len() == 0 && keep(value, false),
        },
        Tree::Branch { branches } => match u {
            Tree::Branch { branches: out } => {
                &&& out@.len() == branches@.len()
                &&& forall|i: int| 0 <= i < branches@.len() ==> (#[trigger] out@[i]).0
                    == branches@[i].0 && spec_tree_filtered(branches@[i].1, out@[i].1, keep)
            },
            _ => false,
        },
    }
}

impl<T> Tree<T> {
    /// Keep only the leaves the predicate accepts, replacing each
    /// rejected leaf by an empty branch; `prune` removes those.
    pub fn filter<F: Fn(&T) -> bool>(self, predicate: &F) -> (r: Self)
        requires
            forall|a: &T| #[trigger] call_requires(*predicate, (a,)),
        ensures
            spec_tree_filtered(self, r, spec_keep_rel(*predicate)),
        decreases self,
    {
        let ghost orig = self;
        match self {
            Tree::Leaf { value } => {
                if predicate(&value) {
                    Tree::Leaf { value }
                } else {
                    Tree::Branch { branches: Vec::new() }
                }
            },
            Tree::Branch { branches } => {
                let mut rest = branches;
                let mut out: Vec<(Weight, Tree<T>)> = Vec::new();
                let ghost all = rest@;
                #[verifier::loop_isolation(false)]
                while rest.len() > 0
                    invariant
                        all.len() == out@.len() + rest@.len(),
                        rest@ == all.subrange(out@.len() as int, all.len() as int),
                        orig is Branch,
                        orig->branches@ == all,
                        forall|j: int| 0 <= j < out@.len() ==> (#[trigger] out@[j]).0 == all[j].0
                            && spec_tree_filtered(
                            all[j].1,
                            out@[j].1,
                            spec_keep_rel(*predicate),
                        ),
                    decreases rest@.len(),
                {
                    let ghost k = out@.len() as int;
                    let (w, sub) = rest.remove(0);
                    proof {
                        assert(all.subrange(k, all.len() as int)[0] == all[k]);
                        assert(sub == orig->branches@[k].1);
                        assert(rest@ =~= all.subrange(k + 1, all.len() as int));
                        assert(decreases_to!(orig => orig->branches));
                        assert(decreases_to!(orig->branches => orig->branches@[k].1));
                        assert(decreases_to!(orig => sub));
                    }
                    let filtered = sub.filter(predicate);
                    out.push((w, filtered));
                }
                Tree::Branch { branches: out }
            },
        }
    }
}

/// Appending a leafless subtree changes nothing about a pruning.
proof fn lemma_pruned_push_drop<T>(
    bs: Seq<(Weight, Tree<T>)>,
    cs: Seq<(Weight, Tree<T>)>,
    w: Weight,
    t: Tree<T>,
)
    requires
        spec_pruned_branches(bs, cs),
        spec_leaf_count(t) == 0,
    ensures
        spec_pruned_branches(bs.push((w, t)), cs),
    decreases bs,
{
    let ext = bs.push((w, t));
    if bs.len() == 0 {
        assert(bs =~= Seq::<(Weight, Tree<T>)>::empty());
        assert(cs.len() == 0);
        assert(ext[0] == (w, t));
        assert(ext.subrange(1, ext.len() as int) =~= Seq::<(Weight, Tree<T>)>::empty());
        assert(spec_pruned_branches(Seq::<(Weight, Tree<T>)>::empty(), cs));
    } else {
        assert(ext[0] == bs[0]);
        assert(ext.subrange(1, ext.len() as int) =~= bs.subrange(1, bs.len() as int).push((w, t)));
        if spec_leaf_count(bs[0].1) == 0 {
            lemma_pruned_push_drop(bs.subrange(1, bs.len() as int), cs, w, t);
        } else {
            lemma_pruned_push_drop(
                bs.subrange(1, bs.len() as int),
                cs.subrange(1, cs.len() as int),
                w,
                t,
            );
        }
    }
}

/// Appending a subtree with leaves, pruned on both sides, extends a
/// pruning.
proof fn lemma_pruned_push_keep<T>(
    bs: Seq<(Weight, Tree<T>)>,
    cs: Seq<(Weight, Tree<T>)>,
    w: Weight,
    t: Tree<T>,
    t2: Tree<T>,
)
    requires
        spec_pruned_branches(bs, cs),
        spec_leaf_count(t) > 0,
        spec_pruned_from(t, t2),
    ensures
        spec_pruned_branches(bs.push((w, t)), cs.push((w, t2))),
    decreases bs,
{
    let ext = bs.push((w, t));
    let ext2 = cs.push((w, t2));
    if bs.len() == 0 {
        assert(bs =~= Seq::<(Weight, Tree<T>)>::empty());
        assert(cs.len() == 0);
        assert(cs =~= Seq::<(Weight, Tree<T>)>::empty());
        assert(ext[0] == (w, t));
        assert(ext2[0] == (w, t2));
        assert(ext.subrange(1, ext.len() as int) =~= Seq::<(Weight, Tree<T>)>::empty());
        assert(ext2.subrange(1, ext2.len() as int) =~= Seq::<(Weight, Tree<T>)>::empty());
        assert(spec_pruned_branches(
            Seq::<(Weight, Tree<T>)>::empty(),
            Seq::<(Weight, Tree<T>)>::empty(),
        ));
    } else {
        assert(ext[0] == bs[0]);
        assert(ext.subrange(1, ext.len() as int) =~= bs.subrange(1, bs.len() as int).push((w, t)));
        if spec_leaf_count(bs[0].1) == 0 {
            lemma_pruned_push_keep(bs.subrange(1, bs.len() as int), cs, w, t, t2);
        } else {
            assert(ext2[0] == cs[0]);
            assert(ext2.subrange(1, ext2.len() as int) =~= cs.subrange(
                1,
                cs.len() as int,
            ).push((w, t2)));
            lemma_pruned_push_keep(
                bs.subrange(1, bs.len() as int),
                cs.subrange(1, cs.len() as int),
                w,
                t,
                t2,
            );
        }
    }
}

/// The leaves of one branch never outnumber the leaves of the whole
/// sequence.
proof fn lemma_branch_leaf_lower_bound<T>(bs: Seq<(Weight, Tree<T>)>, i: int)
    requires
        0 <= i < bs.len(),
    ensures
        spec_leaf_count(bs[i].1) <= spec_branches_leaf_count(bs),
    decreases bs,
{
    if i == 0 {
    } else {
        assert(bs.subrange(1, bs.len() as int)[i - 1] == bs[i]);
        lemma_branch_leaf_lower_bound(bs.subrange(1, bs.len() as int), i - 1);
    }
}

/// The top-level size of a tree: one for a leaf, the number of
/// children for a branch.
pub open spec fn spec_top_size<T>(t: Tree<T>) -> int {
    match t {
        Tree::Leaf { .. } => 1,
        Tree::Branch { branches } => branches@.len() as int,
    }
}

impl<T> Tree<T> {
    /// Remove every leafless subtree, in place; a return of zero means
    /// the whole tree has no leaf.
    pub fn prune_to_size(&mut self) -> (n: usize)
        ensures
            spec_pruned_from(*old(self), *final(self)),
            n as int == spec_top_size(*final(self)),
            (n == 0) <==> spec_leaf_count(*old(self)) == 0,
        decreases *old(self),
    {
        let ghost orig = *self;
        match self {
            Tree::Leaf { .. } => 1,
            Tree::Branch { branches } => {
                let mut rest: Vec<(Weight, Tree<T>)> = Vec::new();
                core::mem::swap(branches, &mut rest);
                let ghost all = rest@;
                let mut kept: Vec<(Weight, Tree<T>)> = Vec::new();
                let ghost mut k: int = 0;
                #[verifier::loop_isolation(false)]
                while rest.len() > 0
                    invariant
                        0 <= k <= all.len(),
                        rest@ == all.subrange(k, all.len() as int),
                        orig is Branch,
                        orig->branches@ == all,
                        spec_pruned_branches(all.subrange(0, k), kept@),
                        forall|j: int| 0 <= j < kept@.len() ==> spec_leaf_count(
                            (#[trigger] kept@[j]).1,
                        ) > 0,
                        (kept@.len() == 0) <==> spec_branches_leaf_count(all.subrange(0, k)) == 0,
                    decreases rest@.len(),
                {
                    let ghost done = all.subrange(0, k);
                    let (w, mut sub) = rest.remove(0);
                    proof {
                        assert(all.subrange(k, all.len() as int)[0] == all[k]);
                        assert(sub == orig->branches@[k].1);
                        assert(rest@ =~= all.subrange(k + 1, all.len() as int));
                        assert(decreases_to!(orig => orig->branches));
                        assert(decreases_to!(orig->branches => orig->branches@[k].1));
                        assert(decreases_to!(orig => sub));
                        assert(done.push(all[k]) =~= all.subrange(0, k + 1));
                    }
                    let ghost sub_before = sub;
                    let m = sub.prune_to_size();
                    if m > 0 {
                        proof {
                            lemma_pruned_push_keep(done, kept@, w, sub_before, sub);
                            lemma_prune_preserves_branch_leaves(done, kept@);
                            lemma_branch_leaf_lower_bound(all.subrange(0, k + 1), k);
                        }
                        kept.push((w, sub));
                        proof {
                            lemma_prune_preserves_leaves(sub_before, sub);
                        }
                    } else {
                        proof {
                            lemma_pruned_push_drop(done, kept@, w, sub_before);
                            lemma_sum_zero_extend(done, all[k]);
                        }
                    }
                    proof {
                        k = k + 1;
                    }
                }
                proof {
                    assert(all.subrange(0, all.len() as int) =~= all);
                    lemma_prune_preserves_branch_leaves(all, kept@);
                    if kept@.len() > 0 {
                        lemma_branch_leaf_lower_bound(kept@, 0);
                    }
                }
                let n = kept.len();
                core::mem::swap(branches, &mut kept);
                n
            },
        }
    }

    /// Remove every leafless subtree; `None` when the tree has no leaf
    /// at all.
    pub fn prune(self) -> (r: Option<Self>)
        ensures
            match r {
                Some(u) => spec_pruned_from(self, u) && spec_leaf_count(self) > 0,
                None => spec_leaf_count(self) == 0,
            },
    {
        let mut this = self;
        let n = this.prune_to_size();
        if n == 0 {
            None
        } else {
            Some(this)
        }
    }
}

/// Extending a leafless prefix with a leafless entry keeps the total
/// at zero, and conversely.
proof fn lemma_sum_zero_extend<T>(bs: Seq<(Weight, Tree<T>)>, entry: (Weight, Tree<T>))
    ensures
        (spec_branches_leaf_count(bs.push(entry)) == 0) <==> (spec_branches_leaf_count(bs) == 0
            && spec_leaf_count(entry.1) == 0),
    decreases bs,
{
    let ext = bs.push(entry);
    assert(spec_branches_leaf_count(Seq::<(Weight, Tree<T>)>::empty()) == 0);
    if bs.len() == 0 {
        assert(bs =~= Seq::<(Weight, Tree<T>)>::empty());
        assert(ext[0] == entry);
        assert(ext.subrange(1, ext.len() as int) =~= Seq::<(Weight, Tree<T>)>::empty());
        assert(spec_branches_leaf_count(ext) == spec_leaf_count(entry.1)
            + spec_branches_leaf_count(Seq::<(Weight, Tree<T>)>::empty()));
    } else {
        assert(ext[0] == bs[0]);
        assert(ext.subrange(1, ext.len() as int) =~= bs.subrange(1, bs.len() as int).push(entry));
        lemma_sum_zero_extend(bs.subrange(1, bs.len() as int), entry);
    }
}

/// Adding one entry adds its weight to the total.
proof fn lemma_total_weight_push<T>(bs: Seq<(Weight, Tree<T>)>, entry: (Weight, Tree<T>))
    ensures
        spec_total_weight(bs.push(entry)) == spec_total_weight(bs) + entry.0,
    decreases bs,
{
    let ext = bs.push(entry);
    if bs.len() == 0 {
        assert(ext[0] == entry);
        assert(ext.subrange(1, ext.len() as int) =~= Seq::<(Weight, Tree<T>)>::empty());
        assert(spec_total_weight(Seq::<(Weight, Tree<T>)>::empty()) == 0);
    } else {
        assert(ext[0] == bs[0]);
        assert(ext.subrange(1, ext.len() as int) =~= bs.subrange(1, bs.len() as int).push(entry));
        lemma_total_weight_push(bs.subrange(1, bs.len() as int), entry);
    }
}

/// Why a random draw from a tree failed.
#[derive(Debug, Clone, PartialEq, Eq)]
pub enum PickError {
    /// A branch node was reached whose children's weights sum to zero.
    ZeroTotalWeight,
}

/// Relies on rand::random_range: a value drawn uniformly below the
/// given bound; it panics only when the range is empty.
#[verifier::external_body]
fn random_below(bound: u128) -> (r: u128)
    requires
        bound >= 1,
    ensures
        r < bound,
{
    rand::random_range(0..bound)
}

impl<T> Tree<T> {
    /// Draw one leaf at random, weighting each branch by its weight; a
    /// branch of weight zero is never taken, so the drawn leaf is
    /// reachable through positive-weight branches only.  The draw
    /// fails exactly when it runs into a node whose children's weights
    /// sum to zero, which cannot happen on a pickable tree.
    pub fn pick(&self) -> (r: Result<&T, PickError>)
        ensures
            match r {
                Ok(v) => spec_tree_contains_weighted(*self, *v),
                Err(_) => !spec_pickable(*self),
            },
        decreases *self,
    {
        match self {
            Tree::Leaf { value } => Ok(value),
            Tree::Branch { branches } => {
                let ghost bs = branches@;
                let mut total: u128 = 0;
                let mut i: usize = 0;
                #[verifier::loop_isolation(false)]
                while i < branches.len()
                    invariant
                        0 <= i <= bs.len(),
                        total as int == spec_total_weight(bs.subrange(0, i as int)),
                        total as int <= 65535 * (i as int),
                    decreases bs.len() - i,
                {
                    let w = branches[i].0;
                    proof {
                        assert(bs.subrange(0, i as int).push(bs[i as int]) =~= bs.subrange(
                            0,
                            i as int + 1,
                        ));
                        lemma_total_weight_push(bs.subrange(0, i as int), bs[i as int]);
                    }
                    total = total + (w as u128);
                    i = i + 1;
                }
                proof {
                    assert(bs.subrange(0, bs.len() as int) =~= bs);
                }
                if total == 0 {
                    return Err(PickError::ZeroTotalWeight);
                }
                let mut choice = random_below(total);
                let mut j: usize = 0;
                #[verifier::loop_isolation(false)]
                while j < branches.len()
                    invariant
                        0 <= j <= bs.len(),
                        (choice as int) < spec_total_weight(bs.subrange(j as int, bs.len() as int)),
                    decreases bs.len() - j,
                {
                    let w = branches[j].0 as u128;
                    proof {
                        assert(bs.subrange(j as int, bs.len() as int)[0] == bs[j as int]);
                        assert(bs.subrange(j as int, bs.len() as int).subrange(
                            1,
                            bs.len() - j as int,
                        ) =~= bs.subrange(j as int + 1, bs.len() as int));
                    }
                    if choice < w {
                        proof {
                            assert(decreases_to!(*self => self->branches));
                            assert(decreases_to!(self->branches => self->branches@[j as int].1));
                        }
                        let picked = branches[j].1.pick();
                        proof {
                            assert(bs[j as int].0 > 0);
                            match picked {
                                Ok(v) => {
                                    assert(spec_tree_contains_weighted(bs[j as int].1, *v));
                                },
                                Err(_) => {},
                            }
                        }
                        return picked;
                    }
                    choice = choice - w;
                    j = j + 1;
                }
                proof {
                    assert(bs.subrange(bs.len() as int, bs.len() as int) =~= Seq::<(
                        Weight,
                        Tree<T>,
                    )>::empty());
                    assert(spec_total_weight(Seq::<(Weight, Tree<T>)>::empty()) == 0);
                }
                Err(PickError::ZeroTotalWeight)
            },
        }
    }
}

/// `u` has the shape and weights of `t`, with each leaf of `t` related
/// to the corresponding leaf of `u`.
pub open spec fn spec_tree_maps_to<T, U>(
    t: Tree<T>,
    u: Tree<U>,
    rel: spec_fn(T, U) -> bool,
) -> bool
    decreases t,
{
    match t {
        Tree::Leaf { value } => match u {
            Tree::Leaf { value: mapped } => rel(value, mapped),
            _ => false,
        },
        Tree::Branch { branches } => match u {
            Tree::Branch { branches: mapped } => {
                &&& branches@.len() == mapped@.len()
                &&& forall|i: int| 0 <= i < branches@.len() ==> (#[trigger] mapped@[i]).0
                    == branches@[i].0 && spec_tree_maps_to(branches@[i].1, mapped@[i].1, rel)
            },
            _ => false,
        },
    }
}

} // verus!
