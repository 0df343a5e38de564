//! Grouping of co-located generators.
//!
//! After a solve, the total reactive output of generators that share a bus
//! and a machine identifier is redistributed among them in proportion to
//! their reactive ranges. This module finds those groups: two in-service
//! generators belong together when they are connected to the same bus and
//! carry the same identifier.

use vstd::prelude::*;

verus! {

/// What decides whether a generator shares its reactive output with others.
#[derive(Debug, Clone)]
pub struct GeneratorKey {
    /// Bus number the generator is connected to.
    pub bus: i32,
    /// Machine identifier.
    pub id: String,
    /// Whether the generator is in service.
    pub online: bool,
}

/// Generators `a` and `b` are both in service, at one bus, with one identifier.
pub open spec fn co_located(gs: Seq<GeneratorKey>, a: int, b: int) -> bool {
    &&& gs[a].online
    &&& gs[b].online
    &&& gs[a].bus == gs[b].bus
    &&& gs[a].id@ == gs[b].id@
}

/// `groups` is the list of co-located generator groups of `gs`: every
/// group holds at least two positions in increasing order, all co-located
/// with its first, and every generator co-located with its first; groups
/// are listed by their first position and no two are co-located; every
/// generator that is co-located with another one stands in a group.
pub open spec fn is_grouping(gs: Seq<GeneratorKey>, groups: Seq<Seq<usize>>) -> bool {
    &&& forall|a: int| 0 <= a < groups.len() ==> #[trigger] groups[a].len() >= 2
    &&& forall|a: int, x: int, y: int|
        0 <= a < groups.len() && 0 <= x < y < groups[a].len() ==> #[trigger] groups[a][x]
            < #[trigger] groups[a][y]
    &&& forall|a: int, x: int|
        0 <= a < groups.len() && 0 <= x < groups[a].len() ==> #[trigger] groups[a][x] < gs.len()
            && co_located(gs, groups[a][0] as int, groups[a][x] as int)
    &&& forall|a: int, k: int|
        0 <= a < groups.len() && 0 <= k < gs.len() && #[trigger] co_located(
            gs,
            groups[a][0] as int,
            k,
        ) ==> #[trigger] groups[a].contains(k as usize)
    &&& forall|a: int, b: int|
        0 <= a < b < groups.len() ==> #[trigger] groups[a][0] < #[trigger] groups[b][0]
            && !co_located(gs, groups[a][0] as int, groups[b][0] as int)
    &&& forall|j: int, k: int|
        0 <= j < gs.len() && 0 <= k < gs.len() && j != k && #[trigger] co_located(gs, j, k)
            ==> exists|a: int| 0 <= a < groups.len() && #[trigger] groups[a].contains(j as usize)
}

/// Whether generators `a` and `b` are co-located.
pub fn same_group(gs: &Vec<GeneratorKey>, a: usize, b: usize) -> (r: bool)
    requires
        a < gs@.len(),
        b < gs@.len(),
    ensures
        r == co_located(gs@, a as int, b as int),
{
    gs[a].online && gs[b].online && gs[a].bus == gs[b].bus && gs[a].id == gs[b].id
}

/// `is_grouping` restricted to the generators before `j`, with the first
/// position of each group being the first of its kind.
spec fn grouped_upto(gs: Seq<GeneratorKey>, gv: Seq<Seq<usize>>, j: int) -> bool {
    &&& forall|a: int| 0 <= a < gv.len() ==> #[trigger] gv[a].len() >= 2
    &&& forall|a: int, x: int, y: int|
        0 <= a < gv.len() && 0 <= x < y < gv[a].len() ==> #[trigger] gv[a][x] < #[trigger] gv[a][y]
    &&& forall|a: int, x: int|
        0 <= a < gv.len() && 0 <= x < gv[a].len() ==> #[trigger] gv[a][x] < gs.len() && co_located(
            gs,
            gv[a][0] as int,
            gv[a][x] as int,
        )
    &&& forall|a: int, k: int|
        0 <= a < gv.len() && 0 <= k < gs.len() && #[trigger] co_located(gs, gv[a][0] as int, k)
            ==> #[trigger] gv[a].contains(k as usize)
    &&& forall|a: int, b: int|
        0 <= a < b < gv.len() ==> #[trigger] gv[a][0] < #[trigger] gv[b][0] && !co_located(
            gs,
            gv[a][0] as int,
            gv[b][0] as int,
        )
    &&& forall|a: int| 0 <= a < gv.len() ==> #[trigger] gv[a][0] < j
    &&& forall|i: int, k: int|
        0 <= i < j && 0 <= k < gs.len() && i != k && #[trigger] co_located(gs, i, k) ==> exists|
            a: int,
        |
            0 <= a < gv.len() && #[trigger] gv[a].contains(i as usize)
}

/// The groups of co-located generators, each a list of positions in the
/// generator list.
pub fn colocated_groups(gs: &Vec<GeneratorKey>) -> (groups: Vec<Vec<usize>>)
    ensures
        is_grouping(gs@, groups@.map_values(|g: Vec<usize>| g@)),
{
    let n = gs.len();
    let mut groups: Vec<Vec<usize>> = Vec::new();
    let mut j: usize = 0;
    while j < n
        invariant
            j <= n == gs@.len(),
            grouped_upto(gs@, groups@.map_values(|g: Vec<usize>| g@), j as int),
        decreases n - j,
    {
        let ghost gv0 = groups@.map_values(|g: Vec<usize>| g@);
        // `first`: `j` is in service and no generator before it is co-located with it
        let mut first = gs[j].online;
        let mut k: usize = 0;
        while k < j && first
            invariant
                k <= j < n == gs@.len(),
                first ==> gs@[j as int].online,
                first ==> forall|i: int| 0 <= i < k ==> !co_located(gs@, i, j as int),
                !first ==> !gs@[j as int].online || exists|i: int|
                    0 <= i < j && co_located(gs@, i, j as int),
            decreases j - k,
        {
            if same_group(gs, k, j) {
                first = false;
            }
            k = k + 1;
        }
        if first {
            let mut members: Vec<usize> = Vec::new();
            let mut k: usize = j;
            while k < n
                invariant
                    j <= k <= n == gs@.len(),
                    gs@[j as int].online,
                    forall|x: int, y: int|
                        0 <= x < y < members@.len() ==> #[trigger] members@[x] < #[trigger] members@[y],
                    forall|x: int|
                        0 <= x < members@.len() ==> j <= #[trigger] members@[x] < k && co_located(
                            gs@,
                            j as int,
                            members@[x] as int,
                        ),
                    forall|i: int|
                        j <= i < k && #[trigger] co_located(gs@, j as int, i) ==> members@.contains(
                            i as usize,
                        ),
                    k > j ==> members@.len() >= 1 && members@[0] == j,
                decreases n - k,
            {
                if same_group(gs, j, k) {
                    let ghost old_members = members@;
                    members.push(k);
                    proof {
                        assert forall|i: int|
                            j <= i < k + 1 && #[trigger] co_located(
                                gs@,
                                j as int,
                                i,
                            ) implies members@.contains(i as usize) by {
                            if i == k {
                                assert(members@[members@.len() - 1] == k);
                            } else {
                                assert(old_members.contains(i as usize));
                                let x = choose|x: int|
                                    0 <= x < old_members.len() && old_members[x] == i as usize;
                                assert(members@[x] == i as usize);
                            }
                        }
                    }
                }
                k = k + 1;
            }
            if members.len() >= 2 {
                let ghost m = members@;
                groups.push(members);
                proof {
                    let gv = groups@.map_values(|g: Vec<usize>| g@);
                    assert(gv.len() == gv0.len() + 1);
                    assert forall|a: int| 0 <= a < gv0.len() implies #[trigger] gv[a] == gv0[a] by {}
                    assert(gv[gv.len() - 1] == m);
                    assert forall|a: int, kk: int|
                        0 <= a < gv.len() && 0 <= kk < gs@.len() && #[trigger] co_located(
                            gs@,
                            gv[a][0] as int,
                            kk,
                        ) implies #[trigger] gv[a].contains(kk as usize) by {
                        if a == gv.len() - 1 {
                            if kk < j {
                                assert(co_located(gs@, kk, j as int));
                            }
                        } else {
                            assert(gv[a] == gv0[a]);
                        }
                    }
                    assert forall|a: int, b: int| 0 <= a < b < gv.len() implies #[trigger] gv[a][0]
                        < #[trigger] gv[b][0] && !co_located(gs@, gv[a][0] as int, gv[b][0] as int) by {
                        if b == gv.len() - 1 {
                            assert(gv[a] == gv0[a]);
                            assert(gv0[a][0] < j);
                        } else {
                            assert(gv[a] == gv0[a]);
                            assert(gv[b] == gv0[b]);
                        }
                    }
                    assert forall|i: int, kk: int|
                        0 <= i < j + 1 && 0 <= kk < gs@.len() && i != kk && #[trigger] co_located(
                            gs@,
                            i,
                            kk,
                        ) implies exists|a: int|
                        0 <= a < gv.len() && #[trigger] gv[a].contains(i as usize) by {
                        if i == j {
                            assert(gv[gv.len() - 1][0] == i as usize);
                            assert(gv[gv.len() - 1].contains(i as usize));
                        } else {
                            let a = choose|a: int| 0 <= a < gv0.len() && #[trigger] gv0[a].contains(i as usize);
                            assert(gv[a] == gv0[a]);
                        }
                    }
                    assert(grouped_upto(gs@, gv, j + 1));
                }
            } else {
                proof {
                    let gv = groups@.map_values(|g: Vec<usize>| g@);
                    assert(gv == gv0);
                    assert forall|i: int, kk: int|
                        0 <= i < j + 1 && 0 <= kk < gs@.len() && i != kk && #[trigger] co_located(
                            gs@,
                            i,
                            kk,
                        ) implies exists|a: int|
                        0 <= a < gv.len() && #[trigger] gv[a].contains(i as usize) by {
                        if i == j {
                            if kk > j {
                                assert(members@.contains(kk as usize));
                            } else {
                                assert(co_located(gs@, kk, j as int));
                            }
                        }
                    }
                }
            }
        } else {
            proof {
                let gv = groups@.map_values(|g: Vec<usize>| g@);
                assert(gv == gv0);
                assert forall|i: int, kk: int|
                    0 <= i < j + 1 && 0 <= kk < gs@.len() && i != kk && #[trigger] co_located(
                        gs@,
                        i,
                        kk,
                    ) implies exists|a: int|
                    0 <= a < gv.len() && #[trigger] gv[a].contains(i as usize) by {
                    if i == j {
                        let i0 = choose|i0: int| 0 <= i0 < j && co_located(gs@, i0, j as int);
                        assert(co_located(gs@, i0, j as int));
                        let a = choose|a: int| 0 <= a < gv.len() && #[trigger] gv[a].contains(i0 as usize);
                        let x = choose|x: int| 0 <= x < gv[a].len() && gv[a][x] == i0 as usize;
                        assert(co_located(gs@, gv[a][0] as int, gv[a][x] as int));
                        assert(co_located(gs@, gv[a][0] as int, j as int));
                        assert(gv[a].contains(j as usize));
                        assert(gv[a].contains(i as usize));
                    }
                }
            }
        }
        j = j + 1;
    }
    groups
}

} // verus!
