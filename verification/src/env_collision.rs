//! Incremental environment-collision tracking.
//!
//! Obstacles live in an arena and are addressed by small integer handles;
//! the link segments of each chain are addressed by their index. The
//! tracker maintains, per chain, the active-pair map: which links of the
//! chain currently stand within the proximity margin of which obstacle. An
//! entry appears when a within-margin (or intersecting) transition is
//! reported and disappears when the disjoint transition is reported; an
//! obstacle with no remaining link is not in the map's domain. The
//! per-tick geometry — segment shapes, poses, distances, penalties — is
//! double-precision work of the numeric layer; it reports transitions and
//! penalty keys here, and this module decides the bookkeeping, including
//! the deterministic top-K selection of the worst obstacles per chain.

use vstd::prelude::*;

verus! {

/// Identity of a collision object: whether it is a link segment, and the
/// index of the chain it belongs to (-1 for obstacles).
#[derive(Clone, Debug, PartialEq, Eq, Structural)]
pub struct LinkData {
    pub is_link: bool,
    pub arm_idx: i32,
}

impl LinkData {
    pub fn new(is_link: bool, arm_idx: i32) -> (r: LinkData)
        ensures
            r == (LinkData { is_link, arm_idx }),
    {
        Self { is_link, arm_idx }
    }
}

/// Name and identity attached to a collision object.
#[derive(Clone, Debug, PartialEq, Eq)]
pub struct CollisionObjectData {
    pub name: String,
    pub link_data: LinkData,
}

impl CollisionObjectData {
    pub fn new(name: String, link_data: LinkData) -> (r: CollisionObjectData)
        ensures
            r.name@ == name@,
            r.link_data == link_data,
    {
        Self { name, link_data }
    }
}

/// One obstacle of the arena: its name and whether its pose may change
/// between ticks.
#[derive(Clone, Debug)]
pub struct ObstacleInfo {
    pub name: String,
    pub is_dynamic: bool,
}

/// A proximity transition reported by the geometry layer for one
/// (link, obstacle) pair.
#[derive(Clone, Copy, Debug, PartialEq, Eq, Structural)]
pub enum ProximityStatus {
    WithinMargin,
    Intersecting,
    Disjoint,
}

/// The tracker: the arena of obstacles and, per chain, one membership bit
/// per (obstacle, link) pair.
#[derive(Clone, Debug)]
pub struct RelaxedIKEnvCollision {
    pub num_chains: usize,
    pub links_per_chain: Vec<usize>,
    pub obstacles: Vec<ObstacleInfo>,
    pub active: Vec<Vec<Vec<bool>>>,
}

impl RelaxedIKEnvCollision {
    pub open spec fn wf(self) -> bool {
        &&& self.num_chains == self.links_per_chain@.len()
        &&& self.active@.len() == self.num_chains
        &&& forall|c: int|
            0 <= c < self.active@.len() ==> (#[trigger] self.active@[c])@.len()
                == self.obstacles@.len()
        &&& forall|c: int, o: int|
            0 <= c < self.active@.len() && 0 <= o < self.active@[c]@.len()
                ==> (#[trigger] self.active@[c]@[o])@.len() == self.links_per_chain@[c]
    }

    /// The set of links of chain `c` currently within the margin of
    /// obstacle `o`.
    pub open spec fn active_set(self, c: int, o: int) -> Set<int> {
        Set::new(
            |l: int| 0 <= l < self.links_per_chain@[c] && self.active@[c]@[o]@[l],
        )
    }

    /// The active-pair map of chain `c`: obstacle handle to the set of its
    /// within-margin links; an obstacle with no such link is not in the
    /// domain.
    pub open spec fn active_map(self, c: int) -> Map<int, Set<int>> {
        Map::new(
            |o: int| 0 <= o < self.obstacles@.len() && !self.active_set(c, o).is_empty(),
            |o: int| self.active_set(c, o),
        )
    }

    /// Builds a tracker with the given link counts and obstacle arena; no
    /// pair starts active.
    pub fn init_collision_world(links_per_chain: Vec<usize>, obstacles: Vec<ObstacleInfo>) -> (r:
        RelaxedIKEnvCollision)
        ensures
            r.wf(),
            r.links_per_chain@ == links_per_chain@,
            r.obstacles@ == obstacles@,
            r.num_chains == links_per_chain@.len(),
            forall|c: int, o: int, l: int|
                0 <= c < r.active@.len() && 0 <= o < r.active@[c]@.len() && 0 <= l
                    < r.active@[c]@[o]@.len() ==> !(#[trigger] r.active@[c]@[o]@[l]),
    {
        let num_chains = links_per_chain.len();
        let num_obstacles = obstacles.len();
        let mut active: Vec<Vec<Vec<bool>>> = Vec::new();
        let mut c: usize = 0;
        while c < num_chains
            invariant
                num_chains == links_per_chain@.len(),
                num_obstacles == obstacles@.len(),
                0 <= c <= num_chains,
                active@.len() == c,
                forall|a: int|
                    0 <= a < c ==> (#[trigger] active@[a])@.len() == obstacles@.len(),
                forall|a: int, o: int|
                    0 <= a < c && 0 <= o < active@[a]@.len() ==> (#[trigger] active@[a]@[o])@.len()
                        == links_per_chain@[a],
                forall|a: int, o: int, l: int|
                    0 <= a < c && 0 <= o < active@[a]@.len() && 0 <= l < active@[a]@[o]@.len()
                        ==> !(#[trigger] active@[a]@[o]@[l]),
            decreases num_chains - c,
        {
            let links = links_per_chain[c];
            let mut per_obstacle: Vec<Vec<bool>> = Vec::new();
            let mut o: usize = 0;
            while o < num_obstacles
                invariant
                    0 <= o <= num_obstacles,
                    per_obstacle@.len() == o,
                    forall|q: int|
                        0 <= q < o ==> (#[trigger] per_obstacle@[q])@.len() == links,
                    forall|q: int, l: int|
                        0 <= q < o && 0 <= l < per_obstacle@[q]@.len()
                            ==> !(#[trigger] per_obstacle@[q]@[l]),
                decreases num_obstacles - o,
            {
                let mut bits: Vec<bool> = Vec::new();
                let mut l: usize = 0;
                while l < links
                    invariant
                        0 <= l <= links,
                        bits@.len() == l,
                        forall|q: int| 0 <= q < l ==> !(#[trigger] bits@[q]),
                    decreases links - l,
                {
                    bits.push(false);
                    l = l + 1;
                }
                per_obstacle.push(bits);
                o = o + 1;
            }
            active.push(per_obstacle);
            c = c + 1;
        }
        RelaxedIKEnvCollision { num_chains, links_per_chain, obstacles, active }
    }

    /// Applies one proximity transition: a within-margin or intersecting
    /// transition adds the link to the obstacle's active set, a disjoint
    /// transition removes it. Every other pair keeps its state.
    pub fn process_proximity_event(
        &mut self,
        chain: usize,
        obstacle: usize,
        link: usize,
        status: ProximityStatus,
    )
        requires
            old(self).wf(),
            chain < old(self).num_chains,
            obstacle < old(self).obstacles@.len(),
            link < old(self).links_per_chain@[chain as int],
        ensures
            final(self).wf(),
            final(self).num_chains == old(self).num_chains,
            final(self).links_per_chain@ == old(self).links_per_chain@,
            final(self).obstacles@ == old(self).obstacles@,
            final(self).active@[chain as int]@[obstacle as int]@[link as int] == (status
                != ProximityStatus::Disjoint),
            forall|c: int, o: int, l: int|
                0 <= c < old(self).active@.len() && 0 <= o < old(self).active@[c]@.len() && 0 <= l
                    < old(self).active@[c]@[o]@.len() && !(c == chain && o == obstacle && l == link)
                    ==> (#[trigger] final(self).active@[c]@[o]@[l]) == old(self).active@[c]@[o]@[l],
            final(self).active_set(chain as int, obstacle as int) == (if status
                == ProximityStatus::Disjoint {
                old(self).active_set(chain as int, obstacle as int).remove(link as int)
            } else {
                old(self).active_set(chain as int, obstacle as int).insert(link as int)
            }),
            forall|c: int, o: int|
                0 <= c < old(self).active@.len() && 0 <= o < old(self).active@[c]@.len() && !(c
                    == chain && o == obstacle) ==> (#[trigger] final(self).active_set(c, o))
                    == old(self).active_set(c, o),
    {
        let value = match status {
            ProximityStatus::Disjoint => false,
            _ => true,
        };
        let mut per_obstacle: Vec<Vec<bool>> = self.active[chain].clone();
        let mut bits: Vec<bool> = per_obstacle[obstacle].clone();
        bits.set(link, value);
        per_obstacle.set(obstacle, bits);
        self.active.set(chain, per_obstacle);
        proof {
            assert(final(self).active_set(chain as int, obstacle as int) =~= (if status
                == ProximityStatus::Disjoint {
                old(self).active_set(chain as int, obstacle as int).remove(link as int)
            } else {
                old(self).active_set(chain as int, obstacle as int).insert(link as int)
            }));
            assert forall|c: int, o: int|
                0 <= c < old(self).active@.len() && 0 <= o < old(self).active@[c]@.len() && !(c
                    == chain && o == obstacle) implies (#[trigger] final(self).active_set(c, o))
                == old(self).active_set(c, o) by {
                assert(final(self).active_set(c, o) =~= old(self).active_set(c, o));
            }
        }
    }

    /// Whether any link of the chain is within the margin of the obstacle —
    /// whether the obstacle is in the chain's active-pair map.
    pub fn is_active(&self, chain: usize, obstacle: usize) -> (r: bool)
        requires
            self.wf(),
            chain < self.num_chains,
            obstacle < self.obstacles@.len(),
        ensures
            r == self.active_map(chain as int).dom().contains(obstacle as int),
    {
        let bits = &self.active[chain][obstacle];
        let mut l: usize = 0;
        let n = bits.len();
        while l < n
            invariant
                self.wf(),
                chain < self.num_chains,
                obstacle < self.obstacles@.len(),
                bits@ == self.active@[chain as int]@[obstacle as int]@,
                n == bits@.len(),
                0 <= l <= n,
                forall|q: int| 0 <= q < l ==> !(#[trigger] bits@[q]),
            decreases n - l,
        {
            if bits[l] {
                proof {
                    assert(self.active_set(chain as int, obstacle as int).contains(l as int));
                }
                return true;
            }
            l = l + 1;
        }
        proof {
            assert(self.active_set(chain as int, obstacle as int).is_empty()) by {
                assert forall|q: int|
                    !self.active_set(chain as int, obstacle as int).contains(q) by {}
            }
        }
        false
    }

    /// The links of the chain within the margin of the obstacle, in
    /// increasing order.
    pub fn active_links(&self, chain: usize, obstacle: usize) -> (r: Vec<usize>)
        requires
            self.wf(),
            chain < self.num_chains,
            obstacle < self.obstacles@.len(),
        ensures
            forall|a: int, b: int| 0 <= a < b < r@.len() ==> r@[a] < r@[b],
            forall|a: int|
                0 <= a < r@.len() ==> self.active_set(chain as int, obstacle as int).contains(
                    (#[trigger] r@[a]) as int,
                ),
            forall|l: int|
                self.active_set(chain as int, obstacle as int).contains(l) ==> exists|a: int|
                    0 <= a < r@.len() && (#[trigger] r@[a]) as int == l,
    {
        let bits = &self.active[chain][obstacle];
        let n = bits.len();
        let mut out: Vec<usize> = Vec::new();
        let mut l: usize = 0;
        while l < n
            invariant
                self.wf(),
                chain < self.num_chains,
                obstacle < self.obstacles@.len(),
                bits@ == self.active@[chain as int]@[obstacle as int]@,
                n == bits@.len(),
                0 <= l <= n,
                forall|a: int, b: int| 0 <= a < b < out@.len() ==> out@[a] < out@[b],
                forall|a: int| 0 <= a < out@.len() ==> (#[trigger] out@[a]) < l,
                forall|a: int| 0 <= a < out@.len() ==> bits@[out@[a] as int],
                forall|q: int| 0 <= q < l && bits@[q] ==> exists|a: int|
                    0 <= a < out@.len() && (#[trigger] out@[a]) as int == q,
            decreases n - l,
        {
            if bits[l] {
                let ghost prev = out@;
                out.push(l);
                proof {
                    assert forall|q: int| 0 <= q < l + 1 && bits@[q] implies exists|a: int|
                        0 <= a < out@.len() && (#[trigger] out@[a]) as int == q by {
                        if q == l {
                            assert(out@[prev.len() as int] as int == q);
                        } else {
                            let a = choose|a: int|
                                0 <= a < prev.len() && (#[trigger] prev[a]) as int == q;
                            assert(out@[a] as int == q);
                        }
                    }
                }
            }
            l = l + 1;
        }
        out
    }

    /// The handle of the first dynamic obstacle carrying the given name.
    pub fn find_dynamic_obstacle(&self, name: &String) -> (r: Option<usize>)
        ensures
            match r {
                Some(h) => {
                    &&& h < self.obstacles@.len()
                    &&& self.obstacles@[h as int].is_dynamic
                    &&& self.obstacles@[h as int].name@ == name@
                    &&& forall|q: int|
                        0 <= q < h ==> !((#[trigger] self.obstacles@[q]).is_dynamic
                            && self.obstacles@[q].name@ == name@)
                },
                None => forall|q: int|
                    0 <= q < self.obstacles@.len() ==> !((#[trigger] self.obstacles@[q]).is_dynamic
                        && self.obstacles@[q].name@ == name@),
            },
    {
        let mut i: usize = 0;
        let n = self.obstacles.len();
        while i < n
            invariant
                n == self.obstacles@.len(),
                0 <= i <= n,
                forall|q: int|
                    0 <= q < i ==> !((#[trigger] self.obstacles@[q]).is_dynamic
                        && self.obstacles@[q].name@ == name@),
            decreases n - i,
        {
            if self.obstacles[i].is_dynamic && self.obstacles[i].name == *name {
                return Some(i);
            }
            i = i + 1;
        }
        None
    }
}

/// One scored obstacle: the penalty key the numeric layer computed for it
/// (an order-preserving integer encoding of the aggregate penalty, larger
/// meaning worse) and its arena handle.
#[derive(Clone, Copy, Debug, PartialEq, Eq, Structural)]
pub struct ObstacleScore {
    pub key: u64,
    pub handle: usize,
}

/// The fixed selection order: a higher key first; among equal keys, the
/// smaller handle first. With distinct handles this order is strict and
/// total, so a selection by it can never depend on iteration order.
pub open spec fn score_precedes(a: ObstacleScore, b: ObstacleScore) -> bool {
    a.key > b.key || (a.key == b.key && a.handle < b.handle)
}

/// Insertion of one score into a sequence already laid out in selection
/// order: it lands before the first entry it precedes.
pub open spec fn insert_by_order(s: Seq<ObstacleScore>, x: ObstacleScore) -> Seq<ObstacleScore>
    decreases s.len(),
{
    if s.len() == 0 {
        seq![x]
    } else if score_precedes(x, s[0]) {
        seq![x] + s
    } else {
        seq![s[0]] + insert_by_order(s.drop_first(), x)
    }
}

/// The scores laid out in selection order, one insertion at a time.
pub open spec fn sort_by_order(s: Seq<ObstacleScore>) -> Seq<ObstacleScore>
    decreases s.len(),
{
    if s.len() == 0 {
        Seq::empty()
    } else {
        insert_by_order(sort_by_order(s.drop_last()), s.last())
    }
}

/// Inserting at the first position whose entry the new score precedes is
/// exactly [`insert_by_order`].
proof fn lemma_insert_at_position(s: Seq<ObstacleScore>, x: ObstacleScore, p: int)
    requires
        0 <= p <= s.len(),
        forall|q: int| 0 <= q < p ==> !score_precedes(x, #[trigger] s[q]),
        p < s.len() ==> score_precedes(x, s[p]),
    ensures
        insert_by_order(s, x) == s.take(p) + seq![x] + s.skip(p),
    decreases p,
{
    if p == 0 {
        if s.len() == 0 {
            assert(insert_by_order(s, x) =~= s.take(0) + seq![x] + s.skip(0));
        } else {
            assert(insert_by_order(s, x) =~= s.take(0) + seq![x] + s.skip(0));
        }
    } else {
        assert(!score_precedes(x, s[0]));
        lemma_insert_at_position(s.drop_first(), x, p - 1);
        assert(s.drop_first().take(p - 1) =~= s.take(p).drop_first());
        assert(s.drop_first().skip(p - 1) =~= s.skip(p));
        assert(insert_by_order(s, x) =~= s.take(p) + seq![x] + s.skip(p));
    }
}

/// Selects the `k` worst-scoring obstacles: the first `k` entries of the
/// scores laid out in the fixed selection order (all of them when fewer
/// than `k` exist). The result is a function of the score set alone; ties
/// between equal keys go to the smaller handle.
pub fn select_top_obstacles(scores: &Vec<ObstacleScore>, k: usize) -> (r: Vec<ObstacleScore>)
    ensures
        r@ == sort_by_order(scores@).take(
            if k <= scores@.len() {
                k as int
            } else {
                scores@.len() as int
            },
        ),
{
    let mut sorted: Vec<ObstacleScore> = Vec::new();
    let mut i: usize = 0;
    let n = scores.len();
    while i < n
        invariant
            n == scores@.len(),
            0 <= i <= n,
            sorted@ == sort_by_order(scores@.take(i as int)),
            sorted@.len() == i,
        decreases n - i,
    {
        let x = scores[i];
        let mut p: usize = 0;
        while p < sorted.len() && !precedes_exec(x, sorted[p])
            invariant
                0 <= p <= sorted@.len(),
                forall|q: int| 0 <= q < p ==> !score_precedes(x, #[trigger] sorted@[q]),
            decreases sorted@.len() - p,
        {
            p = p + 1;
        }
        let ghost before = sorted@;
        sorted.insert(p, x);
        i = i + 1;
        proof {
            lemma_insert_at_position(before, x, p as int);
            assert(sorted@ =~= before.take(p as int) + seq![x] + before.skip(p as int));
            assert(scores@.take(i as int).drop_last() =~= scores@.take(i as int - 1));
            assert(scores@.take(i as int).last() == x);
            assert(sort_by_order(scores@.take(i as int)) == insert_by_order(before, x));
        }
    }
    proof {
        assert(scores@.take(n as int) =~= scores@);
    }
    let limit = if k <= n {
        k
    } else {
        n
    };
    let mut out: Vec<ObstacleScore> = Vec::new();
    let mut t: usize = 0;
    while t < limit
        invariant
            limit <= sorted@.len(),
            0 <= t <= limit,
            out@.len() == t,
            forall|q: int| 0 <= q < t ==> (#[trigger] out@[q]) == sorted@[q],
        decreases limit - t,
    {
        out.push(sorted[t]);
        t = t + 1;
    }
    proof {
        assert(out@ =~= sorted@.take(limit as int));
    }
    out
}

/// The selection order, decided on values.
fn precedes_exec(a: ObstacleScore, b: ObstacleScore) -> (r: bool)
    ensures
        r == score_precedes(a, b),
{
    a.key > b.key || (a.key == b.key && a.handle < b.handle)
}

/// The laid-out order is sorted: no later entry precedes an earlier one.
pub proof fn lemma_sort_by_order_sorted(s: Seq<ObstacleScore>)
    ensures
        forall|a: int, b: int|
            0 <= a < b < sort_by_order(s).len() ==> !score_precedes(
                #[trigger] sort_by_order(s)[b],
                #[trigger] sort_by_order(s)[a],
            ),
    decreases s.len(),
{
    if s.len() > 0 {
        lemma_sort_by_order_sorted(s.drop_last());
        lemma_insert_keeps_sorted(sort_by_order(s.drop_last()), s.last());
    }
}

/// Inserting into a sorted sequence keeps it sorted.
proof fn lemma_insert_keeps_sorted(s: Seq<ObstacleScore>, x: ObstacleScore)
    requires
        forall|a: int, b: int|
            0 <= a < b < s.len() ==> !score_precedes(#[trigger] s[b], #[trigger] s[a]),
    ensures
        forall|a: int, b: int|
            0 <= a < b < insert_by_order(s, x).len() ==> !score_precedes(
                #[trigger] insert_by_order(s, x)[b],
                #[trigger] insert_by_order(s, x)[a],
            ),
    decreases s.len(),
{
    if s.len() == 0 {
    } else if score_precedes(x, s[0]) {
        let r = seq![x] + s;
        assert forall|a: int, b: int|
            0 <= a < b < r.len() implies !score_precedes(#[trigger] r[b], #[trigger] r[a]) by {
            if a == 0 {
                if b == 1 {
                    assert(r[b] == s[0]);
                } else {
                    assert(r[b] == s[b - 1]);
                    assert(!score_precedes(s[b - 1], s[0]));
                    lemma_precedes_total(x, s[0], s[b - 1]);
                }
            } else {
                assert(r[a] == s[a - 1] && r[b] == s[b - 1]);
            }
        }
    } else {
        lemma_insert_keeps_sorted(s.drop_first(), x);
        let rest = insert_by_order(s.drop_first(), x);
        let r = seq![s[0]] + rest;
        assert forall|a: int, b: int|
            0 <= a < b < r.len() implies !score_precedes(#[trigger] r[b], #[trigger] r[a]) by {
            if a == 0 {
                lemma_insert_head_order(s, x, b - 1);
            } else {
                assert(r[a] == rest[a - 1] && r[b] == rest[b - 1]);
            }
        }
    }
}

/// Every entry of an insertion result either came from the sequence or is
/// the inserted score; the head of the given sequence does not precede any of
/// them when it precedes neither the inserted score nor its own tail.
proof fn lemma_insert_head_order(s: Seq<ObstacleScore>, x: ObstacleScore, q: int)
    requires
        s.len() > 0,
        !score_precedes(x, s[0]),
        forall|a: int, b: int|
            0 <= a < b < s.len() ==> !score_precedes(#[trigger] s[b], #[trigger] s[a]),
        0 <= q < insert_by_order(s.drop_first(), x).len(),
    ensures
        !score_precedes(insert_by_order(s.drop_first(), x)[q], s[0]),
    decreases s.len(),
{
    lemma_insert_membership(s.drop_first(), x, q);
    let e = insert_by_order(s.drop_first(), x)[q];
    if e == x {
    } else {
        let w = choose|w: int| 0 <= w < s.drop_first().len() && s.drop_first()[w] == e;
        assert(s[w + 1] == e);
    }
}

/// Each entry of an insertion result is the inserted score or an entry of
/// the given sequence.
proof fn lemma_insert_membership(s: Seq<ObstacleScore>, x: ObstacleScore, q: int)
    requires
        0 <= q < insert_by_order(s, x).len(),
    ensures
        insert_by_order(s, x)[q] == x || exists|w: int|
            0 <= w < s.len() && #[trigger] s[w] == insert_by_order(s, x)[q],
    decreases s.len(),
{
    if s.len() == 0 {
    } else if score_precedes(x, s[0]) {
        if q > 0 {
            assert(s[q - 1] == insert_by_order(s, x)[q]);
        }
    } else {
        if q == 0 {
            assert(s[0] == insert_by_order(s, x)[0]);
        } else {
            lemma_insert_membership(s.drop_first(), x, q - 1);
            let e = insert_by_order(s, x)[q];
            assert(e == insert_by_order(s.drop_first(), x)[q - 1]);
            if e != x {
                let w = choose|w: int|
                    0 <= w < s.drop_first().len() && #[trigger] s.drop_first()[w] == e;
                assert(s[w + 1] == e);
            }
        }
    }
}

/// The selection order is total: of two scores, one precedes the other or
/// they are equal as (key, handle) pairs.
proof fn lemma_precedes_total(x: ObstacleScore, y: ObstacleScore, z: ObstacleScore)
    requires
        score_precedes(x, y),
        !score_precedes(z, y),
    ensures
        !score_precedes(z, x),
{
}

/// Laying out the scores preserves them: the order is a permutation.
pub proof fn lemma_sort_by_order_permutes(s: Seq<ObstacleScore>)
    ensures
        sort_by_order(s).to_multiset() == s.to_multiset(),
        sort_by_order(s).len() == s.len(),
    decreases s.len(),
{
    broadcast use vstd::seq_lib::group_to_multiset_ensures;

    if s.len() == 0 {
        assert(sort_by_order(s).to_multiset() =~= s.to_multiset());
    } else {
        lemma_sort_by_order_permutes(s.drop_last());
        lemma_insert_permutes(sort_by_order(s.drop_last()), s.last());
        assert(s.drop_last().push(s.last()) =~= s);
        assert(s.drop_last().push(s.last()).to_multiset() == s.drop_last().to_multiset().insert(
            s.last(),
        ));
    }
}

/// Inserting one score adds exactly that score to the contents.
proof fn lemma_insert_permutes(s: Seq<ObstacleScore>, x: ObstacleScore)
    ensures
        insert_by_order(s, x).to_multiset() == s.to_multiset().insert(x),
        insert_by_order(s, x).len() == s.len() + 1,
    decreases s.len(),
{
    broadcast use vstd::seq_lib::group_to_multiset_ensures;

    if s.len() == 0 {
        assert(seq![x] =~= Seq::<ObstacleScore>::empty().push(x));
        assert(insert_by_order(s, x).to_multiset() =~= s.to_multiset().insert(x));
    } else if score_precedes(x, s[0]) {
        assert(seq![x] + s =~= (seq![x] + s.drop_last()).push(s.last()));
        lemma_multiset_of_cons(s, x);
    } else {
        lemma_insert_permutes(s.drop_first(), x);
        assert(seq![s[0]] + insert_by_order(s.drop_first(), x) =~= insert_by_order(
            s.drop_first(),
            x,
        ).insert(0, s[0]));
        lemma_multiset_insert_front(insert_by_order(s.drop_first(), x), s[0]);
        assert(s =~= s.drop_first().insert(0, s[0]));
        lemma_multiset_insert_front(s.drop_first(), s[0]);
        assert(insert_by_order(s, x).to_multiset() =~= s.to_multiset().insert(x));
    }
}

/// Prepending an element inserts it into the contents.
proof fn lemma_multiset_insert_front(s: Seq<ObstacleScore>, x: ObstacleScore)
    ensures
        s.insert(0, x).to_multiset() == s.to_multiset().insert(x),
    decreases s.len(),
{
    broadcast use vstd::seq_lib::group_to_multiset_ensures;

    assert(s.insert(0, x).remove(0) =~= s);
    assert(s.insert(0, x).remove(0).to_multiset() == s.insert(0, x).to_multiset().remove(x));
    assert(s.insert(0, x)[0] == x);
    assert(s.insert(0, x).to_multiset().contains(x));
    assert(s.insert(0, x).to_multiset() =~= s.to_multiset().insert(x));
}

/// Helper for [`lemma_insert_permutes`]: the contents of `x` followed by
/// `s` are the contents of `s` plus `x`.
proof fn lemma_multiset_of_cons(s: Seq<ObstacleScore>, x: ObstacleScore)
    ensures
        (seq![x] + s).to_multiset() == s.to_multiset().insert(x),
{
    assert(seq![x] + s =~= s.insert(0, x));
    lemma_multiset_insert_front(s, x);
}

/// An obstacle with no link within the margin never stands in the
/// active-pair map: entries are pruned the moment their set empties.
pub proof fn lemma_no_stale_entries(t: RelaxedIKEnvCollision, c: int, o: int)
    requires
        t.active_map(c).dom().contains(o),
    ensures
        !t.active_map(c)[o].is_empty(),
{
}

} // verus!
