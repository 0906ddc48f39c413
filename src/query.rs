//! Selection over the results of a spatial probe around one body: the
//! contact set and the nearest other body.
use vstd::prelude::*;
use crate::handle::PhysicsHandle;

verus! {

/// One collider that a probe touched: the body it belongs to, whether it is
/// a sensor, whether its body is dynamic, and an order key for its distance
/// to the probing body (smaller is closer).
#[derive(Clone, Copy, Debug, PartialEq, Eq, Structural)]
pub struct Hit {
    pub body: PhysicsHandle,
    pub sensor: bool,
    pub dynamic: bool,
    pub dist_key: u32,
}

/// A hit that a probe around `me` reports: a non-sensor collider of another,
/// dynamic body.
pub open spec fn eligible(me: PhysicsHandle, hit: Hit) -> bool {
    hit.body != me && !hit.sensor && hit.dynamic
}

/// Whether some eligible hit belongs to body `b`.
pub open spec fn reported(me: PhysicsHandle, hits: Seq<Hit>, b: PhysicsHandle) -> bool {
    exists|i: int| 0 <= i < hits.len() && eligible(me, #[trigger] hits[i]) && hits[i].body == b
}

/// The bodies behind the eligible hits, each once.
pub fn contact_set(me: PhysicsHandle, hits: &Vec<Hit>) -> (r: Vec<PhysicsHandle>)
    ensures
        forall|b: PhysicsHandle| r@.contains(b) <==> #[trigger] reported(me, hits@, b),
        r@.no_duplicates(),
{
    let mut r: Vec<PhysicsHandle> = Vec::new();
    let mut i: usize = 0;
    while i < hits.len()
        invariant
            i <= hits@.len(),
            forall|b: PhysicsHandle| r@.contains(b) <==> #[trigger] reported(me, hits@.take(i as int), b),
            r@.no_duplicates(),
        decreases hits@.len() - i,
    {
        let hit = hits[i];
        let ghost pre = hits@.take(i as int);
        let ghost post = hits@.take(i + 1);
        let ghost before = r@;
        proof {
            assert(post == pre.push(hit));
            assert forall|b: PhysicsHandle| #[trigger] reported(me, post, b)
                == (reported(me, pre, b) || (eligible(me, hit) && hit.body == b)) by {
                if reported(me, pre, b) {
                    let a = choose|a: int| 0 <= a < pre.len() && eligible(me, #[trigger] pre[a]) && pre[a].body == b;
                    assert(post[a] == pre[a]);
                }
                if eligible(me, hit) && hit.body == b {
                    assert(post[pre.len() as int] == hit);
                }
                if reported(me, post, b) {
                    let a = choose|a: int| 0 <= a < post.len() && eligible(me, #[trigger] post[a]) && post[a].body == b;
                    if a < pre.len() {
                        assert(pre[a] == post[a]);
                    }
                }
            }
        }
        if hit.body != me && !hit.sensor && hit.dynamic {
            let mut seen = false;
            let mut k: usize = 0;
            while k < r.len()
                invariant
                    k <= r@.len(),
                    seen == exists|m: int| 0 <= m < k && r@[m] == hit.body,
                decreases r@.len() - k,
            {
                if r[k] == hit.body {
                    seen = true;
                }
                k = k + 1;
            }
            if !seen {
                r.push(hit.body);
                proof {
                    assert(r@ == before.push(hit.body));
                    assert forall|b: PhysicsHandle| r@.contains(b) <==> #[trigger] reported(me, post, b) by {
                        if r@.contains(b) {
                            let m = choose|m: int| 0 <= m < r@.len() && r@[m] == b;
                            if m < before.len() {
                                assert(before.contains(b));
                            }
                        }
                        if before.contains(b) {
                            let m = choose|m: int| 0 <= m < before.len() && before[m] == b;
                            assert(r@[m] == b);
                        }
                        assert(r@[before.len() as int] == hit.body);
                    }
                }
            }
        }
        i = i + 1;
    }
    proof {
        assert(hits@.take(hits@.len() as int) =~= hits@);
    }
    r
}

/// The body of the closest eligible hit (the first such hit among equally
/// close ones), or `None` when no hit is eligible.
pub fn nearest_other(me: PhysicsHandle, hits: &Vec<Hit>) -> (r: Option<PhysicsHandle>)
    ensures
        r.is_none() == (forall|i: int| 0 <= i < hits@.len() ==> !eligible(me, #[trigger] hits@[i])),
        r.is_some() ==> exists|i: int| 0 <= i < hits@.len() && {
            &&& eligible(me, #[trigger] hits@[i])
            &&& hits@[i].body == r.unwrap()
            &&& forall|j: int| 0 <= j < hits@.len() && eligible(me, #[trigger] hits@[j]) ==> hits@[i].dist_key <= hits@[j].dist_key
            &&& forall|j: int| 0 <= j < i && eligible(me, #[trigger] hits@[j]) ==> hits@[i].dist_key < hits@[j].dist_key
        },
{
    let mut best: Option<usize> = None;
    let mut i: usize = 0;
    while i < hits.len()
        invariant
            i <= hits@.len(),
            best.is_none() == (forall|a: int| 0 <= a < i ==> !eligible(me, #[trigger] hits@[a])),
            best.is_some() ==> {
                let b = best.unwrap() as int;
                &&& b < i
                &&& eligible(me, hits@[b])
                &&& forall|j: int| 0 <= j < i && eligible(me, #[trigger] hits@[j]) ==> hits@[b].dist_key <= hits@[j].dist_key
                &&& forall|j: int| 0 <= j < b && eligible(me, #[trigger] hits@[j]) ==> hits@[b].dist_key < hits@[j].dist_key
            },
        decreases hits@.len() - i,
    {
        let hit = hits[i];
        if hit.body != me && !hit.sensor && hit.dynamic {
            match best {
                Some(b) => {
                    if hit.dist_key < hits[b].dist_key {
                        best = Some(i);
                    }
                },
                None => {
                    best = Some(i);
                },
            }
        }
        i = i + 1;
    }
    match best {
        Some(b) => {
            assert(eligible(me, hits@[b as int]));
            Some(hits[b].body)
        },
        None => None,
    }
}

} // verus!
