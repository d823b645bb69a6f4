//! Decisions of the recursive shader that do not depend on arithmetic on
//! coordinates: which hit is nearest, whether a point sees the light, and
//! which tile of the checkered floor a point lies on.
use vstd::prelude::*;

verus! {

/// Object `j` is a candidate for the nearest hit: it is not the object the
/// ray leaves from, and the ray hits it.
pub open spec fn is_candidate(keys: Seq<Option<u64>>, exclude: Option<usize>, j: int) -> bool {
    &&& 0 <= j < keys.len()
    &&& exclude != Some(j as usize)
    &&& keys[j] is Some
}

/// Pick the hit nearest along a ray.
///
/// `keys[j]` is `None` when the ray misses object `j`, and otherwise a key
/// that orders the hits by their distance along the ray. `exclude` is the
/// object the ray leaves from, which is never reported. The result is the
/// first candidate with the smallest key, or `None` when there is no
/// candidate: among equally near hits the earlier object wins.
pub fn nearest_hit(keys: &Vec<Option<u64>>, exclude: Option<usize>) -> (r: Option<usize>)
    ensures
        r is None <==> forall|j: int| !is_candidate(keys@, exclude, j),
        r matches Some(i) ==> {
            &&& is_candidate(keys@, exclude, i as int)
            &&& forall|j: int| #[trigger]
                is_candidate(keys@, exclude, j) ==> keys@[i as int]->0 <= keys@[j]->0
            &&& forall|j: int|
                0 <= j < i && #[trigger] is_candidate(keys@, exclude, j) ==> keys@[i as int]->0
                    < keys@[j]->0
        },
{
    let mut best: Option<usize> = None;
    let mut best_key: u64 = 0;
    let mut j: usize = 0;
    while j < keys.len()
        invariant
            j <= keys@.len(),
            best is None ==> forall|q: int| 0 <= q < j ==> !is_candidate(keys@, exclude, q),
            best matches Some(i) ==> {
                &&& i < j
                &&& is_candidate(keys@, exclude, i as int)
                &&& keys@[i as int] == Some(best_key)
                &&& forall|q: int| 0 <= q < j && #[trigger] is_candidate(keys@, exclude, q) ==> best_key <= keys@[q]->0
                &&& forall|q: int| 0 <= q < i && #[trigger] is_candidate(keys@, exclude, q) ==> best_key < keys@[q]->0
            },
        decreases keys@.len() - j,
    {
        let skip = match exclude {
            Some(e) => e == j,
            None => false,
        };
        if !skip {
            if let Some(k) = keys[j] {
                if best.is_none() || k < best_key {
                    best = Some(j);
                    best_key = k;
                }
            }
        }
        j += 1;
    }
    best
}

/// The light is cut off from a surface point of object `receiver`: the
/// object can receive shadows, and some other object that can cast shadows
/// lies on the way to the light (`hits`).
pub open spec fn light_blocked(
    receiver: int,
    can_receive: bool,
    can_cast: Seq<bool>,
    hits: Seq<bool>,
) -> bool {
    &&& can_receive
    &&& exists|j: int| 0 <= j < can_cast.len() && j != receiver && #[trigger] can_cast[j] && hits[j]
}

/// Whether a surface point of object `receiver` is lit by the light: false
/// exactly when a shadow falls on it. `can_cast[j]` tells whether object `j`
/// casts shadows, and `hits[j]` whether the ray from the point toward the
/// light meets object `j`.
pub fn reaches_light(
    receiver: usize,
    can_receive: bool,
    can_cast: &Vec<bool>,
    hits: &Vec<bool>,
) -> (r: bool)
    requires
        can_cast@.len() == hits@.len(),
    ensures
        r == !light_blocked(receiver as int, can_receive, can_cast@, hits@),
{
    let mut j: usize = 0;
    while j < can_cast.len()
        invariant
            j <= can_cast@.len(),
            can_cast@.len() == hits@.len(),
            can_receive ==> forall|q: int| 0 <= q < j && q != receiver ==> !(#[trigger] can_cast@[q] && hits@[q]),
        decreases can_cast@.len() - j,
    {
        if j != receiver && can_receive && can_cast[j] && hits[j] {
            assert(can_cast@[j as int] && hits@[j as int]);
            return false;
        }
        j += 1;
    }
    true
}

/// A shadow-casting object on the way from a receiving surface point to the
/// light puts the point in shadow; with that object out of the way, and no
/// other caster on it, the point is lit.
pub proof fn lemma_blocker_casts_shadow(
    receiver: int,
    can_cast: Seq<bool>,
    hits: Seq<bool>,
    k: int,
)
    requires
        can_cast.len() == hits.len(),
        0 <= k < hits.len(),
        k != receiver,
        can_cast[k],
        hits[k],
        forall|j: int| 0 <= j < hits.len() && j != k && j != receiver ==> !(#[trigger] can_cast[j] && hits[j]),
    ensures
        light_blocked(receiver, true, can_cast, hits),
        !light_blocked(receiver, true, can_cast, hits.update(k, false)),
{
    assert(can_cast[k] && hits[k]);
}

/// Whether a floor point whose cells along the two floor axes are `cx` and
/// `cz` lies on the first of the two tile colours: the cells differ in
/// parity.
pub fn first_tile(cx: u8, cz: u8) -> (r: bool)
    ensures
        r == (cx % 2 != cz % 2),
{
    let r = (cx & 1) ^ (cz & 1) != 0;
    assert(((cx & 1) ^ (cz & 1) != 0) == (cx % 2 != cz % 2)) by (bit_vector);
    r
}

} // verus!
