//! The discrete side of the scene: which kind each object is, and which
//! objects the motion step moves.
use vstd::prelude::*;

verus! {

/// The shape of a scene object.
#[derive(Clone, Copy, PartialEq, Eq, Structural, Debug)]
pub enum ObjectType {
    Sphere,
    Disc,
}

/// Indices, in increasing order, of the objects among the first `n` that the
/// motion step moves: the spheres. Discs stay where they are.
pub open spec fn moving_indices(kinds: Seq<ObjectType>, n: int) -> Seq<usize>
    decreases n,
{
    if n <= 0 {
        Seq::empty()
    } else if kinds[n - 1] == ObjectType::Sphere {
        moving_indices(kinds, n - 1).push((n - 1) as usize)
    } else {
        moving_indices(kinds, n - 1)
    }
}

/// The objects that one motion step rotates, given the kind of each object of
/// the scene in order.
pub fn rotating_objects(kinds: &Vec<ObjectType>) -> (r: Vec<usize>)
    ensures
        r@ == moving_indices(kinds@, kinds@.len() as int),
{
    let mut r: Vec<usize> = Vec::new();
    let mut i: usize = 0;
    while i < kinds.len()
        invariant
            i <= kinds@.len(),
            r@ == moving_indices(kinds@, i as int),
        decreases kinds@.len() - i,
    {
        if kinds[i] == ObjectType::Sphere {
            r.push(i);
        }
        i += 1;
    }
    r
}

} // verus!
