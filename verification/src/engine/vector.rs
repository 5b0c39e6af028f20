//! What the engine takes on trust about the `vector2d` crate.

use vstd::prelude::*;
use vector2d::Vector2D;

verus! {

/// `vector2d::Vector2D` is a plain pair of public components, `x` and `y`.
#[verifier::external_type_specification]
#[verifier::reject_recursive_types(T)]
pub struct ExVector2D<T>(Vector2D<T>);

/// `Vector2D::new` stores its two arguments as the components, unchanged.
pub assume_specification<T: Copy + Clone>[ Vector2D::<T>::new ](x: T, y: T) -> (v: Vector2D<T>)
    ensures
        v.x == x,
        v.y == y,
;

} // verus!
