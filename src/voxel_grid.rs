use vstd::prelude::*;

verus! {

/// Number of cells of a grid of the given shape.
pub open spec fn shape_product(shape: [usize; 3]) -> int {
    shape[0] * shape[1] * shape[2]
}

/// The number of elements of a grid of shape `shape`, or `None` when that
/// number does not fit in a `usize`.
pub fn element_count(shape: [usize; 3]) -> (r: Option<usize>)
    ensures
        r is Some <==> shape_product(shape) <= usize::MAX,
        r matches Some(n) ==> n == shape_product(shape),
{
    let a = shape[0];
    let b = shape[1];
    let c = shape[2];
    if a == 0 || b == 0 || c == 0 {
        assert(shape_product(shape) == 0) by (nonlinear_arith)
            requires
                a == 0 || b == 0 || c == 0,
                shape_product(shape) == a * b * c,
        ;
        return Some(0);
    }
    if a > usize::MAX / b {
        assert(a * b > usize::MAX) by (nonlinear_arith)
            requires
                a > usize::MAX / b,
                b > 0,
        ;
        assert(a * b * c >= a * b) by (nonlinear_arith)
            requires
                c >= 1,
                a * b >= 0,
        ;
        return None;
    }
    assert(a * b <= usize::MAX) by (nonlinear_arith)
        requires
            a <= usize::MAX / b,
            b > 0,
    ;
    let ab = a * b;
    if ab > usize::MAX / c {
        assert(ab * c > usize::MAX) by (nonlinear_arith)
            requires
                ab > usize::MAX / c,
                c > 0,
        ;
        return None;
    }
    assert(ab * c <= usize::MAX) by (nonlinear_arith)
        requires
            ab <= usize::MAX / c,
            c > 0,
    ;
    Some(ab * c)
}

/// Why a grid could not be built from a shape and a data array.
#[derive(Clone, Copy, Debug, PartialEq, Eq, Structural)]
pub enum GridError {
    /// The shape's element count does not fit in a `usize`.
    TooLarge,
    /// The data array does not hold one element per grid cell.
    LengthMismatch { expected: usize, actual: usize },
}

/// Scalar field on a regular three-dimensional grid. Elements are stored as
/// their 64-bit IEEE-754 patterns, x varying fastest, then y, then z.
pub struct VoxelGrid {
    pub shape: [usize; 3],
    pub data: Vec<u64>,
}

impl VoxelGrid {
    /// A grid of shape `shape` over `data`, which must hold exactly one element per cell.
    pub fn new(shape: [usize; 3], data: Vec<u64>) -> (r: Result<VoxelGrid, GridError>)
        ensures
            match r {
                Ok(g) => g.shape == shape && g.data@ == data@ && data@.len() == shape_product(
                    shape,
                ),
                Err(GridError::TooLarge) => shape_product(shape) > usize::MAX,
                Err(GridError::LengthMismatch { expected, actual }) => {
                    &&& expected == shape_product(shape)
                    &&& actual == data@.len()
                    &&& expected != actual
                },
            },
    {
        match element_count(shape) {
            None => Err(GridError::TooLarge),
            Some(expected) => {
                if data.len() != expected {
                    Err(GridError::LengthMismatch { expected, actual: data.len() })
                } else {
                    Ok(VoxelGrid { shape, data })
                }
            },
        }
    }

    pub fn get_data(&self) -> (r: &Vec<u64>)
        ensures
            r@ == self.data@,
    {
        &self.data
    }

    pub fn get_shape(&self) -> (r: [usize; 3])
        ensures
            r == self.shape,
    {
        self.shape
    }
}

} // verus!
