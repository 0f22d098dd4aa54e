//! A flat buffer of elements together with the shape that interprets it.

use crate::shape::{checked_product, shape_product};
use vstd::prelude::*;

verus! {

/// Why an operation on a tensor was refused.
#[derive(Clone, Copy, Debug, PartialEq, Eq, Structural)]
pub enum TensorError {
    /// The requested shape describes another number of elements than the current one.
    ShapeMismatch,
    /// The two operands hold different numbers of elements.
    SizeMismatch,
}

/// The mathematical content of a tensor.
pub struct TensorView<T> {
    /// The elements, in row-major order.
    pub data: Seq<T>,
    /// The size of each dimension.
    pub shape: Seq<usize>,
}

impl<T> TensorView<T> {
    /// The shape describes exactly as many elements as the buffer holds.
    pub open spec fn well_formed(self) -> bool {
        shape_product(self.shape) == self.data.len()
    }
}

/// A multi-dimensional array: a row-major buffer and the size of each dimension.
#[derive(Clone, Debug)]
pub struct Tensor<T> {
    data: Vec<T>,
    shape: Vec<usize>,
}

impl<T> View for Tensor<T> {
    type V = TensorView<T>;

    closed spec fn view(&self) -> TensorView<T> {
        TensorView { data: self.data@, shape: self.shape@ }
    }
}

/// `out` holds, index by index, a result of `op` on the elements of `left` and `right`.
pub open spec fn pointwise<T, F: Fn(T, T) -> T>(op: F, left: Seq<T>, right: Seq<T>, out: Seq<T>) -> bool {
    &&& out.len() == left.len()
    &&& forall|i: int| 0 <= i < left.len() ==> call_ensures(op, (left[i], right[i]), #[trigger] out[i])
}

/// `op` accepts every pair of elements that `left` and `right` hold at one index.
pub open spec fn pointwise_allowed<T, F: Fn(T, T) -> T>(op: F, left: Seq<T>, right: Seq<T>) -> bool {
    forall|i: int| 0 <= i < left.len() && i < right.len() ==> call_requires(op, (#[trigger] left[i], right[i]))
}

/// Element-wise results do not depend on the order of the operands where the
/// operator does not: if `op` yields one and the same value for each pair of
/// elements taken in either order, then combining `a` with `b` and `b` with
/// `a` gives equal buffers.
pub proof fn lemma_pointwise_commutative<T, F: Fn(T, T) -> T>(op: F, a: Seq<T>, b: Seq<T>, ab: Seq<T>, ba: Seq<T>)
    requires
        a.len() == b.len(),
        pointwise(op, a, b, ab),
        pointwise(op, b, a, ba),
        forall|i: int, r: T, s: T|
            0 <= i < a.len() && #[trigger] call_ensures(op, (a[i], b[i]), r) && #[trigger] call_ensures(
                op,
                (b[i], a[i]),
                s,
            ) ==> r == s,
    ensures
        ab == ba,
{
    assert forall|i: int| 0 <= i < ab.len() implies ab[i] == ba[i] by {
        assert(call_ensures(op, (a[i], b[i]), ab[i]));
        assert(call_ensures(op, (b[i], a[i]), ba[i]));
    }
    assert(ab =~= ba);
}

fn zip_with<T: Copy, F: Fn(T, T) -> T>(left: &Vec<T>, right: &Vec<T>, op: F) -> (out: Vec<T>)
    requires
        left@.len() == right@.len(),
        pointwise_allowed(op, left@, right@),
    ensures
        pointwise(op, left@, right@, out@),
{
    let n: usize = left.len();
    let mut out: Vec<T> = Vec::with_capacity(n);
    let mut i: usize = 0;
    while i < n
        invariant
            i <= n,
            n == left@.len(),
            n == right@.len(),
            out@.len() == i,
            pointwise_allowed(op, left@, right@),
            forall|j: int| 0 <= j < i ==> call_ensures(op, (left@[j], right@[j]), #[trigger] out@[j]),
        decreases n - i,
    {
        assert(call_requires(op, (left@[i as int], right@[i as int])));
        let value = op(left[i], right[i]);
        out.push(value);
        i += 1;
    }
    out
}

impl<T> Tensor<T> {
    /// Pairs a buffer with a shape, as they are.
    ///
    /// Nothing is checked: the result is well formed only if the caller's
    /// shape describes `data.len()` elements.
    pub fn new(data: Vec<T>, shape: Vec<usize>) -> (tensor: Tensor<T>)
        ensures
            tensor@.data == data@,
            tensor@.shape == shape@,
    {
        Tensor { data, shape }
    }

    /// The number of elements held, whatever the shape says.
    pub fn size(&self) -> (size: usize)
        ensures
            size == self@.data.len(),
    {
        self.data.len()
    }

    /// The size of each dimension.
    pub fn shape(&self) -> (shape: &Vec<usize>)
        ensures
            shape@ == self@.shape,
    {
        &self.shape
    }

    /// The elements, in row-major order.
    pub fn data(&self) -> (data: &Vec<T>)
        ensures
            data@ == self@.data,
    {
        &self.data
    }

    /// The number of dimensions.
    pub fn rank(&self) -> (rank: usize)
        ensures
            rank == self@.shape.len(),
    {
        self.shape.len()
    }

    /// Replaces the shape by `new_shape` when both describe the same number of
    /// elements, and refuses otherwise, leaving the tensor as it was.
    ///
    /// The comparison is between the two shapes: the buffer is neither read nor
    /// changed. A well-formed tensor stays well formed.
    pub fn reshape(&mut self, new_shape: Vec<usize>) -> (res: Result<(), TensorError>)
        requires
            shape_product(old(self)@.shape) <= usize::MAX,
        ensures
            final(self)@.data == old(self)@.data,
            shape_product(new_shape@) == shape_product(old(self)@.shape) ==> res == Ok::<(), TensorError>(())
                && final(self)@.shape == new_shape@,
            shape_product(new_shape@) != shape_product(old(self)@.shape) ==> res == Err::<(), TensorError>(
                TensorError::ShapeMismatch,
            ) && final(self)@.shape == old(self)@.shape,
            old(self)@.well_formed() ==> final(self)@.well_formed(),
    {
        let current = checked_product(self.shape.as_slice());
        let wanted = checked_product(new_shape.as_slice());
        if current == wanted {
            self.shape = new_shape;
            Ok(())
        } else {
            Err(TensorError::ShapeMismatch)
        }
    }
}

impl<T: Copy + core::default::Default> Tensor<T> {
    /// A tensor of the given shape whose every element is the default value of `T`.
    ///
    /// The shape must describe a number of elements that a buffer can hold.
    pub fn from_shape(shape: Vec<usize>) -> (tensor: Tensor<T>)
        requires
            shape_product(shape@) <= usize::MAX,
        ensures
            tensor@.shape == shape@,
            tensor@.well_formed(),
            forall|i: int| 0 <= i < tensor@.data.len() ==> call_ensures(T::default, (), #[trigger] tensor@.data[i]),
            forall|i: int, j: int|
                0 <= i < tensor@.data.len() && 0 <= j < tensor@.data.len() ==> tensor@.data[i] == tensor@.data[j],
    {
        let size: usize = checked_product(shape.as_slice()).unwrap();
        let fill = T::default();
        let mut data: Vec<T> = Vec::with_capacity(size);
        let mut i: usize = 0;
        while i < size
            invariant
                i <= size,
                data@.len() == i,
                call_ensures(T::default, (), fill),
                forall|j: int| 0 <= j < i ==> #[trigger] data@[j] == fill,
            decreases size - i,
        {
            data.push(fill);
            i += 1;
        }
        Tensor { data, shape }
    }
}

impl<T: Copy + core::ops::Add<Output = T>> Tensor<T> {
    /// The element-wise sum of two tensors that hold equally many elements.
    ///
    /// Only the sizes are compared, not the shapes; the result takes the shape
    /// of `self`.
    pub fn add(self, other: Tensor<T>) -> (res: Result<Tensor<T>, TensorError>)
        requires
            pointwise_allowed(T::add, self@.data, other@.data),
        ensures
            self@.data.len() != other@.data.len() ==> res == Err::<Tensor<T>, TensorError>(
                TensorError::SizeMismatch,
            ),
            self@.data.len() == other@.data.len() ==> res is Ok && res->Ok_0@.shape == self@.shape && pointwise(
                T::add,
                self@.data,
                other@.data,
                res->Ok_0@.data,
            ),
    {
        if self.data.len() != other.data.len() {
            return Err(TensorError::SizeMismatch);
        }
        let data = zip_with(&self.data, &other.data, T::add);
        Ok(Tensor { data, shape: self.shape })
    }
}

impl<T: Copy + core::ops::Mul<Output = T>> Tensor<T> {
    /// The element-wise product of two tensors that hold equally many elements.
    ///
    /// Only the sizes are compared, not the shapes; the result takes the shape
    /// of `self`.
    pub fn mul(self, other: Tensor<T>) -> (res: Result<Tensor<T>, TensorError>)
        requires
            pointwise_allowed(T::mul, self@.data, other@.data),
        ensures
            self@.data.len() != other@.data.len() ==> res == Err::<Tensor<T>, TensorError>(
                TensorError::SizeMismatch,
            ),
            self@.data.len() == other@.data.len() ==> res is Ok && res->Ok_0@.shape == self@.shape && pointwise(
                T::mul,
                self@.data,
                other@.data,
                res->Ok_0@.data,
            ),
    {
        if self.data.len() != other.data.len() {
            return Err(TensorError::SizeMismatch);
        }
        let data = zip_with(&self.data, &other.data, T::mul);
        Ok(Tensor { data, shape: self.shape })
    }
}

} // verus!
