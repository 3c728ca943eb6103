//! Owned numeric vectors and the dot-product engine: the unit of work that the
//! multiply orchestrator dispatches to its workers.
use vstd::prelude::*;

verus! {

/// An owned sequence of elements, used to materialize a row or a column of a
/// matrix so that it can be handed to a worker.
#[derive(Debug, Clone)]
pub struct Vector<T> {
    pub data: Vec<T>,
}

impl<T> Vector<T> {
    pub fn new(data: Vec<T>) -> (v: Self)
        ensures
            v.data@ == data@,
    {
        Self { data }
    }
}

/// The one failure a dot product can report: the operands differ in length.
#[derive(Debug, Clone, Copy, PartialEq, Eq, Structural)]
pub enum DotProductError {
    LengthMismatch,
}

impl DotProductError {
    /// The exact message of the failure.
    pub open spec fn message_spec(self) -> Seq<char> {
        "Dot product error: a.len != b.len"@
    }

    /// Renders the failure message.
    pub fn message(&self) -> (s: String)
        ensures
            s@ == self.message_spec(),
    {
        String::from_str("Dot product error: a.len != b.len")
    }
}

/// The sum of the first `k` products `a[i] * b[i]`, accumulated in ascending
/// index order.
pub open spec fn dot(a: Seq<i64>, b: Seq<i64>, k: int) -> int
    decreases k,
{
    if k <= 0 {
        0
    } else {
        dot(a, b, k - 1) + a[k - 1] * b[k - 1]
    }
}

/// Every product and every partial sum of the dot product of `a` and `b` fits
/// in an `i64`, so the accumulation cannot overflow.
pub open spec fn dot_fits(a: Seq<i64>, b: Seq<i64>) -> bool {
    &&& forall|k: int|
        0 <= k < a.len() ==> i64::MIN <= #[trigger] (a[k] as int) * (b[k] as int) <= i64::MAX
    &&& forall|k: int| 0 <= k <= a.len() ==> i64::MIN <= #[trigger] dot(a, b, k) <= i64::MAX
}

/// What a dot product returns: the full sum when the operands have equal
/// length, and `LengthMismatch` otherwise.
pub open spec fn dot_result(a: Seq<i64>, b: Seq<i64>) -> Result<i64, DotProductError> {
    if a.len() == b.len() {
        Ok(dot(a, b, a.len() as int) as i64)
    } else {
        Err(DotProductError::LengthMismatch)
    }
}

/// Computes the dot product of two borrowed buffers; the core shared by the
/// public entry points and by the workers.
pub fn dot_product_ref(a: &Vec<i64>, b: &Vec<i64>) -> (r: Result<i64, DotProductError>)
    requires
        a@.len() == b@.len() ==> dot_fits(a@, b@),
    ensures
        r == dot_result(a@, b@),
{
    if a.len() != b.len() {
        return Err(DotProductError::LengthMismatch);
    }
    let mut sum: i64 = 0;
    let mut k: usize = 0;
    while k < a.len()
        invariant
            a@.len() == b@.len(),
            dot_fits(a@, b@),
            k <= a@.len(),
            sum as int == dot(a@, b@, k as int),
        decreases a@.len() - k,
    {
        assert(i64::MIN <= dot(a@, b@, k + 1) <= i64::MAX);
        sum = sum + a[k] * b[k];
        k = k + 1;
    }
    Ok(sum)
}

/// Dot product of two vectors, failing with `LengthMismatch` when the lengths
/// differ.
pub fn dot_product(a: Vector<i64>, b: Vector<i64>) -> (r: Result<i64, DotProductError>)
    requires
        a.data@.len() == b.data@.len() ==> dot_fits(a.data@, b.data@),
    ensures
        r == dot_result(a.data@, b.data@),
{
    dot_product_ref(&a.data, &b.data)
}

/// Dot product of two owned buffers, as a worker receives them.
pub fn dot_product_vec(a: Vec<i64>, b: Vec<i64>) -> (r: Result<i64, DotProductError>)
    requires
        a@.len() == b@.len() ==> dot_fits(a@, b@),
    ensures
        r == dot_result(a@, b@),
{
    dot_product_ref(&a, &b)
}

} // verus!
