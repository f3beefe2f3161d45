//! Tensors as they cross the boundary to a backend, and facts about shapes.

use vstd::prelude::*;

use crate::number;
use crate::number::decimal_i64;
use crate::text;
use crate::text::{cat3, joined};

verus! {

/// A backend-agnostic tensor. `data` is row-major and little-endian, for the
/// element type that the canonical `dtype` names.
#[derive(Debug)]
pub struct Tensor {
    pub name: String,
    pub shape: Vec<i64>,
    pub dtype: String,
    pub data: Vec<u8>,
}

/// A [`Tensor`] as contracts see it.
#[verifier::ext_equal]
pub struct TensorView {
    pub name: Seq<char>,
    pub shape: Seq<i64>,
    pub dtype: Seq<char>,
    pub data: Seq<u8>,
}

impl View for Tensor {
    type V = TensorView;

    open spec fn view(&self) -> TensorView {
        TensorView {
            name: self.name@,
            shape: self.shape@,
            dtype: self.dtype@,
            data: self.data@,
        }
    }
}

impl Clone for Tensor {
    fn clone(&self) -> (r: Self)
        ensures
            r@ == self@,
    {
        Tensor {
            name: self.name.clone(),
            shape: copy_dims(self.shape.as_slice()),
            dtype: self.dtype.clone(),
            data: copy_bytes(self.data.as_slice()),
        }
    }
}

/// What a list of tensors holds.
pub open spec fn tensor_views(tensors: Seq<Tensor>) -> Seq<TensorView> {
    Seq::new(tensors.len(), |i: int| tensors[i]@)
}

/// What an optional tensor holds.
pub open spec fn optional_view(tensor: Option<Tensor>) -> Option<TensorView> {
    match tensor {
        Some(t) => Some(t@),
        None => None,
    }
}

/// What a list of byte buffers holds.
pub open spec fn buffers(v: Seq<Vec<u8>>) -> Seq<Seq<u8>> {
    Seq::new(v.len(), |i: int| v[i]@)
}

/// Copies bytes.
pub fn copy_bytes(bytes: &[u8]) -> (r: Vec<u8>)
    ensures
        r@ == bytes@,
{
    let mut out: Vec<u8> = Vec::new();
    out.extend_from_slice(bytes);
    assert(out@ =~= bytes@);
    out
}

/// Copies dimensions.
pub fn copy_dims(dims: &[i64]) -> (r: Vec<i64>)
    ensures
        r@ == dims@,
{
    let mut out: Vec<i64> = Vec::new();
    out.extend_from_slice(dims);
    assert(out@ =~= dims@);
    out
}

/// Whether two shapes are the same.
pub fn same_dims(a: &[i64], b: &[i64]) -> (r: bool)
    ensures
        r == (a@ == b@),
{
    if a.len() != b.len() {
        return false;
    }
    let mut i: usize = 0;
    while i < a.len()
        invariant
            i <= a@.len(),
            a@.len() == b@.len(),
            forall|k: int| 0 <= k < i ==> a@[k] == b@[k],
        decreases a@.len() - i,
    {
        if a[i] != b[i] {
            return false;
        }
        i = i + 1;
    }
    assert(a@ =~= b@);
    true
}

/// The number of elements of a shape: the product of its dimensions.
pub open spec fn product(shape: Seq<i64>) -> int
    decreases shape.len(),
{
    if shape.len() == 0 {
        1
    } else {
        product(shape.drop_last()) * shape.last()
    }
}

/// The number of elements, multiplied up from left to right in 64-bit signed
/// arithmetic; `None` where a step leaves its range.
pub open spec fn checked_product(shape: Seq<i64>) -> Option<int>
    decreases shape.len(),
{
    if shape.len() == 0 {
        Some(1)
    } else {
        match checked_product(shape.drop_last()) {
            None => None,
            Some(before) => {
                let n = before * shape.last();
                if i64::MIN <= n <= i64::MAX {
                    Some(n)
                } else {
                    None
                }
            },
        }
    }
}

proof fn lemma_checked_product_overflow(shape: Seq<i64>, k: int)
    requires
        0 <= k <= shape.len(),
        checked_product(shape.take(k)) is None,
    ensures
        checked_product(shape) is None,
    decreases shape.len() - k,
{
    if k == shape.len() {
        assert(shape.take(k) =~= shape);
    } else {
        assert(shape.take(k + 1).drop_last() =~= shape.take(k));
        lemma_checked_product_overflow(shape, k + 1);
    }
}

/// Computes [`checked_product`].
pub fn element_count(shape: &[i64]) -> (r: Option<i64>)
    ensures
        match r {
            Some(n) => checked_product(shape@) == Some(n as int),
            None => checked_product(shape@) is None,
        },
{
    let mut count: i64 = 1;
    let mut i: usize = 0;
    assert(shape@.take(0) =~= Seq::empty());
    while i < shape.len()
        invariant
            i <= shape@.len(),
            checked_product(shape@.take(i as int)) == Some(count as int),
        decreases shape@.len() - i,
    {
        proof {
            assert(shape@.take(i + 1).drop_last() =~= shape@.take(i as int));
            assert(shape@.take(i + 1).last() == shape@[i as int]);
        }
        match count.checked_mul(shape[i]) {
            None => {
                proof {
                    lemma_checked_product_overflow(shape@, i + 1);
                }
                return None;
            },
            Some(n) => {
                count = n;
            },
        }
        i = i + 1;
    }
    assert(shape@.take(i as int) =~= shape@);
    Some(count)
}

/// For positive dimensions, counting step by step fails exactly if the number of
/// elements exceeds the largest 64-bit signed integer, and gives that number
/// otherwise.
pub proof fn law_element_count(shape: Seq<i64>)
    requires
        forall|i: int| 0 <= i < shape.len() ==> #[trigger] shape[i] > 0,
    ensures
        product(shape) >= 1,
        checked_product(shape) == if product(shape) <= i64::MAX {
            Some(product(shape))
        } else {
            None
        },
    decreases shape.len(),
{
    if shape.len() > 0 {
        let front = shape.drop_last();
        assert forall|i: int| 0 <= i < front.len() implies #[trigger] front[i] > 0 by {
            assert(shape[i] > 0);
        }
        law_element_count(front);
        let d = shape.last() as int;
        let p = product(front);
        assert(shape[shape.len() - 1] > 0);
        assert(p * d >= p && p * d >= 1) by (nonlinear_arith)
            requires
                p >= 1,
                d >= 1,
        ;
    }
}

/// The decimal forms of the dimensions.
pub open spec fn dim_texts(shape: Seq<i64>) -> Seq<Seq<char>> {
    Seq::new(shape.len(), |i: int| number::decimal(shape[i] as int))
}

/// The dimensions as model processes read them: separated by commas.
pub open spec fn comma_dims(shape: Seq<i64>) -> Seq<char> {
    text::join(dim_texts(shape), ","@)
}

/// The dimensions as messages show them: in brackets.
pub open spec fn shown_dims(shape: Seq<i64>) -> Seq<char> {
    "["@ + text::join(dim_texts(shape), ", "@) + "]"@
}

fn decimals(shape: &[i64]) -> (r: Vec<String>)
    ensures
        text::texts(r@) == dim_texts(shape@),
{
    let mut out: Vec<String> = Vec::new();
    let mut i: usize = 0;
    while i < shape.len()
        invariant
            i <= shape@.len(),
            out@.len() == i,
            forall|k: int| 0 <= k < i ==> (#[trigger] out@[k])@ == number::decimal(shape@[k] as int),
        decreases shape@.len() - i,
    {
        out.push(decimal_i64(shape[i]));
        i = i + 1;
    }
    assert(text::texts(out@) =~= dim_texts(shape@));
    out
}

/// Computes [`comma_dims`].
pub fn dims_with_commas(shape: &[i64]) -> (r: String)
    ensures
        r@ == comma_dims(shape@),
{
    let parts = decimals(shape);
    joined(&parts, ",")
}

/// Computes [`shown_dims`].
pub fn dims_shown(shape: &[i64]) -> (r: String)
    ensures
        r@ == shown_dims(shape@),
{
    let parts = decimals(shape);
    let inner = joined(&parts, ", ");
    cat3("[", inner.as_str(), "]")
}

} // verus!
