//! Forward passes of libtorch: what a model gave, serialized.

use vstd::prelude::*;

use crate::status::StatusView;
use crate::tensor::TensorView;
use crate::text::cat2;
use crate::torch;
use crate::torch::{canonical_from_kind, Forward, RawTensor, TupleItem};

verus! {

/// A serialized tensor: its shape, its bytes in row-major order, least byte first,
/// and its canonical type.
pub type TensorOutput = (Vec<i64>, Vec<u8>, String);

/// What a forward pass of a model with one output gave: a tensor, something else,
/// as libtorch shows it, or a failure.
#[derive(Debug)]
pub enum SingleForward {
    Tensor(RawTensor),
    Other(String),
    Failed(String),
}

/// A tensor as it is serialized, or why it cannot be.
pub open spec fn serialized(raw: RawTensor) -> Result<(Seq<i64>, Seq<u8>, Seq<char>), Seq<char>> {
    match raw.kind {
        None => Err("Internal torch error: unsupported output tensor kind "@ + raw.kind_text@),
        Some(kind) => Ok((raw.shape@, raw.bytes@, kind.spec_canonical())),
    }
}

/// Serializes a tensor. Its type is kept, whatever it is.
pub fn tensor_to_bytes(raw: RawTensor) -> (r: Result<TensorOutput, String>)
    ensures
        match r {
            Ok((shape, bytes, dtype)) => serialized(raw) == Ok::<
                (Seq<i64>, Seq<u8>, Seq<char>),
                Seq<char>,
            >((shape@, bytes@, dtype@)),
            Err(cause) => serialized(raw) == Err::<(Seq<i64>, Seq<u8>, Seq<char>), Seq<char>>(
                cause@,
            ),
        },
{
    match raw.kind {
        None => Err(
            cat2(
                "Internal torch error: unsupported output tensor kind ",
                raw.kind_text.as_str(),
            ),
        ),
        Some(kind) => Ok((raw.shape, raw.bytes, canonical_from_kind(kind).to_string())),
    }
}

/// The output of a model that gives one tensor.
pub open spec fn single_output(forward: SingleForward) -> Result<
    (Seq<i64>, Seq<u8>, Seq<char>),
    Seq<char>,
> {
    match forward {
        SingleForward::Failed(cause) => Err(cause@),
        SingleForward::Other(shown) => Err(
            "Internal torch error: model output was non-tensor: "@ + shown@,
        ),
        SingleForward::Tensor(raw) => serialized(raw),
    }
}

/// Serializes the output of a model that gives one tensor.
pub fn run_forward_pass(forward: SingleForward) -> (r: Result<TensorOutput, String>)
    ensures
        match r {
            Ok((shape, bytes, dtype)) => single_output(forward) == Ok::<
                (Seq<i64>, Seq<u8>, Seq<char>),
                Seq<char>,
            >((shape@, bytes@, dtype@)),
            Err(cause) => single_output(forward) == Err::<
                (Seq<i64>, Seq<u8>, Seq<char>),
                Seq<char>,
            >(cause@),
        },
{
    match forward {
        SingleForward::Failed(cause) => Err(cause),
        SingleForward::Other(shown) => Err(
            cat2("Internal torch error: model output was non-tensor: ", shown.as_str()),
        ),
        SingleForward::Tensor(raw) => tensor_to_bytes(raw),
    }
}

/// The serialized elements of a tuple, or why the first that is no such tensor is
/// refused.
pub open spec fn tuple_output(items: Seq<TupleItem>) -> Result<
    Seq<(Seq<i64>, Seq<u8>, Seq<char>)>,
    Seq<char>,
>
    decreases items.len(),
{
    if items.len() == 0 {
        Ok(Seq::empty())
    } else {
        match tuple_output(items.drop_last()) {
            Err(cause) => Err(cause),
            Ok(outputs) => match items.last() {
                TupleItem::Other(shown) => Err(
                    "Internal torch error: model tuple output element is non-tensor: "@ + shown@,
                ),
                TupleItem::Tensor(raw) => match serialized(raw) {
                    Err(cause) => Err(cause),
                    Ok(output) => Ok(outputs.push(output)),
                },
            },
        }
    }
}

/// The outputs of a model that gives a tensor or a tuple of tensors.
pub open spec fn multi_output(forward: Forward) -> Result<
    Seq<(Seq<i64>, Seq<u8>, Seq<char>)>,
    Seq<char>,
> {
    match forward {
        Forward::Failed(cause) => Err(cause@),
        Forward::Other(shown) => Err(
            "Internal torch error: model output was neither tensor nor tuple: "@ + shown@,
        ),
        Forward::Tensor(raw) => match serialized(raw) {
            Err(cause) => Err(cause),
            Ok(output) => Ok(seq![output]),
        },
        Forward::Tuple(items) => tuple_output(items@),
    }
}

/// Serialized tensors as contracts see them.
pub open spec fn output_views(outputs: Seq<TensorOutput>) -> Seq<
    (Seq<i64>, Seq<u8>, Seq<char>),
> {
    Seq::new(outputs.len(), |i: int| (outputs[i].0@, outputs[i].1@, outputs[i].2@))
}

proof fn lemma_tuple_fault(items: Seq<TupleItem>, k: int)
    requires
        0 <= k <= items.len(),
        tuple_output(items.take(k)) is Err,
    ensures
        tuple_output(items) == tuple_output(items.take(k)),
    decreases items.len() - k,
{
    if k == items.len() {
        assert(items.take(k) =~= items);
    } else {
        assert(items.take(k + 1).drop_last() =~= items.take(k));
        lemma_tuple_fault(items, k + 1);
    }
}

fn serialize_tuple(items: Vec<TupleItem>) -> (r: Result<Vec<TensorOutput>, String>)
    ensures
        match r {
            Ok(outputs) => tuple_output(items@) == Ok::<
                Seq<(Seq<i64>, Seq<u8>, Seq<char>)>,
                Seq<char>,
            >(output_views(outputs@)),
            Err(cause) => tuple_output(items@) == Err::<
                Seq<(Seq<i64>, Seq<u8>, Seq<char>)>,
                Seq<char>,
            >(cause@),
        },
{
    let ghost all = items@;
    let mut left = items;
    let total: usize = left.len();
    let mut outputs: Vec<TensorOutput> = Vec::new();
    let mut i: usize = 0;
    proof {
        assert(all.take(0) =~= Seq::empty());
        assert(output_views(outputs@) =~= Seq::empty());
        assert(all.skip(0) =~= all);
    }
    while left.len() > 0
        invariant
            i <= total,
            total == all.len(),
            all == items@,
            left@ == all.skip(i as int),
            tuple_output(all.take(i as int)) == Ok::<
                Seq<(Seq<i64>, Seq<u8>, Seq<char>)>,
                Seq<char>,
            >(output_views(outputs@)),
        decreases left@.len(),
    {
        proof {
            assert(all.take(i + 1).drop_last() =~= all.take(i as int));
            assert(all.take(i + 1).last() == left@[0]);
        }
        let ghost before = outputs@;
        match left.remove(0) {
            TupleItem::Other(shown) => {
                proof {
                    lemma_tuple_fault(all, i + 1);
                }
                return Err(
                    cat2(
                        "Internal torch error: model tuple output element is non-tensor: ",
                        shown.as_str(),
                    ),
                );
            },
            TupleItem::Tensor(raw) => match tensor_to_bytes(raw) {
                Err(cause) => {
                    proof {
                        lemma_tuple_fault(all, i + 1);
                    }
                    return Err(cause);
                },
                Ok(output) => {
                    outputs.push(output);
                    assert(output_views(outputs@) =~= output_views(before).push(
                        (output.0@, output.1@, output.2@),
                    ));
                },
            },
        }
        i = i + 1;
        assert(left@ =~= all.skip(i as int));
    }
    assert(all.take(i as int) =~= all);
    Ok(outputs)
}

/// Serializes the outputs of a model that gives a tensor or a tuple of tensors.
pub fn run_multi_forward_pass(forward: Forward) -> (r: Result<Vec<TensorOutput>, String>)
    ensures
        match r {
            Ok(outputs) => multi_output(forward) == Ok::<
                Seq<(Seq<i64>, Seq<u8>, Seq<char>)>,
                Seq<char>,
            >(output_views(outputs@)),
            Err(cause) => multi_output(forward) == Err::<
                Seq<(Seq<i64>, Seq<u8>, Seq<char>)>,
                Seq<char>,
            >(cause@),
        },
{
    match forward {
        Forward::Failed(cause) => Err(cause),
        Forward::Other(shown) => Err(
            cat2(
                "Internal torch error: model output was neither tensor nor tuple: ",
                shown.as_str(),
            ),
        ),
        Forward::Tensor(raw) => match tensor_to_bytes(raw) {
            Err(cause) => Err(cause),
            Ok(output) => {
                let mut outputs: Vec<TensorOutput> = Vec::new();
                outputs.push(output);
                assert(output_views(outputs@) =~= seq![(output.0@, output.1@, output.2@)]);
                Ok(outputs)
            },
        },
        Forward::Tuple(items) => serialize_tuple(items),
    }
}

/// Serialized outputs under the names that a model declares.
pub open spec fn named(
    names: Seq<Seq<char>>,
    outputs: Seq<(Seq<i64>, Seq<u8>, Seq<char>)>,
) -> Seq<TensorView> {
    Seq::new(
        outputs.len(),
        |i: int|
            TensorView {
                name: torch::output_name(names, i),
                shape: outputs[i].0,
                dtype: outputs[i].2,
                data: outputs[i].1,
            },
    )
}

proof fn lemma_tuple_named(names: Seq<Seq<char>>, items: Seq<TupleItem>)
    ensures
        match tuple_output(items) {
            Err(cause) => torch::tuple_outputs(names, items) == Err::<
                Seq<TensorView>,
                StatusView,
            >(torch::inference_failed(cause)),
            Ok(outputs) => outputs.len() == items.len() && torch::tuple_outputs(names, items)
                == Ok::<Seq<TensorView>, StatusView>(named(names, outputs)),
        },
    decreases items.len(),
{
    if items.len() == 0 {
        assert(named(names, Seq::empty()) =~= Seq::empty());
    } else {
        lemma_tuple_named(names, items.drop_last());
        match tuple_output(items.drop_last()) {
            Err(_) => {},
            Ok(outputs) => match items.last() {
                TupleItem::Other(_) => {},
                TupleItem::Tensor(raw) => match serialized(raw) {
                    Err(_) => {},
                    Ok(output) => {
                        assert(named(names, outputs.push(output)) =~= named(names, outputs).push(
                            TensorView {
                                name: torch::output_name(names, items.len() - 1),
                                shape: output.0,
                                dtype: output.2,
                                data: output.1,
                            },
                        ));
                    },
                },
            },
        }
    }
}

/// A TorchScript model's reply is what its forward pass gave, in order, under the
/// declared names; where the pass gave nothing that can be served, the inference
/// fails for the same cause.
pub proof fn law_reply_is_the_forward_pass(names: Seq<Seq<char>>, forward: Forward)
    ensures
        match multi_output(forward) {
            Err(cause) => torch::forward_outputs(names, forward) == Err::<
                Seq<TensorView>,
                StatusView,
            >(torch::inference_failed(cause)),
            Ok(outputs) => torch::forward_outputs(names, forward) == Ok::<
                Seq<TensorView>,
                StatusView,
            >(named(names, outputs)),
        },
{
    match forward {
        Forward::Tuple(items) => lemma_tuple_named(names, items@),
        Forward::Tensor(raw) => {
            if let Ok(output) = serialized(raw) {
                assert(named(names, seq![output]) =~= seq![
                    TensorView {
                        name: torch::output_name(names, 0),
                        shape: output.0,
                        dtype: output.2,
                        data: output.1,
                    },
                ]);
            }
        },
        _ => {},
    }
}

} // verus!
