//! What the messages of a `Checkpoint` stream carry, in terms of the messages' own
//! fields: a tensor of any length comes out of the client's chunks, and out of the
//! server's, as it went in.

use vstd::prelude::*;

use crate::binding;
use crate::checkpoint;
use crate::checkpoint::{CheckpointView, PayloadView};
use crate::contract;
use crate::contract::ContractView;
use crate::status::Code;
use crate::tensor::TensorView;

verus! {

/// The bytes of all chunks, one after the other.
pub open spec fn all_bytes(messages: Seq<Option<PayloadView>>) -> Seq<u8>
    decreases messages.len(),
{
    if messages.len() == 0 {
        Seq::empty()
    } else {
        all_bytes(messages.drop_last()) + match messages.last() {
            Some(PayloadView::Chunk(chunk)) => chunk.data,
            _ => Seq::empty(),
        }
    }
}

/// Whether a message is a chunk of a tensor of the given shape.
pub open spec fn is_piece(message: Option<PayloadView>, shape: Seq<i64>) -> bool {
    message matches Some(PayloadView::Chunk(chunk)) && chunk.shape == shape
}

/// Whether a message is a chunk that ends its tensor.
pub open spec fn is_end(message: Option<PayloadView>) -> bool {
    message matches Some(PayloadView::Chunk(chunk)) && chunk.end_of_tensor
}

/// Whether messages are the chunks of one tensor of the given shape, none of them
/// behind its end.
pub open spec fn pieces_of(messages: Seq<Option<PayloadView>>, shape: Seq<i64>) -> bool {
    &&& messages.len() > 0
    &&& forall|i: int| 0 <= i < messages.len() ==> is_piece(#[trigger] messages[i], shape)
    &&& forall|i: int| 0 <= i < messages.len() - 1 ==> !is_end(#[trigger] messages[i])
}

/// Whether a client may send a shape for a tensor of the given dimensions: with all
/// of its dimensions allowed, once a batch of one is put in where it was left out.
pub open spec fn may_be_sent(shape: Seq<i64>, dims: Seq<i64>, max_batch_size: i64) -> bool {
    &&& shape.len() > 0
    &&& forall|i: int| 0 <= i < shape.len() ==> #[trigger] shape[i] > 0
    &&& exists|full: Seq<i64>|
        #![trigger binding::batch_put_in(full, shape, dims.len(), max_batch_size)]
        binding::batch_put_in(full, shape, dims.len(), max_batch_size) && binding::allowed(
            full,
            dims,
            max_batch_size,
        )
}

proof fn lemma_one_full(a: Seq<i64>, b: Seq<i64>, given: Seq<i64>, rank: nat, max_batch_size: i64)
    requires
        binding::batch_put_in(a, given, rank, max_batch_size),
        binding::batch_put_in(b, given, rank, max_batch_size),
    ensures
        a == b,
{
    if max_batch_size > 0 && given.len() == rank {
        assert forall|i: int| 0 <= i < a.len() implies a[i] == b[i] by {
            if i > 0 {
                assert(a[i - 1 + 1] == given[i - 1]);
                assert(b[i - 1 + 1] == given[i - 1]);
            }
        }
    }
    assert(a =~= b);
}

/// A shape is accepted exactly if it may be sent.
pub proof fn lemma_may_be_sent(
    dims: Seq<i64>,
    max_batch_size: i64,
    shape: Seq<i64>,
    model: Seq<char>,
)
    ensures
        contract::spec_request_shape(dims, max_batch_size, shape, model) is Ok <==> may_be_sent(
            shape,
            dims,
            max_batch_size,
        ),
        contract::spec_request_shape(dims, max_batch_size, shape, model) matches Err(status)
            ==> status.0 == Code::InvalidArgument,
        binding::batch_put_in(
            contract::normalized(dims, max_batch_size, shape),
            shape,
            dims.len(),
            max_batch_size,
        ),
{
    let full = contract::normalized(dims, max_batch_size, shape);
    binding::law_request_shapes(dims, max_batch_size, shape, model);
    if may_be_sent(shape, dims, max_batch_size) {
        let other = choose|other: Seq<i64>|
            #![trigger binding::batch_put_in(other, shape, dims.len(), max_batch_size)]
            binding::batch_put_in(other, shape, dims.len(), max_batch_size) && binding::allowed(
                other,
                dims,
                max_batch_size,
            );
        lemma_one_full(full, other, shape, dims.len(), max_batch_size);
    }
}

proof fn lemma_collected(
    contract: ContractView,
    model: Seq<char>,
    messages: Seq<Option<PayloadView>>,
    shape: Seq<i64>,
)
    requires
        messages.len() > 0,
        is_piece(messages[0], shape),
    ensures
        ({
            let collected = checkpoint::messages_collected(contract, model, messages);
            &&& collected is Ok <==> pieces_of(messages, shape) && may_be_sent(
                shape,
                contract.inputs[0].dims,
                contract.max_batch_size,
            )
            &&& collected matches Ok(all) ==> {
                &&& all.shape == Some(shape)
                &&& all.data == all_bytes(messages)
                &&& all.ended == is_end(messages.last())
            }
            &&& collected matches Err(status) ==> status.0 == Code::InvalidArgument
        }),
    decreases messages.len(),
{
    let dims = contract.inputs[0].dims;
    let before = messages.drop_last();
    lemma_may_be_sent(dims, contract.max_batch_size, shape, model);
    if messages.len() == 1 {
        reveal_with_fuel(checkpoint::messages_collected, 2);
        reveal_with_fuel(all_bytes, 2);
        assert(messages.last() == messages[0]);
    } else {
        assert(before[0] == messages[0]);
        lemma_collected(contract, model, before, shape);
        let last = messages.last();
        if let Some(PayloadView::Chunk(chunk)) = last {
            lemma_may_be_sent(dims, contract.max_batch_size, chunk.shape, model);
        }
        if pieces_of(messages, shape) {
            assert forall|i: int| 0 <= i < before.len() implies is_piece(
                #[trigger] before[i],
                shape,
            ) by {
                assert(is_piece(messages[i], shape));
            }
            assert forall|i: int| 0 <= i < before.len() - 1 implies !is_end(#[trigger] before[i]) by {
                assert(!is_end(messages[i]));
            }
            assert(!is_end(messages[before.len() - 1]));
            assert(is_piece(messages[messages.len() - 1], shape));
        }
        if pieces_of(before, shape) && is_piece(last, shape) && !is_end(before.last()) {
            assert forall|i: int| 0 <= i < messages.len() implies is_piece(
                #[trigger] messages[i],
                shape,
            ) by {
                if i < before.len() {
                    assert(is_piece(before[i], shape));
                }
            }
            assert forall|i: int| 0 <= i < messages.len() - 1 implies !is_end(
                #[trigger] messages[i],
            ) by {
                if i < before.len() - 1 {
                    assert(!is_end(before[i]));
                }
            }
        }
    }
}

proof fn lemma_bad_start(
    contract: ContractView,
    model: Seq<char>,
    messages: Seq<Option<PayloadView>>,
)
    requires
        messages.len() > 0,
        !(messages[0] matches Some(PayloadView::Chunk(_))),
    ensures
        checkpoint::messages_collected(contract, model, messages) matches Err(status) && status.0
            == Code::InvalidArgument,
    decreases messages.len(),
{
    if messages.len() == 1 {
        reveal_with_fuel(checkpoint::messages_collected, 2);
        assert(messages.last() == messages[0]);
    } else {
        assert(messages.drop_last()[0] == messages[0]);
        lemma_bad_start(contract, model, messages.drop_last());
    }
}

/// Whether a tensor is the one that chunks of the given shape bring: its bytes are
/// those of all the chunks, in their order and however many there are, and its shape
/// is theirs, with a batch of one put in where it was left out.
pub open spec fn brought_by(
    t: TensorView,
    messages: Seq<Option<PayloadView>>,
    shape: Seq<i64>,
    contract: ContractView,
) -> bool {
    &&& t.data == all_bytes(messages)
    &&& binding::batch_put_in(
        t.shape,
        shape,
        contract.inputs[0].dims.len(),
        contract.max_batch_size,
    )
    &&& binding::allowed(t.shape, contract.inputs[0].dims, contract.max_batch_size)
    &&& t.name == "input"@
    &&& t.dtype == "float32"@
}

/// The messages after the first bring a tensor exactly if they are the chunks of one
/// tensor, of a shape that the model takes; and then they bring that tensor, with the
/// bytes of all of them.
pub proof fn law_collected_tensor(
    contract: ContractView,
    model: Seq<char>,
    messages: Seq<Option<PayloadView>>,
    shape: Seq<i64>,
)
    requires
        contract.inputs.len() > 0,
        messages.len() > 0,
        is_piece(messages[0], shape),
    ensures
        checkpoint::spec_collect_input(contract, model, messages) is Ok <==> pieces_of(
            messages,
            shape,
        ) && may_be_sent(shape, contract.inputs[0].dims, contract.max_batch_size),
        checkpoint::spec_collect_input(contract, model, messages) matches Ok(t) ==> brought_by(
            t,
            messages,
            shape,
            contract,
        ),
        checkpoint::spec_collect_input(contract, model, messages) matches Err(status) ==> status.0
            == Code::InvalidArgument,
{
    let dims = contract.inputs[0].dims;
    lemma_collected(contract, model, messages, shape);
    lemma_may_be_sent(dims, contract.max_batch_size, shape, model);
    binding::law_request_shapes(dims, contract.max_batch_size, shape, model);
}

/// Without a chunk, or with something else than a chunk before the first one, the
/// messages bring no tensor: they are an invalid argument. For a model without an
/// input they bring none either, which is the model's fault.
pub proof fn law_nothing_collected(
    contract: ContractView,
    model: Seq<char>,
    messages: Seq<Option<PayloadView>>,
)
    requires
        contract.inputs.len() == 0 || messages.len() == 0 || !(messages[0] matches Some(
            PayloadView::Chunk(_),
        )),
    ensures
        checkpoint::spec_collect_input(contract, model, messages) matches Err(status) && status.0
            == if contract.inputs.len() == 0 {
            Code::Internal
        } else {
            Code::InvalidArgument
        },
{
    if contract.inputs.len() > 0 && messages.len() > 0 {
        lemma_bad_start(contract, model, messages);
    }
}

/// A tensor as a client reads it from a stream.
#[verifier::ext_equal]
pub struct ReadView {
    pub name: Seq<char>,
    pub shape: Seq<i64>,
    pub data: Seq<u8>,
}

/// The tensors that a client has read from a stream, and the one that it is reading.
/// A client takes a tensor's name and shape from its first chunk, and its bytes from
/// all of them up to the one that ends it.
pub open spec fn read(messages: Seq<CheckpointView>) -> (Seq<ReadView>, Option<ReadView>)
    decreases messages.len(),
{
    if messages.len() == 0 {
        (Seq::empty(), None)
    } else {
        let (complete, open) = read(messages.drop_last());
        match messages.last().output_chunk {
            None => (complete, open),
            Some(chunk) => {
                let t = match open {
                    None => ReadView {
                        name: chunk.tensor_name,
                        shape: chunk.shape,
                        data: chunk.data,
                    },
                    Some(t) => ReadView { name: t.name, shape: t.shape, data: t.data + chunk.data },
                };
                if chunk.end_of_tensor {
                    (complete.push(t), None)
                } else {
                    (complete, Some(t))
                }
            },
        }
    }
}

/// The tensors of a model's outputs, as a client is to read them.
pub open spec fn to_be_read(outputs: Seq<TensorView>) -> Seq<ReadView> {
    Seq::new(
        outputs.len(),
        |i: int|
            ReadView { name: outputs[i].name, shape: outputs[i].shape, data: outputs[i].data },
    )
}

/// What a client has read after the first chunks of a tensor.
pub proof fn lemma_read_pieces(above: Seq<CheckpointView>, t: TensorView, count: nat)
    requires
        count <= checkpoint::chunk_count(t.data.len()),
        read(above).1 is None,
    ensures
        ({
            let pieces = checkpoint::tensor_messages(t.name, t.shape, t.data).take(count as int);
            read(above + pieces) == if count == 0 {
                read(above)
            } else if count < checkpoint::chunk_count(t.data.len()) {
                (
                    read(above).0,
                    Some(
                        ReadView {
                            name: t.name,
                            shape: t.shape,
                            data: checkpoint::put_together(t.name, t.shape, t.data, count),
                        },
                    ),
                )
            } else {
                (
                    read(above).0.push(ReadView { name: t.name, shape: t.shape, data: t.data }),
                    None,
                )
            }
        }),
    decreases count,
{
    let all = checkpoint::tensor_messages(t.name, t.shape, t.data);
    let pieces = all.take(count as int);
    if count == 0 {
        assert(above + pieces =~= above);
    } else {
        let i = count - 1;
        let chunk = checkpoint::output_chunk(t.name, t.shape, t.data, i);
        lemma_read_pieces(above, t, i as nat);
        assert((above + pieces).drop_last() =~= above + all.take(i));
        assert((above + pieces).last() == all[i]);
        assert(all[i] == checkpoint::chunk_message(chunk));
        assert(checkpoint::put_together(t.name, t.shape, t.data, count) =~= if i == 0 {
            chunk.data
        } else {
            checkpoint::put_together(t.name, t.shape, t.data, i as nat) + chunk.data
        }) by {
            if i == 0 {
                reveal_with_fuel(checkpoint::put_together, 2);
            }
        }
        if count == checkpoint::chunk_count(t.data.len()) {
            checkpoint::lemma_chunks_prefix(t.name, t.shape, t.data, count);
            assert(t.data.take(t.data.len() as int) =~= t.data);
        }
    }
}

proof fn lemma_read_outputs(above: Seq<CheckpointView>, outputs: Seq<TensorView>)
    requires
        read(above) == (Seq::<ReadView>::empty(), None::<ReadView>),
    ensures
        read(above + checkpoint::outputs_messages(outputs)) == (
            to_be_read(outputs),
            None::<ReadView>,
        ),
        forall|i: int|
            0 <= i < checkpoint::outputs_messages(outputs).len()
                ==> !(#[trigger] checkpoint::outputs_messages(outputs)[i]).done,
    decreases outputs.len(),
{
    let messages = checkpoint::outputs_messages(outputs);
    if outputs.len() == 0 {
        assert(above + messages =~= above);
        assert(to_be_read(outputs) =~= Seq::empty());
    } else {
        let t = outputs.last();
        let before = checkpoint::outputs_messages(outputs.drop_last());
        let pieces = checkpoint::tensor_messages(t.name, t.shape, t.data);
        let count = checkpoint::chunk_count(t.data.len());
        lemma_read_outputs(above, outputs.drop_last());
        lemma_read_pieces(above + before, t, count);
        assert(pieces.take(count as int) =~= pieces);
        assert(above + messages =~= above + before + pieces);
        assert(to_be_read(outputs) =~= to_be_read(outputs.drop_last()).push(
            ReadView { name: t.name, shape: t.shape, data: t.data },
        ));
        assert forall|i: int| 0 <= i < messages.len() implies !(#[trigger] messages[i]).done by {
            if i < before.len() {
                assert(messages[i] == before[i]);
            } else {
                assert(messages[i] == pieces[i - before.len()]);
            }
        }
    }
}

/// A client reads from the stream of a completed inference the very outputs of the
/// model, in their order: their names, their shapes, and all of their bytes. The
/// stream begins with a line of text and ends, as no message before, with the message
/// that says so, with an exit code of zero.
pub proof fn law_stream_read_back(model: Seq<char>, outputs: Seq<TensorView>)
    ensures
        read(checkpoint::spec_stream_outputs(model, outputs)) == (
            to_be_read(outputs),
            None::<ReadView>,
        ),
        checkpoint::spec_stream_outputs(model, outputs).len() >= 2,
        checkpoint::spec_stream_outputs(model, outputs)[0].chunk
            == "inference completed for model '"@ + model + "'"@,
        checkpoint::spec_stream_outputs(model, outputs).last().exit_code == 0,
        forall|i: int|
            0 <= i < checkpoint::spec_stream_outputs(model, outputs).len()
                ==> (#[trigger] checkpoint::spec_stream_outputs(model, outputs)[i]).done == (i
                == checkpoint::spec_stream_outputs(model, outputs).len() - 1),
        forall|i: int|
            0 < i < checkpoint::spec_stream_outputs(model, outputs).len()
                ==> (#[trigger] checkpoint::spec_stream_outputs(model, outputs)[i]).chunk.len()
                == 0,
{
    let all = checkpoint::spec_stream_outputs(model, outputs);
    let line = checkpoint::text_message("inference completed for model '"@ + model + "'"@);
    let first = seq![line];
    let middle = checkpoint::outputs_messages(outputs);
    reveal_with_fuel(read, 2);
    assert(first.drop_last() =~= Seq::empty());
    assert(first.last() == line);
    assert(read(first) == (Seq::<ReadView>::empty(), None::<ReadView>));
    lemma_read_outputs(first, outputs);
    lemma_silent(outputs);
    assert(all.drop_last() =~= first + middle);
    assert(all.last() == checkpoint::done_message(0));
    assert forall|i: int| 0 < i < all.len() - 1 implies #[trigger] all[i] == middle[i - 1] by {}
}

proof fn lemma_silent(outputs: Seq<TensorView>)
    ensures
        forall|i: int|
            0 <= i < checkpoint::outputs_messages(outputs).len() ==> (
            #[trigger] checkpoint::outputs_messages(outputs)[i]).chunk.len() == 0,
    decreases outputs.len(),
{
    let messages = checkpoint::outputs_messages(outputs);
    if outputs.len() > 0 {
        let t = outputs.last();
        let before = checkpoint::outputs_messages(outputs.drop_last());
        let pieces = checkpoint::tensor_messages(t.name, t.shape, t.data);
        lemma_silent(outputs.drop_last());
        assert forall|i: int| 0 <= i < messages.len() implies (#[trigger] messages[i]).chunk.len()
            == 0 by {
            if i < before.len() {
                assert(messages[i] == before[i]);
            } else {
                assert(messages[i] == pieces[i - before.len()]);
            }
        }
    }
}

/// The messages of a tensor are its pieces, numbered from zero and under its name and
/// shape: all of 64 KiB but for the last, which holds no more and, alone, ends the tensor.
pub proof fn law_pieces(name: Seq<char>, shape: Seq<i64>, data: Seq<u8>, i: int)
    requires
        0 <= i < checkpoint::tensor_messages(name, shape, data).len() <= u64::MAX,
    ensures
        ({
            let messages = checkpoint::tensor_messages(name, shape, data);
            match messages[i].output_chunk {
                Some(chunk) => {
                    &&& chunk.tensor_name == name
                    &&& chunk.shape == shape
                    &&& chunk.chunk_index == i
                    &&& chunk.end_of_tensor == (i == messages.len() - 1)
                    &&& i < messages.len() - 1 ==> chunk.data.len() == 65536
                    &&& chunk.data.len() <= 65536
                },
                None => false,
            }
        }),
{
    let count = checkpoint::chunk_count(data.len());
    assert(checkpoint::tensor_messages(name, shape, data).len() == count);
}

} // verus!
