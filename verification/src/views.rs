//! What contracts see of a value: all of its fields, each under its own name, and all
//! items of its lists, each at its own place.

use vstd::prelude::*;

use crate::backends;
use crate::checkpoint;
use crate::checkpoint::{CheckpointResponse, Payload, PayloadView, TensorChunk};
use crate::child;
use crate::contract::{Contract, TensorSpec};
use crate::engine;
use crate::manager;
use crate::registry::BackendRegistration;
use crate::relay;
use crate::runtime::{HandleView, InputShapeContract, ModelHandle};
use crate::status;
use crate::status::{Status, StatusView};
use crate::tensor;
use crate::tensor::Tensor;
use crate::text;
use crate::triton::{
    InferInputTensor, InferOutputTensor, ModelInferRequest, ModelInferResponse, ModelMetadata,
    TensorMetadata,
};

verus! {

/// A list of texts is seen text by text.
pub proof fn law_texts_seen(list: Seq<String>, i: int)
    requires
        0 <= i < list.len(),
    ensures
        text::texts(list).len() == list.len(),
        text::texts(list)[i] == list[i]@,
{
}

/// A tensor is seen with its name, its shape, its type and its bytes, and a list of
/// tensors tensor by tensor.
pub proof fn law_tensors_seen(tensors: Seq<Tensor>, i: int)
    requires
        0 <= i < tensors.len(),
    ensures
        tensor::tensor_views(tensors).len() == tensors.len(),
        ({
            let seen = tensor::tensor_views(tensors)[i];
            &&& seen.name == tensors[i].name@
            &&& seen.shape == tensors[i].shape@
            &&& seen.dtype == tensors[i].dtype@
            &&& seen.data == tensors[i].data@
        }),
        tensor::optional_view(Some(tensors[i])) == Some(tensors[i]@),
        tensor::optional_view(None) is None,
        manager::input_list(Some(tensors[i])).len() == 1,
        manager::input_list(Some(tensors[i]))[0] == tensors[i]@,
        manager::input_list(None).len() == 0,
{
}

/// An input of a request is seen with its name, its datatype, its shape and its typed
/// contents.
pub proof fn law_input_seen(input: InferInputTensor)
    ensures
        input@.name == input.name@,
        input@.datatype == input.datatype@,
        input@.shape == input.shape@,
        match (input.contents, input@.contents) {
            (Some(words), Some(seen)) => seen == words@,
            (None, None) => true,
            _ => false,
        },
{
}

/// A request is seen with all of its fields, and its inputs, outputs and buffers one by
/// one.
pub proof fn law_request_seen(request: ModelInferRequest)
    ensures
        request@.model_name == request.model_name@,
        request@.model_version == request.model_version@,
        request@.id == request.id@,
        request@.inputs.len() == request.inputs@.len(),
        forall|i: int|
            0 <= i < request.inputs@.len() ==> request@.inputs[i] == (#[trigger] request.inputs@[i])@,
        request@.outputs.len() == request.outputs@.len(),
        forall|i: int|
            0 <= i < request.outputs@.len() ==> request@.outputs[i] == (
            #[trigger] request.outputs@[i])@,
        request@.raw_input_contents.len() == request.raw_input_contents@.len(),
        forall|i: int|
            0 <= i < request.raw_input_contents@.len() ==> request@.raw_input_contents[i] == (
            #[trigger] request.raw_input_contents@[i])@,
{
}

/// A response is seen with all of its fields, and its outputs and buffers one by one.
pub proof fn law_response_seen(response: ModelInferResponse)
    ensures
        response@.model_name == response.model_name@,
        response@.model_version == response.model_version@,
        response@.id == response.id@,
        response@.outputs.len() == response.outputs@.len(),
        forall|i: int|
            0 <= i < response.outputs@.len() ==> response@.outputs[i] == (
            #[trigger] response.outputs@[i])@,
        response@.raw_output_contents.len() == response.raw_output_contents@.len(),
        forall|i: int|
            0 <= i < response.raw_output_contents@.len() ==> response@.raw_output_contents[i] == (
            #[trigger] response.raw_output_contents@[i])@,
{
}

/// An output of a response, and a described tensor, is seen with its name, its datatype
/// and its shape.
pub proof fn law_output_seen(output: InferOutputTensor, described: TensorMetadata)
    ensures
        output@.name == output.name@,
        output@.datatype == output.datatype@,
        output@.shape == output.shape@,
        described@.name == described.name@,
        described@.datatype == described.datatype@,
        described@.shape == described.shape@,
{
}

/// The description of a model is seen with all of its fields, and its tensors one by
/// one.
pub proof fn law_description_seen(described: ModelMetadata)
    ensures
        described@.name == described.name@,
        described@.platform == described.platform@,
        described@.versions == text::texts(described.versions@),
        described@.inputs.len() == described.inputs@.len(),
        forall|i: int|
            0 <= i < described.inputs@.len() ==> described@.inputs[i] == (
            #[trigger] described.inputs@[i])@,
        described@.outputs.len() == described.outputs@.len(),
        forall|i: int|
            0 <= i < described.outputs@.len() ==> described@.outputs[i] == (
            #[trigger] described.outputs@[i])@,
{
}

/// A contract is seen with its batch maximum, its strictness and its tensors one by one:
/// their names, datatypes and dimensions.
pub proof fn law_contract_seen(contract: Contract, spec: TensorSpec)
    ensures
        spec@.name == spec.name@,
        spec@.dtype == spec.dtype@,
        spec@.dims == spec.dims@,
        contract@.max_batch_size == contract.max_batch_size,
        contract@.strict_output_dtype == contract.strict_output_dtype,
        contract@.inputs.len() == contract.inputs@.len(),
        forall|i: int|
            0 <= i < contract.inputs@.len() ==> contract@.inputs[i] == (
            #[trigger] contract.inputs@[i])@,
        contract@.outputs.len() == contract.outputs@.len(),
        forall|i: int|
            0 <= i < contract.outputs@.len() ==> contract@.outputs[i] == (
            #[trigger] contract.outputs@[i])@,
{
}

/// A chunk is seen with all of its fields.
pub proof fn law_chunk_seen(chunk: TensorChunk)
    ensures
        chunk@.tensor_name == chunk.tensor_name@,
        chunk@.shape == chunk.shape@,
        chunk@.data == chunk.data@,
        chunk@.chunk_index == chunk.chunk_index,
        chunk@.end_of_tensor == chunk.end_of_tensor,
{
}

/// A message of the client is seen as what it is, with its name or its chunk, and a list
/// of messages one by one.
pub proof fn law_payload_seen(messages: Seq<Option<Payload>>, i: int)
    requires
        0 <= i < messages.len(),
    ensures
        checkpoint::payload_views(messages).len() == messages.len(),
        match (messages[i], checkpoint::payload_views(messages)[i]) {
            (None, None) => true,
            (Some(Payload::Meta { model_name }), Some(PayloadView::Meta { model_name: seen })) =>
            seen == model_name@,
            (Some(Payload::Chunk(chunk)), Some(PayloadView::Chunk(seen))) => seen == chunk@,
            _ => false,
        },
{
}

/// A message of the server is seen with all of its fields, and a list of them one by one.
pub proof fn law_message_seen(messages: Seq<CheckpointResponse>, i: int)
    requires
        0 <= i < messages.len(),
    ensures
        checkpoint::response_views(messages).len() == messages.len(),
        ({
            let seen = checkpoint::response_views(messages)[i];
            &&& seen.chunk == messages[i].chunk@
            &&& seen.done == messages[i].done
            &&& seen.exit_code == messages[i].exit_code
            &&& match (messages[i].output_chunk, seen.output_chunk) {
                (Some(chunk), Some(shown)) => shown == chunk@,
                (None, None) => true,
                _ => false,
            }
        }),
        relay::item_view(Ok(messages[i])) == Ok::<checkpoint::CheckpointView, StatusView>(
            checkpoint::response_views(messages)[i],
        ),
{
}

/// A status is seen with its code and its message; and an outcome is the expected one
/// exactly if both are good, or both are the same status.
pub proof fn law_status_seen(status: Status, expected: Result<(), StatusView>)
    ensures
        status@.0 == status.code,
        status@.1 == status.message@,
        status::same_outcome(Err(status), expected) <==> expected == Err::<(), StatusView>(status@),
        status::same_outcome(Ok(()), expected) <==> expected is Ok,
        relay::item_view(Err(status)) == Err::<checkpoint::CheckpointView, StatusView>(status@),
{
}

/// An environment is seen variable by variable, and so is what a model is fed, tensor by
/// tensor.
pub proof fn law_pairs_seen(env: Seq<(String, String)>, feeds: Seq<(String, Tensor)>, i: int)
    ensures
        child::env_views(env).len() == env.len(),
        0 <= i < env.len() ==> child::env_views(env)[i] == (env[i].0@, env[i].1@),
        engine::feed_views(feeds).len() == feeds.len(),
        0 <= i < feeds.len() ==> engine::feed_views(feeds)[i] == (feeds[i].0@, feeds[i].1@),
{
}

/// A backend is seen with all that it registers.
pub proof fn law_registration_seen(all: Seq<BackendRegistration>, i: int)
    requires
        0 <= i < all.len(),
    ensures
        backends::registration_views(all).len() == all.len(),
        ({
            let seen = backends::registration_views(all)[i];
            &&& seen.name == all[i].name@
            &&& seen.version == all[i].version@
            &&& seen.describes == all[i].describes@
            &&& seen.auto_detect == all[i].auto_detect
            &&& seen.aliases == text::texts(all[i].aliases@)
            &&& seen.files == text::texts(all[i].signature.files@)
            &&& seen.either == text::texts(all[i].signature.either@)
            &&& seen.dirs == text::texts(all[i].signature.dirs@)
            &&& match (seen.extension, all[i].signature.extension) {
                (Some(shown), Some(ext)) => shown == ext@,
                (None, None) => true,
                _ => false,
            }
        }),
{
}

/// The shapes of a model are seen as they are, and so is its handle.
pub proof fn law_handle_seen(shapes: InputShapeContract, handle: ModelHandle)
    ensures
        shapes@.max_batch_size == shapes.max_batch_size,
        match (shapes.input_shape, shapes@.input) {
            (Some(dims), Some(seen)) => seen == dims@,
            (None, None) => true,
            _ => false,
        },
        match (shapes.output_shape, shapes@.output) {
            (Some(dims), Some(seen)) => seen == dims@,
            (None, None) => true,
            _ => false,
        },
        match (handle, handle@) {
            (
                ModelHandle::Rust { contract, queue_capacity, occupancy },
                HandleView::Rust { contract: c, queue_capacity: q, occupancy: o },
            ) => c == contract@ && q == queue_capacity && o == occupancy,
            (
                ModelHandle::Python { contract, model_dir },
                HandleView::Python { contract: c, model_dir: d },
            ) => c == contract@ && d == model_dir@,
            _ => false,
        },
{
}

} // verus!
