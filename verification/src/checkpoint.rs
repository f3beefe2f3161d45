//! The `Checkpoint` stream: collecting the input tensor from the client's
//! messages, and cutting an output tensor into the server's.
//!
//! A chunk carries no datatype: tensors on this path are 32-bit floats.

use vstd::prelude::*;
use vstd::slice::slice_subrange;

use crate::contract;
use crate::contract::{Contract, ContractView};
use crate::status::{Code, Status, StatusView};
use crate::tensor;
use crate::tensor::{copy_bytes, copy_dims, same_dims, Tensor, TensorView};
use crate::text;
use crate::text::{cat3, trimmed_str};

verus! {

/// How many bytes a chunk of an output holds at most.
pub const OUTPUT_CHUNK_BYTES: usize = 65536;

/// A piece of a tensor.
#[derive(Debug)]
pub struct TensorChunk {
    pub tensor_name: String,
    pub shape: Vec<i64>,
    pub data: Vec<u8>,
    pub chunk_index: u64,
    pub end_of_tensor: bool,
}

/// A [`TensorChunk`] as contracts see it.
#[verifier::ext_equal]
pub struct ChunkView {
    pub tensor_name: Seq<char>,
    pub shape: Seq<i64>,
    pub data: Seq<u8>,
    pub chunk_index: u64,
    pub end_of_tensor: bool,
}

impl View for TensorChunk {
    type V = ChunkView;

    open spec fn view(&self) -> ChunkView {
        ChunkView {
            tensor_name: self.tensor_name@,
            shape: self.shape@,
            data: self.data@,
            chunk_index: self.chunk_index,
            end_of_tensor: self.end_of_tensor,
        }
    }
}

/// What a client's message carries: the name of the model, or a piece of the
/// input tensor.
#[derive(Debug)]
pub enum Payload {
    Meta { model_name: String },
    Chunk(TensorChunk),
}

/// A [`Payload`] as contracts see it.
#[verifier::ext_equal]
pub enum PayloadView {
    Meta { model_name: Seq<char> },
    Chunk(ChunkView),
}

impl View for Payload {
    type V = PayloadView;

    open spec fn view(&self) -> PayloadView {
        match self {
            Payload::Meta { model_name } => PayloadView::Meta { model_name: model_name@ },
            Payload::Chunk(chunk) => PayloadView::Chunk(chunk@),
        }
    }
}

/// What an optional payload holds.
pub open spec fn payload_view(payload: Option<Payload>) -> Option<PayloadView> {
    match payload {
        Some(p) => Some(p@),
        None => None,
    }
}

/// What a list of messages holds.
pub open spec fn payload_views(messages: Seq<Option<Payload>>) -> Seq<Option<PayloadView>> {
    Seq::new(messages.len(), |i: int| payload_view(messages[i]))
}

fn bad_message(text: &str) -> (r: Status)
    ensures
        r@ == (Code::InvalidArgument, text@),
{
    Status::invalid_argument(text.to_string())
}

/// The model that the first message of a stream names, without the white space
/// around its name; or why the stream cannot begin so. `None` stands for a stream
/// without messages, `Some(None)` for a message without a payload.
pub open spec fn spec_first_message(first: Option<Option<PayloadView>>) -> Result<
    Seq<char>,
    StatusView,
> {
    match first {
        None => Err(
            (
                Code::InvalidArgument,
                "checkpoint stream is empty; first message must include metadata"@,
            ),
        ),
        Some(None) => Err(
            (Code::InvalidArgument, "first checkpoint stream message has no payload"@),
        ),
        Some(Some(PayloadView::Chunk(_))) => Err(
            (Code::InvalidArgument, "first checkpoint stream message must be metadata"@),
        ),
        Some(Some(PayloadView::Meta { model_name })) => {
            let name = text::trim(model_name);
            if name.len() == 0 {
                Err((Code::InvalidArgument, "model_name is required"@))
            } else {
                Ok(name)
            }
        },
    }
}

/// Reads the first message of a stream.
pub fn read_first_message(first: Option<Option<Payload>>) -> (r: Result<String, Status>)
    ensures
        ({
            let expected = spec_first_message(
                match first {
                    None => None,
                    Some(payload) => Some(payload_view(payload)),
                },
            );
            match r {
                Ok(name) => expected == Ok::<Seq<char>, StatusView>(name@),
                Err(e) => expected == Err::<Seq<char>, StatusView>(e@),
            }
        }),
{
    match first {
        None => Err(
            bad_message("checkpoint stream is empty; first message must include metadata"),
        ),
        Some(None) => Err(bad_message("first checkpoint stream message has no payload")),
        Some(Some(Payload::Chunk(_))) => Err(
            bad_message("first checkpoint stream message must be metadata"),
        ),
        Some(Some(Payload::Meta { model_name })) => {
            let name = trimmed_str(model_name.as_str());
            if name.as_str().is_empty() {
                Err(bad_message("model_name is required"))
            } else {
                Ok(name)
            }
        },
    }
}

/// What the messages after the first have brought so far: the shape that they
/// agree on, the bytes, and whether the tensor has ended.
#[verifier::ext_equal]
pub struct CollectedView {
    pub shape: Option<Seq<i64>>,
    pub data: Seq<u8>,
    pub ended: bool,
}

/// Nothing collected yet.
pub open spec fn collected_nothing() -> CollectedView {
    CollectedView { shape: None, data: Seq::empty(), ended: false }
}

/// What a chunk adds to `before`, or why it is refused.
pub open spec fn chunk_collected(
    contract: ContractView,
    model: Seq<char>,
    before: CollectedView,
    chunk: ChunkView,
) -> Result<CollectedView, StatusView> {
    if before.ended {
        Err((Code::InvalidArgument, "received tensor chunk after end_of_tensor=true"@))
    } else {
        match contract::spec_request_shape(
            contract.inputs[0].dims,
            contract.max_batch_size,
            chunk.shape,
            model,
        ) {
            Err(e) => Err(e),
            Ok(_) => if before.shape matches Some(shape) && shape != chunk.shape {
                Err(
                    (
                        Code::InvalidArgument,
                        "tensor chunk shape changed within one checkpoint request"@,
                    ),
                )
            } else {
                Ok(
                    CollectedView {
                        shape: Some(chunk.shape),
                        data: before.data + chunk.data,
                        ended: chunk.end_of_tensor,
                    },
                )
            },
        }
    }
}

/// What a message adds to `before`, or why it is refused.
pub open spec fn message_collected(
    contract: ContractView,
    model: Seq<char>,
    before: CollectedView,
    payload: Option<PayloadView>,
) -> Result<CollectedView, StatusView> {
    match payload {
        None => Err((Code::InvalidArgument, "checkpoint stream message has no payload"@)),
        Some(PayloadView::Meta { .. }) => Err(
            (
                Code::InvalidArgument,
                "metadata can only be sent as the first checkpoint stream message"@,
            ),
        ),
        Some(PayloadView::Chunk(chunk)) => chunk_collected(contract, model, before, chunk),
    }
}

/// What the messages bring in all, or why the first bad one is refused.
pub open spec fn messages_collected(
    contract: ContractView,
    model: Seq<char>,
    messages: Seq<Option<PayloadView>>,
) -> Result<CollectedView, StatusView>
    decreases messages.len(),
{
    if messages.len() == 0 {
        Ok(collected_nothing())
    } else {
        match messages_collected(contract, model, messages.drop_last()) {
            Err(e) => Err(e),
            Ok(before) => message_collected(contract, model, before, messages.last()),
        }
    }
}

/// The input tensor that was collected: of 32-bit floats, and with a batch
/// dimension of one where the client left the declared one out.
pub open spec fn collected_tensor(contract: ContractView, collected: CollectedView) -> Result<
    TensorView,
    StatusView,
> {
    match collected.shape {
        None => Err((Code::InvalidArgument, "no tensor chunks provided"@)),
        Some(shape) => Ok(
            TensorView {
                name: "input"@,
                shape: contract::normalized(
                    contract.inputs[0].dims,
                    contract.max_batch_size,
                    shape,
                ),
                dtype: "float32"@,
                data: collected.data,
            },
        ),
    }
}

/// The complaint about collecting an input for a model that has none.
pub open spec fn no_declared_input(model: Seq<char>) -> StatusView {
    (Code::Internal, "model '"@ + model + "' has no declared input tensor"@)
}

/// The input tensor that the messages after the first bring, or why they bring
/// none.
pub open spec fn spec_collect_input(
    contract: ContractView,
    model: Seq<char>,
    messages: Seq<Option<PayloadView>>,
) -> Result<TensorView, StatusView> {
    if contract.inputs.len() == 0 {
        Err(no_declared_input(model))
    } else {
        match messages_collected(contract, model, messages) {
            Err(e) => Err(e),
            Ok(collected) => collected_tensor(contract, collected),
        }
    }
}

/// Collects the input tensor of a model, message by message.
#[derive(Debug)]
pub struct TensorCollector {
    shape: Option<Vec<i64>>,
    data: Vec<u8>,
    ended: bool,
}

impl View for TensorCollector {
    type V = CollectedView;

    closed spec fn view(&self) -> CollectedView {
        CollectedView {
            shape: match self.shape {
                Some(shape) => Some(shape@),
                None => None,
            },
            data: self.data@,
            ended: self.ended,
        }
    }
}

impl TensorCollector {
    /// Begins to collect, for a model that has an input.
    pub fn start(contract: &Contract, model_name: &str) -> (r: Result<TensorCollector, Status>)
        ensures
            if contract@.inputs.len() == 0 {
                r matches Err(e) && e@ == no_declared_input(model_name@)
            } else {
                r matches Ok(collector) && collector@ == collected_nothing()
            },
    {
        if contract.inputs.len() == 0 {
            return Err(
                Status::internal(
                    cat3("model '", model_name, "' has no declared input tensor"),
                ),
            );
        }
        Ok(TensorCollector { shape: None, data: Vec::new(), ended: false })
    }

    /// Takes in the next message.
    pub fn accept(
        &mut self,
        contract: &Contract,
        model_name: &str,
        payload: &Option<Payload>,
    ) -> (r: Result<(), Status>)
        requires
            contract@.inputs.len() > 0,
        ensures
            match r {
                Ok(_) => message_collected(
                    contract@,
                    model_name@,
                    old(self)@,
                    payload_view(*payload),
                ) == Ok::<CollectedView, StatusView>(final(self)@),
                Err(e) => message_collected(
                    contract@,
                    model_name@,
                    old(self)@,
                    payload_view(*payload),
                ) == Err::<CollectedView, StatusView>(e@),
            },
    {
        let chunk = match payload {
            None => {
                return Err(bad_message("checkpoint stream message has no payload"));
            },
            Some(Payload::Meta { .. }) => {
                return Err(
                    bad_message("metadata can only be sent as the first checkpoint stream message"),
                );
            },
            Some(Payload::Chunk(chunk)) => chunk,
        };
        if self.ended {
            return Err(bad_message("received tensor chunk after end_of_tensor=true"));
        }
        match contract.validate_input_shape(
            &contract.inputs[0],
            chunk.shape.as_slice(),
            model_name,
        ) {
            Err(e) => {
                return Err(e);
            },
            Ok(_) => {},
        }
        if let Some(shape) = &self.shape {
            if !same_dims(shape.as_slice(), chunk.shape.as_slice()) {
                return Err(
                    bad_message("tensor chunk shape changed within one checkpoint request"),
                );
            }
        }
        self.shape = Some(copy_dims(chunk.shape.as_slice()));
        let ghost before = self.data@;
        self.data.extend_from_slice(chunk.data.as_slice());
        assert(self.data@ =~= before + chunk.data@);
        self.ended = chunk.end_of_tensor;
        Ok(())
    }

    /// Gives the collected tensor once the stream has ended.
    pub fn finish(self, contract: &Contract) -> (r: Result<Tensor, Status>)
        requires
            contract@.inputs.len() > 0,
        ensures
            match r {
                Ok(tensor) => collected_tensor(contract@, self@) == Ok::<TensorView, StatusView>(
                    tensor@,
                ),
                Err(e) => collected_tensor(contract@, self@) == Err::<TensorView, StatusView>(e@),
            },
    {
        match self.shape {
            None => Err(bad_message("no tensor chunks provided")),
            Some(shape) => Ok(
                Tensor {
                    name: "input".to_string(),
                    shape: contract.normalize_request_shape(&contract.inputs[0], shape),
                    dtype: "float32".to_string(),
                    data: self.data,
                },
            ),
        }
    }
}

proof fn lemma_messages_fault(
    contract: ContractView,
    model: Seq<char>,
    messages: Seq<Option<PayloadView>>,
    k: int,
)
    requires
        0 <= k <= messages.len(),
        messages_collected(contract, model, messages.take(k)) is Err,
    ensures
        messages_collected(contract, model, messages) == messages_collected(
            contract,
            model,
            messages.take(k),
        ),
    decreases messages.len() - k,
{
    if k == messages.len() {
        assert(messages.take(k) =~= messages);
    } else {
        assert(messages.take(k + 1).drop_last() =~= messages.take(k));
        lemma_messages_fault(contract, model, messages, k + 1);
    }
}

/// Collects the input tensor from all messages that follow the first.
pub fn collect_input_tensor(
    messages: &Vec<Option<Payload>>,
    contract: &Contract,
    model_name: &str,
) -> (r: Result<Tensor, Status>)
    ensures
        match r {
            Ok(tensor) => spec_collect_input(contract@, model_name@, payload_views(messages@))
                == Ok::<TensorView, StatusView>(tensor@),
            Err(e) => spec_collect_input(contract@, model_name@, payload_views(messages@)) == Err::<
                TensorView,
                StatusView,
            >(e@),
        },
{
    let mut collector = match TensorCollector::start(contract, model_name) {
        Err(e) => {
            return Err(e);
        },
        Ok(collector) => collector,
    };
    let ghost all = payload_views(messages@);
    let mut i: usize = 0;
    assert(all.take(0) =~= Seq::empty());
    while i < messages.len()
        invariant
            i <= messages@.len(),
            all == payload_views(messages@),
            contract@.inputs.len() > 0,
            messages_collected(contract@, model_name@, all.take(i as int)) == Ok::<
                CollectedView,
                StatusView,
            >(collector@),
        decreases messages@.len() - i,
    {
        proof {
            assert(all.take(i + 1).drop_last() =~= all.take(i as int));
            assert(all.take(i + 1).last() == payload_view(messages@[i as int]));
        }
        match collector.accept(contract, model_name, &messages[i]) {
            Err(e) => {
                proof {
                    lemma_messages_fault(contract@, model_name@, all, i + 1);
                }
                return Err(e);
            },
            Ok(_) => {},
        }
        i = i + 1;
    }
    assert(all.take(i as int) =~= all);
    collector.finish(contract)
}

/// Collecting does not depend on how the client cuts the tensor into chunks:
/// two chunks in a row bring, or are refused, what one chunk with the bytes of
/// both brings or is refused.
pub proof fn law_chunks_may_be_cut(
    contract: ContractView,
    model: Seq<char>,
    above: Seq<Option<PayloadView>>,
    whole: ChunkView,
    first: ChunkView,
    second: ChunkView,
    below: Seq<Option<PayloadView>>,
)
    requires
        first.shape == whole.shape,
        second.shape == whole.shape,
        whole.data == first.data + second.data,
        !first.end_of_tensor,
        second.end_of_tensor == whole.end_of_tensor,
    ensures
        spec_collect_input(
            contract,
            model,
            above + seq![Some(PayloadView::Chunk(first)), Some(PayloadView::Chunk(second))] + below,
        ) == spec_collect_input(
            contract,
            model,
            above + seq![Some(PayloadView::Chunk(whole))] + below,
        ),
{
    lemma_chunks_may_be_cut(contract, model, above, whole, first, second, below);
}

proof fn lemma_chunks_may_be_cut(
    contract: ContractView,
    model: Seq<char>,
    above: Seq<Option<PayloadView>>,
    whole: ChunkView,
    first: ChunkView,
    second: ChunkView,
    below: Seq<Option<PayloadView>>,
)
    requires
        first.shape == whole.shape,
        second.shape == whole.shape,
        whole.data == first.data + second.data,
        !first.end_of_tensor,
        second.end_of_tensor == whole.end_of_tensor,
    ensures
        messages_collected(
            contract,
            model,
            above + seq![Some(PayloadView::Chunk(first)), Some(PayloadView::Chunk(second))] + below,
        ) == messages_collected(
            contract,
            model,
            above + seq![Some(PayloadView::Chunk(whole))] + below,
        ),
    decreases below.len(),
{
    let pair = seq![Some(PayloadView::Chunk(first)), Some(PayloadView::Chunk(second))];
    let one = seq![Some(PayloadView::Chunk(whole))];
    let cut = above + pair + below;
    let uncut = above + one + below;
    if below.len() == 0 {
        reveal_with_fuel(messages_collected, 3);
        assert(uncut.drop_last() =~= above);
        assert(uncut.last() == Some(PayloadView::Chunk(whole)));
        let half = above + seq![Some(PayloadView::Chunk(first))];
        assert(cut.drop_last() =~= half);
        assert(cut.last() == Some(PayloadView::Chunk(second)));
        assert(half.drop_last() =~= above);
        assert(half.last() == Some(PayloadView::Chunk(first)));
        if let Ok(before) = messages_collected(contract, model, above) {
            assert(before.data + first.data + second.data =~= before.data + whole.data);
        }
    } else {
        assert(cut.drop_last() =~= above + pair + below.drop_last());
        assert(uncut.drop_last() =~= above + one + below.drop_last());
        assert(cut.last() == uncut.last());
        lemma_chunks_may_be_cut(
            contract,
            model,
            above,
            whole,
            first,
            second,
            below.drop_last(),
        );
    }
}

/// A message of the server: a line of text, a piece of the output tensor, or the
/// end of the stream with the exit code of the model's process.
#[derive(Debug)]
pub struct CheckpointResponse {
    pub chunk: String,
    pub done: bool,
    pub exit_code: i32,
    pub output_chunk: Option<TensorChunk>,
}

/// A [`CheckpointResponse`] as contracts see it.
#[verifier::ext_equal]
pub struct CheckpointView {
    pub chunk: Seq<char>,
    pub done: bool,
    pub exit_code: i32,
    pub output_chunk: Option<ChunkView>,
}

impl View for CheckpointResponse {
    type V = CheckpointView;

    open spec fn view(&self) -> CheckpointView {
        CheckpointView {
            chunk: self.chunk@,
            done: self.done,
            exit_code: self.exit_code,
            output_chunk: match self.output_chunk {
                Some(chunk) => Some(chunk@),
                None => None,
            },
        }
    }
}

/// What a list of messages of the server holds.
pub open spec fn response_views(responses: Seq<CheckpointResponse>) -> Seq<CheckpointView> {
    Seq::new(responses.len(), |i: int| responses[i]@)
}

/// The message with a line of text.
pub open spec fn text_message(line: Seq<char>) -> CheckpointView {
    CheckpointView { chunk: line, done: false, exit_code: 0, output_chunk: None }
}

/// The message that ends the stream.
pub open spec fn done_message(exit_code: i32) -> CheckpointView {
    CheckpointView { chunk: Seq::empty(), done: true, exit_code, output_chunk: None }
}

/// The message with a piece of the output.
pub open spec fn chunk_message(chunk: ChunkView) -> CheckpointView {
    CheckpointView { chunk: Seq::empty(), done: false, exit_code: 0, output_chunk: Some(chunk) }
}

/// Makes [`text_message`].
pub fn text_response(line: String) -> (r: CheckpointResponse)
    ensures
        r@ == text_message(line@),
{
    CheckpointResponse { chunk: line, done: false, exit_code: 0, output_chunk: None }
}

/// Makes [`done_message`].
pub fn done_response(exit_code: i32) -> (r: CheckpointResponse)
    ensures
        r@ == done_message(exit_code),
{
    CheckpointResponse { chunk: String::new(), done: true, exit_code, output_chunk: None }
}

/// How many chunks so many bytes are cut into: as few as hold them, but one at
/// least.
pub open spec fn chunk_count(length: nat) -> nat {
    if length == 0 {
        1
    } else {
        ((length - 1) / (OUTPUT_CHUNK_BYTES as int) + 1) as nat
    }
}

/// Where the chunk at `i` ends.
pub open spec fn chunk_end(length: nat, i: int) -> int {
    if (i + 1) * OUTPUT_CHUNK_BYTES <= length {
        (i + 1) * OUTPUT_CHUNK_BYTES
    } else {
        length as int
    }
}

/// The chunk at `i` of a tensor's bytes. The last one says so.
pub open spec fn output_chunk(name: Seq<char>, shape: Seq<i64>, data: Seq<u8>, i: int) -> ChunkView {
    ChunkView {
        tensor_name: name,
        shape,
        data: data.subrange(i * OUTPUT_CHUNK_BYTES, chunk_end(data.len(), i)),
        chunk_index: i as u64,
        end_of_tensor: i + 1 == chunk_count(data.len()),
    }
}

/// The messages with a tensor's bytes.
pub open spec fn tensor_messages(name: Seq<char>, shape: Seq<i64>, data: Seq<u8>) -> Seq<
    CheckpointView,
> {
    Seq::new(chunk_count(data.len()), |i: int| chunk_message(output_chunk(name, shape, data, i)))
}

/// Cuts a tensor into messages.
pub fn chunk_tensor(name: &str, shape: &[i64], data: &[u8]) -> (r: Vec<CheckpointResponse>)
    ensures
        response_views(r@) == tensor_messages(name@, shape@, data@),
{
    let mut out: Vec<CheckpointResponse> = Vec::new();
    let mut start: usize = 0;
    let mut index: u64 = 0;
    let ghost total = chunk_count(data@.len());
    let mut more = true;
    while more
        invariant
            total == chunk_count(data@.len()),
            out@.len() == index,
            index <= total,
            more <==> index < total,
            more ==> start == index * OUTPUT_CHUNK_BYTES,
            more ==> start <= data@.len(),
            forall|k: int|
                0 <= k < index ==> (#[trigger] out@[k])@ == chunk_message(
                    output_chunk(name@, shape@, data@, k),
                ),
        decreases total - index,
    {
        let last = data.len() - start <= OUTPUT_CHUNK_BYTES;
        let end: usize = if last {
            data.len()
        } else {
            start + OUTPUT_CHUNK_BYTES
        };
        let piece = slice_subrange(data, start, end);
        let chunk = TensorChunk {
            tensor_name: name.to_string(),
            shape: copy_dims(shape),
            data: copy_bytes(piece),
            chunk_index: index,
            end_of_tensor: last,
        };
        let response = CheckpointResponse {
            chunk: String::new(),
            done: false,
            exit_code: 0,
            output_chunk: Some(chunk),
        };
        assert(response@ =~= chunk_message(output_chunk(name@, shape@, data@, index as int)));
        out.push(response);
        index = index + 1;
        start = end;
        more = !last;
    }
    assert(response_views(out@) =~= tensor_messages(name@, shape@, data@));
    out
}

/// The messages with the outputs of a model, tensor by tensor.
pub open spec fn outputs_messages(outputs: Seq<TensorView>) -> Seq<CheckpointView>
    decreases outputs.len(),
{
    if outputs.len() == 0 {
        Seq::empty()
    } else {
        outputs_messages(outputs.drop_last()) + tensor_messages(
            outputs.last().name,
            outputs.last().shape,
            outputs.last().data,
        )
    }
}

/// The messages of a completed inference: a line of text, the outputs, the end.
pub open spec fn spec_stream_outputs(model: Seq<char>, outputs: Seq<TensorView>) -> Seq<
    CheckpointView,
> {
    seq![text_message("inference completed for model '"@ + model + "'"@)] + outputs_messages(
        outputs,
    ) + seq![done_message(0)]
}

/// Appends messages to messages.
pub fn append_responses(out: &mut Vec<CheckpointResponse>, more: Vec<CheckpointResponse>)
    ensures
        response_views(final(out)@) == response_views(old(out)@) + response_views(more@),
{
    let mut more = more;
    let ghost before = out@;
    let ghost tail = more@;
    out.append(&mut more);
    assert(response_views(out@) =~= response_views(before) + response_views(tail));
}

/// Makes the messages of a completed inference.
pub fn stream_outputs(model_name: &str, outputs: &Vec<Tensor>) -> (r: Vec<CheckpointResponse>)
    ensures
        response_views(r@) == spec_stream_outputs(model_name@, tensor::tensor_views(outputs@)),
{
    let mut out: Vec<CheckpointResponse> = Vec::new();
    out.push(text_response(cat3("inference completed for model '", model_name, "'")));
    let ghost first = text_message("inference completed for model '"@ + model_name@ + "'"@);
    let ghost all = tensor::tensor_views(outputs@);
    let mut i: usize = 0;
    assert(all.take(0) =~= Seq::empty());
    assert(response_views(out@) =~= seq![first] + outputs_messages(all.take(0)));
    while i < outputs.len()
        invariant
            i <= outputs@.len(),
            all == tensor::tensor_views(outputs@),
            response_views(out@) == seq![first] + outputs_messages(all.take(i as int)),
        decreases outputs@.len() - i,
    {
        let tensor = &outputs[i];
        proof {
            assert(all.take(i + 1).drop_last() =~= all.take(i as int));
            assert(all.take(i + 1).last() == tensor@);
        }
        let pieces = chunk_tensor(
            tensor.name.as_str(),
            tensor.shape.as_slice(),
            tensor.data.as_slice(),
        );
        append_responses(&mut out, pieces);
        assert(response_views(out@) =~= seq![first] + outputs_messages(all.take(i + 1)));
        i = i + 1;
    }
    assert(all.take(i as int) =~= all);
    let ghost before = out@;
    out.push(done_response(0));
    assert(response_views(out@) =~= response_views(before) + seq![done_message(0)]);
    out
}

/// The bytes of the first `count` chunks, put together.
pub open spec fn put_together(name: Seq<char>, shape: Seq<i64>, data: Seq<u8>, count: nat) -> Seq<u8>
    decreases count,
{
    if count == 0 {
        Seq::empty()
    } else {
        put_together(name, shape, data, (count - 1) as nat) + output_chunk(
            name,
            shape,
            data,
            count - 1,
        ).data
    }
}

/// The first chunks of an output put together are the beginning of its bytes.
pub proof fn lemma_chunks_prefix(name: Seq<char>, shape: Seq<i64>, data: Seq<u8>, count: nat)
    requires
        count <= chunk_count(data.len()),
    ensures
        put_together(name, shape, data, count) == if count == 0 {
            Seq::empty()
        } else {
            data.take(chunk_end(data.len(), count - 1))
        },
    decreases count,
{
    if count > 0 {
        lemma_chunks_prefix(name, shape, data, (count - 1) as nat);
        let i = count - 1;
        let piece = data.subrange(i * OUTPUT_CHUNK_BYTES, chunk_end(data.len(), i));
        if count > 1 {
            assert(chunk_end(data.len(), i - 1) == i * OUTPUT_CHUNK_BYTES);
            assert(data.take(i * OUTPUT_CHUNK_BYTES) + piece =~= data.take(
                chunk_end(data.len(), i),
            ));
        } else {
            assert(Seq::<u8>::empty() + piece =~= data.take(chunk_end(data.len(), i)));
        }
    }
}

/// The chunks of an output put together are its bytes; they are numbered from
/// zero, none is longer than allowed, and the last one, and only it, ends the
/// tensor.
pub proof fn law_chunks_make_up_the_tensor(name: Seq<char>, shape: Seq<i64>, data: Seq<u8>)
    requires
        data.len() <= u64::MAX,
    ensures
        put_together(name, shape, data, chunk_count(data.len())) == data,
        forall|i: int|
            0 <= i < chunk_count(data.len()) ==> {
                let chunk = #[trigger] output_chunk(name, shape, data, i);
                &&& chunk.chunk_index == i
                &&& chunk.data.len() <= OUTPUT_CHUNK_BYTES
                &&& chunk.end_of_tensor == (i == chunk_count(data.len()) - 1)
            },
{
    let count = chunk_count(data.len());
    lemma_chunks_prefix(name, shape, data, count);
    assert(data.take(data.len() as int) =~= data);
}

} // verus!
