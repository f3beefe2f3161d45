//! How requests are served, in terms of the models that there are, the request's own
//! fields and what became of its run.

use vstd::prelude::*;

use crate::binding;
use crate::checkpoint;
use crate::checkpoint::PayloadView;
use crate::choosing;
use crate::contract;
use crate::contract::ContractView;
use crate::counting;
use crate::declared;
use crate::folder::Folder;
use crate::manager;
use crate::manager::{Execution, ManagerView, ModelView};
use crate::metrics;
use crate::metrics::TimerView;
use crate::runtime;
use crate::runtime::{ConfiguredBackend, DetectedBackendKind, HandleView, ShapesView};
use crate::service;
use crate::service::{AnsweredInfer, OpenedInfer, OpenedView, StartedInfer};
use crate::status::{Code, Status, StatusView};
use crate::streams;
use crate::tensor;
use crate::tensor::{Tensor, TensorView};
use crate::text;
use crate::textproto::TextFile;
use crate::triton;
use crate::triton::{ModelInferResponse, RequestView};

verus! {

/// Whether a model is the last one of its name.
pub open spec fn last_of_name(models: Seq<ModelView>, name: Seq<char>, i: int) -> bool {
    &&& 0 <= i < models.len()
    &&& models[i].name == name
    &&& forall|k: int| i < k < models.len() ==> (#[trigger] models[k]).name != name
}

/// Whether there is a model of a name.
pub open spec fn served(models: Seq<ModelView>, name: Seq<char>) -> bool {
    exists|i: int| 0 <= i < models.len() && (#[trigger] models[i]).name == name
}

proof fn lemma_last_named(models: Seq<ModelView>, name: Seq<char>)
    ensures
        manager::last_named(models, name) matches Some(i) ==> last_of_name(models, name, i),
        manager::last_named(models, name) is Some <==> served(models, name),
    decreases models.len(),
{
    if models.len() > 0 {
        let n = models.len() - 1;
        if models.last().name == name {
            assert(models[n].name == name);
        } else {
            let front = models.drop_last();
            lemma_last_named(front, name);
            assert forall|k: int| 0 <= k < front.len() implies front[k] == #[trigger] models[k] by {}
            if served(front, name) {
                let i = choose|i: int| 0 <= i < front.len() && (#[trigger] front[i]).name == name;
                assert(models[i].name == name);
            }
            if served(models, name) {
                let i = choose|i: int| 0 <= i < models.len() && (#[trigger] models[i]).name == name;
                assert(front[i].name == name);
            }
        }
    }
}

/// A name finds the last model that has it, exactly if there is one.
pub proof fn law_model_found(manager: ManagerView, name: Seq<char>, i: int)
    ensures
        manager.place(name) == Some(i) <==> last_of_name(manager.models, name, i),
        manager.place(name) is None <==> !served(manager.models, name),
{
    lemma_last_named(manager.models, name);
    if last_of_name(manager.models, name, i) {
        assert(manager.models[i].name == name);
        let k = manager.place(name)->0;
        if k < i {
            assert(manager.models[i].name != name);
        }
        if i < k {
            assert(manager.models[k].name != name);
        }
    }
}

/// Whether a version is the one that is served, or none is asked for.
pub open spec fn version_fits(version: Seq<char>) -> bool {
    version.len() == 0 || version == "1"@
}

/// A request for an inference is opened exactly if it names a model that is there and
/// no other version of it, and its inputs are accepted; then for that model, with those
/// inputs. A request without a name is an invalid argument, one for a model or a version
/// that is not there finds nothing, and one with other inputs gets their refusal.
pub proof fn law_infer_opened(
    before: ManagerView,
    request: RequestView,
    now: u128,
    after: ManagerView,
    r: Result<(OpenedInfer, Vec<Tensor>), Status>,
)
    requires
        service::infer_open(before, request, now, after, r),
    ensures
        ({
            let name = text::trim(request.model_name);
            &&& name.len() == 0 ==> (r matches Err(e) && e@.0 == Code::InvalidArgument)
            &&& name.len() > 0 && (!served(before.models, name) || !version_fits(
                request.model_version,
            )) ==> (r matches Err(e) && e@.0 == Code::NotFound)
            &&& forall|i: int|
                name.len() > 0 && version_fits(request.model_version) && #[trigger] last_of_name(
                    before.models,
                    name,
                    i,
                ) ==> match triton::spec_build_inputs(before.models[i].contract, request, name) {
                    Ok((inputs, batch)) => r matches Ok((opened, tensors)) && {
                        &&& tensor::tensor_views(tensors@) == inputs
                        &&& opened.name() == name
                        &&& opened.expected_batch() == batch
                        &&& opened.timer().model == i
                        &&& opened.timer().started == now
                    },
                    Err(status) => r matches Err(e) && e@ == status,
                }
        }),
        after.models == before.models,
{
    let name = text::trim(request.model_name);
    reveal_strlit("1");
    lemma_last_named(before.models, name);
    assert forall|i: int| #[trigger] last_of_name(before.models, name, i) implies before.place(name)
        == Some(i) by {
        law_model_found(before, name, i);
    }
}

/// A request is admitted exactly if its model has a place left, which it then takes; and
/// else it is told that resources are exhausted, and takes none. No other model's places
/// change.
pub proof fn law_infer_admitted(
    before: ManagerView,
    opened: OpenedInfer,
    inputs: Seq<TensorView>,
    ready: u128,
    after: ManagerView,
    r: Result<StartedInfer, Status>,
)
    requires
        service::infer_admit(before, opened, inputs, ready, after, r),
        0 <= opened.timer().model < before.models.len(),
    ensures
        ({
            let i = opened.timer().model;
            let free = before.models[i].in_use < before.models[i].capacity;
            &&& r is Ok <==> free
            &&& r matches Err(e) ==> e@.0 == Code::ResourceExhausted
            &&& after.models.len() == before.models.len()
            &&& after.models[i].in_use == before.models[i].in_use + if free {
                1int
            } else {
                0
            }
            &&& after.models[i].capacity == before.models[i].capacity
            &&& forall|j: int|
                0 <= j < before.models.len() && j != i ==> #[trigger] after.models[j]
                    == before.models[j]
            &&& r matches Ok(started) ==> {
                &&& started.name() == opened.name()
                &&& started.model() == i
                &&& started.expected_batch() == opened.expected_batch()
                &&& started.timer().started == opened.timer().started
                &&& started.timer().phase == ready
            }
        }),
{
}

/// An inference counts as many as its batch has, which is the leading dimension of the
/// first input of a model with batches, and as one where there is no batch.
pub proof fn law_inferences_counted(contract: ContractView, inputs: Seq<TensorView>)
    ensures
        ({
            let count = manager::spec_inference_count(contract, inputs);
            let batched = contract.max_batch_size > 0 && inputs.len() > 0
                && inputs[0].shape.len() > 0 && inputs[0].shape[0] >= 1;
            &&& batched ==> count == inputs[0].shape[0]
            &&& !batched ==> count == 1
        }),
{
}

/// A run that failed is answered with its own failure, and one that did not with the
/// response for its outputs. Either way the model gets its place back.
pub proof fn law_infer_answered(
    before: ManagerView,
    started: StartedInfer,
    request: RequestView,
    execution: Result<Execution, Status>,
    ran: u128,
    after: ManagerView,
    r: Result<(AnsweredInfer, ModelInferResponse), Status>,
)
    requires
        service::infer_answered(before, started, request, execution, ran, after, r),
        0 <= started.model() < before.models.len(),
        started.timer().model == started.model(),
    ensures
        match execution {
            Err(status) => r matches Err(e) && e@ == status@,
            Ok(run) => match run.result {
                Err(status) => r matches Err(e) && e@ == status@,
                Ok(outputs) => match triton::spec_response(
                    before.models[started.model()].contract,
                    request,
                    started.name(),
                    tensor::tensor_views(outputs@),
                    started.expected_batch(),
                ) {
                    Ok(response) => r matches Ok((_, answer)) && answer@ == response,
                    Err(status) => r matches Err(e) && e@ == status,
                },
            },
        },
        after.models.len() == before.models.len(),
        before.models[started.model()].in_use > 0 ==> after.models[started.model()].in_use
            == before.models[started.model()].in_use - 1,
        forall|j: int|
            0 <= j < before.models.len() && j != started.model() ==> #[trigger] after.models[j]
                == before.models[j],
{
}

/// A response is for the model, the version and the identifier of its request.
pub proof fn law_response_belongs(
    contract: ContractView,
    request: RequestView,
    model: Seq<char>,
    outputs: Seq<TensorView>,
    expected_batch: Option<i64>,
)
    ensures
        triton::spec_response(contract, request, model, outputs, expected_batch) matches Ok(response)
            ==> response.model_name == model && response.id == request.id && version_fits(
            response.model_version,
        ) && response.model_version.len() > 0,
{
    reveal_strlit("1");
}

/// What a run leaves of a request's time: an execution is noted, with the times that
/// were measured, where the model was run; and a failure of the run is the model's.
pub proof fn law_run_noted(
    timer: TimerView,
    execution: Result<Execution, Status>,
    batch: u64,
    now: u128,
)
    ensures
        ({
            let after = manager::timer_after_run(timer, execution, batch, now);
            let failed = match execution {
                Ok(run) => run.result is Err,
                Err(_) => true,
            };
            &&& after.model == timer.model
            &&& after.started == timer.started
            &&& after.input_us == timer.input_us
            &&& failed ==> after.reason == Some(metrics::FailureReason::Backend)
            &&& !failed ==> after.reason == timer.reason
            &&& match execution {
                Ok(run) => {
                    &&& counting::grown(timer.queue_us, after.queue_us, 0, run.queued as int)
                    &&& counting::grown(timer.infer_us, after.infer_us, 0, run.ran as int)
                    &&& after.executions == timer.executions.wrapping_add(1)
                    &&& !after.pending
                    &&& after.phase == now
                },
                Err(_) => {
                    &&& after.queue_us == timer.queue_us
                    &&& after.infer_us == timer.infer_us
                    &&& after.executions == timer.executions
                    &&& after.pending == timer.pending
                },
            }
        }),
        manager::run_counts(timer, execution) <==> timer.pending && execution is Ok,
{
    if let Ok(run) = execution {
        counting::law_marks_change_their_own(timer, now, run.queued, run.ran, batch);
    }
}

/// A model is ready exactly if it is there and no other version of it is asked for; and
/// exactly then it is described, with the platform and the contract that it has.
pub proof fn law_ready(manager: ManagerView, name: Seq<char>, version: Seq<char>)
    ensures
        service::spec_ready(manager, name, version) <==> served(manager.models, name)
            && version_fits(version),
        match service::spec_model_metadata(manager, name, version) {
            Ok(described) => served(manager.models, name) && version_fits(version) && exists|i: int|
                #[trigger] last_of_name(manager.models, name, i) && described
                    == triton::spec_metadata(
                    name,
                    manager.models[i].platform,
                    manager.models[i].contract,
                ),
            Err(status) => status.0 == Code::NotFound && !(served(manager.models, name)
                && version_fits(version)),
        },
{
    reveal_strlit("1");
    lemma_last_named(manager.models, name);
    if let Some(i) = manager.place(name) {
        assert(last_of_name(manager.models, name, i));
    }
}

/// The first message of a stream names a model exactly if it is its metadata, with a
/// name that is not blank: the trimmed one. Any other beginning is an invalid argument.
pub proof fn law_first_message(first: Option<Option<PayloadView>>)
    ensures
        match (first, checkpoint::spec_first_message(first)) {
            (Some(Some(PayloadView::Meta { model_name })), Ok(name)) => name == text::trim(
                model_name,
            ) && name.len() > 0,
            (Some(Some(PayloadView::Meta { model_name })), Err(status)) => text::trim(
                model_name,
            ).len() == 0 && status.0 == Code::InvalidArgument,
            (_, Ok(_)) => false,
            (_, Err(status)) => status.0 == Code::InvalidArgument,
        },
{
}

/// What an opened stream has for the model is the tensor that its messages bring.
pub proof fn law_streamed_input(
    opened: OpenedView,
    messages: Seq<Option<PayloadView>>,
)
    requires
        match opened.collected {
            Some(collected) => opened.contract.inputs.len() > 0 && checkpoint::messages_collected(
                opened.contract,
                opened.name,
                messages,
            ) == Ok::<checkpoint::CollectedView, StatusView>(collected),
            None => opened.contract.inputs.len() == 0,
        },
    ensures
        match opened.input() {
            Ok(Some(t)) => checkpoint::spec_collect_input(opened.contract, opened.name, messages)
                == Ok::<TensorView, StatusView>(t),
            Ok(None) => opened.contract.inputs.len() == 0,
            Err(status) => checkpoint::spec_collect_input(opened.contract, opened.name, messages)
                == Err::<TensorView, StatusView>(status),
        },
{
}

/// A run of a stream is answered with messages from which a client reads the very
/// outputs of the run; and a run that failed with its own failure.
pub proof fn law_stream_answered(model: Seq<char>, execution: Result<Execution, Status>)
    ensures
        match (execution, manager::spec_checkpoint_answer(model, execution)) {
            (Err(status), Err(answered)) => answered == status@,
            (Ok(run), Err(answered)) => match run.result {
                Err(status) => answered == status@,
                Ok(_) => false,
            },
            (Ok(run), Ok(messages)) => match run.result {
                Ok(outputs) => streams::read(messages) == (
                    streams::to_be_read(tensor::tensor_views(outputs@)),
                    None::<streams::ReadView>,
                ),
                Err(_) => false,
            },
            _ => false,
        },
{
    if let Ok(run) = execution {
        if let Ok(outputs) = run.result {
            streams::law_stream_read_back(model, tensor::tensor_views(outputs@));
        }
    }
}

/// The number of elements of a shape is the product of its dimensions: one for none, the
/// dimension for one, and that of both parts for a shape in two parts.
pub proof fn law_elements(a: Seq<i64>, b: Seq<i64>, dim: i64)
    ensures
        tensor::product(Seq::empty()) == 1,
        tensor::product(seq![dim]) == dim,
        tensor::product(a + b) == tensor::product(a) * tensor::product(b),
    decreases b.len(),
{
    reveal_with_fuel(tensor::product, 2);
    assert(seq![dim].drop_last() =~= Seq::empty());
    if b.len() == 0 {
        assert(a + b =~= a);
    } else {
        let front = b.drop_last();
        let last = b.last() as int;
        law_elements(a, front, dim);
        assert((a + b).drop_last() =~= a + front);
        let x = tensor::product(a);
        let y = tensor::product(front);
        assert(x * y * last == x * (y * last)) by (nonlinear_arith);
    }
}

/// The shapes of a file are declared exactly if all of its lines may stand and one of
/// them gives a shape; each is what the last line says of it that does, and so is the
/// batch maximum.
pub proof fn law_declared_shapes(file: TextFile, all: Seq<Seq<char>>)
    requires
        file.contents matches Ok(contents) && all == text::lines(contents@),
    ensures
        runtime::declared_shapes(file) is Ok <==> (forall|i: int|
            0 <= i < all.len() ==> declared::may_stand(#[trigger] all[i], false)) && !(
        declared::unsaid(all, "input_shape"@) && declared::unsaid(all, "output_shape"@)),
        runtime::declared_shapes(file) matches Ok(shapes) ==> {
            &&& declared::shape_said(all, "input_shape"@, shapes.input)
            &&& declared::shape_said(all, "output_shape"@, shapes.output)
            &&& declared::batch_said(all, shapes.max_batch_size)
        },
        runtime::declared_shapes(file) matches Err(status) ==> status.0 == Code::FailedPrecondition,
{
    declared::law_flat_fields(all, file.path@, false);
}

/// A request's shape is accepted exactly if it may be sent for the declared input. A
/// model without one takes none, which is no fault of the request.
pub proof fn law_request_shape(shapes: ShapesView, shape: Seq<i64>, model: Seq<char>)
    ensures
        match shapes.input {
            None => runtime::spec_request(shapes, shape, model) matches Err(status) && status.0
                == Code::Internal,
            Some(dims) => {
                &&& runtime::spec_request(shapes, shape, model) is Ok <==> streams::may_be_sent(
                    shape,
                    dims,
                    shapes.max_batch_size,
                )
                &&& runtime::spec_request(shapes, shape, model) matches Err(status) ==> status.0
                    == Code::InvalidArgument
            },
        },
{
    if let Some(dims) = shapes.input {
        streams::lemma_may_be_sent(dims, shapes.max_batch_size, shape, model);
    }
}

/// A reply's shape is accepted exactly if its dimensions are the declared ones, behind
/// the request's batch or without one; and any shape is where none is declared.
pub proof fn law_reply_shape(
    shapes: ShapesView,
    actual: Seq<i64>,
    expected_batch: Option<i64>,
    model: Seq<char>,
)
    ensures
        runtime::spec_reply(shapes, actual, expected_batch, model) is Ok <==> match shapes.output {
            None => true,
            Some(dims) => {
                ||| {
                    &&& shapes.max_batch_size > 0
                    &&& actual.len() == dims.len() + 1
                    &&& expected_batch matches Some(batch) ==> actual[0] == batch
                    &&& forall|i: int|
                        0 <= i < dims.len() ==> #[trigger] dims[i] == -1 || dims[i] == actual[i + 1]
                }
                ||| {
                    &&& actual.len() == dims.len()
                    &&& forall|i: int|
                        0 <= i < dims.len() ==> #[trigger] dims[i] == -1 || dims[i] == actual[i]
                }
            },
        },
        runtime::spec_reply(shapes, actual, expected_batch, model) matches Err(status) ==> status.0
            == Code::Internal,
{
    if let Some(dims) = shapes.output {
        binding::law_output_shapes(dims, shapes.max_batch_size, actual, expected_batch, model);
    }
}

/// A folder is that of a Python model exactly if it has a program and its requirements,
/// and that of a Torch model exactly if it has the declaration of the tensors and a file
/// with the extension `pt`. A declared kind must be what the folder is; without one the
/// folder must be one of the two and not both.
pub proof fn law_backend_kind(
    folder: Folder,
    model: Seq<char>,
    declared: Option<ConfiguredBackend>,
)
    ensures
        ({
            let python = choosing::stands_in(folder.files@, "main.py"@) && choosing::stands_in(
                folder.files@,
                "requirements.txt"@,
            );
            let torch = choosing::declaration_there(folder) && folder.ext_there("pt"@);
            let kind = runtime::spec_backend_kind(folder, model, declared);
            &&& kind == Ok::<DetectedBackendKind, StatusView>(DetectedBackendKind::Python)
                <==> python && match declared {
                None => !torch,
                Some(wanted) => wanted is Python,
            }
            &&& kind == Ok::<DetectedBackendKind, StatusView>(DetectedBackendKind::Rust) <==> torch
                && match declared {
                None => !python,
                Some(wanted) => wanted is Rust,
            }
            &&& kind matches Err(status) ==> status.0 == Code::FailedPrecondition
        }),
{
    choosing::lemma_stands(folder.files@, "main.py"@);
    choosing::lemma_stands(folder.files@, "requirements.txt"@);
    choosing::lemma_stands(folder.files@, "model_inference.textproto"@);
}

/// So many bytes are a tensor of 32-bit floats of a shape exactly if there are four for
/// each of its elements, and one element at least.
pub proof fn law_float_bytes(length: nat, shape: Seq<i64>, model: Seq<char>)
    requires
        forall|i: int| 0 <= i < shape.len() ==> #[trigger] shape[i] > 0,
    ensures
        length <= i64::MAX ==> (runtime::float_fault(length, shape, model) is None <==> length == 4
            * tensor::product(shape)),
        runtime::float_fault(length, shape, model) matches Some(status) ==> status.0
            == Code::InvalidArgument,
{
    tensor::law_element_count(shape);
}

/// A Python model needs a declared output, and a Torch model a declared input; each
/// keeps all that its file declares.
pub proof fn law_model_shapes(model: Seq<char>, folder: Folder, file: TextFile)
    ensures
        match runtime::python_shapes(model, folder, file) {
            Ok(shapes) => choosing::declaration_there(folder) && runtime::declared_shapes(file)
                == Ok::<ShapesView, StatusView>(shapes) && shapes.output is Some,
            Err(_) => !choosing::declaration_there(folder) || match runtime::declared_shapes(file) {
                Ok(shapes) => shapes.output is None,
                Err(_) => true,
            },
        },
        match runtime::torch_shapes(model, file) {
            Ok(shapes) => runtime::declared_shapes(file) == Ok::<ShapesView, StatusView>(shapes)
                && shapes.input is Some,
            Err(_) => match runtime::declared_shapes(file) {
                Ok(shapes) => shapes.input is None,
                Err(_) => true,
            },
        },
{
    choosing::lemma_stands(folder.files@, "model_inference.textproto"@);
}

/// A name finds the last of the models that has it.
pub proof fn law_last_model(models: Seq<(Seq<char>, HandleView)>, name: Seq<char>)
    ensures
        runtime::last_model(models, name) matches Some(i) ==> 0 <= i < models.len() && models[i].0
            == name && forall|k: int| i < k < models.len() ==> (#[trigger] models[k]).0 != name,
        runtime::last_model(models, name) is None ==> forall|k: int|
            0 <= k < models.len() ==> (#[trigger] models[k]).0 != name,
    decreases models.len(),
{
    if models.len() > 0 && models.last().0 != name {
        let front = models.drop_last();
        law_last_model(front, name);
        assert forall|k: int| 0 <= k < front.len() implies front[k] == #[trigger] models[k] by {}
    }
}

/// A worker is found exactly for a name whose last model is a Torch model. One that is
/// not there finds nothing, and a Python model has no worker.
pub proof fn law_worker(models: Seq<(Seq<char>, HandleView)>, name: Seq<char>)
    ensures
        match runtime::ModelManager::worker_of(models, name) {
            Ok(i) => runtime::last_model(models, name) == Some(i) && models[i].1 is Rust,
            Err(status) => match runtime::last_model(models, name) {
                None => status.0 == Code::NotFound,
                Some(i) => models[i].1 is Python && status.0 == Code::FailedPrecondition,
            },
        },
{
}

/// A job takes one place of its worker, and gives one back; neither changes another
/// model, or anything else of its own.
pub proof fn law_places(models: Seq<(Seq<char>, HandleView)>, worker: int, j: int)
    requires
        0 <= worker < models.len(),
        0 <= j < models.len(),
        models[worker].1 matches HandleView::Rust { occupancy, .. } && occupancy > 0,
    ensures
        ({
            let more = runtime::with_job(models, worker);
            let fewer = runtime::without_job(models, worker);
            &&& more.len() == models.len() && fewer.len() == models.len()
            &&& j != worker ==> more[j] == models[j] && fewer[j] == models[j]
            &&& more[j].0 == models[j].0 && fewer[j].0 == models[j].0
            &&& more[worker].1->occupancy == models[worker].1->occupancy + 1
            &&& fewer[worker].1->occupancy == models[worker].1->occupancy - 1
            &&& more[worker].1 is Rust && fewer[worker].1 is Rust
            &&& more[worker].1->queue_capacity == models[worker].1->queue_capacity
            &&& more[worker].1.contract() == models[worker].1.contract()
            &&& fewer[worker].1->queue_capacity == models[worker].1->queue_capacity
            &&& fewer[worker].1.contract() == models[worker].1.contract()
        }),
{
}

} // verus!
