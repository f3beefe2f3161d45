//! The two front doors: the inference service and the native service.
//!
//! Each request is decided in steps around the work that leaves the library: it
//! is opened here, the backend runs elsewhere, and it is finished here. From the
//! moment a request names a configured model it is accounted for, and ends as
//! one success or one failure.

use vstd::prelude::*;

use crate::checkpoint;
use crate::checkpoint::{read_first_message, CollectedView, Payload, TensorCollector};
use crate::contract::{Contract, ContractView};
use crate::manager;
use crate::manager::{not_configured_status, Execution, ManagerView, ModelManager, Permit};
use crate::metrics;
use crate::metrics::{FailureReason, ModelMetrics, RequestTimer, TimerView};
use crate::relay;
use crate::status::{Code, Status, StatusView};
use crate::tensor;
use crate::tensor::{Tensor, TensorView};
use crate::text;
use crate::text::{cat2, cat5, trimmed_str};
use crate::triton;
use crate::triton::{
    build_input_tensors, describe_model, serialize_response, version_available, ModelInferRequest,
    ModelInferResponse, ModelMetadata, ModelMetadataView, RequestView, ResponseView,
};

verus! {

/// The refusal of a request without a model name.
pub open spec fn name_required() -> StatusView {
    (Code::InvalidArgument, "model_name is required"@)
}

/// The refusal of a version that is not served.
pub open spec fn version_not_served(model: Seq<char>, version: Seq<char>) -> StatusView {
    (
        Code::NotFound,
        "model '"@ + model + "' version '"@ + version
            + "' is not available; nereid serves version 1"@,
    )
}

/// The manager after a request to the model at `i` was opened.
pub open spec fn begun(manager: ManagerView, i: int) -> ManagerView {
    manager.with_counters(i, manager.registry[i].1.with_pending())
}

/// The manager after a request with the given timer has failed.
pub open spec fn after_failure(manager: ManagerView, timer: TimerView, code: Code) -> ManagerView {
    manager.with_counters(
        timer.model,
        timer.failed(manager.registry[timer.model].1, timer.reason_for(code)),
    )
}

/// An inference request whose inputs are built.
#[derive(Debug)]
pub struct OpenedInfer {
    model_name: String,
    expected_batch: Option<i64>,
    timer: RequestTimer,
}

impl OpenedInfer {
    /// The name of the model.
    pub closed spec fn name(self) -> Seq<char> {
        self.model_name@
    }

    /// The batch size that the outputs must have.
    pub closed spec fn expected_batch(self) -> Option<i64> {
        self.expected_batch
    }

    /// The accounting of the request so far.
    pub closed spec fn timer(self) -> TimerView {
        self.timer@
    }

    /// Whether it was opened on a manager with these models.
    pub open spec fn belongs_to(self, manager: ManagerView) -> bool {
        &&& manager.place(self.name()) == Some(self.timer().model)
        &&& 0 <= self.timer().model < manager.models.len()
    }
}

/// An inference that was let in: its backend may run.
#[derive(Debug)]
pub struct StartedInfer {
    model_name: String,
    expected_batch: Option<i64>,
    permit: Permit,
    timer: RequestTimer,
}

impl StartedInfer {
    /// The name of the model.
    pub closed spec fn name(self) -> Seq<char> {
        self.model_name@
    }

    /// Gives the name of the model.
    pub fn model_name(&self) -> (r: &str)
        ensures
            r@ == self.name(),
    {
        self.model_name.as_str()
    }

    /// The batch size that the outputs must have.
    pub closed spec fn expected_batch(self) -> Option<i64> {
        self.expected_batch
    }

    /// The number of inferences in the request.
    pub closed spec fn batch(self) -> u64 {
        self.permit.batch()
    }

    /// The accounting of the request so far.
    pub closed spec fn timer(self) -> TimerView {
        self.timer@
    }

    /// The place of the model.
    pub closed spec fn model(self) -> int {
        self.permit.model()
    }

    /// Whether it was started on a manager with these models.
    pub open spec fn belongs_to(self, manager: ManagerView) -> bool {
        &&& manager.place(self.name()) == Some(self.model())
        &&& 0 <= self.model() < manager.models.len()
        &&& self.timer().model == self.model()
    }
}

/// An inference that was answered and is about to end as a success.
#[derive(Debug)]
pub struct AnsweredInfer {
    timer: RequestTimer,
}

impl AnsweredInfer {
    /// The accounting of the request so far.
    pub closed spec fn timer(self) -> TimerView {
        self.timer@
    }

    /// Whether it was answered on a manager with these models.
    pub open spec fn belongs_to(self, manager: ManagerView) -> bool {
        0 <= self.timer().model < manager.models.len()
    }
}

/// What [`open_infer`] answers, and the manager afterwards. A request that names
/// no configured model is not accounted for; one that is refused otherwise has
/// ended.
pub open spec fn infer_open(
    before: ManagerView,
    request: RequestView,
    now: u128,
    after: ManagerView,
    r: Result<(OpenedInfer, Vec<Tensor>), Status>,
) -> bool {
    let name = text::trim(request.model_name);
    if name.len() == 0 {
        &&& r matches Err(e) && e@ == name_required()
        &&& after == before
    } else {
        match before.place(name) {
            None => {
                &&& r matches Err(e) && e@ == (if triton::version_served(request.model_version) {
                    manager::not_configured(name)
                } else {
                    version_not_served(name, request.model_version)
                })
                &&& after == before
            },
            Some(i) => {
                let open = begun(before, i);
                let timer = metrics::opened(i, now);
                if !triton::version_served(request.model_version) {
                    &&& r matches Err(e) && e@ == version_not_served(name, request.model_version)
                    &&& after == after_failure(open, timer, Code::NotFound)
                } else {
                    match triton::spec_build_inputs(before.models[i].contract, request, name) {
                        Err(status) => {
                            &&& r matches Err(e) && e@ == status
                            &&& after == after_failure(open, timer, status.0)
                        },
                        Ok((inputs, batch)) => {
                            &&& r matches Ok((opened, tensors)) && {
                                &&& opened.name() == name
                                &&& opened.expected_batch() == batch
                                &&& opened.timer() == timer
                                &&& tensor::tensor_views(tensors@) == inputs
                                &&& opened.belongs_to(after)
                            }
                            &&& after == open
                        },
                    }
                }
            },
        }
    }
}

/// What [`admit_infer`] answers, and the manager afterwards. A request for which
/// no permit is free has ended.
pub open spec fn infer_admit(
    before: ManagerView,
    opened: OpenedInfer,
    inputs: Seq<TensorView>,
    ready: u128,
    after: ManagerView,
    r: Result<StartedInfer, Status>,
) -> bool {
    let i = opened.timer().model;
    let model = before.models[i];
    let assembled = opened.timer().after_input(ready);
    if model.in_use < model.capacity {
        &&& r matches Ok(started) && {
            &&& started.name() == opened.name()
            &&& started.model() == i
            &&& started.expected_batch() == opened.expected_batch()
            &&& started.batch() == manager::spec_inference_count(model.contract, inputs)
            &&& started.timer() == assembled
            &&& started.belongs_to(after)
        }
        &&& after == before.with_in_use(i, model.in_use + 1)
    } else {
        &&& r matches Err(e) && e@ == manager::queue_full()
        &&& after == after_failure(before, assembled, Code::ResourceExhausted)
    }
}

proof fn lemma_place_kept(before: ManagerView, after: ManagerView, name: Seq<char>)
    requires
        before.models.len() == after.models.len(),
        forall|i: int|
            0 <= i < before.models.len() ==> (#[trigger] after.models[i]).name
                == before.models[i].name,
    ensures
        after.place(name) == before.place(name),
{
    lemma_last_named_kept(before.models, after.models, name);
}

proof fn lemma_last_named_kept(
    before: Seq<manager::ModelView>,
    after: Seq<manager::ModelView>,
    name: Seq<char>,
)
    requires
        before.len() == after.len(),
        forall|i: int| 0 <= i < before.len() ==> (#[trigger] after[i]).name == before[i].name,
    ensures
        manager::last_named(after, name) == manager::last_named(before, name),
    decreases before.len(),
{
    if before.len() > 0 {
        assert(after[after.len() - 1].name == before[before.len() - 1].name);
        let a = after.drop_last();
        let b = before.drop_last();
        assert forall|i: int| 0 <= i < b.len() implies (#[trigger] a[i]).name == b[i].name by {
            assert(after[i].name == before[i].name);
        }
        lemma_last_named_kept(b, a, name);
    }
}

fn version_refusal(model_name: &str, version: &str) -> (r: Status)
    ensures
        r@ == version_not_served(model_name@, version@),
{
    Status::not_found(
        cat5(
            "model '",
            model_name,
            "' version '",
            version,
            "' is not available; nereid serves version 1",
        ),
    )
}

/// Opens an inference request at the time `now`, and builds and checks its inputs.
pub fn open_infer(manager: &mut ModelManager, request: &ModelInferRequest, now: u128) -> (r: Result<
    (OpenedInfer, Vec<Tensor>),
    Status,
>)
    requires
        old(manager)@.well_formed(),
    ensures
        final(manager)@.well_formed(),
        infer_open(old(manager)@, request@, now, final(manager)@, r),
{
    let model_name = trimmed_str(request.model_name.as_str());
    let ghost before = manager@;
    let ghost name = model_name@;
    proof {
        manager::lemma_last_named(before.models, name);
    }
    if model_name.as_str().is_empty() {
        return Err(Status::invalid_argument("model_name is required".to_string()));
    }
    let served = version_available(request.model_version.as_str());
    let timer = match manager.begin_request(model_name.as_str(), now) {
        Ok(timer) => timer,
        Err(status) => {
            if !served {
                return Err(
                    version_refusal(model_name.as_str(), request.model_version.as_str()),
                );
            }
            return Err(status);
        },
    };
    proof {
        lemma_place_kept(before, manager@, name);
    }
    if !served {
        let status = version_refusal(model_name.as_str(), request.model_version.as_str());
        manager.fail_request(timer, &status);
        return Err(status);
    }
    let built = match manager.contract(model_name.as_str()) {
        Some(contract) => build_input_tensors(contract, request, model_name.as_str()),
        None => Err(not_configured_status(model_name.as_str())),
    };
    match built {
        Ok((inputs, expected_batch)) => Ok(
            (OpenedInfer { model_name, expected_batch, timer }, inputs),
        ),
        Err(status) => {
            manager.fail_request(timer, &status);
            Err(status)
        },
    }
}

/// Takes a permit for the run of the backend on the inputs of an opened request,
/// which were ready at the time `ready`.
pub fn admit_infer(
    manager: &mut ModelManager,
    opened: OpenedInfer,
    inputs: &Vec<Tensor>,
    ready: u128,
) -> (r: Result<StartedInfer, Status>)
    requires
        old(manager)@.well_formed(),
        opened.belongs_to(old(manager)@),
    ensures
        final(manager)@.well_formed(),
        infer_admit(
            old(manager)@,
            opened,
            tensor::tensor_views(inputs@),
            ready,
            final(manager)@,
            r,
        ),
{
    let ghost before = manager@;
    let ghost name = opened.name();
    let OpenedInfer { model_name, expected_batch, timer } = opened;
    let mut assembled = timer;
    assembled.input_ready(ready);
    match manager.infer(model_name.as_str(), inputs) {
        Ok(permit) => {
            proof {
                lemma_place_kept(before, manager@, name);
            }
            Ok(StartedInfer { model_name, expected_batch, permit, timer: assembled })
        },
        Err(status) => {
            manager.fail_request(assembled, &status);
            Err(status)
        },
    }
}

/// What [`answer_infer`] answers: the failure of the run, or what becomes of its
/// outputs.
pub open spec fn infer_answer(
    contract: ContractView,
    request: RequestView,
    name: Seq<char>,
    expected_batch: Option<i64>,
    execution: Result<Execution, Status>,
) -> Result<ResponseView, StatusView> {
    match manager::run_result(execution) {
        Err(status) => Err(status),
        Ok(outputs) => triton::spec_response(contract, request, name, outputs, expected_batch),
    }
}

/// The manager after the backend ran for a request with the given timer.
pub open spec fn after_run(
    before: ManagerView,
    model: int,
    timer: TimerView,
    execution: Result<Execution, Status>,
) -> ManagerView {
    before.released(model).with_counters(
        timer.model,
        before.registry[timer.model].1.without_pending(manager::run_counts(timer, execution)),
    )
}

/// What [`answer_infer`] answers, and the manager afterwards. A request that is
/// not answered has ended.
pub open spec fn infer_answered(
    before: ManagerView,
    started: StartedInfer,
    request: RequestView,
    execution: Result<Execution, Status>,
    ran: u128,
    after: ManagerView,
    r: Result<(AnsweredInfer, ModelInferResponse), Status>,
) -> bool {
    let timer = manager::timer_after_run(started.timer(), execution, started.batch(), ran);
    let counted = after_run(before, started.model(), started.timer(), execution);
    match infer_answer(
        before.models[started.model()].contract,
        request,
        started.name(),
        started.expected_batch(),
        execution,
    ) {
        Ok(response) => {
            &&& r matches Ok((answered, answer)) && answer@ == response && answered.timer()
                == timer && answered.belongs_to(after)
            &&& after == counted
        },
        Err(status) => {
            &&& r matches Err(e) && e@ == status
            &&& after == after_failure(counted, timer, status.0)
        },
    }
}

/// Answers an inference whose backend ran, and came back at the time `ran`: gives
/// its permit back and makes the response from the outputs.
pub fn answer_infer(
    manager: &mut ModelManager,
    started: StartedInfer,
    request: &ModelInferRequest,
    execution: Result<Execution, Status>,
    ran: u128,
) -> (r: Result<(AnsweredInfer, ModelInferResponse), Status>)
    requires
        old(manager)@.well_formed(),
        started.belongs_to(old(manager)@),
    ensures
        final(manager)@.well_formed(),
        infer_answered(
            old(manager)@,
            started,
            request@,
            execution,
            ran,
            final(manager)@,
            r,
        ),
{
    let ghost before = manager@;
    let ghost name = started.name();
    let StartedInfer { model_name, expected_batch, permit, timer } = started;
    let mut running = timer;
    let outputs = match manager.complete(permit, &mut running, execution, ran) {
        Ok(outputs) => outputs,
        Err(status) => {
            manager.fail_request(running, &status);
            return Err(status);
        },
    };
    proof {
        lemma_place_kept(before, manager@, name);
    }
    let answer = match manager.contract(model_name.as_str()) {
        Some(contract) => serialize_response(
            contract,
            request,
            model_name.as_str(),
            outputs,
            expected_batch,
        ),
        None => Err(not_configured_status(model_name.as_str())),
    };
    match answer {
        Ok(response) => Ok((AnsweredInfer { timer: running }, response)),
        Err(status) => {
            manager.fail_request(running, &status);
            Err(status)
        },
    }
}

/// The manager after an answered inference ended as a success.
pub open spec fn infer_settled(before: ManagerView, answered: AnsweredInfer, now: u128) -> ManagerView {
    before.with_counters(
        answered.timer().model,
        answered.timer().committed(before.registry[answered.timer().model].1, now),
    )
}

/// Ends an inference whose response was ready at the time `now`.
pub fn settle_infer(manager: &mut ModelManager, answered: AnsweredInfer, now: u128)
    requires
        old(manager)@.well_formed(),
        answered.belongs_to(old(manager)@),
    ensures
        final(manager)@.well_formed(),
        final(manager)@ == infer_settled(old(manager)@, answered, now),
{
    manager.succeed_request(answered.timer, now);
}

/// The manager after an inference that was let in was given up.
pub open spec fn abandoned(before: ManagerView, started: StartedInfer) -> ManagerView {
    before.released(started.model()).with_counters(
        started.timer().model,
        started.timer().failed(
            before.registry[started.timer().model].1,
            FailureReason::Canceled,
        ),
    )
}

/// Gives up an inference that was let in, because its client is gone: gives its
/// permit back, which it holds while its backend is at work, and ends the request
/// as canceled.
pub fn abandon_infer(manager: &mut ModelManager, started: StartedInfer)
    requires
        old(manager)@.well_formed(),
        started.belongs_to(old(manager)@),
    ensures
        final(manager)@.well_formed(),
        final(manager)@ == abandoned(old(manager)@, started),
{
    manager.release(started.permit);
    manager.cancel_request(started.timer);
}

/// The answer to one request of an inference stream: its response, or the message
/// of its failure. The stream goes on either way.
#[derive(Debug)]
pub struct StreamAnswer {
    pub error_message: String,
    pub infer_response: Option<ModelInferResponse>,
}

/// Makes the answer to one request of an inference stream.
pub fn stream_answer(answer: Result<ModelInferResponse, Status>) -> (r: StreamAnswer)
    ensures
        match answer {
            Ok(response) => {
                &&& r.error_message@ == ""@
                &&& r.infer_response == Some(response)
            },
            Err(status) => {
                &&& r.error_message@ == status@.1
                &&& r.infer_response is None
            },
        },
{
    match answer {
        Ok(response) => StreamAnswer {
            error_message: "".to_string(),
            infer_response: Some(response),
        },
        Err(status) => StreamAnswer {
            error_message: status.message().to_string(),
            infer_response: None,
        },
    }
}

/// Whether a version of a model is ready to serve.
pub open spec fn spec_ready(manager: ManagerView, name: Seq<char>, version: Seq<char>) -> bool {
    manager.place(name) is Some && triton::version_served(version)
}

/// Decides [`spec_ready`].
pub fn model_ready(manager: &ModelManager, name: &str, version: &str) -> (r: bool)
    ensures
        r == spec_ready(manager@, name@, version@),
{
    manager.is_configured(name) && version_available(version)
}

/// The HTTP status code of the readiness probe of a model: 200 where it is ready,
/// 400 where it is not.
pub fn readiness(manager: &ModelManager, name: &str, version: &str) -> (r: u16)
    ensures
        r == if spec_ready(manager@, name@, version@) {
            200u16
        } else {
            400u16
        },
{
    if model_ready(manager, name, version) {
        200
    } else {
        400
    }
}

/// The description of a model, or the refusal where it is not ready.
pub open spec fn spec_model_metadata(
    manager: ManagerView,
    name: Seq<char>,
    version: Seq<char>,
) -> Result<ModelMetadataView, StatusView> {
    if spec_ready(manager, name, version) {
        let model = manager.models[manager.place(name)->0];
        Ok(triton::spec_metadata(name, model.platform, model.contract))
    } else {
        Err(
            (
                Code::NotFound,
                "model '"@ + name + "' (version '"@ + version + "') is not available"@,
            ),
        )
    }
}

/// Describes a model of the manager.
pub fn model_metadata(manager: &ModelManager, name: &str, version: &str) -> (r: Result<
    ModelMetadata,
    Status,
>)
    ensures
        match r {
            Ok(description) => spec_model_metadata(manager@, name@, version@) == Ok::<
                ModelMetadataView,
                StatusView,
            >(description@),
            Err(e) => spec_model_metadata(manager@, name@, version@) == Err::<
                ModelMetadataView,
                StatusView,
            >(e@),
        },
{
    if version_available(version) {
        if let Some(contract) = manager.contract(name) {
            if let Some(platform) = manager.platform(name) {
                return Ok(describe_model(name, platform, contract));
            }
        }
    }
    Err(
        Status::not_found(
            cat5("model '", name, "' (version '", version, "') is not available"),
        ),
    )
}

/// Gives the status that the native health check reports.
pub fn health_status() -> (r: String)
    ensures
        r@ == "ok"@,
{
    "ok".to_string()
}

/// A checkpoint request that named its model and whose input is being received.
#[derive(Debug)]
pub struct OpenedCheckpoint {
    model_name: String,
    contract: Contract,
    collector: Option<TensorCollector>,
    timer: RequestTimer,
}

/// An [`OpenedCheckpoint`] as contracts see it. Nothing is collected for a model
/// without an input.
#[verifier::ext_equal]
pub struct OpenedView {
    pub name: Seq<char>,
    pub contract: ContractView,
    pub collected: Option<CollectedView>,
    pub timer: TimerView,
}

impl View for OpenedCheckpoint {
    type V = OpenedView;

    closed spec fn view(&self) -> OpenedView {
        OpenedView {
            name: self.model_name@,
            contract: self.contract@,
            collected: match self.collector {
                Some(collector) => Some(collector@),
                None => None,
            },
            timer: self.timer@,
        }
    }
}

impl OpenedView {
    /// Whether it was opened on a manager with these models, and an input is
    /// collected exactly where the model has one.
    pub open spec fn belongs_to(self, manager: ManagerView) -> bool {
        &&& manager.place(self.name) == Some(self.timer.model)
        &&& 0 <= self.timer.model < manager.models.len()
        &&& self.contract == manager.models[self.timer.model].contract
        &&& self.collected is Some <==> self.contract.inputs.len() > 0
    }

    /// What the backend runs on: the collected input, if the model has one; or
    /// why it is refused.
    pub open spec fn input(self) -> Result<Option<TensorView>, StatusView> {
        match self.collected {
            None => Ok(None),
            Some(collected) => match checkpoint::collected_tensor(self.contract, collected) {
                Ok(t) => Ok(Some(t)),
                Err(status) => Err(status),
            },
        }
    }
}

/// The failure to read a message of a checkpoint stream: the first, or a later
/// one.
pub open spec fn unread(first: bool, cause: Seq<char>) -> StatusView {
    (
        Code::Internal,
        if first {
            "failed to read first checkpoint stream message: "@ + cause
        } else {
            "failed reading checkpoint stream message: "@ + cause
        },
    )
}

/// Makes [`unread`].
pub fn unread_status(first: bool, cause: &str) -> (r: Status)
    ensures
        r@ == unread(first, cause@),
{
    if first {
        Status::internal(cat2("failed to read first checkpoint stream message: ", cause))
    } else {
        Status::internal(cat2("failed reading checkpoint stream message: ", cause))
    }
}

/// Opens a checkpoint request by its first message.
pub fn open_checkpoint(
    manager: &mut ModelManager,
    first: Option<Option<Payload>>,
    now: u128,
) -> (r: Result<OpenedCheckpoint, Status>)
    requires
        old(manager)@.well_formed(),
    ensures
        final(manager)@.well_formed(),
        match checkpoint::spec_first_message(
            match first {
                None => None,
                Some(payload) => Some(checkpoint::payload_view(payload)),
            },
        ) {
            Err(status) => {
                &&& r matches Err(e) && e@ == status
                &&& final(manager)@ == old(manager)@
            },
            Ok(name) => match old(manager)@.place(name) {
                None => {
                    &&& r matches Err(e) && e@ == manager::not_configured(name)
                    &&& final(manager)@ == old(manager)@
                },
                Some(i) => {
                    let contract = old(manager)@.models[i].contract;
                    &&& r matches Ok(opened) && opened@ == (OpenedView {
                        name,
                        contract,
                        collected: if contract.inputs.len() > 0 {
                            Some(checkpoint::collected_nothing())
                        } else {
                            None
                        },
                        timer: metrics::opened(i, now),
                    }) && opened@.belongs_to(final(manager)@)
                    &&& final(manager)@ == begun(old(manager)@, i)
                },
            },
        },
{
    let ghost before = manager@;
    let model_name = match read_first_message(first) {
        Ok(name) => name,
        Err(status) => {
            return Err(status);
        },
    };
    let ghost name = model_name@;
    proof {
        manager::lemma_last_named(before.models, name);
    }
    let contract = match manager.contract(model_name.as_str()) {
        Some(contract) => contract.clone(),
        None => {
            return Err(not_configured_status(model_name.as_str()));
        },
    };
    let timer = match manager.begin_request(model_name.as_str(), now) {
        Ok(timer) => timer,
        Err(status) => {
            return Err(status);
        },
    };
    proof {
        lemma_place_kept(before, manager@, name);
    }
    let collector = if contract.has_input() {
        match TensorCollector::start(&contract, model_name.as_str()) {
            Ok(collector) => Some(collector),
            Err(_) => None,
        }
    } else {
        None
    };
    Ok(OpenedCheckpoint { model_name, contract, collector, timer })
}

impl OpenedCheckpoint {
    /// Whether the messages that follow bring an input; those of a model without
    /// one are read and dropped.
    pub fn wants_input(&self) -> (r: bool)
        ensures
            r == (self@.collected is Some),
    {
        self.collector.is_some()
    }

    /// Takes in the next message. A message that is refused ends the request.
    pub fn accept(self, manager: &mut ModelManager, payload: &Option<Payload>) -> (r: Result<
        OpenedCheckpoint,
        Status,
    >)
        requires
            old(manager)@.well_formed(),
            self@.belongs_to(old(manager)@),
        ensures
            final(manager)@.well_formed(),
            match self@.collected {
                None => r matches Ok(next) && next@ == self@ && final(manager)@ == old(manager)@,
                Some(collected) => match checkpoint::message_collected(
                    self@.contract,
                    self@.name,
                    collected,
                    checkpoint::payload_view(*payload),
                ) {
                    Ok(more) => {
                        &&& r matches Ok(next) && next@ == (OpenedView {
                            collected: Some(more),
                            ..self@
                        })
                        &&& final(manager)@ == old(manager)@
                    },
                    Err(status) => {
                        &&& r matches Err(e) && e@ == status
                        &&& final(manager)@ == after_failure(
                            old(manager)@,
                            self@.timer,
                            status.0,
                        )
                    },
                },
            },
    {
        let OpenedCheckpoint { model_name, contract, collector, timer } = self;
        match collector {
            None => Ok(OpenedCheckpoint { model_name, contract, collector: None, timer }),
            Some(collector) => {
                let mut collecting = collector;
                match collecting.accept(&contract, model_name.as_str(), payload) {
                    Ok(_) => Ok(
                        OpenedCheckpoint {
                            model_name,
                            contract,
                            collector: Some(collecting),
                            timer,
                        },
                    ),
                    Err(status) => {
                        manager.fail_request(timer, &status);
                        Err(status)
                    },
                }
            },
        }
    }

    /// Ends the request because its next message could not be read: the client is
    /// gone.
    pub fn interrupted(self, manager: &mut ModelManager, cause: &str) -> (r: Status)
        requires
            old(manager)@.well_formed(),
            self@.belongs_to(old(manager)@),
        ensures
            final(manager)@.well_formed(),
            r@ == unread(false, cause@),
            final(manager)@ == old(manager)@.with_counters(
                self@.timer.model,
                self@.timer.failed(
                    old(manager)@.registry[self@.timer.model].1,
                    FailureReason::Canceled,
                ),
            ),
    {
        manager.cancel_request(self.timer);
        unread_status(false, cause)
    }

    /// All messages are in: takes a permit for the backend, and gives the name of
    /// the model, the input, ready at the time `now`, the timer and the permit.
    /// Where no input came or no permit is free, ends the request.
    pub fn received(self, manager: &mut ModelManager, now: u128) -> (r: Result<
        (String, Option<Tensor>, RequestTimer, Permit),
        Status,
    >)
        requires
            old(manager)@.well_formed(),
            self@.belongs_to(old(manager)@),
        ensures
            final(manager)@.well_formed(),
            match self@.input() {
                Err(status) => {
                    &&& r matches Err(e) && e@ == status
                    &&& final(manager)@ == after_failure(
                        old(manager)@,
                        self@.timer,
                        status.0,
                    )
                },
                Ok(expected) => {
                    let i = self@.timer.model;
                    let ready = self@.timer.after_input(now);
                    let model = old(manager)@.models[i];
                    if model.in_use < model.capacity {
                        &&& r matches Ok((name, input, timer, permit)) && {
                            &&& name@ == self@.name
                            &&& tensor::optional_view(input) == expected
                            &&& timer@ == ready
                            &&& permit.model() == i
                            &&& permit.batch() == manager::spec_inference_count(
                                self@.contract,
                                manager::input_list(input),
                            )
                        }
                        &&& final(manager)@ == old(manager)@.with_in_use(i, model.in_use + 1)
                    } else {
                        &&& r matches Err(e) && e@ == manager::queue_full()
                        &&& final(manager)@ == after_failure(
                            old(manager)@,
                            ready,
                            Code::ResourceExhausted,
                        )
                    }
                },
            },
    {
        let OpenedCheckpoint { model_name, contract, collector, timer } = self;
        let mut timing = timer;
        let input = match collector {
            None => None,
            Some(collected) => match collected.finish(&contract) {
                Ok(t) => Some(t),
                Err(status) => {
                    manager.fail_request(timing, &status);
                    return Err(status);
                },
            },
        };
        timing.input_ready(now);
        match manager.checkpoint(model_name.as_str(), &input, timing) {
            Ok((timer, permit)) => Ok((model_name, input, timer, permit)),
            Err(status) => Err(status),
        }
    }
}

/// Whether the counters differ by one request that has ended: by one success, or
/// by one failure for one reason. The pending gauge is as it was.
pub open spec fn counted_once(before: ModelMetrics, after: ModelMetrics, success: bool) -> bool {
    &&& after.pending_request_count == before.pending_request_count
    &&& if success {
        &&& after.request_success == before.request_success.wrapping_add(1)
        &&& forall|reason: FailureReason|
            #[trigger] after.failures(reason) == before.failures(reason)
    } else {
        &&& after.request_success == before.request_success
        &&& exists|reason: FailureReason|
            {
                &&& #[trigger] after.failures(reason) == before.failures(reason).wrapping_add(1)
                &&& forall|other: FailureReason|
                    other != reason ==> #[trigger] after.failures(other) == before.failures(other)
            }
    }
}

/// Whether two managers have the same models and permits, and the same counters
/// of all models but that at `i`.
pub open spec fn same_but_counters(before: ManagerView, after: ManagerView, i: int) -> bool {
    &&& after.models == before.models
    &&& after.registry.len() == before.registry.len()
    &&& forall|j: int|
        0 <= j < before.registry.len() && j != i ==> #[trigger] after.registry[j]
            == before.registry[j]
}

/// An inference request that is refused when it is opened leaves all permits as
/// they were. It is counted as one failure of the model that it names, and nowhere
/// where it names no configured model.
pub proof fn law_refused_infer_counted_once(
    before: ManagerView,
    request: RequestView,
    now: u128,
    after: ManagerView,
    r: Result<(OpenedInfer, Vec<Tensor>), Status>,
)
    requires
        before.well_formed(),
        infer_open(before, request, now, after, r),
        r is Err,
    ensures
        ({
            let name = text::trim(request.model_name);
            match before.place(name) {
                Some(i) if name.len() > 0 => {
                    &&& same_but_counters(before, after, i)
                    &&& counted_once(before.registry[i].1, after.registry[i].1, false)
                },
                _ => after == before,
            }
        }),
{
    let name = text::trim(request.model_name);
    manager::lemma_last_named(before.models, name);
    if let Some(i) = before.place(name) {
        if name.len() > 0 {
            let timer = metrics::opened(i, now);
            let code = if !triton::version_served(request.model_version) {
                Code::NotFound
            } else {
                triton::spec_build_inputs(before.models[i].contract, request, name)->Err_0.0
            };
            let reason = timer.reason_for(code);
            let b = before.registry[i].1;
            let a = after.registry[i].1;
            assert(a == timer.failed(b.with_pending(), reason));
            assert(a.failures(reason) == b.failures(reason).wrapping_add(1));
            assert(counted_once(b, a, false));
        }
    }
}

/// An inference request that finds no permit free leaves all permits as they were,
/// and is counted as one rejected request of the model that it names.
pub proof fn law_shed_infer_counted_once(
    before: ManagerView,
    request: RequestView,
    now: u128,
    between: ManagerView,
    opened: OpenedInfer,
    inputs: Vec<Tensor>,
    ready: u128,
    after: ManagerView,
    r: Result<StartedInfer, Status>,
)
    requires
        before.well_formed(),
        infer_open(before, request, now, between, Ok((opened, inputs))),
        infer_admit(between, opened, tensor::tensor_views(inputs@), ready, after, r),
        r is Err,
    ensures
        ({
            let i = opened.timer().model;
            let b = before.registry[i].1;
            let a = after.registry[i].1;
            &&& before.place(text::trim(request.model_name)) == Some(i)
            &&& same_but_counters(before, after, i)
            &&& counted_once(b, a, false)
            &&& a.failures(FailureReason::Rejected) == b.failures(
                FailureReason::Rejected,
            ).wrapping_add(1)
        }),
{
    let name = text::trim(request.model_name);
    manager::lemma_last_named(before.models, name);
    let i = opened.timer().model;
    let assembled = opened.timer().after_input(ready);
    let b = before.registry[i].1;
    let a = after.registry[i].1;
    assert(a == assembled.failed(b.with_pending(), FailureReason::Rejected));
    assert(a.failures(FailureReason::Rejected) == b.failures(
        FailureReason::Rejected,
    ).wrapping_add(1));
    assert(counted_once(b, a, false));
}

/// An inference request that is let in and given up gives its permit back, and is
/// counted as one canceled request of the model that it names.
pub proof fn law_abandoned_infer_counted_once(
    before: ManagerView,
    request: RequestView,
    now: u128,
    between: ManagerView,
    opened: OpenedInfer,
    inputs: Vec<Tensor>,
    ready: u128,
    running: ManagerView,
    started: StartedInfer,
)
    requires
        before.well_formed(),
        infer_open(before, request, now, between, Ok((opened, inputs))),
        infer_admit(
            between,
            opened,
            tensor::tensor_views(inputs@),
            ready,
            running,
            Ok(started),
        ),
    ensures
        ({
            let i = started.model();
            let after = abandoned(running, started);
            let b = before.registry[i].1;
            let a = after.registry[i].1;
            &&& before.place(text::trim(request.model_name)) == Some(i)
            &&& same_but_counters(before, after, i)
            &&& counted_once(b, a, false)
            &&& a.failures(FailureReason::Canceled) == b.failures(
                FailureReason::Canceled,
            ).wrapping_add(1)
        }),
{
    let name = text::trim(request.model_name);
    let i = started.model();
    manager::lemma_last_named(before.models, name);
    manager::law_permit_given_back(between, i);
    let after = abandoned(running, started);
    assert(after.models =~= before.models);
    let b = before.registry[i].1;
    let a = after.registry[i].1;
    assert(a == started.timer().failed(b.with_pending(), FailureReason::Canceled));
    assert(a.failures(FailureReason::Canceled) == b.failures(
        FailureReason::Canceled,
    ).wrapping_add(1));
    assert(counted_once(b, a, false));
}

/// An inference request that is let in and whose backend runs gives its permit
/// back. It is counted once for the model that it names: as a success where it was
/// answered, once it is settled, else as a failure.
pub proof fn law_finished_infer_counted_once(
    before: ManagerView,
    request: RequestView,
    now: u128,
    between: ManagerView,
    opened: OpenedInfer,
    inputs: Vec<Tensor>,
    ready: u128,
    running: ManagerView,
    started: StartedInfer,
    execution: Result<Execution, Status>,
    ran: u128,
    after: ManagerView,
    r: Result<(AnsweredInfer, ModelInferResponse), Status>,
    settled: u128,
)
    requires
        before.well_formed(),
        infer_open(before, request, now, between, Ok((opened, inputs))),
        infer_admit(
            between,
            opened,
            tensor::tensor_views(inputs@),
            ready,
            running,
            Ok(started),
        ),
        infer_answered(running, started, request, execution, ran, after, r),
    ensures
        ({
            let i = started.model();
            let last = match r {
                Ok((answered, _)) => infer_settled(after, answered, settled),
                Err(_) => after,
            };
            &&& before.place(text::trim(request.model_name)) == Some(i)
            &&& same_but_counters(before, last, i)
            &&& counted_once(before.registry[i].1, last.registry[i].1, r is Ok)
        }),
{
    let name = text::trim(request.model_name);
    let i = started.model();
    manager::lemma_last_named(before.models, name);
    let timer = manager::timer_after_run(started.timer(), execution, started.batch(), ran);
    let b = before.registry[i].1;
    manager::law_permit_given_back(between, i);
    assert(running.released(i).models =~= before.models);
    assert(started.timer().pending);
    let counted = after_run(running, i, started.timer(), execution);
    assert(counted.registry[i].1 == b.with_pending().without_pending(execution is Ok));
    match infer_answer(
        running.models[i].contract,
        request,
        started.name(),
        started.expected_batch(),
        execution,
    ) {
        Ok(_) => {
            let (answered, _) = r->Ok_0;
            let last = infer_settled(after, answered, settled);
            assert(last.registry[i].1 == timer.committed(counted.registry[i].1, settled));
        },
        Err(status) => {
            let a = after.registry[i].1;
            let reason = timer.reason_for(status.0);
            assert(a == timer.failed(counted.registry[i].1, reason));
            assert(a.failures(reason) == b.failures(reason).wrapping_add(1));
            assert(counted_once(b, a, false));
        },
    }
}

/// A checkpoint request that is refused after it named a configured model, be it
/// by a message, for want of an input, or for want of a permit, is counted as one
/// failure of that model.
pub proof fn law_refused_checkpoint_counted_once(
    before: ManagerView,
    i: int,
    now: u128,
    ready: Option<u128>,
    code: Code,
)
    requires
        before.well_formed(),
        0 <= i < before.models.len(),
    ensures
        ({
            let timer = match ready {
                Some(time) => metrics::opened(i, now).after_input(time),
                None => metrics::opened(i, now),
            };
            let after = after_failure(begun(before, i), timer, code);
            &&& same_but_counters(before, after, i)
            &&& counted_once(before.registry[i].1, after.registry[i].1, false)
        }),
{
    let timer = match ready {
        Some(time) => metrics::opened(i, now).after_input(time),
        None => metrics::opened(i, now),
    };
    let after = after_failure(begun(before, i), timer, code);
    let reason = timer.reason_for(code);
    let b = before.registry[i].1;
    let a = after.registry[i].1;
    assert(a == timer.failed(b.with_pending(), reason));
    assert(a.failures(reason) == b.failures(reason).wrapping_add(1));
    assert(counted_once(b, a, false));
}

/// A checkpoint request whose stream the backend provides holds a permit of its
/// model until the stream has ended and then gives it back. It is counted once for
/// its model: as a success where the stream ended with exit code zero, else as a
/// failure.
pub proof fn law_relayed_checkpoint_counted_once(
    before: ManagerView,
    i: int,
    now: u128,
    ready: u128,
    outcome: Option<Result<(), StatusView>>,
    batch: u64,
    end: u128,
)
    requires
        before.well_formed(),
        0 <= i < before.models.len(),
        before.models[i].in_use < before.models[i].capacity,
    ensures
        ({
            let open = begun(before, i);
            let streaming = open.with_in_use(i, open.models[i].in_use + 1);
            let after = ManagerView {
                registry: relay::settled(
                    metrics::opened(i, now).after_input(ready),
                    streaming.registry,
                    outcome,
                    batch,
                    end,
                ),
                ..streaming.released(i)
            };
            &&& streaming.well_formed()
            &&& streaming.models[i].in_use == before.models[i].in_use + 1
            &&& same_but_counters(before, after, i)
            &&& counted_once(
                before.registry[i].1,
                after.registry[i].1,
                outcome is Some && outcome->0 is Ok,
            )
        }),
{
    let timer = metrics::opened(i, now).after_input(ready);
    let open = begun(before, i);
    manager::law_permit_given_back(open, i);
    assert(open.with_in_use(i, open.models[i].in_use + 1).released(i).models =~= before.models);
    let b = before.registry[i].1;
    let a = relay::settled(timer, open.registry, outcome, batch, end)[i].1;
    assert(timer.pending);
    match outcome {
        Some(Ok(_)) => {},
        Some(Err(status)) => {
            let pinned = if status.0 != Code::Cancelled {
                timer.after_backend_failure()
            } else {
                timer
            };
            let reason = pinned.reason_for(status.0);
            assert(a == timer.failed(b.with_pending(), reason));
            assert(a.failures(reason) == b.failures(reason).wrapping_add(1));
            assert(counted_once(b, a, false));
        },
        None => {
            let reason = timer.reason_for(relay::no_result().0);
            assert(a == timer.failed(b.with_pending(), reason));
            assert(a.failures(reason) == b.failures(reason).wrapping_add(1));
            assert(counted_once(b, a, false));
        },
    }
}

/// The manager after a checkpoint request ran the backend of the model at `i`:
/// its permit is given back, and the request has ended with the failure of the
/// run, or with the delivery of its outputs.
pub open spec fn checkpoint_ran(
    running: ManagerView,
    i: int,
    timer: TimerView,
    execution: Result<Execution, Status>,
    batch: u64,
    ran: u128,
    delivered: bool,
    end: u128,
) -> ManagerView {
    let marked = manager::timer_after_run(timer, execution, batch, ran);
    let counted = after_run(running, i, timer, execution);
    match manager::run_result(execution) {
        Err(status) => after_failure(counted, marked, status.0),
        Ok(_) => if delivered {
            counted.with_counters(
                marked.model,
                marked.committed(counted.registry[marked.model].1, end),
            )
        } else {
            after_failure(counted, marked, Code::Cancelled)
        },
    }
}

/// A checkpoint request that runs the model's backend gives its permit back, and
/// is counted once for its model: as a success where the run succeeded and the
/// client read all of the answer, else as a failure.
pub proof fn law_run_checkpoint_counted_once(
    before: ManagerView,
    i: int,
    now: u128,
    ready: u128,
    execution: Result<Execution, Status>,
    batch: u64,
    ran: u128,
    delivered: bool,
    end: u128,
)
    requires
        before.well_formed(),
        0 <= i < before.models.len(),
        before.models[i].in_use < before.models[i].capacity,
    ensures
        ({
            let running = begun(before, i).with_in_use(i, before.models[i].in_use + 1);
            let timer = metrics::opened(i, now).after_input(ready);
            let after = checkpoint_ran(running, i, timer, execution, batch, ran, delivered, end);
            &&& same_but_counters(before, after, i)
            &&& counted_once(
                before.registry[i].1,
                after.registry[i].1,
                manager::run_result(execution) is Ok && delivered,
            )
        }),
{
    let open = begun(before, i);
    let running = open.with_in_use(i, before.models[i].in_use + 1);
    let timer = metrics::opened(i, now).after_input(ready);
    manager::law_permit_given_back(open, i);
    assert(running.released(i).models =~= before.models);
    assert(timer.pending);
    let marked = manager::timer_after_run(timer, execution, batch, ran);
    let counted = after_run(running, i, timer, execution);
    let after = checkpoint_ran(running, i, timer, execution, batch, ran, delivered, end);
    let b = before.registry[i].1;
    let a = after.registry[i].1;
    assert(counted.registry[i].1 == b.with_pending().without_pending(execution is Ok));
    match manager::run_result(execution) {
        Ok(_) if delivered => {
            assert(a == marked.committed(counted.registry[i].1, end));
        },
        outcome => {
            let code = match outcome {
                Err(status) => status.0,
                Ok(_) => Code::Cancelled,
            };
            let reason = marked.reason_for(code);
            assert(a == marked.failed(counted.registry[i].1, reason));
            assert(a.failures(reason) == b.failures(reason).wrapping_add(1));
            assert(counted_once(b, a, false));
        },
    }
}

} // verus!
