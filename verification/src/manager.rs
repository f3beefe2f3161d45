//! The configured models: their contracts, their request permits, and the
//! accounting of their requests.
//!
//! Each model has as many permits as its queue capacity. A request takes one
//! before its backend runs and gives it back afterwards; where none is free the
//! request is refused at once.

use vstd::prelude::*;

use crate::checkpoint;
use crate::checkpoint::{stream_outputs, CheckpointResponse, CheckpointView};
use crate::contract::{Contract, ContractView};
use crate::metrics;
use crate::metrics::{InferenceMetrics, ModelMetrics, RegistryView, RequestTimer, TimerView};
use crate::relay;
use crate::status::{Code, Status, StatusView};
use crate::tensor;
use crate::tensor::{Tensor, TensorView};
use crate::text;
use crate::text::{cat2, cat3, same};

verus! {

/// A model that was loaded and is ready to be served.
#[derive(Debug)]
pub struct LoadedModel {
    pub name: String,
    pub contract: Contract,
    /// The platform that its backend reports.
    pub platform: String,
    pub queue_capacity: usize,
}

#[derive(Debug)]
struct ModelEntry {
    name: String,
    contract: Contract,
    platform: String,
    capacity: usize,
    in_use: usize,
}

/// A served model as contracts see it, with its permits in all and in use.
#[verifier::ext_equal]
pub struct ModelView {
    pub name: Seq<char>,
    pub contract: ContractView,
    pub platform: Seq<char>,
    pub capacity: nat,
    pub in_use: nat,
}

impl View for ModelEntry {
    type V = ModelView;

    closed spec fn view(&self) -> ModelView {
        ModelView {
            name: self.name@,
            contract: self.contract@,
            platform: self.platform@,
            capacity: self.capacity as nat,
            in_use: self.in_use as nat,
        }
    }
}

/// All models that the server serves, in the order of the configuration.
#[derive(Debug)]
pub struct ModelManager {
    entries: Vec<ModelEntry>,
    metrics: InferenceMetrics,
}

/// A [`ModelManager`] as contracts see it.
#[verifier::ext_equal]
pub struct ManagerView {
    pub models: Seq<ModelView>,
    pub registry: RegistryView,
}

impl View for ModelManager {
    type V = ManagerView;

    closed spec fn view(&self) -> ManagerView {
        ManagerView {
            models: Seq::new(self.entries@.len(), |i: int| self.entries@[i]@),
            registry: self.metrics@,
        }
    }
}

impl ManagerView {
    /// No model has more permits in use than it has, and the registry counts
    /// for exactly the served models.
    pub open spec fn well_formed(self) -> bool {
        &&& self.registry.len() == self.models.len()
        &&& forall|i: int|
            0 <= i < self.models.len() ==> self.registry[i].0 == (#[trigger] self.models[i]).name
        &&& forall|i: int|
            0 <= i < self.models.len() ==> (#[trigger] self.models[i]).in_use
                <= self.models[i].capacity
    }

    /// The place of a model: the last one configured under the name.
    pub open spec fn place(self, name: Seq<char>) -> Option<int> {
        last_named(self.models, name)
    }

    /// With other permits in use by the model at `i`.
    pub open spec fn with_in_use(self, i: int, in_use: nat) -> ManagerView {
        ManagerView {
            models: self.models.update(i, ModelView { in_use, ..self.models[i] }),
            ..self
        }
    }

    /// With other counters for the model at `i`.
    pub open spec fn with_counters(self, i: int, counters: ModelMetrics) -> ManagerView {
        ManagerView { registry: metrics::with_counters(self.registry, i, counters), ..self }
    }

    /// With a permit given back by the model at `i`.
    pub open spec fn released(self, i: int) -> ManagerView {
        if self.models[i].in_use > 0 {
            self.with_in_use(i, (self.models[i].in_use - 1) as nat)
        } else {
            self
        }
    }
}

/// The last place of a name among the models.
pub open spec fn last_named(models: Seq<ModelView>, name: Seq<char>) -> Option<int>
    decreases models.len(),
{
    if models.len() == 0 {
        None
    } else if models.last().name == name {
        Some(models.len() - 1)
    } else {
        last_named(models.drop_last(), name)
    }
}

/// [`last_named`] is a place of the name, and exists exactly if the name does.
pub proof fn lemma_last_named(models: Seq<ModelView>, name: Seq<char>)
    ensures
        match last_named(models, name) {
            Some(i) => 0 <= i < models.len() && models[i].name == name,
            None => forall|i: int| 0 <= i < models.len() ==> (#[trigger] models[i]).name != name,
        },
    decreases models.len(),
{
    if models.len() > 0 && models.last().name != name {
        lemma_last_named(models.drop_last(), name);
        assert forall|i: int|
            last_named(models, name) is None && 0 <= i < models.len() implies (
        #[trigger] models[i]).name != name by {
            if i < models.len() - 1 {
                assert(models[i] == models.drop_last()[i]);
            }
        }
    }
}

proof fn lemma_same_place(models: Seq<ModelView>, registry: RegistryView, name: Seq<char>)
    requires
        registry.len() == models.len(),
        forall|i: int| 0 <= i < models.len() ==> registry[i].0 == (#[trigger] models[i]).name,
    ensures
        metrics::last_place(registry, name) == last_named(models, name),
    decreases models.len(),
{
    if models.len() > 0 {
        assert(registry.last().0 == models[models.len() - 1].name);
        let front = models.drop_last();
        assert forall|i: int| 0 <= i < front.len() implies registry.drop_last()[i].0 == (
        #[trigger] front[i]).name by {
            assert(registry[i].0 == models[i].name);
        }
        lemma_same_place(front, registry.drop_last(), name);
    }
}

/// The refusal of a model that is not configured.
pub open spec fn not_configured(name: Seq<char>) -> StatusView {
    (Code::NotFound, "model '"@ + name + "' is not configured in nereid.yaml"@)
}

/// The refusal of a request for which no permit is free.
pub open spec fn queue_full() -> StatusView {
    (Code::ResourceExhausted, "model queue full, retry later"@)
}

/// Makes [`not_configured`].
pub fn not_configured_status(model_name: &str) -> (r: Status)
    ensures
        r@ == not_configured(model_name@),
{
    Status::not_found(cat3("model '", model_name, "' is not configured in nereid.yaml"))
}

/// The number of inferences in a request: its batch size where the model
/// declares a batch dimension, one otherwise and at least.
pub open spec fn spec_inference_count(contract: ContractView, inputs: Seq<TensorView>) -> u64 {
    if inputs.len() == 0 {
        1
    } else {
        match contract.batch_of(inputs[0].shape) {
            Some(batch) if batch > 1 => batch as u64,
            _ => 1,
        }
    }
}

/// Computes [`spec_inference_count`] for a list of inputs.
pub fn inference_count(contract: &Contract, inputs: &Vec<Tensor>) -> (r: u64)
    ensures
        r == spec_inference_count(contract@, tensor::tensor_views(inputs@)),
{
    if inputs.len() == 0 {
        return 1;
    }
    assert(tensor::tensor_views(inputs@)[0] == inputs@[0]@);
    match contract.expected_batch(inputs[0].shape.as_slice()) {
        Some(batch) => {
            if batch > 1 {
                batch as u64
            } else {
                1
            }
        },
        None => 1,
    }
}

/// One timed run of a backend: the wait for a worker and the run, in
/// nanoseconds, and the outputs or the model's failure.
#[derive(Debug)]
pub struct Execution {
    pub queued: u128,
    pub ran: u128,
    pub result: Result<Vec<Tensor>, Status>,
}

/// A permit to run a model's backend once.
#[derive(Debug)]
pub struct Permit {
    model: usize,
    batch: u64,
}

impl Permit {
    /// The place of the model that the permit is for.
    pub closed spec fn model(self) -> int {
        self.model as int
    }

    /// The number of inferences in the request.
    pub closed spec fn batch(self) -> u64 {
        self.batch
    }
}

/// The status of a backend run that did not come to an end.
pub open spec fn join_failure(cause: Seq<char>) -> StatusView {
    (Code::Internal, "inference task failed to join: "@ + cause)
}

/// Makes [`join_failure`].
pub fn join_failure_status(cause: &str) -> (r: Status)
    ensures
        r@ == join_failure(cause@),
{
    Status::internal(cat2("inference task failed to join: ", cause))
}

/// The timer after a run of the backend, and whether the failure is the model's.
pub open spec fn timer_after_run(
    timer: TimerView,
    execution: Result<Execution, Status>,
    batch: u64,
    now: u128,
) -> TimerView {
    match execution {
        Ok(run) => {
            let ran = timer.after_execution(run.queued, run.ran, batch, now);
            if run.result is Err {
                ran.after_backend_failure()
            } else {
                ran
            }
        },
        Err(_) => timer.after_backend_failure(),
    }
}

/// Whether a run of the backend took the request off the pending gauge.
pub open spec fn run_counts(timer: TimerView, execution: Result<Execution, Status>) -> bool {
    timer.pending && execution is Ok
}

/// The outputs of a run of the backend, or the failure.
pub open spec fn run_result(execution: Result<Execution, Status>) -> Result<
    Seq<TensorView>,
    StatusView,
> {
    match execution {
        Err(status) => Err(status@),
        Ok(run) => match run.result {
            Err(status) => Err(status@),
            Ok(outputs) => Ok(tensor::tensor_views(outputs@)),
        },
    }
}

impl ModelManager {
    /// Serves the given models: all permits are free, all counters at zero.
    pub fn new(models: Vec<LoadedModel>) -> (r: ModelManager)
        ensures
            r@.well_formed(),
            r@.models == Seq::new(
                models@.len(),
                |i: int|
                    ModelView {
                        name: models@[i].name@,
                        contract: models@[i].contract@,
                        platform: models@[i].platform@,
                        capacity: models@[i].queue_capacity as nat,
                        in_use: 0,
                    },
            ),
            r@.registry == Seq::new(
                models@.len(),
                |i: int| (models@[i].name@, ModelMetrics::zero()),
            ),
    {
        let mut names: Vec<String> = Vec::new();
        let mut entries: Vec<ModelEntry> = Vec::new();
        let mut i: usize = 0;
        while i < models.len()
            invariant
                i <= models@.len(),
                names@.len() == i,
                entries@.len() == i,
                forall|k: int| 0 <= k < i ==> (#[trigger] names@[k])@ == models@[k].name@,
                forall|k: int|
                    0 <= k < i ==> (#[trigger] entries@[k])@ == (ModelView {
                        name: models@[k].name@,
                        contract: models@[k].contract@,
                        platform: models@[k].platform@,
                        capacity: models@[k].queue_capacity as nat,
                        in_use: 0,
                    }),
            decreases models@.len() - i,
        {
            names.push(models[i].name.clone());
            entries.push(
                ModelEntry {
                    name: models[i].name.clone(),
                    contract: models[i].contract.clone(),
                    platform: models[i].platform.clone(),
                    capacity: models[i].queue_capacity,
                    in_use: 0,
                },
            );
            i = i + 1;
        }
        let registry = InferenceMetrics::new(names);
        let manager = ModelManager { entries, metrics: registry };
        proof {
            assert(manager@.registry =~= Seq::new(
                models@.len(),
                |i: int| (models@[i].name@, ModelMetrics::zero()),
            ));
            assert(manager@.models =~= Seq::new(
                models@.len(),
                |i: int|
                    ModelView {
                        name: models@[i].name@,
                        contract: models@[i].contract@,
                        platform: models@[i].platform@,
                        capacity: models@[i].queue_capacity as nat,
                        in_use: 0,
                    },
            ));
        }
        manager
    }

    fn find(&self, model_name: &str) -> (r: Option<usize>)
        ensures
            match r {
                Some(i) => self@.place(model_name@) == Some(i as int) && i < self.entries@.len(),
                None => self@.place(model_name@) is None,
            },
    {
        let mut i: usize = self.entries.len();
        let ghost models = self@.models;
        assert(models.take(i as int) =~= models);
        while i > 0
            invariant
                i <= self.entries@.len(),
                models == self@.models,
                last_named(models, model_name@) == last_named(
                    models.take(i as int),
                    model_name@,
                ),
            decreases i,
        {
            proof {
                assert(models.take(i as int).drop_last() =~= models.take(i - 1));
                assert(models.take(i as int).last() == self.entries@[i - 1]@);
            }
            if same(self.entries[i - 1].name.as_str(), model_name) {
                return Some(i - 1);
            }
            i = i - 1;
        }
        None
    }

    /// The names of the configured models, in order.
    pub fn configured_models(&self) -> (r: Vec<String>)
        ensures
            text::texts(r@) == Seq::new(self@.models.len(), |i: int| self@.models[i].name),
    {
        let mut out: Vec<String> = Vec::new();
        let mut i: usize = 0;
        while i < self.entries.len()
            invariant
                i <= self.entries@.len(),
                out@.len() == i,
                forall|k: int| 0 <= k < i ==> (#[trigger] out@[k])@ == self.entries@[k].name@,
            decreases self.entries@.len() - i,
        {
            out.push(self.entries[i].name.clone());
            i = i + 1;
        }
        assert(text::texts(out@) =~= Seq::new(
            self@.models.len(),
            |i: int| self@.models[i].name,
        ));
        out
    }

    /// The registry that every request is accounted in.
    pub fn metrics(&self) -> (r: &InferenceMetrics)
        ensures
            r@ == self@.registry,
    {
        &self.metrics
    }

    /// Whether a model of that name is served.
    pub fn is_configured(&self, model_name: &str) -> (r: bool)
        ensures
            r == self@.place(model_name@) is Some,
    {
        self.find(model_name).is_some()
    }

    /// The contract of a model.
    pub fn contract(&self, model_name: &str) -> (r: Option<&Contract>)
        ensures
            match self@.place(model_name@) {
                Some(i) => r matches Some(c) && c@ == self@.models[i].contract,
                None => r is None,
            },
    {
        match self.find(model_name) {
            Some(i) => Some(&self.entries[i].contract),
            None => None,
        }
    }

    /// The platform of a model.
    pub fn platform(&self, model_name: &str) -> (r: Option<&str>)
        ensures
            match self@.place(model_name@) {
                Some(i) => r matches Some(p) && p@ == self@.models[i].platform,
                None => r is None,
            },
    {
        match self.find(model_name) {
            Some(i) => Some(self.entries[i].platform.as_str()),
            None => None,
        }
    }

    /// Opens the accounting of one request, as soon as it has named a model.
    pub fn begin_request(&mut self, model_name: &str, now: u128) -> (r: Result<
        RequestTimer,
        Status,
    >)
        requires
            old(self)@.well_formed(),
        ensures
            final(self)@.well_formed(),
            match old(self)@.place(model_name@) {
                Some(i) => {
                    &&& r matches Ok(timer) && timer@ == metrics::opened(i, now)
                        && timer.belongs_to(final(self)@.registry)
                    &&& final(self)@ == old(self)@.with_counters(
                        i,
                        old(self)@.registry[i].1.with_pending(),
                    )
                },
                None => {
                    &&& r matches Err(e) && e@ == not_configured(model_name@)
                    &&& final(self)@ == old(self)@
                },
            },
    {
        proof {
            lemma_same_place(self@.models, self@.registry, model_name@);
            lemma_last_named(self@.models, model_name@);
        }
        match self.metrics.begin(model_name, now) {
            Some(timer) => {
                assert(self@.models =~= old(self)@.models);
                Ok(timer)
            },
            None => {
                assert(self@.models =~= old(self)@.models);
                Err(not_configured_status(model_name))
            },
        }
    }

    /// Takes a permit for the model at `i`, if one is free.
    fn take_permit(&mut self, i: usize) -> (r: bool)
        requires
            old(self)@.well_formed(),
            i < old(self)@.models.len(),
        ensures
            final(self)@.well_formed(),
            r == (old(self)@.models[i as int].in_use < old(self)@.models[i as int].capacity),
            final(self)@ == if r {
                old(self)@.with_in_use(i as int, old(self)@.models[i as int].in_use + 1)
            } else {
                old(self)@
            },
    {
        assert(self@.models[i as int] == self.entries@[i as int]@);
        if self.entries[i].in_use < self.entries[i].capacity {
            let in_use: usize = self.entries[i].in_use + 1;
            self.set_in_use(i, in_use);
            true
        } else {
            false
        }
    }

    fn set_in_use(&mut self, i: usize, in_use: usize)
        requires
            old(self)@.well_formed(),
            i < old(self)@.models.len(),
            in_use <= old(self)@.models[i as int].capacity,
        ensures
            final(self)@ == old(self)@.with_in_use(i as int, in_use as nat),
            final(self)@.well_formed(),
    {
        let entry = &self.entries[i];
        let changed = ModelEntry {
            name: entry.name.clone(),
            contract: entry.contract.clone(),
            platform: entry.platform.clone(),
            capacity: entry.capacity,
            in_use,
        };
        self.entries.set(i, changed);
        assert(self@ =~= old(self)@.with_in_use(i as int, in_use as nat));
    }

    /// Gives a permit of the model at `i` back.
    fn give_back(&mut self, i: usize)
        requires
            old(self)@.well_formed(),
            i < old(self)@.models.len(),
        ensures
            final(self)@ == old(self)@.released(i as int),
            final(self)@.well_formed(),
    {
        assert(self@.models[i as int] == self.entries@[i as int]@);
        if self.entries[i].in_use > 0 {
            let in_use: usize = self.entries[i].in_use - 1;
            self.set_in_use(i, in_use);
        }
    }

    /// Starts an inference: takes a permit for the model and counts the
    /// inferences in the request. Refuses it where the model is not configured
    /// or no permit is free.
    pub fn infer(&mut self, model_name: &str, inputs: &Vec<Tensor>) -> (r: Result<Permit, Status>)
        requires
            old(self)@.well_formed(),
        ensures
            final(self)@.well_formed(),
            match old(self)@.place(model_name@) {
                None => {
                    &&& r matches Err(e) && e@ == not_configured(model_name@)
                    &&& final(self)@ == old(self)@
                },
                Some(i) => {
                    let model = old(self)@.models[i];
                    if model.in_use < model.capacity {
                        &&& r matches Ok(permit) && permit.model() == i && permit.batch()
                            == spec_inference_count(
                            model.contract,
                            tensor::tensor_views(inputs@),
                        )
                        &&& final(self)@ == old(self)@.with_in_use(i, model.in_use + 1)
                    } else {
                        &&& r matches Err(e) && e@ == queue_full()
                        &&& final(self)@ == old(self)@
                    }
                },
            },
    {
        match self.find(model_name) {
            None => Err(not_configured_status(model_name)),
            Some(i) => {
                assert(self@.models[i as int] == self.entries@[i as int]@);
                let batch: u64 = inference_count(&self.entries[i].contract, inputs);
                if self.take_permit(i) {
                    Ok(Permit { model: i, batch })
                } else {
                    Err(
                        Status::resource_exhausted("model queue full, retry later".to_string()),
                    )
                }
            },
        }
    }

    /// Gives a permit back without a run, because the request was given up.
    pub fn release(&mut self, permit: Permit)
        requires
            old(self)@.well_formed(),
            0 <= permit.model() < old(self)@.models.len(),
        ensures
            final(self)@ == old(self)@.released(permit.model()),
            final(self)@.well_formed(),
    {
        self.give_back(permit.model);
    }

    /// Takes note of a run of the backend: gives the permit back, marks the run
    /// on the timer, and pins a failure on the model. Hands the outputs, or the
    /// failure, on.
    pub fn complete(
        &mut self,
        permit: Permit,
        timer: &mut RequestTimer,
        execution: Result<Execution, Status>,
        now: u128,
    ) -> (r: Result<Vec<Tensor>, Status>)
        requires
            old(self)@.well_formed(),
            0 <= permit.model() < old(self)@.models.len(),
            old(timer).belongs_to(old(self)@.registry),
        ensures
            final(self)@.well_formed(),
            final(timer)@ == timer_after_run(old(timer)@, execution, permit.batch(), now),
            final(self)@ == old(self)@.released(permit.model()).with_counters(
                old(timer)@.model,
                old(self)@.registry[old(timer)@.model].1.without_pending(
                    run_counts(old(timer)@, execution),
                ),
            ),
            match r {
                Ok(outputs) => run_result(execution) == Ok::<Seq<TensorView>, StatusView>(
                    tensor::tensor_views(outputs@),
                ),
                Err(e) => run_result(execution) == Err::<Seq<TensorView>, StatusView>(e@),
            },
    {
        self.give_back(permit.model);
        let ghost freed = self@;
        match execution {
            Ok(run) => {
                timer.executed(&mut self.metrics, run.queued, run.ran, permit.batch, now);
                assert(self@.models =~= freed.models);
                match run.result {
                    Ok(outputs) => Ok(outputs),
                    Err(status) => {
                        timer.backend_failed();
                        Err(status)
                    },
                }
            },
            Err(status) => {
                timer.backend_failed();
                assert(self@.registry =~= metrics::with_counters(
                    freed.registry,
                    timer@.model,
                    freed.registry[timer@.model].1.without_pending(false),
                ));
                Err(status)
            },
        }
    }

    /// Ends a request that succeeded.
    pub fn succeed_request(&mut self, timer: RequestTimer, now: u128)
        requires
            old(self)@.well_formed(),
            timer.belongs_to(old(self)@.registry),
        ensures
            final(self)@.well_formed(),
            final(self)@ == old(self)@.with_counters(
                timer@.model,
                timer@.committed(old(self)@.registry[timer@.model].1, now),
            ),
    {
        timer.succeed(&mut self.metrics, now);
        assert(self@.models =~= old(self)@.models);
    }

    /// Ends a request that failed.
    pub fn fail_request(&mut self, timer: RequestTimer, status: &Status)
        requires
            old(self)@.well_formed(),
            timer.belongs_to(old(self)@.registry),
        ensures
            final(self)@.well_formed(),
            final(self)@ == old(self)@.with_counters(
                timer@.model,
                timer@.failed(
                    old(self)@.registry[timer@.model].1,
                    timer@.reason_for(status@.0),
                ),
            ),
    {
        timer.fail(&mut self.metrics, status);
        assert(self@.models =~= old(self)@.models);
    }

    /// Ends a request that was given up.
    pub fn cancel_request(&mut self, timer: RequestTimer)
        requires
            old(self)@.well_formed(),
            timer.belongs_to(old(self)@.registry),
        ensures
            final(self)@.well_formed(),
            final(self)@ == old(self)@.with_counters(
                timer@.model,
                timer@.failed(
                    old(self)@.registry[timer@.model].1,
                    metrics::FailureReason::Canceled,
                ),
            ),
    {
        timer.cancel(&mut self.metrics);
        assert(self@.models =~= old(self)@.models);
    }

    /// Ends a request whose stream a backend provided, when the stream has ended:
    /// gives the permit back.
    pub fn settle_stream(
        &mut self,
        record: relay::StreamRecord,
        permit: Permit,
        timer: RequestTimer,
        now: u128,
    )
        requires
            old(self)@.well_formed(),
            0 <= permit.model() < old(self)@.models.len(),
            timer.belongs_to(old(self)@.registry),
        ensures
            final(self)@.well_formed(),
            final(self)@ == (ManagerView {
                registry: relay::settled(
                    timer@,
                    old(self)@.registry,
                    record@,
                    permit.batch(),
                    now,
                ),
                ..old(self)@.released(permit.model())
            }),
    {
        self.give_back(permit.model);
        let ghost freed = self@;
        record.settle(timer, &mut self.metrics, permit.batch, now);
        assert(self@.models =~= freed.models);
    }
}

/// What a completed run of the backend answers a checkpoint request with: its
/// outputs in messages, or the failure.
pub open spec fn spec_checkpoint_answer(
    model: Seq<char>,
    execution: Result<Execution, Status>,
) -> Result<Seq<CheckpointView>, StatusView> {
    match run_result(execution) {
        Ok(outputs) => Ok(checkpoint::spec_stream_outputs(model, outputs)),
        Err(status) => Err(status),
    }
}

/// The optional input of a checkpoint request as the list that a backend runs on.
pub open spec fn input_list(input: Option<Tensor>) -> Seq<TensorView> {
    match input {
        Some(t) => seq![t@],
        None => seq![],
    }
}

impl ModelManager {
    /// Starts a checkpoint request: takes a permit for the model and counts the
    /// inferences in it, before any work of the backend, be it a run or a stream of
    /// its own. Where the model is not configured or no permit is free, ends the
    /// request.
    pub fn checkpoint(
        &mut self,
        model_name: &str,
        input: &Option<Tensor>,
        timer: RequestTimer,
    ) -> (r: Result<(RequestTimer, Permit), Status>)
        requires
            old(self)@.well_formed(),
            timer.belongs_to(old(self)@.registry),
        ensures
            final(self)@.well_formed(),
            match old(self)@.place(model_name@) {
                Some(i) => {
                    let model = old(self)@.models[i];
                    if model.in_use < model.capacity {
                        &&& r matches Ok((kept, permit)) && kept == timer && permit.model() == i
                            && permit.batch() == spec_inference_count(
                            model.contract,
                            input_list(*input),
                        )
                        &&& final(self)@ == old(self)@.with_in_use(i, model.in_use + 1)
                    } else {
                        &&& r matches Err(e) && e@ == queue_full()
                        &&& final(self)@ == old(self)@.with_counters(
                            timer@.model,
                            timer@.failed(
                                old(self)@.registry[timer@.model].1,
                                timer@.reason_for(Code::ResourceExhausted),
                            ),
                        )
                    }
                },
                None => {
                    &&& r matches Err(e) && e@ == not_configured(model_name@)
                    &&& final(self)@ == old(self)@.with_counters(
                        timer@.model,
                        timer@.failed(
                            old(self)@.registry[timer@.model].1,
                            timer@.reason_for(Code::NotFound),
                        ),
                    )
                },
            },
    {
        let mut inputs: Vec<Tensor> = Vec::new();
        if let Some(t) = input {
            inputs.push(t.clone());
        }
        assert(tensor::tensor_views(inputs@) =~= input_list(*input));
        match self.infer(model_name, &inputs) {
            Ok(permit) => Ok((timer, permit)),
            Err(status) => {
                self.fail_request(timer, &status);
                Err(status)
            },
        }
    }

    /// Takes note of the run of a backend for a checkpoint request: gives the
    /// permit back and answers with the outputs in messages. Where the run
    /// failed, ends the request; else it goes on until its answer is delivered.
    pub fn complete_checkpoint(
        &mut self,
        model_name: &str,
        permit: Permit,
        timer: RequestTimer,
        execution: Result<Execution, Status>,
        now: u128,
    ) -> (r: Result<(RequestTimer, Vec<CheckpointResponse>), Status>)
        requires
            old(self)@.well_formed(),
            0 <= permit.model() < old(self)@.models.len(),
            timer.belongs_to(old(self)@.registry),
        ensures
            final(self)@.well_formed(),
            ({
                let ran = timer_after_run(timer@, execution, permit.batch(), now);
                let counted = old(self)@.released(permit.model()).with_counters(
                    timer@.model,
                    old(self)@.registry[timer@.model].1.without_pending(
                        run_counts(timer@, execution),
                    ),
                );
                match spec_checkpoint_answer(model_name@, execution) {
                    Ok(messages) => {
                        &&& r matches Ok((kept, answer)) && kept@ == ran
                            && checkpoint::response_views(answer@) == messages
                        &&& final(self)@ == counted
                    },
                    Err(status) => {
                        &&& r matches Err(e) && e@ == status
                        &&& final(self)@ == counted.with_counters(
                            timer@.model,
                            ran.failed(
                                counted.registry[timer@.model].1,
                                ran.reason_for(status.0),
                            ),
                        )
                    },
                }
            }),
    {
        let mut running = timer;
        match self.complete(permit, &mut running, execution, now) {
            Ok(outputs) => {
                let messages = stream_outputs(model_name, &outputs);
                Ok((running, messages))
            },
            Err(status) => {
                self.fail_request(running, &status);
                Err(status)
            },
        }
    }

    /// Ends a checkpoint request whose answer was sent: a success where the
    /// client read all of it.
    pub fn settle_checkpoint(&mut self, timer: RequestTimer, delivered: bool, now: u128)
        requires
            old(self)@.well_formed(),
            timer.belongs_to(old(self)@.registry),
        ensures
            final(self)@.well_formed(),
            final(self)@ == old(self)@.with_counters(
                timer@.model,
                if delivered {
                    timer@.committed(old(self)@.registry[timer@.model].1, now)
                } else {
                    timer@.failed(
                        old(self)@.registry[timer@.model].1,
                        timer@.reason_for(Code::Cancelled),
                    )
                },
            ),
    {
        if delivered {
            self.succeed_request(timer, now);
        } else {
            let status = Status::cancelled("client stopped reading the stream".to_string());
            self.fail_request(timer, &status);
        }
    }
}

/// The manager after a number of requests for permits of the model at `i`, none
/// of which was given back: each takes one where one is free.
pub open spec fn asked_times(manager: ManagerView, i: int, requests: nat) -> ManagerView
    decreases requests,
{
    if requests == 0 {
        manager
    } else {
        let before = asked_times(manager, i, (requests - 1) as nat);
        if before.models[i].in_use < before.models[i].capacity {
            before.with_in_use(i, before.models[i].in_use + 1)
        } else {
            before
        }
    }
}

/// However many requests come, no more than the model's queue capacity are in
/// flight at once: as many are granted as there are free permits, the others
/// are refused and change nothing.
pub proof fn law_in_flight_is_bounded(manager: ManagerView, i: int, requests: nat)
    requires
        manager.well_formed(),
        0 <= i < manager.models.len(),
    ensures
        ({
            let after = asked_times(manager, i, requests);
            let model = manager.models[i];
            &&& after.well_formed()
            &&& after == manager.with_in_use(
                i,
                if model.in_use + requests <= model.capacity {
                    model.in_use + requests
                } else {
                    model.capacity
                },
            )
        }),
    decreases requests,
{
    if requests == 0 {
        assert(manager =~= manager.with_in_use(i, manager.models[i].in_use));
    } else {
        law_in_flight_is_bounded(manager, i, (requests - 1) as nat);
        let model = manager.models[i];
        let after = asked_times(manager, i, requests);
        if model.in_use + requests <= model.capacity {
            assert(after =~= manager.with_in_use(i, model.in_use + requests));
        } else {
            assert(after =~= manager.with_in_use(i, model.capacity));
        }
    }
}

/// What may happen to the permits of a model: a request asks for one, be it an
/// inference or a checkpoint, or gives the one that it holds back, because its
/// backend is done.
pub enum PermitEvent {
    Ask,
    GiveBack,
}

/// The manager, and how many permits of the model at `i` are held, after any
/// events. Only a permit that is held is given back.
pub open spec fn after_permits(manager: ManagerView, i: int, events: Seq<PermitEvent>) -> (
    ManagerView,
    nat,
)
    decreases events.len(),
{
    if events.len() == 0 {
        (manager, 0)
    } else {
        let (before, held) = after_permits(manager, i, events.drop_last());
        match events.last() {
            PermitEvent::Ask => if before.models[i].in_use < before.models[i].capacity {
                (before.with_in_use(i, before.models[i].in_use + 1), held + 1)
            } else {
                (before, held)
            },
            PermitEvent::GiveBack => if held > 0 {
                (before.released(i), (held - 1) as nat)
            } else {
                (before, held)
            },
        }
    }
}

/// The permits bound how many requests a model's backend works on at once, and so
/// how many child processes it has running: in whatever order permits are asked for
/// and given back, those held are those in use, and never more than the queue
/// capacity.
pub proof fn law_held_permits_are_bounded(manager: ManagerView, i: int, events: Seq<PermitEvent>)
    requires
        manager.well_formed(),
        0 <= i < manager.models.len(),
        manager.models[i].in_use == 0,
    ensures
        ({
            let (after, held) = after_permits(manager, i, events);
            &&& after == manager.with_in_use(i, held)
            &&& held <= manager.models[i].capacity
        }),
    decreases events.len(),
{
    if events.len() == 0 {
        assert(manager =~= manager.with_in_use(i, 0));
    } else {
        law_held_permits_are_bounded(manager, i, events.drop_last());
        let (after, held) = after_permits(manager, i, events);
        assert(after =~= manager.with_in_use(i, held));
    }
}

/// A permit that is taken and given back leaves the permits as they were, and
/// in between the model has at most as many in use as it has.
pub proof fn law_permit_given_back(manager: ManagerView, i: int)
    requires
        manager.well_formed(),
        0 <= i < manager.models.len(),
        manager.models[i].in_use < manager.models[i].capacity,
    ensures
        manager.with_in_use(i, manager.models[i].in_use + 1).well_formed(),
        manager.with_in_use(i, manager.models[i].in_use + 1).released(i) == manager,
{
    let taken = manager.with_in_use(i, manager.models[i].in_use + 1);
    assert(taken.released(i) =~= manager);
}

/// The permits of one model do not limit another: what a model has in use is
/// left alone by a permit of another model.
pub proof fn law_models_do_not_share_permits(manager: ManagerView, i: int, j: int, in_use: nat)
    requires
        0 <= i < manager.models.len(),
        0 <= j < manager.models.len(),
        i != j,
    ensures
        manager.with_in_use(i, in_use).models[j] == manager.models[j],
        manager.released(i).models[j] == manager.models[j],
{
}

} // verus!
