//! The worker runtime: models with at most one tensor in and one tensor out. A
//! TorchScript model has a worker with a queue of its own; a Python model runs as
//! a process for each request.

use vstd::prelude::*;

use crate::config::ServerConfig;
use crate::contract;
use crate::contract::{check_batched_output, check_output_dims, prepend, validate_tensor_shape};
use crate::folder::Folder;
use crate::manager;
use crate::manager::not_configured_status;
use crate::number;
use crate::number::{decimal_i64, decimal_usize};
use crate::status;
use crate::status::{Code, Status, StatusView};
use crate::tensor;
use crate::tensor::element_count;
use crate::text;
use crate::text::{cat2, cat3, cat4, cat6, same};
use crate::textproto;
use crate::textproto::{read_flat_fields, TextFile};
use crate::triton;

verus! {

/// The declared shapes of a model's input and output, without the batch dimension.
/// A batch dimension is declared where the maximal batch size is positive.
#[derive(Debug, PartialEq, Eq)]
pub struct InputShapeContract {
    /// Missing where the model consumes no tensor.
    pub input_shape: Option<Vec<i64>>,
    pub output_shape: Option<Vec<i64>>,
    pub max_batch_size: i64,
}

/// An [`InputShapeContract`] as contracts see it.
#[verifier::ext_equal]
pub struct ShapesView {
    pub input: Option<Seq<i64>>,
    pub output: Option<Seq<i64>>,
    pub max_batch_size: i64,
}

impl View for InputShapeContract {
    type V = ShapesView;

    open spec fn view(&self) -> ShapesView {
        ShapesView {
            input: textproto::dims_view(self.input_shape),
            output: textproto::dims_view(self.output_shape),
            max_batch_size: self.max_batch_size,
        }
    }
}

/// The shapes that a file declares, or why it declares none. The type of the
/// elements is not read.
pub open spec fn declared_shapes(file: TextFile) -> Result<ShapesView, StatusView> {
    let outcome = match file.contents {
        Err(cause) => Err(textproto::unreadable(file.path@, cause@)),
        Ok(contents) => match textproto::flat_lines(text::lines(contents@), file.path@, false) {
            Err(e) => Err(e),
            Ok(fields) => if fields.input is None && fields.output is None {
                Err(textproto::no_shapes(file.path@))
            } else {
                Ok(
                    ShapesView {
                        input: fields.input,
                        output: fields.output,
                        max_batch_size: fields.max_batch_size,
                    },
                )
            },
        },
    };
    match outcome {
        Ok(shapes) => Ok(shapes),
        Err(e) => Err((Code::FailedPrecondition, e)),
    }
}

/// Reads the declared shapes of a model's `model_inference.textproto`.
pub fn read_input_contract_from_textproto(file: &TextFile) -> (r: Result<
    InputShapeContract,
    Status,
>)
    ensures
        match r {
            Ok(shapes) => declared_shapes(*file) == Ok::<ShapesView, StatusView>(shapes@),
            Err(e) => declared_shapes(*file) == Err::<ShapesView, StatusView>(e@),
        },
{
    let contents = match &file.contents {
        Ok(contents) => contents,
        Err(cause) => {
            return Err(
                Status::failed_precondition(
                    cat4("failed to read ", file.path.as_str(), ": ", cause.as_str()),
                ),
            );
        },
    };
    match read_flat_fields(contents.as_str(), file.path.as_str(), false) {
        Err(e) => Err(Status::failed_precondition(e)),
        Ok(fields) => {
            if fields.input.is_none() && fields.output.is_none() {
                return Err(
                    Status::failed_precondition(
                        cat2(
                            file.path.as_str(),
                            " must declare input_shape and/or output_shape",
                        ),
                    ),
                );
            }
            Ok(
                InputShapeContract {
                    input_shape: fields.input,
                    output_shape: fields.output,
                    max_batch_size: fields.max_batch_size,
                },
            )
        },
    }
}

/// The verdict on the shape of a request.
pub open spec fn spec_request(shapes: ShapesView, shape: Seq<i64>, model: Seq<char>) -> Result<
    (),
    StatusView,
> {
    match shapes.input {
        None => Err((Code::Internal, "model '"@ + model + "' declares no input tensor"@)),
        Some(dims) => contract::spec_request_shape(dims, shapes.max_batch_size, shape, model),
    }
}

/// The verdict on the shape of an output. A declared batch dimension may be there,
/// and is then the request's, or be left out.
pub open spec fn spec_reply(
    shapes: ShapesView,
    actual: Seq<i64>,
    expected_batch: Option<i64>,
    model: Seq<char>,
) -> Result<(), StatusView> {
    match shapes.output {
        None => Ok(()),
        Some(dims) => if shapes.max_batch_size > 0 && actual.len() == dims.len() + 1 {
            contract::spec_batched_output(dims, actual, expected_batch, model)
        } else if actual.len() == dims.len() {
            contract::spec_output_dims(dims, actual, 0, model)
        } else {
            Err(
                (
                    Code::Internal,
                    "model '"@ + model + "' output rank mismatch: declared "@ + number::decimal(
                        dims.len() as int,
                    ) + " dims, got "@ + number::decimal(actual.len() as int),
                ),
            )
        },
    }
}

impl InputShapeContract {
    /// The declared shape of the output.
    pub fn output_shape(&self) -> (r: Option<&[i64]>)
        ensures
            match self@.output {
                Some(dims) => r matches Some(d) && d@ == dims,
                None => r is None,
            },
    {
        match &self.output_shape {
            Some(dims) => Some(dims.as_slice()),
            None => None,
        }
    }

    /// Whether the model consumes a tensor.
    pub fn has_input(&self) -> (r: bool)
        ensures
            r == (self@.input is Some),
    {
        self.input_shape.is_some()
    }

    /// The declared maximal batch size, zero where no batch dimension is declared.
    pub fn max_batch_size(&self) -> (r: i64)
        ensures
            r == self@.max_batch_size,
    {
        self.max_batch_size
    }

    /// Checks the shape of a request.
    pub fn validate_request_shape(&self, request_shape: &[i64], model_name: &str) -> (r: Result<
        (),
        Status,
    >)
        ensures
            status::same_outcome(r, spec_request(self@, request_shape@, model_name@)),
    {
        match &self.input_shape {
            None => Err(
                Status::internal(cat3("model '", model_name, "' declares no input tensor")),
            ),
            Some(dims) => validate_tensor_shape(
                dims.as_slice(),
                self.max_batch_size,
                request_shape,
                model_name,
            ),
        }
    }

    /// Checks the shape of an output, and its batch against the request's where
    /// both are known.
    pub fn validate_output_shape(
        &self,
        actual: &[i64],
        expected_batch: Option<i64>,
        model_name: &str,
    ) -> (r: Result<(), Status>)
        ensures
            status::same_outcome(r, spec_reply(self@, actual@, expected_batch, model_name@)),
    {
        let dims = match &self.output_shape {
            None => {
                return Ok(());
            },
            Some(dims) => dims.as_slice(),
        };
        if self.max_batch_size > 0 && actual.len() > 0 && actual.len() - 1 == dims.len() {
            return check_batched_output(dims, actual, expected_batch, model_name);
        }
        if actual.len() == dims.len() {
            return check_output_dims(dims, actual, 0, model_name);
        }
        let declared = decimal_usize(dims.len());
        let got = decimal_usize(actual.len());
        Err(
            Status::internal(
                cat6(
                    "model '",
                    model_name,
                    "' output rank mismatch: declared ",
                    declared.as_str(),
                    " dims, got ",
                    got.as_str(),
                ),
            ),
        )
    }

    /// The shape to feed the model: a leading batch dimension of one is put in
    /// where the request left the declared batch dimension out.
    pub fn normalize_request_shape(&self, request_shape: Vec<i64>) -> (r: Vec<i64>)
        ensures
            r@ == match self@.input {
                Some(dims) => contract::normalized(dims, self@.max_batch_size, request_shape@),
                None => request_shape@,
            },
    {
        match &self.input_shape {
            Some(dims) => {
                if self.max_batch_size > 0 && request_shape.len() == dims.len() {
                    prepend(1, request_shape.as_slice())
                } else {
                    request_shape
                }
            },
            None => request_shape,
        }
    }
}

/// A backend that the configuration names.
#[derive(Clone, Copy, Debug, PartialEq, Eq, Structural)]
pub enum ConfiguredBackend {
    Python,
    Rust,
}

/// The backend that serves a model.
#[derive(Clone, Copy, Debug, PartialEq, Eq, Structural)]
pub enum DetectedBackendKind {
    Python,
    Rust,
}

/// Whether a folder holds a Python model.
pub open spec fn holds_python(folder: Folder) -> bool {
    folder.file_there("main.py"@) && folder.file_there("requirements.txt"@)
}

/// Whether a folder holds a TorchScript model.
pub open spec fn holds_torch(folder: Folder) -> bool {
    folder.file_there("model_inference.textproto"@) && folder.ext_there("pt"@)
}

/// The backend of a model: the declared one, whose files must be there, or the
/// only one whose files are.
pub open spec fn spec_backend_kind(
    folder: Folder,
    model: Seq<char>,
    declared: Option<ConfiguredBackend>,
) -> Result<DetectedBackendKind, StatusView> {
    let python = holds_python(folder);
    let torch = holds_torch(folder);
    match declared {
        Some(ConfiguredBackend::Python) => if python {
            Ok(DetectedBackendKind::Python)
        } else {
            Err(
                (
                    Code::FailedPrecondition,
                    "model '"@ + model
                        + "' declares backend \"python\" but is missing main.py + requirements.txt"@,
                ),
            )
        },
        Some(ConfiguredBackend::Rust) => if torch {
            Ok(DetectedBackendKind::Rust)
        } else {
            Err(
                (
                    Code::FailedPrecondition,
                    "model '"@ + model
                        + "' declares backend \"rust\" but is missing a .pt model + model_inference.textproto"@,
                ),
            )
        },
        None => if python && torch {
            Err(
                (
                    Code::FailedPrecondition,
                    "model '"@ + model
                        + "' folder contains both a Python backend (main.py + requirements.txt) and a Rust backend (a .pt model + model_inference.textproto); set `backend` in nereid.yaml to disambiguate"@,
                ),
            )
        } else if python {
            Ok(DetectedBackendKind::Python)
        } else if torch {
            Ok(DetectedBackendKind::Rust)
        } else {
            Err(
                (
                    Code::FailedPrecondition,
                    "model '"@ + model
                        + "' folder must contain either (main.py + requirements.txt) or (a .pt model + model_inference.textproto)"@,
                ),
            )
        },
    }
}

fn refused(model_name: &str, why: &str) -> (r: Status)
    ensures
        r@ == (Code::FailedPrecondition, "model '"@ + model_name@ + why@),
{
    Status::failed_precondition(cat3("model '", model_name, why))
}

/// Finds the backend of a model.
pub fn detect_backend_kind(
    folder: &Folder,
    model_name: &str,
    declared: Option<ConfiguredBackend>,
) -> (r: Result<DetectedBackendKind, Status>)
    ensures
        match r {
            Ok(kind) => spec_backend_kind(*folder, model_name@, declared) == Ok::<
                DetectedBackendKind,
                StatusView,
            >(kind),
            Err(e) => spec_backend_kind(*folder, model_name@, declared) == Err::<
                DetectedBackendKind,
                StatusView,
            >(e@),
        },
{
    let python = folder.has_file("main.py") && folder.has_file("requirements.txt");
    let torch = folder.has_file("model_inference.textproto") && folder.has_ext("pt");
    match declared {
        Some(ConfiguredBackend::Python) => {
            if python {
                Ok(DetectedBackendKind::Python)
            } else {
                Err(
                    refused(
                        model_name,
                        "' declares backend \"python\" but is missing main.py + requirements.txt",
                    ),
                )
            }
        },
        Some(ConfiguredBackend::Rust) => {
            if torch {
                Ok(DetectedBackendKind::Rust)
            } else {
                Err(
                    refused(
                        model_name,
                        "' declares backend \"rust\" but is missing a .pt model + model_inference.textproto",
                    ),
                )
            }
        },
        None => {
            if python && torch {
                Err(
                    refused(
                        model_name,
                        "' folder contains both a Python backend (main.py + requirements.txt) and a Rust backend (a .pt model + model_inference.textproto); set `backend` in nereid.yaml to disambiguate",
                    ),
                )
            } else if python {
                Ok(DetectedBackendKind::Python)
            } else if torch {
                Ok(DetectedBackendKind::Rust)
            } else {
                Err(
                    refused(
                        model_name,
                        "' folder must contain either (main.py + requirements.txt) or (a .pt model + model_inference.textproto)",
                    ),
                )
            }
        },
    }
}

/// Why the bytes of an input of 32-bit floats are refused, if so: there are none,
/// they are no whole number of floats, or they do not fill the shape.
pub open spec fn float_fault(length: nat, shape: Seq<i64>, model: Seq<char>) -> Option<StatusView> {
    if length == 0 {
        Some((Code::InvalidArgument, "no tensor chunk data provided for Rust inference model"@))
    } else if length % 4 != 0 {
        Some((Code::InvalidArgument, "tensor chunk bytes must be a multiple of 4 for float32"@))
    } else {
        match tensor::checked_product(shape) {
            None => Some((Code::InvalidArgument, "tensor shape overflow"@)),
            Some(expected) => if expected != length / 4 {
                Some(
                    (
                        Code::InvalidArgument,
                        "input tensor size mismatch for model '"@ + model + "': expected "@
                            + number::decimal(expected) + " values from request shape, got "@
                            + number::decimal(length as int / 4),
                    ),
                )
            } else {
                None
            },
        }
    }
}

fn word_of(b0: u8, b1: u8, b2: u8, b3: u8) -> (r: u32)
    ensures
        triton::word_bytes(r) == seq![b0, b1, b2, b3],
{
    let x: u32 = b0 as u32 + 256 * b1 as u32 + 65536 * b2 as u32 + 16777216 * b3 as u32;
    assert(x % 256 == b0 && x / 256 % 256 == b1 && x / 65536 % 256 == b2 && x / 16777216 % 256
        == b3) by (bit_vector)
        requires
            x == b0 as u32 + 256 * b1 as u32 + 65536 * b2 as u32 + 16777216 * b3 as u32,
    ;
    assert(triton::word_bytes(x) =~= seq![b0, b1, b2, b3]);
    x
}

fn words_of(bytes: &[u8]) -> (r: Vec<u32>)
    requires
        bytes@.len() % 4 == 0,
    ensures
        triton::words_bytes(r@) == bytes@,
        r@.len() == bytes@.len() / 4,
{
    let mut words: Vec<u32> = Vec::new();
    let mut i: usize = 0;
    assert(bytes@.take(0) =~= Seq::empty());
    while i < bytes.len()
        invariant
            i <= bytes@.len(),
            bytes@.len() % 4 == 0,
            i % 4 == 0,
            words@.len() == i / 4,
            triton::words_bytes(words@) == bytes@.take(i as int),
        decreases bytes@.len() - i,
    {
        let x: u32 = word_of(bytes[i], bytes[i + 1], bytes[i + 2], bytes[i + 3]);
        let ghost before = words@;
        words.push(x);
        proof {
            assert(words@.drop_last() =~= before);
            assert(bytes@.take(i + 4) =~= bytes@.take(i as int) + triton::word_bytes(x));
        }
        i = i + 4;
    }
    assert(bytes@.take(i as int) =~= bytes@);
    words
}

/// Reads an input of 32-bit floats from its bytes, least byte first. The floats are
/// given as the words that they are stored in.
pub fn tensor_from_input_bytes(tensor_bytes: &[u8], request_shape: &[i64], model_name: &str) -> (r:
    Result<Vec<u32>, Status>)
    ensures
        match float_fault(tensor_bytes@.len(), request_shape@, model_name@) {
            Some(fault) => r matches Err(e) && e@ == fault,
            None => r matches Ok(words) && triton::words_bytes(words@) == tensor_bytes@
                && tensor::checked_product(request_shape@) == Some(words@.len() as int),
        },
{
    if tensor_bytes.len() == 0 {
        return Err(
            Status::invalid_argument(
                "no tensor chunk data provided for Rust inference model".to_string(),
            ),
        );
    }
    if tensor_bytes.len() % 4 != 0 {
        return Err(
            Status::invalid_argument(
                "tensor chunk bytes must be a multiple of 4 for float32".to_string(),
            ),
        );
    }
    let values: usize = tensor_bytes.len() / 4;
    let expected: i64 = match element_count(request_shape) {
        Some(expected) => expected,
        None => {
            return Err(Status::invalid_argument("tensor shape overflow".to_string()));
        },
    };
    if expected as i128 != values as i128 {
        let expected_text = decimal_i64(expected);
        let got = decimal_usize(values);
        return Err(
            Status::invalid_argument(
                cat6(
                    "input tensor size mismatch for model '",
                    model_name,
                    "': expected ",
                    expected_text.as_str(),
                    " values from request shape, got ",
                    got.as_str(),
                ),
            ),
        );
    }
    Ok(words_of(tensor_bytes))
}

/// Makes the failure to build a tensor of the words of an input.
pub fn tensor_failure(cause: &str) -> (r: Status)
    ensures
        r@ == (
            Code::InvalidArgument,
            "failed to build input tensor from stream chunks: "@ + cause@,
        ),
{
    Status::invalid_argument(cat2("failed to build input tensor from stream chunks: ", cause))
}

/// A model as it is served: by a worker that has a queue, whose places are counted
/// here, or as processes of a folder.
#[derive(Debug)]
pub enum ModelHandle {
    Rust { contract: InputShapeContract, queue_capacity: usize, occupancy: usize },
    Python { contract: InputShapeContract, model_dir: String },
}

/// A [`ModelHandle`] as contracts see it.
pub enum HandleView {
    Rust { contract: ShapesView, queue_capacity: nat, occupancy: nat },
    Python { contract: ShapesView, model_dir: Seq<char> },
}

/// The models with so many places in the queue of a worker occupied.
pub open spec fn with_occupancy(
    models: Seq<(Seq<char>, HandleView)>,
    worker: int,
    occupancy: nat,
) -> Seq<(Seq<char>, HandleView)> {
    match models[worker].1 {
        HandleView::Rust { contract, queue_capacity, .. } => models.update(
            worker,
            (models[worker].0, HandleView::Rust { contract, queue_capacity, occupancy }),
        ),
        HandleView::Python { .. } => models,
    }
}

/// The models after a worker took a job.
pub open spec fn with_job(models: Seq<(Seq<char>, HandleView)>, worker: int) -> Seq<
    (Seq<char>, HandleView),
> {
    with_occupancy(models, worker, models[worker].1->occupancy + 1)
}

/// The models after a worker finished a job.
pub open spec fn without_job(models: Seq<(Seq<char>, HandleView)>, worker: int) -> Seq<
    (Seq<char>, HandleView),
> {
    with_occupancy(models, worker, (models[worker].1->occupancy - 1) as nat)
}

impl View for ModelHandle {
    type V = HandleView;

    open spec fn view(&self) -> HandleView {
        match *self {
            ModelHandle::Rust { contract, queue_capacity, occupancy } => HandleView::Rust {
                contract: contract@,
                queue_capacity: queue_capacity as nat,
                occupancy: occupancy as nat,
            },
            ModelHandle::Python { contract, model_dir } => HandleView::Python {
                contract: contract@,
                model_dir: model_dir@,
            },
        }
    }
}

impl HandleView {
    /// The declared shapes of the model.
    pub open spec fn contract(self) -> ShapesView {
        match self {
            HandleView::Rust { contract, .. } => contract,
            HandleView::Python { contract, .. } => contract,
        }
    }
}

/// Why a Python model cannot be loaded, or the shapes that it declares.
pub open spec fn python_shapes(model: Seq<char>, folder: Folder, file: TextFile) -> Result<
    ShapesView,
    StatusView,
> {
    if !folder.file_there("model_inference.textproto"@) {
        Err(
            (
                Code::FailedPrecondition,
                "Python model '"@ + model
                    + "' must include a model_inference.textproto declaring output_shape"@,
            ),
        )
    } else {
        match declared_shapes(file) {
            Err(status) => Err(status),
            Ok(shapes) => if shapes.output is None {
                Err(
                    (
                        Code::FailedPrecondition,
                        "Python model '"@ + model
                            + "' must declare output_shape in model_inference.textproto (every reply is a typed tensor)"@,
                    ),
                )
            } else {
                Ok(shapes)
            },
        }
    }
}

/// Why a TorchScript model cannot be loaded, or the shapes that it declares.
pub open spec fn torch_shapes(model: Seq<char>, file: TextFile) -> Result<ShapesView, StatusView> {
    match declared_shapes(file) {
        Err(status) => Err(status),
        Ok(shapes) => if shapes.input is None {
            Err(
                (
                    Code::FailedPrecondition,
                    "Rust model '"@ + model
                        + "' must declare input_shape in model_inference.textproto"@,
                ),
            )
        } else {
            Ok(shapes)
        },
    }
}

impl ModelHandle {
    /// Loads a Python model whose environment is prepared.
    pub fn load_python(model_name: &str, model_dir: &str, folder: &Folder, file: &TextFile) -> (r:
        Result<ModelHandle, Status>)
        ensures
            match python_shapes(model_name@, *folder, *file) {
                Ok(shapes) => r matches Ok(handle) && handle@ == (HandleView::Python {
                    contract: shapes,
                    model_dir: model_dir@,
                }),
                Err(status) => r matches Err(e) && e@ == status,
            },
    {
        if !folder.has_file("model_inference.textproto") {
            return Err(
                Status::failed_precondition(
                    cat3(
                        "Python model '",
                        model_name,
                        "' must include a model_inference.textproto declaring output_shape",
                    ),
                ),
            );
        }
        match read_input_contract_from_textproto(file) {
            Err(status) => Err(status),
            Ok(contract) => {
                if contract.output_shape().is_none() {
                    return Err(
                        Status::failed_precondition(
                            cat3(
                                "Python model '",
                                model_name,
                                "' must declare output_shape in model_inference.textproto (every reply is a typed tensor)",
                            ),
                        ),
                    );
                }
                Ok(ModelHandle::Python { contract, model_dir: model_dir.to_string() })
            },
        }
    }

    /// Reads what a TorchScript model declares. Nothing waits in its queue yet.
    pub fn load_rust(model_name: &str, queue_capacity: usize, file: &TextFile) -> (r: Result<
        ModelHandle,
        Status,
    >)
        ensures
            match torch_shapes(model_name@, *file) {
                Ok(shapes) => r matches Ok(handle) && handle@ == (HandleView::Rust {
                    contract: shapes,
                    queue_capacity: queue_capacity as nat,
                    occupancy: 0,
                }),
                Err(status) => r matches Err(e) && e@ == status,
            },
    {
        match read_input_contract_from_textproto(file) {
            Err(status) => Err(status),
            Ok(contract) => {
                if !contract.has_input() {
                    return Err(
                        Status::failed_precondition(
                            cat3(
                                "Rust model '",
                                model_name,
                                "' must declare input_shape in model_inference.textproto",
                            ),
                        ),
                    );
                }
                Ok(ModelHandle::Rust { contract, queue_capacity, occupancy: 0 })
            },
        }
    }
}

/// The models of the runtime, by name.
#[derive(Debug)]
pub struct ModelManager {
    model_names: Vec<String>,
    handles: Vec<ModelHandle>,
}

impl View for ModelManager {
    type V = Seq<(Seq<char>, HandleView)>;

    closed spec fn view(&self) -> Seq<(Seq<char>, HandleView)> {
        Seq::new(self.handles@.len(), |i: int| (self.model_names@[i]@, self.handles@[i]@))
    }
}

/// The last place of a name among the models.
pub open spec fn last_model(models: Seq<(Seq<char>, HandleView)>, name: Seq<char>) -> Option<int>
    decreases models.len(),
{
    if models.len() == 0 {
        None
    } else if models.last().0 == name {
        Some(models.len() - 1)
    } else {
        last_model(models.drop_last(), name)
    }
}

/// What became of a job that was handed to a worker's queue.
#[derive(Clone, Copy, Debug, PartialEq, Eq, Structural)]
pub enum Handover {
    Taken,
    Full,
    Closed,
}

impl ModelManager {
    /// Whether there is one handle for each name.
    pub closed spec fn well_formed(self) -> bool {
        self.model_names@.len() == self.handles@.len()
    }

    /// The manager of all configured models, each of which is loaded.
    pub fn from_config(config: &ServerConfig, handles: Vec<ModelHandle>) -> (r: ModelManager)
        requires
            handles@.len() == config.models@.len(),
        ensures
            r.well_formed(),
            r@ == Seq::new(
                handles@.len(),
                |i: int| (config.models@[i].name@, handles@[i]@),
            ),
    {
        let mut model_names: Vec<String> = Vec::new();
        let mut i: usize = 0;
        while i < config.models.len()
            invariant
                i <= config.models@.len(),
                model_names@.len() == i,
                forall|k: int|
                    0 <= k < i ==> (#[trigger] model_names@[k])@ == config.models@[k].name@,
            decreases config.models@.len() - i,
        {
            model_names.push(config.models[i].name.clone());
            i = i + 1;
        }
        let manager = ModelManager { model_names, handles };
        assert(manager@ =~= Seq::new(
            handles@.len(),
            |i: int| (config.models@[i].name@, handles@[i]@),
        ));
        manager
    }

    fn find(&self, model_name: &str) -> (r: Option<usize>)
        requires
            self.well_formed(),
        ensures
            match r {
                Some(i) => last_model(self@, model_name@) == Some(i as int) && i < self@.len(),
                None => last_model(self@, model_name@) is None,
            },
    {
        let mut i: usize = self.model_names.len();
        let ghost models = self@;
        assert(models.take(i as int) =~= models);
        while i > 0
            invariant
                self.well_formed(),
                i <= self.model_names@.len(),
                models == self@,
                last_model(models, model_name@) == last_model(models.take(i as int), model_name@),
            decreases i,
        {
            proof {
                assert(models.take(i as int).drop_last() =~= models.take(i - 1));
                assert(models.take(i as int).last() == models[i - 1]);
            }
            if same(self.model_names[i - 1].as_str(), model_name) {
                return Some(i - 1);
            }
            i = i - 1;
        }
        None
    }

    /// The names of the configured models, in order.
    pub fn configured_models(&self) -> (r: Vec<String>)
        requires
            self.well_formed(),
        ensures
            text::texts(r@) == Seq::new(self@.len(), |i: int| self@[i].0),
    {
        let mut out: Vec<String> = Vec::new();
        let mut i: usize = 0;
        while i < self.model_names.len()
            invariant
                i <= self.model_names@.len(),
                out@.len() == i,
                forall|k: int| 0 <= k < i ==> (#[trigger] out@[k])@ == self.model_names@[k]@,
            decreases self.model_names@.len() - i,
        {
            out.push(self.model_names[i].clone());
            i = i + 1;
        }
        assert(text::texts(out@) =~= Seq::new(self@.len(), |i: int| self@[i].0));
        out
    }

    /// The declared shapes of a model.
    pub fn input_contract(&self, model_name: &str) -> (r: Option<&InputShapeContract>)
        requires
            self.well_formed(),
        ensures
            match last_model(self@, model_name@) {
                Some(i) => r matches Some(c) && c@ == self@[i].1.contract(),
                None => r is None,
            },
    {
        match self.find(model_name) {
            None => None,
            Some(i) => {
                assert(self@[i as int].1 == self.handles@[i as int]@);
                match &self.handles[i] {
                    ModelHandle::Rust { contract, .. } => Some(contract),
                    ModelHandle::Python { contract, .. } => Some(contract),
                }
            },
        }
    }

    /// The folder of a Python model.
    pub fn python_model_dir(&self, model_name: &str) -> (r: Option<String>)
        requires
            self.well_formed(),
        ensures
            match last_model(self@, model_name@) {
                Some(i) => match self@[i].1 {
                    HandleView::Python { model_dir, .. } => r matches Some(d) && d@ == model_dir,
                    HandleView::Rust { .. } => r is None,
                },
                None => r is None,
            },
    {
        match self.find(model_name) {
            None => None,
            Some(i) => {
                assert(self@[i as int].1 == self.handles@[i as int]@);
                match &self.handles[i] {
                    ModelHandle::Python { model_dir, .. } => Some(model_dir.clone()),
                    ModelHandle::Rust { .. } => None,
                }
            },
        }
    }

    /// The worker that a job for a model goes to, or why it goes to none.
    pub open spec fn worker_of(models: Seq<(Seq<char>, HandleView)>, name: Seq<char>) -> Result<
        int,
        StatusView,
    > {
        match last_model(models, name) {
            None => Err(manager::not_configured(name)),
            Some(i) => match models[i].1 {
                HandleView::Python { .. } => Err(
                    (
                        Code::FailedPrecondition,
                        "model '"@ + name
                            + "' is a python backend and does not support tensor inference"@,
                    ),
                ),
                HandleView::Rust { .. } => Ok(i),
            },
        }
    }

    /// Finds the worker that a job for a model goes to.
    pub fn worker(&self, model_name: &str) -> (r: Result<usize, Status>)
        requires
            self.well_formed(),
        ensures
            match r {
                Ok(i) => ModelManager::worker_of(self@, model_name@) == Ok::<int, StatusView>(
                    i as int,
                ) && i < self@.len() && self@[i as int].1 is Rust,
                Err(e) => ModelManager::worker_of(self@, model_name@) == Err::<int, StatusView>(
                    e@,
                ),
            },
    {
        match self.find(model_name) {
            None => Err(not_configured_status(model_name)),
            Some(i) => {
                assert(self@[i as int].1 == self.handles@[i as int]@);
                match &self.handles[i] {
                    ModelHandle::Python { .. } => Err(
                        refused(
                            model_name,
                            "' is a python backend and does not support tensor inference",
                        ),
                    ),
                    ModelHandle::Rust { .. } => Ok(i),
                }
            },
        }
    }

    /// Takes note of what became of a job for a worker: a place in its queue is
    /// occupied exactly where the job was taken. Gives the places then occupied.
    pub fn enqueue(&mut self, worker: usize, handover: Handover) -> (r: Result<usize, Status>)
        requires
            old(self).well_formed(),
            worker < old(self)@.len(),
            old(self)@[worker as int].1 matches HandleView::Rust { occupancy, .. } && occupancy
                < usize::MAX,
        ensures
            final(self).well_formed(),
            match handover {
                Handover::Taken => {
                    &&& r == Ok::<usize, Status>((old(self)@[worker as int].1->occupancy + 1) as usize)
                    &&& final(self)@ == with_job(old(self)@, worker as int)
                },
                Handover::Full => {
                    &&& r matches Err(e) && e@ == manager::queue_full()
                    &&& final(self)@ == old(self)@
                },
                Handover::Closed => {
                    &&& r matches Err(e) && e@ == (
                        Code::Internal,
                        "worker for model '"@ + old(self)@[worker as int].0 + "' is unavailable"@,
                    )
                    &&& final(self)@ == old(self)@
                },
            },
    {
        assert(self@[worker as int].1 == self.handles@[worker as int]@);
        match handover {
            Handover::Full => Err(
                Status::resource_exhausted("model queue full, retry later".to_string()),
            ),
            Handover::Closed => Err(
                Status::internal(
                    cat3(
                        "worker for model '",
                        self.model_names[worker].as_str(),
                        "' is unavailable",
                    ),
                ),
            ),
            Handover::Taken => {
                let occupied: usize = self.occupancy(worker) + 1;
                self.set_occupancy(worker, occupied);
                Ok(occupied)
            },
        }
    }

    /// Takes note that a worker has finished a job.
    pub fn job_done(&mut self, worker: usize)
        requires
            old(self).well_formed(),
            worker < old(self)@.len(),
            old(self)@[worker as int].1 matches HandleView::Rust { occupancy, .. } && occupancy
                > 0,
        ensures
            final(self).well_formed(),
            final(self)@ == without_job(old(self)@, worker as int),
    {
        assert(self@[worker as int].1 == self.handles@[worker as int]@);
        let occupied: usize = self.occupancy(worker) - 1;
        self.set_occupancy(worker, occupied);
    }

    fn occupancy(&self, worker: usize) -> (r: usize)
        requires
            self.well_formed(),
            worker < self@.len(),
        ensures
            self@[worker as int].1 matches HandleView::Rust { occupancy, .. } ==> r == occupancy,
    {
        assert(self@[worker as int].1 == self.handles@[worker as int]@);
        match &self.handles[worker] {
            ModelHandle::Rust { occupancy, .. } => *occupancy,
            ModelHandle::Python { .. } => 0,
        }
    }

    fn set_occupancy(&mut self, worker: usize, occupied: usize)
        requires
            old(self).well_formed(),
            worker < old(self)@.len(),
            old(self)@[worker as int].1 is Rust,
        ensures
            final(self).well_formed(),
            final(self)@ == with_occupancy(old(self)@, worker as int, occupied as nat),
    {
        assert(self@[worker as int].1 == self.handles@[worker as int]@);
        let ghost before = self@;
        if let ModelHandle::Rust { contract, queue_capacity, .. } = self.handles.remove(worker) {
            self.handles.insert(
                worker,
                ModelHandle::Rust { contract, queue_capacity, occupancy: occupied },
            );
            assert(self@ =~= before.update(
                worker as int,
                (
                    before[worker as int].0,
                    HandleView::Rust {
                        contract: contract@,
                        queue_capacity: queue_capacity as nat,
                        occupancy: occupied as nat,
                    },
                ),
            ));
        }
    }
}

/// A job that a worker took and finished leaves all queues as they were.
pub proof fn law_finished_job_gives_its_place_back(
    models: Seq<(Seq<char>, HandleView)>,
    worker: int,
)
    requires
        0 <= worker < models.len(),
        models[worker].1 is Rust,
    ensures
        with_job(models, worker)[worker].1->occupancy == models[worker].1->occupancy + 1,
        without_job(with_job(models, worker), worker) == models,
{
    assert(without_job(with_job(models, worker), worker) =~= models);
}

/// Makes the failure of a worker's forward pass.
pub fn worker_failure(model_name: &str, cause: &str) -> (r: Status)
    ensures
        r@ == (
            Code::Internal,
            "Rust inference failed for '"@ + model_name@ + "': "@ + cause@,
        ),
{
    Status::internal(cat4("Rust inference failed for '", model_name, "': ", cause))
}

} // verus!
