//! TorchScript models. libtorch itself is called from outside the library; which
//! file it loads, on which device, which tensors it takes and what becomes of its
//! outputs is decided here.

use vstd::prelude::*;

use crate::config::ModelDevice;
use crate::contract::Contract;
use crate::dtype;
use crate::engine;
use crate::engine::{declared_names, read_fed_contract};
use crate::folder;
use crate::folder::{find_exactly_one, Folder};
use crate::number;
use crate::number::{decimal_i64, decimal_usize};
use crate::status::{Code, Status, StatusView};
use crate::tensor;
use crate::tensor::{Tensor, TensorView};
use crate::text;
use crate::text::{cat2, cat3, cat4, cat5, cat7, same};
use crate::textproto::TextFile;
use crate::triton;

verus! {

/// A kind of element that libtorch has and that has a canonical name.
#[derive(Clone, Copy, Debug, PartialEq, Eq, Structural)]
pub enum Kind {
    Bool,
    Uint8,
    Int8,
    Int16,
    Int,
    Int64,
    Half,
    Float,
    Double,
    BFloat16,
}

/// The kind of a canonical type. The wide unsigned types have none.
pub open spec fn spec_kind(canonical: Seq<char>) -> Option<Kind> {
    if canonical == "bool"@ {
        Some(Kind::Bool)
    } else if canonical == "uint8"@ {
        Some(Kind::Uint8)
    } else if canonical == "int8"@ {
        Some(Kind::Int8)
    } else if canonical == "int16"@ {
        Some(Kind::Int16)
    } else if canonical == "int32"@ {
        Some(Kind::Int)
    } else if canonical == "int64"@ {
        Some(Kind::Int64)
    } else if canonical == "float16"@ {
        Some(Kind::Half)
    } else if canonical == "float32"@ {
        Some(Kind::Float)
    } else if canonical == "float64"@ {
        Some(Kind::Double)
    } else if canonical == "bfloat16"@ {
        Some(Kind::BFloat16)
    } else {
        None
    }
}

/// Finds the kind of a canonical type.
pub fn kind_from_canonical(canonical: &str) -> (r: Option<Kind>)
    ensures
        r == spec_kind(canonical@),
{
    if same(canonical, "bool") {
        Some(Kind::Bool)
    } else if same(canonical, "uint8") {
        Some(Kind::Uint8)
    } else if same(canonical, "int8") {
        Some(Kind::Int8)
    } else if same(canonical, "int16") {
        Some(Kind::Int16)
    } else if same(canonical, "int32") {
        Some(Kind::Int)
    } else if same(canonical, "int64") {
        Some(Kind::Int64)
    } else if same(canonical, "float16") {
        Some(Kind::Half)
    } else if same(canonical, "float32") {
        Some(Kind::Float)
    } else if same(canonical, "float64") {
        Some(Kind::Double)
    } else if same(canonical, "bfloat16") {
        Some(Kind::BFloat16)
    } else {
        None
    }
}

impl Kind {
    /// The canonical type of the kind.
    pub open spec fn spec_canonical(self) -> Seq<char> {
        match self {
            Kind::Bool => "bool"@,
            Kind::Uint8 => "uint8"@,
            Kind::Int8 => "int8"@,
            Kind::Int16 => "int16"@,
            Kind::Int => "int32"@,
            Kind::Int64 => "int64"@,
            Kind::Half => "float16"@,
            Kind::Float => "float32"@,
            Kind::Double => "float64"@,
            Kind::BFloat16 => "bfloat16"@,
        }
    }

    /// The width of one element, in bytes.
    pub open spec fn spec_width(self) -> usize {
        match self {
            Kind::Bool | Kind::Uint8 | Kind::Int8 => 1,
            Kind::Int16 | Kind::Half | Kind::BFloat16 => 2,
            Kind::Int | Kind::Float => 4,
            Kind::Int64 | Kind::Double => 8,
        }
    }

    /// Gives the width of one element, in bytes.
    pub fn width(self) -> (r: usize)
        ensures
            r == self.spec_width(),
    {
        match self {
            Kind::Bool | Kind::Uint8 | Kind::Int8 => 1,
            Kind::Int16 | Kind::Half | Kind::BFloat16 => 2,
            Kind::Int | Kind::Float => 4,
            Kind::Int64 | Kind::Double => 8,
        }
    }
}

/// Gives the canonical type of a kind.
pub fn canonical_from_kind(kind: Kind) -> (r: &'static str)
    ensures
        r@ == kind.spec_canonical(),
{
    match kind {
        Kind::Bool => "bool",
        Kind::Uint8 => "uint8",
        Kind::Int8 => "int8",
        Kind::Int16 => "int16",
        Kind::Int => "int32",
        Kind::Int64 => "int64",
        Kind::Half => "float16",
        Kind::Float => "float32",
        Kind::Double => "float64",
        Kind::BFloat16 => "bfloat16",
    }
}

/// The kind of a type and the type of a kind are inverse to each other, and the
/// elements of a kind are as wide as those of its type.
pub proof fn law_kinds_invert(kind: Kind, canonical: Seq<char>)
    ensures
        spec_kind(kind.spec_canonical()) == Some(kind),
        spec_kind(canonical) matches Some(k) ==> k.spec_canonical() == canonical,
        engine::width_of(kind.spec_canonical()) == kind.spec_width(),
{
    dtype::lemma_literals();
}

/// The verdict on the bytes of an input: how many elements they hold.
pub open spec fn spec_elements(length: nat, kind: Kind, model: Seq<char>) -> Result<
    int,
    StatusView,
> {
    if length as int % kind.spec_width() as int != 0 {
        Err(
            (
                Code::InvalidArgument,
                "input byte length "@ + number::decimal(length as int)
                    + " is not a multiple of element size "@ + number::decimal(
                    kind.spec_width() as int,
                ) + " for model '"@ + model + "'"@,
            ),
        )
    } else {
        Ok(length as int / kind.spec_width() as int)
    }
}

/// Checks the bytes of an input before a tensor is made of them.
pub fn check_input_bytes(bytes: &[u8], kind: Kind, model_name: &str) -> (r: Result<usize, Status>)
    ensures
        match r {
            Ok(n) => spec_elements(bytes@.len(), kind, model_name@) == Ok::<int, StatusView>(
                n as int,
            ),
            Err(e) => spec_elements(bytes@.len(), kind, model_name@) == Err::<int, StatusView>(e@),
        },
{
    let width: usize = kind.width();
    if bytes.len() % width != 0 {
        let length = decimal_usize(bytes.len());
        let size = decimal_usize(width);
        return Err(
            Status::invalid_argument(
                cat7(
                    "input byte length ",
                    length.as_str(),
                    " is not a multiple of element size ",
                    size.as_str(),
                    " for model '",
                    model_name,
                    "'",
                ),
            ),
        );
    }
    Ok(bytes.len() / width)
}

/// The kind of an input, or why libtorch cannot take it.
pub open spec fn spec_torch_input(t: TensorView) -> Result<Kind, StatusView> {
    match spec_kind(t.dtype) {
        None => Err(
            (
                Code::InvalidArgument,
                "Torch backend does not support datatype '"@ + t.dtype + "' (no libtorch kind)"@,
            ),
        ),
        Some(kind) => match spec_elements(t.data.len(), kind, "torch model"@) {
            Err(status) => Err(status),
            Ok(_) => Ok(kind),
        },
    }
}

/// Checks an input before it is handed to libtorch.
pub fn check_torch_input(t: &Tensor) -> (r: Result<Kind, Status>)
    ensures
        match r {
            Ok(kind) => spec_torch_input(t@) == Ok::<Kind, StatusView>(kind),
            Err(e) => spec_torch_input(t@) == Err::<Kind, StatusView>(e@),
        },
{
    let kind = match kind_from_canonical(t.dtype.as_str()) {
        Some(kind) => kind,
        None => {
            return Err(
                Status::invalid_argument(
                    cat3(
                        "Torch backend does not support datatype '",
                        t.dtype.as_str(),
                        "' (no libtorch kind)",
                    ),
                ),
            );
        },
    };
    match check_input_bytes(t.data.as_slice(), kind, "torch model") {
        Ok(_) => Ok(kind),
        Err(status) => Err(status),
    }
}

/// The kinds of the first inputs, or why the first that libtorch cannot take is
/// refused.
pub open spec fn spec_torch_inputs(inputs: Seq<TensorView>) -> Result<Seq<Kind>, StatusView>
    decreases inputs.len(),
{
    if inputs.len() == 0 {
        Ok(Seq::empty())
    } else {
        match spec_torch_inputs(inputs.drop_last()) {
            Err(status) => Err(status),
            Ok(before) => match spec_torch_input(inputs.last()) {
                Err(status) => Err(status),
                Ok(kind) => Ok(before.push(kind)),
            },
        }
    }
}

proof fn lemma_torch_fault(inputs: Seq<TensorView>, k: int)
    requires
        0 <= k <= inputs.len(),
        spec_torch_inputs(inputs.take(k)) is Err,
    ensures
        spec_torch_inputs(inputs) == spec_torch_inputs(inputs.take(k)),
    decreases inputs.len() - k,
{
    if k == inputs.len() {
        assert(inputs.take(k) =~= inputs);
    } else {
        assert(inputs.take(k + 1).drop_last() =~= inputs.take(k));
        lemma_torch_fault(inputs, k + 1);
    }
}

/// Checks the inputs of a request before they are handed to libtorch, in their
/// order, and gives the kind of each.
pub fn check_torch_inputs(inputs: &Vec<Tensor>) -> (r: Result<Vec<Kind>, Status>)
    ensures
        match r {
            Ok(kinds) => spec_torch_inputs(tensor::tensor_views(inputs@)) == Ok::<
                Seq<Kind>,
                StatusView,
            >(kinds@),
            Err(e) => spec_torch_inputs(tensor::tensor_views(inputs@)) == Err::<
                Seq<Kind>,
                StatusView,
            >(e@),
        },
{
    let ghost all = tensor::tensor_views(inputs@);
    let mut kinds: Vec<Kind> = Vec::new();
    let mut i: usize = 0;
    assert(all.take(0) =~= Seq::empty());
    assert(kinds@ =~= Seq::empty());
    while i < inputs.len()
        invariant
            i <= inputs@.len(),
            all == tensor::tensor_views(inputs@),
            spec_torch_inputs(all.take(i as int)) == Ok::<Seq<Kind>, StatusView>(kinds@),
        decreases inputs@.len() - i,
    {
        proof {
            assert(all.take(i + 1).drop_last() =~= all.take(i as int));
            assert(all.take(i + 1).last() == inputs@[i as int]@);
        }
        match check_torch_input(&inputs[i]) {
            Err(status) => {
                proof {
                    lemma_torch_fault(all, i + 1);
                }
                return Err(status);
            },
            Ok(kind) => {
                kinds.push(kind);
            },
        }
        i = i + 1;
    }
    assert(all.take(i as int) =~= all);
    Ok(kinds)
}

/// The inputs of a TorchScript model are taken by position: where all are taken,
/// there is one kind for each, that of its own datatype.
pub proof fn law_torch_inputs_by_position(inputs: Seq<TensorView>)
    ensures
        spec_torch_inputs(inputs) matches Ok(kinds) ==> {
            &&& kinds.len() == inputs.len()
            &&& forall|i: int|
                0 <= i < inputs.len() ==> spec_torch_input(inputs[i]) == Ok::<Kind, StatusView>(
                    #[trigger] kinds[i],
                )
        },
    decreases inputs.len(),
{
    if inputs.len() > 0 {
        let front = inputs.drop_last();
        law_torch_inputs_by_position(front);
        if let Ok(kinds) = spec_torch_inputs(inputs) {
            let before = spec_torch_inputs(front)->Ok_0;
            assert forall|i: int| 0 <= i < inputs.len() implies spec_torch_input(inputs[i]) == Ok::<
                Kind,
                StatusView,
            >(#[trigger] kinds[i]) by {
                if i < front.len() {
                    assert(kinds[i] == before[i]);
                    assert(inputs[i] == front[i]);
                }
            }
        }
    }
}

/// The device to use: `None` for the processor. `available` and `count` are what
/// libtorch says of CUDA.
pub open spec fn spec_torch_device(device: ModelDevice, available: bool, count: i64) -> Result<
    Option<usize>,
    StatusView,
> {
    match device {
        ModelDevice::Cpu => Ok(None),
        ModelDevice::Cuda(index) => if !available {
            Err((Code::FailedPrecondition, "CUDA model configured but CUDA is not available"@))
        } else if index >= count {
            Err(
                (
                    Code::FailedPrecondition,
                    "cuda device index "@ + number::decimal(index as int) + " is out of range; "@
                        + number::decimal(count as int) + " CUDA device(s) available"@,
                ),
            )
        } else {
            Ok(Some(index))
        },
    }
}

/// Decides the device to use.
pub fn to_tch_device(device: ModelDevice, available: bool, count: i64) -> (r: Result<
    Option<usize>,
    Status,
>)
    ensures
        match r {
            Ok(chosen) => spec_torch_device(device, available, count) == Ok::<
                Option<usize>,
                StatusView,
            >(chosen),
            Err(e) => spec_torch_device(device, available, count) == Err::<
                Option<usize>,
                StatusView,
            >(e@),
        },
{
    match device {
        ModelDevice::Cpu => Ok(None),
        ModelDevice::Cuda(index) => {
            if !available {
                return Err(
                    Status::failed_precondition(
                        "CUDA model configured but CUDA is not available".to_string(),
                    ),
                );
            }
            if count < 0 || index as u128 >= count as u128 {
                let shown = decimal_usize(index);
                let there = decimal_i64(count);
                return Err(
                    Status::failed_precondition(
                        cat5(
                            "cuda device index ",
                            shown.as_str(),
                            " is out of range; ",
                            there.as_str(),
                            " CUDA device(s) available",
                        ),
                    ),
                );
            }
            Ok(Some(index))
        },
    }
}

/// A tensor that libtorch gave, copied to the processor. Its kind is missing where
/// it has no canonical name; `kind_text` is how libtorch shows it.
#[derive(Debug)]
pub struct RawTensor {
    pub shape: Vec<i64>,
    pub bytes: Vec<u8>,
    pub kind: Option<Kind>,
    pub kind_text: String,
}

/// What one element of a model's tuple is: a tensor, or something else, as libtorch
/// shows it.
#[derive(Debug)]
pub enum TupleItem {
    Tensor(RawTensor),
    Other(String),
}

/// What a forward pass gave: a tensor, a tuple, something else, as libtorch shows
/// it, or a failure.
#[derive(Debug)]
pub enum Forward {
    Tensor(RawTensor),
    Tuple(Vec<TupleItem>),
    Other(String),
    Failed(String),
}

/// The failure of an inference.
pub open spec fn inference_failed(cause: Seq<char>) -> StatusView {
    (Code::Internal, "Torch inference failed: "@ + cause)
}

fn inference_failure(cause: &str) -> (r: Status)
    ensures
        r@ == inference_failed(cause@),
{
    Status::internal(cat2("Torch inference failed: ", cause))
}

/// The name of the output at `i`: the declared one, or `output` beyond those.
pub open spec fn output_name(names: Seq<Seq<char>>, i: int) -> Seq<char> {
    if i < names.len() {
        names[i]
    } else {
        "output"@
    }
}

/// The output at `i` from a tensor that libtorch gave.
pub open spec fn named_output(names: Seq<Seq<char>>, i: int, raw: RawTensor) -> Result<
    TensorView,
    StatusView,
> {
    match raw.kind {
        None => Err(
            inference_failed(
                "Internal torch error: unsupported output tensor kind "@ + raw.kind_text@,
            ),
        ),
        Some(kind) => Ok(
            TensorView {
                name: output_name(names, i),
                shape: raw.shape@,
                dtype: kind.spec_canonical(),
                data: raw.bytes@,
            },
        ),
    }
}

/// The outputs from the first elements of a tuple.
pub open spec fn tuple_outputs(names: Seq<Seq<char>>, items: Seq<TupleItem>) -> Result<
    Seq<TensorView>,
    StatusView,
>
    decreases items.len(),
{
    if items.len() == 0 {
        Ok(Seq::empty())
    } else {
        match tuple_outputs(names, items.drop_last()) {
            Err(status) => Err(status),
            Ok(outputs) => match items.last() {
                TupleItem::Other(shown) => Err(
                    inference_failed(
                        "Internal torch error: model tuple output element is non-tensor: "@
                            + shown@,
                    ),
                ),
                TupleItem::Tensor(raw) => match named_output(names, items.len() - 1, raw) {
                    Err(status) => Err(status),
                    Ok(output) => Ok(outputs.push(output)),
                },
            },
        }
    }
}

/// The outputs of a model from what its forward pass gave.
pub open spec fn forward_outputs(names: Seq<Seq<char>>, forward: Forward) -> Result<
    Seq<TensorView>,
    StatusView,
> {
    match forward {
        Forward::Failed(cause) => Err(inference_failed(cause@)),
        Forward::Other(shown) => Err(
            inference_failed(
                "Internal torch error: model output was neither tensor nor tuple: "@ + shown@,
            ),
        ),
        Forward::Tensor(raw) => match named_output(names, 0, raw) {
            Err(status) => Err(status),
            Ok(output) => Ok(seq![output]),
        },
        Forward::Tuple(items) => tuple_outputs(names, items@),
    }
}

fn take_output(names: &Vec<String>, i: usize, raw: RawTensor) -> (r: Result<Tensor, Status>)
    ensures
        match r {
            Ok(t) => named_output(text::texts(names@), i as int, raw) == Ok::<
                TensorView,
                StatusView,
            >(t@),
            Err(e) => named_output(text::texts(names@), i as int, raw) == Err::<
                TensorView,
                StatusView,
            >(e@),
        },
{
    let name = if i < names.len() {
        names[i].clone()
    } else {
        "output".to_string()
    };
    match raw.kind {
        None => Err(
            inference_failure(
                cat2(
                    "Internal torch error: unsupported output tensor kind ",
                    raw.kind_text.as_str(),
                ).as_str(),
            ),
        ),
        Some(kind) => Ok(
            Tensor {
                name,
                shape: raw.shape,
                dtype: canonical_from_kind(kind).to_string(),
                data: raw.bytes,
            },
        ),
    }
}

proof fn lemma_tuple_fault(names: Seq<Seq<char>>, items: Seq<TupleItem>, k: int)
    requires
        0 <= k <= items.len(),
        tuple_outputs(names, items.take(k)) is Err,
    ensures
        tuple_outputs(names, items) == tuple_outputs(names, items.take(k)),
    decreases items.len() - k,
{
    if k == items.len() {
        assert(items.take(k) =~= items);
    } else {
        assert(items.take(k + 1).drop_last() =~= items.take(k));
        lemma_tuple_fault(names, items, k + 1);
    }
}

fn take_tuple(names: &Vec<String>, items: Vec<TupleItem>) -> (r: Result<Vec<Tensor>, Status>)
    ensures
        match r {
            Ok(outputs) => tuple_outputs(text::texts(names@), items@) == Ok::<
                Seq<TensorView>,
                StatusView,
            >(tensor::tensor_views(outputs@)),
            Err(e) => tuple_outputs(text::texts(names@), items@) == Err::<
                Seq<TensorView>,
                StatusView,
            >(e@),
        },
{
    let ghost all = items@;
    let ghost given = text::texts(names@);
    let mut left = items;
    let total: usize = left.len();
    let mut outputs: Vec<Tensor> = Vec::new();
    let mut i: usize = 0;
    proof {
        assert(all.take(0) =~= Seq::empty());
        assert(tensor::tensor_views(outputs@) =~= Seq::empty());
        assert(all.skip(0) =~= all);
    }
    while left.len() > 0
        invariant
            i <= total,
            total == all.len(),
            all == items@,
            left@ == all.skip(i as int),
            given == text::texts(names@),
            tuple_outputs(given, all.take(i as int)) == Ok::<Seq<TensorView>, StatusView>(
                tensor::tensor_views(outputs@),
            ),
        decreases left@.len(),
    {
        proof {
            assert(all.take(i + 1).drop_last() =~= all.take(i as int));
            assert(all.take(i + 1).last() == left@[0]);
        }
        let ghost before = outputs@;
        match left.remove(0) {
            TupleItem::Other(shown) => {
                proof {
                    lemma_tuple_fault(given, all, i + 1);
                }
                return Err(
                    inference_failure(
                        cat2(
                            "Internal torch error: model tuple output element is non-tensor: ",
                            shown.as_str(),
                        ).as_str(),
                    ),
                );
            },
            TupleItem::Tensor(raw) => match take_output(names, i, raw) {
                Err(status) => {
                    proof {
                        lemma_tuple_fault(given, all, i + 1);
                    }
                    return Err(status);
                },
                Ok(output) => {
                    outputs.push(output);
                    assert(tensor::tensor_views(outputs@) =~= tensor::tensor_views(before).push(
                        output@,
                    ));
                },
            },
        }
        i = i + 1;
        assert(left@ =~= all.skip(i as int));
    }
    assert(all.take(i as int) =~= all);
    Ok(outputs)
}

/// Finds the only `.pt` file of a folder.
pub fn find_exactly_one_pt_model_file(folder: &Folder) -> (r: Result<String, Status>)
    ensures
        match r {
            Ok(path) => folder::the_only_file(*folder, "pt"@) == Ok::<Seq<char>, StatusView>(
                path@,
            ),
            Err(e) => folder::the_only_file(*folder, "pt"@) == Err::<Seq<char>, StatusView>(e@),
        },
{
    find_exactly_one(folder, "pt")
}

/// Makes the failure to load a module.
pub fn load_failure(model_name: &str, cause: &str) -> (r: Status)
    ensures
        r@ == (
            Code::FailedPrecondition,
            "failed to load .pt model for '"@ + model_name@ + "': "@ + cause@,
        ),
{
    Status::failed_precondition(cat4("failed to load .pt model for '", model_name, "': ", cause))
}

/// Makes the failure to build a tensor of the bytes of an input.
pub fn build_failure(cause: &str) -> (r: Status)
    ensures
        r@ == (
            Code::Internal,
            "failed to build input tensor for model 'torch model': "@ + cause@,
        ),
{
    Status::internal(cat2("failed to build input tensor for model 'torch model': ", cause))
}

/// The names of a loaded TorchScript model's outputs.
#[derive(Debug)]
pub struct TorchBackend {
    pub output_names: Vec<String>,
}

impl TorchBackend {
    /// Reads what a TorchScript model declares, once libtorch has loaded it.
    pub fn load(model_name: &str, file: &TextFile) -> (r: Result<(TorchBackend, Contract), Status>)
        ensures
            match engine::fed_contract("Torch"@, model_name@, *file) {
                Ok(declared) => r matches Ok((backend, contract)) && contract@ == declared
                    && text::texts(backend.output_names@) == triton::spec_names(declared.outputs),
                Err(status) => r matches Err(e) && e@ == status,
            },
    {
        match read_fed_contract("Torch", model_name, file) {
            Ok(contract) => {
                let output_names = declared_names(&contract.outputs);
                Ok((TorchBackend { output_names }, contract))
            },
            Err(status) => Err(status),
        }
    }

    /// The platform that the model reports.
    pub fn platform(&self) -> (r: &'static str)
        ensures
            r@ == "pytorch_libtorch"@,
    {
        "pytorch_libtorch"
    }

    /// Makes the outputs of the model from what its forward pass gave.
    pub fn outputs(&self, forward: Forward) -> (r: Result<Vec<Tensor>, Status>)
        ensures
            match r {
                Ok(outputs) => forward_outputs(text::texts(self.output_names@), forward) == Ok::<
                    Seq<TensorView>,
                    StatusView,
                >(tensor::tensor_views(outputs@)),
                Err(e) => forward_outputs(text::texts(self.output_names@), forward) == Err::<
                    Seq<TensorView>,
                    StatusView,
                >(e@),
            },
    {
        match forward {
            Forward::Failed(cause) => Err(inference_failure(cause.as_str())),
            Forward::Other(shown) => Err(
                inference_failure(
                    cat2(
                        "Internal torch error: model output was neither tensor nor tuple: ",
                        shown.as_str(),
                    ).as_str(),
                ),
            ),
            Forward::Tensor(raw) => match take_output(&self.output_names, 0, raw) {
                Err(status) => Err(status),
                Ok(output) => {
                    let mut outputs: Vec<Tensor> = Vec::new();
                    outputs.push(output);
                    assert(tensor::tensor_views(outputs@) =~= seq![output@]);
                    Ok(outputs)
                },
            },
            Forward::Tuple(items) => take_tuple(&self.output_names, items),
        }
    }
}

/// The word that the canonical names of a kind begin with.
pub open spec fn kind_word(kind: Kind) -> Seq<char> {
    match kind {
        Kind::Bool => "bool"@,
        Kind::Uint8 => "uint"@,
        Kind::Int8 | Kind::Int16 | Kind::Int | Kind::Int64 => "int"@,
        Kind::Half | Kind::Float | Kind::Double => "float"@,
        Kind::BFloat16 => "bfloat"@,
    }
}

/// How many bytes an element of a kind takes in libtorch.
pub open spec fn kind_bytes(kind: Kind) -> usize {
    match kind {
        Kind::Bool | Kind::Uint8 | Kind::Int8 => 1,
        Kind::Int16 | Kind::Half | Kind::BFloat16 => 2,
        Kind::Int | Kind::Float => 4,
        Kind::Int64 | Kind::Double => 8,
    }
}

/// The canonical type of a kind is that of libtorch: the word of the kind with the
/// number of its bits, which are those of its elements.
pub proof fn law_kinds_keep_word_and_width(kind: Kind)
    ensures
        kind.spec_canonical() == if kind is Bool {
            kind_word(kind)
        } else {
            kind_word(kind) + number::decimal(8 * kind_bytes(kind) as int)
        },
        kind.spec_width() == kind_bytes(kind),
{
    dtype::lemma_spelled();
}

/// libtorch takes an input exactly if its type has a kind and its bytes are a whole
/// number of elements, and takes it with that kind. Other inputs are invalid.
pub proof fn law_torch_takes(t: TensorView)
    ensures
        match spec_torch_input(t) {
            Ok(kind) => kind.spec_canonical() == t.dtype && t.data.len() as int % kind_bytes(
                kind,
            ) as int == 0,
            Err(status) => status.0 == Code::InvalidArgument && forall|kind: Kind|
                #[trigger] kind.spec_canonical() == t.dtype ==> t.data.len() as int % kind_bytes(
                    kind,
                ) as int != 0,
        },
{
    match spec_kind(t.dtype) {
        Some(kind) => {
            law_kinds_invert(kind, t.dtype);
            law_kinds_keep_word_and_width(kind);
        },
        None => {},
    }
    assert forall|kind: Kind| #[trigger] kind.spec_canonical() == t.dtype implies spec_kind(t.dtype)
        == Some(kind) by {
        law_kinds_invert(kind, t.dtype);
    }
}

/// A model runs on the processor where that is configured, and on a CUDA device
/// exactly if libtorch has CUDA and a device of that index, and then on that one.
pub proof fn law_torch_device(device: ModelDevice, available: bool, count: i64)
    ensures
        match spec_torch_device(device, available, count) {
            Ok(None) => device == ModelDevice::Cpu,
            Ok(Some(index)) => device == ModelDevice::Cuda(index) && available && index < count,
            Err(status) => status.0 == Code::FailedPrecondition && match device {
                ModelDevice::Cpu => false,
                ModelDevice::Cuda(index) => !(available && index < count),
            },
        },
{
}

/// The outputs of a forward pass are the tensors that it gave, in their order: each
/// under the declared name at its place, or `output` beyond those, with its own
/// shape and bytes and the canonical type of its own kind.
pub proof fn law_outputs_are_the_forward_pass(names: Seq<Seq<char>>, forward: Forward)
    ensures
        forward_outputs(names, forward) matches Ok(outputs) ==> match forward {
            Forward::Tensor(raw) => outputs.len() == 1 && is_output(names, 0, raw, outputs[0]),
            Forward::Tuple(items) => {
                &&& outputs.len() == items@.len()
                &&& forall|i: int|
                    0 <= i < items@.len() ==> is_item(names, i, items@[i], #[trigger] outputs[i])
            },
            _ => false,
        },
        forward_outputs(names, forward) matches Err(status) ==> status.0 == Code::Internal,
        (forward matches Forward::Tensor(raw) && raw.kind is Some) ==> forward_outputs(
            names,
            forward,
        ) is Ok,
        (forward matches Forward::Tuple(items) && forall|i: int|
            0 <= i < items@.len() ==> servable(#[trigger] items@[i])) ==> forward_outputs(names, forward) is Ok,
{
    if let Forward::Tuple(items) = forward {
        lemma_tuple_is_given(names, items@);
    }
}

/// Whether a tensor is the output at a place, from what libtorch gave for it.
pub open spec fn is_output(names: Seq<Seq<char>>, i: int, raw: RawTensor, t: TensorView) -> bool {
    &&& raw.kind matches Some(kind) && t.dtype == kind.spec_canonical()
    &&& t.shape == raw.shape@
    &&& t.data == raw.bytes@
    &&& i < names.len() ==> t.name == names[i]
    &&& i >= names.len() ==> t.name == "output"@
}

/// Whether a tensor is the output at a place, from an element of a tuple.
pub open spec fn is_item(names: Seq<Seq<char>>, i: int, item: TupleItem, t: TensorView) -> bool {
    match item {
        TupleItem::Tensor(raw) => is_output(names, i, raw, t),
        TupleItem::Other(_) => false,
    }
}

/// Whether an element of a tuple is a tensor of a kind with a canonical name.
pub open spec fn servable(item: TupleItem) -> bool {
    match item {
        TupleItem::Tensor(raw) => raw.kind is Some,
        TupleItem::Other(_) => false,
    }
}

proof fn lemma_tuple_is_given(names: Seq<Seq<char>>, items: Seq<TupleItem>)
    ensures
        match tuple_outputs(names, items) {
            Ok(outputs) => {
                &&& outputs.len() == items.len()
                &&& forall|i: int|
                    0 <= i < items.len() ==> is_item(names, i, items[i], #[trigger] outputs[i])
            },
            Err(status) => status.0 == Code::Internal && exists|i: int|
                0 <= i < items.len() && !servable(#[trigger] items[i]),
        },
    decreases items.len(),
{
    if items.len() > 0 {
        let front = items.drop_last();
        lemma_tuple_is_given(names, front);
        match tuple_outputs(names, front) {
            Err(_) => {
                let i = choose|i: int|
                    0 <= i < front.len() && !servable(#[trigger] front[i]);
                assert(items[i] == front[i]);
            },
            Ok(before) => {
                assert(items[items.len() - 1] == items.last());
                if let Ok(outputs) = tuple_outputs(names, items) {
                    assert forall|i: int| 0 <= i < items.len() implies is_item(
                        names,
                        i,
                        items[i],
                        #[trigger] outputs[i],
                    ) by {
                        if i < front.len() {
                            assert(front[i] == items[i]);
                            assert(outputs[i] == before[i]);
                        }
                    }
                }
            },
        }
    }
}

} // verus!
