//! The KServe v2 surface: from an inference request to the tensors a backend
//! consumes, and from its outputs to the response.
//!
//! Requests are checked against the model's contract alone, so every backend,
//! and single- and multi-tensor models alike, take one path. There is a single
//! model version, `"1"`.

use vstd::prelude::*;

use crate::contract;
use crate::contract::{Contract, ContractView, TensorSpec, TensorSpecView};
use crate::dtype;
use crate::dtype::{canonical_to_kserve, kserve_fixed_width};
use crate::names;
use crate::names::find_name;
use crate::number;
use crate::number::{decimal_u64, decimal_usize};
use crate::status::{Code, Status, StatusView};
use crate::tensor;
use crate::tensor::{copy_bytes, copy_dims, dims_shown, element_count, Tensor, TensorView};
use crate::text;
use crate::text::{cat3, cat5, cat6, cat7, cat8, same};

verus! {

/// The one model version there is.
pub const MODEL_VERSION: &'static str = "1";

/// One input of an inference request.
#[derive(Debug)]
pub struct InferInputTensor {
    pub name: String,
    pub datatype: String,
    pub shape: Vec<i64>,
    /// The typed 32-bit float values, where the request carries typed contents,
    /// as the bit patterns of the floats.
    pub contents: Option<Vec<u32>>,
}

/// An [`InferInputTensor`] as contracts see it.
#[verifier::ext_equal]
pub struct InputView {
    pub name: Seq<char>,
    pub datatype: Seq<char>,
    pub shape: Seq<i64>,
    pub contents: Option<Seq<u32>>,
}

impl View for InferInputTensor {
    type V = InputView;

    open spec fn view(&self) -> InputView {
        InputView {
            name: self.name@,
            datatype: self.datatype@,
            shape: self.shape@,
            contents: match self.contents {
                Some(values) => Some(values@),
                None => None,
            },
        }
    }
}

/// What a list of inputs holds.
pub open spec fn input_views(inputs: Seq<InferInputTensor>) -> Seq<InputView> {
    Seq::new(inputs.len(), |i: int| inputs[i]@)
}

/// An inference request.
#[derive(Debug)]
pub struct ModelInferRequest {
    pub model_name: String,
    pub model_version: String,
    pub id: String,
    pub inputs: Vec<InferInputTensor>,
    /// The names of the outputs that the client asks for; none asks for all.
    pub outputs: Vec<String>,
    /// The raw buffers, paired with `inputs` by position.
    pub raw_input_contents: Vec<Vec<u8>>,
}

/// A [`ModelInferRequest`] as contracts see it.
#[verifier::ext_equal]
pub struct RequestView {
    pub model_name: Seq<char>,
    pub model_version: Seq<char>,
    pub id: Seq<char>,
    pub inputs: Seq<InputView>,
    pub outputs: Seq<Seq<char>>,
    pub raw_input_contents: Seq<Seq<u8>>,
}

impl View for ModelInferRequest {
    type V = RequestView;

    open spec fn view(&self) -> RequestView {
        RequestView {
            model_name: self.model_name@,
            model_version: self.model_version@,
            id: self.id@,
            inputs: input_views(self.inputs@),
            outputs: text::texts(self.outputs@),
            raw_input_contents: tensor::buffers(self.raw_input_contents@),
        }
    }
}

/// The little-endian bytes of a word.
pub open spec fn word_bytes(x: u32) -> Seq<u8> {
    seq![
        (x % 256) as u8,
        (x / 256 % 256) as u8,
        (x / 65536 % 256) as u8,
        (x / 16777216 % 256) as u8,
    ]
}

/// The little-endian bytes of the words, in order.
pub open spec fn words_bytes(words: Seq<u32>) -> Seq<u8>
    decreases words.len(),
{
    if words.len() == 0 {
        Seq::empty()
    } else {
        words_bytes(words.drop_last()) + word_bytes(words.last())
    }
}

proof fn lemma_words_length(words: Seq<u32>)
    ensures
        words_bytes(words).len() == 4 * words.len(),
    decreases words.len(),
{
    if words.len() > 0 {
        lemma_words_length(words.drop_last());
    }
}

proof fn lemma_word_of_bytes(x: u32, y: u32)
    requires
        word_bytes(x) == word_bytes(y),
    ensures
        x == y,
{
    let a = word_bytes(x);
    let b = word_bytes(y);
    assert(a[0] == b[0] && a[1] == b[1] && a[2] == b[2] && a[3] == b[3]);
    assert(x % 256 == y % 256 && x / 256 % 256 == y / 256 % 256 && x / 65536 % 256 == y / 65536
        % 256 && x / 16777216 % 256 == y / 16777216 % 256 ==> x == y) by (bit_vector);
}

/// No two lists of words have the same bytes: typed contents are not mixed up on
/// the way to a model.
pub proof fn law_words_have_their_own_bytes(a: Seq<u32>, b: Seq<u32>)
    requires
        words_bytes(a) == words_bytes(b),
    ensures
        a == b,
    decreases a.len(),
{
    lemma_words_length(a);
    lemma_words_length(b);
    if a.len() > 0 {
        let n = words_bytes(a).len() - 4;
        lemma_words_length(a.drop_last());
        lemma_words_length(b.drop_last());
        assert(words_bytes(a).take(n) =~= words_bytes(a.drop_last()));
        assert(words_bytes(b).take(n) =~= words_bytes(b.drop_last()));
        law_words_have_their_own_bytes(a.drop_last(), b.drop_last());
        assert(words_bytes(a).skip(n) =~= word_bytes(a.last()));
        assert(words_bytes(b).skip(n) =~= word_bytes(b.last()));
        lemma_word_of_bytes(a.last(), b.last());
        assert(a =~= a.drop_last().push(a.last()));
        assert(b =~= b.drop_last().push(b.last()));
    } else {
        assert(a =~= b);
    }
}

fn le_bytes(words: &Vec<u32>) -> (r: Vec<u8>)
    ensures
        r@ == words_bytes(words@),
{
    let mut out: Vec<u8> = Vec::new();
    let mut i: usize = 0;
    assert(words@.take(0) =~= Seq::empty());
    while i < words.len()
        invariant
            i <= words@.len(),
            out@ == words_bytes(words@.take(i as int)),
        decreases words@.len() - i,
    {
        let x: u32 = words[i];
        proof {
            assert(words@.take(i + 1).drop_last() =~= words@.take(i as int));
            assert(words@.take(i + 1).last() == x);
        }
        out.push((x % 256) as u8);
        out.push((x / 256 % 256) as u8);
        out.push((x / 65536 % 256) as u8);
        out.push((x / 16777216 % 256) as u8);
        assert(out@ =~= words_bytes(words@.take(i + 1)));
        i = i + 1;
    }
    assert(words@.take(i as int) =~= words@);
    out
}

/// The names of the inputs.
pub open spec fn input_names(inputs: Seq<InputView>) -> Seq<Seq<char>> {
    Seq::new(inputs.len(), |i: int| inputs[i].name)
}

/// The names of the declared tensors.
pub open spec fn spec_names(specs: Seq<TensorSpecView>) -> Seq<Seq<char>> {
    Seq::new(specs.len(), |i: int| specs[i].name)
}

/// The refusal of tensors for a model that consumes none.
pub open spec fn stray_inputs(inputs: nat, raw: nat, model: Seq<char>) -> StatusView {
    (
        Code::InvalidArgument,
        "model '"@ + model + "' declares no input tensor but the request carries "@
            + number::decimal(inputs as int) + " input(s) and "@ + number::decimal(raw as int)
            + " raw buffer(s)"@,
    )
}

/// The refusal of raw buffers that do not pair up with the inputs.
pub open spec fn raw_not_paired() -> StatusView {
    (
        Code::InvalidArgument,
        "raw_input_contents length must equal the number of input tensors"@,
    )
}

/// The refusal of an input that is sent twice.
pub open spec fn repeated_input(name: Seq<char>, model: Seq<char>) -> StatusView {
    (
        Code::InvalidArgument,
        "duplicate input tensor name '"@ + name + "' in request for model '"@ + model + "'"@,
    )
}

/// The refusal of an input that the model does not declare.
pub open spec fn unknown_input(name: Seq<char>, model: Seq<char>) -> StatusView {
    (Code::InvalidArgument, "model '"@ + model + "' has no input '"@ + name + "'"@)
}

/// The refusal of a request without a declared input.
pub open spec fn missing_input(name: Seq<char>, model: Seq<char>) -> StatusView {
    (Code::InvalidArgument, "missing input tensor '"@ + name + "' for model '"@ + model + "'"@)
}

/// The refusal of an input of another datatype than declared.
pub open spec fn wrong_datatype(
    name: Seq<char>,
    expected: Seq<char>,
    got: Seq<char>,
    model: Seq<char>,
) -> StatusView {
    (
        Code::InvalidArgument,
        "datatype mismatch for input '"@ + name + "' of model '"@ + model + "': expected "@
            + expected + ", got '"@ + got + "'"@,
    )
}

/// The refusal of an input whose declared datatype has no fixed width.
pub open spec fn unsupported_datatype(name: Seq<char>, dtype: Seq<char>) -> StatusView {
    (
        Code::InvalidArgument,
        "unsupported datatype '"@ + dtype + "' for input '"@ + name + "'"@,
    )
}

/// The refusal of an input that carries no data.
pub open spec fn no_contents(name: Seq<char>) -> StatusView {
    (
        Code::InvalidArgument,
        "input '"@ + name + "' has neither raw_input_contents nor contents"@,
    )
}

/// The refusal of typed contents for a datatype other than 32-bit floats.
pub open spec fn raw_required(name: Seq<char>, dtype: Seq<char>) -> StatusView {
    (
        Code::InvalidArgument,
        "input '"@ + name + "' ("@ + dtype
            + ") requires raw_input_contents (typed contents is FP32-only)"@,
    )
}

/// The refusal of a shape with more elements than can be counted.
pub open spec fn shape_overflow() -> StatusView {
    (Code::InvalidArgument, "input tensor shape overflow"@)
}

/// The refusal of a buffer whose length is not that of its shape.
pub open spec fn wrong_length(
    name: Seq<char>,
    length: nat,
    shape: Seq<i64>,
    width: usize,
    expected: int,
    model: Seq<char>,
) -> StatusView {
    (
        Code::InvalidArgument,
        "input '"@ + name + "' byte length "@ + number::decimal(length as int)
            + " does not match shape "@ + tensor::shown_dims(shape) + " \u{d7} "@
            + number::decimal(width as int) + " bytes ("@ + number::decimal(expected)
            + ") for model '"@ + model + "'"@,
    )
}

/// The refusal of inputs with different batch sizes.
pub open spec fn mixed_batches() -> StatusView {
    (Code::InvalidArgument, "inconsistent batch sizes across input tensors"@)
}

/// The number of bytes of so many elements, or the largest 64-bit number where
/// it exceeds that.
pub open spec fn byte_count(elements: int, width: int) -> int {
    if elements * width <= u64::MAX {
        elements * width
    } else {
        u64::MAX as int
    }
}

/// The bytes that a request carries for its input at `index`: the raw buffer
/// where there are raw buffers, else the typed contents, which exist for 32-bit
/// floats only.
pub open spec fn input_bytes(
    request: RequestView,
    index: int,
    spec: TensorSpecView,
) -> Result<Seq<u8>, StatusView> {
    if request.raw_input_contents.len() > 0 {
        Ok(request.raw_input_contents[index])
    } else if spec.dtype == "FP32"@ {
        match request.inputs[index].contents {
            Some(values) => Ok(words_bytes(values)),
            None => Err(no_contents(spec.name)),
        }
    } else {
        Err(raw_required(spec.name, spec.dtype))
    }
}

/// The tensor of a given shape, canonical datatype and element width, if the
/// bytes are as many as the shape asks for.
pub open spec fn sized_tensor(
    spec: TensorSpecView,
    shape: Seq<i64>,
    width: usize,
    canonical: Seq<char>,
    bytes: Seq<u8>,
    model: Seq<char>,
) -> Result<TensorView, StatusView> {
    match tensor::checked_product(shape) {
        None => Err(shape_overflow()),
        Some(elements) => {
            let expected = byte_count(elements, width as int);
            if bytes.len() != expected {
                Err(wrong_length(spec.name, bytes.len(), shape, width, expected, model))
            } else {
                Ok(TensorView { name: spec.name, shape, dtype: canonical, data: bytes })
            }
        },
    }
}

/// The tensor that a request binds to the declared input `spec`.
pub open spec fn bound_input(
    contract: ContractView,
    spec: TensorSpecView,
    request: RequestView,
    model: Seq<char>,
) -> Result<TensorView, StatusView> {
    let index = names::position(input_names(request.inputs), spec.name) as int;
    let input = request.inputs[index];
    if index >= request.inputs.len() {
        Err(missing_input(spec.name, model))
    } else if input.datatype != spec.dtype {
        Err(wrong_datatype(spec.name, spec.dtype, input.datatype, model))
    } else {
        match dtype::spec_fixed_width(spec.dtype) {
            None => Err(unsupported_datatype(spec.name, spec.dtype)),
            Some((width, canonical)) => match contract::spec_request_shape(
                spec.dims,
                contract.max_batch_size,
                input.shape,
                model,
            ) {
                Err(e) => Err(e),
                Ok(_) => match input_bytes(request, index, spec) {
                    Err(e) => Err(e),
                    Ok(bytes) => sized_tensor(
                        spec,
                        contract::normalized(spec.dims, contract.max_batch_size, input.shape),
                        width,
                        canonical,
                        bytes,
                        model,
                    ),
                },
            },
        }
    }
}

/// The tensors that a request binds to the first `count` declared inputs, in the
/// declared order, and their common batch size where a batch dimension is
/// declared; or the refusal of the first one that cannot be bound.
pub open spec fn bound_inputs(
    contract: ContractView,
    request: RequestView,
    model: Seq<char>,
    count: nat,
) -> Result<(Seq<TensorView>, Option<i64>), StatusView>
    decreases count,
{
    if count == 0 {
        Ok((Seq::empty(), None))
    } else {
        match bound_inputs(contract, request, model, (count - 1) as nat) {
            Err(e) => Err(e),
            Ok((tensors, batch)) => match bound_input(
                contract,
                contract.inputs[count - 1],
                request,
                model,
            ) {
                Err(e) => Err(e),
                Ok(tensor) => {
                    let own = contract.batch_of(tensor.shape);
                    if batch is Some && own != batch {
                        Err(mixed_batches())
                    } else {
                        Ok((tensors.push(tensor), own))
                    }
                },
            },
        }
    }
}

/// The tensors that a request hands to the model, in the declared order, and
/// the batch size of the request; or why the request is refused.
pub open spec fn spec_build_inputs(
    contract: ContractView,
    request: RequestView,
    model: Seq<char>,
) -> Result<(Seq<TensorView>, Option<i64>), StatusView> {
    let names = input_names(request.inputs);
    let declared = spec_names(contract.inputs);
    let inputs = request.inputs.len();
    let raw = request.raw_input_contents.len();
    if contract.inputs.len() == 0 {
        if inputs > 0 || raw > 0 {
            Err(stray_inputs(inputs, raw, model))
        } else {
            Ok((Seq::empty(), None))
        }
    } else if raw > 0 && raw != inputs {
        Err(raw_not_paired())
    } else if names::first_repeated(names, 0) < names.len() {
        Err(repeated_input(names[names::first_repeated(names, 0)], model))
    } else if names::first_unknown(names, declared, 0) < names.len() {
        Err(unknown_input(names[names::first_unknown(names, declared, 0)], model))
    } else {
        bound_inputs(contract, request, model, contract.inputs.len())
    }
}

fn find_input(inputs: &Vec<InferInputTensor>, name: &str) -> (r: usize)
    ensures
        r == names::position(input_names(input_views(inputs@)), name@),
        r <= inputs@.len(),
{
    let ghost names = input_names(input_views(inputs@));
    let mut i: usize = 0;
    while i < inputs.len()
        invariant
            i <= inputs@.len(),
            names == input_names(input_views(inputs@)),
            forall|k: int| 0 <= k < i ==> names[k] != name@,
        decreases inputs@.len() - i,
    {
        assert(names[i as int] == inputs@[i as int].name@);
        if same(inputs[i].name.as_str(), name) {
            proof {
                names::lemma_position_is(names, name@, i as nat);
            }
            return i;
        }
        i = i + 1;
    }
    proof {
        names::lemma_position_is(names, name@, i as nat);
    }
    i
}

fn find_spec(specs: &Vec<TensorSpec>, name: &str) -> (r: usize)
    ensures
        r == names::position(spec_names(contract::spec_views(specs@)), name@),
        r <= specs@.len(),
{
    let ghost names = spec_names(contract::spec_views(specs@));
    let mut i: usize = 0;
    while i < specs.len()
        invariant
            i <= specs@.len(),
            names == spec_names(contract::spec_views(specs@)),
            forall|k: int| 0 <= k < i ==> names[k] != name@,
        decreases specs@.len() - i,
    {
        assert(names[i as int] == specs@[i as int].name@);
        if same(specs[i].name.as_str(), name) {
            proof {
                names::lemma_position_is(names, name@, i as nat);
            }
            return i;
        }
        i = i + 1;
    }
    proof {
        names::lemma_position_is(names, name@, i as nat);
    }
    i
}

fn find_repeated(inputs: &Vec<InferInputTensor>) -> (r: usize)
    ensures
        r == names::first_repeated(input_names(input_views(inputs@)), 0),
        r <= inputs@.len(),
{
    let ghost names = input_names(input_views(inputs@));
    let mut i: usize = 0;
    while i < inputs.len()
        invariant
            i <= inputs@.len(),
            names == input_names(input_views(inputs@)),
            names::first_repeated(names, 0) == names::first_repeated(names, i as int),
        decreases inputs@.len() - i,
    {
        assert(names[i as int] == inputs@[i as int].name@);
        if find_input(inputs, inputs[i].name.as_str()) < i {
            return i;
        }
        i = i + 1;
    }
    i
}

fn find_unknown(inputs: &Vec<InferInputTensor>, specs: &Vec<TensorSpec>) -> (r: usize)
    ensures
        r == names::first_unknown(
            input_names(input_views(inputs@)),
            spec_names(contract::spec_views(specs@)),
            0,
        ),
        r <= inputs@.len(),
{
    let ghost names = input_names(input_views(inputs@));
    let ghost known = spec_names(contract::spec_views(specs@));
    let mut i: usize = 0;
    while i < inputs.len()
        invariant
            i <= inputs@.len(),
            names == input_names(input_views(inputs@)),
            known == spec_names(contract::spec_views(specs@)),
            names::first_unknown(names, known, 0) == names::first_unknown(names, known, i as int),
        decreases inputs@.len() - i,
    {
        assert(names[i as int] == inputs@[i as int].name@);
        if find_spec(specs, inputs[i].name.as_str()) == specs.len() {
            return i;
        }
        i = i + 1;
    }
    i
}

fn take_input_bytes(request: &ModelInferRequest, index: usize, spec: &TensorSpec) -> (r: Result<
    Vec<u8>,
    Status,
>)
    requires
        index < request.inputs@.len(),
        request.raw_input_contents@.len() > 0 ==> request.raw_input_contents@.len()
            == request.inputs@.len(),
    ensures
        match r {
            Ok(bytes) => input_bytes(request@, index as int, spec@) == Ok::<Seq<u8>, StatusView>(
                bytes@,
            ),
            Err(e) => input_bytes(request@, index as int, spec@) == Err::<Seq<u8>, StatusView>(e@),
        },
{
    let name = spec.name.as_str();
    if request.raw_input_contents.len() > 0 {
        return Ok(copy_bytes(request.raw_input_contents[index].as_slice()));
    }
    if same(spec.dtype.as_str(), "FP32") {
        match &request.inputs[index].contents {
            Some(values) => Ok(le_bytes(values)),
            None => Err(
                Status::invalid_argument(
                    cat3("input '", name, "' has neither raw_input_contents nor contents"),
                ),
            ),
        }
    } else {
        Err(
            Status::invalid_argument(
                cat5(
                    "input '",
                    name,
                    "' (",
                    spec.dtype.as_str(),
                    ") requires raw_input_contents (typed contents is FP32-only)",
                ),
            ),
        )
    }
}

fn wrong_length_status(
    name: &str,
    length: usize,
    shape: &[i64],
    width: usize,
    expected: u64,
    model: &str,
) -> (r: Status)
    ensures
        r@ == wrong_length(name@, length as nat, shape@, width, expected as int, model@),
{
    let length_text = decimal_usize(length);
    let shape_text = dims_shown(shape);
    let width_text = decimal_usize(width);
    let expected_text = decimal_u64(expected);
    let mut message = cat8(
        "input '",
        name,
        "' byte length ",
        length_text.as_str(),
        " does not match shape ",
        shape_text.as_str(),
        " \u{d7} ",
        width_text.as_str(),
    );
    message.append(" bytes (");
    message.append(expected_text.as_str());
    message.append(") for model '");
    message.append(model);
    message.append("'");
    Status::invalid_argument(message)
}

fn size_tensor(
    spec: &TensorSpec,
    shape: Vec<i64>,
    width: usize,
    canonical: &'static str,
    bytes: Vec<u8>,
    model: &str,
) -> (r: Result<Tensor, Status>)
    requires
        0 < width <= 8,
        forall|i: int| 0 <= i < shape@.len() ==> shape@[i] > 0,
    ensures
        match r {
            Ok(tensor) => sized_tensor(spec@, shape@, width, canonical@, bytes@, model@) == Ok::<
                TensorView,
                StatusView,
            >(tensor@),
            Err(e) => sized_tensor(spec@, shape@, width, canonical@, bytes@, model@) == Err::<
                TensorView,
                StatusView,
            >(e@),
        },
{
    match element_count(shape.as_slice()) {
        None => Err(Status::invalid_argument("input tensor shape overflow".to_string())),
        Some(elements) => {
            proof {
                tensor::law_element_count(shape@);
                assert(0 <= elements * width <= elements * 8) by (nonlinear_arith)
                    requires
                        elements >= 1,
                        0 < width <= 8,
                ;
            }
            let exact: u128 = elements as u128 * width as u128;
            let expected: u64 = if exact <= u64::MAX as u128 {
                exact as u64
            } else {
                u64::MAX
            };
            if bytes.len() as u64 != expected {
                return Err(
                    wrong_length_status(
                        spec.name.as_str(),
                        bytes.len(),
                        shape.as_slice(),
                        width,
                        expected,
                        model,
                    ),
                );
            }
            Ok(
                Tensor {
                    name: spec.name.clone(),
                    shape,
                    dtype: canonical.to_string(),
                    data: bytes,
                },
            )
        },
    }
}

fn bind_input(
    contract: &Contract,
    spec: &TensorSpec,
    request: &ModelInferRequest,
    model: &str,
) -> (r: Result<Tensor, Status>)
    requires
        request.raw_input_contents@.len() > 0 ==> request.raw_input_contents@.len()
            == request.inputs@.len(),
    ensures
        match r {
            Ok(tensor) => bound_input(contract@, spec@, request@, model@) == Ok::<
                TensorView,
                StatusView,
            >(tensor@),
            Err(e) => bound_input(contract@, spec@, request@, model@) == Err::<
                TensorView,
                StatusView,
            >(e@),
        },
{
    let name = spec.name.as_str();
    let index: usize = find_input(&request.inputs, name);
    if index == request.inputs.len() {
        return Err(
            Status::invalid_argument(
                cat5("missing input tensor '", name, "' for model '", model, "'"),
            ),
        );
    }
    let input = &request.inputs[index];
    assert(request@.inputs[index as int] == input@);
    if !same(input.datatype.as_str(), spec.dtype.as_str()) {
        let mut message = cat8(
            "datatype mismatch for input '",
            name,
            "' of model '",
            model,
            "': expected ",
            spec.dtype.as_str(),
            ", got '",
            input.datatype.as_str(),
        );
        message.append("'");
        return Err(Status::invalid_argument(message));
    }
    match kserve_fixed_width(spec.dtype.as_str()) {
        None => Err(
            Status::invalid_argument(
                cat5(
                    "unsupported datatype '",
                    spec.dtype.as_str(),
                    "' for input '",
                    name,
                    "'",
                ),
            ),
        ),
        Some((width, canonical)) => {
            match contract.validate_input_shape(spec, input.shape.as_slice(), model) {
                Err(e) => {
                    return Err(e);
                },
                Ok(_) => {},
            }
            let shape = contract.normalize_request_shape(
                spec,
                copy_dims(input.shape.as_slice()),
            );
            match take_input_bytes(request, index, spec) {
                Err(e) => Err(e),
                Ok(bytes) => {
                    proof {
                        dtype::law_widths(spec.dtype@);
                    }
                    size_tensor(spec, shape, width, canonical, bytes, model)
                },
            }
        },
    }
}

proof fn lemma_bound_inputs_fault(
    contract: ContractView,
    request: RequestView,
    model: Seq<char>,
    k: nat,
    count: nat,
)
    requires
        k <= count,
        bound_inputs(contract, request, model, k) is Err,
    ensures
        bound_inputs(contract, request, model, count) == bound_inputs(contract, request, model, k),
    decreases count,
{
    if k < count {
        lemma_bound_inputs_fault(contract, request, model, k, (count - 1) as nat);
    }
}

/// Builds the model's input tensors from a request, in the contract's order,
/// and gives the batch size of the request where the model declares a batch
/// dimension.
pub fn build_input_tensors(
    contract: &Contract,
    request: &ModelInferRequest,
    model_name: &str,
) -> (r: Result<(Vec<Tensor>, Option<i64>), Status>)
    ensures
        match r {
            Ok((tensors, batch)) => spec_build_inputs(contract@, request@, model_name@) == Ok::<
                (Seq<TensorView>, Option<i64>),
                StatusView,
            >((tensor::tensor_views(tensors@), batch)),
            Err(e) => spec_build_inputs(contract@, request@, model_name@) == Err::<
                (Seq<TensorView>, Option<i64>),
                StatusView,
            >(e@),
        },
{
    if contract.inputs.len() == 0 {
        if request.inputs.len() > 0 || request.raw_input_contents.len() > 0 {
            let inputs_text = decimal_usize(request.inputs.len());
            let raw_text = decimal_usize(request.raw_input_contents.len());
            return Err(
                Status::invalid_argument(
                    cat7(
                        "model '",
                        model_name,
                        "' declares no input tensor but the request carries ",
                        inputs_text.as_str(),
                        " input(s) and ",
                        raw_text.as_str(),
                        " raw buffer(s)",
                    ),
                ),
            );
        }
        let none: Vec<Tensor> = Vec::new();
        assert(tensor::tensor_views(none@) =~= Seq::empty());
        return Ok((none, None));
    }
    if request.raw_input_contents.len() > 0 && request.raw_input_contents.len()
        != request.inputs.len() {
        return Err(
            Status::invalid_argument(
                "raw_input_contents length must equal the number of input tensors".to_string(),
            ),
        );
    }
    let repeated: usize = find_repeated(&request.inputs);
    if repeated < request.inputs.len() {
        return Err(
            Status::invalid_argument(
                cat5(
                    "duplicate input tensor name '",
                    request.inputs[repeated].name.as_str(),
                    "' in request for model '",
                    model_name,
                    "'",
                ),
            ),
        );
    }
    let unknown: usize = find_unknown(&request.inputs, &contract.inputs);
    if unknown < request.inputs.len() {
        return Err(
            Status::invalid_argument(
                cat5(
                    "model '",
                    model_name,
                    "' has no input '",
                    request.inputs[unknown].name.as_str(),
                    "'",
                ),
            ),
        );
    }
    let mut tensors: Vec<Tensor> = Vec::new();
    let mut batch: Option<i64> = None;
    let mut i: usize = 0;
    assert(tensor::tensor_views(tensors@) =~= Seq::empty());
    while i < contract.inputs.len()
        invariant
            i <= contract.inputs@.len(),
            request.raw_input_contents@.len() > 0 ==> request.raw_input_contents@.len()
                == request.inputs@.len(),
            bound_inputs(contract@, request@, model_name@, i as nat) == Ok::<
                (Seq<TensorView>, Option<i64>),
                StatusView,
            >((tensor::tensor_views(tensors@), batch)),
            spec_build_inputs(contract@, request@, model_name@) == bound_inputs(
                contract@,
                request@,
                model_name@,
                contract@.inputs.len(),
            ),
        decreases contract.inputs@.len() - i,
    {
        let ghost count = contract@.inputs.len();
        let spec = &contract.inputs[i];
        assert(contract@.inputs[i as int] == spec@);
        match bind_input(contract, spec, request, model_name) {
            Err(e) => {
                proof {
                    lemma_bound_inputs_fault(
                        contract@,
                        request@,
                        model_name@,
                        (i + 1) as nat,
                        count,
                    );
                }
                return Err(e);
            },
            Ok(tensor) => {
                let own = contract.expected_batch(tensor.shape.as_slice());
                if batch.is_some() && own != batch {
                    proof {
                        lemma_bound_inputs_fault(
                            contract@,
                            request@,
                            model_name@,
                            (i + 1) as nat,
                            count,
                        );
                    }
                    return Err(
                        Status::invalid_argument(
                            "inconsistent batch sizes across input tensors".to_string(),
                        ),
                    );
                }
                batch = own;
                let ghost before = tensors@;
                tensors.push(tensor);
                assert(tensor::tensor_views(tensors@) =~= tensor::tensor_views(before).push(
                    tensor@,
                ));
            },
        }
        i = i + 1;
    }
    Ok((tensors, batch))
}

/// One output of an inference response.
#[derive(Debug)]
pub struct InferOutputTensor {
    pub name: String,
    pub datatype: String,
    pub shape: Vec<i64>,
}

/// An [`InferOutputTensor`] as contracts see it.
#[verifier::ext_equal]
pub struct OutputView {
    pub name: Seq<char>,
    pub datatype: Seq<char>,
    pub shape: Seq<i64>,
}

impl View for InferOutputTensor {
    type V = OutputView;

    open spec fn view(&self) -> OutputView {
        OutputView { name: self.name@, datatype: self.datatype@, shape: self.shape@ }
    }
}

/// What a list of outputs holds.
pub open spec fn output_views(outputs: Seq<InferOutputTensor>) -> Seq<OutputView> {
    Seq::new(outputs.len(), |i: int| outputs[i]@)
}

/// An inference response. The raw buffers pair with `outputs` by position.
#[derive(Debug)]
pub struct ModelInferResponse {
    pub model_name: String,
    pub model_version: String,
    pub id: String,
    pub outputs: Vec<InferOutputTensor>,
    pub raw_output_contents: Vec<Vec<u8>>,
}

/// A [`ModelInferResponse`] as contracts see it.
#[verifier::ext_equal]
pub struct ResponseView {
    pub model_name: Seq<char>,
    pub model_version: Seq<char>,
    pub id: Seq<char>,
    pub outputs: Seq<OutputView>,
    pub raw_output_contents: Seq<Seq<u8>>,
}

impl View for ModelInferResponse {
    type V = ResponseView;

    open spec fn view(&self) -> ResponseView {
        ResponseView {
            model_name: self.model_name@,
            model_version: self.model_version@,
            id: self.id@,
            outputs: output_views(self.outputs@),
            raw_output_contents: tensor::buffers(self.raw_output_contents@),
        }
    }
}

/// The refusal of a requested output that is not the one output there is.
pub open spec fn not_the_output(name: Seq<char>, model: Seq<char>) -> StatusView {
    (
        Code::InvalidArgument,
        "model '"@ + model + "' has no output '"@ + name + "'; its only output is '"@ + "output"@
            + "'"@,
    )
}

/// The refusal of a requested output that the model does not declare.
pub open spec fn unknown_output(name: Seq<char>, model: Seq<char>) -> StatusView {
    (Code::InvalidArgument, "model '"@ + model + "' has no output '"@ + name + "'"@)
}

/// The complaint about a single-tensor model with another number of outputs.
pub open spec fn not_single(count: nat, model: Seq<char>) -> StatusView {
    (
        Code::Internal,
        "single-tensor model '"@ + model + "' returned "@ + number::decimal(count as int)
            + " outputs, expected 1"@,
    )
}

/// The complaint about an output of a datatype without a KServe name.
pub open spec fn unsupported_output(dtype: Seq<char>, model: Seq<char>) -> StatusView {
    (
        Code::Internal,
        "model '"@ + model + "' returned unsupported output dtype '"@ + dtype + "'"@,
    )
}

/// The complaint about a number of outputs that is not the declared one.
pub open spec fn wrong_output_count(got: nat, declared: nat, model: Seq<char>) -> StatusView {
    (
        Code::Internal,
        "model '"@ + model + "' returned "@ + number::decimal(got as int)
            + " output tensors but its contract declares "@ + number::decimal(declared as int),
    )
}

/// The complaint about a named output of a datatype without a KServe name.
pub open spec fn unsupported_named_output(
    name: Seq<char>,
    dtype: Seq<char>,
    model: Seq<char>,
) -> StatusView {
    (
        Code::Internal,
        "model '"@ + model + "' output '"@ + name + "' has unsupported dtype '"@ + dtype + "'"@,
    )
}

/// The complaint about a named output of another datatype than declared.
pub open spec fn wrong_output_datatype(
    name: Seq<char>,
    got: Seq<char>,
    declared: Seq<char>,
    model: Seq<char>,
) -> StatusView {
    (
        Code::Internal,
        "model '"@ + model + "' output '"@ + name + "' returned dtype "@ + got
            + " but the contract declares "@ + declared,
    )
}

/// The response of a single-tensor model to a request: its one output, named
/// `output`, in the datatype that the model produced.
pub open spec fn spec_single_response(
    contract: ContractView,
    request: RequestView,
    model: Seq<char>,
    outputs: Seq<TensorView>,
    expected_batch: Option<i64>,
) -> Result<ResponseView, StatusView> {
    let only = seq!["output"@];
    let other = names::first_unknown(request.outputs, only, 0);
    if other < request.outputs.len() {
        Err(not_the_output(request.outputs[other], model))
    } else if outputs.len() != 1 {
        Err(not_single(outputs.len(), model))
    } else {
        let out = outputs[0];
        let verdict = if contract.outputs.len() > 0 {
            contract::spec_output_shape(
                contract.outputs[0].dims,
                contract.max_batch_size,
                out.shape,
                expected_batch,
                model,
            )
        } else {
            Ok(())
        };
        match verdict {
            Err(e) => Err(e),
            Ok(_) => match dtype::spec_canonical_to_kserve(out.dtype) {
                None => Err(unsupported_output(out.dtype, model)),
                Some((datatype, _)) => Ok(
                    ResponseView {
                        model_name: model,
                        model_version: MODEL_VERSION@,
                        id: request.id,
                        outputs: seq![
                            OutputView { name: "output"@, datatype, shape: out.shape },
                        ],
                        raw_output_contents: seq![out.data],
                    },
                ),
            },
        }
    }
}

/// Whether the client asks for the output `name`: by naming it, or by naming
/// none.
pub open spec fn wanted(requested: Seq<Seq<char>>, name: Seq<char>) -> bool {
    requested.len() == 0 || names::position(requested, name) < requested.len()
}

/// The outputs and buffers of a response made from the first `count` declared
/// outputs, in the declared order and without those that the client does not
/// ask for; or the complaint about the first bad one.
pub open spec fn multi_outputs(
    declared: Seq<TensorSpecView>,
    requested: Seq<Seq<char>>,
    model: Seq<char>,
    outputs: Seq<TensorView>,
    count: nat,
) -> Result<(Seq<OutputView>, Seq<Seq<u8>>), StatusView>
    decreases count,
{
    if count == 0 {
        Ok((Seq::empty(), Seq::empty()))
    } else {
        let spec = declared[count - 1];
        let out = outputs[count - 1];
        match multi_outputs(declared, requested, model, outputs, (count - 1) as nat) {
            Err(e) => Err(e),
            Ok((heads, raw)) => if !wanted(requested, spec.name) {
                Ok((heads, raw))
            } else {
                match dtype::spec_canonical_to_kserve(out.dtype) {
                    None => Err(unsupported_named_output(spec.name, out.dtype, model)),
                    Some((datatype, _)) => if datatype != spec.dtype {
                        Err(wrong_output_datatype(spec.name, datatype, spec.dtype, model))
                    } else {
                        Ok(
                            (
                                heads.push(
                                    OutputView { name: spec.name, datatype, shape: out.shape },
                                ),
                                raw.push(out.data),
                            ),
                        )
                    },
                }
            },
        }
    }
}

/// The response of a model with named outputs to a request.
pub open spec fn spec_multi_response(
    contract: ContractView,
    request: RequestView,
    model: Seq<char>,
    outputs: Seq<TensorView>,
) -> Result<ResponseView, StatusView> {
    let declared = spec_names(contract.outputs);
    let other = names::first_unknown(request.outputs, declared, 0);
    if outputs.len() != contract.outputs.len() {
        Err(wrong_output_count(outputs.len(), contract.outputs.len(), model))
    } else if other < request.outputs.len() {
        Err(unknown_output(request.outputs[other], model))
    } else {
        match multi_outputs(
            contract.outputs,
            request.outputs,
            model,
            outputs,
            contract.outputs.len(),
        ) {
            Err(e) => Err(e),
            Ok((heads, raw)) => Ok(
                ResponseView {
                    model_name: model,
                    model_version: MODEL_VERSION@,
                    id: request.id,
                    outputs: heads,
                    raw_output_contents: raw,
                },
            ),
        }
    }
}

/// The response to a request from the outputs of the model.
pub open spec fn spec_response(
    contract: ContractView,
    request: RequestView,
    model: Seq<char>,
    outputs: Seq<TensorView>,
    expected_batch: Option<i64>,
) -> Result<ResponseView, StatusView> {
    if contract.strict_output_dtype {
        spec_multi_response(contract, request, model, outputs)
    } else {
        spec_single_response(contract, request, model, outputs, expected_batch)
    }
}

fn find_not_output(requested: &Vec<String>) -> (r: usize)
    ensures
        r == names::first_unknown(text::texts(requested@), seq!["output"@], 0),
        r <= requested@.len(),
{
    let ghost names = text::texts(requested@);
    let ghost only = seq!["output"@];
    let mut i: usize = 0;
    while i < requested.len()
        invariant
            i <= requested@.len(),
            names == text::texts(requested@),
            only == seq!["output"@],
            names::first_unknown(names, only, 0) == names::first_unknown(names, only, i as int),
        decreases requested@.len() - i,
    {
        assert(names[i as int] == requested@[i as int]@);
        proof {
            names::lemma_position(only, names[i as int]);
        }
        if !same(requested[i].as_str(), "output") {
            return i;
        }
        i = i + 1;
    }
    i
}

fn find_undeclared(requested: &Vec<String>, specs: &Vec<TensorSpec>) -> (r: usize)
    ensures
        r == names::first_unknown(
            text::texts(requested@),
            spec_names(contract::spec_views(specs@)),
            0,
        ),
        r <= requested@.len(),
{
    let ghost names = text::texts(requested@);
    let ghost known = spec_names(contract::spec_views(specs@));
    let mut i: usize = 0;
    while i < requested.len()
        invariant
            i <= requested@.len(),
            names == text::texts(requested@),
            known == spec_names(contract::spec_views(specs@)),
            names::first_unknown(names, known, 0) == names::first_unknown(names, known, i as int),
        decreases requested@.len() - i,
    {
        assert(names[i as int] == requested@[i as int]@);
        if find_spec(specs, requested[i].as_str()) == specs.len() {
            return i;
        }
        i = i + 1;
    }
    i
}

/// Makes the response of a single-tensor model.
pub fn serialize_single(
    contract: &Contract,
    request: &ModelInferRequest,
    model_name: &str,
    outputs: Vec<Tensor>,
    expected_batch: Option<i64>,
) -> (r: Result<ModelInferResponse, Status>)
    ensures
        match r {
            Ok(response) => spec_single_response(
                contract@,
                request@,
                model_name@,
                tensor::tensor_views(outputs@),
                expected_batch,
            ) == Ok::<ResponseView, StatusView>(response@),
            Err(e) => spec_single_response(
                contract@,
                request@,
                model_name@,
                tensor::tensor_views(outputs@),
                expected_batch,
            ) == Err::<ResponseView, StatusView>(e@),
        },
{
    let other: usize = find_not_output(&request.outputs);
    if other < request.outputs.len() {
        return Err(
            Status::invalid_argument(
                cat7(
                    "model '",
                    model_name,
                    "' has no output '",
                    request.outputs[other].as_str(),
                    "'; its only output is '",
                    "output",
                    "'",
                ),
            ),
        );
    }
    if outputs.len() != 1 {
        let count = decimal_usize(outputs.len());
        return Err(
            Status::internal(
                cat5(
                    "single-tensor model '",
                    model_name,
                    "' returned ",
                    count.as_str(),
                    " outputs, expected 1",
                ),
            ),
        );
    }
    let ghost all = tensor::tensor_views(outputs@);
    let mut outputs = outputs;
    let out = outputs.remove(0);
    assert(all[0] == out@);
    if contract.outputs.len() > 0 {
        match contract.validate_output_shape(
            &contract.outputs[0],
            out.shape.as_slice(),
            expected_batch,
            model_name,
        ) {
            Err(e) => {
                return Err(e);
            },
            Ok(_) => {},
        }
    }
    match canonical_to_kserve(out.dtype.as_str()) {
        None => Err(
            Status::internal(
                cat5(
                    "model '",
                    model_name,
                    "' returned unsupported output dtype '",
                    out.dtype.as_str(),
                    "'",
                ),
            ),
        ),
        Some((datatype, _)) => {
            let mut heads: Vec<InferOutputTensor> = Vec::new();
            let mut raw: Vec<Vec<u8>> = Vec::new();
            heads.push(
                InferOutputTensor {
                    name: "output".to_string(),
                    datatype: datatype.to_string(),
                    shape: out.shape,
                },
            );
            raw.push(out.data);
            assert(output_views(heads@) =~= seq![
                OutputView { name: "output"@, datatype: datatype@, shape: out.shape@ },
            ]);
            assert(tensor::buffers(raw@) =~= seq![out.data@]);
            Ok(
                ModelInferResponse {
                    model_name: model_name.to_string(),
                    model_version: MODEL_VERSION.to_string(),
                    id: request.id.clone(),
                    outputs: heads,
                    raw_output_contents: raw,
                },
            )
        },
    }
}

proof fn lemma_multi_outputs_fault(
    declared: Seq<TensorSpecView>,
    requested: Seq<Seq<char>>,
    model: Seq<char>,
    outputs: Seq<TensorView>,
    k: nat,
    count: nat,
)
    requires
        k <= count,
        multi_outputs(declared, requested, model, outputs, k) is Err,
    ensures
        multi_outputs(declared, requested, model, outputs, count) == multi_outputs(
            declared,
            requested,
            model,
            outputs,
            k,
        ),
    decreases count,
{
    if k < count {
        lemma_multi_outputs_fault(declared, requested, model, outputs, k, (count - 1) as nat);
    }
}

/// Checks the datatype of one named output and gives its KServe name.
fn named_output_datatype(spec: &TensorSpec, out: &Tensor, model_name: &str) -> (r: Result<
    &'static str,
    Status,
>)
    ensures
        match dtype::spec_canonical_to_kserve(out@.dtype) {
            None => r matches Err(e) && e@ == unsupported_named_output(
                spec@.name,
                out@.dtype,
                model_name@,
            ),
            Some((datatype, _)) => if datatype != spec@.dtype {
                r matches Err(e) && e@ == wrong_output_datatype(
                    spec@.name,
                    datatype,
                    spec@.dtype,
                    model_name@,
                )
            } else {
                r matches Ok(d) && d@ == datatype
            },
        },
{
    let name = spec.name.as_str();
    match canonical_to_kserve(out.dtype.as_str()) {
        None => Err(
            Status::internal(
                cat7(
                    "model '",
                    model_name,
                    "' output '",
                    name,
                    "' has unsupported dtype '",
                    out.dtype.as_str(),
                    "'",
                ),
            ),
        ),
        Some((datatype, _)) => {
            if !same(datatype, spec.dtype.as_str()) {
                return Err(
                    Status::internal(
                        cat8(
                            "model '",
                            model_name,
                            "' output '",
                            name,
                            "' returned dtype ",
                            datatype,
                            " but the contract declares ",
                            spec.dtype.as_str(),
                        ),
                    ),
                );
            }
            Ok(datatype)
        },
    }
}

/// Makes the response of a model with named outputs.
pub fn serialize_multi(
    contract: &Contract,
    request: &ModelInferRequest,
    model_name: &str,
    outputs: Vec<Tensor>,
) -> (r: Result<ModelInferResponse, Status>)
    ensures
        match r {
            Ok(response) => spec_multi_response(
                contract@,
                request@,
                model_name@,
                tensor::tensor_views(outputs@),
            ) == Ok::<ResponseView, StatusView>(response@),
            Err(e) => spec_multi_response(
                contract@,
                request@,
                model_name@,
                tensor::tensor_views(outputs@),
            ) == Err::<ResponseView, StatusView>(e@),
        },
{
    if outputs.len() != contract.outputs.len() {
        let got = decimal_usize(outputs.len());
        let declared = decimal_usize(contract.outputs.len());
        return Err(
            Status::internal(
                cat6(
                    "model '",
                    model_name,
                    "' returned ",
                    got.as_str(),
                    " output tensors but its contract declares ",
                    declared.as_str(),
                ),
            ),
        );
    }
    let other: usize = find_undeclared(&request.outputs, &contract.outputs);
    if other < request.outputs.len() {
        return Err(
            Status::invalid_argument(
                cat5(
                    "model '",
                    model_name,
                    "' has no output '",
                    request.outputs[other].as_str(),
                    "'",
                ),
            ),
        );
    }
    let ghost all = tensor::tensor_views(outputs@);
    let ghost declared = contract@.outputs;
    let ghost requested = request@.outputs;
    let mut heads: Vec<InferOutputTensor> = Vec::new();
    let mut raw: Vec<Vec<u8>> = Vec::new();
    let mut i: usize = 0;
    assert(output_views(heads@) =~= Seq::empty());
    assert(tensor::buffers(raw@) =~= Seq::empty());
    while i < contract.outputs.len()
        invariant
            i <= contract.outputs@.len(),
            outputs@.len() == contract.outputs@.len(),
            all == tensor::tensor_views(outputs@),
            declared == contract@.outputs,
            requested == request@.outputs,
            spec_multi_response(contract@, request@, model_name@, all) == match multi_outputs(
                declared,
                requested,
                model_name@,
                all,
                declared.len(),
            ) {
                Err(e) => Err(e),
                Ok((h, b)) => Ok(
                    ResponseView {
                        model_name: model_name@,
                        model_version: MODEL_VERSION@,
                        id: request@.id,
                        outputs: h,
                        raw_output_contents: b,
                    },
                ),
            },
            multi_outputs(declared, requested, model_name@, all, i as nat) == Ok::<
                (Seq<OutputView>, Seq<Seq<u8>>),
                StatusView,
            >((output_views(heads@), tensor::buffers(raw@))),
        decreases contract.outputs@.len() - i,
    {
        let spec = &contract.outputs[i];
        let out = &outputs[i];
        assert(declared[i as int] == spec@);
        assert(all[i as int] == out@);
        let ask = request.outputs.len() == 0 || find_name(&request.outputs, spec.name.as_str())
            < request.outputs.len();
        if ask {
            match named_output_datatype(spec, out, model_name) {
                Err(e) => {
                    proof {
                        lemma_multi_outputs_fault(
                            declared,
                            requested,
                            model_name@,
                            all,
                            (i + 1) as nat,
                            declared.len(),
                        );
                    }
                    return Err(e);
                },
                Ok(datatype) => {
                    let head = InferOutputTensor {
                        name: spec.name.clone(),
                        datatype: datatype.to_string(),
                        shape: copy_dims(out.shape.as_slice()),
                    };
                    let bytes = copy_bytes(out.data.as_slice());
                    proof {
                        assert(output_views(heads@.push(head)) =~= output_views(heads@).push(
                            head@,
                        ));
                        assert(tensor::buffers(raw@.push(bytes)) =~= tensor::buffers(raw@).push(
                            bytes@,
                        ));
                    }
                    heads.push(head);
                    raw.push(bytes);
                },
            }
        }
        i = i + 1;
    }
    Ok(
        ModelInferResponse {
            model_name: model_name.to_string(),
            model_version: MODEL_VERSION.to_string(),
            id: request.id.clone(),
            outputs: heads,
            raw_output_contents: raw,
        },
    )
}

/// Makes the response to a request from the outputs of the model.
pub fn serialize_response(
    contract: &Contract,
    request: &ModelInferRequest,
    model_name: &str,
    outputs: Vec<Tensor>,
    expected_batch: Option<i64>,
) -> (r: Result<ModelInferResponse, Status>)
    ensures
        match r {
            Ok(response) => spec_response(
                contract@,
                request@,
                model_name@,
                tensor::tensor_views(outputs@),
                expected_batch,
            ) == Ok::<ResponseView, StatusView>(response@),
            Err(e) => spec_response(
                contract@,
                request@,
                model_name@,
                tensor::tensor_views(outputs@),
                expected_batch,
            ) == Err::<ResponseView, StatusView>(e@),
        },
{
    if contract.strict_output_dtype {
        serialize_multi(contract, request, model_name, outputs)
    } else {
        serialize_single(contract, request, model_name, outputs, expected_batch)
    }
}

/// Whether a requested model version can be served: the one there is, or none
/// named.
pub open spec fn version_served(version: Seq<char>) -> bool {
    version.len() == 0 || version == MODEL_VERSION@
}

/// Decides [`version_served`].
pub fn version_available(model_version: &str) -> (r: bool)
    ensures
        r == version_served(model_version@),
{
    model_version.is_empty() || same(model_version, MODEL_VERSION)
}

/// What the server says of one tensor of a model.
#[derive(Debug)]
pub struct TensorMetadata {
    pub name: String,
    pub datatype: String,
    pub shape: Vec<i64>,
}

impl View for TensorMetadata {
    type V = OutputView;

    open spec fn view(&self) -> OutputView {
        OutputView { name: self.name@, datatype: self.datatype@, shape: self.shape@ }
    }
}

/// What a list of tensor descriptions holds.
pub open spec fn metadata_views(list: Seq<TensorMetadata>) -> Seq<OutputView> {
    Seq::new(list.len(), |i: int| list[i]@)
}

/// The description of a declared tensor.
pub open spec fn described(contract: ContractView, spec: TensorSpecView) -> OutputView {
    OutputView {
        name: spec.name,
        datatype: spec.dtype,
        shape: contract.advertised(spec.dims),
    }
}

/// The description of all declared tensors of a list.
pub open spec fn described_all(contract: ContractView, specs: Seq<TensorSpecView>) -> Seq<
    OutputView,
> {
    Seq::new(specs.len(), |i: int| described(contract, specs[i]))
}

/// Describes a declared tensor.
pub fn tensor_metadata(contract: &Contract, spec: &TensorSpec) -> (r: TensorMetadata)
    ensures
        r@ == described(contract@, spec@),
{
    TensorMetadata {
        name: spec.name.clone(),
        datatype: spec.dtype.clone(),
        shape: contract.metadata_shape(spec),
    }
}

fn describe_all(contract: &Contract, specs: &Vec<TensorSpec>) -> (r: Vec<TensorMetadata>)
    ensures
        metadata_views(r@) == described_all(contract@, contract::spec_views(specs@)),
{
    let mut out: Vec<TensorMetadata> = Vec::new();
    let mut i: usize = 0;
    while i < specs.len()
        invariant
            i <= specs@.len(),
            out@.len() == i,
            forall|k: int| 0 <= k < i ==> (#[trigger] out@[k])@ == described(contract@, specs@[k]@),
        decreases specs@.len() - i,
    {
        out.push(tensor_metadata(contract, &specs[i]));
        i = i + 1;
    }
    assert(metadata_views(out@) =~= described_all(contract@, contract::spec_views(specs@)));
    out
}

/// What the server says of a model.
#[derive(Debug)]
pub struct ModelMetadata {
    pub name: String,
    pub versions: Vec<String>,
    pub platform: String,
    pub inputs: Vec<TensorMetadata>,
    pub outputs: Vec<TensorMetadata>,
}

/// A [`ModelMetadata`] as contracts see it.
#[verifier::ext_equal]
pub struct ModelMetadataView {
    pub name: Seq<char>,
    pub versions: Seq<Seq<char>>,
    pub platform: Seq<char>,
    pub inputs: Seq<OutputView>,
    pub outputs: Seq<OutputView>,
}

impl View for ModelMetadata {
    type V = ModelMetadataView;

    open spec fn view(&self) -> ModelMetadataView {
        ModelMetadataView {
            name: self.name@,
            versions: text::texts(self.versions@),
            platform: self.platform@,
            inputs: metadata_views(self.inputs@),
            outputs: metadata_views(self.outputs@),
        }
    }
}

/// The datatype that a single-tensor model is described with: that of its input,
/// else of its output, else `FP32`.
pub open spec fn flat_datatype(contract: ContractView) -> Seq<char> {
    if contract.inputs.len() > 0 {
        contract.inputs[0].dtype
    } else if contract.outputs.len() > 0 {
        contract.outputs[0].dtype
    } else {
        "FP32"@
    }
}

/// The described inputs of a model: all of them in the block form; in the flat
/// form the one named `input`, if the model has an input.
pub open spec fn metadata_inputs(contract: ContractView) -> Seq<OutputView> {
    if contract.strict_output_dtype {
        described_all(contract, contract.inputs)
    } else if contract.inputs.len() > 0 {
        seq![
            OutputView {
                name: "input"@,
                datatype: flat_datatype(contract),
                shape: contract.advertised(contract.inputs[0].dims),
            },
        ]
    } else {
        Seq::empty()
    }
}

/// The described outputs of a model: all of them in the block form; in the flat
/// form the one named `output`, of shape `[-1]` where none is declared.
pub open spec fn metadata_outputs(contract: ContractView) -> Seq<OutputView> {
    if contract.strict_output_dtype {
        described_all(contract, contract.outputs)
    } else {
        seq![
            OutputView {
                name: "output"@,
                datatype: flat_datatype(contract),
                shape: if contract.outputs.len() > 0 {
                    contract.advertised(contract.outputs[0].dims)
                } else {
                    seq![-1i64]
                },
            },
        ]
    }
}

/// The description of a model with the given contract.
pub open spec fn spec_metadata(
    name: Seq<char>,
    platform: Seq<char>,
    contract: ContractView,
) -> ModelMetadataView {
    ModelMetadataView {
        name,
        versions: seq![MODEL_VERSION@],
        platform,
        inputs: metadata_inputs(contract),
        outputs: metadata_outputs(contract),
    }
}

/// Describes a model.
pub fn describe_model(name: &str, platform: &str, contract: &Contract) -> (r: ModelMetadata)
    ensures
        r@ == spec_metadata(name@, platform@, contract@),
{
    let mut versions: Vec<String> = Vec::new();
    versions.push(MODEL_VERSION.to_string());
    assert(text::texts(versions@) =~= seq![MODEL_VERSION@]);
    if contract.strict_output_dtype {
        return ModelMetadata {
            name: name.to_string(),
            versions,
            platform: platform.to_string(),
            inputs: describe_all(contract, &contract.inputs),
            outputs: describe_all(contract, &contract.outputs),
        };
    }
    let datatype = if contract.inputs.len() > 0 {
        contract.inputs[0].dtype.clone()
    } else if contract.outputs.len() > 0 {
        contract.outputs[0].dtype.clone()
    } else {
        "FP32".to_string()
    };
    let mut inputs: Vec<TensorMetadata> = Vec::new();
    if contract.inputs.len() > 0 {
        inputs.push(
            TensorMetadata {
                name: "input".to_string(),
                datatype: datatype.clone(),
                shape: contract.metadata_shape(&contract.inputs[0]),
            },
        );
    }
    let mut unknown_shape: Vec<i64> = Vec::new();
    unknown_shape.push(-1);
    assert(unknown_shape@ =~= seq![-1i64]);
    let output_shape = if contract.outputs.len() > 0 {
        contract.metadata_shape(&contract.outputs[0])
    } else {
        unknown_shape
    };
    let mut outputs: Vec<TensorMetadata> = Vec::new();
    outputs.push(
        TensorMetadata { name: "output".to_string(), datatype, shape: output_shape },
    );
    assert(metadata_views(inputs@) =~= metadata_inputs(contract@));
    assert(metadata_views(outputs@) =~= metadata_outputs(contract@));
    ModelMetadata {
        name: name.to_string(),
        versions,
        platform: platform.to_string(),
        inputs,
        outputs,
    }
}

pub proof fn lemma_bound_prefix(
    contract: ContractView,
    request: RequestView,
    model: Seq<char>,
    count: nat,
)
    requires
        count <= contract.inputs.len(),
    ensures
        bound_inputs(contract, request, model, count) matches Ok((tensors, batch)) ==> {
            &&& tensors.len() == count
            &&& forall|i: int|
                0 <= i < count ==> bound_input(contract, contract.inputs[i], request, model) == Ok::<
                    TensorView,
                    StatusView,
                >(#[trigger] tensors[i])
            &&& forall|i: int|
                0 <= i < count ==> contract.batch_of((#[trigger] tensors[i]).shape) == batch
            &&& count == 0 ==> batch is None
        },
    decreases count,
{
    if count > 0 {
        lemma_bound_prefix(contract, request, model, (count - 1) as nat);
        if let Ok((before, _)) = bound_inputs(contract, request, model, (count - 1) as nat) {
            if count > 1 && contract.batched() {
                let t = before[0];
                assert(bound_input(contract, contract.inputs[0], request, model) == Ok::<
                    TensorView,
                    StatusView,
                >(t));
                lemma_bound_shape(contract, contract.inputs[0], request, model);
            }
        }
    }
}

proof fn lemma_bound_shape(
    contract: ContractView,
    spec: TensorSpecView,
    request: RequestView,
    model: Seq<char>,
)
    ensures
        bound_input(contract, spec, request, model) matches Ok(t) ==> {
            &&& t.shape.len() > 0
            &&& contract::full_shape(spec.dims, contract.max_batch_size, t.shape)
            &&& forall|i: int| 0 <= i < t.shape.len() ==> #[trigger] t.shape[i] > 0
        },
{
    let index = names::position(input_names(request.inputs), spec.name) as int;
    if 0 <= index < request.inputs.len() {
        let shape = request.inputs[index].shape;
        contract::law_accepted_shapes(spec.dims, contract.max_batch_size, shape, model);
    }
}

/// The tensors that an accepted request hands to a model are one per declared
/// input, in the declared order and under the declared names, whatever order
/// the request lists them in: each has the bytes that the request carries for
/// its name, the canonical datatype that belongs to the declared one, all
/// declared dimensions, and exactly as many bytes as its shape asks for (a
/// buffer is always shorter than the largest 64-bit number). All share one
/// batch size.
pub proof fn law_inputs_bound_by_name(
    contract: ContractView,
    request: RequestView,
    model: Seq<char>,
)
    requires
        spec_build_inputs(contract, request, model) is Ok,
    ensures
        ({
            let (tensors, batch) = spec_build_inputs(contract, request, model)->Ok_0;
            &&& tensors.len() == contract.inputs.len()
            &&& forall|i: int|
                0 <= i < tensors.len() ==> {
                    let spec = contract.inputs[i];
                    let from = names::position(input_names(request.inputs), spec.name) as int;
                    let t = #[trigger] tensors[i];
                    &&& t.name == spec.name
                    &&& from < request.inputs.len()
                    &&& request.inputs[from].name == spec.name
                    &&& input_bytes(request, from, spec) == Ok::<Seq<u8>, StatusView>(t.data)
                    &&& contract::full_shape(spec.dims, contract.max_batch_size, t.shape)
                    &&& dtype::spec_fixed_width(spec.dtype) matches Some((width, canonical))
                        && t.dtype == canonical && (t.data.len() < u64::MAX ==> t.data.len()
                        == tensor::product(t.shape) * width)
                    &&& contract.batch_of(t.shape) == batch
                }
        }),
{
    if contract.inputs.len() > 0 {
        lemma_bound_prefix(contract, request, model, contract.inputs.len());
        let (tensors, batch) = spec_build_inputs(contract, request, model)->Ok_0;
        assert forall|i: int| 0 <= i < tensors.len() implies {
            let spec = contract.inputs[i];
            let from = names::position(input_names(request.inputs), spec.name) as int;
            let t = #[trigger] tensors[i];
            &&& t.name == spec.name
            &&& from < request.inputs.len()
            &&& request.inputs[from].name == spec.name
            &&& input_bytes(request, from, spec) == Ok::<Seq<u8>, StatusView>(t.data)
            &&& contract::full_shape(spec.dims, contract.max_batch_size, t.shape)
            &&& dtype::spec_fixed_width(spec.dtype) matches Some((width, canonical)) && t.dtype
                == canonical && (t.data.len() < u64::MAX ==> t.data.len() == tensor::product(
                t.shape,
            ) * width)
            &&& contract.batch_of(t.shape) == batch
        } by {
            let spec = contract.inputs[i];
            let t = tensors[i];
            names::lemma_position(input_names(request.inputs), spec.name);
            lemma_bound_shape(contract, spec, request, model);
            tensor::law_element_count(t.shape);
        }
    }
}

/// The places, among the first `count` declared outputs, of those that the
/// client asks for.
pub open spec fn chosen(
    declared: Seq<TensorSpecView>,
    requested: Seq<Seq<char>>,
    count: nat,
) -> Seq<int>
    decreases count,
{
    if count == 0 {
        Seq::empty()
    } else {
        let before = chosen(declared, requested, (count - 1) as nat);
        if wanted(requested, declared[count - 1].name) {
            before.push(count - 1)
        } else {
            before
        }
    }
}

/// What a response takes from each of the chosen places.
pub proof fn lemma_chosen_outputs(
    declared: Seq<TensorSpecView>,
    requested: Seq<Seq<char>>,
    model: Seq<char>,
    outputs: Seq<TensorView>,
    count: nat,
)
    requires
        count <= declared.len(),
    ensures
        multi_outputs(declared, requested, model, outputs, count) matches Ok((heads, raw)) ==> {
            let places = chosen(declared, requested, count);
            &&& heads.len() == places.len()
            &&& raw.len() == places.len()
            &&& forall|j: int|
                0 <= j < places.len() ==> {
                    &&& 0 <= #[trigger] places[j] < declared.len()
                    &&& heads[j].name == declared[places[j]].name
                    &&& heads[j].datatype == declared[places[j]].dtype
                    &&& heads[j].shape == outputs[places[j]].shape
                    &&& raw[j] == outputs[places[j]].data
                }
        },
    decreases count,
{
    if count > 0 {
        lemma_chosen_outputs(declared, requested, model, outputs, (count - 1) as nat);
    }
}

/// A response of a model with named outputs holds the outputs that the client
/// asks for and no others, in the declared order, each with its declared name
/// and datatype and with the shape and bytes that the model produced.
pub proof fn law_response_holds_requested_outputs(
    contract: ContractView,
    request: RequestView,
    model: Seq<char>,
    outputs: Seq<TensorView>,
)
    requires
        spec_multi_response(contract, request, model, outputs) is Ok,
    ensures
        ({
            let response = spec_multi_response(contract, request, model, outputs)->Ok_0;
            let places = chosen(contract.outputs, request.outputs, contract.outputs.len());
            &&& response.outputs.len() == places.len()
            &&& response.raw_output_contents.len() == places.len()
            &&& forall|j: int|
                0 <= j < places.len() ==> {
                    &&& 0 <= #[trigger] places[j] < contract.outputs.len()
                    &&& response.outputs[j].name == contract.outputs[places[j]].name
                    &&& response.outputs[j].datatype == contract.outputs[places[j]].dtype
                    &&& response.outputs[j].shape == outputs[places[j]].shape
                    &&& response.raw_output_contents[j] == outputs[places[j]].data
                }
        }),
{
    lemma_chosen_outputs(
        contract.outputs,
        request.outputs,
        model,
        outputs,
        contract.outputs.len(),
    );
}

/// A response names the model it was asked of, the one version there is, and the
/// identifier of its request.
pub proof fn law_response_answers_request(
    contract: ContractView,
    request: RequestView,
    model: Seq<char>,
    outputs: Seq<TensorView>,
    expected_batch: Option<i64>,
)
    ensures
        spec_response(contract, request, model, outputs, expected_batch) matches Ok(response) ==> {
            &&& response.model_name == model
            &&& response.model_version == MODEL_VERSION@
            &&& response.id == request.id
            &&& response.outputs.len() == response.raw_output_contents.len()
        },
{
    lemma_chosen_outputs(
        contract.outputs,
        request.outputs,
        model,
        outputs,
        contract.outputs.len(),
    );
}

} // verus!
