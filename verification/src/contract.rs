//! A model's declared tensor contract and the checks of request and response
//! shapes against it.
//!
//! A single-tensor model has one input named `"input"` and one output named
//! `"output"`; an output-only model has no inputs. The checks are the same for
//! every backend.

use vstd::prelude::*;

use crate::number;
use crate::status;
use crate::number::{decimal_i64, decimal_u128, decimal_usize};
use crate::status::{Code, Status, StatusView};
use crate::text::{cat2, cat4, cat5, cat6, cat7, cat8};

verus! {

/// One named tensor of a contract. `dims` leaves out the batch dimension.
#[derive(Debug)]
pub struct TensorSpec {
    pub name: String,
    /// KServe datatype, such as `"FP32"`.
    pub dtype: String,
    pub dims: Vec<i64>,
}

/// A [`TensorSpec`] as contracts see it.
#[verifier::ext_equal]
pub struct TensorSpecView {
    pub name: Seq<char>,
    pub dtype: Seq<char>,
    pub dims: Seq<i64>,
}

impl View for TensorSpec {
    type V = TensorSpecView;

    open spec fn view(&self) -> TensorSpecView {
        TensorSpecView { name: self.name@, dtype: self.dtype@, dims: self.dims@ }
    }
}

impl Clone for TensorSpec {
    fn clone(&self) -> (r: Self)
        ensures
            r@ == self@,
    {
        let dims = self.dims.clone();
        assert(dims@ =~= self.dims@);
        TensorSpec { name: self.name.clone(), dtype: self.dtype.clone(), dims }
    }
}

/// What a list of tensor specs holds.
pub open spec fn spec_views(specs: Seq<TensorSpec>) -> Seq<TensorSpecView> {
    Seq::new(specs.len(), |i: int| specs[i]@)
}

/// A model's declared inputs and outputs and its largest batch.
#[derive(Debug)]
pub struct Contract {
    pub inputs: Vec<TensorSpec>,
    pub outputs: Vec<TensorSpec>,
    pub max_batch_size: i64,
    /// Whether the declared output datatypes are binding. They are for the form
    /// with named blocks, where each output declares its own; in the flat form
    /// the output datatype is whatever the model produces.
    pub strict_output_dtype: bool,
}

/// A [`Contract`] as contracts of functions see it.
#[verifier::ext_equal]
pub struct ContractView {
    pub inputs: Seq<TensorSpecView>,
    pub outputs: Seq<TensorSpecView>,
    pub max_batch_size: i64,
    pub strict_output_dtype: bool,
}

impl View for Contract {
    type V = ContractView;

    open spec fn view(&self) -> ContractView {
        ContractView {
            inputs: spec_views(self.inputs@),
            outputs: spec_views(self.outputs@),
            max_batch_size: self.max_batch_size,
            strict_output_dtype: self.strict_output_dtype,
        }
    }
}

/// Copies a list of tensor specs.
pub fn clone_specs(specs: &Vec<TensorSpec>) -> (r: Vec<TensorSpec>)
    ensures
        spec_views(r@) == spec_views(specs@),
{
    let mut out: Vec<TensorSpec> = Vec::new();
    let mut i: usize = 0;
    while i < specs.len()
        invariant
            i <= specs@.len(),
            out@.len() == i,
            forall|k: int| 0 <= k < i ==> out@[k]@ == specs@[k]@,
        decreases specs@.len() - i,
    {
        out.push(specs[i].clone());
        i = i + 1;
    }
    assert(spec_views(out@) =~= spec_views(specs@));
    out
}

impl Clone for Contract {
    fn clone(&self) -> (r: Self)
        ensures
            r@ == self@,
    {
        Contract {
            inputs: clone_specs(&self.inputs),
            outputs: clone_specs(&self.outputs),
            max_batch_size: self.max_batch_size,
            strict_output_dtype: self.strict_output_dtype,
        }
    }
}

/// Whether an actual dimension is one that the declared dimension allows: the
/// same, or any where `-1` is declared.
pub open spec fn dim_fits(declared: i64, actual: i64) -> bool {
    declared == -1 || declared == actual
}

/// The first declared dimension at or after `from` that the actual dimension,
/// `offset` places further on, does not fit; the number of declared dimensions
/// where all fit.
pub open spec fn first_misfit(declared: Seq<i64>, actual: Seq<i64>, offset: int, from: int) -> int
    decreases declared.len() - from,
{
    if from >= declared.len() {
        declared.len() as int
    } else if !dim_fits(declared[from], actual[from + offset]) {
        from
    } else {
        first_misfit(declared, actual, offset, from + 1)
    }
}

/// Computes [`first_misfit`] from the first dimension on.
fn find_misfit(declared: &[i64], actual: &[i64], offset: usize) -> (r: usize)
    requires
        offset <= 1,
        declared@.len() + offset <= actual@.len(),
    ensures
        r == first_misfit(declared@, actual@, offset as int, 0),
        r <= declared@.len(),
{
    let mut i: usize = 0;
    while i < declared.len()
        invariant
            i <= declared@.len(),
            offset <= 1,
            declared@.len() + offset <= actual@.len(),
            first_misfit(declared@, actual@, offset as int, 0) == first_misfit(
                declared@,
                actual@,
                offset as int,
                i as int,
            ),
        decreases declared@.len() - i,
    {
        if declared[i] != -1 && declared[i] != actual[i + offset] {
            return i;
        }
        i = i + 1;
    }
    i
}

/// The refusal of a request shape without dimensions.
pub open spec fn shape_required() -> StatusView {
    (Code::InvalidArgument, "tensor chunk shape is required"@)
}

/// The refusal of a dimension that is zero or negative.
pub open spec fn shape_not_positive() -> StatusView {
    (Code::InvalidArgument, "tensor chunk shape dimensions must be positive"@)
}

/// The refusal of a batch above the declared maximum.
pub open spec fn batch_too_large(batch: i64, max: i64, model: Seq<char>) -> StatusView {
    (
        Code::InvalidArgument,
        "batch size "@ + number::decimal(batch as int) + " exceeds max_batch_size "@ + number::decimal(max as int)
            + " for model '"@ + model + "'"@,
    )
}

/// The refusal of a request shape with the wrong number of dimensions.
pub open spec fn input_rank_mismatch(
    declared: nat,
    batched: bool,
    got: nat,
    model: Seq<char>,
) -> StatusView {
    let allowed = if batched {
        "expected "@ + number::decimal(declared as int + 1) + " (or "@ + number::decimal(declared as int)
            + " without the batch dimension)"@
    } else {
        "expected "@ + number::decimal(declared as int)
    };
    (
        Code::InvalidArgument,
        "input tensor rank mismatch for model '"@ + model + "': "@ + allowed + ", got "@ + number::decimal(
            got as int,
        ),
    )
}

/// The refusal of a request dimension that differs from the declared one.
pub open spec fn input_dim_mismatch(
    index: int,
    expected: i64,
    got: i64,
    model: Seq<char>,
) -> StatusView {
    (
        Code::InvalidArgument,
        "input tensor shape mismatch for model '"@ + model + "' at dimension "@ + number::decimal(index)
            + ": expected "@ + number::decimal(expected as int) + ", got "@ + number::decimal(got as int),
    )
}

/// The verdict on a request shape for an input declared as `dims`. A declared
/// batch dimension may be there or be left out.
pub open spec fn spec_request_shape(
    dims: Seq<i64>,
    max_batch_size: i64,
    shape: Seq<i64>,
    model: Seq<char>,
) -> Result<(), StatusView> {
    if shape.len() == 0 {
        Err(shape_required())
    } else if exists|i: int| 0 <= i < shape.len() && shape[i] <= 0 {
        Err(shape_not_positive())
    } else if max_batch_size > 0 && shape.len() == dims.len() + 1 {
        if shape[0] > max_batch_size {
            Err(batch_too_large(shape[0], max_batch_size, model))
        } else {
            spec_request_dims(dims, shape, 1, model)
        }
    } else if shape.len() == dims.len() {
        spec_request_dims(dims, shape, 0, model)
    } else {
        Err(input_rank_mismatch(dims.len(), max_batch_size > 0, shape.len(), model))
    }
}

/// The verdict on the request dimensions that follow the first `offset` ones.
pub open spec fn spec_request_dims(
    dims: Seq<i64>,
    shape: Seq<i64>,
    offset: int,
    model: Seq<char>,
) -> Result<(), StatusView> {
    let i = first_misfit(dims, shape, offset, 0);
    if i < dims.len() {
        Err(input_dim_mismatch(i + offset, dims[i], shape[i + offset], model))
    } else {
        Ok(())
    }
}

fn input_rank_status(declared: usize, batched: bool, got: usize, model: &str) -> (r: Status)
    ensures
        r@ == input_rank_mismatch(declared as nat, batched, got as nat, model@),
{
    let allowed = if batched {
        let with_batch = decimal_u128(declared as u128 + 1);
        let without = decimal_usize(declared);
        cat5(
            "expected ",
            with_batch.as_str(),
            " (or ",
            without.as_str(),
            " without the batch dimension)",
        )
    } else {
        let rank = decimal_usize(declared);
        cat2("expected ", rank.as_str())
    };
    let got_text = decimal_usize(got);
    Status::invalid_argument(
        cat6(
            "input tensor rank mismatch for model '",
            model,
            "': ",
            allowed.as_str(),
            ", got ",
            got_text.as_str(),
        ),
    )
}

fn check_request_dims(dims: &[i64], shape: &[i64], offset: usize, model: &str) -> (r: Result<
    (),
    Status,
>)
    requires
        offset <= 1,
        shape@.len() == dims@.len() + offset,
    ensures
        status::same_outcome(r, spec_request_dims(dims@, shape@, offset as int, model@)),
{
    let i: usize = find_misfit(dims, shape, offset);
    if i < dims.len() {
        let at = decimal_usize(i + offset);
        let expected = decimal_i64(dims[i]);
        let got = decimal_i64(shape[i + offset]);
        let mut message = cat7(
            "input tensor shape mismatch for model '",
            model,
            "' at dimension ",
            at.as_str(),
            ": expected ",
            expected.as_str(),
            ", got ",
        );
        message.append(got.as_str());
        return Err(Status::invalid_argument(message));
    }
    Ok(())
}

/// Whether every dimension is positive.
pub fn all_positive(shape: &[i64]) -> (r: bool)
    ensures
        r == !(exists|i: int| 0 <= i < shape@.len() && shape@[i] <= 0),
{
    let mut i: usize = 0;
    while i < shape.len()
        invariant
            i <= shape@.len(),
            forall|k: int| 0 <= k < i ==> shape@[k] > 0,
        decreases shape@.len() - i,
    {
        if shape[i] <= 0 {
            return false;
        }
        i = i + 1;
    }
    true
}

/// Checks a request shape against the declared dimensions of one input.
pub fn validate_tensor_shape(
    input_shape: &[i64],
    max_batch_size: i64,
    request_shape: &[i64],
    model_name: &str,
) -> (r: Result<(), Status>)
    ensures
        status::same_outcome(
            r,
            spec_request_shape(input_shape@, max_batch_size, request_shape@, model_name@),
        ),
{
    if request_shape.len() == 0 {
        return Err(Status::invalid_argument("tensor chunk shape is required".to_string()));
    }
    if !all_positive(request_shape) {
        return Err(
            Status::invalid_argument("tensor chunk shape dimensions must be positive".to_string()),
        );
    }
    let has_batch = max_batch_size > 0;
    if has_batch && request_shape.len() - 1 == input_shape.len() {
        let batch: i64 = request_shape[0];
        if batch > max_batch_size {
            let batch_text = decimal_i64(batch);
            let max_text = decimal_i64(max_batch_size);
            return Err(
                Status::invalid_argument(
                    cat7(
                        "batch size ",
                        batch_text.as_str(),
                        " exceeds max_batch_size ",
                        max_text.as_str(),
                        " for model '",
                        model_name,
                        "'",
                    ),
                ),
            );
        }
        return check_request_dims(input_shape, request_shape, 1, model_name);
    }
    if request_shape.len() == input_shape.len() {
        return check_request_dims(input_shape, request_shape, 0, model_name);
    }
    Err(input_rank_status(input_shape.len(), has_batch, request_shape.len(), model_name))
}

/// The complaint about an output with the wrong number of dimensions.
pub open spec fn output_rank_mismatch(
    declared: nat,
    batched: bool,
    got: nat,
    model: Seq<char>,
) -> StatusView {
    let allowed = if batched {
        number::decimal(declared as int) + " (or "@ + number::decimal(declared as int + 1)
            + " with a batch dimension)"@
    } else {
        number::decimal(declared as int)
    };
    (
        Code::Internal,
        "model '"@ + model + "' output rank mismatch: expected "@ + allowed + ", got "@ + number::decimal(
            got as int,
        ),
    )
}

/// The complaint about an output whose batch is not the request's.
pub open spec fn output_batch_mismatch(got: i64, expected: i64, model: Seq<char>) -> StatusView {
    (
        Code::Internal,
        "model '"@ + model + "' output batch size "@ + number::decimal(got as int)
            + " does not match input batch size "@ + number::decimal(expected as int),
    )
}

/// The complaint about an output dimension that differs from the declared one.
pub open spec fn output_dim_mismatch(
    index: int,
    declared: i64,
    got: i64,
    model: Seq<char>,
) -> StatusView {
    (
        Code::Internal,
        "model '"@ + model + "' output shape mismatch at dimension "@ + number::decimal(index)
            + ": declared "@ + number::decimal(declared as int) + ", got "@ + number::decimal(got as int),
    )
}

/// The verdict on the output dimensions that follow the first `offset` ones.
pub open spec fn spec_output_dims(
    dims: Seq<i64>,
    actual: Seq<i64>,
    offset: int,
    model: Seq<char>,
) -> Result<(), StatusView> {
    let i = first_misfit(dims, actual, offset, 0);
    if i < dims.len() {
        Err(output_dim_mismatch(i + offset, dims[i], actual[i + offset], model))
    } else {
        Ok(())
    }
}

/// The verdict on an output whose dimensions are compared after the leading
/// batch dimension, which must be the request's where that is known.
pub open spec fn spec_batched_output(
    dims: Seq<i64>,
    actual: Seq<i64>,
    expected_batch: Option<i64>,
    model: Seq<char>,
) -> Result<(), StatusView> {
    match expected_batch {
        Some(expected) if actual[0] != expected => Err(
            output_batch_mismatch(actual[0], expected, model),
        ),
        _ => spec_output_dims(dims, actual, 1, model),
    }
}

/// The verdict on the shape of an output declared as `dims`. A declared batch
/// dimension may be there, and is then the request's, or be left out.
pub open spec fn spec_output_shape(
    dims: Seq<i64>,
    max_batch_size: i64,
    actual: Seq<i64>,
    expected_batch: Option<i64>,
    model: Seq<char>,
) -> Result<(), StatusView> {
    if max_batch_size > 0 && actual.len() == dims.len() + 1 {
        spec_batched_output(dims, actual, expected_batch, model)
    } else if actual.len() == dims.len() {
        spec_output_dims(dims, actual, 0, model)
    } else {
        Err(output_rank_mismatch(dims.len(), max_batch_size > 0, actual.len(), model))
    }
}

fn output_rank_status(declared: usize, batched: bool, got: usize, model: &str) -> (r: Status)
    ensures
        r@ == output_rank_mismatch(declared as nat, batched, got as nat, model@),
{
    let rank = decimal_usize(declared);
    let allowed = if batched {
        let with_batch = decimal_u128(declared as u128 + 1);
        cat4(rank.as_str(), " (or ", with_batch.as_str(), " with a batch dimension)")
    } else {
        rank
    };
    let got_text = decimal_usize(got);
    Status::internal(
        cat6(
            "model '",
            model,
            "' output rank mismatch: expected ",
            allowed.as_str(),
            ", got ",
            got_text.as_str(),
        ),
    )
}

/// Compares the dimensions of an output that follow the first `offset` ones.
pub fn check_output_dims(dims: &[i64], actual: &[i64], offset: usize, model: &str) -> (r: Result<
    (),
    Status,
>)
    requires
        offset <= 1,
        actual@.len() == dims@.len() + offset,
    ensures
        status::same_outcome(r, spec_output_dims(dims@, actual@, offset as int, model@)),
{
    let i: usize = find_misfit(dims, actual, offset);
    if i < dims.len() {
        let at = decimal_usize(i + offset);
        let declared = decimal_i64(dims[i]);
        let got = decimal_i64(actual[i + offset]);
        return Err(
            Status::internal(
                cat8(
                    "model '",
                    model,
                    "' output shape mismatch at dimension ",
                    at.as_str(),
                    ": declared ",
                    declared.as_str(),
                    ", got ",
                    got.as_str(),
                ),
            ),
        );
    }
    Ok(())
}

/// Compares an output that carries the batch dimension.
pub fn check_batched_output(
    dims: &[i64],
    actual: &[i64],
    expected_batch: Option<i64>,
    model: &str,
) -> (r: Result<(), Status>)
    requires
        actual@.len() == dims@.len() + 1,
    ensures
        status::same_outcome(r, spec_batched_output(dims@, actual@, expected_batch, model@)),
{
    if let Some(expected) = expected_batch {
        if actual[0] != expected {
            let got_text = decimal_i64(actual[0]);
            let expected_text = decimal_i64(expected);
            return Err(
                Status::internal(
                    cat6(
                        "model '",
                        model,
                        "' output batch size ",
                        got_text.as_str(),
                        " does not match input batch size ",
                        expected_text.as_str(),
                    ),
                ),
            );
        }
    }
    check_output_dims(dims, actual, 1, model)
}

/// The shape with a leading batch dimension of one, where a batch dimension is
/// declared and the request left it out.
pub open spec fn normalized(dims: Seq<i64>, max_batch_size: i64, shape: Seq<i64>) -> Seq<i64> {
    if max_batch_size > 0 && shape.len() == dims.len() {
        seq![1i64] + shape
    } else {
        shape
    }
}

impl ContractView {
    /// Whether a batch dimension is declared.
    pub open spec fn batched(self) -> bool {
        self.max_batch_size > 0
    }

    /// The leading dimension of a batch-normalized shape, where a batch
    /// dimension is declared.
    pub open spec fn batch_of(self, shape: Seq<i64>) -> Option<i64> {
        if self.batched() && shape.len() > 0 {
            Some(shape[0])
        } else {
            None
        }
    }

    /// The shape advertised for a tensor: `-1` for the batch dimension, where
    /// one is declared, then the declared dimensions.
    pub open spec fn advertised(self, dims: Seq<i64>) -> Seq<i64> {
        if self.batched() {
            seq![-1i64] + dims
        } else {
            dims
        }
    }
}

impl Contract {
    /// Whether the model consumes a tensor.
    pub fn has_input(&self) -> (r: bool)
        ensures
            r == (self@.inputs.len() > 0),
    {
        self.inputs.len() > 0
    }

    /// Whether a batch dimension is declared.
    pub fn has_batch_dim(&self) -> (r: bool)
        ensures
            r == self@.batched(),
    {
        self.max_batch_size > 0
    }

    /// Checks a request shape against the input `spec`.
    pub fn validate_input_shape(
        &self,
        spec: &TensorSpec,
        request_shape: &[i64],
        model_name: &str,
    ) -> (r: Result<(), Status>)
        ensures
            status::same_outcome(
                r,
                spec_request_shape(spec@.dims, self@.max_batch_size, request_shape@, model_name@),
            ),
    {
        validate_tensor_shape(
            spec.dims.as_slice(),
            self.max_batch_size,
            request_shape,
            model_name,
        )
    }

    /// The shape to feed the model: a leading batch dimension of one is put in
    /// where the request left the declared batch dimension out.
    pub fn normalize_request_shape(&self, spec: &TensorSpec, request_shape: Vec<i64>) -> (r: Vec<
        i64,
    >)
        ensures
            r@ == normalized(spec@.dims, self@.max_batch_size, request_shape@),
    {
        if self.has_batch_dim() && request_shape.len() == spec.dims.len() {
            prepend(1, request_shape.as_slice())
        } else {
            request_shape
        }
    }

    /// The batch size of a batch-normalized request shape, where a batch
    /// dimension is declared.
    pub fn expected_batch(&self, normalized: &[i64]) -> (r: Option<i64>)
        ensures
            r == self@.batch_of(normalized@),
    {
        if self.has_batch_dim() && normalized.len() > 0 {
            Some(normalized[0])
        } else {
            None
        }
    }

    /// Checks the shape of a model's output against `spec`, and its batch
    /// against the request's where both are known.
    pub fn validate_output_shape(
        &self,
        spec: &TensorSpec,
        actual: &[i64],
        expected_batch: Option<i64>,
        model_name: &str,
    ) -> (r: Result<(), Status>)
        ensures
            status::same_outcome(
                r,
                spec_output_shape(
                    spec@.dims,
                    self@.max_batch_size,
                    actual@,
                    expected_batch,
                    model_name@,
                ),
            ),
    {
        let dims = spec.dims.as_slice();
        if self.has_batch_dim() && actual.len() > 0 && actual.len() - 1 == dims.len() {
            return check_batched_output(dims, actual, expected_batch, model_name);
        }
        if actual.len() == dims.len() {
            return check_output_dims(dims, actual, 0, model_name);
        }
        Err(output_rank_status(dims.len(), self.has_batch_dim(), actual.len(), model_name))
    }

    /// The shape advertised for `spec`.
    pub fn metadata_shape(&self, spec: &TensorSpec) -> (r: Vec<i64>)
        ensures
            r@ == self@.advertised(spec@.dims),
    {
        if self.has_batch_dim() {
            prepend(-1, spec.dims.as_slice())
        } else {
            let shape = spec.dims.clone();
            assert(shape@ =~= spec.dims@);
            shape
        }
    }
}

/// The dimensions after one more leading dimension.
pub fn prepend(first: i64, rest: &[i64]) -> (r: Vec<i64>)
    ensures
        r@ == seq![first] + rest@,
{
    let mut out: Vec<i64> = Vec::new();
    out.push(first);
    out.extend_from_slice(rest);
    assert(out@ =~= seq![first] + rest@);
    out
}

/// Whether each declared dimension fits the actual one `offset` places on.
pub open spec fn dims_fit(declared: Seq<i64>, actual: Seq<i64>, offset: int) -> bool {
    forall|i: int| 0 <= i < declared.len() ==> dim_fits(#[trigger] declared[i], actual[i + offset])
}

/// Whether a shape has all declared dimensions: the batch dimension, where one
/// is declared, of at least one and at most the maximum, and then one dimension
/// that fits for each declared one.
pub open spec fn full_shape(dims: Seq<i64>, max_batch_size: i64, shape: Seq<i64>) -> bool {
    if max_batch_size > 0 {
        &&& shape.len() == dims.len() + 1
        &&& 1 <= shape[0] <= max_batch_size
        &&& dims_fit(dims, shape, 1)
    } else {
        &&& shape.len() == dims.len()
        &&& dims_fit(dims, shape, 0)
    }
}

pub proof fn lemma_first_misfit(declared: Seq<i64>, actual: Seq<i64>, offset: int, from: int)
    requires
        0 <= from <= declared.len(),
    ensures
        from <= first_misfit(declared, actual, offset, from) <= declared.len(),
        first_misfit(declared, actual, offset, from) == declared.len() <==> (forall|i: int|
            from <= i < declared.len() ==> dim_fits(#[trigger] declared[i], actual[i + offset])),
    decreases declared.len() - from,
{
    if from < declared.len() && dim_fits(declared[from], actual[from + offset]) {
        lemma_first_misfit(declared, actual, offset, from + 1);
    } else if from < declared.len() {
        assert(!dim_fits(declared[from], actual[from + offset]));
    }
}

/// A request shape is accepted exactly if it has dimensions, all of them are
/// positive, and the shape it is normalized to has all declared dimensions.
pub proof fn law_accepted_shapes(
    dims: Seq<i64>,
    max_batch_size: i64,
    shape: Seq<i64>,
    model: Seq<char>,
)
    ensures
        spec_request_shape(dims, max_batch_size, shape, model) is Ok <==> {
            &&& shape.len() > 0
            &&& forall|i: int| 0 <= i < shape.len() ==> shape[i] > 0
            &&& full_shape(dims, max_batch_size, normalized(dims, max_batch_size, shape))
        },
{
    let n = normalized(dims, max_batch_size, shape);
    lemma_first_misfit(dims, shape, 0, 0);
    lemma_first_misfit(dims, shape, 1, 0);
    if max_batch_size > 0 && shape.len() == dims.len() {
        assert(dims_fit(dims, n, 1) == dims_fit(dims, shape, 0)) by {
            assert forall|i: int| 0 <= i < dims.len() implies #[trigger] dims[i] == dims[i] && n[i
                + 1] == shape[i] by {}
        }
    }
}

/// Normalizing a shape a second time changes nothing.
pub proof fn law_normalize_once(dims: Seq<i64>, max_batch_size: i64, shape: Seq<i64>)
    ensures
        normalized(dims, max_batch_size, normalized(dims, max_batch_size, shape)) == normalized(
            dims,
            max_batch_size,
            shape,
        ),
{
}

/// What an accepted request shape is normalized to is accepted too.
pub proof fn law_normalized_accepted(
    dims: Seq<i64>,
    max_batch_size: i64,
    shape: Seq<i64>,
    model: Seq<char>,
)
    requires
        spec_request_shape(dims, max_batch_size, shape, model) is Ok,
    ensures
        spec_request_shape(dims, max_batch_size, normalized(dims, max_batch_size, shape), model)
            is Ok,
{
    let n = normalized(dims, max_batch_size, shape);
    law_accepted_shapes(dims, max_batch_size, shape, model);
    law_accepted_shapes(dims, max_batch_size, n, model);
    law_normalize_once(dims, max_batch_size, shape);
}

/// An output that carries the batch dimension is accepted only with the batch
/// size of the request.
pub proof fn law_output_batch(
    dims: Seq<i64>,
    max_batch_size: i64,
    actual: Seq<i64>,
    expected: i64,
    model: Seq<char>,
)
    requires
        spec_output_shape(dims, max_batch_size, actual, Some(expected), model) is Ok,
        max_batch_size > 0,
        actual.len() == dims.len() + 1,
    ensures
        actual[0] == expected,
{
}

} // verus!
