//! Reading `model_inference.textproto`.
//!
//! The file comes in two forms. The flat form has one `field: value` per line
//! and declares a single-tensor model. The block form names its tensors in
//! `input { .. }` and `output { .. }` blocks, whose fields stand on lines of
//! their own; or a whole block stands on one line. What else follows the `{` of a
//! line does not count. In both forms, `#` starts a comment and blank lines do not
//! count.

use vstd::prelude::*;
use vstd::slice::slice_subrange;

use crate::contract;
use crate::contract::{Contract, ContractView, TensorSpec, TensorSpecView};
use crate::dtype;
use crate::dtype::kserve_fixed_width;
use crate::number;
use crate::number::{parse_i64, IntFault};
use crate::status::{Code, Status, StatusView};
use crate::text;
use crate::text::{
    cat2, cat3, cat4, cat5, cat7, cat9, chars_of, find_char, has_prefix, is_word, split_at,
    split_lines, string_of, trimmed, trimmed_start, unquoted, white,
};

verus! {

/// A text file: the path it is reported under, and its contents or why they
/// could not be read.
#[derive(Debug)]
pub struct TextFile {
    pub path: String,
    pub contents: Result<String, String>,
}

/// The part of a line that counts: without its comment and the white space
/// around it.
pub open spec fn content(raw: Seq<char>) -> Seq<char> {
    text::trim(raw.take(text::find(raw, '#') as int))
}

fn content_of<'a>(raw: &'a [char]) -> (r: &'a [char])
    ensures
        r@ == content(raw@),
{
    let end: usize = find_char(raw, '#');
    let head = slice_subrange(raw, 0, end);
    assert(head@ =~= raw@.take(end as int));
    trimmed(head)
}

/// What stands between the brackets of `[..]`.
pub open spec fn bracketed(value: Seq<char>) -> Option<Seq<char>> {
    if value.len() >= 2 && value[0] == '[' && value.last() == ']' {
        Some(value.subrange(1, value.len() - 1))
    } else {
        None
    }
}

fn between_brackets<'a>(value: &'a [char]) -> (r: Option<&'a [char]>)
    ensures
        match r {
            Some(inner) => bracketed(value@) == Some(inner@),
            None => bracketed(value@) is None,
        },
{
    if value.len() >= 2 && value[0] == '[' && value[value.len() - 1] == ']' {
        Some(slice_subrange(value, 1, value.len() - 1))
    } else {
        None
    }
}

/// The parts that are not blank, each without the white space around it.
pub open spec fn filled(parts: Seq<Seq<char>>) -> Seq<Seq<char>>
    decreases parts.len(),
{
    if parts.len() == 0 {
        Seq::empty()
    } else {
        let before = filled(parts.drop_last());
        let last = text::trim(parts.last());
        if last.len() == 0 {
            before
        } else {
            before.push(last)
        }
    }
}

fn filled_parts<'a>(s: &'a [char]) -> (r: Vec<&'a [char]>)
    ensures
        text::pieces(r@) == filled(text::split(s@, ',')),
{
    let parts = split_at(s, ',');
    let mut out: Vec<&'a [char]> = Vec::new();
    let mut i: usize = 0;
    let ghost all = text::pieces(parts@);
    assert(all.take(0) =~= Seq::empty());
    assert(text::pieces(out@) =~= Seq::empty());
    while i < parts.len()
        invariant
            i <= parts@.len(),
            all == text::pieces(parts@),
            text::pieces(out@) == filled(all.take(i as int)),
        decreases parts@.len() - i,
    {
        let part = trimmed(parts[i]);
        proof {
            assert(all.take(i + 1).drop_last() =~= all.take(i as int));
            assert(all.take(i + 1).last() == parts@[i as int]@);
        }
        if part.len() > 0 {
            assert(text::pieces(out@.push(part)) =~= text::pieces(out@).push(part@));
            out.push(part);
        }
        i = i + 1;
    }
    assert(all.take(i as int) =~= all);
    out
}

/// Why a list of dimensions is refused.
pub enum DimFault {
    /// A part is not an integer.
    Unreadable(String, IntFault),
    /// A dimension is neither positive nor `-1`.
    OutOfRange,
}

/// A [`DimFault`] as contracts see it.
pub enum DimFaultView {
    Unreadable(Seq<char>, IntFault),
    OutOfRange,
}

impl View for DimFault {
    type V = DimFaultView;

    open spec fn view(&self) -> DimFaultView {
        match self {
            DimFault::Unreadable(text, fault) => DimFaultView::Unreadable(text@, *fault),
            DimFault::OutOfRange => DimFaultView::OutOfRange,
        }
    }
}

/// A declared dimension: positive, or `-1` for one that the client provides.
pub open spec fn dim_ok(dim: i64) -> bool {
    dim > 0 || dim == -1
}

/// The dimensions that the parts write, or the fault of the first bad part.
pub open spec fn declared_dims(parts: Seq<Seq<char>>) -> Result<Seq<i64>, DimFaultView>
    decreases parts.len(),
{
    if parts.len() == 0 {
        Ok(Seq::empty())
    } else {
        match declared_dims(parts.drop_last()) {
            Err(fault) => Err(fault),
            Ok(before) => match number::parse_int(parts.last(), i64::MIN as int, i64::MAX as int) {
                Err(fault) => Err(DimFaultView::Unreadable(parts.last(), fault)),
                Ok(n) => if dim_ok(n as i64) {
                    Ok(before.push(n as i64))
                } else {
                    Err(DimFaultView::OutOfRange)
                },
            },
        }
    }
}

proof fn lemma_declared_dims_fault(parts: Seq<Seq<char>>, k: int)
    requires
        0 <= k <= parts.len(),
        declared_dims(parts.take(k)) is Err,
    ensures
        declared_dims(parts) == declared_dims(parts.take(k)),
    decreases parts.len() - k,
{
    if k == parts.len() {
        assert(parts.take(k) =~= parts);
    } else {
        assert(parts.take(k + 1).drop_last() =~= parts.take(k));
        lemma_declared_dims_fault(parts, k + 1);
    }
}

fn read_dims(parts: &Vec<&[char]>) -> (r: Result<Vec<i64>, DimFault>)
    ensures
        match r {
            Ok(dims) => declared_dims(text::pieces(parts@)) == Ok::<Seq<i64>, DimFaultView>(dims@),
            Err(fault) => declared_dims(text::pieces(parts@)) == Err::<Seq<i64>, DimFaultView>(fault@),
        },
{
    let mut dims: Vec<i64> = Vec::new();
    let mut i: usize = 0;
    let ghost all = text::pieces(parts@);
    assert(all.take(0) =~= Seq::empty());
    while i < parts.len()
        invariant
            i <= parts@.len(),
            all == text::pieces(parts@),
            declared_dims(all.take(i as int)) == Ok::<Seq<i64>, DimFaultView>(dims@),
        decreases parts@.len() - i,
    {
        proof {
            assert(all.take(i + 1).drop_last() =~= all.take(i as int));
            assert(all.take(i + 1).last() == parts@[i as int]@);
        }
        match parse_i64(parts[i]) {
            Err(fault) => {
                proof {
                    lemma_declared_dims_fault(all, i + 1);
                }
                return Err(DimFault::Unreadable(string_of(parts[i]), fault));
            },
            Ok(dim) => {
                if dim == 0 || dim < -1 {
                    proof {
                        lemma_declared_dims_fault(all, i + 1);
                    }
                    return Err(DimFault::OutOfRange);
                }
                dims.push(dim);
            },
        }
        i = i + 1;
    }
    assert(all.take(i as int) =~= all);
    Ok(dims)
}

/// The sentence about a shape that is not a list in brackets.
pub open spec fn shape_not_bracketed(
    field: Seq<char>,
    raw: Seq<char>,
    path: Seq<char>,
) -> Seq<char> {
    "invalid "@ + field + " in "@ + path + ": '"@ + raw
        + "'. expected bracketed dimensions such as `"@ + field + ": [1, 16]`"@
}

/// The sentence about a list of dimensions in the flat form.
pub open spec fn flat_dim_fault(
    fault: DimFaultView,
    field: Seq<char>,
    path: Seq<char>,
) -> Seq<char> {
    match fault {
        DimFaultView::Unreadable(text, cause) => "failed parsing "@ + field + " dimension '"@ + text
            + "' in "@ + path + ": "@ + cause.spec_message(),
        DimFaultView::OutOfRange => field + " dimensions in "@ + path
            + " must be positive or -1"@,
    }
}

/// The shape in a line of the flat form, or the sentence that refuses it.
pub open spec fn flat_shape(
    field: Seq<char>,
    value: Seq<char>,
    raw: Seq<char>,
    path: Seq<char>,
) -> Result<Seq<i64>, Seq<char>> {
    match bracketed(text::trim(value)) {
        None => Err(shape_not_bracketed(field, raw, path)),
        Some(inner) => {
            let parts = filled(text::split(text::trim(inner), ','));
            if parts.len() == 0 {
                Err(shape_not_bracketed(field, raw, path))
            } else {
                match declared_dims(parts) {
                    Ok(dims) => Ok(dims),
                    Err(fault) => Err(flat_dim_fault(fault, field, path)),
                }
            }
        },
    }
}

fn not_bracketed_message(field: &str, raw: &[char], path: &str) -> (r: String)
    ensures
        r@ == shape_not_bracketed(field@, raw@, path@),
{
    let line = string_of(raw);
    cat9(
        "invalid ",
        field,
        " in ",
        path,
        ": '",
        line.as_str(),
        "'. expected bracketed dimensions such as `",
        field,
        ": [1, 16]`",
    )
}

fn flat_dim_message(fault: DimFault, field: &str, path: &str) -> (r: String)
    ensures
        r@ == flat_dim_fault(fault@, field@, path@),
{
    match fault {
        DimFault::Unreadable(text, cause) => {
            let mut out = cat7(
                "failed parsing ",
                field,
                " dimension '",
                text.as_str(),
                "' in ",
                path,
                ": ",
            );
            out.append(cause.message());
            out
        },
        DimFault::OutOfRange => cat4(
            field,
            " dimensions in ",
            path,
            " must be positive or -1",
        ),
    }
}

/// Reads the shape in a line of the flat form.
fn parse_shape_dims(field: &str, value: &[char], raw: &[char], path: &str) -> (r: Result<
    Vec<i64>,
    String,
>)
    ensures
        match r {
            Ok(dims) => flat_shape(field@, value@, raw@, path@) == Ok::<Seq<i64>, Seq<char>>(dims@),
            Err(e) => flat_shape(field@, value@, raw@, path@) == Err::<Seq<i64>, Seq<char>>(e@),
        },
{
    match between_brackets(trimmed(value)) {
        None => Err(not_bracketed_message(field, raw, path)),
        Some(inner) => {
            let parts = filled_parts(trimmed(inner));
            assert(text::pieces(parts@).len() == parts@.len());
            if parts.len() == 0 {
                return Err(not_bracketed_message(field, raw, path));
            }
            match read_dims(&parts) {
                Ok(dims) => Ok(dims),
                Err(fault) => Err(flat_dim_message(fault, field, path)),
            }
        },
    }
}

/// What the lines of the flat form have declared so far. A later line replaces
/// what an earlier one declared.
pub struct FlatFields {
    pub input: Option<Vec<i64>>,
    pub output: Option<Vec<i64>>,
    pub dtype: Option<String>,
    pub max_batch_size: i64,
}

/// A [`FlatFields`] as contracts see it.
#[verifier::ext_equal]
pub struct FlatView {
    pub input: Option<Seq<i64>>,
    pub output: Option<Seq<i64>>,
    pub dtype: Option<Seq<char>>,
    pub max_batch_size: i64,
}

/// What an optional list holds.
pub open spec fn dims_view(dims: Option<Vec<i64>>) -> Option<Seq<i64>> {
    match dims {
        Some(d) => Some(d@),
        None => None,
    }
}

/// What an optional string holds.
pub open spec fn text_view(text: Option<String>) -> Option<Seq<char>> {
    match text {
        Some(t) => Some(t@),
        None => None,
    }
}

impl View for FlatFields {
    type V = FlatView;

    open spec fn view(&self) -> FlatView {
        FlatView {
            input: dims_view(self.input),
            output: dims_view(self.output),
            dtype: text_view(self.dtype),
            max_batch_size: self.max_batch_size,
        }
    }
}

/// Nothing declared: no shapes, no datatype, no batch dimension.
pub open spec fn flat_start() -> FlatView {
    FlatView { input: None, output: None, dtype: None, max_batch_size: 0 }
}

/// The sentence about a line without a colon.
pub open spec fn flat_no_colon(raw: Seq<char>, path: Seq<char>) -> Seq<char> {
    "invalid model_inference line in "@ + path + ": '"@ + raw + "'"@
}

/// The largest batch that a line of the flat form declares.
pub open spec fn flat_batch(value: Seq<char>, path: Seq<char>) -> Result<i64, Seq<char>> {
    match number::parse_int(text::trim(value), i64::MIN as int, i64::MAX as int) {
        Err(fault) => Err(
            "failed parsing max_batch_size in "@ + path + ": "@ + fault.spec_message(),
        ),
        Ok(n) => if n < 0 {
            Err("max_batch_size in "@ + path + " must be >= 0"@)
        } else {
            Ok(n as i64)
        },
    }
}

/// The datatype that a line of the flat form declares.
pub open spec fn flat_dtype(value: Seq<char>, path: Seq<char>) -> Result<Seq<char>, Seq<char>> {
    let name = text::unquote(text::trim(value));
    if dtype::spec_fixed_width(name) is None {
        Err("unsupported data_type '"@ + name + "' in "@ + path)
    } else {
        Ok(name)
    }
}

/// What a field of the flat form declares on top of `before`. Unknown fields
/// declare nothing; `data_type` is one where `typed` is false.
pub open spec fn flat_field(
    before: FlatView,
    field: Seq<char>,
    value: Seq<char>,
    raw: Seq<char>,
    path: Seq<char>,
    typed: bool,
) -> Result<FlatView, Seq<char>> {
    if field == "input_shape"@ {
        match flat_shape("input_shape"@, value, raw, path) {
            Ok(dims) => Ok(FlatView { input: Some(dims), ..before }),
            Err(e) => Err(e),
        }
    } else if field == "output_shape"@ {
        match flat_shape("output_shape"@, value, raw, path) {
            Ok(dims) => Ok(FlatView { output: Some(dims), ..before }),
            Err(e) => Err(e),
        }
    } else if typed && field == "data_type"@ {
        match flat_dtype(value, path) {
            Ok(name) => Ok(FlatView { dtype: Some(name), ..before }),
            Err(e) => Err(e),
        }
    } else if field == "max_batch_size"@ {
        match flat_batch(value, path) {
            Ok(n) => Ok(FlatView { max_batch_size: n, ..before }),
            Err(e) => Err(e),
        }
    } else {
        Ok(before)
    }
}

/// What a line of the flat form declares on top of `before`.
pub open spec fn flat_line(before: FlatView, raw: Seq<char>, path: Seq<char>, typed: bool) -> Result<
    FlatView,
    Seq<char>,
> {
    let line = content(raw);
    let colon = text::find(line, ':');
    if line.len() == 0 {
        Ok(before)
    } else if colon >= line.len() {
        Err(flat_no_colon(raw, path))
    } else {
        flat_field(
            before,
            text::trim(line.take(colon as int)),
            line.skip(colon as int + 1),
            raw,
            path,
            typed,
        )
    }
}

/// What the lines of the flat form declare, or the sentence that refuses the
/// first bad one.
pub open spec fn flat_lines(all: Seq<Seq<char>>, path: Seq<char>, typed: bool) -> Result<
    FlatView,
    Seq<char>,
>
    decreases all.len(),
{
    if all.len() == 0 {
        Ok(flat_start())
    } else {
        match flat_lines(all.drop_last(), path, typed) {
            Err(e) => Err(e),
            Ok(before) => flat_line(before, all.last(), path, typed),
        }
    }
}

proof fn lemma_flat_lines_fault(all: Seq<Seq<char>>, path: Seq<char>, typed: bool, k: int)
    requires
        0 <= k <= all.len(),
        flat_lines(all.take(k), path, typed) is Err,
    ensures
        flat_lines(all, path, typed) == flat_lines(all.take(k), path, typed),
    decreases all.len() - k,
{
    if k == all.len() {
        assert(all.take(k) =~= all);
    } else {
        assert(all.take(k + 1).drop_last() =~= all.take(k));
        lemma_flat_lines_fault(all, path, typed, k + 1);
    }
}

/// Reads the largest batch in a line of the flat form.
fn parse_flat_batch(value: &[char], path: &str) -> (r: Result<i64, String>)
    ensures
        match r {
            Ok(n) => flat_batch(value@, path@) == Ok::<i64, Seq<char>>(n),
            Err(e) => flat_batch(value@, path@) == Err::<i64, Seq<char>>(e@),
        },
{
    match parse_i64(trimmed(value)) {
        Err(fault) => Err(cat4("failed parsing max_batch_size in ", path, ": ", fault.message())),
        Ok(n) => {
            if n < 0 {
                Err(cat3("max_batch_size in ", path, " must be >= 0"))
            } else {
                Ok(n)
            }
        },
    }
}

/// Reads the datatype in a line of the flat form.
fn parse_flat_dtype(value: &[char], path: &str) -> (r: Result<String, String>)
    ensures
        match r {
            Ok(name) => flat_dtype(value@, path@) == Ok::<Seq<char>, Seq<char>>(name@),
            Err(e) => flat_dtype(value@, path@) == Err::<Seq<char>, Seq<char>>(e@),
        },
{
    let name = string_of(unquoted(trimmed(value)));
    if kserve_fixed_width(name.as_str()).is_none() {
        return Err(cat4("unsupported data_type '", name.as_str(), "' in ", path));
    }
    Ok(name)
}

/// Applies one field of the flat form.
fn apply_flat_field(
    before: FlatFields,
    field: &[char],
    value: &[char],
    raw: &[char],
    path: &str,
    typed: bool,
) -> (r: Result<FlatFields, String>)
    ensures
        match r {
            Ok(after) => flat_field(before@, field@, value@, raw@, path@, typed) == Ok::<
                FlatView,
                Seq<char>,
            >(after@),
            Err(e) => flat_field(before@, field@, value@, raw@, path@, typed) == Err::<
                FlatView,
                Seq<char>,
            >(e@),
        },
{
    if is_word(field, "input_shape") {
        match parse_shape_dims("input_shape", value, raw, path) {
            Ok(dims) => Ok(
                FlatFields {
                    input: Some(dims),
                    output: before.output,
                    dtype: before.dtype,
                    max_batch_size: before.max_batch_size,
                },
            ),
            Err(e) => Err(e),
        }
    } else if is_word(field, "output_shape") {
        match parse_shape_dims("output_shape", value, raw, path) {
            Ok(dims) => Ok(
                FlatFields {
                    input: before.input,
                    output: Some(dims),
                    dtype: before.dtype,
                    max_batch_size: before.max_batch_size,
                },
            ),
            Err(e) => Err(e),
        }
    } else if typed && is_word(field, "data_type") {
        match parse_flat_dtype(value, path) {
            Ok(name) => Ok(
                FlatFields {
                    input: before.input,
                    output: before.output,
                    dtype: Some(name),
                    max_batch_size: before.max_batch_size,
                },
            ),
            Err(e) => Err(e),
        }
    } else if is_word(field, "max_batch_size") {
        match parse_flat_batch(value, path) {
            Ok(n) => Ok(
                FlatFields {
                    input: before.input,
                    output: before.output,
                    dtype: before.dtype,
                    max_batch_size: n,
                },
            ),
            Err(e) => Err(e),
        }
    } else {
        Ok(before)
    }
}

/// Applies one line of the flat form.
fn apply_flat_line(before: FlatFields, raw: &[char], path: &str, typed: bool) -> (r: Result<
    FlatFields,
    String,
>)
    ensures
        match r {
            Ok(after) => flat_line(before@, raw@, path@, typed) == Ok::<FlatView, Seq<char>>(
                after@,
            ),
            Err(e) => flat_line(before@, raw@, path@, typed) == Err::<FlatView, Seq<char>>(e@),
        },
{
    let line = content_of(raw);
    if line.len() == 0 {
        return Ok(before);
    }
    let colon: usize = find_char(line, ':');
    if colon == line.len() {
        let raw_text = string_of(raw);
        return Err(cat5("invalid model_inference line in ", path, ": '", raw_text.as_str(), "'"));
    }
    let head = slice_subrange(line, 0, colon);
    let value = slice_subrange(line, colon + 1, line.len());
    proof {
        assert(head@ =~= line@.take(colon as int));
        assert(value@ =~= line@.skip(colon as int + 1));
    }
    apply_flat_field(before, trimmed(head), value, raw, path, typed)
}

/// Reads all lines of the flat form.
pub fn read_flat_fields(contents: &str, path: &str, typed: bool) -> (r: Result<FlatFields, String>)
    ensures
        match r {
            Ok(fields) => flat_lines(text::lines(contents@), path@, typed) == Ok::<FlatView, Seq<char>>(
                fields@,
            ),
            Err(e) => flat_lines(text::lines(contents@), path@, typed) == Err::<FlatView, Seq<char>>(e@),
        },
{
    let text = chars_of(contents);
    let all = split_lines(text.as_slice());
    let ghost every = text::pieces(all@);
    let mut fields = FlatFields { input: None, output: None, dtype: None, max_batch_size: 0 };
    let mut i: usize = 0;
    assert(every.take(0) =~= Seq::empty());
    while i < all.len()
        invariant
            i <= all@.len(),
            every == text::pieces(all@),
            every == text::lines(contents@),
            flat_lines(every.take(i as int), path@, typed) == Ok::<FlatView, Seq<char>>(fields@),
        decreases all@.len() - i,
    {
        proof {
            assert(every.take(i + 1).drop_last() =~= every.take(i as int));
            assert(every.take(i + 1).last() == all@[i as int]@);
        }
        match apply_flat_line(fields, all[i], path, typed) {
            Err(e) => {
                proof {
                    lemma_flat_lines_fault(every, path@, typed, i + 1);
                }
                return Err(e);
            },
            Ok(after) => {
                fields = after;
            },
        }
        i = i + 1;
    }
    assert(every.take(i as int) =~= every);
    Ok(fields)
}

/// The sentence about a file that could not be read.
pub open spec fn unreadable(path: Seq<char>, cause: Seq<char>) -> Seq<char> {
    "failed to read "@ + path + ": "@ + cause
}

/// The sentence about a flat file that declares no tensor.
pub open spec fn no_shapes(path: Seq<char>) -> Seq<char> {
    path + " must declare input_shape and/or output_shape"@
}

/// The tensor list of a single-tensor model: one tensor where it is declared.
pub open spec fn single(name: Seq<char>, dtype: Seq<char>, dims: Option<Seq<i64>>) -> Seq<
    TensorSpecView,
> {
    match dims {
        Some(d) => seq![TensorSpecView { name, dtype, dims: d }],
        None => Seq::empty(),
    }
}

/// The contract that the flat form declares: one input named `input` and one
/// output named `output`, as far as their shapes are given, of the declared
/// datatype or else `FP32`.
pub open spec fn flat_contract(contents: Seq<char>, path: Seq<char>) -> Result<
    ContractView,
    Seq<char>,
> {
    match flat_lines(text::lines(contents), path, true) {
        Err(e) => Err(e),
        Ok(fields) => if fields.input is None && fields.output is None {
            Err(no_shapes(path))
        } else {
            let dtype = match fields.dtype {
                Some(name) => name,
                None => "FP32"@,
            };
            Ok(
                ContractView {
                    inputs: single("input"@, dtype, fields.input),
                    outputs: single("output"@, dtype, fields.output),
                    max_batch_size: fields.max_batch_size,
                    strict_output_dtype: false,
                },
            )
        },
    }
}

fn single_spec(name: &str, dtype: &String, dims: Option<Vec<i64>>) -> (r: Vec<TensorSpec>)
    ensures
        contract::spec_views(r@) == single(name@, dtype@, dims_view(dims)),
{
    let mut out: Vec<TensorSpec> = Vec::new();
    if let Some(d) = dims {
        out.push(TensorSpec { name: name.to_string(), dtype: dtype.clone(), dims: d });
    }
    assert(contract::spec_views(out@) =~= single(name@, dtype@, dims_view(dims)));
    out
}

/// Reads the flat form into a contract.
fn parse_flat(contents: &str, path: &str) -> (r: Result<Contract, String>)
    ensures
        match r {
            Ok(contract) => flat_contract(contents@, path@) == Ok::<ContractView, Seq<char>>(
                contract@,
            ),
            Err(e) => flat_contract(contents@, path@) == Err::<ContractView, Seq<char>>(e@),
        },
{
    match read_flat_fields(contents, path, true) {
        Err(e) => Err(e),
        Ok(fields) => {
            if fields.input.is_none() && fields.output.is_none() {
                return Err(cat2(path, " must declare input_shape and/or output_shape"));
            }
            let dtype = match fields.dtype {
                Some(name) => name,
                None => "FP32".to_string(),
            };
            Ok(
                Contract {
                    inputs: single_spec("input", &dtype, fields.input),
                    outputs: single_spec("output", &dtype, fields.output),
                    max_batch_size: fields.max_batch_size,
                    strict_output_dtype: false,
                },
            )
        },
    }
}

/// What follows the `{` of a line that opens a block of the given kind.
pub open spec fn block_body(line: Seq<char>, keyword: Seq<char>) -> Option<Seq<char>> {
    let rest = text::trim_start(line.skip(keyword.len() as int));
    if text::begins_with(line, keyword) && rest.len() > 0 && rest[0] == '{' {
        Some(rest.skip(1))
    } else {
        None
    }
}

/// Whether a line opens a block, of which kind (`true` for an input), and what
/// follows the `{`.
pub open spec fn opening(line: Seq<char>) -> Option<(bool, Seq<char>)> {
    match block_body(line, "input"@) {
        Some(body) => Some((true, body)),
        None => match block_body(line, "output"@) {
            Some(body) => Some((false, body)),
            None => None,
        },
    }
}

fn body_of_block<'a>(line: &'a [char], keyword: &str, length: usize) -> (r: Option<&'a [char]>)
    requires
        length == keyword@.len(),
    ensures
        match r {
            Some(body) => block_body(line@, keyword@) == Some(body@),
            None => block_body(line@, keyword@) is None,
        },
{
    if !has_prefix(line, keyword) {
        return None;
    }
    let after = slice_subrange(line, length, line.len());
    assert(after@ =~= line@.skip(keyword@.len() as int));
    let rest = trimmed_start(after);
    if rest.len() > 0 && rest[0] == '{' {
        let body = slice_subrange(rest, 1, rest.len());
        assert(body@ =~= rest@.skip(1));
        Some(body)
    } else {
        None
    }
}

fn opened_block<'a>(line: &'a [char]) -> (r: Option<(bool, &'a [char])>)
    ensures
        match r {
            Some((is_input, body)) => opening(line@) == Some((is_input, body@)),
            None => opening(line@) is None,
        },
{
    proof {
        reveal_strlit("input");
        reveal_strlit("output");
    }
    match body_of_block(line, "input", 5) {
        Some(body) => Some((true, body)),
        None => match body_of_block(line, "output", 6) {
            Some(body) => Some((false, body)),
            None => None,
        },
    }
}

/// Whether a text is in the block form: some line opens a block.
pub open spec fn is_block_form(contents: Seq<char>) -> bool {
    exists|i: int|
        0 <= i < text::lines(contents).len() && opening(content(#[trigger] text::lines(contents)[i])) is Some
}

/// Whether the file is in the block form. One that could not be read is not.
pub fn textproto_is_multi(file: &TextFile) -> (r: bool)
    ensures
        r == match file.contents {
            Ok(contents) => is_block_form(contents@),
            Err(_) => false,
        },
{
    match &file.contents {
        Err(_) => false,
        Ok(contents) => {
            let text = chars_of(contents.as_str());
            let all = split_lines(text.as_slice());
            let mut i: usize = 0;
            while i < all.len()
                invariant
                    i <= all@.len(),
                    file.contents == Ok::<String, String>(*contents),
                    text::pieces(all@) == text::lines(contents@),
                    forall|k: int|
                        0 <= k < i ==> opening(content(#[trigger] text::lines(contents@)[k])) is None,
                decreases all@.len() - i,
            {
                assert(text::pieces(all@)[i as int] == all@[i as int]@);
                if opened_block(content_of(all[i])).is_some() {
                    return true;
                }
                i = i + 1;
            }
            false
        },
    }
}

/// What the lines of the block form have declared so far: the finished tensors,
/// the largest batch, the kind of the open block (`true` for an input) and the
/// fields seen in it.
pub struct BlockFields {
    pub inputs: Vec<TensorSpec>,
    pub outputs: Vec<TensorSpec>,
    pub max_batch_size: i64,
    pub block: Option<bool>,
    pub name: Option<String>,
    pub dtype: Option<String>,
    pub dims: Option<Vec<i64>>,
}

/// A [`BlockFields`] as contracts see it.
#[verifier::ext_equal]
pub struct BlockView {
    pub inputs: Seq<TensorSpecView>,
    pub outputs: Seq<TensorSpecView>,
    pub max_batch_size: i64,
    pub block: Option<bool>,
    pub name: Option<Seq<char>>,
    pub dtype: Option<Seq<char>>,
    pub dims: Option<Seq<i64>>,
}

impl View for BlockFields {
    type V = BlockView;

    open spec fn view(&self) -> BlockView {
        BlockView {
            inputs: contract::spec_views(self.inputs@),
            outputs: contract::spec_views(self.outputs@),
            max_batch_size: self.max_batch_size,
            block: self.block,
            name: text_view(self.name),
            dtype: text_view(self.dtype),
            dims: dims_view(self.dims),
        }
    }
}

/// Nothing declared and no block open.
pub open spec fn block_start() -> BlockView {
    BlockView {
        inputs: Seq::empty(),
        outputs: Seq::empty(),
        max_batch_size: 0,
        block: None,
        name: None,
        dtype: None,
        dims: None,
    }
}

/// The sentence about a line that has no field.
pub open spec fn block_bad_line(raw: Seq<char>) -> Seq<char> {
    "invalid line '"@ + raw + "'"@
}

/// The sentence about a list of dimensions in a block.
pub open spec fn block_dim_fault(fault: DimFaultView) -> Seq<char> {
    match fault {
        DimFaultView::Unreadable(text, cause) => "bad dim '"@ + text + "': "@
            + cause.spec_message(),
        DimFaultView::OutOfRange => "dims must be positive or -1"@,
    }
}

/// The dimensions in a `dims` field of a block.
pub open spec fn block_dims(value: Seq<char>, raw: Seq<char>) -> Result<Seq<i64>, Seq<char>> {
    match bracketed(text::trim(value)) {
        None => Err("dims must be bracketed: '"@ + raw + "'"@),
        Some(inner) => match declared_dims(filled(text::split(inner, ','))) {
            Err(fault) => Err(block_dim_fault(fault)),
            Ok(dims) => if dims.len() == 0 {
                Err("dims must be non-empty"@)
            } else {
                Ok(dims)
            },
        },
    }
}

/// The largest batch in a `max_batch_size` field of the block form.
pub open spec fn block_batch(value: Seq<char>) -> Result<i64, Seq<char>> {
    match number::parse_int(text::trim(value), i64::MIN as int, i64::MAX as int) {
        Err(fault) => Err("bad max_batch_size: "@ + fault.spec_message()),
        Ok(n) => if n < 0 {
            Err("max_batch_size must be >= 0"@)
        } else {
            Ok(n as i64)
        },
    }
}

/// What a field declares on top of `before`: the largest batch outside of the
/// blocks, the name, datatype and dimensions of a tensor within one. Other
/// fields declare nothing.
pub open spec fn block_field(
    before: BlockView,
    field: Seq<char>,
    value: Seq<char>,
    raw: Seq<char>,
) -> Result<BlockView, Seq<char>> {
    if before.block is None {
        if field == "max_batch_size"@ {
            match block_batch(value) {
                Ok(n) => Ok(BlockView { max_batch_size: n, ..before }),
                Err(e) => Err(e),
            }
        } else {
            Ok(before)
        }
    } else if field == "name"@ {
        Ok(BlockView { name: Some(text::unquote(text::trim(value))), ..before })
    } else if field == "data_type"@ {
        Ok(BlockView { dtype: Some(text::unquote(text::trim(value))), ..before })
    } else if field == "dims"@ {
        match block_dims(value, raw) {
            Ok(dims) => Ok(BlockView { dims: Some(dims), ..before }),
            Err(e) => Err(e),
        }
    } else {
        Ok(before)
    }
}

/// What closing the open block declares: a tensor with the fields seen in the
/// block, of datatype `FP32` where none is given.
pub open spec fn block_close(before: BlockView) -> Result<BlockView, Seq<char>> {
    match before.block {
        None => Err("stray '}'"@),
        Some(is_input) => match before.name {
            None => Err("block missing name"@),
            Some(name) => match before.dims {
                None => Err("input/output '"@ + name + "' missing dims"@),
                Some(dims) => {
                    let dtype = match before.dtype {
                        Some(declared) => declared,
                        None => "FP32"@,
                    };
                    let spec = TensorSpecView { name, dtype, dims };
                    if dtype::spec_fixed_width(dtype) is None {
                        Err("unsupported data_type '"@ + dtype + "' for '"@ + name + "'"@)
                    } else if is_input {
                        Ok(
                            BlockView {
                                inputs: before.inputs.push(spec),
                                block: None,
                                name: None,
                                dtype: None,
                                dims: None,
                                ..before
                            },
                        )
                    } else {
                        Ok(
                            BlockView {
                                outputs: before.outputs.push(spec),
                                block: None,
                                name: None,
                                dtype: None,
                                dims: None,
                                ..before
                            },
                        )
                    }
                },
            },
        },
    }
}

/// How many characters stand before the first one that is white or a `}`.
pub open spec fn bare_len(s: Seq<char>) -> nat
    decreases s.len(),
{
    if s.len() == 0 || text::is_white(s[0]) || s[0] == '}' {
        0
    } else {
        1 + bare_len(s.skip(1))
    }
}

/// How long the value at the start of `s` is: to the closing quote of a quoted
/// value, to the closing bracket of a list, else to the next white space or `}`.
/// A quote or bracket that is not closed extends to the end.
pub open spec fn value_len(s: Seq<char>) -> nat {
    if s.len() > 0 && s[0] == '"' {
        let n = text::find(s.skip(1), '"') + 2;
        if n <= s.len() {
            n
        } else {
            s.len()
        }
    } else if s.len() > 0 && s[0] == '[' {
        let n = text::find(s, ']') + 1;
        if n <= s.len() {
            n
        } else {
            s.len()
        }
    } else {
        bare_len(s)
    }
}

/// What a block declares whose fields and closing `}` all follow the `{` on one
/// line; nothing where what follows is no such block.
pub open spec fn block_inline(before: BlockView, body: Seq<char>, raw: Seq<char>) -> Option<
    BlockView,
>
    decreases body.len(),
    via block_inline_decreases
{
    let rest = text::trim_start(body);
    let colon = text::find(rest, ':');
    if rest.len() == 0 {
        None
    } else if rest[0] == '}' {
        match block_close(before) {
            Ok(after) if text::trim(rest.skip(1)).len() == 0 => Some(after),
            _ => None,
        }
    } else if colon >= rest.len() {
        None
    } else {
        let after = text::trim_start(rest.skip(colon as int + 1));
        let n = value_len(after);
        match block_field(before, text::trim(rest.take(colon as int)), after.take(n as int), raw) {
            Err(_) => None,
            Ok(next) => block_inline(next, after.skip(n as int), raw),
        }
    }
}

/// A block that was opened, with nothing declared in it yet.
pub open spec fn block_opened(before: BlockView, is_input: bool) -> BlockView {
    BlockView { block: Some(is_input), name: None, dtype: None, dims: None, ..before }
}

/// [`value_len`] does not exceed the length.
pub proof fn lemma_value_len(s: Seq<char>)
    ensures
        value_len(s) <= s.len(),
{
    lemma_bare_len(s);
}

proof fn lemma_bare_len(s: Seq<char>)
    ensures
        bare_len(s) <= s.len(),
    decreases s.len(),
{
    if s.len() > 0 {
        lemma_bare_len(s.skip(1));
    }
}

#[via_fn]
proof fn block_inline_decreases(before: BlockView, body: Seq<char>, raw: Seq<char>) {
    let rest = text::trim_start(body);
    let colon = text::find(rest, ':');
    text::lemma_trim_start(body);
    text::lemma_find(rest, ':');
    if colon < rest.len() {
        let after = text::trim_start(rest.skip(colon as int + 1));
        text::lemma_trim_start(rest.skip(colon as int + 1));
        lemma_value_len(after);
    }
}

/// What a line of the block form declares on top of `before`.
pub open spec fn block_line(before: BlockView, raw: Seq<char>) -> Result<BlockView, Seq<char>> {
    let line = content(raw);
    let colon = text::find(line, ':');
    if line.len() == 0 {
        Ok(before)
    } else if let Some((is_input, body)) = opening(line) {
        if before.block is Some {
            Err("nested/unclosed block"@)
        } else {
            let opened = block_opened(before, is_input);
            match block_inline(opened, body, raw) {
                Some(closed) => Ok(closed),
                None => Ok(opened),
            }
        }
    } else if line == "}"@ {
        block_close(before)
    } else if colon >= line.len() {
        Err(block_bad_line(raw))
    } else {
        block_field(before, text::trim(line.take(colon as int)), line.skip(colon as int + 1), raw)
    }
}

/// What the lines of the block form declare, or the sentence that refuses the
/// first bad one.
pub open spec fn block_lines(all: Seq<Seq<char>>) -> Result<BlockView, Seq<char>>
    decreases all.len(),
{
    if all.len() == 0 {
        Ok(block_start())
    } else {
        match block_lines(all.drop_last()) {
            Err(e) => Err(e),
            Ok(before) => block_line(before, all.last()),
        }
    }
}

/// The contract that the block form declares, or the sentence that refuses it.
pub open spec fn block_contract(contents: Seq<char>, path: Seq<char>) -> Result<
    ContractView,
    Seq<char>,
> {
    match block_lines(text::lines(contents)) {
        Err(e) => Err(e + " in "@ + path),
        Ok(fields) => if fields.block is Some {
            Err("unclosed block"@ + " in "@ + path)
        } else if fields.inputs.len() == 0 || fields.outputs.len() == 0 {
            Err("multi-tensor model needs at least one input and one output"@ + " in "@ + path)
        } else {
            Ok(
                ContractView {
                    inputs: fields.inputs,
                    outputs: fields.outputs,
                    max_batch_size: fields.max_batch_size,
                    strict_output_dtype: true,
                },
            )
        },
    }
}

fn block_dim_message(fault: DimFault) -> (r: String)
    ensures
        r@ == block_dim_fault(fault@),
{
    match fault {
        DimFault::Unreadable(text, cause) => cat4(
            "bad dim '",
            text.as_str(),
            "': ",
            cause.message(),
        ),
        DimFault::OutOfRange => "dims must be positive or -1".to_string(),
    }
}

/// Reads the dimensions of a block.
fn parse_block_dims(value: &[char], raw: &[char]) -> (r: Result<Vec<i64>, String>)
    ensures
        match r {
            Ok(dims) => block_dims(value@, raw@) == Ok::<Seq<i64>, Seq<char>>(dims@),
            Err(e) => block_dims(value@, raw@) == Err::<Seq<i64>, Seq<char>>(e@),
        },
{
    match between_brackets(trimmed(value)) {
        None => {
            let line = string_of(raw);
            Err(cat3("dims must be bracketed: '", line.as_str(), "'"))
        },
        Some(inner) => {
            let parts = filled_parts(inner);
            match read_dims(&parts) {
                Err(fault) => Err(block_dim_message(fault)),
                Ok(dims) => {
                    if dims.len() == 0 {
                        Err("dims must be non-empty".to_string())
                    } else {
                        Ok(dims)
                    }
                },
            }
        },
    }
}

/// Reads the largest batch in the block form.
fn parse_block_batch(value: &[char]) -> (r: Result<i64, String>)
    ensures
        match r {
            Ok(n) => block_batch(value@) == Ok::<i64, Seq<char>>(n),
            Err(e) => block_batch(value@) == Err::<i64, Seq<char>>(e@),
        },
{
    match parse_i64(trimmed(value)) {
        Err(fault) => Err(cat2("bad max_batch_size: ", fault.message())),
        Ok(n) => {
            if n < 0 {
                Err("max_batch_size must be >= 0".to_string())
            } else {
                Ok(n)
            }
        },
    }
}

/// Applies one field of the block form.
fn apply_block_field(fields: &mut BlockFields, field: &[char], value: &[char], raw: &[char]) -> (r:
    Result<(), String>)
    ensures
        match r {
            Ok(_) => block_field(old(fields)@, field@, value@, raw@) == Ok::<BlockView, Seq<char>>(
                final(fields)@,
            ),
            Err(e) => {
                &&& block_field(old(fields)@, field@, value@, raw@) == Err::<BlockView, Seq<char>>(
                    e@,
                )
                &&& final(fields)@ == old(fields)@
            },
        },
{
    if fields.block.is_none() {
        if is_word(field, "max_batch_size") {
            match parse_block_batch(value) {
                Ok(n) => {
                    fields.max_batch_size = n;
                },
                Err(e) => {
                    return Err(e);
                },
            }
        }
    } else if is_word(field, "name") {
        fields.name = Some(string_of(unquoted(trimmed(value))));
    } else if is_word(field, "data_type") {
        fields.dtype = Some(string_of(unquoted(trimmed(value))));
    } else if is_word(field, "dims") {
        match parse_block_dims(value, raw) {
            Ok(dims) => {
                fields.dims = Some(dims);
            },
            Err(e) => {
                return Err(e);
            },
        }
    }
    Ok(())
}

/// Whether only the open block differs.
spec fn same_apart_from_block(a: BlockView, b: BlockView) -> bool {
    block_opened(a, true) == block_opened(b, true)
}

/// Closes the open block.
fn close_block(fields: &mut BlockFields) -> (r: Result<(), String>)
    ensures
        match r {
            Ok(_) => block_close(old(fields)@) == Ok::<BlockView, Seq<char>>(final(fields)@),
            Err(e) => {
                &&& block_close(old(fields)@) == Err::<BlockView, Seq<char>>(e@)
                &&& same_apart_from_block(old(fields)@, final(fields)@)
            },
        },
{
    let is_input = match fields.block {
        None => {
            return Err("stray '}'".to_string());
        },
        Some(kind) => kind,
    };
    let name = match fields.name.take() {
        None => {
            return Err("block missing name".to_string());
        },
        Some(name) => name,
    };
    let dims = match fields.dims.take() {
        None => {
            return Err(cat3("input/output '", name.as_str(), "' missing dims"));
        },
        Some(dims) => dims,
    };
    let dtype = match fields.dtype.take() {
        None => "FP32".to_string(),
        Some(declared) => declared,
    };
    if kserve_fixed_width(dtype.as_str()).is_none() {
        return Err(
            cat5("unsupported data_type '", dtype.as_str(), "' for '", name.as_str(), "'"),
        );
    }
    let spec = TensorSpec { name, dtype, dims };
    if is_input {
        let ghost before = fields.inputs@;
        fields.inputs.push(spec);
        assert(contract::spec_views(fields.inputs@) =~= contract::spec_views(before).push(spec@));
    } else {
        let ghost before = fields.outputs@;
        fields.outputs.push(spec);
        assert(contract::spec_views(fields.outputs@) =~= contract::spec_views(before).push(spec@));
    }
    fields.block = None;
    Ok(())
}

fn bare_end(s: &[char]) -> (r: usize)
    ensures
        r == bare_len(s@),
        r <= s@.len(),
{
    let mut i: usize = 0;
    assert(s@.skip(0) =~= s@);
    while i < s.len() && !white(s[i]) && s[i] != '}'
        invariant
            i <= s@.len(),
            bare_len(s@) == i + bare_len(s@.skip(i as int)),
        decreases s@.len() - i,
    {
        assert(s@.skip(i as int).skip(1) =~= s@.skip(i + 1));
        i = i + 1;
    }
    i
}

fn value_end(s: &[char]) -> (r: usize)
    ensures
        r == value_len(s@),
        r <= s@.len(),
{
    if s.len() > 0 && s[0] == '"' {
        let inner = slice_subrange(s, 1, s.len());
        assert(inner@ =~= s@.skip(1));
        let i: usize = find_char(inner, '"');
        if i < inner.len() {
            i + 2
        } else {
            s.len()
        }
    } else if s.len() > 0 && s[0] == '[' {
        let i: usize = find_char(s, ']');
        if i < s.len() {
            i + 1
        } else {
            s.len()
        }
    } else {
        bare_end(s)
    }
}

fn bad_line_message(raw: &[char]) -> (r: String)
    ensures
        r@ == block_bad_line(raw@),
{
    let line = string_of(raw);
    cat3("invalid line '", line.as_str(), "'")
}

/// Reads what follows the `{` of a line as the rest of a whole block.
fn apply_block_inline(fields: &mut BlockFields, body: &[char], raw: &[char]) -> (r: bool)
    requires
        old(fields)@.block is Some,
    ensures
        match block_inline(old(fields)@, body@, raw@) {
            Some(closed) => r && final(fields)@ == closed,
            None => !r && same_apart_from_block(old(fields)@, final(fields)@),
        },
    decreases body@.len(),
{
    let rest = trimmed_start(body);
    proof {
        text::lemma_trim_start(body@);
    }
    if rest.len() == 0 {
        return false;
    }
    if rest[0] == '}' {
        let tail = slice_subrange(rest, 1, rest.len());
        assert(tail@ =~= rest@.skip(1));
        return trimmed(tail).len() == 0 && close_block(fields).is_ok();
    }
    let colon: usize = find_char(rest, ':');
    if colon == rest.len() {
        return false;
    }
    let head = slice_subrange(rest, 0, colon);
    let tail = slice_subrange(rest, colon + 1, rest.len());
    proof {
        assert(head@ =~= rest@.take(colon as int));
        assert(tail@ =~= rest@.skip(colon as int + 1));
        text::lemma_trim_start(tail@);
    }
    let after = trimmed_start(tail);
    let n: usize = value_end(after);
    let value = slice_subrange(after, 0, n);
    let next = slice_subrange(after, n, after.len());
    proof {
        assert(value@ =~= after@.take(n as int));
        assert(next@ =~= after@.skip(n as int));
    }
    apply_block_field(fields, trimmed(head), value, raw).is_ok() && apply_block_inline(
        fields,
        next,
        raw,
    )
}

fn open_block(fields: &mut BlockFields, is_input: bool)
    ensures
        final(fields)@ == block_opened(old(fields)@, is_input),
{
    fields.block = Some(is_input);
    fields.name = None;
    fields.dtype = None;
    fields.dims = None;
}

/// Applies one line of the block form.
fn apply_block_line(fields: &mut BlockFields, raw: &[char]) -> (r: Result<(), String>)
    ensures
        match r {
            Ok(_) => block_line(old(fields)@, raw@) == Ok::<BlockView, Seq<char>>(final(fields)@),
            Err(e) => block_line(old(fields)@, raw@) == Err::<BlockView, Seq<char>>(e@),
        },
{
    let line = content_of(raw);
    if line.len() == 0 {
        return Ok(());
    }
    if let Some((is_input, body)) = opened_block(line) {
        if fields.block.is_some() {
            return Err("nested/unclosed block".to_string());
        }
        open_block(fields, is_input);
        if !apply_block_inline(fields, body, raw) {
            open_block(fields, is_input);
        }
        return Ok(());
    }
    if is_word(line, "}") {
        return close_block(fields);
    }
    let colon: usize = find_char(line, ':');
    if colon == line.len() {
        return Err(bad_line_message(raw));
    }
    let head = slice_subrange(line, 0, colon);
    let value = slice_subrange(line, colon + 1, line.len());
    proof {
        assert(head@ =~= line@.take(colon as int));
        assert(value@ =~= line@.skip(colon as int + 1));
    }
    apply_block_field(fields, trimmed(head), value, raw)
}

proof fn lemma_block_lines_fault(all: Seq<Seq<char>>, k: int)
    requires
        0 <= k <= all.len(),
        block_lines(all.take(k)) is Err,
    ensures
        block_lines(all) == block_lines(all.take(k)),
    decreases all.len() - k,
{
    if k == all.len() {
        assert(all.take(k) =~= all);
    } else {
        assert(all.take(k + 1).drop_last() =~= all.take(k));
        lemma_block_lines_fault(all, k + 1);
    }
}

/// Reads all lines of the block form.
fn read_block_fields(contents: &str) -> (r: Result<BlockFields, String>)
    ensures
        match r {
            Ok(fields) => block_lines(text::lines(contents@)) == Ok::<BlockView, Seq<char>>(fields@),
            Err(e) => block_lines(text::lines(contents@)) == Err::<BlockView, Seq<char>>(e@),
        },
{
    let text = chars_of(contents);
    let all = split_lines(text.as_slice());
    let ghost every = text::pieces(all@);
    let mut fields = BlockFields {
        inputs: Vec::new(),
        outputs: Vec::new(),
        max_batch_size: 0,
        block: None,
        name: None,
        dtype: None,
        dims: None,
    };
    let mut i: usize = 0;
    assert(every.take(0) =~= Seq::empty());
    assert(fields@ =~= block_start());
    while i < all.len()
        invariant
            i <= all@.len(),
            every == text::pieces(all@),
            every == text::lines(contents@),
            block_lines(every.take(i as int)) == Ok::<BlockView, Seq<char>>(fields@),
        decreases all@.len() - i,
    {
        proof {
            assert(every.take(i + 1).drop_last() =~= every.take(i as int));
            assert(every.take(i + 1).last() == all@[i as int]@);
        }
        match apply_block_line(&mut fields, all[i]) {
            Err(e) => {
                proof {
                    lemma_block_lines_fault(every, i + 1);
                }
                return Err(e);
            },
            Ok(_) => {},
        }
        i = i + 1;
    }
    assert(every.take(i as int) =~= every);
    Ok(fields)
}

/// Reads the block form into a contract.
fn parse_multi(contents: &str, path: &str) -> (r: Result<Contract, String>)
    ensures
        match r {
            Ok(contract) => block_contract(contents@, path@) == Ok::<ContractView, Seq<char>>(
                contract@,
            ),
            Err(e) => block_contract(contents@, path@) == Err::<ContractView, Seq<char>>(e@),
        },
{
    match read_block_fields(contents) {
        Err(e) => Err(cat3(e.as_str(), " in ", path)),
        Ok(fields) => {
            if fields.block.is_some() {
                return Err(cat3("unclosed block", " in ", path));
            }
            if fields.inputs.len() == 0 || fields.outputs.len() == 0 {
                return Err(
                    cat3(
                        "multi-tensor model needs at least one input and one output",
                        " in ",
                        path,
                    ),
                );
            }
            Ok(
                Contract {
                    inputs: fields.inputs,
                    outputs: fields.outputs,
                    max_batch_size: fields.max_batch_size,
                    strict_output_dtype: true,
                },
            )
        },
    }
}

impl TextFile {
    /// The contract that the file declares, or why it declares none.
    pub open spec fn declares(self) -> Result<ContractView, StatusView> {
        let outcome = match self.contents {
            Err(cause) => Err(unreadable(self.path@, cause@)),
            Ok(contents) => if is_block_form(contents@) {
                block_contract(contents@, self.path@)
            } else {
                flat_contract(contents@, self.path@)
            },
        };
        match outcome {
            Ok(contract) => Ok(contract),
            Err(e) => Err((Code::FailedPrecondition, e)),
        }
    }
}

impl Contract {
    /// Reads a model's `model_inference.textproto`.
    pub fn parse(file: &TextFile) -> (r: Result<Contract, Status>)
        ensures
            match r {
                Ok(contract) => file.declares() == Ok::<ContractView, StatusView>(contract@),
                Err(e) => file.declares() == Err::<ContractView, StatusView>(e@),
            },
    {
        let multi = textproto_is_multi(file);
        let outcome = match &file.contents {
            Err(cause) => Err(
                cat4("failed to read ", file.path.as_str(), ": ", cause.as_str()),
            ),
            Ok(contents) => if multi {
                parse_multi(contents.as_str(), file.path.as_str())
            } else {
                parse_flat(contents.as_str(), file.path.as_str())
            },
        };
        match outcome {
            Ok(contract) => Ok(contract),
            Err(e) => Err(Status::failed_precondition(e)),
        }
    }
}

/// Whether a tensor is declared as it must be: with dimensions, each positive or
/// `-1`, and a datatype of fixed width.
pub open spec fn spec_well_formed(spec: TensorSpecView) -> bool {
    &&& spec.dims.len() > 0
    &&& forall|i: int| 0 <= i < spec.dims.len() ==> dim_ok(#[trigger] spec.dims[i])
    &&& dtype::spec_fixed_width(spec.dtype) is Some
}

/// Whether all tensors of a list are declared as they must be.
pub open spec fn specs_well_formed(specs: Seq<TensorSpecView>) -> bool {
    forall|i: int| 0 <= i < specs.len() ==> spec_well_formed(#[trigger] specs[i])
}

/// What holds of every contract read from a file: well-formed tensors and a
/// batch maximum that is not negative; inputs and outputs in the block form; at
/// most one `input`, at most one `output`, and at least one of them in the flat
/// form.
pub open spec fn contract_well_formed(c: ContractView) -> bool {
    &&& specs_well_formed(c.inputs)
    &&& specs_well_formed(c.outputs)
    &&& c.max_batch_size >= 0
    &&& if c.strict_output_dtype {
        c.inputs.len() > 0 && c.outputs.len() > 0
    } else {
        &&& c.inputs.len() <= 1 && c.outputs.len() <= 1
        &&& c.inputs.len() + c.outputs.len() > 0
        &&& c.inputs.len() == 1 ==> c.inputs[0].name == "input"@
        &&& c.outputs.len() == 1 ==> c.outputs[0].name == "output"@
        &&& c.inputs.len() == 1 && c.outputs.len() == 1 ==> c.inputs[0].dtype == c.outputs[0].dtype
    }
}

proof fn lemma_declared_dims_ok(parts: Seq<Seq<char>>)
    ensures
        declared_dims(parts) matches Ok(dims) ==> dims.len() == parts.len() && forall|i: int|
            0 <= i < dims.len() ==> dim_ok(#[trigger] dims[i]),
    decreases parts.len(),
{
    if parts.len() > 0 {
        lemma_declared_dims_ok(parts.drop_last());
    }
}

/// Whether a list of dimensions, where there is one, is as it must be.
spec fn dims_ok(dims: Option<Seq<i64>>) -> bool {
    dims matches Some(d) ==> d.len() > 0 && forall|i: int| 0 <= i < d.len() ==> dim_ok(#[trigger] d[i])
}

spec fn flat_ok(fields: FlatView) -> bool {
    &&& dims_ok(fields.input)
    &&& dims_ok(fields.output)
    &&& fields.max_batch_size >= 0
    &&& fields.dtype matches Some(d) ==> dtype::spec_fixed_width(d) is Some
}

proof fn lemma_flat_shape_ok(field: Seq<char>, value: Seq<char>, raw: Seq<char>, path: Seq<char>)
    ensures
        flat_shape(field, value, raw, path) matches Ok(dims) ==> dims_ok(Some(dims)),
{
    if let Some(inner) = bracketed(text::trim(value)) {
        lemma_declared_dims_ok(filled(text::split(text::trim(inner), ',')));
    }
}

proof fn lemma_flat_lines_ok(all: Seq<Seq<char>>, path: Seq<char>, typed: bool)
    ensures
        flat_lines(all, path, typed) matches Ok(fields) ==> flat_ok(fields),
    decreases all.len(),
{
    if all.len() > 0 {
        lemma_flat_lines_ok(all.drop_last(), path, typed);
        let line = content(all.last());
        let value = line.skip(text::find(line, ':') as int + 1);
        lemma_flat_shape_ok("input_shape"@, value, all.last(), path);
        lemma_flat_shape_ok("output_shape"@, value, all.last(), path);
        number::law_parsed_in_range(text::trim(value), i64::MIN as int, i64::MAX as int);
    }
}

spec fn block_ok(fields: BlockView) -> bool {
    &&& specs_well_formed(fields.inputs)
    &&& specs_well_formed(fields.outputs)
    &&& dims_ok(fields.dims)
    &&& fields.max_batch_size >= 0
}

proof fn lemma_block_field_ok(before: BlockView, field: Seq<char>, value: Seq<char>, raw: Seq<char>)
    requires
        block_ok(before),
    ensures
        block_field(before, field, value, raw) matches Ok(after) ==> block_ok(after),
{
    number::law_parsed_in_range(text::trim(value), i64::MIN as int, i64::MAX as int);
    if let Some(inner) = bracketed(text::trim(value)) {
        lemma_declared_dims_ok(filled(text::split(inner, ',')));
    }
}

proof fn lemma_block_close_ok(before: BlockView)
    requires
        block_ok(before),
    ensures
        block_close(before) matches Ok(after) ==> block_ok(after),
{
}

proof fn lemma_block_inline_ok(before: BlockView, body: Seq<char>, raw: Seq<char>)
    requires
        block_ok(before),
    ensures
        block_inline(before, body, raw) matches Some(after) ==> block_ok(after),
    decreases body.len(),
{
    let rest = text::trim_start(body);
    let colon = text::find(rest, ':');
    text::lemma_trim_start(body);
    text::lemma_find(rest, ':');
    lemma_block_close_ok(before);
    if rest.len() > 0 && rest[0] != '}' && colon < rest.len() {
        let after = text::trim_start(rest.skip(colon as int + 1));
        let n = value_len(after);
        text::lemma_trim_start(rest.skip(colon as int + 1));
        lemma_value_len(after);
        let field = text::trim(rest.take(colon as int));
        lemma_block_field_ok(before, field, after.take(n as int), raw);
        if let Ok(next) = block_field(before, field, after.take(n as int), raw) {
            lemma_block_inline_ok(next, after.skip(n as int), raw);
        }
    }
}

proof fn lemma_block_lines_ok(all: Seq<Seq<char>>)
    ensures
        block_lines(all) matches Ok(fields) ==> block_ok(fields),
    decreases all.len(),
{
    if all.len() > 0 {
        lemma_block_lines_ok(all.drop_last());
        if let Ok(before) = block_lines(all.drop_last()) {
            let raw = all.last();
            let line = content(raw);
            let colon = text::find(line, ':');
            if let Some((is_input, body)) = opening(line) {
                lemma_block_inline_ok(block_opened(before, is_input), body, raw);
            }
            lemma_block_close_ok(before);
            lemma_block_field_ok(
                before,
                text::trim(line.take(colon as int)),
                line.skip(colon as int + 1),
                raw,
            );
        }
    }
}

/// Every contract that is read from a file is well-formed.
pub proof fn law_parsed_contract_well_formed(file: TextFile)
    ensures
        file.declares() matches Ok(contract) ==> contract_well_formed(contract),
{
    if let Ok(contents) = file.contents {
        lemma_flat_lines_ok(text::lines(contents@), file.path@, true);
        lemma_block_lines_ok(text::lines(contents@));
    }
}

/// A blank line, or one with only a comment, declares nothing wherever it
/// stands, in either form.
pub proof fn law_blank_lines_do_not_count(
    above: Seq<Seq<char>>,
    blank: Seq<char>,
    below: Seq<Seq<char>>,
    path: Seq<char>,
    typed: bool,
)
    requires
        content(blank).len() == 0,
    ensures
        flat_lines(above + seq![blank] + below, path, typed) == flat_lines(
            above + below,
            path,
            typed,
        ),
        block_lines(above + seq![blank] + below) == block_lines(above + below),
    decreases below.len(),
{
    let with = above + seq![blank] + below;
    let without = above + below;
    if below.len() == 0 {
        assert(with.drop_last() =~= without);
        assert(with.last() == blank);
    } else {
        assert(with.drop_last() =~= above + seq![blank] + below.drop_last());
        assert(without.drop_last() =~= above + below.drop_last());
        assert(with.last() == without.last());
        law_blank_lines_do_not_count(above, blank, below.drop_last(), path, typed);
    }
}

} // verus!
