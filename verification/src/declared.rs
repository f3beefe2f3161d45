//! What the lines of a `model_inference.textproto` declare, in terms of the lines
//! themselves: each field is that of the last line which names it, and no line
//! declares a field that it does not name.

use vstd::prelude::*;

use crate::contract::TensorSpecView;
use crate::dtype;
use crate::number;
use crate::number::IntFault;
use crate::status::Code;
use crate::text;
use crate::textproto;
use crate::textproto::{BlockView, FlatView, TextFile};
use crate::wording;

verus! {

/// What counts of a line: what stands before the first `#`, trimmed.
pub open spec fn counted(raw: Seq<char>) -> Seq<char> {
    text::trim(raw.take(text::find(raw, '#') as int))
}

/// What a line says of a field: what stands behind its first colon, trimmed, where
/// what stands before the colon is the name of the field.
pub open spec fn says(raw: Seq<char>, field: Seq<char>) -> Option<Seq<char>> {
    let line = counted(raw);
    let colon = text::find(line, ':') as int;
    if colon < line.len() && text::trim(line.take(colon)) == field {
        Some(text::trim(line.skip(colon + 1)))
    } else {
        None
    }
}

/// Whether no line says anything of a field.
pub open spec fn unsaid(all: Seq<Seq<char>>, field: Seq<char>) -> bool {
    forall|i: int| 0 <= i < all.len() ==> says(#[trigger] all[i], field) is None
}

/// Whether a value is what the last line which says anything of a field says of it.
pub open spec fn said_last(all: Seq<Seq<char>>, field: Seq<char>, value: Seq<char>) -> bool {
    exists|k: int|
        0 <= k < all.len() && says(#[trigger] all[k], field) == Some(value) && unsaid(
            all.skip(k + 1),
            field,
        )
}

/// The parts of a list: what stands between its commas, trimmed, but for blanks.
pub open spec fn parts(inner: Seq<char>) -> Seq<Seq<char>> {
    text::split(inner, ',').map_values(|p: Seq<char>| text::trim(p)).filter(
        |p: Seq<char>| p.len() > 0,
    )
}

/// Whether a value is a list in brackets.
pub open spec fn is_list(value: Seq<char>) -> bool {
    value.len() >= 2 && value[0] == '[' && value.last() == ']'
}

/// What stands in the brackets of a list.
pub open spec fn inside(value: Seq<char>) -> Seq<char> {
    value.subrange(1, value.len() - 1)
}

/// Whether the parts of a list write the given dimensions.
pub open spec fn lists(parts: Seq<Seq<char>>, dims: Seq<i64>) -> bool {
    &&& dims.len() == parts.len()
    &&& dims.len() > 0
    &&& forall|i: int| 0 <= i < dims.len() ==> wording::writes(parts[i], #[trigger] dims[i] as int)
    &&& forall|i: int| 0 <= i < dims.len() ==> #[trigger] dims[i] > 0 || dims[i] == -1
}

/// Whether a text writes a dimension: a positive number, or `-1`.
pub open spec fn writes_dim(part: Seq<char>) -> bool {
    exists|n: int|
        #[trigger] wording::writes(part, n) && n <= i64::MAX && (n > 0 || n == -1)
}

/// Whether a value is a list of dimensions in brackets.
pub open spec fn lists_some(value: Seq<char>, parts: Seq<Seq<char>>) -> bool {
    &&& is_list(value)
    &&& parts.len() > 0
    &&& forall|i: int| 0 <= i < parts.len() ==> writes_dim(#[trigger] parts[i])
}

/// Whether a value writes a batch maximum.
pub open spec fn writes_batch(value: Seq<char>) -> bool {
    exists|n: int| #[trigger] wording::writes(value, n) && 0 <= n <= i64::MAX
}

proof fn lemma_filled(pieces: Seq<Seq<char>>)
    ensures
        textproto::filled(pieces) == pieces.map_values(|p: Seq<char>| text::trim(p)).filter(
            |p: Seq<char>| p.len() > 0,
        ),
    decreases pieces.len(),
{
    reveal(Seq::filter);
    let trimmed = pieces.map_values(|p: Seq<char>| text::trim(p));
    if pieces.len() > 0 {
        lemma_filled(pieces.drop_last());
        assert(trimmed.drop_last() =~= pieces.drop_last().map_values(
            |p: Seq<char>| text::trim(p),
        ));
        assert(trimmed.last() == text::trim(pieces.last()));
    }
}

proof fn lemma_dims(parts: Seq<Seq<char>>)
    ensures
        textproto::declared_dims(parts) is Ok <==> forall|i: int|
            0 <= i < parts.len() ==> writes_dim(#[trigger] parts[i]),
        textproto::declared_dims(parts) matches Ok(dims) ==> dims.len() == parts.len() && (dims.len()
            > 0 ==> lists(parts, dims)),
    decreases parts.len(),
{
    if parts.len() > 0 {
        let front = parts.drop_last();
        lemma_dims(front);
        let last = parts.last();
        let read = number::parse_int(last, i64::MIN as int, i64::MAX as int);
        assert forall|n: int|
            read == Ok::<int, IntFault>(n) <==> #[trigger] wording::writes(last, n) && i64::MIN <= n
                <= i64::MAX by {
            wording::law_numbers(last, i64::MIN as int, i64::MAX as int, n);
        }
        if let Ok(n) = read {
            assert(wording::writes(last, n));
            if textproto::dim_ok(n as i64) {
                assert(writes_dim(last));
            } else if writes_dim(last) {
                let m = choose|m: int|
                    #[trigger] wording::writes(last, m) && m <= i64::MAX && (m > 0 || m == -1);
                assert(read == Ok::<int, IntFault>(m));
            }
        } else if writes_dim(last) {
            let m = choose|m: int|
                #[trigger] wording::writes(last, m) && m <= i64::MAX && (m > 0 || m == -1);
            assert(read == Ok::<int, IntFault>(m));
        }
        if forall|i: int| 0 <= i < parts.len() ==> writes_dim(#[trigger] parts[i]) {
            assert forall|i: int| 0 <= i < front.len() implies writes_dim(#[trigger] front[i]) by {
                assert(writes_dim(parts[i]));
            }
            assert(writes_dim(parts[parts.len() - 1]));
        }
        if let Ok(dims) = textproto::declared_dims(parts) {
            let before = textproto::declared_dims(front)->Ok_0;
            assert forall|i: int| 0 <= i < dims.len() implies wording::writes(
                parts[i],
                #[trigger] dims[i] as int,
            ) && (dims[i] > 0 || dims[i] == -1) by {
                if i < before.len() {
                    assert(dims[i] == before[i]);
                    assert(wording::writes(front[i], before[i] as int));
                }
            }
            assert forall|i: int| 0 <= i < parts.len() implies writes_dim(#[trigger] parts[i]) by {
                if i < front.len() {
                    assert(writes_dim(front[i]));
                }
            }
        }
    }
}

proof fn lemma_batch(value: Seq<char>, path: Seq<char>)
    ensures
        textproto::flat_batch(value, path) is Ok <==> writes_batch(text::trim(value)),
        textproto::flat_batch(value, path) matches Ok(n) ==> wording::writes(
            text::trim(value),
            n as int,
        ) && n >= 0,
        textproto::block_batch(value) is Ok <==> writes_batch(text::trim(value)),
        textproto::block_batch(value) matches Ok(n) ==> wording::writes(
            text::trim(value),
            n as int,
        ) && n >= 0,
{
    let given = text::trim(value);
    let read = number::parse_int(given, i64::MIN as int, i64::MAX as int);
    assert forall|n: int|
        read == Ok::<int, IntFault>(n) <==> #[trigger] wording::writes(given, n) && i64::MIN <= n
            <= i64::MAX by {
        wording::law_numbers(given, i64::MIN as int, i64::MAX as int, n);
    }
    if let Ok(n) = read {
        assert(wording::writes(given, n));
    }
    if writes_batch(given) {
        let m = choose|m: int| #[trigger] wording::writes(given, m) && 0 <= m <= i64::MAX;
        assert(read == Ok::<int, IntFault>(m));
    }
}

/// The parts of a shape in the flat form.
pub open spec fn flat_parts(value: Seq<char>) -> Seq<Seq<char>> {
    parts(text::trim(inside(value)))
}

proof fn lemma_shape(field: Seq<char>, value: Seq<char>, raw: Seq<char>, path: Seq<char>)
    ensures
        textproto::flat_shape(field, value, raw, path) is Ok <==> lists_some(
            text::trim(value),
            flat_parts(text::trim(value)),
        ),
        textproto::flat_shape(field, value, raw, path) matches Ok(dims) ==> lists(
            flat_parts(text::trim(value)),
            dims,
        ),
{
    let given = text::trim(value);
    lemma_filled(text::split(text::trim(inside(given)), ','));
    lemma_dims(flat_parts(given));
}

/// Whether a line may stand in the flat form: it is blank, or it has a colon and
/// what it says of a field can be said of that field.
pub open spec fn may_stand(raw: Seq<char>, typed: bool) -> bool {
    let line = counted(raw);
    line.len() > 0 ==> {
        &&& !wording::lacks(line, ':')
        &&& says(raw, "input_shape"@) matches Some(value) ==> lists_some(value, flat_parts(value))
        &&& says(raw, "output_shape"@) matches Some(value) ==> lists_some(value, flat_parts(value))
        &&& typed ==> (says(raw, "data_type"@) matches Some(value) ==> dtype::spec_fixed_width(
            text::unquote(value),
        ) is Some)
        &&& says(raw, "max_batch_size"@) matches Some(value) ==> writes_batch(value)
    }
}

proof fn lemma_fields_differ()
    ensures
        "input_shape"@ != "output_shape"@,
        "input_shape"@ != "data_type"@,
        "input_shape"@ != "max_batch_size"@,
        "output_shape"@ != "data_type"@,
        "output_shape"@ != "max_batch_size"@,
        "data_type"@ != "max_batch_size"@,
        "name"@ != "data_type"@,
        "name"@ != "dims"@,
        "dims"@ != "data_type"@,
{
    reveal_strlit("input_shape");
    reveal_strlit("output_shape");
    reveal_strlit("data_type");
    reveal_strlit("max_batch_size");
    reveal_strlit("name");
    reveal_strlit("dims");
    assert("input_shape"@.len() == 11);
    assert("output_shape"@.len() == 12);
    assert("data_type"@.len() == 9);
    assert("max_batch_size"@.len() == 14);
    assert("name"@[0] == 'n');
    assert("dims"@[0] == 'd');
}

proof fn lemma_colon(line: Seq<char>)
    ensures
        text::find(line, ':') < line.len() <==> !wording::lacks(line, ':'),
{
    text::lemma_find(line, ':');
    let colon = text::find(line, ':') as int;
    if colon < line.len() {
        assert(line[colon] == ':');
    }
}

proof fn lemma_line(before: FlatView, raw: Seq<char>, path: Seq<char>, typed: bool)
    ensures
        textproto::flat_line(before, raw, path, typed) is Ok <==> may_stand(raw, typed),
        textproto::flat_line(before, raw, path, typed) matches Ok(after) ==> {
            &&& says(raw, "input_shape"@) is None ==> after.input == before.input
            &&& says(raw, "output_shape"@) is None ==> after.output == before.output
            &&& says(raw, "data_type"@) is None || !typed ==> after.dtype == before.dtype
            &&& says(raw, "max_batch_size"@) is None ==> after.max_batch_size
                == before.max_batch_size
            &&& says(raw, "input_shape"@) matches Some(value) ==> (after.input matches Some(dims)
                && lists(flat_parts(value), dims))
            &&& says(raw, "output_shape"@) matches Some(value) ==> (after.output matches Some(dims)
                && lists(flat_parts(value), dims))
            &&& typed ==> (says(raw, "data_type"@) matches Some(value) ==> after.dtype == Some(
                text::unquote(value),
            ))
            &&& says(raw, "max_batch_size"@) matches Some(value) ==> wording::writes(
                value,
                after.max_batch_size as int,
            ) && after.max_batch_size >= 0
        },
{
    lemma_fields_differ();
    let line = counted(raw);
    let colon = text::find(line, ':') as int;
    let value = line.skip(colon + 1);
    lemma_colon(line);
    lemma_shape("input_shape"@, value, raw, path);
    lemma_shape("output_shape"@, value, raw, path);
    lemma_batch(value, path);
}

/// What holds of a field that may be left out: it is not there where no line says
/// anything of it, and it is the list that the last such line writes.
pub open spec fn shape_said(all: Seq<Seq<char>>, field: Seq<char>, shape: Option<Seq<i64>>) -> bool {
    &&& shape is None <==> unsaid(all, field)
    &&& shape matches Some(dims) ==> exists|value: Seq<char>|
        #[trigger] said_last(all, field, value) && is_list(value) && lists(flat_parts(value), dims)
}

/// What holds of the batch maximum: it is zero where no line says anything of it, and
/// else the number that the last such line writes.
pub open spec fn batch_said(all: Seq<Seq<char>>, batch: i64) -> bool {
    &&& batch >= 0
    &&& unsaid(all, "max_batch_size"@) ==> batch == 0
    &&& !unsaid(all, "max_batch_size"@) ==> exists|value: Seq<char>|
        #[trigger] said_last(all, "max_batch_size"@, value) && wording::writes(value, batch as int)
}

/// What holds of the datatype: it is not there where no line says anything of it, and
/// else the name that the last such line writes.
pub open spec fn dtype_said(all: Seq<Seq<char>>, name: Option<Seq<char>>) -> bool {
    &&& name is None <==> unsaid(all, "data_type"@)
    &&& name matches Some(n) ==> exists|value: Seq<char>|
        #[trigger] said_last(all, "data_type"@, value) && n == text::unquote(value)
}

proof fn lemma_said_later(all: Seq<Seq<char>>, field: Seq<char>)
    requires
        all.len() > 0,
    ensures
        says(all.last(), field) is None ==> (unsaid(all, field) <==> unsaid(all.drop_last(), field)),
        says(all.last(), field) is Some ==> !unsaid(all, field),
        says(all.last(), field) is None ==> forall|value: Seq<char>|
            said_last(all.drop_last(), field, value) ==> #[trigger] said_last(all, field, value),
        says(all.last(), field) matches Some(value) ==> said_last(all, field, value),
{
    let front = all.drop_last();
    let n = all.len() - 1;
    if says(all.last(), field) is None {
        if unsaid(front, field) {
            assert forall|i: int| 0 <= i < all.len() implies says(#[trigger] all[i], field) is None by {
                if i < n {
                    assert(says(front[i], field) is None);
                }
            }
        }
        if unsaid(all, field) {
            assert forall|i: int| 0 <= i < front.len() implies says(
                #[trigger] front[i],
                field,
            ) is None by {
                assert(says(all[i], field) is None);
            }
        }
        assert forall|value: Seq<char>| said_last(front, field, value) implies #[trigger] said_last(
            all,
            field,
            value,
        ) by {
            let k = choose|k: int|
                0 <= k < front.len() && says(#[trigger] front[k], field) == Some(value) && unsaid(
                    front.skip(k + 1),
                    field,
                );
            let rest = all.skip(k + 1);
            assert forall|i: int| 0 <= i < rest.len() implies says(
                #[trigger] rest[i],
                field,
            ) is None by {
                if i + k + 1 < n {
                    assert(says(front.skip(k + 1)[i], field) is None);
                }
            }
            assert(says(all[k], field) == Some(value));
        }
    } else {
        assert(says(all[n], field) is Some);
        assert(unsaid(all.skip(n + 1), field));
    }
}

proof fn lemma_flat(all: Seq<Seq<char>>, path: Seq<char>, typed: bool)
    ensures
        textproto::flat_lines(all, path, typed) is Ok <==> forall|i: int|
            0 <= i < all.len() ==> may_stand(#[trigger] all[i], typed),
        textproto::flat_lines(all, path, typed) matches Ok(fields) ==> {
            &&& shape_said(all, "input_shape"@, fields.input)
            &&& shape_said(all, "output_shape"@, fields.output)
            &&& batch_said(all, fields.max_batch_size)
            &&& if typed {
                dtype_said(all, fields.dtype)
            } else {
                fields.dtype is None
            }
        },
    decreases all.len(),
{
    if all.len() > 0 {
        let front = all.drop_last();
        let last = all.last();
        lemma_flat(front, path, typed);
        if forall|i: int| 0 <= i < all.len() ==> may_stand(#[trigger] all[i], typed) {
            assert forall|i: int| 0 <= i < front.len() implies may_stand(
                #[trigger] front[i],
                typed,
            ) by {
                assert(may_stand(all[i], typed));
            }
            assert(may_stand(all[all.len() - 1], typed));
        }
        if let Ok(before) = textproto::flat_lines(front, path, typed) {
            lemma_line(before, last, path, typed);
            if may_stand(last, typed) {
                assert forall|i: int| 0 <= i < all.len() implies may_stand(
                    #[trigger] all[i],
                    typed,
                ) by {
                    if i < front.len() {
                        assert(may_stand(front[i], typed));
                    }
                }
            }
            if let Ok(after) = textproto::flat_lines(all, path, typed) {
                lemma_said_later(all, "input_shape"@);
                lemma_said_later(all, "output_shape"@);
                lemma_said_later(all, "data_type"@);
                lemma_said_later(all, "max_batch_size"@);
                lemma_shape_kept(all, "input_shape"@, before.input, after.input);
                lemma_shape_kept(all, "output_shape"@, before.output, after.output);
                if says(last, "max_batch_size"@) is None {
                    if !unsaid(front, "max_batch_size"@) {
                        let value = choose|value: Seq<char>|
                            #[trigger] said_last(front, "max_batch_size"@, value)
                                && wording::writes(value, before.max_batch_size as int);
                        assert(said_last(all, "max_batch_size"@, value));
                    }
                }
                if typed && says(last, "data_type"@) is None {
                    if let Some(name) = before.dtype {
                        let value = choose|value: Seq<char>|
                            #[trigger] said_last(front, "data_type"@, value) && name
                                == text::unquote(value);
                        assert(said_last(all, "data_type"@, value));
                    }
                }
            }
        }
    }
}

proof fn lemma_shape_kept(
    all: Seq<Seq<char>>,
    field: Seq<char>,
    before: Option<Seq<i64>>,
    after: Option<Seq<i64>>,
)
    requires
        all.len() > 0,
        shape_said(all.drop_last(), field, before),
        says(all.last(), field) is None ==> after == before,
        says(all.last(), field) matches Some(value) ==> is_list(value) && (after matches Some(dims)
            && lists(flat_parts(value), dims)),
    ensures
        shape_said(all, field, after),
{
    lemma_said_later(all, field);
    if says(all.last(), field) is None {
        if let Some(dims) = before {
            let value = choose|value: Seq<char>|
                #[trigger] said_last(all.drop_last(), field, value) && is_list(value) && lists(
                    flat_parts(value),
                    dims,
                );
            assert(said_last(all, field, value));
        }
    }
}

/// The lines of the flat form are read exactly if each of them may stand; and then
/// each field is what the last line says of it that says anything of it, and left out
/// where no line does, whatever the lines say of the other fields.
pub proof fn law_flat_fields(all: Seq<Seq<char>>, path: Seq<char>, typed: bool)
    ensures
        textproto::flat_lines(all, path, typed) is Ok <==> forall|i: int|
            0 <= i < all.len() ==> may_stand(#[trigger] all[i], typed),
        textproto::flat_lines(all, path, typed) matches Ok(fields) ==> {
            &&& shape_said(all, "input_shape"@, fields.input)
            &&& shape_said(all, "output_shape"@, fields.output)
            &&& batch_said(all, fields.max_batch_size)
            &&& if typed {
                dtype_said(all, fields.dtype)
            } else {
                fields.dtype is None
            }
        },
{
    lemma_flat(all, path, typed);
}

/// Whether two lines name different fields, or one of them none.
pub open spec fn unrelated(a: Seq<char>, b: Seq<char>) -> bool {
    forall|field: Seq<char>| says(a, field) is None || #[trigger] says(b, field) is None
}

/// Two neighbouring lines of the flat form that name different fields may change
/// places.
pub proof fn law_flat_lines_may_change_places(
    above: Seq<Seq<char>>,
    a: Seq<char>,
    b: Seq<char>,
    below: Seq<Seq<char>>,
    path: Seq<char>,
    typed: bool,
)
    requires
        unrelated(a, b),
        textproto::flat_lines(above + seq![a, b] + below, path, typed) is Ok,
    ensures
        textproto::flat_lines(above + seq![b, a] + below, path, typed) == textproto::flat_lines(
            above + seq![a, b] + below,
            path,
            typed,
        ),
    decreases below.len(),
{
    let ab = above + seq![a, b] + below;
    let ba = above + seq![b, a] + below;
    if below.len() == 0 {
        reveal_with_fuel(textproto::flat_lines, 3);
        let half_a = above + seq![a];
        let half_b = above + seq![b];
        assert(ab.drop_last() =~= half_a && ab.last() == b);
        assert(ba.drop_last() =~= half_b && ba.last() == a);
        assert(half_a.drop_last() =~= above && half_a.last() == a);
        assert(half_b.drop_last() =~= above && half_b.last() == b);
        lemma_fields_differ();
        let line_a = counted(a);
        let line_b = counted(b);
        let colon_a = text::find(line_a, ':') as int;
        let colon_b = text::find(line_b, ':') as int;
        let field_a = text::trim(line_a.take(colon_a));
        let field_b = text::trim(line_b.take(colon_b));
        if line_a.len() > 0 && line_b.len() > 0 {
            assert(says(a, field_a) is Some);
            assert(says(b, field_b) is Some);
            assert(says(a, field_a) is None || says(b, field_a) is None);
            assert(field_a != field_b);
        }
    } else {
        assert(ab.drop_last() =~= above + seq![a, b] + below.drop_last());
        assert(ba.drop_last() =~= above + seq![b, a] + below.drop_last());
        assert(ab.last() == ba.last());
        law_flat_lines_may_change_places(above, a, b, below.drop_last(), path, typed);
    }
}

/// Whether a tensor list is that of a single-tensor model: a tensor of the given name
/// and datatype with the dimensions that the last line lists, where a line does.
pub open spec fn single_said(
    all: Seq<Seq<char>>,
    field: Seq<char>,
    name: Seq<char>,
    specs: Seq<TensorSpecView>,
) -> bool {
    if unsaid(all, field) {
        specs.len() == 0
    } else {
        &&& specs.len() == 1
        &&& specs[0].name == name
        &&& exists|value: Seq<char>|
            #[trigger] said_last(all, field, value) && is_list(value) && lists(
                flat_parts(value),
                specs[0].dims,
            )
        &&& if unsaid(all, "data_type"@) {
            specs[0].dtype == "FP32"@
        } else {
            exists|value: Seq<char>|
                #[trigger] said_last(all, "data_type"@, value) && specs[0].dtype == text::unquote(
                    value,
                )
        }
    }
}

/// A file without blocks declares a single-tensor model exactly if all of its lines
/// may stand and one of them gives a shape: with an input and an output as far as
/// their shapes are given, each with its own dimensions, and with the batch maximum
/// that the lines give. Any other file is refused for what it says.
pub proof fn law_flat_file(file: TextFile, all: Seq<Seq<char>>)
    requires
        file.contents matches Ok(contents) && !textproto::is_block_form(contents@) && all
            == text::lines(contents@),
    ensures
        file.declares() is Ok <==> (forall|i: int|
            0 <= i < all.len() ==> may_stand(#[trigger] all[i], true)) && !(unsaid(
            all,
            "input_shape"@,
        ) && unsaid(all, "output_shape"@)),
        file.declares() matches Ok(contract) ==> {
            &&& single_said(all, "input_shape"@, "input"@, contract.inputs)
            &&& single_said(all, "output_shape"@, "output"@, contract.outputs)
            &&& batch_said(all, contract.max_batch_size)
            &&& !contract.strict_output_dtype
        },
        file.declares() matches Err(status) ==> status.0 == Code::FailedPrecondition,
{
    lemma_flat(all, file.path@, true);
}

/// Whether a line opens a block: it is the keyword and a `{`, with nothing but white
/// space between them, and then the given text.
pub open spec fn opens(line: Seq<char>, keyword: Seq<char>, gap: Seq<char>, rest: Seq<char>) -> bool {
    &&& line == keyword + gap + seq!['{'] + rest
    &&& forall|i: int| 0 <= i < gap.len() ==> text::is_white(#[trigger] gap[i])
}

/// The keyword of a block.
pub open spec fn keyword(is_input: bool) -> Seq<char> {
    if is_input {
        "input"@
    } else {
        "output"@
    }
}

proof fn lemma_skip_white(gap: Seq<char>, rest: Seq<char>)
    requires
        forall|i: int| 0 <= i < gap.len() ==> text::is_white(#[trigger] gap[i]),
        rest.len() > 0 ==> !text::is_white(rest[0]),
    ensures
        text::trim_start(gap + rest) == rest,
    decreases gap.len(),
{
    if gap.len() == 0 {
        assert(gap + rest =~= rest);
    } else {
        assert(text::is_white(gap[0]));
        assert((gap + rest)[0] == gap[0]);
        let fewer = gap.skip(1);
        assert forall|i: int| 0 <= i < fewer.len() implies text::is_white(#[trigger] fewer[i]) by {
            assert(text::is_white(gap[i + 1]));
        }
        assert((gap + rest).skip(1) =~= fewer + rest);
        lemma_skip_white(fewer, rest);
    }
}

proof fn lemma_white_first(s: Seq<char>) -> (gap: Seq<char>)
    ensures
        s == gap + text::trim_start(s),
        forall|i: int| 0 <= i < gap.len() ==> text::is_white(#[trigger] gap[i]),
    decreases s.len(),
{
    if s.len() > 0 && text::is_white(s[0]) {
        let below = lemma_white_first(s.skip(1));
        let gap = seq![s[0]] + below;
        assert(s =~= seq![s[0]] + s.skip(1));
        assert(s =~= gap + text::trim_start(s));
        gap
    } else {
        assert(s =~= Seq::<char>::empty() + s);
        Seq::empty()
    }
}

proof fn lemma_body(line: Seq<char>, word: Seq<char>)
    ensures
        textproto::block_body(line, word) matches Some(rest) ==> exists|gap: Seq<char>|
            #[trigger] opens(line, word, gap, rest),
{
    if let Some(rest) = textproto::block_body(line, word) {
        let tail = line.skip(word.len() as int);
        let gap = lemma_white_first(tail);
        let brace = text::trim_start(tail);
        assert(line =~= word + tail);
        assert(brace =~= seq!['{'] + rest);
        assert(line =~= word + gap + seq!['{'] + rest);
        assert(opens(line, word, gap, rest));
    }
}

proof fn lemma_body_is(line: Seq<char>, word: Seq<char>, gap: Seq<char>, rest: Seq<char>)
    requires
        opens(line, word, gap, rest),
    ensures
        textproto::block_body(line, word) == Some(rest),
{
    let tail = line.skip(word.len() as int);
    let brace = seq!['{'] + rest;
    assert(tail =~= gap + brace);
    assert(!text::is_white('{'));
    lemma_skip_white(gap, brace);
    assert(line.take(word.len() as int) =~= word);
    assert(brace.skip(1) =~= rest);
}

proof fn lemma_keywords(line: Seq<char>)
    requires
        line.len() > 0,
        line[0] == 'o',
    ensures
        textproto::block_body(line, "input"@) is None,
{
    reveal_strlit("input");
    if textproto::block_body(line, "input"@) is Some {
        assert(line.take("input"@.len() as int)[0] == 'i');
    }
}

/// A line opens a block of a kind exactly if it is the keyword of that kind and a
/// `{`, with nothing but white space between them.
pub proof fn law_opening(line: Seq<char>, is_input: bool, rest: Seq<char>)
    ensures
        textproto::opening(line) == Some((is_input, rest)) <==> exists|gap: Seq<char>|
            #[trigger] opens(line, keyword(is_input), gap, rest),
{
    lemma_body(line, "input"@);
    lemma_body(line, "output"@);
    if exists|gap: Seq<char>| #[trigger] opens(line, keyword(is_input), gap, rest) {
        let gap = choose|gap: Seq<char>| #[trigger] opens(line, keyword(is_input), gap, rest);
        lemma_body_is(line, keyword(is_input), gap, rest);
        if !is_input {
            reveal_strlit("output");
            assert(line[0] == 'o');
            lemma_keywords(line);
        }
    }
}

/// Whether a line neither opens nor closes a block, and is blank or has a colon.
pub open spec fn plain(raw: Seq<char>) -> bool {
    let line = counted(raw);
    &&& line.len() > 0 ==> !wording::lacks(line, ':')
    &&& forall|word: Seq<char>, gap: Seq<char>, rest: Seq<char>|
        #[trigger] opens(line, word, gap, rest) ==> word != "input"@ && word != "output"@
}

proof fn lemma_plain(before: BlockView, raw: Seq<char>)
    requires
        plain(raw),
        counted(raw).len() > 0,
    ensures
        ({
            let line = counted(raw);
            let colon = text::find(line, ':') as int;
            textproto::block_line(before, raw) == textproto::block_field(
                before,
                text::trim(line.take(colon)),
                line.skip(colon + 1),
                raw,
            )
        }),
{
    let line = counted(raw);
    lemma_colon(line);
    lemma_body(line, "input"@);
    lemma_body(line, "output"@);
    reveal_strlit("}");
    if line == "}"@ {
        assert(wording::lacks(line, ':'));
    }
}

/// Outside of the blocks a line can only say what the batch maximum is: it must be a
/// number, which then replaces the one before. Anything else that such a line says
/// changes nothing.
pub proof fn law_line_outside_blocks(before: BlockView, raw: Seq<char>)
    requires
        before.block is None,
        plain(raw),
    ensures
        ({
            let after = textproto::block_line(before, raw);
            match says(raw, "max_batch_size"@) {
                None => after == Ok::<BlockView, Seq<char>>(before),
                Some(value) => {
                    &&& after is Ok <==> writes_batch(value)
                    &&& after matches Ok(fields) ==> {
                        &&& wording::writes(value, fields.max_batch_size as int)
                        &&& fields.inputs == before.inputs
                        &&& fields.outputs == before.outputs
                        &&& fields.block is None
                    }
                },
            }
        }),
{
    let line = counted(raw);
    if line.len() > 0 {
        lemma_plain(before, raw);
        lemma_batch(line.skip(text::find(line, ':') as int + 1), Seq::empty());
        lemma_colon(line);
    }
}

/// What holds of a name in a block: it is not there where no line says anything of
/// it, and else the name that the last such line writes.
pub open spec fn name_said(all: Seq<Seq<char>>, field: Seq<char>, name: Option<Seq<char>>) -> bool {
    &&& name is None <==> unsaid(all, field)
    &&& name matches Some(n) ==> exists|value: Seq<char>|
        #[trigger] said_last(all, field, value) && n == text::unquote(value)
}

/// The parts of a list of dimensions in a block.
pub open spec fn block_parts(value: Seq<char>) -> Seq<Seq<char>> {
    parts(inside(value))
}

/// What holds of the dimensions in a block: they are not there where no line says
/// anything of them, and else the list that the last such line writes.
pub open spec fn dims_said(all: Seq<Seq<char>>, dims: Option<Seq<i64>>) -> bool {
    &&& dims is None <==> unsaid(all, "dims"@)
    &&& dims matches Some(d) ==> exists|value: Seq<char>|
        #[trigger] said_last(all, "dims"@, value) && is_list(value) && lists(block_parts(value), d)
}

proof fn lemma_block_dims(value: Seq<char>, raw: Seq<char>)
    ensures
        textproto::block_dims(value, raw) is Ok <==> lists_some(
            text::trim(value),
            block_parts(text::trim(value)),
        ),
        textproto::block_dims(value, raw) matches Ok(dims) ==> lists(
            block_parts(text::trim(value)),
            dims,
        ),
{
    let given = text::trim(value);
    lemma_filled(text::split(inside(given), ','));
    lemma_dims(block_parts(given));
}

/// Whether what a line in a block says of the dimensions can be said of them.
pub open spec fn dims_may_stand(raw: Seq<char>) -> bool {
    says(raw, "dims"@) matches Some(value) ==> lists_some(value, block_parts(value))
}

proof fn lemma_line_in_block(before: BlockView, raw: Seq<char>)
    requires
        before.block is Some,
        plain(raw),
    ensures
        textproto::block_line(before, raw) is Ok <==> dims_may_stand(raw),
        textproto::block_line(before, raw) matches Ok(after) ==> {
            &&& after.inputs == before.inputs
            &&& after.outputs == before.outputs
            &&& after.max_batch_size == before.max_batch_size
            &&& after.block == before.block
            &&& says(raw, "name"@) is None ==> after.name == before.name
            &&& says(raw, "data_type"@) is None ==> after.dtype == before.dtype
            &&& says(raw, "dims"@) is None ==> after.dims == before.dims
            &&& says(raw, "name"@) matches Some(value) ==> after.name == Some(text::unquote(value))
            &&& says(raw, "data_type"@) matches Some(value) ==> after.dtype == Some(
                text::unquote(value),
            )
            &&& says(raw, "dims"@) matches Some(value) ==> (after.dims matches Some(dims) && lists(
                block_parts(value),
                dims,
            ))
        },
{
    lemma_fields_differ();
    let line = counted(raw);
    lemma_colon(line);
    if line.len() > 0 {
        lemma_plain(before, raw);
        lemma_block_dims(line.skip(text::find(line, ':') as int + 1), raw);
    }
}

proof fn lemma_name_kept(
    all: Seq<Seq<char>>,
    field: Seq<char>,
    before: Option<Seq<char>>,
    after: Option<Seq<char>>,
)
    requires
        all.len() > 0,
        name_said(all.drop_last(), field, before),
        says(all.last(), field) is None ==> after == before,
        says(all.last(), field) matches Some(value) ==> after == Some(text::unquote(value)),
    ensures
        name_said(all, field, after),
{
    lemma_said_later(all, field);
    if says(all.last(), field) is None {
        if let Some(name) = before {
            let value = choose|value: Seq<char>|
                #[trigger] said_last(all.drop_last(), field, value) && name == text::unquote(value);
            assert(said_last(all, field, value));
        }
    }
}

proof fn lemma_dims_kept(
    all: Seq<Seq<char>>,
    before: Option<Seq<i64>>,
    after: Option<Seq<i64>>,
)
    requires
        all.len() > 0,
        dims_said(all.drop_last(), before),
        says(all.last(), "dims"@) is None ==> after == before,
        says(all.last(), "dims"@) matches Some(value) ==> is_list(value) && (after matches Some(dims)
            && lists(block_parts(value), dims)),
    ensures
        dims_said(all, after),
{
    lemma_said_later(all, "dims"@);
    if says(all.last(), "dims"@) is None {
        if let Some(dims) = before {
            let value = choose|value: Seq<char>|
                #[trigger] said_last(all.drop_last(), "dims"@, value) && is_list(value) && lists(
                    block_parts(value),
                    dims,
                );
            assert(said_last(all, "dims"@, value));
        }
    }
}

proof fn lemma_in_block(
    above: Seq<Seq<char>>,
    before: BlockView,
    is_input: bool,
    body: Seq<Seq<char>>,
)
    requires
        textproto::block_lines(above) == Ok::<BlockView, Seq<char>>(
            textproto::block_opened(before, is_input),
        ),
        forall|i: int| 0 <= i < body.len() ==> plain(#[trigger] body[i]),
    ensures
        textproto::block_lines(above + body) is Ok <==> forall|i: int|
            0 <= i < body.len() ==> dims_may_stand(#[trigger] body[i]),
        textproto::block_lines(above + body) matches Ok(after) ==> {
            &&& after.inputs == before.inputs
            &&& after.outputs == before.outputs
            &&& after.max_batch_size == before.max_batch_size
            &&& after.block == Some(is_input)
            &&& name_said(body, "name"@, after.name)
            &&& name_said(body, "data_type"@, after.dtype)
            &&& dims_said(body, after.dims)
        },
    decreases body.len(),
{
    let all = above + body;
    if body.len() == 0 {
        assert(all =~= above);
    } else {
        let front = body.drop_last();
        let last = body.last();
        assert(all.drop_last() =~= above + front);
        assert(all.last() == last);
        assert forall|i: int| 0 <= i < front.len() implies plain(#[trigger] front[i]) by {
            assert(plain(body[i]));
        }
        assert(plain(body[body.len() - 1]));
        lemma_in_block(above, before, is_input, front);
        if forall|i: int| 0 <= i < body.len() ==> dims_may_stand(#[trigger] body[i]) {
            assert forall|i: int| 0 <= i < front.len() implies dims_may_stand(
                #[trigger] front[i],
            ) by {
                assert(dims_may_stand(body[i]));
            }
            assert(dims_may_stand(body[body.len() - 1]));
        }
        if let Ok(so_far) = textproto::block_lines(above + front) {
            lemma_line_in_block(so_far, last);
            if dims_may_stand(last) {
                assert forall|i: int| 0 <= i < body.len() implies dims_may_stand(
                    #[trigger] body[i],
                ) by {
                    if i < front.len() {
                        assert(dims_may_stand(front[i]));
                    }
                }
            }
            if let Ok(after) = textproto::block_lines(all) {
                lemma_name_kept(body, "name"@, so_far.name, after.name);
                lemma_name_kept(body, "data_type"@, so_far.dtype, after.dtype);
                lemma_dims_kept(body, so_far.dims, after.dims);
            }
        }
    }
}

/// Whether a tensor is what the lines of a block say: its name, its dimensions and
/// its datatype are what the last lines say that say anything of them, and the
/// datatype is `FP32` where no line does.
pub open spec fn tensor_said(body: Seq<Seq<char>>, spec: TensorSpecView) -> bool {
    &&& name_said(body, "name"@, Some(spec.name))
    &&& dims_said(body, Some(spec.dims))
    &&& if unsaid(body, "data_type"@) {
        spec.dtype == "FP32"@
    } else {
        name_said(body, "data_type"@, Some(spec.dtype))
    }
}

/// Whether the lines of a block say all that a tensor needs: a name, dimensions, and
/// a known datatype where they give one.
pub open spec fn tensor_complete(body: Seq<Seq<char>>) -> bool {
    &&& forall|i: int| 0 <= i < body.len() ==> dims_may_stand(#[trigger] body[i])
    &&& !unsaid(body, "name"@)
    &&& !unsaid(body, "dims"@)
    &&& forall|value: Seq<char>|
        #[trigger] said_last(body, "data_type"@, value) ==> dtype::spec_fixed_width(
            text::unquote(value),
        ) is Some
}

proof fn lemma_said_once(all: Seq<Seq<char>>, field: Seq<char>, a: Seq<char>, b: Seq<char>)
    requires
        said_last(all, field, a),
        said_last(all, field, b),
    ensures
        a == b,
        !unsaid(all, field),
{
    let i = choose|i: int|
        0 <= i < all.len() && says(#[trigger] all[i], field) == Some(a) && unsaid(
            all.skip(i + 1),
            field,
        );
    let j = choose|j: int|
        0 <= j < all.len() && says(#[trigger] all[j], field) == Some(b) && unsaid(
            all.skip(j + 1),
            field,
        );
    if i < j {
        assert(all.skip(i + 1)[j - i - 1] == all[j]);
    }
    if j < i {
        assert(all.skip(j + 1)[i - j - 1] == all[i]);
    }
    assert(says(all[i], field) is Some);
}

proof fn lemma_open(before: BlockView, open: Seq<char>, is_input: bool, gap: Seq<char>)
    requires
        before.block is None,
        opens(counted(open), keyword(is_input), gap, Seq::empty()),
    ensures
        textproto::block_line(before, open) == Ok::<BlockView, Seq<char>>(
            textproto::block_opened(before, is_input),
        ),
{
    law_opening(counted(open), is_input, Seq::empty());
    assert(counted(open).last() == '{');
}

/// A block adds a tensor of its kind to those before it exactly if its lines say all
/// that the tensor needs: the one that they say. Neither the tensors before it nor
/// the batch maximum change.
pub proof fn law_block_adds_a_tensor(
    above: Seq<Seq<char>>,
    before: BlockView,
    is_input: bool,
    open: Seq<char>,
    gap: Seq<char>,
    body: Seq<Seq<char>>,
    close: Seq<char>,
)
    requires
        textproto::block_lines(above) == Ok::<BlockView, Seq<char>>(before),
        before.block is None,
        opens(counted(open), keyword(is_input), gap, Seq::empty()),
        forall|i: int| 0 <= i < body.len() ==> plain(#[trigger] body[i]),
        counted(close) == "}"@,
    ensures
        ({
            let after = textproto::block_lines(above.push(open) + body.push(close));
            &&& after is Ok <==> tensor_complete(body)
            &&& after matches Ok(fields) ==> {
                let (grown, grown_before, kept, kept_before) = if is_input {
                    (fields.inputs, before.inputs, fields.outputs, before.outputs)
                } else {
                    (fields.outputs, before.outputs, fields.inputs, before.inputs)
                };
                &&& grown.len() == grown_before.len() + 1
                &&& grown.drop_last() == grown_before
                &&& tensor_said(body, grown.last())
                &&& kept == kept_before
                &&& fields.max_batch_size == before.max_batch_size
                &&& fields.block is None
            }
        }),
{
    let opened = above.push(open);
    assert(opened.drop_last() =~= above);
    lemma_open(before, open, is_input, gap);
    lemma_in_block(opened, before, is_input, body);
    let all = opened + body.push(close);
    assert(all.drop_last() =~= opened + body);
    assert(all.last() == close);
    if let Ok(so_far) = textproto::block_lines(opened + body) {
        lemma_closing(so_far, close);
        if let Some(name) = so_far.dtype {
            let value = choose|value: Seq<char>|
                #[trigger] said_last(body, "data_type"@, value) && name == text::unquote(value);
            assert forall|other: Seq<char>| #[trigger] said_last(
                body,
                "data_type"@,
                other,
            ) implies other == value by {
                lemma_said_once(body, "data_type"@, other, value);
            }
        } else {
            assert forall|other: Seq<char>| #[trigger] said_last(
                body,
                "data_type"@,
                other,
            ) implies false by {
                lemma_said_once(body, "data_type"@, other, other);
            }
            dtype::lemma_spelled();
        }
        if let Ok(fields) = textproto::block_lines(all) {
            let grown = if is_input {
                fields.inputs
            } else {
                fields.outputs
            };
            let grown_before = if is_input {
                before.inputs
            } else {
                before.outputs
            };
            assert(grown.drop_last() =~= grown_before);
        }
    }
}

proof fn lemma_closing(before: BlockView, close: Seq<char>)
    requires
        counted(close) == "}"@,
    ensures
        textproto::block_line(before, close) == textproto::block_close(before),
{
    reveal_strlit("}");
    reveal_strlit("input");
    reveal_strlit("output");
    let line = counted(close);
    assert(line.len() == 1);
}

/// A block is closed only where one is open, and opened only where none is; and
/// a line without a colon that does neither is refused.
pub proof fn law_misplaced_lines(before: BlockView, raw: Seq<char>)
    ensures
        counted(raw) == "}"@ && before.block is None ==> textproto::block_line(before, raw) is Err,
        before.block is Some && (exists|is_input: bool, gap: Seq<char>, rest: Seq<char>|
            #[trigger] opens(counted(raw), keyword(is_input), gap, rest))
            ==> textproto::block_line(before, raw) is Err,
        counted(raw).len() > 0 && counted(raw) != "}"@ && wording::lacks(counted(raw), ':') && (
        forall|is_input: bool, gap: Seq<char>, rest: Seq<char>|
            !#[trigger] opens(counted(raw), keyword(is_input), gap, rest))
            ==> textproto::block_line(before, raw) is Err,
        counted(raw).len() == 0 ==> textproto::block_line(before, raw) == Ok::<
            BlockView,
            Seq<char>,
        >(before),
{
    let line = counted(raw);
    if line == "}"@ {
        lemma_closing(before, raw);
    }
    if exists|is_input: bool, gap: Seq<char>, rest: Seq<char>|
        #[trigger] opens(line, keyword(is_input), gap, rest) {
        let (is_input, gap, rest) = choose|is_input: bool, gap: Seq<char>, rest: Seq<char>|
            #[trigger] opens(line, keyword(is_input), gap, rest);
        law_opening(line, is_input, rest);
        assert(line.len() > 0);
    } else {
        lemma_colon(line);
        lemma_body(line, "input"@);
        lemma_body(line, "output"@);
        assert(keyword(true) == "input"@);
        assert(keyword(false) == "output"@);
    }
}

/// A file with blocks declares a model exactly if all of its lines are read, no block
/// stays open, and there is an input and an output: the model with the tensors of the
/// blocks, in their order, and the batch maximum that the lines give.
pub proof fn law_block_file(file: TextFile, all: Seq<Seq<char>>)
    requires
        file.contents matches Ok(contents) && textproto::is_block_form(contents@) && all
            == text::lines(contents@),
    ensures
        ({
            let read = textproto::block_lines(all);
            &&& file.declares() is Ok <==> match read {
                Ok(fields) => fields.block is None && fields.inputs.len() > 0
                    && fields.outputs.len() > 0,
                Err(_) => false,
            }
            &&& file.declares() matches Ok(contract) ==> {
                &&& contract.inputs == read->Ok_0.inputs
                &&& contract.outputs == read->Ok_0.outputs
                &&& contract.max_batch_size == read->Ok_0.max_batch_size
                &&& contract.strict_output_dtype
            }
            &&& file.declares() matches Err(status) ==> status.0 == Code::FailedPrecondition
        }),
{
}

/// Before the first line nothing is declared: no tensor, no open block, and a batch
/// maximum of zero.
pub proof fn law_nothing_declared()
    ensures
        textproto::block_lines(Seq::empty()) matches Ok(fields) && fields.inputs.len() == 0
            && fields.outputs.len() == 0 && fields.max_batch_size == 0 && fields.block is None,
        forall|path: Seq<char>, typed: bool|
            #[trigger] textproto::flat_lines(Seq::empty(), path, typed) matches Ok(fields)
                && fields.input is None && fields.output is None && fields.dtype is None
                && fields.max_batch_size == 0,
{
}

/// A file is in the form of blocks exactly if some line opens one.
pub proof fn law_block_form(contents: Seq<char>)
    ensures
        textproto::is_block_form(contents) <==> exists|i: int|
            0 <= i < text::lines(contents).len() && opens_some(
                counted(#[trigger] text::lines(contents)[i]),
            ),
{
    let all = text::lines(contents);
    assert forall|line: Seq<char>| textproto::opening(line) is Some == #[trigger] opens_some(line) by {
        lemma_body(line, "input"@);
        lemma_body(line, "output"@);
        if opens_some(line) {
            let (is_input, gap, rest) = choose|is_input: bool, gap: Seq<char>, rest: Seq<char>|
                #[trigger] opens(line, keyword(is_input), gap, rest);
            law_opening(line, is_input, rest);
        } else {
            assert(keyword(true) == "input"@);
            assert(keyword(false) == "output"@);
        }
    }
    if textproto::is_block_form(contents) {
        let i = choose|i: int|
            0 <= i < all.len() && textproto::opening(textproto::content(#[trigger] all[i])) is Some;
        assert(opens_some(counted(all[i])));
    }
    if exists|i: int| 0 <= i < all.len() && opens_some(counted(#[trigger] all[i])) {
        let i = choose|i: int| 0 <= i < all.len() && opens_some(counted(#[trigger] all[i]));
        assert(textproto::opening(textproto::content(all[i])) is Some);
    }
}

/// Whether a line opens a block.
pub open spec fn opens_some(line: Seq<char>) -> bool {
    exists|is_input: bool, gap: Seq<char>, rest: Seq<char>|
        #[trigger] opens(line, keyword(is_input), gap, rest)
}

/// Whether all characters of a text are white.
pub open spec fn blank(s: Seq<char>) -> bool {
    forall|i: int| 0 <= i < s.len() ==> text::is_white(#[trigger] s[i])
}

/// Whether a text can be the name of a field: it begins and ends with a character
/// that is not white, does not begin with a `}`, and has no colon.
pub open spec fn field_name(s: Seq<char>) -> bool {
    &&& s.len() > 0
    &&& !text::is_white(s[0])
    &&& !text::is_white(s.last())
    &&& s[0] != '}'
    &&& wording::lacks(s, ':')
}

/// Whether a text is one whole value where the given text follows: in quotes, in
/// brackets, or without white space and `}` up to either of them. Before a `}` it may be
/// left out.
pub open spec fn whole_value(s: Seq<char>, rest: Seq<char>) -> bool {
    if s.len() == 0 {
        rest.len() > 0 ==> rest[0] == '}'
    } else if s[0] == '"' {
        s.len() >= 2 && s.last() == '"' && wording::lacks(s.subrange(1, s.len() - 1), '"')
    } else if s[0] == '[' {
        s.last() == ']' && wording::lacks(s.drop_last(), ']')
    } else {
        &&& forall|i: int| 0 <= i < s.len() ==> !text::is_white(#[trigger] s[i]) && s[i] != '}'
        &&& rest.len() > 0 ==> text::is_white(rest[0]) || rest[0] == '}'
    }
}

proof fn lemma_bare(s: Seq<char>, rest: Seq<char>)
    requires
        forall|i: int| 0 <= i < s.len() ==> !text::is_white(#[trigger] s[i]) && s[i] != '}',
        rest.len() > 0 ==> text::is_white(rest[0]) || rest[0] == '}',
    ensures
        textproto::bare_len(s + rest) == s.len(),
    decreases s.len(),
{
    if s.len() == 0 {
        assert(s + rest =~= rest);
    } else {
        let t = s.skip(1);
        assert((s + rest)[0] == s[0]);
        assert((s + rest).skip(1) =~= t + rest);
        assert forall|i: int| 0 <= i < t.len() implies !text::is_white(#[trigger] t[i]) && t[i]
            != '}' by {
            assert(!text::is_white(s[i + 1]));
        }
        lemma_bare(t, rest);
    }
}

proof fn lemma_whole(s: Seq<char>, rest: Seq<char>)
    requires
        whole_value(s, rest),
    ensures
        textproto::value_len(s + rest) == s.len(),
        (s + rest).len() > 0 ==> !text::is_white((s + rest)[0]),
{
    let all = s + rest;
    if s.len() == 0 {
        assert(all =~= rest);
    } else if s[0] == '"' {
        assert(all[0] == s[0]);
        let tail = all.skip(1);
        let inner = s.subrange(1, s.len() - 1);
        assert forall|k: int| 0 <= k < s.len() - 2 implies tail[k] != '"' by {
            assert(inner[k] != '"');
            assert(tail[k] == inner[k]);
        }
        assert(tail[s.len() - 2] == s.last());
        text::lemma_find_is(tail, '"', (s.len() - 2) as nat);
    } else if s[0] == '[' {
        assert forall|k: int| 0 <= k < s.len() - 1 implies all[k] != ']' by {
            assert(s.drop_last()[k] != ']');
        }
        assert(all[s.len() - 1] == s.last());
        text::lemma_find_is(all, ']', (s.len() - 1) as nat);
    } else {
        lemma_bare(s, rest);
        assert(!text::is_white(s[0]));
    }
}

proof fn lemma_trim_padded(a: Seq<char>, s: Seq<char>, b: Seq<char>)
    requires
        blank(a),
        blank(b),
        s.len() > 0 ==> !text::is_white(s[0]) && !text::is_white(s.last()),
    ensures
        text::trim(a + s + b) == s,
{
    let all = a + s + b;
    let from = a.len() as int;
    let to = (a.len() + s.len()) as int;
    assert(all.subrange(from, to) =~= s);
    assert forall|i: int| 0 <= i < from implies text::is_white(#[trigger] all[i]) by {
        assert(text::is_white(a[i]));
    }
    assert forall|i: int| to <= i < all.len() implies text::is_white(#[trigger] all[i]) by {
        assert(text::is_white(b[i - to]));
    }
    wording::law_trimmed_once(all, s, from, to);
}

proof fn lemma_same_said(
    before: BlockView,
    field: Seq<char>,
    a: Seq<char>,
    b: Seq<char>,
    raw: Seq<char>,
    other: Seq<char>,
)
    requires
        text::trim(a) == text::trim(b),
    ensures
        textproto::block_field(before, field, a, raw) is Ok <==> textproto::block_field(
            before,
            field,
            b,
            other,
        ) is Ok,
        textproto::block_field(before, field, a, raw) matches Ok(after) ==> textproto::block_field(
            before,
            field,
            b,
            other,
        ) == Ok::<BlockView, Seq<char>>(after),
{
}

/// A field on the line of its block's `{` declares what a line of its own would: a
/// field name, a colon and a whole value, with white space before, between or none,
/// and then the rest of the block.
pub proof fn law_field_in_line(
    before: BlockView,
    lead: Seq<char>,
    field: Seq<char>,
    gap: Seq<char>,
    space: Seq<char>,
    value: Seq<char>,
    rest: Seq<char>,
    raw: Seq<char>,
    alone: Seq<char>,
)
    requires
        before.block is Some,
        blank(lead) && blank(gap) && blank(space),
        field_name(field),
        whole_value(value, rest),
        plain(alone),
        says(alone, field) == Some(text::trim(value)),
    ensures
        textproto::block_inline(
            before,
            lead + field + gap + seq![':'] + space + value + rest,
            raw,
        ) == match textproto::block_line(before, alone) {
            Ok(after) => textproto::block_inline(after, rest, raw),
            Err(_) => None,
        },
{
    let tail = field + gap + seq![':'] + space + value + rest;
    let body = lead + field + gap + seq![':'] + space + value + rest;
    assert(body =~= lead + tail);
    assert(tail[0] == field[0]);
    lemma_skip_white(lead, tail);
    let colon: int = (field.len() + gap.len()) as int;
    assert(tail[colon] == ':');
    assert(!text::is_white(':'));
    assert forall|k: int| 0 <= k < colon implies tail[k] != ':' by {
        if k < field.len() {
            assert(tail[k] == field[k]);
        } else {
            assert(tail[k] == gap[k - field.len()]);
            assert(text::is_white(gap[k - field.len()]));
        }
    }
    text::lemma_find_is(tail, ':', colon as nat);
    assert(tail.take(colon) =~= Seq::<char>::empty() + field + gap);
    lemma_trim_padded(Seq::empty(), field, gap);
    let after = value + rest;
    assert(tail.skip(colon + 1) =~= space + after);
    lemma_whole(value, rest);
    lemma_skip_white(space, after);
    assert(after.take(value.len() as int) =~= value);
    assert(after.skip(value.len() as int) =~= rest);
    let line = counted(alone);
    let at = text::find(line, ':') as int;
    lemma_plain(before, alone);
    lemma_trim_twice(value);
    lemma_same_said(before, field, value, line.skip(at + 1), raw, alone);
    lemma_same_said(before, field, line.skip(at + 1), value, alone, raw);
}

proof fn lemma_trim_twice(s: Seq<char>)
    ensures
        text::trim(text::trim(s)) == text::trim(s),
{
    wording::law_trimmed(s);
    let t = text::trim(s);
    lemma_trim_padded(Seq::empty(), t, Seq::empty());
    assert(Seq::<char>::empty() + t + Seq::<char>::empty() =~= t);
}

/// A `}` on the line of its block's `{`, with nothing behind it, closes the block as a
/// line of its own would.
pub proof fn law_close_in_line(
    before: BlockView,
    lead: Seq<char>,
    tail: Seq<char>,
    raw: Seq<char>,
    close: Seq<char>,
)
    requires
        blank(lead) && blank(tail),
        counted(close) == "}"@,
    ensures
        textproto::block_inline(before, lead + seq!['}'] + tail, raw) == match textproto::block_line(
            before,
            close,
        ) {
            Ok(after) => Some(after),
            Err(_) => None,
        },
{
    let rest = seq!['}'] + tail;
    assert(lead + seq!['}'] + tail =~= lead + rest);
    assert(!text::is_white('}'));
    lemma_skip_white(lead, rest);
    assert(rest.skip(1) =~= tail);
    lemma_trim_padded(tail, Seq::empty(), Seq::empty());
    assert(tail + Seq::<char>::empty() + Seq::<char>::empty() =~= tail);
    lemma_closing(before, close);
}

/// A line that opens a block declares what the line with its keyword and `{` alone
/// declares, or, where a whole block follows the `{`, what that block does.
pub proof fn law_opening_line(
    before: BlockView,
    raw: Seq<char>,
    is_input: bool,
    gap: Seq<char>,
    rest: Seq<char>,
    alone: Seq<char>,
    space: Seq<char>,
)
    requires
        before.block is None,
        opens(counted(raw), keyword(is_input), gap, rest),
        opens(counted(alone), keyword(is_input), space, Seq::empty()),
    ensures
        textproto::block_line(before, alone) matches Ok(opened) && opened.block == Some(is_input)
            && opened.name is None && opened.dtype is None && opened.dims is None && opened.inputs
            == before.inputs && opened.outputs == before.outputs && opened.max_batch_size
            == before.max_batch_size && textproto::block_line(before, raw) == Ok::<
            BlockView,
            Seq<char>,
        >(
            match textproto::block_inline(opened, rest, raw) {
                Some(closed) => closed,
                None => opened,
            },
        ),
{
    lemma_open(before, alone, is_input, space);
    law_opening(counted(raw), is_input, rest);
    assert(counted(raw).len() > 0);
}

/// Lines that are refused stay refused, for the same fault, whatever follows them.
pub proof fn law_first_fault_stands(
    above: Seq<Seq<char>>,
    below: Seq<Seq<char>>,
    path: Seq<char>,
    typed: bool,
)
    ensures
        textproto::flat_lines(above, path, typed) is Err ==> textproto::flat_lines(
            above + below,
            path,
            typed,
        ) == textproto::flat_lines(above, path, typed),
        textproto::block_lines(above) is Err ==> textproto::block_lines(above + below)
            == textproto::block_lines(above),
    decreases below.len(),
{
    let all = above + below;
    if below.len() == 0 {
        assert(all =~= above);
    } else {
        law_first_fault_stands(above, below.drop_last(), path, typed);
        assert(all.drop_last() =~= above + below.drop_last());
    }
}

/// What follows the `{` of a block on its line is no whole block where nothing closes it:
/// where it is blank, or has no colon and does not begin with a `}`. Nor is it one where
/// more than white space follows the `}`.
pub proof fn law_no_whole_block(
    before: BlockView,
    lead: Seq<char>,
    rest: Seq<char>,
    raw: Seq<char>,
)
    requires
        blank(lead),
        rest.len() > 0 ==> !text::is_white(rest[0]),
    ensures
        rest.len() == 0 ==> textproto::block_inline(before, lead + rest, raw) is None,
        rest.len() > 0 && rest[0] != '}' && wording::lacks(rest, ':') ==> textproto::block_inline(
            before,
            lead + rest,
            raw,
        ) is None,
        rest.len() > 0 && rest[0] == '}' && !blank(rest.skip(1)) ==> textproto::block_inline(
            before,
            lead + rest,
            raw,
        ) is None,
{
    lemma_skip_white(lead, rest);
    lemma_colon(rest);
    if rest.len() > 0 && rest[0] == '}' && !blank(rest.skip(1)) {
        let tail = rest.skip(1);
        wording::law_trimmed(tail);
        let (from, to) = choose|from: int, to: int|
            #[trigger] wording::trims_to(tail, text::trim(tail), from, to);
        if text::trim(tail).len() == 0 {
            assert(from == to);
            assert forall|i: int| 0 <= i < tail.len() implies text::is_white(#[trigger] tail[i]) by {}
        }
    }
}

/// A block on one line whose value opens a quote or a bracket that nothing closes is no
/// whole block.
pub proof fn law_open_value(
    before: BlockView,
    lead: Seq<char>,
    field: Seq<char>,
    gap: Seq<char>,
    space: Seq<char>,
    value: Seq<char>,
    raw: Seq<char>,
)
    requires
        blank(lead) && blank(gap) && blank(space),
        field_name(field),
        value.len() > 0,
        value[0] == '"' && wording::lacks(value.skip(1), '"') || value[0] == '[' && wording::lacks(
            value,
            ']',
        ),
    ensures
        textproto::block_inline(before, lead + field + gap + seq![':'] + space + value, raw) is None,
{
    let tail = field + gap + seq![':'] + space + value;
    let body = lead + field + gap + seq![':'] + space + value;
    assert(body =~= lead + tail);
    assert(tail[0] == field[0]);
    lemma_skip_white(lead, tail);
    let colon: int = (field.len() + gap.len()) as int;
    assert(tail[colon] == ':');
    assert(!text::is_white(':'));
    assert forall|k: int| 0 <= k < colon implies tail[k] != ':' by {
        if k < field.len() {
            assert(tail[k] == field[k]);
        } else {
            assert(tail[k] == gap[k - field.len()]);
            assert(text::is_white(gap[k - field.len()]));
        }
    }
    text::lemma_find_is(tail, ':', colon as nat);
    assert(tail.skip(colon + 1) =~= space + value);
    assert(!text::is_white('"') && !text::is_white('['));
    lemma_skip_white(space, value);
    if value[0] == '"' {
        text::lemma_find(value.skip(1), '"');
        let at = text::find(value.skip(1), '"') as int;
        if at < value.skip(1).len() {
            assert(value.skip(1)[at] == '"');
        }
    } else {
        text::lemma_find(value, ']');
        let at = text::find(value, ']') as int;
        if at < value.len() {
            assert(value[at] == ']');
        }
    }
    assert(textproto::value_len(value) == value.len());
    assert(value.skip(value.len() as int) =~= Seq::empty());
    let parsed = textproto::block_field(
        before,
        text::trim(tail.take(colon)),
        value.take(value.len() as int),
        raw,
    );
    if let Ok(next) = parsed {
        assert(textproto::block_inline(next, Seq::empty(), raw) is None);
    }
}

} // verus!
