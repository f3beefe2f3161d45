//! The framed tensor that a model process writes: a header line
//! `"<dtype> <d0>,<d1>,..\n"` in UTF-8, then the raw little-endian bytes.

use vstd::prelude::*;
use vstd::slice::slice_subrange;

use crate::dtype;
use crate::dtype::canonical_to_kserve;
use crate::number;
use crate::number::{decimal_i64, decimal_u64, decimal_usize, parse_i64, IntFault};
use crate::status::{Code, Status, StatusView};
use crate::tensor;
use crate::tensor::{copy_bytes, element_count};
use crate::text;
use crate::text::{cat3, cat4, cat5, cat6, cat8, chars_of, same, split_at, split_words, string_of};

verus! {

/// The text that bytes encode. Claimed of `std::str::from_utf8`: it succeeds
/// exactly on valid UTF-8 and then gives the characters that the bytes encode.
#[verifier::external_body]
fn utf8_text(bytes: &[u8]) -> (r: Option<String>)
    ensures
        match r {
            Some(text) => vstd::utf8::valid_utf8(bytes@) && text@ == vstd::utf8::decode_utf8(bytes@),
            None => !vstd::utf8::valid_utf8(bytes@),
        },
{
    std::str::from_utf8(bytes).ok().map(|text| text.to_string())
}

/// How many bytes stand before the first line feed; all of them where there is
/// none.
pub open spec fn first_line_feed(raw: Seq<u8>) -> nat
    decreases raw.len(),
{
    if raw.len() == 0 || raw[0] == 10 {
        0
    } else {
        1 + first_line_feed(raw.skip(1))
    }
}

fn find_line_feed(raw: &[u8]) -> (r: usize)
    ensures
        r == first_line_feed(raw@),
        r <= raw@.len(),
{
    let mut i: usize = 0;
    assert(raw@.skip(0) =~= raw@);
    while i < raw.len() && raw[i] != 10
        invariant
            i <= raw@.len(),
            first_line_feed(raw@) == i + first_line_feed(raw@.skip(i as int)),
        decreases raw@.len() - i,
    {
        assert(raw@.skip(i as int).skip(1) =~= raw@.skip(i + 1));
        i = i + 1;
    }
    i
}

/// The sentence about a dimension that is not an integer.
pub open spec fn dim_unreadable(part: Seq<char>, fault: IntFault, model: Seq<char>) -> Seq<char> {
    "model '"@ + model + "' output shape dimension '"@ + part + "' is invalid: "@
        + fault.spec_message()
}

/// The sentence about a dimension that is zero or negative.
pub open spec fn dim_not_positive(dim: int, model: Seq<char>) -> Seq<char> {
    "model '"@ + model + "' output shape dimensions must be positive, got "@ + number::decimal(dim)
}

/// The dimensions that the parts that are not empty write, or the sentence about
/// the first bad one.
pub open spec fn frame_dims(parts: Seq<Seq<char>>, model: Seq<char>) -> Result<Seq<i64>, Seq<char>>
    decreases parts.len(),
{
    if parts.len() == 0 {
        Ok(Seq::empty())
    } else {
        let part = parts.last();
        match frame_dims(parts.drop_last(), model) {
            Err(e) => Err(e),
            Ok(before) => if part.len() == 0 {
                Ok(before)
            } else {
                match number::parse_int(part, i64::MIN as int, i64::MAX as int) {
                    Err(fault) => Err(dim_unreadable(part, fault, model)),
                    Ok(n) => if n <= 0 {
                        Err(dim_not_positive(n, model))
                    } else {
                        Ok(before.push(n as i64))
                    },
                }
            },
        }
    }
}

proof fn lemma_frame_dims_fault(parts: Seq<Seq<char>>, model: Seq<char>, k: int)
    requires
        0 <= k <= parts.len(),
        frame_dims(parts.take(k), model) is Err,
    ensures
        frame_dims(parts, model) == frame_dims(parts.take(k), model),
    decreases parts.len() - k,
{
    if k == parts.len() {
        assert(parts.take(k) =~= parts);
    } else {
        assert(parts.take(k + 1).drop_last() =~= parts.take(k));
        lemma_frame_dims_fault(parts, model, k + 1);
    }
}

proof fn lemma_frame_dims_positive(parts: Seq<Seq<char>>, model: Seq<char>)
    ensures
        frame_dims(parts, model) matches Ok(dims) ==> forall|i: int|
            0 <= i < dims.len() ==> #[trigger] dims[i] > 0,
    decreases parts.len(),
{
    if parts.len() > 0 {
        lemma_frame_dims_positive(parts.drop_last(), model);
        number::law_parsed_in_range(parts.last(), i64::MIN as int, i64::MAX as int);
    }
}

fn read_frame_dims(word: &[char], model: &str) -> (r: Result<Vec<i64>, String>)
    ensures
        match r {
            Ok(dims) => frame_dims(text::split(word@, ','), model@) == Ok::<Seq<i64>, Seq<char>>(
                dims@,
            ),
            Err(e) => frame_dims(text::split(word@, ','), model@) == Err::<Seq<i64>, Seq<char>>(e@),
        },
{
    let parts = split_at(word, ',');
    let ghost all = text::pieces(parts@);
    let mut dims: Vec<i64> = Vec::new();
    let mut i: usize = 0;
    assert(all.take(0) =~= Seq::empty());
    while i < parts.len()
        invariant
            i <= parts@.len(),
            all == text::pieces(parts@),
            all == text::split(word@, ','),
            frame_dims(all.take(i as int), model@) == Ok::<Seq<i64>, Seq<char>>(dims@),
        decreases parts@.len() - i,
    {
        proof {
            assert(all.take(i + 1).drop_last() =~= all.take(i as int));
            assert(all.take(i + 1).last() == parts@[i as int]@);
        }
        if parts[i].len() > 0 {
            match parse_i64(parts[i]) {
                Err(fault) => {
                    proof {
                        lemma_frame_dims_fault(all, model@, i + 1);
                    }
                    let part = string_of(parts[i]);
                    return Err(
                        cat6(
                            "model '",
                            model,
                            "' output shape dimension '",
                            part.as_str(),
                            "' is invalid: ",
                            fault.message(),
                        ),
                    );
                },
                Ok(dim) => {
                    if dim <= 0 {
                        proof {
                            lemma_frame_dims_fault(all, model@, i + 1);
                        }
                        let got = decimal_i64(dim);
                        return Err(
                            cat4(
                                "model '",
                                model,
                                "' output shape dimensions must be positive, got ",
                                got.as_str(),
                            ),
                        );
                    }
                    dims.push(dim);
                },
            }
        }
        i = i + 1;
    }
    assert(all.take(i as int) =~= all);
    Ok(dims)
}

/// Checks the data against the header's shape and datatype, and gives the
/// shape, the bytes and the datatype; or the sentence about what does not fit.
pub open spec fn frame_body(
    dims: Seq<i64>,
    canonical: Seq<char>,
    width: usize,
    data: Seq<u8>,
    model: Seq<char>,
) -> Result<(Seq<i64>, Seq<u8>, Seq<char>), Seq<char>> {
    if dims.len() == 0 {
        Err("model '"@ + model + "' output header has an empty shape"@)
    } else if data.len() % (width as nat) != 0 {
        Err(
            "model '"@ + model + "' output byte length "@ + number::decimal(data.len() as int)
                + " is not a multiple of "@ + number::decimal(width as int) + " ("@ + canonical
                + ")"@,
        )
    } else {
        let actual = (data.len() / (width as nat)) as int;
        match tensor::checked_product(dims) {
            None => Err("model '"@ + model + "' output shape overflow"@),
            Some(expected) => if expected != actual {
                Err(
                    "model '"@ + model + "' output size mismatch: header shape implies "@
                        + number::decimal(expected) + " "@ + canonical
                        + " elements, file holds "@ + number::decimal(actual),
                )
            } else {
                Ok((dims, data, canonical))
            },
        }
    }
}

/// The shape, bytes and datatype that a header and the data after it give.
pub open spec fn frame_parts(header: Seq<char>, data: Seq<u8>, model: Seq<char>) -> Result<
    (Seq<i64>, Seq<u8>, Seq<char>),
    Seq<char>,
> {
    let words = text::words(header);
    let canonical = if words.len() > 0 {
        words[0]
    } else {
        Seq::empty()
    };
    match dtype::spec_canonical_to_kserve(canonical) {
        None => Err("model '"@ + model + "' output dtype '"@ + canonical + "' is unsupported"@),
        Some((_, width)) => if words.len() < 2 {
            Err(
                "model '"@ + model + "' output header is missing the shape: '"@ + header + "'"@,
            )
        } else {
            match frame_dims(text::split(words[1], ','), model) {
                Err(e) => Err(e),
                Ok(dims) => frame_body(dims, canonical, width, data, model),
            }
        },
    }
}

/// The shape, bytes and datatype of a framed tensor, or why it is malformed.
pub open spec fn spec_framed_tensor(raw: Seq<u8>, model: Seq<char>) -> Result<
    (Seq<i64>, Seq<u8>, Seq<char>),
    StatusView,
> {
    let end = first_line_feed(raw) as int;
    let outcome = if end >= raw.len() {
        Err("model '"@ + model + "' output is missing the framed header line"@)
    } else if !vstd::utf8::valid_utf8(raw.take(end)) {
        Err("model '"@ + model + "' output header is not valid UTF-8"@)
    } else {
        frame_parts(vstd::utf8::decode_utf8(raw.take(end)), raw.skip(end + 1), model)
    };
    match outcome {
        Ok(parts) => Ok(parts),
        Err(e) => Err((Code::Internal, e)),
    }
}

fn check_frame_body(
    dims: Vec<i64>,
    canonical: &str,
    width: usize,
    data: &[u8],
    model: &str,
) -> (r: Result<(Vec<i64>, Vec<u8>, String), String>)
    requires
        width > 0,
        forall|i: int| 0 <= i < dims@.len() ==> #[trigger] dims@[i] > 0,
    ensures
        match r {
            Ok((shape, bytes, name)) => frame_body(dims@, canonical@, width, data@, model@) == Ok::<
                (Seq<i64>, Seq<u8>, Seq<char>),
                Seq<char>,
            >((shape@, bytes@, name@)),
            Err(e) => frame_body(dims@, canonical@, width, data@, model@) == Err::<
                (Seq<i64>, Seq<u8>, Seq<char>),
                Seq<char>,
            >(e@),
        },
{
    if dims.len() == 0 {
        return Err(cat3("model '", model, "' output header has an empty shape"));
    }
    if data.len() % width != 0 {
        let length_text = decimal_usize(data.len());
        let width_text = decimal_usize(width);
        return Err(
            cat8(
                "model '",
                model,
                "' output byte length ",
                length_text.as_str(),
                " is not a multiple of ",
                width_text.as_str(),
                " (",
                canonical,
            ).concat(")"),
        );
    }
    let actual: u64 = (data.len() / width) as u64;
    match element_count(dims.as_slice()) {
        None => Err(cat3("model '", model, "' output shape overflow")),
        Some(expected) => {
            proof {
                tensor::law_element_count(dims@);
            }
            if expected as u64 != actual {
                let expected_text = decimal_i64(expected);
                let actual_text = decimal_u64(actual);
                return Err(
                    cat8(
                        "model '",
                        model,
                        "' output size mismatch: header shape implies ",
                        expected_text.as_str(),
                        " ",
                        canonical,
                        " elements, file holds ",
                        actual_text.as_str(),
                    ),
                );
            }
            Ok((dims, copy_bytes(data), canonical.to_string()))
        },
    }
}

fn parse_frame_parts(header: &str, data: &[u8], model: &str) -> (r: Result<
    (Vec<i64>, Vec<u8>, String),
    String,
>)
    ensures
        match r {
            Ok((shape, bytes, name)) => frame_parts(header@, data@, model@) == Ok::<
                (Seq<i64>, Seq<u8>, Seq<char>),
                Seq<char>,
            >((shape@, bytes@, name@)),
            Err(e) => frame_parts(header@, data@, model@) == Err::<
                (Seq<i64>, Seq<u8>, Seq<char>),
                Seq<char>,
            >(e@),
        },
{
    let chars = chars_of(header);
    let words = split_words(chars.as_slice());
    let ghost all = text::pieces(words@);
    assert(all.len() == words@.len());
    let canonical = if words.len() > 0 {
        assert(all[0] == words@[0]@);
        string_of(words[0])
    } else {
        String::new()
    };
    match canonical_to_kserve(canonical.as_str()) {
        None => Err(
            cat5("model '", model, "' output dtype '", canonical.as_str(), "' is unsupported"),
        ),
        Some((_, width)) => {
            if words.len() < 2 {
                return Err(
                    cat5(
                        "model '",
                        model,
                        "' output header is missing the shape: '",
                        header,
                        "'",
                    ),
                );
            }
            assert(all[1] == words@[1]@);
            match read_frame_dims(words[1], model) {
                Err(e) => Err(e),
                Ok(dims) => {
                    proof {
                        lemma_frame_dims_positive(text::split(all[1], ','), model@);
                    }
                    check_frame_body(dims, canonical.as_str(), width, data, model)
                },
            }
        },
    }
}

/// Reads the framed tensor that a model process wrote: its shape, its bytes and
/// its canonical datatype.
pub fn parse_framed_tensor(raw: &[u8], model_name: &str) -> (r: Result<
    (Vec<i64>, Vec<u8>, String),
    Status,
>)
    ensures
        match r {
            Ok((shape, bytes, name)) => spec_framed_tensor(raw@, model_name@) == Ok::<
                (Seq<i64>, Seq<u8>, Seq<char>),
                StatusView,
            >((shape@, bytes@, name@)),
            Err(e) => spec_framed_tensor(raw@, model_name@) == Err::<
                (Seq<i64>, Seq<u8>, Seq<char>),
                StatusView,
            >(e@),
        },
{
    let end: usize = find_line_feed(raw);
    if end == raw.len() {
        return Err(
            Status::internal(
                cat3("model '", model_name, "' output is missing the framed header line"),
            ),
        );
    }
    let head = slice_subrange(raw, 0, end);
    let data = slice_subrange(raw, end + 1, raw.len());
    proof {
        assert(head@ =~= raw@.take(end as int));
        assert(data@ =~= raw@.skip(end as int + 1));
    }
    match utf8_text(head) {
        None => Err(
            Status::internal(
                cat3("model '", model_name, "' output header is not valid UTF-8"),
            ),
        ),
        Some(header) => match parse_frame_parts(header.as_str(), data, model_name) {
            Ok(parts) => Ok(parts),
            Err(e) => Err(Status::internal(e)),
        },
    }
}

/// The type that the header of a framed tensor names, the empty name where it names
/// none; nothing where there is no readable header.
pub open spec fn spec_frame_type(raw: Seq<u8>) -> Option<Seq<char>> {
    let end = first_line_feed(raw) as int;
    if end >= raw.len() || !vstd::utf8::valid_utf8(raw.take(end)) {
        None
    } else {
        let words = text::words(vstd::utf8::decode_utf8(raw.take(end)));
        Some(
            if words.len() > 0 {
                words[0]
            } else {
                Seq::empty()
            },
        )
    }
}

/// Reads the type that the header of a framed tensor names.
pub fn frame_type(raw: &[u8]) -> (r: Option<String>)
    ensures
        match spec_frame_type(raw@) {
            Some(name) => r matches Some(n) && n@ == name,
            None => r is None,
        },
{
    let end: usize = find_line_feed(raw);
    if end == raw.len() {
        return None;
    }
    let head = slice_subrange(raw, 0, end);
    assert(head@ =~= raw@.take(end as int));
    match utf8_text(head) {
        None => None,
        Some(header) => {
            let chars = chars_of(header.as_str());
            let words = split_words(chars.as_slice());
            if words.len() > 0 {
                assert(text::pieces(words@)[0] == words@[0]@);
                Some(string_of(words[0]))
            } else {
                Some(String::new())
            }
        },
    }
}

/// The shape and the bytes of a framed tensor that must hold 32-bit floats.
pub open spec fn spec_float_tensor(raw: Seq<u8>, model: Seq<char>) -> Result<
    (Seq<i64>, Seq<u8>),
    StatusView,
> {
    match spec_frame_type(raw) {
        Some(name) if name != "float32"@ => Err(
            (
                Code::Internal,
                "model '"@ + model + "' output dtype '"@ + name
                    + "' is unsupported; only float32 is supported"@,
            ),
        ),
        _ => match spec_framed_tensor(raw, model) {
            Ok((shape, bytes, _)) => Ok((shape, bytes)),
            Err(status) => Err(status),
        },
    }
}

/// Parses a framed tensor that must hold 32-bit floats.
pub fn parse_float_tensor(raw: &[u8], model_name: &str) -> (r: Result<(Vec<i64>, Vec<u8>), Status>)
    ensures
        match r {
            Ok((shape, bytes)) => spec_float_tensor(raw@, model_name@) == Ok::<
                (Seq<i64>, Seq<u8>),
                StatusView,
            >((shape@, bytes@)),
            Err(e) => spec_float_tensor(raw@, model_name@) == Err::<
                (Seq<i64>, Seq<u8>),
                StatusView,
            >(e@),
        },
{
    if let Some(name) = frame_type(raw) {
        if !same(name.as_str(), "float32") {
            return Err(
                Status::internal(
                    cat5(
                        "model '",
                        model_name,
                        "' output dtype '",
                        name.as_str(),
                        "' is unsupported; only float32 is supported",
                    ),
                ),
            );
        }
    }
    match parse_framed_tensor(raw, model_name) {
        Ok((shape, bytes, _)) => Ok((shape, bytes)),
        Err(status) => Err(status),
    }
}

/// The header that names a datatype and a shape.
pub open spec fn header_text(canonical: Seq<char>, shape: Seq<i64>) -> Seq<char> {
    canonical + seq![' '] + tensor::comma_dims(shape)
}

/// The framed form of a tensor: its header, a line feed, its bytes.
pub open spec fn framed(canonical: Seq<char>, shape: Seq<i64>, data: Seq<u8>) -> Seq<u8> {
    vstd::utf8::encode_utf8(header_text(canonical, shape)) + seq![10u8] + data
}

/// A visible ASCII character.
pub open spec fn visible(c: char) -> bool {
    '!' <= c <= '~'
}

/// Whether all characters are visible.
pub open spec fn all_visible(s: Seq<char>) -> bool {
    forall|i: int| 0 <= i < s.len() ==> visible(#[trigger] s[i])
}

proof fn lemma_canonical_visible(canonical: Seq<char>)
    requires
        dtype::spec_canonical_to_kserve(canonical) is Some,
    ensures
        canonical.len() > 0,
        all_visible(canonical),
{
    reveal_strlit("bool");
    reveal_strlit("uint8");
    reveal_strlit("uint16");
    reveal_strlit("uint32");
    reveal_strlit("uint64");
    reveal_strlit("int8");
    reveal_strlit("int16");
    reveal_strlit("int32");
    reveal_strlit("int64");
    reveal_strlit("float16");
    reveal_strlit("float32");
    reveal_strlit("float64");
    reveal_strlit("bfloat16");
}

proof fn lemma_digits_visible(n: nat)
    ensures
        number::digits(n).len() > 0,
        forall|i: int|
            0 <= i < number::digits(n).len() ==> '0' <= #[trigger] number::digits(n)[i] <= '9',
    decreases n,
{
    if n >= 10 {
        lemma_digits_visible(n / 10);
    }
}

proof fn lemma_word_len_is(word: Seq<char>, rest: Seq<char>)
    requires
        all_visible(word),
        rest.len() > 0 ==> text::is_white(rest[0]),
    ensures
        text::word_len(word + rest) == word.len(),
    decreases word.len(),
{
    if word.len() == 0 {
        assert(word + rest =~= rest);
    } else {
        assert(visible(word[0]));
        assert((word + rest).skip(1) =~= word.skip(1) + rest);
        assert forall|i: int| 0 <= i < word.skip(1).len() implies visible(
            #[trigger] word.skip(1)[i],
        ) by {
            assert(visible(word[i + 1]));
        }
        lemma_word_len_is(word.skip(1), rest);
    }
}

proof fn lemma_two_words(a: Seq<char>, b: Seq<char>)
    requires
        a.len() > 0,
        b.len() > 0,
        all_visible(a),
        all_visible(b),
    ensures
        text::words(a + seq![' '] + b) == seq![a, b],
{
    reveal_with_fuel(text::words, 3);
    reveal_with_fuel(text::trim_start, 3);
    let tail = seq![' '] + b;
    let whole = a + seq![' '] + b;
    assert(whole =~= a + tail);
    assert(visible(a[0]) && visible(b[0]));
    assert(whole[0] == a[0]);
    lemma_word_len_is(a, tail);
    assert(whole.take(a.len() as int) =~= a);
    assert(whole.skip(a.len() as int) =~= tail);
    assert(tail.skip(1) =~= b);
    assert(tail[0] == ' ');
    assert(text::trim_start(tail) == b);
    assert(b + Seq::<char>::empty() =~= b);
    lemma_word_len_is(b, Seq::empty());
    assert(b.take(b.len() as int) =~= b);
    assert(b.skip(b.len() as int) =~= Seq::<char>::empty());
    assert(text::words(tail) =~= seq![b]);
    assert(text::words(whole) =~= seq![a] + text::words(tail));
    assert(text::words(whole) =~= seq![a, b]);
}

proof fn lemma_split_last(x: Seq<char>, y: Seq<char>, c: char)
    requires
        !y.contains(c),
    ensures
        text::split(x + seq![c] + y, c) == text::split(x, c).push(y),
    decreases x.len(),
{
    let whole = x + seq![c] + y;
    text::lemma_find(x, c);
    let i = text::find(x, c);
    if i < x.len() {
        text::lemma_find_is(whole, c, i);
        assert(whole.take(i as int) =~= x.take(i as int));
        assert(whole.skip(i as int + 1) =~= x.skip(i as int + 1) + seq![c] + y);
        lemma_split_last(x.skip(i as int + 1), y, c);
        assert(text::split(whole, c) =~= text::split(x, c).push(y));
    } else {
        text::lemma_find_is(whole, c, x.len());
        assert(whole.take(x.len() as int) =~= x);
        assert(whole.skip(x.len() as int + 1) =~= y);
        text::lemma_find(y, c);
        assert(text::find(y, c) == y.len()) by {
            if text::find(y, c) < y.len() {
                assert(y.contains(y[text::find(y, c) as int]));
            }
        }
        assert(text::split(y, c) =~= seq![y]);
        assert(text::split(whole, c) =~= seq![x] + seq![y]);
        assert(text::split(x, c) =~= seq![x]);
        assert(text::split(whole, c) =~= text::split(x, c).push(y));
    }
}

/// Joined parts without the separator are split into themselves.
pub proof fn lemma_split_join(parts: Seq<Seq<char>>, c: char, sep: Seq<char>)
    requires
        parts.len() > 0,
        sep == seq![c],
        forall|i: int| 0 <= i < parts.len() ==> !(#[trigger] parts[i]).contains(c),
    ensures
        text::split(text::join(parts, sep), c) == parts,
    decreases parts.len(),
{
    if parts.len() == 1 {
        let only = parts[0];
        text::lemma_find(only, c);
        assert(text::find(only, c) == only.len()) by {
            if text::find(only, c) < only.len() {
                assert(only.contains(only[text::find(only, c) as int]));
            }
        }
        assert(text::split(only, c) =~= parts);
    } else {
        let front = parts.drop_last();
        assert forall|i: int| 0 <= i < front.len() implies !(#[trigger] front[i]).contains(c) by {
            assert(!parts[i].contains(c));
        }
        lemma_split_join(front, c, sep);
        assert(!parts[parts.len() - 1].contains(c));
        lemma_split_last(text::join(front, sep), parts.last(), c);
        assert(front.push(parts.last()) =~= parts);
    }
}

proof fn lemma_dims_read_back(shape: Seq<i64>, model: Seq<char>)
    requires
        forall|i: int| 0 <= i < shape.len() ==> #[trigger] shape[i] > 0,
    ensures
        frame_dims(tensor::dim_texts(shape), model) == Ok::<Seq<i64>, Seq<char>>(shape),
    decreases shape.len(),
{
    let texts = tensor::dim_texts(shape);
    if shape.len() == 0 {
        assert(frame_dims(texts, model)->Ok_0 =~= shape);
    } else {
        let front = shape.drop_last();
        assert forall|i: int| 0 <= i < front.len() implies #[trigger] front[i] > 0 by {
            assert(shape[i] > 0);
        }
        lemma_dims_read_back(front, model);
        assert(texts.drop_last() =~= tensor::dim_texts(front));
        let d = shape.last();
        assert(shape[shape.len() - 1] > 0);
        lemma_digits_visible(d as nat);
        number::law_decimal_read_back(d as int, i64::MIN as int, i64::MAX as int);
        assert(front.push(d) =~= shape);
    }
}

proof fn lemma_join_visible(parts: Seq<Seq<char>>, sep: Seq<char>)
    requires
        parts.len() > 0,
        all_visible(sep),
        forall|i: int| 0 <= i < parts.len() ==> all_visible(#[trigger] parts[i]) && parts[i].len()
            > 0,
    ensures
        all_visible(text::join(parts, sep)),
        text::join(parts, sep).len() > 0,
    decreases parts.len(),
{
    assert(all_visible(parts[parts.len() - 1]));
    if parts.len() > 1 {
        let front = parts.drop_last();
        assert forall|i: int| 0 <= i < front.len() implies all_visible(#[trigger] front[i])
            && front[i].len() > 0 by {
            assert(all_visible(parts[i]));
        }
        lemma_join_visible(front, sep);
    }
}

proof fn lemma_line_feed_at(head: Seq<u8>, rest: Seq<u8>)
    requires
        forall|i: int| 0 <= i < head.len() ==> #[trigger] head[i] != 10,
        rest.len() > 0,
        rest[0] == 10,
    ensures
        first_line_feed(head + rest) == head.len(),
    decreases head.len(),
{
    if head.len() == 0 {
        assert(head + rest =~= rest);
    } else {
        assert((head + rest).skip(1) =~= head.skip(1) + rest);
        assert forall|i: int| 0 <= i < head.skip(1).len() implies #[trigger] head.skip(1)[i]
            != 10 by {
            assert(head[i + 1] != 10);
        }
        assert(head[0] != 10);
        lemma_line_feed_at(head.skip(1), rest);
    }
}

proof fn lemma_one_word(a: Seq<char>)
    requires
        a.len() > 0,
        all_visible(a),
    ensures
        text::words(a + seq![' ']) == seq![a],
{
    reveal_with_fuel(text::words, 3);
    reveal_with_fuel(text::trim_start, 3);
    let tail = seq![' '];
    let whole = a + tail;
    assert(visible(a[0]));
    assert(whole[0] == a[0]);
    lemma_word_len_is(a, tail);
    assert(whole.take(a.len() as int) =~= a);
    assert(whole.skip(a.len() as int) =~= tail);
    assert(tail.skip(1) =~= Seq::<char>::empty());
    assert(text::trim_start(tail) =~= Seq::<char>::empty());
    assert(text::words(tail) =~= Seq::<Seq<char>>::empty());
    assert(text::words(whole) =~= seq![a]);
}

/// What a framed tensor is taken for: its header's two words, the shape in the
/// second one, and its bytes.
proof fn lemma_frame_header(canonical: Seq<char>, shape: Seq<i64>, data: Seq<u8>, model: Seq<char>)
    requires
        canonical.len() > 0,
        all_visible(canonical),
    ensures
        spec_framed_tensor(framed(canonical, shape, data), model) == match frame_parts(
            header_text(canonical, shape),
            data,
            model,
        ) {
            Ok(parts) => Ok(parts),
            Err(e) => Err((Code::Internal, e)),
        },
        text::words(header_text(canonical, shape)) == if shape.len() == 0 {
            seq![canonical]
        } else {
            seq![canonical, tensor::comma_dims(shape)]
        },
        shape.len() > 0 ==> text::split(tensor::comma_dims(shape), ',') == tensor::dim_texts(shape),
{
    let dims = tensor::comma_dims(shape);
    let texts = tensor::dim_texts(shape);
    let header = header_text(canonical, shape);
    let bytes = vstd::utf8::encode_utf8(header);
    let raw = framed(canonical, shape, data);
    reveal_strlit(",");
    assert(","@ =~= seq![',']);
    assert forall|i: int| 0 <= i < texts.len() implies all_visible(#[trigger] texts[i])
        && texts[i].len() > 0 && !texts[i].contains(',') by {
        if shape[i] < 0 {
            lemma_digits_visible((-shape[i]) as nat);
        } else {
            lemma_digits_visible(shape[i] as nat);
        }
    }
    if shape.len() == 0 {
        assert(dims.len() == 0);
        assert(header =~= canonical + seq![' ']);
        lemma_one_word(canonical);
    } else {
        lemma_join_visible(texts, ","@);
        lemma_two_words(canonical, dims);
        lemma_split_join(texts, ',', ","@);
    }
    assert forall|i: int| 0 <= i < header.len() implies '\0' <= #[trigger] header[i] <= '\u{7f}'
        && header[i] != '\n' by {
        if i < canonical.len() {
            assert(header[i] == canonical[i]);
            assert(visible(canonical[i]));
        } else if i == canonical.len() {
            assert(header[i] == ' ');
        } else {
            assert(header[i] == dims[i - canonical.len() - 1]);
            assert(visible(dims[i - canonical.len() - 1]));
        }
    }
    assert(vstd::utf8::is_ascii_chars(header));
    vstd::utf8::is_ascii_chars_encode_utf8(header);
    vstd::utf8::encode_utf8_valid_utf8(header);
    vstd::utf8::encode_utf8_decode_utf8(header);
    assert forall|i: int| 0 <= i < bytes.len() implies #[trigger] bytes[i] != 10 by {
        assert(header[i] as u8 == bytes[i]);
    }
    assert(raw =~= bytes + (seq![10u8] + data));
    lemma_line_feed_at(bytes, seq![10u8] + data);
    assert(raw.take(bytes.len() as int) =~= bytes);
    assert(raw.skip(bytes.len() as int + 1) =~= data);
}

/// A tensor that a model process writes in the framed form is read back as it
/// was: for every known datatype, every shape with positive dimensions, and every
/// data of the length that they ask for, whatever bytes it holds. A shape of more
/// elements than the limit here has no data that fits in memory.
pub proof fn law_framed_tensor_read_back(
    canonical: Seq<char>,
    shape: Seq<i64>,
    data: Seq<u8>,
    width: usize,
    model: Seq<char>,
)
    requires
        dtype::spec_canonical_to_kserve(canonical) matches Some((_, w)) && w == width,
        shape.len() > 0,
        forall|i: int| 0 <= i < shape.len() ==> #[trigger] shape[i] > 0,
        tensor::product(shape) <= i64::MAX,
        data.len() == tensor::product(shape) * width,
    ensures
        spec_framed_tensor(framed(canonical, shape, data), model) == Ok::<
            (Seq<i64>, Seq<u8>, Seq<char>),
            StatusView,
        >((shape, data, canonical)),
{
    lemma_canonical_visible(canonical);
    lemma_frame_header(canonical, shape, data, model);
    lemma_dims_read_back(shape, model);
    tensor::law_element_count(shape);
    lemma_width(canonical);
    let count = tensor::product(shape);
    assert((count * width) % (width as int) == 0 && (count * width) / (width as int) == count)
        by (nonlinear_arith)
        requires
            width > 0,
            count >= 1,
    ;
}

proof fn lemma_width(canonical: Seq<char>)
    requires
        dtype::spec_canonical_to_kserve(canonical) is Some,
    ensures
        dtype::spec_canonical_to_kserve(canonical)->Some_0.1 > 0,
{
    let known = dtype::spec_canonical_to_kserve(canonical)->Some_0;
    dtype::law_names_invert(known.0, canonical, known.1);
    dtype::law_widths(known.0);
}

proof fn lemma_bad_dim(shape: Seq<i64>, model: Seq<char>, k: int)
    requires
        0 <= k < shape.len(),
        shape[k] <= 0,
    ensures
        frame_dims(tensor::dim_texts(shape), model) is Err,
    decreases shape.len(),
{
    let texts = tensor::dim_texts(shape);
    let front = shape.drop_last();
    assert(texts.drop_last() =~= tensor::dim_texts(front));
    if k < front.len() {
        lemma_bad_dim(front, model, k);
    } else {
        let d = shape.last();
        if d < 0 {
            lemma_digits_visible((-d) as nat);
        } else {
            lemma_digits_visible(d as nat);
        }
        number::law_decimal_read_back(d as int, i64::MIN as int, i64::MAX as int);
    }
}

/// What a framed tensor must be to be accepted, whatever bytes a model process
/// wrote: there is a line feed, the header before it names a known datatype and a
/// shape of positive dimensions, and the bytes behind it are as many as the shape
/// and the datatype ask for, and are handed on. Everything else is refused as an
/// internal error.
pub proof fn law_accepted_frames(raw: Seq<u8>, model: Seq<char>)
    ensures
        match spec_framed_tensor(raw, model) {
            Ok((shape, data, canonical)) => {
                &&& raw.contains(10)
                &&& vstd::utf8::valid_utf8(raw.take(first_line_feed(raw) as int))
                &&& spec_frame_type(raw) == Some(canonical)
                &&& dtype::spec_canonical_to_kserve(canonical) matches Some((_, width))
                    && data.len() == tensor::product(shape) * width
                &&& shape.len() > 0
                &&& forall|i: int| 0 <= i < shape.len() ==> #[trigger] shape[i] > 0
                &&& data == raw.skip(first_line_feed(raw) as int + 1)
            },
            Err(status) => status.0 == Code::Internal,
        },
{
    let end = first_line_feed(raw) as int;
    lemma_first_line_feed(raw);
    if let Ok((shape, data, canonical)) = spec_framed_tensor(raw, model) {
        assert(raw.contains(raw[end]));
        let header = vstd::utf8::decode_utf8(raw.take(end));
        let words = text::words(header);
        lemma_frame_dims_positive(text::split(words[1], ','), model);
        tensor::law_element_count(shape);
        lemma_width(canonical);
        let width = dtype::spec_canonical_to_kserve(canonical)->Some_0.1;
        lemma_whole(data.len(), width as nat, tensor::product(shape));
    }
}

proof fn lemma_whole(length: nat, width: nat, count: int)
    by (nonlinear_arith)
    requires
        width > 0,
        length % width == 0,
        length / width == count,
    ensures
        length == count * width,
{
}

proof fn lemma_first_line_feed(raw: Seq<u8>)
    ensures
        first_line_feed(raw) <= raw.len(),
        first_line_feed(raw) < raw.len() ==> raw[first_line_feed(raw) as int] == 10,
        first_line_feed(raw) == raw.len() <==> !raw.contains(10),
    decreases raw.len(),
{
    if raw.len() > 0 {
        if raw[0] == 10 {
            assert(raw.contains(raw[0]));
        } else {
            let rest = raw.skip(1);
            lemma_first_line_feed(rest);
            if raw.contains(10) {
                let k = choose|k: int| 0 <= k < raw.len() && raw[k] == 10;
                assert(rest[k - 1] == 10);
                assert(rest.contains(rest[k - 1]));
            }
            if rest.contains(10) {
                let k = choose|k: int| 0 <= k < rest.len() && rest[k] == 10;
                assert(raw[k + 1] == 10);
                assert(raw.contains(raw[k + 1]));
            }
        }
    }
}

/// Output without a line feed is no framed tensor.
pub proof fn law_unframed_output_refused(raw: Seq<u8>, model: Seq<char>)
    requires
        !raw.contains(10),
    ensures
        spec_framed_tensor(raw, model) matches Err(status) && status.0 == Code::Internal,
{
    law_accepted_frames(raw, model);
}

/// A framed tensor is refused as an internal error where its datatype is unknown,
/// it has no dimensions, one of them is zero or less, or the bytes are not as many
/// as the shape and the datatype ask for.
pub proof fn law_malformed_frames_refused(
    canonical: Seq<char>,
    shape: Seq<i64>,
    data: Seq<u8>,
    model: Seq<char>,
)
    requires
        canonical.len() > 0,
        all_visible(canonical),
        ({
            ||| dtype::spec_canonical_to_kserve(canonical) is None
            ||| shape.len() == 0
            ||| exists|i: int| 0 <= i < shape.len() && #[trigger] shape[i] <= 0
            ||| dtype::spec_canonical_to_kserve(canonical) matches Some((_, width)) && data.len()
                != tensor::product(shape) * width
        }),
    ensures
        spec_framed_tensor(framed(canonical, shape, data), model) matches Err(status) && status.0
            == Code::Internal,
{
    let raw = framed(canonical, shape, data);
    lemma_frame_header(canonical, shape, data, model);
    if let Some((_, width)) = dtype::spec_canonical_to_kserve(canonical) {
        if shape.len() > 0 {
            if exists|i: int| 0 <= i < shape.len() && #[trigger] shape[i] <= 0 {
                let k = choose|i: int| 0 <= i < shape.len() && #[trigger] shape[i] <= 0;
                lemma_bad_dim(shape, model, k);
            } else {
                lemma_dims_read_back(shape, model);
                tensor::law_element_count(shape);
                lemma_width(canonical);
                if data.len() % (width as nat) == 0 && data.len() / (width as nat)
                    == tensor::product(shape) {
                    lemma_whole(data.len(), width as nat, tensor::product(shape));
                }
            }
        }
    }
}

} // verus!
