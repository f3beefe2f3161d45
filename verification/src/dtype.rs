//! Datatype names: KServe's spelling, the canonical lowercase name that model
//! processes use, and the width of one element.
//!
//! Only fixed-width datatypes are known. `BYTES` holds strings of varying
//! length and is therefore not among them.

use vstd::prelude::*;

use crate::number;
use crate::text::same;

verus! {

/// The element width and the canonical name of a KServe datatype.
pub open spec fn spec_fixed_width(datatype: Seq<char>) -> Option<(usize, Seq<char>)> {
    if datatype == "BOOL"@ {
        Some((1usize, "bool"@))
    } else if datatype == "UINT8"@ {
        Some((1usize, "uint8"@))
    } else if datatype == "UINT16"@ {
        Some((2usize, "uint16"@))
    } else if datatype == "UINT32"@ {
        Some((4usize, "uint32"@))
    } else if datatype == "UINT64"@ {
        Some((8usize, "uint64"@))
    } else if datatype == "INT8"@ {
        Some((1usize, "int8"@))
    } else if datatype == "INT16"@ {
        Some((2usize, "int16"@))
    } else if datatype == "INT32"@ {
        Some((4usize, "int32"@))
    } else if datatype == "INT64"@ {
        Some((8usize, "int64"@))
    } else if datatype == "FP16"@ {
        Some((2usize, "float16"@))
    } else if datatype == "FP32"@ {
        Some((4usize, "float32"@))
    } else if datatype == "FP64"@ {
        Some((8usize, "float64"@))
    } else if datatype == "BF16"@ {
        Some((2usize, "bfloat16"@))
    } else {
        None
    }
}

/// The KServe datatype and the element width of a canonical name.
pub open spec fn spec_canonical_to_kserve(canonical: Seq<char>) -> Option<(Seq<char>, usize)> {
    if canonical == "bool"@ {
        Some(("BOOL"@, 1usize))
    } else if canonical == "uint8"@ {
        Some(("UINT8"@, 1usize))
    } else if canonical == "uint16"@ {
        Some(("UINT16"@, 2usize))
    } else if canonical == "uint32"@ {
        Some(("UINT32"@, 4usize))
    } else if canonical == "uint64"@ {
        Some(("UINT64"@, 8usize))
    } else if canonical == "int8"@ {
        Some(("INT8"@, 1usize))
    } else if canonical == "int16"@ {
        Some(("INT16"@, 2usize))
    } else if canonical == "int32"@ {
        Some(("INT32"@, 4usize))
    } else if canonical == "int64"@ {
        Some(("INT64"@, 8usize))
    } else if canonical == "float16"@ {
        Some(("FP16"@, 2usize))
    } else if canonical == "float32"@ {
        Some(("FP32"@, 4usize))
    } else if canonical == "float64"@ {
        Some(("FP64"@, 8usize))
    } else if canonical == "bfloat16"@ {
        Some(("BF16"@, 2usize))
    } else {
        None
    }
}

/// For a fixed-width KServe datatype (`"INT32"`), its element size in bytes and
/// the canonical lowercase name (`(4, "int32")`). `None` for `BYTES` and for any
/// name that is not a KServe datatype.
pub fn kserve_fixed_width(datatype: &str) -> (r: Option<(usize, &'static str)>)
    ensures
        match r {
            Some((width, canonical)) => spec_fixed_width(datatype@) == Some((width, canonical@)),
            None => spec_fixed_width(datatype@) is None,
        },
{
    if same(datatype, "BOOL") {
        Some((1usize, "bool"))
    } else if same(datatype, "UINT8") {
        Some((1usize, "uint8"))
    } else if same(datatype, "UINT16") {
        Some((2usize, "uint16"))
    } else if same(datatype, "UINT32") {
        Some((4usize, "uint32"))
    } else if same(datatype, "UINT64") {
        Some((8usize, "uint64"))
    } else if same(datatype, "INT8") {
        Some((1usize, "int8"))
    } else if same(datatype, "INT16") {
        Some((2usize, "int16"))
    } else if same(datatype, "INT32") {
        Some((4usize, "int32"))
    } else if same(datatype, "INT64") {
        Some((8usize, "int64"))
    } else if same(datatype, "FP16") {
        Some((2usize, "float16"))
    } else if same(datatype, "FP32") {
        Some((4usize, "float32"))
    } else if same(datatype, "FP64") {
        Some((8usize, "float64"))
    } else if same(datatype, "BF16") {
        Some((2usize, "bfloat16"))
    } else {
        None
    }
}

/// For a canonical name (`"int32"`), the KServe datatype and the element size in
/// bytes (`("INT32", 4)`). `None` for any other name.
pub fn canonical_to_kserve(canonical: &str) -> (r: Option<(&'static str, usize)>)
    ensures
        match r {
            Some((datatype, width)) => spec_canonical_to_kserve(canonical@) == Some(
                (datatype@, width),
            ),
            None => spec_canonical_to_kserve(canonical@) is None,
        },
{
    if same(canonical, "bool") {
        Some(("BOOL", 1usize))
    } else if same(canonical, "uint8") {
        Some(("UINT8", 1usize))
    } else if same(canonical, "uint16") {
        Some(("UINT16", 2usize))
    } else if same(canonical, "uint32") {
        Some(("UINT32", 4usize))
    } else if same(canonical, "uint64") {
        Some(("UINT64", 8usize))
    } else if same(canonical, "int8") {
        Some(("INT8", 1usize))
    } else if same(canonical, "int16") {
        Some(("INT16", 2usize))
    } else if same(canonical, "int32") {
        Some(("INT32", 4usize))
    } else if same(canonical, "int64") {
        Some(("INT64", 8usize))
    } else if same(canonical, "float16") {
        Some(("FP16", 2usize))
    } else if same(canonical, "float32") {
        Some(("FP32", 4usize))
    } else if same(canonical, "float64") {
        Some(("FP64", 8usize))
    } else if same(canonical, "bfloat16") {
        Some(("BF16", 2usize))
    } else {
        None
    }
}

/// The two tables are inverse to each other: a datatype leads to a canonical
/// name exactly if that name leads back to it, with the same width.
pub proof fn law_names_invert(datatype: Seq<char>, canonical: Seq<char>, width: usize)
    ensures
        spec_fixed_width(datatype) == Some((width, canonical)) <==> spec_canonical_to_kserve(
            canonical,
        ) == Some((datatype, width)),
{
    lemma_literals();
}

/// The first character, the length and the last two characters of each name,
/// which tell the names of one table apart.
pub proof fn lemma_literals()
    ensures
        "BOOL"@.len() == 4 && "BOOL"@[0] == 'B' && "BOOL"@[2] == 'O' && "BOOL"@[3] == 'L',
        "bool"@.len() == 4 && "bool"@[0] == 'b' && "bool"@[2] == 'o' && "bool"@[3] == 'l',
        "UINT8"@.len() == 5 && "UINT8"@[0] == 'U' && "UINT8"@[3] == 'T' && "UINT8"@[4] == '8',
        "uint8"@.len() == 5 && "uint8"@[0] == 'u' && "uint8"@[3] == 't' && "uint8"@[4] == '8',
        "UINT16"@.len() == 6 && "UINT16"@[0] == 'U' && "UINT16"@[4] == '1' && "UINT16"@[5] == '6',
        "uint16"@.len() == 6 && "uint16"@[0] == 'u' && "uint16"@[4] == '1' && "uint16"@[5] == '6',
        "UINT32"@.len() == 6 && "UINT32"@[0] == 'U' && "UINT32"@[4] == '3' && "UINT32"@[5] == '2',
        "uint32"@.len() == 6 && "uint32"@[0] == 'u' && "uint32"@[4] == '3' && "uint32"@[5] == '2',
        "UINT64"@.len() == 6 && "UINT64"@[0] == 'U' && "UINT64"@[4] == '6' && "UINT64"@[5] == '4',
        "uint64"@.len() == 6 && "uint64"@[0] == 'u' && "uint64"@[4] == '6' && "uint64"@[5] == '4',
        "INT8"@.len() == 4 && "INT8"@[0] == 'I' && "INT8"@[2] == 'T' && "INT8"@[3] == '8',
        "int8"@.len() == 4 && "int8"@[0] == 'i' && "int8"@[2] == 't' && "int8"@[3] == '8',
        "INT16"@.len() == 5 && "INT16"@[0] == 'I' && "INT16"@[3] == '1' && "INT16"@[4] == '6',
        "int16"@.len() == 5 && "int16"@[0] == 'i' && "int16"@[3] == '1' && "int16"@[4] == '6',
        "INT32"@.len() == 5 && "INT32"@[0] == 'I' && "INT32"@[3] == '3' && "INT32"@[4] == '2',
        "int32"@.len() == 5 && "int32"@[0] == 'i' && "int32"@[3] == '3' && "int32"@[4] == '2',
        "INT64"@.len() == 5 && "INT64"@[0] == 'I' && "INT64"@[3] == '6' && "INT64"@[4] == '4',
        "int64"@.len() == 5 && "int64"@[0] == 'i' && "int64"@[3] == '6' && "int64"@[4] == '4',
        "FP16"@.len() == 4 && "FP16"@[0] == 'F' && "FP16"@[2] == '1' && "FP16"@[3] == '6',
        "float16"@.len() == 7 && "float16"@[0] == 'f' && "float16"@[5] == '1' && "float16"@[6] == '6',
        "FP32"@.len() == 4 && "FP32"@[0] == 'F' && "FP32"@[2] == '3' && "FP32"@[3] == '2',
        "float32"@.len() == 7 && "float32"@[0] == 'f' && "float32"@[5] == '3' && "float32"@[6] == '2',
        "FP64"@.len() == 4 && "FP64"@[0] == 'F' && "FP64"@[2] == '6' && "FP64"@[3] == '4',
        "float64"@.len() == 7 && "float64"@[0] == 'f' && "float64"@[5] == '6' && "float64"@[6] == '4',
        "BF16"@.len() == 4 && "BF16"@[0] == 'B' && "BF16"@[2] == '1' && "BF16"@[3] == '6',
        "bfloat16"@.len() == 8 && "bfloat16"@[0] == 'b' && "bfloat16"@[6] == '1' && "bfloat16"@[7] == '6',
{
    reveal_strlit("BOOL");
    reveal_strlit("bool");
    reveal_strlit("UINT8");
    reveal_strlit("uint8");
    reveal_strlit("UINT16");
    reveal_strlit("uint16");
    reveal_strlit("UINT32");
    reveal_strlit("uint32");
    reveal_strlit("UINT64");
    reveal_strlit("uint64");
    reveal_strlit("INT8");
    reveal_strlit("int8");
    reveal_strlit("INT16");
    reveal_strlit("int16");
    reveal_strlit("INT32");
    reveal_strlit("int32");
    reveal_strlit("INT64");
    reveal_strlit("int64");
    reveal_strlit("FP16");
    reveal_strlit("float16");
    reveal_strlit("FP32");
    reveal_strlit("float32");
    reveal_strlit("FP64");
    reveal_strlit("float64");
    reveal_strlit("BF16");
    reveal_strlit("bfloat16");
}

/// An element of a known datatype is one, two, four or eight bytes wide.
pub proof fn law_widths(datatype: Seq<char>)
    ensures
        spec_fixed_width(datatype) matches Some((width, _)) ==> width == 1 || width == 2 || width
            == 4 || width == 8,
{
}

/// The number of bits in an element of so many bytes, as names write it.
pub open spec fn bits(width: usize) -> Seq<char> {
    number::decimal(8 * width as int)
}

/// Whether both names of a datatype are those of its kind: the same word, in the
/// two spellings, and the number of its bits.
pub open spec fn named_by_kind(datatype: Seq<char>, width: usize, canonical: Seq<char>) -> bool {
    ||| datatype == "BOOL"@ && canonical == "bool"@ && width == 1
    ||| datatype == "UINT"@ + bits(width) && canonical == "uint"@ + bits(width)
    ||| datatype == "INT"@ + bits(width) && canonical == "int"@ + bits(width)
    ||| datatype == "FP"@ + bits(width) && canonical == "float"@ + bits(width) && width > 1
    ||| datatype == "BF"@ + bits(width) && canonical == "bfloat"@ + bits(width) && width == 2
}

proof fn lemma_bits()
    ensures
        bits(1) == seq!['8'],
        bits(2) == seq!['1', '6'],
        bits(4) == seq!['3', '2'],
        bits(8) == seq!['6', '4'],
{
    reveal_with_fuel(number::digits, 3);
    assert(number::digits(8) =~= seq!['8']);
    assert(number::digits(1) =~= seq!['1']);
    assert(number::digits(3) =~= seq!['3']);
    assert(number::digits(6) =~= seq!['6']);
    assert(number::digits(16) =~= seq!['1', '6']);
    assert(number::digits(32) =~= seq!['3', '2']);
    assert(number::digits(64) =~= seq!['6', '4']);
}

/// The names of a datatype tell its kind and its width: the KServe name and the
/// canonical name are the same word in two spellings, with the number of bits of an
/// element behind it. These are all datatypes there are: truth values, and the
/// numbers of one, two, four and eight bytes, of floats those of two and more.
pub proof fn law_names_tell_kind_and_width(datatype: Seq<char>, canonical: Seq<char>, width: usize)
    ensures
        spec_fixed_width(datatype) == Some((width, canonical)) <==> named_by_kind(
            datatype,
            width,
            canonical,
        ) && (width == 1 || width == 2 || width == 4 || width == 8),
{
    lemma_bits();
    reveal_strlit("UINT");
    reveal_strlit("uint");
    reveal_strlit("INT");
    reveal_strlit("int");
    reveal_strlit("FP");
    reveal_strlit("float");
    reveal_strlit("BF");
    reveal_strlit("bfloat");
    lemma_spelled();
    lemma_literals();
}

/// The names spelled as a word and a number of bits.
pub proof fn lemma_spelled()
    ensures
        "UINT8"@ == "UINT"@ + bits(1) && "uint8"@ == "uint"@ + bits(1),
        "UINT16"@ == "UINT"@ + bits(2) && "uint16"@ == "uint"@ + bits(2),
        "UINT32"@ == "UINT"@ + bits(4) && "uint32"@ == "uint"@ + bits(4),
        "UINT64"@ == "UINT"@ + bits(8) && "uint64"@ == "uint"@ + bits(8),
        "INT8"@ == "INT"@ + bits(1) && "int8"@ == "int"@ + bits(1),
        "INT16"@ == "INT"@ + bits(2) && "int16"@ == "int"@ + bits(2),
        "INT32"@ == "INT"@ + bits(4) && "int32"@ == "int"@ + bits(4),
        "INT64"@ == "INT"@ + bits(8) && "int64"@ == "int"@ + bits(8),
        "FP16"@ == "FP"@ + bits(2) && "float16"@ == "float"@ + bits(2),
        "FP32"@ == "FP"@ + bits(4) && "float32"@ == "float"@ + bits(4),
        "FP64"@ == "FP"@ + bits(8) && "float64"@ == "float"@ + bits(8),
        "BF16"@ == "BF"@ + bits(2) && "bfloat16"@ == "bfloat"@ + bits(2),
{
    lemma_bits();
    reveal_strlit("UINT");
    reveal_strlit("uint");
    reveal_strlit("INT");
    reveal_strlit("int");
    reveal_strlit("FP");
    reveal_strlit("float");
    reveal_strlit("BF");
    reveal_strlit("bfloat");
    reveal_strlit("UINT8");
    reveal_strlit("uint8");
    reveal_strlit("UINT16");
    reveal_strlit("uint16");
    reveal_strlit("UINT32");
    reveal_strlit("uint32");
    reveal_strlit("UINT64");
    reveal_strlit("uint64");
    reveal_strlit("INT8");
    reveal_strlit("int8");
    reveal_strlit("INT16");
    reveal_strlit("int16");
    reveal_strlit("INT32");
    reveal_strlit("int32");
    reveal_strlit("INT64");
    reveal_strlit("int64");
    reveal_strlit("FP16");
    reveal_strlit("float16");
    reveal_strlit("FP32");
    reveal_strlit("float32");
    reveal_strlit("FP64");
    reveal_strlit("float64");
    reveal_strlit("BF16");
    reveal_strlit("bfloat16");
    assert("UINT8"@ =~= "UINT"@ + bits(1) && "uint8"@ =~= "uint"@ + bits(1));
    assert("UINT16"@ =~= "UINT"@ + bits(2) && "uint16"@ =~= "uint"@ + bits(2));
    assert("UINT32"@ =~= "UINT"@ + bits(4) && "uint32"@ =~= "uint"@ + bits(4));
    assert("UINT64"@ =~= "UINT"@ + bits(8) && "uint64"@ =~= "uint"@ + bits(8));
    assert("INT8"@ =~= "INT"@ + bits(1) && "int8"@ =~= "int"@ + bits(1));
    assert("INT16"@ =~= "INT"@ + bits(2) && "int16"@ =~= "int"@ + bits(2));
    assert("INT32"@ =~= "INT"@ + bits(4) && "int32"@ =~= "int"@ + bits(4));
    assert("INT64"@ =~= "INT"@ + bits(8) && "int64"@ =~= "int"@ + bits(8));
    assert("FP16"@ =~= "FP"@ + bits(2) && "float16"@ =~= "float"@ + bits(2));
    assert("FP32"@ =~= "FP"@ + bits(4) && "float32"@ =~= "float"@ + bits(4));
    assert("FP64"@ =~= "FP"@ + bits(8) && "float64"@ =~= "float"@ + bits(8));
    assert("BF16"@ =~= "BF"@ + bits(2) && "bfloat16"@ =~= "bfloat"@ + bits(2));
}

} // verus!
