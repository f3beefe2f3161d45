//! TensorFlow SavedModels. TensorFlow itself is called from outside the library;
//! which tensors of a signature are fed and fetched, and how a device is pinned,
//! is decided here.

use vstd::prelude::*;

use crate::contract::Contract;
use crate::engine;
use crate::engine::{
    bind_feeds, declared_names, name_outputs, read_fed_contract, Engine, EngineOutput,
};
use crate::names;
use crate::names::find_name;
use crate::number;
use crate::number::decimal_usize;
use crate::order;
use crate::order::sorted_names;
use crate::status::{Code, Status, StatusView};
use crate::tensor;
use crate::tensor::{Tensor, TensorView};
use crate::text;
use crate::text::{cat6, chars_of};
use crate::textproto::TextFile;
use crate::triton;

verus! {

/// Whether each of the declared names is a key of the signature.
pub open spec fn all_known(declared: Seq<Seq<char>>, keys: Seq<Seq<char>>) -> bool {
    names::first_unknown(declared, keys, 0) >= declared.len()
}

fn knows_all(declared: &Vec<String>, keys: &Vec<String>) -> (r: bool)
    ensures
        r == all_known(text::texts(declared@), text::texts(keys@)),
{
    let ghost d = text::texts(declared@);
    let ghost k = text::texts(keys@);
    let mut i: usize = 0;
    while i < declared.len()
        invariant
            i <= declared@.len(),
            d == text::texts(declared@),
            k == text::texts(keys@),
            names::first_unknown(d, k, 0) == names::first_unknown(d, k, i as int),
        decreases declared@.len() - i,
    {
        assert(d[i as int] == declared@[i as int]@);
        if find_name(keys, declared[i].as_str()) >= keys.len() {
            return false;
        }
        i = i + 1;
    }
    true
}

fn copy_names(list: &Vec<String>) -> (r: Vec<String>)
    ensures
        text::texts(r@) == text::texts(list@),
{
    let mut out: Vec<String> = Vec::new();
    let mut i: usize = 0;
    while i < list.len()
        invariant
            i <= list@.len(),
            out@.len() == i,
            forall|k: int| 0 <= k < i ==> (#[trigger] out@[k])@ == list@[k]@,
        decreases list@.len() - i,
    {
        out.push(list[i].clone());
        i = i + 1;
    }
    assert(text::texts(out@) =~= text::texts(list@));
    out
}

/// The tensors of a signature to use: the declared ones where there are any and
/// the signature has them all, else all keys of the signature, in order.
pub fn names_or_signature_keys(declared: &Vec<String>, keys: &Vec<String>) -> (r: Vec<String>)
    ensures
        if declared@.len() > 0 && all_known(text::texts(declared@), text::texts(keys@)) {
            text::texts(r@) == text::texts(declared@)
        } else {
            &&& order::in_order(text::texts(r@))
            &&& text::texts(r@).to_multiset() == text::texts(keys@).to_multiset()
        },
{
    if declared.len() > 0 && knows_all(declared, keys) {
        copy_names(declared)
    } else {
        sorted_names(keys)
    }
}

/// The characters of a decimal number as bytes.
pub open spec fn ascii(text: Seq<char>) -> Seq<u8> {
    Seq::new(text.len(), |i: int| text[i] as u8)
}

/// The configuration that makes one device visible, in the wire format of protocol
/// buffers: field 6, the device options, holds field 5, the list of devices.
pub open spec fn spec_device_config(index: usize) -> Seq<u8> {
    let list = ascii(number::decimal(index as int));
    seq![0x32u8, (list.len() + 2) as u8, 0x2au8, list.len() as u8] + list
}

proof fn lemma_digits_short(n: nat, places: nat)
    requires
        n < pow10(places),
        places > 0,
    ensures
        1 <= number::digits(n).len() <= places,
        forall|i: int|
            0 <= i < number::digits(n).len() ==> '0' <= (#[trigger] number::digits(n)[i]) <= '9',
    decreases n,
{
    if n >= 10 {
        if places == 1 {
            assert(pow10(1) == 10) by {
                reveal_with_fuel(pow10, 2);
            }
        }
        assert(pow10(places) == 10 * pow10((places - 1) as nat));
        lemma_digits_short(n / 10, (places - 1) as nat);
        let front = number::digits(n / 10);
        assert forall|i: int| 0 <= i < number::digits(n).len() implies '0' <= (
        #[trigger] number::digits(n)[i]) <= '9' by {
            if i < front.len() {
                assert(number::digits(n)[i] == front[i]);
            }
        }
    }
}

spec fn pow10(n: nat) -> nat
    decreases n,
{
    if n == 0 {
        1
    } else {
        10 * pow10((n - 1) as nat)
    }
}

/// Makes the configuration that makes one device visible.
pub fn gpu_visible_device_config(index: usize) -> (r: Vec<u8>)
    ensures
        r@ == spec_device_config(index),
{
    let shown = decimal_usize(index);
    let list = chars_of(shown.as_str());
    proof {
        assert(pow10(20) == 100000000000000000000nat) by {
            reveal_with_fuel(pow10, 21);
        }
        lemma_digits_short(index as nat, 20);
    }
    let mut out: Vec<u8> = Vec::new();
    out.push(0x32);
    out.push((list.len() + 2) as u8);
    out.push(0x2a);
    out.push(list.len() as u8);
    let ghost head = out@;
    let mut i: usize = 0;
    while i < list.len()
        invariant
            i <= list@.len(),
            head.len() == 4,
            list@ == number::decimal(index as int),
            forall|k: int| 0 <= k < list@.len() ==> '0' <= (#[trigger] list@[k]) <= '9',
            out@ == head + ascii(list@).take(i as int),
        decreases list@.len() - i,
    {
        out.push(list[i] as u8);
        i = i + 1;
        assert(out@ =~= head + ascii(list@).take(i as int));
    }
    assert(out@ =~= spec_device_config(index));
    out
}

/// The verdict on an input whose elements must fill the shape. `implied` is how
/// many elements the shape has room for.
pub fn check_elements(t: &Tensor, elements: usize, implied: usize) -> (r: Result<(), Status>)
    ensures
        if elements == implied {
            r is Ok
        } else {
            r matches Err(e) && e@ == (
                Code::InvalidArgument,
                "TensorFlow backend: model '"@ + t@.name + "' input has "@ + number::decimal(
                    elements as int,
                ) + " elements but shape implies "@ + number::decimal(implied as int),
            )
        },
{
    if elements == implied {
        return Ok(());
    }
    let got = decimal_usize(elements);
    let room = decimal_usize(implied);
    Err(
        Status::invalid_argument(
            cat6(
                "TensorFlow backend: model '",
                t.name.as_str(),
                "' input has ",
                got.as_str(),
                " elements but shape implies ",
                room.as_str(),
            ),
        ),
    )
}

/// The names of a TensorFlow model's tensors, as its contract declares them.
#[derive(Debug)]
pub struct TensorflowBackend {
    pub input_names: Vec<String>,
    pub output_names: Vec<String>,
}

impl TensorflowBackend {
    /// Reads what a TensorFlow model declares.
    pub fn load(model_name: &str, file: &TextFile) -> (r: Result<
        (TensorflowBackend, Contract),
        Status,
    >)
        ensures
            match engine::fed_contract("TensorFlow"@, model_name@, *file) {
                Ok(declared) => r matches Ok((backend, contract)) && {
                    &&& contract@ == declared
                    &&& text::texts(backend.input_names@) == triton::spec_names(declared.inputs)
                    &&& text::texts(backend.output_names@) == triton::spec_names(declared.outputs)
                },
                Err(status) => r matches Err(e) && e@ == status,
            },
    {
        match read_fed_contract("TensorFlow", model_name, file) {
            Ok(contract) => {
                let input_names = declared_names(&contract.inputs);
                let output_names = declared_names(&contract.outputs);
                Ok((TensorflowBackend { input_names, output_names }, contract))
            },
            Err(status) => Err(status),
        }
    }

    /// Binds the model to a signature, given by its keys.
    pub fn bind(self, inputs: &Vec<String>, outputs: &Vec<String>) -> (r: TensorflowBackend)
        ensures
            if self.input_names@.len() > 0 && all_known(
                text::texts(self.input_names@),
                text::texts(inputs@),
            ) {
                text::texts(r.input_names@) == text::texts(self.input_names@)
            } else {
                &&& order::in_order(text::texts(r.input_names@))
                &&& text::texts(r.input_names@).to_multiset() == text::texts(
                    inputs@,
                ).to_multiset()
            },
            if self.output_names@.len() > 0 && all_known(
                text::texts(self.output_names@),
                text::texts(outputs@),
            ) {
                text::texts(r.output_names@) == text::texts(self.output_names@)
            } else {
                &&& order::in_order(text::texts(r.output_names@))
                &&& text::texts(r.output_names@).to_multiset() == text::texts(
                    outputs@,
                ).to_multiset()
            },
    {
        TensorflowBackend {
            input_names: names_or_signature_keys(&self.input_names, inputs),
            output_names: names_or_signature_keys(&self.output_names, outputs),
        }
    }

    /// The platform that the model reports.
    pub fn platform(&self) -> (r: &'static str)
        ensures
            r@ == "tensorflow_savedmodel"@,
    {
        "tensorflow_savedmodel"
    }

    /// Binds the inputs of a request to those of the signature, by position.
    pub fn feeds(&self, inputs: Vec<Tensor>) -> (r: Result<Vec<(String, Tensor)>, Status>)
        ensures
            match r {
                Ok(feeds) => engine::spec_feeds(
                    Engine::Tensorflow,
                    text::texts(self.input_names@),
                    tensor::tensor_views(inputs@),
                ) == Ok::<Seq<(Seq<char>, TensorView)>, StatusView>(engine::feed_views(feeds@)),
                Err(e) => engine::spec_feeds(
                    Engine::Tensorflow,
                    text::texts(self.input_names@),
                    tensor::tensor_views(inputs@),
                ) == Err::<Seq<(Seq<char>, TensorView)>, StatusView>(e@),
            },
    {
        bind_feeds(Engine::Tensorflow, &self.input_names, inputs)
    }

    /// Makes the outputs of the model from what was fetched for each of their names.
    pub fn outputs(&self, given: Vec<Result<EngineOutput, Status>>) -> (r: Result<
        Vec<Tensor>,
        Status,
    >)
        requires
            given@.len() == self.output_names@.len(),
        ensures
            match r {
                Ok(outputs) => engine::spec_named_outputs(
                    Engine::Tensorflow,
                    text::texts(self.output_names@),
                    given@,
                ) == Ok::<Seq<TensorView>, StatusView>(tensor::tensor_views(outputs@)),
                Err(e) => engine::spec_named_outputs(
                    Engine::Tensorflow,
                    text::texts(self.output_names@),
                    given@,
                ) == Err::<Seq<TensorView>, StatusView>(e@),
            },
    {
        name_outputs(Engine::Tensorflow, &self.output_names, given)
    }
}

} // verus!
