//! How models are run outside of the server and what comes back of them, in terms of
//! what they are given and what they leave.

use vstd::prelude::*;

use crate::backends;
use crate::checkpoint;
use crate::checkpoint::CheckpointView;
use crate::child;
use crate::child::{ChildEnd, CommandOutput, Runner, TensorInput};
use crate::choosing;
use crate::config;
use crate::config::{ModelConfig, ModelDevice};
use crate::contract;
use crate::contract::ContractView;
use crate::counting;
use crate::cpp;
use crate::cpp::BuildStep;
use crate::dtype;
use crate::engine;
use crate::folder;
use crate::folder::Folder;
use crate::frame;
use crate::inference;
use crate::inference::SingleForward;
use crate::metrics;
use crate::metrics::{ModelMetrics, RegistryView, TimerView};
use crate::names;
use crate::native;
use crate::native::NativeKind;
use crate::number;
use crate::number::IntFault;
use crate::onnx;
use crate::order;
use crate::python;
use crate::python::{ScriptEnd, VenvAction, VenvEvent};
use crate::registry;
use crate::registry::BackendRegistration;
use crate::relay;
use crate::runtime;
use crate::runtime::ShapesView;
use crate::scripts;
use crate::scripts::{EnvFaultView, PythonInput};
use crate::startup;
use crate::startup::Location;
use crate::status::{Code, StatusView};
use crate::streams;
use crate::streams::ReadView;
use crate::tensor;
use crate::tensor::TensorView;
use crate::tensorflow;
use crate::text;
use crate::textproto::TextFile;
use crate::wording;

verus! {

/// Whether a text names a CUDA device: `cuda` for the first one, or `cuda:` and the
/// number of one.
pub open spec fn names_cuda(raw: Seq<char>, index: usize) -> bool {
    ||| raw == "cuda"@ && index == 0
    ||| exists|digits: Seq<char>|
        raw == "cuda:"@ + digits && #[trigger] wording::writes(digits, index as int) && digits[0]
            != '-'
}

/// A text is read as the processor exactly if it is `cpu`, and as a CUDA device
/// exactly if it names that device.
pub proof fn law_devices(raw: Seq<char>, index: usize)
    ensures
        config::spec_device(raw) == Ok::<ModelDevice, Seq<char>>(ModelDevice::Cpu) <==> raw
            == "cpu"@,
        config::spec_device(raw) == Ok::<ModelDevice, Seq<char>>(ModelDevice::Cuda(index))
            <==> names_cuda(raw, index),
{
    reveal_strlit("cpu");
    reveal_strlit("cuda");
    reveal_strlit("cuda:");
    let prefix = "cuda:"@;
    let tail = raw.skip(prefix.len() as int);
    let read = number::parse_int(tail, 0, usize::MAX as int);
    wording::law_counts(tail, usize::MAX as int, index as int);
    assert("cpu"@[1] == 'p');
    assert("cuda"@[1] == 'u');
    if text::begins_with(raw, prefix) {
        assert(raw =~= prefix + tail);
        assert(raw[1] == raw.take(5)[1]);
        assert(raw[4] == raw.take(5)[4]);
        number::law_parsed_in_range(tail, 0, usize::MAX as int);
    }
    if names_cuda(raw, index) && raw != "cuda"@ {
        let digits = choose|digits: Seq<char>|
            raw == "cuda:"@ + digits && #[trigger] wording::writes(digits, index as int)
                && digits[0] != '-';
        assert(raw.take(5) =~= prefix);
        assert(tail =~= digits);
        assert(raw[1] == 'u');
        assert(raw.len() > 4);
    }
    if config::spec_device(raw) == Ok::<ModelDevice, Seq<char>>(ModelDevice::Cuda(index)) && raw
        != "cuda"@ {
        assert(read is Ok);
        assert(read == Ok::<int, IntFault>(index as int));
        assert(wording::writes(tail, index as int));
    }
}

/// A text is blank exactly if it is all white space.
pub proof fn law_blank(s: Seq<char>)
    ensures
        config::blank(s) <==> forall|i: int| 0 <= i < s.len() ==> text::is_white(#[trigger] s[i]),
{
    wording::law_trimmed(s);
    let (from, to) = choose|from: int, to: int|
        #[trigger] wording::trims_to(s, text::trim(s), from, to);
    if to > from {
        assert(text::trim(s)[0] == s[from]);
    }
}

proof fn lemma_no_comma(n: i64)
    ensures
        !number::decimal(n as int).contains(','),
        number::parse_int(number::decimal(n as int), i64::MIN as int, i64::MAX as int) == Ok::<
            int,
            IntFault,
        >(n as int),
{
    let s = number::decimal(n as int);
    number::law_decimal_read_back(n as int, i64::MIN as int, i64::MAX as int);
    wording::law_numbers(s, i64::MIN as int, i64::MAX as int, n as int);
    if s.contains(',') {
        let i = choose|i: int| 0 <= i < s.len() && s[i] == ',';
        if wording::is_digits(s) {
            assert('0' <= s[i] <= '9');
        } else {
            assert(i > 0);
            assert('0' <= s.skip(1)[i - 1] <= '9');
        }
    }
}

/// The dimensions that a program is told are read back, from between the commas, as
/// those of the tensor.
pub proof fn law_told_dims(shape: Seq<i64>)
    requires
        shape.len() > 0,
    ensures
        text::split(tensor::comma_dims(shape), ',').len() == shape.len(),
        forall|i: int|
            0 <= i < shape.len() ==> wording::writes(
                text::split(tensor::comma_dims(shape), ',')[i],
                #[trigger] shape[i] as int,
            ),
{
    let parts = tensor::dim_texts(shape);
    reveal_strlit(",");
    assert(","@ =~= seq![',']);
    assert forall|i: int| 0 <= i < parts.len() implies !(#[trigger] parts[i]).contains(',') by {
        lemma_no_comma(shape[i]);
    }
    frame::lemma_split_join(parts, ',', ","@);
    assert forall|i: int| 0 <= i < shape.len() implies wording::writes(
        text::split(tensor::comma_dims(shape), ',')[i],
        #[trigger] shape[i] as int,
    ) by {
        lemma_no_comma(shape[i]);
        wording::law_numbers(parts[i], i64::MIN as int, i64::MAX as int, shape[i] as int);
    }
}

/// Whether an environment sets a variable to a value, once.
pub open spec fn sets(
    env: Seq<(Seq<char>, Seq<char>)>,
    variable: Seq<char>,
    value: Seq<char>,
) -> bool {
    exists|i: int|
        0 <= i < env.len() && #[trigger] env[i] == (variable, value) && forall|j: int|
            0 <= j < env.len() && j != i ==> (#[trigger] env[j]).0 != variable
}

proof fn lemma_variables()
    ensures
        "NEREID_OUTPUT_PATH"@ != "NEREID_OUTPUT_DTYPE"@,
        "NEREID_OUTPUT_PATH"@ != "NEREID_INPUT_SHAPE"@,
        "NEREID_OUTPUT_PATH"@ != "NEREID_INPUT_DTYPE"@,
        "NEREID_OUTPUT_DTYPE"@ != "NEREID_INPUT_SHAPE"@,
        "NEREID_OUTPUT_DTYPE"@ != "NEREID_INPUT_DTYPE"@,
        "NEREID_INPUT_SHAPE"@ != "NEREID_INPUT_DTYPE"@,
{
    reveal_strlit("NEREID_OUTPUT_PATH");
    reveal_strlit("NEREID_OUTPUT_DTYPE");
    reveal_strlit("NEREID_INPUT_SHAPE");
    reveal_strlit("NEREID_INPUT_DTYPE");
    assert("NEREID_OUTPUT_PATH"@[7] == 'O');
    assert("NEREID_OUTPUT_DTYPE"@[7] == 'O');
    assert("NEREID_INPUT_SHAPE"@[7] == 'I');
    assert("NEREID_INPUT_DTYPE"@[7] == 'I');
    assert("NEREID_OUTPUT_PATH"@[14] == 'P');
    assert("NEREID_OUTPUT_DTYPE"@[14] == 'D');
    assert("NEREID_INPUT_SHAPE"@[13] == 'S');
    assert("NEREID_INPUT_DTYPE"@[13] == 'D');
}

/// A program is told where its output goes and of which type it is to be; and where it
/// has an input, that input's shape and type. It is told nothing else.
pub proof fn law_told(
    output_path: Seq<char>,
    output_dtype: Seq<char>,
    input: Option<TensorInput>,
)
    ensures
        ({
            let env = child::child_env(output_path, output_dtype, input);
            &&& sets(env, "NEREID_OUTPUT_PATH"@, output_path)
            &&& sets(env, "NEREID_OUTPUT_DTYPE"@, output_dtype)
            &&& match input {
                None => env.len() == 2,
                Some(t) => {
                    &&& env.len() == 4
                    &&& sets(env, "NEREID_INPUT_SHAPE"@, tensor::comma_dims(t.shape@))
                    &&& sets(env, "NEREID_INPUT_DTYPE"@, t.dtype@)
                },
            }
        }),
        child::wanted_dtype(input) == match input {
            Some(t) => t.dtype@,
            None => "float32"@,
        },
{
    lemma_variables();
    let env = child::child_env(output_path, output_dtype, input);
    assert(env[0] == ("NEREID_OUTPUT_PATH"@, output_path));
    assert(env[1] == ("NEREID_OUTPUT_DTYPE"@, output_dtype));
    if let Some(t) = input {
        assert(env[2] == ("NEREID_INPUT_SHAPE"@, tensor::comma_dims(t.shape@)));
        assert(env[3] == ("NEREID_INPUT_DTYPE"@, t.dtype@));
    }
}

/// A script is told what a program is, of 32-bit floats both ways.
pub proof fn law_script_told(output_path: Seq<char>, input: Option<PythonInput>)
    ensures
        ({
            let env = scripts::script_env(output_path, input);
            &&& sets(env, "NEREID_OUTPUT_PATH"@, output_path)
            &&& sets(env, "NEREID_OUTPUT_DTYPE"@, "float32"@)
            &&& match input {
                None => env.len() == 2,
                Some(t) => {
                    &&& env.len() == 4
                    &&& sets(env, "NEREID_INPUT_SHAPE"@, tensor::comma_dims(t.shape@))
                    &&& sets(env, "NEREID_INPUT_DTYPE"@, "float32"@)
                },
            }
        }),
{
    lemma_variables();
    let env = scripts::script_env(output_path, input);
    assert(env[0] == ("NEREID_OUTPUT_PATH"@, output_path));
    assert(env[1] == ("NEREID_OUTPUT_DTYPE"@, "float32"@));
    if let Some(t) = input {
        assert(env[2] == ("NEREID_INPUT_SHAPE"@, tensor::comma_dims(t.shape@)));
        assert(env[3] == ("NEREID_INPUT_DTYPE"@, "float32"@));
    }
}

/// What a program gives is the tensor that it wrote, exactly if it was run, exited
/// with success, and wrote a readable one. A program that could not be run or failed is
/// a failure of the server; one that wrote nothing is at odds with its declaration.
pub proof fn law_program_gives(runner: Runner, model: Seq<char>, end: ChildEnd)
    ensures
        ({
            let given = child::spec_child_result(runner, model, end);
            match end {
                ChildEnd::Exited { success: true, output: Ok(raw), .. } => given
                    == frame::spec_framed_tensor(raw@, model),
                ChildEnd::Exited { success: true, output: Err(_), .. } => given matches Err(status)
                    && status.0 == Code::FailedPrecondition,
                _ => given matches Err(status) && status.0 == Code::Internal,
            }
        }),
{
}

/// The one output of a program is the tensor that it wrote, under the name `output`.
pub proof fn law_program_output(result: Result<(Seq<i64>, Seq<u8>, Seq<char>), StatusView>)
    ensures
        match (result, child::child_outputs(result)) {
            (Ok((shape, data, dtype)), Ok(outputs)) => {
                &&& outputs.len() == 1
                &&& outputs[0].name == "output"@
                &&& outputs[0].shape == shape
                &&& outputs[0].dtype == dtype
                &&& outputs[0].data == data
            },
            (Err(status), Err(answered)) => status == answered,
            _ => false,
        },
{
}

/// A model that is a program is served by its declaration exactly if the declaration is
/// there and accepted, and declares an output.
pub proof fn law_program_contract(
    kind: Seq<char>,
    model: Seq<char>,
    folder: Folder,
    file: TextFile,
)
    ensures
        ({
            let there = choosing::declaration_there(folder);
            match child::reply_contract(kind, model, folder, file) {
                Ok(contract) => there && file.declares() == Ok::<ContractView, StatusView>(contract)
                    && contract.outputs.len() > 0,
                Err(status) => match file.declares() {
                    Err(fault) => status == if there {
                        fault
                    } else {
                        status
                    },
                    Ok(contract) => !there || contract.outputs.len() == 0,
                },
            }
        }),
        !choosing::declaration_there(folder) || file.declares() is Ok ==> (child::reply_contract(
            kind,
            model,
            folder,
            file,
        ) matches Err(status) ==> status.0 == Code::FailedPrecondition),
{
    choosing::lemma_stands(folder.files@, "model_inference.textproto"@);
}

/// A command is reported by what it wrote: as errors, else as output, and else by the
/// words for a silent one.
pub proof fn law_details(output: CommandOutput, silent: Seq<char>)
    ensures
        ({
            let errors = child::quoted(output.stderr@);
            let written = child::quoted(output.stdout@);
            let told = child::spec_details(output, silent);
            &&& errors.len() > 0 ==> told == errors
            &&& errors.len() == 0 && written.len() > 0 ==> told == written
            &&& errors.len() == 0 && written.len() == 0 ==> told == silent
        }),
{
}

/// The environment of a Python model is created exactly where it is not there yet, its
/// `pip` is looked for once it is there, the requirements are installed with a `pip`
/// that was found, and it is ready once they are. Anything else is a failure of the
/// model's setup.
pub proof fn law_environment(model: Seq<char>, venv: Seq<char>, event: VenvEvent)
    ensures
        ({
            let action = python::spec_venv_action(model, venv, event);
            let other = scripts::spec_env_action(model, venv, event);
            &&& action == Ok::<VenvAction, StatusView>(VenvAction::Create) <==> event == (
            VenvEvent::Looked { requirements: true, exists: false, is_dir: false })
            &&& action == Ok::<VenvAction, StatusView>(VenvAction::LookForPip) <==> match event {
                VenvEvent::Looked { requirements, is_dir, .. } => requirements && is_dir,
                VenvEvent::Created(Ok(output)) => output.success,
                _ => false,
            }
            &&& action == Ok::<VenvAction, StatusView>(VenvAction::Install) <==> event
                == VenvEvent::LookedForPip(true)
            &&& action == Ok::<VenvAction, StatusView>(VenvAction::Finish) <==> match event {
                VenvEvent::Installed(Ok(output)) => output.success,
                _ => false,
            }
            &&& action matches Err(status) ==> status.0 == Code::FailedPrecondition
            &&& action is Ok <==> other is Ok
            &&& action is Ok ==> action->Ok_0 == other->Ok_0
        }),
{
}

/// A Python model can be run exactly if its program and its Python are there.
pub proof fn law_python_command(model: Seq<char>, main: bool, python: bool)
    ensures
        python::spec_python_command(model, main, python) is Ok <==> main && python,
        python::spec_python_command(model, main, python) matches Err(status) ==> status.0
            == Code::NotFound,
{
}

/// A line that a model writes becomes a message with that line, marked where it was
/// written as an error; it neither ends the stream nor carries a tensor.
pub proof fn law_lines_passed_on(line: Result<Seq<char>, Seq<char>>, is_stderr: bool)
    ensures
        match (line, python::line_message(line, is_stderr), scripts::line_message(line, is_stderr)) {
            (Ok(written), Ok(message), Ok(other)) => {
                &&& message.chunk == if is_stderr {
                    "stderr: "@ + written
                } else {
                    written
                }
                &&& !message.done
                &&& message.output_chunk is None
                &&& other == message
            },
            (Err(_), Err(status), Err(other)) => status.0 == Code::Internal && other.0
                == Code::Internal,
            _ => false,
        },
{
}

/// A stream of a script that succeeded carries its tensor, under the name `output`, and
/// ends with its exit code; that of one that failed ends so at once.
pub proof fn law_script_stream(
    model: Seq<char>,
    success: bool,
    code: Option<i32>,
    output: Result<Vec<u8>, String>,
    tensor: Result<(Seq<i64>, Seq<u8>), StatusView>,
)
    ensures
        ({
            let end = ScriptEnd::Exited { success, code, output };
            let told = python::ended_messages(model, end, tensor);
            let shown = match code {
                Some(c) => c,
                None => -1i32,
            };
            &&& success && tensor is Err ==> told == Err::<Seq<CheckpointView>, StatusView>(
                tensor->Err_0,
            )
            &&& !success || tensor is Ok ==> told is Ok
            &&& told matches Ok(messages) ==> {
                &&& messages.len() > 0
                &&& messages.last().done
                &&& messages.last().exit_code == shown
                &&& messages.last().output_chunk is None
                &&& forall|i: int| 0 <= i < messages.len() - 1 ==> !(#[trigger] messages[i]).done
                &&& streams::read(messages) == if success {
                    let (shape, bytes) = tensor->Ok_0;
                    (
                        seq![ReadView { name: "output"@, shape, data: bytes }],
                        None::<ReadView>,
                    )
                } else {
                    (Seq::<ReadView>::empty(), None::<ReadView>)
                }
                &&& !success ==> messages.len() == 1
            }
        }),
{
    let end = ScriptEnd::Exited { success, code, output };
    let shown = match code {
        Some(c) => c,
        None => -1i32,
    };
    let last = checkpoint::done_message(shown);
    if let Ok(messages) = python::ended_messages(model, end, tensor) {
        if success {
            let (shape, bytes) = tensor->Ok_0;
            let t = TensorView { name: "output"@, shape, dtype: Seq::empty(), data: bytes };
            let pieces = checkpoint::tensor_messages("output"@, shape, bytes);
            let count = checkpoint::chunk_count(bytes.len());
            assert(streams::read(Seq::empty()) == (Seq::<ReadView>::empty(), None::<ReadView>));
            streams::lemma_read_pieces(Seq::empty(), t, count);
            assert(pieces.take(count as int) =~= pieces);
            assert(Seq::<CheckpointView>::empty() + pieces =~= pieces);
            assert(messages.drop_last() =~= pieces);
            assert(messages.last() == last);
            assert(Seq::<ReadView>::empty().push(
                ReadView { name: "output"@, shape, data: bytes },
            ) =~= seq![ReadView { name: "output"@, shape, data: bytes }]);
            assert forall|i: int| 0 <= i < messages.len() - 1 implies !(#[trigger] messages[i]).done by {
                assert(messages[i] == pieces[i]);
            }
        } else {
            reveal_with_fuel(streams::read, 2);
            assert(messages.drop_last() =~= Seq::empty());
            assert(messages.last() == last);
        }
    }
}

/// A script that could not be run is a failure of the server.
pub proof fn law_script_not_run(
    model: Seq<char>,
    end: ScriptEnd,
    tensor: Result<(Seq<i64>, Seq<u8>), StatusView>,
)
    requires
        !(end is Exited),
    ensures
        python::ended_messages(model, end, tensor) matches Err(status) && status.0
            == Code::Internal,
{
}

/// The tensor of a script is the one that it wrote, exactly if that can be read, is of
/// 32-bit floats, and is of a shape that the model's declaration allows.
pub proof fn law_script_tensor(
    model: Seq<char>,
    contract: ContractView,
    expected_batch: Option<i64>,
    output: Result<Seq<u8>, Seq<char>>,
    shape: Seq<i64>,
    bytes: Seq<u8>,
)
    ensures
        python::script_tensor(model, contract, expected_batch, output) == Ok::<
            (Seq<i64>, Seq<u8>),
            StatusView,
        >((shape, bytes)) <==> match output {
            Err(_) => false,
            Ok(raw) => frame::spec_framed_tensor(raw, model) == Ok::<
                (Seq<i64>, Seq<u8>, Seq<char>),
                StatusView,
            >((shape, bytes, "float32"@)) && (contract.outputs.len() > 0
                ==> contract::spec_output_shape(
                contract.outputs[0].dims,
                contract.max_batch_size,
                shape,
                expected_batch,
                model,
            ) is Ok),
        },
{
}

/// A message of a stream says how the model ended exactly if it ends the stream or is a
/// failure: well with an exit code of zero, and else as a failure of the model.
pub proof fn law_stream_outcome(item: Result<CheckpointView, StatusView>)
    ensures
        match item {
            Err(status) => relay::item_outcome(item) == Some(Err::<(), StatusView>(status)),
            Ok(message) => {
                &&& relay::item_outcome(item) is None <==> !message.done
                &&& relay::item_outcome(item) == Some(Ok::<(), StatusView>(())) <==> message.done
                    && message.exit_code == 0
                &&& message.done && message.exit_code != 0 ==> (relay::item_outcome(item) matches Some(
                    Err(status),
                ) && status.0 == Code::Internal)
            },
        },
        relay::client_gone().0 == Code::Cancelled,
        relay::no_result().0 == Code::Internal,
        forall|before: Option<Result<(), StatusView>>|
            #[trigger] relay::outcome_after(before, item) == if relay::item_outcome(item) is Some {
                relay::item_outcome(item)
            } else {
                before
            },
{
}

/// A stream that is settled changes the counters of its own model only.
pub proof fn law_settled_elsewhere(
    timer: TimerView,
    models: RegistryView,
    outcome: Option<Result<(), StatusView>>,
    batch: u64,
    now: u128,
    j: int,
)
    requires
        0 <= timer.model < models.len(),
        0 <= j < models.len(),
    ensures
        ({
            let after = relay::settled(timer, models, outcome, batch, now);
            &&& after.len() == models.len()
            &&& after[j].0 == models[j].0
            &&& j != timer.model ==> after[j] == models[j]
        }),
{
}

/// A stream that ended well is counted as one success and one execution, of its batch
/// or at least one; the time since its input was ready is the model's, and the time
/// since it began the request's.
pub proof fn law_settled_well(
    timer: TimerView,
    models: RegistryView,
    batch: u64,
    now: u128,
)
    requires
        0 <= timer.model < models.len(),
        timer.executions == 0 && timer.inferences == 0 && timer.queue_us == 0 && timer.infer_us == 0,
    ensures
        ({
            let m = models[timer.model].1;
            let after = relay::settled(
                timer,
                models,
                Some(Ok::<(), StatusView>(())),
                batch,
                now,
            )[timer.model].1;
            &&& after.request_success == m.request_success.wrapping_add(1)
            &&& after.exec_count == m.exec_count.wrapping_add(1)
            &&& after.count == m.count.wrapping_add(
                if batch >= 1 {
                    batch
                } else {
                    1
                },
            )
            &&& counting::same_failures(after, m)
            &&& counting::grown(
                m.request_duration_us,
                after.request_duration_us,
                timer.started as int,
                now as int,
            )
            &&& counting::grown(
                m.compute_infer_duration_us,
                after.compute_infer_duration_us,
                timer.phase as int,
                now as int,
            )
            &&& after.queue_duration_us == m.queue_duration_us
            &&& after.compute_input_duration_us == m.compute_input_duration_us.wrapping_add(
                timer.input_us,
            )
            &&& after.compute_output_duration_us == m.compute_output_duration_us
            &&& after.pending_request_count == if timer.pending {
                m.pending_request_count.wrapping_sub(1)
            } else {
                m.pending_request_count
            }
        }),
{
    let took = metrics::elapsed(timer.phase, now) as u128;
    assert(counting::passes(timer.started as int, now as int, metrics::spec_micros(
        metrics::elapsed(timer.started, now),
    )));
    assert(counting::passes(timer.phase as int, now as int, metrics::spec_micros(took as int)));
    assert(metrics::spec_micros(metrics::elapsed(now, now)) == 0);
    assert(metrics::spec_micros(0) == 0);
    lemma_no_growth(models[timer.model].1);
}

proof fn lemma_no_growth(m: ModelMetrics)
    ensures
        m.queue_duration_us.wrapping_add(0) == m.queue_duration_us,
        m.compute_output_duration_us.wrapping_add(0) == m.compute_output_duration_us,
{
}

/// A stream that failed is counted as one failure and nothing else: as canceled where
/// the client went away, and else as the model's, whichever code it ended with; one that
/// ended without saying how is the model's too. A request that was already marked with
/// the model's failure stays so.
pub proof fn law_settled_badly(
    timer: TimerView,
    models: RegistryView,
    outcome: Option<Result<(), StatusView>>,
    batch: u64,
    now: u128,
)
    requires
        0 <= timer.model < models.len(),
        timer.reason is None,
        !(outcome matches Some(Ok(_))),
    ensures
        ({
            let m = models[timer.model].1;
            let after = relay::settled(timer, models, outcome, batch, now)[timer.model].1;
            let left = match outcome {
                Some(Err(status)) => status.0 == Code::Cancelled,
                _ => false,
            };
            &&& counting::counted_where(m.canceled, after.canceled, left)
            &&& counting::counted_where(m.backend, after.backend, !left)
            &&& after.rejected == m.rejected
            &&& after.other == m.other
            &&& after.request_success == m.request_success
            &&& after.count == m.count
            &&& after.exec_count == m.exec_count
            &&& after.request_duration_us == m.request_duration_us
            &&& after.compute_infer_duration_us == m.compute_infer_duration_us
        }),
{
}

/// An ONNX model is served by its one file and its declaration, exactly if both are
/// there.
pub proof fn law_onnx_parts(model: Seq<char>, folder: Folder, file: TextFile)
    ensures
        match onnx::onnx_parts(model, folder, file) {
            Ok((path, contract)) => folder::the_only_file(folder, "onnx"@) == Ok::<
                Seq<char>,
                StatusView,
            >(path) && file.declares() == Ok::<ContractView, StatusView>(contract)
                && contract.inputs.len() > 0,
            Err(status) => match folder::the_only_file(folder, "onnx"@) {
                Err(fault) => status == fault,
                Ok(_) => match file.declares() {
                    Err(fault) => status == fault,
                    Ok(contract) => contract.inputs.len() == 0 && status.0
                        == Code::FailedPrecondition,
                },
            },
        },
{
    engine::law_fed_contract("ONNX"@, model, file);
}

/// A model is bound by the names that its graph gives, and by the declared ones only
/// where it gives none.
pub proof fn law_graph_names(graph: Seq<Seq<char>>, declared: Seq<Seq<char>>)
    ensures
        graph.len() > 0 ==> onnx::graph_names(graph, declared) == graph,
        graph.len() == 0 ==> onnx::graph_names(graph, declared) == declared,
{
}

/// The declared names are known exactly if each of them is a key of the signature.
pub proof fn law_all_known(declared: Seq<Seq<char>>, keys: Seq<Seq<char>>)
    ensures
        tensorflow::all_known(declared, keys) <==> forall|i: int|
            0 <= i < declared.len() ==> keys.contains(#[trigger] declared[i]),
{
    lemma_known_from(declared, keys, 0);
}

proof fn lemma_known_from(declared: Seq<Seq<char>>, keys: Seq<Seq<char>>, from: int)
    requires
        0 <= from <= declared.len(),
    ensures
        names::first_unknown(declared, keys, from) >= declared.len() <==> forall|i: int|
            from <= i < declared.len() ==> keys.contains(#[trigger] declared[i]),
    decreases declared.len() - from,
{
    if from < declared.len() {
        let name = declared[from];
        names::lemma_position(keys, name);
        lemma_known_from(declared, keys, from + 1);
        let p = names::position(keys, name) as int;
        if p < keys.len() {
            assert(keys[p] == name);
            assert(keys.contains(name));
        } else {
            assert(!keys.contains(name));
            assert(!keys.contains(declared[from]));
        }
    }
}

/// The message that chooses a device holds, as its sixth field, a message of its own
/// which holds, as its fifth, the number of the device in decimal digits; and each
/// field's length is that of what follows it.
pub proof fn law_device_config(index: usize)
    ensures
        ({
            let bytes = tensorflow::spec_device_config(index);
            let digits = number::decimal(index as int);
            &&& wording::writes(digits, index as int)
            &&& bytes.len() == 4 + digits.len()
            &&& bytes[0] == 6 * 8 + 2
            &&& bytes[2] == 5 * 8 + 2
            &&& digits.len() < 128 ==> bytes[1] == bytes.len() - 2 && bytes[3] == bytes.len() - 4
            &&& forall|i: int| 0 <= i < digits.len() ==> bytes[4 + i] == #[trigger] digits[i] as u8
        }),
{
    let digits = number::decimal(index as int);
    number::law_decimal_read_back(index as int, -1, usize::MAX as int);
    wording::law_numbers(digits, -1, usize::MAX as int, index as int);
}

/// The one output of a single forward pass is the tensor that it gave, with its shape
/// and bytes and under the name of its kind, exactly if it gave one of a known kind.
pub proof fn law_single_forward(forward: SingleForward)
    ensures
        match (forward, inference::single_output(forward)) {
            (SingleForward::Tensor(raw), Ok((shape, bytes, dtype))) => shape == raw.shape@ && bytes
                == raw.bytes@ && match raw.kind {
                Some(kind) => dtype == kind.spec_canonical(),
                None => false,
            },
            (SingleForward::Tensor(raw), Err(_)) => raw.kind is None,
            (_, Ok(_)) => false,
            (_, Err(_)) => true,
        },
{
}

/// Whether parts write positive numbers: one each, but for parts that are empty.
pub open spec fn write_positive(parts: Seq<Seq<char>>, dims: Seq<i64>) -> bool {
    let filled = parts.filter(|p: Seq<char>| p.len() > 0);
    &&& filled.len() == dims.len()
    &&& forall|i: int| 0 <= i < dims.len() ==> wording::writes(filled[i], #[trigger] dims[i] as int)
    &&& forall|i: int| 0 <= i < dims.len() ==> #[trigger] dims[i] > 0
}

proof fn lemma_frame_dims(parts: Seq<Seq<char>>, model: Seq<char>, dims: Seq<i64>)
    ensures
        frame::frame_dims(parts, model) == Ok::<Seq<i64>, Seq<char>>(dims) <==> write_positive(
            parts,
            dims,
        ),
    decreases parts.len(),
{
    reveal(Seq::filter);
    let filled = parts.filter(|p: Seq<char>| p.len() > 0);
    if parts.len() == 0 {
        if dims.len() == 0 {
            assert(dims =~= Seq::empty());
        }
    } else {
        let front = parts.drop_last();
        let part = parts.last();
        let before = front.filter(|p: Seq<char>| p.len() > 0);
        if part.len() == 0 {
            lemma_frame_dims(front, model, dims);
        } else {
            assert(filled == before.push(part));
            let read = number::parse_int(part, i64::MIN as int, i64::MAX as int);
            if let Ok(n) = read {
                wording::law_numbers(part, i64::MIN as int, i64::MAX as int, n);
            }
            if frame::frame_dims(parts, model) == Ok::<Seq<i64>, Seq<char>>(dims) {
                let first = frame::frame_dims(front, model)->Ok_0;
                lemma_frame_dims(front, model, first);
                assert(dims.drop_last() =~= first);
                assert forall|i: int| 0 <= i < dims.len() implies wording::writes(
                    filled[i],
                    #[trigger] dims[i] as int,
                ) && dims[i] > 0 by {
                    if i < first.len() {
                        assert(wording::writes(before[i], first[i] as int));
                    }
                }
            }
            if write_positive(parts, dims) {
                let first = dims.drop_last();
                assert forall|i: int| 0 <= i < first.len() implies wording::writes(
                    before[i],
                    #[trigger] first[i] as int,
                ) && first[i] > 0 by {
                    assert(wording::writes(filled[i], dims[i] as int));
                    assert(filled[i] == before[i]);
                }
                lemma_frame_dims(front, model, first);
                let last = dims[dims.len() - 1];
                assert(wording::writes(filled[dims.len() - 1], last as int));
                wording::law_numbers(part, i64::MIN as int, i64::MAX as int, last as int);
                assert(dims =~= first.push(last));
            }
        }
    }
}

/// A tensor is read from what a model wrote exactly if its first line, which is text,
/// has the name of a known type for its first word and the dimensions for its second,
/// and as many bytes follow it as such a tensor has; then with those dimensions, that
/// type, and all of these bytes.
pub proof fn law_frame_read(
    head: Seq<u8>,
    data: Seq<u8>,
    model: Seq<char>,
    shape: Seq<i64>,
    bytes: Seq<u8>,
    canonical: Seq<char>,
)
    requires
        !head.contains(10u8),
    ensures
        frame::spec_framed_tensor(head + seq![10u8] + data, model) == Ok::<
            (Seq<i64>, Seq<u8>, Seq<char>),
            StatusView,
        >((shape, bytes, canonical)) <==> {
            let words = text::words(vstd::utf8::decode_utf8(head));
            &&& vstd::utf8::valid_utf8(head)
            &&& words.len() >= 2
            &&& words[0] == canonical
            &&& write_positive(text::split(words[1], ','), shape)
            &&& shape.len() > 0
            &&& bytes == data
            &&& tensor::product(shape) <= i64::MAX
            &&& known_width(canonical, tensor::product(shape), data.len())
        },
{
    let raw = head + seq![10u8] + data;
    let end = head.len() as int;
    lemma_line_feed(head, data);
    assert(raw.take(end) =~= head);
    assert(raw.skip(end + 1) =~= data);
    let words = text::words(vstd::utf8::decode_utf8(head));
    if words.len() >= 2 {
        lemma_frame_dims(text::split(words[1], ','), model, shape);
        if write_positive(text::split(words[1], ','), shape) {
            tensor::law_element_count(shape);
            if let Some((_, width)) = dtype::spec_canonical_to_kserve(words[0]) {
                lemma_counts(data.len(), tensor::product(shape), width);
                dtype::law_widths(words[0]);
            }
        }
    }
}

/// Whether so many bytes are so many elements of a known type.
pub open spec fn known_width(canonical: Seq<char>, count: int, length: nat) -> bool {
    dtype::spec_canonical_to_kserve(canonical) matches Some((_, width)) && length == count * width
}

proof fn lemma_counts(length: nat, count: int, width: usize)
    ensures
        width > 0 && count >= 0 ==> (length == count * width <==> length % (width as nat) == 0
            && length / (width as nat) == count),
{
    if width > 0 && count >= 0 {
        let w = width as int;
        let n = length as int;
        assert(n == w * (n / w) + n % w) by (nonlinear_arith)
            requires
                w > 0,
        ;
        assert(w * (n / w) == (n / w) * w) by (nonlinear_arith);
        if n == count * w {
            assert(n % w == 0 && n / w == count) by (nonlinear_arith)
                requires
                    n == count * w,
                    w > 0,
            ;
        }
    }
}

proof fn lemma_line_feed(head: Seq<u8>, data: Seq<u8>)
    requires
        !head.contains(10u8),
    ensures
        frame::first_line_feed(head + seq![10u8] + data) == head.len(),
    decreases head.len(),
{
    let raw = head + seq![10u8] + data;
    if head.len() > 0 {
        let rest = head.skip(1);
        assert(head[0] != 10) by {
            if head[0] == 10 {
                assert(head.contains(10u8));
            }
        }
        assert(raw[0] == head[0]);
        assert(raw.skip(1) =~= rest + seq![10u8] + data);
        if rest.contains(10u8) {
            let i = choose|i: int| 0 <= i < rest.len() && rest[i] == 10u8;
            assert(head[i + 1] == 10u8);
        }
        lemma_line_feed(rest, data);
    }
}

/// A tensor of 32-bit floats is read exactly if a tensor is read and that is its type.
pub proof fn law_float_frames(raw: Seq<u8>, model: Seq<char>, shape: Seq<i64>, bytes: Seq<u8>)
    ensures
        frame::spec_float_tensor(raw, model) == Ok::<(Seq<i64>, Seq<u8>), StatusView>(
            (shape, bytes),
        ) <==> frame::spec_framed_tensor(raw, model) == Ok::<
            (Seq<i64>, Seq<u8>, Seq<char>),
            StatusView,
        >((shape, bytes, "float32"@)),
{
    frame::law_accepted_frames(raw, model);
}

/// Whether a text stands before another in the order of their characters: it is a
/// beginning of it, or has a lesser character where they first differ.
pub open spec fn stands_first(a: Seq<char>, b: Seq<char>, k: int) -> bool {
    &&& 0 <= k <= a.len()
    &&& k <= b.len()
    &&& forall|i: int| 0 <= i < k ==> #[trigger] a[i] == b[i]
    &&& k < a.len() ==> k < b.len() && a[k] < b[k]
}

/// Names are in the order of their characters: one that is a beginning of another, or
/// has a lesser character where they first differ, does not stand after it.
pub proof fn law_name_order(a: Seq<char>, b: Seq<char>)
    ensures
        order::not_after(a, b) <==> exists|k: int| #[trigger] stands_first(a, b, k),
    decreases a.len(),
{
    if a.len() == 0 {
        assert(stands_first(a, b, 0));
    } else if b.len() == 0 {
        assert forall|k: int| !#[trigger] stands_first(a, b, k) by {}
    } else if a[0] < b[0] {
        assert(stands_first(a, b, 0));
    } else if a[0] == b[0] {
        let s = a.skip(1);
        let t = b.skip(1);
        law_name_order(s, t);
        if exists|k: int| #[trigger] stands_first(s, t, k) {
            let k = choose|k: int| #[trigger] stands_first(s, t, k);
            assert forall|i: int| 0 <= i < k + 1 implies #[trigger] a[i] == b[i] by {
                if i > 0 {
                    assert(s[i - 1] == t[i - 1]);
                }
            }
            assert(stands_first(a, b, k + 1));
        }
        if exists|k: int| #[trigger] stands_first(a, b, k) {
            let k = choose|k: int| #[trigger] stands_first(a, b, k);
            assert(k > 0);
            assert forall|i: int| 0 <= i < k - 1 implies #[trigger] s[i] == t[i] by {
                assert(a[i + 1] == b[i + 1]);
            }
            assert(stands_first(s, t, k - 1));
        }
    } else {
        assert forall|k: int| !#[trigger] stands_first(a, b, k) by {
            if stands_first(a, b, k) {
                if k > 0 {
                    assert(a[0] == b[0]);
                }
            }
        }
    }
}

/// The name of a model's output file has no character but letters and digits, the
/// dash, the underline and the dot: it stays within its folder.
pub proof fn law_output_file_stays(model: Seq<char>, process: u32, count: u64)
    ensures
        forall|i: int|
            0 <= i < child::spec_output_file(model, process, count).len() ==> {
                let c = #[trigger] child::spec_output_file(model, process, count)[i];
                'a' <= c <= 'z' || 'A' <= c <= 'Z' || '0' <= c <= '9' || c == '-' || c == '_' || c
                    == '.'
            },
        child::safe_name(model).len() == model.len(),
        forall|i: int|
            0 <= i < model.len() && ('a' <= model[i] <= 'z' || 'A' <= model[i] <= 'Z' || '0'
                <= model[i] <= '9') ==> #[trigger] child::safe_name(model)[i] == model[i],
{
    reveal_strlit("nereid-out-");
    reveal_strlit("-");
    reveal_strlit(".bin");
    let safe = child::safe_name(model);
    let p = number::decimal(process as int);
    let c = number::decimal(count as int);
    wording::law_decimal_form(process as int);
    wording::law_decimal_form(count as int);
    let a = "nereid-out-"@ + safe;
    let b = a + "-"@;
    let d = b + p;
    let e = d + "-"@;
    let f = e + c;
    let whole = child::spec_output_file(model, process, count);
    assert(whole == f + ".bin"@);
    assert forall|i: int| 0 <= i < whole.len() implies ({
        let x = #[trigger] whole[i];
        'a' <= x <= 'z' || 'A' <= x <= 'Z' || '0' <= x <= '9' || x == '-' || x == '_' || x == '.'
    }) by {
        if i < "nereid-out-"@.len() {
            assert(whole[i] == "nereid-out-"@[i]);
        } else if i < a.len() {
            assert(whole[i] == safe[i - "nereid-out-"@.len()]);
        } else if i < b.len() {
            assert(whole[i] == '-');
        } else if i < d.len() {
            assert(whole[i] == p[i - b.len()]);
        } else if i < e.len() {
            assert(whole[i] == '-');
        } else if i < f.len() {
            assert(whole[i] == c[i - e.len()]);
        } else {
            assert(whole[i] == ".bin"@[i - f.len()]);
        }
    }
}

/// The tensor of a script of the stream's own backend is the one that it wrote, exactly
/// if that is one of 32-bit floats and of a shape that the declared output allows.
pub proof fn law_streamed_script_tensor(
    model: Seq<char>,
    shapes: ShapesView,
    expected_batch: Option<i64>,
    output: Result<Seq<u8>, Seq<char>>,
    shape: Seq<i64>,
    bytes: Seq<u8>,
)
    ensures
        scripts::script_tensor(model, shapes, expected_batch, output) == Ok::<
            (Seq<i64>, Seq<u8>),
            StatusView,
        >((shape, bytes)) <==> match output {
            Err(_) => false,
            Ok(raw) => frame::spec_framed_tensor(raw, model) == Ok::<
                (Seq<i64>, Seq<u8>, Seq<char>),
                StatusView,
            >((shape, bytes, "float32"@)) && runtime::spec_reply(
                shapes,
                shape,
                expected_batch,
                model,
            ) is Ok,
        },
{
    if let Ok(raw) = output {
        law_float_frames(raw, model, shape, bytes);
        if let Ok((s, b)) = frame::spec_float_tensor(raw, model) {
            law_float_frames(raw, model, s, b);
        }
    }
}

/// What a script wrote is what stands in its output file once it has exited.
pub proof fn law_script_wrote(end: ScriptEnd)
    ensures
        match end {
            ScriptEnd::Exited { output, .. } => match output {
                Ok(raw) => end.written() == Ok::<Seq<u8>, Seq<char>>(raw@),
                Err(_) => end.written() is Err,
            },
            _ => end.written() is Err,
        },
{
}

/// A model's backend is chosen exactly if its folder is there and is a folder: the one
/// that it declares, or the one that its folder fits.
pub proof fn law_backend_chosen(
    all: Seq<BackendRegistration>,
    model: ModelConfig,
    base: Seq<char>,
    dir: Location,
    folder: Folder,
)
    ensures
        ({
            let there = dir.resolved is Ok && dir.is_dir;
            let declared = match model.backend {
                Some(word) => Some(word@),
                None => None,
            };
            &&& there ==> startup::chosen_backend(all, model, base, dir, folder)
                == registry::spec_backend(all, folder, model.name@, declared)
            &&& !there ==> (startup::chosen_backend(all, model, base, dir, folder) matches Err(
                status,
            ) && status.0 == Code::FailedPrecondition)
            &&& startup::base_fault(base, dir) is None <==> there
            &&& startup::base_fault(base, dir) matches Some(status) ==> status.0
                == Code::FailedPrecondition
        }),
{
}

/// A model that was loaded has its name, its contract, its platform and as many places
/// as its queue, and none of them is taken.
pub proof fn law_loaded(
    name: Seq<char>,
    contract: ContractView,
    platform: Seq<char>,
    capacity: nat,
)
    ensures
        ({
            let model = startup::idle(name, contract, platform, capacity);
            &&& model.name == name
            &&& model.contract == contract
            &&& model.platform == platform
            &&& model.capacity == capacity
            &&& model.in_use == 0
        }),
{
}

/// The kinds of models that a server can be built without are those of the built-in
/// backends.
pub proof fn law_known_kinds(backend: Seq<char>)
    ensures
        backends::model_kind(backend) is Some <==> backend == "cpp"@ || backend == "cxx"@ || backend
            == "onnx"@ || backend == "python"@ || backend == "tensorflow"@ || backend == "torch"@,
{
}

/// A native model is loaded by the engine of its kind exactly if that is built in.
pub proof fn law_native_engine(kind: NativeKind, built_in: bool)
    ensures
        match native::spec_native_engine(kind, built_in) {
            Ok(engine) => built_in && match kind {
                NativeKind::Onnx => engine is Onnx,
                NativeKind::Tensorflow => engine is Tensorflow,
            },
            Err(status) => !built_in && status.0 == Code::FailedPrecondition,
        },
{
}

/// Of what a program writes as errors the first 64 KiB are kept, however it is cut into
/// chunks.
pub proof fn law_kept_errors(chunks: Seq<Seq<u8>>)
    ensures
        ({
            let all = chunks.flatten();
            let kept = child::drained_all(chunks);
            &&& kept.len() <= 65536
            &&& all.len() <= 65536 ==> kept == all
            &&& all.len() > 65536 ==> kept.len() == 65536
            &&& forall|i: int| 0 <= i < kept.len() ==> kept[i] == #[trigger] all[i]
        }),
{
    child::law_drain_keeps_the_beginning(chunks);
}

/// The command that builds a C++ model makes the program that is run: the model's own
/// script does, or the compiler, from its source to the program's name. A program that is
/// used as it is needs no command.
pub proof fn law_build_commands()
    ensures
        BuildStep::Reuse.spec_command() is None,
        BuildStep::Script.spec_command() matches Some(words) && words.len() == 2 && words[1]
            == "build.sh"@,
        BuildStep::Compile.spec_command() matches Some(words) && words.contains("main.cpp"@)
            && words.len() >= 2 && words[words.len() - 2] == "-o"@ && words.last()
            == cpp::spec_binary_name(false),
{
    let words = BuildStep::Compile.spec_command()->0;
    assert(words[3] == "main.cpp"@);
}

/// A script that succeeded and wrote a readable tensor of 32-bit floats, of a shape that
/// the model's declaration allows, is answered with messages from which a client reads
/// that very tensor; one that failed is answered with its exit code alone.
pub proof fn law_script_answered(
    model: Seq<char>,
    contract: ContractView,
    shapes: ShapesView,
    expected_batch: Option<i64>,
    end: ScriptEnd,
)
    requires
        end is Exited,
    ensures
        ({
            let told = python::script_messages(model, contract, expected_batch, end);
            let other = scripts::script_messages(model, shapes, expected_batch, end);
            if end->success {
                &&& match python::script_tensor(model, contract, expected_batch, end.written()) {
                    Ok((shape, bytes)) => told matches Ok(messages) && reads_output(
                        messages,
                        shape,
                        bytes,
                    ),
                    Err(status) => told == Err::<Seq<CheckpointView>, StatusView>(status),
                }
                &&& match scripts::script_tensor(model, shapes, expected_batch, end.written()) {
                    Ok((shape, bytes)) => other matches Ok(messages) && reads_output(
                        messages,
                        shape,
                        bytes,
                    ),
                    Err(status) => other == Err::<Seq<CheckpointView>, StatusView>(status),
                }
            } else {
                told matches Ok(messages) && messages.len() == 1 && messages[0].done
                    && other == told
            }
        }),
{
    if let ScriptEnd::Exited { success, code, output } = end {
        law_script_stream(
            model,
            success,
            code,
            output,
            python::script_tensor(model, contract, expected_batch, end.written()),
        );
        law_script_stream(
            model,
            success,
            code,
            output,
            scripts::script_tensor(model, shapes, expected_batch, end.written()),
        );
    }
}

/// Whether a client reads from messages the one tensor `output` of the given shape and
/// bytes.
pub open spec fn reads_output(messages: Seq<CheckpointView>, shape: Seq<i64>, bytes: Seq<u8>) -> bool {
    streams::read(messages) == (
        seq![ReadView { name: "output"@, shape, data: bytes }],
        None::<ReadView>,
    )
}

/// What is wrong with the environment of a Python model is that something is not there,
/// where its requirements or its `pip` are not; that a command was not run, where one was
/// not; and something else in all other cases.
pub proof fn law_environment_faults(model: Seq<char>, venv: Seq<char>, event: VenvEvent)
    ensures
        scripts::spec_env_action(model, venv, event) matches Err(fault) ==> {
            &&& fault is NotFound <==> match event {
                VenvEvent::Looked { requirements, .. } => !requirements,
                VenvEvent::LookedForPip(found) => !found,
                _ => false,
            }
            &&& fault is NotRun <==> match event {
                VenvEvent::Created(Err(_)) => true,
                VenvEvent::Installed(Err(_)) => true,
                _ => false,
            }
            &&& fault.message() == match fault {
                EnvFaultView::NotFound(told) => told,
                EnvFaultView::NotRun(told) => told,
                EnvFaultView::Other(told) => told,
            }
        },
{
}

} // verus!
