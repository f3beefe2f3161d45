//! Models that run as child processes.
//!
//! A child reads its input tensor from its standard input and writes a framed
//! tensor to the file that the environment names. This module decides what the
//! child is given, and what its end means.

use vstd::prelude::*;
use vstd::slice::slice_subrange;

use crate::contract::{Contract, ContractView};
use crate::folder::Folder;
use crate::frame;
use crate::frame::parse_framed_tensor;
use crate::number;
use crate::number::{decimal_i64, decimal_u64};
use crate::status::{Code, Status, StatusView};
use crate::tensor;
use crate::tensor::{copy_bytes, copy_dims, dims_with_commas, Tensor, TensorView};
use crate::text;
use crate::text::{cat2, cat3, cat4, cat5, cat7, chars_of, trimmed_str};
use crate::textproto::TextFile;

verus! {

/// The text that bytes give where what is no UTF-8 in them is replaced.
pub uninterp spec fn lossy_text(bytes: Seq<u8>) -> Seq<char>;

/// Reads bytes as text. Claimed of `String::from_utf8_lossy`: its result is
/// determined by the bytes, and is what they encode where they are valid UTF-8.
/// What stands for the invalid parts is left unsaid.
#[verifier::external_body]
fn lossy(bytes: &[u8]) -> (r: String)
    ensures
        r@ == lossy_text(bytes@),
        vstd::utf8::valid_utf8(bytes@) ==> r@ == vstd::utf8::decode_utf8(bytes@),
{
    String::from_utf8_lossy(bytes).into_owned()
}

/// What a process wrote, as messages quote it: as text, without the white space
/// around it.
pub open spec fn quoted(bytes: Seq<u8>) -> Seq<char> {
    text::trim(lossy_text(bytes))
}

/// Computes [`quoted`].
pub fn quote(bytes: &[u8]) -> (r: String)
    ensures
        r@ == quoted(bytes@),
{
    let all = lossy(bytes);
    trimmed_str(all.as_str())
}

/// A command that has run to its end.
#[derive(Debug)]
pub struct CommandOutput {
    pub success: bool,
    pub stdout: Vec<u8>,
    pub stderr: Vec<u8>,
}

/// What to say of a command that failed: what it wrote to its standard error,
/// else what it wrote to its standard output, else the given words.
pub open spec fn spec_details(output: CommandOutput, silent: Seq<char>) -> Seq<char> {
    if quoted(output.stderr@).len() > 0 {
        quoted(output.stderr@)
    } else if quoted(output.stdout@).len() > 0 {
        quoted(output.stdout@)
    } else {
        silent
    }
}

/// Computes [`spec_details`].
pub fn output_details(output: &CommandOutput, silent: &str) -> (r: String)
    ensures
        r@ == spec_details(*output, silent@),
{
    let stdout = quote(output.stdout.as_slice());
    let stderr = quote(output.stderr.as_slice());
    if !stderr.as_str().is_empty() {
        stderr
    } else if !stdout.as_str().is_empty() {
        stdout
    } else {
        silent.to_string()
    }
}

/// Whether a character may stand in the name of an output file as it is.
pub open spec fn is_plain(c: char) -> bool {
    ('a' <= c && c <= 'z') || ('A' <= c && c <= 'Z') || ('0' <= c && c <= '9')
}

/// A model's name in the name of an output file: what is no ASCII letter or
/// digit becomes an underscore.
pub open spec fn safe_name(model: Seq<char>) -> Seq<char> {
    Seq::new(
        model.len(),
        |i: int|
            if is_plain(model[i]) {
                model[i]
            } else {
                '_'
            },
    )
}

/// The name of the file for the output of one run, by the number of the server's
/// process and a count of the runs.
pub open spec fn spec_output_file(model: Seq<char>, process: u32, count: u64) -> Seq<char> {
    "nereid-out-"@ + safe_name(model) + "-"@ + number::decimal(process as int) + "-"@
        + number::decimal(count as int) + ".bin"@
}

/// Names the file for the output of one run.
pub fn unique_output_path(model_name: &str, process: u32, count: u64) -> (r: String)
    ensures
        r@ == spec_output_file(model_name@, process, count),
{
    let model = chars_of(model_name);
    let mut safe = String::new();
    let mut i: usize = 0;
    assert(safe@ =~= safe_name(model_name@).take(0));
    while i < model.len()
        invariant
            i <= model@.len(),
            model@ == model_name@,
            safe@ == safe_name(model_name@).take(i as int),
        decreases model@.len() - i,
    {
        let c = model[i];
        let plain = ('a' <= c && c <= 'z') || ('A' <= c && c <= 'Z') || ('0' <= c && c <= '9');
        safe.push(
            if plain {
                c
            } else {
                '_'
            },
        );
        i = i + 1;
        assert(safe@ =~= safe_name(model_name@).take(i as int));
    }
    assert(safe@ =~= safe_name(model_name@));
    let process_text = decimal_u64(process as u64);
    let count_text = decimal_u64(count);
    cat7(
        "nereid-out-",
        safe.as_str(),
        "-",
        process_text.as_str(),
        "-",
        count_text.as_str(),
        ".bin",
    )
}

proof fn lemma_digits_hold_no_dash(n: nat)
    ensures
        digits_only(number::digits(n)),
        number::digits(n).len() > 0,
    decreases n,
{
    if n >= 10 {
        lemma_digits_hold_no_dash(n / 10);
        let front = number::digits(n / 10);
        assert forall|i: int| 0 <= i < number::digits(n).len() implies (
        #[trigger] number::digits(n)[i]) != '-' by {
            if i < front.len() {
                assert(number::digits(n)[i] == front[i]);
            }
        }
    }
}

spec fn digits_only(s: Seq<char>) -> bool {
    forall|i: int| 0 <= i < s.len() ==> (#[trigger] s[i]) != '-'
}

/// Two runs of one server process never share an output file: runs with different
/// counts have different files, whatever models they are of.
pub proof fn law_output_files_differ(
    model: Seq<char>,
    other: Seq<char>,
    process: u32,
    count: u64,
    other_count: u64,
)
    requires
        count != other_count,
    ensures
        spec_output_file(model, process, count) != spec_output_file(other, process, other_count),
{
    reveal_strlit("-");
    reveal_strlit(".bin");
    let a = spec_output_file(model, process, count);
    let b = spec_output_file(other, process, other_count);
    let da = number::decimal(count as int);
    let db = number::decimal(other_count as int);
    lemma_digits_hold_no_dash(count as nat);
    lemma_digits_hold_no_dash(other_count as nat);
    if a == b {
        let ea = a.len() - 4;
        // Past the last dash stand the digits of the count.
        assert(a.subrange(ea - da.len(), ea) =~= da);
        assert(a[ea - da.len() - 1] == '-');
        assert(b.subrange(ea - db.len(), ea) =~= db);
        assert(b[ea - db.len() - 1] == '-');
        if da.len() < db.len() {
            assert(db[db.len() - da.len() - 1] == b[ea - da.len() - 1]);
        } else if db.len() < da.len() {
            assert(da[da.len() - db.len() - 1] == a[ea - db.len() - 1]);
        }
        assert(da =~= db);
        number::law_decimal_read_back(count as int, 0, u64::MAX as int);
        number::law_decimal_read_back(other_count as int, 0, u64::MAX as int);
    }
}

/// How many bytes are kept of what a process writes.
pub const DRAIN_CAP: usize = 65536;

/// What is kept after one more read.
pub open spec fn drained(kept: Seq<u8>, chunk: Seq<u8>) -> Seq<u8> {
    if kept.len() >= DRAIN_CAP {
        kept
    } else if kept.len() + chunk.len() <= DRAIN_CAP {
        kept + chunk
    } else {
        kept + chunk.take(DRAIN_CAP - kept.len())
    }
}

/// Takes in one read of what a process writes: it is kept as far as there is room,
/// and dropped beyond, so that reading can go on to the end.
pub fn drain(kept: &mut Vec<u8>, chunk: &[u8])
    ensures
        final(kept)@ == drained(old(kept)@, chunk@),
{
    if kept.len() < DRAIN_CAP {
        let room: usize = DRAIN_CAP - kept.len();
        let take: usize = if chunk.len() <= room {
            chunk.len()
        } else {
            room
        };
        let part = slice_subrange(chunk, 0, take);
        kept.extend_from_slice(part);
        proof {
            assert(part@ =~= chunk@.take(take as int));
            assert(chunk@.take(chunk@.len() as int) =~= chunk@);
            assert(kept@ =~= drained(old(kept)@, chunk@));
        }
    }
}

/// What is kept after all reads.
pub open spec fn drained_all(chunks: Seq<Seq<u8>>) -> Seq<u8>
    decreases chunks.len(),
{
    if chunks.len() == 0 {
        Seq::empty()
    } else {
        drained(drained_all(chunks.drop_last()), chunks.last())
    }
}

/// Of all that a process writes, exactly the beginning is kept, however it was
/// cut into reads.
pub proof fn law_drain_keeps_the_beginning(chunks: Seq<Seq<u8>>)
    ensures
        ({
            let all = chunks.flatten();
            drained_all(chunks) == if all.len() <= DRAIN_CAP {
                all
            } else {
                all.take(DRAIN_CAP as int)
            }
        }),
    decreases chunks.len(),
{
    if chunks.len() > 0 {
        let front = chunks.drop_last();
        law_drain_keeps_the_beginning(front);
        assert(front.push(chunks.last()) =~= chunks);
        front.lemma_flatten_push(chunks.last());
        let all = chunks.flatten();
        assert(all =~= front.flatten() + chunks.last());
        if all.len() <= DRAIN_CAP {
            assert(drained_all(chunks) =~= all);
        } else {
            assert(drained_all(chunks) =~= all.take(DRAIN_CAP as int));
        }
    }
}

/// A checked input tensor for a child process.
#[derive(Debug)]
pub struct TensorInput {
    pub shape: Vec<i64>,
    pub bytes: Vec<u8>,
    pub dtype: String,
}

impl TensorInput {
    /// What of a tensor goes to a child process.
    pub fn of(t: &Tensor) -> (r: TensorInput)
        ensures
            r.shape@ == t@.shape,
            r.bytes@ == t@.data,
            r.dtype@ == t@.dtype,
    {
        TensorInput {
            shape: copy_dims(t.shape.as_slice()),
            bytes: copy_bytes(t.data.as_slice()),
            dtype: t.dtype.clone(),
        }
    }
}

/// What a child process is given: variables of its environment, in order, and the
/// bytes for its standard input, which is closed without any.
#[derive(Debug)]
pub struct ChildPlan {
    pub env: Vec<(String, String)>,
    pub stdin: Option<Vec<u8>>,
}

/// What variables of an environment hold.
pub open spec fn env_views(env: Seq<(String, String)>) -> Seq<(Seq<char>, Seq<char>)> {
    Seq::new(env.len(), |i: int| (env[i].0@, env[i].1@))
}

/// The environment of a child: where to write the output and of which type, and
/// the shape and type of the input, if there is one.
pub open spec fn child_env(
    output_path: Seq<char>,
    output_dtype: Seq<char>,
    input: Option<TensorInput>,
) -> Seq<(Seq<char>, Seq<char>)> {
    let output = seq![
        ("NEREID_OUTPUT_PATH"@, output_path),
        ("NEREID_OUTPUT_DTYPE"@, output_dtype),
    ];
    match input {
        None => output,
        Some(t) => output + seq![
            ("NEREID_INPUT_SHAPE"@, tensor::comma_dims(t.shape@)),
            ("NEREID_INPUT_DTYPE"@, t.dtype@),
        ],
    }
}

/// The type that a child is to write: that of its input, or `float32` for a model
/// without one.
pub open spec fn wanted_dtype(input: Option<TensorInput>) -> Seq<char> {
    match input {
        Some(t) => t.dtype@,
        None => "float32"@,
    }
}

/// Plans a child that may write the given type.
pub fn plan_child(output_path: &str, output_dtype: &str, input: &Option<TensorInput>) -> (r:
    ChildPlan)
    ensures
        env_views(r.env@) == child_env(output_path@, output_dtype@, *input),
        match *input {
            Some(t) => r.stdin matches Some(bytes) && bytes@ == t.bytes@,
            None => r.stdin is None,
        },
{
    let mut env: Vec<(String, String)> = Vec::new();
    env.push(("NEREID_OUTPUT_PATH".to_string(), output_path.to_string()));
    env.push(("NEREID_OUTPUT_DTYPE".to_string(), output_dtype.to_string()));
    let stdin = match input {
        None => None,
        Some(t) => {
            env.push(("NEREID_INPUT_SHAPE".to_string(), dims_with_commas(t.shape.as_slice())));
            env.push(("NEREID_INPUT_DTYPE".to_string(), t.dtype.clone()));
            Some(copy_bytes(t.bytes.as_slice()))
        },
    };
    assert(env_views(env@) =~= child_env(output_path@, output_dtype@, *input));
    ChildPlan { env, stdin }
}

/// Plans a child for one inference: it is to write the type of its input.
pub fn plan_inference(output_path: &str, input: &Option<TensorInput>) -> (r: ChildPlan)
    ensures
        env_views(r.env@) == child_env(output_path@, wanted_dtype(*input), *input),
        match *input {
            Some(t) => r.stdin matches Some(bytes) && bytes@ == t.bytes@,
            None => r.stdin is None,
        },
{
    match input {
        Some(t) => plan_child(output_path, t.dtype.as_str(), input),
        None => plan_child(output_path, "float32", input),
    }
}

/// What a process runs: a program of its own, or a Python script.
#[derive(Clone, Copy, Debug, PartialEq, Eq, Structural)]
pub enum Runner {
    Program,
    Script,
}

impl Runner {
    /// How messages call what runs, before the model's name.
    pub open spec fn subject(self) -> Seq<char> {
        match self {
            Runner::Program => "model '"@,
            Runner::Script => "main.py for model '"@,
        }
    }

    fn subject_text(self) -> (r: &'static str)
        ensures
            r@ == self.subject(),
    {
        match self {
            Runner::Program => "model '",
            Runner::Script => "main.py for model '",
        }
    }
}

/// How the run of a child process ended.
#[derive(Debug)]
pub enum ChildEnd {
    /// It could not be started.
    NotStarted(String),
    /// It could not be waited for.
    NotAwaited(String),
    /// It exited: whether with success, with which code (none where a signal ended
    /// it), what is kept of its standard error, and what its output file held.
    Exited {
        success: bool,
        code: Option<i32>,
        stderr: Vec<u8>,
        output: Result<Vec<u8>, String>,
    },
}

/// What a child wrote to its standard error, after a prefix; nothing where it
/// wrote nothing.
pub open spec fn stderr_suffix(prefix: Seq<char>, stderr: Seq<u8>) -> Seq<char> {
    if quoted(stderr).len() == 0 {
        Seq::empty()
    } else {
        prefix + quoted(stderr)
    }
}

fn suffix(prefix: &str, stderr: &[u8]) -> (r: String)
    ensures
        r@ == stderr_suffix(prefix@, stderr@),
{
    let said = quote(stderr);
    if said.as_str().is_empty() {
        String::new()
    } else {
        cat2(prefix, said.as_str())
    }
}

/// How messages show an exit code.
pub open spec fn shown_code(code: Option<i32>) -> Seq<char> {
    match code {
        Some(c) => number::decimal(c as int),
        None => "signal"@,
    }
}

/// The tensor that a child wrote, or what its end means for the request.
pub open spec fn spec_child_result(runner: Runner, model: Seq<char>, end: ChildEnd) -> Result<
    (Seq<i64>, Seq<u8>, Seq<char>),
    StatusView,
> {
    match end {
        ChildEnd::NotStarted(cause) => Err(
            (Code::Internal, "failed to run "@ + runner.subject() + model + "': "@ + cause@),
        ),
        ChildEnd::NotAwaited(cause) => Err(
            (Code::Internal, "failed waiting on "@ + runner.subject() + model + "': "@ + cause@),
        ),
        ChildEnd::Exited { success, code, stderr, output } => if !success {
            Err(
                (
                    Code::Internal,
                    runner.subject() + model + "' exited with status "@ + shown_code(code)
                        + stderr_suffix(": "@, stderr@),
                ),
            )
        } else {
            match output {
                Err(cause) => Err(
                    (
                        Code::FailedPrecondition,
                        "model '"@ + model
                            + "' declares a tensor output contract but wrote no readable tensor to NEREID_OUTPUT_PATH ("@
                            + cause@ + ")"@ + stderr_suffix("; stderr: "@, stderr@),
                    ),
                ),
                Ok(raw) => frame::spec_framed_tensor(raw@, model),
            }
        },
    }
}

/// Decides what the end of a child means for the request.
pub fn child_result(runner: Runner, model_name: &str, end: &ChildEnd) -> (r: Result<
    (Vec<i64>, Vec<u8>, String),
    Status,
>)
    ensures
        match r {
            Ok((shape, bytes, dtype)) => spec_child_result(runner, model_name@, *end) == Ok::<
                (Seq<i64>, Seq<u8>, Seq<char>),
                StatusView,
            >((shape@, bytes@, dtype@)),
            Err(e) => spec_child_result(runner, model_name@, *end) == Err::<
                (Seq<i64>, Seq<u8>, Seq<char>),
                StatusView,
            >(e@),
        },
{
    let subject = runner.subject_text();
    match end {
        ChildEnd::NotStarted(cause) => Err(
            Status::internal(cat5("failed to run ", subject, model_name, "': ", cause.as_str())),
        ),
        ChildEnd::NotAwaited(cause) => Err(
            Status::internal(
                cat5("failed waiting on ", subject, model_name, "': ", cause.as_str()),
            ),
        ),
        ChildEnd::Exited { success, code, stderr, output } => {
            if !*success {
                let shown = match code {
                    Some(c) => decimal_i64(*c as i64),
                    None => "signal".to_string(),
                };
                let said = suffix(": ", stderr.as_slice());
                return Err(
                    Status::internal(
                        cat5(
                            subject,
                            model_name,
                            "' exited with status ",
                            shown.as_str(),
                            said.as_str(),
                        ),
                    ),
                );
            }
            match output {
                Err(cause) => {
                    let said = suffix("; stderr: ", stderr.as_slice());
                    let head = cat4(
                        "model '",
                        model_name,
                        "' declares a tensor output contract but wrote no readable tensor to NEREID_OUTPUT_PATH (",
                        cause.as_str(),
                    );
                    Err(
                        Status::failed_precondition(
                            cat3(head.as_str(), ")", said.as_str()),
                        ),
                    )
                },
                Ok(raw) => parse_framed_tensor(raw.as_slice(), model_name),
            }
        },
    }
}

/// The output of a model that runs as a child: one tensor, called `output`.
pub open spec fn child_outputs(
    result: Result<(Seq<i64>, Seq<u8>, Seq<char>), StatusView>,
) -> Result<Seq<TensorView>, StatusView> {
    match result {
        Ok((shape, data, dtype)) => Ok(
            seq![TensorView { name: "output"@, shape, dtype, data }],
        ),
        Err(status) => Err(status),
    }
}

/// Answers an inference by the end of the child that ran it.
pub fn infer_by_child(runner: Runner, model_name: &str, end: &ChildEnd) -> (r: Result<
    Vec<Tensor>,
    Status,
>)
    ensures
        match r {
            Ok(outputs) => child_outputs(spec_child_result(runner, model_name@, *end)) == Ok::<
                Seq<TensorView>,
                StatusView,
            >(tensor::tensor_views(outputs@)),
            Err(e) => child_outputs(spec_child_result(runner, model_name@, *end)) == Err::<
                Seq<TensorView>,
                StatusView,
            >(e@),
        },
{
    match child_result(runner, model_name, end) {
        Ok((shape, data, dtype)) => {
            let mut outputs: Vec<Tensor> = Vec::new();
            outputs.push(Tensor { name: "output".to_string(), shape, dtype, data });
            assert(tensor::tensor_views(outputs@) =~= seq![outputs@[0]@]);
            Ok(outputs)
        },
        Err(status) => Err(status),
    }
}

/// The contract of a model whose every reply is a tensor that it writes itself, or
/// why it has none. `kind` is what messages call such a model.
pub open spec fn reply_contract(
    kind: Seq<char>,
    model: Seq<char>,
    folder: Folder,
    file: TextFile,
) -> Result<ContractView, StatusView> {
    if !folder.file_there("model_inference.textproto"@) {
        Err(
            (
                Code::FailedPrecondition,
                kind + " model '"@ + model
                    + "' must include a model_inference.textproto declaring output_shape"@,
            ),
        )
    } else {
        match file.declares() {
            Err(status) => Err(status),
            Ok(contract) => if contract.outputs.len() == 0 {
                Err(
                    (
                        Code::FailedPrecondition,
                        kind + " model '"@ + model
                            + "' must declare output_shape in model_inference.textproto (every reply is a typed tensor)"@,
                    ),
                )
            } else {
                Ok(contract)
            },
        }
    }
}

/// Reads the contract of a model whose every reply is a tensor.
pub fn read_reply_contract(kind: &str, model_name: &str, folder: &Folder, file: &TextFile) -> (r:
    Result<Contract, Status>)
    ensures
        match r {
            Ok(contract) => reply_contract(kind@, model_name@, *folder, *file) == Ok::<
                ContractView,
                StatusView,
            >(contract@),
            Err(e) => reply_contract(kind@, model_name@, *folder, *file) == Err::<
                ContractView,
                StatusView,
            >(e@),
        },
{
    if !folder.has_file("model_inference.textproto") {
        return Err(
            Status::failed_precondition(
                cat4(
                    kind,
                    " model '",
                    model_name,
                    "' must include a model_inference.textproto declaring output_shape",
                ),
            ),
        );
    }
    let contract = match Contract::parse(file) {
        Ok(contract) => contract,
        Err(status) => {
            return Err(status);
        },
    };
    if contract.outputs.len() == 0 {
        return Err(
            Status::failed_precondition(
                cat4(
                    kind,
                    " model '",
                    model_name,
                    "' must declare output_shape in model_inference.textproto (every reply is a typed tensor)",
                ),
            ),
        );
    }
    Ok(contract)
}

} // verus!
