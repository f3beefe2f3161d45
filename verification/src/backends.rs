//! The backends that come with the server.

use vstd::prelude::*;

use crate::cpp;
use crate::cpp::cpp_binary_path;
use crate::registry;
use crate::registry::{missing_feature, BackendRegistration, Signature};
use crate::status::Status;
use crate::text;
use crate::text::same;

verus! {

/// A [`BackendRegistration`] as contracts see it.
#[verifier::ext_equal]
pub struct RegistrationView {
    pub name: Seq<char>,
    pub version: Seq<char>,
    pub aliases: Seq<Seq<char>>,
    pub describes: Seq<char>,
    pub auto_detect: bool,
    pub files: Seq<Seq<char>>,
    pub either: Seq<Seq<char>>,
    pub dirs: Seq<Seq<char>>,
    pub extension: Option<Seq<char>>,
}

impl View for BackendRegistration {
    type V = RegistrationView;

    open spec fn view(&self) -> RegistrationView {
        RegistrationView {
            name: self.name@,
            version: self.version@,
            aliases: text::texts(self.aliases@),
            describes: self.describes@,
            auto_detect: self.auto_detect,
            files: text::texts(self.signature.files@),
            either: text::texts(self.signature.either@),
            dirs: text::texts(self.signature.dirs@),
            extension: match self.signature.extension {
                Some(ext) => Some(ext@),
                None => None,
            },
        }
    }
}

fn list0() -> (r: Vec<String>)
    ensures
        text::texts(r@) == Seq::<Seq<char>>::empty(),
{
    let out: Vec<String> = Vec::new();
    assert(text::texts(out@) =~= Seq::empty());
    out
}

fn list1(a: &str) -> (r: Vec<String>)
    ensures
        text::texts(r@) == seq![a@],
{
    let mut out: Vec<String> = Vec::new();
    out.push(a.to_string());
    assert(text::texts(out@) =~= seq![a@]);
    out
}

fn list2(a: &str, b: &str) -> (r: Vec<String>)
    ensures
        text::texts(r@) == seq![a@, b@],
{
    let mut out: Vec<String> = Vec::new();
    out.push(a.to_string());
    out.push(b.to_string());
    assert(text::texts(out@) =~= seq![a@, b@]);
    out
}

fn list3(a: &str, b: &str, c: &str) -> (r: Vec<String>)
    ensures
        text::texts(r@) == seq![a@, b@, c@],
{
    let mut out: Vec<String> = Vec::new();
    out.push(a.to_string());
    out.push(b.to_string());
    out.push(c.to_string());
    assert(text::texts(out@) =~= seq![a@, b@, c@]);
    out
}

/// A C++ model runs as a process of its own. Its folder has something to run:
/// `main.cpp`, a `build.sh` that makes the executable, or the executable.
pub open spec fn cpp_registration() -> RegistrationView {
    RegistrationView {
        name: "cpp"@,
        version: "0.1.0"@,
        aliases: Seq::empty(),
        describes: "main.cpp (or a build.sh / prebuilt model) + model_inference.textproto"@,
        auto_detect: true,
        files: seq!["model_inference.textproto"@],
        either: seq!["main.cpp"@, "build.sh"@, "model"@],
        dirs: Seq::empty(),
        extension: None,
    }
}

fn register_cpp() -> (r: BackendRegistration)
    ensures
        r@ == cpp_registration(),
{
    BackendRegistration {
        name: "cpp".to_string(),
        version: "0.1.0".to_string(),
        aliases: list0(),
        describes: "main.cpp (or a build.sh / prebuilt model) + model_inference.textproto".to_string(),
        auto_detect: true,
        signature: Signature {
            files: list1("model_inference.textproto"),
            either: list3("main.cpp", "build.sh", "model"),
            dirs: list0(),
            extension: None,
        },
    }
}

/// A C++ model that is compiled into the server. There is nothing on disk to
/// tell it by, so it is chosen only by naming it.
pub open spec fn cxx_registration() -> RegistrationView {
    RegistrationView {
        name: "cxx"@,
        version: "0.1.0"@,
        aliases: Seq::empty(),
        describes: "a model_inference.textproto for a C++ model compiled into the server"@,
        auto_detect: false,
        files: seq!["model_inference.textproto"@],
        either: Seq::empty(),
        dirs: Seq::empty(),
        extension: None,
    }
}

fn register_cxx() -> (r: BackendRegistration)
    ensures
        r@ == cxx_registration(),
{
    BackendRegistration {
        name: "cxx".to_string(),
        version: "0.1.0".to_string(),
        aliases: list0(),
        describes: "a model_inference.textproto for a C++ model compiled into the server".to_string(),
        auto_detect: false,
        signature: Signature {
            files: list1("model_inference.textproto"),
            either: list0(),
            dirs: list0(),
            extension: None,
        },
    }
}

/// An ONNX model.
pub open spec fn onnx_registration() -> RegistrationView {
    RegistrationView {
        name: "onnx"@,
        version: "0.1.0"@,
        aliases: Seq::empty(),
        describes: "a .onnx model + model_inference.textproto"@,
        auto_detect: true,
        files: seq!["model_inference.textproto"@],
        either: Seq::empty(),
        dirs: Seq::empty(),
        extension: Some("onnx"@),
    }
}

fn register_onnx() -> (r: BackendRegistration)
    ensures
        r@ == onnx_registration(),
{
    BackendRegistration {
        name: "onnx".to_string(),
        version: "0.1.0".to_string(),
        aliases: list0(),
        describes: "a .onnx model + model_inference.textproto".to_string(),
        auto_detect: true,
        signature: Signature {
            files: list1("model_inference.textproto"),
            either: list0(),
            dirs: list0(),
            extension: Some("onnx".to_string()),
        },
    }
}

/// A Python model, run as a process of its own.
pub open spec fn python_registration() -> RegistrationView {
    RegistrationView {
        name: "python"@,
        version: "0.1.0"@,
        aliases: Seq::empty(),
        describes: "main.py + requirements.txt"@,
        auto_detect: true,
        files: seq!["main.py"@, "requirements.txt"@],
        either: Seq::empty(),
        dirs: Seq::empty(),
        extension: None,
    }
}

fn register_python() -> (r: BackendRegistration)
    ensures
        r@ == python_registration(),
{
    BackendRegistration {
        name: "python".to_string(),
        version: "0.1.0".to_string(),
        aliases: list0(),
        describes: "main.py + requirements.txt".to_string(),
        auto_detect: true,
        signature: Signature {
            files: list2("main.py", "requirements.txt"),
            either: list0(),
            dirs: list0(),
            extension: None,
        },
    }
}

/// A TensorFlow SavedModel.
pub open spec fn tensorflow_registration() -> RegistrationView {
    RegistrationView {
        name: "tensorflow"@,
        version: "0.1.0"@,
        aliases: Seq::empty(),
        describes: "a SavedModel (saved_model.pb + variables/) + model_inference.textproto"@,
        auto_detect: true,
        files: seq!["model_inference.textproto"@, "saved_model.pb"@],
        either: Seq::empty(),
        dirs: seq!["variables"@],
        extension: None,
    }
}

fn register_tensorflow() -> (r: BackendRegistration)
    ensures
        r@ == tensorflow_registration(),
{
    BackendRegistration {
        name: "tensorflow".to_string(),
        version: "0.1.0".to_string(),
        aliases: list0(),
        describes: "a SavedModel (saved_model.pb + variables/) + model_inference.textproto".to_string(),
        auto_detect: true,
        signature: Signature {
            files: list2("model_inference.textproto", "saved_model.pb"),
            either: list0(),
            dirs: list1("variables"),
            extension: None,
        },
    }
}

/// A TorchScript model. `rust` is the former name of the backend.
pub open spec fn torch_registration() -> RegistrationView {
    RegistrationView {
        name: "torch"@,
        version: "0.1.0"@,
        aliases: seq!["rust"@],
        describes: "a .pt model + model_inference.textproto"@,
        auto_detect: true,
        files: seq!["model_inference.textproto"@],
        either: Seq::empty(),
        dirs: Seq::empty(),
        extension: Some("pt"@),
    }
}

fn register_torch() -> (r: BackendRegistration)
    ensures
        r@ == torch_registration(),
{
    BackendRegistration {
        name: "torch".to_string(),
        version: "0.1.0".to_string(),
        aliases: list1("rust"),
        describes: "a .pt model + model_inference.textproto".to_string(),
        auto_detect: true,
        signature: Signature {
            files: list1("model_inference.textproto"),
            either: list0(),
            dirs: list0(),
            extension: Some("pt".to_string()),
        },
    }
}

/// What a list of registrations holds.
pub open spec fn registration_views(all: Seq<BackendRegistration>) -> Seq<RegistrationView> {
    Seq::new(all.len(), |i: int| all[i]@)
}

/// The registrations of the backends that come with the server.
pub fn builtin_registrations() -> (r: Vec<BackendRegistration>)
    ensures
        registration_views(r@) == seq![
            cpp_registration(),
            cxx_registration(),
            onnx_registration(),
            python_registration(),
            tensorflow_registration(),
            torch_registration(),
        ],
{
    let mut all: Vec<BackendRegistration> = Vec::new();
    all.push(register_cpp());
    all.push(register_cxx());
    all.push(register_onnx());
    all.push(register_python());
    all.push(register_tensorflow());
    all.push(register_torch());
    assert(registration_views(all@) =~= seq![
        cpp_registration(),
        cxx_registration(),
        onnx_registration(),
        python_registration(),
        tensorflow_registration(),
        torch_registration(),
    ]);
    all
}

/// The names of regular files that a model folder is looked through for: the file
/// that declares the contract, the executable of a C++ model, and what the
/// registrations ask for.
pub open spec fn spec_sought_files(all: Seq<RegistrationView>, windows: bool) -> Seq<Seq<char>>
    decreases all.len(),
{
    if all.len() == 0 {
        seq!["model_inference.textproto"@, cpp::spec_binary_name(windows)]
    } else {
        spec_sought_files(all.drop_last(), windows) + all.last().files + all.last().either
    }
}

/// The names of directories that a model folder is looked through for.
pub open spec fn spec_sought_dirs(all: Seq<RegistrationView>) -> Seq<Seq<char>>
    decreases all.len(),
{
    if all.len() == 0 {
        Seq::empty()
    } else {
        spec_sought_dirs(all.drop_last()) + all.last().dirs
    }
}

fn add_names(out: &mut Vec<String>, names: &Vec<String>)
    ensures
        text::texts(final(out)@) == text::texts(old(out)@) + text::texts(names@),
{
    let ghost before = text::texts(out@);
    let ghost all = text::texts(names@);
    let mut i: usize = 0;
    assert(before + all.take(0) =~= before);
    while i < names.len()
        invariant
            i <= names@.len(),
            all == text::texts(names@),
            text::texts(out@) == before + all.take(i as int),
        decreases names@.len() - i,
    {
        let ghost so_far = text::texts(out@);
        out.push(names[i].clone());
        assert(text::texts(out@) =~= so_far.push(all[i as int]));
        assert(before + all.take(i + 1) =~= (before + all.take(i as int)).push(all[i as int]));
        i = i + 1;
    }
    assert(all.take(i as int) =~= all);
}

/// Lists [`spec_sought_files`].
pub fn sought_files(all: &Vec<BackendRegistration>, windows: bool) -> (r: Vec<String>)
    ensures
        text::texts(r@) == spec_sought_files(registration_views(all@), windows),
{
    let ghost views = registration_views(all@);
    let mut out = list2("model_inference.textproto", cpp_binary_path(windows));
    let mut i: usize = 0;
    assert(views.take(0) =~= Seq::empty());
    while i < all.len()
        invariant
            i <= all@.len(),
            views == registration_views(all@),
            text::texts(out@) == spec_sought_files(views.take(i as int), windows),
        decreases all@.len() - i,
    {
        proof {
            assert(views.take(i + 1).drop_last() =~= views.take(i as int));
            assert(views.take(i + 1).last() == all@[i as int]@);
        }
        add_names(&mut out, &all[i].signature.files);
        add_names(&mut out, &all[i].signature.either);
        i = i + 1;
    }
    assert(views.take(i as int) =~= views);
    out
}

/// Lists [`spec_sought_dirs`].
pub fn sought_dirs(all: &Vec<BackendRegistration>) -> (r: Vec<String>)
    ensures
        text::texts(r@) == spec_sought_dirs(registration_views(all@)),
{
    let ghost views = registration_views(all@);
    let mut out = list0();
    let mut i: usize = 0;
    assert(views.take(0) =~= Seq::empty());
    while i < all.len()
        invariant
            i <= all@.len(),
            views == registration_views(all@),
            text::texts(out@) == spec_sought_dirs(views.take(i as int)),
        decreases all@.len() - i,
    {
        proof {
            assert(views.take(i + 1).drop_last() =~= views.take(i as int));
            assert(views.take(i + 1).last() == all@[i as int]@);
        }
        add_names(&mut out, &all[i].signature.dirs);
        i = i + 1;
    }
    assert(views.take(i as int) =~= views);
    out
}

/// What messages call a model of a backend that comes with the server.
pub open spec fn model_kind(backend: Seq<char>) -> Option<Seq<char>> {
    if backend == "cpp"@ {
        Some("C++ (main.cpp)"@)
    } else if backend == "cxx"@ {
        Some("compile-time C++ (cxx)"@)
    } else if backend == "onnx"@ {
        Some("ONNX"@)
    } else if backend == "python"@ {
        Some("Python (main.py)"@)
    } else if backend == "tensorflow"@ {
        Some("TensorFlow"@)
    } else if backend == "torch"@ {
        Some("TorchScript (.pt)"@)
    } else {
        None
    }
}

/// Refuses to load a model whose backend comes with the server but was not built
/// in. The feature has the backend's name.
pub fn not_built_in(backend: &str, model_name: &str) -> (r: Option<Status>)
    ensures
        match model_kind(backend@) {
            Some(what) => r matches Some(e) && e@ == registry::spec_missing_feature(
                model_name@,
                what,
                backend@,
            ),
            None => r is None,
        },
{
    if same(backend, "cpp") {
        Some(missing_feature(model_name, "C++ (main.cpp)", backend))
    } else if same(backend, "cxx") {
        Some(missing_feature(model_name, "compile-time C++ (cxx)", backend))
    } else if same(backend, "onnx") {
        Some(missing_feature(model_name, "ONNX", backend))
    } else if same(backend, "python") {
        Some(missing_feature(model_name, "Python (main.py)", backend))
    } else if same(backend, "tensorflow") {
        Some(missing_feature(model_name, "TensorFlow", backend))
    } else if same(backend, "torch") {
        Some(missing_feature(model_name, "TorchScript (.pt)", backend))
    } else {
        None
    }
}

} // verus!
