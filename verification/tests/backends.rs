use nereid_server::backends::{builtin_registrations, not_built_in, sought_dirs, sought_files};
use nereid_server::folder::{Folder, FolderEntry};
use nereid_server::onnx::find_exactly_one_onnx_file;
use nereid_server::registry::{detect_backend, missing_feature};
use nereid_server::selection::selects;
use nereid_server::status::Code;
use nereid_server::torch::find_exactly_one_pt_model_file;

fn folder(files: &[&str], dirs: &[&str]) -> Folder {
    let entries = files
        .iter()
        .map(|name| (name, true))
        .chain(dirs.iter().map(|name| (name, false)))
        .map(|(name, is_file)| {
            Ok(FolderEntry {
                name: name.to_string(),
                path: format!("models/{name}"),
                is_file,
            })
        })
        .collect();
    Folder {
        files: files.iter().map(|f| f.to_string()).collect(),
        dirs: dirs.iter().map(|d| d.to_string()).collect(),
        listing: Ok(entries),
    }
}

fn detected(folder: &Folder, declared: Option<&str>) -> Result<String, String> {
    let all = builtin_registrations();
    match detect_backend(&all, folder, "model", declared) {
        Ok(i) => Ok(all[i].name.clone()),
        Err(e) => {
            assert_eq!(e.code(), Code::FailedPrecondition);
            Err(e.message().to_string())
        }
    }
}

#[test]
fn detect_backend_recognizes_python_folder() {
    let base = folder(&["main.py", "requirements.txt"], &[]);
    assert_eq!(detected(&base, None).expect("should detect python"), "python");
}

#[test]
fn detect_backend_recognizes_torch_folder() {
    let base = folder(&["model_inference.textproto", "model.pt"], &[]);
    assert_eq!(detected(&base, None).expect("should detect torch"), "torch");
}

#[test]
fn detect_backend_declared_unknown_is_rejected() {
    let base = folder(&["main.py", "requirements.txt"], &[]);
    assert!(detected(&base, Some("nope")).is_err());
}

#[test]
fn detect_backend_rejects_ambiguous_folder() {
    let base = folder(
        &["main.py", "requirements.txt", "model_inference.textproto", "model.pt"],
        &[],
    );
    assert!(detected(&base, None).is_err());
}

#[test]
fn detect_backend_rejects_empty_folder() {
    assert!(detected(&folder(&[], &[]), None).is_err());
}

#[test]
fn torch_find_exactly_one_pt_file_rejects_missing_and_multiple() {
    assert!(find_exactly_one_pt_model_file(&folder(&[], &[])).is_err());
    assert!(find_exactly_one_pt_model_file(&folder(&["a.pt", "b.pt"], &[])).is_err());
}

#[test]
fn torch_model3_has_single_pt_file_in_fixture() {
    let model3 = folder(&["mlp.pt", "model_inference.textproto"], &[]);
    assert_eq!(
        find_exactly_one_pt_model_file(&model3).expect("model3 should have one .pt file"),
        "models/mlp.pt"
    );
}

#[test]
fn a_declared_backend_settles_an_ambiguous_folder() {
    let both = folder(
        &["main.py", "requirements.txt", "model_inference.textproto", "model.pt"],
        &[],
    );
    assert_eq!(detected(&both, Some("python")).unwrap(), "python");
    assert_eq!(detected(&both, Some("torch")).unwrap(), "torch");
    assert_eq!(detected(&both, Some("rust")).unwrap(), "torch", "alias");
    assert_eq!(
        detected(&both, None).unwrap_err(),
        "model 'model' folder matches multiple backends (python, torch); set `backend` in nereid.yaml to disambiguate"
    );
}

#[test]
fn a_declared_backend_needs_its_files() {
    let python = folder(&["main.py", "requirements.txt"], &[]);
    assert_eq!(
        detected(&python, Some("torch")).unwrap_err(),
        "model 'model' declares backend \"torch\" but its folder is not a .pt model + model_inference.textproto"
    );
    // A compiled-in model has no files to look for.
    assert_eq!(detected(&folder(&[], &[]), Some("cxx")).unwrap(), "cxx");
}

#[test]
fn every_folder_shape_has_its_backend() {
    let textproto = "model_inference.textproto";
    assert_eq!(detected(&folder(&[textproto, "m.onnx"], &[]), None).unwrap(), "onnx");
    assert_eq!(
        detected(&folder(&[textproto, "saved_model.pb"], &["variables"]), None).unwrap(),
        "tensorflow"
    );
    assert_eq!(detected(&folder(&[textproto, "main.cpp"], &[]), None).unwrap(), "cpp");
    assert_eq!(detected(&folder(&[textproto, "build.sh"], &[]), None).unwrap(), "cpp");
    assert!(detected(&folder(&[textproto], &[]), None).is_err());
}

#[test]
fn registrations_are_versioned() {
    let all = builtin_registrations();
    assert_eq!(all.len(), 6);
    assert!(all.iter().all(|r| r.version == "0.1.0"));
}

#[test]
fn the_only_model_file_is_found() {
    assert_eq!(
        find_exactly_one_onnx_file(&folder(&["m.onnx", "notes.txt"], &[])).unwrap(),
        "models/m.onnx"
    );
    let none = find_exactly_one_onnx_file(&folder(&["notes.txt"], &["dir.onnx"])).unwrap_err();
    assert_eq!(none.code(), Code::FailedPrecondition);
    assert_eq!(none.message(), "model must contain exactly one .onnx file; found none");
    let many = find_exactly_one_pt_model_file(&folder(&["a.pt", "b.pt"], &[])).unwrap_err();
    assert_eq!(many.message(), "model must contain exactly one .pt file; found 2");
    let unreadable = Folder {
        files: Vec::new(),
        dirs: Vec::new(),
        listing: Err("denied".to_string()),
    };
    let e = find_exactly_one_pt_model_file(&unreadable).unwrap_err();
    assert_eq!(e.code(), Code::Internal);
    assert_eq!(e.message(), "failed to read model directory: denied");
}

#[test]
fn a_missing_backend_names_its_feature() {
    let e = missing_feature("m", "ONNX", "onnx");
    assert_eq!(
        e.message(),
        "model 'm' is a ONNX model, but this server was built without that backend. Rebuild with `--features onnx` (or `./build.sh --onnx`)."
    );
    let e = not_built_in("torch", "m").expect("known backend");
    assert_eq!(e.code(), Code::FailedPrecondition);
    assert_eq!(
        e.message(),
        "model 'm' is a TorchScript (.pt) model, but this server was built without that backend. Rebuild with `--features torch` (or `./build.sh --torch`)."
    );
    assert!(not_built_in("vendor", "m").is_none());
}

#[test]
fn selections_by_name_pattern() {
    assert!(selects("onnx,tensorflow", "onnx"));
    assert!(!selects("onnx,tensorflow", "torch"));
    assert!(!selects("!torch", "torch"));
    assert!(selects("!torch", "python"));
    assert!(!selects("*,!vendor-*", "vendor-a"));
    assert!(selects("*,!vendor-*", "cpp"));
    assert!(selects("", "anything"));
    assert!(selects("# all of them\n", "anything"));
    assert!(selects("onnx # and\ntorch", "torch"));
    assert!(!selects("torch,!torch", "torch"));
    assert!(selects("t*h", "torch"));
    assert!(!selects("t*h", "torches"));
}

#[test]
fn folders_are_looked_through_for_what_backends_ask_for() {
    let files = sought_files(&builtin_registrations(), true);
    for name in [
        "model_inference.textproto",
        "main.py",
        "requirements.txt",
        "main.cpp",
        "build.sh",
        "model",
        "model.exe",
        "saved_model.pb",
    ] {
        assert!(files.contains(&name.to_string()), "{name}");
    }
    assert!(!sought_files(&builtin_registrations(), false).contains(&"model.exe".to_string()));
    assert_eq!(sought_dirs(&builtin_registrations()), vec!["variables".to_string()]);
    assert_eq!(sought_files(&Vec::new(), false), vec!["model_inference.textproto", "model"]);
}
