use nereid_server::backends::builtin_registrations;
use nereid_server::config::{ModelConfig, ModelDevice, ServerConfig, ServerSection};
use nereid_server::contract::Contract;
use nereid_server::folder::Folder;
use nereid_server::manager::ModelManager;
use nereid_server::number::{decimal_i64, decimal_u128, parse_i64, parse_usize, IntFault};
use nereid_server::startup::{Location, Startup};
use nereid_server::status::Code;
use nereid_server::textproto::TextFile;

fn config(names: &[&str]) -> ServerConfig {
    ServerConfig {
        server: ServerSection {
            bind_addr: "[::1]:50051".to_string(),
            ml_backends_path: "ml-backends".to_string(),
            http_addr: None,
        },
        models: names
            .iter()
            .map(|name| ModelConfig {
                name: name.to_string(),
                device: ModelDevice::Cpu,
                queue_capacity: 1,
                backend: None,
                signature: None,
            })
            .collect(),
    }
}

fn at(path: &str, is_dir: bool) -> Location {
    Location {
        resolved: Ok(path.to_string()),
        is_dir,
    }
}

fn nowhere(cause: &str) -> Location {
    Location {
        resolved: Err(cause.to_string()),
        is_dir: false,
    }
}

fn contract() -> Contract {
    Contract::parse(&TextFile {
        path: "m".to_string(),
        contents: Ok("output_shape: [1]\n".to_string()),
    })
    .expect("contract")
}

#[test]
fn a_server_starts_with_all_its_models() {
    let config = config(&["b", "a"]);
    let mut startup = Startup::begin(&config, &at("/srv/models", true)).unwrap();
    assert_eq!(startup.loaded(), 0);
    let script = Folder {
        files: vec!["main.py".to_string(), "requirements.txt".to_string()],
        dirs: Vec::new(),
        listing: Ok(Vec::new()),
    };
    let all = builtin_registrations();
    let i = startup
        .select_backend(&all, &config.models[0], &at("/srv/models/b", true), &script)
        .unwrap();
    assert_eq!(all[i].name, "python");
    startup.add(&config, contract(), "python".to_string());
    startup.add(&config, contract(), "nereid_cxx".to_string());
    assert_eq!(startup.loaded(), 2);

    let mut manager = ModelManager::from_config(&config, startup);
    assert_eq!(manager.configured_models(), vec!["b".to_string(), "a".to_string()]);
    assert_eq!(manager.platform("a"), Some("nereid_cxx"));
    assert!(manager.contract("ghost").is_none());
    assert!(manager.is_configured("b") && !manager.is_configured("c"));

    // One model's permits are no other's.
    let permit = manager.infer("a", &Vec::new()).expect("a permit");
    assert_eq!(
        manager.infer("a", &Vec::new()).unwrap_err().code(),
        Code::ResourceExhausted
    );
    let other = manager.infer("b", &Vec::new()).expect("a permit");
    manager.release(permit);
    let again = manager.infer("a", &Vec::new()).expect("the permit is back");
    manager.release(again);
    manager.release(other);
}

#[test]
fn folders_must_be_there() {
    let config = config(&["m"]);
    let begun = |base: &Location| Startup::begin(&config, base).unwrap_err().message().to_string();
    assert_eq!(
        begun(&nowhere("No such file")),
        "failed to resolve server.ml_backends_path 'ml-backends': No such file"
    );
    assert_eq!(
        begun(&at("/srv/models", false)),
        "server.ml_backends_path '/srv/models' is not a directory"
    );
    let startup = Startup::begin(&config, &at("/srv/models", true)).unwrap();
    let empty = Folder {
        files: Vec::new(),
        dirs: Vec::new(),
        listing: Ok(Vec::new()),
    };
    let all = builtin_registrations();
    let chosen = |dir: &Location| {
        let e = startup
            .select_backend(&all, &config.models[0], dir, &empty)
            .unwrap_err();
        assert_eq!(e.code(), Code::FailedPrecondition);
        e.message().to_string()
    };
    assert_eq!(
        chosen(&nowhere("No such file")),
        "failed to resolve model directory for 'm' under '/srv/models': No such file"
    );
    assert_eq!(
        chosen(&at("/srv/models/m", false)),
        "configured model 'm' is not a directory under '/srv/models'"
    );
}

#[test]
fn numbers_are_read_as_they_are_shown() {
    let read = |s: &str| parse_i64(&s.chars().collect::<Vec<char>>());
    for n in [0, 7, -1, i64::MAX, i64::MIN] {
        assert_eq!(decimal_i64(n), n.to_string());
        assert_eq!(read(&n.to_string()).unwrap(), n);
    }
    assert_eq!(decimal_u128(u128::MAX), u128::MAX.to_string());
    assert_eq!(read("+5").unwrap(), 5);
    let message = |s: &str| read(s).unwrap_err().message();
    assert_eq!(message(""), "cannot parse integer from empty string");
    assert_eq!(message("-"), "invalid digit found in string");
    assert_eq!(message("9223372036854775808"), "number too large to fit in target type");
    assert_eq!(message("-9223372036854775809"), "number too small to fit in target type");
    assert!(matches!(parse_usize(&['-', '1']), Err(IntFault::InvalidDigit)));
}
