//! The server configuration and its checks.

use vstd::prelude::*;
use vstd::slice::slice_subrange;

use crate::names;
use crate::names::find_name;
use crate::number;
use crate::number::parse_usize;
use crate::text;
use crate::text::{cat3, chars_of, has_prefix, is_word, same, trimmed};

verus! {

/// The whole configuration.
#[derive(Debug)]
pub struct ServerConfig {
    pub server: ServerSection,
    pub models: Vec<ModelConfig>,
}

/// Where the server listens and finds its models.
#[derive(Debug)]
pub struct ServerSection {
    pub bind_addr: String,
    pub ml_backends_path: String,
    /// Where the plain-HTTP surface listens; nothing is served without it.
    pub http_addr: Option<String>,
}

/// One configured model.
#[derive(Debug)]
pub struct ModelConfig {
    pub name: String,
    pub device: ModelDevice,
    pub queue_capacity: usize,
    /// The backend to use. Without it the backend is found out from the contents
    /// of the model's folder.
    pub backend: Option<String>,
    /// The SavedModel signature to serve.
    pub signature: Option<String>,
}

/// Where a model runs.
#[derive(Clone, Copy, Debug, PartialEq, Eq, Structural)]
pub enum ModelDevice {
    Cpu,
    Cuda(usize),
}

/// The device that a configuration value names: `cpu`, `cuda` for the first GPU,
/// or `cuda:` and an index.
pub open spec fn spec_device(raw: Seq<char>) -> Result<ModelDevice, Seq<char>> {
    let index = number::parse_int(raw.skip("cuda:"@.len() as int), 0, usize::MAX as int);
    if raw == "cpu"@ {
        Ok(ModelDevice::Cpu)
    } else if raw == "cuda"@ {
        Ok(ModelDevice::Cuda(0))
    } else if text::begins_with(raw, "cuda:"@) && index is Ok {
        Ok(ModelDevice::Cuda(index->Ok_0 as usize))
    } else {
        Err(
            "invalid device '"@ + raw + "': expected \"cpu\", \"cuda\", or \"cuda:<index>\""@,
        )
    }
}

impl ModelDevice {
    /// Reads a device.
    pub fn parse(raw: &str) -> (r: Result<ModelDevice, String>)
        ensures
            match r {
                Ok(device) => spec_device(raw@) == Ok::<ModelDevice, Seq<char>>(device),
                Err(e) => spec_device(raw@) == Err::<ModelDevice, Seq<char>>(e@),
            },
    {
        let all = chars_of(raw);
        let s = all.as_slice();
        if is_word(s, "cpu") {
            return Ok(ModelDevice::Cpu);
        }
        if is_word(s, "cuda") {
            return Ok(ModelDevice::Cuda(0));
        }
        if has_prefix(s, "cuda:") {
            proof {
                reveal_strlit("cuda:");
            }
            let tail = slice_subrange(s, 5, s.len());
            assert(tail@ =~= raw@.skip("cuda:"@.len() as int));
            if let Ok(index) = parse_usize(tail) {
                return Ok(ModelDevice::Cuda(index));
            }
        }
        Err(
            cat3(
                "invalid device '",
                raw,
                "': expected \"cpu\", \"cuda\", or \"cuda:<index>\"",
            ),
        )
    }

    /// The index of the GPU, or `None` for the CPU.
    pub fn cuda_index(self) -> (r: Option<usize>)
        ensures
            r == match self {
                ModelDevice::Cpu => None,
                ModelDevice::Cuda(index) => Some(index),
            },
    {
        match self {
            ModelDevice::Cpu => None,
            ModelDevice::Cuda(index) => Some(index),
        }
    }
}

impl ModelConfig {
    /// The SavedModel signature to serve: the configured one, or else
    /// `serving_default`.
    pub fn tf_signature(&self) -> (r: &str)
        ensures
            r@ == match self.signature {
                Some(signature) => signature@,
                None => "serving_default"@,
            },
    {
        match &self.signature {
            Some(signature) => signature.as_str(),
            None => "serving_default",
        }
    }
}

/// The names of the configured models.
pub open spec fn model_names(models: Seq<ModelConfig>) -> Seq<Seq<char>> {
    Seq::new(models.len(), |i: int| models[i].name@)
}

/// Whether a text is empty apart from white space.
pub open spec fn blank(s: Seq<char>) -> bool {
    text::trim(s).len() == 0
}

/// The complaint about the model at `i`, if there is one: its name is blank, it
/// takes no requests, or an earlier model has its name.
pub open spec fn model_fault(models: Seq<ModelConfig>, i: int) -> Option<Seq<char>> {
    let name = models[i].name@;
    if blank(name) {
        Some("model name must be non-empty"@)
    } else if models[i].queue_capacity == 0 {
        Some("queue_capacity must be > 0 for model '"@ + name + "'"@)
    } else if names::position(model_names(models), name) < i {
        Some("duplicate model name in config: '"@ + name + "'"@)
    } else {
        None
    }
}

/// The complaint about the first bad model at or after `from`.
pub open spec fn models_fault(models: Seq<ModelConfig>, from: int) -> Option<Seq<char>>
    decreases models.len() - from,
{
    if from >= models.len() {
        None
    } else if model_fault(models, from) is Some {
        model_fault(models, from)
    } else {
        models_fault(models, from + 1)
    }
}

/// The complaint about a configuration, if there is one.
pub open spec fn config_fault(config: ServerConfig) -> Option<Seq<char>> {
    if blank(config.server.bind_addr@) {
        Some("server.bind_addr must be non-empty"@)
    } else if blank(config.server.ml_backends_path@) {
        Some("server.ml_backends_path must be non-empty"@)
    } else if config.server.http_addr matches Some(addr) && addr@ == config.server.bind_addr@ {
        Some("server.http_addr must differ from server.bind_addr"@)
    } else if config.models@.len() == 0 {
        Some("config must contain at least one model"@)
    } else {
        models_fault(config.models@, 0)
    }
}

fn is_blank(s: &str) -> (r: bool)
    ensures
        r == blank(s@),
{
    let all = chars_of(s);
    trimmed(all.as_slice()).len() == 0
}

fn names_of(models: &Vec<ModelConfig>) -> (r: Vec<String>)
    ensures
        text::texts(r@) == model_names(models@),
{
    let mut out: Vec<String> = Vec::new();
    let mut i: usize = 0;
    while i < models.len()
        invariant
            i <= models@.len(),
            out@.len() == i,
            forall|k: int| 0 <= k < i ==> (#[trigger] out@[k])@ == models@[k].name@,
        decreases models@.len() - i,
    {
        out.push(models[i].name.clone());
        i = i + 1;
    }
    assert(text::texts(out@) =~= model_names(models@));
    out
}

/// Checks a configuration; the complaint otherwise.
pub fn validate_server_config(config: &ServerConfig) -> (r: Result<(), String>)
    ensures
        match r {
            Ok(_) => config_fault(*config) is None,
            Err(e) => config_fault(*config) == Some(e@),
        },
{
    if is_blank(config.server.bind_addr.as_str()) {
        return Err("server.bind_addr must be non-empty".to_string());
    }
    if is_blank(config.server.ml_backends_path.as_str()) {
        return Err("server.ml_backends_path must be non-empty".to_string());
    }
    if let Some(addr) = &config.server.http_addr {
        if same(addr.as_str(), config.server.bind_addr.as_str()) {
            return Err("server.http_addr must differ from server.bind_addr".to_string());
        }
    }
    if config.models.len() == 0 {
        return Err("config must contain at least one model".to_string());
    }
    let all = names_of(&config.models);
    let mut i: usize = 0;
    while i < config.models.len()
        invariant
            i <= config.models@.len(),
            text::texts(all@) == model_names(config.models@),
            config_fault(*config) == models_fault(config.models@, i as int),
        decreases config.models@.len() - i,
    {
        let model = &config.models[i];
        let name = model.name.as_str();
        if is_blank(name) {
            return Err("model name must be non-empty".to_string());
        }
        if model.queue_capacity == 0 {
            return Err(cat3("queue_capacity must be > 0 for model '", name, "'"));
        }
        if find_name(&all, name) < i {
            return Err(cat3("duplicate model name in config: '", name, "'"));
        }
        i = i + 1;
    }
    Ok(())
}

proof fn lemma_no_model_fault(models: Seq<ModelConfig>, from: int)
    requires
        0 <= from <= models.len(),
    ensures
        models_fault(models, from) is None <==> (forall|i: int|
            from <= i < models.len() ==> #[trigger] model_fault(models, i) is None),
    decreases models.len() - from,
{
    if from < models.len() {
        lemma_no_model_fault(models, from + 1);
    }
}

/// A configuration is accepted exactly if its addresses and path are not blank,
/// the two addresses differ, and it has models, each with a name that is not
/// blank and that no other model has, and each with room for a request.
pub proof fn law_accepted_config(config: ServerConfig)
    ensures
        config_fault(config) is None <==> {
            &&& !blank(config.server.bind_addr@)
            &&& !blank(config.server.ml_backends_path@)
            &&& config.server.http_addr matches Some(addr) ==> addr@ != config.server.bind_addr@
            &&& config.models@.len() > 0
            &&& forall|i: int|
                0 <= i < config.models@.len() ==> !blank((#[trigger] config.models@[i]).name@)
                    && config.models@[i].queue_capacity > 0
            &&& forall|i: int, j: int|
                0 <= i < j < config.models@.len() ==> (#[trigger] config.models@[i]).name@ != (
                #[trigger] config.models@[j]).name@
        },
{
    let models = config.models@;
    let all = model_names(models);
    lemma_no_model_fault(models, 0);
    assert forall|j: int| 0 <= j < models.len() implies (names::position(all, models[j].name@) < j
        <==> exists|i: int| 0 <= i < j && (#[trigger] models[i]).name@ == models[j].name@) by {
        let name = models[j].name@;
        names::lemma_position(all, name);
        let p = names::position(all, name) as int;
        if p < j {
            assert(all[p] == models[p].name@);
            assert(models[p].name@ == name);
        }
        if exists|i: int| 0 <= i < j && (#[trigger] models[i]).name@ == name {
            let i = choose|i: int| 0 <= i < j && (#[trigger] models[i]).name@ == name;
            assert(all[i] == name);
        }
    }
    assert(models_fault(models, 0) is None <==> forall|i: int|
        0 <= i < models.len() ==> #[trigger] model_fault(models, i) is None);
    if config_fault(config) is None {
        assert forall|i: int| 0 <= i < models.len() implies !blank((#[trigger] models[i]).name@)
            && models[i].queue_capacity > 0 by {
            assert(model_fault(models, i) is None);
        }
        assert forall|i: int, j: int| 0 <= i < j < models.len() implies (
        #[trigger] models[i]).name@ != (#[trigger] models[j]).name@ by {
            assert(model_fault(models, j) is None);
        }
    }
}

} // verus!
