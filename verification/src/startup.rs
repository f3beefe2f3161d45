//! Bringing the server up: the configured models are found and loaded one after
//! another, and the first that cannot be fails the startup.

use vstd::prelude::*;

use crate::config::{ModelConfig, ServerConfig};
use crate::contract::{Contract, ContractView};
use crate::folder::Folder;
use crate::manager::{LoadedModel, ManagerView, ModelManager, ModelView};
use crate::metrics::ModelMetrics;
use crate::registry;
use crate::registry::{detect_backend, BackendRegistration};
use crate::status::{Code, Status, StatusView};
use crate::text::{cat3, cat4, cat5, cat6};

verus! {

/// What the file system says of a path: its canonical form or the cause why it
/// has none, and whether it is a directory.
#[derive(Debug)]
pub struct Location {
    pub resolved: Result<String, String>,
    pub is_dir: bool,
}

/// Why the folder of all models cannot be used, if so.
pub open spec fn base_fault(configured: Seq<char>, base: Location) -> Option<StatusView> {
    match base.resolved {
        Err(cause) => Some(
            (
                Code::FailedPrecondition,
                "failed to resolve server.ml_backends_path '"@ + configured + "': "@ + cause@,
            ),
        ),
        Ok(path) => if base.is_dir {
            None
        } else {
            Some(
                (
                    Code::FailedPrecondition,
                    "server.ml_backends_path '"@ + path@ + "' is not a directory"@,
                ),
            )
        },
    }
}

/// Why the folder of one model cannot be used, if so.
pub open spec fn model_dir_fault(name: Seq<char>, base: Seq<char>, dir: Location) -> Option<
    StatusView,
> {
    match dir.resolved {
        Err(cause) => Some(
            (
                Code::FailedPrecondition,
                "failed to resolve model directory for '"@ + name + "' under '"@ + base + "': "@
                    + cause@,
            ),
        ),
        Ok(_) => if dir.is_dir {
            None
        } else {
            Some(
                (
                    Code::FailedPrecondition,
                    "configured model '"@ + name + "' is not a directory under '"@ + base + "'"@,
                ),
            )
        },
    }
}

/// The place of the backend that serves a model, or why none does.
pub open spec fn chosen_backend(
    all: Seq<BackendRegistration>,
    model: ModelConfig,
    base: Seq<char>,
    dir: Location,
    folder: Folder,
) -> Result<int, StatusView> {
    match model_dir_fault(model.name@, base, dir) {
        Some(fault) => Err(fault),
        None => registry::spec_backend(
            all,
            folder,
            model.name@,
            match model.backend {
                Some(declared) => Some(declared@),
                None => None,
            },
        ),
    }
}

/// A startup under way: the folder of all models, and the models loaded so far.
#[derive(Debug)]
pub struct Startup {
    base: String,
    models: Vec<LoadedModel>,
}

/// A [`Startup`] as contracts see it.
#[verifier::ext_equal]
pub struct StartupView {
    pub base: Seq<char>,
    pub models: Seq<ModelView>,
}

/// A loaded model, none of whose permits is in use.
pub open spec fn idle(
    name: Seq<char>,
    contract: ContractView,
    platform: Seq<char>,
    capacity: nat,
) -> ModelView {
    ModelView { name, contract, platform, capacity, in_use: 0 }
}

impl View for Startup {
    type V = StartupView;

    closed spec fn view(&self) -> StartupView {
        StartupView {
            base: self.base@,
            models: Seq::new(
                self.models@.len(),
                |i: int|
                    idle(
                        self.models@[i].name@,
                        self.models@[i].contract@,
                        self.models@[i].platform@,
                        self.models@[i].queue_capacity as nat,
                    ),
            ),
        }
    }
}

impl StartupView {
    /// Whether the models loaded so far are the first of the configuration, each
    /// with its name and its permits.
    pub open spec fn follows(self, config: ServerConfig) -> bool {
        &&& self.models.len() <= config.models@.len()
        &&& forall|i: int|
            0 <= i < self.models.len() ==> {
                &&& (#[trigger] self.models[i]).name == config.models@[i].name@
                &&& self.models[i].capacity == config.models@[i].queue_capacity
                &&& self.models[i].in_use == 0
            }
    }
}

impl Startup {
    /// Begins a startup in the configured folder.
    pub fn begin(config: &ServerConfig, base: &Location) -> (r: Result<Startup, Status>)
        ensures
            match base_fault(config.server.ml_backends_path@, *base) {
                Some(fault) => r matches Err(e) && e@ == fault,
                None => r matches Ok(startup) && startup@ == (StartupView {
                    base: base.resolved->Ok_0@,
                    models: seq![],
                }) && startup@.follows(*config),
            },
    {
        match &base.resolved {
            Err(cause) => Err(
                Status::failed_precondition(
                    cat4(
                        "failed to resolve server.ml_backends_path '",
                        config.server.ml_backends_path.as_str(),
                        "': ",
                        cause.as_str(),
                    ),
                ),
            ),
            Ok(path) => {
                if !base.is_dir {
                    return Err(
                        Status::failed_precondition(
                            cat3(
                                "server.ml_backends_path '",
                                path.as_str(),
                                "' is not a directory",
                            ),
                        ),
                    );
                }
                let startup = Startup { base: path.clone(), models: Vec::new() };
                assert(startup@.models =~= seq![]);
                Ok(startup)
            },
        }
    }

    /// The number of models loaded so far, which is the place of the next one in
    /// the configuration.
    pub fn loaded(&self) -> (r: usize)
        ensures
            r == self@.models.len(),
    {
        self.models.len()
    }

    /// Chooses the backend for a model by its folder and its configuration.
    pub fn select_backend(
        &self,
        all: &Vec<BackendRegistration>,
        model: &ModelConfig,
        dir: &Location,
        folder: &Folder,
    ) -> (r: Result<usize, Status>)
        ensures
            match r {
                Ok(i) => chosen_backend(all@, *model, self@.base, *dir, *folder) == Ok::<
                    int,
                    StatusView,
                >(i as int),
                Err(e) => chosen_backend(all@, *model, self@.base, *dir, *folder) == Err::<
                    int,
                    StatusView,
                >(e@),
            },
    {
        match &dir.resolved {
            Err(cause) => {
                return Err(
                    Status::failed_precondition(
                        cat6(
                            "failed to resolve model directory for '",
                            model.name.as_str(),
                            "' under '",
                            self.base.as_str(),
                            "': ",
                            cause.as_str(),
                        ),
                    ),
                );
            },
            Ok(_) => {},
        }
        if !dir.is_dir {
            return Err(
                Status::failed_precondition(
                    cat5(
                        "configured model '",
                        model.name.as_str(),
                        "' is not a directory under '",
                        self.base.as_str(),
                        "'",
                    ),
                ),
            );
        }
        match &model.backend {
            Some(declared) => detect_backend(
                all,
                folder,
                model.name.as_str(),
                Some(declared.as_str()),
            ),
            None => detect_backend(all, folder, model.name.as_str(), None),
        }
    }

    /// Adds the next model of the configuration, which its backend has loaded.
    pub fn add(&mut self, config: &ServerConfig, contract: Contract, platform: String)
        requires
            old(self)@.follows(*config),
            old(self)@.models.len() < config.models@.len(),
        ensures
            final(self)@.follows(*config),
            final(self)@ == (StartupView {
                models: old(self)@.models.push(
                    idle(
                        config.models@[old(self)@.models.len() as int].name@,
                        contract@,
                        platform@,
                        config.models@[old(self)@.models.len() as int].queue_capacity as nat,
                    ),
                ),
                ..old(self)@
            }),
    {
        let i: usize = self.models.len();
        let name = config.models[i].name.clone();
        let queue_capacity: usize = config.models[i].queue_capacity;
        self.models.push(LoadedModel { name, contract, platform, queue_capacity });
        assert(self@ =~= (StartupView {
            models: old(self)@.models.push(
                idle(
                    config.models@[i as int].name@,
                    contract@,
                    platform@,
                    queue_capacity as nat,
                ),
            ),
            ..old(self)@
        }));
    }
}

impl ModelManager {
    /// The manager of all configured models, once each of them is loaded. All
    /// permits are free, and every model has its counters, at zero.
    pub fn from_config(config: &ServerConfig, startup: Startup) -> (r: ModelManager)
        requires
            startup@.follows(*config),
            startup@.models.len() == config.models@.len(),
        ensures
            r@.well_formed(),
            r@ == (ManagerView {
                models: startup@.models,
                registry: Seq::new(
                    config.models@.len(),
                    |i: int| (config.models@[i].name@, ModelMetrics::zero()),
                ),
            }),
    {
        let ghost view = startup@;
        let manager = ModelManager::new(startup.models);
        proof {
            assert forall|i: int| 0 <= i < config.models@.len() implies (
            #[trigger] manager@.registry[i]).0 == config.models@[i].name@ by {
                assert(view.models[i].name == config.models@[i].name@);
            }
            assert(manager@ =~= (ManagerView {
                models: view.models,
                registry: Seq::new(
                    config.models@.len(),
                    |i: int| (config.models@[i].name@, ModelMetrics::zero()),
                ),
            }));
        }
        manager
    }
}

} // verus!
