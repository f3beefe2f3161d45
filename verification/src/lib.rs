//! Decision core of the nereid inference server: model contracts, request
//! validation, backend selection, metrics accounting and the tensor framing
//! spoken by model processes.

pub mod accounting;
pub mod backend;
pub mod backends;
pub mod binding;
pub mod checkpoint;
pub mod child;
pub mod choosing;
pub mod comments;
pub mod config;
pub mod contract;
pub mod counting;
pub mod cpp;
pub mod cxx;
pub mod declared;
pub mod dtype;
pub mod engine;
pub mod folder;
pub mod frame;
pub mod inference;
pub mod layout;
pub mod ledger;
pub mod manager;
pub mod metrics;
pub mod names;
pub mod native;
pub mod number;
pub mod onnx;
pub mod order;
pub mod python;
pub mod refusals;
pub mod registry;
pub mod relay;
pub mod running;
pub mod runtime;
pub mod scripts;
pub mod selection;
pub mod service;
pub mod serving;
pub mod startup;
pub mod status;
pub mod streams;
pub mod tensor;
pub mod tensorflow;
pub mod text;
pub mod textproto;
pub mod torch;
pub mod triton;
pub mod views;
pub mod wording;
