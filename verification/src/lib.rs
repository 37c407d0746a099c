//! Semantic debugger toolkit: event model, binary PC/GEOS artifact formats,
//! the query language, the command language and the wire framing, with
//! their contracts proved by Verus.
#![allow(unused_imports)]

pub mod text;
pub mod strmap;
pub mod model;
pub mod pcgeos_bytes;

pub mod pcgeos;
pub mod pcgeos_vm;
pub mod pcgeos_strings;
pub mod pcgeos_obj;
pub mod pcgeos_symbols;
pub mod repository;
pub mod expr;
pub mod api;
pub mod control;
pub mod format;
pub mod persist;
pub mod resolver;
pub mod cli;
pub mod registry;
pub mod command;
pub mod replay;
pub mod protocol;
pub mod agent_protocol;
pub mod mock;
pub mod process;
pub mod adapter_local;
pub mod adapter_python;
pub mod adapter_agent;
pub mod adapter_pcgeos;
pub mod inventory;
pub mod repository_model;
pub mod schema;
pub mod trigger_engine;
pub mod pump;
pub mod until;
pub mod help;
pub mod eval;
pub mod pcgeos_json;
