//! Verified core of a WebAssembly component decomposer for deterministic
//! record/replay: linking metadata, the synthetic glue module that connects
//! decomposed modules to a replay driver, start-function safety analysis,
//! shadow-memory instrumentation decisions, and the replay driver's state
//! machine.

pub mod ids;
pub mod names;
pub mod wasm;
pub mod linking;
pub mod component_linking;
pub mod glue;
pub mod binary;
pub mod dispatch;
pub mod start_analysis;
pub mod adapt;
pub mod r3;
pub mod r3_run;
pub mod decompose;
pub mod driver;
pub mod hosts;
