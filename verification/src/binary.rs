//! The replay driver as `wirm` parsed it, with the finished glue module.
use vstd::prelude::*;

use crate::dispatch::{finish_ready, finished};
use crate::glue::GlueBuilder;
use crate::names::DRIVER_MODULE_NAME;
use crate::wasm::WasmModule;

verus! {

/// A core module parsed by `wirm`, held without looking inside.
#[verifier::external_type_specification]
#[verifier::external_body]
pub struct ExWirmModule<'a>(wirm::ir::module::Module<'a>);

/// Sets the name of a `wirm` module (its `module_name` field). Nothing is
/// stated of the module, which is held without looking inside.
#[verifier::external_body]
fn set_module_name(module: &mut wirm::ir::module::Module<'static>, name: &str) {
    module.module_name = Some(name.to_string());
}

/// The replay driver, parsed from the bytes of its build, and the glue
/// module that the builder finishes.
pub struct DriverGlueModules {
    pub driver: wirm::ir::module::Module<'static>,
    pub glue: WasmModule,
}

impl DriverGlueModules {
    /// Names the parsed driver `crimp_driver_mono`, under which the glue
    /// imports it, and finishes the glue: the glue is what `finish` makes of
    /// the builder.
    pub fn from_driver_and_builder(driver: wirm::ir::module::Module<'static>, builder: GlueBuilder) -> (r: DriverGlueModules)
        requires
            finish_ready(builder),
        ensures
            finished(builder, r.glue),
    {
        let mut driver = driver;
        set_module_name(&mut driver, DRIVER_MODULE_NAME);
        let glue = builder.finish();
        DriverGlueModules { driver, glue }
    }
}

} // verus!
