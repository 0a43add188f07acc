//! Linking metadata of nested component instances.
use std::collections::HashMap;
use vstd::prelude::*;

use crate::ids::{ComponentID, ComponentImportIndex};
use crate::linking::InstantiateOrder;

verus! {

/// What the linking logic reads of a nested component: its import names in
/// declaration order and its function exports as (name, function index).
pub struct ComponentSummary {
    pub imports: Vec<String>,
    pub func_exports: Vec<(String, u32)>,
}

/// Metadata of a nested component that is instantiated in the component.
pub struct ComponentMetadata {
    pub component: ComponentSummary,
    /// Its imports as (name, index).
    pub import_map: Vec<(String, ComponentImportIndex)>,
}

/// The node of the parent that binds an import of a component instance
/// (only functions for now).
pub enum ComponentImportBindInParent {
    Func(u32),
}

/// Linking information of a component instantiation.
pub struct ComponentInstantiationLinkingMetadata {
    pub instantiate_order: InstantiateOrder,
    /// The binding of every import, by import name.
    pub imports: Vec<(String, ComponentImportBindInParent)>,
}

/// Linking information of the top-level nested component instances.
pub struct ComponentLinkingMetadata {
    /// Metadata of each nested component, keyed by component ID.
    pub cm: HashMap<u32, ComponentMetadata>,
    /// The component of each component instance, keyed by instance ID.
    pub instance_map: HashMap<u32, ComponentID>,
    /// The linking of each component instantiation, keyed by instance ID.
    pub instantiations: HashMap<u32, ComponentInstantiationLinkingMetadata>,
}

} // verus!
