use vstd::prelude::*;

verus! {

/// Unique index provided to each module of a component.
#[derive(Debug, Default, Copy, Clone, PartialEq, Eq, Structural)]
pub struct ModuleID(pub u32);

/// Unique index provided to each core module instance of a component
/// (instantiated or synthesized from exports).
#[derive(Debug, Copy, Clone, PartialEq, Eq, Structural)]
pub struct ModuleInstanceID(pub u32);

/// Index of an import within a core module's import section.
#[derive(Debug, Copy, Clone, PartialEq, Eq, Structural)]
pub struct ModuleImportIndex(pub u32);

/// The export index assigned by the recorder.
#[derive(Debug, Copy, Clone, PartialEq, Eq, Structural)]
pub struct RecordExportIndex(pub u32);

/// Unique index provided to each nested component, in declaration order.
#[derive(Debug, Default, Copy, Clone, PartialEq, Eq, Structural)]
pub struct ComponentID(pub u32);

/// Unique index provided to each top-level component instance.
#[derive(Debug, Copy, Clone, PartialEq, Eq, Structural)]
pub struct ComponentInstanceID(pub u32);

/// Index of an import within a component's import list.
#[derive(Debug, Copy, Clone, PartialEq, Eq, Structural)]
pub struct ComponentImportIndex(pub u32);

impl ModuleImportIndex {
    /// The raw index into the import section.
    pub fn index(&self) -> (r: u32)
        ensures
            r == self.0,
    {
        self.0
    }
}

} // verus!
