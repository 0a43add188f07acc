//! A plain-value model of the WebAssembly fragments that this library
//! generates: value types, instructions, function bodies and modules whose
//! imports are all functions or memories.
use vstd::prelude::*;

verus! {

/// A WebAssembly value type. Reference and other types are folded into `Other`.
#[derive(Debug, Copy, Clone, PartialEq, Eq, Structural)]
pub enum DataType {
    I32,
    I64,
    F32,
    F64,
    V128,
    Other,
}

/// A scalar number type, the only types that can cross the replay FFI boundary.
pub open spec fn is_scalar(ty: DataType) -> bool {
    ty is I32 || ty is I64 || ty is F32 || ty is F64
}

/// Every type of the sequence is a scalar number type.
pub open spec fn all_scalar(tys: Seq<DataType>) -> bool {
    forall|i: int| 0 <= i < tys.len() ==> is_scalar(#[trigger] tys[i])
}

/// Whether every type is a scalar number type.
pub fn scalar_types(tys: &Vec<DataType>) -> (r: bool)
    ensures
        r == all_scalar(tys@),
{
    for i in 0..tys.len()
        invariant
            forall|j: int| 0 <= j < i ==> is_scalar(#[trigger] tys@[j]),
    {
        match tys[i] {
            DataType::V128 | DataType::Other => {
                return false;
            },
            _ => {},
        }
    }
    true
}

/// The size in bytes of a scalar number type.
pub open spec fn byte_size(ty: DataType) -> nat {
    if ty is I64 || ty is F64 { 8 } else { 4 }
}

/// The sum of the byte sizes of the first `n` types.
pub open spec fn prefix_bytes(tys: Seq<DataType>, n: int) -> nat
    decreases n,
{
    if n <= 0 { 0 } else { prefix_bytes(tys, n - 1) + byte_size(tys[n - 1]) }
}

/// The sum of the byte sizes of all types.
pub open spec fn total_bytes(tys: Seq<DataType>) -> nat {
    prefix_bytes(tys, tys.len() as int)
}

/// Each value takes between four and eight bytes.
pub proof fn lemma_prefix_bytes_bounds(tys: Seq<DataType>, n: int)
    requires
        0 <= n <= tys.len(),
    ensures
        4 * n <= prefix_bytes(tys, n) <= 8 * n,
    decreases n,
{
    if n > 0 {
        lemma_prefix_bytes_bounds(tys, n - 1);
    }
}

/// A longer prefix takes no fewer bytes.
pub proof fn lemma_prefix_bytes_monotone(tys: Seq<DataType>, m: int, n: int)
    requires
        0 <= m <= n <= tys.len(),
    ensures
        prefix_bytes(tys, m) <= prefix_bytes(tys, n),
    decreases n,
{
    if m < n {
        lemma_prefix_bytes_monotone(tys, m, n - 1);
    }
}

/// A reference to a function of a generated module: the `k`-th imported
/// function or the `k`-th locally defined function.
#[derive(Debug, Copy, Clone, PartialEq, Eq, Structural)]
pub enum FuncRef {
    Import(u32),
    Local(u32),
}

/// The index of a function reference in the module's function index space,
/// where imported functions precede local ones.
pub open spec fn func_index_spec(r: FuncRef, num_func_imports: nat) -> int {
    match r {
        FuncRef::Import(k) => k as int,
        FuncRef::Local(k) => num_func_imports + k,
    }
}

/// Resolves a function reference to its index in the function index space.
pub fn func_index(r: FuncRef, num_func_imports: u32) -> (idx: u32)
    requires
        r matches FuncRef::Local(k) ==> num_func_imports + k <= u32::MAX,
    ensures
        idx == func_index_spec(r, num_func_imports as nat),
{
    match r {
        FuncRef::Import(k) => k,
        FuncRef::Local(k) => num_func_imports + k,
    }
}

/// Block type of a structured instruction.
#[derive(Debug, Copy, Clone, PartialEq, Eq, Structural)]
pub enum BlockType {
    Empty,
    Value(DataType),
}

/// The instructions emitted by this library.
///
/// `Load`/`Store` are the natural-alignment scalar accesses of their type;
/// memories are numbered by their position among the module's memories.
#[derive(Debug, Copy, Clone, PartialEq, Eq, Structural)]
pub enum Instr {
    I32Const(i32),
    I64Const(i64),
    LocalGet(u32),
    LocalSet(u32),
    LocalTee(u32),
    Call(FuncRef),
    CallIndirect { type_index: u32, table: u32 },
    Load { ty: DataType, offset: u64, memory: u32 },
    Store { ty: DataType, offset: u64, memory: u32 },
    I32Load8U { offset: u64, memory: u32 },
    I32Store8 { offset: u64, memory: u32 },
    MemoryCopy { dst: u32, src: u32 },
    MemoryGrow { memory: u32 },
    If(BlockType),
    Else,
    Block,
    Loop,
    Br(u32),
    BrIf(u32),
    End,
    Drop,
    Return,
    Unreachable,
    I32Eq,
    I32Ne,
    I64Ne,
    F32Ne,
    F64Ne,
    I32And,
    I32Add,
    I32Sub,
    I32Shl,
    I32GeU,
    I32LtU,
    I64ExtendI32U,
    I64Shl,
    I64Or,
    V128Xor,
    V128AnyTrue,
}

/// A function type.
pub struct FuncType {
    pub params: Vec<DataType>,
    pub results: Vec<DataType>,
}

/// An imported function.
pub struct FuncImport {
    pub module: String,
    pub name: String,
    pub type_index: u32,
}

/// An imported memory (always declared with no minimum and no maximum).
pub struct MemoryImport {
    pub module: String,
    pub name: String,
}

/// A locally defined function under construction or finished.
pub struct FuncBody {
    pub name: String,
    pub params: Vec<DataType>,
    pub results: Vec<DataType>,
    pub locals: Vec<DataType>,
    pub instrs: Vec<Instr>,
}

/// A function export.
pub struct FuncExport {
    pub name: String,
    pub func: FuncRef,
}

/// A `funcref` table whose minimum and maximum size are both `size`.
#[derive(Debug, Copy, Clone, PartialEq, Eq, Structural)]
pub struct Table {
    pub size: u32,
}

/// An active element segment placing `funcs` into `table` starting at `offset`.
pub struct Element {
    pub table: u32,
    pub offset: u32,
    pub funcs: Vec<FuncRef>,
}

/// A module whose imports are functions and memories.
pub struct WasmModule {
    pub name: String,
    pub types: Vec<FuncType>,
    pub func_imports: Vec<FuncImport>,
    pub memory_imports: Vec<MemoryImport>,
    pub funcs: Vec<FuncBody>,
    pub exports: Vec<FuncExport>,
    pub tables: Vec<Table>,
    pub elements: Vec<Element>,
}

impl FuncBody {
    /// Starts a function with the given signature, no locals and an empty body.
    pub fn new(params: &Vec<DataType>, results: &Vec<DataType>) -> (f: FuncBody)
        ensures
            f.params@ == params@,
            f.results@ == results@,
            f.locals@ == Seq::<DataType>::empty(),
            f.instrs@ == Seq::<Instr>::empty(),
            f.name@ == Seq::<char>::empty(),
    {
        FuncBody {
            name: String::new(),
            params: params.clone(),
            results: results.clone(),
            locals: Vec::new(),
            instrs: Vec::new(),
        }
    }

    /// Adds a local of the given type and returns its index, which follows
    /// the parameters and the previously added locals.
    pub fn add_local(&mut self, ty: DataType) -> (id: u32)
        requires
            old(self).params@.len() + old(self).locals@.len() < u32::MAX,
        ensures
            id == old(self).params@.len() + old(self).locals@.len(),
            final(self).locals@ == old(self).locals@.push(ty),
            final(self).params@ == old(self).params@,
            final(self).results@ == old(self).results@,
            final(self).instrs@ == old(self).instrs@,
            final(self).name@ == old(self).name@,
    {
        let id = (self.params.len() + self.locals.len()) as u32;
        self.locals.push(ty);
        id
    }

    /// Appends an instruction to the body.
    pub fn emit(&mut self, i: Instr)
        ensures
            final(self).instrs@ == old(self).instrs@.push(i),
            final(self).locals@ == old(self).locals@,
            final(self).params@ == old(self).params@,
            final(self).results@ == old(self).results@,
            final(self).name@ == old(self).name@,
    {
        self.instrs.push(i);
    }
}

impl WasmModule {
    /// An empty module with the given name.
    pub fn new(name: String) -> (m: WasmModule)
        ensures
            m.name@ == name@,
            m.types@.len() == 0,
            m.func_imports@.len() == 0,
            m.memory_imports@.len() == 0,
            m.funcs@.len() == 0,
            m.exports@.len() == 0,
            m.tables@.len() == 0,
            m.elements@.len() == 0,
    {
        WasmModule {
            name,
            types: Vec::new(),
            func_imports: Vec::new(),
            memory_imports: Vec::new(),
            funcs: Vec::new(),
            exports: Vec::new(),
            tables: Vec::new(),
            elements: Vec::new(),
        }
    }

    /// Appends a function type and returns its index.
    pub fn add_func_type(&mut self, params: &Vec<DataType>, results: &Vec<DataType>) -> (t: u32)
        requires
            old(self).types@.len() < u32::MAX,
        ensures
            t == old(self).types@.len(),
            final(self).types@.len() == old(self).types@.len() + 1,
            forall|i: int| 0 <= i < old(self).types@.len() ==> final(self).types@[i] == old(self).types@[i],
            final(self).types@[t as int].params@ == params@,
            final(self).types@[t as int].results@ == results@,
            final(self).name == old(self).name,
            final(self).func_imports == old(self).func_imports,
            final(self).memory_imports == old(self).memory_imports,
            final(self).funcs == old(self).funcs,
            final(self).exports == old(self).exports,
            final(self).tables == old(self).tables,
            final(self).elements == old(self).elements,
    {
        let t = self.types.len() as u32;
        self.types.push(FuncType { params: params.clone(), results: results.clone() });
        t
    }

    /// Appends a function import of type `type_index` and returns a reference to it.
    pub fn add_import_func(&mut self, module: String, name: String, type_index: u32) -> (f: FuncRef)
        requires
            old(self).func_imports@.len() < u32::MAX,
        ensures
            f == FuncRef::Import(old(self).func_imports@.len() as u32),
            final(self).func_imports@.len() == old(self).func_imports@.len() + 1,
            forall|i: int| 0 <= i < old(self).func_imports@.len() ==> final(self).func_imports@[i] == old(self).func_imports@[i],
            final(self).func_imports@.last().module@ == module@,
            final(self).func_imports@.last().name@ == name@,
            final(self).func_imports@.last().type_index == type_index,
            final(self).name == old(self).name,
            final(self).types == old(self).types,
            final(self).memory_imports == old(self).memory_imports,
            final(self).funcs == old(self).funcs,
            final(self).exports == old(self).exports,
            final(self).tables == old(self).tables,
            final(self).elements == old(self).elements,
    {
        let f = FuncRef::Import(self.func_imports.len() as u32);
        self.func_imports.push(FuncImport { module, name, type_index });
        f
    }

    /// Appends a memory import and returns its memory index.
    pub fn add_import_memory(&mut self, module: String, name: String) -> (m: u32)
        requires
            old(self).memory_imports@.len() < u32::MAX,
        ensures
            m == old(self).memory_imports@.len(),
            final(self).memory_imports@.len() == old(self).memory_imports@.len() + 1,
            forall|i: int| 0 <= i < old(self).memory_imports@.len() ==> final(self).memory_imports@[i] == old(self).memory_imports@[i],
            final(self).memory_imports@.last().module@ == module@,
            final(self).memory_imports@.last().name@ == name@,
            final(self).name == old(self).name,
            final(self).types == old(self).types,
            final(self).func_imports == old(self).func_imports,
            final(self).funcs == old(self).funcs,
            final(self).exports == old(self).exports,
            final(self).tables == old(self).tables,
            final(self).elements == old(self).elements,
    {
        let m = self.memory_imports.len() as u32;
        self.memory_imports.push(MemoryImport { module, name });
        m
    }

    /// Adds a finished function and returns a reference to it.
    pub fn add_func(&mut self, body: FuncBody) -> (f: FuncRef)
        requires
            old(self).funcs@.len() < u32::MAX,
        ensures
            f == FuncRef::Local(old(self).funcs@.len() as u32),
            final(self).funcs@ == old(self).funcs@.push(body),
            final(self).name == old(self).name,
            final(self).types == old(self).types,
            final(self).func_imports == old(self).func_imports,
            final(self).memory_imports == old(self).memory_imports,
            final(self).exports == old(self).exports,
            final(self).tables == old(self).tables,
            final(self).elements == old(self).elements,
    {
        let f = FuncRef::Local(self.funcs.len() as u32);
        self.funcs.push(body);
        f
    }

    /// Exports a function under the given name.
    pub fn add_export_func(&mut self, name: String, func: FuncRef)
        ensures
            final(self).exports@.len() == old(self).exports@.len() + 1,
            forall|i: int| 0 <= i < old(self).exports@.len() ==> final(self).exports@[i] == old(self).exports@[i],
            final(self).exports@.last().name@ == name@,
            final(self).exports@.last().func == func,
            final(self).name == old(self).name,
            final(self).types == old(self).types,
            final(self).func_imports == old(self).func_imports,
            final(self).memory_imports == old(self).memory_imports,
            final(self).funcs == old(self).funcs,
            final(self).tables == old(self).tables,
            final(self).elements == old(self).elements,
    {
        self.exports.push(FuncExport { name, func });
    }
}

} // verus!
