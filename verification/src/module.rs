use vstd::prelude::*;

verus! {

/// The kinds of Wasm values, used in function signatures, locals and globals.
/// The transform never inspects a value of these kinds; it only carries the
/// kind along so signatures and locals round-trip unchanged.
#[derive(Clone, Copy, Debug, PartialEq, Eq, Structural)]
pub enum ValKind {
    I32,
    I64,
    Float32,
    Float64,
    V128,
    FuncRef,
    ExternRef,
}

/// The result arity of a structured `if`/`else` block: none, or one value.
#[derive(Clone, Copy, Debug, PartialEq, Eq, Structural)]
pub enum BlockResult {
    Empty,
    One { kind: ValKind },
}

/// One Wasm instruction, as far as this transform needs to see it.
///
/// Function bodies are stored as a flat list of instruction sequences
/// (`FuncBody::seqs`); structured instructions (`Block`, `Loop`, `IfElse`)
/// refer to their nested sequences by index into that list, so a walk over
/// all sequences visits every instruction of the body exactly once.
///
/// Every memory instruction here acts on the module's first linear memory
/// with alignment hint 1 and static offset 0; that is the only addressing
/// shape the synthesized shims use. Instructions the transform neither
/// emits nor inspects are kept as `Other`: the transform only ever reads
/// `Call` targets and rewrites them in place, so nothing else of a
/// pre-existing body needs to be represented.
#[derive(Clone, Copy, Debug, PartialEq, Eq, Structural)]
pub enum Instr {
    Call { func: usize },
    LocalGet { local: usize },
    LocalSet { local: usize },
    LocalTee { local: usize },
    GlobalGet { global: usize },
    GlobalSet { global: usize },
    I32Const { value: u32 },
    I64Const { value: u64 },
    I32Add,
    I32Eqz,
    I32Load,
    I32Store,
    I32Store16,
    I32Store8,
    I64Store,
    IfElse { result: BlockResult, then_seq: usize, else_seq: usize },
    Block { seq: usize },
    Loop { seq: usize },
    Return,
    Other,
}

/// A function signature: parameter and result value kinds.
#[derive(Clone, Debug)]
pub struct FuncType {
    pub params: Vec<ValKind>,
    pub results: Vec<ValKind>,
}

/// The body of a locally defined function: its extra locals (parameters are
/// locals `0..params.len()` and are not repeated here) and its instruction
/// sequences. The entry sequence is `seqs[0]`.
#[derive(Clone, Debug)]
pub struct FuncBody {
    pub locals: Vec<ValKind>,
    pub seqs: Vec<Vec<Instr>>,
}

/// Whether a function is imported or defined in the module.
#[derive(Clone, Debug)]
pub enum FuncKind {
    Imported { import: usize },
    Local { body: FuncBody },
}

/// A function of the module: its type (an index into `WasmModule::types`),
/// an optional name (from the name custom section), and its kind.
#[derive(Clone, Debug)]
pub struct Function {
    pub ty: usize,
    pub name: Option<Vec<u8>>,
    pub kind: FuncKind,
}

/// What an import binds: a function, table, memory or global, by index.
#[derive(Clone, Copy, Debug, PartialEq, Eq, Structural)]
pub enum ImportKind {
    Func { func: usize },
    Table { table: usize },
    Memory { memory: usize },
    Global { global: usize },
}

/// An import: a (module name, external name) pair bound to an item.
#[derive(Clone, Debug)]
pub struct Import {
    pub module: Vec<u8>,
    pub name: Vec<u8>,
    pub kind: ImportKind,
}

/// What an export names: a function, table, memory or global, by index.
#[derive(Clone, Copy, Debug, PartialEq, Eq, Structural)]
pub enum ExportItem {
    Func { func: usize },
    Table { table: usize },
    Memory { memory: usize },
    Global { global: usize },
}

/// An export: a name bound to an item.
#[derive(Clone, Debug)]
pub struct Export {
    pub name: Vec<u8>,
    pub item: ExportItem,
}

/// A global's initializer. The transform only ever adds a 32-bit zero
/// initializer; initializers of pre-existing globals are carried opaquely.
#[derive(Clone, Copy, Debug, PartialEq, Eq, Structural)]
pub enum GlobalInit {
    I32Value { value: u32 },
    OtherInit,
}

/// A global variable: its value kind, mutability, and initializer.
#[derive(Clone, Copy, Debug, PartialEq, Eq, Structural)]
pub struct GlobalVar {
    pub kind: ValKind,
    pub mutable: bool,
    pub init: GlobalInit,
}

/// A linear memory declaration, in 64 KiB pages.
#[derive(Clone, Copy, Debug)]
pub struct MemoryDecl {
    pub min_pages: u64,
    pub max_pages: Option<u64>,
}

/// A table declaration.
#[derive(Clone, Copy, Debug)]
pub struct TableDecl {
    pub min: u64,
    pub max: Option<u64>,
}

/// An element segment: an ordered list of slots, each optionally holding a
/// function, used to populate a function table for indirect calls.
#[derive(Clone, Debug)]
pub struct ElementSegment {
    pub members: Vec<Option<usize>>,
}

/// The model of a Wasm module the transform operates on. Functions,
/// imports, exports, globals, memories, tables, element segments and data
/// segments are indexed by position; an index is a function (etc.)
/// identity. Imports are held in an arena-like vector where deleting an
/// import leaves a `None` slot, so the indices of the remaining imports
/// are stable.
#[derive(Clone, Debug)]
pub struct WasmModule {
    pub types: Vec<FuncType>,
    pub funcs: Vec<Function>,
    pub imports: Vec<Option<Import>>,
    pub exports: Vec<Export>,
    pub globals: Vec<GlobalVar>,
    pub memories: Vec<MemoryDecl>,
    pub tables: Vec<TableDecl>,
    pub elements: Vec<ElementSegment>,
    pub data: Vec<Vec<u8>>,
}

/// Whether instruction sequence `s` contains a direct call to `callee`.
pub open spec fn seq_has_call(s: Seq<Instr>, callee: usize) -> bool {
    exists|j: int| 0 <= j < s.len() && s[j] == (Instr::Call { func: callee })
}

/// Whether the body `b` contains a direct call to `callee` anywhere.
pub open spec fn body_calls(b: FuncBody, callee: usize) -> bool {
    exists|s: int| 0 <= s < b.seqs@.len() && seq_has_call(b.seqs@[s]@, callee)
}

/// Whether function `caller` of `m` is locally defined and its body
/// contains a direct call to `callee`.
pub open spec fn func_calls(m: WasmModule, caller: int, callee: usize) -> bool {
    &&& 0 <= caller < m.funcs@.len()
    &&& match m.funcs@[caller].kind {
        FuncKind::Local { body } => body_calls(body, callee),
        FuncKind::Imported { .. } => false,
    }
}

/// Whether every function reference of instruction `i` is below `n`.
pub open spec fn instr_refs_lt(i: Instr, n: int) -> bool {
    match i {
        Instr::Call { func } => func < n,
        _ => true,
    }
}

/// Whether every call in body `b` targets a function index below `nfuncs`.
pub open spec fn body_wf(b: FuncBody, nfuncs: int) -> bool {
    forall|s: int, j: int|
        0 <= s < b.seqs@.len() && 0 <= j < b.seqs@[s]@.len() ==> instr_refs_lt(
            #[trigger] b.seqs@[s]@[j],
            nfuncs,
        )
}

/// Whether every function reference of function `f` is below `nfuncs`.
pub open spec fn func_wf(f: Function, nfuncs: int) -> bool {
    match f.kind {
        FuncKind::Local { body } => body_wf(body, nfuncs),
        FuncKind::Imported { .. } => true,
    }
}

/// The function a live import entry binds, if any.
pub open spec fn import_bound_func(entry: Option<Import>) -> Option<usize> {
    match entry {
        Some(im) => match im.kind {
            ImportKind::Func { func } => Some(func),
            _ => None,
        },
        None => None,
    }
}

/// Module well-formedness, as far as the transform needs it: every function
/// reference held by a call instruction, an element-segment slot, an export
/// or an import lies within the function index space, and no two import
/// entries bind the same function.
pub open spec fn module_wf(m: WasmModule) -> bool {
    &&& forall|i: int|
        0 <= i < m.funcs@.len() ==> func_wf(#[trigger] m.funcs@[i], m.funcs@.len() as int)
    &&& forall|e: int, j: int|
        0 <= e < m.elements@.len() && 0 <= j < m.elements@[e].members@.len() ==> match #[trigger] m.elements@[e].members@[j] {
            Some(f) => f < m.funcs@.len(),
            None => true,
        }
    &&& forall|x: int|
        0 <= x < m.exports@.len() ==> match (#[trigger] m.exports@[x]).item {
            ExportItem::Func { func } => func < m.funcs@.len(),
            _ => true,
        }
    &&& forall|i: int|
        0 <= i < m.imports@.len() ==> match import_bound_func(#[trigger] m.imports@[i]) {
            Some(f) => f < m.funcs@.len(),
            None => true,
        }
    &&& forall|i: int, j: int|
        0 <= i < m.imports@.len() && 0 <= j < m.imports@.len() && i != j ==> match (
            import_bound_func(#[trigger] m.imports@[i]),
            import_bound_func(#[trigger] m.imports@[j]),
        ) {
            (Some(f1), Some(f2)) => f1 != f2,
            _ => true,
        }
}

/// The image of function index `f` under the substitution `map`, read as a
/// list of (from, to) pairs; an index that is no key maps to itself.
pub open spec fn map_subst(map: Seq<(usize, usize)>, f: usize) -> usize
    decreases map.len(),
{
    if map.len() == 0 {
        f
    } else if map[0].0 == f {
        map[0].1
    } else {
        map_subst(map.drop_first(), f)
    }
}

/// `i` with a substituted call target if `i` is a call, otherwise `i`.
pub open spec fn instr_subst(i: Instr, map: Seq<(usize, usize)>) -> Instr {
    match i {
        Instr::Call { func } => Instr::Call { func: map_subst(map, func) },
        _ => i,
    }
}

/// Whether body `b2` equals body `b1` with the call substitution `map`
/// applied to every instruction.
pub open spec fn body_subst(b1: FuncBody, b2: FuncBody, map: Seq<(usize, usize)>) -> bool {
    &&& b2.locals@ == b1.locals@
    &&& b2.seqs@.len() == b1.seqs@.len()
    &&& forall|s: int|
        0 <= s < b1.seqs@.len() ==> (#[trigger] b2.seqs@[s])@.len() == b1.seqs@[s]@.len()
    &&& forall|s: int, j: int|
        0 <= s < b1.seqs@.len() && 0 <= j < b1.seqs@[s]@.len() ==> (#[trigger] b2.seqs@[s]@[j])
            == instr_subst(b1.seqs@[s]@[j], map)
}

/// Whether function `f2` equals function `f1` with the call substitution
/// `map` applied to its body (if it has one).
pub open spec fn function_subst(f1: Function, f2: Function, map: Seq<(usize, usize)>) -> bool {
    &&& f2.ty == f1.ty
    &&& f2.name == f1.name
    &&& match (f1.kind, f2.kind) {
        (FuncKind::Imported { import: i1 }, FuncKind::Imported { import: i2 }) => i1 == i2,
        (FuncKind::Local { body: b1 }, FuncKind::Local { body: b2 }) => body_subst(b1, b2, map),
        _ => false,
    }
}

/// Whether export `x2` equals export `x1` with the substitution applied to
/// a function item; non-function items are unchanged.
pub open spec fn export_subst(x1: Export, x2: Export, map: Seq<(usize, usize)>) -> bool {
    &&& x2.name == x1.name
    &&& match x1.item {
        ExportItem::Func { func } => x2.item == (ExportItem::Func { func: map_subst(map, func) }),
        _ => x2.item == x1.item,
    }
}

/// Whether element segment `e2` equals `e1` with the substitution applied
/// to every occupied slot.
pub open spec fn element_subst(e1: ElementSegment, e2: ElementSegment, map: Seq<(usize, usize)>) -> bool {
    &&& e2.members@.len() == e1.members@.len()
    &&& forall|j: int|
        0 <= j < e1.members@.len() ==> (#[trigger] e2.members@[j]) == match e1.members@[j] {
            Some(f) => Some(map_subst(map, f)),
            None => None,
        }
}

/// Whether module `m2` is module `m1` with the call substitution `map`
/// applied to every call instruction, element slot and function export,
/// and everything else identical.
pub open spec fn module_subst(m1: WasmModule, m2: WasmModule, map: Seq<(usize, usize)>) -> bool {
    &&& m2.types == m1.types
    &&& m2.imports == m1.imports
    &&& m2.globals == m1.globals
    &&& m2.memories == m1.memories
    &&& m2.tables == m1.tables
    &&& m2.data == m1.data
    &&& m2.funcs@.len() == m1.funcs@.len()
    &&& forall|i: int|
        0 <= i < m1.funcs@.len() ==> function_subst(m1.funcs@[i], #[trigger] m2.funcs@[i], map)
    &&& m2.exports@.len() == m1.exports@.len()
    &&& forall|x: int|
        0 <= x < m1.exports@.len() ==> export_subst(m1.exports@[x], #[trigger] m2.exports@[x], map)
    &&& m2.elements@.len() == m1.elements@.len()
    &&& forall|e: int|
        0 <= e < m1.elements@.len() ==> element_subst(m1.elements@[e], #[trigger] m2.elements@[e], map)
}

} // verus!
