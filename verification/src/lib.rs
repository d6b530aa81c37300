//! Rewrites a WASI preview-1 Wasm module so that a fixed list of preset
//! arguments is transparently prepended to whatever command-line arguments
//! the host supplies. Every existing reference to the module's
//! `args_sizes_get` and `args_get` imports (direct calls, function-table
//! element slots, exports) is redirected to two freshly synthesized shim
//! functions that emulate the imports while splicing the presets in; the
//! preset bytes are encoded purely as store-instruction immediates, so the
//! module's data segments and memory layout are untouched.

use vstd::prelude::*;

pub mod call_graph;
pub mod encoding;
pub mod module;
pub mod semantics;
pub mod shims;

use crate::call_graph::{graph_has, is_module_use, replace_func_use, CallGraph, FunctionUse};
use crate::module::{
    body_calls, body_wf, element_subst, export_subst, func_calls, function_subst, instr_subst,
    map_subst, module_subst, module_wf, ExportItem, FuncBody, FuncKind, Function, GlobalInit,
    GlobalVar, Import, ImportKind, Instr, ValKind, WasmModule,
};
use crate::shims::{
    build_shim_a_body, build_shim_b_body, preset_size_upto, shim_a_seqs, shim_b_seqs,
};

verus! {

/// Why the transform refuses a module. The failure is all-or-nothing: on an
/// error the module is left exactly as it was.
#[derive(Clone, Copy, Debug, PartialEq, Eq, Structural)]
pub enum TransformError {
    /// A required WASI import (`args_sizes_get` or `args_get`) is absent.
    MissingImport,
    /// The required import exists but is bound to a non-function.
    WrongImportKind,
    /// The module declares no linear memory.
    NoMemory,
    /// An element slot or export that was recorded as holding a function
    /// stopped doing so mid-rewrite. A well-formed module never reaches it.
    InvariantViolation,
}

/// The name of the WASI preview-1 import module, `wasi_snapshot_preview1`.
pub open spec fn wasi_snapshot_name() -> Seq<u8> {
    seq![
        119, 97, 115, 105, 95, 115, 110, 97, 112, 115, 104, 111, 116, 95, 112,
        114, 101, 118, 105, 101, 119, 49,
    ]
}

/// The import name `args_sizes_get`.
pub open spec fn args_sizes_name() -> Seq<u8> {
    seq![97, 114, 103, 115, 95, 115, 105, 122, 101, 115, 95, 103, 101, 116]
}

/// The import name `args_get`.
pub open spec fn args_get_name() -> Seq<u8> {
    seq![97, 114, 103, 115, 95, 103, 101, 116]
}

/// The module name the temporary dummy imports are filed under,
/// `wasi_preset_args`.
pub open spec fn preset_module_name() -> Seq<u8> {
    seq![
        119, 97, 115, 105, 95, 112, 114, 101, 115, 101, 116, 95, 97, 114, 103,
        115,
    ]
}

/// The name given to shim A, `wasi_preset_args.args_sizes_get`.
pub open spec fn shim_a_name() -> Seq<u8> {
    preset_module_name() + seq![46] + args_sizes_name()
}

/// The name given to shim B, `wasi_preset_args.args_get`.
pub open spec fn shim_b_name() -> Seq<u8> {
    preset_module_name() + seq![46] + args_get_name()
}

fn wasi_snapshot_name_bytes() -> (r: Vec<u8>)
    ensures
        r@ == wasi_snapshot_name(),
{
    let mut v: Vec<u8> = Vec::new();
    v.push(119);
    v.push(97);
    v.push(115);
    v.push(105);
    v.push(95);
    v.push(115);
    v.push(110);
    v.push(97);
    v.push(112);
    v.push(115);
    v.push(104);
    v.push(111);
    v.push(116);
    v.push(95);
    v.push(112);
    v.push(114);
    v.push(101);
    v.push(118);
    v.push(105);
    v.push(101);
    v.push(119);
    v.push(49);
    proof {
        assert(v@ =~= wasi_snapshot_name());
    }
    v
}

fn args_sizes_name_bytes() -> (r: Vec<u8>)
    ensures
        r@ == args_sizes_name(),
{
    let mut v: Vec<u8> = Vec::new();
    v.push(97);
    v.push(114);
    v.push(103);
    v.push(115);
    v.push(95);
    v.push(115);
    v.push(105);
    v.push(122);
    v.push(101);
    v.push(115);
    v.push(95);
    v.push(103);
    v.push(101);
    v.push(116);
    proof {
        assert(v@ =~= args_sizes_name());
    }
    v
}

fn args_get_name_bytes() -> (r: Vec<u8>)
    ensures
        r@ == args_get_name(),
{
    let mut v: Vec<u8> = Vec::new();
    v.push(97);
    v.push(114);
    v.push(103);
    v.push(115);
    v.push(95);
    v.push(103);
    v.push(101);
    v.push(116);
    proof {
        assert(v@ =~= args_get_name());
    }
    v
}

fn preset_module_name_bytes() -> (r: Vec<u8>)
    ensures
        r@ == preset_module_name(),
{
    let mut v: Vec<u8> = Vec::new();
    v.push(119);
    v.push(97);
    v.push(115);
    v.push(105);
    v.push(95);
    v.push(112);
    v.push(114);
    v.push(101);
    v.push(115);
    v.push(101);
    v.push(116);
    v.push(95);
    v.push(97);
    v.push(114);
    v.push(103);
    v.push(115);
    proof {
        assert(v@ =~= preset_module_name());
    }
    v
}

/// `a`, a dot, then `b`: the qualified name given to a shim.
#[verifier::loop_isolation(false)]
fn dotted_name(a: Vec<u8>, b: &Vec<u8>) -> (r: Vec<u8>)
    ensures
        r@ == a@ + seq![46] + b@,
{
    let mut v = a;
    v.push(46);
    let mut i: usize = 0;
    while i < b.len()
        invariant
            i <= b@.len(),
            v@ == a@ + seq![46] + b@.subrange(0, i as int),
        decreases b@.len() - i,
    {
        v.push(b[i]);
        proof {
            assert(v@ =~= a@ + seq![46] + b@.subrange(0, i + 1));
        }
        i += 1;
    }
    proof {
        assert(b@.subrange(0, b@.len() as int) =~= b@);
    }
    v
}

/// Byte-string equality.
#[verifier::loop_isolation(false)]
fn bytes_eq(a: &Vec<u8>, b: &Vec<u8>) -> (r: bool)
    ensures
        r == (a@ == b@),
{
    if a.len() != b.len() {
        return false;
    }
    let mut i: usize = 0;
    while i < a.len()
        invariant
            i <= a@.len(),
            a@.len() == b@.len(),
            forall|t: int| 0 <= t < i ==> a@[t] == b@[t],
        decreases a@.len() - i,
    {
        if a[i] != b[i] {
            return false;
        }
        i += 1;
    }
    proof {
        assert(a@ =~= b@);
    }
    true
}

/// Whether import entry `i` of `m` is live and binds `module_name`.`name`.
pub open spec fn import_matches(m: WasmModule, i: int, module_name: Seq<u8>, name: Seq<u8>) -> bool {
    &&& 0 <= i < m.imports@.len()
    &&& match m.imports@[i] {
        Some(im) => im.module@ == module_name && im.name@ == name,
        None => false,
    }
}

/// Whether `m` has a live import bound as `module_name`.`name`.
pub open spec fn has_import(m: WasmModule, module_name: Seq<u8>, name: Seq<u8>) -> bool {
    exists|i: int| import_matches(m, i, module_name, name)
}

/// Whether the first import bound as `module_name`.`name` is function `f`.
pub open spec fn resolves_to_func(
    m: WasmModule,
    module_name: Seq<u8>,
    name: Seq<u8>,
    f: usize,
) -> bool {
    exists|i: int|
        {
            &&& #[trigger] import_matches(m, i, module_name, name)
            &&& forall|j: int| 0 <= j < i ==> !import_matches(m, j, module_name, name)
            &&& match m.imports@[i] {
                Some(im) => im.kind == (ImportKind::Func { func: f }),
                None => false,
            }
        }
}

/// Whether the first import bound as `module_name`.`name` is no function.
pub open spec fn first_match_nonfunc(m: WasmModule, module_name: Seq<u8>, name: Seq<u8>) -> bool {
    exists|i: int|
        {
            &&& #[trigger] import_matches(m, i, module_name, name)
            &&& forall|j: int| 0 <= j < i ==> !import_matches(m, j, module_name, name)
            &&& match m.imports@[i] {
                Some(im) => !(im.kind is Func),
                None => false,
            }
        }
}

/// Find the function imported as `module_name`.`name`: the first matching
/// import entry. `MissingImport` when none matches; `WrongImportKind` when
/// the first match binds a non-function.
#[verifier::loop_isolation(false)]
fn get_import_function(m: &WasmModule, module_name: &Vec<u8>, name: &Vec<u8>) -> (r: Result<
    usize,
    TransformError,
>)
    ensures
        match r {
            Ok(f) => resolves_to_func(*m, module_name@, name@, f),
            Err(TransformError::MissingImport) => !has_import(*m, module_name@, name@),
            Err(TransformError::WrongImportKind) => first_match_nonfunc(*m, module_name@, name@),
            Err(_) => false,
        },
{
    let mut i: usize = 0;
    while i < m.imports.len()
        invariant
            i <= m.imports@.len(),
            forall|j: int| 0 <= j < i ==> !import_matches(*m, j, module_name@, name@),
        decreases m.imports@.len() - i,
    {
        match &m.imports[i] {
            Some(im) => {
                if bytes_eq(&im.module, module_name) && bytes_eq(&im.name, name) {
                    assert(import_matches(*m, i as int, module_name@, name@));
                    match im.kind {
                        ImportKind::Func { func } => {
                            return Ok(func);
                        },
                        _ => {
                            return Err(TransformError::WrongImportKind);
                        },
                    }
                }
            },
            None => {},
        }
        i += 1;
    }
    assert(!has_import(*m, module_name@, name@));
    Err(TransformError::MissingImport)
}

/// The configuration of the transform: the program name used as `argv[0]`
/// when the host supplies no arguments at all, the preset arguments spliced
/// in before the host's own, and the import-module name the WASI argument
/// imports are looked up under.
pub struct PresetArgs {
    pub program_name: Vec<u8>,
    pub args: Vec<Vec<u8>>,
    pub wasi_module_name: Vec<u8>,
}

impl PresetArgs {
    /// Total byte length of the preset arguments, each NUL-terminated.
    pub open spec fn preset_args_size_spec(&self) -> int {
        preset_size_upto(self.args@, self.args@.len() as int)
    }

    /// Byte length of the flat argument buffer the shims account for: the
    /// NUL-terminated program name plus all NUL-terminated presets.
    pub open spec fn argv_buf_size_spec(&self) -> int {
        self.program_name@.len() + 1 + self.preset_args_size_spec()
    }

    /// The machine limits the transform needs: every size the shims encode
    /// as a 32-bit immediate must fit one, pointer arithmetic included.
    pub open spec fn wf(&self) -> bool {
        &&& self.argv_buf_size_spec() <= u32::MAX
        &&& 4 * (self.args@.len() + 1) <= u32::MAX
        &&& self.wasi_module_name@ == wasi_snapshot_name()
    }

    /// A configuration that injects `args` and uses `program_name` for
    /// `argv[0]`, looking the imports up under `wasi_snapshot_preview1`.
    pub fn new(program_name: Vec<u8>, args: Vec<Vec<u8>>) -> (r: PresetArgs)
        ensures
            r.program_name@ == program_name@,
            r.args@ == args@,
            r.wasi_module_name@ == wasi_snapshot_name(),
    {
        PresetArgs { program_name, args, wasi_module_name: wasi_snapshot_name_bytes() }
    }

    /// Total byte length of the preset arguments, each NUL-terminated.
    #[verifier::loop_isolation(false)]
    pub(crate) fn preset_args_size(&self) -> (r: usize)
        requires
            self.preset_args_size_spec() <= u32::MAX,
        ensures
            r as int == self.preset_args_size_spec(),
    {
        let mut total: usize = 0;
        let mut i: usize = 0;
        while i < self.args.len()
            invariant
                i <= self.args@.len(),
                total as int == preset_size_upto(self.args@, i as int),
            decreases self.args@.len() - i,
        {
            proof {
                crate::shims::lemma_preset_size_upto_increases(
                    self.args@,
                    i + 1,
                    self.args@.len() as int,
                );
            }
            total = total + self.args[i].len() + 1;
            i += 1;
        }
        total
    }

    /// Byte length of the flat argument buffer the shims account for.
    pub(crate) fn argv_buf_size(&self) -> (r: usize)
        requires
            self.wf(),
        ensures
            r as int == self.argv_buf_size_spec(),
    {
        proof {
            crate::shims::lemma_preset_size_upto_nonneg(self.args@, self.args@.len() as int);
        }
        self.program_name.len() + 1 + self.preset_args_size()
    }

    /// Byte width of a linear-memory pointer in the shims' address sums.
    fn pointer_size(&self) -> (r: usize)
        ensures
            r == 4,
    {
        4
    }

    /// The argv buffer size as the 32-bit immediate the shims carry.
    fn argv_buf_size_value(&self) -> (r: u32)
        requires
            self.wf(),
        ensures
            r as int == self.argv_buf_size_spec(),
    {
        self.argv_buf_size() as u32
    }
}


/// The shape of shim A as installed: the right type, the qualified name,
/// two extra i32 locals, and exactly the synthesized instruction sequences.
pub open spec fn is_shim_a(p: PresetArgs, f: Function, ty: usize, original: usize, gidx: usize) -> bool {
    &&& f.ty == ty
    &&& match f.name {
        Some(nm) => nm@ == shim_a_name(),
        None => false,
    }
    &&& match f.kind {
        FuncKind::Local { body } => {
            &&& body.locals@ == seq![ValKind::I32, ValKind::I32]
            &&& body.seqs@.len() == 5
            &&& forall|s: int|
                0 <= s < 5 ==> (#[trigger] body.seqs@[s])@ == shim_a_seqs(
                    original,
                    gidx,
                    p.args@.len() as u32,
                    (1 + p.args@.len()) as u32,
                    p.argv_buf_size_spec() as u32,
                )[s]
        },
        FuncKind::Imported { .. } => false,
    }
}

/// The shape of shim B as installed.
pub open spec fn is_shim_b(p: PresetArgs, f: Function, ty: usize, original: usize, gidx: usize) -> bool {
    &&& f.ty == ty
    &&& match f.name {
        Some(nm) => nm@ == shim_b_name(),
        None => false,
    }
    &&& match f.kind {
        FuncKind::Local { body } => {
            &&& body.locals@ == seq![ValKind::I32, ValKind::I32]
            &&& body.seqs@.len() == 5
            &&& forall|s: int|
                0 <= s < 5 ==> (#[trigger] body.seqs@[s])@ == shim_b_seqs(
                    original,
                    gidx,
                    p.program_name@,
                    p.args@,
                    p.preset_args_size_spec() as u32,
                    (4 * p.args@.len()) as u32,
                    p.argv_buf_size_spec() as u32,
                )[s]
        },
        FuncKind::Imported { .. } => false,
    }
}

/// What a successful transform did to the module, with the two original
/// import functions named: everything of the input survives; one global and
/// four function slots (the two emptied dummies and the two shims) are
/// added; and every call target, element slot and function export is mapped
/// through {original args_sizes_get -> shim A, original args_get -> shim B}.
pub open spec fn transform_post_with(
    p: PresetArgs,
    m0: WasmModule,
    m1: WasmModule,
    fa: usize,
    fg: usize,
) -> bool {
    let n0 = m0.funcs@.len() as int;
    let ni = m0.imports@.len() as int;
    let sa = (n0 + 2) as usize;
    let sb = (n0 + 3) as usize;
    let comp = seq![(fa, sa), (fg, sb)];
    let gidx = m0.globals@.len() as usize;
    &&& m1.types == m0.types
    &&& m1.memories == m0.memories
    &&& m1.tables == m0.tables
    &&& m1.data == m0.data
    &&& m1.globals@ == m0.globals@.push(
        GlobalVar { kind: ValKind::I32, mutable: true, init: GlobalInit::I32Value { value: 0 } },
    )
    &&& m1.imports@.len() == ni + 2
    &&& forall|i: int| 0 <= i < ni ==> m1.imports@[i] == m0.imports@[i]
    &&& m1.imports@[ni] is None
    &&& m1.imports@[ni + 1] is None
    &&& m1.funcs@.len() == n0 + 4
    &&& forall|i: int| 0 <= i < n0 ==> function_subst(m0.funcs@[i], #[trigger] m1.funcs@[i], comp)
    &&& m1.funcs@[n0].ty == m0.funcs@[fa as int].ty
    &&& match m1.funcs@[n0].kind {
        FuncKind::Imported { import } => import == ni,
        FuncKind::Local { .. } => false,
    }
    &&& m1.funcs@[n0 + 1].ty == m0.funcs@[fg as int].ty
    &&& match m1.funcs@[n0 + 1].kind {
        FuncKind::Imported { import } => import == ni + 1,
        FuncKind::Local { .. } => false,
    }
    &&& is_shim_a(p, m1.funcs@[n0 + 2], m0.funcs@[fa as int].ty, fa, gidx)
    &&& is_shim_b(p, m1.funcs@[n0 + 3], m0.funcs@[fg as int].ty, fg, gidx)
    &&& m1.exports@.len() == m0.exports@.len()
    &&& forall|x: int|
        0 <= x < m0.exports@.len() ==> export_subst(m0.exports@[x], #[trigger] m1.exports@[x], comp)
    &&& m1.elements@.len() == m0.elements@.len()
    &&& forall|e: int|
        0 <= e < m0.elements@.len() ==> element_subst(
            m0.elements@[e],
            #[trigger] m1.elements@[e],
            comp,
        )
}

/// What a successful transform did to the module: as `transform_post_with`,
/// for the two functions the WASI argument imports resolve to.
pub open spec fn transform_post(p: PresetArgs, m0: WasmModule, m1: WasmModule) -> bool {
    exists|fa: usize, fg: usize|
        {
            &&& resolves_to_func(m0, wasi_snapshot_name(), args_sizes_name(), fa)
            &&& resolves_to_func(m0, wasi_snapshot_name(), args_get_name(), fg)
            &&& #[trigger] transform_post_with(p, m0, m1, fa, fg)
        }
}

/// Evaluation of a two-pair substitution.
proof fn lemma_map2(a: usize, b: usize, c: usize, d: usize, f: usize)
    requires
        a != c,
    ensures
        map_subst(seq![(a, b), (c, d)], f) == (if f == a {
            b
        } else if f == c {
            d
        } else {
            f
        }),
{
    let m = seq![(a, b), (c, d)];
    assert(m.len() == 2);
    assert(m[0] == (a, b));
    assert(m.drop_first() =~= seq![(c, d)]);
    assert(seq![(c, d)][0] == (c, d));
    assert(seq![(c, d)].drop_first() =~= Seq::<(usize, usize)>::empty());
    assert(map_subst(Seq::<(usize, usize)>::empty(), f) == f);
    assert(map_subst(seq![(c, d)], f) == (if f == c {
        d
    } else {
        f
    }));
    assert(map_subst(m, f) == (if f == a {
        b
    } else {
        map_subst(seq![(c, d)], f)
    }));
}

/// Through a call substitution, the rewritten body calls `target` exactly
/// when the old body calls some function that the map sends to `target`.
proof fn lemma_subst_body_calls(
    b0: FuncBody,
    b1: FuncBody,
    map: Seq<(usize, usize)>,
    target: usize,
    bound: int,
)
    requires
        crate::module::body_subst(b0, b1, map),
        body_wf(b0, bound),
    ensures
        body_calls(b1, target) == exists|g: usize|
            (g as int) < bound && #[trigger] map_subst(map, g) == target && body_calls(b0, g),
{
    if body_calls(b1, target) {
        let s = choose|s: int|
            0 <= s < b1.seqs@.len() && crate::module::seq_has_call(b1.seqs@[s]@, target);
        let j = choose|j: int|
            0 <= j < b1.seqs@[s]@.len() && b1.seqs@[s]@[j] == (Instr::Call { func: target });
        assert(b1.seqs@[s]@[j] == instr_subst(b0.seqs@[s]@[j], map));
        match b0.seqs@[s]@[j] {
            Instr::Call { func: g } => {
                assert(crate::module::instr_refs_lt(b0.seqs@[s]@[j], bound));
                assert(crate::module::seq_has_call(b0.seqs@[s]@, g));
                assert(body_calls(b0, g));
                assert((g as int) < bound && map_subst(map, g) == target && body_calls(b0, g));
            },
            _ => {
                assert(false);
            },
        }
    }
    if exists|g: usize|
        (g as int) < bound && #[trigger] map_subst(map, g) == target && body_calls(b0, g) {
        let g = choose|g: usize|
            (g as int) < bound && #[trigger] map_subst(map, g) == target && body_calls(b0, g);
        let s = choose|s: int|
            0 <= s < b0.seqs@.len() && crate::module::seq_has_call(b0.seqs@[s]@, g);
        let j = choose|j: int|
            0 <= j < b0.seqs@[s]@.len() && b0.seqs@[s]@[j] == (Instr::Call { func: g });
        assert(b1.seqs@[s]@[j] == (Instr::Call { func: target }));
        assert(crate::module::seq_has_call(b1.seqs@[s]@, target));
        assert(body_calls(b1, target));
    }
}

/// A function index at or beyond every reference bound has no use.
proof fn lemma_no_use_of(m: WasmModule, bound: int, f: usize, u: FunctionUse)
    requires
        forall|i: int| 0 <= i < m.funcs@.len() ==> crate::module::func_wf(#[trigger] m.funcs@[i], bound),
        forall|e: int, j: int|
            0 <= e < m.elements@.len() && 0 <= j < m.elements@[e].members@.len()
                ==> match #[trigger] m.elements@[e].members@[j] {
                Some(g) => (g as int) < bound,
                None => true,
            },
        forall|x: int|
            0 <= x < m.exports@.len() ==> match (#[trigger] m.exports@[x]).item {
                ExportItem::Func { func } => (func as int) < bound,
                _ => true,
            },
        (f as int) >= bound,
    ensures
        !is_module_use(m, f, u),
{
    match u {
        FunctionUse::Call { caller } => {
            if func_calls(m, caller as int, f) {
                match m.funcs@[caller as int].kind {
                    FuncKind::Local { body } => {
                        let s = choose|s: int|
                            0 <= s < body.seqs@.len() && crate::module::seq_has_call(
                                body.seqs@[s]@,
                                f,
                            );
                        let j = choose|j: int|
                            0 <= j < body.seqs@[s]@.len() && body.seqs@[s]@[j] == (Instr::Call {
                                func: f,
                            });
                        assert(crate::module::instr_refs_lt(body.seqs@[s]@[j], bound));
                        assert(false);
                    },
                    FuncKind::Imported { .. } => {},
                }
            }
        },
        FunctionUse::InElement { element, index } => {},
        FunctionUse::Export { export } => {},
    }
}

/// After a whole-module substitution whose only preimage of `key` below the
/// reference bound is `orig`, the uses of `key` are the old uses of `orig`.
proof fn lemma_subst_use_transport(
    ma: WasmModule,
    mb: WasmModule,
    map: Seq<(usize, usize)>,
    bound: int,
    key: usize,
    orig: usize,
    u: FunctionUse,
)
    requires
        module_subst(ma, mb, map),
        forall|i: int| 0 <= i < ma.funcs@.len() ==> crate::module::func_wf(#[trigger] ma.funcs@[i], bound),
        forall|e: int, j: int|
            0 <= e < ma.elements@.len() && 0 <= j < ma.elements@[e].members@.len()
                ==> match #[trigger] ma.elements@[e].members@[j] {
                Some(g) => (g as int) < bound,
                None => true,
            },
        forall|x: int|
            0 <= x < ma.exports@.len() ==> match (#[trigger] ma.exports@[x]).item {
                ExportItem::Func { func } => (func as int) < bound,
                _ => true,
            },
        forall|g: usize|
            (g as int) < bound ==> ((#[trigger] map_subst(map, g)) == key <==> g == orig),
        (orig as int) < bound,
    ensures
        is_module_use(mb, key, u) == is_module_use(ma, orig, u),
{
    match u {
        FunctionUse::Call { caller } => {
            let c = caller as int;
            if 0 <= c < ma.funcs@.len() {
                assert(function_subst(ma.funcs@[c], mb.funcs@[c], map));
                match (ma.funcs@[c].kind, mb.funcs@[c].kind) {
                    (FuncKind::Local { body: b0 }, FuncKind::Local { body: b1 }) => {
                        lemma_subst_body_calls(b0, b1, map, key, bound);
                        if body_calls(b0, orig) {
                            assert((orig as int) < bound && map_subst(map, orig) == key
                                && body_calls(b0, orig));
                        }
                    },
                    _ => {},
                }
            }
        },
        FunctionUse::InElement { element, index } => {
            let e = element as int;
            let j = index as int;
            if 0 <= e < ma.elements@.len() && 0 <= j < ma.elements@[e].members@.len() {
                assert(element_subst(ma.elements@[e], mb.elements@[e], map));
                match ma.elements@[e].members@[j] {
                    Some(g) => {
                        assert(mb.elements@[e].members@[j] == Some(map_subst(map, g)));
                    },
                    None => {},
                }
            }
        },
        FunctionUse::Export { export } => {
            let x = export as int;
            if 0 <= x < ma.exports@.len() {
                assert(export_subst(ma.exports@[x], mb.exports@[x], map));
            }
        },
    }
}

/// Appending functions that never call `key` changes no use of `key`.
proof fn lemma_append_funcs_use(m1: WasmModule, m2: WasmModule, key: usize, u: FunctionUse)
    requires
        m2.funcs@.len() >= m1.funcs@.len(),
        forall|i: int| 0 <= i < m1.funcs@.len() ==> #[trigger] m2.funcs@[i] == m1.funcs@[i],
        forall|i: int|
            m1.funcs@.len() <= i < m2.funcs@.len() ==> match (#[trigger] m2.funcs@[i]).kind {
                FuncKind::Local { body } => !body_calls(body, key),
                FuncKind::Imported { .. } => true,
            },
        m2.elements == m1.elements,
        m2.exports == m1.exports,
    ensures
        is_module_use(m2, key, u) == is_module_use(m1, key, u),
{
}

/// Composition of two call substitutions, on a function whose targets lie
/// below `bound`.
proof fn lemma_function_subst_compose(
    f0: Function,
    f1: Function,
    f2: Function,
    map1: Seq<(usize, usize)>,
    map2: Seq<(usize, usize)>,
    comp: Seq<(usize, usize)>,
    bound: int,
)
    requires
        function_subst(f0, f1, map1),
        function_subst(f1, f2, map2),
        crate::module::func_wf(f0, bound),
        forall|g: usize|
            (g as int) < bound ==> map_subst(map2, #[trigger] map_subst(map1, g)) == map_subst(
                comp,
                g,
            ),
    ensures
        function_subst(f0, f2, comp),
{
    match (f0.kind, f1.kind, f2.kind) {
        (
            FuncKind::Local { body: b0 },
            FuncKind::Local { body: b1 },
            FuncKind::Local { body: b2 },
        ) => {
            assert forall|s: int, j: int|
                0 <= s < b0.seqs@.len() && 0 <= j < b0.seqs@[s]@.len() implies (
            #[trigger] b2.seqs@[s]@[j]) == instr_subst(b0.seqs@[s]@[j], comp) by {
                assert(b1.seqs@[s]@[j] == instr_subst(b0.seqs@[s]@[j], map1));
                assert(b2.seqs@[s]@[j] == instr_subst(b1.seqs@[s]@[j], map2));
                match b0.seqs@[s]@[j] {
                    Instr::Call { func: g } => {
                        assert(crate::module::instr_refs_lt(b0.seqs@[s]@[j], bound));
                    },
                    _ => {},
                }
            }
        },
        _ => {},
    }
}

/// The two WASI argument imports resolve to two distinct functions of the
/// module, both within the function index space.
proof fn lemma_resolved_distinct(m: WasmModule, fa: usize, fg: usize)
    requires
        module_wf(m),
        resolves_to_func(m, wasi_snapshot_name(), args_sizes_name(), fa),
        resolves_to_func(m, wasi_snapshot_name(), args_get_name(), fg),
    ensures
        fa != fg,
        (fa as int) < m.funcs@.len(),
        (fg as int) < m.funcs@.len(),
{
    let i1 = choose|i: int|
        {
            &&& #[trigger] import_matches(m, i, wasi_snapshot_name(), args_sizes_name())
            &&& forall|j: int|
                0 <= j < i ==> !import_matches(m, j, wasi_snapshot_name(), args_sizes_name())
            &&& match m.imports@[i] {
                Some(im) => im.kind == (ImportKind::Func { func: fa }),
                None => false,
            }
        };
    let i2 = choose|i: int|
        {
            &&& #[trigger] import_matches(m, i, wasi_snapshot_name(), args_get_name())
            &&& forall|j: int|
                0 <= j < i ==> !import_matches(m, j, wasi_snapshot_name(), args_get_name())
            &&& match m.imports@[i] {
                Some(im) => im.kind == (ImportKind::Func { func: fg }),
                None => false,
            }
        };
    assert(args_sizes_name().len() == 14);
    assert(args_get_name().len() == 8);
    assert(i1 != i2);
    assert(crate::module::import_bound_func(m.imports@[i1]) == Some(fa));
    assert(crate::module::import_bound_func(m.imports@[i2]) == Some(fg));
}

impl PresetArgs {
    /// Append shim A (the `args_sizes_get` replacement) to the module; it
    /// calls `original` and shares the host argc through the global
    /// `saved_original_argc`. The module's first linear memory, checked by
    /// `run` beforehand, is the one its loads and stores act on.
    fn add_args_sizes_get(
        &self,
        module: &mut WasmModule,
        saved_original_argc: usize,
        original: usize,
    ) -> (new_func: usize)
        requires
            self.wf(),
            original < old(module).funcs@.len(),
        ensures
            new_func as int == old(module).funcs@.len(),
            final(module).funcs@.len() == old(module).funcs@.len() + 1,
            forall|i: int|
                0 <= i < old(module).funcs@.len() ==> (#[trigger] final(module).funcs@[i]) == old(
                    module,
                ).funcs@[i],
            is_shim_a(
                *self,
                final(module).funcs@[old(module).funcs@.len() as int],
                old(module).funcs@[original as int].ty,
                original,
                saved_original_argc,
            ),
            final(module).types == old(module).types,
            final(module).imports == old(module).imports,
            final(module).exports == old(module).exports,
            final(module).globals == old(module).globals,
            final(module).memories == old(module).memories,
            final(module).tables == old(module).tables,
            final(module).elements == old(module).elements,
            final(module).data == old(module).data,
    {
        let n_args = self.args.len();
        let abs_value = self.argv_buf_size_value();
        let body = build_shim_a_body(
            original,
            saved_original_argc,
            n_args as u32,
            (1 + n_args) as u32,
            abs_value,
        );
        let ty = module.funcs[original].ty;
        let name = dotted_name(preset_module_name_bytes(), &args_sizes_name_bytes());
        let idx = module.funcs.len();
        module.funcs.push(Function { ty, name: Some(name), kind: FuncKind::Local { body } });
        idx
    }

    /// Append shim B (the `args_get` replacement) to the module; it calls
    /// `original` for the host's own arguments and writes the preset bytes
    /// and pointers itself.
    fn add_args_get(
        &self,
        module: &mut WasmModule,
        saved_original_argc: usize,
        original: usize,
    ) -> (new_func: usize)
        requires
            self.wf(),
            original < old(module).funcs@.len(),
        ensures
            new_func as int == old(module).funcs@.len(),
            final(module).funcs@.len() == old(module).funcs@.len() + 1,
            forall|i: int|
                0 <= i < old(module).funcs@.len() ==> (#[trigger] final(module).funcs@[i]) == old(
                    module,
                ).funcs@[i],
            is_shim_b(
                *self,
                final(module).funcs@[old(module).funcs@.len() as int],
                old(module).funcs@[original as int].ty,
                original,
                saved_original_argc,
            ),
            final(module).types == old(module).types,
            final(module).imports == old(module).imports,
            final(module).exports == old(module).exports,
            final(module).globals == old(module).globals,
            final(module).memories == old(module).memories,
            final(module).tables == old(module).tables,
            final(module).elements == old(module).elements,
            final(module).data == old(module).data,
    {
        let n_args = self.args.len();
        let abs_value = self.argv_buf_size_value();
        let preset_size = self.preset_args_size();
        proof {
            crate::shims::lemma_preset_size_upto_nonneg(self.args@, self.args@.len() as int);
        }
        let body = build_shim_b_body(
            original,
            saved_original_argc,
            &self.program_name,
            &self.args,
            preset_size as u32,
            (n_args * self.pointer_size()) as u32,
            abs_value,
        );
        let ty = module.funcs[original].ty;
        let name = dotted_name(preset_module_name_bytes(), &args_get_name_bytes());
        let idx = module.funcs.len();
        module.funcs.push(Function { ty, name: Some(name), kind: FuncKind::Local { body } });
        idx
    }
}


impl PresetArgs {
    /// Rewrite `module` so the preset arguments are spliced in: add the
    /// `saved_original_argc` global, redirect every existing reference to
    /// the WASI argument imports onto temporary dummy imports, synthesize
    /// the two shims (which call the originals directly), redirect the
    /// dummies onto the shims, and delete the dummy import entries. The
    /// dummies make explicit which references are old: the shims, created
    /// between the two rewrites, keep their calls to the originals.
    ///
    /// On an error nothing is mutated: a required import is missing or not
    /// a function, or the module has no linear memory.
    pub fn run(&self, module: &mut WasmModule) -> (r: Result<(), TransformError>)
        requires
            self.wf(),
            module_wf(*old(module)),
        ensures
            match r {
                Ok(_) => {
                    &&& transform_post(*self, *old(module), *final(module))
                    &&& old(module).memories@.len() > 0
                },
                Err(e) => {
                    &&& *final(module) == *old(module)
                    &&& match e {
                        TransformError::MissingImport => !has_import(
                            *old(module),
                            wasi_snapshot_name(),
                            args_sizes_name(),
                        ) || ((exists|f: usize|
                            resolves_to_func(
                                *old(module),
                                wasi_snapshot_name(),
                                args_sizes_name(),
                                f,
                            )) && !has_import(*old(module), wasi_snapshot_name(), args_get_name())),
                        TransformError::WrongImportKind => first_match_nonfunc(
                            *old(module),
                            wasi_snapshot_name(),
                            args_sizes_name(),
                        ) || ((exists|f: usize|
                            resolves_to_func(
                                *old(module),
                                wasi_snapshot_name(),
                                args_sizes_name(),
                                f,
                            )) && first_match_nonfunc(
                            *old(module),
                            wasi_snapshot_name(),
                            args_get_name(),
                        )),
                        TransformError::NoMemory => (exists|f: usize|
                            resolves_to_func(
                                *old(module),
                                wasi_snapshot_name(),
                                args_sizes_name(),
                                f,
                            )) && (exists|f: usize|
                            resolves_to_func(
                                *old(module),
                                wasi_snapshot_name(),
                                args_get_name(),
                                f,
                            )) && old(module).memories@.len() == 0,
                        TransformError::InvariantViolation => false,
                    }
                },
            },
    {
        let ghost m0: WasmModule = *module;

        // Validate everything before the first mutation, so a refused
        // module is handed back untouched.
        let fa = match get_import_function(module, &self.wasi_module_name, &args_sizes_name_bytes()) {
            Ok(f) => f,
            Err(e) => {
                return Err(e);
            },
        };
        let fg = match get_import_function(module, &self.wasi_module_name, &args_get_name_bytes()) {
            Ok(f) => f,
            Err(e) => {
                return Err(e);
            },
        };
        if module.memories.len() == 0 {
            return Err(TransformError::NoMemory);
        }
        proof {
            lemma_resolved_distinct(m0, fa, fg);
        }
        let n0 = module.funcs.len();

        // The shared global that carries the host argc from shim A to shim B.
        let saved_original_argc = module.globals.len();
        module.globals.push(
            GlobalVar { kind: ValKind::I32, mutable: true, init: GlobalInit::I32Value { value: 0 } },
        );

        // The two dummy imports, with the originals' signatures.
        let ia = module.imports.len();
        let da = module.funcs.len();
        let ty_a = module.funcs[fa].ty;
        module.imports.push(
            Some(
                Import {
                    module: preset_module_name_bytes(),
                    name: args_sizes_name_bytes(),
                    kind: ImportKind::Func { func: da },
                },
            ),
        );
        module.funcs.push(Function { ty: ty_a, name: None, kind: FuncKind::Imported { import: ia } });
        let ia2 = module.imports.len();
        let dg = module.funcs.len();
        let ty_g = module.funcs[fg].ty;
        module.imports.push(
            Some(
                Import {
                    module: preset_module_name_bytes(),
                    name: args_get_name_bytes(),
                    kind: ImportKind::Func { func: dg },
                },
            ),
        );
        module.funcs.push(Function { ty: ty_g, name: None, kind: FuncKind::Imported { import: ia2 } });

        let ghost m_d: WasmModule = *module;
        proof {
            assert(da == n0 && dg == n0 + 1 && ia2 == ia + 1);
            assert(m_d.funcs@.len() == n0 + 2);
            assert forall|i: int| 0 <= i < n0 + 2 implies crate::module::func_wf(
                #[trigger] m_d.funcs@[i],
                n0 as int,
            ) by {
                if i < n0 {
                    assert(m_d.funcs@[i] == m0.funcs@[i]);
                    assert(crate::module::func_wf(m0.funcs@[i], m0.funcs@.len() as int));
                }
            }
        }

        // Build the reverse index once; both rewrites keep it extended.
        let mut call_graph = CallGraph::build_from(module);
        let ghost g0: CallGraph = call_graph;

        // First rewrite: every existing reference of an original goes to
        // the matching dummy.
        let mut map1: Vec<(usize, usize)> = Vec::new();
        map1.push((fa, da));
        map1.push((fg, dg));
        proof {
            assert(map1@ =~= seq![(fa, da), (fg, dg)]);
        }
        replace_func_use(&map1, module, &mut call_graph);
        let ghost m_1: WasmModule = *module;
        let ghost g1: CallGraph = call_graph;

        // The shims, which call the originals directly.
        let new_args_sizes_get = self.add_args_sizes_get(module, saved_original_argc, fa);
        let new_args_get = self.add_args_get(module, saved_original_argc, fg);
        let sa = new_args_sizes_get;
        let sb = new_args_get;
        let ghost m_2: WasmModule = *module;

        // Second rewrite: the dummies' references (exactly the old ones) go
        // to the shims. The shims' own calls to the originals stay.
        let mut map2: Vec<(usize, usize)> = Vec::new();
        map2.push((da, sa));
        map2.push((dg, sb));
        proof {
            assert(map2@ =~= seq![(da, sa), (dg, sb)]);
            assert(sa == n0 + 2 && sb == n0 + 3);
            let ghost map1s: Seq<(usize, usize)> = seq![(fa, da), (fg, dg)];
            assert forall|g: usize| (g as int) < n0 implies ((#[trigger] map_subst(map1s, g)) == da
                <==> g == fa) && (map_subst(map1s, g) == dg <==> g == fg) by {
                lemma_map2(fa, da, fg, dg, g);
            }
            assert forall|kk: int, u: FunctionUse| 0 <= kk < map2@.len() implies (
            #[trigger] graph_has(g1, map2@[kk].0, u)) == is_module_use(m_2, map2@[kk].0, u) by {
                let key: usize = if kk == 0 {
                    da
                } else {
                    dg
                };
                let orig: usize = if kk == 0 {
                    fa
                } else {
                    fg
                };
                assert(map2@[kk].0 == key);
                lemma_no_use_of(m_d, n0 as int, key, u);
                // The first rewrite's index extension: the uses recorded
                // under the dummy are exactly those recorded under the
                // original, which were exactly the original's uses.
                assert(graph_has(g1, key, u) == (graph_has(g0, key, u) || exists|t: int|
                    0 <= t < map1@.len() && (#[trigger] map1@[t]).1 == key && graph_has(
                        g0,
                        map1@[t].0,
                        u,
                    )));
                if graph_has(g1, key, u) {
                    let t = choose|t: int|
                        0 <= t < map1@.len() && (#[trigger] map1@[t]).1 == key && graph_has(
                            g0,
                            map1@[t].0,
                            u,
                        );
                    assert(t == kk);
                    assert(graph_has(g0, orig, u));
                }
                if graph_has(g0, orig, u) {
                    assert(map1@[kk].1 == key && graph_has(g0, map1@[kk].0, u));
                }
                assert(graph_has(g1, key, u) == is_module_use(m_d, orig, u));
                lemma_subst_use_transport(
                    m_d,
                    m_1,
                    seq![(fa, da), (fg, dg)],
                    n0 as int,
                    key,
                    orig,
                    u,
                );
                assert(map1@ =~= seq![(fa, da), (fg, dg)]);
                crate::shims::lemma_shim_a_calls(
                    fa,
                    saved_original_argc,
                    self.args@.len() as u32,
                    (1 + self.args@.len()) as u32,
                    self.argv_buf_size_spec() as u32,
                );
                crate::shims::lemma_shim_b_calls(
                    fg,
                    saved_original_argc,
                    self.program_name@,
                    self.args@,
                    self.preset_args_size_spec() as u32,
                    (4 * self.args@.len()) as u32,
                    self.argv_buf_size_spec() as u32,
                );
                assert forall|i: int| m_1.funcs@.len() <= i < m_2.funcs@.len() implies match (
                #[trigger] m_2.funcs@[i]).kind {
                    FuncKind::Local { body } => !body_calls(body, key),
                    FuncKind::Imported { .. } => true,
                } by {
                    match m_2.funcs@[i].kind {
                        FuncKind::Local { body } => {
                            if body_calls(body, key) {
                                let si = choose|si: int|
                                    0 <= si < body.seqs@.len() && crate::module::seq_has_call(
                                        body.seqs@[si]@,
                                        key,
                                    );
                                let ji = choose|ji: int|
                                    0 <= ji < body.seqs@[si]@.len() && body.seqs@[si]@[ji] == (
                                    Instr::Call { func: key });
                                assert(false);
                            }
                        },
                        FuncKind::Imported { .. } => {},
                    }
                }
                lemma_append_funcs_use(m_1, m_2, key, u);
            }
        }
        replace_func_use(&map2, module, &mut call_graph);
        let ghost m_3: WasmModule = *module;

        // Delete the dummy import entries; nothing references them now.
        module.imports[ia] = None;
        module.imports[ia2] = None;

        proof {
            let comps: Seq<(usize, usize)> = seq![(fa, (n0 + 2) as usize), (fg, (n0 + 3) as usize)];
            let map1s: Seq<(usize, usize)> = seq![(fa, da), (fg, dg)];
            let map2s: Seq<(usize, usize)> = seq![(da, sa), (dg, sb)];
            assert(map1@ =~= map1s);
            assert(map2@ =~= map2s);
            assert forall|g: usize| (g as int) < n0 implies map_subst(
                map2s,
                #[trigger] map_subst(map1s, g),
            ) == map_subst(comps, g) by {
                lemma_map2(fa, da, fg, dg, g);
                lemma_map2(da, sa, dg, sb, map_subst(map1s, g));
                lemma_map2(fa, sa, fg, sb, g);
            }
            // Old functions: the two rewrites compose to the single map
            // original -> shim.
            assert forall|i: int| 0 <= i < n0 implies function_subst(
                m0.funcs@[i],
                #[trigger] module.funcs@[i],
                comps,
            ) by {
                assert(m_d.funcs@[i] == m0.funcs@[i]);
                assert(function_subst(m_d.funcs@[i], m_1.funcs@[i], map1s));
                assert(m_2.funcs@[i] == m_1.funcs@[i]);
                assert(function_subst(m_2.funcs@[i], m_3.funcs@[i], map2s));
                assert(crate::module::func_wf(m0.funcs@[i], n0 as int));
                lemma_function_subst_compose(
                    m0.funcs@[i],
                    m_1.funcs@[i],
                    m_3.funcs@[i],
                    map1s,
                    map2s,
                    comps,
                    n0 as int,
                );
            }
            // The dummies keep their imported stubs through both rewrites.
            assert(function_subst(m_2.funcs@[da as int], m_3.funcs@[da as int], map2s));
            assert(function_subst(m_2.funcs@[dg as int], m_3.funcs@[dg as int], map2s));
            // The shims' bodies survive the second rewrite unchanged: their
            // only call targets are the originals, which the second map
            // does not touch.
            crate::shims::lemma_shim_a_calls(
                fa,
                saved_original_argc,
                self.args@.len() as u32,
                (1 + self.args@.len()) as u32,
                self.argv_buf_size_spec() as u32,
            );
            crate::shims::lemma_shim_b_calls(
                fg,
                saved_original_argc,
                self.program_name@,
                self.args@,
                self.preset_args_size_spec() as u32,
                (4 * self.args@.len()) as u32,
                self.argv_buf_size_spec() as u32,
            );
            assert(function_subst(m_2.funcs@[sa as int], m_3.funcs@[sa as int], map2s));
            match (m_2.funcs@[sa as int].kind, m_3.funcs@[sa as int].kind) {
                (FuncKind::Local { body: b2 }, FuncKind::Local { body: b3 }) => {
                    assert forall|si: int| 0 <= si < 5 implies (#[trigger] b3.seqs@[si])@
                        == shim_a_seqs(
                        fa,
                        saved_original_argc,
                        self.args@.len() as u32,
                        (1 + self.args@.len()) as u32,
                        self.argv_buf_size_spec() as u32,
                    )[si] by {
                        assert forall|ji: int| 0 <= ji < b2.seqs@[si]@.len() implies (
                        #[trigger] b3.seqs@[si]@[ji]) == b2.seqs@[si]@[ji] by {
                            match b2.seqs@[si]@[ji] {
                                Instr::Call { func: g } => {
                                    assert(g == fa);
                                    lemma_map2(da, sa, dg, sb, g);
                                },
                                _ => {},
                            }
                        }
                        assert(b3.seqs@[si]@ =~= b2.seqs@[si]@);
                    }
                },
                _ => {
                    assert(false);
                },
            }
            assert(function_subst(m_2.funcs@[sb as int], m_3.funcs@[sb as int], map2s));
            match (m_2.funcs@[sb as int].kind, m_3.funcs@[sb as int].kind) {
                (FuncKind::Local { body: b2 }, FuncKind::Local { body: b3 }) => {
                    assert forall|si: int| 0 <= si < 5 implies (#[trigger] b3.seqs@[si])@
                        == shim_b_seqs(
                        fg,
                        saved_original_argc,
                        self.program_name@,
                        self.args@,
                        self.preset_args_size_spec() as u32,
                        (4 * self.args@.len()) as u32,
                        self.argv_buf_size_spec() as u32,
                    )[si] by {
                        assert forall|ji: int| 0 <= ji < b2.seqs@[si]@.len() implies (
                        #[trigger] b3.seqs@[si]@[ji]) == b2.seqs@[si]@[ji] by {
                            match b2.seqs@[si]@[ji] {
                                Instr::Call { func: g } => {
                                    assert(g == fg);
                                    lemma_map2(da, sa, dg, sb, g);
                                },
                                _ => {},
                            }
                        }
                        assert(b3.seqs@[si]@ =~= b2.seqs@[si]@);
                    }
                },
                _ => {
                    assert(false);
                },
            }
            // Exports and element slots compose the same way.
            assert forall|x: int| 0 <= x < m0.exports@.len() implies export_subst(
                m0.exports@[x],
                #[trigger] module.exports@[x],
                comps,
            ) by {
                assert(export_subst(m_d.exports@[x], m_1.exports@[x], map1s));
                assert(export_subst(m_2.exports@[x], m_3.exports@[x], map2s));
                match m0.exports@[x].item {
                    ExportItem::Func { func } => {
                        assert((func as int) < n0);
                    },
                    _ => {},
                }
            }
            assert forall|e: int| 0 <= e < m0.elements@.len() implies element_subst(
                m0.elements@[e],
                #[trigger] module.elements@[e],
                comps,
            ) by {
                assert(element_subst(m_d.elements@[e], m_1.elements@[e], map1s));
                assert(element_subst(m_2.elements@[e], m_3.elements@[e], map2s));
                assert forall|j: int| 0 <= j < m0.elements@[e].members@.len() implies (
                #[trigger] module.elements@[e].members@[j]) == (match m0.elements@[e].members@[j] {
                    Some(f) => Some(map_subst(comps, f)),
                    None => None,
                }) by {
                    assert(m_1.elements@[e].members@[j] == (match m_d.elements@[e].members@[j] {
                        Some(f) => Some(map_subst(map1s, f)),
                        None => None,
                    }));
                    assert(m_3.elements@[e].members@[j] == (match m_2.elements@[e].members@[j] {
                        Some(f) => Some(map_subst(map2s, f)),
                        None => None,
                    }));
                    match m0.elements@[e].members@[j] {
                        Some(f) => {
                            assert((f as int) < n0);
                        },
                        None => {},
                    }
                }
            }
            // Imports: the originals' entries survive; the dummies' slots
            // are emptied.
            assert forall|i: int| 0 <= i < m0.imports@.len() implies (#[trigger] module.imports@[i])
                == m0.imports@[i] by {
                assert(m_d.imports@[i] == m0.imports@[i]);
            }
            assert(transform_post_with(*self, m0, *module, fa, fg));
            assert(transform_post(*self, m0, *module));
        }
        Ok(())
    }
}


/// After the transform, the two shims are the only functions whose bodies
/// reference the original WASI argument imports, and no element slot or
/// function export references them either: shim A (at index `n0 + 2`, for
/// the input's `n0` functions) calls the original `args_sizes_get`, shim B
/// (at `n0 + 3`) calls the original `args_get`, and nothing else does.
pub proof fn lemma_shims_only_reference_originals(
    p: PresetArgs,
    m0: WasmModule,
    m1: WasmModule,
    fa: usize,
    fg: usize,
)
    requires
        module_wf(m0),
        resolves_to_func(m0, wasi_snapshot_name(), args_sizes_name(), fa),
        resolves_to_func(m0, wasi_snapshot_name(), args_get_name(), fg),
        transform_post_with(p, m0, m1, fa, fg),
    ensures
        forall|i: int|
            0 <= i < m1.funcs@.len() && i != m0.funcs@.len() + 2 && i != m0.funcs@.len() + 3
                ==> !func_calls(m1, i, fa) && !func_calls(m1, i, fg),
        func_calls(m1, m0.funcs@.len() as int + 2, fa),
        func_calls(m1, m0.funcs@.len() as int + 3, fg),
        forall|e: int, j: int|
            0 <= e < m1.elements@.len() && 0 <= j < m1.elements@[e].members@.len()
                ==> (#[trigger] m1.elements@[e].members@[j]) != Some(fa)
                && m1.elements@[e].members@[j] != Some(fg),
        forall|x: int|
            0 <= x < m1.exports@.len() ==> (#[trigger] m1.exports@[x]).item != (ExportItem::Func {
                func: fa,
            }) && m1.exports@[x].item != (ExportItem::Func { func: fg }),
{
    lemma_resolved_distinct(m0, fa, fg);
    assert(m1.funcs@.len() == m1.funcs.len());
    let n0 = m0.funcs@.len() as int;
    let sa = (n0 + 2) as usize;
    let sbb = (n0 + 3) as usize;
    assert(sa as int == n0 + 2 && sbb as int == n0 + 3);
    let sb = (n0 + 3) as usize;
    let comps: Seq<(usize, usize)> = seq![(fa, sa), (fg, sb)];
    let gidx = m0.globals@.len() as usize;
    assert forall|g: usize| (g as int) < n0 implies (#[trigger] map_subst(comps, g)) != fa
        && map_subst(comps, g) != fg by {
        lemma_map2(fa, sa, fg, sb, g);
    }
    assert forall|i: int|
        0 <= i < m1.funcs@.len() && i != n0 + 2 && i != n0 + 3 implies !func_calls(m1, i, fa)
        && !func_calls(m1, i, fg) by {
        if i < n0 {
            assert(function_subst(m0.funcs@[i], m1.funcs@[i], comps));
            match (m0.funcs@[i].kind, m1.funcs@[i].kind) {
                (FuncKind::Local { body: b0 }, FuncKind::Local { body: b1 }) => {
                    assert(crate::module::func_wf(m0.funcs@[i], n0));
                    lemma_subst_body_calls(b0, b1, comps, fa, n0);
                    lemma_subst_body_calls(b0, b1, comps, fg, n0);
                },
                _ => {},
            }
        }
    }
    crate::shims::lemma_shim_a_calls(
        fa,
        gidx,
        p.args@.len() as u32,
        (1 + p.args@.len()) as u32,
        p.argv_buf_size_spec() as u32,
    );
    crate::shims::lemma_shim_b_calls(
        fg,
        gidx,
        p.program_name@,
        p.args@,
        p.preset_args_size_spec() as u32,
        (4 * p.args@.len()) as u32,
        p.argv_buf_size_spec() as u32,
    );
    match m1.funcs@[n0 + 2].kind {
        FuncKind::Local { body } => {
            assert(body.seqs@[0]@[2] == (Instr::Call { func: fa }));
            assert(crate::module::seq_has_call(body.seqs@[0]@, fa));
        },
        FuncKind::Imported { .. } => {
            assert(false);
        },
    }
    match m1.funcs@[n0 + 3].kind {
        FuncKind::Local { body } => {
            assert(body.seqs@[2]@[7] == (Instr::Call { func: fg }));
            assert(crate::module::seq_has_call(body.seqs@[2]@, fg));
        },
        FuncKind::Imported { .. } => {
            assert(false);
        },
    }
}


/// The transform keeps the module well-formed: in the output, every call
/// instruction, element slot, function export and function import still
/// refers to an existing function, and imports still bind functions
/// injectively.
pub proof fn lemma_transform_preserves_wf(
    p: PresetArgs,
    m0: WasmModule,
    m1: WasmModule,
    fa: usize,
    fg: usize,
)
    requires
        module_wf(m0),
        resolves_to_func(m0, wasi_snapshot_name(), args_sizes_name(), fa),
        resolves_to_func(m0, wasi_snapshot_name(), args_get_name(), fg),
        transform_post_with(p, m0, m1, fa, fg),
    ensures
        module_wf(m1),
{
    lemma_resolved_distinct(m0, fa, fg);
    assert(m1.funcs@.len() == m1.funcs.len());
    let n0 = m0.funcs@.len() as int;
    let n1 = n0 + 4;
    let sa = (n0 + 2) as usize;
    let sbb = (n0 + 3) as usize;
    assert(sa as int == n0 + 2 && sbb as int == n0 + 3);
    let comps: Seq<(usize, usize)> = seq![(fa, sa), (fg, sbb)];
    let gidx = m0.globals@.len() as usize;
    assert forall|g: usize| (g as int) < n0 implies (#[trigger] map_subst(comps, g) as int)
        < n1 by {
        lemma_map2(fa, sa, fg, sbb, g);
    }
    assert forall|i: int| 0 <= i < m1.funcs@.len() implies crate::module::func_wf(
        #[trigger] m1.funcs@[i],
        n1,
    ) by {
        if i < n0 {
            assert(function_subst(m0.funcs@[i], m1.funcs@[i], comps));
            assert(crate::module::func_wf(m0.funcs@[i], n0));
            match (m0.funcs@[i].kind, m1.funcs@[i].kind) {
                (FuncKind::Local { body: b0 }, FuncKind::Local { body: b1 }) => {
                    assert forall|si: int, ji: int|
                        0 <= si < b1.seqs@.len() && 0 <= ji < b1.seqs@[si]@.len() implies crate::module::instr_refs_lt(
                        #[trigger] b1.seqs@[si]@[ji],
                        n1,
                    ) by {
                        assert(b1.seqs@[si]@[ji] == instr_subst(b0.seqs@[si]@[ji], comps));
                        assert(crate::module::instr_refs_lt(b0.seqs@[si]@[ji], n0));
                    }
                },
                _ => {},
            }
        } else if i == n0 + 2 {
            crate::shims::lemma_shim_a_calls(
                fa,
                gidx,
                p.args@.len() as u32,
                (1 + p.args@.len()) as u32,
                p.argv_buf_size_spec() as u32,
            );
            match m1.funcs@[i].kind {
                FuncKind::Local { body } => {
                    assert forall|si: int, ji: int|
                        0 <= si < body.seqs@.len() && 0 <= ji < body.seqs@[si]@.len() implies crate::module::instr_refs_lt(
                        #[trigger] body.seqs@[si]@[ji],
                        n1,
                    ) by {
                        match body.seqs@[si]@[ji] {
                            Instr::Call { func } => {
                                assert(func == fa);
                            },
                            _ => {},
                        }
                    }
                },
                _ => {},
            }
        } else if i == n0 + 3 {
            crate::shims::lemma_shim_b_calls(
                fg,
                gidx,
                p.program_name@,
                p.args@,
                p.preset_args_size_spec() as u32,
                (4 * p.args@.len()) as u32,
                p.argv_buf_size_spec() as u32,
            );
            match m1.funcs@[i].kind {
                FuncKind::Local { body } => {
                    assert forall|si: int, ji: int|
                        0 <= si < body.seqs@.len() && 0 <= ji < body.seqs@[si]@.len() implies crate::module::instr_refs_lt(
                        #[trigger] body.seqs@[si]@[ji],
                        n1,
                    ) by {
                        match body.seqs@[si]@[ji] {
                            Instr::Call { func } => {
                                assert(func == fg);
                            },
                            _ => {},
                        }
                    }
                },
                _ => {},
            }
        }
    }
    assert forall|e: int, j: int|
        0 <= e < m1.elements@.len() && 0 <= j < m1.elements@[e].members@.len() implies match #[trigger] m1.elements@[e].members@[j] {
        Some(f) => (f as int) < m1.funcs@.len(),
        None => true,
    } by {
        assert(element_subst(m0.elements@[e], m1.elements@[e], comps));
        match m0.elements@[e].members@[j] {
            Some(f) => {
                assert(m1.elements@[e].members@[j] == Some(map_subst(comps, f)));
            },
            None => {},
        }
    }
    assert forall|x: int| 0 <= x < m1.exports@.len() implies match (#[trigger] m1.exports@[x]).item {
        ExportItem::Func { func } => (func as int) < m1.funcs@.len(),
        _ => true,
    } by {
        assert(export_subst(m0.exports@[x], m1.exports@[x], comps));
    }
    let ni = m0.imports@.len() as int;
    assert forall|i: int|
        0 <= i < m1.imports@.len() implies match crate::module::import_bound_func(
        #[trigger] m1.imports@[i],
    ) {
        Some(f) => (f as int) < m1.funcs@.len(),
        None => true,
    } by {
        if i < ni {
            assert(m1.imports@[i] == m0.imports@[i]);
        }
    }
    assert forall|i: int, j: int|
        0 <= i < m1.imports@.len() && 0 <= j < m1.imports@.len() && i != j implies match (
        crate::module::import_bound_func(#[trigger] m1.imports@[i]),
        crate::module::import_bound_func(#[trigger] m1.imports@[j]),
    ) {
        (Some(f1), Some(f2)) => f1 != f2,
        _ => true,
    } by {
        if i < ni && j < ni {
            assert(m1.imports@[i] == m0.imports@[i]);
            assert(m1.imports@[j] == m0.imports@[j]);
        } else if i < ni {
            assert(m1.imports@[j] is None);
        } else {
            assert(m1.imports@[i] is None);
        }
    }
}

} // verus!
