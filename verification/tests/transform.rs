use wasi_preset_args::call_graph::{CallGraph, FunctionUse};
use wasi_preset_args::module::{
    ElementSegment, Export, ExportItem, FuncBody, FuncKind, FuncType, Function, GlobalInit,
    GlobalVar, Import, ImportKind, Instr, MemoryDecl, ValKind, WasmModule,
};
use wasi_preset_args::{PresetArgs, TransformError};

fn wasi_import(name: &[u8], import: usize, func: usize) -> Option<Import> {
    let _ = import;
    Some(Import {
        module: b"wasi_snapshot_preview1".to_vec(),
        name: name.to_vec(),
        kind: ImportKind::Func { func },
    })
}

/// Two WASI argument imports (functions 0 and 1), one local function
/// (function 2) that calls both, one exported function, one memory.
fn base_module() -> WasmModule {
    WasmModule {
        types: vec![FuncType {
            params: vec![ValKind::I32, ValKind::I32],
            results: vec![ValKind::I32],
        }],
        funcs: vec![
            Function { ty: 0, name: None, kind: FuncKind::Imported { import: 0 } },
            Function { ty: 0, name: None, kind: FuncKind::Imported { import: 1 } },
            Function {
                ty: 0,
                name: Some(b"main".to_vec()),
                kind: FuncKind::Local {
                    body: FuncBody {
                        locals: vec![],
                        seqs: vec![vec![
                            Instr::LocalGet { local: 0 },
                            Instr::LocalGet { local: 1 },
                            Instr::Call { func: 0 },
                            Instr::LocalGet { local: 0 },
                            Instr::LocalGet { local: 1 },
                            Instr::Call { func: 1 },
                            Instr::I32Add,
                        ]],
                    },
                },
            },
        ],
        imports: vec![
            wasi_import(b"args_sizes_get", 0, 0),
            wasi_import(b"args_get", 1, 1),
        ],
        exports: vec![Export { name: b"main".to_vec(), item: ExportItem::Func { func: 2 } }],
        globals: vec![],
        memories: vec![MemoryDecl { min_pages: 1, max_pages: None }],
        tables: vec![],
        elements: vec![],
        data: vec![vec![1, 2, 3]],
    }
}

fn preset() -> PresetArgs {
    PresetArgs::new(b"prog".to_vec(), vec![b"--foo".to_vec(), b"bar".to_vec()])
}

#[test]
fn run_adds_global_and_functions() {
    let mut m = base_module();
    let r = preset().run(&mut m);
    assert!(r.is_ok());
    // One added mutable i32 global initialized to zero.
    assert_eq!(m.globals.len(), 1);
    assert!(m.globals[0].mutable);
    assert_eq!(m.globals[0].kind, ValKind::I32);
    assert_eq!(m.globals[0].init, GlobalInit::I32Value { value: 0 });
    // Four function slots: the two emptied dummies and the two shims.
    assert_eq!(m.funcs.len(), 7);
    // The dummy import entries are gone.
    assert_eq!(m.imports.len(), 4);
    assert!(m.imports[2].is_none());
    assert!(m.imports[3].is_none());
    // The original imports survive untouched.
    assert!(m.imports[0].is_some());
    assert!(m.imports[1].is_some());
    // Types, memories, tables and data are byte-identical.
    assert_eq!(m.types.len(), 1);
    assert_eq!(m.data, vec![vec![1, 2, 3]]);
    assert_eq!(m.memories.len(), 1);
}

#[test]
fn run_redirects_calls_to_shims() {
    let mut m = base_module();
    preset().run(&mut m).unwrap();
    // Shim A sits at index 5 (= 3 old functions + 2 dummies), shim B at 6.
    match &m.funcs[2].kind {
        FuncKind::Local { body } => {
            assert_eq!(body.seqs[0][2], Instr::Call { func: 5 });
            assert_eq!(body.seqs[0][5], Instr::Call { func: 6 });
            // Everything else of the body is untouched.
            assert_eq!(body.seqs[0][0], Instr::LocalGet { local: 0 });
            assert_eq!(body.seqs[0][6], Instr::I32Add);
            assert_eq!(body.seqs[0].len(), 7);
        }
        _ => panic!("caller is no longer a local function"),
    }
}

#[test]
fn run_names_the_shims() {
    let mut m = base_module();
    preset().run(&mut m).unwrap();
    assert_eq!(
        m.funcs[5].name.as_deref(),
        Some(b"wasi_preset_args.args_sizes_get".as_slice())
    );
    assert_eq!(m.funcs[6].name.as_deref(), Some(b"wasi_preset_args.args_get".as_slice()));
}

#[test]
fn shims_call_the_originals() {
    let mut m = base_module();
    preset().run(&mut m).unwrap();
    match &m.funcs[5].kind {
        FuncKind::Local { body } => {
            assert_eq!(body.seqs.len(), 5);
            assert_eq!(body.seqs[0][2], Instr::Call { func: 0 });
            // The loaded host argc is saved into the new global (index 0).
            assert_eq!(body.seqs[1][3], Instr::GlobalSet { global: 0 });
            // Success branch stores 1 + N = 3 and the buffer size 15.
            assert_eq!(body.seqs[3][1], Instr::I32Const { value: 3 });
            assert_eq!(body.seqs[3][4], Instr::I32Const { value: 15 });
            // Host-args branch adds N = 2 and 15.
            assert_eq!(body.seqs[4][2], Instr::I32Const { value: 2 });
            assert_eq!(body.seqs[4][8], Instr::I32Const { value: 15 });
        }
        _ => panic!("shim A is not a local function"),
    }
    match &m.funcs[6].kind {
        FuncKind::Local { body } => {
            assert_eq!(body.seqs.len(), 5);
            // Shim B branches on the argc shim A saved.
            assert_eq!(body.seqs[0][0], Instr::GlobalGet { global: 0 });
            assert_eq!(body.seqs[2][7], Instr::Call { func: 1 });
            // extra_argv = argv + N * 4 = argv + 8.
            assert_eq!(body.seqs[2][1], Instr::I32Const { value: 8 });
        }
        _ => panic!("shim B is not a local function"),
    }
}

#[test]
fn run_retargets_function_exports() {
    let mut m = base_module();
    // Export the original args_get directly.
    m.exports.push(Export { name: b"ag".to_vec(), item: ExportItem::Func { func: 1 } });
    preset().run(&mut m).unwrap();
    assert_eq!(m.exports[0].item, ExportItem::Func { func: 2 });
    assert_eq!(m.exports[1].item, ExportItem::Func { func: 6 });
    assert_eq!(m.exports[1].name, b"ag".to_vec());
}

#[test]
fn run_retargets_element_slots() {
    let mut m = base_module();
    m.tables.push(wasi_preset_args::module::TableDecl { min: 2, max: None });
    m.elements.push(ElementSegment { members: vec![Some(1), None, Some(2)] });
    preset().run(&mut m).unwrap();
    // The slot holding the original args_get now holds shim B.
    assert_eq!(m.elements[0].members, vec![Some(6), None, Some(2)]);
}

#[test]
fn missing_args_get_fails_without_mutation() {
    let mut m = base_module();
    m.imports[1] = None;
    m.funcs.remove(1);
    // Keep indices valid: the caller now calls 0 twice.
    m.funcs[1] = Function {
        ty: 0,
        name: None,
        kind: FuncKind::Local {
            body: FuncBody { locals: vec![], seqs: vec![vec![Instr::Call { func: 0 }]] },
        },
    };
    m.exports[0].item = ExportItem::Func { func: 1 };
    let r = preset().run(&mut m);
    assert_eq!(r, Err(TransformError::MissingImport));
    // Nothing was mutated.
    assert_eq!(m.funcs.len(), 2);
    assert_eq!(m.globals.len(), 0);
    assert_eq!(m.imports.len(), 2);
}

#[test]
fn missing_args_sizes_get_fails() {
    let mut m = base_module();
    m.imports[0] = None;
    let r = preset().run(&mut m);
    assert_eq!(r, Err(TransformError::MissingImport));
    assert_eq!(m.globals.len(), 0);
}

#[test]
fn non_function_import_fails() {
    let mut m = base_module();
    m.globals.push(GlobalVar {
        kind: ValKind::I32,
        mutable: false,
        init: GlobalInit::I32Value { value: 7 },
    });
    m.imports[0] = Some(Import {
        module: b"wasi_snapshot_preview1".to_vec(),
        name: b"args_sizes_get".to_vec(),
        kind: ImportKind::Global { global: 0 },
    });
    let r = preset().run(&mut m);
    assert_eq!(r, Err(TransformError::WrongImportKind));
}

#[test]
fn no_memory_fails() {
    let mut m = base_module();
    m.memories.clear();
    let r = preset().run(&mut m);
    assert_eq!(r, Err(TransformError::NoMemory));
    assert_eq!(m.globals.len(), 0);
}

#[test]
fn call_graph_records_every_use() {
    let mut m = base_module();
    m.elements.push(ElementSegment { members: vec![Some(1)] });
    let g = CallGraph::build_from(&m);
    let uses0 = g.get_func_uses(0).unwrap();
    assert!(uses0.contains(&FunctionUse::Call { caller: 2 }));
    assert_eq!(uses0.len(), 1);
    let uses1 = g.get_func_uses(1).unwrap();
    assert!(uses1.contains(&FunctionUse::Call { caller: 2 }));
    assert!(uses1.contains(&FunctionUse::InElement { element: 0, index: 0 }));
    assert_eq!(uses1.len(), 2);
    let uses2 = g.get_func_uses(2).unwrap();
    assert!(uses2.contains(&FunctionUse::Export { export: 0 }));
    assert_eq!(uses2.len(), 1);
}

#[test]
fn call_graph_deduplicates() {
    let mut g = CallGraph::new();
    g.add_use(4, FunctionUse::Call { caller: 9 });
    g.add_use(4, FunctionUse::Call { caller: 9 });
    assert_eq!(g.get_func_uses(4).unwrap().len(), 1);
}

#[test]
fn empty_presets_still_install_shims_and_global() {
    let mut m = base_module();
    let p = PresetArgs::new(b"prog".to_vec(), vec![]);
    p.run(&mut m).unwrap();
    assert_eq!(m.globals.len(), 1);
    assert_eq!(m.funcs.len(), 7);
    match &m.funcs[2].kind {
        FuncKind::Local { body } => {
            assert_eq!(body.seqs[0][2], Instr::Call { func: 5 });
            assert_eq!(body.seqs[0][5], Instr::Call { func: 6 });
        }
        _ => panic!("caller is no longer a local function"),
    }
}

#[test]
fn transform_composes_with_itself() {
    // The two-phase dummy rewrite keeps "old" and "new" references apart,
    // so running the transform twice redirects the first shims' calls to
    // the originals onto the second shims, and nothing loops.
    let mut m = base_module();
    let p = preset();
    p.run(&mut m).unwrap();
    p.run(&mut m).unwrap();
    assert_eq!(m.funcs.len(), 11);
    assert_eq!(m.globals.len(), 2);
    // The second run's shims sit at 9 and 10 and call the originals.
    match &m.funcs[9].kind {
        FuncKind::Local { body } => assert_eq!(body.seqs[0][2], Instr::Call { func: 0 }),
        _ => panic!("second shim A is not local"),
    }
    // The first run's shim A now calls the second run's shim A.
    match &m.funcs[5].kind {
        FuncKind::Local { body } => assert_eq!(body.seqs[0][2], Instr::Call { func: 9 }),
        _ => panic!("first shim A is not local"),
    }
    // The program's own call sites still point at the first run's shims.
    match &m.funcs[2].kind {
        FuncKind::Local { body } => {
            assert_eq!(body.seqs[0][2], Instr::Call { func: 5 });
            assert_eq!(body.seqs[0][5], Instr::Call { func: 6 });
        }
        _ => panic!("caller is not local"),
    }
}
