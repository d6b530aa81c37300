use wasi_preset_args::encoding::store_string_at;
use wasi_preset_args::module::{
    FuncKind, FuncType, Function, Import, ImportKind, Instr, MemoryDecl, ValKind, WasmModule,
};
use wasi_preset_args::semantics::{args_get_outcome, args_sizes_outcome};
use wasi_preset_args::PresetArgs;

fn prog_foo_bar() -> PresetArgs {
    PresetArgs::new(b"prog".to_vec(), vec![b"--foo".to_vec(), b"bar".to_vec()])
}

#[test]
fn sizes_with_no_host_args() {
    // program name "prog\0" = 5 bytes, presets "--foo\0bar\0" = 10 bytes.
    let p = prog_foo_bar();
    let (argc, buf) = args_sizes_outcome(&p, 0, 0);
    assert_eq!(argc, 3);
    assert_eq!(buf, 15);
}

#[test]
fn sizes_with_host_args() {
    // Host reports argc=2 with a 4-byte buffer "x\0y\0"; the shim adds the
    // full argv buffer size (15), since the host's own buffer is placed
    // just past the combined preset and program-name region.
    let p = prog_foo_bar();
    let (argc, buf) = args_sizes_outcome(&p, 2, 4);
    assert_eq!(argc, 4);
    assert_eq!(buf, 19);
}

#[test]
fn sizes_single_program_name() {
    let p = PresetArgs::new(b"p".to_vec(), vec![]);
    let (argc, buf) = args_sizes_outcome(&p, 0, 0);
    assert_eq!(argc, 1);
    assert_eq!(buf, 2);
}

#[test]
fn sizes_one_preset_with_host() {
    // Host argc=1 with 6-byte buffer "hello\0"; argv buffer size is
    // "p\0" + "a\0" = 4, so the reported buffer is 6 + 4 = 10.
    let p = PresetArgs::new(b"p".to_vec(), vec![b"a".to_vec()]);
    let (argc, buf) = args_sizes_outcome(&p, 1, 6);
    assert_eq!(argc, 2);
    assert_eq!(buf, 10);
}

#[test]
fn argv_with_no_host_args() {
    let p = prog_foo_bar();
    let argv = args_get_outcome(&p, &vec![]);
    assert_eq!(argv, vec![b"prog".to_vec(), b"--foo".to_vec(), b"bar".to_vec()]);
}

#[test]
fn argv_with_host_args() {
    let p = prog_foo_bar();
    let argv = args_get_outcome(&p, &vec![b"x".to_vec(), b"y".to_vec()]);
    assert_eq!(
        argv,
        vec![b"x".to_vec(), b"--foo".to_vec(), b"bar".to_vec(), b"y".to_vec()]
    );
}

#[test]
fn argv_one_preset_with_host() {
    let p = PresetArgs::new(b"p".to_vec(), vec![b"a".to_vec()]);
    let argv = args_get_outcome(&p, &vec![b"hello".to_vec()]);
    assert_eq!(argv, vec![b"hello".to_vec(), b"a".to_vec()]);
}

#[test]
fn argv_empty_presets_no_host() {
    let p = PresetArgs::new(b"p".to_vec(), vec![]);
    let argv = args_get_outcome(&p, &vec![]);
    assert_eq!(argv, vec![b"p".to_vec()]);
}

#[test]
fn store_encoding_five_bytes() {
    // "hello" is split greedily into a 4-byte and a 1-byte store; the
    // 4-byte immediate is the little-endian value of "hell".
    let mut instrs: Vec<Instr> = Vec::new();
    store_string_at(&mut instrs, &b"hello".to_vec(), 1, 0);
    assert_eq!(
        instrs,
        vec![
            Instr::LocalGet { local: 1 },
            Instr::I32Const { value: 0 },
            Instr::I32Add,
            Instr::I32Const { value: 0x6c6c6568 },
            Instr::I32Store,
            Instr::LocalGet { local: 1 },
            Instr::I32Const { value: 4 },
            Instr::I32Add,
            Instr::I32Const { value: 0x6f },
            Instr::I32Store8,
        ]
    );
}

#[test]
fn store_encoding_widths_and_sign_extension() {
    // Eleven bytes: one 8-byte store, one 2-byte store, one 1-byte store.
    // The 16-bit immediate 0xfffe is sign-extended to 32 bits, as is the
    // final byte 0xff; the stores only keep the low bytes.
    let bytes = vec![1u8, 2, 3, 4, 5, 6, 7, 8, 0xfe, 0xff, 0xff];
    let mut instrs: Vec<Instr> = Vec::new();
    store_string_at(&mut instrs, &bytes, 0, 100);
    assert_eq!(
        instrs,
        vec![
            Instr::LocalGet { local: 0 },
            Instr::I32Const { value: 100 },
            Instr::I32Add,
            Instr::I64Const { value: 0x0807060504030201 },
            Instr::I64Store,
            Instr::LocalGet { local: 0 },
            Instr::I32Const { value: 108 },
            Instr::I32Add,
            Instr::I32Const { value: 0xfffffffe },
            Instr::I32Store16,
            Instr::LocalGet { local: 0 },
            Instr::I32Const { value: 110 },
            Instr::I32Add,
            Instr::I32Const { value: 0xffffffff },
            Instr::I32Store8,
        ]
    );
}

#[test]
fn store_encoding_empty_string() {
    let mut instrs: Vec<Instr> = Vec::new();
    store_string_at(&mut instrs, &Vec::new(), 1, 0);
    assert!(instrs.is_empty());
}

#[test]
fn preset_bytes_are_immediates_only() {
    // The transform encodes preset bytes purely as store immediates: no
    // data segment is added even for long arguments.
    let mut m = {
        WasmModule {
            types: vec![FuncType {
                params: vec![ValKind::I32, ValKind::I32],
                results: vec![ValKind::I32],
            }],
            funcs: vec![
                Function { ty: 0, name: None, kind: FuncKind::Imported { import: 0 } },
                Function { ty: 0, name: None, kind: FuncKind::Imported { import: 1 } },
            ],
            imports: vec![
                Some(Import {
                    module: b"wasi_snapshot_preview1".to_vec(),
                    name: b"args_sizes_get".to_vec(),
                    kind: ImportKind::Func { func: 0 },
                }),
                Some(Import {
                    module: b"wasi_snapshot_preview1".to_vec(),
                    name: b"args_get".to_vec(),
                    kind: ImportKind::Func { func: 1 },
                }),
            ],
            exports: vec![],
            globals: vec![],
            memories: vec![MemoryDecl { min_pages: 1, max_pages: None }],
            tables: vec![],
            elements: vec![],
            data: vec![],
        }
    };
    let p = PresetArgs::new(
        b"program".to_vec(),
        vec![b"an-argument-that-is-fairly-long".to_vec()],
    );
    p.run(&mut m).unwrap();
    assert!(m.data.is_empty());
    assert_eq!(m.funcs.len(), 6);
}
