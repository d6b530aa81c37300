use vstd::prelude::*;

use crate::encoding::store_bytes_instrs;
use crate::encoding::store_string_at;
use crate::module::{BlockResult, FuncBody, Instr, ValKind};

verus! {

/// Byte length of the first `n` preset arguments written one after another,
/// each followed by one NUL terminator; also the offset at which argument
/// `n` starts inside the preset region of `argv_buf`.
pub open spec fn preset_size_upto(args: Seq<Vec<u8>>, n: int) -> int
    decreases n,
{
    if n <= 0 {
        0
    } else {
        preset_size_upto(args, n - 1) + args[n - 1]@.len() + 1
    }
}

pub proof fn lemma_preset_size_upto_nonneg(args: Seq<Vec<u8>>, n: int)
    ensures
        preset_size_upto(args, n) >= 0,
        n >= 1 ==> preset_size_upto(args, n) >= n,
    decreases n,
{
    if n >= 1 {
        lemma_preset_size_upto_nonneg(args, n - 1);
    }
}

pub proof fn lemma_preset_size_upto_increases(args: Seq<Vec<u8>>, a: int, b: int)
    requires
        a <= b,
    ensures
        preset_size_upto(args, a) <= preset_size_upto(args, b),
    decreases b - a,
{
    if a < b {
        lemma_preset_size_upto_increases(args, a, b - 1);
        lemma_preset_size_upto_nonneg(args, b - 1);
    }
}

/// The entry sequence of shim A (`args_sizes_get`): call the original with
/// the caller's two pointers, keep the errno in local 2, and branch on it,
/// the branch producing the final 32-bit errno.
pub open spec fn shim_a_entry(original: usize) -> Seq<Instr> {
    seq![
        Instr::LocalGet { local: 0 },
        Instr::LocalGet { local: 1 },
        Instr::Call { func: original },
        Instr::LocalTee { local: 2 },
        Instr::I32Eqz,
        Instr::IfElse { result: BlockResult::One { kind: ValKind::I32 }, then_seq: 1, else_seq: 2 },
    ]
}

/// The success branch of shim A: load the host argc into local 3, save it
/// into the shared global, then branch on argc being zero, and leave errno 0.
pub open spec fn shim_a_success(global: usize) -> Seq<Instr> {
    seq![
        Instr::LocalGet { local: 0 },
        Instr::I32Load,
        Instr::LocalTee { local: 3 },
        Instr::GlobalSet { global },
        Instr::LocalGet { local: 3 },
        Instr::I32Eqz,
        Instr::IfElse { result: BlockResult::Empty, then_seq: 3, else_seq: 4 },
        Instr::I32Const { value: 0 },
    ]
}

/// The failure branch of shim A: return the original's errno from local 2.
pub open spec fn shim_a_failure() -> Seq<Instr> {
    seq![Instr::LocalGet { local: 2 }]
}

/// The host-supplied-no-arguments branch of shim A: store `1 + N` into
/// `*argc_ptr` and the full argv buffer size into `*argv_buf_size_ptr`.
pub open spec fn shim_a_no_host_args(new_argc: u32, buf_size: u32) -> Seq<Instr> {
    seq![
        Instr::LocalGet { local: 0 },
        Instr::I32Const { value: new_argc },
        Instr::I32Store,
        Instr::LocalGet { local: 1 },
        Instr::I32Const { value: buf_size },
        Instr::I32Store,
    ]
}

/// The host-supplied-arguments branch of shim A: store `argc + N` into
/// `*argc_ptr` and increment `*argv_buf_size_ptr` by the argv buffer size.
pub open spec fn shim_a_host_args(n_args: u32, buf_size: u32) -> Seq<Instr> {
    seq![
        Instr::LocalGet { local: 0 },
        Instr::LocalGet { local: 3 },
        Instr::I32Const { value: n_args },
        Instr::I32Add,
        Instr::I32Store,
        Instr::LocalGet { local: 1 },
        Instr::LocalGet { local: 1 },
        Instr::I32Load,
        Instr::I32Const { value: buf_size },
        Instr::I32Add,
        Instr::I32Store,
    ]
}

/// The whole body of shim A: entry sequence 0, branches 1 to 4, two extra
/// i32 locals (the errno and the loaded argc) beyond the two parameters.
pub open spec fn shim_a_seqs(original: usize, global: usize, n_args: u32, new_argc: u32, buf_size: u32) -> Seq<Seq<Instr>> {
    seq![
        shim_a_entry(original),
        shim_a_success(global),
        shim_a_failure(),
        shim_a_no_host_args(new_argc, buf_size),
        shim_a_host_args(n_args, buf_size),
    ]
}

/// The per-argument writes of shim B, from argument `i` on: store argument
/// `i`'s bytes at `argv_buf + off_i` (its running offset) and the pointer
/// `argv_buf + off_i` into `argv[(i+1) * 4]`, then continue with `i + 1`.
pub open spec fn preset_writes_from(args: Seq<Vec<u8>>, i: int) -> Seq<Instr>
    decreases args.len() - i,
{
    if i < 0 || i >= args.len() {
        Seq::empty()
    } else {
        store_bytes_instrs(args[i]@, 1, preset_size_upto(args, i)) + seq![
            Instr::LocalGet { local: 0 },
            Instr::I32Const { value: (4 * (i + 1)) as u32 },
            Instr::I32Add,
            Instr::LocalGet { local: 1 },
            Instr::I32Const { value: preset_size_upto(args, i) as u32 },
            Instr::I32Add,
            Instr::I32Store,
        ] + preset_writes_from(args, i + 1)
    }
}

/// The entry sequence of shim B (`args_get`): branch on the saved host argc,
/// then write the preset pointers and bytes, and leave errno 0.
pub open spec fn shim_b_entry(global: usize, args: Seq<Vec<u8>>) -> Seq<Instr> {
    seq![
        Instr::GlobalGet { global },
        Instr::I32Eqz,
        Instr::IfElse { result: BlockResult::Empty, then_seq: 1, else_seq: 2 },
    ] + preset_writes_from(args, 0) + seq![Instr::I32Const { value: 0 }]
}

/// The host-supplied-no-arguments branch of shim B: store the program name
/// bytes just past the preset region and its address into `argv[0]`.
pub open spec fn shim_b_no_host_args(program_name: Seq<u8>, preset_size: u32) -> Seq<Instr> {
    store_bytes_instrs(program_name, 1, preset_size as int) + seq![
        Instr::LocalGet { local: 0 },
        Instr::LocalGet { local: 1 },
        Instr::I32Const { value: preset_size },
        Instr::I32Add,
        Instr::I32Store,
    ]
}

/// The host-supplied-arguments branch of shim B: point the original at
/// `argv + N * 4` and `argv_buf + argv_buf_size`, keep its errno in local 2,
/// and branch on it.
pub open spec fn shim_b_host_args(original: usize, n_args_bytes: u32, buf_size: u32) -> Seq<Instr> {
    seq![
        Instr::LocalGet { local: 0 },
        Instr::I32Const { value: n_args_bytes },
        Instr::I32Add,
        Instr::LocalTee { local: 3 },
        Instr::LocalGet { local: 1 },
        Instr::I32Const { value: buf_size },
        Instr::I32Add,
        Instr::Call { func: original },
        Instr::LocalTee { local: 2 },
        Instr::I32Eqz,
        Instr::IfElse { result: BlockResult::Empty, then_seq: 3, else_seq: 4 },
    ]
}

/// The forward-success branch of shim B: copy the host's `argv[0]` (written
/// at `extra_argv`, held in local 3) into `argv[0]`.
pub open spec fn shim_b_forward_ok() -> Seq<Instr> {
    seq![
        Instr::LocalGet { local: 0 },
        Instr::LocalGet { local: 3 },
        Instr::I32Load,
        Instr::I32Store,
    ]
}

/// The forward-failure branch of shim B: return the original's errno.
pub open spec fn shim_b_forward_err() -> Seq<Instr> {
    seq![Instr::LocalGet { local: 2 }, Instr::Return]
}

/// The whole body of shim B: entry sequence 0, branches 1 to 4, two extra
/// i32 locals (the errno and the extra argv pointer).
pub open spec fn shim_b_seqs(
    original: usize,
    global: usize,
    program_name: Seq<u8>,
    args: Seq<Vec<u8>>,
    preset_size: u32,
    n_args_bytes: u32,
    buf_size: u32,
) -> Seq<Seq<Instr>> {
    seq![
        shim_b_entry(global, args),
        shim_b_no_host_args(program_name, preset_size),
        shim_b_host_args(original, n_args_bytes, buf_size),
        shim_b_forward_ok(),
        shim_b_forward_err(),
    ]
}

/// Every call in shim A's body targets `original`, and sequence 0 makes one.
pub proof fn lemma_shim_a_calls(original: usize, global: usize, n_args: u32, new_argc: u32, buf_size: u32)
    ensures
        forall|s: int, j: int|
            0 <= s < shim_a_seqs(original, global, n_args, new_argc, buf_size).len() && 0 <= j
                < shim_a_seqs(original, global, n_args, new_argc, buf_size)[s].len()
                ==> match #[trigger] shim_a_seqs(original, global, n_args, new_argc, buf_size)[s][j] {
                Instr::Call { func } => func == original,
                _ => true,
            },
        shim_a_seqs(original, global, n_args, new_argc, buf_size)[0][2] == (Instr::Call {
            func: original,
        }),
{
}

/// No instruction of the widest-aligned-store encoding is a call.
pub proof fn lemma_store_bytes_no_calls(s: Seq<u8>, base: usize, off: int)
    ensures
        forall|j: int|
            0 <= j < store_bytes_instrs(s, base, off).len() ==> match #[trigger] store_bytes_instrs(
                s,
                base,
                off,
            )[j] {
                Instr::Call { .. } => false,
                _ => true,
            },
    decreases s.len(),
{
    if s.len() == 0 {
    } else {
        let c = chunk_len_of(s.len() as int);
        lemma_store_bytes_no_calls(s.skip(c), base, off + c);
    }
}

/// `chunk_len` over an int, to keep the recursion above readable.
pub open spec fn chunk_len_of(rem: int) -> int {
    if rem >= 8 {
        8
    } else if rem >= 4 {
        4
    } else if rem >= 2 {
        2
    } else {
        1
    }
}

/// No instruction of the per-argument writes is a call.
pub proof fn lemma_preset_writes_no_calls(args: Seq<Vec<u8>>, i: int)
    ensures
        forall|j: int|
            0 <= j < preset_writes_from(args, i).len() ==> match #[trigger] preset_writes_from(
                args,
                i,
            )[j] {
                Instr::Call { .. } => false,
                _ => true,
            },
    decreases args.len() - i,
{
    if i < 0 || i >= args.len() {
    } else {
        lemma_store_bytes_no_calls(args[i]@, 1, preset_size_upto(args, i));
        lemma_preset_writes_no_calls(args, i + 1);
    }
}

/// Every call in shim B's body targets `original`, and sequence 2 makes one.
pub proof fn lemma_shim_b_calls(
    original: usize,
    global: usize,
    program_name: Seq<u8>,
    args: Seq<Vec<u8>>,
    preset_size: u32,
    n_args_bytes: u32,
    buf_size: u32,
)
    ensures
        forall|s: int, j: int|
            0 <= s < shim_b_seqs(original, global, program_name, args, preset_size, n_args_bytes, buf_size).len()
                && 0 <= j < shim_b_seqs(original, global, program_name, args, preset_size, n_args_bytes, buf_size)[s].len()
                ==> match #[trigger] shim_b_seqs(
                original,
                global,
                program_name,
                args,
                preset_size,
                n_args_bytes,
                buf_size,
            )[s][j] {
                Instr::Call { func } => func == original,
                _ => true,
            },
        shim_b_seqs(original, global, program_name, args, preset_size, n_args_bytes, buf_size)[2][7]
            == (Instr::Call { func: original }),
{
    lemma_preset_writes_no_calls(args, 0);
    lemma_store_bytes_no_calls(program_name, 1, preset_size as int);
}

/// Build the body of shim A. Locals 0 and 1 are the two i32 parameters
/// (`argc_ptr`, `argv_buf_size_ptr`); locals 2 and 3 hold the errno and the
/// loaded host argc.
pub fn build_shim_a_body(original: usize, global: usize, n_args: u32, new_argc: u32, buf_size: u32) -> (b: FuncBody)
    ensures
        b.locals@ == seq![ValKind::I32, ValKind::I32],
        b.seqs@.len() == 5,
        forall|s: int|
            0 <= s < 5 ==> (#[trigger] b.seqs@[s])@ == shim_a_seqs(
                original,
                global,
                n_args,
                new_argc,
                buf_size,
            )[s],
{
    let mut locals: Vec<ValKind> = Vec::new();
    locals.push(ValKind::I32);
    locals.push(ValKind::I32);
    proof {
        assert(locals@ =~= seq![ValKind::I32, ValKind::I32]);
    }

    let mut entry: Vec<Instr> = Vec::new();
    entry.push(Instr::LocalGet { local: 0 });
    entry.push(Instr::LocalGet { local: 1 });
    entry.push(Instr::Call { func: original });
    entry.push(Instr::LocalTee { local: 2 });
    entry.push(Instr::I32Eqz);
    entry.push(
        Instr::IfElse {
            result: BlockResult::One { kind: ValKind::I32 },
            then_seq: 1,
            else_seq: 2,
        },
    );
    proof {
        assert(entry@ =~= shim_a_entry(original));
    }

    let mut success: Vec<Instr> = Vec::new();
    success.push(Instr::LocalGet { local: 0 });
    success.push(Instr::I32Load);
    success.push(Instr::LocalTee { local: 3 });
    success.push(Instr::GlobalSet { global });
    success.push(Instr::LocalGet { local: 3 });
    success.push(Instr::I32Eqz);
    success.push(Instr::IfElse { result: BlockResult::Empty, then_seq: 3, else_seq: 4 });
    success.push(Instr::I32Const { value: 0 });
    proof {
        assert(success@ =~= shim_a_success(global));
    }

    let mut failure: Vec<Instr> = Vec::new();
    failure.push(Instr::LocalGet { local: 2 });
    proof {
        assert(failure@ =~= shim_a_failure());
    }

    let mut no_host: Vec<Instr> = Vec::new();
    no_host.push(Instr::LocalGet { local: 0 });
    no_host.push(Instr::I32Const { value: new_argc });
    no_host.push(Instr::I32Store);
    no_host.push(Instr::LocalGet { local: 1 });
    no_host.push(Instr::I32Const { value: buf_size });
    no_host.push(Instr::I32Store);
    proof {
        assert(no_host@ =~= shim_a_no_host_args(new_argc, buf_size));
    }

    let mut host: Vec<Instr> = Vec::new();
    host.push(Instr::LocalGet { local: 0 });
    host.push(Instr::LocalGet { local: 3 });
    host.push(Instr::I32Const { value: n_args });
    host.push(Instr::I32Add);
    host.push(Instr::I32Store);
    host.push(Instr::LocalGet { local: 1 });
    host.push(Instr::LocalGet { local: 1 });
    host.push(Instr::I32Load);
    host.push(Instr::I32Const { value: buf_size });
    host.push(Instr::I32Add);
    host.push(Instr::I32Store);
    proof {
        assert(host@ =~= shim_a_host_args(n_args, buf_size));
    }

    let mut seqs: Vec<Vec<Instr>> = Vec::new();
    seqs.push(entry);
    seqs.push(success);
    seqs.push(failure);
    seqs.push(no_host);
    seqs.push(host);
    FuncBody { locals, seqs }
}

/// Build the body of shim B. Locals 0 and 1 are the two i32 parameters
/// (`argv`, `argv_buf`); locals 2 and 3 hold the errno and `extra_argv`.
#[verifier::loop_isolation(false)]
pub fn build_shim_b_body(
    original: usize,
    global: usize,
    program_name: &Vec<u8>,
    args: &Vec<Vec<u8>>,
    preset_size: u32,
    n_args_bytes: u32,
    buf_size: u32,
) -> (b: FuncBody)
    requires
        preset_size as int == preset_size_upto(args@, args@.len() as int),
        preset_size as int + program_name@.len() <= u32::MAX,
        4 * (args@.len() + 1) <= u32::MAX,
    ensures
        b.locals@ == seq![ValKind::I32, ValKind::I32],
        b.seqs@.len() == 5,
        forall|s: int|
            0 <= s < 5 ==> (#[trigger] b.seqs@[s])@ == shim_b_seqs(
                original,
                global,
                program_name@,
                args@,
                preset_size,
                n_args_bytes,
                buf_size,
            )[s],
{
    let mut locals: Vec<ValKind> = Vec::new();
    locals.push(ValKind::I32);
    locals.push(ValKind::I32);
    proof {
        assert(locals@ =~= seq![ValKind::I32, ValKind::I32]);
    }

    let mut entry: Vec<Instr> = Vec::new();
    entry.push(Instr::GlobalGet { global });
    entry.push(Instr::I32Eqz);
    entry.push(Instr::IfElse { result: BlockResult::Empty, then_seq: 1, else_seq: 2 });

    // The per-argument writes: each argument's bytes at its running offset,
    // and its pointer into the argv slot after the ones before it.
    let mut offset: usize = 0;
    let mut i: usize = 0;
    proof {
        assert(entry@ + preset_writes_from(args@, 0) =~= entry@ + preset_writes_from(args@, 0));
    }
    let ghost entry0: Seq<Instr> = entry@;
    while i < args.len()
        invariant
            i <= args@.len(),
            offset as int == preset_size_upto(args@, i as int),
            entry@ + preset_writes_from(args@, i as int) == entry0 + preset_writes_from(args@, 0),
        decreases args@.len() - i,
    {
        proof {
            lemma_preset_size_upto_increases(args@, i + 1, args@.len() as int);
            lemma_preset_size_upto_nonneg(args@, i as int);
            assert(preset_size_upto(args@, i + 1) == offset + args@[i as int]@.len() + 1);
        }
        let ghost before: Seq<Instr> = entry@;
        store_string_at(&mut entry, &args[i], 1, offset);
        entry.push(Instr::LocalGet { local: 0 });
        entry.push(Instr::I32Const { value: (4 * (i + 1)) as u32 });
        entry.push(Instr::I32Add);
        entry.push(Instr::LocalGet { local: 1 });
        entry.push(Instr::I32Const { value: offset as u32 });
        entry.push(Instr::I32Add);
        entry.push(Instr::I32Store);
        proof {
            assert(entry@ =~= before + store_bytes_instrs(args@[i as int]@, 1, offset as int)
                + seq![
                Instr::LocalGet { local: 0 },
                Instr::I32Const { value: (4 * (i as int + 1)) as u32 },
                Instr::I32Add,
                Instr::LocalGet { local: 1 },
                Instr::I32Const { value: preset_size_upto(args@, i as int) as u32 },
                Instr::I32Add,
                Instr::I32Store,
            ]);
            assert(entry@ + preset_writes_from(args@, i + 1) =~= before + preset_writes_from(
                args@,
                i as int,
            ));
        }
        offset = offset + args[i].len() + 1;
        i = i + 1;
    }
    entry.push(Instr::I32Const { value: 0 });
    proof {
        assert(preset_writes_from(args@, args@.len() as int) =~= Seq::<Instr>::empty());
        assert(entry0 + preset_writes_from(args@, 0) =~= entry@.take(entry@.len() - 1));
        assert(entry@ =~= shim_b_entry(global, args@));
    }

    let mut no_host: Vec<Instr> = Vec::new();
    store_string_at(&mut no_host, program_name, 1, preset_size as usize);
    no_host.push(Instr::LocalGet { local: 0 });
    no_host.push(Instr::LocalGet { local: 1 });
    no_host.push(Instr::I32Const { value: preset_size });
    no_host.push(Instr::I32Add);
    no_host.push(Instr::I32Store);
    proof {
        assert(no_host@ =~= shim_b_no_host_args(program_name@, preset_size));
    }

    let mut host: Vec<Instr> = Vec::new();
    host.push(Instr::LocalGet { local: 0 });
    host.push(Instr::I32Const { value: n_args_bytes });
    host.push(Instr::I32Add);
    host.push(Instr::LocalTee { local: 3 });
    host.push(Instr::LocalGet { local: 1 });
    host.push(Instr::I32Const { value: buf_size });
    host.push(Instr::I32Add);
    host.push(Instr::Call { func: original });
    host.push(Instr::LocalTee { local: 2 });
    host.push(Instr::I32Eqz);
    host.push(Instr::IfElse { result: BlockResult::Empty, then_seq: 3, else_seq: 4 });
    proof {
        assert(host@ =~= shim_b_host_args(original, n_args_bytes, buf_size));
    }

    let mut fwd_ok: Vec<Instr> = Vec::new();
    fwd_ok.push(Instr::LocalGet { local: 0 });
    fwd_ok.push(Instr::LocalGet { local: 3 });
    fwd_ok.push(Instr::I32Load);
    fwd_ok.push(Instr::I32Store);
    proof {
        assert(fwd_ok@ =~= shim_b_forward_ok());
    }

    let mut fwd_err: Vec<Instr> = Vec::new();
    fwd_err.push(Instr::LocalGet { local: 2 });
    fwd_err.push(Instr::Return);
    proof {
        assert(fwd_err@ =~= shim_b_forward_err());
    }

    let mut seqs: Vec<Vec<Instr>> = Vec::new();
    seqs.push(entry);
    seqs.push(no_host);
    seqs.push(host);
    seqs.push(fwd_ok);
    seqs.push(fwd_err);
    FuncBody { locals, seqs }
}

} // verus!
