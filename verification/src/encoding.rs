use vstd::prelude::*;

use crate::module::Instr;

verus! {

/// 256 raised to `n`: the number of values `n` little-endian bytes can hold.
pub open spec fn pow256(n: nat) -> int
    decreases n,
{
    if n == 0 {
        1
    } else {
        256 * pow256((n - 1) as nat)
    }
}

/// The unsigned integer whose little-endian bytes are `s`.
pub open spec fn le_to_int(s: Seq<u8>) -> int
    decreases s.len(),
{
    if s.len() == 0 {
        0
    } else {
        s[0] + 256 * le_to_int(s.drop_first())
    }
}

/// The `n` little-endian bytes of `v` (its value modulo 256^n).
pub open spec fn le_bytes(v: int, n: nat) -> Seq<u8>
    decreases n,
{
    if n == 0 {
        Seq::empty()
    } else {
        seq![(v % 256) as u8] + le_bytes(v / 256, (n - 1) as nat)
    }
}

pub proof fn lemma_le_to_int_bound(s: Seq<u8>)
    ensures
        0 <= le_to_int(s) < pow256(s.len()),
    decreases s.len(),
{
    if s.len() == 0 {
    } else {
        lemma_le_to_int_bound(s.drop_first());
        assert(le_to_int(s) == s[0] + 256 * le_to_int(s.drop_first()));
        assert(pow256(s.len()) == 256 * pow256((s.len() - 1) as nat));
        assert(s[0] < 256);
        assert(le_to_int(s) < pow256(s.len())) by (nonlinear_arith)
            requires
                le_to_int(s) == s[0] + 256 * le_to_int(s.drop_first()),
                pow256(s.len()) == 256 * pow256((s.len() - 1) as nat),
                s[0] < 256,
                s.drop_first().len() == s.len() - 1,
                0 <= le_to_int(s.drop_first()) < pow256(s.drop_first().len()),
        ;
    }
}

/// Reading bytes as a little-endian integer and writing that integer back as
/// the same number of little-endian bytes reproduces the bytes.
pub proof fn lemma_le_round_trip(s: Seq<u8>)
    ensures
        le_bytes(le_to_int(s), s.len()) == s,
    decreases s.len(),
{
    if s.len() == 0 {
        assert(le_bytes(le_to_int(s), s.len()) =~= s);
    } else {
        let v = le_to_int(s);
        let r = le_to_int(s.drop_first());
        lemma_le_to_int_bound(s.drop_first());
        assert(v == s[0] + 256 * r);
        assert(v % 256 == s[0] && v / 256 == r) by (nonlinear_arith)
            requires
                v == s[0] + 256 * r,
                0 <= s[0] < 256,
                r >= 0,
        ;
        lemma_le_round_trip(s.drop_first());
        assert(le_bytes(v, s.len()) =~= s);
    }
}

/// The little-endian bytes of `v` depend only on `v` modulo 256^n.
#[verifier::rlimit(50)]
pub proof fn lemma_le_bytes_mod(v1: int, v2: int, n: nat)
    requires
        v1 % pow256(n) == v2 % pow256(n),
        v1 >= 0,
        v2 >= 0,
    ensures
        le_bytes(v1, n) == le_bytes(v2, n),
    decreases n,
{
    if n == 0 {
        assert(le_bytes(v1, n) =~= le_bytes(v2, n));
    } else {
        let p = pow256((n - 1) as nat);
        assert(pow256(n) == 256 * p);
        assert(p > 0) by {
            lemma_pow256_pos((n - 1) as nat);
        }
        vstd::arithmetic::div_mod::lemma_mod_breakdown(v1, 256, p);
        vstd::arithmetic::div_mod::lemma_mod_breakdown(v2, 256, p);
        assert(256 * ((v1 / 256) % p) + v1 % 256 == 256 * ((v2 / 256) % p) + v2 % 256);
        assert(0 <= v1 % 256 < 256 && 0 <= v2 % 256 < 256);
        assert((v1 / 256) % p >= 0 && (v2 / 256) % p >= 0) by {
            vstd::arithmetic::div_mod::lemma_mod_bound(v1 / 256, p);
            vstd::arithmetic::div_mod::lemma_mod_bound(v2 / 256, p);
            vstd::arithmetic::div_mod::lemma_div_pos_is_pos(v1, 256);
            vstd::arithmetic::div_mod::lemma_div_pos_is_pos(v2, 256);
        }
        assert(v1 % 256 == v2 % 256 && (v1 / 256) % p == (v2 / 256) % p) by (nonlinear_arith)
            requires
                256 * ((v1 / 256) % p) + v1 % 256 == 256 * ((v2 / 256) % p) + v2 % 256,
                0 <= v1 % 256 < 256,
                0 <= v2 % 256 < 256,
        ;
        lemma_le_bytes_mod(v1 / 256, v2 / 256, (n - 1) as nat);
        assert(le_bytes(v1, n) =~= le_bytes(v2, n));
    }
}

pub proof fn lemma_pow256_values()
    ensures
        pow256(0) == 1,
        pow256(1) == 0x100,
        pow256(2) == 0x1_0000,
        pow256(4) == 0x1_0000_0000,
        pow256(8) == 0x1_0000_0000_0000_0000,
{
    assert(pow256(0) == 1);
    assert(pow256(1) == 0x100);
    assert(pow256(2) == 0x1_0000);
    assert(pow256(3) == 0x100_0000);
    assert(pow256(4) == 0x1_0000_0000);
    assert(pow256(5) == 0x100_0000_0000);
    assert(pow256(6) == 0x1_0000_0000_0000);
    assert(pow256(7) == 0x100_0000_0000_0000);
    assert(pow256(8) == 0x1_0000_0000_0000_0000);
}

pub proof fn lemma_pow256_pos(n: nat)
    ensures
        pow256(n) > 0,
    decreases n,
{
    if n > 0 {
        lemma_pow256_pos((n - 1) as nat);
    }
}

/// Memory after writing `bytes` at address `addr`: the written range takes
/// the new bytes and every other address keeps its old byte.
pub open spec fn write_bytes(mem: Seq<u8>, addr: int, bytes: Seq<u8>) -> Seq<u8> {
    mem.update_subrange_with(addr, bytes)
}

/// How many bytes the widest-aligned-store strategy consumes next, out of
/// `rem` remaining: the largest of 8, 4, 2, 1 that fits.
pub open spec fn chunk_len(rem: nat) -> nat {
    if rem >= 8 {
        8
    } else if rem >= 4 {
        4
    } else if rem >= 2 {
        2
    } else {
        1
    }
}

/// Sign extension of a 16-bit value to 32 bits, as the encoder emits for a
/// 16-bit store immediate; the store only keeps the low 16 bits.
pub open spec fn sext16(v: int) -> int {
    if v >= 0x8000 {
        v + 0xffff_0000
    } else {
        v
    }
}

/// Sign extension of an 8-bit value to 32 bits.
pub open spec fn sext8(v: int) -> int {
    if v >= 0x80 {
        v + 0xffff_ff00
    } else {
        v
    }
}

/// The five instructions that store the chunk `c` (of 1, 2, 4 or 8 bytes) at
/// the address held in local `base` plus the constant `off`: compute the
/// address, then store the chunk's bytes as one little-endian immediate.
pub open spec fn chunk_instrs(c: Seq<u8>, base: usize, off: int) -> Seq<Instr> {
    seq![
        Instr::LocalGet { local: base },
        Instr::I32Const { value: off as u32 },
        Instr::I32Add,
    ] + (if c.len() == 8 {
        seq![Instr::I64Const { value: le_to_int(c) as u64 }, Instr::I64Store]
    } else if c.len() == 4 {
        seq![Instr::I32Const { value: le_to_int(c) as u32 }, Instr::I32Store]
    } else if c.len() == 2 {
        seq![Instr::I32Const { value: sext16(le_to_int(c)) as u32 }, Instr::I32Store16]
    } else {
        seq![Instr::I32Const { value: sext8(le_to_int(c)) as u32 }, Instr::I32Store8]
    })
}

/// The full widest-aligned-store encoding of the byte string `s` at the
/// address held in local `base` plus `off`: greedy chunks of 8, 4, 2, 1
/// bytes, each encoded as one immediate-bearing store.
pub open spec fn store_bytes_instrs(s: Seq<u8>, base: usize, off: int) -> Seq<Instr>
    decreases s.len(),
{
    if s.len() == 0 {
        Seq::empty()
    } else {
        let c = chunk_len(s.len());
        chunk_instrs(s.take(c as int), base, off) + store_bytes_instrs(
            s.skip(c as int),
            base,
            off + c,
        )
    }
}

/// The little-endian value of the `n` bytes of `s` starting at `start`.
#[verifier::loop_isolation(false)]
fn le_value(s: &Vec<u8>, start: usize, n: usize) -> (v: u64)
    requires
        start + n <= s@.len(),
        n <= 8,
    ensures
        v as int == le_to_int(s@.subrange(start as int, start + n)),
        (v as int) < pow256(n as nat),
{
    proof {
        assert(s@.len() == s.len());
        lemma_le_to_int_bound(s@.subrange(start as int, start + n));
    }
    let mut v: u64 = 0;
    let mut t: usize = n;
    while t > 0
        invariant
            t <= n,
            v as int == le_to_int(s@.subrange(start + t, start + n)),
            (v as int) < pow256((n - t) as nat),
        decreases t,
    {
        t = t - 1;
        let b = s[start + t];
        proof {
            let whole = s@.subrange(start + t, start + n);
            assert(whole.len() == n - t);
            assert(whole[0] == s@[start + t]);
            assert(whole.drop_first() =~= s@.subrange(start + t + 1, start + n));
            assert(le_to_int(whole) == b + 256 * le_to_int(whole.drop_first()));
            assert(pow256((n - t) as nat) == 256 * pow256((n - t - 1) as nat));
            assert(pow256((n - t) as nat) <= pow256(8)) by {
                lemma_pow256_increases((n - t) as nat, 8);
            }
            lemma_pow256_values();
        }
        v = v * 256 + b as u64;
    }
    proof {
        assert(s@.subrange(start as int, start + n) =~= s@.subrange(start + 0, start + n));
    }
    v
}

pub proof fn lemma_pow256_increases(a: nat, b: nat)
    requires
        a <= b,
    ensures
        pow256(a) <= pow256(b),
    decreases b,
{
    if a < b {
        lemma_pow256_increases(a, (b - 1) as nat);
        lemma_pow256_pos((b - 1) as nat);
    }
}

/// Append to `instrs` the widest-aligned-store encoding of `s` at the
/// address held in local `base` plus the constant offset `offset`.
#[verifier::loop_isolation(false)]
pub fn store_string_at(instrs: &mut Vec<Instr>, s: &Vec<u8>, base: usize, offset: usize)
    requires
        offset + s@.len() <= u32::MAX,
    ensures
        final(instrs)@ == old(instrs)@ + store_bytes_instrs(s@, base, offset as int),
{
    let mut written: usize = 0;
    proof {
        assert(s@.skip(0) =~= s@);
    }
    while written < s.len()
        invariant
            written <= s@.len(),
            instrs@ + store_bytes_instrs(s@.skip(written as int), base, offset + written) == old(
                instrs,
            )@ + store_bytes_instrs(s@, base, offset as int),
        decreases s@.len() - written,
    {
        let remaining = s.len() - written;
        let chunk: usize = if remaining >= 8 {
            8
        } else if remaining >= 4 {
            4
        } else if remaining >= 2 {
            2
        } else {
            1
        };
        let ghost rest: Seq<u8> = s@.skip(written as int);
        let ghost c: Seq<u8> = s@.subrange(written as int, written + chunk);
        proof {
            assert(chunk == chunk_len(rest.len()));
            assert(rest.take(chunk as int) =~= c);
            assert(rest.skip(chunk as int) =~= s@.skip(written + chunk));
            assert(store_bytes_instrs(rest, base, offset + written) == chunk_instrs(
                c,
                base,
                offset + written,
            ) + store_bytes_instrs(s@.skip(written + chunk), base, offset + written + chunk));
        }
        let ghost before: Seq<Instr> = instrs@;
        instrs.push(Instr::LocalGet { local: base });
        instrs.push(Instr::I32Const { value: (offset + written) as u32 });
        instrs.push(Instr::I32Add);
        if chunk == 8 {
            let v = le_value(s, written, 8);
            instrs.push(Instr::I64Const { value: v });
            instrs.push(Instr::I64Store);
            proof {
                assert(v as int == le_to_int(c));
                assert(v == le_to_int(c) as u64);
            }
        } else if chunk == 4 {
            let v = le_value(s, written, 4);
            instrs.push(Instr::I32Const { value: v as u32 });
            instrs.push(Instr::I32Store);
            proof {
                lemma_pow256_values();
                assert(v as u32 == le_to_int(c) as u32);
            }
        } else if chunk == 2 {
            let v = le_value(s, written, 2);
            proof {
                lemma_pow256_values();
            }
            let sx: u64 = if v >= 0x8000 {
                v + 0xffff_0000
            } else {
                v
            };
            instrs.push(Instr::I32Const { value: sx as u32 });
            instrs.push(Instr::I32Store16);
            proof {
                lemma_pow256_values();
                assert(sx as int == sext16(le_to_int(c)));
                assert(sx as u32 == sext16(le_to_int(c)) as u32);
            }
        } else {
            let v = le_value(s, written, 1);
            proof {
                lemma_pow256_values();
            }
            let sx: u64 = if v >= 0x80 {
                v + 0xffff_ff00
            } else {
                v
            };
            instrs.push(Instr::I32Const { value: sx as u32 });
            instrs.push(Instr::I32Store8);
            proof {
                lemma_pow256_values();
                assert(sx as int == sext8(le_to_int(c)));
                assert(sx as u32 == sext8(le_to_int(c)) as u32);
            }
        }
        proof {
            assert(instrs@ =~= before + chunk_instrs(c, base, offset + written));
            assert(instrs@ + store_bytes_instrs(s@.skip(written + chunk), base, offset + written
                + chunk) =~= before + store_bytes_instrs(rest, base, offset + written));
        }
        written = written + chunk;
    }
    proof {
        assert(s@.skip(written as int) =~= Seq::<u8>::empty());
        assert(store_bytes_instrs(s@.skip(written as int), base, offset + written)
            =~= Seq::<Instr>::empty());
        assert(final(instrs)@ =~= final(instrs)@ + Seq::<Instr>::empty());
        assert(old(instrs)@ + store_bytes_instrs(s@, base, offset as int) =~= final(instrs)@);
    }
}


/// One step of the straight-line machine the store encodings run on: an
/// operand stack of nonnegative integer values (an i32 as its 32-bit
/// unsigned pattern, an i64 as its 64-bit one), immutable locals, and a
/// byte-addressed linear memory. `None` is a trap: a missing local or
/// operand, an out-of-bounds store, or an instruction outside the
/// straight-line store fragment.
pub open spec fn exec_store_instr(
    i: Instr,
    locals: Seq<int>,
    stack: Seq<int>,
    mem: Seq<u8>,
) -> Option<(Seq<int>, Seq<u8>)> {
    match i {
        Instr::LocalGet { local } => if (local as int) < locals.len() {
            Some((stack.push(locals[local as int]), mem))
        } else {
            None
        },
        Instr::I32Const { value } => Some((stack.push(value as int), mem)),
        Instr::I64Const { value } => Some((stack.push(value as int), mem)),
        Instr::I32Add => if stack.len() >= 2 {
            let a = stack[stack.len() - 2];
            let b = stack[stack.len() - 1];
            Some((stack.take(stack.len() - 2).push((a + b) % 0x1_0000_0000), mem))
        } else {
            None
        },
        Instr::I32Store => store_step(stack, mem, 4),
        Instr::I32Store16 => store_step(stack, mem, 2),
        Instr::I32Store8 => store_step(stack, mem, 1),
        Instr::I64Store => store_step(stack, mem, 8),
        _ => None,
    }
}

/// A store of `width` bytes: pop the value and the address, write the
/// value's low `width` little-endian bytes at the address.
pub open spec fn store_step(stack: Seq<int>, mem: Seq<u8>, width: nat) -> Option<(Seq<int>, Seq<u8>)> {
    if stack.len() >= 2 {
        let addr = stack[stack.len() - 2];
        let v = stack[stack.len() - 1];
        if 0 <= addr && addr + width <= mem.len() && 0 <= v {
            Some((stack.take(stack.len() - 2), write_bytes(mem, addr, le_bytes(v, width))))
        } else {
            None
        }
    } else {
        None
    }
}

/// Run a straight-line instruction sequence to completion.
pub open spec fn exec_store_instrs(
    instrs: Seq<Instr>,
    locals: Seq<int>,
    stack: Seq<int>,
    mem: Seq<u8>,
) -> Option<(Seq<int>, Seq<u8>)>
    decreases instrs.len(),
{
    if instrs.len() == 0 {
        Some((stack, mem))
    } else {
        match exec_store_instr(instrs[0], locals, stack, mem) {
            None => None,
            Some((stack2, mem2)) => exec_store_instrs(instrs.drop_first(), locals, stack2, mem2),
        }
    }
}

proof fn lemma_exec_append(a: Seq<Instr>, b: Seq<Instr>, locals: Seq<int>, stack: Seq<int>, mem: Seq<u8>)
    ensures
        exec_store_instrs(a + b, locals, stack, mem) == (match exec_store_instrs(
            a,
            locals,
            stack,
            mem,
        ) {
            None => None,
            Some((stack2, mem2)) => exec_store_instrs(b, locals, stack2, mem2),
        }),
    decreases a.len(),
{
    if a.len() == 0 {
        assert(a + b =~= b);
    } else {
        assert((a + b)[0] == a[0]);
        assert((a + b).drop_first() =~= a.drop_first() + b);
        match exec_store_instr(a[0], locals, stack, mem) {
            None => {},
            Some((stack2, mem2)) => {
                lemma_exec_append(a.drop_first(), b, locals, stack2, mem2);
            },
        }
    }
}

/// Running the five instructions that store one chunk writes exactly the
/// chunk's bytes at `locals[base] + off` and leaves the stack as it was.
proof fn lemma_chunk_exec(
    c: Seq<u8>,
    base: usize,
    off: int,
    locals: Seq<int>,
    stack: Seq<int>,
    mem: Seq<u8>,
)
    requires
        c.len() == 1 || c.len() == 2 || c.len() == 4 || c.len() == 8,
        (base as int) < locals.len(),
        0 <= locals[base as int],
        0 <= off <= u32::MAX,
        locals[base as int] + off + c.len() <= mem.len(),
        mem.len() <= 0x1_0000_0000,
    ensures
        exec_store_instrs(chunk_instrs(c, base, off), locals, stack, mem) == Some(
            (stack, write_bytes(mem, locals[base as int] + off, c)),
        ),
{
    lemma_pow256_values();
    lemma_le_to_int_bound(c);
    lemma_le_round_trip(c);
    let bv = locals[base as int];
    let addr = bv + off;
    let le = le_to_int(c);
    let imm: int = if c.len() == 8 {
        le
    } else if c.len() == 4 {
        le
    } else if c.len() == 2 {
        sext16(le)
    } else {
        sext8(le)
    };
    let width: nat = c.len();
    let prefix = seq![
        Instr::LocalGet { local: base },
        Instr::I32Const { value: off as u32 },
        Instr::I32Add,
    ];
    let suffix = chunk_instrs(c, base, off).skip(3);
    assert(chunk_instrs(c, base, off) =~= prefix + suffix);
    // The address computation, one step at a time.
    let s1 = stack.push(bv);
    let s2 = s1.push(off);
    assert(off as u32 as int == off);
    assert((bv + off) % 0x1_0000_0000 == addr) by {
        vstd::arithmetic::div_mod::lemma_small_mod((bv + off) as nat, 0x1_0000_0000nat);
    }
    assert(s2[s2.len() - 2] == bv && s2[s2.len() - 1] == off);
    assert(s2.take(s2.len() - 2) =~= stack);
    let s3 = stack.push(addr);
    assert(exec_store_instr(Instr::I32Add, locals, s2, mem) == Some((s3, mem)));
    let tail1 = prefix.drop_first();
    let tail2 = tail1.drop_first();
    assert(tail2.drop_first() =~= Seq::<Instr>::empty());
    assert(exec_store_instrs(tail2.drop_first(), locals, s3, mem) == Some((s3, mem)));
    assert(tail2[0] == Instr::I32Add);
    assert(exec_store_instrs(tail2, locals, s2, mem) == Some((s3, mem)));
    assert(tail1[0] == (Instr::I32Const { value: off as u32 }));
    assert(exec_store_instrs(tail1, locals, s1, mem) == Some((s3, mem)));
    assert(prefix[0] == (Instr::LocalGet { local: base }));
    assert(exec_store_instrs(prefix, locals, stack, mem) == Some((s3, mem)));
    lemma_exec_append(prefix, suffix, locals, stack, mem);
    // The immediate and the store, one step at a time.
    let s4 = stack.push(addr);
    let s5 = s4.push(imm);
    assert(suffix.len() == 2);
    assert(s5[s5.len() - 2] == addr && s5[s5.len() - 1] == imm);
    assert(s5.take(s5.len() - 2) =~= stack);
    assert(0 <= imm);
    assert(store_step(s5, mem, width) == Some((stack, write_bytes(mem, addr, le_bytes(imm, width)))));
    let stail1 = suffix.drop_first();
    assert(stail1.len() == 1 && stail1[0] == suffix[1]);
    assert(stail1.drop_first() =~= Seq::<Instr>::empty());
    // The pushed immediate is `imm`, whatever the width.
    if c.len() == 8 {
        assert(suffix[0] == (Instr::I64Const { value: le as u64 }));
        assert(le as u64 as int == imm);
        assert(le_bytes(imm, width) == c);
    } else if c.len() == 4 {
        assert(suffix[0] == (Instr::I32Const { value: le as u32 }));
        assert(le as u32 as int == imm);
        assert(le_bytes(imm, width) == c);
    } else if c.len() == 2 {
        assert(suffix[0] == (Instr::I32Const { value: sext16(le) as u32 }));
        assert(sext16(le) as u32 as int == imm);
        assert(imm % 0x1_0000 == le % 0x1_0000) by {
            if le >= 0x8000 {
                assert(imm == le + 0x1_0000 * 0xffff);
                vstd::arithmetic::div_mod::lemma_mod_multiples_vanish(0xffff, le, 0x1_0000);
            }
        }
        assert(le % 0x1_0000 == le) by {
            vstd::arithmetic::div_mod::lemma_small_mod(le as nat, 0x1_0000nat);
        }
        lemma_le_bytes_mod(imm, le, 2);
        assert(le_bytes(imm, width) == c);
    } else {
        assert(suffix[0] == (Instr::I32Const { value: sext8(le) as u32 }));
        assert(sext8(le) as u32 as int == imm);
        assert(imm % 0x100 == le % 0x100) by {
            if le >= 0x80 {
                assert(imm == le + 0x100 * 0xffffff);
                vstd::arithmetic::div_mod::lemma_mod_multiples_vanish(0xffffff, le, 0x100);
            }
        }
        assert(le % 0x100 == le) by {
            vstd::arithmetic::div_mod::lemma_small_mod(le as nat, 0x100nat);
        }
        lemma_le_bytes_mod(imm, le, 1);
        assert(le_bytes(imm, width) == c);
    }
    // The store opcode matches the chunk width, so one step consumes the
    // value and the address and writes the chunk.
    if c.len() == 8 {
        assert(suffix[1] == Instr::I64Store);
    } else if c.len() == 4 {
        assert(suffix[1] == Instr::I32Store);
    } else if c.len() == 2 {
        assert(suffix[1] == Instr::I32Store16);
    } else {
        assert(suffix[1] == Instr::I32Store8);
    }
    assert(exec_store_instr(suffix[1], locals, s5, mem) == Some(
        (stack, write_bytes(mem, addr, c)),
    ));
    assert(exec_store_instrs(stail1.drop_first(), locals, stack, write_bytes(mem, addr, c))
        == Some((stack, write_bytes(mem, addr, c))));
    assert(exec_store_instrs(stail1, locals, s5, mem) == Some(
        (stack, write_bytes(mem, addr, c)),
    ));
    assert(exec_store_instr(suffix[0], locals, s4, mem) == Some((s5, mem)));
    assert(exec_store_instrs(suffix, locals, s4, mem) == Some(
        (stack, write_bytes(mem, addr, c)),
    ));
}

/// The widest-aligned-store encoding of any byte string `s` reconstructs
/// `s` exactly in memory, starting at the address held in local `base` plus
/// the static offset `off`: running the emitted instructions traps nowhere,
/// writes the bytes of `s` at `locals[base] + off`, leaves every other byte
/// of the memory untouched, and leaves the operand stack as it found it.
pub proof fn lemma_store_bytes_reconstruct(
    s: Seq<u8>,
    base: usize,
    off: int,
    locals: Seq<int>,
    stack: Seq<int>,
    mem: Seq<u8>,
)
    requires
        (base as int) < locals.len(),
        0 <= locals[base as int],
        0 <= off,
        locals[base as int] + off + s.len() <= mem.len(),
        mem.len() <= 0x1_0000_0000,
    ensures
        exec_store_instrs(store_bytes_instrs(s, base, off), locals, stack, mem) == Some(
            (stack, write_bytes(mem, locals[base as int] + off, s)),
        ),
    decreases s.len(),
{
    let bv = locals[base as int];
    if s.len() == 0 {
        assert(write_bytes(mem, bv + off, s) =~= mem);
    } else {
        let c = chunk_len(s.len());
        let chunk = s.take(c as int);
        let rest = s.skip(c as int);
        lemma_chunk_exec(chunk, base, off, locals, stack, mem);
        lemma_exec_append(
            chunk_instrs(chunk, base, off),
            store_bytes_instrs(rest, base, off + c),
            locals,
            stack,
            mem,
        );
        let mem1 = write_bytes(mem, bv + off, chunk);
        assert(mem1.len() == mem.len());
        lemma_store_bytes_reconstruct(rest, base, off + c, locals, stack, mem1);
        assert(write_bytes(mem1, bv + (off + c), rest) =~= write_bytes(mem, bv + off, s));
    }
}

} // verus!
