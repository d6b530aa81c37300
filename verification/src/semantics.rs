use vstd::prelude::*;

use crate::PresetArgs;

verus! {

/// Copy a byte string.
#[verifier::loop_isolation(false)]
fn clone_bytes(v: &Vec<u8>) -> (r: Vec<u8>)
    ensures
        r@ == v@,
{
    let mut r: Vec<u8> = Vec::new();
    let mut i: usize = 0;
    while i < v.len()
        invariant
            i <= v@.len(),
            r@ == v@.subrange(0, i as int),
        decreases v@.len() - i,
    {
        r.push(v[i]);
        proof {
            assert(r@ =~= v@.subrange(0, i + 1));
        }
        i += 1;
    }
    proof {
        assert(v@.subrange(0, v@.len() as int) =~= v@);
    }
    r
}

/// The value shim A stores into `*argv_buf_size_ptr` when the host reports
/// no arguments — the full argv buffer size — equals the program-name bytes
/// plus the preset bytes, which are exactly the two regions shim B fills in
/// that case. (The two expressions are equal by the definition of the argv
/// buffer size; the shim stores the former.)
pub proof fn lemma_argv_buf_size_decomposition(p: PresetArgs)
    ensures
        p.argv_buf_size_spec() == (p.program_name@.len() + 1) + p.preset_args_size_spec(),
{
}

/// What a caller of the rewritten module observes from `args_sizes_get`:
/// given the argument count and buffer size a conforming host reports, the
/// count and buffer size the installed shim reports. With a host count of
/// zero the program name takes `argv[0]`, so the count is one more than the
/// presets and the buffer is exactly the program-name and preset bytes;
/// otherwise both grow by the presets' worth (the argv buffer size, since
/// the program-name region is reserved whether or not it is used).
pub fn args_sizes_outcome(p: &PresetArgs, host_argc: u32, host_buf_size: u32) -> (r: (u32, u32))
    requires
        p.wf(),
        host_argc + p.args@.len() <= u32::MAX,
        host_buf_size + p.argv_buf_size_spec() <= u32::MAX,
    ensures
        host_argc == 0 ==> r.0 as int == 1 + p.args@.len() && r.1 as int == p.argv_buf_size_spec(),
        host_argc > 0 ==> r.0 as int == host_argc + p.args@.len() && r.1 as int == host_buf_size
            + p.argv_buf_size_spec(),
{
    let n = p.args.len();
    let abs = p.argv_buf_size();
    if host_argc == 0 {
        ((1 + n) as u32, abs as u32)
    } else {
        (host_argc + n as u32, host_buf_size + abs as u32)
    }
}

/// What a caller of the rewritten module observes from `args_get`: the
/// argument list the installed shim presents, given the list a conforming
/// host supplies. With no host arguments it is the program name followed by
/// the presets; otherwise it is the host's first argument (the real program
/// name), the presets, and then the host's remaining arguments.
#[verifier::loop_isolation(false)]
pub fn args_get_outcome(p: &PresetArgs, host_args: &Vec<Vec<u8>>) -> (r: Vec<Vec<u8>>)
    ensures
        r@.len() == (if host_args@.len() == 0 {
            1int
        } else {
            host_args@.len() as int
        }) + p.args@.len(),
        (#[trigger] r@[0])@ == (if host_args@.len() == 0 {
            p.program_name@
        } else {
            host_args@[0]@
        }),
        forall|i: int| 0 <= i < p.args@.len() ==> (#[trigger] r@[i + 1])@ == p.args@[i]@,
        forall|k: int|
            1 <= k < host_args@.len() ==> (#[trigger] r@[p.args@.len() + k])@ == host_args@[k]@,
{
    let mut r: Vec<Vec<u8>> = Vec::new();
    if host_args.len() == 0 {
        r.push(clone_bytes(&p.program_name));
    } else {
        r.push(clone_bytes(&host_args[0]));
    }
    let mut i: usize = 0;
    while i < p.args.len()
        invariant
            i <= p.args@.len(),
            r@.len() == 1 + i,
            (r@[0])@ == (if host_args@.len() == 0 {
                p.program_name@
            } else {
                host_args@[0]@
            }),
            forall|t: int| 0 <= t < i ==> (#[trigger] r@[t + 1])@ == p.args@[t]@,
        decreases p.args@.len() - i,
    {
        r.push(clone_bytes(&p.args[i]));
        i += 1;
    }
    let mut k: usize = 1;
    while k < host_args.len()
        invariant
            1 <= k,
            host_args@.len() > 0 ==> k <= host_args@.len(),
            host_args@.len() == 0 ==> k == 1,
            r@.len() == (if host_args@.len() == 0 {
                1int
            } else {
                k as int
            }) + p.args@.len(),
            (r@[0])@ == (if host_args@.len() == 0 {
                p.program_name@
            } else {
                host_args@[0]@
            }),
            forall|t: int| 0 <= t < p.args@.len() ==> (#[trigger] r@[t + 1])@ == p.args@[t]@,
            forall|t: int|
                1 <= t < k && t < host_args@.len() ==> (#[trigger] r@[p.args@.len() + t])@
                    == host_args@[t]@,
        decreases host_args@.len() - k,
    {
        r.push(clone_bytes(&host_args[k]));
        k += 1;
    }
    r
}

} // verus!
