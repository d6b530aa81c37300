use vstd::prelude::*;

use crate::module::{
    body_calls, element_subst, export_subst, func_calls, function_subst, instr_subst, map_subst,
    module_subst, ElementSegment, Export, FuncBody, FuncKind, Function, Instr, WasmModule,
    ExportItem, seq_has_call,
};

verus! {

broadcast use vstd::seq_lib::lemma_seq_contains_after_push;

/// One place in a module that references a function: a direct call in some
/// caller's body, a slot of an element segment, or an export.
#[derive(Clone, Copy, Debug, PartialEq, Eq, Structural)]
pub enum FunctionUse {
    Call { caller: usize },
    InElement { element: usize, index: usize },
    Export { export: usize },
}

/// A reverse index from a function to the set of places that reference it.
/// `uses[callee]` lists the recorded uses of function `callee`; a function
/// index at or beyond `uses.len()` has no recorded uses. Each list is free
/// of duplicates, so it represents a set.
#[derive(Clone, Debug)]
pub struct CallGraph {
    pub uses: Vec<Vec<FunctionUse>>,
}

/// Whether the graph records `u` as a use of `callee`.
pub open spec fn graph_has(g: CallGraph, callee: usize, u: FunctionUse) -> bool {
    (callee as int) < g.uses@.len() && g.uses@[callee as int]@.contains(u)
}

/// Whether a use list is free of duplicates.
pub open spec fn no_dup_uses(s: Seq<FunctionUse>) -> bool {
    forall|a: int, b: int| 0 <= a < b < s.len() ==> s[a] != s[b]
}

/// Whether every use list of the graph is free of duplicates.
pub open spec fn graph_dedup(g: CallGraph) -> bool {
    forall|c: int| 0 <= c < g.uses@.len() ==> no_dup_uses(#[trigger] g.uses@[c]@)
}

/// Whether `u` genuinely is a use of `callee` in module `m`: a direct call
/// in a locally defined function's body, an occupied element-segment slot,
/// or a function export.
pub open spec fn is_module_use(m: WasmModule, callee: usize, u: FunctionUse) -> bool {
    match u {
        FunctionUse::Call { caller } => func_calls(m, caller as int, callee),
        FunctionUse::InElement { element, index } => {
            &&& (element as int) < m.elements@.len()
            &&& (index as int) < m.elements@[element as int].members@.len()
            &&& m.elements@[element as int].members@[index as int] == Some(callee)
        },
        FunctionUse::Export { export } => {
            &&& (export as int) < m.exports@.len()
            &&& m.exports@[export as int].item == (ExportItem::Func { func: callee })
        },
    }
}

/// Whether `u` is a `Call` use of `callee` attributed to a caller below `i`.
pub open spec fn call_use_in_prefix(m: WasmModule, callee: usize, u: FunctionUse, i: int) -> bool {
    match u {
        FunctionUse::Call { caller } => (caller as int) < i && func_calls(m, caller as int, callee),
        _ => false,
    }
}

/// Whether the first `j` instructions of `s` contain a direct call to `callee`.
pub open spec fn seq_has_call_upto(s: Seq<Instr>, callee: usize, j: int) -> bool {
    exists|t: int| 0 <= t < j && t < s.len() && s[t] == (Instr::Call { func: callee })
}

/// Whether body `b` contains a call to `callee` before position (`s`, `j`)
/// in its sequence-major traversal.
pub open spec fn body_calls_upto(b: FuncBody, callee: usize, s: int, j: int) -> bool {
    ||| (exists|t: int| 0 <= t < s && t < b.seqs@.len() && seq_has_call(b.seqs@[t]@, callee))
    ||| (0 <= s < b.seqs@.len() && seq_has_call_upto(b.seqs@[s]@, callee, j))
}

/// Whether `u` is an element use of `callee` located before slot (`e`, `j`).
pub open spec fn elem_use_in_prefix(m: WasmModule, callee: usize, u: FunctionUse, e: int, j: int) -> bool {
    match u {
        FunctionUse::InElement { element, index } => {
            &&& is_module_use(m, callee, u)
            &&& ((element as int) < e || ((element as int) == e && (index as int) < j))
        },
        _ => false,
    }
}

/// Whether `u` is an export use of `callee` among the first `x` exports.
pub open spec fn export_use_in_prefix(m: WasmModule, callee: usize, u: FunctionUse, x: int) -> bool {
    match u {
        FunctionUse::Export { export } => is_module_use(m, callee, u) && (export as int) < x,
        _ => false,
    }
}

/// Linear membership test on a use list.
#[verifier::loop_isolation(false)]
fn vec_contains_use(v: &Vec<FunctionUse>, u: FunctionUse) -> (r: bool)
    ensures
        r == v@.contains(u),
{
    let mut k: usize = 0;
    while k < v.len()
        invariant
            k <= v@.len(),
            forall|t: int| 0 <= t < k ==> v@[t] != u,
        decreases v@.len() - k,
    {
        if v[k] == u {
            return true;
        }
        k += 1;
    }
    false
}

impl CallGraph {
    /// An empty index: no function has any recorded use.
    pub fn new() -> (g: CallGraph)
        ensures
            graph_dedup(g),
            forall|c: usize, u: FunctionUse| !graph_has(g, c, u),
    {
        CallGraph { uses: Vec::new() }
    }

    /// The recorded uses of `func_id`, or `None` when none were recorded.
    pub fn get_func_uses(&self, func_id: usize) -> (r: Option<&Vec<FunctionUse>>)
        ensures
            match r {
                Some(v) => forall|u: FunctionUse| v@.contains(u) == graph_has(*self, func_id, u),
                None => forall|u: FunctionUse| !graph_has(*self, func_id, u),
            },
    {
        if func_id < self.uses.len() {
            Some(&self.uses[func_id])
        } else {
            None
        }
    }

    /// Record `use_entry` as a use of `callee`; a duplicate is silently
    /// absorbed.
    #[verifier::loop_isolation(false)]
    pub fn add_use(&mut self, callee: usize, use_entry: FunctionUse)
        requires
            graph_dedup(*old(self)),
        ensures
            graph_dedup(*final(self)),
            forall|c: usize, u: FunctionUse|
                graph_has(*final(self), c, u) == (graph_has(*old(self), c, u) || (c == callee && u
                    == use_entry)),
    {
        while self.uses.len() <= callee
            invariant
                graph_dedup(*self),
                forall|c: usize, u: FunctionUse|
                    graph_has(*self, c, u) == graph_has(*old(self), c, u),
            decreases callee + 1 - self.uses@.len(),
        {
            self.uses.push(Vec::new());
        }
        let present = vec_contains_use(&self.uses[callee], use_entry);
        if !present {
            self.uses[callee].push(use_entry);
        }
        assert forall|c: usize, u: FunctionUse|
            graph_has(*self, c, u) == (graph_has(*old(self), c, u) || (c == callee && u
                == use_entry)) by {
            if c != callee {
                assert(graph_has(*self, c, u) == graph_has(*old(self), c, u));
            }
        }
    }

    /// Build the reverse index of `module`: for every direct call in a
    /// locally defined body, every occupied element-segment slot and every
    /// function export, exactly one use record, and nothing else.
    #[verifier::loop_isolation(false)]
    pub fn build_from(module: &WasmModule) -> (g: CallGraph)
        ensures
            graph_dedup(g),
            forall|c: usize, u: FunctionUse| graph_has(g, c, u) == is_module_use(*module, c, u),
    {
        let mut g = CallGraph::new();

        // Direct calls, walked function by function, sequence by sequence.
        let mut i: usize = 0;
        while i < module.funcs.len()
            invariant
                i <= module.funcs@.len(),
                graph_dedup(g),
                forall|c: usize, u: FunctionUse|
                    graph_has(g, c, u) == call_use_in_prefix(*module, c, u, i as int),
            decreases module.funcs@.len() - i,
        {
            match &module.funcs[i].kind {
                FuncKind::Local { body } => {
                    let ghost b: FuncBody = *body;
                    let mut s: usize = 0;
                    while s < body.seqs.len()
                        invariant
                            s <= b.seqs@.len(),
                            graph_dedup(g),
                            forall|c: usize, u: FunctionUse|
                                graph_has(g, c, u) == (call_use_in_prefix(*module, c, u, i as int)
                                    || (u == (FunctionUse::Call { caller: i }) && body_calls_upto(
                                    b,
                                    c,
                                    s as int,
                                    0,
                                ))),
                        decreases b.seqs@.len() - s,
                    {
                        let mut j: usize = 0;
                        while j < body.seqs[s].len()
                            invariant
                                j <= b.seqs@[s as int]@.len(),
                                graph_dedup(g),
                                forall|c: usize, u: FunctionUse|
                                    graph_has(g, c, u) == (call_use_in_prefix(
                                        *module,
                                        c,
                                        u,
                                        i as int,
                                    ) || (u == (FunctionUse::Call { caller: i })
                                        && body_calls_upto(b, c, s as int, j as int))),
                            decreases b.seqs@[s as int]@.len() - j,
                        {
                            match body.seqs[s][j] {
                                Instr::Call { func } => {
                                    g.add_use(func, FunctionUse::Call { caller: i });
                                },
                                _ => {},
                            }
                            assert forall|c: usize, u: FunctionUse|
                                graph_has(g, c, u) == (call_use_in_prefix(*module, c, u, i as int)
                                    || (u == (FunctionUse::Call { caller: i }) && body_calls_upto(
                                    b,
                                    c,
                                    s as int,
                                    j + 1,
                                ))) by {
                                if body_calls_upto(b, c, s as int, j + 1) && !body_calls_upto(
                                    b,
                                    c,
                                    s as int,
                                    j as int,
                                ) {
                                    assert(b.seqs@[s as int]@[j as int] == (Instr::Call {
                                        func: c,
                                    }));
                                }
                            }
                            j += 1;
                        }
                        assert forall|c: usize|
                            (body_calls_upto(b, c, s as int, b.seqs@[s as int]@.len() as int))
                                == #[trigger] body_calls_upto(b, c, s + 1, 0) by {
                            if body_calls_upto(b, c, s as int, b.seqs@[s as int]@.len() as int) {
                                assert(body_calls_upto(b, c, s + 1, 0));
                            }
                            if body_calls_upto(b, c, s + 1, 0) {
                                let t = choose|t: int|
                                    0 <= t < s + 1 && t < b.seqs@.len() && seq_has_call(
                                        b.seqs@[t]@,
                                        c,
                                    );
                                if t == s {
                                    assert(seq_has_call_upto(
                                        b.seqs@[s as int]@,
                                        c,
                                        b.seqs@[s as int]@.len() as int,
                                    ));
                                }
                            }
                        }
                        s += 1;
                    }
                    assert forall|c: usize|
                        body_calls_upto(b, c, b.seqs@.len() as int, 0) == func_calls(
                            *module,
                            i as int,
                            c,
                        ) by {}
                },
                FuncKind::Imported { .. } => {},
            }
            assert forall|c: usize, u: FunctionUse|
                call_use_in_prefix(*module, c, u, i + 1) == (call_use_in_prefix(
                    *module,
                    c,
                    u,
                    i as int,
                ) || (u == (FunctionUse::Call { caller: i }) && func_calls(
                    *module,
                    i as int,
                    c,
                ))) by {}
            i += 1;
        }

        // Element-segment slots.
        let mut e: usize = 0;
        while e < module.elements.len()
            invariant
                e <= module.elements@.len(),
                graph_dedup(g),
                forall|c: usize, u: FunctionUse|
                    graph_has(g, c, u) == (call_use_in_prefix(
                        *module,
                        c,
                        u,
                        module.funcs@.len() as int,
                    ) || elem_use_in_prefix(*module, c, u, e as int, 0)),
            decreases module.elements@.len() - e,
        {
            let mut j: usize = 0;
            while j < module.elements[e].members.len()
                invariant
                    j <= module.elements@[e as int].members@.len(),
                    graph_dedup(g),
                    forall|c: usize, u: FunctionUse|
                        graph_has(g, c, u) == (call_use_in_prefix(
                            *module,
                            c,
                            u,
                            module.funcs@.len() as int,
                        ) || elem_use_in_prefix(*module, c, u, e as int, j as int)),
                decreases module.elements@[e as int].members@.len() - j,
            {
                match module.elements[e].members[j] {
                    Some(member) => {
                        g.add_use(member, FunctionUse::InElement { element: e, index: j });
                    },
                    None => {},
                }
                j += 1;
            }
            e += 1;
        }

        // Function exports.
        let mut x: usize = 0;
        while x < module.exports.len()
            invariant
                x <= module.exports@.len(),
                graph_dedup(g),
                forall|c: usize, u: FunctionUse|
                    graph_has(g, c, u) == (call_use_in_prefix(
                        *module,
                        c,
                        u,
                        module.funcs@.len() as int,
                    ) || elem_use_in_prefix(
                        *module,
                        c,
                        u,
                        module.elements@.len() as int,
                        0,
                    ) || export_use_in_prefix(*module, c, u, x as int)),
            decreases module.exports@.len() - x,
        {
            match module.exports[x].item {
                ExportItem::Func { func } => {
                    g.add_use(func, FunctionUse::Export { export: x });
                },
                _ => {},
            }
            x += 1;
        }

        assert forall|c: usize, u: FunctionUse|
            graph_has(g, c, u) == is_module_use(*module, c, u) by {
            match u {
                FunctionUse::Call { caller } => {},
                FunctionUse::InElement { element, index } => {},
                FunctionUse::Export { export } => {},
            }
        }
        g
    }
}

/// Whether no two pairs of `map` share a source (`from`) function.
pub open spec fn keys_distinct(map: Seq<(usize, usize)>) -> bool {
    forall|a: int, b: int| 0 <= a < b < map.len() ==> (#[trigger] map[a]).0 != (#[trigger] map[b]).0
}

/// Whether no replacement target of `map` is itself replaced by `map`.
/// The two-phase rewrite of the transform always maps onto freshly added
/// functions, so this holds there by construction.
pub open spec fn images_not_keys(map: Seq<(usize, usize)>) -> bool {
    forall|a: int, b: int|
        0 <= a < map.len() && 0 <= b < map.len() ==> (#[trigger] map[a]).1 != (#[trigger] map[b]).0
}

/// Whether the graph records exactly the uses present in `m` for every
/// source function of `map`.
pub open spec fn graph_accurate_for_keys(
    g: CallGraph,
    m: WasmModule,
    map: Seq<(usize, usize)>,
) -> bool {
    forall|kk: int, u: FunctionUse|
        0 <= kk < map.len() ==> (#[trigger] graph_has(g, map[kk].0, u)) == is_module_use(
            m,
            map[kk].0,
            u,
        )
}

/// Whether a worklist holds no function twice.
pub open spec fn no_dup_usizes(s: Seq<usize>) -> bool {
    forall|a: int, b: int| 0 <= a < b < s.len() ==> s[a] != s[b]
}

proof fn lemma_map_subst_prefix_miss(map: Seq<(usize, usize)>, f: usize, k: int)
    requires
        0 <= k <= map.len(),
        forall|t: int| 0 <= t < k ==> (#[trigger] map[t]).0 != f,
    ensures
        map_subst(map, f) == map_subst(map.skip(k), f),
    decreases k,
{
    if k == 0 {
        assert(map.skip(0) =~= map);
    } else {
        assert(map[0].0 != f);
        assert(map.drop_first() =~= map.skip(1));
        lemma_map_subst_prefix_miss(map.skip(1), f, k - 1);
        assert(map.skip(1).skip(k - 1) =~= map.skip(k));
    }
}

proof fn lemma_map_subst_key_at(map: Seq<(usize, usize)>, k: int)
    requires
        0 <= k < map.len(),
        forall|t: int| 0 <= t < k ==> (#[trigger] map[t]).0 != map[k].0,
    ensures
        map_subst(map, map[k].0) == map[k].1,
{
    lemma_map_subst_prefix_miss(map, map[k].0, k);
    assert(map.skip(k)[0] == map[k]);
}

proof fn lemma_map_subst_nonkey(map: Seq<(usize, usize)>, f: usize)
    requires
        forall|t: int| 0 <= t < map.len() ==> (#[trigger] map[t]).0 != f,
    ensures
        map_subst(map, f) == f,
{
    lemma_map_subst_prefix_miss(map, f, map.len() as int);
    assert(map.skip(map.len() as int) =~= Seq::<(usize, usize)>::empty());
}

proof fn lemma_map_subst_cases(map: Seq<(usize, usize)>, f: usize)
    ensures
        map_subst(map, f) == f || exists|t: int|
            0 <= t < map.len() && (#[trigger] map[t]).1 == map_subst(map, f),
    decreases map.len(),
{
    if map.len() == 0 {
    } else if map[0].0 == f {
        assert(map[0].1 == map_subst(map, f));
    } else {
        lemma_map_subst_cases(map.drop_first(), f);
        if map_subst(map.drop_first(), f) != f {
            let t = choose|t: int|
                0 <= t < map.drop_first().len() && (#[trigger] map.drop_first()[t]).1 == map_subst(
                    map.drop_first(),
                    f,
                );
            assert(map[t + 1].1 == map_subst(map, f));
        }
    }
}

proof fn lemma_map_subst_push(map: Seq<(usize, usize)>, p: (usize, usize), f: usize)
    requires
        images_not_keys(map.push(p)),
    ensures
        map_subst(map.push(p), f) == (if map_subst(map, f) == p.0 {
            p.1
        } else {
            map_subst(map, f)
        }),
    decreases map.len(),
{
    if map.len() == 0 {
        assert(map.push(p)[0] == p);
        assert(map.push(p).len() == 1);
        if p.0 != f {
            assert(map.push(p).drop_first() =~= Seq::<(usize, usize)>::empty());
            assert(map_subst(map.push(p), f) == map_subst(map.push(p).drop_first(), f));
            assert(map_subst(map.push(p), f) == f);
        } else {
            assert(map_subst(map.push(p), f) == p.1);
        }
        assert(map_subst(map, f) == f);
    } else {
        assert(map.push(p)[0] == map[0]);
        if map[0].0 == f {
            assert(map.push(p)[map.len() as int] == p);
            assert((map.push(p)[0]).1 != (map.push(p)[map.len() as int]).0);
            assert(map_subst(map.push(p), f) == map[0].1);
            assert(map_subst(map, f) == map[0].1);
        } else {
            assert(map.push(p).drop_first() =~= map.drop_first().push(p));
            assert forall|a: int, b: int|
                0 <= a < map.drop_first().push(p).len() && 0 <= b < map.drop_first().push(
                    p,
                ).len() implies (#[trigger] map.drop_first().push(p)[a]).1 != (
            #[trigger] map.drop_first().push(p)[b]).0 by {
                let big = map.push(p);
                let sa: int = if a < map.len() - 1 {
                    a + 1
                } else {
                    map.len() as int
                };
                let sb: int = if b < map.len() - 1 {
                    b + 1
                } else {
                    map.len() as int
                };
                assert(map.drop_first().push(p)[a] == big[sa]);
                assert(map.drop_first().push(p)[b] == big[sb]);
            }
            lemma_map_subst_push(map.drop_first(), p, f);
            assert(map_subst(map.push(p), f) == map_subst(map.push(p).drop_first(), f));
            assert(map.push(p).drop_first() == map.drop_first().push(p));
            assert(map_subst(map, f) == map_subst(map.drop_first(), f));
        }
    }
}

/// Linear membership test on a worklist.
#[verifier::loop_isolation(false)]
fn vec_contains_usize(v: &Vec<usize>, x: usize) -> (r: bool)
    ensures
        r == v@.contains(x),
{
    let mut k: usize = 0;
    while k < v.len()
        invariant
            k <= v@.len(),
            forall|t: int| 0 <= t < k ==> v@[t] != x,
        decreases v@.len() - k,
    {
        if v[k] == x {
            return true;
        }
        k += 1;
    }
    false
}

/// The image of `f` under `map`, or `f` itself when `f` is no key.
#[verifier::loop_isolation(false)]
fn map_lookup(map: &Vec<(usize, usize)>, f: usize) -> (r: usize)
    ensures
        r == map_subst(map@, f),
{
    let mut k: usize = 0;
    while k < map.len()
        invariant
            k <= map@.len(),
            forall|t: int| 0 <= t < k ==> (#[trigger] map@[t]).0 != f,
        decreases map@.len() - k,
    {
        if map[k].0 == f {
            proof {
                lemma_map_subst_key_at(map@, k as int);
            }
            return map[k].1;
        }
        k += 1;
    }
    proof {
        lemma_map_subst_nonkey(map@, f);
    }
    f
}


/// Rewrite every direct call of function `caller` whose target is a key of
/// `map` to the key's image; everything else of the module is untouched.
#[verifier::loop_isolation(false)]
fn patch_function(module: &mut WasmModule, caller: usize, map: &Vec<(usize, usize)>)
    requires
        caller < old(module).funcs@.len(),
    ensures
        final(module).funcs@.len() == old(module).funcs@.len(),
        function_subst(
            old(module).funcs@[caller as int],
            final(module).funcs@[caller as int],
            map@,
        ),
        forall|i: int|
            0 <= i < old(module).funcs@.len() && i != caller ==> final(module).funcs@[i] == old(
                module,
            ).funcs@[i],
        final(module).types == old(module).types,
        final(module).imports == old(module).imports,
        final(module).exports == old(module).exports,
        final(module).globals == old(module).globals,
        final(module).memories == old(module).memories,
        final(module).tables == old(module).tables,
        final(module).elements == old(module).elements,
        final(module).data == old(module).data,
{
    let mut taken: Function = Function {
        ty: 0,
        name: None,
        kind: FuncKind::Imported { import: 0 },
    };
    core::mem::swap(&mut module.funcs[caller], &mut taken);
    let ghost f0: Function = taken;
    let Function { ty, name, kind } = taken;
    let new_kind: FuncKind = match kind {
        FuncKind::Imported { import } => FuncKind::Imported { import },
        FuncKind::Local { body } => {
            let FuncBody { locals, mut seqs } = body;
            let ghost seqs0: Seq<Vec<Instr>> = seqs@;
            let mut s: usize = 0;
            while s < seqs.len()
                invariant
                    s <= seqs@.len(),
                    seqs@.len() == seqs0.len(),
                    forall|t: int|
                        0 <= t < s ==> (#[trigger] seqs@[t])@.len() == seqs0[t]@.len(),
                    forall|t: int, j: int|
                        0 <= t < s && 0 <= j < seqs0[t]@.len() ==> (#[trigger] seqs@[t]@[j])
                            == instr_subst(seqs0[t]@[j], map@),
                    forall|t: int| s <= t < seqs0.len() ==> seqs@[t] == seqs0[t],
                decreases seqs0.len() - s,
            {
                let mut j: usize = 0;
                let ghost sq0: Seq<Instr> = seqs@[s as int]@;
                while j < seqs[s].len()
                    invariant
                        j <= sq0.len(),
                        s < seqs@.len(),
                        seqs@.len() == seqs0.len(),
                        seqs@[s as int]@.len() == sq0.len(),
                        sq0 == seqs0[s as int]@,
                        forall|t: int|
                            0 <= t < s ==> (#[trigger] seqs@[t])@.len() == seqs0[t]@.len(),
                        forall|t: int, jj: int|
                            0 <= t < s && 0 <= jj < seqs0[t]@.len() ==> (#[trigger] seqs@[t]@[jj])
                                == instr_subst(seqs0[t]@[jj], map@),
                        forall|t: int| s < t < seqs0.len() ==> seqs@[t] == seqs0[t],
                        forall|jj: int|
                            0 <= jj < j ==> (#[trigger] seqs@[s as int]@[jj]) == instr_subst(
                                sq0[jj],
                                map@,
                            ),
                        forall|jj: int| j <= jj < sq0.len() ==> seqs@[s as int]@[jj] == sq0[jj],
                    decreases sq0.len() - j,
                {
                    match seqs[s][j] {
                        Instr::Call { func } => {
                            let target = map_lookup(map, func);
                            seqs[s][j] = Instr::Call { func: target };
                        },
                        _ => {},
                    }
                    j += 1;
                }
                s += 1;
            }
            FuncKind::Local { body: FuncBody { locals, seqs } }
        },
    };
    module.funcs[caller] = Function { ty, name, kind: new_kind };
}


/// Apply the recorded uses of `from` to the module: overwrite each recorded
/// element-segment slot and each recorded function export with `to`, and
/// collect the caller of each recorded call use into the worklist.
#[verifier::loop_isolation(false)]
fn apply_key_uses(
    from: usize,
    to: usize,
    uses: &Vec<FunctionUse>,
    module: &mut WasmModule,
    worklist: &mut Vec<usize>,
)
    requires
        no_dup_usizes(old(worklist)@),
        forall|u: FunctionUse| uses@.contains(u) == is_module_use(*old(module), from, u),
    ensures
        no_dup_usizes(final(worklist)@),
        forall|c: usize|
            final(worklist)@.contains(c) == (old(worklist)@.contains(c) || uses@.contains(
                FunctionUse::Call { caller: c },
            )),
        final(module).funcs == old(module).funcs,
        final(module).types == old(module).types,
        final(module).imports == old(module).imports,
        final(module).globals == old(module).globals,
        final(module).memories == old(module).memories,
        final(module).tables == old(module).tables,
        final(module).data == old(module).data,
        final(module).elements@.len() == old(module).elements@.len(),
        forall|e: int|
            0 <= e < old(module).elements@.len() ==> (#[trigger] final(module).elements@[e]).members@.len()
                == old(module).elements@[e].members@.len(),
        forall|e: int, j: int|
            0 <= e < old(module).elements@.len() && 0 <= j < old(
                module,
            ).elements@[e].members@.len() ==> (#[trigger] final(module).elements@[e].members@[j])
                == (if old(module).elements@[e].members@[j] == Some(from) {
                Some(to)
            } else {
                old(module).elements@[e].members@[j]
            }),
        final(module).exports@.len() == old(module).exports@.len(),
        forall|x: int|
            0 <= x < old(module).exports@.len() ==> (#[trigger] final(module).exports@[x]).name
                == old(module).exports@[x].name,
        forall|x: int|
            0 <= x < old(module).exports@.len() ==> (#[trigger] final(module).exports@[x]).item
                == (if old(module).exports@[x].item == (ExportItem::Func { func: from }) {
                ExportItem::Func { func: to }
            } else {
                old(module).exports@[x].item
            }),
{
    let ghost m_in: WasmModule = *module;
    let ghost w_in: Seq<usize> = worklist@;
    let mut ui: usize = 0;
    while ui < uses.len()
        invariant
            ui <= uses@.len(),
            no_dup_usizes(worklist@),
            forall|c: usize|
                (#[trigger] worklist@.contains(c)) == (w_in.contains(c) || uses@.subrange(
                    0,
                    ui as int,
                ).contains(FunctionUse::Call { caller: c })),
            module.funcs == m_in.funcs,
            module.types == m_in.types,
            module.imports == m_in.imports,
            module.globals == m_in.globals,
            module.memories == m_in.memories,
            module.tables == m_in.tables,
            module.data == m_in.data,
            module.elements@.len() == m_in.elements@.len(),
            forall|e: int|
                0 <= e < m_in.elements@.len() ==> (#[trigger] module.elements@[e]).members@.len()
                    == m_in.elements@[e].members@.len(),
            forall|e: int, j: int|
                0 <= e < m_in.elements@.len() && 0 <= j < m_in.elements@[e].members@.len()
                    ==> (#[trigger] module.elements@[e].members@[j]) == (if uses@.subrange(
                    0,
                    ui as int,
                ).contains(FunctionUse::InElement { element: e as usize, index: j as usize }) {
                    Some(to)
                } else {
                    m_in.elements@[e].members@[j]
                }),
            module.exports@.len() == m_in.exports@.len(),
            forall|x: int|
                0 <= x < m_in.exports@.len() ==> (#[trigger] module.exports@[x]).name
                    == m_in.exports@[x].name,
            forall|x: int|
                0 <= x < m_in.exports@.len() ==> (#[trigger] module.exports@[x]).item == (
                if uses@.subrange(0, ui as int).contains(FunctionUse::Export { export: x as usize }) {
                    ExportItem::Func { func: to }
                } else {
                    m_in.exports@[x].item
                }),
        decreases uses@.len() - ui,
    {
        let u = uses[ui];
        let ghost m_prev: WasmModule = *module;
        let ghost w_prev: Seq<usize> = worklist@;
        proof {
            assert(uses@.contains(u));
            assert(uses@.subrange(0, ui + 1) =~= uses@.subrange(0, ui as int).push(u));
        }
        match u {
            FunctionUse::Call { caller } => {
                if !vec_contains_usize(worklist, caller) {
                    worklist.push(caller);
                }
                proof {
                    assert forall|c: usize|
                        worklist@.contains(c) == (w_in.contains(c) || uses@.subrange(
                            0,
                            ui + 1,
                        ).contains(FunctionUse::Call { caller: c })) by {
                        let v = FunctionUse::Call { caller: c };
                        assert(uses@.subrange(0, ui + 1).contains(v) == (uses@.subrange(
                            0,
                            ui as int,
                        ).contains(v) || u == v));
                        assert(w_prev.contains(c) == (w_in.contains(c) || uses@.subrange(
                            0,
                            ui as int,
                        ).contains(v)));
                        assert((u == v) == (c == caller));
                        if !w_prev.contains(caller) {
                            assert(worklist@ == w_prev.push(caller));
                            assert(worklist@.contains(c) == (w_prev.contains(c) || c == caller));
                        } else {
                            assert(worklist@ == w_prev);
                            if u == v {
                                assert(w_prev.contains(c));
                            }
                        }
                    }
                }
            },
            FunctionUse::InElement { element, index } => {
                module.elements[element].members[index] = Some(to);
                proof {
                    assert forall|e: int, j: int|
                        0 <= e < m_in.elements@.len() && 0 <= j
                            < m_in.elements@[e].members@.len() implies (
                    #[trigger] module.elements@[e].members@[j]) == (if uses@.subrange(
                        0,
                        ui + 1,
                    ).contains(FunctionUse::InElement { element: e as usize, index: j as usize }) {
                        Some(to)
                    } else {
                        m_in.elements@[e].members@[j]
                    }) by {
                        let v = FunctionUse::InElement { element: e as usize, index: j as usize };
                        assert(m_in.elements@.len() == m_in.elements.len());
                        assert(m_in.elements@[e].members@.len() == m_in.elements@[e].members.len());
                        assert(uses@.subrange(0, ui + 1).contains(v) == (uses@.subrange(
                            0,
                            ui as int,
                        ).contains(v) || u == v));
                        if e == element as int && j == index as int {
                            assert(module.elements@[e].members@[j] == Some(to));
                            assert(u == v);
                        } else {
                            assert(module.elements@[e].members@[j]
                                == m_prev.elements@[e].members@[j]);
                            assert(u != v);
                        }
                    }
                }
            },
            FunctionUse::Export { export } => {
                proof {
                    assert(m_in.exports@[export as int].item == (ExportItem::Func { func: from }));
                }
                match module.exports[export].item {
                    ExportItem::Func { .. } => {},
                    _ => {
                        proof {
                            assert(false);
                        }
                    },
                }
                module.exports[export].item = ExportItem::Func { func: to };
                proof {
                    assert forall|x: int|
                        0 <= x < m_in.exports@.len() implies (#[trigger] module.exports@[x]).item
                            == (if uses@.subrange(0, ui + 1).contains(
                            FunctionUse::Export { export: x as usize },
                        ) {
                            ExportItem::Func { func: to }
                        } else {
                            m_in.exports@[x].item
                        }) by {
                        let v = FunctionUse::Export { export: x as usize };
                        assert(m_in.exports@.len() == m_in.exports.len());
                        assert(uses@.subrange(0, ui + 1).contains(v) == (uses@.subrange(
                            0,
                            ui as int,
                        ).contains(v) || u == v));
                        if x == export as int {
                            assert(module.exports@[x].item == (ExportItem::Func { func: to }));
                        } else {
                            assert(module.exports@[x] == m_prev.exports@[x]);
                            assert(u != v);
                        }
                    }
                }
            },
        }
        ui += 1;
    }
    proof {
        assert(uses@.subrange(0, uses@.len() as int) =~= uses@);
        // A slot that held `from` was recorded, so it was overwritten; a slot
        // that held anything else was never recorded, so it kept its value.
        assert forall|e: int, j: int|
            0 <= e < m_in.elements@.len() && 0 <= j < m_in.elements@[e].members@.len() implies (
        #[trigger] module.elements@[e].members@[j]) == (if m_in.elements@[e].members@[j] == Some(
            from,
        ) {
            Some(to)
        } else {
            m_in.elements@[e].members@[j]
        }) by {
            let u = FunctionUse::InElement { element: e as usize, index: j as usize };
            assert(m_in.elements@.len() == m_in.elements.len());
            assert(m_in.elements@[e].members@.len() == m_in.elements@[e].members.len());
            assert(uses@.contains(u) == is_module_use(m_in, from, u));
        }
        assert forall|x: int|
            0 <= x < m_in.exports@.len() implies (#[trigger] module.exports@[x]).item == (
        if m_in.exports@[x].item == (ExportItem::Func { func: from }) {
            ExportItem::Func { func: to }
        } else {
            m_in.exports@[x].item
        }) by {
            let u = FunctionUse::Export { export: x as usize };
            assert(m_in.exports@.len() == m_in.exports.len());
            assert(uses@.contains(u) == is_module_use(m_in, from, u));
        }
    }
}


/// After the element and export slots of a module have been rewritten with
/// the first `k` pairs of `map`, the uses of key `map[k].0` are unchanged:
/// earlier keys are distinct from it and earlier images are no keys.
proof fn lemma_key_use_stable(
    m0: WasmModule,
    m1: WasmModule,
    map: Seq<(usize, usize)>,
    k: int,
    u: FunctionUse,
)
    requires
        0 <= k < map.len(),
        keys_distinct(map),
        images_not_keys(map),
        m1.funcs == m0.funcs,
        m1.elements@.len() == m0.elements@.len(),
        forall|e: int|
            0 <= e < m0.elements@.len() ==> element_subst(
                m0.elements@[e],
                #[trigger] m1.elements@[e],
                map.subrange(0, k),
            ),
        m1.exports@.len() == m0.exports@.len(),
        forall|x: int|
            0 <= x < m0.exports@.len() ==> export_subst(
                m0.exports@[x],
                #[trigger] m1.exports@[x],
                map.subrange(0, k),
            ),
    ensures
        is_module_use(m0, map[k].0, u) == is_module_use(m1, map[k].0, u),
{
    let from = map[k].0;
    let prefix = map.subrange(0, k);
    match u {
        FunctionUse::Call { caller } => {},
        FunctionUse::InElement { element, index } => {
            let e = element as int;
            let j = index as int;
            if e < m0.elements@.len() && j < m0.elements@[e].members@.len() {
                match m0.elements@[e].members@[j] {
                    Some(f) => {
                        lemma_prefix_subst_stable(map, k, f);
                    },
                    None => {},
                }
            }
        },
        FunctionUse::Export { export } => {
            let x = export as int;
            if x < m0.exports@.len() {
                match m0.exports@[x].item {
                    ExportItem::Func { func } => {
                        lemma_prefix_subst_stable(map, k, func);
                    },
                    _ => {},
                }
            }
        },
    }
}

/// Substituting with the first `k` pairs of `map` maps `f` to key `map[k].0`
/// exactly when `f` already was that key.
proof fn lemma_prefix_subst_stable(map: Seq<(usize, usize)>, k: int, f: usize)
    requires
        0 <= k < map.len(),
        keys_distinct(map),
        images_not_keys(map),
    ensures
        (map_subst(map.subrange(0, k), f) == map[k].0) == (f == map[k].0),
{
    let from = map[k].0;
    let prefix = map.subrange(0, k);
    if f == from {
        assert forall|t: int| 0 <= t < prefix.len() implies (#[trigger] prefix[t]).0 != from by {
            assert(prefix[t] == map[t]);
        }
        lemma_map_subst_nonkey(prefix, from);
    } else {
        lemma_map_subst_cases(prefix, f);
        if map_subst(prefix, f) == from {
            let t = choose|t: int|
                0 <= t < prefix.len() && (#[trigger] prefix[t]).1 == map_subst(prefix, f);
            assert(prefix[t] == map[t]);
            assert(map[t].1 != map[k].0);
        }
    }
}

/// A function that calls no key of `map` is its own substitution image.
proof fn lemma_function_subst_self(f: Function, map: Seq<(usize, usize)>)
    requires
        match f.kind {
            FuncKind::Local { body } => forall|t: int|
                0 <= t < map.len() ==> !body_calls(body, (#[trigger] map[t]).0),
            FuncKind::Imported { .. } => true,
        },
    ensures
        function_subst(f, f, map),
{
    match f.kind {
        FuncKind::Imported { .. } => {},
        FuncKind::Local { body } => {
            assert forall|s: int, j: int|
                0 <= s < body.seqs@.len() && 0 <= j < body.seqs@[s]@.len() implies (
            #[trigger] body.seqs@[s]@[j]) == instr_subst(body.seqs@[s]@[j], map) by {
                match body.seqs@[s]@[j] {
                    Instr::Call { func } => {
                        assert forall|t: int| 0 <= t < map.len() implies (#[trigger] map[t]).0
                            != func by {
                            if map[t].0 == func {
                                assert(seq_has_call(body.seqs@[s]@, func));
                                assert(body_calls(body, func));
                            }
                        }
                        lemma_map_subst_nonkey(map, func);
                    },
                    _ => {},
                }
            }
        },
    }
}

/// Copy the recorded use list of `from` out of the graph.
#[verifier::loop_isolation(false)]
fn copy_uses(g: &CallGraph, from: usize) -> (r: Vec<FunctionUse>)
    ensures
        forall|u: FunctionUse| r@.contains(u) == graph_has(*g, from, u),
{
    let mut r: Vec<FunctionUse> = Vec::new();
    if from < g.uses.len() {
        let mut t: usize = 0;
        while t < g.uses[from].len()
            invariant
                t <= g.uses@[from as int]@.len(),
                r@ == g.uses@[from as int]@.subrange(0, t as int),
            decreases g.uses@[from as int]@.len() - t,
        {
            r.push(g.uses[from][t]);
            proof {
                assert(r@ =~= g.uses@[from as int]@.subrange(0, t + 1));
            }
            t += 1;
        }
        proof {
            assert(r@ =~= g.uses@[from as int]@);
        }
    }
    r
}


/// Apply the substitution `map` to every recorded use of its keys: patch the
/// bodies of recorded callers, overwrite recorded element-segment slots, and
/// retarget recorded function exports. Afterwards every use recorded under a
/// key is also recorded under the key's image; the stale records under the
/// keys remain and are harmless.
///
/// With an index that is accurate for the keys, this applies the whole
/// substitution: the resulting module is the input with `map` applied to
/// every call target, element slot and function export.
#[verifier::loop_isolation(false)]
pub fn replace_func_use(
    map: &Vec<(usize, usize)>,
    module: &mut WasmModule,
    call_graph: &mut CallGraph,
)
    requires
        keys_distinct(map@),
        images_not_keys(map@),
        graph_dedup(*old(call_graph)),
        graph_accurate_for_keys(*old(call_graph), *old(module), map@),
    ensures
        module_subst(*old(module), *final(module), map@),
        graph_dedup(*final(call_graph)),
        forall|c: usize, u: FunctionUse|
            (#[trigger] graph_has(*final(call_graph), c, u)) == (graph_has(*old(call_graph), c, u)
                || exists|kk: int|
                0 <= kk < map@.len() && (#[trigger] map@[kk]).1 == c && graph_has(
                    *old(call_graph),
                    map@[kk].0,
                    u,
                )),
{
    let ghost m0: WasmModule = *module;
    let ghost g0: CallGraph = *call_graph;
    let mut func_worklist: Vec<usize> = Vec::new();

    // Overwrite recorded element slots and exports; collect recorded callers.
    let mut k: usize = 0;
    while k < map.len()
        invariant
            k <= map@.len(),
            *call_graph == g0,
            no_dup_usizes(func_worklist@),
            forall|c: usize|
                (#[trigger] func_worklist@.contains(c)) == exists|kk: int|
                    0 <= kk < k && #[trigger] graph_has(
                        g0,
                        map@[kk].0,
                        FunctionUse::Call { caller: c },
                    ),
            module.funcs == m0.funcs,
            module.types == m0.types,
            module.imports == m0.imports,
            module.globals == m0.globals,
            module.memories == m0.memories,
            module.tables == m0.tables,
            module.data == m0.data,
            module.elements@.len() == m0.elements@.len(),
            forall|e: int|
                0 <= e < m0.elements@.len() ==> element_subst(
                    m0.elements@[e],
                    #[trigger] module.elements@[e],
                    map@.subrange(0, k as int),
                ),
            module.exports@.len() == m0.exports@.len(),
            forall|x: int|
                0 <= x < m0.exports@.len() ==> export_subst(
                    m0.exports@[x],
                    #[trigger] module.exports@[x],
                    map@.subrange(0, k as int),
                ),
        decreases map@.len() - k,
    {
        let from = map[k].0;
        let to = map[k].1;
        let ghost prefix: Seq<(usize, usize)> = map@.subrange(0, k as int);
        let ghost prefix1: Seq<(usize, usize)> = map@.subrange(0, k as int + 1);
        let ghost m_before: WasmModule = *module;
        let ghost w_before: Seq<usize> = func_worklist@;
        proof {
            assert(prefix.push(map@[k as int]) =~= prefix1);
            assert forall|a: int, b: int|
                0 <= a < prefix1.len() && 0 <= b < prefix1.len() implies (#[trigger] prefix1[a]).1
                != (#[trigger] prefix1[b]).0 by {
                assert(prefix1[a] == map@[a]);
                assert(prefix1[b] == map@[b]);
            }
        }
        match call_graph.get_func_uses(from) {
            Some(uses) => {
                proof {
                    assert forall|u: FunctionUse|
                        uses@.contains(u) == is_module_use(*module, from, u) by {
                        assert(graph_has(g0, map@[k as int].0, u) == is_module_use(
                            m0,
                            map@[k as int].0,
                            u,
                        ));
                        lemma_key_use_stable(m0, *module, map@, k as int, u);
                    }
                }
                apply_key_uses(from, to, uses, module, &mut func_worklist);
                proof {
                    assert forall|c: usize|
                        (#[trigger] func_worklist@.contains(c)) == exists|kk: int|
                            0 <= kk < k + 1 && #[trigger] graph_has(
                                g0,
                                map@[kk].0,
                                FunctionUse::Call { caller: c },
                            ) by {
                        let v = FunctionUse::Call { caller: c };
                        assert(uses@.contains(v) == graph_has(g0, from, v));
                        if func_worklist@.contains(c) {
                            if w_before.contains(c) {
                                let kk = choose|kk: int|
                                    0 <= kk < k && #[trigger] graph_has(g0, map@[kk].0, v);
                                assert(graph_has(g0, map@[kk].0, v));
                            } else {
                                assert(graph_has(g0, map@[k as int].0, v));
                            }
                        } else {
                            assert forall|kk: int| 0 <= kk < k + 1 implies !(#[trigger] graph_has(
                                g0,
                                map@[kk].0,
                                v,
                            )) by {
                                if kk == k {
                                    assert(!uses@.contains(v));
                                } else {
                                    assert(!w_before.contains(c));
                                }
                            }
                        }
                    }
                    assert forall|e: int|
                        0 <= e < m0.elements@.len() implies element_subst(
                        m0.elements@[e],
                        #[trigger] module.elements@[e],
                        prefix1,
                    ) by {
                        assert(element_subst(m0.elements@[e], m_before.elements@[e], prefix));
                        assert forall|j: int|
                            0 <= j < m0.elements@[e].members@.len() implies (
                        #[trigger] module.elements@[e].members@[j]) == (
                        match m0.elements@[e].members@[j] {
                            Some(f) => Some(map_subst(prefix1, f)),
                            None => None,
                        }) by {
                            match m0.elements@[e].members@[j] {
                                Some(f) => {
                                    lemma_map_subst_push(prefix, map@[k as int], f);
                                    assert(m_before.elements@[e].members@[j] == Some(
                                        map_subst(prefix, f),
                                    ));
                                },
                                None => {},
                            }
                        }
                    }
                    assert forall|x: int|
                        0 <= x < m0.exports@.len() implies export_subst(
                        m0.exports@[x],
                        #[trigger] module.exports@[x],
                        prefix1,
                    ) by {
                        assert(export_subst(m0.exports@[x], m_before.exports@[x], prefix));
                        match m0.exports@[x].item {
                            ExportItem::Func { func } => {
                                lemma_map_subst_push(prefix, map@[k as int], func);
                            },
                            _ => {},
                        }
                    }
                }
            },
            None => {
                proof {
                    assert forall|u: FunctionUse| !is_module_use(*module, from, u) by {
                        assert(graph_has(g0, map@[k as int].0, u) == is_module_use(
                            m0,
                            map@[k as int].0,
                            u,
                        ));
                        lemma_key_use_stable(m0, *module, map@, k as int, u);
                    }
                    assert forall|e: int|
                        0 <= e < m0.elements@.len() implies element_subst(
                        m0.elements@[e],
                        #[trigger] module.elements@[e],
                        prefix1,
                    ) by {
                        assert(element_subst(m0.elements@[e], m_before.elements@[e], prefix));
                        assert forall|j: int|
                            0 <= j < m0.elements@[e].members@.len() implies (
                        #[trigger] module.elements@[e].members@[j]) == (
                        match m0.elements@[e].members@[j] {
                            Some(f) => Some(map_subst(prefix1, f)),
                            None => None,
                        }) by {
                            match m0.elements@[e].members@[j] {
                                Some(f) => {
                                    lemma_map_subst_push(prefix, map@[k as int], f);
                                    if map_subst(prefix, f) == from {
                                        assert(m0.elements@.len() == m0.elements.len());
                                        assert(m0.elements@[e].members@.len()
                                            == m0.elements@[e].members.len());
                                        let uu = FunctionUse::InElement {
                                            element: e as usize,
                                            index: j as usize,
                                        };
                                        assert(module.elements@[e].members@[j] == Some(from));
                                        assert(is_module_use(*module, from, uu));
                                        assert(false);
                                    }
                                },
                                None => {},
                            }
                        }
                    }
                    assert forall|x: int|
                        0 <= x < m0.exports@.len() implies export_subst(
                        m0.exports@[x],
                        #[trigger] module.exports@[x],
                        prefix1,
                    ) by {
                        assert(export_subst(m0.exports@[x], m_before.exports@[x], prefix));
                        match m0.exports@[x].item {
                            ExportItem::Func { func } => {
                                lemma_map_subst_push(prefix, map@[k as int], func);
                                if map_subst(prefix, func) == from {
                                    assert(m0.exports@.len() == m0.exports.len());
                                    let uu = FunctionUse::Export { export: x as usize };
                                    assert(module.exports@[x].item == (ExportItem::Func {
                                        func: from,
                                    }));
                                    assert(is_module_use(*module, from, uu));
                                    assert(false);
                                }
                            },
                            _ => {},
                        }
                    }
                    assert forall|c: usize|
                        (#[trigger] func_worklist@.contains(c)) == exists|kk: int|
                            0 <= kk < k + 1 && #[trigger] graph_has(
                                g0,
                                map@[kk].0,
                                FunctionUse::Call { caller: c },
                            ) by {
                        let v = FunctionUse::Call { caller: c };
                        if func_worklist@.contains(c) {
                            let kk = choose|kk: int|
                                0 <= kk < k && #[trigger] graph_has(g0, map@[kk].0, v);
                            assert(graph_has(g0, map@[kk].0, v));
                        } else {
                            assert forall|kk: int| 0 <= kk < k + 1 implies !(#[trigger] graph_has(
                                g0,
                                map@[kk].0,
                                v,
                            )) by {
                                if kk == k {
                                    assert(!graph_has(g0, from, v));
                                }
                            }
                        }
                    }
                }
            },
        }
        k += 1;
    }
    proof {
        assert(map@.subrange(0, map@.len() as int) =~= map@);
    }

    // Patch the bodies of the collected callers, each visited once.
    let ghost m1: WasmModule = *module;
    let mut w: usize = 0;
    while w < func_worklist.len()
        invariant
            w <= func_worklist@.len(),
            *call_graph == g0,
            module.types == m0.types,
            module.imports == m0.imports,
            module.globals == m0.globals,
            module.memories == m0.memories,
            module.tables == m0.tables,
            module.data == m0.data,
            module.elements == m1.elements,
            module.exports == m1.exports,
            module.funcs@.len() == m0.funcs@.len(),
            forall|i: int|
                0 <= i < m0.funcs@.len() && !func_worklist@.subrange(0, w as int).contains(
                    i as usize,
                ) ==> (#[trigger] module.funcs@[i]) == m0.funcs@[i],
            forall|i: int|
                0 <= i < m0.funcs@.len() && func_worklist@.subrange(0, w as int).contains(
                    i as usize,
                ) ==> function_subst(m0.funcs@[i], #[trigger] module.funcs@[i], map@),
        decreases func_worklist@.len() - w,
    {
        let caller = func_worklist[w];
        proof {
            assert(m0.funcs@.len() == m0.funcs.len());
            assert(func_worklist@.contains(caller));
            let kk = choose|kk: int|
                0 <= kk < map@.len() && #[trigger] graph_has(
                    g0,
                    map@[kk].0,
                    FunctionUse::Call { caller },
                );
            assert(graph_has(g0, map@[kk].0, FunctionUse::Call { caller }));
            assert(is_module_use(m0, map@[kk].0, FunctionUse::Call { caller }));
            assert(caller < m0.funcs@.len());
            assert(!func_worklist@.subrange(0, w as int).contains(caller));
            assert(module.funcs@[caller as int] == m0.funcs@[caller as int]);
        }
        let ghost funcs_before = module.funcs@;
        patch_function(module, caller, map);
        proof {
            assert(func_worklist@.subrange(0, w + 1) =~= func_worklist@.subrange(
                0,
                w as int,
            ).push(caller));
            assert forall|i: int|
                0 <= i < m0.funcs@.len() && !func_worklist@.subrange(0, w + 1).contains(
                    i as usize,
                ) implies (#[trigger] module.funcs@[i]) == m0.funcs@[i] by {
                assert(i != caller as int);
                assert(module.funcs@[i] == funcs_before[i]);
            }
            assert forall|i: int|
                0 <= i < m0.funcs@.len() && func_worklist@.subrange(0, w + 1).contains(
                    i as usize,
                ) implies function_subst(m0.funcs@[i], #[trigger] module.funcs@[i], map@) by {
                if i == caller as int {
                    assert(function_subst(m0.funcs@[i], module.funcs@[i], map@));
                } else {
                    assert(func_worklist@.subrange(0, w as int).contains(i as usize));
                    assert(module.funcs@[i] == funcs_before[i]);
                }
            }
        }
        w += 1;
    }
    proof {
        assert(m0.funcs@.len() == m0.funcs.len());
        assert(func_worklist@.subrange(0, func_worklist@.len() as int) =~= func_worklist@);
        assert forall|i: int|
            0 <= i < m0.funcs@.len() implies function_subst(
            m0.funcs@[i],
            #[trigger] module.funcs@[i],
            map@,
        ) by {
            if !func_worklist@.contains(i as usize) {
                assert(module.funcs@[i] == m0.funcs@[i]);
                assert forall|t: int|
                    0 <= t < map@.len() implies match m0.funcs@[i].kind {
                    FuncKind::Local { body } => !body_calls(body, (#[trigger] map@[t]).0),
                    FuncKind::Imported { .. } => true,
                } by {
                    match m0.funcs@[i].kind {
                        FuncKind::Local { body } => {
                            if body_calls(body, map@[t].0) {
                                assert(func_calls(m0, i, map@[t].0));
                                assert(is_module_use(
                                    m0,
                                    map@[t].0,
                                    FunctionUse::Call { caller: i as usize },
                                ));
                                assert(graph_has(
                                    g0,
                                    map@[t].0,
                                    FunctionUse::Call { caller: i as usize },
                                ));
                                assert(func_worklist@.contains(i as usize));
                            }
                        },
                        FuncKind::Imported { .. } => {},
                    }
                }
                lemma_function_subst_self(m0.funcs@[i], map@);
            }
        }
        assert(module_subst(m0, *module, map@));
    }

    // Record every use of a key also under the key's image.
    let mut k2: usize = 0;
    while k2 < map.len()
        invariant
            k2 <= map@.len(),
            graph_dedup(*call_graph),
            module_subst(m0, *module, map@),
            forall|c: usize, u: FunctionUse|
                (#[trigger] graph_has(*call_graph, c, u)) == (graph_has(g0, c, u) || exists|kk: int|
                    0 <= kk < k2 && (#[trigger] map@[kk]).1 == c && graph_has(g0, map@[kk].0, u)),
        decreases map@.len() - k2,
    {
        let from = map[k2].0;
        let to = map[k2].1;
        let copied = copy_uses(call_graph, from);
        proof {
            assert forall|u: FunctionUse| copied@.contains(u) == graph_has(g0, from, u) by {
                assert(copied@.contains(u) == graph_has(*call_graph, from, u));
                if exists|kk: int|
                    0 <= kk < k2 && (#[trigger] map@[kk]).1 == from && graph_has(
                        g0,
                        map@[kk].0,
                        u,
                    ) {
                    let kk = choose|kk: int|
                        0 <= kk < k2 && (#[trigger] map@[kk]).1 == from && graph_has(
                            g0,
                            map@[kk].0,
                            u,
                        );
                    assert(map@[kk].1 != map@[k2 as int].0);
                    assert(false);
                }
            }
        }
        let ghost base: CallGraph = *call_graph;
        let mut ui: usize = 0;
        while ui < copied.len()
            invariant
                ui <= copied@.len(),
                graph_dedup(*call_graph),
                forall|c: usize, u: FunctionUse|
                    (#[trigger] graph_has(*call_graph, c, u)) == (graph_has(base, c, u) || (c == to
                        && copied@.subrange(0, ui as int).contains(u))),
            decreases copied@.len() - ui,
        {
            let u = copied[ui];
            proof {
                assert(copied@.subrange(0, ui + 1) =~= copied@.subrange(0, ui as int).push(u));
            }
            call_graph.add_use(to, u);
            ui += 1;
        }
        proof {
            assert(copied@.subrange(0, copied@.len() as int) =~= copied@);
            assert forall|c: usize, u: FunctionUse|
                (#[trigger] graph_has(*call_graph, c, u)) == (graph_has(g0, c, u) || exists|kk: int|
                    0 <= kk < k2 + 1 && (#[trigger] map@[kk]).1 == c && graph_has(
                        g0,
                        map@[kk].0,
                        u,
                    )) by {
                if graph_has(*call_graph, c, u) {
                    if !graph_has(base, c, u) {
                        assert(c == to && copied@.contains(u));
                        assert(map@[k2 as int].1 == c && graph_has(g0, map@[k2 as int].0, u));
                    } else {
                        if !graph_has(g0, c, u) {
                            let kk = choose|kk: int|
                                0 <= kk < k2 && (#[trigger] map@[kk]).1 == c && graph_has(
                                    g0,
                                    map@[kk].0,
                                    u,
                                );
                            assert(0 <= kk < k2 + 1 && map@[kk].1 == c && graph_has(
                                g0,
                                map@[kk].0,
                                u,
                            ));
                        }
                    }
                } else {
                    assert(!graph_has(g0, c, u));
                    assert forall|kk: int|
                        0 <= kk < k2 + 1 implies !((#[trigger] map@[kk]).1 == c && graph_has(
                        g0,
                        map@[kk].0,
                        u,
                    )) by {
                        if kk == k2 {
                            if map@[kk].1 == c && graph_has(g0, map@[kk].0, u) {
                                assert(copied@.contains(u));
                                assert(graph_has(*call_graph, c, u));
                            }
                        }
                    }
                }
            }
        }
        k2 += 1;
    }
}

} // verus!
