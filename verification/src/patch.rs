//! The patch pipeline: stamp export names onto functions as debug names,
//! append the payload's passive data segment, replace the placeholder
//! function's body with one bulk copy from that segment, remove the dummy
//! import, and drop the placeholder's export entry.

use vstd::prelude::*;
use crate::module::{
    DataSegment, ExportItem, ExportV, FuncKind, FuncKindV, Function, FunctionV, Instr, Module,
    ModuleV, SegmentV, first_export_of_func, first_func_named, first_import_matching, func_named,
    lemma_first_func_named, some_export_of_func, some_func_named, some_func_with_id,
    some_import_matching,
};
use crate::segment::{encode_payload, payload_ok, seg_bytes};

verus! {

/// Why a patch run was aborted.  Every failure leaves the destination
/// module unwritten.
#[derive(Clone, Copy, Debug, PartialEq, Eq, Structural)]
pub enum PatchError {
    /// No function bears the conventional placeholder name.
    PlaceholderNotFound,
    /// The conventional name resolves to an imported function.
    PlaceholderIsImport,
    /// The module declares no linear memory.
    NoMemoryDeclared,
    /// The dummy import is absent.
    ImportNotFound,
    /// The payload holds an embedded terminator byte or does not fit the
    /// length prefix.
    PayloadEncodingError,
}

/// The conventional name of the placeholder function.
pub open spec fn placeholder_name() -> Seq<char> {
    "__core_memory_init"@
}

/// The conventional name of the import that kept the placeholder alive
/// through dead-code elimination.
pub open spec fn dummy_import_name() -> Seq<char> {
    "__core_memory_init_dummy"@
}

/// The fixed namespace the dummy import lives in.
pub open spec fn dummy_import_ns() -> Seq<char> {
    "env"@
}

pub fn placeholder_name_string() -> (s: String)
    ensures
        s@ == placeholder_name(),
{
    ("__core_memory_init").to_owned()
}

pub fn dummy_import_name_string() -> (s: String)
    ensures
        s@ == dummy_import_name(),
{
    ("__core_memory_init_dummy").to_owned()
}

pub fn dummy_import_ns_string() -> (s: String)
    ensures
        s@ == dummy_import_ns(),
{
    ("env").to_owned()
}

/// The debug name a function ends up with once export names are stamped
/// back: the name of its last export entry, or its old name if it is not
/// exported.
pub open spec fn stamped_name(exports: Seq<ExportV>, fid: u32, orig: Option<Seq<char>>) -> Option<
    Seq<char>,
>
    decreases exports.len(),
{
    if exports.len() == 0 {
        orig
    } else if exports.last().item == ExportItem::Function(fid) {
        Option::Some(exports.last().name)
    } else {
        stamped_name(exports.drop_last(), fid, orig)
    }
}

/// One function after the stamping pass ran over the given export entries.
pub open spec fn restamped(orig: FunctionV, exports: Seq<ExportV>) -> FunctionV {
    FunctionV {
        id: orig.id,
        name: stamped_name(exports, orig.id, orig.name),
        kind: orig.kind,
    }
}

/// The module after the name preservation pass: every function's debug name
/// is re-stamped from the export table; nothing else moves.
pub open spec fn restore_spec(m: ModuleV) -> ModuleV {
    ModuleV {
        funcs: Seq::new(m.funcs.len(), |i: int| restamped(m.funcs[i], m.exports)),
        imports: m.imports,
        exports: m.exports,
        data: m.data,
        memories: m.memories,
        next_data_id: m.next_data_id,
    }
}

/// Extending the stamping pass over one more export entry either re-stamps
/// the functions that entry exports, or changes nothing.
proof fn lemma_stamped_step(exports: Seq<ExportV>, k: int, fid: u32, orig: Option<Seq<char>>)
    requires
        0 <= k < exports.len(),
    ensures
        stamped_name(exports.take(k + 1), fid, orig) == (if exports[k].item == ExportItem::Function(
            fid,
        ) {
            Option::Some(exports[k].name)
        } else {
            stamped_name(exports.take(k), fid, orig)
        }),
{
    let pre = exports.take(k + 1);
    assert(pre.last() == exports[k]);
    assert(pre.drop_last() =~= exports.take(k));
}

impl Module {
    /// Name preservation pass: for every exported function, re-stamp its
    /// debug name with its export name, so that name-based lookup survives
    /// the encode/decode round trip that strips name metadata.
    pub fn restore_exported_names(&mut self)
        requires
            old(self)@.wf(),
        ensures
            final(self)@ == restore_spec(old(self)@),
            final(self)@.wf(),
    {
        let n = self.exports.len();
        let mut k: usize = 0;
        while k < n
            invariant
                old(self)@.wf(),
                n == self.exports@.len(),
                0 <= k <= n,
                self@.exports == old(self)@.exports,
                self@.imports == old(self)@.imports,
                self@.data == old(self)@.data,
                self@.memories == old(self)@.memories,
                self@.next_data_id == old(self)@.next_data_id,
                self@.funcs.len() == old(self)@.funcs.len(),
                forall|i: int|
                    0 <= i < self@.funcs.len() ==> #[trigger] self@.funcs[i] == restamped(
                        old(self)@.funcs[i],
                        old(self)@.exports.take(k as int),
                    ),
            decreases n - k,
        {
            let ghost pre = self@.funcs;
            let item = self.exports[k].item;
            match item {
                ExportItem::Function(fid) => {
                    proof {
                        assert(self@.exports[k as int] == self.exports@[k as int]@);
                        assert(self@.exports[k as int].item == ExportItem::Function(fid));
                        assert(some_func_with_id(old(self)@.funcs, fid));
                        // ids are preserved, so the id is still found now
                        let w = choose|i: int|
                            0 <= i < old(self)@.funcs.len() && (#[trigger] old(
                                self,
                            )@.funcs[i]).id == fid;
                        assert(self@.funcs[w].id == fid);
                        assert(some_func_with_id(self@.funcs, fid));
                    }
                    let nm = self.exports[k].name.clone();
                    let idx = self.func_index_of_id(fid);
                    let fr = &mut self.funcs[idx];
                    fr.name = Some(nm);
                    proof {
                        assert(self.funcs@[idx as int]@ == (FunctionV {
                            id: pre[idx as int].id,
                            name: Option::Some(old(self)@.exports[k as int].name),
                            kind: pre[idx as int].kind,
                        }));
                        assert forall|i: int| 0 <= i < self@.funcs.len() implies #[trigger] self@
                            .funcs[i] == restamped(
                            old(self)@.funcs[i],
                            old(self)@.exports.take(k + 1),
                        ) by {
                            lemma_stamped_step(
                                old(self)@.exports,
                                k as int,
                                old(self)@.funcs[i].id,
                                old(self)@.funcs[i].name,
                            );
                            if i != idx {
                                assert(self@.funcs[i] == pre[i]);
                                // distinct ids: this function is not the exported one
                                assert(old(self)@.funcs[i].id != fid);
                            }
                        }
                    }
                }
                _ => {
                    proof {
                        assert forall|i: int| 0 <= i < self@.funcs.len() implies #[trigger] self@
                            .funcs[i] == restamped(
                            old(self)@.funcs[i],
                            old(self)@.exports.take(k + 1),
                        ) by {
                            lemma_stamped_step(
                                old(self)@.exports,
                                k as int,
                                old(self)@.funcs[i].id,
                                old(self)@.funcs[i].name,
                            );
                            assert(old(self)@.exports[k as int].item != ExportItem::Function(
                                old(self)@.funcs[i].id,
                            ));
                        }
                    }
                }
            }
            k += 1;
        }
        proof {
            assert(old(self)@.exports.take(n as int) =~= old(self)@.exports);
            assert(self@.funcs =~= restore_spec(old(self)@).funcs);
            assert(self@ =~= restore_spec(old(self)@));
            assert forall|i: int|
                0 <= i < self@.exports.len() implies match #[trigger] self@.exports[i].item {
                ExportItem::Function(fid) => some_func_with_id(self@.funcs, fid),
                _ => true,
            } by {
                match self@.exports[i].item {
                    ExportItem::Function(fid) => {
                        let w = choose|j: int|
                            0 <= j < old(self)@.funcs.len() && (#[trigger] old(self)@.funcs[j]).id
                                == fid;
                        assert(self@.funcs[w].id == fid);
                    },
                    _ => {},
                }
            }
        }
    }
}

/// The module after the payload's passive segment is appended under the next
/// free data id.
pub open spec fn add_segment_spec(m: ModuleV, payload: Seq<u8>) -> ModuleV {
    ModuleV {
        funcs: m.funcs,
        imports: m.imports,
        exports: m.exports,
        data: m.data.push(
            SegmentV { id: m.next_data_id, passive: true, bytes: seg_bytes(payload) },
        ),
        memories: m.memories,
        next_data_id: (m.next_data_id + 1) as u32,
    }
}

impl Module {
    /// Data segment builder: appends one passive segment holding the
    /// length-prefixed, zero-terminated payload and returns its id.
    pub fn build_data_segment(&mut self, payload: &Vec<u8>) -> (r: Result<u32, PatchError>)
        requires
            old(self)@.wf(),
            old(self)@.next_data_id < u32::MAX,
        ensures
            match r {
                Ok(id) => {
                    &&& payload_ok(payload@)
                    &&& id == old(self)@.next_data_id
                    &&& final(self)@ == add_segment_spec(old(self)@, payload@)
                    &&& final(self)@.wf()
                },
                Err(e) => {
                    &&& e == PatchError::PayloadEncodingError
                    &&& !payload_ok(payload@)
                    &&& final(self)@ == old(self)@
                },
            },
    {
        match encode_payload(payload) {
            Ok(bytes) => {
                let id = self.next_data_id;
                self.data.push(DataSegment { id, passive: true, bytes });
                self.next_data_id = self.next_data_id + 1;
                proof {
                    assert(self@.data =~= add_segment_spec(old(self)@, payload@).data);
                    assert(self@ =~= add_segment_spec(old(self)@, payload@));
                    assert forall|i: int, j: int|
                        0 <= i < j < self@.data.len() implies self@.data[i].id != self@.data[j].id by {
                        if j == self@.data.len() - 1 {
                            assert(self@.data[i].id == old(self)@.data[i].id);
                        }
                    }
                }
                Ok(id)
            },
            Err(e) => Err(e),
        }
    }
}

/// Where the locator lands: the index of the placeholder function, or the
/// error that rejects the module.
pub open spec fn locate_spec(m: ModuleV) -> Result<int, PatchError> {
    if !some_func_named(m.funcs, placeholder_name()) {
        Result::Err(PatchError::PlaceholderNotFound)
    } else {
        let p = first_func_named(m.funcs, placeholder_name());
        if m.funcs[p].kind is Imported {
            Result::Err(PatchError::PlaceholderIsImport)
        } else if m.memories.len() == 0 {
            Result::Err(PatchError::NoMemoryDeclared)
        } else {
            Result::Ok(p)
        }
    }
}

/// The placeholder, where it exists as a local function, carries exactly the
/// three argument slots (destination offset, source offset, size).
pub open spec fn placeholder_arity_ok(m: ModuleV) -> bool {
    some_func_named(m.funcs, placeholder_name()) ==> {
        let f = m.funcs[first_func_named(m.funcs, placeholder_name())];
        f.kind matches FuncKindV::Local { args, .. } ==> args.len() == 3
    }
}

/// The body the rewriter installs: push the three argument slots, then copy
/// from the new segment into the first declared memory.
///
/// The second slot is passed through as the copy's source offset rather
/// than pinned to zero.  That keeps the rewritten routine's contract the
/// same as its signature promises and leaves room for addressing into a
/// richer segment later; with the single segment built here, callers are
/// expected to pass zero.
pub open spec fn rewrite_body(args: Seq<u32>, mem: u32, data: u32) -> Seq<Instr> {
    seq![
        Instr::LocalGet(args[0]),
        Instr::LocalGet(args[1]),
        Instr::LocalGet(args[2]),
        Instr::MemoryInit { mem, data },
    ]
}

/// The module after the placeholder's body is fully replaced; defined when
/// the locator succeeds.
pub open spec fn rewrite_spec(m: ModuleV, data: u32) -> ModuleV {
    let p = first_func_named(m.funcs, placeholder_name());
    let f = m.funcs[p];
    let args = f.kind->Local_args;
    ModuleV {
        funcs: m.funcs.update(
            p,
            FunctionV {
                id: f.id,
                name: f.name,
                kind: FuncKindV::Local {
                    args,
                    body: rewrite_body(args, m.memories[0], data),
                },
            },
        ),
        imports: m.imports,
        exports: m.exports,
        data: m.data,
        memories: m.memories,
        next_data_id: m.next_data_id,
    }
}

impl Module {
    /// Placeholder locator and function rewriter: finds the local function
    /// bearing the conventional name and replaces its whole body with the
    /// bulk copy from segment `data` into the first declared memory.
    pub fn replace_memory_init(&mut self, data: u32) -> (r: Result<(), PatchError>)
        requires
            old(self)@.wf(),
            placeholder_arity_ok(old(self)@),
        ensures
            match r {
                Ok(()) => {
                    &&& locate_spec(old(self)@) is Ok
                    &&& final(self)@ == rewrite_spec(old(self)@, data)
                    &&& final(self)@.wf()
                },
                Err(e) => {
                    &&& locate_spec(old(self)@) == Result::<int, PatchError>::Err(e)
                    &&& final(self)@ == old(self)@
                },
            },
    {
        let pname = placeholder_name_string();
        let p = match self.find_func_by_name(&pname) {
            None => {
                return Err(PatchError::PlaceholderNotFound);
            },
            Some(p) => p,
        };
        let is_import = match &self.funcs[p].kind {
            FuncKind::Imported { .. } => true,
            FuncKind::Local { .. } => false,
        };
        if is_import {
            return Err(PatchError::PlaceholderIsImport);
        }
        if self.memories.len() == 0 {
            return Err(PatchError::NoMemoryDeclared);
        }
        let mem0 = self.memories[0];
        let (a0, a1, a2) = match &self.funcs[p].kind {
            FuncKind::Local { args, .. } => {
                proof {
                    assert(self@.funcs[p as int] == self.funcs@[p as int]@);
                    assert(args@ == self@.funcs[p as int].kind->Local_args);
                }
                (args[0], args[1], args[2])
            },
            FuncKind::Imported { .. } => {
                proof {
                    assert(false);
                }
                (0, 0, 0)
            },
        };
        let fid = self.funcs[p].id;
        let nm = match &self.funcs[p].name {
            Some(s) => Some(s.clone()),
            None => None,
        };
        let mut args: Vec<u32> = Vec::new();
        args.push(a0);
        args.push(a1);
        args.push(a2);
        let mut body: Vec<Instr> = Vec::new();
        body.push(Instr::LocalGet(a0));
        body.push(Instr::LocalGet(a1));
        body.push(Instr::LocalGet(a2));
        body.push(Instr::MemoryInit { mem: mem0, data });
        let ghost pre = self@;
        self.funcs[p] = Function { id: fid, name: nm, kind: FuncKind::Local { args, body } };
        proof {
            let pv = p as int;
            assert(self@.funcs[pv] == self.funcs@[pv]@);
            assert(self@.funcs[pv].kind->Local_args =~= pre.funcs[pv].kind->Local_args);
            assert(self@.funcs[pv].kind->Local_body =~= rewrite_body(
                pre.funcs[pv].kind->Local_args,
                pre.memories[0],
                data,
            ));
            assert(self@.funcs[pv] =~= rewrite_spec(pre, data).funcs[pv]);
            assert(self@.funcs =~= rewrite_spec(pre, data).funcs);
            assert(self@ =~= rewrite_spec(pre, data));
            assert forall|i: int|
                0 <= i < self@.exports.len() implies match #[trigger] self@.exports[i].item {
                ExportItem::Function(f) => some_func_with_id(self@.funcs, f),
                _ => true,
            } by {
                match self@.exports[i].item {
                    ExportItem::Function(f) => {
                        let w = choose|j: int|
                            0 <= j < pre.funcs.len() && (#[trigger] pre.funcs[j]).id == f;
                        assert(self@.funcs[w].id == f);
                    },
                    _ => {},
                }
            }
            assert(self@.wf());
        }
        Ok(())
    }

    /// Sanitizer, first step: removes the first import matching the fixed
    /// namespace and the given name.
    pub fn remove_import(&mut self, name: &String) -> (r: Result<(), PatchError>)
        requires
            old(self)@.wf(),
        ensures
            match r {
                Ok(()) => {
                    &&& some_import_matching(old(self)@.imports, dummy_import_ns(), name@)
                    &&& final(self)@ == remove_import_spec(old(self)@, name@)
                    &&& final(self)@.wf()
                },
                Err(e) => {
                    &&& e == PatchError::ImportNotFound
                    &&& !some_import_matching(old(self)@.imports, dummy_import_ns(), name@)
                    &&& final(self)@ == old(self)@
                },
            },
    {
        let ns = dummy_import_ns_string();
        match self.find_import(&ns, name) {
            None => Err(PatchError::ImportNotFound),
            Some(i) => {
                self.imports.remove(i);
                proof {
                    assert(self@.imports =~= remove_import_spec(old(self)@, name@).imports);
                    assert(self@ =~= remove_import_spec(old(self)@, name@));
                    let iv = i as int;
                    assert forall|a: int, b: int|
                        0 <= a < b < self@.imports.len() implies self@.imports[a].id
                        != self@.imports[b].id by {
                        let oa = if a < iv {
                            a
                        } else {
                            a + 1
                        };
                        let ob = if b < iv {
                            b
                        } else {
                            b + 1
                        };
                        assert(self@.imports[a] == old(self)@.imports[oa]);
                        assert(self@.imports[b] == old(self)@.imports[ob]);
                    }
                    assert(self@.wf());
                }
                Ok(())
            },
        }
    }

    /// Sanitizer, second step: if the named function is exported, removes
    /// that export entry; an unexported function is left alone.
    pub fn ensure_function_not_exported(&mut self, name: &String) -> (r: Result<(), PatchError>)
        requires
            old(self)@.wf(),
        ensures
            match r {
                Ok(()) => {
                    &&& some_func_named(old(self)@.funcs, name@)
                    &&& final(self)@ == unexport_spec(old(self)@, name@)
                    &&& final(self)@.wf()
                },
                Err(e) => {
                    &&& e == PatchError::PlaceholderNotFound
                    &&& !some_func_named(old(self)@.funcs, name@)
                    &&& final(self)@ == old(self)@
                },
            },
    {
        let p = match self.find_func_by_name(name) {
            None => {
                return Err(PatchError::PlaceholderNotFound);
            },
            Some(p) => p,
        };
        let fid = self.funcs[p].id;
        proof {
            assert(self@.funcs[p as int] == self.funcs@[p as int]@);
        }
        match self.find_export_of_func(fid) {
            None => {
                proof {
                    assert(final(self)@ =~= unexport_spec(old(self)@, name@));
                }
                Ok(())
            },
            Some(ei) => {
                self.exports.remove(ei);
                proof {
                    assert(self@.exports =~= unexport_spec(old(self)@, name@).exports);
                    assert(self@ =~= unexport_spec(old(self)@, name@));
                    let iv = ei as int;
                    assert forall|a: int, b: int|
                        0 <= a < b < self@.exports.len() implies self@.exports[a].id
                        != self@.exports[b].id by {
                        let oa = if a < iv {
                            a
                        } else {
                            a + 1
                        };
                        let ob = if b < iv {
                            b
                        } else {
                            b + 1
                        };
                        assert(self@.exports[a] == old(self)@.exports[oa]);
                        assert(self@.exports[b] == old(self)@.exports[ob]);
                    }
                    assert forall|i: int|
                        0 <= i < self@.exports.len() implies match #[trigger] self@
                        .exports[i].item {
                        ExportItem::Function(f) => some_func_with_id(self@.funcs, f),
                        _ => true,
                    } by {
                        let oi = if i < iv {
                            i
                        } else {
                            i + 1
                        };
                        assert(self@.exports[i] == old(self)@.exports[oi]);
                    }
                    assert(self@.wf());
                }
                Ok(())
            },
        }
    }
}

/// The module after the dummy import is removed; defined when that import
/// exists.
pub open spec fn remove_import_spec(m: ModuleV, name: Seq<char>) -> ModuleV {
    let i = first_import_matching(m.imports, dummy_import_ns(), name);
    ModuleV {
        funcs: m.funcs,
        imports: m.imports.remove(i),
        exports: m.exports,
        data: m.data,
        memories: m.memories,
        next_data_id: m.next_data_id,
    }
}

/// The module after the named function's export entry, if any, is removed;
/// defined when the named function exists.
pub open spec fn unexport_spec(m: ModuleV, name: Seq<char>) -> ModuleV {
    let p = first_func_named(m.funcs, name);
    let fid = m.funcs[p].id;
    if some_export_of_func(m.exports, fid) {
        ModuleV {
            funcs: m.funcs,
            imports: m.imports,
            exports: m.exports.remove(first_export_of_func(m.exports, fid)),
            data: m.data,
            memories: m.memories,
            next_data_id: m.next_data_id,
        }
    } else {
        m
    }
}

/// What one whole patch run yields for a given module and payload: the
/// patched module, or the error that aborts the run, in the pipeline's
/// order of checks.
pub open spec fn patch_spec(m: ModuleV, payload: Seq<u8>) -> Result<ModuleV, PatchError> {
    let m1 = restore_spec(m);
    if !payload_ok(payload) {
        Result::Err(PatchError::PayloadEncodingError)
    } else {
        let m2 = add_segment_spec(m1, payload);
        match locate_spec(m2) {
            Result::Err(e) => Result::Err(e),
            Result::Ok(_) => {
                let m3 = rewrite_spec(m2, m.next_data_id);
                if !some_import_matching(m3.imports, dummy_import_ns(), dummy_import_name()) {
                    Result::Err(PatchError::ImportNotFound)
                } else {
                    let m4 = remove_import_spec(m3, dummy_import_name());
                    Result::Ok(unexport_spec(m4, placeholder_name()))
                }
            },
        }
    }
}

/// Runs the whole patch pipeline on a module for one payload.  On success
/// the returned module is the input with export names stamped as debug
/// names, one new passive payload segment, the placeholder's body replaced,
/// the dummy import gone and the placeholder's export entry gone; on error
/// the input is discarded unwritten.
pub fn patch_module(m: Module, payload: &Vec<u8>) -> (r: Result<Module, PatchError>)
    requires
        m@.wf(),
        m@.next_data_id < u32::MAX,
        placeholder_arity_ok(restore_spec(m@)),
    ensures
        match r {
            Ok(out) => patch_spec(m@, payload@) == Result::<ModuleV, PatchError>::Ok(out@)
                && out@.wf(),
            Err(e) => patch_spec(m@, payload@) == Result::<ModuleV, PatchError>::Err(e),
        },
{
    let mut w = m;
    w.restore_exported_names();
    proof {
        assert(placeholder_arity_ok(w@));
    }
    let data_id = match w.build_data_segment(payload) {
        Ok(id) => id,
        Err(e) => {
            return Err(e);
        },
    };
    proof {
        let m2 = add_segment_spec(restore_spec(m@), payload@);
        assert(w@ == m2);
        assert(w@.funcs == restore_spec(m@).funcs);
        assert(placeholder_arity_ok(w@));
    }
    match w.replace_memory_init(data_id) {
        Ok(()) => {},
        Err(e) => {
            return Err(e);
        },
    };
    let dummy = dummy_import_name_string();
    match w.remove_import(&dummy) {
        Ok(()) => {},
        Err(e) => {
            return Err(e);
        },
    };
    let ph = placeholder_name_string();
    proof {
        let m2 = add_segment_spec(restore_spec(m@), payload@);
        let m3 = rewrite_spec(m2, m@.next_data_id);
        let p = first_func_named(m2.funcs, placeholder_name());
        lemma_first_func_named(m2.funcs, placeholder_name());
        assert(func_named(m3.funcs[p], placeholder_name()));
        assert(some_func_named(m3.funcs, placeholder_name()));
        assert(w@.funcs == m3.funcs);
    }
    match w.ensure_function_not_exported(&ph) {
        Ok(()) => {},
        Err(e) => {
            proof {
                assert(false);
            }
            return Err(e);
        },
    };
    Ok(w)
}

} // verus!
