//! The laws the patch pipeline obeys, stated over the mathematical image of
//! a module and proved from the pipeline's own specification.

use vstd::prelude::*;
use crate::module::{
    ExportItem, ExportV, FuncKindV, FunctionV, ModuleV, SegmentV, export_of_func, first_export_of_func,
    first_func_named, first_import_matching, func_named, import_matches,
    lemma_first_export_of_func, lemma_first_func_named, lemma_first_func_named_is,
    lemma_first_import_matching, some_export_of_func, some_func_named, some_import_matching,
};
use crate::patch::{
    PatchError, add_segment_spec, dummy_import_name, dummy_import_ns, locate_spec,
    patch_spec, placeholder_name, remove_import_spec, restamped, restore_spec, rewrite_body,
    rewrite_spec, stamped_name, unexport_spec,
};
use crate::segment::{decode_spec, lemma_payload_fidelity, payload_ok, seg_bytes};

verus! {

/// Index of the placeholder: the first function bearing the conventional
/// name once export names are stamped back.
pub open spec fn stamped_placeholder_index(m: ModuleV) -> int {
    first_func_named(restore_spec(m).funcs, placeholder_name())
}

/// Id of the placeholder function.
pub open spec fn stamped_placeholder_id(m: ModuleV) -> u32 {
    m.funcs[stamped_placeholder_index(m)].id
}

/// A function without an export entry keeps its debug name through the
/// stamping pass.
proof fn lemma_stamped_no_export(exports: Seq<ExportV>, fid: u32, orig: Option<Seq<char>>)
    requires
        !some_export_of_func(exports, fid),
    ensures
        stamped_name(exports, fid, orig) == orig,
    decreases exports.len(),
{
    if exports.len() == 0 {
    } else {
        assert(!export_of_func(exports.last(), fid));
        assert forall|i: int|
            0 <= i < exports.drop_last().len() implies !export_of_func(
            #[trigger] exports.drop_last()[i],
            fid,
        ) by {
            assert(exports.drop_last()[i] == exports[i]);
        }
        lemma_stamped_no_export(exports.drop_last(), fid, orig);
    }
}

/// An exported function's stamped debug name is the name of one of its
/// export entries.
proof fn lemma_stamped_some_export(exports: Seq<ExportV>, fid: u32, orig: Option<Seq<char>>)
    requires
        some_export_of_func(exports, fid),
    ensures
        exists|e: int|
            0 <= e < exports.len() && export_of_func(#[trigger] exports[e], fid) && stamped_name(
                exports,
                fid,
                orig,
            ) == Option::Some(exports[e].name),
    decreases exports.len(),
{
    let last = exports.len() - 1;
    if export_of_func(exports[last], fid) {
        assert(exports.last() == exports[last]);
        assert(export_of_func(exports[last], fid) && stamped_name(exports, fid, orig)
            == Option::Some(exports[last].name));
    } else {
        let w = choose|i: int| 0 <= i < exports.len() && export_of_func(#[trigger] exports[i], fid);
        assert(w < last);
        assert(exports.drop_last()[w] == exports[w]);
        assert(some_export_of_func(exports.drop_last(), fid));
        lemma_stamped_some_export(exports.drop_last(), fid, orig);
        let e = choose|e: int|
            0 <= e < exports.drop_last().len() && export_of_func(
                #[trigger] exports.drop_last()[e],
                fid,
            ) && stamped_name(exports.drop_last(), fid, orig) == Option::Some(
                exports.drop_last()[e].name,
            );
        assert(exports.drop_last()[e] == exports[e]);
        assert(export_of_func(exports[e], fid) && stamped_name(exports, fid, orig)
            == Option::Some(exports[e].name));
    }
}

/// Round-trip identity on unrelated structure: a successful patch leaves
/// every memory, every earlier data segment, every import but the dummy,
/// every export but the placeholder's, and every function's id and kind but
/// the placeholder's body exactly as they were; names change only by the
/// stamping pass, and exactly one segment is appended.
pub proof fn lemma_untouched_structure(m: ModuleV, payload: Seq<u8>, out: ModuleV)
    requires
        m.wf(),
        patch_spec(m, payload) == Result::<ModuleV, PatchError>::Ok(out),
    ensures
        payload_ok(payload),
        out.memories == m.memories,
        out.data.len() == m.data.len() + 1,
        forall|i: int| 0 <= i < m.data.len() ==> out.data[i] == m.data[i],
        out.data[m.data.len() as int] == (SegmentV {
            id: m.next_data_id,
            passive: true,
            bytes: seg_bytes(payload),
        }),
        some_import_matching(m.imports, dummy_import_ns(), dummy_import_name()),
        out.imports == m.imports.remove(
            first_import_matching(m.imports, dummy_import_ns(), dummy_import_name()),
        ),
        out.funcs.len() == m.funcs.len(),
        0 <= stamped_placeholder_index(m) < m.funcs.len(),
        forall|j: int| 0 <= j < m.funcs.len() ==> out.funcs[j].id == m.funcs[j].id,
        forall|j: int|
            0 <= j < m.funcs.len() && j != stamped_placeholder_index(m)
                ==> out.funcs[j].kind == m.funcs[j].kind,
        forall|j: int|
            0 <= j < m.funcs.len() ==> out.funcs[j].name == stamped_name(
                m.exports,
                m.funcs[j].id,
                m.funcs[j].name,
            ),
        func_named(out.funcs[stamped_placeholder_index(m)], placeholder_name()),
        forall|j: int|
            0 <= j < stamped_placeholder_index(m) ==> !func_named(
                #[trigger] restore_spec(m).funcs[j],
                placeholder_name(),
            ),
        m.funcs[stamped_placeholder_index(m)].kind is Local,
        out.funcs[stamped_placeholder_index(m)].kind == (FuncKindV::Local {
            args: m.funcs[stamped_placeholder_index(m)].kind->Local_args,
            body: rewrite_body(
                m.funcs[stamped_placeholder_index(m)].kind->Local_args,
                m.memories[0],
                m.next_data_id,
            ),
        }),
        m.memories.len() > 0,
        ({
            let pfid = stamped_placeholder_id(m);
            if some_export_of_func(m.exports, pfid) {
                out.exports == m.exports.remove(first_export_of_func(m.exports, pfid))
            } else {
                out.exports == m.exports
            }
        }),
{
    let m1 = restore_spec(m);
    let m2 = add_segment_spec(m1, payload);
    assert(payload_ok(payload));
    assert(locate_spec(m2) is Ok);
    assert(some_func_named(m2.funcs, placeholder_name()));
    let p = first_func_named(m2.funcs, placeholder_name());
    lemma_first_func_named(m2.funcs, placeholder_name());
    assert(p == stamped_placeholder_index(m));
    assert(m1.funcs[p] == restamped(m.funcs[p], m.exports));
    assert(!(m2.funcs[p].kind is Imported));
    assert(m.funcs[p].kind is Local);
    let m3 = rewrite_spec(m2, m.next_data_id);
    assert(some_import_matching(m3.imports, dummy_import_ns(), dummy_import_name()));
    let m4 = remove_import_spec(m3, dummy_import_name());
    assert(out == unexport_spec(m4, placeholder_name()));
    // the placeholder is still the first bearer of the name after the rewrite
    assert(m3.funcs == m2.funcs.update(p, m3.funcs[p]));
    assert(m3.funcs[p].name == m2.funcs[p].name);
    assert(func_named(m3.funcs[p], placeholder_name()));
    assert forall|j: int| 0 <= j < p implies !func_named(
        #[trigger] m4.funcs[j],
        placeholder_name(),
    ) by {
        assert(m4.funcs[j] == m2.funcs[j]);
    }
    lemma_first_func_named_is(m4.funcs, placeholder_name(), p);
    assert(m4.funcs[p].id == m.funcs[p].id);
    // the data segment is appended and everything earlier is kept
    assert(out.data == m.data.push(
        SegmentV { id: m.next_data_id, passive: true, bytes: seg_bytes(payload) },
    ));
    assert forall|j: int| 0 <= j < m.funcs.len() implies out.funcs[j].id == m.funcs[j].id
        && out.funcs[j].name == stamped_name(m.exports, m.funcs[j].id, m.funcs[j].name) by {
        if j != p {
            assert(out.funcs[j] == m1.funcs[j]);
        }
    }
}

/// The function bears a debug name equal to the name of one of its own
/// export entries.
pub open spec fn keeps_an_export_name(f: FunctionV, exports: Seq<ExportV>) -> bool {
    f.name matches Some(nm) && (exists|e: int|
        0 <= e < exports.len() && export_of_func(#[trigger] exports[e], f.id) && exports[e].name
            == nm)
}

/// Name preservation: every function exported before the patch keeps a
/// debug name equal to one of its original export names.
pub proof fn lemma_names_preserved(m: ModuleV, payload: Seq<u8>, out: ModuleV)
    requires
        m.wf(),
        patch_spec(m, payload) == Result::<ModuleV, PatchError>::Ok(out),
    ensures
        out.funcs.len() == m.funcs.len(),
        forall|j: int|
            0 <= j < m.funcs.len() && some_export_of_func(m.exports, (#[trigger] m.funcs[j]).id)
                ==> keeps_an_export_name(out.funcs[j], m.exports),
{
    lemma_untouched_structure(m, payload, out);
    assert forall|j: int|
        0 <= j < m.funcs.len() && some_export_of_func(
            m.exports,
            (#[trigger] m.funcs[j]).id,
        ) implies keeps_an_export_name(out.funcs[j], m.exports) by {
        lemma_stamped_some_export(m.exports, m.funcs[j].id, m.funcs[j].name);
        assert(out.funcs[j].id == m.funcs[j].id);
        assert(out.funcs[j].name == stamped_name(m.exports, m.funcs[j].id, m.funcs[j].name));
    }
}

/// Export cleanup: where the placeholder had at most one export entry, no
/// export of it survives a successful patch.
pub proof fn lemma_export_cleanup(m: ModuleV, payload: Seq<u8>, out: ModuleV)
    requires
        m.wf(),
        patch_spec(m, payload) == Result::<ModuleV, PatchError>::Ok(out),
        forall|i: int, j: int|
            #![trigger export_of_func(m.exports[i], stamped_placeholder_id(m)), export_of_func(m.exports[j], stamped_placeholder_id(m))]
            0 <= i < m.exports.len() && 0 <= j < m.exports.len() && export_of_func(
                m.exports[i],
                stamped_placeholder_id(m),
            ) && export_of_func(m.exports[j], stamped_placeholder_id(m)) ==> i == j,
    ensures
        forall|i: int|
            0 <= i < out.exports.len() ==> !export_of_func(
                #[trigger] out.exports[i],
                stamped_placeholder_id(m),
            ),
{
    lemma_untouched_structure(m, payload, out);
    let pfid = stamped_placeholder_id(m);
    if some_export_of_func(m.exports, pfid) {
        let ei = first_export_of_func(m.exports, pfid);
        lemma_first_export_of_func(m.exports, pfid);
        assert(out.exports == m.exports.remove(ei));
        assert forall|i: int| 0 <= i < out.exports.len() implies !export_of_func(
            #[trigger] out.exports[i],
            pfid,
        ) by {
            let oi = if i < ei {
                i
            } else {
                i + 1
            };
            assert(out.exports[i] == m.exports[oi]);
            if export_of_func(m.exports[oi], pfid) {
                assert(export_of_func(m.exports[ei], pfid));
                assert(oi == ei);
            }
        }
    } else {
        assert forall|i: int| 0 <= i < out.exports.len() implies !export_of_func(
            #[trigger] out.exports[i],
            pfid,
        ) by {
            assert(out.exports[i] == m.exports[i]);
        }
    }
}

/// Payload fidelity across the pipeline: the one segment a successful patch
/// injects decodes back to exactly the payload.
pub proof fn lemma_injected_payload_readable(m: ModuleV, payload: Seq<u8>, out: ModuleV)
    requires
        m.wf(),
        patch_spec(m, payload) == Result::<ModuleV, PatchError>::Ok(out),
    ensures
        out.data.len() == m.data.len() + 1,
        out.data.last().bytes == seg_bytes(payload),
        decode_spec(out.data.last().bytes) == Option::Some(payload),
{
    lemma_untouched_structure(m, payload, out);
    assert(out.data.last() == out.data[m.data.len() as int]);
    lemma_payload_fidelity(payload);
}

/// A module with no function bearing the placeholder name, once export
/// names are stamped back, is rejected as `PlaceholderNotFound`.
pub proof fn lemma_missing_placeholder_rejected(m: ModuleV, payload: Seq<u8>)
    requires
        payload_ok(payload),
        !some_func_named(restore_spec(m).funcs, placeholder_name()),
    ensures
        patch_spec(m, payload) == Result::<ModuleV, PatchError>::Err(
            PatchError::PlaceholderNotFound,
        ),
{
    let m2 = add_segment_spec(restore_spec(m), payload);
    assert(m2.funcs == restore_spec(m).funcs);
}

/// A module where the placeholder name resolves to an imported function is
/// rejected as `PlaceholderIsImport`.
pub proof fn lemma_import_placeholder_rejected(m: ModuleV, payload: Seq<u8>)
    requires
        payload_ok(payload),
        some_func_named(restore_spec(m).funcs, placeholder_name()),
        restore_spec(m).funcs[stamped_placeholder_index(m)].kind is Imported,
    ensures
        patch_spec(m, payload) == Result::<ModuleV, PatchError>::Err(
            PatchError::PlaceholderIsImport,
        ),
{
    let m2 = add_segment_spec(restore_spec(m), payload);
    assert(m2.funcs == restore_spec(m).funcs);
}

/// A module with a local placeholder but no declared linear memory is
/// rejected as `NoMemoryDeclared`.
pub proof fn lemma_no_memory_rejected(m: ModuleV, payload: Seq<u8>)
    requires
        payload_ok(payload),
        some_func_named(restore_spec(m).funcs, placeholder_name()),
        restore_spec(m).funcs[stamped_placeholder_index(m)].kind is Local,
        m.memories.len() == 0,
    ensures
        patch_spec(m, payload) == Result::<ModuleV, PatchError>::Err(PatchError::NoMemoryDeclared),
{
    let m2 = add_segment_spec(restore_spec(m), payload);
    assert(m2.funcs == restore_spec(m).funcs);
    assert(m2.memories == m.memories);
}

/// Success is owed: an acceptable payload, a local placeholder, a declared
/// memory and a present dummy import make the patch go through, whether or
/// not the placeholder is exported.
pub proof fn lemma_patch_succeeds(m: ModuleV, payload: Seq<u8>)
    requires
        payload_ok(payload),
        some_func_named(restore_spec(m).funcs, placeholder_name()),
        restore_spec(m).funcs[stamped_placeholder_index(m)].kind is Local,
        m.memories.len() > 0,
        some_import_matching(m.imports, dummy_import_ns(), dummy_import_name()),
    ensures
        patch_spec(m, payload) is Ok,
{
    let m1 = restore_spec(m);
    let m2 = add_segment_spec(m1, payload);
    assert(m2.funcs == m1.funcs);
    assert(m2.memories == m.memories);
    assert(locate_spec(m2) is Ok);
    let m3 = rewrite_spec(m2, m.next_data_id);
    assert(m3.imports == m.imports);
}

/// No second helping: patching the output of a successful patch fails with
/// `ImportNotFound`, because the first run removed the dummy import.  The
/// input is asked to be unambiguous: at most one export of the placeholder,
/// every export bearing the placeholder name targeting it, and at most one
/// dummy import.
pub proof fn lemma_patch_not_idempotent(m: ModuleV, payload: Seq<u8>, out: ModuleV)
    requires
        m.wf(),
        patch_spec(m, payload) == Result::<ModuleV, PatchError>::Ok(out),
        forall|i: int, j: int|
            #![trigger export_of_func(m.exports[i], stamped_placeholder_id(m)), export_of_func(m.exports[j], stamped_placeholder_id(m))]
            0 <= i < m.exports.len() && 0 <= j < m.exports.len() && export_of_func(
                m.exports[i],
                stamped_placeholder_id(m),
            ) && export_of_func(m.exports[j], stamped_placeholder_id(m)) ==> i == j,
        forall|i: int|
            0 <= i < m.exports.len() && (#[trigger] m.exports[i]).name == placeholder_name()
                ==> m.exports[i].item == ExportItem::Function(stamped_placeholder_id(m)),
        forall|i: int, j: int|
            #![trigger import_matches(m.imports[i], dummy_import_ns(), dummy_import_name()), import_matches(m.imports[j], dummy_import_ns(), dummy_import_name())]
            0 <= i < m.imports.len() && 0 <= j < m.imports.len() && import_matches(
                m.imports[i],
                dummy_import_ns(),
                dummy_import_name(),
            ) && import_matches(m.imports[j], dummy_import_ns(), dummy_import_name()) ==> i == j,
    ensures
        patch_spec(out, payload) == Result::<ModuleV, PatchError>::Err(PatchError::ImportNotFound),
{
    lemma_untouched_structure(m, payload, out);
    let p = stamped_placeholder_index(m);
    let pfid = stamped_placeholder_id(m);
    let o1 = restore_spec(out);
    lemma_export_cleanup(m, payload, out);
    assert(!some_export_of_func(out.exports, pfid));
    // the placeholder keeps its name through the second stamping pass
    assert(out.funcs[p].id == m.funcs[p].id);
    lemma_stamped_no_export(out.exports, pfid, out.funcs[p].name);
    assert(o1.funcs[p] == restamped(out.funcs[p], out.exports));
    assert(o1.funcs[p].name == out.funcs[p].name);
    assert(func_named(o1.funcs[p], placeholder_name()));
    // and no earlier function gains that name from the second stamping
    assert forall|j: int| 0 <= j < p implies !func_named(
        #[trigger] o1.funcs[j],
        placeholder_name(),
    ) by {
        let fidj = out.funcs[j].id;
        assert(o1.funcs[j] == restamped(out.funcs[j], out.exports));
        assert(out.funcs[j].name == restore_spec(m).funcs[j].name);
        assert(!func_named(restore_spec(m).funcs[j], placeholder_name()));
        if some_export_of_func(out.exports, fidj) {
            lemma_stamped_some_export(out.exports, fidj, out.funcs[j].name);
            let e = choose|e: int|
                0 <= e < out.exports.len() && export_of_func(#[trigger] out.exports[e], fidj)
                    && stamped_name(out.exports, fidj, out.funcs[j].name) == Option::Some(
                    out.exports[e].name,
                );
            if func_named(o1.funcs[j], placeholder_name()) {
                assert(out.exports[e].name == placeholder_name());
                // map the surviving export back to an export of the input
                if some_export_of_func(m.exports, pfid) {
                    let ei = first_export_of_func(m.exports, pfid);
                    lemma_first_export_of_func(m.exports, pfid);
                    let oe = if e < ei {
                        e
                    } else {
                        e + 1
                    };
                    assert(out.exports[e] == m.exports[oe]);
                    assert(m.exports[oe].item == ExportItem::Function(pfid));
                } else {
                    assert(out.exports[e] == m.exports[e]);
                    assert(m.exports[e].item == ExportItem::Function(pfid));
                }
                assert(fidj == pfid);
                assert(m.funcs[j].id == m.funcs[p].id);
                assert(false);
            }
        } else {
            lemma_stamped_no_export(out.exports, fidj, out.funcs[j].name);
        }
    }
    lemma_first_func_named_is(o1.funcs, placeholder_name(), p);
    // the locator succeeds on the patched module
    let o2 = add_segment_spec(o1, payload);
    assert(o2.funcs == o1.funcs);
    assert(o1.funcs[p].kind == out.funcs[p].kind);
    assert(!(o1.funcs[p].kind is Imported));
    assert(o2.memories == m.memories);
    assert(locate_spec(o2) is Ok);
    // but the dummy import is gone
    let di = first_import_matching(m.imports, dummy_import_ns(), dummy_import_name());
    lemma_first_import_matching(m.imports, dummy_import_ns(), dummy_import_name());
    assert forall|j: int| 0 <= j < out.imports.len() implies !import_matches(
        #[trigger] out.imports[j],
        dummy_import_ns(),
        dummy_import_name(),
    ) by {
        let oj = if j < di {
            j
        } else {
            j + 1
        };
        assert(out.imports[j] == m.imports[oj]);
        if import_matches(m.imports[oj], dummy_import_ns(), dummy_import_name()) {
            assert(import_matches(m.imports[di], dummy_import_ns(), dummy_import_name()));
            assert(oj == di);
        }
    }
    let o3 = rewrite_spec(o2, out.next_data_id);
    assert(o3.imports == out.imports);
    assert(!some_import_matching(o3.imports, dummy_import_ns(), dummy_import_name()));
}

} // verus!
