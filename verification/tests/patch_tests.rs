use wasm_inject::module::{
    DataSegment, Export, ExportItem, FuncKind, Function, Import, Instr, Module,
};
use wasm_inject::patch::{patch_module, PatchError};
use wasm_inject::segment::read_embedded_message;

fn local(id: u32, name: Option<&str>, args: Vec<u32>, body: Vec<Instr>) -> Function {
    Function {
        id,
        name: name.map(|s| s.to_string()),
        kind: FuncKind::Local { args, body },
    }
}

fn imported(id: u32, name: Option<&str>, import: u32) -> Function {
    Function {
        id,
        name: name.map(|s| s.to_string()),
        kind: FuncKind::Imported { import },
    }
}

fn dummy_import(id: u32) -> Import {
    Import {
        id,
        module: "env".to_string(),
        name: "__core_memory_init_dummy".to_string(),
    }
}

/// A well-formed patch target: a dummy-import-backed function, the exported
/// placeholder, one more exported function, one memory, one old segment.
fn sample_module() -> Module {
    Module {
        funcs: vec![
            imported(0, None, 0),
            local(
                1,
                Some("__core_memory_init"),
                vec![10, 11, 12],
                vec![Instr::Other(7)],
            ),
            local(2, Some("helper"), vec![], vec![Instr::Other(1), Instr::Other(2)]),
        ],
        imports: vec![dummy_import(0)],
        exports: vec![
            Export {
                id: 0,
                name: "__core_memory_init".to_string(),
                item: ExportItem::Function(1),
            },
            Export {
                id: 1,
                name: "run".to_string(),
                item: ExportItem::Function(2),
            },
            Export {
                id: 2,
                name: "memory".to_string(),
                item: ExportItem::Memory(0),
            },
        ],
        data: vec![DataSegment {
            id: 0,
            passive: false,
            bytes: vec![1, 2, 3],
        }],
        memories: vec![0],
        next_data_id: 1,
    }
}

fn func_by_id(m: &Module, id: u32) -> &Function {
    m.funcs.iter().find(|f| f.id == id).expect("function id not found")
}

#[test]
fn patch_injects_length_prefixed_segment() {
    let out = patch_module(sample_module(), &b"hi".to_vec()).expect("patch must succeed");
    assert_eq!(out.data.len(), 2);
    let seg = &out.data[1];
    assert_eq!(seg.id, 1);
    assert!(seg.passive);
    assert_eq!(seg.bytes, vec![0x00, 0x00, 0x00, 0x03, 0x68, 0x69, 0x00]);
}

#[test]
fn patch_rewrites_placeholder_body() {
    let out = patch_module(sample_module(), &b"hi".to_vec()).expect("patch must succeed");
    let f = func_by_id(&out, 1);
    match &f.kind {
        FuncKind::Local { args, body } => {
            assert_eq!(args, &vec![10, 11, 12]);
            assert_eq!(
                body,
                &vec![
                    Instr::LocalGet(10),
                    Instr::LocalGet(11),
                    Instr::LocalGet(12),
                    Instr::MemoryInit { mem: 0, data: 1 },
                ]
            );
        }
        FuncKind::Imported { .. } => panic!("placeholder must stay local"),
    }
}

#[test]
fn patch_removes_dummy_import() {
    let out = patch_module(sample_module(), &b"hi".to_vec()).expect("patch must succeed");
    assert!(out.imports.is_empty());
}

#[test]
fn patch_removes_placeholder_export_only() {
    let out = patch_module(sample_module(), &b"hi".to_vec()).expect("patch must succeed");
    assert_eq!(out.exports.len(), 2);
    assert!(out
        .exports
        .iter()
        .all(|e| e.item != ExportItem::Function(1)));
    assert_eq!(out.exports[0].name, "run");
    assert_eq!(out.exports[1].name, "memory");
}

#[test]
fn patch_leaves_unrelated_structure_alone() {
    let out = patch_module(sample_module(), &b"hi".to_vec()).expect("patch must succeed");
    assert_eq!(out.memories, vec![0]);
    assert_eq!(out.data[0].id, 0);
    assert!(!out.data[0].passive);
    assert_eq!(out.data[0].bytes, vec![1, 2, 3]);
    let f0 = func_by_id(&out, 0);
    match f0.kind {
        FuncKind::Imported { import } => assert_eq!(import, 0),
        FuncKind::Local { .. } => panic!("untouched import-backed function changed kind"),
    }
    let f2 = func_by_id(&out, 2);
    match &f2.kind {
        FuncKind::Local { args, body } => {
            assert!(args.is_empty());
            assert_eq!(body, &vec![Instr::Other(1), Instr::Other(2)]);
        }
        FuncKind::Imported { .. } => panic!("untouched local function changed kind"),
    }
}

#[test]
fn patch_restores_exported_names_as_debug_names() {
    let out = patch_module(sample_module(), &b"hi".to_vec()).expect("patch must succeed");
    assert_eq!(
        func_by_id(&out, 1).name.as_deref(),
        Some("__core_memory_init")
    );
    assert_eq!(func_by_id(&out, 2).name.as_deref(), Some("run"));
}

#[test]
fn second_patch_fails_with_import_not_found() {
    let once = patch_module(sample_module(), &b"hi".to_vec()).expect("first patch must succeed");
    let twice = patch_module(once, &b"hi".to_vec());
    assert_eq!(twice.unwrap_err(), PatchError::ImportNotFound);
}

#[test]
fn missing_placeholder_is_rejected() {
    let mut m = sample_module();
    m.funcs[1].name = Some("something_else".to_string());
    m.exports.remove(0);
    let r = patch_module(m, &b"hi".to_vec());
    assert_eq!(r.unwrap_err(), PatchError::PlaceholderNotFound);
}

#[test]
fn imported_placeholder_is_rejected() {
    let mut m = sample_module();
    m.funcs[1] = imported(1, Some("__core_memory_init"), 0);
    m.exports.remove(0);
    let r = patch_module(m, &b"hi".to_vec());
    assert_eq!(r.unwrap_err(), PatchError::PlaceholderIsImport);
}

#[test]
fn module_without_memory_is_rejected() {
    let mut m = sample_module();
    m.memories.clear();
    let r = patch_module(m, &b"hi".to_vec());
    assert_eq!(r.unwrap_err(), PatchError::NoMemoryDeclared);
}

#[test]
fn missing_dummy_import_is_rejected() {
    let mut m = sample_module();
    m.imports.clear();
    m.funcs[0] = local(0, None, vec![], vec![Instr::Other(9)]);
    let r = patch_module(m, &b"hi".to_vec());
    assert_eq!(r.unwrap_err(), PatchError::ImportNotFound);
}

#[test]
fn payload_with_embedded_terminator_is_rejected() {
    let r = patch_module(sample_module(), &vec![0x68, 0x00, 0x69]);
    assert_eq!(r.unwrap_err(), PatchError::PayloadEncodingError);
}

#[test]
fn unexported_placeholder_still_patches() {
    let mut m = sample_module();
    m.exports.remove(0);
    let out = patch_module(m, &b"hi".to_vec()).expect("patch must succeed without the export");
    assert_eq!(out.exports.len(), 2);
    assert_eq!(
        func_by_id(&out, 1).name.as_deref(),
        Some("__core_memory_init")
    );
}

#[test]
fn injected_segment_reads_back_as_payload() {
    let payload = b"a build-time message".to_vec();
    let out = patch_module(sample_module(), &payload).expect("patch must succeed");
    let seg = out.data.last().expect("segment present");
    assert_eq!(read_embedded_message(&seg.bytes), Some(payload));
}

#[test]
fn empty_payload_patches_and_reads_back() {
    let out = patch_module(sample_module(), &Vec::new()).expect("patch must succeed");
    let seg = out.data.last().expect("segment present");
    assert_eq!(seg.bytes, vec![0x00, 0x00, 0x00, 0x01, 0x00]);
    assert_eq!(read_embedded_message(&seg.bytes), Some(Vec::new()));
}
