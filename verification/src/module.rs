//! The structured in-memory form of a binary module: functions, imports,
//! exports, passive data segments and linear memories, each entry carrying a
//! stable numeric id so that the tables can reference one another.

use vstd::prelude::*;

verus! {

/// One instruction of a rewritten function body.  Only the shapes the
/// rewriter emits are distinguished; anything else is carried opaquely.
#[derive(Clone, Copy, Debug, PartialEq, Eq, Structural)]
pub enum Instr {
    /// Push the local with the given slot id onto the stack.
    LocalGet(u32),
    /// Copy bytes from the passive data segment `data` into memory `mem`,
    /// consuming destination offset, source offset and size from the stack.
    MemoryInit { mem: u32, data: u32 },
    /// Any instruction the rewriter does not touch, carried as an opaque code.
    Other(u64),
}

/// How a function is realized: backed by an import, or defined locally.
#[derive(Debug)]
pub enum FuncKind {
    /// The function is provided by the host through the import table.
    Imported { import: u32 },
    /// The function has argument slots and a body of instructions.
    Local { args: Vec<u32>, body: Vec<Instr> },
}

/// A function of the module, with an optional debug name.
#[derive(Debug)]
pub struct Function {
    pub id: u32,
    pub name: Option<String>,
    pub kind: FuncKind,
}

/// An external reference: a (module-namespace, name) pair.
#[derive(Debug)]
pub struct Import {
    pub id: u32,
    pub module: String,
    pub name: String,
}

/// What an export entry exposes.
#[derive(Clone, Copy, Debug, PartialEq, Eq, Structural)]
pub enum ExportItem {
    Function(u32),
    Memory(u32),
    Table(u32),
    Global(u32),
    Tag(u32),
}

/// A (name, item) pair exposing an item to the host.
#[derive(Debug)]
pub struct Export {
    pub id: u32,
    pub name: String,
    pub item: ExportItem,
}

/// A blob of constant bytes bundled with the module.  A passive segment is
/// not loaded at instantiation and must be copied explicitly.
#[derive(Debug)]
pub struct DataSegment {
    pub id: u32,
    pub passive: bool,
    pub bytes: Vec<u8>,
}

/// The whole structured module.  `memories` lists the ids of the declared
/// linear memories; `next_data_id` is the first id not yet used by a data
/// segment.
#[derive(Debug)]
pub struct Module {
    pub funcs: Vec<Function>,
    pub imports: Vec<Import>,
    pub exports: Vec<Export>,
    pub data: Vec<DataSegment>,
    pub memories: Vec<u32>,
    pub next_data_id: u32,
}

/// Mathematical image of `FuncKind`.
#[verifier::ext_equal]
pub enum FuncKindV {
    Imported { import: u32 },
    Local { args: Seq<u32>, body: Seq<Instr> },
}

/// Mathematical image of `Function`.
#[verifier::ext_equal]
pub struct FunctionV {
    pub id: u32,
    pub name: Option<Seq<char>>,
    pub kind: FuncKindV,
}

/// Mathematical image of `Import`.
#[verifier::ext_equal]
pub struct ImportV {
    pub id: u32,
    pub module: Seq<char>,
    pub name: Seq<char>,
}

/// Mathematical image of `Export`.
#[verifier::ext_equal]
pub struct ExportV {
    pub id: u32,
    pub name: Seq<char>,
    pub item: ExportItem,
}

/// Mathematical image of `DataSegment`.
#[verifier::ext_equal]
pub struct SegmentV {
    pub id: u32,
    pub passive: bool,
    pub bytes: Seq<u8>,
}

/// Mathematical image of `Module`.
#[verifier::ext_equal]
pub struct ModuleV {
    pub funcs: Seq<FunctionV>,
    pub imports: Seq<ImportV>,
    pub exports: Seq<ExportV>,
    pub data: Seq<SegmentV>,
    pub memories: Seq<u32>,
    pub next_data_id: u32,
}

impl View for FuncKind {
    type V = FuncKindV;

    open spec fn view(&self) -> FuncKindV {
        match self {
            FuncKind::Imported { import } => FuncKindV::Imported { import: *import },
            FuncKind::Local { args, body } => FuncKindV::Local { args: args@, body: body@ },
        }
    }
}

impl View for Function {
    type V = FunctionV;

    open spec fn view(&self) -> FunctionV {
        FunctionV {
            id: self.id,
            name: match self.name {
                Option::Some(s) => Option::Some(s@),
                Option::None => Option::None,
            },
            kind: self.kind@,
        }
    }
}

impl View for Import {
    type V = ImportV;

    open spec fn view(&self) -> ImportV {
        ImportV { id: self.id, module: self.module@, name: self.name@ }
    }
}

impl View for Export {
    type V = ExportV;

    open spec fn view(&self) -> ExportV {
        ExportV { id: self.id, name: self.name@, item: self.item }
    }
}

impl View for DataSegment {
    type V = SegmentV;

    open spec fn view(&self) -> SegmentV {
        SegmentV { id: self.id, passive: self.passive, bytes: self.bytes@ }
    }
}

pub open spec fn funcs_view(s: Seq<Function>) -> Seq<FunctionV> {
    s.map_values(|f: Function| f.view())
}

pub open spec fn imports_view(s: Seq<Import>) -> Seq<ImportV> {
    s.map_values(|i: Import| i.view())
}

pub open spec fn exports_view(s: Seq<Export>) -> Seq<ExportV> {
    s.map_values(|e: Export| e.view())
}

pub open spec fn data_view(s: Seq<DataSegment>) -> Seq<SegmentV> {
    s.map_values(|d: DataSegment| d.view())
}

impl View for Module {
    type V = ModuleV;

    open spec fn view(&self) -> ModuleV {
        ModuleV {
            funcs: funcs_view(self.funcs@),
            imports: imports_view(self.imports@),
            exports: exports_view(self.exports@),
            data: data_view(self.data@),
            memories: self.memories@,
            next_data_id: self.next_data_id,
        }
    }
}

impl ModuleV {
    /// Table sanity: ids are unique per table, data ids stay below
    /// `next_data_id`, and every exported function id resolves.
    pub open spec fn wf(self) -> bool {
        &&& forall|i: int, j: int|
            #![trigger self.funcs[i].id, self.funcs[j].id]
            0 <= i < j < self.funcs.len() ==> self.funcs[i].id != self.funcs[j].id
        &&& forall|i: int, j: int|
            #![trigger self.imports[i].id, self.imports[j].id]
            0 <= i < j < self.imports.len() ==> self.imports[i].id != self.imports[j].id
        &&& forall|i: int, j: int|
            #![trigger self.exports[i].id, self.exports[j].id]
            0 <= i < j < self.exports.len() ==> self.exports[i].id != self.exports[j].id
        &&& forall|i: int, j: int|
            #![trigger self.data[i].id, self.data[j].id]
            0 <= i < j < self.data.len() ==> self.data[i].id != self.data[j].id
        &&& forall|i: int| 0 <= i < self.data.len() ==> (#[trigger] self.data[i].id) < self.next_data_id
        &&& forall|i: int|
            0 <= i < self.exports.len() ==> match #[trigger] self.exports[i].item {
                ExportItem::Function(fid) => some_func_with_id(self.funcs, fid),
                _ => true,
            }
    }
}

/// The function bears exactly this debug name.
pub open spec fn func_named(f: FunctionV, name: Seq<char>) -> bool {
    f.name matches Some(n) && n == name
}

pub open spec fn some_func_named(funcs: Seq<FunctionV>, name: Seq<char>) -> bool {
    exists|i: int| 0 <= i < funcs.len() && func_named(#[trigger] funcs[i], name)
}

/// Index of the first function bearing the name (meaningful only when
/// `some_func_named` holds; see `lemma_first_func_named`).
pub open spec fn first_func_named(funcs: Seq<FunctionV>, name: Seq<char>) -> int
    decreases funcs.len(),
{
    if funcs.len() == 0 {
        0
    } else if func_named(funcs[0], name) {
        0
    } else {
        1 + first_func_named(funcs.drop_first(), name)
    }
}

pub proof fn lemma_first_func_named(funcs: Seq<FunctionV>, name: Seq<char>)
    requires
        some_func_named(funcs, name),
    ensures
        0 <= first_func_named(funcs, name) < funcs.len(),
        func_named(funcs[first_func_named(funcs, name)], name),
        forall|j: int| 0 <= j < first_func_named(funcs, name) ==> !func_named(#[trigger] funcs[j], name),
    decreases funcs.len(),
{
    if funcs.len() == 0 {
    } else if func_named(funcs[0], name) {
    } else {
        let i = choose|i: int| 0 <= i < funcs.len() && func_named(#[trigger] funcs[i], name);
        assert(func_named(funcs.drop_first()[i - 1], name));
        lemma_first_func_named(funcs.drop_first(), name);
        assert(forall|j: int|
            0 <= j < first_func_named(funcs, name) ==> !func_named(#[trigger] funcs[j], name)) by {
            assert forall|j: int|
                0 <= j < first_func_named(funcs, name) implies !func_named(#[trigger] funcs[j], name) by {
                if j > 0 {
                    assert(funcs[j] == funcs.drop_first()[j - 1]);
                }
            }
        }
    }
}

/// An index that bears the name and has no earlier bearer is the first one.
pub proof fn lemma_first_func_named_is(funcs: Seq<FunctionV>, name: Seq<char>, i: int)
    requires
        0 <= i < funcs.len(),
        func_named(funcs[i], name),
        forall|j: int| 0 <= j < i ==> !func_named(#[trigger] funcs[j], name),
    ensures
        some_func_named(funcs, name),
        first_func_named(funcs, name) == i,
{
    assert(some_func_named(funcs, name));
    lemma_first_func_named(funcs, name);
    let p = first_func_named(funcs, name);
    assert(!(p < i) && !(i < p));
}

pub open spec fn some_func_with_id(funcs: Seq<FunctionV>, fid: u32) -> bool {
    exists|i: int| 0 <= i < funcs.len() && (#[trigger] funcs[i]).id == fid
}

/// The import sits in this namespace under this name.
pub open spec fn import_matches(imp: ImportV, module: Seq<char>, name: Seq<char>) -> bool {
    imp.module == module && imp.name == name
}

pub open spec fn some_import_matching(
    imports: Seq<ImportV>,
    module: Seq<char>,
    name: Seq<char>,
) -> bool {
    exists|i: int| 0 <= i < imports.len() && import_matches(#[trigger] imports[i], module, name)
}

/// Index of the first import matching (namespace, name); meaningful only
/// when `some_import_matching` holds.
pub open spec fn first_import_matching(
    imports: Seq<ImportV>,
    module: Seq<char>,
    name: Seq<char>,
) -> int
    decreases imports.len(),
{
    if imports.len() == 0 {
        0
    } else if import_matches(imports[0], module, name) {
        0
    } else {
        1 + first_import_matching(imports.drop_first(), module, name)
    }
}

pub proof fn lemma_first_import_matching(imports: Seq<ImportV>, module: Seq<char>, name: Seq<char>)
    requires
        some_import_matching(imports, module, name),
    ensures
        0 <= first_import_matching(imports, module, name) < imports.len(),
        import_matches(imports[first_import_matching(imports, module, name)], module, name),
        forall|j: int|
            0 <= j < first_import_matching(imports, module, name)
                ==> !import_matches(#[trigger] imports[j], module, name),
    decreases imports.len(),
{
    if imports.len() == 0 {
    } else if import_matches(imports[0], module, name) {
    } else {
        let i = choose|i: int|
            0 <= i < imports.len() && import_matches(#[trigger] imports[i], module, name);
        assert(import_matches(imports.drop_first()[i - 1], module, name));
        lemma_first_import_matching(imports.drop_first(), module, name);
        assert forall|j: int|
            0 <= j < first_import_matching(imports, module, name) implies !import_matches(
            #[trigger] imports[j],
            module,
            name,
        ) by {
            if j > 0 {
                assert(imports[j] == imports.drop_first()[j - 1]);
            }
        }
    }
}

/// The export entry exposes the function with this id.
pub open spec fn export_of_func(e: ExportV, fid: u32) -> bool {
    e.item == ExportItem::Function(fid)
}

pub open spec fn some_export_of_func(exports: Seq<ExportV>, fid: u32) -> bool {
    exists|i: int| 0 <= i < exports.len() && export_of_func(#[trigger] exports[i], fid)
}

/// Index of the first export of the function; meaningful only when
/// `some_export_of_func` holds.
pub open spec fn first_export_of_func(exports: Seq<ExportV>, fid: u32) -> int
    decreases exports.len(),
{
    if exports.len() == 0 {
        0
    } else if export_of_func(exports[0], fid) {
        0
    } else {
        1 + first_export_of_func(exports.drop_first(), fid)
    }
}

pub proof fn lemma_first_export_of_func(exports: Seq<ExportV>, fid: u32)
    requires
        some_export_of_func(exports, fid),
    ensures
        0 <= first_export_of_func(exports, fid) < exports.len(),
        export_of_func(exports[first_export_of_func(exports, fid)], fid),
        forall|j: int|
            0 <= j < first_export_of_func(exports, fid)
                ==> !export_of_func(#[trigger] exports[j], fid),
    decreases exports.len(),
{
    if exports.len() == 0 {
    } else if export_of_func(exports[0], fid) {
    } else {
        let i = choose|i: int|
            0 <= i < exports.len() && export_of_func(#[trigger] exports[i], fid);
        assert(export_of_func(exports.drop_first()[i - 1], fid));
        lemma_first_export_of_func(exports.drop_first(), fid);
        assert forall|j: int|
            0 <= j < first_export_of_func(exports, fid) implies !export_of_func(
            #[trigger] exports[j],
            fid,
        ) by {
            if j > 0 {
                assert(exports[j] == exports.drop_first()[j - 1]);
            }
        }
    }
}

impl Module {
    /// Index of the first function bearing `name` as its debug name, if any.
    pub fn find_func_by_name(&self, name: &String) -> (r: Option<usize>)
        ensures
            match r {
                Some(i) => {
                    &&& 0 <= i < self@.funcs.len()
                    &&& i == first_func_named(self@.funcs, name@)
                    &&& func_named(self@.funcs[i as int], name@)
                    &&& some_func_named(self@.funcs, name@)
                },
                None => !some_func_named(self@.funcs, name@),
            },
    {
        let n = self.funcs.len();
        let mut k: usize = 0;
        while k < n
            invariant
                n == self.funcs@.len(),
                0 <= k <= n,
                forall|j: int| 0 <= j < k ==> !func_named(#[trigger] self@.funcs[j], name@),
            decreases n - k,
        {
            assert(self@.funcs[k as int] == self.funcs@[k as int]@);
            let found = match &self.funcs[k].name {
                Some(s) => s.eq(name),
                None => false,
            };
            if found {
                proof {
                    assert(func_named(self@.funcs[k as int], name@));
                    lemma_first_func_named(self@.funcs, name@);
                    let p = first_func_named(self@.funcs, name@);
                    assert(!(p < k) && !(k < p));
                }
                return Some(k);
            }
            k += 1;
        }
        None
    }

    /// Index of the first import matching (`module`, `name`), if any.
    pub fn find_import(&self, module: &String, name: &String) -> (r: Option<usize>)
        ensures
            match r {
                Some(i) => {
                    &&& 0 <= i < self@.imports.len()
                    &&& i == first_import_matching(self@.imports, module@, name@)
                    &&& import_matches(self@.imports[i as int], module@, name@)
                    &&& some_import_matching(self@.imports, module@, name@)
                },
                None => !some_import_matching(self@.imports, module@, name@),
            },
    {
        let n = self.imports.len();
        let mut k: usize = 0;
        while k < n
            invariant
                n == self.imports@.len(),
                0 <= k <= n,
                forall|j: int|
                    0 <= j < k ==> !import_matches(#[trigger] self@.imports[j], module@, name@),
            decreases n - k,
        {
            assert(self@.imports[k as int] == self.imports@[k as int]@);
            if self.imports[k].module.eq(module) && self.imports[k].name.eq(name) {
                proof {
                    assert(import_matches(self@.imports[k as int], module@, name@));
                    lemma_first_import_matching(self@.imports, module@, name@);
                    let p = first_import_matching(self@.imports, module@, name@);
                    assert(!(p < k) && !(k < p));
                }
                return Some(k);
            }
            k += 1;
        }
        None
    }

    /// Index of the first export exposing the function with id `fid`, if any.
    pub fn find_export_of_func(&self, fid: u32) -> (r: Option<usize>)
        ensures
            match r {
                Some(i) => {
                    &&& 0 <= i < self@.exports.len()
                    &&& i == first_export_of_func(self@.exports, fid)
                    &&& export_of_func(self@.exports[i as int], fid)
                    &&& some_export_of_func(self@.exports, fid)
                },
                None => !some_export_of_func(self@.exports, fid),
            },
    {
        let n = self.exports.len();
        let mut k: usize = 0;
        while k < n
            invariant
                n == self.exports@.len(),
                0 <= k <= n,
                forall|j: int| 0 <= j < k ==> !export_of_func(#[trigger] self@.exports[j], fid),
            decreases n - k,
        {
            assert(self@.exports[k as int] == self.exports@[k as int]@);
            let is_match = match self.exports[k].item {
                ExportItem::Function(f) => f == fid,
                _ => false,
            };
            if is_match {
                proof {
                    assert(export_of_func(self@.exports[k as int], fid));
                    lemma_first_export_of_func(self@.exports, fid);
                    let p = first_export_of_func(self@.exports, fid);
                    assert(!(p < k) && !(k < p));
                }
                return Some(k);
            }
            k += 1;
        }
        None
    }

    /// Index of the function with id `fid`; callable only when such a
    /// function exists.
    pub fn func_index_of_id(&self, fid: u32) -> (r: usize)
        requires
            some_func_with_id(self@.funcs, fid),
        ensures
            0 <= r < self@.funcs.len(),
            self@.funcs[r as int].id == fid,
    {
        let n = self.funcs.len();
        let mut k: usize = 0;
        while k < n
            invariant
                n == self.funcs@.len(),
                0 <= k <= n,
                some_func_with_id(self@.funcs, fid),
                forall|j: int| 0 <= j < k ==> (#[trigger] self@.funcs[j]).id != fid,
            decreases n - k,
        {
            assert(self@.funcs[k as int] == self.funcs@[k as int]@);
            if self.funcs[k].id == fid {
                return k;
            }
            k += 1;
        }
        proof {
            let i = choose|i: int| 0 <= i < self@.funcs.len() && (#[trigger] self@.funcs[i]).id == fid;
            assert(false);
        }
        0
    }
}

} // verus!
