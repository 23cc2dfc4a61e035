//! The workspace database: canonical file identities, per-file analysis
//! records, and the global symbol table of type definitions.
//!
//! The database owns one record per file, keyed by the file's canonical path,
//! and a flat table of type-definition records keyed by symbol path. Records
//! are created when a file is first seen and are never evicted; closing a
//! document only clears its open flag.

pub mod ast_scan;
pub mod file;
pub mod module;

use vstd::prelude::*;

use crate::diagnostics::Range;
use crate::text_util::str_eq;

verus! {

/// View of a [`FileUrl`]: the canonical path as a sequence of segments and
/// the URI string it was paired with.
#[verifier::ext_equal]
pub ghost struct FileUrlV {
    pub segments: Seq<Seq<char>>,
    pub url: Seq<char>,
}

/// A canonical absolute filesystem path, as its non-empty sequence of path
/// segments, paired with the URI form it was derived from. The caller
/// canonicalizes the path before constructing a `FileUrl`, so two values with
/// equal segments denote the same file; equality is decided on the segments
/// alone, the URI being a derived, cached representation.
#[derive(Debug)]
pub struct FileUrl {
    pub segments: Vec<String>,
    pub url: String,
}

impl View for FileUrl {
    type V = FileUrlV;

    open spec fn view(&self) -> FileUrlV {
        FileUrlV { segments: self.segments.deep_view(), url: self.url@ }
    }
}

impl FileUrl {
    /// A file identity is well formed when its path has at least one segment
    /// (a canonical path to a file always carries the file's own name).
    pub open spec fn wf(&self) -> bool {
        self@.segments.len() > 0
    }

    /// Pairs an already-canonicalized path, split into its segments, with its
    /// URI form.
    pub fn new(segments: Vec<String>, url: String) -> (r: FileUrl)
        requires
            segments.len() > 0,
        ensures
            r@.segments == segments.deep_view(),
            r@.url == url@,
            r.wf(),
    {
        FileUrl { segments, url }
    }

    /// The canonical path, segment by segment.
    pub fn path(&self) -> (r: &Vec<String>)
        ensures
            r.deep_view() == self@.segments,
    {
        &self.segments
    }

    /// The URI form of the path.
    pub fn url(&self) -> (r: &String)
        ensures
            r@ == self@.url,
    {
        &self.url
    }

    /// The file's own name: the last path segment.
    pub fn file_name(&self) -> (r: &String)
        requires
            self.wf(),
        ensures
            r@ == self@.segments.last(),
    {
        proof {
            assert(self.segments.deep_view().len() == self.segments@.len());
        }
        let r = &self.segments[self.segments.len() - 1];
        proof {
            assert(self@.segments.last() == self.segments@[self.segments@.len() - 1]@);
        }
        r
    }

    /// An identical copy of this identity.
    pub fn duplicate(&self) -> (r: FileUrl)
        ensures
            r@ == self@,
    {
        let mut segments: Vec<String> = Vec::new();
        let mut i: usize = 0;
        while i < self.segments.len()
            invariant
                i <= self.segments@.len(),
                segments@.len() == i,
                forall|j: int| 0 <= j < i ==> segments@[j]@ == self.segments@[j]@,
            decreases self.segments@.len() - i,
        {
            segments.push(self.segments[i].clone());
            i += 1;
        }
        proof {
            assert(segments.deep_view() =~= self.segments.deep_view());
        }
        FileUrl { segments, url: self.url.clone() }
    }

    /// Whether two identities denote the same file: their canonical paths are
    /// equal, whatever URI each was paired with.
    pub fn same_file(&self, other: &FileUrl) -> (r: bool)
        ensures
            r == (self@.segments == other@.segments),
    {
        string_vec_eq(&self.segments, &other.segments)
    }
}

/// Segment-wise equality of two segment lists, decided over their views.
pub fn string_vec_eq(a: &Vec<String>, b: &Vec<String>) -> (r: bool)
    ensures
        r == (a.deep_view() == b.deep_view()),
{
    if a.len() != b.len() {
        proof {
            assert(a.deep_view().len() != b.deep_view().len());
        }
        return false;
    }
    let mut i: usize = 0;
    while i < a.len()
        invariant
            a@.len() == b@.len(),
            i <= a@.len(),
            forall|j: int| 0 <= j < i ==> a@[j]@ == b@[j]@,
        decreases a@.len() - i,
    {
        if !str_eq(a[i].as_str(), b[i].as_str()) {
            proof {
                assert(a.deep_view()[i as int] != b.deep_view()[i as int]);
            }
            return false;
        }
        i += 1;
    }
    proof {
        assert(a.deep_view() =~= b.deep_view());
    }
    true
}

/// View of a [`ModuleInclude`].
#[verifier::ext_equal]
pub ghost struct ModuleIncludeV {
    pub name: Seq<char>,
    pub range: Range,
}

/// A module declaration found in a file: the declared submodule's name and
/// the source range of the whole declaration statement.
#[derive(Debug)]
pub struct ModuleInclude {
    pub name: String,
    pub range: Range,
}

impl View for ModuleInclude {
    type V = ModuleIncludeV;

    open spec fn view(&self) -> ModuleIncludeV {
        ModuleIncludeV { name: self.name@, range: self.range }
    }
}

impl DeepView for ModuleInclude {
    type V = ModuleIncludeV;

    open spec fn deep_view(&self) -> ModuleIncludeV {
        self.view()
    }
}

/// View of a [`ModulePath`].
#[verifier::ext_equal]
pub ghost struct ModulePathV {
    pub crate_: Seq<char>,
    pub segments: Seq<Seq<char>>,
}

/// A module scope: a crate identifier plus an ordered list of path segments.
/// The segments are reserved for future nested-scope support and stay empty
/// today, which makes symbol lookup flat by name.
#[derive(Debug)]
pub struct ModulePath {
    pub crate_: String,
    pub segments: Vec<String>,
}

impl View for ModulePath {
    type V = ModulePathV;

    open spec fn view(&self) -> ModulePathV {
        ModulePathV { crate_: self.crate_@, segments: self.segments.deep_view() }
    }
}

/// Per-module bookkeeping: the module's name and its declared children.
#[derive(Debug)]
pub struct ModuleData {
    pub name: String,
    pub children: Vec<String>,
}

/// View of an [`ItemPath`].
#[verifier::ext_equal]
pub ghost struct ItemPathV {
    pub module: ModulePathV,
    pub name: Seq<char>,
}

/// The flat symbol key: a module scope plus a bare name. Two type definitions
/// with the same name anywhere in the workspace collide under this key, a
/// documented limitation of the flat scope.
#[derive(Debug)]
pub struct ItemPath {
    pub module: ModulePath,
    pub name: String,
}

impl View for ItemPath {
    type V = ItemPathV;

    open spec fn view(&self) -> ItemPathV {
        ItemPathV { module: self.module@, name: self.name@ }
    }
}

impl DeepView for ItemPath {
    type V = ItemPathV;

    open spec fn deep_view(&self) -> ItemPathV {
        self.view()
    }
}

impl ItemPath {
    /// An identical copy of this key.
    pub fn duplicate(&self) -> (r: ItemPath)
        ensures
            r@ == self@,
    {
        let mut segments: Vec<String> = Vec::new();
        let mut i: usize = 0;
        while i < self.module.segments.len()
            invariant
                i <= self.module.segments@.len(),
                segments@.len() == i,
                forall|j: int| 0 <= j < i ==> segments@[j]@ == self.module.segments@[j]@,
            decreases self.module.segments@.len() - i,
        {
            segments.push(self.module.segments[i].clone());
            i += 1;
        }
        proof {
            assert(segments.deep_view() =~= self.module.segments.deep_view());
        }
        ItemPath {
            module: ModulePath { crate_: self.module.crate_.clone(), segments },
            name: self.name.clone(),
        }
    }
}

/// Key equality for the symbol table, decided over the views.
pub fn item_path_eq(a: &ItemPath, b: &ItemPath) -> (r: bool)
    ensures
        r == (a@ == b@),
{
    let crates_eq = a.module.crate_ == b.module.crate_;
    let segs_eq = string_vec_eq(&a.module.segments, &b.module.segments);
    let names_eq = a.name == b.name;
    proof {
        if a@ == b@ {
            assert(a@.module.crate_ == b@.module.crate_);
        }
        if a.module.crate_@ == b.module.crate_@ && a.module.segments.deep_view()
            == b.module.segments.deep_view() && a.name@ == b.name@ {
            assert(a@.module =~= b@.module);
            assert(a@ =~= b@);
        }
    }
    crates_eq && segs_eq && names_eq
}

/// View of a [`TypeDefData`].
#[verifier::ext_equal]
pub ghost struct TypeDefDataV {
    pub file_path: FileUrlV,
    pub range: Range,
    pub name: Seq<char>,
}

/// A type-definition record: the file that owns the definition, the source
/// range of the definition, and its name.
#[derive(Debug)]
pub struct TypeDefData {
    pub file_path: FileUrl,
    pub range: Range,
    pub name: String,
}

impl View for TypeDefData {
    type V = TypeDefDataV;

    open spec fn view(&self) -> TypeDefDataV {
        TypeDefDataV { file_path: self.file_path@, range: self.range, name: self.name@ }
    }
}

impl DeepView for TypeDefData {
    type V = TypeDefDataV;

    open spec fn deep_view(&self) -> TypeDefDataV {
        self.view()
    }
}

/// View of a [`FileData`].
#[verifier::ext_equal]
pub ghost struct FileDataV {
    pub version: i32,
    pub text: Seq<char>,
    pub is_open: bool,
    pub modules: Seq<ModuleIncludeV>,
    pub parent: Option<FileUrlV>,
    pub types: Seq<ItemPathV>,
}

/// The per-file analysis record. The line-offset index and the parsed syntax
/// tree are recomputed from `text` through the parser boundary whenever they
/// are needed, so the record stores the text itself as the single source of
/// those derived structures.
pub struct FileData {
    /// The editor's version counter for this document; `0` for disk-loaded
    /// files never opened by an editor.
    pub version: i32,
    /// The full current text of the document.
    pub text: String,
    /// Whether the document is open in the editor.
    pub is_open: bool,
    /// The module declarations found in this file, rebuilt on every scan.
    pub modules: Vec<ModuleInclude>,
    /// This file's resolved parent module file, if any.
    pub parent: Option<FileUrl>,
    /// The symbol keys currently owned by this file, kept so stale entries
    /// can be purged before a rescan.
    pub types: Vec<ItemPath>,
}

/// View of the parent link of a record.
pub open spec fn opt_file_url_view(o: Option<FileUrl>) -> Option<FileUrlV> {
    match o {
        Some(u) => Some(u@),
        None => None,
    }
}

impl View for FileData {
    type V = FileDataV;

    open spec fn view(&self) -> FileDataV {
        FileDataV {
            version: self.version,
            text: self.text@,
            is_open: self.is_open,
            modules: self.modules.deep_view(),
            parent: opt_file_url_view(self.parent),
            types: self.types.deep_view(),
        }
    }
}

/// The view of a freshly created, still empty record.
pub open spec fn file_data_default() -> FileDataV {
    FileDataV {
        version: 0,
        text: Seq::empty(),
        is_open: false,
        modules: Seq::empty(),
        parent: None,
        types: Seq::empty(),
    }
}

impl Default for FileData {
    /// A fresh record: version `0`, empty text, not open, no module
    /// declarations, no parent, no owned symbols.
    fn default() -> (r: FileData)
        ensures
            r@ == file_data_default(),
    {
        let r = FileData {
            version: 0,
            text: String::new(),
            is_open: false,
            modules: Vec::new(),
            parent: None,
            types: Vec::new(),
        };
        proof {
            assert(r@ =~= file_data_default());
        }
        r
    }
}

/// One slot of the per-file store: a file identity and its record.
pub struct FileEntry {
    pub file: FileUrl,
    pub data: FileData,
}

/// One slot of the global symbol table: a symbol key and its record.
pub struct TypeDefEntry {
    pub path: ItemPath,
    pub data: TypeDefData,
}

/// One slot of the per-module store.
pub struct ModuleEntry {
    pub path: ModulePath,
    pub data: ModuleData,
}

/// Whether some record in `files` is keyed by the canonical path `segs`.
pub open spec fn has_file(files: Seq<FileEntry>, segs: Seq<Seq<char>>) -> bool {
    exists|i: int| 0 <= i < files.len() && files[i].file@.segments == segs
}

/// The index of the record keyed by `segs`; meaningful when `has_file` holds
/// and the keys are distinct.
pub open spec fn file_idx(files: Seq<FileEntry>, segs: Seq<Seq<char>>) -> int {
    choose|i: int| 0 <= i < files.len() && files[i].file@.segments == segs
}

/// The view of the record keyed by `segs`, when present.
pub open spec fn file_data_of(files: Seq<FileEntry>, segs: Seq<Seq<char>>) -> FileDataV {
    files[file_idx(files, segs)].data@
}

/// The symbol table as a sequence of (key, record) views.
pub open spec fn tds_view(tds: Seq<TypeDefEntry>) -> Seq<(ItemPathV, TypeDefDataV)> {
    tds.map_values(|e: TypeDefEntry| (e.path@, e.data@))
}

/// Whether the symbol table holds an entry under `key`.
pub open spec fn tdv_has(s: Seq<(ItemPathV, TypeDefDataV)>, key: ItemPathV) -> bool {
    exists|i: int| 0 <= i < s.len() && s[i].0 == key
}

/// The index of the entry under `key`; meaningful when `tdv_has` holds and
/// the keys are distinct.
pub open spec fn tdv_idx(s: Seq<(ItemPathV, TypeDefDataV)>, key: ItemPathV) -> int {
    choose|i: int| 0 <= i < s.len() && s[i].0 == key
}

/// What the symbol table currently associates with `key`.
pub open spec fn tdv_lookup(s: Seq<(ItemPathV, TypeDefDataV)>, key: ItemPathV) -> Option<
    TypeDefDataV,
> {
    if tdv_has(s, key) {
        Some(s[tdv_idx(s, key)].1)
    } else {
        None
    }
}

/// The keys of the symbol table are pairwise distinct.
pub open spec fn tdv_uniq(s: Seq<(ItemPathV, TypeDefDataV)>) -> bool {
    forall|i: int, j: int| 0 <= i < j < s.len() ==> s[i].0 != s[j].0
}

/// The table after an insertion under `key`: a colliding entry is replaced in
/// place (the newest writer wins), a fresh key is appended.
pub open spec fn tdv_insert(
    s: Seq<(ItemPathV, TypeDefDataV)>,
    key: ItemPathV,
    data: TypeDefDataV,
) -> Seq<(ItemPathV, TypeDefDataV)> {
    if tdv_has(s, key) {
        s.update(tdv_idx(s, key), (key, data))
    } else {
        s.push((key, data))
    }
}

/// How many entries the table holds under `key`.
pub open spec fn tdv_count(s: Seq<(ItemPathV, TypeDefDataV)>, key: ItemPathV) -> int
    decreases s.len(),
{
    if s.len() == 0 {
        0
    } else {
        tdv_count(s.drop_last(), key) + if s.last().0 == key {
            1int
        } else {
            0int
        }
    }
}

/// The table after the purge step of an update of the file at `segs`: every
/// entry whose key is among `keys` and which is currently attributed to that
/// file is removed; everything else stays, in order.
pub open spec fn purge_tdsv(
    s: Seq<(ItemPathV, TypeDefDataV)>,
    keys: Seq<ItemPathV>,
    segs: Seq<Seq<char>>,
) -> Seq<(ItemPathV, TypeDefDataV)>
    decreases s.len(),
{
    if s.len() == 0 {
        Seq::empty()
    } else {
        let rest = purge_tdsv(s.drop_last(), keys, segs);
        if keys.contains(s.last().0) && s.last().1.file_path.segments == segs {
            rest
        } else {
            rest.push(s.last())
        }
    }
}

/// The central mutable store: one record per file, the per-module store, and
/// the global flat symbol table of type definitions.
pub struct Database {
    /// One analysis record per known file, keyed by canonical path.
    pub files: Vec<FileEntry>,
    /// Per-module bookkeeping, reserved with [`ModuleData`] for future
    /// nested-scope support; nothing populates it today.
    pub modules: Vec<ModuleEntry>,
    /// The global flat symbol table of type definitions.
    pub type_defs: Vec<TypeDefEntry>,
}

impl Database {
    /// Well-formedness: file records are keyed by distinct canonical paths,
    /// symbol-table entries by distinct keys, every file key is a non-empty
    /// path, and every parent link points at a record that exists.
    pub open spec fn wf(&self) -> bool {
        &&& forall|i: int, j: int|
            0 <= i < j < self.files@.len() ==> self.files@[i].file@.segments
                != self.files@[j].file@.segments
        &&& forall|i: int|
            0 <= i < self.files@.len() ==> (#[trigger] self.files@[i]).file.wf()
        &&& forall|i: int|
            0 <= i < self.files@.len() ==> (#[trigger] self.files@[i]).data.text@.len()
                < crate::parser::MAX_TEXT_LEN
        &&& forall|i: int, j: int|
            0 <= i < j < self.type_defs@.len() ==> self.type_defs@[i].path@
                != self.type_defs@[j].path@
        &&& forall|i: int|
            0 <= i < self.files@.len() ==> match (#[trigger] self.files@[i]).data.parent {
                Some(p) => has_file(self.files@, p@.segments),
                None => true,
            }
    }

    /// An empty database.
    pub fn new() -> (r: Database)
        ensures
            r.wf(),
            r.files@.len() == 0,
            r.modules@.len() == 0,
            r.type_defs@.len() == 0,
    {
        Database { files: Vec::new(), modules: Vec::new(), type_defs: Vec::new() }
    }

    /// The index of the record for `file`, when the database holds one.
    pub(crate) fn find_file_index(&self, file: &FileUrl) -> (r: Option<usize>)
        ensures
            match r {
                Some(i) => 0 <= i < self.files@.len() && self.files@[i as int].file@.segments
                    == file@.segments,
                None => !has_file(self.files@, file@.segments),
            },
    {
        let mut i: usize = 0;
        while i < self.files.len()
            invariant
                i <= self.files@.len(),
                forall|j: int| 0 <= j < i ==> self.files@[j].file@.segments != file@.segments,
            decreases self.files@.len() - i,
        {
            if self.files[i].file.same_file(file) {
                return Some(i);
            }
            i += 1;
        }
        None
    }

    /// Looks a file's record up without touching the store. The caller loads
    /// the file first when it wants the lazy-load behaviour.
    pub fn get_file(&self, file: &FileUrl) -> (r: Option<&FileData>)
        requires
            self.wf(),
        ensures
            match r {
                Some(d) => has_file(self.files@, file@.segments) && d@ == file_data_of(
                    self.files@,
                    file@.segments,
                ),
                None => !has_file(self.files@, file@.segments),
            },
    {
        match self.find_file_index(file) {
            Some(i) => {
                proof {
                    assert(file_idx(self.files@, file@.segments) == i as int);
                }
                Some(&self.files[i].data)
            },
            None => None,
        }
    }

    /// Creates an initial empty record for `file` if none exists yet; returns
    /// whether a record was created. This guards against redundant
    /// recomputation when the same file is reached through several resolution
    /// paths.
    pub fn ensure_record(&mut self, file: &FileUrl) -> (created: bool)
        requires
            old(self).wf(),
            file.wf(),
        ensures
            final(self).wf(),
            created == !has_file(old(self).files@, file@.segments),
            !created ==> *final(self) == *old(self),
            created ==> {
                &&& final(self).files@.len() == old(self).files@.len() + 1
                &&& final(self).files@ =~= old(self).files@.push(final(self).files@.last())
                &&& final(self).files@.last().file@.segments == file@.segments
                &&& final(self).files@.last().data@ == file_data_default()
                &&& final(self).type_defs@ == old(self).type_defs@
                &&& final(self).modules@ == old(self).modules@
            },
            has_file(final(self).files@, file@.segments),
    {
        match self.find_file_index(file) {
            Some(_) => false,
            None => {
                let entry = FileEntry { file: file.duplicate(), data: FileData::default() };
                self.files.push(entry);
                proof {
                    let n = old(self).files@.len() as int;
                    assert(self.files@[n].file@.segments == file@.segments);
                    assert forall|i: int, j: int| 0 <= i < j < self.files@.len() implies self
                        .files@[i].file@.segments != self.files@[j].file@.segments by {
                        if j < n {
                            assert(old(self).files@[i].file@.segments != old(
                                self,
                            ).files@[j].file@.segments);
                        }
                    }
                    assert forall|i: int| 0 <= i < self.files@.len() implies match (
                    #[trigger] self.files@[i]).data.parent {
                        Some(p) => has_file(self.files@, p@.segments),
                        None => true,
                    } by {
                        if i < n {
                            assert(self.files@[i] == old(self).files@[i]);
                            match old(self).files@[i].data.parent {
                                Some(p) => {
                                    let w = file_idx(old(self).files@, p@.segments);
                                    assert(self.files@[w].file@.segments == p@.segments);
                                },
                                None => {},
                            }
                        }
                    }
                }
                true
            },
        }
    }

    /// Marks the record for `file` as open in the editor, leaving every
    /// other part of the record and of the database untouched; returns
    /// whether the record was found. The open notification creates the record
    /// first, marks it open, then applies the update, which preserves the
    /// flag.
    pub fn open_file(&mut self, file: &FileUrl) -> (found: bool)
        requires
            old(self).wf(),
        ensures
            final(self).wf(),
            found == has_file(old(self).files@, file@.segments),
            !found ==> *final(self) == *old(self),
            found ==> {
                let i = file_idx(old(self).files@, file@.segments);
                &&& final(self).files@.len() == old(self).files@.len()
                &&& forall|j: int|
                    0 <= j < final(self).files@.len() && j != i ==> final(self).files@[j] == old(
                        self,
                    ).files@[j]
                &&& final(self).files@[i].file == old(self).files@[i].file
                &&& final(self).files@[i].data.is_open == true
                &&& final(self).files@[i].data.version == old(self).files@[i].data.version
                &&& final(self).files@[i].data.text == old(self).files@[i].data.text
                &&& final(self).files@[i].data.modules == old(self).files@[i].data.modules
                &&& final(self).files@[i].data.parent == old(self).files@[i].data.parent
                &&& final(self).files@[i].data.types == old(self).files@[i].data.types
                &&& final(self).type_defs@ == old(self).type_defs@
                &&& final(self).modules@ == old(self).modules@
            },
    {
        match self.find_file_index(file) {
            Some(i) => {
                proof {
                    assert(file_idx(self.files@, file@.segments) == i as int);
                }
                self.files[i].data.is_open = true;
                proof {
                    lemma_wf_frame(*old(self), *self);
                }
                true
            },
            None => false,
        }
    }

    /// Clears the open flag of the record for `file`, leaving every other
    /// part of the record and of the database untouched; returns whether the
    /// record was found. A closed file's last-known state stays queryable.
    pub fn close_file(&mut self, file: &FileUrl) -> (found: bool)
        requires
            old(self).wf(),
        ensures
            final(self).wf(),
            found == has_file(old(self).files@, file@.segments),
            !found ==> *final(self) == *old(self),
            found ==> {
                let i = file_idx(old(self).files@, file@.segments);
                &&& final(self).files@.len() == old(self).files@.len()
                &&& forall|j: int|
                    0 <= j < final(self).files@.len() && j != i ==> final(self).files@[j] == old(
                        self,
                    ).files@[j]
                &&& final(self).files@[i].file == old(self).files@[i].file
                &&& final(self).files@[i].data.is_open == false
                &&& final(self).files@[i].data.version == old(self).files@[i].data.version
                &&& final(self).files@[i].data.text == old(self).files@[i].data.text
                &&& final(self).files@[i].data.modules == old(self).files@[i].data.modules
                &&& final(self).files@[i].data.parent == old(self).files@[i].data.parent
                &&& final(self).files@[i].data.types == old(self).files@[i].data.types
                &&& final(self).type_defs@ == old(self).type_defs@
                &&& final(self).modules@ == old(self).modules@
            },
    {
        match self.find_file_index(file) {
            Some(i) => {
                proof {
                    assert(file_idx(self.files@, file@.segments) == i as int);
                }
                self.files[i].data.is_open = false;
                proof {
                    lemma_wf_frame(*old(self), *self);
                }
                true
            },
            None => false,
        }
    }
}

/// With distinct keys, the entry at index `i` is what lookup finds for its
/// key.
pub proof fn lemma_tdv_lookup_at(s: Seq<(ItemPathV, TypeDefDataV)>, i: int)
    requires
        tdv_uniq(s),
        0 <= i < s.len(),
    ensures
        tdv_has(s, s[i].0),
        tdv_idx(s, s[i].0) == i,
        tdv_lookup(s, s[i].0) == Some(s[i].1),
{
    assert(tdv_has(s, s[i].0));
    let j = tdv_idx(s, s[i].0);
    assert(0 <= j < s.len() && s[j].0 == s[i].0);
    if j < i {
        assert(s[j].0 != s[i].0);
    } else if i < j {
        assert(s[i].0 != s[j].0);
    }
}

/// Transfers well-formedness across a change that keeps every record's key
/// and parent link, keeps (or re-bounds) every record's text, and keeps the
/// symbol table: the invariant reads nothing else of the records.
pub proof fn lemma_wf_frame(pre: Database, post: Database)
    requires
        pre.wf(),
        post.files@.len() == pre.files@.len(),
        forall|i: int|
            0 <= i < post.files@.len() ==> (#[trigger] post.files@[i]).file == pre.files@[i].file,
        forall|i: int|
            0 <= i < post.files@.len() ==> (#[trigger] post.files@[i]).data.parent
                == pre.files@[i].data.parent,
        forall|i: int|
            0 <= i < post.files@.len() ==> ((#[trigger] post.files@[i]).data.text
                == pre.files@[i].data.text || post.files@[i].data.text@.len()
                < crate::parser::MAX_TEXT_LEN),
        post.type_defs@ == pre.type_defs@,
    ensures
        post.wf(),
{
    assert forall|i: int, j: int|
        0 <= i < j < post.files@.len() implies post.files@[i].file@.segments
        != post.files@[j].file@.segments by {
        assert(pre.files@[i].file@.segments != pre.files@[j].file@.segments);
    }
    assert forall|i: int| 0 <= i < post.files@.len() implies (
    #[trigger] post.files@[i]).data.text@.len() < crate::parser::MAX_TEXT_LEN by {
        if post.files@[i].data.text == pre.files@[i].data.text {
            assert(pre.files@[i].data.text@.len() < crate::parser::MAX_TEXT_LEN);
        }
    }
    assert forall|i: int| 0 <= i < post.files@.len() implies match (
    #[trigger] post.files@[i]).data.parent {
        Some(p) => has_file(post.files@, p@.segments),
        None => true,
    } by {
        match pre.files@[i].data.parent {
            Some(p) => {
                let w = file_idx(pre.files@, p@.segments);
                assert(pre.files@[w].file@.segments == p@.segments);
                assert(post.files@[w].file@.segments == p@.segments);
            },
            None => {},
        }
    }
}

/// A well-formed database has a symbol table with distinct keys.
pub proof fn lemma_wf_tdv_uniq(db: &Database)
    requires
        db.wf(),
    ensures
        tdv_uniq(tds_view(db.type_defs@)),
{
    let s = tds_view(db.type_defs@);
    assert forall|i: int, j: int| 0 <= i < j < s.len() implies s[i].0 != s[j].0 by {
        assert(s[i].0 == db.type_defs@[i].path@);
        assert(s[j].0 == db.type_defs@[j].path@);
    }
}

impl Database {
    /// The index of the symbol-table entry under `path`, when there is one.
    pub(crate) fn find_td_index(&self, path: &ItemPath) -> (r: Option<usize>)
        ensures
            match r {
                Some(i) => 0 <= i < self.type_defs@.len() && self.type_defs@[i as int].path@
                    == path@,
                None => !tdv_has(tds_view(self.type_defs@), path@),
            },
    {
        let mut i: usize = 0;
        while i < self.type_defs.len()
            invariant
                i <= self.type_defs@.len(),
                forall|j: int| 0 <= j < i ==> self.type_defs@[j].path@ != path@,
            decreases self.type_defs@.len() - i,
        {
            if item_path_eq(&self.type_defs[i].path, path) {
                return Some(i);
            }
            i += 1;
        }
        proof {
            let s = tds_view(self.type_defs@);
            assert forall|j: int| 0 <= j < s.len() implies s[j].0 != path@ by {
                assert(s[j].0 == self.type_defs@[j].path@);
            }
        }
        None
    }

    /// What the global table currently holds under `path`: the owning file
    /// and range of the sole live definition, or nothing. A name collision
    /// anywhere resolves to whichever definition currently occupies the key.
    pub fn lookup_type_def(&self, path: &ItemPath) -> (r: Option<&TypeDefData>)
        requires
            self.wf(),
        ensures
            r.deep_view() == tdv_lookup(tds_view(self.type_defs@), path@),
    {
        match self.find_td_index(path) {
            Some(i) => {
                proof {
                    lemma_wf_tdv_uniq(self);
                    assert(tds_view(self.type_defs@)[i as int].0 == path@);
                    lemma_tdv_lookup_at(tds_view(self.type_defs@), i as int);
                }
                Some(&self.type_defs[i].data)
            },
            None => None,
        }
    }

    /// Inserts a type-definition record under `path`, under the collision rule:
    /// at most one record per key lives at any time; a colliding insertion
    /// evicts the previous occupant and returns it so the caller can log the
    /// collision, rather than failing.
    pub fn insert_type_def(&mut self, path: ItemPath, data: TypeDefData) -> (evicted: Option<
        TypeDefData,
    >)
        requires
            old(self).wf(),
        ensures
            final(self).wf(),
            tds_view(final(self).type_defs@) == tdv_insert(
                tds_view(old(self).type_defs@),
                path@,
                data@,
            ),
            evicted.deep_view() == tdv_lookup(tds_view(old(self).type_defs@), path@),
            final(self).files@ == old(self).files@,
            final(self).modules@ == old(self).modules@,
    {
        proof {
            lemma_wf_tdv_uniq(self);
        }
        match self.find_td_index(&path) {
            Some(i) => {
                proof {
                    assert(tds_view(self.type_defs@)[i as int].0 == path@);
                    lemma_tdv_lookup_at(tds_view(self.type_defs@), i as int);
                }
                let old_entry = self.type_defs.remove(i);
                self.type_defs.insert(i, TypeDefEntry { path, data });
                proof {
                    assert(self.type_defs@ =~= old(self).type_defs@.update(
                        i as int,
                        self.type_defs@[i as int],
                    ));
                    assert(tds_view(self.type_defs@) =~= tdv_insert(
                        tds_view(old(self).type_defs@),
                        self.type_defs@[i as int].path@,
                        self.type_defs@[i as int].data@,
                    ));
                    assert forall|a: int, b: int|
                        0 <= a < b < self.type_defs@.len() implies self.type_defs@[a].path@
                        != self.type_defs@[b].path@ by {
                        assert(old(self).type_defs@[a].path@ != old(self).type_defs@[b].path@);
                    }
                }
                Some(old_entry.data)
            },
            None => {
                self.type_defs.push(TypeDefEntry { path, data });
                proof {
                    let n = old(self).type_defs@.len() as int;
                    assert(tds_view(self.type_defs@) =~= tdv_insert(
                        tds_view(old(self).type_defs@),
                        self.type_defs@[n].path@,
                        self.type_defs@[n].data@,
                    ));
                    assert forall|a: int, b: int|
                        0 <= a < b < self.type_defs@.len() implies self.type_defs@[a].path@
                        != self.type_defs@[b].path@ by {
                        if b < n {
                            assert(old(self).type_defs@[a].path@ != old(
                                self,
                            ).type_defs@[b].path@);
                        } else {
                            assert(!tdv_has(tds_view(old(self).type_defs@), path@));
                            assert(tds_view(old(self).type_defs@)[a].0 == old(
                                self,
                            ).type_defs@[a].path@);
                        }
                    }
                }
                None
            },
        }
    }

    /// Removes from the global table every entry whose key is among the keys
    /// the record for `file` owns and which is currently attributed to that
    /// file — the purge step of [`Database::update_file`]'s pipeline,
    /// preventing stale duplicates; returns whether the record was found.
    pub fn purge_file_types(&mut self, file: &FileUrl) -> (found: bool)
        requires
            old(self).wf(),
        ensures
            final(self).wf(),
            found == has_file(old(self).files@, file@.segments),
            !found ==> *final(self) == *old(self),
            found ==> tds_view(final(self).type_defs@) == purge_tdsv(
                tds_view(old(self).type_defs@),
                file_data_of(old(self).files@, file@.segments).types,
                file@.segments,
            ),
            final(self).files@ == old(self).files@,
            final(self).modules@ == old(self).modules@,
    {
        let fi = match self.find_file_index(file) {
            Some(i) => i,
            None => {
                return false;
            },
        };
        proof {
            assert(file_idx(self.files@, file@.segments) == fi as int);
        }
        let ghost keys = file_data_of(old(self).files@, file@.segments).types;
        let ghost olds = tds_view(old(self).type_defs@);
        let ghost mut j: int = 0;
        let mut k: usize = 0;
        proof {
            assert(tds_view(self.type_defs@) =~= purge_tdsv(olds.take(0), keys, file@.segments)
                + olds.skip(0));
        }
        while k < self.type_defs.len()
            invariant
                old(self).wf(),
                self.files@ == old(self).files@,
                self.modules@ == old(self).modules@,
                fi < self.files@.len(),
                self.files@[fi as int].file@.segments == file@.segments,
                keys == file_data_of(old(self).files@, file@.segments).types,
                olds == tds_view(old(self).type_defs@),
                0 <= j <= olds.len(),
                k <= self.type_defs@.len(),
                self.type_defs@.len() - k == olds.len() - j,
                k as int == purge_tdsv(olds.take(j), keys, file@.segments).len(),
                tds_view(self.type_defs@) =~= purge_tdsv(olds.take(j), keys, file@.segments)
                    + olds.skip(j),
                forall|a: int, b: int|
                    0 <= a < b < self.type_defs@.len() ==> self.type_defs@[a].path@
                        != self.type_defs@[b].path@,
            decreases self.type_defs@.len() - k,
        {
            proof {
                assert(tds_view(self.type_defs@)[k as int] == olds.skip(j)[0]);
                assert(olds.skip(j)[0] == olds[j]);
                assert(olds.take(j + 1).drop_last() =~= olds.take(j));
                assert(olds.take(j + 1).last() == olds[j]);
            }
            let is_key = types_contains(&self.files[fi].data.types, &self.type_defs[k].path);
            let is_owner = self.type_defs[k].data.file_path.same_file(file);
            proof {
                assert(self.files@[fi as int].data@ == file_data_of(
                    old(self).files@,
                    file@.segments,
                ));
                assert(self.files@[fi as int].data.types.deep_view() == keys);
                assert(olds[j].0 == self.type_defs@[k as int].path@);
                assert(olds[j].1 == self.type_defs@[k as int].data@);
            }
            if is_key && is_owner {
                let ghost pre = self.type_defs@;
                self.type_defs.remove(k);
                proof {
                    j = j + 1;
                    assert(keys.contains(olds[j - 1].0) && olds[j - 1].1.file_path.segments
                        == file@.segments);
                    assert(purge_tdsv(olds.take(j), keys, file@.segments) == purge_tdsv(
                        olds.take(j - 1),
                        keys,
                        file@.segments,
                    ));
                    let prefix = purge_tdsv(olds.take(j), keys, file@.segments);
                    let newv = tds_view(self.type_defs@);
                    let prev = tds_view(pre);
                    assert(self.type_defs@.len() == pre.len() - 1);
                    assert(newv.len() == (prefix + olds.skip(j)).len());
                    assert forall|i: int| 0 <= i < newv.len() implies newv[i] == (prefix
                        + olds.skip(j))[i] by {
                        if i < k as int {
                            assert(self.type_defs@[i] == pre[i]);
                            assert(newv[i] == prev[i]);
                            assert(prev[i] == (prefix + olds.skip(j - 1))[i]);
                        } else {
                            assert(self.type_defs@[i] == pre[i + 1]);
                            assert(newv[i] == prev[i + 1]);
                            assert(prev[i + 1] == (prefix + olds.skip(j - 1))[i + 1]);
                            assert((prefix + olds.skip(j - 1))[i + 1] == olds.skip(j - 1)[i + 1
                                - k as int]);
                            assert(olds.skip(j - 1)[i + 1 - k as int] == olds[j + i - k as int]);
                            assert(olds.skip(j)[i - k as int] == olds[j + i - k as int]);
                        }
                    }
                    assert(tds_view(self.type_defs@) =~= prefix + olds.skip(j));
                    assert forall|a: int, b: int|
                        0 <= a < b < self.type_defs@.len() implies self.type_defs@[a].path@
                        != self.type_defs@[b].path@ by {
                        let a0 = if a < k as int { a } else { a + 1 };
                        let b0 = if b < k as int { b } else { b + 1 };
                        assert(self.type_defs@[a] == pre[a0]);
                        assert(self.type_defs@[b] == pre[b0]);
                    }
                }
            } else {
                proof {
                    assert(!(keys.contains(olds[j].0) && olds[j].1.file_path.segments
                        == file@.segments));
                    j = j + 1;
                    assert(purge_tdsv(olds.take(j), keys, file@.segments) == purge_tdsv(
                        olds.take(j - 1),
                        keys,
                        file@.segments,
                    ).push(olds[j - 1]));
                    assert(tds_view(self.type_defs@) =~= purge_tdsv(
                        olds.take(j),
                        keys,
                        file@.segments,
                    ) + olds.skip(j));
                }
                k += 1;
            }
        }
        proof {
            assert(j == olds.len());
            assert(olds.take(j) =~= olds);
            assert(olds.skip(j) =~= Seq::<(ItemPathV, TypeDefDataV)>::empty());
            assert(tds_view(self.type_defs@) =~= purge_tdsv(olds, keys, file@.segments));
            let n = self.files@.len() as int;
            assert forall|a: int| 0 <= a < n implies match (
            #[trigger] self.files@[a]).data.parent {
                Some(p) => has_file(self.files@, p@.segments),
                None => true,
            } by {
                assert(self.files@[a] == old(self).files@[a]);
                match old(self).files@[a].data.parent {
                    Some(p) => {
                        let w = file_idx(old(self).files@, p@.segments);
                        assert(self.files@[w].file@.segments == p@.segments);
                    },
                    None => {},
                }
            }
        }
        true
    }
}

/// Whether `path` is among the keys of `types`, decided over the views.
pub fn types_contains(types: &Vec<ItemPath>, path: &ItemPath) -> (r: bool)
    ensures
        r == types.deep_view().contains(path@),
{
    let mut i: usize = 0;
    while i < types.len()
        invariant
            i <= types@.len(),
            forall|j: int| 0 <= j < i ==> types@[j]@ != path@,
        decreases types@.len() - i,
    {
        if item_path_eq(&types[i], path) {
            proof {
                assert(types.deep_view()[i as int] == path@);
            }
            return true;
        }
        i += 1;
    }
    proof {
        if types.deep_view().contains(path@) {
            let w = choose|w: int| 0 <= w < types.deep_view().len() && types.deep_view()[w]
                == path@;
            assert(types@[w]@ == path@);
        }
    }
    false
}


impl Database {
    /// The scan and commit steps of [`Database::update_file`]'s pipeline:
    /// re-run the syntax scan of `text`,
    /// repopulating the file's module-declaration records and re-inserting
    /// its type definitions into the global table, then commit the new
    /// version and text into the record. Returns the scan's collision
    /// warnings, or nothing when the record is missing — an internal
    /// inconsistency the caller reports rather than ignores.
    pub fn finish_update(&mut self, file: &FileUrl, version: i32, text: &str) -> (r: Option<
        Vec<String>,
    >)
        requires
            old(self).wf(),
            text@.len() < crate::parser::MAX_TEXT_LEN,
        ensures
            final(self).wf(),
            (r is Some) == has_file(old(self).files@, file@.segments),
            r is None ==> *final(self) == *old(self),
            r is Some ==> ({
                let i = file_idx(old(self).files@, file@.segments);
                let sc = crate::database::ast_scan::scan_foldv(
                    crate::database::ast_scan::init_scan(tds_view(old(self).type_defs@)),
                    crate::parser::parsed_items_of(text@),
                    file@,
                    text@,
                );
                &&& tds_view(final(self).type_defs@) == sc.tds
                &&& final(self).files@.len() == old(self).files@.len()
                &&& forall|j: int|
                    0 <= j < final(self).files@.len() && j != i ==> final(self).files@[j] == old(
                        self,
                    ).files@[j]
                &&& final(self).files@[i].file == old(self).files@[i].file
                &&& final(self).files@[i].data.version == version
                &&& final(self).files@[i].data.text@ == text@
                &&& final(self).files@[i].data.modules.deep_view() == sc.modules
                &&& final(self).files@[i].data.types.deep_view() == sc.types
                &&& final(self).files@[i].data.parent == old(self).files@[i].data.parent
                &&& final(self).files@[i].data.is_open == old(self).files@[i].data.is_open
                &&& (match r {
                    Some(w) => w.deep_view() == sc.warnings,
                    None => false,
                })
                &&& final(self).modules@ == old(self).modules@
            }),
    {
        let fi = match self.find_file_index(file) {
            Some(i) => i,
            None => {
                return None;
            },
        };
        proof {
            assert(file_idx(self.files@, file@.segments) == fi as int);
        }
        let items = crate::parser::parse_flat_items(text);
        let (ms, ts, ws) = crate::database::ast_scan::scan_ast(self, file, text, &items);
        let ghost mid = *self;
        self.files[fi].data.version = version;
        self.files[fi].data.text = text.to_owned();
        self.files[fi].data.modules = ms;
        self.files[fi].data.types = ts;
        proof {
            lemma_wf_frame(mid, *self);
        }
        Some(ws)
    }

    /// The single recomputation entrypoint for one file — apply-update with
    /// the parent already resolved by the caller. In order: the stale
    /// type-definition records attributed to this file are purged, the
    /// resolved parent link is committed, the syntax scan repopulates the
    /// module and type records, and the new version and text are committed.
    /// Deriving the diagnostics stands apart in
    /// [`crate::database::file::get_file_diagnostics`]: the caller derives
    /// and publishes them first, before the purge.
    ///
    /// Returns the scan's collision warnings; or nothing — changing nothing —
    /// when the record, or the given parent's record, is missing: an internal
    /// inconsistency the caller reports rather than ignores.
    pub fn update_file(&mut self, file: &FileUrl, version: i32, text: &str, parent: Option<
        &FileUrl,
    >) -> (r: Option<Vec<String>>)
        requires
            old(self).wf(),
            text@.len() < crate::parser::MAX_TEXT_LEN,
        ensures
            final(self).wf(),
            (r is Some) == (has_file(old(self).files@, file@.segments) && (match parent {
                Some(p) => has_file(old(self).files@, p@.segments),
                None => true,
            })),
            r is None ==> *final(self) == *old(self),
            r is Some ==> ({
                let i = file_idx(old(self).files@, file@.segments);
                let keys0 = file_data_of(old(self).files@, file@.segments).types;
                let tds1 = purge_tdsv(tds_view(old(self).type_defs@), keys0, file@.segments);
                let sc = crate::database::ast_scan::scan_foldv(
                    crate::database::ast_scan::init_scan(tds1),
                    crate::parser::parsed_items_of(text@),
                    file@,
                    text@,
                );
                &&& tds_view(final(self).type_defs@) == sc.tds
                &&& final(self).files@.len() == old(self).files@.len()
                &&& forall|j: int|
                    0 <= j < final(self).files@.len() && j != i ==> final(self).files@[j] == old(
                        self,
                    ).files@[j]
                &&& final(self).files@[i].file == old(self).files@[i].file
                &&& final(self).files@[i].data.version == version
                &&& final(self).files@[i].data.text@ == text@
                &&& final(self).files@[i].data.modules.deep_view() == sc.modules
                &&& final(self).files@[i].data.types.deep_view() == sc.types
                &&& opt_file_url_view(final(self).files@[i].data.parent) == (match parent {
                    Some(p) => Some(p@),
                    None => None::<FileUrlV>,
                })
                &&& final(self).files@[i].data.is_open == old(self).files@[i].data.is_open
                &&& (match r {
                    Some(w) => w.deep_view() == sc.warnings,
                    None => false,
                })
                &&& final(self).modules@ == old(self).modules@
            }),
    {
        let fi = match self.find_file_index(file) {
            Some(i) => i,
            None => {
                return None;
            },
        };
        match parent {
            Some(p) => {
                match self.find_file_index(p) {
                    Some(_) => {},
                    None => {
                        return None;
                    },
                }
            },
            None => {},
        }
        proof {
            assert(file_idx(self.files@, file@.segments) == fi as int);
        }
        let found = self.purge_file_types(file);
        proof {
            assert(found);
        }
        let ghost mid1 = *self;
        let committed = crate::database::module::set_parent(self, file, parent);
        proof {
            assert(committed);
            assert(file_idx(mid1.files@, file@.segments) == fi as int);
            assert forall|j: int|
                0 <= j < self.files@.len() && self.files@[j].file@.segments
                    == file@.segments implies j == fi as int by {
                if j != fi as int {
                    assert(self.files@[j] == mid1.files@[j]);
                }
            }
            assert(file_idx(self.files@, file@.segments) == fi as int);
            assert(has_file(self.files@, file@.segments));
        }
        let ghost mid2 = *self;
        let r = self.finish_update(file, version, text);
        proof {
            assert(r is Some);
            assert(file_idx(mid2.files@, file@.segments) == fi as int);
            assert(tds_view(mid2.type_defs@) == purge_tdsv(
                tds_view(old(self).type_defs@),
                file_data_of(old(self).files@, file@.segments).types,
                file@.segments,
            ));
        }
        r
    }
}

/// With distinct keys, what lookup finds survives an insertion as the
/// replacement rule says: the inserted key now maps to the new record, every
/// other key maps to what it mapped to before, and the keys stay distinct.
pub proof fn lemma_tdv_insert(
    s: Seq<(ItemPathV, TypeDefDataV)>,
    key: ItemPathV,
    data: TypeDefDataV,
    q: ItemPathV,
)
    requires
        tdv_uniq(s),
    ensures
        tdv_uniq(tdv_insert(s, key, data)),
        tdv_lookup(tdv_insert(s, key, data), q) == (if q == key {
            Some(data)
        } else {
            tdv_lookup(s, q)
        }),
{
    let s2 = tdv_insert(s, key, data);
    if tdv_has(s, key) {
        let i = tdv_idx(s, key);
        assert(0 <= i < s.len() && s[i].0 == key);
        assert forall|a: int, b: int| 0 <= a < b < s2.len() implies s2[a].0 != s2[b].0 by {
            assert(s[a].0 != s[b].0);
        }
        lemma_tdv_lookup_at(s2, i);
        if q != key {
            if tdv_has(s, q) {
                let w = tdv_idx(s, q);
                assert(0 <= w < s.len() && s[w].0 == q);
                lemma_tdv_lookup_at(s, w);
                assert(s2[w] == s[w]);
                lemma_tdv_lookup_at(s2, w);
            } else {
                assert forall|a: int| 0 <= a < s2.len() implies s2[a].0 != q by {
                    if a != i {
                        assert(s2[a] == s[a]);
                    }
                }
            }
        }
    } else {
        let n = s.len() as int;
        assert forall|a: int, b: int| 0 <= a < b < s2.len() implies s2[a].0 != s2[b].0 by {
            if b < n {
                assert(s[a].0 != s[b].0);
            } else {
                assert(s2[a] == s[a]);
            }
        }
        lemma_tdv_lookup_at(s2, n);
        if q != key {
            if tdv_has(s, q) {
                let w = tdv_idx(s, q);
                lemma_tdv_lookup_at(s, w);
                assert(s2[w] == s[w]);
                lemma_tdv_lookup_at(s2, w);
            } else {
                assert forall|a: int| 0 <= a < s2.len() implies s2[a].0 != q by {
                    if a < n {
                        assert(s2[a] == s[a]);
                    }
                }
            }
        }
    }
}

/// What the purge step leaves under each key: an entry is gone exactly when
/// its key is among the purged file's keys and the entry was attributed to
/// that file; every other key keeps its record, and the keys stay distinct.
pub proof fn lemma_purge_facts(
    s: Seq<(ItemPathV, TypeDefDataV)>,
    keys: Seq<ItemPathV>,
    segs: Seq<Seq<char>>,
    q: ItemPathV,
)
    requires
        tdv_uniq(s),
    ensures
        tdv_uniq(purge_tdsv(s, keys, segs)),
        tdv_lookup(purge_tdsv(s, keys, segs), q) == (match tdv_lookup(s, q) {
            Some(d) => if keys.contains(q) && d.file_path.segments == segs {
                None
            } else {
                Some(d)
            },
            None => None::<TypeDefDataV>,
        }),
    decreases s.len(),
{
    if s.len() == 0 {
        return ;
    }
    let s0 = s.drop_last();
    let last = s.last();
    let n = s.len() - 1;
    assert forall|a: int, b: int| 0 <= a < b < s0.len() implies s0[a].0 != s0[b].0 by {
        assert(s[a].0 != s[b].0);
    }
    lemma_purge_facts(s0, keys, segs, q);
    lemma_purge_facts(s0, keys, segs, last.0);
    let p0 = purge_tdsv(s0, keys, segs);
    // relate lookup in s with lookup in its prefix
    lemma_tdv_lookup_at(s, n as int);
    if q == last.0 {
        assert forall|a: int| 0 <= a < s0.len() implies s0[a].0 != q by {
            assert(s[a].0 != s[n as int].0);
        }
        assert(tdv_lookup(s0, q) is None);
        assert(tdv_lookup(s, q) == Some(last.1));
    } else {
        if tdv_has(s0, q) {
            let w = tdv_idx(s0, q);
            assert(s0[w] == s[w]);
            lemma_tdv_lookup_at(s0, w);
            lemma_tdv_lookup_at(s, w);
        } else {
            assert forall|a: int| 0 <= a < s.len() implies s[a].0 != q by {
                if a < n as int {
                    assert(s0[a] == s[a]);
                }
            }
        }
    }
    if keys.contains(last.0) && last.1.file_path.segments == segs {
        assert(purge_tdsv(s, keys, segs) == p0);
    } else {
        let p2 = p0.push(last);
        assert(purge_tdsv(s, keys, segs) == p2);
        // the pushed key is fresh in the purged prefix
        assert(tdv_lookup(s0, last.0) is None ==> !tdv_has(p0, last.0));
        assert forall|a: int| 0 <= a < s0.len() implies s0[a].0 != last.0 by {
            assert(s[a].0 != s[n as int].0);
        }
        assert(tdv_lookup(s0, last.0) is None);
        assert(!tdv_has(p0, last.0));
        assert forall|a: int, b: int| 0 <= a < b < p2.len() implies p2[a].0 != p2[b].0 by {
            if b < p0.len() as int {
                assert(p0[a].0 != p0[b].0);
            } else {
                assert(p2[a] == p0[a]);
                assert(p2[b].0 == last.0);
            }
        }
        lemma_tdv_lookup_at(p2, p0.len() as int);
        if q != last.0 {
            if tdv_has(p0, q) {
                let w = tdv_idx(p0, q);
                lemma_tdv_lookup_at(p0, w);
                assert(p2[w] == p0[w]);
                lemma_tdv_lookup_at(p2, w);
            } else {
                assert forall|a: int| 0 <= a < p2.len() implies p2[a].0 != q by {
                    if a < p0.len() as int {
                        assert(p2[a] == p0[a]);
                    }
                }
            }
        }
    }
}

} // verus!
