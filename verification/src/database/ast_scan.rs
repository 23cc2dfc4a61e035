//! The syntax scan: from the flat list of interesting nodes of a file's
//! syntax tree, rebuild the file's module-declaration records and re-insert
//! its type definitions into the global symbol table.
//!
//! The scan is specified as a fold over the item list: a module declaration
//! appends a module record; a struct-like or enum-like definition inserts a
//! type-definition record under the flat symbol key, evicting — and warning
//! about, never failing on — a colliding previous occupant; a malformed item
//! without a name is skipped. The fold also accumulates the keys the file now
//! owns, so a later update can purge them.

use vstd::prelude::*;

use crate::database::{
    Database, FileUrl, FileUrlV, ItemPath, ItemPathV, ModuleInclude, ModuleIncludeV, ModulePath,
    ModulePathV, TypeDefData, TypeDefDataV, lemma_purge_facts, lemma_tdv_insert, purge_tdsv,
    tds_view, tdv_count, tdv_has, tdv_idx, tdv_insert, tdv_lookup, tdv_uniq,
};
use crate::diagnostics::{range_at, range_of};
use crate::parser::{FlatItem, FlatItemV, ItemKind, MAX_TEXT_LEN};

verus! {

/// The flat symbol key of a type named `name`: the constant crate scope with
/// no segments, plus the bare name.
pub open spec fn item_key_of(name: Seq<char>) -> ItemPathV {
    ItemPathV { module: ModulePathV { crate_: "crate"@, segments: Seq::empty() }, name }
}

/// The warning logged when a colliding type definition evicts the previous
/// occupant named `name`.
pub open spec fn warning_message_of(name: Seq<char>) -> Seq<char> {
    "discarding type def `"@ + name + "`; conflicting type name encountered"@
}

/// The state a scan folds over: the symbol table, and the file's module
/// records, owned keys and collision warnings accumulated so far.
#[verifier::ext_equal]
pub ghost struct ScanStateV {
    pub tds: Seq<(ItemPathV, TypeDefDataV)>,
    pub modules: Seq<ModuleIncludeV>,
    pub types: Seq<ItemPathV>,
    pub warnings: Seq<Seq<char>>,
}

/// The scan state before any item is processed: the given table and nothing
/// accumulated.
pub open spec fn init_scan(tds: Seq<(ItemPathV, TypeDefDataV)>) -> ScanStateV {
    ScanStateV { tds, modules: Seq::empty(), types: Seq::empty(), warnings: Seq::empty() }
}

/// One step of the scan, for a single item of the file at `file` with text
/// `text`.
pub open spec fn scan_stepv(st: ScanStateV, it: FlatItemV, file: FileUrlV, text: Seq<char>) -> ScanStateV {
    match it.name {
        None => st,
        Some(nm) => match it.kind {
            ItemKind::ModuleDecl => ScanStateV {
                modules: st.modules.push(
                    ModuleIncludeV { name: nm, range: range_of(text, it.start, it.end) },
                ),
                ..st
            },
            _ => {
                let key = item_key_of(nm);
                let data = TypeDefDataV {
                    file_path: file,
                    range: range_of(text, it.start, it.end),
                    name: nm,
                };
                ScanStateV {
                    tds: tdv_insert(st.tds, key, data),
                    modules: st.modules,
                    types: st.types.push(key),
                    warnings: match tdv_lookup(st.tds, key) {
                        Some(old) => st.warnings.push(warning_message_of(old.name)),
                        None => st.warnings,
                    },
                }
            },
        },
    }
}

/// The scan as a fold over the item list, in order.
pub open spec fn scan_foldv(
    st: ScanStateV,
    items: Seq<FlatItemV>,
    file: FileUrlV,
    text: Seq<char>,
) -> ScanStateV
    decreases items.len(),
{
    if items.len() == 0 {
        st
    } else {
        scan_stepv(scan_foldv(st, items.drop_last(), file, text), items.last(), file, text)
    }
}

/// Walks the flat item list of `file`'s syntax tree: inserts every named type
/// definition into the global table (evicting and warning on collisions) and
/// returns the file's new module records, owned keys and warnings, which the
/// caller commits into the file's record.
pub fn scan_ast(db: &mut Database, file: &FileUrl, text: &str, items: &Vec<FlatItem>) -> (r: (
    Vec<ModuleInclude>,
    Vec<ItemPath>,
    Vec<String>,
))
    requires
        old(db).wf(),
        text@.len() < MAX_TEXT_LEN,
    ensures
        final(db).wf(),
        final(db).files@ == old(db).files@,
        final(db).modules@ == old(db).modules@,
        ({
            let sc = scan_foldv(
                init_scan(tds_view(old(db).type_defs@)),
                items.deep_view(),
                file@,
                text@,
            );
            &&& tds_view(final(db).type_defs@) == sc.tds
            &&& r.0.deep_view() == sc.modules
            &&& r.1.deep_view() == sc.types
            &&& r.2.deep_view() == sc.warnings
        }),
{
    let ghost tds0 = tds_view(old(db).type_defs@);
    let mut modules: Vec<ModuleInclude> = Vec::new();
    let mut types: Vec<ItemPath> = Vec::new();
    let mut warnings: Vec<String> = Vec::new();
    let mut i: usize = 0;
    proof {
        assert(items.deep_view().take(0) =~= Seq::<FlatItemV>::empty());
        assert(modules.deep_view() =~= Seq::<ModuleIncludeV>::empty());
        assert(types.deep_view() =~= Seq::<ItemPathV>::empty());
        assert(warnings.deep_view() =~= Seq::<Seq<char>>::empty());
    }
    while i < items.len()
        invariant
            text@.len() < MAX_TEXT_LEN,
            i <= items@.len(),
            db.wf(),
            db.files@ == old(db).files@,
            db.modules@ == old(db).modules@,
            tds0 == tds_view(old(db).type_defs@),
            ({
                let sc = scan_foldv(init_scan(tds0), items.deep_view().take(i as int), file@, text@);
                &&& tds_view(db.type_defs@) == sc.tds
                &&& modules.deep_view() == sc.modules
                &&& types.deep_view() == sc.types
                &&& warnings.deep_view() == sc.warnings
            }),
        decreases items@.len() - i,
    {
        let ghost sc_pre = scan_foldv(init_scan(tds0), items.deep_view().take(i as int), file@, text@);
        proof {
            assert(items.deep_view().take(i + 1).drop_last() =~= items.deep_view().take(i as int));
            assert(items.deep_view().take(i + 1).last() == items.deep_view()[i as int]);
            assert(items.deep_view()[i as int] == items@[i as int]@);
            assert(scan_foldv(init_scan(tds0), items.deep_view().take(i + 1), file@, text@)
                == scan_stepv(sc_pre, items.deep_view()[i as int], file@, text@));
        }
        let it = &items[i];
        match &it.name {
            None => {},
            Some(nm) => {
                match it.kind {
                    ItemKind::ModuleDecl => {
                        let rng = range_at(text, it.start, it.end);
                        modules.push(ModuleInclude { name: nm.clone(), range: rng });
                        proof {
                            assert(modules.deep_view() =~= sc_pre.modules.push(
                                ModuleIncludeV {
                                    name: nm@,
                                    range: range_of(text@, it@.start, it@.end),
                                },
                            ));
                        }
                    },
                    _ => {
                        let key = ItemPath {
                            module: ModulePath { crate_: "crate".to_owned(), segments: Vec::new() },
                            name: nm.clone(),
                        };
                        proof {
                            assert(key.module.segments.deep_view() =~= Seq::<Seq<char>>::empty());
                            assert(key@ =~= item_key_of(nm@));
                        }
                        let data = TypeDefData {
                            file_path: file.duplicate(),
                            range: range_at(text, it.start, it.end),
                            name: nm.clone(),
                        };
                        types.push(key.duplicate());
                        let evicted = db.insert_type_def(key, data);
                        match evicted {
                            Some(old_def) => {
                                warnings.push(
                                    "discarding type def `".to_owned().concat(
                                        old_def.name.as_str(),
                                    ).concat("`; conflicting type name encountered"),
                                );
                            },
                            None => {},
                        }
                        proof {
                            assert(types.deep_view() =~= sc_pre.types.push(item_key_of(nm@)));
                            let stepped = scan_stepv(sc_pre, items.deep_view()[i as int], file@, text@);
                            assert(warnings.deep_view() =~= stepped.warnings);
                        }
                    },
                }
            },
        }
        i += 1;
    }
    proof {
        assert(items.deep_view().take(i as int) =~= items.deep_view());
    }
    (modules, types, warnings)
}

/// The record that a single item would write under key `q`, if any: a named
/// struct-like or enum-like definition whose flat key is `q`.
pub open spec fn write_ofv(it: FlatItemV, q: ItemPathV, file: FileUrlV, text: Seq<char>) -> Option<
    TypeDefDataV,
> {
    match it.name {
        None => None,
        Some(nm) => match it.kind {
            ItemKind::ModuleDecl => None,
            _ => if item_key_of(nm) == q {
                Some(
                    TypeDefDataV {
                        file_path: file,
                        range: range_of(text, it.start, it.end),
                        name: nm,
                    },
                )
            } else {
                None
            },
        },
    }
}

/// The last record that the item list writes under key `q`, if any: the
/// newest writer wins.
pub open spec fn last_writev(
    items: Seq<FlatItemV>,
    q: ItemPathV,
    file: FileUrlV,
    text: Seq<char>,
) -> Option<TypeDefDataV>
    decreases items.len(),
{
    if items.len() == 0 {
        None
    } else {
        match write_ofv(items.last(), q, file, text) {
            Some(d) => Some(d),
            None => last_writev(items.drop_last(), q, file, text),
        }
    }
}

/// The keys that one item contributes to the file's owned-keys list.
pub open spec fn key_of_itemv(it: FlatItemV) -> Seq<ItemPathV> {
    match it.name {
        None => Seq::empty(),
        Some(nm) => match it.kind {
            ItemKind::ModuleDecl => Seq::empty(),
            _ => seq![item_key_of(nm)],
        },
    }
}

/// The symbol keys that the item list makes the file own, in scan order.
pub open spec fn keys_ofv(items: Seq<FlatItemV>) -> Seq<ItemPathV>
    decreases items.len(),
{
    if items.len() == 0 {
        Seq::empty()
    } else {
        keys_ofv(items.drop_last()) + key_of_itemv(items.last())
    }
}

/// What the scan leaves under each key, and what the file comes to own: the
/// last writer of a key wins; a key nothing writes keeps its previous record;
/// the keys stay distinct; and the owned-keys list is exactly the keys the
/// items write.
pub proof fn lemma_fold_facts(
    st: ScanStateV,
    items: Seq<FlatItemV>,
    file: FileUrlV,
    text: Seq<char>,
    q: ItemPathV,
)
    requires
        tdv_uniq(st.tds),
    ensures
        tdv_uniq(scan_foldv(st, items, file, text).tds),
        tdv_lookup(scan_foldv(st, items, file, text).tds, q) == (match last_writev(
            items,
            q,
            file,
            text,
        ) {
            Some(d) => Some(d),
            None => tdv_lookup(st.tds, q),
        }),
        scan_foldv(st, items, file, text).types == st.types + keys_ofv(items),
    decreases items.len(),
{
    if items.len() == 0 {
        assert(st.types + keys_ofv(items) =~= st.types);
        return ;
    }
    let prefix = items.drop_last();
    let it = items.last();
    lemma_fold_facts(st, prefix, file, text, q);
    let pre = scan_foldv(st, prefix, file, text);
    let post = scan_foldv(st, items, file, text);
    assert(post == scan_stepv(pre, it, file, text));
    match it.name {
        None => {
            assert(post.types =~= st.types + keys_ofv(items));
        },
        Some(nm) => {
            match it.kind {
                ItemKind::ModuleDecl => {
                    assert(post.types =~= st.types + keys_ofv(items));
                },
                _ => {
                    let key = item_key_of(nm);
                    let data = TypeDefDataV {
                        file_path: file,
                        range: range_of(text, it.start, it.end),
                        name: nm,
                    };
                    lemma_tdv_insert(pre.tds, key, data, q);
                    assert(post.types =~= st.types + keys_ofv(items));
                },
            }
        },
    }
}

/// A key is among the keys the items write exactly when some item writes it.
pub proof fn lemma_keys_iff_write(
    items: Seq<FlatItemV>,
    q: ItemPathV,
    file: FileUrlV,
    text: Seq<char>,
)
    ensures
        keys_ofv(items).contains(q) == (last_writev(items, q, file, text) is Some),
    decreases items.len(),
{
    if items.len() == 0 {
        return ;
    }
    let prefix = items.drop_last();
    let it = items.last();
    lemma_keys_iff_write(prefix, q, file, text);
    let ks = keys_ofv(items);
    assert(ks == keys_ofv(prefix) + key_of_itemv(it));
    if write_ofv(it, q, file, text) is Some {
        assert(key_of_itemv(it)[0] == q);
        assert(ks[keys_ofv(prefix).len() as int] == q);
        assert(ks.contains(q));
    } else {
        if keys_ofv(prefix).contains(q) {
            let w = choose|w: int|
                0 <= w < keys_ofv(prefix).len() && keys_ofv(prefix)[w] == q;
            assert(ks[w] == q);
            assert(ks.contains(q));
        } else {
            if ks.contains(q) {
                let w = choose|w: int| 0 <= w < ks.len() && ks[w] == q;
                if w < keys_ofv(prefix).len() {
                    assert(keys_ofv(prefix)[w] == q);
                } else {
                    assert(key_of_itemv(it)[w - keys_ofv(prefix).len()] == q);
                    match it.name {
                        None => {},
                        Some(nm) => {
                            assert(item_key_of(nm) == q);
                        },
                    }
                }
                assert(false);
            }
        }
    }
}

/// Re-running the update pipeline on a file with unchanged text leaves the
/// global symbol table unchanged in content: after the purge and the rescan
/// of the same item list, every key maps to the same record it mapped to
/// after the first run. (The ranges inside the records are recomputed fresh
/// from the same text, so they too are the same values.)
pub proof fn lemma_update_idempotent(
    tds0: Seq<(ItemPathV, TypeDefDataV)>,
    keys0: Seq<ItemPathV>,
    items: Seq<FlatItemV>,
    file: FileUrlV,
    text: Seq<char>,
    q: ItemPathV,
)
    requires
        tdv_uniq(tds0),
    ensures
        ({
            let sc1 = scan_foldv(
                init_scan(purge_tdsv(tds0, keys0, file.segments)),
                items,
                file,
                text,
            );
            let sc2 = scan_foldv(
                init_scan(purge_tdsv(sc1.tds, sc1.types, file.segments)),
                items,
                file,
                text,
            );
            tdv_lookup(sc2.tds, q) == tdv_lookup(sc1.tds, q)
        }),
{
    let segs = file.segments;
    lemma_purge_facts(tds0, keys0, segs, q);
    let t1 = purge_tdsv(tds0, keys0, segs);
    lemma_fold_facts(init_scan(t1), items, file, text, q);
    let sc1 = scan_foldv(init_scan(t1), items, file, text);
    assert(sc1.types =~= keys_ofv(items));
    lemma_purge_facts(sc1.tds, sc1.types, segs, q);
    let t2 = purge_tdsv(sc1.tds, sc1.types, segs);
    lemma_fold_facts(init_scan(t2), items, file, text, q);
    let sc2 = scan_foldv(init_scan(t2), items, file, text);
    lemma_keys_iff_write(items, q, file, text);
    match last_writev(items, q, file, text) {
        Some(d) => {
            assert(tdv_lookup(sc1.tds, q) == Some(d));
            assert(tdv_lookup(sc2.tds, q) == Some(d));
        },
        None => {
            assert(!sc1.types.contains(q));
            assert(tdv_lookup(t2, q) == tdv_lookup(sc1.tds, q));
            assert(tdv_lookup(sc2.tds, q) == tdv_lookup(sc1.tds, q));
        },
    }
}

/// With distinct keys, a key that is present is present exactly once.
pub proof fn lemma_uniq_count(s: Seq<(ItemPathV, TypeDefDataV)>, q: ItemPathV)
    requires
        tdv_uniq(s),
    ensures
        tdv_count(s, q) == (if tdv_has(s, q) {
            1int
        } else {
            0int
        }),
    decreases s.len(),
{
    if s.len() == 0 {
        return ;
    }
    let s0 = s.drop_last();
    let n = s.len() - 1;
    assert forall|a: int, b: int| 0 <= a < b < s0.len() implies s0[a].0 != s0[b].0 by {
        assert(s[a].0 != s[b].0);
    }
    lemma_uniq_count(s0, q);
    if s.last().0 == q {
        assert forall|a: int| 0 <= a < s0.len() implies s0[a].0 != q by {
            assert(s[a].0 != s[n as int].0);
        }
        assert(!tdv_has(s0, q));
        assert(tdv_has(s, q));
    } else {
        if tdv_has(s0, q) {
            let w = tdv_idx(s0, q);
            assert(s[w].0 == q);
            assert(tdv_has(s, q));
        } else if tdv_has(s, q) {
            let w = tdv_idx(s, q);
            assert(0 <= w < s.len() && s[w].0 == q);
            assert(w != n);
            assert(s0[w].0 == q);
        }
    }
}

/// Inserting a type definition whose name another file's live definition
/// already occupies leaves exactly one entry under that key — the newest
/// writer's — and emits exactly one warning, never two live entries and never
/// a hard failure; every other key keeps its record.
pub proof fn lemma_collision_single_survivor(
    st: ScanStateV,
    it: FlatItemV,
    file: FileUrlV,
    text: Seq<char>,
    nm: Seq<char>,
    old_d: TypeDefDataV,
)
    requires
        tdv_uniq(st.tds),
        it.name == Some(nm),
        !(it.kind is ModuleDecl),
        tdv_lookup(st.tds, item_key_of(nm)) == Some(old_d),
        old_d.file_path.segments != file.segments,
    ensures
        ({
            let st2 = scan_stepv(st, it, file, text);
            &&& tdv_lookup(st2.tds, item_key_of(nm)) == Some(
                TypeDefDataV {
                    file_path: file,
                    range: range_of(text, it.start, it.end),
                    name: nm,
                },
            )
            &&& tdv_count(st2.tds, item_key_of(nm)) == 1
            &&& st2.warnings == st.warnings.push(warning_message_of(old_d.name))
            &&& forall|q: ItemPathV|
                q != item_key_of(nm) ==> tdv_lookup(st2.tds, q) == tdv_lookup(st.tds, q)
        }),
{
    let key = item_key_of(nm);
    let data = TypeDefDataV { file_path: file, range: range_of(text, it.start, it.end), name: nm };
    let st2 = scan_stepv(st, it, file, text);
    assert(st2.tds == tdv_insert(st.tds, key, data));
    lemma_tdv_insert(st.tds, key, data, key);
    lemma_uniq_count(st2.tds, key);
    assert forall|q: ItemPathV| q != key implies tdv_lookup(st2.tds, q) == tdv_lookup(
        st.tds,
        q,
    ) by {
        lemma_tdv_insert(st.tds, key, data, q);
    }
}

} // verus!
