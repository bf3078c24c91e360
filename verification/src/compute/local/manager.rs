//! The directory of installed models.

use crate::compute::local::catalog::{
    catalog_spec, entry_in, find_in, model_catalog, CatalogEntry, EntryView,
};
use crate::compute::local::download::part_path;
use crate::compute::local::error::{LocalError, LocalErrorView};
use crate::model::{
    in_order, insert_by, lemma_insert_by, lemma_pick_take, lemma_sort, opt, pick, sort_by,
    total_preorder, views,
};
use crate::paths::{join_path, joined, split_extension, stem_and_extension};
use crate::text::{lemma_text_le_chains, lemma_text_le_total, str_eq, text_at_most, text_le};
use vstd::prelude::*;

verus! {

/// A model file in the models directory.
#[derive(Debug)]
pub struct InstalledModel {
    /// File stem; for catalog downloads the catalog identifier.
    pub id: String,
    pub path: String,
    pub size_bytes: u64,
    /// The matching catalog entry, if this is a catalog model.
    pub catalog_entry: Option<CatalogEntry>,
}

/// [`InstalledModel`] as a mathematical value.
pub struct InstalledView {
    pub id: Seq<char>,
    pub path: Seq<char>,
    pub size_bytes: u64,
    pub catalog_entry: Option<EntryView>,
}

impl View for InstalledModel {
    type V = InstalledView;

    open spec fn view(&self) -> InstalledView {
        InstalledView {
            id: self.id@,
            path: self.path@,
            size_bytes: self.size_bytes,
            catalog_entry: opt(self.catalog_entry),
        }
    }
}

/// What stands in a directory: a name, and the length of a plain file.
#[derive(Debug)]
pub struct DirItem {
    pub name: String,
    /// The length where it is a plain file; none for anything else.
    pub file_len: Option<u64>,
}

/// [`DirItem`] as a mathematical value.
pub struct DirItemView {
    pub name: Seq<char>,
    pub file_len: Option<u64>,
}

impl View for DirItem {
    type V = DirItemView;

    open spec fn view(&self) -> DirItemView {
        DirItemView { name: self.name@, file_len: self.file_len }
    }
}

/// The model that an item of the models directory is, if it is one: a plain
/// file with the model extension.
pub open spec fn model_item(dir: Seq<char>, item: DirItemView) -> Option<InstalledView> {
    match (stem_and_extension(item.name), item.file_len) {
        (Some(parts), Some(len)) => if parts.1 == "gguf"@ {
            Some(
                InstalledView {
                    id: parts.0,
                    path: joined(dir, item.name),
                    size_bytes: len,
                    catalog_entry: entry_in(catalog_spec(), parts.0),
                },
            )
        } else {
            None
        },
        _ => None,
    }
}

/// Whether a model comes no later than another, by identifier.
pub open spec fn model_le(a: InstalledView, b: InstalledView) -> bool {
    text_le(a.id, b.id)
}

/// The order of models by identifier.
pub open spec fn by_id() -> spec_fn(InstalledView, InstalledView) -> bool {
    |a: InstalledView, b: InstalledView| model_le(a, b)
}

/// The models in the models directory, by identifier.
pub open spec fn installed_spec(dir: Seq<char>, items: Seq<DirItemView>) -> Seq<InstalledView> {
    sort_by(pick(items, |i: DirItemView| model_item(dir, i)), by_id())
}

/// Manages the models directory.
pub struct ModelManager {
    models_dir: String,
}

impl ModelManager {
    /// The models directory.
    pub closed spec fn dir(&self) -> Seq<char> {
        self.models_dir@
    }

    /// A manager of the given directory.
    pub fn new(models_dir: &str) -> (r: ModelManager)
        ensures
            r.dir() == models_dir@,
    {
        ModelManager { models_dir: models_dir.to_owned() }
    }

    /// The models directory.
    pub fn models_dir(&self) -> (r: &str)
        ensures
            r@ == self.dir(),
    {
        self.models_dir.as_str()
    }

    /// Where a model is, or will be, stored.
    pub fn model_path(&self, model_id: &str) -> (r: String)
        ensures
            r@ == joined(self.dir(), model_id@ + ".gguf"@),
    {
        let file = model_id.to_owned().concat(".gguf");
        join_path(self.models_dir.as_str(), file.as_str())
    }

    /// The model that an item of the models directory is, if it is one.
    fn model_of(&self, item: &DirItem, catalog: &Vec<CatalogEntry>) -> (r: Option<InstalledModel>)
        requires
            views(catalog@) == catalog_spec(),
        ensures
            opt(r) == model_item(self.dir(), item@),
    {
        match (split_extension(item.name.as_str()), item.file_len) {
            (Some((stem, extension)), Some(len)) => {
                if str_eq(extension.as_str(), "gguf") {
                    let catalog_entry = find_in(catalog, stem.as_str());
                    Some(
                        InstalledModel {
                            path: join_path(self.models_dir.as_str(), item.name.as_str()),
                            size_bytes: len,
                            catalog_entry,
                            id: stem,
                        },
                    )
                } else {
                    None
                }
            },
            _ => None,
        }
    }

    /// The models among what stands in the models directory, by identifier.
    /// Partial downloads and other files do not count.
    pub fn installed(&self, items: &Vec<DirItem>) -> (r: Vec<InstalledModel>)
        ensures
            views(r@) == installed_spec(self.dir(), views(items@)),
    {
        let catalog = model_catalog();
        let mut out: Vec<InstalledModel> = Vec::new();
        let mut i: usize = 0;
        let ghost all = views(items@);
        let ghost dir = self.dir();
        let ghost f = |i: DirItemView| model_item(dir, i);
        let ghost le = by_id();
        assert(all.take(0) =~= Seq::empty());
        assert(views(out@) =~= sort_by(pick(all.take(0), f), le));
        while i < items.len()
            invariant
                i <= items.len(),
                all == views(items@),
                dir == self.dir(),
                views(catalog@) == catalog_spec(),
                f == (|i: DirItemView| model_item(dir, i)),
                le == by_id(),
                views(out@) == sort_by(pick(all.take(i as int), f), le),
            decreases items.len() - i,
        {
            proof {
                lemma_pick_take(all, f, i as int);
            }
            match self.model_of(&items[i], &catalog) {
                Some(model) => {
                    let ghost mv = model@;
                    let ghost picked = pick(all.take(i as int), f);
                    insert_model(&mut out, model);
                    assert(picked.push(mv).drop_last() =~= picked);
                },
                None => {},
            }
            i += 1;
        }
        assert(all.take(all.len() as int) =~= all);
        out
    }

    /// What deleting a model comes to, given whether its file and its partial
    /// file were there and have been removed.
    pub fn delete(&self, model_id: &str, removed_model: bool, removed_part: bool) -> (r: Result<
        (),
        LocalError,
    >)
        ensures
            r is Ok <==> removed_model || removed_part,
            r matches Err(e) ==> e@ == LocalErrorView::ModelNotFound(model_id@),
    {
        if removed_model || removed_part {
            Ok(())
        } else {
            Err(LocalError::ModelNotFound(model_id.to_owned()))
        }
    }

    /// The files that deleting a model removes.
    pub fn files_of(&self, model_id: &str) -> (r: (String, String))
        ensures
            r.0@ == joined(self.dir(), model_id@ + ".gguf"@),
            r.1@ == r.0@ + ".part"@,
    {
        let dest = self.model_path(model_id);
        let part = part_path(dest.as_str());
        (dest, part)
    }
}

/// Puts a model in its place among models that are in order.
fn insert_model(out: &mut Vec<InstalledModel>, model: InstalledModel)
    ensures
        views(final(out)@) == insert_by(views(old(out)@), model@, by_id()),
{
    let ghost before = views(out@);
    let mut pos: usize = out.len();
    while pos > 0 && !text_at_most(out[pos - 1].id.as_str(), model.id.as_str())
        invariant
            pos <= out.len(),
            before == views(out@),
            out@ == old(out)@,
            forall|j: int|
                pos <= j < before.len() ==> !model_le(#[trigger] before[j], model@),
        decreases pos,
    {
        pos -= 1;
    }
    let ghost mv = model@;
    proof {
        let le = by_id();
        assert forall|j: int| pos <= j < before.len() implies !le(#[trigger] before[j], mv) by {
            assert(!model_le(before[j], mv));
        }
        lemma_insert_by(before, mv, le, pos as int);
    }
    out.insert(pos, model);
    assert(views(out@) =~= before.insert(pos as int, mv));
}

/// Models have an order by identifier.
proof fn lemma_by_id()
    ensures
        total_preorder(by_id()),
{
    let le = by_id();
    assert forall|a: InstalledView, b: InstalledView| #[trigger] le(a, b) || le(b, a) by {
        lemma_text_le_total(a.id, b.id);
    }
    assert forall|a: InstalledView, b: InstalledView, c: InstalledView|
        #[trigger] le(a, b) && #[trigger] le(b, c) implies le(a, c) by {
        lemma_text_le_chains(a.id, b.id, c.id);
    }
}

/// The installed models come in order of their identifiers, and they are just
/// the model files of the directory.
pub proof fn law_installed_models_are_sorted(dir: Seq<char>, items: Seq<DirItemView>)
    ensures
        in_order(installed_spec(dir, items), by_id()),
        installed_spec(dir, items).to_multiset() == pick(
            items,
            |i: DirItemView| model_item(dir, i),
        ).to_multiset(),
{
    lemma_by_id();
    lemma_sort(pick(items, |i: DirItemView| model_item(dir, i)), by_id());
}

/// A partial download never counts as a model.
pub proof fn law_partial_files_are_ignored(dir: Seq<char>, stem: Seq<char>, len: Option<u64>)
    ensures
        model_item(dir, DirItemView { name: stem + ".part"@, file_len: len }) is None,
{
    reveal_strlit(".part");
    reveal_strlit("gguf");
    let name = stem + ".part"@;
    let n = name.len() as int;
    assert(".part"@.len() == 5);
    assert(name[n - 1] == 't' && name[n - 2] == 'r' && name[n - 3] == 'a' && name[n - 4] == 'p'
        && name[n - 5] == '.');
    reveal_with_fuel(crate::paths::last_dot, 6);
    if let Some(parts) = stem_and_extension(name) {
        assert(parts.1 =~= name.skip(n - 4));
        assert(parts.1[0] == 'p');
        assert("gguf"@[0] == 'g');
    }
}

/// A model file counts as the model of its name: one that is stored where the model belongs
/// is found again, with its path and its length.
pub proof fn law_stored_model_is_found(dir: Seq<char>, id: Seq<char>, len: u64)
    requires
        id.len() > 0,
    ensures
        model_item(dir, DirItemView { name: id + ".gguf"@, file_len: Some(len) }) matches Some(m)
            && m.id == id && m.path == joined(dir, id + ".gguf"@) && m.size_bytes == len
            && m.catalog_entry == entry_in(catalog_spec(), id),
        model_item(dir, DirItemView { name: id + ".gguf"@, file_len: None }) is None,
{
    reveal_strlit(".gguf");
    reveal_strlit("gguf");
    reveal_strlit("..");
    let name = id + ".gguf"@;
    let n = name.len() as int;
    assert(name[n - 1] == 'f' && name[n - 2] == 'u' && name[n - 3] == 'g' && name[n - 4] == 'g'
        && name[n - 5] == '.');
    reveal_with_fuel(crate::paths::last_dot, 6);
    assert(crate::paths::last_dot(name, n) == Some(n - 5));
    assert(".."@.len() == 2);
    assert(name.take(n - 5) =~= id);
    assert(name.skip(n - 4) =~= "gguf"@);
}

} // verus!
