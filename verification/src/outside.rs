//! The calls into egui and simsearch that the library makes, with what this
//! library relies on about each of them.
use vstd::prelude::*;

verus! {

#[verifier::external_type_specification]
#[verifier::external_body]
pub struct ExFontId(egui::FontId);

#[verifier::external_type_specification]
#[verifier::external_body]
#[verifier::reject_recursive_types(Id)]
pub struct ExSimSearch<Id: Eq + PartialEq + Clone + core::hash::Hash + Ord>(
    simsearch::SimSearch<Id>,
);

/// The strings of a list, as character sequences.
pub open spec fn strings_model(v: Seq<String>) -> Seq<Seq<char>> {
    v.map_values(|s: String| s@)
}

/// What a search index holds: for each id inserted into it, the tokens it is
/// filed under (as `search_tokens` made them from the tokens handed over the
/// last time that id was inserted).
pub uninterp spec fn search_index(s: simsearch::SimSearch<usize>) -> Map<usize, Seq<Seq<char>>>;

/// The tokens that a search index with the default options files for the
/// tokens `raw`: each lower-cased and split at whitespace, the empty pieces
/// dropped, the rest sorted.
pub uninterp spec fn search_tokens(raw: Seq<Seq<char>>) -> Seq<Seq<char>>;

/// The ids that a search for `pattern` finds in an index that holds `index`
/// (with the default options): those with a token close enough to a token of
/// the pattern. The set depends on the index and the pattern alone; the order
/// in which a search hands the ids over does not.
pub uninterp spec fn search_hits(index: Map<usize, Seq<Seq<char>>>, pattern: Seq<char>) -> Set<usize>;

/// The number of the egui id hashed from the string `source`
/// (`egui::Id::new(source).value()`). egui hashes with ahash under the fixed
/// seeds 1, 2, 3, 4, so the id depends on the string alone.
pub uninterp spec fn egui_id_str(source: Seq<char>) -> u64;

/// The number of the egui id made from the id numbered `parent` and the
/// string child `child` (`Id::with` on a `&str`).
pub uninterp spec fn egui_id_child_str(parent: u64, child: Seq<char>) -> u64;

/// The number of the egui id made from the id numbered `parent` and the
/// number child `child` (`Id::with` on a `usize`).
pub uninterp spec fn egui_id_child_usize(parent: u64, child: usize) -> u64;

/// `egui::Id::new(source).value()`: the number of the id hashed from
/// `source`. egui keeps it in a `NonZeroU64`, so it is never zero.
#[verifier::external_body]
pub(crate) fn id_of(source: &str) -> (r: u64)
    ensures
        r == egui_id_str(source@),
        r != 0,
{
    egui::Id::new(source).value()
}

/// `egui::Id::new(parent).with(child).value()` for a string child: the
/// number of the child id. egui has no way to rebuild an id from its number,
/// so the parent is handed over as the string it is hashed from. Never zero.
#[verifier::external_body]
pub(crate) fn id_child_str(parent: &str, child: &str) -> (r: u64)
    ensures
        r == egui_id_child_str(egui_id_str(parent@), child@),
        r != 0,
{
    egui::Id::new(parent).with(child).value()
}

/// `egui::Id::new(parent).with(child).value()` for a number child: the
/// number of the child id, the parent handed over as its string. Never zero.
#[verifier::external_body]
pub(crate) fn id_child_usize(parent: &str, child: usize) -> (r: u64)
    ensures
        r == egui_id_child_usize(egui_id_str(parent@), child),
        r != 0,
{
    egui::Id::new(parent).with(child).value()
}

/// `Clone` of `egui::FontId`, which is derived: the copy has the same size
/// and family, so it is the same value.
#[verifier::external_body]
pub(crate) fn font_id_clone(f: &egui::FontId) -> (r: egui::FontId)
    ensures
        r == *f,
{
    f.clone()
}

/// `simsearch::SimSearch::new`: an index with nothing in it.
#[verifier::external_body]
pub(crate) fn search_new() -> (r: simsearch::SimSearch<usize>)
    ensures
        search_index(r) =~= Map::empty(),
{
    simsearch::SimSearch::new()
}

/// `simsearch::SimSearch::insert_tokens`: first forgets whatever `id` held,
/// then files `id` under the tokens that `search_tokens` makes of `tokens`.
#[verifier::external_body]
pub(crate) fn search_insert_tokens(
    s: &mut simsearch::SimSearch<usize>,
    id: usize,
    tokens: &Vec<String>,
)
    ensures
        search_index(*final(s)) == search_index(*old(s)).insert(
            id,
            search_tokens(strings_model(tokens@)),
        ),
{
    let refs: Vec<&str> = tokens.iter().map(|t| t.as_str()).collect();
    s.insert_tokens(id, &refs)
}

/// `simsearch::SimSearch::search`: the ids whose tokens are close enough to
/// the pattern, best first, each once. The set of ids is `search_hits` of the
/// index and the pattern, and only ids in the index come back. The order is
/// left unsaid: it comes from similarity scores summed while a `HashMap` is
/// walked.
#[verifier::external_body]
pub(crate) fn search_search(s: &simsearch::SimSearch<usize>, pattern: &str) -> (r: Vec<usize>)
    ensures
        r@.no_duplicates(),
        r@.to_set() == search_hits(search_index(*s), pattern@),
        forall|i: int| 0 <= i < r@.len() ==> search_index(*s).dom().contains(#[trigger] r@[i]),
{
    s.search(pattern)
}

/// `Clone` of `simsearch::SimSearch`, which is derived: the copy holds the
/// same ids and tokens.
#[verifier::external_body]
pub(crate) fn search_clone(s: &simsearch::SimSearch<usize>) -> (r: simsearch::SimSearch<usize>)
    ensures
        search_index(r) == search_index(*s),
{
    s.clone()
}

} // verus!
