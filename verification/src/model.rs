use vstd::prelude::*;

verus! {

/// The mathematical face of one history entry: its identifier, its text and
/// the moment it was captured.
#[verifier::ext_equal]
pub ghost struct ItemModel {
    pub id: Seq<char>,
    pub content: Seq<char>,
    pub captured_at: int,
}

/// One durable row of the store, as the contracts speak of it: the value kept
/// under an identifier.
#[verifier::ext_equal]
pub ghost struct RowModel {
    pub content: Seq<char>,
    pub captured_at: int,
}

/// The row that a given entry is persisted as.
pub open spec fn row_of(m: ItemModel) -> RowModel {
    RowModel { content: m.content, captured_at: m.captured_at }
}

/// The store with nothing in it.
pub open spec fn no_rows() -> Map<Seq<char>, RowModel> {
    Map::empty()
}

/// No identifier appears twice.
pub open spec fn ids_distinct(s: Seq<ItemModel>) -> bool {
    forall|i: int, j: int| 0 <= i < j < s.len() ==> s[i].id != s[j].id
}

/// Capture times never increase along the sequence: most recent first.
pub open spec fn sorted_desc(s: Seq<ItemModel>) -> bool {
    forall|i: int, j: int| 0 <= i <= j < s.len() ==> s[i].captured_at >= s[j].captured_at
}

/// Capture times strictly decrease along the sequence.
pub open spec fn strictly_sorted_desc(s: Seq<ItemModel>) -> bool {
    forall|i: int, j: int| 0 <= i < j < s.len() ==> s[i].captured_at > s[j].captured_at
}

/// The cache and the durable rows describe the same entries: every cached
/// entry is stored under its identifier with its own content and capture
/// time, every stored row is cached, and there are as many rows as entries.
pub open spec fn rows_match(s: Seq<ItemModel>, m: Map<Seq<char>, RowModel>) -> bool {
    &&& m.dom().finite()
    &&& m.dom().len() == s.len()
    &&& forall|i: int|
        0 <= i < s.len() ==> m.contains_key(#[trigger] s[i].id) && m[s[i].id] == row_of(s[i])
    &&& forall|k: Seq<char>|
        #[trigger] m.contains_key(k) ==> exists|i: int| 0 <= i < s.len() && s[i].id == k
}

} // verus!
