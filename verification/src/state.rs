//! The state that the panes share: the loaded document and where the user
//! stands in it.

use oas3::spec::Operation;
use oas3::Spec;
use vstd::prelude::*;

verus! {

/// `oas3::Spec`, a parsed OpenAPI document. Nothing of its contents is
/// visible here but through [`document_operations`].
#[verifier::external_type_specification]
#[verifier::external_body]
pub struct ExSpec(Spec);

/// `oas3::spec::Operation`, one operation of a document. Nothing of its
/// contents is visible here but through [`operation_tags`].
#[verifier::external_type_specification]
#[verifier::external_body]
pub struct ExOperation(Operation);

/// An operation as the queries see it: its path, the name of its method, and
/// the operation itself.
pub type Entry = (Seq<char>, Seq<char>, Operation);

/// What `oas3::Spec::operations` yields for a document, in the order in which
/// it yields it, each method given by its name. Nothing more is claimed of
/// it; an operation of the document may well stand in it more than once.
pub uninterp spec fn document_operations(document: Spec) -> Seq<Entry>;

/// The field `tags` of an `oas3::spec::Operation`.
pub uninterp spec fn operation_tags(operation: Operation) -> Seq<Seq<char>>;

/// An entry of the executable list of operations, seen as an [`Entry`].
pub open spec fn entry_view(entry: (String, String, &Operation)) -> Entry {
    (entry.0@, entry.1@, *entry.2)
}

/// Calls `oas3::Spec::operations` and collects what it yields, each method
/// turned into its name by `to_string`. The contract claims that the list is,
/// item for item, the sequence that [`document_operations`] names: the call
/// walks the document's ordered map of paths and, for each path, its methods
/// in a fixed order, so the result depends on the document alone.
#[verifier::external_body]
fn operations(document: &Spec) -> (entries: Vec<(String, String, &Operation)>)
    ensures
        entries@.len() == document_operations(*document).len(),
        forall|i: int|
            0 <= i < entries@.len() ==> entry_view(#[trigger] entries@[i]) == document_operations(
                *document,
            )[i],
{
    document.operations().map(|(path, method, operation)| (path, method.to_string(), operation)).collect()
}

/// Reads the field `tags` of an `oas3::spec::Operation`. The contract claims
/// that the strings handed out are those that [`operation_tags`] names.
#[verifier::external_body]
fn tags(operation: &Operation) -> (tags: &Vec<String>)
    ensures
        tags.deep_view() == operation_tags(*operation),
{
    &operation.tags
}

/// Whether an operation carries a tag.
pub open spec fn carries_tag(operation: Operation, tag: Seq<char>) -> bool {
    operation_tags(operation).contains(tag)
}

/// Whether an entry passes a tag filter: every entry passes the absent
/// filter, and the entries that carry the tag pass a tag.
pub open spec fn passes(filter: Option<Seq<char>>, entry: Entry) -> bool {
    match filter {
        None => true,
        Some(tag) => carries_tag(entry.2, tag),
    }
}

/// The entries that pass a tag filter, in their order.
pub open spec fn filtered(entries: Seq<Entry>, filter: Option<Seq<char>>) -> Seq<Entry> {
    entries.filter(|entry: Entry| passes(filter, entry))
}

/// A tag filter as the contracts see it.
pub open spec fn filter_view(filter: Option<String>) -> Option<Seq<char>> {
    match filter {
        None => None,
        Some(tag) => Some(tag@),
    }
}

/// Whether an operation carries a tag.
fn has_tag(operation: &Operation, tag: &String) -> (found: bool)
    ensures
        found == carries_tag(*operation, tag@),
{
    let all = tags(operation);
    let mut i: usize = 0;
    while i < all.len()
        invariant
            i <= all.len(),
            all.deep_view() == operation_tags(*operation),
            forall|j: int| 0 <= j < i ==> operation_tags(*operation)[j] != tag@,
        decreases all.len() - i,
    {
        assert(all.deep_view()[i as int] == all[i as int]@);
        if all[i] == *tag {
            return true;
        }
        i += 1;
    }
    false
}

/// Whether an operation passes a tag filter.
fn passes_filter(entry: &(String, String, &Operation), filter: &Option<String>) -> (pass: bool)
    ensures
        pass == passes(filter_view(*filter), entry_view(*entry)),
{
    match filter {
        None => true,
        Some(tag) => has_tag(entry.2, tag),
    }
}

/// The shared state of a session.
pub struct State {
    /// Where the document was loaded from; shown, never read back.
    pub openapi_path: String,
    /// The loaded document.
    pub openapi_spec: Spec,
    /// The place of the active operation among the operations that pass the
    /// tag filter, counted from zero. A change of the filter leaves it as it
    /// is, so it may point past the last of them.
    pub active_operation_index: usize,
    /// The tag filter: when present, only the operations that carry this tag
    /// are navigable.
    pub active_tag_name: Option<String>,
}

impl State {
    /// The tag filter as the contracts see it.
    pub open spec fn tag_filter(&self) -> Option<Seq<char>> {
        filter_view(self.active_tag_name)
    }

    /// The operations that pass the tag filter, in document order.
    pub open spec fn visible_operations(&self) -> Seq<Entry> {
        filtered(document_operations(self.openapi_spec), self.tag_filter())
    }

    /// The state of a fresh session: the first operation active, no filter.
    pub fn new(openapi_path: String, openapi_spec: Spec) -> (state: State)
        ensures
            state.openapi_path == openapi_path,
            state.openapi_spec == openapi_spec,
            state.active_operation_index == 0,
            state.active_tag_name is None,
    {
        State { openapi_path, openapi_spec, active_operation_index: 0, active_tag_name: None }
    }

    /// The operation at `active_operation_index` among those that pass the
    /// tag filter, or nothing if the index points past the last of them.
    pub fn active_operation(&self) -> (active: Option<(String, String, &Operation)>)
        ensures
            match active {
                Some(entry) => self.active_operation_index < self.visible_operations().len()
                    && entry_view(entry) == self.visible_operations()[self.active_operation_index as int],
                None => self.active_operation_index >= self.visible_operations().len(),
            },
    {
        let mut entries = operations(&self.openapi_spec);
        let ghost all = document_operations(self.openapi_spec);
        let ghost filter = self.tag_filter();
        assert(entries@.map_values(|e| entry_view(e)) =~= all);
        let mut seen: usize = 0;
        let mut i: usize = 0;
        while i < entries.len()
            invariant
                i <= entries.len(),
                all == document_operations(self.openapi_spec),
                filter == self.tag_filter(),
                entries@.map_values(|e| entry_view(e)) == all,
                seen == filtered(all.take(i as int), filter).len(),
                seen <= self.active_operation_index,
            decreases entries.len() - i,
        {
            assert(entries@.map_values(|e| entry_view(e))[i as int] == entry_view(entries@[i as int]));
            proof {
                lemma_filtered_step(all, filter, i as int);
            }
            if passes_filter(&entries[i], &self.active_tag_name) {
                if seen == self.active_operation_index {
                    proof {
                        lemma_filtered_prefix(all, filter, i as int + 1);
                        let upto = filtered(all.take(i as int + 1), filter);
                        assert(upto[seen as int] == all[i as int]);
                        assert(filtered(all, filter)[seen as int] == upto[seen as int]);
                    }
                    let entry = entries.swap_remove(i);
                    return Some(entry);
                }
                seen += 1;
            }
            i += 1;
        }
        assert(all.take(i as int) =~= all);
        None
    }

    /// How many operations pass the tag filter.
    pub fn operations_len(&self) -> (len: usize)
        ensures
            len == self.visible_operations().len(),
            self.active_tag_name is None ==> len == document_operations(self.openapi_spec).len(),
    {
        let entries = operations(&self.openapi_spec);
        let ghost all = document_operations(self.openapi_spec);
        let ghost filter = self.tag_filter();
        assert(entries@.map_values(|e| entry_view(e)) =~= all);
        let mut len: usize = 0;
        let mut i: usize = 0;
        while i < entries.len()
            invariant
                i <= entries.len(),
                all == document_operations(self.openapi_spec),
                filter == self.tag_filter(),
                entries@.map_values(|e| entry_view(e)) == all,
                len == filtered(all.take(i as int), filter).len(),
                len <= i,
            decreases entries.len() - i,
        {
            assert(entries@.map_values(|e| entry_view(e))[i as int] == entry_view(entries@[i as int]));
            proof {
                lemma_filtered_step(all, filter, i as int);
            }
            if passes_filter(&entries[i], &self.active_tag_name) {
                len += 1;
            }
            i += 1;
        }
        assert(all.take(i as int) =~= all);
        proof {
            lemma_absent_filter_keeps_all(all);
        }
        len
    }
}

impl State {
    /// With no tag filter every operation of the document is navigable, in
    /// document order.
    pub proof fn lemma_visible_without_filter(self)
        requires
            self.active_tag_name is None,
        ensures
            self.visible_operations() == document_operations(self.openapi_spec),
    {
        lemma_absent_filter_keeps_all(document_operations(self.openapi_spec));
    }

    /// Under a tag that the operations at exactly `count` places of the
    /// document carry, `count` operations are navigable. Each of them carries
    /// the tag, and they stand at `count` different places of the document,
    /// in document order.
    pub proof fn lemma_visible_under_tag(self, tag: Seq<char>, count: nat)
        requires
            self.tag_filter() == Some(tag),
            tagged_places(document_operations(self.openapi_spec), tag).len() == count,
        ensures
            self.visible_operations().len() == count,
            forall|n: int|
                0 <= n < count ==> carries_tag((#[trigger] self.visible_operations()[n]).2, tag),
            forall|n: int|
                0 <= n < count ==> self.visible_operations()[n] == document_operations(
                    self.openapi_spec,
                )[#[trigger] place_of(document_operations(self.openapi_spec), Some(tag), n)],
            forall|m: int, n: int|
                0 <= m < n < count ==> 0 <= #[trigger] place_of(
                    document_operations(self.openapi_spec),
                    Some(tag),
                    m,
                ) < #[trigger] place_of(document_operations(self.openapi_spec), Some(tag), n)
                    < document_operations(self.openapi_spec).len(),
    {
        lemma_tag_filter(document_operations(self.openapi_spec), tag, count);
    }
}

/// Taking one more entry into a prefix adds it to the filtered prefix exactly
/// when it passes.
proof fn lemma_filtered_step(entries: Seq<Entry>, filter: Option<Seq<char>>, i: int)
    requires
        0 <= i < entries.len(),
    ensures
        filtered(entries.take(i + 1), filter) == if passes(filter, entries[i]) {
            filtered(entries.take(i), filter).push(entries[i])
        } else {
            filtered(entries.take(i), filter)
        },
{
    assert(entries.take(i + 1) =~= entries.take(i).push(entries[i]));
    entries.take(i).lemma_filter_push(entries[i], |entry: Entry| passes(filter, entry));
}

/// What passes among the first `i` entries stands, in the same places, at the
/// front of what passes among all of them.
proof fn lemma_filtered_prefix(entries: Seq<Entry>, filter: Option<Seq<char>>, i: int)
    requires
        0 <= i <= entries.len(),
    ensures
        filtered(entries.take(i), filter).is_prefix_of(filtered(entries, filter)),
{
    entries.take(i).lemma_filter_monotone(entries, |entry: Entry| passes(filter, entry));
}

/// With no tag filter every operation of the document is navigable.
pub proof fn lemma_absent_filter_keeps_all(entries: Seq<Entry>)
    ensures
        filtered(entries, None) == entries,
    decreases entries.len(),
{
    reveal(Seq::filter);
    if entries.len() > 0 {
        lemma_absent_filter_keeps_all(entries.drop_last());
        assert(entries.drop_last().push(entries.last()) =~= entries);
    }
}

/// The places in `entries` of the operations that carry `tag`.
pub open spec fn tagged_places(entries: Seq<Entry>, tag: Seq<char>) -> Set<int> {
    Set::new(|place: int| 0 <= place < entries.len() && carries_tag(entries[place].2, tag))
}

/// The place in `entries` of the entry that stands at `n` among those that
/// pass `filter`.
pub open spec fn place_of(entries: Seq<Entry>, filter: Option<Seq<char>>, n: int) -> int
    decreases entries.len(),
{
    if entries.len() == 0 {
        0
    } else if n < filtered(entries.drop_last(), filter).len() {
        place_of(entries.drop_last(), filter, n)
    } else {
        entries.len() - 1
    }
}

/// Filtering a sequence is filtering all but its last entry and then
/// deciding on the last.
proof fn lemma_filtered_last(entries: Seq<Entry>, filter: Option<Seq<char>>)
    requires
        entries.len() > 0,
    ensures
        filtered(entries, filter) == if passes(filter, entries.last()) {
            filtered(entries.drop_last(), filter).push(entries.last())
        } else {
            filtered(entries.drop_last(), filter)
        },
{
    assert(entries.take(entries.len() - 1) =~= entries.drop_last());
    assert(entries.take(entries.len() as int) =~= entries);
    lemma_filtered_step(entries, filter, entries.len() - 1);
}

/// As many operations pass a tag as there are places in the document where
/// an operation carries it.
pub proof fn lemma_tag_count(entries: Seq<Entry>, tag: Seq<char>)
    ensures
        tagged_places(entries, tag).finite(),
        filtered(entries, Some(tag)).len() == tagged_places(entries, tag).len(),
    decreases entries.len(),
{
    if entries.len() == 0 {
        reveal(Seq::filter);
        assert(tagged_places(entries, tag) =~= Set::<int>::empty());
    } else {
        let front = entries.drop_last();
        let last = entries.len() - 1;
        lemma_tag_count(front, tag);
        lemma_filtered_last(entries, Some(tag));
        if carries_tag(entries[last].2, tag) {
            assert(tagged_places(entries, tag) =~= tagged_places(front, tag).insert(last));
        } else {
            assert(tagged_places(entries, tag) =~= tagged_places(front, tag));
        }
    }
}

/// The entry at `n` among those that pass a filter is the entry of the
/// document at `place_of(.., n)`, and that entry passes the filter.
pub proof fn lemma_place_of(entries: Seq<Entry>, filter: Option<Seq<char>>, n: int)
    requires
        0 <= n < filtered(entries, filter).len(),
    ensures
        0 <= place_of(entries, filter, n) < entries.len(),
        filtered(entries, filter)[n] == entries[place_of(entries, filter, n)],
        passes(filter, entries[place_of(entries, filter, n)]),
    decreases entries.len(),
{
    if entries.len() == 0 {
        reveal(Seq::filter);
    } else {
        lemma_filtered_last(entries, filter);
        if n < filtered(entries.drop_last(), filter).len() {
            lemma_place_of(entries.drop_last(), filter, n);
        }
    }
}

/// Later entries among those that pass a filter stand at later places of the
/// document.
pub proof fn lemma_places_ascend(entries: Seq<Entry>, filter: Option<Seq<char>>, m: int, n: int)
    requires
        0 <= m < n < filtered(entries, filter).len(),
    ensures
        place_of(entries, filter, m) < place_of(entries, filter, n),
    decreases entries.len(),
{
    if entries.len() == 0 {
        reveal(Seq::filter);
    } else {
        lemma_filtered_last(entries, filter);
        if n < filtered(entries.drop_last(), filter).len() {
            lemma_places_ascend(entries.drop_last(), filter, m, n);
        } else {
            lemma_place_of(entries.drop_last(), filter, m);
        }
    }
}

/// Under a tag that the operations at exactly `count` places of a document
/// carry, `count` operations are navigable. Each of them carries the tag, and
/// they stand at `count` different places of the document, in document order.
pub proof fn lemma_tag_filter(entries: Seq<Entry>, tag: Seq<char>, count: nat)
    requires
        tagged_places(entries, tag).len() == count,
    ensures
        filtered(entries, Some(tag)).len() == count,
        forall|n: int|
            0 <= n < count ==> 0 <= #[trigger] place_of(entries, Some(tag), n) < entries.len(),
        forall|n: int|
            0 <= n < count ==> filtered(entries, Some(tag))[n] == entries[#[trigger] place_of(
                entries,
                Some(tag),
                n,
            )],
        forall|n: int|
            0 <= n < count ==> carries_tag((#[trigger] filtered(entries, Some(tag))[n]).2, tag),
        forall|m: int, n: int|
            0 <= m < n < count ==> #[trigger] place_of(entries, Some(tag), m) < #[trigger] place_of(
                entries,
                Some(tag),
                n,
            ),
{
    lemma_tag_count(entries, tag);
    assert forall|n: int| 0 <= n < count implies 0 <= #[trigger] place_of(entries, Some(tag), n)
        < entries.len() && filtered(entries, Some(tag))[n] == entries[place_of(
        entries,
        Some(tag),
        n,
    )] by {
        lemma_place_of(entries, Some(tag), n);
    }
    assert forall|n: int| 0 <= n < count implies carries_tag(
        (#[trigger] filtered(entries, Some(tag))[n]).2,
        tag,
    ) by {
        lemma_place_of(entries, Some(tag), n);
    }
    assert forall|m: int, n: int| 0 <= m < n < count implies #[trigger] place_of(
        entries,
        Some(tag),
        m,
    ) < #[trigger] place_of(entries, Some(tag), n) by {
        lemma_places_ascend(entries, Some(tag), m, n);
    }
}

} // verus!
