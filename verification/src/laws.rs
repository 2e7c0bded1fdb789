//! The laws of the tagging model, stated and proved over the spec-level
//! state of the stores.

use vstd::prelude::*;

use crate::entities::{EntryData, TagData, TripleData};
use crate::model::{
    dedup, entries_with_ids, find_tag_id, lemma_entries_with_no_ids,
    lemma_matching_tag_ids_no_names, lemma_tag_ids_of_contains, lemma_tagged_entry_ids_no_ids,
    lemma_triple_count_push, lemma_triple_count_zero, matching_tag_ids, tag_ids_of,
    tagged_entry_ids, triple_count, triple_data,
};
use crate::usecase::{add_tag_post, unique_entry_ids, update_entry_post};

verus! {

/// Law: creating an entry under a fresh identifier keeps the stored
/// identifiers unique, so every later lookup stays unambiguous.
pub proof fn lemma_create_preserves_unique_entry_ids(es: Seq<EntryData>, rec: EntryData)
    requires
        unique_entry_ids(es),
        forall|i: int| 0 <= i < es.len() ==> (#[trigger] es[i]).id != rec.id,
    ensures
        unique_entry_ids(es.push(rec)),
{
    assert forall|i: int, j: int|
        0 <= i < j < es.push(rec).len() implies (#[trigger] es.push(rec)[i]).id != (
    #[trigger] es.push(rec)[j]).id by {
        if j < es.len() {
            assert(es[i].id != es[j].id);
        } else {
            assert(es[i].id != rec.id);
        }
    }
}

/// Law: a successful version-checked update replaces a record under its own
/// identifier, so the stored identifiers stay unique.
pub proof fn lemma_update_preserves_unique_entry_ids(
    es0: Seq<EntryData>,
    es1: Seq<EntryData>,
    u: crate::entities::UpdateEntryData,
    created: u64,
    rec: EntryData,
)
    requires
        unique_entry_ids(es0),
        update_entry_post(es0, es1, u, created, Ok(rec)),
    ensures
        unique_entry_ids(es1),
{
    let i = choose|i: int|
        #![auto]
        0 <= i < es0.len() && es0[i].id == u.id && es0[i].version == u.version && rec
            == crate::model::updated_entry_record(es0[i], u, created) && es1 == es0.update(i, rec);
    assert(rec.id == es0[i].id);
    assert forall|p: int, q: int|
        0 <= p < q < es1.len() implies (#[trigger] es1[p]).id != (#[trigger] es1[q]).id by {
        assert(es0[p].id != es0[q].id);
    }
}

/// Law: associating the same tag name with the same entry twice changes
/// nothing the second time, and an entry starting without the tag ends up
/// with exactly one tagging fact for it.
pub proof fn lemma_add_tag_idempotent(
    rt0: Seq<TagData>,
    rs0: Seq<TripleData>,
    rt1: Seq<TagData>,
    rs1: Seq<TripleData>,
    rt2: Seq<TagData>,
    rs2: Seq<TripleData>,
    tag: Seq<char>,
    entry_id: Seq<char>,
)
    requires
        tag.len() != 0,
        add_tag_post(rt0, rs0, rt1, rs1, tag, entry_id, Ok(())),
        add_tag_post(rt1, rs1, rt2, rs2, tag, entry_id, Ok(())),
    ensures
        rt2 == rt1,
        rs2 == rs1,
        triple_count(rs0, entry_id, find_tag_id(rt1, tag)->Some_0) == 0 ==> triple_count(
            rs2,
            entry_id,
            find_tag_id(rt1, tag)->Some_0,
        ) == 1,
{
    let tid = find_tag_id(rt1, tag)->Some_0;
    // the second resolution finds the name stored by the first one
    assert(rt2 == rt1);
    lemma_tag_ids_of_contains(rs0, entry_id, tid);
    lemma_tag_ids_of_contains(rs1, entry_id, tid);
    if tag_ids_of(rs0, entry_id).contains(tid) {
        assert(rs1 == rs0);
    } else {
        assert(rs1 == rs0.push(triple_data(entry_id, tid)));
        assert(rs1[rs1.len() - 1] == triple_data(entry_id, tid));
    }
    assert(tag_ids_of(rs1, entry_id).contains(tid));
    assert(rs2 == rs1);
    if triple_count(rs0, entry_id, tid) == 0 {
        lemma_triple_count_zero(rs0, entry_id, tid);
        assert(!tag_ids_of(rs0, entry_id).contains(tid));
        lemma_triple_count_push(rs0, triple_data(entry_id, tid), entry_id, tid);
    }
}

/// Law: the derived tag set reflects triple deletions. Removing the only
/// tagging fact linking an entry to a tag removes the tag from the entry's
/// derived set — and nothing else changes, since the set is derived from
/// the stored triples alone, never from the entry record.
pub proof fn lemma_tag_gone_after_triple_removal(
    ts: Seq<TripleData>,
    i: int,
    entry_id: Seq<char>,
    tag_id: Seq<char>,
)
    requires
        0 <= i < ts.len(),
        ts[i] == triple_data(entry_id, tag_id),
        forall|j: int|
            0 <= j < ts.len() && #[trigger] ts[j] == triple_data(entry_id, tag_id) ==> j == i,
    ensures
        tag_ids_of(ts, entry_id).contains(tag_id),
        !tag_ids_of(ts.remove(i), entry_id).contains(tag_id),
{
    lemma_tag_ids_of_contains(ts, entry_id, tag_id);
    lemma_tag_ids_of_contains(ts.remove(i), entry_id, tag_id);
    ts.remove_ensures(i);
    if tag_ids_of(ts.remove(i), entry_id).contains(tag_id) {
        let j = choose|j: int|
            0 <= j < ts.remove(i).len() && ts.remove(i)[j] == triple_data(entry_id, tag_id);
        if j < i {
            assert(ts[j] == triple_data(entry_id, tag_id));
        } else {
            assert(ts[j + 1] == triple_data(entry_id, tag_id));
        }
        assert(false);
    }
}

/// Law: multi-tag search with an empty tag-name set selects no entries,
/// whatever is stored — never the full entry set.
pub proof fn lemma_search_with_no_tags_is_empty(
    entries: Seq<EntryData>,
    tags: Seq<TagData>,
    triples: Seq<TripleData>,
)
    ensures
        entries_with_ids(
            entries,
            dedup(tagged_entry_ids(triples, matching_tag_ids(tags, Seq::empty()))),
        ) == Seq::<EntryData>::empty(),
{
    lemma_matching_tag_ids_no_names(tags);
    lemma_tagged_entry_ids_no_ids(triples);
    lemma_entries_with_no_ids(entries);
}

} // verus!
