//! Spec-level model of the tagging relation and of record construction:
//! what the use cases compute, stated over sequences of record values.

use vstd::prelude::*;

use crate::entities::{EntryData, NewEntryData, Predicate, TagData, TripleData, UpdateEntryData};

verus! {

/// The tagging fact linking `subject` to the tag `object`.
pub open spec fn triple_data(subject: Seq<char>, object: Seq<char>) -> TripleData {
    TripleData { subject, predicate: Predicate::IsTaggedAs, object }
}

/// The derived tag set of an entry: the objects of all tagging facts whose
/// subject is `entry_id`, in storage order. It is computed from the stored
/// triples at query time, so removing a triple retroactively shrinks it.
pub open spec fn tag_ids_of(ts: Seq<TripleData>, entry_id: Seq<char>) -> Seq<Seq<char>>
    decreases ts.len(),
{
    if ts.len() == 0 {
        Seq::empty()
    } else {
        let rest = tag_ids_of(ts.drop_last(), entry_id);
        let t = ts.last();
        if t.predicate == Predicate::IsTaggedAs && t.subject == entry_id {
            rest.push(t.object)
        } else {
            rest
        }
    }
}

/// The names of the stored tags whose identifier is `id`, in storage order.
pub open spec fn tag_names_of(tags: Seq<TagData>, id: Seq<char>) -> Seq<Seq<char>>
    decreases tags.len(),
{
    if tags.len() == 0 {
        Seq::empty()
    } else {
        let rest = tag_names_of(tags.drop_last(), id);
        if tags.last().id == id {
            rest.push(tags.last().name)
        } else {
            rest
        }
    }
}

/// The identifiers of the stored tags whose name occurs in `names`; a name
/// without a stored tag contributes nothing.
pub open spec fn matching_tag_ids(tags: Seq<TagData>, names: Seq<Seq<char>>) -> Seq<Seq<char>>
    decreases tags.len(),
{
    if tags.len() == 0 {
        Seq::empty()
    } else {
        let rest = matching_tag_ids(tags.drop_last(), names);
        if names.contains(tags.last().name) {
            rest.push(tags.last().id)
        } else {
            rest
        }
    }
}

/// The subjects of all tagging facts whose object occurs in `tag_ids`, in
/// storage order and with repetitions.
pub open spec fn tagged_entry_ids(ts: Seq<TripleData>, tag_ids: Seq<Seq<char>>) -> Seq<Seq<char>>
    decreases ts.len(),
{
    if ts.len() == 0 {
        Seq::empty()
    } else {
        let rest = tagged_entry_ids(ts.drop_last(), tag_ids);
        let t = ts.last();
        if t.predicate == Predicate::IsTaggedAs && tag_ids.contains(t.object) {
            rest.push(t.subject)
        } else {
            rest
        }
    }
}

/// The stored entries whose identifier occurs in `ids`, in storage order.
pub open spec fn entries_with_ids(es: Seq<EntryData>, ids: Seq<Seq<char>>) -> Seq<EntryData>
    decreases es.len(),
{
    if es.len() == 0 {
        Seq::empty()
    } else {
        let rest = entries_with_ids(es.drop_last(), ids);
        if ids.contains(es.last().id) {
            rest.push(es.last())
        } else {
            rest
        }
    }
}

/// `s` with every repetition of an earlier element removed: each element
/// keeps its first occurrence only.
pub open spec fn dedup(s: Seq<Seq<char>>) -> Seq<Seq<char>>
    decreases s.len(),
{
    if s.len() == 0 {
        Seq::empty()
    } else {
        let rest = dedup(s.drop_last());
        if rest.contains(s.last()) {
            rest
        } else {
            rest.push(s.last())
        }
    }
}

/// The identifier of the first stored tag whose name is `name`.
pub open spec fn find_tag_id(tags: Seq<TagData>, name: Seq<char>) -> Option<Seq<char>>
    decreases tags.len(),
{
    if tags.len() == 0 {
        None
    } else if tags.first().name == name {
        Some(tags.first().id)
    } else {
        find_tag_id(tags.drop_first(), name)
    }
}

/// How many tagging facts link `subject` to `object`.
pub open spec fn triple_count(ts: Seq<TripleData>, subject: Seq<char>, object: Seq<char>) -> nat
    decreases ts.len(),
{
    if ts.len() == 0 {
        0
    } else {
        triple_count(ts.drop_last(), subject, object) + if ts.last() == triple_data(
            subject,
            object,
        ) {
            1nat
        } else {
            0nat
        }
    }
}

/// The record stored for a "new tag" request: a fresh identifier, the
/// creation timestamp, version 0 and the requested name.
pub open spec fn tag_record(name: Seq<char>, id: Seq<char>, created: u64) -> TagData {
    TagData { id, created, version: 0, name }
}

/// The record stored for a "new entry" request: a fresh identifier, the
/// creation timestamp, version 0, every editable attribute taken from the
/// request, and the license owned by the server from then on.
pub open spec fn new_entry_record(e: NewEntryData, id: Seq<char>, created: u64) -> EntryData {
    EntryData {
        id,
        created,
        version: 0,
        title: e.title,
        description: e.description,
        lat: e.lat,
        lng: e.lng,
        street: e.street,
        zip: e.zip,
        city: e.city,
        country: e.country,
        email: e.email,
        telephone: e.telephone,
        homepage: e.homepage,
        categories: e.categories,
        tags: e.tags,
        license: Some(e.license),
    }
}

/// The record stored for an update request: identifier kept, a fresh
/// timestamp, the version incremented by exactly 1, every editable attribute
/// taken from the request, and the server-owned license preserved from the
/// prior record.
pub open spec fn updated_entry_record(prior: EntryData, u: UpdateEntryData, created: u64) -> EntryData {
    EntryData {
        id: u.id,
        created,
        version: (u.version + 1) as u64,
        title: u.title,
        description: u.description,
        lat: u.lat,
        lng: u.lng,
        street: u.street,
        zip: u.zip,
        city: u.city,
        country: u.country,
        email: u.email,
        telephone: u.telephone,
        homepage: u.homepage,
        categories: u.categories,
        tags: u.tags,
        license: prior.license,
    }
}

/// A stored entry as handed back by a request: the record exactly as
/// stored, with the derived tag set filled in. The version is the stored
/// one — it moves only on a successful update.
pub open spec fn entry_with_tags(base: EntryData, tags: Seq<Seq<char>>) -> EntryData {
    EntryData {
        id: base.id,
        created: base.created,
        version: base.version,
        title: base.title,
        description: base.description,
        lat: base.lat,
        lng: base.lng,
        street: base.street,
        zip: base.zip,
        city: base.city,
        country: base.country,
        email: base.email,
        telephone: base.telephone,
        homepage: base.homepage,
        categories: base.categories,
        tags,
        license: base.license,
    }
}

/// One step of [`tag_ids_of`], for loops that walk the triples from the front.
pub proof fn lemma_tag_ids_of_step(ts: Seq<TripleData>, entry_id: Seq<char>, j: int)
    requires
        0 <= j < ts.len(),
    ensures
        tag_ids_of(ts.take(j + 1), entry_id) == if ts[j].predicate == Predicate::IsTaggedAs
            && ts[j].subject == entry_id {
            tag_ids_of(ts.take(j), entry_id).push(ts[j].object)
        } else {
            tag_ids_of(ts.take(j), entry_id)
        },
{
    assert(ts.take(j + 1).drop_last() =~= ts.take(j));
    assert(ts.take(j + 1).last() == ts[j]);
}

/// One step of [`tag_names_of`].
pub proof fn lemma_tag_names_of_step(tags: Seq<TagData>, id: Seq<char>, j: int)
    requires
        0 <= j < tags.len(),
    ensures
        tag_names_of(tags.take(j + 1), id) == if tags[j].id == id {
            tag_names_of(tags.take(j), id).push(tags[j].name)
        } else {
            tag_names_of(tags.take(j), id)
        },
{
    assert(tags.take(j + 1).drop_last() =~= tags.take(j));
    assert(tags.take(j + 1).last() == tags[j]);
}

/// One step of [`matching_tag_ids`].
pub proof fn lemma_matching_tag_ids_step(tags: Seq<TagData>, names: Seq<Seq<char>>, j: int)
    requires
        0 <= j < tags.len(),
    ensures
        matching_tag_ids(tags.take(j + 1), names) == if names.contains(tags[j].name) {
            matching_tag_ids(tags.take(j), names).push(tags[j].id)
        } else {
            matching_tag_ids(tags.take(j), names)
        },
{
    assert(tags.take(j + 1).drop_last() =~= tags.take(j));
    assert(tags.take(j + 1).last() == tags[j]);
}

/// One step of [`tagged_entry_ids`].
pub proof fn lemma_tagged_entry_ids_step(ts: Seq<TripleData>, tag_ids: Seq<Seq<char>>, j: int)
    requires
        0 <= j < ts.len(),
    ensures
        tagged_entry_ids(ts.take(j + 1), tag_ids) == if ts[j].predicate == Predicate::IsTaggedAs
            && tag_ids.contains(ts[j].object) {
            tagged_entry_ids(ts.take(j), tag_ids).push(ts[j].subject)
        } else {
            tagged_entry_ids(ts.take(j), tag_ids)
        },
{
    assert(ts.take(j + 1).drop_last() =~= ts.take(j));
    assert(ts.take(j + 1).last() == ts[j]);
}

/// One step of [`entries_with_ids`].
pub proof fn lemma_entries_with_ids_step(es: Seq<EntryData>, ids: Seq<Seq<char>>, j: int)
    requires
        0 <= j < es.len(),
    ensures
        entries_with_ids(es.take(j + 1), ids) == if ids.contains(es[j].id) {
            entries_with_ids(es.take(j), ids).push(es[j])
        } else {
            entries_with_ids(es.take(j), ids)
        },
{
    assert(es.take(j + 1).drop_last() =~= es.take(j));
    assert(es.take(j + 1).last() == es[j]);
}

/// One step of [`dedup`].
pub proof fn lemma_dedup_step(s: Seq<Seq<char>>, j: int)
    requires
        0 <= j < s.len(),
    ensures
        dedup(s.take(j + 1)) == if dedup(s.take(j)).contains(s[j]) {
            dedup(s.take(j))
        } else {
            dedup(s.take(j)).push(s[j])
        },
{
    assert(s.take(j + 1).drop_last() =~= s.take(j));
    assert(s.take(j + 1).last() == s[j]);
}

/// The derived tag set contains a tag exactly when some stored tagging fact
/// links the entry to it.
pub proof fn lemma_tag_ids_of_contains(ts: Seq<TripleData>, entry_id: Seq<char>, object: Seq<char>)
    ensures
        tag_ids_of(ts, entry_id).contains(object) <==> exists|i: int|
            0 <= i < ts.len() && ts[i] == triple_data(entry_id, object),
    decreases ts.len(),
{
    if ts.len() == 0 {
    } else {
        lemma_tag_ids_of_contains(ts.drop_last(), entry_id, object);
        let rest = tag_ids_of(ts.drop_last(), entry_id);
        let t = ts.last();
        if t.predicate == Predicate::IsTaggedAs && t.subject == entry_id {
            assert(tag_ids_of(ts, entry_id) == rest.push(t.object));
            if rest.contains(object) || t.object == object {
                assert(rest.push(t.object).contains(object)) by {
                    if t.object == object {
                        assert(rest.push(t.object)[rest.len() as int] == object);
                    } else {
                        let k = choose|k: int| 0 <= k < rest.len() && rest[k] == object;
                        assert(rest.push(t.object)[k] == object);
                    }
                }
            }
            if rest.push(t.object).contains(object) {
                let k = choose|k: int|
                    0 <= k < rest.push(t.object).len() && rest.push(t.object)[k] == object;
                if k < rest.len() {
                    assert(rest.contains(object));
                }
            }
            if exists|i: int| 0 <= i < ts.len() && ts[i] == triple_data(entry_id, object) {
                let i = choose|i: int| 0 <= i < ts.len() && ts[i] == triple_data(entry_id, object);
                if i < ts.len() - 1 {
                    assert(ts.drop_last()[i] == triple_data(entry_id, object));
                } else {
                    assert(t == triple_data(entry_id, object));
                }
            }
        } else {
            if exists|i: int| 0 <= i < ts.len() && ts[i] == triple_data(entry_id, object) {
                let i = choose|i: int| 0 <= i < ts.len() && ts[i] == triple_data(entry_id, object);
                assert(i < ts.len() - 1);
                assert(ts.drop_last()[i] == triple_data(entry_id, object));
            }
            if exists|i: int|
                0 <= i < ts.drop_last().len() && ts.drop_last()[i] == triple_data(entry_id, object) {
                let i = choose|i: int|
                    0 <= i < ts.drop_last().len() && ts.drop_last()[i] == triple_data(
                        entry_id,
                        object,
                    );
                assert(ts[i] == triple_data(entry_id, object));
            }
        }
    }
}

/// Counting the tagging facts of a pair after one more fact is stored.
pub proof fn lemma_triple_count_push(
    ts: Seq<TripleData>,
    t: TripleData,
    subject: Seq<char>,
    object: Seq<char>,
)
    ensures
        triple_count(ts.push(t), subject, object) == triple_count(ts, subject, object) + if t
            == triple_data(subject, object) {
            1nat
        } else {
            0nat
        },
{
    assert(ts.push(t).drop_last() =~= ts);
    assert(ts.push(t).last() == t);
}

/// The first stored tag with a matching name is the one resolution returns.
pub proof fn lemma_find_tag_id_first(tags: Seq<TagData>, name: Seq<char>, j: int)
    requires
        0 <= j < tags.len(),
        forall|k: int| 0 <= k < j ==> (#[trigger] tags[k]).name != name,
        tags[j].name == name,
    ensures
        find_tag_id(tags, name) == Some(tags[j].id),
    decreases j,
{
    if j == 0 {
    } else {
        assert(forall|k: int|
            0 <= k < j - 1 ==> (#[trigger] tags.drop_first()[k]).name != name);
        lemma_find_tag_id_first(tags.drop_first(), name, j - 1);
    }
}

/// A name carried by no stored tag resolves to nothing.
pub proof fn lemma_find_tag_id_none(tags: Seq<TagData>, name: Seq<char>)
    requires
        forall|k: int| 0 <= k < tags.len() ==> (#[trigger] tags[k]).name != name,
    ensures
        find_tag_id(tags, name) is None,
    decreases tags.len(),
{
    if tags.len() == 0 {
    } else {
        assert(forall|k: int|
            0 <= k < tags.len() - 1 ==> (#[trigger] tags.drop_first()[k]).name != name);
        lemma_find_tag_id_none(tags.drop_first(), name);
    }
}

/// After a tag carrying a hitherto absent name is appended, that name
/// resolves to the new tag.
pub proof fn lemma_find_tag_id_push(tags: Seq<TagData>, t: TagData, name: Seq<char>)
    requires
        forall|k: int| 0 <= k < tags.len() ==> (#[trigger] tags[k]).name != name,
        t.name == name,
    ensures
        find_tag_id(tags.push(t), name) == Some(t.id),
    decreases tags.len(),
{
    if tags.len() == 0 {
        assert(tags.push(t).first() == t);
    } else {
        assert(tags.push(t).first() == tags.first());
        assert(tags.push(t).drop_first() =~= tags.drop_first().push(t));
        assert(forall|k: int|
            0 <= k < tags.len() - 1 ==> (#[trigger] tags.drop_first()[k]).name != name);
        lemma_find_tag_id_push(tags.drop_first(), t, name);
    }
}

/// With no names given, tag resolution selects nothing.
pub proof fn lemma_matching_tag_ids_no_names(tags: Seq<TagData>)
    ensures
        matching_tag_ids(tags, Seq::empty()) == Seq::<Seq<char>>::empty(),
    decreases tags.len(),
{
    if tags.len() == 0 {
        assert(matching_tag_ids(tags, Seq::empty()) =~= Seq::<Seq<char>>::empty());
    } else {
        lemma_matching_tag_ids_no_names(tags.drop_last());
    }
}

/// With no tag identifiers given, no tagging fact is selected.
pub proof fn lemma_tagged_entry_ids_no_ids(ts: Seq<TripleData>)
    ensures
        tagged_entry_ids(ts, Seq::empty()) == Seq::<Seq<char>>::empty(),
    decreases ts.len(),
{
    if ts.len() == 0 {
        assert(tagged_entry_ids(ts, Seq::empty()) =~= Seq::<Seq<char>>::empty());
    } else {
        lemma_tagged_entry_ids_no_ids(ts.drop_last());
    }
}

/// With no entry identifiers given, no stored entry is selected.
pub proof fn lemma_entries_with_no_ids(es: Seq<EntryData>)
    ensures
        entries_with_ids(es, Seq::empty()) == Seq::<EntryData>::empty(),
    decreases es.len(),
{
    if es.len() == 0 {
        assert(entries_with_ids(es, Seq::empty()) =~= Seq::<EntryData>::empty());
    } else {
        lemma_entries_with_no_ids(es.drop_last());
    }
}

/// A pair with no tagging fact is counted zero, and conversely.
pub proof fn lemma_triple_count_zero(ts: Seq<TripleData>, subject: Seq<char>, object: Seq<char>)
    ensures
        (triple_count(ts, subject, object) == 0) <==> (forall|i: int|
            0 <= i < ts.len() ==> ts[i] != triple_data(subject, object)),
    decreases ts.len(),
{
    if ts.len() == 0 {
    } else {
        lemma_triple_count_zero(ts.drop_last(), subject, object);
        assert(forall|i: int|
            0 <= i < ts.len() - 1 ==> ts.drop_last()[i] == #[trigger] ts[i]);
    }
}

} // verus!
