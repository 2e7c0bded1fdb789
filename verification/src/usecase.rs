//! The use cases of the collection: requesting entries, tag association,
//! tag resolution, multi-tag search, and version-checked creation and
//! update of records.

use vstd::prelude::*;

use crate::entities::{
    Entry, EntryData, NewEntry, NewTag, Predicate, SentenceTriple, Tag, TagData, TripleData,
    UpdateEntry, UpdateEntryData,
};
use crate::error::{Error, ParameterError, RepoError};
use crate::gateways;
use crate::model::{
    dedup, entries_with_ids, entry_with_tags, find_tag_id, lemma_dedup_step,
    lemma_entries_with_ids_step, lemma_entries_with_no_ids, lemma_find_tag_id_first,
    lemma_find_tag_id_none, lemma_find_tag_id_push, lemma_matching_tag_ids_no_names,
    lemma_matching_tag_ids_step, lemma_tag_ids_of_contains, lemma_tag_ids_of_step,
    lemma_tag_names_of_step, lemma_tagged_entry_ids_no_ids, lemma_tagged_entry_ids_step,
    matching_tag_ids, new_entry_record, tag_ids_of, tag_names_of, tag_record, tagged_entry_ids,
    triple_data, updated_entry_record,
};
use crate::repo::{Entity, Repo};
use crate::validate::email_ok;

verus! {

broadcast use vstd::string::to_string_from_display_ensures_for_str;

/// Whether no two stored entries share an identifier.
pub open spec fn unique_entry_ids(es: Seq<EntryData>) -> bool {
    forall|i: int, j: int| 0 <= i < j < es.len() ==> (#[trigger] es[i]).id != (#[trigger] es[j]).id
}

/// Whether a "new entry" request passes validation: a contact email
/// address, when present, must be syntactically valid.
pub open spec fn new_entry_valid(e: crate::entities::NewEntryData) -> bool {
    e.email is Some ==> email_ok(e.email->Some_0)
}

/// How resolve-or-create may change the tag store: a stored tag already
/// carried the name, or exactly one fresh tag carrying it was appended.
pub open spec fn resolve_tag_post(rt0: Seq<TagData>, rt1: Seq<TagData>, name: Seq<char>) -> bool {
    if find_tag_id(rt0, name) is Some {
        rt1 == rt0
    } else {
        exists|t: TagData|
            rt1 == rt0.push(t) && t.name == name && t.version == 0
    }
}

/// What associating a tag name with an entry does to the tag and triple
/// stores: an empty name is rejected before any mutation; otherwise the name
/// is resolved or lazily created, and one tagging fact is stored unless the
/// entry already carries the tag.
pub open spec fn add_tag_post(
    rt0: Seq<TagData>,
    rs0: Seq<TripleData>,
    rt1: Seq<TagData>,
    rs1: Seq<TripleData>,
    tag: Seq<char>,
    entry_id: Seq<char>,
    r: Result<(), Error>,
) -> bool {
    if tag.len() == 0 {
        r == Err::<(), Error>(Error::Parameter(ParameterError::Tag)) && rt1 == rt0 && rs1 == rs0
    } else {
        r == Ok::<(), Error>(()) && resolve_tag_post(rt0, rt1, tag) && find_tag_id(rt1, tag)
            is Some && {
            let tid = find_tag_id(rt1, tag)->Some_0;
            if tag_ids_of(rs0, entry_id).contains(tid) {
                rs1 == rs0
            } else {
                rs1 == rs0.push(triple_data(entry_id, tid))
            }
        }
    }
}

/// What a version-checked update does to the entry store: an absent
/// identifier or a version conflict is rejected with the store unchanged;
/// otherwise the matching record alone is replaced by
/// [`updated_entry_record`].
pub open spec fn update_entry_post(
    es0: Seq<EntryData>,
    es1: Seq<EntryData>,
    u: UpdateEntryData,
    created: u64,
    r: Result<EntryData, Error>,
) -> bool {
    match r {
        Ok(rec) => exists|i: int|
            #![auto]
            0 <= i < es0.len() && es0[i].id == u.id && es0[i].version == u.version && rec
                == updated_entry_record(es0[i], u, created) && es1 == es0.update(i, rec),
        Err(e) => es1 == es0 && ((e == Error::Repo(RepoError::NotFound) && (forall|i: int|
            #![auto]
            0 <= i < es0.len() ==> es0[i].id != u.id)) || (e == Error::Repo(
            RepoError::InvalidVersion,
        ) && exists|i: int|
            #![auto]
            0 <= i < es0.len() && es0[i].id == u.id && es0[i].version != u.version)),
    }
}

/// Whether the strings of `v` include `s`.
fn vec_contains_string(v: &Vec<String>, s: &String) -> (r: bool)
    ensures
        r == v.deep_view().contains(s@),
{
    let mut j: usize = 0;
    while j < v.len()
        invariant
            j <= v.len(),
            forall|k: int| 0 <= k < j ==> v.deep_view()[k] != s@,
        decreases v.len() - j,
    {
        if v[j] == *s {
            assert(v.deep_view()[j as int] == s@);
            return true;
        }
        j += 1;
    }
    assert(!v.deep_view().contains(s@));
    false
}

/// Fetch an entry together with its derived tag set: the record exactly as
/// stored — the version moves only on a successful update — with its tags
/// computed from the current triples.
pub fn request_entry<RE: Repo<Entry>, RT: Repo<Tag>, RS: Repo<SentenceTriple>>(
    re: &RE,
    rt: &RT,
    rs: &RS,
    id: &str,
) -> (r: Result<Entry, Error>)
    ensures
        match r {
            Ok(e) => exists|i: int|
                #![auto]
                0 <= i < re.repo().len() && re.repo()[i].id == id@ && e@ == entry_with_tags(
                    re.repo()[i],
                    tag_ids_of(rs.repo(), id@),
                ),
            Err(err) => err == Error::Repo(RepoError::NotFound) && forall|i: int|
                #![auto]
                0 <= i < re.repo().len() ==> re.repo()[i].id != id@,
        },
{
    match re.get(id) {
        Ok(e) => {
            let tags = match get_tags_for_entry_id(rt, rs, id) {
                Ok(t) => t,
                Err(err) => {
                    return Err(err);
                },
            };
            let entry_with = Entry {
                id: e.id,
                created: e.created,
                version: e.version,
                title: e.title,
                description: e.description,
                lat: e.lat,
                lng: e.lng,
                street: e.street,
                zip: e.zip,
                city: e.city,
                country: e.country,
                email: e.email,
                telephone: e.telephone,
                homepage: e.homepage,
                categories: e.categories,
                tags,
                license: e.license,
            };
            proof {
                let i = choose|i: int| 0 <= i < re.repo().len() && #[trigger] re.repo()[i] == e@;
                assert(entry_with@ =~= entry_with_tags(re.repo()[i], tag_ids_of(rs.repo(), id@)));
            }
            Ok(entry_with)
        },
        Err(err) => Err(Error::Repo(err)),
    }
}

/// The identifiers of the tags an entry currently carries, derived from the
/// stored tagging facts at query time.
pub fn get_tags_for_entry_id<RT: Repo<Tag>, RS: Repo<SentenceTriple>>(
    rt: &RT,
    rs: &RS,
    id: &str,
) -> (r: Result<Vec<String>, Error>)
    ensures
        match r {
            Ok(v) => v.deep_view() == tag_ids_of(rs.repo(), id@),
            Err(_) => false,
        },
{
    let triples = match rs.all() {
        Ok(ts) => ts,
        Err(err) => {
            return Err(Error::Repo(err));
        },
    };
    let target: String = id.to_string();
    let mut out: Vec<String> = Vec::new();
    let mut j: usize = 0;
    while j < triples.len()
        invariant
            j <= triples.len(),
            target@ == id@,
            triples@.len() == rs.repo().len(),
            forall|i: int| 0 <= i < triples@.len() ==> (#[trigger] triples@[i])@ == rs.repo()[i],
            out.deep_view() == tag_ids_of(rs.repo().take(j as int), id@),
        decreases triples.len() - j,
    {
        proof {
            lemma_tag_ids_of_step(rs.repo(), id@, j as int);
        }
        let t = &triples[j];
        if t.predicate == Predicate::IsTaggedAs && t.subject == target {
            out.push(t.object.clone());
        }
        j += 1;
        proof {
            assert(out.deep_view() =~= tag_ids_of(rs.repo().take(j as int), id@));
        }
    }
    proof {
        assert(rs.repo().take(triples@.len() as int) =~= rs.repo());
    }
    Ok(out)
}

/// The names of the stored tags carrying the given identifier.
pub fn get_tag_names_from_ids<RT: Repo<Tag>>(rt: RT, id: &str) -> (r: Result<Vec<String>, Error>)
    ensures
        match r {
            Ok(v) => v.deep_view() == tag_names_of(rt.repo(), id@),
            Err(_) => false,
        },
{
    let tags = match rt.all() {
        Ok(ts) => ts,
        Err(err) => {
            return Err(Error::Repo(err));
        },
    };
    let target: String = id.to_string();
    let mut out: Vec<String> = Vec::new();
    let mut j: usize = 0;
    while j < tags.len()
        invariant
            j <= tags.len(),
            target@ == id@,
            tags@.len() == rt.repo().len(),
            forall|i: int| 0 <= i < tags@.len() ==> (#[trigger] tags@[i])@ == rt.repo()[i],
            out.deep_view() == tag_names_of(rt.repo().take(j as int), id@),
        decreases tags.len() - j,
    {
        proof {
            lemma_tag_names_of_step(rt.repo(), id@, j as int);
        }
        let t = &tags[j];
        if t.id == target {
            out.push(t.name.clone());
        }
        j += 1;
        proof {
            assert(out.deep_view() =~= tag_names_of(rt.repo().take(j as int), id@));
        }
    }
    proof {
        assert(rt.repo().take(tags@.len() as int) =~= rt.repo());
    }
    Ok(out)
}

/// Associate a tag name with an entry: an empty name is a parameter error;
/// the name is resolved or lazily created; the association is idempotent.
pub fn add_tag_to_entry<RE: Repo<Entry>, RT: Repo<Tag>, RS: Repo<SentenceTriple>>(
    re: &RE,
    rt: &mut RT,
    rs: &mut RS,
    tag: &str,
    entry_id: &str,
) -> (r: Result<(), Error>)
    ensures
        add_tag_post(
            old(rt).repo(),
            old(rs).repo(),
            final(rt).repo(),
            final(rs).repo(),
            tag@,
            entry_id@,
            r,
        ),
{
    if tag.unicode_len() == 0 {
        return Err(Error::Parameter(ParameterError::Tag));
    }
    let tag_id_res = find_or_create_tag_id_by_name(rt, tag);
    let tag_ids_of_entry = match get_tags_for_entry_id(&*rt, &*rs, entry_id) {
        Ok(v) => v,
        Err(err) => {
            return Err(err);
        },
    };
    match tag_id_res {
        Ok(tag_id) => {
            if vec_contains_string(&tag_ids_of_entry, &tag_id) {
                Ok(())
            } else {
                proof {
                    lemma_tag_ids_of_contains(rs.repo(), entry_id@, tag_id@);
                }
                add_is_tagged_relation(rs, entry_id, tag_id.as_str());
                Ok(())
            }
        },
        Err(err) => Err(err),
    }
}

/// Resolve a tag name to its identifier, creating the tag when the name is
/// not yet stored. A creation racing against another writer is rejected by
/// the repository's name-keyed insert and absorbed here, never surfaced.
pub fn find_or_create_tag_id_by_name<RT: Repo<Tag>>(rt: &mut RT, tag: &str) -> (r: Result<
    String,
    Error,
>)
    ensures
        match r {
            Ok(id) => resolve_tag_post(old(rt).repo(), final(rt).repo(), tag@) && find_tag_id(
                final(rt).repo(),
                tag@,
            ) == Some(id@),
            Err(_) => false,
        },
{
    let name: String = tag.to_string();
    let tags = match rt.all() {
        Ok(ts) => ts,
        Err(err) => {
            return Err(Error::Repo(err));
        },
    };
    let mut j: usize = 0;
    while j < tags.len()
        invariant
            j <= tags.len(),
            name@ == tag@,
            tags@.len() == rt.repo().len(),
            forall|i: int| 0 <= i < tags@.len() ==> (#[trigger] tags@[i])@ == rt.repo()[i],
            forall|k: int| 0 <= k < j ==> (#[trigger] rt.repo()[k]).name != name@,
            rt.repo() == old(rt).repo(),
        decreases tags.len() - j,
    {
        if tags[j].name == name {
            proof {
                lemma_find_tag_id_first(rt.repo(), tag@, j as int);
            }
            return Ok(tags[j].id.clone());
        }
        j += 1;
    }
    proof {
        lemma_find_tag_id_none(rt.repo(), tag@);
    }
    let ghost rt_pre = rt.repo();
    match create_new_tag(rt, NewTag { name: tag.to_string() }) {
        Ok(id) => {
            proof {
                let created = choose|c: u64|
                    rt.repo() == rt_pre.push(tag_record(tag@, id@, c));
                let t = tag_record(tag@, id@, created);
                assert(rt.repo() == rt_pre.push(t) && t.name == tag@ && t.version == 0);
                lemma_find_tag_id_push(rt_pre, t, tag@);
            }
            Ok(id)
        },
        Err(err) => {
            // the scan found no such name, so the name-keyed insert cannot
            // have been rejected
            proof {
                let i = choose|i: int|
                    0 <= i < rt_pre.len() && (#[trigger] rt_pre[i]).name == tag@;
                assert(false);
            }
            Err(err)
        },
    }
}

/// Store the tagging fact linking an entry to a tag; a fact already stored
/// is left as it is, the tuple being its identity.
pub fn add_is_tagged_relation<RS: Repo<SentenceTriple>>(rs: &mut RS, entry_id: &str, tag_id: &str)
    ensures
        (exists|i: int|
            0 <= i < old(rs).repo().len() && #[trigger] old(rs).repo()[i] == triple_data(
                entry_id@,
                tag_id@,
            )) ==> final(rs).repo() == old(rs).repo(),
        !(exists|i: int|
            0 <= i < old(rs).repo().len() && #[trigger] old(rs).repo()[i] == triple_data(
                entry_id@,
                tag_id@,
            )) ==> final(rs).repo() == old(rs).repo().push(triple_data(entry_id@, tag_id@)),
{
    let triple = SentenceTriple {
        subject: entry_id.to_string(),
        predicate: Predicate::IsTaggedAs,
        object: tag_id.to_string(),
    };
    proof {
        assert(triple@ =~= triple_data(entry_id@, tag_id@));
    }
    match rs.create(&triple) {
        Ok(()) => {
            proof {
                assert forall|i: int|
                    0 <= i < old(rs).repo().len() implies #[trigger] old(rs).repo()[i]
                    != triple_data(entry_id@, tag_id@) by {
                    assert(SentenceTriple::key_of(old(rs).repo()[i]) != SentenceTriple::key_of(
                        triple@,
                    ));
                }
            }
        },
        Err(_) => {
            proof {
                let i = choose|i: int|
                    0 <= i < old(rs).repo().len() && SentenceTriple::key_of(
                        #[trigger] old(rs).repo()[i],
                    ) == SentenceTriple::key_of(triple@);
                assert(old(rs).repo()[i] =~= triple_data(entry_id@, tag_id@));
            }
        },
    }
}

/// Multi-tag search: resolve the given tag names, collect the distinct
/// entries carrying any of them, and fetch those entries. Unmatched names
/// contribute nothing, and no names select nothing.
pub fn search_by_tags<RE: Repo<Entry>, RT: Repo<Tag>, RS: Repo<SentenceTriple>>(
    re: &RE,
    rt: &mut RT,
    rs: &RS,
    tags: &Vec<String>,
) -> (r: Result<Vec<Entry>, Error>)
    ensures
        final(rt).repo() == old(rt).repo(),
        match r {
            Ok(v) => v.deep_view() == entries_with_ids(
                re.repo(),
                dedup(
                    tagged_entry_ids(
                        rs.repo(),
                        matching_tag_ids(old(rt).repo(), tags.deep_view()),
                    ),
                ),
            ),
            Err(_) => false,
        },
        tags@.len() == 0 ==> match r {
            Ok(v) => v.deep_view() == Seq::<EntryData>::empty(),
            Err(_) => false,
        },
{
    proof {
        if tags@.len() == 0 {
            assert(tags.deep_view() =~= Seq::<Seq<char>>::empty());
            lemma_matching_tag_ids_no_names(rt.repo());
            lemma_tagged_entry_ids_no_ids(rs.repo());
            lemma_entries_with_no_ids(re.repo());
        }
    }
    let tag_ids = match get_tag_ids_by_tags(&*rt, tags) {
        Ok(v) => v,
        Err(err) => {
            return Err(err);
        },
    };
    let ids = match get_associated_entry_ids_of_tags(rs, &tag_ids) {
        Ok(v) => v,
        Err(err) => {
            return Err(err);
        },
    };
    let entries = match get_entries_by_ids(re, &ids) {
        Ok(v) => v,
        Err(err) => {
            return Err(err);
        },
    };
    Ok(entries)
}

/// The identifiers of the stored tags whose name occurs in `tag_names`.
pub fn get_tag_ids_by_tags<RT: Repo<Tag>>(rt: &RT, tag_names: &Vec<String>) -> (r: Result<
    Vec<String>,
    Error,
>)
    ensures
        match r {
            Ok(v) => v.deep_view() == matching_tag_ids(rt.repo(), tag_names.deep_view()),
            Err(_) => false,
        },
{
    let tags = match rt.all() {
        Ok(ts) => ts,
        Err(err) => {
            return Err(Error::Repo(err));
        },
    };
    let mut out: Vec<String> = Vec::new();
    let mut j: usize = 0;
    while j < tags.len()
        invariant
            j <= tags.len(),
            tags@.len() == rt.repo().len(),
            forall|i: int| 0 <= i < tags@.len() ==> (#[trigger] tags@[i])@ == rt.repo()[i],
            out.deep_view() == matching_tag_ids(rt.repo().take(j as int), tag_names.deep_view()),
        decreases tags.len() - j,
    {
        proof {
            lemma_matching_tag_ids_step(rt.repo(), tag_names.deep_view(), j as int);
        }
        let t = &tags[j];
        if vec_contains_string(tag_names, &t.name) {
            out.push(t.id.clone());
        }
        j += 1;
        proof {
            assert(out.deep_view() =~= matching_tag_ids(
                rt.repo().take(j as int),
                tag_names.deep_view(),
            ));
        }
    }
    proof {
        assert(rt.repo().take(tags@.len() as int) =~= rt.repo());
    }
    Ok(out)
}

/// The distinct identifiers of the entries linked to any of the given tags.
pub fn get_associated_entry_ids_of_tags<RS: Repo<SentenceTriple>>(
    rs: &RS,
    tag_ids: &Vec<String>,
) -> (r: Result<Vec<String>, Error>)
    ensures
        match r {
            Ok(v) => v.deep_view() == dedup(tagged_entry_ids(rs.repo(), tag_ids.deep_view())),
            Err(_) => false,
        },
{
    let triples = match rs.all() {
        Ok(ts) => ts,
        Err(err) => {
            return Err(Error::Repo(err));
        },
    };
    let mut subjects: Vec<String> = Vec::new();
    let mut j: usize = 0;
    while j < triples.len()
        invariant
            j <= triples.len(),
            triples@.len() == rs.repo().len(),
            forall|i: int| 0 <= i < triples@.len() ==> (#[trigger] triples@[i])@ == rs.repo()[i],
            subjects.deep_view() == tagged_entry_ids(
                rs.repo().take(j as int),
                tag_ids.deep_view(),
            ),
        decreases triples.len() - j,
    {
        proof {
            lemma_tagged_entry_ids_step(rs.repo(), tag_ids.deep_view(), j as int);
        }
        let t = &triples[j];
        if t.predicate == Predicate::IsTaggedAs && vec_contains_string(tag_ids, &t.object) {
            subjects.push(t.subject.clone());
        }
        j += 1;
        proof {
            assert(subjects.deep_view() =~= tagged_entry_ids(
                rs.repo().take(j as int),
                tag_ids.deep_view(),
            ));
        }
    }
    proof {
        assert(rs.repo().take(triples@.len() as int) =~= rs.repo());
    }
    let mut ids: Vec<String> = Vec::new();
    let mut k: usize = 0;
    while k < subjects.len()
        invariant
            k <= subjects.len(),
            ids.deep_view() == dedup(subjects.deep_view().take(k as int)),
        decreases subjects.len() - k,
    {
        proof {
            lemma_dedup_step(subjects.deep_view(), k as int);
        }
        if !vec_contains_string(&ids, &subjects[k]) {
            ids.push(subjects[k].clone());
        }
        k += 1;
        proof {
            assert(ids.deep_view() =~= dedup(subjects.deep_view().take(k as int)));
        }
    }
    proof {
        assert(subjects.deep_view().take(subjects@.len() as int) =~= subjects.deep_view());
    }
    Ok(ids)
}

/// The stored entries whose identifier occurs in `ids`.
pub fn get_entries_by_ids<RE: Repo<Entry>>(re: &RE, ids: &Vec<String>) -> (r: Result<
    Vec<Entry>,
    Error,
>)
    ensures
        match r {
            Ok(v) => v.deep_view() == entries_with_ids(re.repo(), ids.deep_view()),
            Err(_) => false,
        },
{
    let entries = match re.all() {
        Ok(es) => es,
        Err(err) => {
            return Err(Error::Repo(err));
        },
    };
    let mut out: Vec<Entry> = Vec::new();
    let mut j: usize = 0;
    while j < entries.len()
        invariant
            j <= entries.len(),
            entries@.len() == re.repo().len(),
            forall|i: int| 0 <= i < entries@.len() ==> (#[trigger] entries@[i])@ == re.repo()[i],
            out.deep_view() == entries_with_ids(re.repo().take(j as int), ids.deep_view()),
        decreases entries.len() - j,
    {
        proof {
            lemma_entries_with_ids_step(re.repo(), ids.deep_view(), j as int);
        }
        let e = &entries[j];
        if vec_contains_string(ids, &e.id) {
            out.push(e.duplicate());
        }
        j += 1;
        proof {
            assert(out.deep_view() =~= entries_with_ids(
                re.repo().take(j as int),
                ids.deep_view(),
            ));
        }
    }
    proof {
        assert(re.repo().take(entries@.len() as int) =~= re.repo());
    }
    Ok(out)
}

/// Store a new entry under the given identifier and timestamp: validation
/// fails before any write, and an identifier collision is rejected by the
/// repository.
pub fn store_new_entry<R: Repo<Entry>>(r: &mut R, e: NewEntry, id: String, created: u64) -> (res:
    Result<String, Error>)
    ensures
        match res {
            Ok(rid) => rid@ == id@ && new_entry_valid(e@) && final(r).repo() == old(
                r,
            ).repo().push(new_entry_record(e@, id@, created)) && (forall|i: int|
                0 <= i < old(r).repo().len() ==> (#[trigger] old(r).repo()[i]).id != id@),
            Err(err) => final(r).repo() == old(r).repo() && ((err == Error::Parameter(
                ParameterError::Email,
            ) && !new_entry_valid(e@)) || (err == Error::Repo(RepoError::AlreadyExists)
                && new_entry_valid(e@) && exists|i: int|
                0 <= i < old(r).repo().len() && (#[trigger] old(r).repo()[i]).id == id@)),
        },
{
    let record = Entry {
        id,
        created,
        version: 0,
        title: e.title,
        description: e.description,
        lat: e.lat,
        lng: e.lng,
        street: e.street,
        zip: e.zip,
        city: e.city,
        country: e.country,
        email: e.email,
        telephone: e.telephone,
        homepage: e.homepage,
        categories: e.categories,
        tags: e.tags,
        license: Some(e.license),
    };
    proof {
        assert(record@ =~= new_entry_record(e@, record.id@, created));
    }
    match record.validate() {
        Ok(()) => {},
        Err(pe) => {
            return Err(Error::Parameter(pe));
        },
    }
    match r.create(&record) {
        Ok(()) => {
            proof {
                assert forall|i: int|
                    0 <= i < old(r).repo().len() implies (#[trigger] old(r).repo()[i]).id
                    != record@.id by {
                    assert(Entry::key_of(old(r).repo()[i]) != Entry::key_of(record@));
                }
            }
            Ok(record.id)
        },
        Err(err) => {
            proof {
                let i = choose|i: int|
                    0 <= i < old(r).repo().len() && Entry::key_of(#[trigger] old(r).repo()[i])
                        == Entry::key_of(record@);
                assert(old(r).repo()[i].id == record@.id);
            }
            Err(Error::Repo(err))
        },
    }
}

/// Create a new entry: a fresh random identifier, the current time,
/// version 0, validation ahead of any write.
pub fn create_new_entry<R: Repo<Entry>>(r: &mut R, e: NewEntry) -> (res: Result<String, Error>)
    ensures
        match res {
            Ok(id) => new_entry_valid(e@) && (exists|created: u64|
                final(r).repo() == old(r).repo().push(
                    #[trigger] new_entry_record(e@, id@, created),
                )) && (forall|i: int|
                0 <= i < old(r).repo().len() ==> (#[trigger] old(r).repo()[i]).id != id@),
            Err(err) => final(r).repo() == old(r).repo() && ((err == Error::Parameter(
                ParameterError::Email,
            ) && !new_entry_valid(e@)) || (err == Error::Repo(RepoError::AlreadyExists)
                && new_entry_valid(e@) && exists|i: int|
                0 <= i < old(r).repo().len() && (#[trigger] old(r).repo()[i]).id.len() == 32)),
        },
{
    let id = gateways::new_id();
    let created = gateways::now_timestamp();
    let res = store_new_entry(r, e, id, created);
    proof {
        // a rejected insert means the drawn identifier — 32 characters —
        // collides with a stored one, which is impossible on an empty store
        if res == Err::<String, Error>(Error::Repo(RepoError::AlreadyExists)) {
            let i = choose|i: int|
                0 <= i < old(r).repo().len() && (#[trigger] old(r).repo()[i]).id == id@;
            assert(old(r).repo()[i].id.len() == 32);
        }
    }
    res
}

/// Store a new tag under the given identifier and timestamp; a stored tag
/// already carrying the name is rejected by the repository's name-keyed
/// insert.
pub fn store_new_tag<RT: Repo<Tag>>(rt: &mut RT, t: NewTag, id: String, created: u64) -> (res:
    Result<String, Error>)
    ensures
        match res {
            Ok(rid) => rid@ == id@ && final(rt).repo() == old(rt).repo().push(
                tag_record(t@, id@, created),
            ) && (forall|i: int|
                0 <= i < old(rt).repo().len() ==> (#[trigger] old(rt).repo()[i]).name != t@),
            Err(err) => err == Error::Repo(RepoError::AlreadyExists) && final(rt).repo() == old(
                rt,
            ).repo() && (exists|i: int|
                0 <= i < old(rt).repo().len() && (#[trigger] old(rt).repo()[i]).name == t@),
        },
{
    let record = Tag { id, created, version: 0, name: t.name };
    proof {
        assert(record@ =~= tag_record(t@, record.id@, created));
    }
    match rt.create(&record) {
        Ok(()) => {
            proof {
                assert forall|i: int|
                    0 <= i < old(rt).repo().len() implies (#[trigger] old(rt).repo()[i]).name
                    != t@ by {
                    assert(Tag::key_of(old(rt).repo()[i]) != Tag::key_of(record@));
                }
            }
            Ok(record.id)
        },
        Err(err) => {
            proof {
                let i = choose|i: int|
                    0 <= i < old(rt).repo().len() && Tag::key_of(#[trigger] old(rt).repo()[i])
                        == Tag::key_of(record@);
                assert(old(rt).repo()[i].name == t@);
            }
            Err(Error::Repo(err))
        },
    }
}

/// Create a new tag: a fresh random identifier, the current time, version 0.
pub fn create_new_tag<R: Repo<Tag>>(r: &mut R, t: NewTag) -> (res: Result<String, Error>)
    ensures
        match res {
            Ok(id) => (exists|created: u64|
                final(r).repo() == old(r).repo().push(#[trigger] tag_record(t@, id@, created)))
                && (forall|i: int|
                0 <= i < old(r).repo().len() ==> (#[trigger] old(r).repo()[i]).name != t@),
            Err(err) => err == Error::Repo(RepoError::AlreadyExists) && final(r).repo() == old(
                r,
            ).repo() && (exists|i: int|
                0 <= i < old(r).repo().len() && (#[trigger] old(r).repo()[i]).name == t@),
        },
{
    let id = gateways::new_id();
    let created = gateways::now_timestamp();
    store_new_tag(r, t, id, created)
}

/// Store a version-checked update under the given timestamp: the request
/// must carry the version the caller read, or the store is left unchanged
/// and the conflict reported.
pub fn store_updated_entry<R: Repo<Entry>>(r: &mut R, e: UpdateEntry, created: u64) -> (res:
    Result<Entry, Error>)
    requires
        unique_entry_ids(old(r).repo()),
        e@.version < u64::MAX,
    ensures
        match res {
            Ok(entry) => update_entry_post(
                old(r).repo(),
                final(r).repo(),
                e@,
                created,
                Ok(entry@),
            ),
            Err(err) => update_entry_post(old(r).repo(), final(r).repo(), e@, created, Err(err)),
        },
{
    let prior = match r.get(e.id.as_str()) {
        Ok(x) => x,
        Err(err) => {
            return Err(Error::Repo(err));
        },
    };
    if prior.version != e.version {
        proof {
            let i = choose|i: int| 0 <= i < r.repo().len() && #[trigger] r.repo()[i] == prior@;
            assert(r.repo()[i].id == e@.id && r.repo()[i].version != e@.version);
        }
        return Err(Error::Repo(RepoError::InvalidVersion));
    }
    let ghost es0 = r.repo();
    let record = Entry {
        id: e.id,
        created,
        version: e.version + 1,
        title: e.title,
        description: e.description,
        lat: e.lat,
        lng: e.lng,
        street: e.street,
        zip: e.zip,
        city: e.city,
        country: e.country,
        email: e.email,
        telephone: e.telephone,
        homepage: e.homepage,
        categories: e.categories,
        tags: e.tags,
        license: prior.license,
    };
    proof {
        let i0 = choose|i: int| 0 <= i < es0.len() && #[trigger] es0[i] == prior@;
        assert(record@ =~= updated_entry_record(es0[i0], e@, created));
    }
    match r.update(&record) {
        Ok(()) => {
            proof {
                let i = choose|i: int|
                    0 <= i < es0.len() && Entry::sid_of(#[trigger] es0[i]) == Entry::sid_of(
                        record@,
                    ) && r.repo() == es0.update(i, record@);
                let i0 = choose|i: int| 0 <= i < es0.len() && #[trigger] es0[i] == prior@;
                assert(es0[i].id == es0[i0].id);
                assert(i == i0);
            }
            Ok(record)
        },
        Err(err) => {
            proof {
                let i0 = choose|i: int| 0 <= i < es0.len() && #[trigger] es0[i] == prior@;
                assert(Entry::sid_of(es0[i0]) == Entry::sid_of(record@));
                assert(false);
            }
            Err(Error::Repo(err))
        },
    }
}

/// Update an entry under optimistic concurrency: fetch the stored record,
/// reject a version conflict, otherwise store the new record with the
/// version incremented by exactly 1 and the server-owned license preserved.
pub fn update_entry<R: Repo<Entry>>(r: &mut R, e: UpdateEntry) -> (res: Result<(), Error>)
    requires
        unique_entry_ids(old(r).repo()),
        e@.version < u64::MAX,
    ensures
        match res {
            Ok(()) => exists|created: u64, rec: EntryData|
                #![auto]
                update_entry_post(old(r).repo(), final(r).repo(), e@, created, Ok(rec)),
            Err(err) => update_entry_post(old(r).repo(), final(r).repo(), e@, 0, Err(err)),
        },
{
    let created = gateways::now_timestamp();
    match store_updated_entry(r, e, created) {
        Ok(_entry) => Ok(()),
        Err(err) => Err(err),
    }
}

} // verus!
