//! The generic repository abstraction and its in-memory implementation.

use vstd::prelude::*;

use crate::entities::{Category, Entry, SentenceTriple, Tag};
use crate::error::RepoError;

verus! {

broadcast use vstd::string::to_string_from_display_ensures_for_str;

/// The identity under which a repository deduplicates records: a string
/// identifier; a name, for tags, whose name is the lookup key; or, for
/// triples, which have no identifier of their own, the whole
/// subject-predicate-object tuple.
pub enum RecordKey {
    Id { id: Seq<char> },
    Name { name: Seq<char> },
    Fact { subject: Seq<char>, predicate: crate::entities::Predicate, object: Seq<char> },
}

/// A record kind that a repository can store: it exposes a stable string
/// identifier, a deduplication identity, and an owned copy of itself.
pub trait Entity: View + Sized {
    /// The identity under which `create` deduplicates records of this kind.
    spec fn key_of(v: Self::V) -> RecordKey;

    /// The string identifier under which `get` and `update` address records
    /// of this kind.
    spec fn sid_of(v: Self::V) -> Seq<char>;

    /// The record's string identifier.
    fn id(&self) -> (r: &str)
        ensures
            r@ == Self::sid_of(self@),
    ;

    /// Whether the record is addressed by `id`.
    fn has_id(&self, id: &str) -> (r: bool)
        ensures
            r == (Self::sid_of(self@) == id@),
    ;

    /// Whether two records are addressed by the same string identifier.
    fn same_sid(&self, other: &Self) -> (r: bool)
        ensures
            r == (Self::sid_of(self@) == Self::sid_of(other@)),
    ;

    /// Whether two records share their deduplication identity.
    fn same_key(&self, other: &Self) -> (r: bool)
        ensures
            r == (Self::key_of(self@) == Self::key_of(other@)),
    ;

    /// An owned copy with the same mathematical value.
    fn duplicate(&self) -> (r: Self)
        ensures
            r@ == self@,
    ;
}

/// The capability contract through which all higher layers reach durable
/// storage, implementable both by a transactional backing store and by the
/// in-memory [`MockRepo`] with identical observable semantics.
pub trait Repo<T: Entity> {
    /// The current stored collection, as a sequence of record values.
    spec fn repo(&self) -> Seq<T::V>;

    /// Fetch exactly one record by its string identifier.
    fn get(&self, id: &str) -> (r: Result<T, RepoError>)
        ensures
            match r {
                Ok(t) => T::sid_of(t@) == id@ && exists|i: int|
                    0 <= i < self.repo().len() && #[trigger] self.repo()[i] == t@,
                Err(e) => e == RepoError::NotFound && forall|i: int|
                    0 <= i < self.repo().len() ==> T::sid_of(#[trigger] self.repo()[i]) != id@,
            },
    ;

    /// Fetch the full current collection.
    fn all(&self) -> (r: Result<Vec<T>, RepoError>)
        ensures
            match r {
                Ok(v) => v@.len() == self.repo().len() && forall|i: int|
                    0 <= i < v@.len() ==> (#[trigger] v@[i])@ == self.repo()[i],
                Err(_) => false,
            },
    ;

    /// Insert a record; fails if one with the same identity already exists.
    fn create(&mut self, e: &T) -> (r: Result<(), RepoError>)
        ensures
            match r {
                Ok(()) => final(self).repo() == old(self).repo().push(e@) && forall|i: int|
                    0 <= i < old(self).repo().len()
                        ==> T::key_of(#[trigger] old(self).repo()[i]) != T::key_of(e@),
                Err(err) => err == RepoError::AlreadyExists
                    && final(self).repo() == old(self).repo()
                    && exists|i: int|
                        0 <= i < old(self).repo().len()
                            && T::key_of(#[trigger] old(self).repo()[i]) == T::key_of(e@),
            },
    ;

    /// Replace the first stored record that shares the given record's string
    /// identifier; fails if there is none.
    fn update(&mut self, e: &T) -> (r: Result<(), RepoError>)
        ensures
            match r {
                Ok(()) => exists|i: int|
                    0 <= i < old(self).repo().len()
                        && T::sid_of(#[trigger] old(self).repo()[i]) == T::sid_of(e@)
                        && final(self).repo() == old(self).repo().update(i, e@)
                        && (forall|j: int|
                            0 <= j < i ==> T::sid_of(#[trigger] old(self).repo()[j]) != T::sid_of(
                                e@,
                            )),
                Err(err) => err == RepoError::NotFound
                    && final(self).repo() == old(self).repo()
                    && forall|i: int|
                        0 <= i < old(self).repo().len()
                            ==> T::sid_of(#[trigger] old(self).repo()[i]) != T::sid_of(e@),
            },
    ;
}

impl Entity for Entry {
    open spec fn key_of(v: <Entry as View>::V) -> RecordKey {
        RecordKey::Id { id: v.id }
    }

    open spec fn sid_of(v: <Entry as View>::V) -> Seq<char> {
        v.id
    }

    fn id(&self) -> (r: &str)
        ensures
            r@ == Self::sid_of(self@),
    {
        self.id.as_str()
    }

    fn has_id(&self, id: &str) -> (r: bool)
        ensures
            r == (Self::sid_of(self@) == id@),
    {
        let owned: String = id.to_string();
        self.id == owned
    }

    fn same_sid(&self, other: &Self) -> (r: bool)
        ensures
            r == (Self::sid_of(self@) == Self::sid_of(other@)),
    {
        self.id == other.id
    }

    fn same_key(&self, other: &Self) -> (r: bool)
        ensures
            r == (Self::key_of(self@) == Self::key_of(other@)),
    {
        self.id == other.id
    }

    fn duplicate(&self) -> (r: Self)
        ensures
            r@ == self@,
    {
        let r = Entry {
            id: self.id.clone(),
            created: self.created,
            version: self.version,
            title: self.title.clone(),
            description: self.description.clone(),
            lat: self.lat,
            lng: self.lng,
            street: clone_opt_string(&self.street),
            zip: clone_opt_string(&self.zip),
            city: clone_opt_string(&self.city),
            country: clone_opt_string(&self.country),
            email: clone_opt_string(&self.email),
            telephone: clone_opt_string(&self.telephone),
            homepage: clone_opt_string(&self.homepage),
            categories: clone_string_vec(&self.categories),
            tags: clone_string_vec(&self.tags),
            license: clone_opt_string(&self.license),
        };
        assert(r@ =~= self@);
        r
    }
}

impl Entity for Tag {
    /// Tags are created concurrently under a scan-then-create discipline:
    /// deduplicating on the name is what rejects the loser of that race.
    open spec fn key_of(v: <Tag as View>::V) -> RecordKey {
        RecordKey::Name { name: v.name }
    }

    open spec fn sid_of(v: <Tag as View>::V) -> Seq<char> {
        v.id
    }

    fn id(&self) -> (r: &str)
        ensures
            r@ == Self::sid_of(self@),
    {
        self.id.as_str()
    }

    fn has_id(&self, id: &str) -> (r: bool)
        ensures
            r == (Self::sid_of(self@) == id@),
    {
        let owned: String = id.to_string();
        self.id == owned
    }

    fn same_sid(&self, other: &Self) -> (r: bool)
        ensures
            r == (Self::sid_of(self@) == Self::sid_of(other@)),
    {
        self.id == other.id
    }

    fn same_key(&self, other: &Self) -> (r: bool)
        ensures
            r == (Self::key_of(self@) == Self::key_of(other@)),
    {
        self.name == other.name
    }

    fn duplicate(&self) -> (r: Self)
        ensures
            r@ == self@,
    {
        let r = Tag {
            id: self.id.clone(),
            created: self.created,
            version: self.version,
            name: self.name.clone(),
        };
        assert(r@ =~= self@);
        r
    }
}

impl Entity for Category {
    open spec fn key_of(v: <Category as View>::V) -> RecordKey {
        RecordKey::Id { id: v.id }
    }

    open spec fn sid_of(v: <Category as View>::V) -> Seq<char> {
        v.id
    }

    fn id(&self) -> (r: &str)
        ensures
            r@ == Self::sid_of(self@),
    {
        self.id.as_str()
    }

    fn has_id(&self, id: &str) -> (r: bool)
        ensures
            r == (Self::sid_of(self@) == id@),
    {
        let owned: String = id.to_string();
        self.id == owned
    }

    fn same_sid(&self, other: &Self) -> (r: bool)
        ensures
            r == (Self::sid_of(self@) == Self::sid_of(other@)),
    {
        self.id == other.id
    }

    fn same_key(&self, other: &Self) -> (r: bool)
        ensures
            r == (Self::key_of(self@) == Self::key_of(other@)),
    {
        self.id == other.id
    }

    fn duplicate(&self) -> (r: Self)
        ensures
            r@ == self@,
    {
        let r = Category {
            id: self.id.clone(),
            created: self.created,
            version: self.version,
            name: self.name.clone(),
        };
        assert(r@ =~= self@);
        r
    }
}

impl Entity for SentenceTriple {
    open spec fn key_of(v: <SentenceTriple as View>::V) -> RecordKey {
        RecordKey::Fact { subject: v.subject, predicate: v.predicate, object: v.object }
    }

    /// Triples have no identifier of their own.
    open spec fn sid_of(v: <SentenceTriple as View>::V) -> Seq<char> {
        Seq::empty()
    }

    fn id(&self) -> (r: &str)
        ensures
            r@ == Self::sid_of(self@),
    {
        let r = "";
        proof {
            reveal_strlit("");
            assert(r@ =~= Seq::<char>::empty());
        }
        r
    }

    fn has_id(&self, id: &str) -> (r: bool)
        ensures
            r == (Self::sid_of(self@) == id@),
    {
        let n = id.unicode_len();
        proof {
            if id@.len() == 0 {
                assert(id@ =~= Seq::<char>::empty());
            } else {
                assert(id@ != Seq::<char>::empty());
            }
        }
        n == 0
    }

    fn same_sid(&self, other: &Self) -> (r: bool)
        ensures
            r == (Self::sid_of(self@) == Self::sid_of(other@)),
    {
        true
    }

    fn same_key(&self, other: &Self) -> (r: bool)
        ensures
            r == (Self::key_of(self@) == Self::key_of(other@)),
    {
        let same_predicate = match (self.predicate, other.predicate) {
            (
                crate::entities::Predicate::IsTaggedAs,
                crate::entities::Predicate::IsTaggedAs,
            ) => true,
        };
        self.subject == other.subject && same_predicate && self.object == other.object
    }

    fn duplicate(&self) -> (r: Self)
        ensures
            r@ == self@,
    {
        let r = SentenceTriple {
            subject: self.subject.clone(),
            predicate: self.predicate,
            object: self.object.clone(),
        };
        assert(r@ =~= self@);
        r
    }
}

/// An owned copy of an optional string, with the same mathematical value.
fn clone_opt_string(s: &Option<String>) -> (r: Option<String>)
    ensures
        r.deep_view() == s.deep_view(),
{
    match s {
        Some(x) => Some(x.clone()),
        None => None,
    }
}

/// An owned copy of a vector of strings, with the same mathematical value.
fn clone_string_vec(v: &Vec<String>) -> (r: Vec<String>)
    ensures
        r.deep_view() == v.deep_view(),
{
    let mut r: Vec<String> = Vec::new();
    let mut j: usize = 0;
    while j < v.len()
        invariant
            j <= v.len(),
            r@.len() == j,
            forall|k: int| 0 <= k < j ==> #[trigger] r@[k]@ == v@[k]@,
        decreases v.len() - j,
    {
        r.push(v[j].clone());
        j += 1;
    }
    assert(r.deep_view() =~= v.deep_view());
    r
}

/// An in-memory repository: the test stand-in with the same observable
/// semantics as a transactional backing store.
pub struct MockRepo<T> {
    pub objects: Vec<T>,
}

impl<T: Entity> MockRepo<T> {
    /// An empty repository.
    pub fn new() -> (r: MockRepo<T>)
        ensures
            r.repo() == Seq::<T::V>::empty(),
    {
        let r = MockRepo { objects: Vec::new() };
        assert(r.repo() =~= Seq::<T::V>::empty());
        r
    }

    /// Drop every stored record.
    pub fn clear(&mut self)
        ensures
            final(self).repo() == Seq::<T::V>::empty(),
    {
        self.objects = Vec::new();
        assert(self.repo() =~= Seq::<T::V>::empty());
    }
}

impl<T: Entity> Repo<T> for MockRepo<T> {
    open spec fn repo(&self) -> Seq<T::V> {
        self.objects@.map_values(|t: T| t@)
    }

    fn get(&self, id: &str) -> (r: Result<T, RepoError>) {
        let mut j: usize = 0;
        while j < self.objects.len()
            invariant
                j <= self.objects.len(),
                forall|k: int| 0 <= k < j ==> T::sid_of(#[trigger] self.repo()[k]) != id@,
            decreases self.objects.len() - j,
        {
            if self.objects[j].has_id(id) {
                let t = self.objects[j].duplicate();
                assert(self.repo()[j as int] == t@);
                return Ok(t);
            }
            j += 1;
        }
        Err(RepoError::NotFound)
    }

    fn all(&self) -> (r: Result<Vec<T>, RepoError>) {
        let mut v: Vec<T> = Vec::new();
        let mut j: usize = 0;
        while j < self.objects.len()
            invariant
                j <= self.objects.len(),
                v@.len() == j,
                forall|k: int| 0 <= k < j ==> (#[trigger] v@[k])@ == self.repo()[k],
            decreases self.objects.len() - j,
        {
            v.push(self.objects[j].duplicate());
            j += 1;
        }
        Ok(v)
    }

    fn create(&mut self, e: &T) -> (r: Result<(), RepoError>) {
        let mut j: usize = 0;
        while j < self.objects.len()
            invariant
                j <= self.objects.len(),
                self.objects@ == old(self).objects@,
                forall|k: int|
                    0 <= k < j ==> T::key_of(#[trigger] old(self).repo()[k]) != T::key_of(e@),
            decreases self.objects.len() - j,
        {
            if self.objects[j].same_key(e) {
                proof {
                    assert(old(self).repo()[j as int] == self.objects@[j as int]@);
                }
                return Err(RepoError::AlreadyExists);
            }
            proof {
                assert(old(self).repo()[j as int] == self.objects@[j as int]@);
            }
            j += 1;
        }
        self.objects.push(e.duplicate());
        assert(self.repo() =~= old(self).repo().push(e@));
        Ok(())
    }

    fn update(&mut self, e: &T) -> (r: Result<(), RepoError>) {
        let mut j: usize = 0;
        while j < self.objects.len()
            invariant
                j <= self.objects.len(),
                self.objects@ == old(self).objects@,
                forall|k: int|
                    0 <= k < j ==> T::sid_of(#[trigger] old(self).repo()[k]) != T::sid_of(e@),
            decreases self.objects.len() - j,
        {
            if self.objects[j].same_sid(e) {
                proof {
                    assert(old(self).repo()[j as int] == self.objects@[j as int]@);
                }
                self.objects[j] = e.duplicate();
                assert(self.repo() =~= old(self).repo().update(j as int, e@));
                return Ok(());
            }
            proof {
                assert(old(self).repo()[j as int] == self.objects@[j as int]@);
            }
            j += 1;
        }
        Err(RepoError::NotFound)
    }
}

} // verus!
