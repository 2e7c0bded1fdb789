//! The record types of the collection and their mathematical values.

use vstd::prelude::*;

verus! {

/// The relation kinds a stored fact can express; only tagging is active.
#[derive(Clone, Copy, PartialEq, Eq, Structural, Debug)]
pub enum Predicate {
    IsTaggedAs,
}

/// A mutable, versioned record. The identifier is assigned at creation and
/// never changes afterwards; `version` counts successful updates.
/// Geocoordinates are kept as fixed-point numbers of degrees.
pub struct Entry {
    pub id: String,
    pub created: u64,
    pub version: u64,
    pub title: String,
    pub description: String,
    pub lat: i64,
    pub lng: i64,
    pub street: Option<String>,
    pub zip: Option<String>,
    pub city: Option<String>,
    pub country: Option<String>,
    pub email: Option<String>,
    pub telephone: Option<String>,
    pub homepage: Option<String>,
    pub categories: Vec<String>,
    pub tags: Vec<String>,
    pub license: Option<String>,
}

/// The mathematical value of an [`Entry`].
#[verifier::ext_equal]
pub struct EntryData {
    pub id: Seq<char>,
    pub created: u64,
    pub version: u64,
    pub title: Seq<char>,
    pub description: Seq<char>,
    pub lat: i64,
    pub lng: i64,
    pub street: Option<Seq<char>>,
    pub zip: Option<Seq<char>>,
    pub city: Option<Seq<char>>,
    pub country: Option<Seq<char>>,
    pub email: Option<Seq<char>>,
    pub telephone: Option<Seq<char>>,
    pub homepage: Option<Seq<char>>,
    pub categories: Seq<Seq<char>>,
    pub tags: Seq<Seq<char>>,
    pub license: Option<Seq<char>>,
}

impl View for Entry {
    type V = EntryData;

    open spec fn view(&self) -> EntryData {
        EntryData {
            id: self.id.view(),
            created: self.created,
            version: self.version,
            title: self.title.view(),
            description: self.description.view(),
            lat: self.lat,
            lng: self.lng,
            street: self.street.deep_view(),
            zip: self.zip.deep_view(),
            city: self.city.deep_view(),
            country: self.country.deep_view(),
            email: self.email.deep_view(),
            telephone: self.telephone.deep_view(),
            homepage: self.homepage.deep_view(),
            categories: self.categories.deep_view(),
            tags: self.tags.deep_view(),
            license: self.license.deep_view(),
        }
    }
}

impl DeepView for Entry {
    type V = EntryData;

    open spec fn deep_view(&self) -> EntryData {
        self.view()
    }
}

/// A lazily created, never mutated name that entries can be tagged with.
/// The `name` is the case-sensitive key used for lookup and deduplication.
pub struct Tag {
    pub id: String,
    pub created: u64,
    pub version: u64,
    pub name: String,
}

/// The mathematical value of a [`Tag`].
#[verifier::ext_equal]
pub struct TagData {
    pub id: Seq<char>,
    pub created: u64,
    pub version: u64,
    pub name: Seq<char>,
}

impl View for Tag {
    type V = TagData;

    open spec fn view(&self) -> TagData {
        TagData {
            id: self.id.view(),
            created: self.created,
            version: self.version,
            name: self.name.view(),
        }
    }
}

/// A subject-predicate-object fact. Triples carry no identifier of their
/// own: the whole tuple is their identity, so no two equal triples coexist.
pub struct SentenceTriple {
    pub subject: String,
    pub predicate: Predicate,
    pub object: String,
}

/// The mathematical value of a [`SentenceTriple`].
#[verifier::ext_equal]
pub struct TripleData {
    pub subject: Seq<char>,
    pub predicate: Predicate,
    pub object: Seq<char>,
}

impl View for SentenceTriple {
    type V = TripleData;

    open spec fn view(&self) -> TripleData {
        TripleData {
            subject: self.subject.view(),
            predicate: self.predicate,
            object: self.object.view(),
        }
    }
}

/// A classification that entries can reference and that notifications are
/// enriched with.
pub struct Category {
    pub id: String,
    pub created: u64,
    pub version: u64,
    pub name: String,
}

/// The mathematical value of a [`Category`].
#[verifier::ext_equal]
pub struct CategoryData {
    pub id: Seq<char>,
    pub created: u64,
    pub version: u64,
    pub name: Seq<char>,
}

impl View for Category {
    type V = CategoryData;

    open spec fn view(&self) -> CategoryData {
        CategoryData {
            id: self.id.view(),
            created: self.created,
            version: self.version,
            name: self.name.view(),
        }
    }
}

/// A request for a new entry: all editable attributes, no identifier and no
/// version, which the store assigns itself.
pub struct NewEntry {
    pub title: String,
    pub description: String,
    pub lat: i64,
    pub lng: i64,
    pub street: Option<String>,
    pub zip: Option<String>,
    pub city: Option<String>,
    pub country: Option<String>,
    pub email: Option<String>,
    pub telephone: Option<String>,
    pub homepage: Option<String>,
    pub categories: Vec<String>,
    pub tags: Vec<String>,
    pub license: String,
}

/// The mathematical value of a [`NewEntry`].
#[verifier::ext_equal]
pub struct NewEntryData {
    pub title: Seq<char>,
    pub description: Seq<char>,
    pub lat: i64,
    pub lng: i64,
    pub street: Option<Seq<char>>,
    pub zip: Option<Seq<char>>,
    pub city: Option<Seq<char>>,
    pub country: Option<Seq<char>>,
    pub email: Option<Seq<char>>,
    pub telephone: Option<Seq<char>>,
    pub homepage: Option<Seq<char>>,
    pub categories: Seq<Seq<char>>,
    pub tags: Seq<Seq<char>>,
    pub license: Seq<char>,
}

impl View for NewEntry {
    type V = NewEntryData;

    open spec fn view(&self) -> NewEntryData {
        NewEntryData {
            title: self.title.view(),
            description: self.description.view(),
            lat: self.lat,
            lng: self.lng,
            street: self.street.deep_view(),
            zip: self.zip.deep_view(),
            city: self.city.deep_view(),
            country: self.country.deep_view(),
            email: self.email.deep_view(),
            telephone: self.telephone.deep_view(),
            homepage: self.homepage.deep_view(),
            categories: self.categories.deep_view(),
            tags: self.tags.deep_view(),
            license: self.license.view(),
        }
    }
}

/// A request for a new tag: only a name.
pub struct NewTag {
    pub name: String,
}

impl View for NewTag {
    type V = Seq<char>;

    open spec fn view(&self) -> Seq<char> {
        self.name.view()
    }
}

/// An update request: the identifier of the record to replace, the version
/// the caller read it at, and all editable attributes.
pub struct UpdateEntry {
    pub id: String,
    pub version: u64,
    pub title: String,
    pub description: String,
    pub lat: i64,
    pub lng: i64,
    pub street: Option<String>,
    pub zip: Option<String>,
    pub city: Option<String>,
    pub country: Option<String>,
    pub email: Option<String>,
    pub telephone: Option<String>,
    pub homepage: Option<String>,
    pub categories: Vec<String>,
    pub tags: Vec<String>,
}

/// The mathematical value of an [`UpdateEntry`].
#[verifier::ext_equal]
pub struct UpdateEntryData {
    pub id: Seq<char>,
    pub version: u64,
    pub title: Seq<char>,
    pub description: Seq<char>,
    pub lat: i64,
    pub lng: i64,
    pub street: Option<Seq<char>>,
    pub zip: Option<Seq<char>>,
    pub city: Option<Seq<char>>,
    pub country: Option<Seq<char>>,
    pub email: Option<Seq<char>>,
    pub telephone: Option<Seq<char>>,
    pub homepage: Option<Seq<char>>,
    pub categories: Seq<Seq<char>>,
    pub tags: Seq<Seq<char>>,
}

impl View for UpdateEntry {
    type V = UpdateEntryData;

    open spec fn view(&self) -> UpdateEntryData {
        UpdateEntryData {
            id: self.id.view(),
            version: self.version,
            title: self.title.view(),
            description: self.description.view(),
            lat: self.lat,
            lng: self.lng,
            street: self.street.deep_view(),
            zip: self.zip.deep_view(),
            city: self.city.deep_view(),
            country: self.country.deep_view(),
            email: self.email.deep_view(),
            telephone: self.telephone.deep_view(),
            homepage: self.homepage.deep_view(),
            categories: self.categories.deep_view(),
            tags: self.tags.deep_view(),
        }
    }
}

} // verus!
