use openfairdb::entities::{Category, Entry, NewEntry, SentenceTriple, Tag, UpdateEntry};
use openfairdb::error::{Error, IndexError, NotifyError, ParameterError, RepoError};
use openfairdb::flows::{self, EntryIndexer, Notifier};
use openfairdb::frontend::{review_place, ArchiveAction, ChangeUserRoleAction, ReviewStatus, Role};
use openfairdb::repo::MockRepo;
use openfairdb::usecase::{add_tag_to_entry, create_new_entry, search_by_tags};

struct RecordingIndexer {
    added: usize,
    flushed: usize,
    fail: bool,
}

impl EntryIndexer for RecordingIndexer {
    fn add_entry(&mut self, _entry: &Entry) -> Result<(), IndexError> {
        if self.fail {
            return Err(IndexError);
        }
        self.added += 1;
        Ok(())
    }

    fn flush(&mut self) -> Result<(), IndexError> {
        if self.fail {
            return Err(IndexError);
        }
        self.flushed += 1;
        Ok(())
    }
}

struct RecordingNotifier {
    notified: usize,
    fail: bool,
}

impl Notifier for RecordingNotifier {
    fn recipients(&mut self, _entry: &Entry) -> Vec<String> {
        vec!["subscriber@example.org".to_string()]
    }

    fn entry_updated(
        &mut self,
        recipients: &Vec<String>,
        _entry: &Entry,
        _categories: &Vec<Category>,
    ) -> Result<(), NotifyError> {
        if self.fail {
            return Err(NotifyError);
        }
        self.notified += recipients.len();
        Ok(())
    }
}

fn update_request(id: &str, version: u64, title: &str) -> UpdateEntry {
    UpdateEntry {
        id: id.to_string(),
        version,
        title: title.to_string(),
        description: "bar".to_string(),
        lat: 0,
        lng: 0,
        street: None,
        zip: None,
        city: None,
        country: None,
        email: None,
        telephone: None,
        homepage: None,
        categories: vec![],
        tags: vec![],
    }
}

#[test]
fn pipeline_updates_and_fans_out() {
    let mut re: MockRepo<Entry> = MockRepo { objects: vec![] };
    let rc: MockRepo<Category> = MockRepo { objects: vec![] };
    let mut indexer = RecordingIndexer { added: 0, flushed: 0, fail: false };
    let mut notifier = RecordingNotifier { notified: 0, fail: false };

    let id = create_new_entry(
        &mut re,
        NewEntry {
            title: "foo".to_string(),
            description: "bar".to_string(),
            lat: 0,
            lng: 0,
            street: None,
            zip: None,
            city: None,
            country: None,
            email: None,
            telephone: None,
            homepage: None,
            categories: vec![],
            tags: vec![],
            license: "CC0-1.0".to_string(),
        },
    )
    .unwrap();

    let place = flows::update_entry(
        &mut re,
        &rc,
        &mut indexer,
        &mut notifier,
        update_request(&id, 0, "renamed"),
    )
    .unwrap();

    assert_eq!(place.version, 1);
    assert_eq!(place.title, "renamed");
    assert_eq!(re.objects[0].version, 1);
    assert_eq!(indexer.added, 1);
    assert_eq!(indexer.flushed, 1);
    assert_eq!(notifier.notified, 1);
}

#[test]
fn pipeline_version_conflict_reaches_no_side_effect() {
    let mut re: MockRepo<Entry> = MockRepo { objects: vec![] };
    let rc: MockRepo<Category> = MockRepo { objects: vec![] };
    let mut indexer = RecordingIndexer { added: 0, flushed: 0, fail: false };
    let mut notifier = RecordingNotifier { notified: 0, fail: false };

    let id = create_new_entry(
        &mut re,
        NewEntry {
            title: "foo".to_string(),
            description: "bar".to_string(),
            lat: 0,
            lng: 0,
            street: None,
            zip: None,
            city: None,
            country: None,
            email: None,
            telephone: None,
            homepage: None,
            categories: vec![],
            tags: vec![],
            license: "CC0-1.0".to_string(),
        },
    )
    .unwrap();

    let result = flows::update_entry(
        &mut re,
        &rc,
        &mut indexer,
        &mut notifier,
        update_request(&id, 7, "renamed"),
    );

    match result {
        Err(Error::Repo(RepoError::InvalidVersion)) => {}
        _ => {
            panic!("invalid error type");
        }
    }
    assert_eq!(re.objects[0].version, 0);
    assert_eq!(re.objects[0].title, "foo");
    assert_eq!(indexer.added, 0);
    assert_eq!(notifier.notified, 0);
}

#[test]
fn end_to_end_tagging_search_and_isolated_reindex_failure() {
    let mut re: MockRepo<Entry> = MockRepo { objects: vec![] };
    let mut rt: MockRepo<Tag> = MockRepo { objects: vec![] };
    let mut rs: MockRepo<SentenceTriple> = MockRepo { objects: vec![] };
    let rc: MockRepo<Category> = MockRepo { objects: vec![] };

    // create an entry with no tags
    let id = create_new_entry(
        &mut re,
        NewEntry {
            title: "foo".to_string(),
            description: "bar".to_string(),
            lat: 0,
            lng: 0,
            street: None,
            zip: None,
            city: None,
            country: None,
            email: None,
            telephone: None,
            homepage: None,
            categories: vec![],
            tags: vec![],
            license: "CC0-1.0".to_string(),
        },
    )
    .unwrap();

    // associate "coffee" twice: no duplicate fact is stored
    assert!(add_tag_to_entry(&re, &mut rt, &mut rs, "coffee", &id).is_ok());
    assert!(add_tag_to_entry(&re, &mut rt, &mut rs, "coffee", &id).is_ok());
    assert_eq!(rs.objects.len(), 1);

    // searching by the tag finds the entry
    let found = search_by_tags(&re, &mut rt, &rs, &vec!["coffee".to_string()]).unwrap();
    assert_eq!(found.len(), 1);
    assert_eq!(found[0].id, id);

    // a failing reindex is invisible in the caller's result and in the store
    let mut indexer = RecordingIndexer { added: 0, flushed: 0, fail: true };
    let mut notifier = RecordingNotifier { notified: 0, fail: false };
    let place = flows::update_entry(
        &mut re,
        &rc,
        &mut indexer,
        &mut notifier,
        update_request(&id, 0, "still foo"),
    )
    .unwrap();
    assert_eq!(place.version, 1);
    assert_eq!(re.objects[0].version, 1);
    assert_eq!(indexer.added, 0);
    assert_eq!(notifier.notified, 1);
}

#[test]
fn pipeline_swallows_notifier_failure() {
    let mut re: MockRepo<Entry> = MockRepo { objects: vec![stored("e1", 0)] };
    let rc: MockRepo<Category> = MockRepo { objects: vec![] };
    let mut indexer = RecordingIndexer { added: 0, flushed: 0, fail: false };
    let mut notifier = RecordingNotifier { notified: 0, fail: true };

    let place = flows::update_entry(
        &mut re,
        &rc,
        &mut indexer,
        &mut notifier,
        update_request("e1", 0, "renamed"),
    )
    .unwrap();
    assert_eq!(place.version, 1);
    assert_eq!(indexer.added, 1);
    assert_eq!(notifier.notified, 0);
}

fn stored(id: &str, version: u64) -> Entry {
    Entry {
        id: id.to_string(),
        created: 0,
        version,
        title: "foo".to_string(),
        description: "bar".to_string(),
        lat: 0,
        lng: 0,
        street: None,
        zip: None,
        city: None,
        country: None,
        email: None,
        telephone: None,
        homepage: None,
        categories: vec![],
        tags: vec![],
        license: None,
    }
}

#[test]
fn review_place_rejects_unknown_status_code() {
    let re: MockRepo<Entry> = MockRepo { objects: vec![stored("e1", 0)] };
    let result = review_place(&re, 9, "looks fine".to_string(), "e1");
    match result {
        Err(Error::Parameter(ParameterError::ReviewStatus)) => {}
        _ => {
            panic!("invalid error type");
        }
    }
}

#[test]
fn review_place_requires_a_stored_place() {
    let re: MockRepo<Entry> = MockRepo { objects: vec![] };
    let result = review_place(&re, 2, "looks fine".to_string(), "e1");
    match result {
        Err(Error::Repo(RepoError::NotFound)) => {}
        _ => {
            panic!("invalid error type");
        }
    }
}

#[test]
fn review_place_accepts_known_status_and_stored_place() {
    let re: MockRepo<Entry> = MockRepo { objects: vec![stored("e1", 0)] };
    let review = review_place(&re, 2, "looks fine".to_string(), "e1").unwrap();
    assert_eq!(review.status, 2);
    assert_eq!(review.comment, "looks fine");
    assert_eq!(ReviewStatus::try_from(review.status), Some(ReviewStatus::Confirmed));
}

#[test]
fn frontend_request_shapes_carry_their_fields() {
    let archive = ArchiveAction { ids: "c1,c2".to_string(), place_id: "e1".to_string() };
    assert_eq!(archive.ids, "c1,c2");
    assert_eq!(archive.place_id, "e1");
    let change = ChangeUserRoleAction { email: "a@example.org".to_string(), role: 2 };
    assert_eq!(Role::from_u8(change.role), Some(Role::Scout));
    assert_eq!(change.email, "a@example.org");
}

#[test]
fn role_codes_name_the_roles() {
    assert_eq!(Role::from_u8(0), Some(Role::Guest));
    assert_eq!(Role::from_u8(1), Some(Role::User));
    assert_eq!(Role::from_u8(2), Some(Role::Scout));
    assert_eq!(Role::from_u8(3), Some(Role::Admin));
    assert_eq!(Role::from_u8(4), None);
}
