use openfairdb::entities::{Entry, NewEntry, Predicate, SentenceTriple, Tag, UpdateEntry};
use openfairdb::error::{Error, ParameterError, RepoError};
use openfairdb::repo::{Entity, MockRepo};
use openfairdb::usecase::{
    add_tag_to_entry, create_new_entry, create_new_tag, find_or_create_tag_id_by_name,
    get_tag_names_from_ids, get_tags_for_entry_id, request_entry, search_by_tags, update_entry,
};

fn new_entry(title: &str, description: &str, license: &str) -> NewEntry {
    NewEntry {
        title: title.to_string(),
        description: description.to_string(),
        lat: 0,
        lng: 0,
        street: None,
        zip: None,
        city: None,
        country: None,
        email: None,
        telephone: None,
        homepage: None,
        categories: vec![],
        tags: vec![],
        license: license.to_string(),
    }
}

fn stored_entry(id: &str, version: u64) -> Entry {
    Entry {
        id: id.to_string(),
        created: 0,
        version,
        title: "foo".to_string(),
        description: "bar".to_string(),
        lat: 0,
        lng: 0,
        street: None,
        zip: None,
        city: None,
        country: None,
        email: None,
        telephone: None,
        homepage: None,
        categories: vec![],
        tags: vec![],
        license: None,
    }
}

fn update_request(id: &str, version: u64) -> UpdateEntry {
    UpdateEntry {
        id: id.to_string(),
        version,
        title: "foo".to_string(),
        description: "bar".to_string(),
        lat: 0,
        lng: 0,
        street: Some("street".to_string()),
        zip: None,
        city: None,
        country: None,
        email: None,
        telephone: None,
        homepage: None,
        categories: vec![],
        tags: vec![],
    }
}

#[test]
fn add_empty_tag_to_entry() {
    let mut rt: MockRepo<Tag> = MockRepo { objects: vec![] };
    let mut re: MockRepo<Entry> = MockRepo { objects: vec![] };
    let mut rs: MockRepo<SentenceTriple> = MockRepo { objects: vec![] };

    let x = new_entry("foo", "bar", "CC0-1.0");
    let entry_id = create_new_entry(&mut re, x).unwrap();

    let tag_name = "";

    let result = add_tag_to_entry(&re, &mut rt, &mut rs, tag_name, &entry_id);

    assert_eq!(rs.objects.len(), 0);
    assert_eq!(rt.objects.len(), 0);
    assert!(result.is_err());
}

#[test]
fn add_valid_tag_to_entry() {
    let mut rt: MockRepo<Tag> = MockRepo { objects: vec![] };
    let mut re: MockRepo<Entry> = MockRepo { objects: vec![] };
    let mut rs: MockRepo<SentenceTriple> = MockRepo { objects: vec![] };

    let entry_id = create_new_entry(&mut re, new_entry("foo", "bar", "CC0-1.0")).unwrap();
    let result = add_tag_to_entry(&re, &mut rt, &mut rs, "valid", &entry_id);

    assert!(result.is_ok());
    assert_eq!(rt.objects.len(), 1);
    assert_eq!(rt.objects[0].name, "valid");
    assert_eq!(rs.objects.len(), 1);
    assert_eq!(rs.objects[0].subject, entry_id);
    assert_eq!(rs.objects[0].object, rt.objects[0].id);
}

#[test]
fn add_uppercase_tag_to_entry() {
    let mut rt: MockRepo<Tag> = MockRepo { objects: vec![] };
    let mut re: MockRepo<Entry> = MockRepo { objects: vec![] };
    let mut rs: MockRepo<SentenceTriple> = MockRepo { objects: vec![] };

    let entry_id = create_new_entry(&mut re, new_entry("foo", "bar", "CC0-1.0")).unwrap();
    // tag names are case-sensitive keys: an uppercase name is stored as given
    let result = add_tag_to_entry(&re, &mut rt, &mut rs, "LOUD", &entry_id);

    assert!(result.is_ok());
    assert_eq!(rt.objects.len(), 1);
    assert_eq!(rt.objects[0].name, "LOUD");
    assert_eq!(rs.objects.len(), 1);
}

#[test]
fn add_untrimmed_tag_to_entry() {
    let mut rt: MockRepo<Tag> = MockRepo { objects: vec![] };
    let mut re: MockRepo<Entry> = MockRepo { objects: vec![] };
    let mut rs: MockRepo<SentenceTriple> = MockRepo { objects: vec![] };

    let entry_id = create_new_entry(&mut re, new_entry("foo", "bar", "CC0-1.0")).unwrap();
    // surrounding whitespace is part of the case-sensitive key
    let result = add_tag_to_entry(&re, &mut rt, &mut rs, " padded ", &entry_id);

    assert!(result.is_ok());
    assert_eq!(rt.objects.len(), 1);
    assert_eq!(rt.objects[0].name, " padded ");
}

#[test]
fn add_tag_with_invalid_characters_to_entry() {
    let mut rt: MockRepo<Tag> = MockRepo { objects: vec![] };
    let mut re: MockRepo<Entry> = MockRepo { objects: vec![] };
    let mut rs: MockRepo<SentenceTriple> = MockRepo { objects: vec![] };

    let entry_id = create_new_entry(&mut re, new_entry("foo", "bar", "CC0-1.0")).unwrap();
    // only the empty name is rejected; other names are stored as given
    let result = add_tag_to_entry(&re, &mut rt, &mut rs, "sp&ce#d!", &entry_id);

    assert!(result.is_ok());
    assert_eq!(rt.objects.len(), 1);
    assert_eq!(rt.objects[0].name, "sp&ce#d!");
}

#[test]
fn adding_same_tag_twice_stores_one_triple() {
    let mut rt: MockRepo<Tag> = MockRepo { objects: vec![] };
    let mut re: MockRepo<Entry> = MockRepo { objects: vec![] };
    let mut rs: MockRepo<SentenceTriple> = MockRepo { objects: vec![] };

    let entry_id = create_new_entry(&mut re, new_entry("foo", "bar", "CC0-1.0")).unwrap();
    assert!(add_tag_to_entry(&re, &mut rt, &mut rs, "coffee", &entry_id).is_ok());
    assert!(add_tag_to_entry(&re, &mut rt, &mut rs, "coffee", &entry_id).is_ok());

    assert_eq!(rt.objects.len(), 1);
    assert_eq!(rs.objects.len(), 1);
    assert_eq!(rs.objects[0].subject, entry_id);
}

#[test]
fn find_or_create_resolves_stored_name() {
    let mut rt: MockRepo<Tag> = MockRepo { objects: vec![] };

    let first = find_or_create_tag_id_by_name(&mut rt, "vegan").unwrap();
    let second = find_or_create_tag_id_by_name(&mut rt, "vegan").unwrap();

    assert_eq!(first, second);
    assert_eq!(rt.objects.len(), 1);
    assert_eq!(rt.objects[0].name, "vegan");
    assert_eq!(rt.objects[0].version, 0);
}

#[test]
fn create_duplicate_tag_name_is_rejected() {
    let mut rt: MockRepo<Tag> = MockRepo { objects: vec![] };

    assert!(create_new_tag(&mut rt, openfairdb::entities::NewTag { name: "twice".to_string() })
        .is_ok());
    let result = create_new_tag(&mut rt, openfairdb::entities::NewTag {
        name: "twice".to_string(),
    });
    match result {
        Err(Error::Repo(RepoError::AlreadyExists)) => {}
        _ => {
            panic!("invalid error type");
        }
    }
    assert_eq!(rt.objects.len(), 1);
}

#[test]
fn get_tags_for_entry_reflects_triple_removal() {
    let rt: MockRepo<Tag> = MockRepo { objects: vec![] };
    let mut rs: MockRepo<SentenceTriple> = MockRepo { objects: vec![] };
    rs.objects.push(SentenceTriple {
        subject: "e1".to_string(),
        predicate: Predicate::IsTaggedAs,
        object: "t1".to_string(),
    });

    let tags = get_tags_for_entry_id(&rt, &rs, "e1").unwrap();
    assert_eq!(tags, vec!["t1".to_string()]);

    // remove the triple: the derived set shrinks, no entry record changes
    rs.objects.remove(0);
    let tags = get_tags_for_entry_id(&rt, &rs, "e1").unwrap();
    assert!(tags.is_empty());
}

#[test]
fn get_tags_for_entry_filters_by_subject() {
    let rt: MockRepo<Tag> = MockRepo { objects: vec![] };
    let mut rs: MockRepo<SentenceTriple> = MockRepo { objects: vec![] };
    rs.objects.push(SentenceTriple {
        subject: "e1".to_string(),
        predicate: Predicate::IsTaggedAs,
        object: "t1".to_string(),
    });
    rs.objects.push(SentenceTriple {
        subject: "e2".to_string(),
        predicate: Predicate::IsTaggedAs,
        object: "t2".to_string(),
    });

    let tags = get_tags_for_entry_id(&rt, &rs, "e1").unwrap();
    assert_eq!(tags, vec!["t1".to_string()]);
}

#[test]
fn get_tag_names_from_ids_returns_matching_names() {
    let mut rt: MockRepo<Tag> = MockRepo { objects: vec![] };
    rt.objects.push(Tag {
        id: "t1".to_string(),
        created: 0,
        version: 0,
        name: "vegan".to_string(),
    });
    rt.objects.push(Tag {
        id: "t2".to_string(),
        created: 0,
        version: 0,
        name: "meat".to_string(),
    });

    let names = get_tag_names_from_ids(rt, "t2").unwrap();
    assert_eq!(names, vec!["meat".to_string()]);
}

#[test]
fn entities_expose_their_identifier() {
    assert_eq!(stored_entry("e9", 0).id(), "e9");
    let tag = Tag { id: "t9".to_string(), created: 0, version: 0, name: "vegan".to_string() };
    assert_eq!(tag.id(), "t9");
    let triple = SentenceTriple {
        subject: "e9".to_string(),
        predicate: Predicate::IsTaggedAs,
        object: "t9".to_string(),
    };
    // triples have no identifier of their own
    assert_eq!(triple.id(), "");
}

#[test]
fn create_new_valid_entry() {
    let x = new_entry("foo", "bar", "CC0-1.0");
    let mut mock_db: MockRepo<Entry> = MockRepo { objects: vec![] };
    let now = chrono::Utc::now();
    let id = create_new_entry(&mut mock_db, x).unwrap();
    assert!(uuid::Uuid::parse_str(&id).is_ok());
    assert_eq!(mock_db.objects.len(), 1);
    let x = &mock_db.objects[0];
    assert_eq!(x.title, "foo");
    assert_eq!(x.description, "bar");
    assert_eq!(x.version, 0);
    assert!(x.created as i64 >= now.timestamp());
    assert!(uuid::Uuid::parse_str(&x.id).is_ok());
    assert_eq!(x.id, id);
}

#[test]
fn create_entry_with_invalid_email() {
    let mut x = new_entry("foo", "bar", "CC0-1.0");
    x.email = Some("fooo-not-ok".to_string());
    let mut mock_db: MockRepo<Entry> = MockRepo { objects: vec![] };
    assert!(create_new_entry(&mut mock_db, x).is_err());
}

#[test]
fn create_entry_with_valid_email() {
    let mut x = new_entry("foo", "bar", "CC0-1.0");
    x.email = Some("ok@example.org".to_string());
    let mut mock_db: MockRepo<Entry> = MockRepo { objects: vec![] };
    assert!(create_new_entry(&mut mock_db, x).is_ok());
    assert_eq!(mock_db.objects.len(), 1);
}

#[test]
fn created_entries_get_distinct_identifiers() {
    let mut mock_db: MockRepo<Entry> = MockRepo { objects: vec![] };
    let first = create_new_entry(&mut mock_db, new_entry("a", "a", "CC0-1.0")).unwrap();
    let second = create_new_entry(&mut mock_db, new_entry("b", "b", "CC0-1.0")).unwrap();
    assert_ne!(first, second);
    assert_eq!(mock_db.objects.len(), 2);
}

#[test]
fn update_valid_entry() {
    let id = uuid::Uuid::new_v4().simple().to_string();
    let old = stored_entry(&id, 1);
    let new = update_request(&id, 1);
    let mut mock_db: MockRepo<Entry> = MockRepo { objects: vec![old] };
    let now = chrono::Utc::now();
    assert!(update_entry(&mut mock_db, new).is_ok());
    assert_eq!(mock_db.objects.len(), 1);
    let x = &mock_db.objects[0];
    assert_eq!(x.street, Some("street".to_string()));
    assert_eq!(x.description, "bar");
    assert_eq!(x.version, 2);
    assert!(x.created as i64 >= now.timestamp());
    assert!(uuid::Uuid::parse_str(&x.id).is_ok());
}

#[test]
fn update_entry_with_invalid_version() {
    let id = uuid::Uuid::new_v4().simple().to_string();
    let old = stored_entry(&id, 3);
    let new = update_request(&id, 4);
    let mut mock_db: MockRepo<Entry> = MockRepo { objects: vec![old] };
    let result = update_entry(&mut mock_db, new);
    assert!(result.is_err());
    match result.err().unwrap() {
        Error::Repo(err) => match err {
            RepoError::InvalidVersion => {}
            _ => {
                panic!("invalid error type");
            }
        },
        _ => {
            panic!("invalid error type");
        }
    }
    assert_eq!(mock_db.objects.len(), 1);
}

#[test]
fn update_non_existing_entry() {
    let id = uuid::Uuid::new_v4().simple().to_string();
    let new = update_request(&id, 4);
    let mut mock_db: MockRepo<Entry> = MockRepo { objects: vec![] };
    let result = update_entry(&mut mock_db, new);
    assert!(result.is_err());
    match result.err().unwrap() {
        Error::Repo(err) => match err {
            RepoError::NotFound => {}
            _ => {
                panic!("invalid error type");
            }
        },
        _ => {
            panic!("invalid error type");
        }
    }
    assert_eq!(mock_db.objects.len(), 0);
}

#[test]
fn update_version_conflict_leaves_record_unchanged() {
    let old = stored_entry("e1", 3);
    let mut mock_db: MockRepo<Entry> = MockRepo { objects: vec![old] };
    let result = update_entry(&mut mock_db, update_request("e1", 4));
    assert!(result.is_err());
    let x = &mock_db.objects[0];
    assert_eq!(x.version, 3);
    assert_eq!(x.created, 0);
    assert_eq!(x.street, None);
    assert_eq!(x.title, "foo");
}

#[test]
fn update_preserves_server_owned_license() {
    let mut old = stored_entry("e1", 0);
    old.license = Some("CC0-1.0".to_string());
    let mut mock_db: MockRepo<Entry> = MockRepo { objects: vec![old] };
    assert!(update_entry(&mut mock_db, update_request("e1", 0)).is_ok());
    let x = &mock_db.objects[0];
    assert_eq!(x.version, 1);
    assert_eq!(x.license, Some("CC0-1.0".to_string()));
}

#[test]
fn request_entry_returns_derived_tags() {
    let mut re: MockRepo<Entry> = MockRepo { objects: vec![stored_entry("e1", 1)] };
    let mut rt: MockRepo<Tag> = MockRepo { objects: vec![] };
    let mut rs: MockRepo<SentenceTriple> = MockRepo { objects: vec![] };
    assert!(add_tag_to_entry(&re, &mut rt, &mut rs, "vegan", "e1").is_ok());

    let entry = request_entry(&re, &rt, &rs, "e1").unwrap();
    assert_eq!(entry.id, "e1");
    // a read hands back the stored version: it moves only on an update
    assert_eq!(entry.version, 1);
    assert_eq!(entry.tags, vec![rt.objects[0].id.clone()]);

    let missing = request_entry(&re, &rt, &rs, "nowhere");
    match missing {
        Err(Error::Repo(RepoError::NotFound)) => {}
        _ => {
            panic!("invalid error type");
        }
    }
}

#[test]
fn empty_search_by_tags() {
    let mut rt: MockRepo<Tag> = MockRepo { objects: vec![] };
    let mut re: MockRepo<Entry> = MockRepo { objects: vec![] };
    let mut rs: MockRepo<SentenceTriple> = MockRepo { objects: vec![] };
    re.objects.push(stored_entry("e1", 0));
    assert!(add_tag_to_entry(&re, &mut rt, &mut rs, "vegan", "e1").is_ok());

    // an empty tag-name set selects nothing, never the full entry set
    let entries = search_by_tags(&re, &mut rt, &rs, &vec![]).unwrap();
    assert!(entries.is_empty());
}

#[test]
fn search_on_empty_db() {
    let mut rt: MockRepo<Tag> = MockRepo { objects: vec![] };
    let re: MockRepo<Entry> = MockRepo { objects: vec![] };
    let rs: MockRepo<SentenceTriple> = MockRepo { objects: vec![] };

    let entries = search_by_tags(&re, &mut rt, &rs, &vec!["vegan".to_string()]).unwrap();
    assert!(entries.is_empty());
}

#[test]
fn search_by_one_tag() {
    let mut rt: MockRepo<Tag> = MockRepo { objects: vec![] };
    let mut re: MockRepo<Entry> = MockRepo { objects: vec![] };
    let mut rs: MockRepo<SentenceTriple> = MockRepo { objects: vec![] };
    re.objects.push(stored_entry("e1", 0));
    re.objects.push(stored_entry("e2", 0));
    re.objects.push(stored_entry("e3", 0));
    assert!(add_tag_to_entry(&re, &mut rt, &mut rs, "vegan", "e1").is_ok());
    assert!(add_tag_to_entry(&re, &mut rt, &mut rs, "meat", "e2").is_ok());

    let entries = search_by_tags(&re, &mut rt, &rs, &vec!["vegan".to_string()]).unwrap();
    assert_eq!(entries.len(), 1);
    assert_eq!(entries[0].id, "e1");
}

#[test]
fn search_by_undefined_tag() {
    let mut rt: MockRepo<Tag> = MockRepo { objects: vec![] };
    let mut re: MockRepo<Entry> = MockRepo { objects: vec![] };
    let mut rs: MockRepo<SentenceTriple> = MockRepo { objects: vec![] };
    re.objects.push(stored_entry("e1", 0));
    assert!(add_tag_to_entry(&re, &mut rt, &mut rs, "vegan", "e1").is_ok());

    let entries = search_by_tags(&re, &mut rt, &rs, &vec!["undefined".to_string()]).unwrap();
    assert!(entries.is_empty());
}

#[test]
fn search_deduplicates_entries_tagged_twice() {
    let mut rt: MockRepo<Tag> = MockRepo { objects: vec![] };
    let mut re: MockRepo<Entry> = MockRepo { objects: vec![] };
    let mut rs: MockRepo<SentenceTriple> = MockRepo { objects: vec![] };
    re.objects.push(stored_entry("e1", 0));
    assert!(add_tag_to_entry(&re, &mut rt, &mut rs, "vegan", "e1").is_ok());
    assert!(add_tag_to_entry(&re, &mut rt, &mut rs, "organic", "e1").is_ok());

    let entries = search_by_tags(
        &re,
        &mut rt,
        &rs,
        &vec!["vegan".to_string(), "organic".to_string()],
    )
    .unwrap();
    assert_eq!(entries.len(), 1);
    assert_eq!(entries[0].id, "e1");
}
