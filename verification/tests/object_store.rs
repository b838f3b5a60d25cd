//! The object side: ids and hex decoding, store insertion and lookup,
//! attaching, peeling across commits and tags, and reference lookup.

use gitcore::ext::{ExistingReferenceError, ObjectIdExt, ReferenceExt};
use gitcore::hash::ObjectId;
use gitcore::object::{
    FindExistingError, Kind, Object, ObjectRef, Oid, PeelError, Repository,
};

fn id_from(byte: u8) -> ObjectId {
    ObjectId::from_bytes(vec![byte; 20]).expect("twenty bytes make an id")
}

fn hex_of(id: &ObjectId) -> String {
    id.as_bytes().iter().map(|b| format!("{:02x}", b)).collect()
}

fn commit_data(tree: &ObjectId) -> Vec<u8> {
    format!("tree {}\nauthor a <a@b> 1592437401 +0000\n\nwithout sig", hex_of(tree)).into_bytes()
}

fn tag_data(target: &ObjectId) -> Vec<u8> {
    format!("object {}\ntype commit\ntag v1\n", hex_of(target)).into_bytes()
}

#[test]
fn ids_are_exactly_twenty_bytes() {
    assert!(ObjectId::from_bytes(vec![0u8; 19]).is_none());
    assert!(ObjectId::from_bytes(vec![0u8; 21]).is_none());
    let id = id_from(0xab);
    assert_eq!(id.as_bytes().len(), 20);
    assert_eq!(hex_of(&id), "abababababababababababababababababababab");
    assert!(id.eq_id(&id.duplicate()));
    assert!(!id.eq_id(&id_from(0xcd)));
}

#[test]
fn ids_decode_from_forty_hex_digits() {
    let id = ObjectId::from_hex(&b"1b2dfb4ac5e42080b682fc676e9738c94ce6d54d".to_vec())
        .expect("forty hex digits");
    assert_eq!(
        id.as_bytes(),
        &vec![
            0x1b, 0x2d, 0xfb, 0x4a, 0xc5, 0xe4, 0x20, 0x80, 0xb6, 0x82, 0xfc, 0x67, 0x6e, 0x97,
            0x38, 0xc9, 0x4c, 0xe6, 0xd5, 0x4d
        ]
    );
    assert!(ObjectId::from_hex(&b"1b2dfb".to_vec()).is_none());
    assert!(ObjectId::from_hex(&b"zz2dfb4ac5e42080b682fc676e9738c94ce6d54d".to_vec()).is_none());
}

#[test]
fn the_store_rejects_malformed_commits_and_tags() {
    let mut repo = Repository::new();
    let bad_commit = Object {
        id: id_from(1),
        kind: Kind::Commit,
        data: b"tree not-hex\n".to_vec(),
    };
    assert!(!repo.insert(bad_commit));
    let bad_tag = Object {
        id: id_from(2),
        kind: Kind::Tag,
        data: b"object short\n".to_vec(),
    };
    assert!(!repo.insert(bad_tag));
    let blob = Object {
        id: id_from(3),
        kind: Kind::Blob,
        data: b"anything at all".to_vec(),
    };
    assert!(repo.insert(blob));
}

#[test]
fn found_objects_carry_the_stored_payload() {
    let mut repo = Repository::new();
    let blob = Object {
        id: id_from(7),
        kind: Kind::Blob,
        data: b"payload".to_vec(),
    };
    assert!(repo.insert(blob));
    let found = repo.find_object(&id_from(7)).expect("stored above");
    assert_eq!(found.kind, Kind::Blob);
    assert_eq!(found.data, b"payload".to_vec());
    assert!(repo.find_object(&id_from(8)).is_none());
}

#[test]
fn attach_detach_round_trip() {
    let repo = Repository::new();
    let object = Object {
        id: id_from(9),
        kind: Kind::Tree,
        data: b"entries".to_vec(),
    };
    let attached = object.attach(&repo);
    let copied = attached.to_owned();
    assert_eq!(copied.kind, Kind::Tree);
    assert_eq!(copied.data, b"entries".to_vec());
    let detached = attached.detach();
    assert_eq!(detached, copied);
    let rebuilt = ObjectRef::from_current_buf(id_from(9), Kind::Tree, b"entries".to_vec(), &repo);
    assert_eq!(rebuilt.into_owned(), detached);
}

#[test]
fn signed() {
    let data = format!(
        "tree 1b2dfb4ac5e42080b682fc676e9738c94ce6d54d\nauthor name <name@example.com> {stamp} +0800\ncommitter name <name@example.com> {stamp} +0800\n\nwithout sig",
        stamp = 1592437401
    )
    .into_bytes();
    let repo = Repository::new();
    let commit = Object { id: id_from(1), kind: Kind::Commit, data }.attach(&repo);
    let tree = commit.to_commit_iter().expect("commit").tree_id().expect("valid commit");
    assert_eq!(hex_of(&tree), "1b2dfb4ac5e42080b682fc676e9738c94ce6d54d");
}

#[test]
fn commit_and_tag_readers_parse_the_link_line() {
    let repo = Repository::new();
    let tree_id = id_from(0x2f);
    let commit = Object {
        id: id_from(1),
        kind: Kind::Commit,
        data: commit_data(&tree_id),
    }
    .attach(&repo);
    let from_commit = commit.to_commit_iter().expect("a commit").tree_id().expect("valid commit");
    assert!(from_commit.eq_id(&tree_id));
    assert!(commit.to_tag_iter().is_none());
    let tag = Object {
        id: id_from(2),
        kind: Kind::Tag,
        data: tag_data(&tree_id),
    }
    .attach(&repo);
    let from_tag = tag.to_tag_iter().expect("a tag").target_id().expect("valid tag");
    assert!(from_tag.eq_id(&tree_id));
    assert!(tag.to_commit_iter().is_none());
}

#[test]
fn peeling_a_commit_reaches_its_tree() {
    let mut repo = Repository::new();
    let tree_id = id_from(0x11);
    assert!(repo.insert(Object { id: tree_id.duplicate(), kind: Kind::Tree, data: b"t".to_vec() }));
    let commit = Object { id: id_from(0x22), kind: Kind::Commit, data: commit_data(&tree_id) };
    let peeled = commit.attach(&repo).peel_to_kind(Kind::Tree).expect("tree is stored");
    assert_eq!(peeled.kind, Kind::Tree);
    assert!(peeled.id.eq_id(&tree_id));
}

#[test]
fn peeling_follows_a_tag_chain() {
    let mut repo = Repository::new();
    let tree_id = id_from(0x11);
    let commit_id = id_from(0x22);
    assert!(repo.insert(Object { id: tree_id.duplicate(), kind: Kind::Tree, data: b"t".to_vec() }));
    assert!(repo.insert(Object {
        id: commit_id.duplicate(),
        kind: Kind::Commit,
        data: commit_data(&tree_id),
    }));
    let tag = Object { id: id_from(0x33), kind: Kind::Tag, data: tag_data(&commit_id) };
    let as_commit = tag.attach(&repo).peel_to_kind(Kind::Commit).expect("commit is stored");
    assert_eq!(as_commit.kind, Kind::Commit);
    assert!(as_commit.id.eq_id(&commit_id));
    let as_tree = as_commit.peel_to_kind(Kind::Tree).expect("tree is stored");
    assert_eq!(as_tree.kind, Kind::Tree);
}

#[test]
fn peeling_stops_at_a_terminal_kind() {
    let mut repo = Repository::new();
    let tree_id = id_from(0x11);
    assert!(repo.insert(Object { id: tree_id.duplicate(), kind: Kind::Tree, data: b"t".to_vec() }));
    let commit = Object { id: id_from(0x22), kind: Kind::Commit, data: commit_data(&tree_id) };
    let err = commit.attach(&repo).peel_to_kind(Kind::Blob).expect_err("a tree is not a blob");
    assert_eq!(err, PeelError::NotFound { actual: Kind::Tree, expected: Kind::Blob });
}

#[test]
fn peeling_fails_on_a_missing_link_target() {
    let repo = Repository::new();
    let commit = Object {
        id: id_from(0x22),
        kind: Kind::Commit,
        data: commit_data(&id_from(0x77)),
    };
    let err = commit.attach(&repo).peel_to_kind(Kind::Tree).expect_err("the tree is absent");
    assert_eq!(err, PeelError::FindExisting(FindExistingError::NotFound));
}

#[test]
fn peeling_reports_a_cyclic_tag_chain() {
    let mut repo = Repository::new();
    let a = id_from(0x0a);
    let b = id_from(0x0b);
    assert!(repo.insert(Object { id: a.duplicate(), kind: Kind::Tag, data: tag_data(&b) }));
    assert!(repo.insert(Object { id: b.duplicate(), kind: Kind::Tag, data: tag_data(&a) }));
    let start = repo.find_object(&a).expect("stored above");
    let err = start.attach(&repo).peel_to_kind(Kind::Commit).expect_err("the chain loops");
    assert_eq!(err, PeelError::Cycle);
}

#[test]
fn attached_ids_resolve_objects() {
    let mut repo = Repository::new();
    let blob_id = id_from(0x44);
    assert!(repo.insert(Object {
        id: blob_id.duplicate(),
        kind: Kind::Blob,
        data: b"x".to_vec(),
    }));
    let oid = Oid::from_id(blob_id.duplicate(), &repo);
    let existing = oid.existing_object().expect("stored above");
    assert_eq!(existing.kind, Kind::Blob);
    let found = oid.object().expect("lookups cannot fail");
    assert!(found.is_some());
    let absent = Oid::from_id(id_from(0x45), &repo);
    assert_eq!(absent.existing_object().expect_err("not stored"), FindExistingError::NotFound);
    assert!(absent.object().expect("lookups cannot fail").is_none());
    assert!(absent.detach().eq_id(&id_from(0x45)));
    let attached = blob_id.duplicate().attach(&repo);
    assert!(attached.detach().eq_id(&blob_id));
}

#[test]
fn references_resolve_by_name() {
    let mut repo = Repository::new();
    repo.insert_ref("HEAD".to_string(), id_from(0x55));
    repo.insert_ref("refs/heads/main".to_string(), id_from(0x66));
    let head = repo.find_reference("HEAD").expect("lookups cannot fail").expect("inserted above");
    assert_eq!(head.name, "HEAD");
    assert!(head.target.eq_id(&id_from(0x55)));
    assert!(repo
        .find_reference("refs/tags/v1")
        .expect("lookups cannot fail")
        .is_none());
    let main = repo.find_existing_reference("refs/heads/main").expect("inserted above");
    assert!(main.target.eq_id(&id_from(0x66)));
    assert_eq!(
        repo.find_existing_reference("refs/tags/v1").expect_err("never inserted"),
        ExistingReferenceError::NotFound
    );
}
