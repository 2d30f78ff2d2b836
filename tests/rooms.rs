use roomsync::{CreateError, NameGenerator, ReadPoll, RoomStore, WriteError};
use serde_json::Value;

fn obj(key: &str, n: i64) -> Value {
    let mut m = serde_json::Map::new();
    m.insert(key.to_string(), Value::from(n));
    Value::Object(m)
}

fn names(words: &[&str]) -> NameGenerator {
    NameGenerator::new(words.iter().map(|w| w.to_string()).collect()).unwrap()
}

fn expect_ready(p: ReadPoll) -> (u64, Value) {
    match p {
        ReadPoll::Ready { version, data } => (version, data),
        ReadPoll::Pending => panic!("pending"),
        ReadPoll::NotFound => panic!("not found"),
    }
}

fn room_with(store: &mut RoomStore<u32>, name: &str, data: Value) -> String {
    store.create_from(&vec![name.to_string()], data, 0).unwrap()
}

#[test]
fn end_to_end_create_wait_write_conflict() {
    let gen = names(&["apple", "pear"]);
    let name = gen.candidate(0, 1);
    assert_eq!(name, "apple.pear");
    let mut store: RoomStore<u32> = RoomStore::new();
    let id = store.create_from(&vec![name], obj("x", 1), 10).unwrap();
    assert_eq!(id, "apple.pear");
    assert_eq!(expect_ready(store.poll_read(&id, 0)), (1, obj("x", 1)));
    assert!(matches!(store.poll_read(&id, 1), ReadPoll::Pending));
    assert_eq!(store.notifier(&id), Some(&10));
    assert_eq!(store.commit(&id, 1, obj("x", 2), 11), Ok(10));
    assert_eq!(expect_ready(store.poll_read(&id, 1)), (2, obj("x", 2)));
    assert_eq!(store.commit(&id, 1, obj("x", 3), 12), Err(WriteError::VersionConflict));
    assert_eq!(expect_ready(store.poll_read(&id, 1)), (2, obj("x", 2)));
}

#[test]
fn successive_writes_count_up_by_one() {
    let mut store: RoomStore<u32> = RoomStore::new();
    let id = room_with(&mut store, "a.b", obj("n", 0));
    for k in 1..=6u64 {
        assert_eq!(store.commit(&id, k, obj("n", k as i64), k as u32), Ok(k as u32 - 1));
        assert_eq!(expect_ready(store.poll_read(&id, 0)), (k + 1, obj("n", k as i64)));
    }
}

#[test]
fn stale_write_changes_nothing() {
    let mut store: RoomStore<u32> = RoomStore::new();
    let id = room_with(&mut store, "a.b", obj("x", 1));
    assert_eq!(store.commit(&id, 1, obj("x", 2), 1), Ok(0));
    assert_eq!(store.commit(&id, 3, obj("x", 9), 2), Err(WriteError::VersionConflict));
    assert_eq!(store.commit(&id, 0, obj("x", 9), 3), Err(WriteError::VersionConflict));
    assert_eq!(expect_ready(store.poll_read(&id, 0)), (2, obj("x", 2)));
    assert_eq!(store.notifier(&id), Some(&1));
}

#[test]
fn two_writes_with_same_expected_version() {
    let mut store: RoomStore<u32> = RoomStore::new();
    let id = room_with(&mut store, "a.b", obj("x", 1));
    assert_eq!(store.commit(&id, 1, obj("w", 1), 1), Ok(0));
    assert_eq!(store.commit(&id, 1, obj("w", 2), 2), Err(WriteError::VersionConflict));
    assert_eq!(expect_ready(store.poll_read(&id, 1)), (2, obj("w", 1)));
}

#[test]
fn read_of_newer_version_is_immediate() {
    let mut store: RoomStore<u32> = RoomStore::new();
    let id = room_with(&mut store, "a.b", obj("x", 1));
    store.commit(&id, 1, obj("x", 2), 1).unwrap();
    store.commit(&id, 2, obj("x", 3), 2).unwrap();
    assert_eq!(expect_ready(store.poll_read(&id, 0)), (3, obj("x", 3)));
    assert_eq!(expect_ready(store.poll_read(&id, 2)), (3, obj("x", 3)));
    assert!(matches!(store.poll_read(&id, 3), ReadPoll::Pending));
    assert!(matches!(store.poll_read(&id, 7), ReadPoll::Pending));
}

#[test]
fn unknown_room_is_not_found() {
    let mut store: RoomStore<u32> = RoomStore::new();
    room_with(&mut store, "a.b", obj("x", 1));
    let other = "b.a".to_string();
    assert!(matches!(store.poll_read(&other, 0), ReadPoll::NotFound));
    assert_eq!(store.commit(&other, 1, obj("x", 2), 1), Err(WriteError::NotFound));
    assert_eq!(store.notifier(&other), None);
    assert!(!store.contains(&other));
    assert!(store.contains(&"a.b".to_string()));
}

#[test]
fn create_takes_first_free_candidate() {
    let mut store: RoomStore<u32> = RoomStore::new();
    room_with(&mut store, "a.a", obj("x", 1));
    room_with(&mut store, "a.b", obj("x", 2));
    let cands = vec!["a.a".to_string(), "a.b".to_string(), "b.a".to_string(), "b.b".to_string()];
    assert_eq!(store.create_from(&cands, obj("x", 3), 0), Ok("b.a".to_string()));
    assert_eq!(store.create_from(&cands, obj("x", 4), 0), Ok("b.b".to_string()));
    assert_eq!(expect_ready(store.poll_read(&"a.a".to_string(), 0)), (1, obj("x", 1)));
    assert_eq!(expect_ready(store.poll_read(&"b.a".to_string(), 0)), (1, obj("x", 3)));
}

#[test]
fn create_reports_exhaustion_and_changes_nothing() {
    let mut store: RoomStore<u32> = RoomStore::new();
    room_with(&mut store, "a.a", obj("x", 1));
    let cands = vec!["a.a".to_string(), "a.a".to_string()];
    assert_eq!(store.create_from(&cands, obj("x", 2), 0), Err(CreateError::NameExhausted));
    assert_eq!(store.create_from(&vec![], obj("x", 2), 0), Err(CreateError::NameExhausted));
    assert_eq!(expect_ready(store.poll_read(&"a.a".to_string(), 0)), (1, obj("x", 1)));
}

#[test]
fn random_create_uses_the_word_list() {
    let gen = names(&["kiwi"]);
    assert_eq!(gen.draw(), "kiwi.kiwi");
    let mut store: RoomStore<u32> = RoomStore::new();
    assert_eq!(store.create(&gen, obj("x", 1), 0), Ok("kiwi.kiwi".to_string()));
    assert_eq!(store.create(&gen, obj("x", 2), 1), Err(CreateError::NameExhausted));
    assert_eq!(expect_ready(store.poll_read(&"kiwi.kiwi".to_string(), 0)), (1, obj("x", 1)));
}

#[test]
fn random_creates_never_repeat_a_name() {
    let gen = names(&["apple", "pear", "plum"]);
    let mut store: RoomStore<u32> = RoomStore::new();
    let mut seen: Vec<String> = Vec::new();
    for i in 0..9u32 {
        let id = store.create(&gen, obj("i", i as i64), i).unwrap();
        let parts: Vec<&str> = id.split('.').collect();
        assert_eq!(parts.len(), 2);
        assert!(["apple", "pear", "plum"].contains(&parts[0]));
        assert!(["apple", "pear", "plum"].contains(&parts[1]));
        assert!(!seen.contains(&id));
        seen.push(id);
    }
    assert_eq!(store.create(&gen, obj("x", 0), 9), Err(CreateError::NameExhausted));
}

#[test]
fn empty_word_list_is_refused() {
    assert!(NameGenerator::new(Vec::new()).is_none());
    let gen = names(&["fig", "lime"]);
    assert_eq!(gen.candidate(1, 0), "lime.fig");
    assert_eq!(gen.candidate(1, 1), "lime.lime");
}

#[test]
fn refused_writes_leave_no_gap_in_versions() {
    let mut store: RoomStore<u32> = RoomStore::new();
    let id = room_with(&mut store, "a.b", obj("n", 0));
    let tries: [(u64, bool); 7] =
        [(1, true), (1, false), (5, false), (2, true), (3, true), (3, false), (4, true)];
    let mut version: u64 = 1;
    for (i, (expected, ok)) in tries.iter().enumerate() {
        let r = store.commit(&id, *expected, obj("n", i as i64), i as u32);
        assert_eq!(r.is_ok(), *ok);
        if *ok {
            version += 1;
        } else {
            assert_eq!(r, Err(WriteError::VersionConflict));
        }
        assert_eq!(expect_ready(store.poll_read(&id, 0)).0, version);
    }
    assert_eq!(expect_ready(store.poll_read(&id, 0)), (5, obj("n", 6)));
}

#[test]
fn create_on_empty_store_succeeds() {
    let gen = names(&["apple", "pear"]);
    let mut store: RoomStore<u32> = RoomStore::new();
    let id = store.create(&gen, obj("x", 1), 0).unwrap();
    assert!(["apple.apple", "apple.pear", "pear.apple", "pear.pear"].contains(&id.as_str()));
    assert_eq!(expect_ready(store.poll_read(&id, 0)), (1, obj("x", 1)));
}
