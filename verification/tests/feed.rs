use share_feed::feed::{FeedStore, FEED_CAPACITY};
use share_feed::msg::{Msg, MsgType, MAX_TEXT_BYTES};
use share_feed::upload::{is_safe_name, size_allowed, IngestError, MAX_UPLOAD_BYTES};

#[test]
fn capacity_is_twenty() {
    assert_eq!(FEED_CAPACITY, 20);
}

#[test]
fn upload_limit_is_fifty_mebibytes() {
    assert_eq!(MAX_UPLOAD_BYTES, 50 * 1024 * 1024);
}

#[test]
fn new_entry_keeps_what_it_was_given() {
    let m = Msg::new(3, MsgType::File, String::from("a.txt"));
    assert_eq!(m.id, 3);
    assert_eq!(m.msg_type, MsgType::File);
    assert_eq!(m.text, "a.txt");
    assert!(m.fits_frame());
}

#[test]
fn new_entry_is_stamped_with_the_clock() {
    let m = Msg::new(1, MsgType::Text, String::from("x"));
    // 2020-01-01 in milliseconds since the epoch.
    assert!(m.create_time > 1_577_836_800_000);
}

#[test]
fn entry_at_a_given_time() {
    let m = Msg::at(9, MsgType::Text, String::from("t"), 1234);
    assert_eq!(m.id, 9);
    assert_eq!(m.msg_type, MsgType::Text);
    assert_eq!(m.text, "t");
    assert_eq!(m.create_time, 1234);
    let c = m.clone();
    assert_eq!(c.id, 9);
    assert_eq!(c.text, "t");
    assert_eq!(c.create_time, 1234);
}

#[test]
fn text_limit_is_the_largest_length_a_frame_can_carry() {
    assert_eq!(MAX_TEXT_BYTES, i32::MAX as usize);
}

#[test]
fn empty_store_starts_at_one() {
    let mut store = FeedStore::new(Vec::new());
    assert_eq!(store.len(), 0);
    assert!(!store.is_full());
    assert!(store.has_free_id());
    assert!(store.snapshot().is_empty());
    assert_eq!(store.next_id(), 1);
    assert_eq!(store.next_id(), 2);
}

#[test]
fn seeded_store_numbers_files_in_order() {
    let mut store = FeedStore::new(vec![String::from("a.txt"), String::from("b.txt")]);
    let all = store.snapshot();
    assert_eq!(all.len(), 2);
    assert_eq!((all[0].id, all[0].msg_type, all[0].text.as_str()), (1, MsgType::File, "a.txt"));
    assert_eq!((all[1].id, all[1].msg_type, all[1].text.as_str()), (2, MsgType::File, "b.txt"));
    let next = store.append(MsgType::Text, String::from("hi")).unwrap();
    assert_eq!(next.id, 3);
}

#[test]
fn appended_ids_grow_by_one() {
    let mut store = FeedStore::new(Vec::new());
    let mut last = 0;
    for i in 0..20 {
        let m = store.append(MsgType::Text, format!("m{}", i)).unwrap();
        assert!(m.id > last);
        assert_eq!(m.id, i + 1);
        assert_eq!(m.msg_type, MsgType::Text);
        assert_eq!(m.text, format!("m{}", i));
        last = m.id;
    }
    let all = store.snapshot();
    for w in all.windows(2) {
        assert!(w[0].id < w[1].id);
    }
}

#[test]
fn twenty_first_entry_is_turned_away_and_takes_no_id() {
    let mut store = FeedStore::new(Vec::new());
    for _ in 0..20 {
        assert!(store.append(MsgType::Text, String::from("x")).is_some());
    }
    assert!(store.is_full());
    assert_eq!(store.len(), 20);
    for _ in 0..5 {
        assert!(store.append(MsgType::Text, String::from("late")).is_none());
        assert!(store.append(MsgType::File, String::from("late.bin")).is_none());
    }
    assert_eq!(store.len(), 20);
    assert!(store.find_by_id(21).is_none());
    assert!(store.remove(7));
    let m = store.append(MsgType::Text, String::from("after")).unwrap();
    assert_eq!(m.id, 21);
    assert_eq!(store.len(), 20);
}

#[test]
fn seeding_more_than_capacity_keeps_every_file_and_takes_no_more() {
    let names: Vec<String> = (0..23).map(|i| format!("f{}", i)).collect();
    let mut store = FeedStore::new(names);
    assert_eq!(store.len(), 23);
    assert!(store.is_full());
    assert!(store.append(MsgType::Text, String::from("x")).is_none());
    assert_eq!(store.len(), 23);
}

#[test]
fn find_by_id_gives_a_copy_of_the_entry() {
    let mut store = FeedStore::new(vec![String::from("a.txt")]);
    store.append(MsgType::Text, String::from("hello"));
    let m = store.find_by_id(2).unwrap();
    assert_eq!((m.id, m.msg_type, m.text.as_str()), (2, MsgType::Text, "hello"));
    let f = store.find_by_id(1).unwrap();
    assert_eq!((f.id, f.msg_type, f.text.as_str()), (1, MsgType::File, "a.txt"));
    assert!(store.find_by_id(3).is_none());
    assert!(store.find_by_id(0).is_none());
    assert!(store.find_by_id(-1).is_none());
}

#[test]
fn remove_drops_one_entry_and_never_reuses_its_id() {
    let mut store = FeedStore::new(Vec::new());
    for t in ["a", "b", "c"] {
        store.append(MsgType::Text, String::from(t));
    }
    assert!(store.remove(2));
    assert!(!store.remove(2));
    assert!(!store.remove(99));
    let all = store.snapshot();
    assert_eq!(all.len(), 2);
    assert_eq!((all[0].id, all[0].text.as_str()), (1, "a"));
    assert_eq!((all[1].id, all[1].text.as_str()), (3, "c"));
    assert!(store.find_by_id(2).is_none());
    assert_eq!(store.append(MsgType::Text, String::from("d")).unwrap().id, 4);
}

#[test]
fn snapshot_is_a_copy() {
    let mut store = FeedStore::new(vec![String::from("a")]);
    let before = store.snapshot();
    store.append(MsgType::Text, String::from("b"));
    assert_eq!(before.len(), 1);
    assert_eq!(store.snapshot().len(), 2);
}

#[test]
fn upload_of_fifty_mebibytes_is_allowed_and_one_more_byte_is_not() {
    let store = FeedStore::new(Vec::new());
    assert!(size_allowed(50 * 1024 * 1024));
    assert!(!size_allowed(50 * 1024 * 1024 + 1));
    assert!(size_allowed(0));
    assert_eq!(store.admit_upload("big.bin", 50 * 1024 * 1024), Ok(()));
    assert_eq!(
        store.admit_upload("big.bin", 50 * 1024 * 1024 + 1),
        Err(IngestError::TooLarge)
    );
}

#[test]
fn names_that_leave_the_directory_are_refused() {
    for bad in ["", ".", "..", "a/b", "/etc/passwd", "../x", "a\\b", "nul\0byte", "dir/"] {
        assert!(!is_safe_name(bad), "{:?}", bad);
    }
    for good in ["a.txt", "..hidden", "...", ".profile", "a b.txt", "é.png", "x..y"] {
        assert!(is_safe_name(good), "{:?}", good);
    }
    let store = FeedStore::new(Vec::new());
    assert_eq!(store.admit_upload("../x", 1), Err(IngestError::UnsafeName));
}

#[test]
fn full_feed_is_named_before_size_and_name() {
    let names: Vec<String> = (0..20).map(|i| format!("f{}", i)).collect();
    let store = FeedStore::new(names);
    assert_eq!(store.admit_upload("ok.txt", 1), Err(IngestError::FeedFull));
    assert_eq!(
        store.admit_upload("../x", 50 * 1024 * 1024 + 1),
        Err(IngestError::FeedFull)
    );
    let roomy = FeedStore::new(Vec::new());
    assert_eq!(
        roomy.admit_upload("../x", 50 * 1024 * 1024 + 1),
        Err(IngestError::TooLarge)
    );
}

#[test]
fn stored_upload_becomes_a_file_entry() {
    let mut store = FeedStore::new(vec![String::from("old.txt")]);
    let m = store.complete_upload(String::from("new.bin"), true).unwrap();
    assert_eq!((m.id, m.msg_type, m.text.as_str()), (2, MsgType::File, "new.bin"));
    assert_eq!(store.len(), 2);
}

#[test]
fn failed_upload_leaves_the_feed_alone() {
    let mut store = FeedStore::new(vec![String::from("old.txt")]);
    assert_eq!(
        store.complete_upload(String::from("new.bin"), false).err(),
        Some(IngestError::Storage)
    );
    assert_eq!(store.len(), 1);
    assert_eq!(store.append(MsgType::Text, String::from("x")).unwrap().id, 2);
}

#[test]
fn ids_stay_unique_when_draws_and_entries_mix() {
    let mut store = FeedStore::new(vec![String::from("a")]);
    let mut seen = vec![1];
    seen.push(store.next_id());
    seen.push(store.append(MsgType::Text, String::from("x")).unwrap().id);
    seen.push(store.next_id());
    assert!(store.remove(1));
    seen.push(store.append(MsgType::File, String::from("y")).unwrap().id);
    assert_eq!(seen, vec![1, 2, 3, 4, 5]);
}

#[test]
fn upload_settled_on_a_full_feed_is_turned_away() {
    let names: Vec<String> = (0..20).map(|i| format!("f{}", i)).collect();
    let mut store = FeedStore::new(names);
    assert_eq!(
        store.complete_upload(String::from("late.bin"), true).err(),
        Some(IngestError::FeedFull)
    );
    assert_eq!(store.len(), 20);
}
