use dfs_node::hashlib::{cas_path_of_digest, cas_path_transform, filename_transform, get_file_hash};
use dfs_node::store::{Store, StoreError, StoreOpts};

fn same(s: String) -> String {
    s
}

// Each test names its own root directory.
fn plain_store(root: &str) -> Store<fn(String) -> String> {
    Store::new(StoreOpts { filename_transform: same as fn(String) -> String, root_dir: root.to_string() })
}

#[test]
fn test_cas_path_transform() {
    let key = String::from("test");
    let actual_pathname = cas_path_transform(key);
    let expected_pathname = "a94a8/fe5cc/b19ba/61c4c/0873d/391e9/87982/fbbd3".to_string();
    assert_eq!(actual_pathname, expected_pathname);
}

#[test]
fn test_get_file_hash() {
    let buf = vec![1, 2, 3, 4];
    let actual_hash = get_file_hash(&buf);
    println!("actual_hash: {}", actual_hash);
    let expected_hash = "08d6c05a21512a79a1dfeb9d2a8f262f".to_string();
    assert_eq!(actual_hash, expected_hash);
}

#[test]
fn test_store_write_stream() {
    let mut store = Store::new(StoreOpts { filename_transform: |s: String| s, root_dir: "test_store".to_string() });
    let key = String::from("test");
    let r = vec![1, 2, 3, 4];
    let res = store.write(key, &r);
    assert_eq!(res.is_ok(), true);
}

#[test]
fn test_store_write_stream_with_path_transform() {
    let mut store = Store::new(StoreOpts { filename_transform: filename_transform, root_dir: "test_store".to_string() });
    let key = String::from("test");
    let r = vec![1, 2, 3, 4];
    let res = store.write(key, &r);
    assert_eq!(res.is_ok(), true);
}

#[test]
fn test_store_read_stream() {
    let mut store = Store::new(StoreOpts { filename_transform: |s: String| s, root_dir: "test_store".to_string() });
    let key = String::from("test");
    let r = vec![1, 2, 3, 4];
    store.write(key.clone(), &r).unwrap();
    let res = store.read(key).unwrap();
    let expected_res = vec![1, 2, 3, 4];

    assert_eq!(res, expected_res);
}

#[test]
fn test_store_read_unmatched_content() {
    let mut store = Store::new(StoreOpts { filename_transform: |s: String| s, root_dir: "test_store".to_string() });
    let key = String::from("test");
    let r: Vec<u8> = vec![];
    store.write(key.clone(), &r).unwrap();
    let res = store.read(key).unwrap();

    assert_ne!(res, vec![1, 2, 3, 4]);
}

#[test]
fn test_store_file_not_found() {
    let store = Store::new(StoreOpts { filename_transform: |s: String| s, root_dir: "test_store".to_string() });
    let key = String::from("some_non_existent_file_key");
    let res = store.read(key);

    assert_eq!(res.is_err(), true);
    assert!(res.unwrap_err() == StoreError::NotFound);
}

#[test]
fn test_delete_file() {
    let mut store = Store::new(StoreOpts { filename_transform: |s: String| s, root_dir: "test_store".to_string() });
    let key = String::from("file_to_be_deleted");
    let r = vec![1, 2, 3, 4];
    store.write(key.clone(), &r).unwrap();
    let res = store.delete(key).unwrap();

    assert_eq!(res, ());
}

#[test]
fn test_delete_non_existent_file() {
    let mut store = Store::new(StoreOpts { filename_transform: |s: String| s, root_dir: "test_store".to_string() });
    let key = String::from("non_existent_file");
    let res = store.delete(key);

    assert_eq!(res.is_err(), true);
    assert!(res.unwrap_err() == StoreError::NotFound);
}

#[test]
fn test_clear_store() {
    let mut store = Store::new(StoreOpts { filename_transform: |s: String| s, root_dir: "test_store".to_string() });
    let key = String::from("file_to_be_deleted");
    let r = vec![1, 2, 3, 4];
    store.write(key.clone(), &r).unwrap();
    let res = store.clear().unwrap();

    assert_eq!(res, ());
}

#[test]
fn filename_transform_is_hex_sha1() {
    assert_eq!(filename_transform("test".to_string()), "a94a8fe5ccb19ba61c4c0873d391e987982fbbd3");
    assert_eq!(filename_transform(String::new()), "da39a3ee5e6b4b0d3255bfef95601890afd80709");
    assert_eq!(filename_transform("test".to_string()).len(), 40);
}

#[test]
fn content_hash_of_nothing() {
    assert_eq!(get_file_hash(&[]), "d41d8cd98f00b204e9800998ecf8427e");
}

#[test]
fn cas_path_cuts_full_segments_only() {
    assert_eq!(cas_path_of_digest(""), "");
    assert_eq!(cas_path_of_digest("abcd"), "");
    assert_eq!(cas_path_of_digest("abcde"), "abcde");
    assert_eq!(cas_path_of_digest("abcdefghij"), "abcde/fghij");
    assert_eq!(cas_path_of_digest("abcdefghijkl"), "abcde/fghij");
    assert_eq!(cas_path_transform("test".to_string()).len(), 47);
}

#[test]
fn read_gives_what_was_written() {
    let mut store = plain_store("law_store_1");
    store.write("k".to_string(), &[9, 8, 7]).unwrap();
    assert_eq!(store.read("k".to_string()), Ok(vec![9, 8, 7]));
    assert_eq!(store.read_stream("k".to_string()), Ok(&vec![9, 8, 7]));
    assert_eq!(store.read("other".to_string()), Err(StoreError::NotFound));
    assert_eq!(store.read_stream("other".to_string()), Err(StoreError::NotFound));
}

#[test]
fn last_writer_wins() {
    let mut store = plain_store("law_store_2");
    store.write("k".to_string(), &[1]).unwrap();
    store.write("j".to_string(), &[5, 5]).unwrap();
    store.write("k".to_string(), &[2, 3]).unwrap();
    assert_eq!(store.read("k".to_string()), Ok(vec![2, 3]));
    assert_eq!(store.read("j".to_string()), Ok(vec![5, 5]));
}

#[test]
fn colliding_keys_overwrite() {
    let mut store = Store::new(StoreOpts { filename_transform: |_s: String| "same".to_string(), root_dir: "law_store_3".to_string() });
    store.write("a".to_string(), &[1]).unwrap();
    store.write("b".to_string(), &[2]).unwrap();
    assert_eq!(store.read("a".to_string()), Ok(vec![2]));
    assert_eq!(store.fullpath("a".to_string()), "law_store_3/same");
}

#[test]
fn empty_blob_is_kept() {
    let mut store = plain_store("law_store_4");
    assert!(store.write("empty".to_string(), &[]).is_ok());
    assert_eq!(store.read("empty".to_string()), Ok(vec![]));
}

#[test]
fn delete_removes_and_then_fails() {
    let mut store = plain_store("law_store_5");
    store.write("k".to_string(), &[1]).unwrap();
    store.write("j".to_string(), &[2]).unwrap();
    assert_eq!(store.delete("k".to_string()), Ok(()));
    assert_eq!(store.read("k".to_string()), Err(StoreError::NotFound));
    assert_eq!(store.read("j".to_string()), Ok(vec![2]));
    assert_eq!(store.delete("k".to_string()), Err(StoreError::NotFound));
}

#[test]
fn clear_removes_the_root() {
    let mut store = plain_store("law_store_6");
    assert_eq!(store.clear(), Err(StoreError::NotFound));
    store.write("k".to_string(), &[1]).unwrap();
    assert_eq!(store.clear(), Ok(()));
    assert_eq!(store.read("k".to_string()), Err(StoreError::NotFound));
    assert_eq!(store.clear(), Err(StoreError::NotFound));
    store.write("k".to_string(), &[4]).unwrap();
    assert_eq!(store.read("k".to_string()), Ok(vec![4]));
}

#[test]
fn fullpath_joins_root_and_transform() {
    let store = plain_store("storage/127.0.0.1:3000");
    assert_eq!(store.fullpath("k1".to_string()), "storage/127.0.0.1:3000/k1");
    let hashed = Store::new(StoreOpts { filename_transform: filename_transform, root_dir: "root".to_string() });
    assert_eq!(hashed.fullpath("test".to_string()), "root/a94a8fe5ccb19ba61c4c0873d391e987982fbbd3");
    let sharded = Store::new(StoreOpts { filename_transform: cas_path_transform, root_dir: "root".to_string() });
    assert_eq!(sharded.fullpath("test".to_string()), "root/a94a8/fe5cc/b19ba/61c4c/0873d/391e9/87982/fbbd3");
}
