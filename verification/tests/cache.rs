use bad_apple::cache::{
    audio_path, cache_key, cache_root, cache_root_in, entry_dir, entry_dir_in, frames_path,
    last_cache_entry, last_pointer_path, meta_path, video_path,
};
use std::collections::hash_map::DefaultHasher;
use std::hash::{Hash, Hasher};
use std::path::PathBuf;

#[test]
fn keys_are_hashes_in_hexadecimal() {
    for source in ["", "file.mp4", "https://youtube.com/watch?v=x", "뿔"] {
        let mut h = DefaultHasher::new();
        source.hash(&mut h);
        assert_eq!(cache_key(source), format!("{:016x}", h.finish()));
    }
    assert_ne!(cache_key("a"), cache_key("b"));
}

#[test]
fn root_is_below_the_cache_directory() {
    assert_eq!(
        cache_root_in(Some(PathBuf::from("/home/alice/.cache"))),
        PathBuf::from("/home/alice/.cache/bad-apple")
    );
    assert_eq!(cache_root_in(None), PathBuf::from(".cache").join("bad-apple"));
    assert_eq!(cache_root(), cache_root_in(dirs::cache_dir()));
}

#[test]
fn entries_are_below_the_root() {
    let root = PathBuf::from("/cache/bad-apple");
    assert_eq!(entry_dir_in(&root, "file.mp4"), root.join(cache_key("file.mp4")));
    assert_eq!(entry_dir("file.mp4"), cache_root().join(cache_key("file.mp4")));
}

#[test]
fn files_of_an_entry() {
    let entry = PathBuf::from("/cache/bad-apple/0123456789abcdef");
    assert_eq!(frames_path(&entry), entry.join("frames.bin"));
    assert_eq!(audio_path(&entry), entry.join("audio.mp3"));
    assert_eq!(meta_path(&entry), entry.join("meta.txt"));
    assert_eq!(video_path(&entry), entry.join("video.mp4"));
    assert_eq!(last_pointer_path(&entry), entry.join("last"));
}

#[test]
fn last_entry_is_that_of_the_last_source() {
    let root = PathBuf::from("/cache/bad-apple");
    let pointer = cache_key("file.mp4");
    assert_eq!(last_cache_entry(&root, &pointer), entry_dir_in(&root, "file.mp4"));
    assert_eq!(last_cache_entry(&root, " abc\n"), root.join("abc"));
    for blank in ["", " \n"] {
        assert!(last_cache_entry(&root, blank).components().eq(root.components()));
    }
    assert_eq!(last_cache_entry(&root, "/elsewhere"), PathBuf::from("/elsewhere"));
}
