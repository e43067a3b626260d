use mp3_tui::listing::{compare_le, list_folder, sort_entries, FileEntry};

fn entry(name: &str, folder: &str, is_dir: bool) -> FileEntry {
    FileEntry { name: name.to_string(), path: format!("{}/{}", folder, name), is_dir }
}

fn names(entries: &[FileEntry]) -> Vec<String> {
    entries.iter().map(|e| e.name.clone()).collect()
}

#[test]
fn byte_strings_in_order() {
    assert!(compare_le(b"", b""));
    assert!(compare_le(b"", b"a"));
    assert!(!compare_le(b"a", b""));
    assert!(compare_le(b"a", b"a"));
    assert!(compare_le(b"a", b"ab"));
    assert!(!compare_le(b"ab", b"a"));
    assert!(compare_le(b"ab", b"b"));
    assert!(!compare_le(b"b", b"ab"));
    assert!(compare_le(&[1, 2, 3], &[1, 2, 4]));
    assert!(!compare_le(&[1, 2, 4], &[1, 2, 3]));
    assert!(compare_le(&[127], &[128]));
}

#[test]
fn directories_stand_before_files() {
    let found = vec![
        entry("a.mp3", "/m", false),
        entry("zeta", "/m", true),
        entry("b.mp3", "/m", false),
        entry("alpha", "/m", true),
    ];
    assert_eq!(names(&sort_entries(&found)), vec!["alpha", "zeta", "a.mp3", "b.mp3"]);
}

#[test]
fn names_are_ordered_without_regard_to_case() {
    let found = vec![
        entry("b.mp3", "/m", false),
        entry("C.mp3", "/m", false),
        entry("a.mp3", "/m", false),
        entry("B.wav", "/m", false),
    ];
    assert_eq!(names(&sort_entries(&found)), vec!["a.mp3", "b.mp3", "B.wav", "C.mp3"]);
}

#[test]
fn names_beyond_ascii_are_ordered_in_lower_case() {
    let found = vec![entry("É.mp3", "/m", false), entry("é.flac", "/m", false), entry("z.mp3", "/m", false)];
    assert_eq!(names(&sort_entries(&found)), vec!["z.mp3", "é.flac", "É.mp3"]);
}

#[test]
fn equal_names_keep_the_order_they_were_found_in() {
    let first = FileEntry { name: "Song.mp3".to_string(), path: "/m/1/Song.mp3".to_string(), is_dir: false };
    let second = FileEntry { name: "song.MP3".to_string(), path: "/m/2/song.MP3".to_string(), is_dir: false };
    let third = FileEntry { name: "SONG.mp3".to_string(), path: "/m/3/SONG.mp3".to_string(), is_dir: false };
    let sorted = sort_entries(&vec![first.clone(), second.clone(), third.clone()]);
    assert_eq!(sorted, vec![first.clone(), second.clone(), third.clone()]);
    let sorted = sort_entries(&vec![third.clone(), first.clone(), second.clone()]);
    assert_eq!(sorted, vec![third, first, second]);
}

#[test]
fn hidden_directories_and_other_files_are_left_out() {
    let found = vec![
        entry(".git", "/m", true),
        entry("notes.txt", "/m", false),
        entry("song.mp3", "/m", false),
        entry("albums", "/m", true),
        entry("cover.png", "/m", false),
    ];
    assert_eq!(names(&sort_entries(&found)), vec!["albums", "song.mp3"]);
}

#[test]
fn a_directory_named_like_an_audio_file_is_shown_even_if_hidden() {
    let found = vec![entry(".live.mp3", "/m", true), entry(".cache", "/m", true)];
    let sorted = sort_entries(&found);
    assert_eq!(names(&sorted), vec![".live.mp3"]);
    assert!(sorted[0].is_dir);
}

#[test]
fn sorting_keeps_every_shown_entry() {
    let found = vec![
        entry("b.mp3", "/m", false),
        entry("b.mp3", "/m", false),
        entry("a", "/m", true),
    ];
    let sorted = sort_entries(&found);
    assert_eq!(sorted.len(), 3);
    assert_eq!(names(&sorted), vec!["a", "b.mp3", "b.mp3"]);
    assert!(sort_entries(&Vec::new()).is_empty());
}

#[test]
fn the_parent_entry_stands_first() {
    let found = vec![entry("!first", "/music/rock", true), entry("a.mp3", "/music/rock", false)];
    let entries = list_folder("/music/rock", &found);
    assert_eq!(names(&entries), vec!["..", "!first", "a.mp3"]);
    assert_eq!(entries[0].path, "/music");
    assert!(entries[0].is_dir);
}

#[test]
fn the_root_has_no_parent_entry() {
    let found = vec![entry("music", "", true)];
    let entries = list_folder("/", &found);
    assert_eq!(names(&entries), vec!["music"]);
    assert!(list_folder("/", &Vec::new()).is_empty());
}

#[test]
fn an_empty_folder_lists_only_its_parent() {
    let entries = list_folder("/music/empty", &Vec::new());
    assert_eq!(names(&entries), vec![".."]);
    assert_eq!(entries[0].path, "/music");
}

#[test]
fn an_entry_knows_whether_it_is_shown() {
    assert!(entry("a.mp3", "/m", false).is_shown());
    assert!(entry("dir", "/m", true).is_shown());
    assert!(!entry(".dir", "/m", true).is_shown());
    assert!(!entry("a.txt", "/m", false).is_shown());
    let e = entry("a.mp3", "/m", false);
    assert_eq!(e.duplicate(), e);
}
