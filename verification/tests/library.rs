use music_player::app::library::{is_audio, is_audio_path, FolderEntry, Library, SongLookupError, TrackEntry, TrackTag};

fn tagged(file: &str, artist: &str, album: &str, title: &str) -> TrackEntry {
    TrackEntry {
        path: format!("./music/{}", file),
        is_file: true,
        tag: Some(TrackTag { artist: artist.to_string(), album: album.to_string(), title: title.to_string() }),
    }
}

fn plain(file: &str, is_file: bool) -> TrackEntry {
    TrackEntry { path: format!("./music/{}", file), is_file, tag: None }
}

fn dir(name: &str, entries: Vec<TrackEntry>) -> FolderEntry {
    FolderEntry { name: name.to_string(), is_dir: true, entries }
}

fn sample_music() -> Vec<FolderEntry> {
    vec![
        dir(
            "first",
            vec![
                tagged("a1.mp3", "Alice", "Blue", "One"),
                tagged("a2.mp3", "Alice", "Blue", "Two"),
                plain("cover.jpg", true),
                plain("bonus.mp3", true),
                tagged("a3.mp3", "Bob", "Red", "Three"),
                tagged("a4.mp3", "Bob", "Red", "Four"),
            ],
        ),
        FolderEntry { name: "readme.txt".to_string(), is_dir: false, entries: vec![tagged("x.mp3", "Zed", "Nowhere", "X")] },
        dir("second", vec![tagged("b1.mp3", "Alice", "Green", "Five"), tagged("b2.mp3", "Alice", "Green", "Six")]),
    ]
}

fn names(v: &[music_player::app::library::Artist]) -> Vec<String> {
    v.iter().map(|a| a.name.clone()).collect()
}

#[test]
fn new_library_is_empty() {
    let lib = Library::new();
    assert!(lib.get_artists().is_empty());
    assert!(lib.get_albums().is_empty());
}

#[test]
fn audio_files_are_mp3_by_extension() {
    assert!(is_audio("a.mp3"));
    assert!(is_audio("x.tar.mp3"));
    assert!(is_audio("..mp3"));
    assert!(!is_audio(".mp3"));
    assert!(!is_audio("mp3"));
    assert!(!is_audio("a.MP3"));
    assert!(!is_audio("a.mp3.bak"));
    assert!(!is_audio("a.mp4"));
    assert!(!is_audio(""));
    assert!(!is_audio(".."));
}

#[test]
fn load_registers_artists_in_order_once() {
    let mut lib = Library::new();
    lib.load(&sample_music());
    assert_eq!(names(lib.get_artists()), vec!["Alice".to_string(), "Bob".to_string()]);
}

#[test]
fn first_track_of_an_album_creates_it_empty() {
    let mut lib = Library::new();
    lib.load(&sample_music());
    let albums = lib.get_albums();
    let titles: Vec<&str> = albums.iter().map(|a| a.title.as_str()).collect();
    assert_eq!(titles, vec!["Blue", "Red", "Green"]);
    let songs: Vec<&str> = albums[0].songs.iter().map(|s| s.title.as_str()).collect();
    assert_eq!(songs, vec!["Two"]);
    assert_eq!(albums[0].songs[0].path, "./music/a2.mp3");
    assert_eq!(albums[1].songs.len(), 1);
    assert_eq!(albums[1].songs[0].title, "Four");
}

#[test]
fn new_album_of_known_artist_is_filed_under_other() {
    let mut lib = Library::new();
    lib.load(&sample_music());
    let albums = lib.get_albums();
    assert_eq!(albums[0].artist_ref.name, "Alice");
    assert_eq!(albums[1].artist_ref.name, "Bob");
    assert_eq!(albums[2].artist_ref.name, "Other");
}

#[test]
fn entries_that_are_not_directories_are_skipped() {
    let mut lib = Library::new();
    lib.load(&sample_music());
    assert!(lib.get_artists().iter().all(|a| a.name != "Zed"));
    assert!(lib.get_albums().iter().all(|a| a.title != "Nowhere"));
}

#[test]
fn get_songs_returns_the_album_songs() {
    let mut lib = Library::new();
    lib.load(&sample_music());
    let songs = lib.get_songs(2);
    let titles: Vec<&str> = songs.iter().map(|s| s.title.as_str()).collect();
    assert_eq!(titles, vec!["Six"]);
    assert_eq!(songs[0].path, "./music/b2.mp3");
}

#[test]
fn get_song_counts_albums_of_the_artist() {
    let mut lib = Library::new();
    lib.load(&sample_music());
    let song = lib.get_song("Alice".to_string(), 0, 0);
    assert_eq!(song.title, "Two");
    let song = lib.get_song("Other".to_string(), 0, 0);
    assert_eq!(song.title, "Six");
    let song = lib.get_song("Bob".to_string(), 0, 0);
    assert_eq!(song.title, "Four");
}

#[test]
fn check_song_reports_missing_album_and_song() {
    let mut lib = Library::new();
    lib.load(&sample_music());
    assert_eq!(lib.check_song(&"Alice".to_string(), 0, 0), Ok(()));
    assert_eq!(lib.check_song(&"Alice".to_string(), 1, 0), Err(SongLookupError::AlbumNotFound));
    assert_eq!(lib.check_song(&"Nobody".to_string(), 0, 0), Err(SongLookupError::AlbumNotFound));
    assert_eq!(lib.check_song(&"Alice".to_string(), 0, 1), Err(SongLookupError::SongNotFound));
}

#[test]
fn loading_twice_appends_to_existing_albums() {
    let mut lib = Library::new();
    lib.load(&sample_music());
    lib.load(&vec![dir("again", vec![tagged("c.mp3", "Carol", "Blue", "Seven")])]);
    assert_eq!(names(lib.get_artists()), vec!["Alice".to_string(), "Bob".to_string(), "Carol".to_string()]);
    let albums = lib.get_albums();
    assert_eq!(albums.len(), 3);
    let songs: Vec<&str> = albums[0].songs.iter().map(|s| s.title.as_str()).collect();
    assert_eq!(songs, vec!["Two", "Seven"]);
}

#[test]
fn audio_paths_are_judged_by_their_last_component() {
    assert!(is_audio_path("./music/a.mp3"));
    assert!(is_audio_path("/m/x.tar.mp3"));
    assert!(is_audio_path("./music/dir.mp3/"));
    assert!(!is_audio_path("./music.mp3/cover.jpg"));
    assert!(!is_audio_path("./music/.mp3"));
    assert!(!is_audio_path("./music/.."));
    assert!(!is_audio_path("/"));
}

#[test]
fn tagged_file_without_mp3_extension_is_not_registered() {
    let mut lib = Library::new();
    lib.load(&vec![dir("d", vec![tagged("a.ogg", "Ann", "Odd", "s"), tagged("b.mp3", "Ben", "Even", "t")])]);
    assert_eq!(names(lib.get_artists()), vec!["Ben".to_string()]);
    assert_eq!(lib.get_albums().len(), 1);
    assert_eq!(lib.get_albums()[0].title, "Even");
}

#[test]
fn entries_that_are_not_audio_files_change_nothing() {
    let mut plain_lib = Library::new();
    plain_lib.load(&vec![dir("d", vec![tagged("1.mp3", "A", "X", "one"), tagged("2.mp3", "A", "X", "two")])]);
    let mut noisy_lib = Library::new();
    noisy_lib.load(&vec![dir(
        "d",
        vec![
            plain("sub", false),
            tagged("1.mp3", "A", "X", "one"),
            tagged("cover.jpg", "Z", "Y", "pic"),
            plain("notes.txt", true),
            tagged("2.mp3", "A", "X", "two"),
            plain("deeper.mp3", false),
        ],
    )]);
    assert_eq!(names(plain_lib.get_artists()), names(noisy_lib.get_artists()));
    let t1: Vec<(String, Vec<String>)> =
        plain_lib.get_albums().iter().map(|a| (a.title.clone(), a.songs.iter().map(|s| s.path.clone()).collect())).collect();
    let t2: Vec<(String, Vec<String>)> =
        noisy_lib.get_albums().iter().map(|a| (a.title.clone(), a.songs.iter().map(|s| s.path.clone()).collect())).collect();
    assert_eq!(t1, t2);
}

#[test]
fn new_album_titles_are_appended_in_order_of_first_appearance() {
    let mut lib = Library::new();
    lib.load(&vec![dir("d", vec![tagged("1.mp3", "A", "X", "one")])]);
    lib.load(&vec![dir(
        "e",
        vec![
                tagged("2.mp3", "B", "Z", "two"),
                tagged("3.mp3", "B", "X", "three"),
                tagged("4.mp3", "C", "Y", "four"),
                tagged("5.mp3", "C", "Z", "five"),
            ],
    )]);
    let titles: Vec<&str> = lib.get_albums().iter().map(|a| a.title.as_str()).collect();
    assert_eq!(titles, vec!["X", "Z", "Y"]);
    let x: Vec<&str> = lib.get_albums()[0].songs.iter().map(|s| s.title.as_str()).collect();
    assert_eq!(x, vec!["three"]);
}
