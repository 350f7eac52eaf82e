use music_player::app::audio_player::PlayerCommand;
use music_player::app::library::{FolderEntry, TrackEntry};
use music_player::app::{App, BorderColor, SelectionError};
use music_player::list_state::ListState;

fn file(dir: &str, name: &str) -> TrackEntry {
    TrackEntry { path: format!("./music/{}/{}", dir, name), is_file: true, tag: None }
}

fn music() -> Vec<FolderEntry> {
    vec![
        FolderEntry {
            name: "one".to_string(),
            is_dir: true,
            entries: vec![
                file("one", "a.mp3"),
                file("one", "b.wav"),
                TrackEntry { path: "./music/one/sub".to_string(), is_file: false, tag: None },
            ],
        },
        FolderEntry { name: "loose.mp3".to_string(), is_dir: false, entries: vec![] },
        FolderEntry { name: "two".to_string(), is_dir: true, entries: vec![file("two", "c.mp3")] },
    ]
}

fn is_load(c: &PlayerCommand, path: &str) -> bool {
    matches!(c, PlayerCommand::Load(p) if p == path)
}

#[test]
fn new_reads_directories_with_all_their_files() {
    let app = App::new(&music());
    assert_eq!(app.album_names(), vec!["one".to_string(), "two".to_string()]);
    assert_eq!(app.selected_album_tracks(), &vec!["./music/one/a.mp3".to_string(), "./music/one/b.wav".to_string()]);
    assert_eq!(app.albums_list_state().selected(), Some(0));
    assert_eq!(app.track_list_state().selected(), Some(0));
    assert!(!app.tracks_selected());
    assert_eq!(app.current_track(), None);
}

#[test]
fn next_in_albums_pane_selects_next_album_first_track() {
    let mut app = App::new(&music());
    assert_eq!(app.check_next(), Ok(()));
    app.next();
    assert_eq!(app.albums_list_state().selected(), Some(1));
    assert_eq!(app.track_list_state().selected(), Some(0));
    assert_eq!(app.current_track(), Some("./music/two/c.mp3".to_string()));
}

#[test]
fn next_past_last_album_is_reported() {
    let mut app = App::new(&music());
    app.next();
    assert_eq!(app.check_next(), Err(SelectionError::AlbumNotFound));
}

#[test]
fn next_past_last_track_is_reported() {
    let mut app = App::new(&music());
    app.focus_tracks();
    assert!(app.tracks_selected());
    app.next();
    assert_eq!(app.current_track(), Some("./music/one/b.wav".to_string()));
    assert_eq!(app.check_next(), Err(SelectionError::TrackNotFound));
}

#[test]
fn cleared_selection_is_reported() {
    let mut app = App::new(&vec![]);
    let albums = app.albums_list_state().with_selected(None);
    let tracks = app.track_list_state();
    app.set_list_states(albums, tracks);
    assert_eq!(app.albums_list_state().selected(), None);
    app.focus_tracks();
    assert_eq!(app.check_next(), Err(SelectionError::NoSelection));
    app.focus_albums();
    assert_eq!(app.check_next(), Err(SelectionError::AlbumNotFound));
}

#[test]
fn previous_at_first_track_stays() {
    let mut app = App::new(&music());
    app.focus_tracks();
    assert_eq!(app.check_previous(), Ok(()));
    app.previous();
    assert_eq!(app.track_list_state().selected(), Some(0));
    assert_eq!(app.current_track(), Some("./music/one/a.mp3".to_string()));
}

#[test]
fn down_then_up_in_tracks_returns() {
    let mut app = App::new(&music());
    app.focus_tracks();
    app.next();
    app.previous();
    assert_eq!(app.track_list_state().selected(), Some(0));
    assert_eq!(app.current_track(), Some("./music/one/a.mp3".to_string()));
}

#[test]
fn down_then_up_in_albums_returns_to_first_track() {
    let mut app = App::new(&music());
    app.focus_tracks();
    app.next();
    app.focus_albums();
    app.next();
    app.previous();
    assert_eq!(app.albums_list_state().selected(), Some(0));
    assert_eq!(app.track_list_state().selected(), Some(0));
    assert_eq!(app.current_track(), Some("./music/one/a.mp3".to_string()));
}

#[test]
fn play_before_choosing_a_track_cannot_be_done() {
    let app = App::new(&music());
    assert!(!app.check_play());
}

#[test]
fn play_twice_loads_then_toggles() {
    let mut app = App::new(&music());
    app.focus_tracks();
    app.previous();
    assert!(app.check_play());
    assert!(is_load(&app.play(false), "./music/one/a.mp3"));
    assert!(matches!(app.play(false), PlayerCommand::Pause));
    assert!(matches!(app.play(true), PlayerCommand::Resume));
}

#[test]
fn play_after_moving_loads_the_new_track() {
    let mut app = App::new(&music());
    app.focus_tracks();
    app.previous();
    app.play(false);
    app.next();
    assert!(is_load(&app.play(false), "./music/one/b.wav"));
}

#[test]
fn list_states_are_taken_over() {
    let mut app = App::new(&music());
    app.set_list_states(ListState::default().with_offset(1).with_selected(Some(1)), ListState::default());
    assert_eq!(app.albums_list_state().offset(), 1);
    assert_eq!(app.albums_list_state().selected(), Some(1));
    assert_eq!(app.track_list_state().selected(), None);
}

#[test]
fn track_names_are_the_file_names_of_the_paths() {
    let app = App::new(&music());
    assert_eq!(app.selected_track_names(), vec!["a.mp3".to_string(), "b.wav".to_string()]);
    assert_eq!(app.try_selected_track_names(), Some(vec!["a.mp3".to_string(), "b.wav".to_string()]));
}

#[test]
fn a_track_path_without_file_name_gives_no_names() {
    let music = vec![FolderEntry {
        name: "odd".to_string(),
        is_dir: true,
        entries: vec![TrackEntry { path: "./music/odd/..".to_string(), is_file: true, tag: None }],
    }];
    let app = App::new(&music);
    assert_eq!(app.try_selected_track_names(), None);
}

#[test]
fn focused_pane_has_white_border() {
    let mut app = App::new(&music());
    assert_eq!(app.albums_border(), BorderColor::White);
    assert_eq!(app.tracks_border(), BorderColor::LightBlue);
    app.focus_tracks();
    assert_eq!(app.albums_border(), BorderColor::LightBlue);
    assert_eq!(app.tracks_border(), BorderColor::White);
}
