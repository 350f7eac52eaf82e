use music_player::app::app::{App, LayoutState, LookupError};
use music_player::app::BorderColor;
use music_player::app::audio_player::{AudioPlayer, PlayerCommand};
use music_player::app::library::{FolderEntry, Library, TrackEntry, TrackTag};

fn tagged(file: &str, artist: &str, album: &str, title: &str) -> TrackEntry {
    TrackEntry {
        path: format!("/m/{}", file),
        is_file: true,
        tag: Some(TrackTag { artist: artist.to_string(), album: album.to_string(), title: title.to_string() }),
    }
}

fn library() -> Library {
    let mut lib = Library::new();
    lib.load(&vec![FolderEntry {
        name: "all".to_string(),
        is_dir: true,
        entries: vec![
            tagged("1.mp3", "Ann", "Alpha", "s1"),
            tagged("2.mp3", "Ann", "Alpha", "s2"),
            tagged("3.mp3", "Ann", "Alpha", "s3"),
            tagged("4.mp3", "Ben", "Beta", "s4"),
            tagged("5.mp3", "Ben", "Beta", "s5"),
        ],
    }]);
    lib
}

fn ready_app() -> App {
    let mut app = App::new(library());
    app.update_artists_list();
    app.update_songs_list();
    app
}

#[test]
fn new_starts_in_artists_pane_with_first_items_selected() {
    let app = App::new(library());
    assert_eq!(app.layout(), LayoutState::ARTISTS);
    let (a, b, c) = app.list_states();
    assert_eq!((a.selected(), b.selected(), c.selected()), (Some(0), Some(0), Some(0)));
    assert!(app.selected_track().is_none());
}

#[test]
fn layout_moves_right_and_left_and_stops_at_ends() {
    let mut app = App::new(library());
    app.switch_layout_to_left();
    assert_eq!(app.layout(), LayoutState::ARTISTS);
    app.switch_layout_to_right();
    assert_eq!(app.layout(), LayoutState::ALBUMS);
    app.switch_layout_to_right();
    assert_eq!(app.layout(), LayoutState::SONGS);
    app.switch_layout_to_right();
    assert_eq!(app.layout(), LayoutState::SONGS);
    app.switch_layout_to_left();
    assert_eq!(app.layout(), LayoutState::ALBUMS);
    app.switch_layout_to_left();
    assert_eq!(app.layout(), LayoutState::ARTISTS);
}

#[test]
fn artists_list_and_album_titles() {
    let app = ready_app();
    assert_eq!(app.album_titles(), vec!["Alpha".to_string()]);
}

#[test]
fn songs_list_holds_the_selected_album() {
    let app = ready_app();
    assert_eq!(app.song_titles(), vec!["s2".to_string(), "s3".to_string()]);
}

#[test]
fn next_in_songs_pane_stops_at_last_song() {
    let mut app = ready_app();
    app.switch_layout_to_right();
    app.switch_layout_to_right();
    assert_eq!(app.check_next(), Ok(()));
    app.next();
    assert_eq!(app.list_states().2.selected(), Some(1));
    assert_eq!(app.selected_track().unwrap().title, "s3");
    app.next();
    assert_eq!(app.list_states().2.selected(), Some(1));
    assert_eq!(app.selected_track().unwrap().title, "s3");
}

#[test]
fn previous_in_songs_pane_moves_up() {
    let mut app = ready_app();
    app.switch_layout_to_right();
    app.switch_layout_to_right();
    app.next();
    assert_eq!(app.check_previous(), Ok(()));
    app.previous();
    assert_eq!(app.list_states().2.selected(), Some(0));
    assert_eq!(app.selected_track().unwrap().path, "/m/2.mp3");
}

#[test]
fn lookup_failures_are_reported() {
    let mut app = App::new(library());
    assert_eq!(app.check_next(), Err(LookupError::ArtistNotFound));
    app.update_artists_list();
    app.switch_layout_to_right();
    assert_eq!(app.check_next(), Err(LookupError::AlbumNotFound));
    let (a, b, c) = app.list_states();
    app.set_list_states(a, b, c.with_selected(Some(5)));
    assert_eq!(app.check_previous(), Err(LookupError::SongNotFound));
    app.set_list_states(a, b, c.with_selected(None));
    assert_eq!(app.check_previous(), Err(LookupError::NoSelection));
    app.set_list_states(a, b.with_selected(None), c);
    assert_eq!(app.check_previous(), Err(LookupError::ArtistNotFound));
    app.set_list_states(a, b, c);
    app.switch_layout_to_right();
    assert_eq!(app.check_next(), Err(LookupError::NoSongs));
    app.set_list_states(a, b, c.with_selected(None));
    assert_eq!(app.check_next(), Err(LookupError::NoSelection));
}

#[test]
fn album_not_found_for_artist() {
    let mut lib = library();
    lib.load(&vec![FolderEntry {
        name: "more".to_string(),
        is_dir: true,
        entries: vec![tagged("6.mp3", "Cid", "Gamma", "s6")],
    }]);
    let mut app = App::new(lib);
    app.update_artists_list();
    app.switch_layout_to_right();
    let (a, b, c) = app.list_states();
    app.set_list_states(a, b.with_selected(Some(2)), c);
    assert_eq!(app.check_previous(), Err(LookupError::AlbumNotFound));
}

#[test]
fn play_loads_then_toggles() {
    let mut app = ready_app();
    assert!(!app.check_play());
    app.switch_layout_to_right();
    app.switch_layout_to_right();
    app.previous();
    assert!(app.check_play());
    assert!(matches!(app.play(false), PlayerCommand::Load(p) if p == "/m/2.mp3"));
    assert!(matches!(app.play(false), PlayerCommand::Pause));
    assert!(matches!(app.play(true), PlayerCommand::Resume));
}

#[test]
fn audio_player_toggles_only_with_a_track() {
    let mut player = AudioPlayer::new();
    assert!(player.current_track().is_none());
    assert!(matches!(player.play(false), PlayerCommand::Idle));
    let cmd = player.set_current_track(&"/m/x.mp3".to_string());
    assert!(matches!(cmd, PlayerCommand::Load(p) if p == "/m/x.mp3"));
    assert_eq!(player.current_track(), Some(&"/m/x.mp3".to_string()));
    assert!(matches!(player.play(false), PlayerCommand::Pause));
    assert!(matches!(player.play(true), PlayerCommand::Resume));
}

#[test]
fn no_albums_and_no_artist_give_no_titles() {
    let app = App::new(Library::new());
    assert_eq!(app.album_titles(), Vec::<String>::new());
}

#[test]
fn focused_layout_pane_has_white_border() {
    let mut app = App::new(library());
    assert_eq!(app.border(LayoutState::ARTISTS), BorderColor::White);
    assert_eq!(app.border(LayoutState::ALBUMS), BorderColor::LightBlue);
    app.switch_layout_to_right();
    assert_eq!(app.border(LayoutState::ARTISTS), BorderColor::LightBlue);
    assert_eq!(app.border(LayoutState::ALBUMS), BorderColor::White);
    assert_eq!(app.border(LayoutState::SONGS), BorderColor::LightBlue);
}
