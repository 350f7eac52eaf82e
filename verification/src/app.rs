//! The two-pane player: albums on the left, the tracks of the selected album
//! on the right. Its submodules hold the three-pane player built on the
//! tagged music library.

pub mod app;
pub mod audio_player;
pub mod library;

use vstd::prelude::*;
use crate::app::audio_player::{CommandView, PlayerCommand, toggle, toggle_spec};
use crate::app::library::{
    FolderEntry, FolderEntryView, FolderView, TrackEntryView, dirs_only, file_name_of, folders_view, path_file_name, strings_view,
};
use crate::list_state::{ListState, ListStateView, next_index, previous_index, select_spec};

verus! {

/// An album directory: its name and the paths of the files in it.
struct Album {
    name: String,
    tracks: Vec<String>,
}

impl View for Album {
    type V = FolderView;

    closed spec fn view(&self) -> FolderView {
        FolderView { name: self.name@, tracks: strings_view(self.tracks@) }
    }
}

spec fn album_views(s: Seq<Album>) -> Seq<FolderView> {
    s.map_values(|a: Album| a@)
}

struct State {
    current_track: Option<String>,
    albums_list_state: ListState,
    track_list_state: ListState,
}

/// The two-pane player.
pub struct App {
    state: State,
    prev_selected: Option<usize>,
    library: Vec<Album>,
    tracks_selected: bool,
}

/// What the player holds: the track chosen last, both list selections, the
/// track played last, the albums, and which pane has the focus.
#[verifier::ext_equal]
pub struct AppView {
    pub current_track: Option<Seq<char>>,
    pub albums: ListStateView,
    pub tracks: ListStateView,
    pub prev_selected: Option<usize>,
    pub library: Seq<FolderView>,
    pub tracks_selected: bool,
}

impl View for App {
    type V = AppView;

    closed spec fn view(&self) -> AppView {
        AppView {
            current_track: match self.state.current_track {
                Some(t) => Some(t@),
                None => None,
            },
            albums: self.state.albums_list_state@,
            tracks: self.state.track_list_state@,
            prev_selected: self.prev_selected,
            library: album_views(self.library@),
            tracks_selected: self.tracks_selected,
        }
    }
}

/// Colour of a pane's border.
#[derive(Clone, Copy, Debug, PartialEq, Eq, Structural)]
pub enum BorderColor {
    White,
    LightBlue,
}

/// File names of the tracks at `paths`, in order.
pub open spec fn track_names_spec(paths: Seq<Seq<char>>) -> Seq<Seq<char>> {
    paths.map_values(|p: Seq<char>| path_file_name(p)->0)
}

/// Every path of `paths` has a file name.
pub open spec fn all_named(paths: Seq<Seq<char>>) -> bool {
    forall|i: int| 0 <= i < paths.len() ==> (#[trigger] path_file_name(paths[i])) is Some
}

/// Why a selection names no track.
#[derive(Debug, PartialEq, Eq, Structural)]
pub enum SelectionError {
    /// A list has no selection.
    NoSelection,
    /// The selected album does not exist.
    AlbumNotFound,
    /// The selected track does not exist in the selected album.
    TrackNotFound,
}

/// Paths of the regular files among the entries of an album directory.
pub open spec fn file_paths(entries: Seq<TrackEntryView>) -> Seq<Seq<char>>
    decreases entries.len(),
{
    if entries.len() == 0 {
        seq![]
    } else {
        let prev = file_paths(entries.drop_last());
        if entries.last().is_file {
            prev.push(entries.last().path)
        } else {
            prev
        }
    }
}

/// The albums after the music directory is read: each directory among its
/// entries becomes an album of its regular files.
pub open spec fn read_music_spec(library: Seq<FolderView>, folders: Seq<FolderEntryView>) -> Seq<FolderView>
    decreases folders.len(),
{
    if folders.len() == 0 {
        library
    } else {
        let prev = read_music_spec(library, folders.drop_last());
        if folders.last().is_dir {
            prev.push(FolderView { name: folders.last().name, tracks: file_paths(folders.last().entries) })
        } else {
            prev
        }
    }
}

/// Names of the albums.
pub open spec fn folder_names(library: Seq<FolderView>) -> Seq<Seq<char>> {
    library.map_values(|f: FolderView| f.name)
}

/// Whether the album and track selections name a track, and if not, why.
pub open spec fn selection_check(library: Seq<FolderView>, albums: ListStateView, tracks: ListStateView) -> Result<(), SelectionError> {
    match (albums.selected, tracks.selected) {
        (Some(a), Some(t)) => if a >= library.len() {
            Err(SelectionError::AlbumNotFound)
        } else if t >= library[a as int].tracks.len() {
            Err(SelectionError::TrackNotFound)
        } else {
            Ok(())
        },
        _ => Err(SelectionError::NoSelection),
    }
}

/// The selection moved one item up: in the tracks pane the track, in the
/// albums pane the album, which also brings the track back to the first.
pub open spec fn move_previous(v: AppView) -> AppView {
    if v.tracks_selected {
        AppView { tracks: select_spec(v.tracks, Some(previous_index(v.tracks.selected))), ..v }
    } else {
        AppView {
            albums: select_spec(v.albums, Some(previous_index(v.albums.selected))),
            tracks: select_spec(v.tracks, Some(0)),
            ..v
        }
    }
}

/// The selection moved one item down, as [`move_previous`] does upwards.
pub open spec fn move_next(v: AppView) -> AppView {
    if v.tracks_selected {
        AppView { tracks: select_spec(v.tracks, Some(next_index(v.tracks.selected))), ..v }
    } else {
        AppView {
            albums: select_spec(v.albums, Some(next_index(v.albums.selected))),
            tracks: select_spec(v.tracks, Some(0)),
            ..v
        }
    }
}

/// The selections of `v` name a track.
pub open spec fn selection_exists(v: AppView) -> bool {
    selection_check(v.library, v.albums, v.tracks) is Ok
}

/// `v` with the selected track as its chosen track.
pub open spec fn with_current_track(v: AppView) -> AppView {
    AppView {
        current_track: Some(v.library[v.albums.selected->0 as int].tracks[v.tracks.selected->0 as int]),
        ..v
    }
}

/// "Play" can be carried out: a track is selected, and unless it is the
/// track played last, a track has been chosen.
pub open spec fn can_play(v: AppView) -> bool {
    &&& v.tracks.selected is Some
    &&& v.prev_selected != Some(v.tracks.selected->0) ==> v.current_track is Some
}

/// The state and the command after "play", given whether the output is
/// paused: the track selected now was also played last, so playback is
/// toggled; otherwise the chosen track is loaded. The selection is
/// remembered as played last.
pub open spec fn play_spec(v: AppView, paused: bool) -> (AppView, CommandView) {
    let selected = v.tracks.selected->0;
    (
        AppView { prev_selected: Some(selected), ..v },
        if v.prev_selected == Some(selected) {
            toggle_spec(paused)
        } else {
            CommandView::Load(v.current_track->0)
        },
    )
}

/// Paths of the regular files of one album directory.
fn read_dir(folder: &FolderEntry) -> (album: Album)
    ensures
        album@ == (FolderView { name: folder@.name, tracks: file_paths(folder@.entries) }),
{
    let ghost entries = folder@.entries;
    let mut album = Album { name: folder.name.clone(), tracks: Vec::new() };
    let mut i: usize = 0;
    while i < folder.entries.len()
        invariant
            i <= folder.entries.len(),
            entries == folder@.entries,
            album@ == (FolderView { name: folder@.name, tracks: file_paths(entries.take(i as int)) }),
        decreases folder.entries.len() - i,
    {
        proof {
            assert(entries.take(i + 1).drop_last() =~= entries.take(i as int));
        }
        if folder.entries[i].is_file {
            album.tracks.push(folder.entries[i].path.clone());
            proof {
                assert(album@.tracks =~= file_paths(entries.take(i + 1)));
            }
        }
        i += 1;
    }
    proof {
        assert(entries.take(folder.entries.len() as int) =~= entries);
    }
    album
}

/// Whether `albums` and `tracks` name a track of `library`, and if not, why.
fn check_selection(library: &Vec<Album>, albums: ListState, tracks: ListState) -> (r: Result<(), SelectionError>)
    ensures
        r == selection_check(album_views(library@), albums@, tracks@),
{
    match (albums.selected(), tracks.selected()) {
        (Some(a), Some(t)) => {
            if a >= library.len() {
                Err(SelectionError::AlbumNotFound)
            } else if t >= library[a].tracks.len() {
                Err(SelectionError::TrackNotFound)
            } else {
                Ok(())
            }
        },
        _ => Err(SelectionError::NoSelection),
    }
}

impl App {
    /// The player over the music directory, given as its entries: the first
    /// album and its first track are selected, the albums pane has the focus
    /// and nothing is chosen or played yet.
    pub fn new(music: &Vec<FolderEntry>) -> (r: App)
        ensures
            r@ == (AppView {
                current_track: None,
                albums: ListStateView { offset: 0, selected: Some(0) },
                tracks: ListStateView { offset: 0, selected: Some(0) },
                prev_selected: None,
                library: read_music_spec(seq![], folders_view(music@)),
                tracks_selected: false,
            }),
    {
        let state = State {
            current_track: None,
            albums_list_state: ListState::default().with_selected(Some(0)),
            track_list_state: ListState::default().with_selected(Some(0)),
        };
        let mut app = App { state, library: Vec::new(), prev_selected: None, tracks_selected: false };
        assert(album_views(app.library@) =~= seq![]);
        app.read_music(music);
        app
    }

    /// Moves the selection one item up: the track in the tracks pane, the
    /// album in the albums pane (back to its first track); the newly selected
    /// track becomes the chosen one.
    pub fn previous(&mut self)
        requires
            selection_exists(move_previous(old(self)@)),
        ensures
            final(self)@ == with_current_track(move_previous(old(self)@)),
    {
        if self.tracks_selected {
            self.state.track_list_state.select_previous();
        } else {
            self.state.albums_list_state.select_previous();
            self.state.track_list_state.select_first();
        }
        self.set_current_track();
    }

    /// Moves the selection one item down, as [`App::previous`] does upwards.
    pub fn next(&mut self)
        requires
            selection_exists(move_next(old(self)@)),
        ensures
            final(self)@ == with_current_track(move_next(old(self)@)),
    {
        if self.tracks_selected {
            self.state.track_list_state.select_next();
        } else {
            self.state.albums_list_state.select_next();
            self.state.track_list_state.select_first();
        }
        self.set_current_track();
    }

    /// Whether moving up would leave the selections on a track, and if not,
    /// why.
    pub fn check_previous(&self) -> (r: Result<(), SelectionError>)
        ensures
            r == selection_check(move_previous(self@).library, move_previous(self@).albums, move_previous(self@).tracks),
    {
        let mut albums = self.state.albums_list_state;
        let mut tracks = self.state.track_list_state;
        if self.tracks_selected {
            tracks.select_previous();
        } else {
            albums.select_previous();
            tracks.select_first();
        }
        check_selection(&self.library, albums, tracks)
    }

    /// Whether moving down would leave the selections on a track, and if
    /// not, why.
    pub fn check_next(&self) -> (r: Result<(), SelectionError>)
        ensures
            r == selection_check(move_next(self@).library, move_next(self@).albums, move_next(self@).tracks),
    {
        let mut albums = self.state.albums_list_state;
        let mut tracks = self.state.track_list_state;
        if self.tracks_selected {
            tracks.select_next();
        } else {
            albums.select_next();
            tracks.select_first();
        }
        check_selection(&self.library, albums, tracks)
    }

    /// Makes the selected track the chosen one.
    fn set_current_track(&mut self)
        requires
            selection_exists(old(self)@),
        ensures
            final(self)@ == with_current_track(old(self)@),
    {
        let a = self.state.albums_list_state.selected().unwrap();
        let t = self.state.track_list_state.selected().unwrap();
        let track = self.library[a].tracks[t].clone();
        self.state.current_track = Some(track);
    }

    /// Gives the albums pane the focus.
    pub fn focus_albums(&mut self)
        ensures
            final(self)@ == (AppView { tracks_selected: false, ..old(self)@ }),
    {
        self.tracks_selected = false
    }

    /// Gives the tracks pane the focus.
    pub fn focus_tracks(&mut self)
        ensures
            final(self)@ == (AppView { tracks_selected: true, ..old(self)@ }),
    {
        self.tracks_selected = true
    }

    /// Adds the albums of the music directory, given as its entries: each
    /// directory among them becomes an album of its regular files.
    pub fn read_music(&mut self, music: &Vec<FolderEntry>)
        ensures
            final(self)@ == (AppView {
                library: read_music_spec(old(self)@.library, folders_view(music@)),
                ..old(self)@
            }),
    {
        let ghost start = self@;
        let ghost folders = folders_view(music@);
        let mut i: usize = 0;
        while i < music.len()
            invariant
                i <= music.len(),
                folders == folders_view(music@),
                self@ == (AppView { library: read_music_spec(start.library, folders.take(i as int)), ..start }),
            decreases music.len() - i,
        {
            proof {
                assert(folders.take(i + 1).drop_last() =~= folders.take(i as int));
            }
            if music[i].is_dir {
                let album = read_dir(&music[i]);
                self.library.push(album);
                proof {
                    assert(self@.library =~= read_music_spec(start.library, folders.take(i + 1)));
                }
            }
            i += 1;
        }
        proof {
            assert(folders.take(music.len() as int) =~= folders);
        }
    }

    /// "Play", given whether the output is paused: on the track played last
    /// it toggles between paused and playing, on another track it loads the
    /// chosen track. The selected track is remembered as played last.
    pub fn play(&mut self, paused: bool) -> (r: PlayerCommand)
        requires
            can_play(old(self)@),
        ensures
            final(self)@ == play_spec(old(self)@, paused).0,
            r@ == play_spec(old(self)@, paused).1,
    {
        let selected = self.state.track_list_state.selected().unwrap();
        let r = match self.prev_selected {
            Some(val) => {
                if selected != val {
                    self.play_selected_file()
                } else {
                    toggle(paused)
                }
            },
            None => self.play_selected_file(),
        };
        self.prev_selected = Some(selected);
        r
    }

    /// Whether "play" can be carried out now.
    pub fn check_play(&self) -> (r: bool)
        ensures
            r == can_play(self@),
    {
        match self.state.track_list_state.selected() {
            Some(s) => self.prev_selected == Some(s) || self.state.current_track.is_some(),
            None => false,
        }
    }

    /// Loads the chosen track.
    fn play_selected_file(&self) -> (r: PlayerCommand)
        requires
            self@.current_track is Some,
        ensures
            r@ == CommandView::Load(self@.current_track->0),
    {
        let path = self.state.current_track.as_ref().unwrap();
        PlayerCommand::Load(path.clone())
    }

    /// Names of the albums, in order.
    pub fn album_names(&self) -> (r: Vec<String>)
        ensures
            strings_view(r@) == folder_names(self@.library),
    {
        let mut r: Vec<String> = Vec::new();
        let mut i: usize = 0;
        while i < self.library.len()
            invariant
                i <= self.library.len(),
                strings_view(r@) == folder_names(self@.library.take(i as int)),
            decreases self.library.len() - i,
        {
            let ghost r0 = r@;
            let name = self.library[i].name.clone();
            r.push(name);
            proof {
                assert(r@ == r0.push(name));
                assert(self@.library[i as int] == self.library@[i as int]@);
                let prefix = self@.library.take(i as int);
                assert(self@.library.take(i + 1) =~= prefix.push(self@.library[i as int]));
                assert(folder_names(prefix.push(self@.library[i as int])) =~= folder_names(prefix).push(name@));
                assert(strings_view(r0.push(name)) =~= strings_view(r0).push(name@));
            }
            i += 1;
        }
        assert(self@.library.take(self.library.len() as int) =~= self@.library);
        r
    }

    /// Paths of the tracks of the selected album.
    pub fn selected_album_tracks(&self) -> (r: &Vec<String>)
        requires
            self@.albums.selected is Some,
            self@.albums.selected->0 < self@.library.len(),
        ensures
            strings_view(r@) == self@.library[self@.albums.selected->0 as int].tracks,
    {
        let a = self.state.albums_list_state.selected().unwrap();
        &self.library[a].tracks
    }

    /// File names of the tracks of the selected album, in order.
    pub fn selected_track_names(&self) -> (r: Vec<String>)
        requires
            self@.albums.selected is Some,
            self@.albums.selected->0 < self@.library.len(),
            all_named(self@.library[self@.albums.selected->0 as int].tracks),
        ensures
            strings_view(r@) == track_names_spec(self@.library[self@.albums.selected->0 as int].tracks),
    {
        let tracks = self.selected_album_tracks();
        let ghost paths = strings_view(tracks@);
        let mut r: Vec<String> = Vec::new();
        let mut i: usize = 0;
        while i < tracks.len()
            invariant
                i <= tracks.len(),
                paths == strings_view(tracks@),
                all_named(paths),
                strings_view(r@) == track_names_spec(paths.take(i as int)),
            decreases tracks.len() - i,
        {
            let ghost r0 = r@;
            assert(path_file_name(paths[i as int]) is Some);
            let name = file_name_of(tracks[i].as_str()).unwrap();
            r.push(name);
            proof {
                assert(r@ == r0.push(name));
                let prefix = paths.take(i as int);
                assert(paths.take(i + 1) =~= prefix.push(paths[i as int]));
                assert(track_names_spec(prefix.push(paths[i as int])) =~= track_names_spec(prefix).push(name@));
                assert(strings_view(r0.push(name)) =~= strings_view(r0).push(name@));
            }
            i += 1;
        }
        assert(paths.take(tracks.len() as int) =~= paths);
        r
    }

    /// File names of the tracks of the selected album, or `None` when a
    /// track's path has no file name.
    pub fn try_selected_track_names(&self) -> (r: Option<Vec<String>>)
        requires
            self@.albums.selected is Some,
            self@.albums.selected->0 < self@.library.len(),
        ensures
            r is Some <==> all_named(self@.library[self@.albums.selected->0 as int].tracks),
            r matches Some(names) ==> strings_view(names@) == track_names_spec(
                self@.library[self@.albums.selected->0 as int].tracks,
            ),
    {
        let tracks = self.selected_album_tracks();
        let ghost paths = strings_view(tracks@);
        let mut i: usize = 0;
        while i < tracks.len()
            invariant
                i <= tracks.len(),
                paths == strings_view(tracks@),
                paths == self@.library[self@.albums.selected->0 as int].tracks,
                forall|k: int| 0 <= k < i ==> (#[trigger] path_file_name(paths[k])) is Some,
            decreases tracks.len() - i,
        {
            if file_name_of(tracks[i].as_str()).is_none() {
                assert(path_file_name(paths[i as int]) is None);
                return None;
            }
            i += 1;
        }
        Some(self.selected_track_names())
    }

    /// Colour of the albums pane's border: white when it has the focus.
    pub fn albums_border(&self) -> (r: BorderColor)
        ensures
            r == (if self@.tracks_selected { BorderColor::LightBlue } else { BorderColor::White }),
    {
        if self.tracks_selected {
            BorderColor::LightBlue
        } else {
            BorderColor::White
        }
    }

    /// Colour of the tracks pane's border: white when it has the focus.
    pub fn tracks_border(&self) -> (r: BorderColor)
        ensures
            r == (if !self@.tracks_selected { BorderColor::LightBlue } else { BorderColor::White }),
    {
        if !self.tracks_selected {
            BorderColor::LightBlue
        } else {
            BorderColor::White
        }
    }

    /// Which pane has the focus: true for the tracks pane.
    pub fn tracks_selected(&self) -> (r: bool)
        ensures
            r == self@.tracks_selected,
    {
        self.tracks_selected
    }

    /// The selection state of the albums list.
    pub fn albums_list_state(&self) -> (r: ListState)
        ensures
            r@ == self@.albums,
    {
        self.state.albums_list_state
    }

    /// The selection state of the tracks list.
    pub fn track_list_state(&self) -> (r: ListState)
        ensures
            r@ == self@.tracks,
    {
        self.state.track_list_state
    }

    /// Takes over the selection states as drawing left them.
    pub fn set_list_states(&mut self, albums: ListState, tracks: ListState)
        ensures
            final(self)@ == (AppView { albums: albums@, tracks: tracks@, ..old(self)@ }),
    {
        self.state.albums_list_state = albums;
        self.state.track_list_state = tracks;
    }

    /// The track chosen last, if any.
    pub fn current_track(&self) -> (r: Option<String>)
        ensures
            match r {
                Some(s) => self@.current_track == Some(s@),
                None => self@.current_track is None,
            },
    {
        self.state.current_track.clone()
    }
}

/// In the tracks pane, "down" then "up" comes back to the track selected
/// before, and that track is then the chosen one; at the largest index
/// "down" saturates and the law does not hold.
pub proof fn lemma_next_then_previous_track(v: AppView, i: usize)
    requires
        v.tracks_selected,
        v.tracks.selected == Some(i),
        i < usize::MAX,
        selection_exists(v),
        selection_exists(move_next(v)),
    ensures
        selection_exists(move_previous(with_current_track(move_next(v)))),
        with_current_track(move_previous(with_current_track(move_next(v)))) == with_current_track(v),
{
}

/// In the albums pane, "down" then "up" comes back to the album selected
/// before, on its first track.
pub proof fn lemma_next_then_previous_album(v: AppView, a: usize)
    requires
        !v.tracks_selected,
        v.albums.selected == Some(a),
        a < usize::MAX,
        a < v.library.len(),
        v.library[a as int].tracks.len() > 0,
        selection_exists(move_next(v)),
    ensures
        selection_exists(move_previous(with_current_track(move_next(v)))),
        with_current_track(move_previous(with_current_track(move_next(v)))) == with_current_track(
            AppView { tracks: select_spec(v.tracks, Some(0)), ..v },
        ),
{
}

/// "Play" on the track played last toggles the output: pressing "play" twice
/// without moving loads the track at most once.
pub proof fn lemma_play_twice_toggles(v: AppView, first_paused: bool, paused: bool)
    requires
        can_play(v),
    ensures
        can_play(play_spec(v, first_paused).0),
        play_spec(play_spec(v, first_paused).0, paused).1 == toggle_spec(paused),
        play_spec(play_spec(v, first_paused).0, paused).0 == play_spec(v, first_paused).0,
{
}

/// "Play" on a track other than the one played last loads the chosen track:
/// the command loads its path.
pub proof fn lemma_play_new_track_loads(v: AppView, paused: bool, t: usize)
    requires
        can_play(v),
        v.tracks.selected == Some(t),
        v.prev_selected != Some(t),
    ensures
        v.current_track is Some,
        play_spec(v, paused).1 == CommandView::Load(v.current_track->0),
        play_spec(v, paused).0.prev_selected == Some(t),
        play_spec(v, paused).0.current_track == v.current_track,
{
}

/// "Play" on the track played last loads nothing: it resumes a paused output
/// and pauses a playing one.
pub proof fn lemma_play_same_track_toggles(v: AppView, paused: bool, t: usize)
    requires
        v.tracks.selected == Some(t),
        v.prev_selected == Some(t),
    ensures
        paused ==> play_spec(v, paused).1 == CommandView::Resume,
        !paused ==> play_spec(v, paused).1 == CommandView::Pause,
        play_spec(v, paused).0 == v,
{
}

/// "Up" moves the selection of the focused pane one item up (staying at the
/// first item); in the albums pane the track goes back to the first. "Down"
/// moves it one item down (staying at the largest index), and in the albums
/// pane also brings the track back to the first.
pub proof fn lemma_moves(v: AppView, i: usize)
    ensures
        v.tracks_selected && v.tracks.selected == Some(i) ==> {
            &&& move_previous(v).tracks.selected == Some(if i == 0 { 0 } else { (i - 1) as usize })
            &&& move_next(v).tracks.selected == Some(if i == usize::MAX { i } else { (i + 1) as usize })
            &&& move_previous(v).albums == v.albums
            &&& move_next(v).albums == v.albums
        },
        !v.tracks_selected && v.albums.selected == Some(i) ==> {
            &&& move_previous(v).albums.selected == Some(if i == 0 { 0 } else { (i - 1) as usize })
            &&& move_next(v).albums.selected == Some(if i == usize::MAX { i } else { (i + 1) as usize })
            &&& move_previous(v).tracks.selected == Some(0usize)
            &&& move_next(v).tracks.selected == Some(0usize)
        },
        move_previous(v).library == v.library,
        move_next(v).library == v.library,
        move_previous(v).tracks_selected == v.tracks_selected,
        move_next(v).tracks_selected == v.tracks_selected,
{
}

/// After a move in the albums pane, the chosen track is the first track of
/// the newly selected album.
pub proof fn lemma_album_move_chooses_first_track(v: AppView)
    requires
        !v.tracks_selected,
    ensures
        selection_exists(move_previous(v)) ==> with_current_track(move_previous(v)).current_track == Some(
            v.library[move_previous(v).albums.selected->0 as int].tracks[0],
        ),
        selection_exists(move_next(v)) ==> with_current_track(move_next(v)).current_track == Some(
            v.library[move_next(v).albums.selected->0 as int].tracks[0],
        ),
{
}

/// The names listed are those of the albums, and the track names the file
/// names of the track paths, one per item, in order.
pub proof fn lemma_name_lists(library: Seq<FolderView>, paths: Seq<Seq<char>>)
    ensures
        folder_names(library).len() == library.len(),
        forall|k: int| 0 <= k < library.len() ==> #[trigger] folder_names(library)[k] == library[k].name,
        track_names_spec(paths).len() == paths.len(),
        all_named(paths) ==> forall|k: int|
            0 <= k < paths.len() ==> path_file_name(paths[k]) == Some(#[trigger] track_names_spec(paths)[k]),
{
}

proof fn lemma_read_music_dirs_only(library: Seq<FolderView>, folders: Seq<FolderEntryView>)
    ensures
        read_music_spec(library, folders) == read_music_spec(library, dirs_only(folders)),
    decreases folders.len(),
{
    if folders.len() > 0 {
        lemma_read_music_dirs_only(library, folders.drop_last());
        if folders.last().is_dir {
            assert(dirs_only(folders).drop_last() =~= dirs_only(folders.drop_last()));
        }
    }
}

/// Entries of the music directory that are not directories add no album:
/// two listings with the same directories in the same order give the same
/// albums, and each directory gives one album named after it.
pub proof fn lemma_read_music_ignores_non_dirs(
    library: Seq<FolderView>,
    f1: Seq<FolderEntryView>,
    f2: Seq<FolderEntryView>,
)
    requires
        dirs_only(f1) == dirs_only(f2),
    ensures
        read_music_spec(library, f1) == read_music_spec(library, f2),
        read_music_spec(library, f1).len() == library.len() + dirs_only(f1).len(),
{
    lemma_read_music_dirs_only(library, f1);
    lemma_read_music_dirs_only(library, f2);
    lemma_read_music_count(library, f1);
}

proof fn lemma_read_music_count(library: Seq<FolderView>, folders: Seq<FolderEntryView>)
    ensures
        read_music_spec(library, folders).len() == library.len() + dirs_only(folders).len(),
    decreases folders.len(),
{
    if folders.len() > 0 {
        lemma_read_music_count(library, folders.drop_last());
    }
}

} // verus!
