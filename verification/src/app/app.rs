//! The three-pane player: artists, the albums of the selected artist, and
//! the songs of the selected album, read from the tagged music library.
use vstd::prelude::*;
use crate::app::audio_player::{AudioPlayer, CommandView, PlayerCommand, player_play_spec, toggle_spec};
use crate::app::library::{
    AlbumView, Artist, Library, LibraryView, SongLookupError, Song, SongView, albums_by_artist,
    albums_view, artists_view, song_lookup, songs_view, strings_view,
};
use crate::app::BorderColor;
use crate::list_state::{ListState, ListStateView, next_index, previous_index, select_spec};

verus! {

/// The pane that has the focus.
#[allow(non_camel_case_types)]
#[derive(Clone, Copy, Debug, PartialEq, Eq, Structural)]
pub enum LayoutState {
    ARTISTS,
    ALBUMS,
    SONGS,
}

struct State {
    layout: LayoutState,
    selected_track: Option<Song>,
    selected_artist: Option<String>,
    artists_list: Vec<Artist>,
    albums_list: Vec<crate::app::library::ModernAlbum>,
    songs_list: Vec<Song>,
    artists_list_state: ListState,
    albums_list_state: ListState,
    songs_list_state: ListState,
}

/// The three-pane player.
pub struct App {
    audio_player: AudioPlayer,
    state: State,
    library: Library,
    prev_selected: Option<usize>,
}

/// What the player holds.
#[verifier::ext_equal]
pub struct AppView {
    pub layout: LayoutState,
    pub selected_track: Option<SongView>,
    pub selected_artist: Option<Seq<char>>,
    pub artists_list: Seq<Seq<char>>,
    pub albums_list: Seq<AlbumView>,
    pub songs_list: Seq<SongView>,
    pub artists: ListStateView,
    pub albums: ListStateView,
    pub songs: ListStateView,
    /// The track loaded in the player.
    pub player: Option<Seq<char>>,
    pub library: LibraryView,
    pub prev_selected: Option<usize>,
}

impl View for App {
    type V = AppView;

    closed spec fn view(&self) -> AppView {
        AppView {
            layout: self.state.layout,
            selected_track: match self.state.selected_track {
                Some(s) => Some(s@),
                None => None,
            },
            selected_artist: match self.state.selected_artist {
                Some(s) => Some(s@),
                None => None,
            },
            artists_list: artists_view(self.state.artists_list@),
            albums_list: albums_view(self.state.albums_list@),
            songs_list: songs_view(self.state.songs_list@),
            artists: self.state.artists_list_state@,
            albums: self.state.albums_list_state@,
            songs: self.state.songs_list_state@,
            player: self.audio_player@,
            library: self.library@,
            prev_selected: self.prev_selected,
        }
    }
}

/// Why the selections name no song.
#[derive(Debug, PartialEq, Eq, Structural)]
pub enum LookupError {
    /// A list has no selection.
    NoSelection,
    /// No artist stands at the selected album's position of the artists list.
    ArtistNotFound,
    /// The artist has no album at the selected position.
    AlbumNotFound,
    /// The album has no song at the selected position.
    SongNotFound,
    /// The songs pane is empty, so there is no last song to stop at.
    NoSongs,
}

/// The pane to the right of `l`; the songs pane stays.
pub open spec fn layout_right(l: LayoutState) -> LayoutState {
    match l {
        LayoutState::ARTISTS => LayoutState::ALBUMS,
        LayoutState::ALBUMS => LayoutState::SONGS,
        LayoutState::SONGS => LayoutState::SONGS,
    }
}

/// The pane to the left of `l`; the artists pane stays.
pub open spec fn layout_left(l: LayoutState) -> LayoutState {
    match l {
        LayoutState::ARTISTS => LayoutState::ARTISTS,
        LayoutState::ALBUMS => LayoutState::ARTISTS,
        LayoutState::SONGS => LayoutState::ALBUMS,
    }
}

/// The selections after "up": in the artists pane the artist moves up and
/// the song goes back to the first; in the albums pane the album moves up;
/// in the songs pane the song moves up.
pub open spec fn move_previous(v: AppView) -> AppView {
    match v.layout {
        LayoutState::ARTISTS => AppView {
            artists: select_spec(v.artists, Some(previous_index(v.artists.selected))),
            songs: select_spec(v.songs, Some(0)),
            ..v
        },
        LayoutState::ALBUMS => AppView {
            albums: select_spec(v.albums, Some(previous_index(v.albums.selected))),
            ..v
        },
        LayoutState::SONGS => AppView {
            songs: select_spec(v.songs, Some(previous_index(v.songs.selected))),
            ..v
        },
    }
}

/// The selections after "down": in the artists pane the artist moves down
/// and album and song go back to the first; in the albums pane the album
/// moves down and the song goes back to the first; in the songs pane the
/// song moves down unless it is the last of the list.
pub open spec fn move_next(v: AppView) -> AppView {
    match v.layout {
        LayoutState::ARTISTS => AppView {
            artists: select_spec(v.artists, Some(next_index(v.artists.selected))),
            albums: select_spec(v.albums, Some(0)),
            songs: select_spec(v.songs, Some(0)),
            ..v
        },
        LayoutState::ALBUMS => AppView {
            albums: select_spec(v.albums, Some(next_index(v.albums.selected))),
            songs: select_spec(v.songs, Some(0)),
            ..v
        },
        LayoutState::SONGS => if v.songs.selected->0 < v.songs_list.len() - 1 {
            AppView { songs: select_spec(v.songs, Some(next_index(v.songs.selected))), ..v }
        } else {
            v
        },
    }
}

/// Whether the selections name a song, and if not, why. The artist is
/// looked up at the position of the selected album in the artists list,
/// and the album among the albums filed under that artist.
pub open spec fn lookup(v: AppView) -> Result<(), LookupError> {
    match (v.albums.selected, v.songs.selected) {
        (Some(a), Some(s)) => if a >= v.artists_list.len() {
            Err(LookupError::ArtistNotFound)
        } else {
            match song_lookup(v.library.library.albums, v.artists_list[a as int], a as int, s as int) {
                Ok(()) => Ok(()),
                Err(SongLookupError::AlbumNotFound) => Err(LookupError::AlbumNotFound),
                Err(SongLookupError::SongNotFound) => Err(LookupError::SongNotFound),
            }
        },
        _ => Err(LookupError::NoSelection),
    }
}

/// `v` with the song its selections name as the selected track.
pub open spec fn with_selected_track(v: AppView) -> AppView {
    let a = v.albums.selected->0 as int;
    AppView {
        selected_track: Some(
            albums_by_artist(v.library.library.albums, v.artists_list[a])[a].songs[v.songs.selected->0 as int],
        ),
        ..v
    }
}

/// "Down" does not fail in the songs pane: a song is selected and the list
/// is not empty.
pub open spec fn next_guard(v: AppView) -> Result<(), LookupError> {
    if v.layout == LayoutState::SONGS {
        if v.songs.selected is None {
            Err(LookupError::NoSelection)
        } else if v.songs_list.len() == 0 {
            Err(LookupError::NoSongs)
        } else {
            Ok(())
        }
    } else {
        Ok(())
    }
}

/// "Play" can be carried out: a song is selected, and unless it is the one
/// played last, a track has been selected.
pub open spec fn can_play(v: AppView) -> bool {
    &&& v.songs.selected is Some
    &&& v.prev_selected != Some(v.songs.selected->0) ==> v.selected_track is Some
}

/// The state and the command after "play", given whether the output is
/// paused: on the song played last the player toggles; otherwise the
/// selected track is loaded. The selection is remembered as played last.
pub open spec fn play_spec(v: AppView, paused: bool) -> (AppView, CommandView) {
    let selected = v.songs.selected->0;
    if v.prev_selected == Some(selected) {
        (AppView { prev_selected: Some(selected), ..v }, player_play_spec(v.player, paused))
    } else {
        let path = v.selected_track->0.path;
        (AppView { prev_selected: Some(selected), player: Some(path), ..v }, CommandView::Load(path))
    }
}

impl App {
    /// The player over `library`: the first artist, album and song are
    /// selected, the artists pane has the focus, and nothing is loaded.
    pub fn new(library: Library) -> (r: App)
        ensures
            r@ == (AppView {
                layout: LayoutState::ARTISTS,
                selected_track: None,
                selected_artist: None,
                artists_list: seq![],
                albums_list: seq![],
                songs_list: seq![],
                artists: ListStateView { offset: 0, selected: Some(0) },
                albums: ListStateView { offset: 0, selected: Some(0) },
                songs: ListStateView { offset: 0, selected: Some(0) },
                player: None,
                library: library@,
                prev_selected: None,
            }),
    {
        let audio_player = AudioPlayer::new();
        let state = State {
            layout: LayoutState::ARTISTS,
            selected_track: None,
            selected_artist: None,
            artists_list_state: ListState::default().with_selected(Some(0)),
            albums_list_state: ListState::default().with_selected(Some(0)),
            songs_list_state: ListState::default().with_selected(Some(0)),
            artists_list: Vec::new(),
            songs_list: Vec::new(),
            albums_list: Vec::new(),
        };
        let app = App { audio_player, state, library, prev_selected: None };
        assert(app@.artists_list =~= seq![]);
        assert(app@.albums_list =~= seq![]);
        assert(app@.songs_list =~= seq![]);
        app
    }

    /// "Up" in the focused pane; the song the selections then name becomes
    /// the selected track.
    pub fn previous(&mut self)
        requires
            lookup(move_previous(old(self)@)) is Ok,
        ensures
            final(self)@ == with_selected_track(move_previous(old(self)@)),
    {
        match self.state.layout {
            LayoutState::ARTISTS => {
                self.state.artists_list_state.select_previous();
                self.state.songs_list_state.select_first();
            },
            LayoutState::ALBUMS => {
                self.state.albums_list_state.select_previous();
            },
            LayoutState::SONGS => {
                self.state.songs_list_state.select_previous();
            },
        }
        self.set_selected_track();
    }

    /// "Down" in the focused pane; the song the selections then name becomes
    /// the selected track.
    pub fn next(&mut self)
        requires
            next_guard(old(self)@) is Ok,
            lookup(move_next(old(self)@)) is Ok,
        ensures
            final(self)@ == with_selected_track(move_next(old(self)@)),
    {
        match self.state.layout {
            LayoutState::ARTISTS => {
                self.state.artists_list_state.select_next();
                self.state.albums_list_state.select_first();
                self.state.songs_list_state.select_first();
            },
            LayoutState::ALBUMS => {
                self.state.albums_list_state.select_next();
                self.state.songs_list_state.select_first();
            },
            LayoutState::SONGS => {
                let selected_song_index = self.state.songs_list_state.selected().unwrap();
                if selected_song_index < self.state.songs_list.len() - 1 {
                    self.state.songs_list_state.select_next();
                }
            },
        }
        self.set_selected_track();
    }

    /// Whether "up" would leave the selections on a song, and if not, why.
    pub fn check_previous(&self) -> (r: Result<(), LookupError>)
        ensures
            r == lookup(move_previous(self@)),
    {
        let mut albums = self.state.albums_list_state;
        let mut songs = self.state.songs_list_state;
        match self.state.layout {
            LayoutState::ARTISTS => songs.select_first(),
            LayoutState::ALBUMS => albums.select_previous(),
            LayoutState::SONGS => songs.select_previous(),
        }
        self.check_lookup(albums, songs)
    }

    /// Whether "down" can be carried out, and if not, why.
    pub fn check_next(&self) -> (r: Result<(), LookupError>)
        ensures
            r == (match next_guard(self@) {
                Ok(()) => lookup(move_next(self@)),
                Err(e) => Err(e),
            }),
    {
        let mut albums = self.state.albums_list_state;
        let mut songs = self.state.songs_list_state;
        match self.state.layout {
            LayoutState::ARTISTS => {
                albums.select_first();
                songs.select_first();
            },
            LayoutState::ALBUMS => {
                albums.select_next();
                songs.select_first();
            },
            LayoutState::SONGS => {
                match songs.selected() {
                    None => return Err(LookupError::NoSelection),
                    Some(i) => {
                        if self.state.songs_list.len() == 0 {
                            return Err(LookupError::NoSongs);
                        }
                        if i < self.state.songs_list.len() - 1 {
                            songs.select_next();
                        }
                    },
                }
            },
        }
        self.check_lookup(albums, songs)
    }

    /// Whether the given album and song selections name a song.
    fn check_lookup(&self, albums: ListState, songs: ListState) -> (r: Result<(), LookupError>)
        ensures
            r == lookup(AppView { albums: albums@, songs: songs@, ..self@ }),
    {
        match (albums.selected(), songs.selected()) {
            (Some(a), Some(s)) => {
                if a >= self.state.artists_list.len() {
                    return Err(LookupError::ArtistNotFound);
                }
                match self.library.check_song(&self.state.artists_list[a].name, a, s) {
                    Ok(()) => Ok(()),
                    Err(SongLookupError::AlbumNotFound) => Err(LookupError::AlbumNotFound),
                    Err(SongLookupError::SongNotFound) => Err(LookupError::SongNotFound),
                }
            },
            _ => Err(LookupError::NoSelection),
        }
    }

    /// Makes the song the selections name the selected track.
    fn set_selected_track(&mut self)
        requires
            lookup(old(self)@) is Ok,
        ensures
            final(self)@ == with_selected_track(old(self)@),
    {
        let artist_index = self.state.albums_list_state.selected().unwrap();
        let artist = &self.state.artists_list[artist_index];
        let album_index = self.state.albums_list_state.selected().unwrap();
        let song_index = self.state.songs_list_state.selected().unwrap();
        let song = self.library.get_song(artist.name.clone(), album_index, song_index);
        self.state.selected_track = Some(song);
    }

    /// Moves the focus one pane to the right.
    pub fn switch_layout_to_right(&mut self)
        ensures
            final(self)@ == (AppView { layout: layout_right(old(self)@.layout), ..old(self)@ }),
    {
        self.state.layout = match self.state.layout {
            LayoutState::ARTISTS => LayoutState::ALBUMS,
            LayoutState::ALBUMS => LayoutState::SONGS,
            LayoutState::SONGS => LayoutState::SONGS,
        }
    }

    /// Moves the focus one pane to the left.
    pub fn switch_layout_to_left(&mut self)
        ensures
            final(self)@ == (AppView { layout: layout_left(old(self)@.layout), ..old(self)@ }),
    {
        self.state.layout = match self.state.layout {
            LayoutState::ARTISTS => LayoutState::ARTISTS,
            LayoutState::ALBUMS => LayoutState::ARTISTS,
            LayoutState::SONGS => LayoutState::ALBUMS,
        }
    }

    /// "Play", given whether the output is paused: on the song played last
    /// it toggles the player; otherwise it loads the selected track. The
    /// selection is remembered as played last.
    pub fn play(&mut self, paused: bool) -> (r: PlayerCommand)
        requires
            can_play(old(self)@),
        ensures
            final(self)@ == play_spec(old(self)@, paused).0,
            r@ == play_spec(old(self)@, paused).1,
    {
        let selected = self.state.songs_list_state.selected().unwrap();
        let r = match self.prev_selected {
            Some(val) => {
                if selected != val {
                    self.play_selected_file()
                } else {
                    self.audio_player.play(paused)
                }
            },
            None => self.play_selected_file(),
        };
        self.prev_selected = Some(selected);
        r
    }

    /// Whether "play" can be carried out now.
    pub fn check_play(&self) -> (r: bool)
        ensures
            r == can_play(self@),
    {
        match self.state.songs_list_state.selected() {
            Some(s) => self.prev_selected == Some(s) || self.state.selected_track.is_some(),
            None => false,
        }
    }

    /// Loads the selected track into the player.
    fn play_selected_file(&mut self) -> (r: PlayerCommand)
        requires
            old(self)@.selected_track is Some,
        ensures
            final(self)@ == (AppView { player: Some(old(self)@.selected_track->0.path), ..old(self)@ }),
            r@ == CommandView::Load(old(self)@.selected_track->0.path),
    {
        let song = self.state.selected_track.as_ref().unwrap();
        self.audio_player.set_current_track(&song.path)
    }

    /// Fills the artists list from the library and selects its first
    /// artist's name as the artist whose albums are shown.
    pub fn update_artists_list(&mut self)
        requires
            old(self)@.library.library.artists.len() > 0,
        ensures
            final(self)@ == (AppView {
                artists_list: old(self)@.library.library.artists,
                selected_artist: Some(old(self)@.library.library.artists[0]),
                ..old(self)@
            }),
    {
        let artists = self.library.get_artists();
        let list = artists.clone();
        proof {
            assert forall|k: int| 0 <= k < list@.len() implies list@[k] == artists@[k] by {
                assert(cloned::<Artist>(artists@[k], list@[k]));
            }
            assert(artists_view(list@) =~= artists_view(artists@));
        }
        self.state.artists_list = list;
        self.state.selected_artist = Some(self.state.artists_list[0].name.clone());
    }

    /// Titles of the albums filed under the selected artist; with no album
    /// at all, no titles, whether or not an artist is selected.
    pub fn album_titles(&self) -> (r: Vec<String>)
        requires
            self@.selected_artist is Some || self@.library.library.albums.len() == 0,
        ensures
            strings_view(r@) == match self@.selected_artist {
                Some(n) => album_titles_spec(albums_by_artist(self@.library.library.albums, n)),
                None => seq![],
            },
    {
        if self.library.get_albums().len() == 0 {
            let r: Vec<String> = Vec::new();
            proof {
                assert(strings_view(r@) =~= seq![]);
                if let Some(n) = self@.selected_artist {
                    assert(albums_by_artist(self@.library.library.albums, n) =~= seq![]);
                    assert(album_titles_spec(seq![]) =~= seq![]);
                }
            }
            return r;
        }
        let artist = self.state.selected_artist.as_ref().unwrap();
        let albums = self.library.get_albums();
        let ghost v = albums_view(albums@);
        let mut r: Vec<String> = Vec::new();
        let mut i: usize = 0;
        while i < albums.len()
            invariant
                i <= albums.len(),
                v == albums_view(albums@),
                strings_view(r@) == album_titles_spec(albums_by_artist(v.take(i as int), artist@)),
            decreases albums.len() - i,
        {
            proof {
                assert(v.take(i + 1).drop_last() =~= v.take(i as int));
            }
            let ghost r0 = r@;
            if albums[i].artist_ref.name == *artist {
                let title = albums[i].title.clone();
                r.push(title);
                proof {
                    assert(v.take(i + 1).last() == v[i as int]);
                    assert(v[i as int].artist == artist@);
                    assert(v[i as int].title == title@);
                    let f0 = albums_by_artist(v.take(i as int), artist@);
                    assert(albums_by_artist(v.take(i + 1), artist@) == f0.push(v[i as int]));
                    assert(album_titles_spec(f0.push(v[i as int])) =~= album_titles_spec(f0).push(title@));
                    assert(r@ == r0.push(title));
                    assert(strings_view(r0.push(title)) =~= strings_view(r0).push(title@));
                }
            } else {
                proof {
                    assert(v.take(i + 1).last() == v[i as int]);
                }
            }
            i += 1;
        }
        assert(v.take(albums.len() as int) =~= v);
        r
    }

    /// Fills the songs list with the songs of the album at the selected
    /// album's position in the catalog.
    pub fn update_songs_list(&mut self)
        requires
            old(self)@.albums.selected is Some,
            old(self)@.albums.selected->0 < old(self)@.library.library.albums.len(),
        ensures
            final(self)@ == (AppView {
                songs_list: old(self)@.library.library.albums[old(self)@.albums.selected->0 as int].songs,
                ..old(self)@
            }),
    {
        let selected_album = self.state.albums_list_state.selected().unwrap();
        self.state.songs_list = self.library.get_songs(selected_album);
    }

    /// Titles of the songs list, in order.
    pub fn song_titles(&self) -> (r: Vec<String>)
        ensures
            strings_view(r@) == song_titles_spec(self@.songs_list),
    {
        let songs = &self.state.songs_list;
        let ghost v = songs_view(songs@);
        let mut r: Vec<String> = Vec::new();
        let mut i: usize = 0;
        while i < songs.len()
            invariant
                i <= songs.len(),
                v == songs_view(songs@),
                v == self@.songs_list,
                strings_view(r@) == song_titles_spec(v.take(i as int)),
            decreases songs.len() - i,
        {
            let ghost r0 = r@;
            let title = songs[i].title.clone();
            r.push(title);
            proof {
                assert(v[i as int].title == title@);
                assert(v.take(i + 1) =~= v.take(i as int).push(v[i as int]));
                assert(song_titles_spec(v.take(i as int).push(v[i as int])) =~= song_titles_spec(v.take(i as int)).push(title@));
                assert(r@ == r0.push(title));
                assert(strings_view(r0.push(title)) =~= strings_view(r0).push(title@));
            }
            i += 1;
        }
        assert(v.take(songs.len() as int) =~= v);
        r
    }

    /// Colour of the border of `pane`: white when it has the focus.
    pub fn border(&self, pane: LayoutState) -> (r: BorderColor)
        ensures
            r == (if self@.layout == pane { BorderColor::White } else { BorderColor::LightBlue }),
    {
        if self.state.layout == pane {
            BorderColor::White
        } else {
            BorderColor::LightBlue
        }
    }

    /// The pane that has the focus.
    pub fn layout(&self) -> (r: LayoutState)
        ensures
            r == self@.layout,
    {
        self.state.layout
    }

    /// The selection states of the artists, albums and songs lists.
    pub fn list_states(&self) -> (r: (ListState, ListState, ListState))
        ensures
            r.0@ == self@.artists,
            r.1@ == self@.albums,
            r.2@ == self@.songs,
    {
        (self.state.artists_list_state, self.state.albums_list_state, self.state.songs_list_state)
    }

    /// Takes over the selection states as drawing left them.
    pub fn set_list_states(&mut self, artists: ListState, albums: ListState, songs: ListState)
        ensures
            final(self)@ == (AppView { artists: artists@, albums: albums@, songs: songs@, ..old(self)@ }),
    {
        self.state.artists_list_state = artists;
        self.state.albums_list_state = albums;
        self.state.songs_list_state = songs;
    }

    /// The library the player shows.
    pub fn library(&self) -> (r: &Library)
        ensures
            r@ == self@.library,
    {
        &self.library
    }

    /// The artist whose albums are shown, if one is chosen.
    pub fn selected_artist(&self) -> (r: Option<String>)
        ensures
            match r {
                Some(s) => self@.selected_artist == Some(s@),
                None => self@.selected_artist is None,
            },
    {
        self.state.selected_artist.clone()
    }

    /// The selected track, if any.
    pub fn selected_track(&self) -> (r: Option<Song>)
        ensures
            match r {
                Some(s) => self@.selected_track == Some(s@),
                None => self@.selected_track is None,
            },
    {
        match &self.state.selected_track {
            Some(s) => Some(s.clone()),
            None => None,
        }
    }
}

/// Titles of albums, in order.
pub open spec fn album_titles_spec(albums: Seq<AlbumView>) -> Seq<Seq<char>> {
    albums.map_values(|a: AlbumView| a.title)
}

/// Titles of songs, in order.
pub open spec fn song_titles_spec(songs: Seq<SongView>) -> Seq<Seq<char>> {
    songs.map_values(|s: SongView| s.title)
}

/// Moving the focus right and back left returns to the same pane, except
/// from the songs pane, which has nothing to its right; moving left and
/// back right returns to the same pane, except from the artists pane.
pub proof fn lemma_layout_round_trip(l: LayoutState)
    ensures
        l != LayoutState::SONGS ==> layout_left(layout_right(l)) == l,
        l != LayoutState::ARTISTS ==> layout_right(layout_left(l)) == l,
        layout_right(LayoutState::SONGS) == LayoutState::SONGS,
        layout_left(LayoutState::ARTISTS) == LayoutState::ARTISTS,
{
}

/// In the songs pane, "down" never moves the selection past the last song:
/// it moves one down when a song follows and stays on the last song.
pub proof fn lemma_next_stays_in_songs(v: AppView, i: usize)
    requires
        v.layout == LayoutState::SONGS,
        v.songs.selected == Some(i),
        i < v.songs_list.len(),
        v.songs_list.len() <= usize::MAX,
    ensures
        move_next(v).songs.selected->0 < v.songs_list.len(),
        i + 1 < v.songs_list.len() ==> move_next(v).songs.selected == Some((i + 1) as usize),
        i + 1 == v.songs_list.len() ==> move_next(v).songs == v.songs,
{
}

/// After "play", a second "play" without moving hands the decision to the
/// player: when the first loaded a track, the second toggles the output.
pub proof fn lemma_play_twice_toggles(v: AppView, first_paused: bool, paused: bool)
    requires
        can_play(v),
    ensures
        can_play(play_spec(v, first_paused).0),
        play_spec(play_spec(v, first_paused).0, paused).1 == player_play_spec(
            play_spec(v, first_paused).0.player,
            paused,
        ),
        play_spec(v, first_paused).1 is Load ==> play_spec(play_spec(v, first_paused).0, paused).1
            == toggle_spec(paused),
{
}

/// "Play" on a song other than the one played last loads the selected
/// track and plays it: the command loads its path and the player holds that
/// path afterwards.
pub proof fn lemma_play_new_song_loads(v: AppView, paused: bool, s: usize)
    requires
        can_play(v),
        v.songs.selected == Some(s),
        v.prev_selected != Some(s),
    ensures
        v.selected_track is Some,
        play_spec(v, paused).1 == CommandView::Load(v.selected_track->0.path),
        play_spec(v, paused).0.player == Some(v.selected_track->0.path),
        play_spec(v, paused).0.prev_selected == Some(s),
        play_spec(v, paused).0.selected_track == v.selected_track,
        play_spec(v, paused).0.songs == v.songs,
{
}

/// "Play" on the song played last loads nothing: with a track in the player
/// it resumes a paused output and pauses a playing one, and the player keeps
/// its track.
pub proof fn lemma_play_same_song_toggles(v: AppView, paused: bool, s: usize)
    requires
        v.songs.selected == Some(s),
        v.prev_selected == Some(s),
    ensures
        play_spec(v, paused).0.player == v.player,
        play_spec(v, paused).0.prev_selected == Some(s),
        v.player is Some && paused ==> play_spec(v, paused).1 == CommandView::Resume,
        v.player is Some && !paused ==> play_spec(v, paused).1 == CommandView::Pause,
        v.player is None ==> play_spec(v, paused).1 == CommandView::Idle,
{
}

/// "Up" moves the selection of the focused pane one item up (staying at the
/// first item), and never down; in the artists pane the song goes back to the
/// first; no other selection, and not the focus, changes.
pub proof fn lemma_previous_moves_up(v: AppView, i: usize)
    ensures
        move_previous(v).layout == v.layout,
        move_previous(v).library == v.library,
        v.layout == LayoutState::ARTISTS && v.artists.selected == Some(i) ==> {
            &&& move_previous(v).artists.selected == Some(if i == 0 { 0 } else { (i - 1) as usize })
            &&& move_previous(v).artists.offset == v.artists.offset
            &&& move_previous(v).albums == v.albums
            &&& move_previous(v).songs.selected == Some(0usize)
        },
        v.layout == LayoutState::ALBUMS && v.albums.selected == Some(i) ==> {
            &&& move_previous(v).albums.selected == Some(if i == 0 { 0 } else { (i - 1) as usize })
            &&& move_previous(v).artists == v.artists
            &&& move_previous(v).songs == v.songs
        },
        v.layout == LayoutState::SONGS && v.songs.selected == Some(i) ==> {
            &&& move_previous(v).songs.selected == Some(if i == 0 { 0 } else { (i - 1) as usize })
            &&& move_previous(v).artists == v.artists
            &&& move_previous(v).albums == v.albums
        },
{
}

/// "Down" moves the selection of the focused pane one item down (staying at
/// the largest index, and in the songs pane at the last song); in the artists
/// pane album and song go back to the first, in the albums pane the song does.
pub proof fn lemma_next_moves_down(v: AppView, i: usize)
    ensures
        move_next(v).layout == v.layout,
        move_next(v).library == v.library,
        v.layout == LayoutState::ARTISTS && v.artists.selected == Some(i) ==> {
            &&& move_next(v).artists.selected == Some(if i == usize::MAX { i } else { (i + 1) as usize })
            &&& move_next(v).albums.selected == Some(0usize)
            &&& move_next(v).songs.selected == Some(0usize)
        },
        v.layout == LayoutState::ALBUMS && v.albums.selected == Some(i) ==> {
            &&& move_next(v).albums.selected == Some(if i == usize::MAX { i } else { (i + 1) as usize })
            &&& move_next(v).artists == v.artists
            &&& move_next(v).songs.selected == Some(0usize)
        },
        v.layout == LayoutState::SONGS && v.songs.selected == Some(i) && i + 1 < v.songs_list.len() && i < usize::MAX ==> {
            &&& move_next(v).songs.selected == Some((i + 1) as usize)
            &&& move_next(v).artists == v.artists
            &&& move_next(v).albums == v.albums
        },
{
}

/// In the artists pane, "down" then "up" returns to the artist selected
/// before.
pub proof fn lemma_artists_next_then_previous(v: AppView, i: usize)
    requires
        v.layout == LayoutState::ARTISTS,
        v.artists.selected == Some(i),
        i < usize::MAX,
    ensures
        move_previous(move_next(v)).artists == v.artists,
{
}

/// Every pane but the last has a different pane to its right, and every pane
/// but the first a different pane to its left.
pub proof fn lemma_layout_moves(l: LayoutState)
    ensures
        l != LayoutState::SONGS ==> layout_right(l) != l,
        l != LayoutState::ARTISTS ==> layout_left(l) != l,
        layout_right(LayoutState::ARTISTS) == LayoutState::ALBUMS,
        layout_left(LayoutState::SONGS) == LayoutState::ALBUMS,
{
}

/// The track chosen by a lookup is a song of an album filed under the
/// artist at the selected album's position of the artists list.
pub proof fn lemma_selected_track_source(v: AppView)
    requires
        lookup(v) is Ok,
    ensures
        ({
            let a = v.albums.selected->0 as int;
            let album = albums_by_artist(v.library.library.albums, v.artists_list[a])[a];
            &&& album.artist == v.artists_list[a]
            &&& v.library.library.albums.contains(album)
            &&& album.songs.contains(with_selected_track(v).selected_track->0)
        }),
{
    let a = v.albums.selected->0 as int;
    let s = v.songs.selected->0 as int;
    crate::app::library::lemma_song_lookup_artist(v.library.library.albums, v.artists_list[a], a, s);
    let album = albums_by_artist(v.library.library.albums, v.artists_list[a])[a];
    assert(album.songs[s] == with_selected_track(v).selected_track->0);
}

/// The titles listed are those of the albums, one per album, in order.
pub proof fn lemma_title_lists(albums: Seq<AlbumView>, songs: Seq<SongView>)
    ensures
        album_titles_spec(albums).len() == albums.len(),
        forall|k: int| 0 <= k < albums.len() ==> #[trigger] album_titles_spec(albums)[k] == albums[k].title,
        song_titles_spec(songs).len() == songs.len(),
        forall|k: int| 0 <= k < songs.len() ==> #[trigger] song_titles_spec(songs)[k] == songs[k].title,
{
}

} // verus!
