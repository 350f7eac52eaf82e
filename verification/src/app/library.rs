//! The music library: albums read from the music directory and the catalog
//! of artists, albums and songs built from the tags of their MP3 files.
use vstd::prelude::*;
use vstd::string::*;

verus! {

// ---------------------------------------------------------------------------
// File names
// ---------------------------------------------------------------------------

/// `i` is the position of the last `'.'` in `name`.
pub open spec fn is_last_dot(name: Seq<char>, i: int) -> bool {
    &&& 0 <= i < name.len()
    &&& name[i] == '.'
    &&& forall|j: int| i < j < name.len() ==> name[j] != '.'
}

/// Extension of a file name, as `std::path::Path::extension` documents it:
/// none for `..`, none without a `'.'`, none when the only `'.'` starts the
/// name, and otherwise the text after the last `'.'`.
pub open spec fn file_extension(name: Seq<char>) -> Option<Seq<char>> {
    if name == seq!['.', '.'] {
        None
    } else if exists|i: int| is_last_dot(name, i) && i > 0 {
        let i = choose|i: int| is_last_dot(name, i) && i > 0;
        Some(name.subrange(i + 1, name.len() as int))
    } else {
        None
    }
}

/// A file counts as audio when its extension is exactly `mp3`.
pub open spec fn is_audio_name(name: Seq<char>) -> bool {
    file_extension(name) == Some(seq!['m', 'p', '3'])
}

proof fn lemma_last_dot_unique(name: Seq<char>, i: int, j: int)
    requires
        is_last_dot(name, i),
        is_last_dot(name, j),
    ensures
        i == j,
{
}

/// Whether the file called `file_name` is an audio file of the library: its
/// extension is `mp3` (case-sensitive).
pub fn is_audio(file_name: &str) -> (r: bool)
    ensures
        r == is_audio_name(file_name@),
{
    let n = file_name.unicode_len();
    let ghost name = file_name@;
    let ghost mp3 = seq!['m', 'p', '3'];
    if n < 5 {
        proof {
            if exists|i: int| is_last_dot(name, i) && i > 0 {
                let i = choose|i: int| is_last_dot(name, i) && i > 0;
                let ext = name.subrange(i + 1, name.len() as int);
                if name != seq!['.', '.'] && ext == mp3 {
                    assert(ext.len() == 3);
                }
            }
        }
        return false;
    }
    let r = file_name.get_char(n - 4) == '.' && file_name.get_char(n - 3) == 'm'
        && file_name.get_char(n - 2) == 'p' && file_name.get_char(n - 1) == '3';
    proof {
        if r {
            let d = n - 4;
            assert(is_last_dot(name, d));
            assert(name != seq!['.', '.']);
            assert forall|i: int| is_last_dot(name, i) && i > 0 implies i == d by {
                lemma_last_dot_unique(name, i, d);
            }
            assert(name.subrange(d + 1, n as int) =~= mp3);
        } else {
            if exists|i: int| is_last_dot(name, i) && i > 0 {
                let i = choose|i: int| is_last_dot(name, i) && i > 0;
                let ext = name.subrange(i + 1, name.len() as int);
                if name != seq!['.', '.'] && ext == mp3 {
                    assert(ext.len() == 3);
                    assert(i == n - 4);
                    assert(ext[0] == name[n - 3]);
                    assert(ext[1] == name[n - 2]);
                    assert(ext[2] == name[n - 1]);
                }
            }
        }
    }
    r
}


/// The last component of the path `path`, as `std::path::Path::file_name`
/// gives it: none when the path ends in `..` or has no component.
pub uninterp spec fn path_file_name(path: Seq<char>) -> Option<Seq<char>>;

/// Last component of `path`, by `std::path::Path::file_name`.
///
/// Claimed: the result is `path_file_name` of the path. The component of a
/// path given as text is text itself, so the lossy conversion changes
/// nothing.
#[verifier::external_body]
pub(crate) fn file_name_of(path: &str) -> (r: Option<String>)
    ensures
        match r {
            Some(s) => path_file_name(path@) == Some(s@),
            None => path_file_name(path@) is None,
        },
{
    match std::path::Path::new(path).file_name() {
        Some(name) => Some(name.to_string_lossy().into_owned()),
        None => None,
    }
}

/// The file at `path` is an audio file: its extension, taken from the last
/// component of the path as `Path::extension` does, is exactly `mp3`.
pub open spec fn has_audio_extension(path: Seq<char>) -> bool {
    match path_file_name(path) {
        Some(name) => is_audio_name(name),
        None => false,
    }
}

/// Whether the file at `path` is an audio file of the library.
pub fn is_audio_path(path: &str) -> (r: bool)
    ensures
        r == has_audio_extension(path@),
{
    match file_name_of(path) {
        Some(name) => is_audio(name.as_str()),
        None => false,
    }
}

// ---------------------------------------------------------------------------
// What the directory scan hands over
// ---------------------------------------------------------------------------

/// The tag of an audio file: artist, album and title.
pub struct TrackTag {
    pub artist: String,
    pub album: String,
    pub title: String,
}

#[verifier::ext_equal]
pub struct TagView {
    pub artist: Seq<char>,
    pub album: Seq<char>,
    pub title: Seq<char>,
}

impl View for TrackTag {
    type V = TagView;

    open spec fn view(&self) -> TagView {
        TagView { artist: self.artist@, album: self.album@, title: self.title@ }
    }
}

/// One entry of an album directory: its path, whether it is a regular file,
/// and the primary tag read from it (read only for audio files; `None` when
/// the file has none).
pub struct TrackEntry {
    pub path: String,
    pub is_file: bool,
    pub tag: Option<TrackTag>,
}

#[verifier::ext_equal]
pub struct TrackEntryView {
    pub path: Seq<char>,
    pub is_file: bool,
    pub tag: Option<TagView>,
}

impl View for TrackEntry {
    type V = TrackEntryView;

    open spec fn view(&self) -> TrackEntryView {
        TrackEntryView {
            path: self.path@,
            is_file: self.is_file,
            tag: match self.tag {
                Some(t) => Some(t@),
                None => None,
            },
        }
    }
}

/// One entry of the music directory: its name, whether it is a directory,
/// and, for a directory, its entries.
pub struct FolderEntry {
    pub name: String,
    pub is_dir: bool,
    pub entries: Vec<TrackEntry>,
}

#[verifier::ext_equal]
pub struct FolderEntryView {
    pub name: Seq<char>,
    pub is_dir: bool,
    pub entries: Seq<TrackEntryView>,
}

pub open spec fn entries_view(s: Seq<TrackEntry>) -> Seq<TrackEntryView> {
    s.map_values(|e: TrackEntry| e@)
}

impl View for FolderEntry {
    type V = FolderEntryView;

    open spec fn view(&self) -> FolderEntryView {
        FolderEntryView { name: self.name@, is_dir: self.is_dir, entries: entries_view(self.entries@) }
    }
}

pub open spec fn folders_view(s: Seq<FolderEntry>) -> Seq<FolderEntryView> {
    s.map_values(|f: FolderEntry| f@)
}

// ---------------------------------------------------------------------------
// The library
// ---------------------------------------------------------------------------

/// An album directory: its name and the paths of its audio files.
pub struct Album {
    pub name: String,
    tracks: Vec<String>,
}

#[verifier::ext_equal]
pub struct FolderView {
    pub name: Seq<char>,
    pub tracks: Seq<Seq<char>>,
}

pub open spec fn strings_view(s: Seq<String>) -> Seq<Seq<char>> {
    s.map_values(|x: String| x@)
}

impl View for Album {
    type V = FolderView;

    closed spec fn view(&self) -> FolderView {
        FolderView { name: self.name@, tracks: strings_view(self.tracks@) }
    }
}

/// A performer, known by name.
#[derive(Debug)]
pub struct Artist {
    pub name: String,
}

impl View for Artist {
    type V = Seq<char>;

    open spec fn view(&self) -> Seq<char> {
        self.name@
    }
}

impl Clone for Artist {
    fn clone(&self) -> (r: Artist)
        ensures
            r == *self,
    {
        Artist { name: self.name.clone() }
    }
}

/// A song: its title and the path of its file.
#[derive(Debug)]
pub struct Song {
    pub title: String,
    pub path: String,
}

#[verifier::ext_equal]
pub struct SongView {
    pub title: Seq<char>,
    pub path: Seq<char>,
}

impl View for Song {
    type V = SongView;

    open spec fn view(&self) -> SongView {
        SongView { title: self.title@, path: self.path@ }
    }
}

impl Clone for Song {
    fn clone(&self) -> (r: Song)
        ensures
            r == *self,
    {
        Song { title: self.title.clone(), path: self.path.clone() }
    }
}

pub open spec fn songs_view(s: Seq<Song>) -> Seq<SongView> {
    s.map_values(|x: Song| x@)
}

pub open spec fn artists_view(s: Seq<Artist>) -> Seq<Seq<char>> {
    s.map_values(|x: Artist| x@)
}

/// An album of the catalog: its title, the artist it is filed under and its
/// songs in the order they were found.
#[derive(Debug)]
pub struct ModernAlbum {
    pub title: String,
    pub artist_ref: Artist,
    pub songs: Vec<Song>,
}

#[verifier::ext_equal]
pub struct AlbumView {
    pub title: Seq<char>,
    pub artist: Seq<char>,
    pub songs: Seq<SongView>,
}

impl View for ModernAlbum {
    type V = AlbumView;

    open spec fn view(&self) -> AlbumView {
        AlbumView { title: self.title@, artist: self.artist_ref@, songs: songs_view(self.songs@) }
    }
}

pub open spec fn albums_view(s: Seq<ModernAlbum>) -> Seq<AlbumView> {
    s.map_values(|x: ModernAlbum| x@)
}

/// The catalog: artists, albums and a flat song list.
pub struct ModernLibrary {
    pub artists: Vec<Artist>,
    pub albums: Vec<ModernAlbum>,
    pub songs: Vec<Song>,
}

#[verifier::ext_equal]
pub struct CatalogView {
    pub artists: Seq<Seq<char>>,
    pub albums: Seq<AlbumView>,
    pub songs: Seq<SongView>,
}

impl View for ModernLibrary {
    type V = CatalogView;

    open spec fn view(&self) -> CatalogView {
        CatalogView {
            artists: artists_view(self.artists@),
            albums: albums_view(self.albums@),
            songs: songs_view(self.songs@),
        }
    }
}

/// The whole library: the album directories as read, the catalog built from
/// their tags, and the artist that albums are filed under when their artist
/// was already known.
pub struct Library {
    albums: Vec<Album>,
    library: ModernLibrary,
    default_artist: Artist,
}

#[verifier::ext_equal]
pub struct LibraryView {
    pub albums: Seq<FolderView>,
    pub library: CatalogView,
    pub default_artist: Seq<char>,
}

pub open spec fn folder_views(s: Seq<Album>) -> Seq<FolderView> {
    s.map_values(|x: Album| x@)
}

impl View for Library {
    type V = LibraryView;

    closed spec fn view(&self) -> LibraryView {
        LibraryView {
            albums: folder_views(self.albums@),
            library: self.library@,
            default_artist: self.default_artist@,
        }
    }
}

// ---------------------------------------------------------------------------
// How a scan changes the library
// ---------------------------------------------------------------------------

/// `i` is the first album of `albums` titled `title`.
pub open spec fn is_first_title(albums: Seq<AlbumView>, title: Seq<char>, i: int) -> bool {
    &&& 0 <= i < albums.len()
    &&& albums[i].title == title
    &&& forall|k: int| 0 <= k < i ==> albums[k].title != title
}

/// Position of the first album titled `title`, if there is one.
pub open spec fn title_position(albums: Seq<AlbumView>, title: Seq<char>) -> Option<int> {
    if exists|i: int| is_first_title(albums, title, i) {
        Some(choose|i: int| is_first_title(albums, title, i))
    } else {
        None
    }
}

/// The catalog after the tag `tag` of the file at `path` is taken in.
///
/// An artist not seen before is added, and a new album is filed under it; a
/// new album of a known artist is filed under `default_artist`. When an
/// album of that title exists, the song is appended to it; otherwise an
/// album with no songs is created, and the song itself is not kept.
pub open spec fn register_spec(
    c: CatalogView,
    default_artist: Seq<char>,
    tag: TagView,
    path: Seq<char>,
) -> CatalogView {
    let is_new = !c.artists.contains(tag.artist);
    CatalogView {
        artists: if is_new { c.artists.push(tag.artist) } else { c.artists },
        albums: match title_position(c.albums, tag.album) {
            Some(i) => c.albums.update(
                i,
                AlbumView {
                    title: c.albums[i].title,
                    artist: c.albums[i].artist,
                    songs: c.albums[i].songs.push(SongView { title: tag.title, path: path }),
                },
            ),
            None => c.albums.push(
                AlbumView {
                    title: tag.album,
                    artist: if is_new { tag.artist } else { default_artist },
                    songs: seq![],
                },
            ),
        },
        songs: c.songs,
    }
}

/// The entry is an audio file of the album.
pub open spec fn is_track(e: TrackEntryView) -> bool {
    e.is_file && has_audio_extension(e.path)
}

/// The catalog after the entries of one album directory are taken in, in
/// order: each audio file with a tag is registered.
pub open spec fn scan_entries(
    c: CatalogView,
    default_artist: Seq<char>,
    entries: Seq<TrackEntryView>,
) -> CatalogView
    decreases entries.len(),
{
    if entries.len() == 0 {
        c
    } else {
        let prev = scan_entries(c, default_artist, entries.drop_last());
        let e = entries.last();
        if is_track(e) && e.tag is Some {
            register_spec(prev, default_artist, e.tag->0, e.path)
        } else {
            prev
        }
    }
}

/// Paths of the audio files among `entries`, in order.
pub open spec fn track_paths(entries: Seq<TrackEntryView>) -> Seq<Seq<char>>
    decreases entries.len(),
{
    if entries.len() == 0 {
        seq![]
    } else {
        let prev = track_paths(entries.drop_last());
        if is_track(entries.last()) {
            prev.push(entries.last().path)
        } else {
            prev
        }
    }
}

/// The library after the entries of the music directory are read, in order:
/// each directory becomes an album of its audio files and its tags go into
/// the catalog; other entries are skipped.
pub open spec fn load_spec(lib: LibraryView, folders: Seq<FolderEntryView>) -> LibraryView
    decreases folders.len(),
{
    if folders.len() == 0 {
        lib
    } else {
        let prev = load_spec(lib, folders.drop_last());
        let f = folders.last();
        if f.is_dir {
            LibraryView {
                albums: prev.albums.push(FolderView { name: f.name, tracks: track_paths(f.entries) }),
                library: scan_entries(prev.library, prev.default_artist, f.entries),
                default_artist: prev.default_artist,
            }
        } else {
            prev
        }
    }
}

/// The catalog is consistent: no artist twice, no album title twice, every
/// album filed under a known artist or under the default one, and every song
/// an audio file.
pub open spec fn catalog_wf(c: CatalogView, default_artist: Seq<char>) -> bool {
    &&& forall|i: int, j: int|
        0 <= i < j < c.artists.len() ==> #[trigger] c.artists[i] != #[trigger] c.artists[j]
    &&& forall|i: int, j: int|
        0 <= i < j < c.albums.len() ==> #[trigger] c.albums[i].title != #[trigger] c.albums[j].title
    &&& forall|i: int|
        0 <= i < c.albums.len() ==> (#[trigger] c.albums[i].artist == default_artist
            || c.artists.contains(c.albums[i].artist))
    &&& forall|i: int, j: int|
        0 <= i < c.albums.len() && 0 <= j < c.albums[i].songs.len() ==> has_audio_extension(
            #[trigger] c.albums[i].songs[j].path,
        )
}

/// The albums of `albums` filed under `artist`, in order.
pub open spec fn albums_by_artist(albums: Seq<AlbumView>, artist: Seq<char>) -> Seq<AlbumView>
    decreases albums.len(),
{
    if albums.len() == 0 {
        seq![]
    } else {
        let prev = albums_by_artist(albums.drop_last(), artist);
        if albums.last().artist == artist {
            prev.push(albums.last())
        } else {
            prev
        }
    }
}


/// Why no song is found.
#[derive(Debug, PartialEq, Eq, Structural)]
pub enum SongLookupError {
    /// The artist has fewer albums than the index asks for.
    AlbumNotFound,
    /// The album has fewer songs than the index asks for.
    SongNotFound,
}

/// Whether the album at `album_index` among the albums filed under `artist`
/// has a song at `song_index`, and if not, why.
pub open spec fn song_lookup(albums: Seq<AlbumView>, artist: Seq<char>, album_index: int, song_index: int) -> Result<(), SongLookupError> {
    let by_artist = albums_by_artist(albums, artist);
    if album_index >= by_artist.len() {
        Err(SongLookupError::AlbumNotFound)
    } else if song_index >= by_artist[album_index].songs.len() {
        Err(SongLookupError::SongNotFound)
    } else {
        Ok(())
    }
}

// ---------------------------------------------------------------------------
// Laws of the catalog
// ---------------------------------------------------------------------------

proof fn lemma_title_position_found(albums: Seq<AlbumView>, title: Seq<char>, i: int)
    requires
        is_first_title(albums, title, i),
    ensures
        title_position(albums, title) == Some(i),
{
    let j = choose|j: int| is_first_title(albums, title, j);
    assert(is_first_title(albums, title, j));
    if j < i {
        assert(albums[j].title != title);
    } else if i < j {
        assert(albums[i].title != title);
    }
}

proof fn lemma_title_position_absent(albums: Seq<AlbumView>, title: Seq<char>)
    requires
        forall|k: int| 0 <= k < albums.len() ==> albums[k].title != title,
    ensures
        title_position(albums, title) is None,
{
}

/// Taking in the tag of an audio file keeps the catalog consistent.
pub proof fn lemma_register_preserves_wf(
    c: CatalogView,
    default_artist: Seq<char>,
    tag: TagView,
    path: Seq<char>,
)
    requires
        catalog_wf(c, default_artist),
        has_audio_extension(path),
    ensures
        catalog_wf(register_spec(c, default_artist, tag, path), default_artist),
{
    let r = register_spec(c, default_artist, tag, path);
    let is_new = !c.artists.contains(tag.artist);
    assert forall|i: int| 0 <= i < r.albums.len() implies (#[trigger] r.albums[i].artist
        == default_artist || r.artists.contains(r.albums[i].artist)) by {
        if i < c.albums.len() {
            assert(r.albums[i].artist == c.albums[i].artist);
            if r.albums[i].artist != default_artist {
                let k = choose|k: int| 0 <= k < c.artists.len() && c.artists[k] == c.albums[i].artist;
                assert(r.artists[k] == c.artists[k]);
            }
        } else if is_new {
            assert(r.artists[r.artists.len() - 1] == tag.artist);
        }
    }
    match title_position(c.albums, tag.album) {
        Some(p) => {
            assert(is_first_title(c.albums, tag.album, p));
        },
        None => {
            assert forall|k: int| 0 <= k < c.albums.len() implies c.albums[k].title != tag.album by {
                if c.albums[k].title == tag.album {
                    lemma_first_title_exists(c.albums, tag.album, k);
                }
            }
        },
    }
}

/// When some album is titled `title`, a first one is.
proof fn lemma_first_title_exists(albums: Seq<AlbumView>, title: Seq<char>, k: int)
    requires
        0 <= k < albums.len(),
        albums[k].title == title,
    ensures
        exists|i: int| is_first_title(albums, title, i),
    decreases k,
{
    if exists|j: int| 0 <= j < k && albums[j].title == title {
        let j = choose|j: int| 0 <= j < k && albums[j].title == title;
        lemma_first_title_exists(albums, title, j);
    } else {
        assert(is_first_title(albums, title, k));
    }
}

/// A tag whose album is already in the catalog adds its song at the end of
/// that album, and changes no other album; its artist is known afterwards.
pub proof fn lemma_register_existing_album(
    c: CatalogView,
    default_artist: Seq<char>,
    tag: TagView,
    path: Seq<char>,
    i: int,
)
    requires
        0 <= i < c.albums.len(),
        c.albums[i].title == tag.album,
        catalog_wf(c, default_artist),
    ensures
        ({
            let r = register_spec(c, default_artist, tag, path);
            &&& r.albums.len() == c.albums.len()
            &&& r.albums[i].songs == c.albums[i].songs.push(SongView { title: tag.title, path })
            &&& r.albums[i].songs.last() == (SongView { title: tag.title, path })
            &&& forall|k: int| 0 <= k < c.albums.len() && k != i ==> r.albums[k] == c.albums[k]
            &&& r.artists.contains(tag.artist)
        }),
{
    assert(is_first_title(c.albums, tag.album, i));
    lemma_title_position_found(c.albums, tag.album, i);
    let r = register_spec(c, default_artist, tag, path);
    if !c.artists.contains(tag.artist) {
        assert(r.artists[r.artists.len() - 1] == tag.artist);
    }
}

/// A tag whose album is not in the catalog adds an empty album with that
/// title at the end, and its artist is known afterwards.
pub proof fn lemma_register_new_album(
    c: CatalogView,
    default_artist: Seq<char>,
    tag: TagView,
    path: Seq<char>,
)
    requires
        forall|k: int| 0 <= k < c.albums.len() ==> c.albums[k].title != tag.album,
    ensures
        ({
            let r = register_spec(c, default_artist, tag, path);
            &&& r.albums == c.albums.push(
                AlbumView {
                    title: tag.album,
                    artist: if c.artists.contains(tag.artist) { default_artist } else { tag.artist },
                    songs: seq![],
                },
            )
            &&& r.artists.contains(tag.artist)
        }),
{
    lemma_title_position_absent(c.albums, tag.album);
    let r = register_spec(c, default_artist, tag, path);
    if !c.artists.contains(tag.artist) {
        assert(r.artists[r.artists.len() - 1] == tag.artist);
    }
}

/// Scanning an album directory keeps the catalog consistent.
pub proof fn lemma_scan_preserves_wf(
    c: CatalogView,
    default_artist: Seq<char>,
    entries: Seq<TrackEntryView>,
)
    requires
        catalog_wf(c, default_artist),
    ensures
        catalog_wf(scan_entries(c, default_artist, entries), default_artist),
    decreases entries.len(),
{
    if entries.len() > 0 {
        lemma_scan_preserves_wf(c, default_artist, entries.drop_last());
        let e = entries.last();
        if is_track(e) && e.tag is Some {
            lemma_register_preserves_wf(
                scan_entries(c, default_artist, entries.drop_last()),
                default_artist,
                e.tag->0,
                e.path,
            );
        }
    }
}

/// Loading keeps the catalog consistent and the default artist unchanged.
pub proof fn lemma_load_preserves_wf(lib: LibraryView, folders: Seq<FolderEntryView>)
    requires
        catalog_wf(lib.library, lib.default_artist),
    ensures
        catalog_wf(load_spec(lib, folders).library, lib.default_artist),
        load_spec(lib, folders).default_artist == lib.default_artist,
    decreases folders.len(),
{
    if folders.len() > 0 {
        lemma_load_preserves_wf(lib, folders.drop_last());
        let prev = load_spec(lib, folders.drop_last());
        lemma_scan_preserves_wf(prev.library, prev.default_artist, folders.last().entries);
    }
}

/// The albums of an artist among the first `j` albums come first, in the same
/// order, among the albums of that artist overall.
proof fn lemma_albums_by_artist_prefix(albums: Seq<AlbumView>, artist: Seq<char>, j: int)
    requires
        0 <= j <= albums.len(),
    ensures
        albums_by_artist(albums.take(j), artist).len() <= albums_by_artist(albums, artist).len(),
        forall|k: int|
            0 <= k < albums_by_artist(albums.take(j), artist).len() ==> #[trigger] albums_by_artist(
                albums.take(j),
                artist,
            )[k] == albums_by_artist(albums, artist)[k],
    decreases albums.len(),
{
    if j == albums.len() {
        assert(albums.take(j) =~= albums);
    } else {
        assert(albums.take(j) =~= albums.drop_last().take(j));
        lemma_albums_by_artist_prefix(albums.drop_last(), artist, j);
    }
}

/// Titles of albums, in order.
pub open spec fn titles_of(albums: Seq<AlbumView>) -> Seq<Seq<char>> {
    albums.map_values(|a: AlbumView| a.title)
}

/// Album titles after the tags of `entries` are taken in, in order: the
/// album of each tagged audio file whose title is not yet present is
/// appended, so new titles come in order of first appearance.
pub open spec fn scan_titles(titles: Seq<Seq<char>>, entries: Seq<TrackEntryView>) -> Seq<Seq<char>>
    decreases entries.len(),
{
    if entries.len() == 0 {
        titles
    } else {
        let prev = scan_titles(titles, entries.drop_last());
        let e = entries.last();
        if is_track(e) && e.tag is Some && !prev.contains(e.tag->0.album) {
            prev.push(e.tag->0.album)
        } else {
            prev
        }
    }
}

/// The audio files among `entries`, in order.
pub open spec fn tracks_only(entries: Seq<TrackEntryView>) -> Seq<TrackEntryView>
    decreases entries.len(),
{
    if entries.len() == 0 {
        seq![]
    } else {
        let prev = tracks_only(entries.drop_last());
        if is_track(entries.last()) {
            prev.push(entries.last())
        } else {
            prev
        }
    }
}

proof fn lemma_register_titles(c: CatalogView, default_artist: Seq<char>, tag: TagView, path: Seq<char>)
    ensures
        titles_of(register_spec(c, default_artist, tag, path).albums) == (if titles_of(c.albums).contains(tag.album) {
            titles_of(c.albums)
        } else {
            titles_of(c.albums).push(tag.album)
        }),
{
    let r = register_spec(c, default_artist, tag, path);
    match title_position(c.albums, tag.album) {
        Some(i) => {
            assert(is_first_title(c.albums, tag.album, i));
            assert(titles_of(c.albums)[i] == tag.album);
            assert(titles_of(r.albums) =~= titles_of(c.albums));
        },
        None => {
            if titles_of(c.albums).contains(tag.album) {
                let k = choose|k: int| 0 <= k < titles_of(c.albums).len() && titles_of(c.albums)[k] == tag.album;
                lemma_first_title_exists(c.albums, tag.album, k);
            }
            assert(titles_of(r.albums) =~= titles_of(c.albums).push(tag.album));
        },
    }
}

/// Scanning an album directory appends to the catalog's album titles
/// exactly the titles of its tagged audio files that are not yet present, in
/// order of first appearance; the titles already there stay in place.
pub proof fn lemma_scan_album_titles(c: CatalogView, default_artist: Seq<char>, entries: Seq<TrackEntryView>)
    ensures
        titles_of(scan_entries(c, default_artist, entries).albums) == scan_titles(titles_of(c.albums), entries),
    decreases entries.len(),
{
    if entries.len() > 0 {
        lemma_scan_album_titles(c, default_artist, entries.drop_last());
        let prev = scan_entries(c, default_artist, entries.drop_last());
        let e = entries.last();
        if is_track(e) && e.tag is Some {
            lemma_register_titles(prev, default_artist, e.tag->0, e.path);
        }
    }
}

/// The titles already present stay first, unchanged.
pub proof fn lemma_scan_titles_prefix(titles: Seq<Seq<char>>, entries: Seq<TrackEntryView>)
    ensures
        scan_titles(titles, entries).len() >= titles.len(),
        scan_titles(titles, entries).subrange(0, titles.len() as int) == titles,
    decreases entries.len(),
{
    if entries.len() > 0 {
        lemma_scan_titles_prefix(titles, entries.drop_last());
        let prev = scan_titles(titles, entries.drop_last());
        assert(prev.push(entries.last().tag->0.album).subrange(0, titles.len() as int) =~= prev.subrange(
            0,
            titles.len() as int,
        ));
    }
}

/// Scanning keeps every album already in the catalog at its place, with its
/// title and artist, and its songs as the first of its songs.
pub proof fn lemma_scan_keeps_albums(c: CatalogView, default_artist: Seq<char>, entries: Seq<TrackEntryView>)
    ensures
        ({
            let r = scan_entries(c, default_artist, entries);
            &&& r.albums.len() >= c.albums.len()
            &&& forall|k: int|
                0 <= k < c.albums.len() ==> {
                    &&& #[trigger] r.albums[k].title == c.albums[k].title
                    &&& r.albums[k].artist == c.albums[k].artist
                    &&& r.albums[k].songs.len() >= c.albums[k].songs.len()
                    &&& r.albums[k].songs.subrange(0, c.albums[k].songs.len() as int) == c.albums[k].songs
                }
        }),
    decreases entries.len(),
{
    if entries.len() > 0 {
        lemma_scan_keeps_albums(c, default_artist, entries.drop_last());
        let prev = scan_entries(c, default_artist, entries.drop_last());
        let e = entries.last();
        if is_track(e) && e.tag is Some {
            let r = register_spec(prev, default_artist, e.tag->0, e.path);
            assert forall|k: int| 0 <= k < c.albums.len() implies {
                &&& #[trigger] r.albums[k].title == c.albums[k].title
                &&& r.albums[k].artist == c.albums[k].artist
                &&& r.albums[k].songs.len() >= c.albums[k].songs.len()
                &&& r.albums[k].songs.subrange(0, c.albums[k].songs.len() as int) == c.albums[k].songs
            } by {
                let n = c.albums[k].songs.len() as int;
                assert(prev.albums[k].title == c.albums[k].title);
                assert(prev.albums[k].songs.subrange(0, n) == c.albums[k].songs);
                match title_position(prev.albums, e.tag->0.album) {
                    Some(i) => {
                        if i == k {
                            let pushed = prev.albums[k].songs.push(SongView { title: e.tag->0.title, path: e.path });
                            assert(pushed.subrange(0, n) =~= prev.albums[k].songs.subrange(0, n));
                        }
                    },
                    None => {},
                }
            }
        }
    }
}

proof fn lemma_scan_tracks_only(c: CatalogView, default_artist: Seq<char>, entries: Seq<TrackEntryView>)
    ensures
        scan_entries(c, default_artist, entries) == scan_entries(c, default_artist, tracks_only(entries)),
        track_paths(entries) == track_paths(tracks_only(entries)),
    decreases entries.len(),
{
    if entries.len() > 0 {
        lemma_scan_tracks_only(c, default_artist, entries.drop_last());
        let t = tracks_only(entries);
        if is_track(entries.last()) {
            assert(t.drop_last() =~= tracks_only(entries.drop_last()));
            assert(t.last() == entries.last());
        }
    }
}

/// Entries that are not audio files (directories, files of another
/// extension) change nothing: two listings with the same audio files in the
/// same order give the same catalog and the same album tracks.
pub proof fn lemma_scan_ignores_non_tracks(
    c: CatalogView,
    default_artist: Seq<char>,
    l1: Seq<TrackEntryView>,
    l2: Seq<TrackEntryView>,
)
    requires
        tracks_only(l1) == tracks_only(l2),
    ensures
        scan_entries(c, default_artist, l1) == scan_entries(c, default_artist, l2),
        track_paths(l1) == track_paths(l2),
{
    lemma_scan_tracks_only(c, default_artist, l1);
    lemma_scan_tracks_only(c, default_artist, l2);
}

// ---------------------------------------------------------------------------
// Operations
// ---------------------------------------------------------------------------

/// Whether `artists` holds an artist named `name`.
fn contains_artist(artists: &Vec<Artist>, name: &String) -> (r: bool)
    ensures
        r == artists_view(artists@).contains(name@),
{
    let mut i: usize = 0;
    while i < artists.len()
        invariant
            i <= artists.len(),
            forall|k: int| 0 <= k < i ==> artists@[k]@ != name@,
        decreases artists.len() - i,
    {
        if artists[i].name == *name {
            assert(artists_view(artists@)[i as int] == name@);
            return true;
        }
        i += 1;
    }
    false
}

/// Position of the first album titled `title`, if there is one.
fn position_of_title(albums: &Vec<ModernAlbum>, title: &String) -> (r: Option<usize>)
    ensures
        match r {
            Some(i) => title_position(albums_view(albums@), title@) == Some(i as int),
            None => title_position(albums_view(albums@), title@) is None,
        },
{
    let ghost v = albums_view(albums@);
    let mut i: usize = 0;
    while i < albums.len()
        invariant
            i <= albums.len(),
            v == albums_view(albums@),
            forall|k: int| 0 <= k < i ==> v[k].title != title@,
        decreases albums.len() - i,
    {
        if albums[i].title == *title {
            proof {
                assert(is_first_title(v, title@, i as int));
                lemma_title_position_found(v, title@, i as int);
            }
            return Some(i);
        }
        i += 1;
    }
    proof {
        lemma_title_position_absent(v, title@);
    }
    None
}

impl Library {
    /// An empty library whose default artist is `Other`.
    pub fn new() -> (r: Library)
        ensures
            r@ == (LibraryView {
                albums: seq![],
                library: CatalogView { artists: seq![], albums: seq![], songs: seq![] },
                default_artist: seq!['O', 't', 'h', 'e', 'r'],
            }),
            catalog_wf(r@.library, r@.default_artist),
    {
        let library = ModernLibrary { artists: Vec::new(), albums: Vec::new(), songs: Vec::new() };
        let default_artist = Artist { name: String::from_str("Other") };
        proof {
            reveal_strlit("Other");
        }
        let r = Library { albums: Vec::new(), library, default_artist };
        assert(r@.albums =~= seq![]);
        assert(r@.library.artists =~= seq![]);
        assert(r@.library.albums =~= seq![]);
        assert(r@.library.songs =~= seq![]);
        r
    }

    /// Reads the music directory, given as its entries: every directory
    /// among them becomes an album of its audio files, and the tags of
    /// those files go into the catalog.
    pub fn load(&mut self, music: &Vec<FolderEntry>)
        ensures
            final(self)@ == load_spec(old(self)@, folders_view(music@)),
            catalog_wf(old(self)@.library, old(self)@.default_artist) ==> catalog_wf(
                final(self)@.library,
                final(self)@.default_artist,
            ),
    {
        let ghost start = self@;
        let ghost folders = folders_view(music@);
        let mut i: usize = 0;
        while i < music.len()
            invariant
                i <= music.len(),
                folders == folders_view(music@),
                self@ == load_spec(start, folders.take(i as int)),
            decreases music.len() - i,
        {
            proof {
                assert(folders.take(i + 1).drop_last() =~= folders.take(i as int));
            }
            if music[i].is_dir {
                let album = self.read_dir(&music[i]);
                self.albums.push(album);
                proof {
                    assert(self@.albums =~= load_spec(start, folders.take(i + 1)).albums);
                }
            }
            i += 1;
        }
        proof {
            assert(folders.take(music.len() as int) =~= folders);
            if catalog_wf(start.library, start.default_artist) {
                lemma_load_preserves_wf(start, folders);
            }
        }
    }

    /// The known artists, in the order they were first met.
    pub fn get_artists(&self) -> (r: &Vec<Artist>)
        ensures
            artists_view(r@) == self@.library.artists,
    {
        &self.library.artists
    }

    /// The albums of the catalog, in the order they were first met.
    pub fn get_albums(&self) -> (r: &Vec<ModernAlbum>)
        ensures
            albums_view(r@) == self@.library.albums,
    {
        &self.library.albums
    }

    /// The songs of the album at `album_index`.
    pub fn get_songs(&self, album_index: usize) -> (r: Vec<Song>)
        requires
            album_index < self@.library.albums.len(),
        ensures
            songs_view(r@) == self@.library.albums[album_index as int].songs,
    {
        let r = self.library.albums[album_index].songs.clone();
        proof {
            let src = self.library.albums@[album_index as int].songs@;
            assert forall|k: int| 0 <= k < r@.len() implies r@[k] == src[k] by {
                assert(cloned::<Song>(src[k], r@[k]));
            }
            assert(songs_view(r@) =~= songs_view(src));
        }
        r
    }

    /// The song at `song_index` of the album at `album_index` among the
    /// albums filed under `artist`.
    pub fn get_song(&self, artist: String, album_index: usize, song_index: usize) -> (r: Song)
        requires
            song_lookup(self@.library.albums, artist@, album_index as int, song_index as int) is Ok,
        ensures
            r@ == albums_by_artist(self@.library.albums, artist@)[album_index as int].songs[song_index as int],
    {
        let i = self.nth_album_by_artist(&artist, album_index).unwrap();
        let r = self.library.albums[i].songs[song_index].clone();
        assert(self@.library.albums[i as int].songs[song_index as int] == self.library.albums@[i as int].songs@[song_index as int]@);
        r
    }

    /// Whether [`Library::get_song`] finds a song for these arguments, and
    /// if not, why.
    pub fn check_song(&self, artist: &String, album_index: usize, song_index: usize) -> (r: Result<(), SongLookupError>)
        ensures
            r == song_lookup(self@.library.albums, artist@, album_index as int, song_index as int),
    {
        match self.nth_album_by_artist(artist, album_index) {
            None => Err(SongLookupError::AlbumNotFound),
            Some(i) => {
                if song_index < self.library.albums[i].songs.len() {
                    Ok(())
                } else {
                    Err(SongLookupError::SongNotFound)
                }
            },
        }
    }

    /// Position in the catalog of the album at `n` among the albums filed
    /// under `artist`, if there are that many.
    fn nth_album_by_artist(&self, artist: &String, n: usize) -> (r: Option<usize>)
        ensures
            match r {
                Some(i) => {
                    &&& i < self@.library.albums.len()
                    &&& n < albums_by_artist(self@.library.albums, artist@).len()
                    &&& albums_by_artist(self@.library.albums, artist@)[n as int] == self@.library.albums[i as int]
                },
                None => n >= albums_by_artist(self@.library.albums, artist@).len(),
            },
    {
        let ghost v = self@.library.albums;
        let ghost by_artist = albums_by_artist(v, artist@);
        let albums = &self.library.albums;
        let mut count: usize = 0;
        let mut i: usize = 0;
        while i < albums.len()
            invariant
                i <= albums.len(),
                v == albums_view(albums@),
                v == self@.library.albums,
                by_artist == albums_by_artist(v, artist@),
                count == albums_by_artist(v.take(i as int), artist@).len(),
                count <= n,
            decreases albums.len() - i,
        {
            proof {
                assert(v.take(i + 1).drop_last() =~= v.take(i as int));
                lemma_albums_by_artist_prefix(v, artist@, i + 1);
            }
            if albums[i].artist_ref.name == *artist {
                proof {
                    let t = v.take(i + 1);
                    assert(t.last() == v[i as int]);
                    assert(albums_by_artist(t, artist@) == albums_by_artist(v.take(i as int), artist@).push(
                        v[i as int],
                    ));
                    assert(albums_by_artist(t, artist@)[count as int] == v[i as int]);
                }
                if count == n {
                    return Some(i);
                }
                count += 1;
            }
            i += 1;
        }
        assert(v.take(albums.len() as int) =~= v);
        None
    }

    /// Takes in the tag of the audio file at `path`.
    fn register_track(&mut self, tag: &TrackTag, path: &String)
        ensures
            final(self)@ == (LibraryView {
                library: register_spec(old(self)@.library, old(self)@.default_artist, tag@, path@),
                ..old(self)@
            }),
    {
        let ghost c = self@.library;
        let known = contains_artist(&self.library.artists, &tag.artist);
        let artist_ref = if !known {
            let a = Artist { name: tag.artist.clone() };
            self.library.artists.push(a.clone());
            a
        } else {
            self.default_artist.clone()
        };
        proof {
            assert(artists_view(self.library.artists@) =~= register_spec(
                c,
                self@.default_artist,
                tag@,
                path@,
            ).artists);
        }
        match position_of_title(&self.library.albums, &tag.album) {
            Some(index) => {
                let song = Song { title: tag.title.clone(), path: path.clone() };
                let ghost before = self.library.albums@;
                self.library.albums[index].songs.push(song);
                proof {
                    assert(self.library.albums@ =~= before.update(index as int, self.library.albums@[index as int]));
                    assert(songs_view(self.library.albums@[index as int].songs@) =~= c.albums[index as int].songs.push(
                        SongView { title: tag@.title, path: path@ },
                    ));
                    assert(albums_view(self.library.albums@) =~= register_spec(
                        c,
                        self@.default_artist,
                        tag@,
                        path@,
                    ).albums);
                }
            },
            None => {
                let album = ModernAlbum { title: tag.album.clone(), artist_ref, songs: Vec::new() };
                assert(songs_view(album.songs@) =~= seq![]);
                self.library.albums.push(album);
                proof {
                    assert(albums_view(self.library.albums@) =~= register_spec(
                        c,
                        self@.default_artist,
                        tag@,
                        path@,
                    ).albums);
                }
            },
        }
    }

    /// Reads one album directory, given as its entries: returns the album of
    /// its audio files and takes their tags into the catalog.
    fn read_dir(&mut self, folder: &FolderEntry) -> (album: Album)
        ensures
            album@ == (FolderView { name: folder@.name, tracks: track_paths(folder@.entries) }),
            final(self)@ == (LibraryView {
                library: scan_entries(old(self)@.library, old(self)@.default_artist, folder@.entries),
                ..old(self)@
            }),
    {
        let ghost start = self@;
        let ghost entries = folder@.entries;
        let mut album = Album { name: folder.name.clone(), tracks: Vec::new() };
        let mut i: usize = 0;
        while i < folder.entries.len()
            invariant
                i <= folder.entries.len(),
                entries == entries_view(folder.entries@),
                album@ == (FolderView { name: folder@.name, tracks: track_paths(entries.take(i as int)) }),
                self@ == (LibraryView {
                    library: scan_entries(start.library, start.default_artist, entries.take(i as int)),
                    ..start
                }),
            decreases folder.entries.len() - i,
        {
            proof {
                assert(entries.take(i + 1).drop_last() =~= entries.take(i as int));
            }
            let entry = &folder.entries[i];
            if entry.is_file && is_audio_path(entry.path.as_str()) {
                match &entry.tag {
                    Some(tag) => self.register_track(tag, &entry.path),
                    None => {},
                }
                album.tracks.push(entry.path.clone());
                proof {
                    assert(album@.tracks =~= track_paths(entries.take(i + 1)));
                }
            }
            i += 1;
        }
        proof {
            assert(entries.take(folder.entries.len() as int) =~= entries);
        }
        album
    }
}
/// The albums filed under `artist` are exactly the albums whose artist is
/// `artist`, with none left out: each has that artist and stands in the
/// catalog, and each album of that artist is among them.
pub proof fn lemma_albums_by_artist_exact(albums: Seq<AlbumView>, artist: Seq<char>)
    ensures
        albums_by_artist(albums, artist).len() <= albums.len(),
        forall|k: int|
            0 <= k < albums_by_artist(albums, artist).len() ==> (#[trigger] albums_by_artist(albums, artist)[k]).artist
                == artist,
        forall|k: int|
            0 <= k < albums_by_artist(albums, artist).len() ==> albums.contains(
                #[trigger] albums_by_artist(albums, artist)[k],
            ),
        forall|i: int|
            0 <= i < albums.len() && (#[trigger] albums[i]).artist == artist ==> albums_by_artist(
                albums,
                artist,
            ).contains(albums[i]),
        (forall|i: int| 0 <= i < albums.len() ==> (#[trigger] albums[i]).artist != artist) ==> albums_by_artist(
            albums,
            artist,
        ).len() == 0,
    decreases albums.len(),
{
    if albums.len() > 0 {
        let d = albums.drop_last();
        lemma_albums_by_artist_exact(d, artist);
        let p = albums_by_artist(d, artist);
        let r = albums_by_artist(albums, artist);
        assert forall|k: int| 0 <= k < r.len() implies albums.contains(#[trigger] r[k]) by {
            if k < p.len() {
                assert(r[k] == p[k]);
                let j = choose|j: int| 0 <= j < d.len() && d[j] == p[k];
                assert(albums[j] == d[j]);
            } else {
                assert(r[k] == albums[albums.len() - 1]);
            }
        }
        assert forall|i: int| 0 <= i < albums.len() && (#[trigger] albums[i]).artist == artist implies r.contains(
            albums[i],
        ) by {
            if i < albums.len() - 1 {
                assert(d[i] == albums[i]);
                assert(p.contains(d[i]));
                let k = choose|k: int| 0 <= k < p.len() && p[k] == d[i];
                assert(r[k] == p[k]);
            } else {
                assert(r[r.len() - 1] == albums[i]);
            }
        }
        if forall|i: int| 0 <= i < albums.len() ==> (#[trigger] albums[i]).artist != artist {
            assert forall|i: int| 0 <= i < d.len() implies (#[trigger] d[i]).artist != artist by {
                assert(albums[i] == d[i]);
            }
        }
    }
}

/// A song found by artist and indices belongs to an album filed under that
/// exact artist.
pub proof fn lemma_song_lookup_artist(
    albums: Seq<AlbumView>,
    artist: Seq<char>,
    album_index: int,
    song_index: int,
)
    requires
        0 <= album_index,
        0 <= song_index,
        song_lookup(albums, artist, album_index, song_index) is Ok,
    ensures
        albums_by_artist(albums, artist)[album_index].artist == artist,
        albums.contains(albums_by_artist(albums, artist)[album_index]),
        song_index < albums_by_artist(albums, artist)[album_index].songs.len(),
{
    lemma_albums_by_artist_exact(albums, artist);
    assert(albums_by_artist(albums, artist)[album_index] == albums_by_artist(albums, artist)[album_index]);
}

/// A name counts as audio exactly when it is at least five characters long
/// and ends in `.mp3` (case-sensitive).
pub proof fn lemma_audio_name_suffix(name: Seq<char>)
    ensures
        is_audio_name(name) <==> (name.len() >= 5 && name.subrange(name.len() - 4, name.len() as int)
            == seq!['.', 'm', 'p', '3']),
{
    let n = name.len() as int;
    let mp3 = seq!['m', 'p', '3'];
    if name.len() >= 5 && name.subrange(n - 4, n) == seq!['.', 'm', 'p', '3'] {
        let d = n - 4;
        assert(name[d] == name.subrange(n - 4, n)[0]);
        assert(name[d + 1] == name.subrange(n - 4, n)[1]);
        assert(name[d + 2] == name.subrange(n - 4, n)[2]);
        assert(name[d + 3] == name.subrange(n - 4, n)[3]);
        assert(is_last_dot(name, d));
        assert(name != seq!['.', '.']);
        assert forall|i: int| is_last_dot(name, i) && i > 0 implies i == d by {
            lemma_last_dot_unique(name, i, d);
        }
        assert(name.subrange(d + 1, n) =~= mp3);
    }
    if is_audio_name(name) {
        let i = choose|i: int| is_last_dot(name, i) && i > 0;
        let ext = name.subrange(i + 1, n);
        assert(ext == mp3);
        assert(ext.len() == 3);
        assert(ext[0] == name[i + 1]);
        assert(ext[1] == name[i + 2]);
        assert(ext[2] == name[i + 3]);
        assert(name.subrange(n - 4, n) =~= seq!['.', 'm', 'p', '3']);
    }
}

/// The directories among `folders`, in order.
pub open spec fn dirs_only(folders: Seq<FolderEntryView>) -> Seq<FolderEntryView>
    decreases folders.len(),
{
    if folders.len() == 0 {
        seq![]
    } else {
        let prev = dirs_only(folders.drop_last());
        if folders.last().is_dir {
            prev.push(folders.last())
        } else {
            prev
        }
    }
}

proof fn lemma_load_dirs_only(lib: LibraryView, folders: Seq<FolderEntryView>)
    ensures
        load_spec(lib, folders) == load_spec(lib, dirs_only(folders)),
    decreases folders.len(),
{
    if folders.len() > 0 {
        lemma_load_dirs_only(lib, folders.drop_last());
        let d = dirs_only(folders);
        if folders.last().is_dir {
            assert(d.drop_last() =~= dirs_only(folders.drop_last()));
        }
    }
}

/// Entries of the music directory that are not directories change nothing:
/// two listings with the same directories in the same order load the same
/// library.
pub proof fn lemma_load_ignores_non_dirs(lib: LibraryView, f1: Seq<FolderEntryView>, f2: Seq<FolderEntryView>)
    requires
        dirs_only(f1) == dirs_only(f2),
    ensures
        load_spec(lib, f1) == load_spec(lib, f2),
{
    lemma_load_dirs_only(lib, f1);
    lemma_load_dirs_only(lib, f2);
}

/// Loading adds one album per directory, after the albums already there,
/// named after the directory.
pub proof fn lemma_load_albums(lib: LibraryView, folders: Seq<FolderEntryView>)
    ensures
        load_spec(lib, folders).albums.len() == lib.albums.len() + dirs_only(folders).len(),
        load_spec(lib, folders).albums.subrange(0, lib.albums.len() as int) == lib.albums,
        forall|k: int|
            0 <= k < dirs_only(folders).len() ==> #[trigger] load_spec(lib, folders).albums[lib.albums.len() + k].name
                == dirs_only(folders)[k].name,
    decreases folders.len(),
{
    if folders.len() > 0 {
        lemma_load_albums(lib, folders.drop_last());
        let prev = load_spec(lib, folders.drop_last());
        let n = lib.albums.len() as int;
        if folders.last().is_dir {
            let f = folders.last();
            let pushed = prev.albums.push(FolderView { name: f.name, tracks: track_paths(f.entries) });
            assert(pushed.subrange(0, n) =~= prev.albums.subrange(0, n));
            assert forall|k: int| 0 <= k < dirs_only(folders).len() implies #[trigger] load_spec(lib, folders).albums[n + k].name
                == dirs_only(folders)[k].name by {
                if k < dirs_only(folders.drop_last()).len() {
                    assert(prev.albums[n + k].name == dirs_only(folders.drop_last())[k].name);
                }
            }
        }
    }
}

/// Every path among the tracks of an album directory is that of an audio
/// file.
pub proof fn lemma_track_paths_audio(entries: Seq<TrackEntryView>)
    ensures
        forall|k: int| 0 <= k < track_paths(entries).len() ==> has_audio_extension(#[trigger] track_paths(entries)[k]),
        track_paths(entries).len() <= entries.len(),
    decreases entries.len(),
{
    if entries.len() > 0 {
        lemma_track_paths_audio(entries.drop_last());
        let p = track_paths(entries.drop_last());
        assert forall|k: int| 0 <= k < track_paths(entries).len() implies has_audio_extension(
            #[trigger] track_paths(entries)[k],
        ) by {
            if k < p.len() {
                assert(track_paths(entries)[k] == p[k]);
            }
        }
    }
}

} // verus!
