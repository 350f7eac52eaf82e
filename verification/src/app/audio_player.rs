//! The playback decisions: which track is loaded, and what the audio output
//! must do when the user asks to play.
use vstd::prelude::*;

verus! {

/// What the audio output must do.
#[derive(Debug)]
pub enum PlayerCommand {
    /// Nothing.
    Idle,
    /// Resume the paused track.
    Resume,
    /// Pause the playing track.
    Pause,
    /// Drop what is queued, then decode the file at this path and play it.
    Load(String),
}

pub enum CommandView {
    Idle,
    Resume,
    Pause,
    Load(Seq<char>),
}

impl View for PlayerCommand {
    type V = CommandView;

    open spec fn view(&self) -> CommandView {
        match self {
            PlayerCommand::Idle => CommandView::Idle,
            PlayerCommand::Resume => CommandView::Resume,
            PlayerCommand::Pause => CommandView::Pause,
            PlayerCommand::Load(p) => CommandView::Load(p@),
        }
    }
}

/// Pausing a playing track and resuming a paused one.
pub open spec fn toggle_spec(paused: bool) -> CommandView {
    if paused {
        CommandView::Resume
    } else {
        CommandView::Pause
    }
}

/// Pauses when `paused` is false, resumes when it is true.
pub fn toggle(paused: bool) -> (r: PlayerCommand)
    ensures
        r@ == toggle_spec(paused),
{
    if paused {
        PlayerCommand::Resume
    } else {
        PlayerCommand::Pause
    }
}

/// The player's state: the path of the loaded track, if any.
pub struct AudioPlayer {
    current_track: Option<String>,
}

pub open spec fn track_view(t: Option<String>) -> Option<Seq<char>> {
    match t {
        Some(s) => Some(s@),
        None => None,
    }
}

impl View for AudioPlayer {
    type V = Option<Seq<char>>;

    closed spec fn view(&self) -> Option<Seq<char>> {
        track_view(self.current_track)
    }
}

/// What "play" asks of the output: toggle pause when a track is loaded,
/// nothing otherwise.
pub open spec fn player_play_spec(current: Option<Seq<char>>, paused: bool) -> CommandView {
    match current {
        Some(_) => toggle_spec(paused),
        None => CommandView::Idle,
    }
}

impl AudioPlayer {
    /// A player with no track loaded.
    pub fn new() -> (r: AudioPlayer)
        ensures
            r@ is None,
    {
        AudioPlayer { current_track: None }
    }

    /// The command for "play", given whether the output is paused: with a
    /// track loaded it toggles between paused and playing, without one it
    /// does nothing.
    pub fn play(&self, paused: bool) -> (r: PlayerCommand)
        ensures
            r@ == player_play_spec(self@, paused),
    {
        match self.current_track.as_ref() {
            Some(_) => toggle(paused),
            None => PlayerCommand::Idle,
        }
    }

    /// Makes `path` the loaded track; the output must load and play it.
    pub fn set_current_track(&mut self, path: &String) -> (r: PlayerCommand)
        ensures
            final(self)@ == Some(path@),
            r@ == CommandView::Load(path@),
    {
        self.current_track = Some(path.clone());
        PlayerCommand::Load(path.clone())
    }

    /// The path of the loaded track, if any.
    pub fn current_track(&self) -> (r: Option<&String>)
        ensures
            track_view(
                match r {
                    Some(s) => Some(*s),
                    None => None,
                },
            ) == self@,
    {
        self.current_track.as_ref()
    }
}

/// Once a track is loaded, "play" toggles between paused and playing, and
/// toggling twice from the same output state gives opposite commands.
pub proof fn lemma_loaded_play_toggles(path: Seq<char>, paused: bool)
    ensures
        player_play_spec(Some(path), paused) == toggle_spec(paused),
        toggle_spec(paused) != toggle_spec(!paused),
        player_play_spec(None, paused) == CommandView::Idle,
{
}

/// "Play" with a track loaded resumes a paused output and pauses a playing
/// one; without a track it does nothing.
pub proof fn lemma_toggle_direction(current: Option<Seq<char>>, paused: bool)
    ensures
        current is Some && paused ==> player_play_spec(current, paused) == CommandView::Resume,
        current is Some && !paused ==> player_play_spec(current, paused) == CommandView::Pause,
        current is None ==> player_play_spec(current, paused) == CommandView::Idle,
{
}

} // verus!
