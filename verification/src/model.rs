use vstd::prelude::*;

verus! {

/// The single playback mode that older saved states carried.
#[derive(Debug, Clone, Copy, PartialEq, Eq, Structural)]
pub enum LegacyPlaybackMode {
    Normal,
    Shuffle,
    Loop,
    LoopOne,
}

#[derive(Debug, Clone, Copy, PartialEq, Eq, Structural)]
pub enum RepeatMode {
    Off,
    All,
    One,
}

#[derive(Debug, Clone, Copy, PartialEq, Eq, Structural)]
pub enum Theme {
    Dark,
    System,
    PitchBlack,
    Galaxy,
    Matrix,
    Demonic,
    CottonCandy,
    Ocean,
    Forest,
    Sunset,
}

#[derive(Debug, Clone, Copy, PartialEq, Eq, Structural)]
pub enum CoverArtTemplate {
    Aurora,
}

impl Default for RepeatMode {
    fn default() -> (r: Self)
        ensures
            r == RepeatMode::Off,
    {
        RepeatMode::Off
    }
}

impl Default for Theme {
    fn default() -> (r: Self)
        ensures
            r == Theme::Dark,
    {
        Theme::Dark
    }
}

impl Default for CoverArtTemplate {
    fn default() -> (r: Self)
        ensures
            r == CoverArtTemplate::Aurora,
    {
        CoverArtTemplate::Aurora
    }
}

impl CoverArtTemplate {
    /// There is a single template left, so cycling stays on it.
    pub fn next(self) -> (r: Self)
        ensures
            r == CoverArtTemplate::Aurora,
    {
        CoverArtTemplate::Aurora
    }
}

pub open spec fn repeat_successor(mode: RepeatMode) -> RepeatMode {
    match mode {
        RepeatMode::Off => RepeatMode::All,
        RepeatMode::All => RepeatMode::One,
        RepeatMode::One => RepeatMode::Off,
    }
}

impl RepeatMode {
    pub fn next(self) -> (r: Self)
        ensures
            r == repeat_successor(self),
    {
        match self {
            RepeatMode::Off => RepeatMode::All,
            RepeatMode::All => RepeatMode::One,
            RepeatMode::One => RepeatMode::Off,
        }
    }

    pub fn label(self) -> (r: &'static str)
        ensures
            self == RepeatMode::Off ==> r@ == "Off"@,
            self == RepeatMode::All ==> r@ == "Playlist"@,
            self == RepeatMode::One ==> r@ == "One"@,
    {
        match self {
            RepeatMode::Off => "Off",
            RepeatMode::All => "Playlist",
            RepeatMode::One => "One",
        }
    }
}

/// Cycling the repeat mode three times returns to the starting mode.
pub proof fn repeat_cycle_has_period_three(mode: RepeatMode)
    ensures
        repeat_successor(repeat_successor(repeat_successor(mode))) == mode,
        repeat_successor(mode) != mode,
{
}

/// A library track; its path is kept as text.
#[derive(Debug)]
pub struct Track {
    pub path: String,
    pub title: String,
    pub artist: Option<String>,
    pub album: Option<String>,
}

#[derive(Debug)]
pub struct Playlist {
    pub tracks: Vec<String>,
}

impl Default for Playlist {
    fn default() -> (r: Self)
        ensures
            r.tracks@.len() == 0,
    {
        Playlist { tracks: Vec::new() }
    }
}

/// The shuffle flag and repeat mode that a legacy playback mode stands for.
pub open spec fn legacy_mode_settings(mode: LegacyPlaybackMode) -> (bool, RepeatMode) {
    match mode {
        LegacyPlaybackMode::Normal => (false, RepeatMode::Off),
        LegacyPlaybackMode::Shuffle => (true, RepeatMode::All),
        LegacyPlaybackMode::Loop => (false, RepeatMode::All),
        LegacyPlaybackMode::LoopOne => (false, RepeatMode::One),
    }
}

/// Replaces a saved legacy playback mode by the shuffle flag and repeat mode it stands for.
/// The legacy field is consumed; without one the settings stay as they are.
pub fn migrate_legacy_playback_mode(
    playback_mode: &mut Option<LegacyPlaybackMode>,
    shuffle_enabled: &mut bool,
    repeat_mode: &mut RepeatMode,
)
    ensures
        *final(playback_mode) is None,
        match *old(playback_mode) {
            Some(mode) => (*final(shuffle_enabled), *final(repeat_mode)) == legacy_mode_settings(
                mode,
            ),
            None => *final(shuffle_enabled) == *old(shuffle_enabled) && *final(repeat_mode)
                == *old(repeat_mode),
        },
{
    let mode = match playback_mode.take() {
        Some(mode) => mode,
        None => return ,
    };
    match mode {
        LegacyPlaybackMode::Normal => {
            *shuffle_enabled = false;
            *repeat_mode = RepeatMode::Off;
        },
        LegacyPlaybackMode::Shuffle => {
            *shuffle_enabled = true;
            *repeat_mode = RepeatMode::All;
        },
        LegacyPlaybackMode::Loop => {
            *shuffle_enabled = false;
            *repeat_mode = RepeatMode::All;
        },
        LegacyPlaybackMode::LoopOne => {
            *shuffle_enabled = false;
            *repeat_mode = RepeatMode::One;
        },
    }
}

pub fn default_stats_enabled() -> (r: bool)
    ensures
        r,
{
    true
}

pub fn default_scrub_seconds() -> (r: u16)
    ensures
        r == 5,
{
    5
}

pub fn default_online_sync_correction_threshold_ms() -> (r: u16)
    ensures
        r == 300,
{
    300
}

pub fn default_stats_top_songs_count() -> (r: u8)
    ensures
        r == 10,
{
    10
}

} // verus!
