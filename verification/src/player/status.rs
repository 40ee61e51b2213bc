//! What the player knows of playback, and how it follows the status that the server reports.
//!
//! A status is taken in three steps. The first takes over the options and says which of them changed.
//! The second says what is to be done about the song: fetch a new one, or record the current one in the
//! history of playback. The last takes over the position and the length of the queue.
use vstd::prelude::*;

use crate::common::song::SongStickers;

use super::flow::{flow_of, FftSource, FftStatus, LoopStatus, PlaybackFlow, PlaybackState, ReplayGain};

verus! {

/// The format of the samples that are played.
#[derive(Debug, Clone, Copy, PartialEq, Eq, Structural)]
pub struct AudioFormat {
    pub rate: u32,
    pub bits: u8,
    pub chans: u8,
}

/// What the server reports. Times are in nanoseconds.
#[derive(Debug, Clone, Copy, PartialEq, Eq, Structural)]
pub struct Status {
    pub state: PlaybackState,
    pub repeat: bool,
    pub single: bool,
    pub random: bool,
    pub consume: bool,
    pub replaygain: Option<ReplayGain>,
    pub audio: Option<AudioFormat>,
    pub bitrate: Option<u32>,
    pub mixramp_delay: Option<u64>,
    pub crossfade: Option<u64>,
    pub volume: i8,
    /// What the server calls the entry of the queue that is current.
    pub song: Option<u32>,
    pub elapsed: Option<u64>,
    pub queue_version: u32,
    pub queue_len: u32,
}

impl Default for Status {
    /// What is taken for the status where the server does not report one.
    fn default() -> (r: Self)
        ensures
            r == no_status(),
    {
        Status {
            state: PlaybackState::Stopped,
            repeat: false,
            single: false,
            random: false,
            consume: false,
            replaygain: None,
            audio: None,
            bitrate: None,
            mixramp_delay: None,
            crossfade: None,
            volume: 0,
            song: None,
            elapsed: None,
            queue_version: 0,
            queue_len: 0,
        }
    }
}

/// What is taken for the status where the server does not report one.
pub open spec fn no_status() -> Status {
    Status {
        state: PlaybackState::Stopped,
        repeat: false,
        single: false,
        random: false,
        consume: false,
        replaygain: None,
        audio: None,
        bitrate: None,
        mixramp_delay: None,
        crossfade: None,
        volume: 0,
        song: None,
        elapsed: None,
        queue_version: 0,
        queue_len: 0,
    }
}

/// What the reader of the visualiser's samples is.
#[derive(Debug, Clone, Copy, PartialEq, Eq, Structural)]
pub struct FftReader {
    /// Whether it reads from PipeWire.
    pub is_pipewire: bool,
    pub status: FftStatus,
}

/// The options of playback.
#[derive(Debug, Clone, Copy, PartialEq, Eq, Structural)]
pub struct Options {
    pub state: PlaybackState,
    pub replaygain: ReplayGain,
    pub flow: PlaybackFlow,
    pub random: bool,
    pub consume: bool,
    pub format: Option<AudioFormat>,
    pub bitrate: u32,
    /// In nanoseconds.
    pub mixramp_delay: u64,
    /// In nanoseconds.
    pub crossfade: u64,
    /// In percent.
    pub volume: i8,
}

/// The options that a status reports.
pub open spec fn options_of(s: Status) -> Options {
    Options {
        state: s.state,
        replaygain: match s.replaygain {
            Some(mode) => mode,
            None => ReplayGain::Off,
        },
        flow: flow_of(s.repeat, s.single),
        random: s.random,
        consume: s.consume,
        format: s.audio,
        bitrate: match s.bitrate {
            Some(b) => b,
            None => 0,
        },
        mixramp_delay: or_zero(s.mixramp_delay),
        crossfade: or_zero(s.crossfade),
        volume: s.volume,
    }
}

impl Options {
    /// The options that a status reports.
    pub fn from_status(s: &Status) -> (r: Self)
        ensures
            r == options_of(*s),
    {
        Options {
            state: s.state,
            replaygain: s.replaygain.unwrap_or(ReplayGain::Off),
            flow: PlaybackFlow::from_status(s.repeat, s.single),
            random: s.random,
            consume: s.consume,
            format: s.audio,
            bitrate: s.bitrate.unwrap_or(0),
            mixramp_delay: s.mixramp_delay.unwrap_or(0),
            crossfade: s.crossfade.unwrap_or(0),
            volume: s.volume,
        }
    }
}

/// What the player knows of playback.
#[derive(Debug)]
pub struct Player {
    pub options: Options,
    /// How many reports of a changed volume are still to come that this player has caused.
    pub expected_volume_changes: u32,
    pub current_song: Option<SongStickers>,
    /// Whether the current song has been written into the history of playback.
    pub saved_to_history: bool,
    /// In nanoseconds.
    pub position: u64,
    pub current_lyric_line: u32,
    pub queue: Vec<SongStickers>,
    /// The length of the server's queue, of which less may have been fetched.
    pub queue_len: u32,
    pub queue_initialized: bool,
    pub queue_version: u32,
    /// The version of the queue that the edits which were applied locally lead to.
    pub expected_queue_version: u32,
    pub mpris_enabled: bool,
    pub pipewire_restart_between_songs: bool,
    pub use_visualizer: bool,
    pub is_foreground: bool,
    pub fft_source: FftSource,
    pub fft_status: FftStatus,
    pub supports_playlists: bool,
}

/// Properties that listeners are told about.
#[derive(Debug, Clone, Copy, PartialEq, Eq, Structural)]
pub enum Property {
    PlaybackState,
    ReplayGain,
    PlaybackFlow,
    Random,
    Consume,
    FormatDesc,
    Bitrate,
    MixrampDelay,
    Crossfade,
    Title,
    Artist,
    Album,
    Duration,
    Rating,
    QualityGrade,
    QueueId,
    Position,
    CurrentLyricLine,
    QueueLen,
    SupportsPlaylists,
    UseVisualizer,
    FftBackendIdx,
    FftStatus,
    PipewireRestartBetweenSongs,
}

/// What taking in a status brings about.
#[derive(Debug, Clone, Copy, PartialEq, Eq, Structural)]
pub enum Effect {
    /// Tell listeners that a property has changed.
    Notify(Property),
    /// Tell listeners about a volume that another client has set.
    VolumeChanged(i8),
    /// Tell listeners that another cover is to be shown.
    CoverChanged,
    /// Poll for the position.
    StartPolling,
    StopPolling,
    /// Start the reader of the visualiser's samples.
    StartFft,
    StopFft,
    /// Drop the lyrics that are shown and fetch those of the new song.
    RefreshLyrics,
    /// Tell the media controls about a jump to a position in nanoseconds.
    SeekMpris(u64),
}

/// What the desktop's media controls are told.
#[derive(Debug, Clone, Copy, PartialEq, Eq, Structural)]
pub enum MprisChange {
    PlaybackStatus(PlaybackState),
    LoopStatus(LoopStatus),
    Shuffle(bool),
    /// In percent.
    Volume(i8),
    /// The metadata of the current song.
    Metadata,
    /// That there is no song.
    NoTrack,
}

/// A list of one item, or of none.
pub open spec fn only_if<T>(cond: bool, item: T) -> Seq<T> {
    if cond {
        seq![item]
    } else {
        Seq::empty()
    }
}

pub open spec fn or_zero(n: Option<u64>) -> u64 {
    match n {
        Some(v) => v,
        None => 0,
    }
}

/// The player with the options of a status.
pub open spec fn with_options(p: Player, s: Status) -> Player {
    Player {
        options: options_of(s),
        expected_volume_changes: if p.options.volume != s.volume && p.expected_volume_changes > 0 {
            (p.expected_volume_changes - 1) as u32
        } else {
            p.expected_volume_changes
        },
        ..p
    }
}

/// What listeners are told when options change. A volume is not told where a change of it is expected.
#[verifier::opaque]
pub open spec fn option_effects(a: Options, b: Options, volume_expected: bool) -> Seq<Effect> {
    seq![
        if b.state == PlaybackState::Playing {
            Effect::StartPolling
        } else {
            Effect::StopPolling
        },
    ] + only_if(a.state != b.state, Effect::Notify(Property::PlaybackState)) + only_if(
        a.replaygain != b.replaygain,
        Effect::Notify(Property::ReplayGain),
    ) + only_if(a.flow != b.flow, Effect::Notify(Property::PlaybackFlow)) + only_if(
        a.random != b.random,
        Effect::Notify(Property::Random),
    ) + only_if(a.consume != b.consume, Effect::Notify(Property::Consume)) + only_if(
        a.format != b.format,
        Effect::Notify(Property::FormatDesc),
    ) + only_if(a.bitrate != b.bitrate, Effect::Notify(Property::Bitrate)) + only_if(
        a.mixramp_delay != b.mixramp_delay,
        Effect::Notify(Property::MixrampDelay),
    ) + only_if(a.crossfade != b.crossfade, Effect::Notify(Property::Crossfade)) + only_if(
        a.volume != b.volume && !volume_expected,
        Effect::VolumeChanged(b.volume),
    )
}

/// What the media controls are told when options change.
#[verifier::opaque]
pub open spec fn option_mpris(a: Options, b: Options) -> Seq<MprisChange> {
    only_if(a.state != b.state, MprisChange::PlaybackStatus(b.state)) + only_if(
        a.flow != b.flow,
        MprisChange::LoopStatus(b.flow.as_loop()),
    ) + only_if(a.random != b.random, MprisChange::Shuffle(b.random)) + only_if(
        a.volume != b.volume,
        MprisChange::Volume(b.volume),
    )
}

/// What is to be done about the song after the options of a status were taken over.
#[derive(Debug, Clone, Copy, PartialEq, Eq, Structural)]
pub enum SongStep {
    /// Nothing.
    Keep,
    /// Fetch the song that is now current. Where the flag is set the song before it was skipped, which
    /// is to be written into its stickers first.
    Fetch(u32, bool),
    /// Write the current song into the history of playback and count that it was played.
    Record,
}

/// Whether the song that was left counts as skipped: it has played for more than ten seconds and has
/// not counted as played.
pub open spec fn counts_as_skipped(p: Player) -> bool {
    !p.saved_to_history && p.position > 10_000_000_000
}

/// Whether a song counts as played: it is longer than ten seconds and has played for four minutes or
/// for half of its duration. The duration is in seconds, and the time that has elapsed in nanoseconds.
pub open spec fn counts_as_played(duration: int, elapsed: int) -> bool {
    duration > 10 && (2 * elapsed >= duration * 1_000_000_000 || elapsed >= 240_000_000_000)
}

/// The duration of a song in seconds.
pub open spec fn song_duration(song: SongStickers) -> int {
    match song.0.duration {
        Some(d) => d as int,
        None => 0,
    }
}

/// What is to be done about the song.
pub open spec fn song_step(p: Player, s: Status, history_paused: bool) -> SongStep {
    match s.song {
        None => SongStep::Keep,
        Some(id) => match p.current_song {
            None => SongStep::Fetch(id, false),
            Some(song) => if song.0.queue_id != Some(id) {
                SongStep::Fetch(id, counts_as_skipped(p))
            } else if !history_paused && !p.saved_to_history && s.elapsed is Some
                && counts_as_played(song_duration(song), s.elapsed->0 as int) {
                SongStep::Record
            } else {
                SongStep::Keep
            },
        },
    }
}

/// Whether the reader of the visualiser's samples may run.
pub open spec fn may_visualize(p: Player) -> bool {
    p.use_visualizer && p.is_foreground
}

/// Whether the reader of the visualiser's samples has to be stopped before another song starts.
pub open spec fn must_pause_fft(p: Player, fft: Option<FftReader>) -> bool {
    p.pipewire_restart_between_songs && fft is Some && fft->0.is_pipewire && fft->0.status
        != FftStatus::ValidNotReading
}

/// The player with another song.
pub open spec fn with_song(p: Player, song: SongStickers) -> Player {
    Player { current_song: Some(song), saved_to_history: false, ..p }
}

/// What listeners are told when another song plays.
pub open spec fn new_song_effects(p: Player, fft: Option<FftReader>) -> Seq<Effect> {
    only_if(
        p.pipewire_restart_between_songs && fft is Some && fft->0.is_pipewire && may_visualize(p),
        Effect::StartFft,
    ) + song_notices()
}

/// What every new song is announced with.
pub open spec fn song_notices() -> Seq<Effect> {
    seq![
        Effect::RefreshLyrics,
        Effect::Notify(Property::Title),
        Effect::Notify(Property::Artist),
        Effect::Notify(Property::Duration),
        Effect::Notify(Property::Rating),
        Effect::Notify(Property::QualityGrade),
        Effect::Notify(Property::FormatDesc),
        Effect::Notify(Property::Album),
        Effect::Notify(Property::QueueId),
        Effect::CoverChanged,
    ]
}

/// What the end of playback is announced with.
pub open spec fn end_notices() -> Seq<Effect> {
    seq![
        Effect::Notify(Property::Title),
        Effect::Notify(Property::Artist),
        Effect::Notify(Property::Album),
        Effect::Notify(Property::Rating),
        Effect::Notify(Property::Duration),
        Effect::Notify(Property::QueueId),
        Effect::CoverChanged,
    ]
}

/// Whether no song is playing. After a stop the server still names the song that played last.
pub open spec fn nothing_plays(s: Status) -> bool {
    s.song is None || s.state == PlaybackState::Stopped
}

/// The player with the rest of a status.
pub open spec fn with_position(p: Player, s: Status) -> Player {
    Player {
        current_song: if nothing_plays(s) {
            None
        } else {
            p.current_song
        },
        saved_to_history: if nothing_plays(s) && p.current_song is Some {
            false
        } else {
            p.saved_to_history
        },
        position: or_zero(s.elapsed),
        queue_len: s.queue_len,
        ..p
    }
}

/// The duration of the current song in seconds.
pub open spec fn duration_of(p: Player) -> int {
    match p.current_song {
        Some(song) => song_duration(song),
        None => 0,
    }
}

/// Whether the current song ends within two seconds.
pub open spec fn is_about_to_end(p: Player) -> bool {
    0 <= duration_of(p) * 1_000_000_000 - p.position < 2_000_000_000
}

/// A queue cut to a length.
pub open spec fn cut_to<T>(queue: Seq<T>, len: int) -> Seq<T> {
    if queue.len() > len {
        queue.take(len)
    } else {
        queue
    }
}

/// What listeners are told when the rest of a status is taken over.
pub open spec fn position_effects(p: Player, s: Status, fft: Option<FftReader>) -> Seq<Effect> {
    let n = with_position(p, s);
    (if nothing_plays(s) && p.current_song is Some {
        end_notices()
    } else {
        Seq::empty()
    }) + only_if(p.position != n.position, Effect::Notify(Property::Position)) + only_if(
        s.elapsed is Some && p.position != n.position && p.mpris_enabled,
        Effect::SeekMpris(n.position),
    ) + only_if(s.elapsed is Some && must_pause_fft(p, fft) && is_about_to_end(n), Effect::StopFft)
        + only_if(p.queue_len != n.queue_len, Effect::Notify(Property::QueueLen))
}

/// What the media controls are told when the rest of a status is taken over.
pub open spec fn position_mpris(p: Player, s: Status) -> Seq<MprisChange> {
    only_if(p.mpris_enabled && nothing_plays(s) && p.current_song is Some, MprisChange::NoTrack)
}

impl Player {
    pub fn new() -> (r: Self)
        ensures
            r.options == options_of(no_status()),
            !r.saved_to_history && !r.queue_initialized,
            !r.mpris_enabled && !r.pipewire_restart_between_songs && !r.use_visualizer
                && !r.is_foreground,
            r.current_song is None && r.queue@.len() == 0,
            r.expected_volume_changes == 0 && r.position == 0 && r.current_lyric_line == 0,
            r.queue_len == 0 && r.queue_version == 0 && r.expected_queue_version == 0,
            r.fft_source == FftSource::Fifo && r.fft_status == FftStatus::Invalid
                && !r.supports_playlists,
    {
        Player {
            options: Options::from_status(&Status::default()),
            expected_volume_changes: 0,
            current_song: None,
            saved_to_history: false,
            position: 0,
            current_lyric_line: 0,
            queue: Vec::new(),
            queue_len: 0,
            queue_initialized: false,
            queue_version: 0,
            expected_queue_version: 0,
            mpris_enabled: false,
            pipewire_restart_between_songs: false,
            use_visualizer: false,
            is_foreground: false,
            fft_source: FftSource::Fifo,
            fft_status: FftStatus::Invalid,
            supports_playlists: false,
        }
    }

    /// Takes over the options of a status. Says what listeners and what the media controls are told.
    pub fn update_options(&mut self, s: &Status) -> (r: (Vec<Effect>, Vec<MprisChange>))
        ensures
            *final(self) == with_options(*old(self), *s),
            r.0@ == option_effects(
                old(self).options,
                options_of(*s),
                old(self).expected_volume_changes > 0,
            ),
            r.1@ == (if old(self).mpris_enabled {
                option_mpris(old(self).options, options_of(*s))
            } else {
                Seq::empty()
            }),
    {
        let before: Options = self.options;
        let after: Options = Options::from_status(s);
        let expected: bool = self.expected_volume_changes > 0;
        let effects: Vec<Effect> = find_option_effects(before, after, expected);
        let mpris: Vec<MprisChange> = if self.mpris_enabled {
            find_option_mpris(before, after)
        } else {
            Vec::new()
        };
        if before.volume != after.volume && expected {
            self.expected_volume_changes = self.expected_volume_changes - 1;
        }
        self.options = after;
        (effects, mpris)
    }

    /// The duration of the current song in seconds.
    pub fn duration(&self) -> (r: u64)
        ensures
            r == duration_of(*self),
    {
        match &self.current_song {
            Some(song) => song.0.duration.unwrap_or(0),
            None => 0,
        }
    }

    /// What is to be done about the song after the options of a status were taken over.
    pub fn next_song_step(&self, s: &Status, history_paused: bool) -> (r: SongStep)
        ensures
            r == song_step(*self, *s, history_paused),
    {
        match s.song {
            None => SongStep::Keep,
            Some(id) => match &self.current_song {
                None => SongStep::Fetch(id, false),
                Some(song) => {
                    let same_song: bool = match song.0.queue_id {
                        Some(old) => old == id,
                        None => false,
                    };
                    if !same_song {
                        SongStep::Fetch(id, !self.saved_to_history && self.position > 10_000_000_000)
                    } else if history_paused || self.saved_to_history {
                        SongStep::Keep
                    } else {
                        match s.elapsed {
                            Some(elapsed) => {
                                let duration: u64 = self.duration();
                                let twice: u128 = elapsed as u128 * 2;
                                let whole: u128 = duration as u128 * 1_000_000_000;
                                if duration > 10 && (twice >= whole || elapsed >= 240_000_000_000) {
                                    SongStep::Record
                                } else {
                                    SongStep::Keep
                                }
                            },
                            None => SongStep::Keep,
                        }
                    }
                },
            },
        }
    }

    /// Takes over the song that was fetched. Says what listeners and what the media controls are told.
    pub fn adopt_song(&mut self, song: SongStickers, fft: Option<FftReader>) -> (r: (
        Vec<Effect>,
        Vec<MprisChange>,
    ))
        ensures
            *final(self) == with_song(*old(self), song),
            r.0@ == new_song_effects(*old(self), fft),
            r.1@ == only_if(old(self).mpris_enabled, MprisChange::Metadata),
    {
        let restart: bool = match fft {
            Some(reader) => self.pipewire_restart_between_songs && reader.is_pipewire
                && self.may_start_fft(),
            None => false,
        };
        let effects: Vec<Effect> = song_effects(restart);
        let mut mpris: Vec<MprisChange> = Vec::new();
        if self.mpris_enabled {
            mpris.push(MprisChange::Metadata);
        }
        self.current_song = Some(song);
        self.saved_to_history = false;
        (effects, mpris)
    }

    /// Takes note that the current song was written into the history of playback.
    pub fn mark_recorded(&mut self)
        ensures
            *final(self) == (Player { saved_to_history: true, ..*old(self) }),
    {
        self.saved_to_history = true;
    }

    /// Takes over the rest of a status: whether anything plays, the position, and the length of the
    /// queue, which is cut to it. Says what listeners and what the media controls are told.
    pub fn update_position(&mut self, s: &Status, fft: Option<FftReader>) -> (r: (
        Vec<Effect>,
        Vec<MprisChange>,
    ))
        ensures
            *final(self) == (Player { queue: final(self).queue, ..with_position(*old(self), *s) }),
            final(self).queue@ == cut_to(old(self).queue@, s.queue_len as int),
            r.0@ == position_effects(*old(self), *s, fft),
            r.1@ == position_mpris(*old(self), *s),
    {
        let ends: bool = s.song.is_none() || s.state == PlaybackState::Stopped;
        let cleared: bool = ends && self.current_song.is_some();
        let mut effects: Vec<Effect> = cleared_effects(cleared);
        let mut mpris: Vec<MprisChange> = Vec::new();
        if self.mpris_enabled && cleared {
            mpris.push(MprisChange::NoTrack);
        }
        if cleared {
            self.current_song = None;
            self.saved_to_history = false;
        }
        let before: u64 = self.position;
        let position: u64 = s.elapsed.unwrap_or(0);
        self.position = position;
        push_if(&mut effects, before != position, Effect::Notify(Property::Position));
        push_if(
            &mut effects,
            s.elapsed.is_some() && before != position && self.mpris_enabled,
            Effect::SeekMpris(position),
        );
        let pause: bool = self.pipewire_must_pause(fft) && self.ends_soon();
        push_if(&mut effects, s.elapsed.is_some() && pause, Effect::StopFft);
        push_if(
            &mut effects,
            self.queue_len != s.queue_len,
            Effect::Notify(Property::QueueLen),
        );
        self.queue_len = s.queue_len;
        self.queue.truncate(s.queue_len as usize);
        (effects, mpris)
    }

    /// Whether the reader of the visualiser's samples has to be stopped before another song starts.
    pub fn pipewire_must_pause(&self, fft: Option<FftReader>) -> (r: bool)
        ensures
            r == must_pause_fft(*self, fft),
    {
        match fft {
            Some(reader) => self.pipewire_restart_between_songs && reader.is_pipewire
                && reader.status != FftStatus::ValidNotReading,
            None => false,
        }
    }

    /// Whether the current song ends within two seconds.
    fn ends_soon(&self) -> (r: bool)
        ensures
            r == is_about_to_end(*self),
    {
        let end: u128 = self.duration() as u128 * 1_000_000_000;
        let now: u128 = self.position as u128;
        now <= end && end - now < 2_000_000_000
    }

    /// Whether the reader of the visualiser's samples may run.
    pub fn may_start_fft(&self) -> (r: bool)
        ensures
            r == may_visualize(*self),
    {
        self.use_visualizer && self.is_foreground
    }
}

/// What listeners are told when options change.
fn find_option_effects(a: Options, b: Options, volume_expected: bool) -> (r: Vec<Effect>)
    ensures
        r@ == option_effects(a, b, volume_expected),
{
    proof {
        reveal(option_effects);
    }
    let mut effects: Vec<Effect> = Vec::new();
    if b.state == PlaybackState::Playing {
        effects.push(Effect::StartPolling);
    } else {
        effects.push(Effect::StopPolling);
    }
    push_if(&mut effects, a.state != b.state, Effect::Notify(Property::PlaybackState));
    push_if(&mut effects, a.replaygain != b.replaygain, Effect::Notify(Property::ReplayGain));
    push_if(&mut effects, a.flow != b.flow, Effect::Notify(Property::PlaybackFlow));
    push_if(&mut effects, a.random != b.random, Effect::Notify(Property::Random));
    push_if(&mut effects, a.consume != b.consume, Effect::Notify(Property::Consume));
    push_if(&mut effects, differs(a.format, b.format), Effect::Notify(Property::FormatDesc));
    push_if(&mut effects, a.bitrate != b.bitrate, Effect::Notify(Property::Bitrate));
    push_if(
        &mut effects,
        a.mixramp_delay != b.mixramp_delay,
        Effect::Notify(Property::MixrampDelay),
    );
    push_if(&mut effects, a.crossfade != b.crossfade, Effect::Notify(Property::Crossfade));
    push_if(
        &mut effects,
        a.volume != b.volume && !volume_expected,
        Effect::VolumeChanged(b.volume),
    );
    effects
}

/// What the media controls are told when options change.
fn find_option_mpris(a: Options, b: Options) -> (r: Vec<MprisChange>)
    ensures
        r@ == option_mpris(a, b),
{
    proof {
        reveal(option_mpris);
    }
    let mut mpris: Vec<MprisChange> = Vec::new();
    if a.state != b.state {
        mpris.push(MprisChange::PlaybackStatus(b.state));
    }
    push_if(&mut mpris, a.flow != b.flow, MprisChange::LoopStatus(LoopStatus::from(b.flow)));
    push_if(&mut mpris, a.random != b.random, MprisChange::Shuffle(b.random));
    push_if(&mut mpris, a.volume != b.volume, MprisChange::Volume(b.volume));
    mpris
}

/// What listeners are told when another song plays.
fn song_effects(restart: bool) -> (r: Vec<Effect>)
    ensures
        r@ == only_if(restart, Effect::StartFft) + song_notices(),
{
    let mut effects: Vec<Effect> = Vec::new();
    if restart {
        effects.push(Effect::StartFft);
    }
    effects.push(Effect::RefreshLyrics);
    effects.push(Effect::Notify(Property::Title));
    effects.push(Effect::Notify(Property::Artist));
    effects.push(Effect::Notify(Property::Duration));
    effects.push(Effect::Notify(Property::Rating));
    effects.push(Effect::Notify(Property::QualityGrade));
    effects.push(Effect::Notify(Property::FormatDesc));
    effects.push(Effect::Notify(Property::Album));
    effects.push(Effect::Notify(Property::QueueId));
    effects.push(Effect::CoverChanged);
    effects
}

/// What listeners are told when nothing plays any more.
fn cleared_effects(cleared: bool) -> (r: Vec<Effect>)
    ensures
        r@ == (if cleared {
            end_notices()
        } else {
            Seq::empty()
        }),
{
    let mut effects: Vec<Effect> = Vec::new();
    if cleared {
        effects.push(Effect::Notify(Property::Title));
        effects.push(Effect::Notify(Property::Artist));
        effects.push(Effect::Notify(Property::Album));
        effects.push(Effect::Notify(Property::Rating));
        effects.push(Effect::Notify(Property::Duration));
        effects.push(Effect::Notify(Property::QueueId));
        effects.push(Effect::CoverChanged);
    }
    effects
}

/// Appends an item where a condition holds.
fn push_if<T>(v: &mut Vec<T>, cond: bool, item: T)
    ensures
        final(v)@ == old(v)@ + only_if(cond, item),
{
    if cond {
        v.push(item);
    }
    assert(v@ =~= old(v)@ + only_if(cond, item));
}

/// Whether two optional formats differ.
fn differs(a: Option<AudioFormat>, b: Option<AudioFormat>) -> (r: bool)
    ensures
        r == (a != b),
{
    match (a, b) {
        (Some(x), Some(y)) => x != y,
        (None, None) => false,
        _ => true,
    }
}

/// A song that is left counts as skipped where it has played for more than ten seconds, and has not counted
/// as played. A second has a thousand million nanoseconds.
pub proof fn law_skips(p: Player, s: Status, history_paused: bool, r: SongStep)
    requires
        call_ensures(Player::next_song_step, (&p, &s, history_paused), r),
        s.song is Some,
        p.current_song is Some,
        (p.current_song->0).0.queue_id != s.song,
    ensures
        r is Fetch,
        r == SongStep::Fetch(s.song->0, true) || r == SongStep::Fetch(s.song->0, false),
        p.position as int / 1_000_000_000 < 10 ==> r == SongStep::Fetch(s.song->0, false),
        p.position == 10 * 1_000_000_000 ==> r == SongStep::Fetch(s.song->0, false),
        p.position > 10 * 1_000_000_000 && !p.saved_to_history ==> r == SongStep::Fetch(
            s.song->0,
            true,
        ),
        p.saved_to_history ==> r == SongStep::Fetch(s.song->0, false),
{
}

/// The song that the server names is fetched where it is not the current one, and nothing is fetched where
/// the server names none.
pub proof fn law_songs_are_fetched_when_they_change(
    p: Player,
    s: Status,
    history_paused: bool,
    r: SongStep,
)
    requires
        call_ensures(Player::next_song_step, (&p, &s, history_paused), r),
    ensures
        s.song is None ==> r == SongStep::Keep,
        s.song is Some && p.current_song is None ==> r == SongStep::Fetch(s.song->0, false),
        r is Fetch <==> s.song is Some && !(p.current_song is Some && (p.current_song->0).0.queue_id
            == s.song),
{
}

/// The current song is recorded once: where the history is kept, where it is longer than ten seconds, and
/// where at least four minutes or half of it have played.
pub proof fn law_plays(p: Player, s: Status, history_paused: bool, r: SongStep)
    requires
        call_ensures(Player::next_song_step, (&p, &s, history_paused), r),
        s.song is Some,
        p.current_song is Some,
        (p.current_song->0).0.queue_id == s.song,
    ensures
        r == SongStep::Keep || r == SongStep::Record,
        history_paused || p.saved_to_history || s.elapsed is None ==> r == SongStep::Keep,
        (p.current_song->0).0.duration is None ==> r == SongStep::Keep,
        (p.current_song->0).0.duration matches Some(seconds) ==> {
            let elapsed = s.elapsed->0;
            &&& seconds <= 10 ==> r == SongStep::Keep
            &&& 2 * elapsed < seconds * 1_000_000_000 && elapsed < 240 * 1_000_000_000 ==> r
                == SongStep::Keep
            &&& !history_paused && !p.saved_to_history && s.elapsed is Some && seconds > 10 && 2
                * elapsed >= seconds * 1_000_000_000 ==> r == SongStep::Record
            &&& !history_paused && !p.saved_to_history && s.elapsed is Some && seconds > 10
                && elapsed >= 240 * 1_000_000_000 ==> r == SongStep::Record
        },
{
}

/// A song that was recorded is marked, and one that is taken over is not.
pub proof fn law_recording_is_marked(
    p: &mut Player,
    q: &mut Player,
    song: SongStickers,
    fft: Option<FftReader>,
    r: (Vec<Effect>, Vec<MprisChange>),
)
    requires
        call_ensures(Player::mark_recorded, (p,), ()),
        call_ensures(Player::adopt_song, (q, song, fft), r),
    ensures
        final(p).saved_to_history,
        final(p).current_song == old(p).current_song,
        !final(q).saved_to_history,
        final(q).current_song == Some(song),
        final(q).queue@ == old(q).queue@,
        final(q).options == old(q).options,
{
}

proof fn lemma_told<T>(a: Seq<T>, b: Seq<T>, e: T)
    ensures
        (a + b).contains(e) <==> a.contains(e) || b.contains(e),
{
    if a.contains(e) {
        let i = choose|i: int| 0 <= i < a.len() && a[i] == e;
        assert((a + b)[i] == e);
    }
    if b.contains(e) {
        let i = choose|i: int| 0 <= i < b.len() && b[i] == e;
        assert((a + b)[a.len() + i] == e);
    }
    if (a + b).contains(e) {
        let i = choose|i: int| 0 <= i < (a + b).len() && (a + b)[i] == e;
        if i < a.len() {
            assert(a[i] == e);
        } else {
            assert(b[i - a.len()] == e);
        }
    }
}

proof fn lemma_only_if<T>(cond: bool, item: T, e: T)
    ensures
        only_if(cond, item).contains(e) <==> cond && item == e,
{
    if cond {
        assert(only_if(cond, item)[0] == item);
    }
}

proof fn lemma_told_of_all<T>(
    s0: Seq<T>,
    p1: Seq<T>,
    p2: Seq<T>,
    p3: Seq<T>,
    p4: Seq<T>,
    p5: Seq<T>,
    p6: Seq<T>,
    p7: Seq<T>,
    p8: Seq<T>,
    p9: Seq<T>,
    p10: Seq<T>,
    e: T,
)
    ensures
        (s0 + p1 + p2 + p3 + p4 + p5 + p6 + p7 + p8 + p9 + p10).contains(e) <==> {
            ||| s0.contains(e)
            ||| p1.contains(e)
            ||| p2.contains(e)
            ||| p3.contains(e)
            ||| p4.contains(e)
            ||| p5.contains(e)
            ||| p6.contains(e)
            ||| p7.contains(e)
            ||| p8.contains(e)
            ||| p9.contains(e)
            ||| p10.contains(e)
        },
{
    lemma_told(s0, p1, e);
    lemma_told(s0 + p1, p2, e);
    lemma_told(s0 + p1 + p2, p3, e);
    lemma_told(s0 + p1 + p2 + p3, p4, e);
    lemma_told(s0 + p1 + p2 + p3 + p4, p5, e);
    lemma_told(s0 + p1 + p2 + p3 + p4 + p5, p6, e);
    lemma_told(s0 + p1 + p2 + p3 + p4 + p5 + p6, p7, e);
    lemma_told(s0 + p1 + p2 + p3 + p4 + p5 + p6 + p7, p8, e);
    lemma_told(s0 + p1 + p2 + p3 + p4 + p5 + p6 + p7 + p8, p9, e);
    lemma_told(s0 + p1 + p2 + p3 + p4 + p5 + p6 + p7 + p8 + p9, p10, e);
}

#[verifier::spinoff_prover]
#[verifier::rlimit(60)]
proof fn lemma_option_parts(a: Options, b: Options, expected: bool, e: Effect)
    ensures
        option_effects(a, b, expected).contains(e) <==> {
            ||| seq![
                if b.state == PlaybackState::Playing {
                    Effect::StartPolling
                } else {
                    Effect::StopPolling
                },
            ].contains(e)
            ||| only_if(a.state != b.state, Effect::Notify(Property::PlaybackState)).contains(e)
            ||| only_if(a.replaygain != b.replaygain, Effect::Notify(Property::ReplayGain)).contains(e)
            ||| only_if(a.flow != b.flow, Effect::Notify(Property::PlaybackFlow)).contains(e)
            ||| only_if(a.random != b.random, Effect::Notify(Property::Random)).contains(e)
            ||| only_if(a.consume != b.consume, Effect::Notify(Property::Consume)).contains(e)
            ||| only_if(a.format != b.format, Effect::Notify(Property::FormatDesc)).contains(e)
            ||| only_if(a.bitrate != b.bitrate, Effect::Notify(Property::Bitrate)).contains(e)
            ||| only_if(
                a.mixramp_delay != b.mixramp_delay,
                Effect::Notify(Property::MixrampDelay),
            ).contains(e)
            ||| only_if(a.crossfade != b.crossfade, Effect::Notify(Property::Crossfade)).contains(e)
            ||| only_if(
                a.volume != b.volume && !expected,
                Effect::VolumeChanged(b.volume),
            ).contains(e)
        },
{
    reveal(option_effects);
    lemma_told_of_all(
        seq![
            if b.state == PlaybackState::Playing {
                Effect::StartPolling
            } else {
                Effect::StopPolling
            },
        ],
        only_if(a.state != b.state, Effect::Notify(Property::PlaybackState)),
        only_if(a.replaygain != b.replaygain, Effect::Notify(Property::ReplayGain)),
        only_if(a.flow != b.flow, Effect::Notify(Property::PlaybackFlow)),
        only_if(a.random != b.random, Effect::Notify(Property::Random)),
        only_if(a.consume != b.consume, Effect::Notify(Property::Consume)),
        only_if(a.format != b.format, Effect::Notify(Property::FormatDesc)),
        only_if(a.bitrate != b.bitrate, Effect::Notify(Property::Bitrate)),
        only_if(a.mixramp_delay != b.mixramp_delay, Effect::Notify(Property::MixrampDelay)),
        only_if(a.crossfade != b.crossfade, Effect::Notify(Property::Crossfade)),
        only_if(a.volume != b.volume && !expected, Effect::VolumeChanged(b.volume)),
        e,
    );
}

/// What is told of one effect, and of whether it is among those of changed options.
proof fn lemma_option_effect(a: Options, b: Options, expected: bool, e: Effect)
    ensures
        option_effects(a, b, expected).contains(e) <==> {
            ||| b.state == PlaybackState::Playing && e == Effect::StartPolling
            ||| b.state != PlaybackState::Playing && e == Effect::StopPolling
            ||| a.state != b.state && e == Effect::Notify(Property::PlaybackState)
            ||| a.replaygain != b.replaygain && e == Effect::Notify(Property::ReplayGain)
            ||| a.flow != b.flow && e == Effect::Notify(Property::PlaybackFlow)
            ||| a.random != b.random && e == Effect::Notify(Property::Random)
            ||| a.consume != b.consume && e == Effect::Notify(Property::Consume)
            ||| a.format != b.format && e == Effect::Notify(Property::FormatDesc)
            ||| a.bitrate != b.bitrate && e == Effect::Notify(Property::Bitrate)
            ||| a.mixramp_delay != b.mixramp_delay && e == Effect::Notify(Property::MixrampDelay)
            ||| a.crossfade != b.crossfade && e == Effect::Notify(Property::Crossfade)
            ||| a.volume != b.volume && !expected && e == Effect::VolumeChanged(b.volume)
        },
{
    lemma_option_parts(a, b, expected, e);
    let first = if b.state == PlaybackState::Playing {
        Effect::StartPolling
    } else {
        Effect::StopPolling
    };
    assert(seq![first][0] == first);
    assert(seq![first].contains(e) <==> first == e);
    lemma_only_if(a.state != b.state, Effect::Notify(Property::PlaybackState), e);
    lemma_only_if(a.replaygain != b.replaygain, Effect::Notify(Property::ReplayGain), e);
    lemma_only_if(a.flow != b.flow, Effect::Notify(Property::PlaybackFlow), e);
    lemma_only_if(a.random != b.random, Effect::Notify(Property::Random), e);
    lemma_only_if(a.consume != b.consume, Effect::Notify(Property::Consume), e);
    lemma_only_if(a.format != b.format, Effect::Notify(Property::FormatDesc), e);
    lemma_only_if(a.bitrate != b.bitrate, Effect::Notify(Property::Bitrate), e);
    lemma_only_if(a.mixramp_delay != b.mixramp_delay, Effect::Notify(Property::MixrampDelay), e);
    lemma_only_if(a.crossfade != b.crossfade, Effect::Notify(Property::Crossfade), e);
    lemma_only_if(a.volume != b.volume && !expected, Effect::VolumeChanged(b.volume), e);
}

/// Listeners are told of each option exactly where the status reports another value of it, and polling goes
/// on while a song plays. A volume is told where this player has not caused it.
pub proof fn law_changed_options_are_told(
    p: &mut Player,
    s: Status,
    r: (Vec<Effect>, Vec<MprisChange>),
)
    requires
        call_ensures(Player::update_options, (p, &s), r),
    ensures
        r.0@.contains(Effect::StartPolling) <==> s.state == PlaybackState::Playing,
        r.0@.contains(Effect::StopPolling) <==> s.state != PlaybackState::Playing,
        r.0@.contains(Effect::Notify(Property::PlaybackState)) <==> old(p).options.state != s.state,
        r.0@.contains(Effect::Notify(Property::Random)) <==> old(p).options.random != s.random,
        r.0@.contains(Effect::Notify(Property::Consume)) <==> old(p).options.consume != s.consume,
        r.0@.contains(Effect::Notify(Property::FormatDesc)) <==> old(p).options.format != s.audio,
        s.replaygain is Some ==> (r.0@.contains(Effect::Notify(Property::ReplayGain))
            <==> old(p).options.replaygain != s.replaygain->0),
        s.bitrate is Some ==> (r.0@.contains(Effect::Notify(Property::Bitrate))
            <==> old(p).options.bitrate != s.bitrate->0),
        s.crossfade is Some ==> (r.0@.contains(Effect::Notify(Property::Crossfade))
            <==> old(p).options.crossfade != s.crossfade->0),
        s.mixramp_delay is Some ==> (r.0@.contains(Effect::Notify(Property::MixrampDelay))
            <==> old(p).options.mixramp_delay != s.mixramp_delay->0),
        forall|v: i8|
            r.0@.contains(Effect::VolumeChanged(v)) <==> v == s.volume && s.volume
                != old(p).options.volume && old(p).expected_volume_changes == 0,
{
    let expected = old(p).expected_volume_changes > 0;
    let before = old(p).options;
    let after = options_of(s);
    lemma_option_effect(before, after, expected, Effect::StartPolling);
    lemma_option_effect(before, after, expected, Effect::StopPolling);
    lemma_option_effect(before, after, expected, Effect::Notify(Property::PlaybackState));
    lemma_option_effect(before, after, expected, Effect::Notify(Property::Random));
    lemma_option_effect(before, after, expected, Effect::Notify(Property::Consume));
    lemma_option_effect(before, after, expected, Effect::Notify(Property::FormatDesc));
    lemma_option_effect(before, after, expected, Effect::Notify(Property::ReplayGain));
    lemma_option_effect(before, after, expected, Effect::Notify(Property::Bitrate));
    lemma_option_effect(before, after, expected, Effect::Notify(Property::Crossfade));
    lemma_option_effect(before, after, expected, Effect::Notify(Property::MixrampDelay));
    assert forall|v: i8|
        r.0@.contains(Effect::VolumeChanged(v)) <==> v == s.volume && s.volume
            != old(p).options.volume && old(p).expected_volume_changes == 0 by {
        lemma_option_effect(before, after, expected, Effect::VolumeChanged(v));
    }
}

/// The options of a status are those that the player has from then on; what it does not report is off or
/// zero. Repeating alone repeats the queue, together with single mode one song, and single mode alone stops
/// after a song.
pub proof fn law_options_are_taken_over(
    p: &mut Player,
    s: Status,
    r: (Vec<Effect>, Vec<MprisChange>),
)
    requires
        call_ensures(Player::update_options, (p, &s), r),
    ensures
        final(p).options.state == s.state,
        final(p).options.random == s.random,
        final(p).options.consume == s.consume,
        final(p).options.volume == s.volume,
        final(p).options.format == s.audio,
        s.replaygain is Some ==> final(p).options.replaygain == s.replaygain->0,
        s.replaygain is None ==> final(p).options.replaygain == ReplayGain::Off,
        s.bitrate is Some ==> final(p).options.bitrate == s.bitrate->0,
        s.bitrate is None ==> final(p).options.bitrate == 0,
        s.crossfade is Some ==> final(p).options.crossfade == s.crossfade->0,
        s.crossfade is None ==> final(p).options.crossfade == 0,
        s.mixramp_delay is Some ==> final(p).options.mixramp_delay == s.mixramp_delay->0,
        s.mixramp_delay is None ==> final(p).options.mixramp_delay == 0,
        !s.repeat && !s.single ==> final(p).options.flow == PlaybackFlow::Sequential,
        s.repeat && !s.single ==> final(p).options.flow == PlaybackFlow::Repeat,
        s.repeat && s.single ==> final(p).options.flow == PlaybackFlow::RepeatSingle,
        !s.repeat && s.single ==> final(p).options.flow == PlaybackFlow::Single,
        final(p).current_song == old(p).current_song,
        final(p).position == old(p).position,
        final(p).saved_to_history == old(p).saved_to_history,
        final(p).expected_volume_changes + (if s.volume != old(p).options.volume
            && old(p).expected_volume_changes > 0 {
            1int
        } else {
            0int
        }) == old(p).expected_volume_changes,
{
}

/// The position of a status is where the player stands from then on. The current song goes where nothing
/// plays any more, and stays otherwise; the queue is never longer than the server's.
pub proof fn law_positions_follow_the_status(
    p: &mut Player,
    s: Status,
    fft: Option<FftReader>,
    r: (Vec<Effect>, Vec<MprisChange>),
)
    requires
        call_ensures(Player::update_position, (p, &s, fft), r),
    ensures
        s.elapsed is Some ==> final(p).position == s.elapsed->0,
        s.elapsed is None ==> final(p).position == 0,
        s.song is None || s.state == PlaybackState::Stopped ==> final(p).current_song is None,
        s.song is Some && s.state != PlaybackState::Stopped ==> final(p).current_song
            == old(p).current_song && final(p).saved_to_history == old(p).saved_to_history,
        final(p).queue_len == s.queue_len,
        final(p).queue@.len() <= s.queue_len,
        final(p).queue@.is_prefix_of(old(p).queue@),
        old(p).queue@.len() <= s.queue_len ==> final(p).queue@ == old(p).queue@,
        final(p).options == old(p).options,
{
}

/// A new song is announced to listeners with its tags, and to the media controls where they are in use.
pub proof fn law_new_songs_are_announced(
    p: &mut Player,
    song: SongStickers,
    fft: Option<FftReader>,
    r: (Vec<Effect>, Vec<MprisChange>),
)
    requires
        call_ensures(Player::adopt_song, (p, song, fft), r),
    ensures
        r.0@.contains(Effect::RefreshLyrics),
        r.0@.contains(Effect::CoverChanged),
        r.0@.contains(Effect::Notify(Property::Title)),
        r.0@.contains(Effect::Notify(Property::Artist)),
        r.0@.contains(Effect::Notify(Property::Album)),
        r.0@.contains(Effect::Notify(Property::Duration)),
        r.0@.contains(Effect::Notify(Property::Rating)),
        r.0@.contains(Effect::Notify(Property::QualityGrade)),
        r.0@.contains(Effect::Notify(Property::QueueId)),
        r.1@.contains(MprisChange::Metadata) <==> old(p).mpris_enabled,
{
    let head = only_if(
        old(p).pipewire_restart_between_songs && fft is Some && fft->0.is_pipewire && may_visualize(
            *old(p),
        ),
        Effect::StartFft,
    );
    let n = song_notices();
    let told = head + n;
    let k = head.len() as int;
    assert(told[k] == Effect::RefreshLyrics);
    assert(told[k + 1] == Effect::Notify(Property::Title));
    assert(told[k + 2] == Effect::Notify(Property::Artist));
    assert(told[k + 3] == Effect::Notify(Property::Duration));
    assert(told[k + 4] == Effect::Notify(Property::Rating));
    assert(told[k + 5] == Effect::Notify(Property::QualityGrade));
    assert(told[k + 7] == Effect::Notify(Property::Album));
    assert(told[k + 8] == Effect::Notify(Property::QueueId));
    assert(told[k + 9] == Effect::CoverChanged);
    lemma_only_if(old(p).mpris_enabled, MprisChange::Metadata, MprisChange::Metadata);
}

/// The visualiser runs where it is wanted and can be seen. Its reader is stopped between songs where that is
/// asked for, it reads from PipeWire and it is not stopped yet.
pub proof fn law_when_samples_are_read(p: Player, reader: FftReader, may: bool, must: bool, none: bool)
    requires
        call_ensures(Player::may_start_fft, (&p,), may),
        call_ensures(Player::pipewire_must_pause, (&p, Some(reader)), must),
        call_ensures(Player::pipewire_must_pause, (&p, None::<FftReader>), none),
    ensures
        may <==> p.use_visualizer && p.is_foreground,
        must <==> p.pipewire_restart_between_songs && reader.is_pipewire && reader.status
            != FftStatus::ValidNotReading,
        !none,
{
}

/// The duration is that of the current song, and nothing where there is none or it is not known.
pub proof fn law_the_duration(p: Player, r: u64)
    requires
        call_ensures(Player::duration, (&p,), r),
    ensures
        p.current_song is None ==> r == 0,
        p.current_song is Some && (p.current_song->0).0.duration is Some ==> r == (
        p.current_song->0).0.duration->0,
        p.current_song is Some && (p.current_song->0).0.duration is None ==> r == 0,
{
}

}
