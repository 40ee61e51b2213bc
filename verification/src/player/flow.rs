//! Modes of playback.
use vstd::prelude::*;

use crate::text::same;

verus! {

#[derive(Debug, Clone, Copy, PartialEq, Eq, Structural)]
pub enum PlaybackState {
    Stopped,
    Playing,
    Paused,
}

impl Default for PlaybackState {
    fn default() -> (r: Self)
        ensures
            r == PlaybackState::Stopped,
    {
        PlaybackState::Stopped
    }
}

/// How playback goes on at the end of a song.
#[derive(Debug, Clone, Copy, PartialEq, Eq, Structural)]
pub enum PlaybackFlow {
    /// Plays through the queue once.
    Sequential,
    /// Loops through the queue.
    Repeat,
    /// Plays one song, then stops and waits.
    Single,
    /// Loops the current song.
    RepeatSingle,
}

impl Default for PlaybackFlow {
    fn default() -> (r: Self)
        ensures
            r == PlaybackFlow::Sequential,
    {
        PlaybackFlow::Sequential
    }
}

/// The loop modes of the desktop's media controls.
#[derive(Debug, Clone, Copy, PartialEq, Eq, Structural)]
pub enum LoopStatus {
    NoLoop,
    Track,
    Playlist,
}

/// The flow that the server's two options make.
pub open spec fn flow_of(repeat: bool, single: bool) -> PlaybackFlow {
    match (repeat, single) {
        (true, true) => PlaybackFlow::RepeatSingle,
        (true, false) => PlaybackFlow::Repeat,
        (false, true) => PlaybackFlow::Single,
        (false, false) => PlaybackFlow::Sequential,
    }
}

impl PlaybackFlow {
    /// The flow that the server's options `repeat` and `single` make.
    pub fn from_status(repeat: bool, single: bool) -> (r: Self)
        ensures
            r == flow_of(repeat, single),
    {
        if repeat {
            if single {
                PlaybackFlow::RepeatSingle
            } else {
                PlaybackFlow::Repeat
            }
        } else if single {
            PlaybackFlow::Single
        } else {
            PlaybackFlow::Sequential
        }
    }

    /// The server's options `repeat` and `single` that make the flow.
    pub fn options(&self) -> (r: (bool, bool))
        ensures
            flow_of(r.0, r.1) == *self,
    {
        match *self {
            PlaybackFlow::Sequential => (false, false),
            PlaybackFlow::Repeat => (true, false),
            PlaybackFlow::Single => (false, true),
            PlaybackFlow::RepeatSingle => (true, true),
        }
    }

    pub open spec fn icon(self) -> Seq<char> {
        match self {
            PlaybackFlow::Sequential => "playlist-consecutive-symbolic"@,
            PlaybackFlow::Repeat => "playlist-repeat-symbolic"@,
            PlaybackFlow::Single => "stop-sign-outline-symbolic"@,
            PlaybackFlow::RepeatSingle => "playlist-repeat-song-symbolic"@,
        }
    }

    pub fn icon_name(&self) -> (r: &'static str)
        ensures
            r@ == self.icon(),
    {
        match *self {
            PlaybackFlow::Sequential => "playlist-consecutive-symbolic",
            PlaybackFlow::Repeat => "playlist-repeat-symbolic",
            PlaybackFlow::Single => "stop-sign-outline-symbolic",
            PlaybackFlow::RepeatSingle => "playlist-repeat-song-symbolic",
        }
    }

    /// The flow that comes next when the user cycles through them.
    pub open spec fn successor(self) -> PlaybackFlow {
        match self {
            PlaybackFlow::Sequential => PlaybackFlow::Repeat,
            PlaybackFlow::Repeat => PlaybackFlow::Single,
            PlaybackFlow::Single => PlaybackFlow::RepeatSingle,
            PlaybackFlow::RepeatSingle => PlaybackFlow::Sequential,
        }
    }

    /// The flow that comes next when the user cycles through them.
    pub fn next_in_cycle(&self) -> (r: Self)
        ensures
            r == self.successor(),
    {
        match *self {
            PlaybackFlow::Sequential => PlaybackFlow::Repeat,
            PlaybackFlow::Repeat => PlaybackFlow::Single,
            PlaybackFlow::Single => PlaybackFlow::RepeatSingle,
            PlaybackFlow::RepeatSingle => PlaybackFlow::Sequential,
        }
    }

    pub open spec fn label(self) -> Seq<char> {
        match self {
            PlaybackFlow::Sequential => "Sequential"@,
            PlaybackFlow::Repeat => "Repeat Queue"@,
            PlaybackFlow::Single => "Single Song"@,
            PlaybackFlow::RepeatSingle => "Repeat Current Song"@,
        }
    }

    pub fn description(&self) -> (r: &'static str)
        ensures
            r@ == self.label(),
    {
        match *self {
            PlaybackFlow::Sequential => "Sequential",
            PlaybackFlow::Repeat => "Repeat Queue",
            PlaybackFlow::Single => "Single Song",
            PlaybackFlow::RepeatSingle => "Repeat Current Song",
        }
    }

    /// The loop mode that the media controls show. They know no mode that stops after a song.
    pub open spec fn as_loop(self) -> LoopStatus {
        match self {
            PlaybackFlow::RepeatSingle => LoopStatus::Track,
            PlaybackFlow::Repeat => LoopStatus::Playlist,
            PlaybackFlow::Sequential | PlaybackFlow::Single => LoopStatus::NoLoop,
        }
    }

    /// The flow that a loop mode of the media controls asks for.
    pub open spec fn of_loop(status: LoopStatus) -> PlaybackFlow {
        match status {
            LoopStatus::Track => PlaybackFlow::RepeatSingle,
            LoopStatus::Playlist => PlaybackFlow::Repeat,
            LoopStatus::NoLoop => PlaybackFlow::Sequential,
        }
    }
}

impl From<PlaybackFlow> for LoopStatus {
    fn from(flow: PlaybackFlow) -> (r: Self) {
        match flow {
            PlaybackFlow::RepeatSingle => LoopStatus::Track,
            PlaybackFlow::Repeat => LoopStatus::Playlist,
            PlaybackFlow::Sequential | PlaybackFlow::Single => LoopStatus::NoLoop,
        }
    }
}

impl vstd::std_specs::convert::FromSpecImpl<PlaybackFlow> for LoopStatus {
    open spec fn obeys_from_spec() -> bool {
        true
    }

    open spec fn from_spec(flow: PlaybackFlow) -> LoopStatus {
        flow.as_loop()
    }
}

impl From<LoopStatus> for PlaybackFlow {
    fn from(status: LoopStatus) -> (r: Self) {
        match status {
            LoopStatus::Track => PlaybackFlow::RepeatSingle,
            LoopStatus::Playlist => PlaybackFlow::Repeat,
            LoopStatus::NoLoop => PlaybackFlow::Sequential,
        }
    }
}

impl vstd::std_specs::convert::FromSpecImpl<LoopStatus> for PlaybackFlow {
    open spec fn obeys_from_spec() -> bool {
        true
    }

    open spec fn from_spec(status: LoopStatus) -> PlaybackFlow {
        PlaybackFlow::of_loop(status)
    }
}

/// Cycling through the flows visits each of the four once and comes back to the first.
pub proof fn law_flows_cycle(flow: PlaybackFlow, other: PlaybackFlow)
    ensures
        flow.successor().successor().successor().successor() == flow,
        other == flow || other == flow.successor() || other == flow.successor().successor() || other
            == flow.successor().successor().successor(),
        flow.successor() != flow,
{
}

/// The server's options tell the flows apart.
pub proof fn law_options_tell_flows_apart(r1: bool, s1: bool, r2: bool, s2: bool)
    requires
        flow_of(r1, s1) == flow_of(r2, s2),
    ensures
        r1 == r2 && s1 == s2,
{
}

/// A loop mode that the media controls set is the one that they show afterwards.
pub proof fn law_loop_status_round_trip(status: LoopStatus)
    ensures
        PlaybackFlow::of_loop(status).as_loop() == status,
{
}

/// How the server evens out the loudness of songs.
#[derive(Debug, Clone, Copy, PartialEq, Eq, Structural)]
pub enum ReplayGain {
    Off,
    Track,
    Album,
    Auto,
}

/// The mode that comes next when the user cycles through them.
pub open spec fn next_replaygain(mode: ReplayGain) -> ReplayGain {
    match mode {
        ReplayGain::Off => ReplayGain::Auto,
        ReplayGain::Auto => ReplayGain::Track,
        ReplayGain::Track => ReplayGain::Album,
        ReplayGain::Album => ReplayGain::Off,
    }
}

/// The mode that comes next when the user cycles through them.
pub fn cycle_replaygain(curr: ReplayGain) -> (r: ReplayGain)
    ensures
        r == next_replaygain(curr),
{
    match curr {
        ReplayGain::Off => ReplayGain::Auto,
        ReplayGain::Auto => ReplayGain::Track,
        ReplayGain::Track => ReplayGain::Album,
        ReplayGain::Album => ReplayGain::Off,
    }
}

/// Cycling through the modes visits each of the four once and comes back to the first.
pub proof fn law_replaygain_cycles(mode: ReplayGain, other: ReplayGain)
    ensures
        next_replaygain(next_replaygain(next_replaygain(next_replaygain(mode)))) == mode,
        other == mode || other == next_replaygain(mode) || other == next_replaygain(
            next_replaygain(mode),
        ) || other == next_replaygain(next_replaygain(next_replaygain(mode))),
{
}

/// The icon of a mode.
pub open spec fn replaygain_icon(mode: ReplayGain) -> Seq<char> {
    match mode {
        ReplayGain::Off => "rg-off-symbolic"@,
        ReplayGain::Auto => "rg-auto-symbolic"@,
        ReplayGain::Track => "rg-track-symbolic"@,
        ReplayGain::Album => "rg-album-symbolic"@,
    }
}

/// The icon of a mode.
pub fn get_replaygain_icon_name(mode: ReplayGain) -> (r: &'static str)
    ensures
        r@ == replaygain_icon(mode),
{
    match mode {
        ReplayGain::Off => "rg-off-symbolic",
        ReplayGain::Auto => "rg-auto-symbolic",
        ReplayGain::Track => "rg-track-symbolic",
        ReplayGain::Album => "rg-album-symbolic",
    }
}

/// What the reader of the visualiser's samples is doing.
#[derive(Debug, Clone, Copy, PartialEq, Eq, Structural)]
pub enum FftStatus {
    Invalid,
    ValidNotReading,
    Stopping,
    Reading,
}

impl FftStatus {
    pub open spec fn label(self) -> Seq<char> {
        match self {
            FftStatus::Invalid => "Invalid"@,
            FftStatus::ValidNotReading => "Sleeping"@,
            FftStatus::Stopping => "Stopping"@,
            FftStatus::Reading => "Reading"@,
        }
    }

    pub fn get_description(&self) -> (r: &'static str)
        ensures
            r@ == self.label(),
    {
        match *self {
            FftStatus::Invalid => "Invalid",
            FftStatus::ValidNotReading => "Sleeping",
            FftStatus::Stopping => "Stopping",
            FftStatus::Reading => "Reading",
        }
    }
}

/// Where the visualiser's samples come from.
#[derive(Debug, Clone, Copy, PartialEq, Eq, Structural)]
pub enum FftSource {
    Fifo,
    PipeWire,
}

impl FftSource {
    /// What the settings call the source.
    pub open spec fn label(self) -> Seq<char> {
        match self {
            FftSource::Fifo => "fifo"@,
            FftSource::PipeWire => "pipewire"@,
        }
    }

    /// What the settings call the source.
    pub fn name(&self) -> (r: &'static str)
        ensures
            r@ == self.label(),
    {
        match *self {
            FftSource::Fifo => "fifo",
            FftSource::PipeWire => "pipewire",
        }
    }

    /// The source that the settings call by a name; nothing where there is none.
    pub fn from_name(name: &str) -> (r: Option<Self>)
        ensures
            r is Some ==> name@ == r->0.label(),
            r is None ==> name@ != FftSource::Fifo.label() && name@ != FftSource::PipeWire.label(),
    {
        if same(name, "fifo") {
            Some(FftSource::Fifo)
        } else if same(name, "pipewire") {
            Some(FftSource::PipeWire)
        } else {
            None
        }
    }

    /// The index of the source in the settings.
    pub fn index(&self) -> (r: i32)
        ensures
            r == (if *self == FftSource::Fifo {
                0int
            } else {
                1int
            }),
    {
        match *self {
            FftSource::Fifo => 0,
            FftSource::PipeWire => 1,
        }
    }

    /// The source with an index in the settings; nothing where there is none.
    pub fn from_index(index: i32) -> (r: Option<Self>)
        ensures
            r == (if index == 0 {
                Some(FftSource::Fifo)
            } else if index == 1 {
                Some(FftSource::PipeWire)
            } else {
                None::<FftSource>
            }),
    {
        if index == 0 {
            Some(FftSource::Fifo)
        } else if index == 1 {
            Some(FftSource::PipeWire)
        } else {
            None
        }
    }

    /// Whether a parameter is meant for this source: it is, unless it is meant for another by name.
    pub fn is_addressed(&self, name: Option<&str>) -> (r: bool)
        ensures
            r == (name is None || name->0@ == self.label()),
    {
        match name {
            Some(n) => same(n, self.name()),
            None => true,
        }
    }
}

#[derive(Debug, Clone, Copy, PartialEq, Eq, Structural)]
pub enum SwapDirection {
    Up,
    Down,
}

/// How the queue's shuffle button shuffles: track by track, or album by album.
#[derive(Debug, Clone, Copy, PartialEq, Eq, Structural)]
pub enum ShuffleMode {
    Tracks,
    Album,
}

impl ShuffleMode {
    /// The name under which the mode is stored.
    pub open spec fn name(self) -> Seq<char> {
        match self {
            ShuffleMode::Tracks => "tracks"@,
            ShuffleMode::Album => "album"@,
        }
    }

    /// The mode that is stored under a name; any other name stands for tracks.
    pub open spec fn of_name(s: Seq<char>) -> ShuffleMode {
        if s == "album"@ {
            ShuffleMode::Album
        } else {
            ShuffleMode::Tracks
        }
    }

    pub fn as_str(&self) -> (r: &'static str)
        ensures
            r@ == self.name(),
    {
        match *self {
            ShuffleMode::Tracks => "tracks",
            ShuffleMode::Album => "album",
        }
    }

    pub fn from_str(s: &str) -> (r: Self)
        ensures
            r == ShuffleMode::of_name(s@),
    {
        if same(s, "album") {
            ShuffleMode::Album
        } else {
            ShuffleMode::Tracks
        }
    }
}

/// A mode that is stored is the mode that is read back.
pub proof fn law_shuffle_mode_round_trip(mode: ShuffleMode)
    ensures
        ShuffleMode::of_name(mode.name()) == mode,
{
    reveal_strlit("album");
    reveal_strlit("tracks");
    assert("album"@.len() == 5);
    assert("tracks"@.len() == 6);
}

/// The server repeats where the queue or a song is looped, and plays one song at a time where a single one
/// is played or looped.
pub proof fn law_options_of_flows(flow: PlaybackFlow, r: (bool, bool), repeat: bool, single: bool, f: PlaybackFlow)
    requires
        call_ensures(PlaybackFlow::options, (&flow,), r),
        call_ensures(PlaybackFlow::from_status, (repeat, single), f),
    ensures
        r.0 <==> flow == PlaybackFlow::Repeat || flow == PlaybackFlow::RepeatSingle,
        r.1 <==> flow == PlaybackFlow::Single || flow == PlaybackFlow::RepeatSingle,
        (repeat, single) == r ==> f == flow,
        f == PlaybackFlow::Repeat <==> repeat && !single,
        f == PlaybackFlow::Single <==> !repeat && single,
        f == PlaybackFlow::RepeatSingle <==> repeat && single,
        f == PlaybackFlow::Sequential <==> !repeat && !single,
{
}

/// The button goes from playing through to looping the queue, to one song, to looping that, and round.
pub proof fn law_order_of_flows(flow: PlaybackFlow, r: PlaybackFlow)
    requires
        call_ensures(PlaybackFlow::next_in_cycle, (&flow,), r),
    ensures
        flow == PlaybackFlow::Sequential ==> r == PlaybackFlow::Repeat,
        flow == PlaybackFlow::Repeat ==> r == PlaybackFlow::Single,
        flow == PlaybackFlow::Single ==> r == PlaybackFlow::RepeatSingle,
        flow == PlaybackFlow::RepeatSingle ==> r == PlaybackFlow::Sequential,
{
}

/// The media controls are told of a loop exactly where something is repeated, and of what.
pub proof fn law_loops_of_flows(flow: PlaybackFlow, status: LoopStatus)
    ensures
        flow.as_loop() == LoopStatus::Track <==> flow == PlaybackFlow::RepeatSingle,
        flow.as_loop() == LoopStatus::Playlist <==> flow == PlaybackFlow::Repeat,
        PlaybackFlow::of_loop(status) == PlaybackFlow::RepeatSingle <==> status == LoopStatus::Track,
        PlaybackFlow::of_loop(status) == PlaybackFlow::Repeat <==> status == LoopStatus::Playlist,
        PlaybackFlow::of_loop(status) == PlaybackFlow::Sequential <==> status == LoopStatus::NoLoop,
{
}

/// The button for the gain goes from none to automatic, to that of the track, to that of the album, and
/// round.
pub proof fn law_order_of_gains(mode: ReplayGain, r: ReplayGain)
    requires
        call_ensures(cycle_replaygain, (mode,), r),
    ensures
        mode == ReplayGain::Off ==> r == ReplayGain::Auto,
        mode == ReplayGain::Auto ==> r == ReplayGain::Track,
        mode == ReplayGain::Track ==> r == ReplayGain::Album,
        mode == ReplayGain::Album ==> r == ReplayGain::Off,
{
}

/// Each flow and each gain has an icon and a description of its own.
pub proof fn law_flows_are_told_apart(flow: PlaybackFlow, icon: &'static str, label: &'static str)
    requires
        call_ensures(PlaybackFlow::icon_name, (&flow,), icon),
        call_ensures(PlaybackFlow::description, (&flow,), label),
    ensures
        flow == PlaybackFlow::Sequential ==> icon@ == "playlist-consecutive-symbolic"@ && label@
            == "Sequential"@,
        flow == PlaybackFlow::Repeat ==> icon@ == "playlist-repeat-symbolic"@ && label@
            == "Repeat Queue"@,
        flow == PlaybackFlow::Single ==> icon@ == "stop-sign-outline-symbolic"@ && label@
            == "Single Song"@,
        flow == PlaybackFlow::RepeatSingle ==> icon@ == "playlist-repeat-song-symbolic"@ && label@
            == "Repeat Current Song"@,
{
}

/// Each gain has an icon of its own.
pub proof fn law_gains_are_told_apart(mode: ReplayGain, icon: &'static str)
    requires
        call_ensures(get_replaygain_icon_name, (mode,), icon),
    ensures
        mode == ReplayGain::Off ==> icon@ == "rg-off-symbolic"@,
        mode == ReplayGain::Auto ==> icon@ == "rg-auto-symbolic"@,
        mode == ReplayGain::Track ==> icon@ == "rg-track-symbolic"@,
        mode == ReplayGain::Album ==> icon@ == "rg-album-symbolic"@,
{
}

/// A source of samples is read back from its name and from its place in the list.
pub proof fn law_sources_are_read_back(
    source: FftSource,
    name: &'static str,
    again: Option<FftSource>,
    index: i32,
    listed: Option<FftSource>,
)
    requires
        call_ensures(FftSource::name, (&source,), name),
        call_ensures(FftSource::from_name, (name,), again),
        call_ensures(FftSource::index, (&source,), index),
        call_ensures(FftSource::from_index, (index,), listed),
    ensures
        again == Some(source),
        listed == Some(source),
        source == FftSource::Fifo ==> name@ == "fifo"@ && index == 0,
        source == FftSource::PipeWire ==> name@ == "pipewire"@ && index == 1,
{
    reveal_strlit("fifo");
    reveal_strlit("pipewire");
    if again is Some && again != Some(source) {
        assert("fifo"@.len() != "pipewire"@.len());
    }
}

/// A way of shuffling is read back from its name; any name but that for albums means tracks.
pub proof fn law_shuffle_modes_are_read_back(
    mode: ShuffleMode,
    name: &'static str,
    s: &str,
    r: ShuffleMode,
)
    requires
        call_ensures(ShuffleMode::as_str, (&mode,), name),
        call_ensures(ShuffleMode::from_str, (s,), r),
    ensures
        s@ == name@ ==> r == mode,
        r == ShuffleMode::Album <==> s@ == "album"@,
{
    law_shuffle_mode_round_trip(mode);
}

/// A message without a name is for every source, and one with a name for the source of that name.
pub proof fn law_messages_to_sources(source: FftSource, name: &str, named: bool, all: bool)
    requires
        call_ensures(FftSource::is_addressed, (&source, Some(name)), named),
        call_ensures(FftSource::is_addressed, (&source, None::<&str>), all),
    ensures
        all,
        source == FftSource::Fifo ==> (named <==> name@ == "fifo"@),
        source == FftSource::PipeWire ==> (named <==> name@ == "pipewire"@),
{
}

}
