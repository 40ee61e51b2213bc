//! What the player does on behalf of the user and of the desktop's media controls.
//!
//! Edits of the queue are applied locally first and sent afterwards. Each of them raises the version of
//! the queue that is expected, so that the server's own report of it fetches nothing.
use vstd::prelude::*;

use super::flow::{
    FftSource, FftStatus, PlaybackFlow, PlaybackState, ShuffleMode, SwapDirection,
};
use super::queue;
use super::queue::{
    changed_queue, is_shuffle_plan, max_pos, min_pos, moved, rebuilt, swap_partner, swapped,
    ShufflePlan,
};
use super::status::{
    may_visualize, option_effects, option_mpris, options_of, song_step, with_options, with_song,
    Effect, Options, Player, SongStep, Status,
};
use crate::client::state::Subsystem;
use crate::common::quality::QualityGrade;
use crate::common::song::{cluster_id, song_cluster_id, song_comp_id, SongInfo, SongStickers};
use crate::common::sticker::{rating_change, rating_sticker, StickerChange, Stickers};
use crate::common::str_views;
use crate::text::{chars_of, digit_string, digits, last_index_of_char, rfind, same, tail_is};

verus! {

/// What is fetched when the server reports a version of the queue.
#[derive(Debug, Clone, Copy, PartialEq, Eq, Structural)]
pub enum QueueFetch {
    /// Nothing: the version is known, or expected.
    Nothing,
    /// The whole queue.
    Whole,
    /// What has changed since a version.
    Changes(u32),
}

/// What is fetched when the server reports a version of the queue.
pub open spec fn queue_fetch(p: Player, version: u32) -> QueueFetch {
    if version > p.queue_version && version > p.expected_queue_version {
        if p.queue_version == 0 {
            QueueFetch::Whole
        } else {
            QueueFetch::Changes(p.queue_version)
        }
    } else {
        QueueFetch::Nothing
    }
}

/// The player after the server has reported a version of the queue.
pub open spec fn with_queue_version(p: Player, version: u32) -> Player {
    Player {
        queue_version: version,
        expected_queue_version: if queue_fetch(p, version) == QueueFetch::Nothing {
            p.expected_queue_version
        } else {
            version
        },
        ..p
    }
}

/// The player after `n` edits of the queue were applied locally.
pub open spec fn with_local_changes(p: Player, n: int) -> Player {
    Player { expected_queue_version: (p.expected_queue_version + n) as u32, ..p }
}

/// Whether every changed entry says where it stands.
pub open spec fn all_placed(changes: Seq<SongStickers>) -> bool {
    forall|i: int| 0 <= i < changes.len() ==> (#[trigger] changes[i]).0.queue_pos is Some
}

/// The changed entries with the places where they stand.
pub open spec fn placed(changes: Seq<SongStickers>) -> Seq<(u32, SongStickers)> {
    changes.map_values(|c: SongStickers| (c.0.queue_pos->0, c))
}

/// Whether changes that the server has sent can be applied to a queue.
pub open spec fn applicable(queue: Seq<SongStickers>, changes: Seq<SongStickers>) -> bool {
    all_placed(changes) && changed_queue(queue, placed(changes)) is Some
}

/// What to ask of the server to toggle playback.
#[derive(Debug, Clone, Copy, PartialEq, Eq, Structural)]
pub enum Toggle {
    /// Nothing: there is nothing to play.
    Nothing,
    /// Play the first entry of the queue.
    PlayFirst,
    Pause,
    Resume,
}

/// What to ask of the server to toggle playback. While nothing plays there is no current song, so that
/// the first entry of the queue has to be named.
pub open spec fn toggle_of(p: Player) -> Toggle {
    match p.options.state {
        PlaybackState::Stopped => if p.queue@.len() > 0 {
            Toggle::PlayFirst
        } else {
            Toggle::Nothing
        },
        PlaybackState::Playing => Toggle::Pause,
        PlaybackState::Paused => Toggle::Resume,
    }
}

/// What stands behind the last slash of a path, or all of it where there is none.
pub open spec fn last_component(path: Seq<char>) -> Seq<char> {
    path.skip(last_index_of_char(path, '/') + 1)
}

/// What each entry of the queue belongs to.
pub open spec fn cluster_ids(queue: Seq<SongStickers>) -> Seq<Seq<char>> {
    queue.map_values(|s: SongStickers| cluster_id(s.0))
}

/// The URI of each entry of the queue.
pub open spec fn queue_uris(queue: Seq<SongStickers>) -> Seq<Seq<char>> {
    queue.map_values(|s: SongStickers| s.0.uri@)
}

/// The place of the current song in the queue.
pub open spec fn current_pos(p: Player) -> Option<u32> {
    match p.current_song {
        Some(song) => song.0.queue_pos,
        None => None,
    }
}

impl Player {
    /// Forgets the queue of a server that is left.
    pub fn clear(&mut self)
        ensures
            *final(self) == (Player {
                queue: final(self).queue,
                queue_initialized: false,
                queue_version: 0,
                expected_queue_version: 0,
                ..*old(self)
            }),
            final(self).queue@.len() == 0,
    {
        self.queue.clear();
        self.queue_initialized = false;
        self.queue_version = 0;
        self.expected_queue_version = 0;
    }

    /// Takes note of edits of the queue that are applied locally first.
    pub fn register_local_queue_changes(&mut self, n_changes: u32)
        requires
            old(self).expected_queue_version + n_changes <= u32::MAX,
        ensures
            *final(self) == with_local_changes(*old(self), n_changes as int),
    {
        self.expected_queue_version = self.expected_queue_version + n_changes;
    }

    /// Takes over a version of the queue that the server reports, and says what is to be fetched.
    pub fn update_queue_version(&mut self, version: u32) -> (r: QueueFetch)
        ensures
            r == queue_fetch(*old(self), version),
            *final(self) == with_queue_version(*old(self), version),
    {
        let before: u32 = self.queue_version;
        self.queue_version = version;
        if version > before && version > self.expected_queue_version {
            self.expected_queue_version = version;
            if before == 0 {
                QueueFetch::Whole
            } else {
                QueueFetch::Changes(before)
            }
        } else {
            QueueFetch::Nothing
        }
    }

    /// Takes note that the queue has been fetched once.
    pub fn mark_queue_initialized(&mut self)
        ensures
            *final(self) == (Player { queue_initialized: true, ..*old(self) }),
    {
        self.queue_initialized = true;
    }

    pub fn queue_is_initialized(&self) -> (r: bool)
        ensures
            r == self.queue_initialized,
    {
        self.queue_initialized
    }

    /// Appends songs to the queue that were fetched.
    pub fn extend_queue(&mut self, songs: Vec<SongStickers>)
        ensures
            *final(self) == (Player { queue: final(self).queue, ..*old(self) }),
            final(self).queue@ == old(self).queue@ + songs@,
    {
        let mut songs = songs;
        self.queue.append(&mut songs);
    }

    /// Whether changes that the server has sent can be applied to the queue.
    pub fn can_update_queue(&self, changes: &Vec<SongStickers>) -> (r: bool)
        ensures
            r == applicable(self.queue@, changes@),
    {
        let ghost queue = self.queue@;
        let ghost pairs = placed(changes@);
        let mut low: u32 = u32::MAX;
        let mut high: u32 = 0;
        let mut i: usize = 0;
        assert(pairs.take(0) =~= Seq::empty());
        while i < changes.len()
            invariant
                pairs == placed(changes@),
                i <= changes@.len(),
                forall|j: int| 0 <= j < i ==> (#[trigger] changes@[j]).0.queue_pos is Some,
                low == min_pos(pairs.take(i as int)),
                high == max_pos(pairs.take(i as int)),
            decreases changes.len() - i,
        {
            assert(pairs.take(i + 1).drop_last() =~= pairs.take(i as int));
            match changes[i].0.queue_pos {
                Some(pos) => {
                    assert(pairs.take(i + 1).last() == (pos, changes@[i as int]));
                    if pos < low {
                        low = pos;
                    }
                    if pos > high {
                        high = pos;
                    }
                },
                None => {
                    return false;
                },
            }
            i = i + 1;
        }
        assert(pairs.take(i as int) =~= pairs);
        if changes.len() == 0 {
            return true;
        }
        let mut pos: u64 = low as u64;
        let mut k: usize = 0;
        assert(pairs.skip(0) =~= pairs);
        while pos <= high as u64
            invariant
                queue == self.queue@,
                pairs == placed(changes@),
                low <= pos,
                k <= changes@.len(),
                changes@.len() > 0,
                all_placed(changes@),
                low == min_pos(pairs),
                high == max_pos(pairs),
                rebuilt(queue, pairs, low as int, high as int) is Some <==> rebuilt(
                    queue,
                    pairs.skip(k as int),
                    pos as int,
                    high as int,
                ) is Some,
            decreases high + 1 - pos,
        {
            let ghost left = pairs.skip(k as int);
            let mut is_change: bool = false;
            if k < changes.len() {
                assert(left[0] == pairs[k as int]);
                if let Some(p) = changes[k].0.queue_pos {
                    is_change = p as u64 == pos;
                }
            }
            if is_change {
                assert(left.drop_first() =~= pairs.skip(k + 1));
                k = k + 1;
            } else if pos >= self.queue.len() as u64 {
                return false;
            }
            pos = pos + 1;
        }
        true
    }

    /// Applies changes that the server has sent to the queue.
    pub fn update_queue_internal(&mut self, changes: Vec<SongStickers>)
        requires
            applicable(old(self).queue@, changes@),
        ensures
            *final(self) == (Player { queue: final(self).queue, ..*old(self) }),
            Some(final(self).queue@) == changed_queue(old(self).queue@, placed(changes@)),
    {
        let ghost all = changes@;
        let mut pairs: Vec<(u32, SongStickers)> = Vec::new();
        for song in it: changes
            invariant
                it.seq() == all,
                all_placed(all),
                pairs@ == placed(all.take(it.index())),
        {
            assert(all[it.index()] == song);
            let pos: u32 = song.0.queue_pos.unwrap_or(0);
            pairs.push((pos, song));
            assert(placed(all.take(it.index() + 1)) =~= placed(all.take(it.index())).push(
                (pos, song),
            ));
        }
        assert(all.take(all.len() as int) =~= all);
        let mut queue: Vec<SongStickers> = Vec::new();
        std::mem::swap(&mut queue, &mut self.queue);
        if let Some(updated) = queue::update_queue_internal(queue, pairs) {
            self.queue = updated;
        }
    }

    /// Removes an entry from the queue.
    pub fn remove_pos(&mut self, pos: u32)
        requires
            pos < old(self).queue@.len(),
            old(self).expected_queue_version < u32::MAX,
        ensures
            *final(self) == (Player {
                queue: final(self).queue,
                ..with_local_changes(*old(self), 1)
            }),
            final(self).queue@ == old(self).queue@.remove(pos as int),
    {
        self.register_local_queue_changes(1);
        queue::remove_pos(&mut self.queue, pos);
    }

    /// Swaps an entry of the queue with its neighbour and says which one that is, so that the server
    /// can be asked to do the same.
    pub fn swap_dir(&mut self, pos: u32, direction: SwapDirection) -> (r: Option<u32>)
        requires
            pos < old(self).queue@.len() <= u32::MAX,
            old(self).expected_queue_version < u32::MAX,
        ensures
            *final(self) == (Player {
                queue: final(self).queue,
                ..with_local_changes(*old(self), 1)
            }),
            match swap_partner(pos as int, direction, old(self).queue@.len() as int) {
                Some(other) => {
                    &&& r is Some && r->0 == other
                    &&& final(self).queue@ == swapped(old(self).queue@, pos as int, other)
                },
                None => r is None && final(self).queue@ == old(self).queue@,
            },
    {
        self.register_local_queue_changes(1);
        queue::swap_dir(&mut self.queue, pos, direction)
    }

    /// Moves the entry at `from` before the entry that is at `to`, or to the end.
    pub fn move_to(&mut self, from: u32, to: u32)
        requires
            from < old(self).queue@.len(),
            to <= old(self).queue@.len(),
            old(self).expected_queue_version < u32::MAX,
        ensures
            *final(self) == (Player {
                queue: final(self).queue,
                ..with_local_changes(*old(self), 1)
            }),
            final(self).queue@ == moved(old(self).queue@, from as int, to as int),
    {
        self.register_local_queue_changes(1);
        queue::move_to(&mut self.queue, from, to);
    }

    /// Plans a shuffle of the queue that leaves the album that is playing to finish.
    pub fn shuffle_queue(&self, mode: ShuffleMode) -> (r: ShufflePlan)
        requires
            self.queue@.len() <= u32::MAX,
        ensures
            is_shuffle_plan(
                cluster_ids(self.queue@),
                queue_uris(self.queue@),
                current_pos(*self),
                mode,
                r,
            ),
    {
        let mut ids: Vec<String> = Vec::new();
        let mut uris: Vec<String> = Vec::new();
        let mut i: usize = 0;
        while i < self.queue.len()
            invariant
                i <= self.queue@.len(),
                str_views(ids@) =~= cluster_ids(self.queue@.take(i as int)),
                str_views(uris@) =~= queue_uris(self.queue@.take(i as int)),
            decreases self.queue.len() - i,
        {
            let ghost ids_before = ids@;
            let ghost uris_before = uris@;
            let id: String = song_cluster_id(&self.queue[i].0).to_string();
            let uri: String = self.queue[i].0.uri.clone();
            proof {
                assert(str_views(ids_before.push(id)) =~= str_views(ids_before).push(id@));
                assert(str_views(uris_before.push(uri)) =~= str_views(uris_before).push(uri@));
                assert(self.queue@.take(i + 1) =~= self.queue@.take(i as int).push(
                    self.queue@[i as int],
                ));
            }
            ids.push(id);
            uris.push(uri);
            i = i + 1;
        }
        assert(self.queue@.take(i as int) =~= self.queue@);
        assert(ids@.len() == str_views(ids@).len());
        assert(uris@.len() == str_views(uris@).len());
        queue::shuffle_queue(&ids, &uris, self.queue_pos(), mode)
    }

    /// What to ask of the server to toggle playback.
    pub fn toggle_playback(&self) -> (r: Toggle)
        ensures
            r == toggle_of(*self),
    {
        match self.options.state {
            PlaybackState::Stopped => if self.queue.len() > 0 {
                Toggle::PlayFirst
            } else {
                Toggle::Nothing
            },
            PlaybackState::Playing => Toggle::Pause,
            PlaybackState::Paused => Toggle::Resume,
        }
    }

    /// Takes over a position in nanoseconds. Gives back the old one, and whether listeners are told.
    pub fn set_position(&mut self, new: u64) -> (r: (u64, bool))
        ensures
            *final(self) == (Player { position: new, ..*old(self) }),
            r == (old(self).position, old(self).position != new),
    {
        let before: u64 = self.position;
        self.position = new;
        (before, before != new)
    }

    /// The position in nanoseconds that lies some milliseconds from the current one.
    pub fn seek_target(&self, offset: i64) -> (r: i128)
        ensures
            r == self.position + offset * 1_000_000,
    {
        self.position as i128 + offset as i128 * 1_000_000
    }

    /// Whether the media controls mean the current song when they name a track: the last component of
    /// the name is what the server calls the entry of the queue.
    pub fn is_current_track(&self, track_id: &str) -> (r: bool)
        ensures
            r == (self.current_song is Some && (self.current_song->0).0.queue_id is Some
                && last_component(track_id@) == digits(
                (self.current_song->0).0.queue_id->0 as nat,
            )),
    {
        match self.queue_id() {
            Some(id) => {
                let name: String = digit_string(id as u64);
                let chars: Vec<char> = chars_of(track_id);
                let start: usize = match rfind(&chars, '/') {
                    Some(i) => i + 1,
                    None => 0,
                };
                assert(last_component(track_id@) == chars@.skip(start as int));
                tail_is(&chars, start, name.as_str())
            },
            None => false,
        }
    }

    /// Whether the status is asked for at intervals: only while a song plays.
    pub fn polls_status(&self) -> (r: bool)
        ensures
            r == (self.options.state == PlaybackState::Playing),
    {
        self.options.state == PlaybackState::Playing
    }

    /// What the server is asked to do at the end of a song after the user has gone on from what it does
    /// now.
    pub fn cycle_playback_flow(&self) -> (r: PlaybackFlow)
        ensures
            r == self.options.flow.successor(),
    {
        self.options.flow.next_in_cycle()
    }

    /// Takes over the line of the lyrics that belongs to the position. Says whether it is another one.
    pub fn update_lyric_line(&mut self, line: u32) -> (r: bool)
        ensures
            *final(self) == (Player { current_lyric_line: line, ..*old(self) }),
            r == (line != old(self).current_lyric_line),
    {
        let changed: bool = line != self.current_lyric_line;
        self.current_lyric_line = line;
        changed
    }

    /// Takes note of new lyrics, which are shown from their first line on.
    pub fn update_lyrics(&mut self)
        ensures
            *final(self) == (Player { current_lyric_line: 0, ..*old(self) }),
    {
        self.current_lyric_line = 0;
    }

    /// Whether lyrics that were fetched for a song are still wanted: that song is still the current one.
    pub fn wants_lyrics_of(&self, song: &SongInfo) -> (r: bool)
        ensures
            r == (self.current_song is Some && song_comp_id((self.current_song->0).0)
                == song_comp_id(*song)),
    {
        match &self.current_song {
            Some(current) => same(current.0.get_comp_id(), song.get_comp_id()),
            None => false,
        }
    }

    /// Takes note of a volume that the server reports by itself. Says whether another client has set
    /// it.
    pub fn maybe_emit_volume_changed(&mut self) -> (r: bool)
        ensures
            r == (old(self).expected_volume_changes == 0),
            *final(self) == (Player {
                expected_volume_changes: if old(self).expected_volume_changes > 0 {
                    (old(self).expected_volume_changes - 1) as u32
                } else {
                    0
                },
                ..*old(self)
            }),
    {
        if self.expected_volume_changes > 0 {
            self.expected_volume_changes = self.expected_volume_changes - 1;
            false
        } else {
            true
        }
    }

    /// Takes over a volume that the user has set. Says whether it is to be sent to the server.
    pub fn set_volume(&mut self, volume: i8) -> (r: bool)
        ensures
            r == (old(self).options.volume != volume),
            *final(self) == (Player {
                options: Options { volume, ..old(self).options },
                ..*old(self)
            }),
    {
        let changed: bool = self.options.volume != volume;
        self.options.volume = volume;
        changed
    }

    /// Takes note that a volume was sent to the server, which will report it.
    pub fn expect_volume_change(&mut self)
        requires
            old(self).expected_volume_changes < u32::MAX,
        ensures
            *final(self) == (Player {
                expected_volume_changes: (old(self).expected_volume_changes + 1) as u32,
                ..*old(self)
            }),
    {
        self.expected_volume_changes = self.expected_volume_changes + 1;
    }

    /// Rates the current song, or takes its rating away. Gives back its URI and what is to be done to
    /// its sticker; nothing where there is no current song.
    pub fn rate_current_song(&mut self, score: Option<i8>) -> (r: Option<(String, StickerChange)>)
        ensures
            match old(self).current_song {
                None => r is None && *final(self) == *old(self),
                Some(song) => {
                    &&& r is Some
                    &&& (r->0).0@ == song.0.uri@
                    &&& (r->0).1@ == rating_change(score)
                    &&& *final(self) == (Player {
                        current_song: Some((song.0, Stickers { rating: score, ..song.1 })),
                        ..*old(self)
                    })
                },
            },
    {
        match self.current_song.take() {
            None => None,
            Some(song) => {
                let (info, stickers) = song;
                let uri: String = info.uri.clone();
                self.current_song = Some((info, Stickers { rating: score, ..stickers }));
                Some((uri, rating_sticker(score)))
            },
        }
    }

    pub fn title(&self) -> (r: Option<&str>)
        ensures
            match self.current_song {
                Some(song) => r is Some && r->0@ == song.0.title@,
                None => r is None,
            },
    {
        match &self.current_song {
            Some(song) => Some(song.0.title.as_str()),
            None => None,
        }
    }

    pub fn album(&self) -> (r: Option<&str>)
        ensures
            (self.current_song is Some && (self.current_song->0).0.album is Some) == (r is Some),
            r is Some ==> r->0@ == ((self.current_song->0).0.album->0).title@,
    {
        match &self.current_song {
            Some(song) => match &song.0.album {
                Some(album) => Some(album.title.as_str()),
                None => None,
            },
            None => None,
        }
    }

    pub fn rating(&self) -> (r: Option<i8>)
        ensures
            r == (match self.current_song {
                Some(song) => song.1.rating,
                None => None,
            }),
    {
        match &self.current_song {
            Some(song) => song.1.rating,
            None => None,
        }
    }

    pub fn quality_grade(&self) -> (r: QualityGrade)
        ensures
            r == (match self.current_song {
                Some(song) => song.0.quality_grade,
                None => QualityGrade::Unknown,
            }),
    {
        match &self.current_song {
            Some(song) => song.0.quality_grade,
            None => QualityGrade::Unknown,
        }
    }

    pub fn queue_id(&self) -> (r: Option<u32>)
        ensures
            r == (match self.current_song {
                Some(song) => song.0.queue_id,
                None => None,
            }),
    {
        match &self.current_song {
            Some(song) => song.0.queue_id,
            None => None,
        }
    }

    pub fn queue_pos(&self) -> (r: Option<u32>)
        ensures
            r == current_pos(*self),
    {
        match &self.current_song {
            Some(song) => song.0.queue_pos,
            None => None,
        }
    }

    pub fn set_fft_status(&mut self, new: FftStatus) -> (r: bool)
        ensures
            *final(self) == (Player { fft_status: new, ..*old(self) }),
            r == (old(self).fft_status != new),
    {
        let changed: bool = self.fft_status != new;
        self.fft_status = new;
        changed
    }

    /// Takes note of whether the window is in the foreground. Gives back whether the reader of the
    /// visualiser's samples is started or stopped.
    pub fn set_is_foreground(&mut self, mode: bool) -> (r: Option<Effect>)
        ensures
            *final(self) == (Player { is_foreground: mode, ..*old(self) }),
            r == fft_effect(*final(self), mode),
    {
        self.is_foreground = mode;
        self.start_or_stop(mode)
    }

    /// Takes note of whether the visualiser is to be shown. Gives back whether the reader of its samples
    /// is started or stopped.
    pub fn set_use_visualizer(&mut self, state: bool) -> (r: Option<Effect>)
        ensures
            *final(self) == (Player { use_visualizer: state, ..*old(self) }),
            r == fft_effect(*final(self), state),
    {
        self.use_visualizer = state;
        self.start_or_stop(state)
    }

    /// Takes over where the visualiser's samples come from. Says whether that is another source, whose
    /// reader then replaces the old one.
    pub fn set_fft_source(&mut self, new: FftSource) -> (r: bool)
        ensures
            *final(self) == (Player { fft_source: new, ..*old(self) }),
            r == (old(self).fft_source != new),
    {
        let changed: bool = self.fft_source != new;
        self.fft_source = new;
        changed
    }

    /// Takes over whether the reader from PipeWire is restarted between songs. Says whether that is new.
    pub fn set_pipewire_restart(&mut self, state: bool) -> (r: bool)
        ensures
            *final(self) == (Player { pipewire_restart_between_songs: state, ..*old(self) }),
            r == (old(self).pipewire_restart_between_songs != state),
    {
        let changed: bool = self.pipewire_restart_between_songs != state;
        self.pipewire_restart_between_songs = state;
        changed
    }

    fn start_or_stop(&self, on: bool) -> (r: Option<Effect>)
        ensures
            r == fft_effect(*self, on),
    {
        if !on {
            Some(Effect::StopFft)
        } else if self.may_start_fft() {
            Some(Effect::StartFft)
        } else {
            None
        }
    }
}

/// What a switch does to the reader of the visualiser's samples: turned off it stops it, turned on it
/// starts it where nothing else stands against it.
pub open spec fn fft_effect(p: Player, on: bool) -> Option<Effect> {
    if !on {
        Some(Effect::StopFft)
    } else if may_visualize(p) {
        Some(Effect::StartFft)
    } else {
        None
    }
}

/// The line of lyrics that a seek goes to; nothing where the lyrics have no times or no such line.
pub fn lyric_line_index(synced: bool, n_lines: usize, line: i32) -> (r: Option<usize>)
    ensures
        r is Some <==> synced && 0 <= line < n_lines,
        r is Some ==> r->0 == line,
{
    if synced && line >= 0 && (line as usize) < n_lines {
        Some(line as usize)
    } else {
        None
    }
}

/// Nanoseconds in milliseconds, rounded to the nearest, a half up.
pub fn nearest_millis(nanos: u64) -> (r: u64)
    ensures
        r == (nanos + 500_000) / 1_000_000,
{
    if nanos % 1_000_000 >= 500_000 {
        nanos / 1_000_000 + 1
    } else {
        nanos / 1_000_000
    }
}

/// What the player asks the server for.
#[derive(Debug, Clone, Copy, PartialEq, Eq, Structural)]
pub enum PlayerUpdate {
    Status,
    Queue,
    Outputs,
    Volume,
}

/// What the player asks for when a part of the server reports a change.
pub fn update_for(subsystem: Subsystem) -> (r: Option<PlayerUpdate>)
    ensures
        r == (match subsystem {
            Subsystem::Player => Some(PlayerUpdate::Status),
            Subsystem::Options => Some(PlayerUpdate::Status),
            Subsystem::Queue => Some(PlayerUpdate::Queue),
            Subsystem::Output => Some(PlayerUpdate::Outputs),
            Subsystem::Mixer => Some(PlayerUpdate::Volume),
            _ => None,
        }),
{
    match subsystem {
        Subsystem::Player | Subsystem::Options => Some(PlayerUpdate::Status),
        Subsystem::Queue => Some(PlayerUpdate::Queue),
        Subsystem::Output => Some(PlayerUpdate::Outputs),
        Subsystem::Mixer => Some(PlayerUpdate::Volume),
        _ => None,
    }
}

/// Local edits of the queue hide the server's reports of them: as long as the version does not get ahead
/// of what is expected, nothing is fetched, and the expectation stands.
pub proof fn law_expected_versions_fetch_nothing(p: Player, n: int, version: u32)
    requires
        0 <= n,
        p.expected_queue_version + n <= u32::MAX,
        version <= p.expected_queue_version + n,
    ensures
        queue_fetch(with_local_changes(p, n), version) == QueueFetch::Nothing,
        with_queue_version(with_local_changes(p, n), version).expected_queue_version
            == p.expected_queue_version + n,
{
}

/// A version that gets ahead of what is expected, and of what is known, is fetched once: reported again,
/// it fetches nothing.
pub proof fn law_new_versions_are_fetched_once(p: Player, version: u32)
    requires
        version > p.queue_version,
        version > p.expected_queue_version,
    ensures
        queue_fetch(p, version) != QueueFetch::Nothing,
        queue_fetch(with_queue_version(p, version), version) == QueueFetch::Nothing,
{
}

/// Listeners are told of changes alone: a status that is taken in twice tells them nothing the second
/// time, but for whether to poll.
pub proof fn law_same_status_tells_nothing(p: Player, s: Status, expected: bool)
    ensures
        option_effects(with_options(p, s).options, options_of(s), expected).len() == 1,
        option_mpris(with_options(p, s).options, options_of(s)).len() == 0,
{
    reveal(option_effects);
    reveal(option_mpris);
}

/// A song counts at most once: after it was written into the history it is not written again, and does
/// not count as skipped when another song follows.
pub proof fn law_songs_count_once(p: Player, s: Status, position: u64, history_paused: bool)
    ensures
        ({
            let q = Player { saved_to_history: true, position, ..p };
            &&& song_step(q, s, history_paused) != SongStep::Record
            &&& song_step(q, s, history_paused) matches SongStep::Fetch(_, skipped) ==> !skipped
        }),
{
}

/// Every song starts uncounted, and the song that the server names is not fetched again.
pub proof fn law_fetched_song_is_kept(p: Player, song: SongStickers, s: Status)
    requires
        s.song is Some,
        song.0.queue_id == s.song,
    ensures
        !with_song(p, song).saved_to_history,
        song_step(with_song(p, song), s, true) == SongStep::Keep,
{
}

/// A volume that the user sets is not reported back as another client's: the status that follows does
/// not change it, and the server's own report is expected.
pub proof fn law_own_volume_is_silent(p: Player, volume: i8, s: Status)
    requires
        p.expected_volume_changes < u32::MAX,
        s.volume == volume,
    ensures
        ({
            let q = Player {
                options: Options { volume, ..p.options },
                expected_volume_changes: (p.expected_volume_changes + 1) as u32,
                ..p
            };
            &&& with_options(q, s).options.volume == q.options.volume
            &&& with_options(q, s).expected_volume_changes == p.expected_volume_changes + 1
        }),
{
}

/// The state of playback after the server has done what it was asked to.
pub open spec fn toggled(state: PlaybackState, t: Toggle) -> PlaybackState {
    match t {
        Toggle::Nothing => state,
        Toggle::PlayFirst => PlaybackState::Playing,
        Toggle::Pause => PlaybackState::Paused,
        Toggle::Resume => PlaybackState::Playing,
    }
}

/// Toggling pauses what plays, and goes on with what is paused. What is stopped starts at the first entry
/// of the queue, and stays so where there is none.
pub proof fn law_toggling(p: Player, t: Toggle)
    requires
        call_ensures(Player::toggle_playback, (&p,), t),
    ensures
        p.options.state == PlaybackState::Playing ==> t == Toggle::Pause,
        p.options.state == PlaybackState::Paused ==> t == Toggle::Resume,
        p.options.state == PlaybackState::Stopped && p.queue@.len() > 0 ==> t == Toggle::PlayFirst,
        p.options.state == PlaybackState::Stopped && p.queue@.len() == 0 ==> t == Toggle::Nothing,
        p.options.state != PlaybackState::Stopped ==> toggled(p.options.state, t) != p.options.state,
{
}

/// Toggling twice leaves playback as it was, unless it was stopped.
pub proof fn law_toggling_twice(p: Player, q: Player, t: Toggle, u: Toggle)
    requires
        call_ensures(Player::toggle_playback, (&p,), t),
        call_ensures(Player::toggle_playback, (&q,), u),
        q.options.state == toggled(p.options.state, t),
        p.options.state != PlaybackState::Stopped,
    ensures
        toggled(q.options.state, u) == p.options.state,
{
}

/// A seek goes as many milliseconds forth or back as is asked for: one of nothing stays, and two seeks lie
/// as far apart as their offsets.
pub proof fn law_seeking(p: Player, a: i64, b: i64, x: i128, y: i128)
    requires
        call_ensures(Player::seek_target, (&p, a), x),
        call_ensures(Player::seek_target, (&p, b), y),
    ensures
        a == 0 ==> x == p.position,
        a > 0 ==> x > p.position,
        x - y == (a - b) * 1_000_000,
{
}

/// A position that is set is where the player stands, and listeners are told of it where it is another.
pub proof fn law_positions_are_taken_over(p: &mut Player, new: u64, r: (u64, bool))
    requires
        call_ensures(Player::set_position, (p, new), r),
    ensures
        final(p).position == new,
        final(p).options == old(p).options,
        final(p).queue@ == old(p).queue@,
        r.0 == old(p).position,
        r.1 <==> old(p).position != new,
{
}

/// A volume that the user sets is taken over, and sent where it is another.
pub proof fn law_volumes_are_taken_over(p: &mut Player, volume: i8, r: bool)
    requires
        call_ensures(Player::set_volume, (p, volume), r),
    ensures
        final(p).options.volume == volume,
        final(p).options.state == old(p).options.state,
        final(p).options.flow == old(p).options.flow,
        r <==> volume != old(p).options.volume,
{
}

/// Of the volumes that the server reports those are silent that this player has sent, as many as it has
/// sent and no more.
pub proof fn law_reported_volumes(p: &mut Player, r: bool)
    requires
        call_ensures(Player::maybe_emit_volume_changed, (p,), r),
    ensures
        r <==> old(p).expected_volume_changes == 0,
        r ==> final(p).expected_volume_changes == 0,
        !r ==> final(p).expected_volume_changes + 1 == old(p).expected_volume_changes,
        final(p).options == old(p).options,
{
}

/// A volume that was sent is expected back once more.
pub proof fn law_sent_volumes_are_expected(p: &mut Player)
    requires
        old(p).expected_volume_changes < u32::MAX,
        call_ensures(Player::expect_volume_change, (p,), ()),
    ensures
        final(p).expected_volume_changes == old(p).expected_volume_changes + 1,
{
}

/// Only a song that plays is followed by asking for the status again and again.
pub proof fn law_polling(p: Player, r: bool)
    requires
        call_ensures(Player::polls_status, (&p,), r),
    ensures
        r <==> p.options.state == PlaybackState::Playing,
{
}

/// A rating is given to the current song, under its own URI, and to nothing else of it.
pub proof fn law_ratings_go_to_the_current_song(
    p: &mut Player,
    score: Option<i8>,
    r: Option<(String, StickerChange)>,
)
    requires
        call_ensures(Player::rate_current_song, (p, score), r),
    ensures
        r is Some <==> old(p).current_song is Some,
        final(p).current_song is Some <==> old(p).current_song is Some,
        r is Some ==> {
            let before = old(p).current_song->0;
            let after = final(p).current_song->0;
            &&& (r->0).0@ == before.0.uri@
            &&& after.0 == before.0
            &&& after.1.rating == score
            &&& after.1.play_count == before.1.play_count
            &&& after.1.skip_count == before.1.skip_count
            &&& score is None ==> (r->0).1@ is Delete
            &&& score is Some ==> (r->0).1@ is Write
        },
        final(p).queue@ == old(p).queue@,
        final(p).position == old(p).position,
{
}

/// An edit that is applied locally is expected from the server once more.
pub proof fn law_local_edits_are_expected(p: &mut Player, n: u32)
    requires
        old(p).expected_queue_version + n <= u32::MAX,
        call_ensures(Player::register_local_queue_changes, (p, n), ()),
    ensures
        final(p).expected_queue_version == old(p).expected_queue_version + n,
        final(p).queue_version == old(p).queue_version,
        final(p).queue@ == old(p).queue@,
{
}

/// A version of the queue that is newer than what is known and what is expected is fetched: all of the
/// queue the first time, and what has changed since the known version later. Any other fetches nothing.
/// The version that was reported is known from then on.
pub proof fn law_queue_versions(p: &mut Player, version: u32, r: QueueFetch)
    requires
        call_ensures(Player::update_queue_version, (p, version), r),
    ensures
        version <= old(p).queue_version ==> r == QueueFetch::Nothing,
        version <= old(p).expected_queue_version ==> r == QueueFetch::Nothing,
        version > old(p).queue_version && version > old(p).expected_queue_version ==> {
            &&& old(p).queue_version == 0 ==> r == QueueFetch::Whole
            &&& old(p).queue_version > 0 ==> r == QueueFetch::Changes(old(p).queue_version)
        },
        final(p).queue_version == version,
        final(p).expected_queue_version >= old(p).expected_queue_version,
        r != QueueFetch::Nothing ==> final(p).expected_queue_version == version,
        r == QueueFetch::Nothing ==> final(p).expected_queue_version
            == old(p).expected_queue_version,
        final(p).queue@ == old(p).queue@,
{
}

/// The queue of a server that is left is forgotten: the next version is fetched whole.
pub proof fn law_a_cleared_queue_is_fetched_whole(
    p: &mut Player,
    q: &mut Player,
    version: u32,
    r: QueueFetch,
)
    requires
        call_ensures(Player::clear, (p,), ()),
        *old(q) == *final(p),
        call_ensures(Player::update_queue_version, (q, version), r),
        version > 0,
    ensures
        final(p).queue@.len() == 0,
        !final(p).queue_initialized,
        final(p).options == old(p).options,
        r == QueueFetch::Whole,
{
}

/// An entry that is removed leaves the others in their order.
pub proof fn law_removing_an_entry(p: &mut Player, pos: u32)
    requires
        pos < old(p).queue@.len(),
        old(p).expected_queue_version < u32::MAX,
        call_ensures(Player::remove_pos, (p, pos), ()),
    ensures
        final(p).queue@.len() == old(p).queue@.len() - 1,
        forall|i: int| 0 <= i < pos ==> final(p).queue@[i] == old(p).queue@[i],
        forall|i: int|
            pos <= i < final(p).queue@.len() ==> final(p).queue@[i] == old(p).queue@[i + 1],
        final(p).expected_queue_version == old(p).expected_queue_version + 1,
{
}

/// An entry changes places with the one above it or below it, and with none at the ends of the queue.
/// Nothing else moves.
pub proof fn law_swapping_an_entry(
    p: &mut Player,
    pos: u32,
    direction: SwapDirection,
    r: Option<u32>,
)
    requires
        pos < old(p).queue@.len() <= u32::MAX,
        old(p).expected_queue_version < u32::MAX,
        call_ensures(Player::swap_dir, (p, pos, direction), r),
    ensures
        direction == SwapDirection::Up ==> (r is Some <==> pos > 0),
        direction == SwapDirection::Up && r is Some ==> r->0 == pos - 1,
        direction == SwapDirection::Down ==> (r is Some <==> pos + 1 < old(p).queue@.len()),
        direction == SwapDirection::Down && r is Some ==> r->0 == pos + 1,
        final(p).queue@.len() == old(p).queue@.len(),
        r is Some ==> final(p).queue@[pos as int] == old(p).queue@[r->0 as int]
            && final(p).queue@[r->0 as int] == old(p).queue@[pos as int],
        r is None ==> final(p).queue@ == old(p).queue@,
        forall|i: int|
            0 <= i < old(p).queue@.len() && i != pos && (r is Some ==> i != r->0)
                ==> final(p).queue@[i] == old(p).queue@[i],
        final(p).expected_queue_version == old(p).expected_queue_version + 1,
{
}

/// An entry that is moved comes to stand right before the one that it was dropped on, or at the end, and
/// right behind the one that stood before that. The others keep their order.
pub proof fn law_moving_an_entry(p: &mut Player, from: u32, to: u32)
    requires
        from < old(p).queue@.len(),
        to <= old(p).queue@.len(),
        old(p).expected_queue_version < u32::MAX,
        call_ensures(Player::move_to, (p, from, to), ()),
    ensures
        ({
            let land = if from < to {
                to - 1
            } else {
                to as int
            };
            &&& final(p).queue@.len() == old(p).queue@.len()
            &&& final(p).queue@[land] == old(p).queue@[from as int]
            &&& final(p).queue@.remove(land) == old(p).queue@.remove(from as int)
        }),
        final(p).expected_queue_version == old(p).expected_queue_version + 1,
{
    let land = if from < to {
        to - 1
    } else {
        to as int
    };
    let q = old(p).queue@;
    assert(final(p).queue@.remove(land) =~= q.remove(from as int));
}

/// A switch that is turned off stops the reader of the visualiser's samples; turned on it starts it where
/// the other switch is on as well.
pub proof fn law_the_visualiser_needs_both_switches(
    p: &mut Player,
    q: &mut Player,
    on: bool,
    r: Option<Effect>,
    s: Option<Effect>,
)
    requires
        call_ensures(Player::set_is_foreground, (p, on), r),
        call_ensures(Player::set_use_visualizer, (q, on), s),
    ensures
        final(p).is_foreground == on,
        final(p).use_visualizer == old(p).use_visualizer,
        final(q).use_visualizer == on,
        final(q).is_foreground == old(q).is_foreground,
        !on ==> r == Some(Effect::StopFft) && s == Some(Effect::StopFft),
        on && old(p).use_visualizer ==> r == Some(Effect::StartFft),
        on && !old(p).use_visualizer ==> r is None,
        on && old(q).is_foreground ==> s == Some(Effect::StartFft),
        on && !old(q).is_foreground ==> s is None,
{
}

/// Milliseconds are the nearest ones to the nanoseconds.
pub proof fn law_nearest_millis(nanos: u64, r: u64)
    requires
        call_ensures(nearest_millis, (nanos,), r),
    ensures
        -500_000 < r * 1_000_000 - nanos <= 500_000,
{
}

/// A seek to a line of lyrics goes to that line, and nowhere where there are no times or no such line.
pub proof fn law_lyric_lines(synced: bool, n_lines: usize, line: i32, r: Option<usize>)
    requires
        call_ensures(lyric_line_index, (synced, n_lines, line), r),
    ensures
        !synced || line < 0 || line >= n_lines ==> r is None,
        synced && 0 <= line < n_lines ==> r is Some && r->0 == line,
{
}

/// What the server reports to have changed is what is asked for again.
pub proof fn law_updates_follow_reports(subsystem: Subsystem, r: Option<PlayerUpdate>)
    requires
        call_ensures(update_for, (subsystem,), r),
    ensures
        r == Some(PlayerUpdate::Status) <==> (subsystem == Subsystem::Player || subsystem
            == Subsystem::Options),
        r == Some(PlayerUpdate::Queue) <==> subsystem == Subsystem::Queue,
        r == Some(PlayerUpdate::Outputs) <==> subsystem == Subsystem::Output,
        r == Some(PlayerUpdate::Volume) <==> subsystem == Subsystem::Mixer,
{
}

/// What is shown of the current song is what its tags and stickers say, and nothing where there is none.
pub proof fn law_the_current_song_is_shown(
    p: Player,
    title: Option<&str>,
    rating: Option<i8>,
    grade: QualityGrade,
    id: Option<u32>,
    pos: Option<u32>,
)
    requires
        call_ensures(Player::title, (&p,), title),
        call_ensures(Player::rating, (&p,), rating),
        call_ensures(Player::quality_grade, (&p,), grade),
        call_ensures(Player::queue_id, (&p,), id),
        call_ensures(Player::queue_pos, (&p,), pos),
    ensures
        p.current_song is None ==> title is None && rating is None && grade
            == QualityGrade::Unknown && id is None && pos is None,
        p.current_song is Some ==> {
            let song = p.current_song->0;
            &&& title is Some && title->0@ == song.0.title@
            &&& rating == song.1.rating
            &&& grade == song.0.quality_grade
            &&& id == song.0.queue_id
            &&& pos == song.0.queue_pos
        },
{
}

/// Songs that were fetched come behind those that are there.
pub proof fn law_fetched_songs_come_last(p: &mut Player, songs: Vec<SongStickers>)
    requires
        call_ensures(Player::extend_queue, (p, songs), ()),
    ensures
        final(p).queue@.len() == old(p).queue@.len() + songs@.len(),
        forall|i: int| 0 <= i < old(p).queue@.len() ==> final(p).queue@[i] == old(p).queue@[i],
        forall|i: int|
            0 <= i < songs@.len() ==> final(p).queue@[old(p).queue@.len() + i] == songs@[i],
{
}

/// A track of the media controls is the current one where its path ends with the entry of the current song.
pub proof fn law_the_current_track(p: Player, path: &str, front: Seq<char>, entry: Seq<char>, r: bool)
    requires
        call_ensures(Player::is_current_track, (&p, path), r),
        path@ == front + seq!['/'] + entry,
        !entry.contains('/'),
    ensures
        r <==> p.current_song is Some && (p.current_song->0).0.queue_id is Some && entry == digits(
            (p.current_song->0).0.queue_id->0 as nat,
        ),
{
    crate::text::lemma_last_index_of_char(path@, '/');
    let k = last_index_of_char(path@, '/');
    assert(path@[front.len() as int] == '/');
    if k > front.len() {
        assert(entry[k - front.len() - 1] == '/');
    }
    if k < front.len() {
        assert(path@[front.len() as int] != '/');
    }
    assert(last_component(path@) =~= entry);
}

/// Lyrics are taken for the song that plays, and start with their first line. A line is told of where it is
/// another one.
pub proof fn law_lyrics_follow_the_song(
    p: Player,
    song: SongInfo,
    wants: bool,
    a: &mut Player,
    line: u32,
    told: bool,
    b: &mut Player,
)
    requires
        call_ensures(Player::wants_lyrics_of, (&p, &song), wants),
        call_ensures(Player::update_lyric_line, (a, line), told),
        call_ensures(Player::update_lyrics, (b,), ()),
    ensures
        p.current_song is None ==> !wants,
        wants && song.mbid is Some && (p.current_song->0).0.mbid is Some ==> song.mbid->0@ == (
        p.current_song->0).0.mbid->0@,
        p.current_song is Some && song.mbid is None && (p.current_song->0).0.mbid is None ==> (wants
            <==> song.uri@ == (p.current_song->0).0.uri@),
        told <==> line != old(a).current_lyric_line,
        final(a).current_lyric_line == line,
        final(b).current_lyric_line == 0,
{
}

/// Settings of the visualiser are taken over, and are told of where they change. The album is that of the
/// current song.
pub proof fn law_settings_are_taken_over(
    a: &mut Player,
    status: FftStatus,
    r: bool,
    b: &mut Player,
    source: FftSource,
    s: bool,
    c: &mut Player,
    restart: bool,
    t: bool,
    p: Player,
    album: Option<&str>,
)
    requires
        call_ensures(Player::set_fft_status, (a, status), r),
        call_ensures(Player::set_fft_source, (b, source), s),
        call_ensures(Player::set_pipewire_restart, (c, restart), t),
        call_ensures(Player::album, (&p,), album),
    ensures
        final(a).fft_status == status && final(b).fft_source == source,
        final(c).pipewire_restart_between_songs == restart,
        r <==> status != old(a).fft_status,
        s <==> source != old(b).fft_source,
        t <==> restart != old(c).pipewire_restart_between_songs,
        album is Some <==> p.current_song is Some && (p.current_song->0).0.album is Some,
        album is Some ==> album->0@ == ((p.current_song->0).0.album->0).title@,
{
}

/// The queue counts as fetched once it is.
pub proof fn law_the_queue_is_there(p: &mut Player, q: Player, r: bool, flow: PlaybackFlow)
    requires
        call_ensures(Player::mark_queue_initialized, (p,), ()),
        call_ensures(Player::queue_is_initialized, (&q,), r),
        call_ensures(Player::cycle_playback_flow, (&q,), flow),
    ensures
        final(p).queue_initialized,
        final(p).queue == old(p).queue,
        r == q.queue_initialized,
        q.options.flow == PlaybackFlow::Sequential ==> flow == PlaybackFlow::Repeat,
        q.options.flow == PlaybackFlow::Repeat ==> flow == PlaybackFlow::Single,
        q.options.flow == PlaybackFlow::Single ==> flow == PlaybackFlow::RepeatSingle,
        q.options.flow == PlaybackFlow::RepeatSingle ==> flow == PlaybackFlow::Sequential,
{
}

}
