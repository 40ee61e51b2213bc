//! Stickers: values that the server stores beside songs, albums and playlists for its clients.
use vstd::prelude::*;

use crate::client::StickerSetMode;
use crate::text::{decimal, decimal_string, digit_string, digits};

verus! {

/// The sticker that holds a rating.
pub const RATING_KEY: &'static str = "rating";

/// The sticker that counts how often a song was played.
pub const PLAY_COUNT_KEY: &'static str = "playCount";

/// The sticker that counts how often a song was skipped.
pub const SKIP_COUNT_KEY: &'static str = "skipCount";

/// The sticker that holds when a song was last played.
pub const LAST_PLAYED_KEY: &'static str = "lastPlayed";

/// The sticker that holds when a song was last skipped.
pub const LAST_SKIPPED_KEY: &'static str = "lastSkipped";

/// The stickers of one object that the player knows of.
#[derive(Debug, Clone, Copy, PartialEq, Eq, Structural)]
pub struct Stickers {
    pub rating: Option<i8>,
    pub play_count: Option<u64>,
    pub skip_count: Option<u64>,
    pub last_played: Option<i64>,
    pub last_skipped: Option<i64>,
}

impl Default for Stickers {
    fn default() -> (r: Self)
        ensures
            r == (Stickers {
                rating: None,
                play_count: None,
                skip_count: None,
                last_played: None,
                last_skipped: None,
            }),
    {
        Stickers { rating: None, play_count: None, skip_count: None, last_played: None, last_skipped: None }
    }
}

/// What is to be done to a sticker.
#[derive(Debug)]
pub enum StickerChange {
    /// Write a value under a key.
    Write(&'static str, String, StickerSetMode),
    /// Delete what stands under a key.
    Delete(&'static str),
}

/// What a `StickerChange` says.
pub enum StickerChangeView {
    Write(Seq<char>, Seq<char>, StickerSetMode),
    Delete(Seq<char>),
}

impl View for StickerChange {
    type V = StickerChangeView;

    open spec fn view(&self) -> StickerChangeView {
        match *self {
            StickerChange::Write(key, value, mode) => StickerChangeView::Write(
                key@,
                value@,
                mode,
            ),
            StickerChange::Delete(key) => StickerChangeView::Delete(key@),
        }
    }
}

/// What is written about a song that was skipped at a moment: it counts one skip more, and was last
/// skipped then.
pub fn skipped_stickers(now: u64) -> (r: (StickerChange, StickerChange))
    ensures
        r.0@ == StickerChangeView::Write(SKIP_COUNT_KEY@, "1"@, StickerSetMode::Inc),
        r.1@ == StickerChangeView::Write(
            LAST_SKIPPED_KEY@,
            digits(now as nat),
            StickerSetMode::Overwrite,
        ),
{
    (
        StickerChange::Write(SKIP_COUNT_KEY, "1".to_string(), StickerSetMode::Inc),
        StickerChange::Write(LAST_SKIPPED_KEY, digit_string(now), StickerSetMode::Overwrite),
    )
}

/// What is written about a song that starts to play at a moment: it was last played then.
pub fn started_sticker(now: u64) -> (r: StickerChange)
    ensures
        r@ == StickerChangeView::Write(
            LAST_PLAYED_KEY@,
            digits(now as nat),
            StickerSetMode::Overwrite,
        ),
{
    StickerChange::Write(LAST_PLAYED_KEY, digit_string(now), StickerSetMode::Overwrite)
}

/// What is written about a song that counts as played: it counts one play more.
pub fn played_sticker() -> (r: StickerChange)
    ensures
        r@ == StickerChangeView::Write(PLAY_COUNT_KEY@, "1"@, StickerSetMode::Inc),
{
    StickerChange::Write(PLAY_COUNT_KEY, "1".to_string(), StickerSetMode::Inc)
}

/// What a rating makes of the sticker that holds it.
pub open spec fn rating_change(score: Option<i8>) -> StickerChangeView {
    match score {
        Some(n) => StickerChangeView::Write(
            RATING_KEY@,
            decimal(n as int),
            StickerSetMode::Overwrite,
        ),
        None => StickerChangeView::Delete(RATING_KEY@),
    }
}

/// What is written about an object that gets a rating, or loses it.
pub fn rating_sticker(score: Option<i8>) -> (r: StickerChange)
    ensures
        r@ == rating_change(score),
{
    match score {
        Some(n) => StickerChange::Write(
            RATING_KEY,
            decimal_string(n as i64),
            StickerSetMode::Overwrite,
        ),
        None => StickerChange::Delete(RATING_KEY),
    }
}

/// A skip and a play are counted up by one, and their times and ratings are written over.
pub proof fn law_stickers_are_written(
    now: u64,
    skipped: (StickerChange, StickerChange),
    started: StickerChange,
    played: StickerChange,
    n: i8,
    rated: StickerChange,
    gone: StickerChange,
)
    requires
        call_ensures(skipped_stickers, (now,), skipped),
        call_ensures(started_sticker, (now,), started),
        call_ensures(played_sticker, (), played),
        call_ensures(rating_sticker, (Some(n),), rated),
        call_ensures(rating_sticker, (None::<i8>,), gone),
    ensures
        skipped.0@ == StickerChangeView::Write("skipCount"@, "1"@, StickerSetMode::Inc),
        skipped.1@ == StickerChangeView::Write(
            "lastSkipped"@,
            digits(now as nat),
            StickerSetMode::Overwrite,
        ),
        started@ == StickerChangeView::Write(
            "lastPlayed"@,
            digits(now as nat),
            StickerSetMode::Overwrite,
        ),
        played@ == StickerChangeView::Write("playCount"@, "1"@, StickerSetMode::Inc),
        rated@ == StickerChangeView::Write(
            "rating"@,
            decimal(n as int),
            StickerSetMode::Overwrite,
        ),
        gone@ == StickerChangeView::Delete("rating"@),
{
}

}
