//! The client side of the protocol.
use vstd::prelude::*;

use crate::utils::CLOCK_RANGE;

pub mod adding;
pub mod albums;
pub mod collect;
pub mod connecting;
pub mod connection;
pub mod dedup;
pub mod error;
pub mod listing;
pub mod mounts;
pub mod paging;
pub mod query;
pub mod resolve;
pub mod session;
pub mod song_cache;
pub mod state;
pub mod sticker_search;
pub mod wrapper;

verus! {

/// How a sticker is written: by adding to it, by replacing it, or by subtracting from it.
#[derive(Debug, Clone, Copy, PartialEq, Eq, Structural)]
pub enum StickerSetMode {
    Inc,
    Overwrite,
    Dec,
}

/// How a playlist is written.
#[derive(Debug, Clone, Copy, PartialEq, Eq, Structural)]
pub enum SaveMode {
    Create,
    Append,
    Replace,
}

/// How many items are asked for at a time.
pub const BATCH_SIZE: usize = 128;

/// How many items are fetched at most for one request (same folder, same tag, and so on).
pub const FETCH_LIMIT: usize = 10000000;

/// `chrono::Local::now` and `DateTime::timestamp`: the seconds since the Unix epoch by the clock of
/// the machine. Of what the clock shows only the range is claimed that a date and time can lie in.
#[verifier::external_body]
fn clock_seconds() -> (r: i64)
    ensures
        -CLOCK_RANGE <= r <= CLOCK_RANGE,
{
    chrono::Local::now().timestamp()
}

/// The moment `backoff` seconds before `now`, where the type can hold it.
pub fn past_timestamp(now: i64, backoff: i64) -> (r: Option<i64>)
    ensures
        r is Some <==> i64::MIN <= now - backoff <= i64::MAX,
        r is Some ==> r->0 == now - backoff,
{
    now.checked_sub(backoff)
}

/// The moment `backoff` seconds ago by the clock of the machine, where the type can hold it.
pub fn get_past_unix_timestamp(backoff: i64) -> (r: Option<i64>)
    ensures
        i64::MIN + CLOCK_RANGE < backoff <= i64::MAX - CLOCK_RANGE ==> r is Some,
        exists|now: i64|
            #![trigger (now - backoff)]
            -CLOCK_RANGE <= now <= CLOCK_RANGE && match r {
                Some(t) => t == now - backoff,
                None => now - backoff < i64::MIN || now - backoff > i64::MAX,
            },
{
    let now: i64 = clock_seconds();
    past_timestamp(now, backoff)
}

}
