//! Small helpers shared by the rest of the library: ordering and searching for list views, paths and
//! the forms in which numbers are shown.
use std::cmp::Ordering;
use aho_corasick::AhoCorasick;
use image::DynamicImage;
use vstd::prelude::*;
use vstd::string::*;

use crate::decimals::{decimal_form, push_decimal_form, round_units, rounded};
use crate::order::TotalOrder;
use crate::phrases::{new_searcher, phrases_of, searcher_fits, slice_views, PhrasesTooLarge};
use crate::player::status::AudioFormat;
use crate::text::{
    chars_of, contains, contains_part, decimal, decimal_2, digits, last_index_of_char,
    lemma_last_index_of_char, lemma_lex_irreflexive, lemma_lex_total, less, lex_lt, lowercase,
    push_decimal, push_decimal_2, push_digits, rfind, same, to_lower,
};

verus! {

/// How a list view orders two items.
#[derive(Debug, Clone, Copy, PartialEq, Eq, Structural)]
pub enum ListOrder {
    Smaller,
    Equal,
    Larger,
}

/// The same relation, seen from the other side.
pub open spec fn swapped(o: ListOrder) -> ListOrder {
    match o {
        ListOrder::Smaller => ListOrder::Larger,
        ListOrder::Equal => ListOrder::Equal,
        ListOrder::Larger => ListOrder::Smaller,
    }
}

/// How two values compare by a strict order.
pub open spec fn order_by(before: bool, after: bool) -> ListOrder {
    if before {
        ListOrder::Smaller
    } else if after {
        ListOrder::Larger
    } else {
        ListOrder::Equal
    }
}

/// How two optional values compare where at least one is absent.
pub open spec fn null_order(first_is_none: bool, second_is_none: bool, nulls_first: bool) -> ListOrder {
    if first_is_none && second_is_none {
        ListOrder::Equal
    } else if first_is_none == nulls_first {
        ListOrder::Smaller
    } else {
        ListOrder::Larger
    }
}

/// The relation that std's `Ordering` stands for.
fn to_list_order(o: Ordering) -> (r: ListOrder)
    ensures
        r == order_by(o == Ordering::Less, o == Ordering::Greater),
{
    match o {
        Ordering::Less => ListOrder::Smaller,
        Ordering::Equal => ListOrder::Equal,
        Ordering::Greater => ListOrder::Larger,
    }
}

/// Compares two optional values; `nulls_first` says where absent ones go, and `asc` in which direction
/// the others are ordered.
pub fn g_cmp_options<T: TotalOrder>(
    s1: Option<&T>,
    s2: Option<&T>,
    nulls_first: bool,
    asc: bool,
) -> (r: ListOrder)
    ensures
        r == (match (s1, s2) {
            (Some(a), Some(b)) => if asc {
                order_by(a.before(b), b.before(a))
            } else {
                order_by(b.before(a), a.before(b))
            },
            _ => null_order(s1 is None, s2 is None, nulls_first),
        }),
{
    match (s1, s2) {
        (None, None) => ListOrder::Equal,
        (None, Some(_)) => if nulls_first {
            ListOrder::Smaller
        } else {
            ListOrder::Larger
        },
        (Some(_), None) => if nulls_first {
            ListOrder::Larger
        } else {
            ListOrder::Smaller
        },
        (Some(a), Some(b)) => if asc {
            to_list_order(a.compare(b))
        } else {
            to_list_order(b.compare(a))
        },
    }
}

/// A string as list views order and search it: as it is, or in lower case where case does not matter.
pub open spec fn folded(s: Seq<char>, case_sensitive: bool) -> Seq<char> {
    if case_sensitive {
        s
    } else {
        lowercase(s)
    }
}

/// The order of two strings that list views use.
pub open spec fn str_order(a: Seq<char>, b: Seq<char>) -> ListOrder {
    order_by(lex_lt(a, b), lex_lt(b, a))
}

/// How two strings compare.
fn order_strings(a: &str, b: &str) -> (r: ListOrder)
    ensures
        r == str_order(a@, b@),
{
    proof {
        lemma_lex_total(a@, b@);
        lemma_lex_irreflexive(a@);
    }
    if same(a, b) {
        ListOrder::Equal
    } else if less(a, b) {
        ListOrder::Smaller
    } else {
        ListOrder::Larger
    }
}

/// Compares two optional strings, with or without regard to case.
pub fn g_cmp_str_options(
    s1: Option<&str>,
    s2: Option<&str>,
    nulls_first: bool,
    asc: bool,
    case_sensitive: bool,
) -> (r: ListOrder)
    ensures
        r == (match (s1, s2) {
            (Some(a), Some(b)) => if asc {
                str_order(folded(a@, case_sensitive), folded(b@, case_sensitive))
            } else {
                str_order(folded(b@, case_sensitive), folded(a@, case_sensitive))
            },
            _ => null_order(s1 is None, s2 is None, nulls_first),
        }),
{
    match (s1, s2) {
        (None, None) => ListOrder::Equal,
        (None, Some(_)) => if nulls_first {
            ListOrder::Smaller
        } else {
            ListOrder::Larger
        },
        (Some(_), None) => if nulls_first {
            ListOrder::Larger
        } else {
            ListOrder::Smaller
        },
        (Some(a), Some(b)) => {
            if case_sensitive {
                if asc {
                    order_strings(a, b)
                } else {
                    order_strings(b, a)
                }
            } else {
                let x: String = to_lower(a);
                let y: String = to_lower(b);
                if asc {
                    order_strings(x.as_str(), y.as_str())
                } else {
                    order_strings(y.as_str(), x.as_str())
                }
            }
        },
    }
}

/// Swapping the two strings swaps the answer, whatever the settings.
pub proof fn law_string_order_is_antisymmetric(a: Seq<char>, b: Seq<char>)
    ensures
        str_order(b, a) == swapped(str_order(a, b)),
        str_order(a, b) == ListOrder::Equal <==> a == b,
{
    lemma_lex_total(a, b);
    lemma_lex_irreflexive(a);
}

/// Whether a search for `term` finds `text`: an absent text is found by the empty term alone, and a
/// text by a term that is not empty and stands in it.
pub open spec fn search_matches(text: Option<Seq<char>>, term: Seq<char>, case_sensitive: bool) -> bool {
    match text {
        None => term.len() == 0,
        Some(t) => term.len() > 0 && contains_part(
            folded(t, case_sensitive),
            folded(term, case_sensitive),
        ),
    }
}

/// Whether a search for `term` finds `text`.
pub fn g_search_substr(text: Option<&str>, term: &str, case_sensitive: bool) -> (r: bool)
    ensures
        r == search_matches(
            match text {
                Some(t) => Some(t@),
                None => None,
            },
            term@,
            case_sensitive,
        ),
{
    match text {
        None => term.is_empty(),
        Some(t) => {
            if term.is_empty() {
                false
            } else if case_sensitive {
                contains(t, term)
            } else {
                let x: String = to_lower(t);
                let y: String = to_lower(term);
                contains(x.as_str(), y.as_str())
            }
        },
    }
}

/// The folder of a path, with its trailing slash; empty for a path without a slash.
pub open spec fn folder_of(path: Seq<char>) -> Seq<char> {
    path.take(last_index_of_char(path, '/') + 1)
}

/// The folder of a path, with its trailing slash as the server wants it; empty for a file at the root.
pub fn strip_filename_linux(path: &str) -> (r: &str)
    ensures
        r@ == folder_of(path@),
{
    let x: Vec<char> = chars_of(path);
    proof {
        lemma_last_index_of_char(path@, '/');
    }
    match rfind(&x, '/') {
        Some(i) => {
            assert(path@.subrange(0, i + 1) =~= folder_of(path@));
            path.substring_char(0, i + 1)
        },
        None => {
            assert(path@.subrange(0, 0) =~= folder_of(path@));
            path.substring_char(0, 0)
        },
    }
}

/// The folder of a path is a prefix of it; it is empty or ends in a slash, and no slash comes behind
/// it. The folder of a folder is that folder.
pub proof fn law_folder_of(path: Seq<char>)
    ensures
        folder_of(path).is_prefix_of(path),
        folder_of(path).len() > 0 ==> folder_of(path).last() == '/',
        forall|i: int| folder_of(path).len() <= i < path.len() ==> path[i] != '/',
        folder_of(folder_of(path)) == folder_of(path),
{
    lemma_last_index_of_char(path, '/');
    let f = folder_of(path);
    lemma_last_index_of_char(f, '/');
    if f.len() > 0 {
        assert(last_index_of_char(f, '/') == f.len() - 1);
    }
    assert(folder_of(f) =~= f);
}

/// Division that rounds towards zero.
pub open spec fn quotient(a: int, b: int) -> int {
    if a >= 0 {
        a / b
    } else {
        -((-a) / b)
    }
}

/// What is left of `a` by the division that rounds towards zero.
pub open spec fn remainder(a: int, b: int) -> int {
    a - quotient(a, b) * b
}

/// The form in which a number of seconds is shown: hours only where there are any, and days in front
/// where there are any.
pub open spec fn duration_text(total: int) -> Seq<char> {
    let days = quotient(total, 86400);
    let hours = quotient(remainder(total, 86400), 3600);
    let minutes = quotient(remainder(total, 3600), 60);
    let seconds = remainder(total, 60);
    let short = decimal_2(minutes) + seq![':'] + decimal_2(seconds);
    let long = decimal_2(hours) + seq![':'] + short;
    if days > 0 {
        decimal(days) + " days "@ + long
    } else if hours > 0 {
        long
    } else {
        short
    }
}

/// Formats a number of seconds as a duration.
pub fn format_secs_as_duration(total_seconds: i64) -> (r: String)
    ensures
        r@ == duration_text(total_seconds as int),
{
    let mut s: String = String::new();
    if total_seconds < 0 {
        let size: u64 = if total_seconds == i64::MIN {
            0x8000_0000_0000_0000
        } else {
            (-total_seconds) as u64
        };
        let minutes: i64 = -(((size % 3600) / 60) as i64);
        let seconds: i64 = -((size % 60) as i64);
        push_decimal_2(&mut s, minutes);
        s.push(':');
        push_decimal_2(&mut s, seconds);
        assert(s@ =~= duration_text(total_seconds as int));
        return s;
    }
    let days: i64 = total_seconds / 86400;
    let hours: i64 = (total_seconds % 86400) / 3600;
    let minutes: i64 = (total_seconds % 3600) / 60;
    let seconds: i64 = total_seconds % 60;
    if days > 0 {
        push_decimal(&mut s, days);
        s.append(" days ");
    }
    if days > 0 || hours > 0 {
        push_decimal_2(&mut s, hours);
        s.push(':');
    }
    push_decimal_2(&mut s, minutes);
    s.push(':');
    push_decimal_2(&mut s, seconds);
    assert(s@ =~= duration_text(total_seconds as int));
    s
}

/// How a bitrate is shown: in kilobits per second, or from five megabits on in megabits with two places.
pub open spec fn bitrate_text(kbps: int) -> Seq<char> {
    if kbps < 5000 {
        decimal(kbps) + "kbps"@
    } else {
        decimal_form(rounded(kbps, 1_000, 10) as nat, 2) + "Mbps"@
    }
}

/// How a bitrate is shown that is given in kilobits per second.
pub fn format_bitrate(bitrate_kbps: u32) -> (r: String)
    ensures
        r@ == bitrate_text(bitrate_kbps as int),
{
    let mut s: String = String::new();
    if bitrate_kbps < 5000 {
        push_digits(&mut s, bitrate_kbps as u64);
        s.append("kbps");
    } else {
        push_decimal_form(&mut s, round_units(bitrate_kbps, 1_000, 10), 2);
        s.append("Mbps");
    }
    assert(s@ =~= bitrate_text(bitrate_kbps as int));
    s
}

/// Whether samples are taken to be DSD: of one bit, at the rate of DSD64 at least.
pub open spec fn is_dsd(format: AudioFormat) -> bool {
    format.bits == 1 && format.rate >= 352_800
}

/// How an audio format is shown: DSD with its multiple of the rate of a CD and its rate in megahertz, PCM
/// with the bits of a sample and its rate in kilohertz; and the number of channels.
pub open spec fn audio_format_text(format: AudioFormat) -> Seq<char> {
    let rate = format.rate as int;
    let channels = " "@ + digits(format.chans as nat) + "ch"@;
    if is_dsd(format) {
        digits(((rate * 8) / 44_100) as nat) + " ("@ + decimal_form(
            rounded(rate * 8, 1_000_000, 100) as nat,
            4,
        ) + "MHz)"@ + channels
    } else {
        digits(format.bits as nat) + "bit "@ + decimal_form(rounded(rate, 1_000, 100) as nat, 1)
            + "kHz"@ + channels
    }
}

/// How an audio format is shown.
pub fn prettify_audio_format(format: &AudioFormat) -> (r: String)
    requires
        is_dsd(*format) ==> format.rate * 8 <= u32::MAX,
    ensures
        r@ == audio_format_text(*format),
{
    let mut s: String = String::new();
    if format.bits == 1 && format.rate >= 352_800 {
        let rate: u32 = format.rate * 8;
        push_digits(&mut s, (rate / 44_100) as u64);
        s.append(" (");
        push_decimal_form(&mut s, round_units(rate, 1_000_000, 100), 4);
        s.append("MHz)");
    } else {
        push_digits(&mut s, format.bits as u64);
        s.append("bit ");
        push_decimal_form(&mut s, round_units(format.rate, 1_000, 100), 1);
        s.append("kHz");
    }
    let ghost front = s@;
    s.append(" ");
    push_digits(&mut s, format.chans as u64);
    s.append("ch");
    assert(s@ =~= front + (" "@ + digits(format.chans as nat) + "ch"@));
    s
}

/// An image of the `image` crate.
#[verifier::external_type_specification]
#[verifier::external_body]
pub struct ExDynamicImage(DynamicImage);

/// The width and the height of the image that the `image` crate reads from bytes, whose format it infers
/// from them; nothing where it reads none. This supposes that no program has registered decoders of its own
/// with the crate.
pub uninterp spec fn image_size(bytes: Seq<u8>) -> Option<(int, int)>;

/// `image::load_from_memory`, with `DynamicImage::width` and `DynamicImage::height`: the image that bytes
/// hold, where they hold one, and its size. No decoders are registered with the crate beside its own. What
/// the image shows is left unsaid, since decoders may round as suits the machine.
#[verifier::external_body]
fn load_image(bytes: &[u8]) -> (r: Option<(DynamicImage, u32, u32)>)
    ensures
        match r {
            Some((_, width, height)) => image_size(bytes@) == Some((width as int, height as int)),
            None => image_size(bytes@) is None,
        },
{
    let image = image::load_from_memory(bytes).ok()?;
    let (width, height) = (image.width(), image.height());
    Some((image, width, height))
}

/// An image with its size in pixels.
pub struct Picture {
    pub image: DynamicImage,
    pub width: u32,
    pub height: u32,
}

/// The image that bytes hold, where they hold one.
pub fn read_image_from_bytes(bytes: Vec<u8>) -> (r: Option<Picture>)
    ensures
        match r {
            Some(p) => image_size(bytes@) == Some((p.width as int, p.height as int)),
            None => image_size(bytes@) is None,
        },
{
    match load_image(bytes.as_slice()) {
        Some((image, width, height)) => Some(Picture { image, width, height }),
        None => None,
    }
}

/// The length of the longer edge that an image is kept with: what the settings say, but never more than
/// it has.
pub fn hires_image_size(limit: u32, width: u32, height: u32) -> (r: u32)
    ensures
        r == vstd::math::min(limit as int, vstd::math::max(width as int, height as int)),
{
    let longer: u32 = if width > height {
        width
    } else {
        height
    };
    if limit < longer {
        limit
    } else {
        longer
    }
}

/// Whether a character is a hexadecimal digit, in lower case.
pub open spec fn is_hex_digit(c: char) -> bool {
    '0' <= c <= '9' || 'a' <= c <= 'f'
}

/// Whether a name has the form of a random UUID without hyphens: 32 hexadecimal digits, with the number
/// of the version and the bits of the variant in their places.
pub open spec fn is_random_name(name: Seq<char>) -> bool {
    &&& name.len() == 32
    &&& forall|i: int| 0 <= i < name.len() ==> is_hex_digit(#[trigger] name[i])
    &&& name[12] == '4'
    &&& name[16] == '8' || name[16] == '9' || name[16] == 'a' || name[16] == 'b'
}

/// `uuid::Uuid::new_v4` and `Uuid::simple`: a random UUID, written without hyphens. Which one is left to
/// chance.
#[verifier::external_body]
pub(crate) fn random_name() -> (r: String)
    ensures
        is_random_name(r@),
{
    uuid::Uuid::new_v4().simple().to_string()
}

/// A new name for an image that is kept.
pub fn new_image_name() -> (r: String)
    ensures
        exists|name: Seq<char>| #[trigger] is_random_name(name) && r@ == name + ".png"@,
{
    let mut s: String = random_name();
    let ghost name = s@;
    s.append(".png");
    assert(is_random_name(name));
    s
}

/// How long ago something happened `diff` seconds back, in words. A month counts 30 days and a year
/// 365.
pub open spec fn time_ago_text(diff: int) -> Seq<char> {
    let days = diff / 86400;
    if diff <= 0 {
        "now"@
    } else if days >= 365 {
        let years = capped(days / 365);
        if years == 1 {
            "last year"@
        } else {
            decimal(years) + " years ago"@
        }
    } else if days >= 30 {
        let months = days / 30;
        if months == 1 {
            "last month"@
        } else {
            decimal(months) + " months ago"@
        }
    } else if days >= 2 {
        decimal(nearest_days(diff)) + " days ago"@
    } else if days >= 1 {
        "yesterday"@
    } else if diff >= 3600 {
        decimal(diff / 3600) + "h ago"@
    } else if diff >= 60 {
        decimal(diff / 60) + "m ago"@
    } else {
        "just now"@
    }
}

/// A count that is cut off at what 32 bits hold.
pub open spec fn capped(n: int) -> int {
    if n > u32::MAX {
        u32::MAX as int
    } else {
        n
    }
}

/// Seconds as days, rounded to the nearest day, and to the even one of two equally near.
pub open spec fn nearest_days(seconds: int) -> int {
    let days = seconds / 86400;
    let rest = seconds % 86400;
    if rest > 43200 || rest == 43200 && days % 2 == 1 {
        days + 1
    } else {
        days
    }
}

/// A number followed by a phrase.
fn counted(n: u64, phrase: &str) -> (r: String)
    ensures
        r@ == decimal(n as int) + phrase@,
{
    let mut s: String = String::new();
    push_digits(&mut s, n);
    s.append(phrase);
    assert(s@ =~= decimal(n as int) + phrase@);
    s
}

/// How far, in seconds, the moments that a clock can show lie from the Unix epoch at most: years are
/// below a million.
pub const CLOCK_RANGE: i64 = 32_000_000_000_000;

/// `time::OffsetDateTime::now_utc` and `OffsetDateTime::unix_timestamp`: the seconds since the Unix epoch
/// by the clock of the machine. Of what the clock shows only the range is claimed that a date and time
/// can lie in.
#[verifier::external_body]
fn utc_seconds() -> (r: i64)
    ensures
        -CLOCK_RANGE <= r <= CLOCK_RANGE,
{
    time::OffsetDateTime::now_utc().unix_timestamp()
}

/// Describes how long ago a moment was, given in seconds since the Unix epoch, by the clock of the
/// machine. A moment in the future counts as now.
pub fn get_time_ago_desc(past_ts: i64) -> (r: String)
    requires
        i64::MIN + CLOCK_RANGE < past_ts <= i64::MAX - CLOCK_RANGE,
    ensures
        exists|now: int|
            -CLOCK_RANGE <= now <= CLOCK_RANGE && r@ == #[trigger] time_ago_text(now - past_ts),
{
    let now: i64 = utc_seconds();
    describe_time_ago(now - past_ts)
}

/// Describes how long ago a moment was that lies `diff` seconds back. A moment in the future counts as
/// now.
pub fn describe_time_ago(diff: i64) -> (r: String)
    ensures
        r@ == time_ago_text(diff as int),
{
    if diff <= 0 {
        return "now".to_owned();
    }
    let diff: u64 = diff as u64;
    let days: u64 = diff / 86400;
    if days >= 365 {
        let years: u64 = if days / 365 > u32::MAX as u64 {
            u32::MAX as u64
        } else {
            days / 365
        };
        if years == 1 {
            "last year".to_owned()
        } else {
            counted(years, " years ago")
        }
    } else if days >= 30 {
        let months: u64 = days / 30;
        if months == 1 {
            "last month".to_owned()
        } else {
            counted(months, " months ago")
        }
    } else if days >= 2 {
        let rest: u64 = diff % 86400;
        if rest > 43200 || rest == 43200 && days % 2 == 1 {
            counted(days + 1, " days ago")
        } else {
            counted(days, " days ago")
        }
    } else if days >= 1 {
        "yesterday".to_owned()
    } else if diff >= 3600 {
        counted(diff / 3600, "h ago")
    } else if diff >= 60 {
        counted(diff / 60, "m ago")
    } else {
        "just now".to_owned()
    }
}

/// In which order the parts of a date are shown.
#[derive(Debug, Clone, Copy, PartialEq, Eq, Structural)]
pub enum DateStyle {
    MonthFirst,
    DayFirst,
    YearFirst,
}

/// The style of dates that goes with the lower-case name of a locale.
pub open spec fn date_style(locale: Seq<char>) -> DateStyle {
    if contains_part(locale, "us"@) || contains_part(locale, "ca"@) {
        DateStyle::MonthFirst
    } else if contains_part(locale, "gb"@) || contains_part(locale, "de"@) || contains_part(
        locale,
        "fr"@,
    ) || contains_part(locale, "au"@) {
        DateStyle::DayFirst
    } else {
        DateStyle::YearFirst
    }
}

/// The style of dates that goes with the name of a locale, by a simple heuristic.
pub fn get_locale_format(locale: &str) -> (r: DateStyle)
    ensures
        r == date_style(lowercase(locale@)),
{
    let name: String = to_lower(locale);
    locale_style(name.as_str())
}

/// The style of dates that goes with the lower-case name of a locale.
pub fn locale_style(name: &str) -> (r: DateStyle)
    ensures
        r == date_style(name@),
{
    if contains(name, "us") || contains(name, "ca") {
        DateStyle::MonthFirst
    } else if contains(name, "gb") || contains(name, "de") || contains(name, "fr") || contains(
        name,
        "au",
    ) {
        DateStyle::DayFirst
    } else {
        DateStyle::YearFirst
    }
}

impl DateStyle {
    /// The description of the format that the style stands for, in the notation of the `time` crate.
    pub open spec fn spec_text(self) -> Seq<char> {
        match self {
            DateStyle::MonthFirst =>
                "[month padding:none]/[day padding:none]/[year] [hour]:[minute]:[second]"@,
            DateStyle::DayFirst =>
                "[day padding:none]/[month padding:none]/[year] [hour]:[minute]:[second]"@,
            DateStyle::YearFirst => "[year]-[month]-[day] [hour]:[minute]:[second]"@,
        }
    }

    /// The description of the format that the style stands for, in the notation of the `time` crate.
    pub fn description(self) -> (r: &'static str)
        ensures
            r@ == self.spec_text(),
    {
        match self {
            DateStyle::MonthFirst =>
                "[month padding:none]/[day padding:none]/[year] [hour]:[minute]:[second]",
            DateStyle::DayFirst =>
                "[day padding:none]/[month padding:none]/[year] [hour]:[minute]:[second]",
            DateStyle::YearFirst => "[year]-[month]-[day] [hour]:[minute]:[second]",
        }
    }
}

/// A searcher for phrases; none where there are no phrases.
pub fn build_aho_corasick_automaton(phrases: &[&str]) -> (r: Result<
    Option<AhoCorasick>,
    PhrasesTooLarge,
>)
    ensures
        match r {
            Ok(None) => phrases@.len() == 0,
            Ok(Some(searcher)) => phrases@.len() > 0 && phrases_of(searcher) == slice_views(
                phrases@,
            ),
            Err(_) => phrases@.len() > 0,
        },
        r is Err <==> phrases@.len() > 0 && !searcher_fits(slice_views(phrases@)),
{
    if phrases.len() == 0 {
        Ok(None)
    } else {
        match new_searcher(phrases) {
            Ok(searcher) => Ok(Some(searcher)),
            Err(_) => Err(PhrasesTooLarge),
        }
    }
}

/// Of two values the smaller one comes first, and the other way round where sorting descends. What is missing
/// comes first or last as it is asked for, whichever way the rest is sorted.
pub proof fn law_order_of_options<T: TotalOrder>(
    a: T,
    b: T,
    nulls_first: bool,
    asc: bool,
    up: ListOrder,
    down: ListOrder,
    missing: ListOrder,
    present: ListOrder,
    neither: ListOrder,
)
    requires
        call_ensures(g_cmp_options::<T>, (Some(&a), Some(&b), nulls_first, true), up),
        call_ensures(g_cmp_options::<T>, (Some(&a), Some(&b), nulls_first, false), down),
        call_ensures(g_cmp_options::<T>, (None::<&T>, Some(&b), nulls_first, asc), missing),
        call_ensures(g_cmp_options::<T>, (Some(&a), None::<&T>, nulls_first, asc), present),
        call_ensures(g_cmp_options::<T>, (None::<&T>, None::<&T>, nulls_first, asc), neither),
    ensures
        up == ListOrder::Smaller <==> a.before(&b),
        down == ListOrder::Smaller <==> b.before(&a),
        up == ListOrder::Equal <==> !a.before(&b) && !b.before(&a),
        down == ListOrder::Equal <==> !a.before(&b) && !b.before(&a),
        nulls_first ==> missing == ListOrder::Smaller && present == ListOrder::Larger,
        !nulls_first ==> missing == ListOrder::Larger && present == ListOrder::Smaller,
        neither == ListOrder::Equal,
{
}

/// Strings come in the order of the dictionary, by their lower case forms unless case matters, and the other
/// way round where sorting descends. What is missing comes first or last as it is asked for.
pub proof fn law_order_of_strings(
    a: &str,
    b: &str,
    nulls_first: bool,
    asc: bool,
    case_sensitive: bool,
    exact: ListOrder,
    loose: ListOrder,
    down: ListOrder,
    missing: ListOrder,
    present: ListOrder,
)
    requires
        call_ensures(g_cmp_str_options, (Some(a), Some(b), nulls_first, true, true), exact),
        call_ensures(g_cmp_str_options, (Some(a), Some(b), nulls_first, true, false), loose),
        call_ensures(g_cmp_str_options, (Some(a), Some(b), nulls_first, false, true), down),
        call_ensures(
            g_cmp_str_options,
            (None::<&str>, Some(b), nulls_first, asc, case_sensitive),
            missing,
        ),
        call_ensures(
            g_cmp_str_options,
            (Some(a), None::<&str>, nulls_first, asc, case_sensitive),
            present,
        ),
    ensures
        exact == ListOrder::Smaller <==> lex_lt(a@, b@),
        exact == ListOrder::Larger <==> lex_lt(b@, a@),
        loose == ListOrder::Smaller <==> lex_lt(lowercase(a@), lowercase(b@)),
        loose == ListOrder::Larger <==> lex_lt(lowercase(b@), lowercase(a@)),
        down == ListOrder::Smaller <==> lex_lt(b@, a@),
        down == ListOrder::Larger <==> lex_lt(a@, b@),
        nulls_first ==> missing == ListOrder::Smaller && present == ListOrder::Larger,
        !nulls_first ==> missing == ListOrder::Larger && present == ListOrder::Smaller,
{
    law_string_order_is_antisymmetric(a@, b@);
    law_string_order_is_antisymmetric(lowercase(a@), lowercase(b@));
}

/// A term is found in a text that holds it, in the same case where case matters. An empty term is found in no
/// text, and where there is no text nothing else is found.
pub proof fn law_finding_terms(
    text: &str,
    term: &str,
    exact: bool,
    loose: bool,
    case_sensitive: bool,
    missing: bool,
)
    requires
        call_ensures(g_search_substr, (Some(text), term, true), exact),
        call_ensures(g_search_substr, (Some(text), term, false), loose),
        call_ensures(g_search_substr, (None::<&str>, term, case_sensitive), missing),
    ensures
        term@.len() == 0 ==> !exact && !loose && missing,
        term@.len() > 0 ==> !missing,
        term@.len() > 0 ==> (exact <==> contains_part(text@, term@)),
        term@.len() > 0 ==> (loose <==> contains_part(lowercase(text@), lowercase(term@))),
{
}

/// The folder of a file is what stands before its name, up to the last slash.
pub proof fn law_folders_of_files(path: &str, r: &str)
    requires
        call_ensures(strip_filename_linux, (path,), r),
    ensures
        r@.is_prefix_of(path@),
        forall|i: int| r@.len() <= i < path@.len() ==> path@[i] != '/',
        r@.len() > 0 ==> r@.last() == '/',
{
    law_folder_of(path@);
}

/// Two decimal digits.
pub open spec fn two_places(n: int) -> Seq<char> {
    seq![
        crate::text::digit_char((n / 10) as nat),
        crate::text::digit_char((n % 10) as nat),
    ]
}

pub(crate) proof fn lemma_two_places(n: int)
    requires
        0 <= n < 100,
    ensures
        decimal_2(n) == two_places(n),
{
    reveal_with_fuel(digits, 3);
    assert(decimal_2(n) =~= two_places(n));
}

/// A duration shows days, hours, minutes and seconds, without those in front that are none, but for the
/// minutes.
pub proof fn law_durations(days: int, hours: int, minutes: int, seconds: int, total: i64, r: String)
    requires
        0 <= days,
        0 <= hours < 24,
        0 <= minutes < 60,
        0 <= seconds < 60,
        total == 86400 * days + 3600 * hours + 60 * minutes + seconds,
        call_ensures(format_secs_as_duration, (total,), r),
    ensures
        ({
            let short = two_places(minutes) + seq![':'] + two_places(seconds);
            &&& days == 0 && hours == 0 ==> r@ == short
            &&& days == 0 && hours > 0 ==> r@ == two_places(hours) + seq![':'] + short
            &&& days > 0 ==> r@ == digits(days as nat) + " days "@ + (two_places(hours) + seq![':']
                + short)
        }),
{
    lemma_two_places(hours);
    lemma_two_places(minutes);
    lemma_two_places(seconds);
    let t = total as int;
    assert(t / 86400 == days);
    assert(t - days * 86400 == 3600 * hours + 60 * minutes + seconds);
    assert((3600 * hours + 60 * minutes + seconds) / 3600 == hours);
    assert(t / 3600 == 24 * days + hours);
    assert((60 * minutes + seconds) / 60 == minutes);
    assert(t / 60 == 1440 * days + 60 * hours + minutes);
}

/// A bit rate is shown in kilobits up to 5000 of them, and then in megabits, to the nearest hundredth.
pub proof fn law_bitrates(kbps: u32, r: String, hundredths: u32)
    requires
        call_ensures(format_bitrate, (kbps,), r),
        call_ensures(round_units, (kbps, 1_000u32, 10u32), hundredths),
    ensures
        kbps < 5000 ==> r@ == digits(kbps as nat) + "kbps"@,
        kbps >= 5000 ==> r@ == digits((hundredths / 100) as nat) + seq!['.'] + two_places(
            (hundredths % 100) as int,
        ) + "Mbps"@,
        -5 <= 10 * hundredths - kbps <= 5,
{
    crate::decimals::lemma_hundredths(hundredths as nat);
}

/// An audio format is shown by its bits and its rate in kilohertz, to the nearest tenth, and one of a single
/// bit at a high rate by the multiple of 44.1 kilohertz.
pub proof fn law_audio_formats(format: AudioFormat, r: String, tenths: u32)
    requires
        format.bits == 1 && format.rate >= 352_800 ==> format.rate * 8 <= u32::MAX,
        call_ensures(prettify_audio_format, (&format,), r),
        call_ensures(round_units, (format.rate, 1_000u32, 100u32), tenths),
    ensures
        format.bits != 1 || format.rate < 352_800 ==> r@ == digits(format.bits as nat) + "bit "@ + (
        digits((tenths / 10) as nat) + seq!['.'] + seq![
            crate::text::digit_char((tenths % 10) as nat),
        ]) + "kHz"@ + (" "@ + digits(format.chans as nat) + "ch"@),
        -50 <= 100 * tenths - format.rate <= 50,
        format.bits == 1 && format.rate >= 352_800 ==> (digits(
            ((format.rate * 8) / 44_100) as nat,
        ) + " ("@).is_prefix_of(r@),
{
    crate::decimals::lemma_tenths(tenths as nat);
    if format.bits == 1 && format.rate >= 352_800 {
        let front = digits(((format.rate * 8) / 44_100) as nat) + " ("@;
        assert(r@.take(front.len() as int) =~= front);
    }
}

/// A cover is scaled down to the limit where one of its sides is longer, and is never scaled up.
pub proof fn law_cover_sizes(limit: u32, width: u32, height: u32, r: u32)
    requires
        call_ensures(hires_image_size, (limit, width, height), r),
    ensures
        width > limit || height > limit ==> r == limit,
        width <= limit && height <= limit ==> r >= width && r >= height && (r == width || r
            == height),
{
}

/// How long ago something was is told by the largest unit that fits.
pub proof fn law_times_ago(diff: i64, r: String)
    requires
        call_ensures(describe_time_ago, (diff,), r),
    ensures
        diff <= 0 ==> r@ == "now"@,
        0 < diff < 60 ==> r@ == "just now"@,
        60 <= diff < 3600 ==> r@ == digits((diff / 60) as nat) + "m ago"@,
        3600 <= diff < 86400 ==> r@ == digits((diff / 3600) as nat) + "h ago"@,
        86400 <= diff < 2 * 86400 ==> r@ == "yesterday"@,
        2 * 86400 <= diff < 30 * 86400 ==> exists|days: int|
            #![trigger digits(days as nat)]
            r@ == digits(days as nat) + " days ago"@ && -43200 <= 86400 * days - diff <= 43200,
        30 * 86400 <= diff < 60 * 86400 ==> r@ == "last month"@,
        60 * 86400 <= diff < 365 * 86400 ==> r@ == digits((diff / 2_592_000) as nat)
            + " months ago"@,
        365 * 86400 <= diff < 730 * 86400 ==> r@ == "last year"@,
        730 * 86400 <= diff <= 4_000_000_000 * 86400 ==> r@ == digits((diff / 31_536_000) as nat)
            + " years ago"@,
{
    let d = diff as int;
    assert((d / 86400) / 30 == d / 2_592_000);
    assert((d / 86400) / 365 == d / 31_536_000);
    if 2 * 86400 <= d < 30 * 86400 {
        assert(r@ == digits(nearest_days(d) as nat) + " days ago"@);
    }
}

/// Dates start with the month in America and Canada, with the day in Britain, Germany, France and Australia,
/// and with the year anywhere else.
pub proof fn law_date_styles(name: &str, style: DateStyle, text: &'static str)
    requires
        call_ensures(locale_style, (name,), style),
        call_ensures(DateStyle::description, (style,), text),
    ensures
        contains_part(name@, "us"@) || contains_part(name@, "ca"@) ==> text@
            == "[month padding:none]/[day padding:none]/[year] [hour]:[minute]:[second]"@,
        !contains_part(name@, "us"@) && !contains_part(name@, "ca"@) && (contains_part(
            name@,
            "gb"@,
        ) || contains_part(name@, "de"@) || contains_part(name@, "fr"@) || contains_part(
            name@,
            "au"@,
        )) ==> text@ == "[day padding:none]/[month padding:none]/[year] [hour]:[minute]:[second]"@,
        !contains_part(name@, "us"@) && !contains_part(name@, "ca"@) && !contains_part(
            name@,
            "gb"@,
        ) && !contains_part(name@, "de"@) && !contains_part(name@, "fr"@) && !contains_part(
            name@,
            "au"@,
        ) ==> text@ == "[year]-[month]-[day] [hour]:[minute]:[second]"@,
{
}

}
