use euphonica::common::date::{format_datetime_local_tz, release_date_label, Date};
use euphonica::decimals::{push_decimal_form, round_units};
use euphonica::player::status::AudioFormat;
use euphonica::text::{
    append, chars_of, contains, decimal_string, digit_string, less, numbered,
    parse_i64, prefix_before, push_decimal_2, rfind, same, string_of, tail_is, trim,
};
use euphonica::utils::{
    describe_time_ago, format_bitrate, format_secs_as_duration, g_cmp_options, g_cmp_str_options,
    g_search_substr, get_locale_format, get_time_ago_desc, hires_image_size, locale_style,
    new_image_name, prettify_audio_format, read_image_from_bytes, strip_filename_linux, DateStyle,
    ListOrder,
};

#[test]
fn strings_compare_as_std_does() {
    let words = ["", "a", "ab", "b", "\u{e9}", "z", "A"];
    for a in words {
        for b in words {
            assert_eq!(same(a, b), a == b);
            assert_eq!(less(a, b), a < b);
        }
    }
}

#[test]
fn characters_survive_a_round_trip() {
    let x = chars_of("Fr\u{e9}d");
    assert_eq!(x, vec!['F', 'r', '\u{e9}', 'd']);
    assert_eq!(string_of(&x), "Fr\u{e9}d");
}

#[test]
fn prefixes_end_before_the_first_separator() {
    assert_eq!(prefix_before("nas/rock/a.flac", '/'), "nas");
    assert_eq!(prefix_before("a.flac", '/'), "a.flac");
    assert_eq!(prefix_before("/a", '/'), "");
}

#[test]
fn last_occurrence_is_found() {
    assert_eq!(rfind(&chars_of("a/b/c"), '/'), Some(3));
    assert_eq!(rfind(&chars_of("abc"), '/'), None);
    assert!(tail_is(&chars_of("a/bc"), 2, "bc"));
    assert!(!tail_is(&chars_of("a/bc"), 1, "bc"));
}

#[test]
fn parts_are_found() {
    assert!(contains("Drum & Bass", "& B"));
    assert!(contains("abc", ""));
    assert!(!contains("abc", "abcd"));
}

#[test]
fn white_space_of_all_kinds_is_trimmed() {
    assert_eq!(trim(" \t\u{3000}Rock \u{a0}"), "Rock");
    assert_eq!(trim("   "), "");
    for code in 0..0x80u8 {
        let c = code as char;
        let text = format!("{c}x{c}");
        let blank = (9..=13).contains(&code) || code == 32;
        assert_eq!(trim(&text), if blank { "x" } else { text.as_str() });
    }
    assert_eq!(trim("a b"), "a b");
}

#[test]
fn numbers_have_their_decimal_forms() {
    assert_eq!(decimal_string(i64::MIN), i64::MIN.to_string());
    assert_eq!(decimal_string(0), "0");
    assert_eq!(digit_string(u64::MAX), u64::MAX.to_string());
    assert_eq!(numbered("Play ", 12, " songs"), "Play 12 songs");
    let mut s = String::from("x");
    append(&mut s, "yz");
    push_decimal_2(&mut s, 7);
    assert_eq!(s, "xyz07");
}

#[test]
fn numbers_are_read_back() {
    for n in [0, 1, -1, 42, i64::MAX, i64::MIN] {
        assert_eq!(parse_i64(&decimal_string(n)), Some(n));
    }
    assert_eq!(parse_i64("+7"), Some(7));
    assert_eq!(parse_i64("9223372036854775808"), None);
    assert_eq!(parse_i64("-9223372036854775809"), None);
    assert_eq!(parse_i64("99999999999999999999999999999999999999999999"), None);
    assert_eq!(parse_i64(""), None);
    assert_eq!(parse_i64("-"), None);
    assert_eq!(parse_i64("1a"), None);
}

#[test]
fn nulls_go_where_they_are_wanted() {
    assert_eq!(g_cmp_options::<u64>(None, None, true, true), ListOrder::Equal);
    assert_eq!(g_cmp_options(None, Some(&1u64), true, true), ListOrder::Smaller);
    assert_eq!(g_cmp_options(None, Some(&1u64), false, true), ListOrder::Larger);
    assert_eq!(g_cmp_options(Some(&1u64), None, true, false), ListOrder::Larger);
    assert_eq!(g_cmp_options(Some(&1u64), Some(&2u64), true, true), ListOrder::Smaller);
    assert_eq!(g_cmp_options(Some(&1u64), Some(&2u64), true, false), ListOrder::Larger);
}

#[test]
fn strings_are_ordered_with_and_without_case() {
    assert_eq!(
        g_cmp_str_options(Some("b"), Some("A"), false, true, true),
        ListOrder::Larger
    );
    assert_eq!(
        g_cmp_str_options(Some("B"), Some("a"), false, true, true),
        ListOrder::Smaller
    );
    assert_eq!(
        g_cmp_str_options(Some("B"), Some("a"), false, true, false),
        ListOrder::Larger
    );
    assert_eq!(
        g_cmp_str_options(Some("B"), Some("b"), false, false, false),
        ListOrder::Equal
    );
    assert_eq!(
        g_cmp_str_options(None, Some("b"), false, true, false),
        ListOrder::Larger
    );
}

#[test]
fn searches_ignore_case_on_demand() {
    assert!(g_search_substr(Some("Motorhead"), "HEAD", false));
    assert!(!g_search_substr(Some("Motorhead"), "HEAD", true));
    assert!(g_search_substr(Some("\u{c9}tude"), "\u{e9}t", false));
    assert!(g_search_substr(None, "", true));
    assert!(!g_search_substr(None, "a", true));
    assert!(!g_search_substr(Some("a"), "", true));
}

#[test]
fn folders_keep_their_slash() {
    assert_eq!(strip_filename_linux("nas/rock/a.flac"), "nas/rock/");
    assert_eq!(strip_filename_linux("a.flac"), "");
    assert_eq!(strip_filename_linux("nas/"), "nas/");
}

#[test]
fn durations_are_shown_in_parts() {
    assert_eq!(format_secs_as_duration(0), "00:00");
    assert_eq!(format_secs_as_duration(59), "00:59");
    assert_eq!(format_secs_as_duration(3661), "01:01:01");
    assert_eq!(format_secs_as_duration(90061), "1 days 01:01:01");
    assert_eq!(format_secs_as_duration(86400), "1 days 00:00:00");
}

#[test]
fn bitrates_are_shown_as_doubles_are() {
    assert_eq!(format_bitrate(320), "320kbps");
    assert_eq!(format_bitrate(4999), "4999kbps");
    assert_eq!(format_bitrate(5000), "5.00Mbps");
    assert_eq!(format_bitrate(5644), "5.64Mbps");
    for n in (5000u32..60000).chain([u32::MAX, u32::MAX - 10, 4_000_000_005, 123_456_785]) {
        assert_eq!(format_bitrate(n), format!("{:.2}Mbps", n as f64 / 1000.0));
    }
}

#[test]
fn audio_formats_are_shown_as_doubles_are() {
    let cd = AudioFormat { rate: 44100, bits: 16, chans: 2 };
    assert_eq!(prettify_audio_format(&cd), "16bit 44.1kHz 2ch");
    let dsd64 = AudioFormat { rate: 352800, bits: 1, chans: 2 };
    assert_eq!(prettify_audio_format(&dsd64), "64 (2.8224MHz) 2ch");
    let low = AudioFormat { rate: 22050, bits: 1, chans: 1 };
    assert_eq!(
        prettify_audio_format(&low),
        format!("1bit {:.1}kHz 1ch", 22050f64 / 1e3)
    );
    assert_eq!(
        prettify_audio_format(&AudioFormat { rate: 0, bits: 8, chans: 0 }),
        "8bit 0.0kHz 0ch"
    );
    for k in 0..4000u32 {
        let rate = 50 + 100 * k;
        let f = AudioFormat { rate, bits: 24, chans: 6 };
        assert_eq!(
            prettify_audio_format(&f),
            format!("24bit {:.1}kHz 6ch", (rate as f64) / 1e3)
        );
    }
    for k in 0..3000u32 {
        let rate = 352800 + 17 * k;
        let f = AudioFormat { rate, bits: 1, chans: 2 };
        assert_eq!(
            prettify_audio_format(&f),
            format!("{} ({:.4}MHz) 2ch", rate * 8 / 44100, (rate * 8) as f64 / 1e6)
        );
    }
}

#[test]
fn units_are_rounded_and_placed() {
    assert_eq!(round_units(5644, 1000, 10), 564);
    assert_eq!(round_units(250, 1000, 100), 2);
    assert_eq!(round_units(750, 1000, 100), 8);
    let mut s = String::from("~");
    push_decimal_form(&mut s, 7, 4);
    assert_eq!(s, "~0.0007");
}

#[test]
fn images_are_never_enlarged() {
    assert_eq!(hires_image_size(1024, 3000, 2000), 1024);
    assert_eq!(hires_image_size(1024, 500, 600), 600);
}

#[test]
fn times_ago_are_worded() {
    assert_eq!(describe_time_ago(-5), "now");
    assert_eq!(describe_time_ago(59), "just now");
    assert_eq!(describe_time_ago(60), "1m ago");
    assert_eq!(describe_time_ago(7200), "2h ago");
    assert_eq!(describe_time_ago(86400), "yesterday");
    assert_eq!(describe_time_ago(2 * 86400), "2 days ago");
    assert_eq!(describe_time_ago(30 * 86400), "last month");
    assert_eq!(describe_time_ago(75 * 86400), "2 months ago");
    assert_eq!(describe_time_ago(365 * 86400), "last year");
    assert_eq!(describe_time_ago(800 * 86400), "2 years ago");
    assert_eq!(get_time_ago_desc(9_000_000_000_000), "now");
    assert!(get_time_ago_desc(0).ends_with(" years ago"));
}

#[test]
fn dates_are_written_in_the_style_of_the_locale() {
    assert_eq!(get_locale_format("en_US.UTF-8"), DateStyle::MonthFirst);
    assert_eq!(get_locale_format("de_DE.UTF-8"), DateStyle::DayFirst);
    assert_eq!(locale_style("en_us"), DateStyle::MonthFirst);
    assert_eq!(locale_style("fr_fr"), DateStyle::DayFirst);
    assert_eq!(locale_style("ja_jp"), DateStyle::YearFirst);
    let stamp = 1_700_000_000;
    assert_eq!(
        format_datetime_local_tz(stamp, Some(0), DateStyle::MonthFirst).unwrap(),
        "11/14/2023 22:13:20"
    );
    assert_eq!(
        format_datetime_local_tz(stamp, None, DateStyle::DayFirst).unwrap(),
        "14/11/2023 22:13:20"
    );
    assert_eq!(
        format_datetime_local_tz(stamp, Some(7200), DateStyle::YearFirst).unwrap(),
        "2023-11-15 00:13:20"
    );
    assert!(format_datetime_local_tz(i64::MAX, None, DateStyle::YearFirst).is_none());
}

#[test]
fn release_dates_are_written_out() {
    assert_eq!(release_date_label(None).unwrap(), "-");
    let date = Date { year: 1999, month: 2, day: 3 };
    assert_eq!(release_date_label(Some(date)).unwrap(), "1999-02-03");
    let early = Date { year: -44, month: 3, day: 15 };
    assert_eq!(release_date_label(Some(early)).unwrap(), "-0044-03-15");
    let leap = Date { year: 2000, month: 2, day: 29 };
    assert_eq!(release_date_label(Some(leap)).unwrap(), "2000-02-29");
    let common = Date { year: 1900, month: 2, day: 29 };
    assert!(release_date_label(Some(common)).is_none());
    let no_month = Date { year: 1999, month: 13, day: 1 };
    assert!(release_date_label(Some(no_month)).is_none());
    let none = Date { year: 1999, month: 2, day: 30 };
    assert!(release_date_label(Some(none)).is_none());
}

#[test]
fn images_get_random_names() {
    let a = new_image_name();
    let b = new_image_name();
    assert!(a != b);
    assert_eq!(a.len(), 36);
    assert!(a.ends_with(".png"));
    assert!(a[..32].chars().all(|c| c.is_ascii_hexdigit() && !c.is_ascii_uppercase()));
    assert_eq!(&a[12..13], "4");
}

#[test]
fn images_are_read_from_bytes() {
    let picture = image::RgbImage::new(2, 3);
    let mut bytes = std::io::Cursor::new(Vec::new());
    picture.write_to(&mut bytes, image::ImageFormat::Png).unwrap();
    let read = read_image_from_bytes(bytes.into_inner()).unwrap();
    assert_eq!((read.width, read.height), (2, 3));
    assert_eq!((read.image.width(), read.image.height()), (2, 3));
    assert!(read_image_from_bytes(vec![1, 2, 3]).is_none());
    assert!(read_image_from_bytes(Vec::new()).is_none());
}
