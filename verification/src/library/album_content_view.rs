//! The page of one album.
use vstd::prelude::*;

use super::controller::{
    album_requests, album_song_filters, album_songs_at_query, all_copies, around, one_copy,
    put_requests, queue_album, queue_copy, queue_songs, request_views, QueueRequest,
};
use super::selection::{choose_songs, chosen_uris, ContentState};
use crate::client::adding::{add_plan, in_folder};
use crate::client::query::{FilterView, Query};
use crate::client::state::StickersSupportLevel;
use crate::common::album::{AlbumCopy, AlbumInfo, AlbumView};
use crate::common::distinct::{distinct, insert_distinct, DistinctStrings};
use crate::common::quality::QualityGrade;
use crate::common::song::SongInfo;
use crate::common::{opt_view, str_views};
use crate::text::{append, before_first, digits, prefix_before, push_digits, same};

verus! {

/// A rating, from 0 to 10, in stars as it is read out.
pub open spec fn rating_text(r: int) -> Seq<char> {
    if r < 0 {
        "Unrated"@
    } else {
        digits((r / 2) as nat) + (if r % 2 == 0 {
            ".0"@
        } else {
            ".5"@
        })
    }
}

/// A rating as it is read out: in stars, of which each counts two.
pub fn rating_readout(r: i8) -> (text: String)
    ensures
        text@ == rating_text(r as int),
{
    if r < 0 {
        "Unrated".to_string()
    } else {
        let mut s: String = String::new();
        push_digits(&mut s, (r / 2) as u64);
        if r % 2 == 0 {
            append(&mut s, ".0");
        } else {
            append(&mut s, ".5");
        }
        assert(s@ =~= rating_text(r as int));
        s
    }
}

/// The rating that the user has set with the stars: none where no star is lit.
pub fn rating_from_stars(value: i8) -> (r: Option<i8>)
    ensures
        r == (if value > 0 {
            Some(value)
        } else {
            None::<i8>
        }),
{
    if value > 0 {
        Some(value)
    } else {
        None
    }
}

/// Whether albums can be rated: the server has stickers for them.
pub fn rating_is_visible(level: StickersSupportLevel) -> (r: bool)
    ensures
        r == (level == StickersSupportLevel::All),
{
    level == StickersSupportLevel::All
}

/// A name as it is shown: a placeholder where it is empty or missing.
pub fn name_or_placeholder<'a>(name: Option<&'a str>, placeholder: &'a str) -> (r: &'a str)
    ensures
        r@ == (if name is Some && name->0@.len() > 0 {
            name->0@
        } else {
            placeholder@
        }),
{
    match name {
        Some(n) => if n.is_empty() {
            placeholder
        } else {
            n
        },
        None => placeholder,
    }
}

/// What a grade is called.
pub open spec fn grade_text(grade: QualityGrade) -> Seq<char> {
    match grade {
        QualityGrade::DSD => "DSD"@,
        QualityGrade::HiRes => "Hi-Res"@,
        QualityGrade::CD => "CD"@,
        QualityGrade::Lossy => "Lossy"@,
        QualityGrade::Unknown => "?"@,
    }
}

/// What a source is called: the name of its mount, or the first component of its folder where it has
/// none, and its grade.
pub open spec fn source_text(mount: Option<Seq<char>>, grade: QualityGrade, folder: Seq<char>) -> Seq<
    char,
> {
    let place = match mount {
        Some(name) => name,
        None => if before_first(folder, '/').len() > 0 {
            before_first(folder, '/')
        } else {
            "Root"@
        },
    };
    place + " \u{00B7} "@ + grade_text(grade)
}

/// What a source is called.
pub fn source_label(mount: Option<&str>, quality: QualityGrade, folder_uri: &str) -> (r: String)
    ensures
        r@ == source_text(
            match mount {
                Some(m) => Some(m@),
                None => None,
            },
            quality,
            folder_uri@,
        ),
{
    let place: &str = match mount {
        Some(m) => m,
        None => {
            let first: &str = prefix_before(folder_uri, '/');
            if first.is_empty() {
                "Root"
            } else {
                first
            }
        },
    };
    let grade: &str = match quality {
        QualityGrade::DSD => "DSD",
        QualityGrade::HiRes => "Hi-Res",
        QualityGrade::CD => "CD",
        QualityGrade::Lossy => "Lossy",
        QualityGrade::Unknown => "?",
    };
    let mut s: String = String::new();
    append(&mut s, place);
    append(&mut s, " \u{00B7} ");
    append(&mut s, grade);
    assert(s@ =~= place@ + " \u{00B7} "@ + grade@);
    s
}

/// The folder of the copy that is chosen: the shown one unless the user has chosen another.
pub open spec fn chosen_folder(album: AlbumInfo, chosen: Option<String>) -> Seq<char> {
    match chosen {
        Some(folder) => folder@,
        None => album.folder_uri@,
    }
}

/// The first of the alternates that lies in a folder; the number of them where there is none.
pub open spec fn alternate_at(alternates: Seq<AlbumCopy>, folder: Seq<char>) -> int
    decreases alternates.len(),
{
    if alternates.len() == 0 {
        0
    } else if alternates[0].folder_uri@ == folder {
        0
    } else {
        1 + alternate_at(alternates.drop_first(), folder)
    }
}

/// What the button says that chooses a copy: the source of the chosen one.
pub open spec fn picker_text(album: AlbumInfo, chosen: Option<String>) -> Seq<char> {
    let folder = chosen_folder(album, chosen);
    let i = alternate_at(album.alternates@, folder);
    if folder == album.folder_uri@ {
        source_text(opt_view(album.mount_name), album.quality_grade, folder)
    } else if i < album.alternates@.len() {
        source_text(
            opt_view(album.alternates@[i].mount_name),
            album.alternates@[i].quality_grade,
            folder,
        )
    } else {
        source_text(None, album.quality_grade, folder)
    }
}

/// An entry of the menu that chooses a copy: what it says, and the folder of the copy.
pub open spec fn menu_entry(
    mount: Option<Seq<char>>,
    grade: QualityGrade,
    folder: Seq<char>,
    chosen: Seq<char>,
) -> (Seq<char>, Seq<char>) {
    (
        (if folder == chosen {
            "\u{2713} "@
        } else {
            "   "@
        }) + source_text(mount, grade, folder),
        folder,
    )
}

/// The menu that chooses a copy: the shown one first, then its alternates.
pub open spec fn picker_menu(album: AlbumInfo, chosen: Option<String>) -> Seq<(Seq<char>, Seq<char>)> {
    let folder = chosen_folder(album, chosen);
    seq![
        menu_entry(
            opt_view(album.mount_name),
            album.quality_grade,
            album.folder_uri@,
            folder,
        ),
    ] + album.alternates@.map_values(
        |c: AlbumCopy|
            menu_entry(opt_view(c.mount_name), c.quality_grade, c.folder_uri@, folder),
    )
}

/// What the entries of a menu say.
pub open spec fn menu_views(s: Seq<(String, String)>) -> Seq<(Seq<char>, Seq<char>)> {
    s.map_values(|e: (String, String)| (e.0@, e.1@))
}

fn as_slice(s: &Option<String>) -> (r: Option<&str>)
    ensures
        match (*s, r) {
            (Some(t), Some(u)) => u@ == t@,
            (None, None) => true,
            _ => false,
        },
{
    match s {
        Some(t) => Some(t.as_str()),
        None => None,
    }
}

fn make_entry(mount: &Option<String>, grade: QualityGrade, folder: &str, chosen: &str) -> (r: (
    String,
    String,
))
    ensures
        (r.0@, r.1@) == menu_entry(opt_view(*mount), grade, folder@, chosen@),
{
    let mut s: String = String::new();
    let mark: &str = if same(folder, chosen) {
        "\u{2713} "
    } else {
        "   "
    };
    append(&mut s, mark);
    let label: String = source_label(as_slice(mount), grade, folder);
    append(&mut s, label.as_str());
    assert(s@ =~= mark@ + label@);
    (s, folder.to_owned())
}

/// The page of one album.
#[derive(Debug)]
pub struct AlbumContentView {
    pub album: Option<AlbumInfo>,
    /// The folder of the copy that the user has chosen, where it is not the shown one.
    pub active_copy_folder: Option<String>,
    pub songs: Vec<SongInfo>,
    pub content: ContentState,
}

impl AlbumContentView {
    pub fn new() -> (r: Self)
        ensures
            r.album is None && r.active_copy_folder is None && r.songs@.len() == 0,
            r.content == ContentState::Placeholder,
    {
        AlbumContentView {
            album: None,
            active_copy_folder: None,
            songs: Vec::new(),
            content: ContentState::Placeholder,
        }
    }

    /// Shows another album, whose songs are yet to be fetched.
    pub fn bind(&mut self, album: AlbumInfo)
        ensures
            final(self).album == Some(album),
            final(self).active_copy_folder is None,
            final(self).songs@.len() == 0,
            final(self).content == ContentState::Spinner,
    {
        self.album = Some(album);
        self.active_copy_folder = None;
        self.songs.clear();
        self.content = ContentState::Spinner;
    }

    /// Shows no album any more.
    pub fn unbind(&mut self)
        ensures
            final(self).album is None,
            final(self).active_copy_folder == old(self).active_copy_folder,
            final(self).songs@.len() == 0,
            final(self).content == ContentState::Placeholder,
    {
        self.album = None;
        self.songs.clear();
        self.content = ContentState::Placeholder;
    }

    /// Takes over songs that were fetched.
    pub fn add_songs(&mut self, songs: Vec<SongInfo>)
        ensures
            *final(self) == (AlbumContentView { songs: final(self).songs, ..*old(self) }),
            final(self).songs@ == old(self).songs@ + songs@,
    {
        let mut songs = songs;
        self.songs.append(&mut songs);
    }

    /// Takes note that no more songs come, because all are there or the server could not send them.
    pub fn finish_songs(&mut self, success: bool)
        ensures
            *final(self) == (AlbumContentView {
                content: if success && old(self).songs@.len() > 0 {
                    ContentState::Content
                } else {
                    ContentState::Placeholder
                },
                ..*old(self)
            }),
    {
        self.content = if success && self.songs.len() > 0 {
            ContentState::Content
        } else {
            ContentState::Placeholder
        };
    }

    /// Chooses a copy of the album, whose songs are yet to be fetched. Nothing changes where no album
    /// is shown.
    pub fn switch_to_copy(&mut self, folder_uri: String) -> (r: bool)
        ensures
            r == (old(self).album is Some),
            !r ==> *final(self) == *old(self),
            r ==> {
                &&& final(self).album == old(self).album
                &&& opt_view(final(self).active_copy_folder) == (if folder_uri@
                    == (old(self).album->0).folder_uri@ {
                    None
                } else {
                    Some(folder_uri@)
                })
                &&& final(self).songs@.len() == 0
                &&& final(self).content == ContentState::Spinner
            },
    {
        let is_shown: bool = match &self.album {
            None => {
                return false;
            },
            Some(album) => same(album.folder_uri.as_str(), folder_uri.as_str()),
        };
        self.active_copy_folder = if is_shown {
            None
        } else {
            Some(folder_uri)
        };
        self.songs.clear();
        self.content = ContentState::Spinner;
        true
    }

    /// A query for the songs of the copy that is chosen, the shown one where the user has chosen no other.
    /// None where no album is shown.
    pub fn copy_songs_query(&self) -> (r: Option<Query>)
        ensures
            r is Some <==> self.album is Some,
            r is Some ==> r->0@ == album_song_filters(self.album->0).push(
                in_folder(chosen_folder(self.album->0, self.active_copy_folder)),
            ),
    {
        match &self.album {
            Some(album) => {
                let folder: &str = match &self.active_copy_folder {
                    Some(folder) => folder.as_str(),
                    None => album.folder_uri.as_str(),
                };
                Some(album_songs_at_query(album, folder))
            },
            None => None,
        }
    }

    /// The requests that put the songs at the selected places into the queue, or the album where the buttons
    /// act on all: the chosen copy of it where the user has chosen one, else all of its songs. `replace`
    /// empties the queue before, and plays it then. None where no album is shown.
    pub fn queue(&self, selecting_all: bool, places: &Vec<u32>, replace: bool) -> (r: Option<
        Vec<QueueRequest>,
    >)
        requires
            forall|i: int| 0 <= i < places@.len() ==> (#[trigger] places@[i]) < self.songs@.len(),
        ensures
            r is Some <==> self.album is Some,
            r is Some && selecting_all ==> request_views(r->0@) == album_requests(
                shown_filters((self.album->0)@, opt_view(self.active_copy_folder)),
                replace,
                replace,
                None,
            ),
            r is Some && !selecting_all ==> request_views(r->0@) == around(
                replace,
                put_requests(add_plan(chosen_uris(self.songs@, false, places@), false, None)),
                replace,
                0,
            ),
    {
        match &self.album {
            Some(album) => if selecting_all {
                Some(queue_shown(album, &self.active_copy_folder, replace, None))
            } else {
                Some(queue_songs(choose_songs(&self.songs, false, places), replace, replace))
            },
            None => None,
        }
    }

    /// The requests that replace the queue by the album and play its song at a place. None where no album is
    /// shown.
    pub fn activate(&self, position: u32) -> (r: Option<Vec<QueueRequest>>)
        ensures
            r is Some <==> self.album is Some,
            r is Some ==> request_views(r->0@) == album_requests(
                shown_filters((self.album->0)@, opt_view(self.active_copy_folder)),
                true,
                true,
                Some(position),
            ),
    {
        match &self.album {
            Some(album) => Some(
                queue_shown(album, &self.active_copy_folder, true, Some(position)),
            ),
            None => None,
        }
    }

    /// Whether an image that was stored or removed is the cover of the album.
    pub fn shows_cover_of(&self, folder_uri: &str) -> (r: bool)
        ensures
            r == (self.album is Some && (self.album->0).folder_uri@ == folder_uri@),
    {
        match &self.album {
            Some(album) => same(album.folder_uri.as_str(), folder_uri),
            None => false,
        }
    }
}

/// The album as requests to the server are to mean it: where the user has chosen another copy, in the
/// folder of that copy and without alternates.
pub open spec fn chosen_album(album: AlbumView, chosen: Option<Seq<char>>) -> AlbumView {
    match chosen {
        Some(folder) => AlbumView { folder_uri: folder, alternates: Seq::empty(), ..album },
        None => album,
    }
}

/// The album as requests to the server are to mean it.
pub fn album_for_action(album: &AlbumInfo, chosen: &Option<String>) -> (r: AlbumInfo)
    ensures
        r@ == chosen_album(album@, opt_view(*chosen)),
{
    let mut info: AlbumInfo = album.clone();
    if let Some(folder) = chosen {
        info.folder_uri = folder.clone();
        info.alternates = Vec::new();
        assert(info@.alternates =~= Seq::empty());
    }
    info
}

/// The songs that are queued of an album: those of the chosen copy where the user has chosen one, else all.
pub open spec fn shown_filters(album: AlbumView, chosen: Option<Seq<char>>) -> Seq<FilterView> {
    if chosen is Some {
        one_copy(chosen_album(album, chosen))
    } else {
        all_copies(chosen_album(album, chosen))
    }
}

/// The requests that queue an album, or the chosen copy of it. `replace` empties the queue before, and plays
/// it then.
fn queue_shown(album: &AlbumInfo, chosen: &Option<String>, replace: bool, from: Option<u32>) -> (r: Vec<
    QueueRequest,
>)
    ensures
        request_views(r@) == album_requests(
            shown_filters(album@, opt_view(*chosen)),
            replace,
            replace,
            from,
        ),
{
    let target: AlbumInfo = album_for_action(album, chosen);
    if chosen.is_some() {
        queue_copy(&target, replace, replace, from)
    } else {
        queue_album(&target, replace, replace, from)
    }
}

/// Whether there is a choice of copies.
pub fn has_alternates(album: &AlbumInfo) -> (r: bool)
    ensures
        r == (album.alternates@.len() > 0),
{
    album.alternates.len() > 0
}

/// What the button says that chooses a copy, and the entries of its menu.
pub fn refresh_source_picker(album: &AlbumInfo, chosen: &Option<String>) -> (r: (
    String,
    Vec<(String, String)>,
))
    ensures
        r.0@ == picker_text(*album, *chosen),
        menu_views(r.1@) == picker_menu(*album, *chosen),
{
    let folder: &str = match chosen {
        Some(f) => f.as_str(),
        None => album.folder_uri.as_str(),
    };
    let ghost all = album.alternates@;
    let label: String = if same(folder, album.folder_uri.as_str()) {
        source_label(as_slice(&album.mount_name), album.quality_grade, folder)
    } else {
        let mut i: usize = 0;
        assert(all.skip(0) =~= all);
        while i < album.alternates.len() && !same(album.alternates[i].folder_uri.as_str(), folder)
            invariant
                all == album.alternates@,
                i <= album.alternates@.len(),
                alternate_at(all, folder@) == i + alternate_at(all.skip(i as int), folder@),
            ensures
                i <= album.alternates@.len(),
                i == alternate_at(all, folder@),
            decreases album.alternates.len() - i,
        {
            assert(all.skip(i as int).drop_first() =~= all.skip(i + 1));
            i = i + 1;
        }
        if i < album.alternates.len() {
            source_label(
                as_slice(&album.alternates[i].mount_name),
                album.alternates[i].quality_grade,
                folder,
            )
        } else {
            source_label(None, album.quality_grade, folder)
        }
    };
    let mut menu: Vec<(String, String)> = Vec::new();
    let first: (String, String) = make_entry(
        &album.mount_name,
        album.quality_grade,
        album.folder_uri.as_str(),
        folder,
    );
    let ghost entry = |c: AlbumCopy|
        menu_entry(opt_view(c.mount_name), c.quality_grade, c.folder_uri@, folder@);
    let ghost head = seq![(first.0@, first.1@)];
    menu.push(first);
    assert(menu_views(menu@) =~= head + all.take(0).map_values(entry));
    let mut i: usize = 0;
    while i < album.alternates.len()
        invariant
            all == album.alternates@,
            entry == (|c: AlbumCopy|
                menu_entry(opt_view(c.mount_name), c.quality_grade, c.folder_uri@, folder@)),
            i <= album.alternates@.len(),
            menu_views(menu@) == head + all.take(i as int).map_values(entry),
        decreases album.alternates.len() - i,
    {
        let c: &AlbumCopy = &album.alternates[i];
        let e: (String, String) = make_entry(
            &c.mount_name,
            c.quality_grade,
            c.folder_uri.as_str(),
            folder,
        );
        let ghost before = menu@;
        menu.push(e);
        proof {
            assert(menu_views(menu@) =~= menu_views(before).push(entry(*c)));
            assert(all.take(i + 1) =~= all.take(i as int).push(*c));
            assert(head + all.take(i + 1).map_values(entry) =~= (head + all.take(
                i as int,
            ).map_values(entry)).push(entry(*c)));
        }
        i = i + 1;
    }
    assert(all.take(i as int) =~= all);
    (label, menu)
}

/// The genres of songs, one song after the other.
pub open spec fn genres_of(songs: Seq<SongInfo>) -> Seq<Seq<char>>
    decreases songs.len(),
{
    if songs.len() == 0 {
        Seq::empty()
    } else {
        genres_of(songs.drop_last()) + str_views(songs.last().genres@)
    }
}

/// The genres of songs, each once, in the order in which they first occur.
pub fn album_genres(songs: &Vec<SongInfo>) -> (r: Vec<String>)
    ensures
        str_views(r@) == distinct(genres_of(songs@)),
{
    let mut seen: DistinctStrings = DistinctStrings::new();
    let mut i: usize = 0;
    assert(songs@.take(0) =~= Seq::empty());
    while i < songs.len()
        invariant
            i <= songs@.len(),
            seen@ == distinct(genres_of(songs@.take(i as int))),
        decreases songs.len() - i,
    {
        let ghost before = genres_of(songs@.take(i as int));
        let ghost here = str_views(songs@[i as int].genres@);
        proof {
            assert(songs@.take(i + 1).drop_last() =~= songs@.take(i as int));
            assert(before + here.take(0) =~= before);
        }
        let mut k: usize = 0;
        while k < songs[i as usize].genres.len()
            invariant
                i < songs@.len(),
                here == str_views(songs@[i as int].genres@),
                k <= songs@[i as int].genres@.len(),
                seen@ == distinct(before + here.take(k as int)),
            decreases songs@[i as int].genres@.len() - k,
        {
            let genre: String = songs[i].genres[k].clone();
            proof {
                assert(here[k as int] == genre@);
                assert(before + here.take(k + 1) =~= (before + here.take(k as int)).push(genre@));
                assert((before + here.take(k as int)).push(genre@).drop_last() =~= before
                    + here.take(k as int));
            }
            let (more, _): (DistinctStrings, bool) = insert_distinct(seen, genre);
            seen = more;
            k = k + 1;
        }
        assert(here.take(k as int) =~= here);
        i = i + 1;
    }
    assert(songs@.take(i as int) =~= songs@);
    seen.into_strings()
}

/// What is known about an album or an artist from outside the library.
#[derive(Debug)]
pub struct Article {
    pub content: String,
    pub url: Option<String>,
    pub attribution: String,
}

/// What the box beside an album or an artist shows.
#[derive(Debug)]
pub enum InfoBox {
    /// Nothing.
    Hidden,
    /// That an article is being fetched.
    Spinner,
    /// An article.
    Shown(Article),
}

/// What the box shows when an article about something of a name is wanted. Nothing is fetched for what
/// has no name.
pub fn start_article(name: &str) -> (r: InfoBox)
    ensures
        r == (if name@.len() == 0 {
            InfoBox::Hidden
        } else {
            InfoBox::Spinner
        }),
{
    if name.is_empty() {
        InfoBox::Hidden
    } else {
        InfoBox::Spinner
    }
}

/// What the box shows when the search for an article is over.
pub fn finish_article(found: Option<Article>) -> (r: InfoBox)
    ensures
        r == (match found {
            Some(article) => InfoBox::Shown(article),
            None => InfoBox::Hidden,
        }),
{
    match found {
        Some(article) => InfoBox::Shown(article),
        None => InfoBox::Hidden,
    }
}

/// Choosing the shown copy is the same as choosing none.
pub proof fn law_shown_copy_is_the_default(album: AlbumInfo, folder: String)
    requires
        folder@ == album.folder_uri@,
    ensures
        picker_text(album, Some(folder)) == picker_text(album, None),
        picker_menu(album, Some(folder)) == picker_menu(album, None),
{
}

/// Where no two copies share a folder, the menu marks the chosen copy and no other.
pub proof fn law_menu_marks_the_chosen_copy(album: AlbumInfo, chosen: Option<String>, i: int, j: int)
    requires
        0 <= i < picker_menu(album, chosen).len(),
        0 <= j < picker_menu(album, chosen).len(),
        picker_menu(album, chosen)[i].1 == chosen_folder(album, chosen),
        picker_menu(album, chosen)[j].1 != chosen_folder(album, chosen),
    ensures
        picker_menu(album, chosen)[i].0[0] == '\u{2713}',
        picker_menu(album, chosen)[j].0[0] == ' ',
{
    reveal_strlit("\u{2713} ");
    reveal_strlit("   ");
    let menu = picker_menu(album, chosen);
    let folder = chosen_folder(album, chosen);
    if i > 0 {
        let c = album.alternates@[i - 1];
        assert(menu[i] == menu_entry(
            opt_view(c.mount_name),
            c.quality_grade,
            c.folder_uri@,
            folder,
        ));
    }
    if j > 0 {
        let c = album.alternates@[j - 1];
        assert(menu[j] == menu_entry(
            opt_view(c.mount_name),
            c.quality_grade,
            c.folder_uri@,
            folder,
        ));
    }
}

/// A rating is shown in stars, of which a point is half of one; none is shown in words.
pub proof fn law_ratings_are_shown(r: i8, text: String, stars: Option<i8>)
    requires
        call_ensures(rating_readout, (r,), text),
        call_ensures(rating_from_stars, (r,), stars),
    ensures
        r < 0 ==> text@ == "Unrated"@,
        r >= 0 && r % 2 == 0 ==> text@ == digits((r / 2) as nat) + ".0"@,
        r >= 0 && r % 2 == 1 ==> text@ == digits((r / 2) as nat) + ".5"@,
        stars is Some <==> r > 0,
        stars is Some ==> stars->0 == r,
{
}

/// Ratings are shown where the server keeps stickers of albums, which takes full support.
pub proof fn law_ratings_need_support(level: StickersSupportLevel, r: bool)
    requires
        call_ensures(rating_is_visible, (level,), r),
    ensures
        r <==> level == StickersSupportLevel::All,
{
}

/// A name that is missing or empty is replaced.
pub proof fn law_missing_names(name: &str, placeholder: &str, r: &str, missing: &str)
    requires
        call_ensures(name_or_placeholder, (Some(name), placeholder), r),
        call_ensures(name_or_placeholder, (None::<&str>, placeholder), missing),
    ensures
        missing@ == placeholder@,
        name@.len() == 0 ==> r@ == placeholder@,
        name@.len() > 0 ==> r@ == name@,
{
}

/// A source is called by its mount, or by the first folder of its path where it lies in none, and by its
/// quality.
pub proof fn law_sources_are_named(
    mount: &str,
    quality: QualityGrade,
    folder: &str,
    r: String,
    plain: String,
    first: Seq<char>,
)
    requires
        call_ensures(source_label, (Some(mount), quality, folder), r),
        call_ensures(source_label, (None::<&str>, quality, folder), plain),
        first == before_first(folder@, '/'),
    ensures
        ({
            let grade = if quality == QualityGrade::DSD {
                "DSD"@
            } else if quality == QualityGrade::HiRes {
                "Hi-Res"@
            } else if quality == QualityGrade::CD {
                "CD"@
            } else if quality == QualityGrade::Lossy {
                "Lossy"@
            } else {
                "?"@
            };
            &&& r@ == mount@ + " \u{00B7} "@ + grade
            &&& first.len() > 0 ==> plain@ == first + " \u{00B7} "@ + grade
            &&& first.len() == 0 ==> plain@ == "Root"@ + " \u{00B7} "@ + grade
        }),
{
}

/// An album that is shown starts with no songs and with its best copy. Songs are added at the end, and are
/// shown once they are there; where there are none, or they could not be fetched, none are shown.
pub proof fn law_albums_are_shown(
    a: &mut AlbumContentView,
    album: AlbumInfo,
    b: &mut AlbumContentView,
    songs: Vec<SongInfo>,
    c: &mut AlbumContentView,
    success: bool,
    d: &mut AlbumContentView,
)
    requires
        call_ensures(AlbumContentView::bind, (a, album), ()),
        call_ensures(AlbumContentView::add_songs, (b, songs), ()),
        call_ensures(AlbumContentView::finish_songs, (c, success), ()),
        call_ensures(AlbumContentView::unbind, (d,), ()),
    ensures
        final(a).album == Some(album) && final(a).active_copy_folder is None,
        final(a).songs@.len() == 0 && final(a).content == ContentState::Spinner,
        final(b).songs@.len() == old(b).songs@.len() + songs@.len(),
        forall|i: int| 0 <= i < songs@.len() ==> final(b).songs@[old(b).songs@.len() + i] == #[trigger] songs@[i],
        old(b).songs@.is_prefix_of(final(b).songs@),
        final(b).album == old(b).album && final(b).content == old(b).content,
        final(c).content == ContentState::Content <==> success && old(c).songs@.len() > 0,
        final(c).content == ContentState::Placeholder <==> !success || old(c).songs@.len() == 0,
        final(c).songs == old(c).songs && final(c).album == old(c).album,
        final(d).album is None && final(d).songs@.len() == 0,
        final(d).content == ContentState::Placeholder,
{
}

/// Another copy of an album is shown without the songs of the last; the best copy is shown as no choice at
/// all. Without an album nothing happens.
pub proof fn law_copies_are_switched(v: &mut AlbumContentView, folder: String, r: bool)
    requires
        call_ensures(AlbumContentView::switch_to_copy, (v, folder), r),
    ensures
        r <==> old(v).album is Some,
        !r ==> *final(v) == *old(v),
        r ==> final(v).album == old(v).album && final(v).songs@.len() == 0 && final(v).content
            == ContentState::Spinner,
        r && folder@ == old(v).album->0.folder_uri@ ==> final(v).active_copy_folder is None,
        r && folder@ != old(v).album->0.folder_uri@ ==> final(v).active_copy_folder is Some
            && final(v).active_copy_folder->0@ == folder@,
{
}

/// What is done with an album is done with the copy that was chosen, and with the album where none was.
pub proof fn law_actions_go_to_the_chosen_copy(
    album: AlbumInfo,
    folder: String,
    chosen: AlbumInfo,
    plain: AlbumInfo,
    has_more: bool,
    v: AlbumContentView,
    uri: &str,
    shown: bool,
)
    requires
        call_ensures(album_for_action, (&album, &Some(folder)), chosen),
        call_ensures(album_for_action, (&album, &None::<String>), plain),
        call_ensures(has_alternates, (&album,), has_more),
        call_ensures(AlbumContentView::shows_cover_of, (&v, uri), shown),
    ensures
        plain@ == album@,
        chosen@.folder_uri == folder@,
        chosen@.alternates.len() == 0,
        chosen@.title == album@.title && chosen@.albumartist == album@.albumartist && chosen@.mbid
            == album@.mbid,
        has_more <==> album.alternates@.len() > 0,
        shown <==> v.album is Some && v.album->0.folder_uri@ == uri@,
{
}

/// An article is asked for where there is a name, and is shown where one was found.
pub proof fn law_articles_are_shown(name: &str, r: InfoBox, article: Article, found: InfoBox, missing: InfoBox)
    requires
        call_ensures(start_article, (name,), r),
        call_ensures(finish_article, (Some(article),), found),
        call_ensures(finish_article, (None::<Article>,), missing),
    ensures
        name@.len() == 0 ==> r == InfoBox::Hidden,
        name@.len() > 0 ==> r == InfoBox::Spinner,
        found == InfoBox::Shown(article),
        missing == InfoBox::Hidden,
{
}

/// The menu lists the best copy of an album first and then the others, each with its folder; the chosen one
/// bears a tick.
pub proof fn law_the_menu_lists_all_copies(
    album: AlbumInfo,
    chosen: Option<String>,
    r: (String, Vec<(String, String)>),
)
    requires
        call_ensures(refresh_source_picker, (&album, &chosen), r),
    ensures
        r.1@.len() == album.alternates@.len() + 1,
        r.1@[0].1@ == album.folder_uri@,
        forall|i: int|
            0 <= i < album.alternates@.len() ==> r.1@[i + 1].1@ == (
            #[trigger] album.alternates@[i]).folder_uri@,
        forall|i: int|
            0 <= i < r.1@.len() ==> ({
                let here = if chosen is Some {
                    chosen->0@
                } else {
                    album.folder_uri@
                };
                "\u{2713} "@.is_prefix_of((#[trigger] r.1@[i]).0@) <==> r.1@[i].1@ == here
            }),
{
    let menu = picker_menu(album, chosen);
    let views = menu_views(r.1@);
    reveal_strlit("\u{2713} ");
    reveal_strlit("   ");
    assert(views.len() == r.1@.len());
    assert(views[0] == (r.1@[0].0@, r.1@[0].1@));
    assert forall|i: int| 0 <= i < album.alternates@.len() implies r.1@[i + 1].1@ == (
    #[trigger] album.alternates@[i]).folder_uri@ by {
        assert(views[i + 1] == (r.1@[i + 1].0@, r.1@[i + 1].1@));
    }
    let here = chosen_folder(album, chosen);
    assert forall|i: int| 0 <= i < r.1@.len() implies ("\u{2713} "@.is_prefix_of(
        (#[trigger] r.1@[i]).0@,
    ) <==> r.1@[i].1@ == here) by {
        let text = r.1@[i].0@;
        assert(views[i] == (r.1@[i].0@, r.1@[i].1@));
        if r.1@[i].1@ == here {
            assert("\u{2713} "@ =~= text.subrange(0, 2));
        } else {
            assert(text[0] == ' ');
            if "\u{2713} "@.is_prefix_of(text) {
                assert("\u{2713} "@[0] == text[0]);
            }
        }
    }
}

/// A song that is activated plays the album from there on, in place of the queue: all of its copies, or the
/// one that was chosen.
pub proof fn law_activated_songs_play(v: AlbumContentView, position: u32, r: Option<Vec<QueueRequest>>)
    requires
        call_ensures(AlbumContentView::activate, (&v, position), r),
    ensures
        r is Some <==> v.album is Some,
        r is Some ==> r->0@.len() == 3 && r->0@[0]@ == super::controller::QueueRequestView::Clear
            && r->0@[1]@ is FindAddSorted && r->0@[1]@->FindAddSorted_1 == "track"@ && r->0@[2]@
            == super::controller::QueueRequestView::PlayAt(position),
        r is Some ==> (super::controller::asks_for_folder(r->0@[1]@->FindAddSorted_0)
            <==> v.active_copy_folder is Some),
        r is Some && v.active_copy_folder is Some ==> r->0@[1]@->FindAddSorted_0.contains(
            in_folder(v.active_copy_folder->0@),
        ),
{
    if r is Some {
        let filters = shown_filters((v.album->0)@, opt_view(v.active_copy_folder));
        let album = chosen_album((v.album->0)@, opt_view(v.active_copy_folder));
        super::controller::lemma_framed(
            r->0@,
            true,
            super::controller::QueueRequestView::FindAddSorted(
                filters,
                crate::client::wrapper::TRACK@,
            ),
            true,
            position,
        );
        super::controller::lemma_album_filters(album);
        if v.active_copy_folder is Some {
            let k = filters.len() - 1;
            assert(filters[k] == in_folder(album.folder_uri));
        }
    }
}

/// The songs of the copy that is shown are asked for, which is the best one where none was chosen.
pub proof fn law_the_shown_copy_is_asked_for(v: AlbumContentView, r: Option<Query>)
    requires
        call_ensures(AlbumContentView::copy_songs_query, (&v,), r),
    ensures
        r is Some <==> v.album is Some,
        r is Some && v.active_copy_folder is None ==> r->0@.last() == in_folder(
            v.album->0.folder_uri@,
        ),
        r is Some && v.active_copy_folder is Some ==> r->0@.last() == in_folder(
            v.active_copy_folder->0@,
        ),
{
}

/// The genres of an album are those of its songs, each of them once.
pub proof fn law_genres_of_albums(songs: Vec<SongInfo>, r: Vec<String>, i: int, k: int)
    requires
        call_ensures(album_genres, (&songs,), r),
        0 <= i < songs@.len(),
        0 <= k < songs@[i].genres@.len(),
    ensures
        str_views(r@).contains(songs@[i].genres@[k]@),
        str_views(r@).no_duplicates(),
{
    crate::common::distinct::law_distinct(genres_of(songs@));
    lemma_genres_of(songs@, i, k);
}

proof fn lemma_genres_of(songs: Seq<SongInfo>, i: int, k: int)
    requires
        0 <= i < songs.len(),
        0 <= k < songs[i].genres@.len(),
    ensures
        genres_of(songs).contains(songs[i].genres@[k]@),
    decreases songs.len(),
{
    let before = genres_of(songs.drop_last());
    let last = str_views(songs.last().genres@);
    if i == songs.len() - 1 {
        assert((before + last)[before.len() + k] == last[k]);
        assert(last[k] == songs[i].genres@[k]@);
    } else {
        lemma_genres_of(songs.drop_last(), i, k);
        let j = choose|j: int| 0 <= j < before.len() && before[j] == songs[i].genres@[k]@;
        assert((before + last)[j] == before[j]);
    }
}

}
