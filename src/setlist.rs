use crate::database::{opt_view, song_views, Database, DbModel, Song, SongView, StoreError};
use crate::page::{page, page_text};
use crate::view::{decimal, escaped, push_decimal, push_escaped, View};
use vstd::prelude::*;
use vstd::view::View as _;

verus! {

/// The form with which an organizer adds a song; an empty description means
/// that the song has none.
#[derive(Clone, Debug)]
pub struct CreateSongInput {
    pub title: String,
    pub artist: String,
    pub description: String,
}

impl CreateSongInput {
    /// The description, where one was given.
    pub fn description(&self) -> (r: Option<&str>)
        ensures
            match r {
                Some(d) => self.description@.len() > 0 && d@ == self.description@,
                None => self.description@.len() == 0,
            },
    {
        let d = self.description.as_str();
        if d.unicode_len() == 0 {
            None
        } else {
            Some(d)
        }
    }
}

const CARD_OPEN: &'static str = "<div id=\"song-";

const CARD_CLASS: &'static str = "\" class=\"flex flex-col gap-1 p-4 rounded-lg border shadow dark:border-neutral-700 dark:bg-neutral-950 transition-colors ";

const MUTED: &'static str = "text-neutral-500";

const CARD_TITLE: &'static str = "\"><div class=\"flex flex-wrap gap-2 justify-between items-center\"><h2 class=\"text-2xl font-semibold whitespace-nowrap\">";

const CARD_TOGGLE_UNHIDE: &'static str = "</h2><div class=\"flex gap-4\"><button title=\"Unhide song\" hx-put=\"/setlist/";

const CARD_TOGGLE_HIDE: &'static str = "</h2><div class=\"flex gap-4\"><button title=\"Hide song\" hx-put=\"/setlist/";

const PATH_UNHIDE: &'static str = "/unhide\" hx-target=\"#song-";

const PATH_HIDE: &'static str = "/hide\" hx-target=\"#song-";

const TOGGLE_END_UNHIDE: &'static str = "\" hx-swap=\"outerHTML\">&#128065;</button><button hx-delete=\"/setlist/";

const TOGGLE_END_HIDE: &'static str = "\" hx-swap=\"outerHTML\">&#128584;</button><button hx-delete=\"/setlist/";

const DELETE_TARGET: &'static str = "\" hx-target=\"#song-";

const DELETE_END: &'static str = "\" hx-swap=\"outerHTML\" class=\"text-red-500\">&#128465;</button></div></div><h4 class=\"text-sm\">";

const ARTIST_END: &'static str = "</h4>";

const DESC_OPEN: &'static str = "<p class=\"pt-2\">";

const DESC_CLOSE: &'static str = "</p>";

const CARD_CLOSE: &'static str = "</div>";

const LIST_OPEN: &'static str = "<div class=\"flex flex-col gap-3 w-full max-w-lg\"><button hx-post=\"/setlist/votes/clear\" hx-swap=\"none\" class=\"flex gap-3 justify-center p-4 max-w-lg rounded-lg border shadow transition-colors dark:border-neutral-700 dark:bg-neutral-950\"><p>Clear votes</p><p class=\"text-red-500\">&#128465;</p></button>";

const LIST_CLOSE: &'static str = "<details id=\"add-song\"><form id=\"add-song-form\" hx-post=\"/setlist\" hx-target=\"#add-song\" hx-swap=\"beforebegin\" class=\"flex flex-col gap-3 p-4 mt-3 max-w-lg rounded-lg border shadow text-neutral-500 dark:border-neutral-700 dark:bg-neutral-950\"><label class=\"dark:text-white\" for=\"title\">Title:</label><input class=\"p-1 rounded bg-neutral-300\" type=\"text\" id=\"title\" name=\"title\"><label class=\"dark:text-white\" for=\"artist\">Artist:</label><input class=\"p-1 rounded bg-neutral-300\" type=\"text\" id=\"artist\" name=\"artist\"><label class=\"dark:text-white\" for=\"description\">Description:</label><textarea class=\"p-1 rounded bg-neutral-300\" id=\"description\" name=\"description\"></textarea><input class=\"p-1 text-white bg-blue-500 rounded transition-colors hover:bg-blue-400\" type=\"submit\" value=\"Submit\"></form><summary class=\"flex flex-col items-center p-4 max-w-lg rounded-lg border shadow transition-colors cursor-pointer hover:text-white text-neutral-500 dark:border-neutral-700 dark:bg-neutral-950\">+</summary></details></div>";

pub closed spec fn description_text(d: Option<Seq<char>>) -> Seq<char> {
    match d {
        Some(t) => DESC_OPEN@ + escaped(t) + DESC_CLOSE@,
        None => Seq::empty(),
    }
}

/// The card of a song on the organizer's page: title, a button that hides or
/// shows it to voters, a button that deletes it, artist and description;
/// a hidden song is greyed.
pub closed spec fn card_text(s: SongView) -> Seq<char> {
    CARD_OPEN@ + decimal(s.id) + CARD_CLASS@ + (if s.hidden {
        MUTED@
    } else {
        Seq::empty()
    }) + CARD_TITLE@ + escaped(s.title) + (if s.hidden {
        CARD_TOGGLE_UNHIDE@
    } else {
        CARD_TOGGLE_HIDE@
    }) + decimal(s.id) + (if s.hidden {
        PATH_UNHIDE@
    } else {
        PATH_HIDE@
    }) + decimal(s.id) + (if s.hidden {
        TOGGLE_END_UNHIDE@
    } else {
        TOGGLE_END_HIDE@
    }) + decimal(s.id) + DELETE_TARGET@ + decimal(s.id) + DELETE_END@ + escaped(s.artist)
        + ARTIST_END@ + description_text(s.description) + CARD_CLOSE@
}

pub closed spec fn cards_text(songs: Seq<SongView>) -> Seq<char>
    decreases songs.len(),
{
    if songs.len() == 0 {
        Seq::empty()
    } else {
        cards_text(songs.drop_last()) + card_text(songs.last())
    }
}

/// The organizer's page: every song, hidden ones included, with the buttons to
/// clear all votes and to add a song.
pub closed spec fn setlist_page_text(m: DbModel) -> Seq<char> {
    page_text(LIST_OPEN@ + cards_text(m.songs) + LIST_CLOSE@, Seq::empty(), "Setlist"@)
}

fn push_description(out: &mut String, d: &Option<String>)
    ensures
        final(out)@ == old(out)@ + description_text(opt_view(*d)),
{
    match d {
        Some(t) => {
            out.append(DESC_OPEN);
            push_escaped(out, t.as_str());
            out.append(DESC_CLOSE);
            proof {
                assert(final(out)@ =~= old(out)@ + description_text(opt_view(*d)));
            }
        },
        None => {
            proof {
                assert(final(out)@ =~= old(out)@ + description_text(opt_view(*d)));
            }
        },
    }
}

fn push_card(out: &mut String, song: &Song)
    ensures
        final(out)@ == old(out)@ + card_text(song@),
{
    let ghost start = out@;
    let id = song.id as i64;
    out.append(CARD_OPEN);
    push_decimal(out, id);
    out.append(CARD_CLASS);
    if song.hidden {
        out.append(MUTED);
    }
    let ghost mid = out@;
    proof {
        assert(mid =~= start + CARD_OPEN@ + decimal(song@.id) + CARD_CLASS@ + (if song.hidden {
            MUTED@
        } else {
            Seq::<char>::empty()
        }));
    }
    out.append(CARD_TITLE);
    push_escaped(out, song.title.as_str());
    out.append(if song.hidden { CARD_TOGGLE_UNHIDE } else { CARD_TOGGLE_HIDE });
    push_decimal(out, id);
    out.append(if song.hidden { PATH_UNHIDE } else { PATH_HIDE });
    push_decimal(out, id);
    out.append(if song.hidden { TOGGLE_END_UNHIDE } else { TOGGLE_END_HIDE });
    push_decimal(out, id);
    out.append(DELETE_TARGET);
    push_decimal(out, id);
    out.append(DELETE_END);
    push_escaped(out, song.artist.as_str());
    out.append(ARTIST_END);
    push_description(out, &song.description);
    out.append(CARD_CLOSE);
    proof {
        assert(final(out)@ =~= start + card_text(song@));
    }
}

/// The card of `song` on the organizer's page.
pub fn song_card(song: Song) -> (r: View)
    ensures
        r@ == card_text(song@),
{
    let mut out = String::new();
    push_card(&mut out, &song);
    proof {
        assert(out@ =~= card_text(song@));
    }
    View::new(out)
}

/// Adds the song of the form and returns its card.
pub fn add_song(db: &mut Database, input: &CreateSongInput) -> (r: Result<View, StoreError>)
    requires
        old(db).wf(),
    ensures
        final(db).wf(),
        r is Ok <==> old(db)@.next_song_id < i32::MAX,
        match r {
            Ok(v) => {
                &&& final(db)@.songs.len() == old(db)@.songs.len() + 1
                &&& final(db)@.songs.drop_last() == old(db)@.songs
                &&& final(db)@.votes == old(db)@.votes
                &&& final(db)@.songs.last().title == input.title@
                &&& final(db)@.songs.last().artist == input.artist@
                &&& final(db)@.songs.last().description == (if input.description@.len() == 0 {
                    None
                } else {
                    Some(input.description@)
                })
                &&& !final(db)@.songs.last().hidden
                &&& v@ == card_text(final(db)@.songs.last())
            },
            Err(e) => e == StoreError::Persistence && final(db)@ == old(db)@,
        },
{
    let description = input.description();
    match db.add_song(input.artist.as_str(), input.title.as_str(), description) {
        Ok(song) => {
            proof {
                assert(final(db)@.songs.drop_last() =~= old(db)@.songs);
            }
            Ok(song_card(song))
        },
        Err(e) => Err(e),
    }
}

/// Hides song `id` from voters, or shows it again, and returns its card.
pub fn set_hidden(db: &mut Database, id: i32, hidden: bool) -> (r: Result<View, StoreError>)
    requires
        old(db).wf(),
    ensures
        final(db).wf(),
        r is Ok <==> crate::database::has_song(old(db)@.songs, id as int),
        match r {
            Ok(v) => {
                &&& final(db)@ == (DbModel {
                    songs: crate::database::with_visibility(old(db)@.songs, id as int, hidden),
                    ..old(db)@
                })
                &&& exists|s: SongView|
                    s.id == id && s.hidden == hidden && final(db)@.songs.contains(s) && v@
                        == card_text(s)
            },
            Err(e) => e == StoreError::NotFound && final(db)@ == old(db)@,
        },
{
    match db.set_song_visibility(id, hidden) {
        Ok(song) => {
            let ghost sv = song@;
            let v = song_card(song);
            proof {
                assert(sv.id == id && sv.hidden == hidden && final(db)@.songs.contains(sv) && v@
                    == card_text(sv));
            }
            Ok(v)
        },
        Err(e) => Err(e),
    }
}

/// Hides song `id` from voters and returns its card.
pub fn hide_song(db: &mut Database, id: i32) -> (r: Result<View, StoreError>)
    requires
        old(db).wf(),
    ensures
        final(db).wf(),
        r is Ok <==> crate::database::has_song(old(db)@.songs, id as int),
        r is Ok ==> final(db)@ == (DbModel {
            songs: crate::database::with_visibility(old(db)@.songs, id as int, true),
            ..old(db)@
        }),
        r is Err ==> final(db)@ == old(db)@,
{
    set_hidden(db, id, true)
}

/// Shows song `id` to voters again and returns its card.
pub fn unhide_song(db: &mut Database, id: i32) -> (r: Result<View, StoreError>)
    requires
        old(db).wf(),
    ensures
        final(db).wf(),
        r is Ok <==> crate::database::has_song(old(db)@.songs, id as int),
        r is Ok ==> final(db)@ == (DbModel {
            songs: crate::database::with_visibility(old(db)@.songs, id as int, false),
            ..old(db)@
        }),
        r is Err ==> final(db)@ == old(db)@,
{
    set_hidden(db, id, false)
}

/// The organizer's page.
pub fn setlist_page(db: &Database) -> (r: View)
    requires
        db.wf(),
    ensures
        r@ == setlist_page_text(db@),
{
    let songs = db.get_setlist(true);
    let mut out = String::from_str(LIST_OPEN);
    let mut i: usize = 0;
    while i < songs.len()
        invariant
            i <= songs.len(),
            out@ == LIST_OPEN@ + cards_text(song_views(songs@).take(i as int)),
        decreases songs.len() - i,
    {
        push_card(&mut out, &songs[i]);
        proof {
            let sv = song_views(songs@);
            assert(sv.take(i + 1).drop_last() =~= sv.take(i as int));
            assert(sv.take(i + 1).last() == songs@[i as int]@);
        }
        i = i + 1;
    }
    out.append(LIST_CLOSE);
    proof {
        assert(song_views(songs@).take(i as int) =~= song_views(songs@));
        lemma_listed_all(db@.songs);
    }
    page(View::new(out), "Setlist")
}

proof fn lemma_listed_all(songs: Seq<SongView>)
    ensures
        crate::database::listed(songs, true) == songs,
    decreases songs.len(),
{
    if songs.len() > 0 {
        lemma_listed_all(songs.drop_last());
        assert(songs.drop_last().push(songs.last()) =~= songs);
    }
}

} // verus!
