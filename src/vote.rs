use crate::database::{
    count_for_pair, count_for_voter, has_song, has_vote, listed, song_views, vote_views, voter_votes,
    Database, DbModel, Song, SongView, StoreError, Vote, VoteView,
};
use crate::errors::BadRequestError;
use crate::page::{page_with_view_before, page_text};
use crate::view::{decimal, escaped, push_count, push_decimal, push_escaped, View};
use vstd::prelude::*;
use vstd::view::View as _;

verus! {

/// The most votes that one voter may hold at a time.
pub const MAX_VOTES: usize = 5;

/// What a voter sees after a successful cast or retract: the song, and how
/// many votes the voter now holds.
#[derive(Clone, Debug)]
pub struct VoteOutcome {
    pub song: Song,
    pub voter_count: usize,
}

/// The store after voter `t` tries to cast a vote for song `id`: nothing
/// changes once the voter holds the quota.
pub open spec fn cast_effect(m: DbModel, t: Seq<char>, id: int) -> DbModel {
    if count_for_voter(m.votes, t) >= MAX_VOTES {
        m
    } else {
        m.with_vote(t, id)
    }
}

/// Counting the votes of a voter after one more row is appended.
pub proof fn lemma_count_push(votes: Seq<VoteView>, v: VoteView, t: Seq<char>)
    ensures
        count_for_voter(votes.push(v), t) == count_for_voter(votes, t) + if v.token == t {
            1int
        } else {
            0int
        },
{
    assert(votes.push(v).drop_last() =~= votes);
}

/// Counting the votes of a voter after row `j` is removed.
pub proof fn lemma_count_remove(votes: Seq<VoteView>, j: int, t: Seq<char>)
    requires
        0 <= j < votes.len(),
    ensures
        count_for_voter(votes.remove(j), t) == count_for_voter(votes, t) - if votes[j].token == t {
            1int
        } else {
            0int
        },
    decreases votes.len(),
{
    if j == votes.len() - 1 {
        assert(votes.remove(j) =~= votes.drop_last());
    } else {
        lemma_count_remove(votes.drop_last(), j, t);
        assert(votes.remove(j).drop_last() =~= votes.drop_last().remove(j));
        assert(votes.remove(j).last() == votes.last());
    }
}

/// A cast attempt never takes a voter past the quota.
pub proof fn lemma_cast_keeps_quota(m: DbModel, t: Seq<char>, id: int)
    requires
        m.within_quota(MAX_VOTES as int),
    ensures
        cast_effect(m, t, id).within_quota(MAX_VOTES as int),
{
    let after = cast_effect(m, t, id);
    if after != m {
        assert forall|u: Seq<char>| #[trigger] count_for_voter(after.votes, u) <= MAX_VOTES by {
            lemma_count_push(
                m.votes,
                VoteView { id: m.next_vote_id, token: t, song_id: id },
                u,
            );
            assert(count_for_voter(m.votes, u) <= MAX_VOTES);
        }
    }
}

/// Casts the vote of `token` for song `song_id`, unless the voter already
/// holds `MAX_VOTES` votes. A vote that is already recorded stays one row.
pub fn vote_for_song(db: &mut Database, token: &str, song_id: i32) -> (r: Result<
    VoteOutcome,
    BadRequestError,
>)
    requires
        old(db).wf(),
    ensures
        final(db).wf(),
        final(db)@ == cast_effect(old(db)@, token@, song_id as int),
        old(db)@.within_quota(MAX_VOTES as int) ==> final(db)@.within_quota(MAX_VOTES as int),
        r is Ok <==> {
            &&& count_for_voter(old(db)@.votes, token@) < MAX_VOTES
            &&& has_song(old(db)@.songs, song_id as int)
            &&& (has_vote(old(db)@.votes, token@, song_id as int) || old(db)@.next_vote_id
                < i32::MAX)
        },
        match r {
            Ok(o) => {
                &&& o.song@.id == song_id
                &&& old(db)@.songs.contains(o.song@)
                &&& has_vote(final(db)@.votes, token@, song_id as int)
                &&& o.voter_count == count_for_voter(final(db)@.votes, token@)
            },
            Err(BadRequestError::TooManyVotes) => count_for_voter(old(db)@.votes, token@)
                >= MAX_VOTES,
            Err(BadRequestError::NotFound) => count_for_voter(old(db)@.votes, token@) < MAX_VOTES
                && !has_song(old(db)@.songs, song_id as int),
            Err(BadRequestError::StoreFailure) => count_for_voter(old(db)@.votes, token@)
                < MAX_VOTES && has_song(old(db)@.songs, song_id as int) && !has_vote(
                old(db)@.votes,
                token@,
                song_id as int,
            ) && old(db)@.next_vote_id == i32::MAX,
        },
{
    proof {
        if old(db)@.within_quota(MAX_VOTES as int) {
            lemma_cast_keeps_quota(old(db)@, token@, song_id as int);
        }
    }
    let current = db.vote_count_for_voter(token);
    if current >= MAX_VOTES {
        return Err(BadRequestError::TooManyVotes);
    }
    match db.create_vote(token, song_id) {
        Ok(song) => {
            let voter_count = db.vote_count_for_voter(token);
            Ok(VoteOutcome { song, voter_count })
        },
        Err(StoreError::NotFound) => Err(BadRequestError::NotFound),
        Err(StoreError::Persistence) => Err(BadRequestError::StoreFailure),
    }
}

/// Retracts the vote of `token` for song `song_id`; `NotFound`, with the
/// store unchanged, where the voter holds no such vote.
pub fn delete_vote(db: &mut Database, token: &str, song_id: i32) -> (r: Result<
    VoteOutcome,
    BadRequestError,
>)
    requires
        old(db).wf(),
    ensures
        final(db).wf(),
        old(db)@.within_quota(MAX_VOTES as int) ==> final(db)@.within_quota(MAX_VOTES as int),
        r is Ok <==> has_vote(old(db)@.votes, token@, song_id as int),
        match r {
            Ok(o) => {
                &&& o.song@.id == song_id
                &&& old(db)@.songs.contains(o.song@)
                &&& !has_vote(final(db)@.votes, token@, song_id as int)
                &&& final(db)@.songs == old(db)@.songs
                &&& o.voter_count == count_for_voter(final(db)@.votes, token@)
                &&& o.voter_count == count_for_voter(old(db)@.votes, token@) - 1
            },
            Err(e) => e == BadRequestError::NotFound && final(db)@ == old(db)@,
        },
{
    let ghost before = db@;
    match db.delete_vote(token, song_id) {
        Ok(song) => {
            proof {
                let j = choose|j: int|
                    0 <= j < before.votes.len() && #[trigger] before.votes[j].token == token@
                        && before.votes[j].song_id == song_id && db@ == (DbModel {
                        votes: before.votes.remove(j),
                        ..before
                    });
                lemma_count_remove(before.votes, j, token@);
                assert forall|u: Seq<char>|
                    #[trigger] count_for_voter(db@.votes, u) <= count_for_voter(before.votes, u) by {
                    lemma_count_remove(before.votes, j, u);
                }
                assert(!has_vote(db@.votes, token@, song_id as int)) by {
                    if has_vote(db@.votes, token@, song_id as int) {
                        let k = choose|k: int|
                            0 <= k < db@.votes.len() && #[trigger] db@.votes[k].token == token@
                                && db@.votes[k].song_id == song_id;
                        if k < j {
                            assert(db@.votes[k] == before.votes[k]);
                            assert(before.votes[k] == before.votes[k] && before.votes[j]
                                == before.votes[j]);
                        } else {
                            assert(db@.votes[k] == before.votes[k + 1]);
                            assert(before.votes[k + 1] == before.votes[k + 1] && before.votes[j]
                                == before.votes[j]);
                        }
                    }
                }
            }
            let voter_count = db.vote_count_for_voter(token);
            Ok(VoteOutcome { song, voter_count })
        },
        Err(_) => Err(BadRequestError::NotFound),
    }
}

/// The store after each cast attempt of `attempts` in turn, an attempt being
/// a voter token and a song id.
pub open spec fn cast_all(m: DbModel, attempts: Seq<(Seq<char>, int)>) -> DbModel
    decreases attempts.len(),
{
    if attempts.len() == 0 {
        m
    } else {
        cast_effect(cast_all(m, attempts.drop_last()), attempts.last().0, attempts.last().1)
    }
}

/// However many cast attempts arrive, from whichever voters and for whichever
/// songs, no voter ever holds more than `MAX_VOTES` votes.
pub proof fn lemma_quota_never_exceeded(m: DbModel, attempts: Seq<(Seq<char>, int)>)
    requires
        m.within_quota(MAX_VOTES as int),
    ensures
        cast_all(m, attempts).within_quota(MAX_VOTES as int),
    decreases attempts.len(),
{
    if attempts.len() > 0 {
        lemma_quota_never_exceeded(m, attempts.drop_last());
        lemma_cast_keeps_quota(
            cast_all(m, attempts.drop_last()),
            attempts.last().0,
            attempts.last().1,
        );
    }
}

/// Recording a vote keeps the store well formed.
pub proof fn lemma_with_vote_wf(m: DbModel, t: Seq<char>, id: int)
    requires
        m.wf(),
    ensures
        m.with_vote(t, id).wf(),
{
    let after = m.with_vote(t, id);
    if after != m {
        let n = m.votes.len() as int;
        assert forall|i: int| 0 <= i < after.votes.len() implies has_song(
            after.songs,
            #[trigger] after.votes[i].song_id,
        ) by {
            if i < n {
                assert(after.votes[i] == m.votes[i]);
            }
        }
        assert forall|i: int, j: int|
            #![trigger after.votes[i], after.votes[j]]
            0 <= i < j < after.votes.len() implies !(after.votes[i].token == after.votes[j].token
            && after.votes[i].song_id == after.votes[j].song_id) by {
            assert(after.votes[i] == m.votes[i]);
            if j < n {
                assert(after.votes[j] == m.votes[j]);
            } else if after.votes[i].token == t && after.votes[i].song_id == id {
                assert(has_vote(m.votes, t, id));
            }
        }
    }
}

/// Where no voter holds two rows for one song, a pair has one row or none.
pub proof fn lemma_pair_rows(votes: Seq<VoteView>, t: Seq<char>, id: int)
    requires
        forall|i: int, j: int|
            #![trigger votes[i], votes[j]]
            0 <= i < j < votes.len() ==> !(votes[i].token == votes[j].token && votes[i].song_id
                == votes[j].song_id),
    ensures
        count_for_pair(votes, t, id) == if has_vote(votes, t, id) {
            1int
        } else {
            0int
        },
    decreases votes.len(),
{
    if votes.len() > 0 {
        let rest = votes.drop_last();
        let n = votes.len() - 1;
        assert forall|i: int, j: int|
            #![trigger rest[i], rest[j]]
            0 <= i < j < rest.len() implies !(rest[i].token == rest[j].token && rest[i].song_id
            == rest[j].song_id) by {
            assert(rest[i] == votes[i] && rest[j] == votes[j]);
        }
        lemma_pair_rows(rest, t, id);
        if votes.last().token == t && votes.last().song_id == id {
            assert(votes[n].token == t);
            if has_vote(rest, t, id) {
                let k = choose|k: int|
                    0 <= k < rest.len() && #[trigger] rest[k].token == t && rest[k].song_id == id;
                assert(votes[k] == rest[k]);
                assert(votes[k] == votes[k] && votes[n] == votes[n]);
            }
        } else {
            if has_vote(votes, t, id) {
                let k = choose|k: int|
                    0 <= k < votes.len() && #[trigger] votes[k].token == t && votes[k].song_id == id;
                assert(k != n);
                assert(rest[k].token == t);
            }
            if has_vote(rest, t, id) {
                let k = choose|k: int|
                    0 <= k < rest.len() && #[trigger] rest[k].token == t && rest[k].song_id == id;
                assert(votes[k].token == t);
            }
        }
    }
}

/// Casting the same vote twice leaves the store as casting it once does, with
/// one row for the pair, or none where the cast was refused.
pub proof fn lemma_cast_twice(m: DbModel, t: Seq<char>, id: int)
    requires
        m.wf(),
    ensures
        cast_effect(cast_effect(m, t, id), t, id) == cast_effect(m, t, id),
        count_for_pair(cast_effect(m, t, id).votes, t, id) == if has_vote(
            cast_effect(m, t, id).votes,
            t,
            id,
        ) {
            1int
        } else {
            0int
        },
        count_for_pair(cast_effect(m, t, id).votes, t, id) <= 1,
{
    let once = cast_effect(m, t, id);
    lemma_with_vote_wf(m, t, id);
    if once != m {
        let n = m.votes.len() as int;
        assert(once.votes[n].token == t);
        assert(has_vote(once.votes, t, id));
    }
    lemma_pair_rows(once.votes, t, id);
}

const CARD_VOTED: &'static str = "<button hx-delete=\"/vote/";

const CARD_OPEN: &'static str = "<button hx-post=\"/vote/";

const CARD_ID: &'static str = "\" hx-swap=\"outerHTML\" id=\"song-";

const CARD_CLASS: &'static str = "\" class=\"flex transition-all flex-col gap-1 p-4 w-full rounded-lg border shadow items-start ";

const BORDER_VOTED: &'static str = "border-blue-500";

const BORDER_OPEN: &'static str = "dark:border-neutral-700";

const CARD_TITLE: &'static str = "\"><div class=\"flex gap-2 justify-between items-start w-full\"><h2 class=\"text-2xl font-semibold text-left\">";

const CARD_MARK: &'static str = "</h2><span class=\"";

const MARK_VOTED: &'static str = "text-blue-500";

const MARK_OPEN: &'static str = "dark:text-neutral-700";

const CARD_ARTIST: &'static str = "\">&#10003;</span></div><h4 class=\"text-sm text-neutral-500\">";

const CARD_ARTIST_END: &'static str = "</h4>";

const DESC_OPEN: &'static str = "<p class=\"pt-2 text-left\">";

const DESC_CLOSE: &'static str = "</p>";

const CARD_CLOSE: &'static str = "</button>";

const COUNTER_OPEN: &'static str = "<div class=\"relative bg-inherit\"><div class=\"flex justify-center px-4 pt-4 w-full\"><div class=\"grid grid-cols-2 gap-4 w-full max-w-lg\"><div class=\"flex justify-center py-2 px-3 rounded-lg border shadow border-neutral-700\"><span id=\"current_votes\">";

const COUNTER_OF: &'static str = "</span>&nbsp;<span>ud af</span>&nbsp;<span>";

const COUNTER_CLOSE: &'static str = "</span>&nbsp;<span>stemmer</span></div><a href=\"/\" class=\"flex justify-center py-2 px-3 text-white bg-blue-500 rounded hover:bg-blue-400\">Afslut</a></div></div><div class=\"absolute w-full h-4 bg-inherit\"></div></div>";

const LIST_OPEN: &'static str = "<div class=\"flex flex-col gap-4 w-full max-w-lg\">";

const LIST_CLOSE: &'static str = "</div>";

const COUNT_SWAP_OPEN: &'static str = "<span id=\"current_votes\" hx-swap-oob=\"true\">";

const COUNT_SWAP_CLOSE: &'static str = "</span>";

pub closed spec fn description_text(d: Option<Seq<char>>) -> Seq<char> {
    match d {
        Some(t) => DESC_OPEN@ + escaped(t) + DESC_CLOSE@,
        None => Seq::empty(),
    }
}

/// The card of a song on the voting page: pressing it casts the vote, or
/// retracts it where `voted_for` holds; a voted card is highlighted.
pub closed spec fn card_text(voted_for: bool, s: SongView) -> Seq<char> {
    (if voted_for {
        CARD_VOTED@
    } else {
        CARD_OPEN@
    }) + decimal(s.id) + CARD_ID@ + decimal(s.id) + CARD_CLASS@ + (if voted_for {
        BORDER_VOTED@
    } else {
        BORDER_OPEN@
    }) + CARD_TITLE@ + escaped(s.title) + CARD_MARK@ + (if voted_for {
        MARK_VOTED@
    } else {
        MARK_OPEN@
    }) + CARD_ARTIST@ + escaped(s.artist) + CARD_ARTIST_END@ + description_text(s.description)
        + CARD_CLOSE@
}

/// The cards of `songs`, a card being voted where voter `t` holds a vote for
/// its song.
pub closed spec fn cards_text(songs: Seq<SongView>, votes: Seq<VoteView>, t: Seq<char>) -> Seq<char>
    decreases songs.len(),
{
    if songs.len() == 0 {
        Seq::empty()
    } else {
        cards_text(songs.drop_last(), votes, t) + card_text(
            has_vote(votes, t, songs.last().id),
            songs.last(),
        )
    }
}

/// The bar above the cards: how many of the `MAX_VOTES` votes the voter holds.
pub closed spec fn counter_text(count: int) -> Seq<char> {
    COUNTER_OPEN@ + decimal(count) + COUNTER_OF@ + decimal(MAX_VOTES as int) + COUNTER_CLOSE@
}

/// The voting page of voter `t`.
pub closed spec fn vote_page_text(m: DbModel, t: Seq<char>) -> Seq<char> {
    page_text(
        LIST_OPEN@ + cards_text(listed(m.songs, false), m.votes, t) + LIST_CLOSE@,
        counter_text(count_for_voter(m.votes, t) as int),
        "Setlist"@,
    )
}

/// What a voter's page swaps in after a cast or retract: the card of the song
/// and the voter's new count.
pub closed spec fn outcome_text(voted_for: bool, s: SongView, count: int) -> Seq<char> {
    card_text(voted_for, s) + COUNT_SWAP_OPEN@ + decimal(count) + COUNT_SWAP_CLOSE@
}

fn push_description(out: &mut String, d: &Option<String>)
    ensures
        final(out)@ == old(out)@ + description_text(crate::database::opt_view(*d)),
{
    match d {
        Some(t) => {
            out.append(DESC_OPEN);
            push_escaped(out, t.as_str());
            out.append(DESC_CLOSE);
            proof {
                assert(final(out)@ =~= old(out)@ + description_text(crate::database::opt_view(*d)));
            }
        },
        None => {
            proof {
                assert(final(out)@ =~= old(out)@ + description_text(crate::database::opt_view(*d)));
            }
        },
    }
}

fn push_card(out: &mut String, voted_for: bool, song: &Song)
    ensures
        final(out)@ == old(out)@ + card_text(voted_for, song@),
{
    let ghost start = out@;
    out.append(if voted_for { CARD_VOTED } else { CARD_OPEN });
    push_decimal(out, song.id as i64);
    out.append(CARD_ID);
    push_decimal(out, song.id as i64);
    out.append(CARD_CLASS);
    out.append(if voted_for { BORDER_VOTED } else { BORDER_OPEN });
    out.append(CARD_TITLE);
    push_escaped(out, song.title.as_str());
    out.append(CARD_MARK);
    out.append(if voted_for { MARK_VOTED } else { MARK_OPEN });
    out.append(CARD_ARTIST);
    push_escaped(out, song.artist.as_str());
    out.append(CARD_ARTIST_END);
    push_description(out, &song.description);
    out.append(CARD_CLOSE);
    proof {
        assert(final(out)@ =~= start + card_text(voted_for, song@));
    }
}

/// The card of `song` on the voting page.
pub fn song_card(voted_for: bool, song: Song) -> (r: View)
    ensures
        r@ == card_text(voted_for, song@),
{
    let mut out = String::new();
    push_card(&mut out, voted_for, &song);
    proof {
        assert(out@ =~= card_text(voted_for, song@));
    }
    View::new(out)
}

/// What the voter's page swaps in after a cast (`voted_for`) or a retract.
pub fn outcome_view(voted_for: bool, outcome: VoteOutcome) -> (r: View)
    ensures
        r@ == outcome_text(voted_for, outcome.song@, outcome.voter_count as int),
{
    let mut out = String::new();
    push_card(&mut out, voted_for, &outcome.song);
    out.append(COUNT_SWAP_OPEN);
    push_count(&mut out, outcome.voter_count);
    out.append(COUNT_SWAP_CLOSE);
    proof {
        assert(out@ =~= outcome_text(voted_for, outcome.song@, outcome.voter_count as int));
    }
    View::new(out)
}

/// The votes of one voter name the same songs as the voter's rows do.
proof fn lemma_voter_votes(votes: Seq<VoteView>, t: Seq<char>, id: int)
    ensures
        has_vote(votes, t, id) <==> exists|k: int|
            0 <= k < voter_votes(votes, t).len() && (#[trigger] voter_votes(votes, t)[k]).song_id
                == id,
    decreases votes.len(),
{
    if votes.len() > 0 {
        let rest = votes.drop_last();
        let n = votes.len() - 1;
        lemma_voter_votes(rest, t, id);
        let mine = voter_votes(votes, t);
        let before = voter_votes(rest, t);
        if has_vote(votes, t, id) {
            let i = choose|i: int| 0 <= i < votes.len() && #[trigger] votes[i].token == t && votes[i].song_id == id;
            if i < n {
                assert(rest[i].token == t);
                let k = choose|k: int| 0 <= k < before.len() && (#[trigger] before[k]).song_id == id;
                assert(mine[k] == before[k]);
            } else {
                assert(mine[before.len() as int] == votes[n]);
            }
        }
        if exists|k: int| 0 <= k < mine.len() && (#[trigger] mine[k]).song_id == id {
            let k = choose|k: int| 0 <= k < mine.len() && (#[trigger] mine[k]).song_id == id;
            if k < before.len() {
                assert(mine[k] == before[k]);
                let i = choose|i: int| 0 <= i < rest.len() && #[trigger] rest[i].token == t && rest[i].song_id == id;
                assert(votes[i].token == t);
            } else {
                assert(votes[n].token == t);
            }
        }
    }
}

fn holds_vote(votes: &Vec<Vote>, id: i32) -> (r: bool)
    ensures
        r == exists|k: int| 0 <= k < votes@.len() && (#[trigger] vote_views(votes@)[k]).song_id == id,
{
    let ghost vv = vote_views(votes@);
    let mut i: usize = 0;
    while i < votes.len()
        invariant
            i <= votes.len(),
            vv == vote_views(votes@),
            forall|k: int| 0 <= k < i ==> (#[trigger] vv[k]).song_id != id,
        decreases votes.len() - i,
    {
        if votes[i].song_id == id {
            proof {
                assert(vv[i as int].song_id == id);
            }
            return true;
        }
        i = i + 1;
    }
    false
}

/// The voting page of `token`: the songs shown to voters, each marked where
/// the voter holds a vote for it, below a bar with the voter's count.
pub fn vote_songs(db: &Database, token: &str) -> (r: View)
    requires
        db.wf(),
    ensures
        r@ == vote_page_text(db@, token@),
{
    let mine = db.get_votes(token);
    let songs = db.get_setlist(false);
    let mut list = String::from_str(LIST_OPEN);
    let mut i: usize = 0;
    while i < songs.len()
        invariant
            i <= songs.len(),
            vote_views(mine@) == voter_votes(db@.votes, token@),
            list@ == LIST_OPEN@ + cards_text(song_views(songs@).take(i as int), db@.votes, token@),
        decreases songs.len() - i,
    {
        let voted = holds_vote(&mine, songs[i].id);
        proof {
            lemma_voter_votes(db@.votes, token@, songs[i as int].id as int);
        }
        push_card(&mut list, voted, &songs[i]);
        proof {
            let sv = song_views(songs@);
            assert(sv.take(i + 1).drop_last() =~= sv.take(i as int));
            assert(sv.take(i + 1).last() == songs@[i as int]@);
            assert(list@ =~= LIST_OPEN@ + cards_text(sv.take(i + 1), db@.votes, token@));
        }
        i = i + 1;
    }
    list.append(LIST_CLOSE);
    proof {
        assert(song_views(songs@).take(i as int) =~= song_views(songs@));
    }
    let count = db.vote_count_for_voter(token);
    let mut bar = String::from_str(COUNTER_OPEN);
    push_count(&mut bar, count);
    bar.append(COUNTER_OF);
    push_count(&mut bar, MAX_VOTES);
    bar.append(COUNTER_CLOSE);
    page_with_view_before(View::new(list), View::new(bar), "Setlist")
}

} // verus!
