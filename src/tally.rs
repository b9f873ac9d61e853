use crate::database::{
    count_for_song, listed, ranks_before, shown, tally_ordered, tally_rows, DbModel, SongView,
    TallyRow, VoteView,
};
use vstd::prelude::*;

verus! {

/// The sum of the counts of a tally.
pub open spec fn total_votes(rows: Seq<TallyRow>) -> int
    decreases rows.len(),
{
    if rows.len() == 0 {
        0
    } else {
        total_votes(rows.drop_last()) + rows.last().vote_count
    }
}

/// Song `id` exists and shows in the listing.
pub open spec fn song_listed(songs: Seq<SongView>, id: int, include_hidden: bool) -> bool {
    exists|i: int| 0 <= i < songs.len() && #[trigger] songs[i].id == id && shown(songs[i], include_hidden)
}

/// The number of votes for songs that show in the listing.
pub open spec fn votes_on_listed(songs: Seq<SongView>, votes: Seq<VoteView>, include_hidden: bool) -> int
    decreases votes.len(),
{
    if votes.len() == 0 {
        0
    } else {
        votes_on_listed(songs, votes.drop_last(), include_hidden) + if song_listed(
            songs,
            votes.last().song_id,
            include_hidden,
        ) {
            1int
        } else {
            0int
        }
    }
}

/// The row of a song that holds no vote.
pub open spec fn zero_row(s: SongView) -> TallyRow {
    TallyRow { song: s, vote_count: 0 }
}

/// The number of songs of the listing with id `id`.
pub open spec fn listed_with_id(songs: Seq<SongView>, id: int, include_hidden: bool) -> int
    decreases songs.len(),
{
    if songs.len() == 0 {
        0
    } else {
        listed_with_id(songs.drop_last(), id, include_hidden) + if songs.last().id == id && shown(
            songs.last(),
            include_hidden,
        ) {
            1int
        } else {
            0int
        }
    }
}

pub open spec fn ids_increasing(songs: Seq<SongView>) -> bool {
    forall|i: int, j: int|
        #![trigger songs[i], songs[j]]
        0 <= i < j < songs.len() ==> songs[i].id < songs[j].id
}

proof fn lemma_ids_increasing_prefix(songs: Seq<SongView>)
    requires
        ids_increasing(songs),
        songs.len() > 0,
    ensures
        ids_increasing(songs.drop_last()),
{
    let rest = songs.drop_last();
    assert forall|i: int, j: int|
        #![trigger rest[i], rest[j]]
        0 <= i < j < rest.len() implies rest[i].id < rest[j].id by {
        assert(rest[i] == songs[i] && rest[j] == songs[j]);
    }
}

/// Two tallies that hold the same rows and both stand in tally order are the
/// same sequence: the order of a tally does not depend on the order in which
/// votes were cast, ties being broken by song id alone.
pub proof fn lemma_tally_order_unique(a: Seq<TallyRow>, b: Seq<TallyRow>)
    requires
        tally_ordered(a),
        tally_ordered(b),
        a.to_multiset() == b.to_multiset(),
    ensures
        a == b,
    decreases a.len(),
{
    a.to_multiset_ensures();
    b.to_multiset_ensures();
    assert(a.to_multiset().len() == b.to_multiset().len());
    if a.len() > 0 {
        assert(a.contains(a[0]));
        assert(a.to_multiset().count(a[0]) > 0);
        assert(b.to_multiset().count(a[0]) > 0);
        let j = choose|j: int| 0 <= j < b.len() && b[j] == a[0];
        assert(b.contains(b[0]));
        assert(b.to_multiset().count(b[0]) > 0);
        assert(a.to_multiset().count(b[0]) > 0);
        let i = choose|i: int| 0 <= i < a.len() && a[i] == b[0];
        if a[0] != b[0] {
            assert(i > 0 && j > 0);
            assert(ranks_before(a[0], a[i]));
            assert(ranks_before(b[0], b[j]));
        }
        vstd::seq_lib::to_multiset_remove(a, 0);
        vstd::seq_lib::to_multiset_remove(b, 0);
        assert(a.remove(0) =~= a.drop_first());
        assert(b.remove(0) =~= b.drop_first());
        let a1 = a.drop_first();
        let b1 = b.drop_first();
        assert forall|x: int, y: int|
            #![trigger a1[x], a1[y]]
            0 <= x < y < a1.len() implies ranks_before(a1[x], a1[y]) by {
            assert(a1[x] == a[x + 1] && a1[y] == a[y + 1]);
        }
        assert forall|x: int, y: int|
            #![trigger b1[x], b1[y]]
            0 <= x < y < b1.len() implies ranks_before(b1[x], b1[y]) by {
            assert(b1[x] == b[x + 1] && b1[y] == b[y + 1]);
        }
        lemma_tally_order_unique(a1, b1);
        assert(a =~= b1.insert(0, a[0]));
        assert(b =~= b1.insert(0, b[0]));
    }
}

proof fn lemma_total_remove(s: Seq<TallyRow>, j: int)
    requires
        0 <= j < s.len(),
    ensures
        total_votes(s) == total_votes(s.remove(j)) + s[j].vote_count,
    decreases s.len(),
{
    if j == s.len() - 1 {
        assert(s.remove(j) =~= s.drop_last());
    } else {
        lemma_total_remove(s.drop_last(), j);
        assert(s.remove(j).drop_last() =~= s.drop_last().remove(j));
        assert(s.remove(j).last() == s.last());
    }
}

proof fn lemma_total_same_rows(a: Seq<TallyRow>, b: Seq<TallyRow>)
    requires
        a.to_multiset() == b.to_multiset(),
    ensures
        total_votes(a) == total_votes(b),
    decreases a.len(),
{
    a.to_multiset_ensures();
    b.to_multiset_ensures();
    assert(a.to_multiset().len() == b.to_multiset().len());
    if a.len() > 0 {
        let n = a.len() - 1;
        assert(a.contains(a[n]));
        assert(a.to_multiset().count(a[n]) > 0);
        assert(b.to_multiset().count(a[n]) > 0);
        let j = choose|j: int| 0 <= j < b.len() && b[j] == a[n];
        vstd::seq_lib::to_multiset_remove(a, n);
        vstd::seq_lib::to_multiset_remove(b, j);
        assert(a.remove(n) =~= a.drop_last());
        lemma_total_same_rows(a.drop_last(), b.remove(j));
        lemma_total_remove(b, j);
    }
}

proof fn lemma_listed_with_id(songs: Seq<SongView>, id: int, include_hidden: bool)
    requires
        ids_increasing(songs),
    ensures
        listed_with_id(songs, id, include_hidden) == if song_listed(songs, id, include_hidden) {
            1int
        } else {
            0int
        },
    decreases songs.len(),
{
    if songs.len() > 0 {
        let rest = songs.drop_last();
        let n = songs.len() - 1;
        lemma_ids_increasing_prefix(songs);
        lemma_listed_with_id(rest, id, include_hidden);
        if song_listed(rest, id, include_hidden) {
            let k = choose|k: int|
                0 <= k < rest.len() && #[trigger] rest[k].id == id && shown(rest[k], include_hidden);
            assert(songs[k].id == id);
            assert(songs[k] == songs[k] && songs[n] == songs[n]);
        }
        if song_listed(songs, id, include_hidden) {
            let k = choose|k: int|
                0 <= k < songs.len() && #[trigger] songs[k].id == id && shown(songs[k], include_hidden);
            if k < n {
                assert(rest[k].id == id);
            }
        }
        if songs.last().id == id && shown(songs.last(), include_hidden) {
            assert(songs[n].id == id);
        }
    }
}

proof fn lemma_rows_push_vote(songs: Seq<SongView>, votes: Seq<VoteView>, v: VoteView, include_hidden: bool)
    ensures
        total_votes(tally_rows(songs, votes.push(v), include_hidden)) == total_votes(
            tally_rows(songs, votes, include_hidden),
        ) + listed_with_id(songs, v.song_id, include_hidden),
    decreases songs.len(),
{
    if songs.len() > 0 {
        lemma_rows_push_vote(songs.drop_last(), votes, v, include_hidden);
        assert(votes.push(v).drop_last() =~= votes);
        let id = songs.last().id;
        assert(count_for_song(votes.push(v), id) == count_for_song(votes, id) + if v.song_id == id {
            1int
        } else {
            0int
        });
        let r0 = tally_rows(songs.drop_last(), votes, include_hidden);
        let r1 = tally_rows(songs.drop_last(), votes.push(v), include_hidden);
        if shown(songs.last(), include_hidden) {
            assert(tally_rows(songs, votes, include_hidden).drop_last() =~= r0);
            assert(tally_rows(songs, votes.push(v), include_hidden).drop_last() =~= r1);
        }
    }
}

proof fn lemma_rows_total(songs: Seq<SongView>, votes: Seq<VoteView>, include_hidden: bool)
    requires
        ids_increasing(songs),
    ensures
        total_votes(tally_rows(songs, votes, include_hidden)) == votes_on_listed(
            songs,
            votes,
            include_hidden,
        ),
    decreases votes.len(),
{
    if votes.len() == 0 {
        lemma_cleared_rows(songs, include_hidden);
        lemma_zero_rows_total(listed(songs, include_hidden));
        assert(votes =~= Seq::<VoteView>::empty());
    } else {
        lemma_rows_total(songs, votes.drop_last(), include_hidden);
        lemma_rows_push_vote(songs, votes.drop_last(), votes.last(), include_hidden);
        lemma_listed_with_id(songs, votes.last().song_id, include_hidden);
        assert(votes.drop_last().push(votes.last()) =~= votes);
    }
}

proof fn lemma_zero_rows_total(songs: Seq<SongView>)
    ensures
        total_votes(songs.map_values(|s: SongView| zero_row(s))) == 0,
    decreases songs.len(),
{
    if songs.len() > 0 {
        lemma_zero_rows_total(songs.drop_last());
        assert(songs.map_values(|s: SongView| zero_row(s)).drop_last() =~= songs.drop_last().map_values(
            |s: SongView| zero_row(s),
        ));
    }
}

proof fn lemma_cleared_rows(songs: Seq<SongView>, include_hidden: bool)
    ensures
        tally_rows(songs, Seq::empty(), include_hidden) == listed(songs, include_hidden).map_values(
            |s: SongView| zero_row(s),
        ),
    decreases songs.len(),
{
    if songs.len() > 0 {
        lemma_cleared_rows(songs.drop_last(), include_hidden);
        assert(count_for_song(Seq::<VoteView>::empty(), songs.last().id) == 0);
        if shown(songs.last(), include_hidden) {
            assert(listed(songs, include_hidden).map_values(|s: SongView| zero_row(s)) =~= listed(
                songs.drop_last(),
                include_hidden,
            ).map_values(|s: SongView| zero_row(s)).push(zero_row(songs.last())));
        }
    } else {
        assert(listed(songs, include_hidden).map_values(|s: SongView| zero_row(s)) =~= Seq::<
            TallyRow,
        >::empty());
    }
}

/// The counts of a tally add up to the number of votes for the songs that it
/// lists.
pub proof fn lemma_tally_sum(m: DbModel, include_hidden: bool, rows: Seq<TallyRow>)
    requires
        m.wf(),
        rows.to_multiset() == tally_rows(m.songs, m.votes, include_hidden).to_multiset(),
    ensures
        total_votes(rows) == votes_on_listed(m.songs, m.votes, include_hidden),
{
    lemma_total_same_rows(rows, tally_rows(m.songs, m.votes, include_hidden));
    lemma_rows_total(m.songs, m.votes, include_hidden);
}

proof fn lemma_listed_from(songs: Seq<SongView>, include_hidden: bool)
    ensures
        forall|k: int|
            0 <= k < listed(songs, include_hidden).len() ==> exists|i: int|
                0 <= i < songs.len() && #[trigger] listed(songs, include_hidden)[k] == songs[i],
    decreases songs.len(),
{
    if songs.len() > 0 {
        let rest = songs.drop_last();
        lemma_listed_from(rest, include_hidden);
        let l = listed(songs, include_hidden);
        assert forall|k: int| 0 <= k < l.len() implies exists|i: int|
            0 <= i < songs.len() && #[trigger] l[k] == songs[i] by {
            if k < listed(rest, include_hidden).len() {
                let i = choose|i: int| 0 <= i < rest.len() && #[trigger] listed(rest, include_hidden)[k] == rest[i];
                assert(l[k] == songs[i]);
            } else {
                assert(l[k] == songs[songs.len() - 1]);
            }
        }
    }
}

proof fn lemma_listed_increasing(songs: Seq<SongView>, include_hidden: bool)
    requires
        ids_increasing(songs),
    ensures
        ids_increasing(listed(songs, include_hidden)),
    decreases songs.len(),
{
    if songs.len() > 0 {
        let rest = songs.drop_last();
        lemma_ids_increasing_prefix(songs);
        lemma_listed_increasing(rest, include_hidden);
        lemma_listed_from(rest, include_hidden);
        let l = listed(songs, include_hidden);
        let lr = listed(rest, include_hidden);
        if shown(songs.last(), include_hidden) {
            assert forall|x: int, y: int|
                #![trigger l[x], l[y]]
                0 <= x < y < l.len() implies l[x].id < l[y].id by {
                assert(l[x] == lr[x]);
                if y < lr.len() {
                    assert(l[y] == lr[y]);
                } else {
                    let i = choose|i: int| 0 <= i < rest.len() && #[trigger] lr[x] == rest[i];
                    assert(songs[i] == songs[i] && songs[songs.len() - 1] == songs[songs.len() - 1]);
                }
            }
        }
    }
}

/// Once every vote is cleared, the tally lists every song of the listing, in
/// order of id, each with count 0.
pub proof fn lemma_cleared_tally(m: DbModel, include_hidden: bool, rows: Seq<TallyRow>)
    requires
        m.wf(),
        tally_ordered(rows),
        rows.to_multiset() == tally_rows(m.songs, Seq::empty(), include_hidden).to_multiset(),
    ensures
        rows == listed(m.songs, include_hidden).map_values(|s: SongView| zero_row(s)),
{
    let zeros = listed(m.songs, include_hidden).map_values(|s: SongView| zero_row(s));
    lemma_cleared_rows(m.songs, include_hidden);
    lemma_listed_increasing(m.songs, include_hidden);
    let l = listed(m.songs, include_hidden);
    assert forall|x: int, y: int|
        #![trigger zeros[x], zeros[y]]
        0 <= x < y < zeros.len() implies ranks_before(zeros[x], zeros[y]) by {
        assert(l[x] == l[x] && l[y] == l[y]);
    }
    lemma_tally_order_unique(rows, zeros);
}

/// The tally of a store state: its rows in tally order. There is exactly one
/// such sequence (see `lemma_tally_order_unique`).
pub open spec fn ordered_tally(songs: Seq<SongView>, votes: Seq<VoteView>, include_hidden: bool) -> Seq<TallyRow> {
    choose|r: Seq<TallyRow>|
        tally_ordered(r) && r.to_multiset() == tally_rows(songs, votes, include_hidden).to_multiset()
}

/// Rows in tally order that hold the rows of the store are its tally.
pub proof fn lemma_is_ordered_tally(songs: Seq<SongView>, votes: Seq<VoteView>, include_hidden: bool, r: Seq<TallyRow>)
    requires
        tally_ordered(r),
        r.to_multiset() == tally_rows(songs, votes, include_hidden).to_multiset(),
    ensures
        r == ordered_tally(songs, votes, include_hidden),
{
    let c = ordered_tally(songs, votes, include_hidden);
    assert(tally_ordered(c) && c.to_multiset() == tally_rows(songs, votes, include_hidden).to_multiset());
    lemma_tally_order_unique(r, c);
}

} // verus!
