use vstd::prelude::*;

verus! {

/// A song of the setlist.
#[derive(Clone, Debug)]
pub struct Song {
    pub id: i32,
    pub artist: String,
    pub title: String,
    pub description: Option<String>,
    pub hidden: bool,
}

/// The mathematical value of a [`Song`].
pub struct SongView {
    pub id: int,
    pub artist: Seq<char>,
    pub title: Seq<char>,
    pub description: Option<Seq<char>>,
    pub hidden: bool,
}

pub open spec fn opt_view(o: Option<String>) -> Option<Seq<char>> {
    match o {
        Some(s) => Some(s@),
        None => None,
    }
}

impl View for Song {
    type V = SongView;

    open spec fn view(&self) -> SongView {
        SongView {
            id: self.id as int,
            artist: self.artist@,
            title: self.title@,
            description: opt_view(self.description),
            hidden: self.hidden,
        }
    }
}

fn copy_opt(o: &Option<String>) -> (r: Option<String>)
    ensures
        opt_view(r) == opt_view(*o),
{
    match o {
        Some(s) => Some(s.clone()),
        None => None,
    }
}

impl Song {
    /// A copy of this song with the same view.
    pub fn copied(&self) -> (r: Song)
        ensures
            r@ == self@,
    {
        Song {
            id: self.id,
            artist: self.artist.clone(),
            title: self.title.clone(),
            description: copy_opt(&self.description),
            hidden: self.hidden,
        }
    }
}

/// One vote: the voter token `session_id` holds a vote for song `song_id`.
#[derive(Clone, Debug)]
pub struct Vote {
    pub id: i32,
    pub session_id: String,
    pub song_id: i32,
}

/// The mathematical value of a [`Vote`].
pub struct VoteView {
    pub id: int,
    pub token: Seq<char>,
    pub song_id: int,
}

impl View for Vote {
    type V = VoteView;

    open spec fn view(&self) -> VoteView {
        VoteView { id: self.id as int, token: self.session_id@, song_id: self.song_id as int }
    }
}

impl Vote {
    /// A copy of this vote with the same view.
    pub fn copied(&self) -> (r: Vote)
        ensures
            r@ == self@,
    {
        Vote { id: self.id, session_id: self.session_id.clone(), song_id: self.song_id }
    }
}

/// A song together with the number of votes it holds.
#[derive(Clone, Debug)]
pub struct VoteResult {
    pub song: Song,
    pub vote_count: i64,
}

/// The mathematical value of a [`VoteResult`].
pub struct TallyRow {
    pub song: SongView,
    pub vote_count: int,
}

impl View for VoteResult {
    type V = TallyRow;

    open spec fn view(&self) -> TallyRow {
        TallyRow { song: self.song@, vote_count: self.vote_count as int }
    }
}

/// Why a store operation did not take place.
#[derive(Clone, Copy, Debug, PartialEq, Eq, Structural)]
pub enum StoreError {
    /// The song, or the vote, that the operation names does not exist.
    NotFound,
    /// The store cannot record the change: its identifiers are used up.
    Persistence,
}

pub open spec fn song_views(s: Seq<Song>) -> Seq<SongView> {
    s.map_values(|x: Song| x@)
}

pub open spec fn vote_views(s: Seq<Vote>) -> Seq<VoteView> {
    s.map_values(|x: Vote| x@)
}

pub open spec fn row_views(s: Seq<VoteResult>) -> Seq<TallyRow> {
    s.map_values(|x: VoteResult| x@)
}

/// The state of the store: its songs in order of id, its votes in order of
/// insertion, and the identifiers that the next song and the next vote get.
pub struct DbModel {
    pub songs: Seq<SongView>,
    pub votes: Seq<VoteView>,
    pub next_song_id: int,
    pub next_vote_id: int,
}

/// Number of votes that voter `t` holds.
pub open spec fn count_for_voter(votes: Seq<VoteView>, t: Seq<char>) -> nat
    decreases votes.len(),
{
    if votes.len() == 0 {
        0
    } else {
        count_for_voter(votes.drop_last(), t) + if votes.last().token == t {
            1nat
        } else {
            0nat
        }
    }
}

/// Number of votes that song `id` holds.
pub open spec fn count_for_song(votes: Seq<VoteView>, id: int) -> nat
    decreases votes.len(),
{
    if votes.len() == 0 {
        0
    } else {
        count_for_song(votes.drop_last(), id) + if votes.last().song_id == id {
            1nat
        } else {
            0nat
        }
    }
}

/// Number of vote rows for the pair (voter `t`, song `id`).
pub open spec fn count_for_pair(votes: Seq<VoteView>, t: Seq<char>, id: int) -> nat
    decreases votes.len(),
{
    if votes.len() == 0 {
        0
    } else {
        count_for_pair(votes.drop_last(), t, id) + if votes.last().token == t
            && votes.last().song_id == id {
            1nat
        } else {
            0nat
        }
    }
}

/// The votes of voter `t`, in order of casting.
pub open spec fn voter_votes(votes: Seq<VoteView>, t: Seq<char>) -> Seq<VoteView>
    decreases votes.len(),
{
    if votes.len() == 0 {
        Seq::empty()
    } else if votes.last().token == t {
        voter_votes(votes.drop_last(), t).push(votes.last())
    } else {
        voter_votes(votes.drop_last(), t)
    }
}

pub open spec fn has_vote(votes: Seq<VoteView>, t: Seq<char>, id: int) -> bool {
    exists|i: int| 0 <= i < votes.len() && #[trigger] votes[i].token == t && votes[i].song_id == id
}

pub open spec fn has_song(songs: Seq<SongView>, id: int) -> bool {
    exists|i: int| 0 <= i < songs.len() && #[trigger] songs[i].id == id
}

/// Whether a song shows in a listing that does or does not include hidden songs.
pub open spec fn shown(s: SongView, include_hidden: bool) -> bool {
    include_hidden || !s.hidden
}

/// The songs of a listing, in order of id.
pub open spec fn listed(songs: Seq<SongView>, include_hidden: bool) -> Seq<SongView>
    decreases songs.len(),
{
    if songs.len() == 0 {
        Seq::empty()
    } else if shown(songs.last(), include_hidden) {
        listed(songs.drop_last(), include_hidden).push(songs.last())
    } else {
        listed(songs.drop_last(), include_hidden)
    }
}


/// The votes that remain once song `id` is gone.
pub open spec fn votes_without_song(votes: Seq<VoteView>, id: int) -> Seq<VoteView>
    decreases votes.len(),
{
    if votes.len() == 0 {
        Seq::empty()
    } else if votes.last().song_id == id {
        votes_without_song(votes.drop_last(), id)
    } else {
        votes_without_song(votes.drop_last(), id).push(votes.last())
    }
}

/// The catalogue with the visibility of song `id` set to `hidden`.
pub open spec fn with_visibility(songs: Seq<SongView>, id: int, hidden: bool) -> Seq<SongView> {
    songs.map_values(
        |s: SongView|
            if s.id == id {
                SongView { hidden: hidden, ..s }
            } else {
                s
            },
    )
}

pub open spec fn opt_str_view(o: Option<&str>) -> Option<Seq<char>> {
    match o {
        Some(s) => Some(s@),
        None => None,
    }
}


/// One row for each song of the listing, in order of id, with the number of
/// votes that the song holds.
pub open spec fn tally_rows(songs: Seq<SongView>, votes: Seq<VoteView>, include_hidden: bool) -> Seq<
    TallyRow,
>
    decreases songs.len(),
{
    if songs.len() == 0 {
        Seq::empty()
    } else if shown(songs.last(), include_hidden) {
        tally_rows(songs.drop_last(), votes, include_hidden).push(
            TallyRow { song: songs.last(), vote_count: count_for_song(votes, songs.last().id) as int },
        )
    } else {
        tally_rows(songs.drop_last(), votes, include_hidden)
    }
}

/// Row `a` comes before row `b` in a tally: more votes first, and among equal
/// counts the lower song id first.
pub open spec fn ranks_before(a: TallyRow, b: TallyRow) -> bool {
    a.vote_count > b.vote_count || (a.vote_count == b.vote_count && a.song.id < b.song.id)
}

/// The rows stand in tally order.
pub open spec fn tally_ordered(rows: Seq<TallyRow>) -> bool {
    forall|i: int, j: int|
        #![trigger rows[i], rows[j]]
        0 <= i < j < rows.len() ==> ranks_before(rows[i], rows[j])
}

impl DbModel {
    /// Songs are in strictly increasing order of id, below `next_song_id`;
    /// every vote names an existing song; no voter holds two votes for one song;
    /// the identifiers left bound the numbers of rows.
    pub open spec fn wf(self) -> bool {
        &&& 1 <= self.next_song_id <= i32::MAX
        &&& 1 <= self.next_vote_id <= i32::MAX
        &&& self.songs.len() < self.next_song_id
        &&& self.votes.len() < self.next_vote_id
        &&& forall|i: int, j: int|
            #![trigger self.songs[i], self.songs[j]]
            0 <= i < j < self.songs.len() ==> self.songs[i].id < self.songs[j].id
        &&& forall|i: int|
            0 <= i < self.songs.len() ==> 1 <= #[trigger] self.songs[i].id < self.next_song_id
        &&& forall|i: int|
            0 <= i < self.votes.len() ==> has_song(self.songs, #[trigger] self.votes[i].song_id)
        &&& forall|i: int, j: int|
            #![trigger self.votes[i], self.votes[j]]
            0 <= i < j < self.votes.len() ==> !(self.votes[i].token == self.votes[j].token
                && self.votes[i].song_id == self.votes[j].song_id)
    }

    /// The state after a vote of `t` for song `id` is recorded: a new row where
    /// the song exists, the pair is new and an identifier is left; else no change.
    pub open spec fn with_vote(self, t: Seq<char>, id: int) -> DbModel {
        if !has_song(self.songs, id) || has_vote(self.votes, t, id) || self.next_vote_id
            >= i32::MAX {
            self
        } else {
            DbModel {
                votes: self.votes.push(VoteView { id: self.next_vote_id, token: t, song_id: id }),
                next_vote_id: self.next_vote_id + 1,
                ..self
            }
        }
    }

    /// No voter holds more than the quota of votes.
    pub open spec fn within_quota(self, quota: int) -> bool {
        forall|t: Seq<char>| #[trigger] count_for_voter(self.votes, t) <= quota
    }
}

/// The vote store: the song catalogue and the votes cast for its songs.
pub struct Database {
    songs: Vec<Song>,
    votes: Vec<Vote>,
    next_song_id: i32,
    next_vote_id: i32,
}

impl View for Database {
    type V = DbModel;

    closed spec fn view(&self) -> DbModel {
        DbModel {
            songs: song_views(self.songs@),
            votes: vote_views(self.votes@),
            next_song_id: self.next_song_id as int,
            next_vote_id: self.next_vote_id as int,
        }
    }
}

impl Database {
    pub open spec fn wf(&self) -> bool {
        self@.wf()
    }

    /// An empty store.
    pub fn new() -> (r: Database)
        ensures
            r.wf(),
            r@.songs.len() == 0,
            r@.votes.len() == 0,
            r@.next_song_id == 1,
            r@.next_vote_id == 1,
    {
        Database { songs: Vec::new(), votes: Vec::new(), next_song_id: 1, next_vote_id: 1 }
    }

    /// The number of votes that `token` holds.
    pub fn vote_count_for_voter(&self, token: &str) -> (r: usize)
        requires
            self.wf(),
        ensures
            r == count_for_voter(self@.votes, token@),
            r <= self@.votes.len(),
    {
        let t = token.to_owned();
        let mut n: usize = 0;
        let mut i: usize = 0;
        while i < self.votes.len()
            invariant
                self.wf(),
                i <= self.votes.len(),
                t@ == token@,
                n == count_for_voter(self@.votes.take(i as int), token@),
                n <= i,
            decreases self.votes.len() - i,
        {
            proof {
                assert(self@.votes.take(i + 1).drop_last() =~= self@.votes.take(i as int));
            }
            if self.votes[i].session_id == t {
                n = n + 1;
            }
            i = i + 1;
        }
        proof {
            assert(self@.votes.take(i as int) =~= self@.votes);
        }
        n
    }

    /// The position of song `id`, if the store holds it.
    fn find_song(&self, id: i32) -> (r: Option<usize>)
        requires
            self.wf(),
        ensures
            match r {
                Some(i) => i < self@.songs.len() && self@.songs[i as int].id == id,
                None => !has_song(self@.songs, id as int),
            },
    {
        let mut i: usize = 0;
        while i < self.songs.len()
            invariant
                i <= self.songs.len(),
                forall|k: int| 0 <= k < i ==> #[trigger] self@.songs[k].id != id,
            decreases self.songs.len() - i,
        {
            if self.songs[i].id == id {
                return Some(i);
            }
            i = i + 1;
        }
        None
    }

    /// The songs of the catalogue in order of id; hidden ones only where
    /// `include_hidden` asks for them.
    pub fn get_setlist(&self, include_hidden: bool) -> (r: Vec<Song>)
        requires
            self.wf(),
        ensures
            song_views(r@) == listed(self@.songs, include_hidden),
    {
        let mut r: Vec<Song> = Vec::new();
        let mut i: usize = 0;
        while i < self.songs.len()
            invariant
                i <= self.songs.len(),
                song_views(r@) == listed(self@.songs.take(i as int), include_hidden),
            decreases self.songs.len() - i,
        {
            proof {
                assert(self@.songs.take(i + 1).drop_last() =~= self@.songs.take(i as int));
            }
            if include_hidden || !self.songs[i].hidden {
                let c = self.songs[i].copied();
                let ghost prev = r@;
                r.push(c);
                proof {
                    assert(song_views(r@) =~= song_views(prev).push(c@));
                }
            }
            i = i + 1;
        }
        proof {
            assert(self@.songs.take(i as int) =~= self@.songs);
        }
        r
    }

    /// The votes that `token` holds, in order of casting.
    pub fn get_votes(&self, token: &str) -> (r: Vec<Vote>)
        requires
            self.wf(),
        ensures
            vote_views(r@) == voter_votes(self@.votes, token@),
    {
        let t = token.to_owned();
        let mut r: Vec<Vote> = Vec::new();
        let mut i: usize = 0;
        while i < self.votes.len()
            invariant
                i <= self.votes.len(),
                t@ == token@,
                vote_views(r@) == voter_votes(self@.votes.take(i as int), token@),
            decreases self.votes.len() - i,
        {
            proof {
                assert(self@.votes.take(i + 1).drop_last() =~= self@.votes.take(i as int));
            }
            if self.votes[i].session_id == t {
                let c = self.votes[i].copied();
                let ghost prev = r@;
                r.push(c);
                proof {
                    assert(vote_views(r@) =~= vote_views(prev).push(c@));
                }
            }
            i = i + 1;
        }
        proof {
            assert(self@.votes.take(i as int) =~= self@.votes);
        }
        r
    }

    /// The position of the vote of `t` for song `id`, if there is one.
    fn find_vote(&self, t: &String, id: i32) -> (r: Option<usize>)
        requires
            self.wf(),
        ensures
            match r {
                Some(j) => j < self@.votes.len() && self@.votes[j as int].token == t@
                    && self@.votes[j as int].song_id == id,
                None => !has_vote(self@.votes, t@, id as int),
            },
    {
        let mut j: usize = 0;
        while j < self.votes.len()
            invariant
                j <= self.votes.len(),
                forall|k: int|
                    0 <= k < j ==> !(#[trigger] self@.votes[k].token == t@ && self@.votes[k].song_id
                        == id),
            decreases self.votes.len() - j,
        {
            if self.votes[j].song_id == id && self.votes[j].session_id == *t {
                return Some(j);
            }
            j = j + 1;
        }
        None
    }

    /// Adds a visible song with the next id.
    pub fn add_song(&mut self, artist: &str, title: &str, description: Option<&str>) -> (r: Result<
        Song,
        StoreError,
    >)
        requires
            old(self).wf(),
        ensures
            final(self).wf(),
            r is Ok <==> old(self)@.next_song_id < i32::MAX,
            match r {
                Ok(song) => {
                    &&& song@ == (SongView {
                        id: old(self)@.next_song_id,
                        artist: artist@,
                        title: title@,
                        description: opt_str_view(description),
                        hidden: false,
                    })
                    &&& final(self)@ == (DbModel {
                        songs: old(self)@.songs.push(song@),
                        next_song_id: old(self)@.next_song_id + 1,
                        ..old(self)@
                    })
                },
                Err(e) => e == StoreError::Persistence && final(self)@ == old(self)@,
            },
    {
        if self.next_song_id == i32::MAX {
            return Err(StoreError::Persistence);
        }
        let d = match description {
            Some(d) => Some(d.to_owned()),
            None => None,
        };
        let song = Song {
            id: self.next_song_id,
            artist: artist.to_owned(),
            title: title.to_owned(),
            description: d,
            hidden: false,
        };
        let out = song.copied();
        let ghost prev = self@;
        self.songs.push(song);
        self.next_song_id = self.next_song_id + 1;
        proof {
            assert(self@.songs =~= prev.songs.push(out@));
            assert(self@.votes =~= prev.votes);
            assert forall|i: int| 0 <= i < self@.votes.len() implies has_song(
                self@.songs,
                #[trigger] self@.votes[i].song_id,
            ) by {
                let k = choose|k: int| 0 <= k < prev.songs.len() && #[trigger] prev.songs[k].id
                    == prev.votes[i].song_id;
                assert(self@.songs[k].id == self@.votes[i].song_id);
            }
        }
        Ok(out)
    }

    /// Shows (`hidden == false`) or hides song `id`.
    pub fn set_song_visibility(&mut self, id: i32, hidden: bool) -> (r: Result<Song, StoreError>)
        requires
            old(self).wf(),
        ensures
            final(self).wf(),
            r is Ok <==> has_song(old(self)@.songs, id as int),
            match r {
                Ok(song) => {
                    &&& song@.id == id
                    &&& song@.hidden == hidden
                    &&& final(self)@.songs.contains(song@)
                    &&& final(self)@ == (DbModel {
                        songs: with_visibility(old(self)@.songs, id as int, hidden),
                        ..old(self)@
                    })
                },
                Err(e) => e == StoreError::NotFound && final(self)@ == old(self)@,
            },
    {
        match self.find_song(id) {
            None => Err(StoreError::NotFound),
            Some(i) => {
                let mut song = self.songs[i].copied();
                song.hidden = hidden;
                let out = song.copied();
                let ghost prev = self@;
                self.songs.set(i, song);
                proof {
                    assert(self@.songs =~= with_visibility(prev.songs, id as int, hidden));
                    assert(self@.votes =~= prev.votes);
                    assert(self@.songs[i as int] == out@);
                    assert forall|v: int| 0 <= v < self@.votes.len() implies has_song(
                        self@.songs,
                        #[trigger] self@.votes[v].song_id,
                    ) by {
                        let k = choose|k: int| 0 <= k < prev.songs.len() && #[trigger] prev.songs[k].id
                            == prev.votes[v].song_id;
                        assert(self@.songs[k].id == self@.votes[v].song_id);
                    }
                }
                Ok(out)
            },
        }
    }

    /// Records a vote of `token` for song `id`. Casting a vote that is already
    /// recorded changes nothing and still returns the song.
    pub fn create_vote(&mut self, token: &str, id: i32) -> (r: Result<Song, StoreError>)
        requires
            old(self).wf(),
        ensures
            final(self).wf(),
            final(self)@ == old(self)@.with_vote(token@, id as int),
            match r {
                Ok(song) => {
                    &&& song@.id == id
                    &&& old(self)@.songs.contains(song@)
                    &&& has_vote(final(self)@.votes, token@, id as int)
                },
                Err(StoreError::NotFound) => !has_song(old(self)@.songs, id as int),
                Err(StoreError::Persistence) => {
                    &&& has_song(old(self)@.songs, id as int)
                    &&& !has_vote(old(self)@.votes, token@, id as int)
                    &&& old(self)@.next_vote_id == i32::MAX
                },
            },
            r is Err ==> final(self)@ == old(self)@,
            has_song(old(self)@.songs, id as int) && (has_vote(old(self)@.votes, token@, id as int)
                || old(self)@.next_vote_id < i32::MAX) ==> r is Ok,
    {
        let i = match self.find_song(id) {
            None => {
                return Err(StoreError::NotFound);
            },
            Some(i) => i,
        };
        let out = self.songs[i].copied();
        let t = token.to_owned();
        match self.find_vote(&t, id) {
            Some(j) => {
                proof {
                    assert(self@.votes[j as int].token == token@);
                }
                Ok(out)
            },
            None => {
                if self.next_vote_id == i32::MAX {
                    return Err(StoreError::Persistence);
                }
                let vote = Vote { id: self.next_vote_id, session_id: t, song_id: id };
                let ghost prev = self@;
                let ghost vv = vote@;
                self.votes.push(vote);
                self.next_vote_id = self.next_vote_id + 1;
                proof {
                    assert(self@.votes =~= prev.votes.push(vv));
                    assert(self@.songs =~= prev.songs);
                    assert(self@.votes[prev.votes.len() as int].token == token@);
                    assert(has_song(prev.songs, id as int)) by {
                        assert(prev.songs[i as int].id == id);
                    }
                }
                Ok(out)
            },
        }
    }

    /// Removes the vote of `token` for song `id`; `NotFound` where there is none,
    /// with the store unchanged.
    pub fn delete_vote(&mut self, token: &str, id: i32) -> (r: Result<Song, StoreError>)
        requires
            old(self).wf(),
        ensures
            final(self).wf(),
            r is Ok <==> has_vote(old(self)@.votes, token@, id as int),
            match r {
                Ok(song) => {
                    &&& song@.id == id
                    &&& old(self)@.songs.contains(song@)
                    &&& exists|j: int|
                        0 <= j < old(self)@.votes.len() && #[trigger] old(self)@.votes[j].token
                            == token@ && old(self)@.votes[j].song_id == id && final(self)@ == (
                        DbModel { votes: old(self)@.votes.remove(j), ..old(self)@ })
                },
                Err(e) => e == StoreError::NotFound && final(self)@ == old(self)@,
            },
    {
        let t = token.to_owned();
        let j = match self.find_vote(&t, id) {
            None => {
                return Err(StoreError::NotFound);
            },
            Some(j) => j,
        };
        proof {
            assert(self@.votes[j as int].token == token@);
        }
        let i = match self.find_song(id) {
            None => {
                proof {
                    assert(has_song(self@.songs, self@.votes[j as int].song_id));
                }
                return Err(StoreError::NotFound);
            },
            Some(i) => i,
        };
        let out = self.songs[i].copied();
        let ghost prev = self@;
        let _ = self.votes.remove(j);
        proof {
            assert(self@.votes =~= prev.votes.remove(j as int));
            assert(self@.songs =~= prev.songs);
            assert forall|a: int, b: int|
                #![trigger self@.votes[a], self@.votes[b]]
                0 <= a < b < self@.votes.len() implies !(self@.votes[a].token == self@.votes[b].token
                && self@.votes[a].song_id == self@.votes[b].song_id) by {
                let a0 = if a < j { a } else { a + 1 };
                let b0 = if b < j { b } else { b + 1 };
                assert(self@.votes[a] == prev.votes[a0]);
                assert(self@.votes[b] == prev.votes[b0]);
                assert(prev.votes[a0] == prev.votes[a0] && prev.votes[b0] == prev.votes[b0]);
            }
            assert forall|v: int| 0 <= v < self@.votes.len() implies has_song(
                self@.songs,
                #[trigger] self@.votes[v].song_id,
            ) by {
                let v0 = if v < j { v } else { v + 1 };
                assert(self@.votes[v] == prev.votes[v0]);
            }
            assert(self@ == (DbModel { votes: prev.votes.remove(j as int), ..prev }));
            assert(prev.votes[j as int].token == token@);
        }
        Ok(out)
    }

    /// Removes every vote.
    pub fn clear_votes(&mut self)
        requires
            old(self).wf(),
        ensures
            final(self).wf(),
            final(self)@ == (DbModel { votes: Seq::empty(), ..old(self)@ }),
    {
        let ghost prev = self@;
        self.votes = Vec::new();
        proof {
            assert(self@.votes =~= Seq::<VoteView>::empty());
            assert(self@.songs =~= prev.songs);
        }
    }

    /// Removes song `id` and every vote for it; `NotFound` where there is no
    /// such song, with the store unchanged.
    pub fn delete_song(&mut self, id: i32) -> (r: Result<(), StoreError>)
        requires
            old(self).wf(),
        ensures
            final(self).wf(),
            r is Ok <==> has_song(old(self)@.songs, id as int),
            match r {
                Ok(_) => exists|i: int|
                    0 <= i < old(self)@.songs.len() && #[trigger] old(self)@.songs[i].id == id
                        && final(self)@ == (DbModel {
                        songs: old(self)@.songs.remove(i),
                        votes: votes_without_song(old(self)@.votes, id as int),
                        ..old(self)@
                    }),
                Err(e) => e == StoreError::NotFound && final(self)@ == old(self)@,
            },
    {
        let i = match self.find_song(id) {
            None => {
                return Err(StoreError::NotFound);
            },
            Some(i) => i,
        };
        let ghost prev = self@;
        let mut kept: Vec<Vote> = Vec::new();
        let mut k: usize = 0;
        while k < self.votes.len()
            invariant
                self@ == prev,
                prev.wf(),
                k <= self.votes.len(),
                kept.len() <= k,
                vote_views(kept@) == votes_without_song(prev.votes.take(k as int), id as int),
                forall|a: int|
                    0 <= a < kept.len() ==> exists|m: int|
                        0 <= m < k && (#[trigger] vote_views(kept@)[a]) == prev.votes[m],
                forall|a: int|
                    0 <= a < kept.len() ==> (#[trigger] vote_views(kept@)[a]).song_id != id,
                forall|a: int, b: int|
                    #![trigger vote_views(kept@)[a], vote_views(kept@)[b]]
                    0 <= a < b < kept.len() ==> !(vote_views(kept@)[a].token == vote_views(
                        kept@,
                    )[b].token && vote_views(kept@)[a].song_id == vote_views(kept@)[b].song_id),
            decreases self.votes.len() - k,
        {
            proof {
                assert(prev.votes.take(k + 1).drop_last() =~= prev.votes.take(k as int));
            }
            if self.votes[k].song_id != id {
                let c = self.votes[k].copied();
                let ghost before = kept@;
                kept.push(c);
                proof {
                    assert(vote_views(kept@) =~= vote_views(before).push(c@));
                    assert(c@ == prev.votes[k as int]);
                    assert forall|a: int|
                        0 <= a < kept.len() implies exists|m: int|
                            0 <= m < k + 1 && (#[trigger] vote_views(kept@)[a]) == prev.votes[m] by {
                        if a == before.len() {
                            assert(vote_views(kept@)[a] == prev.votes[k as int]);
                        } else {
                            assert(vote_views(kept@)[a] == vote_views(before)[a]);
                        }
                    }
                    assert forall|a: int, b: int|
                        #![trigger vote_views(kept@)[a], vote_views(kept@)[b]]
                        0 <= a < b < kept.len() implies !(vote_views(kept@)[a].token == vote_views(
                            kept@,
                        )[b].token && vote_views(kept@)[a].song_id == vote_views(
                            kept@,
                        )[b].song_id) by {
                        assert(vote_views(kept@)[a] == vote_views(before)[a]);
                        if b == before.len() {
                            let m = choose|m: int|
                                0 <= m < k && (#[trigger] vote_views(before)[a]) == prev.votes[m];
                            assert(prev.votes[m] == prev.votes[m] && prev.votes[k as int]
                                == prev.votes[k as int]);
                        } else {
                            assert(vote_views(kept@)[b] == vote_views(before)[b]);
                        }
                    }
                }
            }
            k = k + 1;
        }
        proof {
            assert(prev.votes.take(k as int) =~= prev.votes);
        }
        self.votes = kept;
        let _ = self.songs.remove(i);
        proof {
            assert(self@.songs =~= prev.songs.remove(i as int));
            assert forall|a: int, b: int|
                #![trigger self@.songs[a], self@.songs[b]]
                0 <= a < b < self@.songs.len() implies self@.songs[a].id < self@.songs[b].id by {
                let a0 = if a < i { a } else { a + 1 };
                let b0 = if b < i { b } else { b + 1 };
                assert(self@.songs[a] == prev.songs[a0]);
                assert(self@.songs[b] == prev.songs[b0]);
                assert(prev.songs[a0] == prev.songs[a0] && prev.songs[b0] == prev.songs[b0]);
            }
            assert forall|a: int| 0 <= a < self@.songs.len() implies 1 <= #[trigger] self@.songs[a].id
                < self@.next_song_id by {
                let a0 = if a < i { a } else { a + 1 };
                assert(self@.songs[a] == prev.songs[a0]);
            }
            assert forall|v: int| 0 <= v < self@.votes.len() implies has_song(
                self@.songs,
                #[trigger] self@.votes[v].song_id,
            ) by {
                let m = choose|m: int| 0 <= m < k && (#[trigger] vote_views(kept@)[v]) == prev.votes[m];
                assert(self@.votes[v] == prev.votes[m]);
                let s0 = choose|s0: int| 0 <= s0 < prev.songs.len() && #[trigger] prev.songs[s0].id
                    == prev.votes[m].song_id;
                assert(s0 != i);
                if s0 < i {
                    assert(self@.songs[s0].id == self@.votes[v].song_id);
                } else {
                    assert(self@.songs[s0 - 1].id == self@.votes[v].song_id);
                }
            }
            assert(prev.songs[i as int].id == id);
        }
        Ok(())
    }

    /// The number of votes that song `id` holds.
    fn votes_for_song(&self, id: i32) -> (r: usize)
        requires
            self.wf(),
        ensures
            r == count_for_song(self@.votes, id as int),
            r <= self@.votes.len(),
    {
        let mut n: usize = 0;
        let mut i: usize = 0;
        while i < self.votes.len()
            invariant
                i <= self.votes.len(),
                n == count_for_song(self@.votes.take(i as int), id as int),
                n <= i,
            decreases self.votes.len() - i,
        {
            proof {
                assert(self@.votes.take(i + 1).drop_last() =~= self@.votes.take(i as int));
            }
            if self.votes[i].song_id == id {
                n = n + 1;
            }
            i = i + 1;
        }
        proof {
            assert(self@.votes.take(i as int) =~= self@.votes);
        }
        n
    }

    /// The tally: each song of the listing with its number of votes, most
    /// votes first, equal counts in order of song id.
    pub fn get_vote_results(&self, include_hidden: bool) -> (r: Vec<VoteResult>)
        requires
            self.wf(),
        ensures
            tally_ordered(row_views(r@)),
            row_views(r@).to_multiset() == tally_rows(
                self@.songs,
                self@.votes,
                include_hidden,
            ).to_multiset(),
            row_views(r@) == crate::tally::ordered_tally(self@.songs, self@.votes, include_hidden),
    {
        let mut r: Vec<VoteResult> = Vec::new();
        let mut i: usize = 0;
        proof {
            assert(row_views(r@) =~= Seq::<TallyRow>::empty());
            assert(self@.songs.take(0) =~= Seq::<SongView>::empty());
        }
        while i < self.songs.len()
            invariant
                self.wf(),
                i <= self.songs.len(),
                tally_ordered(row_views(r@)),
                row_views(r@).to_multiset() == tally_rows(
                    self@.songs.take(i as int),
                    self@.votes,
                    include_hidden,
                ).to_multiset(),
                forall|k: int, j: int|
                    0 <= k < r.len() && i <= j < self@.songs.len() ==> (#[trigger] row_views(
                        r@,
                    )[k]).song.id < #[trigger] self@.songs[j].id,
            decreases self.songs.len() - i,
        {
            proof {
                assert(self@.songs.take(i + 1).drop_last() =~= self@.songs.take(i as int));
            }
            if include_hidden || !self.songs[i].hidden {
                let n = self.votes_for_song(self.songs[i].id);
                let row = VoteResult { song: self.songs[i].copied(), vote_count: n as i64 };
                let ghost x = row@;
                let mut p: usize = 0;
                while p < r.len() && !(row.vote_count > r[p].vote_count || (row.vote_count
                    == r[p].vote_count && row.song.id < r[p].song.id))
                    invariant
                        p <= r.len(),
                        row@ == x,
                        forall|q: int| 0 <= q < p ==> ranks_before(#[trigger] row_views(r@)[q], x),
                        forall|k: int| 0 <= k < r.len() ==> (#[trigger] row_views(r@)[k]).song.id < x.song.id,
                    decreases r.len() - p,
                {
                    p = p + 1;
                }
                let ghost prev = row_views(r@);
                proof {
                    assert forall|q: int| p <= q < prev.len() implies ranks_before(x, #[trigger] prev[q]) by {
                        assert(ranks_before(x, prev[p as int]));
                        if q > p {
                            assert(ranks_before(prev[p as int], prev[q]));
                        }
                    }
                }
                r.insert(p, row);
                proof {
                    assert(row_views(r@) =~= prev.insert(p as int, x));
                    vstd::seq_lib::to_multiset_insert(prev, p as int, x);
                    vstd::seq_lib::to_multiset_build(
                        tally_rows(self@.songs.take(i as int), self@.votes, include_hidden),
                        x,
                    );
                    let cur = row_views(r@);
                    assert forall|a: int, b: int|
                        #![trigger cur[a], cur[b]]
                        0 <= a < b < cur.len() implies ranks_before(cur[a], cur[b]) by {
                        if b < p {
                            assert(cur[a] == prev[a] && cur[b] == prev[b]);
                        } else if b == p {
                            assert(cur[a] == prev[a]);
                        } else if a < p {
                            assert(cur[a] == prev[a] && cur[b] == prev[b - 1]);
                        } else if a == p {
                            assert(cur[b] == prev[b - 1]);
                        } else {
                            assert(cur[a] == prev[a - 1] && cur[b] == prev[b - 1]);
                        }
                    }
                    assert forall|k: int, j: int|
                        0 <= k < r.len() && i + 1 <= j < self@.songs.len() implies (#[trigger] row_views(
                            r@,
                        )[k]).song.id < #[trigger] self@.songs[j].id by {
                        assert(self@.songs[i as int].id < self@.songs[j].id);
                        if k < p {
                            assert(cur[k] == prev[k]);
                        } else if k > p {
                            assert(cur[k] == prev[k - 1]);
                        }
                    }
                }
            } else {
                proof {
                    assert forall|k: int, j: int|
                        0 <= k < r.len() && i + 1 <= j < self@.songs.len() implies (#[trigger] row_views(
                            r@,
                        )[k]).song.id < #[trigger] self@.songs[j].id by {
                        assert(self@.songs[i as int].id < self@.songs[j].id);
                    }
                }
            }
            i = i + 1;
        }
        proof {
            assert(self@.songs.take(i as int) =~= self@.songs);
            crate::tally::lemma_is_ordered_tally(
                self@.songs,
                self@.votes,
                include_hidden,
                row_views(r@),
            );
        }
        r
    }
}

} // verus!
