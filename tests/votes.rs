use setlist_requests::database::{Database, StoreError};
use setlist_requests::errors::BadRequestError;
use setlist_requests::vote::{delete_vote, vote_for_song, MAX_VOTES};

fn two_songs() -> Database {
    let mut db = Database::new();
    db.add_song("Me & My", "Dubidub", None).unwrap();
    db.add_song("Blå Øjne", "Romeo", None).unwrap();
    db
}

fn counts(db: &Database, include_hidden: bool) -> Vec<(i32, i64)> {
    db.get_vote_results(include_hidden)
        .iter()
        .map(|r| (r.song.id, r.vote_count))
        .collect()
}

#[test]
fn scenario_two_songs_and_quota() {
    let mut db = two_songs();
    let setlist = db.get_setlist(false);
    assert_eq!(setlist.len(), 2);
    assert_eq!(setlist[0].id, 1);
    assert_eq!(setlist[0].title, "Dubidub");
    assert_eq!(setlist[0].artist, "Me & My");
    assert_eq!(setlist[1].id, 2);
    assert_eq!(setlist[1].title, "Romeo");
    assert_eq!(setlist[1].artist, "Blå Øjne");

    vote_for_song(&mut db, "ABCDEF", 1).unwrap();
    let outcome = vote_for_song(&mut db, "ABCDEF", 2).unwrap();
    assert_eq!(outcome.voter_count, 2);
    assert_eq!(db.vote_count_for_voter("ABCDEF"), 2);
    assert_eq!(counts(&db, false), vec![(1, 1), (2, 1)]);

    // A third voter casts five votes for song 1; repeated casts are one row.
    for _ in 0..5 {
        vote_for_song(&mut db, "GHIJKL", 1).unwrap();
    }
    assert_eq!(db.vote_count_for_voter("GHIJKL"), 1);
    for token in ["MNOPQR", "STUVWX", "YZABCD", "EFGHIJ"] {
        vote_for_song(&mut db, token, 1).unwrap();
    }
    assert_eq!(counts(&db, false), vec![(1, 6), (2, 1)]);

    // "ABCDEF" fills the quota with new songs, then a sixth cast is refused.
    for n in 3..6 {
        let song = db.add_song("Artist", &format!("Song {}", n), None).unwrap();
        vote_for_song(&mut db, "ABCDEF", song.id).unwrap();
    }
    assert_eq!(db.vote_count_for_voter("ABCDEF"), 5);
    let sixth = db.add_song("Artist", "Song 6", None).unwrap();
    assert_eq!(
        vote_for_song(&mut db, "ABCDEF", sixth.id).unwrap_err(),
        BadRequestError::TooManyVotes
    );
    assert_eq!(db.vote_count_for_voter("ABCDEF"), 5);
}

#[test]
fn quota_holds_after_many_attempts() {
    let mut db = Database::new();
    let mut ids = Vec::new();
    for n in 0..10 {
        ids.push(db.add_song("A", &format!("T{}", n), None).unwrap().id);
    }
    let mut refused = 0;
    for id in &ids {
        match vote_for_song(&mut db, "QQQQQQ", *id) {
            Ok(o) => assert!(o.voter_count <= MAX_VOTES),
            Err(e) => {
                assert_eq!(e, BadRequestError::TooManyVotes);
                refused += 1;
            }
        }
        assert!(db.vote_count_for_voter("QQQQQQ") <= MAX_VOTES);
    }
    assert_eq!(refused, 5);
    assert_eq!(db.vote_count_for_voter("QQQQQQ"), MAX_VOTES);
}

#[test]
fn casting_twice_keeps_one_row() {
    let mut db = two_songs();
    let first = vote_for_song(&mut db, "AAAAAA", 2).unwrap();
    let second = vote_for_song(&mut db, "AAAAAA", 2).unwrap();
    assert_eq!(first.voter_count, 1);
    assert_eq!(second.voter_count, 1);
    assert_eq!(second.song.id, 2);
    assert_eq!(db.get_votes("AAAAAA").iter().map(|v| v.song_id).collect::<Vec<_>>(), vec![2]);
    assert_eq!(counts(&db, false), vec![(2, 1), (1, 0)]);
}

#[test]
fn retracting_missing_vote_is_not_found() {
    let mut db = two_songs();
    vote_for_song(&mut db, "AAAAAA", 1).unwrap();
    let before = counts(&db, true);
    assert_eq!(
        delete_vote(&mut db, "AAAAAA", 2).unwrap_err(),
        BadRequestError::NotFound
    );
    assert_eq!(
        delete_vote(&mut db, "BBBBBB", 1).unwrap_err(),
        BadRequestError::NotFound
    );
    assert_eq!(db.delete_vote("AAAAAA", 9).unwrap_err(), StoreError::NotFound);
    assert_eq!(counts(&db, true), before);
    assert_eq!(db.vote_count_for_voter("AAAAAA"), 1);
}

#[test]
fn retracting_a_vote_lowers_the_count() {
    let mut db = two_songs();
    vote_for_song(&mut db, "AAAAAA", 1).unwrap();
    vote_for_song(&mut db, "AAAAAA", 2).unwrap();
    let outcome = delete_vote(&mut db, "AAAAAA", 1).unwrap();
    assert_eq!(outcome.song.id, 1);
    assert_eq!(outcome.voter_count, 1);
    assert_eq!(db.get_votes("AAAAAA").iter().map(|v| v.song_id).collect::<Vec<_>>(), vec![2]);
    assert_eq!(counts(&db, false), vec![(2, 1), (1, 0)]);
}

#[test]
fn casting_for_unknown_song_is_not_found() {
    let mut db = two_songs();
    assert_eq!(
        vote_for_song(&mut db, "AAAAAA", 42).unwrap_err(),
        BadRequestError::NotFound
    );
    assert_eq!(db.vote_count_for_voter("AAAAAA"), 0);
}

#[test]
fn tally_orders_by_count_then_id() {
    let mut db = Database::new();
    for n in 0..4 {
        db.add_song("A", &format!("T{}", n), None).unwrap();
    }
    // Votes arrive in an order unrelated to the song ids.
    vote_for_song(&mut db, "AAAAAA", 4).unwrap();
    vote_for_song(&mut db, "BBBBBB", 4).unwrap();
    vote_for_song(&mut db, "AAAAAA", 3).unwrap();
    vote_for_song(&mut db, "CCCCCC", 1).unwrap();
    let tally = counts(&db, false);
    assert_eq!(tally, vec![(4, 2), (1, 1), (3, 1), (2, 0)]);
    let total: i64 = tally.iter().map(|r| r.1).sum();
    assert_eq!(total, 4);

    let mut other = Database::new();
    for n in 0..4 {
        other.add_song("A", &format!("T{}", n), None).unwrap();
    }
    vote_for_song(&mut other, "CCCCCC", 1).unwrap();
    vote_for_song(&mut other, "AAAAAA", 3).unwrap();
    vote_for_song(&mut other, "BBBBBB", 4).unwrap();
    vote_for_song(&mut other, "AAAAAA", 4).unwrap();
    assert_eq!(counts(&other, false), tally);
}

#[test]
fn hidden_songs_leave_the_voter_tally() {
    let mut db = two_songs();
    vote_for_song(&mut db, "AAAAAA", 1).unwrap();
    vote_for_song(&mut db, "AAAAAA", 2).unwrap();
    vote_for_song(&mut db, "BBBBBB", 2).unwrap();
    let hidden = db.set_song_visibility(2, true).unwrap();
    assert!(hidden.hidden);
    assert_eq!(counts(&db, false), vec![(1, 1)]);
    assert_eq!(counts(&db, true), vec![(2, 2), (1, 1)]);
    assert_eq!(db.get_setlist(false).len(), 1);
    assert_eq!(db.get_setlist(true).len(), 2);
    let shown = db.set_song_visibility(2, false).unwrap();
    assert!(!shown.hidden);
    assert_eq!(counts(&db, false), vec![(2, 2), (1, 1)]);
    assert_eq!(db.set_song_visibility(7, true).unwrap_err(), StoreError::NotFound);
}

#[test]
fn clearing_votes_zeroes_the_tally() {
    let mut db = two_songs();
    vote_for_song(&mut db, "AAAAAA", 2).unwrap();
    vote_for_song(&mut db, "BBBBBB", 1).unwrap();
    vote_for_song(&mut db, "CCCCCC", 2).unwrap();
    db.clear_votes();
    assert_eq!(counts(&db, false), vec![(1, 0), (2, 0)]);
    assert_eq!(db.vote_count_for_voter("AAAAAA"), 0);
}

#[test]
fn deleting_a_song_removes_its_votes() {
    let mut db = two_songs();
    vote_for_song(&mut db, "AAAAAA", 1).unwrap();
    vote_for_song(&mut db, "AAAAAA", 2).unwrap();
    vote_for_song(&mut db, "BBBBBB", 1).unwrap();
    db.delete_song(1).unwrap();
    assert_eq!(db.vote_count_for_voter("AAAAAA"), 1);
    assert_eq!(db.vote_count_for_voter("BBBBBB"), 0);
    assert_eq!(counts(&db, true), vec![(2, 1)]);
    assert_eq!(db.delete_song(1).unwrap_err(), StoreError::NotFound);
    // Ids are not reused.
    assert_eq!(db.add_song("X", "Y", None).unwrap().id, 3);
}

#[test]
fn song_without_description_or_with_one() {
    let mut db = Database::new();
    let a = db.add_song("Artist", "Title", Some("About it")).unwrap();
    assert_eq!(a.description.as_deref(), Some("About it"));
    assert!(!a.hidden);
    let b = db.add_song("Artist", "Title", None).unwrap();
    assert_eq!(b.description, None);
    assert_eq!(b.id, 2);
}

#[test]
fn error_messages() {
    assert_eq!(BadRequestError::TooManyVotes.message(), "Too many votes");
    assert_eq!(BadRequestError::NotFound.message(), "Not found");
    assert_eq!(BadRequestError::StoreFailure.message(), "Store failure");
}
