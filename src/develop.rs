use crate::database::{Database, StoreError};
use vstd::prelude::*;

verus! {

/// Fills the catalogue with two songs to try the application with.
pub fn create_setlist(db: &mut Database) -> (r: Result<(), StoreError>)
    requires
        old(db).wf(),
    ensures
        final(db).wf(),
        r is Ok <==> old(db)@.next_song_id + 1 < i32::MAX,
        r is Ok ==> {
            &&& final(db)@.votes == old(db)@.votes
            &&& final(db)@.songs.len() == old(db)@.songs.len() + 2
            &&& final(db)@.songs.take(old(db)@.songs.len() as int) == old(db)@.songs
            &&& final(db)@.songs[old(db)@.songs.len() as int].title == "Dubidub"@
            &&& final(db)@.songs[old(db)@.songs.len() as int].artist == "Me & My"@
            &&& final(db)@.songs[old(db)@.songs.len() as int + 1].title == "Romeo"@
            &&& final(db)@.songs[old(db)@.songs.len() as int + 1].artist == "Blå Øjne"@
            &&& final(db)@.songs[old(db)@.songs.len() as int + 1].description == None::<Seq<char>>
        },
{
    let ghost before = db@;
    let first = db.add_song(
        "Me & My",
        "Dubidub",
        Some("Svedig sang der hangler om dubber. En god gammel banger om gode gamle dubber"),
    );
    if first.is_err() {
        return Err(StoreError::Persistence);
    }
    let second = db.add_song("Blå Øjne", "Romeo", None);
    if second.is_err() {
        return Err(StoreError::Persistence);
    }
    proof {
        assert(db@.songs.take(before.songs.len() as int) =~= before.songs);
    }
    Ok(())
}

} // verus!
