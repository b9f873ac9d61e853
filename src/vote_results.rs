use crate::database::{row_views, Database, TallyRow, VoteResult};
use crate::page::{page, page_text};
use crate::tally::ordered_tally;
use crate::view::{decimal, escaped, push_decimal, push_escaped, View};
use vstd::prelude::*;
use vstd::view::View as _;

verus! {

const ROW_OPEN: &'static str = "<tr class=\"odd:bg-gray-50 odd:dark:bg-neutral-950\"><td class=\"py-3 px-6\">";

const CELL_NEXT: &'static str = "</td><td class=\"py-3 px-6\">";

const ROW_CLOSE: &'static str = "</td></tr>";

const TABLE_OPEN: &'static str = "<div id=\"vote-results\" class=\"w-full max-w-lg rounded-lg border border-neutral-700 overflow-clip\"><table class=\"w-full text-left table-auto\"><tr class=\"font-bold border-b border-gray-700 bg-neutral-950\"><th class=\"py-3 px-6\">Title</th><th class=\"py-3 px-6\">Artist</th><th class=\"py-3 px-6\">Votes</th></tr>";

const TABLE_CLOSE: &'static str = "</table></div>";

const RESULTS_SCRIPT: &'static str = "<script src=\"/assets/scripts/vote-updates.js?version=1\"></script>";

/// One line of the results table: title, artist and count of a row.
pub closed spec fn result_row_text(r: TallyRow) -> Seq<char> {
    ROW_OPEN@ + escaped(r.song.title) + CELL_NEXT@ + escaped(r.song.artist) + CELL_NEXT@ + decimal(
        r.vote_count,
    ) + ROW_CLOSE@
}

pub closed spec fn result_rows_text(rows: Seq<TallyRow>) -> Seq<char>
    decreases rows.len(),
{
    if rows.len() == 0 {
        Seq::empty()
    } else {
        result_rows_text(rows.drop_last()) + result_row_text(rows.last())
    }
}

/// The results table, one line per row in the order given.
pub closed spec fn results_text(rows: Seq<TallyRow>) -> Seq<char> {
    TABLE_OPEN@ + result_rows_text(rows) + TABLE_CLOSE@
}

pub closed spec fn results_page_text(rows: Seq<TallyRow>) -> Seq<char> {
    page_text(results_text(rows) + RESULTS_SCRIPT@, Seq::empty(), "Vote results"@)
}

/// The results table of a tally.
pub fn vote_results(rows: &Vec<VoteResult>) -> (r: View)
    ensures
        r@ == results_text(row_views(rows@)),
{
    let mut out = String::from_str(TABLE_OPEN);
    let mut i: usize = 0;
    while i < rows.len()
        invariant
            i <= rows.len(),
            out@ == TABLE_OPEN@ + result_rows_text(row_views(rows@.take(i as int))),
        decreases rows.len() - i,
    {
        let row = &rows[i];
        out.append(ROW_OPEN);
        push_escaped(&mut out, row.song.title.as_str());
        out.append(CELL_NEXT);
        push_escaped(&mut out, row.song.artist.as_str());
        out.append(CELL_NEXT);
        push_decimal(&mut out, row.vote_count);
        out.append(ROW_CLOSE);
        proof {
            let prev = row_views(rows@.take(i as int));
            assert(row_views(rows@.take(i + 1)) =~= prev.push(rows@[i as int]@));
            assert(row_views(rows@.take(i + 1)).drop_last() =~= prev);
            assert(out@ =~= TABLE_OPEN@ + result_rows_text(prev) + result_row_text(rows@[i as int]@));
        }
        i = i + 1;
    }
    out.append(TABLE_CLOSE);
    proof {
        assert(rows@.take(i as int) =~= rows@);
    }
    View::new(out)
}

/// The table that live viewers receive: the tally of the songs shown to voters.
pub fn tally_snapshot(db: &Database) -> (r: View)
    requires
        db.wf(),
    ensures
        r@ == results_text(ordered_tally(db@.songs, db@.votes, false)),
{
    let rows = db.get_vote_results(false);
    vote_results(&rows)
}

/// The results page, which keeps itself up to date from the live tally.
pub fn vote_result_page(db: &Database) -> (r: View)
    requires
        db.wf(),
    ensures
        r@ == results_page_text(ordered_tally(db@.songs, db@.votes, false)),
{
    let table = tally_snapshot(db);
    let mut out = table.into_string();
    out.append(RESULTS_SCRIPT);
    page(View::new(out), "Vote results")
}

} // verus!
