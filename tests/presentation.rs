use setlist_requests::database::Database;
use setlist_requests::develop::create_setlist;
use setlist_requests::identity::{ensure_identity, is_well_formed_token, new_token};
use setlist_requests::page::{index_page, page, page_with_view_before};
use setlist_requests::setlist::{add_song, hide_song, setlist_page, unhide_song, CreateSongInput};
use setlist_requests::view::{push_count, push_decimal, push_escaped, View};
use setlist_requests::viewer::{viewer_opened, viewer_step, ViewerAction, ViewerEvent, ViewerPhase};
use setlist_requests::vote::{outcome_view, song_card, vote_for_song, vote_songs};
use setlist_requests::vote_results::{tally_snapshot, vote_result_page, vote_results};

#[test]
fn decimal_text() {
    let mut s = String::from("n=");
    push_decimal(&mut s, 0);
    push_decimal(&mut s, -42);
    push_decimal(&mut s, 1907);
    push_decimal(&mut s, i64::MIN);
    assert_eq!(s, "n=0-421907-9223372036854775808");
    let mut c = String::new();
    push_count(&mut c, 5);
    assert_eq!(c, "5");
}

#[test]
fn escaping_text() {
    let mut s = String::new();
    push_escaped(&mut s, "Me & My <b>\"x\"</b> Blå");
    assert_eq!(s, "Me &amp; My &lt;b&gt;&quot;x&quot;&lt;/b&gt; Blå");
}

#[test]
fn join_views() {
    let v = View::join(&vec![View::new("<a>".to_string()), View::empty(), View::new("b".to_string())]);
    assert_eq!(v.to_string(), "<a>b");
}

#[test]
fn pages_wrap_their_parts() {
    let p = page(View::new("<p>body</p>".to_string()), "Title & more");
    let text = p.into_string();
    assert!(text.starts_with("<!DOCTYPE html>"));
    assert!(text.contains("<title>Title &amp; more</title>"));
    assert!(text.contains("<div class=\"flex w-full justify-center p-4\"><p>body</p></div>"));
    let q = page_with_view_before(View::new("B".to_string()), View::new("<nav-extra>".to_string()), "T");
    let text = q.into_string();
    let before = text.find("<nav-extra>").unwrap();
    let body = text.find(">B</div>").unwrap();
    assert!(before < body);
    assert!(index_page().into_string().contains("href=\"/vote\""));
}

#[test]
fn voter_cards() {
    let mut db = Database::new();
    let song = db.add_song("Me & My", "Dubidub", Some("Old <banger>")).unwrap();
    let open = song_card(false, song.copied()).into_string();
    assert!(open.starts_with("<button hx-post=\"/vote/1\""));
    assert!(open.contains("id=\"song-1\""));
    assert!(open.contains("Dubidub"));
    assert!(open.contains("Me &amp; My"));
    assert!(open.contains("<p class=\"pt-2 text-left\">Old &lt;banger&gt;</p>"));
    let voted = song_card(true, song).into_string();
    assert!(voted.starts_with("<button hx-delete=\"/vote/1\""));
    assert!(voted.contains("border-blue-500"));
}

#[test]
fn voting_page_marks_votes_and_counts() {
    let mut db = Database::new();
    create_setlist(&mut db).unwrap();
    let outcome = vote_for_song(&mut db, "ABCDEF", 2).unwrap();
    let swap = outcome_view(true, outcome).into_string();
    assert!(swap.ends_with("<span id=\"current_votes\" hx-swap-oob=\"true\">1</span>"));
    let text = vote_songs(&db, "ABCDEF").into_string();
    assert!(text.contains("hx-post=\"/vote/1\""));
    assert!(text.contains("hx-delete=\"/vote/2\""));
    assert!(text.contains("<span id=\"current_votes\">1</span>"));
    assert!(text.contains("<span>5</span>"));
    let first = text.find("Dubidub").unwrap();
    let second = text.find("Romeo").unwrap();
    assert!(first < second);
}

#[test]
fn results_table_follows_the_tally() {
    let mut db = Database::new();
    create_setlist(&mut db).unwrap();
    vote_for_song(&mut db, "ABCDEF", 2).unwrap();
    let rows = db.get_vote_results(false);
    let table = vote_results(&rows).into_string();
    let romeo = table.find("<td class=\"py-3 px-6\">Romeo</td>").unwrap();
    let dubidub = table.find("<td class=\"py-3 px-6\">Dubidub</td>").unwrap();
    assert!(romeo < dubidub);
    assert!(table.contains("Blå Øjne</td><td class=\"py-3 px-6\">1</td>"));
    assert_eq!(tally_snapshot(&db).into_string(), table);
    let page = vote_result_page(&db).into_string();
    assert!(page.contains(&table));
    assert!(page.contains("vote-updates.js"));
}

#[test]
fn organizer_cards_and_page() {
    let mut db = Database::new();
    let input = CreateSongInput {
        title: "Dubidub".to_string(),
        artist: "Me & My".to_string(),
        description: String::new(),
    };
    assert_eq!(input.description(), None);
    let card = add_song(&mut db, &input).unwrap().into_string();
    assert!(card.starts_with("<div id=\"song-1\""));
    assert!(card.contains("title=\"Hide song\""));
    assert!(!card.contains("<p class=\"pt-2\">"));
    assert_eq!(db.get_setlist(true)[0].description, None);
    let hidden = hide_song(&mut db, 1).unwrap().into_string();
    assert!(hidden.contains("title=\"Unhide song\""));
    assert!(hidden.contains("hx-put=\"/setlist/1/unhide\""));
    assert!(hidden.contains("text-neutral-500"));
    assert!(db.get_setlist(false).is_empty());
    let page = setlist_page(&db).into_string();
    assert!(page.contains("Clear votes"));
    assert!(page.contains("id=\"song-1\""));
    let shown = unhide_song(&mut db, 1).unwrap().into_string();
    assert!(shown.contains("hx-put=\"/setlist/1/hide\""));
    assert!(hide_song(&mut db, 5).is_err());
    let with_text = CreateSongInput {
        title: "T".to_string(),
        artist: "A".to_string(),
        description: "D".to_string(),
    };
    assert_eq!(with_text.description(), Some("D"));
}

#[test]
fn identity_tokens() {
    let fresh = new_token();
    assert_eq!(fresh.chars().count(), 6);
    assert!(fresh.chars().all(|c| c.is_ascii_uppercase()));
    assert!(is_well_formed_token(&fresh));
    assert_eq!(ensure_identity(Some("ABCDEF".to_string())), "ABCDEF");
    let replaced = ensure_identity(Some("abc".to_string()));
    assert_ne!(replaced, "abc");
    assert!(is_well_formed_token(&replaced));
    assert!(is_well_formed_token(&ensure_identity(None)));
    assert!(!is_well_formed_token("ABCDE1"));
    assert!(!is_well_formed_token("ABCDEFG"));
    assert!(!is_well_formed_token("ABCDEf"));
}

#[test]
fn viewer_connection_steps() {
    assert_eq!(viewer_opened(), (ViewerPhase::Sending, ViewerAction::SendLatest));
    assert_eq!(
        viewer_step(ViewerPhase::Sending, ViewerEvent::Sent),
        (ViewerPhase::Waiting, ViewerAction::AwaitChange)
    );
    assert_eq!(
        viewer_step(ViewerPhase::Waiting, ViewerEvent::Changed),
        (ViewerPhase::Sending, ViewerAction::SendLatest)
    );
    assert_eq!(
        viewer_step(ViewerPhase::Sending, ViewerEvent::SendFailed),
        (ViewerPhase::Closed, ViewerAction::Stop)
    );
    assert_eq!(
        viewer_step(ViewerPhase::Waiting, ViewerEvent::HubClosed),
        (ViewerPhase::Closed, ViewerAction::Stop)
    );
    assert_eq!(
        viewer_step(ViewerPhase::Closed, ViewerEvent::Changed),
        (ViewerPhase::Closed, ViewerAction::Stop)
    );
}

#[test]
fn two_viewers_both_send_the_latest_after_a_publish() {
    // One viewer is waiting, the other is mid-send when the tally changes.
    let (a, _) = viewer_step(ViewerPhase::Sending, ViewerEvent::Sent);
    let b = ViewerPhase::Sending;
    let (a, act_a) = viewer_step(a, ViewerEvent::Changed);
    assert_eq!(act_a, ViewerAction::SendLatest);
    // The second viewer is told to send the latest tally once more.
    let (b, act_b) = viewer_step(b, ViewerEvent::Changed);
    assert_eq!(act_b, ViewerAction::SendLatest);
    assert_eq!(a, ViewerPhase::Sending);
    assert_eq!(b, ViewerPhase::Sending);
    let (b, act_b) = viewer_step(b, ViewerEvent::Sent);
    assert_eq!(act_b, ViewerAction::AwaitChange);
    assert_eq!(b, ViewerPhase::Waiting);
}
