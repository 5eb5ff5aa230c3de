use stardb_exporter::error::ExportError;
use stardb_exporter::game::Game;
use stardb_exporter::search::{pulls_from_game_path, Answer, PullSearch, Request};

const OLD: &str = "https://example.invalid/api/getGachaLog?authkey=old";
const NEW: &str = "https://example.invalid/api/getGachaLog?authkey=new";

fn listing(list: &[&str]) -> Vec<String> {
    list.iter().map(|s| s.to_string()).collect()
}

fn cache_blob() -> Vec<u8> {
    format!("head1/0/{OLD}\0x1/0/skip1/0/{NEW}\0y").into_bytes()
}

fn accepted() -> Answer {
    Answer::Reply(br#"{"retcode":0}"#.to_vec())
}

fn refused() -> Answer {
    Answer::Reply(br#"{"retcode":-101}"#.to_vec())
}

fn at_first_candidate(fallback: bool) -> PullSearch {
    let mut search = PullSearch::new(fallback);
    let request = search.advance(Answer::Versions(listing(&["2.9.0.0", "logs", "2.10.0.0"])));
    assert_eq!(
        request,
        Request::ReadBlob(listing(&["webCaches", "2.10.0.0", "Cache", "Cache_Data", "data_2"]))
    );
    let request = search.advance(Answer::Blob(cache_blob()));
    assert_eq!(request, Request::Fetch(NEW.to_string()));
    assert!(!search.is_done());
    search
}

#[test]
fn confirmed_latest_address_ends_the_search() {
    for fallback in [false, true] {
        let mut search = at_first_candidate(fallback);
        assert_eq!(search.advance(accepted()), Request::Finish(Ok(NEW.to_string())));
        assert!(search.is_done());
    }
}

#[test]
fn refused_latest_address_is_outdated_without_fallback() {
    let mut search = at_first_candidate(false);
    assert_eq!(search.advance(refused()), Request::Finish(Err(ExportError::PullUrlOutdated)));
    assert!(search.is_done());

    let mut search = at_first_candidate(false);
    assert_eq!(search.advance(Answer::NoReply), Request::Finish(Err(ExportError::PullUrlOutdated)));
}

#[test]
fn older_address_is_asked_about_with_fallback() {
    let mut search = at_first_candidate(true);
    assert_eq!(search.advance(refused()), Request::Fetch(OLD.to_string()));
    assert_eq!(search.advance(accepted()), Request::Finish(Ok(OLD.to_string())));

    let mut search = at_first_candidate(true);
    assert_eq!(search.advance(Answer::NoReply), Request::Fetch(OLD.to_string()));
    assert_eq!(search.advance(refused()), Request::Finish(Err(ExportError::PullUrlNotFound)));
    assert!(search.is_done());
}

#[test]
fn cache_without_versions_is_missing() {
    let mut search = PullSearch::new(false);
    assert_eq!(
        search.advance(Answer::Versions(listing(&["Cache", "1.2.3"]))),
        Request::Finish(Err(ExportError::CacheNotFound))
    );
    let mut search = PullSearch::new(false);
    assert_eq!(search.advance(Answer::NoVersions), Request::Finish(Err(ExportError::CacheNotFound)));
    assert!(search.is_done());
}

#[test]
fn unreadable_blob_ends_the_search() {
    let mut search = PullSearch::new(true);
    search.advance(Answer::Versions(listing(&["1.0.0.0"])));
    assert_eq!(search.advance(Answer::NoBlob), Request::Finish(Err(ExportError::BlobUnreadable)));
}

#[test]
fn blob_without_candidate_holds_no_address() {
    let mut search = PullSearch::new(true);
    search.advance(Answer::Versions(listing(&["1.0.0.0"])));
    assert_eq!(
        search.advance(Answer::Blob(b"1/0/nothing1/0/".to_vec())),
        Request::Finish(Err(ExportError::PullUrlNotFound))
    );
}

#[test]
fn answer_out_of_place_ends_the_search() {
    let mut search = PullSearch::new(true);
    assert_eq!(search.advance(accepted()), Request::Finish(Err(ExportError::PullUrlNotFound)));
    assert!(search.is_done());
    assert_eq!(
        search.advance(Answer::Versions(listing(&["1.0.0.0"]))),
        Request::Finish(Err(ExportError::PullUrlNotFound))
    );
}

#[test]
fn search_by_game() {
    for (game, outcome) in [
        (Game::Hsr, Request::Finish(Err(ExportError::PullUrlOutdated))),
        (Game::Gi, Request::Finish(Err(ExportError::PullUrlOutdated))),
        (Game::Zzz, Request::Fetch(OLD.to_string())),
    ] {
        let (mut search, request) = pulls_from_game_path(game);
        assert_eq!(request, Request::ListVersions);
        search.advance(Answer::Versions(listing(&["1.0.0.0"])));
        assert_eq!(search.advance(Answer::Blob(cache_blob())), Request::Fetch(NEW.to_string()));
        assert_eq!(search.advance(refused()), outcome);
    }
}
