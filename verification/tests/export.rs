use stardb_exporter::devices::{ConnectionStatus, NetworkDevice};
use stardb_exporter::error::ExportError;
use stardb_exporter::export::{AchievementExport, ExportAnswer, ExportRequest};
use stardb_exporter::extract::{DecodedCommand, Entry};
use stardb_exporter::game::Game;

const BUNDLE: &[u8] = br#"{"7": "AQID"}"#;

fn listed_device(name: &str, status: ConnectionStatus, addresses: usize, loopback: bool) -> NetworkDevice {
    NetworkDevice {
        name: name.to_string(),
        status,
        addresses: (0..addresses).map(|i| format!("10.0.0.{i}")).collect(),
        loopback,
    }
}

fn devices() -> Vec<NetworkDevice> {
    vec![
        listed_device("lo", ConnectionStatus::Connected, 1, true),
        listed_device("eth0", ConnectionStatus::Connected, 2, false),
        listed_device("eth1", ConnectionStatus::Disconnected, 1, false),
    ]
}

fn begun(game: Game, bundle: &[u8]) -> AchievementExport {
    let (export, request) = AchievementExport::start(game, bundle.to_vec()).unwrap();
    match request {
        ExportRequest::FetchIds(url) => assert_eq!(Some(url), game.achievement_ids_url()),
        _ => panic!("the first request fetches the ids"),
    }
    export
}

fn capturing(game: Game, target: Vec<u32>) -> AchievementExport {
    let mut export = begun(game, BUNDLE);
    assert!(matches!(export.advance(ExportAnswer::Ids(target)), ExportRequest::ListDevices));
    match export.advance(ExportAnswer::Devices(devices())) {
        ExportRequest::Capture { devices, settings, keys } => {
            assert_eq!(devices, vec![1]);
            assert_eq!(Some(settings.filter), game.capture_filter());
            assert!(settings.immediate && settings.promiscuous);
            assert_eq!(settings.timeout_ms, 0);
            assert_eq!(keys.get(7), Some(&vec![1u8, 2, 3]));
            assert_eq!(keys.len(), 1);
        }
        _ => panic!("the capture is asked for"),
    }
    assert!(!export.is_done());
    export
}

fn failure(request: ExportRequest) -> Option<ExportError> {
    match request {
        ExportRequest::Finish(Err(e)) => Some(e),
        _ => None,
    }
}

#[test]
fn export_ends_with_the_first_qualifying_record() {
    for game in [Game::Hsr, Game::Gi] {
        let mut export = capturing(game, vec![1, 2, 3]);
        let none = vec![
            DecodedCommand::Quests(vec![Entry { id: 1, status: 2 }]),
            DecodedCommand::Achievements(vec![Entry { id: 1, status: 1 }]),
        ];
        assert!(matches!(export.advance(ExportAnswer::Commands(none)), ExportRequest::Receive));
        assert!(matches!(export.advance(ExportAnswer::Undecodable), ExportRequest::Receive));
        assert!(matches!(export.advance(ExportAnswer::Commands(Vec::new())), ExportRequest::Receive));
        assert!(!export.is_done());
        let some = vec![
            DecodedCommand::Achievements(vec![Entry { id: 1, status: 2 }, Entry { id: 2, status: 3 }]),
            DecodedCommand::Achievements(vec![Entry { id: 3, status: 3 }]),
        ];
        match export.advance(ExportAnswer::Commands(some)) {
            ExportRequest::Finish(result) => assert_eq!(result, Ok(vec![1, 2])),
            _ => panic!("the export is over"),
        }
        assert!(export.is_done());
    }
}

#[test]
fn closed_stream_finds_no_achievements() {
    let mut export = capturing(Game::Hsr, vec![1, 2, 3]);
    let none = vec![DecodedCommand::Achievements(vec![Entry { id: 9, status: 2 }])];
    assert!(matches!(export.advance(ExportAnswer::Commands(none)), ExportRequest::Receive));
    assert_eq!(failure(export.advance(ExportAnswer::Closed)), Some(ExportError::NoAchievementsFound));
    assert!(export.is_done());
}

#[test]
fn capture_is_asked_for_without_a_usable_device_too() {
    let mut export = begun(Game::Gi, BUNDLE);
    export.advance(ExportAnswer::Ids(vec![1]));
    match export.advance(ExportAnswer::Devices(Vec::new())) {
        ExportRequest::Capture { devices, .. } => assert!(devices.is_empty()),
        _ => panic!("the capture is asked for"),
    }
    assert_eq!(failure(export.advance(ExportAnswer::Closed)), Some(ExportError::NoAchievementsFound));
}

#[test]
fn ids_that_cannot_be_fetched_end_the_export() {
    let mut export = begun(Game::Hsr, BUNDLE);
    assert_eq!(failure(export.advance(ExportAnswer::NoIds)), Some(ExportError::NetworkRequestFailure));
    assert!(export.is_done());
}

#[test]
fn devices_that_cannot_be_listed_end_the_export() {
    let mut export = begun(Game::Hsr, BUNDLE);
    export.advance(ExportAnswer::Ids(vec![1]));
    assert_eq!(
        failure(export.advance(ExportAnswer::NoDevices)),
        Some(ExportError::DeviceEnumerationFailure)
    );
    assert!(export.is_done());
}

#[test]
fn broken_key_bundle_ends_the_export() {
    let mut export = begun(Game::Gi, br#"{"65536": "AQID"}"#);
    export.advance(ExportAnswer::Ids(vec![1]));
    assert_eq!(
        failure(export.advance(ExportAnswer::Devices(devices()))),
        Some(ExportError::KeyBundleInvalid)
    );
    assert!(export.is_done());
}

#[test]
fn export_is_offered_only_where_achievements_can_be_read() {
    assert!(AchievementExport::start(Game::Hsr, Vec::new()).is_some());
    assert!(AchievementExport::start(Game::Gi, Vec::new()).is_some());
    assert!(AchievementExport::start(Game::Zzz, Vec::new()).is_none());
    assert!(Game::Zzz.achievements(Vec::new()).is_none());
    let (export, request) = Game::Gi.achievements(BUNDLE.to_vec()).unwrap();
    assert!(!export.is_done());
    assert!(matches!(request, ExportRequest::FetchIds(url) if url == "https://stardb.gg/api/gi/achievements"));
}

#[test]
fn answer_out_of_place_ends_the_export() {
    let mut export = begun(Game::Gi, BUNDLE);
    assert_eq!(failure(export.advance(ExportAnswer::Undecodable)), Some(ExportError::NoAchievementsFound));
    assert!(export.is_done());

    let mut export = begun(Game::Hsr, BUNDLE);
    assert_eq!(failure(export.advance(ExportAnswer::Closed)), Some(ExportError::NoAchievementsFound));
    assert!(export.is_done());
    assert_eq!(
        failure(export.advance(ExportAnswer::Ids(vec![1]))),
        Some(ExportError::NoAchievementsFound)
    );
}
