use stardb_exporter::error::ExportError;
use stardb_exporter::extract::{
    extract, holds, sniff, CommandKind, DecodedCommand, Entry, Extractor, KindSet, STATUS_CLAIMED,
    STATUS_COMPLETE,
};

fn done(id: u32) -> Entry {
    Entry { id, status: STATUS_COMPLETE }
}

fn claimed(id: u32) -> Entry {
    Entry { id, status: STATUS_CLAIMED }
}

fn achievements_only() -> KindSet {
    KindSet::only(CommandKind::Achievement)
}

#[test]
fn first_record_of_a_kind_wins() {
    let stream = vec![
        DecodedCommand::Achievements(vec![done(1), claimed(2)]),
        DecodedCommand::Achievements(vec![done(1), claimed(2), done(3)]),
    ];
    let result = extract(vec![1, 2, 3], achievements_only(), &stream);
    assert_eq!(result, Ok(vec![1, 2]));
}

#[test]
fn result_stays_within_target_and_has_no_duplicates() {
    let stream = vec![DecodedCommand::Achievements(vec![
        done(7),
        done(1),
        claimed(1),
        done(9),
        claimed(3),
        done(3),
        done(1),
    ])];
    let target = vec![1, 2, 3];
    let result = extract(target.clone(), achievements_only(), &stream).unwrap();
    assert_eq!(result, vec![1, 3]);
    for id in &result {
        assert!(target.contains(id));
    }
}

#[test]
fn stream_without_qualifying_entry_finds_no_achievements() {
    let stream = vec![
        DecodedCommand::Achievements(vec![Entry { id: 1, status: 1 }, done(8)]),
        DecodedCommand::Achievements(vec![]),
        DecodedCommand::Quests(vec![done(1)]),
    ];
    let result = extract(vec![1, 2, 3], achievements_only(), &stream);
    assert_eq!(result, Err(ExportError::NoAchievementsFound));
}

#[test]
fn empty_stream_finds_no_achievements() {
    let result = extract(vec![1, 2, 3], achievements_only(), &Vec::new());
    assert_eq!(result, Err(ExportError::NoAchievementsFound));
}

#[test]
fn empty_target_finds_no_achievements() {
    let stream = vec![DecodedCommand::Achievements(vec![done(1), done(2)])];
    let result = extract(Vec::new(), achievements_only(), &stream);
    assert_eq!(result, Err(ExportError::NoAchievementsFound));
}

#[test]
fn only_complete_and_claimed_count() {
    let entries = vec![
        Entry { id: 1, status: 0 },
        Entry { id: 2, status: 1 },
        Entry { id: 3, status: 2 },
        Entry { id: 4, status: 3 },
        Entry { id: 5, status: 4 },
    ];
    let stream = vec![DecodedCommand::Achievements(entries)];
    let result = extract(vec![1, 2, 3, 4, 5], achievements_only(), &stream);
    assert_eq!(result, Ok(vec![3, 4]));
}

#[test]
fn record_without_qualifying_entry_leaves_its_kind_open() {
    let stream = vec![
        DecodedCommand::Achievements(vec![Entry { id: 1, status: 1 }]),
        DecodedCommand::Achievements(vec![done(2)]),
        DecodedCommand::Achievements(vec![done(3)]),
    ];
    let result = extract(vec![1, 2, 3], achievements_only(), &stream);
    assert_eq!(result, Ok(vec![2]));
}

#[test]
fn unwanted_kind_is_passed_over() {
    let stream = vec![
        DecodedCommand::Quests(vec![done(1)]),
        DecodedCommand::Achievements(vec![done(2)]),
    ];
    let result = extract(vec![1, 2], achievements_only(), &stream);
    assert_eq!(result, Ok(vec![2]));
}

#[test]
fn every_wanted_kind_must_be_read() {
    let both = KindSet { achievement: true, quest: true };
    let only_one = vec![DecodedCommand::Achievements(vec![done(1)])];
    assert_eq!(extract(vec![1, 2], both, &only_one), Err(ExportError::NoAchievementsFound));

    let each = vec![
        DecodedCommand::Achievements(vec![done(1)]),
        DecodedCommand::Achievements(vec![done(2)]),
        DecodedCommand::Quests(vec![done(1), claimed(2)]),
        DecodedCommand::Quests(vec![done(2)]),
    ];
    assert_eq!(extract(vec![1, 2], both, &each), Ok(vec![1, 2]));
}

#[test]
fn no_wanted_kind_gives_nothing() {
    let stream = vec![DecodedCommand::Achievements(vec![done(1)])];
    let result = extract(vec![1], KindSet::none(), &stream);
    assert_eq!(result, Err(ExportError::NoAchievementsFound));
}

#[test]
fn extractor_is_complete_after_the_first_qualifying_record() {
    let mut extractor = Extractor::new(vec![10, 20], achievements_only());
    assert!(!extractor.is_complete());
    extractor.observe(&DecodedCommand::Achievements(vec![done(30)]));
    assert!(!extractor.is_complete());
    assert!(extractor.collected().is_empty());
    extractor.observe(&DecodedCommand::Achievements(vec![claimed(20)]));
    assert!(extractor.is_complete());
    assert_eq!(extractor.collected(), &vec![20]);
    extractor.observe(&DecodedCommand::Achievements(vec![done(10), done(20)]));
    assert_eq!(extractor.collected(), &vec![20]);
    assert_eq!(extractor.finish(), Ok(vec![20]));
}

#[test]
fn unfinished_extractor_ends_without_a_result() {
    let extractor = Extractor::new(vec![10, 20], achievements_only());
    assert_eq!(extractor.finish(), Err(ExportError::NoAchievementsFound));
}

#[test]
fn command_tells_kind_and_entries() {
    let a = DecodedCommand::Achievements(vec![done(1)]);
    let q = DecodedCommand::Quests(vec![]);
    assert_eq!(a.kind(), CommandKind::Achievement);
    assert_eq!(q.kind(), CommandKind::Quest);
    assert_eq!(a.entries(), &vec![done(1)]);
    assert!(q.entries().is_empty());
}

#[test]
fn kind_sets() {
    assert!(KindSet::only(CommandKind::Quest).contains(CommandKind::Quest));
    assert!(!KindSet::only(CommandKind::Quest).contains(CommandKind::Achievement));
    assert!(!KindSet::none().contains(CommandKind::Achievement));
    assert!(!KindSet::none().contains(CommandKind::Quest));
}

#[test]
fn holds_finds_ids() {
    assert!(holds(&vec![4, 5, 6], 6));
    assert!(!holds(&vec![4, 5, 6], 7));
    assert!(!holds(&Vec::new(), 0));
}

#[test]
fn commands_of_a_packet_are_read_in_order() {
    let mut extractor = Extractor::new(vec![1, 2, 3], KindSet { achievement: true, quest: true });
    extractor.observe_all(&vec![
        DecodedCommand::Quests(vec![done(3)]),
        DecodedCommand::Quests(vec![done(1)]),
        DecodedCommand::Achievements(vec![done(1), done(3)]),
    ]);
    assert!(extractor.is_complete());
    assert_eq!(extractor.finish(), Ok(vec![3, 1]));
}

#[test]
fn sniff_reads_the_first_achievement_record() {
    let stream = vec![
        DecodedCommand::Quests(vec![done(3)]),
        DecodedCommand::Achievements(vec![done(1), claimed(2), done(4)]),
        DecodedCommand::Achievements(vec![done(3)]),
    ];
    assert_eq!(sniff(&[1, 2, 3], &stream), Ok(vec![1, 2]));
    assert_eq!(sniff(&[9], &stream), Err(ExportError::NoAchievementsFound));
    assert_eq!(sniff(&[1], &Vec::new()), Err(ExportError::NoAchievementsFound));
}
