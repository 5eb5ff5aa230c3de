//! The library against plain restatements of what it computes, on many
//! generated inputs.

use stardb_exporter::capture::{Command, Event, Phase, Worker};
use stardb_exporter::error::ExportError;
use stardb_exporter::extract::{extract, DecodedCommand, Entry, KindSet};
use stardb_exporter::pull::{candidate_url, find_candidates, first_step, next_step, ScanStep};
use stardb_exporter::text::decimal;
use stardb_exporter::version::{select_latest, CacheVersion};

/// A small generator of repeatable numbers.
struct Numbers(u64);

impl Numbers {
    fn next(&mut self) -> u64 {
        self.0 = self.0.wrapping_mul(6364136223846793005).wrapping_add(1442695040888963407);
        self.0 >> 33
    }

    fn below(&mut self, bound: u64) -> u64 {
        self.next() % bound
    }

    fn pick<'a, T>(&mut self, from: &'a [T]) -> &'a T {
        &from[self.below(from.len() as u64) as usize]
    }
}

fn addresses_by_text(blob: &[u8]) -> Vec<String> {
    let data = String::from_utf8_lossy(blob);
    let mut found = Vec::new();
    for line in data.split("1/0/").collect::<Vec<_>>().iter().rev() {
        if line.starts_with("https://") && line.contains("getGachaLog") {
            if let Some(url) = line.split('\0').next() {
                found.push(url.to_string());
            }
        }
    }
    found
}

#[test]
fn candidates_agree_with_a_scan_of_the_text() {
    let pieces: [&[u8]; 16] = [
        b"1/0/",
        b"1/0/",
        b"https://",
        b"https://",
        b"getGachaLog",
        b"getGachaLog",
        b"\0",
        b"1",
        b"/",
        b"0",
        b"1/0",
        b"/0/",
        b"a?b=c&d",
        b"\xff",
        b"\xe5\x8e\x9f",
        b"\xe5\x8e",
    ];
    let mut numbers = Numbers(1);
    for _ in 0..3000 {
        let mut blob = Vec::new();
        for _ in 0..numbers.below(14) {
            let piece: &&[u8] = numbers.pick(&pieces[..]);
            blob.extend_from_slice(piece);
        }
        let found = find_candidates(&blob);
        let urls: Vec<String> =
            found.iter().map(|c| candidate_url(&blob, *c).unwrap()).collect();
        assert_eq!(urls, addresses_by_text(&blob), "blob {:?}", blob);
        for pair in found.windows(2) {
            assert!(pair[0].start > pair[1].start);
        }
        for c in &found {
            assert!(c.start <= c.url_end && c.url_end <= c.segment_end && c.segment_end <= blob.len());
        }
    }
}

fn key_by_value(name: &str) -> Option<[u128; 4]> {
    let parts: Vec<&str> = name.split('.').collect();
    if parts.len() != 4 {
        return None;
    }
    let mut key = [0u128; 4];
    for (k, part) in parts.iter().enumerate() {
        if part.is_empty() || !part.bytes().all(|b| b.is_ascii_digit()) {
            return None;
        }
        key[k] = part.parse().ok()?;
    }
    Some(key)
}

#[test]
fn latest_version_agrees_with_a_comparison_of_values() {
    let parts = ["0", "1", "2", "9", "10", "11", "99", "100", "007", "00", "", "x", "1 "];
    let mut numbers = Numbers(2);
    for _ in 0..3000 {
        let mut names = Vec::new();
        for _ in 0..numbers.below(6) {
            let count = if numbers.below(8) == 0 { 3 + numbers.below(3) } else { 4 };
            let name: Vec<&str> = (0..count).map(|_| *numbers.pick(&parts[..])).collect();
            names.push(name.join("."));
        }
        for name in &names {
            assert_eq!(CacheVersion::parse(name).is_some(), key_by_value(name).is_some(), "{name:?}");
        }
        let mut best: Option<(usize, [u128; 4])> = None;
        for (i, name) in names.iter().enumerate() {
            if let Some(key) = key_by_value(name) {
                if best.map_or(true, |(_, held)| held < key) {
                    best = Some((i, key));
                }
            }
        }
        match best {
            Some((i, _)) => assert_eq!(select_latest(&names), Ok(i), "{names:?}"),
            None => assert_eq!(select_latest(&names), Err(ExportError::CacheNotFound)),
        }
    }
}

#[test]
fn decimal_agrees_with_the_formatter() {
    let mut numbers = Numbers(3);
    for n in 0..2000usize {
        assert_eq!(decimal(n), n.to_string());
    }
    for _ in 0..2000 {
        let n = (numbers.next() << (numbers.below(33) as u32)) as usize;
        assert_eq!(decimal(n), n.to_string());
    }
}

fn collect_by_hand(target: &[u32], stream: &[DecodedCommand]) -> Result<Vec<u32>, ExportError> {
    let mut achievements: Vec<u32> = Vec::new();
    for command in stream {
        let DecodedCommand::Achievements(entries) = command else {
            continue;
        };
        if !achievements.is_empty() {
            continue;
        }
        for e in entries {
            if target.contains(&e.id) && (e.status == 2 || e.status == 3) && !achievements.contains(&e.id) {
                achievements.push(e.id);
            }
        }
    }
    if achievements.is_empty() {
        return Err(ExportError::NoAchievementsFound);
    }
    Ok(achievements)
}

#[test]
fn extraction_agrees_with_a_plain_loop() {
    let mut numbers = Numbers(4);
    for _ in 0..3000 {
        let target: Vec<u32> = (0..numbers.below(5)).map(|_| numbers.below(6) as u32).collect();
        let mut stream = Vec::new();
        for _ in 0..numbers.below(5) {
            let entries: Vec<Entry> = (0..numbers.below(5))
                .map(|_| Entry { id: numbers.below(6) as u32, status: numbers.below(5) as u32 })
                .collect();
            stream.push(if numbers.below(4) == 0 {
                DecodedCommand::Quests(entries)
            } else {
                DecodedCommand::Achievements(entries)
            });
        }
        let expected = collect_by_hand(&target, &stream);
        let result = extract(target.clone(), KindSet { achievement: true, quest: false }, &stream);
        assert_eq!(result, expected);
        if let Ok(ids) = result {
            for (i, id) in ids.iter().enumerate() {
                assert!(target.contains(id));
                assert!(!ids[..i].contains(id));
            }
        }
    }
}

#[test]
fn search_agrees_with_a_walk_over_the_answers() {
    let mut numbers = Numbers(5);
    for _ in 0..3000 {
        let answers: Vec<bool> = (0..numbers.below(5)).map(|_| numbers.below(3) == 0).collect();
        let fallback = numbers.below(2) == 0;
        let expected = match answers.first() {
            None => ScanStep::NotFound,
            Some(true) => ScanStep::Found(0),
            Some(false) if !fallback => ScanStep::Outdated,
            Some(false) => match answers.iter().position(|a| *a) {
                Some(i) => ScanStep::Found(i),
                None => ScanStep::NotFound,
            },
        };
        let mut step = first_step(answers.len());
        let mut probes = 0;
        while let ScanStep::Probe(i) = step {
            assert_eq!(i, probes);
            probes += 1;
            step = next_step(answers.len(), i, answers[i], fallback);
        }
        assert_eq!(step, expected);
    }
}

#[test]
fn worker_restarts_only_after_a_capture() {
    let mut numbers = Numbers(6);
    for _ in 0..3000 {
        let mut worker = Worker::new();
        let mut captured = false;
        for _ in 0..numbers.below(12) {
            let event = match numbers.below(5) {
                0 => Event::Opened,
                1 => Event::OpenFailed,
                2 => Event::Packet(vec![1]),
                3 => Event::TimedOut,
                _ => Event::Failed,
            };
            let listening = worker.phase == Phase::Listening;
            if listening && matches!(event, Event::Packet(_)) {
                captured = true;
            }
            let failed = listening && matches!(event, Event::Failed);
            let timed_out = listening && matches!(event, Event::TimedOut);
            let step = worker.step(event);
            assert_eq!(worker.has_captured, captured);
            if worker.phase == Phase::Restarting {
                assert!(captured);
            }
            if failed {
                assert_eq!(worker.phase, if captured { Phase::Restarting } else { Phase::Idle });
                assert_eq!(step.command, if captured { Command::Open } else { Command::Stop });
            }
            if timed_out {
                assert_eq!(worker.phase, if captured { Phase::Listening } else { Phase::Idle });
            }
            assert_eq!(step.command, worker.command());
        }
    }
}
