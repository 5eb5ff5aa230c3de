//! Finding a game's data directory in the client log.
//!
//! Each client writes a line that names its data directory. How that line
//! is told from the others, and how the directory is read off it, differs
//! from game to game. The first such line of the log decides.

use vstd::prelude::*;
use vstd::string::*;
use crate::error::ExportError;
use crate::game::Game;
use crate::outside::{find_pattern, leftmost_match, parent_of, pattern_compiles};
use crate::text::{after_prefix, before_suffix, is_suffix};

verus! {

/// What the line of a Star Rail log that names the directory begins with.
/// A file below the data directory follows.
pub open spec fn hsr_marker() -> Seq<char> {
    "Loading player data from "@
}

/// What the line of a Zenless Zone Zero log that names the directory begins
/// with. A folder below the data directory follows.
pub open spec fn zzz_marker() -> Seq<char> {
    "[Subsystems] Discovering subsystems at path "@
}

/// What the path that a Zenless Zone Zero log names ends with.
pub open spec fn zzz_suffix() -> Seq<char> {
    "/UnitySubsystems"@
}

/// The pattern that finds the data directory of Genshin Impact on a line: a
/// drive letter, a colon and a backslash, and everything up to the last
/// mention of the data directory's name.
pub open spec fn gi_pattern() -> Seq<char> {
    ".:\\\\.+(GenshinImpact_Data|YuanShen_Data)"@
}

/// `at` is the first line of `lines` that begins with `marker`.
pub open spec fn first_marked(marker: Seq<char>, lines: Seq<String>, at: int) -> bool {
    &&& 0 <= at < lines.len()
    &&& marker.is_prefix_of(lines[at]@)
    &&& forall|j: int| 0 <= j < at ==> !marker.is_prefix_of((#[trigger] lines[j])@)
}

/// No line of `lines` begins with `marker`.
pub open spec fn unmarked(marker: Seq<char>, lines: Seq<String>) -> bool {
    forall|i: int| 0 <= i < lines.len() ==> !marker.is_prefix_of((#[trigger] lines[i])@)
}

/// `at` is the first line of `lines` in which `pattern` has a match.
pub open spec fn first_hit(pattern: Seq<char>, lines: Seq<String>, at: int) -> bool {
    &&& 0 <= at < lines.len()
    &&& leftmost_match(pattern, lines[at]@) is Some
    &&& forall|j: int| 0 <= j < at ==> leftmost_match(pattern, (#[trigger] lines[j])@) is None
}

/// No line of `lines` has a match of `pattern`.
pub open spec fn no_hit(pattern: Seq<char>, lines: Seq<String>) -> bool {
    forall|i: int| 0 <= i < lines.len() ==> leftmost_match(pattern, (#[trigger] lines[i])@) is None
}

/// `found` is the text `text`.
pub open spec fn gives(found: Result<String, ExportError>, text: Seq<char>) -> bool {
    found matches Ok(t) && t@ == text
}

/// `found` is a leading part of the text `text`.
pub open spec fn gives_part_of(found: Result<String, ExportError>, text: Seq<char>) -> bool {
    found matches Ok(t) && t@.is_prefix_of(text)
}

/// `found` is the failure `e`.
pub open spec fn fails(found: Result<String, ExportError>, e: ExportError) -> bool {
    found matches Err(f) && f == e
}

/// The first line of `lines` that begins with `marker`: its index, and what
/// follows the marker on it.
pub fn find_marked(lines: &Vec<String>, marker: &str) -> (found: Option<(usize, String)>)
    ensures
        match found {
            Some((at, rest)) => first_marked(marker@, lines@, at as int) && rest@ == lines[at as int]@.skip(
                marker@.len() as int,
            ),
            None => unmarked(marker@, lines@),
        },
{
    let mut i: usize = 0;
    while i < lines.len()
        invariant
            i <= lines.len(),
            forall|j: int| 0 <= j < i ==> !marker@.is_prefix_of((#[trigger] lines[j])@),
        decreases lines.len() - i,
    {
        if let Some(rest) = after_prefix(lines[i].as_str(), marker) {
            return Some((i, rest));
        }
        i += 1;
    }
    None
}

/// What a search of `lines` for `pattern` comes to: the match on the first
/// line that has one, `GamePathNotFound` where no line has one, and
/// `MarkerPatternInvalid` where there are lines and the pattern is refused.
pub open spec fn matched(pattern: Seq<char>, lines: Seq<String>, found: Result<String, ExportError>) -> bool {
    if lines.len() > 0 && !pattern_compiles(pattern) {
        fails(found, ExportError::MarkerPatternInvalid)
    } else {
        &&& no_hit(pattern, lines) ==> fails(found, ExportError::GamePathNotFound)
        &&& forall|at: int|
            first_hit(pattern, lines, at) ==> gives(found, leftmost_match(pattern, lines[at]@).unwrap())
    }
}

/// Searches `lines` for `pattern` and hands back the match on the first
/// line that has one.
pub fn first_match(pattern: &str, lines: &Vec<String>) -> (found: Result<String, ExportError>)
    ensures
        matched(pattern@, lines@, found),
{
    let mut i: usize = 0;
    while i < lines.len()
        invariant
            i <= lines.len(),
            i > 0 ==> pattern_compiles(pattern@),
            forall|j: int| 0 <= j < i ==> leftmost_match(pattern@, (#[trigger] lines[j])@) is None,
        decreases lines.len() - i,
    {
        match find_pattern(pattern, lines[i].as_str()) {
            Ok(Some(text)) => {
                return Ok(text);
            },
            Ok(None) => {},
            Err(_) => {
                return Err(ExportError::MarkerPatternInvalid);
            },
        }
        i += 1;
    }
    Err(ExportError::GamePathNotFound)
}

/// The data directory of Star Rail, given the path that its log names and
/// the parent of that path, if it has one: the parent, or else the path
/// itself.
pub fn hsr_directory(logged: String, parent: Option<String>) -> (dir: String)
    ensures
        dir@ == (match parent {
            Some(p) => p@,
            None => logged@,
        }),
{
    match parent {
        Some(p) => p,
        None => logged,
    }
}

/// The data directory of Zenless Zone Zero, given the path that its log
/// names: the path without its known ending. A path that ends otherwise
/// names no directory.
pub fn zzz_directory(logged: &str) -> (dir: Result<String, ExportError>)
    ensures
        if is_suffix(zzz_suffix(), logged@) {
            gives(dir, logged@.take(logged@.len() - zzz_suffix().len()))
        } else {
            fails(dir, ExportError::GamePathNotFound)
        },
{
    match before_suffix(logged, "/UnitySubsystems") {
        Some(d) => Ok(d),
        None => Err(ExportError::GamePathNotFound),
    }
}

/// What the log of `game` with the lines `lines` says of the game's data
/// directory, against the outcome `found`. A log without a line that names
/// the directory gives `GamePathNotFound`.
///
/// For Star Rail the directory is the parent of the file that the log
/// names, or the named path itself where it has no parent. What the parent
/// of a path is rests with the platform, so only this much is said here:
/// the directory is a leading part of the named path. For Zenless Zone Zero
/// the named path without its known ending is the directory. For Genshin
/// Impact the match of the pattern is the directory.
pub open spec fn path_found(game: Game, lines: Seq<String>, found: Result<String, ExportError>) -> bool {
    match game {
        Game::Hsr => {
            &&& unmarked(hsr_marker(), lines) ==> fails(found, ExportError::GamePathNotFound)
            &&& forall|at: int|
                first_marked(hsr_marker(), lines, at) ==> gives_part_of(
                    found,
                    lines[at]@.skip(hsr_marker().len() as int),
                )
        },
        Game::Zzz => {
            &&& unmarked(zzz_marker(), lines) ==> fails(found, ExportError::GamePathNotFound)
            &&& forall|at: int|
                first_marked(zzz_marker(), lines, at) ==> {
                    let logged = lines[at]@.skip(zzz_marker().len() as int);
                    if is_suffix(zzz_suffix(), logged) {
                        gives(found, logged.take(logged.len() - zzz_suffix().len()))
                    } else {
                        fails(found, ExportError::GamePathNotFound)
                    }
                }
        },
        Game::Gi => matched(gi_pattern(), lines, found),
    }
}

impl Game {
    /// Reads the data directory of this game off the lines of its client
    /// log.
    pub fn game_path(self, lines: &Vec<String>) -> (found: Result<String, ExportError>)
        ensures
            path_found(self, lines@, found),
    {
        match self {
            Game::Hsr => match find_marked(lines, "Loading player data from ") {
                Some((_, logged)) => {
                    let parent = parent_of(logged.as_str());
                    Ok(hsr_directory(logged, parent))
                },
                None => Err(ExportError::GamePathNotFound),
            },
            Game::Zzz => match find_marked(lines, "[Subsystems] Discovering subsystems at path ") {
                Some((_, logged)) => zzz_directory(logged.as_str()),
                None => Err(ExportError::GamePathNotFound),
            },
            Game::Gi => first_match(".:\\\\.+(GenshinImpact_Data|YuanShen_Data)", lines),
        }
    }
}

} // verus!
