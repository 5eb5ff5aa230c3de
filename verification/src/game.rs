//! The supported games and what differs between them.

use vstd::prelude::*;
use vstd::string::*;
use crate::error::ExportError;
use crate::extract::KindSet;
use crate::text::{decimal, decimal_text};

verus! {

/// A supported game.
#[derive(Clone, Copy, Debug, PartialEq, Eq, Structural)]
pub enum Game {
    Hsr,
    Gi,
    Zzz,
}

/// A place below the local application data directory where a client may
/// keep its log: the publisher's folder, the game's folder and the file.
#[derive(Debug)]
pub struct LogLocation {
    pub publisher: String,
    pub title: String,
    pub file: String,
}

/// How a capture handle is to be opened.
#[derive(Debug)]
pub struct CaptureSettings {
    /// Packets are handed over as they arrive, without buffering.
    pub immediate: bool,
    /// Traffic that is not addressed to the device is captured too.
    pub promiscuous: bool,
    /// How long a poll waits, in milliseconds; zero waits without limit.
    pub timeout_ms: i32,
    /// The filter to install on the handle.
    pub filter: String,
}

impl Game {
    /// Path segment that the tracker site puts before `/achievement-tracker`.
    pub open spec fn site_prefix(self) -> Seq<char> {
        match self {
            Game::Hsr => ""@,
            Game::Gi => "genshin"@,
            Game::Zzz => "zzz"@,
        }
    }

    /// Path of the pull tracker below the site root.
    pub open spec fn pull_page(self) -> Seq<char> {
        match self {
            Game::Hsr => "warp-tracker"@,
            Game::Gi => "genshin/wish-tracker"@,
            Game::Zzz => "zzz/signal-tracker"@,
        }
    }

    /// Address of the achievement tracker page of this game.
    pub fn achievement_url(self) -> (url: String)
        ensures
            url@ == "https://stardb.gg/"@ + self.site_prefix() + "/achievement-tracker"@,
    {
        let prefix = match self {
            Game::Hsr => "",
            Game::Gi => "genshin",
            Game::Zzz => "zzz",
        };
        let mut url = String::from_str("https://stardb.gg/");
        url.append(prefix);
        url.append("/achievement-tracker");
        url
    }

    /// Address of the pull tracker page of this game.
    pub fn pull_url(self) -> (url: String)
        ensures
            url@ == "https://stardb.gg/"@ + self.pull_page(),
    {
        let path = match self {
            Game::Hsr => "warp-tracker",
            Game::Gi => "genshin/wish-tracker",
            Game::Zzz => "zzz/signal-tracker",
        };
        let mut url = String::from_str("https://stardb.gg/");
        url.append(path);
        url
    }

    /// Whether achievements can be read from the traffic of this game.
    pub open spec fn has_achievements(self) -> bool {
        self != Game::Zzz
    }

    /// The address that lists the ids of all achievements of this game, for
    /// the games whose achievements can be exported.
    pub open spec fn ids_page(self) -> Option<Seq<char>> {
        match self {
            Game::Hsr => Some("https://stardb.gg/api/achievements"@),
            Game::Gi => Some("https://stardb.gg/api/gi/achievements"@),
            Game::Zzz => None,
        }
    }

    /// The address that lists the ids of all achievements of this game, for
    /// the games whose achievements can be exported.
    pub fn achievement_ids_url(self) -> (url: Option<String>)
        ensures
            url.deep_view() == self.ids_page(),
            url is Some <==> self.has_achievements(),
    {
        match self {
            Game::Hsr => Some(String::from_str("https://stardb.gg/api/achievements")),
            Game::Gi => Some(String::from_str("https://stardb.gg/api/gi/achievements")),
            Game::Zzz => None,
        }
    }

    /// The kinds of command of which a record is wanted before the
    /// achievements of this game count as read.
    pub open spec fn wanted(self) -> KindSet {
        KindSet { achievement: self.has_achievements(), quest: false }
    }

    /// The kinds of command of which a record is wanted before the
    /// achievements of this game count as read.
    pub fn required_kinds(self) -> (kinds: KindSet)
        ensures
            kinds == self.wanted(),
    {
        match self {
            Game::Zzz => KindSet { achievement: false, quest: false },
            _ => KindSet { achievement: true, quest: false },
        }
    }

    /// The UDP ports of the game's session traffic, first and last.
    pub open spec fn ports(self) -> Option<(u16, u16)> {
        match self {
            Game::Hsr => Some((23301u16, 23302u16)),
            Game::Gi => Some((22101u16, 22102u16)),
            Game::Zzz => None,
        }
    }

    /// The UDP ports of the game's session traffic, first and last, for the
    /// games whose traffic is captured.
    pub fn port_range(self) -> (range: Option<(u16, u16)>)
        ensures
            range == self.ports(),
            range is Some <==> self.has_achievements(),
    {
        match self {
            Game::Hsr => Some((23301, 23302)),
            Game::Gi => Some((22101, 22102)),
            Game::Zzz => None,
        }
    }

    /// The text of the capture filter: `udp portrange`, the first port, a
    /// hyphen and the last port.
    pub open spec fn filter_text(self) -> Option<Seq<char>> {
        match self.ports() {
            Some((first, last)) => Some(
                "udp portrange "@ + decimal_text(first as nat) + "-"@ + decimal_text(last as nat),
            ),
            None => None,
        }
    }

    /// The capture filter that admits the game's session traffic and
    /// nothing else: UDP on the game's ports.
    pub fn capture_filter(self) -> (filter: Option<String>)
        ensures
            filter.deep_view() == self.filter_text(),
    {
        match self.port_range() {
            Some((first, last)) => {
                let mut text = String::from_str("udp portrange ");
                text.append(decimal(first as usize).as_str());
                text.append("-");
                text.append(decimal(last as usize).as_str());
                Some(text)
            },
            None => None,
        }
    }

    /// How a capture handle for this game's traffic is to be opened:
    /// immediate, promiscuous, without timeout, and with the game's filter.
    pub fn capture_settings(self) -> (settings: Option<CaptureSettings>)
        ensures
            settings is Some <==> self.has_achievements(),
            settings matches Some(s) ==> {
                &&& s.immediate
                &&& s.promiscuous
                &&& s.timeout_ms == 0
                &&& Some(s.filter@) == self.filter_text()
            },
    {
        match self.capture_filter() {
            Some(filter) => Some(CaptureSettings { immediate: true, promiscuous: true, timeout_ms: 0, filter }),
            None => None,
        }
    }

    /// Whether an older address may be tried after the most recent one in
    /// the cache was turned down.
    pub open spec fn older_addresses_count(self) -> bool {
        self == Game::Zzz
    }

    /// Whether an older address may be tried after the most recent one in
    /// the cache was turned down. Where not, the most recent one decides.
    pub fn allows_fallback(self) -> (yes: bool)
        ensures
            yes == self.older_addresses_count(),
    {
        match self {
            Game::Zzz => true,
            _ => false,
        }
    }

    /// The places where the client of this game may keep its log, in the
    /// order in which they are to be tried.
    pub fn log_locations(self) -> (places: Vec<LogLocation>)
        ensures
            places.len() == 2,
            places[0].file@ == places[1].file@,
            self == Game::Hsr ==> {
                &&& places[0].publisher@ == "Cognosphere"@
                &&& places[0].title@ == "Star Rail"@
                &&& places[1].publisher@ == "miHoYo"@
                &&& places[1].title@ == "崩坏：星穹铁道"@
                &&& places[0].file@ == "Player.log"@
            },
            self == Game::Gi ==> {
                &&& places[0].publisher@ == "miHoYo"@
                &&& places[0].title@ == "Genshin Impact"@
                &&& places[1].publisher@ == "miHoYo"@
                &&& places[1].title@ == "原神"@
                &&& places[0].file@ == "output_log.txt"@
            },
            self == Game::Zzz ==> {
                &&& places[0].publisher@ == "miHoYo"@
                &&& places[0].title@ == "ZenlessZoneZero"@
                &&& places[1].publisher@ == "miHoYo"@
                &&& places[1].title@ == "绝区零"@
                &&& places[0].file@ == "Player.log"@
            },
    {
        let (first, second) = match self {
            Game::Hsr => (place("Cognosphere", "Star Rail", "Player.log"), place(
                "miHoYo",
                "崩坏：星穹铁道",
                "Player.log",
            )),
            Game::Gi => (place("miHoYo", "Genshin Impact", "output_log.txt"), place(
                "miHoYo",
                "原神",
                "output_log.txt",
            )),
            Game::Zzz => (place("miHoYo", "ZenlessZoneZero", "Player.log"), place(
                "miHoYo",
                "绝区零",
                "Player.log",
            )),
        };
        let mut places: Vec<LogLocation> = Vec::new();
        places.push(first);
        places.push(second);
        places
    }
}

fn place(publisher: &str, title: &str, file: &str) -> (location: LogLocation)
    ensures
        location.publisher@ == publisher@,
        location.title@ == title@,
        location.file@ == file@,
{
    LogLocation {
        publisher: String::from_str(publisher),
        title: String::from_str(title),
        file: String::from_str(file),
    }
}

/// The port ranges of two different games share no port.
pub proof fn lemma_port_ranges_disjoint(a: Game, b: Game)
    requires
        a != b,
    ensures
        a.ports() matches Some((a_first, a_last)) ==> a_first <= a_last && (b.ports() matches Some(
            (b_first, b_last),
        ) ==> a_last < b_first || b_last < a_first),
{
}

/// The first place that exists, given for each place in turn whether it
/// does. Where none exists the log counts as missing.
pub fn first_existing(exists: &Vec<bool>) -> (picked: Result<usize, ExportError>)
    ensures
        match picked {
            Ok(at) => at < exists.len() && exists[at as int] && forall|j: int| 0 <= j < at ==> !exists[j],
            Err(e) => e == ExportError::LogFileNotFound && forall|j: int| 0 <= j < exists.len() ==> !exists[j],
        },
{
    let mut i: usize = 0;
    while i < exists.len()
        invariant
            i <= exists.len(),
            forall|j: int| 0 <= j < i ==> !exists[j],
        decreases exists.len() - i,
    {
        if exists[i] {
            return Ok(i);
        }
        i += 1;
    }
    Err(ExportError::LogFileNotFound)
}

} // verus!
