//! Collecting the completed ids from decoded commands.
//!
//! Commands arrive in the order in which the session decoder produced them.
//! Of each wanted kind only the first record that holds a qualifying entry
//! is read; later records of that kind are passed over, even where they
//! hold more. The collection is complete once every wanted kind was read.

use vstd::prelude::*;
use vstd::slice::slice_to_vec;
use crate::error::ExportError;

verus! {

/// Status of an entry that is complete and not yet claimed.
pub const STATUS_COMPLETE: u32 = 2;

/// Status of an entry that is complete and claimed.
pub const STATUS_CLAIMED: u32 = 3;

/// One decoded `{id, status}` pair.
#[derive(Clone, Copy, Debug, PartialEq, Eq, Structural)]
pub struct Entry {
    pub id: u32,
    pub status: u32,
}

/// The kinds of command that carry entries for the export.
#[derive(Clone, Copy, Debug, PartialEq, Eq, Structural)]
pub enum CommandKind {
    Achievement,
    Quest,
}

/// A decoded command: its kind and the entries it carries.
#[derive(Debug)]
pub enum DecodedCommand {
    Achievements(Vec<Entry>),
    Quests(Vec<Entry>),
}

/// A set of command kinds.
#[derive(Clone, Copy, Debug, PartialEq, Eq, Structural)]
pub struct KindSet {
    pub achievement: bool,
    pub quest: bool,
}

impl KindSet {
    /// Whether `kind` is in the set.
    pub open spec fn has(self, kind: CommandKind) -> bool {
        match kind {
            CommandKind::Achievement => self.achievement,
            CommandKind::Quest => self.quest,
        }
    }

    /// The set with `kind` added.
    pub open spec fn with(self, kind: CommandKind) -> KindSet {
        match kind {
            CommandKind::Achievement => KindSet { achievement: true, quest: self.quest },
            CommandKind::Quest => KindSet { achievement: self.achievement, quest: true },
        }
    }

    /// Whether every kind of `self` is in `other`.
    pub open spec fn within(self, other: KindSet) -> bool {
        (self.achievement ==> other.achievement) && (self.quest ==> other.quest)
    }

    /// The set without any kind.
    pub fn none() -> (set: KindSet)
        ensures
            set == (KindSet { achievement: false, quest: false }),
    {
        KindSet { achievement: false, quest: false }
    }

    /// The set that holds `kind` alone.
    pub fn only(kind: CommandKind) -> (set: KindSet)
        ensures
            set == only_kind(kind),
    {
        match kind {
            CommandKind::Achievement => KindSet { achievement: true, quest: false },
            CommandKind::Quest => KindSet { achievement: false, quest: true },
        }
    }

    /// Whether `kind` is in the set.
    pub fn contains(&self, kind: CommandKind) -> (found: bool)
        ensures
            found == self.has(kind),
    {
        match kind {
            CommandKind::Achievement => self.achievement,
            CommandKind::Quest => self.quest,
        }
    }
}

impl DecodedCommand {
    /// The kind of this command.
    pub open spec fn tag(self) -> CommandKind {
        match self {
            DecodedCommand::Achievements(_) => CommandKind::Achievement,
            DecodedCommand::Quests(_) => CommandKind::Quest,
        }
    }

    /// The entries of this command.
    pub open spec fn payload(self) -> Seq<Entry> {
        match self {
            DecodedCommand::Achievements(entries) => entries@,
            DecodedCommand::Quests(entries) => entries@,
        }
    }

    /// The kind of this command.
    pub fn kind(&self) -> (kind: CommandKind)
        ensures
            kind == self.tag(),
    {
        match self {
            DecodedCommand::Achievements(_) => CommandKind::Achievement,
            DecodedCommand::Quests(_) => CommandKind::Quest,
        }
    }

    /// The entries of this command.
    pub fn entries(&self) -> (entries: &Vec<Entry>)
        ensures
            entries@ == self.payload(),
    {
        match self {
            DecodedCommand::Achievements(entries) => entries,
            DecodedCommand::Quests(entries) => entries,
        }
    }
}

/// An entry qualifies when its id is wanted and its status says complete.
pub open spec fn qualifies(target: Seq<u32>, e: Entry) -> bool {
    target.contains(e.id) && (e.status == STATUS_COMPLETE || e.status == STATUS_CLAIMED)
}

/// Whether some entry of a record qualifies.
pub open spec fn any_qualifies(target: Seq<u32>, entries: Seq<Entry>) -> bool {
    exists|i: int| 0 <= i < entries.len() && qualifies(target, #[trigger] entries[i])
}

/// The ids held after reading `entries` on top of `ids`: each qualifying id
/// that is not held yet is added at the end, in the order of the entries.
pub open spec fn pass(target: Seq<u32>, ids: Seq<u32>, entries: Seq<Entry>) -> Seq<u32>
    decreases entries.len(),
{
    if entries.len() == 0 {
        ids
    } else {
        let before = pass(target, ids, entries.drop_last());
        let e = entries.last();
        if qualifies(target, e) && !before.contains(e.id) {
            before.push(e.id)
        } else {
            before
        }
    }
}

/// What has been collected so far.
pub struct Progress {
    /// The ids recorded, in the order in which they were first seen.
    pub ids: Seq<u32>,
    /// The kinds of which a record was read.
    pub satisfied: KindSet,
}

/// Nothing collected yet.
pub open spec fn start() -> Progress {
    Progress { ids: Seq::empty(), satisfied: KindSet { achievement: false, quest: false } }
}

/// The progress after `command` was seen.
pub open spec fn observed(target: Seq<u32>, required: KindSet, p: Progress, command: DecodedCommand) -> Progress {
    let kind = command.tag();
    if !required.has(kind) || p.satisfied.has(kind) {
        p
    } else {
        Progress {
            ids: pass(target, p.ids, command.payload()),
            satisfied: if any_qualifies(target, command.payload()) {
                p.satisfied.with(kind)
            } else {
                p.satisfied
            },
        }
    }
}

/// The progress after the commands of `stream` were seen in order, from the
/// progress `p`.
pub open spec fn replay_from(target: Seq<u32>, required: KindSet, p: Progress, stream: Seq<DecodedCommand>) -> Progress
    decreases stream.len(),
{
    if stream.len() == 0 {
        p
    } else {
        observed(target, required, replay_from(target, required, p, stream.drop_last()), stream.last())
    }
}

/// The progress after a whole stream of commands was seen.
pub open spec fn replay(target: Seq<u32>, required: KindSet, stream: Seq<DecodedCommand>) -> Progress {
    replay_from(target, required, start(), stream)
}

/// Every wanted kind was read.
pub open spec fn complete(required: KindSet, p: Progress) -> bool {
    required.within(p.satisfied)
}

/// What the collection comes to when the stream ends at `p`.
pub open spec fn verdict(required: KindSet, p: Progress) -> Result<Seq<u32>, ExportError> {
    if complete(required, p) && p.ids.len() > 0 {
        Ok(p.ids)
    } else {
        Err(ExportError::NoAchievementsFound)
    }
}

/// Every id is wanted, and none stands twice.
pub open spec fn sound(target: Seq<u32>, ids: Seq<u32>) -> bool {
    ids.no_duplicates() && forall|i: int| 0 <= i < ids.len() ==> target.contains(#[trigger] ids[i])
}

/// A pass keeps what was held, in place, and keeps the ids sound.
pub proof fn lemma_pass(target: Seq<u32>, ids: Seq<u32>, entries: Seq<Entry>)
    requires
        sound(target, ids),
    ensures
        sound(target, pass(target, ids, entries)),
        ids.is_prefix_of(pass(target, ids, entries)),
        any_qualifies(target, entries) ==> pass(target, ids, entries).len() > 0,
        !any_qualifies(target, entries) ==> pass(target, ids, entries) == ids,
        forall|i: int| 0 <= i < entries.len() && qualifies(target, #[trigger] entries[i]) ==> pass(
            target,
            ids,
            entries,
        ).contains(entries[i].id),
    decreases entries.len(),
{
    if entries.len() > 0 {
        let front = entries.drop_last();
        let e = entries.last();
        lemma_pass(target, ids, front);
        let before = pass(target, ids, front);
        let after = pass(target, ids, entries);
        if qualifies(target, e) && !before.contains(e.id) {
            assert(after.last() == e.id);
            assert(after.no_duplicates());
        }
        if any_qualifies(target, entries) {
            let i = choose|i: int| 0 <= i < entries.len() && qualifies(target, #[trigger] entries[i]);
            if i == front.len() && before.contains(e.id) {
                let k = choose|k: int| 0 <= k < before.len() && before[k] == e.id;
                assert(after.len() > k);
            }
        } else {
            assert(!any_qualifies(target, front));
        }
        assert forall|i: int| 0 <= i < entries.len() && qualifies(target, #[trigger] entries[i]) implies after.contains(
            entries[i].id,
        ) by {
            if i < front.len() {
                assert(front[i] == entries[i]);
                let k = choose|k: int| 0 <= k < before.len() && before[k] == entries[i].id;
                assert(after[k] == entries[i].id);
            } else if before.contains(e.id) {
                let k = choose|k: int| 0 <= k < before.len() && before[k] == e.id;
                assert(after[k] == e.id);
            }
        }
    }
}

/// Whatever the wanted ids and the stream, the ids collected are wanted ids,
/// and none is collected twice.
pub proof fn lemma_result_sound(target: Seq<u32>, required: KindSet, stream: Seq<DecodedCommand>)
    ensures
        sound(target, replay(target, required, stream).ids),
        replay(target, required, stream).satisfied.within(required),
        verdict(required, replay(target, required, stream)) matches Ok(ids) ==> sound(target, ids) && ids.len() > 0,
    decreases stream.len(),
{
    if stream.len() > 0 {
        lemma_result_sound(target, required, stream.drop_last());
        let p = replay(target, required, stream.drop_last());
        lemma_pass(target, p.ids, stream.last().payload());
    }
}

/// A stream without a qualifying entry ends without a result.
pub proof fn lemma_nothing_qualifies(target: Seq<u32>, required: KindSet, stream: Seq<DecodedCommand>)
    requires
        forall|k: int| 0 <= k < stream.len() ==> !any_qualifies(target, (#[trigger] stream[k]).payload()),
    ensures
        replay(target, required, stream) == start(),
        verdict(required, replay(target, required, stream)) == Err::<Seq<u32>, ExportError>(
            ExportError::NoAchievementsFound,
        ),
    decreases stream.len(),
{
    if stream.len() > 0 {
        let front = stream.drop_last();
        assert(forall|k: int| 0 <= k < front.len() ==> front[k] == stream[k]);
        lemma_nothing_qualifies(target, required, front);
        lemma_pass(target, start().ids, stream.last().payload());
    }
}

/// The set that holds `kind` alone.
pub open spec fn only_kind(kind: CommandKind) -> KindSet {
    (KindSet { achievement: false, quest: false }).with(kind)
}

/// `command` is a record of `kind` with a qualifying entry.
pub open spec fn decides(target: Seq<u32>, kind: CommandKind, command: DecodedCommand) -> bool {
    command.tag() == kind && any_qualifies(target, command.payload())
}

/// Where one kind is wanted, the first record of that kind with a
/// qualifying entry decides alone: what is collected from the stream is
/// what a pass over that record collects, whatever comes before or after
/// it. A stream without such a record collects nothing.
pub proof fn lemma_first_qualifying_record_decides(
    target: Seq<u32>,
    kind: CommandKind,
    stream: Seq<DecodedCommand>,
    first: int,
)
    requires
        0 <= first <= stream.len(),
        first < stream.len() ==> decides(target, kind, stream[first]),
        forall|j: int| 0 <= j < first ==> !decides(target, kind, #[trigger] stream[j]),
    ensures
        first < stream.len() ==> replay(target, only_kind(kind), stream) == (Progress {
            ids: pass(target, Seq::empty(), stream[first].payload()),
            satisfied: only_kind(kind),
        }),
        first == stream.len() ==> replay(target, only_kind(kind), stream) == start(),
    decreases stream.len(),
{
    if stream.len() > 0 {
        let front = stream.drop_last();
        let last = stream.last();
        if first < front.len() {
            lemma_first_qualifying_record_decides(target, kind, front, first);
        } else {
            lemma_first_qualifying_record_decides(target, kind, front, front.len() as int);
            lemma_pass(target, Seq::empty(), last.payload());
        }
    }
}

/// Once a record of a kind was read, later records of that kind change
/// nothing; once every wanted kind was read, no command changes anything.
pub proof fn lemma_first_record_wins(target: Seq<u32>, required: KindSet, p: Progress, command: DecodedCommand)
    ensures
        p.satisfied.has(command.tag()) ==> observed(target, required, p, command) == p,
        complete(required, p) ==> observed(target, required, p, command) == p,
{
}

/// Seeing a command never takes an id away nor moves one.
pub proof fn lemma_ids_only_grow(target: Seq<u32>, required: KindSet, p: Progress, command: DecodedCommand)
    requires
        sound(target, p.ids),
    ensures
        p.ids.is_prefix_of(observed(target, required, p, command).ids),
        p.satisfied.within(observed(target, required, p, command).satisfied),
{
    lemma_pass(target, p.ids, command.payload());
}

/// Tells whether `id` stands in `list`.
pub fn holds(list: &Vec<u32>, id: u32) -> (found: bool)
    ensures
        found == list@.contains(id),
{
    let mut i: usize = 0;
    while i < list.len()
        invariant
            i <= list.len(),
            forall|k: int| 0 <= k < i ==> list[k] != id,
        decreases list.len() - i,
    {
        if list[i] == id {
            return true;
        }
        i += 1;
    }
    false
}

/// Collects the completed ids of the wanted kinds from a stream of commands.
pub struct Extractor {
    target: Vec<u32>,
    required: KindSet,
    satisfied: KindSet,
    ids: Vec<u32>,
}

impl Extractor {
    /// The ids that are looked for.
    pub closed spec fn target(&self) -> Seq<u32> {
        self.target@
    }

    /// The kinds of which a record is wanted.
    pub closed spec fn required(&self) -> KindSet {
        self.required
    }

    /// What has been collected so far.
    pub closed spec fn progress(&self) -> Progress {
        Progress { ids: self.ids@, satisfied: self.satisfied }
    }

    /// The ids collected are wanted ids, none twice; only wanted kinds were
    /// read; and a kind was read only if an id was collected.
    pub closed spec fn wf(&self) -> bool {
        &&& sound(self.target@, self.ids@)
        &&& self.satisfied.within(self.required)
        &&& self.satisfied.achievement || self.satisfied.quest ==> self.ids@.len() > 0
    }

    /// A complete collection of at least one wanted kind holds an id.
    pub proof fn lemma_complete_has_ids(&self)
        requires
            self.wf(),
            complete(self.required(), self.progress()),
            self.required().achievement || self.required().quest,
        ensures
            self.progress().ids.len() > 0,
    {
    }

    /// An extractor that has seen nothing.
    pub fn new(target: Vec<u32>, required: KindSet) -> (extractor: Extractor)
        ensures
            extractor.wf(),
            sound(extractor.target(), extractor.progress().ids),
            extractor.target() == target@,
            extractor.required() == required,
            extractor.progress() == start(),
    {
        Extractor { target, required, satisfied: KindSet::none(), ids: Vec::new() }
    }

    /// Takes note of one command.
    pub fn observe(&mut self, command: &DecodedCommand)
        requires
            old(self).wf(),
        ensures
            final(self).wf(),
            sound(final(self).target(), final(self).progress().ids),
            final(self).target() == old(self).target(),
            final(self).required() == old(self).required(),
            final(self).progress() == observed(
                old(self).target(),
                old(self).required(),
                old(self).progress(),
                *command,
            ),
    {
        let kind = command.kind();
        if !self.required.contains(kind) || self.satisfied.contains(kind) {
            return ;
        }
        let entries = command.entries();
        let ghost held = self.ids@;
        let mut any = false;
        let mut i: usize = 0;
        while i < entries.len()
            invariant
                i <= entries.len(),
                self.target == old(self).target,
                self.required == old(self).required,
                self.satisfied == old(self).satisfied,
                sound(self.target@, held),
                self.ids@ == pass(self.target@, held, entries@.take(i as int)),
                any == any_qualifies(self.target@, entries@.take(i as int)),
            decreases entries.len() - i,
        {
            let e = entries[i];
            proof {
                let upto = entries@.take(i as int);
                let next = entries@.take(i + 1);
                assert(next.drop_last() == upto);
                assert(any_qualifies(self.target@, next) == (any_qualifies(self.target@, upto) || qualifies(
                    self.target@,
                    e,
                ))) by {
                    if any_qualifies(self.target@, upto) {
                        let k = choose|k: int| 0 <= k < upto.len() && qualifies(self.target@, #[trigger] upto[k]);
                        assert(next[k] == upto[k]);
                    }
                    if qualifies(self.target@, e) {
                        assert(next[i as int] == e);
                    }
                    if any_qualifies(self.target@, next) {
                        let k = choose|k: int| 0 <= k < next.len() && qualifies(self.target@, #[trigger] next[k]);
                        assert(k < i ==> upto[k] == next[k]);
                    }
                }
            }
            if (e.status == STATUS_COMPLETE || e.status == STATUS_CLAIMED) && holds(&self.target, e.id) {
                any = true;
                if !holds(&self.ids, e.id) {
                    self.ids.push(e.id);
                }
            }
            i += 1;
        }
        proof {
            assert(entries@.take(entries.len() as int) == entries@);
            lemma_pass(self.target@, held, entries@);
        }
        if any {
            self.satisfied = match kind {
                CommandKind::Achievement => KindSet { achievement: true, quest: self.satisfied.quest },
                CommandKind::Quest => KindSet { achievement: self.satisfied.achievement, quest: true },
            };
        }
    }

    /// Takes note of the commands of one packet, in order.
    pub fn observe_all(&mut self, commands: &Vec<DecodedCommand>)
        requires
            old(self).wf(),
        ensures
            final(self).wf(),
            sound(final(self).target(), final(self).progress().ids),
            final(self).target() == old(self).target(),
            final(self).required() == old(self).required(),
            final(self).progress() == replay_from(
                old(self).target(),
                old(self).required(),
                old(self).progress(),
                commands@,
            ),
    {
        let mut i: usize = 0;
        while i < commands.len()
            invariant
                i <= commands.len(),
                self.wf(),
                sound(self.target(), self.progress().ids),
                self.target() == old(self).target(),
                self.required() == old(self).required(),
                self.progress() == replay_from(
                    old(self).target(),
                    old(self).required(),
                    old(self).progress(),
                    commands@.take(i as int),
                ),
            decreases commands.len() - i,
        {
            proof {
                let next = commands@.take(i + 1);
                assert(next.drop_last() == commands@.take(i as int));
            }
            self.observe(&commands[i]);
            i += 1;
        }
        proof {
            assert(commands@.take(commands.len() as int) == commands@);
        }
    }

    /// Whether every wanted kind was read, so that no further command can
    /// add anything.
    pub fn is_complete(&self) -> (done: bool)
        ensures
            done == complete(self.required(), self.progress()),
    {
        (!self.required.achievement || self.satisfied.achievement) && (!self.required.quest
            || self.satisfied.quest)
    }

    /// The ids collected so far.
    pub fn collected(&self) -> (ids: &Vec<u32>)
        ensures
            ids@ == self.progress().ids,
    {
        &self.ids
    }

    /// Ends the collection: the ids, if every wanted kind was read and at
    /// least one id was collected, and `NoAchievementsFound` otherwise.
    pub fn finish(self) -> (result: Result<Vec<u32>, ExportError>)
        requires
            self.wf(),
        ensures
            match result {
                Ok(ids) => verdict(self.required(), self.progress()) == Ok::<Seq<u32>, ExportError>(ids@)
                    && sound(self.target(), ids@),
                Err(e) => verdict(self.required(), self.progress()) == Err::<Seq<u32>, ExportError>(e),
            },
    {
        if self.is_complete() && self.ids.len() > 0 {
            Ok(self.ids)
        } else {
            Err(ExportError::NoAchievementsFound)
        }
    }
}

/// Collects from a whole stream at once: the result of seeing every command
/// of `stream` in order and then ending the collection.
pub fn extract(target: Vec<u32>, required: KindSet, stream: &Vec<DecodedCommand>) -> (result: Result<
    Vec<u32>,
    ExportError,
>)
    ensures
        match result {
            Ok(ids) => verdict(required, replay(target@, required, stream@)) == Ok::<Seq<u32>, ExportError>(ids@)
                && sound(target@, ids@),
            Err(e) => verdict(required, replay(target@, required, stream@)) == Err::<Seq<u32>, ExportError>(e),
        },
{
    let mut extractor = Extractor::new(target, required);
    extractor.observe_all(stream);
    extractor.finish()
}

/// Collects the completed achievements from a stream of commands: the ids
/// of `achievement_ids` that the first achievement record with a qualifying
/// entry shows as complete.
pub fn sniff(achievement_ids: &[u32], stream: &Vec<DecodedCommand>) -> (result: Result<Vec<u32>, ExportError>)
    ensures
        match result {
            Ok(ids) => verdict(achievements_only(), replay(achievement_ids@, achievements_only(), stream@))
                == Ok::<Seq<u32>, ExportError>(ids@) && sound(achievement_ids@, ids@),
            Err(e) => verdict(achievements_only(), replay(achievement_ids@, achievements_only(), stream@))
                == Err::<Seq<u32>, ExportError>(e),
        },
{
    extract(slice_to_vec(achievement_ids), KindSet::only(CommandKind::Achievement), stream)
}

/// The set that holds the achievement kind alone.
pub open spec fn achievements_only() -> KindSet {
    only_kind(CommandKind::Achievement)
}

} // verus!
