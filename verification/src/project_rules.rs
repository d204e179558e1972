//! Keeping the project rules of repositories up to date.
//!
//! Every refresh of a repository gets a generation of its own. Reading rule files takes
//! time; what was read is applied only if the repository was neither refreshed again nor
//! removed meanwhile.

use crate::rule_files::{
    self, LocalOrRemotePath, ProjectRule, RemotePath, RepoContent, RepositoryIdentifier, RuleRead,
};
use vstd::prelude::*;

verus! {

/// How much of a repository on this machine its metadata covers.
#[derive(Clone, Copy, Debug, PartialEq, Eq)]
pub enum RepositoryCoverage {
    Complete,
    Degraded,
}

/// What is known of a repository when its rules are to be refreshed.
#[derive(Debug, PartialEq, Eq)]
pub struct RepoFacts {
    /// The root, where the identifier leads to one.
    pub root_path: Option<LocalOrRemotePath>,
    /// The root on this machine, where the identifier leads to one.
    pub local_path: Option<String>,
    /// How much the metadata covers, where they are there.
    pub coverage: Option<RepositoryCoverage>,
    /// Whether indexing the repository failed.
    pub indexing_failed: bool,
    /// The entries of the file tree, ignored ones too, where the tree is known.
    pub contents: Option<Vec<RepoContent>>,
    /// Whether there is a client for the host of the repository.
    pub has_client: bool,
}

/// [`RepoFacts`] by its contents.
pub struct RepoFactsView {
    pub root_path: Option<crate::rule_files::PathView>,
    pub local_path: Option<Seq<char>>,
    pub coverage: Option<RepositoryCoverage>,
    pub indexing_failed: bool,
    pub contents: Option<Seq<crate::rule_files::RepoContentView>>,
    pub has_client: bool,
}

impl DeepView for RepoFacts {
    type V = RepoFactsView;

    open spec fn deep_view(&self) -> RepoFactsView {
        RepoFactsView {
            root_path: self.root_path.deep_view(),
            local_path: self.local_path.deep_view(),
            coverage: self.coverage,
            indexing_failed: self.indexing_failed,
            contents: self.contents.deep_view(),
            has_client: self.has_client,
        }
    }
}

/// A change in the metadata of repositories.
#[derive(Debug, PartialEq, Eq)]
pub enum RepoMetadataEvent {
    RepositoryUpdated { id: RepositoryIdentifier },
    FileTreeEntryUpdated { id: RepositoryIdentifier },
    FileTreeUpdated { ids: Vec<RepositoryIdentifier> },
    RepositoryRemoved { id: RepositoryIdentifier },
    UpdatingRepositoryFailed { id: RepositoryIdentifier },
    IncrementalUpdateReady,
}

/// [`RepoMetadataEvent`] by its contents.
pub enum EventView {
    RepositoryUpdated { id: crate::rule_files::RepositoryView },
    FileTreeEntryUpdated { id: crate::rule_files::RepositoryView },
    FileTreeUpdated { ids: Seq<crate::rule_files::RepositoryView> },
    RepositoryRemoved { id: crate::rule_files::RepositoryView },
    UpdatingRepositoryFailed { id: crate::rule_files::RepositoryView },
    IncrementalUpdateReady,
}

impl DeepView for RepoMetadataEvent {
    type V = EventView;

    open spec fn deep_view(&self) -> EventView {
        match self {
            RepoMetadataEvent::RepositoryUpdated { id } => EventView::RepositoryUpdated {
                id: id.deep_view(),
            },
            RepoMetadataEvent::FileTreeEntryUpdated { id } => EventView::FileTreeEntryUpdated {
                id: id.deep_view(),
            },
            RepoMetadataEvent::FileTreeUpdated { ids } => EventView::FileTreeUpdated {
                ids: ids.deep_view(),
            },
            RepoMetadataEvent::RepositoryRemoved { id } => EventView::RepositoryRemoved {
                id: id.deep_view(),
            },
            RepoMetadataEvent::UpdatingRepositoryFailed { id } =>
                EventView::UpdatingRepositoryFailed { id: id.deep_view() },
            RepoMetadataEvent::IncrementalUpdateReady => EventView::IncrementalUpdateReady,
        }
    }
}

/// What is to be done about project rules.
#[derive(Debug, PartialEq, Eq)]
pub enum Effect {
    /// Replace the rules of a root on this machine.
    ReplaceLocalRules { root: String, rules: Vec<ProjectRule> },
    /// Replace the rules of a root on a remote host.
    ReplaceRemoteRules { root: RemotePath, rules: Vec<ProjectRule> },
    /// From now on take the rules of a root from the file system of this machine.
    UseLocalFilesystem { root: String },
    /// Look for the rules of a root in the file system of this machine, and store them.
    IndexLocalRules { root: String },
    /// Drop the rules of a root on this machine.
    ClearLocalRules { root: String },
    /// Drop the rules of a root on a remote host.
    ClearRemoteRules { root: RemotePath },
    /// Read rule files, and hand what was read back with the generation of the refresh.
    ReadRules {
        repo_id: RepositoryIdentifier,
        generation: u64,
        root: LocalOrRemotePath,
        read: RuleRead,
    },
}

/// [`Effect`] by its contents.
pub enum EffectView {
    ReplaceLocalRules { root: Seq<char>, rules: Seq<crate::rule_files::ProjectRuleView> },
    ReplaceRemoteRules {
        root: crate::rule_files::RemotePathView,
        rules: Seq<crate::rule_files::ProjectRuleView>,
    },
    UseLocalFilesystem { root: Seq<char> },
    IndexLocalRules { root: Seq<char> },
    ClearLocalRules { root: Seq<char> },
    ClearRemoteRules { root: crate::rule_files::RemotePathView },
    ReadRules {
        repo_id: crate::rule_files::RepositoryView,
        generation: nat,
        root: crate::rule_files::PathView,
        read: crate::rule_files::RuleReadView,
    },
}

impl DeepView for Effect {
    type V = EffectView;

    open spec fn deep_view(&self) -> EffectView {
        match self {
            Effect::ReplaceLocalRules { root, rules } => EffectView::ReplaceLocalRules {
                root: root@,
                rules: rules.deep_view(),
            },
            Effect::ReplaceRemoteRules { root, rules } => EffectView::ReplaceRemoteRules {
                root: root.deep_view(),
                rules: rules.deep_view(),
            },
            Effect::UseLocalFilesystem { root } => EffectView::UseLocalFilesystem { root: root@ },
            Effect::IndexLocalRules { root } => EffectView::IndexLocalRules { root: root@ },
            Effect::ClearLocalRules { root } => EffectView::ClearLocalRules { root: root@ },
            Effect::ClearRemoteRules { root } => EffectView::ClearRemoteRules {
                root: root.deep_view(),
            },
            Effect::ReadRules { repo_id, generation, root, read } => EffectView::ReadRules {
                repo_id: repo_id.deep_view(),
                generation: *generation as nat,
                root: root.deep_view(),
                read: read.deep_view(),
            },
        }
    }
}

/// The generations of the refreshes: for each repository the one of its last refresh,
/// and the last one that was given out at all.
#[verifier::ext_equal]
pub struct RefreshState {
    pub generations: Map<crate::rule_files::RepositoryView, nat>,
    pub last: nat,
}

/// Where nothing was refreshed yet.
pub open spec fn no_refreshes() -> RefreshState {
    RefreshState { generations: Map::empty(), last: 0 }
}

/// Whether every generation was given out, and none of them twice.
pub open spec fn is_valid(state: RefreshState) -> bool {
    &&& forall|id: crate::rule_files::RepositoryView| #[trigger]
        state.generations.contains_key(id) ==> 1 <= state.generations[id] <= state.last
    &&& forall|
        first: crate::rule_files::RepositoryView,
        second: crate::rule_files::RepositoryView,
    |
        #![trigger state.generations[first], state.generations[second]]
        state.generations.contains_key(first) && state.generations.contains_key(second) && first
            != second ==> state.generations[first] != state.generations[second]
}

/// Whether a generation is the one of the last refresh of a repository.
pub open spec fn is_current(
    state: RefreshState,
    id: crate::rule_files::RepositoryView,
    generation: nat,
) -> bool {
    state.generations.contains_key(id) && state.generations[id] == generation
}

/// A repository is given the next generation.
pub open spec fn advanced(
    state: RefreshState,
    id: crate::rule_files::RepositoryView,
) -> RefreshState {
    RefreshState {
        generations: state.generations.insert(id, state.last + 1),
        last: state.last + 1,
    }
}

/// A repository has no generation any more.
pub open spec fn forgotten(
    state: RefreshState,
    id: crate::rule_files::RepositoryView,
) -> RefreshState {
    RefreshState { generations: state.generations.remove(id), last: state.last }
}

/// The generations after something was done, and what is to be done about rules.
#[verifier::ext_equal]
pub struct Outcome {
    pub state: RefreshState,
    pub effects: Seq<EffectView>,
}

/// At most one effect.
pub open spec fn as_effects(effect: Option<EffectView>) -> Seq<EffectView> {
    match effect {
        Some(effect) => seq![effect],
        None => Seq::empty(),
    }
}

/// Replaces the rules of a root.
pub open spec fn replacement(
    root: crate::rule_files::PathView,
    rules: Seq<crate::rule_files::ProjectRuleView>,
) -> EffectView {
    match root {
        rule_files::PathView::Local(root) => EffectView::ReplaceLocalRules { root, rules },
        rule_files::PathView::Remote(root) => EffectView::ReplaceRemoteRules { root, rules },
    }
}

/// Drops the rules of a root.
pub open spec fn clearance(root: crate::rule_files::PathView) -> EffectView {
    match root {
        rule_files::PathView::Local(root) => EffectView::ClearLocalRules { root },
        rule_files::PathView::Remote(root) => EffectView::ClearRemoteRules { root },
    }
}

/// What a refresh from the metadata does about rules: without a root nothing, without
/// rule files there are no rules, and else the rule files are read, where that is
/// possible.
pub open spec fn metadata_effect(
    id: crate::rule_files::RepositoryView,
    generation: nat,
    facts: RepoFactsView,
) -> Option<EffectView> {
    match facts.root_path {
        None => None,
        Some(root) => {
            let paths = rule_files::rule_paths(id, facts.contents);
            if paths.len() == 0 {
                Some(replacement(root, Seq::empty()))
            } else {
                match rule_files::rule_read(paths, facts.has_client) {
                    Some(read) => Some(
                        EffectView::ReadRules { repo_id: id, generation, root, read },
                    ),
                    None => None,
                }
            }
        },
    }
}

/// A refresh of a repository from its metadata.
pub open spec fn refreshed_from_metadata(
    state: RefreshState,
    id: crate::rule_files::RepositoryView,
    facts: RepoFactsView,
) -> Outcome {
    Outcome {
        state: advanced(state, id),
        effects: as_effects(metadata_effect(id, state.last + 1, facts)),
    }
}

/// A refresh of a repository from the file system of this machine: its root is switched
/// over to the file system, and then indexed.
pub open spec fn refreshed_from_filesystem(
    state: RefreshState,
    id: crate::rule_files::RepositoryView,
    facts: RepoFactsView,
) -> Outcome {
    Outcome {
        state: advanced(state, id),
        effects: match facts.local_path {
            Some(root) => seq![
                EffectView::UseLocalFilesystem { root },
                EffectView::IndexLocalRules { root },
            ],
            None => Seq::empty(),
        },
    }
}

/// Where the rules of a repository are taken from.
pub enum RuleSource {
    Metadata,
    Filesystem,
    Nowhere,
}

/// Where the rules of a repository are taken from: of a remote one from its metadata; of
/// one on this machine from its metadata where they cover it whole, from the file system
/// where they do not or the repository could not be indexed, and from nowhere as long as
/// it is not indexed.
pub open spec fn rule_source(
    id: crate::rule_files::RepositoryView,
    facts: RepoFactsView,
) -> RuleSource {
    match id {
        rule_files::RepositoryView::Remote(_) => RuleSource::Metadata,
        rule_files::RepositoryView::Local(_) => match facts.coverage {
            Some(RepositoryCoverage::Complete) => RuleSource::Metadata,
            Some(RepositoryCoverage::Degraded) => RuleSource::Filesystem,
            None => if facts.indexing_failed {
                RuleSource::Filesystem
            } else {
                RuleSource::Nowhere
            },
        },
    }
}

/// Whether a repository is refreshed, given the facts about it.
pub open spec fn is_refreshed(
    id: crate::rule_files::RepositoryView,
    facts: RepoFactsView,
) -> bool {
    !(rule_source(id, facts) is Nowhere)
}

/// How many generations a refresh of a repository takes.
pub open spec fn needed_for(id: crate::rule_files::RepositoryView, facts: RepoFactsView) -> nat {
    if is_refreshed(id, facts) {
        1
    } else {
        0
    }
}

/// A refresh of a repository.
pub open spec fn refreshed(
    state: RefreshState,
    id: crate::rule_files::RepositoryView,
    facts: RepoFactsView,
) -> Outcome {
    match rule_source(id, facts) {
        RuleSource::Metadata => refreshed_from_metadata(state, id, facts),
        RuleSource::Filesystem => refreshed_from_filesystem(state, id, facts),
        RuleSource::Nowhere => Outcome { state, effects: Seq::empty() },
    }
}

/// Refreshes of repositories, one after the other.
pub open spec fn all_refreshed(
    state: RefreshState,
    ids: Seq<crate::rule_files::RepositoryView>,
    facts: Seq<RepoFactsView>,
) -> Outcome
    decreases ids.len(),
{
    if ids.len() == 0 {
        Outcome { state, effects: Seq::empty() }
    } else {
        let before = all_refreshed(state, ids.drop_last(), facts);
        let now = refreshed(before.state, ids.last(), facts[ids.len() - 1]);
        Outcome { state: now.state, effects: before.effects + now.effects }
    }
}

/// Refreshes of the remote ones of some repositories from their metadata.
pub open spec fn trees_updated(
    state: RefreshState,
    ids: Seq<crate::rule_files::RepositoryView>,
    facts: Seq<RepoFactsView>,
) -> Outcome
    decreases ids.len(),
{
    if ids.len() == 0 {
        Outcome { state, effects: Seq::empty() }
    } else {
        let before = trees_updated(state, ids.drop_last(), facts);
        match ids.last() {
            rule_files::RepositoryView::Remote(_) => {
                let now = refreshed_from_metadata(
                    before.state,
                    ids.last(),
                    facts[ids.len() - 1],
                );
                Outcome { state: now.state, effects: before.effects + now.effects }
            },
            rule_files::RepositoryView::Local(_) => before,
        }
    }
}

/// The removal of a repository.
pub open spec fn removed(
    state: RefreshState,
    id: crate::rule_files::RepositoryView,
    facts: RepoFactsView,
) -> Outcome {
    Outcome {
        state: forgotten(state, id),
        effects: match facts.root_path {
            Some(root) => seq![clearance(root)],
            None => Seq::empty(),
        },
    }
}

/// The repositories that are there at the start, those on this machine first.
pub open spec fn initial_ids(
    local_ids: Seq<crate::rule_files::RepositoryView>,
    remote_ids: Seq<crate::rule_files::RemotePathView>,
) -> Seq<crate::rule_files::RepositoryView> {
    local_ids + remote_ids.map_values(
        |id: crate::rule_files::RemotePathView| rule_files::RepositoryView::Remote(id),
    )
}

/// The repositories that an event is about.
pub open spec fn event_ids(event: EventView) -> Seq<crate::rule_files::RepositoryView> {
    match event {
        EventView::RepositoryUpdated { id } => seq![id],
        EventView::FileTreeEntryUpdated { id } => seq![id],
        EventView::FileTreeUpdated { ids } => ids,
        EventView::RepositoryRemoved { id } => seq![id],
        EventView::UpdatingRepositoryFailed { id } => seq![id],
        EventView::IncrementalUpdateReady => Seq::empty(),
    }
}

/// How many of some repositories are remote.
pub open spec fn remote_count(ids: Seq<crate::rule_files::RepositoryView>) -> nat
    decreases ids.len(),
{
    if ids.len() == 0 {
        0
    } else {
        remote_count(ids.drop_last()) + if ids.last() is Remote {
            1nat
        } else {
            0nat
        }
    }
}

/// How many generations an event takes.
pub open spec fn generations_needed(event: EventView, facts: Seq<RepoFactsView>) -> nat {
    match event {
        EventView::RepositoryUpdated { id } => needed_for(id, facts[0]),
        EventView::FileTreeEntryUpdated { id } => needed_for(id, facts[0]),
        EventView::FileTreeUpdated { ids } => remote_count(ids),
        EventView::RepositoryRemoved { .. } => 0,
        EventView::UpdatingRepositoryFailed { id } => needed_for(id, facts[0]),
        EventView::IncrementalUpdateReady => 0,
    }
}

/// What an event does, given the facts about each of the repositories that it is about.
pub open spec fn handled(
    state: RefreshState,
    event: EventView,
    facts: Seq<RepoFactsView>,
) -> Outcome {
    match event {
        EventView::RepositoryUpdated { id } => refreshed(state, id, facts[0]),
        EventView::FileTreeEntryUpdated { id } => refreshed(state, id, facts[0]),
        EventView::FileTreeUpdated { ids } => trees_updated(state, ids, facts),
        EventView::RepositoryRemoved { id } => removed(state, id, facts[0]),
        EventView::UpdatingRepositoryFailed { id } => refreshed(state, id, facts[0]),
        EventView::IncrementalUpdateReady => Outcome { state, effects: Seq::empty() },
    }
}

/// What is done about rules that were built for a refresh: they replace the former ones
/// if that refresh is still the last one.
pub open spec fn application(
    state: RefreshState,
    id: crate::rule_files::RepositoryView,
    generation: nat,
    root: crate::rule_files::PathView,
    rules: Seq<crate::rule_files::ProjectRuleView>,
) -> Option<EffectView> {
    if is_current(state, id, generation) {
        Some(replacement(root, rules))
    } else {
        None
    }
}

/// The generation of the last refresh of a repository.
#[derive(Debug, PartialEq, Eq)]
struct RefreshGeneration {
    repo_id: RepositoryIdentifier,
    generation: u64,
}

/// Whether the entry at a place is that of a repository.
spec fn is_entry_of(
    entries: Seq<RefreshGeneration>,
    at: int,
    id: crate::rule_files::RepositoryView,
) -> bool {
    0 <= at < entries.len() && entries[at].repo_id.deep_view() == id
}

/// The generations that entries give.
spec fn generations_of(entries: Seq<RefreshGeneration>) -> Map<
    crate::rule_files::RepositoryView,
    nat,
> {
    Map::new(
        |id: crate::rule_files::RepositoryView| exists|at: int| is_entry_of(entries, at, id),
        |id: crate::rule_files::RepositoryView|
            entries[choose|at: int| is_entry_of(entries, at, id)].generation as nat,
    )
}

/// Whether no repository has two entries.
spec fn are_distinct(entries: Seq<RefreshGeneration>) -> bool {
    forall|first: int, second: int|
        0 <= first < second < entries.len() ==> (#[trigger] entries[first]).repo_id.deep_view() != (
        #[trigger] entries[second]).repo_id.deep_view()
}

/// Where no repository has two entries, the entry of one gives its generation.
proof fn lemma_entry_gives_generation(entries: Seq<RefreshGeneration>, at: int)
    requires
        are_distinct(entries),
        0 <= at < entries.len(),
    ensures
        generations_of(entries).contains_key(entries[at].repo_id.deep_view()),
        generations_of(entries)[entries[at].repo_id.deep_view()] == entries[at].generation,
{
    let id = entries[at].repo_id.deep_view();
    assert(is_entry_of(entries, at, id));
    let chosen = choose|chosen: int| is_entry_of(entries, chosen, id);
    assert(is_entry_of(entries, chosen, id));
    assert(chosen == at);
}

/// Entries that differ in nothing but that of one repository give the other repositories
/// the same generations.
proof fn lemma_other_entries(
    entries: Seq<RefreshGeneration>,
    changed: Seq<RefreshGeneration>,
    id: crate::rule_files::RepositoryView,
)
    requires
        are_distinct(entries),
        are_distinct(changed),
        forall|at: int|
            0 <= at < entries.len() && (#[trigger] entries[at]).repo_id.deep_view() != id
                ==> exists|to: int| 0 <= to < changed.len() && #[trigger] changed[to] == entries[at],
        forall|at: int|
            0 <= at < changed.len() && (#[trigger] changed[at]).repo_id.deep_view() != id
                ==> exists|from: int|
                0 <= from < entries.len() && #[trigger] entries[from] == changed[at],
    ensures
        generations_of(changed).remove(id) == generations_of(entries).remove(id),
{
    let former = generations_of(entries).remove(id);
    let latter = generations_of(changed).remove(id);
    assert forall|other: crate::rule_files::RepositoryView| #[trigger]
        former.contains_key(other) implies latter.contains_key(other) && latter[other]
        == former[other] by {
        let at = choose|at: int| is_entry_of(entries, at, other);
        assert(is_entry_of(entries, at, other));
        let to = choose|to: int| 0 <= to < changed.len() && #[trigger] changed[to] == entries[at];
        lemma_entry_gives_generation(entries, at);
        lemma_entry_gives_generation(changed, to);
    }
    assert forall|other: crate::rule_files::RepositoryView| #[trigger]
        latter.contains_key(other) implies former.contains_key(other) by {
        let at = choose|at: int| is_entry_of(changed, at, other);
        assert(is_entry_of(changed, at, other));
        let from = choose|from: int|
            0 <= from < entries.len() && #[trigger] entries[from] == changed[at];
        lemma_entry_gives_generation(entries, from);
    }
    assert(latter =~= former);
}

/// Writing the one entry of a repository, in its place or behind the others where it had
/// none, gives the repository the generation of that entry and changes nothing else.
proof fn lemma_entry_written(
    entries: Seq<RefreshGeneration>,
    changed: Seq<RefreshGeneration>,
    at: int,
    id: crate::rule_files::RepositoryView,
)
    requires
        are_distinct(entries),
        is_entry_of(changed, at, id),
        entries.len() <= changed.len() <= entries.len() + 1,
        forall|other: int| 0 <= other < changed.len() && other != at ==> {
            &&& other < entries.len()
            &&& #[trigger] changed[other] == entries[other]
            &&& !is_entry_of(entries, other, id)
        },
        at < entries.len() ==> is_entry_of(entries, at, id),
    ensures
        are_distinct(changed),
        generations_of(changed) == generations_of(entries).insert(
            id,
            changed[at].generation as nat,
        ),
{
    assert forall|other: int|
        0 <= other < entries.len() && (#[trigger] entries[other]).repo_id.deep_view()
            != id implies exists|to: int|
        0 <= to < changed.len() && #[trigger] changed[to] == entries[other] by {
        assert(changed[other] == entries[other]);
    }
    lemma_other_entries(entries, changed, id);
    lemma_entry_gives_generation(changed, at);
    let former = generations_of(entries);
    let latter = generations_of(changed);
    assert forall|other: crate::rule_files::RepositoryView| other != id implies (
    #[trigger] latter.contains_key(other)) == former.contains_key(other) by {
        assert(latter.remove(id).contains_key(other) == former.remove(id).contains_key(other));
    }
    assert forall|other: crate::rule_files::RepositoryView|
        other != id && #[trigger] latter.contains_key(other) implies latter[other]
        == former[other] by {
        assert(latter.remove(id)[other] == former.remove(id)[other]);
    }
    assert(latter =~= former.insert(id, changed[at].generation as nat));
}

/// What keeps the project rules of repositories up to date.
#[derive(Debug)]
pub struct MetadataProjectRulesModel {
    refresh_generations: Vec<RefreshGeneration>,
    next_refresh_generation: u64,
}

impl View for MetadataProjectRulesModel {
    type V = RefreshState;

    closed spec fn view(&self) -> RefreshState {
        RefreshState {
            generations: generations_of(self.refresh_generations@),
            last: self.next_refresh_generation as nat,
        }
    }
}

impl MetadataProjectRulesModel {
    /// The invariant: no repository has two entries, and the generations are valid.
    pub closed spec fn wf(&self) -> bool {
        are_distinct(self.refresh_generations@) && is_valid(self@)
    }

    /// Every generation was given out, and no two repositories have the same.
    pub proof fn law_generations_are_valid(&self)
        requires
            self.wf(),
        ensures
            is_valid(self@),
    {
    }

    /// The last generation that was given out; 0 before the first one.
    pub fn last_refresh_generation(&self) -> (generation: u64)
        ensures
            generation == self@.last,
    {
        self.next_refresh_generation
    }

    /// Finds the entry of a repository.
    fn position(&self, repo_id: &RepositoryIdentifier) -> (at: Option<usize>)
        ensures
            match at {
                Some(at) => is_entry_of(
                    self.refresh_generations@,
                    at as int,
                    repo_id.deep_view(),
                ),
                None => forall|at: int|
                    !is_entry_of(self.refresh_generations@, at, repo_id.deep_view()),
            },
    {
        let mut i: usize = 0;
        while i < self.refresh_generations.len()
            invariant
                i <= self.refresh_generations@.len(),
                forall|at: int|
                    at < i ==> !is_entry_of(self.refresh_generations@, at, repo_id.deep_view()),
            decreases self.refresh_generations@.len() - i,
        {
            if self.refresh_generations[i].repo_id.is_same(repo_id) {
                return Some(i);
            }
            i = i + 1;
        }
        None
    }

    /// Gives a repository the next generation.
    pub fn advance_refresh_generation(&mut self, repo_id: &RepositoryIdentifier) -> (generation:
        u64)
        requires
            old(self).wf(),
            old(self)@.last < u64::MAX,
        ensures
            final(self).wf(),
            final(self)@ == advanced(old(self)@, repo_id.deep_view()),
            generation == final(self)@.last,
    {
        let ghost id = repo_id.deep_view();
        let ghost before = self.refresh_generations@;
        self.next_refresh_generation = self.next_refresh_generation + 1;
        let generation: u64 = self.next_refresh_generation;
        let entry = RefreshGeneration { repo_id: repo_id.clone(), generation };
        let ghost at: int;
        match self.position(repo_id) {
            Some(i) => {
                proof {
                    at = i as int;
                }
                self.refresh_generations.set(i, entry);
            },
            None => {
                proof {
                    at = before.len() as int;
                }
                self.refresh_generations.push(entry);
            },
        }
        proof {
            lemma_entry_written(before, self.refresh_generations@, at, id);
            assert(self@ == advanced(old(self)@, id));
            law_advancing_keeps_the_state_valid(old(self)@, id);
        }
        generation
    }

    /// Takes the generation of a repository away.
    fn forget(&mut self, repo_id: &RepositoryIdentifier)
        requires
            old(self).wf(),
        ensures
            final(self).wf(),
            final(self)@ == forgotten(old(self)@, repo_id.deep_view()),
    {
        let ghost id = repo_id.deep_view();
        let ghost before = self.refresh_generations@;
        match self.position(repo_id) {
            Some(i) => {
                self.refresh_generations.remove(i);
                proof {
                    let changed = self.refresh_generations@;
                    assert forall|at: int|
                        0 <= at < before.len() && (#[trigger] before[at]).repo_id.deep_view()
                            != id implies exists|to: int|
                        0 <= to < changed.len() && #[trigger] changed[to] == before[at] by {
                        if at < i {
                            assert(changed[at] == before[at]);
                        } else {
                            assert(changed[at - 1] == before[at]);
                        }
                    }
                    assert forall|at: int| 0 <= at < changed.len() implies exists|from: int|
                        0 <= from < before.len() && #[trigger] before[from]
                            == #[trigger] changed[at] by {
                        if at < i {
                            assert(changed[at] == before[at]);
                        } else {
                            assert(changed[at] == before[at + 1]);
                        }
                    }
                    lemma_other_entries(before, changed, id);
                    assert forall|at: int| !is_entry_of(changed, at, id) by {
                        if is_entry_of(changed, at, id) {
                            if at < i {
                                assert(changed[at] == before[at]);
                            } else {
                                assert(changed[at] == before[at + 1]);
                            }
                        }
                    }
                    assert(generations_of(changed).remove(id) =~= generations_of(changed));
                }
            },
            None => {
                assert(generations_of(before).remove(id) =~= generations_of(before));
            },
        }
        proof {
            assert(self@ == forgotten(old(self)@, id));
            law_forgetting_keeps_the_state_valid(old(self)@, id);
        }
    }
}

/// The first of some repositories hold no more remote ones than all of them.
proof fn lemma_remote_count_grows(ids: Seq<crate::rule_files::RepositoryView>, count: int)
    requires
        0 <= count <= ids.len(),
    ensures
        remote_count(ids.take(count)) <= remote_count(ids) <= ids.len(),
    decreases ids.len(),
{
    if count < ids.len() {
        lemma_remote_count_grows(ids.drop_last(), count);
        assert(ids.drop_last().take(count) =~= ids.take(count));
    } else {
        assert(ids.take(count) =~= ids);
        if ids.len() > 0 {
            lemma_remote_count_grows(ids.drop_last(), count - 1);
        }
    }
}

/// Counts the remote ones of some repositories.
fn count_remote(ids: &Vec<RepositoryIdentifier>) -> (count: usize)
    ensures
        count == remote_count(ids.deep_view()),
{
    let ghost all = ids.deep_view();
    assert(all.take(0) =~= Seq::empty());
    let mut count: usize = 0;
    let mut i: usize = 0;
    while i < ids.len()
        invariant
            i <= ids@.len(),
            all == ids.deep_view(),
            count <= i,
            count == remote_count(all.take(i as int)),
        decreases ids@.len() - i,
    {
        assert(all.take(i + 1).drop_last() =~= all.take(i as int));
        if let RepositoryIdentifier::Remote(_) = &ids[i] {
            count = count + 1;
        }
        i = i + 1;
    }
    assert(all.take(i as int) =~= all);
    count
}

/// Whether the rules of a repository are taken from anywhere.
fn has_rule_source(repo_id: &RepositoryIdentifier, facts: &RepoFacts) -> (found: bool)
    ensures
        found == is_refreshed(repo_id.deep_view(), facts.deep_view()),
{
    match repo_id {
        RepositoryIdentifier::Local(_) => match facts.coverage {
            Some(_) => true,
            None => facts.indexing_failed,
        },
        RepositoryIdentifier::Remote(_) => true,
    }
}

/// Puts a possible effect behind others.
fn push_effect(effects: &mut Vec<Effect>, effect: Option<Effect>)
    ensures
        final(effects).deep_view() == old(effects).deep_view() + as_effects(effect.deep_view()),
{
    let ghost before = effects.deep_view();
    match effect {
        Some(effect) => {
            effects.push(effect);
            assert(effects.deep_view() =~= before + seq![effect.deep_view()]);
        },
        None => {
            assert(effects.deep_view() =~= before + Seq::empty());
        },
    }
}

/// At most one effect, as a list.
fn effect_list(effect: Option<Effect>) -> (effects: Vec<Effect>)
    ensures
        effects.deep_view() == as_effects(effect.deep_view()),
{
    let mut effects: Vec<Effect> = Vec::new();
    push_effect(&mut effects, effect);
    assert(effects.deep_view() =~= as_effects(effect.deep_view()));
    effects
}

impl MetadataProjectRulesModel {
    /// Applies rules that were built for a refresh, if that refresh is still the last one
    /// of the repository.
    pub fn apply_project_rules_from_metadata_if_current(
        &self,
        repo_id: &RepositoryIdentifier,
        refresh_generation: u64,
        root_path: LocalOrRemotePath,
        rules: Vec<ProjectRule>,
    ) -> (effect: Option<Effect>)
        requires
            self.wf(),
        ensures
            effect.deep_view() == application(
                self@,
                repo_id.deep_view(),
                refresh_generation as nat,
                root_path.deep_view(),
                rules.deep_view(),
            ),
    {
        let at = match self.position(repo_id) {
            Some(at) => at,
            None => return None,
        };
        proof {
            lemma_entry_gives_generation(self.refresh_generations@, at as int);
        }
        if self.refresh_generations[at].generation != refresh_generation {
            return None;
        }
        match root_path {
            LocalOrRemotePath::Local(root) => Some(Effect::ReplaceLocalRules { root, rules }),
            LocalOrRemotePath::Remote(root) => Some(Effect::ReplaceRemoteRules { root, rules }),
        }
    }

    /// Goes on once rule files were read for a refresh, or could not be: the rules that
    /// they hold are applied if the refresh is still the last one of the repository, and
    /// nothing changes where reading failed.
    pub fn apply_read_project_rules(
        &self,
        repo_id: &RepositoryIdentifier,
        refresh_generation: u64,
        root_path: LocalOrRemotePath,
        rule_contents: Result<Vec<(LocalOrRemotePath, String)>, String>,
    ) -> (effect: Option<Effect>)
        requires
            self.wf(),
        ensures
            effect.deep_view() == match rule_contents {
                Ok(contents) => application(
                    self@,
                    repo_id.deep_view(),
                    refresh_generation as nat,
                    root_path.deep_view(),
                    rule_files::rules_of(contents.deep_view()),
                ),
                Err(_) => None,
            },
    {
        match rule_contents {
            Ok(contents) => {
                let rules = rule_files::build_project_rules(contents);
                self.apply_project_rules_from_metadata_if_current(
                    repo_id,
                    refresh_generation,
                    root_path,
                    rules,
                )
            },
            Err(_) => None,
        }
    }

    /// Has rule files read for a refresh, where they can be read.
    pub fn spawn_read_project_rules_from_files(
        repo_id: RepositoryIdentifier,
        refresh_generation: u64,
        root_path: LocalOrRemotePath,
        rule_paths: Vec<LocalOrRemotePath>,
        has_client: bool,
    ) -> (effect: Option<Effect>)
        ensures
            effect.deep_view() == match rule_files::rule_read(rule_paths.deep_view(), has_client) {
                Some(read) => Some(
                    EffectView::ReadRules {
                        repo_id: repo_id.deep_view(),
                        generation: refresh_generation as nat,
                        root: root_path.deep_view(),
                        read,
                    },
                ),
                None => None,
            },
    {
        match rule_files::read_project_rule_contents(rule_paths, has_client) {
            Some(read) => Some(
                Effect::ReadRules {
                    repo_id,
                    generation: refresh_generation,
                    root: root_path,
                    read,
                },
            ),
            None => None,
        }
    }

    /// Refreshes the rules of a repository from its metadata.
    pub fn refresh_project_rules_from_metadata(
        &mut self,
        repo_id: &RepositoryIdentifier,
        facts: &RepoFacts,
    ) -> (effect: Option<Effect>)
        requires
            old(self).wf(),
            old(self)@.last < u64::MAX,
        ensures
            final(self).wf(),
            (Outcome { state: final(self)@, effects: as_effects(effect.deep_view()) })
                == refreshed_from_metadata(
                old(self)@,
                repo_id.deep_view(),
                facts.deep_view(),
            ),
    {
        let refresh_generation: u64 = self.advance_refresh_generation(repo_id);
        let root_path = match &facts.root_path {
            Some(root_path) => root_path.clone(),
            None => return None,
        };
        let rule_paths = rule_files::find_project_rule_files_in_tree(repo_id, &facts.contents);
        if rule_paths.len() == 0 {
            let rules: Vec<ProjectRule> = Vec::new();
            assert(rules.deep_view() =~= Seq::empty());
            return self.apply_project_rules_from_metadata_if_current(
                repo_id,
                refresh_generation,
                root_path,
                rules,
            );
        }
        Self::spawn_read_project_rules_from_files(
            repo_id.clone(),
            refresh_generation,
            root_path,
            rule_paths,
            facts.has_client,
        )
    }

    /// Refreshes the rules of a repository on this machine from the file system.
    pub fn refresh_local_project_rules_from_filesystem(
        &mut self,
        repo_id: &RepositoryIdentifier,
        facts: &RepoFacts,
    ) -> (effects: Vec<Effect>)
        requires
            old(self).wf(),
            old(self)@.last < u64::MAX,
        ensures
            final(self).wf(),
            (Outcome { state: final(self)@, effects: effects.deep_view() })
                == refreshed_from_filesystem(
                old(self)@,
                repo_id.deep_view(),
                facts.deep_view(),
            ),
    {
        self.advance_refresh_generation(repo_id);
        let mut effects: Vec<Effect> = Vec::new();
        if let Some(root) = &facts.local_path {
            effects.push(Effect::UseLocalFilesystem { root: root.clone() });
            effects.push(Effect::IndexLocalRules { root: root.clone() });
        }
        assert(effects.deep_view() =~= refreshed_from_filesystem(
            old(self)@,
            repo_id.deep_view(),
            facts.deep_view(),
        ).effects);
        effects
    }

    /// Refreshes the rules of a repository from where they are to be taken.
    pub fn refresh_or_fallback_project_rules_for_repo(
        &mut self,
        repo_id: &RepositoryIdentifier,
        facts: &RepoFacts,
    ) -> (effects: Vec<Effect>)
        requires
            old(self).wf(),
            is_refreshed(repo_id.deep_view(), facts.deep_view()) ==> old(self)@.last < u64::MAX,
        ensures
            final(self).wf(),
            (Outcome { state: final(self)@, effects: effects.deep_view() }) == refreshed(
                old(self)@,
                repo_id.deep_view(),
                facts.deep_view(),
            ),
    {
        match repo_id {
            RepositoryIdentifier::Local(_) => match facts.coverage {
                Some(RepositoryCoverage::Complete) => effect_list(
                    self.refresh_project_rules_from_metadata(repo_id, facts),
                ),
                Some(RepositoryCoverage::Degraded) =>
                self.refresh_local_project_rules_from_filesystem(repo_id, facts),
                None => if facts.indexing_failed {
                    self.refresh_local_project_rules_from_filesystem(repo_id, facts)
                } else {
                    effect_list(None)
                },
            },
            RepositoryIdentifier::Remote(_) => effect_list(
                self.refresh_project_rules_from_metadata(repo_id, facts),
            ),
        }
    }

    /// Drops the rules of a repository that was removed.
    pub fn clear_project_rules_for_removed_repository(
        &mut self,
        repo_id: &RepositoryIdentifier,
        facts: &RepoFacts,
    ) -> (effect: Option<Effect>)
        requires
            old(self).wf(),
        ensures
            final(self).wf(),
            (Outcome { state: final(self)@, effects: as_effects(effect.deep_view()) }) == removed(
                old(self)@,
                repo_id.deep_view(),
                facts.deep_view(),
            ),
    {
        self.forget(repo_id);
        match &facts.root_path {
            Some(LocalOrRemotePath::Local(root)) => Some(
                Effect::ClearLocalRules { root: root.clone() },
            ),
            Some(LocalOrRemotePath::Remote(root)) => Some(
                Effect::ClearRemoteRules { root: root.clone() },
            ),
            None => None,
        }
    }

    /// Refreshes the rules of all repositories that are there at the start, those on this
    /// machine first, given the facts about each of them.
    pub fn new(
        local_ids: Vec<RepositoryIdentifier>,
        remote_ids: Vec<RemotePath>,
        facts: &Vec<RepoFacts>,
    ) -> (started: (MetadataProjectRulesModel, Vec<Effect>))
        requires
            facts@.len() == local_ids@.len() + remote_ids@.len(),
        ensures
            started.0.wf(),
            (Outcome { state: started.0@, effects: started.1.deep_view() }) == all_refreshed(
                no_refreshes(),
                initial_ids(local_ids.deep_view(), remote_ids.deep_view()),
                facts.deep_view(),
            ),
    {
        let ghost ids = initial_ids(local_ids.deep_view(), remote_ids.deep_view());
        let mut repo_ids = local_ids;
        let mut i: usize = 0;
        while i < remote_ids.len()
            invariant
                i <= remote_ids@.len(),
                ids == initial_ids(local_ids.deep_view(), remote_ids.deep_view()),
                repo_ids.deep_view() == ids.take(local_ids@.len() + i),
            decreases remote_ids@.len() - i,
        {
            let ghost before = repo_ids.deep_view();
            let repo_id = RepositoryIdentifier::Remote(remote_ids[i].clone());
            repo_ids.push(repo_id);
            assert(repo_ids.deep_view() =~= before.push(repo_id.deep_view()));
            assert(ids.take(local_ids@.len() + i + 1) =~= before.push(ids[local_ids@.len() + i]));
            i = i + 1;
        }
        assert(repo_ids.deep_view() =~= ids);
        let mut model = MetadataProjectRulesModel {
            refresh_generations: Vec::new(),
            next_refresh_generation: 0,
        };
        assert(model@.generations =~= Map::empty());
        let mut effects: Vec<Effect> = Vec::new();
        assert(effects.deep_view() =~= Seq::empty());
        assert(ids.take(0) =~= Seq::empty());
        let mut j: usize = 0;
        while j < repo_ids.len()
            invariant
                j <= repo_ids@.len(),
                repo_ids@.len() == facts@.len(),
                repo_ids.deep_view() == ids,
                model.wf(),
                model@.last <= j,
                (Outcome { state: model@, effects: effects.deep_view() }) == all_refreshed(
                    no_refreshes(),
                    ids.take(j as int),
                    facts.deep_view(),
                ),
            decreases repo_ids@.len() - j,
        {
            proof {
                assert(ids.take(j + 1).drop_last() =~= ids.take(j as int));
                assert(facts.deep_view()[j as int] == facts@[j as int].deep_view());
                assert(ids[j as int] == repo_ids@[j as int].deep_view());
            }
            let ghost before = effects.deep_view();
            let mut refresh_effects = model.refresh_or_fallback_project_rules_for_repo(
                &repo_ids[j],
                &facts[j],
            );
            let ghost added = refresh_effects.deep_view();
            effects.append(&mut refresh_effects);
            assert(effects.deep_view() =~= before + added);
            j = j + 1;
        }
        assert(ids.take(j as int) =~= ids);
        (model, effects)
    }

    /// Refreshes the rules of the remote ones of some repositories.
    fn refresh_remote(&mut self, ids: &Vec<RepositoryIdentifier>, facts: &Vec<RepoFacts>) -> (
        effects: Vec<Effect>)
        requires
            old(self).wf(),
            facts@.len() == ids@.len(),
            old(self)@.last + remote_count(ids.deep_view()) <= u64::MAX,
        ensures
            final(self).wf(),
            (Outcome { state: final(self)@, effects: effects.deep_view() }) == trees_updated(
                old(self)@,
                ids.deep_view(),
                facts.deep_view(),
            ),
    {
        let ghost start = self@;
        let ghost all = ids.deep_view();
        let mut effects: Vec<Effect> = Vec::new();
        assert(effects.deep_view() =~= Seq::empty());
        assert(all.take(0) =~= Seq::empty());
        let mut i: usize = 0;
        while i < ids.len()
            invariant
                i <= ids@.len(),
                facts@.len() == ids@.len(),
                all == ids.deep_view(),
                self.wf(),
                start.last + remote_count(all) <= u64::MAX,
                self@.last == start.last + remote_count(all.take(i as int)),
                (Outcome { state: self@, effects: effects.deep_view() }) == trees_updated(
                    start,
                    all.take(i as int),
                    facts.deep_view(),
                ),
            decreases ids@.len() - i,
        {
            proof {
                assert(all.take(i + 1).drop_last() =~= all.take(i as int));
                assert(facts.deep_view()[i as int] == facts@[i as int].deep_view());
                assert(all[i as int] == ids@[i as int].deep_view());
                lemma_remote_count_grows(all, i + 1);
            }
            if let RepositoryIdentifier::Remote(_) = &ids[i] {
                let effect = self.refresh_project_rules_from_metadata(&ids[i], &facts[i]);
                push_effect(&mut effects, effect);
            }
            i = i + 1;
        }
        assert(all.take(i as int) =~= all);
        effects
    }

    /// Whether there are generations left for a change in the metadata.
    pub fn has_generations_for(&self, event: &RepoMetadataEvent, facts: &Vec<RepoFacts>) -> (
        enough: bool)
        requires
            facts@.len() == event_ids(event.deep_view()).len(),
        ensures
            enough == (self@.last + generations_needed(event.deep_view(), facts.deep_view())
                <= u64::MAX),
    {
        let left: u64 = u64::MAX - self.next_refresh_generation;
        match event {
            RepoMetadataEvent::RepositoryUpdated { id } => left > 0 || !has_rule_source(
                id,
                &facts[0],
            ),
            RepoMetadataEvent::FileTreeEntryUpdated { id } => left > 0 || !has_rule_source(
                id,
                &facts[0],
            ),
            RepoMetadataEvent::FileTreeUpdated { ids } => count_remote(ids) as u64 <= left,
            RepoMetadataEvent::RepositoryRemoved { .. } => true,
            RepoMetadataEvent::UpdatingRepositoryFailed { id } => left > 0 || !has_rule_source(
                id,
                &facts[0],
            ),
            RepoMetadataEvent::IncrementalUpdateReady => true,
        }
    }

    /// Takes up a change in the metadata, given the facts about each repository that it
    /// is about.
    pub fn handle_repo_metadata_event(
        &mut self,
        event: &RepoMetadataEvent,
        facts: &Vec<RepoFacts>,
    ) -> (effects: Vec<Effect>)
        requires
            old(self).wf(),
            facts@.len() == event_ids(event.deep_view()).len(),
            old(self)@.last + generations_needed(event.deep_view(), facts.deep_view()) <= u64::MAX,
        ensures
            final(self).wf(),
            (Outcome { state: final(self)@, effects: effects.deep_view() }) == handled(
                old(self)@,
                event.deep_view(),
                facts.deep_view(),
            ),
    {
        match event {
            RepoMetadataEvent::RepositoryUpdated { id } => self.refresh_or_fallback_project_rules_for_repo(
                id,
                &facts[0],
            ),
            RepoMetadataEvent::FileTreeEntryUpdated { id } => self.refresh_or_fallback_project_rules_for_repo(
                id,
                &facts[0],
            ),
            RepoMetadataEvent::FileTreeUpdated { ids } => self.refresh_remote(ids, facts),
            RepoMetadataEvent::RepositoryRemoved { id } => effect_list(
                self.clear_project_rules_for_removed_repository(id, &facts[0]),
            ),
            RepoMetadataEvent::UpdatingRepositoryFailed { id } => self.refresh_or_fallback_project_rules_for_repo(
                id,
                &facts[0],
            ),
            RepoMetadataEvent::IncrementalUpdateReady => effect_list(None),
        }
    }
}

/// The next generation is one that was never given out, so the state stays valid.
pub proof fn law_advancing_keeps_the_state_valid(
    state: RefreshState,
    id: crate::rule_files::RepositoryView,
)
    requires
        is_valid(state),
    ensures
        is_valid(advanced(state, id)),
        is_current(advanced(state, id), id, state.last + 1),
{
}

/// Taking a generation away leaves the state valid.
pub proof fn law_forgetting_keeps_the_state_valid(
    state: RefreshState,
    id: crate::rule_files::RepositoryView,
)
    requires
        is_valid(state),
    ensures
        is_valid(forgotten(state, id)),
        !forgotten(state, id).generations.contains_key(id),
{
}

/// Whether an event refreshes or removes a repository.
pub open spec fn touches(
    event: EventView,
    facts: Seq<RepoFactsView>,
    id: crate::rule_files::RepositoryView,
) -> bool {
    match event {
        EventView::RepositoryUpdated { id: updated } => updated == id && is_refreshed(
            id,
            facts[0],
        ),
        EventView::FileTreeEntryUpdated { id: updated } => updated == id && is_refreshed(
            id,
            facts[0],
        ),
        EventView::FileTreeUpdated { ids } => id is Remote && ids.contains(id),
        EventView::RepositoryRemoved { id: removed } => removed == id,
        EventView::UpdatingRepositoryFailed { id: failed } => failed == id && is_refreshed(
            id,
            facts[0],
        ),
        EventView::IncrementalUpdateReady => false,
    }
}

/// The generations after some events, each with the facts about its repositories.
pub open spec fn state_after(
    state: RefreshState,
    events: Seq<(EventView, Seq<RepoFactsView>)>,
) -> RefreshState
    decreases events.len(),
{
    if events.len() == 0 {
        state
    } else {
        let before = state_after(state, events.drop_last());
        handled(before, events.last().0, events.last().1).state
    }
}

/// What updated file trees do to the generation of a repository.
proof fn lemma_trees_updated(
    state: RefreshState,
    ids: Seq<crate::rule_files::RepositoryView>,
    facts: Seq<RepoFactsView>,
    id: crate::rule_files::RepositoryView,
)
    requires
        is_valid(state),
    ensures
        ({
            let after = trees_updated(state, ids, facts).state;
            &&& is_valid(after)
            &&& after.last == state.last + remote_count(ids)
            &&& if id is Remote && ids.contains(id) {
                after.generations.contains_key(id) && after.generations[id] > state.last
            } else {
                &&& after.generations.contains_key(id) == state.generations.contains_key(id)
                &&& after.generations.contains_key(id) ==> after.generations[id]
                    == state.generations[id]
            }
        }),
    decreases ids.len(),
{
    if ids.len() > 0 {
        let rest = ids.drop_last();
        lemma_trees_updated(state, rest, facts, id);
        assert(ids =~= rest.push(ids.last()));
        if rest.contains(id) {
            let at = choose|at: int| 0 <= at < rest.len() && rest[at] == id;
            assert(ids[at] == id);
        }
        if ids.contains(id) && ids.last() != id {
            let at = choose|at: int| 0 <= at < ids.len() && ids[at] == id;
            assert(rest[at] == id);
        }
        if ids.last() == id {
            assert(ids[ids.len() - 1] == id);
        }
        if ids.last() is Remote {
            law_advancing_keeps_the_state_valid(
                trees_updated(state, rest, facts).state,
                ids.last(),
            );
        }
    }
}

/// What an event does to the generations: they stay valid, the counter goes on by as many
/// as the event takes, and a repository keeps its generation exactly where the event does not touch it. A
/// touched repository has a newer one or none.
pub proof fn law_event_changes_touched_repositories_only(
    state: RefreshState,
    event: EventView,
    facts: Seq<RepoFactsView>,
    id: crate::rule_files::RepositoryView,
)
    requires
        is_valid(state),
    ensures
        ({
            let after = handled(state, event, facts).state;
            &&& is_valid(after)
            &&& after.last == state.last + generations_needed(event, facts)
            &&& if touches(event, facts, id) {
                after.generations.contains_key(id) ==> after.generations[id] > state.last
            } else {
                &&& after.generations.contains_key(id) == state.generations.contains_key(id)
                &&& after.generations.contains_key(id) ==> after.generations[id]
                    == state.generations[id]
            }
        }),
{
    match event {
        EventView::FileTreeUpdated { ids } => {
            lemma_trees_updated(state, ids, facts, id);
        },
        _ => {},
    }
}

/// The generations stay valid whatever events come.
pub proof fn law_events_keep_the_state_valid(
    state: RefreshState,
    events: Seq<(EventView, Seq<RepoFactsView>)>,
)
    requires
        is_valid(state),
    ensures
        is_valid(state_after(state, events)),
        state.last <= state_after(state, events).last,
    decreases events.len(),
{
    if events.len() > 0 {
        law_events_keep_the_state_valid(state, events.drop_last());
        law_event_changes_touched_repositories_only(
            state_after(state, events.drop_last()),
            events.last().0,
            events.last().1,
            arbitrary(),
        );
    }
}

/// A refresh that is not the last one of its repository never becomes it again: rules
/// that were built for it are never applied.
pub proof fn law_superseded_refresh_stays_superseded(
    state: RefreshState,
    events: Seq<(EventView, Seq<RepoFactsView>)>,
    id: crate::rule_files::RepositoryView,
    generation: nat,
    root: crate::rule_files::PathView,
    rules: Seq<crate::rule_files::ProjectRuleView>,
)
    requires
        is_valid(state),
        generation <= state.last,
        !is_current(state, id, generation),
    ensures
        !is_current(state_after(state, events), id, generation),
        application(state_after(state, events), id, generation, root, rules) is None,
    decreases events.len(),
{
    if events.len() > 0 {
        let rest = events.drop_last();
        law_superseded_refresh_stays_superseded(state, rest, id, generation, root, rules);
        law_events_keep_the_state_valid(state, rest);
        law_event_changes_touched_repositories_only(
            state_after(state, rest),
            events.last().0,
            events.last().1,
            id,
        );
    }
}

/// Rules that were built for the last refresh of a repository are applied exactly where
/// no event since then refreshed or removed the repository.
pub proof fn law_rules_are_applied_unless_superseded(
    state: RefreshState,
    events: Seq<(EventView, Seq<RepoFactsView>)>,
    id: crate::rule_files::RepositoryView,
    generation: nat,
    root: crate::rule_files::PathView,
    rules: Seq<crate::rule_files::ProjectRuleView>,
)
    requires
        is_valid(state),
        is_current(state, id, generation),
    ensures
        application(state_after(state, events), id, generation, root, rules) == (if forall|at: int|
            0 <= at < events.len() ==> !touches(
                (#[trigger] events[at]).0,
                events[at].1,
                id,
            ) {
            Some(replacement(root, rules))
        } else {
            None
        }),
    decreases events.len(),
{
    if events.len() > 0 {
        let rest = events.drop_last();
        law_rules_are_applied_unless_superseded(state, rest, id, generation, root, rules);
        law_events_keep_the_state_valid(state, rest);
        law_event_changes_touched_repositories_only(
            state_after(state, rest),
            events.last().0,
            events.last().1,
            id,
        );
        let undisturbed = forall|at: int|
            0 <= at < events.len() ==> !touches((#[trigger] events[at]).0, events[at].1, id);
        if undisturbed {
            assert forall|at: int| 0 <= at < rest.len() implies !touches(
                (#[trigger] rest[at]).0,
                rest[at].1,
                id,
            ) by {
                assert(rest[at] == events[at]);
            }
            assert(events[events.len() - 1] == events.last());
        } else {
            let at = choose|at: int|
                0 <= at < events.len() && touches((#[trigger] events[at]).0, events[at].1, id);
            if at < rest.len() {
                assert(rest[at] == events[at]);
                assert(touches(rest[at].0, rest[at].1, id));
            }
            assert(generation <= state.last);
        }
    }
}

/// Rule files that are read for a refresh are read for its repository and root, and under
/// its generation, which is the last one of the repository.
pub proof fn law_files_are_read_for_the_last_refresh(
    state: RefreshState,
    id: crate::rule_files::RepositoryView,
    facts: RepoFactsView,
)
    ensures
        ({
            let after = refreshed(state, id, facts);
            forall|at: int|
                0 <= at < after.effects.len() ==> ((
                #[trigger] after.effects[at]) matches EffectView::ReadRules {
                    repo_id,
                    generation,
                    root,
                    ..
                } ==> {
                    &&& repo_id == id
                    &&& Some(root) == facts.root_path
                    &&& is_current(after.state, id, generation)
                })
        }),
{
}

/// Whether an effect reads rule files only for one of some repositories and under a
/// generation within some bounds.
pub open spec fn reads_within(
    effect: EffectView,
    ids: Seq<crate::rule_files::RepositoryView>,
    before: nat,
    last: nat,
) -> bool {
    effect matches EffectView::ReadRules { repo_id, generation, .. } ==> ids.contains(repo_id)
        && before < generation <= last
}

/// What updated file trees have read.
proof fn lemma_trees_read(
    state: RefreshState,
    ids: Seq<crate::rule_files::RepositoryView>,
    facts: Seq<RepoFactsView>,
)
    ensures
        ({
            let after = trees_updated(state, ids, facts);
            &&& state.last <= after.state.last
            &&& forall|at: int|
                0 <= at < after.effects.len() ==> reads_within(
                    #[trigger] after.effects[at],
                    ids,
                    state.last,
                    after.state.last,
                )
        }),
    decreases ids.len(),
{
    if ids.len() > 0 {
        let rest = ids.drop_last();
        lemma_trees_read(state, rest, facts);
        let before = trees_updated(state, rest, facts);
        let after = trees_updated(state, ids, facts);
        assert forall|at: int| 0 <= at < after.effects.len() implies reads_within(
            #[trigger] after.effects[at],
            ids,
            state.last,
            after.state.last,
        ) by {
            if at < before.effects.len() {
                assert(after.effects[at] == before.effects[at]);
                assert(reads_within(
                    before.effects[at],
                    rest,
                    state.last,
                    before.state.last,
                ));
                if let EffectView::ReadRules { repo_id, .. } = before.effects[at] {
                    let i = choose|i: int| 0 <= i < rest.len() && rest[i] == repo_id;
                    assert(ids[i] == repo_id);
                }
            } else {
                assert(ids[ids.len() - 1] == ids.last());
            }
        }
    }
}

/// Whatever event has rule files read, they are read for a repository that the event is
/// about, and under a generation that was not given out before the event.
pub proof fn law_files_are_read_under_new_generations(
    state: RefreshState,
    event: EventView,
    facts: Seq<RepoFactsView>,
)
    ensures
        ({
            let after = handled(state, event, facts);
            forall|at: int|
                0 <= at < after.effects.len() ==> reads_within(
                    #[trigger] after.effects[at],
                    event_ids(event),
                    state.last,
                    after.state.last,
                )
        }),
{
    match event {
        EventView::RepositoryUpdated { id } => {
            assert(event_ids(event)[0] == id);
        },
        EventView::FileTreeEntryUpdated { id } => {
            assert(event_ids(event)[0] == id);
        },
        EventView::FileTreeUpdated { ids } => {
            lemma_trees_read(state, ids, facts);
        },
        EventView::UpdatingRepositoryFailed { id } => {
            assert(event_ids(event)[0] == id);
        },
        _ => {},
    }
}

/// Nothing is applied to a repository that was removed.
pub proof fn law_removed_repository_gets_no_rules(
    state: RefreshState,
    id: crate::rule_files::RepositoryView,
    facts: RepoFactsView,
    generation: nat,
    root: crate::rule_files::PathView,
    rules: Seq<crate::rule_files::ProjectRuleView>,
)
    ensures
        application(removed(state, id, facts).state, id, generation, root, rules) is None,
{
}

/// Starting leaves the generations valid, with at most one given out for each repository.
pub proof fn law_start_is_valid(
    ids: Seq<crate::rule_files::RepositoryView>,
    facts: Seq<RepoFactsView>,
)
    ensures
        is_valid(all_refreshed(no_refreshes(), ids, facts).state),
        all_refreshed(no_refreshes(), ids, facts).state.last <= ids.len(),
    decreases ids.len(),
{
    if ids.len() > 0 {
        law_start_is_valid(ids.drop_last(), facts);
    }
}

/// Whether a generation is the one of the last refresh of some repository.
pub open spec fn is_current_somewhere(state: RefreshState, generation: nat) -> bool {
    exists|id: crate::rule_files::RepositoryView| #[trigger] is_current(state, id, generation)
}

/// How many refreshes some repositories get, one after the other.
pub open spec fn refresh_count(
    ids: Seq<crate::rule_files::RepositoryView>,
    facts: Seq<RepoFactsView>,
) -> nat
    decreases ids.len(),
{
    if ids.len() == 0 {
        0
    } else {
        refresh_count(ids.drop_last(), facts) + needed_for(ids.last(), facts[ids.len() - 1])
    }
}

/// Whether a place among some repositories is where one of them gets its last refresh.
pub open spec fn is_last_refresh(
    ids: Seq<crate::rule_files::RepositoryView>,
    facts: Seq<RepoFactsView>,
    at: int,
    id: crate::rule_files::RepositoryView,
) -> bool {
    &&& 0 <= at < ids.len()
    &&& ids[at] == id
    &&& is_refreshed(ids[at], facts[at])
    &&& forall|later: int|
        at < later < ids.len() && #[trigger] ids[later] == id ==> !is_refreshed(
            ids[later],
            facts[later],
        )
}

/// After the start exactly the refreshed repositories have a generation: the number of
/// refreshes up to and with their last one. The counter stands at the number of refreshes,
/// and where no repository is named twice, every generation up to it is that of some
/// repository.
pub proof fn law_start_numbers_the_refreshes(
    ids: Seq<crate::rule_files::RepositoryView>,
    facts: Seq<RepoFactsView>,
)
    ensures
        ({
            let state = all_refreshed(no_refreshes(), ids, facts).state;
            &&& state.last == refresh_count(ids, facts)
            &&& forall|id: crate::rule_files::RepositoryView| #[trigger]
                state.generations.contains_key(id) <==> exists|at: int|
                    is_last_refresh(ids, facts, at, id)
            &&& forall|at: int, id: crate::rule_files::RepositoryView| #[trigger]
                is_last_refresh(ids, facts, at, id) ==> state.generations[id] == refresh_count(
                    ids.take(at + 1),
                    facts,
                )
            &&& ids.no_duplicates() ==> forall|generation: nat|
                1 <= generation <= state.last ==> #[trigger] is_current_somewhere(
                    state,
                    generation,
                )
        }),
    decreases ids.len(),
{
    let state = all_refreshed(no_refreshes(), ids, facts).state;
    if ids.len() > 0 {
        let rest = ids.drop_last();
        let before = all_refreshed(no_refreshes(), rest, facts).state;
        let last = ids.len() - 1;
        let last_id = ids[last];
        let now = is_refreshed(last_id, facts[last]);
        law_start_numbers_the_refreshes(rest, facts);
        assert forall|at: int, id: crate::rule_files::RepositoryView| at != last && !(now && id
            == last_id) implies #[trigger] is_last_refresh(ids, facts, at, id)
            == is_last_refresh(rest, facts, at, id) by {
            if is_last_refresh(ids, facts, at, id) {
                assert forall|later: int|
                    at < later < rest.len() && #[trigger] rest[later] == id implies !is_refreshed(
                    rest[later],
                    facts[later],
                ) by {
                    assert(ids[later] == id);
                }
            }
            if is_last_refresh(rest, facts, at, id) {
                assert forall|later: int|
                    at < later < ids.len() && #[trigger] ids[later] == id implies !is_refreshed(
                    ids[later],
                    facts[later],
                ) by {
                    if later < last {
                        assert(rest[later] == id);
                    }
                }
            }
        }
        if now {
            assert(is_last_refresh(ids, facts, last, last_id));
        }
        assert forall|id: crate::rule_files::RepositoryView| #[trigger]
            state.generations.contains_key(id) <==> exists|at: int|
            is_last_refresh(ids, facts, at, id) by {
            if !(now && id == last_id) {
                assert(state.generations.contains_key(id) == before.generations.contains_key(id));
                if before.generations.contains_key(id) {
                    let at = choose|at: int| is_last_refresh(rest, facts, at, id);
                    assert(is_last_refresh(ids, facts, at, id));
                }
                if exists|at: int| is_last_refresh(ids, facts, at, id) {
                    let at = choose|at: int| is_last_refresh(ids, facts, at, id);
                    assert(at != last);
                    assert(is_last_refresh(rest, facts, at, id));
                }
            }
        }
        assert forall|at: int, id: crate::rule_files::RepositoryView| #[trigger]
            is_last_refresh(ids, facts, at, id) implies state.generations[id] == refresh_count(
            ids.take(at + 1),
            facts,
        ) by {
            if at == last {
                assert(ids.take(at + 1) =~= ids);
            } else {
                if now && id == last_id {
                    assert(ids[last] == id);
                }
                assert(is_last_refresh(rest, facts, at, id));
                assert(rest.take(at + 1) =~= ids.take(at + 1));
            }
        }
        if ids.no_duplicates() {
            assert(rest.no_duplicates());
            assert forall|generation: nat| 1 <= generation <= state.last implies #[trigger]
            is_current_somewhere(state, generation) by {
                if generation <= before.last {
                    assert(is_current_somewhere(before, generation));
                    let id = choose|id: crate::rule_files::RepositoryView| #[trigger]
                        is_current(before, id, generation);
                    assert(before.generations.contains_key(id));
                    let at = choose|at: int| is_last_refresh(rest, facts, at, id);
                    assert(rest[at] == id && ids[at] == id);
                    assert(id != last_id);
                    assert(is_current(state, id, generation));
                } else {
                    assert(is_current(state, last_id, generation));
                }
            }
        }
    }
}

/// Whether one repository got the next generation and nothing else changed.
pub open spec fn took_the_next_generation(
    before: RefreshState,
    after: RefreshState,
    id: crate::rule_files::RepositoryView,
) -> bool {
    &&& after.last == before.last + 1
    &&& after.generations.contains_key(id) && after.generations[id] == before.last + 1
    &&& forall|other: crate::rule_files::RepositoryView|
        other != id ==> {
            &&& (#[trigger] after.generations.contains_key(other))
                == before.generations.contains_key(other)
            &&& after.generations[other] == before.generations[other]
        }
}

/// Whether an effect empties the rules of a root.
pub open spec fn empties_rules(effect: EffectView, root: crate::rule_files::PathView) -> bool {
    match root {
        rule_files::PathView::Local(root) => effect == (EffectView::ReplaceLocalRules {
            root,
            rules: Seq::empty(),
        }),
        rule_files::PathView::Remote(root) => effect == (EffectView::ReplaceRemoteRules {
            root,
            rules: Seq::empty(),
        }),
    }
}

/// The rule files of a file tree, where it is known.
pub open spec fn rule_files_in(contents: Option<Seq<crate::rule_files::RepoContentView>>) -> Seq<
    crate::rule_files::RepoContentView,
> {
    match contents {
        Some(contents) => contents.filter(
            |content: crate::rule_files::RepoContentView| rule_files::is_rule_file(content),
        ),
        None => Seq::empty(),
    }
}

/// Whether an outcome is that of a refresh of a remote repository. Without a root there is
/// nothing to do. The rules are emptied only where the tree holds no rule file. Where it
/// holds some, all of them are asked of the host of the repository, whole and in one
/// request, if there is a client, and nothing is done if there is none.
pub open spec fn refreshes_remote(
    before: RefreshState,
    after: Outcome,
    root: crate::rule_files::RemotePathView,
    facts: RepoFactsView,
) -> bool {
    let id = rule_files::RepositoryView::Remote(root);
    let found = rule_files_in(facts.contents);
    &&& took_the_next_generation(before, after.state, id)
    &&& match facts.root_path {
        None => after.effects.len() == 0,
        Some(path) => if found.len() == 0 {
            after.effects.len() == 1 && empties_rules(after.effects[0], path)
        } else if !facts.has_client {
            after.effects.len() == 0
        } else {
            &&& after.effects.len() == 1
            &&& after.effects[0] matches EffectView::ReadRules {
                repo_id,
                generation,
                root: read_root,
                read,
            }
            &&& repo_id == id && generation == before.last + 1 && read_root == path
            &&& read matches rule_files::RuleReadView::Remote { host_id, request, paths }
            &&& host_id == root.host_id
            &&& request.max_file_bytes is None && request.max_batch_bytes is None
            &&& paths.len() == found.len() && request.files.len() == found.len()
            &&& forall|i: int|
                0 <= i < found.len() ==> {
                    &&& #[trigger] paths[i] == rule_files::PathView::Remote(
                        rule_files::RemotePathView {
                            host_id: root.host_id,
                            path: found[i]->path,
                        },
                    )
                    &&& request.files[i].path == found[i]->path
                    &&& request.files[i].line_ranges.len() == 0
                }
        },
    }
}

/// However a remote repository comes to be refreshed, by an event about it, by an update of
/// its tree or at the start, it is refreshed in the same way.
pub proof fn law_remote_repository_is_refreshed_from_its_tree(
    state: RefreshState,
    root: crate::rule_files::RemotePathView,
    facts: RepoFactsView,
)
    ensures
        ({
            let id = rule_files::RepositoryView::Remote(root);
            let all = seq![facts];
            &&& refreshes_remote(state, refreshed(state, id, facts), root, facts)
            &&& refreshes_remote(state, refreshed_from_metadata(state, id, facts), root, facts)
            &&& refreshes_remote(
                state,
                handled(state, EventView::RepositoryUpdated { id }, all),
                root,
                facts,
            )
            &&& refreshes_remote(
                state,
                handled(state, EventView::FileTreeEntryUpdated { id }, all),
                root,
                facts,
            )
            &&& refreshes_remote(
                state,
                handled(state, EventView::UpdatingRepositoryFailed { id }, all),
                root,
                facts,
            )
            &&& refreshes_remote(
                state,
                handled(state, EventView::FileTreeUpdated { ids: seq![id] }, all),
                root,
                facts,
            )
            &&& refreshes_remote(state, all_refreshed(state, seq![id], all), root, facts)
        }),
{
    let id = rule_files::RepositoryView::Remote(root);
    let all = seq![facts];
    let one = refreshed_from_metadata(state, id, facts);
    lemma_remote_refresh(state, root, facts);
    reveal_with_fuel(trees_updated, 2);
    reveal_with_fuel(all_refreshed, 2);
    assert(seq![id].drop_last() =~= Seq::empty());
    assert(trees_updated(state, seq![id], all) =~= one);
    assert(all_refreshed(state, seq![id], all) =~= one);
}

/// A refresh of a remote repository from its metadata is one.
proof fn lemma_remote_refresh(
    state: RefreshState,
    root: crate::rule_files::RemotePathView,
    facts: RepoFactsView,
)
    ensures
        refreshes_remote(
            state,
            refreshed_from_metadata(state, rule_files::RepositoryView::Remote(root), facts),
            root,
            facts,
        ),
{
    let id = rule_files::RepositoryView::Remote(root);
    let found = rule_files_in(facts.contents);
    let paths = rule_files::rule_paths(id, facts.contents);
    if let Some(contents) = facts.contents {
        rule_files::law_all_rule_files_are_read_in_order(Seq::empty(), root, contents);
        assert(paths =~= found.map_values(
            |content: crate::rule_files::RepoContentView|
                rule_files::PathView::Remote(
                    rule_files::RemotePathView { host_id: root.host_id, path: content->path },
                ),
        ));
    }
    rule_files::law_whole_remote_files_are_asked_for(paths);
    lemma_filter_keeps_all(
        paths,
        |path: crate::rule_files::PathView| path is Remote,
    );
}

/// A filter that every item passes keeps them all.
proof fn lemma_filter_keeps_all<A>(items: Seq<A>, keep: spec_fn(A) -> bool)
    requires
        forall|i: int| 0 <= i < items.len() ==> keep(#[trigger] items[i]),
    ensures
        items.filter(keep) == items,
    decreases items.len(),
{
    reveal(Seq::filter);
    if items.len() > 0 {
        assert(keep(items[items.len() - 1]));
        let rest = items.drop_last();
        assert forall|i: int| 0 <= i < rest.len() implies keep(#[trigger] rest[i]) by {
            assert(rest[i] == items[i]);
        }
        lemma_filter_keeps_all(rest, keep);
        assert(rest.push(items.last()) =~= items);
    }
}

/// Whether an outcome is that of a refresh of a repository on this machine. Where the
/// metadata cover it whole, its rule files on this machine are read, all of them, and its
/// rules are emptied only where there is none. Where they do not, or it could not be
/// indexed, its root is switched over to the file system and then indexed. As long as it is
/// not indexed nothing changes.
pub open spec fn refreshes_local(
    before: RefreshState,
    after: Outcome,
    id: crate::rule_files::RepositoryView,
    facts: RepoFactsView,
) -> bool {
    let found = rule_files_in(facts.contents).filter(
        |content: crate::rule_files::RepoContentView| content->local_path is Some,
    );
    if facts.coverage == Some(RepositoryCoverage::Complete) {
        &&& took_the_next_generation(before, after.state, id)
        &&& match facts.root_path {
            None => after.effects.len() == 0,
            Some(path) => if found.len() == 0 {
                after.effects.len() == 1 && empties_rules(after.effects[0], path)
            } else {
                &&& after.effects.len() == 1
                &&& after.effects[0] matches EffectView::ReadRules {
                    repo_id,
                    generation,
                    root,
                    read,
                }
                &&& repo_id == id && generation == before.last + 1 && root == path
                &&& read matches rule_files::RuleReadView::Local { paths }
                &&& paths.len() == found.len()
                &&& forall|i: int|
                    0 <= i < found.len() ==> #[trigger] paths[i] == rule_files::PathView::Local(
                        found[i]->local_path->0,
                    )
            },
        }
    } else if facts.coverage == Some(RepositoryCoverage::Degraded) || facts.indexing_failed {
        &&& took_the_next_generation(before, after.state, id)
        &&& match facts.local_path {
            None => after.effects.len() == 0,
            Some(root) => {
                &&& after.effects.len() == 2
                &&& after.effects[0] == (EffectView::UseLocalFilesystem { root })
                &&& after.effects[1] == (EffectView::IndexLocalRules { root })
            },
        }
    } else {
        after.state == before && after.effects.len() == 0
    }
}

/// However a repository on this machine comes to be refreshed, it is refreshed in the same
/// way; an update of its tree alone does not refresh it.
pub proof fn law_local_repository_is_refreshed_by_its_coverage(
    state: RefreshState,
    root: Seq<char>,
    facts: RepoFactsView,
)
    ensures
        ({
            let id = rule_files::RepositoryView::Local(root);
            let all = seq![facts];
            &&& refreshes_local(state, refreshed(state, id, facts), id, facts)
            &&& refreshes_local(
                state,
                handled(state, EventView::RepositoryUpdated { id }, all),
                id,
                facts,
            )
            &&& refreshes_local(
                state,
                handled(state, EventView::FileTreeEntryUpdated { id }, all),
                id,
                facts,
            )
            &&& refreshes_local(
                state,
                handled(state, EventView::UpdatingRepositoryFailed { id }, all),
                id,
                facts,
            )
            &&& refreshes_local(state, all_refreshed(state, seq![id], all), id, facts)
            &&& handled(state, EventView::FileTreeUpdated { ids: seq![id] }, all) == (Outcome {
                state,
                effects: Seq::empty(),
            })
        }),
{
    let id = rule_files::RepositoryView::Local(root);
    let all = seq![facts];
    let one = refreshed(state, id, facts);
    let is_rule = |content: crate::rule_files::RepoContentView| rule_files::is_rule_file(content);
    let is_here = |content: crate::rule_files::RepoContentView| content->local_path is Some;
    let both = |content: crate::rule_files::RepoContentView|
        rule_files::is_rule_file(content) && content->local_path is Some;
    if let Some(contents) = facts.contents {
        rule_files::law_all_rule_files_are_read_in_order(
            root,
            rule_files::RemotePathView { host_id: Seq::empty(), path: Seq::empty() },
            contents,
        );
        lemma_filters_join(contents, is_rule, is_here, both);
        assert(rule_files::rule_paths(id, facts.contents) =~= contents.filter(is_rule).filter(
            is_here,
        ).map_values(
            |content: crate::rule_files::RepoContentView|
                rule_files::PathView::Local(content->local_path->0),
        ));
    } else {
        reveal(Seq::filter);
    }
    reveal_with_fuel(trees_updated, 2);
    reveal_with_fuel(all_refreshed, 2);
    assert(seq![id].drop_last() =~= Seq::empty());
    assert(all_refreshed(state, seq![id], all) =~= one);
}

/// To filter twice is to filter by both conditions.
proof fn lemma_filters_join<A>(
    items: Seq<A>,
    first: spec_fn(A) -> bool,
    second: spec_fn(A) -> bool,
    both: spec_fn(A) -> bool,
)
    requires
        forall|item: A| #[trigger] both(item) == (first(item) && second(item)),
    ensures
        items.filter(first).filter(second) == items.filter(both),
    decreases items.len(),
{
    reveal(Seq::filter);
    if items.len() > 0 {
        lemma_filters_join(items.drop_last(), first, second, both);
        assert(both(items.last()) == (first(items.last()) && second(items.last())));
        if first(items.last()) {
            assert(items.filter(first).drop_last() =~= items.drop_last().filter(first));
        }
    }
}

/// Several repositories are refreshed one after the other: one more changes the state and
/// adds the effects as an update of it alone would, after all the others. Of the
/// repositories whose trees were updated this holds for the remote ones, and the others
/// change nothing.
pub proof fn law_repositories_are_refreshed_in_turn(
    state: RefreshState,
    ids: Seq<crate::rule_files::RepositoryView>,
    facts: Seq<RepoFactsView>,
    id: crate::rule_files::RepositoryView,
)
    ensures
        all_refreshed(state, Seq::empty(), facts) == (Outcome { state, effects: Seq::empty() }),
        handled(state, EventView::FileTreeUpdated { ids: Seq::empty() }, facts) == (Outcome {
            state,
            effects: Seq::empty(),
        }),
        ({
            let before = all_refreshed(state, ids, facts);
            let one = handled(
                before.state,
                EventView::RepositoryUpdated { id },
                seq![facts[ids.len() as int]],
            );
            all_refreshed(state, ids.push(id), facts) == (Outcome {
                state: one.state,
                effects: before.effects + one.effects,
            })
        }),
        ({
            let before = handled(state, EventView::FileTreeUpdated { ids }, facts);
            let one = handled(
                before.state,
                EventView::RepositoryUpdated { id },
                seq![facts[ids.len() as int]],
            );
            handled(state, EventView::FileTreeUpdated { ids: ids.push(id) }, facts) == (if id is
                Remote {
                Outcome { state: one.state, effects: before.effects + one.effects }
            } else {
                before
            })
        }),
{
    assert(ids.push(id).drop_last() =~= ids);
}

/// The repositories on this machine come first at the start, then the remote ones, each
/// kind in its order.
pub proof fn law_local_repositories_come_first(
    local_ids: Seq<crate::rule_files::RepositoryView>,
    remote_ids: Seq<crate::rule_files::RemotePathView>,
)
    ensures
        initial_ids(local_ids, remote_ids).len() == local_ids.len() + remote_ids.len(),
        forall|i: int|
            0 <= i < local_ids.len() ==> #[trigger] initial_ids(local_ids, remote_ids)[i]
                == local_ids[i],
        forall|i: int|
            0 <= i < remote_ids.len() ==> initial_ids(local_ids, remote_ids)[local_ids.len() + i]
                == rule_files::RepositoryView::Remote(#[trigger] remote_ids[i]),
        no_refreshes().last == 0,
        forall|id: crate::rule_files::RepositoryView|
            !(#[trigger] no_refreshes().generations.contains_key(id)),
{
}

/// A removed repository loses its generation and the rules of its root, and no other
/// repository loses anything. An update that is merely ready changes nothing.
pub proof fn law_removal_clears_one_repository(
    state: RefreshState,
    id: crate::rule_files::RepositoryView,
    facts: RepoFactsView,
)
    ensures
        ({
            let after = handled(state, EventView::RepositoryRemoved { id }, seq![facts]);
            &&& after.state.last == state.last
            &&& !after.state.generations.contains_key(id)
            &&& forall|other: crate::rule_files::RepositoryView|
                other != id ==> {
                    &&& (#[trigger] after.state.generations.contains_key(other))
                        == state.generations.contains_key(other)
                    &&& after.state.generations[other] == state.generations[other]
                }
            &&& match facts.root_path {
                None => after.effects.len() == 0,
                Some(rule_files::PathView::Local(root)) => after.effects == seq![
                    EffectView::ClearLocalRules { root },
                ],
                Some(rule_files::PathView::Remote(root)) => after.effects == seq![
                    EffectView::ClearRemoteRules { root },
                ],
            }
        }),
        handled(state, EventView::IncrementalUpdateReady, Seq::empty()) == (Outcome {
            state,
            effects: Seq::empty(),
        }),
{
}

/// Rules that are applied replace those of exactly the given root, where that root is, by
/// exactly the given rules: as many, with the same paths and contents, in the same order.
/// They are applied exactly where the generation is the last one of the repository.
pub proof fn law_given_rules_replace_those_of_the_root(
    state: RefreshState,
    id: crate::rule_files::RepositoryView,
    generation: nat,
    root: crate::rule_files::PathView,
    rules: Seq<crate::rule_files::ProjectRuleView>,
)
    ensures
        ({
            let effect = application(state, id, generation, root, rules);
            &&& effect is Some <==> state.generations.contains_key(id) && state.generations[id]
                == generation
            &&& effect matches Some(effect) ==> {
                &&& root matches rule_files::PathView::Local(given) ==> {
                    &&& effect matches EffectView::ReplaceLocalRules { root: local, rules: new }
                    &&& local == given && new.len() == rules.len()
                    &&& forall|i: int| 0 <= i < rules.len() ==> #[trigger] new[i] == rules[i]
                }
                &&& root matches rule_files::PathView::Remote(given) ==> {
                    &&& effect matches EffectView::ReplaceRemoteRules { root: remote, rules: new }
                    &&& remote == given && new.len() == rules.len()
                    &&& forall|i: int| 0 <= i < rules.len() ==> #[trigger] new[i] == rules[i]
                }
            }
        }),
{
}

/// The repositories that an event is about are those that it names.
pub proof fn law_event_is_about_what_it_names(
    id: crate::rule_files::RepositoryView,
    ids: Seq<crate::rule_files::RepositoryView>,
)
    ensures
        event_ids(EventView::RepositoryUpdated { id }) == seq![id],
        event_ids(EventView::FileTreeEntryUpdated { id }) == seq![id],
        event_ids(EventView::RepositoryRemoved { id }) == seq![id],
        event_ids(EventView::UpdatingRepositoryFailed { id }) == seq![id],
        event_ids(EventView::FileTreeUpdated { ids }) == ids,
        event_ids(EventView::IncrementalUpdateReady).len() == 0,
{
}

/// The view of an event, of facts and of an effect holds all that is in it.
pub proof fn law_project_rule_views_are_faithful(
    facts: RepoFacts,
    event: RepoMetadataEvent,
    effect: Effect,
)
    ensures
        facts.root_path matches Some(root) ==> facts.deep_view().root_path == Some(root.deep_view()),
        facts.root_path is None ==> facts.deep_view().root_path is None,
        facts.local_path matches Some(path) ==> facts.deep_view().local_path == Some(path@),
        facts.local_path is None ==> facts.deep_view().local_path is None,
        facts.deep_view().coverage == facts.coverage,
        facts.deep_view().indexing_failed == facts.indexing_failed,
        facts.contents matches Some(contents) ==> {
            &&& facts.deep_view().contents matches Some(seen)
            &&& seen.len() == contents@.len()
            &&& forall|i: int|
                0 <= i < contents@.len() ==> #[trigger] seen[i] == contents@[i].deep_view()
        },
        facts.contents is None ==> facts.deep_view().contents is None,
        facts.deep_view().has_client == facts.has_client,
        match event {
            RepoMetadataEvent::RepositoryUpdated { id } => event.deep_view() == (
            EventView::RepositoryUpdated { id: id.deep_view() }),
            RepoMetadataEvent::FileTreeEntryUpdated { id } => event.deep_view() == (
            EventView::FileTreeEntryUpdated { id: id.deep_view() }),
            RepoMetadataEvent::FileTreeUpdated { ids } => {
                &&& event.deep_view() matches EventView::FileTreeUpdated { ids: seen }
                &&& seen.len() == ids@.len()
                &&& forall|i: int| 0 <= i < ids@.len() ==> #[trigger] seen[i] == ids@[i].deep_view()
            },
            RepoMetadataEvent::RepositoryRemoved { id } => event.deep_view() == (
            EventView::RepositoryRemoved { id: id.deep_view() }),
            RepoMetadataEvent::UpdatingRepositoryFailed { id } => event.deep_view() == (
            EventView::UpdatingRepositoryFailed { id: id.deep_view() }),
            RepoMetadataEvent::IncrementalUpdateReady => event.deep_view() is
                IncrementalUpdateReady,
        },
        match effect {
            Effect::ReplaceLocalRules { root, rules } => effect.deep_view() == (
            EffectView::ReplaceLocalRules { root: root@, rules: rules.deep_view() }),
            Effect::ReplaceRemoteRules { root, rules } => effect.deep_view() == (
            EffectView::ReplaceRemoteRules { root: root.deep_view(), rules: rules.deep_view() }),
            Effect::UseLocalFilesystem { root } => effect.deep_view() == (
            EffectView::UseLocalFilesystem { root: root@ }),
            Effect::IndexLocalRules { root } => effect.deep_view() == (
            EffectView::IndexLocalRules { root: root@ }),
            Effect::ClearLocalRules { root } => effect.deep_view() == (
            EffectView::ClearLocalRules { root: root@ }),
            Effect::ClearRemoteRules { root } => effect.deep_view() == (
            EffectView::ClearRemoteRules { root: root.deep_view() }),
            Effect::ReadRules { repo_id, generation, root, read } => effect.deep_view() == (
            EffectView::ReadRules {
                repo_id: repo_id.deep_view(),
                generation: generation as nat,
                root: root.deep_view(),
                read: read.deep_view(),
            }),
        },
{
}

/// To refresh a repository on this machine from its metadata is to refresh it as if they
/// covered it whole, and to refresh it from the file system is to refresh it as if they did
/// not. Any repository that is refreshed from the file system takes the next generation, and
/// where it has a root on this machine, that is switched over and then indexed.
pub proof fn law_coverage_chooses_the_kind_of_refresh(
    state: RefreshState,
    root: Seq<char>,
    id: crate::rule_files::RepositoryView,
    facts: RepoFactsView,
)
    ensures
        ({
            let local = rule_files::RepositoryView::Local(root);
            let covered = RepoFactsView { coverage: Some(RepositoryCoverage::Complete), ..facts };
            let uncovered = RepoFactsView { coverage: Some(RepositoryCoverage::Degraded), ..facts };
            &&& refreshed_from_metadata(state, local, facts) == refreshed(state, local, covered)
            &&& refreshed_from_filesystem(state, local, facts) == refreshed(state, local, uncovered)
            &&& took_the_next_generation(
                state,
                refreshed_from_filesystem(state, id, facts).state,
                id,
            )
            &&& refreshed_from_filesystem(state, id, facts).effects == match facts.local_path {
                Some(root) => seq![
                    EffectView::UseLocalFilesystem { root },
                    EffectView::IndexLocalRules { root },
                ],
                None => Seq::empty(),
            }
        }),
{
}

/// To take the next generation gives it to one repository, and to lose a generation takes
/// it from one repository; no other repository is concerned.
pub proof fn law_generations_change_one_at_a_time(
    state: RefreshState,
    id: crate::rule_files::RepositoryView,
    other: crate::rule_files::RepositoryView,
    generation: nat,
)
    ensures
        took_the_next_generation(state, advanced(state, id), id),
        forgotten(state, id).last == state.last,
        !is_current(forgotten(state, id), id, generation),
        other != id ==> is_current(forgotten(state, id), other, generation) == is_current(
            state,
            other,
            generation,
        ),
        is_current(state, id, generation) <==> state.generations.contains_key(id)
            && state.generations[id] == generation,
{
}

} // verus!
