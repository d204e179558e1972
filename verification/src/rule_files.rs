//! The files of a repository that hold project rules: how they are found and how what
//! was read of them becomes rules.

use vstd::prelude::*;
use vstd::string::*;

verus! {

/// A path on a remote host.
#[derive(Debug, PartialEq, Eq)]
pub struct RemotePath {
    pub host_id: String,
    pub path: String,
}

/// [`RemotePath`] by its contents.
pub struct RemotePathView {
    pub host_id: Seq<char>,
    pub path: Seq<char>,
}

impl DeepView for RemotePath {
    type V = RemotePathView;

    open spec fn deep_view(&self) -> RemotePathView {
        RemotePathView { host_id: self.host_id@, path: self.path@ }
    }
}

impl Clone for RemotePath {
    fn clone(&self) -> (copy: Self)
        ensures
            copy == *self,
    {
        RemotePath { host_id: self.host_id.clone(), path: self.path.clone() }
    }
}

/// A path on this machine or on a remote host.
#[derive(Debug, PartialEq, Eq)]
pub enum LocalOrRemotePath {
    Local(String),
    Remote(RemotePath),
}

/// [`LocalOrRemotePath`] by its contents.
pub enum PathView {
    Local(Seq<char>),
    Remote(RemotePathView),
}

impl DeepView for LocalOrRemotePath {
    type V = PathView;

    open spec fn deep_view(&self) -> PathView {
        match self {
            LocalOrRemotePath::Local(path) => PathView::Local(path@),
            LocalOrRemotePath::Remote(path) => PathView::Remote(path.deep_view()),
        }
    }
}

impl Clone for LocalOrRemotePath {
    fn clone(&self) -> (copy: Self)
        ensures
            copy == *self,
    {
        match self {
            LocalOrRemotePath::Local(path) => LocalOrRemotePath::Local(path.clone()),
            LocalOrRemotePath::Remote(path) => LocalOrRemotePath::Remote(path.clone()),
        }
    }
}

/// A repository on this machine, by its path, or on a remote host.
#[derive(Debug, PartialEq, Eq)]
pub enum RepositoryIdentifier {
    Local(String),
    Remote(RemotePath),
}

/// [`RepositoryIdentifier`] by its contents.
pub enum RepositoryView {
    Local(Seq<char>),
    Remote(RemotePathView),
}

impl DeepView for RepositoryIdentifier {
    type V = RepositoryView;

    open spec fn deep_view(&self) -> RepositoryView {
        match self {
            RepositoryIdentifier::Local(path) => RepositoryView::Local(path@),
            RepositoryIdentifier::Remote(path) => RepositoryView::Remote(path.deep_view()),
        }
    }
}

impl Clone for RepositoryIdentifier {
    fn clone(&self) -> (copy: Self)
        ensures
            copy == *self,
    {
        match self {
            RepositoryIdentifier::Local(path) => RepositoryIdentifier::Local(path.clone()),
            RepositoryIdentifier::Remote(path) => RepositoryIdentifier::Remote(path.clone()),
        }
    }
}

impl RepositoryIdentifier {
    /// Whether two identifiers name the same repository.
    pub fn is_same(&self, other: &RepositoryIdentifier) -> (same: bool)
        ensures
            same == (self.deep_view() == other.deep_view()),
    {
        match (self, other) {
            (RepositoryIdentifier::Local(first), RepositoryIdentifier::Local(second)) => *first
                == *second,
            (RepositoryIdentifier::Remote(first), RepositoryIdentifier::Remote(second)) =>
            first.host_id == second.host_id && first.path == second.path,
            _ => false,
        }
    }
}

/// An entry of the file tree of a repository.
#[derive(Debug, PartialEq, Eq)]
pub enum RepoContent {
    /// A file, with the last component of its path, where it has one, and its path on
    /// this machine, where it is on this machine.
    File { path: String, file_name: Option<String>, local_path: Option<String> },
    /// A directory.
    Directory,
}

/// [`RepoContent`] by its contents.
pub enum RepoContentView {
    File { path: Seq<char>, file_name: Option<Seq<char>>, local_path: Option<Seq<char>> },
    Directory,
}

impl DeepView for RepoContent {
    type V = RepoContentView;

    open spec fn deep_view(&self) -> RepoContentView {
        match self {
            RepoContent::File { path, file_name, local_path } => RepoContentView::File {
                path: path@,
                file_name: file_name.deep_view(),
                local_path: local_path.deep_view(),
            },
            RepoContent::Directory => RepoContentView::Directory,
        }
    }
}

/// A project rule: a rule file and what it holds.
#[derive(Debug, PartialEq, Eq)]
pub struct ProjectRule {
    pub path: LocalOrRemotePath,
    pub content: String,
}

/// [`ProjectRule`] by its contents.
pub struct ProjectRuleView {
    pub path: PathView,
    pub content: Seq<char>,
}

impl DeepView for ProjectRule {
    type V = ProjectRuleView;

    open spec fn deep_view(&self) -> ProjectRuleView {
        ProjectRuleView { path: self.path.deep_view(), content: self.content@ }
    }
}

/// Whether a file of this name holds project rules, in whatever case the name is
/// written.
pub open spec fn is_rule_file_name(file_name: Option<Seq<char>>) -> bool {
    file_name matches Some(name) && {
        ||| crate::text::ascii_lower(name) == crate::text::ascii_lower("WARP.md"@)
        ||| crate::text::ascii_lower(name) == crate::text::ascii_lower("AGENTS.md"@)
    }
}

/// Whether a file of this name holds project rules.
pub fn matches_project_rule_file(file_name: Option<&str>) -> (holds_rules: bool)
    ensures
        holds_rules == is_rule_file_name(file_name.deep_view()),
{
    match file_name {
        Some(name) => name.eq_ignore_ascii_case("WARP.md") || name.eq_ignore_ascii_case(
            "AGENTS.md",
        ),
        None => false,
    }
}

/// The case in which a file name is written does not decide whether the file holds
/// project rules.
pub proof fn law_rule_file_names_ignore_case(first: Seq<char>, second: Seq<char>)
    requires
        crate::text::ascii_lower(first) == crate::text::ascii_lower(second),
    ensures
        is_rule_file_name(Some(first)) == is_rule_file_name(Some(second)),
{
}

/// Where the project rules of an entry of the file tree are read from, if it holds any:
/// a file on this machine by its path there, a file on a remote host by its host.
pub open spec fn rule_path(repo_id: RepositoryView, content: RepoContentView) -> Option<PathView> {
    match content {
        RepoContentView::File { path, file_name, local_path } => if is_rule_file_name(file_name) {
            match repo_id {
                RepositoryView::Local(_) => match local_path {
                    Some(path) => Some(PathView::Local(path)),
                    None => None,
                },
                RepositoryView::Remote(root) => Some(
                    PathView::Remote(RemotePathView { host_id: root.host_id, path }),
                ),
            }
        } else {
            None
        },
        RepoContentView::Directory => None,
    }
}

/// The rule files of a repository, in the order of its file tree; none where the tree is
/// not known.
pub open spec fn rule_paths(
    repo_id: RepositoryView,
    contents: Option<Seq<RepoContentView>>,
) -> Seq<PathView> {
    match contents {
        Some(contents) => contents.filter_map(
            |content: RepoContentView| rule_path(repo_id, content),
        ),
        None => Seq::empty(),
    }
}

/// Works out where the project rules of an entry are read from.
fn rule_path_of(repo_id: &RepositoryIdentifier, content: &RepoContent) -> (path: Option<
    LocalOrRemotePath,
>)
    ensures
        path.deep_view() == rule_path(repo_id.deep_view(), content.deep_view()),
{
    match content {
        RepoContent::File { path, file_name, local_path } => {
            let name = match file_name {
                Some(name) => Some(name.as_str()),
                None => None,
            };
            if !matches_project_rule_file(name) {
                return None;
            }
            match repo_id {
                RepositoryIdentifier::Local(_) => match local_path {
                    Some(path) => Some(LocalOrRemotePath::Local(path.clone())),
                    None => None,
                },
                RepositoryIdentifier::Remote(root) => Some(
                    LocalOrRemotePath::Remote(
                        RemotePath { host_id: root.host_id.clone(), path: path.clone() },
                    ),
                ),
            }
        },
        RepoContent::Directory => None,
    }
}

/// Finds the rule files of a repository in its file tree, where that is known.
pub fn find_project_rule_files_in_tree(
    repo_id: &RepositoryIdentifier,
    contents: &Option<Vec<RepoContent>>,
) -> (paths: Vec<LocalOrRemotePath>)
    ensures
        paths.deep_view() == rule_paths(repo_id.deep_view(), contents.deep_view()),
{
    let mut paths: Vec<LocalOrRemotePath> = Vec::new();
    assert(paths.deep_view() =~= Seq::<PathView>::empty());
    let Some(contents) = contents else {
        return paths;
    };
    let ghost all = contents.deep_view();
    let ghost of = |content: RepoContentView| rule_path(repo_id.deep_view(), content);
    let mut i: usize = 0;
    while i < contents.len()
        invariant
            i <= contents@.len(),
            all == contents.deep_view(),
            of == (|content: RepoContentView| rule_path(repo_id.deep_view(), content)),
            paths.deep_view() == all.take(i as int).filter_map(of),
        decreases contents@.len() - i,
    {
        let ghost before = paths.deep_view();
        proof {
            all.lemma_filter_map_take_succ(of, i as int);
        }
        if let Some(path) = rule_path_of(repo_id, &contents[i]) {
            paths.push(path);
            assert(paths.deep_view() =~= before.push(path.deep_view()));
        }
        i = i + 1;
    }
    assert(all.take(i as int) =~= all);
    paths
}

/// Some lines of a file.
#[derive(Debug, PartialEq, Eq)]
pub struct LineRange {
    pub start: u32,
    pub end: u32,
}

/// A file that a remote host is asked for: some of its lines, or all of them where no
/// ranges are given.
#[derive(Debug, PartialEq, Eq)]
pub struct ReadFileContextFile {
    pub path: String,
    pub line_ranges: Vec<LineRange>,
}

/// [`ReadFileContextFile`] by its contents.
pub struct RequestedFileView {
    pub path: Seq<char>,
    pub line_ranges: Seq<LineRange>,
}

impl DeepView for ReadFileContextFile {
    type V = RequestedFileView;

    open spec fn deep_view(&self) -> RequestedFileView {
        RequestedFileView { path: self.path@, line_ranges: self.line_ranges@ }
    }
}

/// A request to a remote host for what files hold, with limits where there are any.
#[derive(Debug, PartialEq, Eq)]
pub struct ReadFileContextRequest {
    pub files: Vec<ReadFileContextFile>,
    pub max_file_bytes: Option<u32>,
    pub max_batch_bytes: Option<u32>,
}

/// [`ReadFileContextRequest`] by its contents.
pub struct ReadRequestView {
    pub files: Seq<RequestedFileView>,
    pub max_file_bytes: Option<u32>,
    pub max_batch_bytes: Option<u32>,
}

impl DeepView for ReadFileContextRequest {
    type V = ReadRequestView;

    open spec fn deep_view(&self) -> ReadRequestView {
        ReadRequestView {
            files: self.files.deep_view(),
            max_file_bytes: self.max_file_bytes,
            max_batch_bytes: self.max_batch_bytes,
        }
    }
}

/// The whole of a file on a remote host, to be asked for.
pub open spec fn requested_file(path: PathView) -> Option<RequestedFileView> {
    match path {
        PathView::Remote(remote) => Some(
            RequestedFileView { path: remote.path, line_ranges: Seq::empty() },
        ),
        PathView::Local(_) => None,
    }
}

/// The request for the whole of the remote ones of some files, without limits.
pub open spec fn read_request(paths: Seq<PathView>) -> ReadRequestView {
    ReadRequestView {
        files: paths.filter_map(|path: PathView| requested_file(path)),
        max_file_bytes: None,
        max_batch_bytes: None,
    }
}

/// Asks a remote host for rule files.
pub fn remote_rule_read_request(rule_paths: &Vec<LocalOrRemotePath>) -> (request:
    ReadFileContextRequest)
    ensures
        request.deep_view() == read_request(rule_paths.deep_view()),
{
    let ghost all = rule_paths.deep_view();
    let ghost of = |path: PathView| requested_file(path);
    let mut files: Vec<ReadFileContextFile> = Vec::new();
    assert(files.deep_view() =~= all.take(0).filter_map(of));
    let mut i: usize = 0;
    while i < rule_paths.len()
        invariant
            i <= rule_paths@.len(),
            all == rule_paths.deep_view(),
            of == (|path: PathView| requested_file(path)),
            files.deep_view() == all.take(i as int).filter_map(of),
        decreases rule_paths@.len() - i,
    {
        let ghost before = files.deep_view();
        proof {
            all.lemma_filter_map_take_succ(of, i as int);
        }
        if let LocalOrRemotePath::Remote(remote) = &rule_paths[i] {
            let file = ReadFileContextFile { path: remote.path.clone(), line_ranges: Vec::new() };
            files.push(file);
            assert(files.deep_view() =~= before.push(file.deep_view()));
        }
        i = i + 1;
    }
    assert(all.take(i as int) =~= all);
    ReadFileContextRequest { files, max_file_bytes: None, max_batch_bytes: None }
}

/// What a remote host says that a file holds.
#[derive(Debug, PartialEq, Eq)]
pub enum FileContent {
    Text(String),
    Binary(Vec<u8>),
}

/// [`FileContent`] by its contents.
pub enum FileContentView {
    Text(Seq<char>),
    Binary(Seq<u8>),
}

impl DeepView for FileContent {
    type V = FileContentView;

    open spec fn deep_view(&self) -> FileContentView {
        match self {
            FileContent::Text(text) => FileContentView::Text(text@),
            FileContent::Binary(bytes) => FileContentView::Binary(bytes@),
        }
    }
}

/// A file in the answer of a remote host.
#[derive(Debug, PartialEq, Eq)]
pub struct FileContext {
    pub file_name: String,
    pub content: Option<FileContent>,
}

/// [`FileContext`] by its contents.
pub struct FileContextView {
    pub file_name: Seq<char>,
    pub content: Option<FileContentView>,
}

impl DeepView for FileContext {
    type V = FileContextView;

    open spec fn deep_view(&self) -> FileContextView {
        FileContextView { file_name: self.file_name@, content: self.content.deep_view() }
    }
}

/// The text that an answer gives for a file: the last one, where it gives several.
pub open spec fn text_of(contexts: Seq<FileContextView>, file_name: Seq<char>) -> Option<Seq<char>>
    decreases contexts.len(),
{
    if contexts.len() == 0 {
        None
    } else if contexts.last().file_name == file_name {
        match contexts.last().content {
            Some(FileContentView::Text(text)) => Some(text),
            _ => text_of(contexts.drop_last(), file_name),
        }
    } else {
        text_of(contexts.drop_last(), file_name)
    }
}

/// Finds the text that an answer gives for a file.
fn find_text<'a>(contexts: &'a Vec<FileContext>, file_name: &String) -> (text: Option<&'a String>)
    ensures
        text.deep_view() == text_of(contexts.deep_view(), file_name@),
{
    let ghost all = contexts.deep_view();
    assert(all.take(all.len() as int) =~= all);
    let mut i: usize = contexts.len();
    while i > 0
        invariant
            i <= contexts@.len(),
            all == contexts.deep_view(),
            text_of(all, file_name@) == text_of(all.take(i as int), file_name@),
        decreases i,
    {
        i = i - 1;
        let context = &contexts[i];
        assert(all.take(i + 1).drop_last() =~= all.take(i as int));
        assert(all.take(i + 1).last() == context.deep_view());
        if context.file_name == *file_name {
            if let Some(FileContent::Text(text)) = &context.content {
                return Some(text);
            }
        }
    }
    None
}

/// What an answer gives for a rule file.
pub open spec fn remote_content(contexts: Seq<FileContextView>, path: PathView) -> Option<
    (PathView, Seq<char>),
> {
    match path {
        PathView::Remote(remote) => match text_of(contexts, remote.path) {
            Some(text) => Some((path, text)),
            None => None,
        },
        PathView::Local(_) => None,
    }
}

/// What an answer gives for rule files: each remote file that it gives a text for, with
/// that text, in the order in which they were asked for.
pub open spec fn remote_contents(paths: Seq<PathView>, contexts: Seq<FileContextView>) -> Seq<
    (PathView, Seq<char>),
> {
    paths.filter_map(|path: PathView| remote_content(contexts, path))
}

/// Takes the contents of rule files out of the answer of a remote host.
pub fn read_remote_project_rule_contents(
    rule_paths: &Vec<LocalOrRemotePath>,
    file_contexts: &Vec<FileContext>,
) -> (rule_contents: Vec<(LocalOrRemotePath, String)>)
    ensures
        rule_contents.deep_view() == remote_contents(
            rule_paths.deep_view(),
            file_contexts.deep_view(),
        ),
{
    let ghost all = rule_paths.deep_view();
    let ghost contexts = file_contexts.deep_view();
    let ghost of = |path: PathView| remote_content(contexts, path);
    let mut rule_contents: Vec<(LocalOrRemotePath, String)> = Vec::new();
    assert(rule_contents.deep_view() =~= all.take(0).filter_map(of));
    let mut i: usize = 0;
    while i < rule_paths.len()
        invariant
            i <= rule_paths@.len(),
            all == rule_paths.deep_view(),
            contexts == file_contexts.deep_view(),
            of == (|path: PathView| remote_content(contexts, path)),
            rule_contents.deep_view() == all.take(i as int).filter_map(of),
        decreases rule_paths@.len() - i,
    {
        let ghost before = rule_contents.deep_view();
        proof {
            all.lemma_filter_map_take_succ(of, i as int);
        }
        let path = &rule_paths[i];
        if let LocalOrRemotePath::Remote(remote) = path {
            if let Some(text) = find_text(file_contexts, &remote.path) {
                let content = (path.clone(), text.clone());
                rule_contents.push(content);
                assert(rule_contents.deep_view() =~= before.push(content.deep_view()));
            }
        }
        i = i + 1;
    }
    assert(all.take(i as int) =~= all);
    rule_contents
}

/// What was read of a rule file on this machine.
pub open spec fn local_content(read: (PathView, Option<Seq<char>>)) -> Option<
    (PathView, Seq<char>),
> {
    match read {
        (PathView::Local(_), Some(content)) => Some((read.0, content)),
        _ => None,
    }
}

/// What was read of rule files: each file on this machine that could be read, with what
/// it holds, in order.
pub open spec fn local_contents(paths: Seq<PathView>, reads: Seq<Option<Seq<char>>>) -> Seq<
    (PathView, Seq<char>),
> {
    paths.zip_with(reads).filter_map(
        |read: (PathView, Option<Seq<char>>)| local_content(read),
    )
}

/// Puts together what was read of rule files, given for each of them what came of the
/// attempt. A file that is not on this machine or could not be read is passed over.
pub fn read_local_project_rule_contents(
    rule_paths: &Vec<LocalOrRemotePath>,
    reads: &Vec<Option<String>>,
) -> (rule_contents: Vec<(LocalOrRemotePath, String)>)
    requires
        rule_paths@.len() == reads@.len(),
    ensures
        rule_contents.deep_view() == local_contents(rule_paths.deep_view(), reads.deep_view()),
{
    let ghost all = rule_paths.deep_view().zip_with(reads.deep_view());
    let ghost of = |read: (PathView, Option<Seq<char>>)| local_content(read);
    let mut rule_contents: Vec<(LocalOrRemotePath, String)> = Vec::new();
    assert(rule_contents.deep_view() =~= all.take(0).filter_map(of));
    let mut i: usize = 0;
    while i < rule_paths.len()
        invariant
            i <= rule_paths@.len(),
            rule_paths@.len() == reads@.len(),
            all == rule_paths.deep_view().zip_with(reads.deep_view()),
            of == (|read: (PathView, Option<Seq<char>>)| local_content(read)),
            rule_contents.deep_view() == all.take(i as int).filter_map(of),
        decreases rule_paths@.len() - i,
    {
        let ghost before = rule_contents.deep_view();
        proof {
            all.lemma_filter_map_take_succ(of, i as int);
        }
        if let LocalOrRemotePath::Local(_) = &rule_paths[i] {
            if let Some(text) = &reads[i] {
                let content = (rule_paths[i].clone(), text.clone());
                rule_contents.push(content);
                assert(rule_contents.deep_view() =~= before.push(content.deep_view()));
            }
        }
        i = i + 1;
    }
    assert(all.take(i as int) =~= all);
    rule_contents
}

/// How rule files are read.
#[derive(Debug, PartialEq, Eq)]
pub enum RuleRead {
    /// From this machine, one by one.
    Local { paths: Vec<LocalOrRemotePath> },
    /// From a remote host, by one request.
    Remote { host_id: String, request: ReadFileContextRequest, paths: Vec<LocalOrRemotePath> },
}

/// [`RuleRead`] by its contents.
pub enum RuleReadView {
    Local { paths: Seq<PathView> },
    Remote { host_id: Seq<char>, request: ReadRequestView, paths: Seq<PathView> },
}

impl DeepView for RuleRead {
    type V = RuleReadView;

    open spec fn deep_view(&self) -> RuleReadView {
        match self {
            RuleRead::Local { paths } => RuleReadView::Local { paths: paths.deep_view() },
            RuleRead::Remote { host_id, request, paths } => RuleReadView::Remote {
                host_id: host_id@,
                request: request.deep_view(),
                paths: paths.deep_view(),
            },
        }
    }
}

/// How some rule files are read, which the first of them decides. There is nothing to
/// read without a file, and nothing can be read from a remote host without a client for
/// it.
pub open spec fn rule_read(paths: Seq<PathView>, has_client: bool) -> Option<RuleReadView> {
    if paths.len() == 0 {
        None
    } else {
        match paths[0] {
            PathView::Local(_) => Some(RuleReadView::Local { paths }),
            PathView::Remote(remote) => if has_client {
                Some(
                    RuleReadView::Remote {
                        host_id: remote.host_id,
                        request: read_request(paths),
                        paths,
                    },
                )
            } else {
                None
            },
        }
    }
}

/// Decides how rule files are read, given whether there is a client for the host of the
/// first of them.
pub fn read_project_rule_contents(
    rule_paths: Vec<LocalOrRemotePath>,
    has_client: bool,
) -> (read: Option<RuleRead>)
    ensures
        read.deep_view() == rule_read(rule_paths.deep_view(), has_client),
{
    if rule_paths.len() == 0 {
        return None;
    }
    let host_id = match &rule_paths[0] {
        LocalOrRemotePath::Local(_) => None,
        LocalOrRemotePath::Remote(remote) => Some(remote.host_id.clone()),
    };
    match host_id {
        None => Some(RuleRead::Local { paths: rule_paths }),
        Some(host_id) => if has_client {
            let request = remote_rule_read_request(&rule_paths);
            Some(RuleRead::Remote { host_id, request, paths: rule_paths })
        } else {
            None
        },
    }
}

/// The rules that some contents make.
pub open spec fn rules_of(rule_contents: Seq<(PathView, Seq<char>)>) -> Seq<ProjectRuleView> {
    rule_contents.map_values(
        |content: (PathView, Seq<char>)|
            ProjectRuleView { path: content.0, content: content.1 },
    )
}

/// Makes rules of the contents of rule files.
pub fn build_project_rules(rule_contents: Vec<(LocalOrRemotePath, String)>) -> (rules: Vec<
    ProjectRule,
>)
    ensures
        rules.deep_view() == rules_of(rule_contents.deep_view()),
{
    let mut rules: Vec<ProjectRule> = Vec::new();
    let mut i: usize = 0;
    while i < rule_contents.len()
        invariant
            i <= rule_contents@.len(),
            rules@.len() == i,
            rules.deep_view() == rules_of(rule_contents.deep_view()).take(i as int),
        decreases rule_contents@.len() - i,
    {
        let ghost before = rules.deep_view();
        let (path, content) = &rule_contents[i];
        let rule = ProjectRule { path: path.clone(), content: content.clone() };
        rules.push(rule);
        proof {
            let all = rules_of(rule_contents.deep_view());
            assert(rules.deep_view() =~= before.push(rule.deep_view()));
            assert(rule_contents.deep_view()[i as int] == rule_contents@[i as int].deep_view());
            assert(all.take(i + 1) =~= all.take(i as int).push(all[i as int]));
        }
        i = i + 1;
    }
    assert(rules_of(rule_contents.deep_view()).take(i as int) =~= rules_of(
        rule_contents.deep_view(),
    ));
    rules
}

/// Where a function gives something for every item, `filter_map` keeps them all.
proof fn lemma_filter_map_keeps_all<A, B>(items: Seq<A>, of: spec_fn(A) -> Option<B>)
    requires
        forall|i: int| 0 <= i < items.len() ==> of(#[trigger] items[i]) is Some,
    ensures
        items.filter_map(of).len() == items.len(),
        forall|i: int|
            0 <= i < items.len() ==> Some(#[trigger] items.filter_map(of)[i]) == of(items[i]),
    decreases items.len(),
{
    if items.len() > 0 {
        let rest = items.drop_last();
        assert forall|i: int| 0 <= i < rest.len() implies of(#[trigger] rest[i]) is Some by {
            assert(rest[i] == items[i]);
        }
        lemma_filter_map_keeps_all(rest, of);
        assert(of(items[items.len() - 1]) is Some);
        assert forall|i: int| 0 <= i < items.len() implies Some(
            #[trigger] items.filter_map(of)[i],
        ) == of(items[i]) by {
            if i < rest.len() {
                assert(items.filter_map(of)[i] == rest.filter_map(of)[i]);
                assert(rest[i] == items[i]);
            }
        }
    }
}

/// All rule files of a repository are where the repository is: on this machine, or on
/// its own host.
pub proof fn law_rule_files_are_where_the_repository_is(
    repo_id: RepositoryView,
    contents: Option<Seq<RepoContentView>>,
)
    ensures
        forall|i: int|
            0 <= i < rule_paths(repo_id, contents).len() ==> match repo_id {
                RepositoryView::Local(_) => #[trigger] rule_paths(repo_id, contents)[i] is Local,
                RepositoryView::Remote(root) => rule_paths(
                    repo_id,
                    contents,
                )[i] matches PathView::Remote(remote) && remote.host_id == root.host_id,
            },
{
    if let Some(contents) = contents {
        let of = |content: RepoContentView| rule_path(repo_id, content);
        let paths = contents.filter_map(of);
        assert forall|i: int| 0 <= i < paths.len() implies match repo_id {
            RepositoryView::Local(_) => #[trigger] paths[i] is Local,
            RepositoryView::Remote(root) => paths[i] matches PathView::Remote(remote)
                && remote.host_id == root.host_id,
        } by {
            assert(paths.contains(paths[i]));
            contents.lemma_filter_map_contains(of, paths[i]);
        }
    }
}

/// Exactly the files with the name of a rule file are read: of a repository on this
/// machine those that are on this machine, of a remote one all of them.
pub proof fn law_exactly_rule_files_are_read(
    repo_id: RepositoryView,
    contents: Seq<RepoContentView>,
    path: PathView,
)
    ensures
        rule_paths(repo_id, Some(contents)).contains(path) <==> exists|content: RepoContentView|
            #[trigger] contents.contains(content) && rule_path(repo_id, content) == Some(path),
    decreases contents.len(),
{
    let of = |content: RepoContentView| rule_path(repo_id, content);
    let paths = contents.filter_map(of);
    if paths.contains(path) {
        contents.lemma_filter_map_contains(of, path);
    }
    if exists|content: RepoContentView| #[trigger]
        contents.contains(content) && rule_path(repo_id, content) == Some(path) {
        let content = choose|content: RepoContentView| #[trigger]
            contents.contains(content) && rule_path(repo_id, content) == Some(path);
        let at = choose|at: int| 0 <= at < contents.len() && contents[at] == content;
        let rest = contents.drop_last();
        if at < rest.len() {
            assert(rest[at] == content);
            assert(rest.contains(content));
            law_exactly_rule_files_are_read(repo_id, rest, path);
            let found = choose|found: int|
                0 <= found < rest.filter_map(of).len() && rest.filter_map(of)[found] == path;
            assert(paths[found] == path);
        } else {
            assert(paths[paths.len() - 1] == path);
        }
    }
}

/// What is asked of a remote host is what its answer is searched for: every rule file of
/// a remote repository is asked for, and an answer with a text for each file asked for
/// gives each rule file its text.
pub proof fn law_answered_request_gives_every_rule(
    root: RemotePathView,
    contents: Option<Seq<RepoContentView>>,
    contexts: Seq<FileContextView>,
)
    requires
        forall|i: int|
            0 <= i < read_request(
                rule_paths(RepositoryView::Remote(root), contents),
            ).files.len() ==> text_of(
                contexts,
                (#[trigger] read_request(
                    rule_paths(RepositoryView::Remote(root), contents),
                ).files[i]).path,
            ) is Some,
    ensures
        ({
            let paths = rule_paths(RepositoryView::Remote(root), contents);
            let given = remote_contents(paths, contexts);
            &&& read_request(paths).files.len() == paths.len()
            &&& given.len() == paths.len()
            &&& forall|i: int|
                0 <= i < paths.len() ==> {
                    &&& (#[trigger] given[i]).0 == paths[i]
                    &&& paths[i] matches PathView::Remote(remote)
                    &&& Some(given[i].1) == text_of(contexts, remote.path)
                }
        }),
{
    let paths = rule_paths(RepositoryView::Remote(root), contents);
    law_rule_files_are_where_the_repository_is(RepositoryView::Remote(root), contents);
    let asked = |path: PathView| requested_file(path);
    assert forall|i: int| 0 <= i < paths.len() implies asked(#[trigger] paths[i]) is Some by {
        assert(paths[i] is Remote);
    }
    lemma_filter_map_keeps_all(paths, asked);
    let files = read_request(paths).files;
    assert(files == paths.filter_map(asked));
    let found = |path: PathView| remote_content(contexts, path);
    assert forall|i: int| 0 <= i < paths.len() implies found(#[trigger] paths[i]) is Some by {
        assert(paths[i] is Remote);
        assert(Some(files[i]) == asked(paths[i]));
        assert(text_of(contexts, files[i].path) is Some);
    }
    lemma_filter_map_keeps_all(paths, found);
    let given = remote_contents(paths, contexts);
    assert forall|i: int| 0 <= i < paths.len() implies {
        &&& (#[trigger] given[i]).0 == paths[i]
        &&& paths[i] matches PathView::Remote(remote)
        &&& Some(given[i].1) == text_of(contexts, remote.path)
    } by {
        assert(Some(paths.filter_map(found)[i]) == found(paths[i]));
        assert(paths[i] is Remote);
    }
}

/// Whether two texts are equal but for the case of ASCII letters.
pub open spec fn equal_but_for_case(first: Seq<char>, second: Seq<char>) -> bool {
    &&& first.len() == second.len()
    &&& forall|i: int|
        0 <= i < first.len() ==> {
            let one = (#[trigger] first[i]) as int;
            let other = second[i] as int;
            ||| one == other
            ||| 65 <= one <= 90 && other == one + 32
            ||| 65 <= other <= 90 && one == other + 32
        }
}

/// Texts have one lower-case form where they are equal but for case.
proof fn lemma_lower_case_forms_agree(first: Seq<char>, second: Seq<char>)
    ensures
        crate::text::ascii_lower(first) == crate::text::ascii_lower(second) <==> equal_but_for_case(
            first,
            second,
        ),
{
    let one = crate::text::ascii_lower(first);
    let other = crate::text::ascii_lower(second);
    if one == other {
        assert(first.len() == one.len() && second.len() == other.len());
        assert forall|i: int| 0 <= i < first.len() implies {
            let one = (#[trigger] first[i]) as int;
            let other = second[i] as int;
            ||| one == other
            ||| 65 <= one <= 90 && other == one + 32
            ||| 65 <= other <= 90 && one == other + 32
        } by {
            assert(one[i] == other[i]);
        }
    }
    if equal_but_for_case(first, second) {
        assert forall|i: int| 0 <= i < one.len() implies one[i] == other[i] by {
            let c = first[i] as int;
        }
        assert(one =~= other);
    }
}

/// Exactly two names are those of rule files, in whatever case they are written.
pub proof fn law_two_names_are_those_of_rule_files(name: Seq<char>)
    ensures
        is_rule_file_name(Some(name)) <==> equal_but_for_case(name, "WARP.md"@)
            || equal_but_for_case(name, "AGENTS.md"@),
        !is_rule_file_name(None),
{
    lemma_lower_case_forms_agree(name, "WARP.md"@);
    lemma_lower_case_forms_agree(name, "AGENTS.md"@);
}

/// To keep what a function gives something for is to filter and then to map.
proof fn lemma_filter_map_filters_and_maps<A, B>(
    items: Seq<A>,
    of: spec_fn(A) -> Option<B>,
    keep: spec_fn(A) -> bool,
    to: spec_fn(A) -> B,
)
    requires
        forall|item: A| #[trigger] of(item) == if keep(item) {
            Some(to(item))
        } else {
            None
        },
    ensures
        items.filter_map(of) == items.filter(keep).map_values(to),
    decreases items.len(),
{
    reveal(Seq::filter);
    if items.len() > 0 {
        lemma_filter_map_filters_and_maps(items.drop_last(), of, keep, to);
        assert(of(items.last()) == if keep(items.last()) {
            Some(to(items.last()))
        } else {
            None
        });
    }
    assert(items.filter_map(of) =~= items.filter(keep).map_values(to));
}

/// Whether an entry of a file tree is a file with the name of a rule file.
pub open spec fn is_rule_file(content: RepoContentView) -> bool {
    content matches RepoContentView::File { file_name, .. } && is_rule_file_name(file_name)
}

/// The rules of a repository on this machine are read from its rule files that are on this
/// machine, by their paths there; those of a remote one from all its rule files, by its
/// host and their paths. All are read, in the order of the tree, and nothing else is.
pub proof fn law_all_rule_files_are_read_in_order(
    local_root: Seq<char>,
    root: RemotePathView,
    contents: Seq<RepoContentView>,
)
    ensures
        rule_paths(RepositoryView::Local(local_root), Some(contents)) == contents.filter(
            |content: RepoContentView| is_rule_file(content) && content->local_path is Some,
        ).map_values(|content: RepoContentView| PathView::Local(content->local_path->0)),
        rule_paths(RepositoryView::Remote(root), Some(contents)) == contents.filter(
            |content: RepoContentView| is_rule_file(content),
        ).map_values(
            |content: RepoContentView|
                PathView::Remote(RemotePathView { host_id: root.host_id, path: content->path }),
        ),
        rule_paths(RepositoryView::Local(local_root), None).len() == 0,
        rule_paths(RepositoryView::Remote(root), None).len() == 0,
{
    lemma_filter_map_filters_and_maps(
        contents,
        |content: RepoContentView| rule_path(RepositoryView::Local(local_root), content),
        |content: RepoContentView| is_rule_file(content) && content->local_path is Some,
        |content: RepoContentView| PathView::Local(content->local_path->0),
    );
    lemma_filter_map_filters_and_maps(
        contents,
        |content: RepoContentView| rule_path(RepositoryView::Remote(root), content),
        |content: RepoContentView| is_rule_file(content),
        |content: RepoContentView|
            PathView::Remote(RemotePathView { host_id: root.host_id, path: content->path }),
    );
}

/// The whole of every remote file is asked for, in order and without limits, and nothing
/// else is.
pub proof fn law_whole_remote_files_are_asked_for(paths: Seq<PathView>)
    ensures
        read_request(paths).files == paths.filter(|path: PathView| path is Remote).map_values(
            |path: PathView|
                RequestedFileView { path: path->Remote_0.path, line_ranges: Seq::empty() },
        ),
        read_request(paths).max_file_bytes is None,
        read_request(paths).max_batch_bytes is None,
{
    lemma_filter_map_filters_and_maps(
        paths,
        |path: PathView| requested_file(path),
        |path: PathView| path is Remote,
        |path: PathView|
            RequestedFileView { path: path->Remote_0.path, line_ranges: Seq::empty() },
    );
}

/// A text in an answer takes the place of those that were given for its file before, and
/// nothing else in an answer changes what is found for a file.
pub proof fn law_last_text_counts(
    contexts: Seq<FileContextView>,
    context: FileContextView,
    file_name: Seq<char>,
)
    ensures
        text_of(Seq::empty(), file_name) is None,
        context.file_name == file_name ==> (context.content matches Some(
            FileContentView::Text(text),
        ) ==> text_of(contexts.push(context), file_name) == Some(text)),
        context.file_name != file_name || context.content is None || context.content->0 is Binary
            ==> text_of(contexts.push(context), file_name) == text_of(contexts, file_name),
{
    assert(contexts.push(context).drop_last() =~= contexts);
}

/// One more rule file that was asked for adds itself with the text that the answer gives it
/// under its path, where it is remote and there is one, behind the others.
pub proof fn law_remote_file_adds_its_text(
    paths: Seq<PathView>,
    path: PathView,
    contexts: Seq<FileContextView>,
)
    ensures
        remote_contents(Seq::empty(), contexts).len() == 0,
        path is Local ==> remote_contents(paths.push(path), contexts) == remote_contents(
            paths,
            contexts,
        ),
        path matches PathView::Remote(remote) ==> remote_contents(paths.push(path), contexts) == (
        match text_of(contexts, remote.path) {
            Some(text) => remote_contents(paths, contexts).push((path, text)),
            None => remote_contents(paths, contexts),
        }),
{
    assert(paths.push(path).drop_last() =~= paths);
}

/// One more rule file that was to be read adds itself with what was read of it, where it is
/// on this machine and could be read, behind the others.
pub proof fn law_local_file_adds_what_was_read(
    paths: Seq<PathView>,
    reads: Seq<Option<Seq<char>>>,
    path: PathView,
    read: Option<Seq<char>>,
)
    requires
        paths.len() == reads.len(),
    ensures
        local_contents(Seq::empty(), Seq::empty()).len() == 0,
        local_contents(paths.push(path), reads.push(read)) == (if path is Local && read is Some {
            local_contents(paths, reads).push((path, read->0))
        } else {
            local_contents(paths, reads)
        }),
{
    assert(paths.push(path).zip_with(reads.push(read)).drop_last() =~= paths.zip_with(reads));
    assert(Seq::<PathView>::empty().zip_with(Seq::<Option<Seq<char>>>::empty()).len() == 0);
}

/// Files on this machine are read whether or not there is a client, files on a remote host
/// from the host of the first of them where there is a client, and nothing otherwise. All
/// the files are read.
pub proof fn law_files_are_read_where_they_are(paths: Seq<PathView>, has_client: bool)
    ensures
        rule_read(paths, has_client) is Some <==> paths.len() > 0 && (paths[0] is Local
            || has_client),
        rule_read(paths, has_client) matches Some(read) ==> match read {
            RuleReadView::Local { paths: read_paths } => paths[0] is Local && read_paths == paths,
            RuleReadView::Remote { host_id, request, paths: read_paths } => {
                &&& paths[0] matches PathView::Remote(first)
                &&& host_id == first.host_id
                &&& read_paths == paths
                &&& request == read_request(paths)
            },
        },
{
}

/// Every file that was read makes one rule, with its own path and content, in order.
pub proof fn law_each_content_makes_its_rule(rule_contents: Seq<(PathView, Seq<char>)>)
    ensures
        rules_of(rule_contents).len() == rule_contents.len(),
        forall|i: int|
            0 <= i < rule_contents.len() ==> {
                &&& (#[trigger] rules_of(rule_contents)[i]).path == rule_contents[i].0
                &&& rules_of(rule_contents)[i].content == rule_contents[i].1
            },
{
}

/// The view of a path, a repository, an entry of a tree, a file in an answer and a rule
/// holds all that is in it.
pub proof fn law_rule_file_views_are_faithful(
    remote: RemotePath,
    path: LocalOrRemotePath,
    repo_id: RepositoryIdentifier,
    content: RepoContent,
    context: FileContext,
    rule: ProjectRule,
)
    ensures
        remote.deep_view().host_id == remote.host_id@ && remote.deep_view().path == remote.path@,
        match path {
            LocalOrRemotePath::Local(path_text) => path.deep_view() == PathView::Local(path_text@),
            LocalOrRemotePath::Remote(remote) => path.deep_view() == PathView::Remote(
                remote.deep_view(),
            ),
        },
        match repo_id {
            RepositoryIdentifier::Local(root) => repo_id.deep_view() == RepositoryView::Local(root@),
            RepositoryIdentifier::Remote(root) => repo_id.deep_view() == RepositoryView::Remote(
                root.deep_view(),
            ),
        },
        match content {
            RepoContent::File { path, file_name, local_path } => {
                &&& content.deep_view() is File
                &&& content.deep_view()->path == path@
                &&& file_name matches Some(name) ==> content.deep_view()->file_name == Some(name@)
                &&& file_name is None ==> content.deep_view()->file_name is None
                &&& local_path matches Some(path) ==> content.deep_view()->local_path == Some(path@)
                &&& local_path is None ==> content.deep_view()->local_path is None
            },
            RepoContent::Directory => content.deep_view() is Directory,
        },
        context.deep_view().file_name == context.file_name@,
        match context.content {
            Some(FileContent::Text(text)) => context.deep_view().content == Some(
                FileContentView::Text(text@),
            ),
            Some(FileContent::Binary(bytes)) => context.deep_view().content == Some(
                FileContentView::Binary(bytes@),
            ),
            None => context.deep_view().content is None,
        },
        rule.deep_view().path == rule.path.deep_view() && rule.deep_view().content == rule.content@,
{
}

/// The view of a request and of a plan to read holds all that is in it.
pub proof fn law_read_views_are_faithful(
    file: ReadFileContextFile,
    request: ReadFileContextRequest,
    read: RuleRead,
)
    ensures
        file.deep_view().path == file.path@ && file.deep_view().line_ranges == file.line_ranges@,
        request.deep_view().files.len() == request.files@.len(),
        forall|i: int|
            0 <= i < request.files@.len() ==> #[trigger] request.deep_view().files[i]
                == request.files@[i].deep_view(),
        request.deep_view().max_file_bytes == request.max_file_bytes,
        request.deep_view().max_batch_bytes == request.max_batch_bytes,
        match read {
            RuleRead::Local { paths } => read.deep_view() == (RuleReadView::Local {
                paths: paths.deep_view(),
            }),
            RuleRead::Remote { host_id, request, paths } => read.deep_view() == (
            RuleReadView::Remote {
                host_id: host_id@,
                request: request.deep_view(),
                paths: paths.deep_view(),
            }),
        },
{
}

} // verus!
