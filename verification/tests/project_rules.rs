//! Finding, reading and refreshing project rules.

use mcp_runtime::project_rules::{
    Effect, MetadataProjectRulesModel, RepoFacts, RepoMetadataEvent, RepositoryCoverage,
};
use mcp_runtime::rule_files::{
    build_project_rules, find_project_rule_files_in_tree, matches_project_rule_file,
    read_local_project_rule_contents, read_project_rule_contents,
    read_remote_project_rule_contents, remote_rule_read_request, FileContent, FileContext,
    LocalOrRemotePath, ProjectRule, ReadFileContextFile, RemotePath, RepoContent,
    RepositoryIdentifier, RuleRead,
};

fn local(path: &str) -> LocalOrRemotePath {
    LocalOrRemotePath::Local(path.to_string())
}

fn host_path(path: &str) -> RemotePath {
    RemotePath { host_id: "host".to_string(), path: path.to_string() }
}

fn remote(path: &str) -> LocalOrRemotePath {
    LocalOrRemotePath::Remote(host_path(path))
}

fn local_repo(path: &str) -> RepositoryIdentifier {
    RepositoryIdentifier::Local(path.to_string())
}

fn remote_repo(path: &str) -> RepositoryIdentifier {
    RepositoryIdentifier::Remote(host_path(path))
}

fn file(path: &str, name: &str) -> RepoContent {
    RepoContent::File {
        path: path.to_string(),
        file_name: Some(name.to_string()),
        local_path: Some(path.to_string()),
    }
}

fn text(name: &str, content: &str) -> FileContext {
    FileContext {
        file_name: name.to_string(),
        content: Some(FileContent::Text(content.to_string())),
    }
}

fn local_facts(coverage: Option<RepositoryCoverage>, contents: Vec<RepoContent>) -> RepoFacts {
    RepoFacts {
        root_path: Some(local("/repo")),
        local_path: Some("/repo".to_string()),
        coverage,
        indexing_failed: false,
        contents: Some(contents),
        has_client: false,
    }
}

fn remote_facts(contents: Vec<RepoContent>, has_client: bool) -> RepoFacts {
    RepoFacts {
        root_path: Some(remote("/repo")),
        local_path: None,
        coverage: None,
        indexing_failed: false,
        contents: Some(contents),
        has_client,
    }
}

fn empty_model() -> MetadataProjectRulesModel {
    let (model, effects) = MetadataProjectRulesModel::new(Vec::new(), Vec::new(), &Vec::new());
    assert!(effects.is_empty());
    assert_eq!(model.last_refresh_generation(), 0);
    model
}

#[test]
fn rule_files_are_known_by_name_in_any_case() {
    for name in ["WARP.md", "warp.md", "Warp.MD", "AGENTS.md", "agents.md", "aGeNtS.mD"] {
        assert!(matches_project_rule_file(Some(name)), "{name}");
    }
    for name in ["", "WARP", "WARP.txt", "MYWARP.md", "AGENTS.md.bak", "AGENT.md", "w\u{e4}rp.md"] {
        assert!(!matches_project_rule_file(Some(name)), "{name}");
    }
    assert!(!matches_project_rule_file(None));
}

#[test]
fn rule_files_are_found_in_the_order_of_the_tree() {
    let contents = Some(vec![
        file("/repo/b/AGENTS.md", "AGENTS.md"),
        RepoContent::Directory,
        file("/repo/readme.md", "readme.md"),
        file("/repo/warp.md", "warp.md"),
        RepoContent::File { path: "/repo".to_string(), file_name: None, local_path: None },
        RepoContent::File {
            path: "/elsewhere/WARP.md".to_string(),
            file_name: Some("WARP.md".to_string()),
            local_path: None,
        },
    ]);
    assert_eq!(
        find_project_rule_files_in_tree(&local_repo("/repo"), &contents),
        vec![local("/repo/b/AGENTS.md"), local("/repo/warp.md")]
    );
    assert_eq!(
        find_project_rule_files_in_tree(&remote_repo("/repo"), &contents),
        vec![remote("/repo/b/AGENTS.md"), remote("/repo/warp.md"), remote("/elsewhere/WARP.md")]
    );
    assert!(find_project_rule_files_in_tree(&local_repo("/repo"), &None).is_empty());
}

#[test]
fn the_whole_of_every_remote_rule_file_is_asked_for() {
    let request = remote_rule_read_request(&vec![remote("/a"), local("/b"), remote("/c")]);
    assert_eq!(
        request.files,
        vec![
            ReadFileContextFile { path: "/a".to_string(), line_ranges: Vec::new() },
            ReadFileContextFile { path: "/c".to_string(), line_ranges: Vec::new() },
        ]
    );
    assert_eq!(request.max_file_bytes, None);
    assert_eq!(request.max_batch_bytes, None);
}

#[test]
fn the_first_rule_file_decides_how_all_are_read() {
    assert_eq!(read_project_rule_contents(Vec::new(), true), None);
    assert_eq!(
        read_project_rule_contents(vec![local("/a"), remote("/b")], false),
        Some(RuleRead::Local { paths: vec![local("/a"), remote("/b")] })
    );
    let paths = vec![remote("/a"), remote("/b")];
    assert_eq!(
        read_project_rule_contents(paths.clone(), true),
        Some(RuleRead::Remote {
            host_id: "host".to_string(),
            request: remote_rule_read_request(&paths),
            paths,
        })
    );
    assert_eq!(read_project_rule_contents(vec![remote("/a")], false), None);
}

#[test]
fn local_files_that_cannot_be_read_are_passed_over() {
    let paths = vec![local("/a"), local("/b"), remote("/c"), local("/d")];
    let reads = vec![
        Some("A".to_string()),
        None,
        Some("C".to_string()),
        Some(String::new()),
    ];
    assert_eq!(
        read_local_project_rule_contents(&paths, &reads),
        vec![(local("/a"), "A".to_string()), (local("/d"), String::new())]
    );
}

#[test]
fn the_last_text_for_a_remote_file_counts() {
    let paths = vec![remote("/b"), remote("/a"), local("/a"), remote("/absent")];
    let contexts = vec![
        text("/a", "first"),
        text("/b", "B"),
        text("/a", "second"),
        FileContext { file_name: "/a".to_string(), content: None },
        FileContext {
            file_name: "/b".to_string(),
            content: Some(FileContent::Binary(vec![1, 2])),
        },
    ];
    assert_eq!(
        read_remote_project_rule_contents(&paths, &contexts),
        vec![(remote("/b"), "B".to_string()), (remote("/a"), "second".to_string())]
    );
}

#[test]
fn an_answered_request_gives_every_rule() {
    let contents = Some(vec![file("/repo/WARP.md", "WARP.md"), file("/repo/x/AGENTS.md", "AGENTS.md")]);
    let paths = find_project_rule_files_in_tree(&remote_repo("/repo"), &contents);
    let mut contexts: Vec<FileContext> = Vec::new();
    for asked in remote_rule_read_request(&paths).files {
        contexts.push(text(&asked.path, "rules"));
    }
    let rules = build_project_rules(read_remote_project_rule_contents(&paths, &contexts));
    assert_eq!(
        rules,
        vec![
            ProjectRule { path: remote("/repo/WARP.md"), content: "rules".to_string() },
            ProjectRule { path: remote("/repo/x/AGENTS.md"), content: "rules".to_string() },
        ]
    );
}

#[test]
fn a_wholly_covered_repository_is_refreshed_from_metadata() {
    let mut model = empty_model();
    let facts = local_facts(
        Some(RepositoryCoverage::Complete),
        vec![file("/repo/WARP.md", "WARP.md")],
    );
    let event = RepoMetadataEvent::RepositoryUpdated { id: local_repo("/repo") };
    assert_eq!(
        model.handle_repo_metadata_event(&event, &vec![facts]),
        vec![Effect::ReadRules {
            repo_id: local_repo("/repo"),
            generation: 1,
            root: local("/repo"),
            read: RuleRead::Local { paths: vec![local("/repo/WARP.md")] },
        }]
    );
    assert_eq!(
        model.apply_read_project_rules(
            &local_repo("/repo"),
            1,
            local("/repo"),
            Ok(vec![(local("/repo/WARP.md"), "be kind".to_string())]),
        ),
        Some(Effect::ReplaceLocalRules {
            root: "/repo".to_string(),
            rules: vec![ProjectRule {
                path: local("/repo/WARP.md"),
                content: "be kind".to_string(),
            }],
        })
    );
    let unread = Err("unreachable".to_string());
    assert_eq!(
        model.apply_read_project_rules(&local_repo("/repo"), 1, local("/repo"), unread),
        None
    );
}

#[test]
fn a_repository_without_rule_files_has_no_rules() {
    let mut model = empty_model();
    let facts = local_facts(Some(RepositoryCoverage::Complete), vec![file("/repo/x", "x")]);
    let event = RepoMetadataEvent::FileTreeEntryUpdated { id: local_repo("/repo") };
    assert_eq!(
        model.handle_repo_metadata_event(&event, &vec![facts]),
        vec![Effect::ReplaceLocalRules { root: "/repo".to_string(), rules: Vec::new() }]
    );
    let event = RepoMetadataEvent::FileTreeUpdated { ids: vec![remote_repo("/repo")] };
    assert_eq!(
        model.handle_repo_metadata_event(&event, &vec![remote_facts(Vec::new(), false)]),
        vec![Effect::ReplaceRemoteRules { root: host_path("/repo"), rules: Vec::new() }]
    );
}

#[test]
fn the_file_system_is_fallen_back_on() {
    let mut model = empty_model();
    let index = vec![
        Effect::UseLocalFilesystem { root: "/repo".to_string() },
        Effect::IndexLocalRules { root: "/repo".to_string() },
    ];
    let event = RepoMetadataEvent::RepositoryUpdated { id: local_repo("/repo") };
    let degraded = local_facts(Some(RepositoryCoverage::Degraded), Vec::new());
    assert_eq!(model.handle_repo_metadata_event(&event, &vec![degraded]), index);
    let mut unindexed = local_facts(None, Vec::new());
    unindexed.indexing_failed = true;
    let event = RepoMetadataEvent::UpdatingRepositoryFailed { id: local_repo("/repo") };
    assert_eq!(model.handle_repo_metadata_event(&event, &vec![unindexed]), index);
    assert_eq!(model.last_refresh_generation(), 2);
}

#[test]
fn a_repository_that_is_being_indexed_is_left_alone() {
    let mut model = empty_model();
    let event = RepoMetadataEvent::RepositoryUpdated { id: local_repo("/repo") };
    let facts = local_facts(None, vec![file("/repo/WARP.md", "WARP.md")]);
    assert!(model.handle_repo_metadata_event(&event, &vec![facts]).is_empty());
    let event = RepoMetadataEvent::IncrementalUpdateReady;
    assert!(model.handle_repo_metadata_event(&event, &Vec::new()).is_empty());
    assert_eq!(model.last_refresh_generation(), 0);
}

#[test]
fn an_updated_tree_refreshes_remote_repositories_only() {
    let mut model = empty_model();
    let event = RepoMetadataEvent::FileTreeUpdated {
        ids: vec![local_repo("/l"), remote_repo("/a"), remote_repo("/b")],
    };
    let rule = || vec![file("/a/WARP.md", "WARP.md")];
    let facts = vec![
        local_facts(Some(RepositoryCoverage::Complete), rule()),
        remote_facts(rule(), true),
        remote_facts(rule(), false),
    ];
    let paths = vec![remote("/a/WARP.md")];
    assert_eq!(
        model.handle_repo_metadata_event(&event, &facts),
        vec![Effect::ReadRules {
            repo_id: remote_repo("/a"),
            generation: 1,
            root: remote("/repo"),
            read: RuleRead::Remote {
                host_id: "host".to_string(),
                request: remote_rule_read_request(&paths),
                paths,
            },
        }]
    );
    assert_eq!(model.last_refresh_generation(), 2);
    assert!(model.has_generations_for(&event, &facts));
}

#[test]
fn rules_of_a_superseded_refresh_are_not_applied() {
    let mut model = empty_model();
    let facts = remote_facts(vec![file("/a/WARP.md", "WARP.md")], true);
    let apply = |model: &MetadataProjectRulesModel, id: &RepositoryIdentifier, generation: u64| {
        model.apply_project_rules_from_metadata_if_current(
            id,
            generation,
            remote("/repo"),
            Vec::new(),
        )
    };
    let replaced =
        Some(Effect::ReplaceRemoteRules { root: host_path("/repo"), rules: Vec::new() });
    let first = remote_repo("/a");
    let second = remote_repo("/b");
    model.refresh_project_rules_from_metadata(&first, &facts);
    model.refresh_project_rules_from_metadata(&second, &facts);
    assert_eq!(apply(&model, &first, 1), replaced);
    assert_eq!(apply(&model, &second, 2), replaced);
    assert_eq!(apply(&model, &first, 2), None);
    model.refresh_project_rules_from_metadata(&first, &facts);
    assert_eq!(apply(&model, &first, 1), None);
    assert_eq!(apply(&model, &first, 3), replaced);
    assert_eq!(apply(&model, &second, 2), replaced);
    assert_eq!(apply(&model, &local_repo("/a"), 3), None);
}

#[test]
fn a_removed_repository_gets_no_rules_any_more() {
    let mut model = empty_model();
    let facts = remote_facts(vec![file("/a/WARP.md", "WARP.md")], true);
    let id = remote_repo("/a");
    model.refresh_project_rules_from_metadata(&id, &facts);
    let event = RepoMetadataEvent::RepositoryRemoved { id: id.clone() };
    assert_eq!(
        model.handle_repo_metadata_event(&event, &vec![remote_facts(Vec::new(), true)]),
        vec![Effect::ClearRemoteRules { root: host_path("/repo") }]
    );
    assert_eq!(
        model.apply_project_rules_from_metadata_if_current(&id, 1, remote("/repo"), Vec::new()),
        None
    );
    assert_eq!(model.advance_refresh_generation(&id), 2);
    assert_eq!(
        model.apply_project_rules_from_metadata_if_current(&id, 1, remote("/repo"), Vec::new()),
        None
    );
    let local_facts = local_facts(None, Vec::new());
    assert_eq!(
        model.clear_project_rules_for_removed_repository(&local_repo("/x"), &local_facts),
        Some(Effect::ClearLocalRules { root: "/repo".to_string() })
    );
}

#[test]
fn a_repository_without_a_root_is_refreshed_without_effect() {
    let mut model = empty_model();
    let mut facts = local_facts(
        Some(RepositoryCoverage::Complete),
        vec![file("/repo/WARP.md", "WARP.md")],
    );
    facts.root_path = None;
    facts.local_path = None;
    let id = local_repo("/repo");
    assert_eq!(model.refresh_project_rules_from_metadata(&id, &facts), None);
    assert!(model.refresh_local_project_rules_from_filesystem(&id, &facts).is_empty());
    assert_eq!(model.clear_project_rules_for_removed_repository(&id, &facts), None);
    assert_eq!(model.last_refresh_generation(), 2);
}

#[test]
fn all_repositories_are_refreshed_at_the_start() {
    let (model, effects) = MetadataProjectRulesModel::new(
        vec![local_repo("/l"), local_repo("/m")],
        vec![host_path("/r")],
        &vec![
            local_facts(Some(RepositoryCoverage::Degraded), Vec::new()),
            local_facts(None, Vec::new()),
            remote_facts(Vec::new(), false),
        ],
    );
    assert_eq!(
        effects,
        vec![
            Effect::UseLocalFilesystem { root: "/repo".to_string() },
            Effect::IndexLocalRules { root: "/repo".to_string() },
            Effect::ReplaceRemoteRules { root: host_path("/repo"), rules: Vec::new() },
        ]
    );
    assert_eq!(model.last_refresh_generation(), 2);
}

#[test]
fn the_refreshes_of_the_start_are_numbered_in_order() {
    let refreshed = || local_facts(Some(RepositoryCoverage::Complete), Vec::new());
    let (model, _) = MetadataProjectRulesModel::new(
        vec![local_repo("/a"), local_repo("/skipped"), local_repo("/b")],
        vec![host_path("/r")],
        &vec![refreshed(), local_facts(None, Vec::new()), refreshed(), remote_facts(Vec::new(), true)],
    );
    let is_current = |id: &RepositoryIdentifier, generation: u64| {
        let root = local("/repo");
        model.apply_project_rules_from_metadata_if_current(id, generation, root, Vec::new()).is_some()
    };
    assert_eq!(model.last_refresh_generation(), 3);
    assert!(is_current(&local_repo("/a"), 1));
    assert!(is_current(&local_repo("/b"), 2));
    assert!(is_current(&remote_repo("/r"), 3));
    for generation in 0..4 {
        assert!(!is_current(&local_repo("/skipped"), generation));
    }
}
