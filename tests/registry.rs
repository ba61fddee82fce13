use cursor_rust_tools::context::{
    find_root_project, AddProjectError, Context, ContextNotification, McpNotification,
    ProjectDescription,
};
use cursor_rust_tools::docs::DocsNotification;
use cursor_rust_tools::path::ProjectPath;
use cursor_rust_tools::progress::{IndexingProgress, LspNotification};
use cursor_rust_tools::project::{Project, TransportType};

fn path(parts: &[&str]) -> ProjectPath {
    ProjectPath::from_components(parts.iter().map(|p| p.to_string()).collect())
}

fn project(parts: &[&str]) -> Project {
    Project::new(path(parts))
}

fn roots_of(ctx: &Context<u32>) -> Vec<String> {
    ctx.project_roots().iter().map(|p| p.to_text()).collect()
}

#[test]
fn add_and_remove_track_the_registered_roots() {
    let mut ctx: Context<u32> = Context::new(4000);
    assert!(ctx.add_project(project(&["work", "a"]), true, Ok(1)).is_ok());
    assert!(ctx.add_project(project(&["work", "b"]), true, Ok(2)).is_ok());
    assert!(ctx.add_project(project(&["work", "c"]), true, Ok(3)).is_ok());
    assert_eq!(roots_of(&ctx), vec!["/work/a", "/work/b", "/work/c"]);
    let removed = ctx.remove_project(&path(&["work", "b"])).unwrap();
    assert_eq!(removed.session, 2);
    assert_eq!(roots_of(&ctx), vec!["/work/a", "/work/c"]);
    assert!(ctx.add_project(project(&["work", "b"]), true, Ok(4)).is_ok());
    assert!(ctx.remove_project(&path(&["work", "a"])).is_some());
    assert_eq!(roots_of(&ctx), vec!["/work/c", "/work/b"]);
}

#[test]
fn adding_a_missing_root_fails_and_changes_nothing() {
    let mut ctx: Context<u32> = Context::new(4000);
    ctx.add_project(project(&["work", "a"]), true, Ok(1)).unwrap();
    let before = roots_of(&ctx);
    let r = ctx.add_project(project(&["work", "gone"]), false, Ok(9));
    match r {
        Err(AddProjectError::RootMissing(p)) => assert_eq!(p.to_text(), "/work/gone"),
        _ => panic!("expected a missing-root error"),
    }
    assert_eq!(roots_of(&ctx), before);
    assert_eq!(ctx.len(), 1);
    assert!(matches!(
        ctx.check_add(&project(&["work", "gone"]), false),
        Err(AddProjectError::RootMissing(_))
    ));
}

#[test]
fn adding_twice_or_with_a_failed_session_fails() {
    let mut ctx: Context<u32> = Context::new(4000);
    ctx.add_project(project(&["work", "a"]), true, Ok(1)).unwrap();
    let again = ctx.add_project(project(&["work", "a"]), true, Ok(2));
    assert!(matches!(again, Err(AddProjectError::AlreadyExists)));
    let failed = ctx.add_project(project(&["work", "b"]), true, Err("spawn failed".to_string()));
    match failed {
        Err(e) => assert_eq!(e.message(), "Failed to initialize LSP: spawn failed"),
        Ok(()) => panic!("expected a session error"),
    }
    assert_eq!(roots_of(&ctx), vec!["/work/a"]);
    assert_eq!(ctx.get_project(&path(&["work", "a"])).unwrap().session, 1);
}

#[test]
fn error_messages() {
    assert_eq!(
        AddProjectError::RootMissing(path(&["x"])).message(),
        "Project root does not exist: \"/x\""
    );
    assert_eq!(AddProjectError::AlreadyExists.message(), "Project already exists");
}

#[test]
fn lookup_by_path_walks_up_to_the_owning_root() {
    let mut ctx: Context<u32> = Context::new(4000);
    ctx.add_project(project(&["work", "a"]), true, Ok(1)).unwrap();
    ctx.add_project(project(&["work", "b"]), true, Ok(2)).unwrap();
    let inside = path(&["work", "a", "src", "lib.rs"]);
    assert_eq!(ctx.get_project_by_path(&inside).unwrap().session, 1);
    assert_eq!(ctx.get_project_by_path(&path(&["work", "b"])).unwrap().session, 2);
    assert!(ctx.get_project_by_path(&path(&["work", "c", "x.rs"])).is_none());
    assert!(ctx.get_project_by_path(&path(&["work"])).is_none());
    assert!(ctx.get_project_by_path(&ProjectPath::fs_root()).is_none());
}

#[test]
fn lookup_prefers_the_nearest_nested_root() {
    let mut ctx: Context<u32> = Context::new(4000);
    ctx.add_project(project(&["work"]), true, Ok(1)).unwrap();
    ctx.add_project(project(&["work", "inner"]), true, Ok(2)).unwrap();
    assert_eq!(ctx.get_project_by_path(&path(&["work", "inner", "a.rs"])).unwrap().session, 2);
    assert_eq!(ctx.get_project_by_path(&path(&["work", "other.rs"])).unwrap().session, 1);
}

#[test]
fn removing_an_unknown_project_returns_none() {
    let mut ctx: Context<u32> = Context::new(4000);
    ctx.add_project(project(&["work", "a"]), true, Ok(1)).unwrap();
    assert!(ctx.remove_project(&path(&["work", "zzz"])).is_none());
    assert_eq!(roots_of(&ctx), vec!["/work/a"]);
}

#[test]
fn added_project_is_announced_and_indexing_flags_follow_events() {
    let mut ctx: Context<u32> = Context::new(4000);
    ctx.add_project(project(&["work", "a"]), true, Ok(1)).unwrap();
    let added = ContextNotification::ProjectAdded(path(&["work", "a"]));
    assert_eq!(added.description_at(0), "Project Added: \"/work/a\"");
    assert_eq!(added.notification_path(), "/work/a");

    let mut started = IndexingProgress::new(path(&["work", "a"]));
    started.start_indexing_at(1_000);
    let fwd = ctx.handle_lsp(LspNotification::IndexingProgress(started));
    assert!(fwd.is_some());
    let fwd = ctx.handle_lsp(LspNotification::Indexing { project: path(&["work", "a"]), is_indexing: true });
    assert_eq!(fwd.unwrap().description_at(0), "LSP Indexing: Started");
    let d = ctx.project_descriptions();
    assert!(d[0].is_indexing_lsp);

    let mut done = IndexingProgress::new(path(&["work", "a"]));
    done.start_indexing_at(1_000);
    done.complete_indexing_at(4_000);
    ctx.handle_lsp(LspNotification::IndexingProgress(done));
    let fwd = ctx.handle_lsp(LspNotification::Indexing { project: path(&["work", "a"]), is_indexing: false });
    assert_eq!(fwd.unwrap().description_at(0), "LSP Indexing: Finished");
    let d = ctx.project_descriptions();
    assert_eq!(d.len(), 1);
    assert_eq!(d[0].name, "a");
    assert_eq!(d[0].root.to_text(), "/work/a");
    assert!(!d[0].is_indexing_lsp);
    assert!(!d[0].is_indexing_docs);
}

#[test]
fn pause_commands_are_not_forwarded() {
    let mut ctx: Context<u32> = Context::new(4000);
    ctx.add_project(project(&["work", "a"]), true, Ok(1)).unwrap();
    let cmd = ctx.toggle_indexing_pause(&path(&["work", "a"]), true).unwrap();
    assert_eq!(
        ContextNotification::Lsp(LspNotification::IndexingPauseResume {
            project: path(&["work", "a"]),
            should_pause: true
        })
        .description_at(0),
        "LSP Indexing: Paused"
    );
    assert!(ctx.handle_lsp(cmd).is_none());
    assert_eq!(
        ctx.toggle_indexing_pause(&path(&["work", "x"]), false).err(),
        Some("Project not found".to_string())
    );
}

#[test]
fn docs_events_set_the_docs_flag() {
    let mut ctx: Context<u32> = Context::new(4000);
    ctx.add_project(project(&["work", "a"]), true, Ok(1)).unwrap();
    let n = ctx.handle_docs(DocsNotification::Indexing { project: path(&["work", "a"]), is_indexing: true });
    assert_eq!(n.description_at(0), "Docs Indexing: Started");
    assert!(ctx.project_descriptions()[0].is_indexing_docs);
    ctx.force_index_docs(&path(&["work", "a"])).unwrap();
    assert!(!ctx.project_descriptions()[0].is_indexing_docs);
    assert_eq!(
        ctx.force_index_docs(&path(&["nope"])),
        Err("Project not found".to_string())
    );
}

#[test]
fn two_projects_are_independent() {
    let mut ctx: Context<u32> = Context::new(4000);
    assert!(ctx.add_project(project(&["work", "a"]), true, Ok(1)).is_ok());
    assert!(ctx.add_project(project(&["work", "b"]), true, Ok(2)).is_ok());
    ctx.handle_lsp(LspNotification::Indexing { project: path(&["work", "b"]), is_indexing: true });
    let removed = ctx.remove_project(&path(&["work", "a"])).unwrap();
    assert_eq!(removed.session, 1);
    let b = ctx.get_project(&path(&["work", "b"])).unwrap();
    assert_eq!(b.session, 2);
    assert!(b.is_indexing_lsp);
    assert_eq!(roots_of(&ctx), vec!["/work/b"]);
}

#[test]
fn a_file_outside_every_project_is_not_routed() {
    let mut ctx: Context<u32> = Context::new(4000);
    let file = path(&["work", "a", "src", "main.rs"]);
    match ctx.project_for_file(&file) {
        Err(e) => assert_eq!(e, "No project found for file /work/a/src/main.rs"),
        Ok(_) => panic!("no project was added"),
    }
    ctx.add_project(project(&["work", "a"]), true, Ok(7)).unwrap();
    let (c, rel) = ctx.project_for_file(&file).unwrap();
    assert_eq!(c.session, 7);
    assert_eq!(rel, "src/main.rs");
}

#[test]
fn configuration_text_and_records() {
    let mut ctx: Context<u32> = Context::new(4000);
    assert_eq!(ctx.address_information(), ("localhost".to_string(), 4000));
    assert!(matches!(ctx.transport(), TransportType::Sse { .. }));
    let config = ctx.mcp_configuration();
    assert!(config.contains("\"url\": \"http://localhost:4000/sse\""));
    assert!(config.starts_with("\n{\n    \"mcpServers\""));
    assert_eq!(
        ctx.configuration_file(&path(&["home", "me"])),
        "/home/me/.cursor-rust-tools"
    );
    let mut p = project(&["work", "a\\b"]);
    p.ignore_crates.push("tokio".to_string());
    ctx.add_project(p, true, Ok(1)).unwrap();
    let records = ctx.config_records();
    assert_eq!(records[0].root, "/work/a/b");
    assert_eq!(records[0].ignore_crates, vec!["tokio".to_string()]);
}

#[test]
fn stdio_transport() {
    let ctx: Context<u32> = Context::with_transport(TransportType::Stdio);
    assert_eq!(ctx.address_information(), ("stdio".to_string(), 0));
    assert!(ctx.mcp_configuration().contains("http://stdio:0/sse"));
}

#[test]
fn notification_texts() {
    let req = ContextNotification::Mcp(McpNotification::Request {
        content: "hover".to_string(),
        project: path(&["f.rs"]),
    });
    assert_eq!(req.description_at(0), "MCP Request: hover");
    assert_eq!(req.notification_path(), "/f.rs");
    let list = ContextNotification::ProjectDescriptions(vec![]);
    assert_eq!(list.description_at(0), "Project Descriptions");
    assert_eq!(list.notification_path(), "project_descriptions");
    let removed = ContextNotification::ProjectRemoved(path(&["w"]));
    assert_eq!(removed.description_at(0), "Project Removed: \"/w\"");
}

#[test]
fn find_root_project_walks_up() {
    let projects = vec![ProjectDescription {
        root: path(&["work", "a"]),
        name: "a".to_string(),
        is_indexing_lsp: false,
        is_indexing_docs: false,
    }];
    let found = find_root_project(&path(&["work", "a", "src", "x.rs"]), &projects).unwrap();
    assert_eq!(found.to_text(), "/work/a");
    assert!(find_root_project(&path(&["work", "b"]), &projects).is_none());
}
