use lazynote_core::api::workspace::{
    map_tree_repo_error, map_tree_service_error, map_workspace_db_error,
    parse_folder_delete_mode, parse_optional_parent_node_id, parse_workspace_atom_id,
    parse_workspace_node_id, to_workspace_node_item, workspace_create_folder_impl,
    workspace_create_note_ref_impl, workspace_delete_folder_impl, workspace_list_children_impl,
    workspace_move_node_impl, workspace_node_kind_label, workspace_rename_node_impl,
    WorkspaceFfiError,
};
use lazynote_core::db::{DbError, SqliteFailure};
use lazynote_core::model::uuid::{read_uuid, write_uuid};
use lazynote_core::{
    AtomType, FolderDeleteMode, MemoryTreeRepository, TreeRepoError, TreeService,
    TreeServiceError, WorkspaceNode, WorkspaceNodeKind,
};

const NOTE_ATOM: &str = "11111111-2222-4333-8444-555555555555";
const TASK_ATOM: &str = "aaaaaaaa-bbbb-4ccc-8ddd-eeeeeeeeeeee";
const UNKNOWN: &str = "00000000-0000-4000-8000-00000000abcd";

fn service() -> TreeService<MemoryTreeRepository> {
    let mut repo = MemoryTreeRepository::new();
    repo.set_atom(read_uuid(NOTE_ATOM).unwrap(), AtomType::Note, false);
    repo.set_atom(read_uuid(TASK_ATOM).unwrap(), AtomType::Task, false);
    TreeService::new(repo)
}

fn create_workspace_folder_via_ffi(
    service: &mut TreeService<MemoryTreeRepository>,
    name: &str,
) -> String {
    let response = workspace_create_folder_impl(service, None, name);
    assert!(response.ok, "{}", response.message);
    response.node.expect("workspace node payload").node_id
}

fn create_workspace_note_ref_node(service: &mut TreeService<MemoryTreeRepository>) -> String {
    let response = workspace_create_note_ref_impl(service, None, NOTE_ATOM, Some("note-ref"));
    assert!(response.ok, "{}", response.message);
    response.node.expect("workspace node payload").node_id
}

#[test]
fn workspace_sqlite_busy_maps_to_db_busy_error_code() {
    let mapped = map_workspace_db_error(DbError::Sqlite(SqliteFailure::Reported {
        code: 5,
        message: "database is busy".to_string(),
    }));
    assert!(matches!(mapped, WorkspaceFfiError::DbBusy(_)));
    assert_eq!(mapped.code(), "db_busy");
    assert_eq!(mapped.message(), "workspace database busy: database is busy");
}

#[test]
fn workspace_sqlite_locked_maps_to_db_busy_error_code() {
    let mapped = map_workspace_db_error(DbError::Sqlite(SqliteFailure::Reported {
        code: 6,
        message: "database is locked".to_string(),
    }));
    assert!(matches!(mapped, WorkspaceFfiError::DbBusy(_)));
    let through_repo = map_tree_repo_error(TreeRepoError::Db(DbError::Sqlite(
        SqliteFailure::Reported {
            code: 6 | (1 << 8),
            message: "database table is locked".to_string(),
        },
    )));
    assert_eq!(
        through_repo,
        WorkspaceFfiError::DbBusy("database table is locked".to_string())
    );
    assert_eq!(
        through_repo.message(),
        "workspace database busy: database table is locked"
    );
}

#[test]
fn workspace_create_folder_returns_node_payload() {
    let mut service = service();
    let name = "workspace-folder";
    let response = workspace_create_folder_impl(&mut service, None, name);
    assert!(response.ok, "{}", response.message);
    assert_eq!(response.error_code, None);
    assert_eq!(response.message, "Workspace folder created.");
    let node = response.node.expect("workspace node payload");
    assert_eq!(node.kind, "folder");
    assert_eq!(node.display_name, name);
    assert!(read_uuid(node.node_id.as_str()).is_some());
    assert!(node.parent_node_id.is_none());
    assert!(node.atom_id.is_none());
    assert_eq!(node.sort_order, 0);
}

#[test]
fn workspace_create_folder_rejects_invalid_parent_node_id() {
    let mut service = service();
    let response = workspace_create_folder_impl(&mut service, Some("not-a-uuid"), "invalid parent");
    assert!(!response.ok);
    assert_eq!(
        response.error_code.as_deref(),
        Some("invalid_parent_node_id")
    );
    assert_eq!(response.message, "invalid parent node id: not-a-uuid");
    assert_eq!(response.node, None);
    let blank = workspace_create_folder_impl(&mut service, Some("   "), "blank parent");
    assert_eq!(blank.error_code.as_deref(), Some("invalid_parent_node_id"));
    assert!(service.repo.rows().is_empty());
}

#[test]
fn workspace_create_folder_maps_parent_not_found_error_code() {
    let mut service = service();
    let response = workspace_create_folder_impl(&mut service, Some(UNKNOWN), "child-folder");
    assert!(!response.ok);
    assert_eq!(response.error_code.as_deref(), Some("parent_not_found"));
    assert_eq!(
        response.message,
        format!("workspace parent not found: {UNKNOWN}")
    );
}

#[test]
fn workspace_create_folder_maps_parent_not_folder_error_code() {
    let mut service = service();
    let parent_note_ref = create_workspace_note_ref_node(&mut service);
    let response =
        workspace_create_folder_impl(&mut service, Some(parent_note_ref.as_str()), "child-folder");
    assert!(!response.ok);
    assert_eq!(response.error_code.as_deref(), Some("parent_not_folder"));
}

#[test]
fn workspace_list_children_returns_created_root_folder() {
    let mut service = service();
    let name = "workspace-list-root";
    let created_id = create_workspace_folder_via_ffi(&mut service, name);

    let response = workspace_list_children_impl(&service, None);
    assert!(response.ok, "{}", response.message);
    assert!(
        response
            .items
            .iter()
            .any(|item| item.node_id == created_id && item.display_name == name),
        "created root folder should appear in list_children(None)"
    );
    assert_eq!(response.message, "Loaded 1 workspace node(s).");

    let child = workspace_create_folder_impl(&mut service, Some(&format!(" {created_id} ")), "c");
    assert!(child.ok);
    let listed = workspace_list_children_impl(&service, Some(created_id.as_str()));
    assert_eq!(listed.items, vec![child.node.unwrap()]);
    let missing = workspace_list_children_impl(&service, Some(UNKNOWN));
    assert_eq!(missing.error_code.as_deref(), Some("parent_not_found"));
    assert!(missing.items.is_empty());
    let empty = workspace_list_children_impl(&service, Some(listed.items[0].node_id.as_str()));
    assert_eq!(empty.message, "Loaded 0 workspace node(s).");
}

#[test]
fn workspace_create_note_ref_rejects_invalid_atom_id() {
    let mut service = service();
    let response = workspace_create_note_ref_impl(&mut service, None, "not-a-uuid", None);
    assert!(!response.ok);
    assert_eq!(response.error_code.as_deref(), Some("invalid_atom_id"));
}

#[test]
fn workspace_create_note_ref_maps_atom_not_found_error_code() {
    let mut service = service();
    let response = workspace_create_note_ref_impl(&mut service, None, UNKNOWN, None);
    assert!(!response.ok);
    assert_eq!(response.error_code.as_deref(), Some("atom_not_found"));
}

#[test]
fn workspace_create_note_ref_rejects_non_note_atom() {
    let mut service = service();
    let response = workspace_create_note_ref_impl(&mut service, None, TASK_ATOM, None);
    assert!(!response.ok);
    assert_eq!(response.error_code.as_deref(), Some("atom_not_note"));
    assert_eq!(
        response.message,
        format!("workspace atom is not a note: {TASK_ATOM}")
    );
}

#[test]
fn workspace_create_note_ref_gives_the_default_name() {
    let mut service = service();
    let response = workspace_create_note_ref_impl(&mut service, None, NOTE_ATOM, None);
    assert!(response.ok);
    assert_eq!(response.message, "Workspace note reference created.");
    let node = response.node.unwrap();
    assert_eq!(node.kind, "note_ref");
    assert_eq!(node.atom_id.as_deref(), Some(NOTE_ATOM));
    assert_eq!(node.display_name, "Untitled note");
}

#[test]
fn workspace_rename_node_rejects_blank_name() {
    let mut service = service();
    let node_id = create_workspace_folder_via_ffi(&mut service, "rename-target");
    let response = workspace_rename_node_impl(&mut service, node_id.as_str(), "   ");
    assert!(!response.ok);
    assert_eq!(response.error_code.as_deref(), Some("invalid_display_name"));
    assert_eq!(
        response.message,
        "invalid display name: display name must not be blank"
    );
    let done = workspace_rename_node_impl(&mut service, node_id.as_str(), " new ");
    assert!(done.ok);
    assert_eq!(done.message, "Workspace node renamed.");
    let listed = workspace_list_children_impl(&service, None);
    assert_eq!(listed.items[0].display_name, "new");
}

#[test]
fn workspace_move_node_rejects_cycle() {
    let mut service = service();
    let parent_id = create_workspace_folder_via_ffi(&mut service, "move-parent");
    let child_response =
        workspace_create_folder_impl(&mut service, Some(parent_id.as_str()), "move-child");
    assert!(child_response.ok, "{}", child_response.message);
    let child_id = child_response.node.expect("child node payload").node_id;

    let move_response =
        workspace_move_node_impl(&mut service, parent_id.as_str(), Some(child_id.as_str()), None);
    assert!(!move_response.ok);
    assert_eq!(move_response.error_code.as_deref(), Some("cycle_detected"));
    assert_eq!(
        move_response.message,
        format!("workspace cycle detected: node={parent_id} parent={child_id}")
    );

    let to_root = workspace_move_node_impl(&mut service, child_id.as_str(), None, Some(0));
    assert!(to_root.ok);
    assert_eq!(to_root.message, "Workspace node moved.");
    let listed = workspace_list_children_impl(&service, None);
    let ids: Vec<_> = listed.items.iter().map(|item| item.node_id.clone()).collect();
    assert_eq!(ids, vec![child_id, parent_id]);
}

#[test]
fn workspace_delete_folder_rejects_invalid_node_id() {
    let mut service = service();
    let response = workspace_delete_folder_impl(&mut service, "not-a-uuid", "dissolve");
    assert!(!response.ok);
    assert_eq!(response.error_code.as_deref(), Some("invalid_node_id"));
}

#[test]
fn workspace_delete_folder_rejects_invalid_mode() {
    let mut service = service();
    let folder_id = create_workspace_folder_via_ffi(&mut service, "invalid-mode");
    let response = workspace_delete_folder_impl(&mut service, folder_id.as_str(), "archive");
    assert!(!response.ok);
    assert_eq!(response.error_code.as_deref(), Some("invalid_delete_mode"));
    assert_eq!(
        response.message,
        "invalid delete mode: archive, expected dissolve|delete_all"
    );
}

#[test]
fn workspace_delete_folder_maps_node_not_found_error_code() {
    let mut service = service();
    let response = workspace_delete_folder_impl(&mut service, UNKNOWN, "dissolve");
    assert!(!response.ok);
    assert_eq!(response.error_code.as_deref(), Some("node_not_found"));
}

#[test]
fn workspace_delete_folder_maps_node_not_folder_error_code() {
    let mut service = service();
    let node_id = create_workspace_note_ref_node(&mut service);
    let response = workspace_delete_folder_impl(&mut service, node_id.as_str(), "dissolve");
    assert!(!response.ok);
    assert_eq!(response.error_code.as_deref(), Some("node_not_folder"));
}

#[test]
fn workspace_delete_folder_supports_both_modes() {
    let mut service = service();
    let dissolve_folder = create_workspace_folder_via_ffi(&mut service, "dissolve-ok");
    let delete_all_folder = create_workspace_folder_via_ffi(&mut service, "delete-all-ok");

    let dissolve_response =
        workspace_delete_folder_impl(&mut service, dissolve_folder.as_str(), "dissolve");
    assert!(dissolve_response.ok, "{}", dissolve_response.message);
    assert!(dissolve_response.error_code.is_none());

    let delete_all_response =
        workspace_delete_folder_impl(&mut service, delete_all_folder.as_str(), " delete_all ");
    assert!(delete_all_response.ok, "{}", delete_all_response.message);
    assert!(delete_all_response.error_code.is_none());
    assert_eq!(delete_all_response.message, "Workspace folder deleted.");
    assert!(workspace_list_children_impl(&service, None).items.is_empty());
}

#[test]
fn arguments_are_read_trimmed() {
    let id = read_uuid(NOTE_ATOM).unwrap();
    assert_eq!(parse_workspace_node_id(&format!("  {NOTE_ATOM}\n")), Ok(id));
    assert_eq!(
        parse_workspace_node_id(" nope "),
        Err(WorkspaceFfiError::InvalidNodeId(" nope ".to_string()))
    );
    assert_eq!(parse_workspace_atom_id(NOTE_ATOM), Ok(id));
    assert_eq!(
        parse_workspace_atom_id(""),
        Err(WorkspaceFfiError::InvalidAtomId(String::new()))
    );
    assert_eq!(parse_optional_parent_node_id(None), Ok(None));
    assert_eq!(parse_optional_parent_node_id(Some(NOTE_ATOM)), Ok(Some(id)));
    assert_eq!(
        parse_optional_parent_node_id(Some(" ")),
        Err(WorkspaceFfiError::InvalidParentNodeId(" ".to_string()))
    );
    assert_eq!(
        parse_folder_delete_mode(" dissolve "),
        Ok(FolderDeleteMode::Dissolve)
    );
    assert_eq!(
        parse_folder_delete_mode("delete_all"),
        Ok(FolderDeleteMode::DeleteAll)
    );
    assert_eq!(
        parse_folder_delete_mode(" Dissolve "),
        Err(WorkspaceFfiError::InvalidDeleteMode("Dissolve".to_string()))
    );
}

#[test]
fn ids_are_written_hyphenated_in_lower_case() {
    assert_eq!(write_uuid(read_uuid(NOTE_ATOM).unwrap()), NOTE_ATOM);
    assert_eq!(
        write_uuid(0x0123456789abcdef0123456789abcdef),
        "01234567-89ab-cdef-0123-456789abcdef"
    );
    assert_eq!(
        read_uuid("0123456789ABCDEF0123456789ABCDEF"),
        Some(0x0123456789abcdef0123456789abcdef)
    );
    assert_eq!(read_uuid("0123"), None);
}

#[test]
fn every_error_has_its_code() {
    let id = 0x0123456789abcdef0123456789abcdef;
    let text = "01234567-89ab-cdef-0123-456789abcdef";
    let cases = vec![
        (TreeServiceError::InvalidDisplayName, "invalid_display_name"),
        (TreeServiceError::NodeNotFound(id), "node_not_found"),
        (TreeServiceError::ParentNotFound(id), "parent_not_found"),
        (TreeServiceError::ParentMustBeFolder(id), "parent_not_folder"),
        (TreeServiceError::NodeMustBeFolder(id), "node_not_folder"),
        (TreeServiceError::AtomNotFound(id), "atom_not_found"),
        (TreeServiceError::AtomNotNote(id), "atom_not_note"),
        (
            TreeServiceError::CycleDetected {
                node_uuid: id,
                parent_uuid: id,
            },
            "cycle_detected",
        ),
        (
            TreeServiceError::Repo(TreeRepoError::NodeNotFound(id)),
            "node_not_found",
        ),
        (
            TreeServiceError::Repo(TreeRepoError::NodeNotFolder(id)),
            "node_not_folder",
        ),
        (
            TreeServiceError::Repo(TreeRepoError::InvalidData("broken row".to_string())),
            "internal_error",
        ),
        (
            TreeServiceError::Repo(TreeRepoError::MissingRequiredTable("workspace_nodes")),
            "db_error",
        ),
        (
            TreeServiceError::Repo(TreeRepoError::Db(DbError::Sqlite(
                SqliteFailure::UniqueConstraint,
            ))),
            "db_error",
        ),
    ];
    for (error, code) in cases {
        assert_eq!(map_tree_service_error(error).code(), code);
    }
    assert_eq!(
        map_tree_service_error(TreeServiceError::NodeNotFound(id)),
        WorkspaceFfiError::NodeNotFound(text.to_string())
    );
    assert_eq!(
        map_tree_repo_error(TreeRepoError::UninitializedConnection {
            expected_version: 8,
            actual_version: 3
        }),
        WorkspaceFfiError::DbError("repository requires schema 8, got 3".to_string())
    );
    assert_eq!(
        map_tree_repo_error(TreeRepoError::MissingRequiredColumn {
            table: "workspace_nodes",
            column: "kind"
        })
        .message(),
        "workspace database error: missing required column `kind` in table `workspace_nodes`"
    );
    assert_eq!(
        TreeServiceError::CycleDetected {
            node_uuid: id,
            parent_uuid: id
        }
        .message(),
        format!("move would create cycle: node {text} under parent {text}")
    );
    assert_eq!(
        TreeServiceError::Repo(TreeRepoError::NodeNotFolder(id)).message(),
        format!("workspace node is not a folder: {text}")
    );
    assert_eq!(
        TreeRepoError::UninitializedConnection {
            expected_version: 8,
            actual_version: 0
        }
        .message(),
        "workspace repository requires schema version 8, got 0"
    );
}

#[test]
fn nodes_are_shown_with_their_ids_as_text() {
    let node = WorkspaceNode {
        node_uuid: 1,
        kind: WorkspaceNodeKind::NoteRef,
        parent_uuid: Some(2),
        atom_uuid: Some(3),
        display_name: "n".to_string(),
        sort_order: -4,
        is_deleted: false,
        created_at: 5,
        updated_at: 6,
    };
    let item = to_workspace_node_item(node);
    assert_eq!(item.node_id, "00000000-0000-0000-0000-000000000001");
    assert_eq!(item.kind, "note_ref");
    assert_eq!(
        item.parent_node_id.as_deref(),
        Some("00000000-0000-0000-0000-000000000002")
    );
    assert_eq!(
        item.atom_id.as_deref(),
        Some("00000000-0000-0000-0000-000000000003")
    );
    assert_eq!(item.sort_order, -4);
    assert_eq!(workspace_node_kind_label(WorkspaceNodeKind::Folder), "folder");
}

#[test]
fn only_busy_and_locked_count_as_busy() {
    for (code, busy) in [(5, true), (6, true), (5 | (2 << 8), true), (1, false), (19, false), (13, false), (0, false)] {
        let mapped = map_workspace_db_error(DbError::Sqlite(SqliteFailure::Reported {
            code,
            message: "m".to_string(),
        }));
        assert_eq!(mapped.code(), if busy { "db_busy" } else { "db_error" });
    }
    for failure in [
        SqliteFailure::UniqueConstraint,
        SqliteFailure::ForeignKeyConstraint,
        SqliteFailure::IntegerOverflow,
        SqliteFailure::Full,
        SqliteFailure::Other("database is locked".to_string()),
    ] {
        assert_eq!(map_workspace_db_error(DbError::Sqlite(failure)).code(), "db_error");
    }
}
