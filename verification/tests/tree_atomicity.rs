use lazynote_core::db::{DbError, SqliteFailure};
use lazynote_core::repo::tree_state::TreeState;
use lazynote_core::{
    AtomId, AtomType, MemoryTreeRepository, TreeRepoError, TreeRepoResult, TreeRepository,
    TreeService, TreeServiceError, WorkspaceNode, WorkspaceNodeId,
};

/// A repository whose engine fails on every move.
struct FailingMoves {
    inner: MemoryTreeRepository,
}

impl TreeRepository for FailingMoves {
    fn state(&self) -> TreeState {
        unreachable!()
    }

    fn inv(&self) -> bool {
        unreachable!()
    }

    fn may_fail(&self) -> bool {
        unreachable!()
    }

    fn tables_well_formed(&self) {}

    fn create_folder(
        &mut self,
        parent_uuid: Option<WorkspaceNodeId>,
        display_name: &str,
    ) -> TreeRepoResult<WorkspaceNode> {
        self.inner.create_folder(parent_uuid, display_name)
    }

    fn create_note_ref(
        &mut self,
        parent_uuid: Option<WorkspaceNodeId>,
        atom_uuid: AtomId,
        display_name: &str,
    ) -> TreeRepoResult<WorkspaceNode> {
        self.inner.create_note_ref(parent_uuid, atom_uuid, display_name)
    }

    fn get_node(
        &self,
        node_uuid: WorkspaceNodeId,
        include_deleted: bool,
    ) -> TreeRepoResult<Option<WorkspaceNode>> {
        self.inner.get_node(node_uuid, include_deleted)
    }

    fn list_children(
        &self,
        parent_uuid: Option<WorkspaceNodeId>,
        include_deleted: bool,
    ) -> TreeRepoResult<Vec<WorkspaceNode>> {
        self.inner.list_children(parent_uuid, include_deleted)
    }

    fn rename_node(&mut self, node_uuid: WorkspaceNodeId, display_name: &str) -> TreeRepoResult<()> {
        self.inner.rename_node(node_uuid, display_name)
    }

    fn move_node(
        &mut self,
        _node_uuid: WorkspaceNodeId,
        _new_parent_uuid: Option<WorkspaceNodeId>,
        _target_order: Option<i64>,
    ) -> TreeRepoResult<()> {
        Err(TreeRepoError::Db(DbError::Sqlite(SqliteFailure::Other(
            "forced sort failure".to_string(),
        ))))
    }

    fn delete_folder_dissolve(&mut self, folder_uuid: WorkspaceNodeId) -> TreeRepoResult<()> {
        self.inner.delete_folder_dissolve(folder_uuid)
    }

    fn delete_folder_delete_all(&mut self, folder_uuid: WorkspaceNodeId) -> TreeRepoResult<()> {
        self.inner.delete_folder_delete_all(folder_uuid)
    }

    fn atom_kind(&self, atom_uuid: AtomId) -> TreeRepoResult<Option<AtomType>> {
        self.inner.atom_kind(atom_uuid)
    }
}

#[test]
fn a_failure_of_the_engine_on_a_move_is_handed_on() {
    let mut service = TreeService::new(FailingMoves {
        inner: MemoryTreeRepository::new(),
    });

    let source_root = service.create_folder(None, "Source").unwrap();
    let _source_a = service
        .create_folder(Some(source_root.node_uuid), "A")
        .unwrap();
    let _source_b = service
        .create_folder(Some(source_root.node_uuid), "B")
        .unwrap();
    let moving = service
        .create_folder(Some(source_root.node_uuid), "Moving")
        .unwrap();

    let target_root = service.create_folder(None, "Target").unwrap();
    let _target_x = service
        .create_folder(Some(target_root.node_uuid), "X")
        .unwrap();
    let _target_y = service
        .create_folder(Some(target_root.node_uuid), "Y")
        .unwrap();

    let before_source = service.list_children(Some(source_root.node_uuid)).unwrap();
    let before_target = service.list_children(Some(target_root.node_uuid)).unwrap();

    let move_result = service.move_node(moving.node_uuid, Some(target_root.node_uuid), Some(0));
    assert!(move_result.is_err());
    assert!(matches!(
        move_result,
        Err(TreeServiceError::Repo(TreeRepoError::Db(_)))
    ));

    let source_children = service.list_children(Some(source_root.node_uuid)).unwrap();
    let source_ids: Vec<_> = source_children.iter().map(|item| item.node_uuid).collect();
    assert!(source_ids.contains(&moving.node_uuid));
    assert_eq!(source_children, before_source);

    let target_children = service.list_children(Some(target_root.node_uuid)).unwrap();
    let target_ids: Vec<_> = target_children.iter().map(|item| item.node_uuid).collect();
    assert!(!target_ids.contains(&moving.node_uuid));
    assert_eq!(target_children, before_target);
}

#[test]
fn refused_move_leaves_the_tables_as_they_were() {
    let mut repo = MemoryTreeRepository::new();
    let a = repo.create_folder_with(1, 10, None, "A").unwrap();
    let b = repo.create_folder_with(2, 10, None, "B").unwrap();
    let before = repo.rows();

    let missing_parent = repo.move_node_at(a.node_uuid, Some(99), Some(0), 20);
    assert_eq!(
        missing_parent,
        Err(TreeRepoError::Db(DbError::Sqlite(
            SqliteFailure::ForeignKeyConstraint
        )))
    );
    assert_eq!(repo.rows(), before);

    let missing_node = repo.move_node_at(77, Some(b.node_uuid), None, 20);
    assert_eq!(missing_node, Err(TreeRepoError::NodeNotFound(77)));
    assert_eq!(repo.rows(), before);
}
