use lazynote_core::db::{DbError, SqliteFailure};
use lazynote_core::model::uuid::write_uuid;
use lazynote_core::repo::atom_repo::parse_atom_type;
use lazynote_core::repo::memory_tree::NodeWrite;
use lazynote_core::repo::tree_repo::{
    parse_uuid, parse_workspace_node_row, workspace_kind_to_db, RawNodeRow,
};
use lazynote_core::repo::tree_state::{AtomRow, TreeState};
use lazynote_core::{
    AtomId, AtomType, MemoryTreeRepository, TreeRepoError, TreeRepoResult, TreeRepository,
    TreeService, TreeServiceError, WorkspaceNode, WorkspaceNodeId,
};
use rusqlite::{Connection, Transaction, TransactionBehavior};

fn engine(err: rusqlite::Error) -> TreeRepoError {
    let failure = match &err {
        rusqlite::Error::SqliteFailure(failure, message) => SqliteFailure::Reported {
            code: failure.extended_code,
            message: message.clone().unwrap_or_else(|| failure.to_string()),
        },
        other => SqliteFailure::Other(other.to_string()),
    };
    TreeRepoError::Db(DbError::Sqlite(failure))
}

/// The tree tables kept in SQLite: every operation reads them into the
/// tables of the library, lets the library decide, and writes back what
/// changed inside one immediate transaction.
struct SqliteTree<'conn> {
    conn: &'conn Connection,
}

impl SqliteTree<'_> {
    fn load(conn: &Connection) -> TreeRepoResult<MemoryTreeRepository> {
        let mut nodes = Vec::new();
        let mut stmt = conn
            .prepare(
                "SELECT node_uuid, kind, parent_uuid, atom_uuid, display_name, sort_order,
                        is_deleted, created_at, updated_at
                 FROM workspace_nodes ORDER BY rowid ASC;",
            )
            .map_err(engine)?;
        let mut rows = stmt.query([]).map_err(engine)?;
        while let Some(row) = rows.next().map_err(engine)? {
            let raw = RawNodeRow {
                node_uuid: row.get(0).map_err(engine)?,
                kind: row.get(1).map_err(engine)?,
                parent_uuid: row.get(2).map_err(engine)?,
                atom_uuid: row.get(3).map_err(engine)?,
                display_name: row.get(4).map_err(engine)?,
                sort_order: row.get(5).map_err(engine)?,
                is_deleted: row.get(6).map_err(engine)?,
                created_at: row.get(7).map_err(engine)?,
                updated_at: row.get(8).map_err(engine)?,
            };
            nodes.push(parse_workspace_node_row(&raw)?);
        }
        let mut atoms = Vec::new();
        let mut stmt = conn
            .prepare("SELECT uuid, type, is_deleted FROM atoms ORDER BY rowid ASC;")
            .map_err(engine)?;
        let mut rows = stmt.query([]).map_err(engine)?;
        while let Some(row) = rows.next().map_err(engine)? {
            let uuid_text: String = row.get(0).map_err(engine)?;
            let type_text: String = row.get(1).map_err(engine)?;
            let is_deleted: i64 = row.get(2).map_err(engine)?;
            atoms.push(AtomRow {
                uuid: parse_uuid(&uuid_text, "atoms.uuid")?,
                kind: parse_atom_type(&type_text).unwrap(),
                is_deleted: is_deleted != 0,
            });
        }
        MemoryTreeRepository::from_rows(nodes, atoms)
    }

    fn store(
        tx: &Transaction<'_>,
        before: &MemoryTreeRepository,
        after: &MemoryTreeRepository,
    ) -> TreeRepoResult<()> {
        for write in after.node_writes_since(before) {
            match write {
                NodeWrite::Update(row) => {
                    tx.execute(
                        "UPDATE workspace_nodes
                         SET parent_uuid = ?2, display_name = ?3, sort_order = ?4,
                             is_deleted = ?5, updated_at = ?6
                         WHERE node_uuid = ?1;",
                        (
                            write_uuid(row.node_uuid),
                            row.parent_uuid.map(write_uuid),
                            row.display_name.as_str(),
                            row.sort_order,
                            row.is_deleted,
                            row.updated_at,
                        ),
                    )
                    .map_err(engine)?;
                }
                NodeWrite::Insert(row) => {
                    tx.execute(
                        "INSERT INTO workspace_nodes (
                            node_uuid, kind, parent_uuid, atom_uuid, display_name, sort_order,
                            is_deleted, created_at, updated_at
                         ) VALUES (?1, ?2, ?3, ?4, ?5, ?6, ?7, ?8, ?9);",
                        (
                            write_uuid(row.node_uuid),
                            workspace_kind_to_db(row.kind),
                            row.parent_uuid.map(write_uuid),
                            row.atom_uuid.map(write_uuid),
                            row.display_name.as_str(),
                            row.sort_order,
                            row.is_deleted,
                            row.created_at,
                            row.updated_at,
                        ),
                    )
                    .map_err(engine)?;
                }
            }
        }
        for atom in after.atom_writes_since(before) {
            tx.execute(
                "UPDATE atoms SET is_deleted = ?2 WHERE uuid = ?1;",
                (write_uuid(atom.uuid), atom.is_deleted),
            )
            .map_err(engine)?;
        }
        Ok(())
    }

    fn mutate<T>(
        &mut self,
        operation: impl FnOnce(&mut MemoryTreeRepository) -> TreeRepoResult<T>,
    ) -> TreeRepoResult<T> {
        let tx = Transaction::new_unchecked(self.conn, TransactionBehavior::Immediate)
            .map_err(engine)?;
        let before = Self::load(&tx)?;
        let mut after = Self::load(&tx)?;
        let value = operation(&mut after)?;
        Self::store(&tx, &before, &after)?;
        tx.commit().map_err(engine)?;
        Ok(value)
    }
}

impl TreeRepository for SqliteTree<'_> {
    fn state(&self) -> TreeState {
        unreachable!()
    }

    fn inv(&self) -> bool {
        unreachable!()
    }

    fn may_fail(&self) -> bool {
        unreachable!()
    }

    fn tables_well_formed(&self) {}

    fn create_folder(
        &mut self,
        parent_uuid: Option<WorkspaceNodeId>,
        display_name: &str,
    ) -> TreeRepoResult<WorkspaceNode> {
        self.mutate(|tables| tables.create_folder(parent_uuid, display_name))
    }

    fn create_note_ref(
        &mut self,
        parent_uuid: Option<WorkspaceNodeId>,
        atom_uuid: AtomId,
        display_name: &str,
    ) -> TreeRepoResult<WorkspaceNode> {
        self.mutate(|tables| tables.create_note_ref(parent_uuid, atom_uuid, display_name))
    }

    fn get_node(
        &self,
        node_uuid: WorkspaceNodeId,
        include_deleted: bool,
    ) -> TreeRepoResult<Option<WorkspaceNode>> {
        Self::load(self.conn)?.get_node(node_uuid, include_deleted)
    }

    fn list_children(
        &self,
        parent_uuid: Option<WorkspaceNodeId>,
        include_deleted: bool,
    ) -> TreeRepoResult<Vec<WorkspaceNode>> {
        Self::load(self.conn)?.list_children(parent_uuid, include_deleted)
    }

    fn rename_node(&mut self, node_uuid: WorkspaceNodeId, display_name: &str) -> TreeRepoResult<()> {
        self.mutate(|tables| tables.rename_node(node_uuid, display_name))
    }

    fn move_node(
        &mut self,
        node_uuid: WorkspaceNodeId,
        new_parent_uuid: Option<WorkspaceNodeId>,
        target_order: Option<i64>,
    ) -> TreeRepoResult<()> {
        self.mutate(|tables| tables.move_node(node_uuid, new_parent_uuid, target_order))
    }

    fn delete_folder_dissolve(&mut self, folder_uuid: WorkspaceNodeId) -> TreeRepoResult<()> {
        self.mutate(|tables| tables.delete_folder_dissolve(folder_uuid))
    }

    fn delete_folder_delete_all(&mut self, folder_uuid: WorkspaceNodeId) -> TreeRepoResult<()> {
        self.mutate(|tables| tables.delete_folder_delete_all(folder_uuid))
    }

    fn atom_kind(&self, atom_uuid: AtomId) -> TreeRepoResult<Option<AtomType>> {
        Self::load(self.conn)?.atom_kind(atom_uuid)
    }
}

fn setup() -> Connection {
    let conn = Connection::open_in_memory().unwrap();
    conn.execute_batch(
        "PRAGMA foreign_keys = ON;
         CREATE TABLE atoms (
            uuid TEXT PRIMARY KEY NOT NULL,
            type TEXT NOT NULL CHECK (type IN ('note', 'task', 'event')),
            content TEXT NOT NULL DEFAULT '',
            is_deleted INTEGER NOT NULL DEFAULT 0 CHECK (is_deleted IN (0, 1)),
            updated_at INTEGER NOT NULL DEFAULT 0
         );
         CREATE TABLE workspace_nodes (
            node_uuid TEXT PRIMARY KEY NOT NULL,
            kind TEXT NOT NULL CHECK (kind IN ('folder', 'note_ref')),
            parent_uuid TEXT REFERENCES workspace_nodes (node_uuid),
            atom_uuid TEXT,
            display_name TEXT NOT NULL,
            sort_order INTEGER NOT NULL DEFAULT 0,
            is_deleted INTEGER NOT NULL DEFAULT 0 CHECK (is_deleted IN (0, 1)),
            created_at INTEGER NOT NULL DEFAULT 0,
            updated_at INTEGER NOT NULL DEFAULT 0,
            CHECK ((kind = 'folder' AND atom_uuid IS NULL) OR (kind = 'note_ref' AND atom_uuid IS NOT NULL))
         );",
    )
    .unwrap();
    conn
}

fn stored_rows(conn: &Connection) -> Vec<(String, Option<String>, i64, i64)> {
    let mut stmt = conn
        .prepare(
            "SELECT node_uuid, parent_uuid, sort_order, is_deleted
             FROM workspace_nodes ORDER BY rowid ASC;",
        )
        .unwrap();
    let rows = stmt
        .query_map([], |row| {
            Ok((row.get(0)?, row.get(1)?, row.get(2)?, row.get(3)?))
        })
        .unwrap();
    rows.map(|row| row.unwrap()).collect()
}

#[test]
fn move_node_rolls_back_when_reorder_fails() {
    let conn = setup();
    let mut service = TreeService::new(SqliteTree { conn: &conn });

    let source_root = service.create_folder(None, "Source").unwrap();
    let _source_a = service
        .create_folder(Some(source_root.node_uuid), "A")
        .unwrap();
    let _source_b = service
        .create_folder(Some(source_root.node_uuid), "B")
        .unwrap();
    let moving = service
        .create_folder(Some(source_root.node_uuid), "Moving")
        .unwrap();

    let target_root = service.create_folder(None, "Target").unwrap();
    let _target_x = service
        .create_folder(Some(target_root.node_uuid), "X")
        .unwrap();
    let target_y = service
        .create_folder(Some(target_root.node_uuid), "Y")
        .unwrap();

    conn.execute_batch(&format!(
        "CREATE TRIGGER workspace_nodes_fail_sort_update_test
         BEFORE UPDATE OF sort_order ON workspace_nodes
         WHEN NEW.node_uuid = '{}'
         BEGIN
             SELECT RAISE(ABORT, 'forced sort failure');
         END;",
        write_uuid(target_y.node_uuid)
    ))
    .unwrap();
    let before = stored_rows(&conn);

    let move_result = service.move_node(moving.node_uuid, Some(target_root.node_uuid), Some(0));
    assert!(move_result.is_err());
    match move_result {
        Err(TreeServiceError::Repo(TreeRepoError::Db(DbError::Sqlite(
            SqliteFailure::Reported { message, .. },
        )))) => assert_eq!(message, "forced sort failure"),
        other => panic!("unexpected result: {other:?}"),
    }

    let source_children = service.list_children(Some(source_root.node_uuid)).unwrap();
    let source_ids: Vec<_> = source_children.iter().map(|item| item.node_uuid).collect();
    assert!(source_ids.contains(&moving.node_uuid));

    let target_children = service.list_children(Some(target_root.node_uuid)).unwrap();
    let target_ids: Vec<_> = target_children.iter().map(|item| item.node_uuid).collect();
    assert!(!target_ids.contains(&moving.node_uuid));

    assert_eq!(stored_rows(&conn), before);
}

#[test]
fn a_move_that_the_engine_takes_is_written_whole() {
    let conn = setup();
    let mut service = TreeService::new(SqliteTree { conn: &conn });
    let source = service.create_folder(None, "Source").unwrap();
    let moving = service.create_folder(Some(source.node_uuid), "Moving").unwrap();
    let stays = service.create_folder(Some(source.node_uuid), "Stays").unwrap();
    let target = service.create_folder(None, "Target").unwrap();
    let x = service.create_folder(Some(target.node_uuid), "X").unwrap();
    let y = service.create_folder(Some(target.node_uuid), "Y").unwrap();

    service
        .move_node(moving.node_uuid, Some(target.node_uuid), Some(1))
        .unwrap();

    let placed: Vec<(String, Option<String>, i64)> = stored_rows(&conn)
        .into_iter()
        .map(|(id, parent, order, _)| (id, parent, order))
        .collect();
    let id = |node: &WorkspaceNode| write_uuid(node.node_uuid);
    assert_eq!(
        placed,
        vec![
            (id(&source), None, 0),
            (id(&moving), Some(id(&target)), 1),
            (id(&stays), Some(id(&source)), 1),
            (id(&target), None, 1),
            (id(&x), Some(id(&target)), 0),
            (id(&y), Some(id(&target)), 2),
        ]
    );
}

#[test]
fn only_the_rows_that_changed_are_written() {
    let mut before = MemoryTreeRepository::new();
    let a = before.create_folder_with(1, 10, None, "A").unwrap();
    let b = before.create_folder_with(2, 10, None, "B").unwrap();
    let c = before.create_folder_with(3, 10, Some(a.node_uuid), "C").unwrap();
    before.set_atom(7, AtomType::Note, false);
    before.set_atom(8, AtomType::Note, false);

    let mut after = MemoryTreeRepository::from_rows(before.rows(), before.atom_rows()).unwrap();
    assert!(after.node_writes_since(&before).is_empty());
    assert!(after.atom_writes_since(&before).is_empty());

    after.rename_node_at(b.node_uuid, "Bee", 20).unwrap();
    let d = after.create_note_ref_with(4, 30, Some(a.node_uuid), 7, "D").unwrap();
    after.delete_folder_delete_all_at(a.node_uuid, 40).unwrap();

    let writes = after.node_writes_since(&before);
    let told: Vec<(bool, u128)> = writes
        .iter()
        .map(|write| match write {
            NodeWrite::Insert(row) => (true, row.node_uuid),
            NodeWrite::Update(row) => (false, row.node_uuid),
        })
        .collect();
    assert_eq!(
        told,
        vec![
            (false, a.node_uuid),
            (false, b.node_uuid),
            (false, c.node_uuid),
            (true, d.node_uuid)
        ]
    );
    match &writes[1] {
        NodeWrite::Update(row) => {
            assert_eq!(row.display_name, "Bee");
            assert_eq!(row.updated_at, 20);
        }
        other => panic!("unexpected write: {other:?}"),
    }
    let turned = after.atom_writes_since(&before);
    assert_eq!(
        turned,
        vec![AtomRow {
            uuid: 7,
            kind: AtomType::Note,
            is_deleted: true
        }]
    );
    assert_eq!(before.node_writes_since(&before), vec![]);
}
