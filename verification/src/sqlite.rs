//! The databases of a session: where they lie, how they are opened, and when one is ready as it is.

use crate::text::{chars_of, has_prefix, has_suffix, same_text};
use vstd::prelude::*;

verus! {

/// What a database is for.
#[derive(Debug, Clone, Copy, PartialEq, Eq, Structural)]
pub enum DbKind {
    State,
    Logs,
    Goals,
    Memories,
    Queue,
    ThreadHistory,
}

/// How a database is named, in its file and in reports.
#[derive(Debug, Clone, Copy, PartialEq, Eq)]
pub struct RuntimeDbSpec {
    pub label: &'static str,
    pub filename: &'static str,
    pub kind: DbKind,
    pub open_phase: &'static str,
    pub migrate_phase: &'static str,
}

/// The name of the file of a database.
pub open spec fn filename_of(kind: DbKind) -> Seq<char> {
    match kind {
        DbKind::State => "state_5.sqlite"@,
        DbKind::Logs => "logs_2.sqlite"@,
        DbKind::Goals => "goals_1.sqlite"@,
        DbKind::Memories => "memories_1.sqlite"@,
        DbKind::Queue => "queue_1.sqlite"@,
        DbKind::ThreadHistory => "thread_history_1.sqlite"@,
    }
}

/// What a user calls a database.
pub open spec fn label_of(kind: DbKind) -> Seq<char> {
    match kind {
        DbKind::State => "state DB"@,
        DbKind::Logs => "log DB"@,
        DbKind::Goals => "goals DB"@,
        DbKind::Memories => "memories DB"@,
        DbKind::Queue => "queue DB"@,
        DbKind::ThreadHistory => "thread history DB"@,
    }
}

/// The phase of opening a database, as it is reported.
pub open spec fn open_phase_of(kind: DbKind) -> Seq<char> {
    match kind {
        DbKind::State => "open_state"@,
        DbKind::Logs => "open_logs"@,
        DbKind::Goals => "open_goals"@,
        DbKind::Memories => "open_memories"@,
        DbKind::Queue => "open_queue"@,
        DbKind::ThreadHistory => "open_thread_history"@,
    }
}

/// The phase of migrating a database, as it is reported.
pub open spec fn migrate_phase_of(kind: DbKind) -> Seq<char> {
    match kind {
        DbKind::State => "migrate_state"@,
        DbKind::Logs => "migrate_logs"@,
        DbKind::Goals => "migrate_goals"@,
        DbKind::Memories => "migrate_memories"@,
        DbKind::Queue => "migrate_queue"@,
        DbKind::ThreadHistory => "migrate_thread_history"@,
    }
}

impl RuntimeDbSpec {
    /// Whether the names are those of a database of the kind.
    pub open spec fn is_named(&self) -> bool {
        &&& self.label@ == label_of(self.kind)
        &&& self.filename@ == filename_of(self.kind)
        &&& self.open_phase@ == open_phase_of(self.kind)
        &&& self.migrate_phase@ == migrate_phase_of(self.kind)
    }
}

/// The names of a database.
pub fn runtime_db(kind: DbKind) -> (spec: RuntimeDbSpec)
    ensures
        spec.kind == kind,
        spec.is_named(),
        is_plain_name(spec.filename@),
{
    proof {
        lemma_filename_letter(kind);
    }
    match kind {
        DbKind::State => RuntimeDbSpec {
            label: "state DB",
            filename: "state_5.sqlite",
            kind: DbKind::State,
            open_phase: "open_state",
            migrate_phase: "migrate_state",
        },
        DbKind::Logs => RuntimeDbSpec {
            label: "log DB",
            filename: "logs_2.sqlite",
            kind: DbKind::Logs,
            open_phase: "open_logs",
            migrate_phase: "migrate_logs",
        },
        DbKind::Goals => RuntimeDbSpec {
            label: "goals DB",
            filename: "goals_1.sqlite",
            kind: DbKind::Goals,
            open_phase: "open_goals",
            migrate_phase: "migrate_goals",
        },
        DbKind::Memories => RuntimeDbSpec {
            label: "memories DB",
            filename: "memories_1.sqlite",
            kind: DbKind::Memories,
            open_phase: "open_memories",
            migrate_phase: "migrate_memories",
        },
        DbKind::Queue => RuntimeDbSpec {
            label: "queue DB",
            filename: "queue_1.sqlite",
            kind: DbKind::Queue,
            open_phase: "open_queue",
            migrate_phase: "migrate_queue",
        },
        DbKind::ThreadHistory => RuntimeDbSpec {
            label: "thread history DB",
            filename: "thread_history_1.sqlite",
            kind: DbKind::ThreadHistory,
            open_phase: "open_thread_history",
            migrate_phase: "migrate_thread_history",
        },
    }
}

/// No two databases share a file.
pub proof fn lemma_files_differ(a: DbKind, b: DbKind)
    requires
        filename_of(a) == filename_of(b),
    ensures
        a == b,
{
    lemma_filename_letter(a);
    lemma_filename_letter(b);
}

/// The letter with which the file of a database begins.
spec fn letter_of(kind: DbKind) -> char {
    match kind {
        DbKind::State => 's',
        DbKind::Logs => 'l',
        DbKind::Goals => 'g',
        DbKind::Memories => 'm',
        DbKind::Queue => 'q',
        DbKind::ThreadHistory => 't',
    }
}

proof fn lemma_filename_letter(kind: DbKind)
    ensures
        filename_of(kind).len() > 0,
        filename_of(kind)[0] == letter_of(kind),
        is_plain_name(filename_of(kind)),
{
    reveal_strlit("state_5.sqlite");
    reveal_strlit("logs_2.sqlite");
    reveal_strlit("goals_1.sqlite");
    reveal_strlit("memories_1.sqlite");
    reveal_strlit("queue_1.sqlite");
    reveal_strlit("thread_history_1.sqlite");
    reveal_strlit(".");
    reveal_strlit("..");
    assert("."@[0] == '.');
    assert(".."@[0] == '.');
}

/// Whether a text is the name of a file by itself: no path, and no drive.
pub open spec fn is_plain_name(name: Seq<char>) -> bool {
    &&& name.len() > 0
    &&& !name.contains('/')
    &&& !name.contains('\\')
    &&& !name.contains(':')
    &&& name != "."@
    &&& name != ".."@
}

/// Whether a directory is given in the verbatim form of Windows, which is normalized when a name is
/// joined to it.
pub open spec fn is_verbatim(home: Seq<char>) -> bool {
    has_prefix(home, "\\\\?\\"@)
}

/// Whether a character is a separator of paths on some machine.
pub open spec fn is_separator(c: char) -> bool {
    c == '/' || c == '\\'
}

/// Whether a name has to be set apart from a directory: it does not where the directory is empty or
/// ends in a separator or a drive.
pub open spec fn needs_separator(home: Seq<char>) -> bool {
    home.len() > 0 && !is_separator(home.last()) && home.last() != ':'
}

/// Whether a path is that of a file in a directory: the directory, one separator where the name has
/// to be set apart and at most one elsewhere, and the name. Of a verbatim directory only the name at
/// the end is claimed.
pub open spec fn is_path_in(path: Seq<char>, home: Seq<char>, name: Seq<char>) -> bool {
    &&& has_suffix(path, name)
    &&& !is_verbatim(home) ==> {
        &&& has_prefix(path, home)
        &&& home.len() + name.len() <= path.len() <= home.len() + name.len() + 1
        &&& path.len() > home.len() + name.len() ==> is_separator(path[home.len() as int])
        &&& needs_separator(home) ==> path.len() == home.len() + name.len() + 1
    }
}

/// Calls `join` of `std::path::Path`. The path is the directory and the name, with a separator
/// between them where the directory does not end in one; which of the two separators the machine
/// uses is left open.
#[verifier::external_body]
fn join_path(home: &str, name: &str) -> (path: String)
    requires
        is_plain_name(name@),
    ensures
        is_path_in(path@, home@, name@),
{
    std::path::Path::new(home).join(name).to_string_lossy().into_owned()
}

impl RuntimeDbSpec {
    /// The path of the database in a directory.
    pub fn path(self, codex_home: &str) -> (path: String)
        requires
            is_plain_name(self.filename@),
        ensures
            is_path_in(path@, codex_home@, self.filename@),
    {
        join_path(codex_home, self.filename)
    }
}

/// The path of a database, with what a user calls it.
#[derive(Debug, PartialEq, Eq)]
pub struct RuntimeDbPath {
    pub label: &'static str,
    pub path: String,
}

/// Where the databases of a session lie.
#[derive(Debug, PartialEq, Eq)]
pub struct SqliteConfig {
    pub sqlite_home: String,
}

/// The databases of a session, in the order in which they are listed.
pub open spec fn all_kinds() -> Seq<DbKind> {
    seq![
        DbKind::State,
        DbKind::Logs,
        DbKind::Goals,
        DbKind::Memories,
        DbKind::Queue,
        DbKind::ThreadHistory,
    ]
}

impl SqliteConfig {
    /// The configuration for a directory.
    pub fn from_sqlite_home(sqlite_home: String) -> (config: Self)
        ensures
            config.sqlite_home == sqlite_home,
    {
        SqliteConfig { sqlite_home }
    }

    /// The configuration for a directory of a test.
    pub fn new_for_testing(sqlite_home: String) -> (config: Self)
        ensures
            config.sqlite_home == sqlite_home,
    {
        Self::from_sqlite_home(sqlite_home)
    }

    /// The directory of the databases.
    pub fn home(&self) -> (home: &str)
        ensures
            home@ == self.sqlite_home@,
    {
        self.sqlite_home.as_str()
    }

    /// Whether a path is that of a database of this configuration.
    pub open spec fn is_path_of(&self, path: Seq<char>, kind: DbKind) -> bool {
        is_path_in(path, self.sqlite_home@, filename_of(kind))
    }

    /// The path of the primary state database.
    pub fn state_db_path(&self) -> (path: String)
        ensures
            self.is_path_of(path@, DbKind::State),
    {
        runtime_db(DbKind::State).path(self.home())
    }

    /// The path of the logs database.
    pub fn logs_db_path(&self) -> (path: String)
        ensures
            self.is_path_of(path@, DbKind::Logs),
    {
        runtime_db(DbKind::Logs).path(self.home())
    }

    /// The path of the goals database.
    pub fn goals_db_path(&self) -> (path: String)
        ensures
            self.is_path_of(path@, DbKind::Goals),
    {
        runtime_db(DbKind::Goals).path(self.home())
    }

    /// The path of the memories database.
    pub fn memories_db_path(&self) -> (path: String)
        ensures
            self.is_path_of(path@, DbKind::Memories),
    {
        runtime_db(DbKind::Memories).path(self.home())
    }

    /// The path of the database of queued user messages.
    pub fn queue_db_path(&self) -> (path: String)
        ensures
            self.is_path_of(path@, DbKind::Queue),
    {
        runtime_db(DbKind::Queue).path(self.home())
    }

    /// The path of the database of the thread history.
    pub fn thread_history_db_path(&self) -> (path: String)
        ensures
            self.is_path_of(path@, DbKind::ThreadHistory),
    {
        runtime_db(DbKind::ThreadHistory).path(self.home())
    }

    /// The paths of all databases of a session.
    pub fn runtime_db_paths(&self) -> (paths: Vec<RuntimeDbPath>)
        ensures
            paths@.len() == all_kinds().len(),
            forall|i: int|
                0 <= i < paths@.len() ==> (#[trigger] paths@[i]).label@ == label_of(all_kinds()[i])
                    && self.is_path_of(paths@[i].path@, all_kinds()[i]),
    {
        let kinds = [
            DbKind::State,
            DbKind::Logs,
            DbKind::Goals,
            DbKind::Memories,
            DbKind::Queue,
            DbKind::ThreadHistory,
        ];
        let mut paths: Vec<RuntimeDbPath> = Vec::new();
        let mut i: usize = 0;
        proof {
            assert(kinds@ =~= all_kinds());
        }
        while i < 6
            invariant
                i <= 6,
                kinds@ == all_kinds(),
                paths@.len() == i,
                forall|j: int|
                    0 <= j < i ==> (#[trigger] paths@[j]).label@ == label_of(all_kinds()[j])
                        && self.is_path_of(paths@[j].path@, all_kinds()[j]),
            decreases 6 - i,
        {
            let spec = runtime_db(kinds[i]);
            paths.push(RuntimeDbPath { label: spec.label, path: spec.path(self.home()) });
            i = i + 1;
        }
        paths
    }
}

/// How a connection to a database is made. Statements are never logged.
#[derive(Debug, Clone, Copy, PartialEq, Eq, Structural)]
pub struct ConnectPlan {
    pub create_if_missing: bool,
    pub read_only: bool,
    /// Whether the journal is set to write-ahead.
    pub set_wal_journal: bool,
    /// Whether the synchronous mode is set to normal.
    pub set_normal_synchronous: bool,
    /// Whether automatic vacuuming is set to incremental.
    pub set_incremental_vacuum: bool,
    pub busy_timeout_seconds: Option<u64>,
    pub max_connections: u32,
}

impl ConnectPlan {
    /// Whether making the connection may write to the database.
    pub open spec fn may_write(&self) -> bool {
        self.create_if_missing || self.set_wal_journal || self.set_incremental_vacuum
    }
}

impl SqliteConfig {
    /// How a database is opened for reading and writing: it is created where it is missing.
    pub fn open_read_write_pool() -> (plan: ConnectPlan)
        ensures
            plan == (ConnectPlan {
                create_if_missing: true,
                read_only: false,
                set_wal_journal: true,
                set_normal_synchronous: true,
                set_incremental_vacuum: true,
                busy_timeout_seconds: Some(5),
                max_connections: 5,
            }),
    {
        ConnectPlan {
            create_if_missing: true,
            read_only: false,
            set_wal_journal: true,
            set_normal_synchronous: true,
            set_incremental_vacuum: true,
            busy_timeout_seconds: Some(5),
            max_connections: 5,
        }
    }

    /// How an existing database is opened without creating or changing it.
    pub fn open_read_only_pool() -> (plan: ConnectPlan)
        ensures
            plan == (ConnectPlan {
                create_if_missing: false,
                read_only: true,
                set_wal_journal: false,
                set_normal_synchronous: false,
                set_incremental_vacuum: false,
                busy_timeout_seconds: None,
                max_connections: 1,
            }),
            !plan.may_write(),
    {
        ConnectPlan {
            create_if_missing: false,
            read_only: true,
            set_wal_journal: false,
            set_normal_synchronous: false,
            set_incremental_vacuum: false,
            busy_timeout_seconds: None,
            max_connections: 1,
        }
    }

    /// How an existing database is opened that may be ready as it is: without writing at startup,
    /// which could contend with a writer.
    pub fn open_ready_pool() -> (plan: ConnectPlan)
        ensures
            plan == (ConnectPlan {
                create_if_missing: false,
                read_only: false,
                set_wal_journal: false,
                set_normal_synchronous: true,
                set_incremental_vacuum: false,
                busy_timeout_seconds: Some(5),
                max_connections: 5,
            }),
            !plan.may_write(),
    {
        ConnectPlan {
            create_if_missing: false,
            read_only: false,
            set_wal_journal: false,
            set_normal_synchronous: true,
            set_incremental_vacuum: false,
            busy_timeout_seconds: Some(5),
            max_connections: 5,
        }
    }
}

/// A migration that the program brings.
#[derive(Debug, PartialEq, Eq)]
pub struct EmbeddedMigration {
    pub version: i64,
    pub checksum: Vec<u8>,
}

/// The migrations that the program brings.
#[derive(Debug, PartialEq, Eq)]
pub struct MigrationPlan {
    /// The table in which a database notes its migrations.
    pub table_name: String,
    /// Whether a database may have migrations that the program does not know.
    pub ignore_missing: bool,
    pub migrations: Vec<EmbeddedMigration>,
}

/// A migration that a database notes.
#[derive(Debug, PartialEq, Eq)]
pub struct AppliedMigration {
    pub version: i64,
    pub success: bool,
    pub checksum: Vec<u8>,
}

/// Whether a database notes a migration of the program as done.
pub open spec fn is_applied(migration: EmbeddedMigration, applied: Seq<AppliedMigration>) -> bool {
    exists|i: int|
        0 <= i < applied.len() && (#[trigger] applied[i]).version == migration.version
            && applied[i].success && applied[i].checksum@ == migration.checksum@
}

/// Whether the program knows a version.
pub open spec fn is_known(version: i64, migrations: Seq<EmbeddedMigration>) -> bool {
    exists|i: int| 0 <= i < migrations.len() && (#[trigger] migrations[i]).version == version
}

/// Whether a database has all migrations of the program, all of them done, and none besides that
/// the program would have to know.
pub open spec fn is_migrated(plan: MigrationPlan, applied: Seq<AppliedMigration>) -> bool {
    &&& forall|i: int| 0 <= i < applied.len() ==> (#[trigger] applied[i]).success
    &&& forall|i: int|
        0 <= i < plan.migrations@.len() ==> is_applied(#[trigger] plan.migrations@[i], applied)
    &&& plan.ignore_missing || forall|i: int|
        0 <= i < applied.len() ==> is_known((#[trigger] applied[i]).version, plan.migrations@)
}

fn same_bytes(a: &Vec<u8>, b: &Vec<u8>) -> (same: bool)
    ensures
        same == (a@ == b@),
{
    if a.len() != b.len() {
        return false;
    }
    let mut i: usize = 0;
    while i < a.len()
        invariant
            i <= a@.len() == b@.len(),
            forall|j: int| 0 <= j < i ==> a@[j] == b@[j],
        decreases a@.len() - i,
    {
        if a[i] != b[i] {
            return false;
        }
        i = i + 1;
    }
    proof {
        assert(a@ =~= b@);
    }
    true
}

fn notes_as_done(migration: &EmbeddedMigration, applied: &Vec<AppliedMigration>) -> (found: bool)
    ensures
        found == is_applied(*migration, applied@),
{
    let mut i: usize = 0;
    while i < applied.len()
        invariant
            i <= applied@.len(),
            forall|j: int|
                0 <= j < i ==> !((#[trigger] applied@[j]).version == migration.version
                    && applied@[j].success && applied@[j].checksum@ == migration.checksum@),
        decreases applied@.len() - i,
    {
        let noted = &applied[i];
        if noted.version == migration.version && noted.success && same_bytes(
            &noted.checksum,
            &migration.checksum,
        ) {
            return true;
        }
        i = i + 1;
    }
    false
}

/// Whether the program knows a version.
pub fn version_exists(version: i64, migrations: &Vec<EmbeddedMigration>) -> (found: bool)
    ensures
        found == is_known(version, migrations@),
{
    let mut i: usize = 0;
    while i < migrations.len()
        invariant
            i <= migrations@.len(),
            forall|j: int| 0 <= j < i ==> (#[trigger] migrations@[j]).version != version,
        decreases migrations@.len() - i,
    {
        if migrations[i].version == version {
            return true;
        }
        i = i + 1;
    }
    false
}

/// Whether a database has the migrations that it needs, and no others.
pub fn migrations_match(plan: &MigrationPlan, applied: &Vec<AppliedMigration>) -> (matched: bool)
    ensures
        matched == is_migrated(*plan, applied@),
{
    let mut i: usize = 0;
    while i < applied.len()
        invariant
            i <= applied@.len(),
            forall|j: int| 0 <= j < i ==> (#[trigger] applied@[j]).success,
        decreases applied@.len() - i,
    {
        if !applied[i].success {
            return false;
        }
        i = i + 1;
    }
    let mut k: usize = 0;
    while k < plan.migrations.len()
        invariant
            k <= plan.migrations@.len(),
            forall|j: int| 0 <= j < k ==> is_applied(#[trigger] plan.migrations@[j], applied@),
        decreases plan.migrations@.len() - k,
    {
        if !notes_as_done(&plan.migrations[k], applied) {
            return false;
        }
        k = k + 1;
    }
    if plan.ignore_missing {
        return true;
    }
    let mut m: usize = 0;
    while m < applied.len()
        invariant
            m <= applied@.len(),
            !plan.ignore_missing,
            forall|j: int|
                0 <= j < m ==> is_known((#[trigger] applied@[j]).version, plan.migrations@),
        decreases applied@.len() - m,
    {
        if !version_exists(applied[m].version, &plan.migrations) {
            return false;
        }
        m = m + 1;
    }
    true
}

/// Whether a journal mode is write-ahead, whatever the case of its letters.
pub open spec fn is_wal(mode: Seq<char>) -> bool {
    mode.len() == 3 && (mode[0] == 'w' || mode[0] == 'W') && (mode[1] == 'a' || mode[1] == 'A') && (
    mode[2] == 'l' || mode[2] == 'L')
}

fn names_wal(mode: &str) -> (wal: bool)
    ensures
        wal == is_wal(mode@),
{
    let letters = chars_of(mode);
    letters.len() == 3 && (letters[0] == 'w' || letters[0] == 'W') && (letters[1] == 'a'
        || letters[1] == 'A') && (letters[2] == 'l' || letters[2] == 'L')
}

/// The table in which a database notes its migrations.
pub const MIGRATIONS_TABLE: &'static str = "_sqlx_migrations";

/// Where the search for a database that is ready as it is stands.
#[derive(Debug, PartialEq, Eq)]
pub enum ReadyPhase {
    /// It is looked for the file.
    LookingForFile,
    /// The database is opened.
    Opening,
    /// The journal mode is read.
    ReadingJournal,
    /// It is looked for the table of migrations.
    LookingForTable { wal: bool },
    /// The migrations are read.
    ReadingMigrations,
    /// The search is over.
    Finished,
}

/// What the search has to have done.
#[derive(Debug, Clone, Copy, PartialEq, Eq, Structural)]
pub enum ReadyAction {
    /// Look for the file.
    LookForFile,
    /// Open the database.
    Open(ConnectPlan),
    /// Read the journal mode.
    ReadJournalMode,
    /// Look for the table of migrations.
    LookForTable,
    /// Read the migrations that the database notes, in the order of their versions.
    ReadMigrations,
    /// Use the database as it is.
    Use,
    /// Close the database, where it is open: it is not ready.
    GiveUp { close: bool },
}

/// What came of an action. Where it failed, the search ends with its error.
#[derive(Debug, PartialEq, Eq)]
pub enum ReadyEvent {
    File { exists: bool },
    Opened,
    JournalMode(String),
    Table { exists: bool },
    Migrations(Vec<AppliedMigration>),
}

/// A point in the search: where it stands, and what to do next.
#[derive(Debug, PartialEq, Eq)]
pub struct ReadyStep {
    pub phase: ReadyPhase,
    pub action: ReadyAction,
}

impl ReadyPhase {
    /// Whether the phase goes on with an event of this kind.
    pub open spec fn awaits(&self, event: ReadyEvent) -> bool {
        match self {
            ReadyPhase::LookingForFile => event is File,
            ReadyPhase::Opening => event is Opened,
            ReadyPhase::ReadingJournal => event is JournalMode,
            ReadyPhase::LookingForTable { .. } => event is Table,
            ReadyPhase::ReadingMigrations => event is Migrations,
            ReadyPhase::Finished => false,
        }
    }

    /// At how many more events the search can end at the latest.
    pub open spec fn events_left(&self) -> nat {
        match self {
            ReadyPhase::LookingForFile => 5,
            ReadyPhase::Opening => 4,
            ReadyPhase::ReadingJournal => 3,
            ReadyPhase::LookingForTable { .. } => 2,
            ReadyPhase::ReadingMigrations => 1,
            ReadyPhase::Finished => 0,
        }
    }
}

/// The search that ends without a ready database.
pub open spec fn not_ready(close: bool) -> ReadyStep {
    ReadyStep { phase: ReadyPhase::Finished, action: ReadyAction::GiveUp { close } }
}

/// How the search goes on from a phase, once an event came.
pub open spec fn next_ready_step(
    plan: MigrationPlan,
    phase: ReadyPhase,
    event: ReadyEvent,
) -> ReadyStep {
    match (phase, event) {
        (ReadyPhase::LookingForFile, ReadyEvent::File { exists }) => if exists {
            ReadyStep {
                phase: ReadyPhase::Opening,
                action: ReadyAction::Open(
                    ConnectPlan {
                        create_if_missing: false,
                        read_only: false,
                        set_wal_journal: false,
                        set_normal_synchronous: true,
                        set_incremental_vacuum: false,
                        busy_timeout_seconds: Some(5),
                        max_connections: 5,
                    },
                ),
            }
        } else {
            not_ready(false)
        },
        (ReadyPhase::Opening, ReadyEvent::Opened) => ReadyStep {
            phase: ReadyPhase::ReadingJournal,
            action: ReadyAction::ReadJournalMode,
        },
        (ReadyPhase::ReadingJournal, ReadyEvent::JournalMode(mode)) => if plan.table_name@
            == MIGRATIONS_TABLE@ {
            ReadyStep {
                phase: ReadyPhase::LookingForTable { wal: is_wal(mode@) },
                action: ReadyAction::LookForTable,
            }
        } else {
            not_ready(true)
        },
        (ReadyPhase::LookingForTable { wal }, ReadyEvent::Table { exists }) => if wal && exists {
            ReadyStep {
                phase: ReadyPhase::ReadingMigrations,
                action: ReadyAction::ReadMigrations,
            }
        } else {
            not_ready(true)
        },
        (ReadyPhase::ReadingMigrations, ReadyEvent::Migrations(applied)) => if is_migrated(
            plan,
            applied@,
        ) {
            ReadyStep { phase: ReadyPhase::Finished, action: ReadyAction::Use }
        } else {
            not_ready(true)
        },
        _ => not_ready(true),
    }
}

/// Begins to look for a database that is ready as it is: existing, with a write-ahead journal and
/// fully migrated. It is found by reading alone.
pub fn try_open_existing_ready_pool() -> (step: ReadyStep)
    ensures
        step == (ReadyStep {
            phase: ReadyPhase::LookingForFile,
            action: ReadyAction::LookForFile,
        }),
{
    ReadyStep { phase: ReadyPhase::LookingForFile, action: ReadyAction::LookForFile }
}

/// Goes on with the search, once what it had to have done is done.
pub fn advance_ready(plan: &MigrationPlan, phase: ReadyPhase, event: ReadyEvent) -> (step: ReadyStep)
    requires
        phase.awaits(event),
    ensures
        step == next_ready_step(*plan, phase, event),
{
    match (phase, event) {
        (ReadyPhase::LookingForFile, ReadyEvent::File { exists }) => if exists {
            ReadyStep {
                phase: ReadyPhase::Opening,
                action: ReadyAction::Open(SqliteConfig::open_ready_pool()),
            }
        } else {
            ReadyStep { phase: ReadyPhase::Finished, action: ReadyAction::GiveUp { close: false } }
        },
        (ReadyPhase::Opening, ReadyEvent::Opened) => ReadyStep {
            phase: ReadyPhase::ReadingJournal,
            action: ReadyAction::ReadJournalMode,
        },
        (ReadyPhase::ReadingJournal, ReadyEvent::JournalMode(mode)) => {
            if same_text(plan.table_name.as_str(), MIGRATIONS_TABLE) {
                ReadyStep {
                    phase: ReadyPhase::LookingForTable { wal: names_wal(mode.as_str()) },
                    action: ReadyAction::LookForTable,
                }
            } else {
                ReadyStep {
                    phase: ReadyPhase::Finished,
                    action: ReadyAction::GiveUp { close: true },
                }
            }
        },
        (ReadyPhase::LookingForTable { wal }, ReadyEvent::Table { exists }) => {
            if wal && exists {
                ReadyStep {
                    phase: ReadyPhase::ReadingMigrations,
                    action: ReadyAction::ReadMigrations,
                }
            } else {
                ReadyStep {
                    phase: ReadyPhase::Finished,
                    action: ReadyAction::GiveUp { close: true },
                }
            }
        },
        (ReadyPhase::ReadingMigrations, ReadyEvent::Migrations(applied)) => {
            if migrations_match(plan, &applied) {
                ReadyStep { phase: ReadyPhase::Finished, action: ReadyAction::Use }
            } else {
                ReadyStep {
                    phase: ReadyPhase::Finished,
                    action: ReadyAction::GiveUp { close: true },
                }
            }
        },
        _ => vstd::pervasive::unreached(),
    }
}

/// The search ends, and never writes: each event brings it nearer to its end, and the one
/// connection that it makes may not write.
pub proof fn lemma_ready_search_only_reads(
    plan: MigrationPlan,
    phase: ReadyPhase,
    event: ReadyEvent,
)
    requires
        phase.awaits(event),
    ensures
        next_ready_step(plan, phase, event).phase.events_left() < phase.events_left(),
        next_ready_step(plan, phase, event).action matches ReadyAction::Open(connection)
            ==> !connection.may_write(),
{
}

/// A database is used as it is only where all its migrations are done and match those of the
/// program.
pub proof fn lemma_only_migrated_is_used(
    plan: MigrationPlan,
    phase: ReadyPhase,
    event: ReadyEvent,
)
    requires
        phase.awaits(event),
        next_ready_step(plan, phase, event).action == ReadyAction::Use,
    ensures
        event matches ReadyEvent::Migrations(applied) && is_migrated(plan, applied@),
{
}

/// Where the opening of a database stands.
#[derive(Debug, Clone, Copy, PartialEq, Eq, Structural)]
pub enum OpenPhase {
    /// It is looked whether the database is ready as it is.
    TryingReady,
    /// The database is opened for reading and writing.
    Opening,
    /// The note of an old migration is mended.
    Repairing,
    /// The migrations are run.
    Migrating,
    /// The database is closed: its migrations failed.
    Closing,
    /// The opening is over.
    Finished,
}

/// What the opening has to have done.
#[derive(Debug, Clone, Copy, PartialEq, Eq, Structural)]
pub enum OpenAction {
    /// Look whether the database is ready as it is.
    TryReady,
    /// Open the database.
    Open(ConnectPlan),
    /// Mend the note of an old migration.
    RepairLegacy,
    /// Run the migrations.
    Migrate,
    /// Close the database.
    Close,
    /// Use the database.
    Use,
    /// Fail with the error that came, and this operation.
    Fail(OpenFailure),
}

/// The operation at which an opening failed.
#[derive(Debug, Clone, Copy, PartialEq, Eq, Structural)]
pub enum OpenFailure {
    OpenReady,
    Open,
    Migrate,
}

impl OpenFailure {
    /// What the operation is called.
    pub open spec fn text(self) -> Seq<char> {
        match self {
            OpenFailure::OpenReady => "open ready"@,
            OpenFailure::Open => "open"@,
            OpenFailure::Migrate => "migrate"@,
        }
    }

    /// What the operation is called.
    pub fn operation(&self) -> (name: &'static str)
        ensures
            name@ == self.text(),
    {
        match self {
            OpenFailure::OpenReady => "open ready",
            OpenFailure::Open => "open",
            OpenFailure::Migrate => "migrate",
        }
    }
}

/// What came of an action.
#[derive(Debug, Clone, Copy, PartialEq, Eq, Structural)]
pub enum OpenEvent {
    /// It was done. A search for a ready database is done where it found one.
    Done,
    /// The search found no ready database.
    NotReady,
    /// It failed.
    Failed,
}

/// The phase under which what came is reported.
#[derive(Debug, Clone, Copy, PartialEq, Eq, Structural)]
pub enum OpenReport {
    Open,
    Migrate,
}

/// A point in the opening: what to report of what came, where the opening stands, and what to do
/// next.
#[derive(Debug, Clone, Copy, PartialEq, Eq, Structural)]
pub struct OpenStep {
    pub report: Option<OpenReport>,
    pub phase: OpenPhase,
    pub action: OpenAction,
}

impl OpenPhase {
    /// Whether the phase goes on with an event of this kind.
    pub open spec fn awaits(self, event: OpenEvent) -> bool {
        match self {
            OpenPhase::TryingReady => true,
            OpenPhase::Finished => false,
            _ => event != OpenEvent::NotReady,
        }
    }

    /// At how many more events the opening can end at the latest.
    pub open spec fn events_left(self) -> nat {
        match self {
            OpenPhase::TryingReady => 5,
            OpenPhase::Opening => 4,
            OpenPhase::Repairing => 3,
            OpenPhase::Migrating => 2,
            OpenPhase::Closing => 1,
            OpenPhase::Finished => 0,
        }
    }
}

/// How a database is opened for reading and writing.
pub open spec fn read_write() -> ConnectPlan {
    ConnectPlan {
        create_if_missing: true,
        read_only: false,
        set_wal_journal: true,
        set_normal_synchronous: true,
        set_incremental_vacuum: true,
        busy_timeout_seconds: Some(5),
        max_connections: 5,
    }
}

/// How the opening begins: the logs, which every process opens, are first looked at.
pub open spec fn first_open_step(kind: DbKind) -> OpenStep {
    if kind == DbKind::Logs {
        OpenStep { report: None, phase: OpenPhase::TryingReady, action: OpenAction::TryReady }
    } else {
        OpenStep {
            report: None,
            phase: OpenPhase::Opening,
            action: OpenAction::Open(read_write()),
        }
    }
}

/// How the opening goes on from a phase, once an event came.
pub open spec fn next_open_step(kind: DbKind, phase: OpenPhase, event: OpenEvent) -> OpenStep {
    match (phase, event) {
        (OpenPhase::TryingReady, OpenEvent::Done) => OpenStep {
            report: Some(OpenReport::Open),
            phase: OpenPhase::Finished,
            action: OpenAction::Use,
        },
        (OpenPhase::TryingReady, OpenEvent::NotReady) => OpenStep {
            report: Some(OpenReport::Open),
            phase: OpenPhase::Opening,
            action: OpenAction::Open(read_write()),
        },
        (OpenPhase::TryingReady, OpenEvent::Failed) => OpenStep {
            report: Some(OpenReport::Open),
            phase: OpenPhase::Finished,
            action: OpenAction::Fail(OpenFailure::OpenReady),
        },
        (OpenPhase::Opening, OpenEvent::Done) => if kind == DbKind::State {
            OpenStep {
                report: Some(OpenReport::Open),
                phase: OpenPhase::Repairing,
                action: OpenAction::RepairLegacy,
            }
        } else {
            OpenStep {
                report: Some(OpenReport::Open),
                phase: OpenPhase::Migrating,
                action: OpenAction::Migrate,
            }
        },
        (OpenPhase::Opening, _) => OpenStep {
            report: Some(OpenReport::Open),
            phase: OpenPhase::Finished,
            action: OpenAction::Fail(OpenFailure::Open),
        },
        (OpenPhase::Repairing, OpenEvent::Done) => OpenStep {
            report: None,
            phase: OpenPhase::Migrating,
            action: OpenAction::Migrate,
        },
        (OpenPhase::Migrating, OpenEvent::Done) => OpenStep {
            report: Some(OpenReport::Migrate),
            phase: OpenPhase::Finished,
            action: OpenAction::Use,
        },
        (OpenPhase::Repairing, _) | (OpenPhase::Migrating, _) => OpenStep {
            report: Some(OpenReport::Migrate),
            phase: OpenPhase::Closing,
            action: OpenAction::Close,
        },
        _ => OpenStep {
            report: None,
            phase: OpenPhase::Finished,
            action: OpenAction::Fail(OpenFailure::Migrate),
        },
    }
}

/// Begins to open a database.
pub fn open_runtime_db(kind: DbKind) -> (step: OpenStep)
    ensures
        step == first_open_step(kind),
{
    if kind == DbKind::Logs {
        OpenStep { report: None, phase: OpenPhase::TryingReady, action: OpenAction::TryReady }
    } else {
        OpenStep {
            report: None,
            phase: OpenPhase::Opening,
            action: OpenAction::Open(SqliteConfig::open_read_write_pool()),
        }
    }
}

/// Goes on with the opening, once what it had to have done is done or has failed.
pub fn advance_open(kind: DbKind, phase: OpenPhase, event: OpenEvent) -> (step: OpenStep)
    requires
        phase.awaits(event),
    ensures
        step == next_open_step(kind, phase, event),
{
    match (phase, event) {
        (OpenPhase::TryingReady, OpenEvent::Done) => OpenStep {
            report: Some(OpenReport::Open),
            phase: OpenPhase::Finished,
            action: OpenAction::Use,
        },
        (OpenPhase::TryingReady, OpenEvent::NotReady) => OpenStep {
            report: Some(OpenReport::Open),
            phase: OpenPhase::Opening,
            action: OpenAction::Open(SqliteConfig::open_read_write_pool()),
        },
        (OpenPhase::TryingReady, OpenEvent::Failed) => OpenStep {
            report: Some(OpenReport::Open),
            phase: OpenPhase::Finished,
            action: OpenAction::Fail(OpenFailure::OpenReady),
        },
        (OpenPhase::Opening, OpenEvent::Done) => if kind == DbKind::State {
            OpenStep {
                report: Some(OpenReport::Open),
                phase: OpenPhase::Repairing,
                action: OpenAction::RepairLegacy,
            }
        } else {
            OpenStep {
                report: Some(OpenReport::Open),
                phase: OpenPhase::Migrating,
                action: OpenAction::Migrate,
            }
        },
        (OpenPhase::Opening, _) => OpenStep {
            report: Some(OpenReport::Open),
            phase: OpenPhase::Finished,
            action: OpenAction::Fail(OpenFailure::Open),
        },
        (OpenPhase::Repairing, OpenEvent::Done) => OpenStep {
            report: None,
            phase: OpenPhase::Migrating,
            action: OpenAction::Migrate,
        },
        (OpenPhase::Migrating, OpenEvent::Done) => OpenStep {
            report: Some(OpenReport::Migrate),
            phase: OpenPhase::Finished,
            action: OpenAction::Use,
        },
        (OpenPhase::Repairing, _) | (OpenPhase::Migrating, _) => OpenStep {
            report: Some(OpenReport::Migrate),
            phase: OpenPhase::Closing,
            action: OpenAction::Close,
        },
        _ => OpenStep {
            report: None,
            phase: OpenPhase::Finished,
            action: OpenAction::Fail(OpenFailure::Migrate),
        },
    }
}

/// The opening of a database ends: each event brings it nearer to its end, at which the database is
/// used or the opening fails.
pub proof fn lemma_open_ends(kind: DbKind, phase: OpenPhase, event: OpenEvent)
    requires
        phase.awaits(event),
    ensures
        ({
            let step = next_open_step(kind, phase, event);
            &&& step.phase.events_left() < phase.events_left()
            &&& (step.phase == OpenPhase::Finished <==> step.action == OpenAction::Use
                || step.action is Fail)
        }),
{
}

/// Only the logs are ever used without having run the migrations, and only the state database is
/// mended.
pub proof fn lemma_migrations_come_first(kind: DbKind, phase: OpenPhase, event: OpenEvent)
    requires
        phase.awaits(event),
    ensures
        next_open_step(kind, phase, event).action == OpenAction::Use ==> event == OpenEvent::Done && (
        phase == OpenPhase::Migrating || phase == OpenPhase::TryingReady),
        next_open_step(kind, phase, event).action == OpenAction::RepairLegacy ==> kind
            == DbKind::State,
        first_open_step(kind).phase == OpenPhase::TryingReady <==> kind == DbKind::Logs,
        next_open_step(kind, phase, event).phase != OpenPhase::TryingReady,
{
}

/// A database as a process finds it.
pub struct FoundDatabase {
    pub exists: bool,
    pub journal_mode: String,
    pub has_table: bool,
    pub applied: Vec<AppliedMigration>,
}

/// What a database replies to the action of a phase of the search.
pub open spec fn reply_of(database: FoundDatabase, phase: ReadyPhase) -> ReadyEvent {
    match phase {
        ReadyPhase::LookingForFile => ReadyEvent::File { exists: database.exists },
        ReadyPhase::Opening => ReadyEvent::Opened,
        ReadyPhase::ReadingJournal => ReadyEvent::JournalMode(database.journal_mode),
        ReadyPhase::LookingForTable { .. } => ReadyEvent::Table { exists: database.has_table },
        _ => ReadyEvent::Migrations(database.applied),
    }
}

/// The actions of a search from a step on, on a database that replies to all of them.
pub open spec fn search_from(plan: MigrationPlan, database: FoundDatabase, step: ReadyStep) -> Seq<
    ReadyAction,
>
    decreases step.phase.events_left(),
{
    if step.phase == ReadyPhase::Finished {
        seq![step.action]
    } else {
        seq![step.action] + search_from(
            plan,
            database,
            next_ready_step(plan, step.phase, reply_of(database, step.phase)),
        )
    }
}

/// The actions of a whole search.
pub open spec fn search(plan: MigrationPlan, database: FoundDatabase) -> Seq<ReadyAction> {
    search_from(
        plan,
        database,
        ReadyStep { phase: ReadyPhase::LookingForFile, action: ReadyAction::LookForFile },
    )
}

/// Whether a database can be used as it is.
pub open spec fn is_ready(plan: MigrationPlan, database: FoundDatabase) -> bool {
    &&& database.exists
    &&& plan.table_name@ == MIGRATIONS_TABLE@
    &&& is_wal(database.journal_mode@)
    &&& database.has_table
    &&& is_migrated(plan, database.applied@)
}

/// Whether no action of a search makes a connection that may write.
pub open spec fn only_reads(actions: Seq<ReadyAction>) -> bool {
    forall|i: int|
        0 <= i < actions.len() ==> (#[trigger] actions[i] matches ReadyAction::Open(connection)
            ==> !connection.may_write())
}

/// A search never makes a connection that may write, whatever the database. It ends by using the
/// database exactly where the database is ready.
pub proof fn lemma_search_finds_the_ready(plan: MigrationPlan, database: FoundDatabase)
    ensures
        only_reads(search(plan, database)),
        search(plan, database).len() > 0,
        search(plan, database).last() == ReadyAction::Use <==> is_ready(plan, database),
{
    reveal_with_fuel(search_from, 6);
    let actions = search(plan, database);
    let step1 = next_ready_step(
        plan,
        ReadyPhase::LookingForFile,
        reply_of(database, ReadyPhase::LookingForFile),
    );
    let step2 = next_ready_step(plan, step1.phase, reply_of(database, step1.phase));
    let step3 = next_ready_step(plan, step2.phase, reply_of(database, step2.phase));
    let step4 = next_ready_step(plan, step3.phase, reply_of(database, step3.phase));
    let step5 = next_ready_step(plan, step4.phase, reply_of(database, step4.phase));
    if !database.exists {
        assert(actions =~= seq![ReadyAction::LookForFile, step1.action]);
    } else if plan.table_name@ != MIGRATIONS_TABLE@ {
        assert(actions =~= seq![
            ReadyAction::LookForFile,
            step1.action,
            step2.action,
            step3.action,
        ]);
    } else if !is_wal(database.journal_mode@) || !database.has_table {
        assert(actions =~= seq![
            ReadyAction::LookForFile,
            step1.action,
            step2.action,
            step3.action,
            step4.action,
        ]);
    } else {
        assert(actions =~= seq![
            ReadyAction::LookForFile,
            step1.action,
            step2.action,
            step3.action,
            step4.action,
            step5.action,
        ]);
    }
}

/// Whether a database notes exactly the migrations of the program, each of them done.
pub open spec fn notes_all(plan: MigrationPlan, applied: Seq<AppliedMigration>) -> bool {
    &&& applied.len() == plan.migrations@.len()
    &&& forall|i: int|
        0 <= i < applied.len() ==> (#[trigger] applied[i]).success && applied[i].version
            == plan.migrations@[i].version && applied[i].checksum@ == plan.migrations@[i].checksum@
}

/// A logs database that was migrated is opened again without a migration and without a connection
/// that may write: where it is in write-ahead mode and notes the migrations of the program as done,
/// the opening looks whether it is ready, the look finds it so by reading alone, and it is used.
pub proof fn lemma_logs_open_again_without_writing(plan: MigrationPlan, database: FoundDatabase)
    requires
        database.exists,
        plan.table_name@ == MIGRATIONS_TABLE@,
        is_wal(database.journal_mode@),
        database.has_table,
        notes_all(plan, database.applied@),
    ensures
        first_open_step(DbKind::Logs).action == OpenAction::TryReady,
        only_reads(search(plan, database)),
        search(plan, database).last() == ReadyAction::Use,
        next_open_step(
            DbKind::Logs,
            first_open_step(DbKind::Logs).phase,
            OpenEvent::Done,
        ).action == OpenAction::Use,
        next_open_step(
            DbKind::Logs,
            first_open_step(DbKind::Logs).phase,
            OpenEvent::Done,
        ).phase == OpenPhase::Finished,
{
    let applied = database.applied@;
    assert forall|i: int| 0 <= i < plan.migrations@.len() implies is_applied(
        #[trigger] plan.migrations@[i],
        applied,
    ) by {
        assert(applied[i].version == plan.migrations@[i].version);
    }
    assert forall|i: int| 0 <= i < applied.len() implies is_known(
        (#[trigger] applied[i]).version,
        plan.migrations@,
    ) by {
        assert(plan.migrations@[i].version == applied[i].version);
    }
    lemma_search_finds_the_ready(plan, database);
}

/// The file of each database.
pub proof fn lemma_file_of_each_database()
    ensures
        filename_of(DbKind::State) == "state_5.sqlite"@,
        filename_of(DbKind::Logs) == "logs_2.sqlite"@,
        filename_of(DbKind::Goals) == "goals_1.sqlite"@,
        filename_of(DbKind::Memories) == "memories_1.sqlite"@,
        filename_of(DbKind::Queue) == "queue_1.sqlite"@,
        filename_of(DbKind::ThreadHistory) == "thread_history_1.sqlite"@,
{
}

/// What each database is called, and under which phases its opening and its migration are reported.
pub proof fn lemma_names_of_each_database()
    ensures
        label_of(DbKind::State) == "state DB"@,
        label_of(DbKind::Logs) == "log DB"@,
        label_of(DbKind::Goals) == "goals DB"@,
        label_of(DbKind::Memories) == "memories DB"@,
        label_of(DbKind::Queue) == "queue DB"@,
        label_of(DbKind::ThreadHistory) == "thread history DB"@,
        open_phase_of(DbKind::State) == "open_state"@,
        open_phase_of(DbKind::Logs) == "open_logs"@,
        open_phase_of(DbKind::Goals) == "open_goals"@,
        open_phase_of(DbKind::Memories) == "open_memories"@,
        open_phase_of(DbKind::Queue) == "open_queue"@,
        open_phase_of(DbKind::ThreadHistory) == "open_thread_history"@,
        migrate_phase_of(DbKind::State) == "migrate_state"@,
        migrate_phase_of(DbKind::Logs) == "migrate_logs"@,
        migrate_phase_of(DbKind::Goals) == "migrate_goals"@,
        migrate_phase_of(DbKind::Memories) == "migrate_memories"@,
        migrate_phase_of(DbKind::Queue) == "migrate_queue"@,
        migrate_phase_of(DbKind::ThreadHistory) == "migrate_thread_history"@,
{
}

/// Every database is listed once, the state first.
pub proof fn lemma_every_database_is_listed(kind: DbKind)
    ensures
        all_kinds().contains(kind),
        all_kinds().no_duplicates(),
        all_kinds()[0] == DbKind::State,
        all_kinds()[1] == DbKind::Logs,
        all_kinds()[2] == DbKind::Goals,
        all_kinds()[3] == DbKind::Memories,
        all_kinds()[4] == DbKind::Queue,
        all_kinds()[5] == DbKind::ThreadHistory,
{
    let at: int = match kind {
        DbKind::State => 0,
        DbKind::Logs => 1,
        DbKind::Goals => 2,
        DbKind::Memories => 3,
        DbKind::Queue => 4,
        DbKind::ThreadHistory => 5,
    };
    assert(all_kinds()[at] == kind);
}

/// A connection may write at startup where it creates the database, sets its journal or sets how it is
/// vacuumed, and not else.
pub proof fn lemma_what_may_write(plan: ConnectPlan)
    ensures
        plan.create_if_missing ==> plan.may_write(),
        plan.set_wal_journal ==> plan.may_write(),
        plan.set_incremental_vacuum ==> plan.may_write(),
        plan.may_write() ==> plan.create_if_missing || plan.set_wal_journal
            || plan.set_incremental_vacuum,
{
}

/// What makes a database not migrated: a migration that failed, one of the program that is not noted,
/// or is noted with another checksum, and one that the program does not know, unless it may be.
pub proof fn lemma_what_is_not_migrated(plan: MigrationPlan, applied: Seq<AppliedMigration>, at: int)
    ensures
        0 <= at < applied.len() && !applied[at].success ==> !is_migrated(plan, applied),
        0 <= at < plan.migrations@.len() && (forall|i: int|
            0 <= i < applied.len() ==> (#[trigger] applied[i]).version
                != plan.migrations@[at].version || applied[i].checksum@
                != plan.migrations@[at].checksum@) ==> !is_migrated(plan, applied),
        !plan.ignore_missing && 0 <= at < applied.len() && (forall|i: int|
            0 <= i < plan.migrations@.len() ==> (#[trigger] plan.migrations@[i]).version
                != applied[at].version) ==> !is_migrated(plan, applied),
{
    if 0 <= at < plan.migrations@.len() && is_applied(plan.migrations@[at], applied) {
        let i = choose|i: int|
            0 <= i < applied.len() && (#[trigger] applied[i]).version
                == plan.migrations@[at].version && applied[i].success && applied[i].checksum@
                == plan.migrations@[at].checksum@;
        assert(applied[i].version == plan.migrations@[at].version);
    }
    if !plan.ignore_missing && 0 <= at < applied.len() && is_migrated(plan, applied) {
        assert(is_known(applied[at].version, plan.migrations@));
    }
}

/// A database that notes all migrations of the program as done is migrated, and with any further ones
/// that were done too where the program may not know some.
pub proof fn lemma_what_is_migrated(
    plan: MigrationPlan,
    applied: Seq<AppliedMigration>,
    further: Seq<AppliedMigration>,
)
    requires
        notes_all(plan, applied),
        forall|i: int| 0 <= i < further.len() ==> (#[trigger] further[i]).success,
    ensures
        is_migrated(plan, applied),
        plan.ignore_missing ==> is_migrated(plan, applied + further),
        is_migrated(plan, applied + further) ==> plan.ignore_missing || forall|i: int|
            0 <= i < further.len() ==> is_known((#[trigger] further[i]).version, plan.migrations@),
{
    let all = applied + further;
    assert forall|i: int| 0 <= i < plan.migrations@.len() implies is_applied(
        #[trigger] plan.migrations@[i],
        applied,
    ) && is_applied(plan.migrations@[i], all) by {
        assert(applied[i].version == plan.migrations@[i].version);
        assert(all[i] == applied[i]);
    }
    assert forall|i: int| 0 <= i < applied.len() implies is_known(
        (#[trigger] applied[i]).version,
        plan.migrations@,
    ) by {
        assert(plan.migrations@[i].version == applied[i].version);
    }
    assert forall|i: int| 0 <= i < all.len() implies (#[trigger] all[i]).success by {
        if i < applied.len() {
            assert(all[i] == applied[i]);
        } else {
            assert(all[i] == further[i - applied.len()]);
        }
    }
    if is_migrated(plan, all) && !plan.ignore_missing {
        assert forall|i: int| 0 <= i < further.len() implies is_known(
            (#[trigger] further[i]).version,
            plan.migrations@,
        ) by {
            assert(all[applied.len() + i] == further[i]);
        }
    }
}

/// A version is known where some migration of the program, at any place, has it.
pub proof fn lemma_known_versions(
    before: Seq<EmbeddedMigration>,
    migration: EmbeddedMigration,
    after: Seq<EmbeddedMigration>,
    version: i64,
)
    ensures
        is_known(migration.version, before + seq![migration] + after),
        !is_known(version, Seq::empty()),
        is_known(version, before + after) || version == migration.version <==> is_known(
            version,
            before + seq![migration] + after,
        ),
{
    let all = before + seq![migration] + after;
    let less = before + after;
    assert(all[before.len() as int] == migration);
    if is_known(version, less) {
        let i = choose|i: int| 0 <= i < less.len() && (#[trigger] less[i]).version == version;
        if i < before.len() {
            assert(all[i] == less[i]);
        } else {
            assert(all[i + 1] == less[i]);
        }
    }
    if is_known(version, all) && version != migration.version {
        let i = choose|i: int| 0 <= i < all.len() && (#[trigger] all[i]).version == version;
        if i < before.len() {
            assert(less[i] == all[i]);
        } else {
            assert(less[i - 1] == all[i]);
        }
    }
}

/// A journal mode is write-ahead where it is that word in letters of any case.
pub proof fn lemma_write_ahead_in_any_case(mode: Seq<char>)
    ensures
        is_wal("wal"@),
        is_wal("WAL"@),
        is_wal(mode) ==> mode.len() == 3,
        is_wal(mode) <==> mode.len() == 3 && (forall|i: int|
            0 <= i < 3 ==> #[trigger] mode[i] == "wal"@[i] || mode[i] == "WAL"@[i]),
{
    reveal_strlit("wal");
    reveal_strlit("WAL");
    assert("wal"@ =~= seq!['w', 'a', 'l']);
    assert("WAL"@ =~= seq!['W', 'A', 'L']);
}

/// A search that ends without a ready database closes it exactly where it was opened.
pub proof fn lemma_search_closes_what_it_opened(plan: MigrationPlan, database: FoundDatabase)
    requires
        !is_ready(plan, database),
    ensures
        search(plan, database).last() == (ReadyAction::GiveUp { close: database.exists }),
        exists|i: int|
            0 <= i < search(plan, database).len() && (#[trigger] search(plan, database)[i]) is Open
            <==> database.exists,
{
    reveal_with_fuel(search_from, 6);
    let actions = search(plan, database);
    let step1 = next_ready_step(
        plan,
        ReadyPhase::LookingForFile,
        reply_of(database, ReadyPhase::LookingForFile),
    );
    let step2 = next_ready_step(plan, step1.phase, reply_of(database, step1.phase));
    let step3 = next_ready_step(plan, step2.phase, reply_of(database, step2.phase));
    let step4 = next_ready_step(plan, step3.phase, reply_of(database, step3.phase));
    let step5 = next_ready_step(plan, step4.phase, reply_of(database, step4.phase));
    if !database.exists {
        assert(actions =~= seq![ReadyAction::LookForFile, step1.action]);
    } else {
        if plan.table_name@ != MIGRATIONS_TABLE@ {
            assert(actions =~= seq![
                ReadyAction::LookForFile,
                step1.action,
                step2.action,
                step3.action,
            ]);
        } else if !is_wal(database.journal_mode@) || !database.has_table {
            assert(actions =~= seq![
                ReadyAction::LookForFile,
                step1.action,
                step2.action,
                step3.action,
                step4.action,
            ]);
        } else {
            assert(actions =~= seq![
                ReadyAction::LookForFile,
                step1.action,
                step2.action,
                step3.action,
                step4.action,
                step5.action,
            ]);
        }
        assert(actions[1] is Open);
    }
}

/// What a ready database needs: all of these, and nothing else.
pub proof fn lemma_what_is_ready(plan: MigrationPlan, database: FoundDatabase)
    ensures
        MIGRATIONS_TABLE@ == "_sqlx_migrations"@,
        is_ready(plan, database) <==> database.exists && plan.table_name@ == "_sqlx_migrations"@
            && is_wal(database.journal_mode@) && database.has_table && is_migrated(
            plan,
            database.applied@,
        ),
{
}

/// Where every step of the opening is done, the state is opened, mended, migrated and used; another
/// database is opened, migrated and used; and the logs are so once they were found not ready.
pub proof fn lemma_opening_that_succeeds(kind: DbKind)
    ensures
        ({
            let opened = next_open_step(kind, OpenPhase::Opening, OpenEvent::Done);
            let mended = next_open_step(kind, OpenPhase::Repairing, OpenEvent::Done);
            let migrated = next_open_step(kind, OpenPhase::Migrating, OpenEvent::Done);
            let unready = next_open_step(kind, OpenPhase::TryingReady, OpenEvent::NotReady);
            &&& kind != DbKind::Logs ==> (first_open_step(kind).action matches OpenAction::Open(
                connection,
            ) && connection.create_if_missing && !connection.read_only
                && connection.set_wal_journal) && first_open_step(kind).phase == OpenPhase::Opening
                && first_open_step(kind).report is None
            &&& kind == DbKind::Logs ==> first_open_step(kind).action == OpenAction::TryReady
                && first_open_step(kind).report is None
            &&& (unready.action matches OpenAction::Open(connection)
                && connection.create_if_missing && !connection.read_only
                && connection.set_wal_journal) && unready.phase == OpenPhase::Opening
                && unready.report == Some(OpenReport::Open)
            &&& kind == DbKind::State ==> opened.action == OpenAction::RepairLegacy && opened.phase
                == OpenPhase::Repairing
            &&& kind != DbKind::State ==> opened.action == OpenAction::Migrate && opened.phase
                == OpenPhase::Migrating
            &&& opened.report == Some(OpenReport::Open)
            &&& mended.action == OpenAction::Migrate && mended.phase == OpenPhase::Migrating
                && mended.report is None
            &&& migrated.action == OpenAction::Use && migrated.phase == OpenPhase::Finished
                && migrated.report == Some(OpenReport::Migrate)
        }),
{
}

/// Where a step of the opening fails: a search or an opening that failed fails at once, each under its
/// own name; mending or migrating that failed closes the database first and then fails as a migration,
/// whatever came of the closing.
pub proof fn lemma_opening_that_fails(kind: DbKind, closed: OpenEvent)
    ensures
        ({
            let unsearched = next_open_step(kind, OpenPhase::TryingReady, OpenEvent::Failed);
            let unopened = next_open_step(kind, OpenPhase::Opening, OpenEvent::Failed);
            let unmended = next_open_step(kind, OpenPhase::Repairing, OpenEvent::Failed);
            let unmigrated = next_open_step(kind, OpenPhase::Migrating, OpenEvent::Failed);
            let end = next_open_step(kind, OpenPhase::Closing, closed);
            &&& unsearched.action == OpenAction::Fail(OpenFailure::OpenReady) && unsearched.phase
                == OpenPhase::Finished && unsearched.report == Some(OpenReport::Open)
            &&& unopened.action == OpenAction::Fail(OpenFailure::Open) && unopened.phase
                == OpenPhase::Finished && unopened.report == Some(OpenReport::Open)
            &&& unmended.action == OpenAction::Close && unmended.phase == OpenPhase::Closing
                && unmended.report == Some(OpenReport::Migrate)
            &&& unmigrated.action == OpenAction::Close && unmigrated.phase == OpenPhase::Closing
                && unmigrated.report == Some(OpenReport::Migrate)
            &&& end.action == OpenAction::Fail(OpenFailure::Migrate) && end.phase
                == OpenPhase::Finished && end.report is None
        }),
        OpenFailure::OpenReady.text() == "open ready"@,
        OpenFailure::Open.text() == "open"@,
        OpenFailure::Migrate.text() == "migrate"@,
{
}

/// A path leads into its directory, to its file, with one separator between them where the directory
/// does not end in one.
pub proof fn lemma_path_in_a_directory(path: Seq<char>, home: Seq<char>, name: Seq<char>)
    requires
        is_path_in(path, home, name),
        !has_prefix(home, "\\\\?\\"@),
        home.len() > 0,
        home.last() != '/',
        home.last() != '\\',
        home.last() != ':',
    ensures
        path == home + seq!['/'] + name || path == home + seq!['\\'] + name,
{
    let middle = path[home.len() as int];
    assert(path.subrange(0, home.len() as int) =~= home);
    assert(path =~= home + seq![middle] + name);
}

/// The names of a database are those of its kind, each of them.
pub proof fn lemma_named_as_its_kind(spec: RuntimeDbSpec)
    ensures
        spec.is_named() <==> spec.label@ == label_of(spec.kind) && spec.filename@ == filename_of(
            spec.kind,
        ) && spec.open_phase@ == open_phase_of(spec.kind) && spec.migrate_phase@
            == migrate_phase_of(spec.kind),
{
}

/// The opening goes on with whatever comes: each event but that of an unready database can come at each
/// phase before the end, and that one at the search.
pub proof fn lemma_opening_goes_on(phase: OpenPhase)
    requires
        phase != OpenPhase::Finished,
    ensures
        phase.awaits(OpenEvent::Done),
        phase.awaits(OpenEvent::Failed),
        phase.awaits(OpenEvent::NotReady) <==> phase == OpenPhase::TryingReady,
{
}

/// The search goes on with what a database replies, at each phase before the end.
pub proof fn lemma_search_goes_on(database: FoundDatabase, phase: ReadyPhase)
    requires
        phase !is Finished,
    ensures
        phase.awaits(reply_of(database, phase)),
{
}

/// A search only reads where it opens nothing or opens it without writing, at every step.
pub proof fn lemma_reading_at_every_step(actions: Seq<ReadyAction>, at: int)
    requires
        only_reads(actions),
        0 <= at < actions.len(),
    ensures
        actions[at] matches ReadyAction::Open(connection) ==> !connection.create_if_missing
            && !connection.set_wal_journal && !connection.set_incremental_vacuum,
{
}

} // verus!
