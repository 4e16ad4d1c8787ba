use vstd::prelude::*;

verus! {

/// A statement sent to the relational backend.
///
/// `table` is always a physical (sanitized) table name: it is the one part
/// of a statement that is written into its text. Keys and values travel as
/// bound parameters only.
pub enum Command {
    /// Creates the two-column table if it does not exist yet.
    CreateTable { table: String },
    /// Inserts the record, or replaces the value of an existing key.
    Upsert { table: String, key: String, value: String },
    /// Sets the value of an existing key; affects no row if the key is absent.
    Update { table: String, key: String, value: String },
    /// Reads the value stored under a key, if any.
    Select { table: String, key: String },
    /// Removes the record of a key, if any.
    DeleteRow { table: String, key: String },
    /// Drops the table if it exists.
    DropTable { table: String },
}

/// The mathematical form of a [`Command`].
pub enum CommandView {
    CreateTable { table: Seq<char> },
    Upsert { table: Seq<char>, key: Seq<char>, value: Seq<char> },
    Update { table: Seq<char>, key: Seq<char>, value: Seq<char> },
    Select { table: Seq<char>, key: Seq<char> },
    DeleteRow { table: Seq<char>, key: Seq<char> },
    DropTable { table: Seq<char> },
}

impl View for Command {
    type V = CommandView;

    open spec fn view(&self) -> CommandView {
        match self {
            Command::CreateTable { table } => CommandView::CreateTable { table: table@ },
            Command::Upsert { table, key, value } => CommandView::Upsert {
                table: table@,
                key: key@,
                value: value@,
            },
            Command::Update { table, key, value } => CommandView::Update {
                table: table@,
                key: key@,
                value: value@,
            },
            Command::Select { table, key } => CommandView::Select { table: table@, key: key@ },
            Command::DeleteRow { table, key } => CommandView::DeleteRow {
                table: table@,
                key: key@,
            },
            Command::DropTable { table } => CommandView::DropTable { table: table@ },
        }
    }
}

/// The views of a sequence of commands.
pub open spec fn views(cmds: Seq<Command>) -> Seq<CommandView> {
    cmds.map_values(|c: Command| c@)
}

impl CommandView {
    /// The physical table that the statement names.
    pub open spec fn table(self) -> Seq<char> {
        match self {
            CommandView::CreateTable { table } => table,
            CommandView::Upsert { table, .. } => table,
            CommandView::Update { table, .. } => table,
            CommandView::Select { table, .. } => table,
            CommandView::DeleteRow { table, .. } => table,
            CommandView::DropTable { table } => table,
        }
    }

    /// The statement's text, with `?1`, `?2` standing for its parameters.
    pub open spec fn sql(self) -> Seq<char> {
        let t = self.table();
        match self {
            CommandView::CreateTable { .. } => "CREATE TABLE IF NOT EXISTS \""@ + t
                + "\" (key TEXT PRIMARY KEY, value TEXT NOT NULL)"@,
            CommandView::Upsert { .. } => "INSERT OR REPLACE INTO \""@ + t
                + "\" (key, value) VALUES (?1, ?2)"@,
            CommandView::Update { .. } => "UPDATE \""@ + t + "\" SET value = ?1 WHERE key = ?2"@,
            CommandView::Select { .. } => "SELECT value FROM \""@ + t + "\" WHERE key = ?1"@,
            CommandView::DeleteRow { .. } => "DELETE FROM \""@ + t + "\" WHERE key = ?1"@,
            CommandView::DropTable { .. } => "DROP TABLE IF EXISTS \""@ + t + "\""@,
        }
    }

    /// The values bound to `?1`, `?2`, ... in order.
    pub open spec fn params(self) -> Seq<Seq<char>> {
        match self {
            CommandView::CreateTable { .. } => seq![],
            CommandView::Upsert { key, value, .. } => seq![key, value],
            CommandView::Update { key, value, .. } => seq![value, key],
            CommandView::Select { key, .. } => seq![key],
            CommandView::DeleteRow { key, .. } => seq![key],
            CommandView::DropTable { .. } => seq![],
        }
    }

    /// Whether the statement reads a value back.
    pub open spec fn fetches(self) -> bool {
        self is Select
    }
}

/// Builds `prefix`, then `name`, then `suffix`.
fn framed(prefix: &str, name: &String, suffix: &str) -> (r: String)
    ensures
        r@ == prefix@ + name@ + suffix@,
{
    let mut r = String::from_str(prefix);
    r.append(name.as_str());
    r.append(suffix);
    r
}

impl Command {
    /// The text of the statement; the table name is the only part written into it.
    pub fn sql(&self) -> (r: String)
        ensures
            r@ == self@.sql(),
    {
        match self {
            Command::CreateTable { table } => framed(
                "CREATE TABLE IF NOT EXISTS \"",
                table,
                "\" (key TEXT PRIMARY KEY, value TEXT NOT NULL)",
            ),
            Command::Upsert { table, .. } => framed(
                "INSERT OR REPLACE INTO \"",
                table,
                "\" (key, value) VALUES (?1, ?2)",
            ),
            Command::Update { table, .. } => framed(
                "UPDATE \"",
                table,
                "\" SET value = ?1 WHERE key = ?2",
            ),
            Command::Select { table, .. } => framed(
                "SELECT value FROM \"",
                table,
                "\" WHERE key = ?1",
            ),
            Command::DeleteRow { table, .. } => framed("DELETE FROM \"", table, "\" WHERE key = ?1"),
            Command::DropTable { table } => framed("DROP TABLE IF EXISTS \"", table, "\""),
        }
    }

    /// The values to bind to the statement's parameters, in order.
    pub fn params(&self) -> (r: Vec<String>)
        ensures
            r@.map_values(|p: String| p@) == self@.params(),
    {
        let mut r: Vec<String> = Vec::new();
        match self {
            Command::CreateTable { .. } => {},
            Command::Upsert { key, value, .. } => {
                r.push(key.clone());
                r.push(value.clone());
            },
            Command::Update { key, value, .. } => {
                r.push(value.clone());
                r.push(key.clone());
            },
            Command::Select { key, .. } => {
                r.push(key.clone());
            },
            Command::DeleteRow { key, .. } => {
                r.push(key.clone());
            },
            Command::DropTable { .. } => {},
        }
        proof {
            assert(r@.map_values(|p: String| p@) =~= self@.params());
        }
        r
    }

    /// Whether the statement reads a value back.
    pub fn fetches(&self) -> (r: bool)
        ensures
            r == self@.fetches(),
    {
        match self {
            Command::Select { .. } => true,
            _ => false,
        }
    }
}

} // verus!
