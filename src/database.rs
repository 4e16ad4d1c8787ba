use vstd::prelude::*;

use crate::command::{Command, CommandView, views};
use crate::utils::{Utils, sanitized, lemma_sanitize_idempotent};

verus! {

/// The backend's contents: each physical table name maps to its records,
/// key to value.
pub type Tables = Map<Seq<char>, Map<Seq<char>, Seq<char>>>;

/// Whether the backend accepts `c` in state `db`: statements that read or
/// write records of a table need that table to exist.
pub open spec fn executes(db: Tables, c: CommandView) -> bool {
    match c {
        CommandView::Upsert { table, .. } => db.contains_key(table),
        CommandView::Update { table, .. } => db.contains_key(table),
        CommandView::Select { table, .. } => db.contains_key(table),
        _ => true,
    }
}

/// The backend's contents after it has executed `c` in state `db`.
pub open spec fn apply(db: Tables, c: CommandView) -> Tables {
    match c {
        CommandView::CreateTable { table } => if db.contains_key(table) {
            db
        } else {
            db.insert(table, Map::empty())
        },
        CommandView::Upsert { table, key, value } => db.insert(table, db[table].insert(key, value)),
        CommandView::Update { table, key, value } => if db[table].contains_key(key) {
            db.insert(table, db[table].insert(key, value))
        } else {
            db
        },
        CommandView::Select { .. } => db,
        CommandView::DeleteRow { table, key } => if db.contains_key(table) {
            db.insert(table, db[table].remove(key))
        } else {
            db
        },
        CommandView::DropTable { table } => db.remove(table),
    }
}

/// The value that `c` reads back in state `db`, if any.
pub open spec fn fetch(db: Tables, c: CommandView) -> Option<Seq<char>> {
    match c {
        CommandView::Select { table, key } => if db[table].contains_key(key) {
            Some(db[table][key])
        } else {
            None
        },
        _ => None,
    }
}

/// Runs `plan` statement by statement from state `db`, stopping at the first
/// refused statement (`None`). On success, the final state and what the last
/// statement read back.
pub open spec fn run(db: Tables, plan: Seq<CommandView>) -> Option<(Tables, Option<Seq<char>>)>
    decreases plan.len(),
{
    if plan.len() == 0 {
        Some((db, None))
    } else if !executes(db, plan[0]) {
        None
    } else if plan.len() == 1 {
        Some((apply(db, plan[0]), fetch(db, plan[0])))
    } else {
        run(apply(db, plan[0]), plan.drop_first())
    }
}

/// Whether every statement of `plan` is accepted from state `db`.
pub open spec fn succeeds(db: Tables, plan: Seq<CommandView>) -> bool {
    run(db, plan) is Some
}

/// The state after `plan` has run from `db` (`db` itself where it fails).
pub open spec fn state_after(db: Tables, plan: Seq<CommandView>) -> Tables {
    match run(db, plan) {
        Some(o) => o.0,
        None => db,
    }
}

/// What `plan` reads back when run from `db`.
pub open spec fn fetched(db: Tables, plan: Seq<CommandView>) -> Option<Seq<char>> {
    match run(db, plan) {
        Some(o) => o.1,
        None => None,
    }
}

/// The statements that provision the table named `t`.
pub open spec fn ensure_plan(t: Seq<char>) -> Seq<CommandView> {
    seq![CommandView::CreateTable { table: sanitized(t) }]
}

/// The statements that store `v` under `k` in table `t`, replacing any earlier value.
pub open spec fn set_plan(t: Seq<char>, k: Seq<char>, v: Seq<char>) -> Seq<CommandView> {
    ensure_plan(t).push(CommandView::Upsert { table: sanitized(t), key: k, value: v })
}

/// The statements that replace the value under `k` in table `t`, if there is one.
pub open spec fn update_plan(t: Seq<char>, k: Seq<char>, v: Seq<char>) -> Seq<CommandView> {
    ensure_plan(t).push(CommandView::Update { table: sanitized(t), key: k, value: v })
}

/// The statements that read the value under `k` in table `t`.
pub open spec fn get_plan(t: Seq<char>, k: Seq<char>) -> Seq<CommandView> {
    ensure_plan(t).push(CommandView::Select { table: sanitized(t), key: k })
}

/// The statement that removes the record under `k` in table `t`. It does
/// not provision the table first.
pub open spec fn delete_plan(t: Seq<char>, k: Seq<char>) -> Seq<CommandView> {
    seq![CommandView::DeleteRow { table: sanitized(t), key: k }]
}

/// The statement that drops table `t`.
pub open spec fn drop_plan(t: Seq<char>) -> Seq<CommandView> {
    seq![CommandView::DropTable { table: sanitized(t) }]
}

/// A failure reported by the backend, with the backend's own description.
pub enum StoreError {
    /// The connection was lost, refused or timed out.
    BackendUnavailable(String),
    /// The backend rejected a statement (malformed, or a constraint failed).
    StatementFailed(String),
}

/// The statements that provision `table`: create-if-absent, so running them
/// again changes nothing.
pub fn init_table(table: &str) -> (r: Vec<Command>)
    ensures
        views(r@) == ensure_plan(table@),
{
    let name = Utils::sanitize(table);
    let r = vec![Command::CreateTable { table: name }];
    proof {
        assert(views(r@) =~= ensure_plan(table@));
    }
    r
}

/// Provisions `table`, then appends `last`.
fn provisioned(table: &str, last: Command) -> (r: Vec<Command>)
    ensures
        views(r@) == ensure_plan(table@).push(last@),
{
    let mut r = init_table(table);
    r.push(last);
    proof {
        assert(views(r@) =~= ensure_plan(table@).push(last@));
    }
    r
}

/// The statements of an upsert: `value` is stored under `key` in `table`,
/// inserted or replacing what was there.
pub fn set_data(table: &str, key: &str, value: &str) -> (r: Vec<Command>)
    ensures
        views(r@) == set_plan(table@, key@, value@),
{
    let last = Command::Upsert {
        table: Utils::sanitize(table),
        key: key.to_owned(),
        value: value.to_owned(),
    };
    provisioned(table, last)
}

/// The statements that replace the value under `key` in `table`; where no
/// record has that key, nothing changes and nothing fails.
pub fn update_data(table: &str, key: &str, value: &str) -> (r: Vec<Command>)
    ensures
        views(r@) == update_plan(table@, key@, value@),
{
    let last = Command::Update {
        table: Utils::sanitize(table),
        key: key.to_owned(),
        value: value.to_owned(),
    };
    provisioned(table, last)
}

/// The statements that read the value under `key` in `table`; the last one
/// reads it back.
pub fn get_data(table: &str, key: &str) -> (r: Vec<Command>)
    ensures
        views(r@) == get_plan(table@, key@),
{
    let last = Command::Select { table: Utils::sanitize(table), key: key.to_owned() };
    provisioned(table, last)
}

/// The statement that removes the record under `key` in `table`, whether or
/// not there is one.
pub fn delete_data(table: &str, key: &str) -> (r: Vec<Command>)
    ensures
        views(r@) == delete_plan(table@, key@),
{
    let r = vec![Command::DeleteRow { table: Utils::sanitize(table), key: key.to_owned() }];
    proof {
        assert(views(r@) =~= delete_plan(table@, key@));
    }
    r
}

/// The statement that drops `table`, whether or not it exists.
pub fn delete_table(table: &str) -> (r: Vec<Command>)
    ensures
        views(r@) == drop_plan(table@),
{
    let r = vec![Command::DropTable { table: Utils::sanitize(table) }];
    proof {
        assert(views(r@) =~= drop_plan(table@));
    }
    r
}

/// Running the provisioning statement and then `last` from `db`: the table
/// exists before `last` runs, and the outcome is that of `last` alone there.
proof fn lemma_run_provisioned(db: Tables, t: Seq<char>, last: CommandView)
    ensures
        run(db, ensure_plan(t).push(last)) == run(
            apply(db, CommandView::CreateTable { table: sanitized(t) }),
            seq![last],
        ),
        apply(db, CommandView::CreateTable { table: sanitized(t) }).contains_key(sanitized(t)),
{
    let plan = ensure_plan(t).push(last);
    assert(plan.drop_first() =~= seq![last]);
}

/// Setting `v` under `k` in `t` succeeds, and reading `k` back then gives `v`.
pub proof fn lemma_set_then_get(db: Tables, t: Seq<char>, k: Seq<char>, v: Seq<char>)
    ensures
        succeeds(db, set_plan(t, k, v)),
        succeeds(state_after(db, set_plan(t, k, v)), get_plan(t, k)),
        fetched(state_after(db, set_plan(t, k, v)), get_plan(t, k)) == Some(v),
{
    let s = sanitized(t);
    lemma_run_provisioned(db, t, CommandView::Upsert { table: s, key: k, value: v });
    let d1 = state_after(db, set_plan(t, k, v));
    assert(d1.contains_key(s) && d1[s].contains_key(k) && d1[s][k] == v);
    lemma_run_provisioned(d1, t, CommandView::Select { table: s, key: k });
    assert(apply(d1, CommandView::CreateTable { table: s }) == d1);
}

/// A second set of the same key replaces the first: reading back gives the
/// first value after the first set and the second value after the second.
pub proof fn lemma_set_overwrites(
    db: Tables,
    t: Seq<char>,
    k: Seq<char>,
    v1: Seq<char>,
    v2: Seq<char>,
)
    ensures
        fetched(state_after(db, set_plan(t, k, v1)), get_plan(t, k)) == Some(v1),
        succeeds(state_after(db, set_plan(t, k, v1)), set_plan(t, k, v2)),
        fetched(
            state_after(state_after(db, set_plan(t, k, v1)), set_plan(t, k, v2)),
            get_plan(t, k),
        ) == Some(v2),
{
    lemma_set_then_get(db, t, k, v1);
    lemma_set_then_get(state_after(db, set_plan(t, k, v1)), t, k, v2);
}

/// Updating a key that holds no record succeeds, and reading it back then
/// still finds nothing.
pub proof fn lemma_update_absent_is_noop(db: Tables, t: Seq<char>, k: Seq<char>, v: Seq<char>)
    requires
        !(db.contains_key(sanitized(t)) && db[sanitized(t)].contains_key(k)),
    ensures
        succeeds(db, update_plan(t, k, v)),
        succeeds(state_after(db, update_plan(t, k, v)), get_plan(t, k)),
        fetched(state_after(db, update_plan(t, k, v)), get_plan(t, k)) is None,
{
    let s = sanitized(t);
    lemma_run_provisioned(db, t, CommandView::Update { table: s, key: k, value: v });
    let d0 = apply(db, CommandView::CreateTable { table: s });
    assert(!d0[s].contains_key(k));
    let d1 = state_after(db, update_plan(t, k, v));
    assert(d1 == d0);
    lemma_run_provisioned(d1, t, CommandView::Select { table: s, key: k });
    assert(apply(d1, CommandView::CreateTable { table: s }) == d1);
}

/// Deleting a key succeeds whether or not the key or its table exist, and
/// reading the key back afterwards finds nothing.
pub proof fn lemma_delete_then_get(db: Tables, t: Seq<char>, k: Seq<char>)
    ensures
        succeeds(db, delete_plan(t, k)),
        succeeds(state_after(db, delete_plan(t, k)), get_plan(t, k)),
        fetched(state_after(db, delete_plan(t, k)), get_plan(t, k)) is None,
{
    let s = sanitized(t);
    let d1 = state_after(db, delete_plan(t, k));
    assert(!(d1.contains_key(s) && d1[s].contains_key(k)));
    lemma_run_provisioned(d1, t, CommandView::Select { table: s, key: k });
}

/// Dropping a table succeeds, and reading any key of it afterwards provisions
/// it anew and finds nothing, without failing.
pub proof fn lemma_drop_then_get(db: Tables, t: Seq<char>, k: Seq<char>)
    ensures
        succeeds(db, drop_plan(t)),
        succeeds(state_after(db, drop_plan(t)), get_plan(t, k)),
        fetched(state_after(db, drop_plan(t)), get_plan(t, k)) is None,
{
    let s = sanitized(t);
    let d1 = state_after(db, drop_plan(t));
    assert(!d1.contains_key(s));
    lemma_run_provisioned(d1, t, CommandView::Select { table: s, key: k });
}

/// Two table names that sanitize alike address the same physical table:
/// every operation sends the same statements for both.
pub proof fn lemma_same_physical_table(t1: Seq<char>, t2: Seq<char>, k: Seq<char>, v: Seq<char>)
    requires
        sanitized(t1) == sanitized(t2),
    ensures
        ensure_plan(t1) == ensure_plan(t2),
        set_plan(t1, k, v) == set_plan(t2, k, v),
        update_plan(t1, k, v) == update_plan(t2, k, v),
        get_plan(t1, k) == get_plan(t2, k),
        delete_plan(t1, k) == delete_plan(t2, k),
        drop_plan(t1) == drop_plan(t2),
{
}

/// Sanitizing a name twice addresses the same table as sanitizing it once.
pub proof fn lemma_sanitized_name_same_table(t: Seq<char>)
    ensures
        ensure_plan(sanitized(t)) == ensure_plan(t),
{
    lemma_sanitize_idempotent(t);
}

} // verus!
