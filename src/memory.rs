use vstd::prelude::*;

use crate::command::{Command, CommandView, views};
use crate::database::{StoreError, Tables, apply, executes, fetch, run};

verus! {

/// One record: physical table name, key, value.
pub type Row = (String, String, String);

/// The records of `rows` by (table, key); a later row shadows an earlier one.
pub open spec fn row_map(rows: Seq<Row>) -> Map<(Seq<char>, Seq<char>), Seq<char>>
    decreases rows.len(),
{
    if rows.len() == 0 {
        Map::empty()
    } else {
        row_map(rows.drop_last()).insert((rows.last().0@, rows.last().1@), rows.last().2@)
    }
}

/// The table names held in `names`.
pub open spec fn name_set(names: Seq<String>) -> Set<Seq<char>>
    decreases names.len(),
{
    if names.len() == 0 {
        Set::empty()
    } else {
        name_set(names.drop_last()).insert(names.last()@)
    }
}

/// Whether a record under `p` is one that removing key `k` of table `t`
/// (every key, where `k` is `None`) takes away.
pub open spec fn removed(p: (Seq<char>, Seq<char>), t: Seq<char>, k: Option<Seq<char>>) -> bool {
    p.0 == t && match k {
        Some(key) => p.1 == key,
        None => true,
    }
}

/// The view of an optional string.
pub open spec fn opt_view(o: Option<String>) -> Option<Seq<char>> {
    match o {
        Some(s) => Some(s@),
        None => None,
    }
}

/// A backend that keeps every table in memory, in one relation keyed by
/// (table, key). It executes the store's statements exactly as the backend
/// model describes them.
pub struct MemoryBackend {
    names: Vec<String>,
    rows: Vec<Row>,
}

impl View for MemoryBackend {
    type V = Tables;

    closed spec fn view(&self) -> Tables {
        let m = row_map(self.rows@);
        Map::new(
            |t: Seq<char>| name_set(self.names@).contains(t),
            |t: Seq<char>|
                Map::new(
                    |k: Seq<char>| m.contains_key((t, k)),
                    |k: Seq<char>| m[(t, k)],
                ),
        )
    }
}

/// `rows` without the records that removing `k` of `t` takes away, in order.
fn without(rows: &Vec<Row>, t: &String, k: Option<&String>) -> (r: Vec<Row>)
    ensures
        row_map(r@) == Map::new(
            |p: (Seq<char>, Seq<char>)|
                row_map(rows@).contains_key(p) && !removed(p, t@, opt_key(k)),
            |p: (Seq<char>, Seq<char>)| row_map(rows@)[p],
        ),
{
    let ghost kk = opt_key(k);
    let mut r: Vec<Row> = Vec::new();
    let mut j: usize = 0;
    while j < rows.len()
        invariant
            j <= rows.len(),
            kk == opt_key(k),
            row_map(r@) == Map::new(
                |p: (Seq<char>, Seq<char>)|
                    row_map(rows@.subrange(0, j as int)).contains_key(p) && !removed(p, t@, kk),
                |p: (Seq<char>, Seq<char>)| row_map(rows@.subrange(0, j as int))[p],
            ),
        decreases rows.len() - j,
    {
        let row = &rows[j];
        let gone = match k {
            Some(key) => row.0 == *t && row.1 == *key,
            None => row.0 == *t,
        };
        let ghost before = r@;
        proof {
            assert(rows@.subrange(0, j + 1).drop_last() =~= rows@.subrange(0, j as int));
        }
        if !gone {
            r.push((row.0.clone(), row.1.clone(), row.2.clone()));
            proof {
                assert(r@.drop_last() =~= before);
            }
        }
        j = j + 1;
        proof {
            let m = row_map(rows@.subrange(0, j as int));
            assert(row_map(r@) =~= Map::new(
                |p: (Seq<char>, Seq<char>)| m.contains_key(p) && !removed(p, t@, kk),
                |p: (Seq<char>, Seq<char>)| m[p],
            ));
        }
    }
    proof {
        assert(rows@.subrange(0, rows@.len() as int) =~= rows@);
    }
    r
}

/// The view of an optional key.
pub open spec fn opt_key(k: Option<&String>) -> Option<Seq<char>> {
    match k {
        Some(key) => Some(key@),
        None => None,
    }
}

/// `names` without `t`, in order.
fn names_without(names: &Vec<String>, t: &String) -> (r: Vec<String>)
    ensures
        name_set(r@) == name_set(names@).remove(t@),
{
    let mut r: Vec<String> = Vec::new();
    let mut j: usize = 0;
    while j < names.len()
        invariant
            j <= names.len(),
            name_set(r@) == name_set(names@.subrange(0, j as int)).remove(t@),
        decreases names.len() - j,
    {
        let ghost before = r@;
        proof {
            assert(names@.subrange(0, j + 1).drop_last() =~= names@.subrange(0, j as int));
        }
        if names[j] != *t {
            r.push(names[j].clone());
            proof {
                assert(r@.drop_last() =~= before);
            }
        }
        j = j + 1;
        proof {
            assert(name_set(r@) =~= name_set(names@.subrange(0, j as int)).remove(t@));
        }
    }
    proof {
        assert(names@.subrange(0, names@.len() as int) =~= names@);
    }
    r
}

impl MemoryBackend {
    /// Every record belongs to a table that exists.
    pub closed spec fn wf(&self) -> bool {
        forall|p: (Seq<char>, Seq<char>)| #[trigger]
            row_map(self.rows@).contains_key(p) ==> name_set(self.names@).contains(p.0)
    }

    /// A backend with no tables.
    pub fn new() -> (r: Self)
        ensures
            r.wf(),
            r@ == Map::<Seq<char>, Map<Seq<char>, Seq<char>>>::empty(),
    {
        let r = MemoryBackend { names: Vec::new(), rows: Vec::new() };
        proof {
            assert(r@ =~= Map::<Seq<char>, Map<Seq<char>, Seq<char>>>::empty());
        }
        r
    }

    /// Whether table `t` exists.
    fn has_table(&self, t: &String) -> (r: bool)
        ensures
            r == name_set(self.names@).contains(t@),
    {
        let mut found = false;
        let mut j: usize = 0;
        while j < self.names.len()
            invariant
                j <= self.names.len(),
                found == name_set(self.names@.subrange(0, j as int)).contains(t@),
            decreases self.names.len() - j,
        {
            proof {
                assert(self.names@.subrange(0, j + 1).drop_last() =~= self.names@.subrange(
                    0,
                    j as int,
                ));
            }
            if self.names[j] == *t {
                found = true;
            }
            j = j + 1;
        }
        proof {
            assert(self.names@.subrange(0, self.names@.len() as int) =~= self.names@);
        }
        found
    }

    /// The value under key `k` of table `t`, if any.
    fn lookup(&self, t: &String, k: &String) -> (r: Option<String>)
        ensures
            opt_view(r) == (if row_map(self.rows@).contains_key((t@, k@)) {
                Some(row_map(self.rows@)[(t@, k@)])
            } else {
                None
            }),
    {
        let mut found: Option<String> = None;
        let mut j: usize = 0;
        while j < self.rows.len()
            invariant
                j <= self.rows.len(),
                opt_view(found) == (if row_map(self.rows@.subrange(0, j as int)).contains_key(
                    (t@, k@),
                ) {
                    Some(row_map(self.rows@.subrange(0, j as int))[(t@, k@)])
                } else {
                    None
                }),
            decreases self.rows.len() - j,
        {
            proof {
                assert(self.rows@.subrange(0, j + 1).drop_last() =~= self.rows@.subrange(
                    0,
                    j as int,
                ));
            }
            let row = &self.rows[j];
            if row.0 == *t && row.1 == *k {
                found = Some(row.2.clone());
            }
            j = j + 1;
        }
        proof {
            assert(self.rows@.subrange(0, self.rows@.len() as int) =~= self.rows@);
        }
        found
    }

    /// Stores `v` under key `k` of table `t`, replacing any earlier value.
    fn put(&mut self, t: &String, k: &String, v: &String)
        ensures
            final(self).names == old(self).names,
            row_map(final(self).rows@) == row_map(old(self).rows@).insert((t@, k@), v@),
    {
        let mut rows = without(&self.rows, t, Some(k));
        let ghost kept = rows@;
        rows.push((t.clone(), k.clone(), v.clone()));
        proof {
            assert(rows@.drop_last() =~= kept);
            assert(row_map(rows@) =~= row_map(self.rows@).insert((t@, k@), v@));
        }
        self.rows = rows;
    }

    /// Executes one statement. A statement that reads or writes the records
    /// of a table that does not exist fails and changes nothing; any other
    /// changes the contents as the backend model says and returns what it
    /// reads back.
    pub fn execute(&mut self, cmd: &Command) -> (r: Result<Option<String>, StoreError>)
        requires
            old(self).wf(),
        ensures
            final(self).wf(),
            match r {
                Ok(f) => executes(old(self)@, cmd@) && final(self)@ == apply(old(self)@, cmd@)
                    && opt_view(f) == fetch(old(self)@, cmd@),
                Err(_) => !executes(old(self)@, cmd@) && final(self)@ == old(self)@,
            },
    {
        let ghost before = self@;
        match cmd {
            Command::CreateTable { table } => {
                if !self.has_table(table) {
                    self.names.push(table.clone());
                    proof {
                        assert(self.names@.drop_last() =~= old(self).names@);
                    }
                }
                proof {
                    assert(self@ =~~= apply(before, cmd@));
                }
                Ok(None)
            },
            Command::Upsert { table, key, value } => {
                if !self.has_table(table) {
                    return Err(StoreError::StatementFailed(String::from_str("no such table")));
                }
                self.put(table, key, value);
                proof {
                    assert(self@ =~~= apply(before, cmd@));
                }
                Ok(None)
            },
            Command::Update { table, key, value } => {
                if !self.has_table(table) {
                    return Err(StoreError::StatementFailed(String::from_str("no such table")));
                }
                if self.lookup(table, key).is_some() {
                    self.put(table, key, value);
                }
                proof {
                    assert(self@ =~~= apply(before, cmd@));
                }
                Ok(None)
            },
            Command::Select { table, key } => {
                if !self.has_table(table) {
                    return Err(StoreError::StatementFailed(String::from_str("no such table")));
                }
                let found = self.lookup(table, key);
                proof {
                    assert(self@ =~~= apply(before, cmd@));
                }
                Ok(found)
            },
            Command::DeleteRow { table, key } => {
                self.rows = without(&self.rows, table, Some(key));
                proof {
                    assert(self@ =~~= apply(before, cmd@));
                }
                Ok(None)
            },
            Command::DropTable { table } => {
                self.names = names_without(&self.names, table);
                self.rows = without(&self.rows, table, None);
                proof {
                    assert(self@ =~~= apply(before, cmd@));
                }
                Ok(None)
            },
        }
    }

    /// Executes `plan` statement by statement, stopping at the first
    /// failure; returns what the last statement read back. The outcome is
    /// the backend model's `run` of the plan.
    pub fn run(&mut self, plan: &Vec<Command>) -> (r: Result<Option<String>, StoreError>)
        requires
            old(self).wf(),
        ensures
            final(self).wf(),
            match r {
                Ok(f) => run(old(self)@, views(plan@)) == Some((final(self)@, opt_view(f))),
                Err(_) => run(old(self)@, views(plan@)) is None,
            },
    {
        let ghost whole = views(plan@);
        if plan.len() == 0 {
            return Ok(None);
        }
        let mut i: usize = 0;
        proof {
            assert(whole.subrange(0, whole.len() as int) =~= whole);
        }
        while i < plan.len()
            invariant
                self.wf(),
                0 <= i < plan.len(),
                whole == views(plan@),
                run(old(self)@, whole) == run(self@, whole.subrange(i as int, whole.len() as int)),
            decreases plan.len() - i,
        {
            let ghost rest = whole.subrange(i as int, whole.len() as int);
            let ghost before = self@;
            let outcome = self.execute(&plan[i]);
            match outcome {
                Err(e) => {
                    return Err(e);
                },
                Ok(f) => {
                    if i + 1 == plan.len() {
                        return Ok(f);
                    }
                    proof {
                        assert(rest.drop_first() =~= whole.subrange(i + 1, whole.len() as int));
                    }
                    i = i + 1;
                },
            }
        }
        Ok(None)
    }
}

} // verus!
