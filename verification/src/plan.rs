//! The layout writer's pure half: turn a classified schema model into the
//! ordered list of file-write actions the dump calls for. Table, function
//! and type sections each become one file of their own; constraint and
//! index sections are appended onto the file of the table their body
//! targets, the table name being recovered from the SQL text itself.

use vstd::prelude::*;
use crate::scan::after_prefix;
use crate::scan::chars_of;
use crate::scan::contains_pat;
use crate::scan::contains_sub;
use crate::scan::copy_chars;
use crate::scan::drop_newlines;
use crate::scan::drop_newlines_exec;
use crate::scan::find_from;
use crate::scan::find_sub;
use crate::scan::first_token;
use crate::scan::first_token_exec;
use crate::scan::has_prefix;
use crate::scan::has_prefix_exec;
use crate::scan::lemma_find_from_bounds;
use crate::scan::push_str_chars;
use crate::scan::remove_quotes;
use crate::scan::remove_quotes_exec;
use crate::scan::split_on;
use crate::scan::split_on_exec;
use crate::scan::subrange_vec;
use crate::scan::trim_ws;
use crate::scan::trim_ws_exec;
use crate::scan::up_to;
use crate::schema::Schema;
use crate::schema::SchemaSection;
use crate::schema::SectionV;
use crate::schema::bucket_view;

verus! {

/// How an action writes its file.
#[derive(Clone, Copy, Debug, PartialEq, Eq, Structural)]
pub enum WriteMode {
    /// Create the file, or replace its previous content whole.
    Overwrite,
    /// Create the file if absent, then add the content at its end.
    Append,
}

/// Why a write pass cannot be planned: the body of a constraint or index
/// section does not have the shape the dump conventions promise, so the
/// owning table cannot be recovered. The first such body aborts the run.
#[derive(Clone, Copy, Debug, PartialEq, Eq, Structural)]
pub enum PlanError {
    /// A constraint body does not start with `ALTER TABLE ONLY`.
    ConstraintFormatUnknown,
    /// A constraint statement's target is not of the form `schema.table`.
    ConstraintTargetUnparsed,
    /// An index body has no ` ON ` clause.
    IndexMissingOnClause,
    /// An index body has nothing after its ` ON ` clause.
    IndexMissingTableName,
    /// An index statement's target is not of the form `schema.table`.
    IndexTargetUnparsed,
}

impl PlanError {
    /// The human-readable cause.
    pub open spec fn message_spec(self) -> Seq<char> {
        match self {
            PlanError::ConstraintFormatUnknown => "Constraint format unknown"@,
            PlanError::ConstraintTargetUnparsed => "Couldn't parse as schema.table"@,
            PlanError::IndexMissingOnClause => "no on clause"@,
            PlanError::IndexMissingTableName => "no table name"@,
            PlanError::IndexTargetUnparsed => "no table name after schema"@,
        }
    }

    /// The human-readable cause.
    pub fn message(&self) -> (r: &str)
        ensures
            r@ == self.message_spec(),
    {
        match self {
            PlanError::ConstraintFormatUnknown => "Constraint format unknown",
            PlanError::ConstraintTargetUnparsed => "Couldn't parse as schema.table",
            PlanError::IndexMissingOnClause => "no on clause",
            PlanError::IndexMissingTableName => "no table name",
            PlanError::IndexTargetUnparsed => "no table name after schema",
        }
    }
}

/// Mathematical value of one file-write action.
pub struct ActionV {
    pub dir: Seq<Seq<char>>,
    pub file: Seq<char>,
    pub content: Seq<char>,
    pub mode: WriteMode,
}

/// One file-write action: create the directory `dir` (segments under the
/// destination root), then write `content` to the file named `file` in it.
pub struct WriteAction {
    pub dir: Vec<Vec<char>>,
    pub file: Vec<char>,
    pub content: Vec<char>,
    pub mode: WriteMode,
}

impl View for WriteAction {
    type V = ActionV;

    open spec fn view(&self) -> ActionV {
        ActionV {
            dir: self.dir.deep_view(),
            file: self.file@,
            content: self.content@,
            mode: self.mode,
        }
    }
}

/// The views of a sequence of actions.
pub open spec fn plan_view(v: Seq<WriteAction>) -> Seq<ActionV> {
    v.map_values(|a: WriteAction| a@)
}

/// `<name>.sql`.
pub open spec fn sql_file_name(name: Seq<char>) -> Seq<char> {
    name + ".sql"@
}

/// The field between the first and second `.` of `s`, if `s` holds a `.`;
/// mirrors `s.split('.').nth(1)`.
pub open spec fn second_dot_field(s: Seq<char>) -> Option<Seq<char>> {
    let parts = split_on(s, "."@);
    if parts.len() >= 2 {
        Some(parts[1])
    } else {
        None
    }
}

/// The table a constraint body targets: the body, after leading newlines,
/// must start with `ALTER TABLE ONLY`; the rest of that first line names
/// `schema.table`, and the table part is taken, trimmed, with quotes
/// stripped.
pub open spec fn constraint_target(body: Seq<char>) -> Result<Seq<char>, PlanError> {
    let b = drop_newlines(body);
    if !has_prefix(b, "ALTER TABLE ONLY"@) {
        Err(PlanError::ConstraintFormatUnknown)
    } else {
        let line = up_to(after_prefix(b, "ALTER TABLE ONLY"@), "\n"@);
        match second_dot_field(line) {
            Some(t) => Ok(remove_quotes(trim_ws(t))),
            None => Err(PlanError::ConstraintTargetUnparsed),
        }
    }
}

/// The table an index body targets: the first whitespace-delimited token
/// after the first ` ON ` names `schema.table`, and the table part is
/// taken, trimmed, with quotes stripped.
pub open spec fn index_target(body: Seq<char>) -> Result<Seq<char>, PlanError> {
    let b = drop_newlines(body);
    match find_from(b, " ON "@, 0) {
        Some(i) => {
            let rest = b.subrange(i + " ON "@.len(), b.len() as int);
            match first_token(rest) {
                Some(tok) => match second_dot_field(tok) {
                    Some(t) => Ok(remove_quotes(trim_ws(t))),
                    None => Err(PlanError::IndexTargetUnparsed),
                },
                None => Err(PlanError::IndexMissingTableName),
            }
        },
        None => Err(PlanError::IndexMissingOnClause),
    }
}

/// The action for one table section: overwrite
/// `tables/<namespace>/<name>.sql` with the body verbatim.
pub open spec fn table_action(sec: SectionV) -> ActionV {
    ActionV {
        dir: seq!["tables"@, sec.header.schema],
        file: sql_file_name(sec.header.name),
        content: sec.body,
        mode: WriteMode::Overwrite,
    }
}

/// The action for one function section: as for a table, but under
/// `functions/<namespace>/`, or `tests/functions/<namespace>/` when the
/// declared name contains `test_`.
pub open spec fn function_action(sec: SectionV) -> ActionV {
    let dir: Seq<Seq<char>> = if contains_pat(sec.header.name, "test_"@) {
        seq!["tests"@, "functions"@, sec.header.schema]
    } else {
        seq!["functions"@, sec.header.schema]
    };
    ActionV {
        dir,
        file: sql_file_name(sec.header.name),
        content: sec.body,
        mode: WriteMode::Overwrite,
    }
}

/// The action for one type section: as for a table, under
/// `types/<namespace>/`.
pub open spec fn type_action(sec: SectionV) -> ActionV {
    ActionV {
        dir: seq!["types"@, sec.header.schema],
        file: sql_file_name(sec.header.name),
        content: sec.body,
        mode: WriteMode::Overwrite,
    }
}

/// The action for a constraint or index section whose body targets
/// `table`: append the body, followed by one newline, onto
/// `tables/<namespace>/<table>.sql`.
pub open spec fn append_action(sec: SectionV, table: Seq<char>) -> ActionV {
    ActionV {
        dir: seq!["tables"@, sec.header.schema],
        file: sql_file_name(table),
        content: sec.body + "\n"@,
        mode: WriteMode::Append,
    }
}

/// The actions of all table sections, in dump order.
pub open spec fn tables_plan(secs: Seq<SectionV>) -> Seq<ActionV> {
    secs.map_values(|s: SectionV| table_action(s))
}

/// The actions of all function sections, in dump order.
pub open spec fn functions_plan(secs: Seq<SectionV>) -> Seq<ActionV> {
    secs.map_values(|s: SectionV| function_action(s))
}

/// The actions of all type sections, in dump order.
pub open spec fn types_plan(secs: Seq<SectionV>) -> Seq<ActionV> {
    secs.map_values(|s: SectionV| type_action(s))
}

/// The append actions of the constraint sections, in dump order, stopping
/// at the first body whose table cannot be recovered: the actions planned
/// before it stand, nothing after it is planned, and the error is carried.
pub open spec fn constraints_plan(secs: Seq<SectionV>) -> (Seq<ActionV>, Option<PlanError>)
    decreases secs.len(),
{
    if secs.len() == 0 {
        (Seq::<ActionV>::empty(), None::<PlanError>)
    } else {
        match constraint_target(secs[0].body) {
            Ok(t) => {
                let rest = constraints_plan(secs.drop_first());
                (seq![append_action(secs[0], t)] + rest.0, rest.1)
            },
            Err(e) => (Seq::<ActionV>::empty(), Some(e)),
        }
    }
}

/// The append actions of the index sections, as for constraints.
pub open spec fn indexes_plan(secs: Seq<SectionV>) -> (Seq<ActionV>, Option<PlanError>)
    decreases secs.len(),
{
    if secs.len() == 0 {
        (Seq::<ActionV>::empty(), None::<PlanError>)
    } else {
        match index_target(secs[0].body) {
            Ok(t) => {
                let rest = indexes_plan(secs.drop_first());
                (seq![append_action(secs[0], t)] + rest.0, rest.1)
            },
            Err(e) => (Seq::<ActionV>::empty(), Some(e)),
        }
    }
}

/// The one-file-per-section actions: tables, then functions, then types.
pub open spec fn base_plan(m: crate::schema::SchemaV) -> Seq<ActionV> {
    tables_plan(m.tables) + functions_plan(m.functions) + types_plan(m.types)
}

/// The whole write plan of a model, in write order (tables, functions,
/// types, constraints, indexes), together with the error that aborted it,
/// if any: a constraint or index body of unknown shape ends the plan at
/// that section, with everything planned before it kept. Comment and
/// general sections are bucketed by the parser but never written.
pub open spec fn write_plan_spec(m: crate::schema::SchemaV) -> (Seq<ActionV>, Option<PlanError>) {
    let cons = constraints_plan(m.constraints);
    if cons.1 is Some {
        (base_plan(m) + cons.0, cons.1)
    } else {
        let idx = indexes_plan(m.indexes);
        (base_plan(m) + cons.0 + idx.0, idx.1)
    }
}

/// The table a constraint body targets, or why it cannot be recovered.
pub fn resolve_constraint_target(body: &[char]) -> (r: Result<Vec<char>, PlanError>)
    ensures
        match r {
            Ok(t) => constraint_target(body@) == Ok::<Seq<char>, PlanError>(t@),
            Err(e) => constraint_target(body@) == Err::<Seq<char>, PlanError>(e),
        },
{
    proof {
        reveal_strlit("\n");
        reveal_strlit(".");
    }
    let b = drop_newlines_exec(body);
    let pre = chars_of("ALTER TABLE ONLY");
    if !has_prefix_exec(b.as_slice(), pre.as_slice()) {
        return Err(PlanError::ConstraintFormatUnknown);
    }
    let after = subrange_vec(b.as_slice(), pre.len(), b.len());
    let nl = chars_of("\n");
    let line = match find_sub(after.as_slice(), nl.as_slice(), 0) {
        Some(i) => {
            proof {
                lemma_find_from_bounds(after@, "\n"@, 0);
            }
            subrange_vec(after.as_slice(), 0, i)
        },
        None => after,
    };
    let dot = chars_of(".");
    let parts = split_on_exec(line.as_slice(), dot.as_slice());
    if parts.len() < 2 {
        return Err(PlanError::ConstraintTargetUnparsed);
    }
    proof {
        assert(parts.deep_view()[1] =~= parts@[1]@);
    }
    let t = &parts[1];
    let trimmed = trim_ws_exec(t.as_slice());
    Ok(remove_quotes_exec(trimmed.as_slice()))
}

/// The table an index body targets, or why it cannot be recovered.
pub fn resolve_index_target(body: &[char]) -> (r: Result<Vec<char>, PlanError>)
    ensures
        match r {
            Ok(t) => index_target(body@) == Ok::<Seq<char>, PlanError>(t@),
            Err(e) => index_target(body@) == Err::<Seq<char>, PlanError>(e),
        },
{
    proof {
        reveal_strlit(" ON ");
        reveal_strlit(".");
    }
    let b = drop_newlines_exec(body);
    let on_pat = chars_of(" ON ");
    let i = match find_sub(b.as_slice(), on_pat.as_slice(), 0) {
        Some(i) => i,
        None => {
            return Err(PlanError::IndexMissingOnClause);
        },
    };
    proof {
        lemma_find_from_bounds(b@, " ON "@, 0);
    }
    let blen = b.len();
    let rest = subrange_vec(b.as_slice(), i + on_pat.len(), blen);
    let tok = match first_token_exec(rest.as_slice()) {
        Some(tok) => tok,
        None => {
            return Err(PlanError::IndexMissingTableName);
        },
    };
    let dot = chars_of(".");
    let parts = split_on_exec(tok.as_slice(), dot.as_slice());
    if parts.len() < 2 {
        return Err(PlanError::IndexTargetUnparsed);
    }
    proof {
        assert(parts.deep_view()[1] =~= parts@[1]@);
    }
    let t = &parts[1];
    let trimmed = trim_ws_exec(t.as_slice());
    Ok(remove_quotes_exec(trimmed.as_slice()))
}

/// Build the action for one table section.
fn table_action_exec(sec: &SchemaSection) -> (a: WriteAction)
    ensures
        a@ == table_action(sec@),
{
    let mut dir: Vec<Vec<char>> = Vec::new();
    dir.push(chars_of("tables"));
    dir.push(copy_chars(sec.header.schema.as_slice()));
    let mut file = copy_chars(sec.header.name.as_slice());
    push_str_chars(&mut file, ".sql");
    let content = copy_chars(sec.body.as_slice());
    let a = WriteAction { dir, file, content, mode: WriteMode::Overwrite };
    proof {
        assert(a.dir.deep_view() =~~= seq!["tables"@, sec.header.schema@]);
    }
    a
}

/// Build the action for one function section.
fn function_action_exec(sec: &SchemaSection) -> (a: WriteAction)
    ensures
        a@ == function_action(sec@),
{
    let test_pat = chars_of("test_");
    let mut dir: Vec<Vec<char>> = Vec::new();
    let is_test = contains_sub(sec.header.name.as_slice(), test_pat.as_slice());
    if is_test {
        dir.push(chars_of("tests"));
        dir.push(chars_of("functions"));
        dir.push(copy_chars(sec.header.schema.as_slice()));
    } else {
        dir.push(chars_of("functions"));
        dir.push(copy_chars(sec.header.schema.as_slice()));
    }
    let mut file = copy_chars(sec.header.name.as_slice());
    push_str_chars(&mut file, ".sql");
    let content = copy_chars(sec.body.as_slice());
    let a = WriteAction { dir, file, content, mode: WriteMode::Overwrite };
    proof {
        if contains_pat(sec.header.name@, "test_"@) {
            assert(a.dir.deep_view() =~~= seq!["tests"@, "functions"@, sec.header.schema@]);
        } else {
            assert(a.dir.deep_view() =~~= seq!["functions"@, sec.header.schema@]);
        }
    }
    a
}

/// Build the action for one type section.
fn type_action_exec(sec: &SchemaSection) -> (a: WriteAction)
    ensures
        a@ == type_action(sec@),
{
    let mut dir: Vec<Vec<char>> = Vec::new();
    dir.push(chars_of("types"));
    dir.push(copy_chars(sec.header.schema.as_slice()));
    let mut file = copy_chars(sec.header.name.as_slice());
    push_str_chars(&mut file, ".sql");
    let content = copy_chars(sec.body.as_slice());
    let a = WriteAction { dir, file, content, mode: WriteMode::Overwrite };
    proof {
        assert(a.dir.deep_view() =~~= seq!["types"@, sec.header.schema@]);
    }
    a
}

/// Build the append action for a constraint or index section targeting
/// `table`.
fn append_action_exec(sec: &SchemaSection, table: Vec<char>) -> (a: WriteAction)
    ensures
        a@ == append_action(sec@, table@),
{
    let mut dir: Vec<Vec<char>> = Vec::new();
    dir.push(chars_of("tables"));
    dir.push(copy_chars(sec.header.schema.as_slice()));
    let mut file = table;
    let ghost table_chars = file@;
    push_str_chars(&mut file, ".sql");
    let mut content = copy_chars(sec.body.as_slice());
    push_str_chars(&mut content, "\n");
    let a = WriteAction { dir, file, content, mode: WriteMode::Append };
    proof {
        assert(a.dir.deep_view() =~~= seq!["tables"@, sec.header.schema@]);
        assert(a@ == append_action(sec@, table_chars));
    }
    a
}

/// Plan the constraint appends, stopping at the first unrecoverable body.
fn constraints_plan_exec(secs: &Vec<SchemaSection>) -> (r: (Vec<WriteAction>, Option<PlanError>))
    ensures
        plan_view(r.0@) == constraints_plan(bucket_view(secs@)).0,
        r.1 == constraints_plan(bucket_view(secs@)).1,
{
    let ghost full = bucket_view(secs@);
    let mut acts: Vec<WriteAction> = Vec::new();
    let mut i: usize = 0;
    proof {
        assert(full.skip(0) =~= full);
        assert(plan_view(acts@) + constraints_plan(full).0 =~= constraints_plan(full).0);
    }
    while i < secs.len()
        invariant
            0 <= i <= secs@.len(),
            full == bucket_view(secs@),
            constraints_plan(full).0 == plan_view(acts@) + constraints_plan(
                full.skip(i as int),
            ).0,
            constraints_plan(full).1 == constraints_plan(full.skip(i as int)).1,
        decreases secs@.len() - i,
    {
        let ghost rest = full.skip(i as int);
        let ghost prev = plan_view(acts@);
        proof {
            assert(rest.len() > 0);
            assert(rest[0] == full[i as int]);
            assert(rest.drop_first() =~= full.skip(i as int + 1));
            assert(rest[0].body == secs@[i as int]@.body);
        }
        let sec = &secs[i];
        match resolve_constraint_target(sec.body.as_slice()) {
            Ok(t) => {
                let ghost tview = t@;
                let a = append_action_exec(sec, t);
                acts.push(a);
                proof {
                    assert(plan_view(acts@) =~= prev.push(a@));
                    assert(a@ == append_action(rest[0], tview));
                    assert(constraints_plan(rest).0 == seq![append_action(rest[0], tview)]
                        + constraints_plan(rest.drop_first()).0);
                    assert(prev + constraints_plan(rest).0 =~= plan_view(acts@)
                        + constraints_plan(rest.drop_first()).0);
                }
                i = i + 1;
            },
            Err(e) => {
                proof {
                    assert(constraints_plan(rest).0 =~= Seq::<ActionV>::empty());
                    assert(plan_view(acts@) + Seq::<ActionV>::empty() =~= plan_view(acts@));
                }
                return (acts, Some(e));
            },
        }
    }
    proof {
        assert(full.skip(i as int) =~= Seq::<SectionV>::empty());
        assert(plan_view(acts@) + Seq::<ActionV>::empty() =~= plan_view(acts@));
    }
    (acts, None)
}

/// Plan the index appends, stopping at the first unrecoverable body.
fn indexes_plan_exec(secs: &Vec<SchemaSection>) -> (r: (Vec<WriteAction>, Option<PlanError>))
    ensures
        plan_view(r.0@) == indexes_plan(bucket_view(secs@)).0,
        r.1 == indexes_plan(bucket_view(secs@)).1,
{
    let ghost full = bucket_view(secs@);
    let mut acts: Vec<WriteAction> = Vec::new();
    let mut i: usize = 0;
    proof {
        assert(full.skip(0) =~= full);
        assert(plan_view(acts@) + indexes_plan(full).0 =~= indexes_plan(full).0);
    }
    while i < secs.len()
        invariant
            0 <= i <= secs@.len(),
            full == bucket_view(secs@),
            indexes_plan(full).0 == plan_view(acts@) + indexes_plan(full.skip(i as int)).0,
            indexes_plan(full).1 == indexes_plan(full.skip(i as int)).1,
        decreases secs@.len() - i,
    {
        let ghost rest = full.skip(i as int);
        let ghost prev = plan_view(acts@);
        proof {
            assert(rest.len() > 0);
            assert(rest[0] == full[i as int]);
            assert(rest.drop_first() =~= full.skip(i as int + 1));
            assert(rest[0].body == secs@[i as int]@.body);
        }
        let sec = &secs[i];
        match resolve_index_target(sec.body.as_slice()) {
            Ok(t) => {
                let ghost tview = t@;
                let a = append_action_exec(sec, t);
                acts.push(a);
                proof {
                    assert(plan_view(acts@) =~= prev.push(a@));
                    assert(a@ == append_action(rest[0], tview));
                    assert(indexes_plan(rest).0 == seq![append_action(rest[0], tview)]
                        + indexes_plan(rest.drop_first()).0);
                    assert(prev + indexes_plan(rest).0 =~= plan_view(acts@) + indexes_plan(
                        rest.drop_first(),
                    ).0);
                }
                i = i + 1;
            },
            Err(e) => {
                proof {
                    assert(indexes_plan(rest).0 =~= Seq::<ActionV>::empty());
                    assert(plan_view(acts@) + Seq::<ActionV>::empty() =~= plan_view(acts@));
                }
                return (acts, Some(e));
            },
        }
    }
    proof {
        assert(full.skip(i as int) =~= Seq::<SectionV>::empty());
        assert(plan_view(acts@) + Seq::<ActionV>::empty() =~= plan_view(acts@));
    }
    (acts, None)
}

impl Schema {
    /// The full write plan of this model, with the error that aborted it,
    /// if any. The actions up to the first failing constraint or index
    /// section are always returned, so a caller that performs them in
    /// order reproduces the abort-in-place behavior: everything planned
    /// before the failure is on disk, nothing after it is touched.
    pub fn write_plan(&self) -> (r: (Vec<WriteAction>, Option<PlanError>))
        ensures
            plan_view(r.0@) == write_plan_spec(self@).0,
            r.1 == write_plan_spec(self@).1,
    {
        let mut acts: Vec<WriteAction> = Vec::new();
        let ghost tv = bucket_view(self.tables@);
        let ghost fv = bucket_view(self.functions@);
        let ghost yv = bucket_view(self.types@);
        let mut i: usize = 0;
        proof {
            assert(plan_view(acts@) =~= tables_plan(tv.take(0)));
        }
        while i < self.tables.len()
            invariant
                0 <= i <= self.tables@.len(),
                tv == bucket_view(self.tables@),
                plan_view(acts@) == tables_plan(tv.take(i as int)),
            decreases self.tables@.len() - i,
        {
            let ghost prev = plan_view(acts@);
            let a = table_action_exec(&self.tables[i]);
            acts.push(a);
            i = i + 1;
            proof {
                assert(plan_view(acts@) =~= prev.push(a@));
                assert(tables_plan(tv.take(i as int)) =~= tables_plan(
                    tv.take(i as int - 1),
                ).push(table_action(tv[i as int - 1])));
            }
        }
        proof {
            assert(tv.take(self.tables@.len() as int) =~= tv);
            assert(plan_view(acts@) + functions_plan(fv.take(0)) =~= plan_view(acts@));
        }
        let mut j: usize = 0;
        while j < self.functions.len()
            invariant
                0 <= j <= self.functions@.len(),
                tv == bucket_view(self.tables@),
                fv == bucket_view(self.functions@),
                plan_view(acts@) == tables_plan(tv) + functions_plan(fv.take(j as int)),
            decreases self.functions@.len() - j,
        {
            let ghost prev = plan_view(acts@);
            let a = function_action_exec(&self.functions[j]);
            acts.push(a);
            j = j + 1;
            proof {
                assert(plan_view(acts@) =~= prev.push(a@));
                assert(functions_plan(fv.take(j as int)) =~= functions_plan(
                    fv.take(j as int - 1),
                ).push(function_action(fv[j as int - 1])));
                assert(plan_view(acts@) =~= tables_plan(tv) + functions_plan(fv.take(j as int)));
            }
        }
        proof {
            assert(fv.take(self.functions@.len() as int) =~= fv);
            assert(plan_view(acts@) + types_plan(yv.take(0)) =~= plan_view(acts@));
        }
        let mut k: usize = 0;
        while k < self.types.len()
            invariant
                0 <= k <= self.types@.len(),
                tv == bucket_view(self.tables@),
                fv == bucket_view(self.functions@),
                yv == bucket_view(self.types@),
                plan_view(acts@) == tables_plan(tv) + functions_plan(fv) + types_plan(
                    yv.take(k as int),
                ),
            decreases self.types@.len() - k,
        {
            let ghost prev = plan_view(acts@);
            let a = type_action_exec(&self.types[k]);
            acts.push(a);
            k = k + 1;
            proof {
                assert(plan_view(acts@) =~= prev.push(a@));
                assert(types_plan(yv.take(k as int)) =~= types_plan(yv.take(k as int - 1)).push(
                    type_action(yv[k as int - 1]),
                ));
                assert(plan_view(acts@) =~= tables_plan(tv) + functions_plan(fv) + types_plan(
                    yv.take(k as int),
                ));
            }
        }
        proof {
            assert(yv.take(self.types@.len() as int) =~= yv);
            assert(plan_view(acts@) == base_plan(self@));
        }
        let ghost base = plan_view(acts@);
        let (mut ca, cerr) = constraints_plan_exec(&self.constraints);
        let ghost cav = plan_view(ca@);
        acts.append(&mut ca);
        proof {
            assert(plan_view(acts@) =~= base + cav);
        }
        match cerr {
            Some(e) => (acts, Some(e)),
            None => {
                let ghost sofar = plan_view(acts@);
                let (mut ia, ierr) = indexes_plan_exec(&self.indexes);
                let ghost iav = plan_view(ia@);
                acts.append(&mut ia);
                proof {
                    assert(plan_view(acts@) =~= sofar + iav);
                }
                (acts, ierr)
            },
        }
    }
}

} // verus!
