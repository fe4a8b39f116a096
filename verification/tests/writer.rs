use std::collections::HashMap;

use schema_split::plan::PlanError;
use schema_split::plan::WriteAction;
use schema_split::plan::WriteMode;
use schema_split::plan::resolve_constraint_target;
use schema_split::plan::resolve_index_target;
use schema_split::schema::Schema;

fn cv(s: &str) -> Vec<char> {
    s.chars().collect()
}

fn sv(v: &[char]) -> String {
    v.iter().collect()
}

fn path_of(a: &WriteAction) -> String {
    let mut p = String::new();
    for seg in &a.dir {
        p.push_str(&sv(seg));
        p.push('/');
    }
    p.push_str(&sv(&a.file));
    p
}

/// The destination tree, modelled in memory: overwrite replaces a file's
/// content, append adds at its end, creating it when absent.
fn apply(files: &mut HashMap<String, String>, actions: &[WriteAction]) {
    for a in actions {
        let path = path_of(a);
        let content = sv(&a.content);
        match a.mode {
            WriteMode::Overwrite => {
                files.insert(path, content);
            },
            WriteMode::Append => {
                files.entry(path).or_insert_with(String::new).push_str(&content);
            },
        }
    }
}

#[test]
fn table_write_round_trips_verbatim() {
    let body = "\nCREATE TABLE public.orders (\n    id integer\n);\n\n";
    let dump = format!(
        "x\n--\n-- Name: orders; Type: TABLE; Schema: public; Owner: a\n--\n{}",
        body
    );
    let (actions, err) = Schema::from_str(&dump).write_plan();
    assert!(err.is_none());
    assert_eq!(actions.len(), 1);
    assert_eq!(path_of(&actions[0]), "tables/public/orders.sql");
    assert!(matches!(actions[0].mode, WriteMode::Overwrite));
    let mut files = HashMap::new();
    apply(&mut files, &actions);
    assert_eq!(files["tables/public/orders.sql"], body);
}

#[test]
fn writing_tables_twice_is_idempotent() {
    let dump = "x\n--\n-- Name: orders; Type: TABLE; Schema: public; Owner: a\n--\nbody1\n--\n-- Name: users; Type: TABLE; Schema: public; Owner: a\n--\nbody2\n";
    let (actions, err) = Schema::from_str(dump).write_plan();
    assert!(err.is_none());
    let mut once = HashMap::new();
    apply(&mut once, &actions);
    let mut twice = HashMap::new();
    apply(&mut twice, &actions);
    apply(&mut twice, &actions);
    assert_eq!(once, twice);
}

#[test]
fn appending_twice_doubles_the_content() {
    let body = "\nALTER TABLE ONLY public.orders\n    ADD CONSTRAINT orders_pkey PRIMARY KEY (id);\n";
    let dump = format!(
        "x\n--\n-- Name: orders_pkey; Type: CONSTRAINT; Schema: public; Owner: a\n--\n{}",
        body
    );
    let (actions, err) = Schema::from_str(&dump).write_plan();
    assert!(err.is_none());
    assert_eq!(actions.len(), 1);
    assert!(matches!(actions[0].mode, WriteMode::Append));
    let mut files = HashMap::new();
    apply(&mut files, &actions);
    let after_once = files["tables/public/orders.sql"].clone();
    assert_eq!(after_once, format!("{}\n", body));
    apply(&mut files, &actions);
    let after_twice = files["tables/public/orders.sql"].clone();
    assert_eq!(after_twice, format!("{}\n{}\n", body, body));
}

#[test]
fn test_prefixed_function_lands_under_tests() {
    let dump = "x\n--\n-- Name: test_cleanup; Type: FUNCTION; Schema: jobs; Owner: a\n--\nCREATE FUNCTION ...;\n--\n-- Name: cleanup; Type: FUNCTION; Schema: jobs; Owner: a\n--\nCREATE FUNCTION ...;\n";
    let (actions, err) = Schema::from_str(dump).write_plan();
    assert!(err.is_none());
    assert_eq!(actions.len(), 2);
    assert_eq!(path_of(&actions[0]), "tests/functions/jobs/test_cleanup.sql");
    assert_eq!(path_of(&actions[1]), "functions/jobs/cleanup.sql");
}

#[test]
fn type_section_lands_under_types() {
    let dump = "x\n--\n-- Name: status; Type: TYPE; Schema: public; Owner: a\n--\nCREATE TYPE ...;\n";
    let (actions, err) = Schema::from_str(dump).write_plan();
    assert!(err.is_none());
    assert_eq!(actions.len(), 1);
    assert_eq!(path_of(&actions[0]), "types/public/status.sql");
}

#[test]
fn constraint_body_resolves_to_owning_table_file() {
    let dump = "x\n--\n-- Name: orders_pkey; Type: CONSTRAINT; Schema: public; Owner: a\n--\n\nALTER TABLE ONLY public.orders\n    ADD CONSTRAINT orders_pkey PRIMARY KEY (id);\n";
    let (actions, err) = Schema::from_str(dump).write_plan();
    assert!(err.is_none());
    assert_eq!(actions.len(), 1);
    assert_eq!(path_of(&actions[0]), "tables/public/orders.sql");
}

#[test]
fn index_body_resolves_to_owning_table_file() {
    let dump = "x\n--\n-- Name: idx_foo; Type: INDEX; Schema: public; Owner: a\n--\n\nCREATE INDEX idx_foo ON public.orders USING btree (id);\n";
    let (actions, err) = Schema::from_str(dump).write_plan();
    assert!(err.is_none());
    assert_eq!(actions.len(), 1);
    assert_eq!(path_of(&actions[0]), "tables/public/orders.sql");
}

#[test]
fn quoted_table_names_lose_their_quotes() {
    let target = resolve_constraint_target(&cv(
        "\nALTER TABLE ONLY public.\"Orders\"\n    ADD CONSTRAINT c FOREIGN KEY (id);\n",
    ))
    .unwrap();
    assert_eq!(sv(&target), "Orders");
    let target = resolve_index_target(&cv(
        "\nCREATE INDEX i ON public.\"Orders\" USING btree (id);\n",
    ))
    .unwrap();
    assert_eq!(sv(&target), "Orders");
}

#[test]
fn malformed_constraint_aborts_the_pass() {
    // The first constraint body lacks the `ALTER TABLE ONLY` prefix: the
    // pass must stop there, planning nothing for the later constraint nor
    // for the index.
    let dump = "x\n--\n-- Name: t; Type: TABLE; Schema: public; Owner: a\n--\nbody\n--\n-- Name: bad; Type: CONSTRAINT; Schema: public; Owner: a\n--\nADD CONSTRAINT broken;\n--\n-- Name: good; Type: CONSTRAINT; Schema: public; Owner: a\n--\nALTER TABLE ONLY public.t ADD CONSTRAINT ok;\n--\n-- Name: i; Type: INDEX; Schema: public; Owner: a\n--\nCREATE INDEX i ON public.t (id);\n";
    let (actions, err) = Schema::from_str(dump).write_plan();
    assert_eq!(err, Some(PlanError::ConstraintFormatUnknown));
    assert_eq!(actions.len(), 1);
    assert_eq!(path_of(&actions[0]), "tables/public/t.sql");
}

#[test]
fn constraint_without_dot_reports_target_error() {
    let r = resolve_constraint_target(&cv("\nALTER TABLE ONLY orders\n    ADD CONSTRAINT c;\n"));
    assert_eq!(r, Err(PlanError::ConstraintTargetUnparsed));
}

#[test]
fn index_without_on_clause_reports_error() {
    let r = resolve_index_target(&cv("\nCREATE INDEX idx_foo USING btree (id);\n"));
    assert_eq!(r, Err(PlanError::IndexMissingOnClause));
}

#[test]
fn index_with_nothing_after_on_reports_error() {
    let r = resolve_index_target(&cv("CREATE INDEX idx_foo ON \n"));
    assert_eq!(r, Err(PlanError::IndexMissingTableName));
}

#[test]
fn index_without_dotted_target_reports_error() {
    let r = resolve_index_target(&cv("CREATE INDEX idx_foo ON orders (id);\n"));
    assert_eq!(r, Err(PlanError::IndexTargetUnparsed));
}

#[test]
fn index_target_stops_at_unicode_whitespace() {
    // `split_whitespace` breaks on any Unicode whitespace, a no-break
    // space included.
    let r = resolve_index_target(&cv("CREATE INDEX i ON public.orders\u{a0}USING btree (id);"));
    assert_eq!(sv(&r.unwrap()), "orders");
}

#[test]
fn constraint_target_is_trimmed() {
    let r = resolve_constraint_target(&cv(
        "\nALTER TABLE ONLY public. orders \n    ADD CONSTRAINT c CHECK (id > 0);\n",
    ));
    assert_eq!(sv(&r.unwrap()), "orders");
}

#[test]
fn error_messages_read_as_expected() {
    assert_eq!(PlanError::ConstraintFormatUnknown.message(), "Constraint format unknown");
    assert_eq!(PlanError::ConstraintTargetUnparsed.message(), "Couldn't parse as schema.table");
    assert_eq!(PlanError::IndexMissingOnClause.message(), "no on clause");
    assert_eq!(PlanError::IndexMissingTableName.message(), "no table name");
    assert_eq!(PlanError::IndexTargetUnparsed.message(), "no table name after schema");
}

#[test]
fn buckets_are_written_in_order() {
    let dump = "x\n--\n-- Name: f; Type: FUNCTION; Schema: p; Owner: a\n--\nfb\n--\n-- Name: ty; Type: TYPE; Schema: p; Owner: a\n--\nyb\n--\n-- Name: t; Type: TABLE; Schema: p; Owner: a\n--\ntb\n";
    let (actions, err) = Schema::from_str(dump).write_plan();
    assert!(err.is_none());
    assert_eq!(actions.len(), 3);
    assert_eq!(path_of(&actions[0]), "tables/p/t.sql");
    assert_eq!(path_of(&actions[1]), "functions/p/f.sql");
    assert_eq!(path_of(&actions[2]), "types/p/ty.sql");
}
