//! What holds of the parser and the planned writes, stated over the
//! mathematical models and proved once for all inputs: how bucket sizes
//! relate to the number of header/body pairs, what a planned write pass
//! leaves in a modelled filesystem, when re-running it changes nothing,
//! when it doubles content, and how a malformed body stops the pass.

use vstd::prelude::*;
use crate::header::HeaderV;
use crate::header::parse_header;
use crate::plan::ActionV;
use crate::plan::PlanError;
use crate::plan::WriteMode;
use crate::plan::append_action;
use crate::plan::base_plan;
use crate::plan::constraint_target;
use crate::plan::constraints_plan;
use crate::plan::indexes_plan;
use crate::plan::sql_file_name;
use crate::plan::table_action;
use crate::plan::tables_plan;
use crate::plan::functions_plan;
use crate::plan::types_plan;
use crate::plan::write_plan_spec;
use crate::schema::SchemaV;
use crate::schema::SectionV;
use crate::schema::empty_model;
use crate::schema::model_add;
use crate::schema::parse_dump;
use crate::schema::parse_fragments;
use crate::scan::split_on;

verus! {

// ---------------------------------------------------------------------
// A model of the destination tree: a map from file path (the segments
// under the root) to file content. Creating directories has no effect in
// the model; an overwrite replaces the content whole; an append adds at
// the end of what is there, starting from empty when the file is absent.
// ---------------------------------------------------------------------
/// The path an action writes: its directory segments plus its file name.
pub open spec fn action_path(a: ActionV) -> Seq<Seq<char>> {
    a.dir.push(a.file)
}

/// One action applied to the modelled tree.
pub open spec fn apply_action(
    fs: Map<Seq<Seq<char>>, Seq<char>>,
    a: ActionV,
) -> Map<Seq<Seq<char>>, Seq<char>> {
    match a.mode {
        WriteMode::Overwrite => fs.insert(action_path(a), a.content),
        WriteMode::Append => {
            let prior: Seq<char> = if fs.dom().contains(action_path(a)) {
                fs[action_path(a)]
            } else {
                Seq::empty()
            };
            fs.insert(action_path(a), prior + a.content)
        },
    }
}

/// A whole plan applied in order.
pub open spec fn apply_plan(
    fs: Map<Seq<Seq<char>>, Seq<char>>,
    plan: Seq<ActionV>,
) -> Map<Seq<Seq<char>>, Seq<char>>
    decreases plan.len(),
{
    if plan.len() == 0 {
        fs
    } else {
        apply_plan(apply_action(fs, plan[0]), plan.drop_first())
    }
}

proof fn lemma_apply_plan_snoc(fs: Map<Seq<Seq<char>>, Seq<char>>, p: Seq<ActionV>, a: ActionV)
    ensures
        apply_plan(fs, p.push(a)) == apply_action(apply_plan(fs, p), a),
    decreases p.len(),
{
    if p.len() == 0 {
        reveal_with_fuel(apply_plan, 3);
        assert(p.push(a)[0] == a);
        assert(p.push(a).drop_first() =~= Seq::<ActionV>::empty());
    } else {
        assert(p.push(a)[0] == p[0]);
        assert(p.push(a).drop_first() =~= p.drop_first().push(a));
        lemma_apply_plan_snoc(apply_action(fs, p[0]), p.drop_first(), a);
    }
}

/// The content of the last action in `p` that writes `key`, if any.
pub open spec fn last_write(p: Seq<ActionV>, key: Seq<Seq<char>>) -> Option<Seq<char>>
    decreases p.len(),
{
    if p.len() == 0 {
        None
    } else if action_path(p.last()) == key {
        Some(p.last().content)
    } else {
        last_write(p.drop_last(), key)
    }
}

/// Every action of `p` overwrites (none appends).
pub open spec fn all_overwrite(p: Seq<ActionV>) -> bool {
    forall|i: int| 0 <= i < p.len() ==> p[i].mode == WriteMode::Overwrite
}

proof fn lemma_overwrite_lookup(fs: Map<Seq<Seq<char>>, Seq<char>>, p: Seq<ActionV>)
    requires
        all_overwrite(p),
    ensures
        forall|k: Seq<Seq<char>>| #[trigger]
            apply_plan(fs, p).dom().contains(k) <==> (fs.dom().contains(k) || last_write(
                p,
                k,
            ) is Some),
        forall|k: Seq<Seq<char>>| #[trigger]
            apply_plan(fs, p).dom().contains(k) ==> apply_plan(fs, p)[k] == (match last_write(
                p,
                k,
            ) {
                Some(c) => c,
                None => fs[k],
            }),
    decreases p.len(),
{
    if p.len() == 0 {
    } else {
        let q = p.drop_last();
        let a = p.last();
        assert(q.push(a) =~= p);
        assert(all_overwrite(q)) by {
            assert(forall|i: int| 0 <= i < q.len() ==> q[i] == p[i]);
        }
        lemma_overwrite_lookup(fs, q);
        lemma_apply_plan_snoc(fs, q, a);
        assert(apply_plan(fs, p) == apply_action(apply_plan(fs, q), a));
        assert forall|k: Seq<Seq<char>>|
            #[trigger] apply_plan(fs, p).dom().contains(k) <==> (fs.dom().contains(k)
                || last_write(p, k) is Some) by {
            if k != action_path(a) {
                assert(last_write(p, k) == last_write(q, k));
            }
        }
        assert forall|k: Seq<Seq<char>>| #[trigger]
            apply_plan(fs, p).dom().contains(k) implies apply_plan(fs, p)[k] == (
        match last_write(p, k) {
            Some(c) => c,
            None => fs[k],
        }) by {
            if k != action_path(a) {
                assert(last_write(p, k) == last_write(q, k));
                assert(apply_plan(fs, p)[k] == apply_plan(fs, q)[k]);
            }
        }
    }
}

/// Re-running a plan that only overwrites changes nothing: the files are
/// exactly those of the first run.
pub proof fn lemma_overwrite_plan_idempotent(fs: Map<Seq<Seq<char>>, Seq<char>>, p: Seq<ActionV>)
    requires
        all_overwrite(p),
    ensures
        apply_plan(apply_plan(fs, p), p) == apply_plan(fs, p),
{
    let g = apply_plan(fs, p);
    lemma_overwrite_lookup(fs, p);
    lemma_overwrite_lookup(g, p);
    assert(apply_plan(g, p) =~= g);
}

// ---------------------------------------------------------------------
// Laws of the whole write plan.
// ---------------------------------------------------------------------
/// The plan of a model with no constraint and no index section never
/// fails and only overwrites.
pub proof fn lemma_base_plan_overwrites(m: SchemaV)
    requires
        m.constraints.len() == 0,
        m.indexes.len() == 0,
    ensures
        write_plan_spec(m).1 is None,
        write_plan_spec(m).0 == base_plan(m),
        all_overwrite(write_plan_spec(m).0),
{
    assert(constraints_plan(m.constraints).0 =~= Seq::<ActionV>::empty());
    assert(indexes_plan(m.indexes).0 =~= Seq::<ActionV>::empty());
    assert(write_plan_spec(m).0 =~= base_plan(m));
    assert forall|i: int| 0 <= i < base_plan(m).len() implies base_plan(m)[i].mode
        == WriteMode::Overwrite by {
        let tp = tables_plan(m.tables);
        let fp = functions_plan(m.functions);
        let yp = types_plan(m.types);
        if i < tp.len() {
            assert(base_plan(m)[i] == tp[i]);
        } else if i < tp.len() + fp.len() {
            assert(base_plan(m)[i] == fp[i - tp.len()]);
        } else {
            assert(base_plan(m)[i] == yp[i - tp.len() - fp.len()]);
        }
    }
}

/// Writing a dump that holds only table, function and type sections twice
/// into the same root leaves exactly the files of the first run: every
/// such write overwrites, so the pass is idempotent.
pub proof fn lemma_write_twice_idempotent(m: SchemaV, fs0: Map<Seq<Seq<char>>, Seq<char>>)
    requires
        m.constraints.len() == 0,
        m.indexes.len() == 0,
    ensures
        apply_plan(apply_plan(fs0, write_plan_spec(m).0), write_plan_spec(m).0) == apply_plan(
            fs0,
            write_plan_spec(m).0,
        ),
{
    lemma_base_plan_overwrites(m);
    lemma_overwrite_plan_idempotent(fs0, write_plan_spec(m).0);
}

/// Writing a single table section and reading the resulting file back
/// yields the body, byte for byte: nothing is normalized on the way out.
pub proof fn lemma_single_table_round_trip(
    m: SchemaV,
    sec: SectionV,
    fs0: Map<Seq<Seq<char>>, Seq<char>>,
)
    requires
        m.tables == seq![sec],
        m.functions.len() == 0,
        m.types.len() == 0,
        m.constraints.len() == 0,
        m.indexes.len() == 0,
    ensures
        write_plan_spec(m).1 is None,
        apply_plan(fs0, write_plan_spec(m).0).dom().contains(
            seq!["tables"@, sec.header.schema, sql_file_name(sec.header.name)],
        ),
        apply_plan(fs0, write_plan_spec(m).0)[seq!["tables"@, sec.header.schema, sql_file_name(
            sec.header.name,
        )]] == sec.body,
{
    reveal_with_fuel(apply_plan, 3);
    lemma_base_plan_overwrites(m);
    let a = table_action(sec);
    assert(tables_plan(m.tables) =~= seq![a]) by {
        assert(tables_plan(m.tables).len() == 1);
        assert(tables_plan(m.tables)[0] == table_action(m.tables[0]));
    }
    assert(base_plan(m) =~= seq![a]);
    let p = write_plan_spec(m).0;
    assert(p =~= seq![a]);
    assert(p.drop_first() =~= Seq::<ActionV>::empty());
    assert(apply_plan(fs0, p) == apply_action(fs0, a));
    assert(action_path(a) =~= seq!["tables"@, sec.header.schema, sql_file_name(sec.header.name)]);
}

/// Appending is not idempotent: a dump holding one constraint section,
/// written twice into the same root, leaves the recovered table's file
/// holding whatever was there before followed by the body (with its
/// trailing newline) twice.
pub proof fn lemma_append_twice_doubles(
    m: SchemaV,
    sec: SectionV,
    t: Seq<char>,
    fs0: Map<Seq<Seq<char>>, Seq<char>>,
)
    requires
        m.tables.len() == 0,
        m.functions.len() == 0,
        m.types.len() == 0,
        m.indexes.len() == 0,
        m.constraints == seq![sec],
        constraint_target(sec.body) == Ok::<Seq<char>, PlanError>(t),
    ensures
        write_plan_spec(m).1 is None,
        ({
            let p = write_plan_spec(m).0;
            let path = seq!["tables"@, sec.header.schema, sql_file_name(t)];
            let prior: Seq<char> = if fs0.dom().contains(path) {
                fs0[path]
            } else {
                Seq::empty()
            };
            apply_plan(apply_plan(fs0, p), p)[path] == prior + (sec.body + "\n"@) + (sec.body
                + "\n"@)
        }),
{
    reveal_with_fuel(apply_plan, 3);
    reveal_with_fuel(constraints_plan, 3);
    let a = append_action(sec, t);
    assert(m.constraints[0] == sec);
    assert(m.constraints.drop_first() =~= Seq::<SectionV>::empty());
    assert(constraints_plan(m.constraints).0 =~= seq![a]);
    assert(constraints_plan(m.constraints).1 is None);
    assert(indexes_plan(m.indexes).0 =~= Seq::<ActionV>::empty());
    assert(tables_plan(m.tables) =~= Seq::<ActionV>::empty());
    assert(functions_plan(m.functions) =~= Seq::<ActionV>::empty());
    assert(types_plan(m.types) =~= Seq::<ActionV>::empty());
    assert(base_plan(m) =~= Seq::<ActionV>::empty());
    let p = write_plan_spec(m).0;
    assert(p =~= seq![a]);
    assert(p.drop_first() =~= Seq::<ActionV>::empty());
    let path = action_path(a);
    assert(path =~= seq!["tables"@, sec.header.schema, sql_file_name(t)]);
    let fs1 = apply_plan(fs0, p);
    assert(fs1 == apply_action(fs0, a));
    assert(apply_plan(fs1, p) == apply_action(fs1, a));
}

// ---------------------------------------------------------------------
// Laws of the parser: bucket sizes against header/body pairs.
// ---------------------------------------------------------------------
/// The total number of sections the model holds, over all seven buckets.
pub open spec fn bucket_sum(m: SchemaV) -> nat {
    m.tables.len() + m.types.len() + m.functions.len() + m.constraints.len() + m.indexes.len()
        + m.comments.len() + m.general.len()
}

/// How many header/body pairs the state machine emits from `frags`
/// onward, counting every pair whose header parsed, of any kind.
pub open spec fn header_pair_count(frags: Seq<Seq<char>>, pending: Option<HeaderV>) -> nat
    decreases frags.len(),
{
    if frags.len() == 0 {
        0
    } else {
        match pending {
            None => header_pair_count(frags.drop_first(), parse_header(frags[0])),
            Some(h) => 1 + header_pair_count(frags.drop_first(), None),
        }
    }
}

/// As [`header_pair_count`], but counting only pairs of recognized kinds
/// (those routed to a bucket).
pub open spec fn recognized_pair_count(frags: Seq<Seq<char>>, pending: Option<HeaderV>) -> nat
    decreases frags.len(),
{
    if frags.len() == 0 {
        0
    } else {
        match pending {
            None => recognized_pair_count(frags.drop_first(), parse_header(frags[0])),
            Some(h) => (if h.object_type.bucket_spec() is Some {
                1nat
            } else {
                0nat
            }) + recognized_pair_count(frags.drop_first(), None),
        }
    }
}

proof fn lemma_parse_fragments_sum(frags: Seq<Seq<char>>, pending: Option<HeaderV>, m: SchemaV)
    ensures
        bucket_sum(parse_fragments(frags, pending, m)) == bucket_sum(m) + recognized_pair_count(
            frags,
            pending,
        ),
    decreases frags.len(),
{
    if frags.len() == 0 {
    } else {
        match pending {
            None => {
                lemma_parse_fragments_sum(frags.drop_first(), parse_header(frags[0]), m);
            },
            Some(h) => {
                let sec = SectionV { header: h, body: frags[0] };
                assert(bucket_sum(model_add(m, sec)) == bucket_sum(m) + (
                if h.object_type.bucket_spec() is Some {
                    1nat
                } else {
                    0nat
                }));
                lemma_parse_fragments_sum(frags.drop_first(), None, model_add(m, sec));
            },
        }
    }
}

proof fn lemma_recognized_le_pairs(frags: Seq<Seq<char>>, pending: Option<HeaderV>)
    ensures
        recognized_pair_count(frags, pending) <= header_pair_count(frags, pending),
    decreases frags.len(),
{
    if frags.len() == 0 {
    } else {
        match pending {
            None => {
                lemma_recognized_le_pairs(frags.drop_first(), parse_header(frags[0]));
            },
            Some(h) => {
                lemma_recognized_le_pairs(frags.drop_first(), None);
            },
        }
    }
}

/// The bucket sizes of a parsed dump sum to exactly the number of
/// header/body pairs of recognized kinds, and so never exceed the number
/// of header/body pairs; the sum falls strictly short exactly when some
/// pair's kind is not recognized.
pub proof fn lemma_bucket_sizes_bounded(s: Seq<char>)
    ensures
        bucket_sum(parse_dump(s)) == recognized_pair_count(split_on(s, "\n--\n"@), None),
        recognized_pair_count(split_on(s, "\n--\n"@), None) <= header_pair_count(
            split_on(s, "\n--\n"@),
            None,
        ),
{
    lemma_parse_fragments_sum(split_on(s, "\n--\n"@), None, empty_model());
    lemma_recognized_le_pairs(split_on(s, "\n--\n"@), None);
}

// ---------------------------------------------------------------------
// Laws of the abort: a malformed body stops the pass.
// ---------------------------------------------------------------------
proof fn lemma_constraints_plan_stops(secs: Seq<SectionV>, j: int)
    requires
        0 <= j < secs.len(),
        constraint_target(secs[j].body) is Err,
        forall|i: int| 0 <= i < j ==> constraint_target(#[trigger] secs[i].body) is Ok,
    ensures
        constraints_plan(secs).0.len() == j,
        constraints_plan(secs).1 matches Some(e) && constraint_target(secs[j].body)
            == Err::<Seq<char>, PlanError>(e),
    decreases secs.len(),
{
    if j == 0 {
    } else {
        assert(constraint_target(secs[0].body) is Ok);
        assert(forall|i: int|
            0 <= i < j - 1 ==> secs.drop_first()[i] == #[trigger] secs[i + 1]);
        lemma_constraints_plan_stops(secs.drop_first(), j - 1);
    }
}

/// A constraint body whose table cannot be recovered aborts the whole
/// write pass at that section: the plan holds the per-section files and
/// the appends of the constraints before it, nothing else — in
/// particular, no index is ever planned — and the pass reports the error.
pub proof fn lemma_malformed_constraint_aborts(m: SchemaV, j: int)
    requires
        0 <= j < m.constraints.len(),
        constraint_target(m.constraints[j].body) is Err,
        forall|i: int| 0 <= i < j ==> constraint_target(#[trigger] m.constraints[i].body) is Ok,
    ensures
        write_plan_spec(m).1 is Some,
        write_plan_spec(m).0 == base_plan(m) + constraints_plan(m.constraints).0,
        write_plan_spec(m).0.len() == base_plan(m).len() + j,
{
    lemma_constraints_plan_stops(m.constraints, j);
}

} // verus!
