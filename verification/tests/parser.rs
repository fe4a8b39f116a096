use schema_split::kinds::Bucket;
use schema_split::kinds::ObjectType;
use schema_split::schema::Schema;

fn cv(s: &str) -> Vec<char> {
    s.chars().collect()
}

fn sv(v: &[char]) -> String {
    v.iter().collect()
}

#[test]
fn single_table_section_is_parsed() {
    let dump = "preamble\n--\n-- Name: orders; Type: TABLE; Schema: public; Owner: admin\n--\n\nCREATE TABLE public.orders (id integer);\n\n";
    let schema = Schema::from_str(dump);
    assert_eq!(schema.tables.len(), 1);
    assert_eq!(sv(&schema.tables[0].header.name), "orders");
    assert_eq!(schema.tables[0].header.object_type, ObjectType::Table);
    assert_eq!(sv(&schema.tables[0].header.schema), "public");
    assert_eq!(sv(&schema.tables[0].header.owner), "admin");
    assert_eq!(sv(&schema.tables[0].body), "\nCREATE TABLE public.orders (id integer);\n\n");
    assert_eq!(schema.functions.len(), 0);
    assert_eq!(schema.types.len(), 0);
    assert_eq!(schema.constraints.len(), 0);
    assert_eq!(schema.indexes.len(), 0);
}

#[test]
fn function_signature_suffix_is_stripped() {
    let dump = "x\n--\n-- Name: cleanup(integer, text); Type: FUNCTION; Schema: jobs; Owner: admin\n--\nCREATE FUNCTION ...;";
    let schema = Schema::from_str(dump);
    assert_eq!(schema.functions.len(), 1);
    assert_eq!(sv(&schema.functions[0].header.name), "cleanup");
}

#[test]
fn bucket_sizes_sum_to_at_most_pair_count() {
    // Four header/body pairs, one of an unrecognized kind (SEQUENCE): the
    // bucket sizes must sum to three, strictly less than four.
    let dump = "intro\n--\n-- Name: orders; Type: TABLE; Schema: public; Owner: a\n--\nbody1\n--\n-- Name: orders_id_seq; Type: SEQUENCE; Schema: public; Owner: a\n--\nbody2\n--\n-- Name: status; Type: TYPE; Schema: public; Owner: a\n--\nbody3\n--\n-- Name: touch; Type: TRIGGER; Schema: public; Owner: a\n--\nbody4\n--\n-- PostgreSQL database dump complete\n--\n";
    let schema = Schema::from_str(dump);
    let sum = schema.tables.len() + schema.types.len() + schema.functions.len()
        + schema.constraints.len() + schema.indexes.len() + schema.comments.len()
        + schema.general.len();
    assert_eq!(sum, 3);
    assert!(sum <= 4);
    assert_eq!(schema.tables.len(), 1);
    assert_eq!(schema.types.len(), 1);
    assert_eq!(schema.functions.len(), 1);
}

#[test]
fn header_missing_owner_is_dropped_silently() {
    let dump = "x\n--\n-- Name: orders; Type: TABLE; Schema: public\n--\nCREATE TABLE public.orders ();";
    let schema = Schema::from_str(dump);
    assert_eq!(schema.tables.len(), 0);
    assert_eq!(schema.types.len(), 0);
    assert_eq!(schema.functions.len(), 0);
    assert_eq!(schema.constraints.len(), 0);
    assert_eq!(schema.indexes.len(), 0);
    assert_eq!(schema.comments.len(), 0);
    assert_eq!(schema.general.len(), 0);
}

#[test]
fn unrecognized_kinds_are_dropped() {
    let dump = "x\n--\n-- Name: s; Type: SEQUENCE; Schema: p; Owner: a\n--\nb1\n--\n-- Name: s; Type: SEQUENCE OWNED BY; Schema: p; Owner: a\n--\nb2\n--\n-- Name: s; Type: ACL; Schema: p; Owner: a\n--\nb3\n--\n-- Name: s; Type: SCHEMA; Schema: p; Owner: a\n--\nb4\n--\n-- Name: s; Type: DEFAULT ACL; Schema: p; Owner: a\n--\nb5\n";
    let schema = Schema::from_str(dump);
    let sum = schema.tables.len() + schema.types.len() + schema.functions.len()
        + schema.constraints.len() + schema.indexes.len() + schema.comments.len()
        + schema.general.len();
    assert_eq!(sum, 0);
}

#[test]
fn recognized_kinds_reach_their_buckets() {
    let dump = "x\n--\n-- Name: d; Type: DOMAIN; Schema: p; Owner: a\n--\nb1\n--\n-- Name: c; Type: FK CONSTRAINT; Schema: p; Owner: a\n--\nb2\n--\n-- Name: i; Type: INDEX; Schema: p; Owner: a\n--\nb3\n--\n-- Name: e; Type: EXTENSION; Schema: p; Owner: a\n--\nb4\n--\n-- Name: m; Type: COMMENT; Schema: p; Owner: a\n--\nb5\n--\n-- Name: v; Type: DEFAULT; Schema: p; Owner: a\n--\nb6\n";
    let schema = Schema::from_str(dump);
    assert_eq!(schema.types.len(), 1);
    assert_eq!(schema.constraints.len(), 1);
    assert_eq!(schema.indexes.len(), 1);
    assert_eq!(schema.general.len(), 2);
    assert_eq!(schema.comments.len(), 1);
}

#[test]
fn dangling_header_without_body_is_dropped() {
    let dump = "x\n--\n-- Name: orders; Type: TABLE; Schema: public; Owner: a";
    let schema = Schema::from_str(dump);
    assert_eq!(schema.tables.len(), 0);
}

#[test]
fn object_type_tokens_round_trip() {
    let kinds = [
        ObjectType::Table,
        ObjectType::FkConstraint,
        ObjectType::Type,
        ObjectType::Trigger,
        ObjectType::Sequence,
        ObjectType::Function,
        ObjectType::Comment,
        ObjectType::DefaultAcl,
        ObjectType::Index,
        ObjectType::Extension,
        ObjectType::Schema,
        ObjectType::Domain,
        ObjectType::Default,
        ObjectType::Constraint,
        ObjectType::Acl,
        ObjectType::SequenceOwnedBy,
    ];
    for k in kinds {
        let token = cv(k.as_str());
        assert_eq!(ObjectType::from_token(&token), Some(k));
    }
    assert_eq!(ObjectType::Table.as_str(), "TABLE");
    assert_eq!(ObjectType::SequenceOwnedBy.as_str(), "SEQUENCE OWNED BY");
    assert_eq!(ObjectType::from_token(&cv("VIEW")), None);
}

#[test]
fn bucket_mapping_matches_the_layout() {
    assert_eq!(ObjectType::Table.bucket(), Some(Bucket::Tables));
    assert_eq!(ObjectType::Domain.bucket(), Some(Bucket::Types));
    assert_eq!(ObjectType::Trigger.bucket(), Some(Bucket::Functions));
    assert_eq!(ObjectType::FkConstraint.bucket(), Some(Bucket::Constraints));
    assert_eq!(ObjectType::Index.bucket(), Some(Bucket::Indexes));
    assert_eq!(ObjectType::Comment.bucket(), Some(Bucket::Comments));
    assert_eq!(ObjectType::Extension.bucket(), Some(Bucket::General));
    assert_eq!(ObjectType::Sequence.bucket(), None);
    assert_eq!(ObjectType::Acl.bucket(), None);
}
