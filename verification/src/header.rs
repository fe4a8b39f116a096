//! The section-header micro-grammar: one line of the form
//! `-- Name: <name>; Type: <kind>; Schema: <namespace>; Owner: <role>`.
//! A fragment that fails any part of this shape is not a header; the
//! parser treats such a fragment as preamble or trailer and drops it.

use vstd::prelude::*;
use crate::kinds::ObjectType;
use crate::kinds::kind_of_token;
use crate::scan::after_prefix;
use crate::scan::chars_of;
use crate::scan::find_sub;
use crate::scan::has_prefix;
use crate::scan::has_prefix_exec;
use crate::scan::lemma_find_from_bounds;
use crate::scan::split_on;
use crate::scan::split_on_exec;
use crate::scan::subrange_vec;
use crate::scan::up_to;

verus! {

/// Mathematical value of a parsed section header.
pub struct HeaderV {
    pub name: Seq<char>,
    pub object_type: ObjectType,
    pub schema: Seq<char>,
    pub owner: Seq<char>,
}

/// A parsed section header: the declared object name (with a parenthesized
/// signature suffix stripped), its kind, its owning namespace and its owning
/// role (the role is kept for format fidelity but never read downstream).
pub struct SchemaHeader {
    pub name: Vec<char>,
    pub object_type: ObjectType,
    pub schema: Vec<char>,
    pub owner: Vec<char>,
}

impl View for SchemaHeader {
    type V = HeaderV;

    open spec fn view(&self) -> HeaderV {
        HeaderV {
            name: self.name@,
            object_type: self.object_type,
            schema: self.schema@,
            owner: self.owner@,
        }
    }
}

/// The header denoted by the fragment `f`, when `f` starts with the comment
/// prefix and holds the four labelled fields in order, separated by `"; "`,
/// with a recognized kind token; `None` otherwise. Fields past the fourth
/// are ignored. The name is cut at the first `(`, which strips an overloaded
/// function's signature suffix.
pub open spec fn parse_header(f: Seq<char>) -> Option<HeaderV> {
    if !has_prefix(f, "-- "@) {
        None
    } else {
        let parts = split_on(after_prefix(f, "-- "@), "; "@);
        if parts.len() < 4 {
            None
        } else if !(has_prefix(parts[0], "Name: "@) && has_prefix(parts[1], "Type: "@)
            && has_prefix(parts[2], "Schema: "@) && has_prefix(parts[3], "Owner: "@)) {
            None
        } else {
            match kind_of_token(after_prefix(parts[1], "Type: "@)) {
                Some(kind) => Some(
                    HeaderV {
                        name: up_to(after_prefix(parts[0], "Name: "@), "("@),
                        object_type: kind,
                        schema: after_prefix(parts[2], "Schema: "@),
                        owner: after_prefix(parts[3], "Owner: "@),
                    },
                ),
                None => None,
            }
        }
    }
}

impl SchemaHeader {
    /// Parse one fragment as a section header, `None` when the fragment
    /// does not have the header shape.
    pub fn parse(f: &[char]) -> (r: Option<SchemaHeader>)
        ensures
            match r {
                Some(h) => parse_header(f@) == Some(h@),
                None => parse_header(f@) is None,
            },
    {
        proof {
            reveal_strlit("-- ");
            reveal_strlit("; ");
        }
        let comment_pre = chars_of("-- ");
        if !has_prefix_exec(f, comment_pre.as_slice()) {
            return None;
        }
        let content = subrange_vec(f, comment_pre.len(), f.len());
        let sep = chars_of("; ");
        let parts = split_on_exec(content.as_slice(), sep.as_slice());
        proof {
            assert(parts.deep_view() == split_on(after_prefix(f@, "-- "@), "; "@));
        }
        if parts.len() < 4 {
            return None;
        }
        let name_pre = chars_of("Name: ");
        let type_pre = chars_of("Type: ");
        let schema_pre = chars_of("Schema: ");
        let owner_pre = chars_of("Owner: ");
        proof {
            assert(parts.deep_view()[0] =~= parts@[0]@);
            assert(parts.deep_view()[1] =~= parts@[1]@);
            assert(parts.deep_view()[2] =~= parts@[2]@);
            assert(parts.deep_view()[3] =~= parts@[3]@);
        }
        let part0 = &parts[0];
        let part1 = &parts[1];
        let part2 = &parts[2];
        let part3 = &parts[3];
        if !has_prefix_exec(part0.as_slice(), name_pre.as_slice()) {
            return None;
        }
        if !has_prefix_exec(part1.as_slice(), type_pre.as_slice()) {
            return None;
        }
        if !has_prefix_exec(part2.as_slice(), schema_pre.as_slice()) {
            return None;
        }
        if !has_prefix_exec(part3.as_slice(), owner_pre.as_slice()) {
            return None;
        }
        let type_token = subrange_vec(part1.as_slice(), type_pre.len(), part1.len());
        let kind = match ObjectType::from_token(type_token.as_slice()) {
            Some(kind) => kind,
            None => {
                return None;
            },
        };
        let name_full = subrange_vec(part0.as_slice(), name_pre.len(), part0.len());
        let paren = chars_of("(");
        let name = match find_sub(name_full.as_slice(), paren.as_slice(), 0) {
            Some(i) => {
                proof {
                    lemma_find_from_bounds(name_full@, "("@, 0);
                }
                subrange_vec(name_full.as_slice(), 0, i)
            },
            None => name_full,
        };
        proof {
            assert(name@ == up_to(after_prefix(parts.deep_view()[0], "Name: "@), "("@));
        }
        let schema = subrange_vec(part2.as_slice(), schema_pre.len(), part2.len());
        let owner = subrange_vec(part3.as_slice(), owner_pre.len(), part3.len());
        Some(SchemaHeader { name, object_type: kind, schema, owner })
    }
}

} // verus!
