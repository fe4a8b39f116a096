//! The closed set of object kinds a dump header may declare, each parsed
//! from one literal token, and the mapping from kind to destination bucket.

use vstd::prelude::*;
use crate::scan::chars_eq_str;

verus! {

broadcast use vstd::string::group_string_axioms;

/// Object kind declared by a dump section header's `Type:` field.
#[derive(Clone, Copy, Debug, PartialEq, Eq, Structural)]
pub enum ObjectType {
    Table,
    FkConstraint,
    Type,
    Trigger,
    Sequence,
    Function,
    Comment,
    DefaultAcl,
    Index,
    Extension,
    Schema,
    Domain,
    Default,
    Constraint,
    Acl,
    SequenceOwnedBy,
}

/// Destination grouping a recognized kind is routed to.
#[derive(Clone, Copy, Debug, PartialEq, Eq, Structural)]
pub enum Bucket {
    Tables,
    Types,
    Functions,
    Constraints,
    Indexes,
    Comments,
    General,
}

impl ObjectType {
    /// The literal token that declares this kind in a header.
    pub open spec fn token(self) -> Seq<char> {
        match self {
            ObjectType::Table => "TABLE"@,
            ObjectType::FkConstraint => "FK CONSTRAINT"@,
            ObjectType::Type => "TYPE"@,
            ObjectType::Trigger => "TRIGGER"@,
            ObjectType::Sequence => "SEQUENCE"@,
            ObjectType::Function => "FUNCTION"@,
            ObjectType::Comment => "COMMENT"@,
            ObjectType::DefaultAcl => "DEFAULT ACL"@,
            ObjectType::Index => "INDEX"@,
            ObjectType::Extension => "EXTENSION"@,
            ObjectType::Schema => "SCHEMA"@,
            ObjectType::Domain => "DOMAIN"@,
            ObjectType::Default => "DEFAULT"@,
            ObjectType::Constraint => "CONSTRAINT"@,
            ObjectType::Acl => "ACL"@,
            ObjectType::SequenceOwnedBy => "SEQUENCE OWNED BY"@,
        }
    }

    /// The token text of this kind.
    pub fn as_str(&self) -> (r: &str)
        ensures
            r@ == self.token(),
    {
        match self {
            ObjectType::Table => "TABLE",
            ObjectType::FkConstraint => "FK CONSTRAINT",
            ObjectType::Type => "TYPE",
            ObjectType::Trigger => "TRIGGER",
            ObjectType::Sequence => "SEQUENCE",
            ObjectType::Function => "FUNCTION",
            ObjectType::Comment => "COMMENT",
            ObjectType::DefaultAcl => "DEFAULT ACL",
            ObjectType::Index => "INDEX",
            ObjectType::Extension => "EXTENSION",
            ObjectType::Schema => "SCHEMA",
            ObjectType::Domain => "DOMAIN",
            ObjectType::Default => "DEFAULT",
            ObjectType::Constraint => "CONSTRAINT",
            ObjectType::Acl => "ACL",
            ObjectType::SequenceOwnedBy => "SEQUENCE OWNED BY",
        }
    }

    /// The kind a header's `Type:` token declares, if it is one of the
    /// recognized literals.
    pub fn from_token(t: &[char]) -> (r: Option<ObjectType>)
        ensures
            r == kind_of_token(t@),
    {
        proof {
            reveal_strlit("TABLE");
            reveal_strlit("FK CONSTRAINT");
            reveal_strlit("TYPE");
            reveal_strlit("TRIGGER");
            reveal_strlit("SEQUENCE");
            reveal_strlit("FUNCTION");
            reveal_strlit("COMMENT");
            reveal_strlit("DEFAULT ACL");
            reveal_strlit("INDEX");
            reveal_strlit("EXTENSION");
            reveal_strlit("SCHEMA");
            reveal_strlit("DOMAIN");
            reveal_strlit("DEFAULT");
            reveal_strlit("CONSTRAINT");
            reveal_strlit("ACL");
            reveal_strlit("SEQUENCE OWNED BY");
        }
        if chars_eq_str(t, "TABLE") {
            Some(ObjectType::Table)
        } else if chars_eq_str(t, "FK CONSTRAINT") {
            Some(ObjectType::FkConstraint)
        } else if chars_eq_str(t, "TYPE") {
            Some(ObjectType::Type)
        } else if chars_eq_str(t, "TRIGGER") {
            Some(ObjectType::Trigger)
        } else if chars_eq_str(t, "SEQUENCE") {
            Some(ObjectType::Sequence)
        } else if chars_eq_str(t, "FUNCTION") {
            Some(ObjectType::Function)
        } else if chars_eq_str(t, "COMMENT") {
            Some(ObjectType::Comment)
        } else if chars_eq_str(t, "DEFAULT ACL") {
            Some(ObjectType::DefaultAcl)
        } else if chars_eq_str(t, "INDEX") {
            Some(ObjectType::Index)
        } else if chars_eq_str(t, "EXTENSION") {
            Some(ObjectType::Extension)
        } else if chars_eq_str(t, "SCHEMA") {
            Some(ObjectType::Schema)
        } else if chars_eq_str(t, "DOMAIN") {
            Some(ObjectType::Domain)
        } else if chars_eq_str(t, "DEFAULT") {
            Some(ObjectType::Default)
        } else if chars_eq_str(t, "CONSTRAINT") {
            Some(ObjectType::Constraint)
        } else if chars_eq_str(t, "ACL") {
            Some(ObjectType::Acl)
        } else if chars_eq_str(t, "SEQUENCE OWNED BY") {
            Some(ObjectType::SequenceOwnedBy)
        } else {
            None
        }
    }

    /// The bucket this kind is routed to, or `None` for kinds the layout
    /// drops. This is the whole kind-to-destination configuration table.
    pub open spec fn bucket_spec(self) -> Option<Bucket> {
        match self {
            ObjectType::Table => Some(Bucket::Tables),
            ObjectType::Type | ObjectType::Domain => Some(Bucket::Types),
            ObjectType::Function | ObjectType::Trigger => Some(Bucket::Functions),
            ObjectType::FkConstraint | ObjectType::Constraint => Some(Bucket::Constraints),
            ObjectType::Index => Some(Bucket::Indexes),
            ObjectType::Comment => Some(Bucket::Comments),
            ObjectType::Extension | ObjectType::Default => Some(Bucket::General),
            _ => None,
        }
    }

    /// The bucket this kind is routed to, or `None` for dropped kinds.
    pub fn bucket(&self) -> (r: Option<Bucket>)
        ensures
            r == self.bucket_spec(),
    {
        match self {
            ObjectType::Table => Some(Bucket::Tables),
            ObjectType::Type | ObjectType::Domain => Some(Bucket::Types),
            ObjectType::Function | ObjectType::Trigger => Some(Bucket::Functions),
            ObjectType::FkConstraint | ObjectType::Constraint => Some(Bucket::Constraints),
            ObjectType::Index => Some(Bucket::Indexes),
            ObjectType::Comment => Some(Bucket::Comments),
            ObjectType::Extension | ObjectType::Default => Some(Bucket::General),
            _ => None,
        }
    }
}

/// The kind declared by the token `t`, if recognized.
pub open spec fn kind_of_token(t: Seq<char>) -> Option<ObjectType> {
    if t == "TABLE"@ {
        Some(ObjectType::Table)
    } else if t == "FK CONSTRAINT"@ {
        Some(ObjectType::FkConstraint)
    } else if t == "TYPE"@ {
        Some(ObjectType::Type)
    } else if t == "TRIGGER"@ {
        Some(ObjectType::Trigger)
    } else if t == "SEQUENCE"@ {
        Some(ObjectType::Sequence)
    } else if t == "FUNCTION"@ {
        Some(ObjectType::Function)
    } else if t == "COMMENT"@ {
        Some(ObjectType::Comment)
    } else if t == "DEFAULT ACL"@ {
        Some(ObjectType::DefaultAcl)
    } else if t == "INDEX"@ {
        Some(ObjectType::Index)
    } else if t == "EXTENSION"@ {
        Some(ObjectType::Extension)
    } else if t == "SCHEMA"@ {
        Some(ObjectType::Schema)
    } else if t == "DOMAIN"@ {
        Some(ObjectType::Domain)
    } else if t == "DEFAULT"@ {
        Some(ObjectType::Default)
    } else if t == "CONSTRAINT"@ {
        Some(ObjectType::Constraint)
    } else if t == "ACL"@ {
        Some(ObjectType::Acl)
    } else if t == "SEQUENCE OWNED BY"@ {
        Some(ObjectType::SequenceOwnedBy)
    } else {
        None
    }
}

/// Parsing the token a kind prints recovers the kind: the sixteen literals
/// are pairwise distinct.
#[verifier::rlimit(50)]
pub proof fn lemma_token_round_trip(k: ObjectType)
    ensures
        kind_of_token(k.token()) == Some(k),
{
    reveal_strlit("TABLE");
    reveal_strlit("FK CONSTRAINT");
    reveal_strlit("TYPE");
    reveal_strlit("TRIGGER");
    reveal_strlit("SEQUENCE");
    reveal_strlit("FUNCTION");
    reveal_strlit("COMMENT");
    reveal_strlit("DEFAULT ACL");
    reveal_strlit("INDEX");
    reveal_strlit("EXTENSION");
    reveal_strlit("SCHEMA");
    reveal_strlit("DOMAIN");
    reveal_strlit("DEFAULT");
    reveal_strlit("CONSTRAINT");
    reveal_strlit("ACL");
    reveal_strlit("SEQUENCE OWNED BY");
    // Lengths separate most pairs of tokens; a first character separates
    // the rest.
    assert("TABLE"@.len() == 5);
    assert("FK CONSTRAINT"@.len() == 13);
    assert("TYPE"@.len() == 4);
    assert("TRIGGER"@.len() == 7);
    assert("SEQUENCE"@.len() == 8);
    assert("FUNCTION"@.len() == 8);
    assert("COMMENT"@.len() == 7);
    assert("DEFAULT ACL"@.len() == 11);
    assert("INDEX"@.len() == 5);
    assert("EXTENSION"@.len() == 9);
    assert("SCHEMA"@.len() == 6);
    assert("DOMAIN"@.len() == 6);
    assert("DEFAULT"@.len() == 7);
    assert("CONSTRAINT"@.len() == 10);
    assert("ACL"@.len() == 3);
    assert("SEQUENCE OWNED BY"@.len() == 17);
    assert("TABLE"@[0] == 'T');
    assert("INDEX"@[0] == 'I');
    assert("SCHEMA"@[0] == 'S');
    assert("DOMAIN"@[0] == 'D');
    assert("TRIGGER"@[0] == 'T');
    assert("COMMENT"@[0] == 'C');
    assert("DEFAULT"@[0] == 'D');
    assert("SEQUENCE"@[0] == 'S');
    assert("FUNCTION"@[0] == 'F');
}

} // verus!
