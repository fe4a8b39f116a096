//! The classified schema model: the dump text split into header/body
//! sections and routed into seven ordered buckets, in first-seen order.

use vstd::prelude::*;
use crate::header::HeaderV;
use crate::header::SchemaHeader;
use crate::header::parse_header;
use crate::kinds::Bucket;
use crate::scan::chars_of;
use crate::scan::split_on;
use crate::scan::split_on_exec;
use crate::scan::subrange_vec;

verus! {

/// Mathematical value of one classified section.
pub struct SectionV {
    pub header: HeaderV,
    pub body: Seq<char>,
}

/// One header together with the verbatim SQL body that follows it.
pub struct SchemaSection {
    pub header: SchemaHeader,
    pub body: Vec<char>,
}

impl View for SchemaSection {
    type V = SectionV;

    open spec fn view(&self) -> SectionV {
        SectionV { header: self.header@, body: self.body@ }
    }
}

/// Mathematical value of the classified schema model.
pub struct SchemaV {
    pub tables: Seq<SectionV>,
    pub types: Seq<SectionV>,
    pub functions: Seq<SectionV>,
    pub constraints: Seq<SectionV>,
    pub indexes: Seq<SectionV>,
    pub comments: Seq<SectionV>,
    pub general: Seq<SectionV>,
}

/// The complete classified result of one dump: seven ordered buckets of
/// sections, each in dump order.
pub struct Schema {
    pub tables: Vec<SchemaSection>,
    pub types: Vec<SchemaSection>,
    pub functions: Vec<SchemaSection>,
    pub constraints: Vec<SchemaSection>,
    pub indexes: Vec<SchemaSection>,
    pub comments: Vec<SchemaSection>,
    pub general: Vec<SchemaSection>,
}

/// The views of a bucket's sections, in order.
pub open spec fn bucket_view(v: Seq<SchemaSection>) -> Seq<SectionV> {
    v.map_values(|s: SchemaSection| s@)
}

impl View for Schema {
    type V = SchemaV;

    open spec fn view(&self) -> SchemaV {
        SchemaV {
            tables: bucket_view(self.tables@),
            types: bucket_view(self.types@),
            functions: bucket_view(self.functions@),
            constraints: bucket_view(self.constraints@),
            indexes: bucket_view(self.indexes@),
            comments: bucket_view(self.comments@),
            general: bucket_view(self.general@),
        }
    }
}

/// The model with every bucket empty.
pub open spec fn empty_model() -> SchemaV {
    SchemaV {
        tables: Seq::empty(),
        types: Seq::empty(),
        functions: Seq::empty(),
        constraints: Seq::empty(),
        indexes: Seq::empty(),
        comments: Seq::empty(),
        general: Seq::empty(),
    }
}

/// `m` with `sec` routed to the bucket its kind maps to; a kind outside the
/// mapping leaves the model unchanged (the section is dropped).
pub open spec fn model_add(m: SchemaV, sec: SectionV) -> SchemaV {
    match sec.header.object_type.bucket_spec() {
        Some(Bucket::Tables) => SchemaV { tables: m.tables.push(sec), ..m },
        Some(Bucket::Types) => SchemaV { types: m.types.push(sec), ..m },
        Some(Bucket::Functions) => SchemaV { functions: m.functions.push(sec), ..m },
        Some(Bucket::Constraints) => SchemaV { constraints: m.constraints.push(sec), ..m },
        Some(Bucket::Indexes) => SchemaV { indexes: m.indexes.push(sec), ..m },
        Some(Bucket::Comments) => SchemaV { comments: m.comments.push(sec), ..m },
        Some(Bucket::General) => SchemaV { general: m.general.push(sec), ..m },
        None => m,
    }
}

/// The two-state machine over the fragment sequence. In the awaiting-header
/// state (`pending is None`) the fragment is parsed as a header; on failure
/// it is silently discarded. In the awaiting-body state the fragment is the
/// verbatim body for the held header, and the completed section is routed
/// to its bucket. A dangling header at the end is dropped.
pub open spec fn parse_fragments(
    frags: Seq<Seq<char>>,
    pending: Option<HeaderV>,
    m: SchemaV,
) -> SchemaV
    decreases frags.len(),
{
    if frags.len() == 0 {
        m
    } else {
        match pending {
            None => parse_fragments(frags.drop_first(), parse_header(frags[0]), m),
            Some(h) => parse_fragments(
                frags.drop_first(),
                None,
                model_add(m, SectionV { header: h, body: frags[0] }),
            ),
        }
    }
}

/// The classified model of a whole dump text: fragments are the pieces of
/// the text between occurrences of the boundary `"\n--\n"`.
pub open spec fn parse_dump(s: Seq<char>) -> SchemaV {
    parse_fragments(split_on(s, "\n--\n"@), None, empty_model())
}

/// View of an optionally held header.
pub open spec fn pending_view(p: Option<SchemaHeader>) -> Option<HeaderV> {
    match p {
        Some(h) => Some(h@),
        None => None,
    }
}

impl Default for Schema {
    /// The model with every bucket empty.
    fn default() -> (r: Schema)
        ensures
            r@ == empty_model(),
    {
        Schema::new()
    }
}

impl Schema {
    /// The model with every bucket empty.
    pub fn new() -> (r: Schema)
        ensures
            r@ == empty_model(),
    {
        let r = Schema {
            tables: Vec::new(),
            types: Vec::new(),
            functions: Vec::new(),
            constraints: Vec::new(),
            indexes: Vec::new(),
            comments: Vec::new(),
            general: Vec::new(),
        };
        proof {
            assert(bucket_view(Seq::<SchemaSection>::empty()) =~= Seq::<SectionV>::empty());
        }
        r
    }

    /// Route one completed section into the bucket its kind maps to.
    fn add(&mut self, sec: SchemaSection)
        ensures
            final(self)@ == model_add(old(self)@, sec@),
    {
        let ghost prev = self@;
        let ghost secv = sec@;
        match sec.header.object_type.bucket() {
            Some(Bucket::Tables) => {
                self.tables.push(sec);
                proof {
                    assert(bucket_view(self.tables@) =~= prev.tables.push(secv));
                }
            },
            Some(Bucket::Types) => {
                self.types.push(sec);
                proof {
                    assert(bucket_view(self.types@) =~= prev.types.push(secv));
                }
            },
            Some(Bucket::Functions) => {
                self.functions.push(sec);
                proof {
                    assert(bucket_view(self.functions@) =~= prev.functions.push(secv));
                }
            },
            Some(Bucket::Constraints) => {
                self.constraints.push(sec);
                proof {
                    assert(bucket_view(self.constraints@) =~= prev.constraints.push(secv));
                }
            },
            Some(Bucket::Indexes) => {
                self.indexes.push(sec);
                proof {
                    assert(bucket_view(self.indexes@) =~= prev.indexes.push(secv));
                }
            },
            Some(Bucket::Comments) => {
                self.comments.push(sec);
                proof {
                    assert(bucket_view(self.comments@) =~= prev.comments.push(secv));
                }
            },
            Some(Bucket::General) => {
                self.general.push(sec);
                proof {
                    assert(bucket_view(self.general@) =~= prev.general.push(secv));
                }
            },
            None => {},
        }
    }

    /// Parse a whole dump, given as its characters, into the classified
    /// model. This never fails: fragments that are not headers are skipped,
    /// and sections of unrecognized kinds are dropped.
    pub fn from_chars(text: &[char]) -> (r: Schema)
        ensures
            r@ == parse_dump(text@),
    {
        proof {
            reveal_strlit("\n--\n");
        }
        let boundary = chars_of("\n--\n");
        let frags = split_on_exec(text, boundary.as_slice());
        let mut m = Schema::new();
        let mut pending: Option<SchemaHeader> = None;
        let mut i: usize = 0;
        let n = frags.len();
        proof {
            assert(frags.deep_view().skip(0) =~= frags.deep_view());
        }
        while i < n
            invariant
                0 <= i <= n,
                n == frags@.len(),
                parse_dump(text@) == parse_fragments(
                    frags.deep_view().skip(i as int),
                    pending_view(pending),
                    m@,
                ),
            decreases n - i,
        {
            let ghost rest = frags.deep_view().skip(i as int);
            let ghost old_pv = pending_view(pending);
            let ghost old_m = m@;
            proof {
                assert(rest.len() == n - i);
                assert(rest[0] =~= frags@[i as int]@);
                assert(rest.drop_first() =~= frags.deep_view().skip(i as int + 1));
            }
            let frag = &frags[i];
            let held = pending;
            pending = None;
            match held {
                None => {
                    pending = SchemaHeader::parse(frag.as_slice());
                    proof {
                        assert(pending_view(pending) == parse_header(rest[0]));
                        assert(parse_fragments(rest, old_pv, old_m) == parse_fragments(
                            rest.drop_first(),
                            pending_view(pending),
                            m@,
                        ));
                    }
                },
                Some(h) => {
                    let body = subrange_vec(frag.as_slice(), 0, frag.len());
                    proof {
                        assert(body@ =~= rest[0]);
                    }
                    m.add(SchemaSection { header: h, body });
                    proof {
                        assert(m@ == model_add(old_m, SectionV { header: h@, body: rest[0] }));
                        assert(parse_fragments(rest, old_pv, old_m) == parse_fragments(
                            rest.drop_first(),
                            pending_view(pending),
                            m@,
                        ));
                    }
                },
            }
            i = i + 1;
        }
        proof {
            assert(frags.deep_view().skip(n as int) =~= Seq::<Seq<char>>::empty());
        }
        m
    }

    /// Parse a whole dump text into the classified model.
    pub fn from_str(s: &str) -> (r: Schema)
        ensures
            r@ == parse_dump(s@),
    {
        let text = chars_of(s);
        Schema::from_chars(text.as_slice())
    }
}

} // verus!
