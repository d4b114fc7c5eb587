//! Records: named fields looked up by the evaluator.
//!
//! A record is opaque to the parser; the evaluator only needs structural
//! field lookup. A field holds either text, or some other shape of value
//! (a number, a flag, a nested collection): conditions only ever match
//! text, so any other shape fails every comparison, as does a missing
//! field (fail-closed evaluation).

use vstd::prelude::*;
use crate::text::str_eq;

verus! {

/// Mathematical view of one field value.
pub enum SpecField {
    Text(Seq<char>),
    Other,
}

/// One field value: text, or a value of any other shape, which no
/// condition matches.
#[derive(Debug)]
pub enum FieldValue {
    Text(String),
    Other,
}

pub open spec fn field_view(v: FieldValue) -> SpecField {
    match v {
        FieldValue::Text(s) => SpecField::Text(s@),
        FieldValue::Other => SpecField::Other,
    }
}

/// A record: a sequence of named fields. Lookup finds the first field of
/// a given name.
#[derive(Debug)]
pub struct Record {
    pub entries: Vec<(String, FieldValue)>,
}

impl View for Record {
    type V = Seq<(Seq<char>, SpecField)>;

    open spec fn view(&self) -> Seq<(Seq<char>, SpecField)> {
        self.entries@.map_values(|p: (String, FieldValue)| (p.0@, field_view(p.1)))
    }
}

/// The value of the first field named `f`, if any.
pub open spec fn lookup(entries: Seq<(Seq<char>, SpecField)>, f: Seq<char>) -> Option<SpecField>
    decreases entries.len(),
{
    if entries.len() == 0 {
        None
    } else if entries[0].0 == f {
        Some(entries[0].1)
    } else {
        lookup(entries.drop_first(), f)
    }
}

impl Record {
    /// A record with no fields.
    pub fn new() -> (r: Record)
        ensures
            r@ == Seq::<(Seq<char>, SpecField)>::empty(),
    {
        let r = Record { entries: Vec::new() };
        proof {
            assert(r@ =~= Seq::<(Seq<char>, SpecField)>::empty());
        }
        r
    }

    /// Appends a text field.
    pub fn push_text(&mut self, name: String, value: String)
        ensures
            final(self)@ == old(self)@.push((name@, SpecField::Text(value@))),
    {
        let ghost oldv = self@;
        self.entries.push((name, FieldValue::Text(value)));
        proof {
            assert(self@ =~= oldv.push((name@, SpecField::Text(value@))));
        }
    }

    /// Appends a field whose value is not text.
    pub fn push_other(&mut self, name: String)
        ensures
            final(self)@ == old(self)@.push((name@, SpecField::Other)),
    {
        let ghost oldv = self@;
        self.entries.push((name, FieldValue::Other));
        proof {
            assert(self@ =~= oldv.push((name@, SpecField::Other)));
        }
    }

    /// The value of the first field named `name`, if any.
    pub fn get(&self, name: &str) -> (r: Option<&FieldValue>)
        ensures
            match r {
                Some(v) => lookup(self@, name@) == Some(field_view(*v)),
                None => lookup(self@, name@) is None,
            },
    {
        proof {
            assert(self@.skip(0) =~= self@);
        }
        let mut i: usize = 0;
        while i < self.entries.len()
            invariant
                i <= self.entries.len(),
                self@.len() == self.entries.len(),
                lookup(self@, name@) == lookup(self@.skip(i as int), name@),
            decreases self.entries.len() - i,
        {
            if str_eq(self.entries[i].0.as_str(), name) {
                proof {
                    assert(self@.skip(i as int)[0] == self@[i as int]);
                    assert(self@[i as int].0 == name@);
                }
                return Some(&self.entries[i].1);
            }
            proof {
                assert(self@.skip(i as int)[0] == self@[i as int]);
                assert(self@.skip(i as int).drop_first() =~= self@.skip(i as int + 1));
            }
            i = i + 1;
        }
        proof {
            assert(self@.skip(i as int).len() == 0);
        }
        None
    }
}

/// A record kind the engine can query: it presents its fields as a
/// [`Record`] and names itself by a unique id.
pub trait Queryable {
    /// The fields this value presents to the evaluator.
    spec fn record_view(&self) -> Seq<(Seq<char>, SpecField)>;

    /// The unique id of this value.
    spec fn id_view(&self) -> Seq<char>;

    /// Builds the record the evaluator walks.
    fn to_record(&self) -> (r: Record)
        ensures
            r@ == self.record_view(),
    ;

    /// The unique id of this value.
    fn id_string(&self) -> (r: String)
        ensures
            r@ == self.id_view(),
    ;
}

} // verus!
