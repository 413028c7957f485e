//! The library's view of one parsed EVE record: a JSON object flattened to
//! its top-level attributes, each carried as plain values.
//!
//! An attribute keeps its verbatim JSON text (for payload fields that are
//! stored untouched) together with its value as a JSON string or as a
//! 64-bit integer, where the attribute has that shape.
use vstd::prelude::*;

verus! {

/// One top-level attribute of a record.
pub struct JsonField {
    /// The attribute's name.
    pub key: String,
    /// The attribute's value, verbatim, as JSON text.
    pub text: String,
    /// The value's characters, when the value is a JSON string.
    pub str_val: Option<String>,
    /// The value, when it is an integer representable in 64 bits.
    pub int_val: Option<i64>,
}

/// One record, after it parsed as a JSON object: its attributes in order.
/// A record that parsed to something other than an object has no
/// attributes, so every lookup on it misses.
pub struct EveRecord {
    pub fields: Vec<JsonField>,
}

impl View for EveRecord {
    type V = Seq<JsonField>;

    open spec fn view(&self) -> Seq<JsonField> {
        self.fields@
    }
}

/// The first attribute named `key`, if any.
pub open spec fn lookup_field(fields: Seq<JsonField>, key: Seq<char>) -> Option<JsonField>
    decreases fields.len(),
{
    if fields.len() == 0 {
        None
    } else if fields[0].key@ == key {
        Some(fields[0])
    } else {
        lookup_field(fields.drop_first(), key)
    }
}

/// Whether the record has an attribute named `key`.
pub open spec fn has_field(fields: Seq<JsonField>, key: Seq<char>) -> bool {
    lookup_field(fields, key) is Some
}

/// The string value of attribute `key`: present only when the attribute
/// exists and its value is a JSON string.
pub open spec fn str_field(fields: Seq<JsonField>, key: Seq<char>) -> Option<Seq<char>> {
    match lookup_field(fields, key) {
        Some(f) => match f.str_val {
            Some(s) => Some(s@),
            None => None,
        },
        None => None,
    }
}

/// The integer value of attribute `key`: present only when the attribute
/// exists and its value is an integer representable in 64 bits.
pub open spec fn int_field(fields: Seq<JsonField>, key: Seq<char>) -> Option<i64> {
    match lookup_field(fields, key) {
        Some(f) => f.int_val,
        None => None,
    }
}

/// The verbatim JSON text of attribute `key`.
pub open spec fn text_field(fields: Seq<JsonField>, key: Seq<char>) -> Option<Seq<char>> {
    match lookup_field(fields, key) {
        Some(f) => Some(f.text@),
        None => None,
    }
}

proof fn lemma_lookup_found(fields: Seq<JsonField>, key: Seq<char>, i: int)
    requires
        0 <= i < fields.len(),
        fields[i].key@ == key,
        forall|j: int| 0 <= j < i ==> fields[j].key@ != key,
    ensures
        lookup_field(fields, key) == Some(fields[i]),
    decreases fields.len(),
{
    if i == 0 {
    } else {
        assert(fields[0].key@ != key);
        lemma_lookup_found(fields.drop_first(), key, i - 1);
        assert(fields.drop_first()[i - 1] == fields[i]);
    }
}

proof fn lemma_lookup_none(fields: Seq<JsonField>, key: Seq<char>)
    requires
        forall|j: int| 0 <= j < fields.len() ==> fields[j].key@ != key,
    ensures
        lookup_field(fields, key) is None,
    decreases fields.len(),
{
    if fields.len() > 0 {
        lemma_lookup_none(fields.drop_first(), key);
    }
}

impl EveRecord {
    /// A record with no attributes.
    pub fn empty() -> (r: EveRecord)
        ensures
            r@ =~= Seq::<JsonField>::empty(),
    {
        EveRecord { fields: Vec::new() }
    }

    /// Look an attribute up by name; the first attribute with that name
    /// wins, as `lookup_field` says.
    pub fn get(&self, key: &str) -> (r: Option<&JsonField>)
        ensures
            match r {
                Some(f) => lookup_field(self@, key@) == Some(*f),
                None => lookup_field(self@, key@) is None,
            },
    {
        let k: String = key.to_owned();
        let mut i: usize = 0;
        while i < self.fields.len()
            invariant
                i <= self.fields.len(),
                k@ == key@,
                forall|j: int| 0 <= j < i ==> self.fields@[j].key@ != key@,
            decreases self.fields.len() - i,
        {
            if self.fields[i].key == k {
                proof {
                    lemma_lookup_found(self@, key@, i as int);
                }
                return Some(&self.fields[i]);
            }
            i += 1;
        }
        proof {
            lemma_lookup_none(self@, key@);
        }
        None
    }
}

} // verus!
