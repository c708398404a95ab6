//! The decoder's input: a flat collection of named attributes, and a
//! description of the shape the caller wants decoded.

use vstd::prelude::*;
use super::textops::str_eq;

verus! {

/// What payload a candidate enum variant was declared with.  Only unit
/// variants can be decoded from a single attribute value.
#[derive(Debug, PartialEq, Eq, Clone, Copy)]
pub enum PayloadKind {
    Unit,
    Newtype,
    Tuple,
    Struct,
}

/// One candidate variant of an enum shape: the name an attribute value is
/// matched against (already in its renamed, on-the-wire form) and the
/// payload kind the variant was declared with.
#[derive(Debug)]
pub struct VariantShape {
    pub name: String,
    pub payload: PayloadKind,
}

/// One declared field of a record shape.
#[derive(Debug)]
pub struct Field {
    pub name: String,
    pub shape: Shape,
}

/// A description of the value the caller wants decoded.
///
/// The composite shapes (`Unit`, `Wrapper`, `Record`, `Tuple`, `MapTo`) are
/// accepted at the top level of a decode; the leaf shapes are accepted for a
/// single attribute's value.  Asking for a leaf at the top level, or for a
/// composite as a leaf, is a decode error.
#[derive(Debug)]
pub enum Shape {
    /// The empty shape: succeeds without consuming anything.  Also the shape
    /// of an explicitly ignored value.
    Unit,
    /// A single-field pass-through (a newtype): decodes its inner shape from
    /// the same input.
    Wrapper(Box<Shape>),
    /// A record with named fields, each holding a leaf shape.
    Record(Vec<Field>),
    /// A tuple: each slot decodes independently from the whole attribute
    /// collection.
    Tuple(Vec<Shape>),
    /// A map from lowercased attribute names to one uniform leaf shape.
    MapTo(Box<Shape>),
    Bool,
    U8,
    U16,
    U32,
    U64,
    I8,
    I16,
    I32,
    I64,
    F32,
    F64,
    Char,
    Str,
    Bytes,
    /// An optional field: absence decodes to nothing one level up; a present
    /// attribute decodes the inner shape.
    Optional(Box<Shape>),
    /// A unit-variant enum with its candidate variant names.
    EnumUnit(Vec<VariantShape>),
    /// A multi-valued attribute: the raw value splits on unescaped `;`.
    Sequence(Box<Shape>),
    /// An undetermined, self-describing shape; never decodable here.
    Any,
}

/// Mathematical model of one attribute: its transport name and the raw
/// values its transport representation carried.
#[verifier::ext_equal]
pub struct AttrModel {
    pub name: Seq<char>,
    pub values: Seq<Seq<char>>,
}

impl AttrModel {
    /// Only attributes delivered with exactly one transport value are
    /// visible to the decoder.
    pub open spec fn visible(self) -> bool {
        self.values.len() == 1
    }

    /// The raw value of a visible attribute.
    pub open spec fn raw(self) -> Seq<char> {
        self.values[0]
    }
}

/// One named attribute together with every raw value its transport
/// representation carried for that name.
#[derive(Debug)]
pub struct Attribute {
    pub name: String,
    pub values: Vec<String>,
}

impl View for Attribute {
    type V = AttrModel;

    open spec fn view(&self) -> AttrModel {
        AttrModel { name: self.name@, values: self.values.deep_view() }
    }
}

/// The index of the first attribute carrying `name`, or `-1` if none does.
pub open spec fn index_of_name(s: Seq<AttrModel>, name: Seq<char>) -> int
    decreases s.len(),
{
    if s.len() == 0 {
        -1
    } else if s[0].name == name {
        0
    } else {
        let rest = index_of_name(s.drop_first(), name);
        if rest == -1 {
            -1
        } else {
            rest + 1
        }
    }
}

proof fn lemma_index_of_name_absent(s: Seq<AttrModel>, name: Seq<char>)
    requires
        forall|j: int| 0 <= j < s.len() ==> s[j].name != name,
    ensures
        index_of_name(s, name) == -1,
    decreases s.len(),
{
    if s.len() > 0 {
        assert(forall|j: int| 0 <= j < s.drop_first().len() ==> s.drop_first()[j].name != name);
        lemma_index_of_name_absent(s.drop_first(), name);
    }
}

proof fn lemma_index_of_name_found(s: Seq<AttrModel>, name: Seq<char>, i: int)
    requires
        0 <= i < s.len(),
        s[i].name == name,
        forall|j: int| 0 <= j < i ==> s[j].name != name,
    ensures
        index_of_name(s, name) == i,
    decreases s.len(),
{
    if i > 0 {
        assert(forall|j: int| 0 <= j < i - 1 ==> s.drop_first()[j].name != name);
        lemma_index_of_name_found(s.drop_first(), name, i - 1);
    }
}

/// One decode operation's input: the attributes present on a request, in
/// order, each with its transport value count.
#[derive(Debug)]
pub struct AttributeSet {
    pub entries: Vec<Attribute>,
}

impl View for AttributeSet {
    type V = Seq<AttrModel>;

    open spec fn view(&self) -> Seq<AttrModel> {
        self.entries@.map_values(|a: Attribute| a@)
    }
}

impl AttributeSet {
    /// An empty collection.
    pub fn new() -> (r: AttributeSet)
        ensures
            r@ == Seq::<AttrModel>::empty(),
    {
        let r = AttributeSet { entries: Vec::new() };
        proof {
            assert(r@ =~= Seq::<AttrModel>::empty());
        }
        r
    }

    fn find_index(&self, name: &str) -> (r: Option<usize>)
        ensures
            match r {
                Some(i) => i < self@.len() && index_of_name(self@, name@) == i,
                None => index_of_name(self@, name@) == -1,
            },
    {
        let n = self.entries.len();
        let mut i: usize = 0;
        while i < n
            invariant
                i <= n,
                n == self@.len(),
                self@.len() == self.entries@.len(),
                forall|j: int| 0 <= j < i ==> self@[j].name != name@,
            decreases n - i,
        {
            assert(self@[i as int] == self.entries@[i as int]@);
            if str_eq(self.entries[i].name.as_str(), name) {
                proof {
                    lemma_index_of_name_found(self@, name@, i as int);
                }
                return Some(i);
            }
            i = i + 1;
        }
        proof {
            lemma_index_of_name_absent(self@, name@);
        }
        None
    }

    /// Set `name` to the single value `value`, replacing whatever values the
    /// name carried before; a fresh name is appended at the end.
    pub fn set_raw(&mut self, name: String, value: String)
        ensures
            ({
                let entry = AttrModel { name: name@, values: seq![value@] };
                let i = index_of_name(old(self)@, name@);
                if i >= 0 {
                    final(self)@ == old(self)@.update(i, entry)
                } else {
                    final(self)@ == old(self)@.push(entry)
                }
            }),
    {
        let mut values: Vec<String> = Vec::new();
        values.push(value);
        let ghost entry = AttrModel { name: name@, values: seq![values@[0]@] };
        match self.find_index(name.as_str()) {
            Some(i) => {
                self.entries.remove(i);
                self.entries.insert(i, Attribute { name, values });
                proof {
                    assert(self@ =~~= old(self)@.update(index_of_name(old(self)@, name@), entry));
                }
            }
            None => {
                self.entries.push(Attribute { name, values });
                proof {
                    assert(self@ =~~= old(self)@.push(entry));
                }
            }
        }
    }

    /// Add one more transport value for `name`: a repeated header.  The
    /// decoder will treat a name with more than one value as ambiguous and
    /// skip it.
    pub fn append_raw(&mut self, name: String, value: String)
        ensures
            ({
                let i = index_of_name(old(self)@, name@);
                if i >= 0 {
                    final(self)@ == old(self)@.update(
                        i,
                        AttrModel {
                            name: old(self)@[i].name,
                            values: old(self)@[i].values.push(value@),
                        },
                    )
                } else {
                    final(self)@ == old(self)@.push(AttrModel { name: name@, values: seq![value@] })
                }
            }),
    {
        match self.find_index(name.as_str()) {
            Some(i) => {
                let mut entry = self.entries.remove(i);
                entry.values.push(value);
                self.entries.insert(i, entry);
                proof {
                    let j = index_of_name(old(self)@, name@);
                    assert(self@ =~~= old(self)@.update(
                        j,
                        AttrModel {
                            name: old(self)@[j].name,
                            values: old(self)@[j].values.push(value@),
                        },
                    ));
                }
            }
            None => {
                let mut values: Vec<String> = Vec::new();
                values.push(value);
                self.entries.push(Attribute { name, values });
                proof {
                    assert(self@ =~~= old(self)@.push(AttrModel { name: name@, values: seq![value@] }));
                }
            }
        }
    }
}

} // verus!
