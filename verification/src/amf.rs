//! AMF value types.
//!
//! AMF0 strings are carried as raw byte vectors (the wire representation);
//! the decoder checks that they hold valid UTF-8 before accepting them.
//! Numbers and dates carry the 64 bits of their IEEE 754 double unchanged,
//! so that encode/decode round-trips are exact; interpreting the bits is
//! left to the host application.

use vstd::prelude::*;

verus! {

broadcast use vstd::std_specs::vec::axiom_vec_index_decreases;

/// Unified AMF value representation for the AMF0 value language.
#[derive(Debug, PartialEq, Eq)]
pub enum AmfValue {
    /// Null value (marker 0x05)
    Null,
    /// Undefined value (marker 0x06)
    Undefined,
    /// Boolean value (marker 0x01)
    Boolean(bool),
    /// IEEE 754 double, carried as its raw bit pattern (marker 0x00)
    Number(u64),
    /// UTF-8 string bytes (marker 0x02 short / 0x0C long)
    String(Vec<u8>),
    /// Dense array (marker 0x0A)
    Array(Vec<AmfValue>),
    /// Key-value object, keys in wire order (marker 0x03)
    Object(Vec<(Vec<u8>, AmfValue)>),
    /// Typed object with class name (marker 0x10)
    TypedObject { class_name: Vec<u8>, properties: Vec<(Vec<u8>, AmfValue)> },
    /// Date: milliseconds since the Unix epoch as double bits (marker 0x0B)
    Date(u64),
    /// XML document (marker 0x0F)
    Xml(Vec<u8>),
    /// Associative array with a count hint (marker 0x08)
    EcmaArray(Vec<(Vec<u8>, AmfValue)>),
}

/// The mathematical shape of an AMF value: the same tree with byte vectors
/// abstracted to sequences. Contracts speak of values through `dv`, so that
/// two values are interchangeable exactly when their trees hold the same
/// bytes.
#[verifier::ext_equal]
pub enum AmfVal {
    Null,
    Undefined,
    Boolean(bool),
    Number(u64),
    String(Seq<u8>),
    Array(Seq<AmfVal>),
    Object(Seq<(Seq<u8>, AmfVal)>),
    TypedObject { class_name: Seq<u8>, properties: Seq<(Seq<u8>, AmfVal)> },
    Date(u64),
    Xml(Seq<u8>),
    EcmaArray(Seq<(Seq<u8>, AmfVal)>),
}

/// The abstract tree of an AMF value.
pub open spec fn dv(v: AmfValue) -> AmfVal
    decreases v, 0int,
{
    match v {
        AmfValue::Null => AmfVal::Null,
        AmfValue::Undefined => AmfVal::Undefined,
        AmfValue::Boolean(b) => AmfVal::Boolean(b),
        AmfValue::Number(n) => AmfVal::Number(n),
        AmfValue::String(s) => AmfVal::String(s@),
        AmfValue::Array(items) => AmfVal::Array(dv_list(items, 0)),
        AmfValue::Object(props) => AmfVal::Object(dv_props(props, 0)),
        AmfValue::TypedObject { class_name, properties } => AmfVal::TypedObject {
            class_name: class_name@,
            properties: dv_props(properties, 0),
        },
        AmfValue::Date(d) => AmfVal::Date(d),
        AmfValue::Xml(s) => AmfVal::Xml(s@),
        AmfValue::EcmaArray(props) => AmfVal::EcmaArray(dv_props(props, 0)),
    }
}

/// The abstract trees of the elements of `items` from index `i` on.
pub open spec fn dv_list(items: Vec<AmfValue>, i: int) -> Seq<AmfVal>
    decreases items, items.len() - i,
{
    if i < 0 || i >= items.len() {
        Seq::empty()
    } else {
        seq![dv(items[i])] + dv_list(items, i + 1)
    }
}

/// The abstract trees of the key/value pairs of `props` from index `i` on.
pub open spec fn dv_props(props: Vec<(Vec<u8>, AmfValue)>, i: int) -> Seq<(Seq<u8>, AmfVal)>
    decreases props, props.len() - i,
{
    if i < 0 || i >= props.len() {
        Seq::empty()
    } else {
        seq![(props[i].0@, dv(props[i].1))] + dv_props(props, i + 1)
    }
}

/// `dv_list` is pointwise `dv` over the vector's tail from `i`.
pub proof fn lemma_dv_list_index(items: Vec<AmfValue>, i: int)
    requires
        0 <= i <= items.len(),
    ensures
        dv_list(items, i).len() == items.len() - i,
        forall|k: int| 0 <= k < items.len() - i ==> dv_list(items, i)[k] == dv(items[i + k]),
    decreases items.len() - i,
{
    if i < items.len() {
        lemma_dv_list_index(items, i + 1);
    }
}

/// `dv_props` is pointwise `dv` over the pair vector's tail from `i`.
pub proof fn lemma_dv_props_index(props: Vec<(Vec<u8>, AmfValue)>, i: int)
    requires
        0 <= i <= props.len(),
    ensures
        dv_props(props, i).len() == props.len() - i,
        forall|k: int| 0 <= k < props.len() - i ==> dv_props(props, i)[k] == (
            props[i + k].0@,
            dv(props[i + k].1),
        ),
    decreases props.len() - i,
{
    if i < props.len() {
        lemma_dv_props_index(props, i + 1);
    }
}

/// The value of the first pair in `props` whose key equals `key`.
pub open spec fn spec_lookup(props: Seq<(Seq<u8>, AmfVal)>, key: Seq<u8>) -> Option<AmfVal>
    decreases props.len(),
{
    if props.len() == 0 {
        None
    } else if props[0].0 == key {
        Some(props[0].1)
    } else {
        spec_lookup(props.skip(1), key)
    }
}

impl AmfValue {
    /// The property list of an object-like value, if any.
    pub open spec fn spec_properties(&self) -> Option<Seq<(Seq<u8>, AmfVal)>> {
        match dv(*self) {
            AmfVal::Object(m) => Some(m),
            AmfVal::EcmaArray(m) => Some(m),
            AmfVal::TypedObject { properties, .. } => Some(properties),
            _ => None,
        }
    }

    /// The value of the first property named `key`, if this is an
    /// object-like value that holds one.
    pub open spec fn spec_get(&self, key: Seq<u8>) -> Option<AmfVal> {
        match self.spec_properties() {
            Some(props) => spec_lookup(props, key),
            None => None,
        }
    }

    /// Try to get this value as a string byte vector.
    pub fn as_str(&self) -> (r: Option<&Vec<u8>>)
        ensures
            r is Some <==> *self matches AmfValue::String(_),
            r matches Some(s) ==> dv(*self) == AmfVal::String(s@),
    {
        match self {
            AmfValue::String(s) => Some(s),
            _ => None,
        }
    }

    /// Try to get this value as the bit pattern of a number.
    pub fn as_number(&self) -> (r: Option<u64>)
        ensures
            r is Some <==> *self matches AmfValue::Number(_),
            r matches Some(n) ==> dv(*self) == AmfVal::Number(n),
    {
        match self {
            AmfValue::Number(n) => Some(*n),
            _ => None,
        }
    }

    /// Try to get this value as a boolean.
    pub fn as_bool(&self) -> (r: Option<bool>)
        ensures
            r is Some <==> *self matches AmfValue::Boolean(_),
            r matches Some(b) ==> dv(*self) == AmfVal::Boolean(b),
    {
        match self {
            AmfValue::Boolean(b) => Some(*b),
            _ => None,
        }
    }

    /// Try to get this value's property list (objects, ECMA arrays and
    /// typed objects all expose one).
    pub fn as_object(&self) -> (r: Option<&Vec<(Vec<u8>, AmfValue)>>)
        ensures
            match r {
                Some(m) => self.spec_properties() == Some(dv_props(*m, 0)),
                None => self.spec_properties() is None,
            },
    {
        match self {
            AmfValue::Object(m) => Some(m),
            AmfValue::EcmaArray(m) => Some(m),
            AmfValue::TypedObject { properties, .. } => Some(properties),
            _ => None,
        }
    }

    /// Try to get this value as an array reference.
    pub fn as_array(&self) -> (r: Option<&Vec<AmfValue>>)
        ensures
            r is Some <==> *self matches AmfValue::Array(_),
            r matches Some(a) ==> dv(*self) == AmfVal::Array(dv_list(*a, 0)),
    {
        match self {
            AmfValue::Array(a) => Some(a),
            _ => None,
        }
    }

    /// Check if this value is null or undefined.
    pub fn is_null_or_undefined(&self) -> (r: bool)
        ensures
            r <==> (*self matches AmfValue::Null || *self matches AmfValue::Undefined),
    {
        match self {
            AmfValue::Null => true,
            AmfValue::Undefined => true,
            _ => false,
        }
    }

    /// Get a property from an object-like value.
    pub fn get(&self, key: &Vec<u8>) -> (r: Option<&AmfValue>)
        ensures
            match r {
                Some(v) => self.spec_get(key@) == Some(dv(*v)),
                None => self.spec_get(key@) is None,
            },
    {
        match self.as_object() {
            Some(props) => lookup(props, key),
            None => None,
        }
    }

    /// Get a string property from an object-like value.
    pub fn get_string(&self, key: &Vec<u8>) -> (r: Option<&Vec<u8>>)
        ensures
            match r {
                Some(s) => self.spec_get(key@) == Some(AmfVal::String(s@)),
                None => !(self.spec_get(key@) matches Some(AmfVal::String(_))),
            },
    {
        match self.get(key) {
            Some(v) => v.as_str(),
            None => None,
        }
    }

    /// Get a number property (as double bits) from an object-like value.
    pub fn get_number(&self, key: &Vec<u8>) -> (r: Option<u64>)
        ensures
            match r {
                Some(n) => self.spec_get(key@) == Some(AmfVal::Number(n)),
                None => !(self.spec_get(key@) matches Some(AmfVal::Number(_))),
            },
    {
        match self.get(key) {
            Some(v) => v.as_number(),
            None => None,
        }
    }
}

impl Default for AmfValue {
    /// The default AMF value is null.
    fn default() -> (r: Self)
        ensures
            r == AmfValue::Null,
    {
        AmfValue::Null
    }
}

impl Clone for AmfValue {
    /// A structural copy: the clone's tree equals the original's.
    fn clone(&self) -> (r: Self)
        ensures
            dv(r) == dv(*self),
    {
        clone_value(self)
    }
}

fn clone_value(v: &AmfValue) -> (r: AmfValue)
    ensures
        dv(r) == dv(*v),
    decreases *v, 0int,
{
    match v {
        AmfValue::Null => AmfValue::Null,
        AmfValue::Undefined => AmfValue::Undefined,
        AmfValue::Boolean(b) => AmfValue::Boolean(*b),
        AmfValue::Number(n) => AmfValue::Number(*n),
        AmfValue::String(s) => AmfValue::String(clone_bytes(s)),
        AmfValue::Array(items) => AmfValue::Array(clone_list(items)),
        AmfValue::Object(props) => AmfValue::Object(clone_props(props)),
        AmfValue::TypedObject { class_name, properties } => AmfValue::TypedObject {
            class_name: clone_bytes(class_name),
            properties: clone_props(properties),
        },
        AmfValue::Date(d) => AmfValue::Date(*d),
        AmfValue::Xml(s) => AmfValue::Xml(clone_bytes(s)),
        AmfValue::EcmaArray(props) => AmfValue::EcmaArray(clone_props(props)),
    }
}

fn clone_bytes(v: &Vec<u8>) -> (r: Vec<u8>)
    ensures
        r@ == v@,
{
    let mut r: Vec<u8> = Vec::new();
    let mut i: usize = 0;
    while i < v.len()
        invariant
            i <= v.len(),
            r@ =~= v@.take(i as int),
        decreases v.len() - i,
    {
        r.push(v[i]);
        i = i + 1;
    }
    proof {
        assert(r@ =~= v@);
    }
    r
}

fn clone_list(items: &Vec<AmfValue>) -> (r: Vec<AmfValue>)
    ensures
        dv_list(r, 0) == dv_list(*items, 0),
    decreases *items, 1int,
{
    let ghost g = *items;
    let mut r: Vec<AmfValue> = Vec::new();
    let mut i: usize = 0;
    while i < items.len()
        invariant
            i <= items.len(),
            r@.len() == i,
            *items == g,
            forall|k: int| 0 <= k < i ==> dv(r@[k]) == dv(items@[k]),
        decreases items.len() - i,
    {
        proof {
            assert(decreases_to!(g => g[i as int]));
        }
        let c = clone_value(&items[i]);
        r.push(c);
        i = i + 1;
    }
    proof {
        lemma_dv_list_index(r, 0);
        lemma_dv_list_index(*items, 0);
        assert(dv_list(r, 0) =~= dv_list(*items, 0));
    }
    r
}

fn clone_props(props: &Vec<(Vec<u8>, AmfValue)>) -> (r: Vec<(Vec<u8>, AmfValue)>)
    ensures
        dv_props(r, 0) == dv_props(*props, 0),
    decreases *props, 1int,
{
    let ghost g = *props;
    let mut r: Vec<(Vec<u8>, AmfValue)> = Vec::new();
    let mut i: usize = 0;
    while i < props.len()
        invariant
            i <= props.len(),
            r@.len() == i,
            *props == g,
            forall|k: int| 0 <= k < i ==> r@[k].0@ == props@[k].0@ && dv(r@[k].1) == dv(
                props@[k].1,
            ),
        decreases props.len() - i,
    {
        proof {
            assert(decreases_to!(g => g[i as int]));
            assert(decreases_to!(g[i as int] => g[i as int].1));
        }
        let key = clone_bytes(&props[i].0);
        let val = clone_value(&props[i].1);
        r.push((key, val));
        i = i + 1;
    }
    proof {
        lemma_dv_props_index(r, 0);
        lemma_dv_props_index(*props, 0);
        assert(dv_props(r, 0) =~= dv_props(*props, 0));
    }
    r
}

fn lookup<'a>(props: &'a Vec<(Vec<u8>, AmfValue)>, key: &Vec<u8>) -> (r: Option<&'a AmfValue>)
    ensures
        match r {
            Some(v) => spec_lookup(dv_props(*props, 0), key@) == Some(dv(*v)),
            None => spec_lookup(dv_props(*props, 0), key@) is None,
        },
{
    proof {
        lemma_dv_props_index(*props, 0);
        assert(dv_props(*props, 0).skip(0int) =~= dv_props(*props, 0));
    }
    let mut i: usize = 0;
    while i < props.len()
        invariant
            i <= props.len(),
            spec_lookup(dv_props(*props, 0), key@) == spec_lookup(
                dv_props(*props, 0).skip(i as int),
                key@,
            ),
        decreases props.len() - i,
    {
        proof {
            lemma_dv_props_index(*props, 0);
            assert(dv_props(*props, 0).skip(i as int)[0] == dv_props(*props, 0)[i as int]);
        }
        if props[i].0 == *key {
            proof {
                assert(props@[i as int].0@ =~= key@);
            }
            return Some(&props[i].1);
        }
        proof {
            assert(props@[i as int].0@ != key@) by {
                if props@[i as int].0@ == key@ {
                    assert(props@[i as int].0@ =~= key@);
                    assert(false);
                }
            }
            assert(dv_props(*props, 0).skip(i as int).skip(1) =~= dv_props(*props, 0).skip(
                i + 1,
            ));
        }
        i = i + 1;
    }
    proof {
        lemma_dv_props_index(*props, 0);
        assert(dv_props(*props, 0).skip(props@.len() as int).len() == 0);
    }
    None
}

} // verus!
