//! A parsed configuration document: the value tree of an HCL body, and the
//! lenient readers that take typed values out of it.
//!
//! Every node carries `text`, its rendering in HCL notation, which warnings
//! quote when a value is refused.

use vstd::prelude::*;
use crate::text::str_eq;

verus! {

/// One value of a document.
pub enum HclValue {
    Null,
    Bool(bool),
    /// A number that is a non-negative integer.
    PosInt(u64),
    /// A number that is a negative integer.
    NegInt(i64),
    /// A number with a fractional part or exponent.
    Float,
    Str(String),
    Array(Vec<HclNode>),
    Object(Vec<HclEntry>),
}

/// A value together with its rendering.
pub struct HclNode {
    pub value: HclValue,
    pub text: String,
}

/// One attribute of an object, in document order.
pub struct HclEntry {
    pub key: String,
    pub node: HclNode,
}

/// What a lenient field holds: nothing (absent or null), a value of the
/// expected type, or some other value, kept as its rendering.
pub enum Got<T> {
    Absent,
    Valid(T),
    Invalid(Seq<char>),
}

/// The executable form of [`Got`].
pub enum Lenient<T> {
    Absent,
    Valid(T),
    Invalid(String),
}

impl<T: View> View for Lenient<T> {
    type V = Got<T::V>;

    open spec fn view(&self) -> Got<T::V> {
        match self {
            Lenient::Absent => Got::Absent,
            Lenient::Valid(v) => Got::Valid(v@),
            Lenient::Invalid(s) => Got::Invalid(s@),
        }
    }
}

/// The first entry of `es` at or after `i` whose key is `key`.
pub open spec fn find_from(es: Seq<HclEntry>, key: Seq<char>, i: int) -> Option<HclNode>
    decreases es.len() - i,
{
    if i < 0 || i >= es.len() {
        None
    } else if es[i].key@ == key {
        Some(es[i].node)
    } else {
        find_from(es, key, i + 1)
    }
}

/// The value of attribute `key` of an object's entries.
pub open spec fn field(es: Seq<HclEntry>, key: Seq<char>) -> Option<HclNode> {
    find_from(es, key, 0)
}

/// Looks up an attribute of an object.
pub fn find_field<'a>(es: &'a Vec<HclEntry>, key: &str) -> (r: Option<&'a HclNode>)
    ensures
        match r {
            Some(n) => field(es@, key@) == Some(*n),
            None => field(es@, key@) is None,
        },
{
    let mut i: usize = 0;
    while i < es.len()
        invariant
            i <= es.len(),
            field(es@, key@) == find_from(es@, key@, i as int),
        decreases es.len() - i,
    {
        if str_eq(es[i].key.as_str(), key) {
            return Some(&es[i].node);
        }
        i += 1;
    }
    None
}

/// Entries of an object, or none for any other value.
pub open spec fn entries_of(n: HclNode) -> Seq<HclEntry> {
    match n.value {
        HclValue::Object(es) => es@,
        _ => Seq::empty(),
    }
}

/// Attributes of `es` from `i` on whose keys are not in `known`, as
/// (key, rendering) pairs in document order.
pub open spec fn extras_from(es: Seq<HclEntry>, known: Seq<Seq<char>>, i: int) -> Seq<
    (Seq<char>, Seq<char>),
>
    decreases es.len() - i,
{
    if i < 0 || i >= es.len() {
        Seq::empty()
    } else if known.contains(es[i].key@) {
        extras_from(es, known, i + 1)
    } else {
        seq![(es[i].key@, es[i].node.text@)] + extras_from(es, known, i + 1)
    }
}

/// Attributes of `es` whose keys are not in `known`.
pub open spec fn extras(es: Seq<HclEntry>, known: Seq<Seq<char>>) -> Seq<(Seq<char>, Seq<char>)> {
    extras_from(es, known, 0)
}

/// An attribute that a section does not know.
pub struct ExtraKey {
    pub key: String,
    pub text: String,
}

impl View for ExtraKey {
    type V = (Seq<char>, Seq<char>);

    open spec fn view(&self) -> (Seq<char>, Seq<char>) {
        (self.key@, self.text@)
    }
}

/// The views of a list of unknown attributes.
pub open spec fn extra_views(v: Seq<ExtraKey>) -> Seq<(Seq<char>, Seq<char>)> {
    v.map_values(|e: ExtraKey| e@)
}

fn contains_key(known: &Vec<String>, key: &String) -> (r: bool)
    ensures
        r == known.deep_view().contains(key@),
{
    let mut i: usize = 0;
    while i < known.len()
        invariant
            i <= known.len(),
            forall|k: int| 0 <= k < i ==> known.deep_view()[k] != key@,
        decreases known.len() - i,
    {
        if str_eq(known[i].as_str(), key.as_str()) {
            assert(known.deep_view()[i as int] == key@);
            return true;
        }
        i += 1;
    }
    false
}

/// Collects the attributes of an object that `known` does not list.
pub fn collect_extras(es: &Vec<HclEntry>, known: &Vec<String>) -> (r: Vec<ExtraKey>)
    ensures
        extra_views(r@) == extras(es@, known.deep_view()),
{
    let mut out: Vec<ExtraKey> = Vec::new();
    let mut i: usize = 0;
    while i < es.len()
        invariant
            i <= es.len(),
            extra_views(out@) + extras_from(es@, known.deep_view(), i as int) == extras(
                es@,
                known.deep_view(),
            ),
        decreases es.len() - i,
    {
        if !contains_key(known, &es[i].key) {
            out.push(ExtraKey { key: es[i].key.clone(), text: es[i].node.text.clone() });
            assert(extra_views(out@) == extra_views(out@.drop_last()).push(out@.last()@));
        }
        i += 1;
    }
    out
}

/// A non-negative integer that fits `max`.
pub open spec fn dec_uint(n: HclNode, max: u64) -> Option<u64> {
    match n.value {
        HclValue::PosInt(v) => if v <= max {
            Some(v)
        } else {
            None
        },
        _ => None,
    }
}

/// Reads a non-negative integer of at most `max`.
pub fn read_uint(n: &HclNode, max: u64) -> (r: Option<u64>)
    ensures
        r == dec_uint(*n, max),
{
    match &n.value {
        HclValue::PosInt(v) => if *v <= max {
            Some(*v)
        } else {
            None
        },
        _ => None,
    }
}

/// A boolean.
pub open spec fn dec_bool(n: HclNode) -> Option<bool> {
    match n.value {
        HclValue::Bool(b) => Some(b),
        _ => None,
    }
}

/// Reads a boolean.
pub fn read_bool(n: &HclNode) -> (r: Option<bool>)
    ensures
        r == dec_bool(*n),
{
    match &n.value {
        HclValue::Bool(b) => Some(*b),
        _ => None,
    }
}

/// A string.
pub open spec fn dec_str(n: HclNode) -> Option<Seq<char>> {
    match n.value {
        HclValue::Str(s) => Some(s@),
        _ => None,
    }
}

/// Reads a string.
pub fn read_str(n: &HclNode) -> (r: Option<String>)
    ensures
        match r {
            Some(s) => dec_str(*n) == Some(s@),
            None => dec_str(*n) is None,
        },
{
    match &n.value {
        HclValue::Str(s) => Some(s.clone()),
        _ => None,
    }
}

/// Whether every node holds a string.
pub open spec fn all_strs(items: Seq<HclNode>) -> bool {
    forall|i: int| 0 <= i < items.len() ==> is_str_node(#[trigger] items[i])
}

/// Whether a node holds a string.
pub open spec fn is_str_node(n: HclNode) -> bool {
    n.value is Str
}

/// A list of strings: an array whose items are all strings.
pub open spec fn dec_strings(n: HclNode) -> Option<Seq<Seq<char>>> {
    match n.value {
        HclValue::Array(items) => if all_strs(items@) {
            Some(Seq::new(items@.len(), |i: int| items@[i].value->Str_0@))
        } else {
            None
        },
        _ => None,
    }
}

/// Reads a list of strings.
pub fn read_strings(n: &HclNode) -> (r: Option<Vec<String>>)
    ensures
        match r {
            Some(v) => dec_strings(*n) == Some(v.deep_view()),
            None => dec_strings(*n) is None,
        },
{
    match &n.value {
        HclValue::Array(items) => {
            let mut out: Vec<String> = Vec::new();
            let mut i: usize = 0;
            while i < items.len()
                invariant
                    n.value is Array,
                    n.value->Array_0@ == items@,
                    i <= items.len(),
                    out@.len() == i,
                    forall|k: int| 0 <= k < i ==> is_str_node(#[trigger] items@[k]),
                    forall|k: int|
                        0 <= k < i ==> #[trigger] out@[k]@ == items@[k].value->Str_0@,
                decreases items.len() - i,
            {
                match &items[i].value {
                    HclValue::Str(s) => {
                        out.push(s.clone());
                    },
                    _ => {
                        assert(!is_str_node(items@[i as int]));
                        assert(!all_strs(items@));
                        return None;
                    },
                }
                i += 1;
            }
            assert(all_strs(items@));
            assert(out.deep_view() =~= Seq::new(
                items@.len(),
                |k: int| items@[k].value->Str_0@,
            ));
            assert(dec_strings(*n) == Some(out.deep_view()));
            Some(out)
        },
        _ => None,
    }
}

/// A unit enum value named `a` (index 0) or `b` (index 1): the name as a
/// string, or a one-attribute object whose key is the name and value null.
pub open spec fn dec_choice(n: HclNode, a: Seq<char>, b: Seq<char>) -> Option<nat> {
    match n.value {
        HclValue::Str(s) => if s@ == a {
            Some(0)
        } else if s@ == b {
            Some(1)
        } else {
            None
        },
        HclValue::Object(es) => if es@.len() == 1 && es@[0].node.value is Null {
            if es@[0].key@ == a {
                Some(0)
            } else if es@[0].key@ == b {
                Some(1)
            } else {
                None
            }
        } else {
            None
        },
        _ => None,
    }
}

/// Reads a unit enum value with two variants.
pub fn read_choice(n: &HclNode, a: &str, b: &str) -> (r: Option<usize>)
    ensures
        match r {
            Some(i) => dec_choice(*n, a@, b@) == Some(i as nat),
            None => dec_choice(*n, a@, b@) is None,
        },
{
    match &n.value {
        HclValue::Str(s) => if str_eq(s.as_str(), a) {
            Some(0)
        } else if str_eq(s.as_str(), b) {
            Some(1)
        } else {
            None
        },
        HclValue::Object(es) => {
            if es.len() == 1 {
                match &es[0].node.value {
                    HclValue::Null => {
                        if str_eq(es[0].key.as_str(), a) {
                            Some(0)
                        } else if str_eq(es[0].key.as_str(), b) {
                            Some(1)
                        } else {
                            None
                        }
                    },
                    _ => None,
                }
            } else {
                None
            }
        },
        _ => None,
    }
}

/// Whether a node is null.
pub fn is_null(n: &HclNode) -> (r: bool)
    ensures
        r == (n.value is Null),
{
    match &n.value {
        HclValue::Null => true,
        _ => false,
    }
}

/// A lenient optional field: absent when missing or null, else valid when
/// `d` decodes it.
pub open spec fn lenient<T>(n: Option<HclNode>, d: Option<T>) -> Got<T> {
    match n {
        None => Got::Absent,
        Some(x) => if x.value is Null {
            Got::Absent
        } else {
            match d {
                Some(v) => Got::Valid(v),
                None => Got::Invalid(x.text@),
            }
        },
    }
}

/// A lenient field that holds an object.
pub open spec fn got_object(n: Option<HclNode>) -> Got<Seq<HclEntry>> {
    lenient(
        n,
        match n {
            Some(x) => match x.value {
                HclValue::Object(es) => Some(es@),
                _ => None,
            },
            None => None,
        },
    )
}

/// Reads a lenient field that holds an object.
pub fn lenient_object<'a>(n: Option<&'a HclNode>) -> (r: (Option<&'a Vec<HclEntry>>, Option<String>))
    ensures
        match got_object(match n { Some(x) => Some(*x), None => None }) {
            Got::Absent => r.0 is None && r.1 is None,
            Got::Valid(es) => r.0 is Some && r.0.unwrap()@ == es && r.1 is None,
            Got::Invalid(t) => r.0 is None && r.1 is Some && r.1.unwrap()@ == t,
        },
{
    match n {
        None => (None, None),
        Some(x) => match &x.value {
            HclValue::Null => (None, None),
            HclValue::Object(es) => (Some(es), None),
            _ => (None, Some(x.text.clone())),
        },
    }
}

} // verus!
