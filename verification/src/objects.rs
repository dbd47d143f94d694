//! The object model: the PDF values this library emits, with their
//! mathematical views.

use vstd::prelude::*;

verus! {

/// Identifier of a registered object: object number and generation number,
/// assigned by the document store at insertion time.
pub type ObjectId = (u32, u16);

/// A PDF object value, restricted to the kinds this library emits.
#[derive(Debug, PartialEq, Eq)]
pub enum Value {
    /// An integer number.
    Integer(i64),
    /// A name, written `/Name` in a PDF file.
    Name(String),
    /// A string literal, written `(text)` in a PDF file.
    Text(String),
    /// An indirect reference to a registered object.
    Reference(ObjectId),
    /// An ordered array of objects.
    Array(Vec<Value>),
    /// A nested dictionary.
    Dict(Dict),
}

/// One key-value entry of a dictionary.
#[derive(Debug, PartialEq, Eq)]
pub struct Entry {
    pub key: String,
    pub value: Value,
}

/// An ordered key-value mapping with unique keys.
#[derive(Debug, PartialEq, Eq)]
pub struct Dict {
    pub entries: Vec<Entry>,
}

/// The mathematical value of a `Value`, and of an object held by the
/// document store.
pub enum SpecValue {
    Integer(int),
    Name(Seq<char>),
    Text(Seq<char>),
    Reference(ObjectId),
    Array(Seq<SpecValue>),
    Dict(Seq<(Seq<char>, SpecValue)>),
    /// A content stream held by the document store; only its presence is
    /// modeled, not its bytes.
    Stream,
}

/// The mathematical value of a `Value`.
pub open spec fn value_view(o: Value) -> SpecValue
    decreases o,
{
    match o {
        Value::Integer(i) => SpecValue::Integer(i as int),
        Value::Name(s) => SpecValue::Name(s@),
        Value::Text(s) => SpecValue::Text(s@),
        Value::Reference(id) => SpecValue::Reference(id),
        Value::Array(items) => SpecValue::Array(values_view(items@)),
        Value::Dict(d) => SpecValue::Dict(entries_view(d.entries@)),
    }
}

/// The mathematical values of a sequence of objects, in order.
pub open spec fn values_view(items: Seq<Value>) -> Seq<SpecValue>
    decreases items,
{
    if items.len() == 0 {
        Seq::empty()
    } else {
        seq![value_view(items[0])] + values_view(items.drop_first())
    }
}

/// The mathematical values of a sequence of entries, in order.
pub open spec fn entries_view(entries: Seq<Entry>) -> Seq<(Seq<char>, SpecValue)>
    decreases entries,
{
    if entries.len() == 0 {
        Seq::empty()
    } else {
        seq![(entries[0].key@, value_view(entries[0].value))] + entries_view(entries.drop_first())
    }
}

impl View for Value {
    type V = SpecValue;

    open spec fn view(&self) -> SpecValue {
        value_view(*self)
    }
}

impl View for Dict {
    type V = Seq<(Seq<char>, SpecValue)>;

    open spec fn view(&self) -> Seq<(Seq<char>, SpecValue)> {
        entries_view(self.entries@)
    }
}

impl Dict {
    /// The keys of this dictionary are pairwise distinct.
    pub open spec fn wf(&self) -> bool {
        forall|i: int, j: int|
            0 <= i < j < self@.len() ==> self@[i].0 != self@[j].0
    }
}

/// Every dictionary inside this value, at any depth, has pairwise
/// distinct keys.
pub open spec fn value_deep_wf(o: Value) -> bool
    decreases o,
{
    match o {
        Value::Integer(_) => true,
        Value::Name(_) => true,
        Value::Text(_) => true,
        Value::Reference(_) => true,
        Value::Array(items) => forall|i: int|
            0 <= i < items@.len() ==> value_deep_wf(#[trigger] items@[i]),
        Value::Dict(d) => dict_deep_wf(d),
    }
}

/// The dictionary's keys are pairwise distinct, and so are those of
/// every dictionary nested in its values.
pub open spec fn dict_deep_wf(d: Dict) -> bool
    decreases d,
{
    &&& d.wf()
    &&& forall|i: int|
        0 <= i < d.entries@.len() ==> value_deep_wf(#[trigger] d.entries@[i].value)
}

/// The view of a sequence of objects is the element-wise view.
pub proof fn lemma_values_view_is_map(items: Seq<Value>)
    ensures
        values_view(items) == items.map_values(|o: Value| value_view(o)),
    decreases items.len(),
{
    let f = |o: Value| value_view(o);
    if items.len() == 0 {
        assert(values_view(items) =~= items.map_values(f));
    } else {
        lemma_values_view_is_map(items.drop_first());
        assert(values_view(items) =~= items.map_values(f));
    }
}

/// The view of a sequence of entries is the entry-wise view.
pub proof fn lemma_entries_view_is_map(entries: Seq<Entry>)
    ensures
        entries_view(entries) == entries.map_values(|e: Entry| (e.key@, value_view(e.value))),
    decreases entries.len(),
{
    let f = |e: Entry| (e.key@, value_view(e.value));
    if entries.len() == 0 {
        assert(entries_view(entries) =~= entries.map_values(f));
    } else {
        lemma_entries_view_is_map(entries.drop_first());
        assert(entries_view(entries) =~= entries.map_values(f));
    }
}

} // verus!
