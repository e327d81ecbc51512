//! Builders for property lists, and an index of GDSII properties by attribute code.

use crate::gdsii::GDSProperty;
use crate::index::{codes, index_of, lemma_index_of_push, lists, Entry};
use crate::oasis::{Property, PropertyValue, PropertyValueView, PropertyView};
use crate::sorting::{ascending, lemma_sorted_distinct, sort_codes};
use std::collections::HashMap;
use vstd::prelude::*;
use vstd::std_specs::iter::IteratorSpec;

verus! {

/// Builds a list of GDSII properties, one property at a time.
///
/// The builder does not ask that a code is new: a code that is added twice is in the
/// list twice.
#[derive(Debug, Clone)]
pub struct PropertyBuilder {
    properties: Vec<GDSProperty>,
}

impl View for PropertyBuilder {
    type V = Seq<Entry>;

    /// The properties added so far, in the order in which they were added.
    closed spec fn view(&self) -> Seq<Entry> {
        self.properties.deep_view()
    }
}

impl Default for PropertyBuilder {
    /// A builder to which nothing has been added.
    fn default() -> (builder: Self)
        ensures
            builder@ == Seq::<Entry>::empty(),
    {
        PropertyBuilder::new()
    }
}

impl PropertyBuilder {
    /// A builder to which nothing has been added.
    pub fn new() -> (builder: Self)
        ensures
            builder@ == Seq::<Entry>::empty(),
    {
        let builder = PropertyBuilder { properties: Vec::new() };
        assert(builder@ =~= Seq::<Entry>::empty());
        builder
    }

    /// Adds a property with the code `attribute` and the value `value` at the end.
    pub fn add(self, attribute: i16, value: String) -> (builder: Self)
        ensures
            builder@ == self@.push((attribute, value@)),
    {
        let mut properties = self.properties;
        properties.push(GDSProperty { attribute, value });
        let builder = PropertyBuilder { properties };
        assert(builder@ =~= self@.push((attribute, value@)));
        builder
    }

    /// The properties that were added, in the order in which they were added.
    pub fn build(self) -> (props: Vec<GDSProperty>)
        ensures
            props.deep_view() == self@,
            props.len() == self@.len(),
    {
        self.properties
    }
}

/// The list that a builder holds after the properties of `entries` were added, one after
/// the other, to a builder that held `built`.
pub open spec fn after_adding(built: Seq<Entry>, entries: Seq<Entry>) -> Seq<Entry>
    decreases entries.len(),
{
    if entries.len() == 0 {
        built
    } else {
        after_adding(built.push(entries.first()), entries.drop_first())
    }
}

/// Adding properties to a builder puts them behind those that it held, in the order in
/// which they were added.
pub proof fn lemma_adding_appends(built: Seq<Entry>, entries: Seq<Entry>)
    ensures
        after_adding(built, entries) == built + entries,
    decreases entries.len(),
{
    if entries.len() == 0 {
        assert(built + entries =~= built);
    } else {
        lemma_adding_appends(built.push(entries.first()), entries.drop_first());
        assert(built.push(entries.first()) + entries.drop_first() =~= built + entries);
    }
}

/// A new builder to which properties were added builds exactly these properties, in
/// the order in which they were added, whether or not a code occurs twice among them.
pub proof fn lemma_build_yields_insertions(entries: Seq<Entry>)
    ensures
        after_adding(Seq::<Entry>::empty(), entries) == entries,
{
    lemma_adding_appends(Seq::<Entry>::empty(), entries);
    assert(Seq::<Entry>::empty() + entries =~= entries);
}

/// An index of GDSII properties by attribute code.
///
/// It holds one value for each code. Built from a list in which a code occurs more
/// than once, it keeps the value of the code's last occurrence.
#[derive(Debug, Clone)]
pub struct PropertyManager {
    properties: HashMap<i16, String>,
}

/// The characters of each value of a map from codes to strings.
spec fn values_as_chars(properties: Map<i16, String>) -> Map<i16, Seq<char>> {
    properties.map_values(|value: String| value@)
}

impl View for PropertyManager {
    type V = Map<i16, Seq<char>>;

    /// The index as a map from each attribute code it holds to the characters of the
    /// code's value.
    closed spec fn view(&self) -> Map<i16, Seq<char>> {
        values_as_chars(self.properties@)
    }
}

impl PropertyManager {
    /// Indexes a list of properties. Where a code occurs more than once, the value of
    /// its last occurrence stays.
    pub fn from_properties(props: &[GDSProperty]) -> (manager: Self)
        ensures
            manager@ == index_of(props.deep_view()),
    {
        broadcast use vstd::std_specs::hash::group_hash_axioms;

        let mut properties: HashMap<i16, String> = HashMap::new();
        let ghost entries = props.deep_view();
        assert(values_as_chars(properties@) =~= index_of(entries.take(0)));
        for i in 0..props.len()
            invariant
                entries == props.deep_view(),
                values_as_chars(properties@) == index_of(entries.take(i as int)),
        {
            let prop = &props[i];
            let ghost before = properties@;
            properties.insert(prop.attribute, prop.value.clone());
            proof {
                assert(entries.take(i + 1) =~= entries.take(i as int).push(entries[i as int]));
                lemma_index_of_push(entries.take(i as int), entries[i as int]);
                assert(values_as_chars(properties@) =~= values_as_chars(before).insert(
                    prop.attribute,
                    prop.value@,
                ));
            }
        }
        assert(entries.take(props.len() as int) =~= entries);
        PropertyManager { properties }
    }

    /// The value of the attribute code `attribute`, or `None` where the index does not
    /// hold the code.
    pub fn get(&self, attribute: i16) -> (value: Option<&str>)
        ensures
            match value {
                Some(text) => self@.contains_key(attribute) && text@ == self@[attribute],
                None => !self@.contains_key(attribute),
            },
    {
        broadcast use vstd::std_specs::hash::group_hash_axioms;

        match self.properties.get(&attribute) {
            Some(value) => Some(value.as_str()),
            None => None,
        }
    }

    /// Whether the index holds the attribute code `attribute`.
    pub fn has_property(&self, attribute: i16) -> (held: bool)
        ensures
            held == self@.contains_key(attribute),
    {
        broadcast use vstd::std_specs::hash::group_hash_axioms;

        self.properties.contains_key(&attribute)
    }

    /// The attribute codes that the index holds, each once, in ascending order.
    pub fn attributes(&self) -> (attrs: Vec<i16>)
        ensures
            ascending(attrs@),
            attrs@.no_duplicates(),
            attrs@.to_set() == self@.dom(),
    {
        broadcast use vstd::std_specs::hash::group_hash_axioms;

        let mut attrs: Vec<i16> = Vec::new();
        let ghost keys = self.properties.keys().remaining().unref();
        for key in it: self.properties.keys()
            invariant
                it.seq().unref() == keys,
                attrs@ == keys.take(it.index()),
        {
            attrs.push(*key);
            assert(keys.take(it.index() + 1) =~= keys.take(it.index()).push(*key));
        }
        assert(attrs@ =~= keys);
        let ghost unsorted = attrs@;
        let attrs = sort_codes(attrs);
        proof {
            assert(unsorted.no_duplicates());
            assert(unsorted.to_set() == self.properties@.dom());
            lemma_sorted_distinct(unsorted, attrs@);
            assert(self@.dom() =~= self.properties@.dom());
        }
        attrs
    }

    /// The properties that the index holds, one for each attribute code, in ascending
    /// order of the codes.
    ///
    /// This is the canonical list of the index. It is not the list that the index was
    /// built from: of a code that occurred more than once only the last value is left,
    /// and the order is that of the codes.
    pub fn to_properties(&self) -> (props: Vec<GDSProperty>)
        ensures
            lists(props.deep_view(), self@),
    {
        broadcast use vstd::std_specs::hash::group_hash_axioms;

        let attrs = self.attributes();
        let mut props: Vec<GDSProperty> = Vec::new();
        for i in 0..attrs.len()
            invariant
                ascending(attrs@),
                attrs@.to_set() == self@.dom(),
                props.len() == i,
                forall|k: int|
                    0 <= k < i ==> (#[trigger] props[k]).attribute == attrs[k]
                        && props[k].value@ == self@[attrs[k]],
        {
            let attribute: i16 = attrs[i];
            assert(attrs@.to_set().contains(attribute));
            let value = self.properties.get(&attribute).unwrap();
            props.push(GDSProperty { attribute, value: value.clone() });
        }
        proof {
            let entries = props.deep_view();
            assert(codes(entries) =~= attrs@);
            assert forall|entry: Entry| entries.to_set().contains(entry) == self@.kv_pairs().contains(
                entry,
            ) by {
                if entries.contains(entry) {
                    let k = choose|k: int| 0 <= k < entries.len() && entries[k] == entry;
                    assert(attrs@.to_set().contains(attrs[k]));
                }
                if self@.kv_pairs().contains(entry) {
                    assert(attrs@.contains(entry.0));
                    let k = choose|k: int| 0 <= k < attrs.len() && attrs[k] == entry.0;
                    assert(entries[k] == entry);
                }
            }
            assert(entries.to_set() =~= self@.kv_pairs());
        }
        props
    }
}

/// The property named `name` that has the one value `value`.
pub open spec fn single_valued(name: Seq<char>, value: PropertyValueView) -> PropertyView {
    PropertyView { name, values: seq![value] }
}

/// A property of one value that is added to a list stands last in it, under its name,
/// with exactly one value: the value given, of the kind given. The properties before
/// it stay as they were.
pub proof fn lemma_added_property_has_one_value(
    built: Seq<PropertyView>,
    name: Seq<char>,
    value: PropertyValueView,
)
    ensures
        ({
            let after = built.push(single_valued(name, value));
            &&& after.len() == built.len() + 1
            &&& after.take(built.len() as int) == built
            &&& after.last().name == name
            &&& after.last().values.len() == 1
            &&& after.last().values[0] == value
        }),
{
    let after = built.push(single_valued(name, value));
    assert(after.take(built.len() as int) =~= built);
}

/// Builds a list of OASIS properties, one property of one value at a time.
///
/// A property of no value or of several values is not built here: it is written as a
/// [`Property`] directly.
#[derive(Debug, Clone)]
pub struct OASISPropertyBuilder {
    properties: Vec<Property>,
}

impl View for OASISPropertyBuilder {
    type V = Seq<PropertyView>;

    /// The properties added so far, in the order in which they were added.
    closed spec fn view(&self) -> Seq<PropertyView> {
        self.properties.deep_view()
    }
}

impl Default for OASISPropertyBuilder {
    /// A builder to which nothing has been added.
    fn default() -> (builder: Self)
        ensures
            builder@ == Seq::<PropertyView>::empty(),
    {
        OASISPropertyBuilder::new()
    }
}

impl OASISPropertyBuilder {
    /// A builder to which nothing has been added.
    pub fn new() -> (builder: Self)
        ensures
            builder@ == Seq::<PropertyView>::empty(),
    {
        let builder = OASISPropertyBuilder { properties: Vec::new() };
        assert(builder@ =~= Seq::<PropertyView>::empty());
        builder
    }

    /// Adds the property `name` with the one value `value` at the end.
    fn add_value(self, name: String, value: PropertyValue) -> (builder: Self)
        ensures
            builder@ == self@.push(single_valued(name@, value.deep_view())),
    {
        let mut properties = self.properties;
        let values = vec![value];
        assert(values.deep_view() =~= seq![value.deep_view()]);
        properties.push(Property { name, values });
        let builder = OASISPropertyBuilder { properties };
        assert(builder@ =~= self@.push(single_valued(name@, value.deep_view())));
        builder
    }

    /// Adds the property `name` with the one value `value`, a string, at the end.
    pub fn add_string(self, name: String, value: String) -> (builder: Self)
        ensures
            builder@ == self@.push(single_valued(name@, PropertyValueView::String(value@))),
    {
        self.add_value(name, PropertyValue::String(value))
    }

    /// Adds the property `name` with the one value `value`, an integer, at the end.
    pub fn add_integer(self, name: String, value: i64) -> (builder: Self)
        ensures
            builder@ == self@.push(single_valued(name@, PropertyValueView::Integer(value))),
    {
        self.add_value(name, PropertyValue::Integer(value))
    }

    /// Adds the property `name` with the one value `value`, a real number, at the
    /// end. The number is given by the 64 bits of its IEEE 754 double-precision
    /// encoding, and is kept bit for bit.
    pub fn add_real(self, name: String, value: u64) -> (builder: Self)
        ensures
            builder@ == self@.push(single_valued(name@, PropertyValueView::Real(value))),
    {
        self.add_value(name, PropertyValue::Real(value))
    }

    /// Adds the property `name` with the one value `value`, a boolean, at the end.
    pub fn add_boolean(self, name: String, value: bool) -> (builder: Self)
        ensures
            builder@ == self@.push(single_valued(name@, PropertyValueView::Boolean(value))),
    {
        self.add_value(name, PropertyValue::Boolean(value))
    }

    /// The properties that were added, in the order in which they were added.
    pub fn build(self) -> (props: Vec<Property>)
        ensures
            props.deep_view() == self@,
            props.len() == self@.len(),
    {
        self.properties
    }
}

} // verus!
