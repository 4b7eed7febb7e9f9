//! Loosely typed structured data: what a tool takes as arguments.

use vstd::prelude::*;

verus! {

/// A value without a fixed schema: null, a truth value, a number, a text,
/// an array, or an object of named fields.  A number is kept as its decimal
/// text, so that nothing of it is lost; an object keeps its entries in
/// order.
#[derive(Debug, PartialEq, Eq)]
pub enum StructuredValue {
    Null,
    Bool(bool),
    Number(String),
    Text(String),
    Array(Vec<StructuredValue>),
    Object(Vec<(String, StructuredValue)>),
}

/// The mathematical content of a `StructuredValue`.
pub enum ValueView {
    Null,
    Bool(bool),
    Number(Seq<char>),
    Text(Seq<char>),
    Array(Seq<ValueView>),
    Object(Seq<FieldView>),
}

/// One entry of an object.
pub struct FieldView {
    pub key: Seq<char>,
    pub value: ValueView,
}

/// The value of the first entry under `key`.
pub open spec fn lookup(entries: Seq<FieldView>, key: Seq<char>) -> Option<ValueView>
    decreases entries.len(),
{
    if entries.len() == 0 {
        None
    } else if entries[0].key == key {
        Some(entries[0].value)
    } else {
        lookup(entries.drop_first(), key)
    }
}

impl ValueView {
    /// The object without entries.
    pub open spec fn empty_object() -> ValueView {
        ValueView::Object(Seq::empty())
    }

    /// The field `key` of an object; nothing for any other value.
    pub open spec fn get(self, key: Seq<char>) -> Option<ValueView> {
        match self {
            ValueView::Object(entries) => lookup(entries, key),
            _ => None,
        }
    }

    /// The characters of a text; nothing for any other value.
    pub open spec fn as_str(self) -> Option<Seq<char>> {
        match self {
            ValueView::Text(text) => Some(text),
            _ => None,
        }
    }
}

impl View for StructuredValue {
    type V = ValueView;

    open spec fn view(&self) -> ValueView
        decreases self,
    {
        match self {
            StructuredValue::Null => ValueView::Null,
            StructuredValue::Bool(b) => ValueView::Bool(*b),
            StructuredValue::Number(digits) => ValueView::Number(digits@),
            StructuredValue::Text(text) => ValueView::Text(text@),
            StructuredValue::Array(items) => ValueView::Array(
                Seq::new(
                    items@.len(),
                    |i: int|
                        if 0 <= i < items@.len() {
                            items@[i]@
                        } else {
                            ValueView::Null
                        },
                ),
            ),
            StructuredValue::Object(entries) => ValueView::Object(
                Seq::new(
                    entries@.len(),
                    |i: int|
                        if 0 <= i < entries@.len() {
                            FieldView { key: entries@[i].0@, value: entries@[i].1@ }
                        } else {
                            FieldView { key: Seq::empty(), value: ValueView::Null }
                        },
                ),
            ),
        }
    }
}

impl DeepView for StructuredValue {
    type V = ValueView;

    open spec fn deep_view(&self) -> ValueView {
        self@
    }
}

impl Clone for StructuredValue {
    /// A copy with the same content.
    fn clone(&self) -> (copy: StructuredValue)
        ensures
            copy@ == self@,
        decreases self,
    {
        match self {
            StructuredValue::Null => StructuredValue::Null,
            StructuredValue::Bool(b) => StructuredValue::Bool(*b),
            StructuredValue::Number(digits) => StructuredValue::Number(digits.clone()),
            StructuredValue::Text(text) => StructuredValue::Text(text.clone()),
            StructuredValue::Array(items) => {
                let mut copies: Vec<StructuredValue> = Vec::new();
                let mut i: usize = 0;
                while i < items.len()
                    invariant
                        i <= items.len(),
                        copies.len() == i,
                        forall|k: int| 0 <= k < i ==> copies@[k]@ == items@[k]@,
                        forall|k: int| 0 <= k < items.len() ==> decreases_to!(self => items@[k]),
                    decreases items.len() - i,
                {
                    copies.push(items[i].clone());
                    i += 1;
                }
                let copy = StructuredValue::Array(copies);
                assert(copy@->Array_0 =~= self@->Array_0);
                copy
            },
            StructuredValue::Object(entries) => {
                let mut copies: Vec<(String, StructuredValue)> = Vec::new();
                let mut i: usize = 0;
                while i < entries.len()
                    invariant
                        i <= entries.len(),
                        copies.len() == i,
                        forall|k: int|
                            0 <= k < i ==> copies@[k].0@ == entries@[k].0@ && copies@[k].1@
                                == entries@[k].1@,
                        forall|k: int|
                            0 <= k < entries.len() ==> decreases_to!(self => entries@[k].1),
                    decreases entries.len() - i,
                {
                    copies.push((entries[i].0.clone(), entries[i].1.clone()));
                    i += 1;
                }
                let copy = StructuredValue::Object(copies);
                assert(copy@->Object_0 =~= self@->Object_0);
                copy
            },
        }
    }
}

impl StructuredValue {
    /// The object without entries.
    pub fn empty_object() -> (value: StructuredValue)
        ensures
            value@ == ValueView::empty_object(),
    {
        let value = StructuredValue::Object(Vec::new());
        assert(value@->Object_0 =~= Seq::empty());
        value
    }

    /// The field `key` of an object: the value of the first entry under that
    /// key.  Any other value has no fields.
    pub fn get(&self, key: &str) -> (field: Option<&StructuredValue>)
        ensures
            match field {
                Some(value) => self@.get(key@) == Some(value@),
                None => self@.get(key@) is None,
            },
    {
        match self {
            StructuredValue::Object(entries) => {
                let wanted = key.to_owned();
                let ghost all = self@->Object_0;
                assert(all.subrange(0, all.len() as int) =~= all);
                let mut i: usize = 0;
                while i < entries.len()
                    invariant
                        i <= entries.len(),
                        wanted@ == key@,
                        self@.get(key@) == lookup(all, key@),
                        all.len() == entries.len(),
                        forall|k: int|
                            0 <= k < entries.len() ==> all[k].key == entries@[k].0@ && all[k].value
                                == entries@[k].1@,
                        lookup(all, key@) == lookup(all.subrange(i as int, all.len() as int), key@),
                    decreases entries.len() - i,
                {
                    let ghost rest = all.subrange(i as int, all.len() as int);
                    assert(rest.drop_first() =~= all.subrange(i + 1, all.len() as int));
                    assert(rest[0] == all[i as int]);
                    if entries[i].0 == wanted {
                        return Some(&entries[i].1);
                    }
                    i += 1;
                }
                None
            },
            _ => None,
        }
    }

    /// The characters of a text; nothing for any other value.
    pub fn as_str(&self) -> (text: Option<&str>)
        ensures
            match text {
                Some(chars) => self@.as_str() == Some(chars@),
                None => self@.as_str() is None,
            },
    {
        match self {
            StructuredValue::Text(text) => Some(text.as_str()),
            _ => None,
        }
    }
}

} // verus!
