//! Resolved values: the tree that an upstream answers with and that a path
//! is followed through.

use vstd::prelude::*;
use crate::text::{find_first, same_text, lemma_find_first_at, lemma_find_first_none};

verus! {

/// A resolved value. Object entries keep the order in which they were
/// written; a number is held as the text of its literal.
#[derive(Debug, PartialEq, Eq)]
pub enum Value {
    Null,
    Number(String),
    String(String),
    Boolean(bool),
    Binary(Vec<u8>),
    Enum(String),
    List(Vec<Value>),
    Object(Vec<(String, Value)>),
}

/// A resolved value as the contracts see it.
pub enum ValueView {
    Null,
    Number(Seq<char>),
    String(Seq<char>),
    Boolean(bool),
    Binary(Seq<u8>),
    Enum(Seq<char>),
    List(Seq<ValueView>),
    Object(Seq<(Seq<char>, ValueView)>),
}

/// The view of a value: its texts as sequences of characters, its items and
/// entries as sequences of views.
pub open spec fn value_view(value: Value) -> ValueView
    decreases value, 0nat,
{
    match value {
        Value::Null => ValueView::Null,
        Value::Number(text) => ValueView::Number(text@),
        Value::String(text) => ValueView::String(text@),
        Value::Boolean(b) => ValueView::Boolean(b),
        Value::Binary(bytes) => ValueView::Binary(bytes@),
        Value::Enum(name) => ValueView::Enum(name@),
        Value::List(items) => ValueView::List(list_view(items@)),
        Value::Object(entries) => ValueView::Object(object_view(entries@)),
    }
}

/// The views of the items of a list, in order.
pub open spec fn list_view(items: Seq<Value>) -> Seq<ValueView>
    decreases items, 1nat,
{
    if items.len() == 0 {
        Seq::empty()
    } else {
        list_view(items.drop_last()).push(value_view(items.last()))
    }
}

/// The views of the entries of an object, in order.
pub open spec fn object_view(entries: Seq<(String, Value)>) -> Seq<(Seq<char>, ValueView)>
    decreases entries, 1nat,
{
    if entries.len() == 0 {
        Seq::empty()
    } else {
        object_view(entries.drop_last()).push((entries.last().0@, value_view(entries.last().1)))
    }
}

impl View for Value {
    type V = ValueView;

    open spec fn view(&self) -> ValueView {
        value_view(*self)
    }
}

/// The view of a list has one view per item.
pub proof fn lemma_list_view(items: Seq<Value>)
    ensures
        list_view(items).len() == items.len(),
        forall|i: int| 0 <= i < items.len() ==> (#[trigger] list_view(items)[i]) == items[i]@,
    decreases items.len(),
{
    if items.len() > 0 {
        lemma_list_view(items.drop_last());
        assert forall|i: int| 0 <= i < items.len() implies (#[trigger] list_view(items)[i])
            == items[i]@ by {
            if i < items.len() - 1 {
                assert(items.drop_last()[i] == items[i]);
            }
        }
    }
}

/// The view of an object has one entry per entry, under the same name.
pub proof fn lemma_object_view(entries: Seq<(String, Value)>)
    ensures
        object_view(entries).len() == entries.len(),
        forall|i: int|
            0 <= i < entries.len() ==> (#[trigger] object_view(entries)[i]) == (
                entries[i].0@,
                entries[i].1@,
            ),
    decreases entries.len(),
{
    if entries.len() > 0 {
        lemma_object_view(entries.drop_last());
        assert forall|i: int| 0 <= i < entries.len() implies (#[trigger] object_view(entries)[i])
            == (entries[i].0@, entries[i].1@) by {
            if i < entries.len() - 1 {
                assert(entries.drop_last()[i] == entries[i]);
            }
        }
    }
}

impl Value {
    /// A copy of the value, as deep as the value is.
    #[verifier::loop_isolation(false)]
    pub fn duplicate(&self) -> (copy: Value)
        ensures
            copy@ == self@,
        decreases self,
    {
        match self {
            Value::Null => Value::Null,
            Value::Number(text) => Value::Number(text.clone()),
            Value::String(text) => Value::String(text.clone()),
            Value::Boolean(b) => Value::Boolean(*b),
            Value::Binary(bytes) => {
                let mut copy: Vec<u8> = Vec::new();
                let mut i: usize = 0;
                while i < bytes.len()
                    invariant
                        i <= bytes.len(),
                        copy@ == bytes@.take(i as int),
                    decreases bytes.len() - i,
                {
                    copy.push(bytes[i]);
                    assert(copy@ =~= bytes@.take(i as int + 1));
                    i += 1;
                }
                assert(copy@ =~= bytes@);
                Value::Binary(copy)
            },
            Value::Enum(name) => Value::Enum(name.clone()),
            Value::List(items) => {
                let mut copy: Vec<Value> = Vec::new();
                let mut i: usize = 0;
                while i < items.len()
                    invariant
                        i <= items.len(),
                        copy@.len() == i,
                        forall|j: int| 0 <= j < i ==> (#[trigger] copy@[j])@ == items@[j]@,
                    decreases items.len() - i,
                {
                    let item = items[i].duplicate();
                    copy.push(item);
                    i += 1;
                }
                let made = Value::List(copy);
                proof {
                    lemma_list_view(copy@);
                    lemma_list_view(items@);
                    assert(list_view(copy@) =~= list_view(items@));
                }
                made
            },
            Value::Object(entries) => {
                let mut copy: Vec<(String, Value)> = Vec::new();
                let mut i: usize = 0;
                while i < entries.len()
                    invariant
                        i <= entries.len(),
                        copy@.len() == i,
                        forall|j: int|
                            0 <= j < i ==> (#[trigger] copy@[j]).0@ == entries@[j].0@ && copy@[j].1@
                                == entries@[j].1@,
                    decreases entries.len() - i,
                {
                    let name = entries[i].0.clone();
                    let value = entries[i].1.duplicate();
                    copy.push((name, value));
                    i += 1;
                }
                let made = Value::Object(copy);
                proof {
                    lemma_object_view(copy@);
                    lemma_object_view(entries@);
                    assert(object_view(copy@) =~= object_view(entries@));
                }
                made
            },
        }
    }
}

impl Clone for Value {
    fn clone(&self) -> (copy: Value)
        ensures
            copy@ == self@,
    {
        self.duplicate()
    }
}

/// Selects the entries of an object that stand under `key`.
pub open spec fn is_named(key: Seq<char>) -> spec_fn((Seq<char>, ValueView)) -> bool {
    |e: (Seq<char>, ValueView)| e.0 == key
}

/// The value that `entries` holds under `key`: that of the first entry with
/// this key.
pub open spec fn entry_value(entries: Seq<(Seq<char>, ValueView)>, key: Seq<char>) -> Option<
    ValueView,
> {
    match find_first(entries, is_named(key)) {
        Some(e) => Some(e.1),
        None => None,
    }
}

/// Looks `key` up among the entries of an object.
pub fn find_entry<'a>(entries: &'a Vec<(String, Value)>, key: &str) -> (r: Option<&'a Value>)
    ensures
        match r {
            Some(v) => entry_value(object_view(entries@), key@) == Some(v@),
            None => entry_value(object_view(entries@), key@) is None,
        },
{
    let ghost model = object_view(entries@);
    proof {
        lemma_object_view(entries@);
    }
    let mut i: usize = 0;
    while i < entries.len()
        invariant
            i <= entries.len(),
            model == object_view(entries@),
            model.len() == entries@.len(),
            forall|j: int| 0 <= j < entries@.len() ==> (#[trigger] model[j]) == (entries@[j].0@, entries@[j].1@),
            forall|j: int| 0 <= j < i ==> !is_named(key@)(#[trigger] model[j]),
        decreases entries.len() - i,
    {
        if same_text(entries[i].0.as_str(), key) {
            proof {
                assert(is_named(key@)(model[i as int]));
                lemma_find_first_at(model, is_named(key@), i as int);
            }
            return Some(&entries[i].1);
        }
        assert(!is_named(key@)(model[i as int]));
        i += 1;
    }
    proof {
        lemma_find_first_none(model, is_named(key@));
    }
    None
}

} // verus!
