use vstd::prelude::*;

verus! {

/// A value of a store document.
#[derive(Debug, PartialEq, Eq)]
pub enum Value {
    /// A string.
    Text(String),
    /// A 32-bit integer.
    Int(i32),
    /// A decimal number given in hundredths: `Hundredths(95)` is 0.95.
    Hundredths(u32),
    /// An embedded document: named values, in order.
    Document(Vec<(String, Value)>),
    /// An array of values.
    Array(Vec<Value>),
}

/// What a `Value` holds.
pub enum ValueView {
    /// The characters of a string.
    Text(Seq<char>),
    /// An integer.
    Int(int),
    /// A decimal number, in hundredths.
    Hundredths(int),
    /// The named values of an embedded document, in order.
    Document(Seq<(Seq<char>, ValueView)>),
    /// The values of an array, in order.
    Array(Seq<ValueView>),
}

/// What a document holds: its named values, in order.
pub type DocumentView = Seq<(Seq<char>, ValueView)>;

/// What the named values of a document hold, in order.
pub open spec fn fields_view(fields: Seq<(String, Value)>) -> DocumentView
    decreases fields,
{
    Seq::new(
        fields.len(),
        |i: int|
            if 0 <= i < fields.len() {
                (fields[i].0@, fields[i].1.view())
            } else {
                arbitrary()
            },
    )
}

/// What the values of an array hold, in order.
pub open spec fn items_view(items: Seq<Value>) -> Seq<ValueView>
    decreases items,
{
    Seq::new(
        items.len(),
        |i: int|
            if 0 <= i < items.len() {
                items[i].view()
            } else {
                arbitrary()
            },
    )
}

impl View for Value {
    type V = ValueView;

    open spec fn view(&self) -> ValueView
        decreases self,
    {
        match self {
            Value::Text(text) => ValueView::Text(text@),
            Value::Int(number) => ValueView::Int(*number as int),
            Value::Hundredths(number) => ValueView::Hundredths(*number as int),
            Value::Document(fields) => ValueView::Document(fields_view(fields@)),
            Value::Array(items) => ValueView::Array(items_view(items@)),
        }
    }
}

/// A document under construction: named values, in the order in which they were added.
#[derive(Debug, PartialEq, Eq)]
pub struct Document {
    pub fields: Vec<(String, Value)>,
}

impl View for Document {
    type V = DocumentView;

    open spec fn view(&self) -> DocumentView {
        fields_view(self.fields@)
    }
}

impl Document {
    /// The document without fields.
    pub fn new() -> (document: Document)
        ensures
            document@ == Seq::<(Seq<char>, ValueView)>::empty(),
    {
        let document = Document { fields: Vec::new() };
        assert(document@ =~= Seq::<(Seq<char>, ValueView)>::empty());
        document
    }

    /// This document with one more field at its end.
    pub fn with(self, name: &str, value: Value) -> (document: Document)
        ensures
            document@ == self@.push((name@, value@)),
    {
        let mut fields = self.fields;
        fields.push((String::from_str(name), value));
        let document = Document { fields };
        assert(document@ =~= self@.push((name@, value@)));
        document
    }

    /// This document as a value that another document or an array can hold.
    pub fn into_value(self) -> (value: Value)
        ensures
            value@ == ValueView::Document(self@),
    {
        Value::Document(self.fields)
    }
}

/// An array under construction: values, in the order in which they were added.
#[derive(Debug, PartialEq, Eq)]
pub struct Array {
    pub items: Vec<Value>,
}

impl View for Array {
    type V = Seq<ValueView>;

    open spec fn view(&self) -> Seq<ValueView> {
        items_view(self.items@)
    }
}

impl Array {
    /// The array without items.
    pub fn new() -> (array: Array)
        ensures
            array@ == Seq::<ValueView>::empty(),
    {
        let array = Array { items: Vec::new() };
        assert(array@ =~= Seq::<ValueView>::empty());
        array
    }

    /// This array with one more item at its end.
    pub fn with(self, item: Value) -> (array: Array)
        ensures
            array@ == self@.push(item@),
    {
        let mut items = self.items;
        items.push(item);
        let array = Array { items };
        assert(array@ =~= self@.push(item@));
        array
    }

    /// This array as a value that a document can hold.
    pub fn into_value(self) -> (value: Value)
        ensures
            value@ == ValueView::Array(self@),
    {
        Value::Array(self.items)
    }
}

impl Value {
    /// The string value with the characters of `text`.
    pub fn text(text: &str) -> (value: Value)
        ensures
            value@ == ValueView::Text(text@),
    {
        Value::Text(String::from_str(text))
    }
}

} // verus!
