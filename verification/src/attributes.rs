//! Decoded IPP attribute groups, as the protocol client hands them over.
//!
//! A response is a status code and a list of attribute groups. Each group has
//! a tag and named attributes. The values are kept as far as the decisions of
//! this crate read them: numbers, keywords, other single values by their text,
//! and lists by the text of each value.

use vstd::prelude::*;

use ipp::model::IppVersion;
use ipp::IppHeader;

use crate::text::same_text;

verus! {

/// The views of the items of a sequence, in order.
pub open spec fn views<T: View>(items: Seq<T>) -> Seq<T::V> {
    Seq::new(items.len(), |i: int| items[i]@)
}

/// The kind of an attribute group.
#[derive(Debug, Clone, Copy, PartialEq, Eq, Structural)]
pub enum GroupTag {
    Operation,
    Job,
    EndOfAttributes,
    Printer,
    Unsupported,
}

/// The value of one attribute.
#[derive(Debug, PartialEq, Eq)]
pub enum AttributeValue {
    /// A whole number.
    Integer(i32),
    /// A number that stands for one of a fixed list of meanings.
    Enum(i32),
    /// A keyword.
    Keyword(String),
    /// Any other single value, by its text.
    Text(String),
    /// Several values, each by its text, in the order of the response.
    List(Vec<String>),
}

/// An [`AttributeValue`] with its text taken as sequences of characters.
pub enum ValueView {
    Integer(i32),
    Enum(i32),
    Keyword(Seq<char>),
    Text(Seq<char>),
    List(Seq<Seq<char>>),
}

impl View for AttributeValue {
    type V = ValueView;

    open spec fn view(&self) -> ValueView {
        match self {
            AttributeValue::Integer(number) => ValueView::Integer(*number),
            AttributeValue::Enum(number) => ValueView::Enum(*number),
            AttributeValue::Keyword(word) => ValueView::Keyword(word@),
            AttributeValue::Text(text) => ValueView::Text(text@),
            AttributeValue::List(items) => ValueView::List(views(items@)),
        }
    }
}

/// A named attribute.
#[derive(Debug, PartialEq, Eq)]
pub struct Attribute {
    pub name: String,
    pub value: AttributeValue,
}

/// The view of an [`Attribute`].
pub struct AttributeView {
    pub name: Seq<char>,
    pub value: ValueView,
}

impl View for Attribute {
    type V = AttributeView;

    open spec fn view(&self) -> AttributeView {
        AttributeView { name: self.name@, value: self.value@ }
    }
}

/// A tagged group of attributes.
#[derive(Debug, PartialEq, Eq)]
pub struct AttributeGroup {
    pub tag: GroupTag,
    pub attributes: Vec<Attribute>,
}

/// The view of an [`AttributeGroup`].
pub struct GroupView {
    pub tag: GroupTag,
    pub attributes: Seq<AttributeView>,
}

impl View for AttributeGroup {
    type V = GroupView;

    open spec fn view(&self) -> GroupView {
        GroupView { tag: self.tag, attributes: views(self.attributes@) }
    }
}

/// A decoded response: the status code of its header and its groups in the
/// order in which the protocol delivered them.
#[derive(Debug, PartialEq, Eq)]
pub struct IppResponse {
    pub status_code: u16,
    pub groups: Vec<AttributeGroup>,
}

/// The view of an [`IppResponse`].
pub struct ResponseView {
    pub status_code: u16,
    pub groups: Seq<GroupView>,
}

impl View for IppResponse {
    type V = ResponseView;

    open spec fn view(&self) -> ResponseView {
        ResponseView { status_code: self.status_code, groups: views(self.groups@) }
    }
}

/// Whether a status code reports success: the codes 0, 1 and 2 do.
pub open spec fn is_success(code: u16) -> bool {
    code <= 2
}

/// Asks the protocol client whether a header with this status code reports
/// success (`IppHeader::status_code`, then `StatusCode::is_success`). The
/// client decodes the code and answers yes for its three successful-ok codes,
/// which are 0, 1 and 2, and no for every other code, known to it or not.
#[verifier::external_body]
fn status_is_success(code: u16) -> (ok: bool)
    ensures
        ok == is_success(code),
{
    IppHeader::new(IppVersion::v1_1(), code, 0).status_code().is_success()
}

impl IppResponse {
    /// Whether the response reports success.
    pub fn is_success(&self) -> (ok: bool)
        ensures
            ok == is_success(self.status_code),
    {
        status_is_success(self.status_code)
    }
}

/// The value of the first attribute called `name`.
pub open spec fn find_value(attributes: Seq<AttributeView>, name: Seq<char>) -> Option<ValueView>
    decreases attributes.len(),
{
    if attributes.len() == 0 {
        None
    } else if attributes[0].name == name {
        Some(attributes[0].value)
    } else {
        find_value(attributes.drop_first(), name)
    }
}

/// The text of a single textual value.
pub open spec fn text_of(value: ValueView) -> Option<Seq<char>> {
    match value {
        ValueView::Keyword(word) => Some(word),
        ValueView::Text(text) => Some(text),
        _ => None,
    }
}

/// The texts of the values that a textual attribute holds: those of a list,
/// or the one of a single value.
pub open spec fn texts_of(value: ValueView) -> Option<Seq<Seq<char>>> {
    match value {
        ValueView::Keyword(word) => Some(seq![word]),
        ValueView::Text(text) => Some(seq![text]),
        ValueView::List(items) => Some(items),
        _ => None,
    }
}

/// The text of the attribute called `name`, where the group has it as a
/// single textual value.
pub open spec fn text_attribute(group: GroupView, name: Seq<char>) -> Option<Seq<char>> {
    match find_value(group.attributes, name) {
        Some(value) => text_of(value),
        None => None,
    }
}

/// The texts of the attribute called `name`, where the group has it as
/// textual values.
pub open spec fn texts_attribute(group: GroupView, name: Seq<char>) -> Option<Seq<Seq<char>>> {
    match find_value(group.attributes, name) {
        Some(value) => texts_of(value),
        None => None,
    }
}

/// The number of the attribute called `name`, where the group has it as a
/// whole number.
pub open spec fn integer_attribute(group: GroupView, name: Seq<char>) -> Option<i32> {
    match find_value(group.attributes, name) {
        Some(ValueView::Integer(number)) => Some(number),
        _ => None,
    }
}

/// The number of the attribute called `name`, where the group has it as an
/// enumerated value.
pub open spec fn enum_attribute(group: GroupView, name: Seq<char>) -> Option<i32> {
    match find_value(group.attributes, name) {
        Some(ValueView::Enum(number)) => Some(number),
        _ => None,
    }
}

/// The word of the attribute called `name`, where the group has it as a
/// keyword.
pub open spec fn keyword_attribute(group: GroupView, name: Seq<char>) -> Option<Seq<char>> {
    match find_value(group.attributes, name) {
        Some(ValueView::Keyword(word)) => Some(word),
        _ => None,
    }
}

/// A copy of a list of strings.
pub fn copy_texts(items: &Vec<String>) -> (copy: Vec<String>)
    ensures
        views(copy@) == views(items@),
{
    let mut copy: Vec<String> = Vec::new();
    let mut i: usize = 0;
    while i < items.len()
        invariant
            i <= items.len(),
            copy.len() == i,
            forall|k: int| 0 <= k < i ==> copy@[k]@ == items@[k]@,
        decreases items.len() - i,
    {
        copy.push(items[i].clone());
        i += 1;
    }
    assert(views(copy@) =~= views(items@));
    copy
}

impl AttributeGroup {
    /// The value of the first attribute called `name`.
    pub fn find(&self, name: &str) -> (found: Option<&AttributeValue>)
        ensures
            match found {
                Some(value) => find_value(self@.attributes, name@) == Some(value@),
                None => find_value(self@.attributes, name@) is None,
            },
    {
        let ghost all = self@.attributes;
        assert(all.skip(0) =~= all);
        let mut i: usize = 0;
        while i < self.attributes.len()
            invariant
                i <= self.attributes.len(),
                all == views(self.attributes@),
                find_value(all, name@) == find_value(all.skip(i as int), name@),
            decreases self.attributes.len() - i,
        {
            proof {
                assert(all.skip(i as int).drop_first() =~= all.skip(i as int + 1));
            }
            if same_text(self.attributes[i].name.as_str(), name) {
                return Some(&self.attributes[i].value);
            }
            i += 1;
        }
        None
    }

    /// The text of the attribute called `name`.
    pub fn text(&self, name: &str) -> (found: Option<String>)
        ensures
            match found {
                Some(text) => text_attribute(self@, name@) == Some(text@),
                None => text_attribute(self@, name@) is None,
            },
    {
        match self.find(name) {
            Some(AttributeValue::Keyword(word)) => Some(word.clone()),
            Some(AttributeValue::Text(text)) => Some(text.clone()),
            _ => None,
        }
    }

    /// The texts of the values of the attribute called `name`.
    pub fn texts(&self, name: &str) -> (found: Option<Vec<String>>)
        ensures
            match found {
                Some(texts) => texts_attribute(self@, name@) == Some(views(texts@)),
                None => texts_attribute(self@, name@) is None,
            },
    {
        match self.find(name) {
            Some(AttributeValue::Keyword(word)) => {
                let mut texts: Vec<String> = Vec::new();
                texts.push(word.clone());
                assert(views(texts@) =~= seq![word@]);
                Some(texts)
            },
            Some(AttributeValue::Text(text)) => {
                let mut texts: Vec<String> = Vec::new();
                texts.push(text.clone());
                assert(views(texts@) =~= seq![text@]);
                Some(texts)
            },
            Some(AttributeValue::List(items)) => Some(copy_texts(items)),
            _ => None,
        }
    }

    /// The whole number of the attribute called `name`.
    pub fn integer(&self, name: &str) -> (found: Option<i32>)
        ensures
            found == integer_attribute(self@, name@),
    {
        match self.find(name) {
            Some(AttributeValue::Integer(number)) => Some(*number),
            _ => None,
        }
    }

    /// The enumerated value of the attribute called `name`.
    pub fn enumerated(&self, name: &str) -> (found: Option<i32>)
        ensures
            found == enum_attribute(self@, name@),
    {
        match self.find(name) {
            Some(AttributeValue::Enum(number)) => Some(*number),
            _ => None,
        }
    }

    /// The keyword of the attribute called `name`.
    pub fn keyword(&self, name: &str) -> (found: Option<String>)
        ensures
            match found {
                Some(word) => keyword_attribute(self@, name@) == Some(word@),
                None => keyword_attribute(self@, name@) is None,
            },
    {
        match self.find(name) {
            Some(AttributeValue::Keyword(word)) => Some(word.clone()),
            _ => None,
        }
    }
}

} // verus!
