//! Elements of an HTML document as plain values: the serialized contents of
//! an element and its attributes.
use vstd::prelude::*;
use crate::text::{chars_of, chars_eq};

verus! {

/// An attribute list as name/value pairs, in the order the document parser
/// gives them.
pub open spec fn attrs_view(attrs: Seq<(String, String)>) -> Seq<(Seq<char>, Seq<char>)> {
    Seq::new(attrs.len(), |i: int| (attrs[i].0@, attrs[i].1@))
}

/// The value of the first attribute named `name`.
pub open spec fn attr_lookup(attrs: Seq<(Seq<char>, Seq<char>)>, name: Seq<char>) -> Option<Seq<char>>
    decreases attrs.len(),
{
    if attrs.len() == 0 {
        None
    } else if attrs[0].0 == name {
        Some(attrs[0].1)
    } else {
        attr_lookup(attrs.drop_first(), name)
    }
}

/// The attributes of an element.
#[derive(Debug, Clone)]
pub struct TagAttributes {
    pub attributes: Vec<(String, String)>,
}

impl View for TagAttributes {
    type V = Seq<(Seq<char>, Seq<char>)>;

    open spec fn view(&self) -> Seq<(Seq<char>, Seq<char>)> {
        attrs_view(self.attributes@)
    }
}

impl TagAttributes {
    /// The value of the attribute named `name`, if the element has one.
    pub fn attr(&self, name: &[char]) -> (r: Option<String>)
        ensures
            match r {
                Some(v) => attr_lookup(self@, name@) == Some(v@),
                None => attr_lookup(self@, name@) is None,
            },
    {
        let mut k: usize = 0;
        assert(self@.skip(0) == self@);
        while k < self.attributes.len()
            invariant
                k <= self.attributes.len(),
                attr_lookup(self@, name@) == attr_lookup(self@.skip(k as int), name@),
            decreases self.attributes.len() - k,
        {
            let key = chars_of(self.attributes[k].0.as_str());
            assert(self@.skip(k as int)[0] == self@[k as int]);
            assert(self@[k as int] == (self.attributes@[k as int].0@, self.attributes@[k as int].1@));
            if chars_eq(&key, name) {
                return Some(self.attributes[k].1.clone());
            }
            assert(self@.skip(k as int).drop_first() == self@.skip(k + 1));
            k += 1;
        }
        None
    }

    /// Whether the element has an attribute named `name`.
    pub fn has_attr(&self, name: &[char]) -> (b: bool)
        ensures
            b == attr_lookup(self@, name@) is Some,
    {
        self.attr(name).is_some()
    }
}

/// An element of a parsed HTML document.
#[derive(Debug, Clone)]
pub struct HtmlElement {
    /// The serialized HTML of the element's children.
    pub inner_html: String,
    /// The element's attributes.
    pub attributes: TagAttributes,
}

/// An element as plain values: its inner HTML and its attributes.
pub open spec fn element_view(e: HtmlElement) -> (Seq<char>, Seq<(Seq<char>, Seq<char>)>) {
    (e.inner_html@, e.attributes@)
}

/// A list of elements as plain values.
pub open spec fn elements_view(v: Seq<HtmlElement>) -> Seq<(Seq<char>, Seq<(Seq<char>, Seq<char>)>)> {
    Seq::new(v.len(), |i: int| element_view(v[i]))
}

} // verus!
