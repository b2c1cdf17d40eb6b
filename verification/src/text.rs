//! The text values that describe an entity: its URL, its names, its labels.

use vstd::prelude::*;
use vstd::std_specs::cmp::PartialEqSpecImpl;
use vstd::std_specs::convert::FromSpecImpl;
use crate::set::Member;

verus! {

/// The URL of a page, held as its text.
///
/// Two URLs are the same when their text is, so the text is expected in a
/// normal form: the serialization that a URL parser gives.
#[derive(Debug, Hash)]
pub struct PageUrl(String);

impl View for PageUrl {
    type V = Seq<char>;

    /// The text of the URL.
    closed spec fn view(&self) -> Seq<char> {
        self.0@
    }
}

impl PageUrl {
    /// The URL with the text `url`.
    pub fn new(url: String) -> (made: PageUrl)
        ensures
            made@ == url@,
    {
        PageUrl(url)
    }

    /// The text of the URL.
    pub fn as_str(&self) -> (text: &str)
        ensures
            text@ == self@,
    {
        self.0.as_str()
    }
}

impl Clone for PageUrl {
    fn clone(&self) -> (copy: PageUrl)
        ensures
            copy@ == self@,
    {
        PageUrl(self.0.clone())
    }
}

impl PartialEq for PageUrl {
    fn eq(&self, other: &PageUrl) -> (equal: bool) {
        self.0 == other.0
    }
}

impl Eq for PageUrl {}

impl PartialEqSpecImpl for PageUrl {
    open spec fn obeys_eq_spec() -> bool {
        true
    }

    open spec fn eq_spec(&self, other: &PageUrl) -> bool {
        self@ == other@
    }
}

/// A name under which an entity was seen.
///
/// Two names are the same when their text is.
#[derive(Debug, Hash)]
pub struct Name(String);

impl View for Name {
    type V = Seq<char>;

    /// The text of the name.
    closed spec fn view(&self) -> Seq<char> {
        self.0@
    }
}

impl Name {
    /// The name with the text `name`.
    pub fn new(name: String) -> (made: Name)
        ensures
            made@ == name@,
    {
        Name(name)
    }

    /// The text of the name.
    pub fn as_str(&self) -> (text: &str)
        ensures
            text@ == self@,
    {
        self.0.as_str()
    }
}

impl Clone for Name {
    fn clone(&self) -> (copy: Name)
        ensures
            copy@ == self@,
    {
        Name(self.0.clone())
    }
}

impl PartialEq for Name {
    fn eq(&self, other: &Name) -> (equal: bool) {
        self.0 == other.0
    }
}

impl Eq for Name {}

impl PartialEqSpecImpl for Name {
    open spec fn obeys_eq_spec() -> bool {
        true
    }

    open spec fn eq_spec(&self, other: &Name) -> bool {
        self@ == other@
    }
}

impl Member for Name {
    fn same(&self, other: &Name) -> (same: bool) {
        self.0 == other.0
    }
}

impl From<String> for Name {
    fn from(name: String) -> (made: Name)
        ensures
            made@ == name@,
    {
        Name(name)
    }
}

impl FromSpecImpl<String> for Name {
    open spec fn obeys_from_spec() -> bool {
        false
    }

    open spec fn from_spec(name: String) -> Name {
        arbitrary()
    }
}

impl<'a> From<&'a str> for Name {
    fn from(name: &'a str) -> (made: Name)
        ensures
            made@ == name@,
    {
        Name(name.to_owned())
    }
}

impl<'a> FromSpecImpl<&'a str> for Name {
    open spec fn obeys_from_spec() -> bool {
        false
    }

    open spec fn from_spec(name: &'a str) -> Name {
        arbitrary()
    }
}

/// A label attached to an entity.
///
/// Two labels are the same when their text is.
#[derive(Debug, Hash)]
pub struct Label(String);

impl View for Label {
    type V = Seq<char>;

    /// The text of the label.
    closed spec fn view(&self) -> Seq<char> {
        self.0@
    }
}

impl Label {
    /// The label with the text `name`.
    pub fn new(name: String) -> (made: Label)
        ensures
            made@ == name@,
    {
        Label(name)
    }

    /// The text of the label.
    pub fn as_str(&self) -> (text: &str)
        ensures
            text@ == self@,
    {
        self.0.as_str()
    }
}

impl Clone for Label {
    fn clone(&self) -> (copy: Label)
        ensures
            copy@ == self@,
    {
        Label(self.0.clone())
    }
}

impl PartialEq for Label {
    fn eq(&self, other: &Label) -> (equal: bool) {
        self.0 == other.0
    }
}

impl Eq for Label {}

impl PartialEqSpecImpl for Label {
    open spec fn obeys_eq_spec() -> bool {
        true
    }

    open spec fn eq_spec(&self, other: &Label) -> bool {
        self@ == other@
    }
}

impl Member for Label {
    fn same(&self, other: &Label) -> (same: bool) {
        self.0 == other.0
    }
}

impl From<String> for Label {
    fn from(name: String) -> (made: Label)
        ensures
            made@ == name@,
    {
        Label(name)
    }
}

impl FromSpecImpl<String> for Label {
    open spec fn obeys_from_spec() -> bool {
        false
    }

    open spec fn from_spec(name: String) -> Label {
        arbitrary()
    }
}

impl<'a> From<&'a str> for Label {
    fn from(name: &'a str) -> (made: Label)
        ensures
            made@ == name@,
    {
        Label(name.to_owned())
    }
}

impl<'a> FromSpecImpl<&'a str> for Label {
    open spec fn obeys_from_spec() -> bool {
        false
    }

    open spec fn from_spec(name: &'a str) -> Label {
        arbitrary()
    }
}

} // verus!
