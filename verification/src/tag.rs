//! The field router: classification of element names into roles.

use vstd::prelude::*;
use crate::text::same_text;

verus! {

/// The role an element plays for the feed parser, as a mathematical value.
pub enum Role {
    /// The element that delimits one article.
    Item,
    Title,
    Description,
    PubDate,
    Link,
    /// Any other element, with its name.
    Other(Seq<char>),
}

/// The role of the element called `name`: one of the five fixed names,
/// compared exactly and with case, or `Other` with the name itself.
pub open spec fn role_of(name: Seq<char>) -> Role {
    if name == "item"@ {
        Role::Item
    } else if name == "title"@ {
        Role::Title
    } else if name == "description"@ {
        Role::Description
    } else if name == "pubDate"@ {
        Role::PubDate
    } else if name == "link"@ {
        Role::Link
    } else {
        Role::Other(name)
    }
}

/// An element name, classified.
#[derive(Debug)]
pub enum Tag {
    Item,
    Title,
    Description,
    PubDate,
    Link,
    Other(String),
}

impl View for Tag {
    type V = Role;

    open spec fn view(&self) -> Role {
        match self {
            Tag::Item => Role::Item,
            Tag::Title => Role::Title,
            Tag::Description => Role::Description,
            Tag::PubDate => Role::PubDate,
            Tag::Link => Role::Link,
            Tag::Other(name) => Role::Other(name@),
        }
    }
}

impl PartialEq for Tag {
    fn eq(&self, other: &Self) -> (r: bool) {
        match self {
            Tag::Item => matches!(other, Tag::Item),
            Tag::Title => matches!(other, Tag::Title),
            Tag::Description => matches!(other, Tag::Description),
            Tag::PubDate => matches!(other, Tag::PubDate),
            Tag::Link => matches!(other, Tag::Link),
            Tag::Other(a) => match other {
                Tag::Other(b) => *a == *b,
                _ => false,
            },
        }
    }
}

impl vstd::std_specs::cmp::PartialEqSpecImpl for Tag {
    open spec fn obeys_eq_spec() -> bool {
        true
    }

    /// Two tags are equal where their roles are.
    open spec fn eq_spec(&self, other: &Self) -> bool {
        self@ == other@
    }
}

impl Tag {
    /// Classifies the element name `s`. Every name has a role, so the
    /// result is always `Ok`.
    pub fn from_str(s: &str) -> (r: Result<Tag, ()>)
        ensures
            r matches Ok(tag) && tag@ == role_of(s@),
    {
        Ok(
            if same_text(s, "item") {
                Tag::Item
            } else if same_text(s, "title") {
                Tag::Title
            } else if same_text(s, "description") {
                Tag::Description
            } else if same_text(s, "pubDate") {
                Tag::PubDate
            } else if same_text(s, "link") {
                Tag::Link
            } else {
                Tag::Other(s.to_owned())
            },
        )
    }

    /// Whether this is the element that delimits one article.
    pub fn is_item(&self) -> (r: bool)
        ensures
            r == (self@ is Item),
    {
        match self {
            Tag::Item => true,
            _ => false,
        }
    }
}

} // verus!
