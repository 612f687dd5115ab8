//! The article accumulator: one record and the rule that applies a piece of
//! text to it.

use vstd::prelude::*;
use crate::date::{normalize_date, normalized_date, Timestamp, UtcOffset};
use crate::link::{link_of, validate_link, Link};
use crate::tag::{Role, Tag};

verus! {

/// An article as a mathematical value.
pub struct ArticleView {
    pub title: Seq<char>,
    pub description: Seq<char>,
    /// When the article was published; `None` while no date has parsed.
    pub pub_date: Option<Timestamp>,
    /// The serialized URL of the article; `None` while no link has parsed.
    pub link: Option<Seq<char>>,
}

impl ArticleView {
    /// The article with empty texts and neither date nor link.
    pub open spec fn empty() -> ArticleView {
        ArticleView { title: Seq::empty(), description: Seq::empty(), pub_date: None, link: None }
    }

    /// This article after a date was parsed: a date that parsed replaces the
    /// one held, and one that did not leaves it.
    pub open spec fn with_date(self, parsed: Option<Timestamp>) -> ArticleView {
        match parsed {
            Some(date) => ArticleView { pub_date: Some(date), ..self },
            None => self,
        }
    }

    /// This article after a link was validated: a link that parsed replaces
    /// the one held, and one that did not leaves it.
    pub open spec fn with_link(self, parsed: Option<Seq<char>>) -> ArticleView {
        match parsed {
            Some(href) => ArticleView { link: Some(href), ..self },
            None => self,
        }
    }
}

/// `article` after `text` was seen inside an element of role `role`.
///
/// Title and description take the text as it is, empty or not. Date and link
/// take it only where it parses, and keep what they held where it does not.
/// Text under any other element changes nothing.
pub open spec fn applied(
    article: ArticleView,
    role: Role,
    text: Seq<char>,
    offset: UtcOffset,
) -> ArticleView {
    match role {
        Role::Title => ArticleView { title: text, ..article },
        Role::Description => ArticleView { description: text, ..article },
        Role::PubDate => article.with_date(normalized_date(text, offset)),
        Role::Link => article.with_link(link_of(text)),
        Role::Item | Role::Other(_) => article,
    }
}

/// One syndication entry.
#[derive(Debug)]
pub struct Article {
    pub title: String,
    pub description: String,
    pub pub_date: Option<Timestamp>,
    pub link: Option<Link>,
}

impl View for Article {
    type V = ArticleView;

    open spec fn view(&self) -> ArticleView {
        ArticleView {
            title: self.title@,
            description: self.description@,
            pub_date: self.pub_date,
            link: match self.link {
                Some(l) => Some(l@),
                None => None,
            },
        }
    }
}

impl Clone for Article {
    fn clone(&self) -> (r: Self)
        ensures
            r@ == self@,
    {
        Article {
            title: self.title.clone(),
            description: self.description.clone(),
            pub_date: self.pub_date,
            link: match &self.link {
                Some(l) => Some(l.clone()),
                None => None,
            },
        }
    }
}

impl Article {
    /// An article with empty texts and neither date nor link.
    pub fn new() -> (r: Self)
        ensures
            r@ == ArticleView::empty(),
    {
        Article { title: String::new(), description: String::new(), pub_date: None, link: None }
    }

    /// Takes the outcome of parsing a date: `Some` overwrites the date held,
    /// `None` leaves it as it is.
    pub fn apply_date(&mut self, parsed: Option<Timestamp>)
        ensures
            final(self)@ == old(self)@.with_date(parsed),
    {
        if let Some(date) = parsed {
            self.pub_date = Some(date);
        }
    }

    /// Takes the outcome of validating a link: `Some` overwrites the link
    /// held, `None` leaves it as it is.
    pub fn apply_link(&mut self, parsed: Option<Link>)
        ensures
            final(self)@ == old(self)@.with_link(
                match parsed {
                    Some(link) => Some(link@),
                    None => None,
                },
            ),
    {
        if let Some(link) = parsed {
            self.link = Some(link);
        }
    }

    /// Applies `data`, the text found inside an element classified as `tag`,
    /// to this article. A date is expressed at `offset`.
    pub fn update_field(&mut self, tag: &Tag, data: &str, offset: UtcOffset)
        ensures
            final(self)@ == applied(old(self)@, tag@, data@, offset),
    {
        match tag {
            Tag::Title => {
                self.title = data.to_owned();
            },
            Tag::Description => {
                self.description = data.to_owned();
            },
            Tag::PubDate => {
                self.apply_date(normalize_date(data, offset));
            },
            Tag::Link => {
                self.apply_link(validate_link(data));
            },
            _ => {},
        }
    }
}

/// A date that parses is not lost to a later one that does not: after a
/// valid date and then an invalid one, the article holds the valid date.
pub proof fn lemma_valid_date_survives_invalid(
    article: ArticleView,
    valid: Seq<char>,
    invalid: Seq<char>,
    offset: UtcOffset,
)
    requires
        normalized_date(valid, offset) is Some,
        normalized_date(invalid, offset) is None,
    ensures
        applied(applied(article, Role::PubDate, valid, offset), Role::PubDate, invalid, offset)
            == applied(article, Role::PubDate, valid, offset),
        applied(
            applied(article, Role::PubDate, valid, offset),
            Role::PubDate,
            invalid,
            offset,
        ).pub_date == normalized_date(valid, offset),
{
}

/// A link that parses is not lost to a later one that does not.
pub proof fn lemma_valid_link_survives_invalid(
    article: ArticleView,
    valid: Seq<char>,
    invalid: Seq<char>,
    offset: UtcOffset,
)
    requires
        link_of(valid) is Some,
        link_of(invalid) is None,
    ensures
        applied(applied(article, Role::Link, valid, offset), Role::Link, invalid, offset).link
            == link_of(valid),
{
}

/// The title is overwritten: of two titles applied in turn, the second stays,
/// whatever it is, and nothing else in the article changes with it.
pub proof fn lemma_second_title_wins(
    article: ArticleView,
    first: Seq<char>,
    second: Seq<char>,
    offset: UtcOffset,
)
    ensures
        applied(applied(article, Role::Title, first, offset), Role::Title, second, offset)
            == applied(article, Role::Title, second, offset),
        applied(
            applied(article, Role::Title, first, offset),
            Role::Title,
            second,
            offset,
        ).title == second,
{
}

/// The description is overwritten in the same way as the title.
pub proof fn lemma_second_description_wins(
    article: ArticleView,
    first: Seq<char>,
    second: Seq<char>,
    offset: UtcOffset,
)
    ensures
        applied(
            applied(article, Role::Description, first, offset),
            Role::Description,
            second,
            offset,
        ).description == second,
{
}

} // verus!
