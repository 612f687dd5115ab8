//! The link validator: strings that the `url` crate takes for absolute URLs
//! with a host, and gives back unchanged when it parses them again.

use vstd::prelude::*;
use crate::text::same_text;

verus! {

/// What `url::Url::parse` makes of `text`: `None` where it rejects the text,
/// else the serialization of the URL it built and whether that URL has a
/// host (`Url::has_host`).
pub uninterp spec fn parsed_url(text: Seq<char>) -> Option<(Seq<char>, bool)>;

/// Calls `url::Url::parse`, and on success `Url::has_host` and the
/// conversion of the URL into its serialization. Nothing is claimed of the
/// result but that it is the parse of `text`.
#[verifier::external_body]
fn parse_url(text: &str) -> (r: Option<(String, bool)>)
    ensures
        match r {
            Some((s, h)) => parsed_url(text@) == Some((s@, h)),
            None => parsed_url(text@) is None,
        },
{
    match url::Url::parse(text) {
        Ok(u) => {
            let has_host = u.has_host();
            Some((String::from(u), has_host))
        },
        Err(_) => None,
    }
}

/// Whether a second parse gave back `serialized` itself, with a host.
pub open spec fn gave_back(serialized: Seq<char>, again: Option<(Seq<char>, bool)>) -> bool {
    again == Some((serialized, true))
}

/// The link that `text` stands for: the serialization of the URL parsed from
/// it, provided that URL has a host and its serialization parses to itself,
/// again with a host.
pub open spec fn link_of(text: Seq<char>) -> Option<Seq<char>> {
    match parsed_url(text) {
        Some((s, true)) => if gave_back(s, parsed_url(s)) {
            Some(s)
        } else {
            None
        },
        _ => None,
    }
}

/// A link is stable: the text that validation gives is a link, and it stands
/// for itself.
pub proof fn lemma_link_is_stable(text: Seq<char>)
    ensures
        link_of(text) matches Some(s) ==> link_of(s) == Some(s),
{
}

/// A validated absolute URL, held in its serialized form.
#[derive(Debug)]
pub struct Link {
    href: String,
}

impl View for Link {
    type V = Seq<char>;

    /// The serialized URL.
    closed spec fn view(&self) -> Seq<char> {
        self.href@
    }
}

impl Link {
    /// A link is a fixed point of validation.
    #[verifier::type_invariant]
    spec fn stable(self) -> bool {
        link_of(self.href@) == Some(self.href@)
    }

    /// The serialized URL. Validating it again gives the same link.
    pub fn as_str(&self) -> (r: &str)
        ensures
            r@ == self@,
            link_of(r@) == Some(r@),
    {
        proof {
            use_type_invariant(self);
        }
        self.href.as_str()
    }
}

impl Clone for Link {
    fn clone(&self) -> (r: Self)
        ensures
            r@ == self@,
    {
        proof {
            use_type_invariant(self);
        }
        Link { href: self.href.clone() }
    }
}

/// Decides whether `again`, the outcome of parsing `serialized` once more,
/// is `serialized` itself with a host.
pub fn round_trips(serialized: &str, again: &Option<(String, bool)>) -> (r: bool)
    ensures
        r == match again {
            Some((s, h)) => gave_back(serialized@, Some((s@, *h))),
            None => false,
        },
{
    match again {
        Some((s, h)) => *h && same_text(s.as_str(), serialized),
        None => false,
    }
}

/// Validates `text` as an absolute URL with a host.
///
/// The text is parsed, and the serialization of the URL is parsed once more:
/// a URL whose serialization does not come back unchanged and with a host is
/// no link. The result is `link_of(text@)`, and a link that comes out is
/// stable: validating its serialized form gives that same form again.
pub fn validate_link(text: &str) -> (r: Option<Link>)
    ensures
        match r {
            Some(l) => link_of(text@) == Some(l@),
            None => link_of(text@) is None,
        },
        r matches Some(l) ==> link_of(l@) == Some(l@),
{
    match parse_url(text) {
        Some((href, true)) => {
            let again = parse_url(href.as_str());
            if round_trips(href.as_str(), &again) {
                Some(Link { href })
            } else {
                None
            }
        },
        _ => None,
    }
}

} // verus!
