//! The feed parser: a state machine over markup events that assembles
//! articles and emits each one when its item element closes.

use vstd::prelude::*;
use crate::article::{applied, Article, ArticleView};
use crate::date::UtcOffset;
use crate::markup::{
    ends_cleanly, markup_complete, markup_events, markups, open_reader, pending_events, read_step,
    Markup, MarkupEvent, ReadStep,
};
use crate::tag::{role_of, Role, Tag};

verus! {

/// The state of the parser as a mathematical value.
pub struct ParserState {
    /// The roles of the elements that are open, outermost first.
    pub stack: Seq<Role>,
    /// The article being assembled. Outside any item it is scratch space.
    pub current: ArticleView,
    /// The articles emitted so far, in the order of their closing tags.
    pub emitted: Seq<ArticleView>,
}

/// The state before any event: nothing open, nothing emitted.
pub open spec fn initial_state() -> ParserState {
    ParserState { stack: Seq::empty(), current: ArticleView::empty(), emitted: Seq::empty() }
}

/// The state after `event` arrives in `state`.
///
/// An opening element is pushed with its role; an item starts a fresh
/// article. A closing element pops the innermost open one, and emits the
/// current article where that was an item; with nothing open it does
/// nothing. Text, plain or in an embedded-text section, is applied under the
/// role of the innermost open element, if there is one. Other events change
/// nothing.
pub open spec fn step(state: ParserState, event: Markup, offset: UtcOffset) -> ParserState {
    match event {
        Markup::Open(name) => ParserState {
            stack: state.stack.push(role_of(name)),
            current: if role_of(name) is Item {
                ArticleView::empty()
            } else {
                state.current
            },
            emitted: state.emitted,
        },
        Markup::Close => if state.stack.len() == 0 {
            state
        } else {
            ParserState {
                stack: state.stack.drop_last(),
                current: state.current,
                emitted: if state.stack.last() is Item {
                    state.emitted.push(state.current)
                } else {
                    state.emitted
                },
            }
        },
        Markup::Text(text) | Markup::CData(text) => if state.stack.len() == 0 {
            state
        } else {
            ParserState {
                stack: state.stack,
                current: applied(state.current, state.stack.last(), text, offset),
                emitted: state.emitted,
            }
        },
        Markup::Other => state,
    }
}

/// The state after all of `events`, in order, starting from the initial one.
pub open spec fn run(events: Seq<Markup>, offset: UtcOffset) -> ParserState
    decreases events.len(),
{
    if events.len() == 0 {
        initial_state()
    } else {
        step(run(events.drop_last(), offset), events.last(), offset)
    }
}

/// The views of a sequence of articles, in order.
pub open spec fn article_views(articles: Seq<Article>) -> Seq<ArticleView> {
    articles.map_values(|a: Article| a@)
}

/// The roles of a sequence of tags, in order.
pub open spec fn roles(tags: Seq<Tag>) -> Seq<Role> {
    tags.map_values(|t: Tag| t@)
}

/// Why a feed could not be read to its end.
#[derive(Debug)]
pub enum FeedError {
    /// The markup is not well formed.
    MalformedMarkup,
}

/// The feed parser. It holds the open elements, the article in progress and
/// the articles emitted so far.
pub struct FeedParser {
    stack: Vec<Tag>,
    current: Article,
    emitted: Vec<Article>,
    offset: UtcOffset,
}

impl View for FeedParser {
    type V = ParserState;

    closed spec fn view(&self) -> ParserState {
        ParserState {
            stack: roles(self.stack@),
            current: self.current@,
            emitted: article_views(self.emitted@),
        }
    }
}

impl FeedParser {
    /// The offset at which this parser expresses dates.
    pub closed spec fn offset(&self) -> UtcOffset {
        self.offset
    }

    /// A parser in its initial state, which will express dates at `offset`.
    pub fn new(offset: UtcOffset) -> (r: Self)
        ensures
            r@ == initial_state(),
            r.offset() == offset,
    {
        let r = FeedParser {
            stack: Vec::new(),
            current: Article::new(),
            emitted: Vec::new(),
            offset,
        };
        assert(roles(r.stack@) =~= Seq::empty());
        assert(article_views(r.emitted@) =~= Seq::empty());
        r
    }

    /// Takes one event.
    pub fn feed(&mut self, event: &MarkupEvent)
        ensures
            final(self)@ == step(old(self)@, event@, old(self).offset()),
            final(self).offset() == old(self).offset(),
    {
        match event {
            MarkupEvent::Open(name) => {
                let tag = Tag::from_str(name.as_str()).unwrap();
                if tag.is_item() {
                    self.current = Article::new();
                }
                self.stack.push(tag);
                assert(roles(self.stack@) =~= roles(old(self).stack@).push(role_of(name@)));
            },
            MarkupEvent::Close => {
                if let Some(tag) = self.stack.pop() {
                    assert(roles(self.stack@) =~= roles(old(self).stack@).drop_last());
                    if tag.is_item() {
                        let article = self.current.clone();
                        self.emitted.push(article);
                        assert(article_views(self.emitted@) =~= article_views(
                            old(self).emitted@,
                        ).push(old(self).current@));
                    }
                }
            },
            MarkupEvent::Text(text) | MarkupEvent::CData(text) => {
                let depth: usize = self.stack.len();
                if depth > 0 {
                    self.current.update_field(&self.stack[depth - 1], text.as_str(), self.offset);
                }
            },
            MarkupEvent::Other => {},
        }
    }

    /// Ends the input and hands out the emitted articles. An article whose
    /// item never closed is not among them.
    pub fn finish(self) -> (r: Vec<Article>)
        ensures
            article_views(r@) == self@.emitted,
    {
        self.emitted
    }
}

/// `run` takes one more event by one more `step`.
pub proof fn lemma_run_push(events: Seq<Markup>, event: Markup, offset: UtcOffset)
    ensures
        run(events.push(event), offset) == step(run(events, offset), event, offset),
{
    assert(events.push(event).drop_last() =~= events);
}

/// Runs the parser over `events` from its initial state and returns the
/// articles it emitted, in order. Nothing is flushed at the end: an item
/// that is still open gives no article.
pub fn articles_from_events(events: &Vec<MarkupEvent>, offset: UtcOffset) -> (r: Vec<Article>)
    ensures
        article_views(r@) == run(markups(events@), offset).emitted,
{
    let mut parser = FeedParser::new(offset);
    let mut i: usize = 0;
    while i < events.len()
        invariant
            i <= events.len(),
            parser.offset() == offset,
            parser@ == run(markups(events@).take(i as int), offset),
        decreases events.len() - i,
    {
        parser.feed(&events[i]);
        proof {
            let all = markups(events@);
            lemma_run_push(all.take(i as int), all[i as int], offset);
            assert(all.take(i as int).push(all[i as int]) =~= all.take(i + 1));
        }
        i += 1;
    }
    assert(markups(events@).take(i as int) =~= markups(events@));
    parser.finish()
}

/// The articles of the feed document `body`: what the parser emits over the
/// events that the markup reader yields before the end of input or its first
/// error. Closing tags are not checked against opening ones.
pub open spec fn feed_articles(body: Seq<char>, offset: UtcOffset) -> Seq<ArticleView> {
    run(markup_events(body, false, true), offset).emitted
}

/// Whether the feed document `body` can be read to its end.
pub open spec fn feed_well_formed(body: Seq<char>) -> bool {
    markup_complete(body, false, true)
}

/// Parses the feed document `body` and appends its articles to `articles`,
/// with dates expressed at `offset`.
///
/// A closing tag is taken as it comes, whether or not it matches an open
/// element. Any other fault in the markup ends the parse with an error; the
/// articles emitted before it stay appended.
pub fn fetch_articles(body: &str, articles: &mut Vec<Article>, offset: UtcOffset) -> (r: Result<
    (),
    FeedError,
>)
    ensures
        article_views(final(articles)@) == article_views(old(articles)@) + feed_articles(
            body@,
            offset,
        ),
        r is Ok <==> feed_well_formed(body@),
{
    let mut reader = open_reader(body, false, true);
    let mut parser = FeedParser::new(offset);
    let mut outcome: Result<(), FeedError> = Ok(());
    let ghost all = markup_events(body@, false, true);
    let ghost mut done: Seq<Markup> = Seq::empty();
    assert(done + pending_events(reader) =~= all);
    loop
        invariant_except_break
            done + pending_events(reader) == all,
            ends_cleanly(reader) == feed_well_formed(body@),
            parser@ == run(done, offset),
            outcome is Ok,
        invariant
            parser.offset() == offset,
        ensures
            parser@ == run(all, offset),
            outcome is Ok <==> feed_well_formed(body@),
        decreases pending_events(reader).len(),
    {
        let ghost pending = pending_events(reader);
        let step = read_step(&mut reader);
        match step {
            ReadStep::Open(name) => {
                parser.feed(&MarkupEvent::Open(name));
            },
            ReadStep::Close => {
                parser.feed(&MarkupEvent::Close);
            },
            ReadStep::Text(text) => {
                parser.feed(&MarkupEvent::Text(text));
            },
            ReadStep::CData(text) => {
                parser.feed(&MarkupEvent::CData(text));
            },
            ReadStep::Other => {
                parser.feed(&MarkupEvent::Other);
            },
            ReadStep::End => {
                assert(done =~= all);
                break ;
            },
            ReadStep::Malformed => {
                assert(done =~= all);
                outcome = Err(FeedError::MalformedMarkup);
                break ;
            },
        }
        proof {
            lemma_run_push(done, pending[0], offset);
            assert(done.push(pending[0]) + pending.drop_first() =~= done + pending);
            done = done.push(pending[0]);
        }
    }
    let mut emitted = parser.finish();
    assert(article_views(articles@ + emitted@) =~= article_views(articles@) + article_views(
        emitted@,
    ));
    articles.append(&mut emitted);
    outcome
}

} // verus!
