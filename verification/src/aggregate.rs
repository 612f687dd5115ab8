//! The multi-source aggregator: the feeds of several sources parsed in turn
//! and their articles put end to end.

use vstd::prelude::*;
use crate::article::{Article, ArticleView};
use crate::date::UtcOffset;
use crate::parser::{article_views, feed_articles, feed_well_formed, fetch_articles};

verus! {

/// A source as a mathematical value.
pub struct SourceView {
    pub url: Seq<char>,
    pub payload: Seq<char>,
}

/// One feed source: the URL that identifies it and the document fetched
/// from it.
#[derive(Debug)]
pub struct Source {
    pub url: String,
    pub payload: String,
}

impl View for Source {
    type V = SourceView;

    open spec fn view(&self) -> SourceView {
        SourceView { url: self.url@, payload: self.payload@ }
    }
}

/// The views of a sequence of sources, in order.
pub open spec fn source_views(sources: Seq<Source>) -> Seq<SourceView> {
    sources.map_values(|s: Source| s@)
}

/// The characters of a sequence of strings, in order.
pub open spec fn texts(strings: Seq<String>) -> Seq<Seq<char>> {
    strings.map_values(|s: String| s@)
}

/// What one source contributes: the articles of its document where that can
/// be read to its end, and nothing where it cannot.
pub open spec fn source_articles(payload: Seq<char>, offset: UtcOffset) -> Seq<ArticleView> {
    if feed_well_formed(payload) {
        feed_articles(payload, offset)
    } else {
        Seq::empty()
    }
}

/// The articles of `sources`: each source's contribution, in the order of
/// the sources.
pub open spec fn aggregated(sources: Seq<SourceView>, offset: UtcOffset) -> Seq<ArticleView>
    decreases sources.len(),
{
    if sources.len() == 0 {
        Seq::empty()
    } else {
        aggregated(sources.drop_last(), offset) + source_articles(sources.last().payload, offset)
    }
}

/// The URLs of the sources whose document cannot be read to its end, in the
/// order of the sources.
pub open spec fn failures(sources: Seq<SourceView>) -> Seq<Seq<char>>
    decreases sources.len(),
{
    if sources.len() == 0 {
        Seq::empty()
    } else if feed_well_formed(sources.last().payload) {
        failures(sources.drop_last())
    } else {
        failures(sources.drop_last()).push(sources.last().url)
    }
}

/// What came of a run over several sources.
#[derive(Debug)]
pub struct Aggregate {
    /// The articles of the sources that parsed, in source order.
    pub articles: Vec<Article>,
    /// The URLs of the sources that did not parse, in source order.
    pub failed: Vec<String>,
}

/// Parses the document of each source in turn, each on its own, and puts the
/// articles end to end. A source whose markup is malformed contributes no
/// article and is reported by its URL; the others are not affected, and what
/// to do about the failure is left to the caller.
pub fn aggregate(sources: &Vec<Source>, offset: UtcOffset) -> (r: Aggregate)
    ensures
        article_views(r.articles@) == aggregated(source_views(sources@), offset),
        texts(r.failed@) == failures(source_views(sources@)),
{
    let mut articles: Vec<Article> = Vec::new();
    let mut failed: Vec<String> = Vec::new();
    let mut i: usize = 0;
    assert(article_views(articles@) =~= Seq::empty());
    assert(texts(failed@) =~= Seq::empty());
    while i < sources.len()
        invariant
            i <= sources.len(),
            article_views(articles@) == aggregated(source_views(sources@).take(i as int), offset),
            texts(failed@) == failures(source_views(sources@).take(i as int)),
        decreases sources.len() - i,
    {
        let source = &sources[i];
        let mut batch: Vec<Article> = Vec::new();
        assert(article_views(batch@) =~= Seq::empty());
        let outcome = fetch_articles(source.payload.as_str(), &mut batch, offset);
        proof {
            let all = source_views(sources@);
            assert(all.take(i + 1).drop_last() =~= all.take(i as int));
            assert(all.take(i + 1).last() == source@);
            assert(article_views(batch@) =~= feed_articles(source.payload@, offset));
        }
        let ghost old_failed = failed@;
        match outcome {
            Ok(()) => {
                assert(article_views(articles@ + batch@) =~= article_views(articles@)
                    + article_views(batch@));
                articles.append(&mut batch);
            },
            Err(_) => {
                failed.push(source.url.clone());
                assert(texts(failed@) =~= texts(old_failed).push(source.url@));
                assert(article_views(articles@) + Seq::<ArticleView>::empty() =~= article_views(
                    articles@,
                ));
            },
        }
        i += 1;
    }
    assert(source_views(sources@).take(i as int) =~= source_views(sources@));
    Aggregate { articles, failed }
}

/// Sources do not affect one another: the articles of two lists of sources
/// put together are the articles of the first list followed by those of the
/// second.
pub proof fn lemma_aggregated_concat(
    first: Seq<SourceView>,
    second: Seq<SourceView>,
    offset: UtcOffset,
)
    ensures
        aggregated(first + second, offset) == aggregated(first, offset) + aggregated(
            second,
            offset,
        ),
    decreases second.len(),
{
    if second.len() == 0 {
        assert(first + second =~= first);
        assert(aggregated(first, offset) + aggregated(second, offset) =~= aggregated(
            first,
            offset,
        ));
    } else {
        lemma_aggregated_concat(first, second.drop_last(), offset);
        assert((first + second).drop_last() =~= first + second.drop_last());
        assert((first + second).last() == second.last());
        assert(aggregated(first + second, offset) =~= aggregated(first, offset) + aggregated(
            second,
            offset,
        ));
    }
}

} // verus!
