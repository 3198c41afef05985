//! The crawl orchestrator.
//!
//! Entry points that compose pager, adapter and differ per source. All three
//! operations are pure functions of the source's configuration and the
//! fetched responses: the caller performs the network round trips and hands
//! the decoded pages in, together with the one crawl timestamp that is
//! stamped on every record of the invocation.

use crate::article::{views, Article, ArticleView, Media};
use crate::differ::{diff_to_update, lemma_watermark_first, new_prefix};
use crate::error::CrawlError;
use crate::pager::{
    counter_requests, counter_run, page_views, run_counter, run_token, token_pages,
    token_requests, token_run,
};
use crate::pager::{TokenPage, TokenPager};
use crate::qiita::{normalize_qiita_items, qiita_items_ok, qiita_views, QiitaArticle};
use crate::twitter::{
    normalize_twitter_response, response_views, twitter_pages_model, twitter_run_fault,
    TwitterResponse,
};
use crate::youtube::{
    collect_playlist_items, inner_models, two_level_ok, two_level_views, PlayList, PlayListItem,
};
use vstd::prelude::*;

verus! {

/// Per-source configuration: a credential and an account or channel
/// identifier, constructed once by the caller from its environment and
/// passed in. The engine itself reads no process state.
#[derive(Debug)]
pub struct SourceConfig {
    pub media: Media,
    pub credential: String,
    pub identifier: String,
}

impl SourceConfig {
    /// Builds the configuration from what the caller's environment had. A
    /// missing credential or identifier is a configuration fault, raised
    /// before any request is made.
    pub fn new(media: Media, credential: Option<String>, identifier: Option<String>) -> (r: Result<
        SourceConfig,
        CrawlError,
    >)
        ensures
            match r {
                Ok(c) => {
                    &&& credential is Some
                    &&& identifier is Some
                    &&& c.media == media
                    &&& c.credential == credential.unwrap()
                    &&& c.identifier == identifier.unwrap()
                },
                Err(e) => (credential is None || identifier is None) && e
                    == CrawlError::ConfigFault,
            },
    {
        match (credential, identifier) {
            (Some(credential), Some(identifier)) => Ok(
                SourceConfig { media, credential, identifier },
            ),
            _ => Err(CrawlError::ConfigFault),
        }
    }
}

/// The latest-record operation: the source was asked for exactly one page of
/// size one, and its newest record is the first of that page. A source that
/// yields no item is an empty-source fault.
pub fn latest_from_first_page(page: Vec<Article>) -> (r: Result<Article, CrawlError>)
    ensures
        match r {
            Ok(a) => page@.len() > 0 && a == page@[0],
            Err(e) => page@.len() == 0 && e == CrawlError::EmptySourceFault,
        },
{
    let mut page = page;
    if page.len() == 0 {
        Err(CrawlError::EmptySourceFault)
    } else {
        Ok(page.remove(0))
    }
}

/// Full crawl of the counter-paginated source over its in-memory pages:
/// pager to exhaustion, every record normalized and stamped with the one
/// crawl timestamp. Returns the records and the number of requests issued.
pub fn qiita_full_from_pages(
    pages: Vec<Vec<QiitaArticle>>,
    page_size: u64,
    crawled_at: &String,
) -> (r: Result<(Vec<Article>, u64), CrawlError>)
    requires
        page_size > 0,
        pages@.len() + 1 < u64::MAX,
    ensures
        match r {
            Ok(p) => {
                &&& qiita_items_ok(counter_run(page_views(pages@)))
                &&& views(p.0@) == qiita_views(counter_run(page_views(pages@)), crawled_at@)
                &&& p.1 as nat == counter_requests(page_views(pages@))
            },
            Err(e) => !qiita_items_ok(counter_run(page_views(pages@))) && e
                == CrawlError::TimeParseFault,
        },
{
    let (raw, requests) = run_counter(pages, page_size);
    let articles = normalize_qiita_items(&raw, crawled_at)?;
    Ok((articles, requests))
}

/// Incremental crawl of the counter-paginated source: the full crawl
/// truncated to the records strictly newer than the watermark.
pub fn qiita_incremental_from_pages(
    pages: Vec<Vec<QiitaArticle>>,
    page_size: u64,
    crawled_at: &String,
    watermark: &Article,
) -> (r: Result<Vec<Article>, CrawlError>)
    requires
        page_size > 0,
        pages@.len() + 1 < u64::MAX,
    ensures
        match r {
            Ok(v) => {
                &&& qiita_items_ok(counter_run(page_views(pages@)))
                &&& views(v@) == new_prefix(
                    qiita_views(counter_run(page_views(pages@)), crawled_at@),
                    watermark@,
                )
            },
            Err(e) => !qiita_items_ok(counter_run(page_views(pages@))) && e
                == CrawlError::TimeParseFault,
        },
{
    let (full, _requests) = qiita_full_from_pages(pages, page_size, crawled_at)?;
    Ok(diff_to_update(&full, watermark))
}

/// Full crawl of the joined, token-paginated source over its in-memory
/// responses: each response's primary items are joined to its side table and
/// normalized, and the continuation token alone decides when the run stops.
/// Returns the records and the number of requests issued; the first fault of
/// any consumed response fails the whole crawl.
#[verifier::loop_isolation(false)]
pub fn twitter_full_from_responses(responses: Vec<TwitterResponse>, crawled_at: &String) -> (r:
    Result<(Vec<Article>, u64), CrawlError>)
    requires
        responses@.len() < u64::MAX,
    ensures
        match r {
            Ok(p) => {
                &&& twitter_run_fault(responses@) is None
                &&& views(p.0@) == token_run(twitter_pages_model(responses@, crawled_at@))
                &&& p.1 as nat == token_requests(twitter_pages_model(responses@, crawled_at@))
            },
            Err(e) => twitter_run_fault(responses@) == Some(e),
        },
{
    let ghost rm = responses@;
    let ghost tm = twitter_pages_model(rm, crawled_at@);
    let mut responses = responses;
    let mut pager = TokenPager::<Article>::new();
    proof {
        assert(rm.skip(0) =~= rm);
        assert(tm.skip(0) =~= tm);
        assert(views(pager.records@) =~= Seq::<ArticleView>::empty());
        assert(Seq::<ArticleView>::empty() + token_run(tm) =~= token_run(tm));
    }
    while !pager.is_done() && responses.len() > 0
        invariant
            pager.wf(),
            pager.requests + responses@.len() <= rm.len(),
            !pager.done() ==> responses@ =~= rm.skip(pager.requests as int),
            !pager.done() ==> twitter_run_fault(rm) == twitter_run_fault(
                rm.skip(pager.requests as int),
            ),
            !pager.done() ==> token_run(tm) == views(pager.records@) + token_run(
                tm.skip(pager.requests as int),
            ),
            !pager.done() ==> token_requests(tm) == pager.requests + token_requests(
                tm.skip(pager.requests as int),
            ),
            pager.done() ==> views(pager.records@) == token_run(tm) && pager.requests as nat
                == token_requests(tm) && twitter_run_fault(rm) is None,
        decreases responses@.len(),
    {
        let ghost req: int = pager.requests as int;
        let resp = responses.remove(0);
        let ghost respg: TwitterResponse = resp;
        proof {
            assert(rm.skip(req)[0] == respg);
            assert(tm.skip(req)[0] == tm[req]);
        }
        let (articles, next) = match normalize_twitter_response(resp, crawled_at) {
            Ok(p) => p,
            Err(e) => {
                proof {
                    assert(twitter_run_fault(rm.skip(req)) == Some(e));
                }
                return Err(e);
            },
        };
        let ghost prev = pager.records@;
        let ghost arts_snap = articles@;
        pager.feed(articles, next);
        proof {
            assert(views(pager.records@) =~= views(prev) + views(arts_snap));
            assert(tm[req].items == response_views(respg, crawled_at@));
            assert(rm.skip(req).drop_first() =~= rm.skip(req + 1));
            assert(tm.skip(req).drop_first() =~= tm.skip(req + 1));
            assert(responses@ =~= rm.skip(req + 1));
            if pager.done() {
                assert(respg.next_token is None);
                assert(token_run(tm.skip(req)) == tm.skip(req)[0].items);
                assert(twitter_run_fault(rm.skip(req)) is None);
                assert(views(pager.records@) =~= token_run(tm));
            } else {
                assert(respg.next_token is Some);
                assert(token_run(tm.skip(req)) == tm.skip(req)[0].items + token_run(
                    tm.skip(req + 1),
                ));
                assert(twitter_run_fault(rm.skip(req)) == twitter_run_fault(rm.skip(req + 1)));
                assert(views(pager.records@) + token_run(tm.skip(req + 1)) =~= token_run(tm));
            }
        }
    }
    proof {
        if !pager.done() {
            assert(rm.skip(pager.requests as int) =~= Seq::<TwitterResponse>::empty());
            assert(tm.skip(pager.requests as int) =~= Seq::<TokenPage<ArticleView>>::empty());
            assert(views(pager.records@) + Seq::<ArticleView>::empty() =~= views(pager.records@));
        }
    }
    let requests = pager.requests;
    Ok((pager.records, requests))
}

/// Full crawl of the two-level source over its in-memory responses: the
/// outer collection is paginated to exhaustion first, then each outer
/// entry's inner pagination runs independently, and every child record is
/// authored with its entry's display name. `item_responses[k]` is the
/// response list of the `k`-th collected outer entry; the returned count is
/// the number of outer requests issued.
pub fn youtube_full_from_responses(
    playlist_responses: Vec<(Vec<PlayList>, Option<String>)>,
    item_responses: Vec<Vec<(Vec<PlayListItem>, Option<String>)>>,
    crawled_at: &String,
) -> (r: Result<(Vec<Article>, u64), CrawlError>)
    requires
        playlist_responses@.len() < u64::MAX,
        token_run(token_pages(playlist_responses@)).len() == item_responses@.len(),
        forall|k: int|
            0 <= k < item_responses@.len() ==> (#[trigger] item_responses@[k])@.len() < u64::MAX,
    ensures
        match r {
            Ok(p) => {
                let playlists = token_run(token_pages(playlist_responses@));
                &&& two_level_ok(playlists, inner_models(item_responses@))
                &&& views(p.0@) == two_level_views(
                    playlists,
                    inner_models(item_responses@),
                    crawled_at@,
                )
                &&& p.1 as nat == token_requests(token_pages(playlist_responses@))
            },
            Err(e) => !two_level_ok(
                token_run(token_pages(playlist_responses@)),
                inner_models(item_responses@),
            ) && e == CrawlError::TimeParseFault,
        },
{
    let (playlists, requests) = run_token(playlist_responses);
    let articles = collect_playlist_items(&playlists, item_responses, crawled_at)?;
    Ok((articles, requests))
}

/// An incremental crawl whose watermark is the first record of the full
/// crawl over the same source yields an empty list: the no-op sync.
pub proof fn lemma_incremental_of_full_is_empty(
    pages: Seq<Seq<QiitaArticle>>,
    crawled_at: Seq<char>,
    w: ArticleView,
)
    requires
        qiita_views(counter_run(pages), crawled_at).len() > 0,
        w == qiita_views(counter_run(pages), crawled_at)[0],
    ensures
        new_prefix(qiita_views(counter_run(pages), crawled_at), w) == Seq::<ArticleView>::empty(),
{
    lemma_watermark_first(qiita_views(counter_run(pages), crawled_at));
}

} // verus!
