//! The joined, token-paginated source adapter.
//!
//! A page response carries a primary item array plus a side table of
//! referenced users; each item is joined to the side table by its author
//! foreign key to resolve a display name. A failure to resolve is a lookup
//! fault, and the batch carrying it fails: no partial record list is
//! returned for the page.

use crate::article::{views, Article, ArticleView, Media};
use crate::error::CrawlError;
use crate::pager::TokenPage;
use crate::timestamp::{twitter_to_spec, valid_twitter_datetime, DatetimeFormatter};
use vstd::prelude::*;
use vstd::string::StringExecFns;

verus! {

/// One entry of the side table: a referenced user.
#[derive(Clone, Debug)]
pub struct TweetUser {
    pub id: String,
    pub name: String,
    pub username: String,
}

/// One primary item of the joined source's wire schema.
#[derive(Clone, Debug)]
pub struct Tweet {
    pub edit_history_tweet_ids: Vec<String>,
    pub id: String,
    pub author_id: String,
    pub created_at: String,
    pub text: String,
}

/// The username of the first side-table entry whose id matches, if any.
pub open spec fn lookup_user(users: Seq<TweetUser>, id: Seq<char>) -> Option<Seq<char>>
    decreases users.len(),
{
    if users.len() == 0 {
        None
    } else if users[0].id@ == id {
        Some(users[0].username@)
    } else {
        lookup_user(users.drop_first(), id)
    }
}

/// The canonical address of an item, built from the resolved author and the
/// item id.
pub open spec fn tweet_url(author: Seq<char>, id: Seq<char>) -> Seq<char> {
    "https://twitter.com/"@ + author + "/status/"@ + id
}

/// The record a primary item normalizes to. The wire schema has no summary
/// field, so the text stands in for both title and summary.
pub open spec fn tweet_article_view(
    t: Tweet,
    author: Seq<char>,
    media: Seq<char>,
    crawled_at: Seq<char>,
) -> ArticleView {
    ArticleView {
        id: t.id@,
        title: t.text@,
        author: author,
        media: media,
        url: tweet_url(author, t.id@),
        summary: t.text@,
        created_at: twitter_to_spec(t.created_at@).unwrap(),
        crawled_at: crawled_at,
    }
}

/// The first fault a page raises, walking items in order: an unresolvable
/// author is a lookup fault, then a malformed timestamp is a parse fault.
pub open spec fn twitter_page_fault(tweets: Seq<Tweet>, users: Seq<TweetUser>) -> Option<
    CrawlError,
>
    decreases tweets.len(),
{
    if tweets.len() == 0 {
        None
    } else if lookup_user(users, tweets[0].author_id@) is None {
        Some(CrawlError::LookupFault)
    } else if !valid_twitter_datetime(tweets[0].created_at@) {
        Some(CrawlError::TimeParseFault)
    } else {
        twitter_page_fault(tweets.drop_first(), users)
    }
}

/// The normalized views of a faultless page.
pub open spec fn twitter_views(
    tweets: Seq<Tweet>,
    users: Seq<TweetUser>,
    crawled_at: Seq<char>,
) -> Seq<ArticleView> {
    Seq::new(
        tweets.len(),
        |i: int|
            tweet_article_view(
                tweets[i],
                lookup_user(users, tweets[i].author_id@).unwrap(),
                Media::Twitter.tag_spec(),
                crawled_at,
            ),
    )
}

/// A scan that matched nothing before `i` resolves like the scan from `i`.
proof fn lemma_lookup_scan(users: Seq<TweetUser>, id: Seq<char>, i: int)
    requires
        0 <= i <= users.len(),
        forall|k: int| 0 <= k < i ==> #[trigger] users[k].id@ != id,
    ensures
        lookup_user(users, id) == lookup_user(users.skip(i), id),
    decreases i,
{
    if i > 0 {
        lemma_lookup_scan(users, id, i - 1);
        assert(users.skip(i - 1).drop_first() =~= users.skip(i));
        assert(users.skip(i - 1)[0] == users[i - 1]);
    } else {
        assert(users.skip(0) =~= users);
    }
}

/// Resolves an author foreign key against the side table: the username of
/// the first matching entry, or a lookup fault when no entry matches.
pub fn resolve_author(users: &Vec<TweetUser>, author_id: &String) -> (r: Result<
    String,
    CrawlError,
>)
    ensures
        match r {
            Ok(name) => lookup_user(users@, author_id@) == Some(name@),
            Err(e) => lookup_user(users@, author_id@) is None && e == CrawlError::LookupFault,
        },
{
    let mut i: usize = 0;
    while i < users.len()
        invariant
            0 <= i <= users@.len(),
            forall|k: int| 0 <= k < i ==> #[trigger] users@[k].id@ != author_id@,
        decreases users@.len() - i,
    {
        if users[i].id == *author_id {
            proof {
                lemma_lookup_scan(users@, author_id@, i as int);
                assert(users@.skip(i as int)[0] == users@[i as int]);
            }
            return Ok(users[i].username.clone());
        }
        i += 1;
    }
    proof {
        lemma_lookup_scan(users@, author_id@, users@.len() as int);
        assert(users@.skip(users@.len() as int) =~= Seq::<TweetUser>::empty());
    }
    Err(CrawlError::LookupFault)
}

impl Tweet {
    /// Maps this primary item to a normalized record, with the author
    /// already resolved against the side table.
    pub fn to_article(&self, author: String, media: String, crawled_at: String) -> (r: Result<
        Article,
        CrawlError,
    >)
        ensures
            match r {
                Ok(a) => valid_twitter_datetime(self.created_at@) && a@ == tweet_article_view(
                    *self,
                    author@,
                    media@,
                    crawled_at@,
                ),
                Err(e) => !valid_twitter_datetime(self.created_at@) && e
                    == CrawlError::TimeParseFault,
            },
    {
        let created_at = DatetimeFormatter::twitter_to(&self.created_at)?;
        let mut url = String::from_str("https://twitter.com/");
        url.append(author.as_str());
        url.append("/status/");
        url.append(self.id.as_str());
        proof {
            assert(url@ == tweet_url(author@, self.id@));
        }
        Ok(
            Article {
                id: self.id.clone(),
                title: self.text.clone(),
                author,
                media,
                url,
                summary: self.text.clone(),
                created_at,
                crawled_at,
            },
        )
    }
}

/// The fault of the items from `i` on equals the fault of the whole page
/// when the items before `i` are faultless.
proof fn lemma_page_fault_scan(tweets: Seq<Tweet>, users: Seq<TweetUser>, i: int)
    requires
        0 <= i <= tweets.len(),
        forall|k: int|
            0 <= k < i ==> lookup_user(users, #[trigger] tweets[k].author_id@) is Some
                && valid_twitter_datetime(tweets[k].created_at@),
    ensures
        twitter_page_fault(tweets, users) == twitter_page_fault(tweets.skip(i), users),
    decreases i,
{
    if i > 0 {
        lemma_page_fault_scan(tweets, users, i - 1);
        assert(tweets.skip(i - 1).drop_first() =~= tweets.skip(i));
        assert(tweets.skip(i - 1)[0] == tweets[i - 1]);
    } else {
        assert(tweets.skip(0) =~= tweets);
    }
}

/// Normalizes one joined page: resolves every item's author against the side
/// table and maps it to a record, in order, failing on the first fault. A
/// faulty item fails the whole page: no partial record list is returned.
pub fn normalize_twitter_page(
    tweets: &Vec<Tweet>,
    users: &Vec<TweetUser>,
    crawled_at: &String,
) -> (r: Result<Vec<Article>, CrawlError>)
    ensures
        match r {
            Ok(v) => twitter_page_fault(tweets@, users@) is None && views(v@) == twitter_views(
                tweets@,
                users@,
                crawled_at@,
            ),
            Err(e) => twitter_page_fault(tweets@, users@) == Some(e),
        },
{
    let ghost model = twitter_views(tweets@, users@, crawled_at@);
    let mut out: Vec<Article> = Vec::new();
    let mut i: usize = 0;
    while i < tweets.len()
        invariant
            0 <= i <= tweets@.len(),
            model == twitter_views(tweets@, users@, crawled_at@),
            forall|k: int|
                0 <= k < i ==> lookup_user(users@, #[trigger] tweets@[k].author_id@) is Some
                    && valid_twitter_datetime(tweets@[k].created_at@),
            views(out@) =~= model.take(i as int),
        decreases tweets@.len() - i,
    {
        let ghost pre = tweets@.skip(i as int);
        proof {
            lemma_page_fault_scan(tweets@, users@, i as int);
            assert(pre[0] == tweets@[i as int]);
        }
        let author = match resolve_author(users, &tweets[i].author_id) {
            Ok(name) => name,
            Err(e) => {
                return Err(e);
            },
        };
        let media = Media::Twitter.tag_string();
        match tweets[i].to_article(author, media, crawled_at.clone()) {
            Ok(a) => {
                let ghost prev = out@;
                out.push(a);
                proof {
                    assert(views(prev).len() == prev.len());
                    assert forall|k: int| 0 <= k < i + 1 implies views(out@)[k] == model[k] by {
                        assert(views(out@)[k] == out@[k]@);
                        if k < i {
                            assert(out@[k] == prev[k]);
                            assert(views(prev)[k] == prev[k]@);
                            assert(views(prev)[k] == model.take(i as int)[k]);
                        }
                    }
                    assert(views(out@) =~= model.take(i + 1 as int));
                }
            },
            Err(e) => {
                proof {
                    assert(twitter_page_fault(pre, users@) == Some(CrawlError::TimeParseFault));
                }
                return Err(e);
            },
        }
        i += 1;
    }
    proof {
        lemma_page_fault_scan(tweets@, users@, tweets@.len() as int);
        assert(tweets@.skip(tweets@.len() as int) =~= Seq::<Tweet>::empty());
        assert(model.take(tweets@.len() as int) =~= model);
    }
    Ok(out)
}

/// One decoded response of the joined source: the optional primary array,
/// the optional side table, and the optional continuation token.
#[derive(Clone, Debug)]
pub struct TwitterResponse {
    pub data: Option<Vec<Tweet>>,
    pub users: Option<Vec<TweetUser>>,
    pub next_token: Option<String>,
}

/// The primary items a response carries: an absent array carries none.
pub open spec fn response_tweets(r: TwitterResponse) -> Seq<Tweet> {
    match r.data {
        Some(tweets) => tweets@,
        None => Seq::empty(),
    }
}

/// The side table a response carries: an absent table is empty.
pub open spec fn response_users(r: TwitterResponse) -> Seq<TweetUser> {
    match r.users {
        Some(users) => users@,
        None => Seq::empty(),
    }
}

/// The fault one response raises: a present, non-empty primary array without
/// a side table is a wire-schema fault — the join cannot proceed — and
/// otherwise the page's first item fault, if any.
pub open spec fn response_fault(r: TwitterResponse) -> Option<CrawlError> {
    if response_tweets(r).len() > 0 && r.users is None {
        Some(CrawlError::DecodeFault)
    } else {
        twitter_page_fault(response_tweets(r), response_users(r))
    }
}

/// The normalized views of a faultless response.
pub open spec fn response_views(r: TwitterResponse, crawled_at: Seq<char>) -> Seq<ArticleView> {
    twitter_views(response_tweets(r), response_users(r), crawled_at)
}

/// Normalizes one whole response of the joined source and passes the
/// continuation token through unchanged.
///
/// The token alone controls termination: a response with zero primary items
/// — an empty array or none at all — still continues the feed when it
/// carries a token, and is not an error. Open question: a source that keeps
/// issuing tokens on item-less pages would keep a crawl running with no
/// distinct signal; whether to cap such a run is the caller's choice, as no
/// stop condition other than the absent token exists in the protocol.
pub fn normalize_twitter_response(response: TwitterResponse, crawled_at: &String) -> (r: Result<
    (Vec<Article>, Option<String>),
    CrawlError,
>)
    ensures
        match r {
            Ok(p) => {
                &&& response_fault(response) is None
                &&& views(p.0@) == response_views(response, crawled_at@)
                &&& p.1 == response.next_token
            },
            Err(e) => response_fault(response) == Some(e),
        },
{
    let TwitterResponse { data, users, next_token } = response;
    let tweets = match data {
        None => Vec::new(),
        Some(tweets) => tweets,
    };
    proof {
        assert(response_tweets(response) =~= tweets@);
    }
    match users {
        None => {
            if tweets.len() > 0 {
                Err(CrawlError::DecodeFault)
            } else {
                let empty_users: Vec<TweetUser> = Vec::new();
                proof {
                    assert(response_users(response) =~= empty_users@);
                }
                let articles = normalize_twitter_page(&tweets, &empty_users, crawled_at)?;
                Ok((articles, next_token))
            }
        },
        Some(users) => {
            let articles = normalize_twitter_page(&tweets, &users, crawled_at)?;
            Ok((articles, next_token))
        },
    }
}

/// Token-policy model of a whole crawl over the joined source: the fault the
/// crawl raises, walking responses in order and stopping at the first absent
/// token.
pub open spec fn twitter_run_fault(resps: Seq<TwitterResponse>) -> Option<CrawlError>
    decreases resps.len(),
{
    if resps.len() == 0 {
        None
    } else if response_fault(resps[0]) is Some {
        response_fault(resps[0])
    } else if resps[0].next_token is None {
        None
    } else {
        twitter_run_fault(resps.drop_first())
    }
}

/// The token pages a faultless response list normalizes to: each page's
/// items are the response's normalized records, its token the response's.
pub open spec fn twitter_pages_model(
    resps: Seq<TwitterResponse>,
    crawled_at: Seq<char>,
) -> Seq<TokenPage<ArticleView>> {
    resps.map_values(
        |r: TwitterResponse|
            TokenPage {
                items: response_views(r, crawled_at),
                next: match r.next_token {
                    Some(t) => Some(t@),
                    None => None,
                },
            },
    )
}

} // verus!
