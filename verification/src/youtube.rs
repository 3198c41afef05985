//! The two-level, token-paginated source adapter.
//!
//! An outer collection of playlists is paginated to exhaustion first (token
//! policy); then, for each outer entry in order, an independent inner token
//! pagination runs over its child items to exhaustion before the next entry
//! starts. The outer entry's display name is attached to every child record
//! as the author, since the per-item payload carries no true authorship.

use crate::article::{views, Article, ArticleView, Media};
use crate::error::CrawlError;
use crate::pager::{run_token, token_pages, token_run, TokenPage};
use crate::timestamp::{valid_youtube_datetime, youtube_to_spec, DatetimeFormatter};
use vstd::prelude::*;
use vstd::string::StringExecFns;

verus! {

/// The display name of an outer entry.
#[derive(Clone, Debug)]
pub struct PlayListSnippet {
    pub title: String,
}

/// One outer entry: a playlist.
#[derive(Clone, Debug)]
pub struct PlayList {
    pub id: String,
    pub snippet: PlayListSnippet,
}

/// The description fields of a child item.
#[derive(Clone, Debug)]
pub struct PlayListItemSnippet {
    pub published_at: String,
    pub title: String,
    pub description: String,
    pub channel_title: String,
}

/// The media reference of a child item.
#[derive(Clone, Debug)]
pub struct ContentDetail {
    pub video_id: String,
}

/// One child item of an outer entry.
#[derive(Clone, Debug)]
pub struct PlayListItem {
    pub id: String,
    pub snippet: PlayListItemSnippet,
    pub content_details: ContentDetail,
}

/// The canonical address of a child item, built from its media reference.
pub open spec fn youtube_url(video_id: Seq<char>) -> Seq<char> {
    "https://www.youtube.com/watch?v="@ + video_id
}

/// The record a child item normalizes to. The author is the outer entry's
/// display name; the timestamp is the item's listing time, the nearest the
/// schema offers to a creation time.
pub open spec fn youtube_article_view(
    it: PlayListItem,
    media: Seq<char>,
    crawled_at: Seq<char>,
    playlist_name: Seq<char>,
) -> ArticleView {
    ArticleView {
        id: it.id@,
        title: it.snippet.title@,
        author: playlist_name,
        media: media,
        url: youtube_url(it.content_details.video_id@),
        summary: it.snippet.description@,
        created_at: youtube_to_spec(it.snippet.published_at@).unwrap(),
        crawled_at: crawled_at,
    }
}

/// Every child item of the sequence carries a parseable timestamp.
pub open spec fn youtube_items_ok(items: Seq<PlayListItem>) -> bool {
    forall|i: int|
        0 <= i < items.len() ==> valid_youtube_datetime(#[trigger] items[i].snippet.published_at@)
}

/// The normalized views of a child item sequence under one outer entry.
pub open spec fn youtube_views(
    items: Seq<PlayListItem>,
    crawled_at: Seq<char>,
    playlist_name: Seq<char>,
) -> Seq<ArticleView> {
    Seq::new(
        items.len(),
        |i: int|
            youtube_article_view(items[i], Media::Youtube.tag_spec(), crawled_at, playlist_name),
    )
}

impl PlayListItem {
    /// Maps this child item to a normalized record under the given outer
    /// entry's display name.
    pub fn to_article(&self, media: String, crawled_at: String, playlist_name: String) -> (r:
        Result<Article, CrawlError>)
        ensures
            match r {
                Ok(a) => valid_youtube_datetime(self.snippet.published_at@) && a@
                    == youtube_article_view(*self, media@, crawled_at@, playlist_name@),
                Err(e) => !valid_youtube_datetime(self.snippet.published_at@) && e
                    == CrawlError::TimeParseFault,
            },
    {
        let created_at = DatetimeFormatter::youtube_to(&self.snippet.published_at)?;
        let mut url = String::from_str("https://www.youtube.com/watch?v=");
        url.append(self.content_details.video_id.as_str());
        proof {
            assert(url@ == youtube_url(self.content_details.video_id@));
        }
        Ok(
            Article {
                id: self.id.clone(),
                title: self.snippet.title.clone(),
                author: playlist_name,
                media,
                url,
                summary: self.snippet.description.clone(),
                created_at,
                crawled_at,
            },
        )
    }
}

/// Normalizes the child items of one outer entry, in order, failing on the
/// first malformed timestamp.
pub fn normalize_youtube_items(
    items: &Vec<PlayListItem>,
    playlist_name: &String,
    crawled_at: &String,
) -> (r: Result<Vec<Article>, CrawlError>)
    ensures
        match r {
            Ok(v) => youtube_items_ok(items@) && views(v@) == youtube_views(
                items@,
                crawled_at@,
                playlist_name@,
            ),
            Err(e) => !youtube_items_ok(items@) && e == CrawlError::TimeParseFault,
        },
{
    let ghost model = youtube_views(items@, crawled_at@, playlist_name@);
    let mut out: Vec<Article> = Vec::new();
    let mut i: usize = 0;
    while i < items.len()
        invariant
            0 <= i <= items@.len(),
            model == youtube_views(items@, crawled_at@, playlist_name@),
            forall|k: int|
                0 <= k < i ==> valid_youtube_datetime(#[trigger] items@[k].snippet.published_at@),
            views(out@) =~= model.take(i as int),
        decreases items@.len() - i,
    {
        let media = Media::Youtube.tag_string();
        match items[i].to_article(media, crawled_at.clone(), playlist_name.clone()) {
            Ok(a) => {
                let ghost prev = out@;
                out.push(a);
                proof {
                    assert(views(prev).len() == prev.len());
                    assert forall|k: int| 0 <= k < i + 1 implies views(out@)[k] == model[k] by {
                        assert(views(out@)[k] == out@[k]@);
                        if k < i {
                            assert(out@[k] == prev[k]);
                            assert(views(prev)[k] == prev[k]@);
                            assert(views(prev)[k] == model.take(i as int)[k]);
                        }
                    }
                    assert(views(out@) =~= model.take(i + 1 as int));
                }
            },
            Err(e) => {
                return Err(e);
            },
        }
        i += 1;
    }
    proof {
        assert(model.take(items@.len() as int) =~= model);
    }
    Ok(out)
}

/// The two-level model: for each outer entry in order, the records of its
/// inner token run, authored with that entry's display name, concatenated.
pub open spec fn two_level_views(
    playlists: Seq<PlayList>,
    inner: Seq<Seq<TokenPage<PlayListItem>>>,
    crawled_at: Seq<char>,
) -> Seq<ArticleView>
    decreases playlists.len(),
{
    if playlists.len() == 0 {
        Seq::empty()
    } else {
        youtube_views(token_run(inner[0]), crawled_at, playlists[0].snippet.title@)
            + two_level_views(playlists.drop_first(), inner.drop_first(), crawled_at)
    }
}

/// Every inner run of the two-level model carries parseable timestamps.
pub open spec fn two_level_ok(
    playlists: Seq<PlayList>,
    inner: Seq<Seq<TokenPage<PlayListItem>>>,
) -> bool {
    forall|k: int| 0 <= k < playlists.len() ==> youtube_items_ok(#[trigger] token_run(inner[k]))
}

/// The model of the decoded inner responses, one response list per outer
/// entry.
pub open spec fn inner_models(
    responses: Seq<Vec<(Vec<PlayListItem>, Option<String>)>>,
) -> Seq<Seq<TokenPage<PlayListItem>>> {
    responses.map_values(|r: Vec<(Vec<PlayListItem>, Option<String>)>| token_pages(r@))
}

/// Runs the inner pagination of every outer entry in order — each entry's
/// token run is independent and runs to exhaustion before the next entry
/// starts — and normalizes each entry's items under that entry's display
/// name. `responses[k]` is the response list the source gives for
/// `playlists[k]`. Fails on the first malformed timestamp; no partial list
/// is returned.
#[verifier::loop_isolation(false)]
pub fn collect_playlist_items(
    playlists: &Vec<PlayList>,
    responses: Vec<Vec<(Vec<PlayListItem>, Option<String>)>>,
    crawled_at: &String,
) -> (r: Result<Vec<Article>, CrawlError>)
    requires
        playlists@.len() == responses@.len(),
        forall|k: int|
            0 <= k < responses@.len() ==> (#[trigger] responses@[k])@.len() < u64::MAX,
    ensures
        match r {
            Ok(v) => two_level_ok(playlists@, inner_models(responses@)) && views(v@)
                == two_level_views(playlists@, inner_models(responses@), crawled_at@),
            Err(e) => !two_level_ok(playlists@, inner_models(responses@)) && e
                == CrawlError::TimeParseFault,
        },
{
    let ghost pls = playlists@;
    let ghost im = inner_models(responses@);
    let mut responses = responses;
    let mut out: Vec<Article> = Vec::new();
    let mut k: usize = 0;
    proof {
        assert(pls.skip(0) =~= pls);
        assert(im.skip(0) =~= im);
        assert(Seq::<ArticleView>::empty() + two_level_views(pls, im, crawled_at@)
            =~= two_level_views(pls, im, crawled_at@));
    }
    while k < playlists.len()
        invariant
            0 <= k <= pls.len(),
            pls == playlists@,
            pls.len() == im.len(),
            inner_models(responses@) =~= im.skip(k as int),
            forall|j: int| 0 <= j < responses@.len() ==> (#[trigger] responses@[j])@.len()
                < u64::MAX,
            forall|j: int| 0 <= j < k ==> youtube_items_ok(#[trigger] token_run(im[j])),
            views(out@) + two_level_views(pls.skip(k as int), im.skip(k as int), crawled_at@)
                =~= two_level_views(pls, im, crawled_at@),
        decreases pls.len() - k,
    {
        let resp = responses.remove(0);
        proof {
            assert(im.skip(k as int)[0] == token_pages(resp@));
        }
        let (items, _requests) = run_token(resp);
        let mut arts = match normalize_youtube_items(
            &items,
            &playlists[k].snippet.title,
            crawled_at,
        ) {
            Ok(v) => v,
            Err(e) => {
                proof {
                    assert(im.skip(k as int)[0] == im[k as int]);
                    assert(token_run(im[k as int]) == items@);
                    assert(!youtube_items_ok(token_run(im[k as int])));
                    assert(!two_level_ok(pls, im));
                }
                return Err(e);
            },
        };
        let ghost prev = out@;
        let ghost arts_snap = arts@;
        out.append(&mut arts);
        proof {
            assert(token_run(im[k as int]) == items@);
            assert(views(out@) =~= views(prev) + views(arts_snap));
            assert(views(arts_snap) == youtube_views(
                token_run(im.skip(k as int)[0]),
                crawled_at@,
                pls.skip(k as int)[0].snippet.title@,
            ));
            assert(two_level_views(pls.skip(k as int), im.skip(k as int), crawled_at@)
                == youtube_views(
                token_run(im.skip(k as int)[0]),
                crawled_at@,
                pls.skip(k as int)[0].snippet.title@,
            ) + two_level_views(
                pls.skip(k as int).drop_first(),
                im.skip(k as int).drop_first(),
                crawled_at@,
            ));
            assert(pls.skip(k as int).drop_first() =~= pls.skip(k + 1 as int));
            assert(im.skip(k as int).drop_first() =~= im.skip(k + 1 as int));
            assert(inner_models(responses@) =~= im.skip(k + 1 as int));
            assert(views(out@) + two_level_views(
                pls.skip(k + 1 as int),
                im.skip(k + 1 as int),
                crawled_at@,
            ) =~= two_level_views(pls, im, crawled_at@));
        }
        k += 1;
    }
    proof {
        assert(pls.skip(pls.len() as int) =~= Seq::<PlayList>::empty());
        assert(im.skip(im.len() as int) =~= Seq::<Seq<TokenPage<PlayListItem>>>::empty());
        assert(views(out@) + Seq::<ArticleView>::empty() =~= views(out@));
    }
    Ok(out)
}

/// Two outer entries whose inner runs hold three and zero items: the output
/// is exactly the three records of the first entry, every one authored with
/// the first entry's display name.
pub proof fn lemma_two_level_example(
    playlists: Seq<PlayList>,
    inner: Seq<Seq<TokenPage<PlayListItem>>>,
    crawled_at: Seq<char>,
)
    requires
        playlists.len() == 2,
        inner.len() == 2,
        token_run(inner[0]).len() == 3,
        token_run(inner[1]).len() == 0,
    ensures
        two_level_views(playlists, inner, crawled_at).len() == 3,
        forall|i: int|
            0 <= i < 3 ==> #[trigger] two_level_views(playlists, inner, crawled_at)[i].author
                == playlists[0].snippet.title@,
{
    let v = two_level_views(playlists, inner, crawled_at);
    let first = youtube_views(token_run(inner[0]), crawled_at, playlists[0].snippet.title@);
    assert(playlists.drop_first().drop_first() =~= Seq::<PlayList>::empty());
    assert(v == first + two_level_views(playlists.drop_first(), inner.drop_first(), crawled_at));
    assert(playlists.drop_first()[0] == playlists[1]);
    assert(inner.drop_first()[0] == inner[1]);
    let pd = playlists.drop_first();
    let idf = inner.drop_first();
    assert(two_level_views(pd, idf, crawled_at) == youtube_views(
        token_run(idf[0]),
        crawled_at,
        pd[0].snippet.title@,
    ) + two_level_views(pd.drop_first(), idf.drop_first(), crawled_at));
    assert(pd.drop_first().len() == 0);
    assert(two_level_views(pd.drop_first(), idf.drop_first(), crawled_at) == Seq::<
        ArticleView,
    >::empty());
    assert(youtube_views(token_run(idf[0]), crawled_at, pd[0].snippet.title@).len() == 0);
    assert(two_level_views(pd, idf, crawled_at) =~= Seq::<ArticleView>::empty());
    assert(v =~= first);
    assert forall|i: int| 0 <= i < 3 implies #[trigger] v[i].author
        == playlists[0].snippet.title@ by {
        assert(v[i] == first[i]);
    }
}

} // verus!
