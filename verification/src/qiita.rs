//! The flat, counter-paginated source adapter.
//!
//! A single collection, counter policy, one record per raw item. The author
//! is resolved from a nested field on the item itself, and the summary is
//! empty: the wire schema carries none.

use crate::article::{views, Article, ArticleView, Media};
use crate::error::CrawlError;
use crate::timestamp::{qiita_to_spec, valid_qiita_datetime, DatetimeFormatter};
use vstd::prelude::*;

verus! {

/// The nested author field of a raw item.
#[derive(Clone, Debug)]
pub struct QiitaUser {
    pub name: String,
}

/// One raw item of the flat source's wire schema.
#[derive(Clone, Debug)]
pub struct QiitaArticle {
    pub id: String,
    pub title: String,
    pub url: String,
    pub created_at: String,
    pub user: QiitaUser,
}

/// The record a raw item normalizes to, given the source tag and the crawl
/// timestamp.
pub open spec fn qiita_article_view(
    qa: QiitaArticle,
    media: Seq<char>,
    crawled_at: Seq<char>,
) -> ArticleView {
    ArticleView {
        id: qa.id@,
        title: qa.title@,
        author: qa.user.name@,
        media: media,
        url: qa.url@,
        summary: Seq::empty(),
        created_at: qiita_to_spec(qa.created_at@).unwrap(),
        crawled_at: crawled_at,
    }
}

/// Every raw item of the sequence carries a parseable timestamp.
pub open spec fn qiita_items_ok(items: Seq<QiitaArticle>) -> bool {
    forall|i: int| 0 <= i < items.len() ==> valid_qiita_datetime(#[trigger] items[i].created_at@)
}

/// The normalized views of a raw item sequence.
pub open spec fn qiita_views(items: Seq<QiitaArticle>, crawled_at: Seq<char>) -> Seq<ArticleView> {
    Seq::new(items.len(), |i: int| qiita_article_view(items[i], Media::Qiita.tag_spec(), crawled_at))
}

impl QiitaArticle {
    /// Maps this raw item to a normalized record. A malformed timestamp is a
    /// fault: nothing is coerced or defaulted.
    pub fn to_article(&self, media: String, crawled_at: String) -> (r: Result<Article, CrawlError>)
        ensures
            match r {
                Ok(a) => valid_qiita_datetime(self.created_at@) && a@ == qiita_article_view(
                    *self,
                    media@,
                    crawled_at@,
                ),
                Err(e) => !valid_qiita_datetime(self.created_at@) && e
                    == CrawlError::TimeParseFault,
            },
    {
        let created_at = DatetimeFormatter::qiita_to(&self.created_at)?;
        Ok(
            Article {
                id: self.id.clone(),
                title: self.title.clone(),
                author: self.user.name.clone(),
                media,
                url: self.url.clone(),
                summary: String::new(),
                created_at,
                crawled_at,
            },
        )
    }
}

/// Normalizes a sequence of raw items in order, stamping every record with
/// the one crawl timestamp. Fails on the first malformed timestamp, and only
/// then: no partial list is returned.
pub fn normalize_qiita_items(items: &Vec<QiitaArticle>, crawled_at: &String) -> (r: Result<
    Vec<Article>,
    CrawlError,
>)
    ensures
        match r {
            Ok(v) => qiita_items_ok(items@) && views(v@) == qiita_views(items@, crawled_at@),
            Err(e) => !qiita_items_ok(items@) && e == CrawlError::TimeParseFault,
        },
{
    let mut out: Vec<Article> = Vec::new();
    let mut i: usize = 0;
    while i < items.len()
        invariant
            0 <= i <= items@.len(),
            forall|k: int|
                0 <= k < i ==> valid_qiita_datetime(#[trigger] items@[k].created_at@),
            views(out@) =~= qiita_views(items@, crawled_at@).take(i as int),
        decreases items@.len() - i,
    {
        let media = Media::Qiita.tag_string();
        match items[i].to_article(media, crawled_at.clone()) {
            Ok(a) => {
                let ghost prev = out@;
                out.push(a);
                proof {
                    assert(views(prev).len() == prev.len());
                    assert forall|k: int| 0 <= k < i + 1 implies views(out@)[k] == qiita_views(
                        items@,
                        crawled_at@,
                    )[k] by {
                        assert(views(out@)[k] == out@[k]@);
                        if k < i {
                            assert(out@[k] == prev[k]);
                            assert(views(prev)[k] == prev[k]@);
                            assert(views(prev)[k] == qiita_views(items@, crawled_at@).take(
                                i as int,
                            )[k]);
                        }
                    }
                    assert(views(out@) =~= qiita_views(items@, crawled_at@).take(i + 1 as int));
                }
            },
            Err(e) => {
                return Err(e);
            },
        }
        i += 1;
    }
    proof {
        assert(qiita_views(items@, crawled_at@).take(items@.len() as int) =~= qiita_views(
            items@,
            crawled_at@,
        ));
    }
    Ok(out)
}

} // verus!
