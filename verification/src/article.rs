//! The normalized record and the source tag.
//!
//! Every crawled item, whatever its source, converges on one `Article`
//! shape. Two articles are equal exactly when all fields match; the
//! incremental differ relies on that full-field equality.

use crate::error::CrawlError;
use vstd::prelude::*;
use vstd::string::StringExecFns;

verus! {

/// The mathematical value of an `Article`: its fields as character sequences.
pub struct ArticleView {
    pub id: Seq<char>,
    pub title: Seq<char>,
    pub author: Seq<char>,
    pub media: Seq<char>,
    pub url: Seq<char>,
    pub summary: Seq<char>,
    pub created_at: Seq<char>,
    pub crawled_at: Seq<char>,
}

/// The normalized content record produced by a crawl.
///
/// `id` is unique within a source; `(media, id)` is the stable identity.
/// `created_at` and `crawled_at` hold canonical `YYYY-MM-DD HH:MM:SS`
/// timestamps; `crawled_at` is constant across all records of one crawl
/// invocation.
#[derive(Debug)]
pub struct Article {
    pub id: String,
    pub title: String,
    pub author: String,
    pub media: String,
    pub url: String,
    pub summary: String,
    pub created_at: String,
    pub crawled_at: String,
}

impl View for Article {
    type V = ArticleView;

    open spec fn view(&self) -> ArticleView {
        ArticleView {
            id: self.id@,
            title: self.title@,
            author: self.author@,
            media: self.media@,
            url: self.url@,
            summary: self.summary@,
            created_at: self.created_at@,
            crawled_at: self.crawled_at@,
        }
    }
}

impl Clone for Article {
    fn clone(&self) -> (r: Article)
        ensures
            r == *self,
            r@ == self@,
    {
        Article {
            id: self.id.clone(),
            title: self.title.clone(),
            author: self.author.clone(),
            media: self.media.clone(),
            url: self.url.clone(),
            summary: self.summary.clone(),
            created_at: self.created_at.clone(),
            crawled_at: self.crawled_at.clone(),
        }
    }
}

impl PartialEq for Article {
    /// Full-field equality: the identity used for watermark comparison.
    fn eq(&self, other: &Article) -> (r: bool)
        ensures
            r == (self@ == other@),
    {
        let r = self.id == other.id && self.title == other.title && self.author == other.author
            && self.media == other.media && self.url == other.url && self.summary == other.summary
            && self.created_at == other.created_at && self.crawled_at == other.crawled_at;
        proof {
            if r {
                assert(self@ == other@);
            }
        }
        r
    }
}

impl Eq for Article {

}

impl vstd::std_specs::cmp::PartialEqSpecImpl for Article {
    open spec fn obeys_eq_spec() -> bool {
        true
    }

    open spec fn eq_spec(&self, other: &Article) -> bool {
        self@ == other@
    }
}

/// The views of a record sequence.
pub open spec fn views(s: Seq<Article>) -> Seq<ArticleView> {
    s.map_values(|a: Article| a@)
}

/// The closed set of known sources.
#[derive(Clone, Copy, Debug, PartialEq, Eq, Structural)]
pub enum Media {
    Qiita,
    Youtube,
    Twitter,
}

impl Media {
    /// The lowercase tag that fills `Article::media` and names the source in
    /// caller requests.
    pub open spec fn tag_spec(self) -> Seq<char> {
        match self {
            Media::Qiita => "qiita"@,
            Media::Youtube => "youtube"@,
            Media::Twitter => "twitter"@,
        }
    }

    pub fn as_str(self) -> (r: &'static str)
        ensures
            r@ == self.tag_spec(),
    {
        match self {
            Media::Qiita => "qiita",
            Media::Youtube => "youtube",
            Media::Twitter => "twitter",
        }
    }

    /// The tag as an owned string.
    pub fn tag_string(self) -> (r: String)
        ensures
            r@ == self.tag_spec(),
    {
        String::from_str(self.as_str())
    }

    /// Parses a source tag. An unknown tag is a configuration fault: the
    /// caller asked for a source this engine does not know.
    pub fn from_str(s: &str) -> (r: Result<Media, CrawlError>)
        ensures
            match r {
                Ok(m) => s@ == m.tag_spec(),
                Err(e) => {
                    &&& e == CrawlError::ConfigFault
                    &&& s@ != Media::Qiita.tag_spec()
                    &&& s@ != Media::Youtube.tag_spec()
                    &&& s@ != Media::Twitter.tag_spec()
                },
            },
    {
        if str_eq(s, "qiita") {
            Ok(Media::Qiita)
        } else if str_eq(s, "youtube") {
            Ok(Media::Youtube)
        } else if str_eq(s, "twitter") {
            Ok(Media::Twitter)
        } else {
            Err(CrawlError::ConfigFault)
        }
    }
}

/// String-slice equality by contents.
pub fn str_eq(a: &str, b: &str) -> (r: bool)
    ensures
        r == (a@ == b@),
{
    let x: String = a.to_owned();
    let y: String = b.to_owned();
    x == y
}

} // verus!
