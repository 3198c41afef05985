//! The incremental differ.
//!
//! Given the crawled record sequence in emission order (newest first) and the
//! watermark — the most recently stored record for the source — the differ
//! keeps the ordered prefix strictly before the first record equal to the
//! watermark, and discards the watermark and everything after it.

use crate::article::{views, Article, ArticleView};
use vstd::prelude::*;

verus! {

/// The ordered prefix of `s` before the first element equal to `w`: all of
/// `s` when `w` never occurs.
pub open spec fn new_prefix(s: Seq<ArticleView>, w: ArticleView) -> Seq<ArticleView>
    decreases s.len(),
{
    if s.len() == 0 {
        Seq::empty()
    } else if s[0] == w {
        Seq::empty()
    } else {
        seq![s[0]] + new_prefix(s.drop_first(), w)
    }
}

/// `new_prefix` is `s.take(i)` when the first occurrence of `w` is at `i`,
/// and all of `s` when `w` does not occur.
proof fn lemma_new_prefix_at(s: Seq<ArticleView>, w: ArticleView, i: int)
    requires
        0 <= i <= s.len(),
        forall|k: int| 0 <= k < i ==> s[k] != w,
        i < s.len() ==> s[i] == w,
    ensures
        new_prefix(s, w) == s.take(i),
    decreases i,
{
    if s.len() == 0 {
        assert(s.take(i) =~= Seq::empty());
    } else if i == 0 {
        assert(s.take(0) =~= Seq::empty());
    } else {
        lemma_new_prefix_at(s.drop_first(), w, i - 1);
        assert(s.take(i) =~= seq![s[0]] + s.drop_first().take(i - 1));
    }
}

/// Truncates the crawled sequence to the records strictly newer than the
/// watermark: the ordered prefix before the first full-field match.
pub fn diff_to_update(crawled: &Vec<Article>, watermark: &Article) -> (r: Vec<Article>)
    ensures
        views(r@) == new_prefix(views(crawled@), watermark@),
{
    let ghost sv = views(crawled@);
    let mut out: Vec<Article> = Vec::new();
    let mut i: usize = 0;
    while i < crawled.len()
        invariant
            0 <= i <= crawled.len(),
            sv == views(crawled@),
            sv.len() == crawled@.len(),
            forall|k: int| 0 <= k < i ==> sv[k] != watermark@,
            views(out@) =~= sv.take(i as int),
        decreases crawled.len() - i,
    {
        if crawled[i] == *watermark {
            proof {
                lemma_new_prefix_at(sv, watermark@, i as int);
            }
            return out;
        }
        let item = crawled[i].clone();
        let ghost prev = out@;
        out.push(item);
        proof {
            assert(item@ == sv[i as int]);
            assert(views(prev).len() == prev.len());
            assert(prev.len() == i as int);
            assert(out@.len() == i + 1);
            assert forall|k: int| 0 <= k < i + 1 implies views(out@)[k] == sv[k] by {
                assert(views(out@)[k] == out@[k]@);
                if k < i {
                    assert(out@[k] == prev[k]);
                    assert(views(prev)[k] == prev[k]@);
                    assert(views(prev)[k] == sv.take(i as int)[k]);
                } else {
                    assert(out@[k] == item);
                }
            }
            assert(views(out@) =~= sv.take(i + 1 as int));
        }
        i += 1;
    }
    proof {
        lemma_new_prefix_at(sv, watermark@, sv.len() as int);
        assert(sv.take(sv.len() as int) =~= sv);
    }
    out
}

/// A watermark equal to the very first crawled record yields an empty
/// incremental result: the no-op sync.
pub proof fn lemma_watermark_first(s: Seq<ArticleView>)
    requires
        s.len() > 0,
    ensures
        new_prefix(s, s[0]) == Seq::<ArticleView>::empty(),
{
}

/// A watermark that never occurs in the crawled sequence yields the whole
/// sequence: a re-crawl with no detectable stop signal.
pub proof fn lemma_watermark_absent(s: Seq<ArticleView>, w: ArticleView)
    requires
        !s.contains(w),
    ensures
        new_prefix(s, w) == s,
    decreases s.len(),
{
    if s.len() > 0 {
        assert(s[0] != w);
        assert(!s.drop_first().contains(w)) by {
            if s.drop_first().contains(w) {
                let j = choose|j: int| 0 <= j < s.drop_first().len() && s.drop_first()[j] == w;
                assert(s[j + 1] == w);
            }
        }
        lemma_watermark_absent(s.drop_first(), w);
        assert(new_prefix(s, w) =~= s);
    } else {
        assert(new_prefix(s, w) =~= s);
    }
}

} // verus!
