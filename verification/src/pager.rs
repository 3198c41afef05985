//! The cursor and the two pagination policies.
//!
//! A pager drives a source adapter to exhaustion, producing the full ordered
//! record sequence for one source. Two termination policies exist:
//!
//! - **Counter policy**: pages are requested by a 1-based index with a fixed
//!   page size; an empty page is the stop signal, and the only one — the
//!   source returns no explicit "no more pages" marker.
//! - **Token policy**: each response carries an optional continuation token;
//!   the pager stops exactly when the token is absent, regardless of whether
//!   the page's own item list is empty.
//!
//! The pagers here are step machines: the caller performs one fetch per
//! `next_request`, hands the decoded response to `feed`, and repeats until
//! the pager is done. The `run_counter` and `run_token` drivers run the same
//! machines over in-memory response lists and are proved to compute the
//! `counter_run` / `token_run` models.

use vstd::prelude::*;

verus! {

/// Opaque pagination position, threaded from one response to the next
/// request. Once `End` is reached the pager issues no further request.
#[derive(Debug)]
pub enum Cursor {
    /// Initial position, before any request.
    Start,
    /// Counter-policy position: the next 1-based page index at a fixed size.
    Counter { page: u64, page_size: u64 },
    /// Token-policy position: the server-issued continuation token.
    Token { value: String },
    /// Terminal position: no more pages.
    End,
}

/// Counter-policy model of a source: its pages in order, absent pages being
/// empty. `counter_run` is the record sequence a pager collects: everything
/// up to the first empty page.
pub open spec fn counter_run<T>(pages: Seq<Seq<T>>) -> Seq<T>
    decreases pages.len(),
{
    if pages.len() == 0 {
        Seq::empty()
    } else if pages[0].len() == 0 {
        Seq::empty()
    } else {
        pages[0] + counter_run(pages.drop_first())
    }
}

/// Counter-policy model: how many requests a pager issues against the
/// source. Termination always costs the request that returns the empty
/// page — when the listed pages run out without one, the pager learns it
/// from one further, empty response.
pub open spec fn counter_requests<T>(pages: Seq<Seq<T>>) -> nat
    decreases pages.len(),
{
    if pages.len() == 0 {
        1
    } else if pages[0].len() == 0 {
        1
    } else {
        1 + counter_requests(pages.drop_first())
    }
}

/// One token-policy response: the page's items and the optional
/// continuation token.
pub struct TokenPage<T> {
    pub items: Seq<T>,
    pub next: Option<Seq<char>>,
}

/// Token-policy model: the record sequence a pager collects from the
/// responses a source will give, stopping at the first absent token.
pub open spec fn token_run<T>(resps: Seq<TokenPage<T>>) -> Seq<T>
    decreases resps.len(),
{
    if resps.len() == 0 {
        Seq::empty()
    } else if resps[0].next is None {
        resps[0].items
    } else {
        resps[0].items + token_run(resps.drop_first())
    }
}

/// Token-policy model: how many requests a pager issues. Exactly one per
/// response, up to and including the response whose token is absent.
pub open spec fn token_requests<T>(resps: Seq<TokenPage<T>>) -> nat
    decreases resps.len(),
{
    if resps.len() == 0 {
        0
    } else if resps[0].next is None {
        1
    } else {
        1 + token_requests(resps.drop_first())
    }
}

/// The counter-policy pager: requests pages 1, 2, 3, … of a fixed size and
/// stops at the first empty page.
pub struct CounterPager<T> {
    pub page_size: u64,
    pub next_page: u64,
    pub done: bool,
    pub records: Vec<T>,
    pub requests: u64,
}

impl<T> CounterPager<T> {
    pub open spec fn wf(self) -> bool {
        &&& self.page_size > 0
        &&& self.next_page == self.requests + 1
    }

    pub fn new(page_size: u64) -> (r: CounterPager<T>)
        requires
            page_size > 0,
        ensures
            r.wf(),
            r.records@ == Seq::<T>::empty(),
            !r.done,
            r.requests == 0,
            r.page_size == page_size,
    {
        CounterPager { page_size, next_page: 1, done: false, records: Vec::new(), requests: 0 }
    }

    /// The cursor of the next request, or nothing once the pager stopped.
    pub fn next_request(&self) -> (r: Option<Cursor>)
        ensures
            match r {
                Some(c) => !self.done && c == (Cursor::Counter {
                    page: self.next_page,
                    page_size: self.page_size,
                }),
                None => self.done,
            },
    {
        if self.done {
            None
        } else {
            Some(Cursor::Counter { page: self.next_page, page_size: self.page_size })
        }
    }

    /// Feeds the response to the pending request. An empty page stops the
    /// pager; any other page extends the records and advances the cursor.
    pub fn feed(&mut self, items: Vec<T>)
        requires
            !old(self).done,
            old(self).wf(),
            old(self).requests < u64::MAX - 1,
        ensures
            final(self).wf(),
            final(self).records@ == old(self).records@ + items@,
            final(self).done == (items@.len() == 0),
            final(self).requests == old(self).requests + 1,
            final(self).page_size == old(self).page_size,
    {
        let mut items = items;
        if items.is_empty() {
            self.done = true;
        }
        self.records.append(&mut items);
        self.requests = self.requests + 1;
        self.next_page = self.next_page + 1;
    }
}

/// The token-policy pager: threads the continuation token from each
/// response into the next request and stops exactly when a response carries
/// no token.
pub struct TokenPager<T> {
    pub cursor: Cursor,
    pub records: Vec<T>,
    pub requests: u64,
}

impl<T> TokenPager<T> {
    pub open spec fn wf(self) -> bool {
        !(self.cursor is Counter)
    }

    pub open spec fn done(self) -> bool {
        self.cursor is End
    }

    pub fn new() -> (r: TokenPager<T>)
        ensures
            r.wf(),
            r.cursor is Start,
            r.records@ == Seq::<T>::empty(),
            r.requests == 0,
    {
        TokenPager { cursor: Cursor::Start, records: Vec::new(), requests: 0 }
    }

    /// Whether the pager reached its end.
    pub fn is_done(&self) -> (r: bool)
        ensures
            r == self.done(),
    {
        matches!(self.cursor, Cursor::End)
    }

    /// The token to send with the next request: none on the first request,
    /// the last response's token afterwards — or no request at all once a
    /// response arrived without one.
    pub fn next_request(&self) -> (r: Option<Option<String>>)
        requires
            self.wf(),
        ensures
            match r {
                None => self.done(),
                Some(t) => !self.done() && match t {
                    None => self.cursor is Start,
                    Some(v) => self.cursor == (Cursor::Token { value: v }),
                },
            },
    {
        match &self.cursor {
            Cursor::Start => Some(None),
            Cursor::Token { value } => Some(Some(value.clone())),
            Cursor::End => None,
            Cursor::Counter { .. } => None,
        }
    }

    /// Feeds the response to the pending request. The absence of `next` is
    /// the stop signal; an empty `items` list is not — a page may carry zero
    /// items and still have further pages.
    pub fn feed(&mut self, items: Vec<T>, next: Option<String>)
        requires
            !old(self).done(),
            old(self).wf(),
            old(self).requests < u64::MAX,
        ensures
            final(self).wf(),
            final(self).records@ == old(self).records@ + items@,
            final(self).requests == old(self).requests + 1,
            match next {
                None => final(self).cursor is End,
                Some(t) => final(self).cursor == (Cursor::Token { value: t }),
            },
    {
        let mut items = items;
        self.records.append(&mut items);
        self.requests = self.requests + 1;
        match next {
            None => {
                self.cursor = Cursor::End;
            },
            Some(t) => {
                self.cursor = Cursor::Token { value: t };
            },
        }
    }
}

/// The views of a page list.
pub open spec fn page_views<T>(pages: Seq<Vec<T>>) -> Seq<Seq<T>> {
    pages.map_values(|p: Vec<T>| p@)
}

/// The model of a decoded token-policy response list.
pub open spec fn token_pages<T>(resps: Seq<(Vec<T>, Option<String>)>) -> Seq<TokenPage<T>> {
    resps.map_values(
        |r: (Vec<T>, Option<String>)|
            TokenPage {
                items: r.0@,
                next: match r.1 {
                    Some(t) => Some(t@),
                    None => None,
                },
            },
    )
}

/// Runs the counter-policy pager over an in-memory source: `pages` are the
/// source's pages in order, and pages past the end are empty. Returns the
/// collected records and the number of requests issued.
pub fn run_counter<T>(pages: Vec<Vec<T>>, page_size: u64) -> (r: (Vec<T>, u64))
    requires
        page_size > 0,
        pages@.len() + 1 < u64::MAX,
    ensures
        r.0@ == counter_run(page_views(pages@)),
        r.1 as nat == counter_requests(page_views(pages@)),
{
    let ghost pm = page_views(pages@);
    let mut pages = pages;
    let mut pager = CounterPager::<T>::new(page_size);
    proof {
        assert(pm.skip(0) =~= pm);
        assert(Seq::<T>::empty() + counter_run(pm) =~= counter_run(pm));
    }
    loop
        invariant
            pager.wf(),
            pager.page_size == page_size,
            pm.len() + 1 < u64::MAX,
            pager.requests + pages@.len() <= pm.len() + 1,
            !pager.done ==> page_views(pages@) =~= pm.skip(pager.requests as int)
                && pager.requests <= pm.len(),
            !pager.done ==> counter_run(pm) == pager.records@ + counter_run(
                pm.skip(pager.requests as int),
            ),
            !pager.done ==> counter_requests(pm) == pager.requests + counter_requests(
                pm.skip(pager.requests as int),
            ),
            pager.done ==> pager.records@ == counter_run(pm) && pager.requests as nat
                == counter_requests(pm),
        ensures
            pager.done,
        decreases pages@.len() + (if pager.done { 0int } else { 1 }),
    {
        if pager.done {
            break;
        }
        let ghost req: int = pager.requests as int;
        if pages.len() > 0 {
            let page = pages.remove(0);
            proof {
                assert(pm.skip(req)[0] == page@);
            }
            pager.feed(page);
            proof {
                assert(page_views(pages@) =~= pm.skip(req).drop_first());
                assert(pm.skip(req).drop_first() =~= pm.skip(req + 1));
                if page@.len() > 0 {
                    assert(counter_run(pm.skip(req)) == page@ + counter_run(pm.skip(req + 1)));
                    assert(counter_requests(pm.skip(req)) == 1 + counter_requests(
                        pm.skip(req + 1),
                    ));
                    assert(pager.records@ + counter_run(pm.skip(req + 1)) =~= counter_run(pm));
                } else {
                    assert(counter_run(pm.skip(req)) == Seq::<T>::empty());
                    assert(pager.records@ =~= counter_run(pm));
                }
            }
        } else {
            proof {
                assert(pm.skip(req) =~= Seq::<Seq<T>>::empty());
            }
            pager.feed(Vec::new());
            proof {
                assert(pager.records@ =~= counter_run(pm));
            }
        }
    }
    let requests = pager.requests;
    (pager.records, requests)
}

/// Runs the token-policy pager over an in-memory source: `resps` are the
/// responses the source gives, in order. Returns the collected records and
/// the number of requests issued.
pub fn run_token<T>(resps: Vec<(Vec<T>, Option<String>)>) -> (r: (Vec<T>, u64))
    requires
        resps@.len() < u64::MAX,
    ensures
        r.0@ == token_run(token_pages(resps@)),
        r.1 as nat == token_requests(token_pages(resps@)),
{
    let ghost tm = token_pages(resps@);
    let mut resps = resps;
    let mut pager = TokenPager::<T>::new();
    proof {
        assert(tm.skip(0) =~= tm);
        assert(Seq::<T>::empty() + token_run(tm) =~= token_run(tm));
    }
    loop
        invariant
            pager.wf(),
            tm.len() < u64::MAX,
            pager.requests + resps@.len() <= tm.len(),
            !pager.done() ==> token_pages(resps@) =~= tm.skip(pager.requests as int),
            !pager.done() ==> token_run(tm) == pager.records@ + token_run(
                tm.skip(pager.requests as int),
            ),
            !pager.done() ==> token_requests(tm) == pager.requests + token_requests(
                tm.skip(pager.requests as int),
            ),
            pager.done() ==> pager.records@ == token_run(tm) && pager.requests as nat
                == token_requests(tm),
        ensures
            pager.done() || resps@.len() == 0,
        decreases resps@.len(),
    {
        if pager.is_done() {
            break;
        }
        if resps.len() == 0 {
            proof {
                assert(tm.skip(pager.requests as int) =~= Seq::<TokenPage<T>>::empty());
            }
            break;
        }
        let ghost req: int = pager.requests as int;
        let (items, next) = resps.remove(0);
        proof {
            assert(tm.skip(req)[0] == (TokenPage {
                items: items@,
                next: match next {
                    Some(t) => Some(t@),
                    None => None,
                },
            }));
        }
        pager.feed(items, next);
        proof {
            assert(token_pages(resps@) =~= tm.skip(req).drop_first());
            assert(tm.skip(req).drop_first() =~= tm.skip(req + 1));
            if pager.done() {
                assert(token_run(tm.skip(req)) == tm.skip(req)[0].items);
                assert(pager.records@ =~= token_run(tm));
            } else {
                assert(token_run(tm.skip(req)) == tm.skip(req)[0].items + token_run(
                    tm.skip(req + 1),
                ));
                assert(pager.records@ + token_run(tm.skip(req + 1)) =~= token_run(tm));
            }
        }
    }
    proof {
        if !pager.done() {
            assert(tm.skip(pager.requests as int) =~= Seq::<TokenPage<T>>::empty());
        }
    }
    let requests = pager.requests;
    (pager.records, requests)
}

/// Counter-policy pagination over a source of `m` pages of fixed size `s`,
/// the last page holding `k < s` items: the pager emits exactly
/// `(m - 1) * s + k` records. It stops with the request that returns the
/// short page when that page is empty; when the short page still holds
/// items, the stop signal costs one further, empty response.
pub proof fn lemma_counter_policy<T>(pages: Seq<Seq<T>>, s: int, k: int)
    requires
        pages.len() >= 1,
        s > 0,
        0 <= k < s,
        forall|i: int| 0 <= i < pages.len() - 1 ==> #[trigger] pages[i].len() == s,
        pages[pages.len() - 1].len() == k,
    ensures
        counter_run(pages).len() == (pages.len() - 1) * s + k,
        counter_requests(pages) == if k == 0 {
            pages.len()
        } else {
            pages.len() + 1
        },
    decreases pages.len(),
{
    let m = pages.len() as int;
    if m == 1 {
        if k > 0 {
            assert(counter_run(pages) =~= pages[0] + counter_run(pages.drop_first()));
            assert(pages.drop_first() =~= Seq::<Seq<T>>::empty());
            assert(counter_requests(pages.drop_first()) == 1);
            assert(counter_requests(pages) == 1 + counter_requests(pages.drop_first()));
        }
    } else {
        assert(pages[0].len() == s);
        lemma_counter_policy(pages.drop_first(), s, k);
        assert(counter_run(pages) == pages[0] + counter_run(pages.drop_first()));
        assert(counter_requests(pages) == 1 + counter_requests(pages.drop_first()));
        assert((m - 2) * s + s == (m - 1) * s) by (nonlinear_arith);
    }
}

/// Token-policy pagination over responses whose last token is absent and
/// all earlier tokens present: the pager issues exactly one request per
/// response — stopping immediately after the token-less one, even if that
/// page's own item list is non-empty — and emits every page's items.
pub proof fn lemma_token_policy<T>(resps: Seq<TokenPage<T>>)
    requires
        resps.len() >= 1,
        forall|i: int| 0 <= i < resps.len() - 1 ==> #[trigger] resps[i].next is Some,
        resps[resps.len() - 1].next is None,
    ensures
        token_requests(resps) == resps.len(),
        token_run(resps) == resps.map_values(|p: TokenPage<T>| p.items).flatten(),
    decreases resps.len(),
{
    let items = resps.map_values(|p: TokenPage<T>| p.items);
    if resps.len() == 1 {
        assert(items.drop_first() =~= Seq::<Seq<T>>::empty());
        assert(items.flatten() =~= items[0] + items.drop_first().flatten());
        assert(items[0] + Seq::<T>::empty() =~= items[0]);
    } else {
        lemma_token_policy(resps.drop_first());
        assert(resps.drop_first().map_values(|p: TokenPage<T>| p.items) =~= items.drop_first());
        assert(items.flatten() == items[0] + items.drop_first().flatten());
        assert(token_run(resps) == resps[0].items + token_run(resps.drop_first()));
    }
}

} // verus!
