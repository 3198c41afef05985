use crawler_core::pager::{run_counter, run_token, CounterPager, Cursor, TokenPager};

#[test]
fn counter_emits_all_full_pages_and_short_page() {
    // Two full pages of size 2 and a short page of 1 item: 5 records. The
    // short page is non-empty, so the stop signal costs one further request
    // that returns the empty page: 4 requests in all.
    let pages: Vec<Vec<u64>> = vec![vec![1, 2], vec![3, 4], vec![5]];
    let (records, requests) = run_counter(pages, 2);
    assert_eq!(records, vec![1, 2, 3, 4, 5]);
    assert_eq!(requests, 4);
}

#[test]
fn counter_stops_on_empty_short_page_without_extra_request() {
    // When the terminal page is itself empty, it is the stop signal: no
    // request follows it.
    let pages: Vec<Vec<u64>> = vec![vec![1, 2], vec![3, 4], vec![]];
    let (records, requests) = run_counter(pages, 2);
    assert_eq!(records, vec![1, 2, 3, 4]);
    assert_eq!(requests, 3);
}

#[test]
fn counter_ignores_pages_after_first_empty() {
    let pages: Vec<Vec<u64>> = vec![vec![1], vec![], vec![9]];
    let (records, requests) = run_counter(pages, 1);
    assert_eq!(records, vec![1]);
    assert_eq!(requests, 2);
}

#[test]
fn counter_empty_source() {
    let pages: Vec<Vec<u64>> = vec![];
    let (records, requests) = run_counter(pages, 20);
    assert_eq!(records, Vec::<u64>::new());
    assert_eq!(requests, 1);
}

#[test]
fn token_one_request_per_page_stops_on_absent_token() {
    // The second response has no token: the pager stops right after it, even
    // though that page's own item list is non-empty, and never requests the
    // third response.
    let resps: Vec<(Vec<u64>, Option<String>)> = vec![
        (vec![1, 2], Some(String::from("t1"))),
        (vec![3], None),
        (vec![9], Some(String::from("t9"))),
    ];
    let (records, requests) = run_token(resps);
    assert_eq!(records, vec![1, 2, 3]);
    assert_eq!(requests, 2);
}

#[test]
fn token_empty_page_with_token_continues() {
    let resps: Vec<(Vec<u64>, Option<String>)> = vec![
        (vec![], Some(String::from("t1"))),
        (vec![7], None),
    ];
    let (records, requests) = run_token(resps);
    assert_eq!(records, vec![7]);
    assert_eq!(requests, 2);
}

#[test]
fn token_single_tokenless_page() {
    let resps: Vec<(Vec<u64>, Option<String>)> = vec![(vec![4, 5], None)];
    let (records, requests) = run_token(resps);
    assert_eq!(records, vec![4, 5]);
    assert_eq!(requests, 1);
}

#[test]
fn counter_pager_steps() {
    let mut pager: CounterPager<u64> = CounterPager::new(20);
    match pager.next_request() {
        Some(Cursor::Counter { page, page_size }) => {
            assert_eq!(page, 1);
            assert_eq!(page_size, 20);
        }
        _ => panic!("expected a counter cursor"),
    }
    pager.feed(vec![10, 11]);
    match pager.next_request() {
        Some(Cursor::Counter { page, .. }) => assert_eq!(page, 2),
        _ => panic!("expected a counter cursor"),
    }
    pager.feed(vec![]);
    assert!(pager.next_request().is_none());
    assert_eq!(pager.records, vec![10, 11]);
    assert_eq!(pager.requests, 2);
}

#[test]
fn token_pager_threads_tokens() {
    let mut pager: TokenPager<u64> = TokenPager::new();
    assert_eq!(pager.next_request(), Some(None));
    pager.feed(vec![1], Some(String::from("abc")));
    assert_eq!(pager.next_request(), Some(Some(String::from("abc"))));
    pager.feed(vec![], Some(String::from("def")));
    assert_eq!(pager.next_request(), Some(Some(String::from("def"))));
    pager.feed(vec![2], None);
    assert!(pager.is_done());
    assert_eq!(pager.next_request(), None);
    assert_eq!(pager.records, vec![1, 2]);
    assert_eq!(pager.requests, 3);
}
