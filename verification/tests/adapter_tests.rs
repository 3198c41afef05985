use crawler_core::article::{Article, Media};
use crawler_core::differ::diff_to_update;
use crawler_core::error::CrawlError;
use crawler_core::orchestrator::{
    latest_from_first_page, qiita_full_from_pages, qiita_incremental_from_pages,
    twitter_full_from_responses, youtube_full_from_responses, SourceConfig,
};
use crawler_core::qiita::{normalize_qiita_items, QiitaArticle, QiitaUser};
use crawler_core::twitter::{
    normalize_twitter_page, normalize_twitter_response, resolve_author, Tweet, TweetUser,
    TwitterResponse,
};
use crawler_core::youtube::{
    collect_playlist_items, normalize_youtube_items, ContentDetail, PlayList, PlayListItem,
    PlayListItemSnippet, PlayListSnippet,
};

fn article(n: u32) -> Article {
    Article {
        id: format!("id-{}", n),
        title: format!("title {}", n),
        author: String::from("someone"),
        media: String::from("qiita"),
        url: format!("https://example.com/{}", n),
        summary: String::new(),
        created_at: String::from("2022-01-01 00:00:00"),
        crawled_at: String::from("2022-06-01 12:00:00"),
    }
}

fn qiita_item(n: u32) -> QiitaArticle {
    QiitaArticle {
        id: format!("q{}", n),
        title: format!("entry {}", n),
        url: format!("https://qiita.com/items/{}", n),
        created_at: String::from("2022-03-04T05:06:07+09:00"),
        user: QiitaUser { name: String::from("alice") },
    }
}

fn tweet(n: u32, author_id: &str) -> Tweet {
    Tweet {
        edit_history_tweet_ids: vec![format!("{}", n)],
        id: format!("{}", n),
        author_id: String::from(author_id),
        created_at: String::from("2022-03-04T05:06:07.000Z"),
        text: format!("tweet {}", n),
    }
}

fn playlist_item(n: u32) -> PlayListItem {
    PlayListItem {
        id: format!("item-{}", n),
        snippet: PlayListItemSnippet {
            published_at: String::from("2022-03-04T05:06:07Z"),
            title: format!("video {}", n),
            description: format!("about video {}", n),
            channel_title: String::from("a channel"),
        },
        content_details: ContentDetail { video_id: format!("v{}", n) },
    }
}

#[test]
fn qiita_to_article_fields() {
    let a = qiita_item(1)
        .to_article(String::from("qiita"), String::from("2022-06-01 12:00:00"))
        .unwrap();
    assert_eq!(a.id, "q1");
    assert_eq!(a.title, "entry 1");
    assert_eq!(a.author, "alice");
    assert_eq!(a.media, "qiita");
    assert_eq!(a.url, "https://qiita.com/items/1");
    assert_eq!(a.summary, "");
    assert_eq!(a.created_at, "2022-03-04 05:06:07");
    assert_eq!(a.crawled_at, "2022-06-01 12:00:00");
}

#[test]
fn qiita_to_article_rejects_bad_timestamp() {
    let mut item = qiita_item(1);
    item.created_at = String::from("yesterday");
    let r = item.to_article(String::from("qiita"), String::from("2022-06-01 12:00:00"));
    assert_eq!(r.unwrap_err(), CrawlError::TimeParseFault);
}

#[test]
fn normalize_qiita_items_keeps_order() {
    let items = vec![qiita_item(1), qiita_item(2), qiita_item(3)];
    let out = normalize_qiita_items(&items, &String::from("2022-06-01 12:00:00")).unwrap();
    let ids: Vec<&str> = out.iter().map(|a| a.id.as_str()).collect();
    assert_eq!(ids, vec!["q1", "q2", "q3"]);
}

#[test]
fn normalize_qiita_items_fails_whole_batch() {
    let mut bad = qiita_item(2);
    bad.created_at = String::from("2022-03-04");
    let items = vec![qiita_item(1), bad];
    let r = normalize_qiita_items(&items, &String::from("2022-06-01 12:00:00"));
    assert_eq!(r.unwrap_err(), CrawlError::TimeParseFault);
}

#[test]
fn tweet_to_article_builds_url_from_author_and_id() {
    let a = tweet(42, "u1")
        .to_article(
            String::from("alice"),
            String::from("twitter"),
            String::from("2022-06-01 12:00:00"),
        )
        .unwrap();
    assert_eq!(a.url, "https://twitter.com/alice/status/42");
    assert_eq!(a.title, "tweet 42");
    assert_eq!(a.summary, "tweet 42");
    assert_eq!(a.created_at, "2022-03-04 05:06:07");
}

#[test]
fn resolve_author_finds_first_match() {
    let users = vec![
        TweetUser {
            id: String::from("u1"),
            name: String::from("Alice A."),
            username: String::from("alice"),
        },
        TweetUser {
            id: String::from("u2"),
            name: String::from("Bob B."),
            username: String::from("bob"),
        },
    ];
    assert_eq!(resolve_author(&users, &String::from("u2")).unwrap(), "bob");
    assert_eq!(
        resolve_author(&users, &String::from("u3")).unwrap_err(),
        CrawlError::LookupFault
    );
}

#[test]
fn twitter_unresolved_key_fails_whole_page() {
    // The second item's foreign key has no side-table entry: the batch fails
    // with a lookup fault and no partial record list is returned.
    let users = vec![TweetUser {
        id: String::from("u1"),
        name: String::from("Alice A."),
        username: String::from("alice"),
    }];
    let tweets = vec![tweet(1, "u1"), tweet(2, "nobody"), tweet(3, "u1")];
    let r = normalize_twitter_page(&tweets, &users, &String::from("2022-06-01 12:00:00"));
    assert_eq!(r.unwrap_err(), CrawlError::LookupFault);
}

#[test]
fn twitter_page_resolves_authors() {
    let users = vec![TweetUser {
        id: String::from("u1"),
        name: String::from("Alice A."),
        username: String::from("alice"),
    }];
    let tweets = vec![tweet(1, "u1"), tweet(2, "u1")];
    let out = normalize_twitter_page(&tweets, &users, &String::from("2022-06-01 12:00:00"))
        .unwrap();
    assert_eq!(out.len(), 2);
    assert!(out.iter().all(|a| a.author == "alice" && a.media == "twitter"));
}

#[test]
fn twitter_response_absent_data_keeps_token() {
    // A zero-item page arriving as an absent primary array still continues
    // the feed: the token alone controls termination.
    let r = normalize_twitter_response(
        TwitterResponse { data: None, users: None, next_token: Some(String::from("tok")) },
        &String::from("2022-06-01 12:00:00"),
    )
    .unwrap();
    assert!(r.0.is_empty());
    assert_eq!(r.1, Some(String::from("tok")));
}

#[test]
fn twitter_response_absent_data_without_token_ends_feed() {
    let r = normalize_twitter_response(
        TwitterResponse { data: None, users: None, next_token: None },
        &String::from("2022-06-01 12:00:00"),
    )
    .unwrap();
    assert!(r.0.is_empty());
    assert_eq!(r.1, None);
}

#[test]
fn twitter_response_items_without_side_table_is_decode_fault() {
    let r = normalize_twitter_response(
        TwitterResponse { data: Some(vec![tweet(1, "u1")]), users: None, next_token: None },
        &String::from("2022-06-01 12:00:00"),
    );
    assert_eq!(r.unwrap_err(), CrawlError::DecodeFault);
}

#[test]
fn twitter_response_empty_page_keeps_token() {
    let r = normalize_twitter_response(
        TwitterResponse {
            data: Some(vec![]),
            users: None,
            next_token: Some(String::from("tok")),
        },
        &String::from("2022-06-01 12:00:00"),
    )
    .unwrap();
    assert!(r.0.is_empty());
    assert_eq!(r.1, Some(String::from("tok")));
}

#[test]
fn twitter_full_crawl_continues_past_absent_data_page() {
    // The second page carries zero primary items as an absent array but a
    // live token: the crawl requests the next page with it, and the later
    // page's records are still returned. The fourth response sits beyond the
    // first absent token and is never requested.
    let users = vec![TweetUser {
        id: String::from("u1"),
        name: String::from("Alice A."),
        username: String::from("alice"),
    }];
    let responses = vec![
        TwitterResponse {
            data: Some(vec![tweet(1, "u1")]),
            users: Some(users.clone()),
            next_token: Some(String::from("a")),
        },
        TwitterResponse { data: None, users: None, next_token: Some(String::from("b")) },
        TwitterResponse {
            data: Some(vec![tweet(2, "u1")]),
            users: Some(users),
            next_token: None,
        },
        TwitterResponse { data: Some(vec![tweet(9, "u1")]), users: None, next_token: None },
    ];
    let (records, requests) =
        twitter_full_from_responses(responses, &String::from("2022-06-01 12:00:00")).unwrap();
    let ids: Vec<&str> = records.iter().map(|a| a.id.as_str()).collect();
    assert_eq!(ids, vec!["1", "2"]);
    assert_eq!(requests, 3);
}

#[test]
fn twitter_full_crawl_fails_on_lookup_fault_in_any_page() {
    let users = vec![TweetUser {
        id: String::from("u1"),
        name: String::from("Alice A."),
        username: String::from("alice"),
    }];
    let responses = vec![
        TwitterResponse {
            data: Some(vec![tweet(1, "u1")]),
            users: Some(users.clone()),
            next_token: Some(String::from("a")),
        },
        TwitterResponse {
            data: Some(vec![tweet(2, "nobody")]),
            users: Some(users),
            next_token: None,
        },
    ];
    let r = twitter_full_from_responses(responses, &String::from("2022-06-01 12:00:00"));
    assert_eq!(r.unwrap_err(), CrawlError::LookupFault);
}

#[test]
fn youtube_to_article_fields() {
    let a = playlist_item(7)
        .to_article(
            String::from("youtube"),
            String::from("2022-06-01 12:00:00"),
            String::from("My List"),
        )
        .unwrap();
    assert_eq!(a.url, "https://www.youtube.com/watch?v=v7");
    assert_eq!(a.author, "My List");
    assert_eq!(a.summary, "about video 7");
    assert_eq!(a.created_at, "2022-03-04 05:06:07");
}

#[test]
fn youtube_two_level_authors_come_from_outer_entry() {
    // Two outer entries with 3 and 0 inner items: exactly 3 records, all
    // tagged with the first entry's display name as author.
    let playlists = vec![
        PlayList {
            id: String::from("pl1"),
            snippet: PlayListSnippet { title: String::from("First List") },
        },
        PlayList {
            id: String::from("pl2"),
            snippet: PlayListSnippet { title: String::from("Second List") },
        },
    ];
    let responses = vec![
        vec![(vec![playlist_item(1), playlist_item(2), playlist_item(3)], None)],
        vec![(vec![], None)],
    ];
    let out = collect_playlist_items(&playlists, responses, &String::from("2022-06-01 12:00:00"))
        .unwrap();
    assert_eq!(out.len(), 3);
    assert!(out.iter().all(|a| a.author == "First List"));
}

#[test]
fn youtube_inner_pagination_is_independent_per_entry() {
    let playlists = vec![
        PlayList {
            id: String::from("pl1"),
            snippet: PlayListSnippet { title: String::from("A") },
        },
        PlayList {
            id: String::from("pl2"),
            snippet: PlayListSnippet { title: String::from("B") },
        },
    ];
    let responses = vec![
        vec![
            (vec![playlist_item(1)], Some(String::from("inner-tok"))),
            (vec![playlist_item(2)], None),
        ],
        vec![(vec![playlist_item(3)], None)],
    ];
    let out = collect_playlist_items(&playlists, responses, &String::from("2022-06-01 12:00:00"))
        .unwrap();
    let authors: Vec<&str> = out.iter().map(|a| a.author.as_str()).collect();
    assert_eq!(authors, vec!["A", "A", "B"]);
}

#[test]
fn youtube_bad_timestamp_fails_whole_crawl() {
    let playlists = vec![PlayList {
        id: String::from("pl1"),
        snippet: PlayListSnippet { title: String::from("A") },
    }];
    let mut bad = playlist_item(1);
    bad.snippet.published_at = String::from("not a time");
    let responses = vec![vec![(vec![bad], None)]];
    let r = collect_playlist_items(&playlists, responses, &String::from("2022-06-01 12:00:00"));
    assert_eq!(r.unwrap_err(), CrawlError::TimeParseFault);
}

#[test]
fn youtube_normalize_items_empty() {
    let out = normalize_youtube_items(
        &vec![],
        &String::from("A"),
        &String::from("2022-06-01 12:00:00"),
    )
    .unwrap();
    assert!(out.is_empty());
}

#[test]
fn youtube_full_crawl_from_responses() {
    // The outer collection spans two token-paginated responses; the first
    // entry has two child items over two inner pages, the second has one.
    let playlist_responses = vec![
        (
            vec![PlayList {
                id: String::from("pl1"),
                snippet: PlayListSnippet { title: String::from("A") },
            }],
            Some(String::from("outer-tok")),
        ),
        (
            vec![PlayList {
                id: String::from("pl2"),
                snippet: PlayListSnippet { title: String::from("B") },
            }],
            None,
        ),
    ];
    let item_responses = vec![
        vec![
            (vec![playlist_item(1)], Some(String::from("t1"))),
            (vec![playlist_item(2)], None),
        ],
        vec![(vec![playlist_item(3)], None)],
    ];
    let (records, outer_requests) = youtube_full_from_responses(
        playlist_responses,
        item_responses,
        &String::from("2022-06-01 12:00:00"),
    )
    .unwrap();
    let authors: Vec<&str> = records.iter().map(|a| a.author.as_str()).collect();
    assert_eq!(authors, vec!["A", "A", "B"]);
    assert_eq!(outer_requests, 2);
    assert!(records.iter().all(|a| a.media == "youtube"));
}

#[test]
fn diff_watermark_is_first_record() {
    let crawled = vec![article(1), article(2), article(3)];
    let watermark = article(1);
    let out = diff_to_update(&crawled, &watermark);
    assert!(out.is_empty());
}

#[test]
fn diff_five_records_watermark_third() {
    // Five records with the watermark equal to the third: exactly the first
    // two, in original order.
    let crawled = vec![article(1), article(2), article(3), article(4), article(5)];
    let watermark = article(3);
    let out = diff_to_update(&crawled, &watermark);
    assert_eq!(out.len(), 2);
    assert_eq!(out[0], article(1));
    assert_eq!(out[1], article(2));
}

#[test]
fn diff_watermark_absent_returns_everything() {
    let crawled = vec![article(1), article(2)];
    let watermark = article(9);
    let out = diff_to_update(&crawled, &watermark);
    assert_eq!(out.len(), 2);
}

#[test]
fn diff_compares_all_fields() {
    // A record differing from the watermark in one field only is not a match.
    let mut almost = article(1);
    almost.summary = String::from("edited");
    let crawled = vec![almost, article(1)];
    let out = diff_to_update(&crawled, &article(1));
    assert_eq!(out.len(), 1);
    assert_eq!(out[0].summary, "edited");
}

#[test]
fn latest_from_first_page_returns_newest() {
    let page = vec![article(1), article(2)];
    assert_eq!(latest_from_first_page(page).unwrap(), article(1));
}

#[test]
fn latest_from_empty_source_is_a_fault() {
    let r = latest_from_first_page(vec![]);
    assert_eq!(r.unwrap_err(), CrawlError::EmptySourceFault);
}

#[test]
fn source_config_requires_credential_and_identifier() {
    let ok = SourceConfig::new(
        Media::Qiita,
        Some(String::from("token")),
        Some(String::from("user")),
    )
    .unwrap();
    assert_eq!(ok.credential, "token");
    assert_eq!(ok.identifier, "user");
    let r = SourceConfig::new(Media::Qiita, None, Some(String::from("user")));
    assert_eq!(r.unwrap_err(), CrawlError::ConfigFault);
    let r = SourceConfig::new(Media::Twitter, Some(String::from("token")), None);
    assert_eq!(r.unwrap_err(), CrawlError::ConfigFault);
}

#[test]
fn media_tags_round_trip() {
    for media in [Media::Qiita, Media::Youtube, Media::Twitter] {
        assert_eq!(Media::from_str(media.as_str()).unwrap(), media);
    }
    assert_eq!(Media::from_str("myspace").unwrap_err(), CrawlError::ConfigFault);
}

#[test]
fn error_messages_are_stable() {
    assert_eq!(CrawlError::ConfigFault.message(), "config fault");
    assert_eq!(CrawlError::TransportFault.message(), "transport fault");
    assert_eq!(CrawlError::DecodeFault.message(), "decode fault");
    assert_eq!(CrawlError::TimeParseFault.message(), "time parse fault");
    assert_eq!(CrawlError::LookupFault.message(), "lookup fault");
    assert_eq!(CrawlError::EmptySourceFault.message(), "empty source fault");
}

#[test]
fn qiita_full_crawl_from_pages() {
    let pages = vec![
        vec![qiita_item(1), qiita_item(2)],
        vec![qiita_item(3)],
    ];
    let (records, requests) =
        qiita_full_from_pages(pages, 2, &String::from("2022-06-01 12:00:00")).unwrap();
    assert_eq!(records.len(), 3);
    assert_eq!(requests, 3);
    assert!(records.iter().all(|a| a.media == "qiita"));
    assert!(records.iter().all(|a| a.crawled_at == "2022-06-01 12:00:00"));
}

#[test]
fn qiita_incremental_of_full_crawl_is_empty() {
    // The watermark is the first record of a full crawl over the same pages:
    // the incremental crawl yields nothing.
    let crawled_at = String::from("2022-06-01 12:00:00");
    let pages = vec![vec![qiita_item(1), qiita_item(2)], vec![]];
    let (full, _) = qiita_full_from_pages(pages, 2, &crawled_at).unwrap();
    let watermark = full[0].clone();
    let pages = vec![vec![qiita_item(1), qiita_item(2)], vec![]];
    let out = qiita_incremental_from_pages(pages, 2, &crawled_at, &watermark).unwrap();
    assert!(out.is_empty());
}

#[test]
fn qiita_incremental_stops_at_watermark() {
    let crawled_at = String::from("2022-06-01 12:00:00");
    let pages = vec![vec![qiita_item(1), qiita_item(2), qiita_item(3)], vec![]];
    let watermark = qiita_item(2).to_article(String::from("qiita"), crawled_at.clone()).unwrap();
    let out = qiita_incremental_from_pages(pages, 3, &crawled_at, &watermark).unwrap();
    assert_eq!(out.len(), 1);
    assert_eq!(out[0].id, "q1");
}
