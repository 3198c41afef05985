use crawler_core::error::CrawlError;
use crawler_core::timestamp::{
    format_canonical, format_qiita, format_twitter, format_youtube, DatetimeFormatter, Timestamp,
};

fn sample() -> Timestamp {
    Timestamp { year: 2022, month: 3, day: 4, hour: 5, minute: 6, second: 7 }
}

#[test]
fn qiita_to_normalizes_offset_encoding() {
    let s = String::from("2022-03-04T05:06:07+09:00");
    assert_eq!(DatetimeFormatter::qiita_to(&s).unwrap(), "2022-03-04 05:06:07");
}

#[test]
fn qiita_to_accepts_negative_offset() {
    let s = String::from("2021-12-31T23:59:59-08:00");
    assert_eq!(DatetimeFormatter::qiita_to(&s).unwrap(), "2021-12-31 23:59:59");
}

#[test]
fn qiita_to_rejects_missing_offset() {
    let s = String::from("2022-03-04T05:06:07");
    assert_eq!(DatetimeFormatter::qiita_to(&s), Err(CrawlError::TimeParseFault));
}

#[test]
fn qiita_to_rejects_month_out_of_range() {
    let s = String::from("2022-13-04T05:06:07+09:00");
    assert_eq!(DatetimeFormatter::qiita_to(&s), Err(CrawlError::TimeParseFault));
}

#[test]
fn qiita_to_rejects_offset_hour_out_of_range() {
    let s = String::from("2022-03-04T05:06:07+24:00");
    assert_eq!(DatetimeFormatter::qiita_to(&s), Err(CrawlError::TimeParseFault));
}

#[test]
fn qiita_to_rejects_space_separator() {
    let s = String::from("2022-03-04 05:06:07+09:00");
    assert_eq!(DatetimeFormatter::qiita_to(&s), Err(CrawlError::TimeParseFault));
}

#[test]
fn youtube_to_normalizes_zone_encoding() {
    let s = String::from("2022-03-04T05:06:07Z");
    assert_eq!(DatetimeFormatter::youtube_to(&s).unwrap(), "2022-03-04 05:06:07");
}

#[test]
fn youtube_to_accepts_longer_zone_name() {
    let s = String::from("2022-03-04T05:06:07UTC");
    assert_eq!(DatetimeFormatter::youtube_to(&s).unwrap(), "2022-03-04 05:06:07");
}

#[test]
fn youtube_to_rejects_missing_zone() {
    let s = String::from("2022-03-04T05:06:07");
    assert_eq!(DatetimeFormatter::youtube_to(&s), Err(CrawlError::TimeParseFault));
}

#[test]
fn youtube_to_rejects_lowercase_zone() {
    let s = String::from("2022-03-04T05:06:07z");
    assert_eq!(DatetimeFormatter::youtube_to(&s), Err(CrawlError::TimeParseFault));
}

#[test]
fn twitter_to_drops_fraction() {
    let s = String::from("2022-03-04T05:06:07.123Z");
    assert_eq!(DatetimeFormatter::twitter_to(&s).unwrap(), "2022-03-04 05:06:07");
}

#[test]
fn twitter_to_rejects_empty_fraction() {
    let s = String::from("2022-03-04T05:06:07.Z");
    assert_eq!(DatetimeFormatter::twitter_to(&s), Err(CrawlError::TimeParseFault));
}

#[test]
fn twitter_to_rejects_missing_zone() {
    let s = String::from("2022-03-04T05:06:07.123");
    assert_eq!(DatetimeFormatter::twitter_to(&s), Err(CrawlError::TimeParseFault));
}

#[test]
fn twitter_to_rejects_day_out_of_range() {
    let s = String::from("2022-03-32T05:06:07.123Z");
    assert_eq!(DatetimeFormatter::twitter_to(&s), Err(CrawlError::TimeParseFault));
}

#[test]
fn format_canonical_exact() {
    assert_eq!(format_canonical(&sample()), "2022-03-04 05:06:07");
}

#[test]
fn qiita_round_trip() {
    let t = sample();
    let encoded = format_qiita(&t);
    assert_eq!(encoded, "2022-03-04T05:06:07+00:00");
    assert_eq!(DatetimeFormatter::qiita_to(&encoded).unwrap(), format_canonical(&t));
}

#[test]
fn youtube_round_trip() {
    let t = sample();
    let encoded = format_youtube(&t);
    assert_eq!(encoded, "2022-03-04T05:06:07Z");
    assert_eq!(DatetimeFormatter::youtube_to(&encoded).unwrap(), format_canonical(&t));
}

#[test]
fn twitter_round_trip() {
    let t = sample();
    let encoded = format_twitter(&t);
    assert_eq!(encoded, "2022-03-04T05:06:07.000Z");
    assert_eq!(DatetimeFormatter::twitter_to(&encoded).unwrap(), format_canonical(&t));
}

#[test]
fn round_trip_edge_values() {
    let t = Timestamp { year: 0, month: 1, day: 1, hour: 0, minute: 0, second: 0 };
    assert_eq!(
        DatetimeFormatter::qiita_to(&format_qiita(&t)).unwrap(),
        "0000-01-01 00:00:00"
    );
    let t = Timestamp { year: 9999, month: 12, day: 31, hour: 23, minute: 59, second: 59 };
    assert_eq!(
        DatetimeFormatter::twitter_to(&format_twitter(&t)).unwrap(),
        "9999-12-31 23:59:59"
    );
}

#[test]
fn calendar_rejects_day_off_the_month() {
    let s = String::from("2022-02-30T05:06:07+09:00");
    assert_eq!(DatetimeFormatter::qiita_to(&s), Err(CrawlError::TimeParseFault));
    let s = String::from("2022-04-31T05:06:07Z");
    assert_eq!(DatetimeFormatter::youtube_to(&s), Err(CrawlError::TimeParseFault));
}

#[test]
fn calendar_accepts_leap_day_in_leap_years_only() {
    let s = String::from("2020-02-29T05:06:07Z");
    assert_eq!(DatetimeFormatter::youtube_to(&s).unwrap(), "2020-02-29 05:06:07");
    let s = String::from("2021-02-29T05:06:07Z");
    assert_eq!(DatetimeFormatter::youtube_to(&s), Err(CrawlError::TimeParseFault));
    let s = String::from("2000-02-29T05:06:07.000Z");
    assert_eq!(DatetimeFormatter::twitter_to(&s).unwrap(), "2000-02-29 05:06:07");
    let s = String::from("1900-02-29T05:06:07+00:00");
    assert_eq!(DatetimeFormatter::qiita_to(&s), Err(CrawlError::TimeParseFault));
}
