use bocchi::urls::{parse_raw_video_id, parse_short_url, parse_track_id, parse_video_id, VideoID};

#[test]
fn bilibili_test_regex() {
    let testcases = [
        (
            "https://www.bilibili.com/video/BV12T2mYiEyy/",
            Some(VideoID::BV("BV12T2mYiEyy".to_owned())),
        ),
        (
            "https://www.bilibili.com/video/av113385693775046?p=1",
            Some(VideoID::AV("113385693775046".to_owned())),
        ),
        (
            "https://www.bilibili.com/video/BV12T2mYiEyya/",
            Some(VideoID::BV("BV12T2mYiEyy".to_owned())),
        ),
        ("https://www.bilibili.com/video/BV12T2mYiEy", None),
        (
            "http://bilibili.com/video/BV12T2mYiEyy/",
            Some(VideoID::BV("BV12T2mYiEyy".to_owned())),
        ),
    ];
    for (text, expected) in testcases.into_iter() {
        assert_eq!(parse_raw_video_id(text), expected)
    }

    let testcases = [
        ("https://b23.tv/8iZPsI3", Some("https://b23.tv/8iZPsI3")),
        ("https://bili2233.cn/EpD7Vwu", Some("https://bili2233.cn/EpD7Vwu")),
        ("https://bili2233.cn/EpD7Vw", None),
    ];
    for (text, expected) in testcases.into_iter() {
        assert_eq!(parse_short_url(text).as_deref(), expected)
    }

    // a bare short link yields no raw video id: resolving it needs the
    // redirect that only the surrounding fetch can follow
    assert_eq!(parse_raw_video_id("https://b23.tv/8iZPsI3"), None);
}

#[test]
fn spotify_test_regex() {
    let testcases = [
        (
            "https://open.spotify.com/track/2kLuVbzpjnRAOwaTnp7C2J?si=51b81a04a41441a8",
            Some("2kLuVbzpjnRAOwaTnp7C2J"),
        ),
        (
            "https://open.spotify.com/artist/1cXxia1Q2VDTjWe8X2Jydm?si=WSbwhAK9TBek6C0AL5GEhg",
            None,
        ),
        (
            "https://open.spotify.com/album/66OrMbPN4equuw2hHbjA1X?si=G2cGb_1BQIGOYr1Y3SodrA",
            None,
        ),
    ];
    for (text, expected) in testcases.iter() {
        assert_eq!(parse_track_id(text).as_deref(), *expected);
    }
}

#[test]
fn youtube_test_regex() {
    let testcases = [
        ("https://www.youtube.com/watch?v=6g4dkBF5anU", Some("6g4dkBF5anU")),
        (
            "https://www.youtube.com/watch?v=6g4dkBF5anUabcdefg",
            Some("6g4dkBF5anU"),
        ),
        ("https://www.youtube.com/watch?v=6g4dkBF5an", None),
        ("https://youtu.be/6g4dkBF5anU", Some("6g4dkBF5anU")),
        ("https://www.youtube.com/embed/6g4dkBF5anU", Some("6g4dkBF5anU")),
        ("https://www.youtube.com/shorts/6g4dkBF5anU", Some("6g4dkBF5anU")),
        ("https://www.youtube.com/shorts/6g4dkBF5anUabcdefg", Some("6g4dkBF5anU")),
        ("https://www.youtube.com/shorts/6g4dkBF5an", None),
    ];
    for (text, expected) in testcases.iter() {
        assert_eq!(parse_video_id(text).as_deref(), *expected);
    }
}
