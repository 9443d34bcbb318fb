use weibo_archive::datetime::DateTime;
use weibo_archive::fetch::Pagination;
use weibo_archive::naming::{content_filename, image_filename, image_url, post_url, video_filename};
use weibo_archive::orchestrator::Orchestrator;
use weibo_archive::plan::ArchiveStep;
use weibo_archive::post::{WeiboPost, WeiboUrl, WeiboUser};
use weibo_archive::text::{four_digit, str_starts_with, two_digit, u64_to_dec};
use weibo_archive::video::resolve_video;

fn sample_datetime() -> DateTime {
    DateTime::parse_created_at("Tue Oct 11 10:30:00 +0800 2022").unwrap()
}

fn sample_post(
    id: u64,
    name: &str,
    text: &str,
    pictures: Vec<&str>,
    urls: Option<Vec<(&str, &str)>>,
) -> WeiboPost {
    WeiboPost {
        created_at: sample_datetime(),
        id,
        user: WeiboUser {
            id: 77,
            screen_name: name.to_string(),
            avatar: "https://example.com/avatar.jpg".to_string(),
        },
        text: text.to_string(),
        pictures: pictures.into_iter().map(|p| p.to_string()).collect(),
        urls: urls.map(|us| {
            us.into_iter()
                .map(|(t, u)| WeiboUrl { title: t.to_string(), url: u.to_string() })
                .collect()
        }),
    }
}

#[test]
fn decimal_rendering() {
    assert_eq!(u64_to_dec(0), "0");
    assert_eq!(u64_to_dec(7), "7");
    assert_eq!(u64_to_dec(105), "105");
    assert_eq!(u64_to_dec(u64::MAX), "18446744073709551615");
    assert_eq!(two_digit(0), "00");
    assert_eq!(two_digit(7), "07");
    assert_eq!(two_digit(42), "42");
    assert_eq!(two_digit(123), "123");
    assert_eq!(four_digit(33), "0033");
    assert_eq!(four_digit(2022), "2022");
}

#[test]
fn starts_with_by_characters() {
    assert!(str_starts_with("https://video.weibo.com/show", "https://video.weibo.com"));
    assert!(!str_starts_with("https://example.com", "https://video.weibo.com"));
    assert!(str_starts_with("abc", ""));
    assert!(!str_starts_with("ab", "abc"));
}

#[test]
fn parse_created_at_valid() {
    let dt = DateTime::parse_created_at("Tue Oct 11 10:30:00 +0800 2022").unwrap();
    assert_eq!(dt.year, 2022);
    assert_eq!(dt.month, 10);
    assert_eq!(dt.day, 11);
    assert_eq!(dt.hour, 10);
    assert_eq!(dt.minute, 30);
    assert_eq!(dt.second, 0);
    assert!(!dt.offset_negative);
    assert_eq!(dt.offset_hour, 8);
    assert_eq!(dt.offset_minute, 0);
}

#[test]
fn parse_created_at_negative_offset() {
    let dt = DateTime::parse_created_at("Fri Jan 06 23:59:59 -0430 1995").unwrap();
    assert_eq!(dt.year, 1995);
    assert_eq!(dt.month, 1);
    assert_eq!(dt.day, 6);
    assert!(dt.offset_negative);
    assert_eq!(dt.offset_hour, 4);
    assert_eq!(dt.offset_minute, 30);
}

#[test]
fn parse_created_at_rejects_malformed() {
    assert!(DateTime::parse_created_at("").is_err());
    assert!(DateTime::parse_created_at("Tue Oct 11 10:30:00 +0800 22").is_err());
    assert!(DateTime::parse_created_at("Xxx Oct 11 10:30:00 +0800 2022").is_err());
    assert!(DateTime::parse_created_at("Tue Xxx 11 10:30:00 +0800 2022").is_err());
    assert!(DateTime::parse_created_at("Tue Oct 00 10:30:00 +0800 2022").is_err());
    assert!(DateTime::parse_created_at("Tue Oct 32 10:30:00 +0800 2022").is_err());
    assert!(DateTime::parse_created_at("Tue Oct 11 24:30:00 +0800 2022").is_err());
    assert!(DateTime::parse_created_at("Tue Oct 11 10:60:00 +0800 2022").is_err());
    assert!(DateTime::parse_created_at("Tue Oct 11 10:30:60 +0800 2022").is_err());
    assert!(DateTime::parse_created_at("Tue Oct 11 10:30:00 *0800 2022").is_err());
    assert!(DateTime::parse_created_at("Tue Oct 11 10:30:00 +2500 2022").is_err());
    assert!(DateTime::parse_created_at("Tue Oct 11 10-30-00 +0800 2022").is_err());
}

#[test]
fn parse_created_at_leap_years() {
    assert!(DateTime::parse_created_at("Thu Feb 29 08:00:00 +0000 2024").is_ok());
    assert!(DateTime::parse_created_at("Wed Feb 29 08:00:00 +0000 2023").is_err());
    assert!(DateTime::parse_created_at("Tue Feb 29 08:00:00 +0000 2000").is_ok());
    assert!(DateTime::parse_created_at("Fri Feb 29 08:00:00 +0000 1900").is_err());
    assert!(DateTime::parse_created_at("Fri Apr 31 08:00:00 +0000 2021").is_err());
}

#[test]
fn format_rfc3339_exact() {
    let dt = sample_datetime();
    assert_eq!(dt.format_rfc3339(), "2022-10-11T10:30:00+08:00");
    let dt2 = DateTime::parse_created_at("Fri Jan 06 23:59:59 -0430 1995").unwrap();
    assert_eq!(dt2.format_rfc3339(), "1995-01-06T23:59:59-04:30");
}

#[test]
fn format_compact_date_exact() {
    assert_eq!(sample_datetime().format_compact_date(), "20221011");
}

#[test]
fn gen_prefix_exact() {
    let post = sample_post(12345, "alice", "hi", vec![], None);
    assert_eq!(post.gen_prefix(), "20221011-12345-alice");
}

#[test]
fn naming_exact() {
    assert_eq!(image_url("abc"), "https://wx2.sinaimg.cn/large/abc.jpg");
    assert_eq!(image_filename("p", 3), "p-img03.jpg");
    assert_eq!(video_filename("p", 2), "p-vid02");
    assert_eq!(content_filename("p"), "p-content.txt");
    assert_eq!(post_url(9), "https://m.weibo.cn/status/9");
}

#[test]
fn video_resolution_legacy_link() {
    let r = resolve_video("https://video.weibo.com/show?fid=1034:abcd123").unwrap();
    assert_eq!(r.unwrap(), "https://weibo.com/tv/show/1034:abcd123?from=old_pc_videoshow");
}

#[test]
fn video_resolution_canonical_link_unchanged() {
    let r = resolve_video("https://weibo.com/tv/show/1034:abcd123").unwrap();
    assert_eq!(r.unwrap(), "https://weibo.com/tv/show/1034:abcd123");
}

#[test]
fn video_resolution_not_a_video() {
    let r = resolve_video("https://example.com/article").unwrap();
    assert!(r.is_none());
}

#[test]
fn video_resolution_missing_fid_is_error() {
    assert!(resolve_video("https://video.weibo.com/show?x=1").is_err());
}

#[test]
fn manifest_ordering() {
    let post = sample_post(
        42,
        "alice",
        "hello",
        vec![],
        Some(vec![("a", "https://a"), ("empty", "")]),
    );
    let body = post.render_manifest();
    let lines: Vec<&str> = body.split('\n').collect();
    assert_eq!(lines[0], "url: https://m.weibo.cn/status/42");
    assert_eq!(lines[1], "user: alice");
    assert_eq!(lines[2], "created_at: 2022-10-11T10:30:00+08:00");
    assert_eq!(lines[3], "link: https://a");
    assert_eq!(lines[4], "");
    assert_eq!(lines[5], "hello");
    assert_eq!(lines.len(), 6);
}

#[test]
fn manifest_without_links() {
    let post = sample_post(42, "alice", "hello", vec![], None);
    let body = post.render_manifest();
    assert_eq!(
        body,
        "url: https://m.weibo.cn/status/42\nuser: alice\ncreated_at: 2022-10-11T10:30:00+08:00\n\nhello"
    );
}

#[test]
fn filename_numbering_three_pictures() {
    let post = sample_post(1, "bob", "t", vec!["pa", "pb", "pc"], None);
    let steps = post.download_steps(false).unwrap();
    let images: Vec<(&str, &str)> = steps
        .iter()
        .filter_map(|s| match s {
            ArchiveStep::FetchImage { url, filename } => Some((url.as_str(), filename.as_str())),
            _ => None,
        })
        .collect();
    assert_eq!(
        images,
        vec![
            ("https://wx2.sinaimg.cn/large/pa.jpg", "20221011-1-bob-img01.jpg"),
            ("https://wx2.sinaimg.cn/large/pb.jpg", "20221011-1-bob-img02.jpg"),
            ("https://wx2.sinaimg.cn/large/pc.jpg", "20221011-1-bob-img03.jpg"),
        ]
    );
}

#[test]
fn download_steps_full_order() {
    let post = sample_post(
        7,
        "carol",
        "body",
        vec!["x"],
        Some(vec![("ref", "https://example.com/a"), ("vid", "https://weibo.com/tv/show/99")]),
    );
    let steps = post.download_steps(false).unwrap();
    assert_eq!(steps.len(), 4);
    match &steps[0] {
        ArchiveStep::CreateDir { name } => assert_eq!(name.as_str(), "20221011-7-carol"),
        _ => panic!("first step must create the directory"),
    }
    match &steps[1] {
        ArchiveStep::FetchImage { filename, .. } => {
            assert_eq!(filename.as_str(), "20221011-7-carol-img01.jpg")
        },
        _ => panic!("second step must fetch the image"),
    }
    match &steps[2] {
        ArchiveStep::FetchVideo { url, filename } => {
            assert_eq!(url.as_str(), "https://weibo.com/tv/show/99");
            // numbered by link position (2), not per matched video
            assert_eq!(filename.as_str(), "20221011-7-carol-vid02");
        },
        _ => panic!("third step must fetch the video"),
    }
    match &steps[3] {
        ArchiveStep::WriteManifest { filename, body } => {
            assert_eq!(filename.as_str(), "20221011-7-carol-content.txt");
            assert_eq!(*body, post.render_manifest());
        },
        _ => panic!("last step must write the manifest"),
    }
}

#[test]
fn idempotent_skip_when_directory_exists() {
    let post = sample_post(
        7,
        "carol",
        "body",
        vec!["x", "y"],
        Some(vec![("vid", "https://weibo.com/tv/show/99")]),
    );
    let steps = post.download_steps(true).unwrap();
    assert!(steps.is_empty());
}

#[test]
fn malformed_video_link_fails_the_post() {
    let post = sample_post(
        8,
        "dave",
        "t",
        vec![],
        Some(vec![("bad", "https://video.weibo.com/show?nofid=1")]),
    );
    assert!(post.download_steps(false).is_err());
    // but an already-archived post is skipped before its links are looked at
    assert!(post.download_steps(true).unwrap().is_empty());
}

#[test]
fn pagination_consumes_pages_in_order() {
    let pages = vec![
        vec![sample_post(1, "a", "", vec![], None), sample_post(2, "a", "", vec![], None)],
        vec![sample_post(3, "a", "", vec![], None)],
        vec![],
        vec![sample_post(99, "never", "", vec![], None)],
    ];
    let mut pagination = Pagination::new();
    let mut requested = Vec::new();
    while let Some(page_no) = pagination.next_request() {
        requested.push(page_no);
        let page = clone_posts(&pages[(page_no - 1) as usize]);
        pagination.accept_page(page);
    }
    assert_eq!(requested, vec![1, 2, 3]);
    let ids: Vec<u64> = pagination.posts.iter().map(|p| p.id).collect();
    assert_eq!(ids, vec![1, 2, 3]);
    assert!(pagination.next_request().is_none());
}

fn clone_posts(posts: &[WeiboPost]) -> Vec<WeiboPost> {
    posts
        .iter()
        .map(|p| WeiboPost {
            created_at: p.created_at,
            id: p.id,
            user: WeiboUser {
                id: p.user.id,
                screen_name: p.user.screen_name.clone(),
                avatar: p.user.avatar.clone(),
            },
            text: p.text.clone(),
            pictures: p.pictures.clone(),
            urls: p.urls.as_ref().map(|us| {
                us.iter()
                    .map(|u| WeiboUrl { title: u.title.clone(), url: u.url.clone() })
                    .collect()
            }),
        })
        .collect()
}

#[test]
fn bounded_concurrency_never_exceeds_twenty() {
    let mut orch = Orchestrator::new(100);
    let mut running: Vec<usize> = Vec::new();
    let mut done = 0usize;
    let mut max_in_flight = 0usize;
    loop {
        while let Some(i) = orch.try_admit() {
            running.push(i);
            if running.len() > max_in_flight {
                max_in_flight = running.len();
            }
        }
        assert!(running.len() <= 20);
        if running.is_empty() {
            break;
        }
        // finish one; alternate success and failure
        let i = running.remove(0);
        let failure = if i % 2 == 0 { None } else { Some(format!("failed {}", i)) };
        orch.record_completion(i as u64, failure);
        done += 1;
    }
    assert_eq!(done, 100);
    assert_eq!(max_in_flight, 20);
    assert_eq!(orch.failures().len(), 50);
}

#[test]
fn admission_stops_at_the_bound() {
    let mut orch = Orchestrator::new(100);
    for expected in 0..20usize {
        assert_eq!(orch.try_admit(), Some(expected));
    }
    assert_eq!(orch.try_admit(), None);
    orch.record_completion(0, None);
    assert_eq!(orch.try_admit(), Some(20));
    assert_eq!(orch.try_admit(), None);
}

#[test]
fn partial_failure_is_isolated() {
    let mut orch = Orchestrator::new(2);
    let a = orch.try_admit().unwrap();
    let b = orch.try_admit().unwrap();
    orch.record_completion(a as u64, Some("image download failed".to_string()));
    orch.record_completion(b as u64, None);
    // the batch ran to completion and only A's failure was collected
    let failures = orch.failures();
    assert_eq!(failures.len(), 1);
    assert_eq!(failures[0].post_id, a as u64);
    assert_eq!(failures[0].cause, "image download failed");
}
