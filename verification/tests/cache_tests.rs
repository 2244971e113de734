use eve_looter::cache::{DetailCache, NameCache};
use eve_looter::error::PipelineError;
use eve_looter::hydrate::{hydrate, missing_details, DetailReply, DetailRequest, DetailResponse};
use eve_looter::models::{EsiAttacker, EsiKillmail, EsiVictim, RawZKillItem, ZkbStats};

fn detail(time: &str, system: i32) -> EsiKillmail {
    EsiKillmail {
        killmail_time: time.to_string(),
        victim: EsiVictim { character_id: Some(1), corporation_id: Some(2), ship_type_id: 3 },
        attackers: vec![EsiAttacker { character_id: Some(4), corporation_id: None, final_blow: true }],
        solar_system_id: system,
    }
}

fn summary(id: i32, dropped: i64) -> RawZKillItem {
    RawZKillItem {
        killmail_id: id,
        zkb: ZkbStats {
            location_id: 0,
            hash: format!("hash{}", id),
            fitted_value: 0,
            dropped_value: dropped,
            destroyed_value: 0,
            total_value: dropped,
        },
    }
}

fn delivered(id: i32, system: i32) -> DetailResponse {
    DetailResponse {
        killmail_id: id,
        reply: DetailReply::Answered { status: 200, body: Some(detail("2024-01-02T03:04:05Z", system)) },
    }
}

fn refused(id: i32, status: u16) -> DetailResponse {
    DetailResponse { killmail_id: id, reply: DetailReply::Answered { status, body: None } }
}

#[test]
fn a_new_cache_is_empty() {
    let details = DetailCache::new();
    assert!(!details.contains(1));
    assert_eq!(details.get(1), None);
    let names = NameCache::new();
    assert!(!names.contains(1));
    assert_eq!(names.get(1), None);
}

#[test]
fn put_stores_and_get_finds() {
    let mut details = DetailCache::new();
    assert!(details.put(7, detail("a", 1)));
    assert!(details.contains(7));
    assert_eq!(details.get(7), Some(&detail("a", 1)));
    assert!(!details.contains(8));
}

#[test]
fn a_detail_is_written_once() {
    let mut details = DetailCache::new();
    assert!(details.put(7, detail("a", 1)));
    assert!(!details.put(7, detail("b", 2)));
    assert_eq!(details.get(7), Some(&detail("a", 1)));
}

#[test]
fn a_name_is_written_once() {
    let mut names = NameCache::new();
    assert!(names.put(5, "Alpha".to_string()));
    assert!(!names.put(5, "Beta".to_string()));
    assert_eq!(names.get(5), Some(&"Alpha".to_string()));
    assert!(names.put(6, "Gamma".to_string()));
    assert_eq!(names.get(5), Some(&"Alpha".to_string()));
}

#[test]
fn requests_only_what_the_cache_lacks() {
    let mut details = DetailCache::new();
    details.put(2, detail("a", 1));
    let items = vec![summary(1, 100), summary(2, 100), summary(3, 0)];
    assert_eq!(
        missing_details(&details, &items),
        vec![
            DetailRequest { killmail_id: 1, hash: "hash1".to_string() },
            DetailRequest { killmail_id: 3, hash: "hash3".to_string() },
        ]
    );
}

#[test]
fn requests_nothing_for_an_empty_page() {
    assert_eq!(missing_details(&DetailCache::new(), &vec![]), vec![]);
}

#[test]
fn hydrating_twice_asks_for_nothing_the_second_time() {
    let mut details = DetailCache::new();
    let items = vec![summary(1, 100), summary(2, 100)];
    assert_eq!(missing_details(&details, &items).len(), 2);
    assert_eq!(hydrate(&mut details, vec![delivered(1, 11), delivered(2, 22)]), Ok(()));
    assert_eq!(missing_details(&details, &items), vec![]);
    assert_eq!(hydrate(&mut details, vec![delivered(1, 99), delivered(2, 99)]), Ok(()));
    assert_eq!(details.get(1), Some(&detail("2024-01-02T03:04:05Z", 11)));
    assert_eq!(details.get(2), Some(&detail("2024-01-02T03:04:05Z", 22)));
}

#[test]
fn silent_misses_store_nothing() {
    let mut details = DetailCache::new();
    let batch = vec![
        DetailResponse { killmail_id: 1, reply: DetailReply::Unreachable },
        DetailResponse { killmail_id: 2, reply: DetailReply::Answered { status: 200, body: None } },
        refused(3, 404),
        refused(4, 500),
        DetailResponse { killmail_id: 5, reply: DetailReply::Answered { status: 503, body: Some(detail("a", 1)) } },
    ];
    assert_eq!(hydrate(&mut details, batch), Ok(()));
    for id in 1..6 {
        assert!(!details.contains(id));
    }
}

#[test]
fn every_success_status_delivers() {
    let mut details = DetailCache::new();
    let batch = vec![
        DetailResponse { killmail_id: 1, reply: DetailReply::Answered { status: 200, body: Some(detail("a", 1)) } },
        DetailResponse { killmail_id: 2, reply: DetailReply::Answered { status: 299, body: Some(detail("b", 2)) } },
        DetailResponse { killmail_id: 3, reply: DetailReply::Answered { status: 199, body: Some(detail("c", 3)) } },
        DetailResponse { killmail_id: 4, reply: DetailReply::Answered { status: 300, body: Some(detail("d", 4)) } },
    ];
    assert_eq!(hydrate(&mut details, batch), Ok(()));
    assert!(details.contains(1));
    assert!(details.contains(2));
    assert!(!details.contains(3));
    assert!(!details.contains(4));
}

#[test]
fn status_429_aborts_and_keeps_the_successes() {
    let mut details = DetailCache::new();
    let batch = vec![delivered(1, 11), refused(2, 429), delivered(3, 33)];
    assert_eq!(hydrate(&mut details, batch), Err(PipelineError::RateLimited { status: 429 }));
    assert!(details.contains(1));
    assert!(!details.contains(2));
    assert!(details.contains(3));
}

#[test]
fn status_420_aborts_too() {
    let mut details = DetailCache::new();
    let batch = vec![refused(1, 500), refused(2, 420), refused(3, 429), delivered(4, 44)];
    assert_eq!(hydrate(&mut details, batch), Err(PipelineError::RateLimited { status: 420 }));
    assert!(details.contains(4));
}

#[test]
fn the_first_delivery_for_a_kill_wins() {
    let mut details = DetailCache::new();
    assert_eq!(hydrate(&mut details, vec![delivered(1, 11), delivered(1, 12)]), Ok(()));
    assert_eq!(details.get(1), Some(&detail("2024-01-02T03:04:05Z", 11)));
}

#[test]
fn an_empty_batch_changes_nothing() {
    let mut details = DetailCache::new();
    details.put(1, detail("a", 1));
    assert_eq!(hydrate(&mut details, vec![]), Ok(()));
    assert_eq!(details.get(1), Some(&detail("a", 1)));
}
