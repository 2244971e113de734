use eve_looter::cache::{DetailCache, NameCache};
use eve_looter::error::PipelineError;
use eve_looter::hydrate::{DetailReply, DetailRequest, DetailResponse};
use eve_looter::instant::Instant;
use eve_looter::link::{EntityKind, EntityReference};
use eve_looter::models::{EsiAttacker, EsiKillmail, EsiNameEntry, EsiVictim, Killmail, RawZKillItem, ZkbStats};
use eve_looter::names::NameReply;
use eve_looter::paging::ListReply;
use eve_looter::pipeline::{prefilter, start, Fetch, Next};

const LINK: &str = "https://zkillboard.com/corporation/98000001/";
const BASE: &str = "https://zkillboard.com/api/corporationID/98000001/";

fn cutoff() -> Instant {
    // 2024-01-10T00:00:00Z
    Instant::new(1704844800, 0)
}

fn summary(id: i32, dropped: i64) -> RawZKillItem {
    RawZKillItem {
        killmail_id: id,
        zkb: ZkbStats {
            location_id: 0,
            hash: format!("hash{}", id),
            fitted_value: 0,
            dropped_value: dropped,
            destroyed_value: 0,
            total_value: dropped,
        },
    }
}

fn detail(time: &str, attacker: i32) -> EsiKillmail {
    EsiKillmail {
        killmail_time: time.to_string(),
        victim: EsiVictim { character_id: None, corporation_id: None, ship_type_id: 30 },
        attackers: vec![EsiAttacker { character_id: Some(attacker), corporation_id: None, final_blow: true }],
        solar_system_id: 40,
    }
}

fn page_of(url: &str) -> u32 {
    if url == BASE {
        return 1;
    }
    let tail = url.strip_prefix(BASE).unwrap().strip_prefix("page/").unwrap();
    tail.strip_suffix("/").unwrap().parse().unwrap()
}

struct Run {
    log: Vec<String>,
    result: Result<Vec<Killmail>, PipelineError>,
}

fn drive(
    first: Next,
    details: &mut DetailCache,
    names: &mut NameCache,
    list: &dyn Fn(u32) -> ListReply,
    fetch_detail: &dyn Fn(&DetailRequest) -> DetailReply,
    resolve: &dyn Fn(&Vec<i32>) -> NameReply,
) -> Run {
    let mut log = Vec::new();
    let mut next = first;
    loop {
        next = match next {
            Next::FetchList { fetch, url } => {
                log.push(format!("list {}", page_of(&url)));
                fetch.on_list(details, names, list(page_of(&url)))
            }
            Next::FetchDetails { fetch, requests } => {
                let ids: Vec<String> = requests.iter().map(|r| r.killmail_id.to_string()).collect();
                log.push(format!("details {}", ids.join(",")));
                let responses = requests
                    .iter()
                    .map(|r| DetailResponse { killmail_id: r.killmail_id, reply: fetch_detail(r) })
                    .collect();
                fetch.on_details(details, names, responses)
            }
            Next::Pause { fetch, millis } => {
                log.push(format!("pause {}", millis));
                fetch.resume()
            }
            Next::ResolveNames { fetch, ids } => {
                log.push(format!("names {}", ids.len()));
                fetch.on_names(details, names, resolve(&ids))
            }
            Next::Done { kills } => return Run { log, result: Ok(kills) },
            Next::Failed { error } => return Run { log, result: Err(error) },
        };
    }
}

fn ok_detail(time: &'static str) -> impl Fn(&DetailRequest) -> DetailReply {
    move |r| DetailReply::Answered { status: 200, body: Some(detail(time, 1000 + r.killmail_id)) }
}

fn name_all(ids: &Vec<i32>) -> NameReply {
    NameReply::Answered {
        status: 200,
        body: Some(
            ids.iter()
                .map(|id| EsiNameEntry { id: *id, name: format!("name{}", id), category: "x".to_string() })
                .collect(),
        ),
    }
}

fn ids_of(kills: &Vec<Killmail>) -> Vec<i32> {
    kills.iter().map(|k| k.killmail_id).collect()
}

#[test]
fn a_bad_link_fails_before_any_request() {
    assert_eq!(start("nothing here", cutoff()), Next::Failed { error: PipelineError::InvalidLinkFormat });
    assert_eq!(
        start("https://zkillboard.com/kill/1/", cutoff()),
        Next::Failed { error: PipelineError::UnsupportedEntityKind }
    );
}

#[test]
fn a_fetch_begins_with_the_first_list_page() {
    let expected = Fetch {
        entity: EntityReference { kind: EntityKind::Corporation, id: "98000001".to_string() },
        cutoff: cutoff(),
        page: 1,
        collected: vec![],
        current: vec![],
        ids: vec![],
        sent: 0,
    };
    assert_eq!(start(LINK, cutoff()), Next::FetchList { fetch: expected, url: BASE.to_string() });
}

#[test]
fn paging_stops_after_the_page_that_is_older_than_the_cutoff() {
    let mut details = DetailCache::new();
    let mut names = NameCache::new();
    let list = |page: u32| ListReply::Answered {
        status: 200,
        body: Some(vec![summary(page as i32 * 10, 100), summary(page as i32 * 10 + 1, 100)]),
    };
    let fetch_detail = |r: &DetailRequest| {
        let time = if r.killmail_id < 20 { "2024-01-12T00:00:00Z" } else { "2024-01-08T00:00:00Z" };
        DetailReply::Answered { status: 200, body: Some(detail(time, 7)) }
    };
    let run = drive(start(LINK, cutoff()), &mut details, &mut names, &list, &fetch_detail, &name_all);
    assert_eq!(
        run.log,
        vec!["list 1", "details 10,11", "pause 200", "list 2", "details 20,21", "names 3"]
    );
    assert_eq!(ids_of(&run.result.unwrap()), vec![10, 11, 20, 21]);
}

#[test]
fn an_empty_page_ends_paging() {
    let mut details = DetailCache::new();
    let mut names = NameCache::new();
    let list = |page: u32| ListReply::Answered {
        status: 200,
        body: Some(if page < 3 { vec![summary(page as i32, 100)] } else { vec![] }),
    };
    let run = drive(start(LINK, cutoff()), &mut details, &mut names, &list, &ok_detail("2024-01-12T00:00:00Z"), &name_all);
    assert_eq!(
        run.log,
        vec!["list 1", "details 1", "pause 200", "list 2", "details 2", "pause 200", "list 3", "names 4"]
    );
    assert_eq!(ids_of(&run.result.unwrap()), vec![1, 2]);
}

#[test]
fn an_empty_first_page_gives_an_empty_output() {
    let mut details = DetailCache::new();
    let mut names = NameCache::new();
    let list = |_page: u32| ListReply::Answered { status: 200, body: Some(vec![]) };
    let run = drive(start(LINK, cutoff()), &mut details, &mut names, &list, &ok_detail("x"), &name_all);
    assert_eq!(run.log, vec!["list 1"]);
    assert_eq!(run.result, Ok(vec![]));
}

#[test]
fn no_more_than_ten_pages_are_asked_for() {
    let mut details = DetailCache::new();
    let mut names = NameCache::new();
    let list = |page: u32| ListReply::Answered { status: 200, body: Some(vec![summary(page as i32, 100)]) };
    let run = drive(start(LINK, cutoff()), &mut details, &mut names, &list, &ok_detail("2024-01-12T00:00:00Z"), &name_all);
    let lists: Vec<&String> = run.log.iter().filter(|l| l.starts_with("list")).collect();
    assert_eq!(lists.len(), 10);
    assert_eq!(lists[9], "list 10");
    assert_eq!(run.log.iter().filter(|l| l.starts_with("pause")).count(), 9);
    assert_eq!(ids_of(&run.result.unwrap()), vec![1, 2, 3, 4, 5, 6, 7, 8, 9, 10]);
}

#[test]
fn a_list_failure_aborts_the_fetch() {
    let mut details = DetailCache::new();
    let mut names = NameCache::new();
    let list = |page: u32| {
        if page == 1 {
            ListReply::Answered { status: 200, body: Some(vec![summary(1, 100)]) }
        } else {
            ListReply::Answered { status: 503, body: None }
        }
    };
    let run = drive(start(LINK, cutoff()), &mut details, &mut names, &list, &ok_detail("2024-01-12T00:00:00Z"), &name_all);
    assert_eq!(run.result, Err(PipelineError::UpstreamListError { page: 2, status: 503 }));
    assert_eq!(run.log, vec!["list 1", "details 1", "pause 200", "list 2"]);
}

#[test]
fn a_rate_limited_detail_aborts_and_keeps_the_batch() {
    let mut details = DetailCache::new();
    let mut names = NameCache::new();
    let list = |_page: u32| ListReply::Answered {
        status: 200,
        body: Some(vec![summary(1, 100), summary(2, 100), summary(3, 100)]),
    };
    let fetch_detail = |r: &DetailRequest| {
        if r.killmail_id == 2 {
            DetailReply::Answered { status: 429, body: None }
        } else {
            DetailReply::Answered { status: 200, body: Some(detail("2024-01-12T00:00:00Z", 7)) }
        }
    };
    let run = drive(start(LINK, cutoff()), &mut details, &mut names, &list, &fetch_detail, &name_all);
    assert_eq!(run.result, Err(PipelineError::RateLimited { status: 429 }));
    assert_eq!(run.log, vec!["list 1", "details 1,2,3"]);
    assert!(details.contains(1));
    assert!(!details.contains(2));
    assert!(details.contains(3));
}

#[test]
fn a_second_fetch_asks_for_no_detail_it_has() {
    let mut details = DetailCache::new();
    let mut names = NameCache::new();
    let list = |page: u32| ListReply::Answered {
        status: 200,
        body: Some(if page == 1 { vec![summary(1, 100), summary(2, 100)] } else { vec![] }),
    };
    let first = drive(start(LINK, cutoff()), &mut details, &mut names, &list, &ok_detail("2024-01-12T00:00:00Z"), &name_all);
    assert_eq!(first.log, vec!["list 1", "details 1,2", "pause 200", "list 2", "names 4"]);
    let second = drive(start(LINK, cutoff()), &mut details, &mut names, &list, &ok_detail("1999-01-01T00:00:00Z"), &name_all);
    assert_eq!(second.log, vec!["list 1", "pause 200", "list 2"]);
    assert_eq!(first.result, second.result);
}

#[test]
fn worthless_and_unhydrated_summaries_are_left_out() {
    let mut details = DetailCache::new();
    let mut names = NameCache::new();
    let list = |page: u32| ListReply::Answered {
        status: 200,
        body: Some(if page == 1 { vec![summary(1, 100), summary(2, 0), summary(3, 50)] } else { vec![] }),
    };
    let fetch_detail = |r: &DetailRequest| {
        if r.killmail_id == 3 {
            DetailReply::Unreachable
        } else {
            DetailReply::Answered { status: 200, body: Some(detail("2024-01-12T00:00:00Z", 7)) }
        }
    };
    let run = drive(start(LINK, cutoff()), &mut details, &mut names, &list, &fetch_detail, &name_all);
    assert_eq!(run.log, vec!["list 1", "details 1,2,3", "pause 200", "list 2", "names 3"]);
    let kills = run.result.unwrap();
    assert_eq!(ids_of(&kills), vec![1]);
    assert_eq!(kills[0].attackers[0].character_name, Some("name7".to_string()));
    assert_eq!(kills[0].solar_system_name, Some("name40".to_string()));
    assert_eq!(kills[0].zkb.dropped_value, 100);
}

#[test]
fn names_go_out_in_chunks_one_after_the_other() {
    let mut details = DetailCache::new();
    let mut names = NameCache::new();
    let items: Vec<i32> = (1..=2100).collect();
    let list = |page: u32| ListReply::Answered {
        status: 200,
        body: Some(if page == 1 { (1..=2100).map(|id| summary(id, 100)).collect() } else { vec![] }),
    };
    let run = drive(start(LINK, cutoff()), &mut details, &mut names, &list, &ok_detail("2024-01-12T00:00:00Z"), &name_all);
    let sent: Vec<&String> = run.log.iter().filter(|l| l.starts_with("names")).collect();
    assert_eq!(sent, vec!["names 1000", "names 1000", "names 102"]);
    assert_eq!(ids_of(&run.result.unwrap()), items);
    assert!(names.contains(30));
    assert!(names.contains(40));
    assert!(names.contains(1001));
    assert!(names.contains(3100));
}

#[test]
fn a_rate_limited_name_reply_stops_the_chunks() {
    let mut details = DetailCache::new();
    let mut names = NameCache::new();
    let list = |page: u32| ListReply::Answered {
        status: 200,
        body: Some(if page == 1 { (1..=1500).map(|id| summary(id, 100)).collect() } else { vec![] }),
    };
    let limited = |_ids: &Vec<i32>| NameReply::Answered { status: 420, body: None };
    let run = drive(start(LINK, cutoff()), &mut details, &mut names, &list, &ok_detail("2024-01-12T00:00:00Z"), &limited);
    assert_eq!(run.result, Err(PipelineError::RateLimited { status: 420 }));
    assert_eq!(run.log.iter().filter(|l| l.starts_with("names")).count(), 1);
}

#[test]
fn a_failed_name_request_leaves_names_absent() {
    let mut details = DetailCache::new();
    let mut names = NameCache::new();
    let list = |page: u32| ListReply::Answered {
        status: 200,
        body: Some(if page == 1 { vec![summary(1, 100)] } else { vec![] }),
    };
    let broken = |_ids: &Vec<i32>| NameReply::Answered { status: 500, body: None };
    let run = drive(start(LINK, cutoff()), &mut details, &mut names, &list, &ok_detail("2024-01-12T00:00:00Z"), &broken);
    let kills = run.result.unwrap();
    assert_eq!(ids_of(&kills), vec![1]);
    assert_eq!(kills[0].solar_system_name, None);
    assert_eq!(kills[0].attackers[0].character_name, None);
}

#[test]
fn known_names_are_not_asked_for() {
    let mut details = DetailCache::new();
    let mut names = NameCache::new();
    names.put(30, "Ship".to_string());
    names.put(40, "System".to_string());
    names.put(1001, "Pilot".to_string());
    let list = |page: u32| ListReply::Answered {
        status: 200,
        body: Some(if page == 1 { vec![summary(1, 100)] } else { vec![] }),
    };
    let run = drive(start(LINK, cutoff()), &mut details, &mut names, &list, &ok_detail("2024-01-12T00:00:00Z"), &name_all);
    assert_eq!(run.log, vec!["list 1", "details 1", "pause 200", "list 2"]);
    assert_eq!(run.result.unwrap()[0].attackers[0].character_name, Some("Pilot".to_string()));
}

#[test]
fn prefilter_keeps_positive_values_only() {
    assert_eq!(
        prefilter(vec![summary(1, 100), summary(2, 0), summary(3, 50), summary(4, -7)]),
        vec![summary(1, 100), summary(3, 50)]
    );
    assert_eq!(prefilter(vec![]), vec![]);
}
