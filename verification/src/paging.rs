use crate::cache::DetailCache;
use crate::error::{is_success, status_is_success, PipelineError};
use crate::instant::{lemma_oldest_is_minimum, oldest, oldest_instant, parse_rfc3339, rfc3339_instant, Instant};
use crate::link::{api_param_of, EntityReference, EntityReferenceView};
use crate::models::{views, EsiKillmailView, RawZKillItem, RawZKillItemView};
use crate::text::{decimal, push_decimal};
use vstd::prelude::*;
use vstd::string::*;

verus! {

/// No more than this many list pages are asked for in one fetch.
pub const MAX_PAGES: u32 = 10;

/// How long to wait between two list pages, in milliseconds.
pub const PAGE_PAUSE_MILLIS: u64 = 200;

/// The address of list page `page` for `entity`. The first page has an
/// address of its own, without a page number.
pub open spec fn list_url_of(entity: EntityReferenceView, page: u32) -> Seq<char> {
    let first = "https://zkillboard.com/api/"@ + api_param_of(entity.kind) + "/"@ + entity.id
        + "/"@;
    if page == 1 {
        first
    } else {
        first + "page/"@ + decimal(page as nat) + "/"@
    }
}

pub fn list_url(entity: &EntityReference, page: u32) -> (r: String)
    ensures
        r@ == list_url_of(entity@, page),
{
    let mut out = String::from_str("https://zkillboard.com/api/");
    out.append(entity.kind.api_param());
    out.append("/");
    out.append(entity.id.as_str());
    out.append("/");
    if page != 1 {
        out.append("page/");
        push_decimal(&mut out, page as u64);
        out.append("/");
    }
    out
}

/// How the request for one list page ended.
#[derive(Debug, PartialEq, Eq)]
pub enum ListReply {
    /// No answer came: the request failed below HTTP.
    Unreachable,
    /// An answer came. `body` is the list of summaries that the body holds,
    /// `None` where the body holds none or was not read.
    Answered { status: u16, body: Option<Vec<RawZKillItem>> },
}

pub enum ListReplyView {
    Unreachable,
    Answered { status: u16, body: Option<Seq<RawZKillItemView>> },
}

impl View for ListReply {
    type V = ListReplyView;

    open spec fn view(&self) -> ListReplyView {
        match self {
            ListReply::Unreachable => ListReplyView::Unreachable,
            ListReply::Answered { status, body } => ListReplyView::Answered {
                status: *status,
                body: match body {
                    Some(items) => Some(views(items@)),
                    None => None,
                },
            },
        }
    }
}

/// The summaries of page `page`, or the error that ends the fetch: an
/// unreachable endpoint, a status outside 200..=299, or an unreadable body.
pub open spec fn list_outcome(page: u32, reply: ListReplyView) -> Result<
    Seq<RawZKillItemView>,
    PipelineError,
> {
    match reply {
        ListReplyView::Unreachable => Err(PipelineError::ListTransportFailure { page }),
        ListReplyView::Answered { status, body } => if !is_success(status) {
            Err(PipelineError::UpstreamListError { page, status })
        } else {
            match body {
                Some(items) => Ok(items),
                None => Err(PipelineError::ListBodyMalformed { page }),
            }
        },
    }
}

/// Whether `r` is the outcome `expected`, the summaries taken by their views.
pub open spec fn list_outcome_is(
    r: Result<Vec<RawZKillItem>, PipelineError>,
    expected: Result<Seq<RawZKillItemView>, PipelineError>,
) -> bool {
    match expected {
        Ok(items) => r matches Ok(found) && views(found@) == items,
        Err(error) => r matches Err(found) && found == error,
    }
}

/// Reads the reply to the request for list page `page`.
pub fn read_list(page: u32, reply: ListReply) -> (r: Result<Vec<RawZKillItem>, PipelineError>)
    ensures
        list_outcome_is(r, list_outcome(page, reply@)),
{
    match reply {
        ListReply::Unreachable => Err(PipelineError::ListTransportFailure { page }),
        ListReply::Answered { status, body } => {
            if !status_is_success(status) {
                Err(PipelineError::UpstreamListError { page, status })
            } else {
                match body {
                    Some(items) => Ok(items),
                    None => Err(PipelineError::ListBodyMalformed { page }),
                }
            }
        },
    }
}

/// When the kill of `item` happened, as far as the cache knows: absent where
/// the kill has no record or the record's timestamp cannot be read.
pub open spec fn stamp_of(cache: Map<i32, EsiKillmailView>, item: RawZKillItemView) -> Option<
    Instant,
> {
    if cache.contains_key(item.killmail_id) {
        rfc3339_instant(cache[item.killmail_id].killmail_time)
    } else {
        None
    }
}

pub open spec fn stamps_of(cache: Map<i32, EsiKillmailView>, items: Seq<RawZKillItemView>) -> Seq<
    Option<Instant>,
> {
    Seq::new(items.len(), |i: int| stamp_of(cache, items[i]))
}

/// Whether at least one summary of the page has its record in the cache.
pub open spec fn any_resolved(cache: Map<i32, EsiKillmailView>, items: Seq<RawZKillItemView>) -> bool {
    exists|i: int| 0 <= i < items.len() && cache.contains_key((#[trigger] items[i]).killmail_id)
}

/// The stop rule on what a page showed: paging ends after a page of which at
/// least one summary was resolved and whose oldest kill is strictly older
/// than the cutoff.
pub open spec fn stop_rule(resolved: bool, oldest_in_page: Option<Instant>, cutoff: Instant) -> bool {
    resolved && (oldest_in_page matches Some(t) && t.before(cutoff))
}

/// The stop rule applied to a page as the cache knows it.
pub open spec fn reaches_cutoff(
    cache: Map<i32, EsiKillmailView>,
    items: Seq<RawZKillItemView>,
    cutoff: Instant,
) -> bool {
    stop_rule(any_resolved(cache, items), oldest(stamps_of(cache, items)), cutoff)
}

/// Decides from a page's figures whether paging ends after it.
pub fn stop_after(resolved: bool, oldest_in_page: Option<Instant>, cutoff: &Instant) -> (r: bool)
    ensures
        r == stop_rule(resolved, oldest_in_page, *cutoff),
{
    match oldest_in_page {
        Some(t) => resolved && t.is_before(cutoff),
        None => false,
    }
}

/// Reads the time of each summary's kill from the cache.
pub fn page_stamps(cache: &DetailCache, items: &Vec<RawZKillItem>) -> (r: Vec<Option<Instant>>)
    ensures
        r@ == stamps_of(cache@, views(items@)),
{
    let mut stamps: Vec<Option<Instant>> = Vec::new();
    let mut i: usize = 0;
    while i < items.len()
        invariant
            i <= items.len(),
            stamps@ == stamps_of(cache@, views(items@)).take(i as int),
        decreases items.len() - i,
    {
        let stamp = match cache.get(items[i].killmail_id) {
            Some(detail) => parse_rfc3339(detail.killmail_time.as_str()),
            None => None,
        };
        stamps.push(stamp);
        proof {
            assert(views(items@)[i as int] == items@[i as int]@);
            assert(stamps@ =~= stamps_of(cache@, views(items@)).take(i + 1));
        }
        i += 1;
    }
    proof {
        assert(stamps_of(cache@, views(items@)).take(i as int) =~= stamps_of(
            cache@,
            views(items@),
        ));
    }
    stamps
}

/// Says whether any summary of the page has its record in the cache.
pub fn page_resolved(cache: &DetailCache, items: &Vec<RawZKillItem>) -> (r: bool)
    ensures
        r == any_resolved(cache@, views(items@)),
{
    let mut i: usize = 0;
    while i < items.len()
        invariant
            i <= items.len(),
            forall|j: int| 0 <= j < i ==> !cache@.contains_key((#[trigger] views(items@)[j]).killmail_id),
        decreases items.len() - i,
    {
        if cache.contains(items[i].killmail_id) {
            assert(cache@.contains_key(views(items@)[i as int].killmail_id));
            return true;
        }
        i += 1;
    }
    false
}

/// Applies the stop rule to a page that has been through hydration.
pub fn page_reaches_cutoff(cache: &DetailCache, items: &Vec<RawZKillItem>, cutoff: &Instant) -> (r:
    bool)
    ensures
        r == reaches_cutoff(cache@, views(items@), *cutoff),
{
    let resolved = page_resolved(cache, items);
    let stamps = page_stamps(cache, items);
    stop_after(resolved, oldest_instant(&stamps), cutoff)
}

/// Paging ends after a page exactly when the cache knows of a kill of that
/// page that happened strictly before the cutoff.
pub proof fn lemma_reaches_cutoff(
    cache: Map<i32, EsiKillmailView>,
    items: Seq<RawZKillItemView>,
    cutoff: Instant,
)
    ensures
        reaches_cutoff(cache, items, cutoff) <==> exists|i: int|
            0 <= i < items.len() && (stamp_of(cache, #[trigger] items[i]) matches Some(t)
                && t.before(cutoff)),
{
    let stamps = stamps_of(cache, items);
    lemma_oldest_is_minimum(stamps);
    if reaches_cutoff(cache, items, cutoff) {
        let m = oldest(stamps)->Some_0;
        let i = choose|i: int| 0 <= i < stamps.len() && stamps[i] == Some(m);
        assert(stamp_of(cache, items[i]) == Some(m));
    }
    if exists|i: int|
        0 <= i < items.len() && (stamp_of(cache, #[trigger] items[i]) matches Some(t) && t.before(
            cutoff,
        )) {
        let i = choose|i: int|
            0 <= i < items.len() && (stamp_of(cache, #[trigger] items[i]) matches Some(t)
                && t.before(cutoff));
        assert(stamps[i] == stamp_of(cache, items[i]));
        assert(cache.contains_key(items[i].killmail_id));
    }
}

} // verus!
