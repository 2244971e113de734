use crate::cache::{extends, put_once, DetailCache};
use crate::error::{is_rate_limit, is_success, status_is_rate_limit, status_is_success, PipelineError};
use crate::models::{views, EsiKillmail, EsiKillmailView, RawZKillItem, RawZKillItemView};
use crate::text::{push_signed_decimal, signed_decimal};
use vstd::prelude::*;
use vstd::string::*;

verus! {

/// What the detail endpoint needs to answer for one kill.
#[derive(Debug, PartialEq, Eq)]
pub struct DetailRequest {
    pub killmail_id: i32,
    pub hash: String,
}

pub struct DetailRequestView {
    pub killmail_id: i32,
    pub hash: Seq<char>,
}

impl View for DetailRequest {
    type V = DetailRequestView;

    open spec fn view(&self) -> DetailRequestView {
        DetailRequestView { killmail_id: self.killmail_id, hash: self.hash@ }
    }
}

/// The address at which the detail endpoint answers for a kill.
pub open spec fn detail_url_of(request: DetailRequestView) -> Seq<char> {
    "https://esi.evetech.net/v1/killmails/"@ + signed_decimal(request.killmail_id as int) + "/"@
        + request.hash + "/?datasource=tranquility"@
}

impl DetailRequest {
    pub fn url(&self) -> (r: String)
        ensures
            r@ == detail_url_of(self@),
    {
        let mut out = String::from_str("https://esi.evetech.net/v1/killmails/");
        push_signed_decimal(&mut out, self.killmail_id);
        out.append("/");
        out.append(self.hash.as_str());
        out.append("/?datasource=tranquility");
        out
    }
}

/// How one detail request ended.
#[derive(Debug, PartialEq, Eq)]
pub enum DetailReply {
    /// No answer came: the request failed below HTTP.
    Unreachable,
    /// An answer came. `body` is the record that the body holds, `None` where
    /// the body holds none or was not read.
    Answered { status: u16, body: Option<EsiKillmail> },
}

pub enum DetailReplyView {
    Unreachable,
    Answered { status: u16, body: Option<EsiKillmailView> },
}

impl View for DetailReply {
    type V = DetailReplyView;

    open spec fn view(&self) -> DetailReplyView {
        match self {
            DetailReply::Unreachable => DetailReplyView::Unreachable,
            DetailReply::Answered { status, body } => DetailReplyView::Answered {
                status: *status,
                body: match body {
                    Some(detail) => Some(detail@),
                    None => None,
                },
            },
        }
    }
}

/// A reply together with the kill that was asked about.
#[derive(Debug, PartialEq, Eq)]
pub struct DetailResponse {
    pub killmail_id: i32,
    pub reply: DetailReply,
}

pub struct DetailResponseView {
    pub killmail_id: i32,
    pub reply: DetailReplyView,
}

impl View for DetailResponse {
    type V = DetailResponseView;

    open spec fn view(&self) -> DetailResponseView {
        DetailResponseView { killmail_id: self.killmail_id, reply: self.reply@ }
    }
}

/// The record that a reply delivers: present only for a success status whose
/// body holds one. An unreachable endpoint and an unreadable body are silent
/// misses.
pub open spec fn hydrated(reply: DetailReplyView) -> Option<EsiKillmailView> {
    match reply {
        DetailReplyView::Answered { status, body } => if is_success(status) {
            body
        } else {
            None
        },
        DetailReplyView::Unreachable => None,
    }
}

/// The status with which a reply refused, kept for the rate-limit check.
pub open spec fn refusal(reply: DetailReplyView) -> Option<u16> {
    match reply {
        DetailReplyView::Answered { status, body } => if is_success(status) {
            None
        } else {
            Some(status)
        },
        DetailReplyView::Unreachable => None,
    }
}

/// Whether a reply is a rate-limit signal.
pub open spec fn rate_limited(reply: DetailReplyView) -> bool {
    refusal(reply) matches Some(status) && is_rate_limit(status)
}

/// The request that fetches the detail of `item`.
pub open spec fn request_of(item: RawZKillItemView) -> DetailRequestView {
    DetailRequestView { killmail_id: item.killmail_id, hash: item.zkb.hash }
}

/// The requests that a page calls for: one for each summary whose kill has no
/// record in the cache, in page order.
pub open spec fn missing(cache: Map<i32, EsiKillmailView>, items: Seq<RawZKillItemView>) -> Seq<
    DetailRequestView,
>
    decreases items.len(),
{
    if items.len() == 0 {
        Seq::empty()
    } else if cache.contains_key(items.last().killmail_id) {
        missing(cache, items.drop_last())
    } else {
        missing(cache, items.drop_last()).push(request_of(items.last()))
    }
}

/// The cache after a batch of replies: every delivered record is stored, in
/// batch order, unless its kill already has one.
pub open spec fn merge_details(
    cache: Map<i32, EsiKillmailView>,
    responses: Seq<DetailResponseView>,
) -> Map<i32, EsiKillmailView>
    decreases responses.len(),
{
    if responses.len() == 0 {
        cache
    } else {
        let before = merge_details(cache, responses.drop_last());
        match hydrated(responses.last().reply) {
            Some(detail) => put_once(before, responses.last().killmail_id, detail),
            None => before,
        }
    }
}

/// The status of the first rate-limit signal in a batch, in batch order.
pub open spec fn first_rate_limit(responses: Seq<DetailResponseView>) -> Option<u16>
    decreases responses.len(),
{
    if responses.len() == 0 {
        None
    } else {
        match first_rate_limit(responses.drop_last()) {
            Some(status) => Some(status),
            None => if rate_limited(responses.last().reply) {
                refusal(responses.last().reply)
            } else {
                None
            },
        }
    }
}

/// What a batch of replies amounts to: the rate-limit error where one of them
/// signals it, success otherwise.
pub open spec fn batch_verdict(responses: Seq<DetailResponseView>) -> Result<(), PipelineError> {
    match first_rate_limit(responses) {
        Some(status) => Err(PipelineError::RateLimited { status }),
        None => Ok(()),
    }
}

/// Lists the detail requests that `items` call for.
pub fn missing_details(cache: &DetailCache, items: &Vec<RawZKillItem>) -> (r: Vec<DetailRequest>)
    ensures
        views(r@) == missing(cache@, views(items@)),
{
    let mut requests: Vec<DetailRequest> = Vec::new();
    let mut i: usize = 0;
    while i < items.len()
        invariant
            i <= items.len(),
            views(requests@) == missing(cache@, views(items@).take(i as int)),
        decreases items.len() - i,
    {
        proof {
            assert(views(items@).take(i + 1).drop_last() =~= views(items@).take(i as int));
        }
        let item = &items[i];
        if !cache.contains(item.killmail_id) {
            requests.push(DetailRequest { killmail_id: item.killmail_id, hash: item.zkb.hash.clone() });
            assert(views(requests@) =~= missing(cache@, views(items@).take(i + 1)));
        }
        i += 1;
    }
    proof {
        assert(views(items@).take(i as int) =~= views(items@));
    }
    requests
}

/// Takes in a batch of detail replies. Every delivered record goes into the
/// cache, whether or not the batch also holds a rate-limit signal; the result
/// is the rate-limit error where it does.
pub fn hydrate(cache: &mut DetailCache, responses: Vec<DetailResponse>) -> (r: Result<
    (),
    PipelineError,
>)
    ensures
        final(cache)@ == merge_details(old(cache)@, views(responses@)),
        extends(final(cache)@, old(cache)@),
        r == batch_verdict(views(responses@)),
{
    proof {
        lemma_merge_extends(cache@, views(responses@));
    }
    let ghost all = views(responses@);
    let ghost start = cache@;
    let mut limited: Option<u16> = None;
    for response in it: responses
        invariant
            views(it.seq()) == all,
            cache@ == merge_details(start, all.take(it.index() as int)),
            limited == first_rate_limit(all.take(it.index() as int)),
    {
        proof {
            assert(all.take(it.index() + 1).drop_last() =~= all.take(it.index() as int));
            assert(all.take(it.index() + 1).last() == response@);
        }
        match response.reply {
            DetailReply::Answered { status, body } => {
                if status_is_success(status) {
                    match body {
                        Some(detail) => {
                            cache.put(response.killmail_id, detail);
                        },
                        None => {},
                    }
                } else if limited.is_none() && status_is_rate_limit(status) {
                    limited = Some(status);
                }
            },
            DetailReply::Unreachable => {},
        }
    }
    proof {
        assert(all.take(all.len() as int) =~= all);
    }
    match limited {
        Some(status) => Err(PipelineError::RateLimited { status }),
        None => Ok(()),
    }
}

/// A batch never removes a record from the cache nor changes one.
pub proof fn lemma_merge_extends(
    cache: Map<i32, EsiKillmailView>,
    responses: Seq<DetailResponseView>,
)
    ensures
        extends(merge_details(cache, responses), cache),
    decreases responses.len(),
{
    if responses.len() > 0 {
        lemma_merge_extends(cache, responses.drop_last());
    }
}

/// Every record that a batch delivers is in the cache afterwards, whatever
/// else the batch holds: a rate-limit signal in it takes nothing back.
pub proof fn lemma_merge_keeps_deliveries(
    cache: Map<i32, EsiKillmailView>,
    responses: Seq<DetailResponseView>,
    i: int,
)
    requires
        0 <= i < responses.len(),
        hydrated(responses[i].reply) is Some,
    ensures
        merge_details(cache, responses).contains_key(responses[i].killmail_id),
    decreases responses.len(),
{
    if i < responses.len() - 1 {
        lemma_merge_keeps_deliveries(cache, responses.drop_last(), i);
    }
}

/// A kill without a record stays without one where no reply of the batch
/// delivers its record: a silent miss leaves no trace.
pub proof fn lemma_miss_leaves_absent(
    cache: Map<i32, EsiKillmailView>,
    responses: Seq<DetailResponseView>,
    id: i32,
)
    requires
        !cache.contains_key(id),
        forall|i: int|
            0 <= i < responses.len() && #[trigger] responses[i].killmail_id == id ==> hydrated(
                responses[i].reply,
            ) is None,
    ensures
        !merge_details(cache, responses).contains_key(id),
    decreases responses.len(),
{
    if responses.len() > 0 {
        let front = responses.drop_last();
        assert(forall|i: int| 0 <= i < front.len() ==> front[i] == responses[i]);
        lemma_miss_leaves_absent(cache, front, id);
        assert(responses[responses.len() - 1] == responses.last());
    }
}

/// Taking in the same batch a second time changes nothing.
pub proof fn lemma_merge_idempotent(
    cache: Map<i32, EsiKillmailView>,
    responses: Seq<DetailResponseView>,
)
    ensures
        merge_details(merge_details(cache, responses), responses) == merge_details(
            cache,
            responses,
        ),
{
    let once = merge_details(cache, responses);
    assert forall|i: int| 0 <= i < responses.len() && hydrated(
        #[trigger] responses[i].reply,
    ) is Some implies once.contains_key(responses[i].killmail_id) by {
        lemma_merge_keeps_deliveries(cache, responses, i);
    }
    lemma_merge_of_known(once, responses);
}

/// A batch whose every delivery is for a kill that already has a record
/// leaves the cache as it is.
pub proof fn lemma_merge_of_known(
    cache: Map<i32, EsiKillmailView>,
    responses: Seq<DetailResponseView>,
)
    requires
        forall|i: int|
            0 <= i < responses.len() && hydrated(#[trigger] responses[i].reply) is Some
                ==> cache.contains_key(responses[i].killmail_id),
    ensures
        merge_details(cache, responses) == cache,
    decreases responses.len(),
{
    if responses.len() > 0 {
        let front = responses.drop_last();
        assert(forall|i: int| 0 <= i < front.len() ==> front[i] == responses[i]);
        lemma_merge_of_known(cache, front);
        assert(responses[responses.len() - 1] == responses.last());
    }
}

/// A page asks only for kills that have no record, and for each of them: a
/// kill that is in the cache is never requested again.
pub proof fn lemma_missing_skips_cached(
    cache: Map<i32, EsiKillmailView>,
    items: Seq<RawZKillItemView>,
)
    ensures
        forall|j: int|
            0 <= j < missing(cache, items).len() ==> !cache.contains_key(
                (#[trigger] missing(cache, items)[j]).killmail_id,
            ),
        forall|i: int|
            0 <= i < items.len() && !cache.contains_key((#[trigger] items[i]).killmail_id)
                ==> missing(cache, items).contains(request_of(items[i])),
        missing(cache, items).len() <= items.len(),
    decreases items.len(),
{
    if items.len() > 0 {
        let front = items.drop_last();
        lemma_missing_skips_cached(cache, front);
        let now = missing(cache, items);
        let prev = missing(cache, front);
        assert forall|i: int|
            0 <= i < items.len() && !cache.contains_key((#[trigger] items[i]).killmail_id)
        implies now.contains(request_of(items[i])) by {
            if i < items.len() - 1 {
                assert(front[i] == items[i]);
                let j = choose|j: int| 0 <= j < prev.len() && prev[j] == request_of(front[i]);
                assert(now[j] == request_of(items[i]));
            } else {
                assert(now[now.len() - 1] == request_of(items[i]));
            }
        }
    }
}

/// A batch signals a rate limit exactly when one of its replies does, and
/// then the status reported is one that a signalling reply carried.
pub proof fn lemma_first_rate_limit(responses: Seq<DetailResponseView>)
    ensures
        first_rate_limit(responses) is Some <==> exists|i: int|
            0 <= i < responses.len() && rate_limited(#[trigger] responses[i].reply),
        first_rate_limit(responses) matches Some(status) ==> is_rate_limit(status),
    decreases responses.len(),
{
    if responses.len() > 0 {
        let front = responses.drop_last();
        lemma_first_rate_limit(front);
        assert(forall|i: int| 0 <= i < front.len() ==> front[i] == responses[i]);
        if first_rate_limit(front) is Some {
            let i = choose|i: int| 0 <= i < front.len() && rate_limited(#[trigger] front[i].reply);
            assert(rate_limited(responses[i].reply));
        } else if rate_limited(responses.last().reply) {
            assert(rate_limited(responses[responses.len() - 1].reply));
        } else {
            assert forall|i: int| 0 <= i < responses.len() implies !rate_limited(
                #[trigger] responses[i].reply,
            ) by {
                if i < front.len() {
                    assert(front[i] == responses[i]);
                }
            }
        }
    }
}

/// A kill whose record a batch delivered is not asked for again: the next
/// page that lists it finds it in the cache.
pub proof fn lemma_delivered_not_requested_again(
    cache: Map<i32, EsiKillmailView>,
    responses: Seq<DetailResponseView>,
    items: Seq<RawZKillItemView>,
    i: int,
)
    requires
        0 <= i < responses.len(),
        hydrated(responses[i].reply) is Some,
    ensures
        forall|j: int|
            0 <= j < missing(merge_details(cache, responses), items).len() ==> (#[trigger] missing(
                merge_details(cache, responses),
                items,
            )[j]).killmail_id != responses[i].killmail_id,
{
    lemma_merge_keeps_deliveries(cache, responses, i);
    lemma_missing_skips_cached(merge_details(cache, responses), items);
}

} // verus!
