use crate::assemble::{assemble, assembled, lemma_unhydrated_never_appears};
use crate::cache::{extends, DetailCache, NameCache};
use crate::error::{is_rate_limit, PipelineError};
use crate::hydrate::{batch_verdict, first_rate_limit, hydrate, hydrated, lemma_first_rate_limit, lemma_merge_extends, lemma_merge_keeps_deliveries, lemma_miss_leaves_absent, merge_details, missing, missing_details, rate_limited, DetailRequest, DetailRequestView, DetailResponse, DetailResponseView};
use crate::instant::Instant;
use crate::link::{link_entity, parse_link, regex_captures, EntityReference, EntityReferenceView, LINK_PATTERN};
use crate::models::{views, worthwhile, EsiKillmailView, EsiNameEntryView, Killmail, KillmailView, RawZKillItem, RawZKillItemView};
use crate::names::{candidate_ids, candidates, chunk_at, delivered_names, lemma_merge_names_extends, merge_names, name_verdict, next_chunk, resolve, unresolved_ids, wanted, NameReply, NameReplyView};
use crate::paging::{list_outcome, list_url, list_url_of, page_reaches_cutoff, reaches_cutoff, read_list, ListReply, ListReplyView, MAX_PAGES, PAGE_PAUSE_MILLIS};
use vstd::prelude::*;

verus! {

/// One fetch in progress: what it is after and what it has gathered so far.
/// A fetch lives for one invocation; only the two caches outlive it.
#[derive(Debug, PartialEq, Eq)]
pub struct Fetch {
    pub entity: EntityReference,
    pub cutoff: Instant,
    /// The list page that is being asked for or hydrated, from 1.
    pub page: u32,
    /// The summaries of the pages that are done with, in the order they came.
    pub collected: Vec<RawZKillItem>,
    /// The summaries of the page whose details are being fetched.
    pub current: Vec<RawZKillItem>,
    /// The identifiers whose names this fetch resolves.
    pub ids: Vec<i32>,
    /// How many of `ids` have gone out in a request.
    pub sent: usize,
}

pub struct FetchView {
    pub entity: EntityReferenceView,
    pub cutoff: Instant,
    pub page: u32,
    pub collected: Seq<RawZKillItemView>,
    pub current: Seq<RawZKillItemView>,
    pub ids: Seq<i32>,
    pub sent: usize,
}

impl View for Fetch {
    type V = FetchView;

    open spec fn view(&self) -> FetchView {
        FetchView {
            entity: self.entity@,
            cutoff: self.cutoff,
            page: self.page,
            collected: views(self.collected@),
            current: views(self.current@),
            ids: self.ids@,
            sent: self.sent,
        }
    }
}

/// What the caller is to do next, and the fetch to go on with once it has.
/// Each request names the method that takes its reply.
#[derive(Debug, PartialEq, Eq)]
pub enum Next {
    /// Get the list page at `url`; hand the reply to `Fetch::on_list`.
    FetchList { fetch: Fetch, url: String },
    /// Get the detail of each request, all at once; when every one has
    /// ended, hand the replies to `Fetch::on_details`.
    FetchDetails { fetch: Fetch, requests: Vec<DetailRequest> },
    /// Wait for `millis` milliseconds, then call `Fetch::resume`.
    Pause { fetch: Fetch, millis: u64 },
    /// Post `ids` to the bulk name endpoint; hand the reply to
    /// `Fetch::on_names`.
    ResolveNames { fetch: Fetch, ids: Vec<i32> },
    /// The fetch is over; `kills` is its output.
    Done { kills: Vec<Killmail> },
    /// The fetch is over and has failed.
    Failed { error: PipelineError },
}

pub enum NextView {
    FetchList { fetch: FetchView, url: Seq<char> },
    FetchDetails { fetch: FetchView, requests: Seq<DetailRequestView> },
    Pause { fetch: FetchView, millis: u64 },
    ResolveNames { fetch: FetchView, ids: Seq<i32> },
    Done { kills: Seq<KillmailView> },
    Failed { error: PipelineError },
}

impl View for Next {
    type V = NextView;

    open spec fn view(&self) -> NextView {
        match self {
            Next::FetchList { fetch, url } => NextView::FetchList { fetch: fetch@, url: url@ },
            Next::FetchDetails { fetch, requests } => NextView::FetchDetails {
                fetch: fetch@,
                requests: views(requests@),
            },
            Next::Pause { fetch, millis } => NextView::Pause { fetch: fetch@, millis: *millis },
            Next::ResolveNames { fetch, ids } => NextView::ResolveNames { fetch: fetch@, ids: ids@ },
            Next::Done { kills } => NextView::Done { kills: views(kills@) },
            Next::Failed { error } => NextView::Failed { error: *error },
        }
    }
}

/// The summaries that go on to name resolution and assembly: those of which
/// something of value dropped.
pub open spec fn prefiltered(items: Seq<RawZKillItemView>) -> Seq<RawZKillItemView>
    decreases items.len(),
{
    if items.len() == 0 {
        Seq::empty()
    } else if worthwhile(items.last()) {
        prefiltered(items.drop_last()).push(items.last())
    } else {
        prefiltered(items.drop_last())
    }
}

/// A fetch begins by asking for the first list page.
pub open spec fn begun(entity: EntityReferenceView, cutoff: Instant) -> NextView {
    NextView::FetchList {
        fetch: FetchView {
            entity,
            cutoff,
            page: 1,
            collected: Seq::empty(),
            current: Seq::empty(),
            ids: Seq::empty(),
            sent: 0,
        },
        url: list_url_of(entity, 1),
    }
}

/// A fetch for a user-supplied link, given what the search for the link
/// pattern found in it.
pub open spec fn started(captures: Option<Seq<Option<Seq<char>>>>, cutoff: Instant) -> NextView {
    match link_entity(captures) {
        Ok(entity) => begun(entity, cutoff),
        Err(error) => NextView::Failed { error },
    }
}

/// Name resolution goes chunk by chunk; when nothing is left to send, the
/// output is assembled.
pub open spec fn names_step(
    fetch: FetchView,
    details: Map<i32, EsiKillmailView>,
    names: Map<i32, Seq<char>>,
) -> NextView {
    if fetch.sent < fetch.ids.len() {
        let chunk = chunk_at(fetch.ids, fetch.sent as int);
        NextView::ResolveNames {
            fetch: FetchView { sent: (fetch.sent + chunk.len()) as usize, ..fetch },
            ids: chunk,
        }
    } else {
        NextView::Done { kills: assembled(fetch.collected, details, names) }
    }
}

/// When paging is over, the summaries are pre-filtered and the identifiers
/// without a name are worked out, once, for the whole fetch.
pub open spec fn paging_over(
    fetch: FetchView,
    details: Map<i32, EsiKillmailView>,
    names: Map<i32, Seq<char>>,
) -> NextView {
    let kills = prefiltered(fetch.collected);
    names_step(
        FetchView {
            collected: kills,
            current: Seq::empty(),
            ids: wanted(names, candidates(details, kills)),
            sent: 0,
            ..fetch
        },
        details,
        names,
    )
}

/// A page that has been through hydration joins the collected summaries,
/// whatever the stop rule says. Paging ends where the rule says so or the
/// last page allowed is done; otherwise the next page follows after a pause.
pub open spec fn page_closed(
    fetch: FetchView,
    details: Map<i32, EsiKillmailView>,
    names: Map<i32, Seq<char>>,
) -> NextView {
    let gathered = FetchView {
        collected: fetch.collected + fetch.current,
        current: Seq::empty(),
        ..fetch
    };
    if reaches_cutoff(details, fetch.current, fetch.cutoff) || fetch.page >= MAX_PAGES {
        paging_over(gathered, details, names)
    } else {
        NextView::Pause {
            fetch: FetchView { page: (fetch.page + 1) as u32, ..gathered },
            millis: PAGE_PAUSE_MILLIS,
        }
    }
}

/// After a list reply: an error ends the fetch, an empty page ends paging,
/// and any other page is hydrated before anything else is decided.
pub open spec fn after_list(
    fetch: FetchView,
    details: Map<i32, EsiKillmailView>,
    names: Map<i32, Seq<char>>,
    reply: ListReplyView,
) -> NextView {
    match list_outcome(fetch.page, reply) {
        Err(error) => NextView::Failed { error },
        Ok(items) => if items.len() == 0 {
            paging_over(FetchView { current: Seq::empty(), ..fetch }, details, names)
        } else {
            let hydrating = FetchView { current: items, ..fetch };
            let requests = missing(details, items);
            if requests.len() == 0 {
                page_closed(hydrating, details, names)
            } else {
                NextView::FetchDetails { fetch: hydrating, requests }
            }
        },
    }
}

/// After a batch of detail replies: a rate-limit signal ends the fetch;
/// otherwise the page is closed against the cache as the batch left it.
pub open spec fn after_details(
    fetch: FetchView,
    details: Map<i32, EsiKillmailView>,
    names: Map<i32, Seq<char>>,
    responses: Seq<DetailResponseView>,
) -> NextView {
    match batch_verdict(responses) {
        Err(error) => NextView::Failed { error },
        Ok(_) => page_closed(fetch, merge_details(details, responses), names),
    }
}

/// After a pause the page that the fetch stands at is asked for.
pub open spec fn resumed(fetch: FetchView) -> NextView {
    NextView::FetchList { fetch, url: list_url_of(fetch.entity, fetch.page) }
}

/// After a name reply: a rate-limit signal ends the fetch; anything else,
/// failure included, lets the next chunk go out.
pub open spec fn after_names(
    fetch: FetchView,
    details: Map<i32, EsiKillmailView>,
    names: Map<i32, Seq<char>>,
    reply: NameReplyView,
) -> NextView {
    match name_verdict(reply) {
        Err(error) => NextView::Failed { error },
        Ok(_) => names_step(fetch, details, merge_names(names, delivered_names(reply))),
    }
}

/// Drops the summaries of which nothing of value dropped.
pub fn prefilter(items: Vec<RawZKillItem>) -> (r: Vec<RawZKillItem>)
    ensures
        views(r@) == prefiltered(views(items@)),
{
    let ghost all = views(items@);
    let mut out: Vec<RawZKillItem> = Vec::new();
    for item in it: items
        invariant
            views(it.seq()) == all,
            views(out@) == prefiltered(all.take(it.index() as int)),
    {
        proof {
            assert(all.take(it.index() + 1).drop_last() =~= all.take(it.index() as int));
            assert(all.take(it.index() + 1).last() == item@);
        }
        if item.is_worthwhile() {
            let ghost before = views(out@);
            out.push(item);
            assert(views(out@) =~= before.push(item@));
        }
    }
    proof {
        assert(all.take(all.len() as int) =~= all);
    }
    out
}

fn step_names(fetch: Fetch, details: &DetailCache, names: &NameCache) -> (r: Next)
    ensures
        r@ == names_step(fetch@, details@, names@),
{
    if fetch.sent < fetch.ids.len() {
        let chunk = next_chunk(&fetch.ids, fetch.sent);
        let sent = fetch.sent + chunk.len();
        Next::ResolveNames {
            fetch: Fetch {
                entity: fetch.entity,
                cutoff: fetch.cutoff,
                page: fetch.page,
                collected: fetch.collected,
                current: fetch.current,
                ids: fetch.ids,
                sent,
            },
            ids: chunk,
        }
    } else {
        Next::Done { kills: assemble(&fetch.collected, details, names) }
    }
}

fn end_paging(fetch: Fetch, details: &DetailCache, names: &NameCache) -> (r: Next)
    ensures
        r@ == paging_over(fetch@, details@, names@),
{
    let kills = prefilter(fetch.collected);
    let ids = unresolved_ids(names, &candidate_ids(details, &kills));
    let readied = Fetch {
        entity: fetch.entity,
        cutoff: fetch.cutoff,
        page: fetch.page,
        collected: kills,
        current: Vec::new(),
        ids,
        sent: 0,
    };
    assert(readied@.current =~= Seq::empty());
    step_names(readied, details, names)
}

fn close_page(fetch: Fetch, details: &DetailCache, names: &NameCache) -> (r: Next)
    ensures
        r@ == page_closed(fetch@, details@, names@),
{
    let stop = page_reaches_cutoff(details, &fetch.current, &fetch.cutoff);
    let page = fetch.page;
    let mut collected = fetch.collected;
    let mut current = fetch.current;
    let ghost before = views(collected@);
    let ghost added = views(current@);
    collected.append(&mut current);
    assert(views(collected@) =~= before + added);
    assert(views(current@) =~= Seq::empty());
    if stop || page >= MAX_PAGES {
        end_paging(
            Fetch {
                entity: fetch.entity,
                cutoff: fetch.cutoff,
                page,
                collected,
                current,
                ids: fetch.ids,
                sent: fetch.sent,
            },
            details,
            names,
        )
    } else {
        Next::Pause {
            fetch: Fetch {
                entity: fetch.entity,
                cutoff: fetch.cutoff,
                page: page + 1,
                collected,
                current,
                ids: fetch.ids,
                sent: fetch.sent,
            },
            millis: PAGE_PAUSE_MILLIS,
        }
    }
}

impl Fetch {
    /// Begins a fetch of the kills of `entity`, to reach back to `cutoff`.
    pub fn begin(entity: EntityReference, cutoff: Instant) -> (r: Next)
        ensures
            r@ == begun(entity@, cutoff),
    {
        let url = list_url(&entity, 1);
        let fetch = Fetch {
            entity,
            cutoff,
            page: 1,
            collected: Vec::new(),
            current: Vec::new(),
            ids: Vec::new(),
            sent: 0,
        };
        assert(fetch@.collected =~= Seq::empty() && fetch@.current =~= Seq::empty());
        Next::FetchList { fetch, url }
    }

    /// Takes the reply to the request for the list page that the fetch
    /// stands at.
    pub fn on_list(self, details: &DetailCache, names: &NameCache, reply: ListReply) -> (r: Next)
        ensures
            r@ == after_list(self@, details@, names@, reply@),
    {
        match read_list(self.page, reply) {
            Err(error) => Next::Failed { error },
            Ok(items) => {
                if items.len() == 0 {
                    let emptied = Fetch {
                        entity: self.entity,
                        cutoff: self.cutoff,
                        page: self.page,
                        collected: self.collected,
                        current: Vec::new(),
                        ids: self.ids,
                        sent: self.sent,
                    };
                    assert(emptied@.current =~= Seq::empty());
                    end_paging(emptied, details, names)
                } else {
                    let requests = missing_details(details, &items);
                    let hydrating = Fetch {
                        entity: self.entity,
                        cutoff: self.cutoff,
                        page: self.page,
                        collected: self.collected,
                        current: items,
                        ids: self.ids,
                        sent: self.sent,
                    };
                    if requests.len() == 0 {
                        close_page(hydrating, details, names)
                    } else {
                        Next::FetchDetails { fetch: hydrating, requests }
                    }
                }
            },
        }
    }

    /// Takes the replies to a batch of detail requests. What the batch
    /// delivered is in the cache afterwards even where the fetch fails on a
    /// rate-limit signal.
    pub fn on_details(
        self,
        details: &mut DetailCache,
        names: &NameCache,
        responses: Vec<DetailResponse>,
    ) -> (r: Next)
        ensures
            final(details)@ == merge_details(old(details)@, views(responses@)),
            extends(final(details)@, old(details)@),
            r@ == after_details(self@, old(details)@, names@, views(responses@)),
    {
        proof {
            lemma_merge_extends(details@, views(responses@));
        }
        match hydrate(details, responses) {
            Err(error) => Next::Failed { error },
            Ok(_) => close_page(self, details, names),
        }
    }

    /// Goes on after the pause between two pages.
    pub fn resume(self) -> (r: Next)
        ensures
            r@ == resumed(self@),
    {
        let url = list_url(&self.entity, self.page);
        Next::FetchList { fetch: self, url }
    }

    /// Takes the reply to a name-resolution request.
    pub fn on_names(self, details: &DetailCache, names: &mut NameCache, reply: NameReply) -> (r:
        Next)
        ensures
            final(names)@ == merge_names(old(names)@, delivered_names(reply@)),
            extends(final(names)@, old(names)@),
            r@ == after_names(self@, details@, old(names)@, reply@),
    {
        proof {
            lemma_merge_names_extends(names@, delivered_names(reply@));
        }
        match resolve(names, reply) {
            Err(error) => Next::Failed { error },
            Ok(_) => step_names(self, details, names),
        }
    }
}

/// Begins a fetch for a user-supplied link: the link is parsed, and the
/// first list page is asked for unless the link is rejected.
pub fn start(user_url: &str, cutoff: Instant) -> (r: Next)
    ensures
        r@ == started(regex_captures(LINK_PATTERN@, user_url@), cutoff),
{
    match parse_link(user_url) {
        Ok(entity) => Fetch::begin(entity, cutoff),
        Err(error) => Next::Failed { error },
    }
}

/// Whether a step asks for no list page, now or later: it resolves names,
/// hands out the output, or fails.
pub open spec fn paging_is_over(next: NextView) -> bool {
    next is ResolveNames || next is Done || next is Failed
}

/// A rate-limit signal among a batch of detail replies fails the fetch with
/// that status, so that nothing is asked for after the batch; and every
/// record that the same batch delivered is in the cache all the same.
pub proof fn lemma_rate_limited_details_abort(
    fetch: FetchView,
    details: Map<i32, EsiKillmailView>,
    names: Map<i32, Seq<char>>,
    responses: Seq<DetailResponseView>,
    i: int,
)
    requires
        0 <= i < responses.len(),
        rate_limited(responses[i].reply),
    ensures
        after_details(fetch, details, names, responses) matches NextView::Failed {
            error: PipelineError::RateLimited { status },
        } && is_rate_limit(status) && first_rate_limit(responses) == Some(status),
        forall|k: int|
            0 <= k < responses.len() && hydrated(#[trigger] responses[k].reply) is Some
                ==> merge_details(details, responses).contains_key(responses[k].killmail_id),
{
    lemma_first_rate_limit(responses);
    assert forall|k: int|
        0 <= k < responses.len() && hydrated(#[trigger] responses[k].reply) is Some implies merge_details(
        details,
        responses,
    ).contains_key(responses[k].killmail_id) by {
        lemma_merge_keeps_deliveries(details, responses, k);
    }
}

/// A name reply with status 429 or 420 fails the fetch with that status: no
/// further chunk goes out.
pub proof fn lemma_rate_limited_names_abort(
    fetch: FetchView,
    details: Map<i32, EsiKillmailView>,
    names: Map<i32, Seq<char>>,
    status: u16,
    body: Option<Seq<EsiNameEntryView>>,
)
    requires
        is_rate_limit(status),
    ensures
        after_names(fetch, details, names, NameReplyView::Answered { status, body })
            == (NextView::Failed { error: PipelineError::RateLimited { status } }),
        merge_names(names, delivered_names(NameReplyView::Answered { status, body })) == names,
{
}

/// The stop rule: a page that shows a kill older than the cutoff is the last
/// one asked for, and so is the last page allowed. Any other page is
/// followed, after the pause, by the request for the page after it.
pub proof fn lemma_stop_rule(
    fetch: FetchView,
    details: Map<i32, EsiKillmailView>,
    names: Map<i32, Seq<char>>,
)
    ensures
        reaches_cutoff(details, fetch.current, fetch.cutoff) || fetch.page >= MAX_PAGES
            ==> paging_is_over(page_closed(fetch, details, names)),
        !reaches_cutoff(details, fetch.current, fetch.cutoff) && fetch.page < MAX_PAGES ==> {
            &&& page_closed(fetch, details, names) matches NextView::Pause { fetch: waiting, millis }
            &&& millis == PAGE_PAUSE_MILLIS
            &&& waiting.page == fetch.page + 1
            &&& waiting.collected == fetch.collected + fetch.current
            &&& resumed(waiting) matches NextView::FetchList { fetch: asking, url }
            &&& asking.page == fetch.page + 1
            &&& url == list_url_of(fetch.entity, (fetch.page + 1) as u32)
        },
{
}

/// Once paging is over it stays over: no reply to a name request makes the
/// fetch ask for a list page or a detail again.
pub proof fn lemma_paging_stays_over(
    fetch: FetchView,
    details: Map<i32, EsiKillmailView>,
    names: Map<i32, Seq<char>>,
    reply: NameReplyView,
)
    ensures
        paging_is_over(names_step(fetch, details, names)),
        paging_is_over(paging_over(fetch, details, names)),
        paging_is_over(after_names(fetch, details, names, reply)),
{
}

/// A fetch never asks for a page beyond the last one allowed: it begins at
/// page 1, and a pause leads to a page within the limit.
pub proof fn lemma_pages_are_bounded(
    fetch: FetchView,
    details: Map<i32, EsiKillmailView>,
    names: Map<i32, Seq<char>>,
    entity: EntityReferenceView,
    cutoff: Instant,
)
    ensures
        begun(entity, cutoff) matches NextView::FetchList { fetch: first, url } && first.page == 1,
        page_closed(fetch, details, names) matches NextView::Pause { fetch: waiting, millis }
            ==> waiting.page <= MAX_PAGES,
{
}

/// No step of a fetch removes an entry from either cache nor changes one.
pub proof fn lemma_caches_only_grow(
    details: Map<i32, EsiKillmailView>,
    names: Map<i32, Seq<char>>,
    responses: Seq<DetailResponseView>,
    reply: NameReplyView,
)
    ensures
        extends(merge_details(details, responses), details),
        extends(merge_names(names, delivered_names(reply)), names),
{
    lemma_merge_extends(details, responses);
    lemma_merge_names_extends(names, delivered_names(reply));
}

/// A kill whose detail request ended in a silent miss, and which had no
/// record before, is absent from the output assembled after the batch; no
/// error comes of it.
pub proof fn lemma_silent_miss_is_left_out(
    details: Map<i32, EsiKillmailView>,
    names: Map<i32, Seq<char>>,
    responses: Seq<DetailResponseView>,
    items: Seq<RawZKillItemView>,
    id: i32,
)
    requires
        !details.contains_key(id),
        forall|i: int|
            0 <= i < responses.len() && #[trigger] responses[i].killmail_id == id ==> hydrated(
                responses[i].reply,
            ) is None,
    ensures
        forall|j: int|
            0 <= j < assembled(items, merge_details(details, responses), names).len() ==> (
            #[trigger] assembled(items, merge_details(details, responses), names)[j]).killmail_id
                != id,
{
    lemma_miss_leaves_absent(details, responses, id);
    lemma_unhydrated_never_appears(items, merge_details(details, responses), names, id);
}

} // verus!
