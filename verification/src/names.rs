use crate::cache::{extends, put_once, DetailCache, NameCache};
use crate::error::{is_rate_limit, is_success, status_is_rate_limit, status_is_success, PipelineError};
use crate::models::{views, worthwhile, EsiAttacker, EsiKillmail, EsiKillmailView, EsiNameEntry, EsiNameEntryView, RawZKillItem, RawZKillItemView};
use std::collections::HashSet;
use vstd::prelude::*;

verus! {

broadcast use vstd::std_specs::hash::group_hash_axioms;

/// The bulk name endpoint takes no more than this many identifiers at once.
pub const NAME_CHUNK: usize = 1000;

/// The address of the bulk name endpoint.
pub const NAMES_URL: &'static str =
    "https://esi.evetech.net/v1/universe/names/?datasource=tranquility";

/// The identifier in `id`, if there is one, as a sequence.
pub open spec fn present(id: Option<i32>) -> Seq<i32> {
    match id {
        Some(id) => seq![id],
        None => Seq::empty(),
    }
}

/// The character identifiers of the attackers, in order.
pub open spec fn attacker_ids(attackers: Seq<EsiAttacker>) -> Seq<i32>
    decreases attackers.len(),
{
    if attackers.len() == 0 {
        Seq::empty()
    } else {
        attacker_ids(attackers.drop_last()) + present(attackers.last().character_id)
    }
}

/// The identifiers of a record whose names are shown: the victim's character
/// and corporation, the ship type, the solar system, and each attacker's
/// character.
pub open spec fn participants(detail: EsiKillmailView) -> Seq<i32> {
    present(detail.victim.character_id) + present(detail.victim.corporation_id)
        + seq![detail.victim.ship_type_id, detail.solar_system_id] + attacker_ids(detail.attackers)
}

/// The identifiers to look at for a list of summaries: the participants of
/// every worthwhile summary whose record is in the cache, in list order.
pub open spec fn candidates(details: Map<i32, EsiKillmailView>, items: Seq<RawZKillItemView>) -> Seq<
    i32,
>
    decreases items.len(),
{
    if items.len() == 0 {
        Seq::empty()
    } else {
        let item = items.last();
        let front = candidates(details, items.drop_last());
        if worthwhile(item) && details.contains_key(item.killmail_id) {
            front + participants(details[item.killmail_id])
        } else {
            front
        }
    }
}

/// The identifiers still to resolve: those of `ids` that have no name yet,
/// each once, in the order of first appearance.
pub open spec fn wanted(names: Map<i32, Seq<char>>, ids: Seq<i32>) -> Seq<i32>
    decreases ids.len(),
{
    if ids.len() == 0 {
        Seq::empty()
    } else {
        let front = wanted(names, ids.drop_last());
        if names.contains_key(ids.last()) || front.contains(ids.last()) {
            front
        } else {
            front.push(ids.last())
        }
    }
}

/// No identifier is asked for twice, none that has a name is asked for, and
/// none without a name is left out.
pub proof fn lemma_wanted(names: Map<i32, Seq<char>>, ids: Seq<i32>)
    ensures
        wanted(names, ids).no_duplicates(),
        forall|id: i32| #[trigger]
            wanted(names, ids).contains(id) <==> ids.contains(id) && !names.contains_key(id),
        wanted(names, ids).len() <= ids.len(),
    decreases ids.len(),
{
    if ids.len() > 0 {
        let front_ids = ids.drop_last();
        lemma_wanted(names, front_ids);
        let front = wanted(names, front_ids);
        let all = wanted(names, ids);
        let last = ids.last();
        assert forall|id: i32| #[trigger]
            all.contains(id) <==> ids.contains(id) && !names.contains_key(id) by {
            if all.contains(id) {
                let j = choose|j: int| 0 <= j < all.len() && all[j] == id;
                if j < front.len() {
                    assert(front[j] == id);
                    assert(front.contains(id));
                    let k = choose|k: int| 0 <= k < front_ids.len() && front_ids[k] == id;
                    assert(ids[k] == id);
                } else {
                    assert(ids[ids.len() - 1] == id);
                }
            }
            if ids.contains(id) && !names.contains_key(id) {
                let k = choose|k: int| 0 <= k < ids.len() && ids[k] == id;
                if k < front_ids.len() {
                    assert(front_ids[k] == id);
                    assert(front.contains(id));
                    let j = choose|j: int| 0 <= j < front.len() && front[j] == id;
                    assert(all[j] == id);
                } else if front.contains(id) {
                    let j = choose|j: int| 0 <= j < front.len() && front[j] == id;
                    assert(all[j] == id);
                } else {
                    assert(all[all.len() - 1] == id);
                }
            }
        }
    }
}

fn push_present(out: &mut Vec<i32>, id: Option<i32>)
    ensures
        final(out)@ == old(out)@ + present(id),
{
    match id {
        Some(id) => {
            out.push(id);
            assert(out@ =~= old(out)@ + present(Some(id)));
        },
        None => {
            assert(out@ =~= old(out)@ + present(None));
        },
    }
}

fn push_participants(out: &mut Vec<i32>, detail: &EsiKillmail)
    ensures
        final(out)@ == old(out)@ + participants(detail@),
{
    push_present(out, detail.victim.character_id);
    push_present(out, detail.victim.corporation_id);
    out.push(detail.victim.ship_type_id);
    out.push(detail.solar_system_id);
    let ghost head = out@;
    assert(head =~= old(out)@ + present(detail.victim.character_id) + present(
        detail.victim.corporation_id,
    ) + seq![detail.victim.ship_type_id, detail.solar_system_id]);
    let mut i: usize = 0;
    while i < detail.attackers.len()
        invariant
            i <= detail.attackers.len(),
            out@ == head + attacker_ids(detail.attackers@.take(i as int)),
        decreases detail.attackers.len() - i,
    {
        proof {
            assert(detail.attackers@.take(i + 1).drop_last() =~= detail.attackers@.take(i as int));
        }
        push_present(out, detail.attackers[i].character_id);
        assert(out@ =~= head + attacker_ids(detail.attackers@.take(i + 1)));
        i += 1;
    }
    proof {
        assert(detail.attackers@.take(i as int) =~= detail.attackers@);
        assert(out@ =~= old(out)@ + participants(detail@));
    }
}

/// Collects the identifiers whose names the kills of `items` show.
pub fn candidate_ids(details: &DetailCache, items: &Vec<RawZKillItem>) -> (r: Vec<i32>)
    ensures
        r@ == candidates(details@, views(items@)),
{
    let mut out: Vec<i32> = Vec::new();
    let mut i: usize = 0;
    while i < items.len()
        invariant
            i <= items.len(),
            out@ == candidates(details@, views(items@).take(i as int)),
        decreases items.len() - i,
    {
        proof {
            assert(views(items@).take(i + 1).drop_last() =~= views(items@).take(i as int));
            assert(views(items@).take(i + 1).last() == items@[i as int]@);
        }
        if items[i].is_worthwhile() {
            match details.get(items[i].killmail_id) {
                Some(detail) => {
                    push_participants(&mut out, detail);
                },
                None => {},
            }
        }
        i += 1;
    }
    proof {
        assert(views(items@).take(i as int) =~= views(items@));
    }
    out
}

/// Keeps of `ids` those that have no name yet, each once.
pub fn unresolved_ids(names: &NameCache, ids: &Vec<i32>) -> (r: Vec<i32>)
    ensures
        r@ == wanted(names@, ids@),
{
    let mut out: Vec<i32> = Vec::new();
    let mut seen: HashSet<i32> = HashSet::new();
    let mut i: usize = 0;
    while i < ids.len()
        invariant
            i <= ids.len(),
            out@ == wanted(names@, ids@.take(i as int)),
            forall|id: i32| seen@.contains(id) <==> out@.contains(id),
        decreases ids.len() - i,
    {
        proof {
            assert(ids@.take(i + 1).drop_last() =~= ids@.take(i as int));
        }
        let id = ids[i];
        if !names.contains(id) && !seen.contains(&id) {
            let ghost before = out@;
            seen.insert(id);
            out.push(id);
            proof {
                assert(before.push(id).last() == id);
                assert forall|x: i32| seen@.contains(x) <==> out@.contains(x) by {
                    if out@.contains(x) {
                        let j = choose|j: int| 0 <= j < out@.len() && out@[j] == x;
                        if j < before.len() {
                            assert(before[j] == x);
                        }
                    }
                    if before.contains(x) {
                        let j = choose|j: int| 0 <= j < before.len() && before[j] == x;
                        assert(out@[j] == x);
                    }
                    if x == id {
                        assert(out@[out@.len() - 1] == x);
                    }
                }
            }
        }
        i += 1;
    }
    proof {
        assert(ids@.take(i as int) =~= ids@);
    }
    out
}

/// The part of `ids` that goes out in one request when the first `sent` have
/// gone out already: the next `NAME_CHUNK` of them, or what is left.
pub open spec fn chunk_at(ids: Seq<i32>, sent: int) -> Seq<i32> {
    if 0 <= sent < ids.len() {
        if sent + NAME_CHUNK <= ids.len() {
            ids.subrange(sent, sent + NAME_CHUNK)
        } else {
            ids.subrange(sent, ids.len() as int)
        }
    } else {
        Seq::empty()
    }
}

/// Cuts the next chunk out of `ids`.
pub fn next_chunk(ids: &Vec<i32>, sent: usize) -> (r: Vec<i32>)
    ensures
        r@ == chunk_at(ids@, sent as int),
{
    let mut out: Vec<i32> = Vec::new();
    if sent >= ids.len() {
        return out;
    }
    let end: usize = if ids.len() - sent >= NAME_CHUNK {
        sent + NAME_CHUNK
    } else {
        ids.len()
    };
    let mut i: usize = sent;
    while i < end
        invariant
            sent <= i <= end <= ids.len(),
            out@ == ids@.subrange(sent as int, i as int),
        decreases end - i,
    {
        out.push(ids[i]);
        assert(out@ =~= ids@.subrange(sent as int, i + 1));
        i += 1;
    }
    out
}

/// A chunk is never longer than `NAME_CHUNK`, is empty only when nothing is
/// left, and the chunks taken one after the other make up the whole list.
pub proof fn lemma_chunks_partition(ids: Seq<i32>, sent: int)
    requires
        0 <= sent <= ids.len(),
    ensures
        chunk_at(ids, sent).len() <= NAME_CHUNK,
        sent < ids.len() ==> chunk_at(ids, sent).len() > 0,
        ids.subrange(0, sent) + chunk_at(ids, sent) == ids.subrange(
            0,
            sent + chunk_at(ids, sent).len(),
        ),
{
    assert(ids.subrange(0, sent) + chunk_at(ids, sent) =~= ids.subrange(
        0,
        sent + chunk_at(ids, sent).len(),
    ));
}

/// How one name-resolution request ended.
#[derive(Debug, PartialEq, Eq)]
pub enum NameReply {
    /// No answer came: the request failed below HTTP.
    Unreachable,
    /// An answer came. `body` is the list of entries that the body holds,
    /// `None` where the body holds none or was not read.
    Answered { status: u16, body: Option<Vec<EsiNameEntry>> },
}

pub enum NameReplyView {
    Unreachable,
    Answered { status: u16, body: Option<Seq<EsiNameEntryView>> },
}

impl View for NameReply {
    type V = NameReplyView;

    open spec fn view(&self) -> NameReplyView {
        match self {
            NameReply::Unreachable => NameReplyView::Unreachable,
            NameReply::Answered { status, body } => NameReplyView::Answered {
                status: *status,
                body: match body {
                    Some(entries) => Some(views(entries@)),
                    None => None,
                },
            },
        }
    }
}

/// The entries that a reply delivers: those of a success status with a
/// readable body, none otherwise.
pub open spec fn delivered_names(reply: NameReplyView) -> Seq<EsiNameEntryView> {
    match reply {
        NameReplyView::Answered { status, body: Some(entries) } => if is_success(status) {
            entries
        } else {
            Seq::empty()
        },
        _ => Seq::empty(),
    }
}

/// What a reply amounts to: the rate-limit error where its status is 429 or
/// 420; anything else lets the resolver go on.
pub open spec fn name_verdict(reply: NameReplyView) -> Result<(), PipelineError> {
    match reply {
        NameReplyView::Answered { status, body } => if !is_success(status) && is_rate_limit(status) {
            Err(PipelineError::RateLimited { status })
        } else {
            Ok(())
        },
        NameReplyView::Unreachable => Ok(()),
    }
}

/// The name cache after a list of entries: each is stored, in order, unless
/// its identifier already has a name.
pub open spec fn merge_names(names: Map<i32, Seq<char>>, entries: Seq<EsiNameEntryView>) -> Map<
    i32,
    Seq<char>,
>
    decreases entries.len(),
{
    if entries.len() == 0 {
        names
    } else {
        put_once(merge_names(names, entries.drop_last()), entries.last().id, entries.last().name)
    }
}

/// Entries never remove a name nor change one, and each entry's identifier
/// has a name afterwards.
pub proof fn lemma_merge_names_extends(names: Map<i32, Seq<char>>, entries: Seq<EsiNameEntryView>)
    ensures
        extends(merge_names(names, entries), names),
        forall|i: int|
            0 <= i < entries.len() ==> merge_names(names, entries).contains_key(
                (#[trigger] entries[i]).id,
            ),
    decreases entries.len(),
{
    if entries.len() > 0 {
        let front = entries.drop_last();
        lemma_merge_names_extends(names, front);
        assert forall|i: int| 0 <= i < entries.len() implies merge_names(
            names,
            entries,
        ).contains_key((#[trigger] entries[i]).id) by {
            if i < front.len() {
                assert(front[i] == entries[i]);
            }
        }
    }
}

fn store_names(names: &mut NameCache, entries: Vec<EsiNameEntry>)
    ensures
        final(names)@ == merge_names(old(names)@, views(entries@)),
{
    let ghost all = views(entries@);
    let ghost start = names@;
    for entry in it: entries
        invariant
            views(it.seq()) == all,
            names@ == merge_names(start, all.take(it.index() as int)),
    {
        proof {
            assert(all.take(it.index() + 1).drop_last() =~= all.take(it.index() as int));
            assert(all.take(it.index() + 1).last() == entry@);
        }
        names.put(entry.id, entry.name);
    }
    proof {
        assert(all.take(all.len() as int) =~= all);
    }
}

/// Takes in the reply to one name-resolution request.
pub fn resolve(names: &mut NameCache, reply: NameReply) -> (r: Result<(), PipelineError>)
    ensures
        final(names)@ == merge_names(old(names)@, delivered_names(reply@)),
        extends(final(names)@, old(names)@),
        r == name_verdict(reply@),
{
    proof {
        lemma_merge_names_extends(names@, delivered_names(reply@));
    }
    match reply {
        NameReply::Unreachable => Ok(()),
        NameReply::Answered { status, body } => {
            if status_is_success(status) {
                match body {
                    Some(entries) => {
                        store_names(names, entries);
                    },
                    None => {},
                }
                Ok(())
            } else if status_is_rate_limit(status) {
                Err(PipelineError::RateLimited { status })
            } else {
                Ok(())
            }
        },
    }
}

} // verus!
