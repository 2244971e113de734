use crate::cache::{DetailCache, NameCache};
use crate::models::{text_of, views, worthwhile, Attacker, AttackerView, EsiAttacker, EsiKillmail, EsiKillmailView, Killmail, KillmailView, RawZKillItem, RawZKillItemView, Victim, VictimView};
use vstd::prelude::*;

verus! {

/// The name on record for `id`, absent where there is none.
pub open spec fn name_of(names: Map<i32, Seq<char>>, id: i32) -> Option<Seq<char>> {
    if names.contains_key(id) {
        Some(names[id])
    } else {
        None
    }
}

/// The name on record for an identifier that may itself be absent.
pub open spec fn name_of_known(names: Map<i32, Seq<char>>, id: Option<i32>) -> Option<Seq<char>> {
    match id {
        Some(id) => name_of(names, id),
        None => None,
    }
}

pub open spec fn victim_of(detail: EsiKillmailView, names: Map<i32, Seq<char>>) -> VictimView {
    VictimView {
        character_id: detail.victim.character_id,
        character_name: name_of_known(names, detail.victim.character_id),
        corporation_name: name_of_known(names, detail.victim.corporation_id),
        ship_type_id: detail.victim.ship_type_id,
        ship_type_name: name_of(names, detail.victim.ship_type_id),
    }
}

pub open spec fn attacker_of(attacker: EsiAttacker, names: Map<i32, Seq<char>>) -> AttackerView {
    AttackerView {
        character_id: attacker.character_id,
        character_name: name_of_known(names, attacker.character_id),
        corporation_id: attacker.corporation_id,
        final_blow: attacker.final_blow,
    }
}

/// The record handed out for a summary and its detail: the summary's value
/// figures, the detail's participants and time, and the names that are on
/// record. A name that is not on record is absent, never an error.
pub open spec fn kill_of(
    item: RawZKillItemView,
    detail: EsiKillmailView,
    names: Map<i32, Seq<char>>,
) -> KillmailView {
    KillmailView {
        killmail_id: item.killmail_id,
        zkb: item.zkb,
        victim: Some(victim_of(detail, names)),
        attackers: Seq::new(detail.attackers.len(), |i: int| attacker_of(detail.attackers[i], names)),
        killmail_time: detail.killmail_time,
        solar_system_id: detail.solar_system_id,
        solar_system_name: name_of(names, detail.solar_system_id),
        is_active: true,
    }
}

/// Whether a summary makes it into the output: something of value dropped,
/// and the kill's record is in the cache.
pub open spec fn kept(item: RawZKillItemView, details: Map<i32, EsiKillmailView>) -> bool {
    worthwhile(item) && details.contains_key(item.killmail_id)
}

/// The output for a list of summaries: one record for each summary that is
/// kept, in list order.
pub open spec fn assembled(
    items: Seq<RawZKillItemView>,
    details: Map<i32, EsiKillmailView>,
    names: Map<i32, Seq<char>>,
) -> Seq<KillmailView>
    decreases items.len(),
{
    if items.len() == 0 {
        Seq::empty()
    } else {
        let front = assembled(items.drop_last(), details, names);
        if kept(items.last(), details) {
            front.push(kill_of(items.last(), details[items.last().killmail_id], names))
        } else {
            front
        }
    }
}

fn lookup(names: &NameCache, id: i32) -> (r: Option<String>)
    ensures
        text_of(r) == name_of(names@, id),
{
    match names.get(id) {
        Some(name) => Some(name.clone()),
        None => None,
    }
}

fn lookup_known(names: &NameCache, id: Option<i32>) -> (r: Option<String>)
    ensures
        text_of(r) == name_of_known(names@, id),
{
    match id {
        Some(id) => lookup(names, id),
        None => None,
    }
}

/// Joins one summary with its detail record and the names on record.
pub fn assemble_kill(item: &RawZKillItem, detail: &EsiKillmail, names: &NameCache) -> (r: Killmail)
    ensures
        r@ == kill_of(item@, detail@, names@),
{
    let victim = Victim {
        character_id: detail.victim.character_id,
        character_name: lookup_known(names, detail.victim.character_id),
        corporation_name: lookup_known(names, detail.victim.corporation_id),
        ship_type_id: detail.victim.ship_type_id,
        ship_type_name: lookup(names, detail.victim.ship_type_id),
    };
    let mut attackers: Vec<Attacker> = Vec::new();
    let mut i: usize = 0;
    while i < detail.attackers.len()
        invariant
            i <= detail.attackers.len(),
            attackers@.len() == i,
            forall|j: int|
                0 <= j < i ==> (#[trigger] attackers@[j])@ == attacker_of(
                    detail.attackers@[j],
                    names@,
                ),
        decreases detail.attackers.len() - i,
    {
        let attacker = detail.attackers[i];
        attackers.push(
            Attacker {
                character_id: attacker.character_id,
                character_name: lookup_known(names, attacker.character_id),
                corporation_id: attacker.corporation_id,
                final_blow: attacker.final_blow,
            },
        );
        i += 1;
    }
    let kill = Killmail {
        killmail_id: item.killmail_id,
        zkb: item.zkb.clone(),
        victim: Some(victim),
        attackers,
        killmail_time: detail.killmail_time.clone(),
        solar_system_id: detail.solar_system_id,
        solar_system_name: lookup(names, detail.solar_system_id),
        is_active: true,
    };
    proof {
        assert(kill@.attackers =~= kill_of(item@, detail@, names@).attackers);
    }
    kill
}

/// Builds the output: a record for each summary of positive dropped value
/// whose detail is in the cache. The others are left out; none is an error.
pub fn assemble(items: &Vec<RawZKillItem>, details: &DetailCache, names: &NameCache) -> (r: Vec<
    Killmail,
>)
    ensures
        views(r@) == assembled(views(items@), details@, names@),
{
    let mut out: Vec<Killmail> = Vec::new();
    let mut i: usize = 0;
    while i < items.len()
        invariant
            i <= items.len(),
            views(out@) == assembled(views(items@).take(i as int), details@, names@),
        decreases items.len() - i,
    {
        proof {
            assert(views(items@).take(i + 1).drop_last() =~= views(items@).take(i as int));
            assert(views(items@).take(i + 1).last() == items@[i as int]@);
        }
        if items[i].is_worthwhile() {
            match details.get(items[i].killmail_id) {
                Some(detail) => {
                    let ghost before = views(out@);
                    let kill = assemble_kill(&items[i], detail, names);
                    out.push(kill);
                    assert(views(out@) =~= before.push(kill@));
                },
                None => {},
            }
        }
        i += 1;
    }
    proof {
        assert(views(items@).take(i as int) =~= views(items@));
    }
    out
}

/// Every record of the output stems from a summary that is kept: its dropped
/// value is positive and its kill has a record in the cache. And every
/// summary that is kept has its record in the output.
pub proof fn lemma_assembled(
    items: Seq<RawZKillItemView>,
    details: Map<i32, EsiKillmailView>,
    names: Map<i32, Seq<char>>,
)
    ensures
        forall|j: int|
            0 <= j < assembled(items, details, names).len() ==> {
                let kill = #[trigger] assembled(items, details, names)[j];
                &&& kill.zkb.dropped_value > 0
                &&& details.contains_key(kill.killmail_id)
                &&& exists|i: int|
                    0 <= i < items.len() && kept(items[i], details) && kill == kill_of(
                        #[trigger] items[i],
                        details[items[i].killmail_id],
                        names,
                    )
            },
        forall|i: int|
            0 <= i < items.len() && kept(#[trigger] items[i], details) ==> assembled(
                items,
                details,
                names,
            ).contains(kill_of(items[i], details[items[i].killmail_id], names)),
        assembled(items, details, names).len() <= items.len(),
    decreases items.len(),
{
    if items.len() > 0 {
        let front_items = items.drop_last();
        lemma_assembled(front_items, details, names);
        let front = assembled(front_items, details, names);
        let all = assembled(items, details, names);
        assert forall|j: int| 0 <= j < all.len() implies {
            let kill = #[trigger] all[j];
            &&& kill.zkb.dropped_value > 0
            &&& details.contains_key(kill.killmail_id)
            &&& exists|i: int|
                0 <= i < items.len() && kept(items[i], details) && kill == kill_of(
                    #[trigger] items[i],
                    details[items[i].killmail_id],
                    names,
                )
        } by {
            let kill = all[j];
            if j < front.len() {
                assert(front[j] == kill);
                let i = choose|i: int|
                    0 <= i < front_items.len() && kept(front_items[i], details) && kill == kill_of(
                        #[trigger] front_items[i],
                        details[front_items[i].killmail_id],
                        names,
                    );
                assert(items[i] == front_items[i]);
            } else {
                let i = items.len() - 1;
                assert(kill == kill_of(items[i], details[items[i].killmail_id], names));
            }
        }
        assert forall|i: int| 0 <= i < items.len() && kept(#[trigger] items[i], details) implies all.contains(
            kill_of(items[i], details[items[i].killmail_id], names),
        ) by {
            let kill = kill_of(items[i], details[items[i].killmail_id], names);
            if i < front_items.len() {
                assert(front_items[i] == items[i]);
                let j = choose|j: int| 0 <= j < front.len() && front[j] == kill;
                assert(all[j] == kill);
            } else {
                assert(all[all.len() - 1] == kill);
            }
        }
    }
}

/// A summary whose dropped value is not positive has no record in the output,
/// whether or not its detail is known.
pub proof fn lemma_worthless_never_appears(
    items: Seq<RawZKillItemView>,
    details: Map<i32, EsiKillmailView>,
    names: Map<i32, Seq<char>>,
    j: int,
)
    requires
        0 <= j < assembled(items, details, names).len(),
    ensures
        assembled(items, details, names)[j].zkb.dropped_value > 0,
{
    lemma_assembled(items, details, names);
}

/// A kill without a record in the cache has no record in the output.
pub proof fn lemma_unhydrated_never_appears(
    items: Seq<RawZKillItemView>,
    details: Map<i32, EsiKillmailView>,
    names: Map<i32, Seq<char>>,
    id: i32,
)
    requires
        !details.contains_key(id),
    ensures
        forall|j: int|
            0 <= j < assembled(items, details, names).len() ==> (#[trigger] assembled(
                items,
                details,
                names,
            )[j]).killmail_id != id,
{
    lemma_assembled(items, details, names);
}

} // verus!
