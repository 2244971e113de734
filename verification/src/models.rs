use vstd::prelude::*;

verus! {

/// The views of the elements of `s`, in order.
pub open spec fn views<T: View>(s: Seq<T>) -> Seq<T::V> {
    Seq::new(s.len(), |i: int| s[i]@)
}

/// The text of an optional string.
pub open spec fn text_of(s: Option<String>) -> Option<Seq<char>> {
    match s {
        Some(text) => Some(text@),
        None => None,
    }
}

pub fn default_true() -> (r: bool)
    ensures
        r,
{
    true
}

/// Value metadata of a kill. Amounts are in hundredths of an ISK.
#[derive(Debug, PartialEq, Eq)]
pub struct ZkbStats {
    pub location_id: i32,
    /// The token without which the detail endpoint does not answer.
    pub hash: String,
    pub fitted_value: i64,
    pub dropped_value: i64,
    pub destroyed_value: i64,
    pub total_value: i64,
}

pub struct ZkbStatsView {
    pub location_id: i32,
    pub hash: Seq<char>,
    pub fitted_value: i64,
    pub dropped_value: i64,
    pub destroyed_value: i64,
    pub total_value: i64,
}

impl View for ZkbStats {
    type V = ZkbStatsView;

    open spec fn view(&self) -> ZkbStatsView {
        ZkbStatsView {
            location_id: self.location_id,
            hash: self.hash@,
            fitted_value: self.fitted_value,
            dropped_value: self.dropped_value,
            destroyed_value: self.destroyed_value,
            total_value: self.total_value,
        }
    }
}

impl Clone for ZkbStats {
    fn clone(&self) -> (r: Self)
        ensures
            r@ == self@,
    {
        ZkbStats {
            location_id: self.location_id,
            hash: self.hash.clone(),
            fitted_value: self.fitted_value,
            dropped_value: self.dropped_value,
            destroyed_value: self.destroyed_value,
            total_value: self.total_value,
        }
    }
}

/// One entry of a list page: a kill known by its identifier and value only.
#[derive(Debug, PartialEq, Eq)]
pub struct RawZKillItem {
    pub killmail_id: i32,
    pub zkb: ZkbStats,
}

pub struct RawZKillItemView {
    pub killmail_id: i32,
    pub zkb: ZkbStatsView,
}

impl View for RawZKillItem {
    type V = RawZKillItemView;

    open spec fn view(&self) -> RawZKillItemView {
        RawZKillItemView { killmail_id: self.killmail_id, zkb: self.zkb@ }
    }
}

impl Clone for RawZKillItem {
    fn clone(&self) -> (r: Self)
        ensures
            r@ == self@,
    {
        RawZKillItem { killmail_id: self.killmail_id, zkb: self.zkb.clone() }
    }
}

/// A summary is worth keeping when something of value dropped.
pub open spec fn worthwhile(item: RawZKillItemView) -> bool {
    item.zkb.dropped_value > 0
}

impl RawZKillItem {
    pub fn is_worthwhile(&self) -> (r: bool)
        ensures
            r == worthwhile(self@),
    {
        self.zkb.dropped_value > 0
    }
}

/// The victim as the detail endpoint reports it.
#[derive(Clone, Copy, Debug, PartialEq, Eq, Structural)]
pub struct EsiVictim {
    pub character_id: Option<i32>,
    pub corporation_id: Option<i32>,
    pub ship_type_id: i32,
}

/// One attacker as the detail endpoint reports it.
#[derive(Clone, Copy, Debug, PartialEq, Eq, Structural)]
pub struct EsiAttacker {
    pub character_id: Option<i32>,
    pub corporation_id: Option<i32>,
    pub final_blow: bool,
}

/// The authoritative record of one kill.
#[derive(Debug, PartialEq, Eq)]
pub struct EsiKillmail {
    /// When the kill happened, as the wire wrote it.
    pub killmail_time: String,
    pub victim: EsiVictim,
    pub attackers: Vec<EsiAttacker>,
    pub solar_system_id: i32,
}

pub struct EsiKillmailView {
    pub killmail_time: Seq<char>,
    pub victim: EsiVictim,
    pub attackers: Seq<EsiAttacker>,
    pub solar_system_id: i32,
}

impl View for EsiKillmail {
    type V = EsiKillmailView;

    open spec fn view(&self) -> EsiKillmailView {
        EsiKillmailView {
            killmail_time: self.killmail_time@,
            victim: self.victim,
            attackers: self.attackers@,
            solar_system_id: self.solar_system_id,
        }
    }
}

impl Clone for EsiKillmail {
    fn clone(&self) -> (r: Self)
        ensures
            r@ == self@,
    {
        let mut attackers: Vec<EsiAttacker> = Vec::new();
        let mut i: usize = 0;
        while i < self.attackers.len()
            invariant
                i <= self.attackers.len(),
                attackers@ == self.attackers@.take(i as int),
            decreases self.attackers.len() - i,
        {
            attackers.push(self.attackers[i]);
            proof {
                assert(attackers@ =~= self.attackers@.take(i + 1));
            }
            i += 1;
        }
        proof {
            assert(self.attackers@.take(i as int) =~= self.attackers@);
        }
        EsiKillmail {
            killmail_time: self.killmail_time.clone(),
            victim: self.victim,
            attackers,
            solar_system_id: self.solar_system_id,
        }
    }
}

/// One entry of a name-resolution reply.
#[derive(Debug, PartialEq, Eq)]
pub struct EsiNameEntry {
    pub id: i32,
    pub name: String,
    pub category: String,
}

pub struct EsiNameEntryView {
    pub id: i32,
    pub name: Seq<char>,
    pub category: Seq<char>,
}

impl View for EsiNameEntry {
    type V = EsiNameEntryView;

    open spec fn view(&self) -> EsiNameEntryView {
        EsiNameEntryView { id: self.id, name: self.name@, category: self.category@ }
    }
}

impl Clone for EsiNameEntry {
    fn clone(&self) -> (r: Self)
        ensures
            r@ == self@,
    {
        EsiNameEntry { id: self.id, name: self.name.clone(), category: self.category.clone() }
    }
}

/// The victim of an assembled kill, names filled in where they are known.
#[derive(Clone, Debug, PartialEq, Eq)]
pub struct Victim {
    pub character_id: Option<i32>,
    pub character_name: Option<String>,
    pub corporation_name: Option<String>,
    pub ship_type_id: i32,
    pub ship_type_name: Option<String>,
}

pub struct VictimView {
    pub character_id: Option<i32>,
    pub character_name: Option<Seq<char>>,
    pub corporation_name: Option<Seq<char>>,
    pub ship_type_id: i32,
    pub ship_type_name: Option<Seq<char>>,
}

impl View for Victim {
    type V = VictimView;

    open spec fn view(&self) -> VictimView {
        VictimView {
            character_id: self.character_id,
            character_name: text_of(self.character_name),
            corporation_name: text_of(self.corporation_name),
            ship_type_id: self.ship_type_id,
            ship_type_name: text_of(self.ship_type_name),
        }
    }
}

/// One attacker of an assembled kill.
#[derive(Clone, Debug, PartialEq, Eq)]
pub struct Attacker {
    pub character_id: Option<i32>,
    pub character_name: Option<String>,
    pub corporation_id: Option<i32>,
    pub final_blow: bool,
}

pub struct AttackerView {
    pub character_id: Option<i32>,
    pub character_name: Option<Seq<char>>,
    pub corporation_id: Option<i32>,
    pub final_blow: bool,
}

impl View for Attacker {
    type V = AttackerView;

    open spec fn view(&self) -> AttackerView {
        AttackerView {
            character_id: self.character_id,
            character_name: text_of(self.character_name),
            corporation_id: self.corporation_id,
            final_blow: self.final_blow,
        }
    }
}

/// A kill as the pipeline hands it out: the summary joined with its detail
/// and with the names of those who took part.
#[derive(Clone, Debug, PartialEq, Eq)]
pub struct Killmail {
    pub killmail_id: i32,
    pub zkb: ZkbStats,
    pub victim: Option<Victim>,
    pub attackers: Vec<Attacker>,
    pub killmail_time: String,
    pub solar_system_id: i32,
    pub solar_system_name: Option<String>,
    pub is_active: bool,
}

pub struct KillmailView {
    pub killmail_id: i32,
    pub zkb: ZkbStatsView,
    pub victim: Option<VictimView>,
    pub attackers: Seq<AttackerView>,
    pub killmail_time: Seq<char>,
    pub solar_system_id: i32,
    pub solar_system_name: Option<Seq<char>>,
    pub is_active: bool,
}

impl View for Killmail {
    type V = KillmailView;

    open spec fn view(&self) -> KillmailView {
        KillmailView {
            killmail_id: self.killmail_id,
            zkb: self.zkb@,
            victim: match self.victim {
                Some(v) => Some(v@),
                None => None,
            },
            attackers: views(self.attackers@),
            killmail_time: self.killmail_time@,
            solar_system_id: self.solar_system_id,
            solar_system_name: text_of(self.solar_system_name),
            is_active: self.is_active,
        }
    }
}

} // verus!
