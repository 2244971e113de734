use crate::error::PipelineError;
use vstd::prelude::*;
use vstd::string::*;

verus! {

/// The kinds of entity whose kills can be listed.
#[derive(Clone, Copy, Debug, PartialEq, Eq, Structural)]
pub enum EntityKind {
    Corporation,
    Alliance,
    Character,
    SolarSystem,
    Region,
}

/// What a link points at: the kind of entity and the digits of its identifier
/// as the link wrote them.
#[derive(Debug, PartialEq, Eq)]
pub struct EntityReference {
    pub kind: EntityKind,
    pub id: String,
}

pub struct EntityReferenceView {
    pub kind: EntityKind,
    pub id: Seq<char>,
}

impl View for EntityReference {
    type V = EntityReferenceView;

    open spec fn view(&self) -> EntityReferenceView {
        EntityReferenceView { kind: self.kind, id: self.id@ }
    }
}

impl Clone for EntityReference {
    fn clone(&self) -> (r: Self)
        ensures
            r@ == self@,
    {
        EntityReference { kind: self.kind, id: self.id.clone() }
    }
}

/// The kind that a link's kind word stands for.
pub open spec fn kind_of_word(word: Seq<char>) -> Option<EntityKind> {
    if word == "corporation"@ {
        Some(EntityKind::Corporation)
    } else if word == "alliance"@ {
        Some(EntityKind::Alliance)
    } else if word == "character"@ {
        Some(EntityKind::Character)
    } else if word == "system"@ {
        Some(EntityKind::SolarSystem)
    } else if word == "region"@ {
        Some(EntityKind::Region)
    } else {
        None
    }
}

/// The name under which the list endpoint takes an identifier of `kind`.
pub open spec fn api_param_of(kind: EntityKind) -> Seq<char> {
    match kind {
        EntityKind::Corporation => "corporationID"@,
        EntityKind::Alliance => "allianceID"@,
        EntityKind::Character => "characterID"@,
        EntityKind::SolarSystem => "solarSystemID"@,
        EntityKind::Region => "regionID"@,
    }
}

impl EntityKind {
    /// Reads a link's kind word.
    pub fn from_word(word: &str) -> (r: Option<EntityKind>)
        ensures
            r == kind_of_word(word@),
    {
        let w = String::from_str(word);
        if w == String::from_str("corporation") {
            Some(EntityKind::Corporation)
        } else if w == String::from_str("alliance") {
            Some(EntityKind::Alliance)
        } else if w == String::from_str("character") {
            Some(EntityKind::Character)
        } else if w == String::from_str("system") {
            Some(EntityKind::SolarSystem)
        } else if w == String::from_str("region") {
            Some(EntityKind::Region)
        } else {
            None
        }
    }

    /// The query-parameter name of the list endpoint for this kind.
    pub fn api_param(&self) -> (r: &'static str)
        ensures
            r@ == api_param_of(*self),
    {
        match self {
            EntityKind::Corporation => "corporationID",
            EntityKind::Alliance => "allianceID",
            EntityKind::Character => "characterID",
            EntityKind::SolarSystem => "solarSystemID",
            EntityKind::Region => "regionID",
        }
    }
}

/// The pattern by which a link is found in free-form input: the host, a kind
/// word and a run of digits, separated by slashes.
pub const LINK_PATTERN: &'static str = r"zkillboard\.com/(?P<type>\w+)/(?P<id>\d+)";

/// The capture groups of the leftmost match of `pattern` in `haystack`, group
/// 0 (the whole match) first, each group absent where it took no part in the
/// match; `None` where `pattern` matches nowhere or is no valid pattern.
pub uninterp spec fn regex_captures(pattern: Seq<char>, haystack: Seq<char>) -> Option<
    Seq<Option<Seq<char>>>,
>;

/// The texts of a list of capture groups.
pub open spec fn groups_view(groups: Seq<Option<String>>) -> Seq<Option<Seq<char>>> {
    Seq::new(
        groups.len(),
        |i: int|
            match groups[i] {
                Some(text) => Some(text@),
                None => None,
            },
    )
}

pub open spec fn captures_view(captures: Option<Vec<Option<String>>>) -> Option<
    Seq<Option<Seq<char>>>,
> {
    match captures {
        Some(groups) => Some(groups_view(groups@)),
        None => None,
    }
}

/// Calls `regex::Regex::new` on `pattern` and `Regex::captures` on `haystack`,
/// and copies out the groups that `Captures::iter` yields. The contract claims
/// that the outcome depends on the two texts alone, and names it; a pattern
/// that does not compile gives `None`, as a haystack without a match does.
#[verifier::external_body]
fn first_captures(pattern: &str, haystack: &str) -> (r: Option<Vec<Option<String>>>)
    ensures
        captures_view(r) == regex_captures(pattern@, haystack@),
{
    match regex::Regex::new(pattern) {
        Ok(re) => re.captures(haystack).map(
            |caps| caps.iter().map(|m| m.map(|m| m.as_str().to_string())).collect(),
        ),
        Err(_) => None,
    }
}

/// The text of group `index`, empty where the group is absent.
pub open spec fn group_text(groups: Seq<Option<Seq<char>>>, index: int) -> Seq<char> {
    if 0 <= index < groups.len() {
        match groups[index] {
            Some(text) => text,
            None => Seq::empty(),
        }
    } else {
        Seq::empty()
    }
}

/// What a search for the link pattern amounts to: no match is an invalid
/// link; otherwise group 1 is the kind word and group 2 the identifier.
pub open spec fn link_entity(captures: Option<Seq<Option<Seq<char>>>>) -> Result<
    EntityReferenceView,
    PipelineError,
> {
    match captures {
        None => Err(PipelineError::InvalidLinkFormat),
        Some(groups) => match kind_of_word(group_text(groups, 1)) {
            Some(kind) => Ok(EntityReferenceView { kind, id: group_text(groups, 2) }),
            None => Err(PipelineError::UnsupportedEntityKind),
        },
    }
}

/// Whether `r` is the outcome `expected`, an entity taken by its view.
pub open spec fn entity_outcome_is(
    r: Result<EntityReference, PipelineError>,
    expected: Result<EntityReferenceView, PipelineError>,
) -> bool {
    match expected {
        Ok(entity) => r matches Ok(found) && found@ == entity,
        Err(error) => r matches Err(found) && found == error,
    }
}

fn group_string(groups: &Vec<Option<String>>, index: usize) -> (r: String)
    ensures
        r@ == group_text(groups_view(groups@), index as int),
{
    if index < groups.len() {
        match &groups[index] {
            Some(text) => text.clone(),
            None => String::new(),
        }
    } else {
        String::new()
    }
}

/// Turns the capture groups of a search for `LINK_PATTERN` into an entity
/// reference.
pub fn entity_from_captures(captures: Option<Vec<Option<String>>>) -> (r: Result<
    EntityReference,
    PipelineError,
>)
    ensures
        entity_outcome_is(r, link_entity(captures_view(captures))),
{
    match captures {
        None => Err(PipelineError::InvalidLinkFormat),
        Some(groups) => {
            let word = group_string(&groups, 1);
            let id = group_string(&groups, 2);
            match EntityKind::from_word(word.as_str()) {
                Some(kind) => Ok(EntityReference { kind, id }),
                None => Err(PipelineError::UnsupportedEntityKind),
            }
        },
    }
}

/// Extracts the entity that a user-supplied link points at.
pub fn parse_link(user_url: &str) -> (r: Result<EntityReference, PipelineError>)
    ensures
        entity_outcome_is(r, link_entity(regex_captures(LINK_PATTERN@, user_url@))),
{
    entity_from_captures(first_captures(LINK_PATTERN, user_url))
}

/// Input in which the pattern matches nowhere is an invalid link.
pub proof fn lemma_unmatched_input_is_invalid(haystack: Seq<char>)
    requires
        regex_captures(LINK_PATTERN@, haystack) is None,
    ensures
        link_entity(regex_captures(LINK_PATTERN@, haystack)) == Err::<
            EntityReferenceView,
            PipelineError,
        >(PipelineError::InvalidLinkFormat),
{
}

/// Each of the five kind words selects its own query parameter, and a match
/// with any other word is rejected as an unsupported kind.
pub proof fn lemma_kind_table(groups: Seq<Option<Seq<char>>>)
    ensures
        kind_of_word("corporation"@) == Some(EntityKind::Corporation),
        kind_of_word("alliance"@) == Some(EntityKind::Alliance),
        kind_of_word("character"@) == Some(EntityKind::Character),
        kind_of_word("system"@) == Some(EntityKind::SolarSystem),
        kind_of_word("region"@) == Some(EntityKind::Region),
        api_param_of(EntityKind::Corporation) == "corporationID"@,
        api_param_of(EntityKind::Alliance) == "allianceID"@,
        api_param_of(EntityKind::Character) == "characterID"@,
        api_param_of(EntityKind::SolarSystem) == "solarSystemID"@,
        api_param_of(EntityKind::Region) == "regionID"@,
        link_entity(Some(groups)) matches Ok(entity) ==> entity.id == group_text(groups, 2)
            && kind_of_word(group_text(groups, 1)) == Some(entity.kind),
        kind_of_word(group_text(groups, 1)) is None ==> link_entity(Some(groups)) == Err::<
            EntityReferenceView,
            PipelineError,
        >(PipelineError::UnsupportedEntityKind),
{
    reveal_strlit("corporation");
    reveal_strlit("alliance");
    reveal_strlit("character");
    reveal_strlit("system");
    reveal_strlit("region");
    assert("corporation"@.len() == 11);
    assert("alliance"@.len() == 8);
    assert("character"@.len() == 9);
    assert("system"@[0] == 's');
    assert("region"@[0] == 'r');
}

} // verus!
