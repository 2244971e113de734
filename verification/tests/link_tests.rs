use eve_looter::error::PipelineError;
use eve_looter::link::{entity_from_captures, parse_link, EntityKind, EntityReference};

fn entity(kind: EntityKind, id: &str) -> EntityReference {
    EntityReference { kind, id: id.to_string() }
}

#[test]
fn parses_a_corporation_link() {
    assert_eq!(
        parse_link("https://zkillboard.com/corporation/98000001/"),
        Ok(entity(EntityKind::Corporation, "98000001"))
    );
}

#[test]
fn parses_each_supported_kind() {
    assert_eq!(parse_link("zkillboard.com/alliance/99/"), Ok(entity(EntityKind::Alliance, "99")));
    assert_eq!(parse_link("zkillboard.com/character/7"), Ok(entity(EntityKind::Character, "7")));
    assert_eq!(parse_link("zkillboard.com/system/30000142/"), Ok(entity(EntityKind::SolarSystem, "30000142")));
    assert_eq!(parse_link("zkillboard.com/region/10000002/"), Ok(entity(EntityKind::Region, "10000002")));
}

#[test]
fn finds_the_link_inside_free_text() {
    assert_eq!(
        parse_link("look at https://zkillboard.com/alliance/1354830081/losses/ please"),
        Ok(entity(EntityKind::Alliance, "1354830081"))
    );
}

#[test]
fn takes_the_leftmost_link() {
    assert_eq!(
        parse_link("zkillboard.com/region/1/ zkillboard.com/alliance/2/"),
        Ok(entity(EntityKind::Region, "1"))
    );
}

#[test]
fn keeps_the_digits_as_written() {
    assert_eq!(
        parse_link("zkillboard.com/character/000123456789012345678901234567890/"),
        Ok(entity(EntityKind::Character, "000123456789012345678901234567890"))
    );
}

#[test]
fn rejects_input_without_a_link() {
    assert_eq!(parse_link(""), Err(PipelineError::InvalidLinkFormat));
    assert_eq!(parse_link("hello world"), Err(PipelineError::InvalidLinkFormat));
    assert_eq!(parse_link("https://example.com/corporation/1/"), Err(PipelineError::InvalidLinkFormat));
}

#[test]
fn rejects_a_link_without_digits() {
    assert_eq!(parse_link("https://zkillboard.com/corporation/"), Err(PipelineError::InvalidLinkFormat));
    assert_eq!(parse_link("https://zkillboard.com/corporation/abc/"), Err(PipelineError::InvalidLinkFormat));
    assert_eq!(parse_link("https://zkillboard.com/123/"), Err(PipelineError::InvalidLinkFormat));
}

#[test]
fn the_dot_of_the_host_is_literal() {
    assert_eq!(parse_link("zkillboardXcom/corporation/1/"), Err(PipelineError::InvalidLinkFormat));
}

#[test]
fn rejects_an_unsupported_kind() {
    assert_eq!(parse_link("https://zkillboard.com/kill/12345/"), Err(PipelineError::UnsupportedEntityKind));
    assert_eq!(parse_link("https://zkillboard.com/ship/587/"), Err(PipelineError::UnsupportedEntityKind));
    assert_eq!(parse_link("https://zkillboard.com/Corporation/1/"), Err(PipelineError::UnsupportedEntityKind));
    assert_eq!(parse_link("https://zkillboard.com/solarSystem/1/"), Err(PipelineError::UnsupportedEntityKind));
}

#[test]
fn kind_words_map_to_query_parameters() {
    assert_eq!(EntityKind::from_word("corporation").map(|k| k.api_param()), Some("corporationID"));
    assert_eq!(EntityKind::from_word("alliance").map(|k| k.api_param()), Some("allianceID"));
    assert_eq!(EntityKind::from_word("character").map(|k| k.api_param()), Some("characterID"));
    assert_eq!(EntityKind::from_word("system").map(|k| k.api_param()), Some("solarSystemID"));
    assert_eq!(EntityKind::from_word("region").map(|k| k.api_param()), Some("regionID"));
    assert_eq!(EntityKind::from_word("faction"), None);
    assert_eq!(EntityKind::from_word(""), None);
}

#[test]
fn captures_without_a_match_are_an_invalid_link() {
    assert_eq!(entity_from_captures(None), Err(PipelineError::InvalidLinkFormat));
}

#[test]
fn captures_give_kind_and_identifier() {
    let groups = vec![
        Some("zkillboard.com/region/10000002".to_string()),
        Some("region".to_string()),
        Some("10000002".to_string()),
    ];
    assert_eq!(entity_from_captures(Some(groups)), Ok(entity(EntityKind::Region, "10000002")));
}

#[test]
fn an_absent_group_reads_as_empty() {
    let no_id = vec![Some("x".to_string()), Some("alliance".to_string()), None];
    assert_eq!(entity_from_captures(Some(no_id)), Ok(entity(EntityKind::Alliance, "")));
    let no_word = vec![Some("x".to_string()), None, Some("5".to_string())];
    assert_eq!(entity_from_captures(Some(no_word)), Err(PipelineError::UnsupportedEntityKind));
    assert_eq!(entity_from_captures(Some(vec![])), Err(PipelineError::UnsupportedEntityKind));
}
