use server::advance::{
    do_advance, remove_advance, AdvanceHolder,
    find_government_special_advance, find_non_government_special_advance, find_special_advance,
    is_special_advance_active, player_government, take_incident_token, Advance, AdvanceAction,
    AdvanceInfo, Bonus, SpecialAdvanceInfo, SpecialAdvanceRequirement,
};
use server::city_pieces::Building;
use server::content::advances::{
    get_all_uncached, get_governments_uncached, get_groups_uncached, AdvanceGroup,
};
use server::resource_pile::ResourcePile;

#[test]
fn test_get_groups() {
    let groups = get_groups_uncached();
    assert!(!groups.is_empty());
    assert_eq!(groups.len(), 12);
    assert_eq!(groups[0].name, "Agriculture");
    assert_eq!(groups[5].name, "Spirituality");
}

#[test]
fn test_get_governments() {
    let governments = get_governments_uncached();
    assert!(!governments.is_empty());
    assert_eq!(governments.len(), 3);
    assert_eq!(governments[0].name, "Democracy");
    assert_eq!(governments[2].name, "Theocracy");
}

#[test]
fn all_advances_are_in_number_order() {
    let all = get_all_uncached();
    assert_eq!(all.len(), 48);
    for (i, a) in all.iter().enumerate() {
        assert_eq!(a.advance.number() as usize, i);
        assert_eq!(a.name, a.advance.name());
    }
}

#[test]
fn later_advances_of_a_group_require_the_first() {
    for g in get_groups_uncached() {
        let first = g.advances[0].advance;
        for a in &g.advances[1..] {
            assert_eq!(a.required, Some(first));
        }
    }
}

#[test]
fn government_groups_lead_with_requirement() {
    let g = get_governments_uncached();
    assert_eq!(g[0].advances[0].advance, Advance::Voting);
    assert_eq!(g[0].advances[0].required, Some(Advance::Philosophy));
    assert!(g[0].advances[0].leading_government);
    assert!(!g[0].advances[1].leading_government);
    assert_eq!(
        g[0].advances[0].contradicting,
        vec![Advance::Voting, Advance::Nationalism, Advance::Dogma]
    );
    assert_eq!(g[1].advances[0].required, Some(Advance::Draft));
    assert_eq!(g[2].advances[0].required, Some(Advance::StateReligion));
    assert_eq!(g[2].advances[3].government, Some("Theocracy".to_string()));
    assert_eq!(g[2].government, Some("Theocracy".to_string()));
}

#[test]
fn plain_groups_have_no_government() {
    let groups = get_groups_uncached();
    for g in &groups[..9] {
        assert_eq!(g.government, None);
        assert_eq!(g.advances[0].required, None);
        assert!(g.advances[0].contradicting.is_empty());
    }
}

#[test]
fn content_of_some_advances() {
    let groups = get_groups_uncached();
    let fishing = &groups[2].advances[0];
    assert_eq!(fishing.advance, Advance::Fishing);
    assert_eq!(fishing.bonus, Some(Bonus::MoodToken));
    assert_eq!(fishing.unlocked_building, Some(Building::Port));
    let math = &groups[8].advances[0];
    assert_eq!(math.unlocked_building, Some(Building::Observatory));
    assert_eq!(groups[3].advances[1].name, "Public Education");
    assert_eq!(groups[7].advance_group, AdvanceGroup::Culture);
    assert_eq!(groups[7].advance_group.to_string(), "Culture");
}

#[test]
fn advance_ids_and_names() {
    assert_eq!(Advance::WarShips.id(), "WarShips");
    assert_eq!(Advance::SteelWeapons.name(), "Steel Weapons");
    assert_eq!(Advance::Fanaticism.number(), 47);
    assert_eq!(Advance::Voting.government(), Some("Democracy".to_string()));
    assert_eq!(Advance::Farming.government(), None);
}

#[test]
fn bonus_resources() {
    assert_eq!(Bonus::MoodToken.resources(), ResourcePile::mood_tokens(1));
    assert_eq!(Bonus::CultureToken.resources(), ResourcePile::culture_tokens(1));
}

#[test]
fn government_of_player_is_first_government_advance() {
    assert_eq!(
        player_government(&[Advance::Farming, Advance::Voting, Advance::Dogma]),
        Some("Democracy".to_string())
    );
    assert_eq!(player_government(&[Advance::Farming, Advance::Mining]), None);
    assert_eq!(player_government(&[]), None);
}

#[test]
fn builder_sets_fields() {
    let info = AdvanceInfo::builder(Advance::Arts, "Arts", "desc")
        .with_advance_bonus(Bonus::CultureToken)
        .with_required_advance(Advance::Writing)
        .with_contradicting_advance(&[Advance::Math])
        .with_unlocked_building(Building::Obelisk)
        .with_government("Gov", true)
        .build();
    assert_eq!(info.name, "Arts");
    assert_eq!(info.description, "desc");
    assert_eq!(info.bonus, Some(Bonus::CultureToken));
    assert_eq!(info.required, Some(Advance::Writing));
    assert_eq!(info.contradicting, vec![Advance::Math]);
    assert_eq!(info.unlocked_building, Some(Building::Obelisk));
    assert_eq!(info.government, Some("Gov".to_string()));
    assert!(info.leading_government);
    let a = AdvanceAction::new(Advance::Arts, ResourcePile::ideas(2));
    assert_eq!(a.payment.ideas, 2);
}

#[test]
fn incident_tokens_after_advances() {
    let mut tokens = 3;
    assert!(!take_incident_token(&mut tokens));
    assert_eq!(tokens, 2);
    assert!(!take_incident_token(&mut tokens));
    assert!(take_incident_token(&mut tokens));
    assert_eq!(tokens, 3);
}

fn special_advances() -> Vec<SpecialAdvanceInfo> {
    vec![
        SpecialAdvanceInfo { advance: 10, requirement: SpecialAdvanceRequirement::Advance(Advance::Rituals) },
        SpecialAdvanceInfo { advance: 11, requirement: SpecialAdvanceRequirement::AnyGovernment },
        SpecialAdvanceInfo { advance: 12, requirement: SpecialAdvanceRequirement::Advance(Advance::Bartering) },
        SpecialAdvanceInfo { advance: 13, requirement: SpecialAdvanceRequirement::Advance(Advance::Rituals) },
    ]
}

#[test]
fn special_advance_unlocked_by_advance() {
    let s = special_advances();
    assert_eq!(find_non_government_special_advance(Advance::Rituals, &s), Some(10));
    assert_eq!(find_non_government_special_advance(Advance::Bartering, &s), Some(12));
    assert_eq!(find_non_government_special_advance(Advance::Farming, &s), None);
    assert_eq!(find_government_special_advance(&s), Some(11));
    assert_eq!(find_government_special_advance(&s[2..]), None);
    assert_eq!(find_special_advance(Advance::Voting, true, &s), Some(11));
    assert_eq!(find_special_advance(Advance::Bartering, false, &s), Some(12));
}

#[test]
fn special_advance_active() {
    let gov = SpecialAdvanceRequirement::AnyGovernment;
    let rituals = SpecialAdvanceRequirement::Advance(Advance::Rituals);
    assert!(is_special_advance_active(rituals, &[Advance::Farming, Advance::Rituals]));
    assert!(!is_special_advance_active(rituals, &[Advance::Farming]));
    assert!(!is_special_advance_active(gov, &[Advance::Farming, Advance::Rituals]));
    assert!(is_special_advance_active(gov, &[Advance::Farming, Advance::Voting]));
}

#[test]
fn advance_gained_and_lost() {
    let specials = special_advances();
    let mut h = AdvanceHolder {
        advances: vec![Advance::Farming, Advance::Mining],
        special_advances: vec![],
        resources: ResourcePile::empty(),
    };
    do_advance(&mut h, Advance::Rituals, Some(Bonus::CultureToken), false, &specials);
    assert_eq!(h.advances, vec![Advance::Farming, Advance::Mining, Advance::Rituals]);
    assert_eq!(h.special_advances, vec![10]);
    assert_eq!(h.resources, ResourcePile::culture_tokens(1));
    do_advance(&mut h, Advance::Voting, None, true, &specials);
    assert_eq!(h.special_advances, vec![10, 11]);
    do_advance(&mut h, Advance::Farming, None, false, &specials);
    assert_eq!(h.advances, vec![Advance::Farming, Advance::Mining, Advance::Rituals, Advance::Voting]);
    remove_advance(&mut h, Advance::Rituals, Some(Bonus::CultureToken), &specials);
    assert_eq!(h.advances, vec![Advance::Farming, Advance::Mining, Advance::Voting]);
    assert_eq!(h.special_advances, vec![11]);
    assert_eq!(h.resources, ResourcePile::empty());
}
