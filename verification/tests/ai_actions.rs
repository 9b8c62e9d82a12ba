use server::advance::Advance;
use server::ai_actions::{
    ai_responses, base_actions, select_multi, AiActionType, EventRequest, EventResponse,
    SelectMultiStrategy,
};
use server::position::Position;
use server::resource_pile::ResourcePile;
use server::custom_actions::CustomActionType;

#[test]
fn base_actions_in_groups() {
    let r = base_actions(
        vec![
            (AiActionType::Advance, true, vec![1u32, 2]),
            (AiActionType::FoundCity, false, vec![3]),
            (AiActionType::Construct, true, vec![]),
            (AiActionType::Recruit, true, vec![4]),
        ],
        vec![5],
        Some(6),
        Some(7),
        vec![],
        vec![(8, false), (9, true)],
        vec![(CustomActionType::Sports, 10)],
    );
    assert_eq!(
        r,
        vec![
            (AiActionType::Advance, vec![1, 2]),
            (AiActionType::Recruit, vec![4]),
            (AiActionType::Collect, vec![5]),
            (AiActionType::IncreaseHappiness, vec![6]),
            (AiActionType::Collect, vec![7]),
            (AiActionType::WonderCard, vec![9]),
            (AiActionType::Custom(CustomActionType::Sports), vec![10]),
        ]
    );
    let empty: Vec<(AiActionType, Vec<u32>)> = base_actions(vec![], vec![], None, None, vec![], vec![], vec![]);
    assert!(empty.is_empty());
}

#[test]
fn selections_come_as_a_powerset() {
    assert_eq!(
        select_multi(3, &[1, 2], SelectMultiStrategy::All),
        vec![vec![0], vec![1], vec![2], vec![0, 1], vec![0, 2], vec![1, 2]]
    );
    assert_eq!(select_multi(3, &[2], SelectMultiStrategy::Min), vec![vec![0, 1]]);
    assert_eq!(select_multi(3, &[1, 2], SelectMultiStrategy::Max), vec![vec![1, 2]]);
    assert_eq!(select_multi(2, &[0], SelectMultiStrategy::All), vec![Vec::<usize>::new()]);
    assert!(select_multi(2, &[3], SelectMultiStrategy::All).is_empty());
}

#[test]
fn ai_answers_requests() {
    assert_eq!(
        ai_responses(&EventRequest::ResourceReward(ResourcePile::gold(2))),
        vec![EventResponse::ResourceReward(ResourcePile::gold(2))]
    );
    assert_eq!(
        ai_responses(&EventRequest::SelectAdvance(vec![Advance::Farming, Advance::Math])),
        vec![EventResponse::SelectAdvance(Advance::Farming), EventResponse::SelectAdvance(Advance::Math)]
    );
    let a = Position::new(0, 0);
    let b = Position::new(1, 0);
    assert_eq!(
        ai_responses(&EventRequest::SelectPositions {
            choices: vec![a, b],
            needed: vec![1],
            strategy: SelectMultiStrategy::Min,
        }),
        vec![EventResponse::SelectPositions(vec![a])]
    );
    assert_eq!(
        ai_responses(&EventRequest::SelectUnits { choices: vec![7, 8], needed: vec![1, 2] }),
        vec![
            EventResponse::SelectUnits(vec![7]),
            EventResponse::SelectUnits(vec![8]),
            EventResponse::SelectUnits(vec![7, 8]),
        ]
    );
    assert_eq!(
        ai_responses(&EventRequest::Bool),
        vec![EventResponse::Bool(false), EventResponse::Bool(true)]
    );
    assert_eq!(
        ai_responses(&EventRequest::ExploreResolution),
        vec![EventResponse::ExploreResolution(0), EventResponse::ExploreResolution(3)]
    );
}
