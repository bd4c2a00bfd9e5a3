use cr_tools::{Arena, CalcError, CardData, CardEntry, CardType, Moment, Rarity, Span};
use std::cmp::Ordering;

fn now() -> Moment {
    Moment::new(1_609_459_200, 0).unwrap()
}

fn estimate(days: Span) -> CardData {
    CardData {
        cards_remaining: 1,
        requests_remaining: 1,
        weeks_remaining: Span { twentieths: 1 },
        days_remaining: days,
        done_on: now(),
        days_in_order: None,
        done_in_order_on: None,
    }
}

fn card(name: &str, rarity: Rarity, days: Option<u128>) -> CardEntry {
    let mut card = CardEntry::new(name.to_string(), CardType::Spell, rarity, 0, 1);
    card.computed = days.map(|twentieths| estimate(Span { twentieths }));
    card
}

fn names(list: &[CardEntry]) -> Vec<&str> {
    list.iter().map(|card| card.name.as_str()).collect()
}

#[test]
fn fewer_days_come_first() {
    let quick = card("quick", Rarity::Common, Some(14));
    let slow = card("slow", Rarity::Epic, Some(140));
    assert_eq!(CardEntry::compare_by_remaining(&quick, &slow, None), Ordering::Less);
    assert_eq!(CardEntry::compare_by_remaining(&slow, &quick, None), Ordering::Greater);
    assert_eq!(CardEntry::compare_by_remaining(&quick, &quick, None), Ordering::Equal);
    assert!(quick.comes_before(&slow, None));
    assert!(!slow.comes_before(&quick, None));
    assert!(!quick.comes_before(&quick, None));
}

#[test]
fn equal_days_tie_whatever_the_rarity() {
    let common = card("common", Rarity::Common, Some(140));
    let epic = card("epic", Rarity::Epic, Some(140));
    assert_eq!(CardEntry::compare_by_remaining(&common, &epic, None), Ordering::Equal);
    assert_eq!(CardEntry::compare_by_remaining(&epic, &common, None), Ordering::Equal);
}

#[test]
fn legendary_cards_come_last() {
    let legendary = card("legendary", Rarity::Legendary, None);
    let estimated = card("other", Rarity::Legendary, Some(1));
    let slow = card("slow", Rarity::Epic, Some(u128::MAX));
    assert_eq!(CardEntry::compare_by_remaining(&legendary, &slow, None), Ordering::Greater);
    assert_eq!(CardEntry::compare_by_remaining(&slow, &legendary, None), Ordering::Less);
    assert_eq!(CardEntry::compare_by_remaining(&legendary, &estimated, None), Ordering::Equal);
    assert_eq!(CardEntry::compare_by_remaining(&estimated, &legendary, None), Ordering::Equal);
    assert_eq!(CardEntry::compare_by_remaining(&estimated, &slow, None), Ordering::Greater);
    assert_eq!(legendary.days_to_rank_by(None), Ok(None));
    assert_eq!(estimated.days_to_rank_by(None), Ok(None));
}

#[test]
fn card_without_estimate_is_ranked_by_what_an_estimate_gives() {
    // 60 commons in the royal arena: two requests, 0.7 days
    let fresh = CardEntry::new("fresh".to_string(), CardType::Troop, Rarity::Common, 40, 100);
    let royal = Some(&Arena::RoyalArena);
    assert_eq!(fresh.days_to_rank_by(royal), Ok(Some(Span { twentieths: 14 })));
    let sooner = card("sooner", Rarity::Rare, Some(13));
    let level = card("level", Rarity::Rare, Some(14));
    let later = card("later", Rarity::Rare, Some(15));
    assert_eq!(CardEntry::compare_by_remaining(&fresh, &sooner, royal), Ordering::Greater);
    assert_eq!(CardEntry::compare_by_remaining(&fresh, &level, royal), Ordering::Equal);
    assert_eq!(CardEntry::compare_by_remaining(&fresh, &later, royal), Ordering::Less);
    // in the goblin stadium the same card takes six requests
    let goblin = Some(&Arena::GoblinStadium);
    assert_eq!(fresh.days_to_rank_by(goblin), Ok(Some(Span { twentieths: 42 })));
    assert_eq!(CardEntry::compare_by_remaining(&fresh, &later, goblin), Ordering::Greater);
}

#[test]
fn estimate_in_the_slot_is_what_counts() {
    let mut card = CardEntry::new("held".to_string(), CardType::Troop, Rarity::Common, 40, 100);
    card.computed = Some(estimate(Span { twentieths: 500 }));
    assert_eq!(card.days_to_rank_by(Some(&Arena::RoyalArena)), Ok(Some(Span { twentieths: 500 })));
    assert_eq!(card.days_to_rank_by(Some(&Arena::TrainingCamp)), Ok(Some(Span { twentieths: 500 })));
}

#[test]
fn cards_that_can_be_ranked() {
    let camp = Some(&Arena::TrainingCamp);
    let lacking = CardEntry::new("lacking".to_string(), CardType::Troop, Rarity::Common, 0, 1);
    let complete = CardEntry::new("complete".to_string(), CardType::Troop, Rarity::Common, 1, 1);
    assert!(!lacking.is_rankable(camp));
    assert_eq!(lacking.days_to_rank_by(camp), Err(CalcError::NoRequestCapacity));
    assert!(lacking.is_rankable(Some(&Arena::GoblinStadium)));
    assert!(lacking.is_rankable(None));
    assert!(complete.is_rankable(camp));
    assert!(card("estimated", Rarity::Common, Some(3)).is_rankable(camp));
    assert!(card("legendary", Rarity::Legendary, None).is_rankable(camp));
}

#[test]
fn sort_orders_by_days_and_keeps_ties_in_place() {
    let mut list = vec![
        card("l1", Rarity::Legendary, None),
        card("c", Rarity::Common, Some(60)),
        card("a1", Rarity::Rare, Some(20)),
        card("l2", Rarity::Legendary, Some(0)),
        card("b", Rarity::Epic, Some(40)),
        card("a2", Rarity::Common, Some(20)),
        card("z", Rarity::Common, Some(0)),
        card("a3", Rarity::Epic, Some(20)),
        card("l3", Rarity::Legendary, None),
    ];
    assert_eq!(CardEntry::sort_all(&mut list, None), Ok(()));
    assert_eq!(names(&list), vec!["z", "a1", "a2", "a3", "b", "c", "l1", "l2", "l3"]);
}

#[test]
fn sort_moves_whole_cards() {
    let mut list = vec![
        card("c", Rarity::Common, Some(60)),
        card("l", Rarity::Legendary, None),
        card("a", Rarity::Rare, Some(20)),
    ];
    let before = list.clone();
    assert_eq!(CardEntry::sort_all(&mut list, None), Ok(()));
    assert_eq!(list, vec![before[2].clone(), before[0].clone(), before[1].clone()]);
}

#[test]
fn sorting_twice_changes_nothing() {
    let mut list = vec![
        card("l1", Rarity::Legendary, None),
        card("c", Rarity::Common, Some(60)),
        card("a1", Rarity::Rare, Some(20)),
        card("b", Rarity::Epic, Some(40)),
        card("a2", Rarity::Common, Some(20)),
        card("l2", Rarity::Legendary, None),
    ];
    assert_eq!(CardEntry::sort_all(&mut list, None), Ok(()));
    let once = list.clone();
    assert_eq!(CardEntry::sort_all(&mut list, None), Ok(()));
    assert_eq!(list, once);
}

#[test]
fn legendary_cards_end_up_last_in_whatever_order_they_come() {
    let cards = [
        card("l", Rarity::Legendary, None),
        card("a", Rarity::Common, Some(20)),
        card("m", Rarity::Legendary, Some(1)),
        card("b", Rarity::Epic, Some(40)),
    ];
    let orders = [[0, 1, 2, 3], [3, 2, 1, 0], [2, 0, 3, 1], [1, 3, 0, 2], [0, 2, 1, 3]];
    for order in orders {
        let mut list: Vec<CardEntry> = order.iter().map(|&i| cards[i].clone()).collect();
        assert_eq!(CardEntry::sort_all(&mut list, None), Ok(()));
        let rarities: Vec<Rarity> = list.iter().map(|card| card.rarity).collect();
        assert_eq!(names(&list)[..2], ["a", "b"]);
        assert_eq!(rarities[2..], [Rarity::Legendary, Rarity::Legendary]);
    }
}

#[test]
fn sort_ranks_cards_without_estimate() {
    let royal = Some(&Arena::RoyalArena);
    let mut list = vec![
        CardEntry::new("epic".to_string(), CardType::Troop, Rarity::Epic, 0, 3),
        CardEntry::new("common".to_string(), CardType::Troop, Rarity::Common, 40, 100),
        card("held", Rarity::Rare, Some(15)),
        CardEntry::new("done".to_string(), CardType::Troop, Rarity::Rare, 9, 9),
    ];
    assert_eq!(CardEntry::sort_all(&mut list, royal), Ok(()));
    assert_eq!(names(&list), vec!["done", "common", "held", "epic"]);
    // sorting estimates nothing
    assert_eq!(list[0].computed, None);
    assert_eq!(list[1].computed, None);
    assert_eq!(list[3].computed, None);
}

#[test]
fn sort_agrees_with_the_comparator() {
    let cards = vec![
        card("l1", Rarity::Legendary, None),
        card("c", Rarity::Common, Some(60)),
        card("a1", Rarity::Rare, Some(20)),
        card("b", Rarity::Epic, Some(40)),
        CardEntry::new("fresh".to_string(), CardType::Troop, Rarity::Common, 40, 100),
        card("a2", Rarity::Common, Some(20)),
        card("l2", Rarity::Legendary, None),
        card("a3", Rarity::Common, Some(14)),
    ];
    let arena = Arena::RoyalArena;
    let mut by_library = cards.clone();
    assert_eq!(CardEntry::sort_all(&mut by_library, Some(&arena)), Ok(()));
    let mut by_std = cards.clone();
    by_std.sort_by(CardEntry::sort_by_remaining(Some(&arena)));
    assert_eq!(by_library, by_std);
    assert_eq!(names(&by_std), vec!["fresh", "a3", "a1", "a2", "b", "c", "l1", "l2"]);
}

#[test]
fn comparator_made_for_an_arena() {
    let compare = CardEntry::sort_by_remaining(Some(&Arena::GoblinStadium));
    let fresh = CardEntry::new("fresh".to_string(), CardType::Troop, Rarity::Common, 40, 100);
    let held = card("held", Rarity::Rare, Some(15));
    assert_eq!(compare(&fresh, &held), Ordering::Greater);
    assert_eq!(compare(&held, &fresh), Ordering::Less);
    assert_eq!(compare(&held, &held), Ordering::Equal);
    let compare = CardEntry::sort_by_remaining(None);
    assert_eq!(compare(&fresh, &held), Ordering::Less);
}

#[test]
fn sort_fails_where_a_card_cannot_be_ranked() {
    let camp = Some(&Arena::TrainingCamp);
    let mut list = vec![
        card("c", Rarity::Common, Some(60)),
        CardEntry::new("lacking".to_string(), CardType::Troop, Rarity::Common, 0, 1),
        card("a", Rarity::Rare, Some(20)),
    ];
    let before = list.clone();
    assert_eq!(CardEntry::sort_all(&mut list, camp), Err(CalcError::NoRequestCapacity));
    assert_eq!(list, before);
    assert_eq!(CardEntry::sort_all(&mut list, None), Ok(()));
    assert_eq!(names(&list), vec!["lacking", "a", "c"]);
}

#[test]
fn sort_of_short_lists() {
    let mut empty: Vec<CardEntry> = Vec::new();
    assert_eq!(CardEntry::sort_all(&mut empty, None), Ok(()));
    assert!(empty.is_empty());
    let mut one = vec![card("a", Rarity::Rare, Some(20))];
    assert_eq!(CardEntry::sort_all(&mut one, None), Ok(()));
    assert_eq!(names(&one), vec!["a"]);
}

#[test]
fn estimate_sort_schedule() {
    let royal = Some(&Arena::RoyalArena);
    let mut list = vec![
        CardEntry::new("epic".to_string(), CardType::Troop, Rarity::Epic, 0, 3),
        CardEntry::new("legend".to_string(), CardType::Troop, Rarity::Legendary, 0, 2),
        CardEntry::new("rare".to_string(), CardType::Building, Rarity::Rare, 4, 20),
        CardEntry::new("common".to_string(), CardType::Troop, Rarity::Common, 40, 100),
    ];
    CardEntry::compute_all(&mut list, royal, now());
    assert_eq!(CardEntry::sort_all(&mut list, royal), Ok(()));
    assert_eq!(names(&list), vec!["common", "rare", "epic", "legend"]);
    assert_eq!(CardEntry::sum_all(&mut list, now()), Ok(()));
    let in_order: Vec<Option<u128>> = list
        .iter()
        .map(|card| card.computed.and_then(|data| data.days_in_order).map(|span| span.twentieths))
        .collect();
    assert_eq!(in_order, vec![Some(14), Some(56), Some(140), None]);
    let done: Vec<Option<i64>> = list
        .iter()
        .map(|card| card.computed.and_then(|data| data.done_in_order_on).map(|at| at.secs()))
        .collect();
    let day = 86_400;
    assert_eq!(
        done,
        vec![Some(now().secs() + day), Some(now().secs() + 3 * day), Some(now().secs() + 7 * day), None]
    );
}
