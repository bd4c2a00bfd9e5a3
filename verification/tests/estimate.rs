use chrono::{DateTime, Utc};
use cr_tools::estimate::arena_or_default;
use cr_tools::{
    requests_needed, Arena, CalcError, CardData, CardEntry, CardType, Moment, Rarity, Span,
};

const NEW_YEAR_2021: i64 = 1_609_459_200;
const DAY: i64 = 86_400;

fn now() -> Moment {
    Moment::new(NEW_YEAR_2021 + 12 * 3_600, 250).unwrap()
}

fn card(rarity: Rarity, have: usize, need: usize) -> CardEntry {
    CardEntry::new("Archers".to_string(), CardType::Troop, rarity, have, need)
}

fn date_of(moment: Moment) -> String {
    DateTime::<Utc>::from_timestamp(moment.secs(), moment.nanos())
        .unwrap()
        .format("%F")
        .to_string()
}

#[test]
fn common_card_in_the_royal_arena() {
    let card = card(Rarity::Common, 40, 100);
    let data = card.calc_remaining(Some(&Arena::RoyalArena), now()).unwrap().unwrap();
    assert_eq!(data.cards_remaining, 60);
    assert_eq!(data.requests_remaining, 2);
    assert_eq!(data.weeks_remaining, Span { twentieths: 2 });
    assert_eq!(data.days_remaining, Span { twentieths: 14 });
    assert_eq!(data.weeks_remaining.twentieths as f64 / 20.0, 0.1);
    assert_eq!(data.days_remaining.twentieths as f64 / 20.0, 0.7);
    assert_eq!(data.done_on, Moment::new(now().secs() + DAY, now().nanos()).unwrap());
    assert_eq!(date_of(data.done_on), "2021-01-02");
    assert_eq!(data.days_in_order, None);
    assert_eq!(data.done_in_order_on, None);
}

#[test]
fn training_camp_has_no_request_capacity() {
    for rarity in [Rarity::Common, Rarity::Rare, Rarity::Epic] {
        for (have, need) in [(0, 1), (40, 100), (0, usize::MAX)] {
            let card = card(rarity, have, need);
            assert_eq!(
                card.calc_remaining(Some(&Arena::TrainingCamp), now()),
                Err(CalcError::NoRequestCapacity)
            );
            assert_eq!(
                card.days_remaining(Some(&Arena::TrainingCamp)),
                Err(CalcError::NoRequestCapacity)
            );
        }
    }
}

#[test]
fn training_camp_card_that_lacks_nothing_is_done() {
    let card = card(Rarity::Rare, 100, 100);
    let data = card.calc_remaining(Some(&Arena::TrainingCamp), now()).unwrap().unwrap();
    assert_eq!(data.cards_remaining, 0);
    assert_eq!(data.requests_remaining, 0);
    assert_eq!(data.days_remaining, Span { twentieths: 0 });
    assert_eq!(data.done_on, now());
}

#[test]
fn nothing_remains_once_have_reaches_need() {
    let arenas = [Arena::TrainingCamp, Arena::GoblinStadium, Arena::RoyalArena, Arena::LegendaryArena];
    for arena in arenas {
        for rarity in [Rarity::Common, Rarity::Rare, Rarity::Epic] {
            for (have, need) in [(0, 0), (100, 100), (101, 100), (usize::MAX, 3)] {
                let data = card(rarity, have, need).calc_remaining(Some(&arena), now());
                let data = data.unwrap().unwrap();
                assert_eq!(data.cards_remaining, 0);
                assert_eq!(data.requests_remaining, 0);
                assert_eq!(data.weeks_remaining, Span { twentieths: 0 });
                assert_eq!(data.days_remaining, Span { twentieths: 0 });
            }
        }
    }
}

#[test]
fn days_are_seven_times_the_weeks() {
    let arenas = [Arena::GoblinStadium, Arena::SpellValley, Arena::RoyalArena, Arena::SpookyTown];
    for arena in arenas {
        for rarity in [Rarity::Common, Rarity::Rare, Rarity::Epic] {
            for (have, need) in [(0, 1), (40, 100), (3, 5_000), (7, 800)] {
                let data = card(rarity, have, need).calc_remaining(Some(&arena), now());
                let data = data.unwrap().unwrap();
                assert_eq!(data.days_remaining.twentieths, 7 * data.weeks_remaining.twentieths);
                let per_week = rarity.requests_per_week() as u128;
                assert_eq!(
                    data.weeks_remaining.twentieths * per_week,
                    20 * data.requests_remaining as u128
                );
            }
        }
    }
}

#[test]
fn done_on_is_now_when_no_days_remain() {
    let data = card(Rarity::Common, 10, 10).calc_remaining(None, now()).unwrap().unwrap();
    assert_eq!(data.days_remaining.whole_up(), 0);
    assert_eq!(data.done_on, now());
    assert_eq!(date_of(data.done_on), date_of(now()));
}

#[test]
fn done_on_lies_the_days_rounded_up_after_now() {
    // 400 cards at 40 a request: 10 requests, 0.5 weeks, 3.5 days
    let data = card(Rarity::Common, 0, 400).calc_remaining(None, now()).unwrap().unwrap();
    assert_eq!(data.requests_remaining, 10);
    assert_eq!(data.days_remaining, Span { twentieths: 70 });
    assert_eq!(data.days_remaining.whole_up(), 4);
    assert_eq!(data.done_on.secs(), now().secs() + 4 * DAY);
    assert_eq!(data.done_on.nanos(), now().nanos());
    assert_eq!(date_of(data.done_on), "2021-01-05");
    // 800 cards: 20 requests, one week, seven days and not one more
    let data = card(Rarity::Common, 0, 800).calc_remaining(None, now()).unwrap().unwrap();
    assert_eq!(data.days_remaining, Span { twentieths: 140 });
    assert_eq!(data.done_on.secs(), now().secs() + 7 * DAY);
    assert_eq!(date_of(data.done_on), "2021-01-08");
}

#[test]
fn a_tenth_of_a_day_is_done_the_next_day() {
    let tenth = Span { twentieths: 2 };
    assert_eq!(tenth.twentieths as f64 / 20.0, 0.1);
    assert_eq!(tenth.whole_up(), 1);
    let done_on = now().after_days(tenth.whole_up()).unwrap();
    assert_eq!(done_on.secs(), now().secs() + DAY);
    assert_eq!(date_of(done_on), "2021-01-02");
    let none = Span { twentieths: 0 };
    assert_eq!(now().after_days(none.whole_up()), Some(now()));
}

#[test]
fn legendary_card_gets_no_estimate() {
    let card = card(Rarity::Legendary, 0, 2);
    assert_eq!(card.calc_remaining(Some(&Arena::RoyalArena), now()), Ok(None));
    assert_eq!(card.calc_remaining(Some(&Arena::TrainingCamp), now()), Ok(None));
    assert_eq!(card.calc_remaining(None, now()), Ok(None));
    assert_eq!(card.days_remaining(Some(&Arena::TrainingCamp)), Ok(None));
    assert_eq!(card.calc_remaining_until(None, None), Ok(None));
    assert_eq!(card.cards_remaining(), 2);
}

#[test]
fn no_arena_means_the_legendary_arena() {
    assert_eq!(arena_or_default(None), Arena::LegendaryArena);
    assert_eq!(arena_or_default(Some(&Arena::BonePit)), Arena::BonePit);
    let card = card(Rarity::Common, 20, 100);
    let data = card.calc_remaining(None, now()).unwrap().unwrap();
    assert_eq!(data.cards_remaining, 80);
    assert_eq!(data.requests_remaining, 2);
    assert_eq!(card.calc_remaining(None, now()), card.calc_remaining(Some(&Arena::LegendaryArena), now()));
}

#[test]
fn rare_card_is_requested_in_the_size_of_rares() {
    let data = card(Rarity::Rare, 4, 20).calc_remaining(Some(&Arena::RoyalArena), now());
    let data = data.unwrap().unwrap();
    assert_eq!(data.cards_remaining, 16);
    assert_eq!(data.requests_remaining, 6);
    assert_eq!(data.weeks_remaining, Span { twentieths: 6 });
    assert_eq!(data.days_remaining, Span { twentieths: 42 });
    assert_eq!(data.done_on.secs(), now().secs() + 3 * DAY);
}

#[test]
fn epic_card_is_requested_once_a_week() {
    let data = card(Rarity::Epic, 0, 10).calc_remaining(Some(&Arena::RoyalArena), now());
    let data = data.unwrap().unwrap();
    assert_eq!(data.cards_remaining, 10);
    assert_eq!(data.requests_remaining, 4);
    assert_eq!(data.weeks_remaining, Span::whole(4));
    assert_eq!(data.days_remaining, Span::whole(28));
    assert_eq!(data.done_on.secs(), now().secs() + 28 * DAY);
    assert_eq!(date_of(data.done_on), "2021-01-29");
}

#[test]
fn estimating_twice_gives_the_same_estimate() {
    for rarity in [Rarity::Common, Rarity::Rare, Rarity::Epic, Rarity::Legendary] {
        for arena in [Arena::TrainingCamp, Arena::RoyalArena] {
            let card = card(rarity, 40, 100);
            let first = card.calc_remaining(Some(&arena), now());
            let second = card.calc_remaining(Some(&arena), now());
            assert_eq!(first, second);
        }
    }
}

#[test]
fn estimate_fails_where_the_calendar_ends() {
    let last = DateTime::<Utc>::MAX_UTC.timestamp();
    let late = Moment::new(last - 2 * DAY, 0).unwrap();
    // 0.7 days, rounded up to one: still on the calendar
    let near = card(Rarity::Common, 40, 100);
    let data = near.calc_remaining(Some(&Arena::RoyalArena), late).unwrap().unwrap();
    assert_eq!(data.done_on.secs(), last - DAY);
    // 3.5 days, rounded up to four: past its end
    let far = card(Rarity::Common, 0, 400);
    assert_eq!(far.calc_remaining(None, late), Err(CalcError::DateOverflow));
}

#[test]
fn estimate_fails_for_more_days_than_can_be_counted() {
    let card = card(Rarity::Epic, 0, usize::MAX);
    assert_eq!(
        card.calc_remaining(Some(&Arena::GoblinStadium), now()),
        Err(CalcError::DateOverflow)
    );
    let days = card.days_remaining(Some(&Arena::GoblinStadium)).unwrap().unwrap();
    assert_eq!(days.twentieths, 140 * usize::MAX as u128);
}

#[test]
fn requests_needed_rounds_up() {
    assert_eq!(requests_needed(60, 30), Ok(2));
    assert_eq!(requests_needed(61, 30), Ok(3));
    assert_eq!(requests_needed(59, 30), Ok(2));
    assert_eq!(requests_needed(1, 40), Ok(1));
    assert_eq!(requests_needed(40, 40), Ok(1));
    assert_eq!(requests_needed(16, 3), Ok(6));
    assert_eq!(requests_needed(7, 1), Ok(7));
    assert_eq!(requests_needed(usize::MAX, 1), Ok(usize::MAX));
    assert_eq!(requests_needed(usize::MAX, usize::MAX), Ok(1));
    assert_eq!(requests_needed(usize::MAX, 2), Ok(usize::MAX / 2 + 1));
}

#[test]
fn requests_needed_without_capacity() {
    assert_eq!(requests_needed(0, 0), Ok(0));
    assert_eq!(requests_needed(0, 30), Ok(0));
    assert_eq!(requests_needed(1, 0), Err(CalcError::NoRequestCapacity));
    assert_eq!(requests_needed(usize::MAX, 0), Err(CalcError::NoRequestCapacity));
}

#[test]
fn days_remaining_without_a_date() {
    let common = card(Rarity::Common, 40, 100);
    assert_eq!(
        common.days_remaining(Some(&Arena::RoyalArena)),
        Ok(Some(Span { twentieths: 14 }))
    );
    assert_eq!(common.days_remaining(None), Ok(Some(Span { twentieths: 14 })));
    assert_eq!(
        common.days_remaining(Some(&Arena::GoblinStadium)),
        Ok(Some(Span { twentieths: 42 }))
    );
}

#[test]
fn estimate_until_a_given_day() {
    let card = card(Rarity::Common, 40, 100);
    let done_on = Moment::new(5 * DAY, 0).unwrap();
    let data = card.calc_remaining_until(Some(&Arena::RoyalArena), Some(done_on));
    assert_eq!(
        data,
        Ok(Some(CardData {
            cards_remaining: 60,
            requests_remaining: 2,
            weeks_remaining: Span { twentieths: 2 },
            days_remaining: Span { twentieths: 14 },
            done_on,
            days_in_order: None,
            done_in_order_on: None,
        }))
    );
}

#[test]
fn estimate_without_a_day_is_a_date_overflow() {
    let card = card(Rarity::Common, 40, 100);
    assert_eq!(
        card.calc_remaining_until(Some(&Arena::RoyalArena), None),
        Err(CalcError::DateOverflow)
    );
    // the arena is looked at first
    assert_eq!(
        card.calc_remaining_until(Some(&Arena::TrainingCamp), None),
        Err(CalcError::NoRequestCapacity)
    );
}

#[test]
fn compute_all_fills_every_slot() {
    let stale = CardData {
        cards_remaining: 9,
        requests_remaining: 9,
        weeks_remaining: Span { twentieths: 9 },
        days_remaining: Span { twentieths: 63 },
        done_on: Moment::new(0, 0).unwrap(),
        days_in_order: Some(Span { twentieths: 63 }),
        done_in_order_on: Some(Moment::new(0, 0).unwrap()),
    };
    let mut legendary = card(Rarity::Legendary, 0, 2);
    legendary.computed = Some(stale);
    let mut common = card(Rarity::Common, 40, 100);
    common.computed = Some(stale);
    let mut list = vec![common, legendary, card(Rarity::Epic, 0, 10), card(Rarity::Rare, 5, 5)];
    let before = list.clone();
    CardEntry::compute_all(&mut list, Some(&Arena::RoyalArena), now());
    assert_eq!(list.len(), 4);
    for (after, before) in list.iter().zip(before.iter()) {
        assert_eq!(after.computed, before.calc_remaining(Some(&Arena::RoyalArena), now()).unwrap());
        assert_eq!(after.name, before.name);
        assert_eq!(after.have, before.have);
        assert_eq!(after.need, before.need);
        assert_eq!(after.rarity, before.rarity);
        assert_eq!(after.card_type, before.card_type);
    }
    assert_eq!(list[0].computed.unwrap().days_remaining, Span { twentieths: 14 });
    assert_eq!(list[0].computed.unwrap().days_in_order, None);
    assert_eq!(list[1].computed, None);
    assert_eq!(list[2].computed.unwrap().days_remaining, Span::whole(28));
    assert_eq!(list[3].computed.unwrap().done_on, now());
}

#[test]
fn compute_all_leaves_no_estimate_where_none_can_be_made() {
    let mut list = vec![card(Rarity::Common, 40, 100), card(Rarity::Rare, 5, 5)];
    list[0].computed = card(Rarity::Common, 40, 100).calc_remaining(None, now()).unwrap();
    CardEntry::compute_all(&mut list, Some(&Arena::TrainingCamp), now());
    assert_eq!(list[0].computed, None);
    assert_eq!(list[1].computed.unwrap().cards_remaining, 0);
    let mut empty: Vec<CardEntry> = Vec::new();
    CardEntry::compute_all(&mut empty, None, now());
    assert!(empty.is_empty());
}
