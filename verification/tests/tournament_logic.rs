use snake_runtime::AggregateState;
use snake_runtime::ConfigError;
use snake_runtime::GameResult;
use snake_runtime::RunError;
use snake_runtime::SeedCursor;
use snake_runtime::Winner;
use snake_runtime::decode_winner;
use snake_runtime::reason_from_bytes;

fn blue_win(reason: &str) -> GameResult {
    GameResult {
        winner: Winner::Blue,
        tick: 12,
        cycle: 34,
        lose_reason: String::from(reason),
    }
}

#[test]
fn decode_winner_fair_codes() {
    assert_eq!(decode_winner(0).unwrap(), Winner::Red);
    assert_eq!(decode_winner(1).unwrap(), Winner::Blue);
    assert_eq!(decode_winner(2).unwrap(), Winner::Tie);
}

#[test]
fn decode_winner_invalid_competitor_codes() {
    assert!(matches!(decode_winner(3), Err(RunError::RedInvalid)));
    assert!(matches!(decode_winner(4), Err(RunError::BlueInvalid)));
    assert!(matches!(decode_winner(7), Err(RunError::UnknownWinnerCode(7))));
    assert!(matches!(decode_winner(-1), Err(RunError::UnknownWinnerCode(-1))));
}

#[test]
fn seed_cursor_rejects_overflowing_range() {
    assert!(matches!(
        SeedCursor::new(u32::MAX, 2),
        Err(ConfigError::SeedRangeOverflow)
    ));
    assert!(matches!(SeedCursor::new(u32::MAX - 1, 2), Err(ConfigError::SeedRangeOverflow)));
}

#[test]
fn seed_cursor_reaches_the_last_seed() {
    let mut cursor = SeedCursor::new(u32::MAX - 2, 2).unwrap();
    assert_eq!(cursor.claim(), Some(u32::MAX - 2));
    assert_eq!(cursor.claim(), Some(u32::MAX - 1));
    assert_eq!(cursor.claim(), None);
    assert_eq!(cursor.claim(), None);
}

#[test]
fn seed_cursor_claims_partition_the_range() {
    let mut cursor = SeedCursor::new(5, 3).unwrap();
    let mut claimed = Vec::new();
    while let Some(seed) = cursor.claim() {
        claimed.push(seed);
    }
    assert_eq!(claimed, vec![5, 6, 7]);
}

#[test]
fn seed_cursor_empty_range_is_exhausted_at_once() {
    let mut cursor = SeedCursor::new(9, 0).unwrap();
    assert_eq!(cursor.claim(), None);
}

#[test]
fn ten_blue_wins_with_wall_reason() {
    let mut stats = AggregateState::new();
    for seed in 0..10u32 {
        stats.record(&blue_win("collided with wall"), seed);
    }
    assert_eq!(stats.wins(Winner::Blue), 10);
    assert_eq!(stats.wins(Winner::Red), 0);
    assert_eq!(stats.wins(Winner::Tie), 0);
    assert_eq!(stats.total_recorded(), 10);

    let entries = stats.reasons(Winner::Blue);
    assert_eq!(entries.len(), 1);
    assert_eq!(entries[0].reason, "collided with wall");
    assert_eq!(entries[0].count, 10);
    assert_eq!(entries[0].examples, vec![0, 1, 2, 3, 4]);

    assert!(stats.reasons(Winner::Red).is_empty());
    assert!(stats.reasons(Winner::Tie).is_empty());
}

#[test]
fn example_seeds_stay_distinct_and_bounded() {
    let mut stats = AggregateState::new();
    stats.record(&blue_win("starved"), 3);
    stats.record(&blue_win("starved"), 3);
    stats.record(&blue_win("starved"), 1);
    let entries = stats.reasons(Winner::Blue);
    assert_eq!(entries[0].count, 3);
    assert_eq!(entries[0].examples, vec![3, 1]);

    let mut sorted = entries[0].examples.clone();
    sorted.sort();
    for pair in sorted.windows(2) {
        assert!(pair[0] < pair[1]);
    }
}

#[test]
fn reasons_keep_first_five_example_seeds() {
    let mut stats = AggregateState::new();
    for seed in [20u32, 10, 30, 5, 25, 1, 2] {
        stats.record(&blue_win("collided with snake"), seed);
    }
    let entries = stats.reasons(Winner::Blue);
    assert_eq!(entries[0].count, 7);
    assert_eq!(entries[0].examples, vec![20, 10, 30, 5, 25]);
}

#[test]
fn each_winner_has_its_own_histogram() {
    let mut stats = AggregateState::new();
    stats.record(
        &GameResult {
            winner: Winner::Red,
            tick: 1,
            cycle: 1,
            lose_reason: String::from("starved"),
        },
        0,
    );
    stats.record(&blue_win("starved"), 1);
    stats.record(
        &GameResult {
            winner: Winner::Tie,
            tick: 1,
            cycle: 1,
            lose_reason: String::from("timeout"),
        },
        2,
    );
    assert_eq!(stats.wins(Winner::Red), 1);
    assert_eq!(stats.wins(Winner::Blue), 1);
    assert_eq!(stats.wins(Winner::Tie), 1);
    assert_eq!(stats.total_recorded(), 3);
    assert_eq!(stats.reasons(Winner::Red).len(), 1);
    assert_eq!(stats.reasons(Winner::Blue).len(), 1);
    assert_eq!(stats.reasons(Winner::Tie).len(), 1);
}

#[test]
fn two_reasons_for_one_winner() {
    let mut stats = AggregateState::new();
    stats.record(&blue_win("collided with wall"), 0);
    stats.record(&blue_win("starved"), 1);
    stats.record(&blue_win("collided with wall"), 2);
    let entries = stats.reasons(Winner::Blue);
    assert_eq!(entries.len(), 2);
    assert_eq!(entries[0].reason, "collided with wall");
    assert_eq!(entries[0].count, 2);
    assert_eq!(entries[0].examples, vec![0, 2]);
    assert_eq!(entries[1].reason, "starved");
    assert_eq!(entries[1].count, 1);
    assert_eq!(entries[1].examples, vec![1]);
}

#[test]
fn reason_bytes_decode_as_utf8() {
    let bytes: Vec<u8> = b"collided with wall".to_vec();
    assert_eq!(reason_from_bytes(&bytes), "collided with wall");
}

#[test]
fn invalid_reason_bytes_are_replaced_not_fatal() {
    let bytes: Vec<u8> = vec![0xff, 0x61];
    assert_eq!(reason_from_bytes(&bytes), "\u{FFFD}a");
    let empty: Vec<u8> = Vec::new();
    assert_eq!(reason_from_bytes(&empty), "");
}
