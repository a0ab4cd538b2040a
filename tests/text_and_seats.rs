use league_sync::description::parse_season_table;
use league_sync::render::push_decimal;
use league_sync::report::{game_description, seat_label};
use league_sync::model::LeagueGame;
use league_sync::seat::{normalize_seat, seat_from_label, Seat};
use league_sync::text::{chars_equal, parse_i32, trim_brackets_of};

#[test]
fn parses_plain_and_signed_integers() {
    assert_eq!(parse_i32("42"), Some(42));
    assert_eq!(parse_i32("-7"), Some(-7));
    assert_eq!(parse_i32("+3"), Some(3));
    assert_eq!(parse_i32("007"), Some(7));
    assert_eq!(parse_i32("2147483647"), Some(i32::MAX));
    assert_eq!(parse_i32("-2147483648"), Some(i32::MIN));
}

#[test]
fn rejects_what_is_not_an_i32() {
    assert_eq!(parse_i32(""), None);
    assert_eq!(parse_i32("-"), None);
    assert_eq!(parse_i32("12a"), None);
    assert_eq!(parse_i32(" 1"), None);
    assert_eq!(parse_i32("2147483648"), None);
    assert_eq!(parse_i32("-2147483649"), None);
    assert_eq!(parse_i32("99999999999999999999"), None);
}

#[test]
fn trims_brackets_at_both_ends_only() {
    assert_eq!(trim_brackets_of("[E]"), "E");
    assert_eq!(trim_brackets_of("[[North]]"), "North");
    assert_eq!(trim_brackets_of("]["), "");
    assert_eq!(trim_brackets_of("a[b]c"), "a[b]c");
    assert_eq!(trim_brackets_of(""), "");
}

#[test]
fn compares_characters() {
    assert!(chars_equal("EAST", "EAST"));
    assert!(!chars_equal("EAST", "EAS"));
    assert!(!chars_equal("EAST", "WEST"));
}

#[test]
fn reads_every_form_of_seat_label() {
    assert_eq!(normalize_seat("[E]"), Some(Seat::East));
    assert_eq!(normalize_seat("e"), Some(Seat::East));
    assert_eq!(normalize_seat("East"), Some(Seat::East));
    assert_eq!(normalize_seat("[south]"), Some(Seat::South));
    assert_eq!(normalize_seat("W"), Some(Seat::West));
    assert_eq!(normalize_seat("[WEST]"), Some(Seat::West));
    assert_eq!(normalize_seat("n"), Some(Seat::North));
    assert_eq!(normalize_seat("[North]"), Some(Seat::North));
}

#[test]
fn unknown_seat_labels_name_no_seat() {
    assert_eq!(normalize_seat("[X]"), None);
    assert_eq!(normalize_seat(""), None);
    assert_eq!(normalize_seat("Easter"), None);
    assert_eq!(seat_from_label("east"), None);
    assert_eq!(seat_from_label("EAST"), Some(Seat::East));
}

#[test]
fn description_with_season_and_table() {
    assert_eq!(parse_season_table("Season 3: Table 7", 99), (3, 7));
}

#[test]
fn description_with_group_segment() {
    assert_eq!(parse_season_table("Season 5: GroupA: Table 2", 99), (5, 2));
}

#[test]
fn description_with_several_segments() {
    assert_eq!(parse_season_table("Season 12: Group B: Round 3: Table 14", 99), (12, 14));
}

#[test]
fn description_without_season_uses_fallback_table() {
    assert_eq!(parse_season_table("Friendly match", 41), (0, 41));
}

#[test]
fn description_with_season_only_uses_fallback_table() {
    assert_eq!(parse_season_table("Season 4 finals", 41), (4, 41));
}

#[test]
fn description_with_oversized_numbers() {
    assert_eq!(parse_season_table("Season 99999999999: Table 3", 8), (0, 3));
    assert_eq!(parse_season_table("Season 2: Table 99999999999", 8), (2, 8));
}

#[test]
fn renders_decimals() {
    let mut s = String::from("n=");
    push_decimal(&mut s, 0);
    push_decimal(&mut s, 1234567890);
    assert_eq!(s, "n=01234567890");
}

#[test]
fn describes_stored_games() {
    assert_eq!(game_description(3, 7), "Season 3 Table 7");
    assert_eq!(game_description(-1, 0), "Season -1 Table 0");
}

#[test]
fn labels_seats_of_a_stored_game() {
    let g = LeagueGame::new(None, 1, 2, true, 9, 11, 12, 13, 14);
    assert_eq!(seat_label(&g, 11), "E");
    assert_eq!(seat_label(&g, 12), "S");
    assert_eq!(seat_label(&g, 13), "W");
    assert_eq!(seat_label(&g, 14), "N");
    assert_eq!(seat_label(&g, 15), "?");
}
