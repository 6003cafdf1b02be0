use tcgclient::board_geometry::{
    card_list_x, deck_and_discard_card_location, deck_location, discard_location,
    hand_card_location, lost_zone_location, prize_card_location, slot_card_location,
    stadium_location, CardDisplaySize, Side,
};
use tcgclient::load_cards::{catalogue_entries, dimensions_from_set, parse_count, CardIndexer};
use tcgclient::text_lines::split_lines;

fn b(s: &str) -> Vec<u8> {
    s.as_bytes().to_vec()
}

const DECK_A: &str = "2\nbase\npikachu-base-58\n1\njungle\nscyther-jungle-10\n\n";
const DECK_B: &str = "3\r\nbase\r\npikachu-base-58\r\n1\r\nfossil\r\nmagmar-fossil-39\r\n";

#[test]
fn lines_split_at_newlines() {
    assert_eq!(split_lines(b"a\nbc\r\n\nd"), vec![b("a"), b("bc"), b(""), b("d")]);
    assert_eq!(split_lines(b"a\n"), vec![b("a")]);
    assert_eq!(split_lines(b""), Vec::<Vec<u8>>::new());
    assert_eq!(split_lines(b"\n"), vec![b("")]);
    assert_eq!(split_lines(b"x\r"), vec![b("x\r")]);
}

#[test]
fn counts_parse_as_decimal() {
    assert_eq!(parse_count(b"4"), Some(4));
    assert_eq!(parse_count(b"+12"), Some(12));
    assert_eq!(parse_count(b"4294967295"), Some(u32::MAX));
    assert_eq!(parse_count(b"4294967296"), None);
    assert_eq!(parse_count(b""), None);
    assert_eq!(parse_count(b"+"), None);
    assert_eq!(parse_count(b"-1"), None);
    assert_eq!(parse_count(b"1a"), None);
}

#[test]
fn catalogue_lists_each_pair_once() {
    let entries = catalogue_entries(DECK_A, DECK_B).unwrap();
    assert_eq!(
        entries,
        vec![
            (b("base"), b("pikachu-base-58")),
            (b("jungle"), b("scyther-jungle-10")),
            (b("fossil"), b("magmar-fossil-39")),
        ]
    );
}

#[test]
fn catalogue_rejects_unpaired_lines() {
    assert_eq!(catalogue_entries("1\nbase\n", ""), None);
}

#[test]
fn indexer_maps_names_and_dimensions() {
    let entries = catalogue_entries(DECK_A, DECK_B).unwrap();
    let indexer = CardIndexer::from_entries(&entries);
    assert_eq!(indexer.index_of("pikachu-base-58"), 0);
    assert_eq!(indexer.index_of("magmar-fossil-39"), 2);
    assert_eq!(indexer.find(b"missing"), None);
    assert_eq!(indexer.get_dimensions(1), (600, 835));
    assert_eq!(dimensions_from_set(b"base"), (600, 835));
}

#[test]
fn later_entries_override_earlier_names() {
    let entries = vec![(b("base"), b("pikachu")), (b("jungle"), b("pikachu"))];
    let indexer = CardIndexer::from_entries(&entries);
    assert_eq!(indexer.index_of("pikachu"), 1);
}

#[test]
fn decks_repeat_each_card_by_its_count() {
    let entries = catalogue_entries(DECK_A, DECK_B).unwrap();
    let indexer = CardIndexer::from_entries(&entries);
    assert_eq!(indexer.build_deck(DECK_A), Some(vec![0, 0, 1]));
    assert_eq!(indexer.build_deck(DECK_B), Some(vec![0, 0, 0, 2]));
}

#[test]
fn malformed_decks_are_refused() {
    let entries = catalogue_entries(DECK_A, DECK_B).unwrap();
    let indexer = CardIndexer::from_entries(&entries);
    assert_eq!(indexer.build_deck("x\nbase\npikachu-base-58\n"), None);
    assert_eq!(indexer.build_deck("1\nbase\nunknown-card\n"), None);
}

#[test]
fn card_sizes() {
    assert_eq!(CardDisplaySize::Small.dims(), (60, 85));
    assert_eq!(CardDisplaySize::Large.dims(), (600, 850));
    assert_eq!(Side::Opposing.y(10), 10);
    assert_eq!(Side::Facing.y(10), 755);
}

#[test]
fn rows_centre_or_squeeze() {
    assert_eq!(card_list_x(0, 1), 395);
    assert_eq!(card_list_x(2, 5), 395);
    assert_eq!(card_list_x(3, 20), 126);
    assert_eq!(hand_card_location(0, 1, Side::Facing), (395, 765));
    assert_eq!(deck_and_discard_card_location(1, 2), (425, 382));
}

#[test]
fn fixed_zone_locations() {
    assert_eq!(prize_card_location(0, Side::Opposing), (25, 155));
    assert_eq!(prize_card_location(3, Side::Opposing), (90, 245));
    assert_eq!(prize_card_location(5, Side::Facing), (90, 430));
    assert_eq!(slot_card_location(0, 0, Side::Opposing), (412, 315));
    assert_eq!(slot_card_location(0, 2, Side::Opposing), (442, 315));
    assert_eq!(slot_card_location(3, 1, Side::Facing), (401, 603));
    assert_eq!(discard_location(Side::Opposing), (735, 155));
    assert_eq!(deck_location(Side::Facing), (735, 465));
    assert_eq!(lost_zone_location(Side::Opposing), (200, 335));
    assert_eq!(stadium_location(Side::Facing), (280, 430));
}
