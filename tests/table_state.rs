use rand::rngs::StdRng;
use rand::SeedableRng;
use tcgclient::input::Input;
use tcgclient::state::{
    CardLayout, InputMode, MoveAwaitedInput, Player, PreviousMovingState, PrizeCard,
    SelectingState, Selection, State, UIAlert,
};

fn decks() -> (Vec<usize>, Vec<usize>) {
    ((0..60).collect(), (100..160).collect())
}

fn fresh() -> State {
    let (d1, d2) = decks();
    State::make(d1, d2)
}

fn rng() -> StdRng {
    StdRng::seed_from_u64(7)
}

fn total_cards(l: &CardLayout) -> usize {
    l.deck.len()
        + l.hand.len()
        + l.discard.len()
        + l.lost_zone.len()
        + l.stadium.len()
        + l.slots.iter().map(|s| s.cards.len()).sum::<usize>()
        + l.prizes.len()
}

fn press(st: &mut State, r: &mut StdRng, inputs: &[Input]) {
    for i in inputs {
        st.update(i, r);
    }
}

fn assert_default_selecting(st: &State) {
    match &st.input_mode {
        InputMode::Selecting(s) => {
            assert!(s.selected.is_empty());
            assert_eq!(s.current_highlight, Selection::Slot { slot_index: 0, pokemon_index: None });
        },
        other => panic!("expected default selecting, got {:?}", other),
    }
}

#[test]
fn make_builds_empty_board_around_decks() {
    let st = fresh();
    let (d1, d2) = decks();
    assert_eq!(st.player1_layout.deck, d1);
    assert_eq!(st.player2_layout.deck, d2);
    assert_eq!(st.player1_layout.slots.len(), 6);
    assert!(st.player1_layout.slots.iter().all(|s| s.cards.is_empty() && s.damage == 0));
    assert!(st.player1_layout.hand.is_empty());
    assert!(st.player1_layout.prizes.is_empty());
    assert!(matches!(st.currently_viewing, Player::Player1));
    assert!(st.ui_alert.is_none());
    assert_default_selecting(&st);
}

#[test]
fn setup_puts_up_six_face_down_prizes() {
    let mut st = fresh();
    let mut r = rng();
    st.setup(&mut r);
    for l in [&st.player1_layout, &st.player2_layout] {
        assert_eq!(l.deck.len(), 54);
        assert_eq!(l.prizes.len(), 6);
        assert!(l.prizes.iter().all(|p| !p.is_face_up));
        assert_eq!(total_cards(l), 60);
    }
    let mut all: Vec<usize> = st.player1_layout.deck.clone();
    all.extend(st.player1_layout.prizes.iter().map(|p| p.card));
    all.sort();
    assert_eq!(all, decks().0);
}

#[test]
fn setup_shuffles_the_decks() {
    let mut st = fresh();
    let mut r = rng();
    st.setup(&mut r);
    let (d1, _) = decks();
    assert_ne!(st.player1_layout.deck, d1[..54].to_vec());
}

#[test]
fn drawing_five_from_deck_mode() {
    let mut st = fresh();
    let mut r = rng();
    st.setup(&mut r);
    let before = st.player1_layout.deck.clone();
    assert_eq!(before.len(), 54);
    press(&mut st, &mut r, &[Input::Deck]);
    assert!(matches!(st.input_mode, InputMode::Deck));
    press(&mut st, &mut r, &[Input::Deck, Input::Deck, Input::Deck, Input::Deck, Input::Deck]);
    assert_eq!(st.player1_layout.deck.len(), 49);
    assert_eq!(st.player1_layout.deck, before[..49].to_vec());
    let expected: Vec<usize> = (0..5).map(|k| before[53 - k]).collect();
    assert_eq!(st.player1_layout.hand, expected);
    assert!(matches!(st.input_mode, InputMode::Deck));
}

#[test]
fn drawing_from_empty_deck_does_nothing() {
    let mut st = fresh();
    let mut r = rng();
    st.player1_layout.deck.clear();
    st.input_mode = InputMode::Deck;
    st.update(&Input::Deck, &mut r);
    assert!(st.player1_layout.hand.is_empty());
    assert!(matches!(st.input_mode, InputMode::Deck));
}

#[test]
fn swap_exchanges_two_slots() {
    let mut st = fresh();
    let mut r = rng();
    st.player1_layout.slots[1].cards = vec![1];
    st.player1_layout.slots[1].damage = 3;
    st.player1_layout.slots[4].cards = vec![2, 3];
    st.player1_layout.slots[4].damage = 0;
    st.input_mode = InputMode::Swap { first_slot: Some(2) };
    st.update(&Input::Slot(5), &mut r);
    assert_eq!(st.player1_layout.slots[1].cards, vec![2, 3]);
    assert_eq!(st.player1_layout.slots[1].damage, 0);
    assert_eq!(st.player1_layout.slots[4].cards, vec![1]);
    assert_eq!(st.player1_layout.slots[4].damage, 3);
    assert_default_selecting(&st);
}

#[test]
fn swap_records_first_slot_and_ignores_bad_slots() {
    let mut st = fresh();
    let mut r = rng();
    press(&mut st, &mut r, &[Input::Swap]);
    assert!(matches!(st.input_mode, InputMode::Swap { first_slot: None }));
    press(&mut st, &mut r, &[Input::Slot(0)]);
    assert!(matches!(st.input_mode, InputMode::Swap { first_slot: None }));
    press(&mut st, &mut r, &[Input::Slot(7)]);
    assert!(matches!(st.input_mode, InputMode::Swap { first_slot: None }));
    press(&mut st, &mut r, &[Input::Slot(3)]);
    assert!(matches!(st.input_mode, InputMode::Swap { first_slot: Some(3) }));
    press(&mut st, &mut r, &[Input::Cancel]);
    assert_default_selecting(&st);
}

#[test]
fn moving_hand_selection_to_discard() {
    let mut st = fresh();
    let mut r = rng();
    st.player1_layout.hand = vec![10, 11, 12, 13, 14];
    press(
        &mut st,
        &mut r,
        &[
            Input::Hand,
            Input::Select,
            Input::Right,
            Input::Right,
            Input::Select,
            Input::Right,
            Input::Right,
            Input::Select,
            Input::Move,
            Input::Discard,
        ],
    );
    assert_eq!(st.player1_layout.discard, vec![10, 12, 14]);
    assert_eq!(st.player1_layout.hand, vec![11, 13]);
    assert_default_selecting(&st);
    assert_eq!(total_cards(&st.player1_layout), 65);
}

#[test]
fn prepending_to_a_slot_keeps_block_order() {
    let mut st = fresh();
    let mut r = rng();
    st.player1_layout.hand = vec![10, 11, 12];
    st.player1_layout.slots[2].cards = vec![50];
    press(
        &mut st,
        &mut r,
        &[Input::Hand, Input::Select, Input::Right, Input::Right, Input::Move, Input::Slot(3)],
    );
    match &st.input_mode {
        InputMode::Move { awaited_input, .. } => {
            assert_eq!(*awaited_input, MoveAwaitedInput::SlotSpecific { slot: 2 })
        },
        other => panic!("unexpected mode {:?}", other),
    }
    press(&mut st, &mut r, &[Input::Top]);
    assert!(matches!(st.input_mode, InputMode::Move { .. }));
    press(&mut st, &mut r, &[Input::Prepend]);
    assert_eq!(st.player1_layout.slots[2].cards, vec![10, 12, 50]);
    assert_eq!(st.player1_layout.hand, vec![11]);
}

#[test]
fn appending_to_a_slot_and_moving_slot_cards() {
    let mut st = fresh();
    let mut r = rng();
    st.player1_layout.slots[0].cards = vec![1, 2, 3];
    st.player1_layout.slots[5].cards = vec![9];
    press(
        &mut st,
        &mut r,
        &[Input::Slot(1), Input::Right, Input::Select, Input::Right, Input::Move, Input::Slot(6), Input::Append],
    );
    assert_eq!(st.player1_layout.slots[0].cards, vec![1]);
    assert_eq!(st.player1_layout.slots[5].cards, vec![9, 2, 3]);
}

#[test]
fn moving_to_bottom_and_top_of_deck() {
    let mut st = fresh();
    let mut r = rng();
    st.player1_layout.deck = vec![1, 2];
    st.player1_layout.hand = vec![7, 8];
    press(&mut st, &mut r, &[Input::Hand, Input::Move, Input::Bottom]);
    assert_eq!(st.player1_layout.deck, vec![7, 1, 2]);
    press(&mut st, &mut r, &[Input::Hand, Input::Move, Input::Top]);
    assert_eq!(st.player1_layout.deck, vec![7, 1, 2, 8]);
    assert!(st.player1_layout.hand.is_empty());
}

#[test]
fn moving_prizes_and_other_zones_in_one_batch() {
    let mut st = fresh();
    let mut r = rng();
    st.player1_layout.prizes = vec![
        PrizeCard { card: 70, is_face_up: false },
        PrizeCard { card: 71, is_face_up: true },
    ];
    st.player1_layout.stadium = vec![80];
    st.player1_layout.lost_zone = vec![90, 91];
    press(
        &mut st,
        &mut r,
        &[
            Input::Prizes,
            Input::Right,
            Input::Select,
            Input::Stadium,
            Input::Select,
            Input::LostZone,
            Input::Move,
            Input::Hand,
        ],
    );
    assert_eq!(st.player1_layout.hand, vec![90, 71, 80]);
    assert_eq!(st.player1_layout.prizes, vec![PrizeCard { card: 70, is_face_up: false }]);
    assert!(st.player1_layout.stadium.is_empty());
    assert_eq!(st.player1_layout.lost_zone, vec![91]);
}

#[test]
fn moving_from_deck_search() {
    let mut st = fresh();
    let mut r = rng();
    st.player1_layout.deck = vec![5, 6, 7, 8];
    press(
        &mut st,
        &mut r,
        &[Input::Deck, Input::Select, Input::Right, Input::Select, Input::Right, Input::Right, Input::Move, Input::Hand],
    );
    assert_eq!(st.player1_layout.hand, vec![6, 8]);
    assert_eq!(st.player1_layout.deck, vec![5, 7]);
    match &st.input_mode {
        InputMode::DeckSearch(s) => {
            assert!(s.selected.is_empty());
            assert_eq!(s.current_highlight, 0);
        },
        other => panic!("unexpected mode {:?}", other),
    }
}

#[test]
fn deck_search_cursor_bounds() {
    let mut st = fresh();
    let mut r = rng();
    st.player1_layout.deck = vec![5, 6];
    press(&mut st, &mut r, &[Input::Deck, Input::Select, Input::Left]);
    match &st.input_mode {
        InputMode::DeckSearch(s) => assert_eq!(s.current_highlight, 0),
        other => panic!("unexpected mode {:?}", other),
    }
    press(&mut st, &mut r, &[Input::Right, Input::Right, Input::Right, Input::Right]);
    match &st.input_mode {
        InputMode::DeckSearch(s) => assert_eq!(s.current_highlight, 2),
        other => panic!("unexpected mode {:?}", other),
    }
    press(&mut st, &mut r, &[Input::Cancel]);
    assert!(matches!(st.input_mode, InputMode::Deck));
}

#[test]
fn cancel_twice_from_default_changes_nothing() {
    let mut st = fresh();
    let mut r = rng();
    st.setup(&mut r);
    let p1 = st.player1_layout.clone();
    let p2 = st.player2_layout.clone();
    press(&mut st, &mut r, &[Input::Cancel]);
    assert_default_selecting(&st);
    press(&mut st, &mut r, &[Input::Cancel]);
    assert_default_selecting(&st);
    assert_eq!(st.player1_layout.deck, p1.deck);
    assert_eq!(st.player1_layout.prizes, p1.prizes);
    assert_eq!(st.player2_layout.deck, p2.deck);
    assert_eq!(st.player2_layout.prizes, p2.prizes);
}

#[test]
fn cancel_clears_selection_but_keeps_highlight() {
    let mut st = fresh();
    let mut r = rng();
    st.player1_layout.hand = vec![1, 2];
    press(&mut st, &mut r, &[Input::Hand, Input::Select, Input::Right, Input::Cancel]);
    match &st.input_mode {
        InputMode::Selecting(s) => {
            assert!(s.selected.is_empty());
            assert_eq!(s.current_highlight, Selection::Hand { index: 1 });
        },
        other => panic!("unexpected mode {:?}", other),
    }
}

#[test]
fn move_then_cancel_restores_mode_and_zones() {
    let mut st = fresh();
    let mut r = rng();
    st.player1_layout.hand = vec![1, 2, 3];
    press(&mut st, &mut r, &[Input::Hand, Input::Select, Input::Right]);
    let hand = st.player1_layout.hand.clone();
    let deck = st.player1_layout.deck.clone();
    press(&mut st, &mut r, &[Input::Move, Input::Slot(2), Input::Cancel]);
    match &st.input_mode {
        InputMode::Selecting(s) => {
            assert_eq!(s.selected, vec![Selection::Hand { index: 0 }]);
            assert_eq!(s.current_highlight, Selection::Hand { index: 1 });
        },
        other => panic!("unexpected mode {:?}", other),
    }
    assert_eq!(st.player1_layout.hand, hand);
    assert_eq!(st.player1_layout.deck, deck);
}

#[test]
fn move_then_cancel_from_deck_search() {
    let mut st = fresh();
    let mut r = rng();
    press(&mut st, &mut r, &[Input::Deck, Input::Select, Input::Right, Input::Select, Input::Move]);
    match &st.input_mode {
        InputMode::Move { previous_state: PreviousMovingState::DeckSearch(_), .. } => {},
        other => panic!("unexpected mode {:?}", other),
    }
    press(&mut st, &mut r, &[Input::Cancel]);
    match &st.input_mode {
        InputMode::DeckSearch(s) => {
            assert_eq!(s.selected, vec![1]);
            assert_eq!(s.current_highlight, 1);
        },
        other => panic!("unexpected mode {:?}", other),
    }
    assert_eq!(st.player1_layout.deck, decks().0);
}

#[test]
fn right_at_last_index_and_left_at_first_do_nothing() {
    let mut st = fresh();
    let mut r = rng();
    st.player1_layout.hand = vec![1, 2];
    press(&mut st, &mut r, &[Input::Hand, Input::Left]);
    match &st.input_mode {
        InputMode::Selecting(s) => assert_eq!(s.current_highlight, Selection::Hand { index: 0 }),
        other => panic!("unexpected mode {:?}", other),
    }
    press(&mut st, &mut r, &[Input::Right, Input::Right, Input::Right]);
    match &st.input_mode {
        InputMode::Selecting(s) => assert_eq!(s.current_highlight, Selection::Hand { index: 1 }),
        other => panic!("unexpected mode {:?}", other),
    }
    press(&mut st, &mut r, &[Input::Slot(1), Input::Right, Input::Left]);
    match &st.input_mode {
        InputMode::Selecting(s) => {
            assert_eq!(s.current_highlight, Selection::Slot { slot_index: 0, pokemon_index: None })
        },
        other => panic!("unexpected mode {:?}", other),
    }
}

#[test]
fn entering_an_empty_zone_does_nothing() {
    let mut st = fresh();
    let mut r = rng();
    press(&mut st, &mut r, &[Input::Hand, Input::Discard, Input::Prizes, Input::LostZone, Input::Stadium]);
    assert_default_selecting(&st);
    press(&mut st, &mut r, &[Input::Slot(0), Input::Slot(7)]);
    assert_default_selecting(&st);
    st.player1_layout.slots[3].cards = vec![4];
    press(&mut st, &mut r, &[Input::Slot(4)]);
    match &st.input_mode {
        InputMode::Selecting(s) => assert_eq!(
            s.current_highlight,
            Selection::Slot { slot_index: 3, pokemon_index: Some(0) }
        ),
        other => panic!("unexpected mode {:?}", other),
    }
}

#[test]
fn zone_inputs_leave_the_deck_menu() {
    let mut st = fresh();
    let mut r = rng();
    st.player1_layout.discard = vec![3];
    press(&mut st, &mut r, &[Input::Deck, Input::Hand]);
    assert!(matches!(st.input_mode, InputMode::Deck));
    press(&mut st, &mut r, &[Input::Discard]);
    match &st.input_mode {
        InputMode::Selecting(s) => {
            assert!(s.selected.is_empty());
            assert_eq!(s.current_highlight, Selection::Discard { index: 0 });
        },
        other => panic!("unexpected mode {:?}", other),
    }
    press(&mut st, &mut r, &[Input::Deck, Input::Cancel]);
    assert_default_selecting(&st);
}

#[test]
fn flipping_selected_prizes() {
    let mut st = fresh();
    let mut r = rng();
    st.setup(&mut r);
    press(&mut st, &mut r, &[Input::Prizes, Input::Select, Input::Right, Input::Right, Input::Select, Input::Flip]);
    let up: Vec<bool> = st.player1_layout.prizes.iter().map(|p| p.is_face_up).collect();
    assert_eq!(up, vec![true, false, true, false, false, false]);
    let card0 = st.player1_layout.prizes[0].card;
    assert_eq!(st.card_at(&Selection::Prize { index: 0 }), Some(card0));
    assert_eq!(st.card_at(&Selection::Prize { index: 1 }), None);
    press(&mut st, &mut r, &[Input::Flip]);
    assert!(st.player1_layout.prizes.iter().all(|p| !p.is_face_up));
}

#[test]
fn damage_counters_go_up_and_stop_at_zero() {
    let mut st = fresh();
    let mut r = rng();
    st.player1_layout.slots[0].cards = vec![1, 2];
    st.player1_layout.slots[1].cards = vec![3];
    press(
        &mut st,
        &mut r,
        &[Input::Slot(1), Input::Select, Input::Right, Input::Select, Input::Slot(2), Input::Select, Input::Increment],
    );
    assert_eq!(st.player1_layout.slots[0].damage, 2);
    assert_eq!(st.player1_layout.slots[1].damage, 1);
    press(&mut st, &mut r, &[Input::Decrement, Input::Decrement]);
    assert_eq!(st.player1_layout.slots[0].damage, 0);
    assert_eq!(st.player1_layout.slots[1].damage, 0);
}

#[test]
fn damage_ignores_empty_slot_selection() {
    let mut st = fresh();
    let mut r = rng();
    press(&mut st, &mut r, &[Input::Select, Input::Increment]);
    assert_eq!(st.player1_layout.slots[0].damage, 0);
}

#[test]
fn selecting_twice_keeps_one_entry() {
    let mut st = fresh();
    let mut r = rng();
    press(&mut st, &mut r, &[Input::Select, Input::Select]);
    match &st.input_mode {
        InputMode::Selecting(s) => assert_eq!(s.selected.len(), 1),
        other => panic!("unexpected mode {:?}", other),
    }
}

#[test]
fn switching_sides_views_the_other_layout() {
    let mut st = fresh();
    let mut r = rng();
    st.player2_layout.hand = vec![42];
    press(&mut st, &mut r, &[Input::Select, Input::SwitchSides]);
    assert!(matches!(st.currently_viewing, Player::Player2));
    assert_default_selecting(&st);
    assert_eq!(st.card_at(&Selection::Hand { index: 0 }), Some(42));
    assert_eq!(st.deck_card_at(0), Some(100));
    press(&mut st, &mut r, &[Input::SwitchSides]);
    assert!(matches!(st.currently_viewing, Player::Player1));
}

#[test]
fn rolling_sets_a_one_frame_alert() {
    let mut st = fresh();
    let mut r = rng();
    for _ in 0..20 {
        st.update(&Input::Roll, &mut r);
        match st.ui_alert {
            Some(UIAlert::Roll(v)) => assert!((1..=6).contains(&v)),
            other => panic!("unexpected alert {:?}", other),
        }
        assert_default_selecting(&st);
    }
    st.update(&Input::Left, &mut r);
    assert!(st.ui_alert.is_none());
}

#[test]
fn shuffling_keeps_the_cards_of_the_deck() {
    let mut st = fresh();
    let mut r = rng();
    press(&mut st, &mut r, &[Input::Deck, Input::Shuffle]);
    assert!(matches!(st.ui_alert, Some(UIAlert::Shuffled)));
    assert!(matches!(st.input_mode, InputMode::Deck));
    assert_ne!(st.player1_layout.deck, decks().0);
    let mut sorted = st.player1_layout.deck.clone();
    sorted.sort();
    assert_eq!(sorted, decks().0);
    press(&mut st, &mut r, &[Input::Cancel]);
    assert!(st.ui_alert.is_none());
}

#[test]
fn card_and_deck_lookups() {
    let mut st = fresh();
    st.player1_layout.slots[2].cards = vec![8, 9];
    assert_eq!(st.card_at(&Selection::Slot { slot_index: 2, pokemon_index: Some(1) }), Some(9));
    assert_eq!(st.card_at(&Selection::Slot { slot_index: 2, pokemon_index: None }), None);
    assert_eq!(st.card_at(&Selection::Slot { slot_index: 2, pokemon_index: Some(5) }), None);
    assert_eq!(st.card_at(&Selection::Hand { index: 0 }), None);
    assert_eq!(st.deck_card_at(59), Some(59));
    assert_eq!(st.deck_card_at(60), None);
}

#[test]
fn innermost_index_shifts_clamp_at_zero() {
    let h = Selection::Hand { index: 0 };
    assert_eq!(h.change_deepest_index(-1), h);
    assert_eq!(Selection::Discard { index: 3 }.change_deepest_index(-5), Selection::Discard { index: 0 });
    assert_eq!(Selection::Prize { index: 3 }.change_deepest_index(2), Selection::Prize { index: 5 });
    let empty = Selection::Slot { slot_index: 4, pokemon_index: None };
    assert_eq!(empty.change_deepest_index(1), empty);
    assert_eq!(empty.deepest_index(), None);
    assert_eq!(Selection::Stadium { index: 2 }.deepest_index(), Some(2));
}

#[test]
fn cursor_container_operations() {
    let s: SelectingState<usize> = SelectingState::default();
    let s = s.change_highlight(4).add_to_selection().add_to_selection();
    assert_eq!(s.selected, vec![4]);
    let s = s.clear_selected();
    assert!(s.selected.is_empty());
    assert_eq!(s.current_highlight, 4);
}

#[test]
fn card_count_survives_a_long_session() {
    let mut st = fresh();
    let mut r = rng();
    st.setup(&mut r);
    let script = [
        Input::Deck,
        Input::Deck,
        Input::Deck,
        Input::Shuffle,
        Input::Select,
        Input::Right,
        Input::Select,
        Input::Move,
        Input::Slot(1),
        Input::Append,
        Input::Cancel,
        Input::Cancel,
        Input::Hand,
        Input::Select,
        Input::Prizes,
        Input::Select,
        Input::Move,
        Input::Discard,
        Input::Discard,
        Input::Move,
        Input::Stadium,
        Input::Slot(1),
        Input::Move,
        Input::LostZone,
        Input::SwitchSides,
        Input::Deck,
        Input::Deck,
        Input::Hand,
        Input::Move,
        Input::Top,
        Input::Swap,
        Input::Slot(1),
        Input::Slot(2),
        Input::Roll,
    ];
    for i in script.iter() {
        st.update(i, &mut r);
        assert_eq!(total_cards(&st.player1_layout), 60);
        assert_eq!(total_cards(&st.player2_layout), 60);
    }
    assert_eq!(st.player1_layout.prizes.len(), 5);
    assert_eq!(st.player2_layout.prizes.len(), 6);
}
