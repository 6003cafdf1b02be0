//! Facts about the transition table that hold for every state and input.
use crate::input::Input;
use crate::piles::{kept, taken, listed, lemma_split_len, lemma_none_picked};
use crate::state::{
    default_cursor, initial_layout, put_up_prizes, shuffles, zone_len,
    adjust_damage, card_count, cards_of, deliver, flip_prizes, lifted, removed, resolve,
    slot_card_count, slot_picks, slots_lifted, step, transfer_from_board, transfer_from_deck,
    zone_indices, Card, CursorModel, Destination, LayoutModel, ModeModel, PreviousModel,
    PrizeCard, Selection, SlotModel, StateModel, Zone,
};
use vstd::prelude::*;

verus! {

proof fn lemma_slot_count_update(slots: Seq<SlotModel>, j: int, x: SlotModel, n: int)
    requires
        0 <= j < n <= slots.len(),
    ensures
        slot_card_count(slots.update(j, x), n) == slot_card_count(slots, n)
            - slots[j].cards.len() + x.cards.len(),
    decreases n,
{
    if n - 1 > j {
        lemma_slot_count_update(slots, j, x, n - 1);
    } else {
        lemma_slot_count_congruent(slots.update(j, x), slots, n - 1);
    }
}

proof fn lemma_slot_count_congruent(a: Seq<SlotModel>, b: Seq<SlotModel>, n: int)
    requires
        n <= a.len(),
        n <= b.len(),
        forall|k: int| 0 <= k < n ==> (#[trigger] a[k]).cards.len() == b[k].cards.len(),
    ensures
        slot_card_count(a, n) == slot_card_count(b, n),
    decreases n,
{
    if n > 0 {
        lemma_slot_count_congruent(a, b, n - 1);
    }
}

proof fn lemma_cards_of_len(ps: Seq<PrizeCard>)
    ensures
        cards_of(ps).len() == ps.len(),
    decreases ps.len(),
{
    if ps.len() > 0 {
        lemma_cards_of_len(ps.drop_last());
    }
}

proof fn lemma_slots_lifted_count(l: LayoutModel, ms: Seq<Selection>, n: int)
    requires
        0 <= n <= l.slots.len(),
    ensures
        slot_card_count(removed(l, ms).slots, n) + slots_lifted(l.slots, ms, n).len()
            == slot_card_count(l.slots, n),
    decreases n,
{
    if n > 0 {
        lemma_slots_lifted_count(l, ms, n - 1);
        lemma_split_len(l.slots[n - 1].cards, slot_picks(ms, n - 1));
    }
}

/// Lifting cards out of a layout keeps every card either in the layout or in hand.
proof fn lemma_removed_count(l: LayoutModel, ms: Seq<Selection>)
    ensures
        card_count(removed(l, ms)) + lifted(l, ms).len() == card_count(l),
        removed(l, ms).slots.len() == l.slots.len(),
{
    lemma_slots_lifted_count(l, ms, l.slots.len() as int);
    lemma_split_len(l.hand, listed(zone_indices(ms, Zone::Hand)));
    lemma_split_len(l.discard, listed(zone_indices(ms, Zone::Discard)));
    lemma_split_len(l.lost_zone, listed(zone_indices(ms, Zone::LostZone)));
    lemma_split_len(l.prizes, listed(zone_indices(ms, Zone::Prize)));
    lemma_split_len(l.stadium, listed(zone_indices(ms, Zone::Stadium)));
    lemma_cards_of_len(taken(l.prizes, listed(zone_indices(ms, Zone::Prize))));
}

/// The destination names a slot that the layout has, if it names one.
spec fn fits(l: LayoutModel, d: Destination) -> bool {
    match d {
        Destination::SlotEnd(j) => j < l.slots.len(),
        Destination::SlotFront(j) => j < l.slots.len(),
        _ => true,
    }
}

proof fn lemma_deliver_count(l: LayoutModel, d: Destination, b: Seq<Card>)
    requires
        l.wf(),
        fits(l, d),
    ensures
        card_count(deliver(l, d, b)) == card_count(l) + b.len(),
        deliver(l, d, b).wf(),
        deliver(l, d, b).prizes == l.prizes,
{
    match d {
        Destination::SlotEnd(j) => if j < l.slots.len() {
            lemma_slot_count_update(
                l.slots,
                j as int,
                SlotModel { cards: l.slots[j as int].cards + b, damage: l.slots[j as int].damage },
                l.slots.len() as int,
            );
        },
        Destination::SlotFront(j) => if j < l.slots.len() {
            lemma_slot_count_update(
                l.slots,
                j as int,
                SlotModel { cards: b + l.slots[j as int].cards, damage: l.slots[j as int].damage },
                l.slots.len() as int,
            );
        },
        _ => {},
    }
}

proof fn lemma_adjust_damage(slots: Seq<SlotModel>, sel: Seq<Selection>, up: bool)
    ensures
        adjust_damage(slots, sel, up).len() == slots.len(),
        forall|k: int|
            0 <= k < slots.len() ==> (#[trigger] adjust_damage(slots, sel, up)[k]).cards
                == slots[k].cards,
    decreases sel.len(),
{
    if sel.len() > 0 {
        lemma_adjust_damage(slots, sel.drop_last(), up);
    }
}

proof fn lemma_flip_len(prizes: Seq<PrizeCard>, sel: Seq<Selection>)
    ensures
        flip_prizes(prizes, sel).len() == prizes.len(),
    decreases sel.len(),
{
    if sel.len() > 0 {
        lemma_flip_len(prizes, sel.drop_last());
    }
}

proof fn lemma_swap_count(slots: Seq<SlotModel>, a: int, b: int)
    requires
        0 <= a < slots.len(),
        0 <= b < slots.len(),
    ensures
        slot_card_count(slots.update(a, slots[b]).update(b, slots[a]), slots.len() as int)
            == slot_card_count(slots, slots.len() as int),
{
    let n = slots.len() as int;
    lemma_slot_count_update(slots, a, slots[b], n);
    lemma_slot_count_update(slots.update(a, slots[b]), b, slots[a], n);
}

/// A move from the board changes the viewed layout's card count by nothing: every lifted
/// card is delivered.
proof fn lemma_board_transfer(l: LayoutModel, c: CursorModel<Selection>, d: Destination)
    requires
        l.wf(),
        fits(l, d),
    ensures
        card_count(transfer_from_board(l, c, d)) == card_count(l),
        transfer_from_board(l, c, d).wf(),
{
    lemma_removed_count(l, c.move_set());
    lemma_deliver_count(removed(l, c.move_set()), d, lifted(l, c.move_set()));
}

proof fn lemma_deck_transfer(l: LayoutModel, c: CursorModel<usize>, d: Destination)
    requires
        l.wf(),
        fits(l, d),
    ensures
        card_count(transfer_from_deck(l, c, d)) == card_count(l),
        transfer_from_deck(l, c, d).wf(),
        transfer_from_deck(l, c, d).prizes == l.prizes,
{
    lemma_split_len(l.deck, listed(c.move_set()));
    let r = LayoutModel { deck: kept(l.deck, listed(c.move_set())), ..l };
    lemma_deliver_count(r, d, taken(l.deck, listed(c.move_set())));
}

/// No input creates or destroys a card: each player's card count, and the table's
/// well-formedness, survive every step (a shuffle only reorders the deck).
pub proof fn lemma_step_conserves_cards(s: StateModel, input: Input, roll: u8, shuffled: Seq<Card>)
    requires
        s.wf(),
        !(s.mode is Deck && input is Observe),
        shuffles(s.mode, input) ==> shuffled.len() == s.current().deck.len(),
    ensures
        step(s, input, roll, shuffled).wf(),
        card_count(step(s, input, roll, shuffled).player1) == card_count(s.player1),
        card_count(step(s, input, roll, shuffled).player2) == card_count(s.player2),
{
    let l = s.current();
    match s.mode {
        ModeModel::Selecting(c) => {
            lemma_flip_len(l.prizes, c.selected);
            lemma_adjust_damage(l.slots, c.selected, true);
            lemma_adjust_damage(l.slots, c.selected, false);
            lemma_slot_count_congruent(
                adjust_damage(l.slots, c.selected, true),
                l.slots,
                l.slots.len() as int,
            );
            lemma_slot_count_congruent(
                adjust_damage(l.slots, c.selected, false),
                l.slots,
                l.slots.len() as int,
            );
        },
        ModeModel::Move { awaited_input, previous_state } => {
            match resolve(awaited_input, input) {
                Some(d) => match previous_state {
                    PreviousModel::Selecting(c) => lemma_board_transfer(l, c, d),
                    PreviousModel::DeckSearch(c) => lemma_deck_transfer(l, c, d),
                    _ => {},
                },
                None => {},
            }
        },
        ModeModel::Swap { first_slot } => {
            match (input, first_slot) {
                (Input::Slot(u), Some(f)) => if 1 <= u <= l.slots.len() {
                    lemma_swap_count(l.slots, f - 1, u - 1);
                },
                _ => {},
            }
        },
        _ => {},
    }
}

/// Whether the pending move in `s` would carry a prize card.
pub open spec fn carries_prize(s: StateModel) -> bool {
    match s.mode {
        ModeModel::Move { previous_state, .. } => match previous_state {
            PreviousModel::Selecting(c) => exists|k: int|
                0 <= k < c.move_set().len() && #[trigger] c.move_set()[k] is Prize,
            _ => false,
        },
        _ => false,
    }
}

proof fn lemma_no_prize_indices(ms: Seq<Selection>)
    requires
        forall|k: int| 0 <= k < ms.len() ==> !(#[trigger] ms[k] is Prize),
    ensures
        zone_indices(ms, Zone::Prize) == Seq::<usize>::empty(),
    decreases ms.len(),
{
    if ms.len() > 0 {
        let rest = ms.drop_last();
        assert forall|k: int| 0 <= k < rest.len() implies !(#[trigger] rest[k] is Prize) by {
            assert(rest[k] == ms[k]);
        }
        lemma_no_prize_indices(rest);
        assert(!(ms[ms.len() - 1] is Prize));
    }
}

/// Only a move that carries a prize changes how many prizes either player has.
pub proof fn lemma_prize_count_kept(s: StateModel, input: Input, roll: u8, shuffled: Seq<Card>)
    requires
        s.wf(),
        !carries_prize(s),
    ensures
        step(s, input, roll, shuffled).player1.prizes.len() == s.player1.prizes.len(),
        step(s, input, roll, shuffled).player2.prizes.len() == s.player2.prizes.len(),
{
    let l = s.current();
    match s.mode {
        ModeModel::Selecting(c) => {
            lemma_flip_len(l.prizes, c.selected);
        },
        ModeModel::Move { awaited_input, previous_state } => {
            match resolve(awaited_input, input) {
                Some(d) => match previous_state {
                    PreviousModel::Selecting(c) => {
                        let ms = c.move_set();
                        lemma_no_prize_indices(ms);
                        lemma_none_picked(l.prizes, listed(zone_indices(ms, Zone::Prize)));
                        lemma_deliver_count(removed(l, ms), d, lifted(l, ms));
                    },
                    PreviousModel::DeckSearch(c) => lemma_deck_transfer(l, c, d),
                    _ => {},
                },
                None => {},
            }
        },
        _ => {},
    }
}

/// Putting up prizes moves cards from the top of the deck to the end of the prizes,
/// face down, and touches nothing else.
pub proof fn lemma_put_up_prizes(l: LayoutModel, k: nat)
    ensures
        ({
            let r = put_up_prizes(l, k);
            let m = if k < l.deck.len() { k as int } else { l.deck.len() as int };
            &&& r.deck.len() == l.deck.len() - m
            &&& r.prizes.len() == l.prizes.len() + m
            &&& r.prizes.take(l.prizes.len() as int) == l.prizes
            &&& forall|i: int| l.prizes.len() <= i < r.prizes.len() ==> !(#[trigger] r.prizes[i]).is_face_up
            &&& card_count(r) == card_count(l)
            &&& r.slots == l.slots
            &&& r.hand == l.hand
        }),
    decreases k,
{
    if k > 0 && l.deck.len() > 0 {
        let next = LayoutModel {
            deck: l.deck.drop_last(),
            prizes: l.prizes.push(PrizeCard { card: l.deck.last(), is_face_up: false }),
            ..l
        };
        lemma_put_up_prizes(next, (k - 1) as nat);
        let r = put_up_prizes(next, (k - 1) as nat);
        assert(r.prizes.take(next.prizes.len() as int).take(l.prizes.len() as int) =~= r.prizes.take(
            l.prizes.len() as int,
        ));
        assert(next.prizes.take(l.prizes.len() as int) =~= l.prizes);
        assert(r.prizes[l.prizes.len() as int] == next.prizes[l.prizes.len() as int]);
    } else {
        assert(l.prizes.take(l.prizes.len() as int) =~= l.prizes);
    }
}

/// `Cancel` in the untouched default mode changes nothing but the alert, and a second
/// `Cancel` changes nothing further.
pub proof fn lemma_cancel_idempotent(
    s: StateModel,
    roll1: u8,
    shuffled1: Seq<Card>,
    roll2: u8,
    shuffled2: Seq<Card>,
)
    requires
        s.mode == ModeModel::Selecting(default_cursor()),
    ensures
        step(s, Input::Cancel, roll1, shuffled1) == (StateModel { alert: None, ..s }),
        step(step(s, Input::Cancel, roll1, shuffled1), Input::Cancel, roll2, shuffled2)
            == step(s, Input::Cancel, roll1, shuffled1),
{
    assert(default_cursor().cleared() =~= default_cursor());
}

/// Starting a move and cancelling it restores the mode it started from and leaves both
/// layouts and the viewed side as they were.
pub proof fn lemma_move_then_cancel(
    s: StateModel,
    roll1: u8,
    shuffled1: Seq<Card>,
    roll2: u8,
    shuffled2: Seq<Card>,
)
    requires
        s.mode is Selecting || s.mode is DeckSearch,
    ensures
        ({
            let t = step(step(s, Input::Move, roll1, shuffled1), Input::Cancel, roll2, shuffled2);
            &&& t.mode == s.mode
            &&& t.player1 == s.player1
            &&& t.player2 == s.player2
            &&& t.viewing == s.viewing
        }),
{
}

/// `Right` on the last card of the highlighted zone changes nothing but the alert.
pub proof fn lemma_right_at_last_index(s: StateModel, roll: u8, shuffled: Seq<Card>)
    requires
        s.mode matches ModeModel::Selecting(c) && zone_len(s.current(), c.current_highlight)
            matches Some(n) && c.current_highlight.spec_deepest_index() matches Some(i) && i + 1
            == n,
    ensures
        step(s, Input::Right, roll, shuffled) == (StateModel { alert: None, ..s }),
{
}

/// `Left` on the first card of a zone, or of the deck while searching it, changes
/// nothing but the alert.
pub proof fn lemma_left_at_first_index(s: StateModel, roll: u8, shuffled: Seq<Card>)
    requires
        (s.mode matches ModeModel::Selecting(c) && c.current_highlight.spec_deepest_index()
            == Some(0usize)) || (s.mode matches ModeModel::DeckSearch(c) && c.current_highlight
            == 0),
    ensures
        step(s, Input::Left, roll, shuffled) == (StateModel { alert: None, ..s }),
{
    match s.mode {
        ModeModel::Selecting(c) => {
            assert(c.current_highlight.spec_change_deepest_index(-1) == c.current_highlight);
            assert(c.with_highlight(c.current_highlight) == c);
        },
        ModeModel::DeckSearch(c) => {
            assert(c.with_highlight(0usize) == c);
        },
        _ => {},
    }
}

proof fn lemma_empty_slots_count(slots: Seq<SlotModel>, n: int)
    requires
        n <= slots.len(),
        forall|k: int| 0 <= k < slots.len() ==> (#[trigger] slots[k]).cards.len() == 0,
    ensures
        slot_card_count(slots, n) == 0,
    decreases n,
{
    if n > 0 {
        lemma_empty_slots_count(slots, n - 1);
    }
}

/// A fresh layout holds exactly the cards of its deck.
pub proof fn lemma_initial_count(deck: Seq<Card>)
    ensures
        initial_layout(deck).wf(),
        card_count(initial_layout(deck)) == deck.len(),
{
    let slots = initial_layout(deck).slots;
    lemma_empty_slots_count(slots, slots.len() as int);
}

/// The state after feeding `inputs` in order, where the input at position `k` rolls
/// `rolls[k]` if it rolls the die and leaves the deck in order `orders[k]` if it shuffles.
pub open spec fn run(s: StateModel, inputs: Seq<Input>, rolls: Seq<u8>, orders: Seq<Seq<Card>>) -> StateModel
    decreases inputs.len(),
{
    if inputs.len() == 0 || rolls.len() == 0 || orders.len() == 0 {
        s
    } else {
        step(
            run(s, inputs.drop_last(), rolls.drop_last(), orders.drop_last()),
            inputs.last(),
            rolls.last(),
            orders.last(),
        )
    }
}

/// Whether `t` takes `input`: observing the deck is undefined, and a shuffle can only
/// leave the deck's own cards in it.
pub open spec fn takes(t: StateModel, input: Input, order: Seq<Card>) -> bool {
    &&& !(t.mode is Deck && input is Observe)
    &&& shuffles(t.mode, input) ==> order.to_multiset() == t.current().deck.to_multiset()
}

/// Whether each input of the sequence is taken by the state it meets.
pub open spec fn valid_run(s: StateModel, inputs: Seq<Input>, rolls: Seq<u8>, orders: Seq<Seq<Card>>) -> bool
    decreases inputs.len(),
{
    &&& inputs.len() == rolls.len()
    &&& inputs.len() == orders.len()
    &&& inputs.len() > 0 ==> {
        &&& valid_run(s, inputs.drop_last(), rolls.drop_last(), orders.drop_last())
        &&& takes(
            run(s, inputs.drop_last(), rolls.drop_last(), orders.drop_last()),
            inputs.last(),
            orders.last(),
        )
    }
}

/// Whether no input of the sequence meets a pending move that carries a prize.
pub open spec fn moves_no_prize(
    s: StateModel,
    inputs: Seq<Input>,
    rolls: Seq<u8>,
    orders: Seq<Seq<Card>>,
) -> bool
    decreases inputs.len(),
{
    inputs.len() > 0 ==> {
        &&& moves_no_prize(s, inputs.drop_last(), rolls.drop_last(), orders.drop_last())
        &&& !carries_prize(run(s, inputs.drop_last(), rolls.drop_last(), orders.drop_last()))
    }
}

/// No sequence of inputs creates or destroys a card: from a well-formed table, every
/// player keeps exactly the cards they had (60 for a table built from two decks).
pub proof fn lemma_run_conserves_cards(
    s: StateModel,
    inputs: Seq<Input>,
    rolls: Seq<u8>,
    orders: Seq<Seq<Card>>,
)
    requires
        s.wf(),
        valid_run(s, inputs, rolls, orders),
    ensures
        run(s, inputs, rolls, orders).wf(),
        card_count(run(s, inputs, rolls, orders).player1) == card_count(s.player1),
        card_count(run(s, inputs, rolls, orders).player2) == card_count(s.player2),
    decreases inputs.len(),
{
    if inputs.len() > 0 {
        let (i0, r0, o0) = (inputs.drop_last(), rolls.drop_last(), orders.drop_last());
        lemma_run_conserves_cards(s, i0, r0, o0);
        let t = run(s, i0, r0, o0);
        if shuffles(t.mode, inputs.last()) {
            vstd::seq_lib::to_multiset_len(orders.last());
            vstd::seq_lib::to_multiset_len(t.current().deck);
        }
        lemma_step_conserves_cards(t, inputs.last(), rolls.last(), orders.last());
    }
}

/// As long as no input meets a move that carries a prize, both players keep as many
/// prizes as they had (six after setup).
pub proof fn lemma_run_keeps_prize_count(
    s: StateModel,
    inputs: Seq<Input>,
    rolls: Seq<u8>,
    orders: Seq<Seq<Card>>,
)
    requires
        s.wf(),
        valid_run(s, inputs, rolls, orders),
        moves_no_prize(s, inputs, rolls, orders),
    ensures
        run(s, inputs, rolls, orders).player1.prizes.len() == s.player1.prizes.len(),
        run(s, inputs, rolls, orders).player2.prizes.len() == s.player2.prizes.len(),
    decreases inputs.len(),
{
    if inputs.len() > 0 {
        let (i0, r0, o0) = (inputs.drop_last(), rolls.drop_last(), orders.drop_last());
        lemma_run_keeps_prize_count(s, i0, r0, o0);
        lemma_run_conserves_cards(s, i0, r0, o0);
        lemma_prize_count_kept(run(s, i0, r0, o0), inputs.last(), rolls.last(), orders.last());
    }
}

} // verus!
