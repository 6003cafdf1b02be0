//! The table's state: both players' zones, the cursor, and the input-driven mode machine.
use crate::chance::{roll_die, shuffle_pile};
use crate::input::Input;
use crate::piles::{kept, taken, listed, split_pile};
use crate::theorems::{
    carries_prize, lemma_initial_count, lemma_prize_count_kept, lemma_put_up_prizes, lemma_step_conserves_cards,
};
use vstd::prelude::*;

verus! {

/// An opaque card identifier: an index into an outside catalogue.
pub type Card = usize;

/// An ordered pile of cards; for the deck and the discard pile the last card is the top.
pub type Pile = Vec<Card>;

/// The number of board slots each player has (slot 0 is the active one).
pub const SLOT_COUNT: usize = 6;

/// The number of prize cards put aside at setup.
pub const PRIZE_COUNT: usize = 6;

/// The number of cards a deck must hold.
pub const DECK_SIZE: usize = 60;

/// One board position: a stack of cards and its damage counter.
#[derive(Clone, Debug, Default)]
pub struct PokemonSlot {
    pub cards: Pile,
    pub damage: u8,
}

pub type Slots<T> = Vec<T>;

/// A prize card and whether it has been turned face up.
#[derive(Clone, Copy, Debug, Default, PartialEq, Eq, Structural)]
pub struct PrizeCard {
    pub card: Card,
    pub is_face_up: bool,
}

/// Every zone of one player's side of the table.
#[derive(Clone, Debug, Default)]
pub struct CardLayout {
    pub slots: Slots<PokemonSlot>,
    pub hand: Pile,
    pub discard: Pile,
    /// The last card is the top of the deck.
    pub deck: Pile,
    pub lost_zone: Pile,
    pub prizes: Vec<PrizeCard>,
    /// Each player keeps a stadium pile of their own.
    pub stadium: Pile,
}

/// The address of one card position within a zone of the viewed player's layout.
#[derive(Clone, Copy, Debug, PartialEq, Eq, Structural, Hash, PartialOrd, Ord)]
pub enum Selection {
    Slot { slot_index: usize, pokemon_index: Option<usize> },
    Hand { index: usize },
    Discard { index: usize },
    LostZone { index: usize },
    Prize { index: usize },
    Stadium { index: usize },
}

/// A cursor together with the addresses selected so far (each at most once).
#[derive(Clone, Debug)]
pub struct SelectingState<T> {
    pub selected: Vec<T>,
    pub current_highlight: T,
}

pub type LayoutSelectingState = SelectingState<Selection>;

pub type PileSelectingState = SelectingState<usize>;

/// The mode a move was started from, restored when the move is cancelled.
#[derive(Clone, Debug)]
pub enum PreviousMovingState {
    Selecting(LayoutSelectingState),
    DeckSearch(PileSelectingState),
    Look(PileSelectingState),
}

/// What a move still waits for before it can be carried out.
#[derive(Clone, Copy, Debug, PartialEq, Eq, Structural)]
pub enum MoveAwaitedInput {
    Any,
    SlotSpecific { slot: usize },
}

/// The interaction mode; exactly one is active at a time.
#[derive(Clone, Debug)]
pub enum InputMode {
    Selecting(LayoutSelectingState),
    Deck,
    DeckSearch(PileSelectingState),
    /// Reserved: no behaviour is defined for it.
    Look(PileSelectingState),
    Move { awaited_input: MoveAwaitedInput, previous_state: PreviousMovingState },
    Swap { first_slot: Option<usize> },
}

#[derive(Clone, Copy, Debug, PartialEq, Eq, Structural)]
pub enum Player {
    Player1,
    Player2,
}

/// A one-shot notice of the latest random event.
#[derive(Clone, Copy, Debug, PartialEq, Eq, Structural)]
pub enum UIAlert {
    Shuffled,
    Roll(u8),
}

/// The whole table.
#[derive(Clone, Debug)]
pub struct State {
    pub player1_layout: CardLayout,
    pub player2_layout: CardLayout,
    pub currently_viewing: Player,
    pub input_mode: InputMode,
    pub ui_alert: Option<UIAlert>,
}

// ---------------------------------------------------------------------------
// Mathematical models
// ---------------------------------------------------------------------------

pub struct SlotModel {
    pub cards: Seq<Card>,
    pub damage: u8,
}

pub struct LayoutModel {
    pub slots: Seq<SlotModel>,
    pub hand: Seq<Card>,
    pub discard: Seq<Card>,
    pub deck: Seq<Card>,
    pub lost_zone: Seq<Card>,
    pub prizes: Seq<PrizeCard>,
    pub stadium: Seq<Card>,
}

pub struct CursorModel<T> {
    pub selected: Seq<T>,
    pub current_highlight: T,
}

pub enum PreviousModel {
    Selecting(CursorModel<Selection>),
    DeckSearch(CursorModel<usize>),
    Look(CursorModel<usize>),
}

pub enum ModeModel {
    Selecting(CursorModel<Selection>),
    Deck,
    DeckSearch(CursorModel<usize>),
    Look(CursorModel<usize>),
    Move { awaited_input: MoveAwaitedInput, previous_state: PreviousModel },
    Swap { first_slot: Option<usize> },
}

pub struct StateModel {
    pub player1: LayoutModel,
    pub player2: LayoutModel,
    pub viewing: Player,
    pub mode: ModeModel,
    pub alert: Option<UIAlert>,
}

impl View for PokemonSlot {
    type V = SlotModel;

    open spec fn view(&self) -> SlotModel {
        SlotModel { cards: self.cards@, damage: self.damage }
    }
}

impl View for CardLayout {
    type V = LayoutModel;

    open spec fn view(&self) -> LayoutModel {
        LayoutModel {
            slots: self.slots@.map_values(|s: PokemonSlot| s@),
            hand: self.hand@,
            discard: self.discard@,
            deck: self.deck@,
            lost_zone: self.lost_zone@,
            prizes: self.prizes@,
            stadium: self.stadium@,
        }
    }
}

impl<T> View for SelectingState<T> {
    type V = CursorModel<T>;

    open spec fn view(&self) -> CursorModel<T> {
        CursorModel { selected: self.selected@, current_highlight: self.current_highlight }
    }
}

impl View for PreviousMovingState {
    type V = PreviousModel;

    open spec fn view(&self) -> PreviousModel {
        match self {
            PreviousMovingState::Selecting(st) => PreviousModel::Selecting(st@),
            PreviousMovingState::DeckSearch(st) => PreviousModel::DeckSearch(st@),
            PreviousMovingState::Look(st) => PreviousModel::Look(st@),
        }
    }
}

impl View for InputMode {
    type V = ModeModel;

    open spec fn view(&self) -> ModeModel {
        match self {
            InputMode::Selecting(st) => ModeModel::Selecting(st@),
            InputMode::Deck => ModeModel::Deck,
            InputMode::DeckSearch(st) => ModeModel::DeckSearch(st@),
            InputMode::Look(st) => ModeModel::Look(st@),
            InputMode::Move { awaited_input, previous_state } => ModeModel::Move {
                awaited_input: *awaited_input,
                previous_state: previous_state@,
            },
            InputMode::Swap { first_slot } => ModeModel::Swap { first_slot: *first_slot },
        }
    }
}

impl View for State {
    type V = StateModel;

    open spec fn view(&self) -> StateModel {
        StateModel {
            player1: self.player1_layout@,
            player2: self.player2_layout@,
            viewing: self.currently_viewing,
            mode: self.input_mode@,
            alert: self.ui_alert,
        }
    }
}

// ---------------------------------------------------------------------------
// Addressing and cursors
// ---------------------------------------------------------------------------

/// `u` shifted by `change`, clamped at zero on the low side.
pub open spec fn shifted(u: usize, change: int) -> usize {
    if u + change < 0 {
        0
    } else {
        (u + change) as usize
    }
}

impl Selection {
    /// The innermost index: the card within a slot, or the position in any other zone.
    pub open spec fn spec_deepest_index(self) -> Option<usize> {
        match self {
            Selection::Slot { pokemon_index, .. } => pokemon_index,
            Selection::Hand { index } => Some(index),
            Selection::Discard { index } => Some(index),
            Selection::LostZone { index } => Some(index),
            Selection::Prize { index } => Some(index),
            Selection::Stadium { index } => Some(index),
        }
    }

    /// The same address with its innermost index shifted (an empty slot stays as it is).
    pub open spec fn spec_change_deepest_index(self, change: int) -> Selection {
        match self {
            Selection::Slot { slot_index, pokemon_index } => match pokemon_index {
                Some(u) => Selection::Slot { slot_index, pokemon_index: Some(shifted(u, change)) },
                None => self,
            },
            Selection::Hand { index } => Selection::Hand { index: shifted(index, change) },
            Selection::Discard { index } => Selection::Discard { index: shifted(index, change) },
            Selection::LostZone { index } => Selection::LostZone { index: shifted(index, change) },
            Selection::Prize { index } => Selection::Prize { index: shifted(index, change) },
            Selection::Stadium { index } => Selection::Stadium { index: shifted(index, change) },
        }
    }
}

impl<T> CursorModel<T> {
    pub open spec fn with_highlight(self, h: T) -> CursorModel<T> {
        CursorModel { selected: self.selected, current_highlight: h }
    }

    pub open spec fn cleared(self) -> CursorModel<T> {
        CursorModel { selected: Seq::empty(), current_highlight: self.current_highlight }
    }

    /// The highlight added to the selection, which is kept free of repeats.
    pub open spec fn highlight_selected(self) -> CursorModel<T> {
        if self.selected.contains(self.current_highlight) {
            self
        } else {
            CursorModel {
                selected: self.selected.push(self.current_highlight),
                current_highlight: self.current_highlight,
            }
        }
    }

    /// Everything a move carries: the selection and the highlight.
    pub open spec fn move_set(self) -> Seq<T> {
        self.selected.push(self.current_highlight)
    }
}

/// The cursor the table starts from: the active slot, nothing selected.
pub open spec fn default_cursor() -> CursorModel<Selection> {
    CursorModel {
        selected: Seq::empty(),
        current_highlight: Selection::Slot { slot_index: 0, pokemon_index: None },
    }
}

/// A fresh deck-search cursor: the first card, nothing selected.
pub open spec fn default_search() -> CursorModel<usize> {
    CursorModel { selected: Seq::empty(), current_highlight: 0 }
}

// ---------------------------------------------------------------------------
// Zones of a layout
// ---------------------------------------------------------------------------

impl LayoutModel {
    pub open spec fn wf(self) -> bool {
        self.slots.len() == SLOT_COUNT
    }
}

/// The number of cards in the first `n` slots.
pub open spec fn slot_card_count(slots: Seq<SlotModel>, n: int) -> int
    decreases n,
{
    if n <= 0 {
        0
    } else {
        slot_card_count(slots, n - 1) + slots[n - 1].cards.len()
    }
}

/// Every card one player owns, wherever it lies.
pub open spec fn card_count(l: LayoutModel) -> int {
    l.deck.len() + l.hand.len() + l.discard.len() + l.lost_zone.len() + l.stadium.len()
        + slot_card_count(l.slots, l.slots.len() as int) + l.prizes.len()
}

/// The length of the zone that `h` points into (`None` for a slot off the board).
pub open spec fn zone_len(l: LayoutModel, h: Selection) -> Option<nat> {
    match h {
        Selection::Slot { slot_index, .. } => if slot_index < l.slots.len() {
            Some(l.slots[slot_index as int].cards.len())
        } else {
            None
        },
        Selection::Hand { .. } => Some(l.hand.len()),
        Selection::Discard { .. } => Some(l.discard.len()),
        Selection::LostZone { .. } => Some(l.lost_zone.len()),
        Selection::Prize { .. } => Some(l.prizes.len()),
        Selection::Stadium { .. } => Some(l.stadium.len()),
    }
}

/// Where the cursor lands when a zone is entered by `input`, if that zone can be entered:
/// a slot numbered 1 to the slot count (its first card, if any), or a non-empty pile.
pub open spec fn zone_entry(l: LayoutModel, input: Input) -> Option<Selection> {
    match input {
        Input::Slot(u) => if u == 0 || u > l.slots.len() {
            None
        } else {
            Some(
                Selection::Slot {
                    slot_index: (u - 1) as usize,
                    pokemon_index: if l.slots[u - 1].cards.len() == 0 {
                        None
                    } else {
                        Some(0usize)
                    },
                },
            )
        },
        Input::Hand => if l.hand.len() > 0 {
            Some(Selection::Hand { index: 0 })
        } else {
            None
        },
        Input::Discard => if l.discard.len() > 0 {
            Some(Selection::Discard { index: 0 })
        } else {
            None
        },
        Input::Prizes => if l.prizes.len() > 0 {
            Some(Selection::Prize { index: 0 })
        } else {
            None
        },
        Input::LostZone => if l.lost_zone.len() > 0 {
            Some(Selection::LostZone { index: 0 })
        } else {
            None
        },
        Input::Stadium => if l.stadium.len() > 0 {
            Some(Selection::Stadium { index: 0 })
        } else {
            None
        },
        _ => None,
    }
}

pub open spec fn is_zone_input(input: Input) -> bool {
    input is Slot || input is Hand || input is Discard || input is Prizes || input is LostZone
        || input is Stadium
}

/// Prizes after turning over each selected prize, one selection after another.
pub open spec fn flip_prizes(prizes: Seq<PrizeCard>, sel: Seq<Selection>) -> Seq<PrizeCard>
    decreases sel.len(),
{
    if sel.len() == 0 {
        prizes
    } else {
        let p = flip_prizes(prizes, sel.drop_last());
        match sel.last() {
            Selection::Prize { index } => if index < p.len() {
                p.update(
                    index as int,
                    PrizeCard { card: p[index as int].card, is_face_up: !p[index as int].is_face_up },
                )
            } else {
                p
            },
            _ => p,
        }
    }
}

/// A damage counter one step up (stopping at the top of its range) or down (stopping at zero).
pub open spec fn bumped(d: u8, up: bool) -> u8 {
    if up {
        if d < u8::MAX {
            (d + 1) as u8
        } else {
            d
        }
    } else {
        if d > 0 {
            (d - 1) as u8
        } else {
            d
        }
    }
}

/// Slots after bumping the damage of the slot of each selected card, one selection after another.
pub open spec fn adjust_damage(slots: Seq<SlotModel>, sel: Seq<Selection>, up: bool) -> Seq<
    SlotModel,
>
    decreases sel.len(),
{
    if sel.len() == 0 {
        slots
    } else {
        let s = adjust_damage(slots, sel.drop_last(), up);
        match sel.last() {
            Selection::Slot { slot_index, pokemon_index } => if pokemon_index is Some && slot_index
                < s.len() {
                s.update(
                    slot_index as int,
                    SlotModel {
                        cards: s[slot_index as int].cards,
                        damage: bumped(s[slot_index as int].damage, up),
                    },
                )
            } else {
                s
            },
            _ => s,
        }
    }
}

// ---------------------------------------------------------------------------
// Moving cards
// ---------------------------------------------------------------------------

/// A zone that cards can be lifted from.
#[derive(Clone, Copy, Debug, PartialEq, Eq, Structural)]
pub enum Zone {
    Slot(usize),
    Hand,
    Discard,
    LostZone,
    Prize,
    Stadium,
}

/// The position that `s` addresses within zone `z`, if it addresses a card there.
pub open spec fn spec_index_in_zone(s: Selection, z: Zone) -> Option<usize> {
    match (s, z) {
        (Selection::Slot { slot_index, pokemon_index }, Zone::Slot(j)) => if slot_index == j {
            pokemon_index
        } else {
            None
        },
        (Selection::Hand { index }, Zone::Hand) => Some(index),
        (Selection::Discard { index }, Zone::Discard) => Some(index),
        (Selection::LostZone { index }, Zone::LostZone) => Some(index),
        (Selection::Prize { index }, Zone::Prize) => Some(index),
        (Selection::Stadium { index }, Zone::Stadium) => Some(index),
        _ => None,
    }
}

/// The positions within zone `z` that the addresses `ms` point at.
pub open spec fn zone_indices(ms: Seq<Selection>, z: Zone) -> Seq<usize>
    decreases ms.len(),
{
    if ms.len() == 0 {
        Seq::empty()
    } else {
        let rest = zone_indices(ms.drop_last(), z);
        match spec_index_in_zone(ms.last(), z) {
            Some(i) => rest.push(i),
            None => rest,
        }
    }
}

/// Where a move puts the cards it carries.
#[derive(Clone, Copy, Debug, PartialEq, Eq, Structural)]
pub enum Destination {
    /// On top of the deck (its end).
    DeckTop,
    /// Under the deck (its front).
    DeckBottom,
    Hand,
    Discard,
    LostZone,
    Stadium,
    /// At the end of a slot's stack (0-based slot).
    SlotEnd(usize),
    /// At the front of a slot's stack (0-based slot).
    SlotFront(usize),
}

/// The destination that `input` names while a move waits for `awaited`.
pub open spec fn resolve(awaited: MoveAwaitedInput, input: Input) -> Option<Destination> {
    match awaited {
        MoveAwaitedInput::SlotSpecific { slot } => match input {
            Input::Append => Some(Destination::SlotEnd(slot)),
            Input::Prepend => Some(Destination::SlotFront(slot)),
            _ => None,
        },
        MoveAwaitedInput::Any => match input {
            Input::Top => Some(Destination::DeckTop),
            Input::Bottom => Some(Destination::DeckBottom),
            Input::Hand => Some(Destination::Hand),
            Input::Discard => Some(Destination::Discard),
            Input::LostZone => Some(Destination::LostZone),
            Input::Stadium => Some(Destination::Stadium),
            _ => None,
        },
    }
}

/// The layout after `block` has been put at `d`.
pub open spec fn deliver(l: LayoutModel, d: Destination, block: Seq<Card>) -> LayoutModel {
    match d {
        Destination::DeckTop => LayoutModel { deck: l.deck + block, ..l },
        Destination::DeckBottom => LayoutModel { deck: block + l.deck, ..l },
        Destination::Hand => LayoutModel { hand: l.hand + block, ..l },
        Destination::Discard => LayoutModel { discard: l.discard + block, ..l },
        Destination::LostZone => LayoutModel { lost_zone: l.lost_zone + block, ..l },
        Destination::Stadium => LayoutModel { stadium: l.stadium + block, ..l },
        Destination::SlotEnd(j) => if j < l.slots.len() {
            LayoutModel {
                slots: l.slots.update(
                    j as int,
                    SlotModel { cards: l.slots[j as int].cards + block, damage: l.slots[j as int].damage },
                ),
                ..l
            }
        } else {
            l
        },
        Destination::SlotFront(j) => if j < l.slots.len() {
            LayoutModel {
                slots: l.slots.update(
                    j as int,
                    SlotModel { cards: block + l.slots[j as int].cards, damage: l.slots[j as int].damage },
                ),
                ..l
            }
        } else {
            l
        },
    }
}

/// The positions of slot `j` that the addresses `ms` pick.
pub open spec fn slot_picks(ms: Seq<Selection>, j: int) -> spec_fn(int) -> bool {
    listed(zone_indices(ms, Zone::Slot(j as usize)))
}

/// The layout with every card that `ms` addresses lifted out of its zone.
pub open spec fn removed(l: LayoutModel, ms: Seq<Selection>) -> LayoutModel {
    LayoutModel {
        slots: Seq::new(
            l.slots.len(),
            |j: int| SlotModel { cards: kept(l.slots[j].cards, slot_picks(ms, j)), damage: l.slots[j].damage },
        ),
        hand: kept(l.hand, listed(zone_indices(ms, Zone::Hand))),
        discard: kept(l.discard, listed(zone_indices(ms, Zone::Discard))),
        deck: l.deck,
        lost_zone: kept(l.lost_zone, listed(zone_indices(ms, Zone::LostZone))),
        prizes: kept(l.prizes, listed(zone_indices(ms, Zone::Prize))),
        stadium: kept(l.stadium, listed(zone_indices(ms, Zone::Stadium))),
    }
}

/// The cards lifted from the first `n` slots, slot by slot, each in stack order.
pub open spec fn slots_lifted(slots: Seq<SlotModel>, ms: Seq<Selection>, n: int) -> Seq<Card>
    decreases n,
{
    if n <= 0 {
        Seq::empty()
    } else {
        slots_lifted(slots, ms, n - 1) + taken(slots[n - 1].cards, slot_picks(ms, n - 1))
    }
}

/// The cards under a sequence of prizes.
pub open spec fn cards_of(ps: Seq<PrizeCard>) -> Seq<Card>
    decreases ps.len(),
{
    if ps.len() == 0 {
        Seq::empty()
    } else {
        cards_of(ps.drop_last()).push(ps.last().card)
    }
}

/// The cards that `ms` addresses, in ascending address order: slots first, then hand,
/// discard, lost zone, prizes and stadium, each zone in its own order.
pub open spec fn lifted(l: LayoutModel, ms: Seq<Selection>) -> Seq<Card> {
    slots_lifted(l.slots, ms, l.slots.len() as int) + taken(
        l.hand,
        listed(zone_indices(ms, Zone::Hand)),
    ) + taken(l.discard, listed(zone_indices(ms, Zone::Discard))) + taken(
        l.lost_zone,
        listed(zone_indices(ms, Zone::LostZone)),
    ) + cards_of(taken(l.prizes, listed(zone_indices(ms, Zone::Prize)))) + taken(l.stadium, listed(zone_indices(ms, Zone::Stadium)))
}

/// The layout after the cards that `c` addresses have been moved to `d`.
pub open spec fn transfer_from_board(l: LayoutModel, c: CursorModel<Selection>, d: Destination) -> LayoutModel {
    deliver(removed(l, c.move_set()), d, lifted(l, c.move_set()))
}

/// The layout after the deck cards that `c` addresses have been moved to `d`.
pub open spec fn transfer_from_deck(l: LayoutModel, c: CursorModel<usize>, d: Destination) -> LayoutModel {
    deliver(
        LayoutModel { deck: kept(l.deck, listed(c.move_set())), ..l },
        d,
        taken(l.deck, listed(c.move_set())),
    )
}

// ---------------------------------------------------------------------------
// The transition table
// ---------------------------------------------------------------------------

impl StateModel {
    pub open spec fn current(self) -> LayoutModel {
        match self.viewing {
            Player::Player1 => self.player1,
            Player::Player2 => self.player2,
        }
    }

    pub open spec fn with_current(self, l: LayoutModel) -> StateModel {
        match self.viewing {
            Player::Player1 => StateModel { player1: l, ..self },
            Player::Player2 => StateModel { player2: l, ..self },
        }
    }

    pub open spec fn with_mode(self, m: ModeModel) -> StateModel {
        StateModel { mode: m, ..self }
    }

    /// Both layouts have their slots, and the mode refers only to slots that exist.
    pub open spec fn wf(self) -> bool {
        &&& self.player1.wf()
        &&& self.player2.wf()
        &&& match self.mode {
            ModeModel::Look(_) => false,
            ModeModel::Move { awaited_input, previous_state } => {
                &&& !(previous_state is Look)
                &&& awaited_input matches MoveAwaitedInput::SlotSpecific { slot } ==> slot
                    < SLOT_COUNT
            },
            ModeModel::Swap { first_slot } => first_slot matches Some(f) ==> 1 <= f
                <= SLOT_COUNT,
            _ => true,
        }
    }
}

pub open spec fn other_player(p: Player) -> Player {
    match p {
        Player::Player1 => Player::Player2,
        Player::Player2 => Player::Player1,
    }
}

/// One input in the default mode; `roll` is the die's outcome.
pub open spec fn selecting_step(
    s: StateModel,
    c: CursorModel<Selection>,
    input: Input,
    roll: u8,
) -> StateModel {
    let l = s.current();
    let h = c.current_highlight;
    match input {
        Input::Left => s.with_mode(ModeModel::Selecting(c.with_highlight(h.spec_change_deepest_index(-1)))),
        Input::Right => match (zone_len(l, h), h.spec_deepest_index()) {
            (Some(n), Some(i)) => if i + 1 < n {
                s.with_mode(ModeModel::Selecting(c.with_highlight(h.spec_change_deepest_index(1))))
            } else {
                s
            },
            _ => s,
        },
        Input::Flip => s.with_current(LayoutModel { prizes: flip_prizes(l.prizes, c.selected), ..l }),
        Input::Increment => s.with_current(
            LayoutModel { slots: adjust_damage(l.slots, c.selected, true), ..l },
        ),
        Input::Decrement => s.with_current(
            LayoutModel { slots: adjust_damage(l.slots, c.selected, false), ..l },
        ),
        Input::Select => s.with_mode(ModeModel::Selecting(c.highlight_selected())),
        Input::Cancel => s.with_mode(ModeModel::Selecting(c.cleared())),
        Input::Move => s.with_mode(
            ModeModel::Move {
                awaited_input: MoveAwaitedInput::Any,
                previous_state: PreviousModel::Selecting(c),
            },
        ),
        Input::Swap => s.with_mode(ModeModel::Swap { first_slot: None }),
        Input::Deck => s.with_mode(ModeModel::Deck),
        Input::SwitchSides => StateModel {
            viewing: other_player(s.viewing),
            mode: ModeModel::Selecting(default_cursor()),
            ..s
        },
        Input::Roll => StateModel { alert: Some(UIAlert::Roll(roll)), ..s },
        _ => match zone_entry(l, input) {
            Some(z) => s.with_mode(ModeModel::Selecting(c.with_highlight(z))),
            None => s,
        },
    }
}

/// One input in the deck menu; `shuffled` is the order a shuffle leaves the deck in.
pub open spec fn deck_step(s: StateModel, input: Input, shuffled: Seq<Card>) -> StateModel {
    let l = s.current();
    match input {
        Input::Cancel => s.with_mode(ModeModel::Selecting(default_cursor())),
        Input::Deck => if l.deck.len() > 0 {
            s.with_current(LayoutModel { deck: l.deck.drop_last(), hand: l.hand.push(l.deck.last()), ..l })
        } else {
            s
        },
        Input::Select => s.with_mode(ModeModel::DeckSearch(default_search())),
        Input::Shuffle => StateModel {
            alert: Some(UIAlert::Shuffled),
            ..s.with_current(LayoutModel { deck: shuffled, ..l })
        },
        _ => match zone_entry(l, input) {
            Some(z) => s.with_mode(ModeModel::Selecting(default_cursor().with_highlight(z))),
            None => s,
        },
    }
}

/// One input while searching the deck.
pub open spec fn search_step(s: StateModel, c: CursorModel<usize>, input: Input) -> StateModel {
    let h = c.current_highlight;
    match input {
        Input::Cancel => s.with_mode(ModeModel::Deck),
        Input::Left => s.with_mode(
            ModeModel::DeckSearch(c.with_highlight(if h == 0 { 0 } else { (h - 1) as usize })),
        ),
        Input::Right => s.with_mode(
            ModeModel::DeckSearch(
                c.with_highlight(if h >= s.current().deck.len() { h } else { (h + 1) as usize }),
            ),
        ),
        Input::Select => s.with_mode(ModeModel::DeckSearch(c.highlight_selected())),
        Input::Move => s.with_mode(
            ModeModel::Move {
                awaited_input: MoveAwaitedInput::Any,
                previous_state: PreviousModel::DeckSearch(c),
            },
        ),
        _ => s,
    }
}

/// The mode a cancelled move returns to.
pub open spec fn restored(p: PreviousModel) -> ModeModel {
    match p {
        PreviousModel::Selecting(c) => ModeModel::Selecting(c),
        PreviousModel::DeckSearch(c) => ModeModel::DeckSearch(c),
        PreviousModel::Look(c) => ModeModel::Look(c),
    }
}

/// One input while a move waits for its destination.
pub open spec fn move_step(
    s: StateModel,
    awaited: MoveAwaitedInput,
    previous: PreviousModel,
    input: Input,
) -> StateModel {
    let l = s.current();
    match input {
        Input::Cancel => s.with_mode(restored(previous)),
        Input::Slot(u) => if u == 0 || u > l.slots.len() {
            s
        } else {
            s.with_mode(
                ModeModel::Move {
                    awaited_input: MoveAwaitedInput::SlotSpecific { slot: (u - 1) as usize },
                    previous_state: previous,
                },
            )
        },
        _ => match resolve(awaited, input) {
            None => s,
            Some(d) => match previous {
                PreviousModel::Selecting(c) => s.with_current(transfer_from_board(l, c, d)).with_mode(
                    ModeModel::Selecting(default_cursor()),
                ),
                PreviousModel::DeckSearch(c) => s.with_current(transfer_from_deck(l, c, d)).with_mode(
                    ModeModel::DeckSearch(default_search()),
                ),
                PreviousModel::Look(_) => s,
            },
        },
    }
}

/// One input while choosing two slots to exchange.
pub open spec fn swap_step(s: StateModel, first_slot: Option<usize>, input: Input) -> StateModel {
    let l = s.current();
    match input {
        Input::Cancel => s.with_mode(ModeModel::Selecting(default_cursor())),
        Input::Slot(u) => if u == 0 || u > l.slots.len() {
            s
        } else {
            match first_slot {
                Some(f) => s.with_current(
                    LayoutModel {
                        slots: l.slots.update(f - 1, l.slots[u - 1]).update(u - 1, l.slots[f - 1]),
                        ..l
                    },
                ).with_mode(ModeModel::Selecting(default_cursor())),
                None => s.with_mode(ModeModel::Swap { first_slot: Some(u) }),
            }
        },
        _ => s,
    }
}

/// The state after one input. `roll` is the die's outcome if the input rolls one, and
/// `shuffled` the deck's new order if the input shuffles it; both are ignored otherwise.
pub open spec fn step(s: StateModel, input: Input, roll: u8, shuffled: Seq<Card>) -> StateModel {
    let s0 = StateModel { alert: None, ..s };
    match s.mode {
        ModeModel::Selecting(c) => selecting_step(s0, c, input, roll),
        ModeModel::Deck => deck_step(s0, input, shuffled),
        ModeModel::DeckSearch(c) => search_step(s0, c, input),
        ModeModel::Look(_) => s0,
        ModeModel::Move { awaited_input, previous_state } => move_step(
            s0,
            awaited_input,
            previous_state,
            input,
        ),
        ModeModel::Swap { first_slot } => swap_step(s0, first_slot, input),
    }
}

/// Whether `input` in mode `m` rolls the die.
pub open spec fn rolls(m: ModeModel, input: Input) -> bool {
    m is Selecting && input is Roll
}

/// Whether `input` in mode `m` shuffles the viewed deck.
pub open spec fn shuffles(m: ModeModel, input: Input) -> bool {
    m is Deck && input is Shuffle
}

/// The die outcome that an alert reports (zero if it reports none).
pub open spec fn rolled(a: Option<UIAlert>) -> u8 {
    match a {
        Some(UIAlert::Roll(v)) => v,
        _ => 0,
    }
}

/// A fresh layout around `deck`: empty slots and empty piles everywhere else.
pub open spec fn initial_layout(deck: Seq<Card>) -> LayoutModel {
    LayoutModel {
        slots: Seq::new(SLOT_COUNT as nat, |i: int| SlotModel { cards: Seq::empty(), damage: 0 }),
        hand: Seq::empty(),
        discard: Seq::empty(),
        deck,
        lost_zone: Seq::empty(),
        prizes: Seq::empty(),
        stadium: Seq::empty(),
    }
}

/// The layout after up to `k` cards are taken from the top of the deck, one after
/// another, and put face down at the end of the prizes.
pub open spec fn put_up_prizes(l: LayoutModel, k: nat) -> LayoutModel
    decreases k,
{
    if k == 0 || l.deck.len() == 0 {
        l
    } else {
        put_up_prizes(
            LayoutModel {
                deck: l.deck.drop_last(),
                prizes: l.prizes.push(PrizeCard { card: l.deck.last(), is_face_up: false }),
                ..l
            },
            (k - 1) as nat,
        )
    }
}

/// The layout after setup, given the order `shuffled` that its deck was shuffled into.
pub open spec fn set_up(l: LayoutModel, shuffled: Seq<Card>) -> LayoutModel {
    put_up_prizes(LayoutModel { deck: shuffled, ..l }, PRIZE_COUNT as nat)
}

/// How setup reshapes a layout whose deck holds at least the prize count: that many
/// cards leave the deck and join the end of the prizes face down.
pub open spec fn set_up_shape(before: LayoutModel, after: LayoutModel) -> bool {
    before.deck.len() >= PRIZE_COUNT ==> {
        &&& after.deck.len() == before.deck.len() - PRIZE_COUNT
        &&& after.prizes.len() == before.prizes.len() + PRIZE_COUNT
        &&& after.prizes.take(before.prizes.len() as int) == before.prizes
        &&& forall|i: int|
            before.prizes.len() <= i < after.prizes.len() ==> !(#[trigger] after.prizes[i]).is_face_up
    }
}

/// What the renderer shows at `sel`: `None` for an empty slot, a face-down prize, or a
/// position past the end of its zone.
pub open spec fn spec_card_at(l: LayoutModel, sel: Selection) -> Option<Card> {
    match sel {
        Selection::Slot { slot_index, pokemon_index } => match pokemon_index {
            Some(pi) => if slot_index < l.slots.len() && pi < l.slots[slot_index as int].cards.len() {
                Some(l.slots[slot_index as int].cards[pi as int])
            } else {
                None
            },
            None => None,
        },
        Selection::Hand { index } => if index < l.hand.len() {
            Some(l.hand[index as int])
        } else {
            None
        },
        Selection::Discard { index } => if index < l.discard.len() {
            Some(l.discard[index as int])
        } else {
            None
        },
        Selection::LostZone { index } => if index < l.lost_zone.len() {
            Some(l.lost_zone[index as int])
        } else {
            None
        },
        Selection::Prize { index } => if index < l.prizes.len() && l.prizes[index as int].is_face_up {
            Some(l.prizes[index as int].card)
        } else {
            None
        },
        Selection::Stadium { index } => if index < l.stadium.len() {
            Some(l.stadium[index as int])
        } else {
            None
        },
    }
}

// ---------------------------------------------------------------------------
// Executable addressing and cursors
// ---------------------------------------------------------------------------

/// `u` shifted by `change`, clamped at zero.
fn shift_index(u: usize, change: i32) -> (r: usize)
    requires
        u + change <= usize::MAX,
    ensures
        r == shifted(u, change as int),
{
    if change < 0 {
        let down = (0 - (change as i64)) as u64;
        if down as usize > u {
            0
        } else {
            u - down as usize
        }
    } else {
        u + change as usize
    }
}

impl Default for Selection {
    fn default() -> (r: Selection)
        ensures
            r == (Selection::Slot { slot_index: 0, pokemon_index: None }),
    {
        Selection::Slot { slot_index: 0, pokemon_index: None }
    }
}

impl Selection {
    /// The innermost index: the card within a slot (`None` for an empty slot), or the
    /// position in any other zone.
    pub fn deepest_index(&self) -> (r: Option<usize>)
        ensures
            r == self.spec_deepest_index(),
    {
        match self {
            Selection::Slot { pokemon_index, .. } => *pokemon_index,
            Selection::Hand { index } => Some(*index),
            Selection::Discard { index } => Some(*index),
            Selection::LostZone { index } => Some(*index),
            Selection::Prize { index } => Some(*index),
            Selection::Stadium { index } => Some(*index),
        }
    }

    /// The same address with its innermost index shifted by `change`, clamped at zero;
    /// the caller keeps the result within the zone.
    pub fn change_deepest_index(&self, change: i32) -> (r: Selection)
        requires
            self.spec_deepest_index() matches Some(u) ==> u + change <= usize::MAX,
        ensures
            r == self.spec_change_deepest_index(change as int),
    {
        match self {
            Selection::Slot { slot_index, pokemon_index } => match pokemon_index {
                Some(u) => Selection::Slot {
                    slot_index: *slot_index,
                    pokemon_index: Some(shift_index(*u, change)),
                },
                None => *self,
            },
            Selection::Hand { index } => Selection::Hand { index: shift_index(*index, change) },
            Selection::Discard { index } => Selection::Discard { index: shift_index(*index, change) },
            Selection::LostZone { index } => Selection::LostZone {
                index: shift_index(*index, change),
            },
            Selection::Prize { index } => Selection::Prize { index: shift_index(*index, change) },
            Selection::Stadium { index } => Selection::Stadium { index: shift_index(*index, change) },
        }
    }
}

impl<T> SelectingState<T> {
    /// The same selection with a new highlight.
    pub fn change_highlight(self, new_highlight: T) -> (r: Self)
        ensures
            r@ == self@.with_highlight(new_highlight),
    {
        SelectingState { selected: self.selected, current_highlight: new_highlight }
    }

    /// The same highlight with nothing selected.
    pub fn clear_selected(self) -> (r: Self)
        ensures
            r@ == self@.cleared(),
    {
        SelectingState { selected: Vec::new(), current_highlight: self.current_highlight }
    }
}

impl SelectingState<Selection> {
    /// The highlight added to the selection (no change if it is already selected).
    pub fn add_to_selection(self) -> (r: Self)
        ensures
            r@ == self@.highlight_selected(),
    {
        let mut s = self;
        let h = s.current_highlight;
        let mut k: usize = 0;
        while k < s.selected.len()
            invariant
                k <= s.selected.len(),
                s == self,
                h == self.current_highlight,
                forall|j: int| 0 <= j < k ==> s.selected@[j] != h,
            decreases s.selected.len() - k,
        {
            if s.selected[k] == h {
                assert(s.selected@[k as int] == h);
                return s;
            }
            k = k + 1;
        }
        s.selected.push(h);
        s
    }
}

impl SelectingState<usize> {
    /// The highlight added to the selection (no change if it is already selected).
    pub fn add_to_selection(self) -> (r: Self)
        ensures
            r@ == self@.highlight_selected(),
    {
        let mut s = self;
        let h = s.current_highlight;
        if crate::piles::contains_index(&s.selected, h) {
            s
        } else {
            s.selected.push(h);
            s
        }
    }
}

impl Default for SelectingState<Selection> {
    fn default() -> (r: Self)
        ensures
            r@ == default_cursor(),
    {
        SelectingState {
            selected: Vec::new(),
            current_highlight: Selection::Slot { slot_index: 0, pokemon_index: None },
        }
    }
}

impl Default for SelectingState<usize> {
    fn default() -> (r: Self)
        ensures
            r@ == default_search(),
    {
        SelectingState { selected: Vec::new(), current_highlight: 0 }
    }
}

// ---------------------------------------------------------------------------
// Executable zone operations
// ---------------------------------------------------------------------------

/// The position that `s` addresses within zone `z`, if any.
fn index_in_zone(s: Selection, z: Zone) -> (r: Option<usize>)
    ensures
        r == spec_index_in_zone(s, z),
{
    match (s, z) {
        (Selection::Slot { slot_index, pokemon_index }, Zone::Slot(j)) => if slot_index == j {
            pokemon_index
        } else {
            None
        },
        (Selection::Hand { index }, Zone::Hand) => Some(index),
        (Selection::Discard { index }, Zone::Discard) => Some(index),
        (Selection::LostZone { index }, Zone::LostZone) => Some(index),
        (Selection::Prize { index }, Zone::Prize) => Some(index),
        (Selection::Stadium { index }, Zone::Stadium) => Some(index),
        _ => None,
    }
}

/// The positions within zone `z` that the addresses `ms` point at.
fn indices_in_zone(ms: &Vec<Selection>, z: Zone) -> (r: Vec<usize>)
    ensures
        r@ == zone_indices(ms@, z),
{
    let mut out: Vec<usize> = Vec::new();
    let mut k: usize = 0;
    while k < ms.len()
        invariant
            k <= ms.len(),
            out@ == zone_indices(ms@.take(k as int), z),
        decreases ms.len() - k,
    {
        assert(ms@.take(k as int + 1).drop_last() =~= ms@.take(k as int));
        match index_in_zone(ms[k], z) {
            Some(i) => out.push(i),
            None => {},
        }
        k = k + 1;
    }
    assert(ms@.take(ms.len() as int) =~= ms@);
    out
}

/// The cards under `ps`, in order.
fn prize_cards(ps: &Vec<PrizeCard>) -> (r: Vec<Card>)
    ensures
        r@ == cards_of(ps@),
{
    let mut out: Vec<Card> = Vec::new();
    let mut k: usize = 0;
    while k < ps.len()
        invariant
            k <= ps.len(),
            out@ == cards_of(ps@.take(k as int)),
        decreases ps.len() - k,
    {
        assert(ps@.take(k as int + 1).drop_last() =~= ps@.take(k as int));
        out.push(ps[k].card);
        k = k + 1;
    }
    assert(ps@.take(ps.len() as int) =~= ps@);
    out
}

impl CardLayout {
    /// Lifts every card that `ms` addresses out of its zone and returns them in
    /// ascending address order. Addresses of positions that do not exist lift nothing.
    fn lift_from_board(&mut self, ms: &Vec<Selection>) -> (r: Vec<Card>)
        ensures
            final(self)@ == removed(old(self)@, ms@),
            r@ == lifted(old(self)@, ms@),
    {
        let ghost l0 = self@;
        let mut out: Vec<Card> = Vec::new();
        let mut j: usize = 0;
        while j < self.slots.len()
            invariant
                j <= self.slots.len(),
                self.slots.len() == l0.slots.len(),
                forall|k: int| 0 <= k < j ==> #[trigger] self.slots@[k]@ == removed(l0, ms@).slots[k],
                forall|k: int| j <= k < self.slots.len() ==> #[trigger] self.slots@[k]@ == l0.slots[k],
                self.hand@ == l0.hand,
                self.discard@ == l0.discard,
                self.deck@ == l0.deck,
                self.lost_zone@ == l0.lost_zone,
                self.prizes@ == l0.prizes,
                self.stadium@ == l0.stadium,
                out@ == slots_lifted(l0.slots, ms@, j as int),
            decreases self.slots.len() - j,
        {
            let picks = indices_in_zone(ms, Zone::Slot(j));
            assert(self.slots@[j as int]@ == l0.slots[j as int]);
            assert(listed(picks@) == slot_picks(ms@, j as int));
            let (keep, mut take) = split_pile(&self.slots[j].cards, &picks);
            self.slots[j].cards = keep;
            assert(self.slots@[j as int]@ == removed(l0, ms@).slots[j as int]);
            out.append(&mut take);
            assert(out@ == slots_lifted(l0.slots, ms@, j as int + 1));
            j = j + 1;
        }
        let (keep, mut take) = split_pile(&self.hand, &indices_in_zone(ms, Zone::Hand));
        self.hand = keep;
        out.append(&mut take);
        let (keep, mut take) = split_pile(&self.discard, &indices_in_zone(ms, Zone::Discard));
        self.discard = keep;
        out.append(&mut take);
        let (keep, mut take) = split_pile(&self.lost_zone, &indices_in_zone(ms, Zone::LostZone));
        self.lost_zone = keep;
        out.append(&mut take);
        let (keep, take) = split_pile(&self.prizes, &indices_in_zone(ms, Zone::Prize));
        self.prizes = keep;
        let mut cards = prize_cards(&take);
        out.append(&mut cards);
        let (keep, mut take) = split_pile(&self.stadium, &indices_in_zone(ms, Zone::Stadium));
        self.stadium = keep;
        out.append(&mut take);
        assert(self@.slots =~= removed(l0, ms@).slots);
        out
    }

    /// Lifts the deck cards at the positions `picks` and returns them in deck order.
    fn lift_from_deck(&mut self, picks: &Vec<usize>) -> (r: Vec<Card>)
        ensures
            final(self)@ == (LayoutModel { deck: kept(old(self)@.deck, listed(picks@)), ..old(self)@ }),
            r@ == taken(old(self)@.deck, listed(picks@)),
    {
        let (keep, take) = split_pile(&self.deck, picks);
        self.deck = keep;
        take
    }

    /// Puts `block` at `d`, keeping its order.
    fn deliver(&mut self, d: Destination, block: Vec<Card>) -> (r: ())
        ensures
            final(self)@ == deliver(old(self)@, d, block@),
    {
        let mut moving = block;
        match d {
            Destination::DeckTop => self.deck.append(&mut moving),
            Destination::DeckBottom => prepend(&mut self.deck, moving),
            Destination::Hand => self.hand.append(&mut moving),
            Destination::Discard => self.discard.append(&mut moving),
            Destination::LostZone => self.lost_zone.append(&mut moving),
            Destination::Stadium => self.stadium.append(&mut moving),
            Destination::SlotEnd(j) => if j < self.slots.len() {
                self.slots[j].cards.append(&mut moving);
                assert(self@.slots =~= deliver(old(self)@, d, block@).slots);
            },
            Destination::SlotFront(j) => if j < self.slots.len() {
                prepend(&mut self.slots[j].cards, moving);
                assert(self@.slots =~= deliver(old(self)@, d, block@).slots);
            },
        }
    }
}

/// Puts `block` in front of `pile`.
fn prepend(pile: &mut Vec<Card>, block: Vec<Card>)
    ensures
        final(pile)@ == block@ + old(pile)@,
{
    let mut front = block;
    std::mem::swap(&mut front, pile);
    pile.append(&mut front);
}

impl CardLayout {
    /// Turns over each selected prize, one selection after another.
    fn flip_prizes(&mut self, selected: &Vec<Selection>)
        ensures
            final(self)@ == (LayoutModel { prizes: flip_prizes(old(self)@.prizes, selected@), ..old(self)@ }),
    {
        let ghost l0 = self@;
        let mut k: usize = 0;
        while k < selected.len()
            invariant
                k <= selected.len(),
                self@ == (LayoutModel { prizes: flip_prizes(l0.prizes, selected@.take(k as int)), ..l0 }),
            decreases selected.len() - k,
        {
            assert(selected@.take(k as int + 1).drop_last() =~= selected@.take(k as int));
            match selected[k] {
                Selection::Prize { index } => if index < self.prizes.len() {
                    let p = self.prizes[index];
                    self.prizes[index] = PrizeCard { card: p.card, is_face_up: !p.is_face_up };
                },
                _ => {},
            }
            k = k + 1;
        }
        assert(selected@.take(selected.len() as int) =~= selected@);
    }

    /// Bumps the damage of the slot of each selected card up or down, one selection
    /// after another.
    fn adjust_damage(&mut self, selected: &Vec<Selection>, up: bool)
        ensures
            final(self)@ == (LayoutModel { slots: adjust_damage(old(self)@.slots, selected@, up), ..old(self)@ }),
    {
        let ghost l0 = self@;
        let mut k: usize = 0;
        while k < selected.len()
            invariant
                k <= selected.len(),
                self@ == (LayoutModel { slots: adjust_damage(l0.slots, selected@.take(k as int), up), ..l0 }),
            decreases selected.len() - k,
        {
            assert(selected@.take(k as int + 1).drop_last() =~= selected@.take(k as int));
            let ghost prev = self@;
            match selected[k] {
                Selection::Slot { slot_index, pokemon_index: Some(_) } => if slot_index
                    < self.slots.len() {
                    let d = self.slots[slot_index].damage;
                    let nd = if up {
                        if d < u8::MAX {
                            d + 1
                        } else {
                            d
                        }
                    } else {
                        if d > 0 {
                            d - 1
                        } else {
                            d
                        }
                    };
                    self.slots[slot_index].damage = nd;
                    assert(self@.slots =~= adjust_damage(l0.slots, selected@.take(k as int + 1), up));
                },
                _ => {},
            }
            k = k + 1;
        }
        assert(selected@.take(selected.len() as int) =~= selected@);
    }

    /// Moves the top card of the deck, if any, to the end of the hand.
    fn draw(&mut self)
        ensures
            old(self)@.deck.len() > 0 ==> final(self)@ == (LayoutModel {
                deck: old(self)@.deck.drop_last(),
                hand: old(self)@.hand.push(old(self)@.deck.last()),
                ..old(self)@
            }),
            old(self)@.deck.len() == 0 ==> final(self)@ == old(self)@,
    {
        match self.deck.pop() {
            Some(top_card) => self.hand.push(top_card),
            None => {},
        }
    }

    /// Exchanges the whole contents of slots `a` and `b`.
    fn swap_slots(&mut self, a: usize, b: usize)
        requires
            a < old(self).slots.len(),
            b < old(self).slots.len(),
        ensures
            final(self)@ == (LayoutModel {
                slots: old(self)@.slots.update(a as int, old(self)@.slots[b as int]).update(
                    b as int,
                    old(self)@.slots[a as int],
                ),
                ..old(self)@
            }),
    {
        let ghost l0 = self@;
        let mut held = PokemonSlot { cards: Vec::new(), damage: 0 };
        std::mem::swap(&mut held, &mut self.slots[a]);
        let mut other = PokemonSlot { cards: Vec::new(), damage: 0 };
        std::mem::swap(&mut other, &mut self.slots[b]);
        if a == b {
            self.slots[a] = held;
        } else {
            self.slots[a] = other;
            self.slots[b] = held;
        }
        assert(self@.slots =~= l0.slots.update(a as int, l0.slots[b as int]).update(
            b as int,
            l0.slots[a as int],
        ));
    }
}

/// Where the cursor lands when `input` enters a zone of `l`, if it can.
fn zone_entry_of(l: &CardLayout, input: Input) -> (r: Option<Selection>)
    ensures
        r == zone_entry(l@, input),
{
    match input {
        Input::Slot(u) => if u == 0 || u > l.slots.len() {
            None
        } else {
            let pokemon_index = if l.slots[u - 1].cards.len() == 0 {
                None
            } else {
                Some(0usize)
            };
            Some(Selection::Slot { slot_index: u - 1, pokemon_index })
        },
        Input::Hand => if l.hand.len() > 0 {
            Some(Selection::Hand { index: 0 })
        } else {
            None
        },
        Input::Discard => if l.discard.len() > 0 {
            Some(Selection::Discard { index: 0 })
        } else {
            None
        },
        Input::Prizes => if l.prizes.len() > 0 {
            Some(Selection::Prize { index: 0 })
        } else {
            None
        },
        Input::LostZone => if l.lost_zone.len() > 0 {
            Some(Selection::LostZone { index: 0 })
        } else {
            None
        },
        Input::Stadium => if l.stadium.len() > 0 {
            Some(Selection::Stadium { index: 0 })
        } else {
            None
        },
        _ => None,
    }
}

/// The destination that `input` names while a move waits for `awaited`.
fn resolve_destination(awaited: MoveAwaitedInput, input: Input) -> (r: Option<Destination>)
    ensures
        r == resolve(awaited, input),
{
    match awaited {
        MoveAwaitedInput::SlotSpecific { slot } => match input {
            Input::Append => Some(Destination::SlotEnd(slot)),
            Input::Prepend => Some(Destination::SlotFront(slot)),
            _ => None,
        },
        MoveAwaitedInput::Any => match input {
            Input::Top => Some(Destination::DeckTop),
            Input::Bottom => Some(Destination::DeckBottom),
            Input::Hand => Some(Destination::Hand),
            Input::Discard => Some(Destination::Discard),
            Input::LostZone => Some(Destination::LostZone),
            Input::Stadium => Some(Destination::Stadium),
            _ => None,
        },
    }
}

/// A layout with `SLOT_COUNT` empty slots and every pile empty but the deck.
fn fresh_layout(deck: Pile) -> (r: CardLayout)
    ensures
        r@ == initial_layout(deck@),
{
    let mut slots: Vec<PokemonSlot> = Vec::new();
    let mut i: usize = 0;
    while i < SLOT_COUNT
        invariant
            i <= SLOT_COUNT,
            slots@.len() == i,
            forall|k: int| 0 <= k < i ==> #[trigger] slots@[k]@ == (SlotModel { cards: Seq::empty(), damage: 0 }),
        decreases SLOT_COUNT - i,
    {
        slots.push(PokemonSlot { cards: Vec::new(), damage: 0 });
        i = i + 1;
    }
    let r = CardLayout {
        slots,
        hand: Vec::new(),
        discard: Vec::new(),
        deck,
        lost_zone: Vec::new(),
        prizes: Vec::new(),
        stadium: Vec::new(),
    };
    assert(r@.slots =~= initial_layout(deck@).slots);
    r
}

impl CardLayout {
    /// Takes up to `PRIZE_COUNT` cards from the top of the deck and puts them face down
    /// at the end of the prizes.
    fn put_up_prizes(&mut self)
        ensures
            final(self)@ == put_up_prizes(old(self)@, PRIZE_COUNT as nat),
    {
        let mut k: usize = 0;
        while k < PRIZE_COUNT
            invariant
                k <= PRIZE_COUNT,
                put_up_prizes(old(self)@, PRIZE_COUNT as nat) == put_up_prizes(self@, (PRIZE_COUNT - k) as nat),
            decreases PRIZE_COUNT - k,
        {
            match self.deck.pop() {
                Some(top_card) => {
                    self.prizes.push(PrizeCard { card: top_card, is_face_up: false });
                },
                None => {},
            }
            k = k + 1;
        }
    }
}

impl State {
    /// A table for two 60-card decks, viewed by the first player in the default mode.
    pub fn make(deck1: Pile, deck2: Pile) -> (r: State)
        requires
            deck1.len() == DECK_SIZE,
            deck2.len() == DECK_SIZE,
        ensures
            r@ == (StateModel {
                player1: initial_layout(deck1@),
                player2: initial_layout(deck2@),
                viewing: Player::Player1,
                mode: ModeModel::Selecting(default_cursor()),
                alert: None,
            }),
            r@.wf(),
            card_count(r@.player1) == DECK_SIZE,
            card_count(r@.player2) == DECK_SIZE,
    {
        proof {
            lemma_initial_count(deck1@);
            lemma_initial_count(deck2@);
        }
        State {
            player1_layout: fresh_layout(deck1),
            player2_layout: fresh_layout(deck2),
            currently_viewing: Player::Player1,
            input_mode: InputMode::Selecting(SelectingState::<Selection>::default()),
            ui_alert: None,
        }
    }

    /// Shuffles both decks and puts up six face-down prizes from the top of each.
    pub fn setup(&mut self, rng: &mut rand::rngs::StdRng)
        ensures
            final(self).currently_viewing == old(self).currently_viewing,
            final(self)@.mode == old(self)@.mode,
            final(self).ui_alert == old(self).ui_alert,
            exists|d: Seq<Card>|
                d.to_multiset() == old(self)@.player1.deck.to_multiset() && final(self)@.player1
                    == set_up(old(self)@.player1, d),
            exists|d: Seq<Card>|
                d.to_multiset() == old(self)@.player2.deck.to_multiset() && final(self)@.player2
                    == set_up(old(self)@.player2, d),
            card_count(final(self)@.player1) == card_count(old(self)@.player1),
            card_count(final(self)@.player2) == card_count(old(self)@.player2),
            set_up_shape(old(self)@.player1, final(self)@.player1),
            set_up_shape(old(self)@.player2, final(self)@.player2),
            old(self)@.wf() ==> final(self)@.wf(),
    {
        let ghost l1 = old(self)@.player1;
        let ghost l2 = old(self)@.player2;
        shuffle_pile(&mut self.player1_layout.deck, rng);
        let ghost d1 = self.player1_layout.deck@;
        self.player1_layout.put_up_prizes();
        shuffle_pile(&mut self.player2_layout.deck, rng);
        let ghost d2 = self.player2_layout.deck@;
        self.player2_layout.put_up_prizes();
        assert(d1.to_multiset() == l1.deck.to_multiset() && self.player1_layout@ == set_up(l1, d1));
        assert(d2.to_multiset() == l2.deck.to_multiset() && self.player2_layout@ == set_up(l2, d2));
        proof {
            vstd::seq_lib::to_multiset_len(d1);
            vstd::seq_lib::to_multiset_len(l1.deck);
            vstd::seq_lib::to_multiset_len(d2);
            vstd::seq_lib::to_multiset_len(l2.deck);
            lemma_put_up_prizes(LayoutModel { deck: d1, ..l1 }, PRIZE_COUNT as nat);
            lemma_put_up_prizes(LayoutModel { deck: d2, ..l2 }, PRIZE_COUNT as nat);
        }
    }

    /// The layout of the player whose side is viewed.
    pub fn current_layout(&self) -> (r: &CardLayout)
        ensures
            r@ == self@.current(),
    {
        match self.currently_viewing {
            Player::Player1 => &self.player1_layout,
            Player::Player2 => &self.player2_layout,
        }
    }

    /// The layout of the player whose side is viewed, to change it.
    fn current_layout_mut(&mut self) -> (r: &mut CardLayout)
        ensures
            r@ == old(self)@.current(),
            final(self)@ == old(self)@.with_current(final(r)@),
            final(self).currently_viewing == old(self).currently_viewing,
            final(self).input_mode == old(self).input_mode,
            final(self).ui_alert == old(self).ui_alert,
    {
        match self.currently_viewing {
            Player::Player1 => &mut self.player1_layout,
            Player::Player2 => &mut self.player2_layout,
        }
    }

    /// The length of the zone that `h` points into (`None` for a slot off the board).
    fn highlighted_list_length(&self, h: &Selection) -> (r: Option<usize>)
        ensures
            r matches Some(n) ==> zone_len(self@.current(), *h) == Some(n as nat),
            r is None ==> zone_len(self@.current(), *h) is None,
    {
        let layout = self.current_layout();
        match h {
            Selection::Slot { slot_index, .. } => if *slot_index < layout.slots.len() {
                Some(layout.slots[*slot_index].cards.len())
            } else {
                None
            },
            Selection::Hand { .. } => Some(layout.hand.len()),
            Selection::Discard { .. } => Some(layout.discard.len()),
            Selection::LostZone { .. } => Some(layout.lost_zone.len()),
            Selection::Prize { .. } => Some(layout.prizes.len()),
            Selection::Stadium { .. } => Some(layout.stadium.len()),
        }
    }

    /// The card shown at `selection` on the viewed side, if one is shown there.
    pub fn card_at(&self, selection: &Selection) -> (r: Option<Card>)
        ensures
            r == spec_card_at(self@.current(), *selection),
    {
        let layout = self.current_layout();
        match selection {
            Selection::Hand { index } => if *index < layout.hand.len() {
                Some(layout.hand[*index])
            } else {
                None
            },
            Selection::Slot { slot_index, pokemon_index } => match pokemon_index {
                Some(pi) => if *slot_index < layout.slots.len() && *pi
                    < layout.slots[*slot_index].cards.len() {
                    Some(layout.slots[*slot_index].cards[*pi])
                } else {
                    None
                },
                None => None,
            },
            Selection::Discard { index } => if *index < layout.discard.len() {
                Some(layout.discard[*index])
            } else {
                None
            },
            Selection::Prize { index } => if *index < layout.prizes.len() {
                let prize = layout.prizes[*index];
                if prize.is_face_up {
                    Some(prize.card)
                } else {
                    None
                }
            } else {
                None
            },
            Selection::LostZone { index } => if *index < layout.lost_zone.len() {
                Some(layout.lost_zone[*index])
            } else {
                None
            },
            Selection::Stadium { index } => if *index < layout.stadium.len() {
                Some(layout.stadium[*index])
            } else {
                None
            },
        }
    }

    /// The card at position `selection` of the viewed deck, if there is one.
    pub fn deck_card_at(&self, selection: usize) -> (r: Option<Card>)
        ensures
            r == (if selection < self@.current().deck.len() {
                Some(self@.current().deck[selection as int])
            } else {
                None
            }),
    {
        let layout = self.current_layout();
        if selection < layout.deck.len() {
            Some(layout.deck[selection])
        } else {
            None
        }
    }
}

impl State {
    /// One input in the default mode with cursor `st`; the stored mode is not consulted.
    fn update_selecting(
        &mut self,
        st: LayoutSelectingState,
        input: Input,
        rng: &mut rand::rngs::StdRng,
    ) -> (r: InputMode)
        ensures
            final(self)@.with_mode(r@) == selecting_step(
                old(self)@.with_mode(ModeModel::Selecting(st@)),
                st@,
                input,
                rolled(final(self).ui_alert),
            ),
            input is Roll ==> 1 <= rolled(final(self).ui_alert) <= 6,
    {
        match input {
            Input::Left => {
                let h = st.current_highlight.change_deepest_index(-1);
                InputMode::Selecting(st.change_highlight(h))
            },
            Input::Right => {
                let len = self.highlighted_list_length(&st.current_highlight);
                let index = st.current_highlight.deepest_index();
                match (len, index) {
                    (Some(n), Some(i)) => if n > 0 && i < n - 1 {
                        let h = st.current_highlight.change_deepest_index(1);
                        InputMode::Selecting(st.change_highlight(h))
                    } else {
                        InputMode::Selecting(st)
                    },
                    _ => InputMode::Selecting(st),
                }
            },
            Input::Flip => {
                self.current_layout_mut().flip_prizes(&st.selected);
                InputMode::Selecting(st)
            },
            Input::Increment => {
                self.current_layout_mut().adjust_damage(&st.selected, true);
                InputMode::Selecting(st)
            },
            Input::Decrement => {
                self.current_layout_mut().adjust_damage(&st.selected, false);
                InputMode::Selecting(st)
            },
            Input::Select => InputMode::Selecting(st.add_to_selection()),
            Input::Cancel => InputMode::Selecting(st.clear_selected()),
            Input::Move => InputMode::Move {
                awaited_input: MoveAwaitedInput::Any,
                previous_state: PreviousMovingState::Selecting(st),
            },
            Input::Swap => InputMode::Swap { first_slot: None },
            Input::Deck => InputMode::Deck,
            Input::SwitchSides => {
                self.currently_viewing = match self.currently_viewing {
                    Player::Player1 => Player::Player2,
                    Player::Player2 => Player::Player1,
                };
                InputMode::Selecting(SelectingState::<Selection>::default())
            },
            Input::Roll => {
                let die_roll = roll_die(rng);
                self.ui_alert = Some(UIAlert::Roll(die_roll));
                InputMode::Selecting(st)
            },
            _ => match zone_entry_of(self.current_layout(), input) {
                Some(h) => InputMode::Selecting(st.change_highlight(h)),
                None => InputMode::Selecting(st),
            },
        }
    }

    /// One input in the deck menu; the stored mode is not consulted.
    fn update_deck(&mut self, input: Input, rng: &mut rand::rngs::StdRng) -> (r: InputMode)
        requires
            !(input is Observe),
        ensures
            final(self)@.with_mode(r@) == deck_step(
                old(self)@.with_mode(ModeModel::Deck),
                input,
                final(self)@.current().deck,
            ),
            input is Shuffle ==> final(self)@.current().deck.to_multiset()
                == old(self)@.current().deck.to_multiset(),
    {
        match input {
            Input::Cancel => InputMode::Selecting(SelectingState::<Selection>::default()),
            Input::Deck => {
                self.current_layout_mut().draw();
                InputMode::Deck
            },
            Input::Select => InputMode::DeckSearch(SelectingState::<usize>::default()),
            Input::Shuffle => {
                shuffle_pile(&mut self.current_layout_mut().deck, rng);
                self.ui_alert = Some(UIAlert::Shuffled);
                InputMode::Deck
            },
            _ => match zone_entry_of(self.current_layout(), input) {
                Some(h) => InputMode::Selecting(SelectingState::<Selection>::default().change_highlight(h)),
                None => InputMode::Deck,
            },
        }
    }

    /// One input while searching the deck with cursor `st`.
    fn update_deck_search(&self, st: PileSelectingState, input: Input) -> (r: InputMode)
        ensures
            self@.with_mode(r@) == search_step(self@.with_mode(ModeModel::DeckSearch(st@)), st@, input),
    {
        match input {
            Input::Cancel => InputMode::Deck,
            Input::Left => {
                let h = if st.current_highlight == 0 {
                    0
                } else {
                    st.current_highlight - 1
                };
                InputMode::DeckSearch(st.change_highlight(h))
            },
            Input::Right => {
                let h = if st.current_highlight >= self.current_layout().deck.len() {
                    st.current_highlight
                } else {
                    st.current_highlight + 1
                };
                InputMode::DeckSearch(st.change_highlight(h))
            },
            Input::Select => InputMode::DeckSearch(st.add_to_selection()),
            Input::Move => InputMode::Move {
                awaited_input: MoveAwaitedInput::Any,
                previous_state: PreviousMovingState::DeckSearch(st),
            },
            _ => InputMode::DeckSearch(st),
        }
    }

    /// One input while choosing two slots to exchange.
    fn update_swap(&mut self, first_slot: Option<usize>, input: Input) -> (r: InputMode)
        requires
            old(self)@.current().wf(),
            first_slot matches Some(f) ==> 1 <= f <= SLOT_COUNT,
        ensures
            final(self)@.with_mode(r@) == swap_step(
                old(self)@.with_mode(ModeModel::Swap { first_slot }),
                first_slot,
                input,
            ),
    {
        match input {
            Input::Cancel => InputMode::Selecting(SelectingState::<Selection>::default()),
            Input::Slot(slot) => {
                if slot == 0 || slot > self.current_layout().slots.len() {
                    InputMode::Swap { first_slot }
                } else {
                    match first_slot {
                        Some(f) => {
                            self.current_layout_mut().swap_slots(f - 1, slot - 1);
                            InputMode::Selecting(SelectingState::<Selection>::default())
                        },
                        None => InputMode::Swap { first_slot: Some(slot) },
                    }
                }
            },
            _ => InputMode::Swap { first_slot },
        }
    }

    /// One input while a move waits for its destination; carries the move out once the
    /// destination is known, or restores `previous_state` on `Cancel`.
    fn handle_move(
        &mut self,
        awaited_input: MoveAwaitedInput,
        previous_state: PreviousMovingState,
        input: &Input,
    ) -> (r: InputMode)
        requires
            !(previous_state is Look),
        ensures
            final(self)@.with_mode(r@) == move_step(
                old(self)@.with_mode(
                    ModeModel::Move { awaited_input, previous_state: previous_state@ },
                ),
                awaited_input,
                previous_state@,
                *input,
            ),
    {
        match *input {
            Input::Cancel => {
                return match previous_state {
                    PreviousMovingState::Selecting(st) => InputMode::Selecting(st),
                    PreviousMovingState::DeckSearch(st) => InputMode::DeckSearch(st),
                    PreviousMovingState::Look(st) => InputMode::Look(st),
                };
            },
            Input::Slot(slot) => {
                if slot == 0 || slot > self.current_layout().slots.len() {
                    return InputMode::Move { awaited_input, previous_state };
                }
                return InputMode::Move {
                    awaited_input: MoveAwaitedInput::SlotSpecific { slot: slot - 1 },
                    previous_state,
                };
            },
            _ => {},
        }
        let destination = match resolve_destination(awaited_input, *input) {
            Some(d) => d,
            None => {
                return InputMode::Move { awaited_input, previous_state };
            },
        };
        match previous_state {
            PreviousMovingState::Selecting(st) => {
                let mut moving = st.selected;
                moving.push(st.current_highlight);
                let layout = self.current_layout_mut();
                let cards = layout.lift_from_board(&moving);
                layout.deliver(destination, cards);
                InputMode::Selecting(SelectingState::<Selection>::default())
            },
            PreviousMovingState::DeckSearch(st) => {
                let mut moving = st.selected;
                moving.push(st.current_highlight);
                let layout = self.current_layout_mut();
                let cards = layout.lift_from_deck(&moving);
                layout.deliver(destination, cards);
                InputMode::DeckSearch(SelectingState::<usize>::default())
            },
            PreviousMovingState::Look(st) => InputMode::Move {
                awaited_input,
                previous_state: PreviousMovingState::Look(st),
            },
        }
    }

    /// Applies one input: clears the alert, then acts as the current mode directs.
    /// `rng` supplies the outcome of shuffles and die rolls.
    pub fn update(&mut self, input: &Input, rng: &mut rand::rngs::StdRng)
        requires
            old(self)@.wf(),
            !(old(self)@.mode is Deck && *input is Observe),
        ensures
            final(self)@ == step(
                old(self)@,
                *input,
                rolled(final(self).ui_alert),
                final(self)@.current().deck,
            ),
            rolls(old(self)@.mode, *input) ==> 1 <= rolled(final(self).ui_alert) <= 6,
            shuffles(old(self)@.mode, *input) ==> final(self)@.current().deck.to_multiset()
                == old(self)@.current().deck.to_multiset(),
            final(self)@.wf(),
            card_count(final(self)@.player1) == card_count(old(self)@.player1),
            card_count(final(self)@.player2) == card_count(old(self)@.player2),
            !carries_prize(old(self)@) ==> final(self)@.player1.prizes.len()
                == old(self)@.player1.prizes.len() && final(self)@.player2.prizes.len()
                == old(self)@.player2.prizes.len(),
    {
        self.ui_alert = None;
        let mut mode = InputMode::Deck;
        std::mem::swap(&mut mode, &mut self.input_mode);
        let next = match mode {
            InputMode::Selecting(st) => self.update_selecting(st, *input, rng),
            InputMode::Deck => self.update_deck(*input, rng),
            InputMode::DeckSearch(st) => self.update_deck_search(st, *input),
            InputMode::Look(st) => InputMode::Look(st),
            InputMode::Move { awaited_input, previous_state } => self.handle_move(
                awaited_input,
                previous_state,
                input,
            ),
            InputMode::Swap { first_slot } => self.update_swap(first_slot, *input),
        };
        self.input_mode = next;
        proof {
            let roll = rolled(self.ui_alert);
            let shuffled = self@.current().deck;
            if shuffles(old(self)@.mode, *input) {
                vstd::seq_lib::to_multiset_len(shuffled);
                vstd::seq_lib::to_multiset_len(old(self)@.current().deck);
            }
            lemma_step_conserves_cards(old(self)@, *input, roll, shuffled);
            if !carries_prize(old(self)@) {
                lemma_prize_count_kept(old(self)@, *input, roll, shuffled);
            }
        }
    }
}

} // verus!
