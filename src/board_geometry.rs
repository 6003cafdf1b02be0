//! Where each card of the board is drawn, in window pixels.
use crate::display_constants::{
    BENCH_ACTIVE_DISTANCE, BENCH_DECK_DISTANCE, BENCH_WIDTH, BOARD_SIDE_MARGIN,
    CARD_LARGE_DISPLAY_HEIGHT, CARD_LARGE_DISPLAY_WIDTH, CARD_SMALL_DISPLAY_HEIGHT,
    CARD_SMALL_DISPLAY_WIDTH, DECK_DISCARD_DISTANCE, HAND_MAT_DISTANCE, ATTACH_OFFSET_X,
    ATTACH_OFFSET_X_ACTIVE, ATTACH_OFFSET_Y, ATTACH_OFFSET_Y_ACTIVE, LOST_ZONE_STADIUM_DISTANCE,
    PRIZES_BENCH_DISTANCE, PRIZES_LOST_ZONE_DISTANCE, SPACE_BETWEEN_ADJACENT_PRIZES, WINDOW_HEIGHT,
    WINDOW_WIDTH,
};
use vstd::prelude::*;

verus! {

/// How large a card is drawn.
#[derive(Clone, Copy, Debug, PartialEq, Eq, Structural)]
pub enum CardDisplaySize {
    Small,
    Large,
}

/// Which half of the window a layout is drawn in.
#[derive(Clone, Copy, Debug, PartialEq, Eq, Structural)]
pub enum Side {
    /// The viewed player's half, at the bottom, drawn mirrored upwards.
    Facing,
    /// The other player's half, at the top.
    Opposing,
}

impl CardDisplaySize {
    /// The width and height a card of this size is drawn with.
    pub fn dims(self) -> (r: (u32, u32))
        ensures
            r == (match self {
                CardDisplaySize::Small => (CARD_SMALL_DISPLAY_WIDTH, CARD_SMALL_DISPLAY_HEIGHT),
                CardDisplaySize::Large => (CARD_LARGE_DISPLAY_WIDTH, CARD_LARGE_DISPLAY_HEIGHT),
            }),
    {
        match self {
            CardDisplaySize::Small => (CARD_SMALL_DISPLAY_WIDTH, CARD_SMALL_DISPLAY_HEIGHT),
            CardDisplaySize::Large => (CARD_LARGE_DISPLAY_WIDTH, CARD_LARGE_DISPLAY_HEIGHT),
        }
    }
}

/// The window row of a card top that lies `y` pixels in from the edge of `side`.
pub open spec fn side_y(side: Side, y: int) -> int {
    match side {
        Side::Facing => WINDOW_HEIGHT - CARD_SMALL_DISPLAY_HEIGHT - y,
        Side::Opposing => y,
    }
}

pub open spec fn fits_i32(v: int) -> bool {
    i32::MIN <= v <= i32::MAX
}

impl Side {
    /// The window row of a card top that lies `y` pixels in from this side's edge.
    pub fn y(&self, y: i32) -> (r: i32)
        requires
            fits_i32(side_y(*self, y as int)),
        ensures
            r == side_y(*self, y as int),
    {
        match self {
            Side::Facing => (WINDOW_HEIGHT as i32) - (CARD_SMALL_DISPLAY_HEIGHT as i32) - y,
            Side::Opposing => y,
        }
    }
}

/// The width left for the board once the large card view is taken off.
pub open spec fn board_width() -> int {
    WINDOW_WIDTH - CARD_LARGE_DISPLAY_WIDTH
}

/// The column of card `index` of a row of `len` cards: centred at full width when the row
/// fits, else squeezed from the left edge to fit the board.
pub open spec fn list_x(index: int, len: int) -> int {
    let list_width = CARD_SMALL_DISPLAY_WIDTH * len;
    if list_width <= board_width() {
        (board_width() - list_width) / 2 + index * CARD_SMALL_DISPLAY_WIDTH
    } else {
        index * (board_width() / len)
    }
}

/// The column of card `index` in a row of `len` cards.
pub fn card_list_x(index: usize, len: usize) -> (r: i32)
    requires
        CARD_SMALL_DISPLAY_WIDTH * len <= u32::MAX,
        index * CARD_SMALL_DISPLAY_WIDTH + board_width() <= i32::MAX,
    ensures
        r == list_x(index as int, len as int),
{
    let effective_width = WINDOW_WIDTH - CARD_LARGE_DISPLAY_WIDTH;
    let list_width = CARD_SMALL_DISPLAY_WIDTH * len as u32;
    if list_width <= effective_width {
        let start = (effective_width as i32 - list_width as i32) / 2;
        start + (index as i32 * CARD_SMALL_DISPLAY_WIDTH as i32)
    } else {
        let card_display_width = effective_width / len as u32;
        proof {
            let w = effective_width as int;
            let n = len as int;
            assert(w / n <= 60) by (nonlinear_arith)
                requires
                    w == 850,
                    60 * n > 850,
            ;
            assert(card_display_width <= CARD_SMALL_DISPLAY_WIDTH);
            assert(index * card_display_width <= index * CARD_SMALL_DISPLAY_WIDTH) by (nonlinear_arith)
                requires
                    card_display_width <= CARD_SMALL_DISPLAY_WIDTH,
                    index >= 0,
            ;
        }
        index as i32 * card_display_width as i32
    }
}

/// Where card `hand_index` of a hand of `hand_len` cards is drawn.
pub fn hand_card_location(hand_index: usize, hand_len: usize, side: Side) -> (r: (i32, i32))
    requires
        CARD_SMALL_DISPLAY_WIDTH * hand_len <= u32::MAX,
        hand_index * CARD_SMALL_DISPLAY_WIDTH + board_width() <= i32::MAX,
    ensures
        r == (list_x(hand_index as int, hand_len as int) as i32, side_y(side, 0) as i32),
{
    (card_list_x(hand_index, hand_len), side.y(0))
}

/// Where card `index` of `len` is drawn when a deck or discard pile is spread out.
pub fn deck_and_discard_card_location(index: usize, len: usize) -> (r: (i32, i32))
    requires
        CARD_SMALL_DISPLAY_WIDTH * len <= u32::MAX,
        index * CARD_SMALL_DISPLAY_WIDTH + board_width() <= i32::MAX,
    ensures
        r == (
            list_x(index as int, len as int) as i32,
            ((WINDOW_HEIGHT - CARD_SMALL_DISPLAY_HEIGHT) / 2) as i32,
        ),
{
    let y = (WINDOW_HEIGHT - CARD_SMALL_DISPLAY_HEIGHT) / 2;
    (card_list_x(index, len), y as i32)
}

/// The top of the prize grid, from the edge of a side.
pub open spec fn prizes_top() -> int {
    CARD_SMALL_DISPLAY_HEIGHT + HAND_MAT_DISTANCE
}

/// Where prize `i` is drawn: two columns, filled row by row.
pub fn prize_card_location(i: usize, side: Side) -> (r: (i32, i32))
    requires
        prizes_top() + (i / 2) * (CARD_SMALL_DISPLAY_HEIGHT + SPACE_BETWEEN_ADJACENT_PRIZES)
            <= i32::MAX,
    ensures
        r == (
            (BOARD_SIDE_MARGIN + (i % 2) * (CARD_SMALL_DISPLAY_WIDTH + SPACE_BETWEEN_ADJACENT_PRIZES)) as i32,
            side_y(
                side,
                prizes_top() + (i / 2) * (CARD_SMALL_DISPLAY_HEIGHT + SPACE_BETWEEN_ADJACENT_PRIZES),
            ) as i32,
        ),
{
    let start_y = CARD_SMALL_DISPLAY_HEIGHT as i32 + HAND_MAT_DISTANCE;
    let start_x = BOARD_SIDE_MARGIN;
    proof {
        let g = (i / 2) as int;
        assert(g <= i32::MAX) by (nonlinear_arith)
            requires
                155 + g * 90 <= i32::MAX,
                g >= 0,
        ;
    }
    let grid_x = (i % 2) as i32;
    let grid_y = (i / 2) as i32;
    let extra_x = grid_x * (CARD_SMALL_DISPLAY_WIDTH as i32 + SPACE_BETWEEN_ADJACENT_PRIZES);
    let extra_y = grid_y * (CARD_SMALL_DISPLAY_HEIGHT as i32 + SPACE_BETWEEN_ADJACENT_PRIZES);
    (start_x + extra_x, side.y(start_y + extra_y))
}

/// The left edge of the bench.
pub open spec fn bench_x() -> int {
    BOARD_SIDE_MARGIN + CARD_SMALL_DISPLAY_WIDTH * 2 + SPACE_BETWEEN_ADJACENT_PRIZES
        + PRIZES_BENCH_DISTANCE
}

/// Where a slot's card `card_index` is drawn: the active slot in the middle, the five
/// bench slots in a row, each later card of a stack shifted by the attachment offset.
pub open spec fn slot_location(slot_index: int, card_index: int, side: Side) -> (int, int) {
    let bench_y = prizes_top();
    if slot_index == 0 {
        (
            bench_x() + (BENCH_WIDTH - CARD_SMALL_DISPLAY_WIDTH) / 2 + card_index
                * ATTACH_OFFSET_X_ACTIVE,
            side_y(
                side,
                BENCH_ACTIVE_DISTANCE + CARD_SMALL_DISPLAY_HEIGHT + bench_y + card_index
                    * ATTACH_OFFSET_Y_ACTIVE,
            ),
        )
    } else {
        (
            bench_x() + (slot_index - 1) * (BENCH_WIDTH / 5) + card_index * ATTACH_OFFSET_X,
            side_y(side, bench_y + card_index * ATTACH_OFFSET_Y),
        )
    }
}

/// Where card `card_index` of slot `slot_index` is drawn.
pub fn slot_card_location(slot_index: usize, card_index: usize, side: Side) -> (r: (i32, i32))
    requires
        slot_index < crate::state::SLOT_COUNT,
        card_index * ATTACH_OFFSET_X_ACTIVE + pile_x() <= i32::MAX,
    ensures
        r == ((slot_location(slot_index as int, card_index as int, side).0) as i32, (slot_location(
            slot_index as int,
            card_index as int,
            side,
        ).1) as i32),
{
    let bench_x = BOARD_SIDE_MARGIN + CARD_SMALL_DISPLAY_WIDTH as i32 * 2
        + SPACE_BETWEEN_ADJACENT_PRIZES + PRIZES_BENCH_DISTANCE;
    let active_x = bench_x + ((BENCH_WIDTH - CARD_SMALL_DISPLAY_WIDTH) / 2) as i32;
    let bench_y = CARD_SMALL_DISPLAY_HEIGHT as i32 + HAND_MAT_DISTANCE;
    let active_y = BENCH_ACTIVE_DISTANCE + CARD_SMALL_DISPLAY_HEIGHT as i32 + bench_y;
    let (x, y, offset_x, offset_y) = if slot_index == 0 {
        (active_x, active_y, ATTACH_OFFSET_X_ACTIVE, ATTACH_OFFSET_Y_ACTIVE)
    } else {
        let bench_index = (slot_index - 1) as i32;
        let bench_slot_width = (BENCH_WIDTH / 5) as i32;
        assert(bench_slot_width == 97);
        assert(0 <= bench_index < 5);
        (bench_x + bench_index * bench_slot_width, bench_y, ATTACH_OFFSET_X, ATTACH_OFFSET_Y)
    };
    let offset_x = card_index as i32 * offset_x;
    let offset_y = card_index as i32 * offset_y;
    (x + offset_x, side.y(y + offset_y))
}

/// The column of the discard pile and the deck.
pub open spec fn pile_x() -> int {
    bench_x() + BENCH_WIDTH + BENCH_DECK_DISTANCE
}

/// Where the top of the discard pile is drawn.
pub fn discard_location(side: Side) -> (r: (i32, i32))
    ensures
        r == (pile_x() as i32, side_y(side, prizes_top()) as i32),
{
    let x = BOARD_SIDE_MARGIN + CARD_SMALL_DISPLAY_WIDTH as i32 * 2 + SPACE_BETWEEN_ADJACENT_PRIZES
        + PRIZES_BENCH_DISTANCE + BENCH_WIDTH as i32 + BENCH_DECK_DISTANCE;
    let y = CARD_SMALL_DISPLAY_HEIGHT as i32 + HAND_MAT_DISTANCE;
    (x, side.y(y))
}

/// Where the deck is drawn: below the discard pile.
pub fn deck_location(side: Side) -> (r: (i32, i32))
    ensures
        r == (pile_x() as i32, side_y(
            side,
            CARD_SMALL_DISPLAY_HEIGHT * 2 + HAND_MAT_DISTANCE + DECK_DISCARD_DISTANCE,
        ) as i32),
{
    let (x, _) = discard_location(side);
    let y = CARD_SMALL_DISPLAY_HEIGHT as i32 * 2 + HAND_MAT_DISTANCE + DECK_DISCARD_DISTANCE;
    (x, side.y(y))
}

/// The row of the lost zone and the stadium, from the edge of a side: below the prizes.
pub open spec fn lost_zone_row() -> int {
    prizes_top() + 2 * (CARD_SMALL_DISPLAY_HEIGHT + SPACE_BETWEEN_ADJACENT_PRIZES)
}

/// The column of the lost zone.
pub open spec fn lost_zone_x() -> int {
    BOARD_SIDE_MARGIN + CARD_SMALL_DISPLAY_WIDTH * 2 + SPACE_BETWEEN_ADJACENT_PRIZES
        + PRIZES_LOST_ZONE_DISTANCE
}

/// Where the top of the lost zone is drawn.
pub fn lost_zone_location(side: Side) -> (r: (i32, i32))
    ensures
        r == (lost_zone_x() as i32, side_y(side, lost_zone_row()) as i32),
{
    let x = BOARD_SIDE_MARGIN + CARD_SMALL_DISPLAY_WIDTH as i32 * 2 + SPACE_BETWEEN_ADJACENT_PRIZES
        + PRIZES_LOST_ZONE_DISTANCE;
    let y = CARD_SMALL_DISPLAY_HEIGHT as i32 + HAND_MAT_DISTANCE + 2 * (
    CARD_SMALL_DISPLAY_HEIGHT as i32 + SPACE_BETWEEN_ADJACENT_PRIZES);
    (x, side.y(y))
}

/// Where the top of the stadium pile is drawn: right of the lost zone.
pub fn stadium_location(side: Side) -> (r: (i32, i32))
    ensures
        r == ((lost_zone_x() + LOST_ZONE_STADIUM_DISTANCE) as i32, side_y(side, lost_zone_row()) as i32),
{
    let (stadium_x, y) = lost_zone_location(side);
    (stadium_x + LOST_ZONE_STADIUM_DISTANCE, y)
}

} // verus!
