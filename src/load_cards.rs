//! The card catalogue and the two deck-list text formats that feed it.
use crate::state::Card;
use crate::text_lines::{copy_bytes, lines_of, split_lines, views};
use vstd::prelude::*;
use vstd::string::StringSliceAdditionalSpecFns;

verus! {

/// Width of a card image in the catalogue.
pub const CARD_SOURCE_WIDTH: u32 = 600;

/// Height of a card image in the catalogue.
pub const CARD_SOURCE_HEIGHT: u32 = 835;

pub const PLUS_SIGN: u8 = 43;

pub const DIGIT_ZERO: u8 = 48;

pub const DIGIT_NINE: u8 = 57;

/// Maps card names to catalogue indices and indices to image dimensions.
pub struct CardIndexer {
    /// The name of the card at each catalogue index.
    names: Vec<Vec<u8>>,
    dimensions: Vec<(u32, u32)>,
}

pub struct CatalogueModel {
    pub names: Seq<Seq<u8>>,
    pub dimensions: Seq<(u32, u32)>,
}

impl View for CardIndexer {
    type V = CatalogueModel;

    closed spec fn view(&self) -> CatalogueModel {
        CatalogueModel { names: views(self.names@), dimensions: self.dimensions@ }
    }
}

// ---------------------------------------------------------------------------
// Specification
// ---------------------------------------------------------------------------

/// The index `name` maps to: its last entry, as a later entry overrides an earlier one.
pub open spec fn last_index_of(names: Seq<Seq<u8>>, name: Seq<u8>) -> Option<int>
    decreases names.len(),
{
    if names.len() == 0 {
        None
    } else if names.last() == name {
        Some(names.len() - 1)
    } else {
        last_index_of(names.drop_last(), name)
    }
}

/// The lines that name something (longer than two bytes); shorter lines hold counts.
pub open spec fn named_lines(ls: Seq<Seq<u8>>) -> Seq<Seq<u8>>
    decreases ls.len(),
{
    if ls.len() == 0 {
        Seq::empty()
    } else if ls.last().len() > 2 {
        named_lines(ls.drop_last()).push(ls.last())
    } else {
        named_lines(ls.drop_last())
    }
}

/// Consecutive lines taken two by two as (set, card).
pub open spec fn pairs_of(ns: Seq<Seq<u8>>) -> Seq<(Seq<u8>, Seq<u8>)> {
    Seq::new(ns.len() / 2, |k: int| (ns[2 * k], ns[2 * k + 1]))
}

/// The first occurrence of each pair, in order.
pub open spec fn distinct(ps: Seq<(Seq<u8>, Seq<u8>)>) -> Seq<(Seq<u8>, Seq<u8>)>
    decreases ps.len(),
{
    if ps.len() == 0 {
        Seq::empty()
    } else if ps.drop_last().contains(ps.last()) {
        distinct(ps.drop_last())
    } else {
        distinct(ps.drop_last()).push(ps.last())
    }
}

/// The catalogue entries two deck lists name: each distinct (set, card) pair once, or
/// `None` if the named lines do not pair up.
pub open spec fn catalogue_of(deck1: Seq<u8>, deck2: Seq<u8>) -> Option<Seq<(Seq<u8>, Seq<u8>)>> {
    let ns = named_lines(lines_of(deck1) + lines_of(deck2));
    if ns.len() % 2 == 0 {
        Some(distinct(pairs_of(ns)))
    } else {
        None
    }
}

pub open spec fn pair_views(v: Seq<(Vec<u8>, Vec<u8>)>) -> Seq<(Seq<u8>, Seq<u8>)> {
    v.map_values(|p: (Vec<u8>, Vec<u8>)| (p.0@, p.1@))
}

/// The non-empty lines whose position leaves remainder `r` when divided by three.
pub open spec fn lines_at(ls: Seq<Seq<u8>>, r: int) -> Seq<Seq<u8>>
    decreases ls.len(),
{
    if ls.len() == 0 {
        Seq::empty()
    } else if (ls.len() - 1) % 3 == r && ls.last().len() > 0 {
        lines_at(ls.drop_last(), r).push(ls.last())
    } else {
        lines_at(ls.drop_last(), r)
    }
}

/// The value of a string of decimal digits.
pub open spec fn digits_value(s: Seq<u8>) -> nat
    decreases s.len(),
{
    if s.len() == 0 {
        0
    } else {
        digits_value(s.drop_last()) * 10 + (s.last() - DIGIT_ZERO) as nat
    }
}

pub open spec fn all_digits(s: Seq<u8>) -> bool {
    forall|i: int| 0 <= i < s.len() ==> DIGIT_ZERO <= #[trigger] s[i] <= DIGIT_NINE
}

/// An unsigned 32-bit decimal number: an optional plus sign and at least one digit.
pub open spec fn count_value(s: Seq<u8>) -> Option<u32> {
    let d = if s.len() > 0 && s[0] == PLUS_SIGN {
        s.skip(1)
    } else {
        s
    };
    if d.len() > 0 && all_digits(d) && digits_value(d) <= u32::MAX {
        Some(digits_value(d) as u32)
    } else {
        None
    }
}

/// The deck that the first `m` (count, card) entries describe, each card repeated
/// count times, or `None` if a count is malformed or a card is not in the catalogue.
pub open spec fn deck_from(
    counts: Seq<Seq<u8>>,
    cards: Seq<Seq<u8>>,
    names: Seq<Seq<u8>>,
    m: int,
) -> Option<Seq<Card>>
    decreases m,
{
    if m <= 0 {
        Some(Seq::empty())
    } else {
        match (
            deck_from(counts, cards, names, m - 1),
            count_value(counts[m - 1]),
            last_index_of(names, cards[m - 1]),
        ) {
            (Some(d), Some(n), Some(i)) => Some(d + Seq::new(n as nat, |j: int| i as usize)),
            _ => None,
        }
    }
}

/// The deck a deck list describes. Its lines come in threes: a count, a set and a card
/// name; empty lines are skipped but keep their place in the count of three.
pub open spec fn deck_of(text: Seq<u8>, names: Seq<Seq<u8>>) -> Option<Seq<Card>> {
    let ls = lines_of(text);
    let counts = lines_at(ls, 0);
    let cards = lines_at(ls, 2);
    if counts.len() < cards.len() {
        None
    } else {
        deck_from(counts, cards, names, cards.len() as int)
    }
}

// ---------------------------------------------------------------------------
// Byte helpers
// ---------------------------------------------------------------------------

/// Whether `a` and `b` hold the same bytes.
fn same_bytes(a: &[u8], b: &[u8]) -> (r: bool)
    ensures
        r == (a@ == b@),
{
    if a.len() != b.len() {
        return false;
    }
    let mut k: usize = 0;
    while k < a.len()
        invariant
            k <= a@.len(),
            a@.len() == b@.len(),
            forall|j: int| 0 <= j < k ==> a@[j] == b@[j],
        decreases a@.len() - k,
    {
        if a[k] != b[k] {
            return false;
        }
        k = k + 1;
    }
    assert(a@ =~= b@);
    true
}

proof fn lemma_digits_prefix_monotone(d: Seq<u8>, k: int)
    requires
        0 <= k <= d.len(),
    ensures
        digits_value(d.take(k)) <= digits_value(d),
    decreases d.len() - k,
{
    assert(d.take(d.len() as int) =~= d);
    if k < d.len() {
        lemma_digits_prefix_monotone(d, k + 1);
        assert(d.take(k + 1).drop_last() =~= d.take(k));
        let a = digits_value(d.take(k));
        let b = (d.take(k + 1).last() - DIGIT_ZERO) as nat;
        assert(digits_value(d.take(k + 1)) == a * 10 + b);
        assert(a * 10 + b >= a) by (nonlinear_arith);
    }
}

/// Reads an unsigned 32-bit decimal count.
pub fn parse_count(s: &[u8]) -> (r: Option<u32>)
    ensures
        r == count_value(s@),
{
    let start: usize = if s.len() > 0 && s[0] == PLUS_SIGN {
        1
    } else {
        0
    };
    let ghost d = if s@.len() > 0 && s@[0] == PLUS_SIGN {
        s@.skip(1)
    } else {
        s@
    };
    assert(d =~= s@.subrange(start as int, s@.len() as int));
    if start >= s.len() {
        return None;
    }
    let mut value: u64 = 0;
    let mut k: usize = start;
    while k < s.len()
        invariant
            start <= k <= s@.len(),
            d == (if s@.len() > 0 && s@[0] == PLUS_SIGN {
                s@.skip(1)
            } else {
                s@
            }),
            d =~= s@.subrange(start as int, s@.len() as int),
            value == digits_value(d.take(k - start)),
            value <= u32::MAX,
            forall|j: int| 0 <= j < k - start ==> DIGIT_ZERO <= #[trigger] d[j] <= DIGIT_NINE,
        decreases s@.len() - k,
    {
        let c = s[k];
        assert(d[k - start] == c);
        if c < DIGIT_ZERO || c > DIGIT_NINE {
            assert(!(DIGIT_ZERO <= d[k - start] <= DIGIT_NINE));
            assert(!all_digits(d));
            return None;
        }
        assert(d.take(k - start + 1).drop_last() =~= d.take(k - start));
        assert(d.take(k - start + 1).last() == c);
        value = value * 10 + (c - DIGIT_ZERO) as u64;
        k = k + 1;
        assert(value == digits_value(d.take(k - start)));
        if value > u32::MAX as u64 {
            proof {
                lemma_digits_prefix_monotone(d, k - start);
            }
            return None;
        }
    }
    assert(d.take(d.len() as int) =~= d);
    Some(value as u32)
}

// ---------------------------------------------------------------------------
// The catalogue
// ---------------------------------------------------------------------------

/// The image dimensions of the cards of a set.
pub fn dimensions_from_set(set: &[u8]) -> (r: (u32, u32))
    ensures
        r == (CARD_SOURCE_WIDTH, CARD_SOURCE_HEIGHT),
{
    (CARD_SOURCE_WIDTH, CARD_SOURCE_HEIGHT)
}

impl CardIndexer {
    pub closed spec fn wf(&self) -> bool {
        self.names.len() == self.dimensions.len()
    }

    /// A catalogue of `entries`, (set, card) pairs: entry `i` gets index `i`.
    pub fn from_entries(entries: &Vec<(Vec<u8>, Vec<u8>)>) -> (r: CardIndexer)
        ensures
            r.wf(),
            r@.names == pair_views(entries@).map_values(|p: (Seq<u8>, Seq<u8>)| p.1),
            r@.dimensions.len() == entries@.len(),
            forall|i: int|
                0 <= i < entries@.len() ==> r@.dimensions[i] == dimensions_from_set_spec(
                    entries@[i].0@,
                ),
    {
        let mut names: Vec<Vec<u8>> = Vec::new();
        let mut dimensions: Vec<(u32, u32)> = Vec::new();
        let mut k: usize = 0;
        while k < entries.len()
            invariant
                k <= entries@.len(),
                names@.len() == k,
                dimensions@.len() == k,
                forall|i: int| 0 <= i < k ==> (#[trigger] names@[i])@ == entries@[i].1@,
                forall|i: int|
                    0 <= i < k ==> #[trigger] dimensions@[i] == dimensions_from_set_spec(
                        entries@[i].0@,
                    ),
            decreases entries@.len() - k,
        {
            let set = entries[k].0.as_slice();
            let card = entries[k].1.as_slice();
            dimensions.push(dimensions_from_set(set));
            names.push(copy_bytes(card));
            k = k + 1;
        }
        let r = CardIndexer { names, dimensions };
        assert(r@.names =~= pair_views(entries@).map_values(|p: (Seq<u8>, Seq<u8>)| p.1));
        r
    }

    /// The index of the card named `card_name`, if the catalogue has it.
    pub fn find(&self, card_name: &[u8]) -> (r: Option<usize>)
        ensures
            match last_index_of(self@.names, card_name@) {
                Some(i) => r == Some(i as usize),
                None => r is None,
            },
            r matches Some(j) ==> last_index_of(self@.names, card_name@) == Some(j as int),
    {
        let mut k: usize = self.names.len();
        assert(self@.names.take(k as int) =~= self@.names);
        while k > 0
            invariant
                k <= self.names@.len(),
                last_index_of(self@.names, card_name@) == last_index_of(
                    self@.names.take(k as int),
                    card_name@,
                ),
            decreases k,
        {
            let ghost prefix = self@.names.take(k as int);
            assert(prefix.drop_last() =~= self@.names.take(k as int - 1));
            assert(prefix.last() == self.names@[k - 1]@);
            if same_bytes(self.names[k - 1].as_slice(), card_name) {
                return Some(k - 1);
            }
            k = k - 1;
        }
        None
    }

    /// The index of the card named `card_name`, which the catalogue must have.
    pub fn index_of(&self, card_name: &str) -> (r: usize)
        requires
            last_index_of(self@.names, card_name.spec_bytes()) is Some,
        ensures
            last_index_of(self@.names, card_name.spec_bytes()) == Some(r as int),
    {
        match self.find(card_name.as_bytes()) {
            Some(i) => i,
            None => 0,
        }
    }

    /// The image dimensions of the card at index `u`.
    pub fn get_dimensions(&self, u: usize) -> (r: (u32, u32))
        requires
            self.wf(),
            u < self@.dimensions.len(),
        ensures
            r == self@.dimensions[u as int],
    {
        self.dimensions[u]
    }

    /// The deck that the deck list `deck_text` describes, or `None` if a count is
    /// malformed, a card is missing from the catalogue, or a card line has no count.
    pub fn build_deck(&self, deck_text: &str) -> (r: Option<Vec<Card>>)
        ensures
            match deck_of(deck_text.spec_bytes(), self@.names) {
                Some(d) => r matches Some(v) && v@ == d,
                None => r is None,
            },
    {
        let lines = split_lines(deck_text.as_bytes());
        let ghost ls = lines_of(deck_text.spec_bytes());
        let counts = pick_lines(&lines, 0);
        let cards = pick_lines(&lines, 2);
        if counts.len() < cards.len() {
            return None;
        }
        let mut deck: Vec<Card> = Vec::new();
        let mut k: usize = 0;
        while k < cards.len()
            invariant
                k <= cards@.len(),
                cards@.len() <= counts@.len(),
                ls == lines_of(deck_text.spec_bytes()),
                views(counts@) == lines_at(ls, 0),
                views(cards@) == lines_at(ls, 2),
                deck_from(views(counts@), views(cards@), self@.names, k as int) == Some(deck@),
            decreases cards@.len() - k,
        {
            let count = parse_count(counts[k].as_slice());
            let index = self.find(cards[k].as_slice());
            assert(views(counts@)[k as int] == counts@[k as int]@);
            assert(views(cards@)[k as int] == cards@[k as int]@);
            match (count, index) {
                (Some(n), Some(i)) => {
                    let mut j: u32 = 0;
                    let ghost before = deck@;
                    while j < n
                        invariant
                            j <= n,
                            deck@ == before + Seq::new(j as nat, |t: int| i),
                        decreases n - j,
                    {
                        deck.push(i);
                        j = j + 1;
                        assert(deck@ =~= before + Seq::new(j as nat, |t: int| i));
                    }
                    assert(deck_from(views(counts@), views(cards@), self@.names, k as int + 1)
                        == Some(deck@));
                },
                _ => {
                    proof {
                        lemma_deck_from_fails_on(
                            views(counts@),
                            views(cards@),
                            self@.names,
                            k as int + 1,
                            cards@.len() as int,
                        );
                    }
                    return None;
                },
            }
            k = k + 1;
        }
        Some(deck)
    }
}

proof fn lemma_deck_from_fails_on(
    counts: Seq<Seq<u8>>,
    cards: Seq<Seq<u8>>,
    names: Seq<Seq<u8>>,
    m: int,
    n: int,
)
    requires
        1 <= m <= n,
        deck_from(counts, cards, names, m) is None,
    ensures
        deck_from(counts, cards, names, n) is None,
    decreases n - m,
{
    if m < n {
        lemma_deck_from_fails_on(counts, cards, names, m, n - 1);
    }
}

pub open spec fn dimensions_from_set_spec(set: Seq<u8>) -> (u32, u32) {
    (CARD_SOURCE_WIDTH, CARD_SOURCE_HEIGHT)
}

/// The non-empty lines whose position leaves remainder `r` when divided by three.
fn pick_lines(lines: &Vec<Vec<u8>>, r: usize) -> (out: Vec<Vec<u8>>)
    requires
        r < 3,
    ensures
        views(out@) == lines_at(views(lines@), r as int),
{
    let mut out: Vec<Vec<u8>> = Vec::new();
    let mut k: usize = 0;
    while k < lines.len()
        invariant
            k <= lines@.len(),
            r < 3,
            views(out@) == lines_at(views(lines@).take(k as int), r as int),
        decreases lines@.len() - k,
    {
        let ghost prefix = views(lines@).take(k as int + 1);
        assert(prefix.drop_last() =~= views(lines@).take(k as int));
        assert(prefix.last() == lines@[k as int]@);
        assert(lines_at(prefix, r as int) == if k as int % 3 == r as int && prefix.last().len() > 0 {
            lines_at(prefix.drop_last(), r as int).push(prefix.last())
        } else {
            lines_at(prefix.drop_last(), r as int)
        });
        if k % 3 == r && lines[k].len() > 0 {
            let line = lines[k].as_slice();
            let copied = copy_bytes(line);
            assert(views(out@.push(copied)) =~= views(out@).push(copied@));
            out.push(copied);
        }
        k = k + 1;
    }
    assert(views(lines@).take(lines@.len() as int) =~= views(lines@));
    out
}

/// The catalogue entries that two deck lists name, each distinct (set, card) pair once in
/// order of first appearance, or `None` if the lines naming sets and cards do not pair up.
pub fn catalogue_entries(deck1_text: &str, deck2_text: &str) -> (r: Option<Vec<(Vec<u8>, Vec<u8>)>>)
    ensures
        match catalogue_of(deck1_text.spec_bytes(), deck2_text.spec_bytes()) {
            Some(c) => r matches Some(v) && pair_views(v@) == c,
            None => r is None,
        },
{
    let mut lines = split_lines(deck1_text.as_bytes());
    let mut more = split_lines(deck2_text.as_bytes());
    let ghost all = lines_of(deck1_text.spec_bytes()) + lines_of(deck2_text.spec_bytes());
    assert(views(lines@) + views(more@) =~= views(lines@ + more@));
    lines.append(&mut more);
    let named = named_only(&lines);
    if named.len() % 2 != 0 {
        return None;
    }
    let ghost ns = views(named@);
    let ghost ps = pairs_of(ns);
    let mut out: Vec<(Vec<u8>, Vec<u8>)> = Vec::new();
    let mut k: usize = 0;
    while k < named.len() / 2
        invariant
            named@.len() % 2 == 0,
            k <= named@.len() / 2,
            ns == views(named@),
            ps == pairs_of(ns),
            pair_views(out@) == distinct(ps.take(k as int)),
        decreases named@.len() / 2 - k,
    {
        let set = named[2 * k].as_slice();
        let card = named[2 * k + 1].as_slice();
        let ghost prefix = ps.take(k as int + 1);
        assert(prefix.drop_last() =~= ps.take(k as int));
        assert(prefix.last() == (set@, card@));
        let seen = contains_pair(&out, set, card);
        if !seen {
            let pair = (copy_bytes(set), copy_bytes(card));
            assert(pair_views(out@.push(pair)).last() == (set@, card@));
            assert(pair_views(out@.push(pair)) =~= pair_views(out@).push((set@, card@)));
            out.push(pair);
        }
        proof {
            lemma_distinct_contains(ps.take(k as int), (set@, card@));
        }
        k = k + 1;
    }
    assert(ps.take(ps.len() as int) =~= ps);
    Some(out)
}

proof fn lemma_distinct_contains(ps: Seq<(Seq<u8>, Seq<u8>)>, x: (Seq<u8>, Seq<u8>))
    ensures
        distinct(ps).contains(x) == ps.contains(x),
    decreases ps.len(),
{
    if ps.len() > 0 {
        lemma_distinct_contains(ps.drop_last(), x);
        assert(ps =~= ps.drop_last().push(ps.last()));
        if ps.drop_last().contains(ps.last()) {
            if ps.contains(x) && !ps.drop_last().contains(x) {
                assert(x == ps.last());
            }
        } else {
            let d = distinct(ps.drop_last());
            assert(d.push(ps.last()).contains(x) == (d.contains(x) || x == ps.last())) by {
                if d.push(ps.last()).contains(x) {
                    let i = choose|i: int| 0 <= i < d.len() + 1 && d.push(ps.last())[i] == x;
                    if i < d.len() {
                        assert(d[i] == x);
                    }
                }
                if d.contains(x) {
                    let i = choose|i: int| 0 <= i < d.len() && d[i] == x;
                    assert(d.push(ps.last())[i] == x);
                }
                if x == ps.last() {
                    assert(d.push(ps.last())[d.len() as int] == x);
                }
            }
            if ps.contains(x) {
                let i = choose|i: int| 0 <= i < ps.len() && ps[i] == x;
                if i < ps.len() - 1 {
                    assert(ps.drop_last()[i] == x);
                }
            }
            if ps.drop_last().contains(x) {
                let i = choose|i: int| 0 <= i < ps.len() - 1 && ps.drop_last()[i] == x;
                assert(ps[i] == x);
            }
        }
    }
}

/// Whether `(set, card)` is among `pairs`.
fn contains_pair(pairs: &Vec<(Vec<u8>, Vec<u8>)>, set: &[u8], card: &[u8]) -> (r: bool)
    ensures
        r == pair_views(pairs@).contains((set@, card@)),
{
    let mut k: usize = 0;
    while k < pairs.len()
        invariant
            k <= pairs@.len(),
            forall|j: int| 0 <= j < k ==> pair_views(pairs@)[j] != (set@, card@),
        decreases pairs@.len() - k,
    {
        if same_bytes(pairs[k].0.as_slice(), set) && same_bytes(pairs[k].1.as_slice(), card) {
            assert(pair_views(pairs@)[k as int] == (set@, card@));
            return true;
        }
        k = k + 1;
    }
    false
}

/// The lines longer than two bytes.
fn named_only(lines: &Vec<Vec<u8>>) -> (out: Vec<Vec<u8>>)
    ensures
        views(out@) == named_lines(views(lines@)),
{
    let mut out: Vec<Vec<u8>> = Vec::new();
    let mut k: usize = 0;
    while k < lines.len()
        invariant
            k <= lines@.len(),
            views(out@) == named_lines(views(lines@).take(k as int)),
        decreases lines@.len() - k,
    {
        let ghost prefix = views(lines@).take(k as int + 1);
        assert(prefix.drop_last() =~= views(lines@).take(k as int));
        assert(prefix.last() == lines@[k as int]@);
        if lines[k].len() > 2 {
            let line = lines[k].as_slice();
            let copied = copy_bytes(line);
            assert(views(out@.push(copied)) =~= views(out@).push(copied@));
            out.push(copied);
        }
        k = k + 1;
    }
    assert(views(lines@).take(lines@.len() as int) =~= views(lines@));
    out
}

} // verus!
