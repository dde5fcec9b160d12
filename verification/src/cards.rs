use vstd::prelude::*;

use crate::chance::draw_between;
use crate::gamestate::Player;

verus! {

/// The highest number a card can carry; the lowest is 1.
pub const CARD_MAX_NUMBER: u8 = 12;

/// The element of a card, which decides most duels.
#[derive(Debug, Clone, Copy, PartialEq, Eq, Structural)]
pub enum CardElement {
    Fire,
    Water,
    Ice,
}

/// The colour of a card; it takes no part in the rules.
#[derive(Debug, Clone, Copy, PartialEq, Eq, Structural)]
pub enum CardColor {
    Red,
    Blue,
    Green,
    Yellow,
    Purple,
    Orange,
}

/// A playing card.
#[derive(Debug, Clone, Copy, PartialEq, Eq, Structural)]
pub struct Card {
    pub number: u8,
    pub element: CardElement,
    pub color: CardColor,
}

/// How the first of two cards fares against the second.
#[derive(Debug, Clone, Copy, PartialEq, Eq, Structural)]
pub enum CardBeatCases {
    Wins,
    Loses,
    Ties,
}

/// The outcome seen from the other side.
pub open spec fn reversed(outcome: CardBeatCases) -> CardBeatCases {
    match outcome {
        CardBeatCases::Wins => CardBeatCases::Loses,
        CardBeatCases::Loses => CardBeatCases::Wins,
        CardBeatCases::Ties => CardBeatCases::Ties,
    }
}

/// The element that `e` defeats: fire melts ice, water puts out fire,
/// ice freezes water.
pub open spec fn prey_of(e: CardElement) -> CardElement {
    match e {
        CardElement::Fire => CardElement::Ice,
        CardElement::Water => CardElement::Fire,
        CardElement::Ice => CardElement::Water,
    }
}

/// The duel of two elements.
pub open spec fn element_duel(mine: CardElement, theirs: CardElement) -> CardBeatCases {
    if mine == theirs {
        CardBeatCases::Ties
    } else if prey_of(mine) == theirs {
        CardBeatCases::Wins
    } else {
        CardBeatCases::Loses
    }
}

/// The duel of two numbers: the higher one wins.
pub open spec fn number_duel(mine: u8, theirs: u8) -> CardBeatCases {
    if mine > theirs {
        CardBeatCases::Wins
    } else if mine < theirs {
        CardBeatCases::Loses
    } else {
        CardBeatCases::Ties
    }
}

/// The outcome of a round between two cards: a win by element or by number
/// wins the round; otherwise a loss by either loses it; otherwise it is a tie.
pub open spec fn round_outcome(mine: Card, theirs: Card) -> CardBeatCases {
    let by_element = element_duel(mine.element, theirs.element);
    let by_number = number_duel(mine.number, theirs.number);
    if by_element == CardBeatCases::Wins || by_number == CardBeatCases::Wins {
        CardBeatCases::Wins
    } else if by_element == CardBeatCases::Loses || by_number == CardBeatCases::Loses {
        CardBeatCases::Loses
    } else {
        CardBeatCases::Ties
    }
}

/// Element and number point different ways: one wins and the other loses.
pub open spec fn split_duel(mine: Card, theirs: Card) -> bool {
    let by_element = element_duel(mine.element, theirs.element);
    let by_number = number_duel(mine.number, theirs.number);
    ||| by_element == CardBeatCases::Wins && by_number == CardBeatCases::Loses
    ||| by_element == CardBeatCases::Loses && by_number == CardBeatCases::Wins
}

/// The elements form a cycle: each defeats exactly one other element (its
/// prey), is defeated by the element whose prey it is, and three steps
/// along the cycle come back to the start.
pub proof fn lemma_element_cycle(e: CardElement)
    ensures
        prey_of(e) != e,
        prey_of(prey_of(prey_of(e))) == e,
        element_duel(e, prey_of(e)) == CardBeatCases::Wins,
        element_duel(prey_of(e), e) == CardBeatCases::Loses,
        element_duel(e, e) == CardBeatCases::Ties,
        forall|other: CardElement|
            other != e && other != prey_of(e) ==> element_duel(e, other) == CardBeatCases::Loses
                && prey_of(other) == e,
{
}

/// Swapping the two elements of a duel reverses its outcome.
pub proof fn lemma_element_duel_antisymmetric(mine: CardElement, theirs: CardElement)
    ensures
        element_duel(mine, theirs) == reversed(element_duel(theirs, mine)),
{
}

/// Swapping the two numbers of a duel reverses its outcome.
pub proof fn lemma_number_duel_antisymmetric(mine: u8, theirs: u8)
    ensures
        number_duel(mine, theirs) == reversed(number_duel(theirs, mine)),
{
}

/// Unless element and number point different ways, swapping the two cards
/// of a round reverses its outcome.
pub proof fn lemma_round_antisymmetric(mine: Card, theirs: Card)
    requires
        !split_duel(mine, theirs),
    ensures
        round_outcome(mine, theirs) == reversed(round_outcome(theirs, mine)),
{
    lemma_element_duel_antisymmetric(mine.element, theirs.element);
    lemma_number_duel_antisymmetric(mine.number, theirs.number);
}

/// When element and number point different ways, each card wins the round
/// played from its own side.
pub proof fn lemma_split_round_both_win(mine: Card, theirs: Card)
    requires
        split_duel(mine, theirs),
    ensures
        round_outcome(mine, theirs) == CardBeatCases::Wins,
        round_outcome(theirs, mine) == CardBeatCases::Wins,
{
    lemma_element_duel_antisymmetric(mine.element, theirs.element);
    lemma_number_duel_antisymmetric(mine.number, theirs.number);
}

/// A round is a tie exactly when both cards share element and number.
pub proof fn lemma_round_tie(mine: Card, theirs: Card)
    ensures
        (round_outcome(mine, theirs) == CardBeatCases::Ties) <==> (mine.element == theirs.element
            && mine.number == theirs.number),
{
}

/// Fire melts ice, water puts out fire, ice freezes water: the three
/// pairs in which the first element defeats the second, listed one by one.
pub open spec fn melts_or_quenches_or_freezes(mine: CardElement, theirs: CardElement) -> bool {
    ||| mine == CardElement::Fire && theirs == CardElement::Ice
    ||| mine == CardElement::Water && theirs == CardElement::Fire
    ||| mine == CardElement::Ice && theirs == CardElement::Water
}

/// The element duel follows the three listed pairs: a listed pair wins,
/// the same pair the other way round loses, equal elements tie, and every
/// pair of elements is one of these.
pub proof fn lemma_element_duel_table(mine: CardElement, theirs: CardElement)
    ensures
        mine == theirs ==> element_duel(mine, theirs) == CardBeatCases::Ties,
        melts_or_quenches_or_freezes(mine, theirs) ==> element_duel(mine, theirs)
            == CardBeatCases::Wins,
        melts_or_quenches_or_freezes(theirs, mine) ==> element_duel(mine, theirs)
            == CardBeatCases::Loses,
        mine == theirs || melts_or_quenches_or_freezes(mine, theirs)
            || melts_or_quenches_or_freezes(theirs, mine),
{
}

/// The higher number wins the number duel, the lower one loses it, and
/// equal numbers tie.
pub proof fn lemma_higher_number_wins(mine: u8, theirs: u8)
    ensures
        mine > theirs ==> number_duel(mine, theirs) == CardBeatCases::Wins,
        mine < theirs ==> number_duel(mine, theirs) == CardBeatCases::Loses,
        mine == theirs ==> number_duel(mine, theirs) == CardBeatCases::Ties,
{
}

/// How a round is scored, in terms of the two cards' numbers and elements
/// alone: a higher number or a defeating element wins the round; with a
/// lower number and no defeating element, or with an equal number and a
/// defeated element, the round is lost; equal numbers and equal elements
/// tie.
pub proof fn lemma_round_rules(mine: Card, theirs: Card)
    ensures
        mine.number > theirs.number ==> round_outcome(mine, theirs) == CardBeatCases::Wins,
        melts_or_quenches_or_freezes(mine.element, theirs.element) ==> round_outcome(mine, theirs)
            == CardBeatCases::Wins,
        mine.number < theirs.number && !melts_or_quenches_or_freezes(mine.element, theirs.element)
            ==> round_outcome(mine, theirs) == CardBeatCases::Loses,
        mine.number == theirs.number && melts_or_quenches_or_freezes(theirs.element, mine.element)
            ==> round_outcome(mine, theirs) == CardBeatCases::Loses,
        mine.number == theirs.number && mine.element == theirs.element ==> round_outcome(
            mine,
            theirs,
        ) == CardBeatCases::Ties,
{
    lemma_element_duel_table(mine.element, theirs.element);
    lemma_higher_number_wins(mine.number, theirs.number);
}

/// Colours take no part in a round: cards that agree in number and element
/// give the same outcome, whatever their colours.
pub proof fn lemma_round_ignores_colour(mine: Card, theirs: Card, mine2: Card, theirs2: Card)
    requires
        mine.number == mine2.number,
        mine.element == mine2.element,
        theirs.number == theirs2.number,
        theirs.element == theirs2.element,
    ensures
        round_outcome(mine, theirs) == round_outcome(mine2, theirs2),
{
}

impl Card {
    /// A card is well formed when its number lies in 1..=12.
    pub open spec fn wf(self) -> bool {
        1 <= self.number <= CARD_MAX_NUMBER
    }

    /// Builds a card; the number must lie in 1..=12.
    pub fn new(number: u8, element: CardElement, color: CardColor) -> (card: Self)
        requires
            1 <= number <= CARD_MAX_NUMBER,
        ensures
            card == (Card { number, element, color }),
            card.wf(),
    {
        Card { number, element, color }
    }

    /// How this card fares against `other` by element alone.
    pub fn beat_with_element(&self, other: &Card) -> (outcome: CardBeatCases)
        ensures
            outcome == element_duel(self.element, other.element),
            self.element == other.element ==> outcome == CardBeatCases::Ties,
            melts_or_quenches_or_freezes(self.element, other.element) ==> outcome
                == CardBeatCases::Wins,
            melts_or_quenches_or_freezes(other.element, self.element) ==> outcome
                == CardBeatCases::Loses,
    {
        match (self.element, other.element) {
            (CardElement::Fire, CardElement::Fire) => CardBeatCases::Ties,
            (CardElement::Water, CardElement::Water) => CardBeatCases::Ties,
            (CardElement::Ice, CardElement::Ice) => CardBeatCases::Ties,
            (CardElement::Fire, CardElement::Ice) => CardBeatCases::Wins,
            (CardElement::Water, CardElement::Fire) => CardBeatCases::Wins,
            (CardElement::Ice, CardElement::Water) => CardBeatCases::Wins,
            _ => CardBeatCases::Loses,
        }
    }

    /// How this card fares against `other` by number alone.
    pub fn beat_with_number(&self, other: &Card) -> (outcome: CardBeatCases)
        ensures
            outcome == number_duel(self.number, other.number),
            self.number > other.number ==> outcome == CardBeatCases::Wins,
            self.number < other.number ==> outcome == CardBeatCases::Loses,
            self.number == other.number ==> outcome == CardBeatCases::Ties,
    {
        if self.number > other.number {
            CardBeatCases::Wins
        } else if self.number < other.number {
            CardBeatCases::Loses
        } else {
            CardBeatCases::Ties
        }
    }

    /// The card that three rolls pick: its number, the position of its
    /// element in `[Fire, Water, Ice]` and that of its colour in
    /// `[Red, Blue, Green, Yellow, Purple, Orange]`.
    pub fn from_rolls(number: u8, element_roll: u8, color_roll: u8) -> (card: Self)
        requires
            1 <= number <= CARD_MAX_NUMBER,
            element_roll < 3,
            color_roll < 6,
        ensures
            card == (Card {
                number,
                element: element_at(element_roll as int),
                color: color_at(color_roll as int),
            }),
            card.wf(),
    {
        let element_pool = [CardElement::Fire, CardElement::Water, CardElement::Ice];
        let color_pool = [
            CardColor::Red,
            CardColor::Blue,
            CardColor::Green,
            CardColor::Yellow,
            CardColor::Purple,
            CardColor::Orange,
        ];
        Card::new(number, element_pool[element_roll as usize], color_pool[color_roll as usize])
    }

    /// A card drawn at random: any number in 1..=12, any element, any colour.
    pub fn default() -> (card: Self)
        ensures
            card.wf(),
    {
        let number = draw_between(1, CARD_MAX_NUMBER);
        let element_roll = draw_between(0, 2);
        let color_roll = draw_between(0, 5);
        Card::from_rolls(number, element_roll, color_roll)
    }

    /// A fresh hand: one card drawn at random, copied into all seven slots.
    pub fn default_maze() -> (maze: [Card; 7])
        ensures
            forall|i: int| 0 <= i < 7 ==> #[trigger] maze[i] == maze[0],
            maze[0].wf(),
    {
        [Card::default(); 7]
    }
}

/// The element at position `i` of `[Fire, Water, Ice]`.
pub open spec fn element_at(i: int) -> CardElement {
    if i == 0 {
        CardElement::Fire
    } else if i == 1 {
        CardElement::Water
    } else {
        CardElement::Ice
    }
}

/// The colour at position `i` of `[Red, Blue, Green, Yellow, Purple, Orange]`.
pub open spec fn color_at(i: int) -> CardColor {
    if i == 0 {
        CardColor::Red
    } else if i == 1 {
        CardColor::Blue
    } else if i == 2 {
        CardColor::Green
    } else if i == 3 {
        CardColor::Yellow
    } else if i == 4 {
        CardColor::Purple
    } else {
        CardColor::Orange
    }
}

/// The position of a card in a hand of seven, from 0 to 6.
#[derive(Debug, Clone, Copy, PartialEq, Eq, Structural)]
pub struct CardIndex {
    pub index: u8,
}

impl CardIndex {
    /// A position inside a hand of seven.
    pub open spec fn wf(self) -> bool {
        self.index < 7
    }

    /// Checks that `index` names one of the seven slots of a hand.
    pub fn from(index: u8) -> (result: Result<Self, &'static str>)
        ensures
            match result {
                Ok(i) => index <= 6 && i == (CardIndex { index }),
                Err(msg) => index > 6 && msg@ == CARD_INDEX_RANGE_MESSAGE@,
            },
    {
        if index > 6 {
            return Err(CARD_INDEX_RANGE_MESSAGE);
        }
        Ok(CardIndex { index })
    }
}

/// The refusal of an index outside 0..=6.
pub const CARD_INDEX_RANGE_MESSAGE: &'static str = "El índice de la carta debe estar entre 0 y 6";

/// A special effect that a card may carry into the next round.
pub enum SpecialCardEffect {
    NoEffect,
    IngnoreBadHierarchy,
    BlockElement(CardElement),
}

/// The pile that keeps cards of element `e`: fire 0, water 1, ice 2.
pub open spec fn element_slot(e: CardElement) -> int {
    match e {
        CardElement::Fire => 0,
        CardElement::Water => 1,
        CardElement::Ice => 2,
    }
}

/// The piles `piles` with `card` put on top of the pile of its element.
pub open spec fn with_card(piles: Seq<Seq<Card>>, card: Card) -> Seq<Seq<Card>> {
    piles.update(element_slot(card.element), piles[element_slot(card.element)].push(card))
}

/// Three piles, each holding only cards of its own element.
pub open spec fn piles_sorted(piles: Seq<Seq<Card>>) -> bool {
    &&& piles.len() == 3
    &&& forall|s: int, i: int|
        0 <= s < 3 && 0 <= i < piles[s].len() ==> element_slot((#[trigger] piles[s][i]).element)
            == s
}

/// Three piles, each holding well-formed cards of its own element.
pub open spec fn piles_wf(piles: Seq<Seq<Card>>) -> bool {
    &&& piles_sorted(piles)
    &&& forall|s: int, i: int| 0 <= s < 3 && 0 <= i < piles[s].len() ==> (#[trigger] piles[s][i]).wf()
}

/// The number of cards in three piles.
pub open spec fn pile_count(piles: Seq<Seq<Card>>) -> nat {
    piles[0].len() + piles[1].len() + piles[2].len()
}

/// Putting a card on its pile adds one card to the three piles.
pub proof fn lemma_with_card_count(piles: Seq<Seq<Card>>, card: Card)
    requires
        piles.len() == 3,
    ensures
        pile_count(with_card(piles, card)) == pile_count(piles) + 1,
{
}

/// Putting any card on the pile of its element keeps every pile holding
/// only cards of its own element.
pub proof fn lemma_with_card_keeps_piles_sorted(piles: Seq<Seq<Card>>, card: Card)
    requires
        piles_sorted(piles),
    ensures
        piles_sorted(with_card(piles, card)),
{
    let after = with_card(piles, card);
    assert forall|s: int, i: int| 0 <= s < 3 && 0 <= i < after[s].len() implies element_slot(
        (#[trigger] after[s][i]).element,
    ) == s by {
        if s == element_slot(card.element) && i == piles[s].len() {
        } else {
            assert(after[s][i] == piles[s][i]);
        }
    }
}

/// Putting a well-formed card on its pile keeps the piles well formed.
pub proof fn lemma_with_card_keeps_piles_wf(piles: Seq<Seq<Card>>, card: Card)
    requires
        piles_wf(piles),
        card.wf(),
    ensures
        piles_wf(with_card(piles, card)),
{
    lemma_with_card_keeps_piles_sorted(piles, card);
    let after = with_card(piles, card);
    assert forall|s: int, i: int| 0 <= s < 3 && 0 <= i < after[s].len() implies (#[trigger] after[s][i]).wf() by {
        if s == element_slot(card.element) && i == piles[s].len() {
        } else {
            assert(after[s][i] == piles[s][i]);
        }
    }
}

/// The cards a player has won, in three piles by element.
#[derive(Clone, Debug)]
pub struct CardStack {
    substacks: [Vec<Card>; 3],
}

impl View for CardStack {
    /// The three piles, fire first, then water, then ice; each in the order
    /// the cards were won.
    type V = Seq<Seq<Card>>;

    closed spec fn view(&self) -> Seq<Seq<Card>> {
        Seq::new(3, |i: int| self.substacks[i]@)
    }
}

impl CardStack {
    /// A stack always has three piles: fire, water and ice.
    pub proof fn lemma_three_piles(self)
        ensures
            self@.len() == 3,
    {
    }

    /// Every pile holds well-formed cards of its own element.
    pub open spec fn wf(self) -> bool {
        piles_wf(self@)
    }

    /// The number of cards in all three piles.
    pub open spec fn total(self) -> nat {
        pile_count(self@)
    }

    fn map_element(card: Card) -> (slot: u8)
        ensures
            slot == element_slot(card.element),
    {
        match card.element {
            CardElement::Fire => 0,
            CardElement::Water => 1,
            CardElement::Ice => 2,
        }
    }

    /// Puts `card` on top of the pile of its element.
    pub fn add_to_stack(&mut self, card: Card)
        ensures
            final(self)@ == with_card(old(self)@, card),
            final(self)@.len() == 3,
            final(self).total() == old(self).total() + 1,
            piles_sorted(old(self)@) ==> piles_sorted(final(self)@),
            old(self).wf() && card.wf() ==> final(self).wf(),
    {
        proof {
            if piles_sorted(old(self)@) {
                lemma_with_card_keeps_piles_sorted(old(self)@, card);
            }
            if old(self).wf() && card.wf() {
                lemma_with_card_keeps_piles_wf(old(self)@, card);
            }
        }
        let index = Self::map_element(card);
        self.substacks[index as usize].push(card);
    }

    /// The pile of cards of `element`, in the order they were won.
    pub fn substack(&self, element: CardElement) -> (pile: &Vec<Card>)
        ensures
            pile@ == self@[element_slot(element)],
    {
        match element {
            CardElement::Fire => &self.substacks[0],
            CardElement::Water => &self.substacks[1],
            CardElement::Ice => &self.substacks[2],
        }
    }

    /// Three empty piles.
    pub fn default() -> (stack: Self)
        ensures
            stack@ == seq![Seq::<Card>::empty(), Seq::<Card>::empty(), Seq::<Card>::empty()],
            piles_sorted(stack@),
            stack.wf(),
    {
        Self { substacks: [Vec::new(), Vec::new(), Vec::new()] }
    }
}

impl<Tx> Player<Tx> {
    /// A player who joins: nothing played yet, a fresh hand, no cards won.
    pub fn from(name: String, tx: Tx) -> (player: Self)
        ensures
            player.name == name,
            player.tx == tx,
            !player.played,
            forall|i: int| 0 <= i < 7 ==> #[trigger] player.maze[i] == player.maze[0],
            player.card_stack@ == seq![Seq::<Card>::empty(), Seq::<Card>::empty(), Seq::<Card>::empty()],
            player.wf(),
    {
        Player {
            name,
            tx,
            played: false,
            maze: Card::default_maze(),
            card_stack: CardStack::default(),
        }
    }

    /// Closes this player's part of a round: the card at `card_played` is
    /// replaced by `card_replace` and the player may play again.
    pub fn advertise_for_turn_end(&mut self, card_played: CardIndex, card_replace: Card)
        requires
            card_played.wf(),
        ensures
            final(self).name == old(self).name,
            final(self).tx == old(self).tx,
            final(self).card_stack == old(self).card_stack,
            final(self).maze@ == old(self).maze@.update(card_played.index as int, card_replace),
            !final(self).played,
            old(self).wf() && card_replace.wf() ==> final(self).wf(),
    {
        self.maze[card_played.index as usize] = card_replace;
        self.played = false;
    }

    /// The card at `card_index` in this player's hand.
    pub fn mut_card_from_maze(&self, card_index: CardIndex) -> (card: Card)
        requires
            card_index.wf(),
        ensures
            card == self.maze[card_index.index as int],
    {
        self.maze[card_index.index as usize]
    }

    /// The card at `card_index` in this player's hand.
    pub fn card_from_maze(&self, card_index: CardIndex) -> (card: Card)
        requires
            card_index.wf(),
        ensures
            card == self.maze[card_index.index as int],
    {
        self.maze[card_index.index as usize]
    }
}

} // verus!
