use vstd::prelude::*;

use crate::cards::{
    lemma_with_card_count, lemma_with_card_keeps_piles_wf, pile_count, round_outcome, with_card,
    Card, CardBeatCases, CardIndex, SpecialCardEffect,
};
use crate::gamestate::{lemma_two_seats, pending_by, GameState, Player};

verus! {

/// An entry of the turn log.
#[derive(Debug, Clone, Copy, PartialEq, Eq, Structural)]
pub enum TurnVariant {
    /// The first card of a round was laid down and waits for the answer.
    TurnInit(PreTurn),
    /// A round was decided: first the player who opened it, then the one
    /// who answered.
    TurnCompletion(PostTurn, PostTurn),
}

/// The opening move of a round.
#[derive(Debug, Clone, Copy, PartialEq, Eq, Structural)]
pub struct PreTurn {
    pub player_id: u64,
    pub card_played: CardIndex,
}

/// One side of a decided round: what was played and what was dealt in its place.
#[derive(Debug, Clone, Copy, PartialEq, Eq, Structural)]
pub struct PostTurn {
    pub player_id: u64,
    pub card_played: CardIndex,
    pub card_appended: Card,
}

/// What a player asks for.
#[derive(Debug, Clone, Copy, PartialEq, Eq, Structural)]
pub enum PlayerAction {
    PlayCard(CardIndex),
    HighlightCard(CardIndex),
    Forfeit,
}

/// A request as it arrives from a player.
#[derive(Debug, Clone, Copy, PartialEq, Eq, Structural)]
pub struct PlayerActionRequest {
    pub action: PlayerAction,
}

/// A message that the rules ask the server to deliver to a player.
#[derive(Debug, Clone, Copy, PartialEq, Eq, Structural)]
pub enum Notice {
    /// Tell `to` which card the opponent played in the round just decided.
    OpponentCard { to: u64, card: Card },
    /// Tell `to` that the opponent points at the card in slot `card`.
    Highlight { to: u64, card: u8 },
}

/// The opening move of the last round that was opened, if any.
pub open spec fn last_preturn(turns: Seq<TurnVariant>) -> Option<PreTurn>
    decreases turns.len(),
{
    if turns.len() == 0 {
        None
    } else {
        match turns.last() {
            TurnVariant::TurnInit(pre) => Some(pre),
            _ => last_preturn(turns.drop_last()),
        }
    }
}

/// `after` is `before` with `card` added to the won piles, all else kept.
pub open spec fn won_card<Tx>(before: Player<Tx>, after: Player<Tx>, card: Card) -> bool {
    &&& after.name == before.name
    &&& after.tx == before.tx
    &&& after.played == before.played
    &&& after.maze == before.maze
    &&& after.card_stack@ == with_card(before.card_stack@, card)
}

/// The table `after` is `before` once the round of `mine` (played by `p1`)
/// against `theirs` (played by `p2`) has been scored: the winner keeps the
/// card that won; on a tie nobody keeps anything.
pub open spec fn round_scored<Tx>(
    before: Map<u64, Player<Tx>>,
    after: Map<u64, Player<Tx>>,
    p1: u64,
    p2: u64,
    mine: Card,
    theirs: Card,
) -> bool {
    match round_outcome(mine, theirs) {
        CardBeatCases::Wins => after == before.insert(p1, after[p1]) && won_card(
            before[p1],
            after[p1],
            mine,
        ),
        CardBeatCases::Loses => after == before.insert(p2, after[p2]) && won_card(
            before[p2],
            after[p2],
            theirs,
        ),
        CardBeatCases::Ties => after == before,
    }
}

/// The refusal of a round that nobody opened.
pub const BAD_TURN_MESSAGE: &'static str = "BAD TURN: no se centra el último preturn";

/// `after` is `before` at the end of a round: the card in `slot` was
/// replaced by `replacement`, the player may play again, and the piles
/// gained `won` if there is one.
pub open spec fn closed_round<Tx>(
    before: Player<Tx>,
    after: Player<Tx>,
    slot: int,
    replacement: Card,
    won: Option<Card>,
) -> bool {
    &&& after.name == before.name
    &&& after.tx == before.tx
    &&& !after.played
    &&& after.maze@ == before.maze@.update(slot, replacement)
    &&& after.card_stack@ == match won {
        Some(card) => with_card(before.card_stack@, card),
        None => before.card_stack@,
    }
}

/// The card that `p` plays from `slot`.
pub open spec fn card_played<Tx>(players: Map<u64, Player<Tx>>, p: u64, slot: CardIndex) -> Card {
    players[p].maze[slot.index as int]
}

/// The table `after` is `before` once the round opened by `pre` (with a
/// card of `o`) has been answered by `p` from `slot`: both replace the card
/// in `slot` by `replacement`, both may play again, and the winner of the
/// round keeps the card that won.
pub open spec fn round_settled<Tx>(
    before: Map<u64, Player<Tx>>,
    after: Map<u64, Player<Tx>>,
    p: u64,
    o: u64,
    slot: CardIndex,
    pre: PreTurn,
    replacement: Card,
) -> bool {
    let mine = card_played(before, p, slot);
    let theirs = card_played(before, o, pre.card_played);
    let outcome = round_outcome(mine, theirs);
    &&& after.dom() == before.dom()
    &&& forall|q: u64| #[trigger]
        before.contains_key(q) && q != p && q != o ==> after[q] == before[q]
    &&& closed_round(
        before[p],
        after[p],
        slot.index as int,
        replacement,
        if outcome == CardBeatCases::Wins {
            Some(mine)
        } else {
            None
        },
    )
    &&& closed_round(
        before[o],
        after[o],
        slot.index as int,
        replacement,
        if outcome == CardBeatCases::Loses {
            Some(theirs)
        } else {
            None
        },
    )
}

/// A decided round adds exactly one card to the piles of its two players,
/// the winning card on the winner's piles, unless it is a tie, which adds
/// none.
pub proof fn lemma_round_adds_one_card<Tx>(
    before: Map<u64, Player<Tx>>,
    after: Map<u64, Player<Tx>>,
    p: u64,
    o: u64,
    slot: CardIndex,
    pre: PreTurn,
    replacement: Card,
)
    requires
        p != o,
        before[p].card_stack.wf(),
        before[o].card_stack.wf(),
        round_settled(before, after, p, o, slot, pre, replacement),
    ensures
        pile_count(after[p].card_stack@) + pile_count(after[o].card_stack@) == pile_count(
            before[p].card_stack@,
        ) + pile_count(before[o].card_stack@) + if round_outcome(
            card_played(before, p, slot),
            card_played(before, o, pre.card_played),
        ) == CardBeatCases::Ties {
            0int
        } else {
            1int
        },
{
    lemma_with_card_count(before[p].card_stack@, card_played(before, p, slot));
    lemma_with_card_count(before[o].card_stack@, card_played(before, o, pre.card_played));
}

/// The log entry of a round opened by `pre` and answered by `p` from `slot`.
pub open spec fn completion(pre: PreTurn, p: u64, slot: CardIndex, replacement: Card) -> TurnVariant {
    TurnVariant::TurnCompletion(
        PostTurn {
            player_id: pre.player_id,
            card_played: pre.card_played,
            card_appended: replacement,
        },
        PostTurn { player_id: p, card_played: slot, card_appended: replacement },
    )
}

/// The messages of a decided round: each side learns the other's card,
/// the answering player `p` first.
pub open spec fn round_notices<Tx>(
    before: Map<u64, Player<Tx>>,
    p: u64,
    o: u64,
    slot: CardIndex,
    pre: PreTurn,
) -> Seq<Notice> {
    seq![
        Notice::OpponentCard { to: p, card: card_played(before, o, pre.card_played) },
        Notice::OpponentCard { to: o, card: card_played(before, p, slot) },
    ]
}

/// The move of `p` against `o` from `slot` turns the table `before` into
/// `after` and yields `notices`: a player who already played is ignored; if
/// the opponent has not played, the card is laid down and the round waits;
/// otherwise the round that waits is decided with some well-formed
/// replacement card, or nothing happens when no round waits.
pub open spec fn card_play<Tx>(
    before: GameState<Tx>,
    after: GameState<Tx>,
    player_id: u64,
    oponent_id: u64,
    card_index: CardIndex,
    notices: Seq<Notice>,
) -> bool {
    let mine = before.players@[player_id];
    let theirs = before.players@[oponent_id];
    if mine.played {
        &&& after.players@ == before.players@
        &&& after.turns@ == before.turns@
        &&& notices == Seq::<Notice>::empty()
    } else if !theirs.played {
        &&& after.players@ == before.players@.insert(player_id, Player { played: true, ..mine })
        &&& after.turns@ == before.turns@.push(
            TurnVariant::TurnInit(PreTurn { player_id, card_played: card_index }),
        )
        &&& notices == Seq::<Notice>::empty()
    } else {
        match last_preturn(before.turns@) {
            None => {
                &&& after.players@ == before.players@
                &&& after.turns@ == before.turns@
                &&& notices == Seq::<Notice>::empty()
            },
            Some(pre) => exists|replacement: Card|
                {
                    &&& replacement.wf()
                    &&& #[trigger] round_settled(
                        before.players@,
                        after.players@,
                        player_id,
                        oponent_id,
                        card_index,
                        pre,
                        replacement,
                    )
                    &&& after.turns@ == before.turns@.push(
                        completion(pre, player_id, card_index, replacement),
                    )
                    &&& notices == round_notices(
                        before.players@,
                        player_id,
                        oponent_id,
                        card_index,
                        pre,
                    )
                },
        }
    }
}

/// The inputs on which a move of `p` against `o` from `slot` reaches no
/// slot outside a hand.
pub open spec fn can_play<Tx>(game: GameState<Tx>, p: u64, o: u64, slot: CardIndex) -> bool {
    &&& game.players@.contains_key(p)
    &&& game.players@.contains_key(o)
    &&& !game.players@[p].played && game.players@[o].played ==> {
        &&& slot.wf()
        &&& last_preturn(game.turns@) matches Some(pre) ==> pre.card_played.wf()
    }
}

impl<Tx> GameState<Tx> {
    /// The player seated under `player_id`.
    fn find_player(&self, player_id: u64) -> (player: &Player<Tx>)
        requires
            self.players@.contains_key(player_id),
        ensures
            *player == self.players@[player_id],
    {
        match self.players.get(&player_id) {
            Some(player) => player,
            None => vstd::pervasive::unreached(),
        }
    }

    /// Takes the player seated under `player_id` off the table; the caller
    /// seats the changed player again.
    fn find_player_mut(&mut self, player_id: u64) -> (player: Player<Tx>)
        requires
            old(self).players@.contains_key(player_id),
        ensures
            player == old(self).players@[player_id],
            final(self).players@ == old(self).players@.remove(player_id),
            final(self).turns@ == old(self).turns@,
    {
        match self.players.remove(&player_id) {
            Some(player) => player,
            None => vstd::pervasive::unreached(),
        }
    }

    /// Scores the round of `card1` (played by `player1_id`) against `card2`
    /// (played by `player2_id`): the winner puts the winning card on its piles.
    fn determine_and_store_winner(&mut self, player1_id: u64, player2_id: u64, card1: Card, card2: Card)
        requires
            old(self).players@.contains_key(player1_id),
            old(self).players@.contains_key(player2_id),
        ensures
            round_scored(old(self).players@, final(self).players@, player1_id, player2_id, card1, card2),
            final(self).turns@ == old(self).turns@,
    {
        let wins_with_element = card1.beat_with_element(&card2);
        let wins_with_number = card1.beat_with_number(&card2);

        let winner = match (wins_with_element, wins_with_number) {
            (CardBeatCases::Wins, _) | (_, CardBeatCases::Wins) => CardBeatCases::Wins,
            (CardBeatCases::Loses, _) | (_, CardBeatCases::Loses) => CardBeatCases::Loses,
            _ => CardBeatCases::Ties,
        };

        if winner == CardBeatCases::Wins {
            let mut player = self.find_player_mut(player1_id);
            player.card_stack.add_to_stack(card1);
            self.players.insert(player1_id, player);
            assert(self.players@ =~= old(self).players@.insert(player1_id, self.players@[player1_id]));
        } else if winner == CardBeatCases::Loses {
            let mut oponent = self.find_player_mut(player2_id);
            oponent.card_stack.add_to_stack(card2);
            self.players.insert(player2_id, oponent);
            assert(self.players@ =~= old(self).players@.insert(player2_id, self.players@[player2_id]));
        }
    }

    /// Adds `turn` at the end of the log.
    pub fn append_turn(&mut self, turn: TurnVariant)
        ensures
            final(self).turns@ == old(self).turns@.push(turn),
            final(self).players == old(self).players,
    {
        self.turns.push(turn);
    }

    /// The opening move of the last round that was opened, searching the
    /// log from its end.
    pub fn get_last_preturn(&self) -> (found: Option<PreTurn>)
        ensures
            found == last_preturn(self.turns@),
    {
        let mut i = self.turns.len();
        assert(self.turns@.take(i as int) =~= self.turns@);
        while i > 0
            invariant
                i <= self.turns@.len(),
                last_preturn(self.turns@) == last_preturn(self.turns@.take(i as int)),
            decreases i,
        {
            assert(self.turns@.take(i as int).drop_last() =~= self.turns@.take(i - 1));
            match self.turns[i - 1] {
                TurnVariant::TurnInit(preturn) => {
                    return Some(preturn);
                },
                _ => {},
            }
            i = i - 1;
        }
        assert(self.turns@.take(0) =~= Seq::<TurnVariant>::empty());
        None
    }

    /// The special effect of the card last used; no card has one yet.
    pub fn get_last_used_card_effect(&self) -> (effect: SpecialCardEffect)
        ensures
            effect is NoEffect,
    {
        SpecialCardEffect::NoEffect
    }

    /// Answers the round that is waiting: `player_id` plays the card in
    /// `card_index` against the card that `oponent_id` opened with, both
    /// replace the card in `card_index` by `replacement`, and the round is
    /// scored. Returns the log entry of the round and the messages for both
    /// sides; refuses when no round was opened.
    pub fn settle_turn(
        &mut self,
        player_id: u64,
        oponent_id: u64,
        card_index: CardIndex,
        replacement: Card,
    ) -> (result: Result<(TurnVariant, Vec<Notice>), &'static str>)
        requires
            old(self).players@.contains_key(player_id),
            old(self).players@.contains_key(oponent_id),
            player_id != oponent_id,
            card_index.wf(),
            last_preturn(old(self).turns@) matches Some(pre) ==> pre.card_played.wf(),
        ensures
            final(self).turns@ == old(self).turns@,
            match last_preturn(old(self).turns@) {
                None => {
                    &&& result matches Err(msg) && msg@ == BAD_TURN_MESSAGE@
                    &&& final(self).players@ == old(self).players@
                },
                Some(pre) => {
                    &&& round_settled(
                        old(self).players@,
                        final(self).players@,
                        player_id,
                        oponent_id,
                        card_index,
                        pre,
                        replacement,
                    )
                    &&& result matches Ok((turn, notices))
                    &&& turn == completion(pre, player_id, card_index, replacement)
                    &&& notices@ == round_notices(
                        old(self).players@,
                        player_id,
                        oponent_id,
                        card_index,
                        pre,
                    )
                },
            },
    {
        let card = self.find_player(player_id).card_from_maze(card_index);
        let last_preturn = match self.get_last_preturn() {
            Some(preturn) => preturn,
            None => return Err(BAD_TURN_MESSAGE),
        };
        let oponent_played = self.find_player(oponent_id).card_from_maze(last_preturn.card_played);

        let ghost before = self.players@;
        let mut player = self.find_player_mut(player_id);
        player.advertise_for_turn_end(card_index, replacement);
        self.players.insert(player_id, player);
        let mut oponent = self.find_player_mut(oponent_id);
        oponent.advertise_for_turn_end(card_index, replacement);
        self.players.insert(oponent_id, oponent);
        let ghost answered = self.players@;
        assert(answered =~= before.insert(player_id, answered[player_id]).insert(oponent_id, answered[oponent_id]));

        self.determine_and_store_winner(player_id, oponent_id, card, oponent_played);
        assert(self.players@.dom() =~= before.dom());

        let mut notices = Vec::new();
        notices.push(Notice::OpponentCard { to: player_id, card: oponent_played });
        notices.push(Notice::OpponentCard { to: oponent_id, card });
        assert(notices@ =~= round_notices(before, player_id, oponent_id, card_index, last_preturn));

        Ok((
            TurnVariant::TurnCompletion(
                PostTurn {
                    player_id: last_preturn.player_id,
                    card_played: last_preturn.card_played,
                    card_appended: replacement,
                },
                PostTurn { player_id, card_played: card_index, card_appended: replacement },
            ),
            notices,
        ))
    }

    /// Answers the round that is waiting with a replacement card drawn at
    /// random; see `settle_turn`.
    fn decide_turn(&mut self, player_id: u64, oponent_id: u64, card_index: CardIndex) -> (result: Result<
        (TurnVariant, Vec<Notice>),
        &'static str,
    >)
        requires
            old(self).players@.contains_key(player_id),
            old(self).players@.contains_key(oponent_id),
            player_id != oponent_id,
            card_index.wf(),
            last_preturn(old(self).turns@) matches Some(pre) ==> pre.card_played.wf(),
        ensures
            final(self).turns@ == old(self).turns@,
            match last_preturn(old(self).turns@) {
                None => {
                    &&& result matches Err(msg) && msg@ == BAD_TURN_MESSAGE@
                    &&& final(self).players@ == old(self).players@
                },
                Some(pre) => exists|replacement: Card|
                    {
                        &&& replacement.wf()
                        &&& #[trigger] round_settled(
                            old(self).players@,
                            final(self).players@,
                            player_id,
                            oponent_id,
                            card_index,
                            pre,
                            replacement,
                        )
                        &&& result matches Ok((turn, notices))
                        &&& turn == completion(pre, player_id, card_index, replacement)
                        &&& notices@ == round_notices(
                            old(self).players@,
                            player_id,
                            oponent_id,
                            card_index,
                            pre,
                        )
                    },
            },
    {
        let replacement = Card::default();
        self.settle_turn(player_id, oponent_id, card_index, replacement)
    }

    /// `player_id` plays the card in `card_index` against `oponent_id`.
    ///
    /// A player who already played this round is ignored. If the opponent
    /// has not played yet, the card is laid down and the round waits.
    /// Otherwise the round is decided against the opponent's card (see
    /// `settle_turn`, with a replacement card drawn at random) and each side
    /// gets a message with the other's card. Returns the messages to deliver.
    pub fn play_card(&mut self, player_id: u64, oponent_id: u64, card_index: CardIndex) -> (notices:
        Vec<Notice>)
        requires
            can_play(*old(self), player_id, oponent_id, card_index),
        ensures
            card_play(*old(self), *final(self), player_id, oponent_id, card_index, notices@),
            old(self).wf() && !old(self).players@[player_id].played
                && old(self).players@[oponent_id].played ==> (last_preturn(old(self).turns@) matches Some(
                pre,
            ) && pre.player_id == oponent_id && notices@.len() == 2),
            old(self).wf() && player_id != oponent_id && card_index.wf() ==> final(self).wf(),
    {
        let ghost before = *old(self);
        let player = self.find_player(player_id);
        let oponent = self.find_player(oponent_id);

        if player.played {
            return Vec::new();
        }
        if oponent.played {
            proof {
                if before.wf() {
                    assert(pending_by(before.turns@, oponent_id));
                    assert(before.turns@.drop_last().push(before.turns@.last()) =~= before.turns@);
                }
            }
            match self.decide_turn(player_id, oponent_id, card_index) {
                Ok((turn, notices)) => {
                    self.append_turn(turn);
                    proof {
                        if before.wf() && card_index.wf() {
                            self.lemma_settled_round_keeps_wf(before, player_id, oponent_id, card_index);
                        }
                    }
                    notices
                },
                Err(_) => Vec::new(),
            }
        } else {
            let mut player = self.find_player_mut(player_id);
            player.played = true;
            self.players.insert(player_id, player);
            assert(self.players@ =~= old(self).players@.insert(
                player_id,
                Player { played: true, ..old(self).players@[player_id] },
            ));
            self.append_turn(TurnVariant::TurnInit(PreTurn { player_id, card_played: card_index }));
            proof {
                if before.wf() && player_id != oponent_id && card_index.wf() {
                    assert forall|q: u64| #[trigger]
                        self.players@.contains_key(q) && self.players@[q].played implies pending_by(
                        self.turns@,
                        q,
                    ) by {
                        lemma_two_seats(before.players@, player_id, oponent_id, q);
                    }
                    assert(self.players@.dom() =~= before.players@.dom());
                }
            }
            Vec::new()
        }
    }

    /// Points the opponent at the card in slot `card`: returns the message
    /// for `oponent_id`.
    pub fn highlight_card(&self, oponent_id: u64, card: u8) -> (notice: Notice)
        requires
            self.players@.contains_key(oponent_id),
        ensures
            notice == (Notice::Highlight { to: oponent_id, card }),
    {
        Notice::Highlight { to: oponent_id, card }
    }

    /// Deciding a round keeps the table well formed.
    proof fn lemma_settled_round_keeps_wf(self, before: Self, p: u64, o: u64, slot: CardIndex)
        requires
            before.wf(),
            slot.wf(),
            before.players@.contains_key(p),
            before.players@.contains_key(o),
            before.players@[o].played,
            last_preturn(before.turns@) matches Some(pre) && exists|replacement: Card|
                {
                    &&& replacement.wf()
                    &&& #[trigger] round_settled(
                        before.players@,
                        self.players@,
                        p,
                        o,
                        slot,
                        pre,
                        replacement,
                    )
                    &&& self.turns@ == before.turns@.push(completion(pre, p, slot, replacement))
                },
        ensures
            self.wf(),
    {
        let pre = last_preturn(before.turns@)->Some_0;
        let replacement = choose|replacement: Card|
            {
                &&& replacement.wf()
                &&& #[trigger] round_settled(
                    before.players@,
                    self.players@,
                    p,
                    o,
                    slot,
                    pre,
                    replacement,
                )
                &&& self.turns@ == before.turns@.push(completion(pre, p, slot, replacement))
            };
        assert(pending_by(before.turns@, o));
        assert(before.turns@.drop_last().push(before.turns@.last()) =~= before.turns@);
        let mine = card_played(before.players@, p, slot);
        let theirs = card_played(before.players@, o, pre.card_played);
        assert(mine.wf());
        assert(theirs.wf());
        lemma_with_card_keeps_piles_wf(before.players@[p].card_stack@, mine);
        lemma_with_card_keeps_piles_wf(before.players@[o].card_stack@, theirs);
        assert forall|q: u64| #[trigger] self.players@.contains_key(q) implies self.players@[q].wf() by {
            if q == p || q == o {
                let b = before.players@[q];
                let a = self.players@[q];
                assert forall|i: int| 0 <= i < 7 implies (#[trigger] a.maze[i]).wf() by {
                    assert(a.maze[i] == a.maze@[i]);
                    assert(b.maze[i] == b.maze@[i]);
                }
            }
        }
        assert forall|q: u64| #[trigger]
            self.players@.contains_key(q) && self.players@[q].played implies pending_by(
            self.turns@,
            q,
        ) by {
            assert(q != p && q != o);
            assert(pending_by(before.turns@, q));
        }
    }
}

} // verus!
