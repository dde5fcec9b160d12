use std::collections::HashMap;
use vstd::prelude::*;

use crate::cards::{Card, CardStack};
use crate::turns::{
    can_play, card_play, Notice, PlayerAction, PlayerActionRequest, TurnVariant,
};

verus! {

/// A player at the table. `tx` is whatever the server uses to reach the
/// player; the rules never look at it.
#[derive(Debug, Clone)]
pub struct Player<Tx> {
    pub name: String,
    pub tx: Tx,
    pub played: bool,
    pub maze: [Card; 7],
    pub card_stack: CardStack,
}

impl<Tx> Player<Tx> {
    /// Every card in the hand and in the piles is well formed, and each
    /// won card lies in the pile of its element.
    pub open spec fn wf(self) -> bool {
        &&& forall|i: int| 0 <= i < 7 ==> (#[trigger] self.maze[i]).wf()
        &&& self.card_stack.wf()
    }
}

/// The last entry of `turns` is a round opened by `q` from a slot of its hand.
pub open spec fn pending_by(turns: Seq<TurnVariant>, q: u64) -> bool {
    &&& turns.len() > 0
    &&& turns.last() matches TurnVariant::TurnInit(pre)
    &&& pre.player_id == q
    &&& pre.card_played.wf()
}

/// With at most two players seated, any seated player is one of two
/// distinct seated players.
pub proof fn lemma_two_seats<V>(players: Map<u64, V>, p: u64, o: u64, q: u64)
    requires
        players.dom().finite(),
        players.dom().len() <= 2,
        players.contains_key(p),
        players.contains_key(o),
        players.contains_key(q),
        p != o,
    ensures
        q == p || q == o,
{
    if q != p && q != o {
        let three = Set::<u64>::empty().insert(p).insert(o).insert(q);
        assert(three.len() == 3);
        vstd::set_lib::lemma_len_subset(three, players.dom());
    }
}

/// The whole table: the players by id and the log of turns.
#[derive(Debug)]
pub struct GameState<Tx> {
    pub players: HashMap<u64, Player<Tx>>,
    pub turns: Vec<TurnVariant>,
}

impl<Tx> GameState<Tx> {
    /// The table is well formed: at most two players are seated, every
    /// card in hands and piles is well formed, and a player who has played
    /// is the one whose opening move ends the log.
    pub open spec fn wf(self) -> bool {
        &&& self.players@.dom().len() <= 2
        &&& forall|q: u64| #[trigger] self.players@.contains_key(q) ==> self.players@[q].wf()
        &&& forall|q: u64|
            #[trigger] self.players@.contains_key(q) && self.players@[q].played ==> pending_by(
                self.turns@,
                q,
            )
    }
}

impl<Tx> Default for GameState<Tx> {
    /// An empty table with no turn played.
    fn default() -> (game: Self)
        ensures
            game.players@ == Map::<u64, Player<Tx>>::empty(),
            game.turns@ == Seq::<TurnVariant>::empty(),
            game.wf(),
    {
        GameState { players: HashMap::new(), turns: Vec::new() }
    }
}

impl<Tx> GameState<Tx> {
    /// Both seats are taken: a newcomer is turned away.
    pub fn is_full(&self) -> (full: bool)
        ensures
            full == (self.players@.len() >= 2),
    {
        self.players.len() >= 2
    }
}

impl<Tx> GameState<Tx> {
    /// Seats `player` under `player_id`. A newcomer who has not played,
    /// seated at a table with a free seat, keeps the table well formed.
    pub fn seat(&mut self, player_id: u64, player: Player<Tx>)
        ensures
            final(self).players@ == old(self).players@.insert(player_id, player),
            final(self).turns@ == old(self).turns@,
            old(self).wf() && old(self).players@.len() < 2 && !old(self).players@.contains_key(
                player_id,
            ) && player.wf() && !player.played ==> final(self).wf(),
    {
        self.players.insert(player_id, player);
    }

    /// Removes the player seated under `player_id`, if any. A player
    /// leaving keeps the table well formed.
    pub fn leave(&mut self, player_id: u64)
        ensures
            final(self).players@ == old(self).players@.remove(player_id),
            final(self).turns@ == old(self).turns@,
            old(self).wf() ==> final(self).wf(),
    {
        self.players.remove(&player_id);
    }
}

/// What a request does to the table, made by `myself` against `opponent`:
/// playing a card goes as `card_play` says; pointing at a card leaves the
/// table as it is and tells the opponent; giving up is not acted on.
pub open spec fn request_done<Tx>(
    before: GameState<Tx>,
    after: GameState<Tx>,
    request: PlayerActionRequest,
    myself: u64,
    opponent: u64,
    notices: Seq<Notice>,
) -> bool {
    match request.action {
        PlayerAction::PlayCard(card) => card_play(before, after, myself, opponent, card, notices),
        PlayerAction::HighlightCard(card) => {
            &&& after.players@ == before.players@
            &&& after.turns@ == before.turns@
            &&& notices == seq![Notice::Highlight { to: opponent, card: card.index }]
        },
        PlayerAction::Forfeit => {
            &&& after.players@ == before.players@
            &&& after.turns@ == before.turns@
            &&& notices == Seq::<Notice>::empty()
        },
    }
}

/// The inputs on which a request of `myself` against `opponent` reaches
/// no slot outside a hand.
pub open spec fn can_do<Tx>(game: GameState<Tx>, request: PlayerActionRequest, myself: u64, opponent: u64) -> bool {
    &&& game.players@.contains_key(myself)
    &&& game.players@.contains_key(opponent)
    &&& request.action matches PlayerAction::PlayCard(card) ==> can_play(game, myself, opponent, card)
}

/// Carries out the request of `myself`, whose opponent is `opponent`.
/// Returns the messages to deliver.
pub fn do_my_turn<Tx>(
    game: &mut GameState<Tx>,
    action_request: &PlayerActionRequest,
    myself: u64,
    opponent: u64,
) -> (notices: Vec<Notice>)
    requires
        can_do(*old(game), *action_request, myself, opponent),
    ensures
        request_done(*old(game), *final(game), *action_request, myself, opponent, notices@),
{
    match action_request.action {
        PlayerAction::PlayCard(card) => game.play_card(myself, opponent, card),
        PlayerAction::HighlightCard(card) => {
            let mut notices = Vec::new();
            notices.push(game.highlight_card(opponent, card.index));
            notices
        },
        _ => Vec::new(),
    }
}

/// Carries out a request of `player_id`: finds the player and an opponent
/// at the table (see `find_myself`) and acts as `do_my_turn` says.
/// Returns `None`, changing nothing, when the player or an opponent is
/// missing; otherwise the messages to deliver.
pub fn take_turn<Tx>(game: &mut GameState<Tx>, request: &PlayerActionRequest, player_id: u64) -> (result:
    Option<Vec<Notice>>)
    requires
        forall|opponent: u64|
            #[trigger] old(game).players@.contains_key(opponent) && opponent != player_id
                && old(game).players@.contains_key(player_id) ==> can_do(
                *old(game),
                *request,
                player_id,
                opponent,
            ),
    ensures
        result is None <==> !(old(game).players@.contains_key(player_id) && exists|q: u64|
            #[trigger] old(game).players@.contains_key(q) && q != player_id),
        result is None ==> final(game).players@ == old(game).players@ && final(game).turns@
            == old(game).turns@,
        result matches Some(notices) ==> exists|opponent: u64|
            {
                &&& #[trigger] old(game).players@.contains_key(opponent)
                &&& opponent != player_id
                &&& request_done(*old(game), *final(game), *request, player_id, opponent, notices@)
            },
{
    match find_myself(game, player_id) {
        Some((myself, opponent)) => Some(do_my_turn(game, request, myself, opponent)),
        None => None,
    }
}

/// Finds `player_id` at the table together with an opponent: some other
/// player seated there (with two players, the other one).
pub fn find_myself<Tx>(game: &GameState<Tx>, player_id: u64) -> (found: Option<(u64, u64)>)
    ensures
        found is Some <==> (game.players@.contains_key(player_id) && exists|q: u64|
            #[trigger] game.players@.contains_key(q) && q != player_id),
        found matches Some((myself, opponent)) ==> {
            &&& myself == player_id
            &&& game.players@.contains_key(opponent)
            &&& opponent != player_id
        },
{
    let mut myself: Option<u64> = None;
    let mut opponent: Option<u64> = None;
    for id in it: game.players.keys()
        invariant
            it.seq().unref().to_set() == game.players@.dom(),
            myself is Some ==> myself == Some(player_id) && game.players@.contains_key(player_id),
            myself is Some <==> exists|j: int| 0 <= j < it.index() && *it.seq()[j] == player_id,
            opponent matches Some(o) ==> o != player_id && game.players@.contains_key(o),
            opponent is None ==> forall|j: int| 0 <= j < it.index() ==> *it.seq()[j] == player_id,
    {
        if *id == player_id {
            myself = Some(*id);
        } else {
            opponent = Some(*id);
        }
    }
    if let (Some(myself), Some(opponent)) = (myself, opponent) {
        return Some((myself, opponent));
    }
    None
}

} // verus!
