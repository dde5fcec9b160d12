use card_duel::cards::{Card, CardColor, CardElement, CardIndex, CardStack, SpecialCardEffect};
use card_duel::gamestate::{do_my_turn, find_myself, take_turn, GameState, Player};
use card_duel::turns::{
    Notice, PlayerAction, PlayerActionRequest, PostTurn, PreTurn, TurnVariant, BAD_TURN_MESSAGE,
};

fn card(number: u8, element: CardElement) -> Card {
    Card::new(number, element, CardColor::Blue)
}

fn idx(i: u8) -> CardIndex {
    CardIndex::from(i).unwrap()
}

fn player(name: &str, hand: [Card; 7]) -> Player<()> {
    Player { name: name.to_string(), tx: (), played: false, maze: hand, card_stack: CardStack::default() }
}

fn hand_of(c: Card) -> [Card; 7] {
    [c; 7]
}

/// Two players: 1 holds water 2 everywhere but an ice 9 in slot 4;
/// 2 holds a fire 3 in slot 0 and ice 5 elsewhere.
fn table() -> GameState<()> {
    let mut game: GameState<()> = GameState::default();
    let mut hand1 = hand_of(card(2, CardElement::Water));
    hand1[4] = card(9, CardElement::Ice);
    let mut hand2 = hand_of(card(5, CardElement::Ice));
    hand2[0] = card(3, CardElement::Fire);
    game.players.insert(1, player("uno", hand1));
    game.players.insert(2, player("dos", hand2));
    game
}

#[test]
fn default_table_is_empty() {
    let game: GameState<()> = GameState::default();
    assert!(game.players.is_empty());
    assert!(game.turns.is_empty());
    assert!(!game.is_full());
}

#[test]
fn a_table_with_two_players_is_full() {
    let mut game: GameState<()> = GameState::default();
    game.players.insert(7, player("a", hand_of(card(1, CardElement::Fire))));
    assert!(!game.is_full());
    game.players.insert(8, player("b", hand_of(card(1, CardElement::Fire))));
    assert!(game.is_full());
}

#[test]
fn a_joining_player_starts_clean() {
    let p = Player::from("Jugador 3".to_string(), 42u32);
    assert_eq!(p.name, "Jugador 3");
    assert_eq!(p.tx, 42);
    assert!(!p.played);
    for c in p.maze.iter() {
        assert_eq!(*c, p.maze[0]);
        assert!(1 <= c.number && c.number <= 12);
    }
    assert!(p.card_stack.substack(CardElement::Fire).is_empty());
    assert!(p.card_stack.substack(CardElement::Water).is_empty());
    assert!(p.card_stack.substack(CardElement::Ice).is_empty());
}

#[test]
fn end_of_turn_replaces_the_played_slot() {
    let mut p = player("p", hand_of(card(4, CardElement::Fire)));
    p.played = true;
    let fresh = card(11, CardElement::Water);
    p.advertise_for_turn_end(idx(6), fresh);
    assert!(!p.played);
    assert_eq!(p.maze[6], fresh);
    assert_eq!(p.card_from_maze(idx(6)), fresh);
    assert_eq!(p.mut_card_from_maze(idx(0)), card(4, CardElement::Fire));
}

#[test]
fn first_card_of_a_round_waits() {
    let mut game = table();
    let notices = game.play_card(1, 2, idx(4));
    assert!(notices.is_empty());
    assert!(game.players[&1].played);
    assert!(!game.players[&2].played);
    assert_eq!(game.turns, vec![TurnVariant::TurnInit(PreTurn { player_id: 1, card_played: idx(4) })]);
    assert_eq!(game.players[&1].maze[4], card(9, CardElement::Ice));
}

#[test]
fn playing_twice_in_a_round_is_ignored() {
    let mut game = table();
    game.play_card(1, 2, idx(4));
    let notices = game.play_card(1, 2, idx(3));
    assert!(notices.is_empty());
    assert_eq!(game.turns.len(), 1);
    assert!(game.players[&1].played);
}

#[test]
fn settling_a_round_scores_and_replaces() {
    let mut game = table();
    game.play_card(2, 1, idx(0));
    let fresh = card(6, CardElement::Water);
    let (turn, notices) = game.settle_turn(1, 2, idx(4), fresh).unwrap();
    // ice 9 against fire 3: the element loses but the number wins, so 1 wins.
    assert_eq!(
        turn,
        TurnVariant::TurnCompletion(
            PostTurn { player_id: 2, card_played: idx(0), card_appended: fresh },
            PostTurn { player_id: 1, card_played: idx(4), card_appended: fresh },
        )
    );
    assert_eq!(
        notices,
        vec![
            Notice::OpponentCard { to: 1, card: card(3, CardElement::Fire) },
            Notice::OpponentCard { to: 2, card: card(9, CardElement::Ice) },
        ]
    );
    let p1 = &game.players[&1];
    let p2 = &game.players[&2];
    assert!(!p1.played && !p2.played);
    assert_eq!(p1.maze[4], fresh);
    // the answering player's slot is the one replaced on both sides
    assert_eq!(p2.maze[4], fresh);
    assert_eq!(p2.maze[0], card(3, CardElement::Fire));
    assert_eq!(p1.card_stack.substack(CardElement::Ice), &vec![card(9, CardElement::Ice)]);
    assert!(p2.card_stack.substack(CardElement::Fire).is_empty());
    // settling does not write the log; playing does
    assert_eq!(game.turns.len(), 1);
}

#[test]
fn a_losing_answer_gives_the_card_to_the_opener() {
    let mut game = table();
    game.play_card(2, 1, idx(0));
    // water 2 against ice 5 (slot 1 of player 2) loses by element and by number.
    game.turns.clear();
    game.turns.push(TurnVariant::TurnInit(PreTurn { player_id: 2, card_played: idx(1) }));
    let fresh = card(1, CardElement::Fire);
    let (_, notices) = game.settle_turn(1, 2, idx(0), fresh).unwrap();
    assert_eq!(notices[0], Notice::OpponentCard { to: 1, card: card(5, CardElement::Ice) });
    assert_eq!(game.players[&2].card_stack.substack(CardElement::Ice), &vec![card(5, CardElement::Ice)]);
    assert!(game.players[&1].card_stack.substack(CardElement::Water).is_empty());
}

#[test]
fn a_tie_gives_nobody_a_card() {
    let mut game: GameState<()> = GameState::default();
    game.players.insert(1, player("a", hand_of(card(7, CardElement::Fire))));
    let mut b = player("b", hand_of(card(7, CardElement::Fire)));
    b.played = true;
    game.players.insert(2, b);
    game.turns.push(TurnVariant::TurnInit(PreTurn { player_id: 2, card_played: idx(3) }));
    let fresh = card(2, CardElement::Ice);
    assert!(game.settle_turn(1, 2, idx(5), fresh).is_ok());
    for id in [1u64, 2] {
        let p = &game.players[&id];
        assert!(p.card_stack.substack(CardElement::Fire).is_empty());
        assert_eq!(p.maze[5], fresh);
    }
}

#[test]
fn settling_without_an_open_round_is_refused() {
    let mut game = table();
    assert_eq!(game.settle_turn(1, 2, idx(4), card(1, CardElement::Fire)), Err(BAD_TURN_MESSAGE));
    assert!(game.turns.is_empty());
    assert_eq!(game.players[&1].maze[4], card(9, CardElement::Ice));
}

#[test]
fn an_answer_without_an_open_round_changes_nothing() {
    let mut game = table();
    game.players.get_mut(&2).unwrap().played = true;
    let notices = game.play_card(1, 2, idx(4));
    assert!(notices.is_empty());
    assert!(game.turns.is_empty());
    assert!(game.players[&2].played);
    assert!(!game.players[&1].played);
}

#[test]
fn a_full_round_through_play_card() {
    let mut game = table();
    assert!(game.play_card(2, 1, idx(0)).is_empty());
    let notices = game.play_card(1, 2, idx(4));
    assert_eq!(
        notices[..],
        [
            Notice::OpponentCard { to: 1, card: card(3, CardElement::Fire) },
            Notice::OpponentCard { to: 2, card: card(9, CardElement::Ice) },
        ]
    );
    assert_eq!(game.turns.len(), 2);
    match game.turns[1] {
        TurnVariant::TurnCompletion(opened, answered) => {
            assert_eq!(opened.player_id, 2);
            assert_eq!(opened.card_played, idx(0));
            assert_eq!(answered.player_id, 1);
            assert_eq!(answered.card_played, idx(4));
            assert_eq!(opened.card_appended, answered.card_appended);
            let fresh = answered.card_appended;
            assert!(1 <= fresh.number && fresh.number <= 12);
            assert_eq!(game.players[&1].maze[4], fresh);
            assert_eq!(game.players[&2].maze[4], fresh);
        },
        _ => panic!("the round should be decided"),
    }
    assert!(!game.players[&1].played && !game.players[&2].played);
    assert_eq!(game.players[&1].card_stack.substack(CardElement::Ice), &vec![card(9, CardElement::Ice)]);
    // a new round can start
    assert!(game.play_card(2, 1, idx(1)).is_empty());
    assert_eq!(game.get_last_preturn(), Some(PreTurn { player_id: 2, card_played: idx(1) }));
}

#[test]
fn the_last_opened_round_is_found_from_the_end() {
    let mut game = table();
    assert_eq!(game.get_last_preturn(), None);
    let a = PreTurn { player_id: 1, card_played: idx(2) };
    let b = PreTurn { player_id: 2, card_played: idx(5) };
    let done = TurnVariant::TurnCompletion(
        PostTurn { player_id: 1, card_played: idx(2), card_appended: card(1, CardElement::Ice) },
        PostTurn { player_id: 2, card_played: idx(3), card_appended: card(1, CardElement::Ice) },
    );
    game.append_turn(TurnVariant::TurnInit(a));
    game.append_turn(done);
    assert_eq!(game.get_last_preturn(), Some(a));
    game.append_turn(TurnVariant::TurnInit(b));
    game.append_turn(done);
    game.append_turn(done);
    assert_eq!(game.get_last_preturn(), Some(b));
    assert!(matches!(game.get_last_used_card_effect(), SpecialCardEffect::NoEffect));
}

#[test]
fn find_myself_needs_me_and_an_opponent() {
    let mut game: GameState<()> = GameState::default();
    assert_eq!(find_myself(&game, 1), None);
    game.players.insert(1, player("a", hand_of(card(1, CardElement::Fire))));
    assert_eq!(find_myself(&game, 1), None);
    game.players.insert(2, player("b", hand_of(card(1, CardElement::Fire))));
    assert_eq!(find_myself(&game, 1), Some((1, 2)));
    assert_eq!(find_myself(&game, 2), Some((2, 1)));
    assert_eq!(find_myself(&game, 3), None);
}

#[test]
fn highlight_tells_the_opponent() {
    let game = table();
    assert_eq!(game.highlight_card(2, 5), Notice::Highlight { to: 2, card: 5 });
}

#[test]
fn requests_are_carried_out_for_the_sender() {
    let mut game = table();
    let highlight = PlayerActionRequest { action: PlayerAction::HighlightCard(idx(3)) };
    assert_eq!(take_turn(&mut game, &highlight, 1), Some(vec![Notice::Highlight { to: 2, card: 3 }]));
    let forfeit = PlayerActionRequest { action: PlayerAction::Forfeit };
    assert_eq!(take_turn(&mut game, &forfeit, 2), Some(vec![]));
    assert!(game.turns.is_empty());
    let play = PlayerActionRequest { action: PlayerAction::PlayCard(idx(4)) };
    assert_eq!(take_turn(&mut game, &play, 9), None);
    assert!(game.turns.is_empty());
    assert_eq!(take_turn(&mut game, &play, 1), Some(vec![]));
    assert!(game.players[&1].played);
    let answer = PlayerActionRequest { action: PlayerAction::PlayCard(idx(0)) };
    let notices = do_my_turn(&mut game, &answer, 2, 1);
    assert_eq!(notices.len(), 2);
    assert_eq!(notices[0], Notice::OpponentCard { to: 2, card: card(9, CardElement::Ice) });
    assert_eq!(game.turns.len(), 2);
}

#[test]
fn alone_at_the_table_nothing_happens() {
    let mut game: GameState<()> = GameState::default();
    game.players.insert(1, player("a", hand_of(card(1, CardElement::Fire))));
    let play = PlayerActionRequest { action: PlayerAction::PlayCard(idx(0)) };
    assert_eq!(take_turn(&mut game, &play, 1), None);
    assert!(game.turns.is_empty());
    assert!(!game.players[&1].played);
}

#[test]
fn seating_and_leaving_change_only_the_seats() {
    let mut game = table();
    game.play_card(1, 2, idx(4));
    game.leave(2);
    assert!(!game.players.contains_key(&2));
    assert!(game.players.contains_key(&1));
    assert_eq!(game.turns.len(), 1);
    game.leave(9);
    assert_eq!(game.players.len(), 1);
    game.seat(3, player("tres", hand_of(card(8, CardElement::Water))));
    assert_eq!(game.players[&3].name, "tres");
    assert!(game.is_full());
    assert_eq!(game.turns.len(), 1);
}
