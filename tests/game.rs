use blackjack::action::{parse_action, read_action, Action};
use blackjack::card::Rank;
use blackjack::deck::Deck;
use blackjack::game::{Game, GameStage, Winner};

const ALL_RANKS: [Rank; 13] = [
    Rank::Ace,
    Rank::Two,
    Rank::Three,
    Rank::Four,
    Rank::Five,
    Rank::Six,
    Rank::Seven,
    Rank::Eight,
    Rank::Nine,
    Rank::Ten,
    Rank::Jack,
    Rank::Queen,
    Rank::King,
];

/// A round whose cards come out in the order of `draws`: two to the player,
/// two to the dealer, then the hits in turn.
fn stacked_game(draws: &[Rank]) -> Game {
    let mut cards = Vec::new();
    for r in ALL_RANKS.iter() {
        for _ in 0..4 {
            cards.push(*r);
        }
    }
    for r in draws.iter() {
        let at = cards.iter().position(|c| c == r).unwrap();
        cards.remove(at);
    }
    for r in draws.iter().rev() {
        cards.push(*r);
    }
    Game::with_deck(Deck::from_cards(cards).unwrap())
}

fn assert_turns_exclusive(game: &Game) {
    assert!(!(game.players_turn() && game.dealers_turn()));
    if game.is_over() {
        assert!(!game.players_turn());
        assert!(!game.dealers_turn());
    }
}

#[test]
fn dealer_blackjack_ends_the_round_at_once() {
    let mut game = stacked_game(&[Rank::Ten, Rank::Nine, Rank::Ace, Rank::King]);
    game.start();
    assert!(game.is_over());
    assert_eq!(game.stage(), GameStage::GameOver { winner: Winner::Dealer });
    assert_eq!(game.player_cards(), &vec![Rank::Ten, Rank::Nine]);
    assert_eq!(game.dealer_cards(), &vec![Rank::Ace, Rank::King]);
    game.player_action(String::from("h"));
    assert_eq!(game.player_cards().len(), 2);
    assert_eq!(game.stage(), GameStage::GameOver { winner: Winner::Dealer });
    assert_turns_exclusive(&game);
}

#[test]
fn dealer_wins_on_higher_score_after_player_stands() {
    let mut game = stacked_game(&[Rank::Ten, Rank::Eight, Rank::Ten, Rank::Nine]);
    game.start();
    assert!(game.players_turn());
    assert_eq!(game.player_hand().score(), 18);
    game.player_action(String::from("s"));
    assert!(game.dealers_turn());
    game.dealer_action();
    assert!(!game.dealers_turn());
    assert!(!game.is_over());
    assert_eq!(game.stage(), GameStage::Resolve);
    assert_eq!(game.dealer_hand().score(), 19);
    game.select_winner();
    assert_eq!(game.stage(), GameStage::GameOver { winner: Winner::Dealer });
    assert_turns_exclusive(&game);
}

#[test]
fn dealer_hits_up_to_19_and_beats_18() {
    let mut game = stacked_game(&[
        Rank::Ten,
        Rank::Eight,
        Rank::Two,
        Rank::Three,
        Rank::Ten,
        Rank::Four,
    ]);
    game.start();
    game.player_action(String::from("s"));
    game.dealer_action();
    assert!(game.dealers_turn());
    assert_eq!(game.dealer_hand().score(), 15);
    game.dealer_action();
    assert!(game.dealers_turn());
    assert_eq!(game.dealer_hand().score(), 19);
    game.dealer_action();
    assert_eq!(game.stage(), GameStage::Resolve);
    assert_eq!(
        game.dealer_cards(),
        &vec![Rank::Two, Rank::Three, Rank::Ten, Rank::Four]
    );
    game.select_winner();
    assert_eq!(game.stage(), GameStage::GameOver { winner: Winner::Dealer });
}

#[test]
fn player_bust_loses_before_the_dealer_acts() {
    let mut game = stacked_game(&[Rank::Ten, Rank::Nine, Rank::Two, Rank::Three, Rank::Five]);
    game.start();
    game.player_action(String::from("h"));
    assert_eq!(game.player_cards(), &vec![Rank::Ten, Rank::Nine, Rank::Five]);
    assert_eq!(game.player_hand().score(), 24);
    assert!(game.player_hand().is_bust());
    assert_eq!(game.stage(), GameStage::GameOver { winner: Winner::Dealer });
    game.dealer_action();
    assert_eq!(game.dealer_cards(), &vec![Rank::Two, Rank::Three]);
    assert!(game.dealer_hand().actions().is_empty());
    assert_turns_exclusive(&game);
}

#[test]
fn player_blackjack_wins() {
    let mut game = stacked_game(&[Rank::Ace, Rank::Queen, Rank::Ten, Rank::Nine]);
    game.start();
    assert_eq!(game.stage(), GameStage::GameOver { winner: Winner::Player });
}

#[test]
fn both_blackjack_tie() {
    let mut game = stacked_game(&[Rank::Ace, Rank::Queen, Rank::King, Rank::Ace]);
    game.start();
    assert_eq!(game.stage(), GameStage::GameOver { winner: Winner::Tie });
}

#[test]
fn dealer_bust_hands_the_round_to_the_player() {
    let mut game = stacked_game(&[Rank::Ten, Rank::Seven, Rank::Ten, Rank::Six, Rank::Nine]);
    game.start();
    game.player_stand();
    game.dealer_action();
    assert_eq!(game.dealer_hand().score(), 25);
    assert_eq!(game.stage(), GameStage::GameOver { winner: Winner::Player });
}

#[test]
fn equal_scores_tie() {
    let mut game = stacked_game(&[Rank::Ten, Rank::Eight, Rank::Nine, Rank::Nine]);
    game.start();
    game.player_action(String::from("s"));
    game.dealer_action();
    game.select_winner();
    assert_eq!(game.stage(), GameStage::GameOver { winner: Winner::Tie });
}

#[test]
fn player_wins_on_higher_score() {
    let mut game = stacked_game(&[Rank::Ten, Rank::Queen, Rank::Ten, Rank::Seven]);
    game.start();
    game.player_action(String::from("s"));
    game.dealer_action();
    assert_eq!(game.stage(), GameStage::Resolve);
    game.select_winner();
    assert_eq!(game.stage(), GameStage::GameOver { winner: Winner::Player });
}

#[test]
fn player_hit_without_bust_keeps_the_turn() {
    let mut game = stacked_game(&[Rank::Two, Rank::Three, Rank::Ten, Rank::Seven, Rank::Four]);
    game.start();
    game.player_action(String::from("  h \n"));
    assert!(game.players_turn());
    assert_eq!(game.player_hand().score(), 9);
    assert_eq!(game.player_hand().actions(), &vec![Action::Hit]);
    assert_eq!(game.dealer_cards().len(), 2);
}

#[test]
fn unknown_input_changes_nothing() {
    let mut game = stacked_game(&[Rank::Two, Rank::Three, Rank::Ten, Rank::Seven]);
    game.start();
    game.player_action(String::from("x"));
    game.player_action(String::from(""));
    game.player_action(String::from("hit"));
    assert!(game.players_turn());
    assert_eq!(game.player_cards().len(), 2);
    assert!(game.player_hand().actions().is_empty());
}

#[test]
fn dealer_action_waits_for_the_dealer_turn() {
    let mut game = stacked_game(&[Rank::Two, Rank::Three, Rank::Four, Rank::Five]);
    game.start();
    game.dealer_action();
    game.dealer_hit();
    game.select_winner();
    assert!(game.players_turn());
    assert_eq!(game.dealer_cards().len(), 2);
}

#[test]
fn start_deals_only_once() {
    let mut game = stacked_game(&[Rank::Two, Rank::Three, Rank::Four, Rank::Five]);
    game.start();
    game.start();
    assert_eq!(game.player_cards().len(), 2);
    assert_eq!(game.dealer_cards().len(), 2);
}

#[test]
fn game_over_is_final() {
    let mut game = stacked_game(&[Rank::Two, Rank::Three, Rank::Four, Rank::Five]);
    game.start();
    game.game_over(Winner::Player);
    assert_eq!(game.stage(), GameStage::GameOver { winner: Winner::Player });
    game.game_over(Winner::Dealer);
    game.player_action(String::from("s"));
    game.dealer_action();
    game.select_winner();
    game.check_blackjack();
    assert_eq!(game.stage(), GameStage::GameOver { winner: Winner::Player });
    assert_turns_exclusive(&game);
}

#[test]
fn state_hides_the_dealer_hole_card_during_the_player_turn() {
    let mut game = stacked_game(&[Rank::Ten, Rank::Eight, Rank::Nine, Rank::King]);
    game.start();
    let state = game.get_state();
    assert_eq!(state.dealer_cards, vec![Rank::Nine]);
    assert_eq!(state.dealer_score, 9);
    assert_eq!(state.player_cards, vec![Rank::Ten, Rank::Eight]);
    assert_eq!(state.player_score, 18);
    assert_eq!(state.stage, GameStage::PlayerTurn);
    game.player_action(String::from("s"));
    let state = game.get_state();
    assert_eq!(state.dealer_cards, vec![Rank::Nine, Rank::King]);
    assert_eq!(state.dealer_score, 19);
    assert_eq!(state.stage, GameStage::DealerTurn);
}

#[test]
fn turns_never_overlap_through_a_round() {
    let mut game = stacked_game(&[
        Rank::Five,
        Rank::Six,
        Rank::Two,
        Rank::Four,
        Rank::Three,
        Rank::Seven,
        Rank::Eight,
    ]);
    assert_turns_exclusive(&game);
    game.start();
    assert_turns_exclusive(&game);
    assert!(game.players_turn());
    game.player_action(String::from("h"));
    assert_turns_exclusive(&game);
    game.player_action(String::from("s"));
    assert_turns_exclusive(&game);
    while game.dealers_turn() {
        game.dealer_action();
        assert_turns_exclusive(&game);
    }
    game.select_winner();
    assert!(game.is_over());
    assert_turns_exclusive(&game);
}

#[test]
fn fresh_game_starts_on_the_player_turn() {
    let mut game = Game::new();
    assert!(game.players_turn());
    assert!(!game.dealers_turn());
    assert!(!game.is_over());
    game.start();
    assert_eq!(game.player_cards().len(), 2);
    assert_eq!(game.dealer_cards().len(), 2);
    let other = Game::default();
    assert!(other.players_turn());
}

#[test]
fn input_is_read_after_trimming() {
    assert_eq!(read_action("h"), Some(Action::Hit));
    assert_eq!(read_action("  h\n"), Some(Action::Hit));
    assert_eq!(read_action("\ts \r\n"), Some(Action::Stand));
    assert_eq!(read_action("x"), None);
    assert_eq!(read_action(""), None);
    assert_eq!(read_action("h s"), None);
}

#[test]
fn parse_action_takes_exact_letters() {
    assert_eq!(parse_action("h"), Some(Action::Hit));
    assert_eq!(parse_action("s"), Some(Action::Stand));
    assert_eq!(parse_action(" h"), None);
    assert_eq!(parse_action("H"), None);
    assert_eq!(parse_action("hh"), None);
}
