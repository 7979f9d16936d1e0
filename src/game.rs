//! The round: one deck, the player's and the dealer's hands, and the turn
//! state machine PlayerTurn -> DealerTurn -> Resolve -> GameOver.
//!
//! Every operation that changes the game is a no-op outside the stage it
//! belongs to; in particular nothing changes a finished game.
use vstd::prelude::*;
use vstd::multiset::Multiset;
use crate::action::{Action, action_of_input, read_action};
use crate::card::Rank;
use crate::deck::{Deck, is_full_deck, standard_deck, top_cards, after_draws};
use crate::hand::{
    Hand, HandView, hand_score, blackjack, lemma_score_at_least_card_count,
    lemma_two_cards_not_bust,
};

verus! {

/// The dealer hits below this score and stands at or above it.
pub const DEALER_STANDS_AT: u32 = 17;

/// Who took the round.
#[derive(Clone, Copy, Debug, PartialEq, Eq, Structural)]
pub enum Winner {
    Player,
    Dealer,
    Tie,
}

/// Where the round stands.
#[derive(Clone, Copy, Debug, PartialEq, Eq, Structural)]
pub enum GameStage {
    PlayerTurn,
    DealerTurn,
    Resolve,
    GameOver { winner: Winner },
}

/// The whole state of a round.
pub struct GameView {
    pub deck: Seq<Rank>,
    pub player: HandView,
    pub dealer: HandView,
    pub stage: GameStage,
}

/// A hand after a hit that drew `c`.
pub open spec fn hand_after_hit(h: HandView, c: Rank) -> HandView {
    HandView { cards: h.cards.push(c), actions: h.actions.push(Action::Hit) }
}

/// A hand after a stand.
pub open spec fn hand_after_stand(h: HandView) -> HandView {
    HandView { cards: h.cards, actions: h.actions.push(Action::Stand) }
}

/// A hand after `n` cards from the top of `deck` were dealt to it.
pub open spec fn hand_after_deal(h: HandView, deck: Seq<Rank>, n: nat) -> HandView {
    HandView { cards: h.cards + top_cards(deck, n), actions: h.actions }
}

/// The higher score wins; equal scores tie.
pub open spec fn winner_by_scores(player: int, dealer: int) -> Winner {
    if player > dealer {
        Winner::Player
    } else if player < dealer {
        Winner::Dealer
    } else {
        Winner::Tie
    }
}

/// The outcome of the blackjack check on the initial deal, if it ends the round.
pub open spec fn blackjack_winner(player: bool, dealer: bool) -> Option<Winner> {
    if player && dealer {
        Some(Winner::Tie)
    } else if player {
        Some(Winner::Player)
    } else if dealer {
        Some(Winner::Dealer)
    } else {
        None
    }
}

impl GameView {
    pub open spec fn is_player_turn(self) -> bool {
        self.stage is PlayerTurn
    }

    pub open spec fn is_dealer_turn(self) -> bool {
        self.stage is DealerTurn
    }

    pub open spec fn is_over(self) -> bool {
        self.stage is GameOver
    }

    pub open spec fn with_stage(self, stage: GameStage) -> GameView {
        GameView { deck: self.deck, player: self.player, dealer: self.dealer, stage }
    }

    /// What holds in every reachable state: the cards in the deck and in the
    /// two hands are exactly one full deck; while the player plays, the
    /// player is not bust and the dealer holds at most the initial two cards;
    /// while the dealer plays, the player is not bust and the dealer either
    /// holds at most two cards or is not bust either.
    pub open spec fn is_consistent(self) -> bool {
        &&& self.deck.to_multiset().add(self.player.cards.to_multiset()).add(
            self.dealer.cards.to_multiset(),
        ) == standard_deck().to_multiset()
        &&& self.stage is PlayerTurn ==> hand_score(self.player.cards) <= 21
            && self.dealer.cards.len() <= 2
        &&& self.stage is DealerTurn ==> hand_score(self.player.cards) <= 21 && (
        self.dealer.cards.len() <= 2 || hand_score(self.dealer.cards) <= 21)
    }

    /// A round before the deal.
    pub open spec fn is_fresh(self) -> bool {
        &&& self.stage is PlayerTurn
        &&& self.player.cards.len() == 0
        &&& self.dealer.cards.len() == 0
    }

    /// The round ends with `winner`, unless it has ended already.
    pub open spec fn after_game_over(self, winner: Winner) -> GameView {
        if self.is_over() {
            self
        } else {
            self.with_stage(GameStage::GameOver { winner })
        }
    }

    /// Right after the initial deal: a blackjack ends the round.
    pub open spec fn after_check_blackjack(self) -> GameView {
        if self.stage is PlayerTurn && self.player.cards.len() == 2 && self.dealer.cards.len()
            == 2 {
            match blackjack_winner(blackjack(self.player.cards), blackjack(self.dealer.cards)) {
                Some(w) => self.with_stage(GameStage::GameOver { winner: w }),
                None => self,
            }
        } else {
            self
        }
    }

    /// Deals two cards to the player, then two to the dealer, then checks for
    /// blackjack. Only a fresh round is dealt.
    pub open spec fn after_start(self) -> GameView {
        if self.is_fresh() {
            let rest = after_draws(self.deck, 2);
            GameView {
                deck: after_draws(rest, 2),
                player: hand_after_deal(self.player, self.deck, 2),
                dealer: hand_after_deal(self.dealer, rest, 2),
                stage: self.stage,
            }.after_check_blackjack()
        } else {
            self
        }
    }

    /// On the player's turn the player draws a card; going bust loses at once.
    pub open spec fn after_player_hit(self) -> GameView {
        if self.is_player_turn() {
            let p = hand_after_hit(self.player, self.deck.last());
            GameView {
                deck: self.deck.drop_last(),
                player: p,
                dealer: self.dealer,
                stage: if hand_score(p.cards) > 21 {
                    GameStage::GameOver { winner: Winner::Dealer }
                } else {
                    GameStage::PlayerTurn
                },
            }
        } else {
            self
        }
    }

    /// On the player's turn the player stands and the dealer's turn begins.
    pub open spec fn after_player_stand(self) -> GameView {
        if self.is_player_turn() {
            GameView {
                deck: self.deck,
                player: hand_after_stand(self.player),
                dealer: self.dealer,
                stage: GameStage::DealerTurn,
            }
        } else {
            self
        }
    }

    /// On the dealer's turn the dealer draws a card; going bust loses at once.
    pub open spec fn after_dealer_hit(self) -> GameView {
        if self.is_dealer_turn() {
            let d = hand_after_hit(self.dealer, self.deck.last());
            GameView {
                deck: self.deck.drop_last(),
                player: self.player,
                dealer: d,
                stage: if hand_score(d.cards) > 21 {
                    GameStage::GameOver { winner: Winner::Player }
                } else {
                    GameStage::DealerTurn
                },
            }
        } else {
            self
        }
    }

    /// On the dealer's turn the dealer stands and the scores are to be compared.
    pub open spec fn after_dealer_stand(self) -> GameView {
        if self.is_dealer_turn() {
            GameView {
                deck: self.deck,
                player: self.player,
                dealer: hand_after_stand(self.dealer),
                stage: GameStage::Resolve,
            }
        } else {
            self
        }
    }

    /// The player's move, when the input selected one.
    pub open spec fn after_player_action(self, action: Option<Action>) -> GameView {
        match action {
            Some(Action::Hit) => self.after_player_hit(),
            Some(Action::Stand) => self.after_player_stand(),
            None => self,
        }
    }

    /// The dealer's automatic move: hit below 17, stand otherwise.
    pub open spec fn after_dealer_action(self) -> GameView {
        if self.is_dealer_turn() {
            if hand_score(self.dealer.cards) < DEALER_STANDS_AT {
                self.after_dealer_hit()
            } else {
                self.after_dealer_stand()
            }
        } else {
            self
        }
    }

    /// Once both have stood, the higher score wins.
    pub open spec fn after_select_winner(self) -> GameView {
        if self.stage is Resolve {
            self.with_stage(
                GameStage::GameOver {
                    winner: winner_by_scores(
                        hand_score(self.player.cards),
                        hand_score(self.dealer.cards),
                    ),
                },
            )
        } else {
            self
        }
    }

    /// The dealer's cards that may be shown: only the first while the player
    /// is still playing, all of them afterwards.
    pub open spec fn visible_dealer_cards(self) -> Seq<Rank> {
        if self.is_player_turn() {
            self.dealer.cards.take(
                if self.dealer.cards.len() > 0 {
                    1int
                } else {
                    0int
                },
            )
        } else {
            self.dealer.cards
        }
    }
}

/// It is never both parties' turn, and once the round is over it is nobody's.
pub proof fn lemma_turns_exclusive(g: GameView)
    ensures
        !(g.is_player_turn() && g.is_dealer_turn()),
        g.is_over() ==> !g.is_player_turn() && !g.is_dealer_turn(),
{
}

/// A finished round stays as it is, whatever is done to it.
pub proof fn lemma_game_over_is_final(g: GameView, winner: Winner, action: Option<Action>)
    requires
        g.is_over(),
    ensures
        g.after_start() == g,
        g.after_check_blackjack() == g,
        g.after_player_action(action) == g,
        g.after_player_hit() == g,
        g.after_player_stand() == g,
        g.after_dealer_hit() == g,
        g.after_dealer_stand() == g,
        g.after_dealer_action() == g,
        g.after_select_winner() == g,
        g.after_game_over(winner) == g,
{
}

/// What a display may show of a round.
pub struct PublicState {
    pub dealer_cards: Vec<Rank>,
    pub player_cards: Vec<Rank>,
    pub dealer_score: u32,
    pub player_score: u32,
    pub stage: GameStage,
}

/// One round of blackjack between a player and an automated dealer.
pub struct Game {
    deck: Deck,
    player: Hand,
    dealer: Hand,
    stage: GameStage,
}

impl View for Game {
    type V = GameView;

    closed spec fn view(&self) -> GameView {
        GameView {
            deck: self.deck@,
            player: self.player@,
            dealer: self.dealer@,
            stage: self.stage,
        }
    }
}

/// The cards in play always number 52.
proof fn lemma_cards_in_play(g: GameView)
    requires
        g.is_consistent(),
    ensures
        g.deck.len() + g.player.cards.len() + g.dealer.cards.len() == 52,
{
    broadcast use vstd::seq_lib::group_to_multiset_ensures;
    broadcast use vstd::multiset::group_multiset_axioms;
    let m = standard_deck().to_multiset();
    assert(standard_deck().len() == 52);
    assert(m.len() == 52);
    let a = g.deck.to_multiset();
    let b = g.player.cards.to_multiset();
    let c = g.dealer.cards.to_multiset();
    assert(a.len() == g.deck.len());
    assert(b.len() == g.player.cards.len());
    assert(c.len() == g.dealer.cards.len());
    assert(a.add(b).len() == a.len() + b.len());
    assert(a.add(b).add(c).len() == a.add(b).len() + c.len());
}

/// In a consistent round the deck still holds a card whenever a party may
/// draw: the player has at most 21 cards while not bust, and the dealer at
/// most 21 while drawing.
pub proof fn lemma_deck_never_runs_dry(g: GameView)
    requires
        g.is_consistent(),
        g.is_player_turn() || g.is_dealer_turn(),
    ensures
        g.deck.len() >= 10,
{
    lemma_cards_in_play(g);
    lemma_score_at_least_card_count(g.player.cards);
    lemma_score_at_least_card_count(g.dealer.cards);
}

/// Moving one card from the top of the deck into a hand keeps the cards in play.
proof fn lemma_move_top_card(deck: Seq<Rank>, hand: Seq<Rank>, other: Seq<Rank>)
    requires
        deck.len() > 0,
    ensures
        deck.drop_last().to_multiset().add(hand.push(deck.last()).to_multiset()) == deck.to_multiset().add(
            hand.to_multiset(),
        ),
        deck.drop_last().to_multiset().add(other.to_multiset()).add(
            hand.push(deck.last()).to_multiset(),
        ) == deck.to_multiset().add(other.to_multiset()).add(hand.to_multiset()),
{
    broadcast use vstd::multiset::group_multiset_axioms;
    let c = deck.last();
    assert(deck =~= deck.drop_last().push(c));
    vstd::seq_lib::to_multiset_build(deck.drop_last(), c);
    vstd::seq_lib::to_multiset_build(hand, c);
    assert(deck.drop_last().to_multiset().add(hand.push(c).to_multiset()) =~= deck.to_multiset().add(
        hand.to_multiset(),
    ));
    assert(deck.drop_last().to_multiset().add(other.to_multiset()).add(
        hand.push(c).to_multiset(),
    ) =~= deck.to_multiset().add(other.to_multiset()).add(hand.to_multiset()));
}

impl Default for Game {
    /// Same as [`Game::new`].
    fn default() -> (g: Game)
        ensures
            g.wf(),
            g@.is_fresh(),
            is_full_deck(g@.deck),
    {
        Game::new()
    }
}

impl Game {
    /// The hands hold their cached scores, and the round is consistent.
    pub closed spec fn wf(&self) -> bool {
        &&& self.player.wf()
        &&& self.dealer.wf()
        &&& self@.is_consistent()
    }

    /// A fresh round on a newly shuffled deck.
    pub fn new() -> (g: Game)
        ensures
            g.wf(),
            g@.is_fresh(),
            is_full_deck(g@.deck),
            g@.player.actions.len() == 0,
            g@.dealer.actions.len() == 0,
    {
        Game::with_deck(Deck::new())
    }

    /// A fresh round on a given full deck, in the order given; the last card
    /// of the deck is dealt first.
    pub fn with_deck(deck: Deck) -> (g: Game)
        requires
            is_full_deck(deck@),
        ensures
            g.wf(),
            g@.is_fresh(),
            g@.deck == deck@,
            g@.player.actions.len() == 0,
            g@.dealer.actions.len() == 0,
    {
        let g = Game { deck, player: Hand::new(), dealer: Hand::new(), stage: GameStage::PlayerTurn };
        proof {
            broadcast use vstd::multiset::group_multiset_axioms;
            broadcast use vstd::seq_lib::group_to_multiset_ensures;
            assert(g@.player.cards.to_multiset() =~= Multiset::empty());
            assert(g@.dealer.cards.to_multiset() =~= Multiset::empty());
            assert(g@.deck.to_multiset().add(g@.player.cards.to_multiset()).add(
                g@.dealer.cards.to_multiset(),
            ) =~= deck@.to_multiset());
        }
        g
    }

    /// Deals two cards to the player and two to the dealer, then ends the
    /// round at once if either holds a blackjack. A round that was dealt
    /// already, or where the player has drawn, is left as it is.
    pub fn start(&mut self)
        requires
            old(self).wf(),
        ensures
            final(self).wf(),
            final(self)@ == old(self)@.after_start(),
    {
        if self.players_turn() && self.player.cards().len() == 0 && self.dealer.cards().len() == 0 {
            proof {
                lemma_cards_in_play(self@);
            }
            let ghost g0 = self@;
            let n: u32 = 2;
            self.player.deal_cards(&mut self.deck, n);
            let ghost deck1 = self.deck@;
            self.dealer.deal_cards(&mut self.deck, n);
            proof {
                broadcast use vstd::multiset::group_multiset_axioms;
                lemma_two_cards_not_bust(self.player@.cards);
                assert forall|x: Rank|
                    #![auto]
                    self.deck@.to_multiset().add(self.player@.cards.to_multiset()).add(
                        self.dealer@.cards.to_multiset(),
                    ).count(x) == g0.deck.to_multiset().add(g0.player.cards.to_multiset()).add(
                        g0.dealer.cards.to_multiset(),
                    ).count(x) by {
                    assert(self.deck@.to_multiset().add(self.dealer@.cards.to_multiset()).count(x)
                        == deck1.to_multiset().add(g0.dealer.cards.to_multiset()).count(x));
                    assert(deck1.to_multiset().add(self.player@.cards.to_multiset()).count(x)
                        == g0.deck.to_multiset().add(g0.player.cards.to_multiset()).count(x));
                }
                assert(self.deck@.to_multiset().add(self.player@.cards.to_multiset()).add(
                    self.dealer@.cards.to_multiset(),
                ) =~= g0.deck.to_multiset().add(g0.player.cards.to_multiset()).add(
                    g0.dealer.cards.to_multiset(),
                ));
                assert(self.player@ == hand_after_deal(g0.player, g0.deck, 2));
                assert(deck1 == after_draws(g0.deck, 2));
                assert(self.dealer@ == hand_after_deal(g0.dealer, deck1, 2));
            }
            self.check_blackjack();
        }
    }

    /// Right after the initial deal, ends the round if either hand is a
    /// blackjack: both tie, otherwise its holder wins. Does nothing at any
    /// other point of the round.
    pub fn check_blackjack(&mut self)
        requires
            old(self).wf(),
        ensures
            final(self).wf(),
            final(self)@ == old(self)@.after_check_blackjack(),
    {
        if self.players_turn() && self.player.cards().len() == 2 && self.dealer.cards().len() == 2 {
            let player_blackjack: bool = self.player.has_blackjack();
            let dealer_blackjack: bool = self.dealer.has_blackjack();
            if player_blackjack && dealer_blackjack {
                self.game_over(Winner::Tie);
            } else if player_blackjack {
                self.game_over(Winner::Player);
            } else if dealer_blackjack {
                self.game_over(Winner::Dealer);
            }
        }
    }

    /// The player's move from a line of input: "h" hits, "s" stands, with
    /// surrounding whitespace ignored. Other input, or input outside the
    /// player's turn, changes nothing.
    pub fn player_action(&mut self, action: String)
        requires
            old(self).wf(),
        ensures
            final(self).wf(),
            final(self)@ == old(self)@.after_player_action(action_of_input(action@)),
    {
        match read_action(action.as_str()) {
            Some(Action::Hit) => self.player_hit(),
            Some(Action::Stand) => self.player_stand(),
            None => {},
        }
    }

    /// On the player's turn, the player draws a card; a bust hands the round
    /// to the dealer.
    pub fn player_hit(&mut self)
        requires
            old(self).wf(),
        ensures
            final(self).wf(),
            final(self)@ == old(self)@.after_player_hit(),
    {
        if self.players_turn() {
            let ghost g0 = self@;
            proof {
                lemma_cards_in_play(g0);
                lemma_deck_never_runs_dry(g0);
                lemma_move_top_card(g0.deck, g0.player.cards, g0.dealer.cards);
            }
            self.player.hit(&mut self.deck);
            if self.player.is_bust() {
                self.transition_to(GameStage::GameOver { winner: Winner::Dealer });
            }
        }
    }

    /// On the player's turn, the player stands and the dealer's turn begins.
    pub fn player_stand(&mut self)
        requires
            old(self).wf(),
        ensures
            final(self).wf(),
            final(self)@ == old(self)@.after_player_stand(),
    {
        if self.players_turn() {
            self.player.stand();
            self.transition_to(GameStage::DealerTurn);
        }
    }

    /// On the dealer's turn, the dealer draws a card; a bust hands the round
    /// to the player.
    pub fn dealer_hit(&mut self)
        requires
            old(self).wf(),
        ensures
            final(self).wf(),
            final(self)@ == old(self)@.after_dealer_hit(),
    {
        if self.dealers_turn() {
            let ghost g0 = self@;
            proof {
                lemma_cards_in_play(g0);
                lemma_deck_never_runs_dry(g0);
                lemma_move_top_card(g0.deck, g0.dealer.cards, g0.player.cards);
            }
            self.dealer.hit(&mut self.deck);
            if self.dealer.is_bust() {
                self.transition_to(GameStage::GameOver { winner: Winner::Player });
            }
        }
    }

    /// On the dealer's turn, the dealer stands and the scores are compared next.
    pub fn dealer_stand(&mut self)
        requires
            old(self).wf(),
        ensures
            final(self).wf(),
            final(self)@ == old(self)@.after_dealer_stand(),
    {
        if self.dealers_turn() {
            self.dealer.stand();
            self.transition_to(GameStage::Resolve);
        }
    }

    /// One step of the dealer's automatic play: hit below 17, otherwise stand.
    pub fn dealer_action(&mut self)
        requires
            old(self).wf(),
        ensures
            final(self).wf(),
            final(self)@ == old(self)@.after_dealer_action(),
    {
        if self.dealers_turn() {
            if self.dealer.score() < DEALER_STANDS_AT {
                self.dealer_hit();
            } else {
                self.dealer_stand();
            }
        }
    }

    /// Once both have stood, ends the round: the higher score wins, equal
    /// scores tie.
    pub fn select_winner(&mut self)
        requires
            old(self).wf(),
        ensures
            final(self).wf(),
            final(self)@ == old(self)@.after_select_winner(),
    {
        if let GameStage::Resolve = self.stage {
            let player_score = self.player.score();
            let dealer_score = self.dealer.score();
            let winner = if player_score > dealer_score {
                Winner::Player
            } else if player_score < dealer_score {
                Winner::Dealer
            } else {
                Winner::Tie
            };
            self.game_over(winner);
        }
    }

    /// Ends the round with `winner`, unless it has ended already.
    pub fn game_over(&mut self, winner: Winner)
        requires
            old(self).wf(),
        ensures
            final(self).wf(),
            final(self)@ == old(self)@.after_game_over(winner),
    {
        if !self.is_over() {
            self.transition_to(GameStage::GameOver { winner });
        }
    }

    fn transition_to(&mut self, new_stage: GameStage)
        ensures
            final(self)@ == old(self)@.with_stage(new_stage),
            final(self).player == old(self).player,
            final(self).dealer == old(self).dealer,
    {
        self.stage = new_stage;
    }

    pub fn player_hand(&self) -> (h: &Hand)
        ensures
            h@ == self@.player,
            self.wf() ==> h.wf(),
    {
        &self.player
    }

    pub fn dealer_hand(&self) -> (h: &Hand)
        ensures
            h@ == self@.dealer,
            self.wf() ==> h.wf(),
    {
        &self.dealer
    }

    pub fn player_cards(&self) -> (r: &Vec<Rank>)
        ensures
            r@ == self@.player.cards,
    {
        self.player.cards()
    }

    pub fn dealer_cards(&self) -> (r: &Vec<Rank>)
        ensures
            r@ == self@.dealer.cards,
    {
        self.dealer.cards()
    }

    pub fn players_turn(&self) -> (b: bool)
        ensures
            b == self@.is_player_turn(),
    {
        match self.stage {
            GameStage::PlayerTurn => true,
            _ => false,
        }
    }

    pub fn dealers_turn(&self) -> (b: bool)
        ensures
            b == self@.is_dealer_turn(),
    {
        match self.stage {
            GameStage::DealerTurn => true,
            _ => false,
        }
    }

    pub fn is_over(&self) -> (b: bool)
        ensures
            b == self@.is_over(),
    {
        match self.stage {
            GameStage::GameOver { .. } => true,
            _ => false,
        }
    }

    pub fn stage(&self) -> (s: GameStage)
        ensures
            s == self@.stage,
    {
        self.stage
    }

    /// What a display may show: while the player plays, only the dealer's
    /// first card and the score of that card alone.
    pub fn get_state(&self) -> (s: PublicState)
        requires
            self.wf(),
        ensures
            s.dealer_cards@ == self@.visible_dealer_cards(),
            s.dealer_score as int == hand_score(self@.visible_dealer_cards()),
            s.player_cards@ == self@.player.cards,
            s.player_score as int == hand_score(self@.player.cards),
            s.stage == self@.stage,
    {
        proof {
            lemma_cards_in_play(self@);
        }
        let dealer_cards = if self.players_turn() {
            let mut first_card: Vec<Rank> = Vec::new();
            if self.dealer.cards().len() > 0 {
                first_card.push(self.dealer.cards()[0]);
            }
            proof {
                assert(first_card@ =~= self@.visible_dealer_cards());
            }
            first_card
        } else {
            copy_cards(self.dealer.cards())
        };
        let dealer_score = Hand::score_cards(&dealer_cards);
        PublicState {
            dealer_cards,
            player_cards: copy_cards(self.player.cards()),
            dealer_score,
            player_score: self.player.score(),
            stage: self.stage,
        }
    }
}

fn copy_cards(cards: &Vec<Rank>) -> (r: Vec<Rank>)
    ensures
        r@ == cards@,
{
    let mut r: Vec<Rank> = Vec::new();
    let mut i: usize = 0;
    while i < cards.len()
        invariant
            i <= cards@.len(),
            r@ == cards@.take(i as int),
        decreases cards@.len() - i,
    {
        r.push(cards[i]);
        i += 1;
        assert(r@ =~= cards@.take(i as int));
    }
    assert(cards@.take(i as int) =~= cards@);
    r
}

} // verus!
