//! A hand: the cards dealt to one party, its score, and the actions it took.
use vstd::prelude::*;
use crate::action::Action;
use crate::card::{Rank, rank_value, is_ten_valued};
use crate::deck::{Deck, top_cards, after_draws};

verus! {

/// The most cards a hand may hold: with eleven for every card the score still
/// fits in a `u32`.
pub const MAX_CARDS: usize = 390_451_572;

/// Sum of the cards' values with every Ace counted as eleven.
pub open spec fn raw_total(cards: Seq<Rank>) -> nat
    decreases cards.len(),
{
    if cards.len() == 0 {
        0
    } else {
        raw_total(cards.drop_last()) + rank_value(cards.last())
    }
}

/// Number of Aces among the cards.
pub open spec fn ace_count(cards: Seq<Rank>) -> nat
    decreases cards.len(),
{
    if cards.len() == 0 {
        0
    } else {
        ace_count(cards.drop_last()) + if cards.last() == Rank::Ace {
            1nat
        } else {
            0nat
        }
    }
}

/// The soft-Ace rule: while the total is over 21 and an Ace still counts
/// eleven, count that Ace as one instead.
pub open spec fn soft_adjust(total: int, aces: nat) -> int
    decreases aces,
{
    if total > 21 && aces > 0 {
        soft_adjust(total - 10, (aces - 1) as nat)
    } else {
        total
    }
}

/// The score of a hand holding `cards`.
pub open spec fn hand_score(cards: Seq<Rank>) -> int {
    soft_adjust(raw_total(cards) as int, ace_count(cards))
}

/// A hand is a blackjack when it holds an Ace and a ten-valued card.
pub open spec fn blackjack(cards: Seq<Rank>) -> bool {
    &&& cards.contains(Rank::Ace)
    &&& exists|j: int| 0 <= j < cards.len() && is_ten_valued(#[trigger] cards[j])
}

/// A hand is bust when its score is over 21.
pub open spec fn bust(cards: Seq<Rank>) -> bool {
    hand_score(cards) > 21
}

/// What a hand holds: its cards in the order dealt, and its action log.
pub struct HandView {
    pub cards: Seq<Rank>,
    pub actions: Seq<Action>,
}

/// Every card counts at least one, so a hand's score is at least the number of
/// its cards.
pub proof fn lemma_score_at_least_card_count(cards: Seq<Rank>)
    ensures
        hand_score(cards) >= cards.len(),
        raw_total(cards) <= 11 * cards.len(),
{
    lemma_raw_total_bounds(cards);
    lemma_soft_adjust_lower(raw_total(cards) as int, ace_count(cards));
}

/// Two cards never bust: two Aces count 12.
pub proof fn lemma_two_cards_not_bust(cards: Seq<Rank>)
    requires
        cards.len() <= 2,
    ensures
        hand_score(cards) <= 21,
{
    reveal_with_fuel(raw_total, 3);
    reveal_with_fuel(ace_count, 3);
    reveal_with_fuel(soft_adjust, 3);
    if cards.len() == 2 {
        assert(cards.drop_last().drop_last() =~= Seq::<Rank>::empty());
        assert(cards.drop_last().last() == cards[0]);
    } else if cards.len() == 1 {
        assert(cards.drop_last() =~= Seq::<Rank>::empty());
    }
}

proof fn lemma_raw_total_bounds(cards: Seq<Rank>)
    ensures
        raw_total(cards) >= cards.len() + 10 * ace_count(cards),
        raw_total(cards) <= 11 * cards.len(),
        ace_count(cards) <= cards.len(),
    decreases cards.len(),
{
    if cards.len() > 0 {
        lemma_raw_total_bounds(cards.drop_last());
    }
}

proof fn lemma_soft_adjust_lower(total: int, aces: nat)
    ensures
        soft_adjust(total, aces) >= total - 10 * aces,
    decreases aces,
{
    if total > 21 && aces > 0 {
        lemma_soft_adjust_lower(total - 10, (aces - 1) as nat);
    }
}

pub struct Hand {
    cards: Vec<Rank>,
    score: u32,
    actions: Vec<Action>,
}

impl View for Hand {
    type V = HandView;

    closed spec fn view(&self) -> HandView {
        HandView { cards: self.cards@, actions: self.actions@ }
    }
}

impl Hand {
    /// The cached score is the score of the cards, and the cards are few
    /// enough for it to fit.
    pub closed spec fn wf(&self) -> bool {
        &&& self.cards@.len() <= MAX_CARDS
        &&& self.score as int == hand_score(self.cards@)
    }

    /// The score this hand reports.
    pub closed spec fn stored_score(&self) -> int {
        self.score as int
    }

    /// An empty hand.
    pub fn new() -> (h: Hand)
        ensures
            h.wf(),
            h@.cards == Seq::<Rank>::empty(),
            h@.actions == Seq::<Action>::empty(),
    {
        Hand { cards: Vec::new(), score: 0, actions: Vec::new() }
    }

    /// The score of `cards` under the soft-Ace rule.
    pub fn score_cards(cards: &Vec<Rank>) -> (s: u32)
        requires
            cards@.len() <= MAX_CARDS,
        ensures
            s as int == hand_score(cards@),
    {
        let mut total: u32 = 0;
        let mut aces: u32 = 0;
        let mut i: usize = 0;
        while i < cards.len()
            invariant
                i <= cards@.len() <= MAX_CARDS,
                total as nat == raw_total(cards@.take(i as int)),
                aces as nat == ace_count(cards@.take(i as int)),
                total <= 11 * i,
                aces <= i,
            decreases cards@.len() - i,
        {
            let c = cards[i];
            assert(cards@.take(i as int + 1).drop_last() =~= cards@.take(i as int));
            total = total + c.value();
            if c.is_ace() {
                aces = aces + 1;
            }
            i += 1;
        }
        assert(cards@.take(i as int) =~= cards@);
        while total > 21 && aces > 0
            invariant
                soft_adjust(total as int, aces as nat) == hand_score(cards@),
            decreases aces,
        {
            total = total - 10;
            aces = aces - 1;
        }
        total
    }

    /// Recomputes the cached score from the cards and returns it.
    pub fn calculate_score(&mut self) -> (s: u32)
        requires
            old(self).wf(),
        ensures
            final(self).wf(),
            final(self)@ == old(self)@,
            s as int == hand_score(old(self)@.cards),
    {
        let s = Hand::score_cards(&self.cards);
        self.score = s;
        s
    }

    /// Draws `n` cards from the top of `deck` into this hand.
    pub fn deal_cards(&mut self, deck: &mut Deck, n: u32)
        requires
            old(self).wf(),
            n <= old(deck)@.len(),
            old(self)@.cards.len() + n <= MAX_CARDS,
        ensures
            final(self).wf(),
            final(self)@.cards == old(self)@.cards + top_cards(old(deck)@, n as nat),
            final(self)@.actions == old(self)@.actions,
            final(deck)@ == after_draws(old(deck)@, n as nat),
            final(deck)@.to_multiset().add(final(self)@.cards.to_multiset())
                == old(deck)@.to_multiset().add(old(self)@.cards.to_multiset()),
    {
        broadcast use vstd::seq_lib::group_to_multiset_ensures;
        let ghost deck0 = deck@;
        let ghost cards0 = self.cards@;
        let mut i: u32 = 0;
        while i < n
            invariant
                i <= n <= deck0.len(),
                cards0.len() + n <= MAX_CARDS,
                self.cards@ == cards0 + top_cards(deck0, i as nat),
                deck@ == after_draws(deck0, i as nat),
                self.actions@ == old(self).actions@,
                deck@.to_multiset().add(self.cards@.to_multiset())
                    == deck0.to_multiset().add(cards0.to_multiset()),
            decreases n - i,
        {
            let ghost before = deck@;
            let ghost held = self.cards@;
            let c = deck.draw();
            proof {
                assert(before =~= deck@.push(c));
            }
            self.cards.push(c);
            proof {
                assert(deck@ =~= after_draws(deck0, (i + 1) as nat));
                assert(top_cards(deck0, (i + 1) as nat) =~= top_cards(deck0, i as nat).push(c));
                vstd::seq_lib::to_multiset_build(deck@, c);
                vstd::seq_lib::to_multiset_build(held, c);
                assert(self.cards@ == held.push(c));
                assert(deck@.to_multiset().add(self.cards@.to_multiset())
                    =~= before.to_multiset().add(held.to_multiset()));
            }
            i += 1;
        }
        self.score = Hand::score_cards(&self.cards);
    }

    /// True when the hand holds an Ace and a ten-valued card. Only meaningful
    /// on the two cards of the initial deal.
    pub fn has_blackjack(&self) -> (b: bool)
        ensures
            b == blackjack(self@.cards),
    {
        let mut ace: bool = false;
        let mut ten: bool = false;
        let mut i: usize = 0;
        while i < self.cards.len()
            invariant
                i <= self.cards@.len(),
                ace == exists|j: int| 0 <= j < i && #[trigger] self.cards@[j] == Rank::Ace,
                ten == exists|j: int| 0 <= j < i && is_ten_valued(#[trigger] self.cards@[j]),
            decreases self.cards@.len() - i,
        {
            let c = self.cards[i];
            if c.is_ace() {
                ace = true;
            }
            if c.is_ten_valued() {
                ten = true;
            }
            i += 1;
        }
        ace && ten
    }

    /// True when the score is over 21.
    pub fn is_bust(&self) -> (b: bool)
        requires
            self.wf(),
        ensures
            b == bust(self@.cards),
            b == (self.stored_score() > 21),
    {
        self.score > 21
    }

    /// Records a hit and draws one card.
    pub fn hit(&mut self, deck: &mut Deck)
        requires
            old(self).wf(),
            old(deck)@.len() > 0,
            old(self)@.cards.len() < MAX_CARDS,
        ensures
            final(self).wf(),
            final(self)@.cards == old(self)@.cards.push(old(deck)@.last()),
            final(self)@.actions == old(self)@.actions.push(Action::Hit),
            final(deck)@ == old(deck)@.drop_last(),
            final(deck)@.to_multiset().add(final(self)@.cards.to_multiset())
                == old(deck)@.to_multiset().add(old(self)@.cards.to_multiset()),
    {
        self.actions.push(Action::Hit);
        self.deal_cards(deck, 1);
        assert(top_cards(old(deck)@, 1) =~= seq![old(deck)@.last()]);
        assert(after_draws(old(deck)@, 1) =~= old(deck)@.drop_last());
        assert(final(self)@.cards =~= old(self)@.cards.push(old(deck)@.last()));
    }

    /// Records a stand. The cards are untouched.
    pub fn stand(&mut self)
        requires
            old(self).wf(),
        ensures
            final(self).wf(),
            final(self)@.cards == old(self)@.cards,
            final(self)@.actions == old(self)@.actions.push(Action::Stand),
    {
        self.actions.push(Action::Stand);
    }

    /// The cards in the order they were dealt.
    pub fn cards(&self) -> (r: &Vec<Rank>)
        ensures
            r@ == self@.cards,
    {
        &self.cards
    }

    pub fn score(&self) -> (s: u32)
        requires
            self.wf(),
        ensures
            s as int == hand_score(self@.cards),
            s as int == self.stored_score(),
    {
        self.score
    }

    /// The actions taken, oldest first.
    pub fn actions(&self) -> (r: &Vec<Action>)
        ensures
            r@ == self@.actions,
    {
        &self.actions
    }
}

/// The score a hand reports is a function of its cards alone: two hands
/// holding the same cards, in the same order, report the same score, whatever
/// actions they logged.
pub proof fn lemma_score_depends_on_cards_only(a: &Hand, b: &Hand)
    requires
        a.wf(),
        b.wf(),
        a@.cards == b@.cards,
    ensures
        a.stored_score() == hand_score(a@.cards),
        a.stored_score() == b.stored_score(),
{
}

/// A hand is bust exactly when the score it reports is over 21.
pub proof fn lemma_bust_iff_over_21(h: &Hand)
    requires
        h.wf(),
    ensures
        bust(h@.cards) <==> h.stored_score() > 21,
{
}

} // verus!
