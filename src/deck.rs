//! The deck: 52 cards, four of each rank, shuffled once and then drawn from
//! the top.
use vstd::prelude::*;
use rand::seq::SliceRandom;
use crate::card::{Rank, RANK_COUNT, rank_at, rank_index, lemma_rank_index_round_trip};

verus! {

/// Number of cards in a full deck.
pub const DECK_SIZE: usize = 52;

/// Copies of each rank in a full deck.
pub const COPIES_PER_RANK: usize = 4;

/// The full deck in its unshuffled order: four Aces, four Twos, ..., four Kings.
pub open spec fn standard_deck() -> Seq<Rank> {
    Seq::new(DECK_SIZE as nat, |j: int| rank_at((j / 4) as nat))
}

/// A deck is full when it holds exactly the cards of the standard deck, in
/// any order.
pub open spec fn is_full_deck(cards: Seq<Rank>) -> bool {
    cards.to_multiset() == standard_deck().to_multiset()
}

/// The cards that drawing `n` times from the top of `cards` yields, in the
/// order they are drawn.
pub open spec fn top_cards(cards: Seq<Rank>, n: nat) -> Seq<Rank> {
    Seq::new(n, |i: int| cards[cards.len() - 1 - i])
}

/// What is left of `cards` after `n` draws.
pub open spec fn after_draws(cards: Seq<Rank>, n: nat) -> Seq<Rank> {
    cards.subrange(0, cards.len() - n)
}

/// Among the first `k` cards of the standard deck, the copies of `r` are
/// those of its block of four that come before position `k`.
proof fn lemma_standard_prefix_count(r: Rank, k: nat)
    requires
        k <= DECK_SIZE,
    ensures
        standard_deck().take(k as int).to_multiset().count(r) == if k <= 4 * rank_index(r) {
            0
        } else if k >= 4 * rank_index(r) + 4 {
            4
        } else {
            (k - 4 * rank_index(r)) as nat
        },
    decreases k,
{
    broadcast use vstd::seq_lib::group_to_multiset_ensures;
    broadcast use vstd::multiset::group_multiset_axioms;
    if k == 0 {
        assert(standard_deck().take(0) =~= Seq::<Rank>::empty());
    } else {
        let j = (k - 1) as nat;
        lemma_standard_prefix_count(r, j);
        let c = standard_deck()[j as int];
        assert(standard_deck().take(k as int) =~= standard_deck().take(j as int).push(c));
        lemma_rank_index_round_trip(r, j / 4);
        lemma_rank_index_round_trip(c, j / 4);
        assert(c == rank_at(j / 4));
        assert((c == r) <==> (j / 4 == rank_index(r)));
    }
}

/// The standard deck holds four of every rank.
pub proof fn lemma_standard_deck_count(r: Rank)
    ensures
        standard_deck().to_multiset().count(r) == COPIES_PER_RANK,
{
    lemma_standard_prefix_count(r, DECK_SIZE as nat);
    lemma_rank_index_round_trip(r, 0);
    assert(standard_deck().take(DECK_SIZE as int) =~= standard_deck());
}

/// A full deck holds 52 cards, so it serves exactly 52 draws: after them it
/// is empty and a further draw is ruled out.
pub proof fn lemma_full_deck_serves_52_draws(cards: Seq<Rank>)
    requires
        is_full_deck(cards),
    ensures
        cards.len() == DECK_SIZE,
        after_draws(cards, DECK_SIZE as nat).len() == 0,
{
    broadcast use vstd::seq_lib::group_to_multiset_ensures;
    assert(cards.len() == cards.to_multiset().len());
    assert(standard_deck().len() == standard_deck().to_multiset().len());
}

/// Relies on rand's `SliceRandom::shuffle` with the thread-local generator
/// (`rand::rng`): it reorders the slice by swaps, so the result is a
/// permutation of its input. Which permutation is left to chance.
#[verifier::external_body]
fn shuffle_cards(cards: &mut Vec<Rank>)
    ensures
        final(cards)@.to_multiset() == old(cards)@.to_multiset(),
{
    cards.shuffle(&mut rand::rng());
}

/// An ordered sequence of cards. The last card of the sequence is the top of
/// the deck.
pub struct Deck {
    cards: Vec<Rank>,
}

impl View for Deck {
    type V = Seq<Rank>;

    closed spec fn view(&self) -> Seq<Rank> {
        self.cards@
    }
}

impl Deck {
    /// The 52-card deck, shuffled.
    pub fn new() -> (d: Deck)
        ensures
            is_full_deck(d@),
            d@.len() == DECK_SIZE,
    {
        let mut cards: Vec<Rank> = Vec::new();
        let mut i: usize = 0;
        while i < DECK_SIZE
            invariant
                i <= DECK_SIZE,
                cards@ =~= Seq::new(i as nat, |j: int| rank_at((j / 4) as nat)),
            decreases DECK_SIZE - i,
        {
            cards.push(Rank::from_index(i / COPIES_PER_RANK));
            i += 1;
        }
        assert(cards@ =~= standard_deck());
        shuffle_cards(&mut cards);
        proof {
            broadcast use vstd::seq_lib::group_to_multiset_ensures;
            assert(cards@.len() == cards@.to_multiset().len());
        }
        Deck { cards }
    }

    /// A deck in the order given, so that a round can be replayed; the last
    /// card is the top. Only a full deck is accepted: four of each rank, 52 in
    /// all.
    pub fn from_cards(cards: Vec<Rank>) -> (r: Option<Deck>)
        ensures
            r is Some <==> is_full_deck(cards@),
            r matches Some(d) ==> d@ == cards@,
    {
        broadcast use vstd::seq_lib::group_to_multiset_ensures;
        broadcast use vstd::multiset::group_multiset_axioms;
        let mut counts: Vec<usize> = Vec::new();
        let mut k: usize = 0;
        while k < RANK_COUNT
            invariant
                k <= RANK_COUNT,
                counts@.len() == k,
                forall|j: int| 0 <= j < k ==> counts@[j] == 0,
            decreases RANK_COUNT - k,
        {
            counts.push(0);
            k += 1;
        }
        let mut i: usize = 0;
        while i < cards.len()
            invariant
                i <= cards@.len(),
                counts@.len() == RANK_COUNT,
                forall|j: int|
                    0 <= j < RANK_COUNT ==> #[trigger] counts@[j] == cards@.take(
                        i as int,
                    ).to_multiset().count(rank_at(j as nat)),
                forall|j: int| 0 <= j < RANK_COUNT ==> #[trigger] counts@[j] <= i,
            decreases cards@.len() - i,
        {
            let c = cards[i];
            let k = c.index();
            assert(cards@.take(i as int + 1) =~= cards@.take(i as int).push(c));
            proof {
                vstd::seq_lib::to_multiset_build(cards@.take(i as int), c);
                assert forall|j: int| 0 <= j < RANK_COUNT implies (#[trigger] rank_at(j as nat) == c)
                    == (j == k) by {
                    lemma_rank_index_round_trip(c, j as nat);
                }
            }
            counts.set(k, counts[k] + 1);
            i += 1;
        }
        assert(cards@.take(i as int) =~= cards@);
        let mut full: bool = true;
        k = 0;
        while k < RANK_COUNT
            invariant
                k <= RANK_COUNT,
                counts@.len() == RANK_COUNT,
                full == forall|j: int| 0 <= j < k ==> #[trigger] counts@[j] == COPIES_PER_RANK,
            decreases RANK_COUNT - k,
        {
            if counts[k] != COPIES_PER_RANK {
                full = false;
            }
            k += 1;
        }
        proof {
            if full {
                assert forall|r: Rank|
                    #![auto]
                    cards@.to_multiset().count(r) == standard_deck().to_multiset().count(r) by {
                    lemma_rank_index_round_trip(r, 0);
                    lemma_standard_deck_count(r);
                    assert(counts@[rank_index(r) as int] == COPIES_PER_RANK);
                }
                assert(cards@.to_multiset() =~= standard_deck().to_multiset());
            } else {
                let j = choose|j: int| 0 <= j < RANK_COUNT && counts@[j] != COPIES_PER_RANK;
                lemma_standard_deck_count(rank_at(j as nat));
            }
        }
        if full {
            Some(Deck { cards })
        } else {
            None
        }
    }

    /// Removes the top card and returns it. Drawing from an empty deck is a
    /// broken precondition.
    pub fn draw(&mut self) -> (c: Rank)
        requires
            old(self)@.len() > 0,
        ensures
            c == old(self)@.last(),
            final(self)@ == old(self)@.drop_last(),
    {
        self.cards.pop().unwrap()
    }

    /// Same as [`Deck::draw`].
    pub fn pop(&mut self) -> (c: Rank)
        requires
            old(self)@.len() > 0,
        ensures
            c == old(self)@.last(),
            final(self)@ == old(self)@.drop_last(),
    {
        self.draw()
    }

    /// Number of cards left.
    pub fn len(&self) -> (n: usize)
        ensures
            n == self@.len(),
    {
        self.cards.len()
    }

    pub fn is_empty(&self) -> (b: bool)
        ensures
            b == (self@.len() == 0),
    {
        self.cards.len() == 0
    }

    /// The cards left, bottom first.
    pub fn cards(&self) -> (r: &Vec<Rank>)
        ensures
            r@ == self@,
    {
        &self.cards
    }
}

} // verus!
