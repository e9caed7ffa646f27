//! What the dealt clues are worth: honest suspects tell the truth and
//! liars never do.

use vstd::prelude::*;

use crate::game::{
    clue_key, clue_outcome, lemma_lie_is_false, noun_key, others, possible_answers,
    possible_cat_answers, subject_of, GameState,
};
use crate::nouns::{
    drawn_from, lemma_every_sample_reachable, suspect_roll, valid_draws, Noun, Suspects,
};

verus! {

broadcast use vstd::std_specs::hash::group_hash_axioms;

/// The true answer about subject `j`: who holds item `j`, or what suspect
/// `j - 9` holds.
pub open spec fn true_partner(game: GameState, j: int) -> Noun {
    if j < 9 {
        game.suspects@[j]
    } else {
        game.items@[j - 9]
    }
}

/// The answer suspect `s` gives about subject `j`.
pub open spec fn filed_answer(game: GameState, s: int, j: int) -> Noun {
    game.clues@[clue_key(game.suspects@[s], subject_of(game.items@, game.suspects@, j))]
}

/// Every suspect has an answer about every suspect and item, and an honest
/// suspect's answer is the truth: who holds the item, or what the suspect
/// holds.
pub proof fn lemma_honest_answer_is_true(game: GameState, s: int, j: int)
    requires
        game.wf(),
        0 <= s < 9,
        0 <= j < 18,
        !game.liars@.contains(game.suspects@[s]),
    ensures
        game.clues@.contains_key(
            clue_key(game.suspects@[s], subject_of(game.items@, game.suspects@, j)),
        ),
        filed_answer(game, s, j) == true_partner(game, j),
{
    assert(crate::game::answer_filed(
        game.clues@,
        game.liars@,
        game.suspects@[s],
        game.items@,
        game.suspects@,
        j,
    ));
}

/// A liar's answer is never the truth, yet of the same kind: about an item
/// it names another suspect than the holder, about a suspect another item
/// than the one they hold.
pub proof fn lemma_liar_answer_is_false(game: GameState, s: int, j: int)
    requires
        game.wf(),
        0 <= s < 9,
        0 <= j < 18,
        game.liars@.contains(game.suspects@[s]),
    ensures
        game.clues@.contains_key(
            clue_key(game.suspects@[s], subject_of(game.items@, game.suspects@, j)),
        ),
        filed_answer(game, s, j) != true_partner(game, j),
        j < 9 ==> filed_answer(game, s, j) is Person,
        j >= 9 ==> filed_answer(game, s, j) is Thing,
{
    assert(crate::game::answer_filed(
        game.clues@,
        game.liars@,
        game.suspects@[s],
        game.items@,
        game.suspects@,
        j,
    ));
    let c = filed_answer(game, s, j);
    if j < 9 {
        let k = choose|k: int| 0 <= k < 9 && game.suspects@[k] == c;
        assert(game.suspects@[k] is Person);
    } else {
        let k = choose|k: int| 0 <= k < 9 && game.items@[k] == c;
        assert(game.items@[k] is Thing);
    }
}

/// What an honest suspect says of the cat is the truth: the culprit, the
/// culprit's place or the culprit's item.
pub proof fn lemma_honest_word_on_the_cat(game: GameState, n: Noun, ci: int)
    requires
        game.wf(),
        game.zophie_clues@.contains_key(noun_key(n)),
        !game.liars@.contains(n),
        0 <= ci < 9,
        game.suspects@[ci] == game.culprit,
    ensures
        n is Person,
        game.zophie_clues@[noun_key(n)] == game.culprit || game.zophie_clues@[noun_key(n)]
            == game.places@[ci] || game.zophie_clues@[noun_key(n)] == game.items@[ci],
{
    let c = game.zophie_clues@[noun_key(n)];
    let k = choose|k: int|
        0 <= k < game.suspects@.len() && #[trigger] game.suspects@[k] == game.culprit && (
        crate::game::told(false, game.suspects@, k, c) || crate::game::told(
            false,
            game.places@,
            k,
            c,
        ) || crate::game::told(false, game.items@, k, c));
    assert(game.suspects@.no_duplicates());
    assert(k == ci);
}

/// What a liar says of the cat is never the culprit, the culprit's place or
/// the culprit's item.
pub proof fn lemma_liar_word_on_the_cat(game: GameState, n: Noun, ci: int)
    requires
        game.wf(),
        game.zophie_clues@.contains_key(noun_key(n)),
        game.liars@.contains(n),
        0 <= ci < 9,
        game.suspects@[ci] == game.culprit,
    ensures
        n is Person,
        game.zophie_clues@[noun_key(n)] != game.culprit,
        game.zophie_clues@[noun_key(n)] != game.places@[ci],
        game.zophie_clues@[noun_key(n)] != game.items@[ci],
{
    let c = game.zophie_clues@[noun_key(n)];
    let k = choose|k: int|
        0 <= k < game.suspects@.len() && #[trigger] game.suspects@[k] == game.culprit && (
        crate::game::told(true, game.suspects@, k, c) || crate::game::told(
            true,
            game.places@,
            k,
            c,
        ) || crate::game::told(true, game.items@, k, c));
    assert(game.suspects@.no_duplicates());
    assert(k == ci);
    assert(game.places@[ci] is Place && game.items@[ci] is Thing && game.culprit is Person);
    if game.suspects@.contains(c) {
        let m = choose|m: int| 0 <= m < 9 && game.suspects@[m] == c;
        assert(game.suspects@[m] is Person);
    } else if game.places@.contains(c) {
        let m = choose|m: int| 0 <= m < 9 && game.places@[m] == c;
        assert(game.places@[m] is Place);
    } else {
        let m = choose|m: int| 0 <= m < 9 && game.items@[m] == c;
        assert(game.items@[m] is Thing);
    }
}

/// An honest interviewee can only give the true entry; a liar can give any
/// other entry of a list of nine distinct nouns, and only those.
pub proof fn lemma_possible_answers_exact(nouns: Seq<Noun>, i: int)
    requires
        nouns.no_duplicates(),
        nouns.len() == 9,
        0 <= i < 9,
    ensures
        possible_answers(false, nouns, i) == set![nouns[i]],
        possible_answers(true, nouns, i) == nouns.to_set().remove(nouns[i]),
{
    assert(clue_outcome(false, nouns, i, 0) == nouns[i]);
    assert(possible_answers(false, nouns, i) =~= set![nouns[i]]);
    assert forall|n: Noun| #[trigger]
        possible_answers(true, nouns, i).contains(n) <==> nouns.to_set().remove(
            nouns[i],
        ).contains(n) by {
        if possible_answers(true, nouns, i).contains(n) {
            let d = choose|d: int| 0 <= d < 8 && n == #[trigger] clue_outcome(true, nouns, i, d);
            lemma_lie_is_false(nouns, i, d);
        }
        if nouns.contains(n) && n != nouns[i] {
            let m = choose|m: int| 0 <= m < 9 && nouns[m] == n;
            let d = if m < i { m } else { m - 1 };
            assert(others(nouns, i)[d] == nouns[m]);
            assert(n == clue_outcome(true, nouns, i, d));
        }
    }
    assert(possible_answers(true, nouns, i) =~= nouns.to_set().remove(nouns[i]));
}

/// A clue about the cat can be exactly what a clue about a suspect or item
/// can be: the same answers, for the same list, entry and honesty.
pub proof fn lemma_cat_clue_answers_like_a_clue(
    game: GameState,
    nouns: Seq<Noun>,
    i: int,
    interviewee: Noun,
)
    ensures
        possible_cat_answers(game, nouns, i, interviewee) == possible_answers(
            game.liars@.contains(interviewee),
            nouns,
            i,
        ),
{
}

/// Of the whole game, only its liars bear on the clue about the cat: two
/// games with the same liars allow the same answers.
pub proof fn lemma_cat_clue_depends_only_on_liars(
    first: GameState,
    second: GameState,
    nouns: Seq<Noun>,
    i: int,
    interviewee: Noun,
)
    requires
        first.liars@ == second.liars@,
    ensures
        possible_cat_answers(first, nouns, i, interviewee) == possible_cat_answers(
            second,
            nouns,
            i,
            interviewee,
        ),
{
}

/// Any suspect can be the culprit of a new game: for each there is a draw
/// that deals them, and `GameState::new` deals the culprit by such a draw.
pub proof fn lemma_every_suspect_can_be_the_culprit(p: Suspects)
    ensures
        exists|draws: Seq<usize>|
            draws.len() == 1 && valid_draws(draws, 9) && seq![Noun::Person(p)]
                == #[trigger] drawn_from(suspect_roll(), draws),
{
    lemma_every_sample_reachable(seq![Noun::Person(p)]);
}

/// Any three distinct suspects, in any order, can be the liars of a new
/// game: some draws deal exactly them, and `GameState::new` deals the liars
/// by such draws.
pub proof fn lemma_every_trio_can_be_the_liars(a: Suspects, b: Suspects, c: Suspects)
    requires
        a != b && b != c && a != c,
    ensures
        exists|draws: Seq<usize>|
            draws.len() == 3 && valid_draws(draws, 9) && seq![
                Noun::Person(a),
                Noun::Person(b),
                Noun::Person(c),
            ] == #[trigger] drawn_from(suspect_roll(), draws),
{
    lemma_every_sample_reachable(seq![Noun::Person(a), Noun::Person(b), Noun::Person(c)]);
}

} // verus!
