//! The state of a game and how a new game is dealt: who lies, who did it,
//! where everyone stands, and what every suspect will say when asked.

use std::collections::HashMap;

use vstd::prelude::*;

use crate::chance::random_index;
use crate::nouns::{
    drawn_from, suspect_roll, valid_draws, is_suspect_sample, lemma_noun_id_injective, lists_every_item, lists_every_site,
    lists_every_suspect, noun_id, Items, Locations, Noun, Suspects,
};

verus! {

broadcast use vstd::std_specs::hash::group_hash_axioms;

/// A question put to a suspect: the interviewee, then the noun asked about
/// (always a suspect or an item).
#[derive(Debug, Clone, Copy, PartialEq, Eq, Structural, Hash)]
pub struct Clue(pub Noun, pub Noun);

/// The number under which the answer to the question `(interviewee, subject)`
/// is filed.
pub open spec fn clue_key(interviewee: Noun, subject: Noun) -> u16 {
    (noun_id(interviewee) * 32 + noun_id(subject)) as u16
}

/// Different questions are filed under different numbers.
pub proof fn lemma_clue_key_injective(a: Noun, b: Noun, c: Noun, d: Noun)
    ensures
        clue_key(a, b) == clue_key(c, d) ==> a == c && b == d,
{
    lemma_noun_id_injective(a, c);
    lemma_noun_id_injective(b, d);
    lemma_noun_id_injective(c, a);
    lemma_noun_id_injective(d, b);
}

impl Clue {
    /// The number under which the answer to this question is filed.
    pub fn key(&self) -> (r: u16)
        ensures
            r == clue_key(self.0, self.1),
    {
        let a = self.0.id() as u16;
        let b = self.1.id() as u16;
        a * 32 + b
    }
}

/// `nouns` without its entry at position `i`, where there is one.
pub open spec fn others(nouns: Seq<Noun>, i: int) -> Seq<Noun> {
    if 0 <= i < nouns.len() {
        nouns.remove(i)
    } else {
        nouns
    }
}

/// What an interviewee says of entry `i` of `list`: an honest one names the
/// entry itself; a liar names another entry of the same list.
pub open spec fn told(liar: bool, list: Seq<Noun>, i: int, clue: Noun) -> bool {
    if liar {
        list.contains(clue) && clue != list[i]
    } else {
        clue == list[i]
    }
}

/// What an interviewee says of entry `i` of `nouns` when the draw for a lie
/// is `draw`: the entry itself, or, from a liar, entry `draw` of the others.
pub open spec fn clue_outcome(liar: bool, nouns: Seq<Noun>, i: int, draw: int) -> Noun {
    if liar {
        others(nouns, i)[draw]
    } else {
        nouns[i]
    }
}

/// Every answer an interviewee can give of entry `i` of `nouns`, over the
/// eight draws a lie is made with.
pub open spec fn possible_answers(liar: bool, nouns: Seq<Noun>, i: int) -> Set<Noun> {
    Set::new(|n: Noun| exists|d: int| 0 <= d < 8 && n == #[trigger] clue_outcome(liar, nouns, i, d))
}

/// Every answer `interviewee` can give, as a clue about the cat, of entry
/// `i` of `nouns` in `game`.
pub open spec fn possible_cat_answers(
    game: GameState,
    nouns: Seq<Noun>,
    i: int,
    interviewee: Noun,
) -> Set<Noun> {
    possible_answers(game.liars@.contains(interviewee), nouns, i)
}

/// A lie drawn from the other entries of a list of distinct nouns is a
/// member of the list and never the entry it lies about.
pub proof fn lemma_lie_is_false(nouns: Seq<Noun>, i: int, k: int)
    requires
        nouns.no_duplicates(),
        0 <= i < nouns.len(),
        0 <= k < others(nouns, i).len(),
    ensures
        nouns.contains(others(nouns, i)[k]),
        others(nouns, i)[k] != nouns[i],
        told(true, nouns, i, others(nouns, i)[k]),
{
    let j = if k < i { k } else { k + 1 };
    assert(others(nouns, i)[k] == nouns[j]);
}

/// Whether `n` occurs in `list`.
pub fn contains_noun(list: &Vec<Noun>, n: Noun) -> (r: bool)
    ensures
        r == list@.contains(n),
{
    let mut i: usize = 0;
    while i < list.len()
        invariant
            i <= list@.len(),
            forall|j: int| 0 <= j < i ==> list@[j] != n,
        decreases list@.len() - i,
    {
        if list[i] == n {
            return true;
        }
        i = i + 1;
    }
    false
}

/// The first position of `n` in `list`, if it occurs there.
pub fn position_of(list: &Vec<Noun>, n: Noun) -> (r: Option<usize>)
    ensures
        match r {
            Some(i) => i < list@.len() && list@[i as int] == n && forall|j: int|
                0 <= j < i ==> list@[j] != n,
            None => !list@.contains(n),
        },
{
    let mut i: usize = 0;
    while i < list.len()
        invariant
            i <= list@.len(),
            forall|j: int| 0 <= j < i ==> list@[j] != n,
        decreases list@.len() - i,
    {
        if list[i] == n {
            return Some(i);
        }
        i = i + 1;
    }
    None
}

/// Entry `choice` of `nouns` once the entry at `skip` is left out.
pub fn pick_lie(nouns: &Vec<Noun>, skip: usize, choice: usize) -> (r: Noun)
    requires
        choice < others(nouns@, skip as int).len(),
    ensures
        r == others(nouns@, skip as int)[choice as int],
{
    if skip < nouns.len() && choice >= skip {
        nouns[choice + 1]
    } else {
        nouns[choice]
    }
}

/// The number under which something said by or about `n` is filed.
pub open spec fn noun_key(n: Noun) -> u8 {
    noun_id(n) as u8
}

/// Subject `j` of the questions a suspect can be asked: item `j` for `j`
/// below 9, else suspect `j - 9`.
pub open spec fn subject_of(items: Seq<Noun>, suspects: Seq<Noun>, j: int) -> Noun {
    if j < 9 {
        items[j]
    } else {
        suspects[j - 9]
    }
}

/// `clue` is what an interviewee says of subject `j`: for item `j`, the
/// suspect holding it (suspect `j`); for suspect `j - 9`, the item they hold
/// (item `j - 9`). A liar names another suspect, or another item, every time.
pub open spec fn answer_told(
    liar: bool,
    items: Seq<Noun>,
    suspects: Seq<Noun>,
    j: int,
    clue: Noun,
) -> bool {
    if j < 9 {
        told(liar, suspects, j, clue)
    } else {
        told(liar, items, j - 9, clue)
    }
}

/// `clues` holds the answer of `interviewee` about subject `j`, and the answer
/// is what the interviewee says of that subject.
pub open spec fn answer_filed(
    clues: Map<u16, Noun>,
    liars: Seq<Noun>,
    interviewee: Noun,
    items: Seq<Noun>,
    suspects: Seq<Noun>,
    j: int,
) -> bool {
    let key = clue_key(interviewee, subject_of(items, suspects, j));
    &&& clues.contains_key(key)
    &&& answer_told(liars.contains(interviewee), items, suspects, j, clues[key])
}

/// `clue` is what someone says of where the cat is: the culprit, the
/// culprit's place or the culprit's item, or, from a liar, a wrong one of the
/// three.
pub open spec fn points_to_culprit(
    liar: bool,
    suspects: Seq<Noun>,
    places: Seq<Noun>,
    items: Seq<Noun>,
    culprit: Noun,
    clue: Noun,
) -> bool {
    exists|ci: int|
        0 <= ci < suspects.len() && #[trigger] suspects[ci] == culprit && (told(
            liar,
            suspects,
            ci,
            clue,
        ) || told(liar, places, ci, clue) || told(liar, items, ci, clue))
}

/// Everything a game needs to remember.
pub struct GameState {
    /// The suspects and items the detective can ask about, in the order met.
    pub known_suspects_items: Vec<Noun>,
    /// Who and what was found at each place visited, filed by the place's number.
    pub visited_places: HashMap<u8, (Noun, Noun)>,
    /// Where the detective is: the taxi or one of the places.
    pub current_location: Noun,
    /// The suspects accused wrongly so far.
    pub accused_suspects: Vec<Noun>,
    /// How many accusations the detective may still make.
    pub accusations_left: u8,
    /// The three suspects who lie.
    pub liars: Vec<Noun>,
    /// The suspect who took the cat.
    pub culprit: Noun,
    /// Suspect `i` stands at place `i` holding item `i`.
    pub suspects: Vec<Noun>,
    /// Item `i` is held by suspect `i` at place `i`.
    pub items: Vec<Noun>,
    /// Place `i` is where suspect `i` stands with item `i`.
    pub places: Vec<Noun>,
    /// The answer each suspect gives about each suspect and item, filed by
    /// the question's number.
    pub clues: HashMap<u16, Noun>,
    /// What the three suspects who know something say of the cat, filed by
    /// the interviewee's number.
    pub zophie_clues: HashMap<u8, Noun>,
}

/// Every suspect before row `s`, and suspect `s` before subject `j`, has an
/// answer filed in `clues`.
pub open spec fn filed_before(
    clues: Map<u16, Noun>,
    liars: Seq<Noun>,
    items: Seq<Noun>,
    suspects: Seq<Noun>,
    s: int,
    j: int,
) -> bool {
    forall|s2: int, j2: int|
        0 <= s2 < 9 && 0 <= j2 < 18 && (s2 < s || (s2 == s && j2 < j)) ==> #[trigger] answer_filed(
            clues,
            liars,
            suspects[s2],
            items,
            suspects,
            j2,
        )
}

/// The eighteen subjects a suspect is asked about are all different.
proof fn lemma_subjects_distinct(items: Seq<Noun>, suspects: Seq<Noun>, j: int, j2: int)
    requires
        lists_every_item(items),
        lists_every_suspect(suspects),
        0 <= j < 18,
        0 <= j2 < 18,
        j != j2,
    ensures
        subject_of(items, suspects, j) != subject_of(items, suspects, j2),
{
    if j < 9 && j2 >= 9 {
        assert(items[j] is Thing && suspects[j2 - 9] is Person);
    } else if j >= 9 && j2 < 9 {
        assert(items[j2] is Thing && suspects[j - 9] is Person);
    }
}

/// Filing the answer of suspect `s` about subject `j` keeps every answer
/// filed before it.
proof fn lemma_filed_kept(
    clues: Map<u16, Noun>,
    value: Noun,
    liars: Seq<Noun>,
    items: Seq<Noun>,
    suspects: Seq<Noun>,
    s: int,
    j: int,
)
    requires
        lists_every_item(items),
        lists_every_suspect(suspects),
        0 <= s < 9,
        0 <= j < 18,
        filed_before(clues, liars, items, suspects, s, j),
    ensures
        filed_before(
            clues.insert(clue_key(suspects[s], subject_of(items, suspects, j)), value),
            liars,
            items,
            suspects,
            s,
            j,
        ),
{
    let key = clue_key(suspects[s], subject_of(items, suspects, j));
    let m = clues.insert(key, value);
    assert forall|s2: int, j2: int|
        0 <= s2 < 9 && 0 <= j2 < 18 && (s2 < s || (s2 == s && j2 < j)) implies #[trigger] answer_filed(
            m,
            liars,
            suspects[s2],
            items,
            suspects,
            j2,
        ) by {
        let key2 = clue_key(suspects[s2], subject_of(items, suspects, j2));
        assert(answer_filed(
            clues,
            liars,
            suspects[s2],
            items,
            suspects,
            j2,
        ));
        lemma_clue_key_injective(
            suspects[s2],
            subject_of(items, suspects, j2),
            suspects[s],
            subject_of(items, suspects, j),
        );
        if s2 == s {
            lemma_subjects_distinct(items, suspects, j, j2);
        }
        assert(key2 != key);
    }
}

/// `key` is the number of a question put to suspect `s2` about subject `j2`
/// for some question `(s2, j2)` that comes before `(s, j)`.
pub open spec fn asked_before(
    items: Seq<Noun>,
    suspects: Seq<Noun>,
    s: int,
    j: int,
    key: u16,
) -> bool {
    exists|s2: int, j2: int|
        0 <= s2 < 9 && 0 <= j2 < 18 && (s2 < s || (s2 == s && j2 < j)) && key
            == #[trigger] clue_key(suspects[s2], subject_of(items, suspects, j2))
}

/// `key` is the number of a question some suspect can be asked about some
/// suspect or item.
pub open spec fn is_question(items: Seq<Noun>, suspects: Seq<Noun>, key: u16) -> bool {
    asked_before(items, suspects, 9, 0, key)
}

/// The question of suspect `s` about subject `j` is filed under a number no
/// earlier question has.
proof fn lemma_fresh_key(
    clues: Map<u16, Noun>,
    items: Seq<Noun>,
    suspects: Seq<Noun>,
    s: int,
    j: int,
)
    requires
        lists_every_item(items),
        lists_every_suspect(suspects),
        0 <= s < 9,
        0 <= j < 18,
        forall|k: u16| #[trigger]
            clues.contains_key(k) ==> asked_before(items, suspects, s, j, k),
    ensures
        !clues.contains_key(clue_key(suspects[s], subject_of(items, suspects, j))),
{
    let key = clue_key(suspects[s], subject_of(items, suspects, j));
    if clues.contains_key(key) {
        assert(asked_before(items, suspects, s, j, key));
        let (s2, j2) = choose|s2: int, j2: int|
            0 <= s2 < 9 && 0 <= j2 < 18 && (s2 < s || (s2 == s && j2 < j)) && key
                == #[trigger] clue_key(suspects[s2], subject_of(items, suspects, j2));
        lemma_clue_key_injective(
            suspects[s2],
            subject_of(items, suspects, j2),
            suspects[s],
            subject_of(items, suspects, j),
        );
        if s2 == s {
            lemma_subjects_distinct(items, suspects, j, j2);
        }
        assert(false);
    }
}

/// The answer given about entry `index` of `list` by `new_clue` is what the
/// interviewee says of that entry.
proof fn lemma_new_clue_told(liar: bool, list: Seq<Noun>, index: int, r: Option<Noun>)
    requires
        list.no_duplicates(),
        list.len() == 9,
        0 <= index < 9,
        r is Some,
        !liar ==> r == Some(list[index]),
        liar ==> exists|k: int| 0 <= k < 8 && r == Some(#[trigger] others(list, index)[k]),
    ensures
        told(liar, list, index, r->0),
        list.contains(r->0),
{
    if liar {
        let k = choose|k: int| 0 <= k < 8 && r == Some(#[trigger] others(list, index)[k]);
        lemma_lie_is_false(list, index, k);
    } else {
        assert(list[index] == r->0);
    }
}

impl GameState {
    /// The three parallel lists deal every suspect, item and place once.
    pub open spec fn dealt(self) -> bool {
        &&& lists_every_suspect(self.suspects@)
        &&& lists_every_item(self.items@)
        &&& lists_every_site(self.places@)
        &&& is_suspect_sample(self.liars@, 3)
        &&& self.culprit is Person
    }

    /// Every suspect has an answer filed about every suspect and item.
    pub open spec fn clues_complete(self) -> bool {
        forall|s: int, j: int|
            0 <= s < 9 && 0 <= j < 18 ==> #[trigger] answer_filed(
                self.clues@,
                self.liars@,
                self.suspects@[s],
                self.items@,
                self.suspects@,
                j,
            )
    }

    /// The answers on file are exactly one for each of the 162 questions a
    /// suspect can be asked about a suspect or an item, and every answer names
    /// a suspect or an item.
    pub open spec fn clue_table_exact(self) -> bool {
        &&& self.clues@.dom().len() == 162
        &&& forall|k: u16| #[trigger]
            self.clues@.contains_key(k) ==> is_question(self.items@, self.suspects@, k) && (
            self.clues@[k] is Person || self.clues@[k] is Thing)
    }

    /// Only suspects know something of the cat, and what each says of it
    /// points to the culprit, wrongly from a liar.
    pub open spec fn zophie_sound(self) -> bool {
        &&& forall|k: u8| #[trigger] self.zophie_clues@.contains_key(k) ==> k < 9
        &&& forall|n: Noun| #[trigger]
            self.zophie_clues@.contains_key(noun_key(n)) ==> n is Person && points_to_culprit(
                self.liars@.contains(n),
                self.suspects@,
                self.places@,
                self.items@,
                self.culprit,
                self.zophie_clues@[noun_key(n)],
            )
    }

    /// A place visited is filed with the suspect and item found there.
    pub open spec fn visits_recorded(self) -> bool {
        forall|k: int|
            0 <= k < 9 && #[trigger] self.visited_places@.contains_key(noun_key(self.places@[k]))
                ==> self.visited_places@[noun_key(self.places@[k])] == (
                self.suspects@[k],
                self.items@[k],
            )
    }

    /// What holds of every game from its start to its end.
    pub open spec fn wf(self) -> bool {
        &&& self.dealt()
        &&& self.clues_complete()
        &&& self.clue_table_exact()
        &&& self.zophie_sound()
        &&& self.visits_recorded()
        &&& self.accused_suspects@.len() + self.accusations_left <= 3
        &&& forall|i: int|
            0 <= i < self.accused_suspects@.len() ==> #[trigger] self.accused_suspects@[i] is Person
                && self.accused_suspects@[i] != self.culprit
        &&& self.known_suspects_items@.no_duplicates()
        &&& forall|i: int|
            0 <= i < self.known_suspects_items@.len() ==> (#[trigger] self.known_suspects_items@[i] is Person
                || self.known_suspects_items@[i] is Thing)
        &&& self.current_location == Noun::Place(Locations::Taxi) || self.places@.contains(
            self.current_location,
        )
    }

    /// Deals a new game: three liars, a culprit, and suspects, items and
    /// places each shuffled, so that suspect `i` stands at place `i` with
    /// item `i`. Every suspect then settles what to say about every item (who
    /// holds it) and every suspect (what they hold): the truth, or a lie from
    /// a liar. These answers always name a suspect or an item, never a place. Last, three suspects drawn at random learn something of the
    /// cat: the culprit, the culprit's place or the culprit's item, as a draw
    /// decides.
    pub fn new() -> (game: GameState)
        ensures
            game.wf(),
            game.known_suspects_items@.len() == 0,
            game.visited_places@.dom().len() == 0,
            game.current_location == Noun::Place(Locations::Taxi),
            game.accused_suspects@.len() == 0,
            game.accusations_left == 3,
            game.zophie_clues@.dom().len() == 3,
            exists|draws: Seq<usize>|
                draws.len() == 3 && valid_draws(draws, 9) && game.liars@ == #[trigger] drawn_from(
                    suspect_roll(),
                    draws,
                ),
            exists|draws: Seq<usize>|
                draws.len() == 1 && valid_draws(draws, 9) && seq![game.culprit]
                    == #[trigger] drawn_from(suspect_roll(), draws),
    {
        let liars = Suspects::random_sample(3);
        let culprit_sample = Suspects::random_sample(1);
        let culprit = culprit_sample[0];
        let ghost liar_draws = choose|d: Seq<usize>|
            d.len() == 3 && valid_draws(d, 9) && liars@ == #[trigger] drawn_from(suspect_roll(), d);
        let ghost culprit_draws = choose|d: Seq<usize>|
            d.len() == 1 && valid_draws(d, 9) && culprit_sample@ == #[trigger] drawn_from(
                suspect_roll(),
                d,
            );
        proof {
            assert(culprit_sample@ =~= seq![culprit]);
        }
        let suspects = Suspects::get_shuffled_list();
        let items = Items::get_shuffled_list();
        let places = Locations::get_shuffled_list();
        let mut clues: HashMap<u16, Noun> = HashMap::new();

        let mut items_and_suspects: Vec<(usize, Noun)> = Vec::new();
        let mut i: usize = 0;
        while i < items.len()
            invariant
                liar_draws.len() == 3 && valid_draws(liar_draws, 9) && liars@ == drawn_from(
                    suspect_roll(),
                    liar_draws,
                ),
                culprit_draws.len() == 1 && valid_draws(culprit_draws, 9) && seq![culprit]
                    == drawn_from(suspect_roll(), culprit_draws),
                i <= items@.len() == 9,
                items_and_suspects@.len() == i,
                forall|j: int|
                    0 <= j < i ==> #[trigger] items_and_suspects@[j] == (j as usize, items@[j]),
            decreases items@.len() - i,
        {
            items_and_suspects.push((i, items[i]));
            i = i + 1;
        }
        let mut i: usize = 0;
        while i < suspects.len()
            invariant
                liar_draws.len() == 3 && valid_draws(liar_draws, 9) && liars@ == drawn_from(
                    suspect_roll(),
                    liar_draws,
                ),
                culprit_draws.len() == 1 && valid_draws(culprit_draws, 9) && seq![culprit]
                    == drawn_from(suspect_roll(), culprit_draws),
                i <= suspects@.len() == 9,
                items@.len() == 9,
                items_and_suspects@.len() == 9 + i,
                forall|j: int|
                    0 <= j < 9 ==> #[trigger] items_and_suspects@[j] == (j as usize, items@[j]),
                forall|j: int|
                    9 <= j < 9 + i ==> #[trigger] items_and_suspects@[j] == (
                        (j - 9) as usize,
                        suspects@[j - 9],
                    ),
            decreases suspects@.len() - i,
        {
            items_and_suspects.push((i, suspects[i]));
            i = i + 1;
        }

        let mut s: usize = 0;
        while s < suspects.len()
            invariant
                liar_draws.len() == 3 && valid_draws(liar_draws, 9) && liars@ == drawn_from(
                    suspect_roll(),
                    liar_draws,
                ),
                culprit_draws.len() == 1 && valid_draws(culprit_draws, 9) && seq![culprit]
                    == drawn_from(suspect_roll(), culprit_draws),
                lists_every_suspect(suspects@),
                lists_every_item(items@),
                lists_every_site(places@),
                s <= 9,
                items_and_suspects@.len() == 18,
                forall|j: int|
                    0 <= j < 18 ==> #[trigger] items_and_suspects@[j] == (
                        (if j < 9 { j } else { j - 9 }) as usize,
                        subject_of(items@, suspects@, j),
                    ),
                filed_before(clues@, liars@, items@, suspects@, s as int, 0),
                clues@.dom().len() == s * 18,
                forall|k: u16| #[trigger]
                    clues@.contains_key(k) ==> asked_before(items@, suspects@, s as int, 0, k) && (
                    clues@[k] is Person || clues@[k] is Thing),
            decreases 9 - s,
        {
            let interviewee = suspects[s];
            let is_liar = contains_noun(&liars, interviewee);
            let mut j: usize = 0;
            while j < items_and_suspects.len()
                invariant
                    liar_draws.len() == 3 && valid_draws(liar_draws, 9) && liars@ == drawn_from(
                        suspect_roll(),
                        liar_draws,
                    ),
                    culprit_draws.len() == 1 && valid_draws(culprit_draws, 9) && seq![culprit]
                        == drawn_from(suspect_roll(), culprit_draws),
                    lists_every_suspect(suspects@),
                    lists_every_item(items@),
                    lists_every_site(places@),
                    s < 9,
                    j <= 18,
                    interviewee == suspects@[s as int],
                    is_liar == liars@.contains(interviewee),
                    items_and_suspects@.len() == 18,
                    forall|j: int|
                        0 <= j < 18 ==> #[trigger] items_and_suspects@[j] == (
                            (if j < 9 { j } else { j - 9 }) as usize,
                            subject_of(items@, suspects@, j),
                        ),
                    filed_before(clues@, liars@, items@, suspects@, s as int, j as int),
                    clues@.dom().len() == s * 18 + j,
                    forall|k: u16| #[trigger]
                        clues@.contains_key(k) ==> asked_before(
                            items@,
                            suspects@,
                            s as int,
                            j as int,
                            k,
                        ) && (clues@[k] is Person || clues@[k] is Thing),
                decreases 18 - j,
            {
                let (index, subject) = items_and_suspects[j];
                assert(items_and_suspects@[j as int] == (index, subject));
                let mut response: Option<Noun> = None;
                if let Noun::Thing(_) = subject {
                    response = Self::new_clue(is_liar, &suspects, index);
                }
                if let Noun::Person(_) = subject {
                    response = Self::new_clue(is_liar, &items, index);
                }
                proof {
                    if j < 9 {
                        assert(subject == items@[j as int]);
                        assert(subject is Thing);
                        lemma_new_clue_told(is_liar, suspects@, index as int, response);
                        let m = choose|m: int| 0 <= m < 9 && suspects@[m] == response->0;
                        assert(suspects@[m] is Person);
                    } else {
                        assert(subject == suspects@[j - 9]);
                        assert(subject is Person);
                        lemma_new_clue_told(is_liar, items@, index as int, response);
                        let m = choose|m: int| 0 <= m < 9 && items@[m] == response->0;
                        assert(items@[m] is Thing);
                    }
                }
                if let Some(noun) = response {
                    let key = Clue(interviewee, subject).key();
                    proof {
                        lemma_filed_kept(clues@, noun, liars@, items@, suspects@, s as int, j as int);
                        lemma_fresh_key(clues@, items@, suspects@, s as int, j as int);
                    }
                    clues.insert(key, noun);
                    proof {
                        assert(answer_filed(
                            clues@,
                            liars@,
                            suspects@[s as int],
                            items@,
                            suspects@,
                            j as int,
                        ));
                        assert forall|k: u16| #[trigger] clues@.contains_key(k) implies asked_before(
                            items@,
                            suspects@,
                            s as int,
                            j + 1,
                            k,
                        ) && (clues@[k] is Person || clues@[k] is Thing) by {
                            if k == key {
                                assert(key == clue_key(
                                    suspects@[s as int],
                                    subject_of(items@, suspects@, j as int),
                                ));
                            } else {
                                assert(asked_before(items@, suspects@, s as int, j as int, k));
                            }
                        }
                    }
                }
                j = j + 1;
            }
            s = s + 1;
        }
        proof {
            assert(culprit_sample@[0] is Person);
            assert(suspects@.contains(Noun::Person(culprit->Person_0)));
        }
        let culprit_index = match position_of(&suspects, culprit) {
            Some(ci) => ci,
            None => {
                proof {
                    assert(false);
                }
                0
            },
        };
        let mut game = GameState {
            known_suspects_items: Vec::new(),
            visited_places: HashMap::new(),
            current_location: Noun::Place(Locations::Taxi),
            accused_suspects: Vec::new(),
            accusations_left: 3,
            liars,
            culprit,
            suspects,
            items,
            places,
            clues,
            zophie_clues: HashMap::new(),
        };
        proof {
            assert forall|s2: int, j: int|
                0 <= s2 < 9 && 0 <= j < 18 implies #[trigger] answer_filed(
                game.clues@,
                game.liars@,
                game.suspects@[s2],
                game.items@,
                game.suspects@,
                j,
            ) by {}
        }
        proof {
            assert forall|k: u16| #[trigger] game.clues@.contains_key(k) implies is_question(
                game.items@,
                game.suspects@,
                k,
            ) && (game.clues@[k] is Person || game.clues@[k] is Thing) by {}
        }
        let interviewees = Suspects::random_sample(3);
        let mut t: usize = 0;
        while t < interviewees.len()
            invariant
                liar_draws.len() == 3 && valid_draws(liar_draws, 9) && game.liars@ == drawn_from(
                    suspect_roll(),
                    liar_draws,
                ),
                culprit_draws.len() == 1 && valid_draws(culprit_draws, 9) && seq![game.culprit]
                    == drawn_from(suspect_roll(), culprit_draws),
                game.dealt(),
                game.clues_complete(),
                game.clue_table_exact(),
                game.zophie_sound(),
                game.visits_recorded(),
                game.known_suspects_items@.len() == 0,
                game.visited_places@.dom().len() == 0,
                game.current_location == Noun::Place(Locations::Taxi),
                game.accused_suspects@.len() == 0,
                game.accusations_left == 3,
                culprit_index < 9,
                game.suspects@[culprit_index as int] == game.culprit,
                is_suspect_sample(interviewees@, 3),
                t <= 3,
                game.zophie_clues@.dom().len() == t,
                forall|k: u8|
                    #[trigger] game.zophie_clues@.contains_key(k) ==> exists|t2: int|
                        0 <= t2 < t && k == noun_key(#[trigger] interviewees@[t2]),
            decreases 3 - t,
        {
            let interviewee = interviewees[t];
            let kind_of_clue = random_index(3);
            let nouns = game.clue_list(kind_of_clue);
            let clue = Self::new_zophie_clue(&game, nouns, culprit_index, interviewee);
            let ghost liar = game.liars@.contains(interviewee);
            proof {
                let ci = culprit_index as int;
                lemma_new_clue_told(liar, game.list_of_kind(kind_of_clue as int), ci, Some(clue));
                assert(game.suspects@[ci] == game.culprit);
                assert(points_to_culprit(
                    liar,
                    game.suspects@,
                    game.places@,
                    game.items@,
                    game.culprit,
                    clue,
                ));
            }
            let key = interviewee.id();
            proof {
                if game.zophie_clues@.contains_key(key) {
                    let t2 = choose|t2: int|
                        0 <= t2 < t && key == noun_key(#[trigger] interviewees@[t2]);
                    lemma_noun_id_injective(interviewees@[t2], interviewee);
                }
            }
            game.zophie_clues.insert(key, clue);
            proof {
                assert(interviewees@[t as int] is Person);
                assert forall|n: Noun| #[trigger]
                    game.zophie_clues@.contains_key(noun_key(n)) implies n is Person
                    && points_to_culprit(
                    game.liars@.contains(n),
                    game.suspects@,
                    game.places@,
                    game.items@,
                    game.culprit,
                    game.zophie_clues@[noun_key(n)],
                ) by {
                    lemma_noun_id_injective(n, interviewee);
                }
            }
            t = t + 1;
        }
        game
    }

    /// The list a clue about the cat is drawn from: the suspects for kind 0,
    /// the places for kind 1, the items for any other kind.
    pub open spec fn list_of_kind(self, kind: int) -> Seq<Noun> {
        if kind == 0 {
            self.suspects@
        } else if kind == 1 {
            self.places@
        } else {
            self.items@
        }
    }

    /// The list a clue about the cat of kind `kind` is drawn from.
    pub fn clue_list(&self, kind: usize) -> (r: &Vec<Noun>)
        ensures
            r@ == self.list_of_kind(kind as int),
    {
        if kind == 0 {
            &self.suspects
        } else if kind == 1 {
            &self.places
        } else {
            &self.items
        }
    }

    /// What an interviewee says of entry `culprit_index` of `nouns`: that entry
    /// itself, or, from a liar, another entry drawn at random.
    pub fn new_clue(is_liar: bool, nouns: &Vec<Noun>, culprit_index: usize) -> (r: Option<Noun>)
        requires
            is_liar ==> others(nouns@, culprit_index as int).len() >= 8,
            !is_liar ==> culprit_index < nouns@.len(),
        ensures
            r is Some,
            !is_liar ==> r == Some(nouns@[culprit_index as int]),
            is_liar ==> exists|k: int|
                0 <= k < 8 && r == Some(#[trigger] others(nouns@, culprit_index as int)[k]),
            possible_answers(is_liar, nouns@, culprit_index as int).contains(r->0),
    {
        if is_liar {
            let lie = Self::lie_about_noun(nouns, culprit_index);
            proof {
                let k = choose|k: int|
                    0 <= k < 8 && lie == #[trigger] others(nouns@, culprit_index as int)[k];
                assert(lie == clue_outcome(true, nouns@, culprit_index as int, k));
            }
            Some(lie)
        } else {
            proof {
                assert(nouns@[culprit_index as int] == clue_outcome(
                    false,
                    nouns@,
                    culprit_index as int,
                    0,
                ));
            }
            Some(nouns[culprit_index])
        }
    }

    /// What `interviewee` says of entry `true_index` of `nouns`: that entry,
    /// or, when the game counts the interviewee among its liars, another entry
    /// drawn at random.
    pub fn new_zophie_clue(
        game: &GameState,
        nouns: &Vec<Noun>,
        true_index: usize,
        interviewee: Noun,
    ) -> (r: Noun)
        requires
            game.liars@.contains(interviewee) ==> others(nouns@, true_index as int).len() >= 8,
            !game.liars@.contains(interviewee) ==> true_index < nouns@.len(),
        ensures
            !game.liars@.contains(interviewee) ==> r == nouns@[true_index as int],
            game.liars@.contains(interviewee) ==> exists|k: int|
                0 <= k < 8 && r == #[trigger] others(nouns@, true_index as int)[k],
            possible_cat_answers(*game, nouns@, true_index as int, interviewee).contains(r),
    {
        if contains_noun(&game.liars, interviewee) {
            let lie = Self::lie_about_noun(nouns, true_index);
            proof {
                let k = choose|k: int|
                    0 <= k < 8 && lie == #[trigger] others(nouns@, true_index as int)[k];
                assert(lie == clue_outcome(true, nouns@, true_index as int, k));
            }
            lie
        } else {
            proof {
                assert(nouns@[true_index as int] == clue_outcome(
                    false,
                    nouns@,
                    true_index as int,
                    0,
                ));
            }
            nouns[true_index]
        }
    }

    /// One of the first eight entries of `nouns` other than the one at
    /// `culprit_index`, drawn at random.
    pub fn lie_about_noun(nouns: &Vec<Noun>, culprit_index: usize) -> (r: Noun)
        requires
            others(nouns@, culprit_index as int).len() >= 8,
        ensures
            exists|k: int| 0 <= k < 8 && r == #[trigger] others(nouns@, culprit_index as int)[k],
    {
        let index_of_lie = random_index(8);
        pick_lie(nouns, culprit_index, index_of_lie)
    }
}

} // verus!
