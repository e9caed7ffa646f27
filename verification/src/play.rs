//! The moves of a game: what the detective's input means, and what each
//! move does to the state. The program around the library reads the input,
//! prints, keeps the clock and calls these one after the other.

use vstd::prelude::*;

use crate::game::{
    answer_filed, answer_told, clue_key, contains_noun, noun_key, points_to_culprit, position_of,
    subject_of, Clue, GameState,
};
use crate::nouns::{lemma_noun_id_injective, Locations, Noun};
use crate::text::{
    all_digits, decimal_text, is_digit, is_key, lemma_decimal_text_read_back,
    lemma_decimal_text_spells, parse_usize, parsed_usize,
};

verus! {

broadcast use vstd::std_specs::hash::group_hash_axioms;

/// Seconds the detective has to solve the case.
pub const SOLVE_TIME: u64 = 300;

/// What the detective chose in the taxi.
#[derive(Debug, Clone, Copy, PartialEq, Eq, Structural)]
pub enum TaxiChoice {
    /// Leave the game.
    Quit,
    /// Ride to the place at this position of the list.
    Travel(usize),
    /// Input that means nothing here.
    Invalid,
}

/// What the detective chose at a place.
#[derive(Debug, Clone, Copy, PartialEq, Eq, Structural)]
pub enum Command {
    /// Accuse the suspect found here.
    Accuse,
    /// Ask the suspect here about the cat.
    AskZophie,
    /// Go back to the taxi.
    BackToTaxi,
    /// Ask about the known suspect or item at this position of the list.
    AskAbout(usize),
    /// Input that means nothing here.
    Invalid,
}

/// Why a game is lost.
#[derive(Debug, Clone, Copy, PartialEq, Eq, Structural)]
pub enum Loss {
    OutOfTime,
    OutOfAccusations,
}

/// The meaning of `input` in the taxi, with `n_places` places to go to.
pub open spec fn taxi_choice_for(input: Seq<char>, n_places: nat) -> TaxiChoice {
    if input == seq!['Q'] {
        TaxiChoice::Quit
    } else {
        match parsed_usize(input) {
            Some(n) => if n < n_places {
                TaxiChoice::Travel(n)
            } else {
                TaxiChoice::Invalid
            },
            None => TaxiChoice::Invalid,
        }
    }
}

/// The meaning of `input` at a place, with `n_known` suspects and items known.
pub open spec fn command_for(input: Seq<char>, n_known: nat) -> Command {
    if input == seq!['J'] {
        Command::Accuse
    } else if input == seq!['Z'] {
        Command::AskZophie
    } else if input == seq!['T'] {
        Command::BackToTaxi
    } else {
        match parsed_usize(input) {
            Some(n) => if n < n_known {
                Command::AskAbout(n)
            } else {
                Command::Invalid
            },
            None => Command::Invalid,
        }
    }
}

/// `known` after hearing of `n`: a suspect or item not known yet is added
/// at the end; anything else leaves it as it is.
pub open spec fn noted(known: Seq<Noun>, n: Noun) -> Seq<Noun> {
    if !known.contains(n) && (n is Person || n is Thing) {
        known.push(n)
    } else {
        known
    }
}

/// `seconds` as whole minutes and the seconds left over.
pub open spec fn minutes_and_seconds(seconds: u64) -> (u64, u64) {
    ((seconds / 60) as u64, (seconds % 60) as u64)
}

/// Adds `n` to the known suspects and items, as `noted` says.
fn note(known: &mut Vec<Noun>, n: Noun)
    ensures
        final(known)@ == noted(old(known)@, n),
{
    if !contains_noun(known, n) {
        if let Noun::Person(_) = n {
            known.push(n);
        }
        if let Noun::Thing(_) = n {
            known.push(n);
        }
    }
}

/// Whole minutes and seconds of `seconds`, as the clock is shown.
pub fn split_minutes(seconds: u64) -> (r: (u64, u64))
    ensures
        r == minutes_and_seconds(seconds),
        r.0 * 60 + r.1 == seconds,
        r.1 < 60,
{
    (seconds / 60, seconds % 60)
}

/// The time left, in minutes and seconds, after `elapsed` seconds of play.
pub fn time_left(elapsed: u64) -> (r: (u64, u64))
    requires
        elapsed <= SOLVE_TIME,
    ensures
        r == minutes_and_seconds((SOLVE_TIME - elapsed) as u64),
{
    split_minutes(SOLVE_TIME - elapsed)
}

/// Hearing of a noun keeps the known list free of repeats and of places.
proof fn lemma_noted_keeps(known: Seq<Noun>, n: Noun)
    requires
        known.no_duplicates(),
        forall|i: int| 0 <= i < known.len() ==> (#[trigger] known[i] is Person || known[i] is Thing),
    ensures
        noted(known, n).no_duplicates(),
        forall|i: int|
            0 <= i < noted(known, n).len() ==> (#[trigger] noted(known, n)[i] is Person || noted(
                known,
                n,
            )[i] is Thing),
{
    let r = noted(known, n);
    if r != known {
        assert forall|i: int, j: int| 0 <= i < j < r.len() implies r[i] != r[j] by {
            if j == known.len() {
                assert(known.contains(known[i]));
            }
        }
        assert forall|i: int| 0 <= i < r.len() implies (#[trigger] r[i] is Person || r[i] is Thing) by {
            if i < known.len() {
                assert(r[i] == known[i]);
            }
        }
    }
}

/// A number written in decimal is never one of the command letters.
proof fn lemma_number_is_no_letter(n: usize, c: char)
    requires
        !is_digit(c),
    ensures
        decimal_text(n as nat) != seq![c],
{
    lemma_decimal_text_spells(n as nat);
    if decimal_text(n as nat) == seq![c] {
        assert(is_digit(decimal_text(n as nat)[0]));
    }
}

/// In the taxi, `Q` quits, and every place of the list can be chosen by
/// typing its position in decimal; a position past the end is refused.
pub proof fn lemma_every_place_can_be_chosen(n: usize, n_places: nat)
    ensures
        taxi_choice_for(seq!['Q'], n_places) == TaxiChoice::Quit,
        n < n_places ==> taxi_choice_for(decimal_text(n as nat), n_places) == TaxiChoice::Travel(
            n,
        ),
        n >= n_places ==> taxi_choice_for(decimal_text(n as nat), n_places)
            == TaxiChoice::Invalid,
{
    lemma_decimal_text_read_back(n);
    lemma_number_is_no_letter(n, 'Q');
}

/// At a place, `J` accuses, `Z` asks about the cat and `T` goes back to the
/// taxi; every known suspect or item can be asked about by typing its
/// position in decimal, and a position past the end is refused.
pub proof fn lemma_every_known_noun_can_be_asked(n: usize, n_known: nat)
    ensures
        command_for(seq!['J'], n_known) == Command::Accuse,
        command_for(seq!['Z'], n_known) == Command::AskZophie,
        command_for(seq!['T'], n_known) == Command::BackToTaxi,
        n < n_known ==> command_for(decimal_text(n as nat), n_known) == Command::AskAbout(n),
        n >= n_known ==> command_for(decimal_text(n as nat), n_known) == Command::Invalid,
{
    lemma_decimal_text_read_back(n);
    lemma_number_is_no_letter(n, 'J');
    lemma_number_is_no_letter(n, 'Z');
    lemma_number_is_no_letter(n, 'T');
    assert(seq!['Z'][0] != seq!['J'][0]);
    assert(seq!['T'][0] != seq!['J'][0] && seq!['T'][0] != seq!['Z'][0]);
}

/// Any text read as a number `n` means the same in the taxi and at a
/// place: the `n`-th entry of the list when there is one, else nothing.
pub proof fn lemma_numbers_pick_entries(input: Seq<char>, n: usize, count: nat)
    requires
        parsed_usize(input) == Some(n),
    ensures
        taxi_choice_for(input, count) == if n < count {
            TaxiChoice::Travel(n)
        } else {
            TaxiChoice::Invalid
        },
        command_for(input, count) == if n < count {
            Command::AskAbout(n)
        } else {
            Command::Invalid
        },
{
    if input == seq!['Q'] || input == seq!['J'] || input == seq!['Z'] || input == seq!['T'] {
        assert(crate::text::unsigned_digits(input) == input);
        assert(!is_digit(input[0]));
        assert(!all_digits(input));
    }
}

impl GameState {
    /// Neither `self` nor `other` has dealt anything different: the lists,
    /// the liars, the culprit and every clue are the same.
    pub open spec fn same_deal(self, other: GameState) -> bool {
        &&& other.suspects@ == self.suspects@
        &&& other.items@ == self.items@
        &&& other.places@ == self.places@
        &&& other.liars@ == self.liars@
        &&& other.culprit == self.culprit
        &&& other.clues@ == self.clues@
        &&& other.zophie_clues@ == self.zophie_clues@
    }

    /// The detective stands at one of the places, not in the taxi.
    pub open spec fn at_site(self) -> bool {
        self.places@.contains(self.current_location)
    }

    /// The position of the detective's place in the lists.
    pub open spec fn site_index(self) -> int {
        self.places@.index_of(self.current_location)
    }

    /// The suspect at the detective's place.
    pub open spec fn person_here(self) -> Noun {
        self.suspects@[self.site_index()]
    }

    /// The item at the detective's place.
    pub open spec fn item_here(self) -> Noun {
        self.items@[self.site_index()]
    }

    /// What a visit of the place at `index` files: the suspect and the item
    /// found there, unless the place was visited before.
    pub open spec fn visits_after(self, index: int) -> Map<u8, (Noun, Noun)> {
        let key = noun_key(self.places@[index]);
        if self.visited_places@.contains_key(key) {
            self.visited_places@
        } else {
            self.visited_places@.insert(key, (self.suspects@[index], self.items@[index]))
        }
    }

    /// The meaning of what the detective typed in the taxi.
    pub fn taxi_choice(&self, input: &str) -> (r: TaxiChoice)
        ensures
            r == taxi_choice_for(input@, self.places@.len()),
    {
        if is_key(input, 'Q') {
            TaxiChoice::Quit
        } else {
            match parse_usize(input) {
                Some(n) => if n < self.places.len() {
                    TaxiChoice::Travel(n)
                } else {
                    TaxiChoice::Invalid
                },
                None => TaxiChoice::Invalid,
            }
        }
    }

    /// The meaning of what the detective typed at a place.
    pub fn command(&self, input: &str) -> (r: Command)
        ensures
            r == command_for(input@, self.known_suspects_items@.len()),
    {
        if is_key(input, 'J') {
            Command::Accuse
        } else if is_key(input, 'Z') {
            Command::AskZophie
        } else if is_key(input, 'T') {
            Command::BackToTaxi
        } else {
            match parse_usize(input) {
                Some(n) => if n < self.known_suspects_items.len() {
                    Command::AskAbout(n)
                } else {
                    Command::Invalid
                },
                None => Command::Invalid,
            }
        }
    }

    /// The position of the detective's place in the lists.
    pub fn here(&self) -> (r: usize)
        requires
            self.wf(),
            self.at_site(),
        ensures
            r == self.site_index(),
            r < 9,
            self.places@[r as int] == self.current_location,
    {
        match position_of(&self.places, self.current_location) {
            Some(i) => {
                proof {
                    let k = self.site_index();
                    assert(self.places@[k] == self.current_location);
                    assert(self.places@.no_duplicates());
                }
                i
            },
            None => {
                proof {
                    assert(false);
                }
                0
            },
        }
    }

    /// Whether the game goes on after `elapsed` seconds: time is left and so
    /// is an accusation.
    pub fn keeps_going(&self, elapsed: u64) -> (r: bool)
        ensures
            r == (elapsed < SOLVE_TIME && self.accusations_left > 0),
    {
        elapsed < SOLVE_TIME && self.accusations_left > 0
    }

    /// Why the game is lost after `elapsed` seconds, if it is.
    pub fn loss(&self, elapsed: u64) -> (r: Option<Loss>)
        ensures
            r == if elapsed >= SOLVE_TIME {
                Some(Loss::OutOfTime)
            } else if self.accusations_left == 0 {
                Some(Loss::OutOfAccusations)
            } else {
                None
            },
    {
        if elapsed >= SOLVE_TIME {
            Some(Loss::OutOfTime)
        } else if self.accusations_left == 0 {
            Some(Loss::OutOfAccusations)
        } else {
            None
        }
    }

    /// Whether `n` is one of the liars.
    pub fn is_liar(&self, n: Noun) -> (r: bool)
        ensures
            r == self.liars@.contains(n),
    {
        contains_noun(&self.liars, n)
    }

    /// The position of the culprit in the list of suspects.
    pub fn culprit_index(&self) -> (r: usize)
        requires
            self.wf(),
        ensures
            r < 9,
            self.suspects@[r as int] == self.culprit,
    {
        proof {
            assert(self.suspects@.contains(Noun::Person(self.culprit->Person_0)));
        }
        match position_of(&self.suspects, self.culprit) {
            Some(i) => i,
            None => {
                proof {
                    assert(false);
                }
                0
            },
        }
    }

    /// The suspect and item found at `place`, if the detective has been there.
    pub fn visited_at(&self, place: Noun) -> (r: Option<(Noun, Noun)>)
        ensures
            r == if self.visited_places@.contains_key(noun_key(place)) {
                Some(self.visited_places@[noun_key(place)])
            } else {
                None
            },
    {
        let key = place.id();
        match self.visited_places.get(&key) {
            Some(found) => Some(*found),
            None => None,
        }
    }

    /// Rides to the place at `index`: the detective meets the suspect and the
    /// item there, learns of both, and files the visit. A suspect accused
    /// before refuses to talk, and the detective is back in the taxi; the
    /// result says whether that happened.
    pub fn travel(&mut self, index: usize) -> (refused: bool)
        requires
            old(self).wf(),
            index < 9,
        ensures
            final(self).wf(),
            final(self).same_deal(*old(self)),
            refused == old(self).accused_suspects@.contains(old(self).suspects@[index as int]),
            final(self).current_location == if refused {
                Noun::Place(Locations::Taxi)
            } else {
                old(self).places@[index as int]
            },
            final(self).known_suspects_items@ == noted(
                noted(old(self).known_suspects_items@, old(self).suspects@[index as int]),
                old(self).items@[index as int],
            ),
            final(self).visited_places@ == old(self).visits_after(index as int),
            final(self).accused_suspects@ == old(self).accused_suspects@,
            final(self).accusations_left == old(self).accusations_left,
    {
        self.current_location = self.places[index];
        proof {
            assert(self.places@.contains(self.places@[index as int]));
        }
        let current_index = self.here();
        proof {
            assert(self.places@.no_duplicates());
            assert(current_index == index);
        }
        let the_person_here = self.suspects[current_index];
        let the_item_here = self.items[current_index];
        proof {
            lemma_noted_keeps(self.known_suspects_items@, the_person_here);
            lemma_noted_keeps(
                noted(self.known_suspects_items@, the_person_here),
                the_item_here,
            );
        }
        note(&mut self.known_suspects_items, the_person_here);
        note(&mut self.known_suspects_items, the_item_here);
        let key = self.current_location.id();
        if !self.visited_places.contains_key(&key) {
            self.visited_places.insert(key, (the_person_here, the_item_here));
            proof {
                assert forall|k: int|
                    0 <= k < 9 && #[trigger] self.visited_places@.contains_key(
                        noun_key(self.places@[k]),
                    ) implies self.visited_places@[noun_key(self.places@[k])] == (
                    self.suspects@[k],
                    self.items@[k],
                ) by {
                    lemma_noun_id_injective(self.places@[k], self.places@[index as int]);
                }
            }
        }
        if contains_noun(&self.accused_suspects, the_person_here) {
            self.current_location = Noun::Place(Locations::Taxi);
            return true;
        }
        false
    }

    /// Accuses the suspect at the detective's place, which uses up one
    /// accusation. The result says whether the suspect is the culprit; if
    /// not, the suspect is marked as accused and the detective is back in
    /// the taxi.
    pub fn accuse(&mut self) -> (solved: bool)
        requires
            old(self).wf(),
            old(self).at_site(),
            old(self).accusations_left > 0,
        ensures
            final(self).wf(),
            final(self).same_deal(*old(self)),
            solved == (old(self).person_here() == old(self).culprit),
            final(self).accusations_left == old(self).accusations_left - 1,
            solved ==> final(self).accused_suspects@ == old(self).accused_suspects@
                && final(self).current_location == old(self).current_location,
            !solved ==> final(self).accused_suspects@ == old(self).accused_suspects@.push(
                old(self).person_here(),
            ) && final(self).current_location == Noun::Place(Locations::Taxi),
            final(self).known_suspects_items@ == old(self).known_suspects_items@,
            final(self).visited_places@ == old(self).visited_places@,
    {
        let current_index = self.here();
        let the_person_here = self.suspects[current_index];
        self.accusations_left = self.accusations_left - 1;
        if the_person_here == self.culprit {
            true
        } else {
            self.accused_suspects.push(the_person_here);
            self.current_location = Noun::Place(Locations::Taxi);
            false
        }
    }

    /// Asks the suspect at the detective's place about the cat. A suspect who
    /// knows something answers with a clue, and a suspect or item named in it
    /// becomes known; the others know nothing.
    pub fn ask_about_zophie(&mut self) -> (r: Option<Noun>)
        requires
            old(self).wf(),
            old(self).at_site(),
        ensures
            final(self).wf(),
            final(self).same_deal(*old(self)),
            r == if old(self).zophie_clues@.contains_key(noun_key(old(self).person_here())) {
                Some(old(self).zophie_clues@[noun_key(old(self).person_here())])
            } else {
                None
            },
            final(self).known_suspects_items@ == match r {
                Some(clue) => noted(old(self).known_suspects_items@, clue),
                None => old(self).known_suspects_items@,
            },
            r matches Some(clue) ==> points_to_culprit(
                old(self).liars@.contains(old(self).person_here()),
                old(self).suspects@,
                old(self).places@,
                old(self).items@,
                old(self).culprit,
                clue,
            ),
            final(self).current_location == old(self).current_location,
            final(self).visited_places@ == old(self).visited_places@,
            final(self).accused_suspects@ == old(self).accused_suspects@,
            final(self).accusations_left == old(self).accusations_left,
    {
        let current_index = self.here();
        let the_person_here = self.suspects[current_index];
        let key = the_person_here.id();
        let found = match self.zophie_clues.get(&key) {
            Some(clue) => Some(*clue),
            None => None,
        };
        if let Some(clue) = found {
            proof {
                assert(self.zophie_clues@.contains_key(noun_key(the_person_here)));
                lemma_noted_keeps(self.known_suspects_items@, clue);
            }
            note(&mut self.known_suspects_items, clue);
        }
        found
    }

    /// Asks the suspect at the detective's place about the known suspect or
    /// item at `index`. About themself or their own item they say nothing;
    /// about anything else they give the clue dealt for that question, and a
    /// suspect or item named in it becomes known.
    pub fn ask_about(&mut self, index: usize) -> (r: Option<Noun>)
        requires
            old(self).wf(),
            old(self).at_site(),
            index < old(self).known_suspects_items@.len(),
        ensures
            final(self).wf(),
            final(self).same_deal(*old(self)),
            ({
                let subject = old(self).known_suspects_items@[index as int];
                if subject == old(self).person_here() || subject == old(self).item_here() {
                    r is None && final(self).known_suspects_items@
                        == old(self).known_suspects_items@
                } else {
                    &&& old(self).clues@.contains_key(clue_key(old(self).person_here(), subject))
                    &&& r == Some(old(self).clues@[clue_key(old(self).person_here(), subject)])
                    &&& final(self).known_suspects_items@ == noted(
                        old(self).known_suspects_items@,
                        r->0,
                    )
                }
            }),
            r matches Some(clue) ==> exists|j: int|
                0 <= j < 18 && #[trigger] subject_of(old(self).items@, old(self).suspects@, j)
                    == old(self).known_suspects_items@[index as int] && answer_told(
                    old(self).liars@.contains(old(self).person_here()),
                    old(self).items@,
                    old(self).suspects@,
                    j,
                    clue,
                ),
            final(self).current_location == old(self).current_location,
            final(self).visited_places@ == old(self).visited_places@,
            final(self).accused_suspects@ == old(self).accused_suspects@,
            final(self).accusations_left == old(self).accusations_left,
    {
        let current_index = self.here();
        let the_person_here = self.suspects[current_index];
        let the_item_here = self.items[current_index];
        let noun_asked_about = self.known_suspects_items[index];
        if noun_asked_about == the_person_here || noun_asked_about == the_item_here {
            return None;
        }
        let ghost j: int = if noun_asked_about is Thing {
            self.items@.index_of(noun_asked_about)
        } else {
            9 + self.suspects@.index_of(noun_asked_about)
        };
        proof {
            assert(noun_asked_about is Person || noun_asked_about is Thing);
            if noun_asked_about is Thing {
                assert(self.items@.contains(Noun::Thing(noun_asked_about->Thing_0)));
            } else {
                assert(self.suspects@.contains(Noun::Person(noun_asked_about->Person_0)));
            }
            assert(subject_of(self.items@, self.suspects@, j) == noun_asked_about);
            assert(answer_filed(
                self.clues@,
                self.liars@,
                self.suspects@[current_index as int],
                self.items@,
                self.suspects@,
                j,
            ));
        }
        let key = Clue(the_person_here, noun_asked_about).key();
        let clue = match self.clues.get(&key) {
            Some(found) => *found,
            None => {
                proof {
                    assert(false);
                }
                noun_asked_about
            },
        };
        proof {
            lemma_noted_keeps(self.known_suspects_items@, clue);
        }
        note(&mut self.known_suspects_items, clue);
        Some(clue)
    }

    /// Sends the detective back to the taxi.
    pub fn return_to_taxi(&mut self)
        requires
            old(self).wf(),
        ensures
            final(self).wf(),
            final(self).current_location == Noun::Place(Locations::Taxi),
            final(self).same_deal(*old(self)),
            final(self).known_suspects_items@ == old(self).known_suspects_items@,
            final(self).visited_places@ == old(self).visited_places@,
            final(self).accused_suspects@ == old(self).accused_suspects@,
            final(self).accusations_left == old(self).accusations_left,
    {
        self.current_location = Noun::Place(Locations::Taxi);
    }
}

} // verus!
