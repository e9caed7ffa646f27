use zophie::game::{contains_noun, pick_lie, position_of, Clue, GameState};
use zophie::nouns::{Items, Locations, Noun, Suspects};

fn places() -> Vec<Noun> {
    Locations::roll()
}

#[test]
fn clue_keys_tell_questions_apart() {
    let a = Noun::Person(Suspects::DukeHautdog);
    let b = Noun::Thing(Items::Candlestick);
    assert_eq!(Clue(a, b).key(), 0 * 32 + 20);
    assert_ne!(Clue(a, b).key(), Clue(b, a).key());
    assert_eq!(
        Clue(Noun::Person(Suspects::CecilEdgarVanderton), Noun::Thing(Items::FiveDollarGiftCard)).key(),
        8 * 32 + 27
    );
}

#[test]
fn pick_lie_skips_the_truth() {
    let p = places();
    assert_eq!(pick_lie(&p, 2, 0), p[0]);
    assert_eq!(pick_lie(&p, 2, 1), p[1]);
    assert_eq!(pick_lie(&p, 2, 2), p[3]);
    assert_eq!(pick_lie(&p, 2, 7), p[8]);
    assert_eq!(pick_lie(&p, 0, 0), p[1]);
    assert_eq!(pick_lie(&p, 8, 7), p[7]);
    // With nothing to skip, the entry itself.
    assert_eq!(pick_lie(&p, 20, 4), p[4]);
}

#[test]
fn lies_are_never_the_truth() {
    let p = places();
    for truth in 0..9usize {
        for _ in 0..50 {
            let lie = GameState::lie_about_noun(&p, truth);
            assert_ne!(lie, p[truth]);
            assert!(p.contains(&lie));
        }
    }
}

#[test]
fn new_clue_tells_the_truth_or_lies() {
    let p = places();
    for i in 0..9usize {
        assert_eq!(GameState::new_clue(false, &p, i), Some(p[i]));
        let lie = GameState::new_clue(true, &p, i).unwrap();
        assert_ne!(lie, p[i]);
        assert!(p.contains(&lie));
    }
}

#[test]
fn zophie_clue_depends_on_the_interviewee() {
    let game = GameState::new();
    let liar = game.liars[0];
    let honest = *game.suspects.iter().find(|s| !game.liars.contains(s)).unwrap();
    for i in 0..9usize {
        assert_eq!(GameState::new_zophie_clue(&game, &game.items, i, honest), game.items[i]);
        let lie = GameState::new_zophie_clue(&game, &game.items, i, liar);
        assert_ne!(lie, game.items[i]);
        assert!(game.items.contains(&lie));
    }
}

#[test]
fn contains_and_position() {
    let p = places();
    assert!(contains_noun(&p, Noun::Place(Locations::Zoo)));
    assert!(!contains_noun(&p, Noun::Place(Locations::Taxi)));
    assert_eq!(position_of(&p, Noun::Place(Locations::CityHall)), Some(3));
    assert_eq!(position_of(&p, Noun::Place(Locations::Taxi)), None);
    assert_eq!(position_of(&Vec::new(), Noun::Place(Locations::Taxi)), None);
}

fn partner(game: &GameState, subject: Noun) -> Noun {
    if let Some(j) = game.items.iter().position(|n| *n == subject) {
        game.suspects[j]
    } else {
        let j = game.suspects.iter().position(|n| *n == subject).unwrap();
        game.items[j]
    }
}

#[test]
fn a_new_game_is_dealt_fairly() {
    for _ in 0..20 {
        let game = GameState::new();
        assert_eq!(game.suspects.len(), 9);
        assert_eq!(game.items.len(), 9);
        assert_eq!(game.places.len(), 9);
        assert_eq!(game.liars.len(), 3);
        assert!(matches!(game.culprit, Noun::Person(_)));
        assert!(game.suspects.contains(&game.culprit));
        assert_eq!(game.current_location, Noun::Place(Locations::Taxi));
        assert_eq!(game.accusations_left, 3);
        assert!(game.known_suspects_items.is_empty());
        assert!(game.accused_suspects.is_empty());
        assert!(game.visited_places.is_empty());
        assert_eq!(game.zophie_clues.len(), 3);
        assert_eq!(game.clues.len(), 162);
        let mut keys: Vec<u16> = Vec::new();
        for w in game.suspects.iter() {
            let liar = game.liars.contains(w);
            for subject in game.items.iter().chain(game.suspects.iter()) {
                keys.push(Clue(*w, *subject).key());
                let clue = game.clues[&Clue(*w, *subject).key()];
                let truth = partner(&game, *subject);
                assert!(matches!(clue, Noun::Person(_) | Noun::Thing(_)));
                assert_eq!(
                    matches!(clue, Noun::Person(_)),
                    matches!(truth, Noun::Person(_))
                );
                if liar {
                    assert_ne!(clue, truth);
                } else {
                    assert_eq!(clue, truth);
                }
            }
        }
        for key in game.clues.keys() {
            assert!(keys.contains(key));
        }
        let ci = game.culprit_index();
        assert_eq!(game.suspects[ci], game.culprit);
        for (key, clue) in game.zophie_clues.iter() {
            let w = *game.suspects.iter().find(|s| s.id() == *key).unwrap();
            let truths = [game.culprit, game.places[ci], game.items[ci]];
            if game.liars.contains(&w) {
                assert!(!truths.contains(clue));
            } else {
                assert!(truths.contains(clue));
            }
        }
    }
}

#[test]
fn zophie_clues_come_from_the_list_of_their_kind() {
    let game = GameState::new();
    assert_eq!(game.clue_list(0), &game.suspects);
    assert_eq!(game.clue_list(1), &game.places);
    assert_eq!(game.clue_list(2), &game.items);
    assert_eq!(game.clue_list(7), &game.items);
}

#[test]
fn a_liar_can_name_every_other_entry() {
    let p = places();
    for truth in [0usize, 4, 8] {
        let mut seen: Vec<Noun> = Vec::new();
        for _ in 0..2000 {
            let lie = GameState::new_clue(true, &p, truth).unwrap();
            if !seen.contains(&lie) {
                seen.push(lie);
            }
        }
        assert_eq!(seen.len(), 8);
        assert!(!seen.contains(&p[truth]));
    }
}

#[test]
fn cat_clues_answer_like_other_clues() {
    let game = GameState::new();
    let liar = game.liars[0];
    let mut seen: Vec<Noun> = Vec::new();
    for _ in 0..2000 {
        let lie = GameState::new_zophie_clue(&game, &game.places, 3, liar);
        if !seen.contains(&lie) {
            seen.push(lie);
        }
    }
    assert_eq!(seen.len(), 8);
    assert!(!seen.contains(&game.places[3]));
}
