use zophie::chance::{random_index, shuffle};
use zophie::nouns::{Items, Locations, Noun, Suspects};

fn all_nouns() -> Vec<Noun> {
    let mut all = Suspects::roll();
    all.extend(Locations::roll());
    all.push(Noun::Place(Locations::Taxi));
    all.extend(Items::roll());
    all
}

#[test]
fn names_match_the_printed_ones() {
    assert_eq!(Suspects::DukeHautdog.name(), "DUKE HAUTDOG");
    assert_eq!(Suspects::MrsFeathertoss.name(), "MRS. FEATHERTOSS");
    assert_eq!(Suspects::CecilEdgarVanderton.name(), "CECIL EDGAR VANDERTON");
    assert_eq!(Items::CleanUnerpants.name(), "CLEAN UNDERPANTS");
    assert_eq!(Items::FiveDollarGiftCard.name(), "FIVE DOLLAR GIFT CARD");
    assert_eq!(Locations::AlbinoAlligatorPit.name(), "ALBINO ALLIGATOR PIT");
    assert_eq!(Locations::Taxi.name(), "TAXI");
    assert_eq!(Noun::Person(Suspects::DrJeanSplicer).name(), "DR. JEAN SPLICER");
    assert_eq!(Noun::Place(Locations::HipsterCafe).name(), "HIPSTER CAFE");
    assert_eq!(Noun::Thing(Items::AnimeVhsTape).name(), "ANIME VHS TAPE");
}

#[test]
fn noun_ids_are_distinct_and_small() {
    let all = all_nouns();
    assert_eq!(all.len(), 28);
    for (i, a) in all.iter().enumerate() {
        assert!(a.id() < 28);
        for b in all.iter().skip(i + 1) {
            assert_ne!(a.id(), b.id());
        }
    }
    assert_eq!(Noun::Person(Suspects::DukeHautdog).id(), 0);
    assert_eq!(Noun::Place(Locations::Zoo).id(), 9);
    assert_eq!(Noun::Place(Locations::Taxi).id(), 18);
    assert_eq!(Noun::Thing(Items::FiveDollarGiftCard).id(), 27);
}

#[test]
fn rolls_list_everything_once() {
    let suspects = Suspects::roll();
    assert_eq!(suspects.len(), 9);
    assert_eq!(suspects[0], Noun::Person(Suspects::DukeHautdog));
    assert_eq!(suspects[8], Noun::Person(Suspects::CecilEdgarVanderton));
    let places = Locations::roll();
    assert_eq!(places.len(), 9);
    assert!(!places.contains(&Noun::Place(Locations::Taxi)));
    let items = Items::roll();
    assert_eq!(items[7], Noun::Thing(Items::CleanUnerpants));
}

fn is_permutation(a: &[Noun], b: &[Noun]) -> bool {
    a.len() == b.len() && a.iter().all(|x| b.contains(x)) && b.iter().all(|x| a.contains(x))
}

#[test]
fn shuffled_lists_are_permutations() {
    for _ in 0..50 {
        assert!(is_permutation(&Suspects::get_shuffled_list(), &Suspects::roll()));
        assert!(is_permutation(&Items::get_shuffled_list(), &Items::roll()));
        assert!(is_permutation(&Locations::get_shuffled_list(), &Locations::roll()));
    }
}

#[test]
fn samples_hold_distinct_suspects() {
    for n in 0..=9usize {
        for _ in 0..20 {
            let sample = Suspects::random_sample(n);
            assert_eq!(sample.len(), n);
            for (i, a) in sample.iter().enumerate() {
                assert!(matches!(a, Noun::Person(_)));
                assert!(!sample[i + 1..].contains(a));
            }
        }
    }
}

#[test]
fn a_full_sample_is_every_suspect() {
    let sample = Suspects::random_sample(9);
    assert!(is_permutation(&sample, &Suspects::roll()));
}

#[test]
fn random_draws_stay_in_bounds() {
    for _ in 0..200 {
        assert!(random_index(8) < 8);
    }
    assert_eq!(random_index(1), 0);
}

#[test]
fn shuffle_keeps_the_items() {
    let mut v = vec![1u8, 2, 3, 4, 5, 5];
    shuffle(&mut v);
    v.sort();
    assert_eq!(v, vec![1, 2, 3, 4, 5, 5]);
}

#[test]
fn shuffling_moves_things_around() {
    let moved = (0..20).any(|_| Suspects::get_shuffled_list() != Suspects::roll());
    assert!(moved);
    let moved = (0..20).any(|_| Locations::get_shuffled_list() != Locations::roll());
    assert!(moved);
}

#[test]
fn sample_with_takes_the_drawn_entries() {
    assert_eq!(Suspects::sample_with(&vec![]), Vec::<Noun>::new());
    assert_eq!(
        Suspects::sample_with(&vec![0, 0, 0]),
        vec![
            Noun::Person(Suspects::DukeHautdog),
            Noun::Person(Suspects::MaximumPowers),
            Noun::Person(Suspects::BillMonopolis),
        ]
    );
    assert_eq!(
        Suspects::sample_with(&vec![8, 0, 6]),
        vec![
            Noun::Person(Suspects::CecilEdgarVanderton),
            Noun::Person(Suspects::DukeHautdog),
            Noun::Person(Suspects::EspressaToffeepot),
        ]
    );
    assert_eq!(
        Suspects::sample_with(&vec![2, 2]),
        vec![Noun::Person(Suspects::BillMonopolis), Noun::Person(Suspects::SenatorSchmear)]
    );
    let all = Suspects::sample_with(&vec![0; 9]);
    assert_eq!(all, Suspects::roll());
}

#[test]
fn every_culprit_can_be_drawn() {
    let mut seen: Vec<Noun> = Vec::new();
    for _ in 0..2000 {
        let c = Suspects::random_sample(1)[0];
        if !seen.contains(&c) {
            seen.push(c);
        }
    }
    assert_eq!(seen.len(), 9);
}
