use zophie::game::{Clue, GameState};
use zophie::nouns::{Locations, Noun};
use zophie::play::{split_minutes, time_left, Command, Loss, TaxiChoice};
use zophie::text::{normalize_input, parse_usize};

#[test]
fn taxi_input_is_read() {
    let game = GameState::new();
    assert_eq!(game.taxi_choice("Q"), TaxiChoice::Quit);
    assert_eq!(game.taxi_choice("0"), TaxiChoice::Travel(0));
    assert_eq!(game.taxi_choice("8"), TaxiChoice::Travel(8));
    assert_eq!(game.taxi_choice("+3"), TaxiChoice::Travel(3));
    assert_eq!(game.taxi_choice("007"), TaxiChoice::Travel(7));
    assert_eq!(game.taxi_choice("9"), TaxiChoice::Invalid);
    assert_eq!(game.taxi_choice("-1"), TaxiChoice::Invalid);
    assert_eq!(game.taxi_choice(""), TaxiChoice::Invalid);
    assert_eq!(game.taxi_choice("+"), TaxiChoice::Invalid);
    assert_eq!(game.taxi_choice("QQ"), TaxiChoice::Invalid);
    assert_eq!(game.taxi_choice("1 "), TaxiChoice::Invalid);
    assert_eq!(game.taxi_choice("99999999999999999999999"), TaxiChoice::Invalid);
}

#[test]
fn location_input_is_read() {
    let mut game = GameState::new();
    assert_eq!(game.command("J"), Command::Accuse);
    assert_eq!(game.command("Z"), Command::AskZophie);
    assert_eq!(game.command("T"), Command::BackToTaxi);
    assert_eq!(game.command("0"), Command::Invalid);
    assert_eq!(game.command("X"), Command::Invalid);
    game.travel(0);
    assert_eq!(game.known_suspects_items.len(), 2);
    assert_eq!(game.command("0"), Command::AskAbout(0));
    assert_eq!(game.command("1"), Command::AskAbout(1));
    assert_eq!(game.command("2"), Command::Invalid);
}

#[test]
fn travelling_meets_and_files() {
    let mut game = GameState::new();
    let refused = game.travel(4);
    assert!(!refused);
    assert_eq!(game.current_location, game.places[4]);
    assert_eq!(game.here(), 4);
    assert_eq!(game.known_suspects_items, vec![game.suspects[4], game.items[4]]);
    assert_eq!(game.visited_at(game.places[4]), Some((game.suspects[4], game.items[4])));
    assert_eq!(game.visited_at(game.places[5]), None);
    game.return_to_taxi();
    assert_eq!(game.current_location, Noun::Place(Locations::Taxi));
    game.travel(4);
    assert_eq!(game.known_suspects_items.len(), 2);
    assert_eq!(game.visited_places.len(), 1);
}

fn wrong_index(game: &GameState) -> usize {
    (0..9).find(|i| game.suspects[*i] != game.culprit).unwrap()
}

#[test]
fn the_right_accusation_solves_the_case() {
    let mut game = GameState::new();
    let ci = game.culprit_index();
    game.travel(ci);
    assert!(game.accuse());
    assert_eq!(game.accusations_left, 2);
    assert!(game.accused_suspects.is_empty());
    assert_eq!(game.current_location, game.places[ci]);
}

#[test]
fn a_wrong_accusation_offends() {
    let mut game = GameState::new();
    let k = wrong_index(&game);
    game.travel(k);
    assert!(!game.accuse());
    assert_eq!(game.accusations_left, 2);
    assert_eq!(game.accused_suspects, vec![game.suspects[k]]);
    assert_eq!(game.current_location, Noun::Place(Locations::Taxi));
    // The accused refuses to talk afterwards.
    assert!(game.travel(k));
    assert_eq!(game.current_location, Noun::Place(Locations::Taxi));
}

#[test]
fn three_wrong_accusations_end_the_game() {
    let mut game = GameState::new();
    let wrong: Vec<usize> = (0..9).filter(|i| game.suspects[*i] != game.culprit).take(3).collect();
    for k in wrong {
        assert!(game.keeps_going(0));
        game.travel(k);
        assert!(!game.accuse());
    }
    assert_eq!(game.accusations_left, 0);
    assert!(!game.keeps_going(0));
    assert_eq!(game.loss(10), Some(Loss::OutOfAccusations));
}

#[test]
fn asking_about_oneself_gets_no_comment() {
    let mut game = GameState::new();
    game.travel(2);
    assert_eq!(game.ask_about(0), None);
    assert_eq!(game.ask_about(1), None);
    assert_eq!(game.known_suspects_items.len(), 2);
}

#[test]
fn asking_about_another_gets_the_dealt_clue() {
    let mut game = GameState::new();
    game.travel(2);
    game.return_to_taxi();
    game.travel(3);
    // Known: suspect 2, item 2, suspect 3, item 3.
    let subject = game.known_suspects_items[0];
    let expected = game.clues[&Clue(game.suspects[3], subject).key()];
    let clue = game.ask_about(0);
    assert_eq!(clue, Some(expected));
    let liar = game.is_liar(game.suspects[3]);
    // Asked about suspect 2, the answer is an item: item 2 unless a liar answers.
    assert!(matches!(expected, Noun::Thing(_)));
    assert_eq!(expected == game.items[2], !liar);
    assert!(game.known_suspects_items.contains(&expected));
}

#[test]
fn asking_about_the_cat() {
    for _ in 0..10 {
        let mut game = GameState::new();
        for k in 0..9usize {
            game.return_to_taxi();
            game.travel(k);
            let key = game.suspects[k].id();
            let answer = game.ask_about_zophie();
            assert_eq!(answer, game.zophie_clues.get(&key).copied());
        }
    }
}

#[test]
fn the_clock() {
    assert_eq!(split_minutes(125), (2, 5));
    assert_eq!(split_minutes(59), (0, 59));
    assert_eq!(time_left(0), (5, 0));
    assert_eq!(time_left(300), (0, 0));
    assert_eq!(time_left(61), (3, 59));
    let game = GameState::new();
    assert!(game.keeps_going(299));
    assert!(!game.keeps_going(300));
    assert_eq!(game.loss(300), Some(Loss::OutOfTime));
    assert_eq!(game.loss(299), None);
}

#[test]
fn typed_lines_are_normalized() {
    assert_eq!(normalize_input(" q\n"), "Q");
    assert_eq!(normalize_input("z"), "Z");
    assert_eq!(normalize_input("  12 \r\n"), "12");
    assert_eq!(normalize_input(""), "");
    let game = GameState::new();
    assert_eq!(game.taxi_choice(&normalize_input("q\n")), TaxiChoice::Quit);
}

#[test]
fn numbers_are_read_as_std_reads_them() {
    assert_eq!(parse_usize("0"), Some(0));
    assert_eq!(parse_usize("+42"), Some(42));
    assert_eq!(parse_usize("0042"), Some(42));
    assert_eq!(parse_usize("12a"), None);
    assert_eq!(parse_usize("a12"), None);
    assert_eq!(parse_usize("+"), None);
    assert_eq!(parse_usize("++1"), None);
    assert_eq!(parse_usize("-0"), None);
    assert_eq!(parse_usize(""), None);
    assert_eq!(parse_usize("١"), None);
    let max = usize::MAX.to_string();
    assert_eq!(parse_usize(&max), Some(usize::MAX));
    assert_eq!(parse_usize(&format!("{}0", max)), None);
    assert_eq!(parse_usize("99999999999999999999999999x"), None);
    for text in ["7", "+7", "x", "", "18446744073709551616", " 3"] {
        assert_eq!(parse_usize(text), text.parse::<usize>().ok());
    }
}

#[test]
fn unicode_whitespace_is_trimmed() {
    assert_eq!(normalize_input("\u{3000}t\u{00A0}"), "T");
    assert_eq!(normalize_input("\u{2003}\t j \u{205F}"), "J");
}
