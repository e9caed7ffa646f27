//! The suspects, items and places of the game, and the nouns that name them.

use vstd::prelude::*;

use crate::chance::{random_index, shuffle};

verus! {

broadcast use vstd::seq_lib::group_to_multiset_ensures;

/// The nine people who may have taken the cat.
#[derive(Debug, Clone, Copy, PartialEq, Eq, Structural, Hash)]
pub enum Suspects {
    DukeHautdog,
    MaximumPowers,
    BillMonopolis,
    SenatorSchmear,
    MrsFeathertoss,
    DrJeanSplicer,
    RafflesTheClown,
    EspressaToffeepot,
    CecilEdgarVanderton,
}

/// The nine items a suspect may hold.
#[derive(Debug, Clone, Copy, PartialEq, Eq, Structural, Hash)]
pub enum Items {
    Flashlight,
    Candlestick,
    RainbowFlag,
    HamsterWheel,
    AnimeVhsTape,
    JarOfPickles,
    OneCowboyBoot,
    CleanUnerpants,
    FiveDollarGiftCard,
}

/// The nine places of the city, and the detective's taxi.
#[derive(Debug, Clone, Copy, PartialEq, Eq, Structural, Hash)]
pub enum Locations {
    Zoo,
    OldBarn,
    DuckPond,
    CityHall,
    HipsterCafe,
    BowlingAlley,
    VideoGameMuseum,
    UniversityLibrary,
    AlbinoAlligatorPit,
    Taxi,
}

/// Anything the detective can ask about or be told: a person, a place or a thing.
#[derive(Debug, Clone, Copy, PartialEq, Eq, Structural, Hash)]
pub enum Noun {
    Person(Suspects),
    Place(Locations),
    Thing(Items),
}

/// The position of a suspect in the order of declaration.
pub open spec fn suspect_id(s: Suspects) -> nat {
    match s {
        Suspects::DukeHautdog => 0,
        Suspects::MaximumPowers => 1,
        Suspects::BillMonopolis => 2,
        Suspects::SenatorSchmear => 3,
        Suspects::MrsFeathertoss => 4,
        Suspects::DrJeanSplicer => 5,
        Suspects::RafflesTheClown => 6,
        Suspects::EspressaToffeepot => 7,
        Suspects::CecilEdgarVanderton => 8,
    }
}

/// The position of an item in the order of declaration.
pub open spec fn item_id(i: Items) -> nat {
    match i {
        Items::Flashlight => 0,
        Items::Candlestick => 1,
        Items::RainbowFlag => 2,
        Items::HamsterWheel => 3,
        Items::AnimeVhsTape => 4,
        Items::JarOfPickles => 5,
        Items::OneCowboyBoot => 6,
        Items::CleanUnerpants => 7,
        Items::FiveDollarGiftCard => 8,
    }
}

/// The position of a location in the order of declaration.
pub open spec fn location_id(l: Locations) -> nat {
    match l {
        Locations::Zoo => 0,
        Locations::OldBarn => 1,
        Locations::DuckPond => 2,
        Locations::CityHall => 3,
        Locations::HipsterCafe => 4,
        Locations::BowlingAlley => 5,
        Locations::VideoGameMuseum => 6,
        Locations::UniversityLibrary => 7,
        Locations::AlbinoAlligatorPit => 8,
        Locations::Taxi => 9,
    }
}

/// A number below 28 that tells every noun apart: people first, then
/// locations, then things.
pub open spec fn noun_id(n: Noun) -> nat {
    match n {
        Noun::Person(s) => suspect_id(s),
        Noun::Place(l) => 9 + location_id(l),
        Noun::Thing(i) => 19 + item_id(i),
    }
}

/// Different nouns have different numbers.
pub proof fn lemma_noun_id_injective(a: Noun, b: Noun)
    ensures
        noun_id(a) < 28,
        noun_id(a) == noun_id(b) ==> a == b,
{
}

/// The printed name of a suspect.
pub open spec fn suspect_name(s: Suspects) -> Seq<char> {
    match s {
        Suspects::DukeHautdog => "DUKE HAUTDOG"@,
        Suspects::MaximumPowers => "MAXIMUM POWERS"@,
        Suspects::BillMonopolis => "BILL MONOPOLIS"@,
        Suspects::SenatorSchmear => "SENATOR SCHMEAR"@,
        Suspects::MrsFeathertoss => "MRS. FEATHERTOSS"@,
        Suspects::DrJeanSplicer => "DR. JEAN SPLICER"@,
        Suspects::RafflesTheClown => "RAFFLES THE CLOWN"@,
        Suspects::EspressaToffeepot => "ESPRESSA TOFFEEPOT"@,
        Suspects::CecilEdgarVanderton => "CECIL EDGAR VANDERTON"@,
    }
}

/// The printed name of an item.
pub open spec fn item_name(i: Items) -> Seq<char> {
    match i {
        Items::Flashlight => "FLASHLIGHT"@,
        Items::Candlestick => "CANDLESTICK"@,
        Items::RainbowFlag => "RAINBOW FLAG"@,
        Items::HamsterWheel => "HAMSTER WHEEL"@,
        Items::AnimeVhsTape => "ANIME VHS TAPE"@,
        Items::JarOfPickles => "JAR OF PICKLES"@,
        Items::OneCowboyBoot => "ONE COWBOY BOOT"@,
        Items::CleanUnerpants => "CLEAN UNDERPANTS"@,
        Items::FiveDollarGiftCard => "FIVE DOLLAR GIFT CARD"@,
    }
}

/// The printed name of a location.
pub open spec fn location_name(l: Locations) -> Seq<char> {
    match l {
        Locations::Zoo => "ZOO"@,
        Locations::OldBarn => "OLD BARN"@,
        Locations::DuckPond => "DUCK POND"@,
        Locations::CityHall => "CITY HALL"@,
        Locations::HipsterCafe => "HIPSTER CAFE"@,
        Locations::BowlingAlley => "BOWLING ALLEY"@,
        Locations::VideoGameMuseum => "VIDEO GAME MUSEUM"@,
        Locations::UniversityLibrary => "UNIVERSITY LIBRARY"@,
        Locations::AlbinoAlligatorPit => "ALBINO ALLIGATOR PIT"@,
        Locations::Taxi => "TAXI"@,
    }
}

/// The printed name of a noun: that of the person, place or thing it names.
pub open spec fn noun_name(n: Noun) -> Seq<char> {
    match n {
        Noun::Person(s) => suspect_name(s),
        Noun::Place(l) => location_name(l),
        Noun::Thing(i) => item_name(i),
    }
}

/// The printed names, one per suspect, item and place.
pub proof fn lemma_name_table()
    ensures
        suspect_name(Suspects::DukeHautdog) == "DUKE HAUTDOG"@,
        suspect_name(Suspects::MaximumPowers) == "MAXIMUM POWERS"@,
        suspect_name(Suspects::BillMonopolis) == "BILL MONOPOLIS"@,
        suspect_name(Suspects::SenatorSchmear) == "SENATOR SCHMEAR"@,
        suspect_name(Suspects::MrsFeathertoss) == "MRS. FEATHERTOSS"@,
        suspect_name(Suspects::DrJeanSplicer) == "DR. JEAN SPLICER"@,
        suspect_name(Suspects::RafflesTheClown) == "RAFFLES THE CLOWN"@,
        suspect_name(Suspects::EspressaToffeepot) == "ESPRESSA TOFFEEPOT"@,
        suspect_name(Suspects::CecilEdgarVanderton) == "CECIL EDGAR VANDERTON"@,
        item_name(Items::Flashlight) == "FLASHLIGHT"@,
        item_name(Items::Candlestick) == "CANDLESTICK"@,
        item_name(Items::RainbowFlag) == "RAINBOW FLAG"@,
        item_name(Items::HamsterWheel) == "HAMSTER WHEEL"@,
        item_name(Items::AnimeVhsTape) == "ANIME VHS TAPE"@,
        item_name(Items::JarOfPickles) == "JAR OF PICKLES"@,
        item_name(Items::OneCowboyBoot) == "ONE COWBOY BOOT"@,
        item_name(Items::CleanUnerpants) == "CLEAN UNDERPANTS"@,
        item_name(Items::FiveDollarGiftCard) == "FIVE DOLLAR GIFT CARD"@,
        location_name(Locations::Zoo) == "ZOO"@,
        location_name(Locations::OldBarn) == "OLD BARN"@,
        location_name(Locations::DuckPond) == "DUCK POND"@,
        location_name(Locations::CityHall) == "CITY HALL"@,
        location_name(Locations::HipsterCafe) == "HIPSTER CAFE"@,
        location_name(Locations::BowlingAlley) == "BOWLING ALLEY"@,
        location_name(Locations::VideoGameMuseum) == "VIDEO GAME MUSEUM"@,
        location_name(Locations::UniversityLibrary) == "UNIVERSITY LIBRARY"@,
        location_name(Locations::AlbinoAlligatorPit) == "ALBINO ALLIGATOR PIT"@,
        location_name(Locations::Taxi) == "TAXI"@,
{
}

/// No two nouns are printed alike: a printed name tells which suspect, item
/// or place it is.
pub proof fn lemma_names_tell_nouns_apart(a: Noun, b: Noun)
    ensures
        noun_name(a) == noun_name(b) ==> a == b,
{
        reveal_strlit("DUKE HAUTDOG");
        reveal_strlit("MAXIMUM POWERS");
        reveal_strlit("BILL MONOPOLIS");
        reveal_strlit("SENATOR SCHMEAR");
        reveal_strlit("MRS. FEATHERTOSS");
        reveal_strlit("DR. JEAN SPLICER");
        reveal_strlit("RAFFLES THE CLOWN");
        reveal_strlit("ESPRESSA TOFFEEPOT");
        reveal_strlit("CECIL EDGAR VANDERTON");
        reveal_strlit("FLASHLIGHT");
        reveal_strlit("CANDLESTICK");
        reveal_strlit("RAINBOW FLAG");
        reveal_strlit("HAMSTER WHEEL");
        reveal_strlit("ANIME VHS TAPE");
        reveal_strlit("JAR OF PICKLES");
        reveal_strlit("ONE COWBOY BOOT");
        reveal_strlit("CLEAN UNDERPANTS");
        reveal_strlit("FIVE DOLLAR GIFT CARD");
        reveal_strlit("ZOO");
        reveal_strlit("OLD BARN");
        reveal_strlit("DUCK POND");
        reveal_strlit("CITY HALL");
        reveal_strlit("HIPSTER CAFE");
        reveal_strlit("BOWLING ALLEY");
        reveal_strlit("VIDEO GAME MUSEUM");
        reveal_strlit("UNIVERSITY LIBRARY");
        reveal_strlit("ALBINO ALLIGATOR PIT");
        reveal_strlit("TAXI");
    if noun_name(a) == noun_name(b) {
        assert(noun_name(a).len() == noun_name(b).len());
        assert(noun_name(a)[0] == noun_name(b)[0]);
    }
}

/// No two suspects are printed alike.
pub proof fn lemma_suspect_names_distinct(a: Suspects, b: Suspects)
    ensures
        suspect_name(a) == suspect_name(b) ==> a == b,
{
    lemma_names_tell_nouns_apart(Noun::Person(a), Noun::Person(b));
}

/// All nine suspects, each once, in the order of declaration.
pub open spec fn suspect_roll() -> Seq<Noun> {
    seq![
        Noun::Person(Suspects::DukeHautdog),
        Noun::Person(Suspects::MaximumPowers),
        Noun::Person(Suspects::BillMonopolis),
        Noun::Person(Suspects::SenatorSchmear),
        Noun::Person(Suspects::MrsFeathertoss),
        Noun::Person(Suspects::DrJeanSplicer),
        Noun::Person(Suspects::RafflesTheClown),
        Noun::Person(Suspects::EspressaToffeepot),
        Noun::Person(Suspects::CecilEdgarVanderton),
    ]
}

/// All nine items, each once, in the order of declaration.
pub open spec fn item_roll() -> Seq<Noun> {
    seq![
        Noun::Thing(Items::Flashlight),
        Noun::Thing(Items::Candlestick),
        Noun::Thing(Items::RainbowFlag),
        Noun::Thing(Items::HamsterWheel),
        Noun::Thing(Items::AnimeVhsTape),
        Noun::Thing(Items::JarOfPickles),
        Noun::Thing(Items::OneCowboyBoot),
        Noun::Thing(Items::CleanUnerpants),
        Noun::Thing(Items::FiveDollarGiftCard),
    ]
}

/// The nine places a suspect can be found at, each once, in the order of
/// declaration; the taxi is not among them.
pub open spec fn site_roll() -> Seq<Noun> {
    seq![
        Noun::Place(Locations::Zoo),
        Noun::Place(Locations::OldBarn),
        Noun::Place(Locations::DuckPond),
        Noun::Place(Locations::CityHall),
        Noun::Place(Locations::HipsterCafe),
        Noun::Place(Locations::BowlingAlley),
        Noun::Place(Locations::VideoGameMuseum),
        Noun::Place(Locations::UniversityLibrary),
        Noun::Place(Locations::AlbinoAlligatorPit),
    ]
}

/// A place where a suspect can stand: any location but the taxi.
pub open spec fn is_site(n: Noun) -> bool {
    n is Place && n != Noun::Place(Locations::Taxi)
}

/// `s` lists every suspect exactly once, and nothing else.
pub open spec fn lists_every_suspect(s: Seq<Noun>) -> bool {
    &&& s.len() == 9
    &&& s.no_duplicates()
    &&& forall|i: int| 0 <= i < s.len() ==> s[i] is Person
    &&& forall|p: Suspects| s.contains(Noun::Person(p))
}

/// `s` lists every item exactly once, and nothing else.
pub open spec fn lists_every_item(s: Seq<Noun>) -> bool {
    &&& s.len() == 9
    &&& s.no_duplicates()
    &&& forall|i: int| 0 <= i < s.len() ==> s[i] is Thing
    &&& forall|t: Items| s.contains(Noun::Thing(t))
}

/// `s` lists every place but the taxi exactly once, and nothing else.
pub open spec fn lists_every_site(s: Seq<Noun>) -> bool {
    &&& s.len() == 9
    &&& s.no_duplicates()
    &&& forall|i: int| 0 <= i < s.len() ==> is_site(#[trigger] s[i])
    &&& forall|l: Locations| l != Locations::Taxi ==> s.contains(Noun::Place(l))
}

/// `s` holds `n` distinct suspects.
pub open spec fn is_suspect_sample(s: Seq<Noun>, n: nat) -> bool {
    &&& s.len() == n
    &&& s.no_duplicates()
    &&& forall|i: int| 0 <= i < s.len() ==> s[i] is Person
}

/// Each draw is below the number of entries left when it is made: draw `k`
/// picks among `size - k` entries.
pub open spec fn valid_draws(draws: Seq<usize>, size: nat) -> bool {
    forall|k: int| 0 <= k < draws.len() ==> #[trigger] draws[k] < size - k
}

/// The entries taken out of `source` one after the other, the `k`-th being
/// entry `draws[k]` of those not taken yet.
pub open spec fn drawn_from(source: Seq<Noun>, draws: Seq<usize>) -> Seq<Noun>
    decreases draws.len(),
{
    if draws.len() == 0 {
        Seq::empty()
    } else {
        seq![source[draws[0] as int]] + drawn_from(source.remove(draws[0] as int), draws.drop_first())
    }
}

/// Any sequence of distinct entries of a list of distinct entries can be
/// taken out of it by some draws.
pub proof fn lemma_every_draw_reachable(source: Seq<Noun>, s: Seq<Noun>) -> (draws: Seq<usize>)
    requires
        source.no_duplicates(),
        source.len() <= usize::MAX,
        s.no_duplicates(),
        forall|i: int| 0 <= i < s.len() ==> source.contains(#[trigger] s[i]),
    ensures
        draws.len() == s.len(),
        valid_draws(draws, source.len()),
        drawn_from(source, draws) == s,
    decreases s.len(),
{
    if s.len() == 0 {
        let draws = Seq::<usize>::empty();
        assert(drawn_from(source, draws) =~= s);
        draws
    } else {
        assert(source.contains(s[0]));
        let i0 = source.index_of(s[0]);
        let rest_source = source.remove(i0);
        assert forall|a: int, b: int|
            0 <= a < b < rest_source.len() implies rest_source[a] != rest_source[b] by {
            assert(rest_source[a] == source[if a < i0 { a } else { a + 1 }]);
            assert(rest_source[b] == source[if b < i0 { b } else { b + 1 }]);
        }
        let tail = s.drop_first();
        assert forall|i: int| 0 <= i < tail.len() implies rest_source.contains(#[trigger] tail[i]) by {
            assert(tail[i] == s[i + 1]);
            assert(source.contains(s[i + 1]));
            let m = choose|m: int| 0 <= m < source.len() && source[m] == s[i + 1];
            assert(m != i0);
            let mm = if m < i0 { m } else { m - 1 };
            assert(rest_source[mm] == s[i + 1]);
        }
        let rest = lemma_every_draw_reachable(rest_source, tail);
        let draws = seq![i0 as usize] + rest;
        assert(draws.drop_first() =~= rest);
        assert forall|k: int| 0 <= k < draws.len() implies #[trigger] draws[k] < source.len() - k by {
            if k > 0 {
                assert(draws[k] == rest[k - 1]);
            }
        }
        assert(drawn_from(source, draws) =~= s);
        draws
    }
}

/// Every choice of distinct suspects, in every order, can come out of a
/// sample: some draws take exactly it out of the declared order.
pub proof fn lemma_every_sample_reachable(s: Seq<Noun>)
    requires
        s.no_duplicates(),
        forall|i: int| 0 <= i < s.len() ==> s[i] is Person,
    ensures
        exists|draws: Seq<usize>|
            draws.len() == s.len() && valid_draws(draws, 9) && s == #[trigger] drawn_from(
                suspect_roll(),
                draws,
            ),
{
    lemma_suspect_roll_complete();
    assert forall|i: int| 0 <= i < s.len() implies suspect_roll().contains(#[trigger] s[i]) by {
        assert(s[i] is Person);
        assert(suspect_roll().contains(Noun::Person(s[i]->Person_0)));
    }
    let draws = lemma_every_draw_reachable(suspect_roll(), s);
    assert(drawn_from(suspect_roll(), draws) == s);
}

/// A permutation keeps the length, distinctness and membership of a sequence.
proof fn lemma_permutation_keeps<A>(s: Seq<A>, t: Seq<A>)
    requires
        t.to_multiset() == s.to_multiset(),
    ensures
        t.len() == s.len(),
        s.no_duplicates() ==> t.no_duplicates(),
        forall|x: A| t.contains(x) <==> s.contains(x),
{
    assert(t.len() == t.to_multiset().len() && s.len() == s.to_multiset().len());
    if s.no_duplicates() {
        s.lemma_multiset_has_no_duplicates();
        t.lemma_multiset_has_no_duplicates_conv();
    }
    assert forall|x: A| t.contains(x) <==> s.contains(x) by {
        assert(t.contains(x) <==> t.to_multiset().count(x) > 0);
        assert(s.contains(x) <==> s.to_multiset().count(x) > 0);
    }
}

impl Suspects {
    /// The position of this suspect in the order of declaration.
    pub fn id(&self) -> (r: u8)
        ensures
            r == suspect_id(*self),
    {
        match self {
            Suspects::DukeHautdog => 0,
            Suspects::MaximumPowers => 1,
            Suspects::BillMonopolis => 2,
            Suspects::SenatorSchmear => 3,
            Suspects::MrsFeathertoss => 4,
            Suspects::DrJeanSplicer => 5,
            Suspects::RafflesTheClown => 6,
            Suspects::EspressaToffeepot => 7,
            Suspects::CecilEdgarVanderton => 8,
        }
    }

    /// The name under which the suspect is printed.
    pub fn name(&self) -> (r: &'static str)
        ensures
            r@ == suspect_name(*self),
    {
        match self {
            Suspects::DukeHautdog => "DUKE HAUTDOG",
            Suspects::MaximumPowers => "MAXIMUM POWERS",
            Suspects::BillMonopolis => "BILL MONOPOLIS",
            Suspects::SenatorSchmear => "SENATOR SCHMEAR",
            Suspects::MrsFeathertoss => "MRS. FEATHERTOSS",
            Suspects::DrJeanSplicer => "DR. JEAN SPLICER",
            Suspects::RafflesTheClown => "RAFFLES THE CLOWN",
            Suspects::EspressaToffeepot => "ESPRESSA TOFFEEPOT",
            Suspects::CecilEdgarVanderton => "CECIL EDGAR VANDERTON",
        }
    }
}

impl Items {
    /// The position of this item in the order of declaration.
    pub fn id(&self) -> (r: u8)
        ensures
            r == item_id(*self),
    {
        match self {
            Items::Flashlight => 0,
            Items::Candlestick => 1,
            Items::RainbowFlag => 2,
            Items::HamsterWheel => 3,
            Items::AnimeVhsTape => 4,
            Items::JarOfPickles => 5,
            Items::OneCowboyBoot => 6,
            Items::CleanUnerpants => 7,
            Items::FiveDollarGiftCard => 8,
        }
    }

    /// The name under which the item is printed.
    pub fn name(&self) -> (r: &'static str)
        ensures
            r@ == item_name(*self),
    {
        match self {
            Items::Flashlight => "FLASHLIGHT",
            Items::Candlestick => "CANDLESTICK",
            Items::RainbowFlag => "RAINBOW FLAG",
            Items::HamsterWheel => "HAMSTER WHEEL",
            Items::AnimeVhsTape => "ANIME VHS TAPE",
            Items::JarOfPickles => "JAR OF PICKLES",
            Items::OneCowboyBoot => "ONE COWBOY BOOT",
            Items::CleanUnerpants => "CLEAN UNDERPANTS",
            Items::FiveDollarGiftCard => "FIVE DOLLAR GIFT CARD",
        }
    }
}

impl Locations {
    /// The position of this location in the order of declaration.
    pub fn id(&self) -> (r: u8)
        ensures
            r == location_id(*self),
    {
        match self {
            Locations::Zoo => 0,
            Locations::OldBarn => 1,
            Locations::DuckPond => 2,
            Locations::CityHall => 3,
            Locations::HipsterCafe => 4,
            Locations::BowlingAlley => 5,
            Locations::VideoGameMuseum => 6,
            Locations::UniversityLibrary => 7,
            Locations::AlbinoAlligatorPit => 8,
            Locations::Taxi => 9,
        }
    }

    /// The name under which the location is printed.
    pub fn name(&self) -> (r: &'static str)
        ensures
            r@ == location_name(*self),
    {
        match self {
            Locations::Zoo => "ZOO",
            Locations::OldBarn => "OLD BARN",
            Locations::DuckPond => "DUCK POND",
            Locations::CityHall => "CITY HALL",
            Locations::HipsterCafe => "HIPSTER CAFE",
            Locations::BowlingAlley => "BOWLING ALLEY",
            Locations::VideoGameMuseum => "VIDEO GAME MUSEUM",
            Locations::UniversityLibrary => "UNIVERSITY LIBRARY",
            Locations::AlbinoAlligatorPit => "ALBINO ALLIGATOR PIT",
            Locations::Taxi => "TAXI",
        }
    }
}

impl Noun {
    /// The number that tells this noun apart from every other.
    pub fn id(&self) -> (r: u8)
        ensures
            r == noun_id(*self),
            r < 28,
    {
        match self {
            Noun::Person(s) => s.id(),
            Noun::Place(l) => 9 + l.id(),
            Noun::Thing(i) => 19 + i.id(),
        }
    }

    /// The name under which the noun is printed.
    pub fn name(&self) -> (r: &'static str)
        ensures
            r@ == noun_name(*self),
    {
        match self {
            Noun::Person(s) => s.name(),
            Noun::Place(l) => l.name(),
            Noun::Thing(i) => i.name(),
        }
    }
}

/// The declared order of the suspects lists each of them once.
proof fn lemma_suspect_roll_complete()
    ensures
        lists_every_suspect(suspect_roll()),
{
    let s = suspect_roll();
    assert forall|p: Suspects| s.contains(Noun::Person(p)) by {
        assert(s[suspect_id(p) as int] == Noun::Person(p));
    }
}

/// The declared order of the items lists each of them once.
proof fn lemma_item_roll_complete()
    ensures
        lists_every_item(item_roll()),
{
    let s = item_roll();
    assert forall|t: Items| s.contains(Noun::Thing(t)) by {
        assert(s[item_id(t) as int] == Noun::Thing(t));
    }
}

/// The declared order of the places lists each of them once.
proof fn lemma_site_roll_complete()
    ensures
        lists_every_site(site_roll()),
{
    let s = site_roll();
    assert forall|l: Locations| l != Locations::Taxi implies s.contains(Noun::Place(l)) by {
        assert(s[location_id(l) as int] == Noun::Place(l));
    }
}

impl Suspects {
    /// Every suspect once, in the order of declaration.
    pub fn roll() -> (r: Vec<Noun>)
        ensures
            r@ == suspect_roll(),
    {
        vec![
            Noun::Person(Suspects::DukeHautdog),
            Noun::Person(Suspects::MaximumPowers),
            Noun::Person(Suspects::BillMonopolis),
            Noun::Person(Suspects::SenatorSchmear),
            Noun::Person(Suspects::MrsFeathertoss),
            Noun::Person(Suspects::DrJeanSplicer),
            Noun::Person(Suspects::RafflesTheClown),
            Noun::Person(Suspects::EspressaToffeepot),
            Noun::Person(Suspects::CecilEdgarVanderton),
        ]
    }

    /// Takes suspects out of the declared order one after the other: the
    /// `k`-th taken is entry `draws[k]` of those not taken yet.
    pub fn sample_with(draws: &Vec<usize>) -> (r: Vec<Noun>)
        requires
            draws@.len() <= 9,
            valid_draws(draws@, 9),
        ensures
            r@ == drawn_from(suspect_roll(), draws@),
            is_suspect_sample(r@, draws@.len()),
    {
        let n = draws.len();
        let mut source = Suspects::roll();
        let mut suspects: Vec<Noun> = Vec::new();
        proof {
            lemma_suspect_roll_complete();
            assert(draws@.subrange(0, n as int) =~= draws@);
            assert(suspects@ + drawn_from(source@, draws@) =~= drawn_from(source@, draws@));
        }
        let mut i: usize = 0;
        while i < n
            invariant
                i <= n <= 9,
                n == draws@.len(),
                valid_draws(draws@, 9),
                drawn_from(suspect_roll(), draws@) == suspects@ + drawn_from(
                    source@,
                    draws@.subrange(i as int, n as int),
                ),
                suspects@.len() == i,
                suspects@.len() + source@.len() == 9,
                is_suspect_sample(suspects@, i as nat),
                source@.no_duplicates(),
                forall|k: int| 0 <= k < source@.len() ==> source@[k] is Person,
                forall|a: int, b: int|
                    0 <= a < suspects@.len() && 0 <= b < source@.len() ==> suspects@[a]
                        != source@[b],
            decreases n - i,
        {
            let ghost before = source@;
            let k = draws[i];
            proof {
                let rest = draws@.subrange(i as int, n as int);
                assert(rest[0] == k);
                assert(rest.drop_first() =~= draws@.subrange(i + 1, n as int));
            }
            let suspect = source.remove(k);
            proof {
                assert forall|b: int| 0 <= b < source@.len() implies source@[b] == before[if b
                    < k { b } else { b + 1 }] by {}
                assert forall|a: int, b: int|
                    0 <= a < b < source@.len() implies source@[a] != source@[b] by {
                    assert(source@[a] == before[if a < k { a } else { a + 1 }]);
                    assert(source@[b] == before[if b < k { b } else { b + 1 }]);
                }
            }
            let ghost prev = suspects@;
            suspects.push(suspect);
            proof {
                assert forall|a: int| 0 <= a < prev.len() implies suspects@[a] != suspect by {
                    assert(suspects@[a] == prev[a]);
                    assert(before[k as int] == suspect);
                }
                assert forall|a: int, b: int|
                    0 <= a < suspects@.len() && 0 <= b < source@.len() implies suspects@[a]
                        != source@[b] by {
                    let ob = if b < k { b } else { b + 1 };
                    assert(source@[b] == before[ob]);
                    if a < prev.len() {
                        assert(suspects@[a] == prev[a]);
                    } else {
                        assert(suspects@[a] == before[k as int]);
                    }
                }
                assert forall|a: int, b: int|
                    0 <= a < b < suspects@.len() implies suspects@[a] != suspects@[b] by {
                    if b < prev.len() {
                        assert(suspects@[a] == prev[a]);
                        assert(suspects@[b] == prev[b]);
                    }
                }
            }
            proof {
                assert(drawn_from(suspect_roll(), draws@) == suspects@ + drawn_from(
                    source@,
                    draws@.subrange(i + 1, n as int),
                )) by {
                    let tail = drawn_from(source@, draws@.subrange(i + 1, n as int));
                    assert(prev + (seq![suspect] + tail) =~= suspects@ + tail);
                }
            }
            i = i + 1;
        }
        proof {
            assert(draws@.subrange(n as int, n as int) =~= Seq::<usize>::empty());
            assert(suspects@ + Seq::<Noun>::empty() =~= suspects@);
        }
        suspects
    }

    /// Draws `n` distinct suspects at random, one after the other, each
    /// uniformly from those not drawn yet.
    pub fn random_sample(n: usize) -> (r: Vec<Noun>)
        requires
            n <= 9,
        ensures
            is_suspect_sample(r@, n as nat),
            exists|draws: Seq<usize>|
                draws.len() == n && valid_draws(draws, 9) && r@ == #[trigger] drawn_from(
                    suspect_roll(),
                    draws,
                ),
    {
        let mut draws: Vec<usize> = Vec::new();
        let mut k: usize = 0;
        while k < n
            invariant
                k <= n <= 9,
                draws@.len() == k,
                valid_draws(draws@, 9),
            decreases n - k,
        {
            let d = random_index(9 - k);
            draws.push(d);
            k = k + 1;
        }
        let r = Suspects::sample_with(&draws);
        proof {
            assert(drawn_from(suspect_roll(), draws@) == r@);
        }
        r
    }

    /// Every suspect once, in an order drawn at random.
    pub fn get_shuffled_list() -> (r: Vec<Noun>)
        ensures
            lists_every_suspect(r@),
    {
        let mut source = Suspects::roll();
        let ghost before = source@;
        shuffle(&mut source);
        proof {
            lemma_suspect_roll_complete();
            lemma_permutation_keeps(before, source@);
            assert forall|i: int| 0 <= i < source@.len() implies source@[i] is Person by {
                assert(source@.contains(source@[i]));
            }
        }
        source
    }
}

impl Items {
    /// Every item once, in the order of declaration.
    pub fn roll() -> (r: Vec<Noun>)
        ensures
            r@ == item_roll(),
    {
        vec![
            Noun::Thing(Items::Flashlight),
            Noun::Thing(Items::Candlestick),
            Noun::Thing(Items::RainbowFlag),
            Noun::Thing(Items::HamsterWheel),
            Noun::Thing(Items::AnimeVhsTape),
            Noun::Thing(Items::JarOfPickles),
            Noun::Thing(Items::OneCowboyBoot),
            Noun::Thing(Items::CleanUnerpants),
            Noun::Thing(Items::FiveDollarGiftCard),
        ]
    }

    /// Every item once, in an order drawn at random.
    pub fn get_shuffled_list() -> (r: Vec<Noun>)
        ensures
            lists_every_item(r@),
    {
        let mut source = Items::roll();
        let ghost before = source@;
        shuffle(&mut source);
        proof {
            lemma_item_roll_complete();
            lemma_permutation_keeps(before, source@);
            assert forall|i: int| 0 <= i < source@.len() implies source@[i] is Thing by {
                assert(source@.contains(source@[i]));
            }
        }
        source
    }
}

impl Locations {
    /// Every place but the taxi once, in the order of declaration.
    pub fn roll() -> (r: Vec<Noun>)
        ensures
            r@ == site_roll(),
    {
        vec![
            Noun::Place(Locations::Zoo),
            Noun::Place(Locations::OldBarn),
            Noun::Place(Locations::DuckPond),
            Noun::Place(Locations::CityHall),
            Noun::Place(Locations::HipsterCafe),
            Noun::Place(Locations::BowlingAlley),
            Noun::Place(Locations::VideoGameMuseum),
            Noun::Place(Locations::UniversityLibrary),
            Noun::Place(Locations::AlbinoAlligatorPit),
        ]
    }

    /// Every place but the taxi once, in an order drawn at random.
    pub fn get_shuffled_list() -> (r: Vec<Noun>)
        ensures
            lists_every_site(r@),
    {
        let mut source = Locations::roll();
        let ghost before = source@;
        shuffle(&mut source);
        proof {
            lemma_site_roll_complete();
            lemma_permutation_keeps(before, source@);
            assert forall|i: int| 0 <= i < source@.len() implies is_site(#[trigger] source@[i]) by {
                assert(source@.contains(source@[i]));
            }
        }
        source
    }
}

} // verus!
