//! Jokers: the catalogue of kinds and the editions a joker can have.
use vstd::prelude::*;
use crate::cards::{Rank, Suit};
use crate::hands::PokerHandKind;

verus! {

/// A factor counted in hundredths: `Hundredths(125)` stands for 1.25.
#[derive(Clone, Copy, Debug, PartialEq, Eq, Hash, Structural)]
pub struct Hundredths(pub u64);

/// The edition of a joker.
#[derive(Clone, Copy, Debug, PartialEq, Eq, Hash, Structural)]
pub enum JokerEdition {
    Foil,
    Holographic,
    Polychrome,
    Negative,
}

/// Every kind of joker, with the numbers that scoring reads from it.
///
/// `chips` and `mult` are whole amounts that the joker has built up. `xmult`
/// is the joker's current factor: a whole number for `Stencil`, hundredths for
/// the others.
#[allow(inconsistent_fields)]
#[derive(Clone, Copy, Debug, PartialEq, Eq, Hash, Structural)]
pub enum JokerKind {
    Joker,
    GreedyJoker,
    LustyJoker,
    WrathfulJoker,
    GluttenousJoker,
    Jolly,
    Zany,
    Mad,
    Crazy,
    Droll,
    Sly,
    Wily,
    Clever,
    Devious,
    Crafty,
    Half,
    EightBall,
    Stencil { xmult: u64 },
    FourFingers,
    Mime,
    CreditCard,
    Ceremonial { mult: u64 },
    Banner,
    MysticSummit,
    Marble,
    LoyaltyCard { left: u64 },
    Misprint,
    Dusk,
    RaisedFist,
    Chaos,
    Fibonacci,
    SteelJoker { xmult: Hundredths },
    ScaryFace,
    Abstract { mult: u64 },
    DelayedGrat,
    Hack,
    Pareidolia,
    GrosMichel,
    EvenSteven,
    OddTodd,
    Scholar,
    Business,
    Supernova,
    RideTheBus,
    Space,
    Egg,
    Burglar,
    Blackboard,
    Runner { chips: u64 },
    IceCream { chips: u64 },
    Dna,
    Splash,
    BlueJoker { chips: u64 },
    SixthSense,
    Constellation { xmult: Hundredths },
    Hiker,
    Faceless,
    GreenJoker { mult: u64 },
    Superposition,
    TodoList { poker_hand: PokerHandKind },
    Cavendish,
    CardSharp,
    RedCard { mult: u64 },
    Madness { xmult: Hundredths },
    Square { chips: u64 },
    Seance,
    RiffRaff,
    Vampire { xmult: Hundredths },
    Shortcut,
    Hologram { xmult: Hundredths },
    Vagabond,
    Baron,
    Cloud9,
    Rocket,
    Obelisk { xmult: Hundredths },
    MidasMask,
    Luchador,
    Photograph,
    Gift,
    TurtleBean,
    Erosion { mult: u64 },
    ReservedParking,
    Mail,
    ToTheMoon,
    Hallucination,
    FortuneTeller { mult: u64 },
    Juggler,
    Drunkard,
    Stone { chips: u64 },
    Golden,
    LuckyCat,
    Baseball,
    Bull,
    DietCola,
    Trading,
    Flash { mult: u64 },
    Popcorn { mult: u64 },
    Trousers { mult: u64 },
    Ancient { suit: Suit },
    Ramen { xmult: Hundredths },
    WalkieTalkie,
    Selzer,
    Castle { chips: u64 },
    Smiley,
    Campfire { xmult: Hundredths },
    Ticket,
    MrBones,
    Acrobat,
    SockAndBuskin,
    Swashbuckler { mult: u64 },
    Troubadour,
    Certificate,
    Smeared,
    Throwback { xmult: Hundredths },
    HangingChad,
    RoughGem,
    Bloodstone,
    Arrowhead,
    OnyxAgate,
    Glass { xmult: Hundredths },
    RingMaster,
    FlowerPot,
    Blueprint,
    Wee { chips: u64 },
    MerryAndy,
    Oops,
    Idol { rank: Rank, suit: Suit },
    SeeingDouble,
    Matador,
    HitTheRoad { xmult: Hundredths },
    Duo,
    Trio,
    Family,
    Order,
    Tribe,
    Stuntman,
    Invisible,
    Brainstorm,
    Satellite,
    ShootTheMoon,
    DriversLicense { cards: u64 },
    Cartomancer,
    Astronomer,
    Burnt,
    Bootstraps { mult: u64 },
    Caino { xmult: Hundredths },
    Triboulet,
    Yorick { xmult: Hundredths },
    Chicot,
    Perkeo,
}

/// A joker as held by the player.
#[derive(Clone, Copy, Debug, PartialEq, Eq, Hash, Structural)]
pub struct Joker {
    pub kind: JokerKind,
    pub edition: Option<JokerEdition>,
}

impl Joker {
    /// A joker of the given kind without an edition.
    pub fn plain(kind: JokerKind) -> (joker: Joker)
        ensures
            joker == (Joker { kind, edition: None }),
    {
        Joker { kind, edition: None }
    }
}

} // verus!
