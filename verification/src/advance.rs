use vstd::prelude::*;

use crate::city_pieces::Building;
use crate::resource_pile::{empty_pile, ResourcePile};
use crate::ordered::{is_sorted_set, set_insert, set_remove};

verus! {

/// The advances of the game, four per group; the group of an advance is its number
/// divided by four.
#[derive(Clone, Copy, Debug, PartialEq, Eq, Structural)]
pub enum Advance {
    Farming,
    Storage,
    Irrigation,
    Husbandry,
    Mining,
    Engineering,
    Sanitation,
    Roads,
    Fishing,
    Navigation,
    WarShips,
    Cartography,
    Writing,
    PublicEducation,
    FreeEducation,
    Philosophy,
    Tactics,
    Siegecraft,
    SteelWeapons,
    Draft,
    Myths,
    Rituals,
    Priesthood,
    StateReligion,
    Bartering,
    TradeRoutes,
    Taxes,
    Currency,
    Arts,
    Sports,
    Monuments,
    Theaters,
    Math,
    Astronomy,
    Medicine,
    Metallurgy,
    Voting,
    SeparationOfPower,
    CivilLiberties,
    FreeEconomy,
    Nationalism,
    Totalitarianism,
    AbsolutePower,
    ForcedLabor,
    Dogma,
    Devotion,
    Conversion,
    Fanaticism,
}

/// The number of an advance, in the order of the groups.
pub open spec fn advance_number(a: Advance) -> int {
    match a {
        Advance::Farming => 0,
        Advance::Storage => 1,
        Advance::Irrigation => 2,
        Advance::Husbandry => 3,
        Advance::Mining => 4,
        Advance::Engineering => 5,
        Advance::Sanitation => 6,
        Advance::Roads => 7,
        Advance::Fishing => 8,
        Advance::Navigation => 9,
        Advance::WarShips => 10,
        Advance::Cartography => 11,
        Advance::Writing => 12,
        Advance::PublicEducation => 13,
        Advance::FreeEducation => 14,
        Advance::Philosophy => 15,
        Advance::Tactics => 16,
        Advance::Siegecraft => 17,
        Advance::SteelWeapons => 18,
        Advance::Draft => 19,
        Advance::Myths => 20,
        Advance::Rituals => 21,
        Advance::Priesthood => 22,
        Advance::StateReligion => 23,
        Advance::Bartering => 24,
        Advance::TradeRoutes => 25,
        Advance::Taxes => 26,
        Advance::Currency => 27,
        Advance::Arts => 28,
        Advance::Sports => 29,
        Advance::Monuments => 30,
        Advance::Theaters => 31,
        Advance::Math => 32,
        Advance::Astronomy => 33,
        Advance::Medicine => 34,
        Advance::Metallurgy => 35,
        Advance::Voting => 36,
        Advance::SeparationOfPower => 37,
        Advance::CivilLiberties => 38,
        Advance::FreeEconomy => 39,
        Advance::Nationalism => 40,
        Advance::Totalitarianism => 41,
        Advance::AbsolutePower => 42,
        Advance::ForcedLabor => 43,
        Advance::Dogma => 44,
        Advance::Devotion => 45,
        Advance::Conversion => 46,
        Advance::Fanaticism => 47,
    }
}

/// The advance with a given number (0 to 47).
pub open spec fn advance_at(n: int) -> Advance {
    if n == 0 {
        Advance::Farming
    } else if n == 1 {
        Advance::Storage
    } else if n == 2 {
        Advance::Irrigation
    } else if n == 3 {
        Advance::Husbandry
    } else if n == 4 {
        Advance::Mining
    } else if n == 5 {
        Advance::Engineering
    } else if n == 6 {
        Advance::Sanitation
    } else if n == 7 {
        Advance::Roads
    } else if n == 8 {
        Advance::Fishing
    } else if n == 9 {
        Advance::Navigation
    } else if n == 10 {
        Advance::WarShips
    } else if n == 11 {
        Advance::Cartography
    } else if n == 12 {
        Advance::Writing
    } else if n == 13 {
        Advance::PublicEducation
    } else if n == 14 {
        Advance::FreeEducation
    } else if n == 15 {
        Advance::Philosophy
    } else if n == 16 {
        Advance::Tactics
    } else if n == 17 {
        Advance::Siegecraft
    } else if n == 18 {
        Advance::SteelWeapons
    } else if n == 19 {
        Advance::Draft
    } else if n == 20 {
        Advance::Myths
    } else if n == 21 {
        Advance::Rituals
    } else if n == 22 {
        Advance::Priesthood
    } else if n == 23 {
        Advance::StateReligion
    } else if n == 24 {
        Advance::Bartering
    } else if n == 25 {
        Advance::TradeRoutes
    } else if n == 26 {
        Advance::Taxes
    } else if n == 27 {
        Advance::Currency
    } else if n == 28 {
        Advance::Arts
    } else if n == 29 {
        Advance::Sports
    } else if n == 30 {
        Advance::Monuments
    } else if n == 31 {
        Advance::Theaters
    } else if n == 32 {
        Advance::Math
    } else if n == 33 {
        Advance::Astronomy
    } else if n == 34 {
        Advance::Medicine
    } else if n == 35 {
        Advance::Metallurgy
    } else if n == 36 {
        Advance::Voting
    } else if n == 37 {
        Advance::SeparationOfPower
    } else if n == 38 {
        Advance::CivilLiberties
    } else if n == 39 {
        Advance::FreeEconomy
    } else if n == 40 {
        Advance::Nationalism
    } else if n == 41 {
        Advance::Totalitarianism
    } else if n == 42 {
        Advance::AbsolutePower
    } else if n == 43 {
        Advance::ForcedLabor
    } else if n == 44 {
        Advance::Dogma
    } else if n == 45 {
        Advance::Devotion
    } else if n == 46 {
        Advance::Conversion
    } else {
        Advance::Fanaticism
    }
}

/// The name of an advance.
pub open spec fn spec_advance_name(a: Advance) -> Seq<char> {
    match a {
        Advance::Farming => "Farming"@,
        Advance::Storage => "Storage"@,
        Advance::Irrigation => "Irrigation"@,
        Advance::Husbandry => "Husbandry"@,
        Advance::Mining => "Mining"@,
        Advance::Engineering => "Engineering"@,
        Advance::Sanitation => "Sanitation"@,
        Advance::Roads => "Roads"@,
        Advance::Fishing => "Fishing"@,
        Advance::Navigation => "Navigation"@,
        Advance::WarShips => "WarShips"@,
        Advance::Cartography => "Cartography"@,
        Advance::Writing => "Writing"@,
        Advance::PublicEducation => "Public Education"@,
        Advance::FreeEducation => "Free Education"@,
        Advance::Philosophy => "Philosophy"@,
        Advance::Tactics => "Tactics"@,
        Advance::Siegecraft => "Siegecraft"@,
        Advance::SteelWeapons => "Steel Weapons"@,
        Advance::Draft => "Draft"@,
        Advance::Myths => "Myths"@,
        Advance::Rituals => "Rituals"@,
        Advance::Priesthood => "Priesthood"@,
        Advance::StateReligion => "State Religion"@,
        Advance::Bartering => "Bartering"@,
        Advance::TradeRoutes => "Trade Routes"@,
        Advance::Taxes => "Taxes"@,
        Advance::Currency => "Currency"@,
        Advance::Arts => "Arts"@,
        Advance::Sports => "Sports"@,
        Advance::Monuments => "Monuments"@,
        Advance::Theaters => "Theaters"@,
        Advance::Math => "Math"@,
        Advance::Astronomy => "Astronomy"@,
        Advance::Medicine => "Medicine"@,
        Advance::Metallurgy => "Metallurgy"@,
        Advance::Voting => "Voting"@,
        Advance::SeparationOfPower => "Separation of Power"@,
        Advance::CivilLiberties => "Civil Liberties"@,
        Advance::FreeEconomy => "Free Economy"@,
        Advance::Nationalism => "Nationalism"@,
        Advance::Totalitarianism => "Totalitarianism"@,
        Advance::AbsolutePower => "Absolute Power"@,
        Advance::ForcedLabor => "Forced Labor"@,
        Advance::Dogma => "Dogma"@,
        Advance::Devotion => "Devotion"@,
        Advance::Conversion => "Conversion"@,
        Advance::Fanaticism => "Fanaticism"@,
    }
}

/// The rules text of an advance.
pub open spec fn spec_advance_description(a: Advance) -> Seq<char> {
    match a {
        Advance::Farming => "Your cities may Collect food from Grassland and wood from Forest spaces"@,
        Advance::Storage => "Your maximum food limit is increased from 2 to 7"@,
        Advance::Irrigation => "Your cities may Collect food from Barren spaces, Ignore Famine events"@,
        Advance::Husbandry => "During a Collect Resources Action, you may collect from a Land space that is 2 Land spaces away, rather than 1. If you have the Roads Advance you may collect from two Land spaces that are 2 Land spaces away. This Advance can only be used once per turn."@,
        Advance::Mining => "Your cities may Collect ore from Mountain spaces"@,
        Advance::Engineering => "Immediately draw 1 wonder card. May Construct wonders in happy cities"@,
        Advance::Sanitation => "When Recruiting, you may spend 1 mood token to pay for 1 Settler. Ignore Pestilence and Epidemics events."@,
        Advance::Roads => "When moving from or to a city, you may pay 1 food and 1 ore to extend the range of a group of land units by 1 and ignore terrain effects. May not be used to embark, disembark, or explore"@,
        Advance::Fishing => "Your cities may Collect food from one Sea space"@,
        Advance::Navigation => "Ships may leave the map and return at the next sea space"@,
        Advance::WarShips => "Ignore the first hit it the first round of combat when attacking with Ships or disembarking from Ships"@,
        Advance::Cartography => "Gain 1 idea after a move action where you moved a Ship. If you used navigation, gain an additional 1 culture token."@,
        Advance::Writing => "Gain 1 action and 1 objective card"@,
        Advance::PublicEducation => "Once per turn, when you collect resources in a city with an Academy, gain 1 idea"@,
        Advance::FreeEducation => "After you buy an Advance by paying for it with at least 1 gold or 1 idea, you may pay an extra 1 idea to gain 1 mood token"@,
        Advance::Philosophy => "Immediately gain 1 idea. Gain 1 idea after getting a Science advance"@,
        Advance::Tactics => "May Move Army units, May use Tactics on Action Cards"@,
        Advance::Siegecraft => "When attacking a city with a Fortress, pay 2 wood to cancel the Fortress’ ability to add +1 die and/or pay 2 ore to ignore its ability to cancel a hit."@,
        Advance::SteelWeapons => "Immediately before a Land battle starts, you may pay 1 ore to get +2 combat value in every Combat Round against an enemy that does not have the Steel Weapons advance. If the enemy also has Steel Weapons, you only +1 combat value, even if the enemy does not use the ability."@,
        Advance::Draft => "When Recruiting, you may spend 1 mood token to pay for 1 Infantry Army Unit."@,
        Advance::Myths => "Whenever an Event card asks you have to reduce the mood in a city, you may pay 1 mood token instead of reducing the mood (does not apply for Pirates)."@,
        Advance::Rituals => "When you perform the Increase Happiness Action you may spend any Resources as a substitute for mood tokens. This is done at a 1:1 ratio"@,
        Advance::Priesthood => "Once per turn, a science advance is free"@,
        Advance::StateReligion => "Once per turn, when constructing a Temple, do not pay any Food."@,
        Advance::Bartering => "Once per turn, as a free action, you may spend discard an action card for 1 gold or 1 culture token."@,
        Advance::TradeRoutes => "At the beginning of your turn, you gain 1 food for every trade route you can make, to a maximum of 4. A trade route is made between one of your Settlers or Ships and a non-Angry enemy player city within 2 spaces (without counting through unrevealed Regions). Each Settler or Ship can only be paired with one enemy player city. Likewise, each enemy player city must be paired with a different Settler or Ship. In other words, to gain X food you must have at least X Units (Settlers or Ships), each paired with X different enemy cities."@,
        Advance::Taxes => "Once per turn, as an action, you may spend 1 mood token to gain food, wood, or ore equal to the number of cities you control. If you have the Currency advance, you may gain gold instead of food, wood, or ore."@,
        Advance::Currency => "You may collect gold instead of food for Trade Routes and Taxes"@,
        Advance::Arts => "Once per turn, as a free action, you may spend 1 culture token to get an influence culture action"@,
        Advance::Sports => "As an action, you may spend 1 or 2 culture tokens to increase the happiness of a city by 1 or 2, respectively"@,
        Advance::Monuments => "Immediately draw 1 wonder card. Your cities with wonders may not be the target of influence culture attempts"@,
        Advance::Theaters => "Once per turn, as a free action, you may convert 1 culture token into 1 mood token, or 1 mood token into 1 culture token"@,
        Advance::Math => "Engineering and Roads can be bought at no food cost"@,
        Advance::Astronomy => "Navigation and Cartography can be bought at no food cost"@,
        Advance::Medicine => "After recruiting, gain one of the paid resources back"@,
        Advance::Metallurgy => "If you have the Steel Weapons Advance, you no longer have to pay 1 ore to activate it against enemies without Steel Weapons. If you collect at least 2 ore, you may replace 1 ore with 1 gold"@,
        Advance::Voting => "As a free action, you may spend 1 mood token to use 'Increase happiness'"@,
        Advance::SeparationOfPower => "Attempts to influence your happy cities may not be boosted by culture tokens"@,
        Advance::CivilLiberties => "As an action, you may gain 3 mood tokens. The cost of Draft is increased to 2 mood token"@,
        Advance::FreeEconomy => "As a free action, you may spend 1 mood token to collect resources in one city. This must be your only collect action this turn"@,
        Advance::Nationalism => "Gain 1 mood or culture token when you recruit an army or ship unit."@,
        Advance::Totalitarianism => "Attempts to influence your cities with Army Units may not be boosted by culture tokens"@,
        Advance::AbsolutePower => "Once per turn, as a free action, you may spend 2 mood tokens to get an additional action"@,
        Advance::ForcedLabor => "Once per turn, as a free action, you may spend 1 mood token to treat your Angry cities as neutral for the rest of the turn"@,
        Advance::Dogma => "Whenever you Construct a new Temple, you may immediately get a Theocracy Advance for free. You are now limited to a maximum of 2 ideas (discard if necessary). Note: Dogma Advance does not apply when you conquer a city with a Temple."@,
        Advance::Devotion => "Attempts to influence your cities with a Temple may not be boosted by culture tokens"@,
        Advance::Conversion => "You add +1 to your Influence Culture roll and gain 1 culture token when you make a successful Influence Culture attempt."@,
        Advance::Fanaticism => "During a battle in a city with a Temple, whether you are the attacker or defender, you add +2 combat value to your first combat roll. If you lose the battle, you get 1 free Infantry Unit after the battle and place it in one of your cities."@,
    }
}

/// The token gained with an advance.
pub open spec fn spec_advance_bonus(a: Advance) -> Option<Bonus> {
    match a {
        Advance::Farming => None,
        Advance::Storage => Some(Bonus::MoodToken),
        Advance::Irrigation => Some(Bonus::MoodToken),
        Advance::Husbandry => Some(Bonus::MoodToken),
        Advance::Mining => None,
        Advance::Engineering => None,
        Advance::Sanitation => Some(Bonus::MoodToken),
        Advance::Roads => Some(Bonus::CultureToken),
        Advance::Fishing => Some(Bonus::MoodToken),
        Advance::Navigation => Some(Bonus::CultureToken),
        Advance::WarShips => None,
        Advance::Cartography => Some(Bonus::CultureToken),
        Advance::Writing => Some(Bonus::CultureToken),
        Advance::PublicEducation => Some(Bonus::MoodToken),
        Advance::FreeEducation => Some(Bonus::MoodToken),
        Advance::Philosophy => Some(Bonus::MoodToken),
        Advance::Tactics => Some(Bonus::CultureToken),
        Advance::Siegecraft => None,
        Advance::SteelWeapons => None,
        Advance::Draft => Some(Bonus::CultureToken),
        Advance::Myths => Some(Bonus::MoodToken),
        Advance::Rituals => Some(Bonus::CultureToken),
        Advance::Priesthood => None,
        Advance::StateReligion => Some(Bonus::MoodToken),
        Advance::Bartering => Some(Bonus::MoodToken),
        Advance::TradeRoutes => None,
        Advance::Taxes => None,
        Advance::Currency => Some(Bonus::CultureToken),
        Advance::Arts => Some(Bonus::CultureToken),
        Advance::Sports => Some(Bonus::MoodToken),
        Advance::Monuments => Some(Bonus::CultureToken),
        Advance::Theaters => Some(Bonus::MoodToken),
        Advance::Math => Some(Bonus::CultureToken),
        Advance::Astronomy => Some(Bonus::CultureToken),
        Advance::Medicine => Some(Bonus::CultureToken),
        Advance::Metallurgy => Some(Bonus::CultureToken),
        Advance::Voting => None,
        Advance::SeparationOfPower => None,
        Advance::CivilLiberties => None,
        Advance::FreeEconomy => None,
        Advance::Nationalism => None,
        Advance::Totalitarianism => None,
        Advance::AbsolutePower => None,
        Advance::ForcedLabor => None,
        Advance::Dogma => None,
        Advance::Devotion => None,
        Advance::Conversion => None,
        Advance::Fanaticism => None,
    }
}

/// The building an advance allows to construct.
pub open spec fn spec_unlocked_building(a: Advance) -> Option<Building> {
    match a {
        Advance::Farming => None,
        Advance::Storage => None,
        Advance::Irrigation => None,
        Advance::Husbandry => None,
        Advance::Mining => None,
        Advance::Engineering => None,
        Advance::Sanitation => None,
        Advance::Roads => None,
        Advance::Fishing => Some(Building::Port),
        Advance::Navigation => None,
        Advance::WarShips => None,
        Advance::Cartography => None,
        Advance::Writing => Some(Building::Academy),
        Advance::PublicEducation => None,
        Advance::FreeEducation => None,
        Advance::Philosophy => None,
        Advance::Tactics => Some(Building::Fortress),
        Advance::Siegecraft => None,
        Advance::SteelWeapons => None,
        Advance::Draft => None,
        Advance::Myths => Some(Building::Temple),
        Advance::Rituals => None,
        Advance::Priesthood => None,
        Advance::StateReligion => None,
        Advance::Bartering => Some(Building::Market),
        Advance::TradeRoutes => None,
        Advance::Taxes => None,
        Advance::Currency => None,
        Advance::Arts => Some(Building::Obelisk),
        Advance::Sports => None,
        Advance::Monuments => None,
        Advance::Theaters => None,
        Advance::Math => Some(Building::Observatory),
        Advance::Astronomy => None,
        Advance::Medicine => None,
        Advance::Metallurgy => None,
        Advance::Voting => None,
        Advance::SeparationOfPower => None,
        Advance::CivilLiberties => None,
        Advance::FreeEconomy => None,
        Advance::Nationalism => None,
        Advance::Totalitarianism => None,
        Advance::AbsolutePower => None,
        Advance::ForcedLabor => None,
        Advance::Dogma => None,
        Advance::Devotion => None,
        Advance::Conversion => None,
        Advance::Fanaticism => None,
    }
}

/// The government an advance belongs to.
pub open spec fn spec_advance_government(a: Advance) -> Option<Seq<char>> {
    match a {
        Advance::Farming => None,
        Advance::Storage => None,
        Advance::Irrigation => None,
        Advance::Husbandry => None,
        Advance::Mining => None,
        Advance::Engineering => None,
        Advance::Sanitation => None,
        Advance::Roads => None,
        Advance::Fishing => None,
        Advance::Navigation => None,
        Advance::WarShips => None,
        Advance::Cartography => None,
        Advance::Writing => None,
        Advance::PublicEducation => None,
        Advance::FreeEducation => None,
        Advance::Philosophy => None,
        Advance::Tactics => None,
        Advance::Siegecraft => None,
        Advance::SteelWeapons => None,
        Advance::Draft => None,
        Advance::Myths => None,
        Advance::Rituals => None,
        Advance::Priesthood => None,
        Advance::StateReligion => None,
        Advance::Bartering => None,
        Advance::TradeRoutes => None,
        Advance::Taxes => None,
        Advance::Currency => None,
        Advance::Arts => None,
        Advance::Sports => None,
        Advance::Monuments => None,
        Advance::Theaters => None,
        Advance::Math => None,
        Advance::Astronomy => None,
        Advance::Medicine => None,
        Advance::Metallurgy => None,
        Advance::Voting => Some("Democracy"@),
        Advance::SeparationOfPower => Some("Democracy"@),
        Advance::CivilLiberties => Some("Democracy"@),
        Advance::FreeEconomy => Some("Democracy"@),
        Advance::Nationalism => Some("Autocracy"@),
        Advance::Totalitarianism => Some("Autocracy"@),
        Advance::AbsolutePower => Some("Autocracy"@),
        Advance::ForcedLabor => Some("Autocracy"@),
        Advance::Dogma => Some("Theocracy"@),
        Advance::Devotion => Some("Theocracy"@),
        Advance::Conversion => Some("Theocracy"@),
        Advance::Fanaticism => Some("Theocracy"@),
    }
}

impl Advance {
    /// The number of the advance, in the order of the groups.
    pub fn number(&self) -> (r: u8)
        ensures
            r == advance_number(*self),
    {
        match self {
            Advance::Farming => 0,
            Advance::Storage => 1,
            Advance::Irrigation => 2,
            Advance::Husbandry => 3,
            Advance::Mining => 4,
            Advance::Engineering => 5,
            Advance::Sanitation => 6,
            Advance::Roads => 7,
            Advance::Fishing => 8,
            Advance::Navigation => 9,
            Advance::WarShips => 10,
            Advance::Cartography => 11,
            Advance::Writing => 12,
            Advance::PublicEducation => 13,
            Advance::FreeEducation => 14,
            Advance::Philosophy => 15,
            Advance::Tactics => 16,
            Advance::Siegecraft => 17,
            Advance::SteelWeapons => 18,
            Advance::Draft => 19,
            Advance::Myths => 20,
            Advance::Rituals => 21,
            Advance::Priesthood => 22,
            Advance::StateReligion => 23,
            Advance::Bartering => 24,
            Advance::TradeRoutes => 25,
            Advance::Taxes => 26,
            Advance::Currency => 27,
            Advance::Arts => 28,
            Advance::Sports => 29,
            Advance::Monuments => 30,
            Advance::Theaters => 31,
            Advance::Math => 32,
            Advance::Astronomy => 33,
            Advance::Medicine => 34,
            Advance::Metallurgy => 35,
            Advance::Voting => 36,
            Advance::SeparationOfPower => 37,
            Advance::CivilLiberties => 38,
            Advance::FreeEconomy => 39,
            Advance::Nationalism => 40,
            Advance::Totalitarianism => 41,
            Advance::AbsolutePower => 42,
            Advance::ForcedLabor => 43,
            Advance::Dogma => 44,
            Advance::Devotion => 45,
            Advance::Conversion => 46,
            Advance::Fanaticism => 47,
        }
    }

    /// The identifier of the advance: the name of its variant.
    pub fn id(&self) -> (r: String)
        ensures
            r@ == self.spec_id(),
    {
        let s: &str = match self {
            Advance::Farming => "Farming",
            Advance::Storage => "Storage",
            Advance::Irrigation => "Irrigation",
            Advance::Husbandry => "Husbandry",
            Advance::Mining => "Mining",
            Advance::Engineering => "Engineering",
            Advance::Sanitation => "Sanitation",
            Advance::Roads => "Roads",
            Advance::Fishing => "Fishing",
            Advance::Navigation => "Navigation",
            Advance::WarShips => "WarShips",
            Advance::Cartography => "Cartography",
            Advance::Writing => "Writing",
            Advance::PublicEducation => "PublicEducation",
            Advance::FreeEducation => "FreeEducation",
            Advance::Philosophy => "Philosophy",
            Advance::Tactics => "Tactics",
            Advance::Siegecraft => "Siegecraft",
            Advance::SteelWeapons => "SteelWeapons",
            Advance::Draft => "Draft",
            Advance::Myths => "Myths",
            Advance::Rituals => "Rituals",
            Advance::Priesthood => "Priesthood",
            Advance::StateReligion => "StateReligion",
            Advance::Bartering => "Bartering",
            Advance::TradeRoutes => "TradeRoutes",
            Advance::Taxes => "Taxes",
            Advance::Currency => "Currency",
            Advance::Arts => "Arts",
            Advance::Sports => "Sports",
            Advance::Monuments => "Monuments",
            Advance::Theaters => "Theaters",
            Advance::Math => "Math",
            Advance::Astronomy => "Astronomy",
            Advance::Medicine => "Medicine",
            Advance::Metallurgy => "Metallurgy",
            Advance::Voting => "Voting",
            Advance::SeparationOfPower => "SeparationOfPower",
            Advance::CivilLiberties => "CivilLiberties",
            Advance::FreeEconomy => "FreeEconomy",
            Advance::Nationalism => "Nationalism",
            Advance::Totalitarianism => "Totalitarianism",
            Advance::AbsolutePower => "AbsolutePower",
            Advance::ForcedLabor => "ForcedLabor",
            Advance::Dogma => "Dogma",
            Advance::Devotion => "Devotion",
            Advance::Conversion => "Conversion",
            Advance::Fanaticism => "Fanaticism",
        };
        s.to_owned()
    }

    /// The name of the advance.
    pub fn name(&self) -> (r: String)
        ensures
            r@ == spec_advance_name(*self),
    {
        let s: &str = match self {
            Advance::Farming => "Farming",
            Advance::Storage => "Storage",
            Advance::Irrigation => "Irrigation",
            Advance::Husbandry => "Husbandry",
            Advance::Mining => "Mining",
            Advance::Engineering => "Engineering",
            Advance::Sanitation => "Sanitation",
            Advance::Roads => "Roads",
            Advance::Fishing => "Fishing",
            Advance::Navigation => "Navigation",
            Advance::WarShips => "WarShips",
            Advance::Cartography => "Cartography",
            Advance::Writing => "Writing",
            Advance::PublicEducation => "Public Education",
            Advance::FreeEducation => "Free Education",
            Advance::Philosophy => "Philosophy",
            Advance::Tactics => "Tactics",
            Advance::Siegecraft => "Siegecraft",
            Advance::SteelWeapons => "Steel Weapons",
            Advance::Draft => "Draft",
            Advance::Myths => "Myths",
            Advance::Rituals => "Rituals",
            Advance::Priesthood => "Priesthood",
            Advance::StateReligion => "State Religion",
            Advance::Bartering => "Bartering",
            Advance::TradeRoutes => "Trade Routes",
            Advance::Taxes => "Taxes",
            Advance::Currency => "Currency",
            Advance::Arts => "Arts",
            Advance::Sports => "Sports",
            Advance::Monuments => "Monuments",
            Advance::Theaters => "Theaters",
            Advance::Math => "Math",
            Advance::Astronomy => "Astronomy",
            Advance::Medicine => "Medicine",
            Advance::Metallurgy => "Metallurgy",
            Advance::Voting => "Voting",
            Advance::SeparationOfPower => "Separation of Power",
            Advance::CivilLiberties => "Civil Liberties",
            Advance::FreeEconomy => "Free Economy",
            Advance::Nationalism => "Nationalism",
            Advance::Totalitarianism => "Totalitarianism",
            Advance::AbsolutePower => "Absolute Power",
            Advance::ForcedLabor => "Forced Labor",
            Advance::Dogma => "Dogma",
            Advance::Devotion => "Devotion",
            Advance::Conversion => "Conversion",
            Advance::Fanaticism => "Fanaticism",
        };
        s.to_owned()
    }

    /// The government the advance belongs to, if any.
    pub fn government(&self) -> (r: Option<String>)
        ensures
            match spec_advance_government(*self) {
                Some(g) => r matches Some(s) && s@ == g,
                None => r is None,
            },
    {
        let n = self.number();
        if n >= 36 && n < 40 {
            Some("Democracy".to_owned())
        } else if n >= 40 && n < 44 {
            Some("Autocracy".to_owned())
        } else if n >= 44 {
            Some("Theocracy".to_owned())
        } else {
            None
        }
    }

    pub open spec fn spec_id(&self) -> Seq<char> {
        match *self {
            Advance::Farming => "Farming"@,
            Advance::Storage => "Storage"@,
            Advance::Irrigation => "Irrigation"@,
            Advance::Husbandry => "Husbandry"@,
            Advance::Mining => "Mining"@,
            Advance::Engineering => "Engineering"@,
            Advance::Sanitation => "Sanitation"@,
            Advance::Roads => "Roads"@,
            Advance::Fishing => "Fishing"@,
            Advance::Navigation => "Navigation"@,
            Advance::WarShips => "WarShips"@,
            Advance::Cartography => "Cartography"@,
            Advance::Writing => "Writing"@,
            Advance::PublicEducation => "PublicEducation"@,
            Advance::FreeEducation => "FreeEducation"@,
            Advance::Philosophy => "Philosophy"@,
            Advance::Tactics => "Tactics"@,
            Advance::Siegecraft => "Siegecraft"@,
            Advance::SteelWeapons => "SteelWeapons"@,
            Advance::Draft => "Draft"@,
            Advance::Myths => "Myths"@,
            Advance::Rituals => "Rituals"@,
            Advance::Priesthood => "Priesthood"@,
            Advance::StateReligion => "StateReligion"@,
            Advance::Bartering => "Bartering"@,
            Advance::TradeRoutes => "TradeRoutes"@,
            Advance::Taxes => "Taxes"@,
            Advance::Currency => "Currency"@,
            Advance::Arts => "Arts"@,
            Advance::Sports => "Sports"@,
            Advance::Monuments => "Monuments"@,
            Advance::Theaters => "Theaters"@,
            Advance::Math => "Math"@,
            Advance::Astronomy => "Astronomy"@,
            Advance::Medicine => "Medicine"@,
            Advance::Metallurgy => "Metallurgy"@,
            Advance::Voting => "Voting"@,
            Advance::SeparationOfPower => "SeparationOfPower"@,
            Advance::CivilLiberties => "CivilLiberties"@,
            Advance::FreeEconomy => "FreeEconomy"@,
            Advance::Nationalism => "Nationalism"@,
            Advance::Totalitarianism => "Totalitarianism"@,
            Advance::AbsolutePower => "AbsolutePower"@,
            Advance::ForcedLabor => "ForcedLabor"@,
            Advance::Dogma => "Dogma"@,
            Advance::Devotion => "Devotion"@,
            Advance::Conversion => "Conversion"@,
            Advance::Fanaticism => "Fanaticism"@,
        }
    }
}

/// The token an advance gives when it is gained.
#[derive(Clone, Copy, Debug, PartialEq, Eq, Structural)]
pub enum Bonus {
    MoodToken,
    CultureToken,
}

impl Bonus {
    /// The resources the bonus gives.
    pub fn resources(&self) -> (r: ResourcePile)
        ensures
            r == match *self {
                Bonus::MoodToken => ResourcePile { mood_tokens: 1, ..empty_pile() },
                Bonus::CultureToken => ResourcePile { culture_tokens: 1, ..empty_pile() },
            },
    {
        match self {
            Bonus::MoodToken => ResourcePile::mood_tokens(1),
            Bonus::CultureToken => ResourcePile::culture_tokens(1),
        }
    }
}

/// The description of an advance.
#[derive(Clone, Debug)]
pub struct AdvanceInfo {
    pub advance: Advance,
    pub name: String,
    pub description: String,
    pub bonus: Option<Bonus>,
    pub required: Option<Advance>,
    pub contradicting: Vec<Advance>,
    pub unlocked_building: Option<Building>,
    pub government: Option<String>,
    pub leading_government: bool,
}

/// The view of an optional string.
pub open spec fn opt_view(s: Option<String>) -> Option<Seq<char>> {
    match s {
        Some(x) => Some(x@),
        None => None,
    }
}

/// Builds the description of an advance step by step.
#[derive(Clone, Debug)]
pub struct AdvanceBuilder {
    pub advance: Advance,
    pub name: String,
    pub description: String,
    pub advance_bonus: Option<Bonus>,
    pub required_advance: Option<Advance>,
    pub contradicting_advance: Vec<Advance>,
    pub unlocked_building: Option<Building>,
    pub government: Option<String>,
    pub leading_government: bool,
}

/// `info` holds exactly what `b` describes.
pub open spec fn built_from(info: AdvanceInfo, b: AdvanceBuilder) -> bool {
    &&& info.advance == b.advance
    &&& info.name@ == b.name@
    &&& info.description@ == b.description@
    &&& info.bonus == b.advance_bonus
    &&& info.required == b.required_advance
    &&& info.contradicting@ == b.contradicting_advance@
    &&& info.unlocked_building == b.unlocked_building
    &&& opt_view(info.government) == opt_view(b.government)
    &&& info.leading_government == b.leading_government
}

/// `a` and `b` describe the same advance in the same way.
pub open spec fn built_from_info(a: AdvanceInfo, b: AdvanceInfo) -> bool {
    &&& a.advance == b.advance
    &&& a.name@ == b.name@
    &&& a.description@ == b.description@
    &&& a.bonus == b.bonus
    &&& a.required == b.required
    &&& a.contradicting@ == b.contradicting@
    &&& a.unlocked_building == b.unlocked_building
    &&& opt_view(a.government) == opt_view(b.government)
    &&& a.leading_government == b.leading_government
}

impl AdvanceBuilder {
    /// The builder of a plain advance as the content of the game describes it.
    pub open spec fn is_content_of(&self, a: Advance) -> bool {
        &&& self.advance == a
        &&& self.name@ == spec_advance_name(a)
        &&& self.description@ == spec_advance_description(a)
        &&& self.advance_bonus == spec_advance_bonus(a)
        &&& self.unlocked_building == spec_unlocked_building(a)
        &&& self.required_advance is None
        &&& self.contradicting_advance@.len() == 0
        &&& self.government is None
        &&& !self.leading_government
    }

    fn new(advance: Advance, name: String, description: String) -> (r: AdvanceBuilder)
        ensures
            r.advance == advance,
            r.name@ == name@,
            r.description@ == description@,
            r.advance_bonus is None,
            r.required_advance is None,
            r.contradicting_advance@.len() == 0,
            r.unlocked_building is None,
            r.government is None,
            !r.leading_government,
    {
        AdvanceBuilder {
            advance,
            name,
            description,
            advance_bonus: None,
            required_advance: None,
            contradicting_advance: Vec::new(),
            unlocked_building: None,
            government: None,
            leading_government: false,
        }
    }

    pub fn with_advance_bonus(self, advance_bonus: Bonus) -> (r: AdvanceBuilder)
        ensures
            r.advance_bonus == Some(advance_bonus),
            r.advance == self.advance,
            r.name@ == self.name@,
            r.description@ == self.description@,
            r.required_advance == self.required_advance,
            r.contradicting_advance@ == self.contradicting_advance@,
            r.unlocked_building == self.unlocked_building,
            opt_view(r.government) == opt_view(self.government),
            r.leading_government == self.leading_government,
    {
        let mut s = self;
        s.advance_bonus = Some(advance_bonus);
        s
    }

    pub fn with_required_advance(self, required_advance: Advance) -> (r: AdvanceBuilder)
        ensures
            r.required_advance == Some(required_advance),
            r.advance == self.advance,
            r.name@ == self.name@,
            r.description@ == self.description@,
            r.advance_bonus == self.advance_bonus,
            r.contradicting_advance@ == self.contradicting_advance@,
            r.unlocked_building == self.unlocked_building,
            opt_view(r.government) == opt_view(self.government),
            r.leading_government == self.leading_government,
    {
        let mut s = self;
        s.required_advance = Some(required_advance);
        s
    }

    pub fn with_contradicting_advance(self, contradicting_advance: &[Advance]) -> (r: AdvanceBuilder)
        ensures
            r.contradicting_advance@ == contradicting_advance@,
            r.advance == self.advance,
            r.name@ == self.name@,
            r.description@ == self.description@,
            r.advance_bonus == self.advance_bonus,
            r.required_advance == self.required_advance,
            r.unlocked_building == self.unlocked_building,
            opt_view(r.government) == opt_view(self.government),
            r.leading_government == self.leading_government,
    {
        let mut s = self;
        let mut v: Vec<Advance> = Vec::new();
        let mut i: usize = 0;
        while i < contradicting_advance.len()
            invariant
                0 <= i <= contradicting_advance@.len(),
                v@ == contradicting_advance@.take(i as int),
            decreases contradicting_advance@.len() - i,
        {
            v.push(contradicting_advance[i]);
            proof {
                assert(contradicting_advance@.take(i as int + 1) =~= contradicting_advance@.take(i as int).push(contradicting_advance@[i as int]));
            }
            i = i + 1;
        }
        proof {
            assert(contradicting_advance@.take(contradicting_advance@.len() as int) =~= contradicting_advance@);
        }
        s.contradicting_advance = v;
        s
    }

    pub fn with_unlocked_building(self, unlocked_building: Building) -> (r: AdvanceBuilder)
        ensures
            r.unlocked_building == Some(unlocked_building),
            r.advance == self.advance,
            r.name@ == self.name@,
            r.description@ == self.description@,
            r.advance_bonus == self.advance_bonus,
            r.required_advance == self.required_advance,
            r.contradicting_advance@ == self.contradicting_advance@,
            opt_view(r.government) == opt_view(self.government),
            r.leading_government == self.leading_government,
    {
        let mut s = self;
        s.unlocked_building = Some(unlocked_building);
        s
    }

    pub fn with_government(self, government: &str, leading: bool) -> (r: AdvanceBuilder)
        ensures
            opt_view(r.government) == Some(government@),
            r.leading_government == leading,
            r.advance == self.advance,
            r.name@ == self.name@,
            r.description@ == self.description@,
            r.advance_bonus == self.advance_bonus,
            r.required_advance == self.required_advance,
            r.contradicting_advance@ == self.contradicting_advance@,
            r.unlocked_building == self.unlocked_building,
    {
        let mut s = self;
        s.government = Some(government.to_owned());
        s.leading_government = leading;
        s
    }

    pub fn build(self) -> (r: AdvanceInfo)
        ensures
            built_from(r, self),
    {
        AdvanceInfo {
            advance: self.advance,
            name: self.name,
            description: self.description,
            bonus: self.advance_bonus,
            required: self.required_advance,
            contradicting: self.contradicting_advance,
            unlocked_building: self.unlocked_building,
            government: self.government,
            leading_government: self.leading_government,
        }
    }
}

impl AdvanceInfo {
    /// A copy of the description.
    pub fn clone_info(&self) -> (r: AdvanceInfo)
        ensures
            built_from_info(r, *self),
    {
        AdvanceInfo {
            advance: self.advance,
            name: self.name.clone(),
            description: self.description.clone(),
            bonus: self.bonus,
            required: self.required,
            contradicting: self.contradicting.clone(),
            unlocked_building: self.unlocked_building,
            government: match &self.government {
                Some(g) => Some(g.clone()),
                None => None,
            },
            leading_government: self.leading_government,
        }
    }

    /// Starts the description of an advance.
    pub fn builder(advance: Advance, name: &str, description: &str) -> (r: AdvanceBuilder)
        ensures
            r.advance == advance,
            r.name@ == name@,
            r.description@ == description@,
            r.advance_bonus is None,
            r.required_advance is None,
            r.contradicting_advance@.len() == 0,
            r.unlocked_building is None,
            r.government is None,
            !r.leading_government,
    {
        AdvanceBuilder::new(advance, name.to_owned(), description.to_owned())
    }
}

/// Buying an advance with a payment.
#[derive(Clone, Copy, Debug, PartialEq, Eq, Structural)]
pub struct AdvanceAction {
    pub advance: Advance,
    pub payment: ResourcePile,
}

impl AdvanceAction {
    pub fn new(advance: Advance, payment: ResourcePile) -> (r: AdvanceAction)
        ensures
            r == (AdvanceAction { advance, payment }),
    {
        AdvanceAction { advance, payment }
    }
}

/// The index of the first advance in `advances` that belongs to a government.
pub open spec fn first_government_index(advances: Seq<Advance>) -> Option<int>
    decreases advances.len(),
{
    if advances.len() == 0 {
        None
    } else {
        match first_government_index(advances.drop_last()) {
            Some(i) => Some(i),
            None => if spec_advance_government(advances.last()) is Some {
                Some(advances.len() - 1)
            } else {
                None
            },
        }
    }
}

/// A set of advances listed once each, in the order of the advances (by number), as a
/// player holds them.
pub open spec fn advance_set(advances: Seq<Advance>) -> bool {
    forall|i: int, j: int|
        0 <= i < j < advances.len() ==> advance_number(#[trigger] advances[i]) < advance_number(
            #[trigger] advances[j],
        )
}

/// The government of a player: that of the first of its advances, in the order of the
/// advances, that belongs to one.
pub fn player_government(advances: &[Advance]) -> (r: Option<String>)
    requires
        advance_set(advances@),
    ensures
        match first_government_index(advances@) {
            Some(i) => r matches Some(s) && spec_advance_government(advances@[i]) == Some(s@),
            None => r is None,
        },
{
    let mut i: usize = 0;
    while i < advances.len()
        invariant
            0 <= i <= advances@.len(),
            first_government_index(advances@.take(i as int)) is None,
        decreases advances@.len() - i,
    {
        proof {
            assert(advances@.take(i as int + 1).drop_last() =~= advances@.take(i as int));
        }
        let g = advances[i].government();
        if g.is_some() {
            proof {
                lemma_first_government_prefix(advances@, i as int + 1);
            }
            return g;
        }
        i = i + 1;
    }
    proof {
        assert(advances@.take(advances@.len() as int) =~= advances@);
    }
    None
}

/// A government found in a prefix is the first one of the whole sequence.
pub proof fn lemma_first_government_prefix(s: Seq<Advance>, n: int)
    requires
        0 <= n <= s.len(),
        first_government_index(s.take(n)) is Some,
    ensures
        first_government_index(s) == first_government_index(s.take(n)),
    decreases s.len(),
{
    if n < s.len() {
        assert(s.drop_last().take(n) =~= s.take(n));
        lemma_first_government_prefix(s.drop_last(), n);
    } else {
        assert(s.take(n) =~= s);
    }
}

/// What unlocks a special advance of a civilization: having any government, or one advance.
#[derive(Clone, Copy, Debug, PartialEq, Eq, Structural)]
pub enum SpecialAdvanceRequirement {
    AnyGovernment,
    Advance(Advance),
}

/// A special advance of a civilization (identified by its number) and what unlocks it.
#[derive(Clone, Copy, Debug, PartialEq, Eq, Structural)]
pub struct SpecialAdvanceInfo {
    pub advance: u8,
    pub requirement: SpecialAdvanceRequirement,
}

/// Whether a requirement is met by what was gained: a government (`None`) or an advance.
pub open spec fn unlocked_by(requirement: SpecialAdvanceRequirement, gained: Option<Advance>) -> bool {
    match gained {
        None => requirement is AnyGovernment,
        Some(a) => requirement == SpecialAdvanceRequirement::Advance(a),
    }
}

/// The first special advance in `s` that what was gained unlocks.
pub open spec fn first_unlocked(s: Seq<SpecialAdvanceInfo>, gained: Option<Advance>) -> Option<u8>
    decreases s.len(),
{
    if s.len() == 0 {
        None
    } else if unlocked_by(s[0].requirement, gained) {
        Some(s[0].advance)
    } else {
        first_unlocked(s.drop_first(), gained)
    }
}

fn find_unlocked(special: &[SpecialAdvanceInfo], gained: Option<Advance>) -> (r: Option<u8>)
    ensures
        r == first_unlocked(special@, gained),
{
    let mut i: usize = 0;
    proof {
        assert(special@.skip(0) =~= special@);
    }
    while i < special.len()
        invariant
            i <= special@.len(),
            first_unlocked(special@, gained) == first_unlocked(special@.skip(i as int), gained),
        decreases special@.len() - i,
    {
        let s = special[i];
        let hit = match (s.requirement, gained) {
            (SpecialAdvanceRequirement::AnyGovernment, None) => true,
            (SpecialAdvanceRequirement::Advance(a), Some(g)) => a == g,
            _ => false,
        };
        if hit {
            return Some(s.advance);
        }
        proof {
            assert(special@.skip(i as int).drop_first() =~= special@.skip(i as int + 1));
        }
        i = i + 1;
    }
    None
}

/// The special advance that gaining `advance` unlocks: the first one of the civilization
/// that requires exactly that advance.
pub fn find_non_government_special_advance(
    advance: Advance,
    special_advances: &[SpecialAdvanceInfo],
) -> (r: Option<u8>)
    ensures
        r == first_unlocked(special_advances@, Some(advance)),
{
    find_unlocked(special_advances, Some(advance))
}

/// The special advance that any government unlocks: the first one of the civilization
/// that requires a government.
pub fn find_government_special_advance(special_advances: &[SpecialAdvanceInfo]) -> (r: Option<u8>)
    ensures
        r == first_unlocked(special_advances@, None),
{
    find_unlocked(special_advances, None)
}

/// The special advance unlocked by gaining `advance`, which leads to a government when
/// `leading_government` holds (any government then unlocks it).
pub fn find_special_advance(
    advance: Advance,
    leading_government: bool,
    special_advances: &[SpecialAdvanceInfo],
) -> (r: Option<u8>)
    ensures
        r == first_unlocked(
            special_advances@,
            if leading_government {
                None
            } else {
                Some(advance)
            },
        ),
{
    if leading_government {
        find_government_special_advance(special_advances)
    } else {
        find_non_government_special_advance(advance, special_advances)
    }
}

/// Whether a special advance with this requirement is active for a player with these
/// advances: it needs a government, or the required advance.
pub fn is_special_advance_active(
    requirement: SpecialAdvanceRequirement,
    advances: &[Advance],
) -> (r: bool)
    requires
        advance_set(advances@),
    ensures
        r == match requirement {
            SpecialAdvanceRequirement::AnyGovernment => first_government_index(advances@) is Some,
            SpecialAdvanceRequirement::Advance(a) => advances@.contains(a),
        },
{
    match requirement {
        SpecialAdvanceRequirement::AnyGovernment => player_government(advances).is_some(),
        SpecialAdvanceRequirement::Advance(a) => has_advance(advances, a),
    }
}

/// Whether `a` is among `advances`.
fn has_advance(advances: &[Advance], a: Advance) -> (r: bool)
    ensures
        r == advances@.contains(a),
{
    let mut i: usize = 0;
    while i < advances.len()
        invariant
            i <= advances@.len(),
            forall|j: int| 0 <= j < i ==> advances@[j] != a,
        decreases advances@.len() - i,
    {
        if advances[i] == a {
            proof {
                assert(advances@[i as int] == a);
            }
            return true;
        }
        i = i + 1;
    }
    false
}

/// Takes an incident token after an advance: the player's tokens go down by one, and when
/// the last one is taken they are reset to three and an incident is triggered (the result).
pub fn take_incident_token(incident_tokens: &mut u8) -> (incident: bool)
    requires
        *old(incident_tokens) > 0,
    ensures
        incident == (*old(incident_tokens) == 1),
        *final(incident_tokens) == if incident {
            3
        } else {
            *old(incident_tokens) - 1
        },
{
    *incident_tokens = *incident_tokens - 1;
    if *incident_tokens == 0 {
        *incident_tokens = 3;
        true
    } else {
        false
    }
}

/// What of a player an advance changes: the advances it holds and the special advances it
/// has unlocked (each an ordered set), and its resources.
pub struct AdvanceHolder {
    pub advances: Vec<Advance>,
    pub special_advances: Vec<u8>,
    pub resources: ResourcePile,
}

/// The resources a bonus gives, none without a bonus.
pub open spec fn bonus_pile(bonus: Option<Bonus>) -> ResourcePile {
    match bonus {
        Some(Bonus::MoodToken) => ResourcePile { mood_tokens: 1, ..empty_pile() },
        Some(Bonus::CultureToken) => ResourcePile { culture_tokens: 1, ..empty_pile() },
        None => empty_pile(),
    }
}

/// The player's sets are kept in order.
pub open spec fn holder_wf(h: AdvanceHolder) -> bool {
    is_sorted_set(h.advances@) && is_sorted_set(h.special_advances@)
}

/// What gaining an advance unlocks: a government for an advance leading to one, the advance
/// itself otherwise.
pub open spec fn gained_by(advance: Advance, leading_government: bool) -> Option<Advance> {
    if leading_government {
        None
    } else {
        Some(advance)
    }
}

/// `after` is `before` having gained `advance`: the advance is held, the special advance it
/// unlocks (if any) is unlocked, and the bonus is gained.
pub open spec fn advanced(
    before: AdvanceHolder,
    after: AdvanceHolder,
    advance: Advance,
    bonus: Option<Bonus>,
    leading_government: bool,
    special: Seq<SpecialAdvanceInfo>,
) -> bool {
    &&& holder_wf(after)
    &&& forall|a: Advance| #[trigger] after.advances@.contains(a) <==> before.advances@.contains(a) || a == advance
    &&& forall|s: u8|
        #[trigger] after.special_advances@.contains(s) <==> before.special_advances@.contains(s)
            || first_unlocked(special, gained_by(advance, leading_government)) == Some(s)
    &&& after.resources == before.resources.spec_add(&bonus_pile(bonus))
}

/// `after` is `before` having lost `advance`: the advance is no longer held, the special
/// advance the advance itself unlocks (if any) is locked again, and the bonus is given back.
pub open spec fn advance_removed(
    before: AdvanceHolder,
    after: AdvanceHolder,
    advance: Advance,
    bonus: Option<Bonus>,
    special: Seq<SpecialAdvanceInfo>,
) -> bool {
    &&& holder_wf(after)
    &&& forall|a: Advance| #[trigger] after.advances@.contains(a) <==> before.advances@.contains(a) && a != advance
    &&& forall|s: u8|
        #[trigger] after.special_advances@.contains(s) <==> before.special_advances@.contains(s)
            && first_unlocked(special, Some(advance)) != Some(s)
    &&& after.resources.can_add(&bonus_pile(bonus))
    &&& after.resources.spec_add(&bonus_pile(bonus)) == before.resources
}

/// Gains `advance` (with its bonus, and `leading_government` when it leads to a government):
/// unlocks the special advance of the civilization that it unlocks, gains the bonus and
/// holds the advance.
pub fn do_advance(
    p: &mut AdvanceHolder,
    advance: Advance,
    bonus: Option<Bonus>,
    leading_government: bool,
    special: &[SpecialAdvanceInfo],
)
    requires
        holder_wf(*old(p)),
        old(p).resources.can_add(&bonus_pile(bonus)),
    ensures
        advanced(*old(p), *final(p), advance, bonus, leading_government, special@),
{
    let unlocked = find_special_advance(advance, leading_government, special);
    match unlocked {
        Some(s) => set_insert(&mut p.special_advances, s),
        None => {},
    }
    match bonus {
        Some(b) => {
            let pile = b.resources();
            p.resources = p.resources.add(&pile);
        },
        None => {},
    }
    set_insert(&mut p.advances, advance);
}

/// Loses `advance` (with its bonus): locks again the special advance that the advance itself
/// unlocks, gives back the bonus and no longer holds the advance.
pub fn remove_advance(
    p: &mut AdvanceHolder,
    advance: Advance,
    bonus: Option<Bonus>,
    special: &[SpecialAdvanceInfo],
)
    requires
        holder_wf(*old(p)),
        bonus == Some(Bonus::MoodToken) ==> old(p).resources.mood_tokens >= 1,
        bonus == Some(Bonus::CultureToken) ==> old(p).resources.culture_tokens >= 1,
    ensures
        advance_removed(*old(p), *final(p), advance, bonus, special@),
{
    let unlocked = find_non_government_special_advance(advance, special);
    match unlocked {
        Some(s) => set_remove(&mut p.special_advances, s),
        None => {},
    }
    match bonus {
        Some(Bonus::MoodToken) => p.resources.mood_tokens = p.resources.mood_tokens - 1,
        Some(Bonus::CultureToken) => p.resources.culture_tokens = p.resources.culture_tokens - 1,
        None => {},
    }
    set_remove(&mut p.advances, advance);
}

/// Losing an advance undoes gaining it: for an advance not held before, that leads to no
/// government and whose special advance was not unlocked before, the player holds the same
/// advances and special advances and the same resources as before.
pub proof fn lemma_remove_undoes_advance(
    h0: AdvanceHolder,
    h1: AdvanceHolder,
    h2: AdvanceHolder,
    advance: Advance,
    bonus: Option<Bonus>,
    special: Seq<SpecialAdvanceInfo>,
)
    requires
        holder_wf(h0),
        h0.resources.can_add(&bonus_pile(bonus)),
        !h0.advances@.contains(advance),
        first_unlocked(special, Some(advance)) matches Some(s) ==> !h0.special_advances@.contains(s),
        advanced(h0, h1, advance, bonus, false, special),
        advance_removed(h1, h2, advance, bonus, special),
    ensures
        forall|a: Advance| #[trigger] h2.advances@.contains(a) <==> h0.advances@.contains(a),
        forall|s: u8| #[trigger] h2.special_advances@.contains(s) <==> h0.special_advances@.contains(s),
        h2.resources == h0.resources,
{
    assert forall|a: Advance| #[trigger] h2.advances@.contains(a) <==> h0.advances@.contains(a) by {
        assert(h2.advances@.contains(a) <==> h1.advances@.contains(a) && a != advance);
        assert(h1.advances@.contains(a) <==> h0.advances@.contains(a) || a == advance);
    }
    assert forall|s: u8| #[trigger] h2.special_advances@.contains(s) <==> h0.special_advances@.contains(s) by {
        assert(h1.special_advances@.contains(s) <==> h0.special_advances@.contains(s)
            || first_unlocked(special, Some(advance)) == Some(s));
    }
}

} // verus!
