//! Properties that describe game assets: colour, rigidity, temperature and
//! lighting, each with a closed vocabulary, and free-form custom properties.

use vstd::prelude::*;
use crate::text::{lowercase, str_eq, to_lowercase};
use crate::world::errors::Error;

verus! {

/// Colour properties.
#[derive(Debug, Clone, Copy, PartialEq, Eq, Structural)]
pub enum Color {
    Red,
    Blue,
    Green,
    Yellow,
    Cyan,
    Magenta,
    Black,
    White,
    Violet,
    Purple,
}

/// Rigidity properties.
#[derive(Debug, Clone, Copy, PartialEq, Eq, Structural)]
pub enum Rigidity {
    Rigid,
    Solid,
    Liquid,
    Aerially,
    Frozen,
    Molten,
}

/// Temperature properties.
#[derive(Debug, Clone, Copy, PartialEq, Eq, Structural)]
pub enum Temperature {
    Cold,
    Cool,
    Warm,
    Hot,
}

/// Lighting properties.
#[derive(Debug, Clone, Copy, PartialEq, Eq, Structural)]
pub enum Lighting {
    Pulsing,
    Radiating,
    Shining,
    Bright,
    Dark,
    Glowing,
}

/// A property of a game asset.
#[derive(Debug, Clone, PartialEq, Eq)]
pub enum Property {
    Color(Color),
    Rigidity(Rigidity),
    Temperature(Temperature),
    Lighting(Lighting),
    /// A property outside the closed vocabularies, kept as it was written.
    Custom(String),
}

/// A [`Property`] as a mathematical value.
pub enum PropertyView {
    Color(Color),
    Rigidity(Rigidity),
    Temperature(Temperature),
    Lighting(Lighting),
    Custom(Seq<char>),
}

impl View for Property {
    type V = PropertyView;

    open spec fn view(&self) -> PropertyView {
        match self {
            Property::Color(c) => PropertyView::Color(*c),
            Property::Rigidity(r) => PropertyView::Rigidity(*r),
            Property::Temperature(t) => PropertyView::Temperature(*t),
            Property::Lighting(l) => PropertyView::Lighting(*l),
            Property::Custom(s) => PropertyView::Custom(s@),
        }
    }
}

impl Color {
    /// The colour that a lowercase word names.
    pub open spec fn named(word: Seq<char>) -> Result<Color, Error> {
        if word == "red"@ {
            Ok(Color::Red)
        } else if word == "blue"@ {
            Ok(Color::Blue)
        } else if word == "green"@ {
            Ok(Color::Green)
        } else if word == "yellow"@ {
            Ok(Color::Yellow)
        } else if word == "cyan"@ {
            Ok(Color::Cyan)
        } else if word == "magenta"@ {
            Ok(Color::Magenta)
        } else if word == "black"@ {
            Ok(Color::Black)
        } else if word == "white"@ {
            Ok(Color::White)
        } else if word == "violet"@ {
            Ok(Color::Violet)
        } else if word == "purple"@ {
            Ok(Color::Purple)
        } else {
            Err(Error::PropertyConversionFailed)
        }
    }

    /// Looks a lowercase word up among the colours.
    pub fn from_lowercase(word: &str) -> (r: Result<Color, Error>)
        ensures
            r == Color::named(word@),
    {
        if str_eq(word, "red") {
            Ok(Color::Red)
        } else if str_eq(word, "blue") {
            Ok(Color::Blue)
        } else if str_eq(word, "green") {
            Ok(Color::Green)
        } else if str_eq(word, "yellow") {
            Ok(Color::Yellow)
        } else if str_eq(word, "cyan") {
            Ok(Color::Cyan)
        } else if str_eq(word, "magenta") {
            Ok(Color::Magenta)
        } else if str_eq(word, "black") {
            Ok(Color::Black)
        } else if str_eq(word, "white") {
            Ok(Color::White)
        } else if str_eq(word, "violet") {
            Ok(Color::Violet)
        } else if str_eq(word, "purple") {
            Ok(Color::Purple)
        } else {
            Err(Error::PropertyConversionFailed)
        }
    }

    /// Reads a colour from a word, whatever its case.
    pub fn parse(item: &str) -> (r: Result<Color, Error>)
        ensures
            r == Color::named(lowercase(item@)),
    {
        let lower = to_lowercase(item);
        Color::from_lowercase(lower.as_str())
    }
}

impl Rigidity {
    /// The rigidity that a lowercase word names.
    pub open spec fn named(word: Seq<char>) -> Result<Rigidity, Error> {
        if word == "rigid"@ {
            Ok(Rigidity::Rigid)
        } else if word == "solid"@ {
            Ok(Rigidity::Solid)
        } else if word == "liquid"@ {
            Ok(Rigidity::Liquid)
        } else if word == "aerially"@ {
            Ok(Rigidity::Aerially)
        } else if word == "frozen"@ {
            Ok(Rigidity::Frozen)
        } else if word == "molten"@ {
            Ok(Rigidity::Molten)
        } else {
            Err(Error::PropertyConversionFailed)
        }
    }

    /// Looks a lowercase word up among the rigidities.
    pub fn from_lowercase(word: &str) -> (r: Result<Rigidity, Error>)
        ensures
            r == Rigidity::named(word@),
    {
        if str_eq(word, "rigid") {
            Ok(Rigidity::Rigid)
        } else if str_eq(word, "solid") {
            Ok(Rigidity::Solid)
        } else if str_eq(word, "liquid") {
            Ok(Rigidity::Liquid)
        } else if str_eq(word, "aerially") {
            Ok(Rigidity::Aerially)
        } else if str_eq(word, "frozen") {
            Ok(Rigidity::Frozen)
        } else if str_eq(word, "molten") {
            Ok(Rigidity::Molten)
        } else {
            Err(Error::PropertyConversionFailed)
        }
    }

    /// Reads a rigidity from a word, whatever its case.
    pub fn parse(item: &str) -> (r: Result<Rigidity, Error>)
        ensures
            r == Rigidity::named(lowercase(item@)),
    {
        let lower = to_lowercase(item);
        Rigidity::from_lowercase(lower.as_str())
    }
}

impl Temperature {
    /// The temperature that a lowercase word names.
    pub open spec fn named(word: Seq<char>) -> Result<Temperature, Error> {
        if word == "cold"@ {
            Ok(Temperature::Cold)
        } else if word == "cool"@ {
            Ok(Temperature::Cool)
        } else if word == "warm"@ {
            Ok(Temperature::Warm)
        } else if word == "hot"@ {
            Ok(Temperature::Hot)
        } else {
            Err(Error::PropertyConversionFailed)
        }
    }

    /// Looks a lowercase word up among the temperatures.
    pub fn from_lowercase(word: &str) -> (r: Result<Temperature, Error>)
        ensures
            r == Temperature::named(word@),
    {
        if str_eq(word, "cold") {
            Ok(Temperature::Cold)
        } else if str_eq(word, "cool") {
            Ok(Temperature::Cool)
        } else if str_eq(word, "warm") {
            Ok(Temperature::Warm)
        } else if str_eq(word, "hot") {
            Ok(Temperature::Hot)
        } else {
            Err(Error::PropertyConversionFailed)
        }
    }

    /// Reads a temperature from a word, whatever its case.
    pub fn parse(item: &str) -> (r: Result<Temperature, Error>)
        ensures
            r == Temperature::named(lowercase(item@)),
    {
        let lower = to_lowercase(item);
        Temperature::from_lowercase(lower.as_str())
    }
}

impl Lighting {
    /// The lighting that a lowercase word names.
    pub open spec fn named(word: Seq<char>) -> Result<Lighting, Error> {
        if word == "pulsing"@ {
            Ok(Lighting::Pulsing)
        } else if word == "radiating"@ {
            Ok(Lighting::Radiating)
        } else if word == "shining"@ {
            Ok(Lighting::Shining)
        } else if word == "bright"@ {
            Ok(Lighting::Bright)
        } else if word == "dark"@ {
            Ok(Lighting::Dark)
        } else if word == "glowing"@ {
            Ok(Lighting::Glowing)
        } else {
            Err(Error::PropertyConversionFailed)
        }
    }

    /// Looks a lowercase word up among the lightings.
    pub fn from_lowercase(word: &str) -> (r: Result<Lighting, Error>)
        ensures
            r == Lighting::named(word@),
    {
        if str_eq(word, "pulsing") {
            Ok(Lighting::Pulsing)
        } else if str_eq(word, "radiating") {
            Ok(Lighting::Radiating)
        } else if str_eq(word, "shining") {
            Ok(Lighting::Shining)
        } else if str_eq(word, "bright") {
            Ok(Lighting::Bright)
        } else if str_eq(word, "dark") {
            Ok(Lighting::Dark)
        } else if str_eq(word, "glowing") {
            Ok(Lighting::Glowing)
        } else {
            Err(Error::PropertyConversionFailed)
        }
    }

    /// Reads a lighting from a word, whatever its case.
    pub fn parse(item: &str) -> (r: Result<Lighting, Error>)
        ensures
            r == Lighting::named(lowercase(item@)),
    {
        let lower = to_lowercase(item);
        Lighting::from_lowercase(lower.as_str())
    }
}

impl Property {
    /// The property for a word `item` whose lowercase form is `lower`: the
    /// first vocabulary that knows `lower` decides, in the order colour,
    /// rigidity, temperature, lighting; a word that none knows is a custom
    /// property, spelled as `item` was.
    pub open spec fn named(item: Seq<char>, lower: Seq<char>) -> PropertyView {
        if let Ok(c) = Color::named(lower) {
            PropertyView::Color(c)
        } else if let Ok(r) = Rigidity::named(lower) {
            PropertyView::Rigidity(r)
        } else if let Ok(t) = Temperature::named(lower) {
            PropertyView::Temperature(t)
        } else if let Ok(l) = Lighting::named(lower) {
            PropertyView::Lighting(l)
        } else {
            PropertyView::Custom(item)
        }
    }

    /// The property that a word stands for.
    pub open spec fn of(item: Seq<char>) -> PropertyView {
        Property::named(item, lowercase(item))
    }

    /// Builds the property for `item`, given its lowercase form.
    pub fn classify(item: &str, lower: &str) -> (p: Property)
        ensures
            p@ == Property::named(item@, lower@),
    {
        match Color::from_lowercase(lower) {
            Ok(c) => Property::Color(c),
            Err(_) => match Rigidity::from_lowercase(lower) {
                Ok(r) => Property::Rigidity(r),
                Err(_) => match Temperature::from_lowercase(lower) {
                    Ok(t) => Property::Temperature(t),
                    Err(_) => match Lighting::from_lowercase(lower) {
                        Ok(l) => Property::Lighting(l),
                        Err(_) => Property::Custom(item.to_owned()),
                    },
                },
            },
        }
    }

    /// Reads a property from a word. This never fails: a word outside the
    /// closed vocabularies becomes a custom property.
    pub fn parse(item: &str) -> (p: Property)
        ensures
            p@ == Property::of(item@),
    {
        let lower = to_lowercase(item);
        Property::classify(item, lower.as_str())
    }

    /// Whether two properties are the same.
    pub fn same(&self, other: &Property) -> (r: bool)
        ensures
            r == (self@ == other@),
    {
        match (self, other) {
            (Property::Color(a), Property::Color(b)) => *a == *b,
            (Property::Rigidity(a), Property::Rigidity(b)) => *a == *b,
            (Property::Temperature(a), Property::Temperature(b)) => *a == *b,
            (Property::Lighting(a), Property::Lighting(b)) => *a == *b,
            (Property::Custom(a), Property::Custom(b)) => str_eq(a.as_str(), b.as_str()),
            _ => false,
        }
    }
}

/// The properties that a list of words stands for, word by word.
pub open spec fn properties_of(words: Seq<Seq<char>>) -> Seq<PropertyView> {
    words.map_values(|w: Seq<char>| Property::of(w))
}

/// A list of properties as mathematical values.
pub open spec fn property_views(properties: Seq<Property>) -> Seq<PropertyView> {
    properties.map_values(|p: Property| p@)
}

} // verus!
