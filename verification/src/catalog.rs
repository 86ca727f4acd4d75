//! The meals and the dining halls that the site knows.

use crate::text::is_text;
use vstd::prelude::*;

verus! {

/// A meal period.
#[derive(Clone, Copy, PartialEq, Eq, Structural, Debug)]
pub enum Meal {
    Breakfast,
    Lunch,
    Dinner,
    LateNight,
}

/// A dining hall.
#[derive(Clone, Copy, PartialEq, Eq, Structural, Debug)]
pub enum Restaurant {
    Covel,
    DeNeve,
    FeastAtRieber,
    BruinPlate,
}

impl Meal {
    /// The meals, in the order in which they are enumerated.
    pub open spec fn catalog() -> Seq<Meal> {
        seq![Meal::Breakfast, Meal::Lunch, Meal::Dinner, Meal::LateNight]
    }

    /// The name shown to a reader.
    pub open spec fn spec_name(self) -> Seq<char> {
        match self {
            Meal::Breakfast => "Breakfast"@,
            Meal::Lunch => "Lunch"@,
            Meal::Dinner => "Dinner"@,
            Meal::LateNight => "Late Night"@,
        }
    }

    /// The name used in addresses and file names.
    pub open spec fn spec_url_name(self) -> Seq<char> {
        match self {
            Meal::Breakfast => "Breakfast"@,
            Meal::Lunch => "Lunch"@,
            Meal::Dinner => "Dinner"@,
            Meal::LateNight => "LateNight"@,
        }
    }

    /// The meal that is shown under the given name.
    pub open spec fn named(t: Seq<char>) -> Option<Meal> {
        if t == "Breakfast"@ {
            Some(Meal::Breakfast)
        } else if t == "Lunch"@ {
            Some(Meal::Lunch)
        } else if t == "Dinner"@ {
            Some(Meal::Dinner)
        } else if t == "Late Night"@ {
            Some(Meal::LateNight)
        } else {
            None
        }
    }

    /// Each meal is found again under its name.
    pub proof fn lemma_named(self)
        ensures
            Meal::named(self.spec_name()) == Some(self),
    {
        reveal_strlit("Breakfast");
        reveal_strlit("Lunch");
        reveal_strlit("Dinner");
        reveal_strlit("Late Night");
        assert("Breakfast"@.len() == 9);
        assert("Lunch"@.len() == 5);
        assert("Dinner"@.len() == 6);
        assert("Late Night"@.len() == 10);
    }

    pub fn all() -> (r: Vec<Meal>)
        ensures
            r@ == Meal::catalog(),
    {
        let mut r: Vec<Meal> = Vec::new();
        r.push(Meal::Breakfast);
        r.push(Meal::Lunch);
        r.push(Meal::Dinner);
        r.push(Meal::LateNight);
        assert(r@ =~= Meal::catalog());
        r
    }

    pub fn name(&self) -> (r: &'static str)
        ensures
            r@ == self.spec_name(),
    {
        match self {
            Meal::Breakfast => "Breakfast",
            Meal::Lunch => "Lunch",
            Meal::Dinner => "Dinner",
            Meal::LateNight => "Late Night",
        }
    }

    pub fn url_name(&self) -> (r: &'static str)
        ensures
            r@ == self.spec_url_name(),
    {
        match self {
            Meal::Breakfast => "Breakfast",
            Meal::Lunch => "Lunch",
            Meal::Dinner => "Dinner",
            Meal::LateNight => "LateNight",
        }
    }

    pub fn from_name(text: &Vec<char>) -> (r: Option<Meal>)
        ensures
            r == Meal::named(text@),
    {
        if is_text(text, "Breakfast") {
            Some(Meal::Breakfast)
        } else if is_text(text, "Lunch") {
            Some(Meal::Lunch)
        } else if is_text(text, "Dinner") {
            Some(Meal::Dinner)
        } else if is_text(text, "Late Night") {
            Some(Meal::LateNight)
        } else {
            None
        }
    }
}

impl Restaurant {
    /// The dining halls, in the order in which they are enumerated.
    pub open spec fn catalog() -> Seq<Restaurant> {
        seq![
            Restaurant::Covel,
            Restaurant::DeNeve,
            Restaurant::FeastAtRieber,
            Restaurant::BruinPlate,
        ]
    }

    /// The name shown to a reader.
    pub open spec fn spec_name(self) -> Seq<char> {
        match self {
            Restaurant::Covel => "Covel"@,
            Restaurant::DeNeve => "De Neve"@,
            Restaurant::FeastAtRieber => "FEAST at Rieber"@,
            Restaurant::BruinPlate => "Bruin Plate"@,
        }
    }

    /// The name used in addresses and file names.
    pub open spec fn spec_url_name(self) -> Seq<char> {
        match self {
            Restaurant::Covel => "Covel"@,
            Restaurant::DeNeve => "DeNeve"@,
            Restaurant::FeastAtRieber => "FeastAtRieber"@,
            Restaurant::BruinPlate => "BruinPlate"@,
        }
    }

    /// The dining hall that is shown under the given name.
    pub open spec fn named(t: Seq<char>) -> Option<Restaurant> {
        if t == "Covel"@ {
            Some(Restaurant::Covel)
        } else if t == "De Neve"@ {
            Some(Restaurant::DeNeve)
        } else if t == "FEAST at Rieber"@ {
            Some(Restaurant::FeastAtRieber)
        } else if t == "Bruin Plate"@ {
            Some(Restaurant::BruinPlate)
        } else {
            None
        }
    }

    /// Each dining hall is found again under its name.
    pub proof fn lemma_named(self)
        ensures
            Restaurant::named(self.spec_name()) == Some(self),
    {
        reveal_strlit("Covel");
        reveal_strlit("De Neve");
        reveal_strlit("FEAST at Rieber");
        reveal_strlit("Bruin Plate");
        assert("Covel"@.len() == 5);
        assert("De Neve"@.len() == 7);
        assert("FEAST at Rieber"@.len() == 15);
        assert("Bruin Plate"@.len() == 11);
    }

    pub fn all() -> (r: Vec<Restaurant>)
        ensures
            r@ == Restaurant::catalog(),
    {
        let mut r: Vec<Restaurant> = Vec::new();
        r.push(Restaurant::Covel);
        r.push(Restaurant::DeNeve);
        r.push(Restaurant::FeastAtRieber);
        r.push(Restaurant::BruinPlate);
        assert(r@ =~= Restaurant::catalog());
        r
    }

    pub fn name(&self) -> (r: &'static str)
        ensures
            r@ == self.spec_name(),
    {
        match self {
            Restaurant::Covel => "Covel",
            Restaurant::DeNeve => "De Neve",
            Restaurant::FeastAtRieber => "FEAST at Rieber",
            Restaurant::BruinPlate => "Bruin Plate",
        }
    }

    pub fn url_name(&self) -> (r: &'static str)
        ensures
            r@ == self.spec_url_name(),
    {
        match self {
            Restaurant::Covel => "Covel",
            Restaurant::DeNeve => "DeNeve",
            Restaurant::FeastAtRieber => "FeastAtRieber",
            Restaurant::BruinPlate => "BruinPlate",
        }
    }

    pub fn from_name(text: &Vec<char>) -> (r: Option<Restaurant>)
        ensures
            r == Restaurant::named(text@),
    {
        if is_text(text, "Covel") {
            Some(Restaurant::Covel)
        } else if is_text(text, "De Neve") {
            Some(Restaurant::DeNeve)
        } else if is_text(text, "FEAST at Rieber") {
            Some(Restaurant::FeastAtRieber)
        } else if is_text(text, "Bruin Plate") {
            Some(Restaurant::BruinPlate)
        } else {
            None
        }
    }
}

} // verus!
