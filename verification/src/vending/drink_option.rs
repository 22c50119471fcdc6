//! A drink and the way it is dispensed.

use vstd::prelude::*;

verus! {

/// A drink on offer.
#[derive(Debug)]
pub struct Drink {
    pub id: u8,
    pub name: String,
    pub cost: String,
}

/// What a drink holds, as plain values.
pub ghost struct DrinkView {
    pub id: u8,
    pub name: Seq<char>,
    pub cost: Seq<char>,
}

impl View for Drink {
    type V = DrinkView;

    open spec fn view(&self) -> DrinkView {
        DrinkView { id: self.id, name: self.name@, cost: self.cost@ }
    }
}

/// The button and the dispenser of a drink: the pin on which the choice is
/// read, the pin that releases the drink, and whether the slot is in service.
#[derive(Debug, Clone, Copy, PartialEq, Eq, Structural)]
pub struct DrinkOption {
    pub drink_id: u8,
    pub input_pin: u8,
    pub output_pin: u8,
    pub is_valid: bool,
}

} // verus!
