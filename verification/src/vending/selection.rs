//! The drinks and their dispensers, each found by the number of the drink.

use crate::vending::drink_option::{Drink, DrinkOption, DrinkView};
use std::collections::HashMap;
use vstd::prelude::*;
use vstd::std_specs::hash::group_hash_axioms;

verus! {

/// The drinks of a list by their number. Of two drinks with one number the
/// later stands.
pub open spec fn drinks_by_id(drinks: Seq<DrinkView>) -> Map<u8, DrinkView>
    decreases drinks.len(),
{
    if drinks.len() == 0 {
        Map::empty()
    } else {
        drinks_by_id(drinks.drop_last()).insert(drinks.last().id, drinks.last())
    }
}

/// The dispensers of a list by the number of their drink. Of two dispensers
/// for one drink the later stands.
pub open spec fn options_by_drink(options: Seq<DrinkOption>) -> Map<u8, DrinkOption>
    decreases options.len(),
{
    if options.len() == 0 {
        Map::empty()
    } else {
        options_by_drink(options.drop_last()).insert(options.last().drink_id, options.last())
    }
}

/// The plain values of a list of drinks.
pub open spec fn drink_views(drinks: Seq<Drink>) -> Seq<DrinkView> {
    drinks.map_values(|drink: Drink| drink@)
}

/// What a selection holds, as plain values.
pub ghost struct SelectionModel {
    pub drinks: Map<u8, DrinkView>,
    pub options: Map<u8, DrinkOption>,
}

/// The drinks on offer and their dispensers.
pub struct Selection {
    drink_info: HashMap<u8, Drink>,
    selection_map: HashMap<u8, DrinkOption>,
}

impl View for Selection {
    type V = SelectionModel;

    closed spec fn view(&self) -> SelectionModel {
        SelectionModel {
            drinks: self.drink_info@.map_values(|drink: Drink| drink@),
            options: self.selection_map@,
        }
    }
}

impl Selection {
    /// The selection that the two lists of a drinks file describe.
    pub fn new(drinks: Vec<Drink>, drink_options: Vec<DrinkOption>) -> (selection: Self)
        ensures
            selection@ == (SelectionModel {
                drinks: drinks_by_id(drink_views(drinks@)),
                options: options_by_drink(drink_options@),
            }),
    {
        broadcast use group_hash_axioms;

        let ghost all_drinks = drink_views(drinks@);
        let mut drink_info: HashMap<u8, Drink> = HashMap::new();
        for drink in listed: drinks
            invariant
                listed.seq() == drinks@,
                all_drinks == drink_views(drinks@),
                drink_info@.map_values(|drink: Drink| drink@) == drinks_by_id(
                    all_drinks.take(listed.index() as int),
                ),
        {
            proof {
                let at = listed.index() as int;
                assert(all_drinks.take(at + 1).drop_last() == all_drinks.take(at));
            }
            drink_info.insert(drink.id, drink);
        }
        let mut selection_map: HashMap<u8, DrinkOption> = HashMap::new();
        proof {
            assert(all_drinks.take(all_drinks.len() as int) == all_drinks);
        }
        let mut i: usize = 0;
        while i < drink_options.len()
            invariant
                i <= drink_options.len(),
                selection_map@ == options_by_drink(drink_options@.take(i as int)),
            decreases drink_options.len() - i,
        {
            let option = drink_options[i];
            proof {
                assert(drink_options@.take(i + 1).drop_last() == drink_options@.take(i as int));
            }
            selection_map.insert(option.drink_id, option);
            i += 1;
        }
        proof {
            assert(drink_options@.take(i as int) == drink_options@);
        }
        Self { drink_info, selection_map }
    }

    /// The drink with the number `id`, if there is one.
    pub fn drink(&self, id: u8) -> (found: Option<&Drink>)
        ensures
            match found {
                Some(drink) => self@.drinks.contains_key(id) && self@.drinks[id] == drink@,
                None => !self@.drinks.contains_key(id),
            },
    {
        broadcast use group_hash_axioms;

        self.drink_info.get(&id)
    }

    /// The dispenser of the drink with the number `drink_id`, if it has one.
    pub fn option(&self, drink_id: u8) -> (found: Option<&DrinkOption>)
        ensures
            match found {
                Some(option) => self@.options.contains_key(drink_id) && self@.options[drink_id]
                    == *option,
                None => !self@.options.contains_key(drink_id),
            },
    {
        broadcast use group_hash_axioms;

        self.selection_map.get(&drink_id)
    }
}

} // verus!
