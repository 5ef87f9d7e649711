//! A restaurant's breakfast orders.
use vstd::prelude::*;

use crate::text::{chars_of, push_str, string_of};

verus! {

/// The appetizers on the menu.
#[derive(PartialEq, Eq, Structural, Debug, Clone, Copy)]
pub enum Appetizer {
    Soup,
    Salad,
}

/// A breakfast: a toast of the guest's choice, and the season's fruit.
pub struct Breakfast {
    pub toast: String,
    seasonal_fruit: String,
}

/// `peaches`, the summer fruit.
pub open spec fn summer_fruit() -> Seq<char> {
    seq!['p', 'e', 'a', 'c', 'h', 'e', 's']
}

impl Breakfast {
    pub closed spec fn toast_spec(&self) -> Seq<char> {
        self.toast@
    }

    pub closed spec fn fruit_spec(&self) -> Seq<char> {
        self.seasonal_fruit@
    }

    /// A summer breakfast with the given toast, and peaches.
    pub fn summer(toast: &str) -> (r: Breakfast)
        ensures
            r.toast_spec() == toast@,
            r.fruit_spec() == summer_fruit(),
    {
        let fruit = vec!['p', 'e', 'a', 'c', 'h', 'e', 's'];
        assert(fruit@ == summer_fruit());
        Breakfast { toast: toast.to_owned(), seasonal_fruit: string_of(&fruit) }
    }

    /// The season's fruit.
    pub fn seasonal_fruit(&self) -> (r: &String)
        ensures
            r@ == self.fruit_spec(),
    {
        &self.seasonal_fruit
    }
}

/// `I'd like <toast> toast please`.
pub open spec fn order_line(toast: Seq<char>) -> Seq<char> {
    seq!['I', '\'', 'd', ' ', 'l', 'i', 'k', 'e', ' '] + toast + seq![
        ' ',
        't',
        'o',
        'a',
        's',
        't',
        ' ',
        'p',
        'l',
        'e',
        'a',
        's',
        'e',
    ]
}

/// Orders a summer breakfast with rye toast, changes the toast to wheat, and
/// returns the order as it is spoken.
pub fn eat_at_restaurant() -> (r: String)
    ensures
        r@ == order_line(seq!['W', 'h', 'e', 'a', 't']),
{
    let mut meal = Breakfast::summer("Rye");
    let wheat = vec!['W', 'h', 'e', 'a', 't'];
    meal.toast = string_of(&wheat);
    let mut out = vec!['I', '\'', 'd', ' ', 'l', 'i', 'k', 'e', ' '];
    push_str(&mut out, meal.toast.as_str());
    let mut tail = vec![' ', 't', 'o', 'a', 's', 't', ' ', 'p', 'l', 'e', 'a', 's', 'e'];
    out.append(&mut tail);
    assert(out@ =~= order_line(seq!['W', 'h', 'e', 'a', 't']));
    string_of(&out)
}

} // verus!
