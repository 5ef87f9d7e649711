//! Small values with checked construction: a sum, rectangles, guesses.
use vstd::prelude::*;
use vstd::string::StringSliceAdditionalSpecFns;

verus! {

/// `a + 2`; the sum must fit in an `i32`.
pub fn add_two(a: i32) -> (r: i32)
    requires
        a <= i32::MAX - 2,
    ensures
        r == a + 2,
{
    a + 2
}

/// A rectangle of whole-number sides.
#[derive(PartialEq, Eq, Structural, Debug, Clone, Copy)]
pub struct Rectangle {
    pub width: u32,
    pub height: u32,
}

/// Relies on `rand::thread_rng` and `Rng::gen_range(1..101)`: a number drawn
/// from 1 to 100.
#[verifier::external_body]
fn random_factor() -> (r: u32)
    ensures
        1 <= r <= 100,
{
    rand::Rng::gen_range(&mut rand::thread_rng(), 1..101)
}

/// `w` scaled by `f`.
pub open spec fn scaled(w: u32, f: int) -> int {
    w * f
}

impl Rectangle {
    /// The area; it must fit in a `u32`.
    pub fn area(&self) -> (r: u32)
        requires
            self.width * self.height <= u32::MAX,
        ensures
            r == self.width * self.height,
    {
        self.width * self.height
    }

    /// Whether `other` fits strictly inside this rectangle.
    pub fn can_hold(&self, other: &Rectangle) -> (r: bool)
        ensures
            r == (self.width > other.width && self.height > other.height),
    {
        self.width > other.width && self.height > other.height
    }

    /// The width times a random factor from 1 to 100.
    pub fn random_width(&self) -> (r: u32)
        requires
            self.width * 100 <= u32::MAX,
        ensures
            exists|f: int| 1 <= f <= 100 && r == #[trigger] scaled(self.width, f),
    {
        let f = random_factor();
        self.scaled_width(f)
    }

    /// The width times a factor from 1 to 100.
    pub fn scaled_width(&self, f: u32) -> (r: u32)
        requires
            1 <= f <= 100,
            self.width * 100 <= u32::MAX,
        ensures
            r == scaled(self.width, f as int),
    {
        assert(self.width * f <= self.width * 100) by (nonlinear_arith)
            requires
                f <= 100,
        ;
        self.width * f
    }
}

/// A guess from 1 to 100.
pub struct Guess {
    value: i32,
}

impl Guess {
    /// The range that every guess stays in.
    pub open spec fn wf(&self) -> bool {
        1 <= self.value_spec() <= 100
    }

    pub closed spec fn value_spec(&self) -> i32 {
        self.value
    }

    /// A guess of `value`, which must lie from 1 to 100.
    pub fn new(value: i32) -> (r: Guess)
        requires
            1 <= value <= 100,
        ensures
            r.wf(),
            r.value_spec() == value,
    {
        Guess { value }
    }

    /// The value guessed.
    pub fn value(&self) -> (r: i32)
        ensures
            r == self.value_spec(),
    {
        self.value
    }
}

/// The states that mint quarters.
#[derive(PartialEq, Eq, Structural, Debug, Clone, Copy)]
pub enum UsState {
    Alabama,
    Alaska,
}

/// US coins; a quarter names its state.
#[derive(PartialEq, Eq, Structural, Debug, Clone, Copy)]
pub enum Coin {
    Penny,
    Nickel,
    Dime,
    Quarter(UsState),
}

/// The value of a coin in cents.
pub open spec fn cents(coin: Coin) -> u8 {
    match coin {
        Coin::Penny => 1,
        Coin::Nickel => 5,
        Coin::Dime => 10,
        Coin::Quarter(_) => 25,
    }
}

/// The value of a coin in cents.
pub fn value_in_cents(coin: Coin) -> (r: u8)
    ensures
        r == cents(coin),
{
    match coin {
        Coin::Penny => 1,
        Coin::Nickel => 5,
        Coin::Dime => 10,
        Coin::Quarter(_) => 25,
    }
}

/// One more than the number, where there is one; the sum must fit.
pub fn plus_one(x: Option<i32>) -> (r: Option<i32>)
    requires
        x matches Some(i) ==> i < i32::MAX,
    ensures
        match x {
            None => r is None,
            Some(i) => r == Some((i + 1) as i32),
        },
{
    match x {
        None => None,
        Some(i) => Some(i + 1),
    }
}

/// The longer of two texts by length in bytes; the second on a tie.
pub fn longest<'a>(x: &'a str, y: &'a str) -> (r: &'a str)
    ensures
        r == if x.spec_bytes().len() as usize > y.spec_bytes().len() as usize {
            x
        } else {
            y
        },
{
    if x.len() > y.len() {
        x
    } else {
        y
    }
}

/// A user account.
#[derive(Debug)]
pub struct User {
    pub username: String,
    pub email: String,
    pub sign_in_count: u64,
    pub active: bool,
}

/// A new, active user that has signed in once.
pub fn build_user(email: String, username: String) -> (r: User)
    ensures
        r.email == email,
        r.username == username,
        r.active,
        r.sign_in_count == 1,
{
    User { email, username, active: true, sign_in_count: 1 }
}

} // verus!
