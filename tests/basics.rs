use hurl::{
    add_two, build_user, eat_at_restaurant, longest, plus_one, value_in_cents, Appetizer,
    Breakfast, Coin, Guess, MessageApp, Rectangle, UsState,
};

#[test]
fn lib_it_works() {
    let result = 2 + 2;
    assert_eq!(result, 4);
}

#[test]
fn exploration() {
    assert_eq!(2 + 2, 4);
}

#[test]
fn lib_it_adds_two() {
    assert_eq!(4, add_two(2));
}

#[test]
fn integration_tests_it_adds_two() {
    assert_eq!(4, hurl::add_two(2));
}

#[test]
fn larger_can_hold_smaller() {
    let larger = Rectangle { width: 8, height: 7 };
    let smaller = Rectangle { width: 5, height: 1 };
    assert!(larger.can_hold(&smaller));
}

#[test]
fn smaller_cannot_hold_larger() {
    let larger = Rectangle { width: 8, height: 7 };
    let smaller = Rectangle { width: 5, height: 1 };
    assert!(!smaller.can_hold(&larger));
    assert!(!larger.can_hold(&larger));
}

#[test]
fn random_width_is_a_multiple_in_range() {
    let rect = Rectangle { width: 7, height: 5 };
    let w = rect.random_width();
    assert!(w >= 7 && w <= 700);
    assert_eq!(w % 7, 0);
}

#[test]
fn add_two_and_two() {
    assert_eq!(4, add_two(2));
}

#[test]
fn add_three_and_two() {
    assert_eq!(5, add_two(3));
}

#[test]
fn one_hundred() {
    assert_eq!(102, add_two(100));
}

#[test]
fn guess_keeps_its_value() {
    assert_eq!(Guess::new(1).value(), 1);
    assert_eq!(Guess::new(100).value(), 100);
}

#[test]
fn message_app_port() {
    assert_eq!(MessageApp::new(8080).port(), 8080);
}

#[test]
fn summer_breakfast() {
    let meal = Breakfast::summer("Rye");
    assert_eq!(meal.toast, "Rye");
    assert_eq!(meal.seasonal_fruit(), "peaches");
    assert_ne!(Appetizer::Soup, Appetizer::Salad);
}

#[test]
fn restaurant_order() {
    assert_eq!(eat_at_restaurant(), "I'd like Wheat toast please");
}

#[test]
fn rectangle_area() {
    assert_eq!(Rectangle { width: 30, height: 50 }.area(), 1500);
    assert_eq!(Rectangle { width: 0, height: 50 }.area(), 0);
}

#[test]
fn coin_values() {
    assert_eq!(value_in_cents(Coin::Penny), 1);
    assert_eq!(value_in_cents(Coin::Nickel), 5);
    assert_eq!(value_in_cents(Coin::Dime), 10);
    assert_eq!(value_in_cents(Coin::Quarter(UsState::Alaska)), 25);
    assert_eq!(value_in_cents(Coin::Quarter(UsState::Alabama)), 25);
}

#[test]
fn plus_one_options() {
    assert_eq!(plus_one(Some(5)), Some(6));
    assert_eq!(plus_one(None), None);
    assert_eq!(plus_one(Some(-1)), Some(0));
}

#[test]
fn longest_texts() {
    assert_eq!(longest("long string is long", "xyz"), "long string is long");
    assert_eq!(longest("ab", "cd"), "cd");
    assert_eq!(longest("é", "ab"), "ab");
}

#[test]
fn new_user_is_active() {
    let u = build_user("someone@example.com".to_string(), "someusername123".to_string());
    assert_eq!(u.email, "someone@example.com");
    assert_eq!(u.username, "someusername123");
    assert!(u.active);
    assert_eq!(u.sign_in_count, 1);
}

#[test]
fn test_ne() {
    let rect = Rectangle { width: 7, height: 5 };
    assert_ne!(rect.random_width(), rect.width);
}

#[test]
fn first_sentence_excerpt() {
    assert_eq!(hurl::run_struct_lifetime(), "Call me Ishmael");
    let e = hurl::ImportantExcerpt::first_of("no period here");
    assert_eq!(e.part, "no period here");
    assert_eq!(e.level(), 3);
    assert_eq!(hurl::ImportantExcerpt::first_of(".lead").part, "");
}

#[test]
fn scaled_width_multiplies() {
    let rect = Rectangle { width: 7, height: 5 };
    assert_eq!(rect.scaled_width(1), 7);
    assert_eq!(rect.scaled_width(100), 700);
}
