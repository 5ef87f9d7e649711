//! A command-line HTTP client's core: the parameter grammar, the request
//! builder and the response formatter; with a few small companions.

pub mod basics;
pub mod excerpt;
pub mod grep;
pub mod json;
pub mod messages;
pub mod parameter;
pub mod request;
pub mod response;
pub mod restaurant;
pub mod summary;
pub mod text;

pub use basics::{
    add_two, build_user, longest, plus_one, value_in_cents, Coin, Guess, Rectangle, UsState, User,
};
pub use excerpt::{run_struct_lifetime, ImportantExcerpt};
pub use grep::{contains_text, search, search_case_insensitive, search_with, Config};
pub use messages::MessageApp;
pub use parameter::{
    parse_param, parse_parameters, split_param, HurlError, Kind, Malformed, Parameter, Token,
};
pub use request::{build_request, split_credentials, with_scheme, FieldValue, Method, RequestSpec};
pub use response::{dash_spaces, format_response, normalize_header_name, render_response};
pub use restaurant::{eat_at_restaurant, Appetizer, Breakfast};
pub use summary::{NewsArticle, Summary, SummaryMixed, SummaryWithDefault, Tweet};
pub use text::decimal_chars;
