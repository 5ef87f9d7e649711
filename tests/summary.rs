use hurl::{NewsArticle, Summary, SummaryMixed, SummaryWithDefault, Tweet};

fn tweet() -> Tweet {
    Tweet {
        username: "horse_ebooks".to_string(),
        content: "of course, as you probably already know, people".to_string(),
        reply: false,
        retweet: false,
    }
}

#[test]
fn tweet_summaries() {
    let t = tweet();
    assert_eq!(t.summarize(), "horse_ebooks: of course, as you probably already know, people");
    assert_eq!(t.summarize_author(), "@horse_ebooks");
    assert_eq!(t.summarize_mixed(), "(Read more from @horse_ebooks...)");
}

#[test]
fn article_summaries() {
    let a = NewsArticle {
        headline: "Penguins win the Stanley Cup Championship!".to_string(),
        location: "Pittsburgh, PA, USA".to_string(),
        author: "Iceburgh".to_string(),
        content: "The Pittsburgh Penguins once again are the best hockey team in the NHL.".to_string(),
    };
    assert_eq!(
        a.summarize(),
        "Penguins win the Stanley Cup Championship!, by Iceburgh (Pittsburgh, PA, USA)"
    );
    assert_eq!(a.summarize_default(), "default summary");
}
