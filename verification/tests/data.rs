use critter::text::{join_strings, sort_strings, split_at_char, str_eq, str_lex_leq, u64_to_decimal};
use critter::{TweetBuilder, TweetMediaBuilder, TwitterMediaResponse, TwitterPostData, TwitterUserData};

#[test]
fn decimal_rendering_is_exact() {
    assert_eq!(u64_to_decimal(0), "0");
    assert_eq!(u64_to_decimal(7), "7");
    assert_eq!(u64_to_decimal(42), "42");
    assert_eq!(u64_to_decimal(1700000000), "1700000000");
    assert_eq!(u64_to_decimal(u64::MAX), "18446744073709551615");
}

#[test]
fn sorting_and_joining_strings() {
    let v = vec![String::from("b"), String::from("a"), String::from("ab")];
    let sorted = sort_strings(&v);
    assert_eq!(sorted, vec!["a", "ab", "b"]);
    assert_eq!(join_strings(&sorted, "&"), "a&ab&b");
    assert_eq!(join_strings(&Vec::new(), "&"), "");
    let one = vec![String::from("solo")];
    assert_eq!(join_strings(&one, ","), "solo");
}

#[test]
fn string_comparisons() {
    assert!(str_lex_leq("a", "b"));
    assert!(str_lex_leq("a", "ab"));
    assert!(!str_lex_leq("b", "ab"));
    assert!(str_lex_leq("", "x"));
    assert!(str_lex_leq("same", "same"));
    assert!(str_eq("same", "same"));
    assert!(!str_eq("same", "samey"));
}

#[test]
fn splitting_at_a_delimiter() {
    let (pre, rest, found) = split_at_char("key\"tail", '"');
    assert_eq!(pre, "key");
    assert_eq!(rest, "tail");
    assert!(found);
    let (pre, rest, found) = split_at_char("noquote", '"');
    assert_eq!(pre, "noquote");
    assert_eq!(rest, "");
    assert!(!found);
}

#[test]
fn post_data_accessors() {
    let with_text = TwitterPostData::new(String::from("9"), Some(String::from("hi")));
    assert_eq!(with_text.id(), "9");
    assert!(with_text.has_text());
    assert_eq!(with_text.description(), "hi");
    let bare = TwitterPostData::new(String::from("9"), None);
    assert!(!bare.has_text());
    assert_eq!(bare.description(), "none");
}

#[test]
fn user_data_accessors() {
    let full = TwitterUserData::new(
        String::from("1"),
        String::from("Ada"),
        String::from("ada"),
        Some(String::from("counts things")),
        Some(String::from("2006-03-21")),
    );
    assert_eq!(full.id(), "1");
    assert_eq!(full.name(), "Ada");
    assert_eq!(full.username(), "ada");
    assert!(full.has_description());
    assert_eq!(full.description(), "counts things");
    assert!(full.has_created_at());
    assert_eq!(full.created_at(), "2006-03-21");

    let sparse = TwitterUserData::new(
        String::from("2"),
        String::from("B"),
        String::from("b"),
        None,
        None,
    );
    assert!(!sparse.has_description());
    assert_eq!(sparse.description(), "");
    assert!(!sparse.has_created_at());
    assert_eq!(sparse.created_at(), "invalid");
}

#[test]
fn tweet_builders_collect_media_ids() {
    let mut media = TweetMediaBuilder::default();
    assert!(media.media_ids.is_empty());
    media.add(Some(TwitterMediaResponse::new(5, String::from("5"), None, None)));
    media.add(None);
    media.id(1234);
    assert_eq!(media.media_ids, vec!["5", "1234"]);

    let mut tweet = TweetBuilder::default();
    assert!(tweet.text.is_none());
    assert!(tweet.media.is_none());
    tweet.text("hello");
    tweet.media(media);
    assert_eq!(tweet.text.as_deref(), Some("hello"));
    assert_eq!(tweet.media.unwrap().media_ids, vec!["5", "1234"]);
}
