use workpool::basics;
use workpool::numtext::{parse_u32, u32_to_dec};
use workpool::parsing::{
    add_numbers_from_strings, find_word, get_first_word, parse_number, ParseError,
};
use workpool::shapes::Rectangle;
use workpool::summary::{
    largest, returns_summarizable, some_function, MixedPoint, Number, NewsArticle, Point, Summary,
    Tweet,
};
use workpool::text::{split_text, str_eq, str_eq_ignore_ascii_case};

#[test]
fn test_add_numbers() {
    assert_eq!(basics::add_numbers(2, 3), 5);
}

#[test]
fn addition_and_division() {
    assert_eq!(basics::add(5, 3), 8);
    assert_eq!(basics::divide(10, 3), (3, 1));
    assert_eq!(basics::divide(-7, 2), (-3, -1));
    assert_eq!(basics::divide(7, -2), (-3, 1));
    assert_eq!(basics::divide(-7, -2), (3, -1));
    assert_eq!(basics::divide(i32::MIN, 1), (i32::MIN, 0));
}

#[test]
fn ownership_helpers() {
    assert_eq!(basics::gives_ownership(), "yours");
    assert_eq!(basics::takes_and_gives_back("hello".to_string()), "hello");
    assert_eq!(basics::calculate_length(&"hello".to_string()), 5);
    let mut s = "hello".to_string();
    basics::change(&mut s);
    assert_eq!(s, "hello, world");
    assert_eq!(basics::first_word(&"hello world".to_string()), "hello");
    assert_eq!(basics::first_word(&"plain".to_string()), "plain");
}

#[test]
fn decimal_text_round_trips() {
    assert_eq!(u32_to_dec(0), "0");
    assert_eq!(u32_to_dec(7), "7");
    assert_eq!(u32_to_dec(12345), "12345");
    assert_eq!(u32_to_dec(u32::MAX), "4294967295");
    assert_eq!(parse_u32("0"), Some(0));
    assert_eq!(parse_u32("4294967295"), Some(u32::MAX));
    assert_eq!(parse_u32("4294967296"), None);
    assert_eq!(parse_u32(""), None);
    assert_eq!(parse_u32("12a"), None);
    assert_eq!(parse_u32("007"), Some(7));
}

#[test]
fn parsing_numbers_with_signs() {
    assert_eq!(parse_number("42"), Ok(42));
    assert_eq!(parse_number("+8"), Ok(8));
    assert_eq!(parse_number("-17"), Ok(-17));
    assert_eq!(parse_number("2147483647"), Ok(i32::MAX));
    assert_eq!(parse_number("-2147483648"), Ok(i32::MIN));
    assert_eq!(parse_number("2147483648"), Err(ParseError::OutOfRange));
    assert_eq!(parse_number("-2147483649"), Err(ParseError::OutOfRange));
    assert_eq!(parse_number(""), Err(ParseError::Empty));
    assert_eq!(parse_number("-"), Err(ParseError::InvalidDigit));
    assert_eq!(parse_number("abc"), Err(ParseError::InvalidDigit));
    assert_eq!(parse_number("1 2"), Err(ParseError::InvalidDigit));
}

#[test]
fn adding_numbers_from_text() {
    assert_eq!(add_numbers_from_strings("10", "20"), Ok(30));
    assert_eq!(add_numbers_from_strings("-5", "3"), Ok(-2));
    assert_eq!(add_numbers_from_strings("x", "3"), Err(ParseError::InvalidDigit));
    assert_eq!(add_numbers_from_strings("3", ""), Err(ParseError::Empty));
}

#[test]
fn finding_words() {
    let text = "Hello world, this is text to search";
    assert_eq!(find_word(text, "world"), Some(6));
    assert_eq!(find_word(text, "Hello"), Some(0));
    assert_eq!(find_word(text, "absent"), None);
    assert_eq!(find_word(text, ""), Some(0));
    assert_eq!(find_word("aaab", "ab"), Some(2));
}

#[test]
fn first_words() {
    assert_eq!(get_first_word("Hello world"), Some("Hello"));
    assert_eq!(get_first_word("  leading spaces"), Some("leading"));
    assert_eq!(get_first_word("single"), Some("single"));
    assert_eq!(get_first_word(""), None);
    assert_eq!(get_first_word("   "), None);
}

#[test]
fn text_comparisons_and_splitting() {
    assert!(str_eq("abc", "abc"));
    assert!(!str_eq("abc", "abd"));
    assert!(!str_eq("abc", "ab"));
    assert!(str_eq_ignore_ascii_case("MiXeD", "mixed"));
    assert!(!str_eq_ignore_ascii_case("mixed", "mixes"));
    let parts = split_text("a|b||c", '|');
    assert_eq!(parts, vec!["a", "b", "", "c"]);
    assert_eq!(split_text("plain", '|'), vec!["plain"]);
    assert_eq!(split_text("", '|'), vec![""]);
}

#[test]
fn rectangles() {
    let rect = Rectangle { width: 30, height: 50 };
    assert_eq!(rect.area(), 1500);
    let small = Rectangle { width: 10, height: 40 };
    let wide = Rectangle { width: 60, height: 45 };
    assert!(rect.can_hold(&small));
    assert!(!rect.can_hold(&wide));
    let sq = Rectangle::square(3);
    assert_eq!((sq.width, sq.height), (3, 3));
}

#[test]
fn summaries_announce_their_text() {
    let article = NewsArticle {
        headline: "Penguins win the Stanley Cup Championship!".to_string(),
        location: "Pittsburgh, PA, USA".to_string(),
        author: "Iceburgh".to_string(),
        content: "The Pittsburgh Penguins once again are the best hockey team in the NHL."
            .to_string(),
    };
    assert_eq!(
        article.summarize(),
        "Penguins win the Stanley Cup Championship!, by Iceburgh (Pittsburgh, PA, USA)"
    );
    assert_eq!(article.summarize_author(), "@Iceburgh");

    let tweet = Tweet {
        username: "horse_ebooks".to_string(),
        content: "of course, as you probably already know, people".to_string(),
        reply: false,
        retweet: false,
    };
    assert_eq!(tweet.summarize(), "horse_ebooks: of course, as you probably already know, people");
    assert_eq!(tweet.summarize_author(), "(Read more...)");

    let example = returns_summarizable();
    assert_eq!(example.username, "horse_ebooks");
    assert!(!example.reply && !example.retweet);
}

#[test]
fn generic_points_and_largest() {
    let p = Point::new(5, 10);
    assert_eq!(*p.x(), 5);
    let mixed = MixedPoint { x: 5, y: 10.4 };
    let other = MixedPoint { x: "Hello", y: 'c' };
    let crossed = mixed.mixup(other);
    assert_eq!(crossed.x, 5);
    assert_eq!(crossed.y, 'c');

    assert_eq!(largest(&[34, 50, 25, 100, 65]), 100);
    assert_eq!(largest(&['y', 'm', 'a', 'q']), 'y');
    assert_eq!(some_function(&"anything", &0u8), 42);
}

#[test]
fn numbers_compare() {
    let ten = Number { value: 10 };
    let twenty = Number { value: 20 };
    assert_eq!(ten.compare(&twenty), std::cmp::Ordering::Less);
    assert_eq!(twenty.compare(&ten), std::cmp::Ordering::Greater);
    assert_eq!(ten.compare(&Number { value: 10 }), std::cmp::Ordering::Equal);
}
