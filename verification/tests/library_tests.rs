use workpool::departments::Departments;
use workpool::dice::do_thing;
use workpool::dice::roll_d6;
use workpool::geometry::Rectangle;
use workpool::limiter::Limiter;
use workpool::limiter::QuotaLevel;
use workpool::numbers::compare_guess;
use workpool::numbers::explicit_integer_overflow;
use workpool::numbers::fib;
use workpool::numbers::is_greater_than;
use workpool::numbers::largest;
use workpool::numbers::Guess;
use workpool::numbers::GuessOutcome;
use workpool::shop::Coin;
use workpool::shop::Color;
use workpool::shop::Inventory;
use workpool::shop::UsState;
use workpool::stats::count_occurrences;
use workpool::stats::median;
use workpool::stats::mode;
use workpool::stats::sort_u64;
use workpool::summary::Article;
use workpool::summary::Summary;
use workpool::summary::Tweet;
use workpool::words::contains_str;
use workpool::words::first_word_using_slices;
use workpool::words::first_word_without_slices;
use workpool::words::give_ownership;
use workpool::words::longest;
use workpool::words::pig_latin;
use workpool::words::search;
use workpool::words::share_ownership;
use workpool::words::split_lines;

#[test]
fn first_word_ends_at_first_space() {
    let x = String::from("Hello World");
    assert_eq!(first_word_without_slices(&x), 5);
    assert_eq!(first_word_using_slices(&x), "Hello");
}

#[test]
fn first_word_of_spaceless_string_is_the_whole_string() {
    let x = String::from("Hello");
    assert_eq!(first_word_without_slices(&x), 5);
    assert_eq!(first_word_using_slices(&x), "Hello");
}

#[test]
fn ownership_helpers_report_byte_length() {
    let x = String::from("Hello");
    let (x, l) = give_ownership(x);
    assert_eq!(l, 5);
    assert_eq!(share_ownership(&x), 5);
}

#[test]
fn longest_picks_more_bytes_and_ties_go_second() {
    assert_eq!(longest("Matan", "Mathias"), "Mathias");
    assert_eq!(longest("abcd", "xyz"), "abcd");
    assert_eq!(longest("abc", "xyz"), "xyz");
}

#[test]
fn split_lines_handles_line_endings() {
    let lines = split_lines("a\r\nb\nc");
    assert_eq!(lines, vec!["a", "b", "c"]);
    assert_eq!(split_lines("a\nb\n"), vec!["a", "b"]);
    assert_eq!(split_lines(""), Vec::<String>::new());
    assert_eq!(split_lines("only"), vec!["only"]);
}

#[test]
fn contains_str_finds_substrings() {
    assert!(contains_str("safe, fast, productive.", "duct"));
    assert!(!contains_str("Pick three.", "duct"));
    assert!(contains_str("anything", ""));
    assert!(!contains_str("", "x"));
}

#[test]
fn search_with_empty_query_keeps_every_line() {
    let found = search("", "one\ntwo");
    assert_eq!(found, vec!["one", "two"]);
}

#[test]
fn pig_latin_moves_consonants_and_greets_vowels() {
    assert_eq!(pig_latin("hello"), "ellohay");
    assert_eq!(pig_latin("apple"), "applehay");
    assert_eq!(pig_latin("giraffe"), "iraffegay");
    assert_eq!(pig_latin("calculating"), "alculatingcay");
    assert_eq!(pig_latin("Здравствуйте"), "Здравствуйте");
    assert_eq!(pig_latin(""), "");
}

#[test]
fn fibonacci_values_are_exact() {
    assert_eq!(fib(0), 0);
    assert_eq!(fib(1), 1);
    assert_eq!(fib(5), 5);
    assert_eq!(fib(13), 233);
}

#[test]
fn overflow_operations_at_the_boundary() {
    let (wrapped, checked, overflowed, saturated) = explicit_integer_overflow(255);
    assert_eq!(wrapped, 0);
    assert_eq!(checked, None);
    assert_eq!(overflowed, (0, true));
    assert_eq!(saturated, 255);
}

#[test]
fn overflow_operations_below_the_boundary() {
    let (wrapped, checked, overflowed, saturated) = explicit_integer_overflow(41);
    assert_eq!(wrapped, 42);
    assert_eq!(checked, Some(42));
    assert_eq!(overflowed, (42, false));
    assert_eq!(saturated, 42);
}

#[test]
fn largest_finds_the_maximum() {
    let numbers = [6, 1, 8, 2, 3, 14, 9, 12, 4];
    assert_eq!(largest(&numbers), 14);
}

#[test]
fn is_greater_than_filters_by_the_bound() {
    assert_eq!(is_greater_than(vec![2, 3, 4], 2), vec![3, 4]);
    assert_eq!(is_greater_than(vec![], 0), Vec::<i64>::new());
}

#[test]
fn guess_holds_its_value() {
    let g = Guess::new(42);
    assert_eq!(g.value(), 42);
}

#[test]
fn comparing_guesses_to_the_secret() {
    assert_eq!(compare_guess(10, 50), GuessOutcome::TooSmall);
    assert_eq!(compare_guess(90, 50), GuessOutcome::TooBig);
    assert_eq!(compare_guess(50, 50), GuessOutcome::Win);
}

#[test]
fn sorting_orders_all_values() {
    let values = vec![5u64, 3, 9, 1, 3];
    assert_eq!(sort_u64(&values), vec![1, 3, 3, 5, 9]);
}

#[test]
fn median_is_the_middle_of_the_sorted_values() {
    assert_eq!(median(&vec![1u64, 5, 3]), 3);
    assert_eq!(median(&vec![4u64, 1, 2, 3]), 3);
    assert_eq!(median(&vec![7u64]), 7);
}

#[test]
fn mode_is_the_most_frequent_value() {
    assert_eq!(mode(&vec![1u64, 2, 2, 3]), 2);
    assert_eq!(mode(&vec![]), 0);
    // Of equally frequent values, the one seen first.
    assert_eq!(mode(&vec![3u64, 3, 1, 1]), 3);
}

#[test]
fn counting_occurrences() {
    let values = vec![2u64, 7, 2, 2];
    assert_eq!(count_occurrences(&values, 2), 3);
    assert_eq!(count_occurrences(&values, 9), 0);
}

#[test]
fn coin_values_in_cents() {
    assert_eq!(Coin::Penny.value(), 1);
    assert_eq!(Coin::Nickel.value(), 5);
    assert_eq!(Coin::Dime.value(), 10);
    assert_eq!(Coin::Quarter(UsState::Alabama).value(), 25);
}

#[test]
fn shirt_give_away_honors_preference() {
    let store = Inventory { shirts: vec![Color::Blue, Color::Red, Color::Blue] };
    assert_eq!(store.give_away(Some(Color::Red)), Color::Red);
    assert_eq!(store.give_away(None), Color::Blue);
}

#[test]
fn most_stocked_breaks_ties_red_green_blue() {
    let store = Inventory { shirts: vec![Color::Green, Color::Red] };
    assert_eq!(store.most_stocked(), Color::Red);
    let empty = Inventory { shirts: vec![] };
    assert_eq!(empty.most_stocked(), Color::Red);
}

#[test]
fn limiter_reports_quota_levels() {
    let mut limiter = Limiter::new(100);
    assert_eq!(limiter.set(50), QuotaLevel::Normal);
    assert_eq!(limiter.set(80), QuotaLevel::Warn70);
    assert_eq!(limiter.set(95), QuotaLevel::Warn90);
    assert_eq!(limiter.set(100), QuotaLevel::Over);
    assert_eq!(limiter.set(70), QuotaLevel::Warn70);
    assert_eq!(limiter.set(69), QuotaLevel::Normal);
}

#[test]
fn departments_group_employees_in_order() {
    let mut departments = Departments::new();
    departments.add_employee(String::from("Engineering"), String::from("Ada"));
    departments.add_employee(String::from("Sales"), String::from("Bert"));
    departments.add_employee(String::from("Engineering"), String::from("Grace"));
    assert_eq!(departments.department_count(), 2);
    assert_eq!(departments.department_at(0), "Engineering");
    assert_eq!(departments.department_at(1), "Sales");
    assert_eq!(departments.employees_at(0), &vec!["Ada", "Grace"]);
    assert_eq!(departments.employees_at(1), &vec!["Bert"]);
}

#[test]
fn tweet_summaries_use_the_default_promotion() {
    let tweet = Tweet {
        username: String::from("matanlurey"),
        message: String::from("Hello World"),
    };
    assert_eq!(tweet.summarize(), "Hello World by matanlurey");
    assert_eq!(tweet.promotion(), "No promotions attached");
}

#[test]
fn article_summaries_override_the_promotion() {
    let article = Article {
        author: String::from("Matan Lurey"),
        content: String::from("Hello World"),
    };
    assert_eq!(article.summarize(), "Hello World by Matan Lurey");
    assert_eq!(
        article.promotion(),
        "[AD] 0.9% APR on New Car Financing: See https://cars.xyz"
    );
}

#[test]
fn die_rolls_stay_in_range() {
    for _ in 0..100 {
        let r = roll_d6();
        assert!((1..=6).contains(&r));
        let d = do_thing();
        assert!((1..=6).contains(&d));
    }
}
