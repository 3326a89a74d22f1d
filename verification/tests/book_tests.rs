use workpool::add_two;
use workpool::geometry::Rectangle;
use workpool::words::search;
use workpool::words::search_case_insensitive;

#[test]
fn it_works() {
    let result = 2 + 2;
    assert_eq!(result, 4);
}

#[test]
fn larger_can_hold_smaller() {
    let larger = Rectangle::new(8, 7);
    let smaller = Rectangle::new(5, 1);

    assert!(larger.can_hold(&smaller));
}

#[test]
fn smaller_cannot_hold_larger() {
    let larger = Rectangle::new(8, 7);
    let smaller = Rectangle::new(5, 1);

    assert!(!smaller.can_hold(&larger));
}

#[test]
fn it_adds_two() {
    let result = add_two(2);
    assert_eq!(4, result, "Number did not add 2, value was {result}");
}

#[test]
fn using_result_in_tests() -> Result<(), String> {
    if 2 + 2 == 4 {
        Ok(())
    } else {
        Err(String::from("2 + 2 != 4"))
    }
}

#[test]
fn case_sensitive() {
    let query = "duct";
    let contents = vec![
        "Rust:",
        "safe, fast, productive.",
        "Pick three.",
        "Duct tape.",
    ]
    .join("\n");
    assert_eq!(vec!["safe, fast, productive."], search(query, &contents));
}

#[test]
fn case_insensitive() {
    let query = "duct";
    let contents = vec![
        "Rust:",
        "safe, fast, productive.",
        "Pick three.",
        "Duct tape.",
    ]
    .join("\n");
    assert_eq!(
        vec!["safe, fast, productive.", "Duct tape."],
        search_case_insensitive(query, &contents)
    );
}
