use minilib::min_by_key;
use minilib::parse_port;
use minilib::roll_dice;

#[test]
fn min_by_key_of_nothing_is_nothing() {
    let empty: [i32; 0] = [];
    assert_eq!(min_by_key(&empty, |x: &i32| *x), None);
}

#[test]
fn min_by_key_finds_the_shortest_string() {
    let items = ["bb", "a", "ccc"];
    let r = min_by_key(&items, |s: &&str| s.len());
    assert_eq!(r, Some(&"a"));
}

#[test]
fn min_by_key_keeps_the_first_of_tied_keys() {
    let items = [5, 3, 3, 7];
    let r = min_by_key(&items, |x: &i32| *x);
    assert_eq!(r, Some(&3));
    // Tag the elements so the two tied keys are distinguishable: the
    // earlier one must win.
    let tagged = [(5, 0), (3, 1), (3, 2), (7, 3)];
    let r = min_by_key(&tagged, |p: &(i32, i32)| p.0);
    assert_eq!(r, Some(&(3, 1)));
}

#[test]
fn min_by_key_of_one_element() {
    let items = [42];
    assert_eq!(min_by_key(&items, |x: &i32| *x), Some(&42));
}

#[test]
fn parse_port_accepts_decimal_numbers() {
    assert_eq!(parse_port("8080"), Ok(8080));
    assert_eq!(parse_port("0"), Ok(0));
    assert_eq!(parse_port("+80"), Ok(80));
    assert_eq!(parse_port("007"), Ok(7));
    assert_eq!(parse_port("65535"), Ok(65535));
}

#[test]
fn parse_port_rejects_the_empty_string() {
    assert_eq!(
        parse_port(""),
        Err(String::from("Invalid port '': cannot parse integer from empty string"))
    );
}

#[test]
fn parse_port_rejects_non_digits() {
    assert_eq!(
        parse_port("12a"),
        Err(String::from("Invalid port '12a': invalid digit found in string"))
    );
    assert_eq!(
        parse_port("+"),
        Err(String::from("Invalid port '+': invalid digit found in string"))
    );
    assert_eq!(
        parse_port("-1"),
        Err(String::from("Invalid port '-1': invalid digit found in string"))
    );
}

#[test]
fn parse_port_rejects_numbers_past_the_range() {
    assert_eq!(
        parse_port("65536"),
        Err(String::from("Invalid port '65536': number too large to fit in target type"))
    );
    assert_eq!(
        parse_port("99999999999999999999"),
        Err(String::from(
            "Invalid port '99999999999999999999': number too large to fit in target type"
        ))
    );
}

#[test]
fn parse_port_reports_the_first_violation_met() {
    // The scan accumulates left to right: the range is overrun at the fifth
    // digit, before the bad character is reached.
    assert_eq!(
        parse_port("70000x"),
        Err(String::from("Invalid port '70000x': number too large to fit in target type"))
    );
    // Here the bad character comes first.
    assert_eq!(
        parse_port("9x99999"),
        Err(String::from("Invalid port '9x99999': invalid digit found in string"))
    );
}

#[test]
fn roll_dice_stays_on_the_die() {
    for _ in 0..200 {
        let r = roll_dice(6);
        assert!((1..=6).contains(&r));
    }
    for _ in 0..50 {
        assert_eq!(roll_dice(1), 1);
    }
    // A six-sided die that lands on its highest face two hundred times in a
    // row is broken; the roll must depend on the range, not echo `sides`.
    let mut saw_not_six = false;
    for _ in 0..200 {
        if roll_dice(6) != 6 {
            saw_not_six = true;
        }
    }
    assert!(saw_not_six);
}
