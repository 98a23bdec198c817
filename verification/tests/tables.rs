use bjo::table::{parse_action, parse_answer, Action, Grid, SimError, Strategy};

fn hard_codes() -> Vec<&'static str> {
    vec![
        "s", "d", "d", "d", "d", "s", "s", "s", "s", "s", // 9
        "d", "d", "d", "d", "d", "d", "d", "d", "s", "s", // 10
        "d", "d", "d", "d", "d", "d", "d", "d", "d", "d", // 11
        "h", "h", "s", "s", "s", "h", "h", "h", "h", "h", // 12
        "s", "s", "s", "s", "s", "h", "h", "h", "h", "h", // 13
        "s", "s", "s", "s", "s", "h", "h", "h", "h", "h", // 14
        "s", "s", "s", "s", "s", "h", "h", "h", "h", "h", // 15
        "s", "s", "s", "s", "s", "h", "h", "h", "h", "h", // 16
        "s", "s", "s", "s", "s", "s", "s", "s", "s", "s", // 17
        "s", "s", "s", "s", "s", "s", "s", "s", "s", "s", // 18
    ]
}

fn split_codes() -> Vec<&'static str> {
    vec![
        "y", "y", "y", "y", "y", "y", "n", "n", "n", "n", // 2,2
        "y", "y", "y", "y", "y", "y", "n", "n", "n", "n", // 3,3
        "n", "n", "n", "y", "y", "n", "n", "n", "n", "n", // 4,4
        "n", "n", "n", "n", "n", "n", "n", "n", "n", "n", // 5,5
        "y", "y", "y", "y", "y", "n", "n", "n", "n", "n", // 6,6
        "y", "y", "y", "y", "y", "y", "n", "n", "n", "n", // 7,7
        "y", "y", "y", "y", "y", "y", "y", "y", "y", "y", // 8,8
        "y", "y", "y", "y", "y", "n", "y", "y", "n", "n", // 9,9
        "n", "n", "n", "n", "n", "n", "n", "n", "n", "n", // 10,10
        "y", "y", "y", "y", "y", "y", "y", "y", "y", "y", // A,A
    ]
}

fn grid(codes: Vec<&'static str>) -> Grid {
    Grid::new(10, 10, codes).unwrap()
}

#[test]
fn grid_new_wants_the_right_number_of_codes() {
    assert!(Grid::new(2, 3, vec!["a", "b", "c", "d", "e", "f"]).is_some());
    assert!(Grid::new(2, 3, vec!["a", "b", "c", "d", "e"]).is_none());
    assert!(Grid::new(3, 3, vec!["a", "b", "c", "d", "e", "f"]).is_none());
    assert!(Grid::new(0, 3, vec![]).is_none());
    assert!(Grid::new(3, 0, vec![]).is_none());
    assert!(Grid::new(usize::MAX, 2, vec!["a", "b"]).is_none());
}

#[test]
fn grid_holds_its_codes_row_by_row() {
    let table = Grid::new(2, 3, vec!["a", "b", "c", "d", "e", "f"]).unwrap();
    assert_eq!(table.shape(), (2, 3));
    assert_eq!(table.get(0, 0), Some("a"));
    assert_eq!(table.get(0, 2), Some("c"));
    assert_eq!(table.get(1, 0), Some("d"));
    assert_eq!(table.get(1, 2), Some("f"));
    assert_eq!(table.get(2, 0), None);
    assert_eq!(table.get(0, 3), None);
    assert!(!table.square());
    assert!(grid(hard_codes()).square());
}

#[test]
fn codes_parse_to_actions() {
    assert_eq!(parse_action("s"), Some(Action::Stand));
    assert_eq!(parse_action("h"), Some(Action::Hit));
    assert_eq!(parse_action("d"), Some(Action::Double));
    assert_eq!(parse_action("y"), None);
    assert_eq!(parse_action(""), None);
    assert_eq!(parse_action("sh"), None);
    assert_eq!(parse_action("S"), None);
    assert_eq!(parse_answer("y"), Some(true));
    assert_eq!(parse_answer("n"), Some(false));
    assert_eq!(parse_answer("s"), None);
    assert_eq!(parse_answer("yes"), None);
}

#[test]
fn strategy_reads_every_cell() {
    let hard = grid(hard_codes());
    let split = grid(split_codes());
    let rules = Strategy::from_grids(&hard, &hard, &split).unwrap();
    let codes = hard_codes();
    let answers = split_codes();
    for row in 0..10 {
        for column in 0..10 {
            let expected = parse_action(codes[row * 10 + column]).unwrap();
            assert_eq!(rules.hard(row, column), expected);
            assert_eq!(rules.soft(row, column), expected);
            assert_eq!(rules.split(row, column), answers[row * 10 + column] == "y");
        }
    }
    assert_eq!(rules.hard(0, 1), Action::Double);
    assert_eq!(rules.hard(3, 0), Action::Hit);
    assert_eq!(rules.hard(3, 2), Action::Stand);
    assert!(rules.split(7, 6));
    assert!(!rules.split(7, 5));
}

#[test]
fn strategy_refuses_a_wrong_shape() {
    let good = grid(hard_codes());
    let split = grid(split_codes());
    let short = Grid::new(9, 10, hard_codes()[..90].to_vec()).unwrap();
    let wide = Grid::new(5, 20, hard_codes()).unwrap();
    assert_eq!(Strategy::from_grids(&short, &good, &split).err(), Some(SimError::TableShape));
    assert_eq!(Strategy::from_grids(&good, &wide, &split).err(), Some(SimError::TableShape));
    assert_eq!(Strategy::from_grids(&good, &good, &short).err(), Some(SimError::TableShape));
}

#[test]
fn strategy_refuses_an_unknown_code() {
    let good = grid(hard_codes());
    let split = grid(split_codes());
    let mut codes = hard_codes();
    codes[99] = "x";
    let bad = grid(codes);
    assert_eq!(Strategy::from_grids(&bad, &good, &split).err(), Some(SimError::TableCode));
    assert_eq!(Strategy::from_grids(&good, &bad, &split).err(), Some(SimError::TableCode));
    assert_eq!(Strategy::from_grids(&good, &good, &good).err(), Some(SimError::TableCode));
    assert_eq!(Strategy::from_grids(&split, &good, &split).err(), Some(SimError::TableCode));
    let mut answers = split_codes();
    answers[0] = "";
    assert_eq!(
        Strategy::from_grids(&good, &good, &grid(answers)).err(),
        Some(SimError::TableCode)
    );
}

#[test]
fn shape_is_checked_before_codes() {
    let mut codes = hard_codes();
    codes[0] = "x";
    let bad = grid(codes);
    let short = Grid::new(9, 10, split_codes()[..90].to_vec()).unwrap();
    assert_eq!(Strategy::from_grids(&bad, &bad, &short).err(), Some(SimError::TableShape));
}
