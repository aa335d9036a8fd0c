use lexopt_schema::builder::{has_clear_names, is_well_formed};
use lexopt_schema::engine::{finish, Binding, MaterializedValue, Outcome, ParseError, ParseState};
use lexopt_schema::schema::{find_command, DisplayArg, DisplayCommand, IntegerType, ValueType};
use lexopt_schema::token::Token;
use lexopt_schema::value::Value;

fn flag(long: &str, short: Option<char>, optional: bool) -> DisplayArg {
    DisplayArg {
        optional,
        long_name: long.to_string(),
        short_name: short,
        description: String::new(),
        field_name: long.replace('-', "_"),
        value_type: ValueType::Integer(IntegerType::I64),
    }
}

fn command(name: &str, args: Vec<DisplayArg>, subcommands: Vec<DisplayCommand>) -> DisplayCommand {
    DisplayCommand {
        name: name.to_string(),
        subcommands,
        args,
        usage: String::new(),
        description: String::new(),
        choice: false,
        default_subcommand: None,
    }
}

#[test]
fn a_flag_is_named_by_its_short_or_its_long_form() {
    let dry_run = flag("dry-run", Some('d'), true);
    assert!(dry_run.matches(&Token::Short('d')));
    assert!(dry_run.matches(&Token::Long("dry-run".to_string())));
    assert!(!dry_run.matches(&Token::Short('D')));
    assert!(!dry_run.matches(&Token::Long("dry_run".to_string())));
    assert!(!dry_run.matches(&Token::Long("d".to_string())));
    assert!(!dry_run.matches(&Token::Value("dry-run".to_string())));
    assert!(!flag("quiet", None, true).matches(&Token::Short('q')));
}

#[test]
fn lookups_stay_within_the_scope() {
    let schema = command(
        "top",
        vec![flag("alpha", Some('a'), true), flag("beta", None, true)],
        vec![command("one", vec![flag("gamma", Some('g'), true)], vec![]), command("two", vec![], vec![])],
    );
    assert_eq!(schema.find_flag(&Token::Long("beta".to_string())), Some(1));
    assert_eq!(schema.find_flag(&Token::Short('a')), Some(0));
    assert_eq!(schema.find_flag(&Token::Short('g')), None);
    assert_eq!(schema.find_flag(&Token::Value("alpha".to_string())), None);
    assert_eq!(schema.find_subcommand(&"two".to_string()), Some(1));
    assert_eq!(schema.find_subcommand(&"one".to_string()), Some(0));
    assert_eq!(schema.find_subcommand(&"three".to_string()), None);
    assert_eq!(schema.find_subcommand(&"top".to_string()), None);
    assert_eq!(find_command(&schema.subcommands, &"two".to_string()), Some(1));
    assert_eq!(find_command(&vec![], &"two".to_string()), None);
}

#[test]
fn the_first_of_two_equal_names_is_found() {
    let schema = command(
        "top",
        vec![flag("same", Some('s'), true), flag("same", Some('s'), true)],
        vec![command("twin", vec![], vec![]), command("twin", vec![], vec![])],
    );
    assert_eq!(schema.find_flag(&Token::Long("same".to_string())), Some(0));
    assert_eq!(schema.find_flag(&Token::Short('s')), Some(0));
    assert_eq!(schema.find_subcommand(&"twin".to_string()), Some(0));
}

#[test]
fn a_copy_of_a_tree_is_the_same_tree() {
    let schema = command(
        "top",
        vec![flag("alpha", Some('a'), false)],
        vec![command("one", vec![flag("gamma", None, true)], vec![command("deep", vec![], vec![])])],
    );
    assert_eq!(schema.duplicate(), schema);
    assert_eq!(schema.args[0].clone(), schema.args[0]);
}

#[test]
fn well_formed_schemas() {
    assert!(is_well_formed(&command("bare", vec![], vec![])));
    let schema = command(
        "top",
        vec![flag("alpha", Some('a'), true), flag("beta", None, true), flag("gamma", None, true)],
        vec![
            command("one", vec![flag("alpha", Some('a'), true)], vec![]),
            command("two", vec![], vec![command("one", vec![], vec![])]),
        ],
    );
    assert!(is_well_formed(&schema));
    let fallback =
        DisplayCommand { choice: true, default_subcommand: Some(1), args: vec![], ..schema.duplicate() };
    assert!(is_well_formed(&fallback));
}

#[test]
fn ill_formed_schemas() {
    let same_long = command("top", vec![flag("alpha", Some('a'), true), flag("alpha", None, true)], vec![]);
    assert!(!is_well_formed(&same_long));
    let same_short = command("top", vec![flag("alpha", Some('a'), true), flag("beta", Some('a'), true)], vec![]);
    assert!(!is_well_formed(&same_short));
    let same_name = command("top", vec![], vec![command("one", vec![], vec![]), command("one", vec![], vec![])]);
    assert!(!is_well_formed(&same_name));
    let no_such_default =
        DisplayCommand { choice: true, default_subcommand: Some(0), ..command("top", vec![], vec![]) };
    assert!(!is_well_formed(&no_such_default));
    let nested = command("top", vec![], vec![command("one", vec![], vec![same_long])]);
    assert!(!is_well_formed(&nested));
    let choice_with_flags = DisplayCommand {
        choice: true,
        ..command("top", vec![flag("alpha", None, true)], vec![command("one", vec![], vec![])])
    };
    assert!(!is_well_formed(&choice_with_flags));
}

#[test]
fn a_state_holds_the_value_bound_last() {
    let schema = command("top", vec![flag("alpha", None, true), flag("beta", None, false)], vec![]);
    let mut state = ParseState::new(&schema);
    assert_eq!(state.get(0), None);
    assert_eq!(state.get(1), None);
    assert_eq!(
        finish(&schema, &state),
        Err(ParseError::MissingRequiredFlag { flag: "beta".to_string(), scope: "top".to_string() })
    );
    state.bind(1, Value::Integer(1));
    state.bind(1, Value::Integer(2));
    assert_eq!(state.get(0), None);
    assert_eq!(state.get(1), Some(&Value::Integer(2)));
    assert_eq!(
        finish(&schema, &state),
        Ok(Outcome::Parsed(MaterializedValue {
            command: "top".to_string(),
            fields: vec![
                Binding { field_name: "alpha".to_string(), value: Value::Integer(0) },
                Binding { field_name: "beta".to_string(), value: Value::Integer(2) },
            ],
        }))
    );
}

#[test]
fn flags_and_subcommands_apart_in_name() {
    let clear = command(
        "top",
        vec![flag("alpha", None, true)],
        vec![command("one", vec![flag("top", None, true)], vec![command("alpha", vec![], vec![])])],
    );
    assert!(has_clear_names(&clear));
    let overlap = command("top", vec![flag("one", None, true)], vec![command("one", vec![], vec![])]);
    assert!(!has_clear_names(&overlap));
    let nested = command("top", vec![], vec![overlap]);
    assert!(!has_clear_names(&nested));
    assert!(is_well_formed(&nested));
}
