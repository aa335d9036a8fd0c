use lexopt_schema::engine::{parse, Binding, MaterializedValue, Outcome, ParseError};
use lexopt_schema::help::render;
use lexopt_schema::schema::{DisplayArg, DisplayCommand, IntegerType, ValueType};
use lexopt_schema::token::{Token, TokenStream};
use lexopt_schema::value::Value;

fn flag(field: &str, ty: ValueType, short: Option<char>, optional: bool) -> DisplayArg {
    DisplayArg {
        optional,
        long_name: field.to_string(),
        short_name: short,
        description: String::new(),
        field_name: field.to_string(),
        value_type: ty,
    }
}

fn command(name: &str, args: Vec<DisplayArg>, subcommands: Vec<DisplayCommand>) -> DisplayCommand {
    DisplayCommand {
        name: name.to_string(),
        subcommands,
        args,
        usage: String::new(),
        description: String::new(),
        choice: false,
        default_subcommand: None,
    }
}

fn install_schema() -> DisplayCommand {
    command(
        "cli",
        vec![flag("verbose", ValueType::Boolean, Some('v'), true)],
        vec![command("install", vec![flag("name", ValueType::Text, None, false)], vec![])],
    )
}

fn value(text: &str) -> Token {
    Token::Value(text.to_string())
}

fn long(text: &str) -> Token {
    Token::Long(text.to_string())
}

fn record(name: &str, fields: Vec<(&str, Value)>) -> Outcome {
    Outcome::Parsed(MaterializedValue {
        command: name.to_string(),
        fields: fields
            .into_iter()
            .map(|(field, value)| Binding { field_name: field.to_string(), value })
            .collect(),
    })
}

#[test]
fn install_with_name_materializes_the_install_scope() {
    let schema = install_schema();
    let mut tokens = TokenStream::new(vec![value("install"), long("name"), value("x")]);
    let result = parse(&schema, &mut tokens);
    assert_eq!(result, Ok(record("install", vec![("name", Value::Text("x".to_string()))])));
    assert_eq!(tokens.position(), 3);
}

#[test]
fn install_without_name_misses_the_required_flag() {
    let schema = install_schema();
    let mut tokens = TokenStream::new(vec![value("install")]);
    let result = parse(&schema, &mut tokens);
    assert_eq!(
        result,
        Err(ParseError::MissingRequiredFlag { flag: "name".to_string(), scope: "install".to_string() })
    );
}

#[test]
fn help_inside_install_stops_the_parse() {
    let schema = install_schema();
    let mut tokens = TokenStream::new(vec![
        Token::Short('v'),
        value("true"),
        value("install"),
        Token::Short('h'),
        long("name"),
        value("x"),
    ]);
    let result = parse(&schema, &mut tokens);
    assert_eq!(result, Ok(Outcome::HelpRequested(render(&schema.subcommands[0]))));
    assert_eq!(tokens.position(), 4);
}

#[test]
fn a_flag_consumes_the_token_behind_it_as_its_value() {
    let schema = install_schema();
    let mut tokens = TokenStream::new(vec![Token::Short('v'), value("install"), Token::Short('h')]);
    let result = parse(&schema, &mut tokens);
    assert_eq!(
        result,
        Err(ParseError::InvalidValue {
            token: value("install"),
            expected: ValueType::Boolean,
            scope: "cli".to_string(),
        })
    );
    assert_eq!(tokens.position(), 2);
}

#[test]
fn bogus_positional_is_an_unknown_argument() {
    let schema = install_schema();
    let mut tokens = TokenStream::new(vec![value("bogus")]);
    let result = parse(&schema, &mut tokens);
    assert_eq!(
        result,
        Err(ParseError::UnknownArgument { token: value("bogus"), scope: "cli".to_string() })
    );
    assert_eq!(tokens.position(), 1);
}

fn choice(name: &str, subcommands: Vec<DisplayCommand>, default_subcommand: Option<usize>) -> DisplayCommand {
    DisplayCommand {
        name: name.to_string(),
        subcommands,
        args: vec![],
        usage: String::new(),
        description: String::new(),
        choice: true,
        default_subcommand,
    }
}

fn typed_schema() -> DisplayCommand {
    command(
        "tool",
        vec![
            flag("verbose", ValueType::Boolean, Some('v'), true),
            flag("name", ValueType::Text, Some('n'), true),
            flag("count", ValueType::Integer(IntegerType::I64), Some('c'), true),
        ],
        vec![],
    )
}

#[test]
fn empty_stream_gives_every_default() {
    let schema = typed_schema();
    let mut tokens = TokenStream::new(vec![]);
    let result = parse(&schema, &mut tokens);
    assert_eq!(
        result,
        Ok(record(
            "tool",
            vec![
                ("verbose", Value::Boolean(false)),
                ("name", Value::Text(String::new())),
                ("count", Value::Integer(0)),
            ]
        ))
    );
    assert_eq!(tokens.position(), 0);
    assert!(tokens.is_end());
}

#[test]
fn long_form_after_short_form_wins() {
    let schema = typed_schema();
    let mut tokens =
        TokenStream::new(vec![Token::Short('n'), value("first"), long("name"), value("second")]);
    let result = parse(&schema, &mut tokens);
    assert_eq!(
        result,
        Ok(record(
            "tool",
            vec![
                ("verbose", Value::Boolean(false)),
                ("name", Value::Text("second".to_string())),
                ("count", Value::Integer(0)),
            ]
        ))
    );
}

#[test]
fn short_form_after_long_form_wins() {
    let schema = typed_schema();
    let mut tokens = TokenStream::new(vec![long("count"), value("1"), Token::Short('c'), value("2")]);
    let result = parse(&schema, &mut tokens);
    assert_eq!(
        result,
        Ok(record(
            "tool",
            vec![
                ("verbose", Value::Boolean(false)),
                ("name", Value::Text(String::new())),
                ("count", Value::Integer(2)),
            ]
        ))
    );
}

#[test]
fn values_are_converted_to_the_type_of_their_flag() {
    let schema = typed_schema();
    let mut tokens = TokenStream::new(vec![
        long("verbose"),
        value("true"),
        long("count"),
        value("-42"),
        long("name"),
        value("true"),
    ]);
    let result = parse(&schema, &mut tokens);
    assert_eq!(
        result,
        Ok(record(
            "tool",
            vec![
                ("verbose", Value::Boolean(true)),
                ("name", Value::Text("true".to_string())),
                ("count", Value::Integer(-42)),
            ]
        ))
    );
    assert_eq!(tokens.position(), 6);
}

#[test]
fn a_word_that_is_no_integer_is_an_invalid_value() {
    let schema = typed_schema();
    let mut tokens = TokenStream::new(vec![long("count"), value("many"), long("name"), value("x")]);
    let result = parse(&schema, &mut tokens);
    assert_eq!(
        result,
        Err(ParseError::InvalidValue {
            token: value("many"),
            expected: ValueType::Integer(IntegerType::I64),
            scope: "tool".to_string(),
        })
    );
    assert_eq!(tokens.position(), 2);
}

#[test]
fn a_boolean_takes_only_true_and_false() {
    let schema = typed_schema();
    let mut tokens = TokenStream::new(vec![Token::Short('v'), value("false")]);
    assert_eq!(
        parse(&schema, &mut tokens),
        Ok(record(
            "tool",
            vec![
                ("verbose", Value::Boolean(false)),
                ("name", Value::Text(String::new())),
                ("count", Value::Integer(0)),
            ]
        ))
    );
    let mut tokens = TokenStream::new(vec![Token::Short('v'), value("yes")]);
    assert_eq!(
        parse(&schema, &mut tokens),
        Err(ParseError::InvalidValue {
            token: value("yes"),
            expected: ValueType::Boolean,
            scope: "tool".to_string(),
        })
    );
}

#[test]
fn a_flag_at_the_end_of_the_stream_lacks_its_value() {
    let schema = typed_schema();
    let mut tokens = TokenStream::new(vec![long("name")]);
    let result = parse(&schema, &mut tokens);
    assert_eq!(
        result,
        Err(ParseError::InvalidValue {
            token: long("name"),
            expected: ValueType::Text,
            scope: "tool".to_string(),
        })
    );
    assert_eq!(tokens.position(), 1);
}

#[test]
fn an_option_in_value_position_is_no_value() {
    let schema = typed_schema();
    let mut tokens = TokenStream::new(vec![long("name"), Token::Short('v'), value("true")]);
    let result = parse(&schema, &mut tokens);
    assert_eq!(
        result,
        Err(ParseError::InvalidValue {
            token: Token::Short('v'),
            expected: ValueType::Text,
            scope: "tool".to_string(),
        })
    );
    assert_eq!(tokens.position(), 2);
}

#[test]
fn an_option_of_no_flag_is_an_unknown_argument() {
    let schema = typed_schema();
    let mut tokens = TokenStream::new(vec![long("colour"), value("red")]);
    assert_eq!(
        parse(&schema, &mut tokens),
        Err(ParseError::UnknownArgument { token: long("colour"), scope: "tool".to_string() })
    );
    assert_eq!(tokens.position(), 1);
    let mut tokens = TokenStream::new(vec![Token::Short('x')]);
    assert_eq!(
        parse(&schema, &mut tokens),
        Err(ParseError::UnknownArgument { token: Token::Short('x'), scope: "tool".to_string() })
    );
}

#[test]
fn a_positional_without_subcommands_is_an_unknown_argument() {
    let schema = typed_schema();
    let mut tokens = TokenStream::new(vec![long("name"), value("x"), value("install"), long("count")]);
    let result = parse(&schema, &mut tokens);
    assert_eq!(
        result,
        Err(ParseError::UnknownArgument { token: value("install"), scope: "tool".to_string() })
    );
    assert_eq!(tokens.position(), 3);
}

#[test]
fn long_help_at_the_top_renders_the_top() {
    let schema = install_schema();
    let mut tokens = TokenStream::new(vec![long("help"), value("install")]);
    let result = parse(&schema, &mut tokens);
    assert_eq!(result, Ok(Outcome::HelpRequested(render(&schema))));
    assert_eq!(tokens.position(), 1);
}

#[test]
fn a_flag_named_like_help_is_bound_as_a_flag() {
    let schema = command("tool", vec![flag("help", ValueType::Text, Some('h'), true)], vec![]);
    let mut tokens = TokenStream::new(vec![Token::Short('h'), value("me")]);
    assert_eq!(
        parse(&schema, &mut tokens),
        Ok(record("tool", vec![("help", Value::Text("me".to_string()))]))
    );
}

#[test]
fn flags_of_the_outer_scope_are_unknown_in_the_inner() {
    let schema = install_schema();
    let mut tokens = TokenStream::new(vec![value("install"), Token::Short('v'), value("true")]);
    assert_eq!(
        parse(&schema, &mut tokens),
        Err(ParseError::UnknownArgument { token: Token::Short('v'), scope: "install".to_string() })
    );
    assert_eq!(tokens.position(), 2);
}

#[test]
fn dispatch_is_by_exact_name() {
    let schema = install_schema();
    let mut tokens = TokenStream::new(vec![value("Install")]);
    assert_eq!(
        parse(&schema, &mut tokens),
        Err(ParseError::UnknownArgument { token: value("Install"), scope: "cli".to_string() })
    );
}

#[test]
fn a_choice_without_selection_takes_its_default() {
    let schema = choice(
        "command",
        vec![
            command("install", vec![flag("name", ValueType::Text, None, false)], vec![]),
            command("hello", vec![flag("times", ValueType::Integer(IntegerType::I64), None, true)], vec![]),
        ],
        Some(1),
    );
    let mut tokens = TokenStream::new(vec![]);
    assert_eq!(parse(&schema, &mut tokens), Ok(record("hello", vec![("times", Value::Integer(0))])));
    let mut tokens = TokenStream::new(vec![value("hello"), long("times"), value("3")]);
    assert_eq!(parse(&schema, &mut tokens), Ok(record("hello", vec![("times", Value::Integer(3))])));
}

#[test]
fn a_choice_without_default_misses_its_subcommand() {
    let schema = choice("command", vec![command("install", vec![], vec![])], None);
    let mut tokens = TokenStream::new(vec![]);
    assert_eq!(
        parse(&schema, &mut tokens),
        Err(ParseError::MissingSubcommand { scope: "command".to_string() })
    );
}

#[test]
fn a_default_with_a_required_flag_misses_the_flag() {
    let schema = choice(
        "command",
        vec![command("install", vec![flag("name", ValueType::Text, None, false)], vec![])],
        Some(0),
    );
    let mut tokens = TokenStream::new(vec![]);
    assert_eq!(
        parse(&schema, &mut tokens),
        Err(ParseError::MissingRequiredFlag { flag: "name".to_string(), scope: "install".to_string() })
    );
}

#[test]
fn the_first_unset_required_flag_is_named() {
    let schema = command(
        "tool",
        vec![
            flag("a", ValueType::Text, None, true),
            flag("b", ValueType::Text, None, false),
            flag("c", ValueType::Text, None, false),
        ],
        vec![],
    );
    let mut tokens = TokenStream::new(vec![long("c"), value("x")]);
    assert_eq!(
        parse(&schema, &mut tokens),
        Err(ParseError::MissingRequiredFlag { flag: "b".to_string(), scope: "tool".to_string() })
    );
}

#[test]
fn the_stream_goes_on_where_the_outer_scope_stopped() {
    let schema = install_schema();
    let mut tokens = TokenStream::new(vec![long("verbose"), value("true")]);
    tokens.advance();
    tokens.advance();
    assert!(tokens.is_end());
    assert_eq!(tokens.peek(), None);
    assert_eq!(parse(&schema, &mut tokens), Ok(record("cli", vec![("verbose", Value::Boolean(false))])));
    assert_eq!(tokens.position(), 2);
}
