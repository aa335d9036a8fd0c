use lexopt_schema::engine::{Binding, MaterializedValue, Outcome, ParseError};
use lexopt_schema::help::render;
use lexopt_schema::lexer::{run, ParserInfo};
use lexopt_schema::schema::{DisplayArg, DisplayCommand, IntegerType, ValueType};
use lexopt_schema::token::Token;
use lexopt_schema::value::Value;

fn args(raw: &[&str]) -> Vec<String> {
    raw.iter().map(|a| a.to_string()).collect()
}

fn flag(field: &str, ty: ValueType, short: Option<char>, optional: bool) -> DisplayArg {
    DisplayArg {
        optional,
        long_name: field.to_string(),
        short_name: short,
        description: String::new(),
        field_name: field.to_string(),
        value_type: ty,
    }
}

fn command(name: &str, args: Vec<DisplayArg>, subcommands: Vec<DisplayCommand>) -> DisplayCommand {
    DisplayCommand {
        name: name.to_string(),
        subcommands,
        args,
        usage: String::new(),
        description: String::new(),
        choice: false,
        default_subcommand: None,
    }
}

fn install_schema() -> DisplayCommand {
    command(
        "cli",
        vec![flag("verbose", ValueType::Boolean, Some('v'), true)],
        vec![command("install", vec![flag("name", ValueType::Text, None, false)], vec![])],
    )
}

#[test]
fn arguments_are_split_into_tokens() {
    let mut parser = ParserInfo::new(args(&["-v", "true", "install", "--name", "x", "-", "--", "-y"]));
    assert_eq!(parser.tokens().map(|stream| stream.position()), Ok(0));
    assert_eq!(parser.next(), Ok(None));
    assert_eq!(
        all_tokens(&["-v", "true", "install", "--name", "x", "-", "--", "-y"]),
        vec![
            Token::Short('v'),
            Token::Value("true".to_string()),
            Token::Value("install".to_string()),
            Token::Long("name".to_string()),
            Token::Value("x".to_string()),
            Token::Value("-".to_string()),
            Token::Value("-y".to_string()),
        ]
    );
}

#[test]
fn tokens_come_one_by_one() {
    let mut parser = ParserInfo::new(args(&["--name", "x"]));
    assert_eq!(parser.next(), Ok(Some(Token::Long("name".to_string()))));
    assert_eq!(parser.next(), Ok(Some(Token::Value("x".to_string()))));
    assert_eq!(parser.next(), Ok(None));
    assert_eq!(parser.next(), Ok(None));
}

#[test]
fn no_arguments_no_tokens() {
    let mut parser = ParserInfo::new(vec![]);
    let stream = parser.tokens().unwrap();
    assert!(stream.is_end());
    assert_eq!(stream.position(), 0);
}

fn all_tokens(raw: &[&str]) -> Vec<Token> {
    let mut parser = ParserInfo::new(args(raw));
    let mut stream = parser.tokens().unwrap();
    let mut seen = Vec::new();
    while let Some(token) = stream.peek() {
        seen.push(token.clone());
        stream.advance();
    }
    seen
}

#[test]
fn a_value_left_untaken_is_refused_by_the_tokenizer() {
    let mut parser = ParserInfo::new(args(&["--name=x", "y"]));
    assert_eq!(parser.next(), Ok(Some(Token::Long("name".to_string()))));
    assert!(parser.next().is_err());
}

#[test]
fn a_value_joined_to_its_option_is_its_value() {
    let mut parser = ParserInfo::new(args(&["--name=x", "-ny", "-n=z", "--count", "-5"]));
    assert_eq!(parser.next(), Ok(Some(Token::Long("name".to_string()))));
    assert_eq!(parser.value(), Ok("x".to_string()));
    assert_eq!(parser.next(), Ok(Some(Token::Short('n'))));
    assert_eq!(parser.value(), Ok("y".to_string()));
    assert_eq!(parser.next(), Ok(Some(Token::Short('n'))));
    assert_eq!(parser.value(), Ok("z".to_string()));
    assert_eq!(parser.next(), Ok(Some(Token::Long("count".to_string()))));
    assert_eq!(parser.value(), Ok("-5".to_string()));
    assert_eq!(parser.next(), Ok(None));
    let error = parser.value().unwrap_err();
    assert_eq!(error.message, "missing argument for option '--count'");
}

#[test]
fn values_of_options_become_value_tokens() {
    assert_eq!(
        all_tokens(&["--name=x", "y", "-nz", "--count", "-5", "-v"]),
        vec![
            Token::Long("name".to_string()),
            Token::Value("x".to_string()),
            Token::Value("y".to_string()),
            Token::Short('n'),
            Token::Value("z".to_string()),
            Token::Long("count".to_string()),
            Token::Value("-5".to_string()),
            Token::Short('v'),
        ]
    );
}

#[test]
fn values_in_every_spelling_reach_the_engine() {
    let schema = command(
        "tool",
        vec![flag("name", ValueType::Text, Some('n'), true), flag("count", ValueType::Integer(IntegerType::I64), Some('c'), true)],
        vec![],
    );
    let record = |name: &str, count: i128| {
        Ok(Outcome::Parsed(MaterializedValue {
            command: "tool".to_string(),
            fields: vec![
                Binding { field_name: "name".to_string(), value: Value::Text(name.to_string()) },
                Binding { field_name: "count".to_string(), value: Value::Integer(count) },
            ],
        }))
    };
    assert_eq!(run(&schema, args(&["--name=x"])), record("x", 0));
    assert_eq!(run(&schema, args(&["-nx"])), record("x", 0));
    assert_eq!(run(&schema, args(&["-n=x", "-c7"])), record("x", 7));
    assert_eq!(run(&schema, args(&["--count", "-5"])), record("", -5));
    assert_eq!(run(&schema, args(&["--name", "--count"])), record("--count", 0));
    assert_eq!(
        run(&schema, args(&["--name"])),
        Err(ParseError::InvalidValue {
            token: Token::Long("name".to_string()),
            expected: ValueType::Text,
            scope: "tool".to_string(),
        })
    );
}

#[test]
fn install_from_raw_arguments() {
    let result = run(&install_schema(), args(&["install", "--name", "x"]));
    assert_eq!(
        result,
        Ok(Outcome::Parsed(MaterializedValue {
            command: "install".to_string(),
            fields: vec![Binding { field_name: "name".to_string(), value: Value::Text("x".to_string()) }],
        }))
    );
}

#[test]
fn missing_name_from_raw_arguments() {
    assert_eq!(
        run(&install_schema(), args(&["install"])),
        Err(ParseError::MissingRequiredFlag {
            flag: "name".to_string(),
            scope: "install".to_string(),
        })
    );
}

#[test]
fn help_from_raw_arguments() {
    let schema = install_schema();
    assert_eq!(
        run(&schema, args(&["-v", "true", "install", "-h"])),
        Ok(Outcome::HelpRequested(render(&schema.subcommands[0])))
    );
}

#[test]
fn bogus_from_raw_arguments() {
    assert_eq!(
        run(&install_schema(), args(&["bogus"])),
        Err(ParseError::UnknownArgument {
            token: Token::Value("bogus".to_string()),
            scope: "cli".to_string(),
        })
    );
}

#[test]
fn the_tokenizer_says_what_it_refused() {
    let mut parser = ParserInfo::new(args(&["--name=x"]));
    assert_eq!(parser.next(), Ok(Some(Token::Long("name".to_string()))));
    let error = parser.next().unwrap_err();
    assert_eq!(error.message, "unexpected argument for option '--name': \"x\"");
}
