use lexopt_schema::error::SchemaError;
use lexopt_schema::help::{parse, parse_help_fn, render, FnDecl, HelpParsing};
use lexopt_schema::schema::{DisplayArg, DisplayCommand, ValueType};

fn flag(long: &str, short: Option<char>) -> DisplayArg {
    DisplayArg {
        optional: true,
        long_name: long.to_string(),
        short_name: short,
        description: "not shown".to_string(),
        field_name: long.to_string(),
        value_type: ValueType::Text,
    }
}

fn command(name: &str, description: &str, args: Vec<DisplayArg>, subcommands: Vec<DisplayCommand>) -> DisplayCommand {
    DisplayCommand {
        name: name.to_string(),
        subcommands,
        args,
        usage: "not shown".to_string(),
        description: description.to_string(),
        choice: false,
        default_subcommand: None,
    }
}

fn tree() -> DisplayCommand {
    command(
        "es",
        "a description",
        vec![flag("verbose", Some('v')), flag("quiet", None)],
        vec![
            command(
                "install",
                "random description",
                vec![flag("name", Some('n'))],
                vec![command("deep", "", vec![flag("level", None)], vec![])],
            ),
            command("hello", "", vec![], vec![]),
        ],
    )
}

#[test]
fn help_lines_in_pre_order() {
    assert_eq!(
        render(&tree()),
        vec![
            "es  a description",
            "",
            "  install  random description",
            "",
            "    deep",
            "",
            "    --level",
            "  -n | --name",
            "  hello",
            "",
            "-v | --verbose",
            "--quiet",
        ]
    );
}

#[test]
fn help_of_a_bare_command() {
    assert_eq!(render(&command("solo", "", vec![], vec![])), vec!["solo", ""]);
}

#[test]
fn rendering_twice_gives_the_same_lines() {
    let schema = tree();
    assert_eq!(render(&schema), render(&schema));
    assert_eq!(render(&schema), render(&tree()));
}

fn function(body: Option<&str>, generics: Option<&str>) -> FnDecl {
    FnDecl {
        ident: "my_help".to_string(),
        raw_params: "top: Option<DisplayCommand>".to_string(),
        generics: generics.map(|g| g.to_string()),
        raw_body: body.map(|b| b.to_string()),
    }
}

#[test]
fn help_function_is_published_under_the_name_help() {
    let help = parse_help_fn("CliArgs".to_string(), function(Some("println!();"), None)).unwrap();
    assert_eq!(
        help,
        HelpParsing {
            on_ty: "CliArgs".to_string(),
            fn_params: "top: Option<DisplayCommand>".to_string(),
            body: "println!();".to_string(),
            bounds: None,
        }
    );
    assert_eq!(help.to_tokenstream(), "pub fn help(top: Option<DisplayCommand>) {\nprintln!();\n}\n");
}

#[test]
fn help_function_keeps_its_generic_parameters() {
    let text = parse(&vec!["CliArgs".to_string()], function(Some("todo()"), Some("<T: Display>")));
    assert_eq!(
        text,
        Ok("pub fn help<T: Display>(top: Option<DisplayCommand>) {\ntodo()\n}\n".to_string())
    );
}

#[test]
fn help_function_without_body_is_refused() {
    assert_eq!(
        parse_help_fn("CliArgs".to_string(), function(None, None)),
        Err(SchemaError::MissingBody { function: "my_help".to_string() })
    );
    assert_eq!(
        parse(&vec!["CliArgs".to_string()], function(None, None)),
        Err(SchemaError::MissingBody { function: "my_help".to_string() })
    );
}

#[test]
fn help_attribute_must_name_a_type() {
    assert_eq!(
        parse(&vec![], function(Some("x"), None)),
        Err(SchemaError::MalformedAttribute { position: 0 })
    );
}
