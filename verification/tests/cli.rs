use lexopt_schema::cli::{parse, CliHelper};
use lexopt_schema::error::SchemaError;
use lexopt_schema::schema::DisplayCommand;

fn texts(tokens: &[&str]) -> Vec<String> {
    tokens.iter().map(|t| t.to_string()).collect()
}

fn read(tokens: &[&str]) -> Result<CliHelper, SchemaError> {
    CliHelper::parse(&texts(tokens), &"CliArgs".to_string(), "struct CliArgs;".to_string())
}

#[test]
fn all_four_attributes() {
    let helper = read(&[
        "name", "=", "\"es\"", ",", "about", "=", "\"a tool\"", ",", "version", "=", "\"0.0.1\"", ",",
        "author", "=", "\"me\"",
    ]);
    assert_eq!(
        helper,
        Ok(CliHelper {
            name: "\"es\"".to_string(),
            about: "\"a tool\"".to_string(),
            version: Some("\"0.0.1\"".to_string()),
            author: Some("\"me\"".to_string()),
            on_ty: None,
            item: "struct CliArgs;".to_string(),
        })
    );
}

#[test]
fn the_name_defaults_to_the_type() {
    let helper = read(&["about", "=", "x", ","]).unwrap();
    assert_eq!(helper.name, "CliArgs");
    assert_eq!(helper.about, "x");
    assert_eq!(helper.version, None);
    assert_eq!(helper.author, None);
}

#[test]
fn commas_between_entries_are_optional_and_later_entries_win() {
    let helper = read(&["about", "=", "x", "about", "=", "y", ",", "name", "=", "n"]).unwrap();
    assert_eq!(helper.about, "y");
    assert_eq!(helper.name, "n");
}

#[test]
fn about_must_be_given() {
    assert_eq!(
        read(&[]),
        Err(SchemaError::MissingAttribute { name: "about".to_string(), last_key: None })
    );
    assert_eq!(
        read(&["name", "=", "es", ",", "version", "=", "1", ",", "author", "=", "me"]),
        Err(SchemaError::MissingAttribute {
            name: "about".to_string(),
            last_key: Some("author".to_string()),
        })
    );
    assert_eq!(
        read(&["version", "=", "1", "name", "=", "es"]),
        Err(SchemaError::MissingAttribute { name: "about".to_string(), last_key: Some("name".to_string()) })
    );
}

#[test]
fn an_unknown_key_is_refused() {
    assert_eq!(
        read(&["about", "=", "x", ",", "colour", "=", "red"]),
        Err(SchemaError::UnknownAttribute { key: "colour".to_string() })
    );
}

#[test]
fn a_list_that_is_no_list_is_refused_where_it_breaks() {
    assert_eq!(read(&["about"]), Err(SchemaError::MalformedAttribute { position: 1 }));
    assert_eq!(read(&["about", ":", "x"]), Err(SchemaError::MalformedAttribute { position: 1 }));
    assert_eq!(read(&["about", "="]), Err(SchemaError::MalformedAttribute { position: 2 }));
    assert_eq!(
        read(&["about", "=", "x", ",", "name", "x"]),
        Err(SchemaError::MalformedAttribute { position: 5 })
    );
    assert_eq!(read(&["colour", "x"]), Err(SchemaError::MalformedAttribute { position: 1 }));
}

#[test]
fn the_annotated_item_comes_back_unchanged() {
    let item = "pub struct CliArgs { pub verbose: bool }".to_string();
    assert_eq!(parse(&texts(&["about", "=", "x"]), &"CliArgs".to_string(), item.clone()), Ok(item.clone()));
    assert_eq!(
        parse(&texts(&["version", "=", "1"]), &"CliArgs".to_string(), item.clone()),
        Err(SchemaError::MissingAttribute {
            name: "about".to_string(),
            last_key: Some("version".to_string()),
        })
    );
    let helper = CliHelper::parse(&texts(&["about", "=", "x"]), &"CliArgs".to_string(), item.clone()).unwrap();
    assert_eq!(helper.to_token_stream(), item);
}

#[test]
fn a_schema_takes_name_and_description_from_the_attributes() {
    let helper = read(&["name", "=", "es", ",", "about", "=", "just a tool"]).unwrap();
    let schema = DisplayCommand {
        name: "cliargs".to_string(),
        subcommands: vec![],
        args: vec![],
        usage: "es [options]".to_string(),
        description: String::new(),
        choice: true,
        default_subcommand: None,
    };
    assert_eq!(
        helper.describe(schema),
        DisplayCommand {
            name: "es".to_string(),
            subcommands: vec![],
            args: vec![],
            usage: "es [options]".to_string(),
            description: "just a tool".to_string(),
            choice: true,
            default_subcommand: None,
        }
    );
}
