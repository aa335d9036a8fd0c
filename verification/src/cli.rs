//! The attributes of a program: `name = .., about = .., version = .., author = ..`.

use vstd::prelude::*;
use crate::error::{SchemaError, SchemaErrorView};
use crate::schema::{CommandView, DisplayCommand};
use crate::text::{is_word, text_views};

verus! {

/// What the attribute list of a program says of it.
#[derive(Debug, PartialEq, Eq)]
pub struct CliHelper {
    /// The name of the program; the name of the annotated type unless given.
    pub name: String,
    /// What the program is about.
    pub about: String,
    /// The version, if given.
    pub version: Option<String>,
    /// The author, if given.
    pub author: Option<String>,
    /// The identifier of the annotated type.
    pub on_ty: Option<String>,
    /// The annotated item, as it was written.
    pub item: String,
}

/// The values that an attribute list has assigned so far.
pub struct CliAttributes {
    pub name: Seq<char>,
    pub about: Option<Seq<char>>,
    pub version: Option<Seq<char>>,
    pub author: Option<Seq<char>>,
    /// The key of the last entry read.
    pub last_key: Option<Seq<char>>,
}

/// The mathematical value of a [`CliHelper`].
pub struct CliHelperView {
    pub name: Seq<char>,
    pub about: Seq<char>,
    pub version: Option<Seq<char>>,
    pub author: Option<Seq<char>>,
    pub on_ty: Option<Seq<char>>,
    pub item: Seq<char>,
}

/// The view of an optional string.
pub open spec fn optional_text(text: Option<String>) -> Option<Seq<char>> {
    match text {
        Some(s) => Some(s@),
        None => None,
    }
}

impl View for CliHelper {
    type V = CliHelperView;

    open spec fn view(&self) -> CliHelperView {
        CliHelperView {
            name: self.name@,
            about: self.about@,
            version: optional_text(self.version),
            author: optional_text(self.author),
            on_ty: optional_text(self.on_ty),
            item: self.item@,
        }
    }
}

/// The attributes after one more assignment, or nothing for an unknown key.
/// A later assignment to a key replaces an earlier one, and the key is
/// remembered as the last one read.
pub open spec fn assigned(attributes: CliAttributes, key: Seq<char>, value: Seq<char>) -> Option<CliAttributes> {
    if key == seq!['n', 'a', 'm', 'e'] {
        Some(CliAttributes { name: value, last_key: Some(key), ..attributes })
    } else if key == seq!['a', 'b', 'o', 'u', 't'] {
        Some(CliAttributes { about: Some(value), last_key: Some(key), ..attributes })
    } else if key == seq!['v', 'e', 'r', 's', 'i', 'o', 'n'] {
        Some(CliAttributes { version: Some(value), last_key: Some(key), ..attributes })
    } else if key == seq!['a', 'u', 't', 'h', 'o', 'r'] {
        Some(CliAttributes { author: Some(value), last_key: Some(key), ..attributes })
    } else {
        None
    }
}

/// The attributes that the tokens from `position` on assign, on top of those
/// assigned already. Each entry is a key, the token `=`, and a value; a comma
/// may follow an entry. The list is malformed at the token that is not the
/// `=` or the value that an entry needs, and an entry that is well formed is
/// refused where its key is unknown.
pub open spec fn attributes_from(tokens: Seq<Seq<char>>, position: int, attributes: CliAttributes) -> Result<
    CliAttributes,
    SchemaErrorView,
>
    decreases tokens.len() - position,
{
    if position < 0 || position >= tokens.len() {
        Ok(attributes)
    } else if position + 1 >= tokens.len() || tokens[position + 1] != seq!['='] {
        Err(SchemaErrorView::MalformedAttribute { position: position + 1 })
    } else if position + 2 >= tokens.len() {
        Err(SchemaErrorView::MalformedAttribute { position: position + 2 })
    } else {
        match assigned(attributes, tokens[position], tokens[position + 2]) {
            None => Err(SchemaErrorView::UnknownAttribute { key: tokens[position] }),
            Some(next) => if position + 3 < tokens.len() && tokens[position + 3] == seq![','] {
                attributes_from(tokens, position + 4, next)
            } else {
                attributes_from(tokens, position + 3, next)
            },
        }
    }
}

/// What an attribute list on a type says of the program: the name is that of
/// the type unless the list gives one, and the list must say what the program
/// is about. Where it does not, the failure names the last key that the list
/// gave.
pub open spec fn cli_parsed(tokens: Seq<Seq<char>>, owner: Seq<char>, item: Seq<char>) -> Result<
    CliHelperView,
    SchemaErrorView,
> {
    match attributes_from(
        tokens,
        0,
        CliAttributes { name: owner, about: None, version: None, author: None, last_key: None },
    ) {
        Err(error) => Err(error),
        Ok(attributes) => match attributes.about {
            None => Err(
                SchemaErrorView::MissingAttribute {
                    name: seq!['a', 'b', 'o', 'u', 't'],
                    last_key: attributes.last_key,
                },
            ),
            Some(about) => Ok(
                CliHelperView {
                    name: attributes.name,
                    about,
                    version: attributes.version,
                    author: attributes.author,
                    on_ty: None,
                    item,
                },
            ),
        },
    }
}

impl CliHelper {
    /// Reads the attribute list of a program, given as the texts of its
    /// tokens; see [`cli_parsed`].
    pub fn parse(tokens: &Vec<String>, owner: &String, item: String) -> (res: Result<CliHelper, SchemaError>)
        ensures
            match res {
                Ok(helper) => cli_parsed(text_views(tokens@), owner@, item@) == Ok::<
                    CliHelperView,
                    SchemaErrorView,
                >(helper@),
                Err(error) => cli_parsed(text_views(tokens@), owner@, item@) == Err::<
                    CliHelperView,
                    SchemaErrorView,
                >(error@),
            },
    {
        proof {
            reveal_strlit("=");
            reveal_strlit(",");
            reveal_strlit("name");
            reveal_strlit("about");
            reveal_strlit("version");
            reveal_strlit("author");
            assert("="@ =~= seq!['=']);
            assert(","@ =~= seq![',']);
            assert("name"@ =~= seq!['n', 'a', 'm', 'e']);
            assert("about"@ =~= seq!['a', 'b', 'o', 'u', 't']);
            assert("version"@ =~= seq!['v', 'e', 'r', 's', 'i', 'o', 'n']);
            assert("author"@ =~= seq!['a', 'u', 't', 'h', 'o', 'r']);
        }
        let mut name: String = owner.clone();
        let mut about: Option<String> = None;
        let mut version: Option<String> = None;
        let mut author: Option<String> = None;
        let mut last_key: Option<String> = None;
        let ghost start = CliAttributes {
            name: owner@,
            about: None,
            version: None,
            author: None,
            last_key: None,
        };
        let n = tokens.len();
        let mut position: usize = 0;
        while position < n
            invariant
                n == tokens.len(),
                "="@ == seq!['='],
                ","@ == seq![','],
                "name"@ == seq!['n', 'a', 'm', 'e'],
                "about"@ == seq!['a', 'b', 'o', 'u', 't'],
                "version"@ == seq!['v', 'e', 'r', 's', 'i', 'o', 'n'],
                "author"@ == seq!['a', 'u', 't', 'h', 'o', 'r'],
                attributes_from(text_views(tokens@), 0, start) == attributes_from(
                    text_views(tokens@),
                    position as int,
                    CliAttributes {
                        name: name@,
                        about: optional_text(about),
                        version: optional_text(version),
                        author: optional_text(author),
                        last_key: optional_text(last_key),
                    },
                ),
                start == (CliAttributes {
                    name: owner@,
                    about: None,
                    version: None,
                    author: None,
                    last_key: None,
                }),
            decreases n - position,
        {
            if n - position < 2 || !is_word(&tokens[position + 1], "=") {
                return Err(SchemaError::MalformedAttribute { position: position + 1 });
            }
            if n - position < 3 {
                return Err(SchemaError::MalformedAttribute { position: position + 2 });
            }
            let key = &tokens[position];
            let value = tokens[position + 2].clone();
            if is_word(key, "name") {
                name = value;
            } else if is_word(key, "about") {
                about = Some(value);
            } else if is_word(key, "version") {
                version = Some(value);
            } else if is_word(key, "author") {
                author = Some(value);
            } else {
                return Err(SchemaError::UnknownAttribute { key: key.clone() });
            }
            last_key = Some(key.clone());
            if n - position > 3 && is_word(&tokens[position + 3], ",") {
                position = position + 4;
            } else {
                position = position + 3;
            }
        }
        match about {
            None => Err(SchemaError::MissingAttribute { name: "about".to_owned(), last_key }),
            Some(about) => Ok(CliHelper { name, about, version, author, on_ty: None, item }),
        }
    }

    /// The item that the attribute stands on, as it was written: the
    /// attribute leaves it as it is.
    pub fn to_token_stream(self) -> (res: String)
        ensures
            res@ == self.item@,
    {
        self.item
    }

    /// Names a schema after the program and gives it the program's
    /// description; nothing else of the schema changes.
    pub fn describe(&self, command: DisplayCommand) -> (res: DisplayCommand)
        ensures
            res@ == (CommandView { name: self.name@, description: self.about@, ..command@ }),
    {
        let mut res = command;
        proof {
            res.lemma_view();
        }
        let ghost before = res;
        res.name = self.name.clone();
        res.description = self.about.clone();
        proof {
            res.lemma_view();
            before.lemma_view();
            assert(res@.subcommands =~= before@.subcommands);
            assert(res@.args =~= before@.args);
        }
        res
    }
}

/// Reads the attribute list that stands on the type `owner` and hands
/// back the annotated item unchanged, or the reason why the list is refused.
pub fn parse(tokens: &Vec<String>, owner: &String, item: String) -> (res: Result<String, SchemaError>)
    ensures
        match res {
            Ok(text) => cli_parsed(text_views(tokens@), owner@, item@) is Ok && text@ == item@,
            Err(error) => cli_parsed(text_views(tokens@), owner@, item@) == Err::<
                CliHelperView,
                SchemaErrorView,
            >(error@),
        },
{
    match CliHelper::parse(tokens, owner, item) {
        Err(error) => Err(error),
        Ok(helper) => {
            let mut info = helper;
            info.on_ty = Some(owner.clone());
            Ok(info.to_token_stream())
        },
    }
}

} // verus!
