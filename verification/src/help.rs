//! The help renderer: the display lines of a schema tree, in pre-order.

use vstd::prelude::*;
use vstd::string::StringExecFns;
use crate::error::{SchemaError, SchemaErrorView};
use crate::schema::{CommandView, DisplayArg, DisplayCommand, FlagView};
use crate::text::{push_char, text_views};

verus! {

/// One level of indentation: two spaces.
pub open spec fn indent_step() -> Seq<char> {
    seq![' ', ' ']
}

/// The first line of a command: its name and, where it has one, two spaces
/// and its description.
pub open spec fn heading_line(command: CommandView, indent: Seq<char>) -> Seq<char> {
    if command.description.len() == 0 {
        indent + command.name
    } else {
        indent + command.name + seq![' ', ' '] + command.description
    }
}

/// The line of a flag: `-<short> | --<long>`, or `--<long>` alone where the
/// flag has no short name.
pub open spec fn flag_line(flag: FlagView, indent: Seq<char>) -> Seq<char> {
    match flag.short_name {
        Some(c) => indent + seq!['-', c, ' ', '|', ' ', '-', '-'] + flag.long_name,
        None => indent + seq!['-', '-'] + flag.long_name,
    }
}

/// The lines of the first `count` flags, in display order.
pub open spec fn flag_lines(args: Seq<FlagView>, indent: Seq<char>, count: nat) -> Seq<Seq<char>> {
    Seq::new(count, |i: int| flag_line(args[i], indent))
}

/// The display lines of a command: its heading, a blank separator, the lines
/// of each subcommand one level deeper, then one line for each flag.
pub open spec fn help_lines(command: CommandView, indent: Seq<char>) -> Seq<Seq<char>>
    decreases command, command.subcommands.len() + 1,
{
    seq![heading_line(command, indent), Seq::<char>::empty()] + subcommand_lines(
        command,
        indent,
        command.subcommands.len(),
    ) + flag_lines(command.args, indent, command.args.len())
}

/// The display lines of the first `count` subcommands of a command, each
/// rendered one level deeper than `indent`.
pub open spec fn subcommand_lines(command: CommandView, indent: Seq<char>, count: nat) -> Seq<Seq<char>>
    decreases command, count,
{
    if count == 0 || count > command.subcommands.len() {
        Seq::empty()
    } else {
        subcommand_lines(command, indent, (count - 1) as nat) + help_lines(
            command.subcommands[count - 1],
            indent + indent_step(),
        )
    }
}

/// The help text of a whole schema, starting without indentation.
pub open spec fn rendered(command: CommandView) -> Seq<Seq<char>> {
    help_lines(command, Seq::empty())
}

fn render_heading(command: &DisplayCommand, indent: &String) -> (line: String)
    ensures
        line@ == heading_line(command@, indent@),
{
    proof {
        command.lemma_view();
        reveal_strlit("  ");
    }
    let mut line = indent.clone();
    line.append(command.name.as_str());
    if !command.description.as_str().is_empty() {
        line.append("  ");
        line.append(command.description.as_str());
        assert("  "@ =~= seq![' ', ' ']);
    }
    line
}

fn render_flag(flag: &DisplayArg, indent: &String) -> (line: String)
    ensures
        line@ == flag_line(flag@, indent@),
{
    proof {
        reveal_strlit("-");
        reveal_strlit(" | --");
        reveal_strlit("--");
    }
    let mut line = indent.clone();
    match flag.short_name {
        Some(c) => {
            line.append("-");
            push_char(&mut line, c);
            line.append(" | --");
            assert(line@ =~= indent@ + seq!['-', c, ' ', '|', ' ', '-', '-']);
        },
        None => {
            line.append("--");
            assert(line@ =~= indent@ + seq!['-', '-']);
        },
    }
    line.append(flag.long_name.as_str());
    line
}

fn render_into(command: &DisplayCommand, indent: &String, out: &mut Vec<String>)
    ensures
        text_views(final(out)@) == text_views(old(out)@) + help_lines(command@, indent@),
    decreases command,
{
    proof {
        command.lemma_view();
        reveal_strlit("  ");
    }
    let ghost before = text_views(out@);
    out.push(render_heading(command, indent));
    out.push(String::new());
    assert(text_views(out@) =~= before + seq![heading_line(command@, indent@), Seq::<char>::empty()]);
    let mut deeper = indent.clone();
    deeper.append("  ");
    assert(deeper@ =~= indent@ + indent_step());
    let mut i: usize = 0;
    while i < command.subcommands.len()
        invariant
            i <= command.subcommands.len(),
            command@.subcommands.len() == command.subcommands.len(),
            forall|k: int|
                0 <= k < command.subcommands.len() ==> #[trigger] command@.subcommands[k]
                    == command.subcommands[k]@,
            deeper@ == indent@ + indent_step(),
            text_views(out@) == before + seq![heading_line(command@, indent@), Seq::<char>::empty()]
                + subcommand_lines(command@, indent@, i as nat),
        decreases command.subcommands.len() - i,
    {
        let ghost so_far = text_views(out@);
        render_into(&command.subcommands[i], &deeper, out);
        i = i + 1;
        assert(subcommand_lines(command@, indent@, i as nat) == subcommand_lines(
            command@,
            indent@,
            (i - 1) as nat,
        ) + help_lines(command@.subcommands[i - 1], indent@ + indent_step()));
        assert(text_views(out@) =~= before + seq![heading_line(command@, indent@), Seq::<char>::empty()]
            + subcommand_lines(command@, indent@, i as nat));
    }
    let ghost head = text_views(out@);
    let mut j: usize = 0;
    while j < command.args.len()
        invariant
            j <= command.args.len(),
            command@.args.len() == command.args.len(),
            forall|k: int| 0 <= k < command.args.len() ==> #[trigger] command@.args[k] == command.args[k]@,
            text_views(out@) == head + flag_lines(command@.args, indent@, j as nat),
        decreases command.args.len() - j,
    {
        let ghost shown = text_views(out@);
        let line = render_flag(&command.args[j], indent);
        assert(line@ == flag_line(command@.args[j as int], indent@));
        out.push(line);
        j = j + 1;
        assert(text_views(out@) =~= shown.push(flag_line(command@.args[j - 1], indent@)));
        assert(flag_lines(command@.args, indent@, j as nat) =~= flag_lines(command@.args, indent@, (j - 1) as nat).push(
            flag_line(command@.args[j - 1], indent@),
        ));
    }
    assert(text_views(out@) =~= before + help_lines(command@, indent@));
}

/// Renders the help text of a schema: a pure function of the tree, so the
/// same command always renders to the same lines.
pub fn render(command: &DisplayCommand) -> (lines: Vec<String>)
    ensures
        text_views(lines@) == rendered(command@),
{
    let mut lines: Vec<String> = Vec::new();
    let indent = String::new();
    render_into(command, &indent, &mut lines);
    assert(text_views(lines@) =~= rendered(command@));
    lines
}

/// A function as an extractor has read it: its name and, as written, its
/// parameters, its generic parameters and its body.
#[derive(Debug, PartialEq, Eq)]
pub struct FnDecl {
    /// The identifier of the function.
    pub ident: String,
    /// The parameter list, without its parentheses.
    pub raw_params: String,
    /// The generic parameters with their angle brackets, if there are any.
    pub generics: Option<String>,
    /// The body, without its braces, if the function has one.
    pub raw_body: Option<String>,
}

/// A help function written by the user for one type, to be published under
/// the name `help`.
#[derive(Debug, PartialEq, Eq)]
pub struct HelpParsing {
    /// The identifier of the type that the help is for.
    pub on_ty: String,
    /// The parameter list of the function.
    pub fn_params: String,
    /// The body of the function.
    pub body: String,
    /// The generic parameters of the function, if there are any.
    pub bounds: Option<String>,
}

/// The mathematical value of a [`HelpParsing`].
pub struct HelpParsingView {
    pub on_ty: Seq<char>,
    pub fn_params: Seq<char>,
    pub body: Seq<char>,
    pub bounds: Option<Seq<char>>,
}

impl View for HelpParsing {
    type V = HelpParsingView;

    open spec fn view(&self) -> HelpParsingView {
        HelpParsingView {
            on_ty: self.on_ty@,
            fn_params: self.fn_params@,
            body: self.body@,
            bounds: match self.bounds {
                Some(b) => Some(b@),
                None => None,
            },
        }
    }
}

/// The text of the published function: `pub fn help`, the generic parameters,
/// the parameters in parentheses, and the body in braces on lines of its own.
pub open spec fn help_function_text(help: HelpParsingView) -> Seq<char> {
    seq!['p', 'u', 'b', ' ', 'f', 'n', ' ', 'h', 'e', 'l', 'p'] + (match help.bounds {
        Some(b) => b,
        None => Seq::empty(),
    }) + seq!['('] + help.fn_params + seq![')', ' ', '{', '\n'] + help.body + seq!['\n', '}', '\n']
}

/// Takes the parts of a help function; a function without a body is refused.
pub fn parse_help_fn(on_type: String, function: FnDecl) -> (res: Result<HelpParsing, SchemaError>)
    ensures
        match res {
            Ok(help) => function.raw_body is Some && help@ == (HelpParsingView {
                on_ty: on_type@,
                fn_params: function.raw_params@,
                body: function.raw_body->0@,
                bounds: match function.generics {
                    Some(g) => Some(g@),
                    None => None,
                },
            }),
            Err(error) => function.raw_body is None && error@ == (SchemaErrorView::MissingBody {
                function: function.ident@,
            }),
        },
{
    match function.raw_body {
        None => Err(SchemaError::MissingBody { function: function.ident }),
        Some(body) => Ok(
            HelpParsing { on_ty: on_type, fn_params: function.raw_params, bounds: function.generics, body },
        ),
    }
}

impl HelpParsing {
    /// The source text of the published function; see [`help_function_text`].
    pub fn to_tokenstream(self) -> (res: String)
        ensures
            res@ == help_function_text(self@),
    {
        proof {
            reveal_strlit("pub fn help");
            reveal_strlit("(");
            reveal_strlit(") {\n");
            reveal_strlit("\n}\n");
        }
        let mut text = "pub fn help".to_owned();
        assert(text@ =~= seq!['p', 'u', 'b', ' ', 'f', 'n', ' ', 'h', 'e', 'l', 'p']);
        match &self.bounds {
            Some(b) => {
                text.append(b.as_str());
            },
            None => {
                assert(text@ + Seq::<char>::empty() =~= text@);
            },
        }
        text.append("(");
        text.append(self.fn_params.as_str());
        text.append(") {\n");
        text.append(self.body.as_str());
        text.append("\n}\n");
        assert("("@ =~= seq!['(']);
        assert(") {\n"@ =~= seq![')', ' ', '{', '\n']);
        assert("\n}\n"@ =~= seq!['\n', '}', '\n']);
        text
    }
}

/// Publishes the help function that stands under an attribute naming a type.
/// The attribute must name the type, and the function must have a body.
pub fn parse(tokens: &Vec<String>, function: FnDecl) -> (res: Result<String, SchemaError>)
    ensures
        match res {
            Ok(text) => tokens.len() > 0 && function.raw_body is Some && text@ == help_function_text(
                HelpParsingView {
                    on_ty: tokens[0]@,
                    fn_params: function.raw_params@,
                    body: function.raw_body->0@,
                    bounds: match function.generics {
                        Some(g) => Some(g@),
                        None => None,
                    },
                },
            ),
            Err(error) => if tokens.len() == 0 {
                error@ == (SchemaErrorView::MalformedAttribute { position: 0 })
            } else {
                function.raw_body is None && error@ == (SchemaErrorView::MissingBody { function: function.ident@ })
            },
        },
{
    if tokens.len() == 0 {
        return Err(SchemaError::MalformedAttribute { position: 0 });
    }
    match parse_help_fn(tokens[0].clone(), function) {
        Err(error) => Err(error),
        Ok(help) => Ok(help.to_tokenstream()),
    }
}

} // verus!
