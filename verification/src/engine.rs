//! The parse and dispatch engine: recursive descent over a token stream,
//! guided by a schema.

use vstd::prelude::*;
use crate::help::{render, rendered};
use crate::schema::{CommandView, DisplayCommand, FlagView, ValueType};
use crate::text::text_views;
use crate::token::{Token, TokenStream, TokenView};
use crate::value::{converted, zero_value, Value, ValueView};

verus! {

/// One filled-in slot of a materialized scope.
#[derive(Debug, PartialEq, Eq)]
pub struct Binding {
    /// The slot, named by the flag's field name.
    pub field_name: String,
    /// The value bound or defaulted.
    pub value: Value,
}

/// The mathematical value of a [`Binding`].
pub struct BindingView {
    pub field_name: Seq<char>,
    pub value: ValueView,
}

impl View for Binding {
    type V = BindingView;

    open spec fn view(&self) -> BindingView {
        BindingView { field_name: self.field_name@, value: self.value@ }
    }
}

/// The concrete result of one scope: which command completed, and a value for
/// each of its flags, in display order.
#[derive(Debug, PartialEq, Eq)]
pub struct MaterializedValue {
    /// The name of the scope that completed.
    pub command: String,
    /// One binding for each flag of that scope.
    pub fields: Vec<Binding>,
}

/// The mathematical value of a [`MaterializedValue`].
pub struct MaterializedView {
    pub command: Seq<char>,
    pub fields: Seq<BindingView>,
}

impl View for MaterializedValue {
    type V = MaterializedView;

    open spec fn view(&self) -> MaterializedView {
        MaterializedView {
            command: self.command@,
            fields: Seq::new(self.fields.len() as nat, |i: int| self.fields[i]@),
        }
    }
}

/// How a parse ended when it did not fail.
#[derive(Debug, PartialEq, Eq)]
pub enum Outcome {
    /// The stream was exhausted and a scope completed.
    Parsed(MaterializedValue),
    /// A help option was met: the help lines of the scope that met it.
    HelpRequested(Vec<String>),
}

/// The mathematical value of an [`Outcome`].
pub enum OutcomeView {
    Parsed(MaterializedView),
    HelpRequested(Seq<Seq<char>>),
}

impl View for Outcome {
    type V = OutcomeView;

    open spec fn view(&self) -> OutcomeView {
        match self {
            Outcome::Parsed(m) => OutcomeView::Parsed(m@),
            Outcome::HelpRequested(lines) => OutcomeView::HelpRequested(text_views(lines@)),
        }
    }
}

/// Why a parse failed. Every failure names the scope in which it arose.
#[derive(Debug, PartialEq, Eq)]
pub enum ParseError {
    /// The token names no flag and no subcommand of the scope.
    UnknownArgument { token: Token, scope: String },
    /// The value of a flag is missing or does not convert to the flag's type.
    /// `token` is the token in value position, or the option itself where the
    /// stream ended behind it.
    InvalidValue { token: Token, expected: ValueType, scope: String },
    /// The scope completed while a flag without default was unset.
    MissingRequiredFlag { flag: String, scope: String },
    /// A choice among subcommands completed with none selected and no default.
    MissingSubcommand { scope: String },
}

/// The mathematical value of a [`ParseError`].
pub enum ParseErrorView {
    UnknownArgument { token: TokenView, scope: Seq<char> },
    InvalidValue { token: TokenView, expected: ValueType, scope: Seq<char> },
    MissingRequiredFlag { flag: Seq<char>, scope: Seq<char> },
    MissingSubcommand { scope: Seq<char> },
}

impl View for ParseError {
    type V = ParseErrorView;

    open spec fn view(&self) -> ParseErrorView {
        match self {
            ParseError::UnknownArgument { token, scope } => ParseErrorView::UnknownArgument {
                token: token@,
                scope: scope@,
            },
            ParseError::InvalidValue { token, expected, scope } => ParseErrorView::InvalidValue {
                token: token@,
                expected: *expected,
                scope: scope@,
            },
            ParseError::MissingRequiredFlag { flag, scope } => ParseErrorView::MissingRequiredFlag {
                flag: flag@,
                scope: scope@,
            },
            ParseError::MissingSubcommand { scope } => ParseErrorView::MissingSubcommand { scope: scope@ },
        }
    }
}

/// The mathematical value of what a parse returns.
pub open spec fn result_view(result: Result<Outcome, ParseError>) -> Result<OutcomeView, ParseErrorView> {
    match result {
        Ok(outcome) => Ok(outcome@),
        Err(error) => Err(error@),
    }
}

/// The state in which every flag of the scope is unset.
pub open spec fn unset(command: CommandView) -> Seq<Option<ValueView>> {
    Seq::new(command.args.len(), |i: int| None::<ValueView>)
}

/// The position of the first flag from `start` on that has no default and is
/// still unset.
pub open spec fn first_missing_from(args: Seq<FlagView>, state: Seq<Option<ValueView>>, start: int) -> Option<int>
    decreases args.len() - start,
{
    if start < 0 || start >= args.len() {
        None
    } else if !args[start].optional && state[start] is None {
        Some(start)
    } else {
        first_missing_from(args, state, start + 1)
    }
}

/// What a flag resolves to: the value bound last, or the zero value of its type.
pub open spec fn resolved(flag: FlagView, bound: Option<ValueView>) -> BindingView {
    BindingView {
        field_name: flag.field_name,
        value: match bound {
            Some(v) => v,
            None => zero_value(flag.value_type),
        },
    }
}

/// The record of a scope: one binding for each flag, in display order.
pub open spec fn materialized(command: CommandView, state: Seq<Option<ValueView>>) -> MaterializedView {
    MaterializedView {
        command: command.name,
        fields: Seq::new(command.args.len(), |i: int| resolved(command.args[i], state[i])),
    }
}

/// What a scope yields once the stream is exhausted. An unset flag without
/// default fails the scope, naming the first such flag. A choice that nothing
/// selected resolves to its default subcommand, completed with no flag set, or
/// fails where it has none. Any other scope yields its record.
pub open spec fn finished(command: CommandView, state: Seq<Option<ValueView>>) -> Result<OutcomeView, ParseErrorView>
    decreases command,
{
    match first_missing_from(command.args, state, 0) {
        Some(i) => Err(
            ParseErrorView::MissingRequiredFlag { flag: command.args[i].field_name, scope: command.name },
        ),
        None => if command.choice {
            match command.default_subcommand {
                Some(d) => if 0 <= d < command.subcommands.len() {
                    finished(command.subcommands[d], unset(command.subcommands[d]))
                } else {
                    Err(ParseErrorView::MissingSubcommand { scope: command.name })
                },
                None => Err(ParseErrorView::MissingSubcommand { scope: command.name }),
            }
        } else {
            Ok(OutcomeView::Parsed(materialized(command, state)))
        },
    }
}

/// Whether the token is a help option: `-h` or `--help`.
pub open spec fn is_help(token: TokenView) -> bool {
    match token {
        TokenView::Short(c) => c == 'h',
        TokenView::Long(s) => s == seq!['h', 'e', 'l', 'p'],
        TokenView::Value(_) => false,
    }
}

/// The typed value that a token in value position gives to a flag of type
/// `ty`. Only a value token carries raw text; an option token gives none.
pub open spec fn token_value(token: TokenView, ty: ValueType) -> Option<ValueView> {
    match token {
        TokenView::Value(text) => converted(text, ty),
        _ => None,
    }
}

/// How a run over some tokens ends, and the tokens that it left unread.
pub struct ParseRun {
    pub result: Result<OutcomeView, ParseErrorView>,
    pub rest: Seq<TokenView>,
}

/// The run of one scope from a given state over `tokens`.
///
/// With the stream exhausted the scope finishes. A positional token dispatches
/// to the subcommand of that name, whose run from there on is the result, or
/// fails as unknown. An option token that names a flag of this scope consumes
/// the following token as the flag's value and the scan goes on with the value
/// bound, overwriting an earlier one. An option that names no flag is a help
/// request if it is `-h` or `--help`, and unknown otherwise.
pub open spec fn scanned(command: CommandView, state: Seq<Option<ValueView>>, tokens: Seq<TokenView>) -> ParseRun
    decreases tokens.len(),
{
    if tokens.len() == 0 {
        ParseRun { result: finished(command, state), rest: tokens }
    } else {
        let token = tokens[0];
        let rest = tokens.skip(1);
        match token {
            TokenView::Value(text) => match command.find_subcommand(text) {
                Some(i) => scanned(command.subcommands[i], unset(command.subcommands[i]), rest),
                None => ParseRun {
                    result: Err(ParseErrorView::UnknownArgument { token, scope: command.name }),
                    rest,
                },
            },
            _ => match command.find_flag(token) {
                Some(i) => if rest.len() == 0 {
                    ParseRun {
                        result: Err(
                            ParseErrorView::InvalidValue {
                                token,
                                expected: command.args[i].value_type,
                                scope: command.name,
                            },
                        ),
                        rest,
                    }
                } else {
                    match token_value(rest[0], command.args[i].value_type) {
                        Some(v) => scanned(command, state.update(i, Some(v)), rest.skip(1)),
                        None => ParseRun {
                            result: Err(
                                ParseErrorView::InvalidValue {
                                    token: rest[0],
                                    expected: command.args[i].value_type,
                                    scope: command.name,
                                },
                            ),
                            rest: rest.skip(1),
                        },
                    }
                },
                None => if is_help(token) {
                    ParseRun { result: Ok(OutcomeView::HelpRequested(rendered(command))), rest }
                } else {
                    ParseRun {
                        result: Err(ParseErrorView::UnknownArgument { token, scope: command.name }),
                        rest,
                    }
                },
            },
        }
    }
}

/// The run of a scope that starts with every flag unset.
pub open spec fn parsed(command: CommandView, tokens: Seq<TokenView>) -> ParseRun {
    scanned(command, unset(command), tokens)
}

/// The bindings of one active scope: for each flag, the value bound last or
/// nothing. It lives as long as the scope is scanned.
pub struct ParseState {
    values: Vec<Option<Value>>,
}

impl View for ParseState {
    type V = Seq<Option<ValueView>>;

    closed spec fn view(&self) -> Seq<Option<ValueView>> {
        Seq::new(
            self.values.len() as nat,
            |i: int|
                match self.values[i] {
                    Some(v) => Some(v@),
                    None => None,
                },
        )
    }
}

impl ParseState {
    /// The state of a scope before its first token: every flag unset.
    pub fn new(command: &DisplayCommand) -> (res: ParseState)
        ensures
            res@ == unset(command@),
    {
        proof {
            command.lemma_view();
        }
        let mut values: Vec<Option<Value>> = Vec::new();
        let mut i: usize = 0;
        while i < command.args.len()
            invariant
                i <= command.args.len(),
                values.len() == i,
                forall|k: int| 0 <= k < i ==> values[k] is None,
            decreases command.args.len() - i,
        {
            values.push(None);
            i = i + 1;
        }
        let res = ParseState { values };
        assert(res@ =~= unset(command@));
        res
    }

    /// Binds a value to the flag at `index`; an earlier value is overwritten.
    pub fn bind(&mut self, index: usize, value: Value)
        requires
            index < old(self)@.len(),
        ensures
            final(self)@ == old(self)@.update(index as int, Some(value@)),
    {
        self.values.set(index, Some(value));
        assert(self@ =~= old(self)@.update(index as int, Some(value@)));
    }

    /// The value bound to the flag at `index`, if one is.
    pub fn get(&self, index: usize) -> (res: Option<&Value>)
        requires
            index < self@.len(),
        ensures
            match res {
                Some(v) => self@[index as int] == Some(v@),
                None => self@[index as int] is None,
            },
    {
        self.values[index].as_ref()
    }
}

fn is_help_token(token: &Token) -> (res: bool)
    ensures
        res == is_help(token@),
{
    match token {
        Token::Short(c) => *c == 'h',
        Token::Long(s) => {
            proof {
                reveal_strlit("help");
            }
            let help = "help".to_owned();
            assert(help@ =~= seq!['h', 'e', 'l', 'p']);
            *s == help
        },
        Token::Value(_) => false,
    }
}

fn value_of(token: &Token, ty: ValueType) -> (res: Option<Value>)
    ensures
        match res {
            Some(v) => token_value(token@, ty) == Some(v@),
            None => token_value(token@, ty) is None,
        },
{
    match token {
        Token::Value(text) => Value::convert(text, ty),
        _ => None,
    }
}

fn next_token(tokens: &TokenStream) -> (res: Option<Token>)
    requires
        tokens.wf(),
    ensures
        match res {
            Some(t) => tokens.remaining().len() > 0 && t@ == tokens.remaining()[0],
            None => tokens.remaining().len() == 0,
        },
{
    match tokens.peek() {
        Some(t) => Some(t.clone()),
        None => None,
    }
}

/// Completes a scope whose stream is exhausted: resolves every unset flag to
/// its default, or fails on the first one that has none; a choice that nothing
/// selected resolves to its default subcommand.
pub fn finish(command: &DisplayCommand, state: &ParseState) -> (res: Result<Outcome, ParseError>)
    requires
        state@.len() == command@.args.len(),
    ensures
        result_view(res) == finished(command@, state@),
    decreases command,
{
    proof {
        command.lemma_view();
    }
    let mut i: usize = 0;
    while i < command.args.len()
        invariant
            i <= command.args.len(),
            state@.len() == command@.args.len(),
            command@.args.len() == command.args.len(),
            command@.name == command.name@,
            forall|k: int| 0 <= k < command.args.len() ==> #[trigger] command@.args[k] == command.args[k]@,
            first_missing_from(command@.args, state@, 0) == first_missing_from(command@.args, state@, i as int),
        decreases command.args.len() - i,
    {
        if !command.args[i].optional && state.get(i).is_none() {
            return Err(
                ParseError::MissingRequiredFlag {
                    flag: command.args[i].field_name.clone(),
                    scope: command.name.clone(),
                },
            );
        }
        i = i + 1;
    }
    if command.choice {
        match command.default_subcommand {
            Some(d) => {
                if d < command.subcommands.len() {
                    let fresh = ParseState::new(&command.subcommands[d]);
                    finish(&command.subcommands[d], &fresh)
                } else {
                    Err(ParseError::MissingSubcommand { scope: command.name.clone() })
                }
            },
            None => Err(ParseError::MissingSubcommand { scope: command.name.clone() }),
        }
    } else {
        let mut fields: Vec<Binding> = Vec::new();
        let mut j: usize = 0;
        while j < command.args.len()
            invariant
                j <= command.args.len(),
                fields.len() == j,
                state@.len() == command@.args.len(),
                command@.args.len() == command.args.len(),
                forall|k: int| 0 <= k < command.args.len() ==> #[trigger] command@.args[k] == command.args[k]@,
                forall|k: int| 0 <= k < j ==> (#[trigger] fields[k])@ == resolved(command@.args[k], state@[k]),
            decreases command.args.len() - j,
        {
            let value = match state.get(j) {
                Some(v) => v.clone(),
                None => Value::zero(command.args[j].value_type),
            };
            fields.push(Binding { field_name: command.args[j].field_name.clone(), value });
            j = j + 1;
        }
        let record = MaterializedValue { command: command.name.clone(), fields };
        assert(record@.fields =~= materialized(command@, state@).fields);
        Ok(Outcome::Parsed(record))
    }
}

/// Parses the rest of a token stream against a command.
///
/// The stream is read forward from where it stands, by this scope and by the
/// subcommand scopes it dispatches to. The result and the position at which
/// the stream is left are those of [`parsed`] on the unread tokens; no token
/// is read behind a failure or a help request.
pub fn parse(command: &DisplayCommand, tokens: &mut TokenStream) -> (res: Result<Outcome, ParseError>)
    requires
        old(tokens).wf(),
    ensures
        final(tokens).wf(),
        final(tokens).all() == old(tokens).all(),
        final(tokens).consumed() >= old(tokens).consumed(),
        result_view(res) == parsed(command@, old(tokens).remaining()).result,
        final(tokens).remaining() == parsed(command@, old(tokens).remaining()).rest,
    decreases old(tokens).remaining().len(),
{
    proof {
        command.lemma_view();
    }
    let ghost start = tokens.remaining();
    let ghost all = tokens.all();
    let mut state = ParseState::new(command);
    loop
        invariant
            tokens.wf(),
            tokens.consumed() >= old(tokens).consumed(),
            start == old(tokens).remaining(),
            all == old(tokens).all(),
            tokens.all() == all,
            tokens.remaining().len() <= start.len(),
            state@.len() == command@.args.len(),
            command@.args.len() == command.args.len(),
            command@.subcommands.len() == command.subcommands.len(),
            command@.name == command.name@,
            forall|k: int| 0 <= k < command.args.len() ==> #[trigger] command@.args[k] == command.args[k]@,
            forall|k: int|
                0 <= k < command.subcommands.len() ==> #[trigger] command@.subcommands[k]
                    == command.subcommands[k]@,
            scanned(command@, state@, tokens.remaining()) == parsed(command@, start),
        decreases tokens.remaining().len(),
    {
        let ghost here = tokens.remaining();
        match next_token(tokens) {
            None => {
                return finish(command, &state);
            },
            Some(token) => {
                tokens.advance();
                match &token {
                    Token::Value(text) => {
                        match command.find_subcommand(text) {
                            Some(i) => {
                                return parse(&command.subcommands[i], tokens);
                            },
                            None => {
                                return Err(
                                    ParseError::UnknownArgument { token, scope: command.name.clone() },
                                );
                            },
                        }
                    },
                    _ => {
                        match command.find_flag(&token) {
                            Some(i) => {
                                let ty = command.args[i].value_type;
                                match next_token(tokens) {
                                    None => {
                                        return Err(
                                            ParseError::InvalidValue {
                                                token,
                                                expected: ty,
                                                scope: command.name.clone(),
                                            },
                                        );
                                    },
                                    Some(raw) => {
                                        tokens.advance();
                                        match value_of(&raw, ty) {
                                            Some(v) => {
                                                state.bind(i, v);
                                            },
                                            None => {
                                                return Err(
                                                    ParseError::InvalidValue {
                                                        token: raw,
                                                        expected: ty,
                                                        scope: command.name.clone(),
                                                    },
                                                );
                                            },
                                        }
                                    },
                                }
                            },
                            None => {
                                if is_help_token(&token) {
                                    return Ok(Outcome::HelpRequested(render(command)));
                                } else {
                                    return Err(
                                        ParseError::UnknownArgument { token, scope: command.name.clone() },
                                    );
                                }
                            },
                        }
                    },
                }
            },
        }
    }
}

} // verus!
