//! The tokenizer: raw arguments are split into classified tokens by `lexopt`.
//!
//! Tokens are taken as a command line of options with values is read: a call
//! of `next` hands out an option or a positional argument, and behind an
//! option a call of `value` hands out the value of the option, whether it was
//! written as `--name x`, `--name=x`, `-n x` or `-nx`.

use vstd::prelude::*;
use crate::engine::{parse, parsed, result_view, Outcome, ParseError};
use crate::schema::DisplayCommand;
use crate::text::text_views;
use crate::token::{token_views, Token, TokenStream, TokenView};

verus! {

/// The argument parser of `lexopt`. Nothing inside it is visible here.
#[verifier::external_type_specification]
#[verifier::external_body]
pub struct ExLexParser(lexopt::Parser);

/// The error type of `lexopt`. Nothing inside it is visible here.
#[verifier::external_type_specification]
#[verifier::external_body]
pub struct ExLexError(lexopt::Error);

/// The tokens that a parser still holds, as they are taken from it: each call
/// of its `next` hands out one token, and behind an option a call of its
/// `value` hands out the value of the option where there is one, which counts
/// as a value token; up to the first call of `next` that hands out no token.
pub uninterp spec fn upcoming(parser: lexopt::Parser) -> Seq<TokenView>;

/// Whether the parser stops on an error: whether that first call of `next`
/// that hands out no token returns an error in place of the end of the
/// arguments.
pub uninterp spec fn stops_on_error(parser: lexopt::Parser) -> bool;

/// The text that a call of `value` returns, if it returns one.
pub uninterp spec fn value_ahead(parser: lexopt::Parser) -> Option<Seq<char>>;

/// The tokens that the parser holds once `value` has been called.
pub uninterp spec fn upcoming_behind_value(parser: lexopt::Parser) -> Seq<TokenView>;

/// Whether the parser stops on an error once `value` has been called.
pub uninterp spec fn stops_behind_value(parser: lexopt::Parser) -> bool;

/// The tokens that `lexopt` splits a list of raw arguments into.
pub uninterp spec fn lexed(args: Seq<Seq<char>>) -> Seq<TokenView>;

/// `lexopt::Parser::from_args`: a parser over raw arguments that do not start
/// with the program's name. The tokens that it holds are a function of the
/// arguments alone, named [`lexed`]. A fresh parser does not stop on an error:
/// `next` fails only on a joined value that nobody took, and none is left
/// untaken where `value` is called behind each option.
#[verifier::external_body]
fn lex_from_args(args: Vec<String>) -> (res: lexopt::Parser)
    ensures
        upcoming(res) == lexed(text_views(args@)),
        !stops_on_error(res),
{
    lexopt::Parser::from_args(args)
}

/// `lexopt::Parser::next`: the next option or positional argument. A token
/// that comes back is the first that the parser held. Behind a positional
/// argument the parser holds the others and stops as it would have stopped.
/// Behind an option the same holds once `value` has been called, and the text
/// that `value` then returns is the token that the parser held next; `value`
/// returns none only at the end of the arguments, where the option was the
/// last token held. Where no token comes back the parser held none, and it is
/// an error that comes back exactly where the parser stops on one.
#[verifier::external_body]
fn lex_next(parser: &mut lexopt::Parser) -> (res: Result<Option<Token>, lexopt::Error>)
    ensures
        match res {
            Ok(Some(token)) => {
                &&& upcoming(*old(parser)).len() > 0
                &&& token@ == upcoming(*old(parser))[0]
                &&& token is Value ==> {
                    &&& upcoming(*final(parser)) == upcoming(*old(parser)).skip(1)
                    &&& stops_on_error(*final(parser)) == stops_on_error(*old(parser))
                }
                &&& !(token is Value) ==> {
                    &&& stops_behind_value(*final(parser)) == stops_on_error(*old(parser))
                    &&& match value_ahead(*final(parser)) {
                        Some(text) => {
                            &&& upcoming(*old(parser)).len() > 1
                            &&& upcoming(*old(parser))[1] == TokenView::Value(text)
                            &&& upcoming_behind_value(*final(parser)) == upcoming(*old(parser)).skip(2)
                        },
                        None => {
                            &&& upcoming(*old(parser)).len() == 1
                            &&& upcoming_behind_value(*final(parser)) == upcoming(*old(parser)).skip(1)
                        },
                    }
                }
            },
            Ok(None) => {
                &&& upcoming(*old(parser)).len() == 0
                &&& !stops_on_error(*old(parser))
                &&& upcoming(*final(parser)).len() == 0
            },
            Err(_) => upcoming(*old(parser)).len() == 0 && stops_on_error(*old(parser)),
        },
{
    match parser.next()? {
        Some(lexopt::Arg::Short(c)) => Ok(Some(Token::Short(c))),
        Some(lexopt::Arg::Long(name)) => Ok(Some(Token::Long(name.to_string()))),
        Some(lexopt::Arg::Value(value)) => Ok(Some(Token::Value(value.to_string_lossy().into_owned()))),
        None => Ok(None),
    }
}

/// `lexopt::Parser::value`: the value of the option that was handed out last,
/// or an error at the end of the arguments, behind which the parser holds
/// nothing. What comes back and what the parser holds afterwards are named by
/// [`value_ahead`], [`upcoming_behind_value`] and [`stops_behind_value`].
#[verifier::external_body]
fn lex_value(parser: &mut lexopt::Parser) -> (res: Result<String, lexopt::Error>)
    ensures
        upcoming(*final(parser)) == upcoming_behind_value(*old(parser)),
        stops_on_error(*final(parser)) == stops_behind_value(*old(parser)),
        match res {
            Ok(text) => value_ahead(*old(parser)) == Some(text@),
            Err(_) => value_ahead(*old(parser)) is None && upcoming(*final(parser)).len() == 0,
        },
{
    Ok(parser.value()?.to_string_lossy().into_owned())
}

/// The message of a `lexopt` error, as its `Display` writes it.
#[verifier::external_body]
fn lex_message(error: &lexopt::Error) -> (res: String)
{
    error.to_string()
}

/// The tokenizer refused the arguments.
#[derive(Debug, PartialEq, Eq)]
pub struct LexError {
    /// What the tokenizer says of it.
    pub message: String,
}

/// Raw arguments on their way to becoming tokens.
pub struct ParserInfo {
    cmd_parser: lexopt::Parser,
}

impl ParserInfo {
    /// The tokens that have not been taken yet, the values of options among
    /// them as value tokens.
    pub closed spec fn pending(&self) -> Seq<TokenView> {
        upcoming(self.cmd_parser)
    }

    /// Whether the tokenizer refuses what is left: whether an error comes
    /// behind the pending tokens in place of the end of the arguments.
    pub closed spec fn refuses(&self) -> bool {
        stops_on_error(self.cmd_parser)
    }

    /// The text that [`ParserInfo::value`] returns next, if it returns one.
    pub closed spec fn value_ahead(&self) -> Option<Seq<char>> {
        value_ahead(self.cmd_parser)
    }

    /// The tokens that are pending once a value has been taken.
    pub closed spec fn pending_behind_value(&self) -> Seq<TokenView> {
        upcoming_behind_value(self.cmd_parser)
    }

    /// Whether the tokenizer refuses what is left once a value has been taken.
    pub closed spec fn refuses_behind_value(&self) -> bool {
        stops_behind_value(self.cmd_parser)
    }

    /// A tokenizer over raw arguments, the program's name not among them. It
    /// refuses none of them.
    pub fn new(args: Vec<String>) -> (res: ParserInfo)
        ensures
            res.pending() == lexed(text_views(args@)),
            !res.refuses(),
    {
        ParserInfo { cmd_parser: lex_from_args(args) }
    }

    /// Takes the next token: the first of the pending ones. Behind an option
    /// the value of the option is due: what [`ParserInfo::value`] then returns
    /// is the pending token behind the option, and it returns none only where
    /// the option was the last token pending. Where no token is pending,
    /// nothing comes back at the end of the arguments, and an error where the
    /// tokenizer refuses what is left.
    pub fn next(&mut self) -> (res: Result<Option<Token>, LexError>)
        ensures
            match res {
                Ok(Some(token)) => {
                    &&& old(self).pending().len() > 0
                    &&& token@ == old(self).pending()[0]
                    &&& token is Value ==> {
                        &&& final(self).pending() == old(self).pending().skip(1)
                        &&& final(self).refuses() == old(self).refuses()
                    }
                    &&& !(token is Value) ==> {
                        &&& final(self).refuses_behind_value() == old(self).refuses()
                        &&& match final(self).value_ahead() {
                            Some(text) => {
                                &&& old(self).pending().len() > 1
                                &&& old(self).pending()[1] == TokenView::Value(text)
                                &&& final(self).pending_behind_value() == old(self).pending().skip(2)
                            },
                            None => {
                                &&& old(self).pending().len() == 1
                                &&& final(self).pending_behind_value() == old(self).pending().skip(1)
                            },
                        }
                    }
                },
                Ok(None) => {
                    &&& old(self).pending().len() == 0
                    &&& !old(self).refuses()
                    &&& final(self).pending().len() == 0
                },
                Err(_) => old(self).pending().len() == 0 && old(self).refuses(),
            },
    {
        match lex_next(&mut self.cmd_parser) {
            Ok(token) => Ok(token),
            Err(error) => Err(LexError { message: lex_message(&error) }),
        }
    }

    /// Takes the value of the option that was taken last: the text joined to
    /// the option, or else the argument behind it, whatever that looks like.
    /// At the end of the arguments there is none, which is an error.
    pub fn value(&mut self) -> (res: Result<String, LexError>)
        ensures
            final(self).pending() == old(self).pending_behind_value(),
            final(self).refuses() == old(self).refuses_behind_value(),
            match res {
                Ok(text) => old(self).value_ahead() == Some(text@),
                Err(_) => old(self).value_ahead() is None && final(self).pending().len() == 0,
            },
    {
        match lex_value(&mut self.cmd_parser) {
            Ok(text) => Ok(text),
            Err(error) => Err(LexError { message: lex_message(&error) }),
        }
    }

    /// Takes every token that is left, and behind each option its value as a
    /// value token; an option at the end of the arguments stays without one.
    /// It fails exactly where the tokenizer refuses what is left. Otherwise
    /// the stream holds exactly the pending tokens, in order, and stands
    /// before the first of them, and nothing is pending any more.
    pub fn tokens(&mut self) -> (res: Result<TokenStream, LexError>)
        ensures
            res is Err <==> old(self).refuses(),
            res matches Ok(stream) ==> {
                &&& stream.wf()
                &&& stream.consumed() == 0
                &&& stream.remaining() == old(self).pending()
                &&& final(self).pending().len() == 0
            },
    {
        let ghost start = self.pending();
        let mut taken: Vec<Token> = Vec::new();
        loop
            invariant
                start == old(self).pending(),
                self.refuses() == old(self).refuses(),
                token_views(taken@) + self.pending() == start,
            decreases self.pending().len(),
        {
            let ghost before = self.pending();
            let ghost so_far = token_views(taken@);
            match self.next() {
                Err(error) => {
                    return Err(error);
                },
                Ok(None) => {
                    assert(token_views(taken@) =~= start);
                    return Ok(TokenStream::new(taken));
                },
                Ok(Some(token)) => {
                    let option = match &token {
                        Token::Value(_) => false,
                        _ => true,
                    };
                    taken.push(token);
                    assert(token_views(taken@) =~= so_far.push(before[0]));
                    if option {
                        match self.value() {
                            Ok(text) => {
                                taken.push(Token::Value(text));
                                assert(token_views(taken@) =~= so_far.push(before[0]).push(before[1]));
                                assert(so_far.push(before[0]).push(before[1]) + before.skip(2) =~= so_far
                                    + before);
                            },
                            Err(_) => {
                                assert(so_far.push(before[0]) + before.skip(1) =~= so_far + before);
                            },
                        }
                    } else {
                        assert(so_far.push(before[0]) + before.skip(1) =~= so_far + before);
                    }
                },
            }
        }
    }
}

/// Splits raw arguments into tokens and parses them against a schema: the
/// result is that of the engine on the tokens that the arguments are split
/// into, the value of each option behind the option.
pub fn run(command: &DisplayCommand, args: Vec<String>) -> (res: Result<Outcome, ParseError>)
    ensures
        result_view(res) == parsed(command@, lexed(text_views(args@))).result,
{
    let mut parser = ParserInfo::new(args);
    match parser.tokens() {
        Err(_) => unreached(),
        Ok(tokens) => {
            let mut stream = tokens;
            parse(command, &mut stream)
        },
    }
}

} // verus!
