//! Classified command-line tokens and the forward-only cursor over them.

use vstd::prelude::*;

verus! {

/// One classified argument of the command line.
#[derive(Debug, PartialEq, Eq)]
pub enum Token {
    /// A short option: `Short('q')` for `-q`.
    Short(char),
    /// A long option, without its dashes: `Long("verbose")` for `--verbose`.
    Long(String),
    /// A positional argument or the value of an option.
    Value(String),
}

/// The mathematical value of a [`Token`].
pub enum TokenView {
    Short(char),
    Long(Seq<char>),
    Value(Seq<char>),
}

impl View for Token {
    type V = TokenView;

    open spec fn view(&self) -> TokenView {
        match self {
            Token::Short(c) => TokenView::Short(*c),
            Token::Long(s) => TokenView::Long(s@),
            Token::Value(s) => TokenView::Value(s@),
        }
    }
}

impl Clone for Token {
    fn clone(&self) -> (res: Token)
        ensures
            res@ == self@,
    {
        match self {
            Token::Short(c) => Token::Short(*c),
            Token::Long(s) => Token::Long(s.clone()),
            Token::Value(s) => Token::Value(s.clone()),
        }
    }
}

/// The views of a run of tokens, in order.
pub open spec fn token_views(tokens: Seq<Token>) -> Seq<TokenView> {
    Seq::new(tokens.len(), |i: int| tokens[i]@)
}

/// A forward-only cursor over a token sequence. Every scope of one parse reads
/// from the same cursor; none can move it back.
pub struct TokenStream {
    tokens: Vec<Token>,
    pos: usize,
}

impl TokenStream {
    /// The cursor never stands behind the end of its tokens.
    pub closed spec fn wf(&self) -> bool {
        self.pos <= self.tokens.len()
    }

    /// Every token that the stream was made of, read or not.
    pub closed spec fn all(&self) -> Seq<TokenView> {
        token_views(self.tokens@)
    }

    /// How many tokens have been read.
    pub closed spec fn consumed(&self) -> nat {
        self.pos as nat
    }

    /// The tokens that have not been read yet, in order.
    pub open spec fn remaining(&self) -> Seq<TokenView> {
        self.all().skip(self.consumed() as int)
    }

    /// A stream that stands before the first of `tokens`.
    pub fn new(tokens: Vec<Token>) -> (res: TokenStream)
        ensures
            res.wf(),
            res.all() == token_views(tokens@),
            res.consumed() == 0,
            res.remaining() == token_views(tokens@),
    {
        let res = TokenStream { tokens, pos: 0 };
        assert(res.all().skip(0) =~= res.all());
        res
    }

    /// Whether every token has been read.
    pub fn is_end(&self) -> (res: bool)
        requires
            self.wf(),
        ensures
            res == (self.remaining().len() == 0),
    {
        self.pos >= self.tokens.len()
    }

    /// How many tokens have been read.
    pub fn position(&self) -> (res: usize)
        ensures
            res == self.consumed(),
    {
        self.pos
    }

    /// The next token, without reading it.
    pub fn peek(&self) -> (res: Option<&Token>)
        requires
            self.wf(),
        ensures
            self.remaining().len() == 0 ==> res is None,
            self.remaining().len() > 0 ==> res is Some && res->0@ == self.remaining()[0],
    {
        if self.pos < self.tokens.len() {
            Some(&self.tokens[self.pos])
        } else {
            None
        }
    }

    /// Reads one token; at the end of the stream nothing changes.
    pub fn advance(&mut self)
        requires
            old(self).wf(),
        ensures
            final(self).wf(),
            final(self).all() == old(self).all(),
            old(self).remaining().len() > 0 ==> final(self).remaining() == old(self).remaining().skip(1)
                && final(self).consumed() == old(self).consumed() + 1,
            old(self).remaining().len() == 0 ==> final(self).remaining() == old(self).remaining()
                && final(self).consumed() == old(self).consumed(),
    {
        if self.pos < self.tokens.len() {
            self.pos = self.pos + 1;
            assert(self.all().skip(self.pos as int) =~= old(self).all().skip(old(self).pos as int).skip(1));
        }
    }
}

} // verus!
