//! The cursor over a token sequence, and the span of a range of tokens.

use crate::error::{ParseET, ParseError, ParseETView};
use crate::span::Span;
use crate::tokens::{token_views, Token, TokenView};
use vstd::prelude::*;

verus! {

/// The span of the tokens from index `from` up to, not including, index
/// `to`. An empty range has the empty span at the place where it stands:
/// before the token at `from`, or after the last token where the input
/// ends there.
pub open spec fn span_of(tokens: Seq<TokenView>, from: nat, to: nat) -> Span {
    if from < to <= tokens.len() {
        tokens[from as int].loc.through(tokens[to - 1].loc)
    } else if from < tokens.len() {
        tokens[from as int].loc.before()
    } else if tokens.len() > 0 {
        tokens[tokens.len() - 1].loc.after()
    } else {
        Span { start: 0, end: 0 }
    }
}

/// The location of the token at `pos`, if there is one.
pub open spec fn loc_at(tokens: Seq<TokenView>, pos: nat) -> Option<Span> {
    if pos < tokens.len() {
        Some(tokens[pos as int].loc)
    } else {
        None
    }
}

/// A read position in a sequence of tokens. The tokens never change; only
/// the position moves.
pub struct TokIter {
    tokens: Vec<Token>,
    pos: usize,
}

impl TokIter {
    #[verifier::type_invariant]
    spec fn in_bounds(&self) -> bool {
        self.pos <= self.tokens@.len()
    }

    /// The tokens that the cursor reads.
    pub closed spec fn tokens(&self) -> Seq<TokenView> {
        token_views(self.tokens@)
    }

    /// The index of the current token; the number of tokens where the
    /// cursor stands at the end.
    pub closed spec fn position(&self) -> nat {
        self.pos as nat
    }

    /// A cursor at the first of `tokens`.
    pub fn new(tokens: Vec<Token>) -> (iter: TokIter)
        ensures
            iter.tokens() == token_views(tokens@),
            iter.position() == 0,
    {
        TokIter { tokens, pos: 0 }
    }

    /// The number of tokens.
    pub fn len(&self) -> (n: usize)
        ensures
            n == self.tokens().len(),
            self.position() <= n,
    {
        proof {
            use_type_invariant(self);
        }
        self.tokens.len()
    }

    /// The current token. At the end of the input there is none, and the
    /// error has no location.
    pub fn this(&self) -> (res: Result<&Token, ParseError>)
        ensures
            self.position() <= self.tokens().len(),
            match res {
                Ok(token) => self.position() < self.tokens().len() && token@
                    == self.tokens()[self.position() as int],
                Err(e) => self.position() == self.tokens().len() && e@
                    == ParseETView::UnexpectedEnd.error(),
            },
    {
        proof {
            use_type_invariant(self);
        }
        if self.pos < self.tokens.len() {
            Ok(&self.tokens[self.pos])
        } else {
            Err(ParseET::UnexpectedEnd.error())
        }
    }

    /// Moves past the current token. At the end of the input the cursor
    /// stays where it is.
    pub fn next(&mut self)
        ensures
            final(self).tokens() == old(self).tokens(),
            final(self).position() == if old(self).position() < old(self).tokens().len() {
                old(self).position() + 1
            } else {
                old(self).position()
            },
    {
        proof {
            use_type_invariant(&*self);
        }
        if self.pos < self.tokens.len() {
            self.pos = self.pos + 1;
        }
    }

    /// The current position, to come back to with `restore`.
    pub fn mark(&self) -> (mark: usize)
        ensures
            mark == self.position(),
            mark <= self.tokens().len(),
    {
        proof {
            use_type_invariant(self);
        }
        self.pos
    }

    /// Moves the cursor to a position taken earlier with `mark`.
    pub fn restore(&mut self, mark: usize)
        requires
            mark <= old(self).tokens().len(),
        ensures
            final(self).tokens() == old(self).tokens(),
            final(self).position() == mark,
    {
        self.pos = mark;
    }

    /// The location of the current token, if there is one.
    pub fn loc(&self) -> (loc: Option<Span>)
        ensures
            loc == loc_at(self.tokens(), self.position()),
    {
        proof {
            use_type_invariant(self);
        }
        if self.pos < self.tokens.len() {
            Some(self.tokens[self.pos].loc)
        } else {
            None
        }
    }

    /// The span of the tokens from `from` up to the current position.
    pub fn span_from(&self, from: usize) -> (span: Span)
        ensures
            span == span_of(self.tokens(), from as nat, self.position()),
    {
        proof {
            use_type_invariant(self);
        }
        let n = self.tokens.len();
        if from < self.pos {
            self.tokens[from].loc.to(self.tokens[self.pos - 1].loc)
        } else if from < n {
            let loc = self.tokens[from].loc;
            Span { start: loc.start, end: loc.start }
        } else if n > 0 {
            let loc = self.tokens[n - 1].loc;
            Span { start: loc.end, end: loc.end }
        } else {
            Span { start: 0, end: 0 }
        }
    }
}

} // verus!
