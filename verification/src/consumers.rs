//! The primitive consumers: each looks at the current token and either
//! takes it, yielding a value, or fails and leaves the cursor where it was.

use crate::ast::{AstLiteral, AstLiteralView, Ident, IdentView};
use crate::cursor::TokIter;
use crate::error::{ParseET, ParseError, ParseETView, ParseErrorView};
use crate::tokens::{TokenType, TokenTypeView, TokenView};
use vstd::prelude::*;

verus! {

/// The error of a consumer that does not find what it requires at `pos`:
/// at the token that stands there, or without a location at the end of the
/// input.
pub open spec fn mismatch(tokens: Seq<TokenView>, pos: nat) -> ParseErrorView {
    if pos < tokens.len() {
        ParseETView::UnexpectedToken.at(tokens[pos as int].loc)
    } else {
        ParseETView::UnexpectedEnd.error()
    }
}

/// What a consumer of one token yields at `pos`: `pick` says what it makes
/// of the token there, if it accepts it.
pub open spec fn take_one<T>(
    tokens: Seq<TokenView>,
    pos: nat,
    pick: spec_fn(TokenView) -> Option<T>,
) -> Result<(T, nat), ParseErrorView> {
    if pos < tokens.len() && pick(tokens[pos as int]) is Some {
        Ok((pick(tokens[pos as int])->0, pos + 1))
    } else {
        Err(mismatch(tokens, pos))
    }
}

/// Any identifier, with its text and location.
pub open spec fn pick_ident(token: TokenView) -> Option<IdentView> {
    match token.tt {
        TokenTypeView::Ident(text) => Some(IdentView(text, token.loc)),
        _ => None,
    }
}

/// Any literal, with its value and location.
pub open spec fn pick_literal(token: TokenView) -> Option<AstLiteralView> {
    match token.tt {
        TokenTypeView::Literal(lit) => Some(AstLiteralView(lit, token.loc)),
        _ => None,
    }
}

/// Any punctuation character.
pub open spec fn pick_particle(token: TokenView) -> Option<char> {
    match token.tt {
        TokenTypeView::Particle(c, _) => Some(c),
        _ => None,
    }
}

/// Any punctuation character that directly follows the previous token.
pub open spec fn pick_glued_particle(token: TokenView) -> Option<char> {
    match token.tt {
        TokenTypeView::Particle(c, true) => Some(c),
        _ => None,
    }
}

/// The punctuation character `c`, glued or not.
pub open spec fn pick_this_particle(c: char) -> spec_fn(TokenView) -> Option<()> {
    |token: TokenView|
        match token.tt {
            TokenTypeView::Particle(d, _) if d == c => Some(()),
            _ => None,
        }
}

/// One of the punctuation characters in `set`, glued or not.
pub open spec fn pick_particle_in(set: Seq<char>) -> spec_fn(TokenView) -> Option<char> {
    |token: TokenView|
        match token.tt {
            TokenTypeView::Particle(c, _) if set.contains(c) => Some(c),
            _ => None,
        }
}

/// A token of exactly the kind `tt`, payload and adjacency included.
pub open spec fn pick_token(tt: TokenTypeView) -> spec_fn(TokenView) -> Option<()> {
    |token: TokenView|
        if token.tt == tt {
            Some(())
        } else {
            None
        }
}

/// Whether a consumer did what `expected` says: on success the value and
/// the new position, on failure the error and the position unchanged.
pub open spec fn consumed<T: View>(
    res: Result<T, ParseError>,
    before: TokIter,
    after: TokIter,
    expected: Result<(T::V, nat), ParseErrorView>,
) -> bool {
    &&& after.tokens() == before.tokens()
    &&& match expected {
        Ok((value, end)) => res is Ok && res->Ok_0@ == value && after.position() == end,
        Err(e) => res is Err && res->Err_0@ == e && after.position() == before.position(),
    }
}

/// As `consumed`, for a consumer whose value is its own view.
pub open spec fn consumed_plain<T>(
    res: Result<T, ParseError>,
    before: TokIter,
    after: TokIter,
    expected: Result<(T, nat), ParseErrorView>,
) -> bool {
    &&& after.tokens() == before.tokens()
    &&& match expected {
        Ok((value, end)) => res == Ok::<T, ParseError>(value) && after.position() == end,
        Err(e) => res is Err && res->Err_0@ == e && after.position() == before.position(),
    }
}

/// The error for the current token of `iter`, which a consumer refused.
fn refuse(iter: &TokIter) -> (err: ParseError)
    ensures
        err@ == mismatch(iter.tokens(), iter.position()),
{
    match iter.this() {
        Ok(token) => ParseET::UnexpectedToken.at(token.loc),
        Err(e) => e,
    }
}

/// Takes any identifier.
pub fn get_ident(iter: &mut TokIter) -> (res: Result<Ident, ParseError>)
    ensures
        consumed(
            res,
            *old(iter),
            *final(iter),
            take_one(old(iter).tokens(), old(iter).position(), |t: TokenView| pick_ident(t)),
        ),
{
    let found = match iter.this() {
        Ok(token) => match &token.tt {
            TokenType::Ident(text) => Some(Ident(text.clone(), token.loc)),
            _ => None,
        },
        Err(_) => None,
    };
    match found {
        Some(ident) => {
            iter.next();
            Ok(ident)
        },
        None => Err(refuse(iter)),
    }
}

/// Takes any literal.
pub fn get_literal(iter: &mut TokIter) -> (res: Result<AstLiteral, ParseError>)
    ensures
        consumed(
            res,
            *old(iter),
            *final(iter),
            take_one(old(iter).tokens(), old(iter).position(), |t: TokenView| pick_literal(t)),
        ),
{
    let found = match iter.this() {
        Ok(token) => match &token.tt {
            TokenType::Literal(lit) => Some(AstLiteral(lit.clone(), token.loc)),
            _ => None,
        },
        Err(_) => None,
    };
    match found {
        Some(lit) => {
            iter.next();
            Ok(lit)
        },
        None => Err(refuse(iter)),
    }
}

/// Takes any punctuation character.
pub fn get_particle(iter: &mut TokIter) -> (res: Result<char, ParseError>)
    ensures
        consumed_plain(
            res,
            *old(iter),
            *final(iter),
            take_one(old(iter).tokens(), old(iter).position(), |t: TokenView| pick_particle(t)),
        ),
{
    let found = match iter.this() {
        Ok(token) => match &token.tt {
            TokenType::Particle(c, _) => Some(*c),
            _ => None,
        },
        Err(_) => None,
    };
    match found {
        Some(c) => {
            iter.next();
            Ok(c)
        },
        None => Err(refuse(iter)),
    }
}

/// Takes a punctuation character that directly follows the previous token;
/// one that is separated from it is refused.
pub fn get_glued_particle(iter: &mut TokIter) -> (res: Result<char, ParseError>)
    ensures
        consumed_plain(
            res,
            *old(iter),
            *final(iter),
            take_one(
                old(iter).tokens(),
                old(iter).position(),
                |t: TokenView| pick_glued_particle(t),
            ),
        ),
{
    let found = match iter.this() {
        Ok(token) => match &token.tt {
            TokenType::Particle(c, true) => Some(*c),
            _ => None,
        },
        Err(_) => None,
    };
    match found {
        Some(c) => {
            iter.next();
            Ok(c)
        },
        None => Err(refuse(iter)),
    }
}

/// Takes the punctuation character `c`, glued or not.
pub fn particle(iter: &mut TokIter, c: char) -> (res: Result<(), ParseError>)
    ensures
        consumed_plain(
            res,
            *old(iter),
            *final(iter),
            take_one(old(iter).tokens(), old(iter).position(), pick_this_particle(c)),
        ),
{
    let found = match iter.this() {
        Ok(token) => match &token.tt {
            TokenType::Particle(d, _) => *d == c,
            _ => false,
        },
        Err(_) => false,
    };
    if found {
        iter.next();
        Ok(())
    } else {
        Err(refuse(iter))
    }
}

/// Takes one of the punctuation characters in `set`, glued or not.
pub fn particle_in(iter: &mut TokIter, set: &Vec<char>) -> (res: Result<char, ParseError>)
    ensures
        consumed_plain(
            res,
            *old(iter),
            *final(iter),
            take_one(old(iter).tokens(), old(iter).position(), pick_particle_in(set@)),
        ),
{
    let found = match iter.this() {
        Ok(token) => match &token.tt {
            TokenType::Particle(c, _) => {
                let mut i: usize = 0;
                let mut hit = false;
                while i < set.len()
                    invariant
                        i <= set.len(),
                        hit == set@.subrange(0, i as int).contains(*c),
                    decreases set.len() - i,
                {
                    let ghost seen = set@.subrange(0, i as int);
                    assert(set@.subrange(0, i + 1) == seen.push(set@[i as int]));
                    assert(seen.push(set@[i as int]).contains(*c) == (seen.contains(*c)
                        || set@[i as int] == *c)) by {
                        let grown = seen.push(set@[i as int]);
                        if seen.contains(*c) {
                            let k = choose|k: int| 0 <= k < seen.len() && seen[k] == *c;
                            assert(grown[k] == *c);
                        }
                        if set@[i as int] == *c {
                            assert(grown[i as int] == *c);
                        }
                    }
                    if set[i] == *c {
                        hit = true;
                    }
                    i += 1;
                }
                assert(set@.subrange(0, i as int) == set@);
                if hit {
                    Some(*c)
                } else {
                    None
                }
            },
            _ => None,
        },
        Err(_) => None,
    };
    match found {
        Some(c) => {
            iter.next();
            Ok(c)
        },
        None => Err(refuse(iter)),
    }
}

/// Takes a token of exactly the kind `tt`: the same text for an identifier,
/// the same character and adjacency for punctuation, the same value for a
/// literal.
pub fn token(iter: &mut TokIter, tt: &TokenType) -> (res: Result<(), ParseError>)
    ensures
        consumed_plain(
            res,
            *old(iter),
            *final(iter),
            take_one(old(iter).tokens(), old(iter).position(), pick_token(tt@)),
        ),
{
    let found = match iter.this() {
        Ok(token) => token.tt.same(tt),
        Err(_) => false,
    };
    if found {
        iter.next();
        Ok(())
    } else {
        Err(refuse(iter))
    }
}

} // verus!
