//! Parse errors: what went wrong, where, and inside which rules.

use crate::span::Span;
use vstd::prelude::*;

verus! {

/// The kind of a parse error.
#[derive(Debug, PartialEq)]
pub enum ParseET {
    /// A token was required and the input had ended.
    UnexpectedEnd,
    /// The current token does not have the shape that a consumer requires.
    UnexpectedToken,
    /// A run of punctuation that spells no operator, with its characters.
    UnrecognizedOperator(Vec<char>),
    /// No predicate of a multi-way dispatch matched.
    NoAlternative,
    /// The grammar came back to a rule, or went round a repetition, without
    /// having consumed a token in between.
    NoProgress,
    /// A transform was given values of a shape it cannot take.
    Malformed,
    /// The grammar refers to a rule that it does not hold or has not bound.
    InvalidGrammar,
}

pub ghost enum ParseETView {
    UnexpectedEnd,
    UnexpectedToken,
    UnrecognizedOperator(Seq<char>),
    NoAlternative,
    NoProgress,
    Malformed,
    InvalidGrammar,
}

impl View for ParseET {
    type V = ParseETView;

    open spec fn view(&self) -> ParseETView {
        match self {
            ParseET::UnexpectedEnd => ParseETView::UnexpectedEnd,
            ParseET::UnexpectedToken => ParseETView::UnexpectedToken,
            ParseET::UnrecognizedOperator(chars) => ParseETView::UnrecognizedOperator(chars@),
            ParseET::NoAlternative => ParseETView::NoAlternative,
            ParseET::NoProgress => ParseETView::NoProgress,
            ParseET::Malformed => ParseETView::Malformed,
            ParseET::InvalidGrammar => ParseETView::InvalidGrammar,
        }
    }
}

impl ParseETView {
    /// The error of this kind at `span`, outside any rule.
    pub open spec fn at(self, span: Span) -> ParseErrorView {
        ParseErrorView { et: self, loc: Some(span), context: Seq::empty() }
    }

    /// The error of this kind without a location, outside any rule.
    pub open spec fn error(self) -> ParseErrorView {
        ParseErrorView { et: self, loc: None, context: Seq::empty() }
    }

    /// Whether an error of this kind says something of the input: that it
    /// ends too early, holds a token that cannot be taken, spells an
    /// operator that does not exist, or begins none of the alternatives. The
    /// other kinds say something of the grammar.
    pub open spec fn about_input(self) -> bool {
        ||| self == ParseETView::UnexpectedEnd
        ||| self == ParseETView::UnexpectedToken
        ||| self is UnrecognizedOperator
        ||| self == ParseETView::NoAlternative
    }

    /// The text that describes this kind of error.
    pub open spec fn message(self) -> Seq<char> {
        match self {
            ParseETView::UnexpectedEnd => "unexpected end of input"@,
            ParseETView::UnexpectedToken => "unexpected token"@,
            ParseETView::UnrecognizedOperator(chars) => "Operator '"@ + chars
                + "' not recognized"@,
            ParseETView::NoAlternative => "no alternative recognized"@,
            ParseETView::NoProgress => "grammar makes no progress"@,
            ParseETView::Malformed => "malformed rule result"@,
            ParseETView::InvalidGrammar => "invalid grammar"@,
        }
    }
}

/// Appends one character to a string, as `String::push` does: afterwards the
/// string holds its former characters followed by `c`.
#[verifier::external_body]
fn push_char(text: &mut String, c: char)
    ensures
        final(text)@ == old(text)@.push(c),
{
    text.push(c);
}

impl ParseET {
    /// Places this kind of error at `span`.
    pub fn at(self, span: Span) -> (err: ParseError)
        ensures
            err@ == self@.at(span),
    {
        let context: Vec<String> = Vec::new();
        assert(string_views(context@) =~= Seq::empty());
        ParseError { et: self, loc: Some(span), context }
    }

    /// Makes the error of this kind that has no location.
    pub fn error(self) -> (err: ParseError)
        ensures
            err@ == self@.error(),
    {
        let context: Vec<String> = Vec::new();
        assert(string_views(context@) =~= Seq::empty());
        ParseError { et: self, loc: None, context }
    }

    /// Places this kind of error at `loc` where there is one.
    pub fn at_opt(self, loc: Option<Span>) -> (err: ParseError)
        ensures
            err@ == (ParseErrorView { et: self@, loc, context: Seq::empty() }),
    {
        let context: Vec<String> = Vec::new();
        assert(string_views(context@) =~= Seq::empty());
        ParseError { et: self, loc, context }
    }

    /// The text that describes this kind of error.
    pub fn message(&self) -> (text: String)
        ensures
            text@ == self@.message(),
    {
        match self {
            ParseET::UnexpectedEnd => String::from_str("unexpected end of input"),
            ParseET::UnexpectedToken => String::from_str("unexpected token"),
            ParseET::UnrecognizedOperator(chars) => {
                let mut text = String::from_str("Operator '");
                let mut i: usize = 0;
                while i < chars.len()
                    invariant
                        i <= chars.len(),
                        text@ == "Operator '"@ + chars@.subrange(0, i as int),
                    decreases chars.len() - i,
                {
                    push_char(&mut text, chars[i]);
                    assert(chars@.subrange(0, i + 1) == chars@.subrange(0, i as int).push(
                        chars@[i as int],
                    ));
                    i += 1;
                }
                assert(chars@.subrange(0, i as int) == chars@);
                text.append("' not recognized");
                text
            },
            ParseET::NoAlternative => String::from_str("no alternative recognized"),
            ParseET::NoProgress => String::from_str("grammar makes no progress"),
            ParseET::Malformed => String::from_str("malformed rule result"),
            ParseET::InvalidGrammar => String::from_str("invalid grammar"),
        }
    }
}

/// A parse error: its kind, the location of the token at which parsing
/// failed (none where the input had ended), and the labels of the rules
/// inside which it happened, outermost first.
#[derive(Debug, PartialEq)]
pub struct ParseError {
    pub et: ParseET,
    pub loc: Option<Span>,
    pub context: Vec<String>,
}

pub ghost struct ParseErrorView {
    pub et: ParseETView,
    pub loc: Option<Span>,
    pub context: Seq<Seq<char>>,
}

impl ParseErrorView {
    /// This error as seen from the rule labelled `label` that encloses it:
    /// the same kind and location, with `label` put before the other labels.
    pub open spec fn when(self, label: Seq<char>) -> ParseErrorView {
        ParseErrorView { et: self.et, loc: self.loc, context: seq![label] + self.context }
    }
}

/// The views of a sequence of strings, one by one.
pub open spec fn string_views(strings: Seq<String>) -> Seq<Seq<char>> {
    Seq::new(strings.len(), |i: int| strings[i]@)
}

impl View for ParseError {
    type V = ParseErrorView;

    open spec fn view(&self) -> ParseErrorView {
        ParseErrorView { et: self.et@, loc: self.loc, context: string_views(self.context@) }
    }
}

impl ParseError {
    /// Records that the error happened inside the rule labelled `label`.
    pub fn when(self, label: &str) -> (err: ParseError)
        ensures
            err@ == self@.when(label@),
    {
        let ParseError { et, loc, context } = self;
        let mut context = context;
        let ghost before = context@;
        context.insert(0, String::from_str(label));
        assert(string_views(context@) =~= seq![label@] + string_views(before));
        ParseError { et, loc, context }
    }
}

} // verus!
