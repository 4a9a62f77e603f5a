//! The dice expression parser: `"4d10-2d4+3"` becomes `[(D10, 4), (D4, -2), (Raw, 3)]`.
use crate::dice::{DiceExpressionParser, Die};
use crate::utilities::text::{
    chars_of, contains_char, lemma_split_nonempty, lowercase, parse_i32, parse_int, split,
    split_on, texts,
};
use regex::Regex;
use vstd::prelude::*;
use vstd::string::StringExecFns;

verus! {

/// `regex::Regex`, a compiled regular expression. Nothing of its inside is
/// visible here.
#[verifier::external_type_specification]
#[verifier::external_body]
pub struct ExRegex(Regex);

/// `regex::Error`, what `Regex::new` returns for a pattern that it does not
/// compile.
#[verifier::external_type_specification]
#[verifier::external_body]
pub struct ExRegexError(regex::Error);

/// Whether `Regex::new` compiles a pattern.
pub uninterp spec fn regex_compiles(pattern: Seq<char>) -> bool;

/// The pattern that `Regex::new` compiled a regex from, and `None` for a
/// regex that was made in another way, with options that its pattern does
/// not show.
pub uninterp spec fn regex_pattern(regex: Regex) -> Option<Seq<char>>;

/// Whether the regex that `Regex::new` compiles from `pattern` finds a match
/// in `haystack`.
pub uninterp spec fn regex_is_match(pattern: Seq<char>, haystack: Seq<char>) -> bool;

/// `Regex::new` compiles a pattern, or returns an error for a pattern that is
/// invalid or too big. Whether it compiles is named, not spelled out; the
/// regex that comes back was compiled from the pattern.
#[verifier::external_body]
fn compile(pattern: &str) -> (compiled: Result<Regex, regex::Error>)
    ensures
        compiled is Ok <==> regex_compiles(pattern@),
        compiled matches Ok(regex) ==> regex_pattern(regex) == Some(pattern@),
{
    Regex::new(pattern)
}

/// `Regex::is_match` tells whether there is a match for the regex anywhere in
/// the haystack. For a regex that `Regex::new` compiled, the answer depends
/// on the pattern and the haystack alone; it is named, not spelled out.
#[verifier::external_body]
fn is_match(regex: &Regex, haystack: &str) -> (found: bool)
    requires
        regex_pattern(*regex) is Some,
    ensures
        found == regex_is_match(regex_pattern(*regex)->0, haystack@),
{
    regex.is_match(haystack)
}

/// The shape of one term: an optional sign, an optional run of digits, an
/// optional die. It is anchored at both ends, so a match is a match of the
/// whole piece.
pub const TERM_PATTERN: &'static str = "^-?(\\d+)?(d4|d6|d8|d10|d12|d20)?$";

/// `text` with every `-` rewritten to `+-`, so that a subtracted group
/// becomes a signed term of its own once the text is cut at `+`.
pub open spec fn signs_split(text: Seq<char>) -> Seq<char>
    decreases text.len(),
{
    if text.len() == 0 {
        Seq::empty()
    } else if text.last() == '-' {
        signs_split(text.drop_last()).push('+').push('-')
    } else {
        signs_split(text.drop_last()).push(text.last())
    }
}

/// The candidate terms of an expression, before any is validated.
pub open spec fn pieces_of(expression: Seq<char>) -> Seq<Seq<char>> {
    split(signs_split(lowercase(expression)), '+')
}

/// Whether a piece has the shape of a term.
pub open spec fn is_term(piece: Seq<char>) -> bool {
    regex_is_match(TERM_PATTERN@, piece)
}

/// The die that the text after `d` selects. Anything but 4, 6, 8, 10 and 12
/// selects the d20.
pub open spec fn die_of(suffix: Seq<char>) -> Die {
    if suffix == seq!['4'] {
        Die::D4
    } else if suffix == seq!['6'] {
        Die::D6
    } else if suffix == seq!['8'] {
        Die::D8
    } else if suffix == seq!['1', '0'] {
        Die::D10
    } else if suffix == seq!['1', '2'] {
        Die::D12
    } else {
        Die::D20
    }
}

/// The count that a text spells, 0 where it spells no `i32`.
pub open spec fn count_of(text: Seq<char>) -> i32 {
    match parse_int(text) {
        Some(count) => count,
        None => 0,
    }
}

/// The term that a piece stands for. With a `d` in it, the text before the
/// first `d` is the count and the text up to the next `d` selects the die;
/// without one, the whole piece is the count of a `Raw` term.
pub open spec fn term_of(piece: Seq<char>) -> (Die, i32) {
    if piece.contains('d') {
        let parts = split(piece, 'd');
        let suffix = if parts.len() > 1 {
            parts[1]
        } else {
            Seq::empty()
        };
        (die_of(suffix), count_of(parts[0]))
    } else {
        (Die::Raw, count_of(piece))
    }
}

/// Whether the piece at `i` was accepted; a piece without a verdict was not.
pub open spec fn is_accepted(accepted: Seq<bool>, i: int) -> bool {
    0 <= i < accepted.len() && accepted[i]
}

/// The terms of the pieces that were accepted, in order; the others are
/// dropped.
pub open spec fn selected_terms(pieces: Seq<Seq<char>>, accepted: Seq<bool>) -> Seq<(Die, i32)>
    decreases pieces.len(),
{
    if pieces.len() == 0 {
        Seq::empty()
    } else if is_accepted(accepted, pieces.len() - 1) {
        selected_terms(pieces.drop_last(), accepted).push(term_of(pieces.last()))
    } else {
        selected_terms(pieces.drop_last(), accepted)
    }
}

/// The message that rejects an expression.
pub open spec fn rejection(expression: Seq<char>) -> Seq<char> {
    seq!['"'] + expression + "\" is not a valid dice expression"@
}

/// The outcome of a parse, given which pieces were accepted: the selected
/// terms, or a rejection when no piece is left.
pub open spec fn assembled(
    expression: Seq<char>,
    pieces: Seq<Seq<char>>,
    accepted: Seq<bool>,
) -> Result<Seq<(Die, i32)>, Seq<char>> {
    let terms = selected_terms(pieces, accepted);
    if terms.len() == 0 {
        Err(rejection(expression))
    } else {
        Ok(terms)
    }
}

/// An executable parse result holds what `expected` says.
pub open spec fn same_parse(
    outcome: Result<Vec<(Die, i32)>, String>,
    expected: Result<Seq<(Die, i32)>, Seq<char>>,
) -> bool {
    match outcome {
        Ok(terms) => expected == Ok::<Seq<(Die, i32)>, Seq<char>>(terms@),
        Err(message) => expected == Err::<Seq<(Die, i32)>, Seq<char>>(message@),
    }
}

/// What parsing an expression yields: its pieces, each validated against the
/// term pattern, assembled.
pub open spec fn parse_expression(expression: Seq<char>) -> Result<Seq<(Die, i32)>, Seq<char>> {
    let pieces = pieces_of(expression);
    assembled(expression, pieces, Seq::new(pieces.len(), |i: int| is_term(pieces[i])))
}

/// Rewrites every `-` to `+-`.
pub fn split_signs(text: &str) -> (rewritten: String)
    ensures
        rewritten@ == signs_split(text@),
{
    let mut rewritten = String::new();
    for c in it: text.chars()
        invariant
            it.seq() == text@,
            rewritten@ == signs_split(text@.take(it.index() as int)),
    {
        proof {
            assert(text@.take(it.index() + 1).drop_last() =~= text@.take(it.index() as int));
        }
        if c == '-' {
            rewritten.push('+');
        }
        rewritten.push(c);
    }
    assert(text@.take(text@.len() as int) =~= text@);
    rewritten
}

/// Cuts a lowercased expression into its candidate terms.
pub fn split_terms(lowered: &str) -> (pieces: Vec<String>)
    ensures
        texts(pieces@) == split(signs_split(lowered@), '+'),
{
    let rewritten = split_signs(lowered);
    split_on(rewritten.as_str(), '+')
}

/// The count that `text` spells, 0 where it spells none.
fn read_count(text: &str) -> (count: i32)
    ensures
        count == count_of(text@),
{
    match parse_i32(text) {
        Some(count) => count,
        None => 0,
    }
}

/// The die that `suffix` selects.
fn read_die(suffix: &str) -> (die: Die)
    ensures
        die == die_of(suffix@),
{
    let chars = chars_of(suffix);
    if chars.len() == 1 {
        let c = chars[0];
        proof {
            assert(suffix@ =~= seq![c]);
        }
        if c == '4' {
            Die::D4
        } else if c == '6' {
            Die::D6
        } else if c == '8' {
            Die::D8
        } else {
            Die::D20
        }
    } else if chars.len() == 2 {
        let c0 = chars[0];
        let c1 = chars[1];
        proof {
            assert(suffix@ =~= seq![c0, c1]);
        }
        if c0 == '1' && c1 == '0' {
            Die::D10
        } else if c0 == '1' && c1 == '2' {
            Die::D12
        } else {
            Die::D20
        }
    } else {
        Die::D20
    }
}

/// Reads one piece as a term. Every piece stands for a term; whether a piece
/// is to be read at all is decided before, by the term pattern.
pub fn parse_term(piece: &str) -> (term: (Die, i32))
    ensures
        term == term_of(piece@),
{
    if contains_char(piece, 'd') {
        let parts = split_on(piece, 'd');
        proof {
            lemma_split_nonempty(piece@, 'd');
        }
        let die = if parts.len() > 1 {
            read_die(parts[1].as_str())
        } else {
            let empty = String::new();
            read_die(empty.as_str())
        };
        (die, read_count(parts[0].as_str()))
    } else {
        (Die::Raw, read_count(piece))
    }
}

/// Builds the outcome of a parse from the pieces of `expression` and the
/// verdict on each.
pub fn assemble(expression: &str, pieces: &Vec<String>, accepted: &Vec<bool>) -> (outcome: Result<
    Vec<(Die, i32)>,
    String,
>)
    ensures
        same_parse(outcome, assembled(expression@, texts(pieces@), accepted@)),
{
    let mut terms: Vec<(Die, i32)> = Vec::new();
    let mut i: usize = 0;
    while i < pieces.len()
        invariant
            i <= pieces.len(),
            terms@ == selected_terms(texts(pieces@).take(i as int), accepted@),
        decreases pieces.len() - i,
    {
        proof {
            assert(texts(pieces@).take(i + 1).drop_last() =~= texts(pieces@).take(i as int));
        }
        if i < accepted.len() && accepted[i] {
            terms.push(parse_term(pieces[i].as_str()));
        }
        i += 1;
    }
    assert(texts(pieces@).take(i as int) =~= texts(pieces@));
    if terms.len() == 0 {
        let mut message = String::from_str("\"");
        proof {
            reveal_strlit("\"");
            assert("\""@ =~= seq!['"']);
        }
        message.append(expression);
        message.append("\" is not a valid dice expression");
        Err(message)
    } else {
        Ok(terms)
    }
}

/// Parses dice expressions, validating each candidate term against
/// `TERM_PATTERN`.
pub struct DiceExpressionParserImpl {
    eval_regex: Regex,
}

impl DiceExpressionParserImpl {
    /// The regex of a parser is the one compiled from `TERM_PATTERN`.
    #[verifier::type_invariant]
    spec fn holds_term_pattern(&self) -> bool {
        regex_pattern(self.eval_regex) == Some(TERM_PATTERN@)
    }

    /// The regex that a parser validates every candidate term with.
    pub closed spec fn regex(&self) -> Regex {
        self.eval_regex
    }

    /// A parser that validates with `eval_regex`.
    fn new(eval_regex: Regex) -> (parser: Self)
        requires
            regex_pattern(eval_regex) == Some(TERM_PATTERN@),
        ensures
            parser.regex() == eval_regex,
    {
        Self { eval_regex }
    }

    /// A parser for the term pattern: its regex is the one that `Regex::new`
    /// compiles from `TERM_PATTERN`. The pattern has to compile, which
    /// `try_default` finds out.
    pub fn default() -> (parser: Self)
        requires
            regex_compiles(TERM_PATTERN@),
        ensures
            regex_pattern(parser.regex()) == Some(TERM_PATTERN@),
    {
        match compile(TERM_PATTERN) {
            Ok(eval_regex) => Self::new(eval_regex),
            Err(_) => vstd::pervasive::unreached(),
        }
    }

    /// A parser for the term pattern, or `None` if the pattern does not
    /// compile.
    pub fn try_default() -> (parser: Option<Self>)
        ensures
            parser is Some <==> regex_compiles(TERM_PATTERN@),
    {
        match compile(TERM_PATTERN) {
            Ok(_) => Some(Self::default()),
            Err(_) => None,
        }
    }
}

impl DiceExpressionParser for DiceExpressionParserImpl {
    /// Lowercases the expression, cuts it into pieces, asks the term pattern
    /// about each piece, and reads the accepted pieces as terms.
    fn parse(&self, expression: &str) -> (outcome: Result<Vec<(Die, i32)>, String>)
        ensures
            same_parse(outcome, parse_expression(expression@)),
    {
        proof {
            use_type_invariant(self);
        }
        let lowered = expression.to_lowercase();
        let pieces = split_terms(lowered.as_str());
        let mut accepted: Vec<bool> = Vec::new();
        let mut i: usize = 0;
        while i < pieces.len()
            invariant
                i <= pieces.len(),
                accepted.len() == i,
                regex_pattern(self.eval_regex) == Some(TERM_PATTERN@),
                forall|k: int| 0 <= k < i ==> accepted@[k] == is_term(#[trigger] texts(pieces@)[k]),
            decreases pieces.len() - i,
        {
            accepted.push(is_match(&self.eval_regex, pieces[i].as_str()));
            i += 1;
        }
        assert(accepted@ =~= Seq::new(
            texts(pieces@).len(),
            |i: int| is_term(texts(pieces@)[i]),
        ));
        assemble(expression, &pieces, &accepted)
    }
}

} // verus!
