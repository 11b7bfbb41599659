//! The lexer: whitespace stripping, character classification, and the
//! left-to-right scan that coalesces letter and digit runs into tokens.
//!
//! The scan keeps one pending buffer.  A character of the same accumulating
//! class (letters, or digits and dots) extends the buffer; a class change
//! flushes it.  A flushed letter run directly before `(` must name a known
//! function; anywhere else it becomes one single-character variable operand
//! per letter.  A flushed digit run must spell a numeric literal: at least
//! one digit and at most one dot.  Arithmetic symbols and brackets are
//! emitted at once; `+` and `-` are unary exactly when the preceding
//! classified character was nothing (start of input), an opening bracket,
//! or another arithmetic symbol.

use vstd::prelude::*;
use vstd::string::StrSliceExecFns;
use crate::error::{ErrorView, EvaluationError};
use crate::function::{spec_function_of, Function};
use crate::operator::{Arity, Operator};
use crate::token::{
    lemma_views_of_tokens_push, views_of_tokens, Operand, OperandView, Token, TokenView,
};

verus! {

/// The lexical class of one character.  `Boundary` stands for the edges of
/// the input: it is the class "before" the first character and the flushing
/// context at the end of the scan.
#[derive(Debug, PartialEq, Eq, Structural, Copy, Clone)]
pub enum Character {
    Boundary,
    Letter,
    Number,
    Operator,
    LBracket,
    RBracket,
}

/// Whether the character has the Unicode `White_Space` property: the fixed
/// set of code points that `str::split_whitespace` separates on.
pub open spec fn is_whitespace_char(c: char) -> bool {
    let n = c as u32;
    (9 <= n && n <= 13) || n == 32 || n == 0x85 || n == 0xA0 || n == 0x1680 || (0x2000 <= n && n
        <= 0x200A) || n == 0x2028 || n == 0x2029 || n == 0x202F || n == 0x205F || n == 0x3000
}

/// Executable mirror of [`is_whitespace_char`].
pub fn char_is_whitespace(c: char) -> (r: bool)
    ensures
        r == is_whitespace_char(c),
{
    let n = c as u32;
    (9 <= n && n <= 13) || n == 32 || n == 0x85 || n == 0xA0 || n == 0x1680 || (0x2000 <= n && n
        <= 0x200A) || n == 0x2028 || n == 0x2029 || n == 0x202F || n == 0x205F || n == 0x3000
}

/// An ASCII decimal digit.
pub open spec fn is_digit_char(c: char) -> bool {
    48 <= c as u32 && c as u32 <= 57
}

/// Whether the character has the Unicode `Alphabetic` property; a fact of
/// the character alone.  Named here and given meaning only through the
/// specification assumed for `char::is_alphabetic` below.
pub uninterp spec fn is_letter_char(c: char) -> bool;

/// Relies on `char::is_alphabetic`: returns whether the character has the
/// Unicode `Alphabetic` property, a pure function of the character.  ASCII
/// letters have that property.
pub assume_specification[ char::is_alphabetic ](c: char) -> (r: bool)
    ensures
        r == is_letter_char(c),
        (97 <= c as u32 && c as u32 <= 122) || (65 <= c as u32 && c as u32 <= 90) ==> r,
;

/// The class of a character, or `None` for a character that belongs to no
/// class and is rejected by the lexer.  Digits and the decimal dot come
/// first; the remaining fixed symbols are disjoint from every other class;
/// whatever else is alphabetic is a letter.
pub open spec fn class_of(c: char) -> Option<Character> {
    if is_digit_char(c) || c == '.' {
        Some(Character::Number)
    } else if c == '+' || c == '-' || c == '*' || c == '/' {
        Some(Character::Operator)
    } else if c == '(' {
        Some(Character::LBracket)
    } else if c == ')' {
        Some(Character::RBracket)
    } else if is_letter_char(c) {
        Some(Character::Letter)
    } else {
        None
    }
}

/// Classifies one character; `None` means the character is invalid.
pub fn get_char_type(c: char) -> (r: Option<Character>)
    ensures
        r == class_of(c),
{
    let n = c as u32;
    if (48 <= n && n <= 57) || c == '.' {
        Some(Character::Number)
    } else if c == '+' || c == '-' || c == '*' || c == '/' {
        Some(Character::Operator)
    } else if c == '(' {
        Some(Character::LBracket)
    } else if c == ')' {
        Some(Character::RBracket)
    } else if c.is_alphabetic() {
        Some(Character::Letter)
    } else {
        None
    }
}

/// The input with every whitespace character removed.
pub open spec fn strip_whitespace(s: Seq<char>) -> Seq<char>
    decreases s.len(),
{
    if s.len() == 0 {
        Seq::empty()
    } else if is_whitespace_char(s[0]) {
        strip_whitespace(s.drop_first())
    } else {
        seq![s[0]] + strip_whitespace(s.drop_first())
    }
}

/// Strips all whitespace from the input before classification; whitespace
/// only separates and never reaches any token.
pub fn remove_whitespace(s: &str) -> (r: Vec<char>)
    ensures
        r@ == strip_whitespace(s@),
{
    let n = s.unicode_len();
    let mut r: Vec<char> = Vec::new();
    let mut i: usize = 0;
    proof {
        assert(s@.skip(0) =~= s@);
        assert(Seq::<char>::empty() + strip_whitespace(s@) =~= strip_whitespace(s@));
    }
    while i < n
        invariant
            n == s@.len(),
            i <= n,
            r@ + strip_whitespace(s@.skip(i as int)) == strip_whitespace(s@),
        decreases n - i,
    {
        let c = s.get_char(i);
        let ghost prev = r@;
        proof {
            assert(s@.skip(i as int)[0] == c);
            assert(s@.skip(i as int).drop_first() =~= s@.skip(i as int + 1));
        }
        if !char_is_whitespace(c) {
            r.push(c);
            proof {
                assert(r@ + strip_whitespace(s@.skip(i as int + 1)) =~= prev + (seq![c]
                    + strip_whitespace(s@.skip(i as int + 1))));
            }
        }
        i = i + 1;
    }
    proof {
        assert(s@.skip(n as int) =~= Seq::<char>::empty());
        assert(r@ + strip_whitespace(s@.skip(n as int)) =~= r@);
    }
    r
}

/// How many characters of the text are decimal digits.
pub open spec fn digit_count(s: Seq<char>) -> nat
    decreases s.len(),
{
    if s.len() == 0 {
        0
    } else {
        digit_count(s.drop_last()) + if is_digit_char(s.last()) {
            1nat
        } else {
            0nat
        }
    }
}

/// How many characters of the text are decimal dots.
pub open spec fn dot_count(s: Seq<char>) -> nat
    decreases s.len(),
{
    if s.len() == 0 {
        0
    } else {
        dot_count(s.drop_last()) + if s.last() == '.' {
            1nat
        } else {
            0nat
        }
    }
}

/// Whether a run of digits and dots spells a numeric literal: at least one
/// digit and at most one dot.
pub open spec fn valid_number_text(s: Seq<char>) -> bool {
    digit_count(s) >= 1 && dot_count(s) <= 1
}

/// The literal token a digit run flushes into, or the malformed-literal
/// error carrying the run.
pub open spec fn spec_number_token(text: Seq<char>) -> Result<TokenView, ErrorView> {
    if valid_number_text(text) {
        Ok(TokenView::Operand(OperandView::Literal(text)))
    } else {
        Err(ErrorView::MalformedNumber(text))
    }
}

/// Flushes a digit-and-dot run into a literal operand token; a run with no
/// digit or more than one dot is a malformed numeric literal.
pub fn number_buffer_to_token(buffer: Vec<char>) -> (r: Result<Token, EvaluationError>)
    ensures
        match r {
            Ok(t) => spec_number_token(buffer@) == Ok::<TokenView, ErrorView>(t@),
            Err(e) => spec_number_token(buffer@) == Err::<TokenView, ErrorView>(e@),
        },
{
    let n = buffer.len();
    let mut digits: usize = 0;
    let mut dots: usize = 0;
    let mut i: usize = 0;
    while i < n
        invariant
            n == buffer@.len(),
            i <= n,
            digits == digit_count(buffer@.subrange(0, i as int)),
            dots == dot_count(buffer@.subrange(0, i as int)),
            digits <= i,
            dots <= i,
        decreases n - i,
    {
        let c = buffer[i];
        proof {
            assert(buffer@.subrange(0, i as int + 1).drop_last() =~= buffer@.subrange(0, i as int));
            assert(buffer@.subrange(0, i as int + 1).last() == c);
        }
        let n32 = c as u32;
        if 48 <= n32 && n32 <= 57 {
            digits = digits + 1;
        } else if c == '.' {
            dots = dots + 1;
        }
        i = i + 1;
    }
    proof {
        assert(buffer@.subrange(0, n as int) =~= buffer@);
    }
    if digits >= 1 && dots <= 1 {
        Ok(Token::Operand(Operand::Literal(buffer)))
    } else {
        Err(EvaluationError::MalformedNumber(buffer))
    }
}

/// Looks a letter run up in the fixed function table.
pub fn function_of_chars(buffer: &Vec<char>) -> (r: Option<Function>)
    ensures
        r == spec_function_of(buffer@),
{
    proof {
        reveal_strlit("sin");
        reveal_strlit("cosin");
    }
    let n = buffer.len();
    if n == 3 && buffer[0] == 's' && buffer[1] == 'i' && buffer[2] == 'n' {
        proof {
            assert(buffer@ =~= "sin"@);
        }
        Some(Function::Sin)
    } else if n == 5 && buffer[0] == 'c' && buffer[1] == 'o' && buffer[2] == 's' && buffer[3] == 'i'
        && buffer[4] == 'n' {
        proof {
            assert(buffer@ =~= "cosin"@);
        }
        Some(Function::Cos)
    } else {
        proof {
            assert(buffer@ != "sin"@ && buffer@ != "cosin"@) by {
                if buffer@ == "sin"@ {
                    assert(buffer@.len() == 3);
                    assert(buffer@[0] == 's' && buffer@[1] == 'i' && buffer@[2] == 'n');
                }
                if buffer@ == "cosin"@ {
                    assert(buffer@.len() == 5);
                    assert(buffer@[0] == 'c' && buffer@[1] == 'o' && buffer@[2] == 's'
                        && buffer@[3] == 'i' && buffer@[4] == 'n');
                }
            }
        }
        None
    }
}

/// The image of one letter as a variable operand token.
pub open spec fn variable_token(c: char) -> TokenView {
    TokenView::Operand(OperandView::Variable(c))
}

/// The tokens a flushed letter run turns into, given the class of the
/// character that follows the run.  Directly before `(` the run must name
/// a function; anywhere else each letter becomes its own variable operand.
pub open spec fn spec_letter_tokens(buffer: Seq<char>, ctx: Character) -> Result<
    Seq<TokenView>,
    ErrorView,
> {
    if ctx == Character::LBracket {
        match spec_function_of(buffer) {
            Some(f) => Ok(seq![TokenView::Operator(Operator::Function(f))]),
            None => Err(ErrorView::UnknownFunction(buffer)),
        }
    } else {
        Ok(buffer.map_values(|c: char| variable_token(c)))
    }
}

/// Flushes a letter run, given the class of the character that follows it.
pub fn letter_buffer_to_tokens(buffer: Vec<char>, char_type: &Character) -> (r: Result<
    Vec<Token>,
    EvaluationError,
>)
    ensures
        match r {
            Ok(ts) => spec_letter_tokens(buffer@, *char_type) == Ok::<_, ErrorView>(
                views_of_tokens(ts@),
            ),
            Err(e) => spec_letter_tokens(buffer@, *char_type) == Err::<Seq<TokenView>, _>(e@),
        },
{
    match char_type {
        Character::LBracket => match function_of_chars(&buffer) {
            Some(f) => {
                let mut tokens: Vec<Token> = Vec::new();
                tokens.push(Token::Operator(Operator::Function(f)));
                proof {
                    assert(views_of_tokens(tokens@) =~= seq![
                        TokenView::Operator(Operator::Function(f)),
                    ]);
                }
                Ok(tokens)
            },
            None => Err(EvaluationError::UnknownFunction(buffer)),
        },
        _ => {
            let n = buffer.len();
            let mut tokens: Vec<Token> = Vec::new();
            let mut i: usize = 0;
            while i < n
                invariant
                    n == buffer@.len(),
                    i <= n,
                    views_of_tokens(tokens@) == buffer@.subrange(0, i as int).map_values(
                        |c: char| variable_token(c),
                    ),
                decreases n - i,
            {
                let ghost prev = tokens@;
                tokens.push(Token::Operand(Operand::Variable(buffer[i])));
                proof {
                    lemma_views_of_tokens_push(prev, Token::Operand(Operand::Variable(buffer@[
                        i as int])));
                    assert(buffer@.subrange(0, i as int + 1).map_values(|c: char| variable_token(c))
                        =~= buffer@.subrange(0, i as int).map_values(|c: char| variable_token(c)).push(
                        variable_token(buffer@[i as int])));
                }
                i = i + 1;
            }
            proof {
                assert(buffer@.subrange(0, n as int) =~= buffer@);
            }
            Ok(tokens)
        },
    }
}

/// The operator token one arithmetic symbol emits.  A sign is unary exactly
/// when the preceding classified character was nothing, an opening bracket,
/// or another arithmetic symbol; `*` and `/` have no unary form and are
/// emitted as they stand wherever they appear.
pub open spec fn spec_operator_token(c: char, last: Character) -> Operator {
    let unary = last == Character::Boundary || last == Character::LBracket || last
        == Character::Operator;
    if c == '+' {
        Operator::Add(
            if unary {
                Arity::Unary
            } else {
                Arity::Binary
            },
        )
    } else if c == '-' {
        Operator::Substract(
            if unary {
                Arity::Unary
            } else {
                Arity::Binary
            },
        )
    } else if c == '*' {
        Operator::Multiply
    } else {
        Operator::Divide
    }
}

/// Emits the operator token for one arithmetic symbol.
fn operator_token(c: char, last: &Character) -> (r: Operator)
    ensures
        r == spec_operator_token(c, *last),
{
    let unary = *last == Character::Boundary || *last == Character::LBracket || *last
        == Character::Operator;
    if c == '+' {
        Operator::Add(
            if unary {
                Arity::Unary
            } else {
                Arity::Binary
            },
        )
    } else if c == '-' {
        Operator::Substract(
            if unary {
                Arity::Unary
            } else {
                Arity::Binary
            },
        )
    } else if c == '*' {
        Operator::Multiply
    } else {
        Operator::Divide
    }
}

/// The state of the scan: the tokens emitted so far, the pending letter or
/// digit buffer, and the class of the preceding character.
pub struct LexState {
    pub tokens: Seq<TokenView>,
    pub buffer: Seq<char>,
    pub last: Character,
}

/// The scan's state before the first character.
pub open spec fn initial_lex_state() -> LexState {
    LexState { tokens: Seq::empty(), buffer: Seq::empty(), last: Character::Boundary }
}

/// The tokens after the pending buffer is flushed, given the class of what
/// follows it.  A letter buffer flushes through [`spec_letter_tokens`], a
/// digit buffer through [`spec_number_token`]; any other state has no
/// pending buffer.
pub open spec fn spec_flush(st: LexState, ctx: Character) -> Result<Seq<TokenView>, ErrorView> {
    if st.last == Character::Letter {
        match spec_letter_tokens(st.buffer, ctx) {
            Ok(ts) => Ok(st.tokens + ts),
            Err(e) => Err(e),
        }
    } else if st.last == Character::Number {
        match spec_number_token(st.buffer) {
            Ok(t) => Ok(st.tokens.push(t)),
            Err(e) => Err(e),
        }
    } else {
        Ok(st.tokens)
    }
}

/// One step of the scan: classify the character at position `i`, flush the
/// pending buffer on a class change, then either extend the buffer or emit
/// the character's token.
pub open spec fn spec_lex_step(st: LexState, c: char, i: int) -> Result<LexState, ErrorView> {
    match class_of(c) {
        None => Err(ErrorView::InvalidCharacter(c, i)),
        Some(cls) => {
            let flushed = if cls == st.last {
                Ok(st.tokens)
            } else {
                spec_flush(st, cls)
            };
            match flushed {
                Err(e) => Err(e),
                Ok(toks) => {
                    let buffer2 = if cls == Character::Letter || cls == Character::Number {
                        if cls == st.last {
                            st.buffer.push(c)
                        } else {
                            seq![c]
                        }
                    } else {
                        Seq::empty()
                    };
                    let toks2 = if cls == Character::Operator {
                        toks.push(TokenView::Operator(spec_operator_token(c, st.last)))
                    } else if cls == Character::LBracket {
                        toks.push(TokenView::Operator(Operator::LBracket))
                    } else if cls == Character::RBracket {
                        toks.push(TokenView::Operator(Operator::RBracket))
                    } else {
                        toks
                    };
                    Ok(LexState { tokens: toks2, buffer: buffer2, last: cls })
                },
            }
        },
    }
}

/// The end of the scan over an input of length `n`.  Input that stops right
/// after an arithmetic symbol or an opening bracket — or that was empty —
/// still owes an operand; otherwise the pending buffer is flushed with the
/// end of input as context.
pub open spec fn spec_lex_finish(st: LexState, n: int) -> Result<Seq<TokenView>, ErrorView> {
    if st.last == Character::Boundary || st.last == Character::Operator || st.last
        == Character::LBracket {
        Err(ErrorView::UnexpectedEnd(n))
    } else {
        spec_flush(st, Character::Boundary)
    }
}

/// The scan from position `i` onward, started in state `st`.
pub open spec fn spec_lex_from(s: Seq<char>, i: int, st: LexState) -> Result<
    Seq<TokenView>,
    ErrorView,
>
    decreases s.len() - i,
{
    if i < 0 || i >= s.len() {
        spec_lex_finish(st, s.len() as int)
    } else {
        match spec_lex_step(st, s[i], i) {
            Err(e) => Err(e),
            Ok(st2) => spec_lex_from(s, i + 1, st2),
        }
    }
}

/// What tokenizing a text yields: the whole scan over the
/// whitespace-stripped input.
pub open spec fn spec_tokenize(s: Seq<char>) -> Result<Seq<TokenView>, ErrorView> {
    spec_lex_from(strip_whitespace(s), 0, initial_lex_state())
}

/// Turns a text into its token sequence, or reports the first lexical
/// fault: an invalid character, an unknown function name, a malformed
/// numeric literal, or input that stops where an operand was still owed.
/// Positions in errors refer to the whitespace-stripped input.
pub fn tokenize(expression: &str) -> (r: Result<Vec<Token>, EvaluationError>)
    ensures
        match r {
            Ok(tokens) => spec_tokenize(expression@) == Ok::<_, ErrorView>(
                views_of_tokens(tokens@),
            ),
            Err(e) => spec_tokenize(expression@) == Err::<Seq<TokenView>, _>(e@),
        },
{
    let chars = remove_whitespace(expression);
    let n = chars.len();
    let mut tokens: Vec<Token> = Vec::new();
    let mut buffer: Vec<char> = Vec::new();
    let mut last = Character::Boundary;
    let mut i: usize = 0;
    proof {
        assert(views_of_tokens(tokens@) =~= Seq::<TokenView>::empty());
        assert(LexState { tokens: views_of_tokens(tokens@), buffer: buffer@, last }
            == initial_lex_state());
    }
    while i < n
        invariant
            n == chars@.len(),
            chars@ == strip_whitespace(expression@),
            i <= n,
            last != Character::Letter && last != Character::Number ==> buffer@ == Seq::<
                char,
            >::empty(),
            spec_lex_from(
                chars@,
                i as int,
                LexState { tokens: views_of_tokens(tokens@), buffer: buffer@, last },
            ) == spec_tokenize(expression@),
        decreases n - i,
    {
        let ghost st = LexState { tokens: views_of_tokens(tokens@), buffer: buffer@, last };
        let c = chars[i];
        let cls = match get_char_type(c) {
            Some(cls) => cls,
            None => {
                return Err(EvaluationError::InvalidCharacter(c, i));
            },
        };
        if cls != last {
            if last == Character::Letter {
                let letters = buffer;
                buffer = Vec::new();
                match letter_buffer_to_tokens(letters, &cls) {
                    Ok(mut ts) => {
                        let ghost prev = tokens@;
                        let ghost flushed = ts@;
                        tokens.append(&mut ts);
                        proof {
                            assert(views_of_tokens(prev + flushed) =~= views_of_tokens(prev)
                                + views_of_tokens(flushed));
                        }
                    },
                    Err(e) => {
                        return Err(e);
                    },
                }
            } else if last == Character::Number {
                let digits = buffer;
                buffer = Vec::new();
                match number_buffer_to_token(digits) {
                    Ok(t) => {
                        let ghost prev = tokens@;
                        let ghost tok = t;
                        tokens.push(t);
                        proof {
                            lemma_views_of_tokens_push(prev, tok);
                        }
                    },
                    Err(e) => {
                        return Err(e);
                    },
                }
            }
        }
        if cls == Character::Letter || cls == Character::Number {
            buffer.push(c);
        } else if cls == Character::Operator {
            let ghost prev = tokens@;
            let op = operator_token(c, &last);
            tokens.push(Token::Operator(op));
            proof {
                lemma_views_of_tokens_push(prev, Token::Operator(op));
            }
        } else if cls == Character::LBracket {
            let ghost prev = tokens@;
            tokens.push(Token::Operator(Operator::LBracket));
            proof {
                lemma_views_of_tokens_push(prev, Token::Operator(Operator::LBracket));
            }
        } else {
            let ghost prev = tokens@;
            tokens.push(Token::Operator(Operator::RBracket));
            proof {
                lemma_views_of_tokens_push(prev, Token::Operator(Operator::RBracket));
            }
        }
        last = cls;
        proof {
            let st2 = LexState { tokens: views_of_tokens(tokens@), buffer: buffer@, last };
            assert(spec_lex_step(st, chars@[i as int], i as int) == Ok::<LexState, ErrorView>(st2));
        }
        i = i + 1;
    }
    if last == Character::Boundary || last == Character::Operator || last == Character::LBracket {
        return Err(EvaluationError::UnexpectedEnd(n));
    }
    if last == Character::Letter {
        match letter_buffer_to_tokens(buffer, &Character::Boundary) {
            Ok(mut ts) => {
                let ghost prev = tokens@;
                let ghost flushed = ts@;
                tokens.append(&mut ts);
                proof {
                    assert(views_of_tokens(prev + flushed) =~= views_of_tokens(prev)
                        + views_of_tokens(flushed));
                }
            },
            Err(e) => {
                return Err(e);
            },
        }
    } else if last == Character::Number {
        match number_buffer_to_token(buffer) {
            Ok(t) => {
                let ghost prev = tokens@;
                let ghost tok = t;
                tokens.push(t);
                proof {
                    lemma_views_of_tokens_push(prev, tok);
                }
            },
            Err(e) => {
                return Err(e);
            },
        }
    }
    Ok(tokens)
}

} // verus!
