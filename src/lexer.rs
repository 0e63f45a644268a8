use vstd::prelude::*;

use crate::errors::TokenError;
use crate::errors::TokenErrorDetails;
use crate::numeric::is_digit;
use crate::parse_position::Position;
use crate::parse_position::PositionRange;
use crate::text::chars_to_string;
use crate::text::str_chars;
use crate::tokenizer::ident_end;
use crate::tokenizer::is_ident_start;
use crate::tokenizer::lemma_ident_end;
use crate::tokenizer::lemma_skip_space;
use crate::tokenizer::lemma_string_run_end;
use crate::tokenizer::lemma_text_run_end;
use crate::tokenizer::number_or_dice;
use crate::tokenizer::number_or_dice_spec;
use crate::tokenizer::skip_space;
use crate::tokenizer::string_run;
use crate::tokenizer::text_run;
use crate::tokenizer::token_view;
use crate::tokenizer::NumberOrDice;
use crate::tokenizer::StructureKeyword;
use crate::tokenizer::Token;
use crate::tokenizer::TokenView;

verus! {

/// The two delimiter conventions: `$<` … `>` for inclusion text, `${` … `}` for stat-block text.
#[derive(Clone, Copy, Debug, PartialEq, Eq, Structural)]
pub enum InterpolationMode {
    DeserializeCreatureCommands,
    CalculateStatBlock,
}

/// The character after `$` that opens an expression.
pub open spec fn open_char(mode: InterpolationMode) -> char {
    match mode {
        InterpolationMode::DeserializeCreatureCommands => '<',
        InterpolationMode::CalculateStatBlock => '{',
    }
}

/// The character that closes an expression and starts text again.
pub open spec fn close_char(mode: InterpolationMode) -> char {
    match mode {
        InterpolationMode::DeserializeCreatureCommands => '>',
        InterpolationMode::CalculateStatBlock => '}',
    }
}

/// The structural keyword that a word is, in stat-block mode only.
pub open spec fn keyword_spec(word: Seq<char>, mode: InterpolationMode) -> Option<StructureKeyword> {
    if mode != InterpolationMode::CalculateStatBlock {
        None
    } else if word == seq!['p', 'a', 'r'] {
        Some(StructureKeyword::Par)
    } else if word == seq!['s', 'u', 'b'] {
        Some(StructureKeyword::Sub)
    } else if word == seq!['i', 't', 'a', 'l', 'i', 'c'] {
        Some(StructureKeyword::Italic)
    } else if word == seq!['b', 'o', 'l', 'd'] {
        Some(StructureKeyword::Bold)
    } else {
        None
    }
}

/// The tokens read, and the error that stopped reading, if any.
pub type LexOut = (Seq<TokenView>, Option<TokenError>);

pub open spec fn prepend_token(t: TokenView, rest: LexOut) -> LexOut {
    (seq![t] + rest.0, rest.1)
}

pub open spec fn lex_done() -> LexOut {
    (Seq::empty(), None)
}

pub open spec fn lex_fail(e: TokenError) -> LexOut {
    (Seq::empty(), Some(e))
}

/// The tokens from position `i` on, outside template text, up to the first error.
pub open spec fn lex_from(s: Seq<char>, i: int, mode: InterpolationMode) -> LexOut
    decreases s.len() - i, 1int,
{
    if !(0 <= i <= s.len()) {
        lex_done()
    } else {
        let j = skip_space(s, i);
        if !(i <= j < s.len()) {
            lex_done()
        } else {
            lex_at(s, j, mode)
        }
    }
}

/// The token that starts at `j` (no blank space there), then the rest.
pub open spec fn lex_at(s: Seq<char>, j: int, mode: InterpolationMode) -> LexOut
    decreases s.len() - j, 0int,
{
    if !(0 <= j < s.len()) {
        lex_done()
    } else {
        let c = s[j];
        if is_ident_start(c) {
            let e = ident_end(s, j + 1);
            if e <= j || e > s.len() {
                lex_done()
            } else {
                let word = s.subrange(j, e);
                let t = match keyword_spec(word, mode) {
                    Some(k) => TokenView::Keyword(k),
                    None => TokenView::Identifier(word),
                };
                prepend_token(t, lex_from(s, e, mode))
            }
        } else if is_digit(c) {
            let (lit, e) = number_or_dice_spec(s, j);
            if e <= j || e > s.len() {
                lex_done()
            } else {
                match lit {
                    Ok(NumberOrDice::Number(n)) => prepend_token(TokenView::Number(n as int), lex_from(s, e, mode)),
                    Ok(NumberOrDice::Dice(d)) => prepend_token(TokenView::Dice(d), lex_from(s, e, mode)),
                    Err(err) => lex_fail(err),
                }
            }
        } else if c == '"' {
            let (r, e) = string_run(s, j + 1);
            if e <= j || e > s.len() {
                lex_done()
            } else {
                match r {
                    Ok(t) => prepend_token(TokenView::String(t), lex_from(s, e, mode)),
                    Err(err) => lex_fail(err),
                }
            }
        } else if c == '+' {
            prepend_token(TokenView::Plus, lex_from(s, j + 1, mode))
        } else if c == '-' {
            prepend_token(TokenView::Minus, lex_from(s, j + 1, mode))
        } else if c == '*' {
            prepend_token(TokenView::Asterisk, lex_from(s, j + 1, mode))
        } else if c == '/' {
            if j + 1 < s.len() && s[j + 1] == '<' {
                prepend_token(TokenView::SlashLessThan, lex_from(s, j + 2, mode))
            } else if j + 1 < s.len() && s[j + 1] == '>' {
                prepend_token(TokenView::SlashGreaterThan, lex_from(s, j + 2, mode))
            } else {
                lex_fail(TokenError::SlashIsNotValid)
            }
        } else if c == '(' {
            prepend_token(TokenView::OpenParenthesis, lex_from(s, j + 1, mode))
        } else if c == ')' {
            prepend_token(TokenView::CloseParenthesis, lex_from(s, j + 1, mode))
        } else if c == '.' {
            prepend_token(TokenView::Dot, lex_from(s, j + 1, mode))
        } else if c == '$' {
            prepend_token(TokenView::Dollar, lex_from(s, j + 1, mode))
        } else if c == close_char(mode) {
            let (r, e) = text_run(s, j + 1, open_char(mode));
            if e <= j || e > s.len() {
                lex_done()
            } else {
                match r {
                    Ok(t) => prepend_token(TokenView::Text(t), lex_from(s, e, mode)),
                    Err(err) => lex_fail(err),
                }
            }
        } else {
            lex_fail(TokenError::UnexpectedCharacter)
        }
    }
}

/// The tokens of a whole document, a text token first, read up to the first error, and that
/// error.
pub open spec fn lex_spec(s: Seq<char>, mode: InterpolationMode) -> LexOut {
    let (r, e) = text_run(s, 0, open_char(mode));
    match r {
        Ok(t) => prepend_token(TokenView::Text(t), lex_from(s, e, mode)),
        Err(err) => lex_fail(err),
    }
}

pub open spec fn tokens_view(v: Seq<(Token, PositionRange)>) -> Seq<TokenView> {
    v.map_values(|p: (Token, PositionRange)| token_view(p.0))
}

pub open spec fn join_views(done: Seq<TokenView>, rest: LexOut) -> LexOut {
    (done + rest.0, rest.1)
}

/// The line and column after reading the first `n` characters, from line 1, column 1: a newline
/// starts the next line at column 0, a carriage return moves nothing, any other character moves
/// one column.
pub open spec fn pos_after(s: Seq<char>, n: int) -> (int, int)
    decreases n,
{
    if n <= 0 {
        (1, 1)
    } else {
        let p = pos_after(s, n - 1);
        let c = s[n - 1];
        if c == '\n' {
            (p.0 + 1, 0)
        } else if c == '\r' {
            p
        } else {
            (p.0, p.1 + 1)
        }
    }
}

pub open spec fn at_pos(p: Position, q: (int, int)) -> bool {
    p.line as int == q.0 && p.column as int == q.1
}

/// A range that runs from the position after some characters of `s` to the position after
/// as many or more.
pub open spec fn range_in(s: Seq<char>, r: PositionRange) -> bool {
    exists|a: int, b: int|
        0 <= a <= b <= s.len() && at_pos(r.start, pos_after(s, a)) && at_pos(r.end, pos_after(s, b))
}

proof fn lemma_range(s: Seq<char>, r: PositionRange, a: int, b: int)
    requires
        0 <= a <= b <= s.len(),
        at_pos(r.start, pos_after(s, a)),
        at_pos(r.end, pos_after(s, b)),
    ensures
        range_in(s, r),
{
}

/// Splits interpolated text into tokens with their positions.
pub struct InterpolationTokenizer {
    source_name: String,
    source: Vec<char>,
    mode: InterpolationMode,
    index: usize,
    position: PositionRange,
}

impl InterpolationTokenizer {
    pub closed spec fn chars(&self) -> Seq<char> {
        self.source@
    }

    pub closed spec fn spec_mode(&self) -> InterpolationMode {
        self.mode
    }

    pub closed spec fn at_start(&self) -> bool {
        self.index == 0 && self.position.end == (Position { line: 1, column: 1 })
    }

    pub closed spec fn wf(&self) -> bool {
        &&& self.index <= self.source@.len()
        &&& self.source@.len() < usize::MAX
        &&& self.position.end.line <= self.index + 1
        &&& self.position.end.column <= self.index + 1
        &&& at_pos(self.position.end, pos_after(self.source@, self.index as int))
    }

    /// A tokenizer at the start of `source`, at line 1, column 1.
    pub fn new(source_name: &str, source: &str, mode: InterpolationMode) -> (r: Self)
        requires
            source@.len() < usize::MAX,
        ensures
            r.wf(),
            r.at_start(),
            r.chars() == source@,
            r.spec_mode() == mode,
    {
        let start = Position { line: 1, column: 1 };
        InterpolationTokenizer {
            source_name: source_name.to_owned(),
            source: str_chars(source),
            mode,
            index: 0,
            position: PositionRange { start, end: start },
        }
    }

    /// Consumes one character, moving the end position: a newline starts a new line, a carriage
    /// return moves nothing, any other character moves one column.
    fn next_char(&mut self) -> (c: char)
        requires
            old(self).wf(),
            old(self).index < old(self).source@.len(),
        ensures
            final(self).wf(),
            c == old(self).source@[old(self).index as int],
            c == '\n' ==> final(self).position.end == (Position {
                line: (old(self).position.end.line + 1) as usize,
                column: 0,
            }),
            c == '\r' ==> final(self).position.end == old(self).position.end,
            c != '\n' && c != '\r' ==> final(self).position.end == (Position {
                line: old(self).position.end.line,
                column: (old(self).position.end.column + 1) as usize,
            }),
            final(self).index == old(self).index + 1,
            final(self).source == old(self).source,
            final(self).mode == old(self).mode,
            final(self).position.start == old(self).position.start,
            final(self).source_name == old(self).source_name,
    {
        let c = self.source[self.index];
        if c == '\n' {
            self.position.end.line = self.position.end.line + 1;
            self.position.end.column = 0;
        } else if c != '\r' {
            self.position.end.column = self.position.end.column + 1;
        }
        self.index = self.index + 1;
        c
    }

    fn peek_is(&self, c: char) -> (r: bool)
        ensures
            r == (self.index < self.source@.len() && self.source@[self.index as int] == c),
    {
        self.index < self.source.len() && self.source[self.index] == c
    }

    /// Moves to `target`, consuming each character on the way.
    fn advance_to(&mut self, target: usize)
        requires
            old(self).wf(),
            old(self).index <= target <= old(self).source@.len(),
        ensures
            final(self).wf(),
            final(self).index == target,
            final(self).source == old(self).source,
            final(self).mode == old(self).mode,
            final(self).position.start == old(self).position.start,
            final(self).source_name == old(self).source_name,
    {
        while self.index < target
            invariant
                self.wf(),
                self.index <= target <= self.source@.len(),
                self.source == old(self).source,
                self.mode == old(self).mode,
                self.position.start == old(self).position.start,
                self.source_name == old(self).source_name,
            decreases target - self.index,
        {
            self.next_char();
        }
    }

    /// Reads template text up to the opening delimiter or the end.
    fn template_text(&mut self, open: char) -> (r: Result<Token, TokenError>)
        requires
            old(self).wf(),
        ensures
            final(self).wf(),
            final(self).source == old(self).source,
            final(self).mode == old(self).mode,
            final(self).position.start == old(self).position.start,
            final(self).source_name == old(self).source_name,
            final(self).index as int == text_run(old(self).source@, old(self).index as int, open).1,
            match (r, text_run(old(self).source@, old(self).index as int, open).0) {
                (Ok(t), Ok(v)) => token_view(t) == TokenView::Text(v),
                (Err(e), Err(f)) => e == f,
                _ => false,
            },
    {
        let ghost s = self.source@;
        let ghost i0 = self.index as int;
        let mut out: Vec<char> = Vec::new();
        loop
            invariant
                self.wf(),
                s == self.source@,
                self.source == old(self).source,
                self.mode == old(self).mode,
                self.position.start == old(self).position.start,
                self.source_name == old(self).source_name,
                i0 <= self.index,
                i0 == old(self).index as int,
                s == old(self).source@,
                text_run(s, i0, open) == ({
                    let r = text_run(s, self.index as int, open);
                    match r.0 {
                        Ok(t) => (Ok(out@ + t), r.1),
                        Err(e) => (Err(e), r.1),
                    }
                }),
            decreases s.len() - self.index,
        {
            if self.index >= self.source.len() {
                assert(text_run(s, self.index as int, open) == (
                    Ok::<Seq<char>, TokenError>(Seq::<char>::empty()),
                    self.index as int,
                ));
                assert(out@ + Seq::<char>::empty() =~= out@);
                return Ok(Token::Text(chars_to_string(&out)));
            }
            let ghost i = self.index as int;
            let c = self.next_char();
            if c == '\\' {
                if self.peek_is('$') || self.peek_is('\\') {
                    let d = self.next_char();
                    let ghost before = out@;
                    out.push(d);
                    proof {
                        match text_run(s, i + 2, open).0 {
                            Ok(t) => {
                                assert(before + (seq![d] + t) =~= out@ + t);
                            },
                            Err(e) => {
                            },
                        }
                    }
                } else {
                    assert(text_run(s, i, open) == (Err::<Seq<char>, TokenError>(TokenError::InvalidEscape), i + 1));
                    return Err(TokenError::InvalidEscape);
                }
            } else if c == '$' {
                if self.peek_is(open) {
                    self.next_char();
                    assert(text_run(s, i, open) == (Ok::<Seq<char>, TokenError>(Seq::<char>::empty()), i + 2));
                    assert(out@ + Seq::<char>::empty() =~= out@);
                    return Ok(Token::Text(chars_to_string(&out)));
                }
                let ghost before = out@;
                out.push('$');
                proof {
                    match text_run(s, i + 1, open).0 {
                        Ok(t) => {
                            assert(before + (seq!['$'] + t) =~= out@ + t);
                        },
                        Err(e) => {
                        },
                    }
                }
            } else {
                let ghost before = out@;
                out.push(c);
                proof {
                    match text_run(s, i + 1, open).0 {
                        Ok(t) => {
                            assert(before + (seq![c] + t) =~= out@ + t);
                        },
                        Err(e) => {
                        },
                    }
                }
            }
        }
    }

    /// Reads a string literal body, after its opening quote.
    fn string(&mut self) -> (r: Result<Token, TokenError>)
        requires
            old(self).wf(),
        ensures
            final(self).wf(),
            final(self).source == old(self).source,
            final(self).mode == old(self).mode,
            final(self).position.start == old(self).position.start,
            final(self).source_name == old(self).source_name,
            final(self).index as int == string_run(old(self).source@, old(self).index as int).1,
            match (r, string_run(old(self).source@, old(self).index as int).0) {
                (Ok(t), Ok(v)) => token_view(t) == TokenView::String(v),
                (Err(e), Err(f)) => e == f,
                _ => false,
            },
    {
        let ghost s = self.source@;
        let ghost i0 = self.index as int;
        let mut out: Vec<char> = Vec::new();
        loop
            invariant
                self.wf(),
                s == self.source@,
                self.source == old(self).source,
                self.mode == old(self).mode,
                self.position.start == old(self).position.start,
                self.source_name == old(self).source_name,
                i0 <= self.index,
                i0 == old(self).index as int,
                s == old(self).source@,
                string_run(s, i0) == ({
                    let r = string_run(s, self.index as int);
                    match r.0 {
                        Ok(t) => (Ok(out@ + t), r.1),
                        Err(e) => (Err(e), r.1),
                    }
                }),
            decreases s.len() - self.index,
        {
            if self.index >= self.source.len() {
                assert(string_run(s, self.index as int) == (
                    Err::<Seq<char>, TokenError>(TokenError::UnterminatedString),
                    self.index as int,
                ));
                return Err(TokenError::UnterminatedString);
            }
            let ghost i = self.index as int;
            let c = self.next_char();
            if c == '\\' {
                if self.peek_is('"') || self.peek_is('\\') {
                    let d = self.next_char();
                    let ghost before = out@;
                    out.push(d);
                    proof {
                        match string_run(s, i + 2).0 {
                            Ok(t) => {
                                assert(before + (seq![d] + t) =~= out@ + t);
                            },
                            Err(e) => {
                            },
                        }
                    }
                } else {
                    assert(string_run(s, i) == (Err::<Seq<char>, TokenError>(TokenError::InvalidEscape), i + 1));
                    return Err(TokenError::InvalidEscape);
                }
            } else if c == '"' {
                assert(string_run(s, i) == (Ok::<Seq<char>, TokenError>(Seq::<char>::empty()), i + 1));
                assert(out@ + Seq::<char>::empty() =~= out@);
                return Ok(Token::String(chars_to_string(&out)));
            } else {
                let ghost before = out@;
                out.push(c);
                proof {
                    match string_run(s, i + 1).0 {
                        Ok(t) => {
                            assert(before + (seq![c] + t) =~= out@ + t);
                        },
                        Err(e) => {
                        },
                    }
                }
            }
        }
    }
}

/// The end of the identifier characters starting at `i`.
fn scan_ident(s: &Vec<char>, i: usize) -> (r: usize)
    requires
        i <= s@.len(),
    ensures
        r == ident_end(s@, i as int),
{
    let mut j = i;
    while j < s.len() && ((s[j] >= 'A' && s[j] <= 'Z') || (s[j] >= 'a' && s[j] <= 'z') || s[j] == '_' || (
    s[j] >= '0' && s[j] <= '9'))
        invariant
            i <= j <= s@.len(),
            ident_end(s@, i as int) == ident_end(s@, j as int),
        decreases s@.len() - j,
    {
        j = j + 1;
    }
    j
}

/// The structural keyword that a word is, in stat-block mode only.
pub fn keyword_of(word: &Vec<char>, mode: InterpolationMode) -> (r: Option<StructureKeyword>)
    ensures
        r == keyword_spec(word@, mode),
{
    if mode != InterpolationMode::CalculateStatBlock {
        return None;
    }
    let w = word;
    if w.len() == 3 && w[0] == 'p' && w[1] == 'a' && w[2] == 'r' {
        assert(w@ =~= seq!['p', 'a', 'r']);
        Some(StructureKeyword::Par)
    } else if w.len() == 3 && w[0] == 's' && w[1] == 'u' && w[2] == 'b' {
        assert(w@ =~= seq!['s', 'u', 'b']);
        assert(w@ != seq!['p', 'a', 'r']);
        Some(StructureKeyword::Sub)
    } else if w.len() == 6 && w[0] == 'i' && w[1] == 't' && w[2] == 'a' && w[3] == 'l' && w[4] == 'i'
        && w[5] == 'c' {
        assert(w@ =~= seq!['i', 't', 'a', 'l', 'i', 'c']);
        Some(StructureKeyword::Italic)
    } else if w.len() == 4 && w[0] == 'b' && w[1] == 'o' && w[2] == 'l' && w[3] == 'd' {
        assert(w@ =~= seq!['b', 'o', 'l', 'd']);
        Some(StructureKeyword::Bold)
    } else {
        assert(w@ != seq!['p', 'a', 'r'] ==> true);
        proof {
            if w@ == seq!['p', 'a', 'r'] {
                assert(w@[0] == 'p' && w@[1] == 'a' && w@[2] == 'r');
            }
            if w@ == seq!['s', 'u', 'b'] {
                assert(w@[0] == 's' && w@[1] == 'u' && w@[2] == 'b');
            }
            if w@ == seq!['i', 't', 'a', 'l', 'i', 'c'] {
                assert(w@[0] == 'i' && w@[1] == 't' && w@[2] == 'a' && w@[3] == 'l' && w@[4] == 'i' && w@[5]
                    == 'c');
            }
            if w@ == seq!['b', 'o', 'l', 'd'] {
                assert(w@[0] == 'b' && w@[1] == 'o' && w@[2] == 'l' && w@[3] == 'd');
            }
        }
        None
    }
}

impl InterpolationTokenizer {
    fn start_token(&mut self)
        requires
            old(self).wf(),
        ensures
            final(self).wf(),
            final(self).index == old(self).index,
            final(self).source == old(self).source,
            final(self).mode == old(self).mode,
            final(self).source_name == old(self).source_name,
            final(self).position.start == old(self).position.end,
            final(self).position.end == old(self).position.end,
    {
        self.position.start = self.position.end;
    }

    fn error_details(&self, error: TokenError) -> (r: TokenErrorDetails)
        ensures
            r.error == error,
            r.position == self.position,
    {
        TokenErrorDetails { source_name: self.source_name.clone(), position: self.position, error }
    }

    /// Splits the source into tokens, each with its position, up to the first token error, which
    /// comes back with its position. The first token is the text before the first expression and
    /// starts at line 1, column 1.
    pub fn tokenize(&mut self) -> (r: (Vec<(Token, PositionRange)>, Option<TokenErrorDetails>))
        requires
            old(self).wf(),
            old(self).at_start(),
        ensures
            tokens_view(r.0@) == lex_spec(old(self).chars(), old(self).spec_mode()).0,
            forall|k: int| 0 <= k < r.0@.len() ==> range_in(old(self).chars(), #[trigger] r.0@[k].1),
            r.1 matches Some(d) ==> range_in(old(self).chars(), d.position),
            match r.1 {
                Some(e) => lex_spec(old(self).chars(), old(self).spec_mode()).1 == Some(e.error),
                None => lex_spec(old(self).chars(), old(self).spec_mode()).1 is None,
            },
            r.0@.len() > 0 ==> r.0@[0].1.start == (Position { line: 1, column: 1 }),
    {
        let ghost s = self.source@;
        let mode = self.mode;
        let open = if mode == InterpolationMode::DeserializeCreatureCommands {
            '<'
        } else {
            '{'
        };
        let close = if mode == InterpolationMode::DeserializeCreatureCommands {
            '>'
        } else {
            '}'
        };
        let mut out: Vec<(Token, PositionRange)> = Vec::new();
        self.start_token();
        proof {
            lemma_text_run_end(s, 0, open);
        }
        match self.template_text(open) {
            Ok(t) => {
                proof {
                    lemma_range(s, self.position, 0, self.index as int);
                }
                out.push((t, self.position));
            },
            Err(e) => {
                assert(tokens_view(out@) =~= Seq::<TokenView>::empty());
                proof {
                    lemma_range(s, self.position, 0, self.index as int);
                }
                return (out, Some(self.error_details(e)));
            },
        }
        let ghost first_start = out@[0].1.start;
        proof {
            let first = out@[0].0;
            assert(tokens_view(out@) =~= seq![token_view(first)]);
            let r = lex_from(s, self.index as int, mode);
            assert(seq![token_view(first)] + r.0 =~= tokens_view(out@) + r.0);
        }
        loop
            invariant
                self.wf(),
                s == self.source@,
                s == old(self).source@,
                mode == self.mode,
                mode == old(self).mode,
                open == open_char(mode),
                close == close_char(mode),
                lex_spec(s, mode) == join_views(tokens_view(out@), lex_from(s, self.index as int, mode)),
                out@.len() > 0,
                out@[0].1.start == (Position { line: 1, column: 1 }),
                forall|k: int| 0 <= k < out@.len() ==> range_in(s, #[trigger] out@[k].1),
            decreases s.len() - self.index,
        {
            let ghost i = self.index as int;
            let j = crate::tokenizer::scan_space(&self.source, self.index);
            proof {
                lemma_skip_space(s, i);
            }
            self.advance_to(j);
            if self.index >= self.source.len() {
                assert(tokens_view(out@) + Seq::<TokenView>::empty() =~= tokens_view(out@));
                return (out, None);
            }
            assert(lex_from(s, i, mode) == lex_at(s, j as int, mode));
            self.start_token();
            let c = self.next_char();
            let t: Token;
            let mut failed: Option<TokenError> = None;
            if (c >= 'A' && c <= 'Z') || (c >= 'a' && c <= 'z') || c == '_' {
                let e = scan_ident(&self.source, self.index);
                proof {
                    lemma_ident_end(s, j as int + 1);
                }
                let word = crate::text::slice_chars(&self.source, j, e);
                self.advance_to(e);
                t = match keyword_of(&word, mode) {
                    Some(k) => Token::Keyword(k),
                    None => Token::Identifier(chars_to_string(&word)),
                };
            } else if c >= '0' && c <= '9' {
                let (lit, e) = number_or_dice(&self.source, j);
                self.advance_to(e);
                match lit {
                    Ok(NumberOrDice::Number(n)) => {
                        t = Token::Number(n);
                    },
                    Ok(NumberOrDice::Dice(d)) => {
                        t = Token::Dice(d);
                    },
                    Err(err) => {
                        proof {
                            lemma_range(s, self.position, j as int, self.index as int);
                        }
                        assert(tokens_view(out@) + Seq::<TokenView>::empty() =~= tokens_view(out@));
                        return (out, Some(self.error_details(err)));
                    },
                }
            } else if c == '"' {
                proof {
                    lemma_string_run_end(s, j as int + 1);
                }
                match self.string() {
                    Ok(x) => {
                        t = x;
                    },
                    Err(err) => {
                        proof {
                            lemma_range(s, self.position, j as int, self.index as int);
                        }
                        assert(tokens_view(out@) + Seq::<TokenView>::empty() =~= tokens_view(out@));
                        return (out, Some(self.error_details(err)));
                    },
                }
            } else if c == '+' {
                t = Token::Plus;
            } else if c == '-' {
                t = Token::Minus;
            } else if c == '*' {
                t = Token::Asterisk;
            } else if c == '/' {
                if self.peek_is('<') {
                    self.next_char();
                    t = Token::SlashLessThan;
                } else if self.peek_is('>') {
                    self.next_char();
                    t = Token::SlashGreaterThan;
                } else {
                    proof {
                        lemma_range(s, self.position, j as int, self.index as int);
                    }
                    assert(tokens_view(out@) + Seq::<TokenView>::empty() =~= tokens_view(out@));
                    return (out, Some(self.error_details(TokenError::SlashIsNotValid)));
                }
            } else if c == '(' {
                t = Token::OpenParenthesis;
            } else if c == ')' {
                t = Token::CloseParenthesis;
            } else if c == '.' {
                t = Token::Dot;
            } else if c == '$' {
                t = Token::Dollar;
            } else if c == close {
                proof {
                    lemma_text_run_end(s, j as int + 1, open);
                }
                match self.template_text(open) {
                    Ok(x) => {
                        t = x;
                    },
                    Err(err) => {
                        proof {
                            lemma_range(s, self.position, j as int, self.index as int);
                        }
                        assert(tokens_view(out@) + Seq::<TokenView>::empty() =~= tokens_view(out@));
                        return (out, Some(self.error_details(err)));
                    },
                }
            } else {
                proof {
                    lemma_range(s, self.position, j as int, self.index as int);
                }
                assert(tokens_view(out@) + Seq::<TokenView>::empty() =~= tokens_view(out@));
                return (out, Some(self.error_details(TokenError::UnexpectedCharacter)));
            }
            let ghost before = tokens_view(out@);
            assert(lex_at(s, j as int, mode) == prepend_token(token_view(t), lex_from(s, self.index as int, mode)));
            proof {
                lemma_range(s, self.position, j as int, self.index as int);
            }
            let ghost prev = out@;
            out.push((t, self.position));
            proof {
                assert forall|k: int| 0 <= k < out@.len() implies range_in(s, #[trigger] out@[k].1) by {
                    if k < prev.len() {
                        assert(out@[k] == prev[k]);
                    }
                }
                assert(tokens_view(out@) =~= before.push(token_view(t)));
                let r = lex_from(s, self.index as int, mode);
                assert(before + (seq![token_view(t)] + r.0) =~= tokens_view(out@) + r.0);
            }
        }
    }
}

} // verus!
