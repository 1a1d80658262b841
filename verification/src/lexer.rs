//! The lexer: source text to tokens, with Python-style indentation.
//!
//! Lexing works over the characters of the input; every position in a token
//! or an error is a character offset. Newlines inside brackets are
//! swallowed; newlines elsewhere emit a token and recompute the
//! indentation, opening and closing indentation blocks; a line holding only
//! a comment emits just the comment token and leaves the indentation
//! untouched; a final newline and the closing dedents are always emitted at
//! the end of input.

use vstd::prelude::*;

use crate::ty::new_string;

verus! {

/// One token of the language.
#[derive(Debug, PartialEq)]
pub enum Token {
    /// A line break outside brackets, and the synthetic final line break.
    Newline,
    /// A new indentation block opens.
    Indent,
    /// An indentation block closes.
    Dedent,
    /// A comment; the text excludes the leading `#`.
    Comment(String),
    /// An identifier.
    Identifier(String),
    /// An integer literal, by value.
    Int(i64),
    /// A floating-point literal, kept as written.
    Float(String),
    /// A string literal, with escapes already applied.
    Str(String),
    /// A formatted string literal: the raw text and where in the token the
    /// content starts.
    FString(TokenFString),
    /// `and`.
    And,
    /// `break`.
    Break,
    /// `continue`.
    Continue,
    /// `def`.
    Def,
    /// `elif`.
    Elif,
    /// `else`.
    Else,
    /// `for`.
    For,
    /// `if`.
    If,
    /// `in`.
    In,
    /// `lambda`.
    Lambda,
    /// `load`.
    Load,
    /// `not`.
    Not,
    /// `or`.
    Or,
    /// `pass`.
    Pass,
    /// `return`.
    Return,
    /// `,`.
    Comma,
    /// `;`.
    Semicolon,
    /// `:`.
    Colon,
    /// `+=`.
    PlusEqual,
    /// `-=`.
    MinusEqual,
    /// `*=`.
    StarEqual,
    /// `/=`.
    SlashEqual,
    /// `//=`.
    SlashSlashEqual,
    /// `%=`.
    PercentEqual,
    /// `==`.
    EqualEqual,
    /// `!=`.
    BangEqual,
    /// `<=`.
    LessEqual,
    /// `>=`.
    GreaterEqual,
    /// `**`.
    StarStar,
    /// `->`.
    MinusGreater,
    /// `=`.
    Equal,
    /// `<`.
    LessThan,
    /// `>`.
    GreaterThan,
    /// `-`.
    Minus,
    /// `+`.
    Plus,
    /// `*`.
    Star,
    /// `%`.
    Percent,
    /// `/`.
    Slash,
    /// `//`.
    SlashSlash,
    /// `.`.
    Dot,
    /// `&`.
    Ampersand,
    /// `|`.
    Pipe,
    /// `^`.
    Caret,
    /// `<<`.
    LessLess,
    /// `>>`.
    GreaterGreater,
    /// `~`.
    Tilde,
    /// `&=`.
    AmpersandEqual,
    /// `|=`.
    PipeEqual,
    /// `^=`.
    CaretEqual,
    /// `<<=`.
    LessLessEqual,
    /// `>>=`.
    GreaterGreaterEqual,
    /// `[`.
    OpeningSquare,
    /// `{`.
    OpeningCurly,
    /// `(`.
    OpeningRound,
    /// `]`.
    ClosingSquare,
    /// `}`.
    ClosingCurly,
    /// `)`.
    ClosingRound,
}

/// The raw text of a formatted string literal.
#[derive(Debug, PartialEq)]
pub struct TokenFString {
    /// The content, with escapes already applied.
    pub content: String,
    /// How many characters into the token the content starts (past the
    /// prefix and the opening quote).
    pub content_start_offset: usize,
}

/// A lexing failure: the rendered message and the character range.
#[derive(Debug)]
pub struct LexError {
    /// The full message, `Parse error: ` included.
    pub message: String,
    /// Offset of the first character of the range.
    pub begin: usize,
    /// Offset one past the last character of the range.
    pub end: usize,
}

/// The characters of a string, in order.
pub fn to_chars(s: &str) -> (r: Vec<char>)
    ensures
        r@ == s@,
{
    let n = s.unicode_len();
    let mut out: Vec<char> = Vec::new();
    for i in 0..n
        invariant
            n == s@.len(),
            out@.len() == i,
            forall|j: int| 0 <= j < i ==> out@[j] == s@[j],
    {
        let c = s.get_char(i);
        out.push(c);
    }
    proof {
        assert(out@ =~= s@);
    }
    out
}

/// A string holding the given characters.
///
/// Relies on `String`'s `FromIterator` implementation: collecting characters
/// yields the string of exactly those characters.
#[verifier::external_body]
pub fn chars_to_string(v: &Vec<char>) -> (s: String)
    ensures
        s@ == v@,
{
    v.iter().collect()
}

/// The character with the given code point, where one exists.
///
/// Relies on `char::from_u32`: it returns `Some` exactly for values that
/// are not surrogates and do not exceed the highest code point, and the
/// returned character has the given code.
#[verifier::external_body]
pub fn char_from_u32(v: u32) -> (r: Option<char>)
    ensures
        r is Some <==> (v < 0xD800 || (0xE000 <= v && v < 0x110000)),
        r is Some ==> r->0 as u32 == v,
{
    char::from_u32(v)
}

/// A single-character string, for diagnostics.
pub fn char_to_string(c: char) -> (s: String) {
    let mut v: Vec<char> = Vec::new();
    v.push(c);
    chars_to_string(&v)
}

/// Whether the character is an ASCII decimal digit, at the ghost level.
pub open spec fn is_digit_v(c: char) -> bool {
    (c as u32) >= 0x30 && (c as u32) <= 0x39
}

/// Whether the character is an ASCII decimal digit.
fn is_digit(c: char) -> (r: bool)
    ensures
        r == is_digit_v(c),
{
    (c as u32) >= 0x30 && (c as u32) <= 0x39
}

/// The value of a digit in the given base, if it is one.
fn digit_value(c: char, base: u32) -> (r: Option<u32>)
    requires
        2 <= base <= 16,
    ensures
        r is Some ==> r->0 < base,
{
    let v = c as u32;
    let d: u32 = if v >= 0x30 && v <= 0x39 {
        v - 0x30
    } else if v >= 0x61 && v <= 0x66 {
        v - 0x61 + 10
    } else if v >= 0x41 && v <= 0x46 {
        v - 0x41 + 10
    } else {
        36
    };
    if d < base {
        Option::Some(d)
    } else {
        Option::None
    }
}

/// Whether the character can start an identifier, at the ghost level.
pub open spec fn is_ident_start_v(c: char) -> bool {
    ((c as u32) >= 0x61 && (c as u32) <= 0x7A) || ((c as u32) >= 0x41 && (c as u32) <= 0x5A) || (
    c as u32) == 0x5F
}

/// Whether the character can start an identifier.
fn is_ident_start(c: char) -> (r: bool)
    ensures
        r == is_ident_start_v(c),
{
    let v = c as u32;
    (v >= 0x61 && v <= 0x7A) || (v >= 0x41 && v <= 0x5A) || v == 0x5F
}

/// Whether the character can continue an identifier.
fn is_ident_cont(c: char) -> (r: bool)
    ensures
        r == (is_ident_start_v(c) || is_digit_v(c)),
{
    is_ident_start(c) || is_digit(c)
}

/// A lexing error with the standard prefix.
fn lex_err(msg: &str, begin: usize, end: usize) -> (r: LexError) {
    let mut message = new_string("Parse error: ");
    message.append(msg);
    LexError { message, begin, end }
}

/// A lexing error quoting a piece of text.
fn lex_err_quoted(msg: &str, quoted: &String, begin: usize, end: usize) -> (r: LexError) {
    let mut message = new_string("Parse error: ");
    message.append(msg);
    message.append("`");
    message.append(quoted.as_str());
    message.append("`");
    LexError { message, begin, end }
}


/// Shared lexing state: the characters, the cursor, the output.
struct Lexer {
    /// The input.
    cs: Vec<char>,
    /// The cursor: the next character to read.
    pos: usize,
    /// The open indentation levels, innermost last.
    indents: Vec<usize>,
    /// How many brackets are open; newlines inside brackets are swallowed.
    parens: i64,
    /// The tokens produced so far, with their character ranges.
    out: Vec<(usize, Token, usize)>,
}

/// Whether the lexer state is sane: the cursor within the input, whose
/// length a machine word can hold.
spec fn lx_wf(lx: &Lexer) -> bool {
    lx.pos <= lx.cs@.len() && lx.cs@.len() <= usize::MAX
}

impl Lexer {
    /// The character at the cursor plus `k`, if any.
    fn peek(&self, k: usize) -> (r: Option<char>)
        ensures
            r is Some <==> self.pos + k < self.cs@.len(),
            r is Some ==> r->0 == self.cs@[self.pos + k],
    {
        if self.pos < self.cs.len() && k < self.cs.len() - self.pos {
            Option::Some(self.cs[self.pos + k])
        } else {
            Option::None
        }
    }

    /// Consume spaces and escaped line breaks before the next token.
    fn skip_spaces(&mut self)
        requires
            lx_wf(&*old(self)),
        ensures
            lx_wf(&*final(self)),
            final(self).cs == old(self).cs,
            final(self).out == old(self).out,
            final(self).indents == old(self).indents,
            final(self).parens == old(self).parens,
            final(self).pos >= old(self).pos,
    {
        loop
            invariant
                lx_wf(&*self),
                self.cs == old(self).cs,
                self.out == old(self).out,
                self.indents == old(self).indents,
                self.parens == old(self).parens,
                self.pos >= old(self).pos,
            decreases self.cs@.len() - self.pos,
        {
            match self.peek(0) {
                Option::Some(c) => {
                    if c == ' ' {
                        self.pos = self.pos + 1;
                    } else if c == '\\' {
                        match self.peek(1) {
                            Option::Some(c1) => {
                                if c1 == '\n' {
                                    self.pos = self.pos + 2;
                                } else if c1 == '\r' {
                                    match self.peek(2) {
                                        Option::Some(c2) => {
                                            if c2 == '\n' {
                                                self.pos = self.pos + 3;
                                            } else {
                                                return ;
                                            }
                                        },
                                        Option::None => {
                                            return ;
                                        },
                                    }
                                } else {
                                    return ;
                                }
                            },
                            Option::None => {
                                return ;
                            },
                        }
                    } else {
                        return ;
                    }
                },
                Option::None => {
                    return ;
                },
            }
        }
    }

    /// After a line break (or at the start of input): consume the
    /// indentation, emit the comment of a comment-only line, and open or
    /// close indentation blocks as the new level asks.
    fn calculate_indent(&mut self) -> (r: Result<(), LexError>)
        requires
            lx_wf(&*old(self)),
        ensures
            lx_wf(&*final(self)),
            final(self).cs == old(self).cs,
            final(self).pos >= old(self).pos,
    {
        let mut spaces: usize = 0;
        let mut indent_start = self.pos;
        let mut saw_tab = false;
        let tab_at = self.pos;
        loop
            invariant
                lx_wf(&*self),
                self.cs == old(self).cs,
                self.pos >= old(self).pos,
                indent_start <= self.pos,
                spaces <= self.pos,
            decreases self.cs@.len() - self.pos,
        {
            match self.peek(0) {
                Option::None => {
                    // End of input: nothing to open or close here; the main
                    // loop emits the final line break and dedents.
                    return Result::Ok(());
                },
                Option::Some(c) => {
                    if c == ' ' {
                        if spaces < usize::MAX {
                            spaces = spaces + 1;
                        }
                        self.pos = self.pos + 1;
                    } else if c == '\t' {
                        saw_tab = true;
                        self.pos = self.pos + 1;
                    } else if c == '\n' {
                        // An entirely blank line is just a line break; the
                        // main loop emits it.
                        return Result::Ok(());
                    } else if c == '\r' {
                        self.pos = self.pos + 1;
                    } else if c == '#' {
                        // A line holding only a comment: emit the comment
                        // and keep scanning; it does not change the
                        // indentation.
                        spaces = 0;
                        let start = self.pos;
                        let mut content: Vec<char> = Vec::new();
                        self.pos = self.pos + 1;
                        loop
                            invariant
                                lx_wf(&*self),
                                self.cs == old(self).cs,
                                start < self.pos,
                            decreases self.cs@.len() - self.pos,
                        {
                            match self.peek(0) {
                                Option::None => {
                                    break ;
                                },
                                Option::Some(cc) => {
                                    if cc == '\n' {
                                        break ;
                                    }
                                    content.push(cc);
                                    self.pos = self.pos + 1;
                                },
                            }
                        }
                        // A trailing carriage return is not part of the
                        // comment.
                        let mut end = self.pos;
                        if content.len() > 0 && content[content.len() - 1] == '\r' {
                            content.pop();
                            end = end - 1;
                        }
                        let text = chars_to_string(&content);
                        self.out.push((start, Token::Comment(text), end));
                        match self.peek(0) {
                            Option::None => {
                                return Result::Ok(());
                            },
                            Option::Some(_) => {
                                // Consume the line break and scan the next
                                // line's indentation.
                                self.pos = self.pos + 1;
                                indent_start = self.pos;
                            },
                        }
                    } else {
                        break ;
                    }
                },
            }
        }
        if saw_tab {
            return Result::Err(lex_err("tabs are not allowed", tab_at, tab_at));
        }
        let now = if self.indents.len() > 0 {
            self.indents[self.indents.len() - 1]
        } else {
            0
        };
        if spaces > now {
            self.indents.push(spaces);
            self.out.push((indent_start, Token::Indent, self.pos));
        } else if spaces < now {
            loop
                invariant
                    lx_wf(&*self),
                    self.cs == old(self).cs,
                    self.pos >= old(self).pos,
                decreases self.indents@.len(),
            {
                let cur = if self.indents.len() > 0 {
                    self.indents[self.indents.len() - 1]
                } else {
                    0
                };
                if cur == spaces {
                    break ;
                }
                if cur < spaces {
                    return Result::Err(lex_err("incorrect indentation", indent_start, self.pos));
                }
                if self.indents.len() == 0 {
                    break ;
                }
                self.indents.pop();
                self.out.push((indent_start, Token::Dedent, indent_start));
            }
        }
        Result::Ok(())
    }
}


impl Lexer {
    /// Lex a string literal. The cursor stands on the opening quote;
    /// `token_start` is where the token began (before any `r`/`f` prefix).
    /// Returns the content and the range end.
    fn string_lit(&mut self, token_start: usize, raw: bool) -> (r: Result<(Vec<char>, usize), LexError>)
        requires
            lx_wf(&*old(self)),
            old(self).pos < old(self).cs@.len(),
        ensures
            lx_wf(&*final(self)),
            final(self).cs == old(self).cs,
            final(self).out == old(self).out,
            final(self).indents == old(self).indents,
            final(self).parens == old(self).parens,
            final(self).pos > old(self).pos || r is Err,
    {
        let q = self.cs[self.pos];
        let triple = match self.peek(1) {
            Option::Some(c1) => {
                c1 == q && match self.peek(2) {
                    Option::Some(c2) => c2 == q,
                    Option::None => false,
                }
            },
            Option::None => false,
        };
        if triple {
            self.pos = self.pos + 3;
        } else {
            self.pos = self.pos + 1;
        }
        let mut res: Vec<char> = Vec::new();
        let mut quote_run: usize = 0;
        loop
            invariant
                lx_wf(&*self),
                self.cs == old(self).cs,
                self.out == old(self).out,
                self.indents == old(self).indents,
                self.parens == old(self).parens,
                self.pos > old(self).pos,
                quote_run <= 2,
            decreases self.cs@.len() - self.pos, 1int,
        {
            match self.peek(0) {
                Option::None => {
                    return Result::Err(
                        lex_err("unfinished string literal", token_start, self.pos),
                    );
                },
                Option::Some(c) => {
                    if c == q {
                        if !triple {
                            self.pos = self.pos + 1;
                            return Result::Ok((res, self.pos));
                        }
                        if quote_run == 2 {
                            self.pos = self.pos + 1;
                            // The two quotes already pushed belong to the
                            // closing run, not the content.
                            res.pop();
                            res.pop();
                            return Result::Ok((res, self.pos));
                        }
                        quote_run = quote_run + 1;
                        res.push(c);
                        self.pos = self.pos + 1;
                    } else {
                        quote_run = 0;
                        if c == '\r' {
                            // Carriage returns disappear in every mode.
                            self.pos = self.pos + 1;
                        } else if c == '\n' && !triple {
                            return Result::Err(
                                lex_err("unfinished string literal", token_start, self.pos),
                            );
                        } else if c == '\\' {
                            if raw {
                                self.pos = self.pos + 1;
                                match self.peek(0) {
                                    Option::None => {
                                        return Result::Err(
                                            lex_err(
                                                "unfinished string literal",
                                                token_start,
                                                self.pos,
                                            ),
                                        );
                                    },
                                    Option::Some(c1) => {
                                        if c1 != '\'' && c1 != '"' {
                                            res.push('\\');
                                        }
                                        res.push(c1);
                                        self.pos = self.pos + 1;
                                    },
                                }
                            } else {
                                match self.escape(&mut res) {
                                    Result::Ok(()) => {},
                                    Result::Err(e) => {
                                        return Result::Err(e);
                                    },
                                }
                            }
                        } else {
                            res.push(c);
                            self.pos = self.pos + 1;
                        }
                    }
                },
            }
        }
    }

    /// Apply one escape sequence. The cursor stands on the backslash.
    fn escape(&mut self, res: &mut Vec<char>) -> (r: Result<(), LexError>)
        requires
            lx_wf(&*old(self)),
            old(self).pos < old(self).cs@.len(),
        ensures
            lx_wf(&*final(self)),
            final(self).cs == old(self).cs,
            final(self).out == old(self).out,
            final(self).indents == old(self).indents,
            final(self).parens == old(self).parens,
            final(self).pos > old(self).pos || r is Err,
    {
        let bs = self.pos;
        self.pos = self.pos + 1;
        match self.peek(0) {
            Option::None => {
                return Result::Err(
                    lex_err("missing string escape sequence, only saw \\", bs, self.pos),
                );
            },
            Option::Some(c) => {
                if c == 'n' {
                    res.push('\n');
                    self.pos = self.pos + 1;
                } else if c == 'r' {
                    res.push('\r');
                    self.pos = self.pos + 1;
                } else if c == 't' {
                    res.push('\t');
                    self.pos = self.pos + 1;
                } else if c == 'a' {
                    res.push('\u{7}');
                    self.pos = self.pos + 1;
                } else if c == 'b' {
                    res.push('\u{8}');
                    self.pos = self.pos + 1;
                } else if c == 'f' {
                    res.push('\u{c}');
                    self.pos = self.pos + 1;
                } else if c == 'v' {
                    res.push('\u{b}');
                    self.pos = self.pos + 1;
                } else if c == '\n' {
                    // An escaped line break disappears.
                    self.pos = self.pos + 1;
                } else if c == '\r' {
                    self.pos = self.pos + 1;
                    match self.peek(0) {
                        Option::Some(c1) => {
                            if c1 == '\n' {
                                self.pos = self.pos + 1;
                            } else {
                                return Result::Err(
                                    lex_err("invalid string escape sequence `\\r`", bs, self.pos),
                                );
                            }
                        },
                        Option::None => {
                            return Result::Err(
                                lex_err("invalid string escape sequence `\\r`", bs, self.pos),
                            );
                        },
                    }
                } else if c == 'x' {
                    self.pos = self.pos + 1;
                    return self.escape_code(res, bs, 2, 2, 16);
                } else if c == 'u' {
                    self.pos = self.pos + 1;
                    return self.escape_code(res, bs, 4, 4, 16);
                } else if c == 'U' {
                    self.pos = self.pos + 1;
                    return self.escape_code(res, bs, 8, 8, 16);
                } else if (c as u32) >= 0x30 && (c as u32) <= 0x37 {
                    return self.escape_code(res, bs, 1, 3, 8);
                } else if c == '"' || c == '\'' || c == '\\' {
                    res.push(c);
                    self.pos = self.pos + 1;
                } else {
                    res.push('\\');
                    res.push(c);
                    self.pos = self.pos + 1;
                }
            },
        }
        Result::Ok(())
    }

    /// Read `min` to `max` digits of the given base and push the character
    /// with that code, erring (and quoting what was consumed) where the
    /// digits are missing or the code is no character.
    fn escape_code(
        &mut self,
        res: &mut Vec<char>,
        bs: usize,
        min: usize,
        max: usize,
        base: u32,
    ) -> (r: Result<(), LexError>)
        requires
            lx_wf(&*old(self)),
            2 <= base <= 16,
            1 <= min <= max <= 8,
            old(self).pos > bs,
        ensures
            lx_wf(&*final(self)),
            final(self).cs == old(self).cs,
            final(self).out == old(self).out,
            final(self).indents == old(self).indents,
            final(self).parens == old(self).parens,
            final(self).pos > old(self).pos || r is Err,
    {
        let mut value: u32 = 0;
        let mut count: usize = 0;
        let mut bad = false;
        let ghost entry = self.pos;
        loop
            invariant
                lx_wf(&*self),
                self.cs == old(self).cs,
                self.out == old(self).out,
                self.indents == old(self).indents,
                self.parens == old(self).parens,
                self.pos >= old(self).pos,
                entry == old(self).pos,
                count > 0 ==> self.pos > entry,
                count <= max,
                max <= 8,
                2 <= base <= 16,
                value < 0x10000000 * 16,
            decreases max - count,
        {
            if count >= max {
                break ;
            }
            match self.peek(0) {
                Option::None => {
                    if count >= min {
                        break ;
                    }
                    bad = true;
                    break ;
                },
                Option::Some(c) => {
                    match digit_value(c, base) {
                        Option::None => {
                            if count >= min {
                                break ;
                            }
                            // Consume the offending character so the quoted
                            // text shows it.
                            self.pos = self.pos + 1;
                            bad = true;
                            break ;
                        },
                        Option::Some(d) => {
                            if value <= 0xFFFFFFF {
                                proof {
                                    assert(value * base + d <= 0xFFFFFFFFu32) by (nonlinear_arith)
                                        requires
                                            value <= 0xFFFFFFF,
                                            2 <= base <= 16,
                                            d < base,
                                    ;
                                }
                                value = value * base + d;
                            } else {
                                value = 0x110000;
                            }
                            count = count + 1;
                            self.pos = self.pos + 1;
                        },
                    }
                },
            }
        }
        if count < min {
            bad = true;
        }
        if !bad {
            let ok = value < 0xD800 || (value >= 0xE000 && value < 0x110000);
            if ok {
                match char_from_u32(value) {
                    Option::Some(ch) => {
                        res.push(ch);
                        return Result::Ok(());
                    },
                    Option::None => {
                        bad = true;
                    },
                }
            } else {
                bad = true;
            }
        }
        // Quote everything after the backslash.
        let mut quoted: Vec<char> = Vec::new();
        let mut i = bs + 1;
        while i < self.pos && i < self.cs.len()
            invariant
                lx_wf(&*self),
            decreases self.cs@.len() - i,
        {
            quoted.push(self.cs[i]);
            i = i + 1;
        }
        let text = chars_to_string(&quoted);
        Result::Err(lex_err_quoted("invalid string escape sequence ", &text, bs, self.pos))
    }
}


impl Lexer {
    /// Lex a number. The cursor stands on its first digit.
    fn number(&mut self) -> (r: Result<(), LexError>)
        requires
            lx_wf(&*old(self)),
            old(self).pos < old(self).cs@.len(),
            is_digit_v(old(self).cs@[old(self).pos as int]),
        ensures
            lx_wf(&*final(self)),
            final(self).cs == old(self).cs,
            final(self).indents == old(self).indents,
            final(self).parens == old(self).parens,
            final(self).pos > old(self).pos || r is Err,
    {
        let start = self.pos;
        let c0 = self.cs[self.pos];
        // A radix prefix?
        if c0 == '0' {
            match self.peek(1) {
                Option::Some(c1) => {
                    let base: u32 = if c1 == 'x' || c1 == 'X' {
                        16
                    } else if c1 == 'o' || c1 == 'O' {
                        8
                    } else if c1 == 'b' || c1 == 'B' {
                        2
                    } else {
                        0
                    };
                    if base != 0 {
                        let digit_ok = match self.peek(2) {
                            Option::Some(c2) => match digit_value(c2, base) {
                                Option::Some(_) => true,
                                Option::None => false,
                            },
                            Option::None => false,
                        };
                        if digit_ok {
                            self.pos = self.pos + 2;
                            return self.radix_digits(start, base);
                        }
                    }
                },
                Option::None => {},
            }
        }
        // Decimal digits.
        let mut digits: usize = 0;
        loop
            invariant
                lx_wf(&*self),
                self.cs == old(self).cs,
                self.indents == old(self).indents,
                self.parens == old(self).parens,
                self.out == old(self).out,
                self.pos >= old(self).pos,
                self.pos == old(self).pos + digits,
                digits == 0 ==> self.pos < self.cs@.len() && is_digit_v(
                    self.cs@[self.pos as int],
                ),
            ensures
                digits > 0,
                self.pos == old(self).pos + digits,
                lx_wf(&*self),
                self.cs == old(self).cs,
                self.indents == old(self).indents,
                self.parens == old(self).parens,
                self.out == old(self).out,
            decreases self.cs@.len() - self.pos,
        {
            match self.peek(0) {
                Option::Some(c) => {
                    if is_digit(c) {
                        digits = digits + 1;
                        self.pos = self.pos + 1;
                    } else {
                        proof {
                            assert(digits > 0);
                        }
                        break ;
                    }
                },
                Option::None => {
                    proof {
                        assert(digits > 0);
                    }
                    break ;
                },
            }
        }
        proof {
            assert(self.pos > old(self).pos);
        }
        // A float?
        let mut is_float = false;
        match self.peek(0) {
            Option::Some(c) => {
                if c == '.' {
                    // `12.` and `12.34`, but not `12.e` unless a full
                    // exponent follows.
                    is_float = true;
                    self.pos = self.pos + 1;
                    self.decimal_run();
                    self.maybe_exponent();
                } else if c == 'e' || c == 'E' {
                    if self.exponent_ahead() {
                        is_float = true;
                        self.take_exponent();
                    }
                }
            },
            Option::None => {},
        }
        if is_float {
            let text = self.slice_text(start, self.pos);
            self.out.push((start, Token::Float(text), self.pos));
            return Result::Ok(());
        }
        // An integer; leading zeros are banned (octal confusion).
        if digits > 1 && self.cs[start] == '0' {
            let text = self.slice_text(start, self.pos);
            return Result::Err(
                lex_err_quoted("integer cannot have leading 0, got ", &text, start, self.pos),
            );
        }
        let mut value: i64 = 0;
        let mut i = start;
        while i < self.pos && i < self.cs.len()
            invariant
                lx_wf(&*self),
                self.cs == old(self).cs,
                self.indents == old(self).indents,
                self.parens == old(self).parens,
                self.pos > old(self).pos,
                0 <= value,
            decreases self.cs@.len() - i,
        {
            match digit_value(self.cs[i], 10) {
                Option::Some(d) => {
                    if value <= (i64::MAX - d as i64) / 10 {
                        proof {
                            assert(value * 10 + d as i64 <= i64::MAX) by (nonlinear_arith)
                                requires
                                    0 <= value,
                                    0 <= d < 10,
                                    value as int <= (i64::MAX as int - d as int) / 10,
                            ;
                        }
                        value = value * 10 + d as i64;
                    } else {
                        let text = self.slice_text(start, self.pos);
                        return Result::Err(
                            lex_err_quoted("failed to parse integer: ", &text, start, self.pos),
                        );
                    }
                },
                Option::None => {},
            }
            i = i + 1;
        }
        self.out.push((start, Token::Int(value), self.pos));
        Result::Ok(())
    }

    /// The digits of a radix-prefixed integer; the cursor stands after the
    /// prefix.
    fn radix_digits(&mut self, start: usize, base: u32) -> (r: Result<(), LexError>)
        requires
            lx_wf(&*old(self)),
            2 <= base <= 16,
            start < old(self).pos,
        ensures
            lx_wf(&*final(self)),
            final(self).cs == old(self).cs,
            final(self).indents == old(self).indents,
            final(self).parens == old(self).parens,
            final(self).pos >= old(self).pos,
    {
        let mut value: i64 = 0;
        loop
            invariant
                lx_wf(&*self),
                self.cs == old(self).cs,
                self.indents == old(self).indents,
                self.parens == old(self).parens,
                self.pos >= old(self).pos,
                0 <= value,
                2 <= base <= 16,
                start < self.pos,
            decreases self.cs@.len() - self.pos,
        {
            match self.peek(0) {
                Option::Some(c) => {
                    match digit_value(c, base) {
                        Option::Some(d) => {
                            if value <= (i64::MAX - d as i64) / (base as i64) {
                                proof {
                                    assert(value * (base as i64) + d as i64 <= i64::MAX)
                                        by (nonlinear_arith)
                                        requires
                                            0 <= value,
                                            0 <= d < base,
                                            2 <= base <= 16,
                                            value as int <= (i64::MAX as int - d as int) / (
                                            base as int),
                                    ;
                                }
                                value = value * (base as i64) + d as i64;
                                self.pos = self.pos + 1;
                            } else {
                                let text = self.slice_text(start, self.pos);
                                return Result::Err(
                                    lex_err_quoted(
                                        "failed to parse integer: ",
                                        &text,
                                        start,
                                        self.pos,
                                    ),
                                );
                            }
                        },
                        Option::None => {
                            break ;
                        },
                    }
                },
                Option::None => {
                    break ;
                },
            }
        }
        self.out.push((start, Token::Int(value), self.pos));
        Result::Ok(())
    }

    /// Consume a run of decimal digits, possibly empty.
    fn decimal_run(&mut self)
        requires
            lx_wf(&*old(self)),
        ensures
            lx_wf(&*final(self)),
            final(self).cs == old(self).cs,
            final(self).out == old(self).out,
            final(self).indents == old(self).indents,
            final(self).parens == old(self).parens,
            final(self).pos >= old(self).pos,
    {
        loop
            invariant
                lx_wf(&*self),
                self.cs == old(self).cs,
                self.out == old(self).out,
                self.indents == old(self).indents,
                self.parens == old(self).parens,
                self.pos >= old(self).pos,
            decreases self.cs@.len() - self.pos,
        {
            match self.peek(0) {
                Option::Some(c) => {
                    if is_digit(c) {
                        self.pos = self.pos + 1;
                    } else {
                        return ;
                    }
                },
                Option::None => {
                    return ;
                },
            }
        }
    }

    /// Whether a full exponent (`e`, optional sign, at least one digit)
    /// starts at the cursor.
    fn exponent_ahead(&self) -> (r: bool)
        requires
            lx_wf(self),
    {
        match self.peek(0) {
            Option::Some(c) => {
                if c == 'e' || c == 'E' {
                    match self.peek(1) {
                        Option::Some(c1) => {
                            if c1 == '+' || c1 == '-' {
                                match self.peek(2) {
                                    Option::Some(c2) => is_digit(c2),
                                    Option::None => false,
                                }
                            } else {
                                is_digit(c1)
                            }
                        },
                        Option::None => false,
                    }
                } else {
                    false
                }
            },
            Option::None => false,
        }
    }

    /// Consume an exponent known to be ahead.
    fn take_exponent(&mut self)
        requires
            lx_wf(&*old(self)),
        ensures
            lx_wf(&*final(self)),
            final(self).cs == old(self).cs,
            final(self).out == old(self).out,
            final(self).indents == old(self).indents,
            final(self).parens == old(self).parens,
            final(self).pos >= old(self).pos,
    {
        match self.peek(0) {
            Option::Some(c) => {
                if c == 'e' || c == 'E' {
                    self.pos = self.pos + 1;
                    match self.peek(0) {
                        Option::Some(c1) => {
                            if c1 == '+' || c1 == '-' {
                                self.pos = self.pos + 1;
                            }
                        },
                        Option::None => {},
                    }
                    self.decimal_run();
                }
            },
            Option::None => {},
        }
    }

    /// Consume an exponent where a full one is ahead.
    fn maybe_exponent(&mut self)
        requires
            lx_wf(&*old(self)),
        ensures
            lx_wf(&*final(self)),
            final(self).cs == old(self).cs,
            final(self).out == old(self).out,
            final(self).indents == old(self).indents,
            final(self).parens == old(self).parens,
            final(self).pos >= old(self).pos,
    {
        if self.exponent_ahead() {
            self.take_exponent();
        }
    }

    /// The input text between two positions.
    fn slice_text(&self, a: usize, b: usize) -> (r: String)
        requires
            lx_wf(self),
    {
        let mut v: Vec<char> = Vec::new();
        let mut i = a;
        while i < b && i < self.cs.len()
            invariant
                lx_wf(self),
            decreases self.cs@.len() - i,
        {
            v.push(self.cs[i]);
            i = i + 1;
        }
        chars_to_string(&v)
    }
}


/// The keyword for an identifier's text, if it is one.
fn keyword_of(s: &String) -> (r: Option<Token>) {
    if *s == new_string("and") {
        Option::Some(Token::And)
    } else if *s == new_string("break") {
        Option::Some(Token::Break)
    } else if *s == new_string("continue") {
        Option::Some(Token::Continue)
    } else if *s == new_string("def") {
        Option::Some(Token::Def)
    } else if *s == new_string("elif") {
        Option::Some(Token::Elif)
    } else if *s == new_string("else") {
        Option::Some(Token::Else)
    } else if *s == new_string("for") {
        Option::Some(Token::For)
    } else if *s == new_string("if") {
        Option::Some(Token::If)
    } else if *s == new_string("in") {
        Option::Some(Token::In)
    } else if *s == new_string("lambda") {
        Option::Some(Token::Lambda)
    } else if *s == new_string("load") {
        Option::Some(Token::Load)
    } else if *s == new_string("not") {
        Option::Some(Token::Not)
    } else if *s == new_string("or") {
        Option::Some(Token::Or)
    } else if *s == new_string("pass") {
        Option::Some(Token::Pass)
    } else if *s == new_string("return") {
        Option::Some(Token::Return)
    } else {
        Option::None
    }
}

/// Whether the identifier's text is a reserved keyword of the larger
/// language family, banned to keep programs forward-portable.
fn is_reserved(s: &String) -> (r: bool) {
    *s == new_string("as") || *s == new_string("assert") || *s == new_string("async") || *s
        == new_string("await") || *s == new_string("class") || *s == new_string("del") || *s
        == new_string("except") || *s == new_string("finally") || *s == new_string("from") || *s
        == new_string("global") || *s == new_string("import") || *s == new_string("is") || *s
        == new_string("nonlocal") || *s == new_string("raise") || *s == new_string("try") || *s
        == new_string("while") || *s == new_string("with") || *s == new_string("yield")
}

impl Lexer {
    /// Lex one token at the cursor, which stands on a non-space character.
    fn next_token(&mut self) -> (r: Result<(), LexError>)
        requires
            lx_wf(&*old(self)),
            old(self).pos < old(self).cs@.len(),
        ensures
            lx_wf(&*final(self)),
            final(self).cs == old(self).cs,
            final(self).pos > old(self).pos || r is Err,
    {
        let start = self.pos;
        let c = self.cs[self.pos];
        if c == '\t' {
            return Result::Err(lex_err("tabs are not allowed", start, start));
        }
        if c == '\n' || c == '\r' {
            let nl_len: usize = if c == '\r' {
                match self.peek(1) {
                    Option::Some(c1) => {
                        if c1 == '\n' {
                            2
                        } else {
                            1
                        }
                    },
                    Option::None => 1,
                }
            } else {
                1
            };
            self.pos = self.pos + nl_len;
            if self.parens == 0 {
                self.out.push((start, Token::Newline, self.pos));
                return self.calculate_indent();
            }
            return Result::Ok(());
        }
        if c == '#' {
            let mut content: Vec<char> = Vec::new();
            self.pos = self.pos + 1;
            loop
                invariant
                    lx_wf(&*self),
                    self.cs == old(self).cs,
                    start < self.pos,
                decreases self.cs@.len() - self.pos,
            {
                match self.peek(0) {
                    Option::None => {
                        break ;
                    },
                    Option::Some(cc) => {
                        if cc == '\n' {
                            break ;
                        }
                        content.push(cc);
                        self.pos = self.pos + 1;
                    },
                }
            }
            let mut end = self.pos;
            if content.len() > 0 && content[content.len() - 1] == '\r' {
                content.pop();
                end = end - 1;
            }
            let text = chars_to_string(&content);
            self.out.push((start, Token::Comment(text), end));
            return Result::Ok(());
        }
        if is_ident_start(c) {
            let mut name: Vec<char> = Vec::new();
            loop
                invariant
                    lx_wf(&*self),
                    self.cs == old(self).cs,
                    self.out == old(self).out,
                    self.indents == old(self).indents,
                    self.parens == old(self).parens,
                    self.pos >= old(self).pos,
                    self.pos == old(self).pos ==> self.pos < self.cs@.len() && (is_ident_start_v(
                        self.cs@[self.pos as int],
                    ) || is_digit_v(self.cs@[self.pos as int])),
                ensures
                    self.pos > old(self).pos,
                    lx_wf(&*self),
                    self.cs == old(self).cs,
                    self.out == old(self).out,
                    self.indents == old(self).indents,
                    self.parens == old(self).parens,
                decreases self.cs@.len() - self.pos,
            {
                match self.peek(0) {
                    Option::Some(cc) => {
                        if is_ident_cont(cc) {
                            name.push(cc);
                            self.pos = self.pos + 1;
                        } else {
                            proof {
                                assert(self.pos > old(self).pos);
                            }
                            break ;
                        }
                    },
                    Option::None => {
                        proof {
                            assert(self.pos > old(self).pos);
                        }
                        break ;
                    },
                }
            }
            let text = chars_to_string(&name);
            // A string prefix directly followed by a quote starts a string.
            let quote_next = match self.peek(0) {
                Option::Some(q) => q == '\'' || q == '"',
                Option::None => false,
            };
            if quote_next && (text == new_string("r") || text == new_string("f") || text
                == new_string("fr")) {
                let raw = text == new_string("r") || text == new_string("fr");
                let fstring = text == new_string("f") || text == new_string("fr");
                proof {
                    assert(self.pos < self.cs@.len());
                }
                let content_offset = self.pos - start + 1;
                match self.string_lit(start, raw) {
                    Result::Err(e) => {
                        return Result::Err(e);
                    },
                    Result::Ok((content, end)) => {
                        let ctext = chars_to_string(&content);
                        let tok = if fstring {
                            Token::FString(
                                TokenFString { content: ctext, content_start_offset: content_offset },
                            )
                        } else {
                            Token::Str(ctext)
                        };
                        self.out.push((start, tok, end));
                        return Result::Ok(());
                    },
                }
            }
            if is_reserved(&text) {
                return Result::Err(
                    lex_err_quoted("cannot use reserved keyword ", &text, start, self.pos),
                );
            }
            match keyword_of(&text) {
                Option::Some(tok) => {
                    self.out.push((start, tok, self.pos));
                },
                Option::None => {
                    self.out.push((start, Token::Identifier(text), self.pos));
                },
            }
            return Result::Ok(());
        }
        if is_digit(c) {
            return self.number();
        }
        if c == '.' {
            let digit_next = match self.peek(1) {
                Option::Some(c1) => is_digit(c1),
                Option::None => false,
            };
            if digit_next {
                // `.123`, with an optional exponent.
                self.pos = self.pos + 1;
                self.decimal_run();
                self.maybe_exponent();
                let text = self.slice_text(start, self.pos);
                self.out.push((start, Token::Float(text), self.pos));
                return Result::Ok(());
            }
            self.pos = self.pos + 1;
            self.out.push((start, Token::Dot, self.pos));
            return Result::Ok(());
        }
        if c == '\'' || c == '"' {
            match self.string_lit(start, false) {
                Result::Err(e) => {
                    return Result::Err(e);
                },
                Result::Ok((content, end)) => {
                    let ctext = chars_to_string(&content);
                    self.out.push((start, Token::Str(ctext), end));
                    return Result::Ok(());
                },
            }
        }
        self.symbol(start, c)
    }

    /// Lex a symbol, longest first.
    fn symbol(&mut self, start: usize, c: char) -> (r: Result<(), LexError>)
        requires
            lx_wf(&*old(self)),
            old(self).pos < old(self).cs@.len(),
            start < old(self).cs@.len(),
        ensures
            lx_wf(&*final(self)),
            final(self).cs == old(self).cs,
            final(self).pos > old(self).pos || r is Err,
    {
        let c1 = self.peek(1);
        let c2 = self.peek(2);
        let eq1 = match c1 {
            Option::Some(x) => x == '=',
            Option::None => false,
        };
        // Three characters.
        if c == '/' && matches_char(c1, '/') && matches_char(c2, '=') {
            self.pos = self.pos + 3;
            self.out.push((start, Token::SlashSlashEqual, self.pos));
            return Result::Ok(());
        }
        if c == '<' && matches_char(c1, '<') && matches_char(c2, '=') {
            self.pos = self.pos + 3;
            self.out.push((start, Token::LessLessEqual, self.pos));
            return Result::Ok(());
        }
        if c == '>' && matches_char(c1, '>') && matches_char(c2, '=') {
            self.pos = self.pos + 3;
            self.out.push((start, Token::GreaterGreaterEqual, self.pos));
            return Result::Ok(());
        }
        // Two characters.
        let two: Option<Token> = if c == '+' && eq1 {
            Option::Some(Token::PlusEqual)
        } else if c == '-' && eq1 {
            Option::Some(Token::MinusEqual)
        } else if c == '*' && eq1 {
            Option::Some(Token::StarEqual)
        } else if c == '/' && eq1 {
            Option::Some(Token::SlashEqual)
        } else if c == '%' && eq1 {
            Option::Some(Token::PercentEqual)
        } else if c == '=' && eq1 {
            Option::Some(Token::EqualEqual)
        } else if c == '!' && eq1 {
            Option::Some(Token::BangEqual)
        } else if c == '<' && eq1 {
            Option::Some(Token::LessEqual)
        } else if c == '>' && eq1 {
            Option::Some(Token::GreaterEqual)
        } else if c == '&' && eq1 {
            Option::Some(Token::AmpersandEqual)
        } else if c == '|' && eq1 {
            Option::Some(Token::PipeEqual)
        } else if c == '^' && eq1 {
            Option::Some(Token::CaretEqual)
        } else if c == '*' && matches_char(c1, '*') {
            Option::Some(Token::StarStar)
        } else if c == '-' && matches_char(c1, '>') {
            Option::Some(Token::MinusGreater)
        } else if c == '/' && matches_char(c1, '/') {
            Option::Some(Token::SlashSlash)
        } else if c == '<' && matches_char(c1, '<') {
            Option::Some(Token::LessLess)
        } else if c == '>' && matches_char(c1, '>') {
            Option::Some(Token::GreaterGreater)
        } else {
            Option::None
        };
        match two {
            Option::Some(tok) => {
                self.pos = self.pos + 2;
                self.out.push((start, tok, self.pos));
                return Result::Ok(());
            },
            Option::None => {},
        }
        // One character.
        let one: Option<Token> = if c == ',' {
            Option::Some(Token::Comma)
        } else if c == ';' {
            Option::Some(Token::Semicolon)
        } else if c == ':' {
            Option::Some(Token::Colon)
        } else if c == '=' {
            Option::Some(Token::Equal)
        } else if c == '<' {
            Option::Some(Token::LessThan)
        } else if c == '>' {
            Option::Some(Token::GreaterThan)
        } else if c == '-' {
            Option::Some(Token::Minus)
        } else if c == '+' {
            Option::Some(Token::Plus)
        } else if c == '*' {
            Option::Some(Token::Star)
        } else if c == '%' {
            Option::Some(Token::Percent)
        } else if c == '/' {
            Option::Some(Token::Slash)
        } else if c == '&' {
            Option::Some(Token::Ampersand)
        } else if c == '|' {
            Option::Some(Token::Pipe)
        } else if c == '^' {
            Option::Some(Token::Caret)
        } else if c == '~' {
            Option::Some(Token::Tilde)
        } else {
            Option::None
        };
        match one {
            Option::Some(tok) => {
                self.pos = self.pos + 1;
                self.out.push((start, tok, self.pos));
                return Result::Ok(());
            },
            Option::None => {},
        }
        // Brackets.
        if c == '(' || c == '[' || c == '{' {
            if self.parens < i64::MAX {
                self.parens = self.parens + 1;
            }
            let tok = if c == '(' {
                Token::OpeningRound
            } else if c == '[' {
                Token::OpeningSquare
            } else {
                Token::OpeningCurly
            };
            self.pos = self.pos + 1;
            self.out.push((start, tok, self.pos));
            return Result::Ok(());
        }
        if c == ')' || c == ']' || c == '}' {
            if self.parens > i64::MIN {
                self.parens = self.parens - 1;
            }
            let tok = if c == ')' {
                Token::ClosingRound
            } else if c == ']' {
                Token::ClosingSquare
            } else {
                Token::ClosingCurly
            };
            self.pos = self.pos + 1;
            self.out.push((start, tok, self.pos));
            return Result::Ok(());
        }
        let text = char_to_string(c);
        Result::Err(lex_err_quoted("invalid input ", &text, start, start + 1))
    }
}

/// Whether an optional character is the given one.
fn matches_char(c: Option<char>, want: char) -> (r: bool)
    ensures
        r ==> c is Some && c->0 == want,
{
    match c {
        Option::Some(x) => x == want,
        Option::None => false,
    }
}

/// Lex a whole program: all its tokens with their character ranges, or the
/// first failure. The end of input always emits one final line break and a
/// dedent for every indentation block still open.
pub fn lex_tokens(program: &str) -> (r: Result<Vec<(usize, Token, usize)>, LexError>) {
    let cs = to_chars(program);
    let n = cs.len();
    proof {
        assert(cs@.len() == n);
    }
    let mut lx = Lexer { cs, pos: 0, indents: Vec::new(), parens: 0, out: Vec::new() };
    match lx.calculate_indent() {
        Result::Ok(()) => {},
        Result::Err(e) => {
            return Result::Err(e);
        },
    }
    loop
        invariant
            lx_wf(&lx),
        decreases lx.cs@.len() - lx.pos,
    {
        lx.skip_spaces();
        if lx.pos >= lx.cs.len() {
            break ;
        }
        let ghost before = lx.pos;
        match lx.next_token() {
            Result::Ok(()) => {},
            Result::Err(e) => {
                return Result::Err(e);
            },
        }
        proof {
            assert(lx.pos > before);
        }
    }
    // The synthetic final line break, then the closing dedents.
    let endp = lx.pos;
    lx.out.push((endp, Token::Newline, endp));
    let nd = lx.indents.len();
    for i in 0..nd
        invariant
            lx_wf(&lx),
            endp == lx.pos,
    {
        lx.out.push((endp, Token::Dedent, endp));
    }
    Result::Ok(lx.out)
}


/// The decimal digits of a non-negative number.
fn int_text(v: i64) -> (r: String)
    requires
        v >= 0,
{
    if v == 0 {
        return new_string("0");
    }
    let mut digits: Vec<char> = Vec::new();
    let mut left = v;
    while left > 0
        invariant
            left >= 0,
        decreases left,
    {
        let d = (left % 10) as u32;
        match char_from_u32(0x30 + d) {
            Option::Some(c) => {
                digits.push(c);
            },
            Option::None => {
                proof {
                    assert(0x30 + d < 0xD800);
                    assert(false);
                }
            },
        }
        left = left / 10;
    }
    let mut ordered: Vec<char> = Vec::new();
    let n = digits.len();
    for i in 0..n
        invariant
            n == digits@.len(),
    {
        ordered.push(digits[n - 1 - i]);
    }
    chars_to_string(&ordered)
}

/// One hexadecimal digit, lower case.
fn hex_digit(d: u32) -> (r: char)
    requires
        d < 16,
{
    let v: u32 = if d < 10 {
        0x30 + d
    } else {
        0x61 + (d - 10)
    };
    match char_from_u32(v) {
        Option::Some(c) => c,
        Option::None => {
            proof {
                assert(v < 0xD800);
                assert(false);
            }
            ' '
        },
    }
}

/// The text quoted the way the language's own renderer quotes it: double
/// quotes, two-character escapes for the common controls, `\u{...}` for the
/// rest.
pub fn debug_quote(s: &String) -> (r: String) {
    let cs = to_chars(s.as_str());
    let mut out: Vec<char> = Vec::new();
    out.push('"');
    let n = cs.len();
    for i in 0..n
        invariant
            n == cs@.len(),
    {
        let c = cs[i];
        if c == '"' {
            out.push('\\');
            out.push('"');
        } else if c == '\\' {
            out.push('\\');
            out.push('\\');
        } else if c == '\n' {
            out.push('\\');
            out.push('n');
        } else if c == '\r' {
            out.push('\\');
            out.push('r');
        } else if c == '\t' {
            out.push('\\');
            out.push('t');
        } else if c == '\u{0}' {
            out.push('\\');
            out.push('0');
        } else if (c as u32) < 0x20 || (c as u32) == 0x7F {
            out.push('\\');
            out.push('u');
            out.push('{');
            let v = c as u32;
            if v >= 16 {
                out.push(hex_digit(v / 16));
            }
            out.push(hex_digit(v % 16));
            out.push('}');
        } else {
            out.push(c);
        }
    }
    out.push('"');
    chars_to_string(&out)
}

/// The text quoted by the JSON rules: `\uXXXX` for the controls without a
/// short escape.
pub fn json_quote(s: &String) -> (r: String) {
    let cs = to_chars(s.as_str());
    let mut out: Vec<char> = Vec::new();
    out.push('"');
    let n = cs.len();
    for i in 0..n
        invariant
            n == cs@.len(),
    {
        let c = cs[i];
        if c == '"' {
            out.push('\\');
            out.push('"');
        } else if c == '\\' {
            out.push('\\');
            out.push('\\');
        } else if c == '\n' {
            out.push('\\');
            out.push('n');
        } else if c == '\r' {
            out.push('\\');
            out.push('r');
        } else if c == '\t' {
            out.push('\\');
            out.push('t');
        } else if c == '\u{8}' {
            out.push('\\');
            out.push('b');
        } else if c == '\u{c}' {
            out.push('\\');
            out.push('f');
        } else if (c as u32) < 0x20 {
            out.push('\\');
            out.push('u');
            let v = c as u32;
            out.push('0');
            out.push('0');
            out.push(hex_digit((v / 16) % 16));
            out.push(hex_digit(v % 16));
        } else {
            out.push(c);
        }
    }
    out.push('"');
    chars_to_string(&out)
}

impl Token {
    /// The token's fixed text, where it has one: keywords and symbols.
    fn fixed_text(&self) -> (r: Option<&'static str>) {
        match self {
            Token::And => Option::Some("and"),
            Token::Break => Option::Some("break"),
            Token::Continue => Option::Some("continue"),
            Token::Def => Option::Some("def"),
            Token::Elif => Option::Some("elif"),
            Token::Else => Option::Some("else"),
            Token::For => Option::Some("for"),
            Token::If => Option::Some("if"),
            Token::In => Option::Some("in"),
            Token::Lambda => Option::Some("lambda"),
            Token::Load => Option::Some("load"),
            Token::Not => Option::Some("not"),
            Token::Or => Option::Some("or"),
            Token::Pass => Option::Some("pass"),
            Token::Return => Option::Some("return"),
            Token::Comma => Option::Some(","),
            Token::Semicolon => Option::Some(";"),
            Token::Colon => Option::Some(":"),
            Token::PlusEqual => Option::Some("+="),
            Token::MinusEqual => Option::Some("-="),
            Token::StarEqual => Option::Some("*="),
            Token::SlashEqual => Option::Some("/="),
            Token::SlashSlashEqual => Option::Some("//="),
            Token::PercentEqual => Option::Some("%="),
            Token::EqualEqual => Option::Some("=="),
            Token::BangEqual => Option::Some("!="),
            Token::LessEqual => Option::Some("<="),
            Token::GreaterEqual => Option::Some(">="),
            Token::StarStar => Option::Some("**"),
            Token::MinusGreater => Option::Some("->"),
            Token::Equal => Option::Some("="),
            Token::LessThan => Option::Some("<"),
            Token::GreaterThan => Option::Some(">"),
            Token::Minus => Option::Some("-"),
            Token::Plus => Option::Some("+"),
            Token::Star => Option::Some("*"),
            Token::Percent => Option::Some("%"),
            Token::Slash => Option::Some("/"),
            Token::SlashSlash => Option::Some("//"),
            Token::Dot => Option::Some("."),
            Token::Ampersand => Option::Some("&"),
            Token::Pipe => Option::Some("|"),
            Token::Caret => Option::Some("^"),
            Token::LessLess => Option::Some("<<"),
            Token::GreaterGreater => Option::Some(">>"),
            Token::Tilde => Option::Some("~"),
            Token::AmpersandEqual => Option::Some("&="),
            Token::PipeEqual => Option::Some("|="),
            Token::CaretEqual => Option::Some("^="),
            Token::LessLessEqual => Option::Some("<<="),
            Token::GreaterGreaterEqual => Option::Some(">>="),
            Token::OpeningSquare => Option::Some("["),
            Token::OpeningCurly => Option::Some("{"),
            Token::OpeningRound => Option::Some("("),
            Token::ClosingSquare => Option::Some("]"),
            Token::ClosingCurly => Option::Some("}"),
            Token::ClosingRound => Option::Some(")"),
            _ => Option::None,
        }
    }

    /// Whether the token is a keyword.
    fn is_keyword(&self) -> (r: bool) {
        match self {
            Token::And | Token::Break | Token::Continue | Token::Def | Token::Elif | Token::Else
                | Token::For | Token::If | Token::In | Token::Lambda | Token::Load | Token::Not
                | Token::Or | Token::Pass | Token::Return => true,
            _ => false,
        }
    }

    /// The token described for a reader, the way the golden listings show
    /// it: `keyword 'def'`, `symbol '+'`, `string literal "a"`, and so on.
    pub fn describe(&self) -> (r: String) {
        match self {
            Token::Newline => new_string("new line"),
            Token::Indent => new_string("new indentation block"),
            Token::Dedent => new_string("end of indentation block"),
            Token::Comment(c) => {
                let mut s = new_string("comment '");
                s.append(c.as_str());
                s.append("'");
                s
            },
            Token::Identifier(x) => {
                let mut s = new_string("identifier '");
                s.append(x.as_str());
                s.append("'");
                s
            },
            Token::Int(v) => {
                let mut s = new_string("integer literal '");
                if *v >= 0 {
                    let d = int_text(*v);
                    s.append(d.as_str());
                }
                s.append("'");
                s
            },
            Token::Float(text) => {
                let mut s = new_string("float literal '");
                s.append(text.as_str());
                s.append("'");
                s
            },
            Token::Str(x) => {
                let mut s = new_string("string literal ");
                let q = debug_quote(x);
                s.append(q.as_str());
                s
            },
            Token::FString(f) => {
                let mut s = new_string("f-string ");
                let q = debug_quote(&f.content);
                s.append(q.as_str());
                s
            },
            _ => {
                match self.fixed_text() {
                    Option::Some(t) => {
                        let mut s = if self.is_keyword() {
                            new_string("keyword '")
                        } else {
                            new_string("symbol '")
                        };
                        s.append(t);
                        s.append("'");
                        s
                    },
                    Option::None => new_string(""),
                }
            },
        }
    }

    /// The token written back out, for compact listings: strings become
    /// their JSON quoting, a line break is itself, an indent a tab.
    pub fn unlex(&self) -> (r: String) {
        match self {
            Token::Indent => new_string("\t"),
            Token::Newline => new_string("\n"),
            Token::Dedent => new_string("#dedent"),
            Token::Str(x) => json_quote(x),
            Token::FString(f) => {
                let mut s = new_string("f");
                let q = json_quote(&f.content);
                s.append(q.as_str());
                s
            },
            Token::Comment(c) => {
                let mut s = new_string("#");
                s.append(c.as_str());
                s
            },
            Token::Identifier(x) => x.clone(),
            Token::Int(v) => {
                if *v >= 0 {
                    int_text(*v)
                } else {
                    new_string("")
                }
            },
            Token::Float(text) => text.clone(),
            _ => {
                match self.fixed_text() {
                    Option::Some(t) => new_string(t),
                    Option::None => new_string(""),
                }
            },
        }
    }
}

} // verus!
