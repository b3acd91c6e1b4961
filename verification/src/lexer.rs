//! Lexical scanner: turns source text into tokens, one `next_token` call at
//! a time, with a single character of lookahead.
use vstd::prelude::*;

verus! {

/// The classification of a lexeme.
#[derive(Debug, Clone, Copy, PartialEq, Eq, Structural)]
pub enum TokenType {
    ILLEGAL,
    EOF,
    IDENT,
    INT,
    STRING,
    ASSIGN,
    PLUS,
    MINUS,
    ASTERISK,
    SLASH,
    EQ,
    NOTEQ,
    BANG,
    LT,
    GT,
    LTE,
    GTE,
    COMA,
    SEMICOLON,
    COLON,
    LPAREN,
    RPAREN,
    LBRACE,
    RBRACE,
    LBRACKET,
    RBRACKET,
    FUNCTION,
    LET,
    TRUE,
    FALSE,
    IF,
    ELSE,
    RETURN,
}

/// A classified lexeme: its kind and the exact source text it was scanned from.
#[derive(Debug, PartialEq)]
pub struct Token {
    pub token_type: TokenType,
    pub literal: String,
}

impl Clone for Token {
    fn clone(&self) -> (r: Self)
        ensures
            r == *self,
    {
        Token { token_type: self.token_type, literal: self.literal.clone() }
    }
}

/// Relies on char::to_string: the returned string holds exactly the one
/// character it was made from.
#[verifier::external_body]
pub(crate) fn char_to_string(c: char) -> (r: String)
    ensures
        r@ == seq![c],
{
    c.to_string()
}

impl Token {
    pub fn new(token_type: TokenType, ch: char) -> (t: Self)
        ensures
            t.token_type == token_type,
            t.literal@ == seq![ch],
    {
        Token { token_type, literal: char_to_string(ch) }
    }
}

/// Whitespace skipped between tokens: space, newline, carriage return, tab.
pub open spec fn is_ws_char(c: char) -> bool {
    c == ' ' || c == '\n' || c == '\r' || c == '\t'
}

/// An ASCII decimal digit.
pub open spec fn is_digit_char(c: char) -> bool {
    48 <= c as u32 && c as u32 <= 57
}

/// An ASCII letter: the only characters that may start an identifier.
pub open spec fn is_letter_char(c: char) -> bool {
    (65 <= c as u32 && c as u32 <= 90) || (97 <= c as u32 && c as u32 <= 122)
}

/// A character that may continue an identifier: letter, digit or underscore.
pub open spec fn is_ident_char(c: char) -> bool {
    is_letter_char(c) || is_digit_char(c) || c as u32 == 95
}

/// The first position at or after `i` holding a non-whitespace character
/// (or the end of the text).
pub open spec fn skip_ws_from(s: Seq<char>, i: int) -> int
    decreases s.len() - i,
{
    if i < s.len() && is_ws_char(s[i]) {
        skip_ws_from(s, i + 1)
    } else {
        i
    }
}

/// The end of the maximal run of digits starting at `i`.
pub open spec fn digit_run_end(s: Seq<char>, i: int) -> int
    decreases s.len() - i,
{
    if i < s.len() && is_digit_char(s[i]) {
        digit_run_end(s, i + 1)
    } else {
        i
    }
}

/// The end of the maximal run of identifier characters starting at `i`.
pub open spec fn ident_run_end(s: Seq<char>, i: int) -> int
    decreases s.len() - i,
{
    if i < s.len() && is_ident_char(s[i]) {
        ident_run_end(s, i + 1)
    } else {
        i
    }
}

/// The position of the closing quote at or after `i`, or the end of the text
/// if the string literal is unterminated.
pub open spec fn string_end(s: Seq<char>, i: int) -> int
    decreases s.len() - i,
{
    if i < s.len() && s[i] != '"' {
        string_end(s, i + 1)
    } else {
        i
    }
}

/// The keyword table: identifiers that are reclassified to keyword tokens.
pub open spec fn keyword_lookup(s: Seq<char>) -> TokenType {
    if s == "fn"@ {
        TokenType::FUNCTION
    } else if s == "let"@ {
        TokenType::LET
    } else if s == "true"@ {
        TokenType::TRUE
    } else if s == "false"@ {
        TokenType::FALSE
    } else if s == "if"@ {
        TokenType::IF
    } else if s == "else"@ {
        TokenType::ELSE
    } else if s == "return"@ {
        TokenType::RETURN
    } else {
        TokenType::IDENT
    }
}

/// The token scanned at position `p` (no whitespace skipping): its kind, its
/// literal text, and the position just past its last consumed character.
pub open spec fn spec_token_at(s: Seq<char>, p: int) -> (TokenType, Seq<char>, int) {
    if p >= s.len() {
        (TokenType::EOF, seq!['\0'], p)
    } else {
        let c = s[p];
        if c == '=' {
            if p + 1 < s.len() && s[p + 1] == '=' {
                (TokenType::EQ, s.subrange(p, p + 2), p + 2)
            } else {
                (TokenType::ASSIGN, seq![c], p + 1)
            }
        } else if c == '!' {
            if p + 1 < s.len() && s[p + 1] == '=' {
                (TokenType::NOTEQ, s.subrange(p, p + 2), p + 2)
            } else {
                (TokenType::BANG, seq![c], p + 1)
            }
        } else if c == '>' {
            if p + 1 < s.len() && s[p + 1] == '=' {
                (TokenType::GTE, s.subrange(p, p + 2), p + 2)
            } else {
                (TokenType::GT, seq![c], p + 1)
            }
        } else if c == '<' {
            if p + 1 < s.len() && s[p + 1] == '=' {
                (TokenType::LTE, s.subrange(p, p + 2), p + 2)
            } else {
                (TokenType::LT, seq![c], p + 1)
            }
        } else if c == ';' {
            (TokenType::SEMICOLON, seq![c], p + 1)
        } else if c == ':' {
            (TokenType::COLON, seq![c], p + 1)
        } else if c == '(' {
            (TokenType::LPAREN, seq![c], p + 1)
        } else if c == ')' {
            (TokenType::RPAREN, seq![c], p + 1)
        } else if c == '{' {
            (TokenType::LBRACE, seq![c], p + 1)
        } else if c == '}' {
            (TokenType::RBRACE, seq![c], p + 1)
        } else if c == '+' {
            (TokenType::PLUS, seq![c], p + 1)
        } else if c == '-' {
            (TokenType::MINUS, seq![c], p + 1)
        } else if c == '*' {
            (TokenType::ASTERISK, seq![c], p + 1)
        } else if c == '/' {
            (TokenType::SLASH, seq![c], p + 1)
        } else if c == ',' {
            (TokenType::COMA, seq![c], p + 1)
        } else if c == '[' {
            (TokenType::LBRACKET, seq![c], p + 1)
        } else if c == ']' {
            (TokenType::RBRACKET, seq![c], p + 1)
        } else if c == '"' {
            let e = string_end(s, p + 1);
            (TokenType::STRING, s.subrange(p + 1, e), if e < s.len() { e + 1 } else { e })
        } else if is_digit_char(c) {
            let e = digit_run_end(s, p + 1);
            (TokenType::INT, s.subrange(p, e), e)
        } else if is_letter_char(c) {
            let e = ident_run_end(s, p + 1);
            (keyword_lookup(s.subrange(p, e)), s.subrange(p, e), e)
        } else {
            (TokenType::ILLEGAL, seq![c], p + 1)
        }
    }
}

/// What one `next_token` call scans from position `p`: whitespace is skipped,
/// then one token is read.
pub open spec fn spec_next_token(s: Seq<char>, p: int) -> (TokenType, Seq<char>, int) {
    spec_token_at(s, skip_ws_from(s, p))
}

/// The lexical scanner: the source text and a cursor, advanced one character
/// at a time with one character of lookahead.
#[derive(Debug)]
pub struct Lexer {
    input: String,
    nchars: usize,
    position: usize,
    read_position: usize,
    ch: char,
    keyworks: Vec<(String, TokenType)>,
}

impl Lexer {
    /// The scanned text, as a sequence of characters.
    pub closed spec fn inp(&self) -> Seq<char> {
        self.input@
    }

    /// The cursor: the index of the current character (the text's length once
    /// the end has been reached).
    pub closed spec fn pos(&self) -> int {
        self.position as int
    }

    /// The keyword table holds its seven fixed entries.
    closed spec fn keywords_ok(&self) -> bool {
        &&& self.keyworks@.len() == 7
    &&& self.keyworks@[0].0@ == "fn"@ && self.keyworks@[0].1 == TokenType::FUNCTION
    &&& self.keyworks@[1].0@ == "let"@ && self.keyworks@[1].1 == TokenType::LET
    &&& self.keyworks@[2].0@ == "true"@ && self.keyworks@[2].1 == TokenType::TRUE
    &&& self.keyworks@[3].0@ == "false"@ && self.keyworks@[3].1 == TokenType::FALSE
    &&& self.keyworks@[4].0@ == "if"@ && self.keyworks@[4].1 == TokenType::IF
    &&& self.keyworks@[5].0@ == "else"@ && self.keyworks@[5].1 == TokenType::ELSE
    &&& self.keyworks@[6].0@ == "return"@ && self.keyworks@[6].1 == TokenType::RETURN
    }

    /// Internal consistency: the cursor is in range, the lookahead index and
    /// the current character agree with it, and the keyword table is intact.
    pub closed spec fn wf(&self) -> bool {
        &&& self.nchars == self.input@.len()
        &&& self.position <= self.input@.len()
        &&& if self.position < self.input@.len() {
            self.read_position == self.position + 1
        } else {
            self.read_position == self.input@.len()
        }
        &&& self.ch == if self.position < self.input@.len() {
            self.input@[self.position as int]
        } else {
            '\0'
        }
        &&& self.keywords_ok()
    }

    pub fn new(input: String) -> (l: Self)
        ensures
            l.wf(),
            l.inp() == input@,
            l.pos() == 0,
    {
        let nchars = input.as_str().unicode_len();
        let mut l = Lexer {
            input,
            nchars,
            position: 0,
            read_position: 0,
            ch: '\0',
            keyworks: Vec::new(),
        };
        if nchars > 0 {
            l.ch = l.input.as_str().get_char(0);
            l.read_position = 1;
        }
        l.add_keywords();
        l
    }

    fn add_keywords(&mut self)
        requires
            old(self).keyworks@.len() == 0,
        ensures
            final(self).keywords_ok(),
            final(self).input == old(self).input,
            final(self).nchars == old(self).nchars,
            final(self).position == old(self).position,
            final(self).read_position == old(self).read_position,
            final(self).ch == old(self).ch,
    {
        self.keyworks.push(("fn".to_owned(), TokenType::FUNCTION));
        self.keyworks.push(("let".to_owned(), TokenType::LET));
        self.keyworks.push(("true".to_owned(), TokenType::TRUE));
        self.keyworks.push(("false".to_owned(), TokenType::FALSE));
        self.keyworks.push(("if".to_owned(), TokenType::IF));
        self.keyworks.push(("else".to_owned(), TokenType::ELSE));
        self.keyworks.push(("return".to_owned(), TokenType::RETURN));
    }

    fn lookup_ident(&self, ident: &String) -> (t: TokenType)
        requires
            self.wf(),
        ensures
            t == keyword_lookup(ident@),
    {
        if self.keyworks[0].0 == *ident {
            self.keyworks[0].1
        } else if self.keyworks[1].0 == *ident {
            self.keyworks[1].1
        } else if self.keyworks[2].0 == *ident {
            self.keyworks[2].1
        } else if self.keyworks[3].0 == *ident {
            self.keyworks[3].1
        } else if self.keyworks[4].0 == *ident {
            self.keyworks[4].1
        } else if self.keyworks[5].0 == *ident {
            self.keyworks[5].1
        } else if self.keyworks[6].0 == *ident {
            self.keyworks[6].1
        } else {
            TokenType::IDENT
        }
    }

    /// How many characters the scanned text holds.
    pub(crate) fn char_count(&self) -> (n: usize)
        requires
            self.wf(),
        ensures
            n == self.inp().len(),
    {
        self.nchars
    }

    /// Advance the cursor one character (staying put once past the end).
    pub fn read_char(&mut self)
        requires
            old(self).wf(),
        ensures
            final(self).wf(),
            final(self).inp() == old(self).inp(),
            final(self).pos() == if old(self).pos() + 1 <= old(self).inp().len() {
                old(self).pos() + 1
            } else {
                old(self).inp().len() as int
            },
    {
        if self.read_position >= self.nchars {
            self.ch = '\0';
            self.position = self.read_position;
        } else {
            self.ch = self.input.as_str().get_char(self.read_position);
            self.position = self.read_position;
            self.read_position = self.read_position + 1;
        }
    }

    fn skip_whitespace(&mut self)
        requires
            old(self).wf(),
        ensures
            final(self).wf(),
            final(self).inp() == old(self).inp(),
            final(self).pos() == skip_ws_from(old(self).inp(), old(self).pos()),
    {
        while self.ch == ' ' || self.ch == '\n' || self.ch == '\r' || self.ch == '\t'
            invariant
                self.wf(),
                self.inp() == old(self).inp(),
                skip_ws_from(self.inp(), old(self).pos()) == skip_ws_from(self.inp(), self.pos()),
            decreases self.inp().len() - self.pos(),
        {
            self.read_char();
        }
    }

    fn peek_char(&self) -> (c: char)
        requires
            self.wf(),
        ensures
            c == if self.pos() + 1 < self.inp().len() {
                self.inp()[self.pos() + 1]
            } else {
                '\0'
            },
    {
        if self.read_position >= self.nchars {
            '\0'
        } else {
            self.input.as_str().get_char(self.read_position)
        }
    }

    fn read_number(&mut self) -> (r: String)
        requires
            old(self).wf(),
            old(self).pos() < old(self).inp().len(),
            is_digit_char(old(self).inp()[old(self).pos()]),
        ensures
            final(self).wf(),
            final(self).inp() == old(self).inp(),
            r@ == old(self).inp().subrange(
                old(self).pos(),
                digit_run_end(old(self).inp(), old(self).pos()),
            ),
            final(self).pos() == digit_run_end(old(self).inp(), old(self).pos()) - 1,
    {
        let ghost s = self.inp();
        let ghost e = digit_run_end(s, old(self).pos());
        let start = self.position;
        loop
            invariant
                self.wf(),
                self.inp() == s,
                start as int == old(self).pos(),
                start as int <= self.pos() < s.len(),
                is_digit_char(s[self.pos()]),
                e == digit_run_end(s, start as int),
                e == digit_run_end(s, self.pos() + 1),
            ensures
                self.wf(),
                self.inp() == s,
                start as int <= self.pos() < s.len(),
                self.pos() == e - 1,
            decreases s.len() - self.pos(),
        {
            let p = self.peek_char();
            let u = p as u32;
            if !(48 <= u && u <= 57) {
                break;
            }
            self.read_char();
        }
        let r = self.input.as_str().substring_char(start, self.read_position).to_owned();
        r
    }

    fn read_identifier(&mut self) -> (r: String)
        requires
            old(self).wf(),
            old(self).pos() < old(self).inp().len(),
            is_letter_char(old(self).inp()[old(self).pos()]),
        ensures
            final(self).wf(),
            final(self).inp() == old(self).inp(),
            r@ == old(self).inp().subrange(
                old(self).pos(),
                ident_run_end(old(self).inp(), old(self).pos()),
            ),
            final(self).pos() == ident_run_end(old(self).inp(), old(self).pos()) - 1,
    {
        let ghost s = self.inp();
        let ghost e = ident_run_end(s, old(self).pos());
        let start = self.position;
        loop
            invariant
                self.wf(),
                self.inp() == s,
                start as int == old(self).pos(),
                start as int <= self.pos() < s.len(),
                e == ident_run_end(s, start as int),
                e == ident_run_end(s, self.pos() + 1),
            ensures
                self.wf(),
                self.inp() == s,
                start as int <= self.pos() < s.len(),
                self.pos() == e - 1,
            decreases s.len() - self.pos(),
        {
            let p = self.peek_char();
            let u = p as u32;
            let cont = (65 <= u && u <= 90) || (97 <= u && u <= 122) || (48 <= u && u <= 57) || u
                == 95;
            if !cont {
                break;
            }
            self.read_char();
        }
        let r = self.input.as_str().substring_char(start, self.read_position).to_owned();
        r
    }

    fn read_string(&mut self) -> (r: String)
        requires
            old(self).wf(),
            old(self).pos() < old(self).inp().len(),
            old(self).inp()[old(self).pos()] == '"',
        ensures
            final(self).wf(),
            final(self).inp() == old(self).inp(),
            r@ == old(self).inp().subrange(
                old(self).pos() + 1,
                string_end(old(self).inp(), old(self).pos() + 1),
            ),
            final(self).pos() == string_end(old(self).inp(), old(self).pos() + 1),
    {
        let ghost s = self.inp();
        let ghost e = string_end(s, old(self).pos() + 1);
        let start = self.position + 1;
        self.read_char();
        while self.position < self.nchars && self.ch != '"'
            invariant
                self.wf(),
                self.inp() == s,
                start as int == old(self).pos() + 1,
                start as int <= self.pos() <= s.len(),
                e == string_end(s, start as int),
                e == string_end(s, self.pos()),
            decreases s.len() - self.pos(),
        {
            self.read_char();
        }
        let r = self.input.as_str().substring_char(start, self.position).to_owned();
        r
    }

    /// Scan and return exactly one token, skipping leading whitespace, and
    /// leave the cursor just past the token's last character.
    pub fn next_token(&mut self) -> (t: Token)
        requires
            old(self).wf(),
        ensures
            final(self).wf(),
            final(self).inp() == old(self).inp(),
            ({
                let (ty, lit, end) = spec_next_token(old(self).inp(), old(self).pos());
                &&& t.token_type == ty
                &&& t.literal@ == lit
                &&& final(self).pos() == if end <= old(self).inp().len() {
                    end
                } else {
                    old(self).inp().len() as int
                }
            }),
    {
        self.skip_whitespace();
        let ghost s = self.inp();
        let ghost p = self.pos();
        let token: Token;
        if self.position >= self.nchars {
            token = Token::new(TokenType::EOF, '\0');
        } else {
            let c = self.ch;
            if c == '=' {
                if self.peek_char() == '=' {
                    self.read_char();
                    proof {
                        reveal_strlit("==");
                        assert("=="@ =~= s.subrange(p, p + 2));
                    }
                    token = Token { token_type: TokenType::EQ, literal: "==".to_owned() };
                } else {
                    token = Token::new(TokenType::ASSIGN, c);
                }
            } else if c == '!' {
                if self.peek_char() == '=' {
                    self.read_char();
                    proof {
                        reveal_strlit("!=");
                        assert("!="@ =~= s.subrange(p, p + 2));
                    }
                    token = Token { token_type: TokenType::NOTEQ, literal: "!=".to_owned() };
                } else {
                    token = Token::new(TokenType::BANG, c);
                }
            } else if c == '>' {
                if self.peek_char() == '=' {
                    self.read_char();
                    proof {
                        reveal_strlit(">=");
                        assert(">="@ =~= s.subrange(p, p + 2));
                    }
                    token = Token { token_type: TokenType::GTE, literal: ">=".to_owned() };
                } else {
                    token = Token::new(TokenType::GT, c);
                }
            } else if c == '<' {
                if self.peek_char() == '=' {
                    self.read_char();
                    proof {
                        reveal_strlit("<=");
                        assert("<="@ =~= s.subrange(p, p + 2));
                    }
                    token = Token { token_type: TokenType::LTE, literal: "<=".to_owned() };
                } else {
                    token = Token::new(TokenType::LT, c);
                }
            } else if c == ';' {
                token = Token::new(TokenType::SEMICOLON, c);
            } else if c == ':' {
                token = Token::new(TokenType::COLON, c);
            } else if c == '(' {
                token = Token::new(TokenType::LPAREN, c);
            } else if c == ')' {
                token = Token::new(TokenType::RPAREN, c);
            } else if c == '{' {
                token = Token::new(TokenType::LBRACE, c);
            } else if c == '}' {
                token = Token::new(TokenType::RBRACE, c);
            } else if c == '+' {
                token = Token::new(TokenType::PLUS, c);
            } else if c == '-' {
                token = Token::new(TokenType::MINUS, c);
            } else if c == '*' {
                token = Token::new(TokenType::ASTERISK, c);
            } else if c == '/' {
                token = Token::new(TokenType::SLASH, c);
            } else if c == ',' {
                token = Token::new(TokenType::COMA, c);
            } else if c == '[' {
                token = Token::new(TokenType::LBRACKET, c);
            } else if c == ']' {
                token = Token::new(TokenType::RBRACKET, c);
            } else if c == '"' {
                let lit = self.read_string();
                token = Token { token_type: TokenType::STRING, literal: lit };
            } else {
                let u = c as u32;
                if 48 <= u && u <= 57 {
                    let number = self.read_number();
                    token = Token { token_type: TokenType::INT, literal: number };
                } else if (65 <= u && u <= 90) || (97 <= u && u <= 122) {
                    let identifier = self.read_identifier();
                    let ty = self.lookup_ident(&identifier);
                    token = Token { token_type: ty, literal: identifier };
                } else {
                    token = Token::new(TokenType::ILLEGAL, c);
                }
            }
        }
        self.read_char();
        token
    }
}

} // verus!
