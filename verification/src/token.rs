//! Tokens of the Lua 5.5 grammar.

use vstd::prelude::*;
use vstd::string::StringExecFns;

use crate::fmt::{debug_string, debug_text, i64_text, int_text, push_radix, radix_digits};

verus! {

/// Every terminal token of the Lua 5.5 grammar (Lua 5.4 is a supported subset).
///
/// A float literal keeps the text it was written with.
#[derive(Debug, Clone, PartialEq)]
pub enum Token {
    /// A comment; the lexer skips comments and never emits this.
    Comment,
    StringLit(String),
    Float(String),
    HexInteger(i64),
    Integer(i64),
    /// `and`
    And,
    /// `break`
    Break,
    /// `do`
    Do,
    /// `else`
    Else,
    /// `elseif`
    Elseif,
    /// `end`
    End,
    /// `false`
    False,
    /// `for`
    For,
    /// `function`
    Function,
    /// `goto`
    Goto,
    /// `if`
    If,
    /// `in`
    In,
    /// `local`
    Local,
    /// `nil`
    Nil,
    /// `not`
    Not,
    /// `or`
    Or,
    /// `repeat`
    Repeat,
    /// `return`
    Return,
    /// `then`
    Then,
    /// `true`
    True,
    /// `until`
    Until,
    /// `while`
    While,
    Ident(String),
    /// The `const` attribute name (matched by name in the parser, never lexed).
    AttrConst,
    /// The `close` attribute name (matched by name in the parser, never lexed).
    AttrClose,
    /// `==`
    Eq,
    /// `~=`
    TildeEq,
    /// `<=`
    LtEq,
    /// `>=`
    GtEq,
    /// `<<`
    LtLt,
    /// `>>`
    GtGt,
    /// `//`
    DoubleSlash,
    /// `::`
    DblColon,
    /// `..`
    DotDot,
    /// `...`
    DotDotDot,
    /// `+`
    Plus,
    /// `-`
    Minus,
    /// `*`
    Star,
    /// `/`
    Slash,
    /// `%`
    Percent,
    /// `^`
    Caret,
    /// `#`
    Hash,
    /// `&`
    Ampersand,
    /// `~`
    Tilde,
    /// `|`
    Pipe,
    /// `<`
    Lt,
    /// `>`
    Gt,
    /// `=`
    Assign,
    LParen,
    RParen,
    LBrace,
    RBrace,
    LBracket,
    RBracket,
    /// `;`
    Semicolon,
    /// `:`
    Colon,
    /// `,`
    Comma,
    /// `.`
    Dot,
    /// End of input.
    Eof,
}

/// The variant of a token, without its payload.
#[derive(Debug, Clone, Copy, PartialEq, Eq, Structural)]
pub enum TokenKind {
    Comment,
    StringLit,
    Float,
    HexInteger,
    Integer,
    And,
    Break,
    Do,
    Else,
    Elseif,
    End,
    False,
    For,
    Function,
    Goto,
    If,
    In,
    Local,
    Nil,
    Not,
    Or,
    Repeat,
    Return,
    Then,
    True,
    Until,
    While,
    Ident,
    AttrConst,
    AttrClose,
    Eq,
    TildeEq,
    LtEq,
    GtEq,
    LtLt,
    GtGt,
    DoubleSlash,
    DblColon,
    DotDot,
    DotDotDot,
    Plus,
    Minus,
    Star,
    Slash,
    Percent,
    Caret,
    Hash,
    Ampersand,
    Tilde,
    Pipe,
    Lt,
    Gt,
    Assign,
    LParen,
    RParen,
    LBrace,
    RBrace,
    LBracket,
    RBracket,
    Semicolon,
    Colon,
    Comma,
    Dot,
    Eof,
}

/// The content of a token.
pub ghost enum TokenV {
    Str(Seq<char>),
    Float(Seq<char>),
    Hex(i64),
    Int(i64),
    Name(Seq<char>),
    Sym(TokenKind),
}

pub open spec fn kind_of(t: Token) -> TokenKind {
    match t {
        Token::Comment => TokenKind::Comment,
        Token::And => TokenKind::And,
        Token::Break => TokenKind::Break,
        Token::Do => TokenKind::Do,
        Token::Else => TokenKind::Else,
        Token::Elseif => TokenKind::Elseif,
        Token::End => TokenKind::End,
        Token::False => TokenKind::False,
        Token::For => TokenKind::For,
        Token::Function => TokenKind::Function,
        Token::Goto => TokenKind::Goto,
        Token::If => TokenKind::If,
        Token::In => TokenKind::In,
        Token::Local => TokenKind::Local,
        Token::Nil => TokenKind::Nil,
        Token::Not => TokenKind::Not,
        Token::Or => TokenKind::Or,
        Token::Repeat => TokenKind::Repeat,
        Token::Return => TokenKind::Return,
        Token::Then => TokenKind::Then,
        Token::True => TokenKind::True,
        Token::Until => TokenKind::Until,
        Token::While => TokenKind::While,
        Token::AttrConst => TokenKind::AttrConst,
        Token::AttrClose => TokenKind::AttrClose,
        Token::Eq => TokenKind::Eq,
        Token::TildeEq => TokenKind::TildeEq,
        Token::LtEq => TokenKind::LtEq,
        Token::GtEq => TokenKind::GtEq,
        Token::LtLt => TokenKind::LtLt,
        Token::GtGt => TokenKind::GtGt,
        Token::DoubleSlash => TokenKind::DoubleSlash,
        Token::DblColon => TokenKind::DblColon,
        Token::DotDot => TokenKind::DotDot,
        Token::DotDotDot => TokenKind::DotDotDot,
        Token::Plus => TokenKind::Plus,
        Token::Minus => TokenKind::Minus,
        Token::Star => TokenKind::Star,
        Token::Slash => TokenKind::Slash,
        Token::Percent => TokenKind::Percent,
        Token::Caret => TokenKind::Caret,
        Token::Hash => TokenKind::Hash,
        Token::Ampersand => TokenKind::Ampersand,
        Token::Tilde => TokenKind::Tilde,
        Token::Pipe => TokenKind::Pipe,
        Token::Lt => TokenKind::Lt,
        Token::Gt => TokenKind::Gt,
        Token::Assign => TokenKind::Assign,
        Token::LParen => TokenKind::LParen,
        Token::RParen => TokenKind::RParen,
        Token::LBrace => TokenKind::LBrace,
        Token::RBrace => TokenKind::RBrace,
        Token::LBracket => TokenKind::LBracket,
        Token::RBracket => TokenKind::RBracket,
        Token::Semicolon => TokenKind::Semicolon,
        Token::Colon => TokenKind::Colon,
        Token::Comma => TokenKind::Comma,
        Token::Dot => TokenKind::Dot,
        Token::Eof => TokenKind::Eof,
        Token::StringLit(_) => TokenKind::StringLit,
        Token::Float(_) => TokenKind::Float,
        Token::HexInteger(_) => TokenKind::HexInteger,
        Token::Integer(_) => TokenKind::Integer,
        Token::Ident(_) => TokenKind::Ident,
    }
}

pub open spec fn view_token(t: Token) -> TokenV {
    match t {
        Token::StringLit(s) => TokenV::Str(s@),
        Token::Float(s) => TokenV::Float(s@),
        Token::HexInteger(v) => TokenV::Hex(v),
        Token::Integer(v) => TokenV::Int(v),
        Token::Ident(s) => TokenV::Name(s@),
        _ => TokenV::Sym(kind_of(t)),
    }
}

/// The token of a fieldless kind.
pub open spec fn is_plain_kind(k: TokenKind) -> bool {
    !(k == TokenKind::StringLit || k == TokenKind::Float || k == TokenKind::HexInteger
        || k == TokenKind::Integer || k == TokenKind::Ident)
}

impl Token {
    /// The variant of this token.
    pub fn kind(&self) -> (r: TokenKind)
        ensures
            r == kind_of(*self),
    {
        match self {
            Token::Comment => TokenKind::Comment,
            Token::And => TokenKind::And,
            Token::Break => TokenKind::Break,
            Token::Do => TokenKind::Do,
            Token::Else => TokenKind::Else,
            Token::Elseif => TokenKind::Elseif,
            Token::End => TokenKind::End,
            Token::False => TokenKind::False,
            Token::For => TokenKind::For,
            Token::Function => TokenKind::Function,
            Token::Goto => TokenKind::Goto,
            Token::If => TokenKind::If,
            Token::In => TokenKind::In,
            Token::Local => TokenKind::Local,
            Token::Nil => TokenKind::Nil,
            Token::Not => TokenKind::Not,
            Token::Or => TokenKind::Or,
            Token::Repeat => TokenKind::Repeat,
            Token::Return => TokenKind::Return,
            Token::Then => TokenKind::Then,
            Token::True => TokenKind::True,
            Token::Until => TokenKind::Until,
            Token::While => TokenKind::While,
            Token::AttrConst => TokenKind::AttrConst,
            Token::AttrClose => TokenKind::AttrClose,
            Token::Eq => TokenKind::Eq,
            Token::TildeEq => TokenKind::TildeEq,
            Token::LtEq => TokenKind::LtEq,
            Token::GtEq => TokenKind::GtEq,
            Token::LtLt => TokenKind::LtLt,
            Token::GtGt => TokenKind::GtGt,
            Token::DoubleSlash => TokenKind::DoubleSlash,
            Token::DblColon => TokenKind::DblColon,
            Token::DotDot => TokenKind::DotDot,
            Token::DotDotDot => TokenKind::DotDotDot,
            Token::Plus => TokenKind::Plus,
            Token::Minus => TokenKind::Minus,
            Token::Star => TokenKind::Star,
            Token::Slash => TokenKind::Slash,
            Token::Percent => TokenKind::Percent,
            Token::Caret => TokenKind::Caret,
            Token::Hash => TokenKind::Hash,
            Token::Ampersand => TokenKind::Ampersand,
            Token::Tilde => TokenKind::Tilde,
            Token::Pipe => TokenKind::Pipe,
            Token::Lt => TokenKind::Lt,
            Token::Gt => TokenKind::Gt,
            Token::Assign => TokenKind::Assign,
            Token::LParen => TokenKind::LParen,
            Token::RParen => TokenKind::RParen,
            Token::LBrace => TokenKind::LBrace,
            Token::RBrace => TokenKind::RBrace,
            Token::LBracket => TokenKind::LBracket,
            Token::RBracket => TokenKind::RBracket,
            Token::Semicolon => TokenKind::Semicolon,
            Token::Colon => TokenKind::Colon,
            Token::Comma => TokenKind::Comma,
            Token::Dot => TokenKind::Dot,
            Token::Eof => TokenKind::Eof,
            Token::StringLit(_) => TokenKind::StringLit,
            Token::Float(_) => TokenKind::Float,
            Token::HexInteger(_) => TokenKind::HexInteger,
            Token::Integer(_) => TokenKind::Integer,
            Token::Ident(_) => TokenKind::Ident,
        }
    }

    /// The fieldless token of kind `k`.
    pub fn plain(k: TokenKind) -> (r: Token)
        requires
            is_plain_kind(k),
        ensures
            kind_of(r) == k,
            view_token(r) == TokenV::Sym(k),
    {
        match k {
            TokenKind::Comment => Token::Comment,
            TokenKind::And => Token::And,
            TokenKind::Break => Token::Break,
            TokenKind::Do => Token::Do,
            TokenKind::Else => Token::Else,
            TokenKind::Elseif => Token::Elseif,
            TokenKind::End => Token::End,
            TokenKind::False => Token::False,
            TokenKind::For => Token::For,
            TokenKind::Function => Token::Function,
            TokenKind::Goto => Token::Goto,
            TokenKind::If => Token::If,
            TokenKind::In => Token::In,
            TokenKind::Local => Token::Local,
            TokenKind::Nil => Token::Nil,
            TokenKind::Not => Token::Not,
            TokenKind::Or => Token::Or,
            TokenKind::Repeat => Token::Repeat,
            TokenKind::Return => Token::Return,
            TokenKind::Then => Token::Then,
            TokenKind::True => Token::True,
            TokenKind::Until => Token::Until,
            TokenKind::While => Token::While,
            TokenKind::AttrConst => Token::AttrConst,
            TokenKind::AttrClose => Token::AttrClose,
            TokenKind::Eq => Token::Eq,
            TokenKind::TildeEq => Token::TildeEq,
            TokenKind::LtEq => Token::LtEq,
            TokenKind::GtEq => Token::GtEq,
            TokenKind::LtLt => Token::LtLt,
            TokenKind::GtGt => Token::GtGt,
            TokenKind::DoubleSlash => Token::DoubleSlash,
            TokenKind::DblColon => Token::DblColon,
            TokenKind::DotDot => Token::DotDot,
            TokenKind::DotDotDot => Token::DotDotDot,
            TokenKind::Plus => Token::Plus,
            TokenKind::Minus => Token::Minus,
            TokenKind::Star => Token::Star,
            TokenKind::Slash => Token::Slash,
            TokenKind::Percent => Token::Percent,
            TokenKind::Caret => Token::Caret,
            TokenKind::Hash => Token::Hash,
            TokenKind::Ampersand => Token::Ampersand,
            TokenKind::Tilde => Token::Tilde,
            TokenKind::Pipe => Token::Pipe,
            TokenKind::Lt => Token::Lt,
            TokenKind::Gt => Token::Gt,
            TokenKind::Assign => Token::Assign,
            TokenKind::LParen => Token::LParen,
            TokenKind::RParen => Token::RParen,
            TokenKind::LBrace => Token::LBrace,
            TokenKind::RBrace => Token::RBrace,
            TokenKind::LBracket => Token::LBracket,
            TokenKind::RBracket => Token::RBracket,
            TokenKind::Semicolon => Token::Semicolon,
            TokenKind::Colon => Token::Colon,
            TokenKind::Comma => Token::Comma,
            TokenKind::Dot => Token::Dot,
            TokenKind::Eof => Token::Eof,
            _ => Token::Eof,
        }
    }
}

/// The keyword spelled `name`, if it is one.
pub open spec fn keyword(name: Seq<char>) -> Option<TokenKind> {
    if name == "and"@ {
        Some(TokenKind::And)
    } else if name == "break"@ {
        Some(TokenKind::Break)
    } else if name == "do"@ {
        Some(TokenKind::Do)
    } else if name == "else"@ {
        Some(TokenKind::Else)
    } else if name == "elseif"@ {
        Some(TokenKind::Elseif)
    } else if name == "end"@ {
        Some(TokenKind::End)
    } else if name == "false"@ {
        Some(TokenKind::False)
    } else if name == "for"@ {
        Some(TokenKind::For)
    } else if name == "function"@ {
        Some(TokenKind::Function)
    } else if name == "goto"@ {
        Some(TokenKind::Goto)
    } else if name == "if"@ {
        Some(TokenKind::If)
    } else if name == "in"@ {
        Some(TokenKind::In)
    } else if name == "local"@ {
        Some(TokenKind::Local)
    } else if name == "nil"@ {
        Some(TokenKind::Nil)
    } else if name == "not"@ {
        Some(TokenKind::Not)
    } else if name == "or"@ {
        Some(TokenKind::Or)
    } else if name == "repeat"@ {
        Some(TokenKind::Repeat)
    } else if name == "return"@ {
        Some(TokenKind::Return)
    } else if name == "then"@ {
        Some(TokenKind::Then)
    } else if name == "true"@ {
        Some(TokenKind::True)
    } else if name == "until"@ {
        Some(TokenKind::Until)
    } else if name == "while"@ {
        Some(TokenKind::While)
    } else {
        None
    }
}

fn chars_eq(s: &Vec<char>, from: usize, to: usize, lit: &str) -> (r: bool)
    requires
        from <= to <= s.len(),
    ensures
        r == (s@.subrange(from as int, to as int) == lit@),
{
    let n = lit.unicode_len();
    if to - from != n {
        proof {
            assert(s@.subrange(from as int, to as int).len() != lit@.len());
        }
        return false;
    }
    let mut k: usize = 0;
    while k < n
        invariant
            n == lit@.len(),
            to - from == n,
            from <= to <= s.len(),
            k <= n,
            forall|m: int| 0 <= m < k ==> s@[from + m] == lit@[m],
        decreases n - k,
    {
        if s[from + k] != lit.get_char(k) {
            proof {
                assert(s@.subrange(from as int, to as int)[k as int] != lit@[k as int]);
            }
            return false;
        }
        k += 1;
    }
    proof {
        assert(s@.subrange(from as int, to as int) =~= lit@);
    }
    true
}

/// The keyword spelled by `s[from..to]`, if it is one.
pub fn keyword_exec(s: &Vec<char>, from: usize, to: usize) -> (r: Option<TokenKind>)
    requires
        from <= to <= s.len(),
    ensures
        r == keyword(s@.subrange(from as int, to as int)),
{
    proof {
        reveal_strlit("and");
        reveal_strlit("break");
        reveal_strlit("do");
        reveal_strlit("else");
        reveal_strlit("elseif");
        reveal_strlit("end");
        reveal_strlit("false");
        reveal_strlit("for");
        reveal_strlit("function");
        reveal_strlit("goto");
        reveal_strlit("if");
        reveal_strlit("in");
        reveal_strlit("local");
        reveal_strlit("nil");
        reveal_strlit("not");
        reveal_strlit("or");
        reveal_strlit("repeat");
        reveal_strlit("return");
        reveal_strlit("then");
        reveal_strlit("true");
        reveal_strlit("until");
        reveal_strlit("while");
    }
    if chars_eq(s, from, to, "and") {
        return Some(TokenKind::And);
    }
    if chars_eq(s, from, to, "break") {
        return Some(TokenKind::Break);
    }
    if chars_eq(s, from, to, "do") {
        return Some(TokenKind::Do);
    }
    if chars_eq(s, from, to, "else") {
        return Some(TokenKind::Else);
    }
    if chars_eq(s, from, to, "elseif") {
        return Some(TokenKind::Elseif);
    }
    if chars_eq(s, from, to, "end") {
        return Some(TokenKind::End);
    }
    if chars_eq(s, from, to, "false") {
        return Some(TokenKind::False);
    }
    if chars_eq(s, from, to, "for") {
        return Some(TokenKind::For);
    }
    if chars_eq(s, from, to, "function") {
        return Some(TokenKind::Function);
    }
    if chars_eq(s, from, to, "goto") {
        return Some(TokenKind::Goto);
    }
    if chars_eq(s, from, to, "if") {
        return Some(TokenKind::If);
    }
    if chars_eq(s, from, to, "in") {
        return Some(TokenKind::In);
    }
    if chars_eq(s, from, to, "local") {
        return Some(TokenKind::Local);
    }
    if chars_eq(s, from, to, "nil") {
        return Some(TokenKind::Nil);
    }
    if chars_eq(s, from, to, "not") {
        return Some(TokenKind::Not);
    }
    if chars_eq(s, from, to, "or") {
        return Some(TokenKind::Or);
    }
    if chars_eq(s, from, to, "repeat") {
        return Some(TokenKind::Repeat);
    }
    if chars_eq(s, from, to, "return") {
        return Some(TokenKind::Return);
    }
    if chars_eq(s, from, to, "then") {
        return Some(TokenKind::Then);
    }
    if chars_eq(s, from, to, "true") {
        return Some(TokenKind::True);
    }
    if chars_eq(s, from, to, "until") {
        return Some(TokenKind::Until);
    }
    if chars_eq(s, from, to, "while") {
        return Some(TokenKind::While);
    }
    None
}


/// How a token of a fieldless kind is named in messages.
pub open spec fn kind_text(k: TokenKind) -> Seq<char> {
    match k {
        TokenKind::And => "`and`"@,
        TokenKind::Break => "`break`"@,
        TokenKind::Do => "`do`"@,
        TokenKind::Else => "`else`"@,
        TokenKind::Elseif => "`elseif`"@,
        TokenKind::End => "`end`"@,
        TokenKind::False => "`false`"@,
        TokenKind::For => "`for`"@,
        TokenKind::Function => "`function`"@,
        TokenKind::Goto => "`goto`"@,
        TokenKind::If => "`if`"@,
        TokenKind::In => "`in`"@,
        TokenKind::Local => "`local`"@,
        TokenKind::Nil => "`nil`"@,
        TokenKind::Not => "`not`"@,
        TokenKind::Or => "`or`"@,
        TokenKind::Repeat => "`repeat`"@,
        TokenKind::Return => "`return`"@,
        TokenKind::Then => "`then`"@,
        TokenKind::True => "`true`"@,
        TokenKind::Until => "`until`"@,
        TokenKind::While => "`while`"@,
        TokenKind::AttrConst => "`const`"@,
        TokenKind::AttrClose => "`close`"@,
        TokenKind::Eq => "`==`"@,
        TokenKind::TildeEq => "`~=`"@,
        TokenKind::LtEq => "`<=`"@,
        TokenKind::GtEq => "`>=`"@,
        TokenKind::LtLt => "`<<`"@,
        TokenKind::GtGt => "`>>`"@,
        TokenKind::DoubleSlash => "`//`"@,
        TokenKind::DblColon => "`::`"@,
        TokenKind::DotDot => "`..`"@,
        TokenKind::DotDotDot => "`...`"@,
        TokenKind::Plus => "`+`"@,
        TokenKind::Minus => "`-`"@,
        TokenKind::Star => "`*`"@,
        TokenKind::Slash => "`/`"@,
        TokenKind::Percent => "`%`"@,
        TokenKind::Caret => "`^`"@,
        TokenKind::Hash => "`#`"@,
        TokenKind::Ampersand => "`&`"@,
        TokenKind::Tilde => "`~`"@,
        TokenKind::Pipe => "`|`"@,
        TokenKind::Lt => "`<`"@,
        TokenKind::Gt => "`>`"@,
        TokenKind::Assign => "`=`"@,
        TokenKind::LParen => "`(`"@,
        TokenKind::RParen => "`)`"@,
        TokenKind::LBrace => "`{`"@,
        TokenKind::RBrace => "`}`"@,
        TokenKind::LBracket => "`[`"@,
        TokenKind::RBracket => "`]`"@,
        TokenKind::Semicolon => "`;`"@,
        TokenKind::Colon => "`:`"@,
        TokenKind::Comma => "`,`"@,
        TokenKind::Dot => "`.`"@,
        TokenKind::Comment => "comment"@,
        TokenKind::Eof => "end of file"@,
        _ => Seq::empty(),
    }
}

fn kind_text_exec(k: TokenKind) -> (r: String)
    ensures
        r@ == kind_text(k),
{
    match k {
        TokenKind::And => "`and`".to_owned(),
        TokenKind::Break => "`break`".to_owned(),
        TokenKind::Do => "`do`".to_owned(),
        TokenKind::Else => "`else`".to_owned(),
        TokenKind::Elseif => "`elseif`".to_owned(),
        TokenKind::End => "`end`".to_owned(),
        TokenKind::False => "`false`".to_owned(),
        TokenKind::For => "`for`".to_owned(),
        TokenKind::Function => "`function`".to_owned(),
        TokenKind::Goto => "`goto`".to_owned(),
        TokenKind::If => "`if`".to_owned(),
        TokenKind::In => "`in`".to_owned(),
        TokenKind::Local => "`local`".to_owned(),
        TokenKind::Nil => "`nil`".to_owned(),
        TokenKind::Not => "`not`".to_owned(),
        TokenKind::Or => "`or`".to_owned(),
        TokenKind::Repeat => "`repeat`".to_owned(),
        TokenKind::Return => "`return`".to_owned(),
        TokenKind::Then => "`then`".to_owned(),
        TokenKind::True => "`true`".to_owned(),
        TokenKind::Until => "`until`".to_owned(),
        TokenKind::While => "`while`".to_owned(),
        TokenKind::AttrConst => "`const`".to_owned(),
        TokenKind::AttrClose => "`close`".to_owned(),
        TokenKind::Eq => "`==`".to_owned(),
        TokenKind::TildeEq => "`~=`".to_owned(),
        TokenKind::LtEq => "`<=`".to_owned(),
        TokenKind::GtEq => "`>=`".to_owned(),
        TokenKind::LtLt => "`<<`".to_owned(),
        TokenKind::GtGt => "`>>`".to_owned(),
        TokenKind::DoubleSlash => "`//`".to_owned(),
        TokenKind::DblColon => "`::`".to_owned(),
        TokenKind::DotDot => "`..`".to_owned(),
        TokenKind::DotDotDot => "`...`".to_owned(),
        TokenKind::Plus => "`+`".to_owned(),
        TokenKind::Minus => "`-`".to_owned(),
        TokenKind::Star => "`*`".to_owned(),
        TokenKind::Slash => "`/`".to_owned(),
        TokenKind::Percent => "`%`".to_owned(),
        TokenKind::Caret => "`^`".to_owned(),
        TokenKind::Hash => "`#`".to_owned(),
        TokenKind::Ampersand => "`&`".to_owned(),
        TokenKind::Tilde => "`~`".to_owned(),
        TokenKind::Pipe => "`|`".to_owned(),
        TokenKind::Lt => "`<`".to_owned(),
        TokenKind::Gt => "`>`".to_owned(),
        TokenKind::Assign => "`=`".to_owned(),
        TokenKind::LParen => "`(`".to_owned(),
        TokenKind::RParen => "`)`".to_owned(),
        TokenKind::LBrace => "`{`".to_owned(),
        TokenKind::RBrace => "`}`".to_owned(),
        TokenKind::LBracket => "`[`".to_owned(),
        TokenKind::RBracket => "`]`".to_owned(),
        TokenKind::Semicolon => "`;`".to_owned(),
        TokenKind::Colon => "`:`".to_owned(),
        TokenKind::Comma => "`,`".to_owned(),
        TokenKind::Dot => "`.`".to_owned(),
        TokenKind::Comment => "comment".to_owned(),
        TokenKind::Eof => "end of file".to_owned(),
        _ => String::new(),
    }
}

/// How a token is named in messages.
pub open spec fn describe_text(t: TokenV) -> Seq<char> {
    match t {
        TokenV::Int(n) => "integer `"@ + int_text(n as int) + "`"@,
        TokenV::Hex(n) => "integer `0x"@ + radix_digits((n as u64) as nat, 16) + "`"@,
        TokenV::Float(s) => "float `"@ + s + "`"@,
        TokenV::Str(s) => "string `"@ + debug_text(s) + "`"@,
        TokenV::Name(s) => "`"@ + s + "`"@,
        TokenV::Sym(k) => kind_text(k),
    }
}

impl Token {
    /// Short human-readable name for use in diagnostic messages.
    pub fn describe(&self) -> (r: String)
        ensures
            r@ == describe_text(view_token(*self)),
    {
        match self {
            Token::Integer(n) => {
                let mut m = "integer `".to_owned();
                m.append(i64_text(*n).as_str());
                m.append("`");
                m
            },
            Token::HexInteger(n) => {
                let mut m = "integer `0x".to_owned();
                push_radix(&mut m, *n as u64, 16);
                m.append("`");
                m
            },
            Token::Float(s) => {
                let mut m = "float `".to_owned();
                m.append(s.as_str());
                m.append("`");
                m
            },
            Token::StringLit(s) => {
                let mut m = "string `".to_owned();
                m.append(debug_string(s.as_str()).as_str());
                m.append("`");
                m
            },
            Token::Ident(s) => {
                let mut m = "`".to_owned();
                m.append(s.as_str());
                m.append("`");
                m
            },
            _ => kind_text_exec(self.kind()),
        }
    }
}

} // verus!
