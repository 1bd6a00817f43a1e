use vstd::prelude::*;
use vstd::string::*;

use crate::text::{chars_to_string, push_decimal, push_int, spec_decimal, spec_int_text, str_chars, str_eq_chars};
use crate::traits::Iter;

verus! {

/// Operators of the language.
#[derive(Debug, Clone, Copy, PartialEq, Eq, Structural)]
pub enum Op {
    Nop,
    Add,
    Sub,
    Mul,
    Div,
    Pwr,
    Mod,
    Lsl,
    Lsr,
    Asr,
    BwNot,
    BwOr,
    BwAnd,
    BwXor,
    LgNot,
    LgOr,
    LgAnd,
    Asgn,
    AddAsgn,
    SubAsgn,
    MulAsgn,
    DivAsgn,
    PwrAsgn,
    ModAsgn,
    AndAsgn,
    OrAsgn,
    XorAsgn,
    LslAsgn,
    LsrAsgn,
    Eq,
    Neq,
    Lt,
    Gt,
    Lte,
    Gte,
    ThinArrow,
}

/// An interned identifier: its index in the symbol table.
#[derive(Debug, Clone, Copy, PartialEq, Eq, Hash, Structural)]
pub struct Symbol(pub u32);

/// The kinds of tokens.
#[derive(Debug, Clone, Copy, PartialEq, Eq, Structural)]
pub enum TokenType {
    KwInt,
    KwFloat,
    KwChar,
    KwString,
    KwBool,
    KwReturn,
    KwFn,
    KwLet,
    KwMut,
    KwIf,
    KwElif,
    KwElse,
    KwWhile,
    KwExit,
    Op(Op),
    Semi,
    Colon,
    Lparen,
    Rparen,
    Lcurly,
    Rcurly,
    Lsquare,
    Rsquare,
    Comma,
    IntLit(i128),
    VarIdent(Symbol),
    Ti8,
    Tu8,
    Ti16,
    Tu16,
    Ti32,
    Tu32,
    Ti64,
    Tu64,
    Tf32,
    Tf64,
    Tusize,
    Tbyte,
    Tchar,
    Tstring,
    Tbool,
    Null,
    WhiteSpace,
    NewLine,
}

/// A line and column in the source text.
#[derive(Debug, Clone, Copy, PartialEq, Eq, Hash, Structural)]
pub struct LocData {
    pub line: usize,
    pub col: usize,
}

/// A token with the place where it ends in the source.
#[derive(Debug, Clone, Copy, PartialEq, Eq, Structural)]
pub struct Token {
    pub kind: TokenType,
    pub loc: LocData,
}

/// Errors of the tokenizer.
#[derive(Debug, Clone, Copy, PartialEq, Eq, Structural)]
pub enum LexError {
    /// An integer literal whose value exceeds the range of `i128`.
    IntLitOverflow,
}

pub open spec fn spec_is_op(k: TokenType) -> bool {
    k is Op
}

pub open spec fn spec_is_type_token(k: TokenType) -> bool {
    ||| k is Ti8
    ||| k is Tu8
    ||| k is Ti16
    ||| k is Tu16
    ||| k is Ti32
    ||| k is Tu32
    ||| k is Ti64
    ||| k is Tu64
    ||| k is Tf32
    ||| k is Tf64
    ||| k is Tusize
    ||| k is Tbyte
    ||| k is Tchar
    ||| k is Tstring
    ||| k is Tbool
}

/// The single characters that `char_to_token` maps to a token kind.
pub open spec fn spec_is_mapped_char(ch: char) -> bool {
    ch == ' ' || ch == '\n' || ch == ';' || ch == ':' || ch == '(' || ch == ')' || ch == '{'
        || ch == '}' || ch == '[' || ch == ']' || ch == ','
}

pub open spec fn spec_char_to_token(ch: char) -> TokenType {
    if ch == ' ' {
        TokenType::WhiteSpace
    } else if ch == '\n' {
        TokenType::NewLine
    } else if ch == ';' {
        TokenType::Semi
    } else if ch == ':' {
        TokenType::Colon
    } else if ch == '(' {
        TokenType::Lparen
    } else if ch == ')' {
        TokenType::Rparen
    } else if ch == '{' {
        TokenType::Lcurly
    } else if ch == '}' {
        TokenType::Rcurly
    } else if ch == '[' {
        TokenType::Lsquare
    } else if ch == ',' {
        TokenType::Comma
    } else {
        TokenType::Rsquare
    }
}

impl TokenType {
    pub fn is_op(&self) -> (r: bool)
        ensures
            r == spec_is_op(*self),
    {
        match *self {
            TokenType::Op(_) => true,
            _ => false,
        }
    }

    /// Whether the token names a type (`i8`, `u64`, `usize`, ...).
    pub fn is_type_token(&self) -> (r: bool)
        ensures
            r == spec_is_type_token(*self),
    {
        match *self {
            TokenType::Ti8 | TokenType::Tu8 | TokenType::Ti16 | TokenType::Tu16 | TokenType::Ti32
            | TokenType::Tu32 | TokenType::Ti64 | TokenType::Tu64 | TokenType::Tf32
            | TokenType::Tf64 | TokenType::Tusize | TokenType::Tbyte | TokenType::Tchar
            | TokenType::Tstring | TokenType::Tbool => true,
            _ => false,
        }
    }

    /// The token of a single delimiter character.
    pub fn char_to_token(ch: char) -> (r: TokenType)
        requires
            spec_is_mapped_char(ch),
        ensures
            r == spec_char_to_token(ch),
    {
        match ch {
            ' ' => TokenType::WhiteSpace,
            '\n' => TokenType::NewLine,
            ';' => TokenType::Semi,
            ':' => TokenType::Colon,
            '(' => TokenType::Lparen,
            ')' => TokenType::Rparen,
            '{' => TokenType::Lcurly,
            '}' => TokenType::Rcurly,
            '[' => TokenType::Lsquare,
            ',' => TokenType::Comma,
            _ => TokenType::Rsquare,
        }
    }
}

// ---------------------------------------------------------------------------
// Operator and token text

pub open spec fn spec_op_symbol(op: Op) -> Seq<char> {
    match op {
        Op::Nop => "NOP"@,
        Op::Add => "+"@,
        Op::Sub => "-"@,
        Op::Mul => "*"@,
        Op::Div => "/"@,
        Op::Pwr => "**"@,
        Op::Mod => "%"@,
        Op::Lsl => "<<"@,
        Op::Lsr => ">>"@,
        Op::Asr => ">>>"@,
        Op::BwNot => "~"@,
        Op::BwOr => "|"@,
        Op::BwAnd => "&"@,
        Op::BwXor => "^"@,
        Op::LgNot => "!"@,
        Op::LgOr => "||"@,
        Op::LgAnd => "&&"@,
        Op::Asgn => "="@,
        Op::AddAsgn => "+="@,
        Op::SubAsgn => "-="@,
        Op::MulAsgn => "*="@,
        Op::DivAsgn => "/="@,
        Op::PwrAsgn => "**="@,
        Op::ModAsgn => "%="@,
        Op::AndAsgn => "&="@,
        Op::OrAsgn => "|="@,
        Op::XorAsgn => "^="@,
        Op::LslAsgn => "<<="@,
        Op::LsrAsgn => ">>="@,
        Op::Eq => "=="@,
        Op::Neq => "!="@,
        Op::Lt => "<"@,
        Op::Gt => ">"@,
        Op::Lte => "<="@,
        Op::Gte => ">="@,
        Op::ThinArrow => "->"@,
    }
}

pub open spec fn spec_op_name(op: Op) -> Seq<char> {
    match op {
        Op::Nop => "Nop"@,
        Op::Add => "Add"@,
        Op::Sub => "Sub"@,
        Op::Mul => "Mul"@,
        Op::Div => "Div"@,
        Op::Pwr => "Pwr"@,
        Op::Mod => "Mod"@,
        Op::Lsl => "Lsl"@,
        Op::Lsr => "Lsr"@,
        Op::Asr => "Asr"@,
        Op::BwNot => "BwNot"@,
        Op::BwOr => "BwOr"@,
        Op::BwAnd => "BwAnd"@,
        Op::BwXor => "BwXor"@,
        Op::LgNot => "LgNot"@,
        Op::LgOr => "LgOr"@,
        Op::LgAnd => "LgAnd"@,
        Op::Asgn => "Asgn"@,
        Op::AddAsgn => "AddAsgn"@,
        Op::SubAsgn => "SubAsgn"@,
        Op::MulAsgn => "MulAsgn"@,
        Op::DivAsgn => "DivAsgn"@,
        Op::PwrAsgn => "PwrAsgn"@,
        Op::ModAsgn => "ModAsgn"@,
        Op::AndAsgn => "AndAsgn"@,
        Op::OrAsgn => "OrAsgn"@,
        Op::XorAsgn => "XorAsgn"@,
        Op::LslAsgn => "LslAsgn"@,
        Op::LsrAsgn => "LsrAsgn"@,
        Op::Eq => "Eq"@,
        Op::Neq => "Neq"@,
        Op::Lt => "Lt"@,
        Op::Gt => "Gt"@,
        Op::Lte => "Lte"@,
        Op::Gte => "Gte"@,
        Op::ThinArrow => "ThinArrow"@,
    }
}

impl Op {
    /// The operator as written in source (its `Display` text).
    pub fn symbol(&self) -> (r: &'static str)
        ensures
            r@ == spec_op_symbol(*self),
    {
        match *self {
            Op::Nop => "NOP",
            Op::Add => "+",
            Op::Sub => "-",
            Op::Mul => "*",
            Op::Div => "/",
            Op::Pwr => "**",
            Op::Mod => "%",
            Op::Lsl => "<<",
            Op::Lsr => ">>",
            Op::Asr => ">>>",
            Op::BwNot => "~",
            Op::BwOr => "|",
            Op::BwAnd => "&",
            Op::BwXor => "^",
            Op::LgNot => "!",
            Op::LgOr => "||",
            Op::LgAnd => "&&",
            Op::Asgn => "=",
            Op::AddAsgn => "+=",
            Op::SubAsgn => "-=",
            Op::MulAsgn => "*=",
            Op::DivAsgn => "/=",
            Op::PwrAsgn => "**=",
            Op::ModAsgn => "%=",
            Op::AndAsgn => "&=",
            Op::OrAsgn => "|=",
            Op::XorAsgn => "^=",
            Op::LslAsgn => "<<=",
            Op::LsrAsgn => ">>=",
            Op::Eq => "==",
            Op::Neq => "!=",
            Op::Lt => "<",
            Op::Gt => ">",
            Op::Lte => "<=",
            Op::Gte => ">=",
            Op::ThinArrow => "->",
        }
    }

    /// The name of the operator variant (its `Debug` text).
    pub fn name(&self) -> (r: &'static str)
        ensures
            r@ == spec_op_name(*self),
    {
        match *self {
            Op::Nop => "Nop",
            Op::Add => "Add",
            Op::Sub => "Sub",
            Op::Mul => "Mul",
            Op::Div => "Div",
            Op::Pwr => "Pwr",
            Op::Mod => "Mod",
            Op::Lsl => "Lsl",
            Op::Lsr => "Lsr",
            Op::Asr => "Asr",
            Op::BwNot => "BwNot",
            Op::BwOr => "BwOr",
            Op::BwAnd => "BwAnd",
            Op::BwXor => "BwXor",
            Op::LgNot => "LgNot",
            Op::LgOr => "LgOr",
            Op::LgAnd => "LgAnd",
            Op::Asgn => "Asgn",
            Op::AddAsgn => "AddAsgn",
            Op::SubAsgn => "SubAsgn",
            Op::MulAsgn => "MulAsgn",
            Op::DivAsgn => "DivAsgn",
            Op::PwrAsgn => "PwrAsgn",
            Op::ModAsgn => "ModAsgn",
            Op::AndAsgn => "AndAsgn",
            Op::OrAsgn => "OrAsgn",
            Op::XorAsgn => "XorAsgn",
            Op::LslAsgn => "LslAsgn",
            Op::LsrAsgn => "LsrAsgn",
            Op::Eq => "Eq",
            Op::Neq => "Neq",
            Op::Lt => "Lt",
            Op::Gt => "Gt",
            Op::Lte => "Lte",
            Op::Gte => "Gte",
            Op::ThinArrow => "ThinArrow",
        }
    }

    /// The operator that a token holds, `Nop` for any other token.
    pub fn from_token(t: Token) -> (r: Op)
        ensures
            r == (match t.kind {
                TokenType::Op(op) => op,
                _ => Op::Nop,
            }),
    {
        match t.kind {
            TokenType::Op(op) => op,
            _ => Op::Nop,
        }
    }
}

pub open spec fn spec_kind_name(k: TokenType) -> Seq<char> {
    match k {
        TokenType::KwInt => "KwInt"@,
        TokenType::KwFloat => "KwFloat"@,
        TokenType::KwChar => "KwChar"@,
        TokenType::KwString => "KwString"@,
        TokenType::KwBool => "KwBool"@,
        TokenType::KwReturn => "KwReturn"@,
        TokenType::KwFn => "KwFn"@,
        TokenType::KwLet => "KwLet"@,
        TokenType::KwMut => "KwMut"@,
        TokenType::KwIf => "KwIf"@,
        TokenType::KwElif => "KwElif"@,
        TokenType::KwElse => "KwElse"@,
        TokenType::KwWhile => "KwWhile"@,
        TokenType::KwExit => "KwExit"@,
        TokenType::Op(_) => "Op"@,
        TokenType::Semi => "Semi"@,
        TokenType::Colon => "Colon"@,
        TokenType::Lparen => "Lparen"@,
        TokenType::Rparen => "Rparen"@,
        TokenType::Lcurly => "Lcurly"@,
        TokenType::Rcurly => "Rcurly"@,
        TokenType::Lsquare => "Lsquare"@,
        TokenType::Rsquare => "Rsquare"@,
        TokenType::Comma => "Comma"@,
        TokenType::IntLit(_) => "IntLit"@,
        TokenType::VarIdent(_) => "VarIdent"@,
        TokenType::Ti8 => "Ti8"@,
        TokenType::Tu8 => "Tu8"@,
        TokenType::Ti16 => "Ti16"@,
        TokenType::Tu16 => "Tu16"@,
        TokenType::Ti32 => "Ti32"@,
        TokenType::Tu32 => "Tu32"@,
        TokenType::Ti64 => "Ti64"@,
        TokenType::Tu64 => "Tu64"@,
        TokenType::Tf32 => "Tf32"@,
        TokenType::Tf64 => "Tf64"@,
        TokenType::Tusize => "Tusize"@,
        TokenType::Tbyte => "Tbyte"@,
        TokenType::Tchar => "Tchar"@,
        TokenType::Tstring => "Tstring"@,
        TokenType::Tbool => "Tbool"@,
        TokenType::Null => "Null"@,
        TokenType::WhiteSpace => "WhiteSpace"@,
        TokenType::NewLine => "NewLine"@,
    }
}

/// The `Debug` text of a token kind, such as `VarIdent(Symbol(3))`.
pub open spec fn spec_kind_text(k: TokenType) -> Seq<char> {
    match k {
        TokenType::Op(op) => "Op("@ + spec_op_name(op) + ")"@,
        TokenType::IntLit(v) => "IntLit("@ + spec_int_text(v as int) + ")"@,
        TokenType::VarIdent(s) => "VarIdent(Symbol("@ + spec_decimal(s.0 as nat) + "))"@,
        _ => spec_kind_name(k),
    }
}

/// The `Debug` text of a location.
pub open spec fn spec_loc_debug(l: LocData) -> Seq<char> {
    "LocData { line: "@ + spec_decimal(l.line as nat) + ", col: "@ + spec_decimal(
        l.col as nat,
    ) + " }"@
}

/// The `Debug` text of a token.
pub open spec fn spec_token_text(t: Token) -> Seq<char> {
    "Token { kind: "@ + spec_kind_text(t.kind) + ", loc: "@ + spec_loc_debug(t.loc) + " }"@
}

/// The `Display` text of a location: `line:col`.
pub open spec fn spec_loc_text(l: LocData) -> Seq<char> {
    spec_decimal(l.line as nat) + ":"@ + spec_decimal(l.col as nat)
}

impl TokenType {
    fn name(&self) -> (r: &'static str)
        ensures
            r@ == spec_kind_name(*self),
    {
        match *self {
            TokenType::KwInt => "KwInt",
            TokenType::KwFloat => "KwFloat",
            TokenType::KwChar => "KwChar",
            TokenType::KwString => "KwString",
            TokenType::KwBool => "KwBool",
            TokenType::KwReturn => "KwReturn",
            TokenType::KwFn => "KwFn",
            TokenType::KwLet => "KwLet",
            TokenType::KwMut => "KwMut",
            TokenType::KwIf => "KwIf",
            TokenType::KwElif => "KwElif",
            TokenType::KwElse => "KwElse",
            TokenType::KwWhile => "KwWhile",
            TokenType::KwExit => "KwExit",
            TokenType::Op(_) => "Op",
            TokenType::Semi => "Semi",
            TokenType::Colon => "Colon",
            TokenType::Lparen => "Lparen",
            TokenType::Rparen => "Rparen",
            TokenType::Lcurly => "Lcurly",
            TokenType::Rcurly => "Rcurly",
            TokenType::Lsquare => "Lsquare",
            TokenType::Rsquare => "Rsquare",
            TokenType::Comma => "Comma",
            TokenType::IntLit(_) => "IntLit",
            TokenType::VarIdent(_) => "VarIdent",
            TokenType::Ti8 => "Ti8",
            TokenType::Tu8 => "Tu8",
            TokenType::Ti16 => "Ti16",
            TokenType::Tu16 => "Tu16",
            TokenType::Ti32 => "Ti32",
            TokenType::Tu32 => "Tu32",
            TokenType::Ti64 => "Ti64",
            TokenType::Tu64 => "Tu64",
            TokenType::Tf32 => "Tf32",
            TokenType::Tf64 => "Tf64",
            TokenType::Tusize => "Tusize",
            TokenType::Tbyte => "Tbyte",
            TokenType::Tchar => "Tchar",
            TokenType::Tstring => "Tstring",
            TokenType::Tbool => "Tbool",
            TokenType::Null => "Null",
            TokenType::WhiteSpace => "WhiteSpace",
            TokenType::NewLine => "NewLine",
        }
    }

    /// Appends the `Debug` text of the token kind.
    pub fn push_text(&self, s: &mut String)
        ensures
            final(s)@ == old(s)@ + spec_kind_text(*self),
    {
        match *self {
            TokenType::Op(op) => {
                s.append("Op(");
                s.append(op.name());
                s.append(")");
                assert(final(s)@ =~= old(s)@ + spec_kind_text(*self));
            },
            TokenType::IntLit(v) => {
                s.append("IntLit(");
                push_int(s, v);
                s.append(")");
                assert(final(s)@ =~= old(s)@ + spec_kind_text(*self));
            },
            TokenType::VarIdent(sym) => {
                s.append("VarIdent(Symbol(");
                push_decimal(s, sym.0 as u128);
                s.append("))");
                assert(final(s)@ =~= old(s)@ + spec_kind_text(*self));
            },
            _ => {
                s.append(self.name());
            },
        }
    }
}

impl LocData {
    /// Appends the `Debug` text of the location.
    pub fn push_debug(&self, s: &mut String)
        ensures
            final(s)@ == old(s)@ + spec_loc_debug(*self),
    {
        s.append("LocData { line: ");
        push_decimal(s, self.line as u128);
        s.append(", col: ");
        push_decimal(s, self.col as u128);
        s.append(" }");
        assert(final(s)@ =~= old(s)@ + spec_loc_debug(*self));
    }

    /// Appends the `Display` text of the location (`line:col`).
    pub fn push_text(&self, s: &mut String)
        ensures
            final(s)@ == old(s)@ + spec_loc_text(*self),
    {
        push_decimal(s, self.line as u128);
        s.append(":");
        push_decimal(s, self.col as u128);
        assert(final(s)@ =~= old(s)@ + spec_loc_text(*self));
    }
}

impl Token {
    /// Appends the `Debug` text of the token.
    pub fn push_text(&self, s: &mut String)
        ensures
            final(s)@ == old(s)@ + spec_token_text(*self),
    {
        s.append("Token { kind: ");
        self.kind.push_text(s);
        s.append(", loc: ");
        self.loc.push_debug(s);
        s.append(" }");
        assert(final(s)@ =~= old(s)@ + spec_token_text(*self));
    }
}

// ---------------------------------------------------------------------------
// Symbol table

/// The interned identifiers of a source file; a symbol is an index into it.
#[derive(Debug)]
pub struct SymbolTable {
    pub symbols: Vec<String>,
}

impl View for SymbolTable {
    type V = Seq<Seq<char>>;

    open spec fn view(&self) -> Seq<Seq<char>> {
        self.symbols@.map_values(|s: String| s@)
    }
}

/// Whether no name occurs twice.
pub open spec fn spec_unique(syms: Seq<Seq<char>>) -> bool {
    forall|i: int, j: int| 0 <= i < syms.len() && 0 <= j < syms.len() && syms[i] == syms[j] ==> i == j
}

/// The symbol of `name` after interning it: its index if it is present, else
/// the next index, at which it is appended.
pub open spec fn spec_intern(syms: Seq<Seq<char>>, name: Seq<char>) -> (Seq<Seq<char>>, Symbol) {
    if syms.contains(name) {
        (syms, Symbol(syms.index_of(name) as u32))
    } else {
        (syms.push(name), Symbol(syms.len() as u32))
    }
}

impl SymbolTable {
    /// Names are unique, and every index fits a `Symbol`.
    pub open spec fn wf(&self) -> bool {
        &&& spec_unique(self@)
        &&& self@.len() <= u32::MAX
    }

    pub fn new() -> (r: SymbolTable)
        ensures
            r@ == Seq::<Seq<char>>::empty(),
            r.wf(),
    {
        let r = SymbolTable { symbols: Vec::new() };
        assert(r@ =~= Seq::<Seq<char>>::empty());
        r
    }

    fn push(&mut self, id: &Vec<char>) -> (sym: Symbol)
        requires
            old(self).wf(),
            old(self)@.len() < u32::MAX,
            !old(self)@.contains(id@),
        ensures
            final(self)@ == old(self)@.push(id@),
            sym == Symbol(old(self)@.len() as u32),
            final(self).wf(),
    {
        let s = chars_to_string(id);
        self.symbols.push(s);
        assert(self@ =~= old(self)@.push(id@));
        Symbol((self.symbols.len() - 1) as u32)
    }

    /// The symbol of a name, if it is interned.
    pub fn lookup(&self, id: &Vec<char>) -> (r: Option<Symbol>)
        requires
            self.wf(),
        ensures
            r == (if self@.contains(id@) {
                Some(Symbol(self@.index_of(id@) as u32))
            } else {
                None::<Symbol>
            }),
    {
        let mut i: usize = 0;
        while i < self.symbols.len()
            invariant
                i <= self.symbols.len(),
                self.wf(),
                forall|j: int| 0 <= j < i ==> self@[j] != id@,
            decreases self.symbols.len() - i,
        {
            if str_eq_chars(self.symbols[i].as_str(), id.as_slice()) {
                assert(self@[i as int] == id@);
                assert(self@.contains(id@));
                proof {
                    let k = self@.index_of(id@);
                    assert(self@[k] == id@);
                }
                return Some(Symbol(i as u32));
            }
            i = i + 1;
        }
        assert(!self@.contains(id@));
        None
    }

    /// The name of a symbol, if the symbol is in the table.
    pub fn get(&self, sym: Symbol) -> (r: Option<String>)
        ensures
            match r {
                Some(s) => sym.0 < self@.len() && s@ == self@[sym.0 as int],
                None => sym.0 >= self@.len(),
            },
    {
        let idx = sym.0 as usize;
        if idx < self.symbols.len() {
            Some(self.symbols[idx].clone())
        } else {
            None
        }
    }

    /// Whether the symbol is in the table.
    pub fn contains(&self, sym: Symbol) -> (r: bool)
        ensures
            r == (sym.0 < self@.len()),
    {
        (sym.0 as usize) < self.symbols.len()
    }

    /// The symbol of a name: the existing one, or a new one appended to the table.
    fn intern(&mut self, id: &Vec<char>) -> (sym: Symbol)
        requires
            old(self).wf(),
            old(self)@.len() < u32::MAX,
        ensures
            (final(self)@, sym) == spec_intern(old(self)@, id@),
            final(self).wf(),
    {
        match self.lookup(id) {
            Some(s) => s,
            None => self.push(id),
        }
    }
}

/// Interning keeps the names unique, and the symbol it gives names the
/// interned text.
pub proof fn lemma_intern(syms: Seq<Seq<char>>, name: Seq<char>)
    requires
        spec_unique(syms),
        syms.len() < u32::MAX,
    ensures
        spec_unique(spec_intern(syms, name).0),
        spec_intern(syms, name).1.0 < spec_intern(syms, name).0.len(),
        spec_intern(syms, name).0[spec_intern(syms, name).1.0 as int] == name,
        syms.is_prefix_of(spec_intern(syms, name).0),
{
    if syms.contains(name) {
        let k = syms.index_of(name);
        assert(syms[k] == name);
        assert(syms.is_prefix_of(syms));
    } else {
        let s2 = syms.push(name);
        assert forall|i: int, j: int|
            0 <= i < s2.len() && 0 <= j < s2.len() && s2[i] == s2[j] implies i == j by {
            if i < syms.len() && j == syms.len() {
                assert(syms.contains(s2[i]));
            }
            if j < syms.len() && i == syms.len() {
                assert(syms.contains(s2[j]));
            }
        }
        assert(syms.is_prefix_of(s2)) by {
            assert(s2.subrange(0, syms.len() as int) =~= syms);
        }
    }
}

// ---------------------------------------------------------------------------
// Character classes

pub open spec fn spec_is_alnum(c: char) -> bool {
    ('0' <= c && c <= '9') || ('a' <= c && c <= 'z') || ('A' <= c && c <= 'Z')
}

pub open spec fn spec_is_word_char(c: char) -> bool {
    spec_is_alnum(c) || c == '_'
}

pub open spec fn spec_is_digit(c: char) -> bool {
    '0' <= c && c <= '9'
}

/// Characters that end a word and may themselves be a token.
pub open spec fn spec_is_delim(c: char) -> bool {
    spec_is_mapped_char(c)
}

/// Characters that continue an operator.
pub open spec fn spec_is_op_char(c: char) -> bool {
    c == '+' || c == '-' || c == '*' || c == '/' || c == '<' || c == '>' || c == '=' || c == '|'
        || c == '&' || c == '^' || c == '!' || c == '%'
}

fn is_word_char(c: char) -> (r: bool)
    ensures
        r == spec_is_word_char(c),
{
    ('0' <= c && c <= '9') || ('a' <= c && c <= 'z') || ('A' <= c && c <= 'Z') || c == '_'
}

fn is_delim(c: char) -> (r: bool)
    ensures
        r == spec_is_delim(c),
{
    c == ' ' || c == '\n' || c == ';' || c == ':' || c == '(' || c == ')' || c == '{' || c == '}'
        || c == '[' || c == ']' || c == ','
}

fn is_op_char(c: char) -> (r: bool)
    ensures
        r == spec_is_op_char(c),
{
    c == '+' || c == '-' || c == '*' || c == '/' || c == '<' || c == '>' || c == '=' || c == '|'
        || c == '&' || c == '^' || c == '!' || c == '%'
}

pub open spec fn spec_all_word_chars(s: Seq<char>) -> bool {
    forall|i: int| 0 <= i < s.len() ==> spec_is_word_char(#[trigger] s[i])
}

pub open spec fn spec_all_digits(s: Seq<char>) -> bool {
    forall|i: int| 0 <= i < s.len() ==> spec_is_digit(#[trigger] s[i])
}

fn all_word_chars(s: &Vec<char>) -> (r: bool)
    ensures
        r == spec_all_word_chars(s@),
{
    let mut i: usize = 0;
    while i < s.len()
        invariant
            i <= s.len(),
            forall|j: int| 0 <= j < i ==> spec_is_word_char(#[trigger] s@[j]),
        decreases s.len() - i,
    {
        if !is_word_char(s[i]) {
            return false;
        }
        i = i + 1;
    }
    true
}

fn all_digits(s: &Vec<char>) -> (r: bool)
    ensures
        r == spec_all_digits(s@),
{
    let mut i: usize = 0;
    while i < s.len()
        invariant
            i <= s.len(),
            forall|j: int| 0 <= j < i ==> spec_is_digit(#[trigger] s@[j]),
        decreases s.len() - i,
    {
        if !('0' <= s[i] && s[i] <= '9') {
            return false;
        }
        i = i + 1;
    }
    true
}

// ---------------------------------------------------------------------------
// Classification of words and operators

/// The operator of one, two or three operator characters.
pub open spec fn spec_classify_op(s: Seq<char>) -> Op {
    if s.len() == 1 {
        let a = s[0];
        if a == '+' { Op::Add }
        else if a == '-' { Op::Sub }
        else if a == '*' { Op::Mul }
        else if a == '/' { Op::Div }
        else if a == '%' { Op::Mod }
        else if a == '&' { Op::BwAnd }
        else if a == '|' { Op::BwOr }
        else if a == '^' { Op::BwXor }
        else if a == '~' { Op::BwNot }
        else if a == '=' { Op::Asgn }
        else if a == '>' { Op::Gt }
        else if a == '<' { Op::Lt }
        else if a == '!' { Op::LgNot }
        else { Op::Nop }
    } else if s.len() == 2 {
        let a = s[0];
        let b = s[1];
        if a == '*' && b == '*' { Op::Pwr }
        else if a == '<' && b == '<' { Op::Lsl }
        else if a == '>' && b == '>' { Op::Lsr }
        else if a == '+' && b == '=' { Op::AddAsgn }
        else if a == '-' && b == '=' { Op::SubAsgn }
        else if a == '*' && b == '=' { Op::MulAsgn }
        else if a == '/' && b == '=' { Op::DivAsgn }
        else if a == '%' && b == '=' { Op::ModAsgn }
        else if a == '&' && b == '=' { Op::AndAsgn }
        else if a == '|' && b == '=' { Op::OrAsgn }
        else if a == '^' && b == '=' { Op::XorAsgn }
        else if a == '>' && b == '=' { Op::Gte }
        else if a == '<' && b == '=' { Op::Lte }
        else if a == '=' && b == '=' { Op::Eq }
        else if a == '!' && b == '=' { Op::Neq }
        else if a == '&' && b == '&' { Op::LgAnd }
        else if a == '|' && b == '|' { Op::LgOr }
        else if a == '-' && b == '>' { Op::ThinArrow }
        else { Op::Nop }
    } else if s.len() == 3 {
        let a = s[0];
        let b = s[1];
        let c = s[2];
        if a == '*' && b == '*' && c == '=' { Op::PwrAsgn }
        else if a == '<' && b == '<' && c == '=' { Op::LslAsgn }
        else if a == '>' && b == '>' && c == '=' { Op::LsrAsgn }
        else { Op::Nop }
    } else {
        Op::Nop
    }
}

/// The keyword or type name that a word is, if any.
pub open spec fn spec_keyword(s: Seq<char>) -> Option<TokenType> {
    if s == "int"@ { Some(TokenType::KwInt) }
    else if s == "float"@ { Some(TokenType::KwFloat) }
    else if s == "char"@ { Some(TokenType::KwChar) }
    else if s == "bool"@ { Some(TokenType::KwBool) }
    else if s == "string"@ { Some(TokenType::KwString) }
    else if s == "exit"@ { Some(TokenType::KwExit) }
    else if s == "let"@ { Some(TokenType::KwLet) }
    else if s == "mut"@ { Some(TokenType::KwMut) }
    else if s == "if"@ { Some(TokenType::KwIf) }
    else if s == "elif"@ { Some(TokenType::KwElif) }
    else if s == "else"@ { Some(TokenType::KwElse) }
    else if s == "while"@ { Some(TokenType::KwWhile) }
    else if s == "for"@ { Some(TokenType::KwWhile) }
    else if s == "fn"@ { Some(TokenType::KwFn) }
    else if s == "return"@ { Some(TokenType::KwReturn) }
    else if s == "i8"@ { Some(TokenType::Ti8) }
    else if s == "u8"@ { Some(TokenType::Tu8) }
    else if s == "i16"@ { Some(TokenType::Ti16) }
    else if s == "u16"@ { Some(TokenType::Tu16) }
    else if s == "i32"@ { Some(TokenType::Ti32) }
    else if s == "u32"@ { Some(TokenType::Tu32) }
    else if s == "i64"@ { Some(TokenType::Ti64) }
    else if s == "u64"@ { Some(TokenType::Tu64) }
    else if s == "f32"@ { Some(TokenType::Tf32) }
    else if s == "f64"@ { Some(TokenType::Tf64) }
    else if s == "usize"@ { Some(TokenType::Tusize) }
    else if s == "byte"@ { Some(TokenType::Tbyte) }
    else { None }
}

/// The value of a string of decimal digits.
pub open spec fn spec_digits_value(s: Seq<char>) -> nat
    decreases s.len(),
{
    if s.len() == 0 {
        0
    } else {
        spec_digits_value(s.drop_last()) * 10 + ((s.last() as int) - ('0' as int)) as nat
    }
}

/// A word that names something: not a keyword, not empty, and not a number.
pub open spec fn spec_is_name(s: Seq<char>) -> bool {
    spec_keyword(s) is None && s.len() > 0 && !spec_all_digits(s)
}

/// The token of a word, and the symbol table after interning it.
pub open spec fn spec_classify(syms: Seq<Seq<char>>, s: Seq<char>, loc: LocData) -> (
    Seq<Seq<char>>,
    Result<Token, LexError>,
) {
    match spec_keyword(s) {
        Some(k) => (syms, Ok(Token { kind: k, loc })),
        None => if s.len() == 0 {
            (syms, Ok(Token { kind: TokenType::Null, loc: LocData { line: 0, col: 0 } }))
        } else if spec_all_digits(s) {
            if spec_digits_value(s) <= i128::MAX {
                (
                    syms,
                    Ok(Token { kind: TokenType::IntLit(spec_digits_value(s) as i128), loc }),
                )
            } else {
                (syms, Err(LexError::IntLitOverflow))
            }
        } else {
            let (syms2, sym) = spec_intern(syms, s);
            (syms2, Ok(Token { kind: TokenType::VarIdent(sym), loc }))
        },
    }
}

proof fn lemma_digits_value_prefix(s: Seq<char>, i: int)
    requires
        0 <= i <= s.len(),
        spec_all_digits(s),
    ensures
        spec_digits_value(s.take(i)) <= spec_digits_value(s),
    decreases s.len() - i,
{
    if i < s.len() {
        lemma_digits_value_prefix(s, i + 1);
        assert(s.take(i + 1).drop_last() =~= s.take(i));
        assert(spec_is_digit(s[i]));
    } else {
        assert(s.take(i) =~= s);
    }
}

fn keyword(s: &Vec<char>) -> (r: Option<TokenType>)
    ensures
        r == spec_keyword(s@),
{
    let b = s.as_slice();
    if str_eq_chars("int", b) { Some(TokenType::KwInt) }
    else if str_eq_chars("float", b) { Some(TokenType::KwFloat) }
    else if str_eq_chars("char", b) { Some(TokenType::KwChar) }
    else if str_eq_chars("bool", b) { Some(TokenType::KwBool) }
    else if str_eq_chars("string", b) { Some(TokenType::KwString) }
    else if str_eq_chars("exit", b) { Some(TokenType::KwExit) }
    else if str_eq_chars("let", b) { Some(TokenType::KwLet) }
    else if str_eq_chars("mut", b) { Some(TokenType::KwMut) }
    else if str_eq_chars("if", b) { Some(TokenType::KwIf) }
    else if str_eq_chars("elif", b) { Some(TokenType::KwElif) }
    else if str_eq_chars("else", b) { Some(TokenType::KwElse) }
    else if str_eq_chars("while", b) { Some(TokenType::KwWhile) }
    else if str_eq_chars("for", b) { Some(TokenType::KwWhile) }
    else if str_eq_chars("fn", b) { Some(TokenType::KwFn) }
    else if str_eq_chars("return", b) { Some(TokenType::KwReturn) }
    else if str_eq_chars("i8", b) { Some(TokenType::Ti8) }
    else if str_eq_chars("u8", b) { Some(TokenType::Tu8) }
    else if str_eq_chars("i16", b) { Some(TokenType::Ti16) }
    else if str_eq_chars("u16", b) { Some(TokenType::Tu16) }
    else if str_eq_chars("i32", b) { Some(TokenType::Ti32) }
    else if str_eq_chars("u32", b) { Some(TokenType::Tu32) }
    else if str_eq_chars("i64", b) { Some(TokenType::Ti64) }
    else if str_eq_chars("u64", b) { Some(TokenType::Tu64) }
    else if str_eq_chars("f32", b) { Some(TokenType::Tf32) }
    else if str_eq_chars("f64", b) { Some(TokenType::Tf64) }
    else if str_eq_chars("usize", b) { Some(TokenType::Tusize) }
    else if str_eq_chars("byte", b) { Some(TokenType::Tbyte) }
    else { None }
}

/// The value of a string of digits, or `None` when it exceeds `i128::MAX`.
fn parse_digits(s: &Vec<char>) -> (r: Option<i128>)
    requires
        spec_all_digits(s@),
    ensures
        match r {
            Some(v) => spec_digits_value(s@) <= i128::MAX && v as int == spec_digits_value(s@),
            None => spec_digits_value(s@) > i128::MAX,
        },
{
    let mut acc: i128 = 0;
    let mut i: usize = 0;
    while i < s.len()
        invariant
            i <= s.len(),
            spec_all_digits(s@),
            acc as int == spec_digits_value(s@.take(i as int)),
            0 <= acc,
        decreases s.len() - i,
    {
        let c = s[i];
        assert(spec_is_digit(s@[i as int]));
        let d: i128 = ((c as u32) - ('0' as u32)) as i128;
        assert(s@.take(i + 1).drop_last() =~= s@.take(i as int));
        if acc > (i128::MAX - d) / 10 {
            proof {
                assert(spec_digits_value(s@.take(i + 1)) == acc * 10 + d);
                assert(acc * 10 + d > i128::MAX) by (nonlinear_arith)
                    requires
                        acc > (i128::MAX - d) / 10,
                        0 <= d < 10,
                ;
                lemma_digits_value_prefix(s@, i + 1);
            }
            return None;
        }
        assert(acc * 10 + d <= i128::MAX) by (nonlinear_arith)
            requires
                acc <= (i128::MAX - d) / 10,
                0 <= d < 10,
                0 <= acc,
        ;
        acc = acc * 10 + d;
        i = i + 1;
    }
    assert(s@.take(s.len() as int) =~= s@);
    Some(acc)
}

fn classify_op(s: &Vec<char>) -> (r: Op)
    ensures
        r == spec_classify_op(s@),
{
    if s.len() == 1 {
        let a = s[0];
        if a == '+' { Op::Add }
        else if a == '-' { Op::Sub }
        else if a == '*' { Op::Mul }
        else if a == '/' { Op::Div }
        else if a == '%' { Op::Mod }
        else if a == '&' { Op::BwAnd }
        else if a == '|' { Op::BwOr }
        else if a == '^' { Op::BwXor }
        else if a == '~' { Op::BwNot }
        else if a == '=' { Op::Asgn }
        else if a == '>' { Op::Gt }
        else if a == '<' { Op::Lt }
        else if a == '!' { Op::LgNot }
        else { Op::Nop }
    } else if s.len() == 2 {
        let a = s[0];
        let b = s[1];
        if a == '*' && b == '*' { Op::Pwr }
        else if a == '<' && b == '<' { Op::Lsl }
        else if a == '>' && b == '>' { Op::Lsr }
        else if a == '+' && b == '=' { Op::AddAsgn }
        else if a == '-' && b == '=' { Op::SubAsgn }
        else if a == '*' && b == '=' { Op::MulAsgn }
        else if a == '/' && b == '=' { Op::DivAsgn }
        else if a == '%' && b == '=' { Op::ModAsgn }
        else if a == '&' && b == '=' { Op::AndAsgn }
        else if a == '|' && b == '=' { Op::OrAsgn }
        else if a == '^' && b == '=' { Op::XorAsgn }
        else if a == '>' && b == '=' { Op::Gte }
        else if a == '<' && b == '=' { Op::Lte }
        else if a == '=' && b == '=' { Op::Eq }
        else if a == '!' && b == '=' { Op::Neq }
        else if a == '&' && b == '&' { Op::LgAnd }
        else if a == '|' && b == '|' { Op::LgOr }
        else if a == '-' && b == '>' { Op::ThinArrow }
        else { Op::Nop }
    } else if s.len() == 3 {
        let a = s[0];
        let b = s[1];
        let c = s[2];
        if a == '*' && b == '*' && c == '=' { Op::PwrAsgn }
        else if a == '<' && b == '<' && c == '=' { Op::LslAsgn }
        else if a == '>' && b == '>' && c == '=' { Op::LsrAsgn }
        else { Op::Nop }
    } else {
        Op::Nop
    }
}

// ---------------------------------------------------------------------------
// The tokenizer as a state machine over the characters of the source

/// What the tokenizer holds between two characters.
pub struct LexState {
    pub tokens: Seq<Token>,
    pub buf: Seq<char>,
    pub line: int,
    pub col: int,
    pub syms: Seq<Seq<char>>,
}

pub open spec fn spec_loc(st: LexState) -> LocData {
    LocData { line: st.line as usize, col: st.col as usize }
}

/// Emits the pending word, if any, as a token at `loc`.
pub open spec fn spec_flush(st: LexState, loc: LocData) -> (LexState, Option<LexError>) {
    let (syms2, r) = spec_classify(st.syms, st.buf, loc);
    match r {
        Ok(tok) => (
            LexState { tokens: st.tokens.push(tok), buf: Seq::empty(), syms: syms2, ..st },
            None,
        ),
        Err(e) => (st, Some(e)),
    }
}

/// A delimiter character: ends the pending word, counts a line on a newline,
/// and becomes a token itself unless it is white space.
pub open spec fn spec_delim(st: LexState, kind: TokenType) -> (LexState, Option<LexError>) {
    let loc = spec_loc(st);
    let (st1, e) = if st.buf.len() > 0 {
        spec_flush(st, loc)
    } else {
        (st, None)
    };
    if e is Some {
        (st1, e)
    } else {
        let st2 = if kind == TokenType::NewLine {
            LexState { line: st1.line + 1, ..st1 }
        } else {
            st1
        };
        let st3 = if kind != TokenType::WhiteSpace && kind != TokenType::NewLine {
            LexState { tokens: st2.tokens.push(Token { kind, loc }), ..st2 }
        } else {
            st2
        };
        (st3, None)
    }
}

/// The number of characters an operator starting at `i` takes: one, and up to
/// two more operator characters.
pub open spec fn spec_op_len(cs: Seq<char>, i: int) -> int {
    if i + 1 < cs.len() && spec_is_op_char(cs[i + 1]) {
        if i + 2 < cs.len() && spec_is_op_char(cs[i + 2]) {
            3
        } else {
            2
        }
    } else {
        1
    }
}

/// Tokenizes `cs` from index `i` on; gives the state where it stops, and the
/// error that stopped it, if any.
pub open spec fn spec_lex_from(cs: Seq<char>, i: int, st: LexState) -> (LexState, Option<LexError>)
    decreases cs.len() - i,
{
    if i < 0 || i >= cs.len() {
        (st, None)
    } else {
        let ch = cs[i];
        let st1 = LexState { col: st.col + 1, ..st };
        if spec_is_delim(ch) {
            let (st2, e) = spec_delim(st1, spec_char_to_token(ch));
            if e is Some {
                (st2, e)
            } else {
                spec_lex_from(cs, i + 1, st2)
            }
        } else if spec_is_word_char(ch) {
            spec_lex_from(cs, i + 1, LexState { buf: st1.buf.push(ch), ..st1 })
        } else {
            let (st2, e) = if st1.buf.len() > 0 && spec_all_word_chars(st1.buf) {
                spec_flush(st1, spec_loc(st1))
            } else {
                (st1, None)
            };
            if e is Some {
                (st2, e)
            } else {
                let n = spec_op_len(cs, i);
                let text = st2.buf + cs.subrange(i, i + n);
                let col2 = st2.col + n - 1;
                let tok = Token {
                    kind: TokenType::Op(spec_classify_op(text)),
                    loc: LocData { line: st2.line as usize, col: col2 as usize },
                };
                spec_lex_from(
                    cs,
                    i + n,
                    LexState { tokens: st2.tokens.push(tok), buf: Seq::empty(), col: col2, ..st2 },
                )
            }
        }
    }
}

/// Tokenizing the whole of `cs` from a lexer state.
pub open spec fn spec_tokenize(cs: Seq<char>, st: LexState) -> (LexState, Option<LexError>) {
    spec_lex_from(cs, 0, st)
}

/// Every identifier token names an interned symbol, and no token is white
/// space, a newline or `Null`.
pub open spec fn spec_tokens_ok(tokens: Seq<Token>, syms: Seq<Seq<char>>) -> bool {
    forall|i: int|
        #![trigger tokens[i]]
        0 <= i < tokens.len() ==> {
            &&& (tokens[i].kind matches TokenType::VarIdent(s) ==> s.0 < syms.len())
            &&& tokens[i].kind != TokenType::WhiteSpace
            &&& tokens[i].kind != TokenType::NewLine
            &&& tokens[i].kind != TokenType::Null
        }
}

pub open spec fn spec_state_ok(st: LexState) -> bool {
    &&& spec_unique(st.syms)
    &&& spec_tokens_ok(st.tokens, st.syms)
    &&& spec_all_word_chars(st.buf)
}

proof fn lemma_flush_ok(st: LexState, loc: LocData)
    requires
        spec_state_ok(st),
        st.buf.len() > 0,
        st.syms.len() < u32::MAX,
    ensures
        spec_state_ok(spec_flush(st, loc).0),
        spec_flush(st, loc).0.syms.len() <= st.syms.len() + 1,
        st.syms.is_prefix_of(spec_flush(st, loc).0.syms),
{
    lemma_intern(st.syms, st.buf);
    let (st2, e) = spec_flush(st, loc);
    if e is None {
        let (syms2, r) = spec_classify(st.syms, st.buf, loc);
        let tok = r->Ok_0;
        assert(st.syms.is_prefix_of(syms2)) by {
            if syms2 == st.syms {
                assert(st.syms.subrange(0, st.syms.len() as int) =~= st.syms);
            }
        }
        assert forall|i: int| 0 <= i < st2.tokens.len() implies {
            &&& (st2.tokens[i].kind matches TokenType::VarIdent(s) ==> s.0 < syms2.len())
            &&& st2.tokens[i].kind != TokenType::WhiteSpace
            &&& st2.tokens[i].kind != TokenType::NewLine
            &&& st2.tokens[i].kind != TokenType::Null
        } by {
            if i < st.tokens.len() {
                assert(st2.tokens[i] == st.tokens[i]);
            } else {
                assert(st2.tokens[i] == tok);
            }
        }
        assert(spec_all_word_chars(st2.buf));
    } else {
        assert(st.syms.subrange(0, st.syms.len() as int) =~= st.syms);
    }
}

/// Tokenizing never names a symbol that is not in the table, never emits
/// white space, newline or `Null` tokens, and keeps the table's names unique.
pub proof fn lemma_lex_ok(cs: Seq<char>, i: int, st: LexState)
    requires
        spec_state_ok(st),
        0 <= i,
        st.syms.len() + cs.len() - i < u32::MAX,
    ensures
        spec_state_ok(spec_lex_from(cs, i, st).0),
    decreases cs.len() - i,
{
    if i < cs.len() {
        let ch = cs[i];
        let st1 = LexState { col: st.col + 1, ..st };
        if spec_is_delim(ch) {
            let kind = spec_char_to_token(ch);
            let loc = spec_loc(st1);
            if st1.buf.len() > 0 {
                lemma_flush_ok(st1, loc);
            }
            let (st2, e) = spec_delim(st1, kind);
            if e is None {
                let (sf, _) = if st1.buf.len() > 0 { spec_flush(st1, loc) } else { (st1, None) };
                assert(spec_state_ok(sf));
                assert(sf.syms.len() <= st.syms.len() + 1);
                assert(spec_state_ok(st2)) by {
                    assert forall|k: int| 0 <= k < st2.tokens.len() implies {
                        &&& (st2.tokens[k].kind matches TokenType::VarIdent(s) ==> s.0
                            < st2.syms.len())
                        &&& st2.tokens[k].kind != TokenType::WhiteSpace
                        &&& st2.tokens[k].kind != TokenType::NewLine
                        &&& st2.tokens[k].kind != TokenType::Null
                    } by {
                        if k < sf.tokens.len() {
                            assert(st2.tokens[k] == sf.tokens[k]);
                        }
                    }
                }
                lemma_lex_ok(cs, i + 1, st2);
            }
        } else if spec_is_word_char(ch) {
            let st2 = LexState { buf: st1.buf.push(ch), ..st1 };
            assert(spec_all_word_chars(st2.buf)) by {
                assert forall|k: int| 0 <= k < st2.buf.len() implies spec_is_word_char(
                    #[trigger] st2.buf[k],
                ) by {
                    if k < st1.buf.len() {
                        assert(st2.buf[k] == st1.buf[k]);
                    }
                }
            }
            lemma_lex_ok(cs, i + 1, st2);
        } else {
            if st1.buf.len() > 0 && spec_all_word_chars(st1.buf) {
                lemma_flush_ok(st1, spec_loc(st1));
            }
            let (st2, e) = if st1.buf.len() > 0 && spec_all_word_chars(st1.buf) {
                spec_flush(st1, spec_loc(st1))
            } else {
                (st1, None)
            };
            if e is None {
                let n = spec_op_len(cs, i);
                let text = st2.buf + cs.subrange(i, i + n);
                let col2 = st2.col + n - 1;
                let tok = Token {
                    kind: TokenType::Op(spec_classify_op(text)),
                    loc: LocData { line: st2.line as usize, col: col2 as usize },
                };
                let st3 = LexState {
                    tokens: st2.tokens.push(tok),
                    buf: Seq::empty(),
                    col: col2,
                    ..st2
                };
                assert(spec_state_ok(st3)) by {
                    assert forall|k: int| 0 <= k < st3.tokens.len() implies {
                        &&& (st3.tokens[k].kind matches TokenType::VarIdent(s) ==> s.0
                            < st3.syms.len())
                        &&& st3.tokens[k].kind != TokenType::WhiteSpace
                        &&& st3.tokens[k].kind != TokenType::NewLine
                        &&& st3.tokens[k].kind != TokenType::Null
                    } by {
                        if k < st2.tokens.len() {
                            assert(st3.tokens[k] == st2.tokens[k]);
                        }
                    }
                }
                lemma_lex_ok(cs, i + n, st3);
            }
        }
    }
}

// ---------------------------------------------------------------------------
// The lexer

/// Turns source text into tokens, and serves them to the parser.
#[derive(Debug)]
pub struct Lexer {
    pub sym: SymbolTable,
    pub tokens: Vec<Token>,
    pub tok_ptr: usize,
    pub line_ct: usize,
    pub col_ct: usize,
}

pub open spec fn spec_at(toks: Seq<Token>, i: int) -> Option<Token> {
    if 0 <= i < toks.len() {
        Some(toks[i])
    } else {
        None
    }
}

impl Lexer {
    /// The tokens produced so far.
    pub open spec fn toks(&self) -> Seq<Token> {
        self.tokens@
    }

    /// The cursor: the index of the token that `peek` gives.
    pub open spec fn pos(&self) -> int {
        self.tok_ptr as int
    }

    /// The line that the next character is on.
    pub open spec fn line(&self) -> int {
        self.line_ct as int
    }

    /// The column count so far.
    pub open spec fn col(&self) -> int {
        self.col_ct as int
    }

    pub open spec fn wf(&self) -> bool {
        &&& self.sym.wf()
        &&& self.pos() <= self.toks().len() + 1
        &&& self.toks().len() < usize::MAX
    }

    /// The tokenizer's state, with nothing pending.
    pub open spec fn lex_state(&self) -> LexState {
        LexState {
            tokens: self.toks(),
            buf: Seq::empty(),
            line: self.line(),
            col: self.col(),
            syms: self.sym@,
        }
    }

    pub fn new() -> (r: Lexer)
        ensures
            r.wf(),
            r.toks() == Seq::<Token>::empty(),
            r.pos() == 0,
            r.line() == 1,
            r.col() == 1,
            r.sym@ == Seq::<Seq<char>>::empty(),
    {
        Lexer { tokens: Vec::new(), sym: SymbolTable::new(), tok_ptr: 0, line_ct: 1, col_ct: 1 }
    }

    /// A lexer that serves the given tokens, with the given symbol table.
    pub fn from_tokens(tokens: Vec<Token>, sym: SymbolTable) -> (r: Lexer)
        requires
            sym.wf(),
            tokens@.len() < usize::MAX,
        ensures
            r.wf(),
            r.toks() == tokens@,
            r.pos() == 0,
            r.sym@ == sym@,
            r.line() == 1,
            r.col() == 1,
    {
        Lexer { tokens, sym, tok_ptr: 0, line_ct: 1, col_ct: 1 }
    }

    /// The tokens produced so far.
    pub fn tokens(&self) -> (r: &Vec<Token>)
        ensures
            r@ == self.toks(),
    {
        &self.tokens
    }

    /// Takes the symbol table out, leaving an empty one.
    pub fn take_sym(&mut self) -> (r: SymbolTable)
        ensures
            r@ == old(self).sym@,
            r.symbols@ == old(self).sym.symbols@,
            final(self).sym@ == Seq::<Seq<char>>::empty(),
            final(self).toks() == old(self).toks(),
            final(self).pos() == old(self).pos(),
    {
        let mut taken = SymbolTable::new();
        std::mem::swap(&mut self.sym, &mut taken);
        taken
    }

    /// Classifies a word as a keyword, a literal or an identifier. An
    /// identifier is interned: a name already in the table keeps its symbol
    /// and leaves the table as it is; a new name is appended and gets the
    /// next symbol.
    pub fn classify_token(&mut self, tok: &Vec<char>, loc: LocData) -> (r: Result<Token, LexError>)
        requires
            old(self).sym.wf(),
            old(self).sym@.len() < u32::MAX,
        ensures
            (final(self).sym@, r) == spec_classify(old(self).sym@, tok@, loc),
            spec_is_name(tok@) && old(self).sym@.contains(tok@) ==> final(self).sym@ == old(self).sym@
                && r is Ok && r->Ok_0.loc == loc && r->Ok_0.kind is VarIdent && r->Ok_0.kind->VarIdent_0.0
                < old(self).sym@.len() && old(self).sym@[r->Ok_0.kind->VarIdent_0.0 as int] == tok@,
            spec_is_name(tok@) && !old(self).sym@.contains(tok@) ==> final(self).sym@ == old(self).sym@.push(
                tok@,
            ) && r == Ok::<Token, LexError>(
                Token { kind: TokenType::VarIdent(Symbol(old(self).sym@.len() as u32)), loc },
            ),
            final(self).sym.wf(),
            final(self).toks() == old(self).toks(),
            final(self).pos() == old(self).pos(),
            final(self).line() == old(self).line(),
            final(self).col() == old(self).col(),
    {
        proof {
            lemma_intern(self.sym@, tok@);
        }
        match keyword(tok) {
            Some(k) => Ok(Token { kind: k, loc }),
            None => {
                if tok.len() > 0 {
                    if all_digits(tok) {
                        match parse_digits(tok) {
                            Some(v) => Ok(Token { kind: TokenType::IntLit(v), loc }),
                            None => Err(LexError::IntLitOverflow),
                        }
                    } else {
                        let sym_id = self.sym.intern(tok);
                        Ok(Token { kind: TokenType::VarIdent(sym_id), loc })
                    }
                } else {
                    Ok(Token { kind: TokenType::Null, loc: LocData { line: 0, col: 0 } })
                }
            },
        }
    }

    fn parse_delim(&mut self, kind: TokenType, buf: &mut Vec<char>) -> (r: Result<(), LexError>)
        requires
            old(self).sym.wf(),
            old(self).sym@.len() < u32::MAX,
            old(self).line() < usize::MAX,
            old(self).toks().len() + 2 < usize::MAX,
        ensures
            ({
                let st = LexState {
                    tokens: old(self).toks(),
                    buf: old(buf)@,
                    line: old(self).line(),
                    col: old(self).col(),
                    syms: old(self).sym@,
                };
                let (st2, e) = spec_delim(st, kind);
                &&& final(self).toks() == st2.tokens
                &&& final(buf)@ == st2.buf
                &&& final(self).line() == st2.line
                &&& final(self).col() == st2.col
                &&& final(self).sym@ == st2.syms
                &&& r == (match e {
                    Some(x) => Err(x),
                    None => Ok(()),
                })
            }),
            final(self).sym.wf(),
            final(self).pos() == old(self).pos(),
            final(self).toks().len() <= old(self).toks().len() + 2,
    {
        let loc = LocData { line: self.line_ct, col: self.col_ct };
        if buf.len() > 0 {
            let cls_tok = self.classify_token(buf, loc);
            match cls_tok {
                Ok(t) => {
                    self.tokens.push(t);
                    buf.clear();
                },
                Err(e) => {
                    return Err(e);
                },
            }
        }
        if kind == TokenType::NewLine {
            self.line_ct = self.line_ct + 1;
        }
        if kind != TokenType::WhiteSpace && kind != TokenType::NewLine {
            self.tokens.push(Token { kind, loc });
        }
        Ok(())
    }

    /// Tokenizes the source text, appending its tokens.
    pub fn tokenize(&mut self, file: &str) -> (r: Result<(), LexError>)
        requires
            old(self).wf(),
            old(self).sym@.len() + file@.len() < u32::MAX,
            old(self).line() + file@.len() < usize::MAX,
            old(self).col() + file@.len() < usize::MAX,
            old(self).toks().len() + 2 * file@.len() + 2 < usize::MAX,
        ensures
            ({
                let (st, e) = spec_tokenize(file@, old(self).lex_state());
                &&& final(self).toks() == st.tokens
                &&& final(self).line() == st.line
                &&& final(self).col() == st.col
                &&& final(self).sym@ == st.syms
                &&& r == (match e {
                    Some(x) => Err(x),
                    None => Ok(()),
                })
            }),
            final(self).wf(),
            final(self).pos() == old(self).pos(),
    {
        let cs = str_chars(file);
        let n = cs.len();
        let mut buf: Vec<char> = Vec::new();
        let mut i: usize = 0;
        let mut err: Option<LexError> = None;
        let ghost st0 = old(self).lex_state();
        let ghost cur = LexState {
            tokens: self.tokens@,
            buf: buf@,
            line: self.line_ct as int,
            col: self.col_ct as int,
            syms: self.sym@,
        };
        assert(cur == st0);
        while i < n
            invariant
                n == cs@.len(),
                cs@ == file@,
                i <= n,
                self.sym.wf(),
                self.tok_ptr == old(self).tok_ptr,
                self.sym@.len() <= old(self).sym@.len() + i,
                self.line_ct <= old(self).line() + i,
                self.col_ct <= old(self).col() + i,
                self.tokens@.len() <= old(self).toks().len() + 2 * i,
                self.tokens@.len() >= old(self).toks().len(),
                old(self).wf(),
                st0 == old(self).lex_state(),
                buf@.len() <= i,
                old(self).sym@.len() + n < u32::MAX,
                old(self).line() + n < usize::MAX,
                old(self).col() + n < usize::MAX,
                old(self).toks().len() + 2 * n + 2 < usize::MAX,
                err is Some ==> i == n,
                ({
                    let now = LexState {
                        tokens: self.tokens@,
                        buf: buf@,
                        line: self.line_ct as int,
                        col: self.col_ct as int,
                        syms: self.sym@,
                    };
                    match err {
                        None => spec_lex_from(cs@, 0, st0) == spec_lex_from(cs@, i as int, now),
                        Some(x) => spec_lex_from(cs@, 0, st0) == (now, Some(x)),
                    }
                }),
            decreases n - i,
        {
            let ghost before = LexState {
                tokens: self.tokens@,
                buf: buf@,
                line: self.line_ct as int,
                col: self.col_ct as int,
                syms: self.sym@,
            };
            let ch = cs[i];
            self.col_ct = self.col_ct + 1;
            let ghost st1 = LexState { col: before.col + 1, ..before };
            if is_delim(ch) {
                let kind = TokenType::char_to_token(ch);
                let r = self.parse_delim(kind, &mut buf);
                match r {
                    Err(x) => {
                        err = Some(x);
                        i = n;
                    },
                    Ok(()) => {
                        i = i + 1;
                    },
                }
            } else if is_word_char(ch) {
                buf.push(ch);
                i = i + 1;
            } else {
                let mut failed = false;
                if buf.len() > 0 && all_word_chars(&buf) {
                    let loc = LocData { line: self.line_ct, col: self.col_ct };
                    match self.classify_token(&buf, loc) {
                        Ok(t) => {
                            self.tokens.push(t);
                            buf.clear();
                        },
                        Err(e) => {
                            err = Some(e);
                            failed = true;
                        },
                    }
                }
                if failed {
                    i = n;
                } else {
                    let ghost mid = buf@;
                    buf.push(ch);
                    let mut j = i + 1;
                    if j < n && is_op_char(cs[j]) {
                        buf.push(cs[j]);
                        j = j + 1;
                        self.col_ct = self.col_ct + 1;
                        if j < n && is_op_char(cs[j]) {
                            buf.push(cs[j]);
                            j = j + 1;
                            self.col_ct = self.col_ct + 1;
                        }
                    }
                    proof {
                        assert(j == i + spec_op_len(cs@, i as int));
                        assert(buf@ =~= mid + cs@.subrange(i as int, j as int));
                    }
                    let op = classify_op(&buf);
                    self.tokens.push(
                        Token {
                            kind: TokenType::Op(op),
                            loc: LocData { line: self.line_ct, col: self.col_ct },
                        },
                    );
                    buf.clear();
                    i = j;
                }
            }
        }
        match err {
            Some(x) => Err(x),
            None => Ok(()),
        }
    }
}

impl Iter for Lexer {
    type Item = Token;

    fn peek(&self) -> (r: Option<&Token>)
        ensures
            (match r {
                Some(t) => spec_at(self.toks(), self.pos()) == Some(*t),
                None => spec_at(self.toks(), self.pos()) is None,
            }),
    {
        if self.tok_ptr < self.tokens.len() {
            Some(&self.tokens[self.tok_ptr])
        } else {
            None
        }
    }

    /// The token before the cursor; `None` at the start.
    fn peek_behind(&self) -> (r: Option<&Token>)
        ensures
            (match r {
                Some(t) => spec_at(self.toks(), self.pos() - 1) == Some(*t),
                None => spec_at(self.toks(), self.pos() - 1) is None,
            }),
    {
        if self.tok_ptr >= 1 && self.tok_ptr - 1 < self.tokens.len() {
            Some(&self.tokens[self.tok_ptr - 1])
        } else {
            None
        }
    }

    fn peek_ahead(&self) -> (r: Option<&Token>)
        ensures
            (match r {
                Some(t) => spec_at(self.toks(), self.pos() + 1) == Some(*t),
                None => spec_at(self.toks(), self.pos() + 1) is None,
            }),
    {
        if self.tok_ptr < self.tokens.len() && self.tok_ptr + 1 < self.tokens.len() {
            Some(&self.tokens[self.tok_ptr + 1])
        } else {
            None
        }
    }

    /// Advances the cursor and gives the token there. Past the end the cursor
    /// stays one beyond the last token, where every look is `None`.
    fn next(&mut self) -> (r: Option<&Token>)
        ensures
            final(self).toks() == old(self).toks(),
            final(self).sym == old(self).sym,
            old(self).toks().len() < usize::MAX ==> final(self).pos() == spec_advance(
                old(self).toks(),
                old(self).pos(),
            ),
            final(self).pos() >= old(self).pos(),
            old(self).pos() <= old(self).toks().len() + 1 ==> final(self).pos()
                <= old(self).toks().len() + 1,
            (match r {
                Some(t) => spec_at(final(self).toks(), final(self).pos()) == Some(*t),
                None => spec_at(final(self).toks(), final(self).pos()) is None,
            }),
    {
        if self.tok_ptr <= self.tokens.len() && self.tok_ptr < usize::MAX {
            self.tok_ptr = self.tok_ptr + 1;
        }
        if self.tok_ptr < self.tokens.len() {
            Some(&self.tokens[self.tok_ptr])
        } else {
            None
        }
    }
}

/// The cursor after one step: it stops one beyond the last token.
pub open spec fn spec_advance(toks: Seq<Token>, pos: int) -> int {
    if pos <= toks.len() {
        pos + 1
    } else {
        pos
    }
}

} // verus!
