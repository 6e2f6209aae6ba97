//! The parser: a one-shot, fail-fast recursive descent over a finite,
//! pre-tokenized stream, producing a statement sequence or the first
//! diagnostic. Expression parsing is two-phase (an atom with its postfix
//! chain, then the binary expression engine); nested delimited regions are
//! parsed by splitting off their token range and handing it to a fresh,
//! independent sub-parser.

use vstd::prelude::*;

use crate::ast::{spec_operator_of, Expression, ExpressionNode, Operator, Statement, StatementNode};
use crate::diagnostic::{Diagnostic, DiagnosticKind, TokenElement};
use crate::token::{
    parse_u64, spec_dec_val, spec_is_u64_digits, spec_span_from, str_eq, Pos, Token, TokenType,
};
use crate::types::{Type, TypeMode, TypeNode};

verus! {

/// What the parser requires of a single token, the tokenizer's side of the
/// contract: integer literals are in-range digit strings, character literals
/// are nonempty, operator lexemes are in the operator table, and end-of-line
/// tokens are exactly the newline lexeme.
pub open spec fn token_wf(t: Token) -> bool {
    &&& t.kind == TokenType::Int ==> spec_is_u64_digits(t.lexeme@)
    &&& t.kind == TokenType::Char ==> t.lexeme@.len() >= 1
    &&& t.kind == TokenType::Operator ==> spec_operator_of(t.lexeme@) is Some
    &&& (t.kind == TokenType::EOL <==> t.lexeme@ == "\n"@)
}

/// Every token of the stream is well-formed.
pub open spec fn tokens_wf(toks: Seq<Token>) -> bool {
    forall|i: int| 0 <= i < toks.len() ==> token_wf(#[trigger] toks[i])
}

/// Position of the close delimiter that matches an open delimiter already
/// consumed: scanning from `j` at nesting depth `nest`, the first position
/// that brings the nesting down to zero, counting further delimiter pairs
/// and interpreting nothing else. `None` when the stream runs out first.
pub open spec fn spec_matching_close(
    toks: Seq<Token>,
    j: int,
    nest: int,
    open: Seq<char>,
    close: Seq<char>,
) -> Option<int>
    decreases toks.len() - j,
{
    if j < 0 || j >= toks.len() {
        None
    } else if toks[j].lexeme@ == close {
        if nest == 1 {
            Some(j)
        } else {
            spec_matching_close(toks, j + 1, nest - 1, open, close)
        }
    } else if toks[j].lexeme@ == open {
        spec_matching_close(toks, j + 1, nest + 1, open, close)
    } else {
        spec_matching_close(toks, j + 1, nest, open, close)
    }
}

/// First position at or after `i` that does not hold an end-of-line token
/// (the stream's end counts): where statement dispatch looks after skipping
/// blank lines.
pub open spec fn spec_skip_eols(toks: Seq<Token>, i: int) -> int
    decreases toks.len() - i,
{
    if 0 <= i < toks.len() && toks[i].kind == TokenType::EOL {
        spec_skip_eols(toks, i + 1)
    } else {
        i
    }
}

/// What a type expression starting at an identifier denotes: the five
/// primitive names map to their shapes, and any other identifier becomes a
/// named type reference carrying that name.
pub open spec fn spec_primitive_result(s: Seq<char>, n: TypeNode) -> bool {
    if s == "str"@ {
        n == TypeNode::Str
    } else if s == "char"@ {
        n == TypeNode::Char
    } else if s == "int"@ {
        n == TypeNode::Int
    } else if s == "float"@ {
        n == TypeNode::Float
    } else if s == "bool"@ {
        n == TypeNode::Bool
    } else {
        n matches TypeNode::Id(x) && x@ == s
    }
}

/// A token that opens no postfix form: not a call's `(`, not an index's
/// `[`, not the `as` of a cast.
pub open spec fn spec_no_postfix(t: Token) -> bool {
    &&& t.kind == TokenType::Symbol ==> (t.lexeme@ != "("@ && t.lexeme@ != "["@)
    &&& t.kind == TokenType::Keyword ==> t.lexeme@ != "as"@
}

/// The token a cursor standing at `k` sees, clamped to the last token once
/// `k` has run off the end (the shape every lookahead in the parser has).
pub open spec fn spec_tok_at(toks: Seq<Token>, k: int) -> Token {
    if k > toks.len() - 1 {
        toks[toks.len() - 1]
    } else {
        toks[k]
    }
}

/// The expression an integer-literal token parses to: its decimal value at
/// its own position.
pub open spec fn spec_int_literal(t: Token) -> Expression {
    Expression { node: ExpressionNode::Int(spec_dec_val(t.lexeme@) as u64), pos: t.pos }
}

/// `e` is the binary node combining exactly `l` and `r` under `o`.
pub open spec fn spec_is_binary_of(e: Expression, l: Expression, o: Operator, r: Expression) -> bool {
    e.node matches ExpressionNode::Binary(bl, bo, br) && *bl == l && bo == o && *br == r
}

/// The grammar's fixed lexemes are pairwise distinct where the parser's
/// dispatch tells them apart.
proof fn lemma_grammar_lexemes()
    ensures
        "\n"@ != "="@ && "\n"@ != ":"@ && "\n"@ != "("@ && "\n"@ != ")"@ && "\n"@ != "["@
            && "\n"@ != "]"@ && "\n"@ != "{"@ && "\n"@ != "}"@ && "\n"@ != ","@ && "\n"@
            != ";"@ && "\n"@ != "->"@ && "\n"@ != ".."@ && "\n"@ != "def"@ && "\n"@
            != "if"@ && "\n"@ != "elif"@ && "\n"@ != "else"@ && "\n"@ != "as"@ && "\n"@
            != "return"@ && "\n"@ != "<"@ && "\n"@ != ">"@ && "\n"@ != "*"@,
        "("@ != ")"@ && "("@ != "["@ && "("@ != "]"@ && "("@ != "{"@ && "("@ != "}"@ && "("@
            != "<"@ && "("@ != "->"@ && "("@ != ","@ && "("@ != "*"@ && "("@ != "def"@ && "("@
            != "elif"@ && "("@ != "else"@ && "("@ != "as"@,
        "["@ != ")"@ && "["@ != "]"@ && "["@ != "{"@ && "["@ != "}"@ && "["@ != "<"@ && "["@
            != "->"@ && "["@ != ","@ && "["@ != "*"@ && "["@ != "as"@ && "["@ != "elif"@
            && "["@ != "else"@,
        "{"@ != "}"@ && "{"@ != "->"@ && "{"@ != "<"@ && "{"@ != "elif"@ && "{"@ != "else"@
            && "{"@ != "as"@ && "{"@ != ","@ && "{"@ != "("@ && "{"@ != "["@ && "{"@ != "="@,
        "="@ != ":"@ && "="@ != "def"@ && "="@ != ".."@ && "="@ != "<"@ && "="@ != "("@
            && "="@ != "["@ && "="@ != "{"@ && "="@ != "*"@ && "="@ != "elif"@ && "="@
            != "else"@ && "="@ != "as"@,
        ":"@ != "def"@ && ":"@ != ".."@,
        ")"@ != "}"@ && ")"@ != "]"@ && ")"@ != ","@ && ")"@ != "elif"@ && ")"@ != "else"@
            && ")"@ != "as"@ && ")"@ != "->"@ && ")"@ != "<"@,
        "}"@ != "]"@ && "}"@ != ","@ && "}"@ != "elif"@ && "}"@ != "else"@ && "}"@ != "as"@,
        "]"@ != ","@ && "]"@ != "elif"@ && "]"@ != "else"@ && "]"@ != "as"@ && "]"@ != "("@
            && "]"@ != "["@,
        "->"@ != "<"@ && "->"@ != ".."@,
        "def"@ != "if"@ && "def"@ != ".."@,
        "as"@ != "elif"@ && "as"@ != "else"@ && "as"@ != "if"@,
        "elif"@ != "else"@,
        "return"@ != "}"@ && "return"@ != "if"@,
        ","@ != "elif"@ && ","@ != "else"@ && ","@ != "as"@ && ","@ != "("@ && ","@ != "["@,
{
    reveal_strlit("\n");
    reveal_strlit("=");
    reveal_strlit(":");
    reveal_strlit("(");
    reveal_strlit(")");
    reveal_strlit("[");
    reveal_strlit("]");
    reveal_strlit("{");
    reveal_strlit("}");
    reveal_strlit(",");
    reveal_strlit(";");
    reveal_strlit("->");
    reveal_strlit("..");
    reveal_strlit("def");
    reveal_strlit("if");
    reveal_strlit("elif");
    reveal_strlit("else");
    reveal_strlit("as");
    reveal_strlit("return");
    reveal_strlit("<");
    reveal_strlit(">");
    reveal_strlit("*");
    assert("\n"@.len() == 1 && "\n"@[0] == '\n');
    assert("="@.len() == 1 && "="@[0] == '=');
    assert(":"@.len() == 1 && ":"@[0] == ':');
    assert("("@.len() == 1 && "("@[0] == '(');
    assert(")"@.len() == 1 && ")"@[0] == ')');
    assert("["@.len() == 1 && "["@[0] == '[');
    assert("]"@.len() == 1 && "]"@[0] == ']');
    assert("{"@.len() == 1 && "{"@[0] == '{');
    assert("}"@.len() == 1 && "}"@[0] == '}');
    assert(","@.len() == 1 && ","@[0] == ',');
    assert(";"@.len() == 1 && ";"@[0] == ';');
    assert("->"@.len() == 2 && "->"@[0] == '-');
    assert(".."@.len() == 2 && ".."@[0] == '.');
    assert("def"@.len() == 3 && "def"@[0] == 'd');
    assert("if"@.len() == 2 && "if"@[0] == 'i');
    assert("elif"@.len() == 4 && "elif"@[0] == 'e' && "elif"@[1] == 'l');
    assert("else"@.len() == 4 && "else"@[0] == 'e' && "else"@[1] == 'l' && "else"@[2] == 's');
    assert("as"@.len() == 2 && "as"@[0] == 'a');
    assert("return"@.len() == 6);
    assert("<"@.len() == 1 && "<"@[0] == '<');
    assert(">"@.len() == 1 && ">"@[0] == '>');
    assert("*"@.len() == 1 && "*"@[0] == '*');
}

/// A digit-run lexeme is none of the delimiter lexemes the grammar tests
/// against it.
proof fn lemma_digits_not_delimiters(s: Seq<char>)
    requires
        spec_is_u64_digits(s),
    ensures
        s != "}"@,
        s != ")"@,
        s != "]"@,
        s != ","@,
        s != "="@,
{
    reveal_strlit("}");
    reveal_strlit(")");
    reveal_strlit("]");
    reveal_strlit(",");
    reveal_strlit("=");
    assert(crate::token::spec_is_digit(s[0]));
    assert("}"@.len() == 1 && "}"@[0] == '}');
    assert(")"@.len() == 1 && ")"@[0] == ')');
    assert("]"@.len() == 1 && "]"@[0] == ']');
    assert(","@.len() == 1 && ","@[0] == ',');
    assert("="@.len() == 1 && "="@[0] == '=');
}

/// A canonical well-formed declaration occupying six tokens from `i`:
/// `name : Type = literal` terminated by an end-of-line token, with the type
/// a single identifier (a primitive name or a named type) and the
/// initializer an integer literal.
pub open spec fn spec_simple_declaration_at(toks: Seq<Token>, i: int) -> bool {
    &&& 0 <= i
    &&& i + 5 < toks.len()
    &&& toks[i].kind == TokenType::Identifier
    &&& toks[i + 1].lexeme@ == ":"@
    &&& toks[i + 2].kind == TokenType::Identifier
    &&& toks[i + 2].lexeme@ != "def"@
    &&& toks[i + 2].lexeme@ != "="@
    &&& toks[i + 3].lexeme@ == "="@
    &&& toks[i + 4].kind == TokenType::Int
    &&& toks[i + 5].kind == TokenType::EOL
}

/// What such a declaration parses to: a declaration statement whose name is
/// the name token's lexeme, whose recorded type is exactly what the type
/// identifier denotes, and whose initializer is exactly the literal's value
/// at the literal's position.
pub open spec fn spec_simple_declaration_result(toks: Seq<Token>, i: int, st: Statement) -> bool {
    &&& st.node matches StatementNode::Variable(t, name, init) && ({
        &&& name@ == toks[i].lexeme@
        &&& spec_primitive_result(toks[i + 2].lexeme@, t.node)
        &&& t.mode == TypeMode::Regular
        &&& init matches Some(e) && e == Expression {
            node: ExpressionNode::Int(crate::token::spec_dec_val(toks[i + 4].lexeme@) as u64),
            pos: toks[i + 4].pos,
        }
    })
}

/// An inferred-type declaration whose initializer is an index expression,
/// occupying eight tokens from `j`: `name : = base [ literal ]` terminated
/// by an end-of-line token. The `:` and `=` stand apart, so the declaration
/// grammar first attempts the function-literal shorthand, fails it on the
/// `=` lookahead, backtracks, and falls through to the inferred type.
pub open spec fn spec_index_declaration_at(toks: Seq<Token>, j: int) -> bool {
    &&& 0 <= j
    &&& j + 7 < toks.len()
    &&& toks[j].kind == TokenType::Identifier
    &&& toks[j + 1].lexeme@ == ":"@
    &&& toks[j + 2].lexeme@ == "="@
    &&& toks[j + 3].kind == TokenType::Identifier
    &&& toks[j + 4].kind == TokenType::Symbol
    &&& toks[j + 4].lexeme@ == "["@
    &&& toks[j + 5].kind == TokenType::Int
    &&& toks[j + 6].kind == TokenType::Symbol
    &&& toks[j + 6].lexeme@ == "]"@
    &&& toks[j + 7].kind == TokenType::EOL
}

/// What such a declaration parses to: the `Nil` sentinel as the type to
/// infer, the declared name, and an index expression over the base
/// identifier and the literal as the initializer.
pub open spec fn spec_index_declaration_result(toks: Seq<Token>, j: int, st: Statement) -> bool {
    st.node matches StatementNode::Variable(t, name, init) && ({
        &&& t == Type { node: TypeNode::Nil, mode: TypeMode::Regular }
        &&& name@ == toks[j].lexeme@
        &&& init matches Some(e) && (e.node matches ExpressionNode::Index(b, sub) && ((*b).node
            matches ExpressionNode::Identifier(n) && n@ == toks[j + 3].lexeme@) && (*b).pos
            == toks[j + 3].pos && *sub == spec_int_literal(toks[j + 5]))
    })
}

/// A block of exactly one valued return statement: `{` at `k`, a blank
/// line, `return literal`, a terminator, and the matching `}`.
pub open spec fn spec_return_block_at(toks: Seq<Token>, k: int) -> bool {
    &&& 0 <= k < toks.len()
    &&& toks[k].kind == TokenType::Symbol
    &&& toks[k].lexeme@ == "{"@
    &&& spec_matching_close(toks, k + 1, 1, "{"@, "}"@) == Some(k + 5)
    &&& toks[k + 1].kind == TokenType::EOL
    &&& toks[k + 2].kind == TokenType::Keyword
    &&& toks[k + 2].lexeme@ == "return"@
    &&& toks[k + 3].kind == TokenType::Int
    &&& toks[k + 4].kind == TokenType::EOL
}

/// What such a block parses to: a block expression of one return statement
/// carrying exactly the literal's value.
pub open spec fn spec_return_block_result(toks: Seq<Token>, k: int, e: Expression) -> bool {
    e.node matches ExpressionNode::Block(ss) && ss@.len() == 1 && (ss@[0].node
        matches StatementNode::Return(rv) && (rv matches Some(e2) && *e2 == spec_int_literal(
        toks[k + 3],
    )))
}

/// A function-literal shorthand with two typed parameters, an explicit
/// identifier return type, and a one-return body, spanning eighteen tokens
/// from `d`: `def ( a : T1 , b : T2 ) -> T3 { … return literal … }`.
pub open spec fn spec_def_literal_at(toks: Seq<Token>, d: int) -> bool {
    &&& 0 <= d
    &&& d + 17 < toks.len()
    &&& toks[d].lexeme@ == "def"@
    &&& toks[d + 1].kind == TokenType::Symbol
    &&& toks[d + 1].lexeme@ == "("@
    &&& spec_matching_close(toks, d + 2, 1, "("@, ")"@) == Some(d + 9)
    &&& toks[d + 2].kind == TokenType::Identifier
    &&& toks[d + 2].lexeme@ != ".."@
    &&& toks[d + 3].lexeme@ == ":"@
    &&& toks[d + 4].kind == TokenType::Identifier
    &&& toks[d + 5].lexeme@ == ","@
    &&& toks[d + 6].kind == TokenType::Identifier
    &&& toks[d + 6].lexeme@ != ".."@
    &&& toks[d + 7].lexeme@ == ":"@
    &&& toks[d + 8].kind == TokenType::Identifier
    &&& toks[d + 10].lexeme@ == "->"@
    &&& toks[d + 11].kind == TokenType::Identifier
    &&& spec_return_block_at(toks, d + 12)
}

/// What such a shorthand parses to: a function literal with both parameters
/// and the return type exactly as the identifiers denote, the one-return
/// body, and an empty generic-parameter list.
pub open spec fn spec_def_literal_result(toks: Seq<Token>, d: int, e: Expression) -> bool {
    e.node matches ExpressionNode::Function(params, retty, body, generics) && ({
        &&& params@.len() == 2
        &&& params@[0].0@ == toks[d + 2].lexeme@
        &&& spec_primitive_result(toks[d + 4].lexeme@, params@[0].1.node)
        &&& params@[0].1.mode == TypeMode::Regular
        &&& params@[1].0@ == toks[d + 6].lexeme@
        &&& spec_primitive_result(toks[d + 8].lexeme@, params@[1].1.node)
        &&& params@[1].1.mode == TypeMode::Regular
        &&& spec_primitive_result(toks[d + 11].lexeme@, retty.node)
        &&& retty.mode == TypeMode::Regular
        &&& spec_return_block_result(toks, d + 12, *body)
        &&& generics matches Some(g) && g@.len() == 0
    })
}

/// A declaration whose initializer is the two-parameter function-literal
/// shorthand: `name :` then the shorthand, then an end-of-line terminator.
pub open spec fn spec_def_declaration_at(toks: Seq<Token>, s: int) -> bool {
    &&& 0 <= s
    &&& s + 20 < toks.len()
    &&& toks[s].kind == TokenType::Identifier
    &&& toks[s + 1].lexeme@ == ":"@
    &&& spec_def_literal_at(toks, s + 2)
    &&& toks[s + 20].kind == TokenType::EOL
}

/// What such a declaration parses to: the `Nil` sentinel as the type to
/// infer, the declared name, and the pinned function literal as the
/// initializer.
pub open spec fn spec_def_declaration_result(toks: Seq<Token>, s: int, st: Statement) -> bool {
    st.node matches StatementNode::Variable(t, name, init) && ({
        &&& t == Type { node: TypeNode::Nil, mode: TypeMode::Regular }
        &&& name@ == toks[s].lexeme@
        &&& init matches Some(e) && spec_def_literal_result(toks, s + 2, e)
    })
}

/// An expression statement that is a lone integer literal: two tokens from
/// `i`, the literal and its end-of-line terminator.
pub open spec fn spec_lone_literal_at(toks: Seq<Token>, i: int) -> bool {
    &&& 0 <= i
    &&& i + 1 < toks.len()
    &&& toks[i].kind == TokenType::Int
    &&& toks[i + 1].kind == TokenType::EOL
}

/// The parser: the token stream, a cursor into it, and the source file name
/// carried into diagnostics.
pub struct Parser {
    pub tokens: Vec<Token>,
    pub index: usize,
    pub file: String,
}

impl Parser {
    /// The parser's invariant: a nonempty, well-formed stream, with the
    /// cursor at most one step past the end.
    pub open spec fn wf(self) -> bool {
        &&& tokens_wf(self.tokens@)
        &&& 1 <= self.tokens@.len() <= usize::MAX - 2
        &&& self.index <= self.tokens@.len() + 1
    }

    /// Distance from the cursor to the point of no return; strictly
    /// positive under the invariant, and the parser's termination measure.
    pub open spec fn measure(self) -> int {
        self.tokens@.len() + 2 - self.index
    }

    /// The token under the cursor, clamped to the last token once the
    /// cursor has run off the end.
    pub open spec fn spec_cur(self) -> Token {
        if self.index > self.tokens@.len() - 1 {
            self.tokens@[self.tokens@.len() - 1]
        } else {
            self.tokens@[self.index as int]
        }
    }

    /// Tokens not yet consumed.
    pub open spec fn spec_remaining(self) -> int {
        if self.index <= self.tokens@.len() {
            self.tokens@.len() - self.index
        } else {
            0
        }
    }

    /// A new parser over `tokens`, reporting against `file`.
    pub fn new(tokens: Vec<Token>, file: &str) -> (r: Parser)
        ensures
            r.tokens == tokens,
            r.index == 0,
            r.file@ == file@,
    {
        Parser { tokens, index: 0, file: file.to_owned() }
    }

    /// Number of tokens left under and after the cursor.
    pub fn remaining(&self) -> (r: usize)
        ensures
            r == self.spec_remaining(),
    {
        if self.index <= self.tokens.len() {
            self.tokens.len() - self.index
        } else {
            0
        }
    }

    /// The token under the cursor (see `spec_cur`).
    fn current(&self) -> (r: &Token)
        requires
            self.tokens@.len() >= 1,
        ensures
            *r == self.spec_cur(),
    {
        if self.index > self.tokens.len() - 1 {
            &self.tokens[self.tokens.len() - 1]
        } else {
            &self.tokens[self.index]
        }
    }

    /// Moves the cursor one step; pushing it past the point of no return is
    /// the unrecoverable cursor error.
    fn next(&mut self) -> (r: Result<(), Diagnostic>)
        requires
            old(self).tokens@.len() <= usize::MAX - 2,
        ensures
            final(self).tokens@ == old(self).tokens@,
            final(self).file == old(self).file,
            r is Ok <==> old(self).index <= old(self).tokens@.len(),
            r is Ok ==> final(self).index == old(self).index + 1,
            r is Err ==> final(self).index == old(self).index,
            r matches Err(d) ==> d.kind == DiagnosticKind::OutsideTokenStack && d.position
                is None && d.file == old(self).file,
    {
        if self.index <= self.tokens.len() {
            self.index = self.index + 1;
            Ok(())
        } else {
            Err(
                Diagnostic::wrong(
                    DiagnosticKind::OutsideTokenStack,
                    self.file.clone(),
                    None,
                ),
            )
        }
    }

    /// The current token's lexeme, owned.
    fn current_lexeme(&self) -> (r: String)
        requires
            self.tokens@.len() >= 1,
        ensures
            r@ == self.spec_cur().lexeme@,
    {
        self.current().lexeme.clone()
    }

    /// The current token's category.
    fn current_type(&self) -> (r: TokenType)
        requires
            self.tokens@.len() >= 1,
        ensures
            r == self.spec_cur().kind,
    {
        self.current().kind
    }

    /// Whether the current token's lexeme is exactly `lit`.
    fn lex_is(&self, lit: &str) -> (r: bool)
        requires
            self.tokens@.len() >= 1,
        ensures
            r == (self.spec_cur().lexeme@ == lit@),
    {
        str_eq(self.current().lexeme.as_str(), lit)
    }

    /// Consumes the current token and hands its lexeme back.
    fn eat(&mut self) -> (r: Result<String, Diagnostic>)
        requires
            1 <= old(self).tokens@.len() <= usize::MAX - 2,
        ensures
            final(self).tokens@ == old(self).tokens@,
            final(self).file == old(self).file,
            r is Ok <==> old(self).index <= old(self).tokens@.len(),
            r matches Ok(s) ==> s@ == old(self).spec_cur().lexeme@ && final(self).index == old(
                self,
            ).index + 1,
            r is Err ==> final(self).index == old(self).index,
            r matches Err(d) ==> d.kind == DiagnosticKind::OutsideTokenStack,
    {
        let lexeme = self.current().lexeme.clone();
        self.next()?;
        Ok(lexeme)
    }

    /// Consumes the current token if its lexeme is exactly `lexeme`, else
    /// reports what was expected and what was found.
    fn eat_lexeme(&mut self, lexeme: &str) -> (r: Result<String, Diagnostic>)
        requires
            1 <= old(self).tokens@.len() <= usize::MAX - 2,
        ensures
            final(self).tokens@ == old(self).tokens@,
            final(self).file == old(self).file,
            old(self).index <= final(self).index,
            r is Ok <==> (old(self).spec_cur().lexeme@ == lexeme@ && old(self).index <= old(
                self,
            ).tokens@.len()),
            r matches Ok(s) ==> s@ == lexeme@ && final(self).index == old(self).index + 1,
            r is Err ==> final(self).index == old(self).index,
            r matches Err(d) ==> (if old(self).spec_cur().lexeme@ == lexeme@ {
                d.kind == DiagnosticKind::OutsideTokenStack
            } else {
                d.kind matches DiagnosticKind::Expected(e, f) && e@ == lexeme@ && f@ == old(
                    self,
                ).spec_cur().lexeme@
            }),
    {
        if self.lex_is(lexeme) {
            let found = self.current().lexeme.clone();
            self.next()?;
            Ok(found)
        } else {
            Err(
                Diagnostic::wrong(
                    DiagnosticKind::Expected(lexeme.to_owned(), self.current_lexeme()),
                    self.file.clone(),
                    Some(TokenElement::Pos(self.current_position())),
                ),
            )
        }
    }

    /// Consumes the current token if it has the given category, else
    /// reports what was expected and what was found.
    fn eat_type(&mut self, token_type: TokenType) -> (r: Result<String, Diagnostic>)
        requires
            1 <= old(self).tokens@.len() <= usize::MAX - 2,
        ensures
            final(self).tokens@ == old(self).tokens@,
            final(self).file == old(self).file,
            old(self).index <= final(self).index,
            r is Ok <==> (old(self).spec_cur().kind == token_type && old(self).index <= old(
                self,
            ).tokens@.len()),
            r matches Ok(s) ==> s@ == old(self).spec_cur().lexeme@ && final(self).index == old(
                self,
            ).index + 1,
            r is Err ==> final(self).index == old(self).index,
            r matches Err(d) ==> (if old(self).spec_cur().kind == token_type {
                d.kind == DiagnosticKind::OutsideTokenStack
            } else {
                d.kind == DiagnosticKind::ExpectedTokenType(token_type, old(self).spec_cur().kind)
            }),
    {
        if self.current_type() == token_type {
            let found = self.current().lexeme.clone();
            self.next()?;
            Ok(found)
        } else {
            Err(
                Diagnostic::wrong(
                    DiagnosticKind::ExpectedTokenType(token_type, self.current_type()),
                    self.file.clone(),
                    Some(TokenElement::Pos(self.current_position())),
                ),
            )
        }
    }

    /// Checks, without consuming, that the current token has the given
    /// category.
    fn expect_type(&self, token_type: TokenType) -> (r: Result<(), Diagnostic>)
        requires
            self.tokens@.len() >= 1,
        ensures
            r is Ok <==> self.spec_cur().kind == token_type,
            r matches Err(d) ==> d.kind == DiagnosticKind::ExpectedTokenType(
                token_type,
                self.spec_cur().kind,
            ),
    {
        if self.current_type() == token_type {
            Ok(())
        } else {
            Err(
                Diagnostic::wrong(
                    DiagnosticKind::ExpectedTokenType(token_type, self.current_type()),
                    self.file.clone(),
                    None,
                ),
            )
        }
    }

    /// Checks, without consuming, that the current token's lexeme is
    /// exactly `lexeme`.
    fn expect_lexeme(&self, lexeme: &str) -> (r: Result<(), Diagnostic>)
        requires
            self.tokens@.len() >= 1,
        ensures
            r is Ok <==> self.spec_cur().lexeme@ == lexeme@,
            r matches Err(d) ==> d.kind matches DiagnosticKind::Expected(e, f) && e@ == lexeme@
                && f@ == self.spec_cur().lexeme@,
    {
        if self.lex_is(lexeme) {
            Ok(())
        } else {
            Err(
                Diagnostic::wrong(
                    DiagnosticKind::Expected(lexeme.to_owned(), self.current_lexeme()),
                    self.file.clone(),
                    None,
                ),
            )
        }
    }

    /// The current token's position.
    fn current_position(&self) -> (r: Pos)
        requires
            self.tokens@.len() >= 1,
        ensures
            r == self.spec_cur().pos,
    {
        self.current().pos
    }

    /// A span from `left_position` to the current token, clamped to the
    /// left line's text.
    fn span_from(&self, left_position: Pos) -> (r: Pos)
        requires
            self.tokens@.len() >= 1,
        ensures
            r == spec_span_from(left_position, self.spec_cur().pos),
    {
        crate::token::span_from_pos(left_position, self.current_position())
    }

    /// Requires a statement terminator: consumes one newline token, or
    /// accepts the end of the stream.
    fn new_line(&mut self) -> (r: Result<(), Diagnostic>)
        requires
            old(self).wf(),
        ensures
            final(self).tokens@ == old(self).tokens@,
            final(self).file == old(self).file,
            old(self).index <= final(self).index,
            final(self).index <= old(self).index + 1,
            old(self).spec_remaining() == 0 ==> r is Ok && final(self).index == old(self).index,
            old(self).spec_remaining() > 0 ==> (r is Ok <==> old(self).spec_cur().lexeme@
                == "\n"@),
            r is Ok && old(self).spec_remaining() > 0 ==> final(self).index == old(self).index
                + 1,
            r is Err ==> final(self).index == old(self).index,
            r matches Err(d) ==> d.kind matches DiagnosticKind::ExpectedNewLine(f) && f@ == old(
                self,
            ).spec_cur().lexeme@,
    {
        if self.remaining() > 0 {
            if self.lex_is("\n") {
                self.next()
            } else {
                Err(
                    Diagnostic::wrong(
                        DiagnosticKind::ExpectedNewLine(self.current_lexeme()),
                        self.file.clone(),
                        Some(TokenElement::Pos(self.current_position())),
                    ),
                )
            }
        } else {
            Ok(())
        }
    }

    /// Skips any run of newline tokens.
    fn next_newline(&mut self) -> (r: Result<(), Diagnostic>)
        requires
            old(self).wf(),
        ensures
            final(self).tokens@ == old(self).tokens@,
            final(self).file == old(self).file,
            old(self).index <= final(self).index,
            final(self).index <= final(self).tokens@.len() + 1,
            r is Ok,
            final(self).spec_remaining() == 0 || final(self).spec_cur().lexeme@ != "\n"@,
            old(self).spec_cur().lexeme@ != "\n"@ ==> final(self).index == old(self).index,
    {
        while self.lex_is("\n") && self.remaining() > 0
            invariant
                self.wf(),
                self.tokens@ == old(self).tokens@,
                self.file == old(self).file,
                old(self).index <= self.index,
                old(self).spec_cur().lexeme@ != "\n"@ ==> self.index == old(self).index,
            decreases self.measure(),
        {
            let res = self.next();
            proof {
                assert(res is Ok);
            }
        }
        Ok(())
    }

    /// Splits off a delimited region: consumes the opening delimiter, scans
    /// forward to the matching closer counting nested pairs — collecting the
    /// tokens in between verbatim, without interpreting them — and consumes
    /// the closer. Whenever a matching closer exists in the stream, the
    /// split succeeds, the cursor ends immediately after that closer, and
    /// exactly the enclosed token range is handed back.
    #[verifier::loop_isolation(false)]
    fn split_block(&mut self, open: &str, close: &str) -> (r: Result<Vec<Token>, Diagnostic>)
        requires
            old(self).wf(),
        ensures
            final(self).tokens@ == old(self).tokens@,
            final(self).file == old(self).file,
            old(self).index <= final(self).index,
            final(self).index <= final(self).tokens@.len() + 1,
            r matches Ok(v) ==> ({
                &&& final(self).index == old(self).index + v@.len() + 2
                &&& tokens_wf(v@)
                &&& (spec_matching_close(
                    old(self).tokens@,
                    old(self).index + 1,
                    1,
                    open@,
                    close@,
                ) matches Some(j) ==> final(self).index == j + 1 && v@ == old(
                    self,
                ).tokens@.subrange(old(self).index + 1, j))
            }),
            (spec_matching_close(old(self).tokens@, old(self).index + 1, 1, open@, close@)
                is Some && old(self).spec_cur().lexeme@ == open@ && old(self).index < old(
                self,
            ).tokens@.len()) ==> r is Ok,
    {
        self.eat_lexeme(open)?;
        let ghost toks = self.tokens@;
        let ghost i0 = old(self).index as int;
        let ghost target = spec_matching_close(toks, i0 + 1, 1, open@, close@);

        let mut block_tokens: Vec<Token> = Vec::new();
        let mut nest_count: usize = 1;

        while nest_count > 0
            invariant
                self.wf(),
                self.tokens@ == toks,
                self.file == old(self).file,
                i0 + 1 <= self.index <= toks.len() + 1,
                self.index == i0 + 1 + block_tokens@.len(),
                tokens_wf(block_tokens@),
                nest_count <= block_tokens@.len() + 1,
                nest_count >= 1 ==> ({
                    &&& self.index <= toks.len() ==> target == spec_matching_close(
                        toks,
                        self.index as int,
                        nest_count as int,
                        open@,
                        close@,
                    ) && block_tokens@ == toks.subrange(i0 + 1, self.index as int)
                    &&& self.index > toks.len() ==> target is None
                }),
                nest_count == 0 ==> ({
                    &&& self.index < toks.len() ==> target == Some(self.index as int)
                        && block_tokens@ == toks.subrange(i0 + 1, self.index as int)
                        && toks[self.index as int].lexeme@ == close@
                    &&& self.index >= toks.len() ==> target is None
                }),
            decreases self.measure(), nest_count,
        {
            if self.lex_is(close) {
                nest_count = nest_count - 1;
            } else if self.lex_is(open) {
                nest_count = nest_count + 1;
            }
            if nest_count != 0 {
                proof {
                    if self.index > toks.len() {
                    } else if self.index == toks.len() {
                    } else {
                        assert(toks.subrange(i0 + 1, self.index + 1) =~= toks.subrange(
                            i0 + 1,
                            self.index as int,
                        ).push(toks[self.index as int]));
                    }
                }
                block_tokens.push(self.current().duplicate());
                self.next()?;
            }
        }
        self.eat_lexeme(close)?;
        Ok(block_tokens)
    }

    /// Parses the whole stream as a statement sequence; on success every
    /// token has been consumed.
    #[verifier::loop_isolation(false)]
    pub fn parse(&mut self) -> (r: Result<Vec<Statement>, Diagnostic>)
        requires
            tokens_wf(old(self).tokens@),
            old(self).tokens@.len() <= usize::MAX - 2,
            old(self).index <= old(self).tokens@.len() + 1,
        ensures
            final(self).tokens@ == old(self).tokens@,
            final(self).file == old(self).file,
            old(self).index <= final(self).index,
            final(self).index <= final(self).tokens@.len() + 1,
            r is Ok ==> final(self).spec_remaining() == 0,
            r matches Ok(ast) ==> (old(self).spec_remaining() > 0 ==> ast@.len() >= 1),
            ({
                let toks = old(self).tokens@;
                let i = spec_skip_eols(toks, old(self).index as int);
                (spec_simple_declaration_at(toks, i) && toks.len() == i + 6) ==> (r
                    matches Ok(ast) && ast@.len() == 1 && spec_simple_declaration_result(
                    toks,
                    i,
                    ast@[0],
                ))
            }),
            ({
                let toks = old(self).tokens@;
                let i = spec_skip_eols(toks, old(self).index as int);
                (spec_lone_literal_at(toks, i) && toks.len() == i + 2) ==> (r matches Ok(ast)
                    && ast@.len() == 1 && (ast@[0].node matches StatementNode::Expression(e)
                    && e.node == ExpressionNode::Int(
                    crate::token::spec_dec_val(toks[i].lexeme@) as u64,
                )))
            }),
            ({
                let toks = old(self).tokens@;
                let i = spec_skip_eols(toks, old(self).index as int);
                (spec_simple_declaration_at(toks, i) && spec_index_declaration_at(toks, i + 6)
                    && toks.len() == i + 14) ==> (r matches Ok(ast) && ast@.len() == 2
                    && spec_simple_declaration_result(toks, i, ast@[0])
                    && spec_index_declaration_result(toks, i + 6, ast@[1]))
            }),
            ({
                let toks = old(self).tokens@;
                let i = spec_skip_eols(toks, old(self).index as int);
                (spec_def_declaration_at(toks, i) && toks.len() == i + 21) ==> (r
                    matches Ok(ast) && ast@.len() == 1 && spec_def_declaration_result(
                    toks,
                    i,
                    ast@[0],
                ))
            }),
    {
        let ghost toks = old(self).tokens@;
        let ghost skip = spec_skip_eols(toks, old(self).index as int);
        let ghost simple = spec_simple_declaration_at(toks, skip) && toks.len() == skip + 6;
        let ghost lone = spec_lone_literal_at(toks, skip) && toks.len() == skip + 2;
        let ghost two_decls = spec_simple_declaration_at(toks, skip)
            && spec_index_declaration_at(toks, skip + 6) && toks.len() == skip + 14;
        let ghost def_decl = spec_def_declaration_at(toks, skip) && toks.len() == skip + 21;
        let mut ast: Vec<Statement> = Vec::new();
        while self.remaining() > 0
            invariant
                tokens_wf(self.tokens@),
                self.tokens@.len() <= usize::MAX - 2,
                self.index <= self.tokens@.len() + 1,
                self.tokens@ == old(self).tokens@,
                self.file == old(self).file,
                old(self).index <= self.index,
                ast@.len() == 0 ==> self.index == old(self).index,
                simple ==> (ast@.len() == 0 || (ast@.len() == 1 && self.index == toks.len()
                    && spec_simple_declaration_result(toks, skip, ast@[0]))),
                lone ==> (ast@.len() == 0 || (ast@.len() == 1 && self.index == toks.len()
                    && (ast@[0].node matches StatementNode::Expression(e) && e.node
                    == ExpressionNode::Int(
                    crate::token::spec_dec_val(toks[skip].lexeme@) as u64,
                )))),
                two_decls ==> ((ast@.len() == 0 && self.index == old(self).index) || (ast@.len()
                    == 1 && self.index == skip + 6 && spec_simple_declaration_result(
                    toks,
                    skip,
                    ast@[0],
                )) || (ast@.len() == 2 && self.index == toks.len()
                    && spec_simple_declaration_result(toks, skip, ast@[0])
                    && spec_index_declaration_result(toks, skip + 6, ast@[1]))),
                def_decl ==> ((ast@.len() == 0 && self.index == old(self).index) || (ast@.len()
                    == 1 && self.index == toks.len() && spec_def_declaration_result(
                    toks,
                    skip,
                    ast@[0],
                ))),
            decreases self.measure(),
        {
            let s = self.parse_statement()?;
            ast.push(s);
        }
        Ok(ast)
    }

    /// Parses one statement: leading blank lines are skipped, the dispatch
    /// tries `return`, then declaration/assignment of an identifier, then a
    /// plain expression (possibly an assignment target), and the statement
    /// must end at a newline or at the end of the stream.
    #[verifier::loop_isolation(false)]
    fn parse_statement(&mut self) -> (r: Result<Statement, Diagnostic>)
        requires
            old(self).wf(),
        ensures
            final(self).tokens@ == old(self).tokens@,
            final(self).file == old(self).file,
            old(self).index <= final(self).index,
            final(self).index <= final(self).tokens@.len() + 1,
            r is Ok && old(self).spec_remaining() > 0 ==> final(self).index > old(self).index,
            r matches Ok(st) ==> ({
                let toks = old(self).tokens@;
                let i = spec_skip_eols(toks, old(self).index as int);
                &&& (i < toks.len() && toks[i].kind == TokenType::Keyword && toks[i].lexeme@
                    == "return"@) ==> st.node is Return
                &&& (i + 1 < toks.len() && toks[i].kind == TokenType::Identifier && toks[i
                    + 1].lexeme@ == ":"@) ==> (st.node matches StatementNode::Variable(
                    _t,
                    name,
                    _init,
                ) && name@ == toks[i].lexeme@)
                &&& (i + 1 < toks.len() && toks[i].kind == TokenType::Identifier && toks[i
                    + 1].lexeme@ != ":"@ && toks[i + 1].lexeme@ == "="@) ==> (st.node
                    matches StatementNode::Assignment(target, _v) && target.node
                    matches ExpressionNode::Identifier(n) && n@ == toks[i].lexeme@)
                &&& (i + 2 < toks.len() && toks[i].kind == TokenType::Identifier && toks[i
                    + 1].lexeme@ == ":"@ && toks[i + 2].kind == TokenType::Identifier && toks[i
                    + 2].lexeme@ != "def"@ && toks[i + 2].lexeme@ != "="@) ==> (st.node
                    matches StatementNode::Variable(t, name, _init) && name@ == toks[i].lexeme@
                    && spec_primitive_result(toks[i + 2].lexeme@, t.node) && t.mode
                    == TypeMode::Regular)
                &&& (i + 2 < toks.len() && toks[i].kind == TokenType::Identifier && toks[i
                    + 1].lexeme@ == ":"@ && toks[i + 2].lexeme@ == "def"@) ==> (st.node
                    matches StatementNode::Variable(t, name, init) && name@ == toks[i].lexeme@
                    && t.node == TypeNode::Nil && t.mode == TypeMode::Regular && (init
                    matches Some(e) && e.node is Function))
            }),
            ({
                let toks = old(self).tokens@;
                let i = spec_skip_eols(toks, old(self).index as int);
                spec_simple_declaration_at(toks, i) ==> (r matches Ok(st)
                    && spec_simple_declaration_result(toks, i, st) && final(self).index == i
                    + 6)
            }),
            ({
                let toks = old(self).tokens@;
                let i = spec_skip_eols(toks, old(self).index as int);
                spec_lone_literal_at(toks, i) ==> (r matches Ok(st) && st.node
                    matches StatementNode::Expression(e) && e == Expression {
                    node: ExpressionNode::Int(
                        crate::token::spec_dec_val(toks[i].lexeme@) as u64,
                    ),
                    pos: toks[i].pos,
                } && final(self).index == i + 2)
            }),
            ({
                let toks = old(self).tokens@;
                let i = spec_skip_eols(toks, old(self).index as int);
                &&& (i + 1 < toks.len() && toks[i].kind == TokenType::Keyword && toks[i].lexeme@
                    == "return"@ && toks[i + 1].kind == TokenType::EOL) ==> (r matches Ok(st)
                    && st.node == StatementNode::Return(None) && final(self).index == i + 2)
                &&& (i + 1 < toks.len() && toks[i].kind == TokenType::Keyword && toks[i].lexeme@
                    == "return"@ && (toks[i + 1].lexeme@ == "}"@ || toks[i + 1].lexeme@
                    == "\n"@)) ==> (r matches Ok(st) ==> st.node == StatementNode::Return(None))
                &&& (i + 1 < toks.len() && toks[i].kind == TokenType::Keyword && toks[i].lexeme@
                    == "return"@ && toks[i + 1].lexeme@ != "}"@ && toks[i + 1].lexeme@ != "\n"@)
                    ==> (r matches Ok(st) ==> st.node matches StatementNode::Return(v) && v
                    is Some)
                &&& (i + 2 < toks.len() && toks[i].kind == TokenType::Keyword && toks[i].lexeme@
                    == "return"@ && toks[i + 1].kind == TokenType::Int && toks[i + 2].kind
                    == TokenType::EOL) ==> (r matches Ok(st) && (st.node
                    matches StatementNode::Return(v) && (v matches Some(e2) && *e2
                    == spec_int_literal(toks[i + 1]))) && final(self).index == i + 3)
                &&& (i + 3 < toks.len() && toks[i].kind == TokenType::Identifier && toks[i
                    + 1].lexeme@ == "="@ && toks[i + 2].kind == TokenType::Int && toks[i
                    + 3].kind == TokenType::EOL) ==> (r matches Ok(st) && (st.node
                    matches StatementNode::Assignment(target, v) && (target.node
                    matches ExpressionNode::Identifier(n) && n@ == toks[i].lexeme@)
                    && target.pos == toks[i].pos && v == spec_int_literal(toks[i + 2]))
                    && final(self).index == i + 4)
                &&& (i + 3 < toks.len() && toks[i].kind == TokenType::Identifier && toks[i
                    + 1].lexeme@ == ":"@ && toks[i + 2].kind == TokenType::Identifier && toks[i
                    + 2].lexeme@ != "def"@ && toks[i + 2].lexeme@ != "="@ && toks[i + 3].kind
                    == TokenType::EOL) ==> (r matches Ok(st) && (st.node
                    matches StatementNode::Variable(t, name, init) && name@ == toks[i].lexeme@
                    && spec_primitive_result(toks[i + 2].lexeme@, t.node) && t.mode
                    == TypeMode::Regular && init is None) && final(self).index == i + 4)
                &&& spec_index_declaration_at(toks, i) ==> (r matches Ok(st)
                    && spec_index_declaration_result(toks, i, st) && final(self).index == i + 8)
                &&& spec_def_declaration_at(toks, i) ==> (r matches Ok(st)
                    && spec_def_declaration_result(toks, i, st) && final(self).index == i + 21)
            }),
        decreases old(self).measure(), 6int,
    {
        while self.current_type() == TokenType::EOL && self.remaining() != 0
            invariant
                self.wf(),
                self.tokens@ == old(self).tokens@,
                self.file == old(self).file,
                old(self).index <= self.index,
                spec_skip_eols(self.tokens@, old(self).index as int) == spec_skip_eols(
                    self.tokens@,
                    self.index as int,
                ),
            decreases self.measure(),
        {
            let res = self.next();
            proof {
                assert(res is Ok);
            }
        }
        proof {
            assert(self.index == spec_skip_eols(self.tokens@, old(self).index as int));
            lemma_grammar_lexemes();
            let toks = self.tokens@;
            let i = spec_skip_eols(toks, old(self).index as int);
            if i + 1 < toks.len() && toks[i + 1].kind == TokenType::Int {
                assert(token_wf(toks[i + 1]));
                lemma_digits_not_delimiters(toks[i + 1].lexeme@);
            }
        }
        let statement: Statement;
        match self.current_type() {
            TokenType::Keyword => {
                if self.lex_is("return") {
                    let position = self.current_position();
                    self.next()?;
                    let l = self.current_lexeme();
                    if str_eq(l.as_str(), "}") || str_eq(l.as_str(), "\n") {
                        statement = Statement::new(StatementNode::Return(None), position);
                    } else {
                        let value = self.parse_expression()?;
                        statement = Statement::new(
                            StatementNode::Return(Some(Box::new(value))),
                            self.span_from(position),
                        );
                    }
                } else {
                    let expression = self.parse_expression()?;
                    let position = expression.pos;
                    statement = Statement::new(StatementNode::Expression(expression), position);
                }
            },
            TokenType::Identifier => {
                let backup_index = self.index;
                let position = self.current_position();
                let name = self.eat_type(TokenType::Identifier)?;
                if self.lex_is(":") {
                    self.next()?;
                    let decl_position = self.current_position();
                    let backup = self.index;
                    match self.parse_right_hand()? {
                        Some(right) => {
                            statement = Statement::new(
                                StatementNode::Variable(
                                    Type::from(TypeNode::Nil),
                                    name,
                                    Some(right),
                                ),
                                self.span_from(decl_position),
                            );
                        },
                        None => {
                            self.index = backup;
                            let kind = if self.lex_is("=") {
                                Type::from(TypeNode::Nil)
                            } else {
                                self.parse_type()?
                            };
                            if self.lex_is("=") {
                                self.next()?;
                                let value = self.parse_expression()?;
                                statement = Statement::new(
                                    StatementNode::Variable(kind, name, Some(value)),
                                    self.span_from(decl_position),
                                );
                            } else {
                                statement = Statement::new(
                                    StatementNode::Variable(kind, name, None),
                                    self.span_from(decl_position),
                                );
                            }
                        },
                    }
                } else if self.lex_is("=") {
                    self.next()?;
                    let value = self.parse_expression()?;
                    statement = Statement::new(
                        StatementNode::Assignment(
                            Expression::new(ExpressionNode::Identifier(name), position),
                            value,
                        ),
                        position,
                    );
                } else {
                    self.index = backup_index;
                    let expression = self.parse_expression()?;
                    let expr_position = expression.pos;
                    if self.lex_is("=") {
                        self.next()?;
                        let value = self.parse_expression()?;
                        statement = Statement::new(
                            StatementNode::Assignment(expression, value),
                            expr_position,
                        );
                    } else {
                        statement = Statement::new(
                            StatementNode::Expression(expression),
                            expr_position,
                        );
                    }
                }
            },
            _ => {
                let expression = self.parse_expression()?;
                let position = expression.pos;
                if self.lex_is("=") {
                    self.next()?;
                    let value = self.parse_expression()?;
                    statement = Statement::new(
                        StatementNode::Assignment(expression, value),
                        position,
                    );
                } else {
                    statement = Statement::new(StatementNode::Expression(expression), position);
                }
            },
        }
        self.new_line()?;
        Ok(statement)
    }

    /// Attempts the right-hand function-literal shorthand of a declaration
    /// (`def …`): on any other lookahead it consumes nothing and yields
    /// nothing, which is what the declaration grammar backtracks on.
    fn parse_right_hand(&mut self) -> (r: Result<Option<Expression>, Diagnostic>)
        requires
            old(self).wf(),
        ensures
            final(self).tokens@ == old(self).tokens@,
            final(self).file == old(self).file,
            old(self).index <= final(self).index,
            final(self).index <= final(self).tokens@.len() + 1,
            r matches Ok(Some(e)) ==> final(self).index > old(self).index && e.node is Function
                && old(self).spec_cur().lexeme@ == "def"@,
            r matches Ok(None) ==> final(self).index == old(self).index && old(
                self,
            ).spec_cur().lexeme@ != "def"@,
            old(self).spec_cur().lexeme@ != "def"@ ==> r == Ok::<Option<Expression>, Diagnostic>(
                None,
            ),
            ({
                let toks = old(self).tokens@;
                let i = old(self).index as int;
                (i + 4 < toks.len() && toks[i].lexeme@ == "def"@ && toks[i + 1].kind
                    == TokenType::Symbol && toks[i + 1].lexeme@ == "("@ && toks[i + 2].lexeme@
                    == ")"@ && toks[i + 3].kind == TokenType::Symbol && toks[i + 3].lexeme@
                    == "{"@ && toks[i + 4].lexeme@ == "}"@ && spec_no_postfix(
                    spec_tok_at(toks, i + 5),
                ) && spec_tok_at(toks, i + 5).kind != TokenType::Operator) ==> (r matches Ok(o)
                    && (o matches Some(e) && (e.node matches ExpressionNode::Function(
                    params,
                    retty,
                    body,
                    generics,
                ) && params@.len() == 0 && retty == Type { node: TypeNode::Nil, mode: TypeMode::Regular }
                    && ((*body).node matches ExpressionNode::Block(ss) && ss@.len() == 0) && (
                generics matches Some(g) && g@.len() == 0))) && final(self).index == i + 5)
            }),
            ({
                let toks = old(self).tokens@;
                let i = old(self).index as int;
                (spec_def_literal_at(toks, i) && spec_no_postfix(spec_tok_at(toks, i + 18))
                    && spec_tok_at(toks, i + 18).kind != TokenType::Operator) ==> (r
                    matches Ok(o) && (o matches Some(e) && spec_def_literal_result(toks, i, e))
                    && final(self).index == i + 18)
            }),
        decreases old(self).measure(), 2int,
    {
        proof {
            lemma_grammar_lexemes();
        }
        if self.lex_is("def") {
            let mut position = self.current_position();
            self.next()?;
            self.next_newline()?;
            let generics: Vec<String> = if self.lex_is("<") {
                self.parse_block_of_names("<", ">")?
            } else {
                Vec::new()
            };
            self.next_newline()?;
            let params: Vec<(String, Type)> = if self.lex_is("(") {
                self.parse_block_of_params("(", ")")?
            } else {
                Vec::new()
            };
            let retty = if self.lex_is("->") {
                self.next()?;
                self.parse_type()?
            } else {
                Type::from(TypeNode::Nil)
            };
            position = self.span_from(position);
            self.next_newline()?;
            self.expect_lexeme("{")?;
            let body = self.parse_expression()?;
            Ok(
                Some(
                    Expression::new(
                        ExpressionNode::Function(params, retty, Box::new(body), Some(generics)),
                        position,
                    ),
                ),
            )
        } else {
            Ok(None)
        }
    }

    /// Parses one expression: an atom with its postfix chain, handed to the
    /// binary expression engine when an operator follows. The result is the
    /// `EOF` marker exactly when the window was already exhausted.
    fn parse_expression(&mut self) -> (r: Result<Expression, Diagnostic>)
        requires
            old(self).wf(),
        ensures
            final(self).tokens@ == old(self).tokens@,
            final(self).file == old(self).file,
            old(self).index <= final(self).index,
            final(self).index <= final(self).tokens@.len() + 1,
            r matches Ok(e) ==> ((e.node is EOF) <==> old(self).spec_remaining() == 0),
            r is Ok && old(self).spec_remaining() > 0 ==> final(self).index > old(self).index,
            (old(self).spec_remaining() == 0 && old(self).spec_cur().kind != TokenType::Operator)
                ==> (r matches Ok(e) && e.node == ExpressionNode::EOF && final(self).index
                == old(self).index),
            ({
                let toks = old(self).tokens@;
                let i = old(self).index as int;
                let after = if i + 1 > toks.len() - 1 {
                    toks[toks.len() - 1]
                } else {
                    toks[i + 1]
                };
                &&& (i < toks.len() && toks[i].kind == TokenType::Int && spec_no_postfix(after)
                    && after.kind != TokenType::Operator) ==> (r matches Ok(e) && e
                    == Expression {
                    node: ExpressionNode::Int(
                        crate::token::spec_dec_val(toks[i].lexeme@) as u64,
                    ),
                    pos: toks[i].pos,
                } && final(self).index == i + 1)
                &&& (i < toks.len() && toks[i].kind == TokenType::Identifier && spec_no_postfix(
                    after,
                ) && after.kind != TokenType::Operator) ==> (r matches Ok(e) && e.node
                    matches ExpressionNode::Identifier(n) && n@ == toks[i].lexeme@ && e.pos
                    == toks[i].pos && final(self).index == i + 1)
                &&& (i < toks.len() && toks[i].kind == TokenType::Symbol && toks[i].lexeme@
                    == "{"@ && i + 1 < toks.len() && toks[i + 1].lexeme@ == "}"@
                    && spec_no_postfix(spec_tok_at(toks, i + 2)) && spec_tok_at(toks, i + 2).kind
                    != TokenType::Operator) ==> (r matches Ok(e) && (e.node
                    matches ExpressionNode::Block(ss) && ss@.len() == 0) && e.pos
                    == toks[i].pos && final(self).index == i + 2)
                &&& (i < toks.len() && toks[i].kind == TokenType::Identifier && toks[i + 1].kind
                    == TokenType::Symbol && toks[i + 1].lexeme@ == "["@ && toks[i + 2].kind
                    == TokenType::Int && i + 3 < toks.len() && toks[i + 3].kind
                    == TokenType::Symbol && toks[i + 3].lexeme@ == "]"@ && spec_no_postfix(
                    spec_tok_at(toks, i + 4),
                ) && spec_tok_at(toks, i + 4).kind != TokenType::Operator) ==> (r matches Ok(e)
                    && (e.node matches ExpressionNode::Index(b, sub) && ((*b).node
                    matches ExpressionNode::Identifier(n) && n@ == toks[i].lexeme@) && (*b).pos
                    == toks[i].pos && *sub == spec_int_literal(toks[i + 2]))
                    && final(self).index == i + 4)
                &&& (spec_return_block_at(toks, i) && spec_no_postfix(spec_tok_at(toks, i + 6))
                    && spec_tok_at(toks, i + 6).kind != TokenType::Operator) ==> (r
                    matches Ok(e) && spec_return_block_result(toks, i, e) && e.pos
                    == toks[i].pos && final(self).index == i + 6)
            }),
        decreases old(self).measure(), 5int,
    {
        let atom = self.parse_atom()?;
        if self.current_type() == TokenType::Operator {
            self.parse_binary(atom)
        } else {
            Ok(atom)
        }
    }

    /// Parses an atom: a literal, identifier, unary unwrap, block, array
    /// literal, parenthesized expression or unit, or an `if`/`elif`/`else`
    /// chain, followed by its postfix chain.
    #[verifier::loop_isolation(false)]
    #[verifier::rlimit(60)]
    fn parse_atom(&mut self) -> (r: Result<Expression, Diagnostic>)
        requires
            old(self).wf(),
        ensures
            final(self).tokens@ == old(self).tokens@,
            final(self).file == old(self).file,
            old(self).index <= final(self).index,
            final(self).index <= final(self).tokens@.len() + 1,
            r matches Ok(e) ==> ((e.node is EOF) <==> old(self).spec_remaining() == 0),
            r is Ok && old(self).spec_remaining() > 0 ==> final(self).index > old(self).index,
            ({
                let toks = old(self).tokens@;
                let i = old(self).index as int;
                let after = if i + 1 > toks.len() - 1 {
                    toks[toks.len() - 1]
                } else {
                    toks[i + 1]
                };
                &&& (i < toks.len() && toks[i].kind == TokenType::Int && spec_no_postfix(after))
                    ==> (r matches Ok(e) && e == Expression {
                    node: ExpressionNode::Int(
                        crate::token::spec_dec_val(toks[i].lexeme@) as u64,
                    ),
                    pos: toks[i].pos,
                } && final(self).index == i + 1)
                &&& (i < toks.len() && toks[i].kind == TokenType::Identifier && spec_no_postfix(
                    after,
                )) ==> (r matches Ok(e) && e.node matches ExpressionNode::Identifier(n) && n@
                    == toks[i].lexeme@ && e.pos == toks[i].pos && final(self).index == i + 1)
                &&& (i < toks.len() && toks[i].kind == TokenType::Bool && spec_no_postfix(after))
                    ==> (r matches Ok(e) && e == Expression {
                    node: ExpressionNode::Bool(toks[i].lexeme@ == "true"@),
                    pos: toks[i].pos,
                } && final(self).index == i + 1)
                &&& (i < toks.len() && toks[i].kind == TokenType::Str && spec_no_postfix(after))
                    ==> (r matches Ok(e) && (e.node matches ExpressionNode::Str(sv) && sv@
                    == toks[i].lexeme@) && e.pos == toks[i].pos && final(self).index == i + 1)
                &&& (i < toks.len() && toks[i].kind == TokenType::Float && spec_no_postfix(
                    after,
                )) ==> (r matches Ok(e) && (e.node matches ExpressionNode::Float(sv) && sv@
                    == toks[i].lexeme@) && e.pos == toks[i].pos && final(self).index == i + 1)
                &&& (i < toks.len() && toks[i].kind == TokenType::Char && spec_no_postfix(after))
                    ==> (r matches Ok(e) && e == Expression {
                    node: ExpressionNode::Char(toks[i].lexeme@[toks[i].lexeme@.len() - 1]),
                    pos: toks[i].pos,
                } && final(self).index == i + 1)
                &&& (i < toks.len() && toks[i].kind == TokenType::Operator && toks[i].lexeme@
                    != "*"@) ==> (r matches Err(d) && (d.kind
                    matches DiagnosticKind::UnexpectedSymbol(sv) && sv@ == toks[i].lexeme@))
                &&& (i < toks.len() && toks[i].kind == TokenType::Symbol && toks[i].lexeme@
                    != "{"@ && toks[i].lexeme@ != "["@ && toks[i].lexeme@ != "("@) ==> (r
                    matches Err(d) && (d.kind matches DiagnosticKind::UnexpectedSymbol(sv)
                    && sv@ == toks[i].lexeme@))
                &&& (i < toks.len() && toks[i].kind == TokenType::Keyword && toks[i].lexeme@
                    != "if"@) ==> (r matches Err(d) && (d.kind
                    matches DiagnosticKind::UnexpectedKeyword(sv) && sv@ == toks[i].lexeme@))
                &&& (i < toks.len() && toks[i].kind == TokenType::EOL) ==> (r matches Err(d)
                    && d.kind == DiagnosticKind::UnexpectedToken(TokenType::EOL))
                &&& (i < toks.len() && toks[i].kind == TokenType::Symbol && toks[i].lexeme@
                    == "{"@ && i + 1 < toks.len() && toks[i + 1].lexeme@ == "}"@
                    && spec_no_postfix(spec_tok_at(toks, i + 2))) ==> (r matches Ok(e) && (e.node
                    matches ExpressionNode::Block(ss) && ss@.len() == 0) && e.pos
                    == toks[i].pos && final(self).index == i + 2)
                &&& (i < toks.len() && toks[i].kind == TokenType::Identifier && toks[i + 1].kind
                    == TokenType::Symbol && toks[i + 1].lexeme@ == "["@ && toks[i + 2].kind
                    == TokenType::Int && i + 3 < toks.len() && toks[i + 3].kind
                    == TokenType::Symbol && toks[i + 3].lexeme@ == "]"@ && spec_no_postfix(
                    spec_tok_at(toks, i + 4),
                )) ==> (r matches Ok(e) && (e.node matches ExpressionNode::Index(b, sub) && ((
                *b).node matches ExpressionNode::Identifier(n) && n@ == toks[i].lexeme@) && (
                *b).pos == toks[i].pos && *sub == spec_int_literal(toks[i + 2]))
                    && final(self).index == i + 4)
                &&& (spec_return_block_at(toks, i) && spec_no_postfix(spec_tok_at(toks, i + 6)))
                    ==> (r matches Ok(e) && spec_return_block_result(toks, i, e) && e.pos
                    == toks[i].pos && final(self).index == i + 6)
                &&& (i < toks.len() && toks[i].kind == TokenType::Symbol && toks[i].lexeme@
                    == "("@ && i + 1 < toks.len() && toks[i + 1].lexeme@ == ")"@
                    && spec_no_postfix(spec_tok_at(toks, i + 2))) ==> (r matches Ok(e) && e.node
                    == ExpressionNode::Empty && final(self).index == i + 2)
                &&& (i < toks.len() && toks[i].kind == TokenType::Symbol && toks[i].lexeme@
                    == "("@ && toks[i + 1].kind == TokenType::Int && i + 2 < toks.len()
                    && toks[i + 2].kind == TokenType::Symbol && toks[i + 2].lexeme@ == ")"@
                    && spec_no_postfix(spec_tok_at(toks, i + 3))) ==> (r matches Ok(e) && e
                    == spec_int_literal(toks[i + 1]) && final(self).index == i + 3)
                &&& (i + 1 < toks.len() && toks[i].kind == TokenType::Operator && toks[i].lexeme@
                    == "*"@ && toks[i + 1].kind == TokenType::Int && spec_no_postfix(
                    spec_tok_at(toks, i + 2),
                ) && spec_tok_at(toks, i + 2).kind != TokenType::Operator) ==> (r matches Ok(e)
                    && (e.node matches ExpressionNode::Unwrap(inner) && *inner
                    == spec_int_literal(toks[i + 1])) && final(self).index == i + 2)
                &&& (i + 3 < toks.len() && toks[i].kind == TokenType::Keyword && toks[i].lexeme@
                    == "if"@ && toks[i + 1].kind == TokenType::Identifier && toks[i + 2].kind
                    == TokenType::Symbol && toks[i + 2].lexeme@ == "{"@ && toks[i + 3].lexeme@
                    == "}"@ && spec_tok_at(toks, i + 4).lexeme@ != "elif"@ && spec_tok_at(
                    toks,
                    i + 4,
                ).lexeme@ != "else"@ && spec_no_postfix(spec_tok_at(toks, i + 4))) ==> (r
                    matches Ok(e) && (e.node matches ExpressionNode::If(c, b, els) && ((
                *c).node matches ExpressionNode::Identifier(n) && n@ == toks[i + 1].lexeme@) && ((
                *b).node matches ExpressionNode::Block(ss) && ss@.len() == 0) && els is None)
                    && final(self).index == i + 4)
            }),
            old(self).spec_remaining() == 0 ==> (r matches Ok(e) && e.node
                == ExpressionNode::EOF && final(self).index == old(self).index),
        decreases old(self).measure(), 3int,
    {
        if self.remaining() == 0 {
            return Ok(Expression::new(ExpressionNode::EOF, self.current_position()));
        }
        proof {
            lemma_grammar_lexemes();
            let toks = self.tokens@;
            let i = self.index as int;
            if i + 1 < toks.len() && toks[i + 1].kind == TokenType::Int {
                assert(token_wf(toks[i + 1]));
                lemma_digits_not_delimiters(toks[i + 1].lexeme@);
            }
        }
        let ghost toksa = old(self).tokens@;
        let ghost ia = old(self).index as int;
        let ghost gif = ia + 3 < toksa.len() && toksa[ia].kind == TokenType::Keyword
            && toksa[ia].lexeme@ == "if"@ && toksa[ia + 1].kind == TokenType::Identifier
            && toksa[ia + 2].kind == TokenType::Symbol && toksa[ia + 2].lexeme@ == "{"@
            && toksa[ia + 3].lexeme@ == "}"@ && spec_tok_at(toksa, ia + 4).lexeme@ != "elif"@
            && spec_tok_at(toksa, ia + 4).lexeme@ != "else"@ && spec_no_postfix(
            spec_tok_at(toksa, ia + 4),
        );
        let token_type = self.current_type();
        let position = self.current_position();
        let expression: Expression;
        match token_type {
            TokenType::Int => {
                let s = self.eat()?;
                proof {
                    assert(token_wf(old(self).spec_cur()));
                }
                let v = parse_u64(s.as_str());
                expression = Expression::new(ExpressionNode::Int(v), position);
            },
            TokenType::Float => {
                let s = self.eat()?;
                expression = Expression::new(ExpressionNode::Float(s), position);
            },
            TokenType::Char => {
                let s = self.eat()?;
                proof {
                    assert(token_wf(old(self).spec_cur()));
                }
                let n = s.as_str().unicode_len();
                let c = s.as_str().get_char(n - 1);
                expression = Expression::new(ExpressionNode::Char(c), position);
            },
            TokenType::Str => {
                let s = self.eat()?;
                expression = Expression::new(ExpressionNode::Str(s), position);
            },
            TokenType::Identifier => {
                let s = self.eat()?;
                expression = Expression::new(ExpressionNode::Identifier(s), position);
            },
            TokenType::Bool => {
                let s = self.eat()?;
                let b = str_eq(s.as_str(), "true");
                expression = Expression::new(ExpressionNode::Bool(b), position);
            },
            TokenType::Operator => {
                if self.lex_is("*") {
                    self.next()?;
                    let inner = self.parse_expression()?;
                    expression = Expression::new(
                        ExpressionNode::Unwrap(Box::new(inner)),
                        self.span_from(position),
                    );
                } else {
                    return Err(
                        Diagnostic::wrong(
                            DiagnosticKind::UnexpectedSymbol(self.current_lexeme()),
                            self.file.clone(),
                            Some(TokenElement::Ref(self.current().duplicate())),
                        ),
                    );
                }
            },
            TokenType::Symbol => {
                if self.lex_is("{") {
                    let statements = self.parse_block_of_statements("{", "}")?;
                    expression = Expression::new(ExpressionNode::Block(statements), position);
                } else if self.lex_is("[") {
                    let elements = self.parse_block_of_expressions("[", "]")?;
                    expression = Expression::new(
                        ExpressionNode::Array(elements),
                        self.span_from(position),
                    );
                } else if self.lex_is("(") {
                    self.next()?;
                    self.next_newline()?;
                    if self.lex_is(")") {
                        self.next()?;
                        expression = Expression::new(
                            ExpressionNode::Empty,
                            self.span_from(position),
                        );
                    } else {
                        let inner = self.parse_expression()?;
                        self.eat_lexeme(")")?;
                        expression = inner;
                    }
                } else {
                    return Err(
                        Diagnostic::wrong(
                            DiagnosticKind::UnexpectedSymbol(self.current_lexeme()),
                            self.file.clone(),
                            Some(TokenElement::Ref(self.current().duplicate())),
                        ),
                    );
                }
            },
            TokenType::Keyword => {
                if self.lex_is("if") {
                    self.next()?;
                    let condition = self.parse_expression()?;
                    let if_position = self.span_from(position);
                    let body_statements = self.parse_block_of_statements("{", "}")?;
                    let body = Expression::new(ExpressionNode::Block(body_statements), position);
                    let mut elses: Vec<(Option<Expression>, Expression, Pos)> = Vec::new();
                    let mut going = true;
                    while going
                        invariant
                            self.wf(),
                            self.tokens@ == old(self).tokens@,
                            self.file == old(self).file,
                            old(self).index < self.index,
                            gif ==> (elses@.len() == 0 && self.index == ia + 4),
                        decreases self.measure(), (if going {
                            1int
                        } else {
                            0int
                        }),
                    {
                        let branch_position = self.current_position();
                        if self.lex_is("elif") {
                            self.next()?;
                            let c = self.parse_expression()?;
                            let branch_body_position = self.current_position();
                            let b = self.parse_block_of_statements("{", "}")?;
                            elses.push(
                                (
                                    Some(c),
                                    Expression::new(
                                        ExpressionNode::Block(b),
                                        branch_body_position,
                                    ),
                                    branch_position,
                                ),
                            );
                        } else if self.lex_is("else") {
                            self.next()?;
                            let branch_body_position = self.current_position();
                            let b = self.parse_block_of_statements("{", "}")?;
                            elses.push(
                                (
                                    None,
                                    Expression::new(
                                        ExpressionNode::Block(b),
                                        branch_body_position,
                                    ),
                                    branch_position,
                                ),
                            );
                        } else {
                            going = false;
                        }
                    }
                    let elses_opt = if elses.len() > 0 {
                        Some(elses)
                    } else {
                        None
                    };
                    expression = Expression::new(
                        ExpressionNode::If(Box::new(condition), Box::new(body), elses_opt),
                        if_position,
                    );
                } else {
                    return Err(
                        Diagnostic::wrong(
                            DiagnosticKind::UnexpectedKeyword(self.current_lexeme()),
                            self.file.clone(),
                            Some(TokenElement::Ref(self.current().duplicate())),
                        ),
                    );
                }
            },
            TokenType::EOL => {
                return Err(
                    Diagnostic::wrong(
                        DiagnosticKind::UnexpectedToken(token_type),
                        self.file.clone(),
                        Some(TokenElement::Ref(self.current().duplicate())),
                    ),
                );
            },
        }
        self.parse_postfix(expression)
    }

    /// Applies postfix forms left to right, repeatedly: a call `(args)`, an
    /// index `[expr]`, or a cast `as Type`.
    fn parse_postfix(&mut self, expression: Expression) -> (r: Result<Expression, Diagnostic>)
        requires
            old(self).wf(),
        ensures
            final(self).tokens@ == old(self).tokens@,
            final(self).file == old(self).file,
            old(self).index <= final(self).index,
            final(self).index <= final(self).tokens@.len() + 1,
            !(expression.node is EOF) ==> (r matches Ok(e) ==> !(e.node is EOF)),
            spec_no_postfix(old(self).spec_cur()) ==> r == Ok::<Expression, Diagnostic>(
                expression,
            ) && final(self).index == old(self).index,
            ({
                let toks = old(self).tokens@;
                let i = old(self).index as int;
                (i < toks.len() && toks[i].kind == TokenType::Keyword && toks[i].lexeme@
                    == "as"@ && toks[i + 1].kind == TokenType::Identifier && spec_no_postfix(
                    spec_tok_at(toks, i + 2),
                )) ==> (r matches Ok(e) && (e.node matches ExpressionNode::Cast(b, t) && *b
                    == expression && spec_primitive_result(toks[i + 1].lexeme@, t.node)
                    && t.mode == TypeMode::Regular) && e.pos == expression.pos
                    && final(self).index == i + 2)
            }),
            ({
                let toks = old(self).tokens@;
                let i = old(self).index as int;
                (i < toks.len() && toks[i].kind == TokenType::Symbol && toks[i].lexeme@ == "["@
                    && toks[i + 1].kind == TokenType::Int && i + 2 < toks.len() && toks[i
                    + 2].kind == TokenType::Symbol && toks[i + 2].lexeme@ == "]"@
                    && spec_no_postfix(spec_tok_at(toks, i + 3))) ==> (r matches Ok(e) && (e.node
                    matches ExpressionNode::Index(b, sub) && *b == expression && *sub
                    == spec_int_literal(toks[i + 1])) && final(self).index == i + 3)
            }),
            ({
                let toks = old(self).tokens@;
                let i = old(self).index as int;
                (i < toks.len() && toks[i].kind == TokenType::Symbol && toks[i].lexeme@ == "("@
                    && i + 1 < toks.len() && toks[i + 1].lexeme@ == ")"@ && spec_no_postfix(
                    spec_tok_at(toks, i + 2),
                )) ==> (r matches Ok(e) && (e.node matches ExpressionNode::Call(b, args) && *b
                    == expression && args@.len() == 0) && final(self).index == i + 2)
            }),
        decreases old(self).measure(), 1int,
    {
        proof {
            lemma_grammar_lexemes();
        }
        match self.current_type() {
            TokenType::Symbol => {
                if self.lex_is("(") {
                    let args = self.parse_block_of_expressions("(", ")")?;
                    let position = expression.pos;
                    let call = Expression::new(
                        ExpressionNode::Call(Box::new(expression), args),
                        self.span_from(position),
                    );
                    self.parse_postfix(call)
                } else if self.lex_is("[") {
                    self.next()?;
                    let subscript = self.parse_expression()?;
                    self.eat_lexeme("]")?;
                    let position = expression.pos;
                    let index_expression = Expression::new(
                        ExpressionNode::Index(Box::new(expression), Box::new(subscript)),
                        self.span_from(position),
                    );
                    self.parse_postfix(index_expression)
                } else {
                    Ok(expression)
                }
            },
            TokenType::Keyword => {
                if self.lex_is("as") {
                    self.next()?;
                    let t = self.parse_type()?;
                    let position = expression.pos;
                    self.parse_postfix(
                        Expression::new(ExpressionNode::Cast(Box::new(expression), t), position),
                    )
                } else {
                    Ok(expression)
                }
            },
            _ => Ok(expression),
        }
    }

    /// The binary expression engine: a simplified shunting-yard that
    /// collapses only when the incoming operator binds strictly weaker than
    /// the stack's top, so runs of equal or rising precedence group to the
    /// right. The result is always a binary node spanning from the left
    /// operand.
    #[verifier::loop_isolation(false)]
    fn parse_binary(&mut self, left: Expression) -> (r: Result<Expression, Diagnostic>)
        requires
            old(self).wf(),
            old(self).spec_cur().kind == TokenType::Operator,
        ensures
            final(self).tokens@ == old(self).tokens@,
            final(self).file == old(self).file,
            old(self).index <= final(self).index,
            final(self).index <= final(self).tokens@.len() + 1,
            r is Ok ==> old(self).index < old(self).tokens@.len() && final(self).index > old(
                self,
            ).index,
            r matches Ok(e) ==> e.node is Binary,
            ({
                let toks = old(self).tokens@;
                let i = old(self).index as int;
                let p1 = spec_operator_of(toks[i].lexeme@)->Some_0;
                (i + 1 < toks.len() && toks[i + 1].kind == TokenType::Int && spec_no_postfix(
                    spec_tok_at(toks, i + 2),
                ) && spec_tok_at(toks, i + 2).kind != TokenType::Operator) ==> (r matches Ok(e)
                    && spec_is_binary_of(e, left, p1.0, spec_int_literal(toks[i + 1]))
                    && final(self).index == i + 2)
            }),
            ({
                let toks = old(self).tokens@;
                let i = old(self).index as int;
                let p1 = spec_operator_of(toks[i].lexeme@)->Some_0;
                let p2 = spec_operator_of(toks[i + 2].lexeme@)->Some_0;
                let b = spec_int_literal(toks[i + 1]);
                let c = spec_int_literal(toks[i + 3]);
                (i + 3 < toks.len() && toks[i + 1].kind == TokenType::Int && toks[i + 2].kind
                    == TokenType::Operator && toks[i + 3].kind == TokenType::Int
                    && spec_no_postfix(spec_tok_at(toks, i + 4)) && spec_tok_at(toks, i + 4).kind
                    != TokenType::Operator) ==> (r matches Ok(e) && final(self).index == i + 4
                    && (if p2.1 < p1.1 {
                    e.node matches ExpressionNode::Binary(bl, bo, br) && bo == p2.0 && *br == c
                        && spec_is_binary_of(*bl, left, p1.0, b)
                } else {
                    e.node matches ExpressionNode::Binary(bl, bo, br) && *bl == left && bo
                        == p1.0 && spec_is_binary_of(*br, b, p2.0, c)
                }))
            }),
            ({
                let toks = old(self).tokens@;
                let i = old(self).index as int;
                let p1 = spec_operator_of(toks[i].lexeme@)->Some_0;
                let p2 = spec_operator_of(spec_tok_at(toks, i + 2).lexeme@)->Some_0;
                (i + 2 == toks.len() - 1 && toks[i + 1].kind == TokenType::Int && toks[i
                    + 2].kind == TokenType::Operator && p2.1 < p1.1) ==> (r matches Err(d)
                    && d.kind == DiagnosticKind::EofInOperation)
            }),
        decreases old(self).measure(), 4int,
    {
        let ghost toksg = old(self).tokens@;
        let ghost ig = old(self).index as int;
        let ghost left0 = left;
        let ghost p1g = spec_operator_of(toksg[ig].lexeme@)->Some_0;
        let ghost bexp = spec_int_literal(spec_tok_at(toksg, ig + 1));
        let ghost g1 = ig + 1 < toksg.len() && toksg[ig + 1].kind == TokenType::Int
            && spec_no_postfix(spec_tok_at(toksg, ig + 2)) && spec_tok_at(toksg, ig + 2).kind
            != TokenType::Operator;
        let ghost p2g = spec_operator_of(spec_tok_at(toksg, ig + 2).lexeme@)->Some_0;
        let ghost cexp = spec_int_literal(spec_tok_at(toksg, ig + 3));
        let ghost g2 = ig + 3 < toksg.len() && toksg[ig + 1].kind == TokenType::Int && toksg[ig
            + 2].kind == TokenType::Operator && toksg[ig + 3].kind == TokenType::Int
            && spec_no_postfix(spec_tok_at(toksg, ig + 4)) && spec_tok_at(toksg, ig + 4).kind
            != TokenType::Operator;
        let ghost g3 = ig + 2 == toksg.len() - 1 && toksg[ig + 1].kind == TokenType::Int
            && toksg[ig + 2].kind == TokenType::Operator && p2g.1 < p1g.1;
        let left_position = left.pos;
        let mut expression_stack: Vec<Expression> = Vec::new();
        let mut operator_stack: Vec<(Operator, u8)> = Vec::new();
        expression_stack.push(left);
        proof {
            assert(token_wf(old(self).spec_cur()));
        }
        let first = self.eat()?;
        let first_op: (Operator, u8) = match Operator::from_str(first.as_str()) {
            Some(p) => p,
            None => vstd::pervasive::unreached(),
        };
        operator_stack.push(first_op);
        let atom1 = self.parse_atom()?;
        expression_stack.push(atom1);

        while operator_stack.len() > 0
            invariant
                self.wf(),
                self.tokens@ == old(self).tokens@,
                self.file == old(self).file,
                old(self).index < self.index,
                expression_stack@.len() == operator_stack@.len() + 1,
                old(self).index >= old(self).tokens@.len() ==> (self.index == self.tokens@.len()
                    + 1 && operator_stack@.len() > 0),
                operator_stack@.len() == 0 ==> expression_stack@.len() == 1
                    && expression_stack@[0].node is Binary,
                g1 ==> ((self.index == ig + 2 && expression_stack@ =~= seq![left0, bexp]
                    && operator_stack@ =~= seq![p1g]) || (self.index == ig + 2
                    && operator_stack@.len() == 0 && expression_stack@.len() == 1
                    && spec_is_binary_of(expression_stack@[0], left0, p1g.0, bexp))),
                g3 ==> (self.index == ig + 2 && expression_stack@ =~= seq![left0, bexp]
                    && operator_stack@ =~= seq![p1g]),
                g2 ==> ((self.index == ig + 2 && expression_stack@ =~= seq![left0, bexp]
                    && operator_stack@ =~= seq![p1g]) || (p2g.1 < p1g.1 && self.index == ig + 4
                    && operator_stack@.len() == 0 && expression_stack@.len() == 1 && (
                expression_stack@[0].node matches ExpressionNode::Binary(bl, bo, br) && bo
                    == p2g.0 && *br == cexp && spec_is_binary_of(*bl, left0, p1g.0, bexp))) || (
                p2g.1 >= p1g.1 && self.index == ig + 4 && operator_stack@ =~= seq![p1g]
                    && expression_stack@.len() == 2 && expression_stack@[0] == left0
                    && spec_is_binary_of(expression_stack@[1], bexp, p2g.0, cexp)) || (p2g.1
                    >= p1g.1 && self.index == ig + 4 && operator_stack@.len() == 0
                    && expression_stack@.len() == 1 && (expression_stack@[0].node
                    matches ExpressionNode::Binary(bl, bo, br) && *bl == left0 && bo == p1g.0
                    && spec_is_binary_of(*br, bexp, p2g.0, cexp)))),
            decreases self.measure(), operator_stack@.len(),
        {
            let ghost outer_index = self.index;
            let ghost outer_oplen = operator_stack@.len();
            while self.current_type() == TokenType::Operator
                invariant
                    self.wf(),
                    self.tokens@ == old(self).tokens@,
                    self.file == old(self).file,
                    old(self).index < self.index,
                    outer_index <= self.index,
                    self.index == outer_index ==> operator_stack@.len() == outer_oplen,
                    expression_stack@.len() == operator_stack@.len() + 1,
                    operator_stack@.len() >= 1,
                    old(self).index >= old(self).tokens@.len() ==> self.index
                        == self.tokens@.len() + 1,
                    g1 ==> (self.index == ig + 2 && expression_stack@ =~= seq![left0, bexp]
                        && operator_stack@ =~= seq![p1g]),
                    g3 ==> (self.index == ig + 2 && expression_stack@ =~= seq![left0, bexp]
                        && operator_stack@ =~= seq![p1g]),
                    g2 ==> ((self.index == ig + 2 && expression_stack@ =~= seq![left0, bexp]
                        && operator_stack@ =~= seq![p1g]) || (p2g.1 < p1g.1 && self.index == ig
                        + 4 && operator_stack@ =~= seq![p2g] && expression_stack@.len() == 2
                        && spec_is_binary_of(expression_stack@[0], left0, p1g.0, bexp)
                        && expression_stack@[1] == cexp) || (p2g.1 >= p1g.1 && self.index == ig
                        + 4 && operator_stack@ =~= seq![p1g, p2g] && expression_stack@
                        =~= seq![left0, bexp, cexp]) || (p2g.1 >= p1g.1 && self.index == ig + 4
                        && operator_stack@ =~= seq![p1g] && expression_stack@.len() == 2
                        && expression_stack@[0] == left0 && spec_is_binary_of(
                        expression_stack@[1],
                        bexp,
                        p2g.0,
                        cexp,
                    ))),
                decreases self.measure(),
            {
                let position = self.current_position();
                proof {
                    assert(token_wf(self.spec_cur()));
                }
                let s = self.eat()?;
                let parsed_op: (Operator, u8) = match Operator::from_str(s.as_str()) {
                    Some(p) => p,
                    None => vstd::pervasive::unreached(),
                };
                let top_precedence = operator_stack[operator_stack.len() - 1].1;
                if parsed_op.1 < top_precedence {
                    let right = match expression_stack.pop() {
                        Some(e) => e,
                        None => vstd::pervasive::unreached(),
                    };
                    let collapse_left = match expression_stack.pop() {
                        Some(e) => e,
                        None => vstd::pervasive::unreached(),
                    };
                    let top_op = match operator_stack.pop() {
                        Some(o) => o,
                        None => vstd::pervasive::unreached(),
                    };
                    expression_stack.push(
                        Expression::new(
                            ExpressionNode::Binary(
                                Box::new(collapse_left),
                                top_op.0,
                                Box::new(right),
                            ),
                            self.current_position(),
                        ),
                    );
                    if self.remaining() > 0 {
                        let a = self.parse_atom()?;
                        expression_stack.push(a);
                        operator_stack.push(parsed_op);
                    } else {
                        return Err(
                            Diagnostic::wrong(
                                DiagnosticKind::EofInOperation,
                                self.file.clone(),
                                Some(TokenElement::Pos(position)),
                            ),
                        );
                    }
                } else {
                    let a = self.parse_atom()?;
                    expression_stack.push(a);
                    operator_stack.push(parsed_op);
                }
            }
            let right = match expression_stack.pop() {
                Some(e) => e,
                None => vstd::pervasive::unreached(),
            };
            let collapse_left = match expression_stack.pop() {
                Some(e) => e,
                None => vstd::pervasive::unreached(),
            };
            let top_op = match operator_stack.pop() {
                Some(o) => o,
                None => vstd::pervasive::unreached(),
            };
            expression_stack.push(
                Expression::new(
                    ExpressionNode::Binary(Box::new(collapse_left), top_op.0, Box::new(right)),
                    self.current_position(),
                ),
            );
        }
        let expression = match expression_stack.pop() {
            Some(e) => e,
            None => vstd::pervasive::unreached(),
        };
        Ok(Expression::new(expression.node, self.span_from(left_position)))
    }

    /// Parses a type expression: the primitive names, any other identifier
    /// as a named type, `[element; length]` with a constant-folded integer
    /// length, or a function type `(params) -> return`.
    #[verifier::rlimit(60)]
    fn parse_type(&mut self) -> (r: Result<Type, Diagnostic>)
        requires
            old(self).wf(),
        ensures
            final(self).tokens@ == old(self).tokens@,
            final(self).file == old(self).file,
            old(self).index <= final(self).index,
            final(self).index <= final(self).tokens@.len() + 1,
            r is Ok ==> final(self).index > old(self).index,
            r is Ok ==> old(self).spec_cur().kind == TokenType::Identifier || old(
                self,
            ).spec_cur().kind == TokenType::Symbol,
            r matches Ok(t) ==> t.mode == TypeMode::Regular,
            old(self).spec_cur().kind == TokenType::Identifier ==> (r matches Ok(t)
                ==> spec_primitive_result(old(self).spec_cur().lexeme@, t.node)),
            (old(self).spec_cur().kind == TokenType::Identifier && old(self).index <= old(
                self,
            ).tokens@.len()) ==> (r is Ok && final(self).index == old(self).index + 1),
            old(self).spec_cur().kind == TokenType::Symbol && old(self).spec_cur().lexeme@
                == "["@ ==> (r matches Ok(t) ==> t.node is Array),
            old(self).spec_cur().kind == TokenType::Symbol && old(self).spec_cur().lexeme@
                == "("@ ==> (r matches Ok(t) ==> t.node is Func),
            ({
                let toks = old(self).tokens@;
                let k = old(self).index as int;
                (k + 4 < toks.len() && toks[k].kind == TokenType::Symbol && toks[k].lexeme@
                    == "["@ && toks[k + 1].kind == TokenType::Identifier && toks[k + 2].lexeme@
                    == ";"@ && toks[k + 3].kind == TokenType::Int && toks[k + 4].kind
                    == TokenType::Symbol && toks[k + 4].lexeme@ == "]"@) ==> (r matches Ok(t)
                    && (t.node matches TypeNode::Array(el, len) && spec_primitive_result(
                    toks[k + 1].lexeme@,
                    (*el).node,
                ) && (*el).mode == TypeMode::Regular && len == Some(
                    spec_dec_val(toks[k + 3].lexeme@) as u64,
                )) && t.mode == TypeMode::Regular && final(self).index == k + 5)
            }),
            ({
                let toks = old(self).tokens@;
                let k = old(self).index as int;
                (k < toks.len() && toks[k].kind == TokenType::Symbol && toks[k].lexeme@ == "("@
                    && spec_matching_close(toks, k + 1, 1, "("@, ")"@) == Some(k + 4) && toks[k
                    + 1].kind == TokenType::Identifier && toks[k + 2].lexeme@ == ","@ && toks[k
                    + 3].kind == TokenType::Identifier && k + 6 < toks.len() && toks[k
                    + 5].lexeme@ == "->"@ && toks[k + 6].kind == TokenType::Identifier) ==> (r
                    matches Ok(t) && (t.node matches TypeNode::Func(params, ret)
                    && params@.len() == 2 && (spec_primitive_result(
                    toks[k + 1].lexeme@,
                    params@[0].node,
                ) && params@[0].mode == TypeMode::Regular) && (spec_primitive_result(
                    toks[k + 3].lexeme@,
                    params@[1].node,
                ) && params@[1].mode == TypeMode::Regular) && spec_primitive_result(
                    toks[k + 6].lexeme@,
                    (*ret).node,
                ) && (*ret).mode == TypeMode::Regular) && t.mode == TypeMode::Regular
                    && final(self).index == k + 7)
            }),
        decreases old(self).measure(), 3int,
    {
        proof {
            lemma_grammar_lexemes();
            let toks = self.tokens@;
            let k = self.index as int;
            if k + 3 < toks.len() && toks[k + 3].kind == TokenType::Int {
                assert(token_wf(toks[k + 3]));
                lemma_digits_not_delimiters(toks[k + 3].lexeme@);
            }
        }
        match self.current_type() {
            TokenType::Identifier => {
                let id = self.eat()?;
                if str_eq(id.as_str(), "str") {
                    Ok(Type::from(TypeNode::Str))
                } else if str_eq(id.as_str(), "char") {
                    Ok(Type::from(TypeNode::Char))
                } else if str_eq(id.as_str(), "int") {
                    Ok(Type::from(TypeNode::Int))
                } else if str_eq(id.as_str(), "float") {
                    Ok(Type::from(TypeNode::Float))
                } else if str_eq(id.as_str(), "bool") {
                    Ok(Type::from(TypeNode::Bool))
                } else {
                    Ok(Type::id(id.as_str()))
                }
            },
            TokenType::Symbol => {
                if self.lex_is("[") {
                    self.next()?;
                    self.next_newline()?;
                    let t = self.parse_type()?;
                    self.next_newline()?;
                    self.eat_lexeme(";")?;
                    self.next_newline()?;
                    let expression = self.parse_expression()?;
                    let expression_position = expression.pos;
                    let folded = Parser::fold_expression(expression)?;
                    let length: u64 = match folded.node {
                        ExpressionNode::Int(l) => l,
                        _ => {
                            return Err(
                                Diagnostic::wrong(
                                    DiagnosticKind::ArrayLengthNotInt,
                                    self.file.clone(),
                                    Some(TokenElement::Pos(expression_position)),
                                ),
                            );
                        },
                    };
                    self.eat_lexeme("]")?;
                    Ok(Type::array(t, Some(length)))
                } else if self.lex_is("(") {
                    let params = self.parse_block_of_types("(", ")")?;
                    self.eat_lexeme("->")?;
                    let return_type = self.parse_type()?;
                    Ok(Type::function(params, return_type))
                } else {
                    Err(
                        Diagnostic::wrong(
                            DiagnosticKind::UnexpectedSymbolInType(self.current_lexeme()),
                            self.file.clone(),
                            Some(TokenElement::Pos(self.current_position())),
                        ),
                    )
                }
            },
            _ => Err(
                Diagnostic::wrong(
                    DiagnosticKind::ExpectedTypeExpression(self.current_lexeme()),
                    self.file.clone(),
                    Some(TokenElement::Pos(self.current_position())),
                ),
            ),
        }
    }

    /// Splits off a `open … close` region and parses it as a statement
    /// sequence in a fresh sub-parser.
    #[verifier::loop_isolation(false)]
    fn parse_block_of_statements(&mut self, open: &str, close: &str) -> (r: Result<
        Vec<Statement>,
        Diagnostic,
    >)
        requires
            old(self).wf(),
        ensures
            final(self).tokens@ == old(self).tokens@,
            final(self).file == old(self).file,
            old(self).index <= final(self).index,
            final(self).index <= final(self).tokens@.len() + 1,
            r is Ok ==> final(self).index >= old(self).index + 2,
            r is Ok ==> (spec_matching_close(
                old(self).tokens@,
                old(self).index + 1,
                1,
                open@,
                close@,
            ) matches Some(j) ==> final(self).index == j + 1),
            ({
                let toks = old(self).tokens@;
                let i = old(self).index as int;
                (i < toks.len() && toks[i].lexeme@ == open@ && spec_matching_close(
                    toks,
                    i + 1,
                    1,
                    open@,
                    close@,
                ) == Some(i + 1)) ==> (r matches Ok(v) && v@.len() == 0 && final(self).index == i
                    + 2)
            }),
            ({
                let toks = old(self).tokens@;
                let i = old(self).index as int;
                (i < toks.len() && toks[i].lexeme@ == open@ && spec_matching_close(
                    toks,
                    i + 1,
                    1,
                    open@,
                    close@,
                ) == Some(i + 5) && toks[i + 1].kind == TokenType::EOL && toks[i + 2].kind
                    == TokenType::Keyword && toks[i + 2].lexeme@ == "return"@ && toks[i + 3].kind
                    == TokenType::Int && toks[i + 4].kind == TokenType::EOL) ==> (r
                    matches Ok(v) && v@.len() == 1 && (v@[0].node
                    matches StatementNode::Return(rv) && (rv matches Some(e2) && *e2
                    == spec_int_literal(toks[i + 3]))) && final(self).index == i + 6)
            }),
        decreases old(self).measure(), 0int,
    {
        let block_tokens = self.split_block(open, close)?;
        let ghost window = block_tokens@;
        let ghost toks0 = old(self).tokens@;
        let ghost i0 = old(self).index as int;
        let ghost return_window = i0 < toks0.len() && toks0[i0].lexeme@ == open@
            && spec_matching_close(toks0, i0 + 1, 1, open@, close@) == Some(i0 + 5) && toks0[i0
            + 1].kind == TokenType::EOL && toks0[i0 + 2].kind == TokenType::Keyword && toks0[i0
            + 2].lexeme@ == "return"@ && toks0[i0 + 3].kind == TokenType::Int && toks0[i0
            + 4].kind == TokenType::EOL;
        if block_tokens.len() == 0 {
            return Ok(Vec::new());
        }
        let mut sub = Parser::new(block_tokens, self.file.as_str());
        let mut block: Vec<Statement> = Vec::new();
        loop
            invariant
                sub.wf(),
                sub.tokens@ == window,
                sub.tokens@.len() + 2 < old(self).measure(),
                return_window ==> window =~= toks0.subrange(i0 + 1, i0 + 5),
                return_window ==> ((block@.len() == 0 && sub.index == 0) || (block@.len() == 1
                    && sub.index == 4 && (block@[0].node matches StatementNode::Return(rv) && (
                rv matches Some(e2) && *e2 == spec_int_literal(toks0[i0 + 3]))))),
            decreases sub.measure(),
        {
            proof {
                if return_window && sub.index == 0 {
                    assert(spec_skip_eols(sub.tokens@, 0) == 1) by {
                        reveal_with_fuel(spec_skip_eols, 3);
                    };
                }
            }
            match sub._parse_statement()? {
                Some(x) => block.push(x),
                None => {
                    return Ok(block);
                },
            }
        }
    }

    /// Splits off a `open … close` region and parses it as comma-separated
    /// expressions in a fresh sub-parser.
    #[verifier::loop_isolation(false)]
    fn parse_block_of_expressions(&mut self, open: &str, close: &str) -> (r: Result<
        Vec<Expression>,
        Diagnostic,
    >)
        requires
            old(self).wf(),
        ensures
            final(self).tokens@ == old(self).tokens@,
            final(self).file == old(self).file,
            old(self).index <= final(self).index,
            final(self).index <= final(self).tokens@.len() + 1,
            r is Ok ==> final(self).index >= old(self).index + 2,
            r is Ok ==> (spec_matching_close(
                old(self).tokens@,
                old(self).index + 1,
                1,
                open@,
                close@,
            ) matches Some(j) ==> final(self).index == j + 1),
            ({
                let toks = old(self).tokens@;
                let i = old(self).index as int;
                (i < toks.len() && toks[i].lexeme@ == open@ && spec_matching_close(
                    toks,
                    i + 1,
                    1,
                    open@,
                    close@,
                ) == Some(i + 1)) ==> (r matches Ok(v) && v@.len() == 0 && final(self).index == i
                    + 2)
            }),
            ({
                let toks = old(self).tokens@;
                let i = old(self).index as int;
                (i < toks.len() && toks[i].lexeme@ == open@ && spec_matching_close(
                    toks,
                    i + 1,
                    1,
                    open@,
                    close@,
                ) == Some(i + 2) && toks[i + 1].kind == TokenType::Int) ==> (r matches Ok(v)
                    && v@.len() == 1 && v@[0] == spec_int_literal(toks[i + 1])
                    && final(self).index == i + 3)
            }),
        decreases old(self).measure(), 0int,
    {
        let block_tokens = self.split_block(open, close)?;
        let ghost window = block_tokens@;
        let ghost toks0 = old(self).tokens@;
        let ghost i0 = old(self).index as int;
        let ghost single_int = i0 < toks0.len() && toks0[i0].lexeme@ == open@
            && spec_matching_close(toks0, i0 + 1, 1, open@, close@) == Some(i0 + 2) && toks0[i0
            + 1].kind == TokenType::Int;
        if block_tokens.len() == 0 {
            return Ok(Vec::new());
        }
        let mut sub = Parser::new(block_tokens, self.file.as_str());
        let mut block: Vec<Expression> = Vec::new();
        loop
            invariant
                sub.wf(),
                sub.tokens@ == window,
                sub.tokens@.len() + 2 < old(self).measure(),
                single_int ==> window =~= seq![toks0[i0 + 1]],
                single_int ==> ((block@.len() == 0 && sub.index == 0) || (block@.len() == 1
                    && block@[0] == spec_int_literal(toks0[i0 + 1]) && sub.index == 1)),
            decreases sub.measure(),
        {
            match sub._parse_expression_comma()? {
                Some(x) => block.push(x),
                None => {
                    return Ok(block);
                },
            }
        }
    }

    /// Splits off a `open … close` region and parses it as comma-separated
    /// typed parameters in a fresh sub-parser.
    #[verifier::loop_isolation(false)]
    fn parse_block_of_params(&mut self, open: &str, close: &str) -> (r: Result<
        Vec<(String, Type)>,
        Diagnostic,
    >)
        requires
            old(self).wf(),
        ensures
            final(self).tokens@ == old(self).tokens@,
            final(self).file == old(self).file,
            old(self).index <= final(self).index,
            final(self).index <= final(self).tokens@.len() + 1,
            r is Ok ==> final(self).index >= old(self).index + 2,
            r is Ok ==> (spec_matching_close(
                old(self).tokens@,
                old(self).index + 1,
                1,
                open@,
                close@,
            ) matches Some(j) ==> final(self).index == j + 1),
            ({
                let toks = old(self).tokens@;
                let i = old(self).index as int;
                (i < toks.len() && toks[i].lexeme@ == open@ && spec_matching_close(
                    toks,
                    i + 1,
                    1,
                    open@,
                    close@,
                ) == Some(i + 1)) ==> (r matches Ok(v) && v@.len() == 0 && final(self).index == i
                    + 2)
            }),
            ({
                let toks = old(self).tokens@;
                let i = old(self).index as int;
                (i < toks.len() && toks[i].lexeme@ == open@ && spec_matching_close(
                    toks,
                    i + 1,
                    1,
                    open@,
                    close@,
                ) == Some(i + 8) && toks[i + 1].kind == TokenType::Identifier && toks[i
                    + 1].lexeme@ != ".."@ && toks[i + 2].lexeme@ == ":"@ && toks[i + 3].kind
                    == TokenType::Identifier && toks[i + 4].lexeme@ == ","@ && toks[i + 5].kind
                    == TokenType::Identifier && toks[i + 5].lexeme@ != ".."@ && toks[i
                    + 6].lexeme@ == ":"@ && toks[i + 7].kind == TokenType::Identifier) ==> (r
                    matches Ok(v) && v@.len() == 2 && (v@[0].0@ == toks[i + 1].lexeme@
                    && spec_primitive_result(toks[i + 3].lexeme@, v@[0].1.node) && v@[0].1.mode
                    == TypeMode::Regular) && (v@[1].0@ == toks[i + 5].lexeme@
                    && spec_primitive_result(toks[i + 7].lexeme@, v@[1].1.node) && v@[1].1.mode
                    == TypeMode::Regular) && final(self).index == i + 9)
            }),
        decreases old(self).measure(), 0int,
    {
        let block_tokens = self.split_block(open, close)?;
        let ghost window = block_tokens@;
        let ghost toks0 = old(self).tokens@;
        let ghost i0 = old(self).index as int;
        let ghost two_params = i0 < toks0.len() && toks0[i0].lexeme@ == open@
            && spec_matching_close(toks0, i0 + 1, 1, open@, close@) == Some(i0 + 8) && toks0[i0
            + 1].kind == TokenType::Identifier && toks0[i0 + 1].lexeme@ != ".."@ && toks0[i0
            + 2].lexeme@ == ":"@ && toks0[i0 + 3].kind == TokenType::Identifier && toks0[i0
            + 4].lexeme@ == ","@ && toks0[i0 + 5].kind == TokenType::Identifier && toks0[i0
            + 5].lexeme@ != ".."@ && toks0[i0 + 6].lexeme@ == ":"@ && toks0[i0 + 7].kind
            == TokenType::Identifier;
        if block_tokens.len() == 0 {
            return Ok(Vec::new());
        }
        let mut sub = Parser::new(block_tokens, self.file.as_str());
        let mut block: Vec<(String, Type)> = Vec::new();
        loop
            invariant
                sub.wf(),
                sub.tokens@ == window,
                sub.tokens@.len() + 2 < old(self).measure(),
                two_params ==> window =~= toks0.subrange(i0 + 1, i0 + 8),
                two_params ==> ((block@.len() == 0 && sub.index == 0) || (block@.len() == 1
                    && sub.index == 4 && (block@[0].0@ == toks0[i0 + 1].lexeme@
                    && spec_primitive_result(toks0[i0 + 3].lexeme@, block@[0].1.node)
                    && block@[0].1.mode == TypeMode::Regular)) || (block@.len() == 2
                    && sub.index == 7 && (block@[0].0@ == toks0[i0 + 1].lexeme@
                    && spec_primitive_result(toks0[i0 + 3].lexeme@, block@[0].1.node)
                    && block@[0].1.mode == TypeMode::Regular) && (block@[1].0@ == toks0[i0
                    + 5].lexeme@ && spec_primitive_result(toks0[i0 + 7].lexeme@, block@[1].1.node)
                    && block@[1].1.mode == TypeMode::Regular))),
            decreases sub.measure(),
        {
            match sub._parse_param_comma()? {
                Some(x) => block.push(x),
                None => {
                    return Ok(block);
                },
            }
        }
    }

    /// Splits off a `open … close` region and parses it as comma-separated
    /// types in a fresh sub-parser.
    #[verifier::loop_isolation(false)]
    fn parse_block_of_types(&mut self, open: &str, close: &str) -> (r: Result<
        Vec<Type>,
        Diagnostic,
    >)
        requires
            old(self).wf(),
        ensures
            final(self).tokens@ == old(self).tokens@,
            final(self).file == old(self).file,
            old(self).index <= final(self).index,
            final(self).index <= final(self).tokens@.len() + 1,
            r is Ok ==> final(self).index >= old(self).index + 2,
            r is Ok ==> (spec_matching_close(
                old(self).tokens@,
                old(self).index + 1,
                1,
                open@,
                close@,
            ) matches Some(j) ==> final(self).index == j + 1),
            ({
                let toks = old(self).tokens@;
                let i = old(self).index as int;
                (i < toks.len() && toks[i].lexeme@ == open@ && spec_matching_close(
                    toks,
                    i + 1,
                    1,
                    open@,
                    close@,
                ) == Some(i + 1)) ==> (r matches Ok(v) && v@.len() == 0 && final(self).index == i
                    + 2)
            }),
            ({
                let toks = old(self).tokens@;
                let i = old(self).index as int;
                (i < toks.len() && toks[i].lexeme@ == open@ && spec_matching_close(
                    toks,
                    i + 1,
                    1,
                    open@,
                    close@,
                ) == Some(i + 4) && toks[i + 1].kind == TokenType::Identifier && toks[i
                    + 2].lexeme@ == ","@ && toks[i + 3].kind == TokenType::Identifier) ==> (r
                    matches Ok(v) && v@.len() == 2 && (spec_primitive_result(
                    toks[i + 1].lexeme@,
                    v@[0].node,
                ) && v@[0].mode == TypeMode::Regular) && (spec_primitive_result(
                    toks[i + 3].lexeme@,
                    v@[1].node,
                ) && v@[1].mode == TypeMode::Regular) && final(self).index == i + 5)
            }),
        decreases old(self).measure(), 0int,
    {
        let block_tokens = self.split_block(open, close)?;
        let ghost window = block_tokens@;
        let ghost toks0 = old(self).tokens@;
        let ghost i0 = old(self).index as int;
        let ghost two_types = i0 < toks0.len() && toks0[i0].lexeme@ == open@
            && spec_matching_close(toks0, i0 + 1, 1, open@, close@) == Some(i0 + 4) && toks0[i0
            + 1].kind == TokenType::Identifier && toks0[i0 + 2].lexeme@ == ","@ && toks0[i0
            + 3].kind == TokenType::Identifier;
        if block_tokens.len() == 0 {
            return Ok(Vec::new());
        }
        let mut sub = Parser::new(block_tokens, self.file.as_str());
        let mut block: Vec<Type> = Vec::new();
        loop
            invariant
                sub.wf(),
                sub.tokens@ == window,
                sub.tokens@.len() + 2 < old(self).measure(),
                two_types ==> window =~= toks0.subrange(i0 + 1, i0 + 4),
                two_types ==> ((block@.len() == 0 && sub.index == 0) || (block@.len() == 1
                    && sub.index == 2 && spec_primitive_result(
                    toks0[i0 + 1].lexeme@,
                    block@[0].node,
                ) && block@[0].mode == TypeMode::Regular) || (block@.len() == 2 && sub.index == 3
                    && (spec_primitive_result(toks0[i0 + 1].lexeme@, block@[0].node)
                    && block@[0].mode == TypeMode::Regular) && (spec_primitive_result(
                    toks0[i0 + 3].lexeme@,
                    block@[1].node,
                ) && block@[1].mode == TypeMode::Regular))),
            decreases sub.measure(),
        {
            match sub._parse_type_comma()? {
                Some(x) => block.push(x),
                None => {
                    return Ok(block);
                },
            }
        }
    }

    /// Splits off a `open … close` region and parses it as comma-separated
    /// bare names in a fresh sub-parser.
    #[verifier::loop_isolation(false)]
    fn parse_block_of_names(&mut self, open: &str, close: &str) -> (r: Result<
        Vec<String>,
        Diagnostic,
    >)
        requires
            old(self).wf(),
        ensures
            final(self).tokens@ == old(self).tokens@,
            final(self).file == old(self).file,
            old(self).index <= final(self).index,
            final(self).index <= final(self).tokens@.len() + 1,
            r is Ok ==> final(self).index >= old(self).index + 2,
            r is Ok ==> (spec_matching_close(
                old(self).tokens@,
                old(self).index + 1,
                1,
                open@,
                close@,
            ) matches Some(j) ==> final(self).index == j + 1),
            ({
                let toks = old(self).tokens@;
                let i = old(self).index as int;
                (i < toks.len() && toks[i].lexeme@ == open@ && spec_matching_close(
                    toks,
                    i + 1,
                    1,
                    open@,
                    close@,
                ) == Some(i + 1)) ==> (r matches Ok(v) && v@.len() == 0 && final(self).index == i
                    + 2)
            }),
        decreases old(self).measure(), 0int,
    {
        let block_tokens = self.split_block(open, close)?;
        let ghost window = block_tokens@;
        if block_tokens.len() == 0 {
            return Ok(Vec::new());
        }
        let mut sub = Parser::new(block_tokens, self.file.as_str());
        let mut block: Vec<String> = Vec::new();
        loop
            invariant
                sub.wf(),
                sub.tokens@ == window,
                sub.tokens@.len() + 2 < old(self).measure(),
            decreases sub.measure(),
        {
            match sub._parse_name()? {
                Some(x) => block.push(x),
                None => {
                    return Ok(block);
                },
            }
        }
    }

    /// One statement of a block body, or nothing once the window is spent.
    fn _parse_statement(&mut self) -> (r: Result<Option<Statement>, Diagnostic>)
        requires
            old(self).wf(),
        ensures
            final(self).tokens@ == old(self).tokens@,
            final(self).file == old(self).file,
            old(self).index <= final(self).index,
            final(self).index <= final(self).tokens@.len() + 1,
            r matches Ok(Some(_)) ==> final(self).index > old(self).index,
            old(self).spec_remaining() == 0 ==> (r matches Ok(o) && o is None
                && final(self).index == old(self).index),
            ({
                let toks = old(self).tokens@;
                let i = spec_skip_eols(toks, old(self).index as int);
                (old(self).spec_remaining() > 0 && i + 2 < toks.len() && toks[i].kind
                    == TokenType::Keyword && toks[i].lexeme@ == "return"@ && toks[i + 1].kind
                    == TokenType::Int && toks[i + 2].kind == TokenType::EOL) ==> (r matches Ok(o)
                    && (o matches Some(st) && st.node matches StatementNode::Return(v) && (v
                    matches Some(e2) && *e2 == spec_int_literal(toks[i + 1])))
                    && final(self).index == i + 3)
            }),
        decreases old(self).measure(), 7int,
    {
        if self.remaining() > 0 {
            let s = self.parse_statement()?;
            Ok(Some(s))
        } else {
            Ok(None)
        }
    }

    /// One expression, or nothing once the window is spent.
    fn _parse_expression(&mut self) -> (r: Result<Option<Expression>, Diagnostic>)
        requires
            old(self).wf(),
        ensures
            final(self).tokens@ == old(self).tokens@,
            final(self).file == old(self).file,
            old(self).index <= final(self).index,
            final(self).index <= final(self).tokens@.len() + 1,
            r matches Ok(Some(_)) ==> final(self).index > old(self).index,
            (old(self).spec_remaining() == 0 && old(self).spec_cur().kind != TokenType::Operator)
                ==> (r matches Ok(o) && o is None && final(self).index == old(self).index),
            ({
                let toks = old(self).tokens@;
                let i = old(self).index as int;
                (i < toks.len() && toks[i].kind == TokenType::Int && spec_no_postfix(
                    spec_tok_at(toks, i + 1),
                ) && spec_tok_at(toks, i + 1).kind != TokenType::Operator) ==> (r matches Ok(o)
                    && (o matches Some(e) && e == spec_int_literal(toks[i]))
                    && final(self).index == i + 1)
            }),
        decreases old(self).measure(), 6int,
    {
        let expression = self.parse_expression()?;
        let is_eof = match &expression.node {
            ExpressionNode::EOF => true,
            _ => false,
        };
        if is_eof {
            Ok(None)
        } else {
            Ok(Some(expression))
        }
    }

    /// One bare generic-parameter name of a comma-separated list.
    fn _parse_name(&mut self) -> (r: Result<Option<String>, Diagnostic>)
        requires
            old(self).wf(),
        ensures
            final(self).tokens@ == old(self).tokens@,
            final(self).file == old(self).file,
            old(self).index <= final(self).index,
            final(self).index <= final(self).tokens@.len() + 1,
            r matches Ok(Some(_)) ==> final(self).index > old(self).index,
            old(self).spec_remaining() == 0 ==> (r matches Ok(o) && o is None
                && final(self).index == old(self).index),
            ({
                let toks = old(self).tokens@;
                let i = old(self).index as int;
                &&& (i < toks.len() && toks[i].kind == TokenType::Identifier && i + 1
                    == toks.len()) ==> (r matches Ok(o) && (o matches Some(nm) && nm@
                    == toks[i].lexeme@) && final(self).index == i + 1)
                &&& (i < toks.len() && toks[i].kind == TokenType::Identifier && i + 2
                    < toks.len() && toks[i + 1].lexeme@ == ","@ && toks[i + 2].lexeme@ != "\n"@)
                    ==> (r matches Ok(o) && (o matches Some(nm) && nm@ == toks[i].lexeme@)
                    && final(self).index == i + 2)
            }),
        decreases old(self).measure(), 2int,
    {
        if self.remaining() == 0 {
            return Ok(None);
        }
        let t = self.eat_type(TokenType::Identifier)?;
        if self.remaining() > 0 {
            self.eat_lexeme(",")?;
            if self.remaining() > 0 && self.lex_is("\n") {
                self.next()?;
            }
        }
        Ok(Some(t))
    }

    /// One element of a comma-separated expression list, with leading and
    /// trailing newlines around it skipped.
    fn _parse_expression_comma(&mut self) -> (r: Result<Option<Expression>, Diagnostic>)
        requires
            old(self).wf(),
        ensures
            final(self).tokens@ == old(self).tokens@,
            final(self).file == old(self).file,
            old(self).index <= final(self).index,
            final(self).index <= final(self).tokens@.len() + 1,
            r matches Ok(Some(_)) ==> final(self).index > old(self).index,
            (old(self).spec_remaining() == 0 && old(self).spec_cur().kind != TokenType::Operator)
                ==> (r matches Ok(o) && o is None && final(self).index == old(self).index),
            ({
                let toks = old(self).tokens@;
                let i = old(self).index as int;
                (i < toks.len() && toks[i].kind == TokenType::Int && i + 1 == toks.len()) ==> (r
                    matches Ok(o) && (o matches Some(e) && e == spec_int_literal(toks[i]))
                    && final(self).index == i + 1)
            }),
        decreases old(self).measure(), 7int,
    {
        if self.remaining() > 0 && self.lex_is("\n") {
            self.next()?;
        }
        let expression = self._parse_expression();
        if self.remaining() > 0 && self.lex_is("\n") {
            self.next()?;
        }
        if self.remaining() > 0 {
            self.eat_lexeme(",")?;
            if self.remaining() > 0 && self.lex_is("\n") {
                self.next()?;
            }
        }
        expression
    }

    /// One typed parameter of a comma-separated list, with an optional
    /// leading `..` splat marker that sets the parameter's qualifier.
    fn _parse_param_comma(&mut self) -> (r: Result<Option<(String, Type)>, Diagnostic>)
        requires
            old(self).wf(),
        ensures
            final(self).tokens@ == old(self).tokens@,
            final(self).file == old(self).file,
            old(self).index <= final(self).index,
            final(self).index <= final(self).tokens@.len() + 1,
            r matches Ok(Some(_)) ==> final(self).index > old(self).index,
            r matches Ok(o) ==> ((o is None) <==> (old(self).spec_remaining() == 0 || (old(
                self,
            ).spec_remaining() == 1 && old(self).spec_cur().lexeme@ == "\n"@))),
            old(self).spec_remaining() == 0 ==> (r matches Ok(o) && o is None
                && final(self).index == old(self).index),
            ({
                let toks = old(self).tokens@;
                let i = old(self).index as int;
                (i < toks.len() && toks[i].kind == TokenType::Identifier && toks[i].lexeme@
                    != ".."@ && toks[i + 1].lexeme@ == ":"@ && toks[i + 2].kind
                    == TokenType::Identifier && i + 4 < toks.len() && toks[i + 3].lexeme@
                    == ","@ && toks[i + 4].kind == TokenType::Identifier) ==> (r matches Ok(o)
                    && (o matches Some(p) && p.0@ == toks[i].lexeme@ && spec_primitive_result(
                    toks[i + 2].lexeme@,
                    p.1.node,
                ) && p.1.mode == TypeMode::Regular) && final(self).index == i + 4)
            }),
            ({
                let toks = old(self).tokens@;
                let i = old(self).index as int;
                (i < toks.len() && toks[i].kind == TokenType::Identifier && toks[i].lexeme@
                    != ".."@ && toks[i + 1].lexeme@ == ":"@ && toks[i + 2].kind
                    == TokenType::Identifier && i + 3 == toks.len()) ==> (r matches Ok(o) && (o
                    matches Some(p) && p.0@ == toks[i].lexeme@ && spec_primitive_result(
                    toks[i + 2].lexeme@,
                    p.1.node,
                ) && p.1.mode == TypeMode::Regular) && final(self).index == i + 3)
            }),
            ({
                let toks = old(self).tokens@;
                let i = old(self).index as int;
                (i < toks.len() && toks[i].lexeme@ == ".."@ && toks[i + 1].kind
                    == TokenType::Identifier && toks[i + 2].lexeme@ == ":"@ && toks[i + 3].kind
                    == TokenType::Identifier && i + 4 == toks.len()) ==> (r matches Ok(o) && (o
                    matches Some(p) && p.0@ == toks[i + 1].lexeme@ && spec_primitive_result(
                    toks[i + 3].lexeme@,
                    p.1.node,
                ) && p.1.mode == TypeMode::Splat(None)) && final(self).index == i + 4)
            }),
        decreases old(self).measure(), 2int,
    {
        proof {
            lemma_grammar_lexemes();
        }
        if self.remaining() > 0 && self.lex_is("\n") {
            self.next()?;
        }
        if self.remaining() == 0 {
            return Ok(None);
        }
        let mut splat = false;
        if self.lex_is("..") {
            splat = true;
            self.next()?;
            self.next_newline()?;
        }
        let name = self.eat_type(TokenType::Identifier)?;
        self.eat_lexeme(":")?;
        let mut kind = self.parse_type()?;
        if splat {
            kind.mode = TypeMode::Splat(None);
        }
        let param = Some((name, kind));
        if self.remaining() > 0 && self.lex_is("\n") {
            self.next()?;
        }
        if self.remaining() > 0 {
            self.eat_lexeme(",")?;
            if self.remaining() > 0 && self.lex_is("\n") {
                self.next()?;
            }
        }
        Ok(param)
    }

    /// One type of a comma-separated list.
    fn _parse_type_comma(&mut self) -> (r: Result<Option<Type>, Diagnostic>)
        requires
            old(self).wf(),
        ensures
            final(self).tokens@ == old(self).tokens@,
            final(self).file == old(self).file,
            old(self).index <= final(self).index,
            final(self).index <= final(self).tokens@.len() + 1,
            r matches Ok(Some(_)) ==> final(self).index > old(self).index,
            old(self).spec_remaining() == 0 ==> (r matches Ok(o) && o is None
                && final(self).index == old(self).index),
            ({
                let toks = old(self).tokens@;
                let i = old(self).index as int;
                &&& (i < toks.len() && toks[i].kind == TokenType::Identifier && i + 1
                    == toks.len()) ==> (r matches Ok(o) && (o matches Some(t)
                    && spec_primitive_result(toks[i].lexeme@, t.node) && t.mode
                    == TypeMode::Regular) && final(self).index == i + 1)
                &&& (i < toks.len() && toks[i].kind == TokenType::Identifier && i + 2
                    < toks.len() && toks[i + 1].lexeme@ == ","@ && toks[i + 2].lexeme@ != "\n"@)
                    ==> (r matches Ok(o) && (o matches Some(t) && spec_primitive_result(
                    toks[i].lexeme@,
                    t.node,
                ) && t.mode == TypeMode::Regular) && final(self).index == i + 2)
            }),
        decreases old(self).measure(), 4int,
    {
        if self.remaining() == 0 {
            return Ok(None);
        }
        let t = self.parse_type()?;
        if self.remaining() > 0 {
            self.eat_lexeme(",")?;
            if self.remaining() > 0 && self.lex_is("\n") {
                self.next()?;
            }
        }
        Ok(Some(t))
    }

    /// Constant folding over a parsed expression (see `spec_fold`): integer
    /// arithmetic collapses where the result is representable; everything
    /// else stays as written.
    pub fn fold_expression(expression: Expression) -> (r: Result<Expression, Diagnostic>)
        ensures
            r matches Ok(f) && f == crate::ast::spec_fold(expression),
    {
        let pos = expression.pos;
        match fold_int(&expression) {
            Some(v) => {
                proof {
                    crate::ast::lemma_fold_shape(expression);
                }
                Ok(Expression::new(ExpressionNode::Int(v), pos))
            },
            None => {
                proof {
                    crate::ast::lemma_fold_shape(expression);
                }
                Ok(expression)
            },
        }
    }
}

/// The folded value of an expression, where folding yields an integer
/// literal.
fn fold_int(e: &Expression) -> (r: Option<u64>)
    ensures
        match r {
            Some(v) => crate::ast::spec_fold(*e).node == ExpressionNode::Int(v),
            None => !(crate::ast::spec_fold(*e).node is Int),
        },
    decreases *e,
{
    match &e.node {
        ExpressionNode::Int(v) => Some(*v),
        ExpressionNode::Binary(l, op, r2) => {
            let fl = fold_int(&**l);
            let fr = fold_int(&**r2);
            match (fl, fr) {
                (Some(a), Some(b)) => match op {
                    Operator::Add => if a <= u64::MAX - b {
                        Some(a + b)
                    } else {
                        None
                    },
                    Operator::Sub => if a >= b {
                        Some(a - b)
                    } else {
                        None
                    },
                    Operator::Mul => {
                        if b == 0 {
                            Some(0)
                        } else if a <= u64::MAX / b {
                            proof {
                                assert(a * b <= u64::MAX) by (nonlinear_arith)
                                    requires
                                        a <= u64::MAX as int / b as int,
                                        b >= 1,
                                ;
                            }
                            Some(a * b)
                        } else {
                            proof {
                                assert(a * b > u64::MAX) by (nonlinear_arith)
                                    requires
                                        a > u64::MAX as int / b as int,
                                        b >= 1,
                                ;
                            }
                            None
                        }
                    },
                    Operator::Div => if b != 0 {
                        Some(a / b)
                    } else {
                        None
                    },
                    _ => None,
                },
                _ => None,
            }
        },
        _ => None,
    }
}

} // verus!
