//! Tokens as the external tokenizer hands them to the parser: a category, the
//! lexeme text, and a source position used only for diagnostics.

use vstd::prelude::*;

verus! {

/// Category of a token, assigned once by the (external) tokenizer.
#[derive(Clone, Copy, Debug, PartialEq, Eq, Structural)]
pub enum TokenType {
    Int,
    Float,
    Bool,
    Str,
    Char,
    Identifier,
    Keyword,
    Operator,
    Symbol,
    EOL,
}

/// A source position: a line handle (number and text length) plus start/end
/// column offsets into that line, enough to render a "from here to there"
/// span in diagnostics.
#[derive(Clone, Copy, Debug, PartialEq, Eq, Structural)]
pub struct Pos {
    pub line: usize,
    pub line_len: usize,
    pub start: usize,
    pub end: usize,
}

/// One token: category, owned lexeme text, and its source position.
/// Immutable once produced.
#[derive(Clone, Debug, PartialEq)]
pub struct Token {
    pub kind: TokenType,
    pub lexeme: String,
    pub pos: Pos,
}

/// A span that covers from `left` to the position of `current`, clamped to
/// the text length of `left`'s line.
pub open spec fn spec_span_from(left: Pos, current: Pos) -> Pos {
    Pos {
        line: left.line,
        line_len: left.line_len,
        start: left.start,
        end: if current.end < left.line_len {
            current.end
        } else {
            left.line_len
        },
    }
}

/// Recomputes a span to cover from `left` to `current` (see `spec_span_from`).
pub fn span_from_pos(left: Pos, current: Pos) -> (r: Pos)
    ensures
        r == spec_span_from(left, current),
{
    Pos {
        line: left.line,
        line_len: left.line_len,
        start: left.start,
        end: if current.end < left.line_len {
            current.end
        } else {
            left.line_len
        },
    }
}

impl Token {
    /// An owned copy equal to this token.
    pub fn duplicate(&self) -> (r: Token)
        ensures
            r == *self,
    {
        Token { kind: self.kind, lexeme: self.lexeme.clone(), pos: self.pos }
    }
}

/// A decimal digit.
pub open spec fn spec_is_digit(c: char) -> bool {
    '0' <= c && c <= '9'
}

/// The value of a decimal digit.
pub open spec fn spec_digit_val(c: char) -> int {
    c as u32 - 48
}

/// The value of a string of decimal digits, most significant first.
pub open spec fn spec_dec_val(s: Seq<char>) -> int
    decreases s.len(),
{
    if s.len() == 0 {
        0
    } else {
        spec_dec_val(s.drop_last()) * 10 + spec_digit_val(s.last())
    }
}

/// A nonempty string of decimal digits whose value fits the unsigned
/// 64-bit range: the shape an integer-literal lexeme is required to have.
pub open spec fn spec_is_u64_digits(s: Seq<char>) -> bool {
    &&& s.len() >= 1
    &&& forall|i: int| 0 <= i < s.len() ==> spec_is_digit(#[trigger] s[i])
    &&& spec_dec_val(s) <= u64::MAX
}

/// A digit string's value is at least 0.
proof fn lemma_dec_val_nonneg(s: Seq<char>)
    requires
        forall|i: int| 0 <= i < s.len() ==> spec_is_digit(#[trigger] s[i]),
    ensures
        spec_dec_val(s) >= 0,
    decreases s.len(),
{
    if s.len() > 0 {
        lemma_dec_val_nonneg(s.drop_last());
    }
}

/// A prefix of a digit string is worth no more than the whole string.
proof fn lemma_dec_val_prefix_le(s: Seq<char>, i: int)
    requires
        0 <= i <= s.len(),
        forall|k: int| 0 <= k < s.len() ==> spec_is_digit(#[trigger] s[k]),
    ensures
        spec_dec_val(s.subrange(0, i)) <= spec_dec_val(s),
    decreases s.len() - i,
{
    if i < s.len() {
        lemma_dec_val_prefix_le(s, i + 1);
        let shorter = s.subrange(0, i);
        let longer = s.subrange(0, i + 1);
        assert(longer.drop_last() =~= shorter);
        assert(longer.last() == s[i]);
        lemma_dec_val_nonneg(shorter);
    } else {
        assert(s.subrange(0, i) =~= s);
    }
}

/// Reads a decimal integer literal, exactly as its digits say.
pub fn parse_u64(s: &str) -> (r: u64)
    requires
        spec_is_u64_digits(s@),
    ensures
        r == spec_dec_val(s@),
{
    let n = s.unicode_len();
    let mut acc: u64 = 0;
    let mut i: usize = 0;
    while i < n
        invariant
            0 <= i <= n,
            n == s@.len(),
            spec_is_u64_digits(s@),
            acc == spec_dec_val(s@.subrange(0, i as int)),
        decreases n - i,
    {
        let c = s.get_char(i);
        proof {
            lemma_dec_val_prefix_le(s@, i + 1);
            assert(s@.subrange(0, i + 1).drop_last() =~= s@.subrange(0, i as int));
            assert(s@.subrange(0, i + 1).last() == s@[i as int]);
        }
        let d = (c as u32) - 48;
        acc = acc * 10 + (d as u64);
        i = i + 1;
    }
    proof {
        assert(s@.subrange(0, n as int) =~= s@);
    }
    acc
}

/// Character-by-character string equality, exact on the views.
pub fn str_eq(a: &str, b: &str) -> (r: bool)
    ensures
        r == (a@ == b@),
{
    let la = a.unicode_len();
    let lb = b.unicode_len();
    if la != lb {
        proof {
            assert(a@ != b@);
        }
        return false;
    }
    let mut i: usize = 0;
    while i < la
        invariant
            0 <= i <= la,
            la == a@.len(),
            la == b@.len(),
            forall|k: int| 0 <= k < i ==> a@[k] == b@[k],
        decreases la - i,
    {
        if a.get_char(i) != b.get_char(i) {
            return false;
        }
        i = i + 1;
    }
    proof {
        assert(a@ =~= b@);
    }
    true
}

} // verus!
