//! The assembler: program text to instructions, in two passes (labels, then
//! instructions).
use vstd::prelude::*;
use vstd::string::*;

use crate::fmt::{push_chars, push_str};
use crate::opcode::{arity, arity_of, OpCode, OpKind};
use crate::program::Program;
use crate::text::{
    chars_of, eq_str, find_char, first_index, lines_of, relevant_lines,
    slice_of, split_args, split_args_of, starts_with_str, string_of, views,
};
use crate::valsp::ValSp;
use crate::Word;

verus! {

/// The kinds of assembler errors.
#[derive(Debug, Clone, Copy, PartialEq, Eq, Structural)]
pub enum ParseErrorKind {
    UnknownCommand,
    UnknownLabel,
    DuplicateLabel,
    TooFewArguments,
    TooManyArguments,
    /// `$mem` or `$gmem` without a bracketed index.
    MissingIndex,
    /// A `[` without a closing `]` at the end.
    UnclosedBracket,
    InvalidHex,
    InvalidLiteral,
}

/// An assembler error and the text it is about (a command, a label, an
/// operand).
#[derive(Debug)]
pub struct ParseError {
    pub kind: ParseErrorKind,
    pub text: String,
}

/// The mathematical value of an assembler error.
pub type PErr = (ParseErrorKind, Seq<char>);

pub open spec fn perr(e: &ParseError) -> PErr {
    (e.kind, e.text@)
}

/// The text of an assembler error about `x`.
pub open spec fn parse_message(k: ParseErrorKind, x: Seq<char>) -> Seq<char> {
    match k {
        ParseErrorKind::UnknownCommand => "Unknown command: "@ + x,
        ParseErrorKind::UnknownLabel => "Unknown label: "@ + x,
        ParseErrorKind::DuplicateLabel => "Duplicate label: "@ + x,
        ParseErrorKind::TooFewArguments => "Too few arguments to "@ + x,
        ParseErrorKind::TooManyArguments => "Too many arguments to "@ + x,
        ParseErrorKind::MissingIndex => x + " requires index"@,
        ParseErrorKind::UnclosedBracket => "Expected ']' at end of: "@ + x,
        ParseErrorKind::InvalidHex => "Parsing as hex: \""@ + x + "\""@,
        ParseErrorKind::InvalidLiteral => "Could not parse as literal value: \""@ + x + "\""@,
    }
}

impl ParseError {
    /// The text of the error, such as `Unknown command: POP`.
    pub fn message(&self) -> (r: String)
        ensures
            r@ == parse_message(self.kind, self.text@),
    {
        let mut out: Vec<char> = Vec::new();
        let text = chars_of(self.text.as_str());
        match self.kind {
            ParseErrorKind::UnknownCommand => push_str(&mut out, "Unknown command: "),
            ParseErrorKind::UnknownLabel => push_str(&mut out, "Unknown label: "),
            ParseErrorKind::DuplicateLabel => push_str(&mut out, "Duplicate label: "),
            ParseErrorKind::TooFewArguments => push_str(&mut out, "Too few arguments to "),
            ParseErrorKind::TooManyArguments => push_str(&mut out, "Too many arguments to "),
            ParseErrorKind::MissingIndex => {},
            ParseErrorKind::UnclosedBracket => push_str(&mut out, "Expected ']' at end of: "),
            ParseErrorKind::InvalidHex => push_str(&mut out, "Parsing as hex: \""),
            ParseErrorKind::InvalidLiteral => push_str(&mut out, "Could not parse as literal value: \""),
        }
        push_chars(&mut out, &text);
        match self.kind {
            ParseErrorKind::MissingIndex => push_str(&mut out, " requires index"),
            ParseErrorKind::InvalidHex | ParseErrorKind::InvalidLiteral => push_str(&mut out, "\""),
            _ => {},
        }
        proof {
            assert(out@ =~= parse_message(self.kind, self.text@));
        }
        string_of(&out)
    }
}

/// A label table: names with the index of the instruction they stand for.
pub type Labels = Seq<(Seq<char>, u64)>;

pub open spec fn label_views(v: Seq<(Vec<char>, u64)>) -> Labels {
    v.map_values(|p: (Vec<char>, u64)| (p.0@, p.1))
}

/// The value of digit `c`, in base 16 when `hex`, else base 10.
pub open spec fn digit_value(c: char, hex: bool) -> Option<nat> {
    if '0' <= c <= '9' {
        Some((c as nat - '0' as nat) as nat)
    } else if hex && 'a' <= c <= 'f' {
        Some((c as nat - 'a' as nat + 10) as nat)
    } else if hex && 'A' <= c <= 'F' {
        Some((c as nat - 'A' as nat + 10) as nat)
    } else {
        None
    }
}

pub open spec fn base(hex: bool) -> nat {
    if hex {
        16
    } else {
        10
    }
}

/// The number that the digits `d` spell, if all are digits.
pub open spec fn digits_value(d: Seq<char>, hex: bool) -> Option<nat>
    decreases d.len(),
{
    if d.len() == 0 {
        Some(0)
    } else {
        match (digits_value(d.drop_last(), hex), digit_value(d.last(), hex)) {
            (Some(v), Some(x)) => Some(v * base(hex) + x),
            _ => None,
        }
    }
}

/// An unsigned number as the standard library reads it: an optional `+`, then
/// one or more digits, with a value that fits in a word.
pub open spec fn number_spec(s: Seq<char>, hex: bool) -> Option<Word> {
    let d = if s.len() > 0 && s[0] == '+' {
        s.drop_first()
    } else {
        s
    };
    if d.len() == 0 {
        None
    } else {
        match digits_value(d, hex) {
            Some(v) => if v <= u64::MAX {
                Some(v as Word)
            } else {
                None
            },
            None => None,
        }
    }
}

/// A literal operand: `0x` and hex digits, or decimal digits.
pub open spec fn literal_spec(s: Seq<char>) -> Result<Word, PErr> {
    if s.len() >= 2 && s[0] == '0' && s[1] == 'x' {
        match number_spec(s.skip(2), true) {
            Some(v) => Ok(v),
            None => Err((ParseErrorKind::InvalidHex, s.skip(2))),
        }
    } else {
        match number_spec(s, false) {
            Some(v) => Ok(v),
            None => Err((ParseErrorKind::InvalidLiteral, s)),
        }
    }
}

/// The value of the last entry named `name`.
pub open spec fn lookup(labels: Labels, name: Seq<char>) -> Option<u64>
    decreases labels.len(),
{
    if labels.len() == 0 {
        None
    } else if labels.last().0 == name {
        Some(labels.last().1)
    } else {
        lookup(labels.drop_last(), name)
    }
}

/// Whether the text after an indexed keyword opens a bracket.
pub open spec fn opens(rest: Seq<char>) -> bool {
    rest.len() > 0 && rest[0] == '['
}

/// Whether an opened bracket is closed at the end.
pub open spec fn closes(rest: Seq<char>) -> bool {
    rest.len() >= 2 && rest.last() == ']'
}

pub open spec fn has_prefix(s: Seq<char>, p: Seq<char>) -> bool {
    p.len() <= s.len() && s.take(p.len() as int) == p
}

/// The value specifier that the operand text `s` denotes.
pub open spec fn valsp_spec(s: Seq<char>, labels: Labels) -> Result<ValSp, PErr>
    decreases s.len(),
{
    if s.len() > 0 && s[0] == ':' {
        match lookup(labels, s.drop_first()) {
            Some(v) => Ok(ValSp::Literal(v)),
            None => Err((ParseErrorKind::UnknownLabel, s.drop_first())),
        }
    } else if s == "$pop"@ {
        Ok(ValSp::Pop)
    } else if has_prefix(s, "$pop"@) && opens(s.skip("$pop"@.len() as int)) {
        let rest = s.skip("$pop"@.len() as int);
        if !closes(rest) {
            Err((ParseErrorKind::UnclosedBracket, rest))
        } else {
            match valsp_spec(rest.subrange(1, rest.len() - 1), labels) {
                Err(e) => Err(e),
                Ok(v) => Ok(ValSp::PopI(Box::new(v))),
            }
        }
    } else if s == "$peek"@ {
        Ok(ValSp::Peek)
    } else if has_prefix(s, "$mem"@) {
        let rest = s.skip("$mem"@.len() as int);
        if !opens(rest) {
            Err((ParseErrorKind::MissingIndex, "$mem"@))
        } else if !closes(rest) {
            Err((ParseErrorKind::UnclosedBracket, rest))
        } else {
            match valsp_spec(rest.subrange(1, rest.len() - 1), labels) {
                Err(e) => Err(e),
                Ok(v) => Ok(ValSp::Memory(Box::new(v))),
            }
        }
    } else if has_prefix(s, "$gmem"@) {
        let rest = s.skip("$gmem"@.len() as int);
        if !opens(rest) {
            Err((ParseErrorKind::MissingIndex, "$gmem"@))
        } else if !closes(rest) {
            Err((ParseErrorKind::UnclosedBracket, rest))
        } else {
            match valsp_spec(rest.subrange(1, rest.len() - 1), labels) {
                Err(e) => Err(e),
                Ok(v) => Ok(ValSp::GlobalMemory(Box::new(v))),
            }
        }
    } else if s == "$tid"@ {
        Ok(ValSp::ThreadId)
    } else {
        match literal_spec(s) {
            Ok(w) => Ok(ValSp::Literal(w)),
            Err(e) => Err(e),
        }
    }
}

/// An indexed keyword `kw` at the start of `s`: absent, without an index, with
/// the bracketed index, or with an unclosed bracket.
pub open spec fn indexed_spec(kw: Seq<char>, s: Seq<char>) -> Result<Option<Option<Seq<char>>>, PErr> {
    if !has_prefix(s, kw) {
        Ok(None)
    } else {
        let rest = s.skip(kw.len() as int);
        if !opens(rest) {
            Ok(Some(None))
        } else if !closes(rest) {
            Err((ParseErrorKind::UnclosedBracket, rest))
        } else {
            Ok(Some(Some(rest.subrange(1, rest.len() - 1))))
        }
    }
}

proof fn lemma_digits_prefix_none(d: Seq<char>, n: int, hex: bool)
    requires
        0 <= n <= d.len(),
        digits_value(d.take(n), hex) is None,
    ensures
        digits_value(d, hex) is None,
    decreases d.len() - n,
{
    if n < d.len() {
        assert(d.take(n + 1).drop_last() =~= d.take(n));
        lemma_digits_prefix_none(d, n + 1, hex);
    } else {
        assert(d.take(n) =~= d);
    }
}

proof fn lemma_digits_monotone(d: Seq<char>, n: int, hex: bool, a: nat)
    requires
        0 <= n <= d.len(),
        digits_value(d.take(n), hex) == Some(a),
    ensures
        digits_value(d, hex) matches Some(b) ==> a <= b,
    decreases d.len() - n,
{
    if n < d.len() {
        assert(d.take(n + 1).drop_last() =~= d.take(n));
        match digits_value(d.take(n + 1), hex) {
            Some(a2) => {
                let x = digit_value(d[n], hex)->0;
                assert(a2 == a * base(hex) + x);
                assert(a <= a * base(hex) + x) by (nonlinear_arith)
                    requires
                        base(hex) >= 1,
                ;
                lemma_digits_monotone(d, n + 1, hex, a2);
            },
            None => {
                lemma_digits_prefix_none(d, n + 1, hex);
            },
        }
    } else {
        assert(d.take(n) =~= d);
    }
}

/// The value of digit `c`.
fn digit_of(c: char, hex: bool) -> (r: Option<u64>)
    ensures
        r matches Some(x) ==> digit_value(c, hex) == Some(x as nat) && x < 16,
        r is None ==> digit_value(c, hex) is None,
{
    if '0' <= c && c <= '9' {
        Some((c as u32 - '0' as u32) as u64)
    } else if hex && 'a' <= c && c <= 'f' {
        Some((c as u32 - 'a' as u32 + 10) as u64)
    } else if hex && 'A' <= c && c <= 'F' {
        Some((c as u32 - 'A' as u32 + 10) as u64)
    } else {
        None
    }
}

/// Reads an unsigned number: an optional `+`, then digits of base 16 when `hex`,
/// else base 10.
pub fn parse_number(v: &Vec<char>, hex: bool) -> (r: Option<Word>)
    ensures
        r == number_spec(v@, hex),
{
    let n = v.len();
    let p: usize = if n > 0 && v[0] == '+' {
        1
    } else {
        0
    };
    let ghost d = v@.skip(p as int);
    assert(d =~= (if v@.len() > 0 && v@[0] == '+' { v@.drop_first() } else { v@ }));
    if p == n {
        return None;
    }
    assert(d.len() > 0);
    assert(number_spec(v@, hex) == match digits_value(d, hex) {
        Some(x) => if x <= u64::MAX {
            Some(x as Word)
        } else {
            None
        },
        None => None,
    });
    let b: u128 = if hex {
        16
    } else {
        10
    };
    let mut acc: u64 = 0;
    let mut i = p;
    assert(d.take(0) =~= Seq::<char>::empty());
    while i < n
        invariant
            p <= i <= n,
            n == v@.len(),
            d == v@.skip(p as int),
            b == base(hex),
            digits_value(d.take(i - p), hex) == Some(acc as nat),
            number_spec(v@, hex) == match digits_value(d, hex) {
                Some(x) => if x <= u64::MAX {
                    Some(x as Word)
                } else {
                    None
                },
                None => None,
            },
        decreases n - i,
    {
        assert(d.take(i - p + 1).drop_last() =~= d.take(i - p));
        assert(d[i - p] == v@[i as int]);
        assert(d.take(i - p + 1).last() == v@[i as int]);
        let x = match digit_of(v[i], hex) {
            Some(x) => x,
            None => {
                proof {
                    lemma_digits_prefix_none(d, i - p + 1, hex);
                }
                assert(number_spec(v@, hex) is None);
                return None;
            },
        };
        assert((acc as u128) * b <= 0xffff_ffff_ffff_ffffu128 * 16) by (nonlinear_arith)
            requires
                acc <= 0xffff_ffff_ffff_ffffu64,
                b <= 16,
        ;
        let wide: u128 = (acc as u128) * b + x as u128;
        if wide > u64::MAX as u128 {
            assert(digits_value(d.take(i - p + 1), hex) == Some(wide as nat));
            proof {
                lemma_digits_monotone(d, i - p + 1, hex, wide as nat);
            }
            assert(number_spec(v@, hex) is None);
            return None;
        }
        acc = wide as u64;
        i = i + 1;
    }
    assert(d.take(i - p) =~= d);
    Some(acc)
}

/// Reads a literal operand.
pub fn parse_literal(s: &Vec<char>) -> (r: Result<Word, ParseError>)
    ensures
        match literal_spec(s@) {
            Ok(w) => r is Ok && r->Ok_0 == w,
            Err(e) => r is Err && perr(&r->Err_0) == e,
        },
{
    let n = s.len();
    if n >= 2 && s[0] == '0' && s[1] == 'x' {
        let hex = slice_of(s, 2, n);
        assert(hex@ =~= s@.skip(2));
        return match parse_number(&hex, true) {
            Some(v) => Ok(v),
            None => Err(ParseError { kind: ParseErrorKind::InvalidHex, text: string_of(&hex) }),
        };
    }
    match parse_number(s, false) {
        Some(v) => Ok(v),
        None => Err(ParseError { kind: ParseErrorKind::InvalidLiteral, text: string_of(s) }),
    }
}

/// Whether two character vectors are equal.
pub fn eq_chars(a: &Vec<char>, b: &Vec<char>) -> (r: bool)
    ensures
        r == (a@ == b@),
{
    if a.len() != b.len() {
        return false;
    }
    let mut i: usize = 0;
    while i < a.len()
        invariant
            i <= a@.len(),
            a@.len() == b@.len(),
            forall|j: int| 0 <= j < i ==> a@[j] == b@[j],
        decreases a@.len() - i,
    {
        if a[i] != b[i] {
            return false;
        }
        i = i + 1;
    }
    assert(a@ =~= b@);
    true
}

/// The instruction index of label `name`.
pub fn lookup_label(labels: &Vec<(Vec<char>, u64)>, name: &Vec<char>) -> (r: Option<u64>)
    ensures
        r == lookup(label_views(labels@), name@),
{
    let mut i = labels.len();
    assert(label_views(labels@).take(i as int) =~= label_views(labels@));
    while i > 0
        invariant
            i <= labels@.len(),
            lookup(label_views(labels@), name@) == lookup(label_views(labels@).take(i as int), name@),
        decreases i,
    {
        let ghost t = label_views(labels@).take(i as int);
        assert(t.drop_last() =~= label_views(labels@).take(i as int - 1));
        if eq_chars(&labels[i - 1].0, name) {
            return Some(labels[i - 1].1);
        }
        i = i - 1;
    }
    None
}

/// The index between square brackets, if `s` opens one.
pub fn strip_square_braces(s: &Vec<char>) -> (r: Result<Option<Vec<char>>, ParseError>)
    ensures
        !opens(s@) ==> r matches Ok(None),
        opens(s@) && !closes(s@) ==> r is Err && perr(&r->Err_0) == (
            ParseErrorKind::UnclosedBracket,
            s@,
        ),
        opens(s@) && closes(s@) ==> (r matches Ok(Some(v)) && v@ == s@.subrange(1, s@.len() - 1)),
{
    let n = s.len();
    if n == 0 || s[0] != '[' {
        return Ok(None);
    }
    if n < 2 || s[n - 1] != ']' {
        return Err(ParseError { kind: ParseErrorKind::UnclosedBracket, text: string_of(s) });
    }
    Ok(Some(slice_of(s, 1, n - 1)))
}

/// Keyword `expr` at the start of `s`, with its index if it has one.
pub fn indexed_expr(expr: &str, s: &Vec<char>) -> (r: Result<Option<Option<Vec<char>>>, ParseError>)
    ensures
        match indexed_spec(expr@, s@) {
            Err(e) => r is Err && perr(&r->Err_0) == e,
            Ok(None) => r matches Ok(None),
            Ok(Some(None)) => r matches Ok(Some(None)),
            Ok(Some(Some(i))) => (r matches Ok(Some(Some(v))) && v@ == i),
        },
{
    if !starts_with_str(s, expr) {
        return Ok(None);
    }
    let k = expr.unicode_len();
    let with_expr = slice_of(s, k, s.len());
    assert(with_expr@ =~= s@.skip(k as int));
    match strip_square_braces(&with_expr)? {
        None => Ok(Some(None)),
        Some(in_braces) => Ok(Some(Some(in_braces))),
    }
}

impl ValSp {
    /// Reads an operand.
    pub fn parse(s: &Vec<char>, labels: &Vec<(Vec<char>, u64)>) -> (r: Result<ValSp, ParseError>)
        ensures
            match valsp_spec(s@, label_views(labels@)) {
                Ok(v) => r is Ok && r->Ok_0 == v,
                Err(e) => r is Err && perr(&r->Err_0) == e,
            },
        decreases s@.len(),
    {
        let n = s.len();
        if n > 0 && s[0] == ':' {
            let name = slice_of(s, 1, n);
            assert(name@ =~= s@.drop_first());
            return match lookup_label(labels, &name) {
                Some(v) => Ok(ValSp::Literal(v)),
                None => Err(ParseError { kind: ParseErrorKind::UnknownLabel, text: string_of(&name) }),
            };
        }
        proof {
            reveal_strlit("$pop");
            reveal_strlit("$peek");
            reveal_strlit("$mem");
            reveal_strlit("$gmem");
            reveal_strlit("$tid");
            assert("$pop"@.take(4) =~= "$pop"@);
            if has_prefix(s@, "$pop"@) {
                assert(s@.take(4)[1] == 'p');
                assert(s@[1] == 'p');
                assert(!has_prefix(s@, "$mem"@)) by {
                    if has_prefix(s@, "$mem"@) {
                        assert(s@.take(4)[1] == 'm');
                    }
                }
                assert(!has_prefix(s@, "$gmem"@)) by {
                    if has_prefix(s@, "$gmem"@) {
                        assert(s@.take(5)[1] == 'g');
                    }
                }
                assert(s@ != "$peek"@) by {
                    if s@ == "$peek"@ {
                        assert(s@[2] == 'e');
                        assert(s@.take(4)[2] == 'o');
                    }
                }
                assert(s@ != "$tid"@) by {
                    if s@ == "$tid"@ {
                        assert(s@[1] == 't');
                    }
                }
            }
        }
        match indexed_expr("$pop", s)? {
            None => {},
            Some(None) => {
                if eq_str(s, "$pop") {
                    return Ok(ValSp::Pop);
                }
            },
            Some(Some(i)) => {
                let v = ValSp::parse(&i, labels)?;
                return Ok(ValSp::PopI(Box::new(v)));
            },
        }
        if eq_str(s, "$peek") {
            return Ok(ValSp::Peek);
        }
        match indexed_expr("$mem", s)? {
            None => {},
            Some(None) => {
                return Err(ParseError { kind: ParseErrorKind::MissingIndex, text: String::from_str("$mem") });
            },
            Some(Some(addr)) => {
                let v = ValSp::parse(&addr, labels)?;
                return Ok(ValSp::Memory(Box::new(v)));
            },
        }
        match indexed_expr("$gmem", s)? {
            None => {},
            Some(None) => {
                return Err(ParseError { kind: ParseErrorKind::MissingIndex, text: String::from_str("$gmem") });
            },
            Some(Some(addr)) => {
                let v = ValSp::parse(&addr, labels)?;
                return Ok(ValSp::GlobalMemory(Box::new(v)));
            },
        }
        if eq_str(s, "$tid") {
            return Ok(ValSp::ThreadId);
        }
        Ok(ValSp::Literal(parse_literal(s)?))
    }
}

/// Whether a line declares a label.
pub open spec fn is_label(l: Seq<char>) -> bool {
    l.len() > 0 && l[0] == ':'
}

/// The number of instruction lines (those that are not labels) in `ls`.
pub open spec fn count_ops(ls: Seq<Seq<char>>) -> nat
    decreases ls.len(),
{
    if ls.len() == 0 {
        0
    } else if is_label(ls.last()) {
        count_ops(ls.drop_last())
    } else {
        count_ops(ls.drop_last()) + 1
    }
}

/// The first pass: each label with the number of instructions before it; a
/// label declared twice fails.
pub open spec fn label_table(ls: Seq<Seq<char>>) -> Result<Labels, PErr>
    decreases ls.len(),
{
    if ls.len() == 0 {
        Ok(Seq::empty())
    } else {
        match label_table(ls.drop_last()) {
            Err(e) => Err(e),
            Ok(t) => {
                let l = ls.last();
                if !is_label(l) {
                    Ok(t)
                } else if lookup(t, l.drop_first()) is Some {
                    Err((ParseErrorKind::DuplicateLabel, l.drop_first()))
                } else {
                    Ok(t.push((l.drop_first(), count_ops(ls.drop_last()) as u64)))
                }
            },
        }
    }
}

/// The instruction name of a line: up to its first space.
pub open spec fn command_of(l: Seq<char>) -> Seq<char> {
    match first_index(l, ' ') {
        Some(k) => l.take(k),
        None => l,
    }
}

/// The operand texts of a line: what follows its first space, split at ", ".
pub open spec fn args_of(l: Seq<char>) -> Seq<Seq<char>> {
    match first_index(l, ' ') {
        Some(k) => split_args(l.skip(k + 1)),
        None => Seq::empty(),
    }
}

/// The instruction kind called `c`.
pub open spec fn kind_named(c: Seq<char>) -> Option<OpKind> {
    if c == "NOP"@ {
        Some(OpKind::Nop)
    } else if c == "PUSH"@ {
        Some(OpKind::Push)
    } else if c == "STORE"@ {
        Some(OpKind::Store)
    } else if c == "STORE_GLOBAL"@ {
        Some(OpKind::StoreGlobal)
    } else if c == "LOAD"@ {
        Some(OpKind::Load)
    } else if c == "ADD"@ {
        Some(OpKind::Add)
    } else if c == "SUB"@ {
        Some(OpKind::Sub)
    } else if c == "MUL"@ {
        Some(OpKind::Mul)
    } else if c == "DIV"@ {
        Some(OpKind::Div)
    } else if c == "SHIFT_LEFT"@ {
        Some(OpKind::ShiftLeft)
    } else if c == "JUMP"@ {
        Some(OpKind::Jump)
    } else if c == "JUMP_EQ"@ {
        Some(OpKind::JumpEq)
    } else if c == "FORK"@ {
        Some(OpKind::Fork)
    } else if c == "JOIN"@ {
        Some(OpKind::Join)
    } else if c == "THREAD_FINISH"@ {
        Some(OpKind::ThreadFinish)
    } else if c == "EXIT"@ {
        Some(OpKind::Exit)
    } else if c == "ASSERT_EQ"@ {
        Some(OpKind::AssertEq)
    } else if c == "DEBUG"@ {
        Some(OpKind::Debug)
    } else {
        None
    }
}

/// The first `n` operands of instruction `cmd`, read in order; a missing one
/// fails.
pub open spec fn operands_spec(args: Seq<Seq<char>>, n: nat, cmd: Seq<char>, labels: Labels) -> Result<
    Seq<ValSp>,
    PErr,
>
    decreases n,
{
    if n == 0 {
        Ok(Seq::empty())
    } else {
        match operands_spec(args, (n - 1) as nat, cmd, labels) {
            Err(e) => Err(e),
            Ok(vs) => if n - 1 >= args.len() {
                Err((ParseErrorKind::TooFewArguments, cmd))
            } else {
                match valsp_spec(args[n - 1], labels) {
                    Err(e) => Err(e),
                    Ok(v) => Ok(vs.push(v)),
                }
            },
        }
    }
}

/// The instruction named `cmd` with operand texts `args`.
pub open spec fn parts_spec(cmd: Seq<char>, args: Seq<Seq<char>>, labels: Labels) -> Result<
    (OpKind, Seq<ValSp>),
    PErr,
> {
    match kind_named(cmd) {
        None => Err((ParseErrorKind::UnknownCommand, cmd)),
        Some(k) => match operands_spec(args, arity(k), cmd, labels) {
            Err(e) => Err(e),
            Ok(vs) => if args.len() > arity(k) {
                Err((ParseErrorKind::TooManyArguments, cmd))
            } else {
                Ok((k, vs))
            },
        },
    }
}

/// The instruction on line `l`.
pub open spec fn opcode_spec(l: Seq<char>, labels: Labels) -> Result<(OpKind, Seq<ValSp>), PErr> {
    parts_spec(command_of(l), args_of(l), labels)
}

/// The second pass: the instructions of the lines that are not labels, in
/// order; the first error stops it.
pub open spec fn ops_spec(ls: Seq<Seq<char>>, labels: Labels) -> Result<Seq<(OpKind, Seq<ValSp>)>, PErr>
    decreases ls.len(),
{
    if ls.len() == 0 {
        Ok(Seq::empty())
    } else {
        match ops_spec(ls.drop_last(), labels) {
            Err(e) => Err(e),
            Ok(ops) => if is_label(ls.last()) {
                Ok(ops)
            } else {
                match opcode_spec(ls.last(), labels) {
                    Err(e) => Err(e),
                    Ok(op) => Ok(ops.push(op)),
                }
            },
        }
    }
}

/// The program that a text assembles to.
pub open spec fn program_spec(text: Seq<char>) -> Result<Seq<(OpKind, Seq<ValSp>)>, PErr> {
    let ls = relevant_lines(text);
    match label_table(ls) {
        Err(e) => Err(e),
        Ok(t) => ops_spec(ls, t),
    }
}

/// Each instruction as its kind and operands.
pub open spec fn op_views(ops: Seq<OpCode>) -> Seq<(OpKind, Seq<ValSp>)> {
    ops.map_values(|o: OpCode| (o.spec_kind(), o.spec_args()))
}

pub proof fn lemma_label_table_err(ls: Seq<Seq<char>>, n: int)
    requires
        0 <= n <= ls.len(),
        label_table(ls.take(n)) is Err,
    ensures
        label_table(ls) == label_table(ls.take(n)),
    decreases ls.len() - n,
{
    if n < ls.len() {
        assert(ls.take(n + 1).drop_last() =~= ls.take(n));
        lemma_label_table_err(ls, n + 1);
    } else {
        assert(ls.take(n) =~= ls);
    }
}

proof fn lemma_ops_err(ls: Seq<Seq<char>>, labels: Labels, n: int)
    requires
        0 <= n <= ls.len(),
        ops_spec(ls.take(n), labels) is Err,
    ensures
        ops_spec(ls, labels) == ops_spec(ls.take(n), labels),
    decreases ls.len() - n,
{
    if n < ls.len() {
        assert(ls.take(n + 1).drop_last() =~= ls.take(n));
        lemma_ops_err(ls, labels, n + 1);
    } else {
        assert(ls.take(n) =~= ls);
    }
}

proof fn lemma_operands_err(args: Seq<Seq<char>>, j: nat, n: nat, cmd: Seq<char>, labels: Labels)
    requires
        j <= n,
        operands_spec(args, j, cmd, labels) is Err,
    ensures
        operands_spec(args, n, cmd, labels) == operands_spec(args, j, cmd, labels),
    decreases n - j,
{
    if j < n {
        lemma_operands_err(args, j, (n - 1) as nat, cmd, labels);
    }
}

/// The instruction kind called `c`.
pub fn kind_named_exec(c: &Vec<char>) -> (r: Option<OpKind>)
    ensures
        r == kind_named(c@),
{
    if eq_str(c, "NOP") {
        Some(OpKind::Nop)
    } else if eq_str(c, "PUSH") {
        Some(OpKind::Push)
    } else if eq_str(c, "STORE") {
        Some(OpKind::Store)
    } else if eq_str(c, "STORE_GLOBAL") {
        Some(OpKind::StoreGlobal)
    } else if eq_str(c, "LOAD") {
        Some(OpKind::Load)
    } else if eq_str(c, "ADD") {
        Some(OpKind::Add)
    } else if eq_str(c, "SUB") {
        Some(OpKind::Sub)
    } else if eq_str(c, "MUL") {
        Some(OpKind::Mul)
    } else if eq_str(c, "DIV") {
        Some(OpKind::Div)
    } else if eq_str(c, "SHIFT_LEFT") {
        Some(OpKind::ShiftLeft)
    } else if eq_str(c, "JUMP") {
        Some(OpKind::Jump)
    } else if eq_str(c, "JUMP_EQ") {
        Some(OpKind::JumpEq)
    } else if eq_str(c, "FORK") {
        Some(OpKind::Fork)
    } else if eq_str(c, "JOIN") {
        Some(OpKind::Join)
    } else if eq_str(c, "THREAD_FINISH") {
        Some(OpKind::ThreadFinish)
    } else if eq_str(c, "EXIT") {
        Some(OpKind::Exit)
    } else if eq_str(c, "ASSERT_EQ") {
        Some(OpKind::AssertEq)
    } else if eq_str(c, "DEBUG") {
        Some(OpKind::Debug)
    } else {
        None
    }
}

/// Splits a line into its instruction name and its operand texts.
pub fn split_command(line: &Vec<char>) -> (r: (Vec<char>, Vec<Vec<char>>))
    ensures
        r.0@ == command_of(line@),
        views(r.1@) == args_of(line@),
{
    match find_char(line, ' ') {
        None => {
            let args: Vec<Vec<char>> = Vec::new();
            assert(views(args@) =~= Seq::<Seq<char>>::empty());
            (slice_of(line, 0, line.len()), args)
        },
        Some(k) => {
            assert(k < line.len());
            let command = slice_of(line, 0, k);
            let rest = slice_of(line, k + 1, line.len());
            assert(rest@ =~= line@.skip(k + 1));
            (command, split_args_of(&rest))
        },
    }
}

impl OpCode {
    /// Builds the instruction named `command` from its operand texts.
    pub fn parse(command: &Vec<char>, args: &Vec<Vec<char>>, labels: &Vec<(Vec<char>, u64)>) -> (r: Result<OpCode, ParseError>)
        ensures
            match parts_spec(command@, views(args@), label_views(labels@)) {
                Ok((k, vs)) => r is Ok && r->Ok_0.spec_kind() == k && r->Ok_0.spec_args() == vs,
                Err(e) => r is Err && perr(&r->Err_0) == e,
            },
    {
        let ghost a = views(args@);
        let ghost tab = label_views(labels@);
        let kind = match kind_named_exec(command) {
            Some(k) => k,
            None => {
                return Err(ParseError { kind: ParseErrorKind::UnknownCommand, text: string_of(command) });
            },
        };
        let n = arity_of(kind);
        let mut vs: Vec<ValSp> = Vec::new();
        let mut j: usize = 0;
        while j < n
            invariant
                j <= n,
                n == arity(kind),
                a == views(args@),
                tab == label_views(labels@),
                operands_spec(a, j as nat, command@, tab) == Ok::<Seq<ValSp>, PErr>(vs@),
                vs@.len() == j,
                kind_named(command@) == Some(kind),
            decreases n - j,
        {
            assert(a.len() == args@.len());
            if j >= args.len() {
                proof {
                    lemma_operands_err(a, (j + 1) as nat, n as nat, command@, tab);
                }
                return Err(ParseError { kind: ParseErrorKind::TooFewArguments, text: string_of(command) });
            }
            assert(a[j as int] == args@[j as int]@);
            match ValSp::parse(&args[j], labels) {
                Ok(v) => {
                    vs.push(v);
                },
                Err(e) => {
                    proof {
                        lemma_operands_err(a, (j + 1) as nat, n as nat, command@, tab);
                    }
                    return Err(e);
                },
            }
            j = j + 1;
        }
        if args.len() > n {
            return Err(ParseError { kind: ParseErrorKind::TooManyArguments, text: string_of(command) });
        }
        Ok(OpCode::new(kind, vs))
    }
}

impl Program {
    /// Assembles a program text.
    pub fn parse(s: &str) -> (r: Result<Program, ParseError>)
        ensures
            match program_spec(s@) {
                Ok(ops) => r is Ok && op_views(r->Ok_0@) == ops,
                Err(e) => r is Err && perr(&r->Err_0) == e,
            },
    {
        let text = chars_of(s);
        let lines = lines_of(&text);
        let ghost ls = views(lines@);

        let mut ops_seen: u64 = 0;
        let mut labels: Vec<(Vec<char>, u64)> = Vec::new();
        let mut i: usize = 0;
        assert(ls.take(0) =~= Seq::<Seq<char>>::empty());
        assert(label_views(labels@) =~= Seq::<(Seq<char>, u64)>::empty());
        while i < lines.len()
            invariant
                i <= lines@.len(),
                ls == views(lines@),
                ls == relevant_lines(s@),
                ops_seen == count_ops(ls.take(i as int)),
                ops_seen <= i,
                label_table(ls.take(i as int)) == Ok::<Labels, PErr>(label_views(labels@)),
            decreases lines@.len() - i,
        {
            assert(ls.take(i as int + 1).drop_last() =~= ls.take(i as int));
            assert(ls.take(i as int + 1).last() == lines@[i as int]@);
            let line = &lines[i];
            let n = line.len();
            if n > 0 && line[0] == ':' {
                let label = slice_of(line, 1, n);
                assert(label@ =~= line@.drop_first());
                if lookup_label(&labels, &label).is_some() {
                    proof {
                        lemma_label_table_err(ls, i as int + 1);
                    }
                    return Err(ParseError { kind: ParseErrorKind::DuplicateLabel, text: string_of(&label) });
                }
                let ghost old_labels = labels@;
                labels.push((label, ops_seen));
                assert(label_views(labels@) =~= label_views(old_labels).push((line@.drop_first(), ops_seen)));
            } else {
                ops_seen = ops_seen + 1;
            }
            i = i + 1;
        }
        assert(ls.take(i as int) =~= ls);
        let ghost tab = label_views(labels@);

        let mut ops: Vec<OpCode> = Vec::new();
        let mut i: usize = 0;
        assert(ls.take(0) =~= Seq::<Seq<char>>::empty());
        assert(op_views(ops@) =~= Seq::<(OpKind, Seq<ValSp>)>::empty());
        while i < lines.len()
            invariant
                i <= lines@.len(),
                ls == views(lines@),
                tab == label_views(labels@),
                ls == relevant_lines(s@),
                label_table(ls) == Ok::<Labels, PErr>(tab),
                ops_spec(ls.take(i as int), tab) == Ok::<Seq<(OpKind, Seq<ValSp>)>, PErr>(op_views(ops@)),
            decreases lines@.len() - i,
        {
            assert(ls.take(i as int + 1).drop_last() =~= ls.take(i as int));
            assert(ls.take(i as int + 1).last() == lines@[i as int]@);
            let line = &lines[i];
            if !(line.len() > 0 && line[0] == ':') {
                let (command, args) = split_command(line);
                match OpCode::parse(&command, &args, &labels) {
                    Ok(op) => {
                        let ghost old_ops = ops@;
                        ops.push(op);
                        assert(op_views(ops@) =~= op_views(old_ops).push((op.spec_kind(), op.spec_args())));
                    },
                    Err(e) => {
                        assert(ops_spec(ls.take(i as int + 1), tab) is Err);
                        proof {
                            lemma_ops_err(ls, tab, i as int + 1);
                        }
                        return Err(e);
                    },
                }
            }
            i = i + 1;
        }
        assert(ls.take(i as int) =~= ls);
        Ok(Program::from_ops(ops))
    }
}

} // verus!
