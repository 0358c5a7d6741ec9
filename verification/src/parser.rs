//! The hand-rolled recursive-descent parser for the assembly language.
//!
//! The grammar is ASCII; source text holding other characters is
//! rejected as a parse error. Each executable parser mirrors a spec
//! function over the character sequence, so that the whole parse is a
//! function of the source text.

use crate::error::AssemblerError;
use crate::instruction::Opcode;
use crate::strutil::{
    str_eq,
    alpha_at, byte_at, digit_at, digits_val, is_alpha_char, is_digit_char, is_word_char,
    is_ws_char, lower_chars, region_eq_lower, word_at, ws_at,
};
use crate::tokens::{AssemblerInstruction, Program, SpecInstruction, SpecToken, Token};
use vstd::prelude::*;
use vstd::string::StrSliceExecFns;

verus! {

// --- Scanning -------------------------------------------------------------

/// The first position at or after `pos` that does not hold whitespace.
pub open spec fn spec_skip_ws(s: Seq<char>, pos: int) -> int
    decreases s.len() - pos,
{
    if 0 <= pos < s.len() && is_ws_char(s[pos]) {
        spec_skip_ws(s, pos + 1)
    } else {
        pos
    }
}

/// The first position at or after `pos` that does not hold a digit.
pub open spec fn spec_scan_digits(s: Seq<char>, pos: int) -> int
    decreases s.len() - pos,
{
    if 0 <= pos < s.len() && is_digit_char(s[pos]) {
        spec_scan_digits(s, pos + 1)
    } else {
        pos
    }
}

/// The first position at or after `pos` that does not hold a letter.
pub open spec fn spec_scan_alpha(s: Seq<char>, pos: int) -> int
    decreases s.len() - pos,
{
    if 0 <= pos < s.len() && is_alpha_char(s[pos]) {
        spec_scan_alpha(s, pos + 1)
    } else {
        pos
    }
}

/// The first position at or after `pos` that does not hold a label
/// character.
pub open spec fn spec_scan_word(s: Seq<char>, pos: int) -> int
    decreases s.len() - pos,
{
    if 0 <= pos < s.len() && is_word_char(s[pos]) {
        spec_scan_word(s, pos + 1)
    } else {
        pos
    }
}

/// The first position at or after `pos` holding `q`, or the end.
pub open spec fn spec_scan_until(s: Seq<char>, pos: int, q: char) -> int
    decreases s.len() - pos,
{
    if 0 <= pos < s.len() && s[pos] != q {
        spec_scan_until(s, pos + 1, q)
    } else {
        pos
    }
}

fn skip_ws(s: &str, pos: usize) -> (r: usize)
    requires
        s.is_ascii(),
        pos <= s@.len(),
    ensures
        r == spec_skip_ws(s@, pos as int),
        pos <= r <= s@.len(),
{
    let n = s.unicode_len();
    let mut i = pos;
    while i < n && ws_at(s, i)
        invariant
            pos <= i <= n,
            n == s@.len(),
            s.is_ascii(),
            spec_skip_ws(s@, pos as int) == spec_skip_ws(s@, i as int),
        decreases n - i,
    {
        i += 1;
    }
    i
}

fn scan_digits(s: &str, pos: usize) -> (r: usize)
    requires
        s.is_ascii(),
        pos <= s@.len(),
    ensures
        r == spec_scan_digits(s@, pos as int),
        pos <= r <= s@.len(),
        forall|j: int| pos <= j < r ==> is_digit_char(s@[j]),
{
    let n = s.unicode_len();
    let mut i = pos;
    while i < n && digit_at(s, i)
        invariant
            pos <= i <= n,
            n == s@.len(),
            s.is_ascii(),
            spec_scan_digits(s@, pos as int) == spec_scan_digits(s@, i as int),
            forall|j: int| pos <= j < i ==> is_digit_char(s@[j]),
        decreases n - i,
    {
        i += 1;
    }
    i
}

fn scan_alpha(s: &str, pos: usize) -> (r: usize)
    requires
        s.is_ascii(),
        pos <= s@.len(),
    ensures
        r == spec_scan_alpha(s@, pos as int),
        pos <= r <= s@.len(),
{
    let n = s.unicode_len();
    let mut i = pos;
    while i < n && alpha_at(s, i)
        invariant
            pos <= i <= n,
            n == s@.len(),
            s.is_ascii(),
            spec_scan_alpha(s@, pos as int) == spec_scan_alpha(s@, i as int),
        decreases n - i,
    {
        i += 1;
    }
    i
}

fn scan_word(s: &str, pos: usize) -> (r: usize)
    requires
        s.is_ascii(),
        pos <= s@.len(),
    ensures
        r == spec_scan_word(s@, pos as int),
        pos <= r <= s@.len(),
{
    let n = s.unicode_len();
    let mut i = pos;
    while i < n && word_at(s, i)
        invariant
            pos <= i <= n,
            n == s@.len(),
            s.is_ascii(),
            spec_scan_word(s@, pos as int) == spec_scan_word(s@, i as int),
        decreases n - i,
    {
        i += 1;
    }
    i
}

fn scan_until(s: &str, pos: usize, qb: u8) -> (r: usize)
    requires
        s.is_ascii(),
        pos <= s@.len(),
        qb <= 127,
    ensures
        r == spec_scan_until(s@, pos as int, qb as char),
        pos <= r <= s@.len(),
{
    let n = s.unicode_len();
    let mut i = pos;
    loop
        invariant
            pos <= i <= n,
            n == s@.len(),
            s.is_ascii(),
            qb <= 127,
            spec_scan_until(s@, pos as int, qb as char) == spec_scan_until(
                s@,
                i as int,
                qb as char,
            ),
        ensures
            i == spec_scan_until(s@, pos as int, qb as char),
            pos <= i <= n,
        decreases n - i,
    {
        if i >= n {
            break ;
        }
        let b = byte_at(s, i);
        if b == qb {
            proof {
                assert(s@[i as int] == qb as char);
            }
            break ;
        }
        proof {
            assert(s@[i as int] != qb as char);
        }
        i += 1;
    }
    i
}

// --- Digit values ---------------------------------------------------------

proof fn lemma_digits_val_nonneg(s: Seq<char>)
    requires
        forall|j: int| 0 <= j < s.len() ==> is_digit_char(#[trigger] s[j]),
    ensures
        digits_val(s) >= 0,
    decreases s.len(),
{
    if s.len() > 0 {
        lemma_digits_val_nonneg(s.drop_last());
    }
}

/// A digit string's value only grows as more digits are appended.
proof fn lemma_digits_val_prefix(s: Seq<char>, k: int)
    requires
        forall|j: int| 0 <= j < s.len() ==> is_digit_char(#[trigger] s[j]),
        0 <= k <= s.len(),
    ensures
        digits_val(s) >= digits_val(s.take(k)),
    decreases s.len() - k,
{
    if k < s.len() {
        assert(s.take(k + 1).drop_last() =~= s.take(k));
        assert(forall|j: int| 0 <= j < s.take(k + 1).len() ==> is_digit_char(#[trigger] s.take(k + 1)[j]));
        lemma_digits_val_nonneg(s.take(k));
        lemma_digits_val_prefix(s, k + 1);
    } else {
        assert(s.take(k) =~= s);
    }
}

/// The value of the digits in `[from, to)`, unless it exceeds `limit`.
fn digits_value(s: &str, from: usize, to: usize, limit: u32) -> (r: Option<u32>)
    requires
        s.is_ascii(),
        from <= to <= s@.len(),
        forall|j: int| from <= j < to ==> is_digit_char(#[trigger] s@[j]),
    ensures
        match r {
            Some(v) => v == digits_val(s@.subrange(from as int, to as int)) && v <= limit,
            None => digits_val(s@.subrange(from as int, to as int)) > limit,
        },
{
    let ghost whole = s@.subrange(from as int, to as int);
    proof {
        assert(forall|j: int| 0 <= j < whole.len() ==> is_digit_char(#[trigger] whole[j]));
    }
    let mut acc: u32 = 0;
    let mut k = from;
    while k < to
        invariant
            from <= k <= to,
            to <= s@.len(),
            s.is_ascii(),
            forall|j: int| from <= j < to ==> is_digit_char(#[trigger] s@[j]),
            whole == s@.subrange(from as int, to as int),
            forall|j: int| 0 <= j < whole.len() ==> is_digit_char(#[trigger] whole[j]),
            acc == digits_val(whole.take(k - from)),
            acc <= limit,
        decreases to - k,
    {
        let b = byte_at(s, k);
        let d: u32 = (b - 48) as u32;
        proof {
            assert(whole.take(k - from + 1).drop_last() =~= whole.take(k - from));
            assert(whole.take(k - from + 1).last() == s@[k as int]);
            assert(d == s@[k as int] as u32 - '0' as u32);
        }
        let nv: u64 = acc as u64 * 10 + d as u64;
        proof {
            assert(nv == digits_val(whole.take(k - from + 1)));
        }
        if nv > limit as u64 {
            proof {
                lemma_digits_val_prefix(whole, k - from + 1);
            }
            return None;
        }
        acc = (nv as u32);
        k += 1;
    }
    proof {
        assert(whole.take(to - from) =~= whole);
    }
    Some(acc)
}

// --- The opcode table by name ---------------------------------------------

/// The opcode named by a (lower-case) mnemonic; unknown names map to
/// `IGL`.
pub open spec fn opcode_of_name(n: Seq<char>) -> Opcode {
    if n == "load"@ {
        Opcode::LOAD
    } else if n == "add"@ {
        Opcode::ADD
    } else if n == "sub"@ {
        Opcode::SUB
    } else if n == "mul"@ {
        Opcode::MUL
    } else if n == "div"@ {
        Opcode::DIV
    } else if n == "hlt"@ {
        Opcode::HLT
    } else if n == "jmp"@ {
        Opcode::JMP
    } else if n == "jmpf"@ {
        Opcode::JMPF
    } else if n == "jmpb"@ {
        Opcode::JMPB
    } else if n == "eq"@ {
        Opcode::EQ
    } else if n == "neq"@ {
        Opcode::NEQ
    } else if n == "gtq"@ {
        Opcode::GTQ
    } else if n == "gt"@ {
        Opcode::GT
    } else if n == "ltq"@ {
        Opcode::LTQ
    } else if n == "lt"@ {
        Opcode::LT
    } else if n == "jeq"@ {
        Opcode::JEQ
    } else if n == "aloc"@ {
        Opcode::ALOC
    } else if n == "prts"@ {
        Opcode::PRTS
    } else if n == "slp"@ {
        Opcode::SLP
    } else if n == "slps"@ {
        Opcode::SLPS
    } else if n == "aski"@ {
        Opcode::ASKI
    } else if n == "asks"@ {
        Opcode::ASKS
    } else if n == "grps"@ {
        Opcode::GRPS
    } else {
        Opcode::IGL
    }
}

/// Looks the mnemonic in `[from, to)` up in the opcode table, folding
/// case.
fn opcode_from_region(s: &str, from: usize, to: usize) -> (r: Opcode)
    requires
        s.is_ascii(),
        from <= to <= s@.len(),
    ensures
        r == opcode_of_name(lower_chars(s@.subrange(from as int, to as int))),
{
    proof {
        reveal_strlit("load");
        reveal_strlit("add");
        reveal_strlit("sub");
        reveal_strlit("mul");
        reveal_strlit("div");
        reveal_strlit("hlt");
        reveal_strlit("jmp");
        reveal_strlit("jmpf");
        reveal_strlit("jmpb");
        reveal_strlit("eq");
        reveal_strlit("neq");
        reveal_strlit("gtq");
        reveal_strlit("gt");
        reveal_strlit("ltq");
        reveal_strlit("lt");
        reveal_strlit("jeq");
        reveal_strlit("aloc");
        reveal_strlit("prts");
        reveal_strlit("slp");
        reveal_strlit("slps");
        reveal_strlit("aski");
        reveal_strlit("asks");
        reveal_strlit("grps");
        assert("load".is_ascii());
        assert("add".is_ascii());
        assert("sub".is_ascii());
        assert("mul".is_ascii());
        assert("div".is_ascii());
        assert("hlt".is_ascii());
        assert("jmp".is_ascii());
        assert("jmpf".is_ascii());
        assert("jmpb".is_ascii());
        assert("eq".is_ascii());
        assert("neq".is_ascii());
        assert("gtq".is_ascii());
        assert("gt".is_ascii());
        assert("ltq".is_ascii());
        assert("lt".is_ascii());
        assert("jeq".is_ascii());
        assert("aloc".is_ascii());
        assert("prts".is_ascii());
        assert("slp".is_ascii());
        assert("slps".is_ascii());
        assert("aski".is_ascii());
        assert("asks".is_ascii());
        assert("grps".is_ascii());
    }
    if region_eq_lower(s, from, to, "load") {
        Opcode::LOAD
    } else if region_eq_lower(s, from, to, "add") {
        Opcode::ADD
    } else if region_eq_lower(s, from, to, "sub") {
        Opcode::SUB
    } else if region_eq_lower(s, from, to, "mul") {
        Opcode::MUL
    } else if region_eq_lower(s, from, to, "div") {
        Opcode::DIV
    } else if region_eq_lower(s, from, to, "hlt") {
        Opcode::HLT
    } else if region_eq_lower(s, from, to, "jmp") {
        Opcode::JMP
    } else if region_eq_lower(s, from, to, "jmpf") {
        Opcode::JMPF
    } else if region_eq_lower(s, from, to, "jmpb") {
        Opcode::JMPB
    } else if region_eq_lower(s, from, to, "eq") {
        Opcode::EQ
    } else if region_eq_lower(s, from, to, "neq") {
        Opcode::NEQ
    } else if region_eq_lower(s, from, to, "gtq") {
        Opcode::GTQ
    } else if region_eq_lower(s, from, to, "gt") {
        Opcode::GT
    } else if region_eq_lower(s, from, to, "ltq") {
        Opcode::LTQ
    } else if region_eq_lower(s, from, to, "lt") {
        Opcode::LT
    } else if region_eq_lower(s, from, to, "jeq") {
        Opcode::JEQ
    } else if region_eq_lower(s, from, to, "aloc") {
        Opcode::ALOC
    } else if region_eq_lower(s, from, to, "prts") {
        Opcode::PRTS
    } else if region_eq_lower(s, from, to, "slp") {
        Opcode::SLP
    } else if region_eq_lower(s, from, to, "slps") {
        Opcode::SLPS
    } else if region_eq_lower(s, from, to, "aski") {
        Opcode::ASKI
    } else if region_eq_lower(s, from, to, "asks") {
        Opcode::ASKS
    } else if region_eq_lower(s, from, to, "grps") {
        Opcode::GRPS
    } else {
        Opcode::IGL
    }
}

// --- Token parsers --------------------------------------------------------

/// `register := "$" digit+`, value within `u8`.
pub open spec fn spec_parse_register(s: Seq<char>, pos: int) -> Option<(SpecToken, int)> {
    if 0 <= pos < s.len() && s[pos] == '$' {
        let e = spec_scan_digits(s, pos + 1);
        let v = digits_val(s.subrange(pos + 1, e));
        if e > pos + 1 && v <= 255 {
            Some((SpecToken::Register { reg_num: v as u8 }, e))
        } else {
            None
        }
    } else {
        None
    }
}

/// `integer := "#" digit+`, value within `i32`.
pub open spec fn spec_parse_integer(s: Seq<char>, pos: int) -> Option<(SpecToken, int)> {
    if 0 <= pos < s.len() && s[pos] == '#' {
        let e = spec_scan_digits(s, pos + 1);
        let v = digits_val(s.subrange(pos + 1, e));
        if e > pos + 1 && v <= 0x7fffffff {
            Some((SpecToken::IntegerOperand { value: v as i32 }, e))
        } else {
            None
        }
    } else {
        None
    }
}

/// `string := "'" not-"'"+ "'" | '"' not-'"'+ '"'`; no escapes.
pub open spec fn spec_parse_string(s: Seq<char>, pos: int) -> Option<(SpecToken, int)> {
    if 0 <= pos < s.len() && (s[pos] == '\'' || s[pos] == '"') {
        let q = s[pos];
        let e = spec_scan_until(s, pos + 1, q);
        if e < s.len() && e > pos + 1 {
            Some((SpecToken::RkString { name: s.subrange(pos + 1, e) }, e + 1))
        } else {
            None
        }
    } else {
        None
    }
}

/// `label_use := "@" (alnum | '_')+ whitespace*`.
pub open spec fn spec_parse_label_usage(s: Seq<char>, pos: int) -> Option<(SpecToken, int)> {
    if 0 <= pos < s.len() && s[pos] == '@' {
        let e = spec_scan_word(s, pos + 1);
        if e > pos + 1 {
            Some((SpecToken::LabelUsage { name: s.subrange(pos + 1, e) }, spec_skip_ws(s, e)))
        } else {
            None
        }
    } else {
        None
    }
}

/// An operand, surrounded by optional whitespace: the first match among
/// integer, string, register and label use.
pub open spec fn spec_parse_operand(s: Seq<char>, pos: int) -> Option<(SpecToken, int)> {
    let p = spec_skip_ws(s, pos);
    match spec_parse_integer(s, p) {
        Some((t, e)) => Some((t, spec_skip_ws(s, e))),
        None => match spec_parse_string(s, p) {
            Some((t, e)) => Some((t, spec_skip_ws(s, e))),
            None => match spec_parse_register(s, p) {
                Some((t, e)) => Some((t, spec_skip_ws(s, e))),
                None => match spec_parse_label_usage(s, p) {
                    Some((t, e)) => Some((t, spec_skip_ws(s, e))),
                    None => None,
                },
            },
        },
    }
}

/// `label_decl := (alnum | '_')+ ":" whitespace*`, with surrounding
/// whitespace.
pub open spec fn spec_parse_label_decl(s: Seq<char>, pos: int) -> Option<(SpecToken, int)> {
    let p = spec_skip_ws(s, pos);
    let e = spec_scan_word(s, p);
    if e > p && e < s.len() && s[e] == ':' {
        Some((SpecToken::LabelDeclaration { name: s.subrange(p, e) }, spec_skip_ws(s, e + 1)))
    } else {
        None
    }
}

/// `opcode_name := alpha+`, mapped through the opcode table after case
/// folding; unknown names become `IGL`.
pub open spec fn spec_parse_opcode(s: Seq<char>, pos: int) -> Option<(SpecToken, int)> {
    let e = spec_scan_alpha(s, pos);
    if 0 <= pos && e > pos {
        Some((SpecToken::Opcode { code: opcode_of_name(lower_chars(s.subrange(pos, e))) }, e))
    } else {
        None
    }
}

/// `directive := "." alpha+` (case preserved).
pub open spec fn spec_parse_directive_decl(s: Seq<char>, pos: int) -> Option<(SpecToken, int)> {
    if 0 <= pos < s.len() && s[pos] == '.' {
        let e = spec_scan_alpha(s, pos + 1);
        if e > pos + 1 {
            Some((SpecToken::Directive { name: s.subrange(pos + 1, e) }, e))
        } else {
            None
        }
    } else {
        None
    }
}

fn parse_register_at(s: &str, pos: usize) -> (r: Option<(Token, usize)>)
    requires
        s.is_ascii(),
        pos <= s@.len(),
    ensures
        match spec_parse_register(s@, pos as int) {
            Some((t, p)) => r matches Some((tok, pp)) && tok@ == t && pp == p && pos < pp
                <= s@.len(),
            None => r is None,
        },
{
    if pos < s.unicode_len() && byte_at(s, pos) == 36 {
        let e = scan_digits(s, pos + 1);
        if e == pos + 1 {
            return None;
        }
        match digits_value(s, pos + 1, e, 255) {
            Some(v) => Some((Token::Register { reg_num: v as u8 }, e)),
            None => None,
        }
    } else {
        None
    }
}

fn parse_integer_at(s: &str, pos: usize) -> (r: Option<(Token, usize)>)
    requires
        s.is_ascii(),
        pos <= s@.len(),
    ensures
        match spec_parse_integer(s@, pos as int) {
            Some((t, p)) => r matches Some((tok, pp)) && tok@ == t && pp == p && pos < pp
                <= s@.len(),
            None => r is None,
        },
{
    if pos < s.unicode_len() && byte_at(s, pos) == 35 {
        let e = scan_digits(s, pos + 1);
        if e == pos + 1 {
            return None;
        }
        match digits_value(s, pos + 1, e, 0x7fffffff) {
            Some(v) => Some((Token::IntegerOperand { value: v as i32 }, e)),
            None => None,
        }
    } else {
        None
    }
}

fn parse_string_at(s: &str, pos: usize) -> (r: Option<(Token, usize)>)
    requires
        s.is_ascii(),
        pos <= s@.len(),
    ensures
        match spec_parse_string(s@, pos as int) {
            Some((t, p)) => r matches Some((tok, pp)) && tok@ == t && pp == p && pos < pp
                <= s@.len(),
            None => r is None,
        },
{
    if pos >= s.unicode_len() {
        return None;
    }
    let q = byte_at(s, pos);
    if q != 39 && q != 34 {
        return None;
    }
    let e = scan_until(s, pos + 1, q);
    if e >= s.unicode_len() || e == pos + 1 {
        return None;
    }
    let name = s.substring_ascii(pos + 1, e).to_owned();
    Some((Token::RkString { name }, e + 1))
}

fn parse_label_usage_at(s: &str, pos: usize) -> (r: Option<(Token, usize)>)
    requires
        s.is_ascii(),
        pos <= s@.len(),
    ensures
        match spec_parse_label_usage(s@, pos as int) {
            Some((t, p)) => r matches Some((tok, pp)) && tok@ == t && pp == p && pos < pp
                <= s@.len(),
            None => r is None,
        },
{
    if pos >= s.unicode_len() || byte_at(s, pos) != 64 {
        return None;
    }
    let e = scan_word(s, pos + 1);
    if e == pos + 1 {
        return None;
    }
    let name = s.substring_ascii(pos + 1, e).to_owned();
    Some((Token::LabelUsage { name }, skip_ws(s, e)))
}

fn parse_operand_at(s: &str, pos: usize) -> (r: Option<(Token, usize)>)
    requires
        s.is_ascii(),
        pos <= s@.len(),
    ensures
        match spec_parse_operand(s@, pos as int) {
            Some((t, p)) => r matches Some((tok, pp)) && tok@ == t && pp == p && pos <= pp
                <= s@.len(),
            None => r is None,
        },
{
    let p = skip_ws(s, pos);
    match parse_integer_at(s, p) {
        Some((t, e)) => {
            return Some((t, skip_ws(s, e)));
        },
        None => {},
    }
    match parse_string_at(s, p) {
        Some((t, e)) => {
            return Some((t, skip_ws(s, e)));
        },
        None => {},
    }
    match parse_register_at(s, p) {
        Some((t, e)) => {
            return Some((t, skip_ws(s, e)));
        },
        None => {},
    }
    match parse_label_usage_at(s, p) {
        Some((t, e)) => {
            return Some((t, skip_ws(s, e)));
        },
        None => {},
    }
    None
}

fn parse_label_decl_at(s: &str, pos: usize) -> (r: Option<(Token, usize)>)
    requires
        s.is_ascii(),
        pos <= s@.len(),
    ensures
        match spec_parse_label_decl(s@, pos as int) {
            Some((t, p)) => r matches Some((tok, pp)) && tok@ == t && pp == p && pos < pp
                <= s@.len(),
            None => r is None,
        },
{
    let p = skip_ws(s, pos);
    let e = scan_word(s, p);
    if e > p && e < s.unicode_len() && byte_at(s, e) == 58 {
        let name = s.substring_ascii(p, e).to_owned();
        Some((Token::LabelDeclaration { name }, skip_ws(s, e + 1)))
    } else {
        None
    }
}

fn parse_opcode_at(s: &str, pos: usize) -> (r: Option<(Token, usize)>)
    requires
        s.is_ascii(),
        pos <= s@.len(),
    ensures
        match spec_parse_opcode(s@, pos as int) {
            Some((t, p)) => r matches Some((tok, pp)) && tok@ == t && pp == p && pos < pp
                <= s@.len(),
            None => r is None,
        },
{
    let e = scan_alpha(s, pos);
    if e > pos {
        let code = opcode_from_region(s, pos, e);
        Some((Token::Opcode { code }, e))
    } else {
        None
    }
}

fn parse_directive_decl_at(s: &str, pos: usize) -> (r: Option<(Token, usize)>)
    requires
        s.is_ascii(),
        pos <= s@.len(),
    ensures
        match spec_parse_directive_decl(s@, pos as int) {
            Some((t, p)) => r matches Some((tok, pp)) && tok@ == t && pp == p && pos < pp
                <= s@.len(),
            None => r is None,
        },
{
    if pos >= s.unicode_len() || byte_at(s, pos) != 46 {
        return None;
    }
    let e = scan_alpha(s, pos + 1);
    if e == pos + 1 {
        return None;
    }
    let name = s.substring_ascii(pos + 1, e).to_owned();
    Some((Token::Directive { name }, e))
}

// --- Instructions ---------------------------------------------------------

/// One optional operand: the parsed token and the new position, or the
/// position unchanged.
pub open spec fn spec_opt_operand(s: Seq<char>, pos: int) -> (Option<SpecToken>, int) {
    match spec_parse_operand(s, pos) {
        Some((t, p)) => (Some(t), p),
        None => (None, pos),
    }
}

/// Up to three operands, each optional, left to right.
pub open spec fn spec_parse_operands3(s: Seq<char>, pos: int) -> (
    Option<SpecToken>,
    Option<SpecToken>,
    Option<SpecToken>,
    int,
) {
    let (o1, p1) = spec_opt_operand(s, pos);
    let (o2, p2) = spec_opt_operand(s, p1);
    let (o3, p3) = spec_opt_operand(s, p2);
    (o1, o2, o3, p3)
}

/// One line: an optional label, then either a code instruction (an
/// opcode and up to three operands) or a directive line (a directive
/// name and up to three operands), with trailing whitespace consumed.
pub open spec fn spec_parse_instruction(s: Seq<char>, pos: int) -> Option<(SpecInstruction, int)> {
    let pl = spec_skip_ws(s, pos);
    let lr = spec_parse_label_decl(s, pl);
    let label = match lr {
        Some((t, p)) => Some(t),
        None => None,
    };
    let p1 = match lr {
        Some((t, p)) => p,
        None => pl,
    };
    match spec_parse_opcode(s, p1) {
        Some((op, p2)) => {
            let (o1, o2, o3, p5) = spec_parse_operands3(s, p2);
            Some(
                (
                    SpecInstruction {
                        opcode: Some(op),
                        label,
                        directive: None,
                        operand1: o1,
                        operand2: o2,
                        operand3: o3,
                    },
                    spec_skip_ws(s, p5),
                ),
            )
        },
        None => match spec_parse_directive_decl(s, p1) {
            Some((d, p2)) => {
                let (o1, o2, o3, p5) = spec_parse_operands3(s, p2);
                Some(
                    (
                        SpecInstruction {
                            opcode: None,
                            label,
                            directive: Some(d),
                            operand1: o1,
                            operand2: o2,
                            operand3: o3,
                        },
                        spec_skip_ws(s, p5),
                    ),
                )
            },
            None => None,
        },
    }
}

/// As many instructions as parse, left to right; the final position is
/// where parsing stopped.
pub open spec fn spec_parse_instrs(s: Seq<char>, pos: int) -> (Seq<SpecInstruction>, int)
    decreases s.len() - pos,
{
    match spec_parse_instruction(s, pos) {
        None => (Seq::empty(), pos),
        Some((i, p)) => if pos < p <= s.len() {
            let (rest, q) = spec_parse_instrs(s, p);
            (seq![i] + rest, q)
        } else {
            (seq![i], p)
        },
    }
}

fn opt_operand_at(s: &str, pos: usize) -> (r: (Option<Token>, usize))
    requires
        s.is_ascii(),
        pos <= s@.len(),
    ensures
        ({
            let (ot, p) = spec_opt_operand(s@, pos as int);
            &&& crate::tokens::opt_token_view(r.0) == ot
            &&& r.1 == p
            &&& pos <= r.1 <= s@.len()
        }),
{
    match parse_operand_at(s, pos) {
        Some((t, p)) => (Some(t), p),
        None => (None, pos),
    }
}

fn parse_instruction_at(s: &str, pos: usize) -> (r: Option<(AssemblerInstruction, usize)>)
    requires
        s.is_ascii(),
        pos <= s@.len(),
    ensures
        match spec_parse_instruction(s@, pos as int) {
            Some((iv, p)) => r matches Some((instr, pp)) && instr@ == iv && pp == p && pos < pp
                <= s@.len(),
            None => r is None,
        },
{
    let pl = skip_ws(s, pos);
    let (label, p1) = match parse_label_decl_at(s, pl) {
        Some((t, p)) => (Some(t), p),
        None => (None, pl),
    };
    proof {
        assert(crate::tokens::opt_token_view(label) == (match spec_parse_label_decl(
            s@,
            pl as int,
        ) {
            Some((t, p)) => Some(t),
            None => None,
        }));
    }
    match parse_opcode_at(s, p1) {
        Some((op, p2)) => {
            let (o1, p3) = opt_operand_at(s, p2);
            let (o2, p4) = opt_operand_at(s, p3);
            let (o3, p5) = opt_operand_at(s, p4);
            let pe = skip_ws(s, p5);
            let instr = AssemblerInstruction {
                opcode: Some(op),
                label,
                directive: None,
                operand1: o1,
                operand2: o2,
                operand3: o3,
            };
            Some((instr, pe))
        },
        None => match parse_directive_decl_at(s, p1) {
            Some((d, p2)) => {
                let (o1, p3) = opt_operand_at(s, p2);
                let (o2, p4) = opt_operand_at(s, p3);
                let (o3, p5) = opt_operand_at(s, p4);
                let pe = skip_ws(s, p5);
                let instr = AssemblerInstruction {
                    opcode: None,
                    label,
                    directive: Some(d),
                    operand1: o1,
                    operand2: o2,
                    operand3: o3,
                };
                Some((instr, pe))
            },
            None => None,
        },
    }
}

// --- Public parser surface ------------------------------------------------

/// Parses a register reference at the start of `i`.
pub fn register(i: &str) -> (r: Option<(Token, usize)>)
    ensures
        i.is_ascii() ==> match spec_parse_register(i@, 0) {
            Some((t, p)) => r matches Some((tok, pp)) && tok@ == t && pp == p,
            None => r is None,
        },
        !i.is_ascii() ==> r is None,
{
    if !i.is_ascii() {
        return None;
    }
    parse_register_at(i, 0)
}

/// Parses an integer operand at the start of `i`.
pub fn integer_operand(i: &str) -> (r: Option<(Token, usize)>)
    ensures
        i.is_ascii() ==> match spec_parse_integer(i@, 0) {
            Some((t, p)) => r matches Some((tok, pp)) && tok@ == t && pp == p,
            None => r is None,
        },
        !i.is_ascii() ==> r is None,
{
    if !i.is_ascii() {
        return None;
    }
    parse_integer_at(i, 0)
}

/// Parses a string constant at the start of `i`.
pub fn rkstring(i: &str) -> (r: Option<(Token, usize)>)
    ensures
        i.is_ascii() ==> match spec_parse_string(i@, 0) {
            Some((t, p)) => r matches Some((tok, pp)) && tok@ == t && pp == p,
            None => r is None,
        },
        !i.is_ascii() ==> r is None,
{
    if !i.is_ascii() {
        return None;
    }
    parse_string_at(i, 0)
}

/// Parses a label use at the start of `i`.
pub fn label_usage(i: &str) -> (r: Option<(Token, usize)>)
    ensures
        i.is_ascii() ==> match spec_parse_label_usage(i@, 0) {
            Some((t, p)) => r matches Some((tok, pp)) && tok@ == t && pp == p,
            None => r is None,
        },
        !i.is_ascii() ==> r is None,
{
    if !i.is_ascii() {
        return None;
    }
    parse_label_usage_at(i, 0)
}

/// Parses a label declaration at the start of `i`.
pub fn label_declaration(i: &str) -> (r: Option<(Token, usize)>)
    ensures
        i.is_ascii() ==> match spec_parse_label_decl(i@, 0) {
            Some((t, p)) => r matches Some((tok, pp)) && tok@ == t && pp == p,
            None => r is None,
        },
        !i.is_ascii() ==> r is None,
{
    if !i.is_ascii() {
        return None;
    }
    parse_label_decl_at(i, 0)
}

/// Parses an operand (integer, string, register or label use) at the
/// start of `i`.
pub fn operand(i: &str) -> (r: Option<(Token, usize)>)
    ensures
        i.is_ascii() ==> match spec_parse_operand(i@, 0) {
            Some((t, p)) => r matches Some((tok, pp)) && tok@ == t && pp == p,
            None => r is None,
        },
        !i.is_ascii() ==> r is None,
{
    if !i.is_ascii() {
        return None;
    }
    parse_operand_at(i, 0)
}

/// Parses an opcode mnemonic at the start of `i`.
pub fn opcode(i: &str) -> (r: Option<(Token, usize)>)
    ensures
        i.is_ascii() ==> match spec_parse_opcode(i@, 0) {
            Some((t, p)) => r matches Some((tok, pp)) && tok@ == t && pp == p,
            None => r is None,
        },
        !i.is_ascii() ==> r is None,
{
    if !i.is_ascii() {
        return None;
    }
    parse_opcode_at(i, 0)
}

/// Parses a directive line at the start of `i`: an optional label, the
/// directive, and up to three operands. A code line here parses as an
/// instruction instead and yields `None`.
pub fn directive(i: &str) -> (r: Option<(AssemblerInstruction, usize)>)
    ensures
        i.is_ascii() ==> match spec_parse_instruction(i@, 0) {
            Some((iv, p)) => if iv.directive is Some {
                r matches Some((instr, pp)) && instr@ == iv && pp == p
            } else {
                r is None
            },
            None => r is None,
        },
        !i.is_ascii() ==> r is None,
{
    if !i.is_ascii() {
        return None;
    }
    match parse_instruction_at(i, 0) {
        Some((instr, p)) => {
            if instr.is_directive() {
                Some((instr, p))
            } else {
                None
            }
        },
        None => None,
    }
}

/// Parses one line at the start of `i`: a code instruction or a
/// directive, optionally labelled.
pub fn instruction(i: &str) -> (r: Option<(AssemblerInstruction, usize)>)
    ensures
        i.is_ascii() ==> match spec_parse_instruction(i@, 0) {
            Some((iv, p)) => r matches Some((instr, pp)) && instr@ == iv && pp == p,
            None => r is None,
        },
        !i.is_ascii() ==> r is None,
{
    if !i.is_ascii() {
        return None;
    }
    parse_instruction_at(i, 0)
}

/// Parses a whole program: one or more instructions covering all of the
/// input. Source that is not ASCII or holds no instruction is a parse
/// error; a program that parses but leaves text behind is unterminated.
pub fn program(i: &str) -> (r: Result<Program, AssemblerError>)
    ensures
        i.is_ascii() ==> ({
            let (instrs, p) = spec_parse_instrs(i@, 0);
            if instrs.len() == 0 {
                r matches Err(AssemblerError::ParseError { .. })
            } else if p != i@.len() {
                r matches Err(AssemblerError::UnterminatedProgram)
            } else {
                r matches Ok(prog) && prog@ == instrs
            }
        }),
        !i.is_ascii() ==> r matches Err(AssemblerError::ParseError { .. }),
{
    if !i.is_ascii() {
        return Err(
            AssemblerError::ParseError { error: "the source text is not ASCII".to_owned() },
        );
    }
    let n = i.unicode_len();
    let mut instrs: Vec<AssemblerInstruction> = Vec::new();
    let mut pos: usize = 0;
    let ghost whole = spec_parse_instrs(i@, 0);
    loop
        invariant
            pos <= n,
            n == i@.len(),
            i.is_ascii(),
            whole == spec_parse_instrs(i@, 0),
            whole.0 == instrs.deep_view() + spec_parse_instrs(i@, pos as int).0,
            whole.1 == spec_parse_instrs(i@, pos as int).1,
        ensures
            pos <= n,
            whole.0 == instrs.deep_view(),
            whole.1 == pos,
        decreases n - pos,
    {
        match parse_instruction_at(i, pos) {
            Some((instr, p)) => {
                proof {
                    let rest = spec_parse_instrs(i@, p as int);
                    assert(spec_parse_instrs(i@, pos as int) == (
                        seq![instr@] + rest.0,
                        rest.1,
                    ));
                    assert(instrs.deep_view() + (seq![instr@] + rest.0) =~= instrs.deep_view().push(
                        instr@,
                    ) + rest.0);
                }
                let ghost pre = instrs.deep_view();
                instrs.push(instr);
                proof {
                    assert(instrs.deep_view() =~= pre.push(instr@));
                }
                pos = p;
            },
            None => {
                proof {
                    assert(spec_parse_instrs(i@, pos as int) == (
                        Seq::<SpecInstruction>::empty(),
                        pos as int,
                    ));
                    assert(instrs.deep_view() + Seq::<SpecInstruction>::empty()
                        =~= instrs.deep_view());
                }
                break ;
            },
        }
    }
    if instrs.len() == 0 {
        proof {
            assert(instrs.deep_view().len() == 0);
        }
        return Err(
            AssemblerError::ParseError { error: "expected at least one instruction".to_owned() },
        );
    }
    if pos != n {
        return Err(AssemblerError::UnterminatedProgram);
    }
    let prog = Program { instructions: instrs };
    Ok(prog)
}

} // verus!

verus! {

/// The integer a line of user input denotes: an optional sign, then
/// digits covering the whole line, within `i32` range.
pub open spec fn spec_parse_i32(s: Seq<char>) -> Option<i32> {
    if !vstd::utf8::is_ascii_chars(s) {
        None
    } else {
        let neg = s.len() > 0 && s[0] == '-';
        let signed = s.len() > 0 && (s[0] == '-' || s[0] == '+');
        let start: int = if signed {
            1
        } else {
            0
        };
        let e = spec_scan_digits(s, start);
        if e != s.len() || e == start {
            None
        } else {
            let v = digits_val(s.subrange(start, e));
            if neg {
                if v <= 0x80000000 {
                    Some((-v) as i32)
                } else {
                    None
                }
            } else {
                if v <= 0x7fffffff {
                    Some(v as i32)
                } else {
                    None
                }
            }
        }
    }
}

/// Parses a line of user input as an `i32`: an optional `+` or `-` sign
/// followed by digits, nothing else.
pub fn parse_i32(i: &str) -> (r: Option<i32>)
    ensures
        r == spec_parse_i32(i@),
{
    if !i.is_ascii() {
        return None;
    }
    let n = i.unicode_len();
    let neg = n > 0 && byte_at(i, 0) == 45;
    let signed = n > 0 && (byte_at(i, 0) == 45 || byte_at(i, 0) == 43);
    let start: usize = if signed {
        1
    } else {
        0
    };
    let e = scan_digits(i, start);
    if e != n || e == start {
        return None;
    }
    if neg {
        match digits_value(i, start, e, 0x80000000) {
            Some(v) => Some((-(v as i64)) as i32),
            None => None,
        }
    } else {
        match digits_value(i, start, e, 0x7fffffff) {
            Some(v) => Some(v as i32),
            None => None,
        }
    }
}

} // verus!

verus! {

impl From<String> for Opcode {
    fn from(v: String) -> (r: Self) {
        if str_eq(v.as_str(), "load") {
            Opcode::LOAD
        } else if str_eq(v.as_str(), "add") {
            Opcode::ADD
        } else if str_eq(v.as_str(), "sub") {
            Opcode::SUB
        } else if str_eq(v.as_str(), "mul") {
            Opcode::MUL
        } else if str_eq(v.as_str(), "div") {
            Opcode::DIV
        } else if str_eq(v.as_str(), "hlt") {
            Opcode::HLT
        } else if str_eq(v.as_str(), "jmp") {
            Opcode::JMP
        } else if str_eq(v.as_str(), "jmpf") {
            Opcode::JMPF
        } else if str_eq(v.as_str(), "jmpb") {
            Opcode::JMPB
        } else if str_eq(v.as_str(), "eq") {
            Opcode::EQ
        } else if str_eq(v.as_str(), "neq") {
            Opcode::NEQ
        } else if str_eq(v.as_str(), "gtq") {
            Opcode::GTQ
        } else if str_eq(v.as_str(), "gt") {
            Opcode::GT
        } else if str_eq(v.as_str(), "ltq") {
            Opcode::LTQ
        } else if str_eq(v.as_str(), "lt") {
            Opcode::LT
        } else if str_eq(v.as_str(), "jeq") {
            Opcode::JEQ
        } else if str_eq(v.as_str(), "aloc") {
            Opcode::ALOC
        } else if str_eq(v.as_str(), "prts") {
            Opcode::PRTS
        } else if str_eq(v.as_str(), "slp") {
            Opcode::SLP
        } else if str_eq(v.as_str(), "slps") {
            Opcode::SLPS
        } else if str_eq(v.as_str(), "aski") {
            Opcode::ASKI
        } else if str_eq(v.as_str(), "asks") {
            Opcode::ASKS
        } else if str_eq(v.as_str(), "grps") {
            Opcode::GRPS
        } else {
            Opcode::IGL
        }
    }
}

impl vstd::std_specs::convert::FromSpecImpl<String> for Opcode {
    open spec fn obeys_from_spec() -> bool {
        true
    }

    open spec fn from_spec(v: String) -> Opcode {
        opcode_of_name(v@)
    }
}

} // verus!
