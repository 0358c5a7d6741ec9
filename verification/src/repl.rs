//! What the interactive shell keeps of its own logic: its mode, the
//! command hints it offers, and the hexadecimal byte parser.

use crate::host::bright_black_string;
use crate::strutil::byte_at;
use vstd::prelude::*;
use vstd::string::StrSliceExecFns;

verus! {

/// How the shell interprets a line that is not a command.
#[derive(Debug, Clone, Copy, PartialEq, Eq, Structural)]
pub enum REPLMode {
    Hexadecimal,
    Assembly,
}

/// One command hint: the text shown, a coloured copy for display, and
/// how much of it completion may insert.
#[derive(Debug, Clone, PartialEq, Eq, Hash)]
pub struct CommandHint {
    display: String,
    display_color: String,
    complete_up_to: usize,
}

impl CommandHint {
    pub closed spec fn spec_display(&self) -> Seq<char> {
        self.display@
    }

    pub closed spec fn spec_complete_up_to(&self) -> usize {
        self.complete_up_to
    }

    pub closed spec fn spec_ascii(&self) -> bool {
        vstd::utf8::is_ascii_chars(self.display@)
    }

    /// A hint whose completion inserts the prefix `complete_up_to` of
    /// `text`.
    pub fn new(text: &str, complete_up_to: &str) -> (r: CommandHint)
        requires
            text.is_ascii(),
            complete_up_to.is_ascii(),
            complete_up_to@.len() <= text@.len(),
        ensures
            r.spec_display() == text@,
            r.spec_complete_up_to() == complete_up_to@.len(),
            r.spec_ascii(),
    {
        let cu = complete_up_to.unicode_len();
        CommandHint {
            display: text.to_owned(),
            display_color: bright_black_string(text),
            complete_up_to: cu,
        }
    }

    /// The hint's display text.
    pub fn display_string(&self) -> (r: String)
        ensures
            r@ == self.spec_display(),
    {
        self.display.clone()
    }

    /// How much of the hint completion may insert.
    pub fn complete_len(&self) -> (r: usize)
        ensures
            r == self.spec_complete_up_to(),
    {
        self.complete_up_to
    }

    /// The same hint with its first `strip_chars` characters removed.
    pub fn suffix(&self, strip_chars: usize) -> (r: CommandHint)
        requires
            self.spec_ascii(),
            strip_chars <= self.spec_display().len(),
        ensures
            r.spec_display() == self.spec_display().subrange(
                strip_chars as int,
                self.spec_display().len() as int,
            ),
            r.spec_complete_up_to() == if strip_chars <= self.spec_complete_up_to() {
                (self.spec_complete_up_to() - strip_chars) as int
            } else {
                0int
            },
    {
        let n = self.display.as_str().unicode_len();
        let rest = self.display.as_str().substring_ascii(strip_chars, n);
        let cut = if strip_chars <= self.complete_up_to 	{
            self.complete_up_to - strip_chars
        } else {
            0
        };
        CommandHint {
            display: rest.to_owned(),
            display_color: bright_black_string(rest),
            complete_up_to: cut,
        }
    }
}

/// The hints the shell offers for its commands.
pub fn rk_hints() -> (r: Vec<CommandHint>)
    ensures
        r@.len() == 8,
        r@[0].spec_display() == "!quit"@,
        r@[1].spec_display() == "!program"@,
        r@[2].spec_display() == "!clear_program"@,
        r@[3].spec_display() == "!clear_registers"@,
        r@[4].spec_display() == "!registers"@,
        r@[5].spec_display() == "!symbols"@,
        r@[6].spec_display() == "!load_file path/to/file.rk"@,
        r@[7].spec_display() == "!spawn path/to/file.rk"@,
{
    proof {
        reveal_strlit("!quit");
        reveal_strlit("!program");
        reveal_strlit("!clear_program");
        reveal_strlit("!clear_registers");
        reveal_strlit("!registers");
        reveal_strlit("!symbols");
        reveal_strlit("!load_file path/to/file.rk");
        reveal_strlit("!load_file ");
        reveal_strlit("!spawn path/to/file.rk");
        reveal_strlit("!spawn ");
        assert("!quit".is_ascii());
        assert("!program".is_ascii());
        assert("!clear_program".is_ascii());
        assert("!clear_registers".is_ascii());
        assert("!registers".is_ascii());
        assert("!symbols".is_ascii());
        assert("!load_file path/to/file.rk".is_ascii());
        assert("!spawn path/to/file.rk".is_ascii());
    }
    let mut hints: Vec<CommandHint> = Vec::new();
    hints.push(CommandHint::new("!quit", "!quit"));
    hints.push(CommandHint::new("!program", "!program"));
    hints.push(CommandHint::new("!clear_program", "!clear_program"));
    hints.push(CommandHint::new("!clear_registers", "!clear_registers"));
    hints.push(CommandHint::new("!registers", "!registers"));
    hints.push(CommandHint::new("!symbols", "!symbols"));
    hints.push(CommandHint::new("!load_file path/to/file.rk", "!load_file "));
    hints.push(CommandHint::new("!spawn path/to/file.rk", "!spawn "));
    hints
}

/// A hexadecimal digit's value, or a sentinel for any other character.
pub open spec fn spec_hex_val(c: char) -> int {
    if '0' <= c && c <= '9' {
        c as int - 48
    } else if 'a' <= c && c <= 'f' {
        c as int - 87
    } else if 'A' <= c && c <= 'F' {
        c as int - 55
    } else {
        -1
    }
}

/// The first position at or after `pos` holding a space, or the end.
pub open spec fn spec_scan_nonspace(s: Seq<char>, pos: int) -> int
    decreases s.len() - pos,
{
    if 0 <= pos < s.len() && s[pos] != ' ' {
        spec_scan_nonspace(s, pos + 1)
    } else {
        pos
    }
}

/// The byte one space-separated token denotes: one or two hexadecimal
/// digits.
pub open spec fn spec_hex_token(s: Seq<char>, pos: int, e: int) -> Option<u8> {
    if e == pos + 1 {
        let v = spec_hex_val(s[pos]);
        if v >= 0 {
            Some(v as u8)
        } else {
            None
        }
    } else if e == pos + 2 {
        let hi = spec_hex_val(s[pos]);
        let lo = spec_hex_val(s[pos + 1]);
        if hi >= 0 && lo >= 0 {
            Some((hi * 16 + lo) as u8)
        } else {
            None
        }
    } else {
        None
    }
}

/// The bytes a line of space-separated hexadecimal tokens denotes, from
/// position `pos` on.
pub open spec fn spec_parse_hex_from(s: Seq<char>, pos: int) -> Option<Seq<u8>>
    decreases s.len() - pos,
{
    let e = spec_scan_nonspace(s, pos);
    match spec_hex_token(s, pos, e) {
        None => None,
        Some(v) => {
            if e >= s.len() {
                Some(seq![v])
            } else if pos <= e {
                match spec_parse_hex_from(s, e + 1) {
                    Some(rest) => Some(seq![v] + rest),
                    None => None,
                }
            } else {
                None
            }
        },
    }
}

/// The bytes a whole line of hexadecimal tokens denotes, if it is ASCII
/// and every token is one or two hexadecimal digits.
pub open spec fn spec_parse_hex(s: Seq<char>) -> Option<Seq<u8>> {
    if vstd::utf8::is_ascii_chars(s) {
        spec_parse_hex_from(s, 0)
    } else {
        None
    }
}

proof fn lemma_scan_nonspace_bounds(s: Seq<char>, pos: int)
    requires
        0 <= pos <= s.len(),
    ensures
        pos <= spec_scan_nonspace(s, pos) <= s.len(),
    decreases s.len() - pos,
{
    if pos < s.len() && s[pos] != ' ' {
        lemma_scan_nonspace_bounds(s, pos + 1);
    }
}

fn scan_nonspace(s: &str, pos: usize) -> (r: usize)
    requires
        s.is_ascii(),
        pos <= s@.len(),
    ensures
        r == spec_scan_nonspace(s@, pos as int),
        pos <= r <= s@.len(),
{
    let n = s.unicode_len();
    let mut i = pos;
    while i < n && byte_at(s, i) != 32
        invariant
            pos <= i <= n,
            n == s@.len(),
            s.is_ascii(),
            spec_scan_nonspace(s@, pos as int) == spec_scan_nonspace(s@, i as int),
        decreases n - i,
    {
        proof {
            assert(s@[i as int] != ' ');
        }
        i += 1;
    }
    proof {
        if i < n {
            assert(s@[i as int] == ' ');
        }
    }
    i
}

fn hex_digit(s: &str, i: usize) -> (r: i8)
    requires
        s.is_ascii(),
        i < s@.len(),
    ensures
        r as int == spec_hex_val(s@[i as int]),
{
    let b = byte_at(s, i);
    if 48 <= b && b <= 57 {
        (b - 48) as i8
    } else if 97 <= b && b <= 102 {
        (b - 87) as i8
    } else if 65 <= b && b <= 70 {
        (b - 55) as i8
    } else {
        -1
    }
}

/// Parses a line of space-separated hexadecimal byte tokens, as the
/// shell's hexadecimal mode reads them.
pub fn parse_hex(i: &str) -> (r: Option<Vec<u8>>)
    ensures
        match spec_parse_hex(i@) {
            Some(b) => r matches Some(v) && v@ == b,
            None => r is None,
        },
{
    if !i.is_ascii() {
        return None;
    }
    let n = i.unicode_len();
    let mut results: Vec<u8> = Vec::new();
    let mut pos: usize = 0;
    loop
        invariant
            pos <= n,
            n == i@.len(),
            i.is_ascii(),
            match spec_parse_hex_from(i@, 0) {
                Some(b) => spec_parse_hex_from(i@, pos as int) matches Some(rest) && b == results@
                    + rest,
                None => spec_parse_hex_from(i@, pos as int) is None,
            },
        decreases n - pos,
    {
        let e = scan_nonspace(i, pos);
        let v: u8 = if e - pos == 1 {
            let d = hex_digit(i, pos);
            if d < 0 {
                return None;
            }
            d as u8
        } else if e - pos == 2 {
            let hi = hex_digit(i, pos);
            let lo = hex_digit(i, pos + 1);
            if hi < 0 || lo < 0 {
                return None;
            }
            (hi as u8) * 16 + (lo as u8)
        } else {
            return None;
        };
        let ghost pre = results@;
        results.push(v);
        if e >= n {
            proof {
                assert(spec_parse_hex_from(i@, pos as int) matches Some(b) && b == seq![v]);
                assert(results@ =~= pre.push(v));
                match spec_parse_hex_from(i@, 0) {
                    Some(b) => {
                        assert(b =~= results@);
                    },
                    None => {},
                }
            }
            return Some(results);
        }
        proof {
            assert(results@ =~= pre.push(v));
            let rest0 = spec_parse_hex_from(i@, pos as int);
            let rest1 = spec_parse_hex_from(i@, e as int + 1);
            match rest1 {
                Some(rr) => {
                    assert(pre + (seq![v] + rr) =~= results@ + rr);
                },
                None => {},
            }
        }
        pos = e + 1;
    }
}

} // verus!
