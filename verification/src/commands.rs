//! Parsing of debugger prompt input: the command words, and breakpoint
//! addresses written in hexadecimal with an optional `0x` prefix.

use vstd::prelude::*;

use vstd::string::StringExecFns;
use vstd::string::StringSliceAdditionalSpecFns;

verus! {

/// A command typed at the debugger prompt.
#[derive(Debug, PartialEq, Eq)]
pub enum DebuggerCommand {
    Quit,
    Run(Vec<String>),
    Continue,
    BackTrace,
    Breakpoint(String),
}

/// Relies on str's PartialEq: two slices are equal exactly when they hold
/// the same characters.
#[verifier::external_body]
fn str_eq(a: &str, b: &str) -> (r: bool)
    ensures
        r == (a@ == b@),
{
    a == b
}

/// The views of the tokens from position `from` on.
pub open spec fn token_views(tokens: Seq<&str>, from: int) -> Seq<Seq<char>> {
    tokens.subrange(from, tokens.len() as int).map_values(|s: &str| s@)
}

/// A sequence of pieces joined into one, in order, with nothing between.
pub open spec fn concat_views(views: Seq<Seq<char>>) -> Seq<char>
    decreases views.len(),
{
    if views.len() == 0 {
        Seq::empty()
    } else {
        concat_views(views.drop_last()) + views.last()
    }
}

/// What `from_tokens` returns for each first token: the five command words
/// (each with its one-letter form) give their command, `run`'s arguments are
/// the remaining tokens in order, `break`'s argument is the remaining tokens
/// joined, and any other word is no command.
pub open spec fn from_tokens_post(tokens: Seq<&str>, r: Option<DebuggerCommand>) -> bool {
    let t0 = tokens[0]@;
    if t0 == "q"@ || t0 == "quit"@ {
        r == Some(DebuggerCommand::Quit)
    } else if t0 == "r"@ || t0 == "run"@ {
        &&& r matches Some(DebuggerCommand::Run(args))
        &&& r->0->Run_0.deep_view() == token_views(tokens, 1)
    } else if t0 == "c"@ || t0 == "cont"@ {
        r == Some(DebuggerCommand::Continue)
    } else if t0 == "bt"@ || t0 == "backtrace"@ {
        r == Some(DebuggerCommand::BackTrace)
    } else if t0 == "b"@ || t0 == "break"@ {
        &&& r matches Some(DebuggerCommand::Breakpoint(s))
        &&& r->0->Breakpoint_0@ == concat_views(token_views(tokens, 1))
    } else {
        r is None
    }
}

impl DebuggerCommand {
    /// Reads one prompt line, already split into whitespace-separated tokens.
    pub fn from_tokens(tokens: &Vec<&str>) -> (r: Option<DebuggerCommand>)
        requires
            tokens@.len() > 0,
        ensures
            from_tokens_post(tokens@, r),
    {
        let t0 = tokens[0];
        if str_eq(t0, "q") || str_eq(t0, "quit") {
            Some(DebuggerCommand::Quit)
        } else if str_eq(t0, "r") || str_eq(t0, "run") {
            let mut args: Vec<String> = Vec::new();
            let mut idx: usize = 1;
            while idx < tokens.len()
                invariant
                    1 <= idx <= tokens@.len(),
                    args@.len() == idx - 1,
                    forall|j: int| 0 <= j < idx - 1 ==> #[trigger] args@[j]@ == tokens@[j + 1]@,
                decreases tokens@.len() - idx,
            {
                args.push(String::from_str(tokens[idx]));
                idx += 1;
            }
            proof {
                assert(args.deep_view() =~= token_views(tokens@, 1));
            }
            Some(DebuggerCommand::Run(args))
        } else if str_eq(t0, "c") || str_eq(t0, "cont") {
            Some(DebuggerCommand::Continue)
        } else if str_eq(t0, "bt") || str_eq(t0, "backtrace") {
            Some(DebuggerCommand::BackTrace)
        } else if str_eq(t0, "b") || str_eq(t0, "break") {
            let ghost views = token_views(tokens@, 1);
            let mut joined = String::new();
            let mut idx: usize = 1;
            while idx < tokens.len()
                invariant
                    1 <= idx <= tokens@.len(),
                    views == token_views(tokens@, 1),
                    views.len() == tokens@.len() - 1,
                    forall|j: int| 0 <= j < views.len() ==> views[j] == #[trigger] tokens@[j + 1]@,
                    joined@ == concat_views(views.subrange(0, idx - 1)),
                decreases tokens@.len() - idx,
            {
                proof {
                    assert(views.subrange(0, idx as int).drop_last() =~= views.subrange(
                        0,
                        idx - 1,
                    ));
                    assert(views.subrange(0, idx as int).last() == tokens@[idx as int]@);
                }
                joined.append(tokens[idx]);
                idx += 1;
            }
            proof {
                assert(views.subrange(0, views.len() as int) =~= views);
            }
            Some(DebuggerCommand::Breakpoint(joined))
        } else {
            None
        }
    }
}

/// An ASCII hexadecimal digit.
pub open spec fn is_hex_digit(b: u8) -> bool {
    (48 <= b <= 57) || (97 <= b <= 102) || (65 <= b <= 70)
}

/// The value of one hexadecimal digit.
pub open spec fn hex_digit_value(b: u8) -> nat {
    if 48 <= b <= 57 {
        (b - 48) as nat
    } else if 97 <= b <= 102 {
        (b - 87) as nat
    } else if 65 <= b <= 70 {
        (b - 55) as nat
    } else {
        0
    }
}

/// The number the hexadecimal digits spell, most significant first.
pub open spec fn hex_value(s: Seq<u8>) -> nat
    decreases s.len(),
{
    if s.len() == 0 {
        0
    } else {
        hex_value(s.drop_last()) * 16 + hex_digit_value(s.last())
    }
}

/// The address text with its case-insensitive `0x` prefix removed.
pub open spec fn strip_hex_prefix(s: Seq<u8>) -> Seq<u8> {
    if s.len() >= 2 && s[0] == 48 && (s[1] == 120 || s[1] == 88) {
        s.subrange(2, s.len() as int)
    } else {
        s
    }
}

/// The digit text of an address: the prefix gone, then one optional plus
/// sign gone.
pub open spec fn hex_digits_of(s: Seq<u8>) -> Seq<u8> {
    let body = strip_hex_prefix(s);
    if body.len() > 0 && body[0] == 43 {
        body.drop_first()
    } else {
        body
    }
}

/// Whether an address text can be read: after the optional prefix and sign,
/// at least one digit, all hexadecimal, spelling a value that fits the
/// machine.
pub open spec fn valid_hex_address(s: Seq<u8>) -> bool {
    let digits = hex_digits_of(s);
    &&& digits.len() > 0
    &&& forall|i: int| 0 <= i < digits.len() ==> is_hex_digit(#[trigger] digits[i])
    &&& hex_value(digits) <= usize::MAX
}

/// A longer hexadecimal prefix never spells a smaller number.
proof fn lemma_hex_value_monotone(s: Seq<u8>, i: int, j: int)
    requires
        0 <= i <= j <= s.len(),
    ensures
        hex_value(s.subrange(0, i)) <= hex_value(s.subrange(0, j)),
    decreases j - i,
{
    if i < j {
        lemma_hex_value_monotone(s, i, j - 1);
        assert(s.subrange(0, j).drop_last() =~= s.subrange(0, j - 1));
        let prev = hex_value(s.subrange(0, j - 1));
        assert(hex_value(s.subrange(0, j)) >= prev * 16);
        assert(prev * 16 >= prev) by {
            assert(prev * 16 - prev == 15 * prev) by (nonlinear_arith);
        }
    }
}

/// Reads the digits of an address, most significant first; `None` when a
/// byte is not a hexadecimal digit or the value outgrows the machine.
fn parse_hex_digits(digits: &Vec<u8>) -> (r: Option<usize>)
    requires
        digits@.len() > 0,
    ensures
        ((forall|i: int| 0 <= i < digits@.len() ==> is_hex_digit(#[trigger] digits@[i]))
            && hex_value(digits@) <= usize::MAX) ==> r == Some(hex_value(digits@) as usize),
        !((forall|i: int| 0 <= i < digits@.len() ==> is_hex_digit(#[trigger] digits@[i]))
            && hex_value(digits@) <= usize::MAX) ==> r is None,
{
    let mut val: usize = 0;
    let mut idx: usize = 0;
    while idx < digits.len()
        invariant
            idx <= digits@.len(),
            forall|i: int| 0 <= i < idx ==> is_hex_digit(#[trigger] digits@[i]),
            val == hex_value(digits@.subrange(0, idx as int)),
        decreases digits@.len() - idx,
    {
        let ghost prefix = digits@.subrange(0, idx as int);
        let b = digits[idx];
        let d: usize;
        if b >= 48 && b <= 57 {
            d = (b - 48) as usize;
        } else if b >= 97 && b <= 102 {
            d = (b - 87) as usize;
        } else if b >= 65 && b <= 70 {
            d = (b - 55) as usize;
        } else {
            return None;
        }
        proof {
            assert(digits@.subrange(0, idx as int + 1).drop_last() =~= prefix);
            assert(digits@.subrange(0, idx as int + 1).last() == digits@[idx as int]);
        }
        if val > (usize::MAX - d) / 16 {
            proof {
                let next = digits@.subrange(0, idx as int + 1);
                assert(hex_value(next) == val * 16 + d);
                assert(val >= (usize::MAX - d) / 16 + 1);
                assert(val * 16 >= ((usize::MAX - d) / 16 + 1) * 16) by (nonlinear_arith)
                    requires
                        val >= (usize::MAX - d) / 16 + 1,
                ;
                assert(((usize::MAX - d) / 16 + 1) * 16 == ((usize::MAX - d) / 16) * 16 + 16);
                assert(((usize::MAX - d) / 16) * 16 + 16 > usize::MAX - d) by (nonlinear_arith);
                assert(hex_value(next) > usize::MAX);
                lemma_hex_value_monotone(digits@, idx as int + 1, digits@.len() as int);
                assert(digits@.subrange(0, digits@.len() as int) =~= digits@);
            }
            return None;
        }
        proof {
            assert(val <= (usize::MAX - d) / 16);
            assert(val * 16 <= ((usize::MAX - d) / 16) * 16) by (nonlinear_arith)
                requires
                    val <= (usize::MAX - d) / 16,
            ;
            assert(((usize::MAX - d) / 16) * 16 <= usize::MAX - d) by (nonlinear_arith);
        }
        val = val * 16 + d;
        idx += 1;
    }
    proof {
        assert(digits@.subrange(0, digits@.len() as int) =~= digits@);
    }
    Some(val)
}

/// Reads a breakpoint address: hexadecimal digits after an optional
/// case-insensitive `0x` prefix and an optional plus sign. `None` when no
/// digit follows, a byte is not a hexadecimal digit, or the value outgrows
/// the machine.
pub fn parse_address(addr: &str) -> (r: Option<usize>)
    ensures
        valid_hex_address(addr.spec_bytes()) ==> r == Some(
            hex_value(hex_digits_of(addr.spec_bytes())) as usize,
        ),
        !valid_hex_address(addr.spec_bytes()) ==> r is None,
{
    let bytes = vstd::slice::slice_to_vec(addr.as_bytes());
    let start: usize = if bytes.len() >= 2 && bytes[0] == 48 && (bytes[1] == 120 || bytes[1] == 88) {
        2
    } else {
        0
    };
    let mut digits: Vec<u8> = Vec::new();
    let mut idx: usize = start;
    if bytes.len() > start && bytes[start] == 43 {
        idx = start + 1;
    }
    let ghost from = idx as int;
    proof {
        assert(hex_digits_of(bytes@) =~= bytes@.subrange(from, bytes@.len() as int));
    }
    while idx < bytes.len()
        invariant
            0 <= from <= idx <= bytes@.len(),
            digits@ == bytes@.subrange(from, idx as int),
        decreases bytes@.len() - idx,
    {
        digits.push(bytes[idx]);
        proof {
            assert(digits@ =~= bytes@.subrange(from, idx as int + 1));
        }
        idx += 1;
    }
    proof {
        assert(digits@ =~= hex_digits_of(bytes@));
    }
    if digits.len() == 0 {
        return None;
    }
    parse_hex_digits(&digits)
}

} // verus!
