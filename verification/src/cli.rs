//! What the program is asked to do on its command line.
use vstd::prelude::*;
use crate::text::{chars_of, same_text, trim, trim_text};

verus! {

/// The port a server listens on when none is given.
pub const DEFAULT_PORT: u32 = 1337;

/// Whether a character is an ASCII decimal digit.
pub open spec fn is_digit(c: char) -> bool {
    '0' <= c <= '9'
}

/// The number written by a string of decimal digits.
pub open spec fn decimal(s: Seq<char>) -> nat
    decreases s.len(),
{
    if s.len() == 0 {
        0
    } else {
        decimal(s.drop_last()) * 10 + ((s.last() as u32) - ('0' as u32)) as nat
    }
}

/// The digits of a number, without the `+` it may start with.
pub open spec fn unsigned_body(s: Seq<char>) -> Seq<char> {
    if s.len() > 0 && s[0] == '+' {
        s.drop_first()
    } else {
        s
    }
}

/// How `str::parse::<u32>` reads a string: an optional `+`, then one or more ASCII digits
/// whose value fits in a `u32`; anything else is an error (`None`).
pub open spec fn parse_u32(s: Seq<char>) -> Option<u32> {
    let body = unsigned_body(s);
    if body.len() == 0 || exists|i: int| 0 <= i < body.len() && !is_digit(#[trigger] body[i]) {
        None
    } else if decimal(body) > u32::MAX {
        None
    } else {
        Some(decimal(body) as u32)
    }
}

proof fn lemma_decimal_step(s: Seq<char>, i: int)
    requires
        0 <= i < s.len(),
    ensures
        decimal(s.take(i + 1)) == decimal(s.take(i)) * 10 + ((s[i] as u32) - ('0' as u32)) as nat,
{
    assert(s.take(i + 1).drop_last() =~= s.take(i));
}

/// Reads a decimal number as `str::parse::<u32>` does.
pub fn parse_port(s: &str) -> (r: Option<u32>)
    ensures
        r == parse_u32(s@),
{
    let v = chars_of(s);
    let start: usize = if v.len() > 0 && v[0] == '+' {
        1
    } else {
        0
    };
    let ghost body = unsigned_body(s@);
    assert(body =~= v@.skip(start as int));
    if start == v.len() {
        return None;
    }
    let mut value: u64 = 0;
    let mut overflow = false;
    let mut i = start;
    assert(body.take(0) =~= Seq::<char>::empty());
    while i < v.len()
        invariant
            start <= i <= v.len(),
            body == v@.skip(start as int),
            body == unsigned_body(s@),
            body.len() > 0,
            forall|k: int| 0 <= k < i - start ==> is_digit(#[trigger] body[k]),
            !overflow ==> value == decimal(body.take(i - start)) && value <= u32::MAX,
            overflow ==> decimal(body.take(i - start)) > u32::MAX,
        decreases v.len() - i,
    {
        let c = v[i];
        assert(body[i - start] == c);
        if !('0' <= c && c <= '9') {
            assert(!is_digit(body[i - start]));
            return None;
        }
        proof {
            lemma_decimal_step(body, i - start);
        }
        if !overflow {
            let d = (c as u32 - '0' as u32) as u64;
            value = value * 10 + d;
            if value > u32::MAX as u64 {
                overflow = true;
            }
        }
        i += 1;
    }
    assert(body.take(body.len() as int) =~= body);
    if overflow {
        None
    } else {
        Some(value as u32)
    }
}

/// What the program was asked to do.
pub enum Command {
    /// Run a server on the given port.
    Serve(u32),
    /// Write a word list with definitions for the words of the given file.
    Generate(String),
    /// `generate` without a file: the program says so and stops.
    MissingPath,
    /// Play.
    Client,
    /// An unknown command: the program stops.
    Nothing,
}

/// The port given on a command line: the argument trimmed and read as a number, or the
/// default port when it is missing or not a number.
pub open spec fn port_of(arg: Option<Seq<char>>) -> u32 {
    match arg {
        Some(a) => match parse_u32(trim(a)) {
            Some(p) => p,
            None => DEFAULT_PORT,
        },
        None => DEFAULT_PORT,
    }
}

/// Reads the program's arguments, the first being the program itself: no argument plays,
/// `serve [port]` serves, `generate <file>` writes a word list.
pub fn parse_command(args: &Vec<String>) -> (c: Command)
    ensures
        args@.len() < 2 ==> c is Client,
        args@.len() >= 2 && args@[1]@ == "serve"@ ==> c == Command::Serve(
            port_of(if args@.len() > 2 { Some(args@[2]@) } else { None }),
        ),
        args@.len() >= 2 && args@[1]@ == "generate"@ ==> (if args@.len() > 2 {
            c matches Command::Generate(p) && p@ == args@[2]@
        } else {
            c is MissingPath
        }),
        args@.len() >= 2 && args@[1]@ != "serve"@ && args@[1]@ != "generate"@ ==> c is Nothing,
{
    if args.len() < 2 {
        return Command::Client;
    }
    proof {
        reveal_strlit("serve");
        reveal_strlit("generate");
        assert("serve"@[0] == 's' && "generate"@[0] == 'g');
    }
    if same_text(args[1].as_str(), "serve") {
        let port = if args.len() > 2 {
            let t = trim_text(args[2].as_str());
            match parse_port(t.as_str()) {
                Some(p) => p,
                None => DEFAULT_PORT,
            }
        } else {
            DEFAULT_PORT
        };
        Command::Serve(port)
    } else if same_text(args[1].as_str(), "generate") {
        if args.len() > 2 {
            Command::Generate(args[2].clone())
        } else {
            Command::MissingPath
        }
    } else {
        Command::Nothing
    }
}

/// The port the server program listens on: its first argument read as a number (not
/// trimmed), or the default port when it is missing or not a number.
pub fn server_port(args: &Vec<String>) -> (p: u32)
    ensures
        p == (if args@.len() > 1 {
            match parse_u32(args@[1]@) {
                Some(p) => p,
                None => DEFAULT_PORT,
            }
        } else {
            DEFAULT_PORT
        }),
{
    if args.len() > 1 {
        match parse_port(args[1].as_str()) {
            Some(p) => p,
            None => DEFAULT_PORT,
        }
    } else {
        DEFAULT_PORT
    }
}

} // verus!
