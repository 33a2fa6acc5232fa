//! The protocol dump: the walk over a message signature, and the text
//! of one logged message, `client 0x… (PID n) rq|ev class@id.name(args)`.

use vstd::prelude::*;
use crate::numeric::{decimal, digit_char, format_i64};
use crate::text::{concat2, concat3, owned, string_push};

verus! {

/// The wire argument types of a `wl_message` signature.
pub open spec fn is_arg_type(c: u8) -> bool {
    c == 0x69 || c == 0x75 || c == 0x66 || c == 0x73 || c == 0x6f || c == 0x6e || c == 0x61 || c == 0x68
}

/// Walking a message signature: from index `i`, the next argument type and the
/// index after it, skipping version digits and `?` markers; at the end,
/// no type and the index where the walk stopped.
pub open spec fn next_argument_spec(sig: Seq<u8>, i: int) -> (Option<u8>, int)
    decreases sig.len() - i,
{
    if i >= sig.len() {
        (None, i)
    } else if is_arg_type(sig[i]) {
        (Some(sig[i]), i + 1)
    } else {
        next_argument_spec(sig, i + 1)
    }
}

pub fn next_argument(signature: &[u8], from: usize) -> (r: (Option<u8>, usize))
    ensures
        r.0 == next_argument_spec(signature@, from as int).0,
        r.1 == next_argument_spec(signature@, from as int).1,
{
    let mut i = from;
    while i < signature.len()
        invariant
            from <= i,
            i <= signature@.len() || i == from,
            next_argument_spec(signature@, from as int) == next_argument_spec(signature@, i as int),
        decreases signature@.len() - i,
    {
        let c = signature[i];
        if c == 0x69 || c == 0x75 || c == 0x66 || c == 0x73 || c == 0x6f || c == 0x6e || c == 0x61
            || c == 0x68 {
            return (Some(c), i + 1);
        }
        i += 1;
    }
    (None, i)
}


/// One decoded message argument.
#[derive(Debug, Clone, PartialEq, Eq)]
pub enum ArgValue {
    Uint(u32),
    Int(i32),
    /// 24.8 fixed point.
    Fixed(i32),
    /// A string argument; `None` for a null one.
    Str(Option<String>),
    /// An object: its class (`None` when unknown) and id; `None` for a
    /// null object.
    Object(Option<(Option<String>, u32)>),
    /// A new object: its interface name when known, and its id.
    NewId(Option<String>, u32),
    Array,
    Fd(i32),
    /// An argument the signature gives no type for.
    Untyped,
}

/// `n` as `w` decimal digits, zero-padded (and cut to the last `w`).
pub open spec fn padded(n: nat, w: nat) -> Seq<char>
    decreases w,
{
    if w == 0 {
        Seq::empty()
    } else {
        padded(n / 10, (w - 1) as nat).push(digit_char(n % 10))
    }
}

/// The millionths of a 24.8 fixed value, rounded half to even.
pub open spec fn fixed_millionths(a: nat) -> nat {
    let q = a * 15625 / 4;
    let r = a * 15625 % 4;
    if r > 2 || (r == 2 && q % 2 == 1) {
        q + 1
    } else {
        q
    }
}

/// A fixed-point value with six decimals, as `%f` prints it.
pub open spec fn fixed6(f: i32) -> Seq<char> {
    let a: nat = if f < 0 {
        (-f) as nat
    } else {
        f as nat
    };
    let m = fixed_millionths(a);
    (if f < 0 {
        seq!['-']
    } else {
        Seq::empty()
    }) + decimal((m / 1000000) as int) + seq!['.'] + padded(m % 1000000, 6)
}

pub open spec fn or_unknown(o: Option<String>) -> Seq<char> {
    match o {
        Some(s) => s@,
        None => "[unknown]"@,
    }
}

/// The protocol logger's text for one argument.
pub open spec fn arg_text(a: ArgValue) -> Seq<char> {
    match a {
        ArgValue::Uint(u) => decimal(u as int),
        ArgValue::Int(i) => decimal(i as int),
        ArgValue::Fixed(f) => fixed6(f),
        ArgValue::Str(s) => "\""@ + match s {
            Some(t) => t@,
            None => Seq::empty(),
        } + "\""@,
        ArgValue::Object(None) => "nil"@,
        ArgValue::Object(Some((class, id))) => or_unknown(class) + "@"@ + decimal(id as int),
        ArgValue::NewId(iface, id) => "new id "@ + or_unknown(iface) + "@"@ + if id != 0 {
            decimal(id as int)
        } else {
            "nil"@
        },
        ArgValue::Array => "array"@,
        ArgValue::Fd(h) => "fd "@ + decimal(h as int),
        ArgValue::Untyped => Seq::empty(),
    }
}

/// The lowercase hexadecimal digits of `n`.
pub open spec fn hex_digit(d: nat) -> char {
    if d < 10 {
        digit_char(d)
    } else if d == 10 {
        'a'
    } else if d == 11 {
        'b'
    } else if d == 12 {
        'c'
    } else if d == 13 {
        'd'
    } else if d == 14 {
        'e'
    } else {
        'f'
    }
}

pub open spec fn hex_digits(n: nat) -> Seq<char>
    decreases n,
{
    if n < 16 {
        seq![hex_digit(n)]
    } else {
        hex_digits(n / 16).push(hex_digit(n % 16))
    }
}

/// The arguments' texts joined with ", ".
pub open spec fn joined_args(args: Seq<ArgValue>) -> Seq<char>
    decreases args.len(),
{
    if args.len() == 0 {
        Seq::empty()
    } else if args.len() == 1 {
        arg_text(args[0])
    } else {
        joined_args(args.drop_last()) + ", "@ + arg_text(args.last())
    }
}

/// One logged message: the client's address and pid, `rq` for a
/// request or `ev` for an event, the resource's class and id, the
/// message name, and the arguments.
pub open spec fn message_line(
    client: usize,
    pid: i32,
    request: bool,
    class: Seq<char>,
    id: u32,
    name: Seq<char>,
    args: Seq<ArgValue>,
) -> Seq<char> {
    "client 0x"@ + hex_digits(client as nat) + " (PID "@ + decimal(pid as int) + ") "@ + (if request {
        "rq"@
    } else {
        "ev"@
    }) + " "@ + class + "@"@ + decimal(id as int) + "."@ + name + "("@ + joined_args(args) + ")"@
}

fn digit_exec(d: u64) -> (c: char)
    requires
        d < 10,
    ensures
        c == digit_char(d as nat),
{
    if d == 0 {
        '0'
    } else if d == 1 {
        '1'
    } else if d == 2 {
        '2'
    } else if d == 3 {
        '3'
    } else if d == 4 {
        '4'
    } else if d == 5 {
        '5'
    } else if d == 6 {
        '6'
    } else if d == 7 {
        '7'
    } else if d == 8 {
        '8'
    } else {
        '9'
    }
}

fn hex_digit_exec(d: u64) -> (c: char)
    requires
        d < 16,
    ensures
        c == hex_digit(d as nat),
{
    if d < 10 {
        digit_exec(d)
    } else if d == 10 {
        'a'
    } else if d == 11 {
        'b'
    } else if d == 12 {
        'c'
    } else if d == 13 {
        'd'
    } else if d == 14 {
        'e'
    } else {
        'f'
    }
}

fn push_hex(out: &mut String, n: u64)
    ensures
        final(out)@ == old(out)@ + hex_digits(n as nat),
    decreases n,
{
    if n >= 16 {
        push_hex(out, n / 16);
    }
    string_push(out, hex_digit_exec(n % 16));
    proof {
        if n >= 16 {
            assert(old(out)@ + hex_digits(n as nat) =~= old(out)@ + hex_digits((n / 16) as nat) + seq![
                hex_digit((n % 16) as nat),
            ]);
        } else {
            assert(old(out)@ + hex_digits(n as nat) =~= old(out)@ + seq![hex_digit((n % 16) as nat)]);
        }
    }
}

fn push_padded(out: &mut String, n: u64, w: u64)
    ensures
        final(out)@ == old(out)@ + padded(n as nat, w as nat),
    decreases w,
{
    if w > 0 {
        push_padded(out, n / 10, w - 1);
        string_push(out, digit_exec(n % 10));
        assert(old(out)@ + padded(n as nat, w as nat) =~= old(out)@ + padded((n / 10) as nat, (w - 1) as nat)
            + seq![digit_char((n % 10) as nat)]);
    } else {
        assert(old(out)@ + padded(n as nat, w as nat) =~= old(out)@);
    }
}

/// `f / 256` with six decimals.
pub fn format_fixed(f: i32) -> (r: String)
    ensures
        r@ == fixed6(f),
{
    let a: u64 = if f < 0 {
        (-(f as i64)) as u64
    } else {
        f as u64
    };
    assert(a <= 0x8000_0000);
    let prod: u64 = a * 15625;
    let q = prod / 4;
    let r = prod % 4;
    let m: u64 = if r > 2 || (r == 2 && q % 2 == 1) {
        q + 1
    } else {
        q
    };
    let ghost am: nat = a as nat;
    assert(m == fixed_millionths(am));
    let mut out = String::new();
    if f < 0 {
        string_push(&mut out, '-');
    }
    let ip = format_i64((m / 1000000) as i64);
    let mut out2 = concat2(out.as_str(), ip.as_str());
    string_push(&mut out2, '.');
    push_padded(&mut out2, m % 1000000, 6);
    assert(out2@ =~= fixed6(f));
    out2
}

/// The text of one argument.
pub fn format_arg(a: &ArgValue) -> (r: String)
    ensures
        r@ == arg_text(*a),
{
    proof {
        reveal_strlit("nil");
        reveal_strlit("array");
    }
    match a {
        ArgValue::Uint(u) => format_i64(*u as i64),
        ArgValue::Int(i) => format_i64(*i as i64),
        ArgValue::Fixed(f) => format_fixed(*f),
        ArgValue::Str(s) => match s {
            Some(t) => concat3("\"", t.as_str(), "\""),
            None => concat2("\"", "\""),
        },
        ArgValue::Object(o) => match o {
            None => owned("nil"),
            Some((class, id)) => {
                let c = match class {
                    Some(c) => c.clone(),
                    None => owned("[unknown]"),
                };
                let d = format_i64(*id as i64);
                concat3(c.as_str(), "@", d.as_str())
            },
        },
        ArgValue::NewId(iface, id) => {
            let c = match iface {
                Some(c) => c.clone(),
                None => owned("[unknown]"),
            };
            let tail = if *id != 0 {
                format_i64(*id as i64)
            } else {
                owned("nil")
            };
            let a1 = concat2("new id ", c.as_str());
            concat3(a1.as_str(), "@", tail.as_str())
        },
        ArgValue::Array => owned("array"),
        ArgValue::Fd(h) => {
            let d = format_i64(*h as i64);
            concat2("fd ", d.as_str())
        },
        ArgValue::Untyped => String::new(),
    }
}

/// The protocol logger's line for one message.
pub fn format_message(
    client: usize,
    pid: i32,
    request: bool,
    class: &str,
    id: u32,
    name: &str,
    args: &Vec<ArgValue>,
) -> (r: String)
    ensures
        r@ == message_line(client, pid, request, class@, id, name@, args@),
{
    let mut out = owned("client 0x");
    push_hex(&mut out, client as u64);
    let p = format_i64(pid as i64);
    let a = concat3(out.as_str(), " (PID ", p.as_str());
    let dir = if request {
        "rq"
    } else {
        "ev"
    };
    let b = concat3(a.as_str(), ") ", dir);
    let c = concat3(b.as_str(), " ", class);
    let d = format_i64(id as i64);
    let e = concat3(c.as_str(), "@", d.as_str());
    let f = concat3(e.as_str(), ".", name);
    let mut line = concat2(f.as_str(), "(");
    let ghost head = line@;
    let mut i: usize = 0;
    while i < args.len()
        invariant
            i <= args@.len(),
            line@ == head + joined_args(args@.take(i as int)),
        decreases args@.len() - i,
    {
        let t = format_arg(&args[i]);
        let ghost before = args@.take(i as int);
        assert(args@.take(i + 1).drop_last() =~= before);
        if i > 0 {
            line = concat3(line.as_str(), ", ", t.as_str());
        } else {
            line = concat2(line.as_str(), t.as_str());
            assert(joined_args(before) =~= Seq::<char>::empty());
        }
        i += 1;
    }
    assert(args@.take(i as int) =~= args@);
    let r = concat2(line.as_str(), ")");
    assert(r@ =~= message_line(client, pid, request, class@, id, name@, args@));
    r
}

} // verus!
