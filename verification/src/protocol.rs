//! The text command grammar.
//!
//! A command line is space-separated ASCII tokens.  The only recognized
//! command is `MOVE <theta> <rho>`: the keyword followed by two signed
//! base-10 decimals, parsed here into micro-units.  Fractional digits
//! beyond the sixth — below the crate's fixed-point resolution — are
//! ignored, and integer parts longer than twelve digits — beyond the
//! fixed-point range — make the number malformed.

use vstd::prelude::*;

verus! {

/// ASCII decimal digit.
pub open spec fn is_digit(b: u8) -> bool {
    48 <= b <= 57
}

/// Every byte is a decimal digit.
pub open spec fn all_digits(s: Seq<u8>) -> bool {
    forall|i: int| 0 <= i < s.len() ==> is_digit(#[trigger] s[i])
}

/// The number a digit string denotes, most significant digit first.
pub open spec fn digits_value(s: Seq<u8>) -> int
    decreases s.len(),
{
    if s.len() == 0 {
        0
    } else {
        digits_value(s.drop_last()) * 10 + (s.last() - 48)
    }
}

/// Ten to the `n`-th power.
pub open spec fn pow10(n: int) -> int
    decreases n,
{
    if n <= 0 {
        1
    } else {
        10 * pow10(n - 1)
    }
}

/// A digit string's value is nonnegative and below `10 ^ length`.
pub proof fn lemma_digits_value_bounds(s: Seq<u8>)
    requires
        all_digits(s),
    ensures
        0 <= digits_value(s) < pow10(s.len() as int),
    decreases s.len(),
{
    if s.len() > 0 {
        assert(all_digits(s.drop_last()));
        lemma_digits_value_bounds(s.drop_last());
        assert(pow10(s.len() as int) == 10 * pow10(s.len() - 1));
    }
}

/// Index of the first occurrence of `byte` at or after `i`; the
/// sequence's length when there is none.
pub open spec fn find_byte(s: Seq<u8>, byte: u8, i: int) -> int
    decreases s.len() - i,
{
    if i >= s.len() {
        i
    } else if s[i] == byte {
        i
    } else {
        find_byte(s, byte, i + 1)
    }
}

/// The search stays within `[i, len]`.
pub proof fn lemma_find_byte_range(s: Seq<u8>, byte: u8, i: int)
    requires
        0 <= i <= s.len(),
    ensures
        i <= find_byte(s, byte, i) <= s.len(),
    decreases s.len() - i,
{
    if i < s.len() && s[i] != byte {
        lemma_find_byte_range(s, byte, i + 1);
    }
}

/// The token with any leading sign removed.
pub open spec fn decimal_body(s: Seq<u8>) -> Seq<u8> {
    if s.len() >= 1 && (s[0] == 43 || s[0] == 45) {
        s.subrange(1, s.len() as int)
    } else {
        s
    }
}

/// The bytes before the first dot of a sign-free token.
pub open spec fn body_int_part(b: Seq<u8>) -> Seq<u8> {
    b.subrange(0, find_byte(b, 46, 0))
}

/// The bytes after the first dot of a sign-free token; empty when there
/// is no dot.
pub open spec fn body_frac_part(b: Seq<u8>) -> Seq<u8> {
    let dot = find_byte(b, 46, 0);
    if dot < b.len() {
        b.subrange(dot + 1, b.len() as int)
    } else {
        Seq::empty()
    }
}

/// Whether a sign-free token is a well-formed unsigned decimal.
pub open spec fn body_well_formed(b: Seq<u8>) -> bool {
    &&& all_digits(body_int_part(b))
    &&& all_digits(body_frac_part(b))
    &&& body_int_part(b).len() + body_frac_part(b).len() >= 1
    &&& body_int_part(b).len() <= 12
}

/// The value of a sign-free token in micro-units: the integer part
/// scaled by a million plus the first six fractional digits at their
/// place value.
pub open spec fn body_micros(b: Seq<u8>) -> int {
    let frac = body_frac_part(b);
    let frac6 = if frac.len() > 6 {
        frac.subrange(0, 6)
    } else {
        frac
    };
    digits_value(body_int_part(b)) * 1_000_000 + digits_value(frac6) * pow10(6 - frac6.len())
}

/// The digits before the first dot of the (sign-stripped) token.
pub open spec fn decimal_int_part(s: Seq<u8>) -> Seq<u8> {
    body_int_part(decimal_body(s))
}

/// The digits after the first dot of the (sign-stripped) token; empty
/// when there is no dot.
pub open spec fn decimal_frac_part(s: Seq<u8>) -> Seq<u8> {
    body_frac_part(decimal_body(s))
}

/// A well-formed decimal token: an optional sign, digits with at most
/// one dot among them, at least one digit in all, and an integer part
/// short enough for the fixed-point range.
pub open spec fn well_formed_decimal(s: Seq<u8>) -> bool {
    &&& all_digits(decimal_int_part(s))
    &&& all_digits(decimal_frac_part(s))
    &&& decimal_int_part(s).len() + decimal_frac_part(s).len() >= 1
    &&& decimal_int_part(s).len() <= 12
}

/// The token's value in micro-units: the integer part scaled by a
/// million, plus the first six fractional digits scaled to their place
/// value, negated under a leading minus sign.
pub open spec fn decimal_micros(s: Seq<u8>) -> int {
    let magnitude = body_micros(decimal_body(s));
    if s.len() >= 1 && s[0] == 45 {
        -magnitude
    } else {
        magnitude
    }
}

/// Parse a sign-free decimal token into micro-units.
fn parse_body_micros(body: &[u8]) -> (r: Option<i64>)
    ensures
        r is Some <==> body_well_formed(body@),
        body_well_formed(body@) ==> r == Some(body_micros(body@) as i64) && 0 <= body_micros(
            body@,
        ) < 2_000_000_000_000_000_000,
{
    let ghost b = body@;
    let n: usize = body.len();
    let mut i: usize = 0;
    let mut int_value: i64 = 0;
    while i < n && i < 13 && 48 <= body[i] && body[i] <= 57
        invariant
            0 <= i <= n,
            i <= 13,
            n == b.len(),
            b == body@,
            forall|j: int| 0 <= j < i as int ==> is_digit(#[trigger] b[j]),
            find_byte(b, 46, 0) == find_byte(b, 46, i as int),
            int_value == digits_value(b.subrange(0, i as int)),
            0 <= int_value < pow10(i as int),
        decreases n - i,
    {
        let d: u8 = body[i] - 48;
        proof {
            assert(pow10(i + 1) == 10 * pow10(i as int));
            assert(int_value * 10 + d < pow10(i + 1)) by (nonlinear_arith)
                requires
                    0 <= int_value < pow10(i as int),
                    0 <= d <= 9,
                    pow10(i + 1) == 10 * pow10(i as int),
            ;
            lemma_pow10_13();
            assert(b.subrange(0, i + 1).drop_last() =~= b.subrange(0, i as int));
            assert(b[i as int] != 46);
            assert(find_byte(b, 46, i as int) == find_byte(b, 46, i + 1));
        }
        int_value = int_value * 10 + (d as i64);
        i = i + 1;
    }
    let int_digits: usize = i;
    if int_digits >= 13 {
        // a thirteen-digit integer part: beyond the fixed-point range
        proof {
            lemma_find_byte_range(b, 46, i as int);
            assert(body_int_part(b).len() > 12);
        }
        return None;
    }
    if i < n && body[i] != 46 {
        // a byte that is neither digit nor dot: malformed
        proof {
            assert(find_byte(b, 46, i as int) == find_byte(b, 46, i + 1));
            lemma_find_byte_range(b, 46, i + 1);
            assert(body_int_part(b).len() >= i + 1);
            assert(body_int_part(b)[i as int] == b[i as int]);
            assert(!is_digit(b[i as int]));
        }
        return None;
    }
    proof {
        lemma_find_byte_range(b, 46, i as int);
        if i < n {
            assert(b[i as int] == 46);
            assert(find_byte(b, 46, i as int) == i as int);
        }
        assert(find_byte(b, 46, 0) == i as int);
        assert(body_int_part(b) =~= b.subrange(0, i as int));
    }
    let mut frac_value: i64 = 0;
    let mut kept: usize = 0;
    let ghost frac_start = i as int + 1;
    let ghost frac6_len: int = if n as int - frac_start > 6 {
        6int
    } else if n as int - frac_start >= 0 {
        n as int - frac_start
    } else {
        0int
    };
    let mut any_frac: bool = false;
    if i < n {
        // fractional digits after the dot
        i = i + 1;
        while i < n
            invariant
                frac_start <= i as int <= n,
                frac_start >= 1,
                n == b.len(),
                b == body@,
                find_byte(b, 46, 0) == frac_start - 1,
                frac6_len == (if n as int - frac_start > 6 {
                    6int
                } else {
                    n as int - frac_start
                }),
                forall|j: int| frac_start <= j < i as int ==> is_digit(#[trigger] b[j]),
                kept == (if i as int - frac_start > 6 {
                    6int
                } else {
                    i as int - frac_start
                }),
                any_frac == (i as int > frac_start),
                frac_value == digits_value(b.subrange(frac_start, frac_start + kept as int)),
                0 <= frac_value < pow10(kept as int),
            decreases n - i,
        {
            let c: u8 = body[i];
            if c < 48 || c > 57 {
                proof {
                    assert(body_frac_part(b)[i as int - frac_start] == b[i as int]);
                    assert(!is_digit(b[i as int]));
                }
                return None;
            }
            if kept < 6 {
                proof {
                    assert(pow10(kept + 1) == 10 * pow10(kept as int));
                    assert(frac_value * 10 + (c - 48) < pow10(kept + 1)) by (nonlinear_arith)
                        requires
                            0 <= frac_value < pow10(kept as int),
                            0 <= c - 48 <= 9,
                            pow10(kept + 1) == 10 * pow10(kept as int),
                    ;
                    lemma_pow10_13();
                    assert(b.subrange(frac_start, frac_start + kept + 1).drop_last()
                        =~= b.subrange(frac_start, frac_start + kept as int));
                }
                frac_value = frac_value * 10 + ((c - 48) as i64);
                kept = kept + 1;
            }
            any_frac = true;
            i = i + 1;
        }
    }
    if int_digits == 0 && !any_frac {
        // no digits at all
        return None;
    }
    proof {
        lemma_pow10_13();
    }
    // scale the kept fractional digits to their place value
    let ghost frac6 = (if body_frac_part(b).len() > 6 {
        body_frac_part(b).subrange(0, 6)
    } else {
        body_frac_part(b)
    });
    proof {
        if frac_start <= n as int {
            assert(body_frac_part(b) =~= b.subrange(frac_start, n as int));
            assert(frac6 =~= b.subrange(frac_start, frac_start + frac6_len));
            assert(kept == frac6_len);
        } else {
            assert(body_frac_part(b) =~= Seq::<u8>::empty());
            assert(frac_value == 0 && kept == 0);
            assert(frac6 =~= Seq::<u8>::empty());
        }
        assert(frac_value == digits_value(frac6));
    }
    let mut scale: usize = kept;
    proof {
        assert(scale == frac6.len());
        assert(pow10(0) == 1);
        assert(digits_value(frac6) * pow10(0) == digits_value(frac6)) by (nonlinear_arith);
        assert(frac_value == digits_value(frac6) * pow10(scale as int - frac6.len()));
    }
    while scale < 6
        invariant
            kept <= scale <= 6,
            0 <= frac_value,
            frac_value == digits_value(frac6) * pow10(scale as int - frac6.len()),
            frac_value < pow10(scale as int),
            frac6.len() == kept,
        decreases 6 - scale,
    {
        proof {
            assert(pow10(scale + 1 - frac6.len()) == 10 * pow10(scale as int - frac6.len()));
            assert(pow10(scale + 1) == 10 * pow10(scale as int));
            assert(digits_value(frac6) * pow10(scale + 1 - frac6.len()) == (digits_value(frac6)
                * pow10(scale as int - frac6.len())) * 10) by (nonlinear_arith)
                requires
                    pow10(scale + 1 - frac6.len()) == 10 * pow10(scale as int - frac6.len()),
            ;
            lemma_pow10_13();
        }
        frac_value = frac_value * 10;
        scale = scale + 1;
    }
    proof {
        lemma_pow10_13();
        lemma_digits_value_bounds(body_int_part(b));
        assert(pow10(body_int_part(b).len() as int) <= pow10(12)) by {
            lemma_pow10_monotone(body_int_part(b).len() as int, 12);
        }
    }
    Some(int_value * 1_000_000 + frac_value)
}

/// Parse a decimal token into micro-units.
///
/// Returns `None` exactly on malformed tokens; on success the value is
/// the token's `decimal_micros`.
pub fn parse_micro_decimal(token: &[u8]) -> (r: Option<i64>)
    ensures
        r is Some <==> well_formed_decimal(token@),
        well_formed_decimal(token@) ==> r == Some(decimal_micros(token@) as i64)
            && decimal_micros(token@) == (decimal_micros(token@) as i64) as int,
{
    let n: usize = token.len();
    let mut negative: bool = false;
    let mut rest: &[u8] = token;
    if n >= 1 {
        let first: u8 = token[0];
        if first == 43 || first == 45 {
            negative = first == 45;
            rest = vstd::slice::slice_subrange(token, 1, n);
        }
    }
    proof {
        assert(decimal_body(token@) =~= rest@);
    }
    match parse_body_micros(rest) {
        None => None,
        Some(magnitude) => {
            if negative {
                Some(-magnitude)
            } else {
                Some(magnitude)
            }
        },
    }
}

/// Commands recognized on the wire.
#[derive(Clone, Copy, PartialEq, Eq, Structural, Debug)]
pub enum ParsedCommand {
    /// A well-formed move: target angle and radius in micro-units.
    Move { theta: i64, rho: i64 },
    /// The move keyword with missing or malformed numeric fields; the
    /// command is dropped silently — nothing acknowledged, nothing
    /// enqueued.
    MalformedMove,
    /// Anything else; silently ignored.
    Unknown,
}

/// The bytes `MOVE`.
pub open spec fn is_move_keyword(s: Seq<u8>) -> bool {
    s.len() == 4 && s[0] == 77 && s[1] == 79 && s[2] == 86 && s[3] == 69
}

/// What a command line means.
///
/// Tokens are the maximal space-free runs; the line is a move exactly
/// when its first token is `MOVE`, and a well-formed one exactly when
/// two decimal tokens follow.
pub open spec fn spec_parse_command(line: Seq<u8>) -> ParsedCommand {
    let e0 = find_byte(line, 32, 0);
    if !is_move_keyword(line.subrange(0, e0)) {
        ParsedCommand::Unknown
    } else if e0 >= line.len() {
        ParsedCommand::MalformedMove
    } else {
        let e1 = find_byte(line, 32, e0 + 1);
        if e1 >= line.len() {
            ParsedCommand::MalformedMove
        } else {
            let theta_token = line.subrange(e0 + 1, e1);
            let e2 = find_byte(line, 32, e1 + 1);
            let rho_token = line.subrange(e1 + 1, e2);
            if well_formed_decimal(theta_token) && well_formed_decimal(rho_token) {
                ParsedCommand::Move {
                    theta: decimal_micros(theta_token) as i64,
                    rho: decimal_micros(rho_token) as i64,
                }
            } else {
                ParsedCommand::MalformedMove
            }
        }
    }
}

/// Whether a parsed command is acknowledged on the wire: exactly the
/// well-formed moves.  Parse errors — malformed numbers as much as
/// unknown commands — are dropped silently.
pub open spec fn spec_needs_ack(c: ParsedCommand) -> bool {
    c is Move
}

/// Find the next space (or the end of the line) at or after `from`.
fn find_space(line: &[u8], from: usize) -> (r: usize)
    requires
        from <= line@.len(),
    ensures
        r == find_byte(line@, 32, from as int),
        from <= r <= line@.len(),
{
    let n: usize = line.len();
    let mut i: usize = from;
    while i < n
        invariant
            from <= i <= n,
            n == line@.len(),
            find_byte(line@, 32, from as int) == find_byte(line@, 32, i as int),
        decreases n - i,
    {
        if line[i] == 32 {
            return i;
        }
        proof {
            assert(find_byte(line@, 32, i as int) == find_byte(line@, 32, i + 1));
        }
        i = i + 1;
    }
    n
}

/// Parse one command line (without its terminator).
pub fn parse_command(line: &[u8]) -> (r: ParsedCommand)
    ensures
        r == spec_parse_command(line@),
{
    let n: usize = line.len();
    let e0: usize = find_space(line, 0);
    let keyword: &[u8] = vstd::slice::slice_subrange(line, 0, e0);
    let is_move: bool = keyword.len() == 4 && keyword[0] == 77 && keyword[1] == 79
        && keyword[2] == 86 && keyword[3] == 69;
    if !is_move {
        return ParsedCommand::Unknown;
    }
    if e0 >= n {
        return ParsedCommand::MalformedMove;
    }
    let e1: usize = find_space(line, e0 + 1);
    if e1 >= n {
        return ParsedCommand::MalformedMove;
    }
    let theta_token: &[u8] = vstd::slice::slice_subrange(line, e0 + 1, e1);
    let e2: usize = find_space(line, e1 + 1);
    let rho_token: &[u8] = vstd::slice::slice_subrange(line, e1 + 1, e2);
    let theta = parse_micro_decimal(theta_token);
    let rho = parse_micro_decimal(rho_token);
    match (theta, rho) {
        (Some(theta_micros), Some(rho_micros)) => ParsedCommand::Move {
            theta: theta_micros,
            rho: rho_micros,
        },
        _ => ParsedCommand::MalformedMove,
    }
}

/// The 16-byte acknowledgement record written back to the host for each
/// well-formed move command: the text `MOVE ACK`, a carriage return and
/// line feed, a trailing line feed, and zero padding.
pub fn ack_frame() -> (r: Vec<u8>)
    ensures
        r@ == seq![77u8, 79u8, 86u8, 69u8, 32u8, 65u8, 67u8, 75u8, 13u8, 10u8, 10u8, 0u8, 0u8, 0u8, 0u8, 0u8],
{
    let mut frame: Vec<u8> = Vec::new();
    frame.push(77);
    frame.push(79);
    frame.push(86);
    frame.push(69);
    frame.push(32);
    frame.push(65);
    frame.push(67);
    frame.push(75);
    frame.push(13);
    frame.push(10);
    frame.push(10);
    frame.push(0);
    frame.push(0);
    frame.push(0);
    frame.push(0);
    frame.push(0);
    proof {
        assert(frame@ =~= seq![77u8, 79u8, 86u8, 69u8, 32u8, 65u8, 67u8, 75u8, 13u8, 10u8, 10u8, 0u8, 0u8, 0u8, 0u8, 0u8]);
    }
    frame
}

/// Whether a parsed command is acknowledged.
pub fn needs_ack(command: &ParsedCommand) -> (r: bool)
    ensures
        r == spec_needs_ack(*command),
{
    match command {
        ParsedCommand::Move { .. } => true,
        ParsedCommand::MalformedMove => false,
        ParsedCommand::Unknown => false,
    }
}

/// `pow10` at a few small arguments.
pub proof fn lemma_pow10_13()
    ensures
        pow10(0) == 1,
        pow10(1) == 10,
        pow10(2) == 100,
        pow10(3) == 1000,
        pow10(4) == 10_000,
        pow10(5) == 100_000,
        pow10(6) == 1_000_000,
        pow10(7) == 10_000_000,
        pow10(8) == 100_000_000,
        pow10(9) == 1_000_000_000,
        pow10(10) == 10_000_000_000,
        pow10(11) == 100_000_000_000,
        pow10(12) == 1_000_000_000_000,
        pow10(13) == 10_000_000_000_000,
{
    assert(pow10(0) == 1);
    assert(pow10(1) == 10);
    assert(pow10(2) == 100);
    assert(pow10(3) == 1000);
    assert(pow10(4) == 10_000);
    assert(pow10(5) == 100_000);
    assert(pow10(6) == 1_000_000);
    assert(pow10(7) == 10_000_000);
    assert(pow10(8) == 100_000_000);
    assert(pow10(9) == 1_000_000_000);
    assert(pow10(10) == 10_000_000_000);
    assert(pow10(11) == 100_000_000_000);
    assert(pow10(12) == 1_000_000_000_000);
    assert(pow10(13) == 10_000_000_000_000);
}

/// `pow10` is monotone.
pub proof fn lemma_pow10_monotone(a: int, b: int)
    requires
        a <= b,
    ensures
        pow10(a) <= pow10(b),
    decreases b - a,
{
    if b <= 0 {
        assert(pow10(a) == 1);
        assert(pow10(b) == 1);
    } else if a < b {
        lemma_pow10_monotone(a, b - 1);
        lemma_pow10_positive(b - 1);
        assert(pow10(b) == 10 * pow10(b - 1));
    }
}

/// `pow10` is positive.
pub proof fn lemma_pow10_positive(n: int)
    ensures
        pow10(n) >= 1,
    decreases (if n >= 0 { n } else { 0 }),
{
    if n > 0 {
        lemma_pow10_positive(n - 1);
    }
}

} // verus!
