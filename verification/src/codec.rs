//! Stable, human-readable text format for the durable `Proof` record.
//!
//! The format is line oriented: every field is `name value` on a line of
//! its own, where a string value is written as its character count
//! followed by the raw characters, so that any string round-trips
//! unchanged. Encoding and decoding are specified as functions over
//! character sequences, and decoding is proved to invert encoding.

use vstd::prelude::*;
use vstd::string::StrSliceExecFns;
use vstd::string::StringExecFns;

use crate::proof_gen::NodeInfo;
use crate::proof_gen::NodeInfoView;
use crate::proof_gen::Proof;
use crate::proof_gen::ProofMetrics;
use crate::proof_gen::ProofMetricsView;
use crate::proof_gen::ProofView;
use crate::proof_gen::Wallets;
use crate::proof_gen::WalletsView;

verus! {

/// Why a proof record could not be decoded.
#[derive(Debug, Clone, Copy, PartialEq, Eq, Structural)]
pub enum DecodeError {
    /// The text is not an encoding of any proof record.
    DeserializationFailed,
}

/// Relies on String::push: appends the one character to the end of the
/// string.
#[verifier::external_body]
fn push_char(s: &mut String, c: char)
    ensures
        final(s)@ == old(s)@ + seq![c],
{
    s.push(c);
}

/// The value of an ASCII decimal digit, or 10 for any other character.
pub open spec fn char_digit(c: char) -> int {
    if c == '0' {
        0
    } else if c == '1' {
        1
    } else if c == '2' {
        2
    } else if c == '3' {
        3
    } else if c == '4' {
        4
    } else if c == '5' {
        5
    } else if c == '6' {
        6
    } else if c == '7' {
        7
    } else if c == '8' {
        8
    } else if c == '9' {
        9
    } else {
        10
    }
}

/// An ASCII decimal digit.
pub open spec fn is_digit_char(c: char) -> bool {
    char_digit(c) < 10
}

/// The ASCII digit for a value below 10.
pub open spec fn digit_char(d: int) -> char {
    if d == 0 {
        '0'
    } else if d == 1 {
        '1'
    } else if d == 2 {
        '2'
    } else if d == 3 {
        '3'
    } else if d == 4 {
        '4'
    } else if d == 5 {
        '5'
    } else if d == 6 {
        '6'
    } else if d == 7 {
        '7'
    } else if d == 8 {
        '8'
    } else {
        '9'
    }
}

/// Decimal digits of a non-negative number, most significant first, with
/// no leading zeros except for the number 0 itself.
pub open spec fn dec_u64(n: int) -> Seq<char>
    recommends
        n >= 0,
    decreases n,
{
    if n < 10 {
        seq![digit_char(n)]
    } else {
        dec_u64(n / 10) + seq![digit_char(n % 10)]
    }
}

/// Decimal digits of a number, with a leading minus sign when negative.
pub open spec fn dec_i64(n: int) -> Seq<char> {
    if n >= 0 {
        dec_u64(n)
    } else {
        seq!['-'] + dec_u64(-n)
    }
}

/// Value of a string of ASCII decimal digits, most significant first.
pub open spec fn digits_val_chars(s: Seq<char>) -> int
    decreases s.len(),
{
    if s.len() == 0 {
        0
    } else {
        digits_val_chars(s.drop_last()) * 10 + char_digit(s.last())
    }
}

/// Length of the longest digit prefix of the sequence.
pub open spec fn digit_run_len(s: Seq<char>) -> int
    decreases s.len(),
{
    if s.len() > 0 && is_digit_char(s[0]) {
        1 + digit_run_len(s.drop_first())
    } else {
        0
    }
}

/// Strips the given literal from the front of the sequence.
pub open spec fn drop_prefix(s: Seq<char>, lit: Seq<char>) -> Option<Seq<char>> {
    if lit.len() <= s.len() && s.take(lit.len() as int) == lit {
        Some(s.skip(lit.len() as int))
    } else {
        None
    }
}

/// Greedily parses a decimal number from the front of the sequence:
/// fails when no digit is present or the digits exceed `u64::MAX`.
pub open spec fn parse_number(s: Seq<char>) -> Option<(int, Seq<char>)> {
    let k = digit_run_len(s);
    if k == 0 {
        None
    } else {
        let v = digits_val_chars(s.take(k));
        if v <= u64::MAX {
            Some((v, s.skip(k)))
        } else {
            None
        }
    }
}

/// Parses a decimal number with an optional leading minus sign; the
/// value must fit in `i64`.
pub open spec fn parse_signed(s: Seq<char>) -> Option<(int, Seq<char>)> {
    if s.len() > 0 && s[0] == '-' {
        match parse_number(s.skip(1)) {
            Some((v, rest)) => if -v >= i64::MIN {
                Some((-v, rest))
            } else {
                None
            },
            None => None,
        }
    } else {
        match parse_number(s) {
            Some((v, rest)) => if v <= i64::MAX {
                Some((v, rest))
            } else {
                None
            },
            None => None,
        }
    }
}

/// The ASCII digit of a value below 10.
fn digit_char_exec(d: u64) -> (c: char)
    requires
        d < 10,
    ensures
        c == digit_char(d as int),
{
    if d == 0 {
        '0'
    } else if d == 1 {
        '1'
    } else if d == 2 {
        '2'
    } else if d == 3 {
        '3'
    } else if d == 4 {
        '4'
    } else if d == 5 {
        '5'
    } else if d == 6 {
        '6'
    } else if d == 7 {
        '7'
    } else if d == 8 {
        '8'
    } else {
        '9'
    }
}

/// The value of an ASCII decimal digit, or 10 for any other character.
fn char_digit_exec(c: char) -> (d: u64)
    ensures
        d == char_digit(c),
{
    if c == '0' {
        0
    } else if c == '1' {
        1
    } else if c == '2' {
        2
    } else if c == '3' {
        3
    } else if c == '4' {
        4
    } else if c == '5' {
        5
    } else if c == '6' {
        6
    } else if c == '7' {
        7
    } else if c == '8' {
        8
    } else if c == '9' {
        9
    } else {
        10
    }
}

/// Renders an unsigned number in decimal.
pub fn u64_to_string(n: u64) -> (r: String)
    ensures
        r@ == dec_u64(n as int),
    decreases n,
{
    if n < 10 {
        let mut s = String::new();
        push_char(&mut s, digit_char_exec(n));
        proof {
            assert(s@ =~= seq![digit_char(n as int)]);
        }
        s
    } else {
        let mut s = u64_to_string(n / 10);
        push_char(&mut s, digit_char_exec(n % 10));
        s
    }
}

/// Renders a signed number in decimal, with a minus sign when negative.
pub fn i64_to_string(n: i64) -> (r: String)
    ensures
        r@ == dec_i64(n as int),
{
    if n >= 0 {
        u64_to_string(n as u64)
    } else {
        let magnitude: u64 = if n == i64::MIN {
            9223372036854775808u64
        } else {
            (-n) as u64
        };
        let digits = u64_to_string(magnitude);
        let mut s = String::from_str("-");
        s.append(digits.as_str());
        proof {
            reveal_strlit("-");
            assert("-"@ =~= seq!['-']);
            assert(s@ =~= seq!['-'] + dec_u64(-(n as int)));
        }
        s
    }
}

// ---------------------------------------------------------------------
// Field encodings: `name value\n`.
// ---------------------------------------------------------------------

/// A string field line: name, space, character count, space, the raw
/// characters, newline.
pub open spec fn str_field(name: Seq<char>, v: Seq<char>) -> Seq<char> {
    name + dec_u64(v.len() as int) + " "@ + v + "\n"@
}

/// An unsigned number field line.
pub open spec fn u64_field(name: Seq<char>, n: int) -> Seq<char> {
    name + dec_u64(n) + "\n"@
}

/// A signed number field line.
pub open spec fn i64_field(name: Seq<char>, n: int) -> Seq<char> {
    name + dec_i64(n) + "\n"@
}

/// An optional string field line: `name none` or `name some <string>`.
pub open spec fn opt_field(name: Seq<char>, o: Option<Seq<char>>) -> Seq<char> {
    match o {
        None => name + "none\n"@,
        Some(v) => name + "some "@ + dec_u64(v.len() as int) + " "@ + v + "\n"@,
    }
}

/// The item lines of a string list, each a count and the raw characters.
pub open spec fn list_items(items: Seq<Seq<char>>) -> Seq<char>
    decreases items.len(),
{
    if items.len() == 0 {
        Seq::<char>::empty()
    } else {
        dec_u64(items.first().len() as int) + " "@ + items.first() + "\n"@ + list_items(
            items.drop_first(),
        )
    }
}

/// A string list field: a count line followed by one line per item.
pub open spec fn list_field(name: Seq<char>, items: Seq<Seq<char>>) -> Seq<char> {
    name + dec_u64(items.len() as int) + "\n"@ + list_items(items)
}

// ---------------------------------------------------------------------
// Field parsers, inverting the encodings above.
// ---------------------------------------------------------------------

/// Takes a counted string: count, space, that many raw characters.
pub open spec fn parse_counted(s: Seq<char>) -> Option<(Seq<char>, Seq<char>)> {
    match parse_number(s) {
        None => None,
        Some((n, s1)) => match drop_prefix(s1, " "@) {
            None => None,
            Some(s2) => if n <= s2.len() {
                Some((s2.take(n), s2.skip(n)))
            } else {
                None
            },
        },
    }
}

/// Parses a string field line.
pub open spec fn parse_str_field(s: Seq<char>, name: Seq<char>) -> Option<(Seq<char>, Seq<char>)> {
    match drop_prefix(s, name) {
        None => None,
        Some(s1) => match parse_counted(s1) {
            None => None,
            Some((v, s2)) => match drop_prefix(s2, "\n"@) {
                None => None,
                Some(s3) => Some((v, s3)),
            },
        },
    }
}

/// Parses an unsigned number field line.
pub open spec fn parse_u64_field(s: Seq<char>, name: Seq<char>) -> Option<(int, Seq<char>)> {
    match drop_prefix(s, name) {
        None => None,
        Some(s1) => match parse_number(s1) {
            None => None,
            Some((n, s2)) => match drop_prefix(s2, "\n"@) {
                None => None,
                Some(s3) => Some((n, s3)),
            },
        },
    }
}

/// Parses a signed number field line.
pub open spec fn parse_i64_field(s: Seq<char>, name: Seq<char>) -> Option<(int, Seq<char>)> {
    match drop_prefix(s, name) {
        None => None,
        Some(s1) => match parse_signed(s1) {
            None => None,
            Some((n, s2)) => match drop_prefix(s2, "\n"@) {
                None => None,
                Some(s3) => Some((n, s3)),
            },
        },
    }
}

/// Parses an optional string field line.
pub open spec fn parse_opt_field(s: Seq<char>, name: Seq<char>) -> Option<(
    Option<Seq<char>>,
    Seq<char>,
)> {
    match drop_prefix(s, name) {
        None => None,
        Some(s1) => match drop_prefix(s1, "none\n"@) {
            Some(s2) => Some((None, s2)),
            None => match drop_prefix(s1, "some "@) {
                None => None,
                Some(s2) => match parse_counted(s2) {
                    None => None,
                    Some((v, s3)) => match drop_prefix(s3, "\n"@) {
                        None => None,
                        Some(s4) => Some((Some(v), s4)),
                    },
                },
            },
        },
    }
}

/// Parses `count` item lines of a string list.
pub open spec fn parse_list_items(s: Seq<char>, count: int) -> Option<(Seq<Seq<char>>, Seq<char>)>
    decreases count,
{
    if count <= 0 {
        Some((Seq::<Seq<char>>::empty(), s))
    } else {
        match parse_counted(s) {
            None => None,
            Some((v, s1)) => match drop_prefix(s1, "\n"@) {
                None => None,
                Some(s2) => match parse_list_items(s2, count - 1) {
                    None => None,
                    Some((vs, s3)) => Some((seq![v] + vs, s3)),
                },
            },
        }
    }
}

/// Parses a string list field.
pub open spec fn parse_list_field(s: Seq<char>, name: Seq<char>) -> Option<(
    Seq<Seq<char>>,
    Seq<char>,
)> {
    match drop_prefix(s, name) {
        None => None,
        Some(s1) => match parse_number(s1) {
            None => None,
            Some((n, s2)) => match drop_prefix(s2, "\n"@) {
                None => None,
                Some(s3) => parse_list_items(s3, n),
            },
        },
    }
}

// ---------------------------------------------------------------------
// Inverse lemmas: each parser consumes exactly what the encoder wrote.
// ---------------------------------------------------------------------

/// Stripping a literal that stands at the front succeeds.
pub proof fn lemma_drop_prefix(lit: Seq<char>, rest: Seq<char>)
    ensures
        drop_prefix(lit + rest, lit) == Some(rest),
{
    assert((lit + rest).take(lit.len() as int) =~= lit);
    assert((lit + rest).skip(lit.len() as int) =~= rest);
}

/// The decimal digits of a non-negative number are at least one digit,
/// all digits, and stand for the number itself.
pub proof fn lemma_dec_u64_digits(n: int)
    requires
        n >= 0,
    ensures
        dec_u64(n).len() >= 1,
        forall|i: int| 0 <= i < dec_u64(n).len() ==> is_digit_char(#[trigger] dec_u64(n)[i]),
        digits_val_chars(dec_u64(n)) == n,
    decreases n,
{
    if n < 10 {
        assert(dec_u64(n) =~= seq![digit_char(n)]);
        assert(dec_u64(n).drop_last() =~= Seq::<char>::empty());
        assert(dec_u64(n).last() == digit_char(n));
        assert(digits_val_chars(dec_u64(n)) == digits_val_chars(dec_u64(n).drop_last()) * 10
            + char_digit(dec_u64(n).last()));
        assert(digits_val_chars(Seq::<char>::empty()) == 0);
    } else {
        lemma_dec_u64_digits(n / 10);
        assert(dec_u64(n) == dec_u64(n / 10) + seq![digit_char(n % 10)]);
        assert(dec_u64(n).drop_last() =~= dec_u64(n / 10));
        assert(dec_u64(n).last() == digit_char(n % 10));
        assert(digits_val_chars(dec_u64(n)) == digits_val_chars(dec_u64(n / 10)) * 10 + char_digit(
            digit_char(n % 10),
        ));
        assert(n / 10 * 10 + n % 10 == n);
    }
}

/// The digit run stops exactly at the first non-digit position.
proof fn lemma_digit_run_len_at(t: Seq<char>, m: int)
    requires
        0 <= m <= t.len(),
        forall|j: int| 0 <= j < m ==> is_digit_char(t[j]),
        m == t.len() || !is_digit_char(t[m]),
    ensures
        digit_run_len(t) == m,
    decreases m,
{
    if m == 0 {
    } else {
        assert(is_digit_char(t[0]));
        lemma_digit_run_len_at(t.drop_first(), m - 1);
    }
}

/// Parsing right after encoding a number gives the number back, as long
/// as no digit follows the encoding.
pub proof fn lemma_parse_number(n: int, rest: Seq<char>)
    requires
        0 <= n <= u64::MAX,
        rest.len() == 0 || !is_digit_char(rest[0]),
    ensures
        parse_number(dec_u64(n) + rest) == Some((n, rest)),
{
    let d = dec_u64(n);
    let s = d + rest;
    lemma_dec_u64_digits(n);
    assert(forall|j: int| 0 <= j < d.len() ==> is_digit_char(s[j]));
    assert(d.len() == s.len() || !is_digit_char(s[d.len() as int]));
    lemma_digit_run_len_at(s, d.len() as int);
    assert(s.take(d.len() as int) =~= d);
    assert(s.skip(d.len() as int) =~= rest);
}

/// Parsing right after encoding a signed number gives it back.
pub proof fn lemma_parse_signed(n: int, rest: Seq<char>)
    requires
        i64::MIN <= n <= i64::MAX,
        rest.len() == 0 || !is_digit_char(rest[0]),
    ensures
        parse_signed(dec_i64(n) + rest) == Some((n, rest)),
{
    if n >= 0 {
        lemma_parse_number(n, rest);
        lemma_dec_u64_digits(n);
        assert(dec_u64(n)[0] != '-');
        assert((dec_u64(n) + rest)[0] == dec_u64(n)[0]);
    } else {
        assert(dec_i64(n) + rest =~= seq!['-'] + (dec_u64(-n) + rest));
        let s = dec_i64(n) + rest;
        assert(s[0] == '-');
        assert(s.skip(1) =~= dec_u64(-n) + rest);
        lemma_parse_number(-n, rest);
    }
}

/// Parsing right after encoding a counted string gives it back.
pub proof fn lemma_parse_counted(v: Seq<char>, rest: Seq<char>)
    requires
        v.len() <= u64::MAX,
    ensures
        parse_counted(dec_u64(v.len() as int) + " "@ + v + rest) == Some((v, rest)),
{
    reveal_strlit(" ");
    let s = dec_u64(v.len() as int) + " "@ + v + rest;
    assert(s =~= dec_u64(v.len() as int) + (" "@ + (v + rest)));
    assert((" "@ + (v + rest))[0] == ' ');
    lemma_parse_number(v.len() as int, " "@ + (v + rest));
    lemma_drop_prefix(" "@, v + rest);
    assert((v + rest).take(v.len() as int) =~= v);
    assert((v + rest).skip(v.len() as int) =~= rest);
}

/// Parsing a string field line that the encoder wrote gives the string
/// back.
pub proof fn lemma_parse_str_field(name: Seq<char>, v: Seq<char>, rest: Seq<char>)
    requires
        v.len() <= u64::MAX,
    ensures
        parse_str_field(str_field(name, v) + rest, name) == Some((v, rest)),
{
    let tail = dec_u64(v.len() as int) + " "@ + v + ("\n"@ + rest);
    let s = str_field(name, v) + rest;
    assert(s =~= name + tail);
    lemma_drop_prefix(name, tail);
    lemma_parse_counted(v, "\n"@ + rest);
    lemma_drop_prefix("\n"@, rest);
}

/// Parsing an unsigned field line that the encoder wrote gives the
/// number back.
pub proof fn lemma_parse_u64_field(name: Seq<char>, n: int, rest: Seq<char>)
    requires
        0 <= n <= u64::MAX,
    ensures
        parse_u64_field(u64_field(name, n) + rest, name) == Some((n, rest)),
{
    reveal_strlit("\n");
    let s = u64_field(name, n) + rest;
    assert(s =~= name + (dec_u64(n) + ("\n"@ + rest)));
    lemma_drop_prefix(name, dec_u64(n) + ("\n"@ + rest));
    assert(("\n"@ + rest)[0] == '\n');
    lemma_parse_number(n, "\n"@ + rest);
    lemma_drop_prefix("\n"@, rest);
}

/// Parsing a signed field line that the encoder wrote gives the number
/// back.
pub proof fn lemma_parse_i64_field(name: Seq<char>, n: int, rest: Seq<char>)
    requires
        i64::MIN <= n <= i64::MAX,
    ensures
        parse_i64_field(i64_field(name, n) + rest, name) == Some((n, rest)),
{
    reveal_strlit("\n");
    let s = i64_field(name, n) + rest;
    assert(s =~= name + (dec_i64(n) + ("\n"@ + rest)));
    lemma_drop_prefix(name, dec_i64(n) + ("\n"@ + rest));
    assert(("\n"@ + rest)[0] == '\n');
    lemma_parse_signed(n, "\n"@ + rest);
    lemma_drop_prefix("\n"@, rest);
}

/// Parsing an optional field line that the encoder wrote gives the
/// option back.
pub proof fn lemma_parse_opt_field(name: Seq<char>, o: Option<Seq<char>>, rest: Seq<char>)
    requires
        o is Some ==> o->0.len() <= u64::MAX,
    ensures
        parse_opt_field(opt_field(name, o) + rest, name) == Some((o, rest)),
{
    reveal_strlit("none\n");
    reveal_strlit("some ");
    match o {
        None => {
            let s = opt_field(name, o) + rest;
            assert(s =~= name + ("none\n"@ + rest));
            lemma_drop_prefix(name, "none\n"@ + rest);
            lemma_drop_prefix("none\n"@, rest);
        },
        Some(v) => {
            let s = opt_field(name, o) + rest;
            let tail = "some "@ + (dec_u64(v.len() as int) + " "@ + v + ("\n"@ + rest));
            assert(s =~= name + tail);
            lemma_drop_prefix(name, tail);
            // The branch for `none` cannot fire: the tail starts with `s`.
            assert(tail[0] == 's');
            assert("none\n"@[0] == 'n');
            assert(drop_prefix(tail, "none\n"@) is None) by {
                if drop_prefix(tail, "none\n"@) is Some {
                    assert(tail.take(5)[0] == tail[0]);
                }
            }
            lemma_drop_prefix("some "@, dec_u64(v.len() as int) + " "@ + v + ("\n"@ + rest));
            lemma_parse_counted(v, "\n"@ + rest);
            lemma_drop_prefix("\n"@, rest);
        },
    }
}

/// Parsing the item lines that the encoder wrote gives the items back.
pub proof fn lemma_parse_list_items(items: Seq<Seq<char>>, rest: Seq<char>)
    requires
        forall|i: int| 0 <= i < items.len() ==> (#[trigger] items[i]).len() <= u64::MAX,
    ensures
        parse_list_items(list_items(items) + rest, items.len() as int) == Some((items, rest)),
    decreases items.len(),
{
    if items.len() == 0 {
        assert(list_items(items) + rest =~= rest);
        assert(parse_list_items(rest, 0) == Some((Seq::<Seq<char>>::empty(), rest)));
        assert(items =~= Seq::<Seq<char>>::empty());
    } else {
        let v = items.first();
        let tail_items = items.drop_first();
        let s = list_items(items) + rest;
        assert(s =~= dec_u64(v.len() as int) + " "@ + v + ("\n"@ + (list_items(tail_items)
            + rest)));
        lemma_parse_counted(v, "\n"@ + (list_items(tail_items) + rest));
        lemma_drop_prefix("\n"@, list_items(tail_items) + rest);
        assert(forall|i: int|
            0 <= i < tail_items.len() ==> (#[trigger] tail_items[i]).len() <= u64::MAX);
        lemma_parse_list_items(tail_items, rest);
        assert(seq![v] + tail_items =~= items);
    }
}

/// Every character of the digit run is a digit.
proof fn lemma_digit_run_digits(t: Seq<char>)
    ensures
        0 <= digit_run_len(t) <= t.len(),
        forall|j: int| 0 <= j < digit_run_len(t) ==> is_digit_char(t[j]),
    decreases t.len(),
{
    if t.len() > 0 && is_digit_char(t[0]) {
        lemma_digit_run_digits(t.drop_first());
        assert forall|j: int| 0 <= j < digit_run_len(t) implies is_digit_char(t[j]) by {
            if j > 0 {
                assert(t.drop_first()[j - 1] == t[j]);
            }
        }
    }
}

/// The value of a digit string only grows as more digits follow.
proof fn lemma_digits_val_chars_grows(u: Seq<char>, m: int)
    requires
        0 <= m <= u.len(),
        digits_val_chars(u.take(m)) >= 0,
        forall|j: int| m <= j < u.len() ==> is_digit_char(u[j]),
    ensures
        digits_val_chars(u.take(m)) <= digits_val_chars(u),
    decreases u.len() - m,
{
    if m < u.len() {
        assert(u.take(m + 1).drop_last() =~= u.take(m));
        assert(u.take(m + 1).last() == u[m]);
        assert(digits_val_chars(u.take(m + 1)) == digits_val_chars(u.take(m)) * 10 + char_digit(
            u[m],
        ));
        assert(digits_val_chars(u.take(m)) * 10 >= digits_val_chars(u.take(m)))
            by (nonlinear_arith)
            requires
                digits_val_chars(u.take(m)) >= 0,
        ;
        lemma_digits_val_chars_grows(u, m + 1);
    } else {
        assert(u.take(m) =~= u);
    }
}

// ---------------------------------------------------------------------
// Executable parsers, each tied to its specification counterpart on the
// suffix of the input that starts at the cursor.
// ---------------------------------------------------------------------

/// Advances past the literal if it stands at the cursor.
fn expect_lit(s: &str, pos: usize, lit: &str) -> (r: Option<usize>)
    requires
        pos <= s@.len(),
    ensures
        match r {
            Some(p) => pos <= p <= s@.len() && drop_prefix(s@.skip(pos as int), lit@) == Some(
                s@.skip(p as int),
            ),
            None => drop_prefix(s@.skip(pos as int), lit@) is None,
        },
{
    let slen = s.unicode_len();
    let llen = lit.unicode_len();
    if slen - pos < llen {
        return None;
    }
    let mut j: usize = 0;
    while j < llen
        invariant
            0 <= j <= llen,
            llen == lit@.len(),
            slen == s@.len(),
            pos + llen <= slen,
            forall|i: int| 0 <= i < j ==> s@.skip(pos as int)[i] == lit@[i],
        decreases llen - j,
    {
        if s.get_char(pos + j) != lit.get_char(j) {
            proof {
                let t = s@.skip(pos as int);
                assert(t[j as int] == s@[pos + j]);
                if drop_prefix(t, lit@) is Some {
                    assert(t.take(llen as int)[j as int] == t[j as int]);
                }
            }
            return None;
        }
        j = j + 1;
    }
    proof {
        assert(s@.skip(pos as int).take(llen as int) =~= lit@);
        assert(s@.skip(pos as int).skip(llen as int) =~= s@.skip(pos + llen));
    }
    Some(pos + llen)
}

/// Greedily reads a decimal number at the cursor.
fn parse_number_exec(s: &str, pos: usize) -> (r: Option<(u64, usize)>)
    requires
        pos <= s@.len(),
    ensures
        match r {
            Some((v, p)) => pos <= p <= s@.len() && parse_number(s@.skip(pos as int)) == Some(
                (v as int, s@.skip(p as int)),
            ),
            None => parse_number(s@.skip(pos as int)) is None,
        },
{
    let ghost t = s@.skip(pos as int);
    let slen = s.unicode_len();
    let mut end: usize = pos;
    while end < slen && char_digit_exec(s.get_char(end)) < 10
        invariant
            pos <= end <= slen,
            slen == s@.len(),
            forall|j: int| pos <= j < end ==> is_digit_char(s@[j]),
        decreases slen - end,
    {
        end = end + 1;
    }
    proof {
        assert forall|j: int| 0 <= j < end - pos implies is_digit_char(t[j]) by {
            assert(t[j] == s@[pos + j]);
        }
        if end < slen {
            assert(t[end - pos] == s@[end as int]);
        }
        lemma_digit_run_len_at(t, end - pos);
    }
    if end == pos {
        return None;
    }
    let mut acc: u64 = 0;
    let mut i: usize = pos;
    while i < end
        invariant
            pos <= i <= end <= slen,
            slen == s@.len(),
            t == s@.skip(pos as int),
            digit_run_len(t) == end - pos,
            forall|j: int| pos <= j < end ==> is_digit_char(s@[j]),
            acc == digits_val_chars(t.take(i - pos)),
        decreases end - i,
    {
        let c = s.get_char(i);
        let d = char_digit_exec(c);
        proof {
            assert(t[i - pos] == s@[i as int]);
            assert(t.take(i - pos + 1).drop_last() =~= t.take(i - pos));
            assert(t.take(i - pos + 1).last() == t[i - pos]);
        }
        if acc > (u64::MAX - d) / 10 {
            proof {
                assert(acc * 10 + d > u64::MAX) by (nonlinear_arith)
                    requires
                        acc > (u64::MAX - d) / 10,
                        0 <= d <= 9,
                        acc >= 0,
                ;
                let k = digit_run_len(t);
                let u = t.take(k);
                lemma_digit_run_digits(t);
                assert(u.take(i - pos + 1) =~= t.take(i - pos + 1));
                assert(digits_val_chars(u.take(i - pos + 1)) == acc * 10 + d);
                assert(forall|j: int| i - pos + 1 <= j < u.len() ==> is_digit_char(u[j]));
                lemma_digits_val_chars_grows(u, i - pos + 1);
            }
            return None;
        }
        acc = acc * 10 + d;
        i = i + 1;
    }
    proof {
        assert(t.take(end - pos) == t.take(digit_run_len(t)));
        assert(t.skip(end - pos) =~= s@.skip(end as int));
    }
    Some((acc, end))
}

/// Reads a decimal number with an optional minus sign at the cursor.
fn parse_signed_exec(s: &str, pos: usize) -> (r: Option<(i64, usize)>)
    requires
        pos <= s@.len(),
    ensures
        match r {
            Some((v, p)) => pos <= p <= s@.len() && parse_signed(s@.skip(pos as int)) == Some(
                (v as int, s@.skip(p as int)),
            ),
            None => parse_signed(s@.skip(pos as int)) is None,
        },
{
    let ghost t = s@.skip(pos as int);
    let slen = s.unicode_len();
    if pos < slen && s.get_char(pos) == '-' {
        proof {
            assert(t[0] == s@[pos as int]);
            assert(t.skip(1) =~= s@.skip(pos + 1));
        }
        match parse_number_exec(s, pos + 1) {
            None => None,
            Some((v, p)) => {
                if v > 9223372036854775808u64 {
                    None
                } else {
                    let n: i64 = if v == 9223372036854775808u64 {
                        i64::MIN
                    } else {
                        -(v as i64)
                    };
                    Some((n, p))
                }
            },
        }
    } else {
        proof {
            if t.len() > 0 {
                assert(t[0] == s@[pos as int]);
            }
        }
        match parse_number_exec(s, pos) {
            None => None,
            Some((v, p)) => {
                if v > 9223372036854775807u64 {
                    None
                } else {
                    Some((v as i64, p))
                }
            },
        }
    }
}

/// Reads a counted string at the cursor: count, space, raw characters.
fn parse_counted_exec(s: &str, pos: usize) -> (r: Option<(String, usize)>)
    requires
        pos <= s@.len(),
    ensures
        match r {
            Some((v, p)) => pos <= p <= s@.len() && parse_counted(s@.skip(pos as int)) == Some(
                (v@, s@.skip(p as int)),
            ),
            None => parse_counted(s@.skip(pos as int)) is None,
        },
{
    match parse_number_exec(s, pos) {
        None => None,
        Some((n, p1)) => {
            match expect_lit(s, p1, " ") {
                None => None,
                Some(p2) => {
                    let slen = s.unicode_len();
                    let remaining = (slen - p2) as u64;
                    if n > remaining {
                        proof {
                            assert(s@.skip(p2 as int).len() == slen - p2);
                        }
                        None
                    } else {
                        let endv = p2 + (n as usize);
                        let sub = s.substring_char(p2, endv);
                        let v = sub.to_owned();
                        proof {
                            assert(s@.skip(p2 as int).take(n as int) =~= s@.subrange(
                                p2 as int,
                                endv as int,
                            ));
                            assert(s@.skip(p2 as int).skip(n as int) =~= s@.skip(endv as int));
                        }
                        Some((v, endv))
                    }
                },
            }
        },
    }
}

/// Reads a string field line at the cursor.
fn parse_str_field_exec(s: &str, pos: usize, name: &str) -> (r: Option<(String, usize)>)
    requires
        pos <= s@.len(),
    ensures
        match r {
            Some((v, p)) => pos <= p <= s@.len() && parse_str_field(s@.skip(pos as int), name@)
                == Some((v@, s@.skip(p as int))),
            None => parse_str_field(s@.skip(pos as int), name@) is None,
        },
{
    match expect_lit(s, pos, name) {
        None => None,
        Some(p1) => match parse_counted_exec(s, p1) {
            None => None,
            Some((v, p2)) => match expect_lit(s, p2, "\n") {
                None => None,
                Some(p3) => Some((v, p3)),
            },
        },
    }
}

/// Reads an unsigned number field line at the cursor.
fn parse_u64_field_exec(s: &str, pos: usize, name: &str) -> (r: Option<(u64, usize)>)
    requires
        pos <= s@.len(),
    ensures
        match r {
            Some((v, p)) => pos <= p <= s@.len() && parse_u64_field(s@.skip(pos as int), name@)
                == Some((v as int, s@.skip(p as int))),
            None => parse_u64_field(s@.skip(pos as int), name@) is None,
        },
{
    match expect_lit(s, pos, name) {
        None => None,
        Some(p1) => match parse_number_exec(s, p1) {
            None => None,
            Some((v, p2)) => match expect_lit(s, p2, "\n") {
                None => None,
                Some(p3) => Some((v, p3)),
            },
        },
    }
}

/// Reads a signed number field line at the cursor.
fn parse_i64_field_exec(s: &str, pos: usize, name: &str) -> (r: Option<(i64, usize)>)
    requires
        pos <= s@.len(),
    ensures
        match r {
            Some((v, p)) => pos <= p <= s@.len() && parse_i64_field(s@.skip(pos as int), name@)
                == Some((v as int, s@.skip(p as int))),
            None => parse_i64_field(s@.skip(pos as int), name@) is None,
        },
{
    match expect_lit(s, pos, name) {
        None => None,
        Some(p1) => match parse_signed_exec(s, p1) {
            None => None,
            Some((v, p2)) => match expect_lit(s, p2, "\n") {
                None => None,
                Some(p3) => Some((v, p3)),
            },
        },
    }
}

/// Reads an optional string field line at the cursor.
fn parse_opt_field_exec(s: &str, pos: usize, name: &str) -> (r: Option<(Option<String>, usize)>)
    requires
        pos <= s@.len(),
    ensures
        match r {
            Some((v, p)) => pos <= p <= s@.len() && ({
                let o = match v {
                    None => None,
                    Some(x) => Some(x@),
                };
                parse_opt_field(s@.skip(pos as int), name@) == Some((o, s@.skip(p as int)))
            }),
            None => parse_opt_field(s@.skip(pos as int), name@) is None,
        },
{
    match expect_lit(s, pos, name) {
        None => None,
        Some(p1) => match expect_lit(s, p1, "none\n") {
            Some(p2) => Some((None, p2)),
            None => match expect_lit(s, p1, "some ") {
                None => None,
                Some(p2) => match parse_counted_exec(s, p2) {
                    None => None,
                    Some((v, p3)) => match expect_lit(s, p3, "\n") {
                        None => None,
                        Some(p4) => Some((Some(v), p4)),
                    },
                },
            },
        },
    }
}

/// Reads a string list field at the cursor.
fn parse_list_field_exec(s: &str, pos: usize, name: &str) -> (r: Option<(Vec<String>, usize)>)
    requires
        pos <= s@.len(),
    ensures
        match r {
            Some((v, p)) => pos <= p <= s@.len() && parse_list_field(s@.skip(pos as int), name@)
                == Some((v.deep_view(), s@.skip(p as int))),
            None => parse_list_field(s@.skip(pos as int), name@) is None,
        },
{
    let p1 = match expect_lit(s, pos, name) {
        None => { return None },
        Some(p) => p,
    };
    let (count, p2) = match parse_number_exec(s, p1) {
        None => { return None },
        Some(x) => x,
    };
    let p3 = match expect_lit(s, p2, "\n") {
        None => { return None },
        Some(p) => p,
    };
    let mut items: Vec<String> = Vec::new();
    let mut i: u64 = 0;
    let mut cur: usize = p3;
    while i < count
        invariant
            0 <= i <= count,
            pos <= cur <= s@.len(),
            items.deep_view().len() == i,
            parse_list_field(s@.skip(pos as int), name@) == parse_list_items(
                s@.skip(p3 as int),
                count as int,
            ),
            match parse_list_items(s@.skip(cur as int), count - i) {
                Some((vs, rest)) => parse_list_items(s@.skip(p3 as int), count as int) == Some(
                    (items.deep_view() + vs, rest),
                ),
                None => parse_list_items(s@.skip(p3 as int), count as int) is None,
            },
        decreases count - i,
    {
        let (v, q1) = match parse_counted_exec(s, cur) {
            None => { return None },
            Some(x) => x,
        };
        let q2 = match expect_lit(s, q1, "\n") {
            None => { return None },
            Some(p) => p,
        };
        proof {
            let old_items = items.deep_view();
            match parse_list_items(s@.skip(q2 as int), count - i - 1) {
                Some((vs2, rest2)) => {
                    assert(old_items + (seq![v@] + vs2) =~= (old_items + seq![v@]) + vs2);
                },
                None => {},
            }
        }
        items.push(v);
        proof {
            assert(items.deep_view() =~= items.deep_view().subrange(
                0,
                items.deep_view().len() as int,
            ));
        }
        cur = q2;
        i = i + 1;
    }
    proof {
        assert(parse_list_items(s@.skip(cur as int), 0) == Some(
            (Seq::<Seq<char>>::empty(), s@.skip(cur as int)),
        ));
        assert(items.deep_view() + Seq::<Seq<char>>::empty() =~= items.deep_view());
    }
    Some((items, cur))
}

/// Parsing a list field that the encoder wrote gives the list back.
pub proof fn lemma_parse_list_field(name: Seq<char>, items: Seq<Seq<char>>, rest: Seq<char>)
    requires
        items.len() <= u64::MAX,
        forall|i: int| 0 <= i < items.len() ==> (#[trigger] items[i]).len() <= u64::MAX,
    ensures
        parse_list_field(list_field(name, items) + rest, name) == Some((items, rest)),
{
    reveal_strlit("\n");
    let s = list_field(name, items) + rest;
    assert(s =~= name + (dec_u64(items.len() as int) + ("\n"@ + (list_items(items) + rest))));
    lemma_drop_prefix(name, dec_u64(items.len() as int) + ("\n"@ + (list_items(items) + rest)));
    assert(("\n"@ + (list_items(items) + rest))[0] == '\n');
    lemma_parse_number(items.len() as int, "\n"@ + (list_items(items) + rest));
    lemma_drop_prefix("\n"@, list_items(items) + rest);
    lemma_parse_list_items(items, rest);
}

/// The item lines can be built back to front as well as front to back.
proof fn lemma_list_items_snoc(items: Seq<Seq<char>>)
    requires
        items.len() > 0,
    ensures
        list_items(items) == list_items(items.drop_last()) + (dec_u64(items.last().len() as int)
            + " "@ + items.last() + "\n"@),
    decreases items.len(),
{
    if items.len() == 1 {
        assert(items.drop_last() =~= Seq::<Seq<char>>::empty());
        assert(items.drop_first() =~= Seq::<Seq<char>>::empty());
        assert(items.first() == items.last());
        assert(list_items(items) =~= list_items(items.drop_last()) + (dec_u64(
            items.last().len() as int,
        ) + " "@ + items.last() + "\n"@));
    } else {
        lemma_list_items_snoc(items.drop_first());
        assert(items.drop_first().drop_last() =~= items.drop_last().drop_first());
        assert(items.drop_first().last() == items.last());
        assert(items.drop_last().first() == items.first());
        assert(items.drop_last().len() > 0);
        assert(list_items(items) =~= list_items(items.drop_last()) + (dec_u64(
            items.last().len() as int,
        ) + " "@ + items.last() + "\n"@));
    }
}

// ---------------------------------------------------------------------
// Executable encoders.
// ---------------------------------------------------------------------

/// Appends a string field line.
fn append_str_field(out: &mut String, name: &str, v: &str)
    ensures
        final(out)@ == old(out)@ + str_field(name@, v@),
{
    out.append(name);
    let vlen = v.unicode_len();
    let lenstr = u64_to_string(vlen as u64);
    out.append(lenstr.as_str());
    out.append(" ");
    out.append(v);
    out.append("\n");
    proof {
        assert(out@ =~= old(out)@ + str_field(name@, v@));
    }
}

/// Appends an unsigned number field line.
fn append_u64_field(out: &mut String, name: &str, n: u64)
    ensures
        final(out)@ == old(out)@ + u64_field(name@, n as int),
{
    out.append(name);
    let numstr = u64_to_string(n);
    out.append(numstr.as_str());
    out.append("\n");
    proof {
        assert(out@ =~= old(out)@ + u64_field(name@, n as int));
    }
}

/// Appends a signed number field line.
fn append_i64_field(out: &mut String, name: &str, n: i64)
    ensures
        final(out)@ == old(out)@ + i64_field(name@, n as int),
{
    out.append(name);
    let numstr = i64_to_string(n);
    out.append(numstr.as_str());
    out.append("\n");
    proof {
        assert(out@ =~= old(out)@ + i64_field(name@, n as int));
    }
}

/// Appends an optional string field line.
fn append_opt_field(out: &mut String, name: &str, o: &Option<String>)
    ensures
        final(out)@ == old(out)@ + opt_field(
            name@,
            (match o {
                None => None,
                Some(x) => Some(x@),
            }),
        ),
{
    out.append(name);
    match o {
        None => {
            out.append("none\n");
        },
        Some(v) => {
            out.append("some ");
            let vlen = v.as_str().unicode_len();
            let lenstr = u64_to_string(vlen as u64);
            out.append(lenstr.as_str());
            out.append(" ");
            out.append(v.as_str());
            out.append("\n");
        },
    }
    proof {
        assert(out@ =~= old(out)@ + opt_field(
            name@,
            (match o {
                None => None,
                Some(x) => Some(x@),
            }),
        ));
    }
}

/// Appends a string list field.
fn append_list_field(out: &mut String, name: &str, items: &Vec<String>)
    ensures
        final(out)@ == old(out)@ + list_field(name@, items.deep_view()),
{
    out.append(name);
    let countstr = u64_to_string(items.len() as u64);
    out.append(countstr.as_str());
    out.append("\n");
    let ghost base = out@;
    proof {
        assert(base + list_items(items.deep_view().take(0)) =~= base);
    }
    let mut i: usize = 0;
    while i < items.len()
        invariant
            0 <= i <= items@.len(),
            items.deep_view().len() == items@.len(),
            out@ == base + list_items(items.deep_view().take(i as int)),
        decreases items@.len() - i,
    {
        let item_len = items[i].as_str().unicode_len();
        let lenstr = u64_to_string(item_len as u64);
        out.append(lenstr.as_str());
        out.append(" ");
        out.append(items[i].as_str());
        out.append("\n");
        proof {
            let dv = items.deep_view();
            assert(dv.take(i + 1).drop_last() =~= dv.take(i as int));
            assert(dv.take(i + 1).last() == dv[i as int]);
            assert(dv[i as int] == items@[i as int]@);
            lemma_list_items_snoc(dv.take(i + 1));
            assert(out@ =~= base + list_items(dv.take(i + 1)));
        }
        i = i + 1;
    }
    proof {
        assert(items.deep_view().take(items.deep_view().len() as int) =~= items.deep_view());
        assert(out@ =~= old(out)@ + list_field(name@, items.deep_view()));
    }
}

// ---------------------------------------------------------------------
// The whole record: encoding, decoding, and the round trip.
// ---------------------------------------------------------------------

/// The text encoding of a proof record: one field per line, in a fixed
/// order, under stable field names.
pub open spec fn spec_encode(v: ProofView) -> Seq<char> {
    str_field("version "@, v.version) + i64_field("timestamp "@, v.timestamp) + str_field(
        "zebra_version "@,
        v.node_info.zebra_version,
    ) + str_field("zebra_binary_hash "@, v.node_info.zebra_binary_hash) + str_field(
        "network "@,
        v.node_info.network,
    ) + opt_field("node_id "@, v.node_info.node_id) + u64_field(
        "block_height "@,
        v.metrics.block_height,
    ) + u64_field("sync_milli_percent "@, v.metrics.sync_milli_percent) + u64_field(
        "uptime_milli_hours "@,
        v.metrics.uptime_milli_hours,
    ) + u64_field("peer_count "@, v.metrics.peer_count) + u64_field(
        "blocks_served "@,
        v.metrics.blocks_served,
    ) + str_field("halo2_proof "@, v.halo2_proof) + list_field(
        "public_inputs "@,
        v.public_inputs,
    ) + str_field("solana_wallet "@, v.wallets.solana) + str_field(
        "zcash_address "@,
        v.wallets.zcash,
    ) + str_field("signature "@, v.signature)
}

/// The proof-record values that the encoding can carry: every component
/// fits its machine representation.
pub open spec fn wf_proof_view(v: ProofView) -> bool {
    &&& v.version.len() <= u64::MAX
    &&& i64::MIN <= v.timestamp <= i64::MAX
    &&& v.node_info.zebra_version.len() <= u64::MAX
    &&& v.node_info.zebra_binary_hash.len() <= u64::MAX
    &&& v.node_info.network.len() <= u64::MAX
    &&& (v.node_info.node_id is Some ==> v.node_info.node_id->0.len() <= u64::MAX)
    &&& 0 <= v.metrics.block_height <= u64::MAX
    &&& 0 <= v.metrics.sync_milli_percent <= u64::MAX
    &&& 0 <= v.metrics.uptime_milli_hours <= u64::MAX
    &&& 0 <= v.metrics.peer_count <= u32::MAX
    &&& 0 <= v.metrics.blocks_served <= u64::MAX
    &&& v.halo2_proof.len() <= u64::MAX
    &&& v.public_inputs.len() <= u64::MAX
    &&& (forall|i: int|
        0 <= i < v.public_inputs.len() ==> (#[trigger] v.public_inputs[i]).len() <= u64::MAX)
    &&& v.wallets.solana.len() <= u64::MAX
    &&& v.wallets.zcash.len() <= u64::MAX
    &&& v.signature.len() <= u64::MAX
}

/// The proof record that a text encodes, if it encodes one: the fields
/// in order, with nothing left over.
pub open spec fn spec_decode(s: Seq<char>) -> Option<ProofView> {
    match parse_str_field(s, "version "@) {
        None => None,
        Some((version, s1)) => match parse_i64_field(s1, "timestamp "@) {
            None => None,
            Some((timestamp, s2)) => match parse_str_field(s2, "zebra_version "@) {
                None => None,
                Some((zebra_version, s3)) => match parse_str_field(s3, "zebra_binary_hash "@) {
                    None => None,
                    Some((zebra_binary_hash, s4)) => match parse_str_field(s4, "network "@) {
                        None => None,
                        Some((network, s5)) => match parse_opt_field(s5, "node_id "@) {
                            None => None,
                            Some((node_id, s6)) => match parse_u64_field(s6, "block_height "@) {
                                None => None,
                                Some((block_height, s7)) => match parse_u64_field(
                                    s7,
                                    "sync_milli_percent "@,
                                ) {
                                    None => None,
                                    Some((sync_milli_percent, s8)) => match parse_u64_field(
                                        s8,
                                        "uptime_milli_hours "@,
                                    ) {
                                        None => None,
                                        Some((uptime_milli_hours, s9)) => match parse_u64_field(
                                            s9,
                                            "peer_count "@,
                                        ) {
                                            None => None,
                                            Some((peer_count, s10)) => if peer_count > u32::MAX {
                                                None
                                            } else {
                                                spec_decode_tail(
                                                    s10,
                                                    ProofMetricsView {
                                                        block_height,
                                                        sync_milli_percent,
                                                        uptime_milli_hours,
                                                        peer_count,
                                                        blocks_served: 0,
                                                    },
                                                    NodeInfoView {
                                                        zebra_version,
                                                        zebra_binary_hash,
                                                        network,
                                                        node_id,
                                                    },
                                                    version,
                                                    timestamp,
                                                )
                                            },
                                        },
                                    },
                                },
                            },
                        },
                    },
                },
            },
        },
    }
}

/// The back half of `spec_decode`, from the blocks-served field on.
pub open spec fn spec_decode_tail(
    s: Seq<char>,
    metrics: ProofMetricsView,
    node_info: NodeInfoView,
    version: Seq<char>,
    timestamp: int,
) -> Option<ProofView> {
    match parse_u64_field(s, "blocks_served "@) {
        None => None,
        Some((blocks_served, s1)) => match parse_str_field(s1, "halo2_proof "@) {
            None => None,
            Some((halo2_proof, s2)) => match parse_list_field(s2, "public_inputs "@) {
                None => None,
                Some((public_inputs, s3)) => match parse_str_field(s3, "solana_wallet "@) {
                    None => None,
                    Some((solana, s4)) => match parse_str_field(s4, "zcash_address "@) {
                        None => None,
                        Some((zcash, s5)) => match parse_str_field(s5, "signature "@) {
                            None => None,
                            Some((signature, s6)) => if s6.len() == 0 {
                                Some(
                                    ProofView {
                                        version,
                                        timestamp,
                                        node_info,
                                        metrics: ProofMetricsView { blocks_served, ..metrics },
                                        halo2_proof,
                                        public_inputs,
                                        wallets: WalletsView { solana, zcash },
                                        signature,
                                    },
                                )
                            } else {
                                None
                            },
                        },
                    },
                },
            },
        },
    }
}

/// Writes a proof record in the stable text format.
pub fn encode(p: &Proof) -> (out: String)
    ensures
        out@ == spec_encode(p@),
{
    let mut out = String::new();
    append_str_field(&mut out, "version ", p.version.as_str());
    append_i64_field(&mut out, "timestamp ", p.timestamp);
    append_str_field(&mut out, "zebra_version ", p.node_info.zebra_version.as_str());
    append_str_field(&mut out, "zebra_binary_hash ", p.node_info.zebra_binary_hash.as_str());
    append_str_field(&mut out, "network ", p.node_info.network.as_str());
    append_opt_field(&mut out, "node_id ", &p.node_info.node_id);
    append_u64_field(&mut out, "block_height ", p.metrics.block_height);
    append_u64_field(&mut out, "sync_milli_percent ", p.metrics.sync_milli_percent);
    append_u64_field(&mut out, "uptime_milli_hours ", p.metrics.uptime_milli_hours);
    append_u64_field(&mut out, "peer_count ", p.metrics.peer_count as u64);
    append_u64_field(&mut out, "blocks_served ", p.metrics.blocks_served);
    append_str_field(&mut out, "halo2_proof ", p.halo2_proof.as_str());
    append_list_field(&mut out, "public_inputs ", &p.public_inputs);
    append_str_field(&mut out, "solana_wallet ", p.wallets.solana.as_str());
    append_str_field(&mut out, "zcash_address ", p.wallets.zcash.as_str());
    append_str_field(&mut out, "signature ", p.signature.as_str());
    proof {
        assert(out@ =~= spec_encode(p@));
    }
    out
}

/// Reads a proof record back from the stable text format; fails exactly
/// on text that encodes no record.
#[verifier::rlimit(50)]
pub fn decode(s: &str) -> (r: Result<Proof, DecodeError>)
    ensures
        match spec_decode(s@) {
            Some(v) => r is Ok && r->Ok_0@ == v,
            None => r == Err::<Proof, DecodeError>(DecodeError::DeserializationFailed),
        },
{
    proof {
        assert(s@.skip(0) =~= s@);
    }
    let (version, p1) = match parse_str_field_exec(s, 0, "version ") {
        None => { return Err(DecodeError::DeserializationFailed) },
        Some(x) => x,
    };
    let (timestamp, p2) = match parse_i64_field_exec(s, p1, "timestamp ") {
        None => { return Err(DecodeError::DeserializationFailed) },
        Some(x) => x,
    };
    let (zebra_version, p3) = match parse_str_field_exec(s, p2, "zebra_version ") {
        None => { return Err(DecodeError::DeserializationFailed) },
        Some(x) => x,
    };
    let (zebra_binary_hash, p4) = match parse_str_field_exec(s, p3, "zebra_binary_hash ") {
        None => { return Err(DecodeError::DeserializationFailed) },
        Some(x) => x,
    };
    let (network, p5) = match parse_str_field_exec(s, p4, "network ") {
        None => { return Err(DecodeError::DeserializationFailed) },
        Some(x) => x,
    };
    let (node_id, p6) = match parse_opt_field_exec(s, p5, "node_id ") {
        None => { return Err(DecodeError::DeserializationFailed) },
        Some(x) => x,
    };
    let (block_height, p7) = match parse_u64_field_exec(s, p6, "block_height ") {
        None => { return Err(DecodeError::DeserializationFailed) },
        Some(x) => x,
    };
    let (sync_milli_percent, p8) = match parse_u64_field_exec(s, p7, "sync_milli_percent ") {
        None => { return Err(DecodeError::DeserializationFailed) },
        Some(x) => x,
    };
    let (uptime_milli_hours, p9) = match parse_u64_field_exec(s, p8, "uptime_milli_hours ") {
        None => { return Err(DecodeError::DeserializationFailed) },
        Some(x) => x,
    };
    let (peer_count_wide, p10) = match parse_u64_field_exec(s, p9, "peer_count ") {
        None => { return Err(DecodeError::DeserializationFailed) },
        Some(x) => x,
    };
    if peer_count_wide > 4294967295u64 {
        return Err(DecodeError::DeserializationFailed);
    }
    let peer_count: u32 = peer_count_wide as u32;
    let (blocks_served, p11) = match parse_u64_field_exec(s, p10, "blocks_served ") {
        None => { return Err(DecodeError::DeserializationFailed) },
        Some(x) => x,
    };
    let (halo2_proof, p12) = match parse_str_field_exec(s, p11, "halo2_proof ") {
        None => { return Err(DecodeError::DeserializationFailed) },
        Some(x) => x,
    };
    let (public_inputs, p13) = match parse_list_field_exec(s, p12, "public_inputs ") {
        None => { return Err(DecodeError::DeserializationFailed) },
        Some(x) => x,
    };
    let (solana, p14) = match parse_str_field_exec(s, p13, "solana_wallet ") {
        None => { return Err(DecodeError::DeserializationFailed) },
        Some(x) => x,
    };
    let (zcash, p15) = match parse_str_field_exec(s, p14, "zcash_address ") {
        None => { return Err(DecodeError::DeserializationFailed) },
        Some(x) => x,
    };
    let (signature, p16) = match parse_str_field_exec(s, p15, "signature ") {
        None => { return Err(DecodeError::DeserializationFailed) },
        Some(x) => x,
    };
    if p16 != s.unicode_len() {
        return Err(DecodeError::DeserializationFailed);
    }
    let ghost decoded = ProofView {
        version: version@,
        timestamp: timestamp as int,
        node_info: NodeInfoView {
            zebra_version: zebra_version@,
            zebra_binary_hash: zebra_binary_hash@,
            network: network@,
            node_id: (match &node_id {
                None => None,
                Some(x) => Some(x@),
            }),
        },
        metrics: ProofMetricsView {
            block_height: block_height as int,
            sync_milli_percent: sync_milli_percent as int,
            uptime_milli_hours: uptime_milli_hours as int,
            peer_count: peer_count_wide as int,
            blocks_served: blocks_served as int,
        },
        halo2_proof: halo2_proof@,
        public_inputs: public_inputs.deep_view(),
        wallets: WalletsView { solana: solana@, zcash: zcash@ },
        signature: signature@,
    };
    proof {
        assert(s@.skip(p16 as int).len() == 0);
        assert(spec_decode(s@) == Some(decoded));
    }
    let record = Proof {
        version,
        timestamp,
        node_info: NodeInfo { zebra_version, zebra_binary_hash, network, node_id },
        metrics: ProofMetrics {
            block_height,
            sync_milli_percent,
            uptime_milli_hours,
            peer_count,
            blocks_served,
        },
        halo2_proof,
        public_inputs,
        wallets: Wallets { solana, zcash },
        signature,
    };
    proof {
        assert(record@ =~= decoded);
    }
    Ok(record)
}

/// Round-trip fidelity: decoding what `spec_encode` wrote gives back the
/// very record that was written, field by field, for every record whose
/// components fit their machine representation.
#[verifier::rlimit(100)]
pub proof fn lemma_round_trip(v: ProofView)
    requires
        wf_proof_view(v),
    ensures
        spec_decode(spec_encode(v)) == Some(v),
{
    let e16 = str_field("signature "@, v.signature);
    let e15 = str_field("zcash_address "@, v.wallets.zcash);
    let e14 = str_field("solana_wallet "@, v.wallets.solana);
    let e13 = list_field("public_inputs "@, v.public_inputs);
    let e12 = str_field("halo2_proof "@, v.halo2_proof);
    let e11 = u64_field("blocks_served "@, v.metrics.blocks_served);
    let e10 = u64_field("peer_count "@, v.metrics.peer_count);
    let e9 = u64_field("uptime_milli_hours "@, v.metrics.uptime_milli_hours);
    let e8 = u64_field("sync_milli_percent "@, v.metrics.sync_milli_percent);
    let e7 = u64_field("block_height "@, v.metrics.block_height);
    let e6 = opt_field("node_id "@, v.node_info.node_id);
    let e5 = str_field("network "@, v.node_info.network);
    let e4 = str_field("zebra_binary_hash "@, v.node_info.zebra_binary_hash);
    let e3 = str_field("zebra_version "@, v.node_info.zebra_version);
    let e2 = i64_field("timestamp "@, v.timestamp);
    let e1 = str_field("version "@, v.version);
    let r16 = Seq::<char>::empty();
    let r15 = e16 + r16;
    let r14 = e15 + r15;
    let r13 = e14 + r14;
    let r12 = e13 + r13;
    let r11 = e12 + r12;
    let r10 = e11 + r11;
    let r9 = e10 + r10;
    let r8 = e9 + r9;
    let r7 = e8 + r8;
    let r6 = e7 + r7;
    let r5 = e6 + r6;
    let r4 = e5 + r5;
    let r3 = e4 + r4;
    let r2 = e3 + r3;
    let r1 = e2 + r2;
    let r0 = e1 + r1;
    assert(e16 + r16 =~= e16);
    assert(spec_encode(v) =~= r0);
    lemma_parse_str_field("version "@, v.version, r1);
    lemma_parse_i64_field("timestamp "@, v.timestamp, r2);
    lemma_parse_str_field("zebra_version "@, v.node_info.zebra_version, r3);
    lemma_parse_str_field("zebra_binary_hash "@, v.node_info.zebra_binary_hash, r4);
    lemma_parse_str_field("network "@, v.node_info.network, r5);
    lemma_parse_opt_field("node_id "@, v.node_info.node_id, r6);
    lemma_parse_u64_field("block_height "@, v.metrics.block_height, r7);
    lemma_parse_u64_field("sync_milli_percent "@, v.metrics.sync_milli_percent, r8);
    lemma_parse_u64_field("uptime_milli_hours "@, v.metrics.uptime_milli_hours, r9);
    lemma_parse_u64_field("peer_count "@, v.metrics.peer_count, r10);
    lemma_parse_u64_field("blocks_served "@, v.metrics.blocks_served, r11);
    lemma_parse_str_field("halo2_proof "@, v.halo2_proof, r12);
    lemma_parse_list_field("public_inputs "@, v.public_inputs, r13);
    lemma_parse_str_field("solana_wallet "@, v.wallets.solana, r14);
    lemma_parse_str_field("zcash_address "@, v.wallets.zcash, r15);
    lemma_parse_str_field("signature "@, v.signature, r16);
    assert(NodeInfoView {
        zebra_version: v.node_info.zebra_version,
        zebra_binary_hash: v.node_info.zebra_binary_hash,
        network: v.node_info.network,
        node_id: v.node_info.node_id,
    } =~= v.node_info);
    assert(ProofMetricsView {
        block_height: v.metrics.block_height,
        sync_milli_percent: v.metrics.sync_milli_percent,
        uptime_milli_hours: v.metrics.uptime_milli_hours,
        peer_count: v.metrics.peer_count,
        blocks_served: v.metrics.blocks_served,
    } =~= v.metrics);
    assert(WalletsView { solana: v.wallets.solana, zcash: v.wallets.zcash } =~= v.wallets);
    assert(spec_decode(spec_encode(v)) == Some(v)) by {
        assert(spec_decode(r0) is Some);
        assert(spec_decode(r0)->0 =~= v);
    }
}

} // verus!
