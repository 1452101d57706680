//! Character and byte-sequence helpers shared by the report decoders.

use vstd::prelude::*;
use vstd::utf8::{encode_utf8, encode_scalar};

verus! {

/// Carriage return, the terminator of every ASCII reply.
pub const CR: u8 = 0x0d;

/// Appends one character to a string: std `String::push`.
/// Claims only what the std documentation states: the character is added at the end.
#[verifier::external_body]
pub(crate) fn push_char(s: &mut String, c: char)
    ensures
        final(s)@ == old(s)@.push(c),
{
    s.push(c);
}

/// Number of leading bytes of `s` up to and including its first carriage
/// return, or the whole length when there is none.
pub open spec fn cr_end(s: Seq<u8>) -> nat
    decreases s.len(),
{
    if s.len() == 0 {
        0
    } else if s[0] == CR {
        1
    } else {
        1 + cr_end(s.drop_first())
    }
}

/// The prefix of `s` through its first carriage return (all of `s` if none).
pub open spec fn through_first_cr(s: Seq<u8>) -> Seq<u8> {
    s.take(cr_end(s) as int)
}

pub proof fn lemma_cr_end_bounds(s: Seq<u8>)
    ensures
        cr_end(s) <= s.len(),
    decreases s.len(),
{
    if s.len() > 0 && s[0] != CR {
        lemma_cr_end_bounds(s.drop_first());
    }
}

/// `cr_end` is the position after the first carriage return, or the length.
pub proof fn lemma_cr_end_at(s: Seq<u8>, i: int)
    requires
        0 <= i <= s.len(),
        forall|j: int| 0 <= j < i ==> s[j] != CR,
        i < s.len() ==> s[i] == CR,
    ensures
        cr_end(s) == (if i < s.len() { i + 1 } else { i }),
    decreases i,
{
    if i > 0 {
        assert(s[0] != CR);
        let t = s.drop_first();
        assert forall|j: int| 0 <= j < i - 1 implies t[j] != CR by {
            assert(t[j] == s[j + 1]);
        }
        if i < s.len() {
            assert(t[i - 1] == s[i]);
        }
        lemma_cr_end_at(t, i - 1);
    }
}

/// Index of the first carriage return in `raw`, if any.
pub fn find_cr(raw: &[u8]) -> (r: Option<usize>)
    ensures
        match r {
            Some(i) => i < raw.len() && raw@[i as int] == CR && cr_end(raw@) == i + 1 && cr_pos(raw@) == i
                && forall|j: int| 0 <= j < i ==> raw@[j] != CR,
            None => cr_end(raw@) == raw@.len() && cr_pos(raw@) == raw@.len() && forall|j: int|
                0 <= j < raw@.len() ==> raw@[j] != CR,
        },
{
    let mut i: usize = 0;
    while i < raw.len()
        invariant
            i <= raw@.len(),
            forall|j: int| 0 <= j < i ==> raw@[j] != CR,
        decreases raw@.len() - i,
    {
        if raw[i] == CR {
            proof {
                lemma_cr_end_at(raw@, i as int);
                lemma_cr_pos_at(raw@, i as int);
            }
            return Some(i);
        }
        i = i + 1;
    }
    proof {
        lemma_cr_end_at(raw@, i as int);
        lemma_cr_pos_at(raw@, i as int);
    }
    None
}


/// Index of the first carriage return of `s`, or its length when there is none.
pub open spec fn cr_pos(s: Seq<u8>) -> nat
    decreases s.len(),
{
    if s.len() == 0 || s[0] == CR {
        0
    } else {
        1 + cr_pos(s.drop_first())
    }
}

pub proof fn lemma_cr_pos_at(s: Seq<u8>, i: int)
    requires
        0 <= i <= s.len(),
        forall|j: int| 0 <= j < i ==> s[j] != CR,
        i < s.len() ==> s[i] == CR,
    ensures
        cr_pos(s) == i,
    decreases i,
{
    if i > 0 {
        assert(s[0] != CR);
        let t = s.drop_first();
        assert forall|j: int| 0 <= j < i - 1 implies t[j] != CR by {
            assert(t[j] == s[j + 1]);
        }
        if i < s.len() {
            assert(t[i - 1] == s[i]);
        }
        lemma_cr_pos_at(t, i - 1);
    }
}

/// `cr_end` counts the terminator that `cr_pos` points at, when there is one.
pub proof fn lemma_cr_end_pos(s: Seq<u8>)
    ensures
        cr_pos(s) <= s.len(),
        cr_pos(s) < s.len() ==> s[cr_pos(s) as int] == CR && cr_end(s) == cr_pos(s) + 1,
        cr_pos(s) == s.len() ==> cr_end(s) == s.len(),
        forall|j: int| 0 <= j < cr_pos(s) ==> s[j] != CR,
    decreases s.len(),
{
    if s.len() > 0 && s[0] != CR {
        let t = s.drop_first();
        lemma_cr_end_pos(t);
        assert forall|j: int| 0 <= j < cr_pos(s) implies s[j] != CR by {
            if j > 0 {
                assert(s[j] == t[j - 1]);
            }
        }
    }
}

/// The character of a decimal digit.
pub open spec fn digit_char(d: int) -> char {
    (d + 48) as char
}

/// Decimal rendering of `n` without leading zeros (`{}` of an unsigned integer).
pub open spec fn decimal(n: nat) -> Seq<char>
    decreases n,
{
    if n < 10 {
        seq![digit_char(n as int)]
    } else {
        decimal(n / 10).push(digit_char((n % 10) as int))
    }
}

/// The character of a lowercase hexadecimal digit.
pub open spec fn hex_char(d: int) -> char {
    if d < 10 {
        (d + 48) as char
    } else {
        (d + 87) as char
    }
}

/// Two lowercase hexadecimal digits of a byte (`{:02x}`).
pub open spec fn hex2(b: u8) -> Seq<char> {
    seq![hex_char((b / 16) as int), hex_char((b % 16) as int)]
}

/// Appends the decimal rendering of `n`.
pub fn push_decimal(s: &mut String, n: u64)
    ensures
        final(s)@ == old(s)@ + decimal(n as nat),
    decreases n,
{
    if n >= 10 {
        push_decimal(s, n / 10);
    }
    let d: u8 = (n % 10) as u8;
    push_char(s, (d + 48) as char);
    proof {
        assert(n >= 10 ==> decimal(n as nat) == decimal((n / 10) as nat).push(digit_char((n % 10) as int)));
    }
}

/// Appends the hexadecimal digit `d` (`d < 16`).
pub fn push_hex_digit(s: &mut String, d: u8)
    requires
        d < 16,
    ensures
        final(s)@ == old(s)@.push(hex_char(d as int)),
{
    if d < 10 {
        push_char(s, (d + 48) as char);
    } else {
        push_char(s, (d + 87) as char);
    }
}

/// Appends the two lowercase hexadecimal digits of `b`.
pub fn push_hex2(s: &mut String, b: u8)
    ensures
        final(s)@ == old(s)@ + hex2(b),
{
    push_hex_digit(s, b / 16);
    push_hex_digit(s, b % 16);
    assert(hex2(b) =~= seq![hex_char((b / 16) as int), hex_char((b % 16) as int)]);
}


/// Unicode `White_Space`, the set `char::is_whitespace`, `str::trim` and
/// `str::split_whitespace` use.
pub open spec fn is_ws(c: char) -> bool {
    ||| '\t' <= c <= '\r'
    ||| c == ' '
    ||| c == '\u{85}'
    ||| c == '\u{A0}'
    ||| c == '\u{1680}'
    ||| '\u{2000}' <= c <= '\u{200A}'
    ||| c == '\u{2028}'
    ||| c == '\u{2029}'
    ||| c == '\u{202F}'
    ||| c == '\u{205F}'
    ||| c == '\u{3000}'
}

/// ASCII control characters (`char::is_ascii_control`).
pub open spec fn is_ascii_control(c: char) -> bool {
    c <= '\u{1F}' || c == '\u{7F}'
}

/// Character classes that text is trimmed by.
#[derive(Clone, Copy, Debug, PartialEq, Eq, Structural)]
pub enum CharClass {
    /// Unicode whitespace.
    Whitespace,
    /// ASCII control characters and Unicode whitespace.
    ControlOrWhitespace,
    /// The `#` character.
    Hash,
}

pub open spec fn in_class(c: char, k: CharClass) -> bool {
    match k {
        CharClass::Whitespace => is_ws(c),
        CharClass::ControlOrWhitespace => is_ascii_control(c) || is_ws(c),
        CharClass::Hash => c == '#',
    }
}

/// Whether `c` is Unicode whitespace.
pub fn char_is_ws(c: char) -> (b: bool)
    ensures
        b == is_ws(c),
{
    ('\t' <= c && c <= '\r') || c == ' ' || c == '\u{85}' || c == '\u{A0}' || c == '\u{1680}' || (
    '\u{2000}' <= c && c <= '\u{200A}') || c == '\u{2028}' || c == '\u{2029}' || c == '\u{202F}'
        || c == '\u{205F}' || c == '\u{3000}'
}

/// Whether `c` belongs to class `k`.
pub fn char_in_class(c: char, k: CharClass) -> (b: bool)
    ensures
        b == in_class(c, k),
{
    match k {
        CharClass::Whitespace => char_is_ws(c),
        CharClass::ControlOrWhitespace => c <= '\u{1F}' || c == '\u{7F}' || char_is_ws(c),
        CharClass::Hash => c == '#',
    }
}

/// `s` without its leading characters of class `k`.
pub open spec fn trim_start_by(s: Seq<char>, k: CharClass) -> Seq<char>
    decreases s.len(),
{
    if s.len() > 0 && in_class(s[0], k) {
        trim_start_by(s.drop_first(), k)
    } else {
        s
    }
}

/// `s` without its trailing characters of class `k`.
pub open spec fn trim_end_by(s: Seq<char>, k: CharClass) -> Seq<char>
    decreases s.len(),
{
    if s.len() > 0 && in_class(s.last(), k) {
        trim_end_by(s.drop_last(), k)
    } else {
        s
    }
}

/// `s` without its leading and trailing characters of class `k`
/// (`str::trim` for whitespace, `str::trim_matches` for the others).
pub open spec fn trim_by(s: Seq<char>, k: CharClass) -> Seq<char> {
    trim_end_by(trim_start_by(s, k), k)
}

/// `str::trim`.
pub open spec fn trim(s: Seq<char>) -> Seq<char> {
    trim_by(s, CharClass::Whitespace)
}

proof fn lemma_trim_start_at(s: Seq<char>, a: int, k: CharClass)
    requires
        0 <= a <= s.len(),
        forall|j: int| 0 <= j < a ==> in_class(s[j], k),
        a < s.len() ==> !in_class(s[a], k),
    ensures
        trim_start_by(s, k) == s.skip(a),
    decreases a,
{
    if a == 0 {
        assert(s.skip(0) =~= s);
    } else {
        let t = s.drop_first();
        assert forall|j: int| 0 <= j < a - 1 implies in_class(t[j], k) by {
            assert(t[j] == s[j + 1]);
        }
        if a < s.len() {
            assert(t[a - 1] == s[a]);
        }
        lemma_trim_start_at(t, a - 1, k);
        assert(t.skip(a - 1) =~= s.skip(a));
    }
}

proof fn lemma_trim_end_at(t: Seq<char>, b: int, k: CharClass)
    requires
        0 <= b <= t.len(),
        forall|j: int| b <= j < t.len() ==> in_class(t[j], k),
        b > 0 ==> !in_class(t[b - 1], k),
    ensures
        trim_end_by(t, k) == t.take(b),
    decreases t.len() - b,
{
    if b == t.len() {
        assert(t.take(b) =~= t);
    } else {
        let u = t.drop_last();
        assert forall|j: int| b <= j < u.len() implies in_class(u[j], k) by {
            assert(u[j] == t[j]);
        }
        if b > 0 {
            assert(u[b - 1] == t[b - 1]);
        }
        lemma_trim_end_at(u, b, k);
        assert(u.take(b) =~= t.take(b));
    }
}

/// Removes the leading and trailing characters of class `k`.
pub fn trim_class(s: &str, k: CharClass) -> (r: &str)
    ensures
        r@ == trim_by(s@, k),
{
    let n = s.unicode_len();
    let mut a: usize = 0;
    loop
        invariant
            n == s@.len(),
            a <= n,
            forall|j: int| 0 <= j < a ==> in_class(s@[j], k),
        ensures
            a <= n,
            forall|j: int| 0 <= j < a ==> in_class(s@[j], k),
            a < n ==> !in_class(s@[a as int], k),
        decreases n - a,
    {
        if a >= n {
            break;
        }
        if !char_in_class(s.get_char(a), k) {
            break;
        }
        a = a + 1;
    }
    let mut b: usize = n;
    loop
        invariant
            n == s@.len(),
            a <= b <= n,
            forall|j: int| b <= j < n ==> in_class(s@[j], k),
        ensures
            a <= b <= n,
            forall|j: int| b <= j < n ==> in_class(s@[j], k),
            b > a ==> !in_class(s@[b - 1], k),
        decreases b,
    {
        if b <= a {
            break;
        }
        if !char_in_class(s.get_char(b - 1), k) {
            break;
        }
        b = b - 1;
    }
    proof {
        lemma_trim_start_at(s@, a as int, k);
        let t = s@.skip(a as int);
        assert forall|j: int| b - a <= j < t.len() implies in_class(t[j], k) by {
            assert(t[j] == s@[a + j]);
        }
        if b > a {
            assert(t[b - a - 1] == s@[b - 1]);
        }
        lemma_trim_end_at(t, b - a, k);
        assert(t.take(b - a) =~= s@.subrange(a as int, b as int));
    }
    s.substring_char(a, b)
}

/// Removes the leading characters of class `k`.
pub fn trim_start_class(s: &str, k: CharClass) -> (r: &str)
    ensures
        r@ == trim_start_by(s@, k),
{
    let n = s.unicode_len();
    let mut a: usize = 0;
    loop
        invariant
            n == s@.len(),
            a <= n,
            forall|j: int| 0 <= j < a ==> in_class(s@[j], k),
        ensures
            a <= n,
            forall|j: int| 0 <= j < a ==> in_class(s@[j], k),
            a < n ==> !in_class(s@[a as int], k),
        decreases n - a,
    {
        if a >= n {
            break;
        }
        if !char_in_class(s.get_char(a), k) {
            break;
        }
        a = a + 1;
    }
    proof {
        lemma_trim_start_at(s@, a as int, k);
        assert(s@.skip(a as int) =~= s@.subrange(a as int, n as int));
    }
    s.substring_char(a, n)
}


/// The whitespace-separated words of `s` (`str::split_whitespace`).
pub open spec fn words(s: Seq<char>) -> Seq<Seq<char>>
    decreases s.len(),
{
    if s.len() == 0 {
        Seq::empty()
    } else {
        let w = words(s.drop_last());
        let c = s.last();
        if is_ws(c) {
            w
        } else if s.len() >= 2 && !is_ws(s[s.len() - 2]) {
            w.update(w.len() - 1, w.last().push(c))
        } else {
            w.push(seq![c])
        }
    }
}

/// The views of a vector of strings.
pub open spec fn views(v: Seq<String>) -> Seq<Seq<char>> {
    v.map_values(|x: String| x@)
}

/// Splits `s` into its whitespace-separated words.
pub fn split_words(s: &str) -> (r: Vec<String>)
    ensures
        views(r@) == words(s@),
{
    let n = s.unicode_len();
    let mut done: Vec<String> = Vec::new();
    let mut cur = String::new();
    let mut in_word = false;
    let mut i: usize = 0;
    while i < n
        invariant
            n == s@.len(),
            i <= n,
            in_word == (i > 0 && !is_ws(s@[i - 1])),
            in_word ==> cur@.len() > 0,
            words(s@.take(i as int)) == (if in_word {
                views(done@).push(cur@)
            } else {
                views(done@)
            }),
        decreases n - i,
    {
        let c = s.get_char(i);
        let ghost prev = s@.take(i as int);
        assert(s@.take(i + 1).drop_last() == prev);
        assert(s@.take(i + 1).last() == c);
        if char_is_ws(c) {
            if in_word {
                let ghost d0 = done@;
                let w = cur;
                cur = String::new();
                done.push(w);
                assert(views(done@) =~= views(d0).push(w@));
            }
            in_word = false;
        } else {
            if in_word {
                assert(s@.take(i + 1)[i - 1] == s@[i - 1]);
                let ghost c0 = cur@;
                push_char(&mut cur, c);
                assert(views(done@).push(c0).update(views(done@).len() as int, c0.push(c))
                    =~= views(done@).push(cur@));
            } else {
                cur = String::new();
                push_char(&mut cur, c);
                assert(cur@ =~= seq![c]);
            }
            in_word = true;
        }
        i = i + 1;
    }
    assert(s@.take(n as int) == s@);
    if in_word {
        let ghost d0 = done@;
        let ghost c0 = cur@;
        done.push(cur);
        assert(views(done@) =~= views(d0).push(c0));
    }
    done
}


/// `{:?}` of a string: what std's `Debug` for `str` renders (quoted, escaped).
pub uninterp spec fn debug_str(s: Seq<char>) -> Seq<char>;

/// std's `Debug` rendering of a string (`format!("{s:?}")`); the result is
/// named by `debug_str`, nothing more is claimed.
#[verifier::external_body]
pub(crate) fn debug_quoted(s: &str) -> (r: String)
    ensures
        r@ == debug_str(s@),
{
    format!("{s:?}")
}

/// Why an integer did not parse (std `IntErrorKind`).
#[derive(Clone, Copy, Debug, PartialEq, Eq, Structural)]
pub enum IntErrorKind {
    Empty,
    InvalidDigit,
    PosOverflow,
}

/// std's message for each kind (`ParseIntError`'s `Display`).
pub open spec fn int_error_message(k: IntErrorKind) -> Seq<char> {
    match k {
        IntErrorKind::Empty => "cannot parse integer from empty string"@,
        IntErrorKind::InvalidDigit => "invalid digit found in string"@,
        IntErrorKind::PosOverflow => "number too large to fit in target type"@,
    }
}

/// The message of an integer error.
pub fn int_error_text(k: IntErrorKind) -> (s: &'static str)
    ensures
        s@ == int_error_message(k),
{
    match k {
        IntErrorKind::Empty => "cannot parse integer from empty string",
        IntErrorKind::InvalidDigit => "invalid digit found in string",
        IntErrorKind::PosOverflow => "number too large to fit in target type",
    }
}

/// Value of digit `c` in base `radix` (`char::to_digit`): `0-9`, then letters
/// of either case from 10 up; `None` when it is not below `radix`.
pub open spec fn digit_value(c: char, radix: nat) -> Option<nat> {
    let v: int = if '0' <= c <= '9' {
        c as int - 48
    } else if 'a' <= c <= 'z' {
        c as int - 97 + 10
    } else if 'A' <= c <= 'Z' {
        c as int - 65 + 10
    } else {
        100
    };
    if v < radix {
        Some(v as nat)
    } else {
        None
    }
}

/// Reads the digits of `s` left to right onto `acc`: an invalid digit is
/// reported where it stands, before any overflow; a value above `max` is an
/// overflow.
pub open spec fn parse_digits(s: Seq<char>, radix: nat, max: nat, acc: nat) -> Result<nat, IntErrorKind>
    decreases s.len(),
{
    if s.len() == 0 {
        Ok(acc)
    } else {
        match digit_value(s[0], radix) {
            None => Err(IntErrorKind::InvalidDigit),
            Some(d) => if acc * radix + d > max {
                Err(IntErrorKind::PosOverflow)
            } else {
                parse_digits(s.drop_first(), radix, max, acc * radix + d)
            },
        }
    }
}

/// An unsigned integer in base `radix` at most `max` (`from_str_radix` of an
/// unsigned type): an optional leading `+`, then at least one digit.
pub open spec fn parse_uint(s: Seq<char>, radix: nat, max: nat) -> Result<nat, IntErrorKind> {
    if s.len() == 0 {
        Err(IntErrorKind::Empty)
    } else if s.len() == 1 && (s[0] == '+' || s[0] == '-') {
        Err(IntErrorKind::InvalidDigit)
    } else if s[0] == '+' {
        parse_digits(s.drop_first(), radix, max, 0)
    } else {
        parse_digits(s, radix, max, 0)
    }
}

fn digit_of(c: char, radix: u32) -> (r: Option<u32>)
    requires
        2 <= radix <= 36,
    ensures
        match digit_value(c, radix as nat) {
            Some(d) => r == Some(d as u32),
            None => r is None,
        },
{
    let v: u32 = if '0' <= c && c <= '9' {
        (c as u32) - 48
    } else if 'a' <= c && c <= 'z' {
        (c as u32) - 97 + 10
    } else if 'A' <= c && c <= 'Z' {
        (c as u32) - 65 + 10
    } else {
        100
    };
    if v < radix {
        Some(v)
    } else {
        None
    }
}

proof fn lemma_parse_digits_bound(s: Seq<char>, radix: nat, max: nat, acc: nat)
    requires
        acc <= max,
    ensures
        parse_digits(s, radix, max, acc) matches Ok(v) ==> v <= max,
    decreases s.len(),
{
    if s.len() > 0 {
        if let Some(d) = digit_value(s[0], radix) {
            if acc * radix + d <= max {
                lemma_parse_digits_bound(s.drop_first(), radix, max, acc * radix + d);
            }
        }
    }
}

/// Parses an unsigned integer in base `radix` not above `max`.
pub fn parse_uint_str(s: &str, radix: u32, max: u32) -> (r: Result<u32, IntErrorKind>)
    requires
        2 <= radix <= 36,
        max <= 0xffff,
    ensures
        match parse_uint(s@, radix as nat, max as nat) {
            Ok(v) => r == Ok::<u32, IntErrorKind>(v as u32) && v <= max,
            Err(e) => r == Err::<u32, IntErrorKind>(e),
        },
{
    let n = s.unicode_len();
    if n == 0 {
        return Err(IntErrorKind::Empty);
    }
    let first = s.get_char(0);
    if n == 1 && (first == '+' || first == '-') {
        return Err(IntErrorKind::InvalidDigit);
    }
    let mut i: usize = if first == '+' {
        1
    } else {
        0
    };
    let ghost digits = s@.skip(i as int);
    proof {
        assert(s@.skip(0) =~= s@);
        assert(s@.skip(1) =~= s@.drop_first());
    }
    let mut acc: u32 = 0;
    while i < n
        invariant
            n == s@.len(),
            i <= n,
            2 <= radix <= 36,
            max <= 0xffff,
            acc <= max,
            parse_uint(s@, radix as nat, max as nat) == parse_digits(
                s@.skip(i as int),
                radix as nat,
                max as nat,
                acc as nat,
            ),
        decreases n - i,
    {
        let c = s.get_char(i);
        assert(s@.skip(i as int)[0] == c);
        assert(s@.skip(i as int).drop_first() =~= s@.skip(i + 1));
        match digit_of(c, radix) {
            None => {
                return Err(IntErrorKind::InvalidDigit);
            },
            Some(d) => {
                assert(acc * radix <= 0xffff * 36) by (nonlinear_arith)
                    requires acc <= 0xffff, radix <= 36;
                let next = acc * radix + d;
                if next > max {
                    return Err(IntErrorKind::PosOverflow);
                }
                acc = next;
            },
        }
        i = i + 1;
    }
    assert(s@.skip(n as int).len() == 0);
    Ok(acc)
}

/// Index of the first `c` in `s`.
pub open spec fn first_index(s: Seq<char>, c: char) -> Option<nat>
    decreases s.len(),
{
    if s.len() == 0 {
        None
    } else if s[0] == c {
        Some(0)
    } else {
        match first_index(s.drop_first(), c) {
            Some(i) => Some(i + 1),
            None => None,
        }
    }
}

pub proof fn lemma_first_index_at(s: Seq<char>, c: char, i: int)
    requires
        0 <= i <= s.len(),
        forall|j: int| 0 <= j < i ==> s[j] != c,
        i < s.len() ==> s[i] == c,
    ensures
        first_index(s, c) == (if i < s.len() { Some(i as nat) } else { None::<nat> }),
    decreases i,
{
    if i > 0 {
        let t = s.drop_first();
        assert forall|j: int| 0 <= j < i - 1 implies t[j] != c by {
            assert(t[j] == s[j + 1]);
        }
        if i < s.len() {
            assert(t[i - 1] == s[i]);
        }
        lemma_first_index_at(t, c, i - 1);
    }
}

/// `str::split_once(c)`: the text before and after the first `c`.
pub open spec fn split_once(s: Seq<char>, c: char) -> Option<(Seq<char>, Seq<char>)> {
    match first_index(s, c) {
        Some(i) => Some((s.take(i as int), s.skip(i as int + 1))),
        None => None,
    }
}

/// What `split_once` gives back: `s` is the text before, `c`, and the text
/// after, with no `c` before it; without a split, `s` holds no `c`.
pub proof fn lemma_split_once(s: Seq<char>, c: char)
    ensures
        match split_once(s, c) {
            Some((a, b)) => s == a + seq![c] + b && forall|j: int| 0 <= j < a.len() ==> a[j] != c,
            None => forall|j: int| 0 <= j < s.len() ==> s[j] != c,
        },
        first_index(s, c) matches Some(i) ==> i < s.len(),
    decreases s.len(),
{
    if s.len() > 0 {
        let t = s.drop_first();
        lemma_split_once(t, c);
        if s[0] == c {
            assert(s =~= s.take(0) + seq![c] + s.skip(1));
        } else {
            match first_index(t, c) {
                Some(i0) => {
                    let i = i0 as int;
                    assert(s.take(i + 1) =~= seq![s[0]] + t.take(i));
                    assert(s.skip(i + 2) =~= t.skip(i + 1));
                    assert(t[i] == (t.take(i) + seq![c] + t.skip(i + 1))[i]);
                    assert(s[i + 1] == t[i]);
                    assert(s =~= s.take(i + 1) + seq![c] + s.skip(i + 2));
                    let a = s.take(i + 1);
                    assert forall|j: int| 0 <= j < a.len() implies a[j] != c by {
                        if j > 0 {
                            assert(a[j] == t.take(i)[j - 1]);
                        }
                    }
                },
                None => {
                    assert forall|j: int| 0 <= j < s.len() implies s[j] != c by {
                        if j > 0 {
                            assert(s[j] == t[j - 1]);
                        }
                    }
                },
            }
        }
    }
}

/// Splits `s` at the first `c`.
pub fn split_once_char(s: &str, c: char) -> (r: Option<(&str, &str)>)
    ensures
        match split_once(s@, c) {
            Some((a, b)) => r matches Some((x, y)) && x@ == a && y@ == b,
            None => r is None,
        },
{
    let n = s.unicode_len();
    let mut i: usize = 0;
    while i < n
        invariant
            n == s@.len(),
            i <= n,
            forall|j: int| 0 <= j < i ==> s@[j] != c,
        decreases n - i,
    {
        if s.get_char(i) == c {
            proof {
                lemma_first_index_at(s@, c, i as int);
                assert(s@.take(i as int) =~= s@.subrange(0, i as int));
                assert(s@.skip(i + 1) =~= s@.subrange(i + 1, n as int));
            }
            return Some((s.substring_char(0, i), s.substring_char(i + 1, n)));
        }
        i = i + 1;
    }
    proof {
        lemma_first_index_at(s@, c, i as int);
    }
    None
}


/// Lexicographic order of texts, character by character: `str`'s order
/// (for UTF-8 text, the same as comparing the bytes).
pub open spec fn text_lt(a: Seq<char>, b: Seq<char>) -> bool
    decreases a.len(),
{
    if b.len() == 0 {
        false
    } else if a.len() == 0 {
        true
    } else if a[0] != b[0] {
        a[0] < b[0]
    } else {
        text_lt(a.drop_first(), b.drop_first())
    }
}

/// `text_lt` is a strict total order.
pub proof fn lemma_text_lt_order(a: Seq<char>, b: Seq<char>, c: Seq<char>)
    ensures
        !text_lt(a, a),
        text_lt(a, b) ==> !text_lt(b, a),
        text_lt(a, b) && text_lt(b, c) ==> text_lt(a, c),
        a != b ==> text_lt(a, b) || text_lt(b, a),
    decreases a.len(),
{
    if a.len() > 0 {
        lemma_text_lt_order(a.drop_first(), b.drop_first(), c.drop_first());
        if b.len() > 0 && a[0] == b[0] && a.drop_first() == b.drop_first() {
            assert(a =~= seq![a[0]] + a.drop_first());
            assert(b =~= seq![b[0]] + b.drop_first());
        }
    } else if b.len() == 0 {
        assert(a =~= b);
    }
}

/// Whether `a` sorts before `b`.
pub fn str_lt(a: &str, b: &str) -> (r: bool)
    ensures
        r == text_lt(a@, b@),
{
    let n = a.unicode_len();
    let m = b.unicode_len();
    let mut i: usize = 0;
    assert(a@.skip(0) =~= a@);
    assert(b@.skip(0) =~= b@);
    while i < n && i < m
        invariant
            n == a@.len(),
            m == b@.len(),
            i <= n,
            i <= m,
            text_lt(a@, b@) == text_lt(a@.skip(i as int), b@.skip(i as int)),
        decreases n - i,
    {
        let x = a.get_char(i);
        let y = b.get_char(i);
        assert(a@.skip(i as int)[0] == x);
        assert(b@.skip(i as int)[0] == y);
        if x != y {
            return x < y;
        }
        assert(a@.skip(i as int).drop_first() =~= a@.skip(i + 1));
        assert(b@.skip(i as int).drop_first() =~= b@.skip(i + 1));
        i = i + 1;
    }
    i < m
}

/// UTF-8 encoding distributes over concatenation.
pub proof fn lemma_encode_utf8_concat(a: Seq<char>, b: Seq<char>)
    ensures
        encode_utf8(a + b) == encode_utf8(a) + encode_utf8(b),
    decreases a.len(),
{
    if a.len() == 0 {
        assert(a + b =~= b);
        assert(encode_utf8(a) + encode_utf8(b) =~= encode_utf8(b));
    } else {
        assert((a + b).drop_first() =~= a.drop_first() + b);
        lemma_encode_utf8_concat(a.drop_first(), b);
        assert(encode_utf8(a + b) =~= encode_utf8(a) + encode_utf8(b));
    }
}

/// Whether the UTF-8 encoding of `s` is longer than `limit` bytes.
pub fn utf8_len_exceeds(s: &str, limit: usize) -> (b: bool)
    ensures
        b == (encode_utf8(s@).len() > limit),
{
    let n = s.unicode_len();
    let mut count: usize = 0;
    let mut i: usize = 0;
    while i < n
        invariant
            n == s@.len(),
            i <= n,
            count == encode_utf8(s@.take(i as int)).len(),
            count <= limit,
        decreases n - i,
    {
        let c = s.get_char(i);
        let v = c as u32;
        let w: usize = if v <= 0x7f {
            1
        } else if v <= 0x7ff {
            2
        } else if v <= 0xffff {
            3
        } else {
            4
        };
        proof {
            let a = s@.take(i as int);
            assert(s@.take(i + 1) =~= a + seq![c]);
            lemma_encode_utf8_concat(a, seq![c]);
            let one = seq![c];
            assert(one.drop_first() =~= Seq::<char>::empty());
            assert(encode_utf8(one.drop_first()) =~= Seq::<u8>::empty());
            assert(encode_utf8(one) == encode_scalar(one[0] as u32) + encode_utf8(one.drop_first()));
            assert(encode_utf8(one) =~= encode_scalar(c as u32));
        }
        if w > limit - count {
            proof {
                let t = s@.take(i + 1);
                assert(s@ =~= t + s@.skip(i + 1));
                lemma_encode_utf8_concat(t, s@.skip(i + 1));
            }
            return true;
        }
        count = count + w;
        i = i + 1;
    }
    assert(s@.take(n as int) =~= s@);
    false
}

} // verus!
