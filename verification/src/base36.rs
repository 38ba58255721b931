//! Four-digit base-36 identifiers (`0`–`9`, `A`–`Z`).
use vstd::prelude::*;

use crate::text::{chars_of, string_of, upper};

verus! {

/// The digit alphabet, in value order.
pub open spec fn digit_of(d: int) -> char {
    if d < 10 {
        (('0' as u32) + d) as char
    } else {
        (('A' as u32) + (d - 10)) as char
    }
}

/// The value of a base-36 digit, or `-1` for any other character.
pub open spec fn value_of(c: char) -> int {
    let u = c as u32;
    if '0' as u32 <= u <= '9' as u32 {
        u - ('0' as u32)
    } else if 'A' as u32 <= u <= 'Z' as u32 {
        u - ('A' as u32) + 10
    } else {
        -1
    }
}

/// The four base-36 digits of `n` modulo 36⁴, most significant first.
pub open spec fn base36_4(n: nat) -> Seq<char> {
    seq![
        digit_of(((n / (36 * 36 * 36)) % 36) as int),
        digit_of(((n / (36 * 36)) % 36) as int),
        digit_of(((n / 36) % 36) as int),
        digit_of((n % 36) as int),
    ]
}

fn digit_char(d: u32) -> (c: char)
    requires
        d < 36,
    ensures
        c == digit_of(d as int),
{
    let table: [char; 36] = [
        '0', '1', '2', '3', '4', '5', '6', '7', '8', '9', 'A', 'B', 'C', 'D', 'E', 'F', 'G', 'H',
        'I', 'J', 'K', 'L', 'M', 'N', 'O', 'P', 'Q', 'R', 'S', 'T', 'U', 'V', 'W', 'X', 'Y', 'Z',
    ];
    let c = table[d as usize];
    assert(c == digit_of(d as int)) by {
        assert(table@[d as int] == c);
    }
    c
}

/// Writes `num` as four base-36 digits; higher digits are dropped.
pub fn u32_to_base36(num: u32) -> (r: String)
    ensures
        r@ == base36_4(num as nat),
{
    let mut digits: [char; 4] = ['0'; 4];
    let mut n = num;
    let mut i: usize = 4;
    assert(pow36(0) == 1);
    while i > 0
        invariant
            i <= 4,
            n as nat == (num as nat) / pow36((4 - i) as nat),
            forall|j: int|
                i <= j < 4 ==> digits@[j] == digit_of(
                    (((num as nat) / pow36((3 - j) as nat)) % 36) as int,
                ),
        decreases i,
    {
        i = i - 1;
        let c = digit_char(n % 36);
        digits[i] = c;
        proof {
            lemma_pow36_step((3 - i) as nat, num as nat);
        }
        n = n / 36;
    }
    proof {
        assert(pow36(0) == 1);
        assert(pow36(1) == 36);
        assert(pow36(2) == 36 * 36);
        assert(pow36(3) == 36 * 36 * 36);
        assert(digits@[0] == digit_of((((num as nat) / pow36(3)) % 36) as int));
        assert(digits@[1] == digit_of((((num as nat) / pow36(2)) % 36) as int));
        assert(digits@[2] == digit_of((((num as nat) / pow36(1)) % 36) as int));
        assert(digits@[3] == digit_of((((num as nat) / pow36(0)) % 36) as int));
    }
    let r = string_of(&digits);
    assert(r@ =~= base36_4(num as nat));
    r
}

pub open spec fn pow36(k: nat) -> nat
    decreases k,
{
    if k == 0 {
        1
    } else {
        36 * pow36((k - 1) as nat)
    }
}

proof fn lemma_pow36_step(k: nat, n: nat)
    ensures
        (n / pow36(k)) / 36 == n / pow36(k + 1),
        pow36(k) > 0,
    decreases k,
{
    assert(pow36(k + 1) == 36 * pow36(k));
    lemma_pow36_pos(k);
    vstd::arithmetic::div_mod::lemma_div_denominator(n as int, pow36(k) as int, 36);
    assert(pow36(k) * 36 == 36 * pow36(k)) by (nonlinear_arith);
}

proof fn lemma_pow36_pos(k: nat)
    ensures
        pow36(k) > 0,
    decreases k,
{
    if k > 0 {
        lemma_pow36_pos((k - 1) as nat);
    }
}

/// Number of leading characters that are base-36 digits.
pub open spec fn digit_prefix_len(s: Seq<char>) -> nat
    decreases s.len(),
{
    if s.len() > 0 && value_of(s[0]) >= 0 {
        1 + digit_prefix_len(s.drop_first())
    } else {
        0
    }
}

/// The number a sequence of base-36 digits denotes.
pub open spec fn digits_value(s: Seq<char>) -> nat
    decreases s.len(),
{
    if s.len() == 0 {
        0
    } else {
        digits_value(s.drop_last()) * 36 + value_of(s.last()) as nat
    }
}

/// The error message for a character outside the alphabet.
pub open spec fn invalid_char_message() -> Seq<char> {
    "Invalid base36 character"@
}

/// Inputs on which the conversion neither indexes past its 256-entry table
/// (a character of value 256 or more met before any other invalid one) nor
/// overflows `u32` while accumulating.
pub open spec fn digits_convertible(s: Seq<char>) -> bool {
    let k = digit_prefix_len(s);
    &&& (k < s.len() ==> (s[k as int] as u32) < 256)
    &&& digits_value(s.take(k as int)) <= u32::MAX
}

/// The conversion of characters that are already upper case.
pub open spec fn digits_result(s: Seq<char>) -> Result<nat, ()> {
    if digit_prefix_len(s) == s.len() {
        Ok(digits_value(s))
    } else {
        Err(())
    }
}

proof fn lemma_prefix_step(s: Seq<char>, i: int)
    requires
        0 <= i < s.len(),
        digit_prefix_len(s) == i + digit_prefix_len(s.skip(i)),
        value_of(s[i]) >= 0,
    ensures
        digit_prefix_len(s) == (i + 1) + digit_prefix_len(s.skip(i + 1)),
{
    assert(s.skip(i).drop_first() =~= s.skip(i + 1));
}

proof fn lemma_value_monotone(s: Seq<char>, i: int, j: int)
    requires
        0 <= i <= j <= s.len(),
    ensures
        digits_value(s.take(i)) <= digits_value(s.take(j)),
    decreases j - i,
{
    if i < j {
        lemma_value_monotone(s, i, j - 1);
        assert(s.take(j).drop_last() =~= s.take(j - 1));
    }
}

/// Converts upper-case base-36 text; fails on the first character outside
/// the alphabet.
pub fn upper_base36_to_u32(s: &[char]) -> (r: Result<u32, &'static str>)
    requires
        digits_convertible(s@),
    ensures
        match digits_result(s@) {
            Ok(v) => r == Ok::<u32, &'static str>(v as u32) && v <= u32::MAX,
            Err(_) => r matches Err(e) && e@ == invalid_char_message(),
        },
{
    let mut result: u32 = 0;
    let mut i: usize = 0;
    proof {
        assert(s@.skip(0) =~= s@);
        lemma_digit_prefix_bound(s@);
        lemma_value_monotone(s@, 0, digit_prefix_len(s@) as int);
    }
    while i < s.len()
        invariant
            i <= s@.len(),
            digits_convertible(s@),
            digit_prefix_len(s@) == i + digit_prefix_len(s@.skip(i as int)),
            result as nat == digits_value(s@.take(i as int)),
        decreases s.len() - i,
    {
        let c = s[i];
        let u = c as u32;
        let value: u32 = if 48 <= u && u <= 57 {
            u - 48
        } else if 65 <= u && u <= 90 {
            u - 55
        } else {
            proof {
                assert(s@.skip(i as int)[0] == c);
                assert(digit_prefix_len(s@) == i);
            }
            let msg = "Invalid base36 character";
            proof {
                reveal_strlit("Invalid base36 character");
            }
            return Err(msg);
        };
        proof {
            lemma_prefix_step(s@, i as int);
            lemma_digit_prefix_bound(s@.skip(i + 1));
            assert(i + 1 <= digit_prefix_len(s@));
            lemma_value_monotone(s@, i + 1, digit_prefix_len(s@) as int);
            assert(s@.take(i + 1).drop_last() =~= s@.take(i as int));
            assert(digits_value(s@.take(i + 1)) == digits_value(s@.take(i as int)) * 36
                + value as nat);
        }
        result = result * 36 + value;
        i = i + 1;
    }
    proof {
        assert(s@.take(i as int) =~= s@);
        assert(s@.skip(i as int).len() == 0);
    }
    Ok(result)
}

proof fn lemma_digit_prefix_bound(s: Seq<char>)
    ensures
        digit_prefix_len(s) <= s.len(),
    decreases s.len(),
{
    if s.len() > 0 && value_of(s[0]) >= 0 {
        lemma_digit_prefix_bound(s.drop_first());
    }
}

/// What `str::to_uppercase` returns for a sequence of characters.
pub uninterp spec fn unicode_uppercase(s: Seq<char>) -> Seq<char>;

/// Calls `str::to_uppercase`. Its documentation defines the result by the
/// Unicode `Uppercase` mapping; the contract names that result and states
/// only what the mapping is on ASCII text: each letter `a`–`z` becomes
/// `A`–`Z` and every other ASCII character is kept. What it does to other
/// characters is left unsaid.
#[verifier::external_body]
fn str_to_uppercase(s: &str) -> (r: String)
    ensures
        r@ == unicode_uppercase(s@),
        (forall|i: int| 0 <= i < s@.len() ==> (s@[i] as u32) < 128) ==> r@ == s@.map_values(
            |c: char| upper(c),
        ),
{
    s.to_uppercase()
}

/// ASCII text upper-cased letter by letter.
pub open spec fn ascii_upper(s: Seq<char>) -> Seq<char> {
    s.map_values(|c: char| upper(c))
}

/// Whether every character is ASCII.
pub open spec fn all_ascii(s: Seq<char>) -> bool {
    forall|i: int| 0 <= i < s.len() ==> (s[i] as u32) < 128
}

/// Parses base-36 text, case-insensitively. On ASCII text the upper-casing
/// is `a`–`z` to `A`–`Z`, so the result is that of the digits read from it.
pub fn base36_to_u32(input: &str) -> (r: Result<u32, &'static str>)
    requires
        digits_convertible(unicode_uppercase(input@)),
    ensures
        match digits_result(unicode_uppercase(input@)) {
            Ok(v) => r == Ok::<u32, &'static str>(v as u32),
            Err(_) => r matches Err(e) && e@ == invalid_char_message(),
        },
        all_ascii(input@) ==> match digits_result(ascii_upper(input@)) {
            Ok(v) => r == Ok::<u32, &'static str>(v as u32),
            Err(_) => r matches Err(e) && e@ == invalid_char_message(),
        },
{
    let up = str_to_uppercase(input);
    let cs = chars_of(up.as_str());
    upper_base36_to_u32(cs.as_slice())
}

/// `base36_to_u32` on every input: `None` exactly where the conversion would
/// index past its table or overflow `u32`.
pub fn try_base36_to_u32(input: &str) -> (r: Option<Result<u32, &'static str>>)
    ensures
        r is None <==> !digits_convertible(unicode_uppercase(input@)),
        r matches Some(res) ==> match digits_result(unicode_uppercase(input@)) {
            Ok(v) => res == Ok::<u32, &'static str>(v as u32),
            Err(_) => res matches Err(e) && e@ == invalid_char_message(),
        },
        all_ascii(input@) ==> (r is None <==> !digits_convertible(ascii_upper(input@))),
        all_ascii(input@) ==> (r matches Some(res) ==> match digits_result(ascii_upper(input@)) {
            Ok(v) => res == Ok::<u32, &'static str>(v as u32),
            Err(_) => res matches Err(e) && e@ == invalid_char_message(),
        }),
{
    let up = str_to_uppercase(input);
    let cs = chars_of(up.as_str());
    if !convertible(cs.as_slice()) {
        return None;
    }
    Some(base36_to_u32(input))
}

fn convertible(s: &[char]) -> (b: bool)
    ensures
        b == digits_convertible(s@),
{
    let mut acc: u64 = 0;
    let mut i: usize = 0;
    assert(s@.skip(0) =~= s@);
    while i < s.len()
        invariant
            i <= s@.len(),
            digit_prefix_len(s@) == i + digit_prefix_len(s@.skip(i as int)),
            acc as nat == digits_value(s@.take(i as int)),
            acc <= u32::MAX,
        decreases s.len() - i,
    {
        let c = s[i];
        let u = c as u32;
        let value: u64 = if 48 <= u && u <= 57 {
            (u - 48) as u64
        } else if 65 <= u && u <= 90 {
            (u - 55) as u64
        } else {
            proof {
                assert(s@.skip(i as int)[0] == c);
                assert(digit_prefix_len(s@) == i);
            }
            return u < 256;
        };
        proof {
            lemma_prefix_step(s@, i as int);
            assert(s@.take(i + 1).drop_last() =~= s@.take(i as int));
        }
        acc = acc * 36 + value;
        i = i + 1;
        if acc > 0xffff_ffff {
            proof {
                lemma_digit_prefix_bound(s@.skip(i as int));
                lemma_value_monotone(s@, i as int, digit_prefix_len(s@) as int);
            }
            return false;
        }
    }
    assert(s@.take(i as int) =~= s@);
    true
}

} // verus!

verus! {

proof fn lemma_digit_value(d: int)
    requires
        0 <= d < 36,
    ensures
        value_of(digit_of(d)) == d,
{
}

/// Reading back the four digits that `u32_to_base36` writes for `n` gives
/// `n` modulo 36⁴: every written character is a digit, and their value is
/// that remainder.
pub proof fn law_base36_round_trip(n: nat)
    ensures
        digit_prefix_len(base36_4(n)) == 4,
        digits_convertible(base36_4(n)),
        digits_result(base36_4(n)) == Ok::<nat, ()>(n % (36 * 36 * 36 * 36)),
{
    let s = base36_4(n);
    let d0 = ((n / (36 * 36 * 36)) % 36) as int;
    let d1 = ((n / (36 * 36)) % 36) as int;
    let d2 = ((n / 36) % 36) as int;
    let d3 = (n % 36) as int;
    lemma_digit_value(d0);
    lemma_digit_value(d1);
    lemma_digit_value(d2);
    lemma_digit_value(d3);
    assert(s.drop_first().drop_first().drop_first().drop_first().len() == 0);
    reveal_with_fuel(digit_prefix_len, 5);
    assert(s.drop_first() =~= seq![s[1], s[2], s[3]]);
    assert(s.drop_first().drop_first() =~= seq![s[2], s[3]]);
    assert(s.drop_first().drop_first().drop_first() =~= seq![s[3]]);
    assert(digit_prefix_len(s) == 4);
    assert(s.take(4) =~= s);
    reveal_with_fuel(digits_value, 5);
    assert(s.drop_last() =~= seq![s[0], s[1], s[2]]);
    assert(s.drop_last().drop_last() =~= seq![s[0], s[1]]);
    assert(s.drop_last().drop_last().drop_last() =~= seq![s[0]]);
    assert(s.drop_last().drop_last().drop_last().drop_last() =~= Seq::<char>::empty());
    assert(digits_value(s) == ((d0 * 36 + d1) * 36 + d2) * 36 + d3);
    lemma_four_digits(n);
}

proof fn lemma_four_digits(n: nat)
    ensures
        ((((n / (36 * 36 * 36)) % 36) * 36 + ((n / (36 * 36)) % 36)) * 36 + ((n / 36) % 36)) * 36
            + (n % 36) == n % (36 * 36 * 36 * 36),
{
    let a = n / 36;
    let b = a / 36;
    let c = b / 36;
    vstd::arithmetic::div_mod::lemma_fundamental_div_mod(n as int, 36);
    vstd::arithmetic::div_mod::lemma_fundamental_div_mod(a as int, 36);
    vstd::arithmetic::div_mod::lemma_fundamental_div_mod(b as int, 36);
    vstd::arithmetic::div_mod::lemma_fundamental_div_mod(c as int, 36);
    vstd::arithmetic::div_mod::lemma_div_denominator(n as int, 36, 36);
    vstd::arithmetic::div_mod::lemma_div_denominator(n as int, 36 * 36 as int, 36);
    assert(n / (36 * 36) == b);
    assert(n / (36 * 36 * 36) == c);
    assert(n == c * (36 * 36 * 36) + (((c % 36) * 36 + (b % 36)) * 36 + (a % 36)) * 36 + (n % 36)
        - (c % 36) * (36 * 36 * 36)) by (nonlinear_arith)
        requires
            n == a * 36 + n % 36,
            a == b * 36 + a % 36,
            b == c * 36 + b % 36,
    ;
    let r = (((c % 36) * 36 + (b % 36)) * 36 + (a % 36)) * 36 + (n % 36);
    assert(0 <= r < 36 * 36 * 36 * 36) by (nonlinear_arith)
        requires
            r == (((c % 36) * 36 + (b % 36)) * 36 + (a % 36)) * 36 + (n % 36),
            0 <= c % 36 < 36,
            0 <= b % 36 < 36,
            0 <= a % 36 < 36,
            0 <= n % 36 < 36,
    ;
    assert(n == (c / 36) * (36 * 36 * 36 * 36) + r) by (nonlinear_arith)
        requires
            n == a * 36 + n % 36,
            a == b * 36 + a % 36,
            b == c * 36 + b % 36,
            c == (c / 36) * 36 + c % 36,
            r == (((c % 36) * 36 + (b % 36)) * 36 + (a % 36)) * 36 + (n % 36),
    ;
    vstd::arithmetic::div_mod::lemma_fundamental_div_mod_converse(
        n as int,
        36 * 36 * 36 * 36 as int,
        (c / 36) as int,
        r as int,
    );
}

} // verus!
