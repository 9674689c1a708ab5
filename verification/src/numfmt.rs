use vstd::prelude::*;

verus! {

/// The decimal digit character for a value below ten.
pub open spec fn dec_digit(d: int) -> char {
    if d == 0 {
        '0'
    } else if d == 1 {
        '1'
    } else if d == 2 {
        '2'
    } else if d == 3 {
        '3'
    } else if d == 4 {
        '4'
    } else if d == 5 {
        '5'
    } else if d == 6 {
        '6'
    } else if d == 7 {
        '7'
    } else if d == 8 {
        '8'
    } else {
        '9'
    }
}

/// The decimal rendering of a natural number, most significant digit first.
pub open spec fn dec_chars(n: nat) -> Seq<char>
    decreases n,
{
    if n < 10 {
        seq![dec_digit(n as int)]
    } else {
        dec_chars(n / 10) + seq![dec_digit((n % 10) as int)]
    }
}

/// The characters of a digit stack read from the top: the digits were
/// pushed least significant first, so reading them in reverse yields
/// the most-significant-first rendering.
pub open spec fn chars_of_rev(digits: Seq<u8>) -> Seq<char> {
    Seq::new(digits.len(), |i: int| dec_digit(digits[digits.len() - 1 - i] as int))
}

fn digit_str(d: u8) -> (r: &'static str)
    requires
        d < 10,
    ensures
        r@ == seq![dec_digit(d as int)],
{
    proof {
        reveal_strlit("0");
        reveal_strlit("1");
        reveal_strlit("2");
        reveal_strlit("3");
        reveal_strlit("4");
        reveal_strlit("5");
        reveal_strlit("6");
        reveal_strlit("7");
        reveal_strlit("8");
        reveal_strlit("9");
    }
    let r: &'static str = if d == 0 {
        "0"
    } else if d == 1 {
        "1"
    } else if d == 2 {
        "2"
    } else if d == 3 {
        "3"
    } else if d == 4 {
        "4"
    } else if d == 5 {
        "5"
    } else if d == 6 {
        "6"
    } else if d == 7 {
        "7"
    } else if d == 8 {
        "8"
    } else {
        "9"
    };
    proof {
        assert(r@ =~= seq![dec_digit(d as int)]);
    }
    r
}

/// Collects the decimal digits of `n`, least significant first.
fn dec_digit_stack_u128(n: u128) -> (digits: Vec<u8>)
    ensures
        chars_of_rev(digits@) == dec_chars(n as nat),
        forall|i: int| 0 <= i < digits@.len() ==> digits@[i] < 10,
{
    let mut digits: Vec<u8> = Vec::new();
    let mut x: u128 = n;
    if x == 0 {
        digits.push(0);
        proof {
            assert(chars_of_rev(digits@) =~= dec_chars(0));
        }
        return digits;
    }
    while x > 0
        invariant
            x > 0 ==> dec_chars(n as nat) == dec_chars(x as nat) + chars_of_rev(digits@),
            x == 0 ==> dec_chars(n as nat) == chars_of_rev(digits@),
            x == 0 ==> digits@.len() > 0,
            forall|i: int| 0 <= i < digits@.len() ==> digits@[i] < 10,
        decreases x,
    {
        let ghost old_digits = digits@;
        let ghost old_x = x as nat;
        let d: u8 = (x % 10) as u8;
        digits.push(d);
        x = x / 10;
        proof {
            assert(chars_of_rev(old_digits.push(d)) =~= seq![dec_digit(d as int)] + chars_of_rev(
                old_digits,
            ));
            if x > 0 {
                assert(dec_chars(old_x) == dec_chars(old_x / 10) + seq![
                    dec_digit((old_x % 10) as int),
                ]);
                assert(dec_chars(n as nat) =~= dec_chars(x as nat) + chars_of_rev(digits@));
            } else {
                assert(dec_chars(old_x) == seq![dec_digit(old_x as int)]);
                assert(dec_chars(n as nat) =~= chars_of_rev(digits@));
            }
        }
    }
    digits
}

/// Renders a number in decimal, as `format!("{}", n)` would.
pub fn u128_to_string(n: u128) -> (s: String)
    ensures
        s@ == dec_chars(n as nat),
{
    let digits = dec_digit_stack_u128(n);
    let mut s = String::new();
    let mut i: usize = digits.len();
    while i > 0
        invariant
            i <= digits.len(),
            s@ =~= chars_of_rev(digits@).take(digits@.len() - i),
            forall|j: int| 0 <= j < digits@.len() ==> digits@[j] < 10,
        decreases i,
    {
        i = i - 1;
        s.append(digit_str(digits[i]));
        proof {
            assert(s@ =~= chars_of_rev(digits@).take(digits@.len() - i));
        }
    }
    proof {
        assert(s@ =~= chars_of_rev(digits@));
    }
    s
}

/// Renders a number in decimal, as `format!("{}", n)` would.
pub fn u64_to_string(n: u64) -> (s: String)
    ensures
        s@ == dec_chars(n as nat),
{
    u128_to_string(n as u128)
}

/// The hexadecimal digit character for a value below sixteen.
pub open spec fn hex_digit(d: int) -> char {
    if d < 10 {
        dec_digit(d)
    } else if d == 10 {
        'a'
    } else if d == 11 {
        'b'
    } else if d == 12 {
        'c'
    } else if d == 13 {
        'd'
    } else if d == 14 {
        'e'
    } else {
        'f'
    }
}

/// The lowercase hexadecimal rendering of a byte string, two digits a
/// byte, as `format!("{:x}", digest)` renders a SHA-256 digest.
pub open spec fn hex_chars(bytes: Seq<u8>) -> Seq<char> {
    Seq::new(
        2 * bytes.len(),
        |i: int|
            if i % 2 == 0 {
                hex_digit((bytes[i / 2] >> 4u8) as int)
            } else {
                hex_digit((bytes[i / 2] & 0xfu8) as int)
            },
    )
}

fn hex_digit_str(d: u8) -> (r: &'static str)
    requires
        d < 16,
    ensures
        r@ == seq![hex_digit(d as int)],
{
    if d < 10 {
        digit_str(d)
    } else {
        proof {
            reveal_strlit("a");
            reveal_strlit("b");
            reveal_strlit("c");
            reveal_strlit("d");
            reveal_strlit("e");
            reveal_strlit("f");
        }
        let r: &'static str = if d == 10 {
            "a"
        } else if d == 11 {
            "b"
        } else if d == 12 {
            "c"
        } else if d == 13 {
            "d"
        } else if d == 14 {
            "e"
        } else {
            "f"
        };
        proof {
            assert(r@ =~= seq![hex_digit(d as int)]);
        }
        r
    }
}

/// Renders a byte string as lowercase hexadecimal.
pub fn bytes_to_hex(bytes: &Vec<u8>) -> (s: String)
    ensures
        s@ == hex_chars(bytes@),
{
    let mut s = String::new();
    let mut i: usize = 0;
    while i < bytes.len()
        invariant
            i <= bytes.len(),
            s@ =~= hex_chars(bytes@.take(i as int)),
        decreases bytes.len() - i,
    {
        let b = bytes[i];
        let hi: u8 = b >> 4u8;
        let lo: u8 = b & 0xfu8;
        proof {
            assert(hi < 16 && lo < 16) by (bit_vector)
                requires
                    hi == b >> 4u8 && lo == b & 0xfu8,
            ;
        }
        s.append(hex_digit_str(hi));
        s.append(hex_digit_str(lo));
        i = i + 1;
        proof {
            assert(s@ =~= hex_chars(bytes@.take(i as int)));
        }
    }
    proof {
        assert(bytes@.take(bytes@.len() as int) =~= bytes@);
    }
    s
}

/// Whether a character string is one or more decimal digits.
pub open spec fn is_dec_seq(s: Seq<char>) -> bool {
    s.len() > 0 && forall|i: int| 0 <= i < s.len() ==> '0' <= #[trigger] s[i] <= '9'
}

/// The numeric value of a string of decimal digits.
pub open spec fn dec_value(s: Seq<char>) -> nat
    decreases s.len(),
{
    if s.len() == 0 {
        0
    } else {
        (dec_value(s.drop_last()) * 10 + (s.last() as int - '0' as int)) as nat
    }
}

/// Parses an unsigned decimal number, as `str::parse::<u64>` does for
/// plain digit strings.
pub fn parse_u64(s: &str) -> (r: Option<u64>)
    ensures
        r is Some <==> is_dec_seq(s@) && dec_value(s@) <= u64::MAX,
        r is Some ==> r->0 == dec_value(s@),
{
    let n = s.unicode_len();
    if n == 0 {
        return None;
    }
    let mut value: u64 = 0;
    let mut i: usize = 0;
    while i < n
        invariant
            n == s@.len(),
            i <= n,
            forall|j: int| 0 <= j < i ==> '0' <= #[trigger] s@[j] <= '9',
            value == dec_value(s@.take(i as int)),
        decreases n - i,
    {
        let c = s.get_char(i);
        let code = c as u32;
        if code < 48 || code > 57 {
            return None;
        }
        let digit: u64 = (code - 48) as u64;
        let ghost prefix = s@.take(i as int);
        let ghost next_prefix = s@.take(i as int + 1);
        proof {
            assert(next_prefix.drop_last() =~= prefix);
            assert(next_prefix.last() == s@[i as int]);
        }
        value = match value.checked_mul(10) {
            Some(v) => v,
            None => {
                proof {
                    if is_dec_seq(s@) {
                        lemma_dec_value_prefix_grows(s@, i as int + 1);
                    }
                }
                return None;
            },
        };
        value = match value.checked_add(digit) {
            Some(v) => v,
            None => {
                proof {
                    if is_dec_seq(s@) {
                        lemma_dec_value_prefix_grows(s@, i as int + 1);
                    }
                }
                return None;
            },
        };
        i = i + 1;
    }
    proof {
        assert(s@.take(n as int) =~= s@);
    }
    Some(value)
}

/// The value of a digit string is at least the value of any of its
/// prefixes.
proof fn lemma_dec_value_prefix_grows(s: Seq<char>, i: int)
    requires
        0 <= i <= s.len(),
        forall|j: int| 0 <= j < s.len() ==> '0' <= #[trigger] s[j] <= '9',
    ensures
        dec_value(s) >= dec_value(s.take(i)),
    decreases s.len() - i,
{
    if i < s.len() {
        lemma_dec_value_prefix_grows(s, i + 1);
        assert(s.take(i + 1).drop_last() =~= s.take(i));
        assert(dec_value(s.take(i + 1)) == dec_value(s.take(i)) * 10 + (s.take(i + 1).last() as int
            - '0' as int));
        assert(s.take(i + 1).last() == s[i]);
        assert(dec_value(s.take(i)) * 10 >= dec_value(s.take(i)));
    } else {
        assert(s.take(i) =~= s);
    }
}


/// Reading the decimal rendering of a number back yields the number.
pub proof fn lemma_dec_value_round_trip(n: nat)
    ensures
        dec_value(dec_chars(n)) == n,
        forall|i: int| 0 <= i < dec_chars(n).len() ==> '0' <= #[trigger] dec_chars(n)[i] <= '9',
    decreases n,
{
    if n < 10 {
        let s = dec_chars(n);
        assert(s.drop_last() =~= Seq::<char>::empty());
        assert(dec_value(s) == (dec_value(s.drop_last()) * 10 + (s.last() as int
            - '0' as int)) as nat);
        assert(dec_digit(n as int) as int - '0' as int == n);
    } else {
        lemma_dec_value_round_trip(n / 10);
        let s = dec_chars(n);
        assert(s.drop_last() =~= dec_chars(n / 10));
        assert(s.last() == dec_digit((n % 10) as int));
        assert(dec_digit((n % 10) as int) as int - '0' as int == n % 10);
        assert(dec_value(s) == ((n / 10) * 10 + n % 10) as nat);
    }
}

/// Distinct numbers render as distinct digit strings.
pub proof fn lemma_dec_chars_injective(m: nat, n: nat)
    ensures
        dec_chars(m) == dec_chars(n) ==> m == n,
{
    if dec_chars(m) == dec_chars(n) {
        lemma_dec_value_round_trip(m);
        lemma_dec_value_round_trip(n);
    }
}

} // verus!
