//! Text helpers shared by the analysis passes and the codec: equality of
//! names and the decimal rendering of integers.
use vstd::prelude::*;
use vstd::string::StringSliceAdditionalSpecFns;
use vstd::utf8::{encode_utf8, decode_utf8, encode_utf8_decode_utf8};

verus! {

/// Two texts hold the same characters exactly when their UTF-8 encodings agree.
pub proof fn lemma_utf8_injective(a: Seq<char>, b: Seq<char>)
    requires
        encode_utf8(a) == encode_utf8(b),
    ensures
        a == b,
{
    encode_utf8_decode_utf8(a);
    encode_utf8_decode_utf8(b);
    assert(decode_utf8(encode_utf8(a)) == decode_utf8(encode_utf8(b)));
}

/// Compares two names character by character.
pub fn str_eq(a: &str, b: &str) -> (same: bool)
    ensures
        same == (a@ == b@),
{
    let x = a.as_bytes();
    let y = b.as_bytes();
    if x.len() != y.len() {
        return false;
    }
    let mut i: usize = 0;
    while i < x.len()
        invariant
            0 <= i <= x.len(),
            x.len() == y.len(),
            x@ == a.spec_bytes(),
            y@ == b.spec_bytes(),
            forall|j: int| 0 <= j < i ==> x@[j] == y@[j],
        decreases x.len() - i,
    {
        if x[i] != y[i] {
            return false;
        }
        i += 1;
    }
    proof {
        assert(x@ =~= y@);
        lemma_utf8_injective(a@, b@);
    }
    true
}

/// The character of a decimal digit.
pub open spec fn digit_char(digit: int) -> char {
    if digit == 0 {
        '0'
    } else if digit == 1 {
        '1'
    } else if digit == 2 {
        '2'
    } else if digit == 3 {
        '3'
    } else if digit == 4 {
        '4'
    } else if digit == 5 {
        '5'
    } else if digit == 6 {
        '6'
    } else if digit == 7 {
        '7'
    } else if digit == 8 {
        '8'
    } else {
        '9'
    }
}

/// The decimal digits of a natural number, most significant first.
pub open spec fn natural_digits(n: nat) -> Seq<char>
    decreases n,
{
    if n < 10 {
        seq![digit_char(n as int)]
    } else {
        natural_digits(n / 10).push(digit_char((n % 10) as int))
    }
}

/// The decimal rendering of an integer: its digits, after a minus sign if
/// it is negative.
pub open spec fn decimal(n: int) -> Seq<char> {
    if n < 0 {
        seq!['-'] + natural_digits((-n) as nat)
    } else {
        natural_digits(n as nat)
    }
}

/// The text of one decimal digit.
fn digit_str(digit: u64) -> (text: &'static str)
    requires
        digit < 10,
    ensures
        text@ == seq![digit_char(digit as int)],
{
    proof {
        reveal_strlit("0");
        reveal_strlit("1");
        reveal_strlit("2");
        reveal_strlit("3");
        reveal_strlit("4");
        reveal_strlit("5");
        reveal_strlit("6");
        reveal_strlit("7");
        reveal_strlit("8");
        reveal_strlit("9");
    }
    let text = if digit == 0 {
        "0"
    } else if digit == 1 {
        "1"
    } else if digit == 2 {
        "2"
    } else if digit == 3 {
        "3"
    } else if digit == 4 {
        "4"
    } else if digit == 5 {
        "5"
    } else if digit == 6 {
        "6"
    } else if digit == 7 {
        "7"
    } else if digit == 8 {
        "8"
    } else {
        "9"
    };
    assert(text@ =~= seq![digit_char(digit as int)]);
    text
}

/// Appends the decimal digits of `n` to `text`.
pub fn append_digits(text: &mut String, n: u64)
    ensures
        final(text)@ == old(text)@ + natural_digits(n as nat),
    decreases n,
{
    if n < 10 {
        text.append(digit_str(n));
    } else {
        append_digits(text, n / 10);
        text.append(digit_str(n % 10));
        assert(natural_digits(n as nat) == natural_digits((n / 10) as nat).push(
            digit_char((n % 10) as int),
        ));
        assert(final(text)@ =~= old(text)@ + natural_digits(n as nat));
    }
}

/// Appends the decimal rendering of `n` to `text`.
pub fn append_decimal(text: &mut String, n: i64)
    ensures
        final(text)@ == old(text)@ + decimal(n as int),
{
    if n < 0 {
        proof {
            reveal_strlit("-");
        }
        text.append("-");
        let magnitude: u64 = if n == i64::MIN {
            9223372036854775808u64
        } else {
            (-n) as u64
        };
        append_digits(text, magnitude);
        assert(final(text)@ =~= old(text)@ + decimal(n as int));
    } else {
        append_digits(text, n as u64);
    }
}

/// Appending four texts one after the other is appending their
/// concatenation.
pub proof fn lemma_append_four(
    start: Seq<char>,
    a: Seq<char>,
    b: Seq<char>,
    c: Seq<char>,
    d: Seq<char>,
)
    ensures
        start + a + b + c + d == start + (a + b + c + d),
{
    assert(start + a + b + c + d =~= start + (a + b + c + d));
}

/// The decimal digits of a number are at least one character, and each is
/// a digit.
pub proof fn lemma_natural_digits_shape(n: nat)
    ensures
        natural_digits(n).len() >= 1,
        n >= 10 ==> natural_digits(n).len() >= 2,
        forall|i: int|
            0 <= i < natural_digits(n).len() ==> '0' <= #[trigger] natural_digits(n)[i] <= '9',
    decreases n,
{
    if n >= 10 {
        lemma_natural_digits_shape(n / 10);
    }
}

/// Different numbers have different decimal digits.
pub proof fn lemma_natural_digits_injective(a: nat, b: nat)
    requires
        natural_digits(a) == natural_digits(b),
    ensures
        a == b,
    decreases a,
{
    lemma_natural_digits_shape(a);
    lemma_natural_digits_shape(b);
    if a < 10 {
        assert(natural_digits(a).len() == 1);
        assert(b < 10);
        assert(natural_digits(a) == seq![digit_char(a as int)]);
        assert(natural_digits(b) == seq![digit_char(b as int)]);
        assert(seq![digit_char(a as int)][0] == seq![digit_char(b as int)][0]);
        assert(digit_char(a as int) == digit_char(b as int));
    } else {
        assert(b >= 10);
        let x = natural_digits(a / 10);
        let y = natural_digits(b / 10);
        let p = digit_char((a % 10) as int);
        let q = digit_char((b % 10) as int);
        assert(x.push(p) == y.push(q));
        assert(x.push(p).last() == y.push(q).last());
        assert(x.push(p).drop_last() =~= x);
        assert(y.push(q).drop_last() =~= y);
        lemma_natural_digits_injective(a / 10, b / 10);
        assert(p == q);
        assert(a % 10 == b % 10);
        assert(a == 10 * (a / 10) + a % 10);
        assert(b == 10 * (b / 10) + b % 10);
    }
}

/// Different integers have different decimal renderings.
pub proof fn lemma_decimal_injective(a: int, b: int)
    requires
        decimal(a) == decimal(b),
    ensures
        a == b,
{
    if a < 0 {
        lemma_natural_digits_shape((-a) as nat);
        assert(decimal(a)[0] == '-');
        if b < 0 {
            let x = natural_digits((-a) as nat);
            let y = natural_digits((-b) as nat);
            assert((seq!['-'] + x).subrange(1, 1 + x.len() as int) =~= x);
            assert((seq!['-'] + y).subrange(1, 1 + y.len() as int) =~= y);
            assert(x.len() + 1 == decimal(a).len());
            assert(y.len() + 1 == decimal(b).len());
            lemma_natural_digits_injective((-a) as nat, (-b) as nat);
        } else {
            lemma_natural_digits_shape(b as nat);
            assert(decimal(b)[0] == natural_digits(b as nat)[0]);
        }
    } else {
        lemma_natural_digits_shape(a as nat);
        if b < 0 {
            lemma_natural_digits_shape((-b) as nat);
            assert(decimal(b)[0] == '-');
            assert(decimal(a)[0] == natural_digits(a as nat)[0]);
        } else {
            lemma_natural_digits_injective(a as nat, b as nat);
        }
    }
}

} // verus!
