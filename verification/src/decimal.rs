//! Decimal text of natural numbers, and natural numbers of any size held
//! as a vector of decimal digits.

use vstd::prelude::*;
use vstd::string::*;

verus! {

/// The character of one decimal digit.
pub open spec fn digit_char(d: nat) -> char
    recommends
        d < 10,
{
    if d == 0 {
        '0'
    } else if d == 1 {
        '1'
    } else if d == 2 {
        '2'
    } else if d == 3 {
        '3'
    } else if d == 4 {
        '4'
    } else if d == 5 {
        '5'
    } else if d == 6 {
        '6'
    } else if d == 7 {
        '7'
    } else if d == 8 {
        '8'
    } else {
        '9'
    }
}

/// The usual decimal numeral of `n`: no sign, no leading zeros, "0" for zero.
pub open spec fn decimal_text(n: nat) -> Seq<char>
    decreases n,
{
    if n < 10 {
        seq![digit_char(n)]
    } else {
        decimal_text(n / 10).push(digit_char(n % 10))
    }
}

/// The digit that a character stands for.
pub open spec fn digit_of_char(c: char) -> nat {
    if c == '1' {
        1
    } else if c == '2' {
        2
    } else if c == '3' {
        3
    } else if c == '4' {
        4
    } else if c == '5' {
        5
    } else if c == '6' {
        6
    } else if c == '7' {
        7
    } else if c == '8' {
        8
    } else if c == '9' {
        9
    } else {
        0
    }
}

/// The number that a numeral stands for, read digit by digit.
pub open spec fn numeral_value(text: Seq<char>) -> nat
    decreases text.len(),
{
    if text.len() == 0 {
        0
    } else {
        10 * numeral_value(text.drop_last()) + digit_of_char(text.last())
    }
}

/// The numeral of a number is made of digits, begins with a zero only
/// where the number is zero, and stands for the number.
pub proof fn law_numeral_reads_back(n: nat)
    ensures
        decimal_text(n).len() >= 1,
        forall|i: int|
            0 <= i < decimal_text(n).len() ==> exists|d: nat|
                d < 10 && #[trigger] decimal_text(n)[i] == digit_char(d),
        decimal_text(n)[0] == '0' <==> n == 0,
        numeral_value(decimal_text(n)) == n,
    decreases n,
{
    let text = decimal_text(n);
    if n < 10 {
        assert(text.drop_last() =~= Seq::<char>::empty());
        assert(numeral_value(text) == 10 * numeral_value(text.drop_last()) + digit_of_char(
            text.last(),
        ));
        assert(text[0] == digit_char(n));
    } else {
        let front = decimal_text(n / 10);
        law_numeral_reads_back(n / 10);
        assert(text.drop_last() =~= front);
        assert(text[0] == front[0]);
        assert forall|i: int| 0 <= i < text.len() implies exists|d: nat|
            d < 10 && #[trigger] text[i] == digit_char(d) by {
            if i < front.len() {
                assert(text[i] == front[i]);
            } else {
                assert(text[i] == digit_char(n % 10));
            }
        }
    }
}

/// Ten to the power `e`.
spec fn pow10(e: nat) -> nat
    decreases e,
{
    if e == 0 {
        1
    } else {
        10 * pow10((e - 1) as nat)
    }
}

/// The number that a sequence of decimal digits stands for, least
/// significant digit first.
spec fn digits_value(digits: Seq<u8>) -> nat
    decreases digits.len(),
{
    if digits.len() == 0 {
        0
    } else {
        digits[0] as nat + 10 * digits_value(digits.drop_first())
    }
}

/// At least one digit, each below ten, and no zero in the leading place
/// unless it is the only digit.
spec fn canonical(digits: Seq<u8>) -> bool {
    &&& digits.len() >= 1
    &&& forall|i: int| 0 <= i < digits.len() ==> digits[i] <= 9
    &&& (digits.len() == 1 || digits.last() != 0)
}

/// The digits as characters, most significant first.
spec fn digits_text(digits: Seq<u8>) -> Seq<char> {
    Seq::new(digits.len(), |i: int| digit_char(digits[digits.len() - 1 - i] as nat))
}

/// A digit put in the leading place adds its place value.
proof fn lemma_value_push(digits: Seq<u8>, d: u8)
    ensures
        digits_value(digits.push(d)) == digits_value(digits) + d * pow10(digits.len()),
    decreases digits.len(),
{
    let longer = digits.push(d);
    if digits.len() == 0 {
        assert(longer.drop_first() =~= Seq::<u8>::empty());
        assert(digits_value(longer.drop_first()) == 0);
        assert(digits_value(longer) == d + 10 * digits_value(longer.drop_first()));
        assert(pow10(0) == 1);
    } else {
        let rest = digits.drop_first();
        assert(longer.drop_first() =~= rest.push(d));
        lemma_value_push(rest, d);
        assert(digits_value(longer) == digits[0] + 10 * digits_value(rest.push(d)));
        assert(10 * (d * pow10(rest.len())) == d * pow10(digits.len())) by (nonlinear_arith)
            requires
                pow10(digits.len()) == 10 * pow10(rest.len()),
        ;
    }
}

/// Digits with no zero in the leading place stand for a positive number.
proof fn lemma_value_positive(digits: Seq<u8>)
    requires
        digits.len() >= 1,
        digits.last() != 0,
    ensures
        digits_value(digits) > 0,
    decreases digits.len(),
{
    if digits.len() > 1 {
        lemma_value_positive(digits.drop_first());
    }
}

/// Canonical digits spell the numeral of their value.
proof fn lemma_canonical_text(digits: Seq<u8>)
    requires
        canonical(digits),
    ensures
        decimal_text(digits_value(digits)) == digits_text(digits),
    decreases digits.len(),
{
    let rest = digits.drop_first();
    if digits.len() == 1 {
        assert(digits_value(rest) == 0);
        assert(decimal_text(digits_value(digits)) =~= digits_text(digits));
    } else {
        assert(canonical(rest));
        lemma_value_positive(rest);
        lemma_canonical_text(rest);
        let v = digits_value(digits);
        assert(v / 10 == digits_value(rest) && v % 10 == digits[0]);
        assert(digits_text(rest).push(digit_char(digits[0] as nat)) =~= digits_text(digits));
    }
}

/// One decimal digit as a string.
pub fn digit_str(d: u8) -> (s: &'static str)
    requires
        d <= 9,
    ensures
        s@ == seq![digit_char(d as nat)],
{
    proof {
        reveal_strlit("0");
        reveal_strlit("1");
        reveal_strlit("2");
        reveal_strlit("3");
        reveal_strlit("4");
        reveal_strlit("5");
        reveal_strlit("6");
        reveal_strlit("7");
        reveal_strlit("8");
        reveal_strlit("9");
    }
    let s: &'static str = if d == 0 {
        "0"
    } else if d == 1 {
        "1"
    } else if d == 2 {
        "2"
    } else if d == 3 {
        "3"
    } else if d == 4 {
        "4"
    } else if d == 5 {
        "5"
    } else if d == 6 {
        "6"
    } else if d == 7 {
        "7"
    } else if d == 8 {
        "8"
    } else {
        "9"
    };
    assert(s@ =~= seq![digit_char(d as nat)]);
    s
}

/// A natural number of any size. Its view is the number.
#[derive(Debug)]
pub struct Natural {
    digits: Vec<u8>,
}

impl View for Natural {
    type V = nat;

    closed spec fn view(&self) -> nat {
        digits_value(self.digits@)
    }
}

impl Natural {
    #[verifier::type_invariant]
    spec fn well_formed(self) -> bool {
        canonical(self.digits@)
    }

    pub fn from_u64(n: u64) -> (number: Natural)
        ensures
            number@ == n,
    {
        let mut digits: Vec<u8> = Vec::new();
        let mut rest: u64 = n / 10;
        digits.push((n % 10) as u8);
        proof {
            lemma_value_push(Seq::<u8>::empty(), (n % 10) as u8);
            assert(digits@ =~= Seq::<u8>::empty().push((n % 10) as u8));
            assert(digits_value(Seq::<u8>::empty()) == 0);
            assert(pow10(0) == 1 && pow10(1) == 10 * pow10(0));
            assert(((n % 10) as u8) * pow10(0) == n % 10) by (nonlinear_arith)
                requires
                    pow10(0) == 1,
                    (n % 10) as u8 == n % 10,
            ;
            assert(rest * pow10(1) == 10 * rest) by (nonlinear_arith)
                requires
                    pow10(1) == 10,
            ;
        }
        while rest != 0
            invariant
                digits.len() >= 1,
                forall|i: int| 0 <= i < digits.len() ==> digits[i] <= 9,
                digits.len() == 1 || rest != 0 || digits@.last() != 0,
                digits_value(digits@) + rest * pow10(digits.len() as nat) == n,
            decreases rest,
        {
            let d: u8 = (rest % 10) as u8;
            proof {
                lemma_value_push(digits@, d);
                assert(rest * pow10(digits.len() as nat) == d * pow10(digits.len() as nat) + (rest
                    / 10) * pow10((digits.len() + 1) as nat)) by (nonlinear_arith)
                    requires
                        rest == d + 10 * (rest / 10),
                        pow10((digits.len() + 1) as nat) == 10 * pow10(digits.len() as nat),
                ;
            }
            digits.push(d);
            rest = rest / 10;
        }
        Natural { digits }
    }

    /// Twice the number.
    pub fn doubled(&self) -> (twice: Natural)
        ensures
            twice@ == 2 * self@,
    {
        proof {
            use_type_invariant(self);
        }
        let mut out: Vec<u8> = Vec::new();
        let mut carry: u8 = 0;
        let mut i: usize = 0;
        while i < self.digits.len()
            invariant
                i <= self.digits.len(),
                out.len() == i,
                carry <= 1,
                forall|j: int| 0 <= j < self.digits.len() ==> self.digits[j] <= 9,
                forall|j: int| 0 <= j < out.len() ==> out[j] <= 9,
                i > 0 && carry == 0 && out[i - 1] == 0 ==> self.digits[i - 1] == 0,
                digits_value(out@) + carry * pow10(i as nat) == 2 * digits_value(
                    self.digits@.take(i as int),
                ),
            decreases self.digits.len() - i,
        {
            let t: u8 = 2 * self.digits[i] + carry;
            proof {
                let d = self.digits[i as int];
                lemma_value_push(out@, (t % 10) as u8);
                lemma_value_push(self.digits@.take(i as int), d);
                assert(self.digits@.take(i + 1) =~= self.digits@.take(i as int).push(d));
                assert((t % 10) * pow10(i as nat) + (t / 10) * pow10((i + 1) as nat) == carry
                    * pow10(i as nat) + 2 * (d * pow10(i as nat))) by (nonlinear_arith)
                    requires
                        (t % 10) + 10 * (t / 10) == 2 * d + carry,
                        pow10((i + 1) as nat) == 10 * pow10(i as nat),
                ;
            }
            out.push(t % 10);
            carry = t / 10;
            i = i + 1;
        }
        proof {
            assert(self.digits@.take(i as int) =~= self.digits@);
        }
        if carry != 0 {
            proof {
                lemma_value_push(out@, carry);
            }
            out.push(carry);
        }
        Natural { digits: out }
    }

    /// The number's decimal numeral.
    pub fn to_text(&self) -> (text: String)
        ensures
            text@ == decimal_text(self@),
    {
        proof {
            use_type_invariant(self);
        }
        let mut text: String = String::new();
        let mut left: usize = self.digits.len();
        while left > 0
            invariant
                left <= self.digits.len(),
                forall|j: int| 0 <= j < self.digits.len() ==> self.digits[j] <= 9,
                text@ == digits_text(self.digits@).take(self.digits.len() - left),
            decreases left,
        {
            left = left - 1;
            let piece: &'static str = digit_str(self.digits[left]);
            text.append(piece);
            assert(text@ =~= digits_text(self.digits@).take(self.digits.len() - left));
        }
        proof {
            lemma_canonical_text(self.digits@);
            assert(digits_text(self.digits@).take(self.digits.len() as int) =~= digits_text(
                self.digits@,
            ));
        }
        text
    }
}

} // verus!
