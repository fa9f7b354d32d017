use vstd::prelude::*;

verus! {

/// The radix of the digits of a `Natural`.
pub open spec fn spec_radix() -> nat {
    0x1_0000_0000
}

/// The radix to the power `exponent`.
pub open spec fn spec_radix_power(exponent: nat) -> nat
    decreases exponent,
{
    if exponent == 0 {
        1
    } else {
        spec_radix() * spec_radix_power((exponent - 1) as nat)
    }
}

/// The number that `digits` stand for, the lowest digit first.
pub open spec fn spec_value(digits: Seq<u32>) -> nat
    decreases digits.len(),
{
    if digits.len() == 0 {
        0
    } else {
        spec_value(digits.drop_last()) + digits.last() as nat * spec_radix_power(
            (digits.len() - 1) as nat,
        )
    }
}

proof fn lemma_radix_power_positive(exponent: nat)
    ensures
        spec_radix_power(exponent) >= 1,
    decreases exponent,
{
    if exponent > 0 {
        lemma_radix_power_positive((exponent - 1) as nat);
        assert(spec_radix() * spec_radix_power((exponent - 1) as nat) >= 1) by (nonlinear_arith)
            requires
                spec_radix() >= 1,
                spec_radix_power((exponent - 1) as nat) >= 1,
        ;
    }
}

proof fn lemma_value_push(digits: Seq<u32>, digit: u32)
    ensures
        spec_value(digits.push(digit)) == spec_value(digits) + digit as nat * spec_radix_power(
            digits.len(),
        ),
{
    assert(digits.push(digit).drop_last() =~= digits);
}

proof fn lemma_value_zeros(digits: Seq<u32>)
    requires
        forall|index: int| 0 <= index < digits.len() ==> digits[index] == 0,
    ensures
        spec_value(digits) == 0,
    decreases digits.len(),
{
    if digits.len() > 0 {
        lemma_value_zeros(digits.drop_last());
        assert(0 * spec_radix_power((digits.len() - 1) as nat) == 0);
    }
}

proof fn lemma_value_with_digit(digits: Seq<u32>, index: int)
    requires
        0 <= index < digits.len(),
    ensures
        spec_value(digits) >= digits[index] as nat * spec_radix_power(index as nat),
    decreases digits.len(),
{
    if index < digits.len() - 1 {
        lemma_value_with_digit(digits.drop_last(), index);
        assert(digits.last() as nat * spec_radix_power((digits.len() - 1) as nat) >= 0)
            by (nonlinear_arith);
    }
}

/// A natural number of any size.
pub struct Natural {
    /// The digits to the radix 2^32, the lowest first.
    digits: Vec<u32>,
}

impl View for Natural {
    type V = nat;

    closed spec fn view(&self) -> nat {
        spec_value(self.digits@)
    }
}

impl Natural {
    /// The number `value`.
    pub fn from_u64(value: u64) -> (number: Self)
        ensures
            number@ == value,
    {
        let mut digits: Vec<u32> = Vec::new();
        let low: u32 = (value % 0x1_0000_0000) as u32;
        let high: u32 = (value / 0x1_0000_0000) as u32;
        proof {
            let none = Seq::<u32>::empty();
            assert(digits@ =~= none);
            lemma_value_push(none, low);
            lemma_value_push(none.push(low), high);
            reveal_with_fuel(spec_radix_power, 2);
            assert(spec_radix_power(0) == 1);
            assert(spec_radix_power(1) == 0x1_0000_0000);
            assert(spec_value(none) == 0);
            assert(spec_value(none.push(low)) == low);
            assert(spec_value(none.push(low).push(high)) == low + high * 0x1_0000_0000);
        }
        digits.push(low);
        digits.push(high);
        assert(digits@ =~= Seq::<u32>::empty().push(low).push(high));
        Natural { digits }
    }

    /// Whether the number is zero.
    pub fn is_zero(&self) -> (zero: bool)
        ensures
            zero == (self@ == 0),
    {
        let mut index: usize = 0;
        while index < self.digits.len()
            invariant
                index <= self.digits@.len(),
                forall|k: int| 0 <= k < index ==> self.digits@[k] == 0,
            decreases self.digits@.len() - index,
        {
            if self.digits[index] != 0 {
                proof {
                    lemma_value_with_digit(self.digits@, index as int);
                    lemma_radix_power_positive(index as nat);
                    assert(self.digits@[index as int] as nat * spec_radix_power(index as nat) >= 1)
                        by (nonlinear_arith)
                        requires
                            self.digits@[index as int] >= 1,
                            spec_radix_power(index as nat) >= 1,
                    ;
                }
                return false;
            }
            index += 1;
        }
        proof {
            lemma_value_zeros(self.digits@);
        }
        true
    }

    /// The product of the number and `factor`.
    pub fn mul_u64(&self, factor: u64) -> (product: Self)
        ensures
            product@ == self@ * factor,
    {
        let mut digits: Vec<u32> = Vec::new();
        let mut carry: u128 = 0;
        let mut index: usize = 0;
        assert(self.digits@.take(0) =~= Seq::<u32>::empty());
        assert(0 * (factor as nat) == 0);
        assert(0 * spec_radix_power(0) == 0);
        while index < self.digits.len()
            invariant
                index <= self.digits@.len(),
                digits@.len() == index,
                carry <= u64::MAX,
                spec_value(digits@) + carry * spec_radix_power(index as nat) == spec_value(
                    self.digits@.take(index as int),
                ) * factor,
            decreases self.digits@.len() - index,
        {
            let digit = self.digits[index];
            assert(digit as u128 * factor as u128 <= 0xffff_ffff * 0xffff_ffff_ffff_ffff)
                by (nonlinear_arith)
                requires
                    digit <= 0xffff_ffff,
                    factor <= 0xffff_ffff_ffff_ffff,
            ;
            let total: u128 = digit as u128 * factor as u128 + carry;
            let low: u32 = (total % 0x1_0000_0000) as u32;
            let next_carry: u128 = total / 0x1_0000_0000;
            proof {
                let power = spec_radix_power(index as nat);
                let head = self.digits@.take(index as int);
                lemma_value_push(digits@, low);
                lemma_value_push(head, digit);
                assert(head.push(digit) =~= self.digits@.take(index + 1));
                assert(spec_radix_power((index + 1) as nat) == spec_radix() * power);
                assert(low as nat * power + next_carry as nat * (spec_radix() * power) == (
                digit as nat * factor as nat + carry as nat) * power) by (nonlinear_arith)
                    requires
                        low as nat + next_carry as nat * spec_radix() == digit as nat
                            * factor as nat + carry as nat,
                ;
                assert((spec_value(head) + digit as nat * power) * factor as nat == spec_value(
                    head,
                ) * factor as nat + (digit as nat * factor as nat) * power) by (nonlinear_arith);
                assert((digit as nat * factor as nat + carry as nat) * power == (digit as nat
                    * factor as nat) * power + carry as nat * power) by (nonlinear_arith);
            }
            digits.push(low);
            carry = next_carry;
            index += 1;
        }
        assert(self.digits@.take(index as int) =~= self.digits@);
        let low: u32 = (carry % 0x1_0000_0000) as u32;
        let high: u32 = (carry / 0x1_0000_0000) as u32;
        proof {
            let power = spec_radix_power(index as nat);
            lemma_value_push(digits@, low);
            lemma_value_push(digits@.push(low), high);
            assert(spec_radix_power((index + 1) as nat) == spec_radix() * power);
            assert(low as nat * power + high as nat * (spec_radix() * power) == carry as nat
                * power) by (nonlinear_arith)
                requires
                    low as nat + high as nat * spec_radix() == carry as nat,
            ;
        }
        digits.push(low);
        digits.push(high);
        Natural { digits }
    }

    /// The sum of the number and `other`.
    pub fn add(&self, other: &Natural) -> (sum: Self)
        ensures
            sum@ == self@ + other@,
    {
        let length: usize = if self.digits.len() >= other.digits.len() {
            self.digits.len()
        } else {
            other.digits.len()
        };
        let mut digits: Vec<u32> = Vec::new();
        let mut carry: u64 = 0;
        let mut index: usize = 0;
        assert(0 * spec_radix_power(0) == 0);
        while index < length
            invariant
                index <= length,
                length >= self.digits@.len(),
                length >= other.digits@.len(),
                digits@.len() == index,
                carry <= 1,
                spec_value(digits@) + carry * spec_radix_power(index as nat) == spec_prefix_value(
                    self.digits@,
                    index as nat,
                ) + spec_prefix_value(other.digits@, index as nat),
            decreases length - index,
        {
            let left: u32 = if index < self.digits.len() {
                self.digits[index]
            } else {
                0
            };
            let right: u32 = if index < other.digits.len() {
                other.digits[index]
            } else {
                0
            };
            let total: u64 = left as u64 + right as u64 + carry;
            let low: u32 = (total % 0x1_0000_0000) as u32;
            let next_carry: u64 = total / 0x1_0000_0000;
            proof {
                let power = spec_radix_power(index as nat);
                lemma_value_push(digits@, low);
                assert(spec_radix_power((index + 1) as nat) == spec_radix() * power);
                assert(low as nat * power + next_carry as nat * (spec_radix() * power) == (
                left as nat + right as nat + carry as nat) * power) by (nonlinear_arith)
                    requires
                        low as nat + next_carry as nat * spec_radix() == left as nat + right as nat
                            + carry as nat,
                ;
                assert((left as nat + right as nat + carry as nat) * power == left as nat * power
                    + right as nat * power + carry as nat * power) by (nonlinear_arith);
            }
            digits.push(low);
            carry = next_carry;
            index += 1;
        }
        proof {
            lemma_prefix_value_all(self.digits@, length as nat);
            lemma_prefix_value_all(other.digits@, length as nat);
            lemma_value_push(digits@, carry as u32);
        }
        digits.push(carry as u32);
        Natural { digits }
    }

    /// Whether the number is at most `other`.
    pub fn le(&self, other: &Natural) -> (at_most: bool)
        ensures
            at_most == (self@ <= other@),
    {
        let length: usize = if self.digits.len() >= other.digits.len() {
            self.digits.len()
        } else {
            other.digits.len()
        };
        let mut at_most: bool = true;
        let mut index: usize = 0;
        while index < length
            invariant
                index <= length,
                length >= self.digits@.len(),
                length >= other.digits@.len(),
                at_most == (spec_prefix_value(self.digits@, index as nat) <= spec_prefix_value(
                    other.digits@,
                    index as nat,
                )),
            decreases length - index,
        {
            let left: u32 = if index < self.digits.len() {
                self.digits[index]
            } else {
                0
            };
            let right: u32 = if index < other.digits.len() {
                other.digits[index]
            } else {
                0
            };
            proof {
                let power = spec_radix_power(index as nat);
                lemma_prefix_value_below_power(self.digits@, index as nat);
                lemma_prefix_value_below_power(other.digits@, index as nat);
                if left < right {
                    assert(left as nat * power + power <= right as nat * power)
                        by (nonlinear_arith)
                        requires
                            left < right,
                    ;
                } else if left > right {
                    assert(right as nat * power + power <= left as nat * power)
                        by (nonlinear_arith)
                        requires
                            right < left,
                    ;
                }
            }
            if left < right {
                at_most = true;
            } else if left > right {
                at_most = false;
            }
            index += 1;
        }
        proof {
            lemma_prefix_value_all(self.digits@, length as nat);
            lemma_prefix_value_all(other.digits@, length as nat);
        }
        at_most
    }
}

/// The number that the lowest `count` digits stand for, where digits
/// beyond the end count as zero.
pub open spec fn spec_prefix_value(digits: Seq<u32>, count: nat) -> nat
    decreases count,
{
    if count == 0 {
        0
    } else {
        spec_prefix_value(digits, (count - 1) as nat) + (if count - 1 < digits.len() {
            digits[count - 1] as nat
        } else {
            0
        }) * spec_radix_power((count - 1) as nat)
    }
}

proof fn lemma_prefix_value_within(digits: Seq<u32>, count: nat)
    requires
        count <= digits.len(),
    ensures
        spec_prefix_value(digits, count) == spec_value(digits.take(count as int)),
    decreases count,
{
    if count > 0 {
        lemma_prefix_value_within(digits, (count - 1) as nat);
        assert(digits.take(count as int).drop_last() =~= digits.take(count - 1));
    }
}

proof fn lemma_prefix_value_all(digits: Seq<u32>, count: nat)
    requires
        count >= digits.len(),
    ensures
        spec_prefix_value(digits, count) == spec_value(digits),
    decreases count,
{
    if count > digits.len() {
        lemma_prefix_value_all(digits, (count - 1) as nat);
        assert(0 * spec_radix_power((count - 1) as nat) == 0);
    } else {
        lemma_prefix_value_within(digits, count);
        assert(digits.take(count as int) =~= digits);
    }
}

proof fn lemma_prefix_value_below_power(digits: Seq<u32>, count: nat)
    ensures
        spec_prefix_value(digits, count) < spec_radix_power(count),
    decreases count,
{
    if count > 0 {
        let power = spec_radix_power((count - 1) as nat);
        let digit: nat = if count - 1 < digits.len() {
            digits[count - 1] as nat
        } else {
            0
        };
        lemma_prefix_value_below_power(digits, (count - 1) as nat);
        assert(spec_prefix_value(digits, (count - 1) as nat) + digit * power < spec_radix()
            * power) by (nonlinear_arith)
            requires
                spec_prefix_value(digits, (count - 1) as nat) < power,
                digit < spec_radix(),
        ;
    } else {
        assert(spec_radix_power(0) == 1);
    }
}

} // verus!
