use vstd::arithmetic::div_mod::*;
use vstd::arithmetic::power::*;
use vstd::prelude::*;

verus! {

/// The ASCII code of the digit zero.
pub const ASCII_ZERO: u8 = 48;

/// The ASCII digit that `value` has at the decimal place `place`, counted from
/// the least significant digit (place 0 holds the ones).
pub open spec fn digit(value: nat, place: nat) -> u8 {
    (ASCII_ZERO + (value / (pow(10, place) as nat)) % 10) as u8
}

/// Whether `byte` is one of the ten ASCII digits.
pub open spec fn is_digit(byte: u8) -> bool {
    ASCII_ZERO <= byte <= ASCII_ZERO + 9
}

/// The decimal numeral of `value` in exactly `width` ASCII digits: most
/// significant digit first, padded with zeros on the left, and cut down to its
/// `width` low-order digits where the value needs more.
pub open spec fn decimal(value: nat, width: nat) -> Seq<u8> {
    Seq::new(width, |i: int| digit(value, (width - 1 - i) as nat))
}

proof fn lemma_next_place(value: nat, place: nat)
    ensures
        pow(10, place) > 0,
        (value / (pow(10, place) as nat)) / 10 == value / (pow(10, place + 1) as nat),
{
    lemma_pow_positive(10, place);
    lemma_pow_positive(10, place + 1);
    lemma_pow1(10);
    lemma_pow_adds(10, place, 1);
    lemma_div_denominator(value as int, pow(10, place), 10);
}

/// Writes the decimal numeral of `value` over the whole of `buf`.
pub fn encode(value: u128, buf: &mut [u8])
    ensures
        final(buf)@ == decimal(value as nat, old(buf)@.len()),
{
    let ghost width = buf@.len();
    let mut rest = value;
    let mut at = buf.len();
    proof {
        lemma_pow0(10);
        assert((width - at) as nat == 0);
        assert(pow(10, 0) as nat == 1);
    }
    while at > 0
        invariant
            at <= width,
            buf@.len() == width,
            rest == (value as nat) / (pow(10, (width - at) as nat) as nat),
            forall|j: int| at <= j < width ==> buf@[j] == digit(value as nat, (width - 1 - j) as nat),
        decreases at,
    {
        proof {
            lemma_next_place(value as nat, (width - at) as nat);
        }
        at -= 1;
        buf[at] = (rest % 10) as u8 + ASCII_ZERO;
        rest /= 10;
    }
    assert(buf@ =~= decimal(value as nat, width));
}

/// A number that can be shown as a fixed-width decimal numeral.
pub trait Serialize: Sized {
    /// The number that the value stands for.
    spec fn value(self) -> int;

    /// Writes the numeral of the value over the whole of `buf`, right-aligned:
    /// `buf` decides the width.
    fn serialize(self, buf: &mut [u8])
        requires
            self.value() >= 0,
        ensures
            final(buf)@ == decimal(self.value() as nat, old(buf)@.len()),
    ;
}

impl Serialize for u8 {
    open spec fn value(self) -> int {
        self as int
    }

    fn serialize(self, buf: &mut [u8]) {
        encode(self as u128, buf)
    }
}

impl Serialize for u16 {
    open spec fn value(self) -> int {
        self as int
    }

    fn serialize(self, buf: &mut [u8]) {
        encode(self as u128, buf)
    }
}

impl Serialize for u32 {
    open spec fn value(self) -> int {
        self as int
    }

    fn serialize(self, buf: &mut [u8]) {
        encode(self as u128, buf)
    }
}

impl Serialize for u64 {
    open spec fn value(self) -> int {
        self as int
    }

    fn serialize(self, buf: &mut [u8]) {
        encode(self as u128, buf)
    }
}

impl Serialize for i8 {
    open spec fn value(self) -> int {
        self as int
    }

    fn serialize(self, buf: &mut [u8]) {
        encode(self as u128, buf)
    }
}

impl Serialize for i16 {
    open spec fn value(self) -> int {
        self as int
    }

    fn serialize(self, buf: &mut [u8]) {
        encode(self as u128, buf)
    }
}

impl Serialize for i32 {
    open spec fn value(self) -> int {
        self as int
    }

    fn serialize(self, buf: &mut [u8]) {
        encode(self as u128, buf)
    }
}

impl Serialize for i64 {
    open spec fn value(self) -> int {
        self as int
    }

    fn serialize(self, buf: &mut [u8]) {
        encode(self as u128, buf)
    }
}

impl Serialize for i128 {
    open spec fn value(self) -> int {
        self as int
    }

    fn serialize(self, buf: &mut [u8]) {
        encode(self as u128, buf)
    }
}

impl Serialize for u128 {
    open spec fn value(self) -> int {
        self as int
    }

    fn serialize(self, buf: &mut [u8]) {
        encode(self, buf)
    }
}

/// A month of the year.
#[derive(Clone, Copy, Debug, PartialEq, Eq, Structural)]
pub enum Month {
    January,
    February,
    March,
    April,
    May,
    June,
    July,
    August,
    September,
    October,
    November,
    December,
}

impl Month {
    /// The place of the month in the year, from 1 for January to 12 for December.
    pub open spec fn ordinal(self) -> int {
        match self {
            Month::January => 1,
            Month::February => 2,
            Month::March => 3,
            Month::April => 4,
            Month::May => 5,
            Month::June => 6,
            Month::July => 7,
            Month::August => 8,
            Month::September => 9,
            Month::October => 10,
            Month::November => 11,
            Month::December => 12,
        }
    }

    /// The month at place `n` of the year, for `n` from 1 to 12.
    pub open spec fn at(n: int) -> Month {
        if n == 1 {
            Month::January
        } else if n == 2 {
            Month::February
        } else if n == 3 {
            Month::March
        } else if n == 4 {
            Month::April
        } else if n == 5 {
            Month::May
        } else if n == 6 {
            Month::June
        } else if n == 7 {
            Month::July
        } else if n == 8 {
            Month::August
        } else if n == 9 {
            Month::September
        } else if n == 10 {
            Month::October
        } else if n == 11 {
            Month::November
        } else {
            Month::December
        }
    }

    /// The place of the month in the year.
    pub fn number(self) -> (n: u8)
        ensures
            n == self.ordinal(),
    {
        match self {
            Month::January => 1,
            Month::February => 2,
            Month::March => 3,
            Month::April => 4,
            Month::May => 5,
            Month::June => 6,
            Month::July => 7,
            Month::August => 8,
            Month::September => 9,
            Month::October => 10,
            Month::November => 11,
            Month::December => 12,
        }
    }

    /// The month that stands at place `n` of the year, for `n` from 1 to 12.
    pub fn from_number(n: u8) -> (month: Option<Month>)
        ensures
            month == (if 1 <= n <= 12 {
                Some(Month::at(n as int))
            } else {
                None
            }),
    {
        match n {
            1 => Some(Month::January),
            2 => Some(Month::February),
            3 => Some(Month::March),
            4 => Some(Month::April),
            5 => Some(Month::May),
            6 => Some(Month::June),
            7 => Some(Month::July),
            8 => Some(Month::August),
            9 => Some(Month::September),
            10 => Some(Month::October),
            11 => Some(Month::November),
            12 => Some(Month::December),
            _ => None,
        }
    }
}

impl Serialize for Month {
    open spec fn value(self) -> int {
        self.ordinal()
    }

    fn serialize(self, buf: &mut [u8]) {
        encode(self.number() as u128, buf)
    }
}

/// The months and their places in the year answer one another.
pub proof fn lemma_month_places(month: Month, n: int)
    ensures
        1 <= month.ordinal() <= 12,
        Month::at(month.ordinal()) == month,
        1 <= n <= 12 ==> Month::at(n).ordinal() == n,
{
}

/// A numeral holds nothing but the ten ASCII digits, and as many of them as
/// the width asks for.
pub proof fn lemma_decimal_is_digits(value: nat, width: nat)
    ensures
        decimal(value, width).len() == width,
        forall|i: int| 0 <= i < width ==> is_digit(#[trigger] decimal(value, width)[i]),
{
}

/// The number that the ASCII digits `digits` spell, most significant first.
pub open spec fn numeral_value(digits: Seq<u8>) -> nat
    decreases digits.len(),
{
    if digits.len() == 0 {
        0
    } else {
        (numeral_value(digits.drop_last()) * 10 + (digits.last() - ASCII_ZERO)) as nat
    }
}

/// A numeral spells the value it was made of, cut down to the digits that the
/// width has room for: the value itself where it is below ten to the width.
pub proof fn lemma_decimal_spells_value(value: nat, width: nat)
    ensures
        numeral_value(decimal(value, width)) == value % (pow(10, width) as nat),
        value < pow(10, width) ==> numeral_value(decimal(value, width)) == value,
    decreases width,
{
    lemma_pow_positive(10, width);
    if width == 0 {
        lemma_pow0(10);
    } else {
        let shorter = (width - 1) as nat;
        lemma_decimal_spells_value(value / 10, shorter);
        lemma_pow_positive(10, shorter);
        lemma_pow1(10);
        lemma_pow_adds(10, 1, shorter);
        lemma_pow0(10);
        assert forall|i: int| 0 <= i < shorter implies decimal(value, width).drop_last()[i]
            == decimal(value / 10, shorter)[i] by {
            let place = (shorter - 1 - i) as nat;
            lemma_pow_positive(10, place);
            lemma_pow_adds(10, 1, place);
            lemma_div_denominator(value as int, 10, pow(10, place));
        }
        assert(decimal(value, width).drop_last() =~= decimal(value / 10, shorter));
        assert(decimal(value, width).last() == ASCII_ZERO + value % 10);
        lemma_mod_breakdown(value as int, 10, pow(10, shorter));
    }
    if value < pow(10, width) {
        lemma_small_mod(value, pow(10, width) as nat);
    }
}

} // verus!
