//! Resource amounts: a decimal number followed by a unit.
//!
//! An amount is weighed exactly, as an integer over a power of ten. Leading
//! zeros and the zeros at the end of a fraction do not count. What remains
//! out is an amount whose digits, times the factor of its unit, do not fit
//! into 128 bits.
use vstd::prelude::*;
use crate::error::Error;
use crate::text::{chars_of, same_chars};

verus! {

/// An exact, non-negative amount: `num` over ten to the power `scale`.
#[derive(Clone, Copy, Debug, PartialEq, Eq, Structural)]
pub struct Quantity {
    pub num: u128,
    pub scale: u128,
}

/// Ten to the power `n`.
pub open spec fn pow10(n: nat) -> nat
    decreases n,
{
    if n == 0 {
        1
    } else {
        10 * pow10((n - 1) as nat)
    }
}

/// A power of ten is at least one, and grows with its exponent.
pub proof fn lemma_pow10_grows(a: nat, b: nat)
    requires
        a <= b,
    ensures
        1 <= pow10(a) <= pow10(b),
    decreases b,
{
    if a < b {
        lemma_pow10_grows(a, (b - 1) as nat);
    } else if a > 0 {
        lemma_pow10_grows((a - 1) as nat, (b - 1) as nat);
    }
}

/// Powers of ten multiply as their exponents add.
pub proof fn lemma_pow10_adds(a: nat, b: nat)
    ensures
        pow10(a + b) == pow10(a) * pow10(b),
    decreases b,
{
    if b > 0 {
        lemma_pow10_adds(a, (b - 1) as nat);
        assert(pow10(a + b) == 10 * pow10((a + b - 1) as nat));
        assert(10 * (pow10(a) * pow10((b - 1) as nat)) == pow10(a) * (10 * pow10((b - 1) as nat)))
            by (nonlinear_arith);
    } else {
        assert(pow10(a) * 1 == pow10(a));
    }
}

/// `x` times ten to the power `d`, where that fits into 128 bits.
pub fn scaled(x: u128, d: u128) -> (r: Option<u128>)
    ensures
        match r {
            Some(v) => v == x * pow10(d as nat),
            None => x * pow10(d as nat) > u128::MAX,
        },
{
    if x == 0 {
        assert(0 * pow10(d as nat) == 0);
        return Some(0);
    }
    let mut v: u128 = x;
    let mut i: u128 = 0;
    assert(x * pow10(0) == x) by {
        assert(pow10(0) == 1);
    }
    while i < d
        invariant
            i <= d,
            x >= 1,
            v == x * pow10(i as nat),
        decreases d - i,
    {
        proof {
            assert(x * pow10((i + 1) as nat) == (x * pow10(i as nat)) * 10) by {
                assert(pow10((i + 1) as nat) == 10 * pow10(i as nat));
                assert(x * (10 * pow10(i as nat)) == (x * pow10(i as nat)) * 10)
                    by (nonlinear_arith);
            }
        }
        match v.checked_mul(10) {
            None => {
                proof {
                    lemma_pow10_grows((i + 1) as nat, d as nat);
                    assert(x * pow10((i + 1) as nat) <= x * pow10(d as nat)) by (nonlinear_arith)
                        requires
                            pow10((i + 1) as nat) <= pow10(d as nat),
                            x >= 1,
                    ;
                }
                return None;
            },
            Some(w) => {
                v = w;
            },
        }
        i += 1;
    }
    Some(v)
}

impl Quantity {
    /// Whether `self` is at most `other`, as fractions.
    pub open spec fn le_spec(self, other: Quantity) -> bool {
        self.num * pow10(other.scale as nat) <= other.num * pow10(self.scale as nat)
    }

    /// Whether `self` is more than `units` whole units.
    pub open spec fn exceeds_spec(self, units: u64) -> bool {
        self.num > units * pow10(self.scale as nat)
    }

    /// Whether `self` is at most `other`.
    pub fn le(&self, other: &Quantity) -> (r: bool)
        ensures
            r == self.le_spec(*other),
    {
        if self.scale <= other.scale {
            let d = other.scale - self.scale;
            proof {
                lemma_pow10_adds(self.scale as nat, d as nat);
                lemma_pow10_grows(0, self.scale as nat);
                let p = pow10(self.scale as nat);
                let q = pow10(d as nat);
                let x = self.num as int;
                let y = other.num as int;
                assert((x * (p * q) <= y * p) <==> (x * q <= y)) by (nonlinear_arith)
                    requires
                        p >= 1,
                ;
            }
            match scaled(self.num, d) {
                None => false,
                Some(x) => x <= other.num,
            }
        } else {
            let d = self.scale - other.scale;
            proof {
                lemma_pow10_adds(other.scale as nat, d as nat);
                lemma_pow10_grows(0, other.scale as nat);
                let p = pow10(other.scale as nat);
                let q = pow10(d as nat);
                let x = self.num as int;
                let y = other.num as int;
                assert((x * p <= y * (p * q)) <==> (x <= y * q)) by (nonlinear_arith)
                    requires
                        p >= 1,
                ;
            }
            match scaled(other.num, d) {
                None => true,
                Some(y) => self.num <= y,
            }
        }
    }

    /// Whether `self` is more than `units` whole units.
    pub fn exceeds(&self, units: u64) -> (r: bool)
        ensures
            r == self.exceeds_spec(units),
    {
        match scaled(units as u128, self.scale) {
            None => false,
            Some(y) => self.num > y,
        }
    }
}

/// Whether `c` is a decimal digit.
pub open spec fn is_digit(c: char) -> bool {
    '0' <= c && c <= '9'
}

/// Whether `c` can stand in the number of an amount.
pub open spec fn is_amount_char(c: char) -> bool {
    is_digit(c) || c == '.'
}

/// The value of the digit `c`.
pub open spec fn digit_value(c: char) -> nat {
    (c as u32 - '0' as u32) as nat
}

/// The length of the longest prefix of `s` made of digits and dots.
pub open spec fn number_len(s: Seq<char>) -> nat
    decreases s.len(),
{
    if s.len() > 0 && is_amount_char(s.first()) {
        1 + number_len(s.drop_first())
    } else {
        0
    }
}

/// How many dots `ds` holds.
pub open spec fn dot_count(ds: Seq<char>) -> nat
    decreases ds.len(),
{
    if ds.len() == 0 {
        0
    } else {
        dot_count(ds.drop_last()) + if ds.last() == '.' {
            1nat
        } else {
            0nat
        }
    }
}

/// How many digits `ds` holds.
pub open spec fn digit_count(ds: Seq<char>) -> nat
    decreases ds.len(),
{
    if ds.len() == 0 {
        0
    } else {
        digit_count(ds.drop_last()) + if is_digit(ds.last()) {
            1nat
        } else {
            0nat
        }
    }
}

/// How many digits follow the last dot of `ds`; zero if there is no dot.
pub open spec fn fraction_digits(ds: Seq<char>) -> nat
    decreases ds.len(),
{
    if ds.len() == 0 || ds.last() == '.' || dot_count(ds.drop_last()) == 0 {
        0
    } else {
        fraction_digits(ds.drop_last()) + if is_digit(ds.last()) {
            1nat
        } else {
            0nat
        }
    }
}

/// The number that the digits of `ds` spell, dots left out.
pub open spec fn mantissa(ds: Seq<char>) -> nat
    decreases ds.len(),
{
    if ds.len() == 0 {
        0
    } else if is_digit(ds.last()) {
        mantissa(ds.drop_last()) * 10 + digit_value(ds.last())
    } else {
        mantissa(ds.drop_last())
    }
}

/// `ds` without the zeros at the end of its fraction.
pub open spec fn significant(ds: Seq<char>) -> Seq<char>
    decreases ds.len(),
{
    if ds.len() > 0 && ds.last() == '0' && dot_count(ds) > 0 {
        significant(ds.drop_last())
    } else {
        ds
    }
}

/// The number `ds` as an integer and the power of ten to divide it by, read
/// from its significant part: `ds` must hold a digit and at most one dot.
pub open spec fn number_of(ds: Seq<char>) -> Result<(nat, nat), Error> {
    if dot_count(ds) > 1 || digit_count(ds) == 0 {
        Err(Error::InvalidNumber)
    } else {
        Ok((mantissa(significant(ds)), fraction_digits(significant(ds))))
    }
}

/// What a memory unit multiplies by: powers of 1024 for `Ki`, `Mi`, `Gi`,
/// powers of 1000 for `k`, `M`, `G`, one for no unit.
pub open spec fn memory_factor(unit: Seq<char>) -> Option<nat> {
    if unit == "Ki"@ {
        Some(1024nat)
    } else if unit == "Mi"@ {
        Some(1_048_576nat)
    } else if unit == "Gi"@ {
        Some(1_073_741_824nat)
    } else if unit == "k"@ {
        Some(1_000nat)
    } else if unit == "M"@ {
        Some(1_000_000nat)
    } else if unit == "G"@ {
        Some(1_000_000_000nat)
    } else if unit == ""@ {
        Some(1nat)
    } else {
        None
    }
}

/// What a CPU unit multiplies by, and by how many powers of ten it divides:
/// `m` divides by 1000, `k` multiplies by 1000, no unit leaves cores.
pub open spec fn cpu_factor(unit: Seq<char>) -> Option<(nat, nat)> {
    if unit == "m"@ {
        Some((1nat, 3nat))
    } else if unit == "k"@ {
        Some((1000nat, 0nat))
    } else if unit == ""@ {
        Some((1nat, 0nat))
    } else {
        None
    }
}

/// The amount `m` times `f`, over ten to the power `scale`, where it fits.
pub open spec fn amount(m: nat, f: nat, scale: nat) -> Result<Quantity, Error> {
    if m * f > u128::MAX {
        Err(Error::NumberTooLarge)
    } else {
        Ok(Quantity { num: (m * f) as u128, scale: scale as u128 })
    }
}

/// The amount of memory that `s` states, in bytes: its number times the
/// factor of its unit.
pub open spec fn memory_of(s: Seq<char>) -> Result<Quantity, Error> {
    let n = number_len(s) as int;
    match number_of(s.take(n)) {
        Err(e) => Err(e),
        Ok((m, d)) => match memory_factor(s.skip(n)) {
            None => Err(Error::UnknownUnit),
            Some(f) => amount(m, f, d),
        },
    }
}

/// The amount of CPU that `s` states, in cores: its number times the factor
/// of its unit.
pub open spec fn cpu_of(s: Seq<char>) -> Result<Quantity, Error> {
    let n = number_len(s) as int;
    match number_of(s.take(n)) {
        Err(e) => Err(e),
        Ok((m, d)) => match cpu_factor(s.skip(n)) {
            None => Err(Error::UnknownUnit),
            Some((f, shift)) => amount(m, f, d + shift),
        },
    }
}

/// The significant part of a number is a prefix of it, and stands for the
/// same number with fewer zeros: the integer of the whole is that of the
/// part times ten for every zero dropped, and the fraction is longer by
/// those zeros.
pub proof fn lemma_significant(ds: Seq<char>)
    ensures
        significant(ds).len() <= ds.len(),
        significant(ds) == ds.take(significant(ds).len() as int),
        dot_count(significant(ds)) == dot_count(ds),
        mantissa(ds) == mantissa(significant(ds)) * pow10(
            (ds.len() - significant(ds).len()) as nat,
        ),
        fraction_digits(ds) == fraction_digits(significant(ds)) + (ds.len() - significant(
            ds,
        ).len()),
    decreases ds.len(),
{
    if ds.len() > 0 && ds.last() == '0' && dot_count(ds) > 0 {
        let front = ds.drop_last();
        lemma_significant(front);
        let t = significant(front);
        let z = (front.len() - t.len()) as nat;
        assert(front.take(t.len() as int) =~= ds.take(t.len() as int));
        assert(pow10(z + 1) == 10 * pow10(z));
        assert(mantissa(ds) == mantissa(front) * 10 + 0);
        assert((mantissa(t) * pow10(z)) * 10 == mantissa(t) * (10 * pow10(z))) by (nonlinear_arith);
    } else {
        assert(ds.take(ds.len() as int) =~= ds);
        assert(pow10(0) == 1);
        assert(mantissa(ds) * 1 == mantissa(ds));
    }
}

/// Whether the first `k` characters of `ds` do not end in a zero of the
/// fraction.
pub open spec fn ends_significant(ds: Seq<char>, k: int) -> bool {
    0 < k <= ds.len() && (ds[k - 1] != '0' || dot_count(ds.take(k)) == 0)
}

/// A prefix that does not end in a zero of the fraction is part of the
/// significant part.
pub proof fn lemma_significant_keeps(ds: Seq<char>, k: int)
    requires
        ends_significant(ds, k),
    ensures
        significant(ds).len() >= k,
    decreases ds.len(),
{
    if ds.len() == k {
        assert(ds.take(k) =~= ds);
    } else if ds.len() > 0 && ds.last() == '0' && dot_count(ds) > 0 {
        let front = ds.drop_last();
        assert(front.take(k) =~= ds.take(k));
        lemma_significant_keeps(front, k);
    }
}

/// The digits of a prefix spell no more than the digits of a longer prefix.
pub proof fn lemma_mantissa_grows(ds: Seq<char>, a: int, b: int)
    requires
        0 <= a <= b <= ds.len(),
    ensures
        mantissa(ds.take(a)) <= mantissa(ds.take(b)),
    decreases b - a,
{
    if a < b {
        lemma_mantissa_grows(ds, a, b - 1);
        assert(ds.take(b).drop_last() =~= ds.take(b - 1));
    }
}

fn is_digit_char(c: char) -> (r: bool)
    ensures
        r == is_digit(c),
{
    '0' <= c && c <= '9'
}

/// Where the number of the amount `v` ends and its unit begins.
fn number_end(v: &Vec<char>) -> (n: usize)
    ensures
        n == number_len(v@),
        n <= v@.len(),
        forall|j: int| 0 <= j < n ==> is_amount_char(#[trigger] v@[j]),
{
    let mut i: usize = 0;
    assert(v@.skip(0) == v@);
    while i < v.len() && (is_digit_char(v[i]) || v[i] == '.')
        invariant
            i <= v.len(),
            number_len(v@) == i + number_len(v@.skip(i as int)),
            forall|j: int| 0 <= j < i ==> is_amount_char(#[trigger] v@[j]),
        decreases v.len() - i,
    {
        assert(v@.skip(i as int).first() == v@[i as int]);
        assert(v@.skip(i as int).drop_first() == v@.skip(i + 1));
        i += 1;
    }
    proof {
        if i < v.len() {
            assert(v@.skip(i as int).first() == v@[i as int]);
        }
    }
    i
}

/// Reads the number held in the first `n` characters of `v`: its integer,
/// where that fits into 128 bits, and the length of its fraction.
fn read_number(v: &Vec<char>, n: usize) -> (r: Result<(Option<u128>, usize), Error>)
    requires
        n <= v@.len(),
        forall|j: int| 0 <= j < n ==> is_amount_char(#[trigger] v@[j]),
    ensures
        match number_of(v@.take(n as int)) {
            Ok((m, d)) => r matches Ok((fits, scale)) && scale == d && match fits {
                Some(x) => x == m,
                None => m > u128::MAX,
            },
            Err(e) => r == Err::<(Option<u128>, usize), Error>(e),
        },
{
    let mut dots: usize = 0;
    let mut digits: usize = 0;
    let mut scale: usize = 0;
    let mut zeros: usize = 0;
    let mut m: u128 = 0;
    let mut over: bool = false;
    let ghost mut over_at: int = 0;
    let mut i: usize = 0;
    proof {
        assert(v@.take(0) =~= Seq::<char>::empty());
    }
    while i < n
        invariant
            i <= n <= v@.len(),
            forall|j: int| 0 <= j < n ==> is_amount_char(#[trigger] v@[j]),
            dots == dot_count(v@.take(i as int)),
            digits == digit_count(v@.take(i as int)),
            dots <= i,
            digits <= i,
            scale + zeros <= i,
            dots <= 1 ==> {
                &&& zeros == i - significant(v@.take(i as int)).len()
                &&& scale == fraction_digits(significant(v@.take(i as int)))
                &&& !over ==> m == mantissa(significant(v@.take(i as int)))
                &&& over ==> ends_significant(v@, over_at) && over_at <= i && mantissa(
                    v@.take(over_at),
                ) > u128::MAX
            },
        decreases n - i,
    {
        let c = v[i];
        let ghost p = v@.take(i as int);
        let ghost q = v@.take(i + 1);
        proof {
            assert(is_amount_char(v@[i as int]));
            assert(q.drop_last() =~= p);
            assert(q.last() == c);
            lemma_significant(p);
        }
        if c == '.' {
            proof {
                if dots == 0 {
                    assert(significant(p) == p);
                }
            }
            dots += 1;
            scale = 0;
            zeros = 0;
        } else {
            digits += 1;
            if dots == 0 {
                proof {
                    assert(significant(p) == p);
                    assert(significant(q) == q);
                    assert(fraction_digits(q) == 0);
                }
                if !over {
                    let d: u128 = (c as u32 - '0' as u32) as u128;
                    let next = match m.checked_mul(10) {
                        None => None,
                        Some(x) => x.checked_add(d),
                    };
                    match next {
                        Some(y) => {
                            m = y;
                        },
                        None => {
                            over = true;
                            proof {
                                over_at = i + 1;
                            }
                        },
                    }
                }
            } else if dots == 1 {
                if c == '0' {
                    assert(significant(q) == significant(p));
                    zeros += 1;
                } else {
                    proof {
                        assert(significant(q) == q);
                        assert(fraction_digits(q) == fraction_digits(p) + 1);
                        assert(mantissa(q) == mantissa(p) * 10 + digit_value(c));
                        assert(pow10((zeros + 1) as nat) == 10 * pow10(zeros as nat));
                        assert(mantissa(significant(p)) * (10 * pow10(zeros as nat)) == (mantissa(
                            significant(p),
                        ) * pow10(zeros as nat)) * 10) by (nonlinear_arith);
                    }
                    if !over {
                        let d: u128 = (c as u32 - '0' as u32) as u128;
                        let next = match scaled(m, zeros as u128 + 1) {
                            None => None,
                            Some(x) => x.checked_add(d),
                        };
                        match next {
                            Some(y) => {
                                m = y;
                            },
                            None => {
                                over = true;
                                proof {
                                    over_at = i + 1;
                                }
                            },
                        }
                    }
                    scale = scale + zeros + 1;
                    zeros = 0;
                }
            }
        }
        i += 1;
    }
    if dots > 1 || digits == 0 {
        return Err(Error::InvalidNumber);
    }
    proof {
        let p = v@.take(n as int);
        if over {
            assert(p.take(over_at) =~= v@.take(over_at));
            lemma_significant_keeps(p, over_at);
            lemma_significant(p);
            lemma_mantissa_grows(p, over_at, significant(p).len() as int);
        }
    }
    if over {
        Ok((None, scale))
    } else {
        Ok((Some(m), scale))
    }
}

/// The characters of `v` from position `n` on.
fn tail_of(v: &Vec<char>, n: usize) -> (r: Vec<char>)
    requires
        n <= v@.len(),
    ensures
        r@ == v@.skip(n as int),
{
    let mut r: Vec<char> = Vec::new();
    let mut i: usize = n;
    while i < v.len()
        invariant
            n <= i <= v.len(),
            r@ == v@.subrange(n as int, i as int),
        decreases v.len() - i,
    {
        r.push(v[i]);
        assert(r@ =~= v@.subrange(n as int, i + 1));
        i += 1;
    }
    assert(r@ =~= v@.skip(n as int));
    r
}

fn unit_is(unit: &Vec<char>, name: &str) -> (r: bool)
    ensures
        r == (unit@ == name@),
{
    let w = chars_of(name);
    same_chars(unit, &w)
}

/// The amount of the integer `fits` times `f`, over ten to the power
/// `scale`; an integer that is absent does not fit into 128 bits.
fn weigh(fits: Option<u128>, f: u128, scale: u128) -> (r: Result<Quantity, Error>)
    ensures
        match fits {
            Some(x) => r == amount(x as nat, f as nat, scale as nat),
            None => r == Err::<Quantity, Error>(Error::NumberTooLarge),
        },
{
    match fits {
        None => Err(Error::NumberTooLarge),
        Some(x) => match x.checked_mul(f) {
            None => Err(Error::NumberTooLarge),
            Some(num) => Ok(Quantity { num, scale }),
        },
    }
}

/// Reads an amount of memory such as `512Mi`, in bytes.
pub fn parse_memory(s: &str) -> (r: Result<Quantity, Error>)
    ensures
        r == memory_of(s@),
{
    let v = chars_of(s);
    let n = number_end(&v);
    let ghost number = number_of(v@.take(n as int));
    let (fits, scale) = match read_number(&v, n) {
        Ok(found) => found,
        Err(e) => {
            return Err(e);
        },
    };
    let unit = tail_of(&v, n);
    let f: u128 = if unit_is(&unit, "Ki") {
        1024
    } else if unit_is(&unit, "Mi") {
        1_048_576
    } else if unit_is(&unit, "Gi") {
        1_073_741_824
    } else if unit_is(&unit, "k") {
        1_000
    } else if unit_is(&unit, "M") {
        1_000_000
    } else if unit_is(&unit, "G") {
        1_000_000_000
    } else if unit_is(&unit, "") {
        1
    } else {
        return Err(Error::UnknownUnit);
    };
    proof {
        let m = number->Ok_0.0;
        if fits is None {
            assert(m * f > u128::MAX) by (nonlinear_arith)
                requires
                    m > u128::MAX,
                    f >= 1,
            ;
        }
    }
    weigh(fits, f, scale as u128)
}

/// Reads an amount of CPU such as `500m`, in cores.
pub fn parse_cpu(s: &str) -> (r: Result<Quantity, Error>)
    ensures
        r == cpu_of(s@),
{
    let v = chars_of(s);
    let n = number_end(&v);
    let ghost number = number_of(v@.take(n as int));
    let (fits, scale) = match read_number(&v, n) {
        Ok(found) => found,
        Err(e) => {
            return Err(e);
        },
    };
    let unit = tail_of(&v, n);
    let (f, shift): (u128, u128) = if unit_is(&unit, "m") {
        (1, 3)
    } else if unit_is(&unit, "k") {
        (1000, 0)
    } else if unit_is(&unit, "") {
        (1, 0)
    } else {
        return Err(Error::UnknownUnit);
    };
    proof {
        let m = number->Ok_0.0;
        if fits is None {
            assert(m * f > u128::MAX) by (nonlinear_arith)
                requires
                    m > u128::MAX,
                    f >= 1,
            ;
        }
    }
    weigh(fits, f, scale as u128 + shift)
}

} // verus!
