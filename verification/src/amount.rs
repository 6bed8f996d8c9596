use crate::digits::{fixed_digits, nat_text, push_fixed_digits, push_nat_text};
use crate::text::string_of;
use rust_decimal::Decimal;
use vstd::prelude::*;

verus! {

/// Largest number of fractional digits a decimal can carry.
pub const MAX_SCALE: u32 = 28;

/// Largest magnitude of a decimal's mantissa: 2^96 - 1.
pub const MAX_MANTISSA: i128 = 79_228_162_514_264_337_593_543_950_335;

/// `10^n`.
pub open spec fn pow10(n: nat) -> int
    decreases n,
{
    if n == 0 {
        1
    } else {
        10 * pow10((n - 1) as nat)
    }
}

/// The mathematical content of a decimal: the number `mantissa / 10^scale`.
pub struct Dec {
    pub mantissa: int,
    pub scale: nat,
}

impl Dec {
    /// The representation fits a 96-bit magnitude and at most 28 fractional digits.
    pub open spec fn wf(self) -> bool {
        &&& -MAX_MANTISSA <= self.mantissa <= MAX_MANTISSA
        &&& self.scale <= MAX_SCALE
    }

    /// The number denoted, counted in units of `10^-28`. Two decimals denote the
    /// same number exactly when their values agree.
    pub open spec fn value(self) -> int {
        self.mantissa * pow10((MAX_SCALE - self.scale) as nat)
    }

    /// The whole number `n`.
    pub open spec fn whole(n: int) -> Dec {
        Dec { mantissa: n, scale: 0 }
    }

    pub open spec fn is_zero(self) -> bool {
        self.mantissa == 0
    }

    pub open spec fn is_positive(self) -> bool {
        self.mantissa > 0
    }

    pub open spec fn is_negative(self) -> bool {
        self.mantissa < 0
    }

    pub open spec fn lt(self, other: Dec) -> bool {
        self.value() < other.value()
    }

    pub open spec fn le(self, other: Dec) -> bool {
        self.value() <= other.value()
    }

    pub open spec fn same_number(self, other: Dec) -> bool {
        self.value() == other.value()
    }

    /// Whether the decimal parser reads the plain notation of the decimal back
    /// as the decimal itself, with its mantissa and its scale.
    pub open spec fn reads_back(self) -> bool {
        decimal_parsed(self.text()) == Some(self)
    }

    /// The magnitude of the mantissa.
    pub open spec fn magnitude(self) -> nat {
        if self.mantissa < 0 {
            (-self.mantissa) as nat
        } else {
            self.mantissa as nat
        }
    }

    /// The plain decimal notation: a minus sign where the mantissa is negative, the
    /// digits of the whole part, and, where the scale is not zero, a point and as
    /// many fractional digits as the scale says.
    pub open spec fn text(self) -> Seq<char> {
        let unit = pow10(self.scale) as nat;
        let whole = nat_text(self.magnitude() / unit);
        let signed = if self.mantissa < 0 {
            seq!['-'] + whole
        } else {
            whole
        };
        if self.scale == 0 {
            signed
        } else {
            signed + seq!['.'] + fixed_digits(self.magnitude() % unit, self.scale)
        }
    }
}

/// What `Decimal::checked_add` returns on two decimals given by mantissa and scale.
pub uninterp spec fn decimal_sum(a: Dec, b: Dec) -> Option<Dec>;

/// What `Decimal::checked_sub` returns on two decimals given by mantissa and scale.
pub uninterp spec fn decimal_difference(a: Dec, b: Dec) -> Option<Dec>;

/// What `Decimal::checked_mul` returns on two decimals given by mantissa and scale.
pub uninterp spec fn decimal_product(a: Dec, b: Dec) -> Option<Dec>;

/// What `Decimal::checked_div` returns on two decimals given by mantissa and scale.
pub uninterp spec fn decimal_quotient(a: Dec, b: Dec) -> Option<Dec>;

/// What `Decimal::from_str` makes of a text, `None` where it refuses it.
pub uninterp spec fn decimal_parsed(text: Seq<char>) -> Option<Dec>;

/// An exact decimal quantity: a signed 96-bit mantissa with up to 28 fractional digits.
#[derive(Clone, Copy, Debug)]
pub struct Amount {
    mantissa: i128,
    scale: u32,
}

impl View for Amount {
    type V = Dec;

    closed spec fn view(&self) -> Dec {
        Dec { mantissa: self.mantissa as int, scale: self.scale as nat }
    }
}

/// The view of an optional amount.
pub open spec fn view_of(r: Option<Amount>) -> Option<Dec> {
    match r {
        Some(a) => Some(a@),
        None => None,
    }
}

proof fn lemma_pow10_positive(n: nat)
    ensures
        pow10(n) > 0,
    decreases n,
{
    if n > 0 {
        lemma_pow10_positive((n - 1) as nat);
    }
}

/// The sign of a decimal's value is the sign of its mantissa.
pub proof fn lemma_value_sign(d: Dec)
    requires
        d.scale <= MAX_SCALE,
    ensures
        d.value() > 0 <==> d.mantissa > 0,
        d.value() == 0 <==> d.mantissa == 0,
        d.value() < 0 <==> d.mantissa < 0,
{
    let p = pow10((MAX_SCALE - d.scale) as nat);
    lemma_pow10_positive((MAX_SCALE - d.scale) as nat);
    assert(d.mantissa > 0 ==> d.mantissa * p > 0) by (nonlinear_arith)
        requires
            p > 0,
    ;
    assert(d.mantissa < 0 ==> d.mantissa * p < 0) by (nonlinear_arith)
        requires
            p > 0,
    ;
    assert(d.mantissa == 0 ==> d.mantissa * p == 0) by (nonlinear_arith);
}

proof fn lemma_pow10_monotone(a: nat, b: nat)
    requires
        a <= b,
    ensures
        0 < pow10(a) <= pow10(b),
    decreases b,
{
    lemma_pow10_positive(a);
    if a < b {
        lemma_pow10_monotone(a, (b - 1) as nat);
    }
}

proof fn lemma_pow10_of_max_scale()
    ensures
        pow10(28) == 10_000_000_000_000_000_000_000_000_000,
{
    reveal_with_fuel(pow10, 29);
}

/// `10^n` for an `n` that a scale can be.
fn power_of_ten(n: u32) -> (r: u128)
    requires
        n <= MAX_SCALE,
    ensures
        r == pow10(n as nat),
        0 < r <= 10_000_000_000_000_000_000_000_000_000,
{
    let mut r: u128 = 1;
    let mut i: u32 = 0;
    proof {
        lemma_pow10_of_max_scale();
        lemma_pow10_monotone(0, 28);
    }
    while i < n
        invariant
            i <= n <= MAX_SCALE,
            r == pow10(i as nat),
            0 < r <= 10_000_000_000_000_000_000_000_000_000,
        decreases n - i,
    {
        proof {
            lemma_pow10_of_max_scale();
            lemma_pow10_monotone((i + 1) as nat, 28);
        }
        r = r * 10;
        i = i + 1;
    }
    r
}

impl Amount {
    #[verifier::type_invariant]
    pub open spec fn inv(self) -> bool {
        self@.wf()
    }

    /// The amount `mantissa / 10^scale`, where the representation holds it.
    pub fn new(mantissa: i128, scale: u32) -> (r: Option<Amount>)
        ensures
            r is Some <==> (Dec { mantissa: mantissa as int, scale: scale as nat }).wf(),
            r matches Some(a) ==> a@ == (Dec { mantissa: mantissa as int, scale: scale as nat }),
    {
        if scale <= MAX_SCALE && -MAX_MANTISSA <= mantissa && mantissa <= MAX_MANTISSA {
            Some(Amount { mantissa, scale })
        } else {
            None
        }
    }

    /// The whole number `n`.
    pub fn from_int(n: i64) -> (r: Amount)
        ensures
            r@ == Dec::whole(n as int),
    {
        Amount { mantissa: n as i128, scale: 0 }
    }

    /// The number 0.
    pub fn zero() -> (r: Amount)
        ensures
            r@ == Dec::whole(0),
    {
        Amount { mantissa: 0, scale: 0 }
    }

    /// The number 1.
    pub fn one() -> (r: Amount)
        ensures
            r@ == Dec::whole(1),
    {
        Amount { mantissa: 1, scale: 0 }
    }

    pub fn mantissa(&self) -> (m: i128)
        ensures
            m == self@.mantissa,
            -MAX_MANTISSA <= m <= MAX_MANTISSA,
    {
        proof {
            use_type_invariant(self);
        }
        self.mantissa
    }

    pub fn scale(&self) -> (s: u32)
        ensures
            s == self@.scale,
            s <= MAX_SCALE,
    {
        proof {
            use_type_invariant(self);
        }
        self.scale
    }

    pub fn is_zero(&self) -> (r: bool)
        ensures
            r == self@.is_zero(),
            r == (self@.value() == 0),
    {
        proof {
            use_type_invariant(self);
            lemma_value_sign(self@);
        }
        self.mantissa == 0
    }

    pub fn is_positive(&self) -> (r: bool)
        ensures
            r == self@.is_positive(),
            r == (self@.value() > 0),
    {
        proof {
            use_type_invariant(self);
            lemma_value_sign(self@);
        }
        self.mantissa > 0
    }

    pub fn is_negative(&self) -> (r: bool)
        ensures
            r == self@.is_negative(),
            r == (self@.value() < 0),
    {
        proof {
            use_type_invariant(self);
            lemma_value_sign(self@);
        }
        self.mantissa < 0
    }

    /// Whether `self` denotes a smaller number than `other`.
    pub fn lt(&self, other: &Amount) -> (r: bool)
        ensures
            r == self@.lt(other@),
    {
        proof {
            use_type_invariant(self);
            use_type_invariant(other);
        }
        decimal_lt(*self, *other)
    }

    /// The plain decimal notation of the amount.
    pub fn to_text(&self) -> (r: String)
        ensures
            r@ == self@.text(),
    {
        proof {
            use_type_invariant(self);
        }
        let magnitude: u128 = if self.mantissa < 0 {
            (-self.mantissa) as u128
        } else {
            self.mantissa as u128
        };
        let unit = power_of_ten(self.scale);
        let mut out: Vec<char> = Vec::new();
        if self.mantissa < 0 {
            out.push('-');
        }
        push_nat_text(magnitude / unit, &mut out);
        if self.scale > 0 {
            out.push('.');
            push_fixed_digits(magnitude % unit, self.scale, &mut out);
        }
        assert(out@ =~= self@.text());
        string_of(&out)
    }

    /// Reads a decimal number from text as `Decimal::from_str` does.
    pub fn parse(text: &str) -> (r: Option<Amount>)
        ensures
            view_of(r) == decimal_parsed(text@),
    {
        decimal_from_text(text)
    }

    /// Whether the amount is read back from its own plain notation.
    pub fn reads_back(&self) -> (r: bool)
        ensures
            r == self@.reads_back(),
    {
        match Amount::parse(self.to_text().as_str()) {
            Some(back) => back.mantissa == self.mantissa && back.scale == self.scale,
            None => false,
        }
    }
}

impl PartialEq for Amount {
    /// Two amounts are equal when they denote the same number, whatever their scales.
    fn eq(&self, other: &Amount) -> (r: bool) {
        proof {
            use_type_invariant(self);
            use_type_invariant(other);
        }
        decimal_eq(*self, *other)
    }
}

impl vstd::std_specs::cmp::PartialEqSpecImpl for Amount {
    open spec fn obeys_eq_spec() -> bool {
        true
    }

    open spec fn eq_spec(&self, other: &Amount) -> bool {
        self@.same_number(other@)
    }
}

/// `Decimal::checked_add` on the two decimals: the result is the named sum, and
/// the sum of two decimals that are not negative is not negative.
#[verifier::external_body]
pub(crate) fn decimal_add(a: Amount, b: Amount) -> (r: Option<Amount>)
    requires
        a@.wf(),
        b@.wf(),
    ensures
        view_of(r) == decimal_sum(a@, b@),
        r matches Some(x) ==> x@.wf(),
        r matches Some(x) ==> (a@.mantissa >= 0 && b@.mantissa >= 0 ==> x@.mantissa >= 0),
{
    let x = Decimal::from_i128_with_scale(a.mantissa, a.scale);
    let y = Decimal::from_i128_with_scale(b.mantissa, b.scale);
    match x.checked_add(y) {
        Some(d) => Some(Amount { mantissa: d.mantissa(), scale: d.scale() }),
        None => None,
    }
}

/// `Decimal::checked_sub` on the two decimals: the result is the named difference,
/// and taking away a number that is not larger leaves a decimal that is not negative.
#[verifier::external_body]
pub(crate) fn decimal_sub(a: Amount, b: Amount) -> (r: Option<Amount>)
    requires
        a@.wf(),
        b@.wf(),
    ensures
        view_of(r) == decimal_difference(a@, b@),
        r matches Some(x) ==> x@.wf(),
        r matches Some(x) ==> (b@.le(a@) ==> x@.mantissa >= 0),
{
    let x = Decimal::from_i128_with_scale(a.mantissa, a.scale);
    let y = Decimal::from_i128_with_scale(b.mantissa, b.scale);
    match x.checked_sub(y) {
        Some(d) => Some(Amount { mantissa: d.mantissa(), scale: d.scale() }),
        None => None,
    }
}

/// `Decimal::checked_mul` on the two decimals: the result is the named product, and
/// the product of two decimals that are not negative is not negative.
#[verifier::external_body]
pub(crate) fn decimal_mul(a: Amount, b: Amount) -> (r: Option<Amount>)
    requires
        a@.wf(),
        b@.wf(),
    ensures
        view_of(r) == decimal_product(a@, b@),
        r matches Some(x) ==> x@.wf(),
        r matches Some(x) ==> (a@.mantissa >= 0 && b@.mantissa >= 0 ==> x@.mantissa >= 0),
{
    let x = Decimal::from_i128_with_scale(a.mantissa, a.scale);
    let y = Decimal::from_i128_with_scale(b.mantissa, b.scale);
    match x.checked_mul(y) {
        Some(d) => Some(Amount { mantissa: d.mantissa(), scale: d.scale() }),
        None => None,
    }
}

/// `Decimal::checked_div` on the two decimals: the result is the named quotient,
/// there is none for a zero divisor, and a decimal that is not negative divided by
/// a positive one is not negative.
#[verifier::external_body]
pub(crate) fn decimal_div(a: Amount, b: Amount) -> (r: Option<Amount>)
    requires
        a@.wf(),
        b@.wf(),
    ensures
        view_of(r) == decimal_quotient(a@, b@),
        r matches Some(x) ==> x@.wf(),
        b@.mantissa == 0 ==> r is None,
        r matches Some(x) ==> (a@.mantissa >= 0 && b@.mantissa > 0 ==> x@.mantissa >= 0),
{
    let x = Decimal::from_i128_with_scale(a.mantissa, a.scale);
    let y = Decimal::from_i128_with_scale(b.mantissa, b.scale);
    match x.checked_div(y) {
        Some(d) => Some(Amount { mantissa: d.mantissa(), scale: d.scale() }),
        None => None,
    }
}

/// `<` of `Decimal`, which orders decimals by the numbers they denote.
#[verifier::external_body]
pub(crate) fn decimal_lt(a: Amount, b: Amount) -> (r: bool)
    requires
        a@.wf(),
        b@.wf(),
    ensures
        r == a@.lt(b@),
{
    let x = Decimal::from_i128_with_scale(a.mantissa, a.scale);
    let y = Decimal::from_i128_with_scale(b.mantissa, b.scale);
    x < y
}

/// `==` of `Decimal`, which holds of two decimals that denote the same number.
#[verifier::external_body]
pub(crate) fn decimal_eq(a: Amount, b: Amount) -> (r: bool)
    requires
        a@.wf(),
        b@.wf(),
    ensures
        r == a@.same_number(b@),
{
    let x = Decimal::from_i128_with_scale(a.mantissa, a.scale);
    let y = Decimal::from_i128_with_scale(b.mantissa, b.scale);
    x == y
}

/// `Decimal::from_str` on the text: the result is the named reading of it.
#[verifier::external_body]
pub(crate) fn decimal_from_text(text: &str) -> (r: Option<Amount>)
    ensures
        view_of(r) == decimal_parsed(text@),
        r matches Some(x) ==> x@.wf(),
{
    match text.parse::<Decimal>() {
        Ok(d) => Some(Amount { mantissa: d.mantissa(), scale: d.scale() }),
        Err(_) => None,
    }
}

} // verus!
