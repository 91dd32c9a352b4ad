//! Domain value objects and their validation rules.

use vstd::prelude::*;

use crate::text::{trim_spec, trim_str, lemma_trim_idempotent};

verus! {

/// Errors raised by the domain layer when a raw value breaks an invariant.
#[derive(Debug, Clone)]
pub enum DomainError {
    InvalidProductId,
    InvalidProductName(String),
    InvalidMoney(String),
    InvalidStock(String),
    InsufficientStock,
    ProductNotFound,
}

/// Identity of a product: a positive 64-bit integer, immutable once built.
#[derive(Debug, Clone, Copy, PartialEq, Eq, Structural, Hash)]
pub struct ProductId {
    value: i64,
}

impl View for ProductId {
    type V = int;

    closed spec fn view(&self) -> int {
        self.value as int
    }
}

impl ProductId {
    /// Invariant: the identity is strictly positive.
    pub open spec fn wf(&self) -> bool {
        self@ > 0
    }

    pub fn new(value: i64) -> (r: Result<ProductId, DomainError>)
        ensures
            value <= 0 ==> (r matches Err(e) && e is InvalidProductId),
            value > 0 ==> (r matches Ok(id) && id@ == value && id.wf()),
    {
        if value <= 0 {
            return Err(DomainError::InvalidProductId);
        }
        Ok(ProductId { value })
    }

    pub fn value(&self) -> (r: i64)
        ensures
            r == self@,
    {
        self.value
    }

    /// Wraps an identity the store itself assigned, which is known to
    /// be positive.
    pub(crate) fn from_positive(value: i64) -> (r: ProductId)
        requires
            value > 0,
        ensures
            r@ == value,
            r.wf(),
    {
        ProductId { value }
    }
}

/// Human-readable product name: trimmed at construction, non-empty and
/// at most 255 characters after trimming.
#[derive(Debug)]
pub struct ProductName {
    value: String,
}

impl Clone for ProductName {
    fn clone(&self) -> (r: Self)
        ensures
            r == *self,
    {
        ProductName { value: self.value.clone() }
    }
}

impl View for ProductName {
    type V = Seq<char>;

    closed spec fn view(&self) -> Seq<char> {
        self.value@
    }
}

impl ProductName {
    /// Invariant: the stored name is its own trim, non-empty, and short
    /// enough to fit the store's column.
    pub open spec fn wf(&self) -> bool {
        &&& self@ == trim_spec(self@)
        &&& 0 < self@.len() <= 255
    }

    pub fn new(value: String) -> (r: Result<ProductName, DomainError>)
        ensures
            (r is Ok) <==> 0 < trim_spec(value@).len() <= 255,
            r matches Ok(n) ==> n@ == trim_spec(value@) && n.wf(),
            r matches Err(e) ==> e is InvalidProductName,
    {
        let trimmed = trim_str(value.as_str());
        let len = trimmed.as_str().unicode_len();
        if len == 0 {
            return Err(DomainError::InvalidProductName("Product name cannot be empty".to_owned()));
        }
        if len > 255 {
            return Err(DomainError::InvalidProductName("Product name too long".to_owned()));
        }
        proof {
            lemma_trim_idempotent(value@);
        }
        Ok(ProductName { value: trimmed })
    }

    pub fn value(&self) -> (r: &str)
        ensures
            r@ == self@,
    {
        self.value.as_str()
    }
}

/// Whether raw text is acceptable as a product name: non-empty and at
/// most 255 characters once trimmed.
pub open spec fn valid_name(s: Seq<char>) -> bool {
    0 < trim_spec(s).len() <= 255
}

/// Whether `c` is an ASCII decimal digit.
pub open spec fn is_digit(c: char) -> bool {
    48 <= c as u32 && c as u32 <= 57
}

/// Numeric value of an ASCII decimal digit.
pub open spec fn digit_val(c: char) -> int {
    c as u32 - 48
}

/// Value of a big-endian sequence of decimal digits.
pub open spec fn digits_val(s: Seq<char>) -> int
    decreases s.len(),
{
    if s.len() == 0 {
        0
    } else {
        digits_val(s.drop_last()) * 10 + digit_val(s.last())
    }
}

/// Index of the first `'.'` in `s`, or `s.len()` if there is none.
pub open spec fn first_dot(s: Seq<char>) -> int
    decreases s.len(),
{
    if s.len() == 0 {
        0
    } else if s[0] == '.' {
        0
    } else {
        1 + first_dot(s.drop_first())
    }
}

pub open spec fn all_digits(s: Seq<char>) -> bool {
    forall|i: int| 0 <= i < s.len() ==> is_digit(s[i])
}

/// A well-formed price literal: one or more integer digits, optionally
/// followed by a dot and one or more fractional digits.
pub open spec fn valid_money_str(s: Seq<char>) -> bool {
    let d = first_dot(s);
    &&& d > 0
    &&& all_digits(s.subrange(0, d))
    &&& d < s.len() ==> (d + 1 < s.len() && all_digits(s.subrange(d + 1, s.len() as int)))
}

/// The fractional digits of a price literal; empty when it has no dot.
pub open spec fn money_frac_of(s: Seq<char>) -> Seq<char> {
    let d = first_dot(s);
    if d < s.len() {
        s.subrange(d + 1, s.len() as int)
    } else {
        Seq::<char>::empty()
    }
}

/// The cents a price literal's first two fractional places denote: a
/// hundred times its integer part plus those two digits, before any
/// rounding.
pub open spec fn money_whole_cents_of(s: Seq<char>) -> int {
    let ip = digits_val(s.subrange(0, first_dot(s)));
    let frac = money_frac_of(s);
    let f1 = if frac.len() >= 1 {
        digit_val(frac[0])
    } else {
        0
    };
    let f2 = if frac.len() >= 2 {
        digit_val(frac[1])
    } else {
        0
    };
    ip * 100 + f1 * 10 + f2
}

/// Whether half-up rounding at the second decimal place rounds the
/// literal up: its third fractional digit is five or more.
pub open spec fn money_rounds_up(s: Seq<char>) -> bool {
    let frac = money_frac_of(s);
    frac.len() >= 3 && digit_val(frac[2]) >= 5
}

/// The amount in cents that a well-formed price literal denotes, rounded
/// half-up at the second decimal place.
pub open spec fn money_cents_of(s: Seq<char>) -> int {
    money_whole_cents_of(s) + if money_rounds_up(s) {
        1int
    } else {
        0int
    }
}

/// Whether the literal's exact value exceeds 999999.99: its first two
/// fractional places already pass the maximum, or they sit exactly on
/// it and some later fractional digit is nonzero. The bound is judged
/// on the exact value, before any rounding.
pub open spec fn money_exceeds_max(s: Seq<char>) -> bool {
    let frac = money_frac_of(s);
    ||| money_whole_cents_of(s) > 99999999
    ||| (money_whole_cents_of(s) == 99999999 && exists|k: int|
        2 <= k < frac.len() && digit_val(#[trigger] frac[k]) > 0)
}

proof fn lemma_first_dot_at(s: Seq<char>, i: int)
    requires
        0 <= i <= s.len(),
        forall|j: int| 0 <= j < i ==> s[j] != '.',
        i == s.len() || s[i] == '.',
    ensures
        first_dot(s) == i,
    decreases i,
{
    if i > 0 {
        let t = s.drop_first();
        assert(forall|j: int| 0 <= j < i - 1 ==> #[trigger] t[j] != '.');
        lemma_first_dot_at(t, i - 1);
    }
}

proof fn lemma_digits_val_nonneg(s: Seq<char>)
    requires
        all_digits(s),
    ensures
        digits_val(s) >= 0,
    decreases s.len(),
{
    if s.len() > 0 {
        let t = s.drop_last();
        assert(forall|j: int| 0 <= j < t.len() ==> is_digit(#[trigger] t[j]));
        lemma_digits_val_nonneg(t);
    }
}

proof fn lemma_digits_val_prefix_le(s: Seq<char>, i: int)
    requires
        all_digits(s),
        0 <= i <= s.len(),
    ensures
        digits_val(s.subrange(0, i)) <= digits_val(s),
    decreases s.len() - i,
{
    if i < s.len() {
        let t = s.subrange(0, i + 1);
        assert(t.drop_last() =~= s.subrange(0, i));
        assert(forall|j: int| 0 <= j < s.subrange(0, i).len()
            ==> is_digit(#[trigger] s.subrange(0, i)[j]));
        lemma_digits_val_nonneg(s.subrange(0, i));
        assert(digits_val(t) == digits_val(s.subrange(0, i)) * 10 + digit_val(s[i]));
        assert(digits_val(s.subrange(0, i)) <= digits_val(t)) by (nonlinear_arith)
            requires
                digits_val(t) == digits_val(s.subrange(0, i)) * 10 + digit_val(s[i]),
                digits_val(s.subrange(0, i)) >= 0,
                digit_val(s[i]) >= 0,
        ;
        lemma_digits_val_prefix_le(s, i + 1);
    } else {
        assert(s.subrange(0, i) =~= s);
    }
}

/// Whether a decimal price literal is acceptable: well-formed and with
/// an exact value of at most 999999.99.
pub open spec fn valid_price(s: Seq<char>) -> bool {
    valid_money_str(s) && !money_exceeds_max(s)
}

/// Monetary amount: a non-negative number of cents, at most 99999999
/// (999999.99 in whole currency units).
#[derive(Debug, Clone, Copy, PartialEq, Eq, Structural)]
pub struct Money {
    cents: i64,
}

impl View for Money {
    type V = int;

    closed spec fn view(&self) -> int {
        self.cents as int
    }
}

impl Money {
    /// Invariant: the amount lies between 0 and 999999.99 inclusive.
    pub open spec fn wf(&self) -> bool {
        0 <= self@ <= 99999999
    }

    pub fn new(cents: i64) -> (r: Result<Money, DomainError>)
        ensures
            cents < 0 ==> (r matches Err(e) && e is InvalidMoney),
            cents > 99999999 ==> (r matches Err(e) && e is InvalidMoney),
            0 <= cents <= 99999999 ==> (r matches Ok(m) && m@ == cents && m.wf()),
    {
        if cents < 0 {
            return Err(DomainError::InvalidMoney("Price cannot be negative".to_owned()));
        }
        if cents > 99999999 {
            return Err(DomainError::InvalidMoney("Price too high".to_owned()));
        }
        Ok(Money { cents })
    }

    /// The amount in cents.
    pub fn value(&self) -> (r: i64)
        ensures
            r == self@,
    {
        self.cents
    }

    /// Reads a decimal price literal such as `"19.999"` and rounds it
    /// half-up to whole cents. Malformed input is declined, and so is
    /// any literal whose exact value exceeds 999999.99: the bound is
    /// judged before rounding, so `"999999.994"` is out of range even
    /// though it would round back to the maximum.
    pub fn from_decimal_str(s: &str) -> (r: Result<Money, DomainError>)
        ensures
            (r is Ok) <==> (valid_money_str(s@) && !money_exceeds_max(s@)),
            r matches Ok(m) ==> m@ == money_cents_of(s@) && m.wf(),
            r matches Err(e) ==> e is InvalidMoney,
    {
        let n = s.unicode_len();
        let mut i: usize = 0;
        let mut acc: i64 = 0;
        while i < n && digit_at(s, i)
            invariant
                0 <= i <= n,
                n == s@.len(),
                forall|j: int| 0 <= j < i ==> is_digit(s@[j]),
                acc == digits_val(s@.subrange(0, i as int)),
                0 <= acc <= 999999,
            decreases n - i,
        {
            let d = (s.get_char(i) as u32 - 48) as i64;
            proof {
                assert(s@.subrange(0, i + 1).drop_last() =~= s@.subrange(0, i as int));
            }
            if acc * 10 + d > 999999 {
                proof {
                    if valid_money_str(s@) {
                        let dot = first_dot(s@);
                        lemma_first_dot_le(s@);
                        assert forall|j: int| 0 <= j < i + 1 implies s@[j] != '.' by {
                            assert(is_digit(s@[j]));
                            lemma_digit_not_dot(s@[j]);
                        }
                        lemma_dot_not_before(s@, i + 1);
                        let ip = s@.subrange(0, dot);
                        assert(ip.subrange(0, i + 1) =~= s@.subrange(0, i + 1));
                        lemma_digits_val_prefix_le(ip, i + 1);
                        assert(digits_val(ip) >= acc * 10 + d);
                        lemma_money_whole_ge_int_part(s@);
                        assert(money_whole_cents_of(s@) >= digits_val(ip) * 100);
                        assert(money_exceeds_max(s@));
                    }
                }
                return Err(DomainError::InvalidMoney("Price too high".to_owned()));
            }
            acc = acc * 10 + d;
            i = i + 1;
        }
        if i == 0 {
            proof {
                if valid_money_str(s@) {
                    let dot = first_dot(s@);
                    lemma_first_dot_le(s@);
                    assert(dot > 0);
                    assert(is_digit(s@.subrange(0, dot)[0]));
                    assert(s@.subrange(0, dot)[0] == s@[0]);
                }
            }
            return Err(DomainError::InvalidMoney("Invalid price format".to_owned()));
        }
        if i == n {
            proof {
                assert forall|j: int| 0 <= j < n implies s@[j] != '.' by {
                    assert(is_digit(s@[j]));
                    lemma_digit_not_dot(s@[j]);
                }
                lemma_first_dot_at(s@, n as int);
                assert(s@.subrange(0, n as int) =~= s@);
                assert(valid_money_str(s@));
                assert(money_frac_of(s@) =~= Seq::<char>::empty());
                assert(money_whole_cents_of(s@) == digits_val(s@) * 100);
                assert(!money_exceeds_max(s@));
                assert(money_cents_of(s@) == digits_val(s@) * 100);
            }
            return Ok(Money { cents: acc * 100 });
        }
        // `s[i]` exists and is not a digit.
        let c = s.get_char(i);
        if !(c == '.') {
            proof {
                if valid_money_str(s@) {
                    let dot = first_dot(s@);
                    lemma_first_dot_le(s@);
                    assert forall|j: int| 0 <= j < i + 1 implies s@[j] != '.' by {
                        if j < i {
                            assert(is_digit(s@[j]));
                            lemma_digit_not_dot(s@[j]);
                        }
                    }
                    lemma_dot_not_before(s@, i + 1);
                    assert(is_digit(s@.subrange(0, dot)[i as int]));
                    assert(s@.subrange(0, dot)[i as int] == s@[i as int]);
                }
            }
            return Err(DomainError::InvalidMoney("Invalid price format".to_owned()));
        }
        proof {
            assert forall|j: int| 0 <= j < i implies s@[j] != '.' by {
                assert(is_digit(s@[j]));
                lemma_digit_not_dot(s@[j]);
            }
            lemma_first_dot_at(s@, i as int);
        }
        let dot = i;
        let mut k = dot + 1;
        if k == n {
            return Err(DomainError::InvalidMoney("Invalid price format".to_owned()));
        }
        let mut f1: i64 = 0;
        let mut f2: i64 = 0;
        let mut carry: i64 = 0;
        let mut tail_nonzero = false;
        while k < n && digit_at(s, k)
            invariant
                dot + 1 <= k <= n,
                dot == first_dot(s@),
                dot < n,
                n == s@.len(),
                forall|j: int| dot + 1 <= j < k ==> is_digit(s@[j]),
                f1 == if k > dot + 1 { digit_val(s@[dot + 1]) } else { 0int },
                f2 == if k > dot + 2 { digit_val(s@[dot + 2]) } else { 0int },
                carry == if k > dot + 3 && digit_val(s@[dot + 3]) >= 5 { 1int } else { 0int },
                tail_nonzero <==> (exists|j: int|
                    dot + 3 <= j < k && #[trigger] digit_val(s@[j]) > 0),
                0 <= f1 <= 9,
                0 <= f2 <= 9,
                0 <= carry <= 1,
            decreases n - k,
        {
            let d = (s.get_char(k) as u32 - 48) as i64;
            proof {
                assert(digit_val(s@[k as int]) == d);
            }
            if k == dot + 1 {
                f1 = d;
            } else if k == dot + 2 {
                f2 = d;
            } else {
                if k == dot + 3 {
                    carry = if d >= 5 {
                        1
                    } else {
                        0
                    };
                }
                if d > 0 {
                    tail_nonzero = true;
                    proof {
                        assert(dot + 3 <= k < k + 1 && digit_val(s@[k as int]) > 0);
                    }
                }
            }
            k = k + 1;
        }
        if k < n {
            proof {
                if valid_money_str(s@) {
                    let frac = s@.subrange(dot + 1, n as int);
                    assert(is_digit(frac[k - dot - 1]));
                }
            }
            return Err(DomainError::InvalidMoney("Invalid price format".to_owned()));
        }
        let whole = acc * 100 + f1 * 10 + f2;
        proof {
            let frac = s@.subrange(dot + 1, n as int);
            assert(frac.len() >= 1);
            assert(frac[0] == s@[dot + 1]);
            if frac.len() >= 2 {
                assert(frac[1] == s@[dot + 2]);
            }
            if frac.len() >= 3 {
                assert(frac[2] == s@[dot + 3]);
            }
            assert forall|j: int| 0 <= j < frac.len() implies is_digit(#[trigger] frac[j]) by {
                assert(frac[j] == s@[dot + 1 + j]);
            }
            assert(valid_money_str(s@));
            assert(money_frac_of(s@) == frac);
            assert(acc == digits_val(s@.subrange(0, dot as int)));
            assert(money_whole_cents_of(s@) == whole);
        }
        if whole > 99999999 {
            return Err(DomainError::InvalidMoney("Price too high".to_owned()));
        }
        if whole == 99999999 && tail_nonzero {
            // The literal sits exactly on the maximum in its first two
            // fractional places and carries more value after them.
            proof {
                let frac = s@.subrange(dot + 1, n as int);
                let j = choose|j: int| dot + 3 <= j < n && #[trigger] digit_val(s@[j]) > 0;
                assert(frac[j - dot - 1] == s@[j]);
                assert(2 <= j - dot - 1 < frac.len());
                assert(money_exceeds_max(s@));
            }
            return Err(DomainError::InvalidMoney("Price too high".to_owned()));
        }
        let cents = whole + carry;
        proof {
            let frac = s@.subrange(dot + 1, n as int);
            if money_whole_cents_of(s@) == 99999999 {
                // No fractional digit past the second is nonzero, so
                // rounding cannot push the amount past the maximum.
                assert forall|k2: int| 2 <= k2 < frac.len() implies digit_val(
                    #[trigger] frac[k2],
                ) == 0 by {
                    assert(frac[k2] == s@[dot + 1 + k2]);
                    assert(is_digit(s@[dot + 1 + k2]));
                    assert(!(digit_val(s@[dot + 1 + k2]) > 0));
                }
                assert(!money_rounds_up(s@));
                assert(carry == 0);
            }
            assert(!money_exceeds_max(s@));
            assert(money_cents_of(s@) == cents);
            assert(cents <= 99999999);
        }
        Ok(Money { cents })
    }
}

/// The first dot never lies past the end of the string.
proof fn lemma_first_dot_le(s: Seq<char>)
    ensures
        0 <= first_dot(s) <= s.len(),
    decreases s.len(),
{
    if s.len() > 0 && s[0] != '.' {
        lemma_first_dot_le(s.drop_first());
    }
}

/// An ASCII digit is not a dot.
proof fn lemma_digit_not_dot(c: char)
    requires
        is_digit(c),
    ensures
        c != '.',
{
    assert('.' as u32 == 46);
}

/// If no dot occurs among the first `i` characters, the first dot is at
/// `i` or later.
proof fn lemma_dot_not_before(s: Seq<char>, i: int)
    requires
        0 <= i <= s.len(),
        forall|j: int| 0 <= j < i ==> s[j] != '.',
    ensures
        first_dot(s) >= i,
    decreases i,
{
    if i > 0 {
        let t = s.drop_first();
        assert(forall|j: int| 0 <= j < i - 1 ==> #[trigger] t[j] != '.');
        lemma_dot_not_before(t, i - 1);
    } else {
        lemma_first_dot_le(s);
    }
}

/// A valid literal's first two fractional places are worth at least a
/// hundred times its integer part.
proof fn lemma_money_whole_ge_int_part(s: Seq<char>)
    requires
        valid_money_str(s),
    ensures
        money_whole_cents_of(s) >= digits_val(s.subrange(0, first_dot(s))) * 100,
{
    lemma_first_dot_le(s);
    let d = first_dot(s);
    if d < s.len() {
        let frac = s.subrange(d + 1, s.len() as int);
        assert(forall|j: int| 0 <= j < frac.len() ==> is_digit(#[trigger] frac[j]));
        if frac.len() >= 1 {
            assert(digit_val(frac[0]) >= 0);
        }
        if frac.len() >= 2 {
            assert(digit_val(frac[1]) >= 0);
        }
    }
}

/// Whether the character at position `i` is an ASCII digit.
fn digit_at(s: &str, i: usize) -> (r: bool)
    requires
        i < s@.len(),
    ensures
        r == is_digit(s@[i as int]),
{
    let x = s.get_char(i) as u32;
    48 <= x && x <= 57
}

/// Units of stock on hand: a non-negative count.
#[derive(Debug, Clone, Copy, PartialEq, Eq, Structural)]
pub struct StockQuantity {
    value: i32,
}

impl View for StockQuantity {
    type V = int;

    closed spec fn view(&self) -> int {
        self.value as int
    }
}

impl StockQuantity {
    /// Invariant: stock never goes below zero.
    pub open spec fn wf(&self) -> bool {
        self@ >= 0
    }

    pub fn new(value: i32) -> (r: Result<StockQuantity, DomainError>)
        ensures
            value < 0 ==> (r matches Err(e) && e is InvalidStock),
            value >= 0 ==> (r matches Ok(q) && q@ == value && q.wf()),
    {
        if value < 0 {
            return Err(DomainError::InvalidStock("Stock cannot be negative".to_owned()));
        }
        Ok(StockQuantity { value })
    }

    pub fn value(&self) -> (r: i32)
        ensures
            r == self@,
    {
        self.value
    }

    pub fn is_available(&self) -> (r: bool)
        ensures
            r == (self@ > 0),
    {
        self.value > 0
    }

    /// Takes `amount` units out of stock; declines negative amounts and
    /// decreases larger than the current stock.
    pub fn decrease(&mut self, amount: i32) -> (r: Result<(), DomainError>)
        ensures
            amount < 0 ==> (r matches Err(e) && e is InvalidStock && *final(self) == *old(self)),
            amount >= 0 && old(self)@ < amount ==> (r matches Err(e) && e is InsufficientStock
                && *final(self) == *old(self)),
            amount >= 0 && old(self)@ >= amount ==> (r is Ok
                && final(self)@ == old(self)@ - amount),
            old(self).wf() ==> final(self).wf(),
    {
        if amount < 0 {
            return Err(DomainError::InvalidStock("Decrease amount cannot be negative".to_owned()));
        }
        if self.value < amount {
            return Err(DomainError::InsufficientStock);
        }
        self.value = self.value - amount;
        Ok(())
    }

    /// Puts `amount` units back into stock; declines negative amounts.
    pub fn increase(&mut self, amount: i32) -> (r: Result<(), DomainError>)
        requires
            amount >= 0 ==> old(self)@ + amount <= i32::MAX,
        ensures
            amount < 0 ==> (r matches Err(e) && e is InvalidStock && *final(self) == *old(self)),
            amount >= 0 ==> (r is Ok
                && final(self)@ == old(self)@ + amount),
            old(self).wf() ==> final(self).wf(),
    {
        if amount < 0 {
            return Err(DomainError::InvalidStock("Increase amount cannot be negative".to_owned()));
        }
        self.value = self.value + amount;
        Ok(())
    }
}

} // verus!
