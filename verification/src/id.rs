//! Identifiers that tell data apart.
use vstd::prelude::*;
use crate::text::{is_digit, digit_value, decimal, u128_to_text, lemma_decimal_digits, lemma_decimal_value, lemma_prefix_value_le, digits_value, all_digits};

verus! {

/// A non-zero 128-bit number, the default raw value of an [`ID`].
#[derive(Debug, Clone, Copy, PartialEq, Eq, Structural, Hash, PartialOrd, Ord)]
pub struct NonZero128 {
    value: u128,
}

impl NonZero128 {
    #[verifier::type_invariant]
    spec fn non_zero(self) -> bool {
        self.value != 0
    }

    /// The number it holds.
    pub closed spec fn spec_get(self) -> u128 {
        self.value
    }

    /// The number, if it is not zero.
    pub fn new(value: u128) -> (r: Option<NonZero128>)
        ensures
            r is Some <==> value != 0,
            r matches Some(n) ==> n.spec_get() == value,
    {
        if value == 0 {
            None
        } else {
            Some(NonZero128 { value })
        }
    }

    pub fn get(&self) -> (r: u128)
        ensures
            r == self.spec_get(),
            r != 0,
    {
        proof {
            use_type_invariant(self);
        }
        self.value
    }
}

/// Why a text is not an identifier; the kinds of std's integer parsing.
#[derive(Debug, Clone, Copy, PartialEq, Eq, Structural)]
pub enum ParseIdError {
    Empty,
    InvalidDigit,
    PosOverflow,
    Zero,
}

/// Calls `rand::random::<NonZeroU128>()`: a number drawn from the thread's generator,
/// drawing again until the number is not zero, and gives it as a `u128`.
///
/// Claims only what the type guarantees: the number is not zero. Which number is drawn
/// is not stated.
#[verifier::external_body]
fn random_nonzero_u128() -> (r: u128)
    ensures
        r != 0,
{
    rand::random::<core::num::NonZeroU128>().get()
}

/// Reads decimal digits from position `i` on, on top of the value `acc` read so far.
pub open spec fn scan_digits(s: Seq<char>, i: int, acc: nat) -> Result<nat, ParseIdError>
    decreases s.len() - i,
{
    if i < 0 || i >= s.len() {
        Ok(acc)
    } else if !is_digit(s[i]) {
        Err(ParseIdError::InvalidDigit)
    } else if acc * 10 + digit_value(s[i]) > u128::MAX {
        Err(ParseIdError::PosOverflow)
    } else {
        scan_digits(s, i + 1, acc * 10 + digit_value(s[i]))
    }
}

/// What parsing the text `s` as a non-zero decimal number gives.
pub open spec fn spec_parse_id(s: Seq<char>) -> Result<u128, ParseIdError> {
    if s.len() == 0 {
        Err(ParseIdError::Empty)
    } else if s[0] == '+' && s.len() == 1 {
        Err(ParseIdError::InvalidDigit)
    } else {
        let start: int = if s[0] == '+' { 1 } else { 0 };
        match scan_digits(s, start, 0) {
            Ok(v) => if v == 0 { Err(ParseIdError::Zero) } else { Ok(v as u128) },
            Err(e) => Err(e),
        }
    }
}

/// Used for uniquely identifying data.
#[derive(Debug, Clone, Copy, PartialEq, Eq, Structural, Hash, PartialOrd, Ord)]
pub struct ID<T = NonZero128>(T);

impl<T> ID<T> {
    /// The raw value it holds.
    pub closed spec fn spec_raw(self) -> T {
        self.0
    }

    /// An identifier that holds `id`.
    pub fn new(id: T) -> (r: Self)
        ensures
            r.spec_raw() == id,
    {
        Self::from_raw(id)
    }

    /// An identifier that holds the raw value `id`.
    pub fn from_raw(id: T) -> (r: Self)
        ensures
            r.spec_raw() == id,
    {
        ID(id)
    }

    /// The raw value.
    pub fn into_raw(self) -> (r: T)
        ensures
            r == self.spec_raw(),
    {
        self.0
    }

    /// A reference to the raw value.
    pub fn as_raw(&self) -> (r: &T)
        ensures
            *r == self.spec_raw(),
    {
        &self.0
    }

    /// An identifier that holds `value`.
    pub fn from(value: T) -> (r: Self)
        ensures
            r.spec_raw() == value,
    {
        Self::from_raw(value)
    }
}

impl DeepView for ID<NonZero128> {
    type V = ID<NonZero128>;

    open spec fn deep_view(&self) -> ID<NonZero128> {
        *self
    }
}

impl ID<NonZero128> {
    /// The number it stands for.
    pub open spec fn spec_value(self) -> u128 {
        self.spec_raw().spec_get()
    }

    /// The identifier for `id`, unless it is zero.
    pub fn try_new(id: u128) -> (r: Result<Self, ParseIdError>)
        ensures
            id != 0 <==> r is Ok,
            r matches Ok(v) ==> v.spec_value() == id,
            id == 0 ==> r == Err::<Self, ParseIdError>(ParseIdError::Zero),
    {
        match NonZero128::new(id) {
            Some(n) => Ok(ID(n)),
            None => Err(ParseIdError::Zero),
        }
    }

    /// The identifier for a number that is not zero.
    pub fn new_unchecked(id: u128) -> (r: Self)
        requires
            id != 0,
        ensures
            r.spec_value() == id,
    {
        match NonZero128::new(id) {
            Some(n) => ID(n),
            None => {
                assert(false);
                ID(NonZero128 { value: 1 })
            },
        }
    }

    /// The number it stands for.
    pub fn value(&self) -> (r: u128)
        ensures
            r == self.spec_value(),
            r != 0,
    {
        self.0.get()
    }

    /// Reads an identifier from decimal text, as std reads a `NonZeroU128`.
    pub fn from_str(s: &str) -> (r: Result<Self, ParseIdError>)
        ensures
            match spec_parse_id(s@) {
                Ok(v) => r matches Ok(id) && id.spec_value() == v,
                Err(e) => r == Err::<Self, ParseIdError>(e),
            },
    {
        let n = s.unicode_len();
        if n == 0 {
            return Err(ParseIdError::Empty);
        }
        let mut i: usize = 0;
        if s.get_char(0) == '+' {
            if n == 1 {
                return Err(ParseIdError::InvalidDigit);
            }
            i = 1;
        }
        let ghost start = i as int;
        let mut acc: u128 = 0;
        while i < n
            invariant
                n == s@.len(),
                n > 0,
                !(s@[0] == '+' && n == 1),
                start == (if s@[0] == '+' { 1int } else { 0int }),
                start <= i <= n,
                scan_digits(s@, i as int, acc as nat) == scan_digits(s@, start, 0),
            decreases n - i,
        {
            let c = s.get_char(i);
            if !('0' <= c && c <= '9') {
                return Err(ParseIdError::InvalidDigit);
            }
            let d = (c as u32 - '0' as u32) as u128;
            assert(d == digit_value(c));
            let times = acc.checked_mul(10);
            let next = match times {
                Some(t) => t.checked_add(d),
                None => None,
            };
            match next {
                Some(v) => {
                    acc = v;
                },
                None => {
                    return Err(ParseIdError::PosOverflow);
                },
            }
            i = i + 1;
        }
        if acc == 0 {
            return Err(ParseIdError::Zero);
        }
        Ok(ID(NonZero128 { value: acc }))
    }

    /// The identifier for a drawn number, unless it is zero.
    pub fn from_draw(drawn: u128) -> (r: Option<Self>)
        ensures
            drawn != 0 <==> r is Some,
            r matches Some(id) ==> id.spec_value() == drawn,
    {
        match NonZero128::new(drawn) {
            Some(n) => Some(ID(n)),
            None => None,
        }
    }

    /// A random identifier: numbers are drawn until one is not zero.
    pub fn random() -> (r: Self)
        ensures
            r.spec_value() != 0,
    {
        Self::new_unchecked(random_nonzero_u128())
    }

    /// The decimal text of the identifier's number.
    pub fn to_text(&self) -> (r: String)
        ensures
            r@ == decimal(self.spec_value() as nat),
    {
        u128_to_text(self.value())
    }
}

/// Reading digits that fit in `u128` gives their value.
proof fn lemma_scan_prefix(s: Seq<char>, i: int)
    requires
        0 <= i <= s.len(),
        all_digits(s),
        digits_value(s) <= u128::MAX,
    ensures
        scan_digits(s, i, digits_value(s.take(i))) == Ok::<nat, ParseIdError>(digits_value(s)),
    decreases s.len() - i,
{
    if i < s.len() {
        assert(s.take(i + 1).drop_last() =~= s.take(i));
        lemma_prefix_value_le(s, i + 1);
        lemma_scan_prefix(s, i + 1);
    } else {
        assert(s.take(i) =~= s);
    }
}

/// An identifier is fixed by its raw value: two identifiers that hold the same raw value
/// are the same, so `ID::from_raw(id.into_raw())` gives `id` back.
pub proof fn lemma_raw_determines<T>(a: ID<T>, b: ID<T>)
    requires
        a.spec_raw() == b.spec_raw(),
    ensures
        a == b,
{
}

/// An identifier is fixed by its number: two identifiers with the same number are the same.
pub proof fn lemma_value_determines(a: ID, b: ID)
    requires
        a.spec_value() == b.spec_value(),
    ensures
        a == b,
{
    assert(a.spec_raw() == b.spec_raw());
}

/// The text of an identifier reads back as the same identifier.
pub proof fn lemma_id_text_roundtrip(id: ID)
    requires
        id.spec_value() != 0,
    ensures
        spec_parse_id(decimal(id.spec_value() as nat)) == Ok::<u128, ParseIdError>(id.spec_value()),
{
    let n = id.spec_value();
    let s = decimal(n as nat);
    lemma_decimal_digits(n as nat);
    lemma_decimal_value(n as nat);
    assert(s.take(0) =~= Seq::<char>::empty());
    lemma_scan_prefix(s, 0);
    assert(is_digit(s[0]));
}

} // verus!
