//! Values of a kernel configuration, and the short strings they hold.
use vstd::prelude::*;
use crate::text::{decimal, digit_char, u128_to_text, string_push};

verus! {

/// A kernel configuration.
#[derive(Debug, Clone, Copy)]
pub struct Config;

/// A string held in the smallest way that fits: empty, inline (up to 14 bytes), or as a
/// static, borrowed or owned string.
#[derive(Debug)]
pub enum NicheStr<'a> {
    Empty,
    Inline { data: [char; 14], len: u8 },
    Static { data: &'static str },
    Borrowed { data: &'a str },
    Owned { data: String },
}

/// The most bytes a string held inline has.
pub const INLINE_CAPACITY: usize = 14;

impl<'a> View for NicheStr<'a> {
    type V = Seq<char>;

    /// The text held.
    open spec fn view(&self) -> Seq<char> {
        match self {
            NicheStr::Empty => Seq::empty(),
            NicheStr::Inline { data, len } => data@.take(*len as int),
            NicheStr::Static { data } => data@,
            NicheStr::Borrowed { data } => data@,
            NicheStr::Owned { data } => data@,
        }
    }
}

/// The number of UTF-8 bytes of a text.
pub open spec fn byte_len(s: Seq<char>) -> nat {
    vstd::utf8::encode_utf8(s).len()
}

impl<'a> NicheStr<'a> {
    /// Whether the representation fits the text: inline when it is short, with the
    /// length in range.
    pub open spec fn well_formed(&self) -> bool {
        match self {
            NicheStr::Empty => true,
            NicheStr::Inline { data, len } => 1 <= *len <= 14,
            _ => self@.len() > 0,
        }
    }

    /// `value` held inline, when it has at most 14 bytes; its characters are no more.
    fn inline(value: &str) -> (r: Self)
        requires
            0 < value@.len() <= 14,
        ensures
            r@ == value@,
            r is Inline,
            r.well_formed(),
    {
        let n = value.unicode_len();
        let mut data: [char; 14] = ['\0'; 14];
        let mut i: usize = 0;
        while i < n
            invariant
                n == value@.len(),
                n <= 14,
                0 <= i <= n,
                forall|j: int| 0 <= j < i ==> #[trigger] data@[j] == value@[j],
            decreases n - i,
        {
            data.set(i, value.get_char(i));
            i = i + 1;
        }
        proof {
            assert(data@.take(n as int) =~= value@);
        }
        NicheStr::Inline { data, len: n as u8 }
    }

    /// Holds a static string: empty, inline when it has at most 14 bytes, or as it is.
    pub fn new_static(value: &'static str) -> (r: Self)
        ensures
            r@ == value@,
            r.well_formed(),
            value@.len() == 0 <==> r is Empty,
            0 < value@.len() && byte_len(value@) <= 14 ==> r is Inline,
            byte_len(value@) > 14 ==> r is Static,
    {
        proof {
            lemma_byte_bounds(value@);
        }
        let chars = value.unicode_len();
        if chars == 0 {
            proof {
                assert(value@ =~= Seq::<char>::empty());
            }
            return NicheStr::Empty;
        }
        if value.len() <= INLINE_CAPACITY && chars <= INLINE_CAPACITY {
            return Self::inline(value);
        }
        NicheStr::Static { data: value }
    }

    /// Holds an owned string: empty, inline when it has at most 14 bytes, or as it is.
    pub fn new_owned(value: String) -> (r: Self)
        ensures
            r@ == value@,
            r.well_formed(),
            value@.len() == 0 <==> r is Empty,
            0 < value@.len() && byte_len(value@) <= 14 ==> r is Inline,
            byte_len(value@) > 14 ==> r is Owned,
    {
        proof {
            lemma_byte_bounds(value@);
        }
        let chars = value.as_str().unicode_len();
        if chars == 0 {
            proof {
                assert(value@ =~= Seq::<char>::empty());
            }
            return NicheStr::Empty;
        }
        if value.as_str().len() <= INLINE_CAPACITY && chars <= INLINE_CAPACITY {
            return Self::inline(value.as_str());
        }
        NicheStr::Owned { data: value }
    }

    /// Borrows a string: empty, or as it is.
    pub fn borrowed(value: &'a str) -> (r: Self)
        ensures
            r@ == value@,
            r.well_formed(),
            value@.len() == 0 ==> r is Empty,
            value@.len() > 0 ==> r is Borrowed,
    {
        if value.unicode_len() == 0 {
            proof {
                assert(value@ =~= Seq::<char>::empty());
            }
            return NicheStr::Empty;
        }
        NicheStr::Borrowed { data: value }
    }

    /// The text held.
    pub fn to_text(&self) -> (r: String)
        requires
            self.well_formed(),
        ensures
            r@ == self@,
    {
        match self {
            NicheStr::Empty => String::new(),
            NicheStr::Inline { data, len } => {
                let mut out = String::new();
                let n = *len as usize;
                let mut i: usize = 0;
                while i < n
                    invariant
                        n <= 14,
                        0 <= i <= n,
                        out@ == data@.take(i as int),
                    decreases n - i,
                {
                    string_push(&mut out, data[i]);
                    proof {
                        assert(data@.take(i + 1) =~= data@.take(i as int).push(data@[i as int]));
                    }
                    i = i + 1;
                }
                out
            },
            NicheStr::Static { data } => (*data).to_owned(),
            NicheStr::Borrowed { data } => (*data).to_owned(),
            NicheStr::Owned { data } => data.clone(),
        }
    }

    /// A copy that holds the same text in the same way.
    pub fn duplicate(&self) -> (r: Self)
        ensures
            r@ == self@,
            r.well_formed() == self.well_formed(),
    {
        match self {
            NicheStr::Empty => NicheStr::Empty,
            NicheStr::Inline { data, len } => NicheStr::Inline { data: *data, len: *len },
            NicheStr::Static { data } => NicheStr::Static { data: *data },
            NicheStr::Borrowed { data } => NicheStr::Borrowed { data: *data },
            NicheStr::Owned { data } => NicheStr::Owned { data: data.clone() },
        }
    }
}

/// A text has at least one and at most four bytes per character.
proof fn lemma_byte_bounds(s: Seq<char>)
    ensures
        s.len() <= byte_len(s) <= 4 * s.len(),
    decreases s.len(),
{
    if s.len() > 0 {
        lemma_byte_bounds(s.drop_first());
        let e = vstd::utf8::encode_scalar(s[0] as u32);
        assert(1 <= e.len() <= 4);
        assert(vstd::utf8::encode_utf8(s) == e + vstd::utf8::encode_utf8(s.drop_first()));
    } else {
        assert(vstd::utf8::encode_utf8(s) =~= Seq::<u8>::empty());
    }
}

impl<'a> Clone for NicheStr<'a> {
    fn clone(&self) -> (r: Self)
        ensures
            r@ == self@,
    {
        self.duplicate()
    }
}

/// A text value of a configuration option.
#[derive(Debug)]
pub struct TextValue<'a>(pub NicheStr<'a>);

impl<'a> Clone for TextValue<'a> {
    fn clone(&self) -> (r: Self)
        ensures
            r.0@ == self.0@,
    {
        TextValue(self.0.duplicate())
    }
}

/// The value of a configuration option.
#[derive(Debug)]
pub enum Value<'a> {
    /// `n`
    Disabled,
    /// `y`
    BuiltIn,
    /// `m`
    Module,
    Text(TextValue<'a>),
    Int(i64),
    Hex(u64),
}

/// The lower-case hexadecimal digit for `d`.
pub open spec fn hex_digit_char(d: nat) -> char {
    if d < 10 {
        digit_char(d)
    } else if d == 10 {
        'a'
    } else if d == 11 {
        'b'
    } else if d == 12 {
        'c'
    } else if d == 13 {
        'd'
    } else if d == 14 {
        'e'
    } else {
        'f'
    }
}

/// The lower-case hexadecimal representation of `n`, without leading zeros.
pub open spec fn hex(n: nat) -> Seq<char>
    decreases n,
{
    if n < 16 {
        seq![hex_digit_char(n)]
    } else {
        hex(n / 16).push(hex_digit_char(n % 16))
    }
}

/// The lower-case hexadecimal digit for `d`.
pub(crate) fn hex_digit(d: u64) -> (c: char)
    requires
        d < 16,
    ensures
        c == hex_digit_char(d as nat),
{
    match d {
        0 => '0',
        1 => '1',
        2 => '2',
        3 => '3',
        4 => '4',
        5 => '5',
        6 => '6',
        7 => '7',
        8 => '8',
        9 => '9',
        10 => 'a',
        11 => 'b',
        12 => 'c',
        13 => 'd',
        14 => 'e',
        _ => 'f',
    }
}

/// Appends the hexadecimal digits of `n` to `out`.
fn push_hex(out: &mut String, n: u64)
    ensures
        final(out)@ == old(out)@ + hex(n as nat),
    decreases n,
{
    if n >= 16 {
        push_hex(out, n / 16);
    }
    string_push(out, hex_digit(n % 16));
    proof {
        if n >= 16 {
            assert(old(out)@ + hex(n as nat) =~= (old(out)@ + hex((n / 16) as nat)).push(hex_digit_char((n % 16) as nat)));
        } else {
            assert(old(out)@ + hex(n as nat) =~= old(out)@.push(hex_digit_char(n as nat)));
        }
    }
}

/// The text of a configuration value: `n`, `y`, `m`, the text, the decimal number, or
/// `0x` and the lower-case hexadecimal number.
pub open spec fn value_text(v: Value) -> Seq<char> {
    match v {
        Value::Disabled => "n"@,
        Value::BuiltIn => "y"@,
        Value::Module => "m"@,
        Value::Text(t) => t.0@,
        Value::Int(x) => if x < 0 {
            seq!['-'] + decimal((-x) as nat)
        } else {
            decimal(x as nat)
        },
        Value::Hex(x) => "0x"@ + hex(x as nat),
    }
}

impl<'a> Value<'a> {
    /// The text of the value.
    pub fn to_text(&self) -> (r: String)
        requires
            self matches Value::Text(t) ==> t.0.well_formed(),
        ensures
            r@ == value_text(*self),
    {
        match self {
            Value::Disabled => "n".to_owned(),
            Value::BuiltIn => "y".to_owned(),
            Value::Module => "m".to_owned(),
            Value::Text(t) => t.0.to_text(),
            Value::Int(x) => {
                if *x < 0 {
                    let magnitude: u128 = (-((*x as i128) + 1)) as u128 + 1;
                    let mut out = String::new();
                    string_push(&mut out, '-');
                    let digits = u128_to_text(magnitude);
                    let mut i: usize = 0;
                    let n = digits.unicode_len();
                    while i < n
                        invariant
                            n == digits@.len(),
                            0 <= i <= n,
                            out@ == seq!['-'] + digits@.take(i as int),
                        decreases n - i,
                    {
                        string_push(&mut out, digits.get_char(i));
                        proof {
                            assert(digits@.take(i + 1) =~= digits@.take(i as int).push(digits@[i as int]));
                            assert(seq!['-'] + digits@.take(i + 1) =~= (seq!['-'] + digits@.take(i as int)).push(digits@[i as int]));
                        }
                        i = i + 1;
                    }
                    proof {
                        assert(digits@.take(n as int) =~= digits@);
                    }
                    out
                } else {
                    u128_to_text(*x as u128)
                }
            },
            Value::Hex(x) => {
                let mut out = "0x".to_owned();
                push_hex(&mut out, *x);
                out
            },
        }
    }

    /// A text value that borrows `value`.
    pub fn from_str(value: &'a str) -> (r: Self)
        ensures
            r matches Value::Text(t) && t.0@ == value@ && t.0.well_formed(),
    {
        Value::Text(TextValue(NicheStr::borrowed(value)))
    }

    /// A text value that owns `value`.
    pub fn from_string(value: String) -> (r: Self)
        ensures
            r matches Value::Text(t) && t.0@ == value@ && t.0.well_formed(),
    {
        Value::Text(TextValue(NicheStr::new_owned(value)))
    }
}

} // verus!
