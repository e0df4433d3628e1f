//! Formatting data as text: one field per value, links as `key => target`.
use vstd::prelude::*;
use vstd::utf8::encode_utf8;
use crate::data::{Data, Value, ValueView, Visitor, visit_all, value_views};
use crate::text::{decimal, u128_to_text, string_push};
use crate::data::kernel::{hex_digit, hex_digit_char};

verus! {

/// How data is formatted.
pub trait Format: Copy {
    /// Texts with more characters than this (when it is not zero) are cut short.
    spec fn spec_threshold(&self) -> nat;

    /// Whether meta values are left out.
    spec fn spec_hide_meta(&self) -> bool;

    /// Whether values of unknown kinds are left out.
    spec fn spec_hide_unknown(&self) -> bool;

    /// The depth a formatter starts with.
    spec fn spec_init_state(&self) -> u16;

    /// The depth of the formatter of a link's key, from its parent's.
    spec fn spec_enter_key(&self, state: u16) -> u16;

    /// The depth of the formatter of a link's target, from its parent's.
    spec fn spec_enter_target(&self, state: u16) -> u16;

    fn ellipsis_threshold(&self) -> (r: usize)
        ensures
            r == self.spec_threshold(),
    ;

    fn hide_meta(&self) -> (r: bool)
        ensures
            r == self.spec_hide_meta(),
    ;

    fn hide_unknown(&self) -> (r: bool)
        ensures
            r == self.spec_hide_unknown(),
    ;

    fn init_state(&self) -> (r: u16)
        ensures
            r == self.spec_init_state(),
    ;

    fn enter_key(&self, state: u16) -> (r: u16)
        ensures
            r == self.spec_enter_key(state),
    ;

    fn enter_target(&self, state: u16) -> (r: u16)
        ensures
            r == self.spec_enter_target(state),
    ;
}

/// The usual format: whether it is for serial output, how deep links go, and how
/// verbose it is.
#[derive(Debug, Clone, Copy, PartialEq, Eq, Structural)]
#[allow(non_camel_case_types)]
pub struct FORMAT {
    pub serial: bool,
    pub max_depth: u16,
    pub verbosity: i8,
}

impl FORMAT {
    /// A format with the given settings.
    pub fn new(serial: bool, max_depth: u16, verbosity: i8) -> (r: Self)
        ensures
            r == (FORMAT { serial, max_depth, verbosity }),
    {
        FORMAT { serial, max_depth, verbosity }
    }

    /// The debugging format: serial, six levels deep, verbose.
    pub fn debug() -> (r: Self)
        ensures
            r == (FORMAT { serial: true, max_depth: 6, verbosity: 1 }),
    {
        FORMAT { serial: true, max_depth: 6, verbosity: 1 }
    }

    /// The compact format: serial, six levels deep, terse.
    pub fn compact() -> (r: Self)
        ensures
            r == (FORMAT { serial: true, max_depth: 6, verbosity: -1i8 }),
    {
        FORMAT { serial: true, max_depth: 6, verbosity: -1 }
    }
}

impl Default for FORMAT {
    /// Not serial, six levels deep, of middle verbosity.
    fn default() -> (r: Self)
        ensures
            r == (FORMAT { serial: false, max_depth: 6, verbosity: 0 }),
    {
        FORMAT { serial: false, max_depth: 6, verbosity: 0 }
    }
}

impl Format for FORMAT {
    /// Verbose formats never cut; the middle one cuts at 1024, terse ones at 25.
    open spec fn spec_threshold(&self) -> nat {
        if self.verbosity >= 1 {
            0
        } else if self.verbosity == 0 {
            1024
        } else {
            25
        }
    }

    open spec fn spec_hide_meta(&self) -> bool {
        self.verbosity <= -1
    }

    open spec fn spec_hide_unknown(&self) -> bool {
        self.verbosity <= 0
    }

    open spec fn spec_init_state(&self) -> u16 {
        self.max_depth
    }

    open spec fn spec_enter_key(&self, state: u16) -> u16 {
        if state == 0 {
            0
        } else {
            (state - 1) as u16
        }
    }

    open spec fn spec_enter_target(&self, state: u16) -> u16 {
        if state == 0 {
            0
        } else {
            (state - 1) as u16
        }
    }

    fn ellipsis_threshold(&self) -> (r: usize) {
        if self.verbosity >= 1 {
            0
        } else if self.verbosity == 0 {
            1024
        } else {
            25
        }
    }

    fn hide_meta(&self) -> (r: bool) {
        self.verbosity <= -1
    }

    fn hide_unknown(&self) -> (r: bool) {
        self.verbosity <= 0
    }

    fn init_state(&self) -> (r: u16) {
        self.max_depth
    }

    fn enter_key(&self, state: u16) -> (r: u16) {
        state.saturating_sub(1)
    }

    fn enter_target(&self, state: u16) -> (r: u16) {
        state.saturating_sub(1)
    }
}

/// `chars` cut short for `threshold`: when it is not zero and there are more characters
/// than it, the first `threshold - 1` of them and an ellipsis.
pub open spec fn ellipsed(chars: Seq<char>, threshold: nat) -> Seq<char> {
    if threshold == 0 || chars.len() <= threshold {
        chars
    } else {
        chars.take(threshold - 1).push('…')
    }
}

/// How much of a text each format keeps. A verbose format (verbosity 1 or more) never
/// cuts. Verbosity 0, the default, keeps up to 1024 characters and cuts a longer text to
/// its first 1023 characters and an ellipsis. A terse format (negative verbosity) keeps up
/// to 25 characters and cuts a longer text to its first 24 and an ellipsis. A quoted field
/// is cut only when its value has at least an eighth of that many bytes.
pub proof fn lemma_format_cuts(f: FORMAT, chars: Seq<char>, byte_len: nat)
    ensures
        f.verbosity >= 1 ==> ellipsed(chars, f.spec_threshold()) == chars,
        f.verbosity >= 1 ==> quoted_body(f, chars, byte_len) == chars,
        f.verbosity == 0 && chars.len() <= 1024 ==> ellipsed(chars, f.spec_threshold()) == chars,
        f.verbosity == 0 && chars.len() <= 1024 ==> quoted_body(f, chars, byte_len) == chars,
        f.verbosity == 0 && chars.len() > 1024 ==> ellipsed(chars, f.spec_threshold()) == chars.take(1023).push('…'),
        f.verbosity == 0 && chars.len() > 1024 && byte_len >= 128 ==> quoted_body(f, chars, byte_len)
            == chars.take(1023).push('…'),
        f.verbosity < 0 && chars.len() <= 25 ==> ellipsed(chars, f.spec_threshold()) == chars,
        f.verbosity < 0 && chars.len() <= 25 ==> quoted_body(f, chars, byte_len) == chars,
        f.verbosity < 0 && chars.len() > 25 ==> ellipsed(chars, f.spec_threshold()) == chars.take(24).push('…'),
        f.verbosity < 0 && chars.len() > 25 && byte_len >= 4 ==> quoted_body(f, chars, byte_len)
            == chars.take(24).push('…'),
        byte_len < 4 ==> quoted_body(f, chars, byte_len) == chars,
{
}

/// Text that can be cut short.
pub trait Ellipsable {
    /// The characters, cut short as `format` says.
    spec fn spec_chars(&self) -> Seq<char>;

    /// The text cut short as `format` says.
    fn ellipse<F: Format>(&self, format: &F) -> (r: String)
        ensures
            r@ == ellipsed(self.spec_chars(), format.spec_threshold()),
    ;
}

impl Ellipsable for str {
    open spec fn spec_chars(&self) -> Seq<char> {
        self@
    }

    fn ellipse<F: Format>(&self, format: &F) -> (r: String) {
        let threshold = format.ellipsis_threshold();
        let n = self.unicode_len();
        if threshold == 0 || n <= threshold {
            return self.to_owned();
        }
        let mut out = String::new();
        let mut i: usize = 0;
        while i < threshold - 1
            invariant
                n == self@.len(),
                threshold < n,
                0 <= i <= threshold - 1,
                out@ == self@.take(i as int),
            decreases threshold - 1 - i,
        {
            string_push(&mut out, self.get_char(i));
            proof {
                assert(self@.take(i + 1) =~= self@.take(i as int).push(self@[i as int]));
            }
            i = i + 1;
        }
        string_push(&mut out, '…');
        out
    }
}

/// The text of a debug-escaped string; what `str::escape_debug` writes for `s`.
pub uninterp spec fn escaped_debug(s: Seq<char>) -> Seq<char>;

/// Calls `str::escape_debug` and collects the characters it yields.
///
/// Claims only that the result is a function of the text; what that function is (the
/// escapes std chooses) is not stated.
#[verifier::external_body]
fn escape_debug(s: &str) -> (r: String)
    ensures
        r@ == escaped_debug(s@),
{
    s.escape_debug().to_string()
}

/// The escape of one byte, as `u8::escape_ascii` writes it: tab, carriage return, line
/// feed, single quote, double quote and backslash as `\t`, `\r`, `\n`, `\'`, `\"` and
/// `\\`; other printable ASCII (0x20 to 0x7e) as it is; any other byte as `\x` and two
/// lower-case hexadecimal digits.
pub open spec fn escaped_byte(b: u8) -> Seq<char> {
    if b == 9 {
        seq!['\\', 't']
    } else if b == 13 {
        seq!['\\', 'r']
    } else if b == 10 {
        seq!['\\', 'n']
    } else if b == 0x27 {
        seq!['\\', '\'']
    } else if b == 0x22 {
        seq!['\\', '"']
    } else if b == 0x5c {
        seq!['\\', '\\']
    } else if 0x20 <= b <= 0x7e {
        seq![b as char]
    } else {
        seq!['\\', 'x', hex_digit_char((b / 16) as nat), hex_digit_char((b % 16) as nat)]
    }
}

/// The text of ASCII-escaped bytes: the escapes of the bytes, in order.
pub open spec fn escaped_ascii(b: Seq<u8>) -> Seq<char>
    decreases b.len(),
{
    if b.len() == 0 {
        Seq::empty()
    } else {
        escaped_ascii(b.drop_last()) + escaped_byte(b.last())
    }
}

/// Appends the escape of one byte.
fn push_escaped_byte(out: &mut String, b: u8)
    ensures
        final(out)@ == old(out)@ + escaped_byte(b),
{
    if b == 9 {
        string_push(out, '\\');
        string_push(out, 't');
    } else if b == 13 {
        string_push(out, '\\');
        string_push(out, 'r');
    } else if b == 10 {
        string_push(out, '\\');
        string_push(out, 'n');
    } else if b == 0x27 {
        string_push(out, '\\');
        string_push(out, '\'');
    } else if b == 0x22 {
        string_push(out, '\\');
        string_push(out, '"');
    } else if b == 0x5c {
        string_push(out, '\\');
        string_push(out, '\\');
    } else if 0x20 <= b && b <= 0x7e {
        string_push(out, b as char);
    } else {
        string_push(out, '\\');
        string_push(out, 'x');
        string_push(out, hex_digit((b / 16) as u64));
        string_push(out, hex_digit((b % 16) as u64));
    }
    assert(final(out)@ =~= old(out)@ + escaped_byte(b));
}

/// The bytes with each byte escaped as `<[u8]>::escape_ascii` writes it.
fn escape_ascii(b: &[u8]) -> (r: String)
    ensures
        r@ == escaped_ascii(b@),
{
    let mut out = String::new();
    let mut i: usize = 0;
    proof {
        assert(b@.take(0) =~= Seq::<u8>::empty());
    }
    while i < b.len()
        invariant
            0 <= i <= b@.len(),
            out@ == escaped_ascii(b@.take(i as int)),
        decreases b.len() - i,
    {
        proof {
            assert(b@.take(i + 1).drop_last() =~= b@.take(i as int));
            assert(b@.take(i + 1).last() == b@[i as int]);
        }
        push_escaped_byte(&mut out, b[i]);
        i = i + 1;
    }
    proof {
        assert(b@.take(i as int) =~= b@);
    }
    out
}

/// The text between the quotes of a field, from its escaped form: cut short when the
/// format cuts and the unescaped value is at least `threshold / 8` (rounded up) bytes long.
pub open spec fn quoted_body<F: Format>(format: F, escaped: Seq<char>, byte_len: nat) -> Seq<char> {
    let t = format.spec_threshold();
    if t != 0 && byte_len >= (t + 7) / 8 {
        ellipsed(escaped, t)
    } else {
        escaped
    }
}

/// The text of a field that shows a string.
pub open spec fn str_field_text<F: Format>(format: F, s: Seq<char>) -> Seq<char> {
    "str: \""@ + quoted_body(format, escaped_debug(s), (encode_utf8(s).len() as usize) as nat) + "\""@
}

/// The text of a field that shows bytes.
pub open spec fn bytes_field_text<F: Format>(format: F, b: Seq<u8>) -> Seq<char> {
    "bytes: b\""@ + quoted_body(format, escaped_ascii(b), b.len()) + "\""@
}

/// The decimal text of an integer, with a minus sign when it is negative.
pub open spec fn int_text(x: int) -> Seq<char> {
    if x < 0 {
        seq!['-'] + decimal((-x) as nat)
    } else {
        decimal(x as nat)
    }
}

/// The text of the field that a value other than a link shows, if any.
pub open spec fn field_text<F: Format>(format: F, v: ValueView) -> Option<Seq<char>> {
    match v {
        ValueView::Bool(b) => Some("bool: "@ + (if b { "true"@ } else { "false"@ })),
        ValueView::Char(c) => Some("char: "@ + seq![c]),
        ValueView::U8(x) => Some("u8: "@ + int_text(x as int)),
        ValueView::I8(x) => Some("i8: "@ + int_text(x as int)),
        ValueView::U16(x) => Some("u16: "@ + int_text(x as int)),
        ValueView::I16(x) => Some("i16: "@ + int_text(x as int)),
        ValueView::U32(x) => Some("u32: "@ + int_text(x as int)),
        ValueView::I32(x) => Some("i32: "@ + int_text(x as int)),
        ValueView::U64(x) => Some("u64: "@ + int_text(x as int)),
        ValueView::I64(x) => Some("i64: "@ + int_text(x as int)),
        ValueView::U128(x) => Some("u128: "@ + int_text(x as int)),
        ValueView::I128(x) => Some("i128: "@ + int_text(x as int)),
        ValueView::Str(s) => Some(str_field_text(format, s)),
        ValueView::Bytes(b) => Some(bytes_field_text(format, b)),
        ValueView::Id(_) => if format.spec_hide_unknown() && format.spec_hide_meta() {
            None
        } else {
            Some("{unknown}"@)
        },
        ValueView::Link(_, _) => None,
    }
}

/// `s` with two spaces before each line; `pending` says whether a line starts at once.
pub open spec fn indent_from(s: Seq<char>, pending: bool) -> Seq<char>
    decreases s.len(),
{
    if s.len() == 0 {
        Seq::empty()
    } else {
        let head = if pending {
            seq![' ', ' ', s[0]]
        } else {
            seq![s[0]]
        };
        head + indent_from(s.drop_first(), s[0] == '\n')
    }
}

/// A formatter as contracts see it.
pub struct FormatterView<F> {
    pub format: F,
    pub buf: Seq<char>,
    pub has_fields: bool,
    pub pending: Option<Seq<char>>,
    pub finished: bool,
}

/// A formatter that has not written anything.
pub open spec fn fresh_formatter<F: Format>(format: F) -> FormatterView<F> {
    FormatterView { format, buf: Seq::empty(), has_fields: false, pending: None, finished: false }
}

/// The formatter after it writes a field with `text`.
pub open spec fn after_field<F>(st: FormatterView<F>, text: Seq<char>) -> FormatterView<F> {
    FormatterView {
        buf: st.buf + (if st.has_fields { ",\n"@ } else { "{\n"@ }) + indent_from(text, true),
        has_fields: true,
        ..st
    }
}

/// The formatter after it writes the link it holds back, if any.
pub open spec fn after_link<F>(st: FormatterView<F>) -> FormatterView<F> {
    match st.pending {
        Some(t) => after_field(FormatterView { pending: None, ..st }, t),
        None => st,
    }
}

/// The text a formatter ends with.
pub open spec fn closed_text<F>(st: FormatterView<F>) -> Seq<char> {
    let done = after_link(st);
    done.buf + (if done.has_fields { "\n}"@ } else { Seq::empty() })
}

/// The text of a link: `key => target`, or only the target when the key's text is empty.
pub open spec fn link_text<F: Format>(format: F, link: ValueView) -> Seq<char>
    decreases link, 1nat,
{
    match link {
        ValueView::Link(key, target) => {
            let k = match key {
                Some(kv) => formatted(format, kv),
                None => Seq::empty(),
            };
            let t = formatted(format, target);
            if k.len() == 0 {
                t
            } else {
                k + " => "@ + t
            }
        },
        _ => Seq::empty(),
    }
}

/// The formatter after it takes `v`: a link is held back until the next link or the
/// end; another value is written as a field at once.
pub open spec fn after_value<F: Format>(st: FormatterView<F>, v: ValueView) -> FormatterView<F>
    decreases v, 2nat,
{
    match v {
        ValueView::Link(_, _) => FormatterView {
            pending: Some(link_text(st.format, v)),
            ..after_link(st)
        },
        _ => match field_text(st.format, v) {
            Some(text) => after_field(st, text),
            None => st,
        },
    }
}

/// The formatter after it takes `values`, in order.
pub open spec fn after_values<F: Format>(st: FormatterView<F>, values: Seq<ValueView>) -> FormatterView<F>
    decreases values, 0nat,
{
    if values.len() == 0 {
        st
    } else {
        after_value(after_values(st, values.subrange(0, values.len() - 1)), values[values.len() - 1])
    }
}

/// The text of data that provides `values`.
pub open spec fn formatted<F: Format>(format: F, values: Seq<ValueView>) -> Seq<char>
    decreases values, 1nat,
{
    closed_text(after_values(fresh_formatter(format), values))
}

/// Appends `text` to `buf` with two spaces before each of its lines.
fn write_indented(buf: &mut String, text: &str)
    ensures
        final(buf)@ == old(buf)@ + indent_from(text@, true),
{
    let n = text.unicode_len();
    let mut pending = true;
    let mut i: usize = 0;
    let ghost base = buf@;
    proof {
        assert(text@.subrange(0, n as int) =~= text@);
    }
    while i < n
        invariant
            n == text@.len(),
            0 <= i <= n,
            buf@ + indent_from(text@.subrange(i as int, n as int), pending) == base + indent_from(text@, true),
        decreases n - i,
    {
        let c = text.get_char(i);
        let ghost rest = text@.subrange(i as int, n as int);
        let ghost old_buf = buf@;
        let ghost old_pending = pending;
        proof {
            assert(rest.drop_first() =~= text@.subrange(i + 1, n as int));
            assert(rest[0] == c);
        }
        if pending {
            string_push(buf, ' ');
            string_push(buf, ' ');
        }
        string_push(buf, c);
        pending = c == '\n';
        proof {
            let head = if old_pending { seq![' ', ' ', c] } else { seq![c] };
            assert(buf@ =~= old_buf + head);
            assert(indent_from(rest, old_pending) == head + indent_from(text@.subrange(i + 1, n as int), pending));
            assert(buf@ + indent_from(text@.subrange(i + 1, n as int), pending) =~= old_buf + indent_from(rest, old_pending));
        }
        i = i + 1;
    }
    proof {
        assert(text@.subrange(n as int, n as int) =~= Seq::<char>::empty());
        assert(buf@ + Seq::<char>::empty() =~= buf@);
    }
}

/// The decimal text of `x`, with a minus sign when it is negative.
fn int_string(x: i128) -> (r: String)
    ensures
        r@ == int_text(x as int),
{
    if x < 0 {
        let magnitude: u128 = (-(x + 1)) as u128 + 1;
        let digits = u128_to_text(magnitude);
        let mut out = String::new();
        string_push(&mut out, '-');
        out.append(digits.as_str());
        proof {
            assert(out@ =~= seq!['-'] + decimal((-x) as nat));
        }
        out
    } else {
        u128_to_text(x as u128)
    }
}

/// `text` after `prefix`.
fn prefixed(prefix: &str, text: &str) -> (r: String)
    ensures
        r@ == prefix@ + text@,
{
    let mut out = prefix.to_owned();
    out.append(text);
    out
}

/// The text of a field that shows a string, from the string's escaped form and its
/// length in bytes.
pub fn str_field<F: Format>(format: &F, escaped: &str, byte_len: usize) -> (r: String)
    ensures
        r@ == "str: \""@ + quoted_body(*format, escaped@, byte_len as nat) + "\""@,
{
    let body = quoted(format, escaped, byte_len);
    let mut out = prefixed("str: \"", body.as_str());
    out.append("\"");
    out
}

/// The text of a field that shows bytes, from their escaped form and their number.
pub fn bytes_field<F: Format>(format: &F, escaped: &str, byte_len: usize) -> (r: String)
    ensures
        r@ == "bytes: b\""@ + quoted_body(*format, escaped@, byte_len as nat) + "\""@,
{
    let body = quoted(format, escaped, byte_len);
    let mut out = prefixed("bytes: b\"", body.as_str());
    out.append("\"");
    out
}

/// The text between the quotes of a field.
fn quoted<F: Format>(format: &F, escaped: &str, byte_len: usize) -> (r: String)
    ensures
        r@ == quoted_body(*format, escaped@, byte_len as nat),
{
    let t = format.ellipsis_threshold();
    let cut = t / 8 + (if t % 8 != 0 { 1 } else { 0 });
    proof {
        assert(cut == (t + 7) / 8) by (nonlinear_arith)
            requires
                cut == t / 8 + (if t % 8 != 0 { 1int } else { 0int }),
        ;
    }
    if t != 0 && byte_len >= cut {
        escaped.ellipse(format)
    } else {
        escaped.to_owned()
    }
}

/// The text of the field that a value other than a link shows, if any.
fn field_string<F: Format>(format: &F, v: &Value) -> (r: Option<String>)
    ensures
        match field_text(*format, v@) {
            Some(t) => r matches Some(s) && s@ == t,
            None => r is None,
        },
{
    match v {
        Value::Bool(b) => Some(prefixed("bool: ", if *b { "true" } else { "false" })),
        Value::Char(c) => {
            let mut out = "char: ".to_owned();
            string_push(&mut out, *c);
            proof {
                assert(out@ =~= "char: "@ + seq![*c]);
            }
            Some(out)
        },
        Value::U8(x) => Some(prefixed("u8: ", int_string(*x as i128).as_str())),
        Value::I8(x) => Some(prefixed("i8: ", int_string(*x as i128).as_str())),
        Value::U16(x) => Some(prefixed("u16: ", int_string(*x as i128).as_str())),
        Value::I16(x) => Some(prefixed("i16: ", int_string(*x as i128).as_str())),
        Value::U32(x) => Some(prefixed("u32: ", int_string(*x as i128).as_str())),
        Value::I32(x) => Some(prefixed("i32: ", int_string(*x as i128).as_str())),
        Value::U64(x) => Some(prefixed("u64: ", int_string(*x as i128).as_str())),
        Value::I64(x) => Some(prefixed("i64: ", int_string(*x as i128).as_str())),
        Value::U128(x) => Some(prefixed("u128: ", u128_to_text(*x).as_str())),
        Value::I128(x) => Some(prefixed("i128: ", int_string(*x).as_str())),
        Value::Str(s) => {
            let escaped = escape_debug(s.as_str());
            Some(str_field(format, escaped.as_str(), s.as_str().len()))
        },
        Value::Bytes(b) => {
            let escaped = escape_ascii(b.as_slice());
            Some(bytes_field(format, escaped.as_str(), b.len()))
        },
        Value::Id(_) => {
            if format.hide_unknown() && format.hide_meta() {
                None
            } else {
                Some("{unknown}".to_owned())
            }
        },
        Value::Link(_, _) => None,
    }
}

/// Writes data as text: one field per value, links as `key => target`.
pub struct DataFormatter<F: Format> {
    buf: String,
    format: F,
    state: u16,
    link: Option<String>,
    has_fields: bool,
    finished: bool,
}

impl<F: Format> DeepView for DataFormatter<F> {
    type V = FormatterView<F>;

    open spec fn deep_view(&self) -> FormatterView<F> {
        FormatterView {
            format: self.spec_format(),
            buf: self.spec_buf(),
            has_fields: self.spec_has_fields(),
            pending: self.spec_pending(),
            finished: self.spec_finished(),
        }
    }
}

impl<F: Format> DataFormatter<F> {
    pub closed spec fn spec_format(&self) -> F {
        self.format
    }

    pub closed spec fn spec_buf(&self) -> Seq<char> {
        self.buf@
    }

    pub closed spec fn spec_has_fields(&self) -> bool {
        self.has_fields
    }

    pub closed spec fn spec_pending(&self) -> Option<Seq<char>> {
        match self.link {
            Some(l) => Some(l@),
            None => None,
        }
    }

    pub closed spec fn spec_finished(&self) -> bool {
        self.finished
    }

    /// The depth the formatter is at.
    pub closed spec fn spec_state(&self) -> u16 {
        self.state
    }

    /// A formatter that writes with `format`, from the format's starting depth.
    pub fn new(format: F) -> (r: Self)
        ensures
            r.deep_view() == fresh_formatter(format),
            r.spec_state() == format.spec_init_state(),
    {
        let state = format.init_state();
        DataFormatter { buf: String::new(), format, state, link: None, has_fields: false, finished: false }
    }

    /// A formatter that writes with `format`, at depth `state`.
    pub fn new_with_state(format: F, state: u16) -> (r: Self)
        ensures
            r.deep_view() == fresh_formatter(format),
            r.spec_state() == state,
    {
        DataFormatter { buf: String::new(), format, state, link: None, has_fields: false, finished: false }
    }

    /// Writes a field with `text`: a separator (`{` before the first), then the text
    /// with each line indented.
    pub fn field(&mut self, text: &str)
        ensures
            final(self).deep_view() == after_field(old(self).deep_view(), text@),
            final(self).spec_state() == old(self).spec_state(),
    {
        if self.has_fields {
            self.buf.append(",\n");
        } else {
            self.buf.append("{\n");
            self.has_fields = true;
        }
        write_indented(&mut self.buf, text);
    }

    /// Writes the link held back, if any.
    fn finalize_link(&mut self)
        ensures
            final(self).deep_view() == after_link(old(self).deep_view()),
            final(self).spec_state() == old(self).spec_state(),
    {
        let mut held: Option<String> = None;
        core::mem::swap(&mut held, &mut self.link);
        match held {
            Some(text) => {
                self.field(text.as_str());
            },
            None => {},
        }
    }

    /// Ends the text: writes the link held back and, when there are fields, the closing
    /// brace. Ending again does nothing.
    pub fn finish(&mut self)
        ensures
            final(self).spec_finished(),
            final(self).spec_state() == old(self).spec_state(),
            final(self).spec_buf() == (if old(self).spec_finished() {
                old(self).spec_buf()
            } else {
                closed_text(old(self).deep_view())
            }),
    {
        if self.finished {
            return;
        }
        self.finished = true;
        self.finalize_link();
        if self.has_fields {
            self.buf.append("\n}");
        } else {
            proof {
                assert(self.buf@ + Seq::<char>::empty() =~= self.buf@);
            }
        }
    }

    /// The text written, ended.
    pub fn into_text(self) -> (r: String)
        ensures
            r@ == (if self.spec_finished() {
                self.spec_buf()
            } else {
                closed_text(self.deep_view())
            }),
    {
        let mut f = self;
        f.finish();
        f.buf
    }
}

/// The formatter after it takes `value`.
fn step<F: Format>(f: &mut DataFormatter<F>, value: &Value)
    ensures
        final(f).deep_view() == after_value(old(f).deep_view(), value@),
        final(f).spec_state() == old(f).spec_state(),
    decreases value@, 2nat,
{
    match value {
        Value::Link(_, _) => {
            f.finalize_link();
            let text = link_string(f.format, f.state, value);
            f.link = Some(text);
        },
        _ => {
            match field_string(&f.format, value) {
                Some(text) => f.field(text.as_str()),
                None => {},
            }
        },
    }
}

/// The text of a link.
fn link_string<F: Format>(format: F, state: u16, link: &Value) -> (r: String)
    ensures
        r@ == link_text(format, link@),
    decreases link@, 1nat,
{
    match link {
        Value::Link(key, target) => {
            let k = match key {
                Some(kv) => {
                    proof {
                        assert(decreases_to!(link@ => (link@)->Link_0));
                        assert(decreases_to!((link@)->Link_0 => value_views(kv@)));
                    }
                    format_all(format, format.enter_key(state), kv)
                },
                None => String::new(),
            };
            proof {
                assert(decreases_to!(link@ => (link@)->Link_1));
            }
            let t = format_all(format, format.enter_target(state), target);
            if k.unicode_len() == 0 {
                t
            } else {
                let mut out = k;
                out.append(" => ");
                out.append(t.as_str());
                out
            }
        },
        _ => String::new(),
    }
}

/// The text of data that provides `values`.
fn format_all<F: Format>(format: F, state: u16, values: &Vec<Value>) -> (r: String)
    ensures
        r@ == formatted(format, value_views(values@)),
    decreases value_views(values@), 1nat,
{
    let mut f = DataFormatter::new_with_state(format, state);
    let n = values.len();
    let mut i: usize = 0;
    proof {
        crate::data::lemma_value_views(values@);
    }
    while i < n
        invariant
            n == values@.len(),
            0 <= i <= n,
            value_views(values@).len() == n,
            forall|j: int| 0 <= j < n ==> #[trigger] value_views(values@)[j] == values@[j]@,
            f.deep_view() == after_values(fresh_formatter(format), value_views(values@).subrange(0, i as int)),
            !f.spec_finished(),
        decreases n - i,
    {
        proof {
            let vs = value_views(values@);
            assert(vs[i as int] == values@[i as int]@);
            assert(decreases_to!(vs => vs[i as int]));
            assert(vs.subrange(0, i + 1).subrange(0, i as int) =~= vs.subrange(0, i as int));
        }
        step(&mut f, &values[i]);
        i = i + 1;
    }
    proof {
        assert(value_views(values@).subrange(0, n as int) =~= value_views(values@));
    }
    f.into_text()
}

impl<F: Format> Visitor for DataFormatter<F> {
    open spec fn spec_visit(state: FormatterView<F>, value: ValueView) -> FormatterView<F> {
        after_value(state, value)
    }

    fn visit(&mut self, value: Value) {
        step(self, &value);
    }
}

/// The text of `data` in `format`.
pub fn format_data<F: Format, D: Data + ?Sized>(format: F, data: &D) -> (r: String)
    ensures
        r@ == formatted(format, data.spec_values()),
{
    let mut f = DataFormatter::new(format);
    data.query(&mut f);
    proof {
        lemma_visit_formatter(fresh_formatter(format), data.spec_values());
    }
    f.into_text()
}

/// Visiting a formatter with values is taking them in order.
pub proof fn lemma_visit_formatter<F: Format>(st: FormatterView<F>, values: Seq<ValueView>)
    ensures
        visit_all::<DataFormatter<F>>(st, values) == after_values(st, values),
        after_values(st, values).finished == st.finished,
        after_values(st, values).format == st.format,
    decreases values.len(),
{
    if values.len() > 0 {
        let init = values.drop_last();
        lemma_visit_formatter(st, init);
        assert(init =~= values.subrange(0, values.len() - 1));
        let mid = after_values(st, init);
        assert(<DataFormatter<F> as Visitor>::spec_visit(mid, values.last()) == after_value(mid, values.last()));
    }
}

} // verus!
