use vstd::prelude::*;

use vstd::slice::slice_to_vec;
use vstd::string::StringSliceAdditionalSpecFns;
use vstd::utf8::{decode_utf8, encode_utf8, valid_utf8};

verus! {

/// A string value that is not necessarily UTF-8 encoded, e.g. an HTTP
/// header value.  Its view is the byte sequence it holds.
#[derive(Debug, Eq, Hash, Clone)]
pub struct ByteString {
    pub bytes: Vec<u8>,
}

impl View for ByteString {
    type V = Seq<u8>;

    closed spec fn view(&self) -> Seq<u8> {
        self.bytes@
    }
}

/// Compares two byte slices element by element.
fn bytes_eq(a: &[u8], b: &[u8]) -> (r: bool)
    ensures
        r == (a@ == b@),
{
    if a.len() != b.len() {
        return false;
    }
    let mut i: usize = 0;
    while i < a.len()
        invariant
            i <= a@.len(),
            a@.len() == b@.len(),
            forall|j: int| 0 <= j < i ==> a@[j] == b@[j],
        decreases a@.len() - i,
    {
        if a[i] != b[i] {
            return false;
        }
        i = i + 1;
    }
    proof {
        assert(a@ =~= b@);
    }
    true
}

/// Relies on String::from_utf8: it succeeds exactly on valid UTF-8 and
/// decodes it.
pub assume_specification[ String::from_utf8 ](vec: Vec<u8>) -> (r: Result<
    String,
    std::string::FromUtf8Error,
>)
    ensures
        r is Ok <==> valid_utf8(vec@),
        r matches Ok(s) ==> s@ == decode_utf8(vec@),
;

/// Declares std's FromUtf8Error, the error that String::from_utf8 returns,
/// so it can stand in signatures; the value is opaque and only handed back
/// to the caller.
#[verifier::external_type_specification]
#[verifier::external_body]
pub struct ExFromUtf8Error(std::string::FromUtf8Error);

/// The character sequence that lossy UTF-8 decoding yields for the given
/// bytes: ill-formed sequences come out as replacement characters.
pub uninterp spec fn utf8_lossy(bytes: Seq<u8>) -> Seq<char>;

/// Relies on String::from_utf8_lossy: the result depends on the bytes
/// alone, and valid UTF-8 decodes without replacement.
#[verifier::external_body]
fn lossy_string(bytes: &[u8]) -> (r: String)
    ensures
        r@ == utf8_lossy(bytes@),
        valid_utf8(bytes@) ==> r@ == decode_utf8(bytes@),
{
    String::from_utf8_lossy(bytes).into_owned()
}

/// Relies on String::push: appends exactly one character.
#[verifier::external_body]
fn push_char(s: &mut String, c: char)
    ensures
        final(s)@ == old(s)@ + seq![c],
{
    s.push(c)
}

/// The lower-case hexadecimal digit for `n`.
pub open spec fn spec_hex_digit(n: u8) -> char {
    if n == 0 {
        '0'
    } else if n == 1 {
        '1'
    } else if n == 2 {
        '2'
    } else if n == 3 {
        '3'
    } else if n == 4 {
        '4'
    } else if n == 5 {
        '5'
    } else if n == 6 {
        '6'
    } else if n == 7 {
        '7'
    } else if n == 8 {
        '8'
    } else if n == 9 {
        '9'
    } else if n == 10 {
        'a'
    } else if n == 11 {
        'b'
    } else if n == 12 {
        'c'
    } else if n == 13 {
        'd'
    } else if n == 14 {
        'e'
    } else {
        'f'
    }
}

/// The lower-case hexadecimal digit for `n`.
fn hex_digit(n: u8) -> (c: char)
    requires
        n < 16,
    ensures
        c == spec_hex_digit(n),
{
    if n == 0 {
        '0'
    } else if n == 1 {
        '1'
    } else if n == 2 {
        '2'
    } else if n == 3 {
        '3'
    } else if n == 4 {
        '4'
    } else if n == 5 {
        '5'
    } else if n == 6 {
        '6'
    } else if n == 7 {
        '7'
    } else if n == 8 {
        '8'
    } else if n == 9 {
        '9'
    } else if n == 10 {
        'a'
    } else if n == 11 {
        'b'
    } else if n == 12 {
        'c'
    } else if n == 13 {
        'd'
    } else if n == 14 {
        'e'
    } else {
        'f'
    }
}

/// How one byte is rendered inside a byte-string literal: the named
/// escapes, the ASCII printable range as itself, everything else as a
/// two-digit hexadecimal escape.
pub open spec fn debug_escape(b: u8) -> Seq<char> {
    if b == 10 {
        seq!['\\', 'n']
    } else if b == 13 {
        seq!['\\', 'r']
    } else if b == 9 {
        seq!['\\', 't']
    } else if b == 92 || b == 34 {
        seq!['\\', b as char]
    } else if b == 0 {
        seq!['\\', '0']
    } else if 0x20 <= b && b < 0x7f {
        seq![b as char]
    } else {
        seq!['\\', 'x', spec_hex_digit(b / 16), spec_hex_digit(b % 16)]
    }
}

/// The rendering of a whole byte sequence, escape by escape.
pub open spec fn debug_chars(s: Seq<u8>) -> Seq<char>
    decreases s.len(),
{
    if s.len() == 0 {
        Seq::empty()
    } else {
        debug_chars(s.drop_last()) + debug_escape(s.last())
    }
}

/// Appends the rendering of one byte to `out`.
fn push_escape(out: &mut String, b: u8)
    ensures
        final(out)@ == old(out)@ + debug_escape(b),
{
    if b == 10 {
        push_char(out, '\\');
        push_char(out, 'n');
    } else if b == 13 {
        push_char(out, '\\');
        push_char(out, 'r');
    } else if b == 9 {
        push_char(out, '\\');
        push_char(out, 't');
    } else if b == 92 || b == 34 {
        push_char(out, '\\');
        push_char(out, b as char);
    } else if b == 0 {
        push_char(out, '\\');
        push_char(out, '0');
    } else if 0x20 <= b && b < 0x7f {
        push_char(out, b as char);
    } else {
        push_char(out, '\\');
        push_char(out, 'x');
        let hi = hex_digit(b / 16);
        push_char(out, hi);
        let lo = hex_digit(b % 16);
        push_char(out, lo);
    }
    proof {
        assert(final(out)@ =~= old(out)@ + debug_escape(b));
    }
}

impl ByteString {
    /// The empty byte string.
    pub fn new() -> (r: Self)
        ensures
            r@ == Seq::<u8>::empty(),
    {
        Self::default()
    }

    /// Whether no byte is held.
    pub fn is_empty(&self) -> (r: bool)
        ensures
            r == (self@.len() == 0),
    {
        self.bytes.len() == 0
    }

    /// The number of bytes held.
    pub fn len(&self) -> (n: usize)
        ensures
            n == self@.len(),
    {
        self.bytes.len()
    }

    /// The bytes held, borrowed.
    pub fn as_bytes(&self) -> (r: &[u8])
        ensures
            r@ == self@,
    {
        self.bytes.as_slice()
    }

    /// The bytes held, owned.
    pub fn into_bytes(self) -> (r: Vec<u8>)
        ensures
            r@ == self@,
    {
        self.bytes
    }

    /// Decodes the bytes as UTF-8: the decoded string exactly when the
    /// bytes are valid UTF-8, the conversion error otherwise.
    pub fn into_string(self) -> (r: Result<String, std::string::FromUtf8Error>)
        ensures
            r is Ok <==> valid_utf8(self@),
            r matches Ok(s) ==> s@ == decode_utf8(self@),
    {
        String::from_utf8(self.bytes)
    }

    /// The bytes taken in `start..end`, as a new byte string.
    pub fn slice(&self, start: usize, end: usize) -> (r: ByteString)
        requires
            start <= end <= self@.len(),
        ensures
            r@ == self@.subrange(start as int, end as int),
    {
        let mut out: Vec<u8> = Vec::new();
        let mut i: usize = start;
        while i < end
            invariant
                start <= i <= end <= self.bytes@.len(),
                out@ == self.bytes@.subrange(start as int, i as int),
            decreases end - i,
        {
            out.push(self.bytes[i]);
            proof {
                assert(out@ =~= self.bytes@.subrange(start as int, i + 1 as int));
            }
            i = i + 1;
        }
        ByteString { bytes: out }
    }

    /// The lossy UTF-8 reading of the bytes, as the display form shows it.
    pub fn display_string(&self) -> (r: String)
        ensures
            r@ == utf8_lossy(self@),
            valid_utf8(self@) ==> r@ == decode_utf8(self@),
    {
        lossy_string(self.bytes.as_slice())
    }

    /// The byte-string literal form of the bytes: `b"..."` with every
    /// byte rendered by `debug_escape`.
    pub fn debug_string(&self) -> (r: String)
        ensures
            r@ == seq!['b', '"'] + debug_chars(self@) + seq!['"'],
    {
        let mut out = String::new();
        push_char(&mut out, 'b');
        push_char(&mut out, '"');
        let mut i: usize = 0;
        while i < self.bytes.len()
            invariant
                i <= self.bytes@.len(),
                out@ == seq!['b', '"'] + debug_chars(self.bytes@.take(i as int)),
            decreases self.bytes@.len() - i,
        {
            let b = self.bytes[i];
            push_escape(&mut out, b);
            proof {
                assert(self.bytes@.take(i + 1 as int).drop_last() =~= self.bytes@.take(i as int));
                assert(self.bytes@.take(i + 1 as int).last() == self.bytes@[i as int]);
            }
            i = i + 1;
        }
        proof {
            assert(self.bytes@.take(self.bytes@.len() as int) =~= self.bytes@);
        }
        push_char(&mut out, '"');
        out
    }
}

impl Default for ByteString {
    /// The empty byte string.
    fn default() -> (r: Self)
        ensures
            r@ == Seq::<u8>::empty(),
    {
        ByteString { bytes: Vec::new() }
    }
}

impl From<Vec<u8>> for ByteString {
    fn from(bytes: Vec<u8>) -> (r: Self)
        ensures
            r@ == bytes@,
    {
        ByteString { bytes }
    }
}

impl vstd::std_specs::convert::FromSpecImpl<Vec<u8>> for ByteString {
    open spec fn obeys_from_spec() -> bool {
        true
    }

    open spec fn from_spec(bytes: Vec<u8>) -> Self {
        ByteString { bytes }
    }
}

impl From<&[u8]> for ByteString {
    fn from(bytes: &[u8]) -> (r: Self)
        ensures
            r@ == bytes@,
    {
        ByteString { bytes: slice_to_vec(bytes) }
    }
}

impl vstd::std_specs::convert::FromSpecImpl<&[u8]> for ByteString {
    open spec fn obeys_from_spec() -> bool {
        false
    }

    open spec fn from_spec(bytes: &[u8]) -> Self {
        arbitrary()
    }
}

impl From<&str> for ByteString {
    fn from(text: &str) -> (r: Self)
        ensures
            r@ == text.spec_bytes(),
    {
        ByteString { bytes: slice_to_vec(text.as_bytes()) }
    }
}

impl vstd::std_specs::convert::FromSpecImpl<&str> for ByteString {
    open spec fn obeys_from_spec() -> bool {
        false
    }

    open spec fn from_spec(text: &str) -> Self {
        arbitrary()
    }
}

impl From<String> for ByteString {
    fn from(text: String) -> (r: Self)
        ensures
            r@ == encode_utf8(text@),
    {
        ByteString { bytes: slice_to_vec(text.as_str().as_bytes()) }
    }
}

impl vstd::std_specs::convert::FromSpecImpl<String> for ByteString {
    open spec fn obeys_from_spec() -> bool {
        false
    }

    open spec fn from_spec(text: String) -> Self {
        arbitrary()
    }
}

impl PartialEq for ByteString {
    fn eq(&self, other: &ByteString) -> (r: bool) {
        bytes_eq(self.bytes.as_slice(), other.bytes.as_slice())
    }
}

impl vstd::std_specs::cmp::PartialEqSpecImpl for ByteString {
    open spec fn obeys_eq_spec() -> bool {
        true
    }

    open spec fn eq_spec(&self, other: &ByteString) -> bool {
        self@ == other@
    }
}

impl PartialEq<&str> for ByteString {
    fn eq(&self, other: &&str) -> (r: bool) {
        bytes_eq(self.bytes.as_slice(), other.as_bytes())
    }
}

impl vstd::std_specs::cmp::PartialEqSpecImpl<&str> for ByteString {
    open spec fn obeys_eq_spec() -> bool {
        true
    }

    open spec fn eq_spec(&self, other: &&str) -> bool {
        self@ == other.spec_bytes()
    }
}

impl PartialEq<ByteString> for &str {
    fn eq(&self, other: &ByteString) -> (r: bool) {
        bytes_eq(self.as_bytes(), other.bytes.as_slice())
    }
}

impl vstd::std_specs::cmp::PartialEqSpecImpl<ByteString> for &str {
    open spec fn obeys_eq_spec() -> bool {
        true
    }

    open spec fn eq_spec(&self, other: &ByteString) -> bool {
        self.spec_bytes() == other@
    }
}

impl PartialEq<String> for ByteString {
    fn eq(&self, other: &String) -> (r: bool) {
        bytes_eq(self.bytes.as_slice(), other.as_str().as_bytes())
    }
}

impl vstd::std_specs::cmp::PartialEqSpecImpl<String> for ByteString {
    open spec fn obeys_eq_spec() -> bool {
        true
    }

    open spec fn eq_spec(&self, other: &String) -> bool {
        self@ == encode_utf8(other@)
    }
}

impl PartialEq<ByteString> for String {
    fn eq(&self, other: &ByteString) -> (r: bool) {
        bytes_eq(self.as_str().as_bytes(), other.bytes.as_slice())
    }
}

impl vstd::std_specs::cmp::PartialEqSpecImpl<ByteString> for String {
    open spec fn obeys_eq_spec() -> bool {
        true
    }

    open spec fn eq_spec(&self, other: &ByteString) -> bool {
        encode_utf8(self@) == other@
    }
}

impl PartialEq<Vec<u8>> for ByteString {
    fn eq(&self, other: &Vec<u8>) -> (r: bool) {
        bytes_eq(self.bytes.as_slice(), other.as_slice())
    }
}

impl vstd::std_specs::cmp::PartialEqSpecImpl<Vec<u8>> for ByteString {
    open spec fn obeys_eq_spec() -> bool {
        true
    }

    open spec fn eq_spec(&self, other: &Vec<u8>) -> bool {
        self@ == other@
    }
}

impl PartialEq<ByteString> for Vec<u8> {
    fn eq(&self, other: &ByteString) -> (r: bool) {
        bytes_eq(self.as_slice(), other.bytes.as_slice())
    }
}

impl vstd::std_specs::cmp::PartialEqSpecImpl<ByteString> for Vec<u8> {
    open spec fn obeys_eq_spec() -> bool {
        true
    }

    open spec fn eq_spec(&self, other: &ByteString) -> bool {
        self@ == other@
    }
}

impl PartialEq<&[u8]> for ByteString {
    fn eq(&self, other: &&[u8]) -> (r: bool) {
        bytes_eq(self.bytes.as_slice(), other)
    }
}

impl vstd::std_specs::cmp::PartialEqSpecImpl<&[u8]> for ByteString {
    open spec fn obeys_eq_spec() -> bool {
        true
    }

    open spec fn eq_spec(&self, other: &&[u8]) -> bool {
        self@ == other@
    }
}

impl PartialEq<ByteString> for &[u8] {
    fn eq(&self, other: &ByteString) -> (r: bool) {
        bytes_eq(self, other.bytes.as_slice())
    }
}

impl vstd::std_specs::cmp::PartialEqSpecImpl<ByteString> for &[u8] {
    open spec fn obeys_eq_spec() -> bool {
        true
    }

    open spec fn eq_spec(&self, other: &ByteString) -> bool {
        self@ == other@
    }
}

} // verus!
