//! Logging capability handed into the scan: five independent levels, each
//! a sink that records messages as wide (UTF-16, zero-terminated) strings,
//! the form in which the embedding program forwards them onward.

use vstd::prelude::*;

verus! {

/// UTF-16 code units of one character: the character itself below
/// U+10000, else its surrogate pair.
pub open spec fn utf16_char(c: char) -> Seq<u16> {
    let v = c as u32;
    if v < 0x10000 {
        seq![v as u16]
    } else {
        seq![
            (0xD800 + (v - 0x10000) / 0x400) as u16,
            (0xDC00 + (v - 0x10000) % 0x400) as u16,
        ]
    }
}

/// UTF-16 code units of a character sequence.
pub open spec fn utf16_units(s: Seq<char>) -> Seq<u16>
    decreases s.len(),
{
    if s.len() == 0 {
        Seq::empty()
    } else {
        utf16_char(s[0]) + utf16_units(s.drop_first())
    }
}

/// A logged message as handed onward: UTF-16 code units plus a
/// terminating zero unit.
pub open spec fn wide_message(s: Seq<char>) -> Seq<u16> {
    utf16_units(s) + seq![0u16]
}

/// Relies on str::encode_utf16: yields exactly the UTF-16 code units of
/// the string's characters, one unit below U+10000, a surrogate pair
/// above.
#[verifier::external_body]
fn encode_utf16_units(s: &str) -> (r: Vec<u16>)
    ensures
        r@ == utf16_units(s@),
{
    let mut v: Vec<u16> = Vec::new();
    for u in s.encode_utf16() {
        v.push(u);
    }
    v
}

/// One log level: a sink recording every message given to it, in order,
/// in the zero-terminated wide form.
pub struct LogLevel {
    messages: Vec<Vec<u16>>,
}

impl View for LogLevel {
    type V = Seq<Seq<u16>>;

    closed spec fn view(&self) -> Seq<Seq<u16>> {
        self.messages.deep_view()
    }
}

impl LogLevel {
    /// An empty sink.
    pub fn new() -> (r: LogLevel)
        ensures
            r@ == Seq::<Seq<u16>>::empty(),
    {
        let r = LogLevel { messages: Vec::new() };
        proof {
            assert(r.messages.deep_view() =~= Seq::<Seq<u16>>::empty());
        }
        r
    }

    /// Records one message: its wide encoding is appended to the
    /// transcript.
    pub fn log(&mut self, msg: &str)
        ensures
            final(self)@ == old(self)@.push(wide_message(msg@)),
    {
        let mut units = encode_utf16_units(msg);
        units.push(0u16);
        proof {
            assert(units@ == wide_message(msg@));
        }
        self.messages.push(units);
        proof {
            assert(self.messages.deep_view() =~~= old(self).messages.deep_view().push(
                wide_message(msg@),
            ));
        }
    }

    /// Number of messages recorded so far.
    pub fn count(&self) -> (n: usize)
        ensures
            n == self@.len(),
    {
        self.messages.len()
    }

    /// The `i`-th recorded message.
    pub fn message(&self, i: usize) -> (m: &Vec<u16>)
        requires
            i < self@.len(),
        ensures
            m@ == self@[i as int],
    {
        let m = &self.messages[i];
        proof {
            assert(self.messages.deep_view()[i as int] == self.messages@[i as int]@);
        }
        m
    }
}

/// The sixteen hexadecimal digit characters, lowercase.
pub open spec fn hex_digit_char(d: int) -> char {
    if d == 0 {
        '0'
    } else if d == 1 {
        '1'
    } else if d == 2 {
        '2'
    } else if d == 3 {
        '3'
    } else if d == 4 {
        '4'
    } else if d == 5 {
        '5'
    } else if d == 6 {
        '6'
    } else if d == 7 {
        '7'
    } else if d == 8 {
        '8'
    } else if d == 9 {
        '9'
    } else if d == 10 {
        'a'
    } else if d == 11 {
        'b'
    } else if d == 12 {
        'c'
    } else if d == 13 {
        'd'
    } else if d == 14 {
        'e'
    } else {
        'f'
    }
}

/// Lowercase hexadecimal digits of a non-negative value, no leading
/// zeros, "0" for zero.
pub open spec fn hex_chars(v: int) -> Seq<char>
    decreases v,
{
    if v < 16 {
        seq![hex_digit_char(v)]
    } else {
        hex_chars(v / 16).push(hex_digit_char(v % 16))
    }
}

/// Decimal digits of a non-negative value, no leading zeros.
pub open spec fn dec_chars(v: int) -> Seq<char>
    decreases v,
{
    if v < 10 {
        seq![hex_digit_char(v)]
    } else {
        dec_chars(v / 10).push(hex_digit_char(v % 10))
    }
}

/// Relies on core::fmt's LowerHex for u64: lowercase hexadecimal digits
/// without leading zeros.
#[verifier::external_body]
fn hex_string(v: u64) -> (r: String)
    ensures
        r@ == hex_chars(v as int),
{
    format!("{:x}", v)
}

/// Relies on core::fmt's Display for u16: decimal digits without leading
/// zeros.
#[verifier::external_body]
pub(crate) fn dec_string(v: u16) -> (r: String)
    ensures
        r@ == dec_chars(v as int),
{
    format!("{}", v)
}

/// Relies on core::fmt: the concatenation of the two strings.
#[verifier::external_body]
pub(crate) fn concat2(a: &str, b: &str) -> (r: String)
    ensures
        r@ == a@ + b@,
{
    format!("{}{}", a, b)
}

/// The success message logged for a resolved slot.
pub open spec fn found_message(name: Seq<char>, value: u64) -> Seq<char> {
    "Found "@ + name + ": 0x"@ + hex_chars(value as int)
}

/// The failure message logged for an unresolved slot.
pub open spec fn failed_message(name: Seq<char>, err: Seq<char>) -> Seq<char> {
    "Failed to find "@ + name + ": "@ + err
}

/// The remediation hint naming the manual signature override file.
pub open spec fn aob_hint_message(lua: Seq<char>) -> Seq<char> {
    "You can supply your own AOB in 'UE4SS_Signatures/"@ + lua + "'"@
}

/// Builds the success message for a resolved slot.
pub fn build_found_message(name: &str, value: u64) -> (r: String)
    ensures
        r@ == found_message(name@, value),
{
    let h = hex_string(value);
    let a = concat2("Found ", name);
    let b = concat2(a.as_str(), ": 0x");
    let c = concat2(b.as_str(), h.as_str());
    proof {
        assert(c@ =~= found_message(name@, value));
    }
    c
}

/// Builds the failure message for an unresolved slot.
pub fn build_failed_message(name: &str, err: &str) -> (r: String)
    ensures
        r@ == failed_message(name@, err@),
{
    let a = concat2("Failed to find ", name);
    let b = concat2(a.as_str(), ": ");
    let c = concat2(b.as_str(), err);
    proof {
        assert(c@ =~= failed_message(name@, err@));
    }
    c
}

/// Builds the remediation hint naming the override file.
pub fn build_aob_hint_message(lua: &str) -> (r: String)
    ensures
        r@ == aob_hint_message(lua@),
{
    let a = concat2("You can supply your own AOB in 'UE4SS_Signatures/", lua);
    let b = concat2(a.as_str(), "'");
    proof {
        assert(b@ =~= aob_hint_message(lua@));
    }
    b
}

} // verus!
