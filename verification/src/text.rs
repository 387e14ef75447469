//! Values that can be shown as text: strings, characters, booleans and
//! integers, and references to them.

use crate::lines::{is_line, push_char};
use vstd::prelude::*;

verus! {

/// A value that can be shown as text.
pub trait ToText {
    /// The text that shows the value.
    spec fn text(&self) -> Seq<char>;

    /// Writes the value out as text.
    fn to_text(&self) -> (text: String)
        ensures
            text@ == self.text(),
    ;
}

/// The character that stands for a decimal digit.
pub open spec fn digit(d: int) -> char
    recommends
        0 <= d < 10,
{
    seq!['0', '1', '2', '3', '4', '5', '6', '7', '8', '9'][d]
}

/// A natural number in decimal notation, without leading zeros.
pub open spec fn decimal(n: nat) -> Seq<char>
    decreases n,
{
    if n < 10 {
        seq![digit(n as int)]
    } else {
        decimal(n / 10).push(digit((n % 10) as int))
    }
}

/// An integer in decimal notation, with a minus sign in front where it is
/// negative.
pub open spec fn signed_decimal(n: int) -> Seq<char> {
    if n < 0 {
        seq!['-'] + decimal((-n) as nat)
    } else {
        decimal(n as nat)
    }
}

/// The character of one decimal digit.
fn digit_char(d: u8) -> (c: char)
    requires
        d < 10,
    ensures
        c == digit(d as int),
{
    match d {
        0 => '0',
        1 => '1',
        2 => '2',
        3 => '3',
        4 => '4',
        5 => '5',
        6 => '6',
        7 => '7',
        8 => '8',
        _ => '9',
    }
}

/// Puts a natural number, in decimal notation, at the end of a text.
fn push_decimal(text: &mut String, n: u128)
    ensures
        final(text)@ == old(text)@ + decimal(n as nat),
    decreases n,
{
    if n >= 10 {
        push_decimal(text, n / 10);
    }
    push_char(text, digit_char((n % 10) as u8));
}

/// Writes a natural number in decimal notation.
pub fn unsigned_text(n: u128) -> (text: String)
    ensures
        text@ == decimal(n as nat),
{
    let mut text = String::new();
    push_decimal(&mut text, n);
    text
}

/// Writes an integer in decimal notation.
pub fn signed_text(n: i128) -> (text: String)
    ensures
        text@ == signed_decimal(n as int),
{
    let mut text = String::new();
    if n < 0 {
        push_char(&mut text, '-');
        let below: u128 = (-(n + 1)) as u128;
        push_decimal(&mut text, below + 1);
    } else {
        push_decimal(&mut text, n as u128);
    }
    text
}

impl ToText for String {
    open spec fn text(&self) -> Seq<char> {
        self@
    }

    fn to_text(&self) -> (text: String) {
        self.clone()
    }
}

impl ToText for str {
    open spec fn text(&self) -> Seq<char> {
        self@
    }

    fn to_text(&self) -> (text: String) {
        self.to_owned()
    }
}

impl<T: ToText + ?Sized> ToText for &T {
    open spec fn text(&self) -> Seq<char> {
        (**self).text()
    }

    fn to_text(&self) -> (text: String) {
        (**self).to_text()
    }
}

impl ToText for char {
    open spec fn text(&self) -> Seq<char> {
        seq![*self]
    }

    fn to_text(&self) -> (text: String) {
        let mut text = String::new();
        push_char(&mut text, *self);
        text
    }
}

impl ToText for bool {
    open spec fn text(&self) -> Seq<char> {
        if *self {
            seq!['t', 'r', 'u', 'e']
        } else {
            seq!['f', 'a', 'l', 's', 'e']
        }
    }

    fn to_text(&self) -> (text: String) {
        proof {
            reveal_strlit("true");
            reveal_strlit("false");
        }
        let text = if *self {
            "true".to_owned()
        } else {
            "false".to_owned()
        };
        assert(text@ == self.text());
        text
    }
}

impl ToText for u8 {
    open spec fn text(&self) -> Seq<char> {
        decimal(*self as nat)
    }

    fn to_text(&self) -> (text: String) {
        unsigned_text(*self as u128)
    }
}

impl ToText for u16 {
    open spec fn text(&self) -> Seq<char> {
        decimal(*self as nat)
    }

    fn to_text(&self) -> (text: String) {
        unsigned_text(*self as u128)
    }
}

impl ToText for u32 {
    open spec fn text(&self) -> Seq<char> {
        decimal(*self as nat)
    }

    fn to_text(&self) -> (text: String) {
        unsigned_text(*self as u128)
    }
}

impl ToText for u64 {
    open spec fn text(&self) -> Seq<char> {
        decimal(*self as nat)
    }

    fn to_text(&self) -> (text: String) {
        unsigned_text(*self as u128)
    }
}

impl ToText for u128 {
    open spec fn text(&self) -> Seq<char> {
        decimal(*self as nat)
    }

    fn to_text(&self) -> (text: String) {
        unsigned_text(*self)
    }
}

impl ToText for usize {
    open spec fn text(&self) -> Seq<char> {
        decimal(*self as nat)
    }

    fn to_text(&self) -> (text: String) {
        unsigned_text(*self as u128)
    }
}

impl ToText for i8 {
    open spec fn text(&self) -> Seq<char> {
        signed_decimal(*self as int)
    }

    fn to_text(&self) -> (text: String) {
        signed_text(*self as i128)
    }
}

impl ToText for i16 {
    open spec fn text(&self) -> Seq<char> {
        signed_decimal(*self as int)
    }

    fn to_text(&self) -> (text: String) {
        signed_text(*self as i128)
    }
}

impl ToText for i32 {
    open spec fn text(&self) -> Seq<char> {
        signed_decimal(*self as int)
    }

    fn to_text(&self) -> (text: String) {
        signed_text(*self as i128)
    }
}

impl ToText for i64 {
    open spec fn text(&self) -> Seq<char> {
        signed_decimal(*self as int)
    }

    fn to_text(&self) -> (text: String) {
        signed_text(*self as i128)
    }
}

impl ToText for i128 {
    open spec fn text(&self) -> Seq<char> {
        signed_decimal(*self as int)
    }

    fn to_text(&self) -> (text: String) {
        signed_text(*self)
    }
}

impl ToText for isize {
    open spec fn text(&self) -> Seq<char> {
        signed_decimal(*self as int)
    }

    fn to_text(&self) -> (text: String) {
        signed_text(*self as i128)
    }
}

/// A number's text holds no newline, so it is a single line.
pub proof fn lemma_decimal_is_line(n: int)
    ensures
        is_line(signed_decimal(n)),
        n >= 0 ==> is_line(decimal(n as nat)),
{
    if n < 0 {
        lemma_digits_are_line((-n) as nat);
    } else {
        lemma_digits_are_line(n as nat);
    }
}

/// No digit is a newline.
proof fn lemma_digits_are_line(n: nat)
    ensures
        is_line(decimal(n)),
    decreases n,
{
    if n >= 10 {
        lemma_digits_are_line(n / 10);
    }
}

} // verus!
