use vstd::prelude::*;
use vstd::string::*;

verus! {

/// A floating-point constant, carried as its IEEE-754 bit pattern together
/// with the decimal text it renders to. Machine floats stay outside the
/// verified core; callers that hold a native float store its bits and its
/// rendering here and read them back out unchanged.
#[derive(Debug)]
pub struct Double {
    pub bits: u64,
    pub text: String,
}

/// The mathematical model of a `Double`.
pub struct DoubleV {
    pub bits: u64,
    pub text: Seq<char>,
}

impl DeepView for Double {
    type V = DoubleV;

    open spec fn deep_view(&self) -> DoubleV {
        DoubleV { bits: self.bits, text: self.text@ }
    }
}

impl Clone for Double {
    fn clone(&self) -> (r: Self)
        ensures
            r == *self,
    {
        Double { bits: self.bits, text: self.text.clone() }
    }
}

/// A scalar constant in the value algebra.
#[derive(Debug)]
pub enum Constant {
    Boolean(bool),
    String(String),
    Integer(i64),
    Float(Double),
    Undefined,
}

/// The mathematical model of a `Constant`.
pub enum ConstantV {
    Boolean(bool),
    String(Seq<char>),
    Integer(i64),
    Float(DoubleV),
    Undefined,
}

impl DeepView for Constant {
    type V = ConstantV;

    open spec fn deep_view(&self) -> ConstantV {
        match self {
            Constant::Boolean(b) => ConstantV::Boolean(*b),
            Constant::String(s) => ConstantV::String(s@),
            Constant::Integer(i) => ConstantV::Integer(*i),
            Constant::Float(d) => ConstantV::Float(d.deep_view()),
            Constant::Undefined => ConstantV::Undefined,
        }
    }
}

impl Clone for Constant {
    fn clone(&self) -> (r: Self)
        ensures
            r == *self,
    {
        match self {
            Constant::Boolean(b) => Constant::Boolean(*b),
            Constant::String(s) => Constant::String(s.clone()),
            Constant::Integer(i) => Constant::Integer(*i),
            Constant::Float(d) => Constant::Float(d.clone()),
            Constant::Undefined => Constant::Undefined,
        }
    }
}

/// The decimal digit character for `d`.
pub open spec fn spec_digit_char(d: int) -> char {
    if d == 0 {
        '0'
    } else if d == 1 {
        '1'
    } else if d == 2 {
        '2'
    } else if d == 3 {
        '3'
    } else if d == 4 {
        '4'
    } else if d == 5 {
        '5'
    } else if d == 6 {
        '6'
    } else if d == 7 {
        '7'
    } else if d == 8 {
        '8'
    } else {
        '9'
    }
}

/// The decimal digits of a non-negative integer, most significant first.
pub open spec fn spec_nat_digits(n: int) -> Seq<char>
    decreases n,
{
    if n < 10 {
        seq![spec_digit_char(n)]
    } else {
        spec_nat_digits(n / 10) + seq![spec_digit_char(n % 10)]
    }
}

/// The decimal rendering of a signed integer: plain digits, with a leading
/// `-` for negative values.
pub open spec fn spec_i64_text(i: int) -> Seq<char> {
    if i >= 0 {
        spec_nat_digits(i)
    } else {
        seq!['-'] + spec_nat_digits(-i)
    }
}

/// Relies on i64's Display implementation: the decimal digits of the value,
/// with a leading '-' when it is negative.
#[verifier::external_body]
fn i64_to_string(i: i64) -> (r: String)
    ensures
        r@ == spec_i64_text(i as int),
{
    let mut s = String::new();
    s.push_str(&i.to_string());
    s
}

/// The canonical textual form of a constant: integers in decimal, booleans
/// as `true`/`false`, strings bare, floats as the text they carry, and
/// `Undefined` as the empty string.
pub open spec fn constant_text(c: ConstantV) -> Seq<char> {
    match c {
        ConstantV::Boolean(b) => if b {
            "true"@
        } else {
            "false"@
        },
        ConstantV::String(s) => s,
        ConstantV::Integer(i) => spec_i64_text(i as int),
        ConstantV::Float(d) => d.text,
        ConstantV::Undefined => Seq::empty(),
    }
}

/// Renders a constant to its canonical textual form.
pub fn constant_to_text(c: &Constant) -> (r: String)
    ensures
        r@ == constant_text(c.deep_view()),
{
    match c {
        Constant::Boolean(b) => if *b {
            String::from_str("true")
        } else {
            String::from_str("false")
        },
        Constant::String(s) => s.clone(),
        Constant::Integer(i) => i64_to_string(*i),
        Constant::Float(d) => d.text.clone(),
        Constant::Undefined => String::new(),
    }
}

} // verus!
