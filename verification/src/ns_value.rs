//! The value types stored in the Foundation-style collections: strings,
//! mutable strings, numbers and plain objects, each a verified model
//! holding as plain values what the collection logic reads.

use vstd::prelude::*;

use crate::render::{spec_dec, push_decimal};

verus! {

/// What a Foundation-style collection asks of its elements: a mathematical
/// view, decidable equality over it, cloning that preserves it, and a
/// printable description.
pub trait Message: View + Sized {
    /// The description of an element value, as used in a collection's debug
    /// text: a function of the mathematical value alone.
    spec fn describe_of(v: Self::V) -> Seq<char>;

    fn eq_value(&self, other: &Self) -> (r: bool)
        ensures
            r == (self@ == other@),
    ;

    fn clone_value(&self) -> (r: Self)
        ensures
            r@ == self@,
    ;

    fn describe(&self) -> (r: String)
        ensures
            r@ == Self::describe_of(self@),
    ;
}

/// An immutable string value.
#[derive(Debug, Clone)]
pub struct NSString {
    text: String,
}

impl View for NSString {
    type V = Seq<char>;

    closed spec fn view(&self) -> Seq<char> {
        self.text@
    }
}

impl NSString {
    pub fn from_str(s: &str) -> (r: Self)
        ensures
            r@ == s@,
    {
        NSString { text: s.to_owned() }
    }

    pub fn as_str(&self) -> (r: &str)
        ensures
            r@ == self@,
    {
        self.text.as_str()
    }
}

impl Message for NSString {
    open spec fn describe_of(v: Seq<char>) -> Seq<char> {
        "\""@ + v + "\""@
    }

    fn eq_value(&self, other: &Self) -> (r: bool) {
        self.text == other.text
    }

    fn clone_value(&self) -> (r: Self) {
        NSString { text: self.text.clone() }
    }

    fn describe(&self) -> (r: String) {
        let mut out = String::new();
        out.append("\"");
        out.append(self.text.as_str());
        out.append("\"");
        proof {
            assert(out@ =~= Self::describe_of(self@));
        }
        out
    }
}

impl PartialEq for NSString {
    fn eq(&self, other: &Self) -> (r: bool) {
        self.text == other.text
    }
}

impl vstd::std_specs::cmp::PartialEqSpecImpl for NSString {
    open spec fn obeys_eq_spec() -> bool {
        true
    }

    open spec fn eq_spec(&self, other: &Self) -> bool {
        self@ == other@
    }
}

/// A mutable string value.
#[derive(Debug, Clone)]
pub struct NSMutableString {
    text: String,
}

impl View for NSMutableString {
    type V = Seq<char>;

    closed spec fn view(&self) -> Seq<char> {
        self.text@
    }
}

impl NSMutableString {
    pub fn from_str(s: &str) -> (r: Self)
        ensures
            r@ == s@,
    {
        NSMutableString { text: s.to_owned() }
    }

    /// Append another string's contents to this one.
    #[allow(non_snake_case)]
    pub fn appendString(&mut self, other: &NSString)
        ensures
            final(self)@ == old(self)@ + other@,
    {
        self.text.append(other.as_str());
    }

    /// Whether this string ends with `suffix`.
    #[allow(non_snake_case)]
    pub fn hasSuffix(&self, suffix: &NSString) -> (r: bool)
        ensures
            r == (self@.len() >= suffix@.len() && self@.subrange(
                self@.len() - suffix@.len(),
                self@.len() as int,
            ) == suffix@),
    {
        let n = self.text.as_str().unicode_len();
        let m = suffix.as_str().unicode_len();
        if m > n {
            return false;
        }
        let mut j: usize = 0;
        while j < m
            invariant
                j <= m,
                m <= n,
                n == self@.len(),
                m == suffix@.len(),
                forall|k: int| 0 <= k < j ==> self@[n - m + k] == suffix@[k],
            decreases m - j,
        {
            let a = self.text.as_str().get_char(n - m + j);
            let b = suffix.as_str().get_char(j);
            if a != b {
                proof {
                    assert(self@.subrange(n - m, n as int)[j as int] != suffix@[j as int]);
                }
                return false;
            }
            j = j + 1;
        }
        proof {
            assert(self@.subrange(n - m, n as int) =~= suffix@);
        }
        true
    }
}

impl Message for NSMutableString {
    open spec fn describe_of(v: Seq<char>) -> Seq<char> {
        "\""@ + v + "\""@
    }

    fn eq_value(&self, other: &Self) -> (r: bool) {
        self.text == other.text
    }

    fn clone_value(&self) -> (r: Self) {
        NSMutableString { text: self.text.clone() }
    }

    fn describe(&self) -> (r: String) {
        let mut out = String::new();
        out.append("\"");
        out.append(self.text.as_str());
        out.append("\"");
        proof {
            assert(out@ =~= Self::describe_of(self@));
        }
        out
    }
}

/// A numeric value.
#[derive(Debug, Clone, Copy)]
pub struct NSNumber {
    value: i32,
}

impl View for NSNumber {
    type V = int;

    closed spec fn view(&self) -> int {
        self.value as int
    }
}

impl NSNumber {
    pub fn new_i32(value: i32) -> (r: Self)
        ensures
            r@ == value as int,
    {
        NSNumber { value }
    }

    pub fn as_i32(&self) -> (r: i32)
        ensures
            r as int == self@,
    {
        self.value
    }
}

impl Message for NSNumber {
    open spec fn describe_of(v: int) -> Seq<char> {
        if v < 0 {
            seq!['-'] + spec_dec((-v) as nat)
        } else {
            spec_dec(v as nat)
        }
    }

    fn eq_value(&self, other: &Self) -> (r: bool) {
        self.value == other.value
    }

    fn clone_value(&self) -> (r: Self) {
        NSNumber { value: self.value }
    }

    fn describe(&self) -> (r: String) {
        let mut out = String::new();
        let wide: i64 = self.value as i64;
        if wide < 0 {
            out.append("-");
            let magnitude: u64 = (-wide) as u64;
            proof {
                reveal_strlit("-");
                assert("-"@ =~= seq!['-']);
                assert(magnitude as nat == (-self@) as nat);
            }
            push_decimal(&mut out, magnitude);
            proof {
                assert(out@ =~= Seq::<char>::empty() + "-"@ + spec_dec(magnitude as nat));
                assert(out@ =~= seq!['-'] + spec_dec((-self@) as nat));
                assert(out@ =~= Self::describe_of(self@));
            }
        } else {
            push_decimal(&mut out, wide as u64);
        }
        out
    }
}

impl PartialEq for NSNumber {
    fn eq(&self, other: &Self) -> (r: bool) {
        self.value == other.value
    }
}

impl vstd::std_specs::cmp::PartialEqSpecImpl for NSNumber {
    open spec fn obeys_eq_spec() -> bool {
        true
    }

    open spec fn eq_spec(&self, other: &Self) -> bool {
        self@ == other@
    }
}

/// A plain object, identified by an explicitly supplied identity: distinct
/// identities stand for distinct allocations, and equality is identity
/// equality.
#[derive(Debug, Clone, Copy)]
pub struct NSObject {
    identity: u64,
}

impl View for NSObject {
    type V = int;

    closed spec fn view(&self) -> int {
        self.identity as int
    }
}

impl NSObject {
    pub fn new(identity: u64) -> (r: Self)
        ensures
            r@ == identity as int,
    {
        NSObject { identity }
    }
}

impl Message for NSObject {
    open spec fn describe_of(v: int) -> Seq<char> {
        "<NSObject "@ + spec_dec(v as nat) + ">"@
    }

    fn eq_value(&self, other: &Self) -> (r: bool) {
        self.identity == other.identity
    }

    fn clone_value(&self) -> (r: Self) {
        NSObject { identity: self.identity }
    }

    fn describe(&self) -> (r: String) {
        let mut out = String::new();
        out.append("<NSObject ");
        let magnitude: u64 = self.identity;
        proof {
            assert(magnitude as nat == self@ as nat);
        }
        push_decimal(&mut out, magnitude);
        out.append(">");
        proof {
            assert(out@ =~= Self::describe_of(self@));
        }
        out
    }
}

} // verus!
