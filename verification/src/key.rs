//! Key canonicalization for external backends.
//!
//! An external engine is keyed by strings, so every key type used with it
//! must map to a canonical string. The mapping must be deterministic and
//! injective: two distinct keys that canonicalize to the same string would
//! silently share one slot of the backend, corrupting unrelated entries.
//! Nothing checks this at run time; the injectivity lemmas below prove it
//! once and for all for the built-in text and integer canonicalizers.

use vstd::prelude::*;
use vstd::string::StringExecFns;

verus! {

/// Maps a key to its unique canonical string for external backends.
///
/// Implementations must be deterministic and injective: `spec_key` pins the
/// canonical form down as a mathematical function of the key, and a caller
/// supplying its own implementation takes on the obligation that distinct
/// keys have distinct canonical forms. A violation is not detected at run
/// time; it manifests as distinct keys aliasing one slot of the backend.
pub trait ExternalKey {
    /// The canonical string form of this key.
    spec fn spec_key(&self) -> Seq<char>;

    /// Produces the canonical string form of this key.
    fn external_key(&self) -> (s: String)
        ensures
            s@ == self.spec_key(),
    ;
}

/// The character for one decimal digit.
pub open spec fn digit_char(d: nat) -> char {
    if d == 0 {
        '0'
    } else if d == 1 {
        '1'
    } else if d == 2 {
        '2'
    } else if d == 3 {
        '3'
    } else if d == 4 {
        '4'
    } else if d == 5 {
        '5'
    } else if d == 6 {
        '6'
    } else if d == 7 {
        '7'
    } else if d == 8 {
        '8'
    } else {
        '9'
    }
}

/// Whether `c` is a decimal digit character.
pub open spec fn is_digit_char(c: char) -> bool {
    c == '0' || c == '1' || c == '2' || c == '3' || c == '4' || c == '5' || c == '6' || c == '7'
        || c == '8' || c == '9'
}

/// The digit denoted by a decimal digit character.
pub open spec fn char_digit(c: char) -> nat {
    if c == '0' {
        0
    } else if c == '1' {
        1
    } else if c == '2' {
        2
    } else if c == '3' {
        3
    } else if c == '4' {
        4
    } else if c == '5' {
        5
    } else if c == '6' {
        6
    } else if c == '7' {
        7
    } else if c == '8' {
        8
    } else {
        9
    }
}

/// The decimal digits of `n`, most significant first, without leading zeros
/// (`0` itself is written as the single digit `0`).
pub open spec fn spec_digits(n: nat) -> Seq<char>
    decreases n,
{
    if n < 10 {
        seq![digit_char(n)]
    } else {
        spec_digits(n / 10).push(digit_char(n % 10))
    }
}

/// The canonical decimal form of an integer: its digits, preceded by `-`
/// when it is negative.
pub open spec fn spec_decimal(n: int) -> Seq<char> {
    if n < 0 {
        seq!['-'] + spec_digits((-n) as nat)
    } else {
        spec_digits(n as nat)
    }
}

/// The number denoted by a sequence of decimal digit characters.
pub open spec fn digits_value(s: Seq<char>) -> nat
    decreases s.len(),
{
    if s.len() == 0 {
        0
    } else {
        digits_value(s.drop_last()) * 10 + char_digit(s.last())
    }
}

/// Reading the rendered digits of `n` back yields `n`; the rendering is
/// nonempty and starts with a digit character.
pub proof fn lemma_digits_roundtrip(n: nat)
    ensures
        digits_value(spec_digits(n)) == n,
        spec_digits(n).len() >= 1,
        is_digit_char(spec_digits(n)[0]),
    decreases n,
{
    if n < 10 {
        let s = spec_digits(n);
        assert(s =~= seq![digit_char(n)]);
        assert(s.drop_last() =~= Seq::<char>::empty());
        assert(digits_value(Seq::<char>::empty()) == 0);
        assert(s.last() == digit_char(n));
        assert(char_digit(digit_char(n)) == n);
        assert(digits_value(s) == digits_value(s.drop_last()) * 10 + char_digit(s.last()));
    } else {
        lemma_digits_roundtrip(n / 10);
        let s = spec_digits(n);
        assert(s.drop_last() =~= spec_digits(n / 10));
        assert(s.last() == digit_char(n % 10));
        vstd::arithmetic::div_mod::lemma_fundamental_div_mod(n as int, 10);
        assert(s[0] == spec_digits(n / 10)[0]);
    }
}

/// Distinct numbers render to distinct digit sequences.
pub proof fn lemma_digits_injective(a: nat, b: nat)
    requires
        a != b,
    ensures
        spec_digits(a) != spec_digits(b),
{
    lemma_digits_roundtrip(a);
    lemma_digits_roundtrip(b);
}

/// Canonical decimal forms are injective: distinct integers, including
/// negative ones, render to distinct strings.
pub proof fn lemma_decimal_injective(a: int, b: int)
    requires
        a != b,
    ensures
        spec_decimal(a) != spec_decimal(b),
{
    if a < 0 && b < 0 {
        lemma_digits_injective((-a) as nat, (-b) as nat);
        let x = spec_digits((-a) as nat);
        let y = spec_digits((-b) as nat);
        if spec_decimal(a) == spec_decimal(b) {
            let sx = seq!['-'] + x;
            let sy = seq!['-'] + y;
            assert(sx == sy);
            assert(x.len() == y.len()) by {
                assert(sx.len() == sy.len());
            }
            assert forall|i: int| 0 <= i < x.len() implies x[i] == y[i] by {
                assert(x[i] == sx[i + 1]);
                assert(y[i] == sy[i + 1]);
            }
            assert(x =~= y);
        }
    } else if a >= 0 && b >= 0 {
        lemma_digits_injective(a as nat, b as nat);
    } else if a < 0 {
        lemma_digits_roundtrip((-a) as nat);
        lemma_digits_roundtrip(b as nat);
        assert(spec_decimal(a)[0] == '-');
        assert(is_digit_char(spec_decimal(b)[0]));
    } else {
        lemma_digits_roundtrip((-b) as nat);
        lemma_digits_roundtrip(a as nat);
        assert(spec_decimal(b)[0] == '-');
        assert(is_digit_char(spec_decimal(a)[0]));
    }
}

/// A lookup through a borrowed view of an owned key reaches the same slot:
/// canonicalization depends on the key's characters alone.
pub proof fn lemma_borrowed_key_consistent(owned: &String, view: &str)
    requires
        owned@ == view@,
    ensures
        owned.spec_key() == view.spec_key(),
{
}

/// The built-in text canonicalizer is injective: distinct strings are their
/// own distinct canonical forms.
pub proof fn lemma_text_key_injective(k1: &String, k2: &String)
    requires
        k1@ != k2@,
    ensures
        k1.spec_key() != k2.spec_key(),
{
}

/// The built-in unsigned-integer canonicalizers are injective; every
/// unsigned impl canonicalizes through the same decimal form, shown here
/// for the widest type.
pub proof fn lemma_unsigned_key_injective(k1: u128, k2: u128)
    requires
        k1 != k2,
    ensures
        k1.spec_key() != k2.spec_key(),
{
    lemma_decimal_injective(k1 as int, k2 as int);
}

/// The built-in signed-integer canonicalizers are injective; every signed
/// impl canonicalizes through the same decimal form, shown here for the
/// widest type.
pub proof fn lemma_signed_key_injective(k1: i128, k2: i128)
    requires
        k1 != k2,
    ensures
        k1.spec_key() != k2.spec_key(),
{
    lemma_decimal_injective(k1 as int, k2 as int);
}

fn push_digit(s: &mut String, d: u128)
    requires
        d < 10,
    ensures
        final(s)@ == old(s)@.push(digit_char(d as nat)),
{
    if d == 0 {
        proof {
            reveal_strlit("0");
        }
        s.append("0");
    } else if d == 1 {
        proof {
            reveal_strlit("1");
        }
        s.append("1");
    } else if d == 2 {
        proof {
            reveal_strlit("2");
        }
        s.append("2");
    } else if d == 3 {
        proof {
            reveal_strlit("3");
        }
        s.append("3");
    } else if d == 4 {
        proof {
            reveal_strlit("4");
        }
        s.append("4");
    } else if d == 5 {
        proof {
            reveal_strlit("5");
        }
        s.append("5");
    } else if d == 6 {
        proof {
            reveal_strlit("6");
        }
        s.append("6");
    } else if d == 7 {
        proof {
            reveal_strlit("7");
        }
        s.append("7");
    } else if d == 8 {
        proof {
            reveal_strlit("8");
        }
        s.append("8");
    } else {
        proof {
            reveal_strlit("9");
        }
        s.append("9");
    }
    proof {
        assert(s@ =~= old(s)@.push(digit_char(d as nat)));
    }
}

fn push_digits(s: &mut String, n: u128)
    ensures
        final(s)@ == old(s)@ + spec_digits(n as nat),
    decreases n,
{
    if n >= 10 {
        push_digits(s, n / 10);
        push_digit(s, n % 10);
        proof {
            assert(s@ =~= old(s)@ + spec_digits(n as nat));
        }
    } else {
        push_digit(s, n);
        proof {
            assert(s@ =~= old(s)@ + spec_digits(n as nat));
        }
    }
}

/// Renders an unsigned number in its canonical decimal form.
pub fn u128_to_decimal(n: u128) -> (s: String)
    ensures
        s@ == spec_digits(n as nat),
{
    let mut s = String::new();
    push_digits(&mut s, n);
    proof {
        assert(s@ =~= spec_digits(n as nat));
    }
    s
}

/// Renders a signed number in its canonical decimal form.
pub fn i128_to_decimal(n: i128) -> (s: String)
    ensures
        s@ == spec_decimal(n as int),
{
    if n >= 0 {
        let s = u128_to_decimal(n as u128);
        s
    } else {
        let mut s = String::new();
        proof {
            reveal_strlit("-");
        }
        s.append("-");
        let m: u128 = ((-(n + 1)) as u128) + 1;
        push_digits(&mut s, m);
        proof {
            assert(m as nat == (-(n as int)) as nat);
            assert(s@ =~= spec_decimal(n as int));
        }
        s
    }
}

impl ExternalKey for String {
    open spec fn spec_key(&self) -> Seq<char> {
        self@
    }

    fn external_key(&self) -> (s: String) {
        self.clone()
    }
}

impl ExternalKey for str {
    open spec fn spec_key(&self) -> Seq<char> {
        self@
    }

    fn external_key(&self) -> (s: String) {
        self.to_owned()
    }
}

impl ExternalKey for u8 {
    open spec fn spec_key(&self) -> Seq<char> {
        spec_decimal(*self as int)
    }

    fn external_key(&self) -> (s: String) {
        u128_to_decimal(*self as u128)
    }
}

impl ExternalKey for u16 {
    open spec fn spec_key(&self) -> Seq<char> {
        spec_decimal(*self as int)
    }

    fn external_key(&self) -> (s: String) {
        u128_to_decimal(*self as u128)
    }
}

impl ExternalKey for u32 {
    open spec fn spec_key(&self) -> Seq<char> {
        spec_decimal(*self as int)
    }

    fn external_key(&self) -> (s: String) {
        u128_to_decimal(*self as u128)
    }
}

impl ExternalKey for u64 {
    open spec fn spec_key(&self) -> Seq<char> {
        spec_decimal(*self as int)
    }

    fn external_key(&self) -> (s: String) {
        u128_to_decimal(*self as u128)
    }
}

impl ExternalKey for u128 {
    open spec fn spec_key(&self) -> Seq<char> {
        spec_decimal(*self as int)
    }

    fn external_key(&self) -> (s: String) {
        u128_to_decimal(*self)
    }
}

impl ExternalKey for usize {
    open spec fn spec_key(&self) -> Seq<char> {
        spec_decimal(*self as int)
    }

    fn external_key(&self) -> (s: String) {
        u128_to_decimal(*self as u128)
    }
}

impl ExternalKey for i8 {
    open spec fn spec_key(&self) -> Seq<char> {
        spec_decimal(*self as int)
    }

    fn external_key(&self) -> (s: String) {
        i128_to_decimal(*self as i128)
    }
}

impl ExternalKey for i16 {
    open spec fn spec_key(&self) -> Seq<char> {
        spec_decimal(*self as int)
    }

    fn external_key(&self) -> (s: String) {
        i128_to_decimal(*self as i128)
    }
}

impl ExternalKey for i32 {
    open spec fn spec_key(&self) -> Seq<char> {
        spec_decimal(*self as int)
    }

    fn external_key(&self) -> (s: String) {
        i128_to_decimal(*self as i128)
    }
}

impl ExternalKey for i64 {
    open spec fn spec_key(&self) -> Seq<char> {
        spec_decimal(*self as int)
    }

    fn external_key(&self) -> (s: String) {
        i128_to_decimal(*self as i128)
    }
}

impl ExternalKey for i128 {
    open spec fn spec_key(&self) -> Seq<char> {
        spec_decimal(*self as int)
    }

    fn external_key(&self) -> (s: String) {
        i128_to_decimal(*self)
    }
}

impl ExternalKey for isize {
    open spec fn spec_key(&self) -> Seq<char> {
        spec_decimal(*self as int)
    }

    fn external_key(&self) -> (s: String) {
        i128_to_decimal(*self as i128)
    }
}

} // verus!
