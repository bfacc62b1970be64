use vstd::arithmetic::div_mod::*;
use vstd::arithmetic::power::*;
use vstd::prelude::*;
use vstd::string::*;

use crate::random::{seeded_byte, small_rng_byte};

verus! {

/// The mode for bit changing: how one channel value is combined with one parameter.
#[derive(Debug, Clone, Copy, PartialEq, Eq, Structural)]
pub enum ChangeMode {
    /// Shifts bits to the left.
    ShiftLeft,
    /// Shifts bits to the right.
    ShiftRight,
    /// Does a NOT operation on the bits.
    Not,
    /// Multiplies the bits.
    Multiply,
    /// Uses the square root of the bits.
    Sqrt,
    /// Does an XOR operation on the bits.
    Xor,
    /// Does an OR operation on the bits.
    Or,
    /// Does an AND operation on the bits.
    And,
    /// Raises the bits to the power of the other provided value.
    Exponent,
    /// Adds a random value to the bits, using the other value as a seed.
    RandomAdd,
    /// Multiplies the bits by a random value, using the other value as a seed.
    RandomMul,
}

/// The largest `r` with `r * r <= v`.
pub open spec fn floor_sqrt(v: nat) -> nat
    decreases v,
{
    if v == 0 {
        0
    } else {
        let r = floor_sqrt((v - 1) as nat);
        if (r + 1) * (r + 1) <= v {
            r + 1
        } else {
            r
        }
    }
}

/// The byte that a freshly seeded generator draws for parameter `other`.
pub open spec fn random_byte(other: u32) -> u8 {
    small_rng_byte(other as u64, usize::BITS)
}

/// The mode whose name is `name`, if any.
pub open spec fn mode_named(name: Seq<char>) -> Option<ChangeMode> {
    if name == ChangeMode::ShiftLeft.spec_name() {
        Some(ChangeMode::ShiftLeft)
    } else if name == ChangeMode::ShiftRight.spec_name() {
        Some(ChangeMode::ShiftRight)
    } else if name == ChangeMode::Not.spec_name() {
        Some(ChangeMode::Not)
    } else if name == ChangeMode::Multiply.spec_name() {
        Some(ChangeMode::Multiply)
    } else if name == ChangeMode::Sqrt.spec_name() {
        Some(ChangeMode::Sqrt)
    } else if name == ChangeMode::Xor.spec_name() {
        Some(ChangeMode::Xor)
    } else if name == ChangeMode::Or.spec_name() {
        Some(ChangeMode::Or)
    } else if name == ChangeMode::And.spec_name() {
        Some(ChangeMode::And)
    } else if name == ChangeMode::Exponent.spec_name() {
        Some(ChangeMode::Exponent)
    } else if name == ChangeMode::RandomAdd.spec_name() {
        Some(ChangeMode::RandomAdd)
    } else if name == ChangeMode::RandomMul.spec_name() {
        Some(ChangeMode::RandomMul)
    } else {
        None
    }
}

impl ChangeMode {
    /// The name of the mode: the variant's name as written.
    pub open spec fn spec_name(self) -> Seq<char> {
        match self {
            ChangeMode::ShiftLeft => "ShiftLeft"@,
            ChangeMode::ShiftRight => "ShiftRight"@,
            ChangeMode::Not => "Not"@,
            ChangeMode::Multiply => "Multiply"@,
            ChangeMode::Sqrt => "Sqrt"@,
            ChangeMode::Xor => "Xor"@,
            ChangeMode::Or => "Or"@,
            ChangeMode::And => "And"@,
            ChangeMode::Exponent => "Exponent"@,
            ChangeMode::RandomAdd => "RandomAdd"@,
            ChangeMode::RandomMul => "RandomMul"@,
        }
    }

    /// The name of the mode.
    pub fn name(self) -> (r: String)
        ensures
            r@ == self.spec_name(),
    {
        let s = match self {
            ChangeMode::ShiftLeft => "ShiftLeft",
            ChangeMode::ShiftRight => "ShiftRight",
            ChangeMode::Not => "Not",
            ChangeMode::Multiply => "Multiply",
            ChangeMode::Sqrt => "Sqrt",
            ChangeMode::Xor => "Xor",
            ChangeMode::Or => "Or",
            ChangeMode::And => "And",
            ChangeMode::Exponent => "Exponent",
            ChangeMode::RandomAdd => "RandomAdd",
            ChangeMode::RandomMul => "RandomMul",
        };
        String::from_str(s)
    }

    /// The mode named `name`, if there is one.
    pub fn from_name(name: &String) -> (r: Option<ChangeMode>)
        ensures
            r == mode_named(name@),
    {
        if *name == ChangeMode::ShiftLeft.name() {
            Some(ChangeMode::ShiftLeft)
        } else if *name == ChangeMode::ShiftRight.name() {
            Some(ChangeMode::ShiftRight)
        } else if *name == ChangeMode::Not.name() {
            Some(ChangeMode::Not)
        } else if *name == ChangeMode::Multiply.name() {
            Some(ChangeMode::Multiply)
        } else if *name == ChangeMode::Sqrt.name() {
            Some(ChangeMode::Sqrt)
        } else if *name == ChangeMode::Xor.name() {
            Some(ChangeMode::Xor)
        } else if *name == ChangeMode::Or.name() {
            Some(ChangeMode::Or)
        } else if *name == ChangeMode::And.name() {
            Some(ChangeMode::And)
        } else if *name == ChangeMode::Exponent.name() {
            Some(ChangeMode::Exponent)
        } else if *name == ChangeMode::RandomAdd.name() {
            Some(ChangeMode::RandomAdd)
        } else if *name == ChangeMode::RandomMul.name() {
            Some(ChangeMode::RandomMul)
        } else {
            None
        }
    }

    /// The new channel value for `value` under parameter `other`; every
    /// arithmetic result is taken modulo 256.
    pub open spec fn spec_shift(self, value: u8, other: u32) -> u8 {
        match self {
            ChangeMode::ShiftLeft => value << (other % 8),
            ChangeMode::ShiftRight => value >> (other % 8),
            ChangeMode::Not => !value,
            ChangeMode::Multiply => ((value * other) % 256) as u8,
            ChangeMode::Sqrt => floor_sqrt(value as nat) as u8,
            ChangeMode::Xor => value ^ ((other % 256) as u8),
            ChangeMode::Or => value | ((other % 256) as u8),
            ChangeMode::And => value & ((other % 256) as u8),
            ChangeMode::Exponent => (pow(value as int, other as nat) % 256) as u8,
            ChangeMode::RandomAdd => ((value + random_byte(other)) % 256) as u8,
            ChangeMode::RandomMul => ((value * random_byte(other)) % 256) as u8,
        }
    }

    /// Applies the mode to one channel value.
    pub fn shift(self, value: u8, other: u32) -> (r: u8)
        ensures
            r == self.spec_shift(value, other),
    {
        match self {
            ChangeMode::ShiftLeft => value.wrapping_shl(other),
            ChangeMode::ShiftRight => value.wrapping_shr(other),
            ChangeMode::Not => !value,
            ChangeMode::Multiply => {
                let low = low_byte(other);
                proof {
                    lemma_mul_mod_noop_right(value as int, other as int, 256);
                }
                value.wrapping_mul(low)
            },
            ChangeMode::Sqrt => int_sqrt(value),
            ChangeMode::Xor => value ^ low_byte(other),
            ChangeMode::Or => value | low_byte(other),
            ChangeMode::And => value & low_byte(other),
            ChangeMode::Exponent => wrapping_pow(value, other),
            ChangeMode::RandomAdd => value.wrapping_add(seeded_byte(other as u64)),
            ChangeMode::RandomMul => value.wrapping_mul(seeded_byte(other as u64)),
        }
    }
}

/// Looking a mode up by its own name gives that mode back: no two modes
/// share a name.
pub proof fn lemma_name_round_trip(mode: ChangeMode)
    ensures
        mode_named(mode.spec_name()) == Some(mode),
{
    reveal_strlit("ShiftLeft");
    reveal_strlit("ShiftRight");
    reveal_strlit("Not");
    reveal_strlit("Multiply");
    reveal_strlit("Sqrt");
    reveal_strlit("Xor");
    reveal_strlit("Or");
    reveal_strlit("And");
    reveal_strlit("Exponent");
    reveal_strlit("RandomAdd");
    reveal_strlit("RandomMul");
    assert("ShiftLeft"@.len() == 9 && "ShiftLeft"@[0] == 'S');
    assert("ShiftRight"@.len() == 10 && "ShiftRight"@[0] == 'S');
    assert("Not"@.len() == 3 && "Not"@[0] == 'N');
    assert("Multiply"@.len() == 8 && "Multiply"@[0] == 'M');
    assert("Sqrt"@.len() == 4 && "Sqrt"@[0] == 'S');
    assert("Xor"@.len() == 3 && "Xor"@[0] == 'X');
    assert("Or"@.len() == 2 && "Or"@[0] == 'O');
    assert("And"@.len() == 3 && "And"@[0] == 'A');
    assert("Exponent"@.len() == 8 && "Exponent"@[0] == 'E');
    assert("RandomAdd"@.len() == 9 && "RandomAdd"@[0] == 'R');
    assert("RandomMul"@.len() == 9 && "RandomMul"@[0] == 'R');
    assert("RandomAdd"@[6] == 'A' && "RandomMul"@[6] == 'M');
}

/// The square-root mode gives the integer square root of every byte: the
/// largest `r` with `r * r <= value`, whatever the parameter.
pub proof fn lemma_sqrt_is_floor(value: u8, other: u32)
    ensures
        ({
            let r = ChangeMode::Sqrt.spec_shift(value, other);
            r * r <= value < (r + 1) * (r + 1)
        }),
{
    lemma_floor_sqrt_bounds(value as nat);
    let r = floor_sqrt(value as nat);
    assert(r <= 15) by (nonlinear_arith)
        requires
            r * r <= value as nat,
            value < 256,
    ;
}

/// The shift modes use the shift amount modulo 8: shifting by `other` is
/// shifting by `other % 8`.
pub proof fn lemma_shift_amount_mod_8(value: u8, other: u32)
    ensures
        ChangeMode::ShiftLeft.spec_shift(value, other) == ChangeMode::ShiftLeft.spec_shift(
            value,
            other % 8,
        ),
        ChangeMode::ShiftRight.spec_shift(value, other) == ChangeMode::ShiftRight.spec_shift(
            value,
            other % 8,
        ),
{
    assert(other % 8 == (other % 8) % 8);
}

/// The low eight bits of `x`.
fn low_byte(x: u32) -> (r: u8)
    ensures
        r == x % 256,
{
    (x % 256) as u8
}

/// `floor_sqrt(v)` squared is at most `v`, and its successor squared exceeds `v`.
proof fn lemma_floor_sqrt_bounds(v: nat)
    ensures
        floor_sqrt(v) * floor_sqrt(v) <= v < (floor_sqrt(v) + 1) * (floor_sqrt(v) + 1),
    decreases v,
{
    if v > 0 {
        lemma_floor_sqrt_bounds((v - 1) as nat);
        let r = floor_sqrt((v - 1) as nat);
        assert((r + 1) * (r + 1) <= v || v < (r + 1) * (r + 1));
        if (r + 1) * (r + 1) <= v {
            // v - 1 < (r + 1)^2 <= v, so (r + 1)^2 == v < (r + 2)^2
            assert(v < (r + 2) * (r + 2)) by (nonlinear_arith)
                requires
                    (r + 1) * (r + 1) <= v,
                    v - 1 < (r + 1) * (r + 1),
            ;
            assert(floor_sqrt(v) == r + 1);
            let s = r + 1;
            assert(s * s <= v < (s + 1) * (s + 1));
        } else {
            assert(floor_sqrt(v) == r);
            assert(r * r <= v < (r + 1) * (r + 1));
        }
    } else {
        assert(floor_sqrt(0) == 0);
        assert(0 * 0 <= 0nat < (0 + 1) * (0 + 1)) by (nonlinear_arith);
    }
}

/// An `r` with `r * r <= v < (r + 1) * (r + 1)` is the floor of the square root.
proof fn lemma_floor_sqrt_unique(v: nat, r: nat)
    requires
        r * r <= v < (r + 1) * (r + 1),
    ensures
        r == floor_sqrt(v),
{
    lemma_floor_sqrt_bounds(v);
    let s = floor_sqrt(v);
    if r < s {
        assert((r + 1) * (r + 1) <= s * s) by (nonlinear_arith)
            requires
                r + 1 <= s,
        ;
    } else if s < r {
        assert((s + 1) * (s + 1) <= r * r) by (nonlinear_arith)
            requires
                s + 1 <= r,
        ;
    }
}

/// The integer square root of a byte.
fn int_sqrt(value: u8) -> (r: u8)
    ensures
        r == floor_sqrt(value as nat),
{
    let v: u32 = value as u32;
    let mut r: u32 = 0;
    let mut next_square: u32 = 1;
    while next_square <= v
        invariant
            v == value,
            r * r <= v,
            next_square == (r + 1) * (r + 1),
            r <= 16,
        decreases 16 - r,
    {
        proof {
            assert(r < 16 && (r + 2) * (r + 2) == next_square + 2 * r + 3) by (nonlinear_arith)
                requires
                    (r + 1) * (r + 1) <= v,
                    next_square == (r + 1) * (r + 1),
                    v < 256,
            ;
        }
        next_square = next_square + 2 * r + 3;
        r = r + 1;
    }
    proof {
        lemma_floor_sqrt_unique(v as nat, r as nat);
    }
    r as u8
}

/// One squaring step of exponentiation keeps `acc * base^e` modulo 256.
proof fn lemma_pow_step(acc: int, base: int, e: nat)
    requires
        e > 0,
    ensures
        ({
            let acc2 = if e % 2 == 1 { (acc * base) % 256 } else { acc };
            let base2 = (base * base) % 256;
            (acc2 * pow(base2, e / 2)) % 256 == (acc * pow(base, e)) % 256
        }),
{
    let k = e / 2;
    let b = e % 2;
    let acc2 = if b == 1 { (acc * base) % 256 } else { acc };
    let base2 = (base * base) % 256;
    lemma_pow_adds(base, b, 2 * k);
    assert(e == b + 2 * k);
    lemma_pow_multiplies(base, 2, k);
    lemma_square_is_pow2(base);
    lemma_pow_mod_noop(base * base, k, 256);
    let p = pow(base * base, k);
    lemma_mul_mod_noop_right(acc2, p, 256);
    lemma_mul_mod_noop_right(acc2, pow(base2, k), 256);
    assert((acc2 * pow(base2, k)) % 256 == (acc2 * p) % 256);
    if b == 1 {
        lemma_pow1(base);
        lemma_mul_mod_noop_left(acc * base, p, 256);
        assert((acc * base) * p == acc * (base * p)) by (nonlinear_arith);
    } else {
        lemma_pow0(base);
    }
    assert(pow(base, e) == pow(base, b) * p);
}

/// `value` to the power `exp`, modulo 256, by repeated squaring.
fn wrapping_pow(value: u8, exp: u32) -> (r: u8)
    ensures
        r == (pow(value as int, exp as nat) % 256) as u8,
{
    let mut acc: u8 = 1;
    let mut base: u8 = value;
    let mut e: u32 = exp;
    proof {
        lemma_pow0(value as int);
    }
    while e > 0
        invariant
            (acc * pow(base as int, e as nat)) % 256 == pow(value as int, exp as nat) % 256,
        decreases e,
    {
        proof {
            lemma_pow_step(acc as int, base as int, e as nat);
        }
        if e % 2 == 1 {
            acc = acc.wrapping_mul(base);
        }
        base = base.wrapping_mul(base);
        e = e / 2;
    }
    proof {
        lemma_pow0(base as int);
    }
    acc
}

} // verus!
