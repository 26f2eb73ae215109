//! What the values of constants mean, and how they are written.

use crate::analysis::{eval_binary, int_text, Scene};
use crate::ast::{BinaryOperator, TypeIntrinsicKind, UnaryOperator};
use crate::hir::tree::{Constant, Expression, ExpressionKind, Literal};
use crate::hir::types::{Type, TypeKind};
use crate::text::{decimal_value, hexadecimal, lemma_decimal_value};
use vstd::arithmetic::power2::{lemma2_to64, lemma_pow2_pos, lemma_pow2_unfold, pow2};
use vstd::prelude::*;

verus! {

pub open spec fn magnitude(n: int) -> int {
    if n < 0 {
        -n
    } else {
        n
    }
}

/// `v` is what is left of dividing `l` by `r` if the fraction is dropped: what remains is smaller
/// than `r` and has the sign of `l`.
pub open spec fn divides_to(l: int, r: int, v: int) -> bool {
    let rest = l - v * r;
    &&& magnitude(rest) < magnitude(r)
    &&& rest == 0 || (rest < 0) == (l < 0)
}

pub open spec fn in_range(n: int) -> bool {
    i128::MIN <= n <= i128::MAX
}

/// Whether the bit of the given weight is set.
pub open spec fn bit(n: i128, i: nat) -> bool {
    (n as int / pow2(i) as int) % 2 == 1
}

/// Whether an operator has a value on two integers, apart from its size.
pub open spec fn has_value(operator: BinaryOperator, r: int) -> bool {
    match operator {
        BinaryOperator::Add | BinaryOperator::Sub | BinaryOperator::Mul => true,
        BinaryOperator::BitAnd | BinaryOperator::BitOr | BinaryOperator::BitXor => true,
        BinaryOperator::Div => r != 0,
        BinaryOperator::Shl | BinaryOperator::Shr => 0 <= r < 128,
        _ => false,
    }
}

/// Whether `v` is the value of the operation on `l` and `r`.
pub open spec fn is_value(operator: BinaryOperator, l: i128, r: i128, v: i128) -> bool {
    match operator {
        BinaryOperator::Add => v == l + r,
        BinaryOperator::Sub => v == l - r,
        BinaryOperator::Mul => v == l * r,
        BinaryOperator::Div => r != 0 && divides_to(l as int, r as int, v as int),
        BinaryOperator::Shl => 0 <= r < 128 && (in_range(l * pow2(r as nat)) ==> v == l * pow2(
            r as nat,
        )),
        BinaryOperator::Shr => 0 <= r < 128 && v == l as int / pow2(r as nat) as int,
        BinaryOperator::BitAnd => forall|i: nat|
            i < 128 ==> #[trigger] bit(v, i) == (bit(l, i) && bit(r, i)),
        BinaryOperator::BitOr => forall|i: nat|
            i < 128 ==> #[trigger] bit(v, i) == (bit(l, i) || bit(r, i)),
        BinaryOperator::BitXor => forall|i: nat|
            i < 128 ==> #[trigger] bit(v, i) == (bit(l, i) != bit(r, i)),
        _ => false,
    }
}

/// Dividing by two after dividing by `c` is dividing by twice `c`.
proof fn lemma_halved(x: int, c: int)
    requires
        c > 0,
    ensures
        (x / c) / 2 == x / (2 * c),
{
    let q = x / c;
    let h = q / 2;
    vstd::arithmetic::div_mod::lemma_fundamental_div_mod(x, c);
    vstd::arithmetic::div_mod::lemma_mod_bound(x, c);
    let rest = c * (q % 2) + x % c;
    assert(x == (2 * c) * h + rest && 0 <= rest < 2 * c) by (nonlinear_arith)
        requires
            x == c * q + x % c,
            q == 2 * h + q % 2,
            0 <= q % 2 <= 1,
            0 <= x % c < c,
            rest == c * (q % 2) + x % c,
    ;
    assert((2 * c) * h == h * (2 * c)) by (nonlinear_arith);
    vstd::arithmetic::div_mod::lemma_fundamental_div_mod_converse(x, 2 * c, h, rest);
}

proof fn lemma_shr(x: i128, n: nat)
    requires
        n < 128,
    ensures
        x >> (n as u64) == x as int / pow2(n) as int,
    decreases n,
{
    lemma_pow2_pos(n);
    if n == 0 {
        assert(x >> 0u64 == x) by (bit_vector);
        lemma2_to64();
        assert(pow2(n) == 1);
        vstd::arithmetic::div_mod::lemma_div_by_self(1);
        vstd::arithmetic::div_mod::lemma_div_basics(x as int);
    } else {
        let before = (n - 1) as nat;
        let m = before as u64;
        lemma_shr(x, before);
        lemma_pow2_unfold(n);
        lemma_pow2_pos(before);
        let y = x >> m;
        assert(x >> ((m + 1) as u64) == (x >> m) >> 1u64) by (bit_vector)
            requires
                m < 127,
        ;
        let half = y >> 1u64;
        let low = y & 1;
        assert(half == y >> 1u64 && low == y & 1 ==> y == half * 2 + low && 0 <= low <= 1)
            by (bit_vector);
        assert(half == y as int / 2);
        lemma_halved(x as int, pow2(before) as int);
        assert((m + 1) as u64 == n as u64);
        assert(x >> (n as u64) == half);
        assert(2 * (pow2(before) as int) == pow2(n) as int);
        assert(half == (x as int / pow2(before) as int) / 2);
        assert(half == x as int / pow2(n) as int);
    }
}

proof fn lemma_shl(x: i128, n: nat)
    requires
        n < 128,
        in_range(x * pow2(n)),
    ensures
        x << (n as u64) == x * pow2(n),
    decreases n,
{
    if n == 0 {
        assert(x << 0u64 == x) by (bit_vector);
        lemma2_to64();
    } else {
        let before = (n - 1) as nat;
        let m = before as u64;
        lemma_pow2_unfold(n);
        assert(x * pow2(n) == 2 * (x * pow2(before))) by (nonlinear_arith)
            requires
                pow2(n) == 2 * pow2(before),
        ;
        lemma_shl(x, before);
        let y = x << m;
        assert(x << ((m + 1) as u64) == (x << m) << 1u64) by (bit_vector)
            requires
                m < 127,
        ;
        assert(y << 1u64 == y * 2) by (bit_vector)
            requires
                -0x4000_0000_0000_0000_0000_0000_0000_0000i128 <= y <= 0x3fff_ffff_ffff_ffff_ffff_ffff_ffff_ffffi128,
        ;
    }
}

/// A bit is what a shift brings to the end.
proof fn lemma_bit(x: i128, i: nat)
    requires
        i < 128,
    ensures
        bit(x, i) == ((x >> (i as u64)) & 1 == 1),
{
    lemma_shr(x, i);
    let y = x >> (i as u64);
    let half = y >> 1u64;
    let low = y & 1;
    assert(half == y >> 1u64 && low == y & 1 ==> y == half * 2 + low && 0 <= low <= 1)
        by (bit_vector);
}

proof fn lemma_bits(l: i128, r: i128, i: nat)
    requires
        i < 128,
    ensures
        bit(l & r, i) == (bit(l, i) && bit(r, i)),
        bit(l | r, i) == (bit(l, i) || bit(r, i)),
        bit(l ^ r, i) == (bit(l, i) != bit(r, i)),
{
    lemma_bit(l, i);
    lemma_bit(r, i);
    lemma_bit(l & r, i);
    lemma_bit(l | r, i);
    lemma_bit(l ^ r, i);
    let k = i as u64;
    assert((((l & r) >> k) & 1 == 1) == ((l >> k) & 1 == 1 && (r >> k) & 1 == 1)) by (bit_vector)
        requires
            k < 128,
    ;
    assert((((l | r) >> k) & 1 == 1) == ((l >> k) & 1 == 1 || (r >> k) & 1 == 1)) by (bit_vector)
        requires
            k < 128,
    ;
    assert((((l ^ r) >> k) & 1 == 1) == (((l >> k) & 1 == 1) != ((r >> k) & 1 == 1)))
        by (bit_vector)
        requires
            k < 128,
    ;
}

proof fn lemma_quotient(l: int, r: int)
    requires
        r != 0,
    ensures
        divides_to(l, r, crate::analysis::quotient(l, r)),
        magnitude(crate::analysis::quotient(l, r)) <= magnitude(l),
{
    let a = magnitude(l);
    let b = magnitude(r);
    let q = a / b;
    vstd::arithmetic::div_mod::lemma_fundamental_div_mod(a, b);
    vstd::arithmetic::div_mod::lemma_mod_bound(a, b);
    assert(0 <= q <= a) by {
        vstd::arithmetic::div_mod::lemma_div_is_ordered_by_denominator(a, 1, b);
        vstd::arithmetic::div_mod::lemma_div_pos_is_pos(a, b);
    }
    assert(b * q == q * b) by (nonlinear_arith);
    assert((-q) * (-b) == q * b) by (nonlinear_arith);
    assert((-q) * b == -(q * b)) by (nonlinear_arith);
    assert(q * (-b) == -(q * b)) by (nonlinear_arith);
}

/// The value told for an operation on integers is that of the operation, with the operands in
/// their order; and it is told wherever there is one that fits.
pub proof fn lemma_operation_value(operator: BinaryOperator, l: i128, r: i128)
    ensures
        eval_binary(operator, l, r) matches Some(v) ==> has_value(operator, r as int) && is_value(
            operator,
            l,
            r,
            v,
        ),
        !has_value(operator, r as int) ==> eval_binary(operator, l, r) is None,
        operator is Add ==> (eval_binary(operator, l, r) is Some == in_range(l + r)),
        operator is Sub ==> (eval_binary(operator, l, r) is Some == in_range(l - r)),
        operator is Mul ==> (eval_binary(operator, l, r) is Some == in_range(l * r)),
        operator is Div && r != 0 && !(l == i128::MIN && r == -1) ==> eval_binary(operator, l, r)
            is Some,
        (operator is Shl || operator is Shr || operator is BitAnd || operator is BitOr || operator
            is BitXor) && has_value(operator, r as int) ==> eval_binary(operator, l, r) is Some,
{
    match operator {
        BinaryOperator::Div => {
            if r != 0 {
                lemma_quotient(l as int, r as int);
                let q = crate::analysis::quotient(l as int, r as int);
                if q > i128::MAX {
                    assert(l == i128::MIN);
                    if r != -1 {
                        assert(false) by (nonlinear_arith)
                            requires
                                q == 0x8000_0000_0000_0000_0000_0000_0000_0000int,
                                l == -0x8000_0000_0000_0000_0000_0000_0000_0000int,
                                r != -1,
                                r != 0,
                                divides_to(l as int, r as int, q),
                        {
                        }
                    }
                }
            }
        },
        BinaryOperator::Shl => {
            if 0 <= r < 128 && in_range(l * pow2(r as nat)) {
                lemma_shl(l, r as nat);
            }
        },
        BinaryOperator::Shr => {
            if 0 <= r < 128 {
                lemma_shr(l, r as nat);
            }
        },
        BinaryOperator::BitAnd | BinaryOperator::BitOr | BinaryOperator::BitXor => {
            assert forall|i: nat| i < 128 implies {
                &&& #[trigger] bit(l & r, i) == (bit(l, i) && bit(r, i))
                &&& bit(l | r, i) == (bit(l, i) || bit(r, i))
                &&& bit(l ^ r, i) == (bit(l, i) != bit(r, i))
            } by {
                lemma_bits(l, r, i);
            }
            assert forall|i: nat| i < 128 implies #[trigger] bit(l | r, i) == (bit(l, i) || bit(
                r,
                i,
            )) by {
                lemma_bits(l, r, i);
            }
            assert forall|i: nat| i < 128 implies #[trigger] bit(l ^ r, i) == (bit(l, i) != bit(
                r,
                i,
            )) by {
                lemma_bits(l, r, i);
            }
        },
        _ => {},
    }
}

/// The value told for `left op right` is that of the operation on the value of `left` and that of
/// `right`, in that order: a difference is left minus right, a quotient is left by right without
/// its fraction, and a shift multiplies or divides left by a power of two. Without a value of both
/// there is none.
pub proof fn lemma_binary_constant<'h>(
    scene: Scene<'h>,
    expr: Expression<'h>,
    operator: BinaryOperator,
    left: Expression<'h>,
    right: Expression<'h>,
)
    requires
        expr.kind == (ExpressionKind::Binary { operator, left: &left, right: &right }),
    ensures
        match (scene.eval_const_int(left), scene.eval_const_int(right)) {
            (Some(l), Some(r)) => {
                &&& scene.eval_const_int(expr) matches Some(v) ==> is_value(operator, l, r, v)
                &&& !has_value(operator, r as int) ==> scene.eval_const_int(expr) is None
                &&& operator is Add && in_range(l + r) ==> scene.eval_const_int(expr) is Some
                &&& operator is Sub && in_range(l - r) ==> scene.eval_const_int(expr) is Some
                &&& operator is Mul && in_range(l * r) ==> scene.eval_const_int(expr) is Some
                &&& operator is Div && r != 0 && !(l == i128::MIN && r == -1)
                    ==> scene.eval_const_int(expr) is Some
                &&& (operator is Shl || operator is Shr) && 0 <= r < 128
                    ==> scene.eval_const_int(expr) is Some
                &&& operator is BitAnd || operator is BitOr || operator is BitXor
                    ==> scene.eval_const_int(expr) is Some
            },
            _ => scene.eval_const_int(expr) is None,
        },
{
    if let (Some(l), Some(r)) = (scene.eval_const_int(left), scene.eval_const_int(right)) {
        lemma_operation_value(operator, l, r);
    }
}

/// A literal is worth itself, `-` and `!` turn the sign and all bits, a cast and a name stand for
/// the value of what they are of, and a question about a type for its size or alignment.
pub proof fn lemma_simple_constants<'h>(scene: Scene<'h>, expr: Expression<'h>)
    ensures
        match expr.kind {
            ExpressionKind::Literal(Literal::Int(value)) => scene.eval_const_int(expr) == Some(
                value as i128,
            ),
            ExpressionKind::Unary { operator: UnaryOperator::Neg, expr: inner } => match (
                scene.eval_const_int(*inner),
                scene.eval_const_int(expr),
            ) {
                (Some(x), Some(v)) => v + x == 0 || v == x == i128::MIN,
                (None, None) => true,
                _ => false,
            },
            ExpressionKind::Unary { operator: UnaryOperator::Not, expr: inner } => match (
                scene.eval_const_int(*inner),
                scene.eval_const_int(expr),
            ) {
                (Some(x), Some(v)) => v + x == -1,
                (None, None) => true,
                _ => false,
            },
            ExpressionKind::Cast { from, .. } => scene.eval_const_int(expr)
                == scene.eval_const_int(*from),
            ExpressionKind::Const(constant) => scene.eval_const_int(expr) == scene.eval_const_int(
                *constant.value,
            ),
            ExpressionKind::TypeIntrinsic { kind: TypeIntrinsicKind::SizeOf, typ } => match (
                scene.layout(typ),
                scene.eval_const_int(expr),
            ) {
                (Some((size, align)), Some(v)) => v == size,
                (None, None) => true,
                _ => false,
            },
            ExpressionKind::TypeIntrinsic { kind: TypeIntrinsicKind::AlignOf, typ } => match (
                scene.layout(typ),
                scene.eval_const_int(expr),
            ) {
                (Some((size, align)), Some(v)) => v == align,
                (None, None) => true,
                _ => false,
            },
            _ => true,
        },
{
}

/// How many values a type of integers has.
pub open spec fn value_count(kind: TypeKind) -> Option<int> {
    match kind {
        TypeKind::I8 | TypeKind::U8 => Some(pow2(8) as int),
        TypeKind::I16 | TypeKind::U16 => Some(pow2(16) as int),
        TypeKind::I32 | TypeKind::U32 => Some(pow2(32) as int),
        TypeKind::I64 | TypeKind::U64 | TypeKind::Iptr | TypeKind::Uptr => Some(pow2(64) as int),
        _ => None,
    }
}

pub open spec fn is_unsigned(kind: TypeKind) -> bool {
    kind is U8 || kind is U16 || kind is U32 || kind is U64 || kind is Uptr
}

/// The text of an integer of a type reads back as that integer: the digits alone if it is not
/// negative, and else a sign, the digits and in brackets its bits.
pub proof fn lemma_integer_text(value: int, typ: Type, count: int)
    requires
        value_count(typ.kind()) == Some(count),
        if is_unsigned(typ.kind()) {
            0 <= value < count
        } else {
            -count <= 2 * value < count
        },
    ensures
        ({
            let text = int_text(value, typ);
            if value >= 0 {
                decimal_value(text) == value
            } else {
                exists|digits: Seq<char>|
                    text == seq!['-'] + digits + " (0x"@ + hexadecimal((value + count) as nat)
                        + ")"@ && #[trigger] decimal_value(digits) == -value
            }
        }),
{
    lemma2_to64();
    let text = int_text(value, typ);
    if value >= 0 {
        vstd::arithmetic::div_mod::lemma_small_mod(value as nat, count as nat);
        lemma_decimal_value(value as nat);
    } else {
        let bits = value + count;
        assert(value % count == bits) by {
            vstd::arithmetic::div_mod::lemma_mod_add_multiples_vanish(value, count);
            vstd::arithmetic::div_mod::lemma_small_mod(bits as nat, count as nat);
        }
        let digits = crate::text::decimal((-value) as nat);
        lemma_decimal_value((-value) as nat);
        assert(text == seq!['-'] + digits + " (0x"@ + hexadecimal(bits as nat) + ")"@);
    }
}

/// A constant that is an integer is shown by the text of the value of its initialiser, at its type.
pub proof fn lemma_shown_constant<'h>(scene: Scene<'h>, constant: Constant<'h>, value: i128)
    requires
        scene.eval_const_int(*constant.value) == Some(value),
    ensures
        scene.const_value(constant) == Some(int_text(value as int, constant.typ)),
{
    lemma_simple_constants(scene, *constant.value);
}

/// What is shown of a constant that is no integer: the word for a truth value, a character and a
/// text in their quotes.
pub proof fn lemma_shown_literals<'h>(scene: Scene<'h>, constant: Constant<'h>)
    ensures
        match constant.value.kind {
            ExpressionKind::Literal(Literal::Bool(value)) => scene.const_value(constant) == Some(
                if value {
                    "true"@
                } else {
                    "false"@
                },
            ),
            ExpressionKind::Literal(Literal::Char(value)) => scene.const_value(constant) == Some(
                seq!['\''].push(value).push('\''),
            ),
            ExpressionKind::Literal(Literal::Str(symbol)) => scene.const_value(constant) == Some(
                "\""@ + crate::hir::symbols::name_of(scene.names, symbol) + "\""@,
            ),
            ExpressionKind::Literal(Literal::Float(bits)) => match scene.const_value(constant) {
                Some(text) => exists|i: int|
                    0 <= i < scene.floats.len() && #[trigger] scene.floats[i] == (bits, text),
                None => forall|i: int|
                    0 <= i < scene.floats.len() ==> (#[trigger] scene.floats[i]).0 != bits,
            },
            _ => true,
        },
{
    match constant.value.kind {
        ExpressionKind::Literal(Literal::Float(bits)) => {
            lemma_float_text(scene.floats, bits, 0);
        },
        ExpressionKind::Literal(Literal::Char(value)) => {
            assert(seq!['\''].push(value).push('\'') =~= seq!['\'', value, '\'']);
        },
        _ => {},
    }
}

proof fn lemma_float_text(floats: Seq<(u64, Seq<char>)>, bits: u64, at: nat)
    ensures
        match crate::analysis::float_text(floats, bits, at) {
            Some(text) => exists|i: int|
                at <= i < floats.len() && #[trigger] floats[i] == (bits, text),
            None => forall|i: int| at <= i < floats.len() ==> (#[trigger] floats[i]).0 != bits,
        },
    decreases floats.len() - at,
{
    if at < floats.len() && floats[at as int].0 != bits {
        lemma_float_text(floats, bits, at + 1);
    }
}

} // verus!
