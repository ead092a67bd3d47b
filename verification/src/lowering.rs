//! How single constructs are lowered: which instruction an operator becomes,
//! how a literal is materialised, what a `return` emits, how a `for` loop
//! iterates and how printed values are formatted.

use vstd::prelude::*;
use crate::ast::{Type, TypeV, Expr, Literal, BinOp, UnaryOp};
use crate::error::CodegenError;
use crate::state::CodegenState;
use crate::text::{push_char, spec_decimal};

verus! {

/// What kind of LLVM value an operand turned out to be.
#[derive(Clone, Copy, PartialEq, Eq, Structural, Debug)]
pub enum ValueKind {
    Int,
    Float,
    Pointer,
    Aggregate,
}

/// A signed integer comparison.
#[derive(Clone, Copy, PartialEq, Eq, Structural, Debug)]
pub enum IntPredicate {
    Eq,
    Ne,
    Slt,
    Sle,
    Sgt,
    Sge,
    /// Unsigned greater-or-equal.
    Uge,
}

/// An ordered floating-point comparison.
#[derive(Clone, Copy, PartialEq, Eq, Structural, Debug)]
pub enum FloatPredicate {
    Oeq,
    One,
    Olt,
    Ole,
    Ogt,
    Oge,
}

/// The instruction a binary operator becomes.
#[derive(Clone, Copy, PartialEq, Eq, Structural, Debug)]
pub enum BinaryLowering {
    IntAdd,
    IntSub,
    IntMul,
    IntSignedDiv,
    IntSignedRem,
    IntCompare(IntPredicate),
    IntAnd,
    IntOr,
    FloatAdd,
    FloatSub,
    FloatMul,
    FloatDiv,
    FloatCompare(FloatPredicate),
    /// Concatenation of two strings through the standard library.
    StringConcat,
}

/// The instruction an integer operator becomes.
pub open spec fn spec_int_lowering(op: BinOp) -> BinaryLowering {
    match op {
        BinOp::Add => BinaryLowering::IntAdd,
        BinOp::Sub => BinaryLowering::IntSub,
        BinOp::Mul => BinaryLowering::IntMul,
        BinOp::Div => BinaryLowering::IntSignedDiv,
        BinOp::Mod => BinaryLowering::IntSignedRem,
        BinOp::Eq => BinaryLowering::IntCompare(IntPredicate::Eq),
        BinOp::NotEq => BinaryLowering::IntCompare(IntPredicate::Ne),
        BinOp::Lt => BinaryLowering::IntCompare(IntPredicate::Slt),
        BinOp::LtEq => BinaryLowering::IntCompare(IntPredicate::Sle),
        BinOp::Gt => BinaryLowering::IntCompare(IntPredicate::Sgt),
        BinOp::GtEq => BinaryLowering::IntCompare(IntPredicate::Sge),
        BinOp::And => BinaryLowering::IntAnd,
        BinOp::Or => BinaryLowering::IntOr,
    }
}

/// The instruction a floating-point operator becomes; remainder and the
/// logical operators have none.
pub open spec fn spec_float_lowering(op: BinOp) -> Option<BinaryLowering> {
    match op {
        BinOp::Add => Some(BinaryLowering::FloatAdd),
        BinOp::Sub => Some(BinaryLowering::FloatSub),
        BinOp::Mul => Some(BinaryLowering::FloatMul),
        BinOp::Div => Some(BinaryLowering::FloatDiv),
        BinOp::Eq => Some(BinaryLowering::FloatCompare(FloatPredicate::Oeq)),
        BinOp::NotEq => Some(BinaryLowering::FloatCompare(FloatPredicate::One)),
        BinOp::Lt => Some(BinaryLowering::FloatCompare(FloatPredicate::Olt)),
        BinOp::LtEq => Some(BinaryLowering::FloatCompare(FloatPredicate::Ole)),
        BinOp::Gt => Some(BinaryLowering::FloatCompare(FloatPredicate::Ogt)),
        BinOp::GtEq => Some(BinaryLowering::FloatCompare(FloatPredicate::Oge)),
        _ => None,
    }
}

/// How `l op r` is lowered: integer operands use integer instructions,
/// floating-point operands use floating-point ones, two pointers joined by
/// `+` are concatenated strings; nothing else is accepted.
pub open spec fn spec_binary_lowering(op: BinOp, l: ValueKind, r: ValueKind) -> Option<BinaryLowering> {
    if l == ValueKind::Int && r == ValueKind::Int {
        Some(spec_int_lowering(op))
    } else if l == ValueKind::Float && r == ValueKind::Float {
        spec_float_lowering(op)
    } else if op == BinOp::Add && l == ValueKind::Pointer && r == ValueKind::Pointer {
        Some(BinaryLowering::StringConcat)
    } else {
        None
    }
}

/// The error raised when `l op r` cannot be lowered.
pub open spec fn spec_binary_error(l: ValueKind, r: ValueKind) -> Seq<char> {
    if l == ValueKind::Float && r == ValueKind::Float {
        "Invalid float operation"@
    } else {
        "Type mismatch in binary operation"@
    }
}

/// Chooses the instruction for `l op r`.
pub fn select_binary(op: BinOp, l: ValueKind, r: ValueKind) -> (res: Result<BinaryLowering, CodegenError>)
    ensures
        res is Ok <==> spec_binary_lowering(op, l, r) is Some,
        res matches Ok(b) ==> spec_binary_lowering(op, l, r) == Some(b),
        res matches Err(e) ==> e.message@ == spec_binary_error(l, r),
{
    if l == ValueKind::Int && r == ValueKind::Int {
        let b = match op {
            BinOp::Add => BinaryLowering::IntAdd,
            BinOp::Sub => BinaryLowering::IntSub,
            BinOp::Mul => BinaryLowering::IntMul,
            BinOp::Div => BinaryLowering::IntSignedDiv,
            BinOp::Mod => BinaryLowering::IntSignedRem,
            BinOp::Eq => BinaryLowering::IntCompare(IntPredicate::Eq),
            BinOp::NotEq => BinaryLowering::IntCompare(IntPredicate::Ne),
            BinOp::Lt => BinaryLowering::IntCompare(IntPredicate::Slt),
            BinOp::LtEq => BinaryLowering::IntCompare(IntPredicate::Sle),
            BinOp::Gt => BinaryLowering::IntCompare(IntPredicate::Sgt),
            BinOp::GtEq => BinaryLowering::IntCompare(IntPredicate::Sge),
            BinOp::And => BinaryLowering::IntAnd,
            BinOp::Or => BinaryLowering::IntOr,
        };
        return Ok(b);
    }
    if l == ValueKind::Float && r == ValueKind::Float {
        return match op {
            BinOp::Add => Ok(BinaryLowering::FloatAdd),
            BinOp::Sub => Ok(BinaryLowering::FloatSub),
            BinOp::Mul => Ok(BinaryLowering::FloatMul),
            BinOp::Div => Ok(BinaryLowering::FloatDiv),
            BinOp::Eq => Ok(BinaryLowering::FloatCompare(FloatPredicate::Oeq)),
            BinOp::NotEq => Ok(BinaryLowering::FloatCompare(FloatPredicate::One)),
            BinOp::Lt => Ok(BinaryLowering::FloatCompare(FloatPredicate::Olt)),
            BinOp::LtEq => Ok(BinaryLowering::FloatCompare(FloatPredicate::Ole)),
            BinOp::Gt => Ok(BinaryLowering::FloatCompare(FloatPredicate::Ogt)),
            BinOp::GtEq => Ok(BinaryLowering::FloatCompare(FloatPredicate::Oge)),
            _ => Err(CodegenError::new(String::from_str("Invalid float operation"))),
        };
    }
    if op == BinOp::Add && l == ValueKind::Pointer && r == ValueKind::Pointer {
        return Ok(BinaryLowering::StringConcat);
    }
    Err(CodegenError::new(String::from_str("Type mismatch in binary operation")))
}

/// The instruction a unary operator becomes.
#[derive(Clone, Copy, PartialEq, Eq, Structural, Debug)]
pub enum UnaryLowering {
    IntNeg,
    FloatNeg,
    /// Bitwise complement of an integer.
    Not,
}

/// How a unary operator applied to a value of this kind is lowered.
pub open spec fn spec_unary_lowering(op: UnaryOp, k: ValueKind) -> Option<UnaryLowering> {
    match op {
        UnaryOp::Neg => if k == ValueKind::Int {
            Some(UnaryLowering::IntNeg)
        } else if k == ValueKind::Float {
            Some(UnaryLowering::FloatNeg)
        } else {
            None
        },
        UnaryOp::Not => Some(UnaryLowering::Not),
    }
}

/// Chooses the instruction for a unary operator; `!` applies to integers
/// only.
pub fn select_unary(op: UnaryOp, k: ValueKind) -> (res: Result<UnaryLowering, CodegenError>)
    requires
        op == UnaryOp::Not ==> k == ValueKind::Int,
    ensures
        res is Ok <==> spec_unary_lowering(op, k) is Some,
        res matches Ok(u) ==> spec_unary_lowering(op, k) == Some(u),
        res matches Err(e) ==> e.message@ == "Cannot negate non-numeric value"@,
{
    match op {
        UnaryOp::Neg => if k == ValueKind::Int {
            Ok(UnaryLowering::IntNeg)
        } else if k == ValueKind::Float {
            Ok(UnaryLowering::FloatNeg)
        } else {
            Err(CodegenError::new(String::from_str("Cannot negate non-numeric value")))
        },
        UnaryOp::Not => Ok(UnaryLowering::Not),
    }
}

/// How a literal is materialised.
pub enum LiteralLowering {
    /// An integer constant of `bits` bits whose bit pattern is `value`.
    ConstInt { bits: u32, value: u64 },
    /// A `double` constant with these IEEE-754 bits.
    ConstFloat { bits: u64 },
    /// A constant global holding these characters and a terminating NUL.
    GlobalString { name: String, contents: String },
}

/// The prefix of the names of string-literal globals.
pub open spec fn str_prefix() -> Seq<char> {
    "str."@
}

/// Whether `r` materialises `lit`, given `n` string constants named before.
pub open spec fn spec_lowers_to(lit: Literal, r: LiteralLowering, n: nat) -> bool {
    match lit {
        Literal::String(s) => (r matches LiteralLowering::GlobalString { name, contents } && name@ == str_prefix() + spec_decimal(n) && contents@ == s@),
        Literal::Integer(v) => (r matches LiteralLowering::ConstInt { bits, value } && bits == 64 && value == v as u64),
        Literal::Float(f) => (r matches LiteralLowering::ConstFloat { bits } && bits == f),
        Literal::Boolean(b) => (r matches LiteralLowering::ConstInt { bits, value } && bits == 1 && value == (if b { 1u64 } else { 0u64 })),
        Literal::Char(c) => (r matches LiteralLowering::ConstInt { bits, value } && bits == 8 && value == c as u32 as u64),
        Literal::NoneValue => (r matches LiteralLowering::ConstInt { bits, value } && bits == 8 && value == 0),
    }
}

impl CodegenState {
    /// Materialises a literal: integers are `i64`, booleans `i1`, characters
    /// and `None` `i8`, floats `double`; a string becomes a fresh constant
    /// global `str.N`.
    pub fn lower_literal(&mut self, lit: &Literal) -> (r: LiteralLowering)
        requires
            old(self).wf(),
            old(self).strings_named() < u32::MAX,
        ensures
            final(self).wf(),
            final(self).vars() == old(self).vars(),
            final(self).fns() == old(self).fns(),
            final(self).class_map() == old(self).class_map(),
            final(self).function() == old(self).function(),
            final(self).return_type() == old(self).return_type(),
            final(self).lambdas_named() == old(self).lambdas_named(),
            final(self).strings_named() == old(self).strings_named() + (if lit is String { 1int } else { 0int }),
            spec_lowers_to(*lit, r, old(self).strings_named()),
    {
        match lit {
            Literal::Integer(n) => LiteralLowering::ConstInt { bits: 64, value: *n as u64 },
            Literal::Float(f) => LiteralLowering::ConstFloat { bits: *f },
            Literal::Boolean(b) => LiteralLowering::ConstInt { bits: 1, value: if *b { 1 } else { 0 } },
            Literal::String(s) => {
                let name = self.fresh_global_name("str.");
                LiteralLowering::GlobalString { name, contents: s.clone() }
            },
            Literal::Char(c) => LiteralLowering::ConstInt { bits: 8, value: *c as u32 as u64 },
            Literal::NoneValue => LiteralLowering::ConstInt { bits: 8, value: 0 },
        }
    }
}

/// What a `return` statement emits.
#[derive(Clone, Copy, PartialEq, Eq, Structural, Debug)]
pub enum ReturnPlan {
    /// `ret i32 0`, the entry point's success.
    MainZero,
    /// `ret i8 0`: returning `None` from a function whose result is a task
    /// of `None`.
    TaskNone,
    /// `ret void`.
    Void,
    /// Evaluate the returned expression and return its value.
    Value,
}

/// Whether `e` is the literal `None`.
pub open spec fn is_none_literal(e: Expr) -> bool {
    e matches Expr::Literal(Literal::NoneValue)
}

/// Whether `t` is a task of `None`.
pub open spec fn is_task_of_none(t: Option<TypeV>) -> bool {
    t matches Some(TypeV::Task(inner)) && *inner == TypeV::NoneType
}

/// What `return value` emits inside the entry point (`in_main`) or inside a
/// function returning `ret`.
pub open spec fn spec_return_plan(in_main: bool, ret: Option<TypeV>, value: Option<Expr>) -> ReturnPlan {
    match value {
        Some(e) => if is_none_literal(e) {
            if in_main {
                ReturnPlan::MainZero
            } else if is_task_of_none(ret) {
                ReturnPlan::TaskNone
            } else {
                ReturnPlan::Void
            }
        } else {
            ReturnPlan::Value
        },
        None => if in_main {
            ReturnPlan::MainZero
        } else {
            ReturnPlan::Void
        },
    }
}

fn task_of_none(t: &Option<Type>) -> (r: bool)
    ensures
        r == is_task_of_none(crate::state::opt_type_view(*t)),
{
    match t {
        Some(Type::Task(inner)) => crate::layout::is_none_type(inner),
        _ => false,
    }
}

impl CodegenState {
    /// Decides what `return value` emits in the function being emitted.
    pub fn plan_return(&self, value: &Option<Expr>) -> (r: ReturnPlan)
        ensures
            r == spec_return_plan(self.function() == Some(crate::layout::main_name()), self.return_type(), *value),
    {
        let in_main = self.in_main();
        match value {
            Some(Expr::Literal(Literal::NoneValue)) => {
                if in_main {
                    ReturnPlan::MainZero
                } else if task_of_none(self.current_return_type()) {
                    ReturnPlan::TaskNone
                } else {
                    ReturnPlan::Void
                }
            },
            Some(_) => ReturnPlan::Value,
            None => if in_main {
                ReturnPlan::MainZero
            } else {
                ReturnPlan::Void
            },
        }
    }
}

/// What ends a body whose last block has no terminator.
#[derive(Clone, Copy, PartialEq, Eq, Structural, Debug)]
pub enum FallOffPlan {
    /// `ret i32 0`.
    MainZero,
    /// `ret void`.
    Void,
    /// `unreachable`: a value was owed and none was returned.
    Unreachable,
}

/// What ends a top-level function that falls off its end: the entry point
/// returns 0, a function returning `None` returns nothing, any other is
/// unreachable there. Methods are never treated as the entry point.
pub open spec fn spec_fall_off(is_entry: bool, ret: TypeV) -> FallOffPlan {
    if is_entry {
        FallOffPlan::MainZero
    } else if ret == TypeV::NoneType {
        FallOffPlan::Void
    } else {
        FallOffPlan::Unreachable
    }
}

/// What ends the function `symbol` (`is_method` for a method) returning
/// `ret` when its body falls off its end.
pub fn plan_fall_off(symbol: &str, is_method: bool, ret: &Type) -> (r: FallOffPlan)
    ensures
        r == spec_fall_off(!is_method && symbol@ == crate::layout::main_name(), ret@),
{
    if !is_method && crate::layout::is_main(symbol) {
        FallOffPlan::MainZero
    } else {
        match ret {
            Type::NoneType => FallOffPlan::Void,
            _ => FallOffPlan::Unreachable,
        }
    }
}

/// How a `for` loop iterates: the loop variable's type, where it starts
/// (`None`: at 0), where it stops (`None`: at 0) and the comparison that
/// keeps it going.
pub struct ForPlan<'a> {
    pub var_type: Type,
    pub start: Option<&'a Expr>,
    pub end: Option<&'a Expr>,
    pub keep_going: IntPredicate,
}

/// The optional bound of a range, as an expression.
pub open spec fn bound(b: Option<Box<Expr>>) -> Option<Expr> {
    match b {
        Some(e) => Some(*e),
        None => None,
    }
}

/// The value of an optional reference to an expression.
pub open spec fn opt_expr(b: Option<&Expr>) -> Option<Expr> {
    match b {
        Some(e) => Some(*e),
        None => None,
    }
}

/// Plans `for var: var_type in iterable`: the variable is an integer unless
/// typed; over a range it runs from the range's start to its end, inclusive
/// or not; over any other expression `n` it runs from 0 while below `n`.
pub fn plan_for<'a>(var_type: &Option<Type>, iterable: &'a Expr) -> (p: ForPlan<'a>)
    ensures
        p.var_type@ == (match *var_type {
            Some(t) => t@,
            None => TypeV::Integer,
        }),
        match *iterable {
            Expr::Range { start, end, inclusive } => opt_expr(p.start) == bound(start) && opt_expr(p.end) == bound(end)
                && p.keep_going == (if inclusive { IntPredicate::Sle } else { IntPredicate::Slt }),
            _ => p.start is None && opt_expr(p.end) == Some(*iterable) && p.keep_going == IntPredicate::Slt,
        },
{
    let ty = match var_type {
        Some(t) => t.duplicate(),
        None => Type::Integer,
    };
    match iterable {
        Expr::Range { start, end, inclusive } => {
            let s: Option<&'a Expr> = match start {
                Some(b) => Some(&**b),
                None => None,
            };
            let e: Option<&'a Expr> = match end {
                Some(b) => Some(&**b),
                None => None,
            };
            ForPlan { var_type: ty, start: s, end: e, keep_going: if *inclusive { IntPredicate::Sle } else { IntPredicate::Slt } }
        },
        _ => ForPlan { var_type: ty, start: None, end: Some(iterable), keep_going: IntPredicate::Slt },
    }
}

/// The `printf` conversion used to print a value of this kind.
pub open spec fn spec_value_format(k: ValueKind) -> Seq<char> {
    if k == ValueKind::Int {
        "%lld"@
    } else if k == ValueKind::Float {
        "%f"@
    } else {
        "%s"@
    }
}

/// The `printf` conversion for a value of this kind: integers as `%lld`,
/// floats as `%f`, anything else as a string.
pub fn value_format(k: ValueKind) -> (r: &'static str)
    ensures
        r@ == spec_value_format(k),
{
    if k == ValueKind::Int {
        "%lld"
    } else if k == ValueKind::Float {
        "%f"
    } else {
        "%s"
    }
}

/// `s` with every `%` doubled, so that `printf` prints it as it is.
pub open spec fn spec_escape_percent(s: Seq<char>) -> Seq<char>
    decreases s.len(),
{
    if s.len() == 0 {
        Seq::empty()
    } else {
        spec_escape_percent(s.drop_last()) + if s.last() == '%' {
            seq!['%', '%']
        } else {
            seq![s.last()]
        }
    }
}

/// Appends `s` with every `%` doubled to `out`.
pub fn push_escaped(out: &mut String, s: &str)
    ensures
        final(out)@ == old(out)@ + spec_escape_percent(s@),
{
    let n = s.unicode_len();
    let mut i: usize = 0;
    while i < n
        invariant
            n == s@.len(),
            i <= n,
            out@ == old(out)@ + spec_escape_percent(s@.subrange(0, i as int)),
        decreases n - i,
    {
        let c = s.get_char(i);
        proof {
            let t = s@.subrange(0, i + 1);
            assert(t.drop_last() =~= s@.subrange(0, i as int));
            assert(t.last() == c);
        }
        if c == '%' {
            push_char(out, '%');
            push_char(out, '%');
        } else {
            push_char(out, c);
        }
        assert(out@ =~= old(out)@ + spec_escape_percent(s@.subrange(0, i + 1)));
        i = i + 1;
    }
    assert(s@.subrange(0, n as int) =~= s@);
}

/// A piece of an interpolated string once its expressions are evaluated:
/// text, or a value of some kind.
pub enum FormatPiece {
    Text(String),
    Value(ValueKind),
}

/// The `sprintf` format of an interpolated string: text with `%` doubled,
/// and each value by its conversion.
pub open spec fn spec_format(pieces: Seq<FormatPiece>) -> Seq<char>
    decreases pieces.len(),
{
    if pieces.len() == 0 {
        Seq::empty()
    } else {
        spec_format(pieces.drop_last()) + match pieces.last() {
            FormatPiece::Text(t) => spec_escape_percent(t@),
            FormatPiece::Value(k) => spec_value_format(k),
        }
    }
}

/// Builds the `sprintf` format of an interpolated string.
pub fn interpolation_format(pieces: &Vec<FormatPiece>) -> (r: String)
    ensures
        r@ == spec_format(pieces@),
{
    let mut out = String::new();
    let mut i: usize = 0;
    while i < pieces.len()
        invariant
            i <= pieces@.len(),
            out@ == spec_format(pieces@.subrange(0, i as int)),
        decreases pieces@.len() - i,
    {
        proof {
            let t = pieces@.subrange(0, i + 1);
            assert(t.drop_last() =~= pieces@.subrange(0, i as int));
            assert(t.last() == pieces@[i as int]);
        }
        match &pieces[i] {
            FormatPiece::Text(t) => push_escaped(&mut out, t.as_str()),
            FormatPiece::Value(k) => out.append(value_format(*k)),
        }
        i = i + 1;
    }
    assert(pieces@.subrange(0, pieces@.len() as int) =~= pieces@);
    out
}

/// Escaping never shortens a text, and leaves a text without `%` as it is.
pub proof fn law_escape_keeps_plain_text(s: Seq<char>)
    ensures
        spec_escape_percent(s).len() >= s.len(),
        !s.contains('%') ==> spec_escape_percent(s) == s,
    decreases s.len(),
{
    if s.len() > 0 {
        law_escape_keeps_plain_text(s.drop_last());
        if !s.contains('%') {
            assert(!s.drop_last().contains('%')) by {
                if s.drop_last().contains('%') {
                    let k = choose|k: int| 0 <= k < s.drop_last().len() && s.drop_last()[k] == '%';
                    assert(s[k] == '%');
                }
            }
            assert(s.last() != '%') by {
                assert(s[s.len() - 1] == s.last());
            }
            assert(s.drop_last() + seq![s.last()] =~= s);
        }
    }
}

/// Integer operands never fail to lower, whatever the operator.
pub proof fn law_integer_operators_total(op: BinOp)
    ensures
        spec_binary_lowering(op, ValueKind::Int, ValueKind::Int) is Some,
{
}

/// Comparisons of integers are signed; comparisons of floats are ordered.
pub proof fn law_comparisons_signed_and_ordered()
    ensures
        spec_binary_lowering(BinOp::Lt, ValueKind::Int, ValueKind::Int) == Some(BinaryLowering::IntCompare(IntPredicate::Slt)),
        spec_binary_lowering(BinOp::GtEq, ValueKind::Int, ValueKind::Int) == Some(BinaryLowering::IntCompare(IntPredicate::Sge)),
        spec_binary_lowering(BinOp::Lt, ValueKind::Float, ValueKind::Float) == Some(BinaryLowering::FloatCompare(FloatPredicate::Olt)),
        spec_binary_lowering(BinOp::NotEq, ValueKind::Float, ValueKind::Float) == Some(BinaryLowering::FloatCompare(FloatPredicate::One)),
{
}

} // verus!
