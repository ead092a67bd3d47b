//! The instructions the generator emits, recorded in order as plain values.
//!
//! Emitting a program is a sequence of LLVM builder calls. The generator
//! records each call as an [`Op`]; replaying the record against an LLVM
//! module performs the same calls in the same order. Every op gets the
//! index at which it is recorded as its identifier, so operands, blocks,
//! functions and globals are all named by indices into the record.
//!
//! Beside the record the log keeps what the generator reads back from the
//! builder: the type of each value, whether it is a constant (the builder
//! folds an instruction whose operands are all constants into a constant and
//! inserts nothing), which block the builder is positioned in, and whether
//! the last instruction of each block is a terminator.

use vstd::prelude::*;
use crate::layout::{LlvmType, FnSignature, ReturnLayout};
use crate::lowering::{IntPredicate, FloatPredicate};

verus! {

broadcast use vstd::std_specs::vec::group_vec_axioms;

/// An arithmetic or bitwise instruction.
#[derive(Clone, Copy, PartialEq, Eq, Structural, Debug)]
pub enum ArithOp {
    IntAdd,
    IntSub,
    IntMul,
    IntSignedDiv,
    IntSignedRem,
    And,
    Or,
    FloatAdd,
    FloatSub,
    FloatMul,
    FloatDiv,
}

/// A conversion instruction.
#[derive(Clone, Copy, PartialEq, Eq, Structural, Debug)]
pub enum CastOp {
    SignExtend,
    ZeroExtend,
    Truncate,
    SignedToFloat,
    UnsignedToFloat,
    FloatToSigned,
}

/// A function attribute.
#[derive(Clone, Copy, PartialEq, Eq, Structural, Debug)]
pub enum FnAttribute {
    AlwaysInline,
    NoUnwind,
    WillReturn,
}

/// What a global variable is initialised with.
pub enum GlobalInit {
    /// The characters of a string followed by a NUL byte.
    Text(String),
    /// The zero value of an integer or pointer type.
    Zero(LlvmType),
}

/// One recorded builder call. Operands are the identifiers of earlier ops.
pub enum Op {
    /// Adds a function with this name and signature to the module.
    DeclareFunction { name: String, signature: FnSignature },
    /// Marks a function with an attribute.
    Attribute { function: usize, attribute: FnAttribute },
    /// Adds a global variable.
    Global { name: String, init: GlobalInit, constant: bool },
    /// Appends a basic block to a function.
    AppendBlock { function: usize, name: String },
    /// Positions the builder at the end of a block.
    PositionAtEnd { block: usize },
    /// An integer constant of type `ty` (sign-extended from `value` if
    /// `signed`).
    ConstInt { ty: LlvmType, value: u64, signed: bool },
    /// A `double` constant with these IEEE-754 bits.
    ConstFloat { bits: u64 },
    /// The null pointer.
    ConstNull,
    /// The undefined value of a type.
    Undef { ty: LlvmType },
    /// The address of a global.
    GlobalAddress { global: usize },
    /// The address of a function.
    FunctionAddress { function: usize },
    /// A parameter of a function.
    Param { function: usize, index: usize },
    /// The size of a type in bytes, as an `i64` constant.
    SizeOf { ty: LlvmType },
    Alloca { ty: LlvmType, name: String },
    Load { ty: LlvmType, ptr: usize, name: String },
    Store { ptr: usize, value: usize },
    Arith { op: ArithOp, lhs: usize, rhs: usize, name: String },
    IntCompare { pred: IntPredicate, lhs: usize, rhs: usize, name: String },
    FloatCompare { pred: FloatPredicate, lhs: usize, rhs: usize, name: String },
    IntNeg { value: usize, name: String },
    FloatNeg { value: usize, name: String },
    Not { value: usize, name: String },
    Cast { op: CastOp, value: usize, ty: LlvmType, name: String },
    Select { cond: usize, then_value: usize, else_value: usize, name: String },
    /// Address arithmetic over elements of type `ty`.
    Gep { ty: LlvmType, ptr: usize, indices: Vec<usize>, name: String },
    ExtractValue { aggregate: usize, index: u32, name: String },
    InsertValue { aggregate: usize, value: usize, index: u32, name: String },
    Call { function: usize, args: Vec<usize>, name: String },
    /// A call through a function pointer of this signature.
    IndirectCall { signature: FnSignature, callee: usize, args: Vec<usize>, name: String },
    IsNull { ptr: usize, name: String },
    Phi { ty: LlvmType, incoming: Vec<(usize, usize)>, name: String },
    Branch { target: usize },
    CondBranch { cond: usize, then_block: usize, else_block: usize },
    Return { value: Option<usize> },
    Unreachable,
}

/// What an op yields, as far as the generator reads it back.
pub enum Slot {
    /// Nothing the generator refers to.
    Effect,
    /// A value of this type (`None`: the result of a call of a `void`
    /// function), and whether it is a constant.
    Value { ty: Option<LlvmType>, constant: bool },
    /// A block of a function, and whether its last instruction is a
    /// terminator.
    Block { function: usize, terminated: bool },
    /// A function.
    Function,
    /// A global variable.
    Global,
}

/// Whether an op ends a block.
pub open spec fn is_terminator(op: Op) -> bool {
    op is Branch || op is CondBranch || op is Return || op is Unreachable
}

/// `new` is `old` with one more op at its end.
pub open spec fn appended(old: Seq<Op>, new: Seq<Op>) -> bool {
    &&& new.len() == old.len() + 1
    &&& forall|i: int| 0 <= i < old.len() ==> #[trigger] new[i] == old[i]
}

/// Function `f` of `log` is declared with a parameter at position `index`.
pub open spec fn has_param(log: InstrLog, f: usize, index: int) -> bool {
    &&& f < log.ops_view().len()
    &&& log.ops_view()[f as int] is DeclareFunction
    &&& 0 <= index < log.ops_view()[f as int]->DeclareFunction_signature.params@.len()
}

/// Value `v` of `log` is a struct with a field at position `index`.
pub open spec fn has_field(log: InstrLog, v: usize, index: int) -> bool {
    log.value_type_of(v) matches Some(LlvmType::Struct(fs)) && 0 <= index < fs@.len()
}

/// Every value recorded in `before` keeps its type in `after`.
pub open spec fn types_kept(before: InstrLog, after: InstrLog) -> bool {
    forall|v: usize| v < before.ops_view().len() ==> #[trigger] after.value_type_of(v) == before.value_type_of(v)
}

/// `after` differs from `before` at most in whether the block the builder
/// stands in ends in a terminator: the builder has not moved and no block
/// was added.
pub open spec fn steady(before: InstrLog, after: InstrLog) -> bool {
    &&& after.position() == before.position()
    &&& after.flags().dom() == before.flags().dom()
    &&& forall|b: usize| #[trigger] after.flags().contains_key(b) && before.position() != Some(b) ==> after.flags()[b] == before.flags()[b]
}

/// From `before` to `after`, every block that was added, and the block the
/// builder stood in, ends in a terminator, unless the builder now stands in
/// it; every other block is as it was; and the builder stands where it
/// stood or in a block that was added.
pub open spec fn settled(before: InstrLog, after: InstrLog) -> bool {
    &&& before.flags().dom().subset_of(after.flags().dom())
    &&& (after.position() matches Some(p) ==> (before.position() == Some(p) || !before.flags().contains_key(p)))
    &&& forall|b: usize| #[trigger] after.flags().contains_key(b) && after.position() != Some(b) ==>
        if before.flags().contains_key(b) && before.position() != Some(b) {
            after.flags()[b] == before.flags()[b]
        } else {
            after.flags()[b]
        }
}

/// Every log that `before` settles, `after` settles too.
pub open spec fn keeps_settled(before: InstrLog, after: InstrLog) -> bool {
    forall|a: InstrLog| #[trigger] settled(a, before) ==> settled(a, after)
}

/// A step that keeps settled logs settled settles, and the converse.
pub proof fn lemma_keeps_settled(b: InstrLog, c: InstrLog)
    ensures
        keeps_settled(b, c) <==> settled(b, c),
{
    if settled(b, c) {
        assert forall|a: InstrLog| #[trigger] settled(a, b) implies settled(a, c) by {
            lemma_settled_trans(a, b, c);
        };
    }
    if keeps_settled(b, c) {
        lemma_settled_refl(b);
        assert(settled(b, b));
    }
}

/// From `before` to `after`, every block that was added, and the block the
/// builder stood in, ends in a terminator, and every other block is as it
/// was.
pub open spec fn sealed(before: InstrLog, after: InstrLog) -> bool {
    &&& before.flags().dom().subset_of(after.flags().dom())
    &&& forall|b: usize| #[trigger] after.flags().contains_key(b) ==>
        if before.flags().contains_key(b) && before.position() != Some(b) {
            after.flags()[b] == before.flags()[b]
        } else {
            after.flags()[b]
        }
}

/// A settled log whose builder stands in a block that ends in a terminator
/// is sealed.
pub proof fn lemma_seal(a: InstrLog, b: InstrLog)
    requires
        settled(a, b),
        !b.open_block(),
    ensures
        sealed(a, b),
{
    b.lemma_open_block();
}

/// `settled` with the blocks of `pending` left out: each of them was added
/// from `before` to `after`, or is the block the builder stood in.
pub open spec fn settled_but(before: InstrLog, after: InstrLog, pending: Set<usize>) -> bool {
    &&& before.flags().dom().subset_of(after.flags().dom())
    &&& forall|q: usize| #[trigger] pending.contains(q) ==> !before.flags().contains_key(q) || before.position() == Some(q)
    &&& forall|b: usize| #[trigger] after.flags().contains_key(b) && !pending.contains(b) ==>
        if before.flags().contains_key(b) && before.position() != Some(b) {
            after.flags()[b] == before.flags()[b]
        } else {
            after.flags()[b]
        }
}

/// The block the builder stands in, as a set.
pub open spec fn position_set(l: InstrLog) -> Set<usize> {
    match l.position() {
        Some(p) => set![p],
        None => Set::empty(),
    }
}

/// A settled log is settled but for the block the builder stands in.
pub proof fn lemma_settled_but_start(a: InstrLog, b: InstrLog)
    requires
        settled(a, b),
    ensures
        settled_but(a, b, position_set(b)),
{
}

/// Adding a block leaves it pending.
pub proof fn lemma_settled_but_append(a: InstrLog, b: InstrLog, c: InstrLog, pending: Set<usize>, x: usize)
    requires
        settled_but(a, b, pending),
        !b.flags().contains_key(x),
        c.flags() == b.flags().insert(x, false),
    ensures
        settled_but(a, c, pending.insert(x)),
{
}

/// Sealing from where the builder stands, a block that was added or where
/// the builder stood at first, takes that block off the pending ones.
pub proof fn lemma_settled_but_seal(a: InstrLog, b: InstrLog, c: InstrLog, pending: Set<usize>)
    requires
        settled_but(a, b, pending),
        sealed(b, c),
        b.position() matches Some(p) ==> !a.flags().contains_key(p) || a.position() == Some(p),
    ensures
        settled_but(a, c, pending.difference(position_set(b))),
{
    assert forall|x: usize| #[trigger] c.flags().contains_key(x) && !pending.difference(position_set(b)).contains(x) implies
        (if a.flags().contains_key(x) && a.position() != Some(x) {
            c.flags()[x] == a.flags()[x]
        } else {
            c.flags()[x]
        }) by {
        if b.flags().contains_key(x) && b.position() != Some(x) {
            assert(c.flags()[x] == b.flags()[x]);
            assert(!pending.contains(x));
        }
    };
}

/// Emitting from where the builder stands up to a terminator takes that
/// block off the pending ones.
pub proof fn lemma_settled_but_segment(a: InstrLog, b: InstrLog, c: InstrLog, pending: Set<usize>)
    requires
        settled_but(a, b, pending),
        keeps_settled(b, c),
        !c.open_block(),
        b.position() matches Some(p) ==> !a.flags().contains_key(p) || a.position() == Some(p),
    ensures
        settled_but(a, c, pending.difference(position_set(b))),
{
    lemma_keeps_settled(b, c);
    lemma_seal(b, c);
    lemma_settled_but_seal(a, b, c, pending);
}

/// Nothing emitted leaves the log settled but for where the builder
/// stands.
pub proof fn lemma_settled_but_refl(a: InstrLog)
    ensures
        settled_but(a, a, position_set(a)),
{
    lemma_settled_refl(a);
    lemma_settled_but_start(a, a);
}

/// Emitting from where the builder stands, without closing the block it
/// ends in, leaves that block pending in place of the one it started in.
pub proof fn lemma_settled_but_open(a: InstrLog, b: InstrLog, c: InstrLog, pending: Set<usize>)
    requires
        settled_but(a, b, pending),
        keeps_settled(b, c),
        b.position() matches Some(p) ==> !a.flags().contains_key(p) || a.position() == Some(p),
    ensures
        settled_but(a, c, pending.difference(position_set(b)).union(position_set(c))),
{
    lemma_keeps_settled(b, c);
    let q = pending.difference(position_set(b)).union(position_set(c));
    assert forall|x: usize| #[trigger] c.flags().contains_key(x) && !q.contains(x) implies
        (if a.flags().contains_key(x) && a.position() != Some(x) {
            c.flags()[x] == a.flags()[x]
        } else {
            c.flags()[x]
        }) by {
        assert(c.position() != Some(x));
        if b.flags().contains_key(x) && b.position() != Some(x) {
            assert(c.flags()[x] == b.flags()[x]);
            assert(!pending.contains(x));
        }
    };
}

/// A block the builder stands in that ends in a terminator is no longer
/// pending.
pub proof fn lemma_settled_but_close(a: InstrLog, c: InstrLog, pending: Set<usize>)
    requires
        settled_but(a, c, pending),
        !c.open_block(),
    ensures
        settled_but(a, c, pending.difference(position_set(c))),
{
    c.lemma_open_block();
}

/// Leaving more blocks pending, each added or where the builder stood,
/// keeps the log settled but for them.
pub proof fn lemma_settled_but_widen(a: InstrLog, c: InstrLog, pending: Set<usize>, wider: Set<usize>)
    requires
        settled_but(a, c, pending),
        pending.subset_of(wider),
        forall|q: usize| #[trigger] wider.contains(q) ==> !a.flags().contains_key(q) || a.position() == Some(q),
    ensures
        settled_but(a, c, wider),
{
}

/// Two steps that each leave some blocks pending leave, together, the
/// pending blocks of the second and those of the first but the block the
/// second started in.
pub proof fn lemma_settled_but_compose(a: InstrLog, b: InstrLog, c: InstrLog, first: Set<usize>, second: Set<usize>)
    requires
        settled_but(a, b, first),
        settled_but(b, c, second),
        b.position() matches Some(p) ==> !a.flags().contains_key(p) || a.position() == Some(p),
    ensures
        settled_but(a, c, first.difference(position_set(b)).union(second)),
{
    let q = first.difference(position_set(b)).union(second);
    assert forall|x: usize| #[trigger] c.flags().contains_key(x) && !q.contains(x) implies
        (if a.flags().contains_key(x) && a.position() != Some(x) {
            c.flags()[x] == a.flags()[x]
        } else {
            c.flags()[x]
        }) by {
        if b.flags().contains_key(x) && b.position() != Some(x) {
            assert(c.flags()[x] == b.flags()[x]);
            assert(!first.contains(x));
        }
    };
}

/// The blocks of a test on a null pointer: from `b` the builder stood in a
/// block that the test ended, emitted each of `fail` and `ok` up to a
/// terminator, and went on in `merge`. When `b` was settled from `a`, so
/// is the end.
pub proof fn lemma_split_settled(a: InstrLog, b: InstrLog, n: InstrLog, f: InstrLog, fe: InstrLog, o: InstrLog, oe: InstrLog, m: InstrLog, end: InstrLog, ok: usize, fail: usize, merge: usize)
    requires
        settled(a, b),
        ok != fail && ok != merge && fail != merge,
        settled_but(b, n, set![ok, fail, merge]),
        n.position() == b.position(),
        f.flags() == n.flags(),
        f.position() == Some(fail),
        keeps_settled(f, fe),
        !fe.open_block(),
        o.flags() == fe.flags(),
        o.position() == Some(ok),
        keeps_settled(o, oe),
        !oe.open_block(),
        m.flags() == oe.flags(),
        m.position() == Some(merge),
        keeps_settled(m, end),
        end.position() == m.position(),
    ensures
        settled(a, end),
{
    lemma_settled_but_start(a, b);
    lemma_settled_but_compose(a, b, n, position_set(b), set![ok, fail, merge]);
    let p1 = position_set(b).difference(position_set(b)).union(set![ok, fail, merge]);
    lemma_settled_but_move(a, n, f, p1);
    assert(p1.contains(fail));
    lemma_settled_but_segment(a, f, fe, p1);
    let p2 = p1.difference(position_set(f));
    lemma_settled_but_move(a, fe, o, p2);
    assert(p2.contains(ok));
    lemma_settled_but_segment(a, o, oe, p2);
    let p3 = p2.difference(position_set(o));
    lemma_settled_but_move(a, oe, m, p3);
    lemma_settled_but_open(a, m, end, p3);
    let p4 = p3.difference(position_set(m)).union(position_set(end));
    lemma_keeps_settled(m, end);
    assert(p4.subset_of(set![merge]));
    lemma_settled_but_done(a, end, p4, merge);
}

/// Moving the builder leaves what is pending as it was.
pub proof fn lemma_settled_but_move(a: InstrLog, b: InstrLog, c: InstrLog, pending: Set<usize>)
    requires
        settled_but(a, b, pending),
        c.flags() == b.flags(),
    ensures
        settled_but(a, c, pending),
{
}

/// Once at most the block the builder stands in is pending, and it was
/// added or was where the builder stood, the log is settled.
pub proof fn lemma_settled_but_done(a: InstrLog, c: InstrLog, pending: Set<usize>, m: usize)
    requires
        settled_but(a, c, pending),
        pending.subset_of(set![m]),
        c.position() == Some(m),
        !a.flags().contains_key(m) || a.position() == Some(m),
    ensures
        settled(a, c),
{
}

/// From `before` to `after`, every block that was added ends in a
/// terminator, and every other block is as it was.
pub open spec fn closed_since(before: InstrLog, after: InstrLog) -> bool {
    &&& before.flags().dom().subset_of(after.flags().dom())
    &&& forall|b: usize| #[trigger] after.flags().contains_key(b) ==>
        if before.flags().contains_key(b) {
            after.flags()[b] == before.flags()[b]
        } else {
            after.flags()[b]
        }
}

/// Every block the log holds ends in a terminator.
pub open spec fn all_terminated(l: InstrLog) -> bool {
    forall|b: usize| #[trigger] l.flags().contains_key(b) ==> l.flags()[b]
}

/// A log that held no block, and whose added blocks were all closed since,
/// holds only blocks that end in a terminator.
pub proof fn lemma_closed_from_empty(before: InstrLog, after: InstrLog)
    requires
        before.flags() == Map::<usize, bool>::empty(),
        closed_since(before, after),
    ensures
        all_terminated(after),
{
}

/// When the builder stands in no open block, nothing is pending.
pub proof fn lemma_settled_but_closed_start(a: InstrLog)
    requires
        !a.open_block(),
    ensures
        settled_but(a, a, Set::empty()),
{
    a.lemma_open_block();
}

/// Settled with nothing pending, from where the builder stood in no open
/// block, every added block is closed and the others are as they were.
pub proof fn lemma_closed_since(a: InstrLog, c: InstrLog)
    requires
        settled_but(a, c, Set::empty()),
        !a.open_block(),
    ensures
        closed_since(a, c),
{
    a.lemma_open_block();
}

/// Closing blocks twice closes them.
pub proof fn lemma_closed_since_trans(a: InstrLog, b: InstrLog, c: InstrLog)
    requires
        closed_since(a, b),
        closed_since(b, c),
    ensures
        closed_since(a, c),
{
    assert forall|x: usize| #[trigger] c.flags().contains_key(x) implies
        (if a.flags().contains_key(x) { c.flags()[x] == a.flags()[x] } else { c.flags()[x] }) by {
        if b.flags().contains_key(x) {
            assert(c.flags()[x] == b.flags()[x]);
        }
    };
}

/// Nothing emitted leaves the log settled.
pub proof fn lemma_settled_refl(l: InstrLog)
    ensures
        settled(l, l),
{
}

/// A step that only emits into the block the builder stands in leaves the
/// log settled.
pub proof fn lemma_steady_settled(a: InstrLog, b: InstrLog)
    requires
        steady(a, b),
    ensures
        settled(a, b),
{
}

/// Settling twice settles.
pub proof fn lemma_settled_trans(a: InstrLog, b: InstrLog, c: InstrLog)
    requires
        settled(a, b),
        settled(b, c),
    ensures
        settled(a, c),
{
    assert forall|x: usize| #[trigger] c.flags().contains_key(x) && c.position() != Some(x) implies
        (if a.flags().contains_key(x) && a.position() != Some(x) {
            c.flags()[x] == a.flags()[x]
        } else {
            c.flags()[x]
        }) by {
        if b.flags().contains_key(x) && b.position() != Some(x) {
            assert(c.flags()[x] == b.flags()[x]);
        }
    };
}

/// The record of emitted ops and what is known of their results.
pub struct InstrLog {
    ops: Vec<Op>,
    slots: Vec<Slot>,
    insert_block: Option<usize>,
}

/// Copies of a list of types.
pub fn duplicate_all(fs: &Vec<LlvmType>) -> (r: Vec<LlvmType>)
    ensures
        crate::layout::llvm_views(r@) == crate::layout::llvm_views(fs@),
    decreases fs, 0int,
{
    let mut out: Vec<LlvmType> = Vec::new();
    let mut i: usize = 0;
    while i < fs.len()
        invariant
            i <= fs@.len(),
            out@.len() == i,
            forall|j: int| 0 <= j < i ==> (#[trigger] out@[j])@ == fs@[j]@,
        decreases fs@.len() - i,
    {
        out.push(fs[i].duplicate());
        i = i + 1;
    }
    proof {
        crate::layout::lemma_views_pointwise(out@, fs@);
    }
    out
}

/// Whether two lists of types are the same, pointwise.
pub fn same_all(a: &Vec<LlvmType>, b: &Vec<LlvmType>) -> (r: bool)
    ensures
        r <==> crate::layout::llvm_views(a@) == crate::layout::llvm_views(b@),
    decreases a, 0int,
{
    if a.len() != b.len() {
        proof {
            crate::layout::lemma_views_len(a@);
            crate::layout::lemma_views_len(b@);
        }
        return false;
    }
    let mut i: usize = 0;
    while i < a.len()
        invariant
            i <= a@.len(),
            a@.len() == b@.len(),
            forall|j: int| 0 <= j < i ==> (#[trigger] a@[j])@ == b@[j]@,
        decreases a@.len() - i,
    {
        if !a[i].same_as(&b[i]) {
            proof {
                crate::layout::lemma_views_index(a@, i as int);
                crate::layout::lemma_views_index(b@, i as int);
            }
            return false;
        }
        i = i + 1;
    }
    proof {
        crate::layout::lemma_views_pointwise(a@, b@);
    }
    true
}

impl LlvmType {
    /// A copy of this type.
    pub fn duplicate(&self) -> (r: LlvmType)
        ensures
            r@ == self@,
        decreases self, 1int,
    {
        match self {
            LlvmType::I1 => LlvmType::I1,
            LlvmType::I8 => LlvmType::I8,
            LlvmType::I32 => LlvmType::I32,
            LlvmType::I64 => LlvmType::I64,
            LlvmType::F64 => LlvmType::F64,
            LlvmType::Ptr => LlvmType::Ptr,
            LlvmType::Struct(fs) => LlvmType::Struct(duplicate_all(fs)),
        }
    }

    /// Whether two types are the same type.
    pub fn same_as(&self, other: &LlvmType) -> (r: bool)
        ensures
            r <==> self@ == other@,
        decreases self, 1int,
    {
        match (self, other) {
            (LlvmType::I1, LlvmType::I1) => true,
            (LlvmType::I8, LlvmType::I8) => true,
            (LlvmType::I32, LlvmType::I32) => true,
            (LlvmType::I64, LlvmType::I64) => true,
            (LlvmType::F64, LlvmType::F64) => true,
            (LlvmType::Ptr, LlvmType::Ptr) => true,
            (LlvmType::Struct(a), LlvmType::Struct(b)) => {
                same_all(a, b)
            },
            _ => false,
        }
    }

    /// Whether this is an integer type.
    pub fn is_int(&self) -> (r: bool)
        ensures
            r <==> (*self is I1 || *self is I8 || *self is I32 || *self is I64),
    {
        match self {
            LlvmType::I1 | LlvmType::I8 | LlvmType::I32 | LlvmType::I64 => true,
            _ => false,
        }
    }

    /// The width in bits of an integer type (0 for any other type).
    pub fn int_width(&self) -> (r: u32)
        ensures
            *self is I1 ==> r == 1,
            *self is I8 ==> r == 8,
            *self is I32 ==> r == 32,
            *self is I64 ==> r == 64,
            !self.is_int_spec() ==> r == 0,
    {
        match self {
            LlvmType::I1 => 1,
            LlvmType::I8 => 8,
            LlvmType::I32 => 32,
            LlvmType::I64 => 64,
            _ => 0,
        }
    }

    /// Whether this is an integer type.
    pub open spec fn is_int_spec(&self) -> bool {
        *self is I1 || *self is I8 || *self is I32 || *self is I64
    }
}

impl FnSignature {
    /// A copy of this signature.
    pub fn duplicate(&self) -> (r: FnSignature)
        ensures
            r@ == self@,
    {
        let ret = match &self.ret {
            ReturnLayout::Void => ReturnLayout::Void,
            ReturnLayout::Value(t) => ReturnLayout::Value(t.duplicate()),
        };
        FnSignature { params: duplicate_all(&self.params), ret, variadic: self.variadic }
    }
}

impl InstrLog {
    /// The ops recorded so far.
    pub closed spec fn ops_view(&self) -> Seq<Op> {
        self.ops@
    }

    /// The log is consistent: one slot per op.
    pub closed spec fn wf(&self) -> bool {
        &&& self.slots@.len() == self.ops@.len()
        &&& forall|b: int| 0 <= b < self.slots@.len() ==> (#[trigger] self.slots@[b] is Block <==> self.ops@[b] is AppendBlock)
        &&& self.insert_block matches Some(p) ==> p < self.slots@.len() && self.slots@[p as int] is Block
    }

    /// The type of value `v`, as far as the log knows it.
    pub closed spec fn value_type_of(&self, v: usize) -> Option<LlvmType> {
        if v < self.slots@.len() {
            match self.slots@[v as int] {
                Slot::Value { ty: Some(t), constant: _ } => Some(t),
                _ => None,
            }
        } else {
            None
        }
    }

    /// Whether value `v` is a constant.
    pub closed spec fn is_constant_value(&self, v: usize) -> bool {
        v < self.slots@.len() && (self.slots@[v as int] matches Slot::Value { ty: _, constant } && constant)
    }

    /// Whether op `b` is a block of function `f`.
    pub closed spec fn is_block_of(&self, b: int, f: usize) -> bool {
        0 <= b < self.slots@.len() && (self.slots@[b] matches Slot::Block { function, terminated: _ } && function == f)
    }

    /// Each block of the log, and whether its last instruction is a
    /// terminator.
    pub closed spec fn flags(&self) -> Map<usize, bool> {
        Map::new(
            |b: usize| b < self.slots@.len() && self.slots@[b as int] is Block,
            |b: usize| self.slots@[b as int]->Block_terminated,
        )
    }

    /// The block the builder is positioned in, if any.
    pub closed spec fn position(&self) -> Option<usize> {
        self.insert_block
    }

    /// The builder stands in a block whose last instruction is not a
    /// terminator.
    pub closed spec fn open_block(&self) -> bool {
        match self.insert_block {
            Some(b) => b < self.slots@.len() && (self.slots@[b as int] matches Slot::Block { function: _, terminated } && !terminated),
            None => false,
        }
    }

    /// The builder stands in an open block exactly when the block it stands
    /// in does not end in a terminator.
    pub proof fn lemma_open_block(&self)
        ensures
            self.open_block() <==> (self.position() matches Some(p) && self.flags().contains_key(p) && !self.flags()[p]),
    {
    }

    /// The blocks of the log are its `AppendBlock` ops, and the builder
    /// stands in one of them if anywhere.
    pub proof fn lemma_flags_dom(&self)
        requires
            self.wf(),
        ensures
            forall|b: usize| #[trigger] self.flags().contains_key(b) <==> (b < self.ops_view().len() && self.ops_view()[b as int] is AppendBlock),
            self.position() matches Some(p) ==> self.flags().contains_key(p),
    {
    }

    /// An empty log: nothing emitted, the builder positioned nowhere.
    pub fn new() -> (l: Self)
        ensures
            l.wf(),
            l.ops_view() == Seq::<Op>::empty(),
            l.position() is None,
            l.flags() == Map::<usize, bool>::empty(),
            !l.open_block(),
    {
        let l = InstrLog { ops: Vec::new(), slots: Vec::new(), insert_block: None };
        assert(l.flags() =~= Map::<usize, bool>::empty());
        l
    }

    /// The ops recorded so far.
    pub fn ops(&self) -> (r: &Vec<Op>)
        ensures
            r@ == self.ops_view(),
    {
        &self.ops
    }

    /// The number of ops recorded so far.
    pub fn len(&self) -> (n: usize)
        ensures
            n == self.ops_view().len(),
    {
        self.ops.len()
    }

    /// The block the builder is positioned in.
    pub fn insert_block(&self) -> (r: Option<usize>)
        ensures
            r == self.position(),
            self.wf() ==> (r matches Some(p) ==> p < self.ops_view().len() && self.ops_view()[p as int] is AppendBlock),
    {
        self.insert_block
    }

    /// Records `op`, whose result is described by `slot`.
    fn record(&mut self, op: Op, slot: Slot) -> (id: usize)
        requires
            old(self).wf(),
            slot is Block <==> op is AppendBlock,
        ensures
            final(self).wf(),
            id == old(self).ops_view().len(),
            final(self).ops_view() == old(self).ops_view().push(op),
            appended(old(self).ops_view(), final(self).ops_view()),
            final(self).position() == old(self).position(),
            final(self).slots@ == old(self).slots@.push(slot),
            !(slot is Block) ==> steady(*old(self), *final(self)),
            !(slot is Block) ==> keeps_settled(*old(self), *final(self)),
            !(slot is Block) ==> final(self).flags() == old(self).flags(),
            slot is Block ==> final(self).flags() == old(self).flags().insert(id, slot->Block_terminated),
            types_kept(*old(self), *final(self)),
    {
        let id = self.ops.len();
        self.ops.push(op);
        self.slots.push(slot);
        proof {
            assert forall|v: usize| v < old(self).ops_view().len() implies #[trigger] self.value_type_of(v) == old(self).value_type_of(v) by {
                assert(self.slots@[v as int] == old(self).slots@[v as int]);
            };
            if slot is Block {
                assert(self.flags() =~= old(self).flags().insert(id, slot->Block_terminated));
            } else {
                assert(self.flags() =~= old(self).flags());
                lemma_steady_settled(*old(self), *self);
                lemma_keeps_settled(*old(self), *self);
            }
        }
        id
    }

    /// Notes that an instruction was inserted at the current position: the
    /// block now ends in a terminator exactly when `terminator`.
    fn mark_inserted(&mut self, terminator: bool)
        requires
            old(self).wf(),
        ensures
            final(self).wf(),
            final(self).ops_view() == old(self).ops_view(),
            final(self).position() == old(self).position(),
            terminator ==> !final(self).open_block(),
            steady(*old(self), *final(self)),
            keeps_settled(*old(self), *final(self)),
            types_kept(*old(self), *final(self)),
    {
        match self.insert_block {
            Some(b) => {
                if b < self.slots.len() {
                    let f = match &self.slots[b] {
                        Slot::Block { function, terminated: _ } => Some(*function),
                        _ => None,
                    };
                    match f {
                        Some(function) => {
                            self.slots.set(b, Slot::Block { function, terminated: terminator });
                            assert(self.flags().dom() =~= old(self).flags().dom());
                        },
                        None => {},
                    }
                }
            },
            None => {},
        }
        proof {
            lemma_steady_settled(*old(self), *self);
            lemma_keeps_settled(*old(self), *self);
        }
    }

    /// Whether the block the builder is positioned in lacks a terminator;
    /// `false` when the builder is positioned nowhere.
    pub fn needs_terminator(&self) -> (r: bool)
        ensures
            r == self.open_block(),
            self.position() is None ==> !r,
    {
        match self.insert_block {
            Some(b) => {
                if b < self.slots.len() {
                    match &self.slots[b] {
                        Slot::Block { function: _, terminated } => !*terminated,
                        _ => false,
                    }
                } else {
                    false
                }
            },
            None => false,
        }
    }

    /// The type of value `v`, if `v` is a value that has one.
    pub fn value_type(&self, v: usize) -> (r: Option<&LlvmType>)
        ensures
            self.wf() && r is Some ==> v < self.ops_view().len(),
            r is None <==> self.value_type_of(v) is None,
            r matches Some(t) ==> self.value_type_of(v) == Some(*t),
    {
        if v < self.slots.len() {
            match &self.slots[v] {
                Slot::Value { ty: Some(t), constant: _ } => Some(t),
                _ => None,
            }
        } else {
            None
        }
    }

    /// Whether value `v` is a constant.
    pub fn is_constant(&self, v: usize) -> (r: bool)
        ensures
            r == self.is_constant_value(v),
    {
        if v < self.slots.len() {
            match &self.slots[v] {
                Slot::Value { ty: _, constant } => *constant,
                _ => false,
            }
        } else {
            false
        }
    }

    /// Whether value `v` is an integer.
    pub fn is_int_value(&self, v: usize) -> (r: bool)
        ensures
            r == (self.value_type_of(v) matches Some(t) && t.is_int_spec()),
            self.wf() && r ==> v < self.ops_view().len(),
    {
        match self.value_type(v) {
            Some(t) => t.is_int(),
            None => false,
        }
    }

    /// Whether value `v` is a `double`.
    pub fn is_float_value(&self, v: usize) -> (r: bool)
        ensures
            r == (self.value_type_of(v) == Some(LlvmType::F64)),
            self.wf() && r ==> v < self.ops_view().len(),
    {
        match self.value_type(v) {
            Some(LlvmType::F64) => true,
            _ => false,
        }
    }

    /// Whether value `v` is a pointer.
    pub fn is_pointer_value(&self, v: usize) -> (r: bool)
        ensures
            r == (self.value_type_of(v) == Some(LlvmType::Ptr)),
            self.wf() && r ==> v < self.ops_view().len(),
    {
        match self.value_type(v) {
            Some(LlvmType::Ptr) => true,
            _ => false,
        }
    }

    /// Whether value `v` is a struct.
    pub fn is_struct_value(&self, v: usize) -> (r: bool)
        ensures
            r == (self.value_type_of(v) matches Some(t) && t is Struct),
            self.wf() && r ==> v < self.ops_view().len(),
    {
        match self.value_type(v) {
            Some(LlvmType::Struct(_)) => true,
            _ => false,
        }
    }

    /// The signature of function `f`, if `f` is a declared function.
    pub fn signature(&self, f: usize) -> (r: Option<&FnSignature>)
        ensures
            r is Some <==> (f < self.ops_view().len() && self.ops_view()[f as int] is DeclareFunction),
            r matches Some(sig) ==> self.ops_view()[f as int]->DeclareFunction_signature == *sig,
    {
        if f < self.ops.len() {
            match &self.ops[f] {
                Op::DeclareFunction { name: _, signature } => Some(signature),
                _ => None,
            }
        } else {
            None
        }
    }

    /// The name of function `f`, if `f` is a declared function.
    pub fn function_name(&self, f: usize) -> (r: Option<&String>)
        ensures
            r is Some <==> (f < self.ops_view().len() && self.ops_view()[f as int] is DeclareFunction),
            r matches Some(n) ==> self.ops_view()[f as int]->DeclareFunction_name == *n,
    {
        if f < self.ops.len() {
            match &self.ops[f] {
                Op::DeclareFunction { name, signature: _ } => Some(name),
                _ => None,
            }
        } else {
            None
        }
    }

    /// The last block appended to function `f`, if any.
    pub fn last_block_of(&self, f: usize) -> (r: Option<usize>)
        ensures
            r matches Some(b) ==> self.is_block_of(b as int, f),
            self.wf() ==> (r matches Some(b) ==> b < self.ops_view().len() && self.ops_view()[b as int] is AppendBlock),
            r matches Some(b) ==> forall|j: int| b < j ==> !#[trigger] self.is_block_of(j, f),
            r is None ==> forall|j: int| !#[trigger] self.is_block_of(j, f),
    {
        let mut i = self.slots.len();
        while i > 0
            invariant
                i <= self.slots@.len(),
                forall|j: int| i <= j ==> !#[trigger] self.is_block_of(j, f),
            decreases i,
        {
            i = i - 1;
            match &self.slots[i] {
                Slot::Block { function, terminated: _ } => {
                    if *function == f {
                        return Some(i);
                    }
                },
                _ => {},
            }
        }
        None
    }

    /// Records a value-producing op that the builder folds when all of
    /// `operands` are constants.
    fn value_op(&mut self, op: Op, ty: Option<LlvmType>, operands: &Vec<usize>) -> (id: usize)
        requires
            old(self).wf(),
            !(op is AppendBlock),
        ensures
            steady(*old(self), *final(self)),
            keeps_settled(*old(self), *final(self)),
            final(self).wf(),
            id == old(self).ops_view().len(),
            final(self).ops_view() == old(self).ops_view().push(op),
            appended(old(self).ops_view(), final(self).ops_view()),
            final(self).position() == old(self).position(),
            types_kept(*old(self), *final(self)),
            final(self).value_type_of(id) == ty,
    {
        let mut folded = true;
        let mut i: usize = 0;
        while i < operands.len()
            invariant
                i <= operands@.len(),
            decreases operands@.len() - i,
        {
            if !self.is_constant(operands[i]) {
                folded = false;
            }
            i = i + 1;
        }
        if !folded {
            self.mark_inserted(false);
        }
        let ghost mid = *self;
        let id = self.record(op, Slot::Value { ty, constant: folded });
        proof {
            assert forall|v: usize| v < old(self).ops_view().len() implies #[trigger] self.value_type_of(v) == old(self).value_type_of(v) by {
                assert(self.slots@[v as int] == mid.slots@[v as int]);
                assert(mid.value_type_of(v) == old(self).value_type_of(v));
            };
        }
        id
    }

    /// Records an instruction that is never folded and yields a value of
    /// type `ty`.
    fn instruction(&mut self, op: Op, ty: Option<LlvmType>) -> (id: usize)
        requires
            old(self).wf(),
            !(op is AppendBlock),
        ensures
            steady(*old(self), *final(self)),
            keeps_settled(*old(self), *final(self)),
            final(self).wf(),
            id == old(self).ops_view().len(),
            final(self).ops_view() == old(self).ops_view().push(op),
            appended(old(self).ops_view(), final(self).ops_view()),
            final(self).position() == old(self).position(),
            final(self).value_type_of(id) == ty,
    {
        self.mark_inserted(false);
        self.record(op, Slot::Value { ty, constant: false })
    }

    /// Records a terminator.
    fn terminator(&mut self, op: Op) -> (id: usize)
        requires
            old(self).wf(),
            is_terminator(op),
        ensures
            steady(*old(self), *final(self)),
            keeps_settled(*old(self), *final(self)),
            final(self).wf(),
            !final(self).open_block(),
            id == old(self).ops_view().len(),
            final(self).ops_view() == old(self).ops_view().push(op),
            appended(old(self).ops_view(), final(self).ops_view()),
            final(self).position() == old(self).position(),
            types_kept(*old(self), *final(self)),
    {
        self.mark_inserted(true);
        self.record(op, Slot::Effect)
    }

    /// Adds a function to the module.
    pub fn declare_function(&mut self, name: String, signature: FnSignature) -> (id: usize)
        requires
            old(self).wf(),
        ensures
            final(self).flags() == old(self).flags(),
            steady(*old(self), *final(self)),
            keeps_settled(*old(self), *final(self)),
            final(self).wf(),
            id == old(self).ops_view().len(),
            final(self).ops_view() == old(self).ops_view().push(Op::DeclareFunction { name, signature }),
            final(self).position() == old(self).position(),
    {
        self.record(Op::DeclareFunction { name, signature }, Slot::Function)
    }

    /// Marks function `function` with `attribute`.
    pub fn attribute(&mut self, function: usize, attribute: FnAttribute)
        requires
            old(self).wf(),
        ensures
            final(self).flags() == old(self).flags(),
            steady(*old(self), *final(self)),
            keeps_settled(*old(self), *final(self)),
            final(self).wf(),
            final(self).ops_view() == old(self).ops_view().push(Op::Attribute { function, attribute }),
            final(self).position() == old(self).position(),
    {
        self.record(Op::Attribute { function, attribute }, Slot::Effect);
    }

    /// Adds a global variable to the module.
    pub fn global(&mut self, name: String, init: GlobalInit, constant: bool) -> (id: usize)
        requires
            old(self).wf(),
        ensures
            final(self).flags() == old(self).flags(),
            steady(*old(self), *final(self)),
            keeps_settled(*old(self), *final(self)),
            final(self).wf(),
            id == old(self).ops_view().len(),
            final(self).ops_view() == old(self).ops_view().push(Op::Global { name, init, constant }),
            final(self).position() == old(self).position(),
    {
        self.record(Op::Global { name, init, constant }, Slot::Global)
    }

    /// Appends a block named `name` to function `function`.
    pub fn append_block(&mut self, function: usize, name: &str) -> (id: usize)
        requires
            old(self).wf(),
        ensures
            final(self).wf(),
            id == old(self).ops_view().len(),
            appended(old(self).ops_view(), final(self).ops_view()),
            final(self).ops_view()[id as int] matches Op::AppendBlock { function: g, name: n } && g == function && n@ == name@,
            final(self).position() == old(self).position(),
            final(self).flags() == old(self).flags().insert(id, false),
            !old(self).flags().contains_key(id),
    {
        let op = Op::AppendBlock { function, name: String::from_str(name) };
        self.record(op, Slot::Block { function, terminated: false })
    }

    /// Positions the builder at the end of `block`.
    pub fn position_at_end(&mut self, block: usize)
        requires
            old(self).wf(),
            block < old(self).ops_view().len(),
            old(self).ops_view()[block as int] is AppendBlock,
        ensures
            final(self).wf(),
            final(self).ops_view() == old(self).ops_view().push(Op::PositionAtEnd { block }),
            final(self).position() == Some(block),
            final(self).flags() == old(self).flags(),
            types_kept(*old(self), *final(self)),
    {
        self.record(Op::PositionAtEnd { block }, Slot::Effect);
        self.insert_block = Some(block);
    }

    /// An integer constant.
    pub fn const_int(&mut self, ty: LlvmType, value: u64, signed: bool) -> (id: usize)
        requires
            old(self).wf(),
        ensures
            steady(*old(self), *final(self)),
            keeps_settled(*old(self), *final(self)),
            final(self).wf(),
            id == old(self).ops_view().len(),
            final(self).ops_view() == old(self).ops_view().push(Op::ConstInt { ty, value, signed }),
            final(self).position() == old(self).position(),
            final(self).value_type_of(id) matches Some(t) && t@ == ty@,
            types_kept(*old(self), *final(self)),
    {
        let t = ty.duplicate();
        self.record(Op::ConstInt { ty, value, signed }, Slot::Value { ty: Some(t), constant: true })
    }

    /// A `double` constant.
    pub fn const_float(&mut self, bits: u64) -> (id: usize)
        requires
            old(self).wf(),
        ensures
            steady(*old(self), *final(self)),
            keeps_settled(*old(self), *final(self)),
            final(self).wf(),
            id == old(self).ops_view().len(),
            final(self).ops_view() == old(self).ops_view().push(Op::ConstFloat { bits }),
            final(self).position() == old(self).position(),
            final(self).value_type_of(id) == Some(LlvmType::F64),
    {
        self.record(Op::ConstFloat { bits }, Slot::Value { ty: Some(LlvmType::F64), constant: true })
    }

    /// The null pointer.
    pub fn const_null(&mut self) -> (id: usize)
        requires
            old(self).wf(),
        ensures
            steady(*old(self), *final(self)),
            keeps_settled(*old(self), *final(self)),
            final(self).wf(),
            id == old(self).ops_view().len(),
            final(self).ops_view() == old(self).ops_view().push(Op::ConstNull),
            final(self).position() == old(self).position(),
    {
        self.record(Op::ConstNull, Slot::Value { ty: Some(LlvmType::Ptr), constant: true })
    }

    /// The undefined value of `ty`.
    pub fn undef(&mut self, ty: LlvmType) -> (id: usize)
        requires
            old(self).wf(),
        ensures
            steady(*old(self), *final(self)),
            keeps_settled(*old(self), *final(self)),
            final(self).wf(),
            id == old(self).ops_view().len(),
            final(self).ops_view() == old(self).ops_view().push(Op::Undef { ty }),
            final(self).position() == old(self).position(),
    {
        let t = ty.duplicate();
        self.record(Op::Undef { ty }, Slot::Value { ty: Some(t), constant: true })
    }

    /// The address of global `global`.
    pub fn global_address(&mut self, global: usize) -> (id: usize)
        requires
            old(self).wf(),
        ensures
            steady(*old(self), *final(self)),
            keeps_settled(*old(self), *final(self)),
            final(self).wf(),
            id == old(self).ops_view().len(),
            final(self).ops_view() == old(self).ops_view().push(Op::GlobalAddress { global }),
            final(self).position() == old(self).position(),
    {
        self.record(Op::GlobalAddress { global }, Slot::Value { ty: Some(LlvmType::Ptr), constant: true })
    }

    /// The address of function `function`.
    pub fn function_address(&mut self, function: usize) -> (id: usize)
        requires
            old(self).wf(),
        ensures
            steady(*old(self), *final(self)),
            keeps_settled(*old(self), *final(self)),
            final(self).wf(),
            id == old(self).ops_view().len(),
            final(self).ops_view() == old(self).ops_view().push(Op::FunctionAddress { function }),
            final(self).position() == old(self).position(),
    {
        self.record(Op::FunctionAddress { function }, Slot::Value { ty: Some(LlvmType::Ptr), constant: true })
    }

    /// Parameter `index` of function `function`; `None` when the function
    /// has no such parameter.
    pub fn param(&mut self, function: usize, index: usize) -> (r: Option<usize>)
        requires
            old(self).wf(),
        ensures
            steady(*old(self), *final(self)),
            keeps_settled(*old(self), *final(self)),
            final(self).wf(),
            final(self).position() == old(self).position(),
            r is None ==> final(self).ops_view() == old(self).ops_view(),
            r matches Some(id) ==> id == old(self).ops_view().len()
                && final(self).ops_view() == old(self).ops_view().push(Op::Param { function, index }),
            r is Some <==> has_param(*old(self), function, index as int),
            r matches Some(id) ==> (final(self).value_type_of(id) matches Some(t)
                && t@ == old(self).ops_view()[function as int]->DeclareFunction_signature.params@[index as int]@),
    {
        let ty = match self.signature(function) {
            Some(sig) => if index < sig.params.len() {
                Some(sig.params[index].duplicate())
            } else {
                None
            },
            None => None,
        };
        match ty {
            Some(t) => Some(self.record(Op::Param { function, index }, Slot::Value { ty: Some(t), constant: false })),
            None => None,
        }
    }

    /// The size in bytes of `ty`.
    pub fn size_of(&mut self, ty: LlvmType) -> (id: usize)
        requires
            old(self).wf(),
        ensures
            steady(*old(self), *final(self)),
            keeps_settled(*old(self), *final(self)),
            final(self).wf(),
            id == old(self).ops_view().len(),
            final(self).ops_view() == old(self).ops_view().push(Op::SizeOf { ty }),
            final(self).position() == old(self).position(),
    {
        self.record(Op::SizeOf { ty }, Slot::Value { ty: Some(LlvmType::I64), constant: true })
    }

    /// A stack slot for a value of type `ty`.
    pub fn alloca(&mut self, ty: LlvmType, name: &str) -> (id: usize)
        requires
            old(self).wf(),
        ensures
            steady(*old(self), *final(self)),
            keeps_settled(*old(self), *final(self)),
            final(self).wf(),
            id == old(self).ops_view().len(),
            appended(old(self).ops_view(), final(self).ops_view()),
            final(self).ops_view()[id as int] is Alloca,
            final(self).position() == old(self).position(),
    {
        self.instruction(Op::Alloca { ty, name: String::from_str(name) }, Some(LlvmType::Ptr))
    }

    /// Loads a value of type `ty` from `ptr`.
    pub fn load(&mut self, ty: LlvmType, ptr: usize, name: &str) -> (id: usize)
        requires
            old(self).wf(),
        ensures
            steady(*old(self), *final(self)),
            keeps_settled(*old(self), *final(self)),
            final(self).wf(),
            id == old(self).ops_view().len(),
            appended(old(self).ops_view(), final(self).ops_view()),
            final(self).ops_view()[id as int] matches Op::Load { ty: t, ptr: p, name: _ } && p == ptr && t == ty,
            final(self).position() == old(self).position(),
            final(self).value_type_of(id) matches Some(t) && t@ == ty@,
    {
        let t = ty.duplicate();
        self.instruction(Op::Load { ty, ptr, name: String::from_str(name) }, Some(t))
    }

    /// Stores `value` at `ptr`.
    pub fn store(&mut self, ptr: usize, value: usize)
        requires
            old(self).wf(),
        ensures
            steady(*old(self), *final(self)),
            keeps_settled(*old(self), *final(self)),
            final(self).wf(),
            final(self).ops_view() == old(self).ops_view().push(Op::Store { ptr, value }),
            final(self).position() == old(self).position(),
    {
        self.mark_inserted(false);
        self.record(Op::Store { ptr, value }, Slot::Effect);
    }

    /// An arithmetic or bitwise instruction; integer instructions yield the
    /// type of their left operand, floating-point ones a `double`.
    pub fn arith(&mut self, op: ArithOp, lhs: usize, rhs: usize, name: &str) -> (id: usize)
        requires
            old(self).wf(),
        ensures
            steady(*old(self), *final(self)),
            keeps_settled(*old(self), *final(self)),
            final(self).wf(),
            id == old(self).ops_view().len(),
            appended(old(self).ops_view(), final(self).ops_view()),
            final(self).ops_view()[id as int] matches Op::Arith { op: o, lhs: a, rhs: b, name: _ } && o == op && a == lhs && b == rhs,
            final(self).position() == old(self).position(),
            types_kept(*old(self), *final(self)),
    {
        let ty = match op {
            ArithOp::FloatAdd | ArithOp::FloatSub | ArithOp::FloatMul | ArithOp::FloatDiv => Some(LlvmType::F64),
            _ => match self.value_type(lhs) {
                Some(t) => Some(t.duplicate()),
                None => None,
            },
        };
        self.value_op(Op::Arith { op, lhs, rhs, name: String::from_str(name) }, ty, &vec![lhs, rhs])
    }

    /// An integer comparison, yielding an `i1`.
    pub fn int_compare(&mut self, pred: IntPredicate, lhs: usize, rhs: usize, name: &str) -> (id: usize)
        requires
            old(self).wf(),
        ensures
            steady(*old(self), *final(self)),
            keeps_settled(*old(self), *final(self)),
            final(self).wf(),
            id == old(self).ops_view().len(),
            appended(old(self).ops_view(), final(self).ops_view()),
            final(self).ops_view()[id as int] matches Op::IntCompare { pred: p, lhs: a, rhs: b, name: _ } && p == pred && a == lhs && b == rhs,
            final(self).position() == old(self).position(),
            types_kept(*old(self), *final(self)),
    {
        self.value_op(Op::IntCompare { pred, lhs, rhs, name: String::from_str(name) }, Some(LlvmType::I1), &vec![lhs, rhs])
    }

    /// A floating-point comparison, yielding an `i1`.
    pub fn float_compare(&mut self, pred: FloatPredicate, lhs: usize, rhs: usize, name: &str) -> (id: usize)
        requires
            old(self).wf(),
        ensures
            steady(*old(self), *final(self)),
            keeps_settled(*old(self), *final(self)),
            final(self).wf(),
            id == old(self).ops_view().len(),
            appended(old(self).ops_view(), final(self).ops_view()),
            final(self).ops_view()[id as int] matches Op::FloatCompare { pred: p, lhs: a, rhs: b, name: _ } && p == pred && a == lhs && b == rhs,
            final(self).position() == old(self).position(),
            types_kept(*old(self), *final(self)),
    {
        self.value_op(Op::FloatCompare { pred, lhs, rhs, name: String::from_str(name) }, Some(LlvmType::I1), &vec![lhs, rhs])
    }

    /// Integer negation.
    pub fn int_neg(&mut self, value: usize, name: &str) -> (id: usize)
        requires
            old(self).wf(),
        ensures
            steady(*old(self), *final(self)),
            keeps_settled(*old(self), *final(self)),
            final(self).wf(),
            id == old(self).ops_view().len(),
            appended(old(self).ops_view(), final(self).ops_view()),
            final(self).ops_view()[id as int] matches Op::IntNeg { value: a, name: _ } && a == value,
            final(self).position() == old(self).position(),
            types_kept(*old(self), *final(self)),
    {
        let ty = match self.value_type(value) {
            Some(t) => Some(t.duplicate()),
            None => None,
        };
        self.value_op(Op::IntNeg { value, name: String::from_str(name) }, ty, &vec![value])
    }

    /// Floating-point negation.
    pub fn float_neg(&mut self, value: usize, name: &str) -> (id: usize)
        requires
            old(self).wf(),
        ensures
            steady(*old(self), *final(self)),
            keeps_settled(*old(self), *final(self)),
            final(self).wf(),
            id == old(self).ops_view().len(),
            appended(old(self).ops_view(), final(self).ops_view()),
            final(self).ops_view()[id as int] matches Op::FloatNeg { value: a, name: _ } && a == value,
            final(self).position() == old(self).position(),
            types_kept(*old(self), *final(self)),
    {
        self.value_op(Op::FloatNeg { value, name: String::from_str(name) }, Some(LlvmType::F64), &vec![value])
    }

    /// Bitwise complement.
    pub fn not(&mut self, value: usize, name: &str) -> (id: usize)
        requires
            old(self).wf(),
        ensures
            steady(*old(self), *final(self)),
            keeps_settled(*old(self), *final(self)),
            final(self).wf(),
            id == old(self).ops_view().len(),
            appended(old(self).ops_view(), final(self).ops_view()),
            final(self).ops_view()[id as int] matches Op::Not { value: a, name: _ } && a == value,
            final(self).position() == old(self).position(),
            types_kept(*old(self), *final(self)),
    {
        let ty = match self.value_type(value) {
            Some(t) => Some(t.duplicate()),
            None => None,
        };
        self.value_op(Op::Not { value, name: String::from_str(name) }, ty, &vec![value])
    }

    /// A conversion of `value` to `ty`; converting a value to its own type
    /// yields the value itself and inserts nothing.
    pub fn cast(&mut self, op: CastOp, value: usize, ty: LlvmType, name: &str) -> (id: usize)
        requires
            old(self).wf(),
        ensures
            steady(*old(self), *final(self)),
            keeps_settled(*old(self), *final(self)),
            final(self).wf(),
            id == old(self).ops_view().len(),
            appended(old(self).ops_view(), final(self).ops_view()),
            final(self).ops_view()[id as int] matches Op::Cast { op: o, value: x, ty: t, name: _ } && o == op && x == value && t == ty,
            final(self).position() == old(self).position(),
    {
        let t = ty.duplicate();
        let same = match self.value_type(value) {
            Some(vt) => vt.same_as(&ty),
            None => false,
        };
        if same {
            let constant = self.is_constant(value);
            self.record(Op::Cast { op, value, ty, name: String::from_str(name) }, Slot::Value { ty: Some(t), constant })
        } else {
            self.value_op(Op::Cast { op, value, ty, name: String::from_str(name) }, Some(t), &vec![value])
        }
    }

    /// `cond ? then_value : else_value`.
    pub fn select(&mut self, cond: usize, then_value: usize, else_value: usize, name: &str) -> (id: usize)
        requires
            old(self).wf(),
        ensures
            steady(*old(self), *final(self)),
            keeps_settled(*old(self), *final(self)),
            final(self).wf(),
            id == old(self).ops_view().len(),
            appended(old(self).ops_view(), final(self).ops_view()),
            final(self).ops_view()[id as int] matches Op::Select { cond: c, then_value: a, else_value: b, name: _ } && c == cond && a == then_value && b == else_value,
            final(self).position() == old(self).position(),
    {
        let ty = match self.value_type(then_value) {
            Some(t) => Some(t.duplicate()),
            None => None,
        };
        self.value_op(Op::Select { cond, then_value, else_value, name: String::from_str(name) }, ty, &vec![cond, then_value, else_value])
    }

    /// The address of an element: `ptr` indexed by `indices` over elements
    /// of type `ty`.
    pub fn gep(&mut self, ty: LlvmType, ptr: usize, indices: Vec<usize>, name: &str) -> (id: usize)
        requires
            old(self).wf(),
        ensures
            steady(*old(self), *final(self)),
            keeps_settled(*old(self), *final(self)),
            final(self).wf(),
            id == old(self).ops_view().len(),
            appended(old(self).ops_view(), final(self).ops_view()),
            final(self).ops_view()[id as int] matches Op::Gep { ty: t, ptr: p, indices: ix, name: _ } && t == ty && p == ptr && ix@ == indices@,
            final(self).position() == old(self).position(),
    {
        let mut operands = vec![ptr];
        let mut i: usize = 0;
        while i < indices.len()
            decreases indices@.len() - i,
        {
            operands.push(indices[i]);
            i = i + 1;
        }
        self.value_op(Op::Gep { ty, ptr, indices, name: String::from_str(name) }, Some(LlvmType::Ptr), &operands)
    }

    /// Field `index` of a struct value; `None` when `aggregate` is not a
    /// struct with such a field.
    pub fn extract_value(&mut self, aggregate: usize, index: u32, name: &str) -> (r: Option<usize>)
        requires
            old(self).wf(),
        ensures
            steady(*old(self), *final(self)),
            keeps_settled(*old(self), *final(self)),
            final(self).wf(),
            final(self).position() == old(self).position(),
            r is None ==> final(self).ops_view() == old(self).ops_view(),
            r matches Some(id) ==> id == old(self).ops_view().len()
                && appended(old(self).ops_view(), final(self).ops_view())
                && final(self).ops_view()[id as int] is ExtractValue,
            r is Some <==> has_field(*old(self), aggregate, index as int),
            types_kept(*old(self), *final(self)),
            r matches Some(id) ==> (final(self).ops_view()[id as int] matches Op::ExtractValue { aggregate: a, index: i, name: _ } && a == aggregate && i == index)
                && (final(self).value_type_of(id) matches Some(t) && t@ == old(self).value_type_of(aggregate)->0->Struct_0@[index as int]@),
    {
        let ty = match self.value_type(aggregate) {
            Some(LlvmType::Struct(fs)) => {
                let k = index as usize;
                if k < fs.len() {
                    Some(fs[k].duplicate())
                } else {
                    None
                }
            },
            _ => None,
        };
        match ty {
            Some(t) => Some(self.value_op(Op::ExtractValue { aggregate, index, name: String::from_str(name) }, Some(t), &vec![aggregate])),
            None => None,
        }
    }

    /// `aggregate` with field `index` replaced by `value`.
    pub fn insert_value(&mut self, aggregate: usize, value: usize, index: u32, name: &str) -> (id: usize)
        requires
            old(self).wf(),
        ensures
            steady(*old(self), *final(self)),
            keeps_settled(*old(self), *final(self)),
            final(self).wf(),
            id == old(self).ops_view().len(),
            appended(old(self).ops_view(), final(self).ops_view()),
            final(self).ops_view()[id as int] is InsertValue,
            final(self).position() == old(self).position(),
    {
        let ty = match self.value_type(aggregate) {
            Some(t) => Some(t.duplicate()),
            None => None,
        };
        self.value_op(Op::InsertValue { aggregate, value, index, name: String::from_str(name) }, ty, &vec![aggregate, value])
    }

    /// A call of function `function`; its value has the function's result
    /// type, none for a `void` function.
    pub fn call(&mut self, function: usize, args: Vec<usize>, name: &str) -> (id: usize)
        requires
            old(self).wf(),
        ensures
            steady(*old(self), *final(self)),
            keeps_settled(*old(self), *final(self)),
            final(self).wf(),
            id == old(self).ops_view().len(),
            appended(old(self).ops_view(), final(self).ops_view()),
            final(self).ops_view()[id as int] is Call,
            final(self).ops_view()[id as int]->Call_function == function,
            final(self).ops_view()[id as int]->Call_args@ == args@,
            final(self).ops_view()[id as int]->Call_name@ == name@,
            final(self).position() == old(self).position(),
    {
        let ty = match self.signature(function) {
            Some(sig) => match &sig.ret {
                ReturnLayout::Value(t) => Some(t.duplicate()),
                ReturnLayout::Void => None,
            },
            None => None,
        };
        self.instruction(Op::Call { function, args, name: String::from_str(name) }, ty)
    }

    /// A call through the function pointer `callee` of signature `signature`.
    pub fn indirect_call(&mut self, signature: FnSignature, callee: usize, args: Vec<usize>, name: &str) -> (id: usize)
        requires
            old(self).wf(),
        ensures
            steady(*old(self), *final(self)),
            keeps_settled(*old(self), *final(self)),
            final(self).wf(),
            id == old(self).ops_view().len(),
            appended(old(self).ops_view(), final(self).ops_view()),
            final(self).ops_view()[id as int] is IndirectCall,
            final(self).position() == old(self).position(),
    {
        let ty = match &signature.ret {
            ReturnLayout::Value(t) => Some(t.duplicate()),
            ReturnLayout::Void => None,
        };
        self.instruction(Op::IndirectCall { signature, callee, args, name: String::from_str(name) }, ty)
    }

    /// Whether `ptr` is null, as an `i1`.
    pub fn is_null(&mut self, ptr: usize, name: &str) -> (id: usize)
        requires
            old(self).wf(),
        ensures
            steady(*old(self), *final(self)),
            keeps_settled(*old(self), *final(self)),
            final(self).wf(),
            id == old(self).ops_view().len(),
            appended(old(self).ops_view(), final(self).ops_view()),
            final(self).ops_view()[id as int] matches Op::IsNull { ptr: p, name: _ } && p == ptr,
            final(self).position() == old(self).position(),
    {
        self.value_op(Op::IsNull { ptr, name: String::from_str(name) }, Some(LlvmType::I1), &vec![ptr])
    }

    /// A phi node of type `ty` merging `(value, block)` pairs.
    pub fn phi(&mut self, ty: LlvmType, incoming: Vec<(usize, usize)>, name: &str) -> (id: usize)
        requires
            old(self).wf(),
        ensures
            steady(*old(self), *final(self)),
            keeps_settled(*old(self), *final(self)),
            final(self).wf(),
            id == old(self).ops_view().len(),
            appended(old(self).ops_view(), final(self).ops_view()),
            final(self).ops_view()[id as int] is Phi,
            final(self).position() == old(self).position(),
    {
        let t = ty.duplicate();
        self.instruction(Op::Phi { ty, incoming, name: String::from_str(name) }, Some(t))
    }

    /// An unconditional branch.
    pub fn branch(&mut self, target: usize)
        requires
            old(self).wf(),
        ensures
            steady(*old(self), *final(self)),
            keeps_settled(*old(self), *final(self)),
            final(self).wf(),
            !final(self).open_block(),
            final(self).ops_view() == old(self).ops_view().push(Op::Branch { target }),
            final(self).position() == old(self).position(),
            types_kept(*old(self), *final(self)),
    {
        self.terminator(Op::Branch { target });
    }

    /// A conditional branch.
    pub fn cond_branch(&mut self, cond: usize, then_block: usize, else_block: usize)
        requires
            old(self).wf(),
        ensures
            steady(*old(self), *final(self)),
            keeps_settled(*old(self), *final(self)),
            final(self).wf(),
            !final(self).open_block(),
            final(self).ops_view() == old(self).ops_view().push(Op::CondBranch { cond, then_block, else_block }),
            final(self).position() == old(self).position(),
    {
        self.terminator(Op::CondBranch { cond, then_block, else_block });
    }

    /// A return, with a value or (`None`) without.
    pub fn ret(&mut self, value: Option<usize>)
        requires
            old(self).wf(),
        ensures
            steady(*old(self), *final(self)),
            keeps_settled(*old(self), *final(self)),
            final(self).wf(),
            !final(self).open_block(),
            final(self).ops_view() == old(self).ops_view().push(Op::Return { value }),
            final(self).position() == old(self).position(),
    {
        self.terminator(Op::Return { value });
    }

    /// `unreachable`.
    pub fn unreachable(&mut self)
        requires
            old(self).wf(),
        ensures
            steady(*old(self), *final(self)),
            keeps_settled(*old(self), *final(self)),
            final(self).wf(),
            !final(self).open_block(),
            final(self).ops_view() == old(self).ops_view().push(Op::Unreachable),
            final(self).position() == old(self).position(),
    {
        self.terminator(Op::Unreachable);
    }
}

} // verus!
