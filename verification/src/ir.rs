//! The terms that Python values are embedded into: sorts, constants, operators
//! and shared nodes.
use crate::field::{default_field, BitVector, Bits, Cfg, FieldElem, FieldT, FieldV};
use crate::integer::Integer;
use std::rc::Rc;
use vstd::arithmetic::power2::{lemma_pow2_pos, pow2};
use vstd::prelude::*;

verus! {

/// Connectives of any number of Booleans.
#[derive(Debug, Clone, Copy, PartialEq, Eq)]
pub enum BoolNaryOp {
    And,
    Or,
}

/// Operators on any number of bit-vectors of one width.
#[derive(Debug, Clone, Copy, PartialEq, Eq)]
pub enum BvNaryOp {
    Add,
    Mul,
    And,
    Or,
    Xor,
}

/// Operators on two bit-vectors of one width.
#[derive(Debug, Clone, Copy, PartialEq, Eq)]
pub enum BvBinOp {
    Sub,
    Udiv,
    Urem,
    Shl,
    Lshr,
}

/// Operators on one bit-vector.
#[derive(Debug, Clone, Copy, PartialEq, Eq)]
pub enum BvUnOp {
    Neg,
    Not,
}

/// Comparisons of two bit-vectors of one width, read as numbers.
#[derive(Debug, Clone, Copy, PartialEq, Eq)]
pub enum BvBinPred {
    Ult,
    Ule,
    Ugt,
    Uge,
}

/// Operators on any number of field elements.
#[derive(Debug, Clone, Copy, PartialEq, Eq)]
pub enum PfNaryOp {
    Add,
    Mul,
}

/// Operators on one field element.
#[derive(Debug, Clone, Copy, PartialEq, Eq)]
pub enum PfUnOp {
    Neg,
    Recip,
}

/// The sort of a term.
#[derive(Debug, PartialEq, Eq)]
pub enum Sort {
    Bool,
    /// Bit-vectors of a width.
    BitVector(usize),
    Field(FieldT),
    Tuple(Vec<Sort>),
    /// Arrays: the sort of the keys, that of the values, and the size.
    Array(Box<Sort>, Box<Sort>, usize),
    /// A sort that no Python type has, by its number.
    Foreign(usize),
}

/// What a `Sort` is.
pub enum SortView {
    Bool,
    BitVector(nat),
    Field(int),
    Tuple(Seq<SortView>),
    Array(Box<SortView>, Box<SortView>, nat),
    Foreign(nat),
}

pub open spec fn sort_view(s: Sort) -> SortView
    decreases s,
{
    match s {
        Sort::Bool => SortView::Bool,
        Sort::BitVector(w) => SortView::BitVector(w as nat),
        Sort::Field(f) => SortView::Field(f@),
        Sort::Tuple(ss) => SortView::Tuple(sorts_view(ss@)),
        Sort::Array(k, v, n) => SortView::Array(
            Box::new(sort_view(*k)),
            Box::new(sort_view(*v)),
            n as nat,
        ),
        Sort::Foreign(k) => SortView::Foreign(k as nat),
    }
}

pub open spec fn sorts_view(ss: Seq<Sort>) -> Seq<SortView>
    decreases ss,
{
    Seq::new(
        ss.len(),
        |i: int|
            if 0 <= i < ss.len() {
                sort_view(ss[i])
            } else {
                SortView::Bool
            },
    )
}

impl View for Sort {
    type V = SortView;

    open spec fn view(&self) -> SortView {
        sort_view(*self)
    }
}

impl Clone for Sort {
    fn clone(&self) -> (r: Self)
        ensures
            r@ == self@,
        decreases *self,
    {
        match self {
            Sort::Bool => Sort::Bool,
            Sort::BitVector(w) => Sort::BitVector(*w),
            Sort::Field(f) => Sort::Field(f.clone()),
            Sort::Tuple(ss) => {
                let mut out: Vec<Sort> = Vec::new();
                let mut i: usize = 0;
                while i < ss.len()
                    invariant
                        *self == Sort::Tuple(*ss),
                        i <= ss@.len(),
                        out@.len() == i,
                        forall|j: int| 0 <= j < i ==> (#[trigger] out@[j])@ == ss@[j]@,
                    decreases ss@.len() - i,
                {
                    proof {
                        assert(decreases_to!(*self => self->Tuple_0));
                    }
                    out.push(ss[i].clone());
                    i += 1;
                }
                assert(sorts_view(out@) =~= sorts_view(ss@));
                Sort::Tuple(out)
            },
            Sort::Array(k, v, n) => Sort::Array(
                Box::new((**k).clone()),
                Box::new((**v).clone()),
                *n,
            ),
            Sort::Foreign(k) => Sort::Foreign(*k),
        }
    }
}

/// A constant.
#[derive(Debug, PartialEq, Eq)]
pub enum Value {
    Bool(bool),
    Field(FieldV),
    BitVector(BitVector),
    Tuple(Vec<Value>),
    Array(Array),
    /// A constant of a sort that no Python type has, by its number.
    Foreign(usize),
}

/// A constant array: the sort of its keys, the sort of its values, and its
/// values in the order of their keys. It may have more places than keys.
#[derive(Debug, PartialEq, Eq)]
pub struct Array {
    pub key_sort: Sort,
    pub val_sort: Sort,
    pub elems: Vec<Value>,
}

/// What a `Value` is.
pub enum ValueView {
    Bool(bool),
    Field(FieldElem),
    BitVector(Bits),
    Tuple(Seq<ValueView>),
    Array(SortView, SortView, Seq<ValueView>),
    Foreign(nat),
}

pub open spec fn value_view(v: Value) -> ValueView
    decreases v,
{
    match v {
        Value::Bool(b) => ValueView::Bool(b),
        Value::Field(f) => ValueView::Field(f@),
        Value::BitVector(b) => ValueView::BitVector(b@),
        Value::Tuple(vs) => ValueView::Tuple(values_view(vs@)),
        Value::Array(a) => ValueView::Array(a.key_sort@, a.val_sort@, values_view(a.elems@)),
        Value::Foreign(k) => ValueView::Foreign(k as nat),
    }
}

pub open spec fn values_view(vs: Seq<Value>) -> Seq<ValueView>
    decreases vs,
{
    Seq::new(
        vs.len(),
        |i: int|
            if 0 <= i < vs.len() {
                value_view(vs[i])
            } else {
                ValueView::Bool(false)
            },
    )
}

impl View for Value {
    type V = ValueView;

    open spec fn view(&self) -> ValueView {
        value_view(*self)
    }
}

impl Clone for Value {
    fn clone(&self) -> (r: Self)
        ensures
            r@ == self@,
        decreases *self,
    {
        match self {
            Value::Bool(b) => Value::Bool(*b),
            Value::Field(f) => Value::Field(f.clone()),
            Value::BitVector(b) => Value::BitVector(b.clone()),
            Value::Tuple(vs) => Value::Tuple(clone_values(vs)),
            Value::Array(a) => Value::Array(
                Array {
                    key_sort: a.key_sort.clone(),
                    val_sort: a.val_sort.clone(),
                    elems: clone_values(&a.elems),
                },
            ),
            Value::Foreign(k) => Value::Foreign(*k),
        }
    }
}

fn clone_values(vs: &Vec<Value>) -> (r: Vec<Value>)
    ensures
        values_view(r@) == values_view(vs@),
    decreases *vs,
{
    let mut out: Vec<Value> = Vec::new();
    let mut i: usize = 0;
    while i < vs.len()
        invariant
            i <= vs@.len(),
            out@.len() == i,
            forall|j: int| 0 <= j < i ==> (#[trigger] out@[j])@ == vs@[j]@,
        decreases vs@.len() - i,
    {
        out.push(vs[i].clone());
        i += 1;
    }
    assert(values_view(out@) =~= values_view(vs@));
    out
}

/// Whether the sort is made of sorts that Python types have.
pub open spec fn known_sort(s: SortView) -> bool
    decreases s,
{
    match s {
        SortView::Tuple(ss) => known_sorts(ss),
        SortView::Array(k, v, _) => known_sort(*k) && known_sort(*v),
        SortView::Foreign(_) => false,
        _ => true,
    }
}

pub open spec fn known_sorts(ss: Seq<SortView>) -> bool
    decreases ss,
{
    forall|i: int| 0 <= i < ss.len() ==> known_sort(#[trigger] ss[i])
}

/// The constant that a sort starts from: false, zero, or made of these.
pub open spec fn default_value(s: SortView) -> ValueView
    decreases s,
{
    match s {
        SortView::Bool => ValueView::Bool(false),
        SortView::BitVector(w) => ValueView::BitVector(Bits { uint: 0, width: w }),
        SortView::Field(p) => ValueView::Field(FieldElem { value: 0, modulus: p }),
        SortView::Tuple(ss) => ValueView::Tuple(default_values(ss)),
        SortView::Array(k, v, n) => ValueView::Array(
            *k,
            *v,
            Seq::new(n, |i: int| default_value(*v)),
        ),
        SortView::Foreign(k) => ValueView::Foreign(k),
    }
}

pub open spec fn default_values(ss: Seq<SortView>) -> Seq<ValueView>
    decreases ss,
{
    Seq::new(
        ss.len(),
        |i: int|
            if 0 <= i < ss.len() {
                default_value(ss[i])
            } else {
                ValueView::Bool(false)
            },
    )
}

/// The components of a tuple sort that Python types have are such sorts too.
proof fn lemma_known_component(ss: Seq<SortView>, i: int)
    requires
        known_sort(SortView::Tuple(ss)),
        0 <= i < ss.len(),
    ensures
        known_sort(ss[i]),
{
    reveal_with_fuel(known_sort, 2);
    assert(known_sorts(ss));
}

impl Sort {
    /// The constant that the sort starts from.
    pub fn default_value(&self) -> (r: Value)
        requires
            known_sort(self@),
        ensures
            r@ == default_value(self@),
        decreases *self,
    {
        match self {
            Sort::Bool => Value::Bool(false),
            Sort::BitVector(w) => {
                proof {
                    lemma_pow2_pos(*w as nat);
                }
                Value::BitVector(BitVector::new(Integer::from_u64(0), *w))
            },
            Sort::Field(f) => {
                let zero = f.new_v(&Integer::from_u64(0));
                proof {
                    vstd::arithmetic::div_mod::lemma_small_mod(0, f@ as nat);
                }
                Value::Field(zero)
            },
            Sort::Tuple(ss) => {
                let mut out: Vec<Value> = Vec::new();
                let mut i: usize = 0;
                while i < ss.len()
                    invariant
                        *self == Sort::Tuple(*ss),
                        known_sort(self@),
                        i <= ss@.len(),
                        out@.len() == i,
                        forall|j: int|
                            0 <= j < i ==> (#[trigger] out@[j])@ == default_value(ss@[j]@),
                    decreases ss@.len() - i,
                {
                    proof {
                        assert(decreases_to!(*self => self->Tuple_0));
                        lemma_known_component(sorts_view(ss@), i as int);
                    }
                    out.push(ss[i].default_value());
                    i += 1;
                }
                assert(values_view(out@) =~= default_values(sorts_view(ss@)));
                Value::Tuple(out)
            },
            Sort::Array(k, v, n) => {
                let val = v.default_value();
                let mut elems: Vec<Value> = Vec::new();
                let mut i: usize = 0;
                while i < *n
                    invariant
                        i <= *n,
                        elems@.len() == i,
                        val@ == default_value(v@),
                        forall|j: int| 0 <= j < i ==> (#[trigger] elems@[j])@ == val@,
                    decreases *n - i,
                {
                    elems.push(val.clone());
                    i += 1;
                }
                assert(values_view(elems@) =~= Seq::new(
                    *n as nat,
                    |i: int| default_value(v@),
                ));
                Value::Array(
                    Array { key_sort: (**k).clone(), val_sort: (**v).clone(), elems },
                )
            },
            Sort::Foreign(k) => Value::Foreign(*k),
        }
    }
}

/// The operator at a node of a term.
#[derive(Debug, PartialEq, Eq)]
pub enum Op {
    /// A constant.
    Const(Value),
    /// A variable with its name and sort.
    Var(String, Sort),
    /// The second or the third argument, as the first is true or false.
    Ite,
    Eq,
    Not,
    BoolNaryOp(BoolNaryOp),
    BvNaryOp(BvNaryOp),
    BvBinOp(BvBinOp),
    BvUnOp(BvUnOp),
    BvBinPred(BvBinPred),
    /// One bit of a bit-vector, counted from the least significant.
    BvBit(usize),
    /// Bit-vectors one after another, the most significant first.
    BvConcat,
    /// A Boolean as a bit-vector of width one.
    BoolToBv,
    PfNaryOp(PfNaryOp),
    PfUnOp(PfUnOp),
    /// A field element as a bit-vector of the given width.
    PfToBv(usize),
    /// A bit-vector as an element of the given field.
    UbvToPf(FieldT),
    /// An array's value at a key.
    Select,
    /// An array with the value at a key replaced.
    Store,
    /// As `Store` where the last argument is true, else the array itself.
    CStore,
    /// An array of the given key sort and size with one value throughout.
    Fill(Sort, usize),
    /// An array of the given key and value sorts, with the arguments in it.
    Array(Sort, Sort),
    Tuple,
    /// A component of a tuple.
    Field(usize),
    /// A tuple with a component replaced.
    Update(usize),
    /// An operator that is not built here, by its number, with the sort of
    /// what it gives.
    Foreign(usize, Sort),
}

/// What an `Op` is.
pub enum OpView {
    Const(ValueView),
    Var(Seq<char>, SortView),
    Ite,
    Eq,
    Not,
    BoolNaryOp(BoolNaryOp),
    BvNaryOp(BvNaryOp),
    BvBinOp(BvBinOp),
    BvUnOp(BvUnOp),
    BvBinPred(BvBinPred),
    BvBit(nat),
    BvConcat,
    BoolToBv,
    PfNaryOp(PfNaryOp),
    PfUnOp(PfUnOp),
    PfToBv(nat),
    UbvToPf(int),
    Select,
    Store,
    CStore,
    Fill(SortView, nat),
    Array(SortView, SortView),
    Tuple,
    Field(nat),
    Update(nat),
    Foreign(nat, SortView),
}

impl View for Op {
    type V = OpView;

    open spec fn view(&self) -> OpView {
        match *self {
            Op::Const(v) => OpView::Const(v@),
            Op::Var(n, s) => OpView::Var(n@, s@),
            Op::Ite => OpView::Ite,
            Op::Eq => OpView::Eq,
            Op::Not => OpView::Not,
            Op::BoolNaryOp(o) => OpView::BoolNaryOp(o),
            Op::BvNaryOp(o) => OpView::BvNaryOp(o),
            Op::BvBinOp(o) => OpView::BvBinOp(o),
            Op::BvUnOp(o) => OpView::BvUnOp(o),
            Op::BvBinPred(o) => OpView::BvBinPred(o),
            Op::BvBit(i) => OpView::BvBit(i as nat),
            Op::BvConcat => OpView::BvConcat,
            Op::BoolToBv => OpView::BoolToBv,
            Op::PfNaryOp(o) => OpView::PfNaryOp(o),
            Op::PfUnOp(o) => OpView::PfUnOp(o),
            Op::PfToBv(n) => OpView::PfToBv(n as nat),
            Op::UbvToPf(f) => OpView::UbvToPf(f@),
            Op::Select => OpView::Select,
            Op::Store => OpView::Store,
            Op::CStore => OpView::CStore,
            Op::Fill(s, n) => OpView::Fill(s@, n as nat),
            Op::Array(k, v) => OpView::Array(k@, v@),
            Op::Tuple => OpView::Tuple,
            Op::Field(i) => OpView::Field(i as nat),
            Op::Update(i) => OpView::Update(i as nat),
            Op::Foreign(k, s) => OpView::Foreign(k as nat, s@),
        }
    }
}

/// A term: an operator on terms. Clones share the node.
#[derive(Debug, PartialEq, Eq)]
pub struct Term {
    node: Rc<TermNode>,
}

#[derive(Debug, PartialEq, Eq)]
struct TermNode {
    op: Op,
    cs: Vec<Term>,
}

/// What a `Term` is.
pub struct TermView {
    pub op: OpView,
    pub cs: Seq<TermView>,
}

pub closed spec fn term_view(t: Term) -> TermView
    decreases t,
{
    TermView { op: t.node.op@, cs: terms_view_rec(t.node.cs@) }
}

spec fn terms_view_rec(ts: Seq<Term>) -> Seq<TermView>
    decreases ts,
{
    Seq::new(
        ts.len(),
        |i: int|
            if 0 <= i < ts.len() {
                term_view(ts[i])
            } else {
                arbitrary()
            },
    )
}

impl View for Term {
    type V = TermView;

    open spec fn view(&self) -> TermView {
        term_view(*self)
    }
}

/// The views of terms.
pub open spec fn terms_view(ts: Seq<Term>) -> Seq<TermView> {
    Seq::new(ts.len(), |i: int| ts[i]@)
}

/// An operator on terms.
pub open spec fn node(op: OpView, cs: Seq<TermView>) -> TermView {
    TermView { op, cs }
}

/// An operator on nothing.
pub open spec fn leaf(op: OpView) -> TermView {
    node(op, Seq::empty())
}

/// An operator on one term.
pub open spec fn node1(op: OpView, a: TermView) -> TermView {
    node(op, seq![a])
}

/// An operator on two terms.
pub open spec fn node2(op: OpView, a: TermView, b: TermView) -> TermView {
    node(op, seq![a, b])
}

/// An operator on three terms.
pub open spec fn node3(op: OpView, a: TermView, b: TermView, c: TermView) -> TermView {
    node(op, seq![a, b, c])
}

/// An operator on four terms.
pub open spec fn node4(
    op: OpView,
    a: TermView,
    b: TermView,
    c: TermView,
    d: TermView,
) -> TermView {
    node(op, seq![a, b, c, d])
}

/// `Rc::clone`: another pointer to the same allocation, and so to an equal
/// node.
#[verifier::external_body]
fn share(node: &Rc<TermNode>) -> (r: Rc<TermNode>)
    ensures
        r == *node,
{
    Rc::clone(node)
}

impl Clone for Term {
    fn clone(&self) -> (r: Self)
        ensures
            r == *self,
    {
        Term { node: share(&self.node) }
    }
}

impl Term {
    /// The operator at the top.
    pub fn op(&self) -> (r: &Op)
        ensures
            r@ == self@.op,
    {
        &self.node.op
    }

    /// The arguments of the operator at the top.
    pub fn cs(&self) -> (r: &Vec<Term>)
        ensures
            terms_view(r@) == self@.cs,
    {
        assert(terms_view(self.node.cs@) =~= terms_view_rec(self.node.cs@));
        &self.node.cs
    }
}

/// The term with the given operator and arguments.
pub fn term(op: Op, cs: Vec<Term>) -> (r: Term)
    ensures
        r@ == node(op@, terms_view(cs@)),
{
    assert(terms_view(cs@) =~= terms_view_rec(cs@));
    Term { node: Rc::new(TermNode { op, cs }) }
}

/// The term with the given operator and no arguments.
pub fn leaf_term(op: Op) -> (r: Term)
    ensures
        r@ == leaf(op@),
{
    let cs: Vec<Term> = Vec::new();
    assert(terms_view(cs@) =~= Seq::empty());
    term(op, cs)
}

/// The term with the given operator and argument.
pub fn term1(op: Op, a: Term) -> (r: Term)
    ensures
        r@ == node1(op@, a@),
{
    let cs: Vec<Term> = vec![a];
    assert(terms_view(cs@) =~= seq![a@]);
    term(op, cs)
}

/// The term with the given operator and two arguments.
pub fn term2(op: Op, a: Term, b: Term) -> (r: Term)
    ensures
        r@ == node2(op@, a@, b@),
{
    let cs: Vec<Term> = vec![a, b];
    assert(terms_view(cs@) =~= seq![a@, b@]);
    term(op, cs)
}

/// The term with the given operator and three arguments.
pub fn term3(op: Op, a: Term, b: Term, c: Term) -> (r: Term)
    ensures
        r@ == node3(op@, a@, b@, c@),
{
    let cs: Vec<Term> = vec![a, b, c];
    assert(terms_view(cs@) =~= seq![a@, b@, c@]);
    term(op, cs)
}

/// The term with the given operator and four arguments.
pub fn term4(op: Op, a: Term, b: Term, c: Term, d: Term) -> (r: Term)
    ensures
        r@ == node4(op@, a@, b@, c@, d@),
{
    let cs: Vec<Term> = vec![a, b, c, d];
    assert(terms_view(cs@) =~= seq![a@, b@, c@, d@]);
    term(op, cs)
}

/// The constant field element that `i` stands for.
pub open spec fn pf_lit(i: int, p: int) -> TermView {
    leaf(OpView::Const(ValueView::Field(FieldElem { value: i % p, modulus: p })))
}

/// The constant bit-vector that holds `i`.
pub open spec fn bv_const(i: int, width: nat) -> TermView {
    leaf(OpView::Const(ValueView::BitVector(Bits { uint: i, width })))
}

fn pf_val(i: &Integer, cfg: &Cfg) -> (r: Value)
    ensures
        r@ == ValueView::Field(FieldElem { value: i@ % cfg@, modulus: cfg@ }),
        cfg@ >= 2,
{
    Value::Field(cfg.field().new_v(i))
}

/// The constant field element that `i` stands for.
pub fn pf_lit_ir(i: &Integer, cfg: &Cfg) -> (r: Term)
    ensures
        r@ == pf_lit(i@, cfg@),
        cfg@ >= 2,
{
    leaf_term(Op::Const(pf_val(i, cfg)))
}

/// The constant field element that the index `i` stands for.
pub fn pf_index(i: usize, cfg: &Cfg) -> (r: Term)
    ensures
        r@ == pf_lit(i as int, cfg@),
{
    pf_lit_ir(&Integer::from_u64(i as u64), cfg)
}

/// The constant bit-vector that holds `v`.
pub fn bv_lit(v: Integer, width: usize) -> (r: Term)
    requires
        0 <= v@ < pow2(width as nat),
    ensures
        r@ == bv_const(v@, width as nat),
{
    leaf_term(Op::Const(Value::BitVector(BitVector::new(v, width))))
}

/// The sort of the configured field's elements.
pub fn default_field_sort(cfg: &Cfg) -> (r: Sort)
    ensures
        r@ == SortView::Field(cfg@),
{
    Sort::Field(default_field(cfg))
}

} // verus!
