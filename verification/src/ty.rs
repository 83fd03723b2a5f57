//! The types of Python values.
use crate::field::Cfg;
use crate::integer::{decimal, radix_text};
use crate::ir::{
    default_field_sort, default_value, known_sort, known_sorts, leaf, leaf_term, sorts_view, Op,
    OpView, Sort, SortView, Term,
};
use crate::names::{
    by_name, find_name, lemma_by_name, name_before, name_index, name_position, names_ordered,
    same_text,
};
use vstd::prelude::*;

verus! {

/// A type.
pub enum Ty {
    /// Elements of the configured field.
    Field,
    Bool,
    /// Unsigned integers of a width.
    Uint(usize),
    /// A data class: its name and its fields.
    DataClass(String, FieldList),
    /// Arrays of a size, and the type of their values.
    Array(usize, Box<Ty>),
    /// Mutable arrays of field elements, of a size.
    MutArray(usize),
}

/// The fields of a data class in the order of their names.
#[derive(Debug)]
pub struct FieldList {
    list: Vec<(String, Ty)>,
}

/// What a `Ty` is.
pub enum TyView {
    Field,
    Bool,
    Uint(nat),
    DataClass(Seq<char>, Seq<(Seq<char>, TyView)>),
    Array(nat, Box<TyView>),
    MutArray(nat),
}

pub open spec fn ty_view(t: Ty) -> TyView
    decreases t,
{
    match t {
        Ty::Field => TyView::Field,
        Ty::Bool => TyView::Bool,
        Ty::Uint(w) => TyView::Uint(w as nat),
        Ty::DataClass(n, fs) => TyView::DataClass(n@, field_list_view(fs)),
        Ty::Array(n, b) => TyView::Array(n as nat, Box::new(ty_view(*b))),
        Ty::MutArray(n) => TyView::MutArray(n as nat),
    }
}

pub closed spec fn field_list_view(fs: FieldList) -> Seq<(Seq<char>, TyView)>
    decreases fs,
{
    named_tys_rec(fs.list@)
}

spec fn named_tys_rec(fs: Seq<(String, Ty)>) -> Seq<(Seq<char>, TyView)>
    decreases fs,
{
    Seq::new(
        fs.len(),
        |i: int|
            if 0 <= i < fs.len() {
                (fs[i].0@, ty_view(fs[i].1))
            } else {
                arbitrary()
            },
    )
}

impl View for Ty {
    type V = TyView;

    open spec fn view(&self) -> TyView {
        ty_view(*self)
    }
}

impl View for FieldList {
    type V = Seq<(Seq<char>, TyView)>;

    open spec fn view(&self) -> Seq<(Seq<char>, TyView)> {
        field_list_view(*self)
    }
}

/// The views of named types.
pub open spec fn named_tys(fs: Seq<(String, Ty)>) -> Seq<(Seq<char>, TyView)> {
    Seq::new(fs.len(), |i: int| (fs[i].0@, fs[i].1@))
}

proof fn lemma_field_list_view(fs: FieldList)
    ensures
        fs@ == named_tys(fs.list@),
{
    assert(named_tys_rec(fs.list@) =~= named_tys(fs.list@));
}

impl Clone for Ty {
    fn clone(&self) -> (r: Self)
        ensures
            r@ == self@,
        decreases *self,
    {
        match self {
            Ty::Field => Ty::Field,
            Ty::Bool => Ty::Bool,
            Ty::Uint(w) => Ty::Uint(*w),
            Ty::DataClass(n, fs) => Ty::DataClass(n.clone(), fs.clone()),
            Ty::Array(n, b) => Ty::Array(*n, Box::new((**b).clone())),
            Ty::MutArray(n) => Ty::MutArray(*n),
        }
    }
}

impl Clone for FieldList {
    fn clone(&self) -> (r: Self)
        ensures
            r@ == self@,
        decreases *self,
    {
        proof {
            use_type_invariant(self);
            lemma_field_list_view(*self);
        }
        let mut list: Vec<(String, Ty)> = Vec::new();
        let mut i: usize = 0;
        while i < self.list.len()
            invariant
                i <= self.list@.len(),
                list@.len() == i,
                forall|j: int|
                    0 <= j < i ==> (#[trigger] list@[j]).0@ == self.list@[j].0@ && list@[j].1@
                        == self.list@[j].1@,
            decreases self.list@.len() - i,
        {
            let field = &self.list[i];
            list.push((field.0.clone(), field.1.clone()));
            i += 1;
        }
        assert(named_tys(list@) =~= named_tys(self.list@));
        let r = FieldList { list };
        proof {
            lemma_field_list_view(r);
        }
        r
    }
}

impl PartialEq for Ty {
    fn eq(&self, other: &Self) -> (r: bool)
        decreases *self,
    {
        match (self, other) {
            (Ty::Field, Ty::Field) => true,
            (Ty::Bool, Ty::Bool) => true,
            (Ty::Uint(w), Ty::Uint(x)) => *w == *x,
            (Ty::DataClass(m, fs), Ty::DataClass(n, gs)) => *m == *n && fs.eq(gs),
            (Ty::Array(m, b), Ty::Array(n, c)) => *m == *n && (**b).eq(&**c),
            (Ty::MutArray(m), Ty::MutArray(n)) => *m == *n,
            _ => false,
        }
    }
}

impl vstd::std_specs::cmp::PartialEqSpecImpl for Ty {
    open spec fn obeys_eq_spec() -> bool {
        true
    }

    open spec fn eq_spec(&self, other: &Self) -> bool {
        self@ == other@
    }
}

impl Eq for Ty {
}

impl PartialEq for FieldList {
    fn eq(&self, other: &Self) -> (r: bool)
        decreases *self,
    {
        proof {
            lemma_field_list_view(*self);
            lemma_field_list_view(*other);
        }
        let n = self.list.len();
        if n != other.list.len() {
            assert(self@.len() != other@.len());
            return false;
        }
        let mut i: usize = 0;
        while i < n
            invariant
                i <= n,
                n == self.list@.len(),
                n == other.list@.len(),
                self@ == named_tys(self.list@),
                other@ == named_tys(other.list@),
                forall|j: int| 0 <= j < i ==> #[trigger] self@[j] == other@[j],
            decreases n - i,
        {
            let f = &self.list[i];
            let g = &other.list[i];
            if f.0 != g.0 || !f.1.eq(&g.1) {
                assert(self@[i as int] != other@[i as int]);
                return false;
            }
            i += 1;
        }
        assert(self@ =~= other@);
        true
    }
}

impl vstd::std_specs::cmp::PartialEqSpecImpl for FieldList {
    open spec fn obeys_eq_spec() -> bool {
        true
    }

    open spec fn eq_spec(&self, other: &Self) -> bool {
        self@ == other@
    }
}

impl Eq for FieldList {
}

/// `std::fmt::Formatter`, which debug text is written to.
#[verifier::external_type_specification]
#[verifier::external_body]
pub struct ExFormatter<'a>(std::fmt::Formatter<'a>);

/// `std::fmt::Error`, which a formatter fails with.
#[verifier::external_type_specification]
#[verifier::external_body]
pub struct ExFmtError(std::fmt::Error);

/// `std::fmt::Formatter::write_str`: hands the text to what the formatter
/// writes to. Whether that takes it is not known here, so nothing is stated of
/// the result.
#[verifier::external_body]
fn write_text(f: &mut std::fmt::Formatter<'_>, text: &str) -> (r: Result<(), std::fmt::Error>) {
    f.write_str(text)
}

impl std::fmt::Debug for Ty {
    /// Writes the type as text.
    fn fmt(&self, f: &mut std::fmt::Formatter<'_>) -> (r: Result<(), std::fmt::Error>) {
        let text = self.to_string();
        write_text(f, text.as_str())
    }
}

impl FieldList {
    /// The fields stand in the order of their names.
    #[verifier::type_invariant]
    spec fn well_formed(self) -> bool {
        names_ordered(named_tys(self.list@))
    }

    /// The list of the given fields, put in the order of their names.
    pub fn new(fields: Vec<(String, Ty)>) -> (r: Self)
        ensures
            r@ == by_name(named_tys(fields@)),
            names_ordered(r@),
    {
        let ghost given = named_tys(fields@);
        let mut list: Vec<(String, Ty)> = Vec::new();
        proof {
            assert(named_tys(list@) =~= by_name(given.take(0)));
        }
        for field in it: fields
            invariant
                given == named_tys(it.seq()),
                named_tys(list@) == by_name(given.take(it.index())),
        {
            let ghost i = it.index();
            let ghost rest = named_tys(list@);
            let k = insertion_point(&list, field.0.as_str());
            list.insert(k, field);
            proof {
                assert(given.take(i + 1).drop_last() =~= given.take(i));
                assert(named_tys(list@) =~= rest.insert(k as int, (field.0@, field.1@)));
            }
        }
        assert(given.take(given.len() as int) =~= given);
        proof {
            lemma_by_name(given);
        }
        let r = FieldList { list };
        proof {
            lemma_field_list_view(r);
        }
        r
    }

    /// The number of fields.
    pub fn len(&self) -> (r: usize)
        ensures
            r == self@.len(),
    {
        proof {
            lemma_field_list_view(*self);
        }
        self.list.len()
    }

    /// The name and the type of a field.
    pub fn get(&self, i: usize) -> (r: (&str, &Ty))
        requires
            i < self@.len(),
        ensures
            r.0@ == self@[i as int].0,
            r.1@ == self@[i as int].1,
    {
        proof {
            lemma_field_list_view(*self);
        }
        let field = &self.list[i];
        (field.0.as_str(), &field.1)
    }

    /// The place and the type of the first field with the given name.
    pub fn search(&self, key: &str) -> (r: Option<(usize, &Ty)>)
        ensures
            match r {
                Some((i, ty)) => name_index(self@, key@) == Some(i as int) && i < self@.len()
                    && ty@ == self@[i as int].1,
                None => name_index(self@, key@) is None,
            },
    {
        proof {
            lemma_field_list_view(*self);
        }
        let mut i: usize = 0;
        while i < self.list.len()
            invariant
                i <= self.list@.len(),
                self@ == named_tys(self.list@),
                name_index(self@, key@) == find_name(self@, key@, i as int),
            decreases self.list@.len() - i,
        {
            if same_text(self.list[i].0.as_str(), key) {
                return Some((i, &self.list[i].1));
            }
            i += 1;
        }
        None
    }
}

/// Where a field with the given name belongs in an ordered list.
fn insertion_point(list: &Vec<(String, Ty)>, name: &str) -> (k: usize)
    ensures
        k == name_position(named_tys(list@), name@),
        k <= list@.len(),
{
    let ghost fs = named_tys(list@);
    let mut k: usize = 0;
    assert(fs.skip(0) =~= fs);
    while k < list.len() && !name_before(name, list[k].0.as_str())
        invariant
            k <= list@.len(),
            fs == named_tys(list@),
            name_position(fs, name@) == k + name_position(fs.skip(k as int), name@),
        decreases list@.len() - k,
    {
        assert(fs.skip(k as int).drop_first() =~= fs.skip(k + 1));
        k += 1;
    }
    k
}

/// `n` in decimal digits.
pub open spec fn decimal_text(n: nat) -> Seq<char> {
    radix_text(n, 10)
}

/// A type as it is shown, with `dims` after it. The sizes of nested arrays
/// follow the innermost type, the outermost size first.
pub open spec fn shown(t: TyView, dims: Seq<char>) -> Seq<char>
    decreases t, 0nat,
{
    match t {
        TyView::Field => "field"@ + dims,
        TyView::Bool => "bool"@ + dims,
        TyView::Uint(w) => "s"@ + decimal_text(w) + dims,
        TyView::DataClass(n, fs) => if fs.len() == 0 {
            n + dims
        } else {
            n + " { "@ + shown_fields(fs, fs.len()) + " }"@ + dims
        },
        TyView::Array(n, b) => shown(*b, dims + "["@ + decimal_text(n) + "]"@),
        TyView::MutArray(n) => "MutArray("@ + decimal_text(n) + ")"@ + dims,
    }
}

/// The first `n` fields as they are shown, with commas between.
pub open spec fn shown_fields(fs: Seq<(Seq<char>, TyView)>, n: nat) -> Seq<char>
    decreases fs, n,
{
    if n == 0 || n > fs.len() {
        Seq::empty()
    } else {
        let before = if n == 1 {
            Seq::empty()
        } else {
            shown_fields(fs, (n - 1) as nat) + ", "@
        };
        before + fs[n - 1].0 + ": "@ + shown(fs[n - 1].1, Seq::empty())
    }
}

/// A type as it is shown.
pub open spec fn ty_text(t: TyView) -> Seq<char> {
    shown(t, Seq::empty())
}

/// The sort that values of a type are terms of, where field elements live in
/// the field of modulus `p`.
pub open spec fn ty_sort(t: TyView, p: int) -> SortView
    decreases t,
{
    match t {
        TyView::Field => SortView::Field(p),
        TyView::Bool => SortView::Bool,
        TyView::Uint(w) => SortView::BitVector(w),
        TyView::DataClass(_, fs) => SortView::Tuple(field_sorts(fs, p)),
        TyView::Array(n, b) => SortView::Array(
            Box::new(SortView::Field(p)),
            Box::new(ty_sort(*b, p)),
            n,
        ),
        TyView::MutArray(n) => SortView::Array(
            Box::new(SortView::Field(p)),
            Box::new(SortView::Field(p)),
            n,
        ),
    }
}

pub open spec fn field_sorts(fs: Seq<(Seq<char>, TyView)>, p: int) -> Seq<SortView>
    decreases fs,
{
    Seq::new(
        fs.len(),
        |i: int|
            if 0 <= i < fs.len() {
                ty_sort(fs[i].1, p)
            } else {
                SortView::Bool
            },
    )
}

/// The sort of a type is made of sorts that Python types have.
pub proof fn lemma_ty_sort_known(t: TyView, p: int)
    ensures
        known_sort(ty_sort(t, p)),
    decreases t,
{
    reveal_with_fuel(known_sort, 2);
    match t {
        TyView::DataClass(_, fs) => {
            let ss = field_sorts(fs, p);
            assert forall|i: int| 0 <= i < ss.len() implies known_sort(#[trigger] ss[i]) by {
                lemma_ty_sort_known(fs[i].1, p);
            }
            assert(known_sorts(ss));
        },
        TyView::Array(_, b) => {
            lemma_ty_sort_known(*b, p);
        },
        _ => {},
    }
}

impl Ty {
    /// The type as text.
    pub fn to_string(&self) -> (r: String)
        ensures
            r@ == ty_text(self@),
    {
        self.show(String::new())
    }

    fn show(&self, dims: String) -> (r: String)
        ensures
            r@ == shown(self@, dims@),
        decreases *self,
    {
        match self {
            Ty::Field => {
                let mut s = "field".to_owned();
                s.append(dims.as_str());
                s
            },
            Ty::Bool => {
                let mut s = "bool".to_owned();
                s.append(dims.as_str());
                s
            },
            Ty::Uint(w) => {
                let mut s = "s".to_owned();
                s.append(decimal(*w).as_str());
                s.append(dims.as_str());
                s
            },
            Ty::DataClass(n, fs) => {
                let mut s = n.clone();
                if fs.list.len() > 0 {
                    s.append(" { ");
                    s.append(fs.show().as_str());
                    s.append(" }");
                }
                s.append(dims.as_str());
                proof {
                    lemma_field_list_view(*fs);
                }
                s
            },
            Ty::Array(n, b) => {
                let mut dims = dims;
                dims.append("[");
                dims.append(decimal(*n).as_str());
                dims.append("]");
                b.show(dims)
            },
            Ty::MutArray(n) => {
                let mut s = "MutArray(".to_owned();
                s.append(decimal(*n).as_str());
                s.append(")");
                s.append(dims.as_str());
                s
            },
        }
    }

    /// The sort that values of the type are terms of.
    pub fn sort(&self, cfg: &Cfg) -> (r: Sort)
        ensures
            r@ == ty_sort(self@, cfg@),
        decreases *self,
    {
        match self {
            Ty::Field => default_field_sort(cfg),
            Ty::Bool => Sort::Bool,
            Ty::Uint(w) => Sort::BitVector(*w),
            Ty::DataClass(_, fs) => {
                let mut ss: Vec<Sort> = Vec::new();
                let mut i: usize = 0;
                proof {
                    lemma_field_list_view(*fs);
                }
                while i < fs.list.len()
                    invariant
                        *self matches Ty::DataClass(_, gs) && gs == *fs,
                        fs@ == named_tys(fs.list@),
                        i <= fs.list@.len(),
                        ss@.len() == i,
                        forall|j: int|
                            0 <= j < i ==> (#[trigger] ss@[j])@ == ty_sort(fs@[j].1, cfg@),
                    decreases fs.list@.len() - i,
                {
                    proof {
                        assert(decreases_to!(*self => self->DataClass_1));
                        assert(decreases_to!(fs.list@ => fs.list@[i as int]));
                    }
                    ss.push(fs.list[i].1.sort(cfg));
                    i += 1;
                }
                assert(sorts_view(ss@) =~= field_sorts(fs@, cfg@));
                Sort::Tuple(ss)
            },
            Ty::Array(n, b) => Sort::Array(
                Box::new(default_field_sort(cfg)),
                Box::new(b.sort(cfg)),
                *n,
            ),
            Ty::MutArray(n) => Sort::Array(
                Box::new(default_field_sort(cfg)),
                Box::new(default_field_sort(cfg)),
                *n,
            ),
        }
    }

    /// The constant term that the type starts from.
    pub fn default_ir_term(&self, cfg: &Cfg) -> (r: Term)
        ensures
            r@ == leaf(OpView::Const(default_value(ty_sort(self@, cfg@)))),
    {
        proof {
            lemma_ty_sort_known(self@, cfg@);
        }
        leaf_term(Op::Const(self.sort(cfg).default_value()))
    }

    /// New class type, sorting the keys.
    pub fn new_class(name: String, fields: Vec<(String, Ty)>) -> (r: Self)
        ensures
            r@ == TyView::DataClass(name@, by_name(named_tys(fields@))),
    {
        Ty::DataClass(name, FieldList::new(fields))
    }

    /// Array value type
    pub fn array_val_ty(&self) -> (r: &Self)
        requires
            self@ is Array,
        ensures
            r@ == *self@->Array_1,
    {
        match self {
            Ty::Array(_, b) => b,
            _ => unreached(),
        }
    }
}

impl FieldList {
    fn show(&self) -> (r: String)
        ensures
            r@ == shown_fields(self@, self@.len()),
        decreases *self,
    {
        let mut s = String::new();
        let mut i: usize = 0;
        proof {
            lemma_field_list_view(*self);
        }
        while i < self.list.len()
            invariant
                self@ == named_tys(self.list@),
                i <= self.list@.len(),
                s@ == shown_fields(self@, i as nat),
            decreases self.list@.len() - i,
        {
            if i > 0 {
                s.append(", ");
            }
            s.append(self.list[i].0.as_str());
            s.append(": ");
            s.append(self.list[i].1.show(String::new()).as_str());
            i += 1;
        }
        s
    }
}

} // verus!
