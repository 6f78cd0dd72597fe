//! Signatures of classes, fields and methods: the typed form of the binary
//! names and descriptor strings stored in the constant pool, including the
//! descriptor grammar (primitive letter codes, `L<name>;` for scalar
//! references, a leading `[` for each array dimension).

use vstd::prelude::*;
use vstd::std_specs::iter::IteratorSpec;

verus! {

/// A field or component type.
#[derive(Debug)]
pub enum Type {
    Byte,
    Char,
    Double,
    Float,
    Int,
    Long,
    Short,
    Boolean,
    Reference(Class),
}

/// A class signature: a scalar class named by its binary name, or an array
/// of a component type.
#[derive(Debug)]
pub enum Class {
    Scalar(String),
    Array(Box<Type>),
}

/// A field signature: its unqualified name and its type.
#[derive(Debug)]
pub struct Field {
    pub name: String,
    pub ty: Type,
}

/// A method signature: its unqualified name, its parameter types and its
/// return type (`None` for void).
#[derive(Debug)]
pub struct Method {
    pub name: String,
    pub params: Vec<Type>,
    pub return_ty: Option<Type>,
}

pub enum SpecType {
    Byte,
    Char,
    Double,
    Float,
    Int,
    Long,
    Short,
    Boolean,
    Reference(SpecClass),
}

pub enum SpecClass {
    Scalar(Seq<char>),
    Array(Box<SpecType>),
}

pub struct SpecField {
    pub name: Seq<char>,
    pub ty: SpecType,
}

pub struct SpecMethod {
    pub name: Seq<char>,
    pub params: Seq<SpecType>,
    pub return_ty: Option<SpecType>,
}

pub open spec fn view_type(t: Type) -> SpecType
    decreases t,
{
    match t {
        Type::Byte => SpecType::Byte,
        Type::Char => SpecType::Char,
        Type::Double => SpecType::Double,
        Type::Float => SpecType::Float,
        Type::Int => SpecType::Int,
        Type::Long => SpecType::Long,
        Type::Short => SpecType::Short,
        Type::Boolean => SpecType::Boolean,
        Type::Reference(c) => SpecType::Reference(view_class(c)),
    }
}

pub open spec fn view_class(c: Class) -> SpecClass
    decreases c,
{
    match c {
        Class::Scalar(n) => SpecClass::Scalar(n@),
        Class::Array(t) => SpecClass::Array(Box::new(view_type(*t))),
    }
}

pub open spec fn view_type_seq(s: Seq<Type>) -> Seq<SpecType>
    decreases s,
{
    if s.len() == 0 {
        Seq::empty()
    } else {
        view_type_seq(s.drop_last()).push(view_type(s.last()))
    }
}

pub open spec fn view_field(f: Field) -> SpecField {
    SpecField { name: f.name@, ty: view_type(f.ty) }
}

pub open spec fn view_method(m: Method) -> SpecMethod {
    SpecMethod {
        name: m.name@,
        params: view_type_seq(m.params@),
        return_ty: match m.return_ty {
            Option::None => None,
            Option::Some(t) => Some(view_type(t)),
        },
    }
}

/// The structural size of a class signature, used as a recursion measure.
pub open spec fn class_size(c: SpecClass) -> nat
    decreases c,
{
    match c {
        SpecClass::Scalar(_) => 1,
        SpecClass::Array(t) => 1 + type_size(*t),
    }
}

pub open spec fn type_size(t: SpecType) -> nat
    decreases t,
{
    match t {
        SpecType::Reference(c) => 1 + class_size(c),
        _ => 1,
    }
}

/// Parses one field type of the descriptor grammar starting at `i`:
/// a primitive letter, `L<name>;`, or `[` followed by a component type.
pub open spec fn sp_field_type(s: Seq<char>, i: int) -> Option<(SpecType, int)>
    decreases s.len() - i,
{
    if i < 0 || i >= s.len() {
        None
    } else if s[i] == 'B' {
        Some((SpecType::Byte, i + 1))
    } else if s[i] == 'C' {
        Some((SpecType::Char, i + 1))
    } else if s[i] == 'D' {
        Some((SpecType::Double, i + 1))
    } else if s[i] == 'F' {
        Some((SpecType::Float, i + 1))
    } else if s[i] == 'I' {
        Some((SpecType::Int, i + 1))
    } else if s[i] == 'J' {
        Some((SpecType::Long, i + 1))
    } else if s[i] == 'S' {
        Some((SpecType::Short, i + 1))
    } else if s[i] == 'Z' {
        Some((SpecType::Boolean, i + 1))
    } else if s[i] == 'L' {
        match sp_find_semicolon(s, i + 1) {
            None => None,
            Some(j) => Some(
                (SpecType::Reference(SpecClass::Scalar(s.subrange(i + 1, j))), j + 1),
            ),
        }
    } else if s[i] == '[' {
        match sp_field_type(s, i + 1) {
            None => None,
            Some((t, j)) => Some((SpecType::Reference(SpecClass::Array(Box::new(t))), j)),
        }
    } else {
        None
    }
}

/// The position of the first `;` at or after `i`.
pub open spec fn sp_find_semicolon(s: Seq<char>, i: int) -> Option<int>
    decreases s.len() - i,
{
    if i < 0 || i >= s.len() {
        None
    } else if s[i] == ';' {
        Some(i)
    } else {
        sp_find_semicolon(s, i + 1)
    }
}

/// The class signature written in a `Class` constant: a binary name, or an
/// array descriptor when the name begins with `[`. The whole string must be
/// consumed.
pub open spec fn sp_class_sig(s: Seq<char>) -> Option<SpecClass> {
    if s.len() > 0 && s[0] == '[' {
        match sp_field_type(s, 1) {
            None => None,
            Some((t, j)) => if j == s.len() {
                Some(SpecClass::Array(Box::new(t)))
            } else {
                None
            },
        }
    } else {
        Some(SpecClass::Scalar(s))
    }
}

/// A whole field descriptor: one field type consuming the entire string.
pub open spec fn sp_field_descriptor(s: Seq<char>) -> Option<SpecType> {
    match sp_field_type(s, 0) {
        None => None,
        Some((t, j)) => if j == s.len() {
            Some(t)
        } else {
            None
        },
    }
}

/// The parameter types between the parentheses of a method descriptor.
pub open spec fn sp_param_types(s: Seq<char>, i: int) -> Option<(Seq<SpecType>, int)>
    decreases s.len() - i,
{
    if i < 0 || i >= s.len() {
        None
    } else if s[i] == ')' {
        Some((Seq::empty(), i + 1))
    } else {
        match sp_field_type(s, i) {
            None => None,
            Some((t, j)) => if !(i < j && j <= s.len()) {
                // unreachable: a field type consumes at least one character
                None
            } else {
                match sp_param_types(s, j) {
                    None => None,
                    Some((ts, q)) => Some((seq![t] + ts, q)),
                }
            },
        }
    }
}

/// A whole method descriptor: `(` parameter types `)` and a return type,
/// which is a field type or `V` for void, consuming the entire string.
pub open spec fn sp_method_descriptor(s: Seq<char>) -> Option<(Seq<SpecType>, Option<SpecType>)> {
    if s.len() == 0 || s[0] != '(' {
        None
    } else {
        match sp_param_types(s, 1) {
            None => None,
            Some((ts, j)) => if j < s.len() && s[j] == 'V' && j + 1 == s.len() {
                Some((ts, None))
            } else {
                match sp_field_type(s, j) {
                    None => None,
                    Some((t, q)) => if q == s.len() {
                        Some((ts, Some(t)))
                    } else {
                        None
                    },
                }
            },
        }
    }
}

/// Collects the characters of a string slice.
pub fn str_chars(s: &str) -> (r: Vec<char>)
    ensures
        r@ == s@,
{
    broadcast use vstd::string::group_string_axioms;

    let mut out: Vec<char> = Vec::new();
    let mut it = s.chars();
    loop
        invariant
            it.obeys_prophetic_iter_laws(),
            it.decrease() is Some,
            out@ + it.remaining() =~= s@,
        ensures
            out@ == s@,
        decreases it.decrease()->0,
    {
        let ghost rem = it.remaining();
        match it.next() {
            None => {
                proof {
                    assert(out@ =~= out@ + Seq::<char>::empty());
                }
                break ;
            },
            Some(c) => {
                out.push(c);
                proof {
                    assert(out@ + it.remaining() =~= out@.drop_last() + rem);
                }
            },
        }
    }
    out
}

fn exec_field_type(s: &Vec<char>, pos: usize) -> (r: Option<(Type, usize)>)
    ensures
        match r {
            Some((t, p)) => sp_field_type(s@, pos as int) == Some((view_type(t), p as int)) && pos
                < p <= s.len(),
            None => sp_field_type(s@, pos as int) is None,
        },
    decreases s@.len() - pos,
{
    if pos >= s.len() {
        return None;
    }
    let c = s[pos];
    if c == 'B' {
        Some((Type::Byte, pos + 1))
    } else if c == 'C' {
        Some((Type::Char, pos + 1))
    } else if c == 'D' {
        Some((Type::Double, pos + 1))
    } else if c == 'F' {
        Some((Type::Float, pos + 1))
    } else if c == 'I' {
        Some((Type::Int, pos + 1))
    } else if c == 'J' {
        Some((Type::Long, pos + 1))
    } else if c == 'S' {
        Some((Type::Short, pos + 1))
    } else if c == 'Z' {
        Some((Type::Boolean, pos + 1))
    } else if c == 'L' {
        let mut j = pos + 1;
        loop
            invariant
                pos + 1 <= j <= s@.len(),
                sp_find_semicolon(s@, pos + 1) == sp_find_semicolon(s@, j as int),
                forall|k: int| pos + 1 <= k < j ==> s@[k] != ';',
            ensures
                ({
                    match sp_find_semicolon(s@, pos + 1) {
                        Some(jj) => jj == j < s@.len() && s@[j as int] == ';',
                        None => j == s@.len(),
                    }
                }),
            decreases s@.len() - j,
        {
            if j >= s.len() {
                proof {
                    assert(sp_find_semicolon(s@, j as int) is None);
                }
                break ;
            }
            if s[j] == ';' {
                proof {
                    assert(sp_find_semicolon(s@, j as int) == Some(j as int));
                }
                break ;
            }
            j = j + 1;
        }
        if j >= s.len() {
            return None;
        }
        let mut name: Vec<char> = Vec::new();
        let mut k = pos + 1;
        while k < j
            invariant
                pos + 1 <= k <= j <= s@.len(),
                name@ =~= s@.subrange(pos + 1, k as int),
            decreases j - k,
        {
            name.push(s[k]);
            k = k + 1;
        }
        proof {
            assert(name@ =~= s@.subrange(pos + 1, j as int));
        }
        let mut owned = String::new();
        let mut k2: usize = 0;
        while k2 < name.len()
            invariant
                k2 <= name@.len(),
                owned@ =~= name@.subrange(0, k2 as int),
            decreases name@.len() - k2,
        {
            owned.push(name[k2]);
            k2 = k2 + 1;
        }
        proof {
            assert(owned@ =~= name@);
        }
        Some((Type::Reference(Class::Scalar(owned)), j + 1))
    } else if c == '[' {
        match exec_field_type(s, pos + 1) {
            None => None,
            Some((t, j)) => Some((Type::Reference(Class::Array(Box::new(t))), j)),
        }
    } else {
        None
    }
}

impl Type {
    /// Parses a whole field descriptor, as a `ConstantValue`'s or field's
    /// descriptor string holds it.
    pub fn new(desc: &str) -> (r: Option<Type>)
        ensures
            match r {
                Some(t) => sp_field_descriptor(desc@) == Some(view_type(t)),
                None => sp_field_descriptor(desc@) is None,
            },
    {
        let cs = str_chars(desc);
        match exec_field_type(&cs, 0) {
            None => None,
            Some((t, j)) => if j == cs.len() {
                Some(t)
            } else {
                None
            },
        }
    }
}

impl Class {
    /// Reads the class signature written in a `Class` constant: an array
    /// descriptor when the name begins with `[`, else a scalar binary name.
    pub fn new(name: &str) -> (r: Option<Class>)
        ensures
            match r {
                Some(c) => sp_class_sig(name@) == Some(view_class(c)),
                None => sp_class_sig(name@) is None,
            },
    {
        let cs = str_chars(name);
        if cs.len() > 0 && cs[0] == '[' {
            match exec_field_type(&cs, 1) {
                None => None,
                Some((t, j)) => if j == cs.len() {
                    Some(Class::Array(Box::new(t)))
                } else {
                    None
                },
            }
        } else {
            let mut owned = String::new();
            let mut k: usize = 0;
            while k < cs.len()
                invariant
                    k <= cs@.len(),
                    owned@ =~= cs@.subrange(0, k as int),
                decreases cs@.len() - k,
            {
                owned.push(cs[k]);
                k = k + 1;
            }
            proof {
                assert(owned@ =~= cs@);
            }
            Some(Class::Scalar(owned))
        }
    }
}

fn exec_param_types(s: &Vec<char>, pos: usize) -> (r: Option<(Vec<Type>, usize)>)
    ensures
        match r {
            Some((ts, p)) => sp_param_types(s@, pos as int) == Some(
                (view_type_seq(ts@), p as int),
            ) && pos < p <= s.len(),
            None => sp_param_types(s@, pos as int) is None,
        },
    decreases s@.len() - pos,
{
    if pos >= s.len() {
        return None;
    }
    if s[pos] == ')' {
        proof {
            assert(view_type_seq(Seq::<Type>::empty()) =~= Seq::<SpecType>::empty());
        }
        return Some((Vec::new(), pos + 1));
    }
    match exec_field_type(s, pos) {
        None => None,
        Some((t, j)) => match exec_param_types(s, j) {
            None => None,
            Some((mut ts, q)) => {
                let ghost ts0 = ts@;
                ts.insert(0, t);
                proof {
                    assert(view_type_seq(ts@) =~= seq![view_type(t)] + view_type_seq(ts0)) by {
                        lemma_view_type_seq_cons(t, ts0);
                        assert(ts@ =~= seq![t] + ts0);
                    }
                }
                Some((ts, q))
            },
        },
    }
}

/// Prepending one type to a sequence prepends its view.
proof fn lemma_view_type_seq_cons(t: Type, s: Seq<Type>)
    ensures
        view_type_seq(seq![t] + s) =~= seq![view_type(t)] + view_type_seq(s),
    decreases s,
{
    if s.len() == 0 {
        assert(seq![t] + s =~= seq![t]);
        assert(seq![t].drop_last() =~= Seq::<Type>::empty());
        assert(seq![t].last() == t);
        assert(view_type_seq(seq![t]) == view_type_seq(seq![t].drop_last()).push(view_type(t)));
        assert(view_type_seq(seq![t]) =~= seq![view_type(t)]);
    } else {
        let w = seq![t] + s;
        assert(w.drop_last() =~= seq![t] + s.drop_last());
        assert(w.last() == s.last());
        lemma_view_type_seq_cons(t, s.drop_last());
    }
}

impl Method {
    /// Parses a whole method descriptor into the method's name, parameter
    /// types and return type.
    pub fn new(name: &str, desc: &str) -> (r: Option<Method>)
        ensures
            match r {
                Some(m) => sp_method_descriptor(desc@) == Some(
                    (view_method(m).params, view_method(m).return_ty),
                ) && view_method(m).name == name@,
                None => sp_method_descriptor(desc@) is None,
            },
    {
        let cs = str_chars(desc);
        if cs.len() == 0 {
            return None;
        }
        if cs[0] != '(' {
            return None;
        }
        match exec_param_types(&cs, 1) {
            None => None,
            Some((params, j)) => {
                if j < cs.len() && cs[j] == 'V' && j + 1 == cs.len() {
                    let mut owned = String::new();
                    let nchars = str_chars(name);
                    let mut k: usize = 0;
                    while k < nchars.len()
                        invariant
                            k <= nchars@.len(),
                            owned@ =~= nchars@.subrange(0, k as int),
                        decreases nchars@.len() - k,
                    {
                        owned.push(nchars[k]);
                        k = k + 1;
                    }
                    proof {
                        assert(owned@ =~= nchars@);
                    }
                    Some(Method { name: owned, params, return_ty: None })
                } else {
                    match exec_field_type(&cs, j) {
                        None => None,
                        Some((t, q)) => if q == cs.len() {
                            let mut owned = String::new();
                            let nchars = str_chars(name);
                            let mut k: usize = 0;
                            while k < nchars.len()
                                invariant
                                    k <= nchars@.len(),
                                    owned@ =~= nchars@.subrange(0, k as int),
                                decreases nchars@.len() - k,
                            {
                                owned.push(nchars[k]);
                                k = k + 1;
                            }
                            proof {
                                assert(owned@ =~= nchars@);
                            }
                            Some(Method { name: owned, params, return_ty: Some(t) })
                        } else {
                            None
                        },
                    }
                }
            },
        }
    }
}

/// Structural equality of two types, decided at the level of their
/// mathematical views.
pub fn type_eq(a: &Type, b: &Type) -> (r: bool)
    ensures
        r == (view_type(*a) == view_type(*b)),
    decreases a,
{
    match (a, b) {
        (Type::Byte, Type::Byte) => true,
        (Type::Char, Type::Char) => true,
        (Type::Double, Type::Double) => true,
        (Type::Float, Type::Float) => true,
        (Type::Int, Type::Int) => true,
        (Type::Long, Type::Long) => true,
        (Type::Short, Type::Short) => true,
        (Type::Boolean, Type::Boolean) => true,
        (Type::Reference(x), Type::Reference(y)) => class_eq(x, y),
        _ => false,
    }
}

/// Structural equality of two class signatures.
pub fn class_eq(a: &Class, b: &Class) -> (r: bool)
    ensures
        r == (view_class(*a) == view_class(*b)),
    decreases a,
{
    match (a, b) {
        (Class::Scalar(x), Class::Scalar(y)) => String::eq(x, y),
        (Class::Array(x), Class::Array(y)) => type_eq(x, y),
        _ => false,
    }
}

/// A copy of a type with the same view.
pub fn clone_type(t: &Type) -> (r: Type)
    ensures
        view_type(r) == view_type(*t),
    decreases t,
{
    match t {
        Type::Byte => Type::Byte,
        Type::Char => Type::Char,
        Type::Double => Type::Double,
        Type::Float => Type::Float,
        Type::Int => Type::Int,
        Type::Long => Type::Long,
        Type::Short => Type::Short,
        Type::Boolean => Type::Boolean,
        Type::Reference(c) => Type::Reference(clone_class(c)),
    }
}

/// A copy of a class signature with the same view.
pub fn clone_class(c: &Class) -> (r: Class)
    ensures
        view_class(r) == view_class(*c),
    decreases c,
{
    match c {
        Class::Scalar(n) => Class::Scalar(n.clone()),
        Class::Array(t) => Class::Array(Box::new(clone_type(t))),
    }
}

} // verus!
