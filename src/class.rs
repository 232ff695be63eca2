//! Class definitions before lowering, the lowered result, and the private
//! element registry.
use vstd::prelude::*;

use crate::ast::{Expr, PropKey, Stmt};

verus! {

/// The key of a class member.
#[derive(Debug, PartialEq, Eq)]
pub enum Key {
    /// A static name.
    Name(u64),
    /// A private name, unique within the class.
    Private(u64),
    /// `[expr]`: evaluated once, at class-definition time.
    Computed(Expr),
}

/// A member of a class body.
#[derive(Debug, PartialEq, Eq)]
pub enum ClassMember {
    /// A field; public or private by its key.
    Field { key: Key, value: Option<Expr>, is_static: bool },
    /// A method; public or private by its key.
    Method { key: Key, is_static: bool, body: Expr },
    /// `static { body }`.
    StaticBlock { body: Expr },
}

/// A class: its members in source order, whether it extends a base class,
/// and the statements of its constructor that follow the base-constructor call.
pub struct ClassDef {
    pub members: Vec<ClassMember>,
    pub has_super: bool,
    pub ctor_body: Vec<Expr>,
    pub class_symbol: usize,
}

/// A method kept in the lowered class.
#[derive(Debug, PartialEq, Eq)]
pub struct OutMethod {
    pub key: PropKey,
    pub is_static: bool,
    pub body: Expr,
}

/// The lowered class: declarations placed before the class, its methods,
/// its constructor, and the statements run once right after its definition.
pub struct LoweredClass {
    pub before: Vec<Stmt>,
    pub methods: Vec<OutMethod>,
    pub constructor: Vec<Stmt>,
    pub after: Vec<Stmt>,
}

/// The lowered class as sequences.
pub ghost struct LoweredView {
    pub before: Seq<Stmt>,
    pub methods: Seq<OutMethod>,
    pub constructor: Seq<Stmt>,
    pub after: Seq<Stmt>,
}

impl View for LoweredClass {
    type V = LoweredView;

    open spec fn view(&self) -> LoweredView {
        LoweredView {
            before: self.before@,
            methods: self.methods@,
            constructor: self.constructor@,
            after: self.after@,
        }
    }
}

/// Why a class cannot be lowered.
#[derive(Clone, Copy, Debug, PartialEq, Eq, Structural)]
pub enum LowerError {
    /// A private name declared twice in one class.
    DuplicatePrivateName(u64),
    /// A private name used but not declared in the class.
    UndeclaredPrivateName(u64),
}

/// The backing strategy registered for a private name: the binding of its
/// side table (a field) or of its shared function (a method).
#[derive(Clone, Copy, Debug, PartialEq, Eq, Structural)]
pub struct PrivateEntry {
    pub name: u64,
    pub symbol: usize,
    pub is_field: bool,
}

/// The first entry of `reg` registered for `name`.
pub open spec fn lookup(reg: Seq<PrivateEntry>, name: u64) -> Option<PrivateEntry>
    decreases reg.len(),
{
    if reg.len() == 0 {
        None
    } else if reg[0].name == name {
        Some(reg[0])
    } else {
        lookup(reg.subrange(1, reg.len() as int), name)
    }
}

/// Looks `name` up in the registry.
pub fn find_private(reg: &Vec<PrivateEntry>, name: u64) -> (r: Option<PrivateEntry>)
    ensures
        r == lookup(reg@, name),
{
    let mut i: usize = 0;
    proof {
        assert(reg@.subrange(0, reg@.len() as int) =~= reg@);
    }
    while i < reg.len()
        invariant
            i <= reg@.len(),
            lookup(reg@, name) == lookup(reg@.subrange(i as int, reg@.len() as int), name),
        decreases reg@.len() - i,
    {
        let ghost rest = reg@.subrange(i as int, reg@.len() as int);
        proof {
            assert(rest.subrange(1, rest.len() as int) =~= reg@.subrange(i + 1, reg@.len() as int));
        }
        if reg[i].name == name {
            return Some(reg[i]);
        }
        i = i + 1;
    }
    None
}

/// The expression with every private access replaced by an access through
/// the strategy registered for its name.
pub open spec fn rewrite(e: Expr, reg: Seq<PrivateEntry>) -> Result<Expr, LowerError>
    decreases e,
{
    match e {
        Expr::Paren(a) => match rewrite(*a, reg) {
            Ok(x) => Ok(Expr::Paren(Box::new(x))),
            Err(err) => Err(err),
        },
        Expr::TsOnly(a) => match rewrite(*a, reg) {
            Ok(x) => Ok(Expr::TsOnly(Box::new(x))),
            Err(err) => Err(err),
        },
        Expr::Add(a, b) => match rewrite(*a, reg) {
            Err(err) => Err(err),
            Ok(x) => match rewrite(*b, reg) {
                Err(err) => Err(err),
                Ok(y) => Ok(Expr::Add(Box::new(x), Box::new(y))),
            },
        },
        Expr::Comma(a, b) => match rewrite(*a, reg) {
            Err(err) => Err(err),
            Ok(x) => match rewrite(*b, reg) {
                Err(err) => Err(err),
                Ok(y) => Ok(Expr::Comma(Box::new(x), Box::new(y))),
            },
        },
        Expr::Assign(t, v) => match rewrite(*v, reg) {
            Ok(x) => Ok(Expr::Assign(t, Box::new(x))),
            Err(err) => Err(err),
        },
        Expr::PropGet(o, k) => match rewrite(*o, reg) {
            Ok(x) => Ok(Expr::PropGet(Box::new(x), k)),
            Err(err) => Err(err),
        },
        Expr::PropSet(o, k, v) => match rewrite(*o, reg) {
            Err(err) => Err(err),
            Ok(x) => match rewrite(*v, reg) {
                Err(err) => Err(err),
                Ok(y) => Ok(Expr::PropSet(Box::new(x), k, Box::new(y))),
            },
        },
        Expr::PrivateGet(o, n) => match rewrite(*o, reg) {
            Err(err) => Err(err),
            Ok(x) => match lookup(reg, n) {
                None => Err(LowerError::UndeclaredPrivateName(n)),
                Some(en) => if en.is_field {
                    Ok(Expr::StorageGet(en.symbol, Box::new(x)))
                } else {
                    Ok(Expr::BoundMethod(en.symbol, Box::new(x)))
                },
            },
        },
        Expr::PrivateSet(o, n, v) => match rewrite(*o, reg) {
            Err(err) => Err(err),
            Ok(x) => match rewrite(*v, reg) {
                Err(err) => Err(err),
                Ok(y) => match lookup(reg, n) {
                    None => Err(LowerError::UndeclaredPrivateName(n)),
                    Some(en) => if en.is_field {
                        Ok(Expr::StorageSet(en.symbol, Box::new(x), Box::new(y)))
                    } else {
                        Ok(Expr::ReadOnlyError(n, Box::new(x), Box::new(y)))
                    },
                },
            },
        },
        Expr::StorageGet(s, o) => match rewrite(*o, reg) {
            Ok(x) => Ok(Expr::StorageGet(s, Box::new(x))),
            Err(err) => Err(err),
        },
        Expr::StorageSet(s, o, v) => match rewrite(*o, reg) {
            Err(err) => Err(err),
            Ok(x) => match rewrite(*v, reg) {
                Err(err) => Err(err),
                Ok(y) => Ok(Expr::StorageSet(s, Box::new(x), Box::new(y))),
            },
        },
        Expr::Function(b) => match rewrite(*b, reg) {
            Ok(x) => Ok(Expr::Function(Box::new(x))),
            Err(err) => Err(err),
        },
        Expr::BoundMethod(f, o) => match rewrite(*o, reg) {
            Ok(x) => Ok(Expr::BoundMethod(f, Box::new(x))),
            Err(err) => Err(err),
        },
        Expr::ReadOnlyError(n, o, v) => match rewrite(*o, reg) {
            Err(err) => Err(err),
            Ok(x) => match rewrite(*v, reg) {
                Err(err) => Err(err),
                Ok(y) => Ok(Expr::ReadOnlyError(n, Box::new(x), Box::new(y))),
            },
        },
        _ => Ok(e),
    }
}

/// Rewrites the private accesses of `e` through the registry.
pub fn rewrite_private(e: &Expr, reg: &Vec<PrivateEntry>) -> (r: Result<Expr, LowerError>)
    ensures
        r == rewrite(*e, reg@),
    decreases e,
{
    match e {
        Expr::Paren(a) => {
            let x = rewrite_private(a, reg)?;
            Ok(Expr::Paren(Box::new(x)))
        },
        Expr::TsOnly(a) => {
            let x = rewrite_private(a, reg)?;
            Ok(Expr::TsOnly(Box::new(x)))
        },
        Expr::Add(a, b) => {
            let x = rewrite_private(a, reg)?;
            let y = rewrite_private(b, reg)?;
            Ok(Expr::Add(Box::new(x), Box::new(y)))
        },
        Expr::Comma(a, b) => {
            let x = rewrite_private(a, reg)?;
            let y = rewrite_private(b, reg)?;
            Ok(Expr::Comma(Box::new(x), Box::new(y)))
        },
        Expr::Assign(t, v) => {
            let x = rewrite_private(v, reg)?;
            Ok(Expr::Assign(*t, Box::new(x)))
        },
        Expr::PropGet(o, k) => {
            let x = rewrite_private(o, reg)?;
            Ok(Expr::PropGet(Box::new(x), *k))
        },
        Expr::PropSet(o, k, v) => {
            let x = rewrite_private(o, reg)?;
            let y = rewrite_private(v, reg)?;
            Ok(Expr::PropSet(Box::new(x), *k, Box::new(y)))
        },
        Expr::PrivateGet(o, n) => {
            let x = rewrite_private(o, reg)?;
            match find_private(reg, *n) {
                None => Err(LowerError::UndeclaredPrivateName(*n)),
                Some(en) => if en.is_field {
                    Ok(Expr::StorageGet(en.symbol, Box::new(x)))
                } else {
                    Ok(Expr::BoundMethod(en.symbol, Box::new(x)))
                },
            }
        },
        Expr::PrivateSet(o, n, v) => {
            let x = rewrite_private(o, reg)?;
            let y = rewrite_private(v, reg)?;
            match find_private(reg, *n) {
                None => Err(LowerError::UndeclaredPrivateName(*n)),
                Some(en) => if en.is_field {
                    Ok(Expr::StorageSet(en.symbol, Box::new(x), Box::new(y)))
                } else {
                    Ok(Expr::ReadOnlyError(*n, Box::new(x), Box::new(y)))
                },
            }
        },
        Expr::StorageGet(s, o) => {
            let x = rewrite_private(o, reg)?;
            Ok(Expr::StorageGet(*s, Box::new(x)))
        },
        Expr::StorageSet(s, o, v) => {
            let x = rewrite_private(o, reg)?;
            let y = rewrite_private(v, reg)?;
            Ok(Expr::StorageSet(*s, Box::new(x), Box::new(y)))
        },
        Expr::Function(b) => {
            let x = rewrite_private(b, reg)?;
            Ok(Expr::Function(Box::new(x)))
        },
        Expr::BoundMethod(f, o) => {
            let x = rewrite_private(o, reg)?;
            Ok(Expr::BoundMethod(*f, Box::new(x)))
        },
        Expr::ReadOnlyError(n, o, v) => {
            let x = rewrite_private(o, reg)?;
            let y = rewrite_private(v, reg)?;
            Ok(Expr::ReadOnlyError(*n, Box::new(x), Box::new(y)))
        },
        Expr::Opaque(n) => Ok(Expr::Opaque(*n)),
        Expr::Num(n) => Ok(Expr::Num(*n)),
        Expr::Undefined => Ok(Expr::Undefined),
        Expr::This => Ok(Expr::This),
        Expr::Ident(r) => Ok(Expr::Ident(*r)),
        Expr::NewStorage => Ok(Expr::NewStorage),
    }
}

} // verus!
