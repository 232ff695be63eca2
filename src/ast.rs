//! The syntax-tree model that the pass reads and writes.
use vstd::prelude::*;

verus! {

/// How a generated identifier reference uses its binding.
#[derive(Clone, Copy, Debug, PartialEq, Eq, Structural)]
pub enum ReferenceFlags {
    Read,
    Write,
    ReadWrite,
}

/// A reference to a binding of the symbol table, with its usage flags.
#[derive(Clone, Copy, Debug, PartialEq, Eq, Structural)]
pub struct IdentRef {
    pub symbol: usize,
    pub flags: ReferenceFlags,
}

/// A property key after lowering: a static name, or a reference to the
/// binding that holds the value of a hoisted computed key.
#[derive(Clone, Copy, Debug, PartialEq, Eq, Structural)]
pub enum PropKey {
    Name(u64),
    Binding(usize),
}

/// An expression. Names of properties and private names are interned atoms.
#[derive(Debug, PartialEq, Eq)]
pub enum Expr {
    /// Any expression this pass does not look into, by its node id.
    Opaque(u64),
    Num(i64),
    Undefined,
    This,
    Ident(IdentRef),
    /// A redundant grouping wrapper `(e)`.
    Paren(Box<Expr>),
    /// A type-only construct such as `e as T`, erased by an earlier pass.
    TsOnly(Box<Expr>),
    Add(Box<Expr>, Box<Expr>),
    /// `a, b`: evaluates `a`, then `b`.
    Comma(Box<Expr>, Box<Expr>),
    /// `binding = value`.
    Assign(IdentRef, Box<Expr>),
    /// `obj.key`.
    PropGet(Box<Expr>, PropKey),
    /// `obj.key = value`.
    PropSet(Box<Expr>, PropKey, Box<Expr>),
    /// `obj.#name`.
    PrivateGet(Box<Expr>, u64),
    /// `obj.#name = value`.
    PrivateSet(Box<Expr>, u64, Box<Expr>),
    /// `storage.get(obj)`: read the per-instance slot of a private field.
    StorageGet(usize, Box<Expr>),
    /// `storage.set(obj, value)`: write the per-instance slot of a private field.
    StorageSet(usize, Box<Expr>, Box<Expr>),
    /// `new WeakMap()`: a fresh identity-keyed side table.
    NewStorage,
    /// `function () { return body; }`.
    Function(Box<Expr>),
    /// `f.bind(obj)`: a shared function called with `obj` as receiver.
    BoundMethod(usize, Box<Expr>),
    /// `obj.#name = value` on a private method: evaluates `obj` and `value`,
    /// then throws a `TypeError`, private methods being read-only.
    ReadOnlyError(u64, Box<Expr>, Box<Expr>),
}

/// A statement.
#[derive(Debug, PartialEq, Eq)]
pub enum Stmt {
    Expr(Expr),
    /// `var binding = init;`
    Var(usize, Expr),
    /// `super(...args);`
    SuperCall,
}

/// Copies an expression.
pub fn clone_expr(e: &Expr) -> (r: Expr)
    ensures
        r == *e,
    decreases e,
{
    match e {
        Expr::Opaque(n) => Expr::Opaque(*n),
        Expr::Num(n) => Expr::Num(*n),
        Expr::Undefined => Expr::Undefined,
        Expr::This => Expr::This,
        Expr::Ident(r) => Expr::Ident(*r),
        Expr::Paren(a) => Expr::Paren(Box::new(clone_expr(a))),
        Expr::TsOnly(a) => Expr::TsOnly(Box::new(clone_expr(a))),
        Expr::Add(a, b) => Expr::Add(Box::new(clone_expr(a)), Box::new(clone_expr(b))),
        Expr::Comma(a, b) => Expr::Comma(Box::new(clone_expr(a)), Box::new(clone_expr(b))),
        Expr::Assign(t, v) => Expr::Assign(*t, Box::new(clone_expr(v))),
        Expr::PropGet(o, k) => Expr::PropGet(Box::new(clone_expr(o)), *k),
        Expr::PropSet(o, k, v) => Expr::PropSet(
            Box::new(clone_expr(o)),
            *k,
            Box::new(clone_expr(v)),
        ),
        Expr::PrivateGet(o, n) => Expr::PrivateGet(Box::new(clone_expr(o)), *n),
        Expr::PrivateSet(o, n, v) => Expr::PrivateSet(
            Box::new(clone_expr(o)),
            *n,
            Box::new(clone_expr(v)),
        ),
        Expr::StorageGet(s, o) => Expr::StorageGet(*s, Box::new(clone_expr(o))),
        Expr::StorageSet(s, o, v) => Expr::StorageSet(
            *s,
            Box::new(clone_expr(o)),
            Box::new(clone_expr(v)),
        ),
        Expr::NewStorage => Expr::NewStorage,
        Expr::Function(b) => Expr::Function(Box::new(clone_expr(b))),
        Expr::BoundMethod(f, o) => Expr::BoundMethod(*f, Box::new(clone_expr(o))),
        Expr::ReadOnlyError(n, o, v) => Expr::ReadOnlyError(
            *n,
            Box::new(clone_expr(o)),
            Box::new(clone_expr(v)),
        ),
    }
}

/// `e` with every `this` that refers to the enclosing context, that is one
/// not inside a nested function, replaced by `this_value`.
pub open spec fn subst_this(e: Expr, this_value: Expr) -> Expr
    decreases e,
{
    match e {
        Expr::This => this_value,
        Expr::Paren(a) => Expr::Paren(Box::new(subst_this(*a, this_value))),
        Expr::TsOnly(a) => Expr::TsOnly(Box::new(subst_this(*a, this_value))),
        Expr::Add(a, b) => Expr::Add(
            Box::new(subst_this(*a, this_value)),
            Box::new(subst_this(*b, this_value)),
        ),
        Expr::Comma(a, b) => Expr::Comma(
            Box::new(subst_this(*a, this_value)),
            Box::new(subst_this(*b, this_value)),
        ),
        Expr::Assign(t, v) => Expr::Assign(t, Box::new(subst_this(*v, this_value))),
        Expr::PropGet(o, k) => Expr::PropGet(Box::new(subst_this(*o, this_value)), k),
        Expr::PropSet(o, k, v) => Expr::PropSet(
            Box::new(subst_this(*o, this_value)),
            k,
            Box::new(subst_this(*v, this_value)),
        ),
        Expr::PrivateGet(o, n) => Expr::PrivateGet(Box::new(subst_this(*o, this_value)), n),
        Expr::PrivateSet(o, n, v) => Expr::PrivateSet(
            Box::new(subst_this(*o, this_value)),
            n,
            Box::new(subst_this(*v, this_value)),
        ),
        Expr::StorageGet(s, o) => Expr::StorageGet(s, Box::new(subst_this(*o, this_value))),
        Expr::StorageSet(s, o, v) => Expr::StorageSet(
            s,
            Box::new(subst_this(*o, this_value)),
            Box::new(subst_this(*v, this_value)),
        ),
        Expr::BoundMethod(f, o) => Expr::BoundMethod(f, Box::new(subst_this(*o, this_value))),
        Expr::ReadOnlyError(n, o, v) => Expr::ReadOnlyError(
            n,
            Box::new(subst_this(*o, this_value)),
            Box::new(subst_this(*v, this_value)),
        ),
        _ => e,
    }
}

/// No `this` of the enclosing context occurs in `e` (a nested function has
/// its own `this`).
pub open spec fn this_free(e: Expr) -> bool
    decreases e,
{
    match e {
        Expr::This => false,
        Expr::Paren(a) => this_free(*a),
        Expr::TsOnly(a) => this_free(*a),
        Expr::Add(a, b) => this_free(*a) && this_free(*b),
        Expr::Comma(a, b) => this_free(*a) && this_free(*b),
        Expr::Assign(_, v) => this_free(*v),
        Expr::PropGet(o, _) => this_free(*o),
        Expr::PropSet(o, _, v) => this_free(*o) && this_free(*v),
        Expr::PrivateGet(o, _) => this_free(*o),
        Expr::PrivateSet(o, _, v) => this_free(*o) && this_free(*v),
        Expr::StorageGet(_, o) => this_free(*o),
        Expr::StorageSet(_, o, v) => this_free(*o) && this_free(*v),
        Expr::BoundMethod(_, o) => this_free(*o),
        Expr::ReadOnlyError(_, o, v) => this_free(*o) && this_free(*v),
        _ => true,
    }
}

/// Replacing `this` by a `this`-free value leaves no `this` of the
/// enclosing context.
pub proof fn lemma_subst_this_free(e: Expr, this_value: Expr)
    requires
        this_free(this_value),
    ensures
        this_free(subst_this(e, this_value)),
    decreases e,
{
    match e {
        Expr::Paren(a) => lemma_subst_this_free(*a, this_value),
        Expr::TsOnly(a) => lemma_subst_this_free(*a, this_value),
        Expr::Assign(_, a) => lemma_subst_this_free(*a, this_value),
        Expr::PropGet(a, _) => lemma_subst_this_free(*a, this_value),
        Expr::PrivateGet(a, _) => lemma_subst_this_free(*a, this_value),
        Expr::StorageGet(_, a) => lemma_subst_this_free(*a, this_value),
        Expr::BoundMethod(_, a) => lemma_subst_this_free(*a, this_value),
        Expr::Add(a, b) | Expr::Comma(a, b) => {
            lemma_subst_this_free(*a, this_value);
            lemma_subst_this_free(*b, this_value);
        },
        Expr::PropSet(a, _, b) | Expr::PrivateSet(a, _, b) | Expr::StorageSet(_, a, b)
        | Expr::ReadOnlyError(_, a, b) => {
            lemma_subst_this_free(*a, this_value);
            lemma_subst_this_free(*b, this_value);
        },
        _ => {},
    }
}

/// Replaces each `this` of the enclosing context in `e` by `this_value`.
pub fn replace_this(e: &Expr, this_value: &Expr) -> (r: Expr)
    ensures
        r == subst_this(*e, *this_value),
    decreases e,
{
    match e {
        Expr::This => clone_expr(this_value),
        Expr::Paren(a) => Expr::Paren(Box::new(replace_this(a, this_value))),
        Expr::TsOnly(a) => Expr::TsOnly(Box::new(replace_this(a, this_value))),
        Expr::Add(a, b) => Expr::Add(
            Box::new(replace_this(a, this_value)),
            Box::new(replace_this(b, this_value)),
        ),
        Expr::Comma(a, b) => Expr::Comma(
            Box::new(replace_this(a, this_value)),
            Box::new(replace_this(b, this_value)),
        ),
        Expr::Assign(t, v) => Expr::Assign(*t, Box::new(replace_this(v, this_value))),
        Expr::PropGet(o, k) => Expr::PropGet(Box::new(replace_this(o, this_value)), *k),
        Expr::PropSet(o, k, v) => Expr::PropSet(
            Box::new(replace_this(o, this_value)),
            *k,
            Box::new(replace_this(v, this_value)),
        ),
        Expr::PrivateGet(o, n) => Expr::PrivateGet(Box::new(replace_this(o, this_value)), *n),
        Expr::PrivateSet(o, n, v) => Expr::PrivateSet(
            Box::new(replace_this(o, this_value)),
            *n,
            Box::new(replace_this(v, this_value)),
        ),
        Expr::StorageGet(s, o) => Expr::StorageGet(*s, Box::new(replace_this(o, this_value))),
        Expr::StorageSet(s, o, v) => Expr::StorageSet(
            *s,
            Box::new(replace_this(o, this_value)),
            Box::new(replace_this(v, this_value)),
        ),
        Expr::BoundMethod(f, o) => Expr::BoundMethod(*f, Box::new(replace_this(o, this_value))),
        Expr::ReadOnlyError(n, o, v) => Expr::ReadOnlyError(
            *n,
            Box::new(replace_this(o, this_value)),
            Box::new(replace_this(v, this_value)),
        ),
        _ => clone_expr(e),
    }
}

} // verus!
