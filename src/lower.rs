//! The class lowering pass.
use vstd::prelude::*;

use crate::ast::{replace_this, subst_this, Expr, IdentRef, PropKey, ReferenceFlags, Stmt};
use crate::binding::{
    create_variable_declaration, exprs_into_stmts, lemma_longest_bounds, longest, BoundIdentifier,
    Scope,
};
use crate::class::{
    find_private, rewrite, rewrite_private, ClassDef, ClassMember, Key, LowerError, LoweredClass,
    LoweredView, OutMethod, PrivateEntry,
};
use crate::guard::{assert_expr_neither_parenthesis_nor_typescript_syntax, is_wrapper_or_type_syntax};

verus! {

/// The member needs a synthesized binding: a hoisted computed key, the side
/// table of a private field, or the shared function of a private method.
pub open spec fn needs_binding(m: ClassMember) -> bool {
    match m {
        ClassMember::Field { key, .. } => !(key is Name),
        ClassMember::Method { key, .. } => !(key is Name),
        ClassMember::StaticBlock { .. } => false,
    }
}

/// How many of the first `n` members need a binding.
pub open spec fn bindings_before(ms: Seq<ClassMember>, n: nat) -> nat
    decreases n,
{
    if n == 0 {
        0
    } else {
        bindings_before(ms, (n - 1) as nat) + if needs_binding(ms[n - 1]) {
            1nat
        } else {
            0nat
        }
    }
}

/// The symbol of the binding of member `i`, bindings being declared in
/// member order from symbol `base` on.
pub open spec fn member_symbol(ms: Seq<ClassMember>, i: nat, base: nat) -> usize {
    (base + bindings_before(ms, i)) as usize
}

/// The private name a member declares, and whether it is a field.
pub open spec fn private_of(m: ClassMember) -> Option<(u64, bool)> {
    match m {
        ClassMember::Field { key: Key::Private(n), .. } => Some((n, true)),
        ClassMember::Method { key: Key::Private(n), .. } => Some((n, false)),
        _ => None,
    }
}

/// The registry of the first `n` members: one entry per private name, in
/// member order; a name declared twice is an error.
pub open spec fn registry(ms: Seq<ClassMember>, n: nat, base: nat) -> Result<
    Seq<PrivateEntry>,
    LowerError,
>
    decreases n,
{
    if n == 0 {
        Ok(Seq::empty())
    } else {
        match registry(ms, (n - 1) as nat, base) {
            Err(e) => Err(e),
            Ok(reg) => match private_of(ms[n - 1]) {
                None => Ok(reg),
                Some(p) => if lookup_is_some(reg, p.0) {
                    Err(LowerError::DuplicatePrivateName(p.0))
                } else {
                    Ok(
                        reg.push(
                            PrivateEntry {
                                name: p.0,
                                symbol: member_symbol(ms, (n - 1) as nat, base),
                                is_field: p.1,
                            },
                        ),
                    )
                },
            },
        }
    }
}

/// Some entry of `reg` is registered for `name`.
pub open spec fn lookup_is_some(reg: Seq<PrivateEntry>, name: u64) -> bool {
    crate::class::lookup(reg, name) is Some
}

/// The pieces the members contribute to the lowered class.
pub ghost struct Parts {
    pub before: Seq<Stmt>,
    pub methods: Seq<OutMethod>,
    pub inits: Seq<Expr>,
    pub after: Seq<Stmt>,
}

/// No pieces at all.
pub open spec fn no_parts() -> Parts {
    Parts { before: Seq::empty(), methods: Seq::empty(), inits: Seq::empty(), after: Seq::empty() }
}

/// The pieces of `p` followed by those of `q`.
pub open spec fn concat(p: Parts, q: Parts) -> Parts {
    Parts {
        before: p.before + q.before,
        methods: p.methods + q.methods,
        inits: p.inits + q.inits,
        after: p.after + q.after,
    }
}

/// The object a field initializer writes to: the instance, or the class.
pub open spec fn target(is_static: bool, class_symbol: usize) -> Expr {
    if is_static {
        Expr::Ident(IdentRef { symbol: class_symbol, flags: ReferenceFlags::Read })
    } else {
        Expr::This
    }
}

/// The value of a field, `undefined` when it has no initializer.
pub open spec fn field_value(value: Option<Expr>) -> Expr {
    match value {
        Some(v) => v,
        None => Expr::Undefined,
    }
}

/// The value of a field as its initializer runs: a static one runs after
/// the class definition, where `this` must still be the class.
pub open spec fn in_context(is_static: bool, v: Expr, class_symbol: usize) -> Expr {
    if is_static {
        subst_this(v, target(true, class_symbol))
    } else {
        v
    }
}

/// A field initializer: run once per instance in the constructor, or once
/// right after the class definition for a static field.
pub open spec fn placed(is_static: bool, before: Seq<Stmt>, init: Expr) -> Parts {
    if is_static {
        Parts { before, methods: Seq::empty(), inits: Seq::empty(), after: seq![Stmt::Expr(init)] }
    } else {
        Parts { before, methods: Seq::empty(), inits: seq![init], after: Seq::empty() }
    }
}

/// What one member lowers to, `sym` being its binding.
pub open spec fn lower_member(
    m: ClassMember,
    sym: usize,
    class_symbol: usize,
    reg: Seq<PrivateEntry>,
) -> Result<Parts, LowerError> {
    match m {
        ClassMember::Field { key, value, is_static } => {
            let t = target(is_static, class_symbol);
            match key {
                Key::Name(n) => match rewrite(field_value(value), reg) {
                    Err(e) => Err(e),
                    Ok(v) => Ok(placed(is_static, Seq::empty(), Expr::PropSet(Box::new(t), PropKey::Name(n), Box::new(in_context(is_static, v, class_symbol))))),
                },
                Key::Computed(k) => match rewrite(k, reg) {
                    Err(e) => Err(e),
                    Ok(rk) => match rewrite(field_value(value), reg) {
                        Err(e) => Err(e),
                        Ok(v) => Ok(placed(is_static, seq![Stmt::Var(sym, rk)], Expr::PropSet(Box::new(t), PropKey::Binding(sym), Box::new(in_context(is_static, v, class_symbol))))),
                    },
                },
                Key::Private(_) => match rewrite(field_value(value), reg) {
                    Err(e) => Err(e),
                    Ok(v) => Ok(placed(is_static, seq![Stmt::Var(sym, Expr::NewStorage)], Expr::StorageSet(sym, Box::new(t), Box::new(in_context(is_static, v, class_symbol))))),
                },
            }
        },
        ClassMember::Method { key, is_static, body } => match key {
            Key::Name(n) => match rewrite(body, reg) {
                Err(e) => Err(e),
                Ok(b) => Ok(Parts { methods: seq![OutMethod { key: PropKey::Name(n), is_static, body: b }], ..no_parts() }),
            },
            Key::Computed(k) => match rewrite(k, reg) {
                Err(e) => Err(e),
                Ok(rk) => match rewrite(body, reg) {
                    Err(e) => Err(e),
                    Ok(b) => Ok(Parts {
                        before: seq![Stmt::Var(sym, rk)],
                        methods: seq![OutMethod { key: PropKey::Binding(sym), is_static, body: b }],
                        ..no_parts()
                    }),
                },
            },
            Key::Private(_) => match rewrite(body, reg) {
                Err(e) => Err(e),
                Ok(b) => Ok(Parts { before: seq![Stmt::Var(sym, Expr::Function(Box::new(b)))], ..no_parts() }),
            },
        },
        ClassMember::StaticBlock { body } => match rewrite(body, reg) {
            Err(e) => Err(e),
            Ok(b) => Ok(Parts { after: seq![Stmt::Expr(subst_this(b, target(true, class_symbol)))], ..no_parts() }),
        },
    }
}

/// What the first `n` members lower to, in member order.
pub open spec fn lower_members(
    ms: Seq<ClassMember>,
    n: nat,
    base: nat,
    class_symbol: usize,
    reg: Seq<PrivateEntry>,
) -> Result<Parts, LowerError>
    decreases n,
{
    if n == 0 {
        Ok(no_parts())
    } else {
        match lower_members(ms, (n - 1) as nat, base, class_symbol, reg) {
            Err(e) => Err(e),
            Ok(p) => match lower_member(ms[n - 1], member_symbol(ms, (n - 1) as nat, base), class_symbol, reg) {
                Err(e) => Err(e),
                Ok(q) => Ok(concat(p, q)),
            },
        }
    }
}

/// The first `n` expressions of `s`, rewritten.
pub open spec fn rewrite_all(s: Seq<Expr>, n: nat, reg: Seq<PrivateEntry>) -> Result<Seq<Expr>, LowerError>
    decreases n,
{
    if n == 0 {
        Ok(Seq::empty())
    } else {
        match rewrite_all(s, (n - 1) as nat, reg) {
            Err(e) => Err(e),
            Ok(p) => match rewrite(s[n - 1], reg) {
                Err(e) => Err(e),
                Ok(x) => Ok(p.push(x)),
            },
        }
    }
}

/// The base-constructor call, when the class extends another.
pub open spec fn super_call(has_super: bool) -> Seq<Stmt> {
    if has_super {
        seq![Stmt::SuperCall]
    } else {
        Seq::empty()
    }
}

/// Each expression as an expression statement, in order.
pub open spec fn as_stmts(s: Seq<Expr>) -> Seq<Stmt> {
    s.map_values(|e: Expr| Stmt::Expr(e))
}

/// The lowered class, its bindings being declared from symbol `base` on:
/// hoisted declarations before the class; the constructor runs the base
/// call, then the instance field initializers in source order, then its own
/// statements; static fields and blocks run after the definition, in order.
pub open spec fn lower_spec(
    ms: Seq<ClassMember>,
    has_super: bool,
    ctor: Seq<Expr>,
    class_symbol: usize,
    base: nat,
) -> Result<LoweredView, LowerError> {
    match registry(ms, ms.len(), base) {
        Err(e) => Err(e),
        Ok(reg) => match lower_members(ms, ms.len(), base, class_symbol, reg) {
            Err(e) => Err(e),
            Ok(p) => match rewrite_all(ctor, ctor.len(), reg) {
                Err(e) => Err(e),
                Ok(body) => Ok(
                    LoweredView {
                        before: p.before,
                        methods: p.methods,
                        constructor: super_call(has_super) + as_stmts(p.inits) + as_stmts(body),
                        after: p.after,
                    },
                ),
            },
        },
    }
}

/// The expressions a member hands to synthesized code are free of grouping
/// wrappers and type-only syntax.
pub open spec fn captured_ok(m: ClassMember) -> bool {
    match m {
        ClassMember::Field { key, value, .. } => (key matches Key::Computed(k) ==> !is_wrapper_or_type_syntax(k))
            && (value matches Some(v) ==> !is_wrapper_or_type_syntax(v)),
        ClassMember::Method { key, .. } => key matches Key::Computed(k) ==> !is_wrapper_or_type_syntax(k),
        ClassMember::StaticBlock { .. } => true,
    }
}

/// Counting bindings over a longer prefix counts at least as many, and at
/// most one more per added member.
pub proof fn lemma_bindings_monotonic(ms: Seq<ClassMember>, i: nat, j: nat)
    requires
        i <= j,
    ensures
        bindings_before(ms, i) <= bindings_before(ms, j),
        bindings_before(ms, j) <= bindings_before(ms, i) + (j - i),
    decreases j,
{
    if i < j {
        lemma_bindings_monotonic(ms, i, (j - 1) as nat);
    }
}

/// An error in the registry of a prefix is the error of the whole registry.
pub proof fn lemma_registry_err(ms: Seq<ClassMember>, n: nat, m: nat, base: nat)
    requires
        n <= m,
        registry(ms, n, base) is Err,
    ensures
        registry(ms, m, base) == registry(ms, n, base),
    decreases m,
{
    if n < m {
        lemma_registry_err(ms, n, (m - 1) as nat, base);
    }
}

/// Tells whether the member needs a synthesized binding.
fn member_needs_binding(m: &ClassMember) -> (r: bool)
    ensures
        r == needs_binding(*m),
{
    match m {
        ClassMember::Field { key, .. } => !matches!(key, Key::Name(_)),
        ClassMember::Method { key, .. } => !matches!(key, Key::Name(_)),
        ClassMember::StaticBlock { .. } => false,
    }
}

/// Declares one placeholder binding per member that needs one, in member
/// order; each new name is longer than every name before it.
fn declare_bindings(ms: &Vec<ClassMember>, scope: &mut Scope) -> (r: Vec<BoundIdentifier>)
    requires
        longest(old(scope)@) + ms@.len() < usize::MAX,
        old(scope)@.len() + ms@.len() < usize::MAX,
    ensures
        r@.len() == bindings_before(ms@, ms@.len()),
        forall|j: int| 0 <= j < r@.len() ==> (#[trigger] r@[j]).symbol == old(scope)@.len() + j,
        final(scope)@.len() == old(scope)@.len() + r@.len(),
        final(scope)@.take(old(scope)@.len() as int) == old(scope)@,
        forall|i: int, j: int|
            0 <= i < j < final(scope)@.len() && j >= old(scope)@.len() ==> #[trigger] final(scope)@[i].len()
                < #[trigger] final(scope)@[j].len(),
{
    let mut total: usize = 0;
    let mut i: usize = 0;
    while i < ms.len()
        invariant
            i <= ms@.len(),
            total == bindings_before(ms@, i as nat),
            total <= i,
        decreases ms@.len() - i,
    {
        if member_needs_binding(&ms[i]) {
            total = total + 1;
        }
        i = i + 1;
    }
    let ghost base = old(scope)@.len();
    let mut bs: Vec<BoundIdentifier> = Vec::new();
    let mut k: usize = 0;
    proof {
        assert(scope@.take(base as int) =~= old(scope)@);
    }
    while k < total
        invariant
            k <= total,
            total == bindings_before(ms@, ms@.len()),
            total <= ms@.len(),
            base == old(scope)@.len(),
            longest(old(scope)@) + ms@.len() < usize::MAX,
            scope@.len() == base + k,
            longest(scope@) == longest(old(scope)@) + k,
            scope@.take(base as int) == old(scope)@,
            bs@.len() == k,
            forall|j: int| 0 <= j < k ==> (#[trigger] bs@[j]).symbol == base + j,
            forall|a: int, b: int|
                0 <= a < b < scope@.len() && b >= base ==> #[trigger] scope@[a].len() < #[trigger] scope@[b].len(),
        decreases total - k,
    {
        let ghost prev = scope@;
        let b = scope.create_underscore_ident_name();
        proof {
            lemma_longest_bounds(prev);
            assert(scope@.drop_last() =~= prev);
            assert(scope@.take(base as int) =~= prev.take(base as int));
            assert forall|x: int, y: int|
                0 <= x < y < scope@.len() && y >= base implies #[trigger] scope@[x].len() < #[trigger] scope@[y].len() by {
                if y < prev.len() {
                    assert(scope@[x] == prev[x]);
                    assert(scope@[y] == prev[y]);
                } else {
                    assert(scope@[x] == prev[x]);
                    assert(prev[x].len() <= longest(prev));
                }
            }
        }
        bs.push(b);
        k = k + 1;
    }
    bs
}

/// Builds the registry of the class's private names.
fn build_registry(ms: &Vec<ClassMember>, bs: &Vec<BoundIdentifier>, base: usize) -> (r: Result<
    Vec<PrivateEntry>,
    LowerError,
>)
    requires
        bs@.len() == bindings_before(ms@, ms@.len()),
        forall|j: int| 0 <= j < bs@.len() ==> (#[trigger] bs@[j]).symbol == base + j,
        base + ms@.len() < usize::MAX,
    ensures
        match registry(ms@, ms@.len(), base as nat) {
            Ok(reg) => r matches Ok(v) && v@ == reg,
            Err(e) => r == Err::<Vec<PrivateEntry>, LowerError>(e),
        },
{
    let mut reg: Vec<PrivateEntry> = Vec::new();
    let mut i: usize = 0;
    let mut b: usize = 0;
    while i < ms.len()
        invariant
            i <= ms@.len(),
            b == bindings_before(ms@, i as nat),
            b <= i,
            bs@.len() == bindings_before(ms@, ms@.len()),
            forall|j: int| 0 <= j < bs@.len() ==> (#[trigger] bs@[j]).symbol == base + j,
            base + ms@.len() < usize::MAX,
            registry(ms@, i as nat, base as nat) == Ok::<Seq<PrivateEntry>, LowerError>(reg@),
        decreases ms@.len() - i,
    {
        proof {
            lemma_bindings_monotonic(ms@, i as nat + 1, ms@.len());
        }
        let (name, is_field): (u64, bool) = match &ms[i] {
            ClassMember::Field { key: Key::Private(n), .. } => (*n, true),
            ClassMember::Method { key: Key::Private(n), .. } => (*n, false),
            _ => {
                if member_needs_binding(&ms[i]) {
                    b = b + 1;
                }
                i = i + 1;
                continue;
            },
        };
        if find_private(&reg, name).is_some() {
            proof {
                lemma_registry_err(ms@, i as nat + 1, ms@.len(), base as nat);
            }
            return Err(LowerError::DuplicatePrivateName(name));
        }
        reg.push(PrivateEntry { name, symbol: bs[b].symbol, is_field });
        b = b + 1;
        i = i + 1;
    }
    Ok(reg)
}

/// An error in the lowering of a prefix of the members is the error of
/// the whole lowering.
pub proof fn lemma_members_err(
    ms: Seq<ClassMember>,
    n: nat,
    m: nat,
    base: nat,
    class_symbol: usize,
    reg: Seq<PrivateEntry>,
)
    requires
        n <= m,
        lower_members(ms, n, base, class_symbol, reg) is Err,
    ensures
        lower_members(ms, m, base, class_symbol, reg) == lower_members(ms, n, base, class_symbol, reg),
    decreases m,
{
    if n < m {
        lemma_members_err(ms, n, (m - 1) as nat, base, class_symbol, reg);
    }
}

/// An error in rewriting a prefix is the error of the whole rewriting.
pub proof fn lemma_rewrite_all_err(s: Seq<Expr>, n: nat, m: nat, reg: Seq<PrivateEntry>)
    requires
        n <= m,
        rewrite_all(s, n, reg) is Err,
    ensures
        rewrite_all(s, m, reg) == rewrite_all(s, n, reg),
    decreases m,
{
    if n < m {
        lemma_rewrite_all_err(s, n, (m - 1) as nat, reg);
    }
}

/// The pieces of the lowered class gathered so far.
struct PartsBuf {
    before: Vec<Stmt>,
    methods: Vec<OutMethod>,
    inits: Vec<Expr>,
    after: Vec<Stmt>,
}

impl View for PartsBuf {
    type V = Parts;

    closed spec fn view(&self) -> Parts {
        Parts {
            before: self.before@,
            methods: self.methods@,
            inits: self.inits@,
            after: self.after@,
        }
    }
}

/// Rewrites a field's value, `undefined` when it has none.
fn rewrite_value(value: &Option<Expr>, reg: &Vec<PrivateEntry>) -> (r: Result<Expr, LowerError>)
    requires
        *value matches Some(v) ==> !is_wrapper_or_type_syntax(v),
    ensures
        r == rewrite(field_value(*value), reg@),
{
    match value {
        Some(v) => {
            assert_expr_neither_parenthesis_nor_typescript_syntax(v);
            rewrite_private(v, reg)
        },
        None => Ok(Expr::Undefined),
    }
}

/// An empty piece.
fn no_piece() -> (r: PartsBuf)
    ensures
        r@ == no_parts(),
{
    PartsBuf { before: Vec::new(), methods: Vec::new(), inits: Vec::new(), after: Vec::new() }
}

/// The piece of a field initializer, placed where it runs: the constructor
/// or, for a static field, right after the class definition.
fn placed_piece(is_static: bool, before: Vec<Stmt>, init: Expr) -> (r: PartsBuf)
    ensures
        r@ == placed(is_static, before@, init),
{
    let mut r = no_piece();
    r.before = before;
    if is_static {
        r.after.push(Stmt::Expr(init));
    } else {
        r.inits.push(init);
    }
    r
}

/// Appends the pieces of `q` to those of `buf`.
fn append_piece(buf: &mut PartsBuf, q: PartsBuf)
    ensures
        final(buf)@ == concat(old(buf)@, q@),
{
    let mut q = q;
    buf.before.append(&mut q.before);
    buf.methods.append(&mut q.methods);
    buf.inits.append(&mut q.inits);
    buf.after.append(&mut q.after);
}

/// The reference to the class that stands for `this` in static code.
fn class_ref(class_symbol: usize) -> (r: Expr)
    ensures
        r == target(true, class_symbol),
{
    Expr::Ident(IdentRef { symbol: class_symbol, flags: ReferenceFlags::Read })
}

/// A field value as its initializer runs; see `in_context`.
fn value_in_context(is_static: bool, v: Expr, class_symbol: usize) -> (r: Expr)
    ensures
        r == in_context(is_static, v, class_symbol),
{
    if is_static {
        replace_this(&v, &class_ref(class_symbol))
    } else {
        v
    }
}

/// Lowers one member into the piece it contributes.
fn lower_one(
    m: &ClassMember,
    sym: usize,
    binding: Option<&BoundIdentifier>,
    class_symbol: usize,
    reg: &Vec<PrivateEntry>,
) -> (r: Result<PartsBuf, LowerError>)
    requires
        captured_ok(*m),
        needs_binding(*m) ==> (binding matches Some(bi) && bi.symbol == sym),
    ensures
        match lower_member(*m, sym, class_symbol, reg@) {
            Ok(q) => r matches Ok(p) && p@ == q,
            Err(e) => r == Err::<PartsBuf, LowerError>(e),
        },
{
    match m {
        ClassMember::Field { key, value, is_static } => {
            let t = if *is_static {
                class_ref(class_symbol)
            } else {
                Expr::This
            };
            match key {
                Key::Name(n) => {
                    let v = rewrite_value(value, reg)?;
                    let v = value_in_context(*is_static, v, class_symbol);
                    let init = Expr::PropSet(Box::new(t), PropKey::Name(*n), Box::new(v));
                    Ok(placed_piece(*is_static, Vec::new(), init))
                },
                Key::Computed(k) => {
                    assert_expr_neither_parenthesis_nor_typescript_syntax(k);
                    let rk = rewrite_private(k, reg)?;
                    let v = rewrite_value(value, reg)?;
                    let v = value_in_context(*is_static, v, class_symbol);
                    let mut before: Vec<Stmt> = Vec::new();
                    before.push(create_variable_declaration(binding.unwrap(), rk));
                    let init = Expr::PropSet(Box::new(t), PropKey::Binding(sym), Box::new(v));
                    Ok(placed_piece(*is_static, before, init))
                },
                Key::Private(_) => {
                    let v = rewrite_value(value, reg)?;
                    let v = value_in_context(*is_static, v, class_symbol);
                    let mut before: Vec<Stmt> = Vec::new();
                    before.push(create_variable_declaration(binding.unwrap(), Expr::NewStorage));
                    let init = Expr::StorageSet(sym, Box::new(t), Box::new(v));
                    Ok(placed_piece(*is_static, before, init))
                },
            }
        },
        ClassMember::Method { key, is_static, body } => {
            let mut q = no_piece();
            match key {
                Key::Name(n) => {
                    let b = rewrite_private(body, reg)?;
                    q.methods.push(OutMethod { key: PropKey::Name(*n), is_static: *is_static, body: b });
                },
                Key::Computed(k) => {
                    assert_expr_neither_parenthesis_nor_typescript_syntax(k);
                    let rk = rewrite_private(k, reg)?;
                    let b = rewrite_private(body, reg)?;
                    q.before.push(create_variable_declaration(binding.unwrap(), rk));
                    q.methods.push(OutMethod { key: PropKey::Binding(sym), is_static: *is_static, body: b });
                },
                Key::Private(_) => {
                    let b = rewrite_private(body, reg)?;
                    let f = Expr::Function(Box::new(b));
                    q.before.push(create_variable_declaration(binding.unwrap(), f));
                },
            }
            Ok(q)
        },
        ClassMember::StaticBlock { body } => {
            let b = rewrite_private(body, reg)?;
            let mut q = no_piece();
            q.after.push(Stmt::Expr(replace_this(&b, &class_ref(class_symbol))));
            Ok(q)
        },
    }
}

/// Lowers a class. The synthesized bindings are placeholders declared in
/// `scope`, in member order, each name longer than every name before it;
/// the result is exactly `lower_spec` of the class, with the bindings
/// numbered from the scope's old length on.
pub fn lower_class(class: &ClassDef, scope: &mut Scope) -> (r: Result<LoweredClass, LowerError>)
    requires
        old(scope)@.len() + class.members@.len() < usize::MAX,
        longest(old(scope)@) + class.members@.len() < usize::MAX,
        forall|i: int| 0 <= i < class.members@.len() ==> captured_ok(#[trigger] class.members@[i]),
    ensures
        final(scope)@.len() == old(scope)@.len() + bindings_before(class.members@, class.members@.len()),
        final(scope)@.take(old(scope)@.len() as int) == old(scope)@,
        forall|i: int, j: int|
            0 <= i < j < final(scope)@.len() && j >= old(scope)@.len() ==> #[trigger] final(scope)@[i].len()
                < #[trigger] final(scope)@[j].len(),
        match lower_spec(class.members@, class.has_super, class.ctor_body@, class.class_symbol, old(scope)@.len()) {
            Ok(v) => r matches Ok(l) && l@ == v,
            Err(e) => r == Err::<LoweredClass, LowerError>(e),
        },
{
    let ms = &class.members;
    let base = scope.len();
    let bs = declare_bindings(ms, scope);
    let reg = match build_registry(ms, &bs, base) {
        Ok(reg) => reg,
        Err(e) => return Err(e),
    };
    let mut buf = no_piece();
    let mut i: usize = 0;
    let mut b: usize = 0;
    while i < ms.len()
        invariant
            i <= ms@.len(),
            b == bindings_before(ms@, i as nat),
            b <= i,
            ms@ == class.members@,
            base == old(scope)@.len(),
            base + ms@.len() < usize::MAX,
            bs@.len() == bindings_before(ms@, ms@.len()),
            forall|j: int| 0 <= j < bs@.len() ==> (#[trigger] bs@[j]).symbol == base + j,
            forall|j: int| 0 <= j < ms@.len() ==> captured_ok(#[trigger] ms@[j]),
            registry(ms@, ms@.len(), base as nat) == Ok::<Seq<PrivateEntry>, LowerError>(reg@),
            lower_members(ms@, i as nat, base as nat, class.class_symbol, reg@) == Ok::<Parts, LowerError>(buf@),
            scope@.len() == old(scope)@.len() + bindings_before(class.members@, class.members@.len()),
            scope@.take(old(scope)@.len() as int) == old(scope)@,
            forall|x: int, y: int|
                0 <= x < y < scope@.len() && y >= old(scope)@.len() ==> #[trigger] scope@[x].len()
                    < #[trigger] scope@[y].len(),
        decreases ms@.len() - i,
    {
        proof {
            lemma_bindings_monotonic(ms@, i as nat + 1, ms@.len());
        }
        let needs = member_needs_binding(&ms[i]);
        let sym = base + b;
        let binding = if needs {
            Some(&bs[b])
        } else {
            None
        };
        match lower_one(&ms[i], sym, binding, class.class_symbol, &reg) {
            Ok(q) => append_piece(&mut buf, q),
            Err(e) => {
                proof {
                    assert(lower_members(ms@, i as nat + 1, base as nat, class.class_symbol, reg@)
                        == Err::<Parts, LowerError>(e));
                    lemma_members_err(ms@, i as nat + 1, ms@.len(), base as nat, class.class_symbol, reg@);
                    assert(lower_members(ms@, ms@.len(), base as nat, class.class_symbol, reg@)
                        == Err::<Parts, LowerError>(e));
                }
                return Err(e);
            },
        }
        if needs {
            b = b + 1;
        }
        i = i + 1;
    }
    let ctor = &class.ctor_body;
    let mut body: Vec<Expr> = Vec::new();
    let mut k: usize = 0;
    while k < ctor.len()
        invariant
            k <= ctor@.len(),
            ctor@ == class.ctor_body@,
            ms@ == class.members@,
            base == old(scope)@.len(),
            registry(ms@, ms@.len(), base as nat) == Ok::<Seq<PrivateEntry>, LowerError>(reg@),
            lower_members(ms@, ms@.len(), base as nat, class.class_symbol, reg@) == Ok::<Parts, LowerError>(buf@),
            rewrite_all(ctor@, k as nat, reg@) == Ok::<Seq<Expr>, LowerError>(body@),
            scope@.len() == old(scope)@.len() + bindings_before(class.members@, class.members@.len()),
            scope@.take(old(scope)@.len() as int) == old(scope)@,
            forall|x: int, y: int|
                0 <= x < y < scope@.len() && y >= old(scope)@.len() ==> #[trigger] scope@[x].len()
                    < #[trigger] scope@[y].len(),
        decreases ctor@.len() - k,
    {
        match rewrite_private(&ctor[k], &reg) {
            Ok(x) => body.push(x),
            Err(e) => {
                proof {
                    assert(rewrite_all(ctor@, k as nat + 1, reg@) == Err::<Seq<Expr>, LowerError>(e));
                    lemma_rewrite_all_err(ctor@, k as nat + 1, ctor@.len(), reg@);
                }
                return Err(e);
            },
        }
        k = k + 1;
    }
    let mut constructor: Vec<Stmt> = Vec::new();
    if class.has_super {
        constructor.push(Stmt::SuperCall);
    }
    proof {
        assert(constructor@ =~= super_call(class.has_super));
    }
    let mut inits = exprs_into_stmts(buf.inits);
    constructor.append(&mut inits);
    let mut rest = exprs_into_stmts(body);
    constructor.append(&mut rest);
    Ok(LoweredClass { before: buf.before, methods: buf.methods, constructor, after: buf.after })
}

} // verus!
