//! Properties of the lowering, stated over its specification and proved.
use vstd::prelude::*;

use crate::ast::{lemma_subst_this_free, this_free, Expr, PropKey, Stmt};
use crate::binding::{lemma_longest_bounds, longest};
use crate::class::{rewrite, ClassMember, Key, LoweredView, OutMethod, PrivateEntry};
use crate::lower::{
    lemma_bindings_monotonic, needs_binding, as_stmts, bindings_before, concat, field_value, lower_member, lower_members, lower_spec,
    member_symbol, no_parts, private_of, target, registry, rewrite_all, super_call, Parts,
};

verus! {

/// The expression holds no private-name access.
pub open spec fn no_private(e: Expr) -> bool
    decreases e,
{
    match e {
        Expr::Paren(a) => no_private(*a),
        Expr::TsOnly(a) => no_private(*a),
        Expr::Assign(_, a) => no_private(*a),
        Expr::PropGet(a, _) => no_private(*a),
        Expr::StorageGet(_, a) => no_private(*a),
        Expr::Function(a) => no_private(*a),
        Expr::BoundMethod(_, a) => no_private(*a),
        Expr::Add(a, b) => no_private(*a) && no_private(*b),
        Expr::Comma(a, b) => no_private(*a) && no_private(*b),
        Expr::PropSet(a, _, b) => no_private(*a) && no_private(*b),
        Expr::StorageSet(_, a, b) => no_private(*a) && no_private(*b),
        Expr::ReadOnlyError(_, a, b) => no_private(*a) && no_private(*b),
        Expr::PrivateGet(..) => false,
        Expr::PrivateSet(..) => false,
        _ => true,
    }
}

/// Rewriting leaves an expression without private accesses as it is.
pub proof fn lemma_rewrite_identity(e: Expr, reg: Seq<PrivateEntry>)
    requires
        no_private(e),
    ensures
        rewrite(e, reg) == Ok::<Expr, crate::class::LowerError>(e),
    decreases e,
{
    match e {
        Expr::Paren(a) => lemma_rewrite_identity(*a, reg),
        Expr::TsOnly(a) => lemma_rewrite_identity(*a, reg),
        Expr::Assign(_, a) => lemma_rewrite_identity(*a, reg),
        Expr::PropGet(a, _) => lemma_rewrite_identity(*a, reg),
        Expr::StorageGet(_, a) => lemma_rewrite_identity(*a, reg),
        Expr::Function(a) => lemma_rewrite_identity(*a, reg),
        Expr::BoundMethod(_, a) => lemma_rewrite_identity(*a, reg),
        Expr::Add(a, b) => {
            lemma_rewrite_identity(*a, reg);
            lemma_rewrite_identity(*b, reg);
        },
        Expr::Comma(a, b) => {
            lemma_rewrite_identity(*a, reg);
            lemma_rewrite_identity(*b, reg);
        },
        Expr::PropSet(a, _, b) => {
            lemma_rewrite_identity(*a, reg);
            lemma_rewrite_identity(*b, reg);
        },
        Expr::StorageSet(_, a, b) | Expr::ReadOnlyError(_, a, b) => {
            lemma_rewrite_identity(*a, reg);
            lemma_rewrite_identity(*b, reg);
        },
        _ => {},
    }
}

/// A private name is never resolvable from the lowered code: whatever a
/// successful rewrite returns holds no private-name access, each having
/// become an access through the class's side table or shared function.
pub proof fn lemma_rewrite_clears_private(e: Expr, reg: Seq<PrivateEntry>)
    ensures
        rewrite(e, reg) matches Ok(x) ==> no_private(x),
    decreases e,
{
    match e {
        Expr::Paren(a) => lemma_rewrite_clears_private(*a, reg),
        Expr::TsOnly(a) => lemma_rewrite_clears_private(*a, reg),
        Expr::Assign(_, a) => lemma_rewrite_clears_private(*a, reg),
        Expr::PropGet(a, _) => lemma_rewrite_clears_private(*a, reg),
        Expr::StorageGet(_, a) => lemma_rewrite_clears_private(*a, reg),
        Expr::Function(a) => lemma_rewrite_clears_private(*a, reg),
        Expr::BoundMethod(_, a) => lemma_rewrite_clears_private(*a, reg),
        Expr::PrivateGet(a, _) => lemma_rewrite_clears_private(*a, reg),
        Expr::Add(a, b) => {
            lemma_rewrite_clears_private(*a, reg);
            lemma_rewrite_clears_private(*b, reg);
        },
        Expr::Comma(a, b) => {
            lemma_rewrite_clears_private(*a, reg);
            lemma_rewrite_clears_private(*b, reg);
        },
        Expr::PropSet(a, _, b) => {
            lemma_rewrite_clears_private(*a, reg);
            lemma_rewrite_clears_private(*b, reg);
        },
        Expr::StorageSet(_, a, b) | Expr::ReadOnlyError(_, a, b) => {
            lemma_rewrite_clears_private(*a, reg);
            lemma_rewrite_clears_private(*b, reg);
        },
        Expr::PrivateSet(a, _, b) => {
            lemma_rewrite_clears_private(*a, reg);
            lemma_rewrite_clears_private(*b, reg);
        },
        _ => {},
    }
}

/// Successive placeholders are pairwise distinct and name no symbol that
/// was in the scope before them: `a` is made in `s`, then `b` in `s` with `a`.
pub proof fn lemma_placeholders_distinct(s: Seq<Seq<u8>>, a: Seq<u8>, b: Seq<u8>)
    requires
        a.len() == longest(s) + 1,
        b.len() == longest(s.push(a)) + 1,
    ensures
        !s.contains(a),
        !s.contains(b),
        a != b,
{
    lemma_longest_bounds(s);
    lemma_longest_bounds(s.push(a));
    assert(s.push(a)[s.len() as int] == a);
    if s.contains(a) {
        let j = choose|j: int| 0 <= j < s.len() && s[j] == a;
        assert(s[j].len() <= longest(s));
    }
    if s.contains(b) {
        let j = choose|j: int| 0 <= j < s.len() && s[j] == b;
        assert(s.push(a)[j] == s[j]);
    }
}

/// A public instance field with a static name, whose value uses no private name.
pub open spec fn public_instance_field(m: ClassMember) -> bool {
    match m {
        ClassMember::Field { key: Key::Name(_), value, is_static } => !is_static && (value matches Some(
            v,
        ) ==> no_private(v)),
        _ => false,
    }
}

/// `this.key = value`, the initializer of a public field.
pub open spec fn field_init(m: ClassMember) -> Expr {
    match m {
        ClassMember::Field { key: Key::Name(n), value, .. } => Expr::PropSet(
            Box::new(Expr::This),
            PropKey::Name(n),
            Box::new(field_value(value)),
        ),
        _ => Expr::Undefined,
    }
}

/// A public method with a static name, whose body uses no private name.
pub open spec fn plain_method(m: ClassMember) -> bool {
    match m {
        ClassMember::Method { key: Key::Name(_), body, .. } => no_private(body),
        _ => false,
    }
}

/// The method as the lowered class keeps it.
pub open spec fn kept_method(m: ClassMember) -> OutMethod {
    match m {
        ClassMember::Method { key: Key::Name(n), is_static, body } => OutMethod {
            key: PropKey::Name(n),
            is_static,
            body,
        },
        _ => OutMethod { key: PropKey::Name(0), is_static: false, body: Expr::Undefined },
    }
}

proof fn lemma_registry_empty(ms: Seq<ClassMember>, n: nat, base: nat)
    requires
        n <= ms.len(),
        forall|i: int| 0 <= i < ms.len() ==> private_of(#[trigger] ms[i]) is None,
    ensures
        registry(ms, n, base) == Ok::<Seq<PrivateEntry>, crate::class::LowerError>(Seq::empty()),
        bindings_before(ms, n) == 0 <== (forall|i: int| 0 <= i < ms.len() ==> !crate::lower::needs_binding(#[trigger] ms[i])),
    decreases n,
{
    if n > 0 {
        lemma_registry_empty(ms, (n - 1) as nat, base);
        assert(private_of(ms[n - 1]) is None);
    }
}

proof fn lemma_rewrite_all_identity(s: Seq<Expr>, n: nat, reg: Seq<PrivateEntry>)
    requires
        n <= s.len(),
        forall|i: int| 0 <= i < s.len() ==> no_private(#[trigger] s[i]),
    ensures
        rewrite_all(s, n, reg) == Ok::<Seq<Expr>, crate::class::LowerError>(s.take(n as int)),
    decreases n,
{
    if n > 0 {
        lemma_rewrite_all_identity(s, (n - 1) as nat, reg);
        lemma_rewrite_identity(s[n - 1], reg);
        assert(s.take(n - 1).push(s[n - 1]) =~= s.take(n as int));
    } else {
        assert(s.take(0) =~= Seq::<Expr>::empty());
    }
}

proof fn lemma_fields_lowered(ms: Seq<ClassMember>, n: nat, base: nat, cs: usize, reg: Seq<PrivateEntry>)
    requires
        n <= ms.len(),
        forall|i: int| 0 <= i < ms.len() ==> public_instance_field(#[trigger] ms[i]),
    ensures
        lower_members(ms, n, base, cs, reg) == Ok::<Parts, crate::class::LowerError>(
            Parts { inits: ms.take(n as int).map_values(|m: ClassMember| field_init(m)), ..no_parts() },
        ),
    decreases n,
{
    if n > 0 {
        lemma_fields_lowered(ms, (n - 1) as nat, base, cs, reg);
        let m = ms[n - 1];
        assert(public_instance_field(m));
        lemma_rewrite_identity(field_value(m->value), reg);
        let q = lower_member(m, member_symbol(ms, (n - 1) as nat, base), cs, reg)->Ok_0;
        assert(q == Parts { inits: seq![field_init(m)], ..no_parts() });
        assert(ms.take(n - 1).map_values(|m: ClassMember| field_init(m)).push(field_init(m))
            =~= ms.take(n as int).map_values(|m: ClassMember| field_init(m)));
        let p = lower_members(ms, (n - 1) as nat, base, cs, reg)->Ok_0;
        assert(concat(p, q).inits =~= ms.take(n as int).map_values(|m: ClassMember| field_init(m)));
        assert(concat(p, q).before =~= Seq::<Stmt>::empty());
        assert(concat(p, q).after =~= Seq::<Stmt>::empty());
        assert(concat(p, q).methods =~= Seq::<OutMethod>::empty());
    } else {
        assert(ms.take(0).map_values(|m: ClassMember| field_init(m)) =~= Seq::<Expr>::empty());
    }
}

/// In a class of public instance fields only, with no computed key, the
/// lowered constructor runs the base-constructor call, then the field
/// initializers in exactly source order, then its own statements; nothing is
/// hoisted, nothing runs after the class, and no binding is synthesized.
pub proof fn lemma_public_fields_in_order(
    ms: Seq<ClassMember>,
    has_super: bool,
    ctor: Seq<Expr>,
    class_symbol: usize,
    base: nat,
)
    requires
        forall|i: int| 0 <= i < ms.len() ==> public_instance_field(#[trigger] ms[i]),
        forall|i: int| 0 <= i < ctor.len() ==> no_private(#[trigger] ctor[i]),
    ensures
        lower_spec(ms, has_super, ctor, class_symbol, base) == Ok::<LoweredView, crate::class::LowerError>(
            LoweredView {
                before: Seq::empty(),
                methods: Seq::empty(),
                constructor: super_call(has_super) + as_stmts(ms.map_values(|m: ClassMember| field_init(m)))
                    + as_stmts(ctor),
                after: Seq::empty(),
            },
        ),
        bindings_before(ms, ms.len()) == 0,
{
    assert forall|i: int| 0 <= i < ms.len() implies private_of(#[trigger] ms[i]) is None
        && !crate::lower::needs_binding(ms[i]) by {
        assert(public_instance_field(ms[i]));
    }
    lemma_registry_empty(ms, ms.len(), base);
    lemma_fields_lowered(ms, ms.len(), base, class_symbol, Seq::empty());
    lemma_rewrite_all_identity(ctor, ctor.len(), Seq::empty());
    assert(ms.take(ms.len() as int) =~= ms);
    assert(ctor.take(ctor.len() as int) =~= ctor);
}

proof fn lemma_methods_lowered(ms: Seq<ClassMember>, n: nat, base: nat, cs: usize, reg: Seq<PrivateEntry>)
    requires
        n <= ms.len(),
        forall|i: int| 0 <= i < ms.len() ==> plain_method(#[trigger] ms[i]),
    ensures
        lower_members(ms, n, base, cs, reg) == Ok::<Parts, crate::class::LowerError>(
            Parts { methods: ms.take(n as int).map_values(|m: ClassMember| kept_method(m)), ..no_parts() },
        ),
    decreases n,
{
    if n > 0 {
        lemma_methods_lowered(ms, (n - 1) as nat, base, cs, reg);
        let m = ms[n - 1];
        assert(plain_method(m));
        lemma_rewrite_identity(m->Method_body, reg);
        assert(ms.take(n - 1).map_values(|m: ClassMember| kept_method(m)).push(kept_method(m))
            =~= ms.take(n as int).map_values(|m: ClassMember| kept_method(m)));
        let p = lower_members(ms, (n - 1) as nat, base, cs, reg)->Ok_0;
        let q = lower_member(m, member_symbol(ms, (n - 1) as nat, base), cs, reg)->Ok_0;
        assert(concat(p, q).methods =~= ms.take(n as int).map_values(|m: ClassMember| kept_method(m)));
        assert(concat(p, q).before =~= Seq::<Stmt>::empty());
        assert(concat(p, q).after =~= Seq::<Stmt>::empty());
        assert(concat(p, q).inits =~= Seq::<Expr>::empty());
    } else {
        assert(ms.take(0).map_values(|m: ClassMember| kept_method(m)) =~= Seq::<OutMethod>::empty());
    }
}

/// A class that uses none of the newer features (only public methods with
/// static names, no fields, private names, static blocks or computed keys)
/// lowers to itself: the same methods in the same order, the same
/// constructor, nothing hoisted or appended, and no binding synthesized.
pub proof fn lemma_plain_class_unchanged(
    ms: Seq<ClassMember>,
    has_super: bool,
    ctor: Seq<Expr>,
    class_symbol: usize,
    base: nat,
)
    requires
        forall|i: int| 0 <= i < ms.len() ==> plain_method(#[trigger] ms[i]),
        forall|i: int| 0 <= i < ctor.len() ==> no_private(#[trigger] ctor[i]),
    ensures
        lower_spec(ms, has_super, ctor, class_symbol, base) == Ok::<LoweredView, crate::class::LowerError>(
            LoweredView {
                before: Seq::empty(),
                methods: ms.map_values(|m: ClassMember| kept_method(m)),
                constructor: super_call(has_super) + as_stmts(ctor),
                after: Seq::empty(),
            },
        ),
        bindings_before(ms, ms.len()) == 0,
{
    assert forall|i: int| 0 <= i < ms.len() implies private_of(#[trigger] ms[i]) is None
        && !crate::lower::needs_binding(ms[i]) by {
        assert(plain_method(ms[i]));
    }
    lemma_registry_empty(ms, ms.len(), base);
    lemma_methods_lowered(ms, ms.len(), base, class_symbol, Seq::empty());
    lemma_rewrite_all_identity(ctor, ctor.len(), Seq::empty());
    assert(ms.take(ms.len() as int) =~= ms);
    assert(ctor.take(ctor.len() as int) =~= ctor);
    assert(as_stmts(Seq::<Expr>::empty()) =~= Seq::<Stmt>::empty());
    assert(super_call(has_super) + Seq::<Stmt>::empty() =~= super_call(has_super));
}

/// The declaration a member places before the class, `sym` being its binding.
pub open spec fn declaration(m: ClassMember, sym: usize, reg: Seq<PrivateEntry>) -> Seq<Stmt> {
    match m {
        ClassMember::Field { key: Key::Computed(k), .. } => seq![Stmt::Var(sym, rewrite(k, reg)->Ok_0)],
        ClassMember::Method { key: Key::Computed(k), .. } => seq![Stmt::Var(sym, rewrite(k, reg)->Ok_0)],
        ClassMember::Field { key: Key::Private(_), .. } => seq![Stmt::Var(sym, Expr::NewStorage)],
        ClassMember::Method { key: Key::Private(_), body, .. } => seq![
            Stmt::Var(sym, Expr::Function(Box::new(rewrite(body, reg)->Ok_0))),
        ],
        _ => Seq::empty(),
    }
}

proof fn lemma_member_declaration(m: ClassMember, sym: usize, cs: usize, reg: Seq<PrivateEntry>)
    requires
        lower_member(m, sym, cs, reg) is Ok,
    ensures
        lower_member(m, sym, cs, reg)->Ok_0.before == declaration(m, sym, reg),
        declaration(m, sym, reg).len() == if needs_binding(m) {
            1int
        } else {
            0int
        },
{
}

proof fn lemma_declarations(ms: Seq<ClassMember>, n: nat, base: nat, cs: usize, reg: Seq<PrivateEntry>)
    requires
        n <= ms.len(),
        lower_members(ms, n, base, cs, reg) is Ok,
    ensures
        lower_members(ms, n, base, cs, reg)->Ok_0.before.len() == bindings_before(ms, n),
        forall|i: int|
            0 <= i < n && needs_binding(#[trigger] ms[i]) ==> lower_members(ms, n, base, cs, reg)->Ok_0.before[bindings_before(
                ms,
                i as nat,
            ) as int] == declaration(ms[i], member_symbol(ms, i as nat, base), reg)[0],
    decreases n,
{
    if n > 0 {
        let k = (n - 1) as nat;
        lemma_declarations(ms, k, base, cs, reg);
        let p = lower_members(ms, k, base, cs, reg)->Ok_0;
        let q = lower_member(ms[k as int], member_symbol(ms, k, base), cs, reg)->Ok_0;
        lemma_member_declaration(ms[k as int], member_symbol(ms, k, base), cs, reg);
        assert forall|i: int|
            0 <= i < n && needs_binding(#[trigger] ms[i]) implies lower_members(ms, n, base, cs, reg)->Ok_0.before[bindings_before(
            ms,
            i as nat,
        ) as int] == declaration(ms[i], member_symbol(ms, i as nat, base), reg)[0] by {
            if i < k {
                lemma_bindings_monotonic(ms, (i + 1) as nat, k);
            }
        }
    }
}

/// Every computed key is evaluated exactly once, at class-definition time:
/// the lowered class declares it in a single `var` placed before the class
/// (so before any static block, those running after it), in the slot of
/// that member among the hoisted declarations, which hold one declaration per
/// synthesized binding, in member order.
pub proof fn lemma_computed_key_hoisted_once(
    ms: Seq<ClassMember>,
    has_super: bool,
    ctor: Seq<Expr>,
    class_symbol: usize,
    base: nat,
    i: int,
)
    requires
        lower_spec(ms, has_super, ctor, class_symbol, base) is Ok,
        0 <= i < ms.len(),
        ms[i] matches ClassMember::Field { key: Key::Computed(_), .. } || ms[i] matches ClassMember::Method {
            key: Key::Computed(_),
            ..
        },
    ensures
        ({
            let v = lower_spec(ms, has_super, ctor, class_symbol, base)->Ok_0;
            let reg = registry(ms, ms.len(), base)->Ok_0;
            &&& v.before.len() == bindings_before(ms, ms.len())
            &&& ms[i] matches ClassMember::Field { key: Key::Computed(k), .. } ==> v.before[bindings_before(
                ms,
                i as nat,
            ) as int] == Stmt::Var(member_symbol(ms, i as nat, base), rewrite(k, reg)->Ok_0)
            &&& ms[i] matches ClassMember::Method { key: Key::Computed(k), .. } ==> v.before[bindings_before(
                ms,
                i as nat,
            ) as int] == Stmt::Var(member_symbol(ms, i as nat, base), rewrite(k, reg)->Ok_0)
        }),
{
    let reg = registry(ms, ms.len(), base)->Ok_0;
    lemma_declarations(ms, ms.len(), base, class_symbol, reg);
}

/// Private fields have independent backing storage: each declares its own
/// side table before the class, under its own binding, distinct from that of
/// any other member.
pub proof fn lemma_private_fields_separate(
    ms: Seq<ClassMember>,
    has_super: bool,
    ctor: Seq<Expr>,
    class_symbol: usize,
    base: nat,
    i: int,
    j: int,
)
    requires
        lower_spec(ms, has_super, ctor, class_symbol, base) is Ok,
        0 <= i < j < ms.len(),
        base + ms.len() < usize::MAX,
        ms[i] matches ClassMember::Field { key: Key::Private(_), .. },
        ms[j] matches ClassMember::Field { key: Key::Private(_), .. },
    ensures
        ({
            let v = lower_spec(ms, has_super, ctor, class_symbol, base)->Ok_0;
            &&& v.before[bindings_before(ms, i as nat) as int] == Stmt::Var(
                member_symbol(ms, i as nat, base),
                Expr::NewStorage,
            )
            &&& v.before[bindings_before(ms, j as nat) as int] == Stmt::Var(
                member_symbol(ms, j as nat, base),
                Expr::NewStorage,
            )
            &&& member_symbol(ms, i as nat, base) != member_symbol(ms, j as nat, base)
        }),
{
    let reg = registry(ms, ms.len(), base)->Ok_0;
    lemma_declarations(ms, ms.len(), base, class_symbol, reg);
    lemma_bindings_monotonic(ms, (i + 1) as nat, j as nat);
    lemma_bindings_monotonic(ms, j as nat, ms.len());
    lemma_bindings_monotonic(ms, 0, ms.len());
}

/// Every statement of `s` is an expression statement with no `this` of
/// the enclosing context.
pub open spec fn all_this_free(s: Seq<Stmt>) -> bool {
    forall|i: int| 0 <= i < s.len() ==> (#[trigger] s[i] matches Stmt::Expr(e) && this_free(e))
}

proof fn lemma_member_after_this_free(m: ClassMember, sym: usize, cs: usize, reg: Seq<PrivateEntry>)
    requires
        lower_member(m, sym, cs, reg) is Ok,
    ensures
        all_this_free(lower_member(m, sym, cs, reg)->Ok_0.after),
{
    let t = target(true, cs);
    match m {
        ClassMember::Field { value, .. } => {
            lemma_subst_this_free(rewrite(field_value(value), reg)->Ok_0, t);
        },
        ClassMember::StaticBlock { body } => {
            lemma_subst_this_free(rewrite(body, reg)->Ok_0, t);
        },
        _ => {},
    }
}

proof fn lemma_members_after_this_free(
    ms: Seq<ClassMember>,
    n: nat,
    base: nat,
    cs: usize,
    reg: Seq<PrivateEntry>,
)
    requires
        n <= ms.len(),
        lower_members(ms, n, base, cs, reg) is Ok,
    ensures
        all_this_free(lower_members(ms, n, base, cs, reg)->Ok_0.after),
    decreases n,
{
    if n > 0 {
        let k = (n - 1) as nat;
        lemma_members_after_this_free(ms, k, base, cs, reg);
        lemma_member_after_this_free(ms[k as int], member_symbol(ms, k, base), cs, reg);
        let p = lower_members(ms, k, base, cs, reg)->Ok_0;
        let q = lower_member(ms[k as int], member_symbol(ms, k, base), cs, reg)->Ok_0;
        assert forall|i: int| 0 <= i < (p.after + q.after).len() implies (#[trigger] (p.after
            + q.after)[i] matches Stmt::Expr(e) && this_free(e)) by {
            if i < p.after.len() {
                assert((p.after + q.after)[i] == p.after[i]);
            } else {
                assert((p.after + q.after)[i] == q.after[i - p.after.len()]);
            }
        }
    }
}

/// Static field initializers and static blocks, which run after the class
/// definition, keep their meaning there: no statement placed after the class
/// refers to the enclosing `this`, each `this` having become the class.
pub proof fn lemma_static_code_this_free(
    ms: Seq<ClassMember>,
    has_super: bool,
    ctor: Seq<Expr>,
    class_symbol: usize,
    base: nat,
)
    requires
        lower_spec(ms, has_super, ctor, class_symbol, base) is Ok,
    ensures
        all_this_free(lower_spec(ms, has_super, ctor, class_symbol, base)->Ok_0.after),
{
    let reg = registry(ms, ms.len(), base)->Ok_0;
    lemma_members_after_this_free(ms, ms.len(), base, class_symbol, reg);
}

/// Any number of placeholders declared after position `base` of a scope,
/// each longer than every name before it (as `create_underscore_ident_name`
/// and `lower_class` declare them), are pairwise distinct and differ from
/// every name declared before them.
pub proof fn lemma_placeholders_fresh(s: Seq<Seq<u8>>, base: nat)
    requires
        base <= s.len(),
        forall|i: int, j: int| 0 <= i < j < s.len() && j >= base ==> #[trigger] s[i].len() < #[trigger] s[j].len(),
    ensures
        forall|i: int, j: int| 0 <= i < s.len() && base <= j < s.len() && i != j ==> #[trigger] s[i] != #[trigger] s[j],
{
    assert forall|i: int, j: int| 0 <= i < s.len() && base <= j < s.len() && i != j implies #[trigger] s[i] != #[trigger] s[j] by {
        if i < j {
            assert(s[i].len() < s[j].len());
        } else {
            assert(s[j].len() < s[i].len());
        }
    }
}

} // verus!
