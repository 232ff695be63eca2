use class_properties::ast::{clone_expr, Expr, IdentRef, PropKey, ReferenceFlags, Stmt};
use class_properties::binding::{
    create_assignment, create_variable_declaration, exprs_into_stmts, BoundIdentifier, Scope,
};
use class_properties::class::{ClassDef, ClassMember, Key, LowerError, OutMethod};
use class_properties::guard::{
    assert_expr_neither_parenthesis_nor_typescript_syntax, is_parenthesis_or_typescript_syntax,
};
use class_properties::lower::lower_class;
use class_properties::table::{create_array, Counter};

const C_SYM: usize = 0;
const X: u64 = 100;
const Y: u64 = 101;
const V: u64 = 102;
const GET_V: u64 = 103;

fn num(n: i64) -> Expr {
    Expr::Num(n)
}

fn bx(e: Expr) -> Box<Expr> {
    Box::new(e)
}

fn class_ref() -> Expr {
    Expr::Ident(IdentRef { symbol: C_SYM, flags: ReferenceFlags::Read })
}

fn scope_with_class() -> Scope {
    let mut scope = Scope::new();
    scope.declare(b"C".to_vec());
    scope
}

fn class(members: Vec<ClassMember>, has_super: bool, ctor_body: Vec<Expr>) -> ClassDef {
    ClassDef { members, has_super, ctor_body, class_symbol: C_SYM }
}

#[test]
fn assignment_targets_binding_for_writing() {
    let b = BoundIdentifier { name: b"a".to_vec(), symbol: 3 };
    let e = create_assignment(&b, num(7));
    assert_eq!(
        e,
        Expr::Assign(IdentRef { symbol: 3, flags: ReferenceFlags::Write }, bx(num(7)))
    );
}

#[test]
fn variable_declaration_binds_init() {
    let b = BoundIdentifier { name: b"a".to_vec(), symbol: 5 };
    assert_eq!(create_variable_declaration(&b, num(1)), Stmt::Var(5, num(1)));
}

#[test]
fn expressions_become_statements_in_order() {
    let stmts = exprs_into_stmts(vec![num(1), Expr::Opaque(9), num(3)]);
    assert_eq!(
        stmts,
        vec![Stmt::Expr(num(1)), Stmt::Expr(Expr::Opaque(9)), Stmt::Expr(num(3))]
    );
    assert!(exprs_into_stmts(Vec::new()).is_empty());
}

#[test]
fn placeholders_never_collide() {
    let mut scope = Scope::new();
    scope.declare(b"_".to_vec());
    scope.declare(b"__".to_vec());
    scope.declare(b"value".to_vec());
    let a = scope.create_underscore_ident_name();
    let b = scope.create_underscore_ident_name();
    let c = scope.create_underscore_ident_name();
    assert_eq!(a.name, b"______".to_vec());
    assert_eq!(a.symbol, 3);
    assert_eq!(b.symbol, 4);
    assert_eq!(c.symbol, 5);
    let names = [a.name, b.name, c.name];
    for (i, n) in names.iter().enumerate() {
        assert!(n.iter().all(|&ch| ch == b'_'));
        assert!(n != &b"_".to_vec() && n != &b"__".to_vec() && n != &b"value".to_vec());
        for m in names.iter().skip(i + 1) {
            assert_ne!(n, m);
        }
    }
    assert_eq!(scope.len(), 6);
}

#[test]
fn first_placeholder_in_empty_scope_is_underscore() {
    let mut scope = Scope::new();
    let a = scope.create_underscore_ident_name();
    assert_eq!(a.name, b"_".to_vec());
    assert_eq!(a.symbol, 0);
}

#[test]
fn counter_table_of_four() {
    let mut c = Counter::new();
    let t = create_array::<4, u64, Counter>(&mut c);
    assert_eq!(t, vec![0, 1, 2, 3]);
    assert_eq!(c.count, 4);
}

#[test]
fn empty_table_calls_nothing() {
    let mut c = Counter { count: 9 };
    let t = create_array::<0, u64, Counter>(&mut c);
    assert!(t.is_empty());
    assert_eq!(c.count, 9);
}

#[test]
fn guard_recognises_wrappers() {
    assert!(is_parenthesis_or_typescript_syntax(&Expr::Paren(bx(num(1)))));
    assert!(is_parenthesis_or_typescript_syntax(&Expr::TsOnly(bx(num(1)))));
    assert!(!is_parenthesis_or_typescript_syntax(&num(1)));
    assert!(!is_parenthesis_or_typescript_syntax(&Expr::Add(bx(Expr::Paren(bx(num(1)))), bx(num(2)))));
    assert_expr_neither_parenthesis_nor_typescript_syntax(&num(1));
}

#[test]
fn clone_keeps_expression() {
    let e = Expr::PropSet(bx(Expr::This), PropKey::Name(X), bx(Expr::Add(bx(num(1)), bx(num(2)))));
    assert_eq!(clone_expr(&e), e);
}

#[test]
fn public_fields_run_in_source_order_after_base_call() {
    let members = vec![
        ClassMember::Field { key: Key::Name(X), value: Some(num(1)), is_static: false },
        ClassMember::Field { key: Key::Name(Y), value: None, is_static: false },
        ClassMember::Field { key: Key::Name(V), value: Some(Expr::Opaque(5)), is_static: false },
    ];
    let mut scope = scope_with_class();
    let out = lower_class(&class(members, true, vec![Expr::Opaque(77)]), &mut scope).unwrap();
    assert!(out.before.is_empty());
    assert!(out.after.is_empty());
    assert!(out.methods.is_empty());
    assert_eq!(
        out.constructor,
        vec![
            Stmt::SuperCall,
            Stmt::Expr(Expr::PropSet(bx(Expr::This), PropKey::Name(X), bx(num(1)))),
            Stmt::Expr(Expr::PropSet(bx(Expr::This), PropKey::Name(Y), bx(Expr::Undefined))),
            Stmt::Expr(Expr::PropSet(bx(Expr::This), PropKey::Name(V), bx(Expr::Opaque(5)))),
            Stmt::Expr(Expr::Opaque(77)),
        ]
    );
    assert_eq!(scope.len(), 1);
}

#[test]
fn computed_keys_are_hoisted_once_before_the_class() {
    let members = vec![
        ClassMember::Field { key: Key::Computed(Expr::Opaque(1)), value: Some(num(1)), is_static: false },
        ClassMember::StaticBlock { body: Expr::Opaque(3) },
        ClassMember::Method { key: Key::Computed(Expr::Opaque(2)), is_static: false, body: num(0) },
    ];
    let mut scope = scope_with_class();
    let out = lower_class(&class(members, false, Vec::new()), &mut scope).unwrap();
    assert_eq!(out.before, vec![Stmt::Var(1, Expr::Opaque(1)), Stmt::Var(2, Expr::Opaque(2))]);
    assert_eq!(
        out.constructor,
        vec![Stmt::Expr(Expr::PropSet(bx(Expr::This), PropKey::Binding(1), bx(num(1))))]
    );
    assert_eq!(out.methods, vec![OutMethod { key: PropKey::Binding(2), is_static: false, body: num(0) }]);
    assert_eq!(out.after, vec![Stmt::Expr(Expr::Opaque(3))]);
    assert_eq!(scope.len(), 3);
}

#[test]
fn static_field_then_static_block() {
    // class C { static x = 1; static { C.y = C.x + 1; } }
    let block = Expr::PropSet(
        bx(class_ref()),
        PropKey::Name(Y),
        bx(Expr::Add(bx(Expr::PropGet(bx(class_ref()), PropKey::Name(X))), bx(num(1)))),
    );
    let members = vec![
        ClassMember::Field { key: Key::Name(X), value: Some(num(1)), is_static: true },
        ClassMember::StaticBlock { body: clone_expr(&block) },
    ];
    let mut scope = scope_with_class();
    let out = lower_class(&class(members, false, Vec::new()), &mut scope).unwrap();
    assert!(out.before.is_empty());
    assert!(out.constructor.is_empty());
    assert!(out.methods.is_empty());
    assert_eq!(
        out.after,
        vec![
            Stmt::Expr(Expr::PropSet(bx(class_ref()), PropKey::Name(X), bx(num(1)))),
            Stmt::Expr(block),
        ]
    );
}

#[test]
fn private_field_goes_through_side_table() {
    // class C { #v = 1; getV() { return this.#v; } }
    let members = vec![
        ClassMember::Field { key: Key::Private(V), value: Some(num(1)), is_static: false },
        ClassMember::Method {
            key: Key::Name(GET_V),
            is_static: false,
            body: Expr::PrivateGet(bx(Expr::This), V),
        },
    ];
    let mut scope = scope_with_class();
    let out = lower_class(&class(members, false, Vec::new()), &mut scope).unwrap();
    assert_eq!(out.before, vec![Stmt::Var(1, Expr::NewStorage)]);
    assert_eq!(
        out.constructor,
        vec![Stmt::Expr(Expr::StorageSet(1, bx(Expr::This), bx(num(1))))]
    );
    assert_eq!(
        out.methods,
        vec![OutMethod {
            key: PropKey::Name(GET_V),
            is_static: false,
            body: Expr::StorageGet(1, bx(Expr::This)),
        }]
    );
    assert!(out.after.is_empty());
    assert_eq!(scope.names[1], b"__".to_vec());
}

#[test]
fn private_fields_get_separate_tables() {
    let members = vec![
        ClassMember::Field { key: Key::Private(X), value: Some(num(1)), is_static: false },
        ClassMember::Field { key: Key::Private(Y), value: Some(num(2)), is_static: false },
    ];
    let mut scope = scope_with_class();
    let out = lower_class(&class(members, false, Vec::new()), &mut scope).unwrap();
    assert_eq!(out.before, vec![Stmt::Var(1, Expr::NewStorage), Stmt::Var(2, Expr::NewStorage)]);
    assert_eq!(
        out.constructor,
        vec![
            Stmt::Expr(Expr::StorageSet(1, bx(Expr::This), bx(num(1)))),
            Stmt::Expr(Expr::StorageSet(2, bx(Expr::This), bx(num(2)))),
        ]
    );
}

#[test]
fn private_method_is_shared_function() {
    let members = vec![
        ClassMember::Method { key: Key::Private(X), is_static: false, body: num(4) },
        ClassMember::Method {
            key: Key::Name(Y),
            is_static: false,
            body: Expr::PrivateGet(bx(Expr::This), X),
        },
    ];
    let mut scope = scope_with_class();
    let out = lower_class(&class(members, false, Vec::new()), &mut scope).unwrap();
    assert_eq!(out.before, vec![Stmt::Var(1, Expr::Function(bx(num(4))))]);
    assert_eq!(
        out.methods,
        vec![OutMethod { key: PropKey::Name(Y), is_static: false, body: Expr::BoundMethod(1, bx(Expr::This)) }]
    );
    assert!(out.constructor.is_empty());
}

#[test]
fn class_without_new_features_is_unchanged() {
    let members = vec![
        ClassMember::Method { key: Key::Name(X), is_static: false, body: Expr::Opaque(1) },
        ClassMember::Method { key: Key::Name(Y), is_static: true, body: Expr::Opaque(2) },
    ];
    let mut scope = scope_with_class();
    let out = lower_class(&class(members, true, vec![Expr::Opaque(3)]), &mut scope).unwrap();
    assert!(out.before.is_empty());
    assert!(out.after.is_empty());
    assert_eq!(
        out.methods,
        vec![
            OutMethod { key: PropKey::Name(X), is_static: false, body: Expr::Opaque(1) },
            OutMethod { key: PropKey::Name(Y), is_static: true, body: Expr::Opaque(2) },
        ]
    );
    assert_eq!(out.constructor, vec![Stmt::SuperCall, Stmt::Expr(Expr::Opaque(3))]);
    assert_eq!(scope.len(), 1);
}

#[test]
fn duplicate_private_name_is_rejected() {
    let members = vec![
        ClassMember::Field { key: Key::Private(V), value: None, is_static: false },
        ClassMember::Method { key: Key::Private(V), is_static: false, body: num(0) },
    ];
    let mut scope = scope_with_class();
    let r = lower_class(&class(members, false, Vec::new()), &mut scope);
    assert_eq!(r.err(), Some(LowerError::DuplicatePrivateName(V)));
}

#[test]
fn undeclared_private_name_is_rejected() {
    let members = vec![ClassMember::Method {
        key: Key::Name(GET_V),
        is_static: false,
        body: Expr::PrivateGet(bx(Expr::This), V),
    }];
    let mut scope = scope_with_class();
    let r = lower_class(&class(members, false, Vec::new()), &mut scope);
    assert_eq!(r.err(), Some(LowerError::UndeclaredPrivateName(V)));
}

#[test]
fn undeclared_private_name_in_constructor_is_rejected() {
    let mut scope = scope_with_class();
    let body = vec![Expr::PrivateSet(bx(Expr::This), X, bx(num(1)))];
    let r = lower_class(&class(Vec::new(), false, body), &mut scope);
    assert_eq!(r.err(), Some(LowerError::UndeclaredPrivateName(X)));
}

#[test]
fn assignment_to_private_method_throws_at_run_time() {
    let members = vec![
        ClassMember::Method { key: Key::Private(X), is_static: false, body: num(0) },
        ClassMember::StaticBlock { body: Expr::PrivateSet(bx(Expr::This), X, bx(num(1))) },
    ];
    let mut scope = scope_with_class();
    let out = lower_class(&class(members, false, Vec::new()), &mut scope).unwrap();
    assert_eq!(out.before, vec![Stmt::Var(1, Expr::Function(bx(num(0))))]);
    assert_eq!(
        out.after,
        vec![Stmt::Expr(Expr::ReadOnlyError(X, bx(class_ref()), bx(num(1))))]
    );
}

#[test]
fn static_code_sees_the_class_as_this() {
    // class C { static a = 1; static b = this.a; static { this.y = 1; } }
    const A: u64 = 110;
    let members = vec![
        ClassMember::Field { key: Key::Name(A), value: Some(num(1)), is_static: true },
        ClassMember::Field {
            key: Key::Name(X),
            value: Some(Expr::PropGet(bx(Expr::This), PropKey::Name(A))),
            is_static: true,
        },
        ClassMember::StaticBlock { body: Expr::PropSet(bx(Expr::This), PropKey::Name(Y), bx(num(1))) },
    ];
    let mut scope = scope_with_class();
    let out = lower_class(&class(members, false, Vec::new()), &mut scope).unwrap();
    assert_eq!(
        out.after,
        vec![
            Stmt::Expr(Expr::PropSet(bx(class_ref()), PropKey::Name(A), bx(num(1)))),
            Stmt::Expr(Expr::PropSet(
                bx(class_ref()),
                PropKey::Name(X),
                bx(Expr::PropGet(bx(class_ref()), PropKey::Name(A))),
            )),
            Stmt::Expr(Expr::PropSet(bx(class_ref()), PropKey::Name(Y), bx(num(1)))),
        ]
    );
    assert!(out.constructor.is_empty());
}

#[test]
fn instance_fields_and_nested_functions_keep_their_this() {
    let members = vec![
        ClassMember::Field {
            key: Key::Name(X),
            value: Some(Expr::PropGet(bx(Expr::This), PropKey::Name(Y))),
            is_static: false,
        },
        ClassMember::StaticBlock { body: Expr::Function(bx(Expr::This)) },
    ];
    let mut scope = scope_with_class();
    let out = lower_class(&class(members, false, Vec::new()), &mut scope).unwrap();
    assert_eq!(
        out.constructor,
        vec![Stmt::Expr(Expr::PropSet(
            bx(Expr::This),
            PropKey::Name(X),
            bx(Expr::PropGet(bx(Expr::This), PropKey::Name(Y))),
        ))]
    );
    assert_eq!(out.after, vec![Stmt::Expr(Expr::Function(bx(Expr::This)))]);
}

#[test]
fn static_private_field_value_sees_the_class_as_this() {
    let members = vec![ClassMember::Field { key: Key::Private(X), value: Some(Expr::This), is_static: true }];
    let mut scope = scope_with_class();
    let out = lower_class(&class(members, false, Vec::new()), &mut scope).unwrap();
    assert_eq!(out.after, vec![Stmt::Expr(Expr::StorageSet(1, bx(class_ref()), bx(class_ref())))]);
}

#[test]
fn static_private_field_is_set_on_the_class() {
    let members = vec![ClassMember::Field { key: Key::Private(X), value: Some(num(8)), is_static: true }];
    let mut scope = scope_with_class();
    let out = lower_class(&class(members, false, Vec::new()), &mut scope).unwrap();
    assert_eq!(out.before, vec![Stmt::Var(1, Expr::NewStorage)]);
    assert_eq!(out.after, vec![Stmt::Expr(Expr::StorageSet(1, bx(class_ref()), bx(num(8))))]);
    assert!(out.constructor.is_empty());
}
