//! Scopes, bindings, and the factory of assignments and declarations.
use vstd::prelude::*;

use crate::ast::{Expr, IdentRef, ReferenceFlags, Stmt};

verus! {

/// The names declared in the active scope; a symbol is an index into them.
pub struct Scope {
    pub names: Vec<Vec<u8>>,
}

impl View for Scope {
    type V = Seq<Seq<u8>>;

    open spec fn view(&self) -> Seq<Seq<u8>> {
        self.names@.map_values(|n: Vec<u8>| n@)
    }
}

/// A name bound to a symbol of the scope it was declared in.
pub struct BoundIdentifier {
    pub name: Vec<u8>,
    pub symbol: usize,
}

impl BoundIdentifier {
    /// The binding is the symbol `symbol` of `scope`, under its name.
    pub open spec fn bound_in(&self, scope: Seq<Seq<u8>>) -> bool {
        self.symbol < scope.len() && scope[self.symbol as int] == self.name@
    }
}

/// Every byte of `s` is an underscore.
pub open spec fn all_underscores(s: Seq<u8>) -> bool {
    forall|i: int| 0 <= i < s.len() ==> s[i] == 0x5f
}

/// The length of the longest name of `names`, 0 when there is none.
pub open spec fn longest(names: Seq<Seq<u8>>) -> nat
    decreases names.len(),
{
    if names.len() == 0 {
        0
    } else {
        let rest = longest(names.drop_last());
        if names.last().len() > rest {
            names.last().len()
        } else {
            rest
        }
    }
}

/// No name is longer than the longest.
pub proof fn lemma_longest_bounds(names: Seq<Seq<u8>>)
    ensures
        forall|i: int| 0 <= i < names.len() ==> #[trigger] names[i].len() <= longest(names),
    decreases names.len(),
{
    if names.len() > 0 {
        lemma_longest_bounds(names.drop_last());
        assert forall|i: int| 0 <= i < names.len() implies #[trigger] names[i].len() <= longest(
            names,
        ) by {
            if i < names.len() - 1 {
                assert(names[i] == names.drop_last()[i]);
            }
        }
    }
}

impl Scope {
    /// An empty scope.
    pub fn new() -> (r: Scope)
        ensures
            r@ == Seq::<Seq<u8>>::empty(),
    {
        Scope { names: Vec::new() }
    }

    /// The number of names declared here.
    pub fn len(&self) -> (r: usize)
        ensures
            r == self@.len(),
    {
        self.names.len()
    }

    /// Declares a user binding named `name`.
    pub fn declare(&mut self, name: Vec<u8>) -> (r: BoundIdentifier)
        ensures
            final(self)@ == old(self)@.push(name@),
            r.symbol == old(self)@.len(),
            r.name@ == name@,
            r.bound_in(final(self)@),
    {
        let symbol = self.names.len();
        let copy = name.clone();
        self.names.push(name);
        proof {
            assert(self@[symbol as int] == copy@);
        }
        BoundIdentifier { name: copy, symbol }
    }

    /// The length of the longest name declared here.
    pub fn longest_name(&self) -> (r: usize)
        ensures
            r == longest(self@),
    {
        let mut m: usize = 0;
        let mut i: usize = 0;
        while i < self.names.len()
            invariant
                i <= self.names.len(),
                m == longest(self@.take(i as int)),
            decreases self.names.len() - i,
        {
            proof {
                assert(self@.take(i as int + 1).drop_last() =~= self@.take(i as int));
            }
            let l = self.names[i].len();
            if l > m {
                m = l;
            }
            i = i + 1;
        }
        proof {
            assert(self@.take(i as int) =~= self@);
        }
        m
    }

    /// Declares a placeholder binding whose name, made of underscores, is
    /// longer than every name already in the scope, so that no user symbol
    /// resolves to it, however many placeholders are created.
    pub fn create_underscore_ident_name(&mut self) -> (r: BoundIdentifier)
        requires
            longest(old(self)@) < usize::MAX,
        ensures
            final(self)@ == old(self)@.push(r.name@),
            r.symbol == old(self)@.len(),
            r.bound_in(final(self)@),
            r.name@.len() == longest(old(self)@) + 1,
            all_underscores(r.name@),
            !old(self)@.contains(r.name@),
    {
        let m = self.longest_name();
        let mut name: Vec<u8> = Vec::new();
        let mut i: usize = 0;
        while i <= m
            invariant
                m < usize::MAX,
                i <= m + 1,
                name@.len() == i,
                all_underscores(name@),
            decreases m + 1 - i,
        {
            name.push(0x5f);
            i = i + 1;
        }
        proof {
            lemma_longest_bounds(old(self)@);
            if old(self)@.contains(name@) {
                let j = choose|j: int| 0 <= j < old(self)@.len() && old(self)@[j] == name@;
                assert(old(self)@[j].len() <= longest(old(self)@));
            }
        }
        self.declare(name)
    }
}

/// `binding = value`, with the target referenced for writing.
pub fn create_assignment(binding: &BoundIdentifier, value: Expr) -> (r: Expr)
    ensures
        r == Expr::Assign(
            IdentRef { symbol: binding.symbol, flags: ReferenceFlags::Write },
            Box::new(value),
        ),
{
    Expr::Assign(IdentRef { symbol: binding.symbol, flags: ReferenceFlags::Write }, Box::new(value))
}

/// `var binding = init;`
pub fn create_variable_declaration(binding: &BoundIdentifier, init: Expr) -> (r: Stmt)
    ensures
        r == Stmt::Var(binding.symbol, init),
{
    Stmt::Var(binding.symbol, init)
}

/// Wraps each expression in an expression statement, in order.
pub fn exprs_into_stmts(exprs: Vec<Expr>) -> (r: Vec<Stmt>)
    ensures
        r@ == exprs@.map_values(|e: Expr| Stmt::Expr(e)),
{
    let n = exprs.len();
    let mut rest = exprs;
    let mut reversed: Vec<Expr> = Vec::new();
    while rest.len() > 0
        invariant
            n == exprs@.len(),
            rest@ == exprs@.take(rest@.len() as int),
            rest@.len() + reversed@.len() == n,
            forall|j: int| 0 <= j < reversed@.len() ==> #[trigger] reversed@[j] == exprs@[n - 1 - j],
        decreases rest@.len(),
    {
        let e = rest.pop().unwrap();
        reversed.push(e);
        proof {
            assert(rest@ =~= exprs@.take(rest@.len() as int));
        }
    }
    let mut out: Vec<Stmt> = Vec::new();
    while reversed.len() > 0
        invariant
            n == exprs@.len(),
            reversed@.len() + out@.len() == n,
            forall|j: int| 0 <= j < reversed@.len() ==> #[trigger] reversed@[j] == exprs@[n - 1 - j],
            forall|i: int| 0 <= i < out@.len() ==> #[trigger] out@[i] == Stmt::Expr(exprs@[i]),
        decreases reversed@.len(),
    {
        let e = reversed.pop().unwrap();
        out.push(Stmt::Expr(e));
    }
    proof {
        assert(out@ =~= exprs@.map_values(|e: Expr| Stmt::Expr(e)));
    }
    out
}

} // verus!
