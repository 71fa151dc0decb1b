use vstd::prelude::*;
use crate::ast;
use crate::typed_ast::{self, Type, TypedAst};
use crate::span::Spanned;
use crate::scopes::{Scopes, scopes_get, scope_pos, frame_pos};
use crate::scopes::{lemma_frame_pos_bounds, lemma_frame_pos_lower, lemma_scope_pos_bounds,
    lemma_scope_pos_lower};
use crate::engine::{Engine, TypeId, TypeInfo, type_to_typeinfo};
use crate::error::{Error, TypecheckError, TypecheckErrorView};

verus! {

// ------------------------------------------------------------------------
// The specification-level account of checking: which names are visible where,
// which diagnostic (if any) a walk of the tree produces, and how a typed tree
// must mirror its source tree.
// ------------------------------------------------------------------------

/// The names bound by one scope frame.
pub open spec fn frame_names(frame: Seq<(Seq<char>, TypeId)>) -> Set<Seq<char>> {
    Set::new(|n: Seq<char>| exists|j: int| 0 <= j < frame.len() && frame[j].0 == n)
}

/// The lexical environment a scope table stands for: the stack of name sets,
/// innermost frame last.
pub open spec fn env_of(frames: Seq<Seq<(Seq<char>, TypeId)>>) -> Seq<Set<Seq<char>>> {
    frames.map_values(|frame: Seq<(Seq<char>, TypeId)>| frame_names(frame))
}

/// A name is visible when some enclosing frame binds it.
pub open spec fn env_bound(env: Seq<Set<Seq<char>>>, name: Seq<char>) -> bool {
    exists|i: int| 0 <= i < env.len() && env[i].contains(name)
}

/// The typed form of a source prefix operator.
pub open spec fn prefix_lowered(op: ast::PrefixOperator) -> typed_ast::PrefixOperator {
    match op {
        ast::PrefixOperator::Negate => typed_ast::PrefixOperator::Negate,
    }
}

/// The typed form of a source binary operator.
pub open spec fn binary_lowered(op: ast::BinaryOperator) -> typed_ast::BinaryOperator {
    match op {
        ast::BinaryOperator::Add => typed_ast::BinaryOperator::Add,
        ast::BinaryOperator::Subtract => typed_ast::BinaryOperator::Subtract,
        ast::BinaryOperator::Multiply => typed_ast::BinaryOperator::Multiply,
        ast::BinaryOperator::Divide => typed_ast::BinaryOperator::Divide,
    }
}

/// The typed form of a source literal.
pub open spec fn literal_lowered(lit: ast::Literal) -> typed_ast::Literal {
    match lit {
        ast::Literal::Num(n) => typed_ast::Literal::Num(n),
    }
}

/// The first diagnostic a left-to-right walk of an expression produces under
/// the given environment, or none when the expression checks.  The sole
/// semantic failure an expression can produce in this language is a use of
/// an unbound name, reported at the use site.
pub open spec fn expr_err(env: Seq<Set<Seq<char>>>, e: ast::Expr) -> Option<TypecheckErrorView>
    decreases e,
{
    match e {
        ast::Expr::Var(name) => if env_bound(env, name.0@) {
            None
        } else {
            Some(TypecheckErrorView::UndefinedVariable { name: name.0@, span: name.1 })
        },
        ast::Expr::Literal(_) => None,
        ast::Expr::Prefix { op, expr } => expr_err(env, (*expr).0),
        ast::Expr::Binary { op, lhs, rhs } => if expr_err(env, (*lhs).0) is Some {
            expr_err(env, (*lhs).0)
        } else {
            expr_err(env, (*rhs).0)
        },
    }
}

/// The environment after a statement: a let-binding adds its name to the
/// innermost frame (only after its right-hand side was checked), every other
/// statement leaves the environment as it was.
pub open spec fn stmt_env(env: Seq<Set<Seq<char>>>, s: ast::Statement) -> Seq<Set<Seq<char>>> {
    match s {
        ast::Statement::Let { name, value } => env.update(
            env.len() - 1,
            env.last().insert(name.0@),
        ),
        _ => env,
    }
}

/// The first diagnostic a walk of a statement produces, or none.
pub open spec fn stmt_err(env: Seq<Set<Seq<char>>>, s: ast::Statement) -> Option<
    TypecheckErrorView,
>
    decreases s,
{
    match s {
        ast::Statement::Expr(e) => expr_err(env, e.0),
        ast::Statement::Block(stmts) => stmts_err(env.push(Set::empty()), stmts.0@),
        ast::Statement::Let { name, value } => expr_err(env, (*value).0),
        ast::Statement::Print(e) => expr_err(env, e.0),
    }
}

/// The first diagnostic a walk of a statement sequence produces, threading
/// each statement's bindings into the next, or none.
pub open spec fn stmts_err(env: Seq<Set<Seq<char>>>, ss: Seq<Spanned<ast::Statement>>) -> Option<
    TypecheckErrorView,
>
    decreases ss,
{
    if ss.len() == 0 {
        None
    } else {
        match stmt_err(env, ss[0].0) {
            Some(e) => Some(e),
            None => stmts_err(stmt_env(env, ss[0].0), ss.drop_first()),
        }
    }
}

/// The first diagnostic checking a whole program produces, starting from a
/// single empty root scope, or none when the program checks.
pub open spec fn program_err(a: Spanned<ast::Ast>) -> Option<TypecheckErrorView> {
    stmts_err(seq![Set::empty()], a.0.statements.0@)
}

/// A typed expression mirrors its source expression: same form, every node
/// carrying the span of its source node, every identifier and literal kept,
/// and the resolved type of every node the numeric type.
pub open spec fn sp_expr_matches(t: Spanned<typed_ast::Expr>, s: Spanned<ast::Expr>) -> bool
    decreases s,
{
    &&& t.1 == s.1
    &&& t.0.ty == Type::Num
    &&& match (t.0.expr, s.0) {
        (typed_ast::ExprKind::Var(n1), ast::Expr::Var(n2)) => n1.0@ == n2.0@ && n1.1 == n2.1,
        (typed_ast::ExprKind::Literal(l1), ast::Expr::Literal(l2)) => l1.0 == literal_lowered(
            l2.0,
        ) && l1.1 == l2.1,
        (
            typed_ast::ExprKind::Prefix { op: o1, expr: e1 },
            ast::Expr::Prefix { op: o2, expr: e2 },
        ) => o1.0 == prefix_lowered(o2.0) && o1.1 == o2.1 && sp_expr_matches(*e1, *e2),
        (
            typed_ast::ExprKind::Binary { op: o1, lhs: l1, rhs: r1 },
            ast::Expr::Binary { op: o2, lhs: l2, rhs: r2 },
        ) => o1.0 == binary_lowered(o2.0) && o1.1 == o2.1 && sp_expr_matches(*l1, *l2)
            && sp_expr_matches(*r1, *r2),
        _ => false,
    }
}

/// A typed statement mirrors its source statement.
pub open spec fn sp_stmt_matches(t: Spanned<typed_ast::Statement>, s: Spanned<
    ast::Statement,
>) -> bool
    decreases s,
{
    &&& t.1 == s.1
    &&& match (t.0, s.0) {
        (typed_ast::Statement::Expr(e1), ast::Statement::Expr(e2)) => sp_expr_matches(e1, e2),
        (typed_ast::Statement::Block(b1), ast::Statement::Block(b2)) => b1.1 == s.1
            && stmts_match(b1.0@, b2.0@),
        (
            typed_ast::Statement::Let { name: n1, value: v1 },
            ast::Statement::Let { name: n2, value: v2 },
        ) => n1.0@ == n2.0@ && n1.1 == n2.1 && sp_expr_matches(*v1, *v2),
        (typed_ast::Statement::Print(e1), ast::Statement::Print(e2)) => sp_expr_matches(e1, e2),
        _ => false,
    }
}

/// A typed statement sequence mirrors its source sequence, element by
/// element and in order.
pub open spec fn stmts_match(ts: Seq<Spanned<typed_ast::Statement>>, ss: Seq<Spanned<
    ast::Statement,
>>) -> bool
    decreases ss,
{
    if ss.len() == 0 {
        ts.len() == 0
    } else {
        &&& ts.len() == ss.len()
        &&& sp_stmt_matches(ts.last(), ss.last())
        &&& stmts_match(ts.drop_last(), ss.drop_last())
    }
}

/// A typed program mirrors its source program.
pub open spec fn program_matches(t: Spanned<TypedAst>, a: Spanned<ast::Ast>) -> bool {
    &&& t.1 == a.1
    &&& t.0.statements.1 == a.0.statements.1
    &&& stmts_match(t.0.statements.0@, a.0.statements.0@)
}

// ------------------------------------------------------------------------
// Bridging the scope table to the specification-level environment.
// ------------------------------------------------------------------------

/// A name is visible in the environment a scope table stands for exactly
/// when the table resolves it.
proof fn lemma_bound_iff_get(frames: Seq<Seq<(Seq<char>, TypeId)>>, k: Seq<char>)
    ensures
        env_bound(env_of(frames), k) <==> scopes_get(frames, k) is Some,
{
    lemma_scope_pos_bounds(frames, k);
    if scopes_get(frames, k) is Some {
        let i = scope_pos(frames, k);
        let j = frame_pos(frames[i], k);
        lemma_frame_pos_bounds(frames[i], k);
        assert(env_of(frames)[i].contains(k));
    }
    if env_bound(env_of(frames), k) {
        let i = choose|i: int| 0 <= i < env_of(frames).len() && env_of(frames)[i].contains(k);
        let j = choose|j: int| 0 <= j < frames[i].len() && frames[i][j].0 == k;
        lemma_frame_pos_lower(frames[i], k, j);
        lemma_scope_pos_lower(frames, k, i);
        lemma_scope_pos_bounds(frames, k);
    }
}

/// When the table resolves a name, the value it hands back is the one the
/// resolving entry holds, and that entry sits in some frame.
proof fn lemma_get_entry(frames: Seq<Seq<(Seq<char>, TypeId)>>, k: Seq<char>)
    requires
        scopes_get(frames, k) is Some,
    ensures
        ({
            let i = scope_pos(frames, k);
            let j = frame_pos(frames[i], k);
            &&& 0 <= i < frames.len()
            &&& 0 <= j < frames[i].len()
            &&& frames[i][j].1 == scopes_get(frames, k)->Some_0
        }),
{
    lemma_scope_pos_bounds(frames, k);
    lemma_frame_pos_bounds(frames[scope_pos(frames, k)], k);
}

/// Binding one more name in a frame adds exactly that name to the frame's
/// name set.
proof fn lemma_frame_names_push(f: Seq<(Seq<char>, TypeId)>, k: Seq<char>, v: TypeId)
    ensures
        frame_names(f.push((k, v))) == frame_names(f).insert(k),
{
    let g = f.push((k, v));
    assert forall|n: Seq<char>| frame_names(g).contains(n) implies frame_names(f).insert(
        k,
    ).contains(n) by {
        let j = choose|j: int| 0 <= j < g.len() && g[j].0 == n;
        if j < f.len() {
            assert(f[j].0 == n);
        } else {
            assert(n == k);
        }
    }
    assert forall|n: Seq<char>| frame_names(f).insert(k).contains(n) implies frame_names(
        g,
    ).contains(n) by {
        if n == k {
            assert(g[f.len() as int].0 == n);
        } else {
            let j = choose|j: int| 0 <= j < f.len() && f[j].0 == n;
            assert(g[j].0 == n);
        }
    }
    assert(frame_names(g) =~= frame_names(f).insert(k));
}

// ------------------------------------------------------------------------
// The checker.
// ------------------------------------------------------------------------

/// The tree walk: one scope table and one constraint engine, created fresh
/// per top-level check and shared mutably across the whole walk.
pub struct Typechecker {
    pub engine: Engine,
    pub bindings: Scopes<TypeId>,
}

impl Typechecker {
    /// The walker invariant: the engine is sound, at least the root frame is
    /// present, and every bound slot identifier is a live slot that already
    /// resolves to a concrete type.
    pub open spec fn wf(self) -> bool {
        &&& self.engine.wf()
        &&& self.bindings@.len() > 0
        &&& forall|i: int, j: int|
            0 <= i < self.bindings@.len() && 0 <= j < self.bindings@[i].len() ==> {
                &&& (#[trigger] self.bindings@[i][j]).1 < self.engine@.len()
                &&& self.engine.known(self.bindings@[i][j].1 as int)
            }
    }

    /// The environment the walker currently sees.
    pub open spec fn env(self) -> Seq<Set<Seq<char>>> {
        env_of(self.bindings@)
    }

    /// A fresh walker: an empty engine and a scope table holding one empty
    /// root frame.
    pub fn new() -> (r: Typechecker)
        ensures
            r.wf(),
            r.env() == seq![Set::<Seq<char>>::empty()],
            r.bindings@.len() == 1,
    {
        let r = Typechecker { engine: Engine::new(), bindings: Scopes::new() };
        proof {
            assert(frame_names(r.bindings@[0]) =~= Set::<Seq<char>>::empty());
            assert(r.env() =~= seq![Set::<Seq<char>>::empty()]);
        }
        r
    }

    /// The typed form of a source literal, keeping its span.
    pub fn lower_literal(&self, literal: Spanned<ast::Literal>) -> (r: Spanned<typed_ast::Literal>)
        ensures
            r == (literal_lowered(literal.0), literal.1),
    {
        (
            match literal.0 {
                ast::Literal::Num(n) => typed_ast::Literal::Num(n),
            },
            literal.1,
        )
    }

    /// The typed form of a source prefix operator, keeping its span.
    pub fn lower_prefix_operator(&self, op: Spanned<ast::PrefixOperator>) -> (r: Spanned<
        typed_ast::PrefixOperator,
    >)
        ensures
            r == (prefix_lowered(op.0), op.1),
    {
        (
            match op.0 {
                ast::PrefixOperator::Negate => typed_ast::PrefixOperator::Negate,
            },
            op.1,
        )
    }

    /// The typed form of a source binary operator, keeping its span.
    pub fn lower_binary_operator(&self, op: Spanned<ast::BinaryOperator>) -> (r: Spanned<
        typed_ast::BinaryOperator,
    >)
        ensures
            r == (binary_lowered(op.0), op.1),
    {
        (
            match op.0 {
                ast::BinaryOperator::Add => typed_ast::BinaryOperator::Add,
                ast::BinaryOperator::Subtract => typed_ast::BinaryOperator::Subtract,
                ast::BinaryOperator::Multiply => typed_ast::BinaryOperator::Multiply,
                ast::BinaryOperator::Divide => typed_ast::BinaryOperator::Divide,
            },
            op.1,
        )
    }

    /// Check one expression under the current environment.  On success the
    /// result is the typed expression mirroring the source one; on failure
    /// it is exactly the first diagnostic of the specification walk.  The
    /// scope table is left untouched either way.
    pub fn typecheck_expr(&mut self, expr: &Spanned<ast::Expr>) -> (r: Result<
        Spanned<typed_ast::Expr>,
        TypecheckError,
    >)
        requires
            old(self).wf(),
        ensures
            final(self).wf(),
            final(self).bindings == old(self).bindings,
            old(self).engine@.len() <= final(self).engine@.len(),
            forall|k: int|
                0 <= k < old(self).engine@.len() && old(self).engine.known(k) ==> final(self).engine.known(k),
            match r {
                Result::Ok(t) => {
                    &&& expr_err(old(self).env(), expr.0) is None
                    &&& sp_expr_matches(t, *expr)
                },
                Result::Err(e) => Some(e@) == expr_err(old(self).env(), expr.0),
            },
        decreases *expr,
    {
        match &expr.0 {
            ast::Expr::Var(name) => {
                match self.bindings.get(&name.0) {
                    Some(tid) => {
                        let tid = *tid;
                        proof {
                            lemma_bound_iff_get(self.bindings@, name.0@);
                            lemma_get_entry(self.bindings@, name.0@);
                        }
                        match self.engine.reconstruct(tid) {
                            Ok(ty) => Ok(
                                (
                                    typed_ast::Expr {
                                        expr: typed_ast::ExprKind::Var((name.0.clone(), name.1)),
                                        ty: ty.0,
                                    },
                                    expr.1,
                                ),
                            ),
                            Err(e) => {
                                proof {
                                    assert(false);
                                }
                                Err(e)
                            },
                        }
                    },
                    None => {
                        proof {
                            lemma_bound_iff_get(self.bindings@, name.0@);
                        }
                        Err(TypecheckError::UndefinedVariable { name: name.0.clone(), span: name.1 })
                    },
                }
            },
            ast::Expr::Literal(literal) => {
                let literal = self.lower_literal(*literal);
                Ok(
                    (
                        typed_ast::Expr {
                            expr: typed_ast::ExprKind::Literal(literal),
                            ty: literal.0.ty(),
                        },
                        expr.1,
                    ),
                )
            },
            ast::Expr::Prefix { op, expr: inner } => {
                let op = self.lower_prefix_operator(*op);
                let inner_t = self.typecheck_expr(&**inner)?;
                let ghost e1 = self.engine;
                let expr_id = self.engine.insert(type_to_typeinfo((inner_t.0.ty, inner_t.1)));
                proof {
                    assert forall|k: int|
                        0 <= k < old(self).engine@.len() && old(self).engine.known(k) implies self
                        .engine.known(k) by {
                        assert(e1.known(k));
                        assert(self.engine.resolve(k) == e1.resolve(k));
                    }
                }
                let expr_ty = match self.engine.reconstruct(expr_id) {
                    Ok(t) => t,
                    Err(e) => {
                        proof {
                            assert(false);
                        }
                        return Err(e);
                    },
                };
                let ty = match expr_ty.0.get_prefix_type(op.0) {
                    Ok(t) => t,
                    Err(_) => {
                        proof {
                            assert(false);
                        }
                        return Err(
                            TypecheckError::CannotApplyUnaryOperator {
                                span: expr.1,
                                op: op.0,
                                ty: expr_ty.0,
                            },
                        );
                    },
                };
                Ok(
                    (
                        typed_ast::Expr {
                            expr: typed_ast::ExprKind::Prefix { op, expr: Box::new(inner_t) },
                            ty,
                        },
                        expr.1,
                    ),
                )
            },
            ast::Expr::Binary { op, lhs, rhs } => {
                let op = self.lower_binary_operator(*op);
                let lhs_t = self.typecheck_expr(&**lhs)?;
                let ghost e1 = self.engine;
                let lhs_id = self.engine.insert(type_to_typeinfo((lhs_t.0.ty, lhs_t.1)));
                let ghost e2 = self.engine;
                let rhs_t = self.typecheck_expr(&**rhs)?;
                let ghost e3 = self.engine;
                let rhs_id = self.engine.insert(type_to_typeinfo((rhs_t.0.ty, rhs_t.1)));
                let ghost e4 = self.engine;
                match self.engine.unify(lhs_id, rhs_id) {
                    Ok(_) => {},
                    Err(e) => {
                        proof {
                            assert(false);
                        }
                        return Err(e);
                    },
                }
                let lhs_ty = match self.engine.reconstruct(lhs_id) {
                    Ok(t) => t,
                    Err(e) => {
                        proof {
                            assert(false);
                        }
                        return Err(e);
                    },
                };
                let rhs_ty = match self.engine.reconstruct(rhs_id) {
                    Ok(t) => t,
                    Err(e) => {
                        proof {
                            assert(false);
                        }
                        return Err(e);
                    },
                };
                let ty = match lhs_ty.0.get_binary_type(&rhs_ty.0) {
                    Ok(t) => t,
                    Err(_) => {
                        proof {
                            assert(false);
                        }
                        return Err(
                            TypecheckError::CannotApplyBinaryOperator {
                                span: expr.1,
                                op: op.0,
                                ty1: lhs_ty.0,
                                ty2: rhs_ty.0,
                            },
                        );
                    },
                };
                proof {
                    assert forall|k: int|
                        0 <= k < old(self).engine@.len() && old(self).engine.known(k) implies self
                        .engine.known(k) by {
                        assert(e1.known(k));
                        assert(e2.resolve(k) == e1.resolve(k));
                        assert(e2.known(k));
                        assert(e3.known(k));
                        assert(e4.resolve(k) == e3.resolve(k));
                        assert(e4.known(k));
                    }
                }
                Ok(
                    (
                        typed_ast::Expr {
                            expr: typed_ast::ExprKind::Binary {
                                op,
                                lhs: Box::new(lhs_t),
                                rhs: Box::new(rhs_t),
                            },
                            ty,
                        },
                        expr.1,
                    ),
                )
            },
        }
    }

    /// Check one statement under the current environment.  On success the
    /// environment afterwards is the specification's environment after the
    /// statement (a let-binding becomes visible only after its value was
    /// checked), outer frames are untouched, and the typed statement mirrors
    /// the source one; on failure the result is exactly the first diagnostic
    /// of the specification walk.
    pub fn typecheck_statement(&mut self, stmt: &Spanned<ast::Statement>) -> (r: Result<
        Spanned<typed_ast::Statement>,
        TypecheckError,
    >)
        requires
            old(self).wf(),
        ensures
            final(self).wf(),
            match r {
                Result::Ok(t) => {
                    &&& stmt_err(old(self).env(), stmt.0) is None
                    &&& sp_stmt_matches(t, *stmt)
                    &&& final(self).bindings@.len() == old(self).bindings@.len()
                    &&& forall|a: int|
                        0 <= a < old(self).bindings@.len() - 1 ==> final(self).bindings@[a] == old(self).bindings@[a]
                    &&& final(self).env() == stmt_env(old(self).env(), stmt.0)
                },
                Result::Err(e) => Some(e@) == stmt_err(old(self).env(), stmt.0),
            },
        decreases *stmt,
    {
        match &stmt.0 {
            ast::Statement::Expr(expr) => {
                let expr = self.typecheck_expr(expr)?;
                Ok((typed_ast::Statement::Expr(expr), stmt.1))
            },
            ast::Statement::Print(expr) => {
                let expr = self.typecheck_expr(expr)?;
                Ok((typed_ast::Statement::Print(expr), stmt.1))
            },
            ast::Statement::Let { name, value } => {
                let value_t = self.typecheck_expr(&**value)?;
                let value_ty = self.engine.insert(type_to_typeinfo((value_t.0.ty, value_t.1)));
                let var_ty = self.engine.insert((TypeInfo::Unknown, name.1));
                match self.engine.unify(value_ty, var_ty) {
                    Ok(_) => {},
                    Err(e) => {
                        proof {
                            assert(false);
                        }
                        return Err(e);
                    },
                }
                let ghost pre_insert = self.bindings@;
                self.bindings.insert(name.0.clone(), var_ty);
                proof {
                    lemma_frame_names_push(pre_insert.last(), name.0@, var_ty);
                    assert(self.env() =~~= stmt_env(old(self).env(), stmt.0));
                }
                Ok(
                    (
                        typed_ast::Statement::Let {
                            name: (name.0.clone(), name.1),
                            value: Box::new(value_t),
                        },
                        stmt.1,
                    ),
                )
            },
            ast::Statement::Block(stmts) => {
                self.bindings.push_scope();
                proof {
                    assert(frame_names(Seq::<(Seq<char>, TypeId)>::empty())
                        =~= Set::<Seq<char>>::empty());
                    assert(self.env() =~~= old(self).env().push(Set::empty()));
                }
                let ghost env0 = self.env();
                let ghost ss = stmts.0@;
                proof {
                    assert(ss.skip(0) =~= ss);
                    assert(ss.take(0) =~= Seq::<Spanned<ast::Statement>>::empty());
                }
                let mut out: Vec<Spanned<typed_ast::Statement>> = Vec::new();
                let mut i: usize = 0;
                while i < stmts.0.len()
                    invariant
                        self.wf(),
                        i <= ss.len(),
                        ss == stmts.0@,
                        stmt.0 == ast::Statement::Block(*stmts),
                        env0 == old(self).env().push(Set::empty()),
                        stmts_err(env0, ss) == stmts_err(self.env(), ss.skip(i as int)),
                        stmts_match(out@, ss.take(i as int)),
                        self.bindings@.len() == old(self).bindings@.len() + 1,
                        forall|a: int|
                            0 <= a < old(self).bindings@.len() ==> self.bindings@[a] == old(self).bindings@[a],
                        forall|j: int| 0 <= j < ss.len() ==> decreases_to!(*stmt => ss[j]),
                    decreases ss.len() - i,
                {
                    proof {
                        assert(decreases_to!(*stmt => ss[i as int]));
                    }
                    let ghost env_cur = self.env();
                    let ghost out_prev = out@;
                    match self.typecheck_statement(&stmts.0[i]) {
                        Ok(t) => {
                            out.push(t);
                            proof {
                                assert(ss.skip(i as int)[0] == ss[i as int]);
                                assert(ss.skip(i as int).drop_first() =~= ss.skip(i as int + 1));
                                assert(ss.take(i as int + 1).drop_last() =~= ss.take(i as int));
                                assert(ss.take(i as int + 1).last() == ss[i as int]);
                                assert(out@.drop_last() =~= out_prev);
                            }
                        },
                        Err(e) => {
                            proof {
                                assert(ss.skip(i as int)[0] == ss[i as int]);
                            }
                            return Err(e);
                        },
                    }
                    i += 1;
                }
                proof {
                    assert(ss.skip(ss.len() as int) =~= Seq::<Spanned<ast::Statement>>::empty());
                    assert(ss.take(ss.len() as int) =~= ss);
                }
                self.bindings.pop_scope();
                proof {
                    assert(self.bindings@ =~= old(self).bindings@);
                    assert(self.env() =~= old(self).env());
                }
                Ok((typed_ast::Statement::Block((out, stmt.1)), stmt.1))
            },
        }
    }

    /// Check a whole program in the root scope: every statement in order,
    /// earlier bindings visible to later statements.  On success the typed
    /// program mirrors the source program; on failure the result is exactly
    /// the first diagnostic of the specification walk.
    pub fn typecheck_ast(&mut self, a: &Spanned<ast::Ast>) -> (r: Result<
        Spanned<TypedAst>,
        TypecheckError,
    >)
        requires
            old(self).wf(),
        ensures
            final(self).wf(),
            match r {
                Result::Ok(t) => {
                    &&& stmts_err(old(self).env(), a.0.statements.0@) is None
                    &&& program_matches(t, *a)
                },
                Result::Err(e) => Some(e@) == stmts_err(old(self).env(), a.0.statements.0@),
            },
    {
        let ghost env0 = self.env();
        let ghost ss = a.0.statements.0@;
        proof {
            assert(ss.skip(0) =~= ss);
            assert(ss.take(0) =~= Seq::<Spanned<ast::Statement>>::empty());
        }
        let mut out: Vec<Spanned<typed_ast::Statement>> = Vec::new();
        let mut i: usize = 0;
        while i < a.0.statements.0.len()
            invariant
                self.wf(),
                i <= ss.len(),
                ss == a.0.statements.0@,
                env0 == old(self).env(),
                stmts_err(env0, ss) == stmts_err(self.env(), ss.skip(i as int)),
                stmts_match(out@, ss.take(i as int)),
            decreases ss.len() - i,
        {
            let ghost out_prev = out@;
            match self.typecheck_statement(&a.0.statements.0[i]) {
                Ok(t) => {
                    out.push(t);
                    proof {
                        assert(ss.skip(i as int)[0] == ss[i as int]);
                        assert(ss.skip(i as int).drop_first() =~= ss.skip(i as int + 1));
                        assert(ss.take(i as int + 1).drop_last() =~= ss.take(i as int));
                        assert(ss.take(i as int + 1).last() == ss[i as int]);
                        assert(out@.drop_last() =~= out_prev);
                    }
                },
                Err(e) => {
                    proof {
                        assert(ss.skip(i as int)[0] == ss[i as int]);
                    }
                    return Err(e);
                },
            }
            i += 1;
        }
        proof {
            assert(ss.skip(ss.len() as int) =~= Seq::<Spanned<ast::Statement>>::empty());
            assert(ss.take(ss.len() as int) =~= ss);
        }
        Ok((TypedAst { statements: (out, a.0.statements.1) }, a.1))
    }
}

/// Check a program: a pure function from a span-annotated syntax tree to
/// either the typed tree or a diagnostic.  Checking succeeds exactly when
/// every identifier use is bound by an enclosing scope; then every typed
/// node carries its source node's span and resolves to the numeric type.
/// Otherwise the diagnostic is the undefined-variable report of the first
/// unbound use the walk meets, with the span of that use site.
pub fn typecheck(a: Spanned<ast::Ast>) -> (r: Result<Spanned<TypedAst>, Error>)
    ensures
        match r {
            Result::Ok(t) => {
                &&& program_err(a) is None
                &&& program_matches(t, a)
            },
            Result::Err(e) => {
                &&& program_err(a) is Some
                &&& e matches Error::Typecheck(te) && Some(te@) == program_err(a)
            },
        },
{
    let mut checker = Typechecker::new();
    match checker.typecheck_ast(&a) {
        Ok(t) => Ok(t),
        Err(e) => Err(Error::Typecheck(e)),
    }
}

} // verus!
