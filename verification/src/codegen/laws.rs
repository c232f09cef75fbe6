//! Properties of the code generator: scope resolution and determinism.

use vstd::prelude::*;
use crate::codegen::{
    gen_expr, gen_exprs, gen_program, has_global, is_local_spec, push_stmt, GenError, GenState,
};
use crate::codegen::watwriter::{FunctionType, FunctionV, GlobalV, StatementV, ValueType};
use crate::syntax::ast::ExprV;

verus! {

/// Generating an expression preserves the identity of the current
/// function context: its name, parameters, return type and kind are
/// kept; locals and module globals only grow. Inside a named function no
/// global is ever registered, and in the top-level script context no
/// local is ever declared.
pub proof fn lemma_gen_expr_context(st: GenState, e: ExprV)
    ensures
        gen_expr(st, e) matches Ok(st2) ==> {
            &&& st2.current.function_type == st.current.function_type
            &&& st2.current.params == st.current.params
            &&& st2.current.name == st.current.name
            &&& st2.current.return_type == st.current.return_type
            &&& st.current.locals.is_prefix_of(st2.current.locals)
            &&& st.module.globals.is_prefix_of(st2.module.globals)
            &&& (st.current.function_type == FunctionType::Function ==> st2.module.globals
                == st.module.globals)
            &&& (st.current.function_type == FunctionType::Script ==> st2.current.locals
                == st.current.locals)
        },
    decreases e, 0int,
{
    lemma_prefix_refl(st.current.locals);
    lemma_prefix_refl(st.module.globals);
    match e {
        ExprV::Block(es) => {
            lemma_gen_exprs_context(st, es);
        },
        ExprV::Binary { left, op, right } => {
            lemma_gen_expr_context(st, *left);
            if let Ok(st1) = gen_expr(st, *left) {
                lemma_gen_expr_context(st1, *right);
                if let Ok(st2) = gen_expr(st1, *right) {
                    lemma_prefix_trans(st.current.locals, st1.current.locals, st2.current.locals);
                    lemma_prefix_trans(st.module.globals, st1.module.globals, st2.module.globals);
                }
            }
        },
        ExprV::Unary { op, expr } => {
            lemma_gen_expr_context(st, *expr);
        },
        ExprV::LetAssign { ident, initializer } => {
            let script = st.current.function_type == FunctionType::Script;
            let st1 = if script {
                GenState {
                    module: crate::codegen::watwriter::ModuleV {
                        globals: st.module.globals.push(
                            GlobalV { name: ident, mutable: true, value_type: ValueType::I32 },
                        ),
                        ..st.module
                    },
                    current: st.current,
                }
            } else {
                st
            };
            lemma_prefix_push(st.module.globals, GlobalV {
                name: ident,
                mutable: true,
                value_type: ValueType::I32,
            });
            lemma_gen_expr_context(st1, *initializer);
            if let Ok(st2) = gen_expr(st1, *initializer) {
                lemma_prefix_trans(st.module.globals, st1.module.globals, st2.module.globals);
                if !script {
                    lemma_prefix_push(st2.current.locals, ident);
                    lemma_prefix_trans(
                        st.current.locals,
                        st2.current.locals,
                        st2.current.locals.push(ident),
                    );
                }
            }
        },
        ExprV::LetGet { ident } => {
        },
        ExprV::LetSet { ident, expr } => {
            lemma_gen_expr_context(st, *expr);
        },
        ExprV::Print { value } => {
            lemma_gen_expr_context(st, *value);
        },
        ExprV::IfElse { condition, then, else_ } => {
            lemma_gen_expr_context(st, *condition);
            if let Ok(st1) = gen_expr(st, *condition) {
                let st2 = push_stmt(st1, StatementV::Raw("(if (then"@));
                lemma_gen_expr_context(st2, *then);
                if let Ok(st3) = gen_expr(st2, *then) {
                    let st4 = push_stmt(st3, StatementV::Raw(") (else"@));
                    lemma_prefix_trans(st.current.locals, st1.current.locals, st3.current.locals);
                    lemma_prefix_trans(st.module.globals, st1.module.globals, st3.module.globals);
                    match else_ {
                        Some(e2) => {
                            lemma_gen_expr_context(st4, *e2);
                            if let Ok(st5) = gen_expr(st4, *e2) {
                                lemma_prefix_trans(
                                    st.current.locals,
                                    st3.current.locals,
                                    st5.current.locals,
                                );
                                lemma_prefix_trans(
                                    st.module.globals,
                                    st3.module.globals,
                                    st5.module.globals,
                                );
                            }
                        },
                        None => {
                        },
                    }
                }
            }
        },
        ExprV::Def { ident, decl } => {
            let fresh = FunctionV {
                name: ident,
                params: decl.args,
                return_type: Some(ValueType::I32),
                locals: Seq::empty(),
                statements: Seq::empty(),
                function_type: FunctionType::Function,
            };
            lemma_gen_exprs_context(GenState { module: st.module, current: fresh }, decl.body);
        },
        ExprV::Call { callee, args } => {
            lemma_gen_exprs_context(st, args);
        },
        ExprV::Literal(_) => {
        },
    }
}

/// [`lemma_gen_expr_context`], for a sequence of expressions.
pub proof fn lemma_gen_exprs_context(st: GenState, es: Seq<ExprV>)
    ensures
        gen_exprs(st, es) matches Ok(st2) ==> {
            &&& st2.current.function_type == st.current.function_type
            &&& st2.current.params == st.current.params
            &&& st2.current.name == st.current.name
            &&& st2.current.return_type == st.current.return_type
            &&& st.current.locals.is_prefix_of(st2.current.locals)
            &&& st.module.globals.is_prefix_of(st2.module.globals)
            &&& (st.current.function_type == FunctionType::Function ==> st2.module.globals
                == st.module.globals)
            &&& (st.current.function_type == FunctionType::Script ==> st2.current.locals
                == st.current.locals)
        },
    decreases es, 1int,
{
    lemma_prefix_refl(st.current.locals);
    lemma_prefix_refl(st.module.globals);
    if es.len() > 0 {
        lemma_gen_expr_context(st, es[0]);
        if let Ok(st1) = gen_expr(st, es[0]) {
            lemma_gen_exprs_context(st1, es.drop_first());
            if let Ok(st2) = gen_exprs(st1, es.drop_first()) {
                lemma_prefix_trans(st.current.locals, st1.current.locals, st2.current.locals);
                lemma_prefix_trans(st.module.globals, st1.module.globals, st2.module.globals);
            }
        }
    }
}

proof fn lemma_prefix_refl<A>(s: Seq<A>)
    ensures
        s.is_prefix_of(s),
{
    assert(s =~= s.subrange(0, s.len() as int));
}

proof fn lemma_prefix_trans<A>(a: Seq<A>, b: Seq<A>, c: Seq<A>)
    requires
        a.is_prefix_of(b),
        b.is_prefix_of(c),
    ensures
        a.is_prefix_of(c),
{
    assert(a =~= c.subrange(0, a.len() as int));
}

proof fn lemma_prefix_push<A>(s: Seq<A>, x: A)
    ensures
        s.is_prefix_of(s.push(x)),
{
    assert(s =~= s.push(x).subrange(0, s.len() as int));
}

/// A prefix keeps every element of the shorter sequence.
proof fn lemma_prefix_contains<A>(a: Seq<A>, b: Seq<A>, x: A)
    requires
        a.is_prefix_of(b),
        a.contains(x),
    ensures
        b.contains(x),
{
    let k = choose|k: int| 0 <= k < a.len() && a[k] == x;
    assert(b[k] == a[k]);
}

/// Inside a named function, a `let` declaration adds the identifier to
/// the function's locals, registers no module global, and stores
/// through a local slot.
pub proof fn lemma_function_let_declares_local(st: GenState, ident: Seq<char>, init: ExprV)
    requires
        st.current.function_type == FunctionType::Function,
    ensures
        gen_expr(st, ExprV::LetAssign { ident, initializer: Box::new(init) }) matches Ok(st2) ==> {
            &&& st2.current.locals.contains(ident)
            &&& st2.module.globals == st.module.globals
            &&& st2.current.statements.len() > 0
            &&& st2.current.statements.last() == StatementV::Raw("local.set $"@ + ident)
        },
{
    lemma_gen_expr_context(st, *Box::new(init));
    if let Ok(st1) = gen_expr(st, init) {
        assert(st1.current.locals.push(ident).contains(ident)) by {
            assert(st1.current.locals.push(ident).last() == ident);
        };
    }
}

/// A reference to a parameter or declared local of the current function
/// resolves to a local load, never a global one.
pub proof fn lemma_local_load_resolves_locally(st: GenState, ident: Seq<char>)
    requires
        is_local_spec(st.current, ident),
    ensures
        gen_expr(st, ExprV::LetGet { ident }) == Ok::<GenState, GenError>(
            push_stmt(st, StatementV::Raw("local.get $"@ + ident)),
        ),
{
}

/// A store to a parameter or declared local of the current function
/// resolves to a local store, never a global one.
pub proof fn lemma_local_store_resolves_locally(st: GenState, ident: Seq<char>, value: ExprV)
    requires
        is_local_spec(st.current, ident),
    ensures
        gen_expr(st, value) matches Ok(st1) ==> gen_expr(
            st,
            ExprV::LetSet { ident, expr: Box::new(value) },
        ) == Ok::<GenState, GenError>(push_stmt(st1, StatementV::Raw("local.set $"@ + ident))),
{
    lemma_gen_expr_context(st, value);
    if let Ok(st1) = gen_expr(st, value) {
        if st.current.params.contains(ident) {
            assert(st1.current.params.contains(ident));
        } else {
            lemma_prefix_contains(st.current.locals, st1.current.locals, ident);
        }
    }
}

/// A top-level `let` declaration registers a mutable module global of
/// that name, declares no function local, and stores through the
/// global.
pub proof fn lemma_top_level_let_declares_global(st: GenState, ident: Seq<char>, init: ExprV)
    requires
        st.current.function_type == FunctionType::Script,
    ensures
        gen_expr(st, ExprV::LetAssign { ident, initializer: Box::new(init) }) matches Ok(st2) ==> {
            &&& st2.module.globals.contains(
                GlobalV { name: ident, mutable: true, value_type: ValueType::I32 },
            )
            &&& st2.current.locals == st.current.locals
            &&& st2.current.statements.len() > 0
            &&& st2.current.statements.last() == StatementV::Raw("global.set $"@ + ident)
        },
{
    let g = GlobalV { name: ident, mutable: true, value_type: ValueType::I32 };
    let st1 = GenState {
        module: crate::codegen::watwriter::ModuleV {
            globals: st.module.globals.push(g),
            ..st.module
        },
        current: st.current,
    };
    lemma_gen_expr_context(st1, init);
    if let Ok(st2) = gen_expr(st1, init) {
        assert(st1.module.globals.contains(g)) by {
            assert(st1.module.globals.last() == g);
        };
        lemma_prefix_contains(st1.module.globals, st2.module.globals, g);
    }
}

/// In a context with no parameters and no locals — the top-level script
/// context — a reference to a declared global resolves to a global
/// load.
pub proof fn lemma_top_level_load_resolves_globally(st: GenState, ident: Seq<char>)
    requires
        st.current.params.len() == 0,
        st.current.locals.len() == 0,
        has_global(st.module, ident),
    ensures
        gen_expr(st, ExprV::LetGet { ident }) == Ok::<GenState, GenError>(
            push_stmt(st, StatementV::Raw("global.get $"@ + ident)),
        ),
{
    assert(!st.current.params.contains(ident));
    assert(!st.current.locals.contains(ident));
}

/// The module text generated from an abstract syntax tree is a function
/// of the tree alone: generating twice from the same tree gives
/// byte-identical text.
pub proof fn lemma_generation_deterministic(prog: Seq<ExprV>, out1: Seq<char>, out2: Seq<char>)
    requires
        gen_program(prog) == Ok::<Seq<char>, GenError>(out1),
        gen_program(prog) == Ok::<Seq<char>, GenError>(out2),
    ensures
        out1 == out2,
{
}

} // verus!
