//! Code generation: lowering the abstract syntax tree into a target
//! module.
//!
//! The behaviour of the generator is the specification function
//! [`gen_expr`]; [`generate_assembly`] is proved to produce exactly the
//! module text that [`gen_program`] assigns to the program.

pub mod laws;
pub mod watwriter;

use vstd::prelude::*;
use crate::codegen::watwriter::{
    wat_of_module, Function, FunctionType, FunctionV, Global, GlobalV, Module, ModuleV, Statement,
    StatementV, ValueType,
};
use crate::syntax::ast::{
    expr_views, lemma_expr_views_index, string_views, BinaryOperator, Expr, ExprV, Identifier,
    LiteralExpr, LiteralV, Program, UnaryOperator,
};
use crate::codegen::watwriter::statement_views;

verus! {

/// Errors of code generation. Each kind is a distinct failure the
/// generator can report.
#[derive(Debug, Clone, Copy, PartialEq, Eq, Structural)]
pub enum GenError {
    /// An identifier was read or written with no preceding declaration
    /// in a visible scope.
    UndeclaredIdentifier,
    /// A call named a function with no preceding definition.
    UndefinedFunction,
    /// A call's callee is not a plain identifier reference.
    UnsupportedCallee,
}

pub type GenResult<T> = Result<T, GenError>;

/// The generator state: the accumulating module and the current
/// function context.
pub struct GenState {
    pub module: ModuleV,
    pub current: FunctionV,
}

/// Whether `id` is a parameter or a declared local of the current
/// function context.
pub open spec fn is_local_spec(f: FunctionV, id: Seq<char>) -> bool {
    f.params.contains(id) || f.locals.contains(id)
}

/// Whether the module holds a global named `id`.
pub open spec fn has_global(m: ModuleV, id: Seq<char>) -> bool {
    exists|k: int| 0 <= k < m.globals.len() && (#[trigger] m.globals[k]).name == id
}

/// Whether the module holds a function named `id`.
pub open spec fn has_function(m: ModuleV, id: Seq<char>) -> bool {
    exists|k: int| 0 <= k < m.functions.len() && (#[trigger] m.functions[k]).name == id
}

/// The opcode of a binary operator.
pub open spec fn opcode_of_binop(op: BinaryOperator) -> Seq<char> {
    match op {
        BinaryOperator::Subtract => "i32.sub"@,
        BinaryOperator::Add => "i32.add"@,
        BinaryOperator::Divide => "i32.div_u"@,
        BinaryOperator::Multiply => "i32.mul"@,
        BinaryOperator::Equal => "i32.eq"@,
        BinaryOperator::BangEqual => "i32.ne"@,
        BinaryOperator::GreaterThan => "i32.gt_u"@,
        BinaryOperator::GreaterThanEqual => "i32.ge_u"@,
        BinaryOperator::LessThan => "i32.lt_u"@,
        BinaryOperator::LessThanEqual => "i32.le_u"@,
    }
}

/// The opcode of a unary operator.
pub open spec fn opcode_of_unop(op: UnaryOperator) -> Seq<char> {
    match op {
        UnaryOperator::Negate => "i32.neg"@,
        UnaryOperator::Not => "i32.eqz"@,
    }
}

/// The state after appending one statement to the current function.
pub open spec fn push_stmt(st: GenState, s: StatementV) -> GenState {
    GenState {
        module: st.module,
        current: FunctionV { statements: st.current.statements.push(s), ..st.current },
    }
}

/// Generate one expression: how the node transforms the generator
/// state, or the error it reports.
pub open spec fn gen_expr(st: GenState, e: ExprV) -> GenResult<GenState>
    decreases e, 0int,
{
    match e {
        ExprV::Block(es) => gen_exprs(st, es),
        ExprV::Binary { left, op, right } => match gen_expr(st, *left) {
            Err(er) => Err(er),
            Ok(st1) => match gen_expr(st1, *right) {
                Err(er) => Err(er),
                Ok(st2) => Ok(push_stmt(st2, StatementV::Raw(opcode_of_binop(op)))),
            },
        },
        ExprV::Unary { op, expr } => match gen_expr(st, *expr) {
            Err(er) => Err(er),
            Ok(st1) => Ok(push_stmt(st1, StatementV::Raw(opcode_of_unop(op)))),
        },
        ExprV::LetAssign { ident, initializer } => {
            let st1 = if st.current.function_type == FunctionType::Script {
                GenState {
                    module: ModuleV {
                        globals: st.module.globals.push(
                            GlobalV { name: ident, mutable: true, value_type: ValueType::I32 },
                        ),
                        ..st.module
                    },
                    current: st.current,
                }
            } else {
                st
            };
            match gen_expr(st1, *initializer) {
                Err(er) => Err(er),
                Ok(st2) => {
                    if st2.current.function_type == FunctionType::Script {
                        Ok(push_stmt(st2, StatementV::Raw("global.set $"@ + ident)))
                    } else {
                        let st3 = GenState {
                            module: st2.module,
                            current: FunctionV {
                                locals: st2.current.locals.push(ident),
                                ..st2.current
                            },
                        };
                        Ok(push_stmt(st3, StatementV::Raw("local.set $"@ + ident)))
                    }
                },
            }
        },
        ExprV::LetGet { ident } => {
            if is_local_spec(st.current, ident) {
                Ok(push_stmt(st, StatementV::Raw("local.get $"@ + ident)))
            } else if has_global(st.module, ident) {
                Ok(push_stmt(st, StatementV::Raw("global.get $"@ + ident)))
            } else {
                Err(GenError::UndeclaredIdentifier)
            }
        },
        ExprV::LetSet { ident, expr } => match gen_expr(st, *expr) {
            Err(er) => Err(er),
            Ok(st1) => {
                if is_local_spec(st1.current, ident) {
                    Ok(push_stmt(st1, StatementV::Raw("local.set $"@ + ident)))
                } else if has_global(st1.module, ident) {
                    Ok(push_stmt(st1, StatementV::Raw("global.set $"@ + ident)))
                } else {
                    Err(GenError::UndeclaredIdentifier)
                }
            },
        },
        ExprV::Print { value } => match gen_expr(st, *value) {
            Err(er) => Err(er),
            Ok(st1) => Ok(push_stmt(st1, StatementV::Raw("call $log"@))),
        },
        ExprV::IfElse { condition, then, else_ } => match gen_expr(st, *condition) {
            Err(er) => Err(er),
            Ok(st1) => {
                let st2 = push_stmt(st1, StatementV::Raw("(if (then"@));
                match gen_expr(st2, *then) {
                    Err(er) => Err(er),
                    Ok(st3) => {
                        let st4 = push_stmt(st3, StatementV::Raw(") (else"@));
                        let after_else = match else_ {
                            Some(e2) => gen_expr(st4, *e2),
                            None => Ok(st4),
                        };
                        match after_else {
                            Err(er) => Err(er),
                            Ok(st5) => Ok(push_stmt(st5, StatementV::Raw("))"@))),
                        }
                    },
                }
            },
        },
        ExprV::Def { ident, decl } => {
            let fresh = FunctionV {
                name: ident,
                params: decl.args,
                return_type: Some(ValueType::I32),
                locals: Seq::empty(),
                statements: Seq::empty(),
                function_type: FunctionType::Function,
            };
            match gen_exprs(GenState { module: st.module, current: fresh }, decl.body) {
                Err(er) => Err(er),
                Ok(st1) => Ok(
                    GenState {
                        module: ModuleV {
                            functions: st1.module.functions.push(st1.current),
                            ..st1.module
                        },
                        current: st.current,
                    },
                ),
            }
        },
        ExprV::Call { callee, args } => match gen_exprs(st, args) {
            Err(er) => Err(er),
            Ok(st1) => match *callee {
                ExprV::LetGet { ident } => {
                    if has_function(st1.module, ident) {
                        Ok(push_stmt(st1, StatementV::Call(ident)))
                    } else {
                        Err(GenError::UndefinedFunction)
                    }
                },
                _ => Err(GenError::UnsupportedCallee),
            },
        },
        ExprV::Literal(l) => match l {
            LiteralV::Number(n) => Ok(push_stmt(st, StatementV::Const(n))),
            LiteralV::Str(_) => Ok(push_stmt(st, StatementV::Raw("i32.const 0"@))),
            LiteralV::True => Ok(push_stmt(st, StatementV::Const(1))),
            LiteralV::False => Ok(push_stmt(st, StatementV::Const(0))),
        },
    }
}

/// Generate a sequence of expressions in order.
pub open spec fn gen_exprs(st: GenState, es: Seq<ExprV>) -> GenResult<GenState>
    decreases es, 1int,
{
    if es.len() == 0 {
        Ok(st)
    } else {
        match gen_expr(st, es[0]) {
            Err(er) => Err(er),
            Ok(st1) => gen_exprs(st1, es.drop_first()),
        }
    }
}

/// The initial generator state: an empty module and the top-level
/// script context, which becomes the exported entry function.
pub open spec fn initial_state() -> GenState {
    GenState {
        module: ModuleV {
            globals: Seq::empty(),
            data: Seq::empty(),
            functions: Seq::empty(),
        },
        current: FunctionV {
            name: "main"@,
            params: Seq::empty(),
            return_type: None,
            locals: Seq::empty(),
            statements: Seq::empty(),
            function_type: FunctionType::Script,
        },
    }
}

/// The module text of a whole program, or the first generation error.
pub open spec fn gen_program(prog: Seq<ExprV>) -> GenResult<Seq<char>> {
    match gen_exprs(initial_state(), prog) {
        Err(er) => Err(er),
        Ok(st) => Ok(
            wat_of_module(
                ModuleV { functions: st.module.functions.push(st.current), ..st.module },
            ),
        ),
    }
}

/// Whether the list holds an identifier with the same characters.
fn contains_string(v: &Vec<Identifier>, s: &String) -> (r: bool)
    ensures
        r == string_views(v@).contains(s@),
{
    let mut i: usize = 0;
    while i < v.len()
        invariant
            i <= v@.len(),
            forall|k: int| 0 <= k < i ==> string_views(v@)[k] != s@,
        decreases v@.len() - i,
    {
        let vi = &v[i];
        if vi.eq(s) {
            proof {
                assert(string_views(v@)[i as int] == s@);
            }
            return true;
        }
        proof {
            assert(string_views(v@)[i as int] == v@[i as int]@);
        }
        i += 1;
    }
    proof {
        assert forall|k: int| 0 <= k < string_views(v@).len() implies string_views(v@)[k] != s@ by {
        }
    }
    false
}

/// The compiler: the accumulating module and the current function
/// context.
pub struct Compiler {
    pub module: Module,
    pub current: Function,
}

impl Compiler {
    /// The generator state this compiler holds.
    pub open spec fn st(self) -> GenState {
        GenState { module: self.module@, current: self.current@ }
    }

    pub fn new() -> (c: Compiler)
        ensures
            c.st() == initial_state(),
    {
        let main_fun = Function::new(
            String::from_str("main"),
            Vec::new(),
            None,
            Vec::new(),
            FunctionType::Script,
        );
        let c = Compiler { module: Module::new(), current: main_fun };
        proof {
            assert(string_views(Seq::<String>::empty()) =~= Seq::<Seq<char>>::empty());
            assert(statement_views(Seq::<Statement>::empty()) =~= Seq::<
                StatementV,
            >::empty());
        }
        c
    }

    /// Whether the identifier resolves to a function-local slot of the
    /// current context.
    pub fn is_local(&self, local: &Identifier) -> (r: bool)
        ensures
            r == is_local_spec(self.st().current, local@),
    {
        if contains_string(&self.current.params, local) {
            return true;
        }
        contains_string(&self.current.locals, local)
    }

    /// The text of the finished module.
    pub fn to_wat(self) -> (r: String)
        ensures
            r@ == wat_of_module(self.module@),
    {
        self.module.to_wat()
    }
}

/// A copy of an identifier list with the same values.
fn clone_idents(v: &Vec<Identifier>) -> (r: Vec<Identifier>)
    ensures
        r@ == v@,
{
    let mut r: Vec<Identifier> = Vec::new();
    let mut i: usize = 0;
    while i < v.len()
        invariant
            i <= v@.len(),
            r@ == v@.subrange(0, i as int),
        decreases v@.len() - i,
    {
        r.push(v[i].clone());
        proof {
            assert(v@.subrange(0, i + 1) =~= v@.subrange(0, i as int).push(v@[i as int]));
        }
        i += 1;
    }
    proof {
        assert(v@.subrange(0, v@.len() as int) =~= v@);
    }
    r
}

/// Whether the module holds a global of this name.
fn module_has_global(m: &Module, id: &Identifier) -> (r: bool)
    ensures
        r == has_global(m@, id@),
{
    let mut i: usize = 0;
    while i < m.globals.len()
        invariant
            i <= m.globals@.len(),
            forall|k: int| 0 <= k < i ==> (#[trigger] m@.globals[k]).name != id@,
        decreases m.globals@.len() - i,
    {
        let g = &m.globals[i];
        if g.name.eq(id) {
            proof {
                assert(m@.globals[i as int].name == id@);
            }
            return true;
        }
        i += 1;
    }
    false
}

/// Whether the module holds a function of this name.
fn module_has_function(m: &Module, id: &Identifier) -> (r: bool)
    ensures
        r == has_function(m@, id@),
{
    let mut i: usize = 0;
    while i < m.functions.len()
        invariant
            i <= m.functions@.len(),
            forall|k: int| 0 <= k < i ==> (#[trigger] m@.functions[k]).name != id@,
        decreases m.functions@.len() - i,
    {
        let f = &m.functions[i];
        if f.name.eq(id) {
            proof {
                assert(m@.functions[i as int].name == id@);
            }
            return true;
        }
        i += 1;
    }
    false
}

/// The string `prefix` followed by the identifier.
fn opcode_with_ident(prefix: &str, ident: &Identifier) -> (r: String)
    ensures
        r@ == prefix@ + ident@,
{
    let mut s = prefix.to_owned();
    s.append(ident.as_str());
    s
}

/// Emit the opcode of a binary operator.
fn generate_binary_op(compiler: &mut Compiler, op: &BinaryOperator)
    ensures
        final(compiler).st() == push_stmt(
            old(compiler).st(),
            StatementV::Raw(opcode_of_binop(*op)),
        ),
{
    let operator = match op {
        BinaryOperator::Subtract => String::from_str("i32.sub"),
        BinaryOperator::Add => String::from_str("i32.add"),
        BinaryOperator::Divide => String::from_str("i32.div_u"),
        BinaryOperator::Multiply => String::from_str("i32.mul"),
        BinaryOperator::Equal => String::from_str("i32.eq"),
        BinaryOperator::BangEqual => String::from_str("i32.ne"),
        BinaryOperator::GreaterThan => String::from_str("i32.gt_u"),
        BinaryOperator::GreaterThanEqual => String::from_str("i32.ge_u"),
        BinaryOperator::LessThan => String::from_str("i32.lt_u"),
        BinaryOperator::LessThanEqual => String::from_str("i32.le_u"),
    };
    compiler.current.add_statement(Statement::Raw(operator));
}

/// Emit a literal: a constant push, or the placeholder for a string.
fn generate_literal(compiler: &mut Compiler, l: &LiteralExpr)
    ensures
        gen_expr(old(compiler).st(), ExprV::Literal(l.deep_view())) == Ok::<GenState, GenError>(
            final(compiler).st(),
        ),
{
    let statement = match l {
        LiteralExpr::Number(n) => Statement::Const(*n),
        LiteralExpr::Str(_) => Statement::Raw(String::from_str("i32.const 0")),
        LiteralExpr::True => Statement::Const(1),
        LiteralExpr::False => Statement::Const(0),
    };
    compiler.current.add_statement(statement);
}

/// Emit the load of an identifier, resolved against the current scope.
fn generate_let_get(compiler: &mut Compiler, ident: &Identifier) -> (r: GenResult<()>)
    ensures
        ({
            let s = gen_expr(old(compiler).st(), ExprV::LetGet { ident: ident@ });
            match r {
                Ok(_) => s == Ok::<GenState, GenError>(final(compiler).st()),
                Err(e) => s == Err::<GenState, GenError>(e),
            }
        }),
{
    if compiler.is_local(ident) {
        let s = opcode_with_ident("local.get $", ident);
        compiler.current.add_statement(Statement::Raw(s));
        Ok(())
    } else if module_has_global(&compiler.module, ident) {
        let s = opcode_with_ident("global.get $", ident);
        compiler.current.add_statement(Statement::Raw(s));
        Ok(())
    } else {
        Err(GenError::UndeclaredIdentifier)
    }
}

/// Generate one expression.
#[verifier::rlimit(60)]
pub fn generate_expr(compiler: &mut Compiler, expr: &Expr) -> (r: GenResult<()>)
    ensures
        ({
            let s = gen_expr(old(compiler).st(), expr.deep_view());
            match r {
                Ok(_) => s == Ok::<GenState, GenError>(final(compiler).st()),
                Err(e) => s == Err::<GenState, GenError>(e),
            }
        }),
    decreases *expr, 0int,
{
    match expr {
        Expr::Block(es) => generate_block(compiler, es),
        Expr::Binary { left, op, right } => {
            match generate_expr(compiler, left) {
                Err(e) => {
                    return Err(e);
                },
                Ok(_) => {},
            }
            match generate_expr(compiler, right) {
                Err(e) => {
                    return Err(e);
                },
                Ok(_) => {},
            }
            generate_binary_op(compiler, op);
            Ok(())
        },
        Expr::Unary { op, expr: operand } => generate_unary(compiler, op, operand),
        Expr::LetAssign { ident, initializer } => generate_let_assign(compiler, ident, initializer),
        Expr::LetGet { ident } => generate_let_get(compiler, ident),
        Expr::LetSet { ident, expr: value } => generate_let_set(compiler, ident, value),
        Expr::Print { value } => generate_print(compiler, value),
        Expr::IfElse { condition, then, else_ } => {
            match generate_expr(compiler, condition) {
                Err(e) => {
                    return Err(e);
                },
                Ok(_) => {},
            }
            compiler.current.add_statement(Statement::Raw(String::from_str("(if (then")));
            match generate_expr(compiler, then) {
                Err(e) => {
                    return Err(e);
                },
                Ok(_) => {},
            }
            compiler.current.add_statement(Statement::Raw(String::from_str(") (else")));
            match else_ {
                Some(e2) => {
                    match generate_expr(compiler, e2) {
                        Err(e) => {
                            return Err(e);
                        },
                        Ok(_) => {},
                    }
                },
                None => {},
            }
            compiler.current.add_statement(Statement::Raw(String::from_str("))")));
            Ok(())
        },
        Expr::Def { ident, decl } => generate_fun(compiler, ident, &decl.args, &decl.body),
        Expr::Call { callee, args } => generate_call(compiler, callee, args),
        Expr::Literal(l) => {
            generate_literal(compiler, l);
            Ok(())
        },
    }
}

/// Generate a statement list in order.
pub fn generate_block(compiler: &mut Compiler, expressions: &Vec<Expr>) -> (r: GenResult<()>)
    ensures
        ({
            let s = gen_exprs(old(compiler).st(), expr_views(expressions@));
            match r {
                Ok(_) => s == Ok::<GenState, GenError>(final(compiler).st()),
                Err(e) => s == Err::<GenState, GenError>(e),
            }
        }),
    decreases *expressions, 1int,
{
    let ghost st0 = compiler.st();
    let ghost evs = expr_views(expressions@);
    proof {
        lemma_expr_views_index(expressions@);
        assert(evs.subrange(0, evs.len() as int) =~= evs);
    }
    let mut i: usize = 0;
    while i < expressions.len()
        invariant
            i <= expressions@.len(),
            evs == expr_views(expressions@),
            st0 == old(compiler).st(),
            evs.len() == expressions@.len(),
            forall|k: int|
                0 <= k < evs.len() ==> #[trigger] evs[k] == crate::syntax::ast::expr_view(
                    expressions@[k],
                ),
            gen_exprs(st0, evs) == gen_exprs(
                compiler.st(),
                evs.subrange(i as int, evs.len() as int),
            ),
        decreases expressions@.len() - i,
    {
        let ghost st_i = compiler.st();
        proof {
            assert(gen_exprs(st0, evs) == gen_exprs(st_i, evs.subrange(i as int, evs.len() as int)));
            assert(evs.subrange(i as int, evs.len() as int)[0] == evs[i as int]);
        }
        match generate_expr(compiler, &expressions[i]) {
            Err(e) => {
                proof {
                    assert(evs.subrange(i as int, evs.len() as int)[0] == evs[i as int]);
                }
                return Err(e);
            },
            Ok(_) => {},
        }
        proof {
            assert(evs.subrange(i as int, evs.len() as int)[0] == evs[i as int]);
            assert(evs.subrange(i as int, evs.len() as int).drop_first() =~= evs.subrange(
                i + 1,
                evs.len() as int,
            ));
        }
        i += 1;
    }
    proof {
        assert(evs.subrange(evs.len() as int, evs.len() as int) =~= Seq::<ExprV>::empty());
    }
    Ok(())
}

/// Emit a unary operator application.
fn generate_unary(compiler: &mut Compiler, op: &UnaryOperator, operand: &Expr) -> (r: GenResult<
    (),
>)
    ensures
        ({
            let s = gen_expr(
                old(compiler).st(),
                ExprV::Unary { op: *op, expr: Box::new(operand.deep_view()) },
            );
            match r {
                Ok(_) => s == Ok::<GenState, GenError>(final(compiler).st()),
                Err(e) => s == Err::<GenState, GenError>(e),
            }
        }),
    decreases *operand, 2int,
{
    match generate_expr(compiler, operand) {
        Err(e) => {
            return Err(e);
        },
        Ok(_) => {},
    }
    let opcode = match op {
        UnaryOperator::Negate => String::from_str("i32.neg"),
        UnaryOperator::Not => String::from_str("i32.eqz"),
    };
    compiler.current.add_statement(Statement::Raw(opcode));
    Ok(())
}

/// Emit a declaration: a new global at top level, a new local inside a
/// function.
fn generate_let_assign(compiler: &mut Compiler, ident: &Identifier, initializer: &Expr) -> (r:
    GenResult<()>)
    ensures
        ({
            let s = gen_expr(
                old(compiler).st(),
                ExprV::LetAssign { ident: ident@, initializer: Box::new(initializer.deep_view()) },
            );
            match r {
                Ok(_) => s == Ok::<GenState, GenError>(final(compiler).st()),
                Err(e) => s == Err::<GenState, GenError>(e),
            }
        }),
    decreases *initializer, 2int,
{
    if compiler.current.function_type == FunctionType::Script {
        let global = Global { name: ident.clone(), mutable: true, value_type: ValueType::I32 };
        compiler.module.add_global(global);
    }
    match generate_expr(compiler, initializer) {
        Err(e) => {
            return Err(e);
        },
        Ok(_) => {},
    }
    if compiler.current.function_type == FunctionType::Script {
        let s = opcode_with_ident("global.set $", ident);
        compiler.current.add_statement(Statement::Raw(s));
    } else {
        compiler.current.add_local(ident.clone());
        let s = opcode_with_ident("local.set $", ident);
        compiler.current.add_statement(Statement::Raw(s));
    }
    Ok(())
}

/// Emit the store of an identifier, resolved against the current scope.
fn generate_let_set(compiler: &mut Compiler, ident: &Identifier, value: &Expr) -> (r: GenResult<
    (),
>)
    ensures
        ({
            let s = gen_expr(
                old(compiler).st(),
                ExprV::LetSet { ident: ident@, expr: Box::new(value.deep_view()) },
            );
            match r {
                Ok(_) => s == Ok::<GenState, GenError>(final(compiler).st()),
                Err(e) => s == Err::<GenState, GenError>(e),
            }
        }),
    decreases *value, 2int,
{
    match generate_expr(compiler, value) {
        Err(e) => {
            return Err(e);
        },
        Ok(_) => {},
    }
    if compiler.is_local(ident) {
        let s = opcode_with_ident("local.set $", ident);
        compiler.current.add_statement(Statement::Raw(s));
        Ok(())
    } else if module_has_global(&compiler.module, ident) {
        let s = opcode_with_ident("global.set $", ident);
        compiler.current.add_statement(Statement::Raw(s));
        Ok(())
    } else {
        Err(GenError::UndeclaredIdentifier)
    }
}

/// Emit the value and the call of the host log import.
fn generate_print(compiler: &mut Compiler, value: &Expr) -> (r: GenResult<()>)
    ensures
        ({
            let s = gen_expr(old(compiler).st(), ExprV::Print { value: Box::new(value.deep_view()) });
            match r {
                Ok(_) => s == Ok::<GenState, GenError>(final(compiler).st()),
                Err(e) => s == Err::<GenState, GenError>(e),
            }
        }),
    decreases *value, 2int,
{
    match generate_expr(compiler, value) {
        Err(e) => {
            return Err(e);
        },
        Ok(_) => {},
    }
    compiler.current.add_statement(Statement::Raw(String::from_str("call $log")));
    Ok(())
}

/// Generate a function definition: the body is generated in a fresh
/// context with the parameters preregistered, and the enclosing context
/// is restored afterwards.
fn generate_fun(
    compiler: &mut Compiler,
    ident: &Identifier,
    params: &Vec<Identifier>,
    body: &Vec<Expr>,
) -> (r: GenResult<()>)
    ensures
        ({
            let s = gen_expr(
                old(compiler).st(),
                ExprV::Def {
                    ident: ident@,
                    decl: crate::syntax::ast::FunDeclV {
                        args: string_views(params@),
                        body: expr_views(body@),
                    },
                },
            );
            match r {
                Ok(_) => s == Ok::<GenState, GenError>(final(compiler).st()),
                Err(e) => s == Err::<GenState, GenError>(e),
            }
        }),
    decreases *body, 2int,
{
    let fresh = Function::new(
        ident.clone(),
        clone_idents(params),
        Some(ValueType::I32),
        Vec::new(),
        FunctionType::Function,
    );
    let mut saved = fresh;
    core::mem::swap(&mut saved, &mut compiler.current);
    proof {
        assert(statement_views(Seq::<Statement>::empty()) =~= Seq::<
            StatementV,
        >::empty());
    }
    match generate_block(compiler, body) {
        Err(e) => {
            return Err(e);
        },
        Ok(_) => {},
    }
    let mut finished = saved;
    core::mem::swap(&mut finished, &mut compiler.current);
    compiler.module.add_function(finished);
    Ok(())
}

/// Generate a call: the arguments in order, then the call of the
/// callee, which must be a plain identifier naming a defined function.
fn generate_call(compiler: &mut Compiler, callee: &Expr, args: &Vec<Expr>) -> (r: GenResult<()>)
    ensures
        ({
            let s = gen_expr(
                old(compiler).st(),
                ExprV::Call { callee: Box::new(callee.deep_view()), args: expr_views(args@) },
            );
            match r {
                Ok(_) => s == Ok::<GenState, GenError>(final(compiler).st()),
                Err(e) => s == Err::<GenState, GenError>(e),
            }
        }),
    decreases *args, 2int,
{
    match generate_block(compiler, args) {
        Err(e) => {
            return Err(e);
        },
        Ok(_) => {},
    }
    match callee {
        Expr::LetGet { ident } => {
            if module_has_function(&compiler.module, ident) {
                compiler.current.add_statement(Statement::Call(ident.clone()));
                Ok(())
            } else {
                Err(GenError::UndefinedFunction)
            }
        },
        _ => Err(GenError::UnsupportedCallee),
    }
}

/// Compile a whole program to module text, or report the first
/// generation error.
pub fn generate_assembly(program: Program) -> (r: GenResult<String>)
    ensures
        ({
            let s = gen_program(expr_views(program@));
            match r {
                Ok(text) => s == Ok::<Seq<char>, GenError>(text@),
                Err(e) => s == Err::<Seq<char>, GenError>(e),
            }
        }),
{
    let mut compiler = Compiler::new();
    match generate_block(&mut compiler, &program) {
        Err(e) => {
            return Err(e);
        },
        Ok(_) => {},
    }
    let Compiler { mut module, current } = compiler;
    module.add_function(current);
    Ok(module.to_wat())
}

} // verus!
