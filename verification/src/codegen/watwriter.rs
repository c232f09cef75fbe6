//! The target module and its writer.
//!
//! The writer is pure serialization: the text of a module is the
//! specification function [`wat_of_module`], and every `to_wat` method is
//! proved to produce exactly that text.

use vstd::prelude::*;
use crate::syntax::ast::{string_views, Identifier};

verus! {

/// A value type of the target machine.
#[derive(Debug, Clone, Copy, PartialEq, Eq, Structural)]
pub enum ValueType {
    I32,
    I64,
    F32,
    F64,
}

/// A module-level mutable cell, declared by a top-level `let`.
#[derive(Debug, PartialEq)]
pub struct Global {
    pub name: String,
    pub mutable: bool,
    pub value_type: ValueType,
}

/// The mathematical value of a [`Global`].
pub struct GlobalV {
    pub name: Seq<char>,
    pub mutable: bool,
    pub value_type: ValueType,
}

impl View for Global {
    type V = GlobalV;

    open spec fn view(&self) -> GlobalV {
        GlobalV { name: self.name@, mutable: self.mutable, value_type: self.value_type }
    }
}

pub type FunctionName = String;

/// One instruction line of a function body.
#[derive(Debug, PartialEq)]
pub enum Statement {
    /// Push a constant.
    Const(i32),
    /// Call a function by name.
    Call(FunctionName),
    /// A raw opcode or structural marker, emitted verbatim.
    Raw(String),
}

/// The mathematical value of a [`Statement`].
pub enum StatementV {
    Const(int),
    Call(Seq<char>),
    Raw(Seq<char>),
}

impl View for Statement {
    type V = StatementV;

    open spec fn view(&self) -> StatementV {
        match self {
            Statement::Const(c) => StatementV::Const(*c as int),
            Statement::Call(f) => StatementV::Call(f@),
            Statement::Raw(s) => StatementV::Raw(s@),
        }
    }
}

/// The views of a sequence of statements.
pub open spec fn statement_views(ss: Seq<Statement>) -> Seq<StatementV> {
    Seq::new(ss.len(), |i: int| ss[i]@)
}

/// Whether a function is a named function or the top-level script.
#[derive(Debug, Clone, Copy, PartialEq, Eq, Structural)]
pub enum FunctionType {
    Function,
    Script,
}

/// A function of the target module.
#[derive(Debug, PartialEq)]
pub struct Function {
    pub name: String,
    pub params: Vec<Identifier>,
    pub return_type: Option<ValueType>,
    pub locals: Vec<Identifier>,
    pub statements: Vec<Statement>,
    pub function_type: FunctionType,
}

/// The mathematical value of a [`Function`].
pub struct FunctionV {
    pub name: Seq<char>,
    pub params: Seq<Seq<char>>,
    pub return_type: Option<ValueType>,
    pub locals: Seq<Seq<char>>,
    pub statements: Seq<StatementV>,
    pub function_type: FunctionType,
}

impl View for Function {
    type V = FunctionV;

    open spec fn view(&self) -> FunctionV {
        FunctionV {
            name: self.name@,
            params: string_views(self.params@),
            return_type: self.return_type,
            locals: string_views(self.locals@),
            statements: statement_views(self.statements@),
            function_type: self.function_type,
        }
    }
}

/// The views of a sequence of functions.
pub open spec fn function_views(fs: Seq<Function>) -> Seq<FunctionV> {
    Seq::new(fs.len(), |i: int| fs[i]@)
}

/// The views of a sequence of globals.
pub open spec fn global_views(gs: Seq<Global>) -> Seq<GlobalV> {
    Seq::new(gs.len(), |i: int| gs[i]@)
}

/// The target module: globals, data constants, and functions, each in
/// declaration order.
#[derive(Debug, PartialEq)]
pub struct Module {
    pub globals: Vec<Global>,
    pub data: Vec<String>,
    pub functions: Vec<Function>,
}

/// The mathematical value of a [`Module`].
pub struct ModuleV {
    pub globals: Seq<GlobalV>,
    pub data: Seq<Seq<char>>,
    pub functions: Seq<FunctionV>,
}

impl View for Module {
    type V = ModuleV;

    open spec fn view(&self) -> ModuleV {
        ModuleV {
            globals: global_views(self.globals@),
            data: string_views(self.data@),
            functions: function_views(self.functions@),
        }
    }
}

/// The decimal digit character for `d`.
pub open spec fn digit_char(d: int) -> char {
    ((48 + d) as u8) as char
}

/// The decimal numeral of a non-negative number.
pub open spec fn dec_nat(n: int) -> Seq<char>
    decreases n,
{
    if n < 10 {
        seq![digit_char(if n >= 0 { n } else { 0 })]
    } else {
        dec_nat(n / 10) + seq![digit_char(n % 10)]
    }
}

/// The decimal numeral of an integer, with a leading minus sign when
/// negative.
pub open spec fn dec_int(n: int) -> Seq<char> {
    if n < 0 {
        seq!['-'] + dec_nat(-n)
    } else {
        dec_nat(n)
    }
}

/// The text of one statement: one line.
pub open spec fn wat_of_statement(s: StatementV) -> Seq<char> {
    match s {
        StatementV::Const(c) => "i32.const "@ + dec_int(c) + "\n"@,
        StatementV::Raw(r) => r + "\n"@,
        StatementV::Call(f) => "call $"@ + f + "\n"@,
    }
}

/// The text of a statement sequence.
pub open spec fn wat_of_statements(ss: Seq<StatementV>) -> Seq<char>
    decreases ss.len(),
{
    if ss.len() == 0 {
        Seq::empty()
    } else {
        wat_of_statements(ss.drop_last()) + wat_of_statement(ss.last())
    }
}

/// The declaration of one global: a mutable cell of the module's numeric
/// type, zero-initialized.
pub open spec fn wat_of_global(g: GlobalV) -> Seq<char> {
    "(global $"@ + g.name + " (mut i32) (i32.const 0))\n"@
}

/// The declarations of a global sequence.
pub open spec fn wat_of_globals(gs: Seq<GlobalV>) -> Seq<char>
    decreases gs.len(),
{
    if gs.len() == 0 {
        Seq::empty()
    } else {
        wat_of_globals(gs.drop_last()) + wat_of_global(gs.last())
    }
}

/// The declaration of one data-segment constant.
pub open spec fn wat_of_datum(d: Seq<char>) -> Seq<char> {
    "(data (i32.const 0) \""@ + d + "\")\n"@
}

/// The declarations of a data sequence.
pub open spec fn wat_of_data(ds: Seq<Seq<char>>) -> Seq<char>
    decreases ds.len(),
{
    if ds.len() == 0 {
        Seq::empty()
    } else {
        wat_of_data(ds.drop_last()) + wat_of_datum(ds.last())
    }
}

/// The parameter declarations of a function.
pub open spec fn wat_of_params(ps: Seq<Seq<char>>) -> Seq<char>
    decreases ps.len(),
{
    if ps.len() == 0 {
        Seq::empty()
    } else {
        wat_of_params(ps.drop_last()) + "(param $"@ + ps.last() + " i32) "@
    }
}

/// The local declarations of a function.
pub open spec fn wat_of_locals(ls: Seq<Seq<char>>) -> Seq<char>
    decreases ls.len(),
{
    if ls.len() == 0 {
        Seq::empty()
    } else {
        wat_of_locals(ls.drop_last()) + "(local $"@ + ls.last() + " i32)\n"@
    }
}

/// The text of one function: header, optional result type, locals, and
/// body.
pub open spec fn wat_of_function(f: FunctionV) -> Seq<char> {
    "(func "@ + "$"@ + f.name + " "@ + wat_of_params(f.params) + "\n"@ + (if f.return_type
        is Some {
        "(result i32)\n"@
    } else {
        Seq::<char>::empty()
    }) + wat_of_locals(f.locals) + wat_of_statements(f.statements) + ")\n"@
}

/// The texts of a function sequence.
pub open spec fn wat_of_functions(fs: Seq<FunctionV>) -> Seq<char>
    decreases fs.len(),
{
    if fs.len() == 0 {
        Seq::empty()
    } else {
        wat_of_functions(fs.drop_last()) + wat_of_function(fs.last())
    }
}

/// The complete module text: header, the one required import, the
/// memory, globals, data, functions, and the exports of the entry
/// function and the memory.
pub open spec fn wat_of_module(m: ModuleV) -> Seq<char> {
    "(module\n"@ + "(import \"env\" \"log\" (func $log (param i32)))\n"@ + "(memory $mem 1)\n"@
        + wat_of_globals(m.globals) + wat_of_data(m.data) + wat_of_functions(m.functions)
        + "(export \"main\" (func $main))\n"@ + "(export \"memory\" (memory $mem))\n"@ + ")"@
}

/// Append the decimal numeral of `n` to `out`.
fn push_dec_u32(n: u32, out: &mut String)
    ensures
        final(out)@ == old(out)@ + dec_nat(n as int),
    decreases n,
{
    if n >= 10 {
        push_dec_u32(n / 10, out);
    }
    let d = (n % 10) as u8;
    out.push((48 + d) as char);
    proof {
        if n < 10 {
            assert(old(out)@ + seq![digit_char(n as int)] =~= final(out)@);
        } else {
            assert(old(out)@ + (dec_nat(n as int / 10) + seq![digit_char(n as int % 10)]) =~= (
            old(out)@ + dec_nat(n as int / 10)).push(digit_char(n as int % 10)));
        }
    }
}

/// Append the decimal numeral of `n`, with a minus sign when negative.
fn push_dec_i32(n: i32, out: &mut String)
    ensures
        final(out)@ == old(out)@ + dec_int(n as int),
{
    if n < 0 {
        out.push('-');
        let m = (-(n as i64)) as u32;
        push_dec_u32(m, out);
        proof {
            assert(final(out)@ =~= old(out)@ + (seq!['-'] + dec_nat(-(n as int))));
        }
    } else {
        push_dec_u32(n as u32, out);
    }
}

impl Statement {
    /// The text of this statement.
    fn to_wat(self) -> (r: String)
        ensures
            r@ == wat_of_statement(self@),
    {
        proof {
            reveal_strlit("\n");
        }
        match self {
            Statement::Const(c) => {
                let mut out = String::from_str("i32.const ");
                push_dec_i32(c, &mut out);
                out.push('\n');
                proof {
                    assert(out@ =~= "i32.const "@ + dec_int(c as int) + "\n"@);
                }
                out
            },
            Statement::Raw(s) => {
                let mut out = s;
                out.push('\n');
                proof {
                    assert(out@ =~= self@->Raw_0 + "\n"@);
                }
                out
            },
            Statement::Call(f) => {
                let mut out = String::from_str("call $");
                out.append(f.as_str());
                out.push('\n');
                proof {
                    assert(out@ =~= "call $"@ + f@ + "\n"@);
                }
                out
            },
        }
    }
}

impl Global {
    /// The declaration text of this global.
    pub fn to_wat(self) -> (r: String)
        ensures
            r@ == wat_of_global(self@),
    {
        let mut out = String::from_str("(global $");
        out.append(self.name.as_str());
        out.append(" (mut i32) (i32.const 0))\n");
        out
    }
}

impl Function {
    pub fn new(
        name: String,
        params: Vec<Identifier>,
        return_type: Option<ValueType>,
        statements: Vec<Statement>,
        function_type: FunctionType,
    ) -> (f: Function)
        ensures
            f@ == (FunctionV {
                name: name@,
                params: string_views(params@),
                return_type,
                locals: Seq::empty(),
                statements: statement_views(statements@),
                function_type,
            }),
    {
        let f = Function { name, params, return_type, locals: Vec::new(), statements, function_type };
        proof {
            assert(string_views(f.locals@) =~= Seq::<Seq<char>>::empty());
        }
        f
    }

    pub fn add_local(&mut self, local: Identifier)
        ensures
            final(self)@ == (FunctionV { locals: old(self)@.locals.push(local@), ..old(self)@ }),
    {
        let ghost old_locals = self.locals@;
        self.locals.push(local);
        proof {
            assert(string_views(self.locals@) =~= string_views(old_locals).push(local@));
            assert(statement_views(self.statements@) == old(self)@.statements);
            assert(string_views(self.params@) == old(self)@.params);
        }
    }

    pub fn add_statement(&mut self, statement: Statement)
        ensures
            final(self)@ == (FunctionV {
                statements: old(self)@.statements.push(statement@),
                ..old(self)@
            }),
    {
        let ghost old_statements = self.statements@;
        self.statements.push(statement);
        proof {
            assert(statement_views(self.statements@) =~= statement_views(old_statements).push(
                statement@,
            ));
        }
    }

    /// The text of this function.
    pub fn to_wat(self) -> (r: String)
        ensures
            r@ == wat_of_function(self@),
    {
        let ghost fv = self@;
        let mut out = String::from_str("(func ");
        out.append("$");
        out.append(self.name.as_str());
        out.append(" ");

        let ghost pviews = string_views(self.params@);
        proof {
            assert(out@ =~= "(func "@ + "$"@ + self.name@ + " "@ + wat_of_params(
                pviews.subrange(0, 0),
            ));
        }
        let mut i: usize = 0;
        while i < self.params.len()
            invariant
                i <= self.params.len(),
                pviews == string_views(self.params@),
                out@ == "(func "@ + "$"@ + self.name@ + " "@ + wat_of_params(
                    pviews.subrange(0, i as int),
                ),
            decreases self.params.len() - i,
        {
            proof {
                assert(wat_of_params(pviews.subrange(0, i as int)) == wat_of_params(
                    pviews.subrange(0, i + 1).drop_last(),
                )) by {
                    assert(pviews.subrange(0, i + 1).drop_last() =~= pviews.subrange(0, i as int));
                };
                assert(pviews.subrange(0, i + 1).last() == self.params@[i as int]@);
            }
            out.append("(param $");
            out.append(self.params[i].as_str());
            out.append(" i32) ");
            proof {
                assert(out@ =~= "(func "@ + "$"@ + self.name@ + " "@ + wat_of_params(
                    pviews.subrange(0, i + 1),
                ));
            }
            i += 1;
        }
        proof {
            assert(pviews.subrange(0, self.params@.len() as int) =~= pviews);
        }
        out.append("\n");

        if self.return_type.is_some() {
            out.append("(result i32)\n");
        }

        let ghost lviews = string_views(self.locals@);
        let ghost prefix = out@;
        proof {
            assert(out@ =~= prefix + wat_of_locals(lviews.subrange(0, 0)));
        }
        let mut j: usize = 0;
        while j < self.locals.len()
            invariant
                j <= self.locals.len(),
                lviews == string_views(self.locals@),
                out@ == prefix + wat_of_locals(lviews.subrange(0, j as int)),
            decreases self.locals.len() - j,
        {
            proof {
                assert(wat_of_locals(lviews.subrange(0, j as int)) == wat_of_locals(
                    lviews.subrange(0, j + 1).drop_last(),
                )) by {
                    assert(lviews.subrange(0, j + 1).drop_last() =~= lviews.subrange(0, j as int));
                };
                assert(lviews.subrange(0, j + 1).last() == self.locals@[j as int]@);
            }
            out.append("(local $");
            out.append(self.locals[j].as_str());
            out.append(" i32)\n");
            proof {
                assert(out@ =~= prefix + wat_of_locals(lviews.subrange(0, j + 1)));
            }
            j += 1;
        }
        proof {
            assert(lviews.subrange(0, self.locals@.len() as int) =~= lviews);
        }

        let ghost sviews = statement_views(self.statements@);
        let ghost prefix2 = out@;
        proof {
            assert(out@ =~= prefix2 + wat_of_statements(sviews.subrange(0, 0)));
        }
        let mut statements = self.statements;
        let mut k: usize = 0;
        while k < statements.len()
            invariant
                k <= statements.len(),
                sviews == statement_views(statements@),
                out@ == prefix2 + wat_of_statements(sviews.subrange(0, k as int)),
            decreases statements.len() - k,
        {
            proof {
                assert(wat_of_statements(sviews.subrange(0, k as int)) == wat_of_statements(
                    sviews.subrange(0, k + 1).drop_last(),
                )) by {
                    assert(sviews.subrange(0, k + 1).drop_last() =~= sviews.subrange(0, k as int));
                };
                assert(sviews.subrange(0, k + 1).last() == statements@[k as int]@);
            }
            let s = statements[k].dup();
            let text = s.to_wat();
            out.append(text.as_str());
            proof {
                assert(out@ =~= prefix2 + wat_of_statements(sviews.subrange(0, k + 1)));
            }
            k += 1;
        }
        proof {
            assert(sviews.subrange(0, statements@.len() as int) =~= sviews);
        }

        out.append(")\n");
        proof {
            assert(fv.params == pviews);
            assert(fv.locals == lviews);
            assert(fv.statements == sviews);
            let hdr = "(func "@ + "$"@ + fv.name + " "@ + wat_of_params(fv.params) + "\n"@;
            if fv.return_type is Some {
                assert(out@ == hdr + "(result i32)\n"@ + wat_of_locals(fv.locals)
                    + wat_of_statements(fv.statements) + ")\n"@);
            } else {
                assert(hdr + Seq::<char>::empty() =~= hdr);
                assert(out@ == hdr + wat_of_locals(fv.locals) + wat_of_statements(fv.statements)
                    + ")\n"@);
            }
            assert(out@ == wat_of_function(fv));
        }
        out
    }
}

impl Statement {
    /// A copy of this statement with the same value.
    fn dup(&self) -> (r: Statement)
        ensures
            r@ == self@,
            r == *self,
    {
        match self {
            Statement::Const(c) => Statement::Const(*c),
            Statement::Call(f) => Statement::Call(f.clone()),
            Statement::Raw(s) => Statement::Raw(s.clone()),
        }
    }
}

impl Module {
    pub fn new() -> (m: Module)
        ensures
            m@.globals == Seq::<GlobalV>::empty(),
            m@.data == Seq::<Seq<char>>::empty(),
            m@.functions == Seq::<FunctionV>::empty(),
    {
        let m = Module { globals: Vec::new(), data: Vec::new(), functions: Vec::new() };
        proof {
            assert(m@.globals =~= Seq::<GlobalV>::empty());
            assert(m@.data =~= Seq::<Seq<char>>::empty());
            assert(m@.functions =~= Seq::<FunctionV>::empty());
        }
        m
    }

    pub fn add_global(&mut self, global: Global)
        ensures
            final(self)@ == (ModuleV { globals: old(self)@.globals.push(global@), ..old(self)@ }),
    {
        let ghost old_globals = self.globals@;
        self.globals.push(global);
        proof {
            assert(global_views(self.globals@) =~= global_views(old_globals).push(global@));
            assert(string_views(self.data@) == old(self)@.data);
            assert(function_views(self.functions@) == old(self)@.functions);
        }
    }

    pub fn add_data(&mut self, datum: String)
        ensures
            final(self)@ == (ModuleV { data: old(self)@.data.push(datum@), ..old(self)@ }),
    {
        let ghost old_data = self.data@;
        self.data.push(datum);
        proof {
            assert(string_views(self.data@) =~= string_views(old_data).push(datum@));
        }
    }

    pub fn add_function(&mut self, fun: Function)
        ensures
            final(self)@ == (ModuleV { functions: old(self)@.functions.push(fun@), ..old(self)@ }),
    {
        let ghost old_functions = self.functions@;
        self.functions.push(fun);
        proof {
            assert(function_views(self.functions@) =~= function_views(old_functions).push(fun@));
        }
    }

    /// The complete module text.
    pub fn to_wat(self) -> (r: String)
        ensures
            r@ == wat_of_module(self@),
    {
        let ghost m = self@;
        let mut out = String::from_str("(module\n");

        // The one required import: the host's numeric log function.
        out.append("(import \"env\" \"log\" (func $log (param i32)))\n");

        // Memory.
        out.append("(memory $mem 1)\n");

        let ghost gviews = global_views(self.globals@);
        let ghost prefix_g = out@;
        proof {
            assert(out@ =~= prefix_g + wat_of_globals(gviews.subrange(0, 0)));
        }
        let mut globals = self.globals;
        let mut i: usize = 0;
        while i < globals.len()
            invariant
                i <= globals.len(),
                gviews == global_views(globals@),
                out@ == prefix_g + wat_of_globals(gviews.subrange(0, i as int)),
            decreases globals.len() - i,
        {
            proof {
                assert(wat_of_globals(gviews.subrange(0, i as int)) == wat_of_globals(
                    gviews.subrange(0, i + 1).drop_last(),
                )) by {
                    assert(gviews.subrange(0, i + 1).drop_last() =~= gviews.subrange(0, i as int));
                };
                assert(gviews.subrange(0, i + 1).last() == globals@[i as int]@);
            }
            let g = &globals[i];
            let text = Global {
                name: g.name.clone(),
                mutable: g.mutable,
                value_type: g.value_type,
            }.to_wat();
            out.append(text.as_str());
            proof {
                assert(out@ =~= prefix_g + wat_of_globals(gviews.subrange(0, i + 1)));
            }
            i += 1;
        }
        proof {
            assert(gviews.subrange(0, globals@.len() as int) =~= gviews);
        }

        let ghost dviews = string_views(self.data@);
        let ghost prefix_d = out@;
        proof {
            assert(out@ =~= prefix_d + wat_of_data(dviews.subrange(0, 0)));
        }
        let mut j: usize = 0;
        while j < self.data.len()
            invariant
                j <= self.data.len(),
                dviews == string_views(self.data@),
                out@ == prefix_d + wat_of_data(dviews.subrange(0, j as int)),
            decreases self.data.len() - j,
        {
            proof {
                assert(wat_of_data(dviews.subrange(0, j as int)) == wat_of_data(dviews.subrange(
                    0,
                    j + 1,
                ).drop_last())) by {
                    assert(dviews.subrange(0, j + 1).drop_last() =~= dviews.subrange(0, j as int));
                };
                assert(dviews.subrange(0, j + 1).last() == self.data@[j as int]@);
            }
            out.append("(data (i32.const 0) \"");
            out.append(self.data[j].as_str());
            out.append("\")\n");
            proof {
                assert(out@ =~= prefix_d + wat_of_data(dviews.subrange(0, j + 1)));
            }
            j += 1;
        }
        proof {
            assert(dviews.subrange(0, self.data@.len() as int) =~= dviews);
        }

        let ghost fviews = function_views(self.functions@);
        let ghost prefix_f = out@;
        let mut functions = self.functions;
        proof {
            assert(out@ =~= prefix_f + wat_of_functions(fviews.subrange(0, 0)));
            assert(function_views(functions@) =~= fviews.subrange(0, fviews.len() as int));
        }
        let ghost mut k: int = 0int;
        while functions.len() > 0
            invariant
                0 <= k <= fviews.len(),
                function_views(functions@) =~= fviews.subrange(k, fviews.len() as int),
                out@ == prefix_f + wat_of_functions(fviews.subrange(0, k)),
            decreases functions.len(),
        {
            let ghost before_vec = functions@;
            proof {
                assert(fviews.subrange(k, fviews.len() as int).len() == functions@.len());
            }
            let f = functions.remove(0);
            proof {
                assert(f == before_vec[0]);
                assert(function_views(before_vec)[0] == f@);
                assert(f@ == fviews.subrange(k, fviews.len() as int)[0]);
                assert(f@ == fviews[k]);
                assert(functions@ =~= before_vec.drop_first());
                assert forall|x: int| 0 <= x < functions@.len() implies #[trigger] function_views(
                    functions@,
                )[x] == fviews.subrange(k + 1, fviews.len() as int)[x] by {
                    assert(function_views(before_vec)[x + 1] == fviews.subrange(
                        k,
                        fviews.len() as int,
                    )[x + 1]);
                }
                assert(function_views(functions@) =~= fviews.subrange(k + 1, fviews.len() as int));
                assert(wat_of_functions(fviews.subrange(0, k)) == wat_of_functions(
                    fviews.subrange(0, k + 1).drop_last(),
                )) by {
                    assert(fviews.subrange(0, k + 1).drop_last() =~= fviews.subrange(0, k));
                };
                assert(fviews.subrange(0, k + 1).last() == fviews[k]);
            }
            let text = f.to_wat();
            out.append(text.as_str());
            proof {
                assert(out@ =~= prefix_f + wat_of_functions(fviews.subrange(0, k + 1)));
                k = k + 1;
            }
        }
        proof {
            assert(fviews.subrange(0, k) =~= fviews);
        }

        // Export the entry function and the memory.
        out.append("(export \"main\" (func $main))\n");
        out.append("(export \"memory\" (memory $mem))\n");
        out.append(")");
        proof {
            assert(out@ =~= wat_of_module(m));
        }
        out
    }
}

} // verus!
