use teal::codegen::watwriter::{Function, FunctionType, Global, Module, Statement, ValueType};
use teal::codegen::{generate_assembly, GenError};
use teal::syntax::ast::Expr;
use teal::syntax::{lex, parse};

fn compile(source: &str) -> Result<String, GenError> {
    generate_assembly(parse(lex(source).unwrap()).unwrap())
}

const MODULE_HEADER: &str =
    "(module\n(import \"env\" \"log\" (func $log (param i32)))\n(memory $mem 1)\n";

const MODULE_FOOTER: &str = "(export \"main\" (func $main))\n(export \"memory\" (memory $mem))\n)";

#[test]
fn module_to_wat() {
    let m = Module::new();
    assert_eq!(m.to_wat(), format!("{}{}", MODULE_HEADER, MODULE_FOOTER));
}

#[test]
fn global_to_wat() {
    let g = Global {
        name: "x".to_string(),
        mutable: true,
        value_type: ValueType::I32,
    };
    assert_eq!(g.to_wat(), "(global $x (mut i32) (i32.const 0))\n");
}

#[test]
fn function_to_wat() {
    let mut f = Function::new(
        "sum".to_string(),
        vec!["a".to_string(), "b".to_string()],
        Some(ValueType::I32),
        vec![],
        FunctionType::Function,
    );
    f.add_local("t".to_string());
    f.add_statement(Statement::Raw("local.get $a".to_string()));
    f.add_statement(Statement::Const(-5));
    f.add_statement(Statement::Call("log".to_string()));
    assert_eq!(
        f.to_wat(),
        "(func $sum (param $a i32) (param $b i32) \n(result i32)\n(local $t i32)\nlocal.get $a\ni32.const -5\ncall $log\n)\n"
    );
}

#[test]
fn global_let_and_arithmetic() {
    // Source `let x = 10; x * x + 2;`: one global `x`; the entry function
    // pushes 10, stores the global, then computes `x*x+2` through two
    // global loads, a multiply, a push of 2, and an add.
    let wat = compile("let x = 10; x * x + 2;").unwrap();
    let expect = format!(
        "{}{}{}{}",
        MODULE_HEADER,
        "(global $x (mut i32) (i32.const 0))\n",
        "(func $main \ni32.const 10\nglobal.set $x\nglobal.get $x\nglobal.get $x\ni32.mul\ni32.const 2\ni32.add\n)\n",
        MODULE_FOOTER
    );
    assert_eq!(wat, expect);
}

#[test]
fn function_definition_and_call() {
    // Source `fun sum(a, b) { a + b; } sum(4, 5) + 2;`: one function
    // `sum` with two parameters and no locals loading both parameters and
    // adding; the top level pushes 4 and 5, calls `sum`, pushes 2, adds.
    let wat = compile("fun sum(a, b) { a + b; } sum(4, 5) + 2;").unwrap();
    let expect = format!(
        "{}{}{}{}",
        MODULE_HEADER,
        "(func $sum (param $a i32) (param $b i32) \n(result i32)\nlocal.get $a\nlocal.get $b\ni32.add\n)\n",
        "(func $main \ni32.const 4\ni32.const 5\ncall $sum\ni32.const 2\ni32.add\n)\n",
        MODULE_FOOTER
    );
    assert_eq!(wat, expect);
}

#[test]
fn if_else_structure() {
    let wat = compile("if 2 == 2 { print 1; } else { print 0; }").unwrap();
    let expect = format!(
        "{}{}{}",
        MODULE_HEADER,
        "(func $main \ni32.const 2\ni32.const 2\ni32.eq\n(if (then\ni32.const 1\ncall $log\n) (else\ni32.const 0\ncall $log\n))\n)\n",
        MODULE_FOOTER
    );
    assert_eq!(wat, expect);
}

#[test]
fn function_local_let_resolves_locally() {
    // An identifier declared by `let` inside a function body resolves to
    // a local store and load, and registers no module global.
    let wat = compile("fun f() { let y = 1; y; } f();").unwrap();
    assert!(wat.contains("(local $y i32)\n"));
    assert!(wat.contains("local.set $y\n"));
    assert!(wat.contains("local.get $y\n"));
    assert!(!wat.contains("global"));
}

#[test]
fn generation_is_deterministic() {
    // Generating twice from the same tree gives byte-identical text.
    let ast1 = parse(lex("let x = 10; x * x + 2;").unwrap()).unwrap();
    let ast2 = parse(lex("let x = 10; x * x + 2;").unwrap()).unwrap();
    let out1 = generate_assembly(ast1).unwrap();
    let out2 = generate_assembly(ast2).unwrap();
    assert_eq!(out1, out2);
}

#[test]
fn undeclared_identifier_fails_generation() {
    // Source referencing an undeclared identifier fails at generation
    // time, never silently treating it as zero.
    assert_eq!(compile("y + 1;"), Err(GenError::UndeclaredIdentifier));
}

#[test]
fn undeclared_store_fails_generation() {
    assert_eq!(compile("y = 1;"), Err(GenError::UndeclaredIdentifier));
}

#[test]
fn undefined_function_fails_generation() {
    assert_eq!(compile("g(1);"), Err(GenError::UndefinedFunction));
}

#[test]
fn unsupported_callee_fails_generation() {
    // A callee that is not a plain identifier reference is unsupported.
    let program = vec![Expr::call(Expr::number(1), vec![])];
    assert_eq!(generate_assembly(program), Err(GenError::UnsupportedCallee));
}

#[test]
fn string_literal_emits_placeholder() {
    let wat = compile("print \"hi\";").unwrap();
    assert!(wat.contains("i32.const 0\ncall $log\n"));
}

#[test]
fn boolean_literals_emit_constants() {
    let wat = compile("print true != false;").unwrap();
    assert!(wat.contains("i32.const 1\ni32.const 0\ni32.ne\ncall $log\n"));
}
