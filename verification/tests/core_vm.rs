use nulang::bytecode::{
    CodeModule, Constant, HandlerBinding, HandlerTable, Instruction, NbcReader, OpCode,
};
use nulang::core_vm::{CoreVM, RunOutcome};
use nulang::value_layout;

// ---------------------------------------------------------------------------
// A small expression compiler, so that programs can be written as text
// ---------------------------------------------------------------------------

#[derive(Debug, Clone)]
enum Expr {
    Int(i64),
    Bool(bool),
    Text(String),
    Name(String),
    Unary(OpCode, Box<Expr>),
    Binary(OpCode, Box<Expr>, Box<Expr>),
    If(Box<Expr>, Box<Expr>, Box<Expr>),
    Let(bool, String, Box<Expr>, Box<Expr>),
    Lambda(Vec<String>, Box<Expr>),
    Apply(Box<Expr>, Vec<Expr>),
}

fn tokens(source: &str) -> Vec<String> {
    let chars: Vec<char> = source.chars().collect();
    let mut out = Vec::new();
    let mut i = 0;
    while i < chars.len() {
        let c = chars[i];
        if c.is_whitespace() {
            i += 1;
        } else if c.is_alphanumeric() || c == '_' {
            let start = i;
            while i < chars.len() && (chars[i].is_alphanumeric() || chars[i] == '_') {
                i += 1;
            }
            out.push(chars[start..i].iter().collect());
        } else if c == '"' {
            let start = i;
            i += 1;
            while chars[i] != '"' {
                i += 1;
            }
            i += 1;
            out.push(chars[start..i].iter().collect());
        } else if i + 1 < chars.len() && chars[i + 1] == '=' && "<>=".contains(c) {
            out.push(format!("{c}="));
            i += 2;
        } else {
            out.push(c.to_string());
            i += 1;
        }
    }
    out
}

struct Parser {
    tokens: Vec<String>,
    at: usize,
}

impl Parser {
    fn peek(&self) -> &str {
        self.tokens.get(self.at).map_or("", |t| t.as_str())
    }

    fn take(&mut self) -> String {
        self.at += 1;
        self.tokens[self.at - 1].clone()
    }

    fn accept(&mut self, token: &str) -> bool {
        let found = self.peek() == token;
        if found {
            self.at += 1;
        }
        found
    }

    fn expect(&mut self, token: &str) {
        assert!(self.accept(token), "expected {token}, found {}", self.peek());
    }

    fn expr(&mut self) -> Expr {
        if self.accept("let") {
            let rec = self.accept("rec");
            let name = self.take();
            self.expect("=");
            let value = self.expr();
            self.expect("in");
            Expr::Let(rec, name, Box::new(value), Box::new(self.expr()))
        } else if self.accept("if") {
            let cond = self.expr();
            self.expect("then");
            let yes = self.expr();
            self.expect("else");
            Expr::If(Box::new(cond), Box::new(yes), Box::new(self.expr()))
        } else if self.accept("fn") {
            self.expect("(");
            let mut params = Vec::new();
            while !self.accept(")") {
                params.push(self.take());
                self.accept(",");
            }
            Expr::Lambda(params, Box::new(self.expr()))
        } else {
            self.level(0)
        }
    }

    /// Binary operators by falling looseness.
    fn level(&mut self, level: usize) -> Expr {
        let table: [&[(&str, OpCode)]; 5] = [
            &[("or", OpCode::Or)],
            &[("and", OpCode::And)],
            &[
                ("==", OpCode::ICmpEq),
                ("<=", OpCode::ICmpLe),
                (">=", OpCode::ICmpGe),
                ("<", OpCode::ICmpLt),
                (">", OpCode::ICmpGt),
            ],
            &[("+", OpCode::IAdd), ("-", OpCode::ISub)],
            &[("*", OpCode::IMul), ("/", OpCode::IDiv), ("%", OpCode::IMod)],
        ];
        if level == table.len() {
            return self.unary();
        }
        let mut left = self.level(level + 1);
        while let Some((_, op)) = table[level].iter().find(|(t, _)| *t == self.peek()) {
            self.at += 1;
            let right = self.level(level + 1);
            left = Expr::Binary(*op, Box::new(left), Box::new(right));
        }
        left
    }

    fn unary(&mut self) -> Expr {
        if self.accept("-") {
            Expr::Unary(OpCode::INeg, Box::new(self.unary()))
        } else if self.accept("not") {
            Expr::Unary(OpCode::Not, Box::new(self.unary()))
        } else {
            let mut head = self.atom();
            while self.accept("(") {
                let mut args = Vec::new();
                while !self.accept(")") {
                    args.push(self.expr());
                    self.accept(",");
                }
                head = Expr::Apply(Box::new(head), args);
            }
            head
        }
    }

    fn atom(&mut self) -> Expr {
        if self.accept("(") {
            let inner = self.expr();
            self.expect(")");
            return inner;
        }
        let token = self.take();
        if token == "true" || token == "false" {
            Expr::Bool(token == "true")
        } else if let Ok(n) = token.parse::<i64>() {
            Expr::Int(n)
        } else if token.starts_with('"') {
            Expr::Text(token.trim_matches('"').to_string())
        } else {
            Expr::Name(token)
        }
    }
}

/// First register for values; the ones below carry call arguments.
const FIRST: u8 = 16;

struct Body {
    code: Vec<Instruction>,
    scope: Vec<(String, u8)>,
    next: u8,
}

impl Body {
    fn fresh(&mut self) -> u8 {
        self.next += 1;
        self.next - 1
    }
}

struct Compiler {
    constants: Vec<Constant>,
    functions: Vec<Vec<Instruction>>,
}

impl Compiler {
    fn constant(&mut self, body: &mut Body, constant: Constant) -> u8 {
        let dst = body.fresh();
        let idx = self.constants.len();
        self.constants.push(constant);
        body.code.push(Instruction::new3(
            OpCode::ConstU,
            (idx >> 8) as u8,
            (idx & 0xff) as u8,
            dst,
        ));
        dst
    }

    fn is_text(expr: &Expr) -> bool {
        match expr {
            Expr::Text(_) => true,
            Expr::Binary(OpCode::IAdd, a, _) => Self::is_text(a),
            _ => false,
        }
    }

    /// The register that holds the value of an expression.
    fn value(&mut self, body: &mut Body, expr: &Expr, own_name: Option<&str>) -> u8 {
        match expr {
            Expr::Int(n) => self.constant(body, Constant::Int(*n)),
            Expr::Bool(b) => self.constant(body, Constant::Bool(*b)),
            Expr::Text(t) => self.constant(body, Constant::String(t.clone())),
            Expr::Name(name) => {
                let found = body.scope.iter().rev().find(|(n, _)| n == name);
                found.unwrap_or_else(|| panic!("unbound {name}")).1
            }
            Expr::Unary(op, a) => {
                let a = self.value(body, a, None);
                let dst = body.fresh();
                body.code.push(Instruction::new2(*op, a, dst));
                dst
            }
            Expr::Binary(op, a, b) => {
                let op = if Self::is_text(expr) { OpCode::SConcat } else { *op };
                let a = self.value(body, a, None);
                let b = self.value(body, b, None);
                let dst = body.fresh();
                body.code.push(Instruction::new3(op, a, b, dst));
                dst
            }
            Expr::If(cond, yes, no) => {
                let cond = self.value(body, cond, None);
                let dst = body.fresh();
                let test = body.code.len();
                body.code.push(Instruction::new0(OpCode::Nop));
                let yes = self.value(body, yes, None);
                body.code.push(Instruction::new2(OpCode::Move, yes, dst));
                let skip = body.code.len();
                body.code.push(Instruction::new0(OpCode::Nop));
                let to_no = (body.code.len() - test) as u16;
                body.code[test] = Instruction::new3(
                    OpCode::JmpF,
                    cond,
                    (to_no >> 8) as u8,
                    (to_no & 0xff) as u8,
                );
                let no = self.value(body, no, None);
                body.code.push(Instruction::new2(OpCode::Move, no, dst));
                let to_end = (body.code.len() - skip) as u16;
                body.code[skip] =
                    Instruction::new2(OpCode::Jmp, (to_end >> 8) as u8, (to_end & 0xff) as u8);
                dst
            }
            Expr::Let(rec, name, bound, rest) => {
                let own = if *rec { Some(name.as_str()) } else { None };
                let reg = self.value(body, bound, own);
                body.scope.push((name.clone(), reg));
                let result = self.value(body, rest, None);
                body.scope.pop();
                result
            }
            Expr::Lambda(params, inner) => {
                let mut function = Body {
                    code: Vec::new(),
                    scope: Vec::new(),
                    next: FIRST,
                };
                for (slot, (name, _)) in body.scope.iter().enumerate() {
                    let reg = function.fresh();
                    function.code.push(Instruction::new2(OpCode::CapLoad, slot as u8, reg));
                    function.scope.push((name.clone(), reg));
                }
                if let Some(own) = own_name {
                    let reg = function.fresh();
                    let slot = body.scope.len() as u8;
                    function.code.push(Instruction::new2(OpCode::CapLoad, slot, reg));
                    function.scope.push((own.to_string(), reg));
                }
                for (i, param) in params.iter().enumerate() {
                    let reg = function.fresh();
                    function.code.push(Instruction::new2(OpCode::Move, i as u8, reg));
                    function.scope.push((param.clone(), reg));
                }
                let result = self.value(&mut function, inner, None);
                function.code.push(Instruction::new1(OpCode::RetVal, result));
                let idx = self.functions.len();
                self.functions.push(function.code);
                let dst = body.fresh();
                body.code.push(Instruction::new3(
                    OpCode::Closure,
                    (idx >> 8) as u8,
                    (idx & 0xff) as u8,
                    dst,
                ));
                for (slot, (_, reg)) in body.scope.iter().enumerate() {
                    body.code.push(Instruction::new3(OpCode::CapStore, dst, slot as u8, *reg));
                }
                if own_name.is_some() {
                    // The first store gives the closure its environment, the
                    // second one captures the closure with it.
                    let slot = body.scope.len() as u8;
                    body.code.push(Instruction::new3(OpCode::CapStore, dst, slot, dst));
                    body.code.push(Instruction::new3(OpCode::CapStore, dst, slot, dst));
                }
                dst
            }
            Expr::Apply(callee, args) => {
                let callee = self.value(body, callee, None);
                let regs: Vec<u8> = args.iter().map(|a| self.value(body, a, None)).collect();
                for (i, reg) in regs.iter().enumerate() {
                    body.code.push(Instruction::new2(OpCode::Move, *reg, i as u8));
                }
                let dst = body.fresh();
                body.code.push(Instruction::new3(
                    OpCode::ClosureCall,
                    callee,
                    args.len() as u8,
                    dst,
                ));
                dst
            }
        }
    }
}

fn compile(source: &str) -> CodeModule {
    let mut parser = Parser {
        tokens: tokens(source),
        at: 0,
    };
    let expr = parser.expr();
    assert_eq!(parser.peek(), "", "source: {source}");
    let mut compiler = Compiler {
        constants: Vec::new(),
        functions: Vec::new(),
    };
    let mut main = Body {
        code: Vec::new(),
        scope: Vec::new(),
        next: FIRST,
    };
    let result = compiler.value(&mut main, &expr, None);
    main.code.push(Instruction::new1(OpCode::RetVal, result));
    let mut module = CodeModule::new("test");
    for function in compiler.functions {
        module.function_table.push(module.instructions.len());
        module.instructions.extend(function);
    }
    module.entry_point = Some(module.instructions.len());
    module.instructions.extend(main.code);
    module.constants = compiler.constants;
    module
}

// ---------------------------------------------------------------------------
// Running
// ---------------------------------------------------------------------------

fn run_core_vm(source: &str) -> Result<(CoreVM, u64), String> {
    let module = compile(source);
    let entry = module.entry_point.unwrap_or(0);
    let mut vm = CoreVM::new();
    let idx = vm.load_module_from_code(module);
    match vm.run(idx, entry, 1_000_000)? {
        RunOutcome::Done(value) => Ok((vm, value)),
        other => Err(format!("{other:?}")),
    }
}

fn run_core(source: &str) -> Result<u64, String> {
    run_core_vm(source).map(|(_vm, v)| v)
}

fn assert_int(source: &str, expected: i64) {
    let v = run_core(source).unwrap_or_else(|e| panic!("{source}: {e}"));
    assert_eq!(value_layout::as_int_raw(v), expected, "source: {source}");
}

#[test]
fn test_core_arith() {
    assert_int("1 + 2 * 3", 7);
    assert_int("(1 + 2) * 3", 9);
    assert_int("10 - 3", 7);
    assert_int("10 / 3", 3);
    assert_int("10 % 3", 1);
    assert_int("-5", -5);
}

#[test]
fn test_core_control_flow() {
    assert_int("if 3 > 2 then 100 else 200", 100);
    assert_int("if 1 < 2 then 100 else 200", 100);
    assert_int("let x = 5 in x * 2", 10);
    assert_int("let x = 5 in let y = 10 in x + y", 15);
    assert_int("let x = 5 in let y = x + 1 in let z = y * 2 in z", 12);
}

#[test]
fn test_core_bool() {
    for (src, exp) in [
        ("7 > 3", true),
        ("7 <= 7", true),
        ("1 == 2", false),
        ("not false", true),
        ("not true", false),
        ("true and false", false),
        ("true or false", true),
    ] {
        let v = run_core(src).unwrap_or_else(|e| panic!("{src}: {e}"));
        assert_eq!(value_layout::tag_bool(exp), v, "source: {src}");
    }
}

#[test]
fn test_core_recursion() {
    assert_int(
        "let rec fact = fn(n) if n <= 1 then 1 else n * fact(n - 1) in fact(5)",
        120,
    );
    assert_int(
        "let rec fib = fn(n) if n < 2 then n else fib(n - 1) + fib(n - 2) in fib(10)",
        55,
    );
    assert_int(
        "let rec count = fn(n) if n == 0 then 0 else count(n - 1) + 1 in count(5)",
        5,
    );
}

#[test]
fn test_core_closures() {
    assert_int("(fn(x) x + 1)(41)", 42);
    assert_int("let f = fn(x) x * x in f(6)", 36);
    assert_int("let add = fn(x) fn(y) x + y in add(3)(4)", 7);
    assert_int("let x = 10 in let f = fn(y) x + y in f(5)", 15);
    assert_int(
        "let x = 10 in let f = fn(y) x + y in let g = fn(y) x * y in f(1) + g(2)",
        31,
    );
    assert_int(
        "let sum = fn(n) let rec loop = fn(i, acc) if i > n then acc else loop(i + 1, acc + i) in loop(0, 0) in sum(100)",
        5050,
    );
}

#[test]
fn test_core_string_effects() {
    let (vm, v) = run_core_vm("\"hello\" + \" world\"").unwrap();
    assert_eq!(vm.resolve_display_string(v).as_deref(), Some("hello world"));
}

// ---------------------------------------------------------------------------
// Machine rules
// ---------------------------------------------------------------------------

/// Reads an artifact that is the source text of a module.
struct SourceReader;

impl NbcReader for SourceReader {
    fn decode(&self, bytes: &[u8]) -> Result<CodeModule, String> {
        let text = String::from_utf8(bytes.to_vec()).map_err(|e| e.to_string())?;
        match text.strip_prefix("NBC ") {
            Some(source) => Ok(compile(source)),
            None => Err("bad magic".to_string()),
        }
    }
}

#[test]
fn test_core_nbc_roundtrip() {
    let (_vm, v) = run_core_vm("1 + 2 * 3").unwrap();
    assert_eq!(value_layout::as_int_raw(v), 7);

    let mut vm2 = CoreVM::new();
    let idx = vm2.load_nbc(b"NBC 1 + 2 * 3", &SourceReader).unwrap();
    let entry = vm2.modules[idx].entry_point.unwrap_or(0);
    match vm2.run(idx, entry, 1_000_000).unwrap() {
        RunOutcome::Done(v2) => assert_eq!(value_layout::as_int_raw(v2), 7),
        other => panic!("unexpected outcome {other:?}"),
    }
}

#[test]
fn an_artifact_that_does_not_decode_is_not_loaded() {
    let mut vm = CoreVM::new();
    assert_eq!(
        vm.load_nbc(b"ELF", &SourceReader),
        Err("Failed to load .nbc: bad magic".to_string())
    );
    assert!(vm.modules.is_empty());
}

/// A module that is only a list of instructions.
fn flat(instructions: Vec<Instruction>, constants: Vec<Constant>) -> CodeModule {
    let mut module = CodeModule::new("flat");
    module.instructions = instructions;
    module.constants = constants;
    module
}

fn text(s: &str) -> Constant {
    Constant::String(s.to_string())
}

#[test]
fn integer_values_keep_forty_eight_bits() {
    for n in [0, 1, -1, 140_737_488_355_327, -140_737_488_355_328] {
        assert_eq!(value_layout::as_int_raw(value_layout::tag_int(n)), n);
    }
    assert_eq!(value_layout::as_int_raw(value_layout::tag_int(140_737_488_355_328)),
        -140_737_488_355_328);
    assert!(value_layout::is_int_raw(value_layout::tag_int(-7)));
    assert!(!value_layout::is_int_raw(value_layout::tag_bool(true)));
}

#[test]
fn division_by_zero_gives_nil() {
    assert_eq!(run_core("1 / 0").unwrap(), value_layout::TAG_NIL);
    assert_eq!(run_core("1 % 0").unwrap(), value_layout::TAG_NIL);
}

#[test]
fn interrupted_run_continues_to_the_same_result() {
    let source = "let rec fact = fn(n) if n <= 1 then 1 else n * fact(n - 1) in fact(5)";
    let module = compile(source);
    let entry = module.entry_point.unwrap_or(0);
    let mut vm = CoreVM::new();
    let idx = vm.load_module_from_code(module);
    let mut outcome = vm.run(idx, entry, 3).unwrap();
    let mut rounds = 0;
    while outcome == RunOutcome::OutOfFuel {
        outcome = vm.resume_run(3).unwrap();
        rounds += 1;
    }
    assert!(rounds > 1);
    assert_eq!(outcome, RunOutcome::Done(value_layout::tag_int(120)));
    assert!(vm.halted);
    assert_eq!(vm.exit_code, 120);
}

#[test]
fn printed_values_are_kept_in_order() {
    let perform = |idx: u8| Instruction::new3(OpCode::Perform, 0, idx, 5);
    let load = |idx: u8| Instruction::new3(OpCode::ConstU, 0, idx, 0);
    let module = flat(
        vec![
            load(1),
            perform(0),
            load(2),
            perform(0),
            load(3),
            perform(0),
            load(4),
            perform(0),
            Instruction::new0(OpCode::Halt),
        ],
        vec![
            text("IO.print"),
            Constant::Int(-12),
            Constant::Bool(true),
            Constant::Nil,
            text("hi"),
        ],
    );
    let mut vm = CoreVM::new();
    let idx = vm.load_module_from_code(module);
    assert!(matches!(vm.run(idx, 0, 100), Ok(RunOutcome::Done(_))));
    assert_eq!(vm.output, vec!["-12", "true", "nil", "hi"]);
}

#[test]
fn reading_waits_for_a_line() {
    let module = flat(
        vec![
            Instruction::new3(OpCode::Perform, 0, 0, 7),
            Instruction::new1(OpCode::RetVal, 7),
        ],
        vec![text("IO.read")],
    );
    let mut vm = CoreVM::new();
    let idx = vm.load_module_from_code(module);
    assert_eq!(vm.run(idx, 0, 100).unwrap(), RunOutcome::NeedLine { dst: 7 });
    vm.provide_line(7, "typed\r\n");
    match vm.resume_run(100).unwrap() {
        RunOutcome::Done(v) => {
            assert_eq!(vm.resolve_display_string(v).as_deref(), Some("typed"));
        }
        other => panic!("unexpected outcome {other:?}"),
    }
}

#[test]
fn text_operations_compute_on_characters() {
    let module = flat(
        vec![
            Instruction::new3(OpCode::ConstU, 0, 1, 0),
            Instruction::new3(OpCode::Perform, 0, 0, 9),
            Instruction::new1(OpCode::RetVal, 9),
        ],
        vec![text("String.length"), text("h\u{e9}llo")],
    );
    let mut vm = CoreVM::new();
    let idx = vm.load_module_from_code(module);
    assert_eq!(vm.run(idx, 0, 100).unwrap(), RunOutcome::Done(value_layout::tag_int(6)));

    let module = flat(
        vec![
            Instruction::new3(OpCode::ConstU, 0, 1, 0),
            Instruction::new3(OpCode::Perform, 0, 0, 9),
            Instruction::new1(OpCode::RetVal, 9),
        ],
        vec![text("Int.to_string"), Constant::Int(-305)],
    );
    let idx = vm.load_module_from_code(module);
    match vm.run(idx, 0, 100).unwrap() {
        RunOutcome::Done(v) => {
            assert_eq!(vm.resolve_display_string(v).as_deref(), Some("-305"));
        }
        other => panic!("unexpected outcome {other:?}"),
    }
}

#[test]
fn direct_effects_are_named_by_their_handler_table() {
    let mut module = flat(
        vec![
            Instruction::new2(OpCode::Handle, 0, 8),
            Instruction::new3(OpCode::ConstU, 0, 0, 0),
            Instruction::new3(OpCode::PerformDirect, 0, 0, 8),
            Instruction::new1(OpCode::RetVal, 8),
        ],
        vec![Constant::Int(65)],
    );
    module.handler_tables.push(HandlerTable {
        bindings: vec![HandlerBinding {
            effect_name: "String.from_char".to_string(),
            handler_offset: 0,
            arg_count: 1,
            result_reg: 0,
            single_shot: true,
        }],
        fallback_offset: None,
    });
    let mut vm = CoreVM::new();
    let idx = vm.load_module_from_code(module);
    match vm.run(idx, 0, 100) {
        Ok(RunOutcome::Done(v)) => {
            assert_eq!(vm.resolve_display_string(v).as_deref(), Some("A"));
        }
        other => panic!("unexpected outcome {other:?}"),
    }
}

#[test]
fn unhandled_effects_and_missing_functions_are_errors() {
    let module = flat(
        vec![Instruction::new3(OpCode::Perform, 0, 0, 1)],
        vec![text("Nowhere.op")],
    );
    let mut vm = CoreVM::new();
    let idx = vm.load_module_from_code(module);
    assert!(vm.run(idx, 0, 100).is_err());

    let module = flat(
        vec![
            Instruction::new3(OpCode::Closure, 0, 9, 1),
            Instruction::new3(OpCode::ClosureCall, 1, 0, 2),
        ],
        Vec::new(),
    );
    let mut vm = CoreVM::new();
    let idx = vm.load_module_from_code(module);
    assert!(vm.run(idx, 0, 100).is_err());

    let module = flat(vec![Instruction::new1(OpCode::Resume, 1)], Vec::new());
    let mut vm = CoreVM::new();
    let idx = vm.load_module_from_code(module);
    assert!(vm.run(idx, 0, 100).is_err());
}
