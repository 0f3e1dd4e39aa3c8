use nulang::difffuzz::{
    crasher, generate_program, is_overflow_semantics_divergence, run_campaign, strip_parens,
    Crasher, Oracle, Verdict, XorShift64,
};

/// The generator must be deterministic: same seed, same program.
#[test]
fn generator_is_deterministic() {
    for seed in [0u64, 1, 42, 0xDEAD_BEEF, u64::MAX] {
        assert_eq!(generate_program(seed), generate_program(seed));
    }
}

// ---------------------------------------------------------------------------
// A reader for the generated subset of the language: grammar, scopes, types
// ---------------------------------------------------------------------------

#[derive(Debug, Clone, PartialEq)]
enum Kind {
    Int,
    Float,
    Bool,
    Text,
    IntArray,
    Point,
    Unit,
    Function(Vec<usize>, usize),
}

type Check<T> = Result<T, String>;

struct Reader {
    tokens: Vec<String>,
    at: usize,
    /// Types by number; an unknown one may point to another.
    kinds: Vec<Option<Kind>>,
    links: Vec<usize>,
    scope: Vec<(String, usize)>,
}

impl Reader {
    fn new(source: &str) -> Check<Reader> {
        let chars: Vec<char> = source.chars().collect();
        let mut tokens = Vec::new();
        let mut i = 0;
        while i < chars.len() {
            let start = i;
            let c = chars[i];
            let pair: String = chars[i..chars.len().min(i + 2)].iter().collect();
            if c.is_whitespace() {
                i += 1;
                continue;
            } else if c == '"' {
                i += 1;
                while i < chars.len() && chars[i] != '"' {
                    i += 1;
                }
                i += 1;
            } else if c.is_ascii_digit() {
                while i < chars.len() && chars[i].is_ascii_digit() {
                    i += 1;
                }
                if i + 1 < chars.len() && chars[i] == '.' && chars[i + 1].is_ascii_digit() {
                    i += 1;
                    while i < chars.len() && chars[i].is_ascii_digit() {
                        i += 1;
                    }
                }
            } else if c.is_alphabetic() || c == '_' {
                while i < chars.len() && (chars[i].is_alphanumeric() || chars[i] == '_') {
                    i += 1;
                }
            } else if ["**", "==", "!=", "<=", ">=", "=>", "->", ".."].contains(&pair.as_str()) {
                i += 2;
            } else if "(){}[],.:+-*/%<>=|".contains(c) {
                i += 1;
            } else {
                return Err(format!("unexpected character {c:?}"));
            }
            tokens.push(chars[start..i.min(chars.len())].iter().collect());
        }
        Ok(Reader {
            tokens,
            at: 0,
            kinds: Vec::new(),
            links: Vec::new(),
            scope: Vec::new(),
        })
    }

    fn peek(&self) -> &str {
        self.tokens.get(self.at).map_or("", |t| t.as_str())
    }

    fn accept(&mut self, token: &str) -> bool {
        let found = self.peek() == token;
        if found {
            self.at += 1;
        }
        found
    }

    fn expect(&mut self, token: &str) -> Check<()> {
        if self.accept(token) {
            Ok(())
        } else {
            Err(format!("expected {token:?}, found {:?}", self.peek()))
        }
    }

    fn name(&mut self) -> Check<String> {
        let token = self.peek().to_string();
        if token.starts_with(|c: char| c.is_alphabetic() || c == '_') {
            self.at += 1;
            Ok(token)
        } else {
            Err(format!("expected a name, found {token:?}"))
        }
    }

    fn kind(&mut self, kind: Option<Kind>) -> usize {
        self.links.push(self.kinds.len());
        self.kinds.push(kind);
        self.kinds.len() - 1
    }

    fn root(&self, mut n: usize) -> usize {
        while self.links[n] != n {
            n = self.links[n];
        }
        n
    }

    fn known(&self, n: usize) -> Option<Kind> {
        self.kinds[self.root(n)].clone()
    }

    fn unify(&mut self, a: usize, b: usize) -> Check<()> {
        let (a, b) = (self.root(a), self.root(b));
        if a == b {
            return Ok(());
        }
        match (self.kinds[a].clone(), self.kinds[b].clone()) {
            (None, _) => self.links[a] = b,
            (_, None) => self.links[b] = a,
            (Some(x), Some(y)) => {
                if x != y {
                    return Err(format!("cannot unify {x:?} with {y:?}"));
                }
            }
        }
        Ok(())
    }

    fn want(&mut self, n: usize, kind: Kind) -> Check<()> {
        let k = self.kind(Some(kind));
        self.unify(n, k)
    }

    fn lookup(&self, name: &str) -> Check<usize> {
        let found = self.scope.iter().rev().find(|(n, _)| n == name);
        found.map(|(_, k)| *k).ok_or(format!("unbound {name}"))
    }

    fn bind(&mut self, name: String, kind: usize) {
        self.scope.push((name, kind));
    }

    fn program(&mut self) -> Check<()> {
        let mut last = self.kind(Some(Kind::Unit));
        while self.at < self.tokens.len() {
            last = self.statement()?;
        }
        match self.known(last) {
            Some(Kind::Int | Kind::Float | Kind::Bool | Kind::Text) | None => Ok(()),
            other => Err(format!("result of kind {other:?}")),
        }
    }

    fn statement(&mut self) -> Check<usize> {
        if self.accept("let") || self.accept("var") {
            let name = self.name()?;
            self.expect("=")?;
            let value = self.expr(0)?;
            self.bind(name, value);
        } else if self.accept("fn") {
            self.function()?;
        } else if self.accept("effect") {
            for token in ["Tick", "{", "next", ":", "Int", "->", "Int", "}"] {
                self.expect(token)?;
            }
        } else if self.accept("while") {
            let cond = self.expr(0)?;
            self.want(cond, Kind::Bool)?;
            self.block()?;
        } else if self.accept("for") {
            let name = self.name()?;
            self.expect("in")?;
            let array = self.expr(0)?;
            self.want(array, Kind::IntArray)?;
            let element = self.kind(Some(Kind::Int));
            self.bind(name, element);
            self.block()?;
        } else if self.accept("handle") {
            self.block()?;
            for token in ["{", "|", "Tick", ".", "next", "(", "x", ")", "resume", "=>"] {
                self.expect(token)?;
            }
            let mark = self.scope.len();
            let x = self.kind(Some(Kind::Int));
            self.bind("x".to_string(), x);
            let resume = self.kind(Some(Kind::Function(vec![x], x)));
            self.bind("resume".to_string(), resume);
            self.expr(0)?;
            self.scope.truncate(mark);
            self.expect("}")?;
        } else if self.tokens.get(self.at + 1).map(|t| t.as_str()) == Some("=") {
            let name = self.name()?;
            self.expect("=")?;
            let target = self.lookup(&name)?;
            let value = self.expr(0)?;
            self.unify(target, value)?;
        } else {
            return self.expr(0);
        }
        Ok(self.kind(Some(Kind::Unit)))
    }

    /// Statements in braces; the value of the last one.
    fn block(&mut self) -> Check<usize> {
        self.expect("{")?;
        let mark = self.scope.len();
        let mut last = self.kind(Some(Kind::Unit));
        while !self.accept("}") {
            if self.at >= self.tokens.len() {
                return Err("unclosed block".to_string());
            }
            last = self.statement()?;
        }
        self.scope.truncate(mark);
        Ok(last)
    }

    /// Bodies see their parameters, themselves and other functions only.
    fn function(&mut self) -> Check<()> {
        let name = self.name()?;
        self.expect("(")?;
        let outer = self.scope.clone();
        let mut params = Vec::new();
        let mut inner = Vec::new();
        while !self.accept(")") {
            let param = self.name()?;
            let kind = if self.accept(":") {
                self.expect("Int")?;
                self.kind(Some(Kind::Int))
            } else {
                self.kind(None)
            };
            params.push(kind);
            inner.push((param, kind));
            self.accept(",");
        }
        let ret = self.kind(None);
        if self.accept("->") {
            self.expect("Int")?;
            self.want(ret, Kind::Int)?;
        }
        let own = self.kind(Some(Kind::Function(params, ret)));
        self.scope = Vec::new();
        for (n, k) in &outer {
            if matches!(self.known(*k), Some(Kind::Function(..))) {
                self.scope.push((n.clone(), *k));
            }
        }
        self.bind(name.clone(), own);
        self.scope.extend(inner);
        let body = self.block()?;
        self.unify(body, ret)?;
        self.scope = outer;
        self.bind(name, own);
        Ok(())
    }

    fn expr(&mut self, level: usize) -> Check<usize> {
        let table: [&[&str]; 6] = [
            &["or"],
            &["and"],
            &["==", "!=", "<", "<=", ">", ">="],
            &["+", "-"],
            &["*", "/", "%"],
            &["**"],
        ];
        if level == table.len() {
            return self.unary();
        }
        let mut left = self.expr(level + 1)?;
        while table[level].contains(&self.peek()) {
            let op = self.peek().to_string();
            self.at += 1;
            let right = self.expr(level + 1)?;
            left = match level {
                0 | 1 => {
                    self.want(left, Kind::Bool)?;
                    self.want(right, Kind::Bool)?;
                    self.kind(Some(Kind::Bool))
                }
                2 => {
                    self.unify(left, right)?;
                    self.kind(Some(Kind::Bool))
                }
                _ if op == "+" && self.known(left) == Some(Kind::Text) => {
                    match self.known(right) {
                        Some(Kind::Text | Kind::Int) | None => left,
                        other => return Err(format!("cannot append {other:?}")),
                    }
                }
                _ => {
                    self.unify(left, right)?;
                    match self.known(left) {
                        Some(Kind::Int | Kind::Float) | None => left,
                        other => return Err(format!("arithmetic on {other:?}")),
                    }
                }
            };
        }
        Ok(left)
    }

    fn unary(&mut self) -> Check<usize> {
        if self.accept("-") {
            let operand = self.unary()?;
            return match self.known(operand) {
                Some(Kind::Int | Kind::Float) | None => Ok(operand),
                other => Err(format!("negation of {other:?}")),
            };
        }
        if self.accept("not") {
            let operand = self.unary()?;
            self.want(operand, Kind::Bool)?;
            return Ok(operand);
        }
        let mut head = self.atom()?;
        loop {
            if self.accept("(") {
                let Some(Kind::Function(params, ret)) = self.known(head) else {
                    return Err("call of a value that is no function".to_string());
                };
                for (i, param) in params.iter().enumerate() {
                    if i > 0 {
                        self.expect(",")?;
                    }
                    let arg = self.expr(0)?;
                    self.unify(arg, *param)?;
                }
                self.expect(")")?;
                head = ret;
            } else if self.accept("[") {
                self.want(head, Kind::IntArray)?;
                let index = self.expr(0)?;
                self.want(index, Kind::Int)?;
                self.expect("]")?;
                head = self.kind(Some(Kind::Int));
            } else if self.accept(".") {
                self.want(head, Kind::Point)?;
                let field = self.name()?;
                if field != "x" && field != "y" {
                    return Err(format!("unknown field {field}"));
                }
                head = self.kind(Some(Kind::Int));
            } else {
                return Ok(head);
            }
        }
    }

    fn atom(&mut self) -> Check<usize> {
        let token = self.peek().to_string();
        if token == "(" {
            self.at += 1;
            let inner = self.expr(0)?;
            self.expect(")")?;
            Ok(inner)
        } else if token == "if" {
            self.at += 1;
            let cond = self.expr(0)?;
            self.want(cond, Kind::Bool)?;
            self.expect("then")?;
            let yes = self.expr(0)?;
            self.expect("else")?;
            let no = self.expr(0)?;
            self.unify(yes, no)?;
            Ok(yes)
        } else if token == "match" {
            self.at += 1;
            let subject = self.expr(0)?;
            self.want(subject, Kind::Int)?;
            self.expect("{")?;
            let result = self.kind(None);
            for (i, pattern) in ["0", "1", "_"].iter().enumerate() {
                if i > 0 {
                    self.expect(",")?;
                }
                self.expect(pattern)?;
                self.expect("=>")?;
                let arm = self.expr(0)?;
                self.unify(arm, result)?;
            }
            self.expect("}")?;
            Ok(result)
        } else if token == "perform" {
            for token in ["perform", "Tick", ".", "next", "("] {
                self.expect(token)?;
            }
            let arg = self.expr(0)?;
            self.want(arg, Kind::Int)?;
            self.expect(")")?;
            Ok(self.kind(Some(Kind::Int)))
        } else if token == "[" {
            self.at += 1;
            while !self.accept("]") {
                let element = self.expr(0)?;
                self.want(element, Kind::Int)?;
                self.accept(",");
            }
            Ok(self.kind(Some(Kind::IntArray)))
        } else if token == "{" {
            self.braces()
        } else if token.starts_with('"') {
            self.at += 1;
            Ok(self.kind(Some(Kind::Text)))
        } else if token.starts_with(|c: char| c.is_ascii_digit()) {
            self.at += 1;
            let kind = if token.contains('.') { Kind::Float } else { Kind::Int };
            Ok(self.kind(Some(kind)))
        } else if token == "true" || token == "false" {
            self.at += 1;
            Ok(self.kind(Some(Kind::Bool)))
        } else {
            let name = self.name()?;
            self.lookup(&name)
        }
    }

    /// A record, a changed record, or a block.
    fn braces(&mut self) -> Check<usize> {
        let after = self.tokens.get(self.at + 2).map_or("", |t| t.as_str());
        if after == ":" {
            for (i, field) in ["{", "y"].iter().enumerate() {
                self.expect(if i == 0 { field } else { "," })?;
                self.expect(if i == 0 { "x" } else { field })?;
                self.expect(":")?;
                let value = self.expr(0)?;
                self.want(value, Kind::Int)?;
            }
            self.expect("}")?;
            Ok(self.kind(Some(Kind::Point)))
        } else if after == ".." {
            self.expect("{")?;
            let name = self.name()?;
            let base = self.lookup(&name)?;
            self.want(base, Kind::Point)?;
            self.expect("..")?;
            let field = self.name()?;
            if field != "x" && field != "y" {
                return Err(format!("unknown field {field}"));
            }
            self.expect("=")?;
            let value = self.expr(0)?;
            self.want(value, Kind::Int)?;
            self.expect("}")?;
            Ok(self.kind(Some(Kind::Point)))
        } else {
            self.block()
        }
    }
}

fn read(source: &str) -> Check<()> {
    Reader::new(source)?.program()
}

#[test]
fn reader_tells_good_programs_from_bad_ones() {
    assert_eq!(read("let a = [1, 2]\nlet i = a[0] + 1\ni"), Ok(()));
    assert!(read("let a = true + 1\na").is_err());
    assert!(read("let a = (1\na").is_err());
    assert!(read("b").is_err());
    assert!(read("let a = 1\nfn f(p0) { a }\nf(1)").is_err());
}

/// Every generated program in a fixed sample must pass the grammar, the
/// scopes and the types of the language. A failure here is a generator bug.
#[test]
fn generated_programs_compile() {
    let mut failures = Vec::new();
    for seed in 0..200u64 {
        let src = generate_program(seed);
        if let Err(e) = read(&src) {
            failures.push((seed, e, src));
        }
    }
    if !failures.is_empty() {
        for (seed, err, src) in &failures {
            println!("COMPILE FAILURE seed={seed} [{err}]:\n{src}\n---");
        }
        panic!(
            "{} of 200 generated programs failed to compile",
            failures.len()
        );
    }
}

#[test]
fn programs_depend_on_the_seed() {
    assert_ne!(generate_program(1), generate_program(2));
}

#[test]
fn draws_stay_in_their_range() {
    let mut rng = XorShift64 { state: 42 };
    for _ in 0..1_000 {
        let n = rng.range(3, 9);
        assert!((3..9).contains(&n));
    }
    assert!(!rng.chance(0));
    assert!(rng.chance(100));
}

#[test]
fn outer_parentheses_are_removed_once() {
    assert_eq!(strip_parens(&"(a + b)".to_string()), "a + b");
    assert_eq!(strip_parens(&"a + b".to_string()), "a + b");
}

/// An oracle that answers by seed order and keeps what it is shown.
struct Script {
    verdicts: Vec<Verdict>,
    budget: usize,
    kept: Vec<String>,
}

impl Oracle for Script {
    fn out_of_time(&mut self) -> bool {
        self.budget == 0
    }

    fn judge(&mut self, source: &str) -> Verdict {
        assert!(!source.is_empty());
        self.budget -= 1;
        self.verdicts.remove(0)
    }

    fn keep(&mut self, found: &Crasher) {
        self.kept.push(format!("{}/{}", found.folder, found.file_name));
    }
}

fn verdicts() -> Vec<Verdict> {
    vec![
        Verdict::Agreed { aot: true },
        Verdict::Agreed { aot: false },
        Verdict::Uncomparable,
        Verdict::NotCompiled,
        Verdict::Diverged("interpreter 1, jit 2".to_string()),
        Verdict::Diverged("value exceeds the 48-bit range".to_string()),
    ]
}

#[test]
fn campaign_tallies_every_verdict() {
    let mut oracle = Script {
        verdicts: verdicts(),
        budget: 100,
        kept: Vec::new(),
    };
    let stats = run_campaign(7, 6, &mut oracle);
    assert_eq!(stats.generated, 6);
    assert_eq!(stats.agreed, 2);
    assert_eq!(stats.aot_agreed, 1);
    assert_eq!(stats.uncomparable, 1);
    assert_eq!(stats.compile_failures.len(), 1);
    assert_eq!(stats.divergences.len(), 1);
    assert_eq!(stats.divergences[0].seed, 11);
    assert_eq!(stats.divergences[0].source, generate_program(11));
    assert_eq!(stats.known_overflow.len(), 1);
    assert_eq!(oracle.kept, vec!["/11.nula", "known-overflow/12.nula"]);
}

#[test]
fn campaign_stops_when_time_is_up() {
    let mut oracle = Script {
        verdicts: verdicts(),
        budget: 2,
        kept: Vec::new(),
    };
    let stats = run_campaign(0, 6, &mut oracle);
    assert_eq!(stats.generated, 2);
}

#[test]
fn crashers_say_how_to_reproduce_them() {
    let found = crasher(255, "a\nb", "1 + 1");
    assert!(!found.known);
    assert_eq!(found.file_name, "255.nula");
    assert_eq!(found.folder, "");
    assert_eq!(crasher(8, "1 exceeds the 48-bit range", "2").folder, "known-overflow");
    assert!(found.body.contains("--seed-base 255"));
    assert!(found.body.ends_with("1 + 1\n"));
    assert_eq!(found.line, "DIVERGENCE seed=0xff: a\nb");
    assert!(is_overflow_semantics_divergence("x exceeds the 48-bit range"));
}
