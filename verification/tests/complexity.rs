use debtlens::analysis::complexity::analyze_complexity;

fn value(x: debtlens::fixed::Fixed) -> f64 {
    x.units as f64 / 1_000_000.0
}

#[test]
fn simple_function_has_complexity_one() {
    let source = "fn simple() {\n  println!(\"hello\");\n}\n";
    let result = analyze_complexity(source, "rust");
    assert_eq!(result.functions.len(), 1);
    assert_eq!(result.functions[0].complexity, 1);
}

#[test]
fn if_statement_adds_complexity() {
    let source = "function foo() {\n  if (x > 0) {\n    return x;\n  }\n}\n";
    let result = analyze_complexity(source, "typescript");
    assert_eq!(result.functions.len(), 1);
    assert!(result.functions[0].complexity >= 2, "if should increase complexity");
}

#[test]
fn multiple_branches_increase_complexity() {
    let source = "function bar() {\n  if (a) {\n  } else if (b) {\n  }\n  for (let i=0; i<n; i++) {\n  }\n  while (c) {\n  }\n}\n";
    let result = analyze_complexity(source, "typescript");
    assert_eq!(result.functions.len(), 1);
    assert!(
        result.functions[0].complexity >= 4,
        "Multiple branches should increase complexity, got {}",
        result.functions[0].complexity
    );
}

#[test]
fn average_complexity_across_functions() {
    let source = "fn simple() {\n  42\n}\nfn complex() {\n  if true {\n  }\n  if false {\n  }\n}\n";
    let result = analyze_complexity(source, "rust");
    assert_eq!(result.functions.len(), 2);
    assert!(value(result.average) > 1.0, "Average should be > 1.0, got {}", value(result.average));
}

#[test]
fn empty_source_has_no_functions() {
    let result = analyze_complexity("", "rust");
    assert_eq!(result.functions.len(), 0);
    assert_eq!(value(result.average), 0.0);
}

#[test]
fn python_detects_functions() {
    let source = "def foo():\n    if x:\n        pass\n";
    let result = analyze_complexity(source, "python");
    assert_eq!(result.functions.len(), 1);
    assert!(result.functions[0].complexity >= 2);
}

#[test]
fn names_and_complexities_are_exact() {
    let source = "fn simple() {\n  42\n}\npub fn complex(a: u8) {\n  if true {\n  }\n  if false && a > 1 {\n  }\n}\n";
    let result = analyze_complexity(source, "rust");
    assert_eq!(result.functions.len(), 2);
    assert_eq!(result.functions[0].name, "simple");
    assert_eq!(result.functions[0].complexity, 1);
    assert_eq!(result.functions[1].name, "complex");
    assert_eq!(result.functions[1].complexity, 4);
    assert_eq!(result.average.units, 2_500_000);
}

#[test]
fn names_follow_the_language() {
    let py = analyze_complexity("async def fetch(url):\n    return 1\n", "python");
    assert_eq!(py.functions[0].name, "fetch");
    let go = analyze_complexity("func run(a int) {\n}\n", "go");
    assert_eq!(go.functions[0].name, "run");
    let ts = analyze_complexity("export function load(x) {\n}\n", "typescript");
    assert_eq!(ts.functions[0].name, "load");
    let java = analyze_complexity("public void go() {\n}\n", "java");
    assert_eq!(java.functions[0].name, "go");
    let anon = analyze_complexity("(x) => {\n}\n", "javascript");
    assert_eq!(anon.functions[0].name, "unknown");
    let unknown = analyze_complexity("fn f() {\n}\n", "cobol");
    assert_eq!(unknown.functions.len(), 0);
}

#[test]
fn ternary_counts_once_more() {
    let source = "function f(a) {\n  return a ? 1 : 2;\n}\n";
    let result = analyze_complexity(source, "typescript");
    // 1, the keyword `? ` and the ternary itself
    assert_eq!(result.functions[0].complexity, 3);
}
