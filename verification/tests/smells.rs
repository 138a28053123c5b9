use debtlens::analysis::smells::{count_magic_numbers, count_nesting_level, count_parameters, detect_smells};

#[test]
fn detects_todo_comment() {
    let source = "// TODO: fix this later\nlet x = 1;\n";
    let smells = detect_smells(source, "typescript", 2);
    assert_eq!(smells.todo_fixme, 1);
}

#[test]
fn detects_god_function_over_60_lines() {
    let mut lines = vec!["function bigFunction() {".to_string()];
    for i in 0..65 {
        lines.push(format!("  const x{} = {};", i, i));
    }
    lines.push("}".to_string());
    let source = lines.join("\n");

    let smells = detect_smells(&source, "typescript", lines.len());
    assert_eq!(smells.god_function, 1, "Should detect one god function");
}

#[test]
fn detects_long_param_list() {
    let source = "function foo(a, b, c, d, e, f) {\n  return a;\n}\n";
    let smells = detect_smells(source, "typescript", 3);
    assert!(smells.long_param_list >= 1, "Should detect long param list");
}

#[test]
fn detects_empty_catch_block() {
    let source = "try {\n  foo();\n} catch(e) {\n}\n";
    let smells = detect_smells(source, "typescript", 4);
    assert_eq!(smells.empty_catch, 1);
}

#[test]
fn total_equals_sum_of_all_smells() {
    let source = "// TODO: fix\nfunction foo(a, b, c, d, e, f) { return 42; }\n";
    let smells = detect_smells(source, "typescript", 2);
    let expected = smells.god_function
        + smells.deep_nesting
        + smells.long_param_list
        + smells.duplicate_block
        + smells.dead_import
        + smells.magic_number
        + smells.empty_catch
        + smells.todo_fixme;
    assert_eq!(smells.total, expected);
}

#[test]
fn zero_smells_for_clean_code() {
    let source = "const x = 1;\n";
    let smells = detect_smells(source, "typescript", 1);
    assert_eq!(smells.todo_fixme, 0);
    assert_eq!(smells.god_function, 0);
    assert_eq!(smells.empty_catch, 0);
}

#[test]
fn count_params_works() {
    assert_eq!(count_parameters("function foo(a, b, c)"), 3);
    assert_eq!(count_parameters("function foo()"), 0);
}

#[test]
fn counts_each_smell_exactly() {
    let source = "// TODO: fix\nfunction foo(a, b, c, d, e, f) { return 42; }\n";
    let smells = detect_smells(source, "typescript", 2);
    assert_eq!(smells.todo_fixme, 1);
    assert_eq!(smells.long_param_list, 1);
    assert_eq!(smells.magic_number, 1);
    assert_eq!(smells.god_function, 0);
    assert_eq!(smells.deep_nesting, 0);
    assert_eq!(smells.empty_catch, 0);
    assert_eq!(smells.duplicate_block, 0);
    assert_eq!(smells.dead_import, 0);
    assert_eq!(smells.total, 3);
    assert_eq!(smells.loc, 2);
}

#[test]
fn marks_are_found_in_any_case() {
    assert_eq!(detect_smells("// fixme later\n", "rust", 1).todo_fixme, 1);
    assert_eq!(detect_smells("# Hack around it\n", "python", 1).todo_fixme, 1);
    assert_eq!(detect_smells("/* xxx */\n", "java", 1).todo_fixme, 1);
    assert_eq!(detect_smells("* todo\n", "go", 1).todo_fixme, 1);
    // a mark outside a comment does not count
    assert_eq!(detect_smells("todo();\n", "rust", 1).todo_fixme, 0);
    // in Python `//` opens no comment
    assert_eq!(detect_smells("// TODO\n", "python", 1).todo_fixme, 0);
}

#[test]
fn magic_numbers_skip_the_allowed_values() {
    assert_eq!(count_magic_numbers("x = 0 + 1 - 2 * 100"), 0);
    assert_eq!(count_magic_numbers("f(-1, 1.0, 00100.000, -0)"), 0);
    assert_eq!(count_magic_numbers("x = 42"), 1);
    assert_eq!(count_magic_numbers("x = 3.14 + 7"), 2);
    assert_eq!(count_magic_numbers("x = -2"), 1);
    assert_eq!(count_magic_numbers("x = .5 + 5."), 2);
    // not numbers at all
    assert_eq!(count_magic_numbers("a - b . c 1.2.3 4-5 -"), 0);
    // digits inside a name count as a literal of their own
    assert_eq!(count_magic_numbers("v10"), 1);
    assert_eq!(count_magic_numbers(""), 0);
}

#[test]
fn magic_numbers_are_not_counted_in_declarations_or_comments() {
    assert_eq!(detect_smells("const x = 42;\n", "typescript", 1).magic_number, 0);
    assert_eq!(detect_smells("let x = 42;\n", "typescript", 1).magic_number, 0);
    assert_eq!(detect_smells("var x = 42;\n", "typescript", 1).magic_number, 0);
    assert_eq!(detect_smells("// 42\n", "typescript", 1).magic_number, 0);
    assert_eq!(detect_smells("x = 42;\n", "typescript", 1).magic_number, 1);
    assert_eq!(detect_smells("  return 42 + 43;\n", "typescript", 1).magic_number, 2);
}

#[test]
fn god_function_needs_more_than_sixty_lines() {
    let mut lines = vec!["fn f() {".to_string()];
    for _ in 0..58 {
        lines.push("    g();".to_string());
    }
    lines.push("}".to_string());
    // 60 lines: not yet
    assert_eq!(detect_smells(&lines.join("\n"), "rust", 60).god_function, 0);
    lines.insert(1, "    g();".to_string());
    // 61 lines
    assert_eq!(detect_smells(&lines.join("\n"), "rust", 61).god_function, 1);
}

#[test]
fn nesting_level_goes_by_the_indent() {
    assert_eq!(count_nesting_level("x"), 0);
    assert_eq!(count_nesting_level("  x"), 1);
    assert_eq!(count_nesting_level("   x"), 1);
    assert_eq!(count_nesting_level("    x"), 1);
    assert_eq!(count_nesting_level("        x"), 2);
    assert_eq!(count_nesting_level("                    x"), 5);
}

#[test]
fn deep_nesting_counts_lines_beyond_level_four() {
    let deep = format!("{}x();\n", " ".repeat(20));
    let shallow = format!("{}x();\n", " ".repeat(16));
    assert_eq!(detect_smells(&deep, "typescript", 1).deep_nesting, 1);
    assert_eq!(detect_smells(&shallow, "typescript", 1).deep_nesting, 0);
    assert_eq!(detect_smells(&deep, "python", 1).deep_nesting, 1);
    assert_eq!(detect_smells(&shallow, "python", 1).deep_nesting, 0);
    // a blank line is never deep in Python
    let blank = format!("{}\n", " ".repeat(24));
    assert_eq!(detect_smells(&blank, "python", 1).deep_nesting, 0);
}

#[test]
fn empty_catch_needs_a_following_line() {
    assert_eq!(detect_smells("} catch (e) {", "typescript", 1).empty_catch, 0);
    assert_eq!(detect_smells("} catch (e) {\n\n", "typescript", 2).empty_catch, 1);
    assert_eq!(detect_smells("} catch (e) {\n  log(e);\n}\n", "typescript", 3).empty_catch, 0);
}

#[test]
fn carriage_returns_end_lines_too() {
    let smells = detect_smells("// TODO\r\n// FIXME\r\n", "typescript", 2);
    assert_eq!(smells.todo_fixme, 2);
}
