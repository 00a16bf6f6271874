use cglua::Context;
use cglua::Error;

fn s(text: &str) -> String {
    text.to_owned()
}

#[test]
fn empty_context_renders_nothing() {
    let ctx = Context::new();
    assert_eq!(ctx.render(), "");
}

#[test]
fn finish_block_on_empty_stack_fails_and_is_idempotent() {
    let mut ctx = Context::new();
    let first = ctx.finish_block();
    assert!(matches!(first, Err(Error::NoCurrentBlock)));
    let second = ctx.finish_block();
    assert!(matches!(second, Err(Error::NoCurrentBlock)));
    assert_eq!(ctx.render(), "");
}

#[test]
fn error_message_text() {
    let e = Error::NoCurrentBlock;
    assert_eq!(e.message(), "Not currently generating a block");
}

#[test]
fn assignment_at_top_level() {
    let mut ctx = Context::new();
    let x = ctx.declare(s("x"));
    let v = ctx.expr().integer(1);
    ctx.stat().assign(x, v);
    assert_eq!(ctx.render(), "local x = 1;\n");
}

#[test]
fn raw_block_renders_do_end() {
    let mut ctx = Context::new();
    ctx.start_raw_block();
    let x = ctx.declare(s("x"));
    let v = ctx.expr().nil();
    ctx.stat().assign(x, v);
    assert!(ctx.finish_block().is_ok());
    assert_eq!(ctx.render(), "do\n  local x = nil;\nend\n");
}

#[test]
fn top_level_function_has_no_local_marker() {
    let mut ctx = Context::new();
    ctx.start_function(s("foo"), vec![]);
    assert!(ctx.finish_block().is_ok());
    assert_eq!(ctx.render(), "function foo()\nend\n");
}

#[test]
fn nested_function_gets_local_marker() {
    let mut ctx = Context::new();
    ctx.start_function(s("outer"), vec![]);
    ctx.start_function(s("inner"), vec![s("a"), s("b")]);
    assert!(ctx.finish_block().is_ok());
    assert!(ctx.finish_block().is_ok());
    assert_eq!(
        ctx.render(),
        "function outer()\n  local function inner(a,b)\n  end\nend\n"
    );
}

#[test]
fn statement_depth_gives_two_spaces_per_level() {
    let mut ctx = Context::new();
    ctx.start_raw_block();
    ctx.start_raw_block();
    ctx.start_raw_block();
    let x = ctx.declare(s("x"));
    let v = ctx.expr().nil();
    ctx.stat().assign(x, v);
    assert!(ctx.finish_block().is_ok());
    assert!(ctx.finish_block().is_ok());
    assert!(ctx.finish_block().is_ok());
    let text = ctx.render();
    // the assignment sits at nesting depth 3: exactly six leading spaces
    assert!(text.contains("\n      local x = nil;\n"));
    assert!(!text.contains("       local"));
}

#[test]
fn headers_and_ends_balance_with_matching_indentation() {
    let mut ctx = Context::new();
    ctx.start_function(s("f"), vec![]);
    ctx.start_raw_block();
    ctx.start_raw_block();
    assert!(ctx.finish_block().is_ok());
    assert!(ctx.finish_block().is_ok());
    assert!(ctx.finish_block().is_ok());
    let text = ctx.render();
    let headers = text
        .lines()
        .filter(|l| l.trim_start().starts_with("function") || l.trim_start() == "do" || l.trim_start().starts_with("local function"))
        .count();
    let ends = text.lines().filter(|l| l.trim_start() == "end").count();
    assert_eq!(headers, 3);
    assert_eq!(ends, 3);
    assert_eq!(
        text,
        "function f()\n  do\n    do\n    end\n  end\nend\n"
    );
}

#[test]
fn reassignment_emits_two_distinct_locals() {
    let mut ctx = Context::new();
    ctx.start_raw_block();
    let x1 = ctx.declare(s("x"));
    let v1 = ctx.expr().integer(1);
    ctx.stat().assign(x1, v1);
    let x2 = ctx.declare(s("x"));
    let v2 = ctx.expr().integer(2);
    ctx.stat().assign(x2, v2);
    assert!(ctx.finish_block().is_ok());
    assert_eq!(ctx.render(), "do\n  local x = 1;\n  local x = 2;\nend\n");
}

#[test]
fn end_to_end_nested_program() {
    let mut ctx = Context::new();
    ctx.start_function(s("foo"), vec![]);
    ctx.start_function(s("bar"), vec![s("a"), s("b")]);
    ctx.start_raw_block();
    let x = ctx.declare(s("x"));
    let nil = ctx.expr().nil();
    ctx.stat().assign(x, nil);
    ctx.start_function(s("rat"), vec![s("a"), s("b")]);
    let x = ctx.declare(s("x"));
    let forty_two = ctx.expr().integer(42);
    ctx.stat().assign(x, forty_two);
    let x = ctx.declare(s("x"));
    let float = ctx.expr().double((42.5f64).to_string());
    ctx.stat().assign(x, float);
    assert!(ctx.finish_block().is_ok()); // rat
    assert!(ctx.finish_block().is_ok()); // raw block
    let x = ctx.declare(s("x"));
    let k1 = ctx.expr().string(s("test"));
    let v1 = ctx.expr().integer(1);
    let k2 = ctx.expr().integer(1);
    let v2 = ctx.expr().integer(2);
    let table = ctx.expr().table(vec![(k1, v1), (k2, v2)]);
    ctx.stat().assign(x, table);
    assert!(ctx.finish_block().is_ok()); // bar
    assert!(ctx.finish_block().is_ok()); // foo
    let expected_lines = vec![
        "function foo()",
        "  local function bar(a,b)",
        "    do",
        "      local x = nil;",
        "      local function rat(a,b)",
        "        local x = 42;",
        "        local x = 42.5;",
        "      end",
        "    end",
        "    local x = {[\"test\"] = (1),[1] = (2)};",
        "  end",
        "end",
    ];
    let expected = expected_lines.join("\n") + "\n";
    assert_eq!(ctx.render(), expected);
}

#[test]
fn unbalanced_open_scope_is_not_rendered() {
    let mut ctx = Context::new();
    ctx.start_function(s("pending"), vec![]);
    assert_eq!(ctx.render(), "");
}

#[test]
fn three_parameters_join_with_commas() {
    let mut ctx = Context::new();
    ctx.start_function(s("f"), vec![s("a"), s("b"), s("c")]);
    assert!(ctx.finish_block().is_ok());
    assert_eq!(ctx.render(), "function f(a,b,c)\nend\n");
}

#[test]
fn single_parameter_has_no_comma() {
    let mut ctx = Context::new();
    ctx.start_function(s("f"), vec![s("only")]);
    assert!(ctx.finish_block().is_ok());
    assert_eq!(ctx.render(), "function f(only)\nend\n");
}

#[test]
fn start_function_place_reads_back_as_the_name() {
    let mut ctx = Context::new();
    let f = ctx.start_function(s("helper"), vec![]);
    assert!(ctx.finish_block().is_ok());
    let x = ctx.declare(s("x"));
    let v = ctx.expr().get_place(f);
    ctx.stat().assign(x, v);
    assert_eq!(ctx.render(), "function helper()\nend\nlocal x = helper;\n");
}

#[test]
fn cloned_place_assigns_twice() {
    let mut ctx = Context::new();
    let x = ctx.declare(s("x"));
    let x_again = x.clone();
    let v1 = ctx.expr().integer(1);
    ctx.stat().assign(x, v1);
    let v2 = ctx.expr().integer(2);
    ctx.stat().assign(x_again, v2);
    assert_eq!(ctx.render(), "local x = 1;\nlocal x = 2;\n");
}

#[test]
fn cloned_value_renders_identically() {
    let mut ctx = Context::new();
    let k = ctx.expr().string(s("k"));
    let v = ctx.expr().integer(9);
    let table = ctx.expr().table(vec![(k, v)]);
    let copy = table.clone();
    let a = ctx.declare(s("a"));
    ctx.stat().assign(a, table);
    let b = ctx.declare(s("b"));
    ctx.stat().assign(b, copy);
    assert_eq!(
        ctx.render(),
        "local a = {[\"k\"] = (9)};\nlocal b = {[\"k\"] = (9)};\n"
    );
}
