use cglua::Context;

fn s(text: &str) -> String {
    text.to_owned()
}

fn render_assigned(build: impl FnOnce(&mut Context) -> cglua::Value) -> String {
    let mut ctx = Context::new();
    let x = ctx.declare(s("x"));
    let v = build(&mut ctx);
    ctx.stat().assign(x, v);
    let text = ctx.render();
    let text = text.strip_prefix("local x = ").expect("assignment prefix");
    let text = text.strip_suffix(";\n").expect("assignment suffix");
    text.to_owned()
}

#[test]
fn integers_render_as_exact_decimal_digits() {
    assert_eq!(render_assigned(|c| c.expr().integer(0)), "0");
    assert_eq!(render_assigned(|c| c.expr().integer(42)), "42");
    assert_eq!(render_assigned(|c| c.expr().integer(-7)), "-7");
    assert_eq!(
        render_assigned(|c| c.expr().integer(i64::MAX)),
        "9223372036854775807"
    );
    assert_eq!(
        render_assigned(|c| c.expr().integer(i64::MIN)),
        "-9223372036854775808"
    );
}

#[test]
fn doubles_round_trip_bit_for_bit() {
    for value in [0.1f64, 42.5, -3.25, 1.0e300, 5.0e-324, 0.0, -123456.789] {
        let text = render_assigned(|c| c.expr().double(value.to_string()));
        let back: f64 = text.parse().expect("rendered float parses");
        assert_eq!(back.to_bits(), value.to_bits());
    }
}

#[test]
fn nil_renders_as_nil() {
    assert_eq!(render_assigned(|c| c.expr().nil()), "nil");
}

#[test]
fn table_pairs_keep_their_order() {
    let text = render_assigned(|c| {
        let k1 = c.expr().string(s("k1"));
        let v1 = c.expr().integer(1);
        let k2 = c.expr().string(s("k2"));
        let v2 = c.expr().integer(2);
        c.expr().table(vec![(k1, v1), (k2, v2)])
    });
    assert_eq!(text, "{[\"k1\"] = (1),[\"k2\"] = (2)}");
    let first = text.find("k1").expect("first key present");
    let second = text.find("k2").expect("second key present");
    assert!(first < second);
}

#[test]
fn empty_table_renders_as_braces() {
    assert_eq!(render_assigned(|c| c.expr().table(vec![])), "{}");
}

#[test]
fn string_with_embedded_quote_is_escaped() {
    let text = render_assigned(|c| c.expr().string(s("a\"b")));
    assert_eq!(text, "\"a\\\"b\"");
}

#[test]
fn string_escapes_backslash_and_named_controls() {
    let text = render_assigned(|c| c.expr().string(s("a\\b\nc\rd\te")));
    assert_eq!(text, "\"a\\\\b\\nc\\rd\\te\"");
}

#[test]
fn string_escapes_other_controls_as_three_digits() {
    let text = render_assigned(|c| c.expr().string(s("\u{1}\u{1f}\u{7f}")));
    assert_eq!(text, "\"\\001\\031\\127\"");
}

#[test]
fn plain_string_passes_through_quoted() {
    let text = render_assigned(|c| c.expr().string(s("hello")));
    assert_eq!(text, "\"hello\"");
}

#[test]
fn get_place_on_identifier_passes_through() {
    let mut ctx = Context::new();
    let y = ctx.declare(s("y"));
    let x = ctx.declare(s("x"));
    let v = ctx.expr().get_place(y);
    ctx.stat().assign(x, v);
    assert_eq!(ctx.render(), "local x = y;\n");
}

#[test]
fn table_access_renders_parenthesized() {
    let mut ctx = Context::new();
    let t = ctx.declare(s("t"));
    let x = ctx.declare(s("x"));
    let key = ctx.expr().string(s("field"));
    let v = ctx.expr().table_access(t, key);
    ctx.stat().assign(x, v);
    assert_eq!(ctx.render(), "local x = (t)[\"field\"];\n");
}

#[test]
fn value_to_place_wraps_as_computed_place() {
    let mut ctx = Context::new();
    let t = ctx.declare(s("t"));
    let key = ctx.expr().integer(1);
    let element = ctx.expr().table_access(t, key);
    let place = element.to_place();
    let v = ctx.expr().integer(5);
    ctx.stat().assign(place, v);
    assert_eq!(ctx.render(), "local ((t)[1]) = 5;\n");
}

#[test]
fn get_place_on_computed_place_parenthesizes() {
    let mut ctx = Context::new();
    let t = ctx.declare(s("t"));
    let key = ctx.expr().integer(1);
    let element = ctx.expr().table_access(t, key);
    let place = element.to_place();
    let x = ctx.declare(s("x"));
    let v = ctx.expr().get_place(place);
    ctx.stat().assign(x, v);
    assert_eq!(ctx.render(), "local x = ((t)[1]);\n");
}

#[test]
fn nested_tables_render_inside_out() {
    let text = render_assigned(|c| {
        let ik = c.expr().integer(1);
        let iv = c.expr().integer(2);
        let inner = c.expr().table(vec![(ik, iv)]);
        let ok = c.expr().string(s("inner"));
        c.expr().table(vec![(ok, inner)])
    });
    assert_eq!(text, "{[\"inner\"] = ({[1] = (2)})}");
}

#[test]
fn single_pair_table_has_no_comma() {
    let text = render_assigned(|c| {
        let k = c.expr().integer(7);
        let v = c.expr().nil();
        c.expr().table(vec![(k, v)])
    });
    assert_eq!(text, "{[7] = (nil)}");
}
