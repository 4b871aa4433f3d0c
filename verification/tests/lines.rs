use cuttle::shader::lines::Lines;

fn strings(v: &[&str]) -> Vec<String> {
    v.iter().map(|s| s.to_string()).collect()
}

#[test]
fn linefy_splits_after_braces_and_semicolons() {
    let lines = Lines::from_linefy("fn f() {\n    let a   = 1;\n return a; }".to_string());
    assert_eq!(lines.lines, strings(&["fn f() {", "let a = 1;", "return a;", "}"]));
}

#[test]
fn into_file_str_indents_blocks() {
    let lines = Lines::from_linefy("fn f() { let a = 1; return a; }".to_string());
    assert_eq!(lines.into_file_str(), "fn f() {\n    let a = 1;\n    return a;\n}\n \n");
}

#[test]
fn into_file_str_puts_struct_fields_on_their_own_lines() {
    let lines = Lines::from_linefy("struct A { x: f32, y: u32, }".to_string());
    assert_eq!(lines.lines, strings(&["struct A {", "x: f32, y: u32, }"]));
    assert_eq!(lines.into_file_str(), "struct A {\n    x: f32,\n    y: u32,\n}\n \n");
}

#[test]
fn add_merge_and_block() {
    let inner = Lines::new().add("a;".to_string());
    let lines = Lines::new().add("fn g()".to_string()).block(inner);
    assert_eq!(lines.lines, strings(&["fn g()", "{", "a;", "}"]));
    let merged = Lines::new().merge(lines).merge(Lines::new().add("b;".to_string()));
    assert_eq!(merged.lines, strings(&["fn g()", "{", "a;", "}", "b;"]));
}

#[test]
fn merge_is_associative() {
    let a = Lines::new().add("a".to_string());
    let b = Lines::new().add("b".to_string());
    let c = Lines::new().add("c".to_string());
    let left = Lines::new().add("a".to_string()).merge(b).merge(Lines::new().add("c".to_string()));
    let right = a.merge(Lines::new().add("b".to_string()).merge(c));
    assert_eq!(left.lines, right.lines);
}

#[test]
fn concat_joins_parts_in_order() {
    let parts = vec![
        Lines::new().add("x".to_string()),
        Lines::new(),
        Lines::new().add("y".to_string()).add("z".to_string()),
    ];
    assert_eq!(Lines::concat(parts).lines, strings(&["x", "y", "z"]));
}

#[test]
fn linefy_lines_hold_single_spaces_only() {
    let lines = Lines::from_linefy("a\t\tb;\n\n   c  {\r\n d }".to_string());
    assert_eq!(lines.lines, strings(&["a b;", "c {", "d }"]));
    for line in &lines.lines {
        assert!(!line.starts_with(char::is_whitespace));
        assert!(line.chars().all(|c| !c.is_whitespace() || c == ' '));
    }
}
