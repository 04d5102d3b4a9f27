use tabletbot::formatting::{
    bound_body, clip, get_base_indent, get_indent, trim_indent, MAX_BODY_LINES, MAX_TEXT_LENGTH,
};

#[test]
fn trim_removes_shared_indentation() {
    let lines = ["    fn main() {", "        run();", "    }"];
    assert_eq!(trim_indent(&lines), "fn main() {\n    run();\n}");
}

#[test]
fn blank_lines_do_not_lower_the_shared_indentation() {
    let lines = ["  a", "", "    b"];
    assert_eq!(get_base_indent(&lines), 2);
    assert_eq!(trim_indent(&lines), "a\n\n  b");
}

#[test]
fn indentation_counts_leading_whitespace() {
    assert_eq!(get_indent("   x"), 3);
    assert_eq!(get_indent("\t\tx"), 2);
    assert_eq!(get_indent(" \u{a0}x"), 2);
    assert_eq!(get_indent("\u{3000}\u{2028}\u{85}x"), 3);
    assert_eq!(get_indent("\u{200b}x"), 0);
    assert_eq!(get_indent("x"), 0);
    assert_eq!(get_indent("x  "), 0);
    assert_eq!(get_indent(""), 0);
}

#[test]
fn a_line_of_whitespace_only_counts_with_its_whitespace() {
    assert_eq!(get_indent("   "), 3);
    let lines = ["    a", "  ", "    b"];
    assert_eq!(get_base_indent(&lines), 2);
    assert_eq!(trim_indent(&lines), "  a\n\n  b");
    let deeper = ["  a", "      ", "    b"];
    assert_eq!(get_base_indent(&deeper), 2);
    assert_eq!(trim_indent(&deeper), "a\n    \n  b");
    let only = ["   ", "  "];
    assert_eq!(get_base_indent(&only), 2);
    assert_eq!(trim_indent(&only), " \n");
}

#[test]
fn trimming_twice_differs_where_the_least_indented_line_is_only_whitespace() {
    let lines = ["  ", "    a"];
    let once = trim_indent(&lines);
    assert_eq!(once, "\n  a");
    let again: Vec<&str> = once.split('\n').collect();
    assert_eq!(trim_indent(&again), "\na");
}

#[test]
fn a_block_without_text_has_no_shared_indentation() {
    let none: [&str; 0] = [];
    assert_eq!(get_base_indent(&none), 0);
    assert_eq!(trim_indent(&none), "");
    let blank = ["", ""];
    assert_eq!(get_base_indent(&blank), 0);
    assert_eq!(trim_indent(&blank), "\n");
}

#[test]
fn tabs_are_counted_but_only_spaces_are_removed() {
    let lines = ["\t\tfoo", "    bar"];
    assert_eq!(get_base_indent(&lines), 2);
    assert_eq!(trim_indent(&lines), "\t\tfoo\n  bar");
}

#[test]
fn trimming_twice_is_trimming_once() {
    let lines = ["      deep", "   shallow", "", "     middle"];
    let once = trim_indent(&lines);
    assert_eq!(once, "   deep\nshallow\n\n  middle");
    let again: Vec<&str> = once.split('\n').collect();
    assert_eq!(trim_indent(&again), once);
}

#[test]
fn trimming_twice_differs_where_the_least_indented_line_uses_tabs() {
    let lines = ["\t\tfoo", "    bar"];
    let once = trim_indent(&lines);
    let again: Vec<&str> = once.split('\n').collect();
    assert_eq!(trim_indent(&again), "\t\tfoo\nbar");
}

#[test]
fn clip_keeps_short_text_and_cuts_long_text() {
    assert_eq!(clip("hello", 10), "hello");
    assert_eq!(clip("hello", 5), "hello");
    assert_eq!(clip("hello", 2), "he");
    assert_eq!(clip("hello", 0), "");
    assert_eq!(clip("h\u{e9}llo", 2), "h\u{e9}");
}

#[test]
fn body_keeps_at_most_fifteen_lines() {
    let lines: Vec<String> = (1..=20).map(|n| format!("line {}", n)).collect();
    let body = lines.join("\n");
    let shown = bound_body(&body);
    assert_eq!(shown, lines[..15].join("\n"));
    assert_eq!(shown.split('\n').count(), MAX_BODY_LINES);
}

#[test]
fn body_with_few_lines_is_kept_whole() {
    assert_eq!(bound_body("one\ntwo"), "one\ntwo");
    assert_eq!(bound_body("one\n"), "one\n");
    assert_eq!(bound_body(""), "");
}

#[test]
fn body_never_exceeds_the_length_bound() {
    let long = "x".repeat(10000);
    let shown = bound_body(&long);
    assert_eq!(shown.chars().count(), MAX_TEXT_LENGTH);
    assert_eq!(shown, "x".repeat(4096));
}

#[test]
fn line_cap_is_applied_before_length_cap() {
    let line = "y".repeat(300);
    let lines: Vec<String> = (0..20).map(|_| line.clone()).collect();
    let body = lines.join("\n");
    let shown = bound_body(&body);
    let joined = lines[..15].join("\n");
    let expected: String = joined.chars().take(4096).collect();
    assert_eq!(shown, expected);
    assert_eq!(shown.chars().count(), 4096);
}

#[test]
fn whitespace_is_exactly_the_white_space_property() {
    let listed = |code: u32| {
        (0x0009..=0x000d).contains(&code)
            || code == 0x0020
            || code == 0x0085
            || code == 0x00a0
            || code == 0x1680
            || (0x2000..=0x200a).contains(&code)
            || code == 0x2028
            || code == 0x2029
            || code == 0x202f
            || code == 0x205f
            || code == 0x3000
    };
    let mut line = String::new();
    for code in 0..=0x10ffff_u32 {
        if let Some(c) = char::from_u32(code) {
            line.clear();
            line.push(c);
            line.push('x');
            assert_eq!(get_indent(&line), usize::from(listed(code)), "U+{:04X}", code);
        }
    }
}
