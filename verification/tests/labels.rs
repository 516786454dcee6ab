use coldtrace::label::{
    command_label, command_label_with, python_inline_code, python_inline_code_with, run_label,
    sanitize_label, truncate_label,
};

fn argv(items: &[&str]) -> Vec<String> {
    items.iter().map(|s| s.to_string()).collect()
}

#[test]
fn sanitize_lowercases_and_joins_other_characters_into_one_dash() {
    assert_eq!(sanitize_label("Torch Import!!"), "torch-import");
    assert_eq!(sanitize_label("--a--b--"), "a-b");
    assert_eq!(sanitize_label("exit-seven"), "exit-seven");
    assert_eq!(sanitize_label("print('hello')"), "print-hello");
    assert_eq!(sanitize_label("h\u{e9}llo"), "h-llo");
    assert_eq!(sanitize_label(""), "");
    assert_eq!(sanitize_label("!!!"), "");
}

#[test]
fn sanitize_truncates_to_forty_eight_characters() {
    let long = "a".repeat(60);
    assert_eq!(sanitize_label(&long), "a".repeat(48));
    let edge = format!("{}-b", "a".repeat(47));
    assert_eq!(sanitize_label(&edge), format!("{}-", "a".repeat(47)));
}

#[test]
fn truncate_keeps_the_first_forty_eight_characters() {
    assert_eq!(truncate_label("short"), "short");
    let long = "\u{e9}".repeat(50);
    assert_eq!(truncate_label(&long), "\u{e9}".repeat(48));
}

#[test]
fn explicit_name_is_the_label() {
    assert_eq!(run_label(Some("exit-seven"), &argv(&["sh"])), "exit-seven");
    assert_eq!(run_label(Some("Torch Import"), &argv(&["python3"])), "torch-import");
    assert_eq!(run_label(Some("!!!"), &argv(&["python3"])), "run");
}

#[test]
fn unnamed_python_inline_run_is_labelled_by_its_code() {
    let args = argv(&["python3", "-c", "import torch"]);
    assert_eq!(run_label(None, &args), "python3-import-torch");
    let args = argv(&["/usr/bin/python3", "-c", "print('hello')"]);
    assert_eq!(run_label(None, &args), "python3-print-hello");
    let args = argv(&["/opt/PYTHON", "-u", "-c", "x = 1"]);
    assert_eq!(run_label(None, &args), "python-x-1");
}

#[test]
fn other_commands_are_labelled_by_their_program() {
    assert_eq!(run_label(None, &argv(&["sh", "-c", "exit 7"])), "sh");
    assert_eq!(run_label(None, &argv(&["/usr/bin/"])), "bin");
    assert_eq!(run_label(None, &argv(&[])), "command");
    assert_eq!(run_label(None, &argv(&["/"])), "command");
    assert_eq!(run_label(None, &argv(&["..."])), "run");
}

#[test]
fn python_inline_code_needs_a_value_after_the_flag() {
    assert_eq!(python_inline_code(&argv(&["python3", "-c", "import torch"])), Some("import torch"));
    assert_eq!(python_inline_code(&argv(&["python3", "-c"])), None);
    assert_eq!(python_inline_code(&argv(&["python3", "x.py"])), None);
    assert_eq!(python_inline_code(&argv(&["sh", "-c", "x"])), None);
    assert_eq!(python_inline_code(&argv(&["python3", "-c", "a", "-c", "b"])), Some("a"));
    assert_eq!(python_inline_code(&argv(&[])), None);
}

#[test]
fn empty_inline_code_leaves_the_program_label() {
    assert_eq!(command_label(&argv(&["python3", "-c", "!!!"])), "python3");
    let long = format!("{}", "y".repeat(60));
    let label = command_label(&argv(&["python3", "-c", &long]));
    assert_eq!(label, format!("python3-{}", "y".repeat(40)));
}

#[test]
fn labels_are_safe_file_names() {
    let cases = [
        run_label(None, &argv(&["python3", "-c", "import os; os.system('rm -rf /')"])),
        run_label(Some("../../etc/passwd"), &argv(&["sh"])),
        run_label(Some(".."), &argv(&["sh"])),
    ];
    for label in cases.iter() {
        assert!(!label.is_empty() && label.chars().count() <= 48);
        assert!(label.chars().all(|c| c.is_ascii_lowercase() || c.is_ascii_digit() || c == '-'));
    }
    assert_eq!(cases[1], "etc-passwd");
    assert_eq!(cases[2], "run");
}

#[test]
fn sanitizing_twice_only_drops_a_trailing_dash() {
    let edge = format!("{}-b", "a".repeat(47));
    let once = sanitize_label(&edge);
    assert_eq!(sanitize_label(&once), "a".repeat(47));
    let once = sanitize_label("Torch Import!!");
    assert_eq!(sanitize_label(&once), once);
}

#[test]
fn sanitized_label_is_empty_exactly_without_letters_or_digits() {
    assert_eq!(sanitize_label("--- ... ///"), "");
    assert_eq!(sanitize_label("\u{e9}\u{e8}"), "");
    assert_eq!(sanitize_label("__7__"), "7");
}

#[test]
fn command_labels_have_no_doubled_or_leading_dash() {
    let program = format!("{}_python", "a".repeat(47));
    let label = command_label(&argv(&[&program, "-c", "x"]));
    assert_eq!(label, format!("{}-", "a".repeat(47)));
    assert!(!label.contains("--"));
    let label = run_label(None, &argv(&["_python_", "-c", "__import torch__"]));
    assert_eq!(label, "python-import-torch");
}

#[test]
fn labels_from_a_given_program_file_name() {
    let args = argv(&["/usr/bin/python3", "-c", "import torch"]);
    assert_eq!(command_label_with(Some("python3"), &args), "python3-import-torch");
    assert_eq!(command_label_with(None, &args), "command");
    assert_eq!(command_label_with(Some("sh"), &args), "sh");
    assert_eq!(python_inline_code_with(Some("Python3.11"), &args), Some("import torch"));
    assert_eq!(python_inline_code_with(Some("sh"), &args), None);
    assert_eq!(python_inline_code_with(None, &args), None);
}
