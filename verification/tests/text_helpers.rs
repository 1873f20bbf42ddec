use rackit::device::eltex_esr200::{clean_system_output, parse_operation, Operation};
use rackit::error::Error;
use rackit::text::{
    blank, from_chars, join2, join3, split_lines, str_eq, to_chars, trimmed, truncate,
};

fn texts(list: &[&str]) -> Vec<String> {
    list.iter().map(|s| s.to_string()).collect()
}

#[test]
fn strings_are_equal_when_their_characters_are() {
    assert!(str_eq("", ""));
    assert!(str_eq("Eltex", "Eltex"));
    assert!(!str_eq("Eltex", "eltex"));
    assert!(!str_eq("Eltex", "Eltex "));
    assert!(!str_eq("a", ""));
    assert!(str_eq("маршрутизатор", "маршрутизатор"));
    assert!(!str_eq("маршрутизатор", "маршрутизаторы"));
}

#[test]
fn characters_go_to_a_list_and_back() {
    assert_eq!(to_chars("aя#"), vec!['a', 'я', '#']);
    assert_eq!(to_chars(""), Vec::<char>::new());
    let chars = vec!['e', 's', 'r', '-', '2', '0', '0', '#'];
    assert_eq!(from_chars(&chars, 0, 8), "esr-200#");
    assert_eq!(from_chars(&chars, 4, 7), "200");
    assert_eq!(from_chars(&chars, 3, 3), "");
    assert_eq!(join2("username ", "admin"), "username admin");
    assert_eq!(join3("'", "x", "'"), "'x'");
}

#[test]
fn a_line_is_blank_when_it_holds_white_space_only() {
    assert!(blank(""));
    assert!(blank(" \t\r\n"));
    assert!(blank("\u{A0}\u{2003}\u{3000}\u{85}\u{1680}\u{2028}\u{2029}\u{202F}\u{205F}\u{0B}\u{0C}"));
    assert!(!blank(" x "));
    assert!(!blank("\u{200B}"));
    assert!(!blank("\u{1F}"));
}

#[test]
fn trimming_takes_the_white_space_at_both_ends() {
    assert_eq!(trimmed("  show system \r\n"), "show system");
    assert_eq!(trimmed("show system"), "show system");
    assert_eq!(trimmed(" \t "), "");
    assert_eq!(trimmed(""), "");
    assert_eq!(trimmed("\u{3000}a b\u{A0}"), "a b");
    assert_eq!(trimmed("x"), "x");
    assert_eq!(trimmed("\u{200B} x"), "\u{200B} x");
}

#[test]
fn lines_end_at_line_feeds_and_lose_one_carriage_return() {
    assert_eq!(split_lines(""), Vec::<String>::new());
    assert_eq!(split_lines("a"), texts(&["a"]));
    assert_eq!(split_lines("a\n"), texts(&["a"]));
    assert_eq!(split_lines("a\nb"), texts(&["a", "b"]));
    assert_eq!(split_lines("a\r\nb\r\n"), texts(&["a", "b"]));
    assert_eq!(split_lines("\n"), texts(&[""]));
    assert_eq!(split_lines("\n\n"), texts(&["", ""]));
    assert_eq!(split_lines("a\n\nb"), texts(&["a", "", "b"]));
    assert_eq!(split_lines("a\r"), texts(&["a\r"]));
    assert_eq!(split_lines("a\r\r\nb"), texts(&["a\r", "b"]));
    assert_eq!(split_lines("\r\n"), texts(&[""]));
    assert_eq!(split_lines("a\rb\nc"), texts(&["a\rb", "c"]));
}

#[test]
fn the_helpers_agree_with_the_standard_library() {
    for text in ["", "a", " a \n", "a\r\nb\r", "\n\nx\r\n\r\n", "\r", "  \u{A0}y\u{2009}\n z\t"] {
        let lines: Vec<String> = text.lines().map(|l| l.to_string()).collect();
        assert_eq!(split_lines(text), lines);
        assert_eq!(trimmed(text), text.trim());
        assert_eq!(blank(text), text.trim().is_empty());
    }
}

#[test]
fn the_answer_to_show_system_loses_echo_prompt_and_margins() {
    assert_eq!(
        clean_system_output("show system\r\nSystem: ESR-200\r\nUptime: 1 day\r\nesr-200# "),
        "System: ESR-200\nUptime: 1 day"
    );
    assert_eq!(
        clean_system_output("\r\n  \r\nshow system\r\n\r\nModel ESR-200\r\n\r\nSerial 1\r\nesr-200#"),
        "Model ESR-200\n\nSerial 1"
    );
    assert_eq!(clean_system_output(""), "");
    assert_eq!(clean_system_output("esr-200#"), "");
    assert_eq!(clean_system_output("show system\nesr-200#"), "");
    assert_eq!(clean_system_output("  Model ESR-200  "), "Model ESR-200");
    assert_eq!(
        clean_system_output("Model\nshow system\nesr-200# show system\nafter"),
        "Model\nshow system"
    );
    assert_eq!(clean_system_output("a\nb\n"), "a\nb");
    assert_eq!(clean_system_output("esr-200# show system\nModel\nesr-200#"), "Model");
}

fn cleaned_by_the_standard_library(response: &str) -> String {
    response
        .lines()
        .skip_while(|line| line.trim().is_empty() || line.contains("show system"))
        .take_while(|line| !line.contains("esr-200#"))
        .collect::<Vec<_>>()
        .join("\n")
        .trim()
        .to_string()
}

#[test]
fn cleaning_agrees_with_the_chain_of_standard_iterators() {
    for response in [
        "",
        "\n",
        "show system\r\nSystem: ESR-200\r\nUptime: 1 day\r\nesr-200# ",
        "\r\n\r\nshow system\r\n x \r\n\r\n y\r\n",
        "esr-200#\nleft out",
        " \n\t\n value \n esr-200# \n",
        "one\r",
    ] {
        assert_eq!(clean_system_output(response), cleaned_by_the_standard_library(response));
    }
}

#[test]
fn a_procedure_is_found_by_its_name_and_takes_its_parameters() {
    let params = vec![
        ("password".to_string(), "old".to_string()),
        ("username".to_string(), "admin".to_string()),
        ("new_password".to_string(), "new".to_string()),
        ("username".to_string(), "second".to_string()),
    ];
    match parse_operation("start_settings", &params) {
        Ok(Operation::StartSettings { username, password, new_password }) => {
            assert_eq!(username, "admin");
            assert_eq!(password, "old");
            assert_eq!(new_password, "new");
        }
        _ => panic!("start_settings has all its parameters"),
    }
    assert!(matches!(parse_operation("show_system", &params), Ok(Operation::ShowSystem)));
    assert!(matches!(parse_operation("show_system", &vec![]), Ok(Operation::ShowSystem)));
    match parse_operation("start_settings", &vec![]) {
        Err(error) => {
            assert_eq!(error, Error::ConfigValidation("Missing username parameter".to_string()))
        }
        Ok(_) => panic!("no parameter was given"),
    }
    match parse_operation("Show_System", &params) {
        Err(error) => assert_eq!(
            error,
            Error::ConfigValidation("Unknown operation 'Show_System' for Eltex ESR-200".to_string())
        ),
        Ok(_) => panic!("names are told apart by case"),
    }
}

#[test]
fn a_text_that_is_too_long_is_cut_and_ends_in_three_dots() {
    assert_eq!(truncate("eltex_router", 15), "eltex_router");
    assert_eq!(truncate("Eltex ESR-200 Main Router", 23), "Eltex ESR-200 Main R...");
    assert_eq!(truncate("abcdef", 6), "abcdef");
    assert_eq!(truncate("abcdefg", 6), "abc...");
    assert_eq!(truncate("abcd", 2), "...");
    assert_eq!(truncate("abcd", 3), "...");
    assert_eq!(truncate("", 0), "");
    assert_eq!(truncate("a", 0), "...");
    assert_eq!(truncate("Проверка маршрутизаторов", 22), "Проверка м...");
}
