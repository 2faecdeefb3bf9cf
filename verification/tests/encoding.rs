use daemon_spawn::encoding::environment::compare_names;
use daemon_spawn::encoding::environment::environment;
use daemon_spawn::encoding::environment::Environment;
use daemon_spawn::encoding::environment::Override;
use daemon_spawn::encoding::environment::Variable;
use daemon_spawn::encoding::environment::EQUALS;
use daemon_spawn::encoding::quoting::append_quoted_arg;
use daemon_spawn::encoding::quoting::command_line;
use daemon_spawn::encoding::text::encodes_text;
use daemon_spawn::encoding::text::push_ascii;
use daemon_spawn::encoding::text::repair;
use daemon_spawn::encoding::wide::has_nul;
use daemon_spawn::encoding::wide::push_units;
use daemon_spawn::encoding::wide::wide;
use daemon_spawn::Failure;
use std::cmp::Ordering;

fn units(text: &str) -> Vec<u16> {
    text.encode_utf16().collect()
}

fn line(program: &str, arguments: &[&str]) -> Result<Vec<u16>, Failure> {
    let arguments: Vec<Vec<u16>> = arguments.iter().map(|text| units(text)).collect();
    command_line(&units(program), &arguments)
}

fn variable(name: &str, value: &str) -> Variable {
    Variable {
        name: units(name),
        value: units(value),
    }
}

fn set(name: &str, value: &[u16]) -> Override {
    Override {
        name: units(name),
        value: Some(value.to_vec()),
    }
}

fn unset(name: &str) -> Override {
    Override {
        name: units(name),
        value: None,
    }
}

/// Compares as the system does: 1, 2 or 3 for less, equal or greater.
fn ordinal(left: &[u16], right: &[u16]) -> i32 {
    let upper = |name: &[u16]| String::from_utf16_lossy(name).to_uppercase();
    match upper(left).cmp(&upper(right)) {
        Ordering::Less => 1,
        Ordering::Equal => 2,
        Ordering::Greater => 3,
    }
}

fn answered(
    inherited: Vec<Variable>,
    overrides: Vec<Override>,
    compare: fn(&[u16], &[u16]) -> i32,
) -> Environment {
    let mut request = Environment::new(inherited, overrides);
    loop {
        let answer = match request.question() {
            Some((left, right)) => compare(left, right),
            None => return request,
        };
        request.answer(answer);
    }
}

fn block(inherited: Vec<Variable>, overrides: Vec<Override>) -> Result<Vec<u16>, Failure> {
    environment(&answered(inherited, overrides, ordinal))
}

#[test]
fn arguments_preserve_empty_values_quotes_and_trailing_slashes() {
    let expected = format!(
        "{}{}",
        "\"C:\\path with spaces\\codex.exe\"",
        " \"\" \"a b\" \"a\\\"b\" \"x\\\\\" \"x\\\\\\\"y\"\0",
    );
    assert_eq!(
        line(
            r"C:\path with spaces\codex.exe",
            &["", "a b", "a\"b", "x\\", "x\\\"y"]
        )
        .unwrap(),
        units(&expected)
    );
}

#[test]
fn windows_strings_keep_unpaired_surrogates() {
    let value = vec![0xD800, b'x' as u16];
    assert_eq!(wide(&value).unwrap(), vec![0xD800, b'x' as u16, 0]);
    let mut expected = units("\"codex.exe\" \"");
    expected.extend([0xD800, b'x' as u16, b'"' as u16, 0]);
    assert_eq!(
        command_line(&units("codex.exe"), &vec![value]).unwrap(),
        expected
    );
}

#[test]
fn embedded_nul_and_overlong_command_lines_are_rejected() {
    assert!(wide(&units("a\0b")).is_err());
    assert!(line("codex.exe", &["a\0b"]).is_err());
    assert!(line("codex.exe", &[&"x".repeat(32767)]).is_err());
}

#[test]
fn environment_overrides_are_case_insensitive_and_lossless() {
    let value = vec![b'x' as u16, 0xD800];
    let inherited = || vec![variable("path", "inherited"), variable("HOME", "here")];
    let is_path = |entry: &[u16]| {
        entry.len() >= 5 && String::from_utf16_lossy(&entry[..5]).eq_ignore_ascii_case("path=")
    };
    let overrides = vec![set("PATH", &units("first")), set("Path", &value)];
    let found = block(inherited(), overrides).unwrap();
    assert_eq!(&found[found.len() - 2..], &[0, 0]);
    let paths: Vec<_> = found
        .split(|unit| *unit == 0)
        .filter(|entry| is_path(entry))
        .map(|entry| entry[5..].to_vec())
        .collect();
    assert_eq!(paths, vec![value.clone()]);
    let overrides = vec![
        set("PATH", &units("first")),
        set("Path", &value),
        unset("pAtH"),
    ];
    let found = block(inherited(), overrides).unwrap();
    assert!(!found.split(|unit| *unit == 0).any(|entry| is_path(entry)));
}

#[test]
fn nul_is_named_by_where_it_stands() {
    assert_eq!(wide(&units("a\0b")), Err(Failure::NulInParameter));
    assert_eq!(line("a\0b", &[]), Err(Failure::NulInCommandLine));
    assert_eq!(line("a", &["\0"]), Err(Failure::NulInCommandLine));
    assert_eq!(
        line("a", &[&"x".repeat(32767)]),
        Err(Failure::CommandLineTooLong)
    );
    assert_eq!(
        line("a", &[&"x".repeat(40000), "\0"]),
        Err(Failure::NulInCommandLine)
    );
    assert!(has_nul(&[1, 0]));
    assert!(!has_nul(&[1, 2]));
}

#[test]
fn longest_command_line_is_accepted() {
    // Two quotes around each of two words and a space make five units.
    let fits = line("p", &[&"x".repeat(32766 - 6)]).unwrap();
    assert_eq!(fits.len(), 32767);
    assert!(line("p", &[&"x".repeat(32767 - 6)]).is_err());
}

#[test]
fn runs_of_backslashes_are_doubled_only_before_quotes() {
    let mut built = units("go ");
    append_quoted_arg(&mut built, &units(r#"a\\b\\"c\\"#)).unwrap();
    assert_eq!(built, units(r#"go "a\\b\\\\\"c\\\\""#));
    assert_eq!(
        append_quoted_arg(&mut built, &[92, 0]),
        Err(Failure::NulInCommandLine)
    );
    assert_eq!(built, units(r#"go "a\\b\\\\\"c\\\\"""#));
}

/// Takes a command line apart by the rules of the C runtime.
fn take_apart(line: &[u16]) -> Vec<Vec<u16>> {
    let (quote, slash, space) = (b'"' as u16, b'\\' as u16, b' ' as u16);
    let mut found: Vec<Vec<u16>> = Vec::new();
    let mut current: Option<Vec<u16>> = None;
    let mut inside = false;
    let mut i = 0;
    while i < line.len() {
        let mut slashes = 0;
        while i < line.len() && line[i] == slash {
            slashes += 1;
            i += 1;
        }
        let mut argument = current.take();
        if i < line.len() && line[i] == quote {
            let grown = argument.get_or_insert_with(Vec::new);
            grown.extend(vec![slash; slashes / 2]);
            if slashes % 2 == 1 {
                grown.push(quote);
            } else {
                inside = !inside;
            }
            i += 1;
        } else {
            if slashes > 0 {
                argument
                    .get_or_insert_with(Vec::new)
                    .extend(vec![slash; slashes]);
            }
            if i < line.len() {
                if line[i] == space && !inside {
                    found.extend(argument.take());
                } else {
                    argument.get_or_insert_with(Vec::new).push(line[i]);
                }
                i += 1;
            }
        }
        current = argument;
    }
    found.extend(current);
    found
}

#[test]
fn command_line_is_taken_apart_into_its_words() {
    let words = [
        r"C:\Program Files\x",
        "",
        r#"""#,
        r"\",
        r#"\\"\"#,
        " a  b ",
        r#"a\"b"#,
    ];
    let mut built = line(words[0], &words[1..]).unwrap();
    assert_eq!(built.pop(), Some(0));
    let expected: Vec<Vec<u16>> = words.iter().map(|word| units(word)).collect();
    assert_eq!(take_apart(&built), expected);
}

#[test]
fn names_are_compared_by_the_answer_or_by_their_units() {
    let (a, b) = (units("a"), units("b"));
    assert_eq!(compare_names(&b, &a, 1), Ordering::Less);
    assert_eq!(compare_names(&b, &a, 2), Ordering::Equal);
    assert_eq!(compare_names(&a, &b, 3), Ordering::Greater);
    assert_eq!(compare_names(&a, &b, 0), Ordering::Less);
    assert_eq!(compare_names(&b, &a, 0), Ordering::Greater);
    assert_eq!(compare_names(&a, &a, 7), Ordering::Equal);
    assert_eq!(compare_names(&a, &units("ab"), 0), Ordering::Less);
    assert_eq!(compare_names(&units("ab"), &a, -1), Ordering::Greater);
}

#[test]
fn questions_cover_every_pair_in_turn() {
    let mut request = Environment::new(vec![variable("a", "1")], vec![unset("b")]);
    let mut asked = Vec::new();
    loop {
        match request.question() {
            Some((left, right)) => asked.push((left.to_vec(), right.to_vec())),
            None => break,
        }
        request.answer(1);
    }
    let (a, b) = (units("a"), units("b"));
    assert_eq!(
        asked,
        vec![
            (a.clone(), a.clone()),
            (a.clone(), b.clone()),
            (b.clone(), a),
            (b.clone(), b)
        ]
    );
}

#[test]
fn block_is_sorted_and_ties_keep_their_order() {
    let inherited = vec![
        variable("zeta", "1"),
        variable("=C:", r"C:\"),
        variable("Alpha", "2"),
        variable("ALPHA", "3"),
    ];
    let found = block(inherited, vec![set("Mid", &units("4"))]).unwrap();
    let expected = "=C:=C:\\\0Alpha=2\0ALPHA=3\0Mid=4\0zeta=1\0\0";
    assert_eq!(found, units(expected));
    assert_eq!(EQUALS, b'=' as u16);
}

#[test]
fn empty_environment_is_two_nuls() {
    assert_eq!(block(vec![], vec![]).unwrap(), vec![0, 0]);
    assert_eq!(
        block(vec![variable("a", "b")], vec![unset("A")]).unwrap(),
        vec![0, 0]
    );
}

#[test]
fn nul_counts_only_in_variables_that_stay() {
    let bad = || vec![variable("a", "x\0y"), variable("b", "c")];
    assert_eq!(block(bad(), vec![]), Err(Failure::NulInParameter));
    assert_eq!(
        block(vec![variable("a\0", "x")], vec![]),
        Err(Failure::NulInParameter)
    );
    assert_eq!(
        block(bad(), vec![set("A", &units("fine"))]).unwrap(),
        units("A=fine\0b=c\0\0")
    );
}

#[test]
fn failed_comparisons_fall_back_to_the_units() {
    let inherited = vec![variable("b", "1"), variable("B", "2"), variable("a", "3")];
    let request = answered(inherited, vec![set("b", &units("4"))], |_, _| 0);
    assert_eq!(environment(&request).unwrap(), units("B=2\0a=3\0b=4\0\0"));
}

#[test]
fn removal_then_setting_leaves_the_setting() {
    let overrides = vec![unset("X"), set("x", &units("new")), unset("y")];
    let inherited = vec![variable("x", "old"), variable("Y", "gone")];
    assert_eq!(block(inherited, overrides).unwrap(), units("x=new\0\0"));
}

#[test]
fn half_characters_are_found_and_replaced() {
    assert!(encodes_text(&units("S-1-5 \u{1F600}")));
    assert!(!encodes_text(&[0xD83D]));
    assert!(!encodes_text(&[0xDE00, 0xD83D]));
    assert!(!encodes_text(&[0x61, 0xD83D, 0x62]));
    for sample in [
        vec![0xD83D, 0xDE00, 0x61],
        vec![0xDE00, 0xD83D, 0xD83D, 0xDE00],
        vec![0x61, 0xD800],
        vec![],
    ] {
        assert_eq!(repair(&sample), units(&String::from_utf16_lossy(&sample)));
    }
    let mut text = units("a");
    push_ascii(&mut text, "b;");
    push_units(&mut text, &[0xD800]);
    assert_eq!(text, vec![0x61, 0x62, 0x3B, 0xD800]);
}

#[test]
fn different_commands_have_different_lines() {
    let lines = [
        line("a", &["b c"]),
        line("a", &["b", "c"]),
        line("a", &["b", "", "c"]),
        line("a b", &["c"]),
        line("a", &["b\" \"c"]),
    ];
    for (i, left) in lines.iter().enumerate() {
        for right in &lines[i + 1..] {
            assert_ne!(left, right);
        }
    }
}

#[test]
fn plain_program_name_stands_between_quotes() {
    let built = line(r"C:\a b\c.exe", &["x\\"]).unwrap();
    let name: Vec<u16> = built[1..]
        .iter()
        .copied()
        .take_while(|unit| *unit != b'"' as u16)
        .collect();
    assert_eq!(name, units(r"C:\a b\c.exe"));
}

#[test]
fn block_is_read_back_entry_by_entry() {
    let inherited = vec![variable("B", "x=y"), variable("=D:", r"D:\tmp")];
    let found = block(inherited, vec![set("A", &[])]).unwrap();
    let entries: Vec<Vec<u16>> = found[..found.len() - 2]
        .split(|unit| *unit == 0)
        .map(|entry| entry.to_vec())
        .collect();
    assert_eq!(
        entries,
        vec![units(r"=D:=D:\tmp"), units("A="), units("B=x=y")]
    );
}
