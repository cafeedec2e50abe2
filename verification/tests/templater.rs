use xcopr::template::escape_paths;
use xcopr::template::render_command;
use xcopr::template::replace_token;

fn path_list(items: &[&str]) -> Vec<String> {
    items.iter().map(|p| p.to_string()).collect()
}

#[test]
fn renders_two_plain_paths() {
    let command = render_command("wc -l {}", "{}", &path_list(&["/tmp/a", "/tmp/b"]));
    assert_eq!(command, "wc -l /tmp/a /tmp/b");
}

#[test]
fn quotes_a_path_with_a_space() {
    let command = render_command("wc -l {}", "{}", &path_list(&["/tmp/a b"]));
    assert_eq!(command, "wc -l '/tmp/a b'");
    let both = render_command("wc -l {}", "{}", &path_list(&["/tmp/a b", "/tmp/c"]));
    assert_eq!(both, "wc -l '/tmp/a b' /tmp/c");
}

#[test]
fn template_without_the_token_is_unchanged() {
    let command = render_command("echo hello", "{}", &path_list(&["/tmp/a"]));
    assert_eq!(command, "echo hello");
    assert_eq!(replace_token("echo {", "{}", "x"), "echo {");
    assert_eq!(replace_token("", "{}", "x"), "");
}

#[test]
fn every_occurrence_is_replaced() {
    let command = render_command("cat {} | diff - {}", "{}", &path_list(&["/tmp/a"]));
    assert_eq!(command, "cat /tmp/a | diff - /tmp/a");
    assert_eq!(replace_token("{}{}", "{}", "ab"), "abab");
    assert_eq!(replace_token("x{}", "{}", ""), "x");
}

#[test]
fn occurrences_do_not_overlap() {
    assert_eq!(replace_token("aaa", "aa", "b"), "ba");
    assert_eq!(replace_token("aaaa", "aa", "b"), "bb");
    assert_eq!(replace_token("ababa", "aba", "x"), "xba");
}

#[test]
fn replacement_is_not_searched_again() {
    assert_eq!(replace_token("a", "a", "aa"), "aa");
    assert_eq!(replace_token("{}", "{}", "{}{}"), "{}{}");
}

#[test]
fn empty_token_stands_before_every_character() {
    assert_eq!(replace_token("ab", "", "-"), "-a-b-");
    assert_eq!(replace_token("", "", "-"), "-");
}

#[test]
fn replace_agrees_with_the_standard_library() {
    let texts = ["", "a", "ab", "aaa", "abcabc", "wc -l {}", "{}{}", "{ }", "héllo wörld", "ababab"];
    let tokens = ["", "a", "ab", "aa", "{}", "abc", "ö", "b", "ba"];
    let fills = ["", "x", "/tmp/a /tmp/b", "aa", "{}"];
    for text in texts {
        for token in tokens {
            for fill in fills {
                assert_eq!(replace_token(text, token, fill), text.replace(token, fill));
            }
        }
    }
}

#[test]
fn plain_paths_are_left_alone() {
    let plain = "abcdefghijklmnopqrstuvwxyzABCDEFGHIJKLMNOPQRSTUVWXYZ0123456789-_=/,.+";
    assert_eq!(escape_paths(&path_list(&[plain])), plain);
    assert_eq!(escape_paths(&path_list(&["--aaa=bbb-ccc"])), "--aaa=bbb-ccc");
}

#[test]
fn other_paths_are_quoted() {
    assert_eq!(
        escape_paths(&path_list(&["linker=gcc -L/foo -Wl,bar"])),
        "'linker=gcc -L/foo -Wl,bar'"
    );
    assert_eq!(
        escape_paths(&path_list(&["--features=\"default\""])),
        "'--features=\"default\"'"
    );
    assert_eq!(escape_paths(&path_list(&["/tmp/$HOME"])), "'/tmp/$HOME'");
    assert_eq!(escape_paths(&path_list(&["/tmp/é"])), "'/tmp/é'");
    assert_eq!(escape_paths(&path_list(&["a\nb"])), "'a\nb'");
}

#[test]
fn quotes_and_exclamation_marks_leave_the_quotes() {
    assert_eq!(escape_paths(&path_list(&["it's"])), "'it'\\''s'");
    assert_eq!(escape_paths(&path_list(&["hi!"])), "'hi'\\!''");
    assert_eq!(
        escape_paths(&path_list(&["'!\\$`\\\\\\n "])),
        "''\\'''\\!'\\$`\\\\\\n '"
    );
}

#[test]
fn empty_path_is_an_empty_word() {
    assert_eq!(escape_paths(&path_list(&[""])), "''");
    assert_eq!(escape_paths(&path_list(&["", ""])), "'' ''");
}

#[test]
fn no_paths_give_no_words() {
    assert_eq!(escape_paths(&path_list(&[])), "");
    assert_eq!(render_command("wc -l {}", "{}", &path_list(&[])), "wc -l ");
}

#[test]
fn paths_are_joined_by_one_space() {
    assert_eq!(escape_paths(&path_list(&["a", "b", "c"])), "a b c");
    assert_eq!(escape_paths(&path_list(&["a b", "c d"])), "'a b' 'c d'");
}
