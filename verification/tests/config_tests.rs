use brf::config::{Action, Config};

fn args_of(dir: &str, second: &str) -> Vec<String> {
    vec!["brf".to_string(), dir.to_string(), second.to_string()]
}

#[test]
fn init_uppercase_flags() {
    for flag in ["-uppercase", "-u"] {
        let config = Config::init(&args_of("./files", flag));
        assert_eq!(config.text_format, Action::Uppercase);
        assert_eq!(config.dir_path, "./files");
        assert_eq!(config.file_name, "");
    }
}

#[test]
fn init_lowercase_flags() {
    for flag in ["-lowercase", "-l"] {
        let config = Config::init(&args_of("./files", flag));
        assert_eq!(config.text_format, Action::Lowercase);
        assert_eq!(config.file_name, "");
    }
}

#[test]
fn init_first_letter_uppercase_flags() {
    for flag in ["-first-letter-uppercase", "-U"] {
        let config = Config::init(&args_of("./files", flag));
        assert_eq!(config.text_format, Action::FirstLetterUppercase);
        assert_eq!(config.file_name, "");
    }
}

#[test]
fn init_first_letter_lowercase_flags() {
    for flag in ["-first-letter-lowercase", "-L"] {
        let config = Config::init(&args_of("./files", flag));
        assert_eq!(config.text_format, Action::FirstLetterLowercase);
        assert_eq!(config.file_name, "");
    }
}

#[test]
fn init_prefix_token_selects_sequential_rename() {
    let config = Config::init(&args_of("./photos", "img"));
    assert_eq!(config.text_format, Action::Rename);
    assert_eq!(config.dir_path, "./photos");
    assert_eq!(config.file_name, "img");
}

#[test]
fn init_flag_match_is_case_sensitive() {
    // `-Uppercase` is no recognized flag, so it becomes a rename prefix.
    let config = Config::init(&args_of(".", "-Uppercase"));
    assert_eq!(config.text_format, Action::Rename);
    assert_eq!(config.file_name, "-Uppercase");
}
