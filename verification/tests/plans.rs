use namefmt::case::NamingStyle;
use namefmt::config::{
    default_exe_extensions, default_package_dirs, default_replace_spaces, get_default_config_toml,
    Behavior, Config, DetectionRules,
};
use namefmt::detect::{is_exe_or_package, PathInfo};
use namefmt::rename::{format_filename, format_filename_with};
use namefmt::stamp::{date_prefix, get_timestamp_prefix};

fn plain(extension: Option<&str>) -> PathInfo {
    PathInfo {
        extension: extension.map(|e| e.to_string()),
        is_dir: false,
        entries: Vec::new(),
        parent_entries: Some(Vec::new()),
    }
}

fn names(list: &[&str]) -> Vec<String> {
    list.iter().map(|n| n.to_string()).collect()
}

fn file_beside(list: &[&str]) -> PathInfo {
    PathInfo { extension: None, is_dir: false, entries: Vec::new(), parent_entries: Some(names(list)) }
}

fn dir_holding(list: &[&str]) -> PathInfo {
    PathInfo { extension: None, is_dir: true, entries: names(list), parent_entries: None }
}

fn rule(pattern: &str, style: NamingStyle) -> Behavior {
    Behavior { pattern: pattern.to_string(), style }
}

fn with_rules(behaviors: Vec<Behavior>) -> Config {
    Config { replace_spaces: true, behaviors, detection: DetectionRules::default() }
}

#[test]
fn defaults_are_as_documented() {
    assert!(default_replace_spaces());
    assert_eq!(default_exe_extensions(), vec!["exe", "bin", "app"]);
    assert_eq!(default_package_dirs(), vec!["package.json", "Cargo.toml", "pyproject.toml"]);
    let config = Config::default();
    assert!(config.replace_spaces);
    assert!(config.behaviors.is_empty());
    assert_eq!(config.detection.exe_extensions, vec!["exe", "bin", "app"]);
    assert_eq!(config.detection.package_dirs, vec!["package.json", "Cargo.toml", "pyproject.toml"]);
    let rules = DetectionRules::default();
    assert_eq!(rules.exe_extensions, vec!["exe", "bin", "app"]);
    assert_eq!(rules.package_dirs, vec!["package.json", "Cargo.toml", "pyproject.toml"]);
}

#[test]
fn default_config_text_is_as_documented() {
    assert_eq!(
        get_default_config_toml(),
        "replace_spaces = true\n\n[detection]\nexe_extensions = [\"exe\", \"bin\", \"app\"]\npackage_dirs = [\"package.json\", \"Cargo.toml\", \"pyproject.toml\"]\n"
    );
}

#[test]
fn spaces_are_replaced_by_default() {
    let config = Config::default();
    let planned = format_filename("My Cool File.txt", &config, &plain(Some("txt")), false);
    assert_eq!(planned, Some("My_Cool_File.txt".to_string()));
}

#[test]
fn spaces_stay_where_the_configuration_says_so() {
    let mut config = Config::default();
    config.replace_spaces = false;
    assert_eq!(format_filename("My File.txt", &config, &plain(Some("txt")), false), None);
}

#[test]
fn no_change_is_reported_as_none() {
    let config = Config::default();
    assert_eq!(format_filename("plain.txt", &config, &plain(Some("txt")), false), None);
    let config = with_rules(vec![rule("*.txt", NamingStyle::SnakeCase)]);
    assert_eq!(format_filename("already_snake.txt", &config, &plain(Some("txt")), false), None);
}

#[test]
fn a_matching_rule_stops_the_fallback() {
    let config = with_rules(vec![rule("*.md", NamingStyle::CamelCase)]);
    let planned = format_filename("read me.md", &config, &plain(Some("md")), false);
    assert_eq!(planned, Some("readMe.md".to_string()));
    let config = with_rules(vec![rule("keep", NamingStyle::KebabCase)]);
    assert_eq!(format_filename("keep-it", &config, &plain(None), false), None);
}

#[test]
fn first_matching_rule_wins() {
    let config = with_rules(vec![
        rule("*.rs", NamingStyle::SnakeCase),
        rule("My*", NamingStyle::KebabCase),
    ]);
    let planned = format_filename("MyModule.rs", &config, &plain(Some("rs")), false);
    assert_eq!(planned, Some("my_module.rs".to_string()));
    let config = with_rules(vec![
        rule("My*", NamingStyle::KebabCase),
        rule("*.rs", NamingStyle::SnakeCase),
    ]);
    let planned = format_filename("MyModule.rs", &config, &plain(Some("rs")), false);
    assert_eq!(planned, Some("my-module.rs".to_string()));
    let config = with_rules(vec![
        rule("*.py", NamingStyle::CamelCase),
        rule("*.rs", NamingStyle::SnakeCase),
    ]);
    let planned = format_filename("MyModule.rs", &config, &plain(Some("rs")), false);
    assert_eq!(planned, Some("my_module.rs".to_string()));
}

#[test]
fn package_files_get_kebab_case() {
    let config = with_rules(vec![rule("*.js", NamingStyle::SnakeCase)]);
    let path = PathInfo {
        extension: Some("js".to_string()),
        is_dir: false,
        entries: Vec::new(),
        parent_entries: Some(names(&["package.json"])),
    };
    assert!(is_exe_or_package(&path, &config));
    let planned = format_filename("My File.js", &config, &path, false);
    assert_eq!(planned, Some("my-file.js".to_string()));
}

#[test]
fn executables_get_kebab_case() {
    let config = with_rules(vec![rule("*", NamingStyle::SnakeCase)]);
    let path = plain(Some("EXE"));
    assert!(is_exe_or_package(&path, &config));
    let planned = format_filename("My Tool.EXE", &config, &path, false);
    assert_eq!(planned, Some("my-tool.-e-x-e".to_string()));
}

#[test]
fn detection_reads_extension_and_entries() {
    let config = Config::default();
    assert!(is_exe_or_package(&plain(Some("bin")), &config));
    assert!(is_exe_or_package(&plain(Some("App")), &config));
    assert!(!is_exe_or_package(&plain(Some("txt")), &config));
    assert!(!is_exe_or_package(&plain(None), &config));
    assert!(is_exe_or_package(&file_beside(&["README.md", "Cargo.toml"]), &config));
    assert!(is_exe_or_package(&file_beside(&["pyproject.toml"]), &config));
    assert!(!is_exe_or_package(&file_beside(&["README.md", "cargo.toml"]), &config));
    assert!(is_exe_or_package(&dir_holding(&["package.json"]), &config));
    assert!(!is_exe_or_package(&dir_holding(&["src"]), &config));
    let mut upper = Config::default();
    upper.detection.exe_extensions = vec!["EXE".to_string()];
    upper.detection.package_dirs = Vec::new();
    assert!(is_exe_or_package(&plain(Some("exe")), &upper));
    assert!(!is_exe_or_package(&file_beside(&["Cargo.toml"]), &upper));
}

#[test]
fn detection_looks_in_the_directory_or_in_the_parent() {
    let config = Config::default();
    let dir_in_package = PathInfo {
        extension: None,
        is_dir: true,
        entries: Vec::new(),
        parent_entries: Some(names(&["Cargo.toml"])),
    };
    assert!(!is_exe_or_package(&dir_in_package, &config));
    let file_with_stale_entries = PathInfo {
        extension: None,
        is_dir: false,
        entries: names(&["Cargo.toml"]),
        parent_entries: Some(Vec::new()),
    };
    assert!(!is_exe_or_package(&file_with_stale_entries, &config));
    let rootless = PathInfo {
        extension: None,
        is_dir: false,
        entries: Vec::new(),
        parent_entries: None,
    };
    assert!(!is_exe_or_package(&rootless, &config));
}

#[test]
fn date_prefix_has_fixed_width() {
    assert_eq!(date_prefix(2024, 3, 7), "2024_03_07__");
    assert_eq!(date_prefix(1999, 12, 31), "1999_12_31__");
    assert_eq!(date_prefix(987, 1, 1), "0987_01_01__");
    assert_eq!(date_prefix(0, 10, 20), "0000_10_20__");
}

#[test]
fn date_prefix_signs_years_beyond_four_digits() {
    assert_eq!(date_prefix(10000, 1, 1), "+10000_01_01__");
    assert_eq!(date_prefix(-1, 1, 1), "-0001_01_01__");
    assert_eq!(date_prefix(-12345, 6, 15), "-12345_06_15__");
    assert_eq!(date_prefix(i32::MIN, 6, 15), "-2147483648_06_15__");
}

#[test]
fn todays_prefix_has_the_shape_of_a_date() {
    let prefix = get_timestamp_prefix();
    let chars: Vec<char> = prefix.chars().collect();
    assert_eq!(chars.len(), 12);
    for (i, c) in chars.iter().enumerate() {
        if i == 4 || i == 7 || i == 10 || i == 11 {
            assert_eq!(*c, '_');
        } else {
            assert!(c.is_ascii_digit());
        }
    }
}

#[test]
fn prefix_is_put_before_the_base_name() {
    let config = Config::default();
    let path = plain(Some("txt"));
    let planned = format_filename_with("My File.txt", &config, &path, "2024_03_07__");
    assert_eq!(planned, Some("2024_03_07__My_File.txt".to_string()));
    let planned = format_filename_with("plain.txt", &config, &path, "2024_03_07__");
    assert_eq!(planned, Some("2024_03_07__plain.txt".to_string()));
    assert_eq!(format_filename_with("plain.txt", &config, &path, ""), None);
}

#[test]
fn timestamp_always_renames() {
    let config = Config::default();
    let path = plain(Some("txt"));
    let planned = format_filename("plain.txt", &config, &path, true).unwrap();
    assert_eq!(planned.len(), 12 + "plain.txt".len());
    assert!(planned.ends_with("__plain.txt"));
    let planned = format_filename("My File.txt", &config, &path, true).unwrap();
    assert!(planned.ends_with("__My_File.txt"));
}

#[test]
fn date_prefix_agrees_with_chrono() {
    let dates = [(2024, 3, 7), (1970, 1, 1), (999, 12, 31), (0, 2, 29), (9999, 12, 31),
        (10000, 1, 1), (-1, 5, 5), (-9999, 10, 10), (-10000, 10, 10), (123456, 7, 8)];
    for (year, month, day) in dates {
        let date = chrono::NaiveDate::from_ymd_opt(year, month, day).unwrap();
        let expected = format!("{}__", date.format("%Y_%m_%d"));
        assert_eq!(date_prefix(year, month, day), expected);
    }
}

#[test]
fn todays_prefix_agrees_with_chrono() {
    let before = format!("{}__", chrono::Utc::now().format("%Y_%m_%d"));
    let prefix = get_timestamp_prefix();
    let after = format!("{}__", chrono::Utc::now().format("%Y_%m_%d"));
    assert!(prefix == before || prefix == after);
}
