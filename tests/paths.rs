use vittusave::paths::{replace_path_abbrs, ExpansionParams};

const LOCALAPPDATA: &str = "C:\\Users\\matheus\\AppData\\Local";
const HOME_MAC: &str = "/Users/matheus";
const HOME_LINUX: &str = "/home/matheus";
const STEAM_FOLDER: &str = "/home/matheus/.local/share/Steam";
const XDG_CONFIG_HOME: &str = "/home/matheus/special/.config";
const USER_ID: u64 = 69;

fn params() -> ExpansionParams {
    ExpansionParams {
        install_dir: STEAM_FOLDER.to_string(),
        user_id: USER_ID,
    }
}

fn env(vars: &[(&str, &str)]) -> Vec<(String, String)> {
    vars.iter()
        .map(|(k, v)| (k.to_string(), v.to_string()))
        .collect()
}

fn check_samples() {
    let windows_sample = r#"%LOCALAPPDATA%\UNDERTALE\"#;
    let mac_sample = "$HOME/Library/Application Support/com.tobyfox.undertale/";
    let linux_sample = "$HOME/.config/UNDERTALE/";

    let sample4 = "<Steam-folder>/userdata/<user-id>/391540/remote/";
    let sample5 = "$XDG_CONFIG_HOME/sample5";

    let windows_correct = LOCALAPPDATA.to_string() + r#"\UNDERTALE\"#;
    let mac_correct = HOME_MAC.to_string() + "/Library/Application Support/com.tobyfox.undertale/";
    let linux_correct = HOME_LINUX.to_string() + "/.config/UNDERTALE/";

    let correct4 = STEAM_FOLDER.to_string() + "/userdata/" + &USER_ID.to_string() + "/391540/remote/";
    let correct5_undefined = HOME_LINUX.to_string() + "/.config/sample5";
    let correct5_defined = XDG_CONFIG_HOME.to_string() + "/sample5";

    let first = env(&[("%localappdata%", LOCALAPPDATA), ("HOME", HOME_MAC)]);
    assert_eq!(
        replace_path_abbrs(windows_sample, "windows", &params(), &first),
        Some(windows_correct)
    );
    assert_eq!(
        replace_path_abbrs(mac_sample, "macos", &params(), &first),
        Some(mac_correct)
    );
    let linux = env(&[("%localappdata%", LOCALAPPDATA), ("HOME", HOME_LINUX)]);
    assert_eq!(
        replace_path_abbrs(linux_sample, "linux", &params(), &linux),
        Some(linux_correct)
    );
    assert_eq!(
        replace_path_abbrs(sample4, "linux", &params(), &linux),
        Some(correct4)
    );
    let with_xdg = env(&[("HOME", HOME_LINUX), ("XDG_CONFIG_HOME", XDG_CONFIG_HOME)]);
    assert_eq!(
        replace_path_abbrs(sample5, "linux", &params(), &with_xdg),
        Some(correct5_defined)
    );
    let without_xdg = env(&[("HOME", HOME_LINUX)]);
    assert_eq!(
        replace_path_abbrs(sample5, "linux", &params(), &without_xdg),
        Some(correct5_undefined)
    );
    let without_home = env(&[("%localappdata%", LOCALAPPDATA)]);
    assert_eq!(
        replace_path_abbrs(linux_sample, "linux", &params(), &without_home),
        None
    );
}

#[test]
fn utils_test_replace_path_abbrs() {
    check_samples();
}

#[test]
fn game_data_test_replace_path_abbrs() {
    check_samples();
}

#[test]
fn unknown_system_expands_nothing() {
    assert_eq!(replace_path_abbrs("plain/path", "haiku", &params(), &env(&[])), None);
}

#[test]
fn path_without_placeholders_is_kept() {
    assert_eq!(
        replace_path_abbrs("saves/slot1", "linux", &params(), &env(&[])),
        Some("saves/slot1".to_string())
    );
}

#[test]
fn windows_placeholder_in_lower_case_is_found() {
    let vars = env(&[("%appdata%", "C:\\Roaming")]);
    assert_eq!(
        replace_path_abbrs("%appdata%\\Game", "windows", &params(), &vars),
        Some("C:\\Roaming\\Game".to_string())
    );
}

#[test]
fn windows_variable_is_named_in_lower_case() {
    let vars = env(&[("%APPDATA%", "C:\\Wrong")]);
    assert_eq!(replace_path_abbrs("%APPDATA%\\Game", "windows", &params(), &vars), None);
}

#[test]
fn only_first_occurrence_is_replaced() {
    let vars = env(&[("HOME", "/h")]);
    assert_eq!(
        replace_path_abbrs("$HOME/$HOME", "linux", &params(), &vars),
        Some("/h/$HOME".to_string())
    );
}

#[test]
fn user_id_is_written_in_decimal() {
    let big = ExpansionParams {
        install_dir: "S".to_string(),
        user_id: u64::MAX,
    };
    assert_eq!(
        replace_path_abbrs("<user-id>", "linux", &big, &env(&[])),
        Some("18446744073709551615".to_string())
    );
    let zero = ExpansionParams {
        install_dir: "S".to_string(),
        user_id: 0,
    };
    assert_eq!(
        replace_path_abbrs("a/<user-id>/b", "macos", &zero, &env(&[])),
        Some("a/0/b".to_string())
    );
}

#[test]
fn data_home_defaults_under_home() {
    let vars = env(&[("HOME", "/home/u")]);
    assert_eq!(
        replace_path_abbrs("$XDG_DATA_HOME/game", "linux", &params(), &vars),
        Some("/home/u/.local/share/game".to_string())
    );
}

#[test]
fn first_entry_of_a_variable_counts() {
    let vars = env(&[("HOME", "/first"), ("HOME", "/second")]);
    assert_eq!(
        replace_path_abbrs("$HOME", "macos", &params(), &vars),
        Some("/first".to_string())
    );
}
