use wrapperize::pacman_hook::{
    generate_install_and_update, generate_removal, get_hook_path, get_install_script_path,
    trim_path_root, Action, HOOK_DIR,
};
use wrapperize::path::Escaped;
use wrapperize::wrapper::GeneratedPaths;

#[test]
fn test_absolute() {
    let input = "/home/user/file";
    let expected = "home/user/file";
    assert_eq!(trim_path_root(input), expected);
}

#[test]
fn test_relative() {
    let input = "relative/path";
    assert_eq!(trim_path_root(input), "relative/path");
}

fn test_get_hook_path_helper(binary_name: &str, action: Action, expected_suffix: &str) {
    let expected_program_name = "wrapperize";
    let expected_path = format!(
        "{}/{}-{}-{}.hook",
        HOOK_DIR, binary_name, expected_program_name, expected_suffix
    );

    let result = get_hook_path(binary_name, expected_program_name, action);
    assert_eq!(result, expected_path);
}

#[test]
fn test_install_or_update() {
    test_get_hook_path_helper("test_binary", Action::InstallOrUpdate, "install");
}

#[test]
fn test_removal() {
    test_get_hook_path_helper("test_binary", Action::Removal, "remove");
}

#[test]
fn test_generate_install_and_update() {
    let bin_info = GeneratedPaths {
        wrapped_path: Escaped::new("/usr/bin/test_executable"),
        wrapped_filename: "test_executable".to_string(),
        unwrapped_path: Escaped::new("/usr/bin/original_executable"),
    };

    let hook_script_path = "/etc/test_script.sh";

    let result = generate_install_and_update(&bin_info, hook_script_path);

    let expected = "[Trigger]\n\
                    Type = File\n\
                    Operation = Install\n\
                    Operation = Upgrade\n\
                    Target = usr/bin/test_executable\n\
                    \n\
                    [Action]\n\
                    Description = Wrapping test_executable executable...\n\
                    When = PostTransaction\n\
                    Exec = /etc/test_script.sh\n";

    assert_eq!(result, expected);
}

#[test]
fn test_generate_removal() {
    let bin_info = GeneratedPaths {
        wrapped_path: Escaped::new("/usr/bin/wrapped_exec"),
        wrapped_filename: "wrapped_exec".to_string(),
        unwrapped_path: Escaped::new("/usr/bin/original_exec"),
    };

    let result = generate_removal(&bin_info, "wrapperize");

    let expected = "[Trigger]\n\
                    Type = File\n\
                    Operation = Remove\n\
                    Target = usr/bin/wrapped_exec\n\
                    \n\
                    [Action]\n\
                    Description = Removing traces of wrapper for wrapped_exec executable...\n\
                    When = PostTransaction\n\
                    Exec = /usr/bin/rm \"/etc/pacman.d/hooks/wrapped_exec-wrapperize-install.hook\" \"/etc/pacman.d/hooks/wrapped_exec-wrapperize-remove.hook\" \"/etc/pacman.d/hooks/wrapped_exec-wrapperize-install.sh\" \"/usr/bin/original_exec\"\n";

    assert_eq!(result, expected);
}

#[test]
fn hook_paths_for_the_two_actions_differ() {
    let install = get_hook_path("foo", "wrapperize", Action::InstallOrUpdate);
    let remove = get_hook_path("foo", "wrapperize", Action::Removal);
    assert_ne!(install, remove);

    let install_again = get_hook_path("foo", "wrapperize", Action::InstallOrUpdate);
    assert_eq!(install, install_again);
}

#[test]
fn install_script_path_shares_the_hook_stem() {
    let hook = get_hook_path("foo", "wrapperize", Action::InstallOrUpdate);
    let script = get_install_script_path("foo", "wrapperize");
    assert_eq!(hook, "/etc/pacman.d/hooks/foo-wrapperize-install.hook");
    assert_eq!(script, "/etc/pacman.d/hooks/foo-wrapperize-install.sh");
}

#[test]
fn install_hook_for_usr_bin_foo() {
    let paths = GeneratedPaths::try_from_path("/usr/bin/foo").expect("path should resolve");
    let script_path = get_install_script_path("foo", "wrapperize");
    let hook = generate_install_and_update(&paths, &script_path);

    let expected = "[Trigger]\n\
                    Type = File\n\
                    Operation = Install\n\
                    Operation = Upgrade\n\
                    Target = usr/bin/foo\n\
                    \n\
                    [Action]\n\
                    Description = Wrapping foo executable...\n\
                    When = PostTransaction\n\
                    Exec = /etc/pacman.d/hooks/foo-wrapperize-install.sh\n";
    assert_eq!(hook, expected);
}

#[test]
fn removal_hook_names_every_artifact() {
    let paths = GeneratedPaths::try_from_path("/usr/bin/foo").expect("path should resolve");
    let hook = generate_removal(&paths, "wrapperize");

    assert!(hook.contains("\"/etc/pacman.d/hooks/foo-wrapperize-install.hook\""));
    assert!(hook.contains("\"/etc/pacman.d/hooks/foo-wrapperize-remove.hook\""));
    assert!(hook.contains("\"/etc/pacman.d/hooks/foo-wrapperize-install.sh\""));
    assert!(hook.contains("\"/usr/bin/.foo-unwrapped\""));
}

#[test]
fn hook_target_keeps_quotes_escaped() {
    let paths = GeneratedPaths::try_from_path("/usr/bin/odd\"name").expect("path should resolve");
    let hook = generate_removal(&paths, "wrapperize");
    assert!(hook.contains("\"/usr/bin/.odd\\\"name-unwrapped\""));
}
