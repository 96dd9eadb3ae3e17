use wrapperize::env::Variable;
use wrapperize::error::WrapError;
use wrapperize::script::WrapperParams;
use wrapperize::wrapper::{create, GeneratedPaths, InstallScript};

#[test]
fn resolve_derives_hidden_path_and_filename() {
    let paths = GeneratedPaths::try_from_path("/usr/bin/foo").expect("path should resolve");
    assert_eq!(paths.wrapped_path.original, "/usr/bin/foo");
    assert_eq!(paths.wrapped_filename, "foo");
    assert_eq!(paths.unwrapped_path.original, "/usr/bin/.foo-unwrapped");
}

#[test]
fn resolve_keeps_relative_paths_relative() {
    let paths = GeneratedPaths::try_from_path("foo").expect("path should resolve");
    assert_eq!(paths.wrapped_filename, "foo");
    assert_eq!(paths.unwrapped_path.original, ".foo-unwrapped");
}

#[test]
fn resolve_escapes_quotes_in_paths() {
    let paths = GeneratedPaths::try_from_path("/usr/bin/odd\"name").expect("path should resolve");
    assert_eq!(paths.wrapped_path.escaped, "/usr/bin/odd\\\"name");
    assert_eq!(paths.unwrapped_path.escaped, "/usr/bin/.odd\\\"name-unwrapped");
}

#[test]
fn resolve_rejects_paths_without_filename() {
    assert_eq!(
        GeneratedPaths::try_from_path("/").unwrap_err(),
        WrapError::InvalidPath
    );
    assert_eq!(
        GeneratedPaths::try_from_path("").unwrap_err(),
        WrapError::InvalidPath
    );
    assert_eq!(
        GeneratedPaths::try_from_path("/usr/bin/").unwrap_err(),
        WrapError::InvalidPath
    );
    assert_eq!(
        GeneratedPaths::try_from_path("/usr/bin/..").unwrap_err(),
        WrapError::InvalidPath
    );
}

#[test]
fn wrap_with_hooks_produces_all_five_artifacts() {
    let paths = GeneratedPaths::try_from_path("/usr/bin/foo").expect("path should resolve");
    let params = WrapperParams {
        args: vec!["--flag".to_string()],
        env_vars: vec![Variable::parse("FOO=bar").expect("env parsing should succeed")],
    };

    let plan = create(&paths, &params, true, "wrapperize", false).expect("wrap should succeed");

    let expected_wrapper = "#!/usr/bin/env bash\n\
                            export FOO=\"bar\"\n\
                            exec \"/usr/bin/.foo-unwrapped\" \"--flag\" \"$@\"\n";
    let expected_installer = format!(
        "#!/usr/bin/env bash\n\
         set -e\n\
         mv \"/usr/bin/foo\" \"/usr/bin/.foo-unwrapped\"\n\
         printf '%s' '{}' > \"/usr/bin/foo\"\n\
         chmod +x \"/usr/bin/foo\"\n",
        expected_wrapper
    );

    match &plan.install_script {
        InstallScript::Saved { path, content } => {
            assert_eq!(path, "/etc/pacman.d/hooks/foo-wrapperize-install.sh");
            assert_eq!(content, &expected_installer);
        }
        InstallScript::MemoryOnly { .. } => panic!("installer should be saved when hooks are on"),
    }

    let (install_hook, remove_hook) = plan.hooks.as_ref().expect("hooks should be generated");
    assert_eq!(
        install_hook.path,
        "/etc/pacman.d/hooks/foo-wrapperize-install.hook"
    );
    assert_eq!(
        install_hook.content,
        "[Trigger]\n\
         Type = File\n\
         Operation = Install\n\
         Operation = Upgrade\n\
         Target = usr/bin/foo\n\
         \n\
         [Action]\n\
         Description = Wrapping foo executable...\n\
         When = PostTransaction\n\
         Exec = /etc/pacman.d/hooks/foo-wrapperize-install.sh\n"
    );
    assert_eq!(
        remove_hook.path,
        "/etc/pacman.d/hooks/foo-wrapperize-remove.hook"
    );
    assert_eq!(
        remove_hook.content,
        "[Trigger]\n\
         Type = File\n\
         Operation = Remove\n\
         Target = usr/bin/foo\n\
         \n\
         [Action]\n\
         Description = Removing traces of wrapper for foo executable...\n\
         When = PostTransaction\n\
         Exec = /usr/bin/rm \"/etc/pacman.d/hooks/foo-wrapperize-install.hook\" \"/etc/pacman.d/hooks/foo-wrapperize-remove.hook\" \"/etc/pacman.d/hooks/foo-wrapperize-install.sh\" \"/usr/bin/.foo-unwrapped\"\n"
    );
}

#[test]
fn wrap_again_fails_with_already_wrapped() {
    let paths = GeneratedPaths::try_from_path("/usr/bin/foo").expect("path should resolve");
    let params = WrapperParams {
        args: vec!["--flag".to_string()],
        env_vars: vec![Variable::parse("FOO=bar").expect("env parsing should succeed")],
    };

    let result = create(&paths, &params, true, "wrapperize", true);
    assert!(matches!(result, Err(WrapError::AlreadyWrapped)));
}

#[test]
fn wrap_without_hooks_keeps_installer_in_memory() {
    let paths = GeneratedPaths::try_from_path("/usr/bin/foo").expect("path should resolve");
    let params = WrapperParams {
        args: vec![],
        env_vars: vec![Variable::parse("FOO=bar").expect("env parsing should succeed")],
    };

    let plan = create(&paths, &params, false, "wrapperize", false).expect("wrap should succeed");

    assert!(plan.hooks.is_none());
    match &plan.install_script {
        InstallScript::MemoryOnly { content } => {
            assert!(content.contains("mv \"/usr/bin/foo\" \"/usr/bin/.foo-unwrapped\""));
            assert!(content.contains("export FOO=\"bar\""));
        }
        InstallScript::Saved { .. } => panic!("installer should stay in memory without hooks"),
    }
}

#[test]
fn installer_embeds_single_quotes_safely() {
    let paths = GeneratedPaths::try_from_path("/usr/bin/foo").expect("path should resolve");
    let params = WrapperParams {
        args: vec!["it's".to_string()],
        env_vars: vec![],
    };

    let plan = create(&paths, &params, false, "wrapperize", false).expect("wrap should succeed");

    match &plan.install_script {
        InstallScript::MemoryOnly { content } => {
            assert!(content.contains("printf '%s' '#!/usr/bin/env bash\n\
                                      exec \"/usr/bin/.foo-unwrapped\" \"it'\\''s\" \"$@\"\n\
                                      ' > \"/usr/bin/foo\""));
        }
        InstallScript::Saved { .. } => panic!("installer should stay in memory without hooks"),
    }
}

#[test]
fn saved_installer_takes_the_given_path() {
    let paths = GeneratedPaths::try_from_path("/usr/bin/foo").expect("path should resolve");
    let script = InstallScript::create(&paths, "wrapper text\n", Some("/tmp/inst.sh".to_string()));
    match script {
        InstallScript::Saved { path, content } => {
            assert_eq!(path, "/tmp/inst.sh");
            assert!(content.contains("printf '%s' 'wrapper text\n' > \"/usr/bin/foo\""));
        }
        InstallScript::MemoryOnly { .. } => panic!("installer should carry the given path"),
    }
}
