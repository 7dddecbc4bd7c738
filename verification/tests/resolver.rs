use mailcount::errors::RunError;
use mailcount::paths::path_join;
use mailcount::resolve::find_default_thunderbird_profile;
use mailcount::settings::{initial_config_path, App, Arguments, Settings};

fn no_arguments() -> Arguments {
    Arguments {
        files: Vec::new(),
        profile: None,
        config: None,
        dump_config: false,
        no_config: false,
        no_zero: false,
        no_newline: false,
        trim: false,
        before: None,
        after: None,
        location: false,
    }
}

fn empty_settings() -> Settings {
    Settings::default()
}

#[test]
fn arguments_override_file_and_defaults() {
    // Every field set in the file layer, then every field set again in
    // the argument layer: the argument values win throughout.
    let mut app = App::new(no_arguments(), Some(String::from("/cfg/options.toml")));
    let file_layer = Settings {
        files: Some(vec![String::from("file-a")]),
        profile: Some(String::from("/file/profile")),
        config: None,
        dump_config: Some(false),
        no_config: Some(false),
        no_zero: Some(false),
        no_newline: Some(false),
        trim: Some(false),
        before: Some(String::from("file-before")),
        after: Some(String::from("file-after")),
        location: Some(false),
    };
    app.update_settings_from(file_layer);
    app.arguments = Arguments {
        files: vec![String::from("arg-a"), String::from("arg-b")],
        profile: Some(String::from("/arg/profile")),
        config: None,
        dump_config: true,
        no_config: true,
        no_zero: true,
        no_newline: true,
        trim: true,
        before: Some(String::from("arg-before")),
        after: Some(String::from("arg-after")),
        location: true,
    };
    app.update_settings_from_arguments();
    assert_eq!(
        app.settings.files,
        Some(vec![String::from("arg-a"), String::from("arg-b")])
    );
    assert_eq!(app.settings.profile, Some(String::from("/arg/profile")));
    assert_eq!(app.settings.config, Some(String::from("/cfg/options.toml")));
    assert_eq!(app.settings.dump_config, Some(true));
    assert_eq!(app.settings.no_config, Some(true));
    assert_eq!(app.settings.no_zero, Some(true));
    assert_eq!(app.settings.no_newline, Some(true));
    assert_eq!(app.settings.trim, Some(true));
    assert_eq!(app.settings.before, Some(String::from("arg-before")));
    assert_eq!(app.settings.after, Some(String::from("arg-after")));
    assert_eq!(app.settings.location, Some(true));
}

#[test]
fn unset_fields_fall_back_to_defaults() {
    // A field unset in both the file layer and the arguments surfaces
    // the built-in default: unset.
    let mut app = App::new(no_arguments(), None);
    let file_layer = Settings {
        before: Some(String::from("kept")),
        ..empty_settings()
    };
    app.update_settings_from(file_layer);
    app.update_settings_from_arguments();
    assert_eq!(app.settings.files, None);
    assert_eq!(app.settings.profile, None);
    assert_eq!(app.settings.dump_config, None);
    assert_eq!(app.settings.no_zero, None);
    assert_eq!(app.settings.before, Some(String::from("kept")));
    assert_eq!(app.settings.after, None);
}

#[test]
fn file_layer_overrides_defaults_when_arguments_silent() {
    let mut app = App::new(no_arguments(), None);
    let file_layer = Settings {
        no_zero: Some(true),
        files: Some(vec![String::from("Mail/box")]),
        ..empty_settings()
    };
    app.update_settings_from(file_layer);
    app.update_settings_from_arguments();
    assert_eq!(app.settings.no_zero, Some(true));
    assert_eq!(app.settings.files, Some(vec![String::from("Mail/box")]));
}

#[test]
fn config_key_in_file_layer_is_informational() {
    // The configuration file's own `config` key never replaces the
    // location fixed at startup.
    let mut app = App::new(no_arguments(), Some(String::from("/real.toml")));
    app.update_settings_from(Settings {
        config: Some(String::from("/other.toml")),
        ..empty_settings()
    });
    assert_eq!(app.settings.config, Some(String::from("/real.toml")));
}

#[test]
fn false_switch_argument_does_not_override() {
    // A switch that was not given on the invocation (false) is an unset
    // field, not an override back to false.
    let mut app = App::new(no_arguments(), None);
    app.update_settings_from(Settings {
        trim: Some(true),
        ..empty_settings()
    });
    app.update_settings_from_arguments();
    assert_eq!(app.settings.trim, Some(true));
}

#[test]
fn resolution_is_repeatable() {
    // Two resolutions from the same sources and the same filesystem
    // answers end in identical settings.
    let run = || {
        let mut app = App::new(no_arguments(), None);
        app.update_settings_from(Settings {
            files: Some(vec![String::from("Mail/box"), String::from("/abs/box")]),
            ..empty_settings()
        });
        app.update_settings_from_arguments();
        let profile = Some(String::from("/home/user/.thunderbird/abc.default"));
        let joined = vec![
            Some(String::from("/home/user/.thunderbird/abc.default/Mail/box")),
            Some(String::from("/abs/box")),
        ];
        let r = app.update_relative_files_with_profile(&profile, &joined);
        assert_eq!(r, Ok(()));
        app.update_directory_files_with_default_filename(
            &vec![false, true],
            &vec![false, false],
            &vec![false, true],
        );
        app.settings
    };
    let first = run();
    let second = run();
    assert_eq!(first.files, second.files);
    assert_eq!(first.profile, second.profile);
    assert_eq!(first.config, second.config);
}

#[test]
fn relative_files_are_joined_and_canonicalized() {
    let mut app = App::new(no_arguments(), None);
    app.update_settings_from(Settings {
        files: Some(vec![String::from("Mail/box")]),
        ..empty_settings()
    });
    let profile = Some(String::from("/prof"));
    let joined = vec![Some(String::from("/prof/Mail/box"))];
    assert_eq!(app.update_relative_files_with_profile(&profile, &joined), Ok(()));
    assert_eq!(app.settings.files, Some(vec![String::from("/prof/Mail/box")]));
}

#[test]
fn unresolvable_entry_keeps_its_path() {
    // An entry whose canonicalization failed is pushed an empty path:
    // it only gains a trailing separator.
    let mut app = App::new(no_arguments(), None);
    app.update_settings_from(Settings {
        files: Some(vec![String::from("Mail/ghost")]),
        ..empty_settings()
    });
    let profile = Some(String::from("/prof"));
    let joined = vec![None];
    assert_eq!(app.update_relative_files_with_profile(&profile, &joined), Ok(()));
    assert_eq!(app.settings.files, Some(vec![String::from("Mail/ghost/")]));
}

#[test]
fn missing_profile_fails_before_missing_files() {
    let mut app = App::new(no_arguments(), None);
    let r = app.update_relative_files_with_profile(&None, &Vec::new());
    assert_eq!(r, Err(RunError::ProfileNotFound));
}

#[test]
fn missing_files_fail_with_no_input_files() {
    let mut app = App::new(no_arguments(), None);
    let profile = Some(String::from("/prof"));
    assert_eq!(
        app.update_relative_files_with_profile(&profile, &Vec::new()),
        Err(RunError::NoInputFiles)
    );
    let mut app2 = App::new(no_arguments(), None);
    app2.update_settings_from(Settings {
        files: Some(Vec::new()),
        ..empty_settings()
    });
    assert_eq!(
        app2.update_relative_files_with_profile(&profile, &Vec::new()),
        Err(RunError::NoInputFiles)
    );
}

#[test]
fn directory_with_only_uppercase_inbox_expands_to_it() {
    let mut app = App::new(no_arguments(), None);
    app.update_settings_from(Settings {
        files: Some(vec![String::from("/mail/folder")]),
        ..empty_settings()
    });
    app.update_directory_files_with_default_filename(&vec![true], &vec![false], &vec![true]);
    assert_eq!(
        app.settings.files,
        Some(vec![String::from("/mail/folder/INBOX.msf")])
    );
}

#[test]
fn directory_prefers_mixed_case_inbox() {
    let mut app = App::new(no_arguments(), None);
    app.update_settings_from(Settings {
        files: Some(vec![String::from("/mail/folder")]),
        ..empty_settings()
    });
    app.update_directory_files_with_default_filename(&vec![true], &vec![true], &vec![true]);
    assert_eq!(
        app.settings.files,
        Some(vec![String::from("/mail/folder/Inbox.msf")])
    );
}

#[test]
fn directory_without_inbox_stays_unchanged() {
    let mut app = App::new(no_arguments(), None);
    app.update_settings_from(Settings {
        files: Some(vec![String::from("/mail/folder")]),
        ..empty_settings()
    });
    app.update_directory_files_with_default_filename(&vec![true], &vec![false], &vec![false]);
    assert_eq!(app.settings.files, Some(vec![String::from("/mail/folder")]));
}

#[test]
fn plain_file_entry_is_not_probed() {
    let mut app = App::new(no_arguments(), None);
    app.update_settings_from(Settings {
        files: Some(vec![String::from("/mail/box.msf")]),
        ..empty_settings()
    });
    app.update_directory_files_with_default_filename(&vec![false], &vec![false], &vec![false]);
    assert_eq!(app.settings.files, Some(vec![String::from("/mail/box.msf")]));
}

#[test]
fn profile_discovery_reads_first_path_key() {
    let doc = "[Profile0]\nPath=abc.default\nDefault=1\nPath=other\n";
    assert_eq!(
        find_default_thunderbird_profile(doc),
        Ok(String::from("~/.thunderbird/abc.default"))
    );
}

#[test]
fn profile_discovery_fails_without_key() {
    assert_eq!(
        find_default_thunderbird_profile("[Profile0]\nName=x\n"),
        Err(RunError::ProfileNotFound)
    );
}

#[test]
fn profile_discovery_fails_on_empty_value() {
    assert_eq!(
        find_default_thunderbird_profile("Path=\nrest\n"),
        Err(RunError::ProfileNotFound)
    );
}

#[test]
fn profile_discovery_fails_without_line_terminator() {
    assert_eq!(
        find_default_thunderbird_profile("Path=abc.default"),
        Err(RunError::ProfileNotFound)
    );
}

#[test]
fn absolute_profile_value_replaces_base_directory() {
    assert_eq!(
        find_default_thunderbird_profile("Path=/opt/profiles/main\n"),
        Ok(String::from("/opt/profiles/main"))
    );
}

#[test]
fn path_join_follows_push_rules() {
    assert_eq!(path_join("/a/b", "c"), String::from("/a/b/c"));
    assert_eq!(path_join("/a/b/", "c"), String::from("/a/b/c"));
    assert_eq!(path_join("/a/b", "/abs"), String::from("/abs"));
    assert_eq!(path_join("", "c"), String::from("c"));
    assert_eq!(path_join("/a/b", ""), String::from("/a/b/"));
}

#[test]
fn config_path_prefers_explicit_argument() {
    let mut args = no_arguments();
    args.config = Some(String::from("/etc/custom.toml"));
    assert_eq!(initial_config_path(&args), String::from("/etc/custom.toml"));
    assert_eq!(
        initial_config_path(&no_arguments()),
        String::from("~/.config/mailcount/options.toml")
    );
}

#[test]
fn new_app_starts_with_only_config_location() {
    let app = App::new(no_arguments(), Some(String::from("/cfg.toml")));
    assert_eq!(app.settings.config, Some(String::from("/cfg.toml")));
    assert_eq!(app.settings.files, None);
    assert_eq!(app.settings.profile, None);
    assert_eq!(app.settings.dump_config, None);
}
