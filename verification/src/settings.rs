//! The layered run configuration.
//!
//! A run's configuration comes from three sources in increasing
//! precedence: built-in defaults, an optional user configuration file,
//! and invocation arguments. Each source is a sparse partial record: a
//! field it leaves unset never overrides a lower-precedence source. One
//! merge combinator applies a partial record over a base, and is used in
//! the fixed order defaults, then file, then arguments.

use vstd::prelude::*;

verus! {

/// A partial configuration record. `None` in a field means the source
/// leaves that field unset.
pub struct Settings {
    /// Mailbox files to read, absolute or relative to the profile.
    pub files: Option<Vec<String>>,
    /// The mail client's user-profile directory; unset means discover it.
    pub profile: Option<String>,
    /// Where the user configuration file was looked for. Informational:
    /// set once at startup, never taken from a merged source.
    pub config: Option<String>,
    /// Print the resolved configuration and exit.
    pub dump_config: Option<bool>,
    /// Ignore the user configuration file.
    pub no_config: Option<bool>,
    /// Print nothing for a count of zero.
    pub no_zero: Option<bool>,
    /// Leave out the trailing newline.
    pub no_newline: Option<bool>,
    /// Strip surrounding whitespace from the output text.
    pub trim: Option<bool>,
    /// Text before the total.
    pub before: Option<String>,
    /// Text after the total.
    pub after: Option<String>,
    /// Print a line with the count and path of each mailbox.
    pub location: Option<bool>,
}

/// The mathematical model of a `Settings` record.
#[verifier::ext_equal]
pub ghost struct SettingsView {
    pub files: Option<Seq<Seq<char>>>,
    pub profile: Option<Seq<char>>,
    pub config: Option<Seq<char>>,
    pub dump_config: Option<bool>,
    pub no_config: Option<bool>,
    pub no_zero: Option<bool>,
    pub no_newline: Option<bool>,
    pub trim: Option<bool>,
    pub before: Option<Seq<char>>,
    pub after: Option<Seq<char>>,
    pub location: Option<bool>,
}

impl View for Settings {
    type V = SettingsView;

    open spec fn view(&self) -> SettingsView {
        SettingsView {
            files: self.files.deep_view(),
            profile: self.profile.deep_view(),
            config: self.config.deep_view(),
            dump_config: self.dump_config,
            no_config: self.no_config,
            no_zero: self.no_zero,
            no_newline: self.no_newline,
            trim: self.trim,
            before: self.before.deep_view(),
            after: self.after.deep_view(),
            location: self.location,
        }
    }
}

/// A record with every field unset but the configuration-file location.
pub open spec fn initial_settings(config: Option<Seq<char>>) -> SettingsView {
    SettingsView {
        files: None,
        profile: None,
        config,
        dump_config: None,
        no_config: None,
        no_zero: None,
        no_newline: None,
        trim: None,
        before: None,
        after: None,
        location: None,
    }
}

/// The merge combinator: every field the overlay sets replaces the base
/// field, every field it leaves unset keeps the base value. The
/// configuration-file location is never merged: it is informational and
/// fixed at startup.
pub open spec fn merged(base: SettingsView, overlay: SettingsView) -> SettingsView {
    SettingsView {
        files: if overlay.files is Some {
            overlay.files
        } else {
            base.files
        },
        profile: if overlay.profile is Some {
            overlay.profile
        } else {
            base.profile
        },
        config: base.config,
        dump_config: if overlay.dump_config is Some {
            overlay.dump_config
        } else {
            base.dump_config
        },
        no_config: if overlay.no_config is Some {
            overlay.no_config
        } else {
            base.no_config
        },
        no_zero: if overlay.no_zero is Some {
            overlay.no_zero
        } else {
            base.no_zero
        },
        no_newline: if overlay.no_newline is Some {
            overlay.no_newline
        } else {
            base.no_newline
        },
        trim: if overlay.trim is Some {
            overlay.trim
        } else {
            base.trim
        },
        before: if overlay.before is Some {
            overlay.before
        } else {
            base.before
        },
        after: if overlay.after is Some {
            overlay.after
        } else {
            base.after
        },
        location: if overlay.location is Some {
            overlay.location
        } else {
            base.location
        },
    }
}

impl Default for Settings {
    /// The built-in defaults: every field unset.
    fn default() -> (s: Settings)
        ensures
            s@ == initial_settings(None),
    {
        Settings {
            files: None,
            profile: None,
            config: None,
            dump_config: None,
            no_config: None,
            no_zero: None,
            no_newline: None,
            trim: None,
            before: None,
            after: None,
            location: None,
        }
    }
}

/// The invocation arguments, already parsed into plain values. Boolean
/// switches that were not given are `false`; an empty file list means no
/// files were given.
pub struct Arguments {
    pub files: Vec<String>,
    pub profile: Option<String>,
    pub config: Option<String>,
    pub dump_config: bool,
    pub no_config: bool,
    pub no_zero: bool,
    pub no_newline: bool,
    pub trim: bool,
    pub before: Option<String>,
    pub after: Option<String>,
    pub location: bool,
}

/// The mathematical model of an `Arguments` record.
#[verifier::ext_equal]
pub ghost struct ArgumentsView {
    pub files: Seq<Seq<char>>,
    pub profile: Option<Seq<char>>,
    pub config: Option<Seq<char>>,
    pub dump_config: bool,
    pub no_config: bool,
    pub no_zero: bool,
    pub no_newline: bool,
    pub trim: bool,
    pub before: Option<Seq<char>>,
    pub after: Option<Seq<char>>,
    pub location: bool,
}

impl View for Arguments {
    type V = ArgumentsView;

    open spec fn view(&self) -> ArgumentsView {
        ArgumentsView {
            files: self.files.deep_view(),
            profile: self.profile.deep_view(),
            config: self.config.deep_view(),
            dump_config: self.dump_config,
            no_config: self.no_config,
            no_zero: self.no_zero,
            no_newline: self.no_newline,
            trim: self.trim,
            before: self.before.deep_view(),
            after: self.after.deep_view(),
            location: self.location,
        }
    }
}

/// The partial record that the invocation arguments stand for: a switch
/// that was not given, and an empty file list, are unset fields. The
/// configuration-file location is handled at startup and stands in no
/// overlay.
pub open spec fn arguments_overlay(a: ArgumentsView) -> SettingsView {
    SettingsView {
        files: if a.files.len() > 0 {
            Some(a.files)
        } else {
            None
        },
        profile: a.profile,
        config: None,
        dump_config: if a.dump_config {
            Some(true)
        } else {
            None
        },
        no_config: if a.no_config {
            Some(true)
        } else {
            None
        },
        no_zero: if a.no_zero {
            Some(true)
        } else {
            None
        },
        no_newline: if a.no_newline {
            Some(true)
        } else {
            None
        },
        trim: if a.trim {
            Some(true)
        } else {
            None
        },
        before: a.before,
        after: a.after,
        location: if a.location {
            Some(true)
        } else {
            None
        },
    }
}

/// The whole state of one run: the parsed arguments and the settings
/// resolved so far.
pub struct App {
    pub arguments: Arguments,
    pub settings: Settings,
}

/// Where the user configuration file is looked for when no explicit
/// location was given.
pub open spec fn default_config_path() -> Seq<char> {
    "~/.config/mailcount/options.toml"@
}

/// The configuration-file location of this run: the explicit argument if
/// one was given, the built-in location otherwise.
pub fn initial_config_path(arguments: &Arguments) -> (r: String)
    ensures
        r@ == (match arguments.config {
            Some(c) => c@,
            None => default_config_path(),
        }),
{
    match &arguments.config {
        Some(c) => c.clone(),
        None => String::from_str("~/.config/mailcount/options.toml"),
    }
}

fn clone_string_vec(v: &Vec<String>) -> (r: Vec<String>)
    ensures
        r@ == v@,
{
    let mut r: Vec<String> = Vec::new();
    let mut i: usize = 0;
    while i < v.len()
        invariant
            i <= v.len(),
            r@ == v@.subrange(0, i as int),
        decreases v.len() - i,
    {
        r.push(v[i].clone());
        proof {
            assert(r@ =~= v@.subrange(0, i + 1));
        }
        i = i + 1;
    }
    proof {
        assert(v@.subrange(0, v@.len() as int) =~= v@);
    }
    r
}

impl App {
    /// Builds the starting state: the parsed arguments, and settings
    /// with every field unset but the configuration-file location, which
    /// the caller has already chosen and resolved.
    pub fn new(arguments: Arguments, config_fullpath: Option<String>) -> (app: App)
        ensures
            app.arguments == arguments,
            app.settings@ == initial_settings(config_fullpath.deep_view()),
    {
        App {
            arguments,
            settings: Settings {
                files: None,
                profile: None,
                config: config_fullpath,
                dump_config: None,
                no_config: None,
                no_zero: None,
                no_newline: None,
                trim: None,
                before: None,
                after: None,
                location: None,
            },
        }
    }

    /// Applies a partial record over the current settings: every field
    /// set in `cfg` replaces the current value, every unset field leaves
    /// it untouched.
    pub fn update_settings_from(&mut self, cfg: Settings)
        ensures
            final(self).settings@ == merged(old(self).settings@, cfg@),
            final(self).arguments == old(self).arguments,
    {
        if let Some(value) = cfg.files {
            self.settings.files = Some(value);
        }
        if let Some(value) = cfg.profile {
            self.settings.profile = Some(value);
        }
        if let Some(value) = cfg.dump_config {
            self.settings.dump_config = Some(value);
        }
        if let Some(value) = cfg.no_config {
            self.settings.no_config = Some(value);
        }
        if let Some(value) = cfg.no_zero {
            self.settings.no_zero = Some(value);
        }
        if let Some(value) = cfg.no_newline {
            self.settings.no_newline = Some(value);
        }
        if let Some(value) = cfg.trim {
            self.settings.trim = Some(value);
        }
        if let Some(value) = cfg.location {
            self.settings.location = Some(value);
        }
        if let Some(value) = cfg.before {
            self.settings.before = Some(value);
        }
        if let Some(value) = cfg.after {
            self.settings.after = Some(value);
        }
        proof {
            assert(self.settings@ =~~= merged(old(self).settings@, cfg@));
        }
    }

    /// Applies the invocation arguments over the current settings, as
    /// the partial record they stand for: switches that were given,
    /// a non-empty file list, and the optional texts and paths. The
    /// configuration-file location was handled at startup and is not
    /// touched here.
    pub fn update_settings_from_arguments(&mut self)
        ensures
            final(self).settings@ == merged(
                old(self).settings@,
                arguments_overlay(old(self).arguments@),
            ),
            final(self).arguments == old(self).arguments,
    {
        if self.arguments.files.len() > 0 {
            let files = clone_string_vec(&self.arguments.files);
            self.settings.files = Some(files);
        }
        match &self.arguments.profile {
            Some(p) => {
                self.settings.profile = Some(p.clone());
            },
            None => {},
        }
        if self.arguments.dump_config {
            self.settings.dump_config = Some(true);
        }
        if self.arguments.no_config {
            self.settings.no_config = Some(true);
        }
        if self.arguments.no_zero {
            self.settings.no_zero = Some(true);
        }
        if self.arguments.no_newline {
            self.settings.no_newline = Some(true);
        }
        if self.arguments.trim {
            self.settings.trim = Some(true);
        }
        match &self.arguments.before {
            Some(t) => {
                self.settings.before = Some(t.clone());
            },
            None => {},
        }
        match &self.arguments.after {
            Some(t) => {
                self.settings.after = Some(t.clone());
            },
            None => {},
        }
        if self.arguments.location {
            self.settings.location = Some(true);
        }
        proof {
            assert(self.settings@ =~~= merged(
                old(self).settings@,
                arguments_overlay(old(self).arguments@),
            ));
        }
    }
}

/// Override completeness: a field set in the arguments record surfaces
/// in the merged result, whatever the file record and the defaults hold.
pub proof fn lemma_override_completeness(
    defaults: SettingsView,
    file: SettingsView,
    args: SettingsView,
)
    ensures
        args.files is Some ==> merged(merged(defaults, file), args).files == args.files,
        args.profile is Some ==> merged(merged(defaults, file), args).profile == args.profile,
        args.dump_config is Some ==> merged(merged(defaults, file), args).dump_config
            == args.dump_config,
        args.no_config is Some ==> merged(merged(defaults, file), args).no_config
            == args.no_config,
        args.no_zero is Some ==> merged(merged(defaults, file), args).no_zero == args.no_zero,
        args.no_newline is Some ==> merged(merged(defaults, file), args).no_newline
            == args.no_newline,
        args.trim is Some ==> merged(merged(defaults, file), args).trim == args.trim,
        args.before is Some ==> merged(merged(defaults, file), args).before == args.before,
        args.after is Some ==> merged(merged(defaults, file), args).after == args.after,
        args.location is Some ==> merged(merged(defaults, file), args).location == args.location,
{
}

/// Fallback completeness: a field unset in both the file record and the
/// arguments record surfaces the defaults value; the configuration-file
/// location always stays the one fixed at startup.
pub proof fn lemma_fallback_completeness(
    defaults: SettingsView,
    file: SettingsView,
    args: SettingsView,
)
    ensures
        file.files is None && args.files is None ==> merged(merged(defaults, file), args).files
            == defaults.files,
        file.profile is None && args.profile is None ==> merged(
            merged(defaults, file),
            args,
        ).profile == defaults.profile,
        file.dump_config is None && args.dump_config is None ==> merged(
            merged(defaults, file),
            args,
        ).dump_config == defaults.dump_config,
        file.no_config is None && args.no_config is None ==> merged(
            merged(defaults, file),
            args,
        ).no_config == defaults.no_config,
        file.no_zero is None && args.no_zero is None ==> merged(
            merged(defaults, file),
            args,
        ).no_zero == defaults.no_zero,
        file.no_newline is None && args.no_newline is None ==> merged(
            merged(defaults, file),
            args,
        ).no_newline == defaults.no_newline,
        file.trim is None && args.trim is None ==> merged(merged(defaults, file), args).trim
            == defaults.trim,
        file.before is None && args.before is None ==> merged(merged(defaults, file), args).before
            == defaults.before,
        file.after is None && args.after is None ==> merged(merged(defaults, file), args).after
            == defaults.after,
        file.location is None && args.location is None ==> merged(
            merged(defaults, file),
            args,
        ).location == defaults.location,
        merged(merged(defaults, file), args).config == defaults.config,
{
}

} // verus!
