//! Rendering of a settings record in the configuration-file format.
//!
//! Dump mode prints every field of the resolved configuration, one line
//! per field, in a fixed order, in the same textual format the user
//! configuration file uses. The file list is a bracketed list: a single
//! element stays on the first line, several elements get one indented
//! line each with a trailing comma. Unset texts and paths render as
//! empty strings, unset switches as `false`; an unset profile renders as
//! the discovered default handed in by the caller.

use vstd::prelude::*;

use crate::output::{opt_flag, opt_text};
use crate::settings::{Settings, SettingsView};

verus! {

/// The text wrapped in double quotes.
pub open spec fn quoted(s: Seq<char>) -> Seq<char> {
    "\""@ + s + "\""@
}

/// The rendering of a switch.
pub open spec fn spec_bool_str(b: bool) -> Seq<char> {
    if b {
        "true"@
    } else {
        "false"@
    }
}

fn bool_str(b: bool) -> (s: &'static str)
    ensures
        s@ == spec_bool_str(b),
{
    if b {
        "true"
    } else {
        "false"
    }
}

/// The first `n` entries of the file list as indented lines, each
/// quoted and ended with a comma.
pub open spec fn files_lines(files: Seq<Seq<char>>, n: int) -> Seq<char>
    decreases n,
{
    if n <= 0 {
        Seq::empty()
    } else {
        files_lines(files, n - 1) + "\n    "@ + quoted(files[n - 1]) + ","@
    }
}

/// The file list after its opening bracket: one quoted entry and the
/// closing bracket, just the closing bracket, or one indented line per
/// entry and the bracket on its own line.
pub open spec fn files_block(files: Seq<Seq<char>>) -> Seq<char> {
    if files.len() == 1 {
        quoted(files[0]) + "]"@
    } else if files.len() == 0 {
        "]"@
    } else {
        files_lines(files, files.len() as int) + "\n]"@
    }
}

/// The first rendered line: the file list.
pub open spec fn toml_files_line(s: SettingsView) -> Seq<char> {
    "files = ["@ + files_block(
        match s.files {
            Some(fs) => fs,
            None => Seq::empty(),
        },
    )
}

/// The path lines appended to `acc`: the profile (or the discovered
/// default handed in for an unset one) and the configuration-file
/// location, each quoted.
pub open spec fn toml_path_lines(acc: Seq<char>, s: SettingsView, profile_default: Seq<char>) -> Seq<
    char,
> {
    acc + "\nprofile = "@ + quoted(
        match s.profile {
            Some(p) => p,
            None => profile_default,
        },
    ) + "\nconfig = "@ + quoted(opt_text(s.config))
}

/// The switch and text lines appended to `acc`, in the fixed field
/// order of the configuration-file format.
pub open spec fn toml_option_lines(acc: Seq<char>, s: SettingsView) -> Seq<char> {
    acc + "\ndump_config = "@ + spec_bool_str(opt_flag(s.dump_config)) + "\nno_config = "@
        + spec_bool_str(opt_flag(s.no_config)) + "\nno_zero = "@ + spec_bool_str(
        opt_flag(s.no_zero),
    ) + "\nno_newline = "@ + spec_bool_str(opt_flag(s.no_newline)) + "\ntrim = "@
        + spec_bool_str(opt_flag(s.trim)) + "\nlocation = "@ + spec_bool_str(
        opt_flag(s.location),
    ) + "\nbefore = "@ + quoted(opt_text(s.before)) + "\nafter = "@ + quoted(opt_text(s.after))
}

/// The whole rendered record, every field on its own line in the fixed
/// order of the configuration-file format.
pub open spec fn settings_toml(s: SettingsView, profile_default: Seq<char>) -> Seq<char> {
    toml_option_lines(toml_path_lines(toml_files_line(s), s, profile_default), s)
}

fn append_flag_line(out: &mut String, label: &'static str, flag: Option<bool>)
    ensures
        final(out)@ == old(out)@ + label@ + spec_bool_str(opt_flag(flag)),
{
    out.append(label);
    out.append(bool_str(match flag {
        Some(b) => b,
        None => false,
    }));
}

fn append_quoted(out: &mut String, text: &str)
    ensures
        final(out)@ == old(out)@ + quoted(text@),
{
    out.append("\"");
    out.append(text);
    out.append("\"");
    proof {
        assert(out@ =~= old(out)@ + quoted(text@));
    }
}

impl Settings {
    /// Renders the record in the configuration-file format.
    /// `profile_default` is what an unset profile renders as: the
    /// discovered default profile directory, or empty when discovery
    /// failed.
    #[verifier::rlimit(60)]
    pub fn to_toml_string(&self, profile_default: &String) -> (out: String)
        ensures
            out@ == settings_toml(self@, profile_default@),
    {
        let mut out = String::new();
        out.append("files = [");
        match &self.files {
            Some(fs) => {
                if fs.len() == 1 {
                    out.append("\"");
                    out.append(fs[0].as_str());
                    out.append("\"");
                    out.append("]");
                    proof {
                        assert(fs.deep_view()[0] == fs@[0]@);
                        assert(out@ =~= toml_files_line(self@));
                    }
                } else if fs.len() == 0 {
                    out.append("]");
                    proof {
                        assert(out@ =~= toml_files_line(self@));
                    }
                } else {
                    let mut i: usize = 0;
                    while i < fs.len()
                        invariant
                            i <= fs.len(),
                            out@ == "files = ["@ + files_lines(fs.deep_view(), i as int),
                        decreases fs.len() - i,
                    {
                        out.append("\n    ");
                        out.append("\"");
                        out.append(fs[i].as_str());
                        out.append("\"");
                        out.append(",");
                        proof {
                            assert(fs.deep_view()[i as int] == fs@[i as int]@);
                            assert(out@ =~= "files = ["@ + files_lines(
                                fs.deep_view(),
                                i + 1,
                            ));
                        }
                        i = i + 1;
                    }
                    out.append("\n]");
                    proof {
                        assert(out@ =~= toml_files_line(self@));
                    }
                }
            },
            None => {
                out.append("]");
                proof {
                    assert(out@ =~= toml_files_line(self@));
                }
            },
        }
        let ghost head = out@;
        proof {
            reveal_strlit("");
            assert(""@ =~= Seq::<char>::empty());
        }
        out.append("\nprofile = ");
        match &self.profile {
            Some(p) => append_quoted(&mut out, p.as_str()),
            None => append_quoted(&mut out, profile_default.as_str()),
        }
        out.append("\nconfig = ");
        match &self.config {
            Some(c) => append_quoted(&mut out, c.as_str()),
            None => append_quoted(&mut out, ""),
        }
        proof {
            assert(out@ == toml_path_lines(head, self@, profile_default@));
        }
        let ghost mid = out@;
        append_flag_line(&mut out, "\ndump_config = ", self.dump_config);
        append_flag_line(&mut out, "\nno_config = ", self.no_config);
        append_flag_line(&mut out, "\nno_zero = ", self.no_zero);
        append_flag_line(&mut out, "\nno_newline = ", self.no_newline);
        append_flag_line(&mut out, "\ntrim = ", self.trim);
        append_flag_line(&mut out, "\nlocation = ", self.location);
        out.append("\nbefore = ");
        match &self.before {
            Some(t) => append_quoted(&mut out, t.as_str()),
            None => append_quoted(&mut out, ""),
        }
        out.append("\nafter = ");
        match &self.after {
            Some(t) => append_quoted(&mut out, t.as_str()),
            None => append_quoted(&mut out, ""),
        }
        proof {
            assert(out@ == toml_option_lines(mid, self@));
        }
        out
    }
}

} // verus!
