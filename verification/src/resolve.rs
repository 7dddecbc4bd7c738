//! Filesystem-dependent resolution of the merged settings.
//!
//! After the three-way merge, the profile directory is fixed (an
//! explicit path, or the one named by the profile index file), every
//! mailbox entry is joined under it and canonicalized, and entries that
//! name a directory are pointed at a default inbox file inside it. The
//! filesystem queries themselves (canonicalization, directory and file
//! probes) happen outside the library; their results come in as plain
//! values and the functions here state exactly how the settings change
//! for every possible outcome.

use vstd::prelude::*;

use crate::errors::RunError;
use crate::paths::{path_concat, path_join};
use crate::settings::{arguments_overlay, merged, App, ArgumentsView, SettingsView};

verus! {

/// The profile key `Path=` stands at position `i` of `t`.
pub open spec fn key_match_at(t: Seq<char>, i: int) -> bool {
    &&& 0 <= i
    &&& i + 5 <= t.len()
    &&& t[i] == 'P'
    &&& t[i + 1] == 'a'
    &&& t[i + 2] == 't'
    &&& t[i + 3] == 'h'
    &&& t[i + 4] == '='
}

/// The position of the first profile key at or after `i`, if any.
pub open spec fn first_key_from(t: Seq<char>, i: nat) -> Option<int>
    decreases t.len() - i,
{
    if i + 5 > t.len() {
        None
    } else if key_match_at(t, i as int) {
        Some(i as int)
    } else {
        first_key_from(t, i + 1)
    }
}

/// The position of the first line terminator at or after `i`, if any.
pub open spec fn first_newline_from(t: Seq<char>, i: nat) -> Option<int>
    decreases t.len() - i,
{
    if i >= t.len() {
        None
    } else if t[i as int] == '\n' {
        Some(i as int)
    } else {
        first_newline_from(t, i + 1)
    }
}

/// The profile name the index document carries: the text between the
/// first profile key and the next line terminator. Empty when the key is
/// absent or no line terminator follows it.
pub open spec fn profile_name_of(t: Seq<char>) -> Seq<char> {
    match first_key_from(t, 0) {
        None => Seq::empty(),
        Some(k) => match first_newline_from(t, (k + 5) as nat) {
            None => Seq::empty(),
            Some(nl) => t.subrange(k + 5, nl),
        },
    }
}

/// What profile discovery yields from the index document: the named
/// subdirectory joined under the mail client's base directory, or
/// `ProfileNotFound` when the document names none.
pub open spec fn default_profile_result(t: Seq<char>) -> Result<Seq<char>, RunError> {
    if profile_name_of(t).len() == 0 {
        Err(RunError::ProfileNotFound)
    } else {
        Ok(path_concat("~/.thunderbird"@, profile_name_of(t)))
    }
}

fn find_first_key(document: &str) -> (r: Option<usize>)
    ensures
        (match r {
            Some(k) => first_key_from(document@, 0) == Some(k as int) && k + 5
                <= document@.len(),
            None => first_key_from(document@, 0) is None,
        }),
{
    let len = document.unicode_len();
    let mut i: usize = 0;
    while len - i >= 5
        invariant
            i <= len,
            len == document@.len(),
            first_key_from(document@, 0) == first_key_from(document@, i as nat),
        decreases len - i,
    {
        if document.get_char(i) == 'P' && document.get_char(i + 1) == 'a' && document.get_char(
            i + 2,
        ) == 't' && document.get_char(i + 3) == 'h' && document.get_char(i + 4) == '=' {
            return Some(i);
        }
        proof {
            assert(!key_match_at(document@, i as int));
        }
        i = i + 1;
    }
    None
}

fn find_first_newline(document: &str, from: usize) -> (r: Option<usize>)
    requires
        from <= document@.len(),
    ensures
        (match r {
            Some(j) => first_newline_from(document@, from as nat) == Some(j as int) && from <= j
                < document@.len(),
            None => first_newline_from(document@, from as nat) is None,
        }),
{
    let len = document.unicode_len();
    let mut i: usize = from;
    while i < len
        invariant
            from <= i <= len,
            len == document@.len(),
            first_newline_from(document@, from as nat) == first_newline_from(
                document@,
                i as nat,
            ),
        decreases len - i,
    {
        if document.get_char(i) == '\n' {
            return Some(i);
        }
        i = i + 1;
    }
    None
}

/// Discovers the default profile from the text of the profile index
/// file: the value of the first `Path=` key, up to the next line
/// terminator, joined under the mail client's base directory. An absent
/// key, a missing terminator or an empty value all fail with
/// `ProfileNotFound`.
pub fn find_default_thunderbird_profile(document: &str) -> (r: Result<String, RunError>)
    ensures
        (match r {
            Ok(p) => default_profile_result(document@) == Ok::<Seq<char>, RunError>(p@),
            Err(e) => default_profile_result(document@) == Err::<Seq<char>, RunError>(e),
        }),
{
    let len = document.unicode_len();
    match find_first_key(document) {
        None => Err(RunError::ProfileNotFound),
        Some(k) => {
            proof {
                assert(k + 5 <= len);
            }
            match find_first_newline(document, k + 5) {
                None => Err(RunError::ProfileNotFound),
                Some(nl) => {
                    if nl == k + 5 {
                        Err(RunError::ProfileNotFound)
                    } else {
                        let name = document.substring_char(k + 5, nl);
                        Ok(path_join("~/.thunderbird", name))
                    }
                },
            }
        },
    }
}

/// The sequence a canonicalization result stands for: the resolved path,
/// or the empty sequence when resolution failed.
pub open spec fn opt_or_empty(o: Option<Seq<char>>) -> Seq<char> {
    match o {
        Some(s) => s,
        None => Seq::empty(),
    }
}

/// Every entry pushed to its canonicalized form: an entry whose
/// resolution succeeded is replaced by the absolute result, one whose
/// resolution failed only gains a trailing separator.
pub open spec fn expanded_files(files: Seq<Seq<char>>, joined: Seq<Option<Seq<char>>>) -> Seq<
    Seq<char>,
> {
    Seq::new(files.len(), |i: int| path_concat(files[i], opt_or_empty(joined[i])))
}

/// One entry after the directory probe: a directory holding a default
/// inbox file is pointed at that file, checking the capitalized casing
/// only when the other is absent; anything else stays unchanged.
pub open spec fn dir_expand_one(f: Seq<char>, is_dir: bool, has_inbox: bool, has_upper: bool) -> Seq<
    char,
> {
    if is_dir {
        if has_inbox {
            path_concat(f, path_concat(f, "Inbox.msf"@))
        } else if has_upper {
            path_concat(f, path_concat(f, "INBOX.msf"@))
        } else {
            f
        }
    } else {
        f
    }
}

/// Every entry after the directory probe.
pub open spec fn dir_expanded_files(
    files: Seq<Seq<char>>,
    is_dir: Seq<bool>,
    has_inbox: Seq<bool>,
    has_upper: Seq<bool>,
) -> Seq<Seq<char>> {
    Seq::new(files.len(), |i: int| dir_expand_one(files[i], is_dir[i], has_inbox[i], has_upper[i]))
}

impl App {
    /// Joins every mailbox entry under the resolved profile directory
    /// and replaces it by the canonicalization result handed in for it.
    /// `profile` is the resolved profile directory, `None` when neither
    /// an explicit path nor discovery produced one; `joined_fullpaths`
    /// holds, for each entry, the canonicalization of the entry joined
    /// under the profile. A missing profile fails first; an unset or
    /// empty file list fails with `NoInputFiles`.
    pub fn update_relative_files_with_profile(
        &mut self,
        profile: &Option<String>,
        joined_fullpaths: &Vec<Option<String>>,
    ) -> (r: Result<(), RunError>)
        requires
            (match old(self).settings.files {
                Some(fs) => profile is Some ==> joined_fullpaths@.len() == fs@.len(),
                None => true,
            }),
        ensures
            final(self).arguments == old(self).arguments,
            (match r {
                Ok(()) => profile is Some && (match old(self).settings@.files {
                    Some(fs) => fs.len() > 0 && final(self).settings@ == (SettingsView {
                        files: Some(expanded_files(fs, joined_fullpaths.deep_view())),
                        ..old(self).settings@
                    }),
                    None => false,
                }),
                Err(RunError::ProfileNotFound) => profile is None && final(self).settings
                    == old(self).settings,
                Err(RunError::NoInputFiles) => profile is Some && (match old(
                    self,
                ).settings@.files {
                    Some(fs) => fs.len() == 0,
                    None => true,
                }) && final(self).settings == old(self).settings,
                Err(_) => false,
            }),
    {
        if profile.is_none() {
            return Err(RunError::ProfileNotFound);
        }
        match &self.settings.files {
            None => Err(RunError::NoInputFiles),
            Some(fs) => {
                if fs.len() == 0 {
                    return Err(RunError::NoInputFiles);
                }
                let ghost target = expanded_files(fs.deep_view(), joined_fullpaths.deep_view());
                let mut out: Vec<String> = Vec::new();
                let mut i: usize = 0;
                while i < fs.len()
                    invariant
                        i <= fs.len(),
                        joined_fullpaths@.len() == fs@.len(),
                        target == expanded_files(fs.deep_view(), joined_fullpaths.deep_view()),
                        target.len() == fs@.len(),
                        out@.len() == i,
                        forall|k: int| 0 <= k < i ==> out@[k]@ == #[trigger] target[k],
                    decreases fs.len() - i,
                {
                    let entry = match &joined_fullpaths[i] {
                        Some(s) => path_join(fs[i].as_str(), s.as_str()),
                        None => {
                            proof {
                                reveal_strlit("");
                                assert(""@ =~= Seq::<char>::empty());
                            }
                            path_join(fs[i].as_str(), "")
                        },
                    };
                    proof {
                        assert(fs.deep_view()[i as int] == fs@[i as int]@);
                        assert(joined_fullpaths.deep_view()[i as int] == joined_fullpaths@[
                            i as int].deep_view());
                        assert(entry@ == target[i as int]);
                    }
                    out.push(entry);
                    i = i + 1;
                }
                proof {
                    assert forall|k: int| 0 <= k < target.len() implies out.deep_view()[k]
                        == target[k] by {
                        assert(out@[k]@ == target[k]);
                    }
                    assert(out.deep_view() =~= target);
                }
                self.settings.files = Some(out);
                proof {
                    assert(self.settings@ =~~= (SettingsView {
                        files: Some(target),
                        ..old(self).settings@
                    }));
                }
                Ok(())
            },
        }
    }

    /// Points every entry that names a directory at a default inbox file
    /// inside it, when one exists. For each entry the caller reports
    /// whether the entry is a directory and whether each casing of the
    /// default inbox filename exists as a regular file under it; the
    /// capitalized casing is taken only when the other is absent, and a
    /// directory holding neither stays unchanged.
    pub fn update_directory_files_with_default_filename(
        &mut self,
        is_dir: &Vec<bool>,
        has_inbox: &Vec<bool>,
        has_upper_inbox: &Vec<bool>,
    )
        requires
            old(self).settings.files is Some,
            (match old(self).settings.files {
                Some(fs) => is_dir@.len() == fs@.len() && has_inbox@.len() == fs@.len()
                    && has_upper_inbox@.len() == fs@.len(),
                None => true,
            }),
        ensures
            final(self).arguments == old(self).arguments,
            (match old(self).settings@.files {
                Some(fs) => final(self).settings@ == (SettingsView {
                    files: Some(dir_expanded_files(fs, is_dir@, has_inbox@, has_upper_inbox@)),
                    ..old(self).settings@
                }),
                None => false,
            }),
    {
        match &self.settings.files {
            None => {
            },
            Some(fs) => {
                let ghost target = dir_expanded_files(
                    fs.deep_view(),
                    is_dir@,
                    has_inbox@,
                    has_upper_inbox@,
                );
                let mut out: Vec<String> = Vec::new();
                let mut i: usize = 0;
                while i < fs.len()
                    invariant
                        i <= fs.len(),
                        is_dir@.len() == fs@.len(),
                        has_inbox@.len() == fs@.len(),
                        has_upper_inbox@.len() == fs@.len(),
                        target == dir_expanded_files(
                            fs.deep_view(),
                            is_dir@,
                            has_inbox@,
                            has_upper_inbox@,
                        ),
                        target.len() == fs@.len(),
                        out@.len() == i,
                        forall|k: int| 0 <= k < i ==> out@[k]@ == #[trigger] target[k],
                    decreases fs.len() - i,
                {
                    let f = &fs[i];
                    let entry = if is_dir[i] {
                        if has_inbox[i] {
                            let inbox = path_join(f.as_str(), "Inbox.msf");
                            path_join(f.as_str(), inbox.as_str())
                        } else if has_upper_inbox[i] {
                            let inbox = path_join(f.as_str(), "INBOX.msf");
                            path_join(f.as_str(), inbox.as_str())
                        } else {
                            f.clone()
                        }
                    } else {
                        f.clone()
                    };
                    proof {
                        assert(fs.deep_view()[i as int] == fs@[i as int]@);
                        assert(entry@ == target[i as int]);
                    }
                    out.push(entry);
                    i = i + 1;
                }
                proof {
                    assert forall|k: int| 0 <= k < target.len() implies out.deep_view()[k]
                        == target[k] by {
                        assert(out@[k]@ == target[k]);
                    }
                    assert(out.deep_view() =~= target);
                }
                self.settings.files = Some(out);
                proof {
                    assert(self.settings@ =~~= (SettingsView {
                        files: Some(target),
                        ..old(self).settings@
                    }));
                }
            },
        }
    }
}

/// The whole resolution as one function of its inputs: the three-way
/// merge, then the profile decision, the per-entry canonicalization and
/// the directory probe, each taken from the query results handed in.
pub open spec fn resolve_pipeline(
    start: SettingsView,
    file_overlay: Option<SettingsView>,
    args: ArgumentsView,
    profile: Option<Seq<char>>,
    joined: Seq<Option<Seq<char>>>,
    is_dir: Seq<bool>,
    has_inbox: Seq<bool>,
    has_upper: Seq<bool>,
) -> Result<SettingsView, RunError> {
    let after_file = match file_overlay {
        Some(c) => merged(start, c),
        None => start,
    };
    let resolved = merged(after_file, arguments_overlay(args));
    if profile is None {
        Err(RunError::ProfileNotFound)
    } else {
        match resolved.files {
            None => Err(RunError::NoInputFiles),
            Some(fs) => if fs.len() == 0 {
                Err(RunError::NoInputFiles)
            } else {
                Ok(
                    SettingsView {
                        files: Some(
                            dir_expanded_files(
                                expanded_files(fs, joined),
                                is_dir,
                                has_inbox,
                                has_upper,
                            ),
                        ),
                        ..resolved
                    },
                )
            },
        }
    }
}

/// Resolution idempotence: two resolutions from the same sources and the
/// same filesystem answers yield the same configuration — nothing in the
/// pipeline depends on anything but its inputs.
pub proof fn lemma_resolution_idempotent(
    start: SettingsView,
    file_overlay: Option<SettingsView>,
    args: ArgumentsView,
    profile: Option<Seq<char>>,
    joined: Seq<Option<Seq<char>>>,
    is_dir: Seq<bool>,
    has_inbox: Seq<bool>,
    has_upper: Seq<bool>,
    start2: SettingsView,
    file_overlay2: Option<SettingsView>,
    args2: ArgumentsView,
    profile2: Option<Seq<char>>,
    joined2: Seq<Option<Seq<char>>>,
    is_dir2: Seq<bool>,
    has_inbox2: Seq<bool>,
    has_upper2: Seq<bool>,
)
    requires
        start == start2,
        file_overlay == file_overlay2,
        args == args2,
        profile == profile2,
        joined == joined2,
        is_dir == is_dir2,
        has_inbox == has_inbox2,
        has_upper == has_upper2,
    ensures
        resolve_pipeline(start, file_overlay, args, profile, joined, is_dir, has_inbox, has_upper)
            == resolve_pipeline(
            start2,
            file_overlay2,
            args2,
            profile2,
            joined2,
            is_dir2,
            has_inbox2,
            has_upper2,
        ),
{
}

} // verus!
