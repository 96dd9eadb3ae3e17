//! Package-manager trigger hooks: the canonical on-disk path of each hook
//! file and the hook text tying the installer script and the cleanup
//! command to install, upgrade and removal events.

use vstd::prelude::*;
use vstd::string::{StrSliceExecFns, StringExecFns};
use crate::escape::{escape_quote, spec_escape_quote, spec_quoted};
use crate::text::{chars_to_string, str_to_chars, subrange_chars};
use crate::wrapper::GeneratedPaths;

verus! {

/// The hook directory consulted by the package manager.
pub const HOOK_DIR: &'static str = "/etc/pacman.d/hooks";

/// The view of [`HOOK_DIR`].
pub open spec fn spec_hook_dir() -> Seq<char> {
    "/etc/pacman.d/hooks"@
}

/// The event a hook is triggered by.
#[derive(Copy, Clone, Debug)]
pub enum Action {
    /// The hook target was installed or updated.
    InstallOrUpdate,
    /// The hook target was uninstalled / removed.
    Removal,
}

impl Action {
    /// The verb form of the action for use in artifact paths.
    pub open spec fn spec_verb(self) -> Seq<char> {
        match self {
            Action::InstallOrUpdate => "install"@,
            Action::Removal => "remove"@,
        }
    }

    /// Returns the verb form of the action for use in artifact paths.
    pub fn path_verb(self) -> (r: &'static str)
        ensures
            r@ == self.spec_verb(),
    {
        match self {
            Action::InstallOrUpdate => "install",
            Action::Removal => "remove",
        }
    }
}

/// The canonical path of a hook file:
/// `{hook dir}/{binary name}-{program name}-{verb}.hook`.
pub open spec fn spec_hook_path(binary_name: Seq<char>, program_name: Seq<char>, action: Action) -> Seq<char> {
    spec_hook_dir() + "/"@ + binary_name + "-"@ + program_name + "-"@ + action.spec_verb()
        + ".hook"@
}

/// The canonical path of the persisted installer script: the same stem as
/// the install hook, with the `sh` extension.
pub open spec fn spec_script_path(binary_name: Seq<char>, program_name: Seq<char>) -> Seq<char> {
    spec_hook_dir() + "/"@ + binary_name + "-"@ + program_name + "-"@ + "install"@ + ".sh"@
}

/// Generates the canonical path for a hook file. Every component that
/// creates or deletes a hook computes its path through this function, so
/// creation and cleanup agree byte for byte.
pub fn get_hook_path(binary_name: &str, program_name: &str, action: Action) -> (r: String)
    ensures
        r@ == spec_hook_path(binary_name@, program_name@, action),
{
    let mut r = String::new();
    r.append(HOOK_DIR);
    r.append("/");
    r.append(binary_name);
    r.append("-");
    r.append(program_name);
    r.append("-");
    r.append(action.path_verb());
    r.append(".hook");
    proof {
        assert(r@ =~= spec_hook_path(binary_name@, program_name@, action));
    }
    r
}

/// Generates the canonical path for the persisted installer script.
pub fn get_install_script_path(binary_name: &str, program_name: &str) -> (r: String)
    ensures
        r@ == spec_script_path(binary_name@, program_name@),
{
    let mut r = String::new();
    r.append(HOOK_DIR);
    r.append("/");
    r.append(binary_name);
    r.append("-");
    r.append(program_name);
    r.append("-");
    r.append("install");
    r.append(".sh");
    proof {
        assert(r@ =~= spec_script_path(binary_name@, program_name@));
    }
    r
}

/// Law: the install/upgrade hook and the removal hook of the same binary
/// and program never share a path — their verbs differ in length, so the
/// paths differ.
pub proof fn lemma_hook_paths_differ(binary_name: Seq<char>, program_name: Seq<char>)
    ensures
        spec_hook_path(binary_name, program_name, Action::InstallOrUpdate) != spec_hook_path(
            binary_name,
            program_name,
            Action::Removal,
        ),
{
    reveal_strlit("install");
    reveal_strlit("remove");
    let a = spec_hook_path(binary_name, program_name, Action::InstallOrUpdate);
    let b = spec_hook_path(binary_name, program_name, Action::Removal);
    assert(a.len() != b.len());
}

/// `p` with one leading `/` stripped, if it has one.
pub open spec fn spec_trim_root(p: Seq<char>) -> Seq<char> {
    if p.len() > 0 && p[0] == '/' {
        p.drop_first()
    } else {
        p
    }
}

/// Trims the leading `/` from a path if one is present, making the path
/// relative to the package manager's root.
pub fn trim_path_root(path: &str) -> (r: String)
    ensures
        r@ == spec_trim_root(path@),
{
    let chars = str_to_chars(path);
    let n = chars.len();
    if n > 0 && chars[0] == '/' {
        let rest = subrange_chars(&chars, 1, n);
        proof {
            assert(rest@ =~= spec_trim_root(path@));
        }
        chars_to_string(&rest)
    } else {
        path.to_owned()
    }
}

/// The hook text that runs the installer script at `script_path` whenever
/// the wrapped binary is installed or upgraded.
pub open spec fn spec_generate_install_and_update(
    wrapped: Seq<char>,
    filename: Seq<char>,
    script_path: Seq<char>,
) -> Seq<char> {
    "[Trigger]\nType = File\nOperation = Install\nOperation = Upgrade\nTarget = "@
        + spec_trim_root(wrapped) + "\n\n[Action]\nDescription = Wrapping "@ + filename
        + " executable...\nWhen = PostTransaction\nExec = "@ + script_path + "\n"@
}

/// Generates the hook that re-runs the installer script when the wrapped
/// binary is installed or updated. The hook's target is the wrapped path
/// relative to the package manager's root.
pub fn generate_install_and_update(paths: &GeneratedPaths, hook_script_path: &str) -> (r: String)
    ensures
        r@ == spec_generate_install_and_update(
            paths.wrapped_path.original@,
            paths.wrapped_filename@,
            hook_script_path@,
        ),
{
    let mut r = String::new();
    r.append("[Trigger]\nType = File\nOperation = Install\nOperation = Upgrade\nTarget = ");
    let trimmed = trim_path_root(paths.wrapped_path.original.as_str());
    r.append(trimmed.as_str());
    r.append("\n\n[Action]\nDescription = Wrapping ");
    r.append(paths.wrapped_filename.as_str());
    r.append(" executable...\nWhen = PostTransaction\nExec = ");
    r.append(hook_script_path);
    r.append("\n");
    proof {
        assert(r@ =~= spec_generate_install_and_update(
            paths.wrapped_path.original@,
            paths.wrapped_filename@,
            hook_script_path@,
        ));
    }
    r
}

/// The hook text that deletes every artifact of a wrap operation when the
/// wrapped binary is removed: both hook files, the installer script and
/// the hidden original binary, each individually quoted in one `rm` call.
pub open spec fn spec_generate_removal(
    wrapped: Seq<char>,
    filename: Seq<char>,
    unwrapped_escaped: Seq<char>,
    program: Seq<char>,
) -> Seq<char> {
    "[Trigger]\nType = File\nOperation = Remove\nTarget = "@ + spec_trim_root(wrapped)
        + "\n\n[Action]\nDescription = Removing traces of wrapper for "@ + filename
        + " executable...\nWhen = PostTransaction\nExec = /usr/bin/rm "@ + spec_quoted(
        spec_escape_quote(spec_hook_path(filename, program, Action::InstallOrUpdate), '"'),
    ) + " "@ + spec_quoted(
        spec_escape_quote(spec_hook_path(filename, program, Action::Removal), '"'),
    ) + " "@ + spec_quoted(spec_escape_quote(spec_script_path(filename, program), '"')) + " "@
        + spec_quoted(unwrapped_escaped) + "\n"@
}

/// Generates the hook that removes all traces of the wrap when the wrapped
/// binary is uninstalled: the two hook files, the installer script, and
/// the hidden original binary.
pub fn generate_removal(paths: &GeneratedPaths, program_name: &str) -> (r: String)
    ensures
        r@ == spec_generate_removal(
            paths.wrapped_path.original@,
            paths.wrapped_filename@,
            paths.unwrapped_path.escaped@,
            program_name@,
        ),
{
    let mut r = String::new();
    r.append("[Trigger]\nType = File\nOperation = Remove\nTarget = ");
    let trimmed = trim_path_root(paths.wrapped_path.original.as_str());
    r.append(trimmed.as_str());
    r.append("\n\n[Action]\nDescription = Removing traces of wrapper for ");
    r.append(paths.wrapped_filename.as_str());
    r.append(" executable...\nWhen = PostTransaction\nExec = /usr/bin/rm ");
    let install_hook = get_hook_path(
        paths.wrapped_filename.as_str(),
        program_name,
        Action::InstallOrUpdate,
    );
    let install_hook_esc = escape_quote(install_hook.as_str(), '"');
    r.append("\"");
    r.append(install_hook_esc.as_str());
    r.append("\"");
    r.append(" ");
    let remove_hook = get_hook_path(paths.wrapped_filename.as_str(), program_name, Action::Removal);
    let remove_hook_esc = escape_quote(remove_hook.as_str(), '"');
    r.append("\"");
    r.append(remove_hook_esc.as_str());
    r.append("\"");
    r.append(" ");
    let script = get_install_script_path(paths.wrapped_filename.as_str(), program_name);
    let script_esc = escape_quote(script.as_str(), '"');
    r.append("\"");
    r.append(script_esc.as_str());
    r.append("\"");
    r.append(" ");
    r.append("\"");
    r.append(paths.unwrapped_path.escaped.as_str());
    r.append("\"");
    r.append("\n");
    proof {
        assert(r@ =~= spec_generate_removal(
            paths.wrapped_path.original@,
            paths.wrapped_filename@,
            paths.unwrapped_path.escaped@,
            program_name@,
        ));
    }
    r
}

/// Whether `needle` occurs in `hay` starting at position `i`.
pub open spec fn occurs_at(hay: Seq<char>, needle: Seq<char>, i: int) -> bool {
    0 <= i && i + needle.len() <= hay.len() && hay.subrange(i, i + needle.len()) == needle
}

/// Law: the removal hook's exec command contains, as individually quoted
/// tokens, the paths of all four artifacts of a wrap operation: the
/// install/upgrade hook file, the removal hook file, the installer script,
/// and the hidden original binary.
pub proof fn lemma_removal_names_all_artifacts(
    wrapped: Seq<char>,
    filename: Seq<char>,
    unwrapped: Seq<char>,
    program: Seq<char>,
)
    ensures
        ({
            let t = spec_generate_removal(
                wrapped,
                filename,
                spec_escape_quote(unwrapped, '"'),
                program,
            );
            &&& exists|i: int|
                occurs_at(
                    t,
                    spec_quoted(
                        spec_escape_quote(
                            spec_hook_path(filename, program, Action::InstallOrUpdate),
                            '"',
                        ),
                    ),
                    i,
                )
            &&& exists|i: int|
                occurs_at(
                    t,
                    spec_quoted(
                        spec_escape_quote(spec_hook_path(filename, program, Action::Removal), '"'),
                    ),
                    i,
                )
            &&& exists|i: int|
                occurs_at(
                    t,
                    spec_quoted(spec_escape_quote(spec_script_path(filename, program), '"')),
                    i,
                )
            &&& exists|i: int| occurs_at(t, spec_quoted(spec_escape_quote(unwrapped, '"')), i)
        }),
{
    let t = spec_generate_removal(wrapped, filename, spec_escape_quote(unwrapped, '"'), program);
    let pre = "[Trigger]\nType = File\nOperation = Remove\nTarget = "@ + spec_trim_root(wrapped)
        + "\n\n[Action]\nDescription = Removing traces of wrapper for "@ + filename
        + " executable...\nWhen = PostTransaction\nExec = /usr/bin/rm "@;
    let q1 = spec_quoted(
        spec_escape_quote(spec_hook_path(filename, program, Action::InstallOrUpdate), '"'),
    );
    let q2 = spec_quoted(
        spec_escape_quote(spec_hook_path(filename, program, Action::Removal), '"'),
    );
    let q3 = spec_quoted(spec_escape_quote(spec_script_path(filename, program), '"'));
    let q4 = spec_quoted(spec_escape_quote(unwrapped, '"'));
    reveal_strlit(" ");
    let i1 = pre.len() as int;
    let i2 = i1 + q1.len() + 1;
    let i3 = i2 + q2.len() + 1;
    let i4 = i3 + q3.len() + 1;
    assert(t.subrange(i1, i1 + q1.len() as int) =~= q1);
    assert(occurs_at(t, q1, i1));
    assert(t.subrange(i2, i2 + q2.len() as int) =~= q2);
    assert(occurs_at(t, q2, i2));
    assert(t.subrange(i3, i3 + q3.len() as int) =~= q3);
    assert(occurs_at(t, q3, i3));
    assert(t.subrange(i4, i4 + q4.len() as int) =~= q4);
    assert(occurs_at(t, q4, i4));
}

} // verus!
