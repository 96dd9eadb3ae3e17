//! The identity of a wrap operation: the wrapped path, the hidden
//! "unwrapped" path the original binary moves to, and the bare filename
//! that keys every generated artifact.

use vstd::prelude::*;
use vstd::string::{StrSliceExecFns, StringExecFns};
use crate::error::WrapError;
use crate::pacman_hook::{
    generate_install_and_update, generate_removal, get_hook_path, get_install_script_path, Action,
    spec_generate_install_and_update, spec_generate_removal, spec_hook_path, spec_script_path,
};
use crate::path::Escaped;
use crate::script::{
    generate_binary_wrapper, generate_wrapper_install, spec_install_script, spec_wrapper_script,
};
use crate::text::{chars_to_string, str_to_chars, subrange_chars};

pub use crate::script::WrapperParams;

verus! {

/// The index where the filename component of `p` starts: right after the
/// last `/`, or zero where the path has no `/`.
pub open spec fn spec_filename_start(p: Seq<char>) -> int
    decreases p.len(),
{
    if p.len() == 0 {
        0
    } else if p[p.len() - 1] == '/' {
        p.len() as int
    } else {
        spec_filename_start(p.drop_last())
    }
}

/// The filename component of `p`: everything after the last `/`.
pub open spec fn spec_filename(p: Seq<char>) -> Seq<char> {
    p.skip(spec_filename_start(p))
}

/// The directory part of `p`, trailing `/` included; empty for a bare
/// filename.
pub open spec fn spec_dir(p: Seq<char>) -> Seq<char> {
    p.take(spec_filename_start(p))
}

/// The hidden path the original binary moves to: same directory, filename
/// `.{filename}-unwrapped`.
pub open spec fn spec_unwrapped(p: Seq<char>) -> Seq<char> {
    spec_dir(p) + "."@ + spec_filename(p) + "-unwrapped"@
}

/// Whether a filename component can be extracted from `p`: the part after
/// the last `/` is non-empty and names a file rather than the current or
/// parent directory.
pub open spec fn spec_has_filename(p: Seq<char>) -> bool {
    spec_filename(p).len() > 0 && spec_filename(p) != "."@ && spec_filename(p) != ".."@
}

/// What [`spec_filename_start`] returns: everything from it on is free of
/// `/`, and a `/` stands right before it unless it is zero.
pub proof fn lemma_filename_start(p: Seq<char>)
    ensures
        0 <= spec_filename_start(p) <= p.len(),
        forall|j: int| spec_filename_start(p) <= j < p.len() ==> p[j] != '/',
        spec_filename_start(p) > 0 ==> p[spec_filename_start(p) - 1] == '/',
    decreases p.len(),
{
    if p.len() == 0 {
    } else if p[p.len() - 1] == '/' {
    } else {
        lemma_filename_start(p.drop_last());
        assert(forall|j: int|
            spec_filename_start(p) <= j < p.len() - 1 ==> #[trigger] p[j] == p.drop_last()[j]);
    }
}

/// [`spec_filename_start`] is pinned down by its characterisation.
proof fn lemma_filename_start_is(p: Seq<char>, k: int)
    requires
        0 <= k <= p.len(),
        forall|j: int| k <= j < p.len() ==> p[j] != '/',
        k > 0 ==> p[k - 1] == '/',
    ensures
        spec_filename_start(p) == k,
    decreases p.len(),
{
    if p.len() == 0 {
    } else if p[p.len() - 1] == '/' {
        assert(k == p.len());
    } else {
        assert(k < p.len());
        assert(forall|j: int| k <= j < p.len() - 1 ==> p.drop_last()[j] == p[j]);
        lemma_filename_start_is(p.drop_last(), k);
    }
}

/// The derived identity of a wrap operation. All three parts are fixed by
/// the wrapped path alone and never change afterwards.
#[derive(Debug)]
pub struct GeneratedPaths {
    /// Where the original binary lives; the wrapper shim takes its place.
    pub wrapped_path: Escaped,
    /// Where the original binary is hidden: same directory, dot-prefixed
    /// and suffixed filename.
    pub unwrapped_path: Escaped,
    /// The bare filename that keys every generated artifact name.
    pub wrapped_filename: String,
}

impl GeneratedPaths {
    /// The three parts agree: both escaped forms are well formed, and the
    /// hidden path and filename are the ones derived from the wrapped path.
    pub open spec fn wf(&self) -> bool {
        &&& self.wrapped_path.wf()
        &&& self.unwrapped_path.wf()
        &&& self.wrapped_filename@ == spec_filename(self.wrapped_path.original@)
        &&& self.wrapped_filename@.len() > 0
        &&& self.unwrapped_path.original@ == spec_unwrapped(self.wrapped_path.original@)
    }

    /// Derives the wrap identity from the path of the binary to wrap.
    /// Purely a naming computation: the filesystem is never consulted.
    pub fn try_from_path(path: &str) -> (r: Result<GeneratedPaths, WrapError>)
        ensures
            r is Ok <==> spec_has_filename(path@),
            r matches Ok(g) ==> {
                &&& g.wf()
                &&& g.wrapped_path.original@ == path@
                &&& g.wrapped_filename@ == spec_filename(path@)
                &&& g.unwrapped_path.original@ == spec_unwrapped(path@)
            },
            r is Err ==> r == Err::<GeneratedPaths, WrapError>(WrapError::InvalidPath),
    {
        let chars = str_to_chars(path);
        let n = chars.len();
        let mut k: usize = n;
        while k > 0 && chars[k - 1] != '/'
            invariant
                n == chars@.len(),
                chars@ == path@,
                k <= n,
                forall|j: int| k <= j < n ==> path@[j] != '/',
            decreases k,
        {
            k = k - 1;
        }
        proof {
            lemma_filename_start_is(path@, k as int);
        }
        if k == n {
            proof {
                assert(spec_filename(path@) =~= Seq::<char>::empty());
            }
            return Err(WrapError::InvalidPath);
        }
        let fname_vec = subrange_chars(&chars, k, n);
        proof {
            assert(fname_vec@ =~= spec_filename(path@));
            reveal_strlit(".");
            reveal_strlit("..");
        }
        if n - k == 1 && chars[k] == '.' {
            proof {
                assert(spec_filename(path@) =~= "."@);
            }
            return Err(WrapError::InvalidPath);
        }
        if n - k == 2 && chars[k] == '.' && chars[k + 1] == '.' {
            proof {
                assert(spec_filename(path@) =~= ".."@);
            }
            return Err(WrapError::InvalidPath);
        }
        proof {
            reveal_strlit(".");
            reveal_strlit("..");
            let f = spec_filename(path@);
            assert(f =~= fname_vec@);
            assert(f.len() == n - k);
            if n - k == 1 {
                assert(f[0] == path@[k as int] && f[0] != '.');
                assert(f != "."@);
                assert(f.len() != ".."@.len());
            } else if n - k == 2 {
                assert(f.len() != "."@.len());
                assert(f[0] == path@[k as int] && f[1] == path@[k as int + 1]);
                assert(f[0] != '.' || f[1] != '.');
                assert(f != ".."@);
            } else {
                assert(f.len() != "."@.len() && f.len() != ".."@.len());
            }
            assert(spec_filename(path@) != "."@);
            assert(spec_filename(path@) != ".."@);
        }
        let fname = chars_to_string(&fname_vec);
        let dir_vec = subrange_chars(&chars, 0, k);
        let mut unwrapped = chars_to_string(&dir_vec);
        unwrapped.append(".");
        unwrapped.append(fname.as_str());
        unwrapped.append("-unwrapped");
        proof {
            assert(dir_vec@ =~= spec_dir(path@));
            assert(unwrapped@ =~= spec_unwrapped(path@));
        }
        Ok(
            GeneratedPaths {
                wrapped_path: Escaped::new(path),
                unwrapped_path: Escaped::new(unwrapped.as_str()),
                wrapped_filename: fname,
            },
        )
    }
}

/// The installer script of one wrap operation: either to be persisted at
/// a known path with the execute bit set (so that package-manager hooks
/// can re-run it), or kept only as text to be piped into a shell without
/// touching disk. Exactly one of the two is chosen per operation, before
/// anything is executed.
#[derive(Debug)]
pub enum InstallScript {
    /// The installer belongs on disk at `path`, executable.
    Saved { path: String, content: String },
    /// The installer exists only as text.
    MemoryOnly { content: String },
}

impl InstallScript {
    /// Renders the installer script for `wrapper_script` and decides where
    /// it will live: at the path given by `save_to_disk`, or in memory.
    /// Purely textual; the caller performs the write.
    pub fn create(
        paths: &GeneratedPaths,
        wrapper_script: &str,
        save_to_disk: Option<String>,
    ) -> (r: InstallScript)
        ensures
            ({
                let text = spec_install_script(
                    paths.wrapped_path.escaped@,
                    paths.unwrapped_path.escaped@,
                    wrapper_script@,
                );
                match save_to_disk {
                    Some(p) => r matches InstallScript::Saved { path, content } && path@ == p@
                        && content@ == text,
                    None => r matches InstallScript::MemoryOnly { content } && content@ == text,
                }
            }),
    {
        let content = generate_wrapper_install(paths, wrapper_script);
        match save_to_disk {
            Some(path) => InstallScript::Saved { path, content },
            None => InstallScript::MemoryOnly { content },
        }
    }
}

/// One hook file to be written: its canonical path and its content.
#[derive(Debug)]
pub struct HookFile {
    pub path: String,
    pub content: String,
}

/// Everything a wrap operation will put on disk or execute: the installer
/// script, and, where hook persistence was requested, the install/upgrade
/// hook and the removal hook.
#[derive(Debug)]
pub struct WrapPlan {
    pub install_script: InstallScript,
    /// The install/upgrade hook and the removal hook, present exactly
    /// where hook persistence was requested.
    pub hooks: Option<(HookFile, HookFile)>,
}

/// Prepares a wrap operation: refuses an already wrapped binary, renders
/// the wrapper and installer scripts, and, where `use_pacman_hooks` is
/// set, pairs them with both hook files under their canonical paths.
/// `unwrapped_exists` is the caller's answer to whether the hidden path
/// already exists on disk; everything else is pure text and naming.
pub fn create(
    paths: &GeneratedPaths,
    wrapper_params: &WrapperParams,
    use_pacman_hooks: bool,
    program_name: &str,
    unwrapped_exists: bool,
) -> (r: Result<WrapPlan, WrapError>)
    ensures
        unwrapped_exists ==> r == Err::<WrapPlan, WrapError>(WrapError::AlreadyWrapped),
        !unwrapped_exists ==> r is Ok,
        !unwrapped_exists && use_pacman_hooks ==> (r matches Ok(plan) && ({
            let wrapper = spec_wrapper_script(
                paths.unwrapped_path.escaped@,
                wrapper_params.args@,
                wrapper_params.env_vars@,
            );
            let text = spec_install_script(
                paths.wrapped_path.escaped@,
                paths.unwrapped_path.escaped@,
                wrapper,
            );
            let script_path = spec_script_path(paths.wrapped_filename@, program_name@);
            &&& (plan.install_script matches InstallScript::Saved { path, content }
                && path@ == script_path && content@ == text)
            &&& (plan.hooks matches Some((ih, rh)) && {
                &&& ih.path@ == spec_hook_path(
                    paths.wrapped_filename@,
                    program_name@,
                    Action::InstallOrUpdate,
                )
                &&& ih.content@ == spec_generate_install_and_update(
                    paths.wrapped_path.original@,
                    paths.wrapped_filename@,
                    script_path,
                )
                &&& rh.path@ == spec_hook_path(
                    paths.wrapped_filename@,
                    program_name@,
                    Action::Removal,
                )
                &&& rh.content@ == spec_generate_removal(
                    paths.wrapped_path.original@,
                    paths.wrapped_filename@,
                    paths.unwrapped_path.escaped@,
                    program_name@,
                )
            })
        })),
        !unwrapped_exists && !use_pacman_hooks ==> (r matches Ok(plan) && ({
            let wrapper = spec_wrapper_script(
                paths.unwrapped_path.escaped@,
                wrapper_params.args@,
                wrapper_params.env_vars@,
            );
            let text = spec_install_script(
                paths.wrapped_path.escaped@,
                paths.unwrapped_path.escaped@,
                wrapper,
            );
            &&& (plan.install_script matches InstallScript::MemoryOnly { content } && content@
                == text)
            &&& plan.hooks is None
        })),
{
    if unwrapped_exists {
        return Err(WrapError::AlreadyWrapped);
    }
    let wrapper_script = generate_binary_wrapper(&paths.unwrapped_path, wrapper_params);
    if use_pacman_hooks {
        let script_path = get_install_script_path(paths.wrapped_filename.as_str(), program_name);
        let install_hook_path = get_hook_path(
            paths.wrapped_filename.as_str(),
            program_name,
            Action::InstallOrUpdate,
        );
        let install_hook_content = generate_install_and_update(paths, script_path.as_str());
        let remove_hook_path = get_hook_path(
            paths.wrapped_filename.as_str(),
            program_name,
            Action::Removal,
        );
        let remove_hook_content = generate_removal(paths, program_name);
        let install_script = InstallScript::create(
            paths,
            wrapper_script.as_str(),
            Some(script_path),
        );
        Ok(
            WrapPlan {
                install_script,
                hooks: Some(
                    (
                        HookFile { path: install_hook_path, content: install_hook_content },
                        HookFile { path: remove_hook_path, content: remove_hook_content },
                    ),
                ),
            },
        )
    } else {
        let install_script = InstallScript::create(paths, wrapper_script.as_str(), None);
        Ok(WrapPlan { install_script, hooks: None })
    }
}

/// Law: the hidden path derived from `p` lies in `p`'s own directory, and
/// its filename is a dot, then `p`'s filename, then the `-unwrapped`
/// suffix.
pub proof fn lemma_unwrapped_path_shape(p: Seq<char>)
    requires
        spec_filename(p).len() > 0,
    ensures
        spec_dir(spec_unwrapped(p)) == spec_dir(p),
        spec_filename(spec_unwrapped(p)) == "."@ + spec_filename(p) + "-unwrapped"@,
{
    lemma_filename_start(p);
    let start = spec_filename_start(p);
    let u = spec_unwrapped(p);
    let tail = "."@ + spec_filename(p) + "-unwrapped"@;
    reveal_strlit(".");
    reveal_strlit("-unwrapped");
    assert("-unwrapped"@.len() == 10);
    assert forall|j: int| 0 <= j < 10 implies "-unwrapped"@[j] != '/' by {
        if j == 0 {
            assert("-unwrapped"@[0] == '-');
        } else if j == 1 {
            assert("-unwrapped"@[1] == 'u');
        } else if j == 2 {
            assert("-unwrapped"@[2] == 'n');
        } else if j == 3 {
            assert("-unwrapped"@[3] == 'w');
        } else if j == 4 {
            assert("-unwrapped"@[4] == 'r');
        } else if j == 5 {
            assert("-unwrapped"@[5] == 'a');
        } else if j == 6 {
            assert("-unwrapped"@[6] == 'p');
        } else if j == 7 {
            assert("-unwrapped"@[7] == 'p');
        } else if j == 8 {
            assert("-unwrapped"@[8] == 'e');
        } else {
            assert("-unwrapped"@[9] == 'd');
        }
    }
    assert(forall|j: int| start <= j < p.len() ==> #[trigger] spec_filename(p)[j - start] == p[j]);
    assert forall|j: int| start <= j < u.len() implies u[j] != '/' by {
        if j == start {
            assert(u[j] == '.');
        } else if j < start + 1 + spec_filename(p).len() {
            assert(u[j] == spec_filename(p)[j - start - 1]);
        } else {
            assert(u[j] == "-unwrapped"@[j - start - 1 - spec_filename(p).len()]);
        }
    }
    lemma_filename_start_is(u, start);
    assert(spec_dir(u) =~= spec_dir(p));
    assert(spec_filename(u) =~= tail);
}

} // verus!
