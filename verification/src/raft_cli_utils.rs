use vstd::prelude::*;

use crate::text::{
    contains_seq, find_char, join_dot, split_char, split_str, starts_with_seq, str_eq,
    str_starts_with, string_of_chars, trim_spec, trim_str, ws_tokens, ws_tokens_exec,
};

verus! {

/// The ESP-IDF version assumed when nothing names one.
pub fn default_esp_idf_version() -> (r: String)
    ensures
        r@ == "5.5.1"@,
{
    "5.5.1".to_owned()
}

/// Why running an external command failed.
#[derive(Debug)]
pub enum CommandError {
    /// The command itself was not found.
    CommandNotFound(String),
    /// The command ran but could not be driven to completion.
    ExecutionFailed(String),
    /// Some other input/output failure, described textually.
    Other(String),
}

/// The build folder for one system type: `<app folder>/build/<sys type>`.
pub fn get_build_folder_name(sys_type: String, app_folder: String) -> (r: String)
    ensures
        r@ == app_folder@ + "/build/"@ + sys_type@,
{
    let mut r = app_folder;
    r.append("/build/");
    r.append(sys_type.as_str());
    r
}

// ---------------------------------------------------------------------------
// Paths for a container runtime
// ---------------------------------------------------------------------------

/// The Windows extended-length path prefix `\\?\`.
pub open spec fn extended_path_prefix() -> Seq<char> {
    seq!['\\', '\\', '?', '\\']
}

/// Every backslash replaced by a forward slash.
pub open spec fn slashes_forward(s: Seq<char>) -> Seq<char> {
    Seq::new(s.len(), |i: int| if s[i] == '\\' {
        '/'
    } else {
        s[i]
    })
}

/// What a host path looks like to the container runtime: the
/// extended-length prefix dropped, backslashes turned into forward slashes.
pub open spec fn docker_path(s: Seq<char>) -> Seq<char> {
    if starts_with_seq(s, extended_path_prefix()) {
        slashes_forward(s.skip(4))
    } else {
        slashes_forward(s)
    }
}

/// Converts a host path for the container runtime, as `docker_path`
/// describes.
pub fn convert_path_for_docker(path: String) -> (r: String)
    ensures
        r@ == docker_path(path@),
{
    proof {
        reveal_strlit("\\\\?\\");
        assert("\\\\?\\"@ =~= extended_path_prefix());
    }
    let stripped: String = if str_starts_with(path.as_str(), "\\\\?\\") {
        let len = path.as_str().unicode_len();
        path.as_str().substring_char(4, len).to_owned()
    } else {
        path
    };
    let text: &str = stripped.as_str();
    let len = text.unicode_len();
    let mut out: Vec<char> = Vec::new();
    let mut i: usize = 0;
    while i < len
        invariant
            len == text@.len(),
            i <= len,
            out@ == slashes_forward(text@).subrange(0, i as int),
        decreases len - i,
    {
        let c = text.get_char(i);
        if c == '\\' {
            out.push('/');
        } else {
            out.push(c);
        }
        proof {
            assert(out@ =~= slashes_forward(text@).subrange(0, i + 1));
        }
        i = i + 1;
    }
    proof {
        assert(slashes_forward(text@).subrange(0, len as int) =~= slashes_forward(text@));
    }
    string_of_chars(&out)
}

// ---------------------------------------------------------------------------
// Build artifacts and system types
// ---------------------------------------------------------------------------

/// Whether the recorded build artifacts must be deleted before building
/// `sys_type`: they must when the artifacts folder exists and either its
/// record of the last-built system type is missing or unreadable, or that
/// record (trimmed) differs from the system type about to be built.
pub fn check_for_raft_artifacts_deletion(
    artifacts_folder_exists: bool,
    recorded_sys_type: Option<String>,
    sys_type: &str,
) -> (r: bool)
    ensures
        r == (artifacts_folder_exists && (match recorded_sys_type {
            Option::Some(text) => trim_spec(text@) != sys_type@,
            Option::None => true,
        })),
{
    if !artifacts_folder_exists {
        return false;
    }
    match recorded_sys_type {
        Option::Some(text) => {
            let trimmed = trim_str(text.as_str());
            !str_eq(trimmed.as_str(), sys_type)
        },
        Option::None => true,
    }
}

/// The first entry that is not `Common`, or the empty string.
pub open spec fn first_non_common(entries: Seq<Seq<char>>) -> Seq<char>
    decreases entries.len(),
{
    if entries.len() == 0 {
        Seq::empty()
    } else if entries[0] != "Common"@ {
        entries[0]
    } else {
        first_non_common(entries.drop_first())
    }
}

/// The system type to build: the one requested, or the first entry of the
/// system-types folder that is not `Common` (the empty string if none).
pub fn utils_get_sys_type(build_sys_type: &Option<String>, systype_entries: &Vec<String>) -> (r:
    String)
    ensures
        r@ == (match build_sys_type {
            Option::Some(s) => s@,
            Option::None => first_non_common(systype_entries.deep_view()),
        }),
{
    match build_sys_type {
        Option::Some(s) => s.clone(),
        Option::None => {
            let mut i: usize = 0;
            proof {
                assert(systype_entries.deep_view().skip(0) =~= systype_entries.deep_view());
            }
            while i < systype_entries.len()
                invariant
                    build_sys_type is None,
                    i <= systype_entries.len(),
                    systype_entries.deep_view().len() == systype_entries.len(),
                    first_non_common(systype_entries.deep_view()) == first_non_common(
                        systype_entries.deep_view().skip(i as int),
                    ),
                decreases systype_entries.len() - i,
            {
                let ghost rest = systype_entries.deep_view().skip(i as int);
                proof {
                    assert(rest[0] == systype_entries.deep_view()[i as int]);
                    assert(rest.drop_first() =~= systype_entries.deep_view().skip(i + 1));
                }
                if !str_eq(systype_entries[i].as_str(), "Common") {
                    proof {
                        assert(systype_entries.deep_view()[i as int] == systype_entries@[
                            i as int
                        ]@);
                        assert(first_non_common(rest) == rest[0]);
                    }
                    return systype_entries[i].clone();
                }
                i = i + 1;
            }
            proof {
                assert(systype_entries.deep_view().skip(i as int) =~= Seq::<Seq<char>>::empty());
            }
            String::new()
        },
    }
}

// ---------------------------------------------------------------------------
// Host environment
// ---------------------------------------------------------------------------

/// Whether the kernel version text carries a Linux-compatibility-layer
/// marker.
pub fn wsl_proc_version_marker(proc_version: &str) -> (r: bool)
    ensures
        r == (contains_seq(proc_version@, "Microsoft"@) || contains_seq(proc_version@, "WSL"@)),
{
    crate::text::str_contains(proc_version, "Microsoft") || crate::text::str_contains(
        proc_version,
        "WSL",
    )
}

/// Whether this process runs inside a Linux compatibility layer on another
/// host system: never for a native Windows binary; otherwise when the
/// environment names a distribution or the kernel version text carries the
/// marker.
pub fn is_wsl(
    windows_binary: bool,
    env_distro_set: bool,
    proc_version: Option<&String>,
) -> (r: bool)
    ensures
        r == (!windows_binary && (env_distro_set || (match proc_version {
            Option::Some(text) => contains_seq(text@, "Microsoft"@) || contains_seq(
                text@,
                "WSL"@,
            ),
            Option::None => false,
        }))),
{
    if windows_binary {
        return false;
    }
    if env_distro_set {
        return true;
    }
    match proc_version {
        Option::Some(text) => wsl_proc_version_marker(text.as_str()),
        Option::None => false,
    }
}

// ---------------------------------------------------------------------------
// Flash tool choice
// ---------------------------------------------------------------------------

/// The flash-tool executables to look for, most specific first, given the
/// host: on Windows, and in a compatibility layer without native serial
/// access, the Windows executables; otherwise the plain ones.
pub fn flash_tool_candidates(on_windows: bool, wsl: bool, native_serial_port: bool) -> (r: Vec<
    String,
>)
    ensures
        r.deep_view() == (if on_windows || (wsl && !native_serial_port) {
            seq!["esptool.py.exe"@, "esptool.exe"@]
        } else {
            seq!["esptool.py"@, "esptool"@]
        }),
{
    let mut r: Vec<String> = Vec::new();
    if on_windows || (wsl && !native_serial_port) {
        r.push("esptool.py.exe".to_owned());
        r.push("esptool.exe".to_owned());
        proof {
            assert(r.deep_view() =~= seq!["esptool.py.exe"@, "esptool.exe"@]);
        }
    } else {
        r.push("esptool.py".to_owned());
        r.push("esptool".to_owned());
        proof {
            assert(r.deep_view() =~= seq!["esptool.py"@, "esptool"@]);
        }
    }
    r
}

/// The flash tool to run: the one named on the command line, else the first
/// candidate found on the path, else the platform default.
pub fn get_flash_tool_cmd(
    flash_tool_opt: Option<String>,
    found_executable: Option<String>,
    on_windows: bool,
) -> (r: String)
    ensures
        r@ == (match flash_tool_opt {
            Option::Some(tool) => tool@,
            Option::None => match found_executable {
                Option::Some(exe) => exe@,
                Option::None => if on_windows {
                    "esptool.exe"@
                } else {
                    "esptool.py"@
                },
            },
        }),
{
    match flash_tool_opt {
        Option::Some(tool) => tool,
        Option::None => match found_executable {
            Option::Some(exe) => exe,
            Option::None => if on_windows {
                "esptool.exe".to_owned()
            } else {
                "esptool.py".to_owned()
            },
        },
    }
}

// ---------------------------------------------------------------------------
// ESP-IDF versions
// ---------------------------------------------------------------------------

/// `s` with every leading `v` removed.
pub open spec fn strip_leading_vs(s: Seq<char>) -> Seq<char>
    decreases s.len(),
{
    if s.len() > 0 && s[0] == 'v' {
        strip_leading_vs(s.drop_first())
    } else {
        s
    }
}

/// The version number inside the output of the version query: its second
/// word, leading `v`s removed, cut at the first `-` (so a suffix such as
/// `-dirty` is ignored); empty if the output has fewer than two words.
pub open spec fn idf_version_of_output(out: Seq<char>) -> Seq<char> {
    let toks = ws_tokens(out);
    if toks.len() >= 2 {
        let u = strip_leading_vs(toks[1]);
        u.subrange(0, find_char(u, '-'))
    } else {
        Seq::empty()
    }
}

/// A version normalised to at most its first three dot-separated parts.
pub open spec fn normalized_version(v: Seq<char>) -> Seq<char> {
    let parts = split_char(v, '.');
    if parts.len() <= 3 {
        join_dot(parts)
    } else {
        join_dot(parts.subrange(0, 3))
    }
}

/// Removes every leading `v`, as `strip_leading_vs` describes.
fn strip_leading_vs_exec(s: &str) -> (r: String)
    ensures
        r@ == strip_leading_vs(s@),
{
    let len = s.unicode_len();
    let mut i: usize = 0;
    proof {
        assert(s@.skip(0) =~= s@);
    }
    while i < len && s.get_char(i) == 'v'
        invariant
            len == s@.len(),
            i <= len,
            strip_leading_vs(s@) == strip_leading_vs(s@.skip(i as int)),
        decreases len - i,
    {
        proof {
            let rest = s@.skip(i as int);
            assert(rest[0] == s@[i as int]);
            assert(rest.drop_first() =~= s@.skip(i + 1));
        }
        i = i + 1;
    }
    proof {
        let rest = s@.skip(i as int);
        if i < len {
            assert(rest[0] == s@[i as int]);
        }
        assert(strip_leading_vs(rest) == rest);
    }
    s.substring_char(i, len).to_owned()
}

/// Extracts the version number from the output of the version query, as
/// `idf_version_of_output` describes.
pub fn idf_version_from_output(output: &str) -> (r: String)
    ensures
        r@ == idf_version_of_output(output@),
{
    let toks = ws_tokens_exec(output);
    if toks.len() >= 2 {
        proof {
            assert(toks.deep_view()[1] == toks@[1]@);
        }
        let u = strip_leading_vs_exec(toks[1].as_str());
        let cut = crate::text::find_char_exec(u.as_str(), '-');
        proof {
            crate::text::lemma_find_char_bounds(u@, '-');
        }
        u.as_str().substring_char(0, cut).to_owned()
    } else {
        String::new()
    }
}

/// Normalises a version to at most three parts, as `normalized_version`
/// describes.
pub fn normalize_version(v: &str) -> (r: String)
    ensures
        r@ == normalized_version(v@),
{
    let parts = split_str(v, '.');
    if parts.len() <= 3 {
        crate::text::join_with_dot(&parts)
    } else {
        let mut head: Vec<String> = Vec::new();
        head.push(parts[0].clone());
        head.push(parts[1].clone());
        head.push(parts[2].clone());
        proof {
            assert(head.deep_view() =~= parts.deep_view().subrange(0, 3));
        }
        crate::text::join_with_dot(&head)
    }
}

/// Whether the installed ESP-IDF version satisfies the required one: the
/// version in the query output and the required version agree once both are
/// normalised to three parts.
pub fn idf_version_ok(version_query_output: &str, required_esp_idf_version: &str) -> (r: bool)
    ensures
        r == (normalized_version(idf_version_of_output(version_query_output@))
            == normalized_version(required_esp_idf_version@)),
{
    let found = idf_version_from_output(version_query_output);
    let a = normalize_version(found.as_str());
    let b = normalize_version(required_esp_idf_version);
    str_eq(a.as_str(), b.as_str())
}

/// The image prefix a build container is derived from.
pub open spec fn idf_image_prefix() -> Seq<char> {
    "FROM espressif/idf:"@
}

/// What one Dockerfile line names: for a line starting with the image
/// prefix, the rest of the line, trimmed, with a single leading `v`
/// removed.
pub open spec fn idf_version_of_line(line: Seq<char>) -> Seq<char> {
    let rest = trim_spec(line.skip(idf_image_prefix().len() as int));
    if rest.len() > 0 && rest[0] == 'v' {
        rest.drop_first()
    } else {
        rest
    }
}

/// The ESP-IDF version a Dockerfile names: taken from its first line that
/// starts with the image prefix, or nothing.
pub open spec fn dockerfile_idf_version(lines: Seq<Seq<char>>) -> Option<Seq<char>>
    decreases lines.len(),
{
    if lines.len() == 0 {
        Option::None
    } else if starts_with_seq(lines[0], idf_image_prefix()) {
        Option::Some(idf_version_of_line(lines[0]))
    } else {
        dockerfile_idf_version(lines.drop_first())
    }
}

/// Reads the ESP-IDF version out of the lines of a Dockerfile, as
/// `dockerfile_idf_version` describes.
pub fn get_esp_idf_version_from_dockerfile(dockerfile_lines: &Vec<String>) -> (r: Option<String>)
    ensures
        match r {
            Some(v) => dockerfile_idf_version(dockerfile_lines.deep_view()) == Some(v@),
            None => dockerfile_idf_version(dockerfile_lines.deep_view()) is None,
        },
{
    let mut i: usize = 0;
    proof {
        assert(dockerfile_lines.deep_view().skip(0) =~= dockerfile_lines.deep_view());
    }
    while i < dockerfile_lines.len()
        invariant
            i <= dockerfile_lines.len(),
            dockerfile_lines.deep_view().len() == dockerfile_lines.len(),
            dockerfile_idf_version(dockerfile_lines.deep_view()) == dockerfile_idf_version(
                dockerfile_lines.deep_view().skip(i as int),
            ),
        decreases dockerfile_lines.len() - i,
    {
        let ghost rest = dockerfile_lines.deep_view().skip(i as int);
        proof {
            assert(rest[0] == dockerfile_lines.deep_view()[i as int]);
            assert(rest.drop_first() =~= dockerfile_lines.deep_view().skip(i + 1));
        }
        let line: &String = &dockerfile_lines[i];
        if str_starts_with(line.as_str(), "FROM espressif/idf:") {
            let len = line.as_str().unicode_len();
            proof {
                assert(idf_image_prefix().len() == 19) by {
                    reveal_strlit("FROM espressif/idf:");
                }
                assert(starts_with_seq(line@, idf_image_prefix()));
            }
            let tail = line.as_str().substring_char(19, len);
            let rest_trimmed = trim_str(tail);
            let rlen = rest_trimmed.as_str().unicode_len();
            let out: String = if rlen > 0 && rest_trimmed.as_str().get_char(0) == 'v' {
                rest_trimmed.as_str().substring_char(1, rlen).to_owned()
            } else {
                rest_trimmed
            };
            proof {
                assert(tail@ =~= line@.skip(idf_image_prefix().len() as int));
                assert(out@ =~= idf_version_of_line(line@)) by {
                    let rv = trim_spec(line@.skip(idf_image_prefix().len() as int));
                    if rv.len() > 0 && rv[0] == 'v' {
                        assert(rv.subrange(1, rv.len() as int) =~= rv.drop_first());
                    }
                }
            }
            return Some(out);
        }
        i = i + 1;
    }
    proof {
        assert(dockerfile_lines.deep_view().skip(i as int) =~= Seq::<Seq<char>>::empty());
    }
    None
}

} // verus!
