use vstd::prelude::*;

use crate::text::{
    chars_eq, chars_of, concat2, concat3, contains_text,
    replace_all, slice_chars, split_chars, split_on, str_contains, string_of, string_views,
    views,
};

verus! {

// ---------------------------------------------------------------------------
// Unix paths built from parts
// ---------------------------------------------------------------------------

/// A single Unix file name: not empty and free of `/`.
pub open spec fn is_unix_name(name: Seq<char>) -> bool {
    name.len() > 0 && !name.contains('/')
}

/// `base` joined with the name `name` the way Unix paths are: a `/` goes between unless `base`
/// is empty or already ends with one.
pub open spec fn unix_join(base: Seq<char>, name: Seq<char>) -> Seq<char> {
    if base.len() == 0 || base.last() == '/' {
        base + name
    } else {
        base + seq!['/'] + name
    }
}

/// `base` joined with each name of `names` in turn.
pub open spec fn unix_join_all(base: Seq<char>, names: Seq<Seq<char>>) -> Seq<char>
    decreases names.len(),
{
    if names.len() == 0 {
        base
    } else {
        unix_join(unix_join_all(base, names.drop_last()), names.last())
    }
}

/// `base` joined with `name`, Unix style.
pub fn unix_join_name(base: &str, name: &str) -> (r: String)
    requires
        is_unix_name(name@),
    ensures
        r@ == unix_join(base@, name@),
{
    let b = chars_of(base);
    proof {
        reveal_strlit("/");
    }
    if b.len() == 0 || b[b.len() - 1] == '/' {
        concat2(base, name)
    } else {
        concat3(base, "/", name)
    }
}

/// The names under the home directory of the directory that holds this tool's files.
pub open spec fn integration_root_names() -> Seq<Seq<char>> {
    seq!["Library"@, "Application Support"@, "OpenAI"@, "Codex"@, "OpenWithCodexApp"@]
}

/// The directory that holds this tool's files:
/// `~/Library/Application Support/OpenAI/Codex/OpenWithCodexApp`.
pub fn integration_root(home: &str) -> (r: String)
    ensures
        r@ == unix_join_all(home@, integration_root_names()),
{
    proof {
        reveal_strlit("Library");
        reveal_strlit("Application Support");
        reveal_strlit("OpenAI");
        reveal_strlit("Codex");
        reveal_strlit("OpenWithCodexApp");
    }
    let a = unix_join_name(home, "Library");
    let b = unix_join_name(a.as_str(), "Application Support");
    let c = unix_join_name(b.as_str(), "OpenAI");
    let d = unix_join_name(c.as_str(), "Codex");
    let e = unix_join_name(d.as_str(), "OpenWithCodexApp");
    proof {
        let n = integration_root_names();
        reveal_with_fuel(unix_join_all, 6);
        assert(n.drop_last().drop_last().drop_last().drop_last().drop_last() =~= Seq::<
            Seq<char>,
        >::empty());
        assert(n.drop_last().drop_last().drop_last().drop_last().last() == "Library"@);
        assert(n.drop_last().drop_last().drop_last().last() == "Application Support"@);
        assert(n.drop_last().drop_last().last() == "OpenAI"@);
        assert(n.drop_last().last() == "Codex"@);
        assert(n.last() == "OpenWithCodexApp"@);
    }
    e
}

/// Where the stable launcher is kept: the tool's directory joined with the executable's name.
pub fn stable_launcher_path(home: &str, exe_file_name: &str) -> (r: String)
    requires
        is_unix_name(exe_file_name@),
    ensures
        r@ == unix_join(unix_join_all(home@, integration_root_names()), exe_file_name@),
{
    let root = integration_root(home);
    unix_join_name(root.as_str(), exe_file_name)
}

/// The directory that holds the `codex` command shim: `~/.codex/bin`.
pub fn cli_shim_dir(home: &str) -> (r: String)
    ensures
        r@ == unix_join(unix_join(home@, ".codex"@), "bin"@),
{
    proof {
        reveal_strlit(".codex");
        reveal_strlit("bin");
    }
    let a = unix_join_name(home, ".codex");
    unix_join_name(a.as_str(), "bin")
}

/// Where the `codex` command shim goes: `~/.codex/bin/codex`.
pub fn cli_shim_path(home: &str) -> (r: String)
    ensures
        r@ == unix_join(unix_join(unix_join(home@, ".codex"@), "bin"@), "codex"@),
{
    proof {
        reveal_strlit("codex");
    }
    let d = cli_shim_dir(home);
    unix_join_name(d.as_str(), "codex")
}

/// Where the Finder service lives: `~/Library/Services/Open with Codex app.workflow`.
pub fn finder_workflow_path(home: &str) -> (r: String)
    ensures
        r@ == unix_join(unix_join(unix_join(home@, "Library"@), "Services"@), "Open with Codex app.workflow"@),
{
    proof {
        reveal_strlit("Library");
        reveal_strlit("Services");
        reveal_strlit("Open with Codex app.workflow");
    }
    let a = unix_join_name(home, "Library");
    let b = unix_join_name(a.as_str(), "Services");
    unix_join_name(b.as_str(), "Open with Codex app.workflow")
}

/// The files of the Finder service bundle at `workflow`: its `Contents` directory, the
/// `Info.plist` and the `document.wflow` in it.
pub fn finder_workflow_files(workflow: &str) -> (r: (String, String, String))
    ensures
        r.0@ == unix_join(workflow@, "Contents"@),
        r.1@ == unix_join(unix_join(workflow@, "Contents"@), "Info.plist"@),
        r.2@ == unix_join(unix_join(workflow@, "Contents"@), "document.wflow"@),
{
    proof {
        reveal_strlit("Contents");
        reveal_strlit("Info.plist");
        reveal_strlit("document.wflow");
    }
    let contents = unix_join_name(workflow, "Contents");
    let plist = unix_join_name(contents.as_str(), "Info.plist");
    let wflow = unix_join_name(contents.as_str(), "document.wflow");
    (contents, plist, wflow)
}

/// The shell profiles that get the PATH block: `~/.zshrc` and `~/.bash_profile`.
pub fn shell_profiles(home: &str) -> (r: Vec<String>)
    ensures
        string_views(r@) == seq![unix_join(home@, ".zshrc"@), unix_join(home@, ".bash_profile"@)],
{
    proof {
        reveal_strlit(".zshrc");
        reveal_strlit(".bash_profile");
    }
    let a = unix_join_name(home, ".zshrc");
    let b = unix_join_name(home, ".bash_profile");
    let r = vec![a, b];
    assert(string_views(r@) =~= seq![a@, b@]);
    r
}

/// The places where the Codex app is usually installed, in the order they are tried: the
/// system Applications folder, then the user's, each under both names of the app.
pub fn find_standard_codex_bundle_candidates(home: Option<&str>) -> (r: Vec<String>)
    ensures
        string_views(r@) == seq!["/Applications/Codex.app"@, "/Applications/OpenAI Codex.app"@] + match home {
            Some(h) => seq![
                unix_join(unix_join(h@, "Applications"@), "Codex.app"@),
                unix_join(unix_join(h@, "Applications"@), "OpenAI Codex.app"@),
            ],
            None => Seq::empty(),
        },
{
    let mut r: Vec<String> = Vec::new();
    r.push(String::from_str("/Applications/Codex.app"));
    r.push(String::from_str("/Applications/OpenAI Codex.app"));
    let ghost first = r@;
    match home {
        Some(h) => {
            proof {
                reveal_strlit("Applications");
                reveal_strlit("Codex.app");
                reveal_strlit("OpenAI Codex.app");
            }
            let apps = unix_join_name(h, "Applications");
            let a = unix_join_name(apps.as_str(), "Codex.app");
            let b = unix_join_name(apps.as_str(), "OpenAI Codex.app");
            let ghost a_view = a@;
            let ghost b_view = b@;
            r.push(a);
            r.push(b);
            assert(string_views(r@) =~= seq!["/Applications/Codex.app"@, "/Applications/OpenAI Codex.app"@]
                + seq![a_view, b_view]);
        },
        None => {
            assert(string_views(r@) =~= seq!["/Applications/Codex.app"@, "/Applications/OpenAI Codex.app"@]
                + Seq::<Seq<char>>::empty());
        },
    }
    r
}

} // verus!

verus! {

// ---------------------------------------------------------------------------
// Comparing Unix paths by their components
// ---------------------------------------------------------------------------

/// The names between the `/`s, without the empty ones and the `.`s.
pub open spec fn unix_normal_parts(pieces: Seq<Seq<char>>) -> Seq<Seq<char>>
    decreases pieces.len(),
{
    if pieces.len() == 0 {
        Seq::empty()
    } else {
        let rest = unix_normal_parts(pieces.drop_last());
        let p = pieces.last();
        if p.len() == 0 || p == seq!['.'] {
            rest
        } else {
            rest.push(p)
        }
    }
}

/// A relative path that starts with the current directory: `.` or `./...`.
pub open spec fn starts_with_cur_dir(s: Seq<char>) -> bool {
    s.len() > 0 && s[0] == '.' && (s.len() == 1 || s[1] == '/')
}

/// The components of a Unix path, as `Path::components` gives them: the root as `/`, a leading
/// current directory as `.`, then the names.
pub open spec fn unix_components(s: Seq<char>) -> Seq<Seq<char>> {
    (if s.len() > 0 && s[0] == '/' {
        seq![seq!['/']]
    } else {
        Seq::empty()
    }) + (if starts_with_cur_dir(s) {
        seq![seq!['.']]
    } else {
        Seq::empty()
    }) + unix_normal_parts(split_on(s, '/'))
}

/// Two Unix paths are equal as `Path`s: they have the same components.
pub open spec fn same_unix_path(a: Seq<char>, b: Seq<char>) -> bool {
    unix_components(a) == unix_components(b)
}

/// `Path::starts_with`: the components of `base` begin the components of `path`.
pub open spec fn unix_path_starts_with(path: Seq<char>, base: Seq<char>) -> bool {
    let p = unix_components(path);
    let b = unix_components(base);
    b.len() <= p.len() && p.take(b.len() as int) == b
}

fn copy_chars(v: &Vec<char>) -> (r: Vec<char>)
    ensures
        r@ == v@,
{
    let r = slice_chars(v, 0, v.len());
    assert(r@ =~= v@);
    r
}

fn unix_components_of(s: &Vec<char>) -> (r: Vec<Vec<char>>)
    ensures
        views(r@) == unix_components(s@),
{
    let mut r: Vec<Vec<char>> = Vec::new();
    let ghost lead: Seq<Seq<char>> = Seq::empty();
    assert(views(r@) =~= lead);
    if s.len() > 0 && s[0] == '/' {
        let slash = vec!['/'];
        assert(slash@ == seq!['/']);
        r.push(slash);
        proof {
            lead = seq![seq!['/']];
        }
        assert(views(r@).len() == 1);
        assert(views(r@)[0] == seq!['/']);
        assert(views(r@) =~= lead);
    }
    if s.len() > 0 && s[0] == '.' && (s.len() == 1 || s[1] == '/') {
        let ghost prev = r@;
        let dot = vec!['.'];
        assert(dot@ == seq!['.']);
        r.push(dot);
        proof {
            lead = lead + seq![seq!['.']];
        }
        assert(views(r@).len() == views(prev).len() + 1);
        assert(views(r@) =~= views(prev).push(seq!['.']));
    }
    assert(views(r@) == (if s@.len() > 0 && s@[0] == '/' {
        seq![seq!['/']]
    } else {
        Seq::<Seq<char>>::empty()
    }) + (if starts_with_cur_dir(s@) {
        seq![seq!['.']]
    } else {
        Seq::<Seq<char>>::empty()
    }));
    let ghost start = views(r@);
    let pieces = split_chars(s, '/');
    for i in 0..pieces.len()
        invariant
            views(pieces@) == split_on(s@, '/'),
            views(r@) == start + unix_normal_parts(views(pieces@).take(i as int)),
    {
        let ghost upto = views(pieces@).take(i + 1);
        assert(upto.drop_last() == views(pieces@).take(i as int));
        assert(upto.last() == pieces@[i as int]@);
        let p = &pieces[i];
        let is_dot = p.len() == 1 && p[0] == '.';
        assert(is_dot == (p@ == seq!['.'])) by {
            if p@.len() == 1 && p@[0] == '.' {
                assert(p@ =~= seq!['.']);
            }
        }
        if !(p.len() == 0 || is_dot) {
            let c = copy_chars(p);
            let ghost prev = r@;
            r.push(c);
            assert(views(r@) =~= views(prev).push(c@));
            assert(start + unix_normal_parts(views(pieces@).take(i as int)).push(c@) == (start
                + unix_normal_parts(views(pieces@).take(i as int))).push(c@));
        }
    }
    assert(views(pieces@).take(pieces.len() as int) == views(pieces@));
    r
}

fn seqs_equal(a: &Vec<Vec<char>>, b: &Vec<Vec<char>>, n: usize) -> (r: bool)
    requires
        n <= a.len(),
        n <= b.len(),
    ensures
        r == (views(a@).take(n as int) == views(b@).take(n as int)),
{
    for i in 0..n
        invariant
            n <= a.len(),
            n <= b.len(),
            forall|k: int| 0 <= k < i ==> views(a@)[k] == views(b@)[k],
    {
        if !chars_eq(&a[i], &b[i]) {
            assert(views(a@).take(n as int)[i as int] != views(b@).take(n as int)[i as int]);
            return false;
        }
    }
    assert(views(a@).take(n as int) =~= views(b@).take(n as int));
    true
}

/// Whether two Unix paths are equal as `Path`s, component by component.
pub fn unix_paths_equal(a: &str, b: &str) -> (r: bool)
    ensures
        r == same_unix_path(a@, b@),
{
    let x = unix_components_of(&chars_of(a));
    let y = unix_components_of(&chars_of(b));
    if x.len() != y.len() {
        return false;
    }
    let r = seqs_equal(&x, &y, x.len());
    assert(views(x@).take(x.len() as int) == views(x@));
    assert(views(y@).take(y.len() as int) == views(y@));
    r
}

/// Whether the Unix path `path` starts with the components of `base`.
pub fn unix_path_has_base(path: &str, base: &str) -> (r: bool)
    ensures
        r == unix_path_starts_with(path@, base@),
{
    let p = unix_components_of(&chars_of(path));
    let b = unix_components_of(&chars_of(base));
    if b.len() > p.len() {
        return false;
    }
    let r = seqs_equal(&p, &b, b.len());
    assert(views(b@).take(b.len() as int) == views(b@));
    r
}

} // verus!

verus! {

// ---------------------------------------------------------------------------
// The PATH block in shell profiles
// ---------------------------------------------------------------------------

/// The comment line that marks the block this tool adds to a shell profile.
pub open spec fn profile_marker() -> Seq<char> {
    "# Added by Open with Codex app"@
}

/// The block that puts the shim directory in front of PATH.
pub open spec fn path_block(shim_dir: Seq<char>) -> Seq<char> {
    profile_marker() + "\nexport PATH=\""@ + shim_dir + ":$PATH\""@
}

/// The block that puts `shim_dir` in front of PATH, with its marker line.
pub fn profile_path_block(shim_dir: &str) -> (r: String)
    ensures
        r@ == path_block(shim_dir@),
{
    let mut r = String::from_str("# Added by Open with Codex app");
    r.append("\nexport PATH=\"");
    r.append(shim_dir);
    r.append(":$PATH\"");
    r
}

/// A profile without the PATH block: each occurrence followed by a newline goes first, then any
/// remaining occurrence.
pub open spec fn profile_without_block(content: Seq<char>, shim_dir: Seq<char>) -> Seq<char> {
    replace_all(
        replace_all(content, path_block(shim_dir) + seq!['\n'], Seq::empty()),
        path_block(shim_dir),
        Seq::empty(),
    )
}

/// The profile text without the PATH block for `shim_dir`.
pub fn remove_profile_path_block(content: &str, shim_dir: &str) -> (r: String)
    ensures
        r@ == profile_without_block(content@, shim_dir@),
{
    let block = profile_path_block(shim_dir);
    let b = chars_of(block.as_str());
    let mut line = chars_of(block.as_str());
    line.push('\n');
    let empty: Vec<char> = Vec::new();
    let c = chars_of(content);
    proof {
        assert(b@ == path_block(shim_dir@));
        assert(line@ == path_block(shim_dir@) + seq!['\n']);
        assert(empty@ == Seq::<char>::empty());
        reveal_strlit("# Added by Open with Codex app");
    }
    let first = crate::text::replace_chars(&c, &line, &empty);
    let second = crate::text::replace_chars(&first, &b, &empty);
    string_of(&second)
}

/// What goes between a profile's text and an appended block: a newline unless the text is empty
/// or already ends with one.
pub open spec fn block_separator(content: Seq<char>) -> Seq<char> {
    if content.len() == 0 || content.last() == '\n' {
        Seq::empty()
    } else {
        seq!['\n']
    }
}

/// A profile with `block` appended on lines of its own, or nothing when the profile holds the
/// block already.
pub open spec fn profile_with_block(content: Seq<char>, block: Seq<char>) -> Option<Seq<char>> {
    if contains_text(content, block) {
        None
    } else {
        Some(content + block_separator(content) + block + seq!['\n'])
    }
}

/// The new text of a profile that is to get `block`, or `None` when it holds the block already.
pub fn profile_content_with_block(content: &str, block: &str) -> (r: Option<String>)
    ensures
        match r {
            Some(s) => profile_with_block(content@, block@) == Some(s@),
            None => profile_with_block(content@, block@) is None,
        },
{
    if str_contains(content, block) {
        return None;
    }
    let c = chars_of(content);
    let mut out = chars_of(content);
    if c.len() > 0 && c[c.len() - 1] != '\n' {
        out.push('\n');
    }
    let b = chars_of(block);
    crate::text::extend_chars(&mut out, &b);
    out.push('\n');
    Some(string_of(&out))
}

/// The shell already finds the shim: PATH lists its directory, or a profile holds the block.
pub open spec fn shell_path_is_registered(
    path_entries: Seq<Seq<char>>,
    shim_dir: Seq<char>,
    profiles: Seq<Seq<char>>,
) -> bool {
    ||| exists|i: int| 0 <= i < path_entries.len() && same_unix_path(#[trigger] path_entries[i], shim_dir)
    ||| exists|i: int| 0 <= i < profiles.len() && contains_text(#[trigger] profiles[i], path_block(shim_dir))
}

/// Whether the shell already finds the shim, from the entries of PATH and the text of the
/// profiles that could be read.
pub fn shell_path_registered(
    path_entries: &Vec<String>,
    shim_dir: &str,
    profile_contents: &Vec<String>,
) -> (r: bool)
    ensures
        r == shell_path_is_registered(string_views(path_entries@), shim_dir@, string_views(profile_contents@)),
{
    let ghost entries = string_views(path_entries@);
    let ghost profiles = string_views(profile_contents@);
    for i in 0..path_entries.len()
        invariant
            entries == string_views(path_entries@),
            forall|k: int| 0 <= k < i ==> !same_unix_path(#[trigger] entries[k], shim_dir@),
    {
        if unix_paths_equal(path_entries[i].as_str(), shim_dir) {
            assert(same_unix_path(entries[i as int], shim_dir@));
            return true;
        }
    }
    let block = profile_path_block(shim_dir);
    for i in 0..profile_contents.len()
        invariant
            entries == string_views(path_entries@),
            profiles == string_views(profile_contents@),
            block@ == path_block(shim_dir@),
            forall|k: int| 0 <= k < entries.len() ==> !same_unix_path(#[trigger] entries[k], shim_dir@),
            forall|k: int| 0 <= k < i ==> !contains_text(#[trigger] profiles[k], path_block(shim_dir@)),
    {
        if str_contains(profile_contents[i].as_str(), block.as_str()) {
            assert(contains_text(profiles[i as int], path_block(shim_dir@)));
            return true;
        }
    }
    false
}

} // verus!

verus! {

// ---------------------------------------------------------------------------
// Forwarding `codex` commands to an existing Codex CLI
// ---------------------------------------------------------------------------

/// One directory of PATH, with whether `codex` in it is a file.
#[derive(Debug, Clone)]
pub struct UnixDirProbe {
    pub dir: String,
    pub codex_is_file: bool,
}

/// The Codex CLI that a `codex` command is forwarded to: `codex` in the first PATH directory,
/// other than the running executable's own, where it is a file and not the running executable.
pub open spec fn unix_forward_choice(
    current_exe: Option<Seq<char>>,
    current_dir: Option<Seq<char>>,
    probes: Seq<UnixDirProbe>,
) -> Option<Seq<char>>
    decreases probes.len(),
{
    if probes.len() == 0 {
        None
    } else {
        let p = probes[0];
        let own_dir = match current_dir {
            Some(d) => same_unix_path(d, p.dir@),
            None => false,
        };
        let target = unix_join(p.dir@, "codex"@);
        let usable = match current_exe {
            Some(c) => !same_unix_path(c, target),
            None => true,
        };
        if !own_dir && p.codex_is_file && usable {
            Some(target)
        } else {
            unix_forward_choice(current_exe, current_dir, probes.drop_first())
        }
    }
}

pub open spec fn opt_str_view(s: Option<&str>) -> Option<Seq<char>> {
    match s {
        Some(x) => Some(x@),
        None => None,
    }
}

pub open spec fn opt_string_view(s: Option<String>) -> Option<Seq<char>> {
    match s {
        Some(x) => Some(x@),
        None => None,
    }
}

/// The existing Codex CLI to forward a `codex` command to, from what was found on PATH.
pub fn find_forward_target(
    current_exe: Option<&str>,
    current_dir: Option<&str>,
    probes: &Vec<UnixDirProbe>,
) -> (r: Option<String>)
    ensures
        opt_string_view(r) == unix_forward_choice(opt_str_view(current_exe), opt_str_view(current_dir), probes@),
{
    let ghost cur = opt_str_view(current_exe);
    let ghost cdir = opt_str_view(current_dir);
    assert(probes@.skip(0) == probes@);
    proof {
        reveal_strlit("codex");
    }
    for i in 0..probes.len()
        invariant
            cur == opt_str_view(current_exe),
            cdir == opt_str_view(current_dir),
            unix_forward_choice(cur, cdir, probes@) == unix_forward_choice(cur, cdir, probes@.skip(i as int)),
    {
        let p = &probes[i];
        proof {
            assert(probes@.skip(i as int)[0] == probes@[i as int]);
            assert(probes@.skip(i as int).drop_first() == probes@.skip(i + 1));
        }
        let own_dir = match current_dir {
            Some(d) => unix_paths_equal(d, p.dir.as_str()),
            None => false,
        };
        proof {
            reveal_strlit("codex");
        }
        let target = unix_join_name(p.dir.as_str(), "codex");
        let usable = match current_exe {
            Some(c) => !unix_paths_equal(c, target.as_str()),
            None => true,
        };
        if !own_dir && p.codex_is_file && usable {
            return Some(target);
        }
    }
    None
}

} // verus!

verus! {

/// A PATH directory that a `codex` command may be forwarded to: not the running executable's
/// own directory, with `codex` in it a file that is not the running executable.
pub open spec fn unix_probe_usable(
    current_exe: Option<Seq<char>>,
    current_dir: Option<Seq<char>>,
    probe: UnixDirProbe,
) -> bool {
    &&& !(current_dir matches Some(d) && same_unix_path(d, probe.dir@))
    &&& probe.codex_is_file
    &&& !(current_exe matches Some(c) && same_unix_path(c, unix_join(probe.dir@, "codex"@)))
}

/// Forwarding goes to `codex` in the first usable PATH directory, as the shell would pick it:
/// where some directory is usable, the target is `codex` in one of them and no directory
/// before it is usable; where none is, there is no target. So where the first directory is
/// usable, the target is `codex` in it, whatever comes after.
pub proof fn law_first_usable_dir_wins(
    current_exe: Option<Seq<char>>,
    current_dir: Option<Seq<char>>,
    probes: Seq<UnixDirProbe>,
)
    ensures
        match unix_forward_choice(current_exe, current_dir, probes) {
            Some(t) => exists|k: int|
                0 <= k < probes.len() && unix_probe_usable(current_exe, current_dir, #[trigger] probes[k])
                    && t == unix_join(probes[k].dir@, "codex"@) && forall|j: int|
                    0 <= j < k ==> !unix_probe_usable(current_exe, current_dir, #[trigger] probes[j]),
            None => forall|k: int|
                0 <= k < probes.len() ==> !unix_probe_usable(current_exe, current_dir, #[trigger] probes[k]),
        },
        probes.len() > 0 && unix_probe_usable(current_exe, current_dir, probes[0]) ==> unix_forward_choice(
            current_exe,
            current_dir,
            probes,
        ) == Some(unix_join(probes[0].dir@, "codex"@)),
    decreases probes.len(),
{
    if probes.len() > 0 {
        let rest = probes.drop_first();
        law_first_usable_dir_wins(current_exe, current_dir, rest);
        let first_usable = unix_probe_usable(current_exe, current_dir, probes[0]);
        if !first_usable {
            match unix_forward_choice(current_exe, current_dir, rest) {
                Some(t) => {
                    let k = choose|k: int|
                        0 <= k < rest.len() && unix_probe_usable(current_exe, current_dir, #[trigger] rest[k])
                            && t == unix_join(rest[k].dir@, "codex"@) && forall|j: int|
                            0 <= j < k ==> !unix_probe_usable(current_exe, current_dir, #[trigger] rest[j]);
                    assert(probes[k + 1] == rest[k]);
                    assert forall|j: int| 0 <= j < k + 1 implies !unix_probe_usable(
                        current_exe,
                        current_dir,
                        #[trigger] probes[j],
                    ) by {
                        if j > 0 {
                            assert(probes[j] == rest[j - 1]);
                        }
                    }
                },
                None => {
                    assert forall|k: int| 0 <= k < probes.len() implies !unix_probe_usable(
                        current_exe,
                        current_dir,
                        #[trigger] probes[k],
                    ) by {
                        if k > 0 {
                            assert(probes[k] == rest[k - 1]);
                        }
                    }
                },
            }
        } else {
            assert(unix_probe_usable(current_exe, current_dir, probes[0]));
        }
    }
}

/// Whether the stable launcher is to be removed while the uninstaller runs from the helper
/// directory: it exists and is not the running executable.
pub fn launcher_removable(launcher_exists: bool, current_exe: Option<&str>, launcher: &str) -> (r: bool)
    ensures
        r == (launcher_exists && match current_exe {
            Some(c) => !same_unix_path(c@, launcher@),
            None => true,
        }),
{
    if !launcher_exists {
        return false;
    }
    match current_exe {
        Some(c) => !unix_paths_equal(c, launcher),
        None => true,
    }
}

} // verus!

verus! {

// ---------------------------------------------------------------------------
// Laws of the shell profile block
// ---------------------------------------------------------------------------

proof fn lemma_block_not_empty(shim_dir: Seq<char>)
    ensures
        path_block(shim_dir).len() > 0,
{
    reveal_strlit("# Added by Open with Codex app");
}

/// Uninstalling leaves a profile alone exactly when it does not hold the PATH block.
pub proof fn law_profile_untouched_iff_no_block(content: Seq<char>, shim_dir: Seq<char>)
    ensures
        profile_without_block(content, shim_dir) == content <==> !contains_text(
            content,
            path_block(shim_dir),
        ),
{
    let b = path_block(shim_dir);
    let t = b + seq!['\n'];
    let e = Seq::<char>::empty();
    lemma_block_not_empty(shim_dir);
    let first = replace_all(content, t, e);
    crate::text::lemma_remove_shortens(content, t);
    crate::text::lemma_remove_shortens(first, b);
    if !contains_text(content, b) {
        assert(!contains_text(content, t)) by {
            if contains_text(content, t) {
                let i = choose|i: int| crate::text::occurs_at(content, t, i);
                assert(content.subrange(i, i + b.len()) =~= t.subrange(0, b.len() as int));
                assert(t.subrange(0, b.len() as int) =~= b);
                assert(crate::text::occurs_at(content, b, i));
            }
        }
        crate::text::lemma_replace_absent(content, t, e);
        crate::text::lemma_replace_absent(content, b, e);
    } else {
        if !contains_text(content, t) {
            crate::text::lemma_replace_absent(content, t, e);
        }
    }
}

/// A profile that was given the PATH block holds it.
pub proof fn law_registered_profile_holds_block(content: Seq<char>, shim_dir: Seq<char>)
    ensures
        match profile_with_block(content, path_block(shim_dir)) {
            Some(new_content) => contains_text(new_content, path_block(shim_dir)),
            None => contains_text(content, path_block(shim_dir)),
        },
{
    let b = path_block(shim_dir);
    let pre = content + block_separator(content);
    let new_content = pre + b + seq!['\n'];
    assert(new_content.subrange(pre.len() as int, (pre.len() + b.len()) as int) =~= b);
    assert(crate::text::occurs_at(new_content, b, pre.len() as int));
}

/// Registering twice changes a profile once: a profile that was given the block is left as it
/// is the second time.
pub proof fn law_register_profile_idempotent(content: Seq<char>, shim_dir: Seq<char>)
    requires
        profile_with_block(content, path_block(shim_dir)) is Some,
    ensures
        profile_with_block(profile_with_block(content, path_block(shim_dir))->0, path_block(shim_dir))
            is None,
{
    law_registered_profile_holds_block(content, shim_dir);
}

/// Uninstalling undoes installing: taking the PATH block out of a profile that was given it
/// leaves the profile's text with the newline that may have been put before the block, provided
/// the block does not also start anywhere in that text.
pub proof fn law_remove_undoes_register(content: Seq<char>, shim_dir: Seq<char>)
    requires
        forall|i: int|
            0 <= i < content.len() + block_separator(content).len() ==> !crate::text::occurs_at(
                content + block_separator(content) + path_block(shim_dir) + seq!['\n'],
                path_block(shim_dir),
                i,
            ),
    ensures
        profile_with_block(content, path_block(shim_dir)) == Some(
            content + block_separator(content) + path_block(shim_dir) + seq!['\n'],
        ),
        profile_without_block(
            content + block_separator(content) + path_block(shim_dir) + seq!['\n'],
            shim_dir,
        ) == content + block_separator(content),
{
    let b = path_block(shim_dir);
    let t = b + seq!['\n'];
    let e = Seq::<char>::empty();
    lemma_block_not_empty(shim_dir);
    let pre = content + block_separator(content);
    let whole = pre + b + seq!['\n'];
    assert(whole == pre + t);
    assert forall|i: int| 0 <= i < pre.len() implies !crate::text::occurs_at(pre + t, t, i) by {
        if crate::text::occurs_at(pre + t, t, i) {
            assert((pre + t).subrange(i, i + b.len()) =~= t.subrange(0, b.len() as int));
            assert(t.subrange(0, b.len() as int) =~= b);
            assert(crate::text::occurs_at(whole, b, i));
        }
    }
    crate::text::lemma_replace_no_match_prefix(pre, t, t, e);
    crate::text::lemma_replace_at_front(Seq::empty(), t, e);
    assert(t + Seq::<char>::empty() == t);
    assert(replace_all(Seq::<char>::empty(), t, e) == Seq::<char>::empty());
    assert(replace_all(whole, t, e) == pre);
    assert(!contains_text(pre, b)) by {
        if contains_text(pre, b) {
            let i = choose|i: int| crate::text::occurs_at(pre, b, i);
            assert(whole.subrange(i, i + b.len()) =~= pre.subrange(i, i + b.len()));
            assert(crate::text::occurs_at(whole, b, i));
        }
    }
    crate::text::lemma_replace_absent(pre, b, e);
    assert(!contains_text(content, b)) by {
        if contains_text(content, b) {
            let i = choose|i: int| crate::text::occurs_at(content, b, i);
            assert(pre.subrange(i, i + b.len()) =~= content.subrange(i, i + b.len()));
            assert(crate::text::occurs_at(pre, b, i));
        }
    }
}

} // verus!

verus! {

/// The new text of a profile once the PATH block is taken out, or `None` when the profile stays
/// as it is (and is not rewritten). An uninstall run reports the shell profiles as changed when
/// some profile gets a new text.
pub fn profile_after_block_removal(content: &str, shim_dir: &str) -> (r: Option<String>)
    ensures
        match r {
            Some(new_content) => new_content@ == profile_without_block(content@, shim_dir@)
                && new_content@ != content@,
            None => profile_without_block(content@, shim_dir@) == content@,
        },
{
    let new_content = remove_profile_path_block(content, shim_dir);
    if crate::text::str_eq(new_content.as_str(), content) {
        None
    } else {
        Some(new_content)
    }
}

} // verus!
