use vstd::prelude::*;

use crate::text::{
    chars_eq_ignore_ascii_case, chars_of, chars_start_with_ignore_ascii_case, eq_ignore_ascii_case,
    join_chars, join_with, split_chars, split_on, starts_with_ignore_ascii_case,
    string_of, string_views, strings_of, trim, trim_chars, trim_end, trim_end_chars, views,
    CharClass,
};

verus! {

// ---------------------------------------------------------------------------
// The user PATH value: entries separated by ';'
// ---------------------------------------------------------------------------

/// The entries that the pieces of a PATH value stand for: each piece trimmed of white space,
/// the empty ones left out, and the rest trimmed of double quotes.
pub open spec fn clean_entries(pieces: Seq<Seq<char>>) -> Seq<Seq<char>>
    decreases pieces.len(),
{
    if pieces.len() == 0 {
        Seq::empty()
    } else {
        let rest = clean_entries(pieces.drop_last());
        let t = trim(pieces.last(), CharClass::WhiteSpace);
        if t.len() == 0 {
            rest
        } else {
            rest.push(trim(t, CharClass::Quote))
        }
    }
}

/// The directories that a Windows PATH value lists, in order.
pub open spec fn windows_path_entries(value: Seq<char>) -> Seq<Seq<char>> {
    clean_entries(split_on(value, ';'))
}

/// Two Windows paths name the same place: equal up to ASCII case once trailing separators are
/// dropped.
pub open spec fn same_windows_path(left: Seq<char>, right: Seq<char>) -> bool {
    eq_ignore_ascii_case(
        trim_end(left, CharClass::PathSeparator),
        trim_end(right, CharClass::PathSeparator),
    )
}

/// The entries that do not name `dir`, in order.
pub open spec fn entries_other_than(entries: Seq<Seq<char>>, dir: Seq<char>) -> Seq<Seq<char>>
    decreases entries.len(),
{
    if entries.len() == 0 {
        Seq::empty()
    } else {
        let rest = entries_other_than(entries.drop_last(), dir);
        if same_windows_path(entries.last(), dir) {
            rest
        } else {
            rest.push(entries.last())
        }
    }
}

/// The PATH value without the entries that name `dir`.
pub open spec fn path_value_without(value: Seq<char>, dir: Seq<char>) -> Seq<char> {
    join_with(entries_other_than(windows_path_entries(value), dir), ';')
}

/// Some entry of the PATH value names `dir`.
pub open spec fn path_value_lists(value: Seq<char>, dir: Seq<char>) -> bool {
    exists|i: int|
        0 <= i < windows_path_entries(value).len() && same_windows_path(
            #[trigger] windows_path_entries(value)[i],
            dir,
        )
}

/// The user PATH value with `dir` put in front; a blank value is replaced by `dir`.
pub open spec fn user_path_with(old_value: Seq<char>, dir: Seq<char>) -> Seq<char> {
    if trim(old_value, CharClass::WhiteSpace).len() == 0 {
        dir
    } else {
        dir + seq![';'] + old_value
    }
}

fn clean_entries_of(pieces: &Vec<Vec<char>>) -> (entries: Vec<Vec<char>>)
    ensures
        views(entries@) == clean_entries(views(pieces@)),
{
    let mut entries: Vec<Vec<char>> = Vec::new();
    for i in 0..pieces.len()
        invariant
            views(entries@) == clean_entries(views(pieces@).take(i as int)),
    {
        let ghost upto = views(pieces@).take(i + 1);
        assert(upto.drop_last() == views(pieces@).take(i as int));
        assert(upto.last() == pieces@[i as int]@);
        let t = trim_chars(&pieces[i], CharClass::WhiteSpace);
        if t.len() > 0 {
            let e = trim_chars(&t, CharClass::Quote);
            let ghost prev = entries@;
            entries.push(e);
            assert(views(entries@) =~= views(prev).push(e@));
        }
    }
    assert(views(pieces@).take(pieces.len() as int) == views(pieces@));
    entries
}

fn windows_path_entry_chars(value: &str) -> (entries: Vec<Vec<char>>)
    ensures
        views(entries@) == windows_path_entries(value@),
{
    let v = chars_of(value);
    let pieces = split_chars(&v, ';');
    clean_entries_of(&pieces)
}

/// The directories that a Windows PATH value lists, in order.
pub fn split_windows_path(value: &str) -> (entries: Vec<String>)
    ensures
        string_views(entries@) == windows_path_entries(value@),
{
    let e = windows_path_entry_chars(value);
    strings_of(&e)
}

fn same_windows_path_chars(left: &Vec<char>, right: &Vec<char>) -> (r: bool)
    ensures
        r == same_windows_path(left@, right@),
{
    let l = trim_end_chars(left, CharClass::PathSeparator);
    let r = trim_end_chars(right, CharClass::PathSeparator);
    chars_eq_ignore_ascii_case(&l, &r)
}

/// Whether two Windows paths name the same place, ignoring ASCII case and trailing separators.
pub fn path_eq_ignore_case(left: &str, right: &str) -> (r: bool)
    ensures
        r == same_windows_path(left@, right@),
{
    let l = chars_of(left);
    let r = chars_of(right);
    same_windows_path_chars(&l, &r)
}

/// The PATH value without the entries that name `dir`, the others cleaned and joined by ';'.
pub fn remove_path_entry_from_value(value: &str, dir: &str) -> (r: String)
    ensures
        r@ == path_value_without(value@, dir@),
{
    let entries = windows_path_entry_chars(value);
    let d = chars_of(dir);
    let mut kept: Vec<Vec<char>> = Vec::new();
    for i in 0..entries.len()
        invariant
            d@ == dir@,
            views(kept@) == entries_other_than(views(entries@).take(i as int), dir@),
    {
        let ghost upto = views(entries@).take(i + 1);
        assert(upto.drop_last() == views(entries@).take(i as int));
        assert(upto.last() == entries@[i as int]@);
        if !same_windows_path_chars(&entries[i], &d) {
            let e = crate::text::slice_chars(&entries[i], 0, entries[i].len());
            assert(e@ =~= entries@[i as int]@);
            let ghost prev = kept@;
            kept.push(e);
            assert(views(kept@) =~= views(prev).push(e@));
        }
    }
    assert(views(entries@).take(entries.len() as int) == views(entries@));
    let joined = join_chars(&kept, ';');
    string_of(&joined)
}

/// Whether some entry of the PATH value names `dir`.
pub fn user_path_contains(path_value: &str, dir: &str) -> (r: bool)
    ensures
        r == path_value_lists(path_value@, dir@),
{
    let entries = windows_path_entry_chars(path_value);
    let d = chars_of(dir);
    for i in 0..entries.len()
        invariant
            d@ == dir@,
            views(entries@) == windows_path_entries(path_value@),
            forall|k: int|
                0 <= k < i ==> !same_windows_path(#[trigger] views(entries@)[k], dir@),
    {
        if same_windows_path_chars(&entries[i], &d) {
            assert(same_windows_path(windows_path_entries(path_value@)[i as int], dir@));
            return true;
        }
    }
    false
}

/// The user PATH value with `dir` put in front, or `dir` alone where the value is blank.
pub fn prepend_user_path_value(old_value: &str, dir: &str) -> (r: String)
    ensures
        r@ == user_path_with(old_value@, dir@),
{
    proof {
        reveal_strlit(";");
    }
    let v = chars_of(old_value);
    let t = trim_chars(&v, CharClass::WhiteSpace);
    if t.len() == 0 {
        String::from_str(dir)
    } else {
        crate::text::concat3(dir, ";", old_value)
    }
}

/// The PATH of a running process with `dir` put in front.
pub fn prepend_process_path_value(process_path: &str, dir: &str) -> (r: String)
    ensures
        r@ == dir@ + seq![';'] + process_path@,
{
    proof {
        reveal_strlit(";");
    }
    crate::text::concat3(dir, ";", process_path)
}

} // verus!

verus! {

// ---------------------------------------------------------------------------
// Windows paths built from parts
// ---------------------------------------------------------------------------

/// A bare drive such as `C:`, to which a name is joined without a separator.
pub open spec fn is_bare_drive(base: Seq<char>) -> bool {
    &&& base.len() == 2
    &&& base[1] == ':'
    &&& (97 <= (base[0] as u32) <= 122 || 65 <= (base[0] as u32) <= 90)
}

/// A single file or directory name: not empty, and free of separators, drive colons and `?`
/// (which Windows file names never hold).
pub open spec fn is_plain_name(name: Seq<char>) -> bool {
    &&& name.len() > 0
    &&& forall|i: int|
        0 <= i < name.len() ==> #[trigger] name[i] != '\\' && name[i] != '/' && name[i] != ':'
            && name[i] != '?'
}

/// A path in verbatim form: it starts with `\\?` (`\\?\C:\...`, `\\?\UNC\...`; no host or
/// share name can begin with `?`). `PathBuf::push` on Windows rebuilds such a path from its
/// components when a name is joined to it; the joins of this module do not cover that form,
/// and callers build such paths with the platform's own `Path::join`.
pub open spec fn is_verbatim_form(path: Seq<char>) -> bool {
    crate::text::has_prefix(path, seq!['\\', '\\', '?'])
}

/// Whether a path is in verbatim form, which the joins of this module leave to `Path::join`.
pub fn is_verbatim_path(path: &str) -> (r: bool)
    ensures
        r == is_verbatim_form(path@),
{
    let p = chars_of(path);
    let marker = vec!['\\', '\\', '?'];
    assert(marker@ == seq!['\\', '\\', '?']);
    crate::text::chars_start_with(&p, &marker)
}

/// Joining a plain name to a path that is not in verbatim form gives one that is not either.
pub proof fn lemma_join_keeps_plain_form(base: Seq<char>, name: Seq<char>)
    requires
        !is_verbatim_form(base),
        is_plain_name(name),
    ensures
        !is_verbatim_form(windows_join(base, name)),
{
    let r = windows_join(base, name);
    if is_verbatim_form(r) {
        assert(r.take(3) == seq!['\\', '\\', '?']);
        assert(r[0] == '\\' && r[1] == '\\' && r[2] == '?') by {
            assert(r[0] == r.take(3)[0]);
            assert(r[1] == r.take(3)[1]);
            assert(r[2] == r.take(3)[2]);
        }
        if base.len() >= 3 {
            assert(base.take(3) =~= r.take(3));
        } else {
            assert(name[0] != '\\' && name[0] != '?');
            if base.len() == 0 {
                assert(r[0] == name[0]);
            } else if base.len() == 1 {
                assert(r[0] == base[0]);
                if base.last() == '\\' || base.last() == '/' || is_bare_drive(base) {
                    assert(r[1] == name[0]);
                } else {
                    assert(r[1] == '\\');
                    assert(r[2] == name[0]);
                }
            } else {
                assert(r[0] == base[0] && r[1] == base[1]);
                if base.last() == '\\' || base.last() == '/' || is_bare_drive(base) {
                    assert(r[2] == name[0]);
                } else {
                    assert(r[2] == '\\');
                    assert(base[1] == '\\');
                }
            }
        }
    }
}

/// `base` joined with the plain name `name` the way Windows paths are: a `\` goes between
/// unless `base` is empty, already ends with a separator, or is a bare drive.
///
/// The base is never in verbatim form (see `is_verbatim_form`): the functions that join require
/// that, and the caller joins a verbatim base with `Path::join`.
pub open spec fn windows_join(base: Seq<char>, name: Seq<char>) -> Seq<char> {
    if base.len() == 0 || base.last() == '\\' || base.last() == '/' || is_bare_drive(base) {
        base + name
    } else {
        base + seq!['\\'] + name
    }
}

/// `base` joined with each name of `names` in turn.
pub open spec fn windows_join_all(base: Seq<char>, names: Seq<Seq<char>>) -> Seq<char>
    decreases names.len(),
{
    if names.len() == 0 {
        base
    } else {
        windows_join(windows_join_all(base, names.drop_last()), names.last())
    }
}

/// The directory under the local application data directory that holds this tool's files.
pub open spec fn integration_root_names() -> Seq<Seq<char>> {
    seq!["OpenAI"@, "Codex"@, "OpenWithCodexApp"@]
}

/// `base` joined with `name`, Windows style.
pub fn windows_join_name(base: &str, name: &str) -> (r: String)
    requires
        is_plain_name(name@),
        !is_verbatim_form(base@),
    ensures
        r@ == windows_join(base@, name@),
        !is_verbatim_form(r@),
{
    proof {
        lemma_join_keeps_plain_form(base@, name@);
    }
    let b = chars_of(base);
    let needs_separator = if b.len() == 0 {
        false
    } else {
        let last = b[b.len() - 1];
        if last == '\\' || last == '/' {
            false
        } else if b.len() == 2 && b[1] == ':' && ((97 <= b[0] as u32 && b[0] as u32 <= 122) || (65
            <= b[0] as u32 && b[0] as u32 <= 90)) {
            false
        } else {
            true
        }
    };
    proof {
        reveal_strlit("\\");
    }
    if needs_separator {
        crate::text::concat3(base, "\\", name)
    } else {
        crate::text::concat2(base, name)
    }
}

fn join_root_names(local_app_data: &str) -> (r: String)
    requires
        !is_verbatim_form(local_app_data@),
    ensures
        r@ == windows_join_all(local_app_data@, integration_root_names()),
        !is_verbatim_form(r@),
{
    proof {
        reveal_strlit("OpenAI");
        reveal_strlit("Codex");
        reveal_strlit("OpenWithCodexApp");
    }
    let a = windows_join_name(local_app_data, "OpenAI");
    let b = windows_join_name(a.as_str(), "Codex");
    let c = windows_join_name(b.as_str(), "OpenWithCodexApp");
    proof {
        let names = integration_root_names();
        reveal_with_fuel(windows_join_all, 4);
        assert(names.drop_last().drop_last().drop_last() =~= Seq::<Seq<char>>::empty());
        assert(names.drop_last().drop_last().last() == "OpenAI"@);
        assert(names.drop_last().last() == "Codex"@);
        assert(names.last() == "OpenWithCodexApp"@);
    }
    c
}

/// The directory that holds this tool's files: `<local app data>\OpenAI\Codex\OpenWithCodexApp`.
pub fn integration_root(local_app_data: &str) -> (r: String)
    requires
        !is_verbatim_form(local_app_data@),
    ensures
        r@ == windows_join_all(local_app_data@, integration_root_names()),
{
    join_root_names(local_app_data)
}

/// Where the stable launcher is kept: the tool's directory joined with the executable's name.
pub fn stable_launcher_path(local_app_data: &str, exe_file_name: &str) -> (r: String)
    requires
        !is_verbatim_form(local_app_data@),
        is_plain_name(exe_file_name@),
    ensures
        r@ == windows_join(windows_join_all(local_app_data@, integration_root_names()), exe_file_name@),
{
    let root = join_root_names(local_app_data);
    windows_join_name(root.as_str(), exe_file_name)
}

/// Where the `codex` command shim goes: `<local app data>\OpenAI\Codex\OpenWithCodexApp\bin\codex.exe`,
/// away from the official Codex CLI's own directory.
pub fn cli_shim_path_for_local_app_data(local_app_data: &str) -> (r: String)
    requires
        !is_verbatim_form(local_app_data@),
    ensures
        r@ == windows_join(
            windows_join(windows_join_all(local_app_data@, integration_root_names()), "bin"@),
            "codex.exe"@,
        ),
{
    proof {
        reveal_strlit("bin");
        reveal_strlit("codex.exe");
    }
    let root = join_root_names(local_app_data);
    let bin = windows_join_name(root.as_str(), "bin");
    windows_join_name(bin.as_str(), "codex.exe")
}

/// The directory that holds the command shim: `<local app data>\OpenAI\Codex\OpenWithCodexApp\bin`.
pub fn cli_shim_dir_for_local_app_data(local_app_data: &str) -> (r: String)
    requires
        !is_verbatim_form(local_app_data@),
    ensures
        r@ == windows_join(windows_join_all(local_app_data@, integration_root_names()), "bin"@),
{
    proof {
        reveal_strlit("bin");
    }
    let root = join_root_names(local_app_data);
    windows_join_name(root.as_str(), "bin")
}

/// The app execution aliases that may start the Codex app, in the order they are tried:
/// `<local app data>\Microsoft\WindowsApps\ChatGPT.exe`, then `...\Codex.exe`.
pub fn windows_app_execution_alias_candidates(local_app_data: &str) -> (r: Vec<String>)
    requires
        !is_verbatim_form(local_app_data@),
    ensures
        string_views(r@) == seq![
            windows_join(windows_join(windows_join(local_app_data@, "Microsoft"@), "WindowsApps"@), "ChatGPT.exe"@),
            windows_join(windows_join(windows_join(local_app_data@, "Microsoft"@), "WindowsApps"@), "Codex.exe"@),
        ],
{
    proof {
        reveal_strlit("Microsoft");
        reveal_strlit("WindowsApps");
        reveal_strlit("ChatGPT.exe");
        reveal_strlit("Codex.exe");
    }
    let a = windows_join_name(local_app_data, "Microsoft");
    let aliases = windows_join_name(a.as_str(), "WindowsApps");
    let first = windows_join_name(aliases.as_str(), "ChatGPT.exe");
    let second = windows_join_name(aliases.as_str(), "Codex.exe");
    let r = vec![first, second];
    assert(string_views(r@) =~= seq![first@, second@]);
    r
}

/// The executables inside an installed Codex package, in the order they are preferred:
/// `<package>\app\ChatGPT.exe`, then the older `<package>\app\Codex.exe`.
pub fn app_executable_candidates(package: &str) -> (r: Vec<String>)
    requires
        !is_verbatim_form(package@),
    ensures
        string_views(r@) == seq![
            windows_join(windows_join(package@, "app"@), "ChatGPT.exe"@),
            windows_join(windows_join(package@, "app"@), "Codex.exe"@),
        ],
{
    proof {
        reveal_strlit("app");
        reveal_strlit("ChatGPT.exe");
        reveal_strlit("Codex.exe");
    }
    let app = windows_join_name(package, "app");
    let first = windows_join_name(app.as_str(), "ChatGPT.exe");
    let second = windows_join_name(app.as_str(), "Codex.exe");
    let r = vec![first, second];
    assert(string_views(r@) =~= seq![first@, second@]);
    r
}

} // verus!

verus! {

/// The verbatim prefix `\\?\`.
pub open spec fn verbatim_prefix() -> Seq<char> {
    seq!['\\', '\\', '?', '\\']
}

/// The verbatim UNC prefix `\\?\UNC\`.
pub open spec fn verbatim_unc_prefix() -> Seq<char> {
    seq!['\\', '\\', '?', '\\', 'U', 'N', 'C', '\\']
}

/// A path as programs other than the Windows API expect it: `\\?\UNC\server\share` becomes
/// `\\server\share`, `\\?\C:\dir` becomes `C:\dir`, and anything else stays as it is.
pub open spec fn without_verbatim_prefix(path: Seq<char>) -> Seq<char> {
    if crate::text::has_prefix(path, verbatim_unc_prefix()) {
        seq!['\\', '\\'] + path.skip(8)
    } else if crate::text::has_prefix(path, verbatim_prefix()) {
        path.skip(4)
    } else {
        path
    }
}

/// The path without its verbatim prefix, so that the Codex app can open it.
pub fn strip_windows_verbatim_prefix(path: &str) -> (r: String)
    ensures
        r@ == without_verbatim_prefix(path@),
{
    let p = chars_of(path);
    let unc = vec!['\\', '\\', '?', '\\', 'U', 'N', 'C', '\\'];
    let plain = vec!['\\', '\\', '?', '\\'];
    assert(unc@ == verbatim_unc_prefix());
    assert(plain@ == verbatim_prefix());
    if crate::text::chars_start_with(&p, &unc) {
        let mut r = vec!['\\', '\\'];
        let rest = crate::text::slice_chars(&p, 8, p.len());
        crate::text::extend_chars(&mut r, &rest);
        assert(rest@ =~= path@.skip(8));
        string_of(&r)
    } else if crate::text::chars_start_with(&p, &plain) {
        let rest = crate::text::slice_chars(&p, 4, p.len());
        assert(rest@ =~= path@.skip(4));
        string_of(&rest)
    } else {
        String::from_str(path)
    }
}

/// The command that the Explorer context menu runs: the launcher, quoted, then `app` and the
/// folder argument, quoted.
pub fn context_menu_command(launcher: &str, folder_arg: &str) -> (r: String)
    ensures
        r@ == "\""@ + launcher@ + "\" app \""@ + folder_arg@ + "\""@,
{
    let mut r = String::from_str("\"");
    r.append(launcher);
    r.append("\" app \"");
    r.append(folder_arg);
    r.append("\"");
    r
}

/// Whether `path` lies under `parent`: it starts with `parent`, both taken without trailing
/// separators and compared ignoring ASCII case.
pub open spec fn lies_under(path: Seq<char>, parent: Seq<char>) -> bool {
    starts_with_ignore_ascii_case(
        trim_end(path, CharClass::PathSeparator),
        trim_end(parent, CharClass::PathSeparator),
    )
}

/// Whether `path` lies under `parent`, ignoring ASCII case and trailing separators.
pub fn path_is_inside(path: &str, parent: &str) -> (r: bool)
    ensures
        r == lies_under(path@, parent@),
{
    let p = chars_of(path);
    let q = chars_of(parent);
    let pt = trim_end_chars(&p, CharClass::PathSeparator);
    let qt = trim_end_chars(&q, CharClass::PathSeparator);
    chars_start_with_ignore_ascii_case(&pt, &qt)
}

/// The PowerShell that ships with Windows, under `%WINDIR%` or else `C:\Windows`.
pub fn system_powershell(windir: Option<&str>) -> (r: String)
    requires
        windir matches Some(w) ==> !is_verbatim_form(w@),
    ensures
        r@ == windows_join_all(
            match windir {
                Some(w) => w@,
                None => "C:\\Windows"@,
            },
            seq!["System32"@, "WindowsPowerShell"@, "v1.0"@, "powershell.exe"@],
        ),
{
    proof {
        reveal_strlit("C:\\Windows");
        reveal_strlit("System32");
        reveal_strlit("WindowsPowerShell");
        reveal_strlit("v1.0");
        reveal_strlit("powershell.exe");
    }
    let base = match windir {
        Some(w) => w,
        None => "C:\\Windows",
    };
    let a = windows_join_name(base, "System32");
    let b = windows_join_name(a.as_str(), "WindowsPowerShell");
    let c = windows_join_name(b.as_str(), "v1.0");
    let d = windows_join_name(c.as_str(), "powershell.exe");
    proof {
        let names = seq!["System32"@, "WindowsPowerShell"@, "v1.0"@, "powershell.exe"@];
        reveal_with_fuel(windows_join_all, 5);
        assert(names.drop_last().drop_last().drop_last().drop_last() =~= Seq::<Seq<char>>::empty());
        assert(names.drop_last().drop_last().drop_last().last() == "System32"@);
        assert(names.drop_last().drop_last().last() == "WindowsPowerShell"@);
        assert(names.drop_last().last() == "v1.0"@);
        assert(names.last() == "powershell.exe"@);
    }
    d
}

/// The directory where Windows keeps packaged apps: `%ProgramFiles%\WindowsApps`, with
/// `C:\Program Files` when the variable is not set.
pub fn windows_apps_root(program_files: Option<&str>) -> (r: String)
    requires
        program_files matches Some(p) ==> !is_verbatim_form(p@),
    ensures
        r@ == windows_join(
            match program_files {
                Some(p) => p@,
                None => "C:\\Program Files"@,
            },
            "WindowsApps"@,
        ),
{
    proof {
        reveal_strlit("WindowsApps");
        reveal_strlit("C:\\Program Files");
    }
    let base = match program_files {
        Some(p) => p,
        None => "C:\\Program Files",
    };
    windows_join_name(base, "WindowsApps")
}

/// Whether a directory under WindowsApps holds a Codex package: its name starts with
/// `OpenAI.Codex_`.
pub fn is_codex_package_name(name: &str) -> (r: bool)
    ensures
        r == crate::text::has_prefix(name@, "OpenAI.Codex_"@),
{
    let n = chars_of(name);
    let p = chars_of("OpenAI.Codex_");
    crate::text::chars_start_with(&n, &p)
}

} // verus!

verus! {

// ---------------------------------------------------------------------------
// Registry strings: UTF-16, little endian, with a terminating zero unit
// ---------------------------------------------------------------------------

/// The UTF-16 code units of one character: itself below U+10000, a surrogate pair above.
pub open spec fn utf16_of_char(c: char) -> Seq<u16> {
    let n = c as u32;
    if n < 0x10000 {
        seq![n as u16]
    } else {
        seq![(0xd800 + (n - 0x10000) / 0x400) as u16, (0xdc00 + (n - 0x10000) % 0x400) as u16]
    }
}

/// The UTF-16 code units of a text.
pub open spec fn utf16_of(s: Seq<char>) -> Seq<u16>
    decreases s.len(),
{
    if s.len() == 0 {
        Seq::empty()
    } else {
        utf16_of(s.drop_last()) + utf16_of_char(s.last())
    }
}

/// Code units as bytes, low byte first.
pub open spec fn le_bytes(units: Seq<u16>) -> Seq<u8>
    decreases units.len(),
{
    if units.len() == 0 {
        Seq::empty()
    } else {
        le_bytes(units.drop_last()) + seq![(units.last() % 256) as u8, (units.last() / 256) as u8]
    }
}

/// The bytes of a `REG_SZ` / `REG_EXPAND_SZ` value holding `s`.
pub open spec fn registry_string_bytes(s: Seq<char>) -> Seq<u8> {
    le_bytes(utf16_of(s).push(0u16))
}

pub proof fn lemma_le_bytes_concat(a: Seq<u16>, b: Seq<u16>)
    ensures
        le_bytes(a + b) == le_bytes(a) + le_bytes(b),
    decreases b.len(),
{
    if b.len() == 0 {
        assert(a + b == a);
        assert(le_bytes(b) == Seq::<u8>::empty());
    } else {
        lemma_le_bytes_concat(a, b.drop_last());
        assert((a + b).drop_last() == a + b.drop_last());
        assert((a + b).last() == b.last());
    }
}

fn push_unit(bytes: &mut Vec<u8>, unit: u16)
    ensures
        final(bytes)@ == old(bytes)@ + le_bytes(seq![unit]),
{
    proof {
        assert(seq![unit].drop_last() =~= Seq::<u16>::empty());
        assert(le_bytes(Seq::<u16>::empty()) == Seq::<u8>::empty());
        assert(seq![unit].last() == unit);
        assert(le_bytes(seq![unit]) =~= seq![(unit % 256) as u8, (unit / 256) as u8]);
    }
    let ghost start = bytes@;
    bytes.push((unit % 256) as u8);
    bytes.push((unit / 256) as u8);
    assert(bytes@ =~= start + seq![(unit % 256) as u8, (unit / 256) as u8]);
}

/// The bytes that the registry stores for the string value `value`: its UTF-16 code units, low
/// byte first, and a terminating zero unit.
pub fn encode_registry_string(value: &str) -> (bytes: Vec<u8>)
    ensures
        bytes@ == registry_string_bytes(value@),
{
    let v = chars_of(value);
    let mut bytes: Vec<u8> = Vec::new();
    for i in 0..v.len()
        invariant
            v@ == value@,
            bytes@ == le_bytes(utf16_of(v@.take(i as int))),
    {
        let c = v[i];
        let n = c as u32;
        let ghost units = utf16_of(v@.take(i as int));
        proof {
            assert(v@.take(i + 1).drop_last() == v@.take(i as int));
            assert(v@.take(i + 1).last() == c);
            lemma_le_bytes_concat(units, utf16_of_char(c));
        }
        if n < 0x10000 {
            push_unit(&mut bytes, n as u16);
        } else {
            let m = n - 0x10000;
            let high = (0xd800 + m / 0x400) as u16;
            let low = (0xdc00 + m % 0x400) as u16;
            push_unit(&mut bytes, high);
            push_unit(&mut bytes, low);
            proof {
                lemma_le_bytes_concat(seq![high], seq![low]);
                assert(seq![high] + seq![low] =~= utf16_of_char(c));
            }
        }
    }
    proof {
        assert(v@.take(v.len() as int) == v@);
        lemma_le_bytes_concat(utf16_of(value@), seq![0u16]);
        assert(utf16_of(value@) + seq![0u16] =~= utf16_of(value@).push(0u16));
    }
    push_unit(&mut bytes, 0);
    bytes
}

} // verus!

verus! {

// ---------------------------------------------------------------------------
// Laws of the user PATH value
// ---------------------------------------------------------------------------

pub proof fn lemma_clean_entries_concat(a: Seq<Seq<char>>, b: Seq<Seq<char>>)
    ensures
        clean_entries(a + b) == clean_entries(a) + clean_entries(b),
    decreases b.len(),
{
    if b.len() == 0 {
        assert(a + b == a);
        assert(clean_entries(b) == Seq::<Seq<char>>::empty());
        assert(clean_entries(a) + clean_entries(b) == clean_entries(a));
    } else {
        lemma_clean_entries_concat(a, b.drop_last());
        assert((a + b).drop_last() == a + b.drop_last());
        assert((a + b).last() == b.last());
        let t = trim(b.last(), CharClass::WhiteSpace);
        if t.len() != 0 {
            assert((clean_entries(a) + clean_entries(b.drop_last())).push(trim(t, CharClass::Quote))
                == clean_entries(a) + clean_entries(b.drop_last()).push(trim(t, CharClass::Quote)));
        }
    }
}

pub proof fn lemma_entries_other_than_concat(a: Seq<Seq<char>>, b: Seq<Seq<char>>, dir: Seq<char>)
    ensures
        entries_other_than(a + b, dir) == entries_other_than(a, dir) + entries_other_than(b, dir),
    decreases b.len(),
{
    if b.len() == 0 {
        assert(a + b == a);
        assert(entries_other_than(b, dir) == Seq::<Seq<char>>::empty());
        assert(entries_other_than(a, dir) + entries_other_than(b, dir) == entries_other_than(a, dir));
    } else {
        lemma_entries_other_than_concat(a, b.drop_last(), dir);
        assert((a + b).drop_last() == a + b.drop_last());
        assert((a + b).last() == b.last());
        if !same_windows_path(b.last(), dir) {
            assert((entries_other_than(a, dir) + entries_other_than(b.drop_last(), dir)).push(b.last())
                == entries_other_than(a, dir) + entries_other_than(b.drop_last(), dir).push(b.last()));
        }
    }
}

/// A directory that the PATH helpers take as it is: no `;` in it, and nothing that the
/// cleaning of entries would trim from its ends.
pub open spec fn is_clean_dir(dir: Seq<char>) -> bool {
    &&& !dir.contains(';')
    &&& trim(dir, CharClass::WhiteSpace) == dir
    &&& trim(dir, CharClass::Quote) == dir
}

proof fn lemma_entries_of_clean_dir(dir: Seq<char>)
    requires
        is_clean_dir(dir),
    ensures
        windows_path_entries(dir) == (if dir.len() == 0 {
            Seq::<Seq<char>>::empty()
        } else {
            seq![dir]
        }),
{
    crate::text::lemma_split_without_sep(dir, ';');
    let pieces = seq![dir];
    assert(pieces.drop_last() =~= Seq::<Seq<char>>::empty());
    assert(pieces.last() == dir);
    assert(clean_entries(Seq::<Seq<char>>::empty()) == Seq::<Seq<char>>::empty());
    if dir.len() > 0 {
        assert(Seq::<Seq<char>>::empty().push(dir) =~= seq![dir]);
    }
}

proof fn lemma_entries_of_blank(value: Seq<char>)
    requires
        trim(value, CharClass::WhiteSpace).len() == 0,
    ensures
        windows_path_entries(value) == Seq::<Seq<char>>::empty(),
{
    crate::text::lemma_trim_empty(value, CharClass::WhiteSpace);
    assert(!value.contains(';')) by {
        if value.contains(';') {
            let k = choose|k: int| 0 <= k < value.len() && value[k] == ';';
            assert(crate::text::in_class(CharClass::WhiteSpace, value[k]));
        }
    }
    crate::text::lemma_split_without_sep(value, ';');
    let pieces = seq![value];
    assert(pieces.drop_last() =~= Seq::<Seq<char>>::empty());
    assert(pieces.last() == value);
    assert(clean_entries(Seq::<Seq<char>>::empty()) == Seq::<Seq<char>>::empty());
}

proof fn lemma_entries_of_prepended(old_value: Seq<char>, dir: Seq<char>)
    requires
        is_clean_dir(dir),
    ensures
        windows_path_entries(user_path_with(old_value, dir)) == windows_path_entries(dir)
            + windows_path_entries(old_value),
{
    if trim(old_value, CharClass::WhiteSpace).len() == 0 {
        lemma_entries_of_blank(old_value);
        assert(windows_path_entries(dir) + Seq::<Seq<char>>::empty() == windows_path_entries(dir));
    } else {
        crate::text::lemma_split_concat(dir, ';', old_value);
        lemma_clean_entries_concat(split_on(dir, ';'), split_on(old_value, ';'));
    }
}

/// Uninstalling undoes installing: taking the shim directory out of a user PATH value into
/// which it was put gives what taking it out of the value before gives.
pub proof fn law_remove_undoes_prepend(old_value: Seq<char>, dir: Seq<char>)
    requires
        is_clean_dir(dir),
    ensures
        path_value_without(user_path_with(old_value, dir), dir) == path_value_without(old_value, dir),
{
    lemma_entries_of_prepended(old_value, dir);
    lemma_entries_of_clean_dir(dir);
    lemma_entries_other_than_concat(windows_path_entries(dir), windows_path_entries(old_value), dir);
    let d = windows_path_entries(dir);
    assert(entries_other_than(d, dir) == Seq::<Seq<char>>::empty()) by {
        assert(entries_other_than(Seq::<Seq<char>>::empty(), dir) == Seq::<Seq<char>>::empty());
        if dir.len() > 0 {
            assert(d.drop_last() =~= Seq::<Seq<char>>::empty());
            assert(d.last() == dir);
            assert(same_windows_path(d.last(), dir));
        }
    }
    assert(Seq::<Seq<char>>::empty() + entries_other_than(windows_path_entries(old_value), dir)
        == entries_other_than(windows_path_entries(old_value), dir));
}

/// Once the shim directory has been put in front of the user PATH, the PATH lists it.
pub proof fn law_prepended_path_lists_dir(old_value: Seq<char>, dir: Seq<char>)
    requires
        is_clean_dir(dir),
        dir.len() > 0,
    ensures
        path_value_lists(user_path_with(old_value, dir), dir),
{
    lemma_entries_of_prepended(old_value, dir);
    lemma_entries_of_clean_dir(dir);
    let e = windows_path_entries(user_path_with(old_value, dir));
    assert(e[0] == dir);
    assert(same_windows_path(e[0], dir));
}

/// The PATH lists a directory as soon as any of its entries names it, wherever that entry
/// stands: the first, the last or one in between.
pub proof fn law_any_entry_lists_dir(value: Seq<char>, dir: Seq<char>, i: int)
    requires
        0 <= i < windows_path_entries(value).len(),
        same_windows_path(windows_path_entries(value)[i], dir),
    ensures
        path_value_lists(value, dir),
{
}

/// A PATH value made of two values joined by `;` lists a directory exactly when one of the
/// two lists it.
pub proof fn law_joined_path_lists_either(left: Seq<char>, right: Seq<char>, dir: Seq<char>)
    ensures
        path_value_lists(left + seq![';'] + right, dir) <==> (path_value_lists(left, dir)
            || path_value_lists(right, dir)),
{
    crate::text::lemma_split_concat(left, ';', right);
    lemma_clean_entries_concat(split_on(left, ';'), split_on(right, ';'));
    let a = windows_path_entries(left);
    let b = windows_path_entries(right);
    let e = windows_path_entries(left + seq![';'] + right);
    assert(e == a + b);
    if path_value_lists(left + seq![';'] + right, dir) {
        let i = choose|i: int| 0 <= i < e.len() && same_windows_path(#[trigger] e[i], dir);
        if i < a.len() {
            assert(e[i] == a[i]);
        } else {
            assert(e[i] == b[i - a.len()]);
        }
    }
    if path_value_lists(left, dir) {
        let i = choose|i: int| 0 <= i < a.len() && same_windows_path(#[trigger] a[i], dir);
        assert(e[i] == a[i]);
    }
    if path_value_lists(right, dir) {
        let i = choose|i: int| 0 <= i < b.len() && same_windows_path(#[trigger] b[i], dir);
        assert(e[a.len() + i] == b[i]);
    }
}

/// A PATH value that ends in `;` and the directory lists the directory, whatever comes before.
pub proof fn law_appended_path_lists_dir(before: Seq<char>, dir: Seq<char>)
    requires
        is_clean_dir(dir),
        dir.len() > 0,
    ensures
        path_value_lists(before + seq![';'] + dir, dir),
{
    lemma_entries_of_clean_dir(dir);
    assert(windows_path_entries(dir)[0] == dir);
    assert(same_windows_path(windows_path_entries(dir)[0], dir));
    law_joined_path_lists_either(before, dir, dir);
}

/// Removal drops exactly the entries that name the directory: every entry that does not name
/// it is kept, and everything that is kept is an entry that does not name it.
pub proof fn law_removal_keeps_other_entries(entries: Seq<Seq<char>>, dir: Seq<char>)
    ensures
        forall|i: int|
            0 <= i < entries.len() && !same_windows_path(#[trigger] entries[i], dir)
                ==> entries_other_than(entries, dir).contains(entries[i]),
        forall|j: int|
            0 <= j < entries_other_than(entries, dir).len() ==> !same_windows_path(
                #[trigger] entries_other_than(entries, dir)[j],
                dir,
            ) && entries.contains(entries_other_than(entries, dir)[j]),
    decreases entries.len(),
{
    if entries.len() > 0 {
        let front = entries.drop_last();
        let last = entries.last();
        let rest = entries_other_than(front, dir);
        let kept = entries_other_than(entries, dir);
        law_removal_keeps_other_entries(front, dir);
        assert forall|i: int|
            0 <= i < entries.len() && !same_windows_path(#[trigger] entries[i], dir) implies kept.contains(
            entries[i],
        ) by {
            if i < entries.len() - 1 {
                assert(front[i] == entries[i]);
                let k = choose|k: int| 0 <= k < rest.len() && rest[k] == front[i];
                assert(kept[k] == rest[k]);
            } else {
                assert(entries[i] == last);
                assert(kept[rest.len() as int] == last);
            }
        }
        assert forall|j: int| 0 <= j < kept.len() implies !same_windows_path(
            #[trigger] kept[j],
            dir,
        ) && entries.contains(kept[j]) by {
            if j < rest.len() {
                assert(kept[j] == rest[j]);
                let k = choose|k: int| 0 <= k < front.len() && front[k] == rest[j];
                assert(entries[k] == front[k]);
            } else {
                assert(kept[j] == last);
                assert(entries[entries.len() - 1] == last);
            }
        }
    }
}

/// Taking a directory out of a PATH of two entries, of which the second does not name it,
/// leaves the second entry as it was.
pub proof fn law_removal_keeps_second_entry(first: Seq<char>, second: Seq<char>)
    requires
        is_clean_dir(first),
        is_clean_dir(second),
        first.len() > 0,
        second.len() > 0,
        !same_windows_path(second, first),
    ensures
        path_value_without(first + seq![';'] + second, first) == second,
{
    crate::text::lemma_split_concat(first, ';', second);
    lemma_clean_entries_concat(split_on(first, ';'), split_on(second, ';'));
    lemma_entries_of_clean_dir(first);
    lemma_entries_of_clean_dir(second);
    let e = windows_path_entries(first + seq![';'] + second);
    assert(e == seq![first] + seq![second]);
    assert(e.drop_last() =~= seq![first]);
    assert(e.last() == second);
    assert(seq![first].drop_last() =~= Seq::<Seq<char>>::empty());
    assert(entries_other_than(Seq::<Seq<char>>::empty(), first) == Seq::<Seq<char>>::empty());
    assert(same_windows_path(seq![first].last(), first));
    assert(entries_other_than(seq![first], first) == Seq::<Seq<char>>::empty());
    assert(entries_other_than(e, first) == Seq::<Seq<char>>::empty().push(second));
    assert(Seq::<Seq<char>>::empty().push(second) =~= seq![second]);
}

/// Taking the shim directory out of the process PATH into which it was put gives what taking
/// it out of the PATH before gives.
pub proof fn law_remove_undoes_process_prepend(process_path: Seq<char>, dir: Seq<char>)
    requires
        is_clean_dir(dir),
    ensures
        path_value_without(dir + seq![';'] + process_path, dir) == path_value_without(process_path, dir),
{
    crate::text::lemma_split_concat(dir, ';', process_path);
    lemma_clean_entries_concat(split_on(dir, ';'), split_on(process_path, ';'));
    lemma_entries_of_clean_dir(dir);
    lemma_entries_other_than_concat(windows_path_entries(dir), windows_path_entries(process_path), dir);
    let d = windows_path_entries(dir);
    assert(entries_other_than(d, dir) == Seq::<Seq<char>>::empty()) by {
        assert(entries_other_than(Seq::<Seq<char>>::empty(), dir) == Seq::<Seq<char>>::empty());
        if dir.len() > 0 {
            assert(d.drop_last() =~= Seq::<Seq<char>>::empty());
            assert(d.last() == dir);
            assert(same_windows_path(d.last(), dir));
        }
    }
    assert(Seq::<Seq<char>>::empty() + entries_other_than(windows_path_entries(process_path), dir)
        == entries_other_than(windows_path_entries(process_path), dir));
}

} // verus!

verus! {

// ---------------------------------------------------------------------------
// Forwarding `codex` commands to an existing Codex CLI
// ---------------------------------------------------------------------------

/// A Codex CLI found on PATH: an executable started directly, or a batch file started
/// through `cmd /C`.
#[derive(Debug, Clone, PartialEq, Eq)]
pub enum ForwardTarget {
    Direct(String),
    Batch(String),
}

impl ForwardTarget {
    /// The file that the target names.
    pub open spec fn file(&self) -> Seq<char> {
        match self {
            ForwardTarget::Direct(p) => p@,
            ForwardTarget::Batch(p) => p@,
        }
    }

    /// Whether the target is started through `cmd /C`.
    pub open spec fn is_batch(&self) -> bool {
        self is Batch
    }

    /// The file that the target names.
    pub fn path(&self) -> (r: &str)
        ensures
            r@ == self.file(),
    {
        match self {
            ForwardTarget::Direct(p) => p.as_str(),
            ForwardTarget::Batch(p) => p.as_str(),
        }
    }
}

/// One directory of PATH, with its three candidates (`codex.exe`, `codex.cmd` and `codex.bat`
/// in it, as `forward_candidates` builds them) and whether each is a file.
#[derive(Debug, Clone)]
pub struct PathDirProbe {
    pub dir: String,
    pub exe_path: String,
    pub cmd_path: String,
    pub bat_path: String,
    pub exe_is_file: bool,
    pub cmd_is_file: bool,
    pub bat_is_file: bool,
}

/// The candidates of a directory, in the order they are tried: `codex.exe` started directly,
/// then `codex.cmd` and `codex.bat` through `cmd`. Each is (started through `cmd`, file).
pub open spec fn forward_candidates_of(dir: Seq<char>) -> Seq<(bool, Seq<char>)> {
    seq![
        (false, windows_join(dir, "codex.exe"@)),
        (true, windows_join(dir, "codex.cmd"@)),
        (true, windows_join(dir, "codex.bat"@)),
    ]
}

/// A candidate may be used unless it is the running executable itself.
pub open spec fn is_other_than_current(current_exe: Option<Seq<char>>, file: Seq<char>) -> bool {
    match current_exe {
        None => true,
        Some(c) => !same_windows_path(c, file),
    }
}

/// The first usable candidate of one probed directory.
pub open spec fn forward_choice_in_dir(probe: PathDirProbe, current_exe: Option<Seq<char>>) -> Option<
    (bool, Seq<char>),
> {
    if probe.exe_is_file && is_other_than_current(current_exe, probe.exe_path@) {
        Some((false, probe.exe_path@))
    } else if probe.cmd_is_file && is_other_than_current(current_exe, probe.cmd_path@) {
        Some((true, probe.cmd_path@))
    } else if probe.bat_is_file && is_other_than_current(current_exe, probe.bat_path@) {
        Some((true, probe.bat_path@))
    } else {
        None
    }
}

/// The Codex CLI that a `codex` command is forwarded to: the first usable candidate of the
/// first PATH directory, other than the running executable's own directory, that has one.
pub open spec fn forward_choice(
    current_exe: Option<Seq<char>>,
    current_dir: Option<Seq<char>>,
    probes: Seq<PathDirProbe>,
) -> Option<(bool, Seq<char>)>
    decreases probes.len(),
{
    if probes.len() == 0 {
        None
    } else {
        let p = probes[0];
        let own_dir = match current_dir {
            Some(d) => same_windows_path(d, p.dir@),
            None => false,
        };
        if !own_dir && forward_choice_in_dir(p, current_exe) is Some {
            forward_choice_in_dir(p, current_exe)
        } else {
            forward_choice(current_exe, current_dir, probes.drop_first())
        }
    }
}

/// A candidate file that a `codex` command may be forwarded to: it is a file, and not the
/// running executable.
pub open spec fn windows_candidate_usable(
    current_exe: Option<Seq<char>>,
    is_file: bool,
    file: Seq<char>,
) -> bool {
    is_file && !(current_exe matches Some(c) && same_windows_path(c, file))
}

/// A PATH directory that a `codex` command may be forwarded to: not the running executable's
/// own directory, and with at least one usable candidate.
pub open spec fn windows_probe_usable(
    current_exe: Option<Seq<char>>,
    current_dir: Option<Seq<char>>,
    probe: PathDirProbe,
) -> bool {
    &&& !(current_dir matches Some(d) && same_windows_path(d, probe.dir@))
    &&& (windows_candidate_usable(current_exe, probe.exe_is_file, probe.exe_path@)
        || windows_candidate_usable(current_exe, probe.cmd_is_file, probe.cmd_path@)
        || windows_candidate_usable(current_exe, probe.bat_is_file, probe.bat_path@))
}

/// The candidate of a usable directory that is taken: `codex.exe` where it is usable, else
/// `codex.cmd`, else `codex.bat`; the two last are started through `cmd`.
pub open spec fn windows_pick_in_dir(current_exe: Option<Seq<char>>, probe: PathDirProbe) -> (
    bool,
    Seq<char>,
) {
    if windows_candidate_usable(current_exe, probe.exe_is_file, probe.exe_path@) {
        (false, probe.exe_path@)
    } else if windows_candidate_usable(current_exe, probe.cmd_is_file, probe.cmd_path@) {
        (true, probe.cmd_path@)
    } else {
        (true, probe.bat_path@)
    }
}

/// Forwarding goes to the first usable PATH directory, as the shell would search it: where
/// some directory is usable, the target is the pick of one of them and no directory before it
/// is usable; where none is, there is no target. So where the first directory is usable, its
/// pick is the target, whatever comes after.
pub proof fn law_first_usable_windows_dir_wins(
    current_exe: Option<Seq<char>>,
    current_dir: Option<Seq<char>>,
    probes: Seq<PathDirProbe>,
)
    ensures
        match forward_choice(current_exe, current_dir, probes) {
            Some(t) => exists|k: int|
                0 <= k < probes.len() && windows_probe_usable(current_exe, current_dir, #[trigger] probes[k])
                    && t == windows_pick_in_dir(current_exe, probes[k]) && forall|j: int|
                    0 <= j < k ==> !windows_probe_usable(current_exe, current_dir, #[trigger] probes[j]),
            None => forall|k: int|
                0 <= k < probes.len() ==> !windows_probe_usable(current_exe, current_dir, #[trigger] probes[k]),
        },
        probes.len() > 0 && windows_probe_usable(current_exe, current_dir, probes[0]) ==> forward_choice(
            current_exe,
            current_dir,
            probes,
        ) == Some(windows_pick_in_dir(current_exe, probes[0])),
    decreases probes.len(),
{
    if probes.len() > 0 {
        let rest = probes.drop_first();
        law_first_usable_windows_dir_wins(current_exe, current_dir, rest);
        if !windows_probe_usable(current_exe, current_dir, probes[0]) {
            match forward_choice(current_exe, current_dir, rest) {
                Some(t) => {
                    let k = choose|k: int|
                        0 <= k < rest.len() && windows_probe_usable(current_exe, current_dir, #[trigger] rest[k])
                            && t == windows_pick_in_dir(current_exe, rest[k]) && forall|j: int|
                            0 <= j < k ==> !windows_probe_usable(current_exe, current_dir, #[trigger] rest[j]);
                    assert(probes[k + 1] == rest[k]);
                    assert forall|j: int| 0 <= j < k + 1 implies !windows_probe_usable(
                        current_exe,
                        current_dir,
                        #[trigger] probes[j],
                    ) by {
                        if j > 0 {
                            assert(probes[j] == rest[j - 1]);
                        }
                    }
                },
                None => {
                    assert forall|k: int| 0 <= k < probes.len() implies !windows_probe_usable(
                        current_exe,
                        current_dir,
                        #[trigger] probes[k],
                    ) by {
                        if k > 0 {
                            assert(probes[k] == rest[k - 1]);
                        }
                    }
                },
            }
        } else {
            assert(windows_probe_usable(current_exe, current_dir, probes[0]));
        }
    }
}

pub open spec fn opt_view(s: Option<&str>) -> Option<Seq<char>> {
    match s {
        Some(x) => Some(x@),
        None => None,
    }
}

pub open spec fn target_view(t: Option<ForwardTarget>) -> Option<(bool, Seq<char>)> {
    match t {
        Some(x) => Some((x.is_batch(), x.file())),
        None => None,
    }
}

/// The candidates of `dir`: `codex.exe`, `codex.cmd`, `codex.bat`, in that order.
pub fn forward_candidates(dir: &str) -> (r: Vec<ForwardTarget>)
    requires
        !is_verbatim_form(dir@),
    ensures
        r@.len() == 3,
        forall|i: int|
            0 <= i < 3 ==> (#[trigger] r@[i]).is_batch() == forward_candidates_of(dir@)[i].0
                && r@[i].file() == forward_candidates_of(dir@)[i].1,
{
    proof {
        reveal_strlit("codex.exe");
        reveal_strlit("codex.cmd");
        reveal_strlit("codex.bat");
    }
    let exe = windows_join_name(dir, "codex.exe");
    let cmd = windows_join_name(dir, "codex.cmd");
    let bat = windows_join_name(dir, "codex.bat");
    vec![ForwardTarget::Direct(exe), ForwardTarget::Batch(cmd), ForwardTarget::Batch(bat)]
}

fn usable(current_exe: Option<&str>, file: &str) -> (r: bool)
    ensures
        r == is_other_than_current(opt_view(current_exe), file@),
{
    match current_exe {
        None => true,
        Some(c) => !path_eq_ignore_case(c, file),
    }
}

/// The existing Codex CLI to forward a `codex` command to, from what was found on PATH.
pub fn find_forward_target(
    current_exe: Option<&str>,
    current_dir: Option<&str>,
    probes: &Vec<PathDirProbe>,
) -> (r: Option<ForwardTarget>)
    ensures
        target_view(r) == forward_choice(opt_view(current_exe), opt_view(current_dir), probes@),
{
    let ghost cur = opt_view(current_exe);
    let ghost cdir = opt_view(current_dir);
    assert(probes@.skip(0) == probes@);
    for i in 0..probes.len()
        invariant
            cur == opt_view(current_exe),
            cdir == opt_view(current_dir),
            forward_choice(cur, cdir, probes@) == forward_choice(cur, cdir, probes@.skip(i as int)),
    {
        let p = &probes[i];
        proof {
            assert(probes@.skip(i as int)[0] == probes@[i as int]);
            assert(probes@.skip(i as int).drop_first() == probes@.skip(i + 1));
        }
        let own_dir = match current_dir {
            Some(d) => path_eq_ignore_case(d, p.dir.as_str()),
            None => false,
        };
        if !own_dir {
            if p.exe_is_file && usable(current_exe, p.exe_path.as_str()) {
                return Some(ForwardTarget::Direct(String::from_str(p.exe_path.as_str())));
            }
            if p.cmd_is_file && usable(current_exe, p.cmd_path.as_str()) {
                return Some(ForwardTarget::Batch(String::from_str(p.cmd_path.as_str())));
            }
            if p.bat_is_file && usable(current_exe, p.bat_path.as_str()) {
                return Some(ForwardTarget::Batch(String::from_str(p.bat_path.as_str())));
            }
        }
    }
    None
}

} // verus!

verus! {

// ---------------------------------------------------------------------------
// Decisions of an uninstall run
// ---------------------------------------------------------------------------

/// A helper file is removed when it exists and is not the running executable.
pub open spec fn file_is_removable(exists: bool, current_exe: Option<Seq<char>>, path: Seq<char>) -> bool {
    exists && is_other_than_current(current_exe, path)
}

/// Whether a helper file is to be removed: it exists and is not the running executable.
pub fn should_remove_file(exists: bool, current_exe: Option<&str>, path: &str) -> (r: bool)
    ensures
        r == file_is_removable(exists, opt_view(current_exe), path@),
{
    if !exists {
        return false;
    }
    match current_exe {
        Some(c) => !path_eq_ignore_case(c, path),
        None => true,
    }
}

/// The user PATH value to write after taking `dir` out, or `None` when the value stays as it is.
pub fn user_path_after_removal(old_value: &str, dir: &str) -> (r: Option<String>)
    ensures
        match r {
            Some(new_value) => new_value@ == path_value_without(old_value@, dir@) && new_value@
                != old_value@,
            None => path_value_without(old_value@, dir@) == old_value@,
        },
{
    let new_value = remove_path_entry_from_value(old_value, dir);
    if crate::text::str_eq(new_value.as_str(), old_value) {
        None
    } else {
        Some(new_value)
    }
}

/// The kinds of registry value that a user PATH may have.
#[derive(Clone, Copy, Debug, PartialEq, Eq, Structural)]
pub enum PathValueKind {
    /// `REG_SZ`
    String,
    /// `REG_EXPAND_SZ`
    ExpandString,
    /// Any other kind.
    Other,
}

/// The kind to write a new PATH value with: that of the value there, when it is a string kind,
/// and `REG_EXPAND_SZ` otherwise.
pub fn path_value_kind(existing: Option<PathValueKind>) -> (r: PathValueKind)
    ensures
        r == match existing {
            Some(PathValueKind::String) => PathValueKind::String,
            _ => PathValueKind::ExpandString,
        },
{
    match existing {
        Some(PathValueKind::String) => PathValueKind::String,
        _ => PathValueKind::ExpandString,
    }
}

} // verus!

verus! {

/// Bytes read back as code units, low byte first.
pub open spec fn units_of_le_bytes(bytes: Seq<u8>) -> Seq<u16>
    decreases bytes.len(),
{
    if bytes.len() < 2 {
        Seq::empty()
    } else {
        units_of_le_bytes(bytes.take(bytes.len() - 2)).push(
            (bytes[bytes.len() - 2] + 256 * bytes[bytes.len() - 1]) as u16,
        )
    }
}

/// UTF-16 code units read back as characters, a high surrogate followed by a low one taken
/// together.
pub open spec fn chars_of_utf16(units: Seq<u16>) -> Seq<char>
    decreases units.len(),
{
    if units.len() == 0 {
        Seq::empty()
    } else {
        let lo = units.last();
        if units.len() >= 2 && 0xdc00 <= lo <= 0xdfff && 0xd800 <= units[units.len() - 2] <= 0xdbff {
            let hi = units[units.len() - 2];
            chars_of_utf16(units.take(units.len() - 2)).push(
                ((0x10000 + (hi - 0xd800) * 0x400 + (lo - 0xdc00)) as u32) as char,
            )
        } else {
            chars_of_utf16(units.drop_last()).push((lo as u32) as char)
        }
    }
}

/// The text that registry string bytes hold: the code units before the terminating zero unit.
pub open spec fn text_of_registry_bytes(bytes: Seq<u8>) -> Seq<char> {
    chars_of_utf16(units_of_le_bytes(bytes).drop_last())
}

proof fn lemma_units_of_le_bytes(units: Seq<u16>)
    ensures
        units_of_le_bytes(le_bytes(units)) == units,
    decreases units.len(),
{
    if units.len() > 0 {
        let u = units.last();
        let b = le_bytes(units);
        lemma_units_of_le_bytes(units.drop_last());
        assert(b == le_bytes(units.drop_last()) + seq![(u % 256) as u8, (u / 256) as u8]);
        assert(b.take(b.len() - 2) =~= le_bytes(units.drop_last()));
        assert(b[b.len() - 2] == (u % 256) as u8);
        assert(b[b.len() - 1] == (u / 256) as u8);
        assert((u % 256) + 256 * (u / 256) == u);
        assert(units.drop_last().push(u) =~= units);
    }
}

proof fn lemma_utf16_round_trip(s: Seq<char>)
    ensures
        chars_of_utf16(utf16_of(s)) == s,
    decreases s.len(),
{
    if s.len() > 0 {
        let c = s.last();
        let n = c as u32;
        let head = utf16_of(s.drop_last());
        vstd::utf8::char_is_scalar(c);
        vstd::utf8::char_u32_cast(c, n);
        lemma_utf16_round_trip(s.drop_last());
        let u = utf16_of(s);
        assert(u == head + utf16_of_char(c));
        if n < 0x10000 {
            assert(u.last() == n as u16);
            assert(u.drop_last() =~= head);
            assert(!(0xd800 <= n <= 0xdfff));
            assert(((n as u16) as u32) == n);
        } else {
            let m = n - 0x10000;
            let hi = (0xd800 + m / 0x400) as u16;
            let lo = (0xdc00 + m % 0x400) as u16;
            assert(n <= 0x10ffff);
            assert(m / 0x400 < 0x400);
            assert(u.len() == head.len() + 2);
            assert(u.last() == lo);
            assert(u[u.len() - 2] == hi);
            assert(u.take(u.len() - 2) =~= head);
            assert(0x10000 + (hi - 0xd800) * 0x400 + (lo - 0xdc00) == n) by (nonlinear_arith)
                requires
                    hi == 0xd800 + m / 0x400,
                    lo == 0xdc00 + m % 0x400,
                    m == n - 0x10000,
                    n >= 0x10000,
            ;
            assert(((0x10000 + (hi - 0xd800) * 0x400 + (lo - 0xdc00)) as u32) == n);
        }
        assert(s.drop_last().push(c) =~= s);
    }
}

/// Writing a string value loses nothing: reading the registry bytes back, up to the terminating
/// zero unit, gives the text that was written.
pub proof fn law_registry_string_round_trip(s: Seq<char>)
    ensures
        text_of_registry_bytes(registry_string_bytes(s)) == s,
{
    lemma_units_of_le_bytes(utf16_of(s).push(0u16));
    assert(utf16_of(s).push(0u16).drop_last() =~= utf16_of(s));
    lemma_utf16_round_trip(s);
}

} // verus!

verus! {

/// `m` indexes the greatest name in `str` order, and no later name equals it: the one that
/// sorting the names and taking the last picks.
pub open spec fn is_last_greatest(names: Seq<Seq<char>>, m: int) -> bool {
    &&& 0 <= m < names.len()
    &&& forall|j: int| 0 <= j < names.len() ==> !crate::text::text_less(names[m], #[trigger] names[j])
    &&& forall|j: int| m < j < names.len() ==> crate::text::text_less(#[trigger] names[j], names[m])
}

/// Of the Codex packages found under WindowsApps, given by name, the one whose executable is
/// used: the greatest name, the last of equal ones.
pub fn latest_package(names: &Vec<String>) -> (r: Option<usize>)
    ensures
        r is None <==> names.len() == 0,
        r matches Some(m) ==> is_last_greatest(string_views(names@), m as int),
{
    if names.len() == 0 {
        return None;
    }
    let ghost v = string_views(names@);
    let mut m: usize = 0;
    let mut best = chars_of(names[0].as_str());
    proof {
        crate::text::lemma_text_less_irreflexive(v[0]);
    }
    for i in 1..names.len()
        invariant
            v == string_views(names@),
            m < i <= names.len(),
            best@ == v[m as int],
            forall|j: int| 0 <= j < i ==> !crate::text::text_less(v[m as int], #[trigger] v[j]),
            forall|j: int| m < j < i ==> crate::text::text_less(#[trigger] v[j], v[m as int]),
    {
        let candidate = chars_of(names[i].as_str());
        if !crate::text::chars_less(&candidate, &best) {
            proof {
                crate::text::lemma_text_less_irreflexive(v[i as int]);
                assert forall|j: int| 0 <= j < i + 1 implies !crate::text::text_less(
                    v[i as int],
                    #[trigger] v[j],
                ) by {
                    if j < i && crate::text::text_less(v[i as int], v[j]) {
                        crate::text::lemma_text_less_total(v[i as int], v[m as int]);
                        if crate::text::text_less(v[m as int], v[i as int]) {
                            crate::text::lemma_text_less_transitive(v[m as int], v[i as int], v[j]);
                        }
                    }
                }
            }
            m = i;
            best = candidate;
        } else {
            proof {
                assert forall|j: int| 0 <= j < i + 1 implies !crate::text::text_less(
                    v[m as int],
                    #[trigger] v[j],
                ) by {
                    if j == i && crate::text::text_less(v[m as int], v[i as int]) {
                        crate::text::lemma_text_less_transitive(v[m as int], v[i as int], v[m as int]);
                        crate::text::lemma_text_less_irreflexive(v[m as int]);
                    }
                }
            }
        }
    }
    Some(m)
}

} // verus!
