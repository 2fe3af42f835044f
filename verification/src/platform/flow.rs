use vstd::prelude::*;

use super::InstallReport;
use crate::registration::{planned_actions, RegistrationAction, RegistrationState};
use crate::text::concat2;

verus! {

/// The desktop that the integrations are for.
#[derive(Clone, Copy, Debug, PartialEq, Eq, Structural)]
pub enum Platform {
    Windows,
    MacOs,
}

/// The menu entry that opens a folder in the Codex app.
pub open spec fn menu_subject(p: Platform) -> Seq<char> {
    match p {
        Platform::Windows => "Open with Codex app Explorer context menu"@,
        Platform::MacOs => "Open with Codex app Finder service"@,
    }
}

/// What a PATH that already finds the shim is reported as.
pub open spec fn path_present_subject(p: Platform) -> Seq<char> {
    match p {
        Platform::Windows => "codex app command shim directory already on user PATH"@,
        Platform::MacOs => "codex app command shim directory already on shell PATH"@,
    }
}

/// What putting the shim directory on PATH is reported as.
pub open spec fn path_added_subject(p: Platform) -> Seq<char> {
    match p {
        Platform::Windows => "codex app command shim directory on user PATH"@,
        Platform::MacOs => "codex app command shim directory in shell profiles"@,
    }
}

fn menu_subject_text(p: Platform) -> (r: &'static str)
    ensures
        r@ == menu_subject(p),
{
    match p {
        Platform::Windows => "Open with Codex app Explorer context menu",
        Platform::MacOs => "Open with Codex app Finder service",
    }
}

fn path_present_subject_text(p: Platform) -> (r: &'static str)
    ensures
        r@ == path_present_subject(p),
{
    match p {
        Platform::Windows => "codex app command shim directory already on user PATH",
        Platform::MacOs => "codex app command shim directory already on shell PATH",
    }
}

fn path_added_subject_text(p: Platform) -> (r: &'static str)
    ensures
        r@ == path_added_subject(p),
{
    match p {
        Platform::Windows => "codex app command shim directory on user PATH",
        Platform::MacOs => "codex app command shim directory in shell profiles",
    }
}

/// The line list that an optional line adds to a report.
pub open spec fn line_seq(line: Option<Seq<char>>) -> Seq<Seq<char>> {
    match line {
        Some(l) => seq![l],
        None => Seq::empty(),
    }
}

// ---------------------------------------------------------------------------
// Installing
// ---------------------------------------------------------------------------

/// Where an install run stands. Each step names the outside work that the caller does next and
/// whose outcome it hands to `install_next`.
#[derive(Clone, Copy, Debug, PartialEq, Eq, Structural)]
pub enum InstallStep {
    /// Look for the Codex app; the outcome is whether it was found.
    LocateApp,
    /// Copy this executable to the stable launcher path; the outcome is whether it was copied.
    PlaceLauncher,
    /// Look for the folder menu entry; the outcome is whether it is registered.
    CheckMenu,
    /// Register the folder menu entry.
    RegisterMenu,
    /// Copy this executable to the shim path; the outcome is whether it was copied.
    PlaceShim,
    /// Look for the shim directory on PATH; the outcome is whether it is there.
    CheckPath,
    /// Put the shim directory on PATH.
    RegisterPath,
    /// Nothing is left to do.
    Done,
}

/// The next step, and the report line, after `step` had the outcome `answer`.
pub open spec fn install_transition(p: Platform, step: InstallStep, answer: bool) -> (
    InstallStep,
    Option<Seq<char>>,
) {
    match step {
        InstallStep::LocateApp => if answer {
            (InstallStep::PlaceLauncher, None)
        } else {
            (InstallStep::Done, Some("skipped: "@ + "Codex app not installed"@))
        },
        InstallStep::PlaceLauncher => (
            InstallStep::CheckMenu,
            Some(
                if answer {
                    "installed: "@ + "stable Open with Codex app launcher"@
                } else {
                    "skipped: "@ + "stable Open with Codex app launcher already exists"@
                },
            ),
        ),
        InstallStep::CheckMenu => if answer {
            (InstallStep::PlaceShim, Some("skipped: "@ + (menu_subject(p) + " already registered"@)))
        } else {
            (InstallStep::RegisterMenu, None)
        },
        InstallStep::RegisterMenu => (InstallStep::PlaceShim, Some("installed: "@ + menu_subject(p))),
        InstallStep::PlaceShim => (
            InstallStep::CheckPath,
            Some(
                if answer {
                    "installed: "@ + "codex app command shim"@
                } else {
                    "skipped: "@ + "codex app command shim already registered"@
                },
            ),
        ),
        InstallStep::CheckPath => if answer {
            (InstallStep::Done, Some("skipped: "@ + path_present_subject(p)))
        } else {
            (InstallStep::RegisterPath, None)
        },
        InstallStep::RegisterPath => (InstallStep::Done, Some("installed: "@ + path_added_subject(p))),
        InstallStep::Done => (InstallStep::Done, None),
    }
}

/// Takes an install run one step on: reports what the outcome `answer` of `step` means and
/// returns the step after it.
pub fn install_next(p: Platform, step: InstallStep, answer: bool, report: &mut InstallReport) -> (next: InstallStep)
    ensures
        next == install_transition(p, step, answer).0,
        final(report)@ == old(report)@ + line_seq(install_transition(p, step, answer).1),
{
    let ghost start = report@;
    let next = match step {
        InstallStep::LocateApp => if answer {
            InstallStep::PlaceLauncher
        } else {
            report.skipped("Codex app not installed");
            InstallStep::Done
        },
        InstallStep::PlaceLauncher => {
            if answer {
                report.installed("stable Open with Codex app launcher");
            } else {
                report.skipped("stable Open with Codex app launcher already exists");
            }
            InstallStep::CheckMenu
        },
        InstallStep::CheckMenu => if answer {
            let subject = concat2(menu_subject_text(p), " already registered");
            report.skipped(subject.as_str());
            InstallStep::PlaceShim
        } else {
            InstallStep::RegisterMenu
        },
        InstallStep::RegisterMenu => {
            report.installed(menu_subject_text(p));
            InstallStep::PlaceShim
        },
        InstallStep::PlaceShim => {
            if answer {
                report.installed("codex app command shim");
            } else {
                report.skipped("codex app command shim already registered");
            }
            InstallStep::CheckPath
        },
        InstallStep::CheckPath => if answer {
            report.skipped(path_present_subject_text(p));
            InstallStep::Done
        } else {
            InstallStep::RegisterPath
        },
        InstallStep::RegisterPath => {
            report.installed(path_added_subject_text(p));
            InstallStep::Done
        },
        InstallStep::Done => InstallStep::Done,
    };
    assert(report@ =~= start + line_seq(install_transition(p, step, answer).1));
    next
}

} // verus!

verus! {

/// The outcomes of the outside work of one install run.
pub struct InstallFacts {
    pub app_found: bool,
    pub launcher_copied: bool,
    pub menu_registered: bool,
    pub shim_copied: bool,
    pub path_registered: bool,
}

/// The outcome that `step` has in a run with facts `f`.
pub open spec fn install_answer(step: InstallStep, f: InstallFacts) -> bool {
    match step {
        InstallStep::LocateApp => f.app_found,
        InstallStep::PlaceLauncher => f.launcher_copied,
        InstallStep::CheckMenu => f.menu_registered,
        InstallStep::PlaceShim => f.shim_copied,
        InstallStep::CheckPath => f.path_registered,
        _ => true,
    }
}

/// How many steps at most are left after `step`.
pub open spec fn install_rank(step: InstallStep) -> nat {
    match step {
        InstallStep::LocateApp => 7,
        InstallStep::PlaceLauncher => 6,
        InstallStep::CheckMenu => 5,
        InstallStep::RegisterMenu => 4,
        InstallStep::PlaceShim => 3,
        InstallStep::CheckPath => 2,
        InstallStep::RegisterPath => 1,
        InstallStep::Done => 0,
    }
}

/// The report lines of an install run from `step` on, when the outside work has the outcomes `f`.
pub open spec fn install_run(p: Platform, step: InstallStep, f: InstallFacts) -> Seq<Seq<char>>
    decreases install_rank(step),
{
    if step is Done {
        Seq::empty()
    } else {
        let (next, line) = install_transition(p, step, install_answer(step, f));
        line_seq(line) + install_run(p, next, f)
    }
}

/// The registration actions that an install run from `step` on takes.
pub open spec fn install_actions(p: Platform, step: InstallStep, f: InstallFacts) -> Seq<RegistrationAction>
    decreases install_rank(step),
{
    if step is Done {
        Seq::empty()
    } else {
        let answer = install_answer(step, f);
        let here: Seq<RegistrationAction> = match step {
            InstallStep::LocateApp => if answer {
                Seq::empty()
            } else {
                seq![RegistrationAction::SkipMissingCodexApp]
            },
            InstallStep::RegisterMenu => seq![RegistrationAction::RegisterContextMenu],
            InstallStep::PlaceShim => if answer {
                seq![RegistrationAction::InstallCliShim]
            } else {
                Seq::empty()
            },
            InstallStep::RegisterPath => seq![RegistrationAction::RegisterCliPath],
            _ => Seq::empty(),
        };
        here + install_actions(p, install_transition(p, step, answer).0, f)
    }
}

/// An install run reports one line for each integration piece: with the app missing a single
/// skipped line; otherwise the launcher, the folder menu, the shim and the PATH, in that order,
/// each installed or skipped as the outside work turned out.
pub proof fn law_install_report(p: Platform, f: InstallFacts)
    ensures
        install_run(p, InstallStep::LocateApp, f) == if !f.app_found {
            seq!["skipped: "@ + "Codex app not installed"@]
        } else {
            seq![
                if f.launcher_copied {
                    "installed: "@ + "stable Open with Codex app launcher"@
                } else {
                    "skipped: "@ + "stable Open with Codex app launcher already exists"@
                },
                if f.menu_registered {
                    "skipped: "@ + (menu_subject(p) + " already registered"@)
                } else {
                    "installed: "@ + menu_subject(p)
                },
                if f.shim_copied {
                    "installed: "@ + "codex app command shim"@
                } else {
                    "skipped: "@ + "codex app command shim already registered"@
                },
                if f.path_registered {
                    "skipped: "@ + path_present_subject(p)
                } else {
                    "installed: "@ + path_added_subject(p)
                },
            ]
        },
{
    reveal_with_fuel(install_run, 8);
    if f.app_found {
        assert(install_run(p, InstallStep::LocateApp, f) =~= install_run(p, InstallStep::PlaceLauncher, f));
    }
    assert(install_run(p, InstallStep::LocateApp, f) =~= (if !f.app_found {
        seq!["skipped: "@ + "Codex app not installed"@]
    } else {
        seq![
            if f.launcher_copied {
                "installed: "@ + "stable Open with Codex app launcher"@
            } else {
                "skipped: "@ + "stable Open with Codex app launcher already exists"@
            },
            if f.menu_registered {
                "skipped: "@ + (menu_subject(p) + " already registered"@)
            } else {
                "installed: "@ + menu_subject(p)
            },
            if f.shim_copied {
                "installed: "@ + "codex app command shim"@
            } else {
                "skipped: "@ + "codex app command shim already registered"@
            },
            if f.path_registered {
                "skipped: "@ + path_present_subject(p)
            } else {
                "installed: "@ + path_added_subject(p)
            },
        ]
    }));
}

/// An install run takes exactly the registration actions that `plan_registration` plans for the
/// state it finds, in the same order; the shim counts as registered when it needed no copy.
pub proof fn law_install_follows_plan(p: Platform, f: InstallFacts)
    ensures
        install_actions(p, InstallStep::LocateApp, f) == planned_actions(
            RegistrationState {
                codex_app_installed: f.app_found,
                context_menu_registered: f.menu_registered,
                cli_registered: !f.shim_copied,
                cli_path_registered: f.path_registered,
            },
        ),
{
    reveal_with_fuel(install_actions, 8);
    let s = RegistrationState {
        codex_app_installed: f.app_found,
        context_menu_registered: f.menu_registered,
        cli_registered: !f.shim_copied,
        cli_path_registered: f.path_registered,
    };
    assert(install_actions(p, InstallStep::LocateApp, f) =~= planned_actions(s));
}

} // verus!

verus! {

// ---------------------------------------------------------------------------
// Uninstalling
// ---------------------------------------------------------------------------

/// Where an uninstall run stands. Each step names the outside work that the caller does next
/// and whose outcome it hands to `uninstall_next`.
#[derive(Clone, Copy, Debug, PartialEq, Eq, Structural)]
pub enum UninstallStep {
    /// Remove the folder menu entry (on Windows, the folder one); the outcome is whether it was
    /// there.
    RemoveMenu,
    /// Remove the folder background menu entry (Windows); the outcome is whether it was there.
    RemoveBackgroundMenu,
    /// Take the shim directory off PATH; the outcome is whether anything changed.
    RemovePathEntry,
    /// Look for the shim (macOS); the outcome is whether it exists.
    CheckShim,
    /// See whether the shim is this tool's own copy (macOS); the outcome is whether it is, in
    /// which case it is removed.
    CheckShimOwned,
    /// Look for the directory of helper files; the outcome is whether it exists.
    CheckHelperFiles,
    /// See whether this executable runs from inside that directory; the outcome is whether it
    /// does.
    CheckRunningInside,
    /// Remove the whole directory of helper files.
    RemoveHelperDir,
    /// Remove the shim file unless it is the running executable (Windows); the outcome is
    /// whether it was removed.
    RemoveShimFile,
    /// Remove the launcher file unless it is the running executable; the outcome is whether it
    /// was removed.
    RemoveLauncherFile,
    /// Leave the directory of helper files, which holds the running executable.
    KeepHelperDir,
    /// Nothing is left to do.
    Done,
}

/// The menu entry (or the first of the two, on Windows) that uninstalling removes.
pub open spec fn removed_menu_subject(p: Platform) -> Seq<char> {
    match p {
        Platform::Windows => "Open with Codex app folder context menu"@,
        Platform::MacOs => "Open with Codex app Finder service"@,
    }
}

/// What taking the shim directory off PATH is reported as.
pub open spec fn path_removed_subject(p: Platform) -> Seq<char> {
    match p {
        Platform::Windows => "codex app command shim directory from user PATH"@,
        Platform::MacOs => "codex app command shim directory from shell profiles"@,
    }
}

/// What a PATH without the shim directory is reported as.
pub open spec fn path_absent_subject(p: Platform) -> Seq<char> {
    match p {
        Platform::Windows => "codex app command shim directory on user PATH"@,
        Platform::MacOs => "codex app command shim directory in shell profiles"@,
    }
}

fn removed_menu_subject_text(p: Platform) -> (r: &'static str)
    ensures
        r@ == removed_menu_subject(p),
{
    match p {
        Platform::Windows => "Open with Codex app folder context menu",
        Platform::MacOs => "Open with Codex app Finder service",
    }
}

fn path_removed_subject_text(p: Platform) -> (r: &'static str)
    ensures
        r@ == path_removed_subject(p),
{
    match p {
        Platform::Windows => "codex app command shim directory from user PATH",
        Platform::MacOs => "codex app command shim directory from shell profiles",
    }
}

fn path_absent_subject_text(p: Platform) -> (r: &'static str)
    ensures
        r@ == path_absent_subject(p),
{
    match p {
        Platform::Windows => "codex app command shim directory on user PATH",
        Platform::MacOs => "codex app command shim directory in shell profiles",
    }
}

/// A line that says `subject` was removed when `done`, and skipped otherwise.
pub open spec fn removal_line(done: bool, subject: Seq<char>) -> Seq<char> {
    if done {
        "removed: "@ + subject
    } else {
        "skipped: "@ + subject
    }
}

/// The next step, and the report line, after `step` had the outcome `answer`.
pub open spec fn uninstall_transition(p: Platform, step: UninstallStep, answer: bool) -> (
    UninstallStep,
    Option<Seq<char>>,
) {
    match step {
        UninstallStep::RemoveMenu => (
            if p is Windows {
                UninstallStep::RemoveBackgroundMenu
            } else {
                UninstallStep::RemovePathEntry
            },
            Some(removal_line(answer, removed_menu_subject(p))),
        ),
        UninstallStep::RemoveBackgroundMenu => (
            UninstallStep::RemovePathEntry,
            Some(removal_line(answer, "Open with Codex app folder background context menu"@)),
        ),
        UninstallStep::RemovePathEntry => (
            if p is Windows {
                UninstallStep::CheckHelperFiles
            } else {
                UninstallStep::CheckShim
            },
            Some(
                if answer {
                    "removed: "@ + path_removed_subject(p)
                } else {
                    "skipped: "@ + path_absent_subject(p)
                },
            ),
        ),
        UninstallStep::CheckShim => if answer {
            (UninstallStep::CheckShimOwned, None)
        } else {
            (UninstallStep::CheckHelperFiles, Some("skipped: "@ + "codex app command shim"@))
        },
        UninstallStep::CheckShimOwned => (
            UninstallStep::CheckHelperFiles,
            Some(
                if answer {
                    "removed: "@ + "codex app command shim"@
                } else {
                    "skipped: "@ + "codex app command shim because it does not look owned by this tool"@
                },
            ),
        ),
        UninstallStep::CheckHelperFiles => if answer {
            (UninstallStep::CheckRunningInside, None)
        } else {
            (UninstallStep::Done, Some("skipped: "@ + "Open with Codex app helper files"@))
        },
        UninstallStep::CheckRunningInside => if !answer {
            (UninstallStep::RemoveHelperDir, None)
        } else if p is Windows {
            (UninstallStep::RemoveShimFile, None)
        } else {
            (UninstallStep::RemoveLauncherFile, None)
        },
        UninstallStep::RemoveHelperDir => (
            UninstallStep::Done,
            Some("removed: "@ + "Open with Codex app helper files"@),
        ),
        UninstallStep::RemoveShimFile => (
            UninstallStep::RemoveLauncherFile,
            Some(removal_line(answer, "codex app command shim"@)),
        ),
        UninstallStep::RemoveLauncherFile => (
            UninstallStep::KeepHelperDir,
            Some(removal_line(answer, "stable Open with Codex app launcher"@)),
        ),
        UninstallStep::KeepHelperDir => (
            UninstallStep::Done,
            Some(
                "skipped: "@
                    + "Open with Codex app helper directory because the uninstaller is running from it"@,
            ),
        ),
        UninstallStep::Done => (UninstallStep::Done, None),
    }
}

fn report_removal(report: &mut InstallReport, done: bool, subject: &str)
    ensures
        final(report)@ == old(report)@.push(removal_line(done, subject@)),
{
    if done {
        report.removed(subject);
    } else {
        report.skipped(subject);
    }
}

/// Takes an uninstall run one step on: reports what the outcome `answer` of `step` means and
/// returns the step after it.
pub fn uninstall_next(p: Platform, step: UninstallStep, answer: bool, report: &mut InstallReport) -> (next: UninstallStep)
    ensures
        next == uninstall_transition(p, step, answer).0,
        final(report)@ == old(report)@ + line_seq(uninstall_transition(p, step, answer).1),
{
    let ghost start = report@;
    let next = match step {
        UninstallStep::RemoveMenu => {
            report_removal(report, answer, removed_menu_subject_text(p));
            match p {
                Platform::Windows => UninstallStep::RemoveBackgroundMenu,
                Platform::MacOs => UninstallStep::RemovePathEntry,
            }
        },
        UninstallStep::RemoveBackgroundMenu => {
            report_removal(report, answer, "Open with Codex app folder background context menu");
            UninstallStep::RemovePathEntry
        },
        UninstallStep::RemovePathEntry => {
            if answer {
                report.removed(path_removed_subject_text(p));
            } else {
                report.skipped(path_absent_subject_text(p));
            }
            match p {
                Platform::Windows => UninstallStep::CheckHelperFiles,
                Platform::MacOs => UninstallStep::CheckShim,
            }
        },
        UninstallStep::CheckShim => if answer {
            UninstallStep::CheckShimOwned
        } else {
            report.skipped("codex app command shim");
            UninstallStep::CheckHelperFiles
        },
        UninstallStep::CheckShimOwned => {
            if answer {
                report.removed("codex app command shim");
            } else {
                report.skipped("codex app command shim because it does not look owned by this tool");
            }
            UninstallStep::CheckHelperFiles
        },
        UninstallStep::CheckHelperFiles => if answer {
            UninstallStep::CheckRunningInside
        } else {
            report.skipped("Open with Codex app helper files");
            UninstallStep::Done
        },
        UninstallStep::CheckRunningInside => if !answer {
            UninstallStep::RemoveHelperDir
        } else {
            match p {
                Platform::Windows => UninstallStep::RemoveShimFile,
                Platform::MacOs => UninstallStep::RemoveLauncherFile,
            }
        },
        UninstallStep::RemoveHelperDir => {
            report.removed("Open with Codex app helper files");
            UninstallStep::Done
        },
        UninstallStep::RemoveShimFile => {
            report_removal(report, answer, "codex app command shim");
            UninstallStep::RemoveLauncherFile
        },
        UninstallStep::RemoveLauncherFile => {
            report_removal(report, answer, "stable Open with Codex app launcher");
            UninstallStep::KeepHelperDir
        },
        UninstallStep::KeepHelperDir => {
            report.skipped(
                "Open with Codex app helper directory because the uninstaller is running from it",
            );
            UninstallStep::Done
        },
        UninstallStep::Done => UninstallStep::Done,
    };
    assert(report@ =~= start + line_seq(uninstall_transition(p, step, answer).1));
    next
}

} // verus!

verus! {

/// The outcomes of the outside work of one uninstall run.
pub struct UninstallFacts {
    pub menu_found: bool,
    pub background_menu_found: bool,
    pub path_changed: bool,
    pub shim_exists: bool,
    pub shim_owned: bool,
    pub helper_dir_exists: bool,
    pub running_inside: bool,
    pub shim_file_removed: bool,
    pub launcher_file_removed: bool,
}

/// The outcome that `step` has in a run with facts `f`.
pub open spec fn uninstall_answer(step: UninstallStep, f: UninstallFacts) -> bool {
    match step {
        UninstallStep::RemoveMenu => f.menu_found,
        UninstallStep::RemoveBackgroundMenu => f.background_menu_found,
        UninstallStep::RemovePathEntry => f.path_changed,
        UninstallStep::CheckShim => f.shim_exists,
        UninstallStep::CheckShimOwned => f.shim_owned,
        UninstallStep::CheckHelperFiles => f.helper_dir_exists,
        UninstallStep::CheckRunningInside => f.running_inside,
        UninstallStep::RemoveShimFile => f.shim_file_removed,
        UninstallStep::RemoveLauncherFile => f.launcher_file_removed,
        _ => true,
    }
}

/// How many steps at most are left after `step`.
pub open spec fn uninstall_rank(step: UninstallStep) -> nat {
    match step {
        UninstallStep::RemoveMenu => 10,
        UninstallStep::RemoveBackgroundMenu => 9,
        UninstallStep::RemovePathEntry => 8,
        UninstallStep::CheckShim => 7,
        UninstallStep::CheckShimOwned => 6,
        UninstallStep::CheckHelperFiles => 5,
        UninstallStep::CheckRunningInside => 4,
        UninstallStep::RemoveShimFile => 3,
        UninstallStep::RemoveLauncherFile => 2,
        UninstallStep::RemoveHelperDir => 1,
        UninstallStep::KeepHelperDir => 1,
        UninstallStep::Done => 0,
    }
}

/// The steps that an uninstall run goes through from `step` on, when the outside work has the
/// outcomes `f`.
pub open spec fn uninstall_steps(p: Platform, step: UninstallStep, f: UninstallFacts) -> Seq<UninstallStep>
    decreases uninstall_rank(step),
{
    if step is Done {
        Seq::empty()
    } else {
        seq![step] + uninstall_steps(p, uninstall_transition(p, step, uninstall_answer(step, f)).0, f)
    }
}

/// The report lines of an uninstall run from `step` on, when the outside work has the outcomes
/// `f`.
pub open spec fn uninstall_run(p: Platform, step: UninstallStep, f: UninstallFacts) -> Seq<Seq<char>>
    decreases uninstall_rank(step),
{
    if step is Done {
        Seq::empty()
    } else {
        let (next, line) = uninstall_transition(p, step, uninstall_answer(step, f));
        line_seq(line) + uninstall_run(p, next, f)
    }
}

/// A report line that tells of a removal or of something left alone.
pub open spec fn is_removal_report(line: Seq<char>) -> bool {
    crate::text::has_prefix(line, "removed: "@) || crate::text::has_prefix(line, "skipped: "@)
}

proof fn lemma_prefix_of_concat(a: Seq<char>, b: Seq<char>)
    ensures
        crate::text::has_prefix(a + b, a),
{
    assert((a + b).take(a.len() as int) =~= a);
}

/// Uninstalling never installs anything: each line of an uninstall run reports a removal or a
/// piece left alone.
pub proof fn law_uninstall_only_removes(p: Platform, step: UninstallStep, f: UninstallFacts)
    ensures
        forall|i: int|
            0 <= i < uninstall_run(p, step, f).len() ==> is_removal_report(
                #[trigger] uninstall_run(p, step, f)[i],
            ),
    decreases uninstall_rank(step),
{
    if !(step is Done) {
        let (next, line) = uninstall_transition(p, step, uninstall_answer(step, f));
        law_uninstall_only_removes(p, next, f);
        let rest = uninstall_run(p, next, f);
        match line {
            Some(l) => {
                let answer = uninstall_answer(step, f);
                assert(is_removal_report(l)) by {
                    match step {
                        UninstallStep::RemoveMenu => {
                            lemma_prefix_of_concat("removed: "@, removed_menu_subject(p));
                            lemma_prefix_of_concat("skipped: "@, removed_menu_subject(p));
                        },
                        UninstallStep::RemoveBackgroundMenu => {
                            lemma_prefix_of_concat("removed: "@, "Open with Codex app folder background context menu"@);
                            lemma_prefix_of_concat("skipped: "@, "Open with Codex app folder background context menu"@);
                        },
                        UninstallStep::RemovePathEntry => {
                            lemma_prefix_of_concat("removed: "@, path_removed_subject(p));
                            lemma_prefix_of_concat("skipped: "@, path_absent_subject(p));
                        },
                        UninstallStep::CheckShim => {
                            lemma_prefix_of_concat("skipped: "@, "codex app command shim"@);
                        },
                        UninstallStep::CheckShimOwned => {
                            lemma_prefix_of_concat("removed: "@, "codex app command shim"@);
                            lemma_prefix_of_concat("skipped: "@, "codex app command shim because it does not look owned by this tool"@);
                        },
                        UninstallStep::CheckHelperFiles => {
                            lemma_prefix_of_concat("skipped: "@, "Open with Codex app helper files"@);
                        },
                        UninstallStep::RemoveHelperDir => {
                            lemma_prefix_of_concat("removed: "@, "Open with Codex app helper files"@);
                        },
                        UninstallStep::RemoveShimFile => {
                            lemma_prefix_of_concat("removed: "@, "codex app command shim"@);
                            lemma_prefix_of_concat("skipped: "@, "codex app command shim"@);
                        },
                        UninstallStep::RemoveLauncherFile => {
                            lemma_prefix_of_concat("removed: "@, "stable Open with Codex app launcher"@);
                            lemma_prefix_of_concat("skipped: "@, "stable Open with Codex app launcher"@);
                        },
                        UninstallStep::KeepHelperDir => {
                            lemma_prefix_of_concat("skipped: "@, "Open with Codex app helper directory because the uninstaller is running from it"@);
                        },
                        _ => {},
                    }
                }
                assert forall|i: int|
                    0 <= i < uninstall_run(p, step, f).len() implies is_removal_report(
                    #[trigger] uninstall_run(p, step, f)[i],
                ) by {
                    if i > 0 {
                        assert(uninstall_run(p, step, f)[i] == rest[i - 1]);
                    }
                }
            },
            None => {
                assert(uninstall_run(p, step, f) =~= rest);
            },
        }
    }
}

proof fn lemma_steps_contain(p: Platform, step: UninstallStep, f: UninstallFacts, x: UninstallStep)
    requires
        !(step is Done),
    ensures
        uninstall_steps(p, step, f).contains(x) <==> (step == x || uninstall_steps(
            p,
            uninstall_transition(p, step, uninstall_answer(step, f)).0,
            f,
        ).contains(x)),
{
    let next = uninstall_transition(p, step, uninstall_answer(step, f)).0;
    let rest = uninstall_steps(p, next, f);
    let all = uninstall_steps(p, step, f);
    assert(all == seq![step] + rest);
    if rest.contains(x) {
        let k = choose|k: int| 0 <= k < rest.len() && rest[k] == x;
        assert(all[k + 1] == x);
    }
    if all.contains(x) && step != x {
        let k = choose|k: int| 0 <= k < all.len() && all[k] == x;
        assert(k > 0);
        assert(rest[k - 1] == x);
    }
    assert(all[0] == step);
}

/// The directory of helper files is removed whole only when it exists and the running
/// executable is not inside it.
pub proof fn law_uninstall_keeps_running_dir(p: Platform, f: UninstallFacts)
    ensures
        uninstall_steps(p, UninstallStep::RemoveMenu, f).contains(UninstallStep::RemoveHelperDir)
            <==> (f.helper_dir_exists && !f.running_inside),
{
    let x = UninstallStep::RemoveHelperDir;
    assert(uninstall_steps(p, UninstallStep::Done, f) == Seq::<UninstallStep>::empty());
    lemma_steps_contain(p, UninstallStep::KeepHelperDir, f, x);
    lemma_steps_contain(p, UninstallStep::RemoveLauncherFile, f, x);
    lemma_steps_contain(p, UninstallStep::RemoveShimFile, f, x);
    lemma_steps_contain(p, UninstallStep::RemoveHelperDir, f, x);
    lemma_steps_contain(p, UninstallStep::CheckRunningInside, f, x);
    lemma_steps_contain(p, UninstallStep::CheckHelperFiles, f, x);
    lemma_steps_contain(p, UninstallStep::CheckShimOwned, f, x);
    lemma_steps_contain(p, UninstallStep::CheckShim, f, x);
    lemma_steps_contain(p, UninstallStep::RemovePathEntry, f, x);
    lemma_steps_contain(p, UninstallStep::RemoveBackgroundMenu, f, x);
    lemma_steps_contain(p, UninstallStep::RemoveMenu, f, x);
}

} // verus!
