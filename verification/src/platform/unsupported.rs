use vstd::prelude::*;

use super::InstallReport;

verus! {

/// What is reported on a platform without desktop integrations.
pub open spec fn unsupported_subject() -> Seq<char> {
    "unsupported platform; only Windows and macOS are supported"@
}

/// On other platforms nothing is installed; the report says so.
pub fn install_integrations() -> (r: InstallReport)
    ensures
        r@ == seq!["skipped: "@ + unsupported_subject()],
{
    let mut report = InstallReport::default();
    report.skipped("unsupported platform; only Windows and macOS are supported");
    assert(report@ =~= seq!["skipped: "@ + unsupported_subject()]);
    report
}

/// On other platforms nothing is removed; the report says so.
pub fn uninstall_integrations() -> (r: InstallReport)
    ensures
        r@ == seq!["skipped: "@ + unsupported_subject()],
{
    let mut report = InstallReport::default();
    report.skipped("unsupported platform; only Windows and macOS are supported");
    assert(report@ =~= seq!["skipped: "@ + unsupported_subject()]);
    report
}

/// On other platforms no project is opened; the outcome says so.
pub fn open_project(_path: &str) -> (r: String)
    ensures
        r@ == "skipped: unsupported platform; only Windows and macOS are supported"@,
{
    String::from_str("skipped: unsupported platform; only Windows and macOS are supported")
}

/// On other platforms there is no Codex CLI to forward to: the exit code is 1.
pub fn forward_to_existing_codex(_args: &Vec<String>) -> (code: i32)
    ensures
        code == 1,
{
    1
}

} // verus!
