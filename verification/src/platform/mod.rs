pub mod flow;
pub mod macos;
pub mod macos_assets;
pub mod unsupported;
pub mod windows;

use vstd::prelude::*;

use crate::text::string_views;

verus! {

/// The lines that an install or uninstall run reports, one per integration piece.
#[derive(Debug)]
pub struct InstallReport {
    pub lines: Vec<String>,
}

impl View for InstallReport {
    type V = Seq<Seq<char>>;

    open spec fn view(&self) -> Seq<Seq<char>> {
        string_views(self.lines@)
    }
}

impl Default for InstallReport {
    fn default() -> (r: InstallReport)
        ensures
            r@ == Seq::<Seq<char>>::empty(),
    {
        let r = InstallReport { lines: Vec::new() };
        assert(r@ =~= Seq::<Seq<char>>::empty());
        r
    }
}

impl InstallReport {
    fn add_line(&mut self, label: &str, subject: &str)
        ensures
            final(self)@ == old(self)@.push(label@ + subject@),
    {
        let line = crate::text::concat2(label, subject);
        let ghost before = self.lines@;
        self.lines.push(line);
        assert(self@ =~= string_views(before).push(label@ + subject@));
    }

    /// Reports a piece as installed: `installed: <subject>`.
    pub fn installed(&mut self, subject: &str)
        ensures
            final(self)@ == old(self)@.push("installed: "@ + subject@),
    {
        self.add_line("installed: ", subject)
    }

    /// Reports a piece as removed: `removed: <subject>`.
    pub fn removed(&mut self, subject: &str)
        ensures
            final(self)@ == old(self)@.push("removed: "@ + subject@),
    {
        self.add_line("removed: ", subject)
    }

    /// Reports a piece as left alone: `skipped: <subject>`.
    pub fn skipped(&mut self, subject: &str)
        ensures
            final(self)@ == old(self)@.push("skipped: "@ + subject@),
    {
        self.add_line("skipped: ", subject)
    }
}

} // verus!

verus! {

/// What opening a project reports when the Codex app was started on it.
pub fn opened_outcome(project: &str) -> (r: String)
    ensures
        r@ == "opened: "@ + project@,
{
    crate::text::concat2("opened: ", project)
}

/// What opening a project reports when the Codex app is not installed.
pub fn app_missing_outcome() -> (r: String)
    ensures
        r@ == "skipped: Codex app not installed"@,
{
    String::from_str("skipped: Codex app not installed")
}

/// The non-blank lines of a program's output, trimmed: the paths that a search printed.
pub open spec fn output_paths(output: Seq<char>) -> Seq<Seq<char>> {
    nonblank_trimmed(crate::text::split_on(output, '\n'))
}

/// The pieces trimmed of white space, the blank ones left out.
pub open spec fn nonblank_trimmed(pieces: Seq<Seq<char>>) -> Seq<Seq<char>>
    decreases pieces.len(),
{
    if pieces.len() == 0 {
        Seq::empty()
    } else {
        let rest = nonblank_trimmed(pieces.drop_last());
        let t = crate::text::trim(pieces.last(), crate::text::CharClass::WhiteSpace);
        if t.len() == 0 {
            rest
        } else {
            rest.push(t)
        }
    }
}

/// The paths that a search program printed, one per line, in order.
pub fn output_path_lines(output: &str) -> (r: Vec<String>)
    ensures
        string_views(r@) == output_paths(output@),
{
    let v = crate::text::chars_of(output);
    let pieces = crate::text::split_chars(&v, '\n');
    let mut kept: Vec<Vec<char>> = Vec::new();
    for i in 0..pieces.len()
        invariant
            crate::text::views(pieces@) == crate::text::split_on(output@, '\n'),
            crate::text::views(kept@) == nonblank_trimmed(crate::text::views(pieces@).take(i as int)),
    {
        let ghost upto = crate::text::views(pieces@).take(i + 1);
        assert(upto.drop_last() == crate::text::views(pieces@).take(i as int));
        assert(upto.last() == pieces@[i as int]@);
        let t = crate::text::trim_chars(&pieces[i], crate::text::CharClass::WhiteSpace);
        if t.len() > 0 {
            let ghost prev = kept@;
            kept.push(t);
            assert(crate::text::views(kept@) =~= crate::text::views(prev).push(t@));
        }
    }
    assert(crate::text::views(pieces@).take(pieces.len() as int) == crate::text::views(pieces@));
    crate::text::strings_of(&kept)
}

} // verus!
