use vstd::prelude::*;

use crate::text::{
    chars_of, extend_chars, lemma_split_concat, lemma_split_without_sep, occurs_at, replace_all,
    split_on, string_of,
};

verus! {

/// The shell script that the Finder service runs: it opens each folder it is given with the
/// launcher's `app` subcommand.
pub open spec fn workflow_script(launcher_path: Seq<char>) -> Seq<char> {
    "for item in \"$@\"; do\n  \""@ + launcher_path + "\" app \"$item\" >/dev/null 2>&1\ndone\n"@
}

/// The shell script that the Finder service runs for the launcher at `launcher_path`.
pub fn workflow_shell_script(launcher_path: &str) -> (r: String)
    ensures
        r@ == workflow_script(launcher_path@),
{
    let mut r = String::from_str("for item in \"$@\"; do\n  \"");
    r.append(launcher_path);
    r.append("\" app \"$item\" >/dev/null 2>&1\ndone\n");
    r
}

/// The `Info.plist` of the Finder service bundle.
pub open spec fn info_plist() -> Seq<char> {
    "<?xml version=\"1.0\" encoding=\"UTF-8\"?>\n<!DOCTYPE plist PUBLIC \"-//Apple//DTD PLIST 1.0//EN\" \"http://www.apple.com/DTDs/PropertyList-1.0.dtd\">\n<plist version=\"1.0\">\n<dict>\n  <key>CFBundleDevelopmentRegion</key>\n  <string>en_US</string>\n  <key>CFBundleIdentifier</key>\n  <string>com.openai.codex.open-with-codex-app.finder-service</string>\n  <key>CFBundleName</key>\n  <string>Open with Codex app</string>\n  <key>CFBundleShortVersionString</key>\n  <string>1.0</string>\n  <key>CFBundleVersion</key>\n  <string>1</string>\n  <key>NSServices</key>\n  <array>\n    <dict>\n      <key>NSMenuItem</key>\n      <dict>\n        <key>default</key>\n        <string>Open with Codex app</string>\n      </dict>\n      <key>NSMessage</key>\n      <string>runWorkflowAsService</string>\n      <key>NSRequiredContext</key>\n      <dict>\n        <key>NSApplicationIdentifier</key>\n        <string>com.apple.finder</string>\n      </dict>\n      <key>NSSendFileTypes</key>\n      <array>\n        <string>public.folder</string>\n      </array>\n    </dict>\n  </array>\n</dict>\n</plist>\n"@
}

/// The `Info.plist` of the Finder service bundle.
pub fn info_plist_xml() -> (r: String)
    ensures
        r@ == info_plist(),
{
    String::from_str("<?xml version=\"1.0\" encoding=\"UTF-8\"?>\n<!DOCTYPE plist PUBLIC \"-//Apple//DTD PLIST 1.0//EN\" \"http://www.apple.com/DTDs/PropertyList-1.0.dtd\">\n<plist version=\"1.0\">\n<dict>\n  <key>CFBundleDevelopmentRegion</key>\n  <string>en_US</string>\n  <key>CFBundleIdentifier</key>\n  <string>com.openai.codex.open-with-codex-app.finder-service</string>\n  <key>CFBundleName</key>\n  <string>Open with Codex app</string>\n  <key>CFBundleShortVersionString</key>\n  <string>1.0</string>\n  <key>CFBundleVersion</key>\n  <string>1</string>\n  <key>NSServices</key>\n  <array>\n    <dict>\n      <key>NSMenuItem</key>\n      <dict>\n        <key>default</key>\n        <string>Open with Codex app</string>\n      </dict>\n      <key>NSMessage</key>\n      <string>runWorkflowAsService</string>\n      <key>NSRequiredContext</key>\n      <dict>\n        <key>NSApplicationIdentifier</key>\n        <string>com.apple.finder</string>\n      </dict>\n      <key>NSSendFileTypes</key>\n      <array>\n        <string>public.folder</string>\n      </array>\n    </dict>\n  </array>\n</dict>\n</plist>\n")
}

/// The text of `document.wflow` before the escaped script.
pub open spec fn wflow_head() -> Seq<char> {
    "<?xml version=\"1.0\" encoding=\"UTF-8\"?>\n<!DOCTYPE plist PUBLIC \"-//Apple//DTD PLIST 1.0//EN\" \"http://www.apple.com/DTDs/PropertyList-1.0.dtd\">\n<plist version=\"1.0\">\n<dict>\n  <key>actions</key>\n  <array>\n    <dict>\n      <key>action</key>\n      <dict>\n        <key>ActionBundlePath</key>\n        <string>/System/Library/Automator/Run Shell Script.action</string>\n        <key>ActionName</key>\n        <string>Run Shell Script</string>\n        <key>ActionParameters</key>\n        <dict>\n          <key>COMMAND_STRING</key>\n          <string>"@
}

/// The text of `document.wflow` after the escaped script.
pub open spec fn wflow_tail() -> Seq<char> {
    "</string>\n          <key>CheckedForUserDefaultShell</key>\n          <true/>\n          <key>inputMethod</key>\n          <integer>1</integer>\n          <key>shell</key>\n          <string>/bin/zsh</string>\n          <key>source</key>\n          <string></string>\n        </dict>\n        <key>AMAccepts</key>\n        <dict>\n          <key>Container</key>\n          <string>List</string>\n          <key>Optional</key>\n          <true/>\n          <key>Types</key>\n          <array>\n            <string>com.apple.cocoa.path</string>\n          </array>\n        </dict>\n        <key>AMActionVersion</key>\n        <string>2.0.3</string>\n        <key>AMProvides</key>\n        <dict>\n          <key>Container</key>\n          <string>List</string>\n          <key>Types</key>\n          <array>\n            <string>com.apple.cocoa.string</string>\n          </array>\n        </dict>\n        <key>Application</key>\n        <array>\n          <string>Automator</string>\n        </array>\n        <key>BundleIdentifier</key>\n        <string>com.apple.RunShellScript</string>\n        <key>CanShowSelectedItemsWhenRun</key>\n        <false/>\n        <key>CanShowWhenRun</key>\n        <true/>\n        <key>Category</key>\n        <array>\n          <string>AMCategoryUtilities</string>\n        </array>\n        <key>CFBundleVersion</key>\n        <string>2.0.3</string>\n        <key>Class Name</key>\n        <string>RunShellScriptAction</string>\n      </dict>\n      <key>isViewVisible</key>\n      <false/>\n    </dict>\n  </array>\n  <key>AMApplicationVersion</key>\n  <string>2.10</string>\n  <key>AMDocumentVersion</key>\n  <string>2</string>\n  <key>connectors</key>\n  <dict/>\n  <key>workflowMetaData</key>\n  <dict>\n    <key>serviceApplicationBundleID</key>\n    <string>com.apple.finder</string>\n    <key>serviceApplicationPath</key>\n    <string>/System/Library/CoreServices/Finder.app</string>\n    <key>serviceInputTypeIdentifier</key>\n    <string>com.apple.Automator.fileSystemObject.folder</string>\n    <key>serviceOutputTypeIdentifier</key>\n    <string>com.apple.Automator.nothing</string>\n    <key>serviceProcessesInput</key>\n    <integer>0</integer>\n    <key>workflowTypeIdentifier</key>\n    <string>com.apple.Automator.servicesMenu</string>\n  </dict>\n</dict>\n</plist>\n"@
}

/// The `document.wflow` of the Finder service: an Automator "Run Shell Script" action whose
/// command is the workflow script, escaped for XML.
pub open spec fn document_wflow(launcher_path: Seq<char>) -> Seq<char> {
    wflow_head() + xml_escaped(workflow_script(launcher_path)) + wflow_tail()
}

/// The `document.wflow` of the Finder service for the launcher at `launcher_path`.
pub fn document_wflow_xml(launcher_path: &str) -> (r: String)
    ensures
        r@ == document_wflow(launcher_path@),
{
    let script = workflow_shell_script(launcher_path);
    let escaped = xml_escape(script.as_str());
    let mut r = String::from_str("<?xml version=\"1.0\" encoding=\"UTF-8\"?>\n<!DOCTYPE plist PUBLIC \"-//Apple//DTD PLIST 1.0//EN\" \"http://www.apple.com/DTDs/PropertyList-1.0.dtd\">\n<plist version=\"1.0\">\n<dict>\n  <key>actions</key>\n  <array>\n    <dict>\n      <key>action</key>\n      <dict>\n        <key>ActionBundlePath</key>\n        <string>/System/Library/Automator/Run Shell Script.action</string>\n        <key>ActionName</key>\n        <string>Run Shell Script</string>\n        <key>ActionParameters</key>\n        <dict>\n          <key>COMMAND_STRING</key>\n          <string>");
    r.append(escaped.as_str());
    r.append("</string>\n          <key>CheckedForUserDefaultShell</key>\n          <true/>\n          <key>inputMethod</key>\n          <integer>1</integer>\n          <key>shell</key>\n          <string>/bin/zsh</string>\n          <key>source</key>\n          <string></string>\n        </dict>\n        <key>AMAccepts</key>\n        <dict>\n          <key>Container</key>\n          <string>List</string>\n          <key>Optional</key>\n          <true/>\n          <key>Types</key>\n          <array>\n            <string>com.apple.cocoa.path</string>\n          </array>\n        </dict>\n        <key>AMActionVersion</key>\n        <string>2.0.3</string>\n        <key>AMProvides</key>\n        <dict>\n          <key>Container</key>\n          <string>List</string>\n          <key>Types</key>\n          <array>\n            <string>com.apple.cocoa.string</string>\n          </array>\n        </dict>\n        <key>Application</key>\n        <array>\n          <string>Automator</string>\n        </array>\n        <key>BundleIdentifier</key>\n        <string>com.apple.RunShellScript</string>\n        <key>CanShowSelectedItemsWhenRun</key>\n        <false/>\n        <key>CanShowWhenRun</key>\n        <true/>\n        <key>Category</key>\n        <array>\n          <string>AMCategoryUtilities</string>\n        </array>\n        <key>CFBundleVersion</key>\n        <string>2.0.3</string>\n        <key>Class Name</key>\n        <string>RunShellScriptAction</string>\n      </dict>\n      <key>isViewVisible</key>\n      <false/>\n    </dict>\n  </array>\n  <key>AMApplicationVersion</key>\n  <string>2.10</string>\n  <key>AMDocumentVersion</key>\n  <string>2</string>\n  <key>connectors</key>\n  <dict/>\n  <key>workflowMetaData</key>\n  <dict>\n    <key>serviceApplicationBundleID</key>\n    <string>com.apple.finder</string>\n    <key>serviceApplicationPath</key>\n    <string>/System/Library/CoreServices/Finder.app</string>\n    <key>serviceInputTypeIdentifier</key>\n    <string>com.apple.Automator.fileSystemObject.folder</string>\n    <key>serviceOutputTypeIdentifier</key>\n    <string>com.apple.Automator.nothing</string>\n    <key>serviceProcessesInput</key>\n    <integer>0</integer>\n    <key>workflowTypeIdentifier</key>\n    <string>com.apple.Automator.servicesMenu</string>\n  </dict>\n</dict>\n</plist>\n");
    r
}

/// What one character becomes in XML text: the five markup characters become entities.
pub open spec fn xml_escape_char(c: char) -> Seq<char> {
    if c == '&' {
        seq!['&', 'a', 'm', 'p', ';']
    } else if c == '<' {
        seq!['&', 'l', 't', ';']
    } else if c == '>' {
        seq!['&', 'g', 't', ';']
    } else if c == '"' {
        seq!['&', 'q', 'u', 'o', 't', ';']
    } else if c == '\'' {
        seq!['&', 'a', 'p', 'o', 's', ';']
    } else {
        seq![c]
    }
}

/// A text as XML character data: each markup character replaced by its entity.
pub open spec fn xml_escaped(s: Seq<char>) -> Seq<char>
    decreases s.len(),
{
    if s.len() == 0 {
        Seq::empty()
    } else {
        xml_escaped(s.drop_last()) + xml_escape_char(s.last())
    }
}

fn escape_char_into(out: &mut Vec<char>, c: char)
    ensures
        final(out)@ == old(out)@ + xml_escape_char(c),
{
    let piece: Vec<char> = if c == '&' {
        vec!['&', 'a', 'm', 'p', ';']
    } else if c == '<' {
        vec!['&', 'l', 't', ';']
    } else if c == '>' {
        vec!['&', 'g', 't', ';']
    } else if c == '"' {
        vec!['&', 'q', 'u', 'o', 't', ';']
    } else if c == '\'' {
        vec!['&', 'a', 'p', 'o', 's', ';']
    } else {
        vec![c]
    };
    extend_chars(out, &piece);
}

/// `value` as XML character data: `&`, `<`, `>`, `"` and `'` replaced by their entities.
pub fn xml_escape(value: &str) -> (r: String)
    ensures
        r@ == xml_escaped(value@),
{
    let v = chars_of(value);
    let mut out: Vec<char> = Vec::new();
    for i in 0..v.len()
        invariant
            v@ == value@,
            out@ == xml_escaped(v@.take(i as int)),
    {
        proof {
            assert(v@.take(i + 1).drop_last() == v@.take(i as int));
            assert(v@.take(i + 1).last() == v@[i as int]);
        }
        escape_char_into(&mut out, v[i]);
    }
    assert(v@.take(v.len() as int) == v@);
    string_of(&out)
}

} // verus!

verus! {

/// Whether a character has a meaning in XML markup inside an element.
pub open spec fn is_markup_char(c: char) -> bool {
    c == '<' || c == '>' || c == '"' || c == '\''
}

/// Escaped text holds no `<`, `>`, `"` or `'`, so it cannot end the element it stands in.
pub proof fn law_escaped_has_no_markup(s: Seq<char>)
    ensures
        forall|i: int| 0 <= i < xml_escaped(s).len() ==> !is_markup_char(#[trigger] xml_escaped(s)[i]),
    decreases s.len(),
{
    if s.len() > 0 {
        law_escaped_has_no_markup(s.drop_last());
        let a = xml_escaped(s.drop_last());
        let b = xml_escape_char(s.last());
        assert forall|i: int| 0 <= i < xml_escaped(s).len() implies !is_markup_char(
            #[trigger] xml_escaped(s)[i],
        ) by {
            if i >= a.len() {
                assert(xml_escaped(s)[i] == b[i - a.len()]);
            } else {
                assert(xml_escaped(s)[i] == a[i]);
            }
        }
    }
}

/// Escaping from the front: the first character's escape, then the rest escaped.
pub proof fn lemma_escaped_front(s: Seq<char>)
    requires
        s.len() > 0,
    ensures
        xml_escaped(s) == xml_escape_char(s[0]) + xml_escaped(s.drop_first()),
    decreases s.len(),
{
    if s.len() == 1 {
        assert(s.drop_last() =~= Seq::<char>::empty());
        assert(s.drop_first() =~= Seq::<char>::empty());
        assert(xml_escaped(Seq::<char>::empty()) == Seq::<char>::empty());
        assert(xml_escape_char(s[0]) + Seq::<char>::empty() == xml_escape_char(s[0]));
    } else {
        lemma_escaped_front(s.drop_last());
        assert(s.drop_last()[0] == s[0]);
        assert(s.drop_last().drop_first() == s.drop_first().drop_last());
        assert(s.drop_first().last() == s.last());
    }
}

proof fn lemma_escape_char_determined(a: char, b: char, x: Seq<char>, y: Seq<char>)
    requires
        xml_escape_char(a) + x == xml_escape_char(b) + y,
    ensures
        a == b,
        x == y,
{
    let ea = xml_escape_char(a);
    let eb = xml_escape_char(b);
    let whole = ea + x;
    assert(whole[0] == ea[0]);
    assert(whole[0] == eb[0]);
    if ea.len() > 1 && eb.len() > 1 {
        assert(whole[1] == ea[1]);
        assert(whole[1] == eb[1]);
        assert(whole[2] == ea[2]);
        assert(whole[2] == eb[2]);
    }
    assert(a == b);
    assert(x =~= whole.skip(ea.len() as int));
    assert(y =~= whole.skip(eb.len() as int));
}

/// Escaping loses nothing: two texts with the same escaped form are the same text.
pub proof fn law_escape_is_injective(a: Seq<char>, b: Seq<char>)
    requires
        xml_escaped(a) == xml_escaped(b),
    ensures
        a == b,
    decreases a.len(),
{
    if a.len() == 0 || b.len() == 0 {
        if a.len() > 0 {
            lemma_escaped_front(a);
        }
        if b.len() > 0 {
            lemma_escaped_front(b);
        }
        assert(a =~= b);
    } else {
        lemma_escaped_front(a);
        lemma_escaped_front(b);
        lemma_escape_char_determined(a[0], b[0], xml_escaped(a.drop_first()), xml_escaped(b.drop_first()));
        law_escape_is_injective(a.drop_first(), b.drop_first());
        assert(a =~= seq![a[0]] + a.drop_first());
        assert(b =~= seq![b[0]] + b.drop_first());
    }
}

} // verus!

verus! {

// ---------------------------------------------------------------------------
// Reading escaped text back
// ---------------------------------------------------------------------------

/// The position of a markup character in the order the entities are read back: `'`, `"`, `>`,
/// `<`, `&`; 5 for any other character.
pub open spec fn markup_index(c: char) -> int {
    if c == '\'' {
        0
    } else if c == '"' {
        1
    } else if c == '>' {
        2
    } else if c == '<' {
        3
    } else if c == '&' {
        4
    } else {
        5
    }
}

/// The markup character at position `k` of that order.
pub open spec fn markup_char(k: int) -> char {
    if k == 0 {
        '\''
    } else if k == 1 {
        '"'
    } else if k == 2 {
        '>'
    } else if k == 3 {
        '<'
    } else {
        '&'
    }
}

/// The entity of the markup character at position `k`.
pub open spec fn entity(k: int) -> Seq<char> {
    xml_escape_char(markup_char(k))
}

/// XML text read back: `&apos;`, `&quot;`, `&gt;`, `&lt;` and then `&amp;` each replaced by the
/// character it stands for.
pub open spec fn xml_unescaped(t: Seq<char>) -> Seq<char> {
    replace_all(
        replace_all(
            replace_all(
                replace_all(replace_all(t, entity(0), seq![markup_char(0)]), entity(1), seq![markup_char(1)]),
                entity(2),
                seq![markup_char(2)],
            ),
            entity(3),
            seq![markup_char(3)],
        ),
        entity(4),
        seq![markup_char(4)],
    )
}

/// `&` at position `i` of `t` begins one of the five entities.
pub open spec fn begins_entity(t: Seq<char>, i: int) -> bool {
    ||| occurs_at(t, entity(0), i)
    ||| occurs_at(t, entity(1), i)
    ||| occurs_at(t, entity(2), i)
    ||| occurs_at(t, entity(3), i)
    ||| occurs_at(t, entity(4), i)
}

/// A character once the entities before position `k` have been read back: the markup
/// characters from `k` on are still entities.
pub open spec fn staged_char(c: char, k: int) -> Seq<char> {
    if markup_index(c) < 5 && markup_index(c) >= k {
        entity(markup_index(c))
    } else {
        seq![c]
    }
}

/// A text escaped, with the entities before position `k` read back already.
pub open spec fn staged(s: Seq<char>, k: int) -> Seq<char>
    decreases s.len(),
{
    if s.len() == 0 {
        Seq::empty()
    } else {
        staged_char(s[0], k) + staged(s.drop_first(), k)
    }
}

proof fn lemma_not_at(t: Seq<char>, p: Seq<char>, i: int, j: int)
    requires
        0 <= j < p.len(),
        0 <= i,
        i + j < t.len(),
        t[i + j] != p[j],
    ensures
        !occurs_at(t, p, i),
{
    if occurs_at(t, p, i) {
        assert(t.subrange(i, i + p.len())[j] == t[i + j]);
    }
}

proof fn lemma_occurs_shift(x: Seq<char>, y: Seq<char>, p: Seq<char>, i: int)
    requires
        occurs_at(y, p, i),
    ensures
        occurs_at(x + y, p, i + x.len()),
{
    assert((x + y).subrange(i + x.len(), i + x.len() + p.len()) =~= y.subrange(i, i + p.len()));
}

proof fn lemma_staged_start(s: Seq<char>)
    ensures
        staged(s, 0) == xml_escaped(s),
    decreases s.len(),
{
    if s.len() > 0 {
        lemma_staged_start(s.drop_first());
        lemma_escaped_front(s);
        assert(staged_char(s[0], 0) == xml_escape_char(s[0]));
    } else {
        assert(xml_escaped(s) == Seq::<char>::empty());
    }
}

proof fn lemma_staged_end(s: Seq<char>)
    ensures
        staged(s, 5) == s,
    decreases s.len(),
{
    if s.len() > 0 {
        lemma_staged_end(s.drop_first());
        assert(s =~= seq![s[0]] + s.drop_first());
    } else {
        assert(s =~= Seq::<char>::empty());
    }
}

/// Reading back the entity at position `k` of the order takes the text one stage on.
proof fn lemma_read_back_stage(s: Seq<char>, k: int)
    requires
        0 <= k < 5,
    ensures
        replace_all(staged(s, k), entity(k), seq![markup_char(k)]) == staged(s, k + 1),
    decreases s.len(),
{
    let e = entity(k);
    let r = seq![markup_char(k)];
    assert(e.len() >= 4 && e[0] == '&');
    if s.len() == 0 {
        assert(replace_all(Seq::<char>::empty(), e, r) == Seq::<char>::empty());
    } else {
        let c = s[0];
        let chunk = staged_char(c, k);
        let rest = staged(s.drop_first(), k);
        lemma_read_back_stage(s.drop_first(), k);
        if markup_index(c) == k {
            assert(chunk == e);
            crate::text::lemma_replace_at_front(rest, e, r);
            assert(markup_char(k) == c);
        } else {
            assert(staged_char(c, k + 1) == chunk);
            let t = chunk + rest;
            assert forall|i: int| 0 <= i < chunk.len() implies !occurs_at(t, e, i) by {
                assert(t[i] == chunk[i]);
                if i > 0 {
                    assert(chunk[i] != '&');
                    lemma_not_at(t, e, i, 0);
                } else if chunk.len() == 1 {
                    assert(c != '&');
                    lemma_not_at(t, e, 0, 0);
                } else {
                    let m = markup_index(c);
                    assert(t[1] == chunk[1]);
                    assert(t[2] == chunk[2]);
                    if chunk[1] != e[1] {
                        lemma_not_at(t, e, 0, 1);
                    } else {
                        assert(chunk[2] != e[2]);
                        lemma_not_at(t, e, 0, 2);
                    }
                }
            }
            crate::text::lemma_replace_no_match_prefix(chunk, rest, e, r);
        }
    }
}

/// Escaping can be undone: reading the entities back, `&amp;` last, gives the text that was
/// escaped.
pub proof fn law_unescape_undoes_escape(s: Seq<char>)
    ensures
        xml_unescaped(xml_escaped(s)) == s,
{
    lemma_staged_start(s);
    lemma_read_back_stage(s, 0);
    lemma_read_back_stage(s, 1);
    lemma_read_back_stage(s, 2);
    lemma_read_back_stage(s, 3);
    lemma_read_back_stage(s, 4);
    lemma_staged_end(s);
}

proof fn lemma_staged_ampersands(s: Seq<char>)
    ensures
        forall|i: int|
            0 <= i < staged(s, 0).len() && staged(s, 0)[i] == '&' ==> begins_entity(
                staged(s, 0),
                i,
            ),
    decreases s.len(),
{
    if s.len() > 0 {
        lemma_staged_ampersands(s.drop_first());
        let chunk = staged_char(s[0], 0);
        let rest = staged(s.drop_first(), 0);
        let t = chunk + rest;
        assert(t == staged(s, 0));
        assert forall|i: int| 0 <= i < t.len() && t[i] == '&' implies begins_entity(t, i) by {
            if i < chunk.len() {
                assert(t[i] == chunk[i]);
                assert(i == 0 && chunk.len() > 1);
                assert(t.subrange(0, chunk.len() as int) =~= chunk);
                assert(occurs_at(t, entity(markup_index(s[0])), 0));
            } else {
                let j = i - chunk.len();
                assert(t[i] == rest[j]);
                assert(begins_entity(rest, j));
                if occurs_at(rest, entity(0), j) {
                    lemma_occurs_shift(chunk, rest, entity(0), j);
                } else if occurs_at(rest, entity(1), j) {
                    lemma_occurs_shift(chunk, rest, entity(1), j);
                } else if occurs_at(rest, entity(2), j) {
                    lemma_occurs_shift(chunk, rest, entity(2), j);
                } else if occurs_at(rest, entity(3), j) {
                    lemma_occurs_shift(chunk, rest, entity(3), j);
                } else {
                    lemma_occurs_shift(chunk, rest, entity(4), j);
                }
            }
        }
    }
}

/// In escaped text every `&` begins one of the five entities.
pub proof fn law_ampersands_begin_entities(s: Seq<char>)
    ensures
        forall|i: int|
            0 <= i < xml_escaped(s).len() && xml_escaped(s)[i] == '&' ==> begins_entity(
                xml_escaped(s),
                i,
            ),
{
    lemma_staged_start(s);
    lemma_staged_ampersands(s);
}

} // verus!

verus! {

/// The first line of the Finder service script: a loop over the folders it is given.
pub open spec fn workflow_loop_head() -> Seq<char> {
    "for item in \"$@\"; do"@
}

/// The line that opens one folder, `$item`, with the launcher's `app` subcommand.
pub open spec fn workflow_launch_line(launcher_path: Seq<char>) -> Seq<char> {
    "  \""@ + launcher_path + "\" app \"$item\" >/dev/null 2>&1"@
}

/// The Finder service script is the loop over its folder arguments, whose body is the one line
/// that opens a folder, and then the end of the loop: each folder it is given is opened, and
/// nothing else runs in the loop. Where the launcher path holds no line break, these are the
/// script's lines, in order, with nothing after the final line break.
pub proof fn law_script_opens_each_folder(launcher_path: Seq<char>)
    ensures
        workflow_script(launcher_path) == workflow_loop_head() + seq!['\n'] + workflow_launch_line(
            launcher_path,
        ) + seq!['\n'] + "done"@ + seq!['\n'],
        !launcher_path.contains('\n') ==> split_on(workflow_script(launcher_path), '\n') == seq![
            workflow_loop_head(),
            workflow_launch_line(launcher_path),
            "done"@,
            Seq::<char>::empty(),
        ],
{
    reveal_strlit("for item in \"$@\"; do\n  \"");
    reveal_strlit("\" app \"$item\" >/dev/null 2>&1\ndone\n");
    reveal_strlit("for item in \"$@\"; do");
    reveal_strlit("  \"");
    reveal_strlit("\" app \"$item\" >/dev/null 2>&1");
    reveal_strlit("done");
    let head = workflow_loop_head();
    let launch = workflow_launch_line(launcher_path);
    let done = "done"@;
    let nl = seq!['\n'];
    assert(workflow_script(launcher_path) =~= head + nl + launch + nl + done + nl);
    if !launcher_path.contains('\n') {
        assert(!head.contains('\n'));
        assert(!done.contains('\n'));
        assert(!launch.contains('\n')) by {
            if launch.contains('\n') {
                let k = choose|k: int| 0 <= k < launch.len() && launch[k] == '\n';
                if k >= 3 && k < 3 + launcher_path.len() {
                    assert(launcher_path[k - 3] == '\n');
                }
            }
        }
        let empty = Seq::<char>::empty();
        assert(head + nl + launch + nl + done + nl == (head + nl + launch + nl + done) + nl + empty);
        lemma_split_concat(head + nl + launch + nl + done, '\n', empty);
        lemma_split_concat(head + nl + launch, '\n', done);
        lemma_split_concat(head, '\n', launch);
        lemma_split_without_sep(head, '\n');
        lemma_split_without_sep(launch, '\n');
        lemma_split_without_sep(done, '\n');
        lemma_split_without_sep(empty, '\n');
        assert(seq![head] + seq![launch] + seq![done] + seq![empty] =~= seq![head, launch, done, empty]);
    }
}

} // verus!
