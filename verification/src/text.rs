use vstd::prelude::*;

verus! {

/// `String::push`: appends one character at the end of the string.
#[verifier::external_body]
fn push_char(s: &mut String, c: char)
    ensures
        final(s)@ == old(s)@.push(c),
{
    s.push(c)
}

/// The characters of `s`, in order.
pub fn chars_of(s: &str) -> (v: Vec<char>)
    ensures
        v@ == s@,
{
    let mut v: Vec<char> = Vec::new();
    for c in it: s.chars()
        invariant
            v@ == it.seq().take(it.index() as int),
    {
        v.push(c);
    }
    v
}

/// The string made of the characters of `v`, in order.
pub fn string_of(v: &Vec<char>) -> (s: String)
    ensures
        s@ == v@,
{
    let mut s = String::new();
    for i in 0..v.len()
        invariant
            s@ == v@.take(i as int),
    {
        push_char(&mut s, v[i]);
        assert(v@.take(i + 1) == v@.take(i as int).push(v@[i as int]));
    }
    assert(v@.take(v.len() as int) == v@);
    s
}

} // verus!

verus! {

/// Unicode `White_Space` characters: what `char::is_whitespace` and `str::trim` go by.
pub open spec fn is_white_space(c: char) -> bool {
    let n = c as u32;
    ||| 0x9 <= n <= 0xd
    ||| n == 0x20
    ||| n == 0x85
    ||| n == 0xa0
    ||| n == 0x1680
    ||| 0x2000 <= n <= 0x200a
    ||| n == 0x2028
    ||| n == 0x2029
    ||| n == 0x202f
    ||| n == 0x205f
    ||| n == 0x3000
}

/// The sets of characters that the path helpers strip from the ends of a text.
#[derive(Clone, Copy, Debug, PartialEq, Eq, Structural)]
pub enum CharClass {
    WhiteSpace,
    Quote,
    PathSeparator,
}

pub open spec fn in_class(class: CharClass, c: char) -> bool {
    match class {
        CharClass::WhiteSpace => is_white_space(c),
        CharClass::Quote => c == '"',
        CharClass::PathSeparator => c == '\\' || c == '/',
    }
}

/// `s` without the characters of `class` at its start.
pub open spec fn trim_start(s: Seq<char>, class: CharClass) -> Seq<char>
    decreases s.len(),
{
    if s.len() > 0 && in_class(class, s[0]) {
        trim_start(s.drop_first(), class)
    } else {
        s
    }
}

/// `s` without the characters of `class` at its end.
pub open spec fn trim_end(s: Seq<char>, class: CharClass) -> Seq<char>
    decreases s.len(),
{
    if s.len() > 0 && in_class(class, s.last()) {
        trim_end(s.drop_last(), class)
    } else {
        s
    }
}

/// `s` without the characters of `class` at either end.
pub open spec fn trim(s: Seq<char>, class: CharClass) -> Seq<char> {
    trim_end(trim_start(s, class), class)
}

pub fn is_in_class(class: CharClass, c: char) -> (b: bool)
    ensures
        b == in_class(class, c),
{
    match class {
        CharClass::WhiteSpace => {
            let n = c as u32;
            (0x9 <= n && n <= 0xd) || n == 0x20 || n == 0x85 || n == 0xa0 || n == 0x1680 || (0x2000
                <= n && n <= 0x200a) || n == 0x2028 || n == 0x2029 || n == 0x202f || n == 0x205f
                || n == 0x3000
        },
        CharClass::Quote => c == '"',
        CharClass::PathSeparator => c == '\\' || c == '/',
    }
}

pub proof fn lemma_trim_start_skip(s: Seq<char>, class: CharClass, i: int)
    requires
        0 <= i <= s.len(),
        forall|k: int| 0 <= k < i ==> in_class(class, #[trigger] s[k]),
        i == s.len() || !in_class(class, s[i]),
    ensures
        trim_start(s, class) == s.skip(i),
    decreases i,
{
    if i == 0 {
        assert(s.skip(0) == s);
    } else {
        assert forall|k: int| 0 <= k < i - 1 implies in_class(class, #[trigger] s.drop_first()[k]) by {
            assert(s.drop_first()[k] == s[k + 1]);
        }
        lemma_trim_start_skip(s.drop_first(), class, i - 1);
        assert(s.drop_first().skip(i - 1) == s.skip(i));
    }
}

pub proof fn lemma_trim_end_take(s: Seq<char>, class: CharClass, j: int)
    requires
        0 <= j <= s.len(),
        forall|k: int| j <= k < s.len() ==> in_class(class, #[trigger] s[k]),
        j == 0 || !in_class(class, s[j - 1]),
    ensures
        trim_end(s, class) == s.take(j),
    decreases s.len() - j,
{
    if j == s.len() {
        assert(s.take(j) == s);
    } else {
        assert forall|k: int| j <= k < s.drop_last().len() implies in_class(
            class,
            #[trigger] s.drop_last()[k],
        ) by {
            assert(s.drop_last()[k] == s[k]);
        }
        lemma_trim_end_take(s.drop_last(), class, j);
        assert(s.drop_last().take(j) == s.take(j));
    }
}

/// The characters of `v` from `from` up to `to`.
pub fn slice_chars(v: &Vec<char>, from: usize, to: usize) -> (r: Vec<char>)
    requires
        from <= to <= v.len(),
    ensures
        r@ == v@.subrange(from as int, to as int),
{
    let mut r: Vec<char> = Vec::new();
    let mut i = from;
    while i < to
        invariant
            from <= i <= to <= v.len(),
            r@ == v@.subrange(from as int, i as int),
        decreases to - i,
    {
        r.push(v[i]);
        i = i + 1;
    }
    r
}

/// `v` without the characters of `class` at its start.
pub fn trim_start_chars(v: &Vec<char>, class: CharClass) -> (r: Vec<char>)
    ensures
        r@ == trim_start(v@, class),
{
    let mut i: usize = 0;
    while i < v.len() && is_in_class(class, v[i])
        invariant
            0 <= i <= v.len(),
            forall|k: int| 0 <= k < i ==> in_class(class, #[trigger] v@[k]),
        decreases v.len() - i,
    {
        i = i + 1;
    }
    proof {
        lemma_trim_start_skip(v@, class, i as int);
    }
    slice_chars(v, i, v.len())
}

/// `v` without the characters of `class` at its end.
pub fn trim_end_chars(v: &Vec<char>, class: CharClass) -> (r: Vec<char>)
    ensures
        r@ == trim_end(v@, class),
{
    let mut j: usize = v.len();
    while j > 0 && is_in_class(class, v[j - 1])
        invariant
            0 <= j <= v.len(),
            forall|k: int| j <= k < v.len() ==> in_class(class, #[trigger] v@[k]),
        decreases j,
    {
        j = j - 1;
    }
    proof {
        lemma_trim_end_take(v@, class, j as int);
    }
    slice_chars(v, 0, j)
}

/// `v` without the characters of `class` at either end.
pub fn trim_chars(v: &Vec<char>, class: CharClass) -> (r: Vec<char>)
    ensures
        r@ == trim(v@, class),
{
    let t = trim_start_chars(v, class);
    trim_end_chars(&t, class)
}

/// The code of `c` with ASCII upper-case letters taken to lower case.
pub open spec fn ascii_lower_code(c: char) -> u32 {
    let n = c as u32;
    if 65 <= n <= 90 {
        (n + 32) as u32
    } else {
        n
    }
}

/// `str::eq_ignore_ascii_case`: the two texts are equal once ASCII letters are lower-cased.
pub open spec fn eq_ignore_ascii_case(a: Seq<char>, b: Seq<char>) -> bool {
    a.len() == b.len() && forall|i: int| 0 <= i < a.len() ==> ascii_lower_code(#[trigger] a[i])
        == ascii_lower_code(b[i])
}

/// `a`, lower-cased as ASCII, starts with `b`, lower-cased as ASCII.
pub open spec fn starts_with_ignore_ascii_case(a: Seq<char>, b: Seq<char>) -> bool {
    b.len() <= a.len() && forall|i: int| 0 <= i < b.len() ==> ascii_lower_code(#[trigger] a[i])
        == ascii_lower_code(b[i])
}

pub fn lower_code(c: char) -> (n: u32)
    ensures
        n == ascii_lower_code(c),
{
    let n = c as u32;
    if 65 <= n && n <= 90 {
        n + 32
    } else {
        n
    }
}

pub fn chars_eq_ignore_ascii_case(a: &Vec<char>, b: &Vec<char>) -> (r: bool)
    ensures
        r == eq_ignore_ascii_case(a@, b@),
{
    if a.len() != b.len() {
        return false;
    }
    for i in 0..a.len()
        invariant
            a.len() == b.len(),
            forall|k: int| 0 <= k < i ==> ascii_lower_code(#[trigger] a@[k]) == ascii_lower_code(
                b@[k],
            ),
    {
        if lower_code(a[i]) != lower_code(b[i]) {
            return false;
        }
    }
    true
}

pub fn chars_start_with_ignore_ascii_case(a: &Vec<char>, b: &Vec<char>) -> (r: bool)
    ensures
        r == starts_with_ignore_ascii_case(a@, b@),
{
    if b.len() > a.len() {
        return false;
    }
    for i in 0..b.len()
        invariant
            b.len() <= a.len(),
            forall|k: int| 0 <= k < i ==> ascii_lower_code(#[trigger] a@[k]) == ascii_lower_code(
                b@[k],
            ),
    {
        if lower_code(a[i]) != lower_code(b[i]) {
            return false;
        }
    }
    true
}

/// The two texts are the same characters.
pub fn chars_eq(a: &Vec<char>, b: &Vec<char>) -> (r: bool)
    ensures
        r == (a@ == b@),
{
    if a.len() != b.len() {
        return false;
    }
    for i in 0..a.len()
        invariant
            a.len() == b.len(),
            forall|k: int| 0 <= k < i ==> a@[k] == b@[k],
    {
        if a[i] != b[i] {
            return false;
        }
    }
    assert(a@ =~= b@);
    true
}

/// The two strings hold the same characters.
pub fn str_eq(a: &str, b: &str) -> (r: bool)
    ensures
        r == (a@ == b@),
{
    let x = chars_of(a);
    let y = chars_of(b);
    chars_eq(&x, &y)
}

/// `v` with the characters of `w` appended.
pub fn extend_chars(v: &mut Vec<char>, w: &Vec<char>)
    ensures
        final(v)@ == old(v)@ + w@,
{
    for i in 0..w.len()
        invariant
            v@ == old(v)@ + w@.take(i as int),
    {
        v.push(w[i]);
        assert(w@.take(i + 1) == w@.take(i as int).push(w@[i as int]));
    }
    assert(w@.take(w.len() as int) == w@);
}

} // verus!

verus! {

/// `str::split` on one separator character: the pieces between the separators, in order.
pub open spec fn split_on(s: Seq<char>, sep: char) -> Seq<Seq<char>>
    decreases s.len(),
{
    if s.len() == 0 {
        seq![Seq::empty()]
    } else {
        let pieces = split_on(s.drop_last(), sep);
        if s.last() == sep {
            pieces.push(Seq::empty())
        } else {
            pieces.update(pieces.len() - 1, pieces.last().push(s.last()))
        }
    }
}

/// The pieces joined with one separator character between neighbours.
pub open spec fn join_with(parts: Seq<Seq<char>>, sep: char) -> Seq<char>
    decreases parts.len(),
{
    if parts.len() == 0 {
        Seq::empty()
    } else if parts.len() == 1 {
        parts[0]
    } else {
        join_with(parts.drop_last(), sep) + seq![sep] + parts.last()
    }
}

pub proof fn lemma_split_nonempty(s: Seq<char>, sep: char)
    ensures
        split_on(s, sep).len() >= 1,
    decreases s.len(),
{
    if s.len() > 0 {
        lemma_split_nonempty(s.drop_last(), sep);
    }
}

/// Splitting a text that holds no separator gives the text itself.
pub proof fn lemma_split_without_sep(s: Seq<char>, sep: char)
    requires
        !s.contains(sep),
    ensures
        split_on(s, sep) == seq![s],
    decreases s.len(),
{
    if s.len() == 0 {
        assert(s == Seq::<char>::empty());
    } else {
        assert(!s.drop_last().contains(sep)) by {
            if s.drop_last().contains(sep) {
                let k = choose|k: int| 0 <= k < s.drop_last().len() && s.drop_last()[k] == sep;
                assert(s[k] == sep);
            }
        }
        lemma_split_without_sep(s.drop_last(), sep);
        assert(s.last() != sep) by {
            assert(s[s.len() - 1] == s.last());
        }
        assert(s.drop_last().push(s.last()) == s);
        assert(seq![s.drop_last()].update(0, s.drop_last().push(s.last())) =~= seq![s]);
    }
}

/// Splitting `a`, a separator and `b` gives the pieces of `a` followed by the pieces of `b`.
pub proof fn lemma_split_concat(a: Seq<char>, sep: char, b: Seq<char>)
    ensures
        split_on(a + seq![sep] + b, sep) == split_on(a, sep) + split_on(b, sep),
    decreases b.len(),
{
    let ab = a + seq![sep] + b;
    if b.len() == 0 {
        assert(ab == (a + seq![sep]));
        assert((a + seq![sep]).drop_last() == a);
        assert(split_on(b, sep) == seq![Seq::<char>::empty()]);
    } else {
        lemma_split_concat(a, sep, b.drop_last());
        assert(ab.drop_last() == a + seq![sep] + b.drop_last());
        assert(ab.last() == b.last());
        lemma_split_nonempty(b.drop_last(), sep);
        lemma_split_nonempty(a, sep);
        let pa = split_on(a, sep);
        let pb = split_on(b.drop_last(), sep);
        if b.last() == sep {
            assert((pa + pb).push(Seq::empty()) == pa + pb.push(Seq::empty()));
        } else {
            assert((pa + pb).update(pa.len() + pb.len() - 1, (pa + pb).last().push(b.last())) == pa
                + pb.update(pb.len() - 1, pb.last().push(b.last())));
        }
    }
}

/// The character sequences that a vector of character vectors holds.
pub open spec fn views(v: Seq<Vec<char>>) -> Seq<Seq<char>> {
    v.map_values(|w: Vec<char>| w@)
}

/// The pieces of `s` between the occurrences of `sep`.
pub fn split_chars(s: &Vec<char>, sep: char) -> (pieces: Vec<Vec<char>>)
    ensures
        views(pieces@) == split_on(s@, sep),
{
    let mut pieces: Vec<Vec<char>> = Vec::new();
    let mut current: Vec<char> = Vec::new();
    for i in 0..s.len()
        invariant
            views(pieces@).push(current@) == split_on(s@.take(i as int), sep),
    {
        proof {
            assert(s@.take(i + 1).drop_last() == s@.take(i as int));
            assert(s@.take(i + 1).last() == s@[i as int]);
        }
        let ghost before = views(pieces@);
        if s[i] == sep {
            let done = current;
            pieces.push(done);
            current = Vec::new();
            assert(views(pieces@) == before.push(done@));
        } else {
            let ghost prev = current@;
            current.push(s[i]);
            assert(before.push(prev).update(before.len() as int, current@) =~= before.push(current@));
        }
    }
    let ghost before = views(pieces@);
    pieces.push(current);
    assert(s@.take(s.len() as int) == s@);
    assert(views(pieces@) =~= before.push(current@));
    pieces
}

/// The parts joined with `sep` between neighbours.
pub fn join_chars(parts: &Vec<Vec<char>>, sep: char) -> (r: Vec<char>)
    ensures
        r@ == join_with(views(parts@), sep),
{
    let mut r: Vec<char> = Vec::new();
    for i in 0..parts.len()
        invariant
            r@ == join_with(views(parts@).take(i as int), sep),
    {
        let ghost p = views(parts@).take(i + 1);
        assert(p.drop_last() == views(parts@).take(i as int));
        assert(p.last() == parts[i as int]@);
        if i > 0 {
            r.push(sep);
        } else {
            assert(views(parts@).take(0) == Seq::<Seq<char>>::empty());
        }
        extend_chars(&mut r, &parts[i]);
    }
    assert(views(parts@).take(parts.len() as int) == views(parts@));
    r
}

} // verus!

verus! {

/// The character sequences that a vector of strings holds.
pub open spec fn string_views(v: Seq<String>) -> Seq<Seq<char>> {
    v.map_values(|s: String| s@)
}

/// The strings made of the character vectors of `v`, in order.
pub fn strings_of(v: &Vec<Vec<char>>) -> (r: Vec<String>)
    ensures
        string_views(r@) == views(v@),
{
    let mut r: Vec<String> = Vec::new();
    for i in 0..v.len()
        invariant
            string_views(r@) == views(v@).take(i as int),
    {
        let s = string_of(&v[i]);
        let ghost prev = r@;
        assert(views(v@).len() == v@.len());
        assert(string_views(prev).len() == i);
        r.push(s);
        assert(string_views(r@).len() == i + 1);
        assert forall|k: int| 0 <= k < i + 1 implies #[trigger] string_views(r@)[k] == views(
            v@,
        ).take(i + 1)[k] by {
            if k < i {
                assert(string_views(prev)[k] == views(v@).take(i as int)[k]);
            }
        }
        assert(string_views(r@) =~= views(v@).take(i + 1));
    }
    assert(views(v@).take(v.len() as int) =~= views(v@));
    r
}

/// A string made of `a` followed by `b`.
pub fn concat2(a: &str, b: &str) -> (r: String)
    ensures
        r@ == a@ + b@,
{
    let mut r = String::from_str(a);
    r.append(b);
    r
}

/// A string made of `a`, `b` and `c` in that order.
pub fn concat3(a: &str, b: &str, c: &str) -> (r: String)
    ensures
        r@ == a@ + b@ + c@,
{
    let mut r = String::from_str(a);
    r.append(b);
    r.append(c);
    r
}

/// Whether `s` starts with `prefix`.
pub open spec fn has_prefix(s: Seq<char>, prefix: Seq<char>) -> bool {
    prefix.len() <= s.len() && s.take(prefix.len() as int) == prefix
}

pub fn chars_start_with(s: &Vec<char>, prefix: &Vec<char>) -> (r: bool)
    ensures
        r == has_prefix(s@, prefix@),
{
    if prefix.len() > s.len() {
        return false;
    }
    for i in 0..prefix.len()
        invariant
            prefix.len() <= s.len(),
            forall|k: int| 0 <= k < i ==> s@[k] == prefix@[k],
    {
        if s[i] != prefix[i] {
            assert(s@.take(prefix.len() as int)[i as int] != prefix@[i as int]);
            return false;
        }
    }
    assert(s@.take(prefix.len() as int) =~= prefix@);
    true
}

} // verus!

verus! {

proof fn lemma_trim_start_empty(s: Seq<char>, class: CharClass)
    requires
        trim_start(s, class).len() == 0,
    ensures
        forall|i: int| 0 <= i < s.len() ==> in_class(class, #[trigger] s[i]),
    decreases s.len(),
{
    if s.len() > 0 {
        lemma_trim_start_empty(s.drop_first(), class);
        assert forall|i: int| 0 <= i < s.len() implies in_class(class, #[trigger] s[i]) by {
            if i > 0 {
                assert(s[i] == s.drop_first()[i - 1]);
            }
        }
    }
}

proof fn lemma_trim_end_empty(s: Seq<char>, class: CharClass)
    requires
        trim_end(s, class).len() == 0,
    ensures
        forall|i: int| 0 <= i < s.len() ==> in_class(class, #[trigger] s[i]),
    decreases s.len(),
{
    if s.len() > 0 {
        lemma_trim_end_empty(s.drop_last(), class);
        assert forall|i: int| 0 <= i < s.len() implies in_class(class, #[trigger] s[i]) by {
            if i < s.len() - 1 {
                assert(s[i] == s.drop_last()[i]);
            }
        }
    }
}

proof fn lemma_trim_start_all_in_class(s: Seq<char>, class: CharClass)
    requires
        forall|i: int| 0 <= i < trim_start(s, class).len() ==> in_class(class, #[trigger] trim_start(s, class)[i]),
    ensures
        forall|i: int| 0 <= i < s.len() ==> in_class(class, #[trigger] s[i]),
    decreases s.len(),
{
    if s.len() > 0 && in_class(class, s[0]) {
        assert(trim_start(s, class) == trim_start(s.drop_first(), class));
        lemma_trim_start_all_in_class(s.drop_first(), class);
        assert forall|i: int| 0 <= i < s.len() implies in_class(class, #[trigger] s[i]) by {
            if i > 0 {
                assert(s[i] == s.drop_first()[i - 1]);
            }
        }
    } else {
        assert(trim_start(s, class) == s);
    }
}

/// A text that trims to nothing is made of characters of the trimmed class only.
pub proof fn lemma_trim_empty(s: Seq<char>, class: CharClass)
    requires
        trim(s, class).len() == 0,
    ensures
        forall|i: int| 0 <= i < s.len() ==> in_class(class, #[trigger] s[i]),
{
    lemma_trim_end_empty(trim_start(s, class), class);
    lemma_trim_start_all_in_class(s, class);
}

} // verus!

verus! {

/// `pat` occurs in `s` at position `i`.
pub open spec fn occurs_at(s: Seq<char>, pat: Seq<char>, i: int) -> bool {
    0 <= i && i + pat.len() <= s.len() && s.subrange(i, i + pat.len()) == pat
}

/// `str::contains` with a string pattern: `pat` occurs somewhere in `s`.
pub open spec fn contains_text(s: Seq<char>, pat: Seq<char>) -> bool {
    exists|i: int| occurs_at(s, pat, i)
}

/// `str::replace`: the occurrences of `pat`, found from the left without overlapping, each
/// replaced by `rep`.
pub open spec fn replace_all(s: Seq<char>, pat: Seq<char>, rep: Seq<char>) -> Seq<char>
    decreases s.len(),
{
    if pat.len() == 0 || s.len() < pat.len() {
        s
    } else if s.take(pat.len() as int) == pat {
        rep + replace_all(s.skip(pat.len() as int), pat, rep)
    } else {
        seq![s[0]] + replace_all(s.drop_first(), pat, rep)
    }
}

/// Whether `pat` occurs in `s` at position `i`.
pub fn chars_occur_at(s: &Vec<char>, pat: &Vec<char>, i: usize) -> (r: bool)
    ensures
        r == occurs_at(s@, pat@, i as int),
{
    if i > s.len() || pat.len() > s.len() - i {
        return false;
    }
    for k in 0..pat.len()
        invariant
            i + pat.len() <= s.len(),
            forall|j: int| 0 <= j < k ==> s@[i + j] == pat@[j],
    {
        if s[i + k] != pat[k] {
            assert(s@.subrange(i as int, i + pat.len())[k as int] != pat@[k as int]);
            return false;
        }
    }
    assert(s@.subrange(i as int, i + pat.len()) =~= pat@);
    true
}

/// Whether `pat` occurs in `s`.
pub fn chars_contain(s: &Vec<char>, pat: &Vec<char>) -> (r: bool)
    ensures
        r == contains_text(s@, pat@),
{
    if pat.len() > s.len() {
        assert(!contains_text(s@, pat@));
        return false;
    }
    if pat.len() == 0 {
        assert(s@.subrange(0, 0) =~= pat@);
        assert(occurs_at(s@, pat@, 0));
        return true;
    }
    let last = s.len() - pat.len();
    for i in 0..last + 1
        invariant
            last == s.len() - pat.len(),
            forall|j: int| 0 <= j < i ==> !occurs_at(s@, pat@, j),
    {
        if chars_occur_at(s, pat, i) {
            return true;
        }
    }
    assert forall|j: int| !occurs_at(s@, pat@, j) by {
        if 0 <= j && j + pat@.len() <= s@.len() {
            assert(j <= last);
        }
    }
    false
}

/// Whether `pat` occurs in the string `s`.
pub fn str_contains(s: &str, pat: &str) -> (r: bool)
    ensures
        r == contains_text(s@, pat@),
{
    let a = chars_of(s);
    let b = chars_of(pat);
    chars_contain(&a, &b)
}

/// The occurrences of `pat` in `s` replaced by `rep`, from the left, without overlapping.
pub fn replace_chars(s: &Vec<char>, pat: &Vec<char>, rep: &Vec<char>) -> (r: Vec<char>)
    requires
        pat@.len() > 0,
    ensures
        r@ == replace_all(s@, pat@, rep@),
{
    let mut out: Vec<char> = Vec::new();
    let mut i: usize = 0;
    assert(s@.skip(0) == s@);
    while i < s.len()
        invariant
            0 <= i <= s.len(),
            pat@.len() > 0,
            replace_all(s@, pat@, rep@) == out@ + replace_all(s@.skip(i as int), pat@, rep@),
        decreases s.len() - i,
    {
        let ghost rest = s@.skip(i as int);
        if chars_occur_at(s, pat, i) {
            proof {
                assert(rest.take(pat@.len() as int) =~= s@.subrange(i as int, i + pat@.len()));
                assert(rest.skip(pat@.len() as int) =~= s@.skip(i + pat@.len()));
            }
            let ghost prev = out@;
            extend_chars(&mut out, rep);
            i = i + pat.len();
            assert(out@ + replace_all(s@.skip(i as int), pat@, rep@) == prev + (rep@
                + replace_all(s@.skip(i as int), pat@, rep@)));
        } else {
            proof {
                if rest.len() >= pat@.len() {
                    assert(rest.take(pat@.len() as int) =~= s@.subrange(i as int, i + pat@.len()));
                }
                assert(rest.drop_first() =~= s@.skip(i + 1));
                assert(rest[0] == s@[i as int]);
            }
            let ghost prev = out@;
            out.push(s[i]);
            i = i + 1;
            assert(out@ == prev + seq![s@[i - 1]]);
        }
    }
    assert(s@.skip(s.len() as int) =~= Seq::<char>::empty());
    out
}

} // verus!

verus! {

/// Replacing in `x + y`, where no occurrence of `pat` starts inside `x`, keeps `x` as it is.
pub proof fn lemma_replace_no_match_prefix(x: Seq<char>, y: Seq<char>, pat: Seq<char>, rep: Seq<char>)
    requires
        pat.len() > 0,
        forall|i: int| 0 <= i < x.len() ==> !occurs_at(x + y, pat, i),
    ensures
        replace_all(x + y, pat, rep) == x + replace_all(y, pat, rep),
    decreases x.len(),
{
    if x.len() == 0 {
        assert(x + y == y);
        assert(x + replace_all(y, pat, rep) == replace_all(y, pat, rep));
    } else {
        let s = x + y;
        if s.len() < pat.len() {
            assert(y.len() < pat.len());
            assert(replace_all(y, pat, rep) == y);
        } else {
            assert(s.take(pat.len() as int) != pat) by {
                if s.take(pat.len() as int) == pat {
                    assert(s.subrange(0, pat.len() as int) =~= s.take(pat.len() as int));
                    assert(occurs_at(s, pat, 0));
                }
            }
            let x1 = x.drop_first();
            assert(s.drop_first() == x1 + y);
            assert forall|i: int| 0 <= i < x1.len() implies !occurs_at(x1 + y, pat, i) by {
                assert(!occurs_at(s, pat, i + 1));
                if occurs_at(x1 + y, pat, i) {
                    assert(s.subrange(i + 1, i + 1 + pat.len()) =~= (x1 + y).subrange(i, i + pat.len()));
                }
            }
            lemma_replace_no_match_prefix(x1, y, pat, rep);
            assert(seq![x[0]] + (x1 + replace_all(y, pat, rep)) =~= x + replace_all(y, pat, rep));
        }
    }
}

/// A text that does not hold `pat` stays as it is.
pub proof fn lemma_replace_absent(s: Seq<char>, pat: Seq<char>, rep: Seq<char>)
    requires
        pat.len() > 0,
        !contains_text(s, pat),
    ensures
        replace_all(s, pat, rep) == s,
{
    assert(s + Seq::<char>::empty() == s);
    lemma_replace_no_match_prefix(s, Seq::empty(), pat, rep);
    assert(replace_all(Seq::<char>::empty(), pat, rep) == Seq::<char>::empty());
}

/// A text that starts with `pat` has that occurrence replaced first.
pub proof fn lemma_replace_at_front(z: Seq<char>, pat: Seq<char>, rep: Seq<char>)
    requires
        pat.len() > 0,
    ensures
        replace_all(pat + z, pat, rep) == rep + replace_all(z, pat, rep),
{
    let s = pat + z;
    assert(s.take(pat.len() as int) =~= pat);
    assert(s.skip(pat.len() as int) =~= z);
}

/// Removing `pat` never makes a text longer, and makes it shorter when `pat` occurs in it.
pub proof fn lemma_remove_shortens(s: Seq<char>, pat: Seq<char>)
    requires
        pat.len() > 0,
    ensures
        replace_all(s, pat, Seq::empty()).len() <= s.len(),
        contains_text(s, pat) ==> replace_all(s, pat, Seq::empty()).len() < s.len(),
    decreases s.len(),
{
    let e = Seq::<char>::empty();
    if s.len() < pat.len() {
        assert(!contains_text(s, pat));
    } else if s.take(pat.len() as int) == pat {
        lemma_remove_shortens(s.skip(pat.len() as int), pat);
        assert(e + replace_all(s.skip(pat.len() as int), pat, e) == replace_all(
            s.skip(pat.len() as int),
            pat,
            e,
        ));
    } else {
        let t = s.drop_first();
        lemma_remove_shortens(t, pat);
        if contains_text(s, pat) {
            let i = choose|i: int| occurs_at(s, pat, i);
            assert(i != 0) by {
                if i == 0 {
                    assert(s.subrange(0, pat.len() as int) =~= s.take(pat.len() as int));
                }
            }
            assert(occurs_at(t, pat, i - 1)) by {
                assert(t.subrange(i - 1, i - 1 + pat.len()) =~= s.subrange(i, i + pat.len()));
            }
        }
    }
}

} // verus!

verus! {

/// `str`'s order: `a` comes before `b` character by character, a proper prefix first.
pub open spec fn text_less(a: Seq<char>, b: Seq<char>) -> bool
    decreases a.len(),
{
    if a.len() == 0 {
        b.len() > 0
    } else if b.len() == 0 {
        false
    } else if a[0] != b[0] {
        (a[0] as u32) < (b[0] as u32)
    } else {
        text_less(a.drop_first(), b.drop_first())
    }
}

pub proof fn lemma_text_less_irreflexive(a: Seq<char>)
    ensures
        !text_less(a, a),
    decreases a.len(),
{
    if a.len() > 0 {
        lemma_text_less_irreflexive(a.drop_first());
    }
}

pub proof fn lemma_text_less_total(a: Seq<char>, b: Seq<char>)
    ensures
        text_less(a, b) || text_less(b, a) || a == b,
    decreases a.len(),
{
    if a.len() > 0 && b.len() > 0 && a[0] == b[0] {
        lemma_text_less_total(a.drop_first(), b.drop_first());
        if a.drop_first() == b.drop_first() {
            assert(a =~= seq![a[0]] + a.drop_first());
            assert(b =~= seq![b[0]] + b.drop_first());
        }
    } else if a.len() > 0 && b.len() > 0 {
        assert((a[0] as u32) != (b[0] as u32)) by {
            vstd::utf8::char_u32_cast(a[0], a[0] as u32);
            vstd::utf8::char_u32_cast(b[0], b[0] as u32);
        }
    } else if a.len() == 0 && b.len() == 0 {
        assert(a =~= b);
    }
}

pub proof fn lemma_text_less_transitive(a: Seq<char>, b: Seq<char>, c: Seq<char>)
    requires
        text_less(a, b),
        text_less(b, c),
    ensures
        text_less(a, c),
    decreases a.len(),
{
    if a.len() > 0 && b.len() > 0 && c.len() > 0 && a[0] == b[0] && b[0] == c[0] {
        lemma_text_less_transitive(a.drop_first(), b.drop_first(), c.drop_first());
    }
}

/// Whether `a` comes before `b` in `str`'s order.
pub fn chars_less(a: &Vec<char>, b: &Vec<char>) -> (r: bool)
    ensures
        r == text_less(a@, b@),
{
    let mut i: usize = 0;
    assert(a@.skip(0) == a@);
    assert(b@.skip(0) == b@);
    while i < a.len() && i < b.len() && a[i] == b[i]
        invariant
            i <= a.len(),
            i <= b.len(),
            text_less(a@, b@) == text_less(a@.skip(i as int), b@.skip(i as int)),
        decreases a.len() - i,
    {
        proof {
            assert(a@.skip(i as int).drop_first() =~= a@.skip(i + 1));
            assert(b@.skip(i as int).drop_first() =~= b@.skip(i + 1));
            assert(a@.skip(i as int)[0] == a@[i as int]);
            assert(b@.skip(i as int)[0] == b@[i as int]);
        }
        i = i + 1;
    }
    proof {
        if i < a.len() {
            assert(a@.skip(i as int)[0] == a@[i as int]);
        }
        if i < b.len() {
            assert(b@.skip(i as int)[0] == b@[i as int]);
        }
    }
    if i == a.len() {
        i < b.len()
    } else if i == b.len() {
        false
    } else {
        (a[i] as u32) < (b[i] as u32)
    }
}

} // verus!
