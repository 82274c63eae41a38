use vstd::prelude::*;

use crate::text::{chars_of, contains_chars, ends_with, has_substring, starts_with, starts_with_chars};

verus! {

/// What a directory walk reported an entry to be.
#[derive(Clone, Copy, PartialEq, Eq, Debug, Structural)]
pub enum EntryKind {
    File,
    Dir,
    /// Anything else, such as a symbolic link, which is never followed.
    Other,
}

/// One entry below the root of a walk, as the walk reported it.
pub struct WalkEntry {
    /// The entry's full path.
    pub path: String,
    /// The entry's base name.
    pub name: String,
    pub kind: EntryKind,
}

/// Why a scan could not run.
#[derive(Clone, Copy, PartialEq, Eq, Debug, Structural)]
pub enum ScanError {
    /// The extensions did not make a pattern that the regex engine accepts.
    InvalidPattern,
}

/// A name is hidden when it starts with a dot and is neither `.` nor `..`.
pub open spec fn hidden_name(name: Seq<char>) -> bool {
    &&& name.len() > 0
    &&& name[0] == '.'
    &&& name != seq!['.']
    &&& name != seq!['.', '.']
}

/// Some skip fragment occurs in `path`.
pub open spec fn path_has_fragment(path: Seq<char>, fragments: Seq<&str>) -> bool {
    exists|i: int| 0 <= i < fragments.len() && has_substring(path, #[trigger] fragments[i]@)
}

/// A directory is pruned when its name is hidden or its path holds a skip fragment.
pub open spec fn prunes(kind: EntryKind, name: Seq<char>, path: Seq<char>, fragments: Seq<&str>) -> bool {
    kind == EntryKind::Dir && (hidden_name(name) || path_has_fragment(path, fragments))
}

/// `path` lies somewhere below the directory `dir`.
pub open spec fn is_below(path: Seq<char>, dir: Seq<char>) -> bool {
    starts_with(path, dir.push('/'))
}

/// What `regex::escape` makes of a text: the same text with every character that means
/// something in a pattern escaped.
pub uninterp spec fn regex_escaped(text: Seq<char>) -> Seq<char>;

/// Whether `regex::Regex::new` accepts `pattern`.
pub uninterp spec fn regex_compiles(pattern: Seq<char>) -> bool;

/// The escaped alternatives joined by `|`.
pub open spec fn alternation(alts: Seq<&str>) -> Seq<char>
    decreases alts.len(),
{
    if alts.len() == 0 {
        Seq::empty()
    } else if alts.len() == 1 {
        regex_escaped(alts[0]@)
    } else {
        alternation(alts.drop_last()).push('|') + regex_escaped(alts.last()@)
    }
}

/// The pattern `\.(e1|e2|...)$`, each extension escaped: a dot and one of the extensions,
/// taken literally, at the end of the text.
pub open spec fn extension_pattern_of(exts: Seq<&str>) -> Seq<char> {
    seq!['\\', '.', '('] + alternation(exts) + seq![')', '$']
}

/// `text` ends in a dot followed by one of `exts`.
pub open spec fn ends_in_extension(text: Seq<char>, exts: Seq<&str>) -> bool {
    exists|i: int| 0 <= i < exts.len() && ends_with(text, seq!['.'] + #[trigger] exts[i]@)
}

/// For each entry, whether it is a file whose path ends in a dot and one of `exts`.
pub open spec fn files_ending_in(entries: Seq<WalkEntry>, exts: Seq<&str>) -> Seq<bool> {
    Seq::new(
        entries.len(),
        |j: int| entries[j].kind == EntryKind::File && ends_in_extension(entries[j].path@, exts),
    )
}

/// Entry `j` of a walk is a file that a scan records: it is a file, its name is not hidden,
/// `matched[j]` says that its path ends in a wanted extension, and no pruned directory holds it.
pub open spec fn recorded(
    entries: Seq<WalkEntry>,
    matched: Seq<bool>,
    fragments: Seq<&str>,
    j: int,
) -> bool {
    &&& entries[j].kind == EntryKind::File
    &&& !hidden_name(entries[j].name@)
    &&& matched[j]
    &&& forall|i: int|
        0 <= i < entries.len() && #[trigger] prunes(
            entries[i].kind,
            entries[i].name@,
            entries[i].path@,
            fragments,
        ) ==> !is_below(entries[j].path@, entries[i].path@)
}

/// `r` lists, in increasing order and once each, the indices of the entries that are recorded.
pub open spec fn lists_recorded(
    r: Seq<usize>,
    entries: Seq<WalkEntry>,
    matched: Seq<bool>,
    fragments: Seq<&str>,
) -> bool {
    &&& forall|k: int| 0 <= k < r.len() ==> #[trigger] r[k] < entries.len()
    &&& forall|k1: int, k2: int| 0 <= k1 < k2 < r.len() ==> r[k1] < r[k2]
    &&& forall|j: int|
        0 <= j < entries.len() ==> (r.contains(j as usize) <==> recorded(
            entries,
            matched,
            fragments,
            j,
        ))
}

/// Whether a file or directory name is hidden.
pub fn is_hidden(name: &str) -> (r: bool)
    ensures
        r == hidden_name(name@),
{
    let cs = chars_of(name);
    if cs.len() == 0 || cs[0] != '.' {
        return false;
    }
    if cs.len() == 1 {
        assert(cs@ =~= seq!['.']);
        return false;
    }
    if cs.len() == 2 && cs[1] == '.' {
        assert(cs@ =~= seq!['.', '.']);
        return false;
    }
    assert(cs@ != seq!['.']) by {
        assert(cs@.len() != 1);
    }
    assert(cs@ != seq!['.', '.']) by {
        if cs@.len() == 2 {
            assert(cs@[1] != seq!['.', '.'][1]);
        }
    }
    true
}

/// Whether an entry is a directory whose path holds one of the skip fragments.
pub fn is_skipped_dir(path: &str, is_dir: bool, skipped_dirs: &[&str]) -> (r: bool)
    ensures
        r == (is_dir && path_has_fragment(path@, skipped_dirs@)),
{
    if !is_dir {
        return false;
    }
    let hay = chars_of(path);
    let mut i: usize = 0;
    while i < skipped_dirs.len()
        invariant
            i <= skipped_dirs@.len(),
            is_dir,
            hay@ == path@,
            forall|k: int| 0 <= k < i ==> !has_substring(path@, #[trigger] skipped_dirs@[k]@),
        decreases skipped_dirs@.len() - i,
    {
        let needle = chars_of(skipped_dirs[i]);
        assert(skipped_dirs@[i as int]@ == needle@);
        if contains_chars(&hay, &needle) {
            assert(has_substring(path@, skipped_dirs@[i as int]@));
            assert(path_has_fragment(path@, skipped_dirs@));
            return true;
        }
        i = i + 1;
    }
    false
}

/// Whether a walk goes into a directory: not when its name is hidden or its path holds a
/// skip fragment.
pub fn descend_into(name: &str, path: &str, skipped_dirs: &[&str]) -> (r: bool)
    ensures
        r == !prunes(EntryKind::Dir, name@, path@, skipped_dirs@),
{
    !is_hidden(name) && !is_skipped_dir(path, true, skipped_dirs)
}

/// The pattern that finds a dot and one of `extensions` at the end of a path.
pub fn extension_pattern(extensions: &[&str]) -> (r: String)
    ensures
        r@ == extension_pattern_of(extensions@),
{
    let ghost exts = extensions@;
    let mut out = String::new();
    proof {
        reveal_strlit("\\.(");
        reveal_strlit("|");
        reveal_strlit(")$");
    }
    out.append("\\.(");
    let mut i: usize = 0;
    while i < extensions.len()
        invariant
            i <= extensions@.len(),
            exts == extensions@,
            out@ == seq!['\\', '.', '('] + alternation(exts.take(i as int)),
        decreases extensions@.len() - i,
    {
        let ghost before = out@;
        proof {
            reveal_strlit("|");
        }
        if i > 0 {
            out.append("|");
        }
        let ghost mid = out@;
        let escaped = regex_escape(extensions[i]);
        out.append(escaped.as_str());
        proof {
            let t = exts.take(i + 1);
            assert(t.drop_last() =~= exts.take(i as int));
            assert(t.last() == extensions@[i as int]);
            assert(out@ == mid + regex_escaped(extensions@[i as int]@));
            if i == 0 {
                assert(alternation(exts.take(0)) =~= Seq::<char>::empty());
                assert(alternation(t) == regex_escaped(t[0]@));
                assert(mid == before);
                assert(before =~= seq!['\\', '.', '(']);
            } else {
                assert(mid == before.push('|'));
                assert(alternation(t) == alternation(exts.take(i as int)).push('|') + regex_escaped(t.last()@));
            }
            assert(out@ =~= seq!['\\', '.', '('] + alternation(t));
        }
        i = i + 1;
    }
    out.append(")$");
    assert(exts.take(extensions@.len() as int) =~= exts);
    assert(out@ =~= extension_pattern_of(exts));
    out
}

/// Relies on `regex::escape`, which escapes every meta character of `text` so that the result,
/// put in a pattern, stands for `text` literally.
#[verifier::external_body]
fn regex_escape(text: &str) -> (r: String)
    ensures
        r@ == regex_escaped(text@),
{
    regex::escape(text)
}

#[verifier::external_type_specification]
#[verifier::external_body]
pub struct ExRegexError(regex::Error);

/// Relies on `regex::Regex::new`, which compiles `pattern` or fails with the crate's error,
/// and on `Regex::is_match`, which says whether the compiled pattern is found in a text; the
/// pattern is compiled once and tried on each of `texts`. In the crate's syntax `\.` is a
/// literal dot, an escaped text stands for itself (case-sensitively), `(a|b)` is either
/// alternative and `$` is the end of the text; an unanchored search then finds `\.(e1|...|en)$`
/// exactly when the text ends in a dot and one of the alternatives.
#[verifier::external_body]
fn regex_find_each(pattern: &str, texts: &Vec<&str>) -> (r: Result<Vec<bool>, regex::Error>)
    ensures
        (r is Ok) == regex_compiles(pattern@),
        r matches Ok(found) ==> found@.len() == texts@.len(),
        r matches Ok(found) ==> forall|exts: Seq<&str>, i: int|
            #![trigger extension_pattern_of(exts), found@[i]]
            exts.len() > 0 && pattern@ == extension_pattern_of(exts) && 0 <= i < texts@.len()
                ==> found@[i] == ends_in_extension(texts@[i]@, exts),
{
    let re = regex::Regex::new(pattern)?;
    let mut found = Vec::with_capacity(texts.len());
    for t in texts {
        found.push(re.is_match(t));
    }
    Ok(found)
}

/// Whether a scan with these extensions can run: with no extensions it always can, otherwise
/// when the regex engine accepts their pattern.
pub open spec fn scan_runs(exts: Seq<&str>) -> bool {
    exts.len() == 0 || regex_compiles(extension_pattern_of(exts))
}

/// Whether `path` ends in a dot and one of `extensions`, taken literally and case-sensitively.
/// With no extensions nothing is wanted.
pub fn has_wanted_extension(extensions: &[&str], path: &str) -> (r: Result<bool, ScanError>)
    ensures
        (r is Ok) == scan_runs(extensions@),
        r matches Ok(found) ==> found == ends_in_extension(path@, extensions@),
        r is Err ==> r == Err::<bool, ScanError>(ScanError::InvalidPattern),
{
    if extensions.len() == 0 {
        return Ok(false);
    }
    let pattern = extension_pattern(extensions);
    let mut texts: Vec<&str> = Vec::new();
    texts.push(path);
    match regex_find_each(pattern.as_str(), &texts) {
        Ok(found) => {
            assert(texts@[0] == path);
            let f = found[0];
            assert(found@[0] == ends_in_extension(texts@[0]@, extensions@));
            Ok(f)
        },
        Err(_) => Err(ScanError::InvalidPattern),
    }
}

/// Whether `path` lies below the directory `dir`.
pub fn lies_below(path: &str, dir: &str) -> (r: bool)
    ensures
        r == is_below(path@, dir@),
{
    let p = chars_of(path);
    let mut d = chars_of(dir);
    d.push('/');
    starts_with_chars(&p, &d)
}

/// Whether some pruned directory among the listed ones holds `path`.
fn below_any(entries: &Vec<WalkEntry>, pruned: &Vec<usize>, path: &str) -> (r: bool)
    requires
        forall|k: int| 0 <= k < pruned@.len() ==> #[trigger] pruned@[k] < entries@.len(),
    ensures
        r == exists|k: int|
            0 <= k < pruned@.len() && is_below(path@, entries@[#[trigger] pruned@[k] as int].path@),
{
    let mut k: usize = 0;
    while k < pruned.len()
        invariant
            k <= pruned@.len(),
            forall|m: int| 0 <= m < pruned@.len() ==> #[trigger] pruned@[m] < entries@.len(),
            forall|m: int|
                0 <= m < k ==> !is_below(path@, entries@[#[trigger] pruned@[m] as int].path@),
        decreases pruned@.len() - k,
    {
        if lies_below(path, entries[pruned[k]].path.as_str()) {
            return true;
        }
        k = k + 1;
    }
    false
}

/// The indices, in increasing order, of the entries of a walk that a scan records, given for
/// each entry whether its path has a wanted extension.
pub fn select_entries(entries: &Vec<WalkEntry>, matched: &Vec<bool>, skipped_dirs: &[&str]) -> (r:
    Vec<usize>)
    requires
        matched@.len() == entries@.len(),
    ensures
        lists_recorded(r@, entries@, matched@, skipped_dirs@),
{
    let ghost frags = skipped_dirs@;
    let mut pruned: Vec<usize> = Vec::new();
    let mut i: usize = 0;
    while i < entries.len()
        invariant
            i <= entries@.len(),
            frags == skipped_dirs@,
            forall|k: int| 0 <= k < pruned@.len() ==> #[trigger] pruned@[k] < entries@.len(),
            forall|k: int|
                0 <= k < pruned@.len() ==> prunes(
                    entries@[#[trigger] pruned@[k] as int].kind,
                    entries@[pruned@[k] as int].name@,
                    entries@[pruned@[k] as int].path@,
                    frags,
                ),
            forall|m: int|
                0 <= m < i && #[trigger] prunes(
                    entries@[m].kind,
                    entries@[m].name@,
                    entries@[m].path@,
                    frags,
                ) ==> pruned@.contains(m as usize),
        decreases entries@.len() - i,
    {
        let e = &entries[i];
        let is_dir = e.kind == EntryKind::Dir;
        assert(is_dir == (entries@[i as int].kind == EntryKind::Dir));
        let mut pruned_here = false;
        if is_dir {
            let d = descend_into(e.name.as_str(), e.path.as_str(), skipped_dirs);
            assert(d == !prunes(EntryKind::Dir, entries@[i as int].name@, entries@[i as int].path@, frags));
            pruned_here = !d;
        }
        assert(pruned_here == prunes(
            entries@[i as int].kind,
            entries@[i as int].name@,
            entries@[i as int].path@,
            frags,
        ));
        let ghost old_pruned = pruned@;
        if pruned_here {
            pruned.push(i);
        }
        proof {
            assert forall|m: int|
                0 <= m < i + 1 && #[trigger] prunes(
                    entries@[m].kind,
                    entries@[m].name@,
                    entries@[m].path@,
                    frags,
                ) implies pruned@.contains(m as usize) by {
                if m == i {
                    assert(pruned@[pruned@.len() - 1] == i);
                } else {
                    let k = choose|k: int| 0 <= k < old_pruned.len() && old_pruned[k] == m as usize;
                    assert(pruned@[k] == m as usize);
                }
            }
        }
        i = i + 1;
    }
    let mut out: Vec<usize> = Vec::new();
    let mut j: usize = 0;
    while j < entries.len()
        invariant
            j <= entries@.len(),
            frags == skipped_dirs@,
            matched@.len() == entries@.len(),
            forall|k: int| 0 <= k < pruned@.len() ==> #[trigger] pruned@[k] < entries@.len(),
            forall|k: int|
                0 <= k < pruned@.len() ==> prunes(
                    entries@[#[trigger] pruned@[k] as int].kind,
                    entries@[pruned@[k] as int].name@,
                    entries@[pruned@[k] as int].path@,
                    frags,
                ),
            forall|m: int|
                0 <= m < entries@.len() && #[trigger] prunes(
                    entries@[m].kind,
                    entries@[m].name@,
                    entries@[m].path@,
                    frags,
                ) ==> pruned@.contains(m as usize),
            forall|k: int| 0 <= k < out@.len() ==> #[trigger] out@[k] < j,
            forall|k1: int, k2: int| 0 <= k1 < k2 < out@.len() ==> out@[k1] < out@[k2],
            forall|m: int|
                0 <= m < j ==> (out@.contains(m as usize) <==> recorded(
                    entries@,
                    matched@,
                    frags,
                    m,
                )),
        decreases entries@.len() - j,
    {
        let e = &entries[j];
        let keep = e.kind == EntryKind::File && !is_hidden(e.name.as_str()) && matched[j]
            && !below_any(entries, &pruned, e.path.as_str());
        proof {
            if keep {
                assert forall|i2: int|
                    0 <= i2 < entries@.len() && #[trigger] prunes(
                        entries@[i2].kind,
                        entries@[i2].name@,
                        entries@[i2].path@,
                        frags,
                    ) implies !is_below(entries@[j as int].path@, entries@[i2].path@) by {
                    let k = choose|k: int| 0 <= k < pruned@.len() && pruned@[k] == i2 as usize;
                    assert(!is_below(entries@[j as int].path@, entries@[pruned@[k] as int].path@));
                }
                assert(recorded(entries@, matched@, frags, j as int));
            } else if entries@[j as int].kind == EntryKind::File && !hidden_name(
                entries@[j as int].name@,
            ) && matched@[j as int] {
                let k = choose|k: int|
                    0 <= k < pruned@.len() && is_below(
                        entries@[j as int].path@,
                        entries@[#[trigger] pruned@[k] as int].path@,
                    );
                assert(prunes(
                    entries@[pruned@[k] as int].kind,
                    entries@[pruned@[k] as int].name@,
                    entries@[pruned@[k] as int].path@,
                    frags,
                ));
                assert(!recorded(entries@, matched@, frags, j as int));
            }
        }
        let ghost old_out = out@;
        if keep {
            out.push(j);
        }
        proof {
            assert forall|m: int|
                0 <= m < j + 1 implies (out@.contains(m as usize) <==> recorded(
                entries@,
                matched@,
                frags,
                m,
            )) by {
                if m < j {
                    if out@.contains(m as usize) {
                        let k = choose|k: int| 0 <= k < out@.len() && out@[k] == m as usize;
                        if keep && k == out@.len() - 1 {
                        } else {
                            assert(old_out[k] == m as usize);
                        }
                    }
                    if old_out.contains(m as usize) {
                        let k = choose|k: int| 0 <= k < old_out.len() && old_out[k] == m as usize;
                        assert(out@[k] == m as usize);
                    }
                } else {
                    if keep {
                        assert(out@[out@.len() - 1] == j);
                    } else {
                        assert(out@ == old_out);
                    }
                }
            }
        }
        j = j + 1;
    }
    out
}

/// The indices, in increasing order, of the entries of a walk that a scan records: files whose
/// name is not hidden, whose path ends in a dot and one of `extensions` (taken literally), and
/// that no pruned directory holds. A directory is pruned when its name is hidden or its path
/// holds one of `skipped_dirs`.
pub fn scan_entries(entries: &Vec<WalkEntry>, extensions: &[&str], skipped_dirs: &[&str]) -> (r:
    Result<Vec<usize>, ScanError>)
    ensures
        (r is Ok) == scan_runs(extensions@),
        r matches Ok(v) ==> lists_recorded(
            v@,
            entries@,
            files_ending_in(entries@, extensions@),
            skipped_dirs@,
        ),
        r is Err ==> r == Err::<Vec<usize>, ScanError>(ScanError::InvalidPattern),
{
    let ghost exts = extensions@;
    let mut matched: Vec<bool> = Vec::new();
    if extensions.len() == 0 {
        let mut j: usize = 0;
        while j < entries.len()
            invariant
                j <= entries@.len(),
                exts == extensions@,
                exts.len() == 0,
                matched@ =~= files_ending_in(entries@, exts).take(j as int),
            decreases entries@.len() - j,
        {
            matched.push(false);
            j = j + 1;
        }
        assert(matched@ =~= files_ending_in(entries@, exts));
        return Ok(select_entries(entries, &matched, skipped_dirs));
    }
    let pattern = extension_pattern(extensions);
    let mut paths: Vec<&str> = Vec::new();
    let mut j: usize = 0;
    while j < entries.len()
        invariant
            j <= entries@.len(),
            paths@.len() == j,
            forall|k: int| 0 <= k < j ==> (#[trigger] paths@[k])@ == entries@[k].path@,
        decreases entries@.len() - j,
    {
        paths.push(entries[j].path.as_str());
        j = j + 1;
    }
    let found = match regex_find_each(pattern.as_str(), &paths) {
        Ok(found) => found,
        Err(_) => {
            return Err(ScanError::InvalidPattern);
        },
    };
    let mut j: usize = 0;
    while j < entries.len()
        invariant
            j <= entries@.len(),
            exts == extensions@,
            exts.len() > 0,
            pattern@ == extension_pattern_of(exts),
            found@.len() == entries@.len(),
            paths@.len() == entries@.len(),
            forall|k: int| 0 <= k < entries@.len() ==> (#[trigger] paths@[k])@ == entries@[k].path@,
            forall|xs: Seq<&str>, k: int|
                #![trigger extension_pattern_of(xs), found@[k]]
                xs.len() > 0 && pattern@ == extension_pattern_of(xs) && 0 <= k < paths@.len()
                    ==> found@[k] == ends_in_extension(paths@[k]@, xs),
            matched@ =~= files_ending_in(entries@, exts).take(j as int),
        decreases entries@.len() - j,
    {
        let m = entries[j].kind == EntryKind::File && found[j];
        proof {
            assert(paths@[j as int]@ == entries@[j as int].path@);
            assert(found@[j as int] == ends_in_extension(paths@[j as int]@, exts));
        }
        matched.push(m);
        j = j + 1;
    }
    assert(matched@ =~= files_ending_in(entries@, exts));
    Ok(select_entries(entries, &matched, skipped_dirs))
}

/// A hidden directory hides everything below it: however deep a file lies under a directory
/// whose name is hidden, a scan never records it.
pub proof fn hidden_dir_hides_contents(
    r: Seq<usize>,
    entries: Seq<WalkEntry>,
    matched: Seq<bool>,
    fragments: Seq<&str>,
    dir: int,
    j: int,
)
    requires
        lists_recorded(r, entries, matched, fragments),
        0 <= dir < entries.len(),
        0 <= j < entries.len(),
        entries[dir].kind == EntryKind::Dir,
        hidden_name(entries[dir].name@),
        is_below(entries[j].path@, entries[dir].path@),
    ensures
        !r.contains(j as usize),
{
    assert(prunes(entries[dir].kind, entries[dir].name@, entries[dir].path@, fragments));
    assert(!recorded(entries, matched, fragments, j));
    assert(r.contains(j as usize) ==> recorded(entries, matched, fragments, j));
}

/// A directory whose path holds a skip fragment hides everything below it: however deep a file
/// lies under it, a scan never records it.
pub proof fn skipped_dir_hides_contents(
    r: Seq<usize>,
    entries: Seq<WalkEntry>,
    matched: Seq<bool>,
    fragments: Seq<&str>,
    dir: int,
    j: int,
)
    requires
        lists_recorded(r, entries, matched, fragments),
        0 <= dir < entries.len(),
        0 <= j < entries.len(),
        entries[dir].kind == EntryKind::Dir,
        path_has_fragment(entries[dir].path@, fragments),
        is_below(entries[j].path@, entries[dir].path@),
    ensures
        !r.contains(j as usize),
{
    assert(prunes(entries[dir].kind, entries[dir].name@, entries[dir].path@, fragments));
    assert(!recorded(entries, matched, fragments, j));
    assert(r.contains(j as usize) ==> recorded(entries, matched, fragments, j));
}

} // verus!
