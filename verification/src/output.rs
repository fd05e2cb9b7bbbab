//! What the report of a generation run shows: the files grouped by
//! directory in sorted order, the label of each file, the count of created
//! and skipped files, and the glyphs of the tree.
use vstd::prelude::*;
use crate::generator::GeneratedFile;
use crate::paths::{display_path, last_slash, parent_of, parent_path, trim_trailing_slashes};
use crate::text::{chars_of, contains, has_substring, replace_char, same_text, string_of};

verus! {

// ---------------------------------------------------------------------------
// Tree glyphs
// ---------------------------------------------------------------------------

/// Reads `std::path::MAIN_SEPARATOR`, the path separator of the platform
/// (a backslash on Windows). It depends on the platform, so nothing is
/// claimed of it.
#[verifier::external_body]
fn main_separator() -> char {
    std::path::MAIN_SEPARATOR
}

/// The glyph in front of a file of the tree: ASCII on Windows, box drawing
/// elsewhere; the last file of a directory gets a closing corner.
pub fn tree_glyph(windows: bool, last: bool) -> (res: &'static str)
    ensures
        res@ == (if windows {
            "+--"@
        } else if last {
            "└──"@
        } else {
            "├──"@
        }),
{
    if windows {
        "+--"
    } else if last {
        "└──"
    } else {
        "├──"
    }
}

/// The glyph in front of a file that is not the last of its directory.
pub fn tree_branch() -> (res: &'static str)
    ensures
        res@ == "+--"@ || res@ == "├──"@,
{
    tree_glyph(main_separator() == '\\', false)
}

/// The glyph in front of the last file of a directory.
pub fn tree_last() -> (res: &'static str)
    ensures
        res@ == "+--"@ || res@ == "└──"@,
{
    tree_glyph(main_separator() == '\\', true)
}

// ---------------------------------------------------------------------------
// Labels and counts
// ---------------------------------------------------------------------------

/// The action label of a file in the report.
#[derive(Debug, Clone, Copy, PartialEq, Eq, Structural)]
pub enum FileLabel {
    /// The file existed and was left alone.
    Skip,
    /// The file would be created (dry run).
    CreateDry,
    /// The file was created.
    Create,
}

/// The label of a file: skipped files first, then dry-run creations.
pub fn file_label(skipped: bool, dry_run: bool) -> (res: FileLabel)
    ensures
        res == (if skipped {
            FileLabel::Skip
        } else if dry_run {
            FileLabel::CreateDry
        } else {
            FileLabel::Create
        }),
{
    if skipped {
        FileLabel::Skip
    } else if dry_run {
        FileLabel::CreateDry
    } else {
        FileLabel::Create
    }
}

/// Whether a file name is that of a spec file, which the report dims.
pub fn is_spec_file(name: &str) -> (res: bool)
    ensures
        res == has_substring(name@, ".spec"@),
{
    let n = chars_of(name);
    let marker = chars_of(".spec");
    contains(n.as_slice(), marker.as_slice())
}

/// How many of the files are skipped.
pub open spec fn skipped_count(files: Seq<GeneratedFile>) -> nat
    decreases files.len(),
{
    if files.len() == 0 {
        0
    } else {
        skipped_count(files.drop_last()) + if files.last().skipped {
            1nat
        } else {
            0nat
        }
    }
}

/// The number of files created (or, in a dry run, to be created) and the
/// number skipped; together they count every file.
pub fn summary_counts(files: &[GeneratedFile]) -> (res: (usize, usize))
    ensures
        res.1 == skipped_count(files@),
        res.0 + res.1 == files@.len(),
{
    let mut created: usize = 0;
    let mut skipped: usize = 0;
    let mut i: usize = 0;
    while i < files.len()
        invariant
            i <= files@.len(),
            created + skipped == i,
            skipped == skipped_count(files@.take(i as int)),
        decreases files@.len() - i,
    {
        assert(files@.take(i + 1).drop_last() =~= files@.take(i as int));
        if files[i].skipped {
            skipped = skipped + 1;
        } else {
            created = created + 1;
        }
        i = i + 1;
    }
    assert(files@.take(i as int) =~= files@);
    (created, skipped)
}

// ---------------------------------------------------------------------------
// File names
// ---------------------------------------------------------------------------

/// The final component of a path, if it names a file or directory: after
/// trailing slashes are dropped, the text after the last `/`, unless that is
/// empty, `.` or `..`.
pub open spec fn file_name_part(path: Seq<char>) -> Option<Seq<char>> {
    let t = trim_trailing_slashes(path);
    let c = match last_slash(t) {
        Some(i) => t.skip(i + 1),
        None => t,
    };
    if c.len() == 0 || c == "."@ || c == ".."@ {
        None
    } else {
        Some(c)
    }
}

/// The final component of a path, as `Path::file_name` gives it for paths
/// made of plain components.
pub fn file_name_of(path: &str) -> (res: Option<String>)
    ensures
        match file_name_part(path@) {
            Some(c) => res matches Some(r) && r@ == c,
            None => res is None,
        },
{
    let mut t = chars_of(path);
    while t.len() > 1 && t[t.len() - 1] == '/'
        invariant
            trim_trailing_slashes(t@) == trim_trailing_slashes(path@),
        decreases t@.len(),
    {
        assert(t@.last() == t@[t@.len() - 1]);
        t.pop();
    }
    let mut i = t.len();
    assert(t@.subrange(0, t@.len() as int) =~= t@);
    while i > 0 && t[i - 1] != '/'
        invariant
            i <= t@.len(),
            last_slash(t@) == last_slash(t@.subrange(0, i as int)),
        decreases i,
    {
        proof {
            let u = t@.subrange(0, i as int);
            assert(u.last() == t@[i - 1]);
            assert(u.drop_last() =~= t@.subrange(0, i - 1));
        }
        i = i - 1;
    }
    proof {
        if i > 0 {
            let u = t@.subrange(0, i as int);
            assert(u.last() == t@[i - 1]);
        } else {
            assert(t@.subrange(0, 0) =~= Seq::<char>::empty());
        }
    }
    let mut comp: Vec<char> = Vec::new();
    let mut k = i;
    while k < t.len()
        invariant
            i <= k <= t@.len(),
            comp@ == t@.subrange(i as int, k as int),
        decreases t@.len() - k,
    {
        comp.push(t[k]);
        k = k + 1;
        assert(comp@ =~= t@.subrange(i as int, k as int));
    }
    proof {
        if i > 0 {
            assert(comp@ =~= t@.skip(i as int));
        } else {
            assert(comp@ =~= t@);
        }
        reveal_strlit(".");
        reveal_strlit("..");
    }
    let name = string_of(comp.as_slice());
    if comp.len() == 0 || same_text(name.as_str(), ".") || same_text(name.as_str(), "..") {
        None
    } else {
        Some(name)
    }
}

// ---------------------------------------------------------------------------
// Grouping by directory
// ---------------------------------------------------------------------------

/// `a` and `b` agree on their first `i` characters.
pub open spec fn agree_upto(a: Seq<char>, b: Seq<char>, i: int) -> bool {
    forall|j: int| 0 <= j < i ==> a[j] == b[j]
}

/// Position `i` is where `a` first falls below `b`: `a` ends there while `b`
/// goes on, or `a` has the smaller character there.
pub open spec fn falls_below_at(a: Seq<char>, b: Seq<char>, i: int) -> bool {
    ||| i == a.len() && i < b.len()
    ||| i < a.len() && i < b.len() && a[i] < b[i]
}

/// `a` sorts strictly before `b`, comparing characters by code point (the
/// order of `String`s, since UTF-8 keeps code-point order).
pub open spec fn text_before(a: Seq<char>, b: Seq<char>) -> bool {
    exists|i: int| 0 <= i <= a.len() && i <= b.len() && #[trigger] agree_upto(a, b, i) && falls_below_at(a, b, i)
}

/// The order of texts is transitive.
pub proof fn lemma_text_before_transitive(a: Seq<char>, b: Seq<char>, c: Seq<char>)
    requires
        text_before(a, b),
        text_before(b, c),
    ensures
        text_before(a, c),
{
    let i = choose|i: int| 0 <= i <= a.len() && i <= b.len() && #[trigger] agree_upto(a, b, i) && falls_below_at(a, b, i);
    let j = choose|j: int| 0 <= j <= b.len() && j <= c.len() && #[trigger] agree_upto(b, c, j) && falls_below_at(b, c, j);
    if i < j {
        assert(agree_upto(a, c, i));
    } else if j < i {
        assert(agree_upto(a, c, j));
        assert(a[j] == b[j]);
    } else {
        assert(agree_upto(a, c, i));
    }
}

/// No text sorts before itself, and two texts are never each before the other.
pub proof fn lemma_text_before_asymmetric(a: Seq<char>, b: Seq<char>)
    ensures
        !(text_before(a, b) && text_before(b, a)),
{
    if text_before(a, b) && text_before(b, a) {
        let i = choose|i: int| 0 <= i <= a.len() && i <= b.len() && #[trigger] agree_upto(a, b, i) && falls_below_at(a, b, i);
        let j = choose|j: int| 0 <= j <= b.len() && j <= a.len() && #[trigger] agree_upto(b, a, j) && falls_below_at(b, a, j);
        if i < j {
            assert(b[i] == a[i]);
        } else if j < i {
            assert(a[j] == b[j]);
        }
    }
}

/// The outcome of comparing two texts.
#[derive(Debug, Clone, Copy, PartialEq, Eq, Structural)]
pub enum TextOrder {
    Before,
    Same,
    After,
}

/// Compares two texts character by character.
pub fn compare_text(a: &[char], b: &[char]) -> (res: TextOrder)
    ensures
        res == TextOrder::Before ==> text_before(a@, b@),
        res == TextOrder::After ==> text_before(b@, a@),
        res == TextOrder::Same ==> a@ == b@,
{
    let mut i: usize = 0;
    while i < a.len() && i < b.len() && a[i] == b[i]
        invariant
            i <= a@.len(),
            i <= b@.len(),
            agree_upto(a@, b@, i as int),
        decreases a@.len() - i,
    {
        i = i + 1;
    }
    assert(agree_upto(b@, a@, i as int));
    if i == a.len() && i == b.len() {
        assert(a@ =~= b@);
        TextOrder::Same
    } else if i == a.len() {
        assert(falls_below_at(a@, b@, i as int));
        TextOrder::Before
    } else if i == b.len() {
        assert(falls_below_at(b@, a@, i as int));
        TextOrder::After
    } else if a[i] < b[i] {
        assert(falls_below_at(a@, b@, i as int));
        TextOrder::Before
    } else {
        assert(falls_below_at(b@, a@, i as int));
        TextOrder::After
    }
}

/// The directory under which the report lists a file: its parent, shown
/// with forward slashes, or `.` when it has none.
pub open spec fn directory_key_of(path: Seq<char>) -> Seq<char> {
    match parent_path(path) {
        Some(p) => replace_char(p, '\\', '/'),
        None => "."@,
    }
}

/// The directory under which the report lists a file.
pub fn directory_key(path: &str) -> (res: String)
    ensures
        res@ == directory_key_of(path@),
{
    match parent_of(path) {
        Some(p) => display_path(p.as_str()),
        None => ".".to_owned(),
    }
}

/// The files of one directory, by their positions in the list of files.
#[derive(Debug, Clone)]
pub struct TreeGroup {
    pub directory: String,
    pub members: Vec<usize>,
}

/// `groups` lists the first `n` files by directory: directories in strictly
/// increasing order, each with at least one file, each file in the group of
/// its directory, files of a group in the order given, and every one
/// of the first `n` files in some group.
pub open spec fn groups_files(groups: Seq<TreeGroup>, files: Seq<GeneratedFile>, n: int) -> bool {
    &&& forall|a: int, b: int|
        0 <= a < b < groups.len() ==> text_before(
            (#[trigger] groups[a]).directory@,
            (#[trigger] groups[b]).directory@,
        )
    &&& forall|g: int| 0 <= g < groups.len() ==> (#[trigger] groups[g]).members@.len() > 0
    &&& forall|g: int, j: int|
        0 <= g < groups.len() && 0 <= j < groups[g].members@.len() ==> {
            &&& (#[trigger] groups[g].members@[j]) < n
            &&& directory_key_of(files[groups[g].members@[j] as int].path@) == groups[g].directory@
        }
    &&& forall|g: int, j1: int, j2: int|
        0 <= g < groups.len() && 0 <= j1 < j2 < groups[g].members@.len() ==> (#[trigger] groups[g].members@[j1])
            < (#[trigger] groups[g].members@[j2])
    &&& forall|m: int| 0 <= m < n ==> #[trigger] is_grouped(groups, m)
}

/// File `m` belongs to some group.
pub open spec fn is_grouped(groups: Seq<TreeGroup>, m: int) -> bool {
    exists|g: int| 0 <= g < groups.len() && (#[trigger] groups[g].members@).contains(m as usize)
}

/// Groups the files of a run by directory, directories in sorted order and
/// files within a directory in the order given.
pub fn tree_groups(files: &[GeneratedFile]) -> (groups: Vec<TreeGroup>)
    ensures
        groups_files(groups@, files@, files@.len() as int),
{
    let mut groups: Vec<TreeGroup> = Vec::new();
    let mut k: usize = 0;
    while k < files.len()
        invariant
            k <= files@.len(),
            groups_files(groups@, files@, k as int),
        decreases files@.len() - k,
    {
        let key = directory_key(files[k].path.as_str());
        let key_chars = chars_of(key.as_str());
        // the first directory that does not sort before the key
        let mut pos: usize = 0;
        let mut same = false;
        while pos < groups.len()
            invariant_except_break
                !same,
            invariant
                pos <= groups@.len(),
                key_chars@ == key@,
                forall|g: int| 0 <= g < pos ==> text_before((#[trigger] groups@[g]).directory@, key@),
            ensures
                pos <= groups@.len(),
                forall|g: int| 0 <= g < pos ==> text_before((#[trigger] groups@[g]).directory@, key@),
                same ==> pos < groups@.len() && groups@[pos as int].directory@ == key@,
                !same ==> pos == groups@.len() || (pos < groups@.len() && text_before(
                    key@,
                    groups@[pos as int].directory@,
                )),
            decreases groups@.len() - pos,
        {
            let dir = chars_of(groups[pos].directory.as_str());
            match compare_text(dir.as_slice(), key_chars.as_slice()) {
                TextOrder::Before => {
                    pos = pos + 1;
                },
                TextOrder::Same => {
                    same = true;
                    break;
                },
                TextOrder::After => {
                    break;
                },
            }
        }
        let ghost old_groups = groups@;
        if same {
            let mut group = groups.remove(pos);
            group.members.push(k);
            groups.insert(pos, group);
            proof {
                let new_groups = groups@;
                assert(new_groups =~= old_groups.update(pos as int, new_groups[pos as int]));
                assert forall|a: int, b: int|
                    0 <= a < b < new_groups.len() implies text_before(
                        (#[trigger] new_groups[a]).directory@,
                        (#[trigger] new_groups[b]).directory@,
                    ) by {
                    assert(new_groups[a].directory == old_groups[a].directory);
                    assert(new_groups[b].directory == old_groups[b].directory);
                    assert(text_before(old_groups[a].directory@, old_groups[b].directory@));
                }
                assert forall|g: int| 0 <= g < new_groups.len() implies (#[trigger] new_groups[g]).members@.len() > 0 by {
                    if g != pos {
                        assert(new_groups[g] == old_groups[g]);
                    }
                }
                assert forall|g: int, j: int|
                    0 <= g < new_groups.len() && 0 <= j < new_groups[g].members@.len() implies {
                        &&& (#[trigger] new_groups[g].members@[j]) < k + 1
                        &&& directory_key_of(files@[new_groups[g].members@[j] as int].path@)
                            == new_groups[g].directory@
                    } by {
                    if g != pos {
                        assert(new_groups[g] == old_groups[g]);
                        assert(old_groups[g].members@[j] < k);
                    } else if j < old_groups[g].members@.len() {
                        assert(new_groups[g].members@[j] == old_groups[g].members@[j]);
                        assert(old_groups[g].members@[j] < k);
                    }
                }
                assert forall|g: int, j1: int, j2: int|
                    0 <= g < new_groups.len() && 0 <= j1 < j2 < new_groups[g].members@.len() implies (#[trigger] new_groups[g].members@[j1])
                        < (#[trigger] new_groups[g].members@[j2]) by {
                    if g != pos {
                        assert(new_groups[g] == old_groups[g]);
                        assert(old_groups[g].members@[j1] < old_groups[g].members@[j2]);
                    } else {
                        assert(new_groups[g].members@[j1] == old_groups[g].members@[j1]);
                        assert(old_groups[g].members@[j1] < k);
                        if j2 < old_groups[g].members@.len() {
                            assert(new_groups[g].members@[j2] == old_groups[g].members@[j2]);
                            assert(old_groups[g].members@[j1] < old_groups[g].members@[j2]);
                        }
                    }
                }
                assert forall|m: int| 0 <= m < k + 1 implies #[trigger] is_grouped(new_groups, m) by {
                    if m < k {
                        assert(is_grouped(old_groups, m));
                        let g = choose|g: int| 0 <= g < old_groups.len() && (#[trigger] old_groups[g].members@).contains(m as usize);
                        let j = choose|j: int| 0 <= j < old_groups[g].members@.len() && old_groups[g].members@[j] == m as usize;
                        if g == pos {
                            assert(new_groups[g].members@[j] == m as usize);
                        } else {
                            assert(new_groups[g] == old_groups[g]);
                        }
                        assert(new_groups[g].members@.contains(m as usize));
                    } else {
                        let last = new_groups[pos as int].members@.len() - 1;
                        assert(new_groups[pos as int].members@[last] == k);
                        assert(new_groups[pos as int].members@.contains(m as usize));
                    }
                }
            }
        } else {
            let mut members: Vec<usize> = Vec::new();
            members.push(k);
            groups.insert(pos, TreeGroup { directory: key, members });
            proof {
                let new_groups = groups@;
                assert forall|g: int| 0 <= g < pos implies new_groups[g] == old_groups[g] by {}
                assert forall|g: int| pos < g < new_groups.len() implies new_groups[g] == old_groups[g - 1] by {}
                assert forall|a: int, b: int|
                    0 <= a < b < new_groups.len() implies text_before(
                        (#[trigger] new_groups[a]).directory@,
                        (#[trigger] new_groups[b]).directory@,
                    ) by {
                    if b < pos {
                        assert(text_before(old_groups[a].directory@, old_groups[b].directory@));
                    } else if b == pos {
                        assert(text_before(old_groups[a].directory@, key@));
                    } else if a < pos {
                        assert(text_before(old_groups[a].directory@, old_groups[b - 1].directory@));
                    } else if a == pos {
                        if b - 1 > pos {
                            assert(text_before(old_groups[pos as int].directory@, old_groups[b - 1].directory@));
                            lemma_text_before_transitive(
                                key@,
                                old_groups[pos as int].directory@,
                                old_groups[b - 1].directory@,
                            );
                        }
                    } else {
                        assert(text_before(old_groups[a - 1].directory@, old_groups[b - 1].directory@));
                    }
                }
                assert forall|g: int| 0 <= g < new_groups.len() implies (#[trigger] new_groups[g]).members@.len() > 0 by {
                    if g < pos {
                    } else if g > pos {
                    }
                }
                assert forall|g: int, j: int|
                    0 <= g < new_groups.len() && 0 <= j < new_groups[g].members@.len() implies {
                        &&& (#[trigger] new_groups[g].members@[j]) < k + 1
                        &&& directory_key_of(files@[new_groups[g].members@[j] as int].path@)
                            == new_groups[g].directory@
                    } by {
                    if g < pos {
                        assert(old_groups[g].members@[j] < k);
                    } else if g > pos {
                        assert(old_groups[g - 1].members@[j] < k);
                    }
                }
                assert forall|g: int, j1: int, j2: int|
                    0 <= g < new_groups.len() && 0 <= j1 < j2 < new_groups[g].members@.len() implies (#[trigger] new_groups[g].members@[j1])
                        < (#[trigger] new_groups[g].members@[j2]) by {
                    if g < pos {
                        assert(old_groups[g].members@[j1] < old_groups[g].members@[j2]);
                    } else if g > pos {
                        assert(old_groups[g - 1].members@[j1] < old_groups[g - 1].members@[j2]);
                    }
                }
                assert forall|m: int| 0 <= m < k + 1 implies #[trigger] is_grouped(new_groups, m) by {
                    if m < k {
                        assert(is_grouped(old_groups, m));
                        let g = choose|g: int| 0 <= g < old_groups.len() && (#[trigger] old_groups[g].members@).contains(m as usize);
                        if g < pos {
                            assert(new_groups[g].members@.contains(m as usize));
                        } else {
                            assert(new_groups[g + 1] == old_groups[g]);
                            assert(new_groups[g + 1].members@.contains(m as usize));
                        }
                    } else {
                        assert(new_groups[pos as int].members@[0] == k);
                        assert(new_groups[pos as int].members@.contains(m as usize));
                    }
                }
            }
        }
        k = k + 1;
    }
    groups
}

} // verus!
