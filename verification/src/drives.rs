//! The drives and folders the player offers to browse.

use vstd::prelude::*;
use crate::text::{
    opt_view, to_chars, first_token, first_token_of, lemma_before_char, pieces, prefix_before_char, substring,
};

verus! {

broadcast use vstd::string::group_string_axioms;

/// A drive (or mounted file system) that can be browsed.
pub struct Drive {
    pub letter: String,
    pub name: Option<String>,
}

/// The mathematical view of a `Drive`.
pub struct DriveView {
    pub letter: Seq<char>,
    pub name: Option<Seq<char>>,
}

impl View for Drive {
    type V = DriveView;

    open spec fn view(&self) -> DriveView {
        DriveView {
            letter: self.letter@,
            name: match self.name {
                Some(n) => Some(n@),
                None => None,
            },
        }
    }
}

/// The views of a sequence of drives.
pub open spec fn drive_views(v: Seq<Drive>) -> Seq<DriveView> {
    v.map_values(|d: Drive| d@)
}

/// A sub-folder of a browsed folder.
pub struct Folder {
    pub path: String,
    pub name: String,
}

/// The drives that the lines of `df` list: each line names a file system in
/// its first whitespace-separated field, which serves as both letter and name;
/// blank lines are left out.
pub open spec fn df_line_drives(lines: Seq<Seq<char>>) -> Seq<DriveView>
    decreases lines.len(),
{
    if lines.len() == 0 {
        seq![]
    } else {
        let rest = df_line_drives(lines.drop_last());
        match first_token(lines.last()) {
            Some(t) => rest.push(DriveView { letter: t, name: Some(t) }),
            None => rest,
        }
    }
}

/// The drives listed in the output of `df -H`: every line but the first
/// (the header) that holds a field.
pub open spec fn df_drives(output: Seq<char>) -> Seq<DriveView> {
    df_line_drives(pieces(output, '\n').skip(1))
}

/// The views of a vector of strings.
pub open spec fn string_views(v: Seq<String>) -> Seq<Seq<char>> {
    v.map_values(|x: String| x@)
}

/// The pieces of `s` between the occurrences of `c`, as `str::split(c)` yields them.
pub fn split_pieces(s: &str, c: char) -> (r: Vec<String>)
    ensures
        string_views(r@) == pieces(s@, c),
{
    let mut out: Vec<String> = Vec::new();
    let mut rest = String::from_str(s);
    let mut n = rest.as_str().unicode_len();
    assert(string_views(out@) =~= seq![]);
    assert(seq![] + pieces(s@, c) =~= pieces(s@, c));
    loop
        invariant_except_break
            n == rest@.len(),
            string_views(out@) + pieces(rest@, c) == pieces(s@, c),
        ensures
            string_views(out@) == pieces(s@, c),
        decreases n,
    {
        let p = prefix_before_char(rest.as_str(), c);
        let m = p.as_str().unicode_len();
        proof {
            lemma_before_char(rest@, c);
        }
        let ghost before = out@;
        if m >= n {
            out.push(rest);
            assert(string_views(out@) =~= string_views(before).push(out@.last()@));
            assert(pieces(s@, c) =~= string_views(out@));
            break;
        }
        let next = substring(rest.as_str(), m + 1, n);
        out.push(p);
        proof {
            assert(string_views(out@) =~= string_views(before).push(out@.last()@));
            assert(pieces(rest@, c) =~= seq![out@.last()@] + pieces(next@, c));
            assert(string_views(out@) + pieces(next@, c) =~= string_views(before) + pieces(
                rest@,
                c,
            ));
        }
        rest = next;
        n = n - m - 1;
    }
    out
}

/// Reads the drives out of the output of `df -H`.
pub fn drives_from_df_output(output: &str) -> (r: Vec<Drive>)
    ensures
        drive_views(r@) == df_drives(output@),
{
    let lines = split_pieces(output, '\n');
    let ghost ls = string_views(lines@).skip(1);
    let mut out: Vec<Drive> = Vec::new();
    let mut i: usize = 1;
    assert(ls.take(0) =~= seq![]);
    assert(drive_views(out@) =~= seq![]);
    if lines.len() == 0 {
        assert(ls =~= seq![]);
        return out;
    }
    while i < lines.len()
        invariant
            1 <= i <= lines@.len(),
            ls == string_views(lines@).skip(1),
            drive_views(out@) == df_line_drives(ls.take(i - 1)),
        decreases lines@.len() - i,
    {
        proof {
            assert(ls.take(i as int).drop_last() =~= ls.take(i - 1));
            assert(ls.take(i as int).last() == lines@[i as int]@);
        }
        let ghost before = out@;
        match first_token_of(lines[i].as_str()) {
            Some(t) => {
                let letter = t.clone();
                out.push(Drive { letter, name: Some(t) });
                assert(drive_views(out@) =~= drive_views(before).push(out@.last()@));
            },
            None => {},
        }
        i = i + 1;
    }
    assert(ls.take(i - 1) =~= ls);
    out
}

/// The drive for a volume that Windows reports: its letter followed by `:\`,
/// and its label when the label is not empty.
pub fn drive_from_volume(drive_letter: &str, label: Option<String>) -> (r: Drive)
    ensures
        r@.letter == drive_letter@ + ":\\"@,
        r@.name == match label {
            Some(l) => if l@.len() > 0 {
                Some(l@)
            } else {
                None
            },
            None => None,
        },
{
    let mut letter = String::from_str(drive_letter);
    letter.append(":\\");
    let name = match label {
        Some(l) => if l.as_str().unicode_len() > 0 {
            Some(l)
        } else {
            None
        },
        None => None,
    };
    Drive { letter, name }
}

/// The letters a Windows drive can have.
pub const DRIVE_LETTERS: &'static str = "ABCDEFGHIJKLMNOPQRSTUVWXYZ";

/// The root folders `A:\` to `Z:\` that are tried, in order, when Windows does
/// not list its volumes.
pub fn drive_letter_roots() -> (r: Vec<String>)
    ensures
        r@.len() == 26,
        forall|i: int| 0 <= i < 26 ==> #[trigger] r@[i]@ == seq![DRIVE_LETTERS@[i]] + ":\\"@,
{
    proof {
        reveal_strlit("ABCDEFGHIJKLMNOPQRSTUVWXYZ");
    }
    let mut out: Vec<String> = Vec::new();
    let mut i: usize = 0;
    while i < 26
        invariant
            DRIVE_LETTERS@.len() == 26,
            i <= 26,
            out@.len() == i,
            forall|j: int| 0 <= j < i ==> #[trigger] out@[j]@ == seq![DRIVE_LETTERS@[j]] + ":\\"@,
        decreases 26 - i,
    {
        let mut root = String::from_str(DRIVE_LETTERS.substring_char(i, i + 1));
        root.append(":\\");
        assert(DRIVE_LETTERS@.subrange(i as int, i + 1) =~= seq![DRIVE_LETTERS@[i as int]]);
        out.push(root);
        i = i + 1;
    }
    out
}

/// An entry of the volume listing: the drive letter and the file system label,
/// each where it is given as text.
pub open spec fn volume_entry_view(e: (Option<String>, Option<String>)) -> (
    Option<Seq<char>>,
    Option<Seq<char>>,
) {
    (opt_view(e.0), opt_view(e.1))
}

/// The view of a parsed volume listing.
pub open spec fn volume_listing_view(v: Option<Vec<(Option<String>, Option<String>)>>) -> Option<
    Seq<(Option<Seq<char>>, Option<Seq<char>>)>,
> {
    match v {
        Some(entries) => Some(entries@.map_values(|e: (Option<String>, Option<String>)| volume_entry_view(e))),
        None => None,
    }
}

/// What `serde_json` reads out of the JSON that PowerShell prints for the
/// volumes: `None` when the text is not JSON or not an array; otherwise, for
/// each element of the array in order, its `DriveLetter` and its
/// `FileSystemLabel` where each is a JSON string.
pub uninterp spec fn volume_listing(output: Seq<char>) -> Option<
    Seq<(Option<Seq<char>>, Option<Seq<char>>)>,
>;

/// Parses the volume listing that PowerShell prints as JSON.
///
/// Calls `serde_json::from_str` into a `serde_json::Value`, then
/// `Value::as_array`, `Value::get` and `Value::as_str` on each element. The
/// contract claims that the result is a function of the text alone, named
/// `volume_listing`.
#[verifier::external_body]
fn parse_volume_listing(output: &str) -> (r: Option<Vec<(Option<String>, Option<String>)>>)
    ensures
        volume_listing_view(r) == volume_listing(output@),
{
    let json = serde_json::from_str::<serde_json::Value>(output).ok()?;
    let text = |item: &serde_json::Value, key: &str| item.get(key).and_then(|v| v.as_str()).map(String::from);
    Some(json.as_array()?.iter().map(|item| (text(item, "DriveLetter"), text(item, "FileSystemLabel"))).collect())
}

/// The drive of a listed volume: its letter followed by `:\`, and its label
/// when the label is not empty.
pub open spec fn volume_drive(letter: Seq<char>, label: Option<Seq<char>>) -> DriveView {
    DriveView {
        letter: letter + ":\\"@,
        name: match label {
            Some(l) => if l.len() > 0 {
                Some(l)
            } else {
                None
            },
            None => None,
        },
    }
}

/// The drives of the listed volumes that have a letter, in order.
pub open spec fn volume_drives(entries: Seq<(Option<Seq<char>>, Option<Seq<char>>)>) -> Seq<
    DriveView,
>
    decreases entries.len(),
{
    if entries.len() == 0 {
        seq![]
    } else {
        let rest = volume_drives(entries.drop_last());
        match entries.last().0 {
            Some(letter) => rest.push(volume_drive(letter, entries.last().1)),
            None => rest,
        }
    }
}

/// The drives of a parsed volume listing: one for each entry with a drive
/// letter, none when the listing could not be read.
pub fn drives_from_volumes(v: Option<Vec<(Option<String>, Option<String>)>>) -> (r: Vec<Drive>)
    ensures
        drive_views(r@) == match volume_listing_view(v) {
            Some(entries) => volume_drives(entries),
            None => seq![],
        },
{
    let mut out: Vec<Drive> = Vec::new();
    assert(drive_views(out@) =~= seq![]);
    match v {
        None => out,
        Some(entries) => {
            let ghost es = entries@.map_values(
                |e: (Option<String>, Option<String>)| volume_entry_view(e),
            );
            let mut i: usize = 0;
            assert(es.take(0) =~= seq![]);
            while i < entries.len()
                invariant
                    i <= entries@.len(),
                    es == entries@.map_values(
                        |e: (Option<String>, Option<String>)| volume_entry_view(e),
                    ),
                    drive_views(out@) == volume_drives(es.take(i as int)),
                decreases entries@.len() - i,
            {
                proof {
                    assert(es.take(i + 1).drop_last() =~= es.take(i as int));
                    assert(es.take(i + 1).last() == volume_entry_view(entries@[i as int]));
                }
                let ghost before = out@;
                match &entries[i].0 {
                    Some(letter) => {
                        let label = match &entries[i].1 {
                            Some(l) => Some(l.clone()),
                            None => None,
                        };
                        let d = drive_from_volume(letter.as_str(), label);
                        out.push(d);
                        assert(drive_views(out@) =~= drive_views(before).push(out@.last()@));
                    },
                    None => {},
                }
                i = i + 1;
            }
            assert(es.take(i as int) =~= es);
            out
        },
    }
}

/// What the library makes of the volume listing: the drives it lists, or,
/// when it lists none, the roots `A:\` to `Z:\` to probe one by one.
pub enum VolumeOutcome {
    /// The drives read out of the listing.
    Listed(Vec<Drive>),
    /// No drive was listed: these roots are to be tried, in order.
    ProbeRoots(Vec<String>),
}

/// Reads the drives out of the JSON volume listing that PowerShell prints;
/// when it yields no drive (the text is not a JSON array, or no entry has a
/// letter), asks for the drive roots to be probed instead.
pub fn drives_from_volume_listing(output: &str) -> (r: VolumeOutcome)
    ensures
        ({
            let listed = match volume_listing(output@) {
                Some(entries) => volume_drives(entries),
                None => seq![],
            };
            match r {
                VolumeOutcome::Listed(d) => listed.len() > 0 && drive_views(d@) == listed,
                VolumeOutcome::ProbeRoots(roots) => listed.len() == 0 && roots@.len() == 26
                    && forall|i: int|
                    0 <= i < 26 ==> #[trigger] roots@[i]@ == seq![DRIVE_LETTERS@[i]] + ":\\"@,
            }
        }),
{
    let listing = parse_volume_listing(output);
    let drives = drives_from_volumes(listing);
    if drives.len() > 0 {
        VolumeOutcome::Listed(drives)
    } else {
        VolumeOutcome::ProbeRoots(drive_letter_roots())
    }
}

/// The drives among the probed roots: each root that exists, in order, with
/// no name.
pub open spec fn existing_roots(roots: Seq<Seq<char>>, exists: Seq<bool>) -> Seq<DriveView>
    decreases roots.len(),
{
    if roots.len() == 0 || exists.len() != roots.len() {
        seq![]
    } else {
        let rest = existing_roots(roots.drop_last(), exists.drop_last());
        if exists.last() {
            rest.push(DriveView { letter: roots.last(), name: None })
        } else {
            rest
        }
    }
}

/// The drives found by probing the roots: `exists[i]` tells whether
/// `roots[i]` exists.
pub fn drives_from_roots(roots: Vec<String>, exists: Vec<bool>) -> (r: Vec<Drive>)
    requires
        roots@.len() == exists@.len(),
    ensures
        drive_views(r@) == existing_roots(string_views(roots@), exists@),
{
    let ghost rs = string_views(roots@);
    let mut out: Vec<Drive> = Vec::new();
    let mut i: usize = 0;
    assert(drive_views(out@) =~= seq![]);
    while i < roots.len()
        invariant
            i <= roots@.len(),
            roots@.len() == exists@.len(),
            rs == string_views(roots@),
            drive_views(out@) == existing_roots(rs.take(i as int), exists@.take(i as int)),
        decreases roots@.len() - i,
    {
        proof {
            assert(rs.take(i + 1).drop_last() =~= rs.take(i as int));
            assert(exists@.take(i + 1).drop_last() =~= exists@.take(i as int));
            assert(rs.take(i + 1).last() == roots@[i as int]@);
        }
        let ghost before = out@;
        if exists[i] {
            out.push(Drive { letter: roots[i].clone(), name: None });
            assert(drive_views(out@) =~= drive_views(before).push(out@.last()@));
        }
        i = i + 1;
    }
    assert(rs.take(i as int) =~= rs);
    assert(exists@.take(i as int) =~= exists@);
    out
}

/// The entry for a sub-folder: its name is `Unknown` when the file system
/// name is not valid text.
pub fn folder_entry(path: String, name: Option<String>) -> (r: Folder)
    ensures
        r.path == path,
        r.name@ == match name {
            Some(n) => n@,
            None => "Unknown"@,
        },
{
    let name = match name {
        Some(n) => n,
        None => String::from_str("Unknown"),
    };
    Folder { path, name }
}

/// Lexicographic order of texts by code point, which is the order `String`
/// compares in (UTF-8 keeps the order of code points).
pub open spec fn text_le(a: Seq<char>, b: Seq<char>) -> bool
    decreases a.len(),
{
    if a.len() == 0 {
        true
    } else if b.len() == 0 {
        false
    } else if (a[0] as u32) < (b[0] as u32) {
        true
    } else if (a[0] as u32) > (b[0] as u32) {
        false
    } else {
        text_le(a.drop_first(), b.drop_first())
    }
}

pub proof fn lemma_text_le_total(a: Seq<char>, b: Seq<char>)
    ensures
        text_le(a, b) || text_le(b, a),
    decreases a.len(),
{
    if a.len() > 0 && b.len() > 0 && a[0] as u32 == b[0] as u32 {
        lemma_text_le_total(a.drop_first(), b.drop_first());
    }
}

pub proof fn lemma_text_le_transitive(a: Seq<char>, b: Seq<char>, c: Seq<char>)
    requires
        text_le(a, b),
        text_le(b, c),
    ensures
        text_le(a, c),
    decreases a.len(),
{
    if a.len() > 0 && b.len() > 0 && c.len() > 0 && a[0] as u32 == b[0] as u32 && b[0] as u32
        == c[0] as u32 {
        lemma_text_le_transitive(a.drop_first(), b.drop_first(), c.drop_first());
    }
}

/// Whether `a` comes before `b` or equals it in lexicographic order.
pub fn text_le_exec(a: &str, b: &str) -> (r: bool)
    ensures
        r == text_le(a@, b@),
{
    let va = to_chars(a);
    let vb = to_chars(b);
    let na = va.len();
    let nb = vb.len();
    let mut i: usize = 0;
    assert(a@.skip(0) =~= a@);
    assert(b@.skip(0) =~= b@);
    while i < na && i < nb && va[i] as u32 == vb[i] as u32
        invariant
            va@ == a@,
            vb@ == b@,
            na == va@.len(),
            nb == vb@.len(),
            i <= na,
            i <= nb,
            text_le(a@, b@) == text_le(a@.skip(i as int), b@.skip(i as int)),
        decreases na - i,
    {
        proof {
            assert(a@.skip(i as int).drop_first() =~= a@.skip(i + 1));
            assert(b@.skip(i as int).drop_first() =~= b@.skip(i + 1));
        }
        i = i + 1;
    }
    if i == na {
        true
    } else if i == nb {
        false
    } else {
        (va[i] as u32) < (vb[i] as u32)
    }
}

/// Where a folder goes in a list sorted by name: after every folder whose
/// name comes before or equals its own.
pub open spec fn insert_position(s: Seq<Folder>, x: Folder) -> int
    decreases s.len(),
{
    if s.len() == 0 {
        0
    } else if !text_le(s[0].name@, x.name@) {
        0
    } else {
        1 + insert_position(s.drop_first(), x)
    }
}

/// The folders in order of name; folders of equal name keep their order (a
/// stable sort, as `sort_by` is).
pub open spec fn sorted_by_name(s: Seq<Folder>) -> Seq<Folder>
    decreases s.len(),
{
    if s.len() == 0 {
        seq![]
    } else {
        let r = sorted_by_name(s.drop_last());
        r.insert(insert_position(r, s.last()), s.last())
    }
}

/// Whether the folders are in order of name.
pub open spec fn is_sorted_by_name(s: Seq<Folder>) -> bool {
    forall|i: int, j: int| 0 <= i < j < s.len() ==> text_le(s[i].name@, s[j].name@)
}

pub proof fn lemma_insert_position(s: Seq<Folder>, x: Folder)
    requires
        is_sorted_by_name(s),
    ensures
        0 <= insert_position(s, x) <= s.len(),
        forall|i: int| 0 <= i < insert_position(s, x) ==> text_le(#[trigger] s[i].name@, x.name@),
        forall|i: int| insert_position(s, x) <= i < s.len() ==> !text_le(#[trigger] s[i].name@, x.name@),
    decreases s.len(),
{
    if s.len() > 0 && text_le(s[0].name@, x.name@) {
        let t = s.drop_first();
        assert forall|i: int, j: int| 0 <= i < j < t.len() implies text_le(t[i].name@, t[j].name@) by {
            assert(t[i] == s[i + 1] && t[j] == s[j + 1]);
        }
        lemma_insert_position(t, x);
        assert forall|i: int| 0 <= i < insert_position(s, x) implies text_le(#[trigger] s[i].name@, x.name@) by {
            if i > 0 {
                assert(s[i] == t[i - 1]);
            }
        }
        assert forall|i: int| insert_position(s, x) <= i < s.len() implies !text_le(#[trigger] s[i].name@, x.name@) by {
            assert(s[i] == t[i - 1]);
        }
    } else if s.len() > 0 {
        assert forall|i: int| 0 <= i < s.len() implies !text_le(#[trigger] s[i].name@, x.name@) by {
            if i > 0 && text_le(s[i].name@, x.name@) {
                lemma_text_le_transitive(s[0].name@, s[i].name@, x.name@);
            }
        }
    }
}

/// Sorting by name gives the same folders, in order of name.
pub proof fn lemma_sorted_by_name(s: Seq<Folder>)
    ensures
        is_sorted_by_name(sorted_by_name(s)),
        sorted_by_name(s).to_multiset() == s.to_multiset(),
    decreases s.len(),
{
    broadcast use vstd::seq_lib::to_multiset_insert, vstd::seq_lib::to_multiset_build;

    if s.len() > 0 {
        let r = sorted_by_name(s.drop_last());
        let x = s.last();
        lemma_sorted_by_name(s.drop_last());
        lemma_insert_position(r, x);
        let p = insert_position(r, x);
        let q = r.insert(p, x);
        assert forall|i: int, j: int| 0 <= i < j < q.len() implies text_le(q[i].name@, q[j].name@) by {
            if j < p {
                assert(q[i] == r[i] && q[j] == r[j]);
            } else if j == p {
                assert(q[i] == r[i]);
            } else if i < p {
                assert(q[i] == r[i] && q[j] == r[j - 1]);
            } else if i == p {
                assert(q[j] == r[j - 1]);
                lemma_text_le_total(x.name@, r[j - 1].name@);
            } else {
                assert(q[i] == r[i - 1] && q[j] == r[j - 1]);
            }
        }
        assert(s.drop_last().push(x) =~= s);
        assert(q.to_multiset() == r.to_multiset().insert(x));
        assert(s.drop_last().push(x).to_multiset() == s.drop_last().to_multiset().insert(x));
    } else {
        assert(s =~= seq![]);
    }
}

/// The folders sorted by name, stably.
pub fn sort_folders_by_name(folders: Vec<Folder>) -> (r: Vec<Folder>)
    ensures
        r@ == sorted_by_name(folders@),
        is_sorted_by_name(r@),
        r@.to_multiset() == folders@.to_multiset(),
        forall|n: Seq<char>| #[trigger] named(r@, n) == named(folders@, n),
{
    proof {
        lemma_sorted_by_name(folders@);
        assert forall|n: Seq<char>| #[trigger] named(sorted_by_name(folders@), n) == named(folders@, n) by {
            lemma_sort_stable(folders@, n);
        }
    }
    let mut rest = folders;
    let ghost all = rest@;
    let total = rest.len();
    let mut out: Vec<Folder> = Vec::new();
    let mut k: usize = 0;
    assert(all.take(0) =~= seq![]);
    while rest.len() > 0
        invariant
            total == all.len(),
            k <= total,
            rest@ == all.skip(k as int),
            out@ == sorted_by_name(all.take(k as int)),
        decreases rest@.len(),
    {
        let x = rest.remove(0);
        proof {
            assert(all.take(k + 1).drop_last() =~= all.take(k as int));
            assert(all.take(k + 1).last() == x);
            assert(rest@ =~= all.skip(k + 1));
        }
        let n = out.len();
        let mut j: usize = 0;
        assert(out@.skip(0) =~= out@);
        while j < n && text_le_exec(out[j].name.as_str(), x.name.as_str())
            invariant
                n == out@.len(),
                j <= n,
                insert_position(out@, x) == j + insert_position(out@.skip(j as int), x),
            decreases n - j,
        {
            proof {
                assert(out@.skip(j as int).drop_first() =~= out@.skip(j + 1));
            }
            j = j + 1;
        }
        proof {
            if j == n {
                assert(out@.skip(j as int) =~= seq![]);
            }
        }
        out.insert(j, x);
        k = k + 1;
    }
    assert(all.take(k as int) =~= all);
    out
}

/// The folders named `n`, in order.
pub open spec fn named(s: Seq<Folder>, n: Seq<char>) -> Seq<Folder>
    decreases s.len(),
{
    if s.len() == 0 {
        seq![]
    } else if s.last().name@ == n {
        named(s.drop_last(), n).push(s.last())
    } else {
        named(s.drop_last(), n)
    }
}

pub proof fn lemma_named_append(a: Seq<Folder>, b: Seq<Folder>, n: Seq<char>)
    ensures
        named(a + b, n) == named(a, n) + named(b, n),
    decreases b.len(),
{
    if b.len() == 0 {
        assert(a + b =~= a);
        assert(named(a, n) + named(b, n) =~= named(a, n));
    } else {
        lemma_named_append(a, b.drop_last(), n);
        assert((a + b).drop_last() =~= a + b.drop_last());
        assert((a + b).last() == b.last());
        if b.last().name@ == n {
            assert(named(a, n) + named(b.drop_last(), n).push(b.last()) =~= (named(a, n) + named(
                b.drop_last(),
                n,
            )).push(b.last()));
        }
    }
}

pub proof fn lemma_named_none(s: Seq<Folder>, n: Seq<char>)
    requires
        forall|i: int| 0 <= i < s.len() ==> s[i].name@ != n,
    ensures
        named(s, n) == Seq::<Folder>::empty(),
    decreases s.len(),
{
    if s.len() > 0 {
        lemma_named_none(s.drop_last(), n);
    }
}

/// Sorting by name is stable: for every name, the folders of that name come
/// out in the order they went in.
pub proof fn lemma_sort_stable(s: Seq<Folder>, n: Seq<char>)
    ensures
        named(sorted_by_name(s), n) == named(s, n),
    decreases s.len(),
{
    if s.len() > 0 {
        let r = sorted_by_name(s.drop_last());
        let x = s.last();
        lemma_sort_stable(s.drop_last(), n);
        lemma_sorted_by_name(s.drop_last());
        lemma_insert_position(r, x);
        let p = insert_position(r, x);
        let q = r.insert(p, x);
        assert(r =~= r.take(p) + r.skip(p));
        assert(q =~= r.take(p) + (seq![x] + r.skip(p)));
        lemma_named_append(r.take(p), r.skip(p), n);
        lemma_named_append(r.take(p), seq![x] + r.skip(p), n);
        lemma_named_append(seq![x], r.skip(p), n);
        assert(seq![x].drop_last() =~= Seq::<Folder>::empty());
        assert(seq![x].last() == x);
        assert(named(Seq::<Folder>::empty(), n) =~= Seq::<Folder>::empty());
        assert(named(seq![x].drop_last(), n) =~= Seq::<Folder>::empty());
        if x.name@ == n {
            assert forall|i: int| 0 <= i < r.skip(p).len() implies r.skip(p)[i].name@ != n by {
                assert(r.skip(p)[i] == r[p + i]);
                assert(!text_le(r[p + i].name@, x.name@));
                lemma_text_le_reflexive(x.name@);
            }
            lemma_named_none(r.skip(p), n);
            assert(named(seq![x], n) =~= seq![x]);
            assert(named(q, n) =~= named(r, n).push(x));
        } else {
            assert(named(seq![x], n) =~= Seq::<Folder>::empty());
            assert(named(q, n) =~= named(r, n));
        }
        assert(s.drop_last().push(x) =~= s);
    }
}

pub proof fn lemma_text_le_reflexive(a: Seq<char>)
    ensures
        text_le(a, a),
    decreases a.len(),
{
    if a.len() > 0 {
        lemma_text_le_reflexive(a.drop_first());
    }
}

} // verus!
