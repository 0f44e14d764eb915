//! `.code-workspace` files: the folders a workspace file lists, and the
//! order in which the files are shown (most recently modified first).
//!
//! The file's JSON arrives as a [`Json`] value; times of modification as
//! text in the form `YYYY-MM-DD HH:MM`, which orders like the times.

use vstd::prelude::*;
use crate::text::chars_of;

verus! {

/// A JSON value; an object holds its members in order, each key once.
#[derive(Debug)]
pub enum Json {
    Null,
    Bool(bool),
    /// A number, as written
    Number(String),
    Str(String),
    Array(Vec<Json>),
    Object(Vec<(String, Json)>),
}

/// The value of member `key`, if present.
pub open spec fn member(fields: Seq<(String, Json)>, key: Seq<char>) -> Option<Json>
    decreases fields.len(),
{
    if fields.len() == 0 {
        None
    } else if fields[0].0@ == key {
        Some(fields[0].1)
    } else {
        member(fields.drop_first(), key)
    }
}

/// The path of a folder entry: its `path` member, when that is a string.
pub open spec fn folder_path(item: Json) -> Option<Seq<char>> {
    match item {
        Json::Object(f) => match member(f@, "path"@) {
            Some(Json::Str(p)) => Some(p@),
            _ => None,
        },
        _ => None,
    }
}

/// The paths of the folder entries that have one, in order.
pub open spec fn folder_paths(items: Seq<Json>) -> Seq<Seq<char>>
    decreases items.len(),
{
    if items.len() == 0 {
        Seq::empty()
    } else {
        let rest = folder_paths(items.drop_last());
        match folder_path(items.last()) {
            Some(p) => rest.push(p),
            None => rest,
        }
    }
}

/// The folders of a workspace file: the paths listed in its `folders`
/// array (nothing when there is no such array).
pub open spec fn spec_workspace_folders(doc: Json) -> Seq<Seq<char>> {
    match doc {
        Json::Object(f) => match member(f@, "folders"@) {
            Some(Json::Array(items)) => folder_paths(items@),
            _ => Seq::empty(),
        },
        _ => Seq::empty(),
    }
}

pub open spec fn views(v: Seq<String>) -> Seq<Seq<char>> {
    v.map_values(|s: String| s@)
}

/// The value of member `key`, if present.
fn find_member<'a>(fields: &'a Vec<(String, Json)>, key: &str) -> (r: Option<&'a Json>)
    ensures
        r matches Some(v) ==> member(fields@, key@) == Some(*v),
        r is None ==> member(fields@, key@) is None,
{
    let mut i: usize = 0;
    assert(fields@.skip(0) =~= fields@);
    while i < fields.len()
        invariant
            i <= fields@.len(),
            member(fields@, key@) == member(fields@.skip(i as int), key@),
        decreases fields@.len() - i,
    {
        proof {
            assert(fields@.skip(i as int).drop_first() =~= fields@.skip(i + 1));
        }
        if crate::text::same_text(fields[i].0.as_str(), key) {
            return Some(&fields[i].1);
        }
        i = i + 1;
    }
    None
}

/// The folders listed by a workspace file.
pub fn workspace_folders(doc: &Json) -> (r: Vec<String>)
    ensures
        views(r@) == spec_workspace_folders(*doc),
{
    let mut out: Vec<String> = Vec::new();
    match doc {
        Json::Object(f) => match find_member(f, "folders") {
            Some(Json::Array(items)) => {
                let mut i: usize = 0;
                while i < items.len()
                    invariant
                        i <= items@.len(),
                        views(out@) == folder_paths(items@.take(i as int)),
                    decreases items@.len() - i,
                {
                    let ghost before = out@;
                    proof {
                        assert(items@.take(i + 1).drop_last() =~= items@.take(i as int));
                        assert(items@.take(i + 1).last() == items@[i as int]);
                    }
                    match &items[i] {
                        Json::Object(g) => match find_member(g, "path") {
                            Some(Json::Str(p)) => {
                                out.push(p.clone());
                                assert(views(out@) =~= views(before).push(p@));
                            },
                            _ => {},
                        },
                        _ => {},
                    }
                    i = i + 1;
                }
                assert(items@.take(i as int) =~= items@);
            },
            _ => {},
        },
        _ => {},
    }
    assert(views(out@) =~= spec_workspace_folders(*doc));
    out
}

/// What `serde_json` parses a text into, as a [`Json`] value; nothing when
/// the text is not JSON.
pub uninterp spec fn parsed_json(text: Seq<char>) -> Option<Json>;

/// A `serde_json::Value` as the library reads it, variant for variant.
#[verifier::external_body]
fn json_of_value(v: &serde_json::Value) -> Json {
    match v {
        serde_json::Value::Null => Json::Null,
        serde_json::Value::Bool(b) => Json::Bool(*b),
        serde_json::Value::Number(n) => Json::Number(n.to_string()),
        serde_json::Value::String(s) => Json::Str(s.clone()),
        serde_json::Value::Array(items) => Json::Array(items.iter().map(json_of_value).collect()),
        serde_json::Value::Object(map) => Json::Object(map.iter().map(|(k, x)| (k.clone(), json_of_value(x))).collect()),
    }
}

/// `serde_json::from_str::<serde_json::Value>`: the JSON value of a text,
/// or nothing when the text is not JSON. Its result is claimed to depend on
/// the text alone.
#[verifier::external_body]
fn parse_json(text: &str) -> (r: Option<Json>)
    ensures
        r == parsed_json(text@),
{
    serde_json::from_str::<serde_json::Value>(text).ok().map(|v| json_of_value(&v))
}

/// The folders listed by the text of a workspace file: none when the text
/// is not JSON.
pub fn workspace_file_folders(content: &str) -> (r: Vec<String>)
    ensures
        views(r@) == match parsed_json(content@) {
            Some(doc) => spec_workspace_folders(doc),
            None => Seq::<Seq<char>>::empty(),
        },
{
    match parse_json(content) {
        Some(doc) => workspace_folders(&doc),
        None => {
            let v: Vec<String> = Vec::new();
            assert(views(v@) =~= Seq::<Seq<char>>::empty());
            v
        },
    }
}

/// A `.code-workspace` file found on disk.
#[derive(Debug)]
pub struct WorkspaceFile {
    pub path: String,
    /// Its name without the extension
    pub name: String,
    pub folders: Vec<String>,
    /// When it was last modified, when known
    pub modified: Option<String>,
}

/// Text order: character by character, a prefix first (the order of
/// `String`, whose byte order is that of the characters).
pub open spec fn text_le(a: Seq<char>, b: Seq<char>) -> bool
    decreases a.len(),
{
    if a.len() == 0 {
        true
    } else if b.len() == 0 {
        false
    } else if (a[0] as u32) != (b[0] as u32) {
        (a[0] as u32) < (b[0] as u32)
    } else {
        text_le(a.drop_first(), b.drop_first())
    }
}

proof fn lemma_text_total(a: Seq<char>, b: Seq<char>)
    ensures
        text_le(a, b) || text_le(b, a),
    decreases a.len(),
{
    if a.len() > 0 && b.len() > 0 && (a[0] as u32) == (b[0] as u32) {
        lemma_text_total(a.drop_first(), b.drop_first());
    }
}

proof fn lemma_text_trans(a: Seq<char>, b: Seq<char>, c: Seq<char>)
    requires
        text_le(a, b),
        text_le(b, c),
    ensures
        text_le(a, c),
    decreases a.len(),
{
    if a.len() > 0 && b.len() > 0 && c.len() > 0 && (a[0] as u32) == (b[0] as u32) && (b[0] as u32) == (c[0] as u32) {
        lemma_text_trans(a.drop_first(), b.drop_first(), c.drop_first());
    }
}

/// `a` was modified no earlier than `b` (an unknown time is the earliest).
pub open spec fn newer_or_same(a: Option<String>, b: Option<String>) -> bool {
    match (a, b) {
        (_, None) => true,
        (None, Some(_)) => false,
        (Some(x), Some(y)) => text_le(y@, x@),
    }
}

proof fn lemma_newer_total(a: Option<String>, b: Option<String>)
    ensures
        newer_or_same(a, b) || newer_or_same(b, a),
{
    if let (Some(x), Some(y)) = (a, b) {
        lemma_text_total(x@, y@);
    }
}

proof fn lemma_newer_trans(a: Option<String>, b: Option<String>, c: Option<String>)
    requires
        newer_or_same(a, b),
        newer_or_same(b, c),
    ensures
        newer_or_same(a, c),
{
    if let (Some(x), Some(y), Some(z)) = (a, b, c) {
        lemma_text_trans(z@, y@, x@);
    }
}

/// Number of leading files of `s` modified no earlier than `x`.
pub open spec fn count_newer(s: Seq<WorkspaceFile>, x: Option<String>) -> nat
    decreases s.len(),
{
    if s.len() > 0 && newer_or_same(s[0].modified, x) { 1 + count_newer(s.drop_first(), x) } else { 0 }
}

/// `x` placed into `s` after every leading file modified no earlier.
pub open spec fn insert_by_modified(s: Seq<WorkspaceFile>, x: WorkspaceFile) -> Seq<WorkspaceFile> {
    let p = count_newer(s, x.modified) as int;
    s.take(p).push(x) + s.skip(p)
}

/// The files, most recently modified first; files modified at the same
/// time keep their order (a stable sort).
pub open spec fn sort_by_modified(s: Seq<WorkspaceFile>) -> Seq<WorkspaceFile>
    decreases s.len(),
{
    if s.len() == 0 { s } else { insert_by_modified(sort_by_modified(s.drop_last()), s.last()) }
}

pub open spec fn newest_first(s: Seq<WorkspaceFile>) -> bool {
    forall|i: int, j: int| 0 <= i <= j < s.len() ==> newer_or_same(s[i].modified, s[j].modified)
}

proof fn lemma_count_newer(s: Seq<WorkspaceFile>, x: Option<String>, p: int)
    requires
        0 <= p <= s.len(),
        forall|k: int| 0 <= k < p ==> newer_or_same(#[trigger] s[k].modified, x),
        p == s.len() || !newer_or_same(s[p].modified, x),
    ensures
        count_newer(s, x) == p,
    decreases p,
{
    if p > 0 {
        assert forall|k: int| 0 <= k < p - 1 implies newer_or_same(#[trigger] s.drop_first()[k].modified, x) by {
            assert(s.drop_first()[k] == s[k + 1]);
        }
        lemma_count_newer(s.drop_first(), x, p - 1);
    }
}

proof fn lemma_count_newer_props(s: Seq<WorkspaceFile>, x: Option<String>)
    ensures
        count_newer(s, x) <= s.len(),
        forall|k: int| 0 <= k < count_newer(s, x) ==> newer_or_same(#[trigger] s[k].modified, x),
        count_newer(s, x) == s.len() || !newer_or_same(s[count_newer(s, x) as int].modified, x),
    decreases s.len(),
{
    if s.len() > 0 && newer_or_same(s[0].modified, x) {
        let t = s.drop_first();
        lemma_count_newer_props(t, x);
        assert forall|k: int| 0 <= k < count_newer(s, x) implies newer_or_same(#[trigger] s[k].modified, x) by {
            if k > 0 {
                assert(s[k] == t[k - 1]);
            }
        }
    }
}

proof fn lemma_insert_newest_first(s: Seq<WorkspaceFile>, x: WorkspaceFile)
    requires
        newest_first(s),
    ensures
        newest_first(insert_by_modified(s, x)),
        insert_by_modified(s, x).to_multiset() == s.to_multiset().insert(x),
        insert_by_modified(s, x).len() == s.len() + 1,
{
    lemma_count_newer_props(s, x.modified);
    let p = count_newer(s, x.modified) as int;
    let r = insert_by_modified(s, x);
    assert forall|i: int, j: int| 0 <= i <= j < r.len() implies newer_or_same(r[i].modified, r[j].modified) by {
        if i < p && j < p {
            assert(r[i] == s[i] && r[j] == s[j]);
        } else if i < p && j == p {
            assert(r[i] == s[i]);
        } else if i < p {
            assert(r[i] == s[i] && r[j] == s[j - 1]);
        } else if i == p && j == p {
            lemma_newer_total(x.modified, x.modified);
        } else if i == p {
            assert(r[j] == s[j - 1]);
            lemma_newer_total(s[p].modified, x.modified);
            lemma_newer_trans(x.modified, s[p].modified, s[j - 1].modified);
        } else {
            assert(r[i] == s[i - 1] && r[j] == s[j - 1]);
        }
    }
    broadcast use vstd::seq_lib::group_to_multiset_ensures;
    assert(s =~= s.take(p) + s.skip(p));
    vstd::seq_lib::lemma_multiset_commutative(s.take(p).push(x), s.skip(p));
    vstd::seq_lib::lemma_multiset_commutative(s.take(p), s.skip(p));
}

/// The files come out most recently modified first, and they are the same
/// files.
pub proof fn lemma_sort_by_modified(s: Seq<WorkspaceFile>)
    ensures
        newest_first(sort_by_modified(s)),
        sort_by_modified(s).to_multiset() == s.to_multiset(),
        sort_by_modified(s).len() == s.len(),
    decreases s.len(),
{
    broadcast use vstd::seq_lib::group_to_multiset_ensures;
    if s.len() > 0 {
        lemma_sort_by_modified(s.drop_last());
        lemma_insert_newest_first(sort_by_modified(s.drop_last()), s.last());
        assert(s =~= s.drop_last().push(s.last()));
    }
}

/// Whether `a` was modified no earlier than `b`.
fn is_newer_or_same(a: &Option<String>, b: &Option<String>) -> (r: bool)
    ensures
        r == newer_or_same(*a, *b),
{
    match (a, b) {
        (_, None) => true,
        (None, Some(_)) => false,
        (Some(x), Some(y)) => {
            let xs = chars_of(x.as_str());
            let ys = chars_of(y.as_str());
            let mut k: usize = 0;
            assert(ys@.skip(0) =~= ys@);
            assert(xs@.skip(0) =~= xs@);
            while k < ys.len() && k < xs.len() && (ys[k] as u32) == (xs[k] as u32)
                invariant
                    k <= ys@.len(),
                    k <= xs@.len(),
                    text_le(ys@, xs@) == text_le(ys@.skip(k as int), xs@.skip(k as int)),
                decreases ys@.len() - k,
            {
                proof {
                    assert(ys@.skip(k as int).drop_first() =~= ys@.skip(k + 1));
                    assert(xs@.skip(k as int).drop_first() =~= xs@.skip(k + 1));
                }
                k = k + 1;
            }
            if k == ys.len() {
                true
            } else if k == xs.len() {
                false
            } else {
                (ys[k] as u32) < (xs[k] as u32)
            }
        },
    }
}

/// Orders workspace files most recently modified first, keeping the order
/// of files modified at the same time.
pub fn sort_workspace_files(files: Vec<WorkspaceFile>) -> (r: Vec<WorkspaceFile>)
    ensures
        r@ == sort_by_modified(files@),
{
    let mut input = files;
    let ghost all = input@;
    let n = input.len();
    let mut rest: Vec<WorkspaceFile> = Vec::new();
    while input.len() > 0
        invariant
            rest@.len() + input@.len() == all.len(),
            forall|k: int| 0 <= k < rest@.len() ==> rest@[k] == all[all.len() - 1 - k],
            input@ == all.take(input@.len() as int),
        decreases input@.len(),
    {
        let x = input.pop().unwrap();
        rest.push(x);
    }
    let mut out: Vec<WorkspaceFile> = Vec::new();
    let mut taken: usize = 0;
    while rest.len() > 0
        invariant
            taken + rest@.len() == n,
            n == all.len(),
            forall|k: int| 0 <= k < rest@.len() ==> rest@[k] == all[all.len() - 1 - k],
            out@ == sort_by_modified(all.take(taken as int)),
        decreases rest@.len(),
    {
        let x = rest.pop().unwrap();
        proof {
            assert(x == all[taken as int]);
            assert(all.take(taken + 1).drop_last() =~= all.take(taken as int));
            lemma_sort_by_modified(all.take(taken as int));
        }
        let mut p: usize = 0;
        while p < out.len() && is_newer_or_same(&out[p].modified, &x.modified)
            invariant
                p <= out@.len(),
                forall|k: int| 0 <= k < p ==> newer_or_same(#[trigger] out@[k].modified, x.modified),
            decreases out@.len() - p,
        {
            p = p + 1;
        }
        proof {
            lemma_count_newer(out@, x.modified, p as int);
        }
        let ghost before = out@;
        out.insert(p, x);
        taken = taken + 1;
        proof {
            assert(out@ =~= before.take(p as int).push(x) + before.skip(p as int));
        }
    }
    assert(all.take(n as int) =~= all);
    out
}

} // verus!
