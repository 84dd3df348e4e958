//! Includes: merging the documents a scenario includes into it.
use crate::yaml::{
    as_sequence_view, as_str_view, get_view, key_index, lemma_entries_view, lemma_items_view,
    lemma_key_index, lemma_map_view_ext, lemma_map_view_push, lemma_map_view_update,
    lemma_seq_view_concat, lemma_seq_view_ext, map_view, seq_view, Yaml, YamlView,
};
use crate::codes::{self, Code};
use crate::diag::{code_of, error_view, DiagView, Diagnostic};
use crate::paths::{base_dir, base_dir_of, join_path, joined};
use crate::text::{append_decimal, decimal, str_eq};
use vstd::prelude::*;

verus! {

/// Maximum depth of `includes:` chains: the root scenario and its includes
/// together are at most 8 files deep.
pub const MAX_INCLUDE_DEPTH: usize = 8;

/// The string items of a sequence, in order; other items are skipped.
pub open spec fn string_items(items: Seq<YamlView>) -> Seq<Seq<char>>
    decreases items.len(),
{
    if items.len() == 0 {
        Seq::empty()
    } else {
        let before = string_items(items.drop_last());
        match as_str_view(items.last()) {
            Some(s) => before.push(s),
            None => before,
        }
    }
}

/// The files a document includes: the strings of its `includes:` sequence.
pub open spec fn include_list_spec(v: YamlView) -> Seq<Seq<char>> {
    match get_view(v, "includes"@) {
        Some(x) => match as_sequence_view(x) {
            Some(items) => string_items(items),
            None => Seq::empty(),
        },
        None => Seq::empty(),
    }
}

/// The files `value` includes, in order.
pub fn include_list(value: &Yaml) -> (r: Vec<String>)
    ensures
        r@.len() == include_list_spec(value.view_of()).len(),
        forall|i: int| 0 <= i < r@.len() ==> #[trigger] r@[i]@ == include_list_spec(value.view_of())[i],
{
    proof {
        reveal_strlit("includes");
    }
    let mut out: Vec<String> = Vec::new();
    match value.get("includes") {
        Some(x) => match x.untag() {
            Yaml::Sequence(items) => {
                let ghost iv = seq_view(items@);
                proof {
                    lemma_items_view(items@, items@.len());
                    assert(iv.take(0) =~= Seq::<YamlView>::empty());
                }
                let mut i: usize = 0;
                while i < items.len()
                    invariant
                        i <= items@.len() == iv.len(),
                        iv == seq_view(items@),
                        forall|k: int| 0 <= k < items@.len() ==> #[trigger] iv[k] == items@[k].view_of(),
                        out@.len() == string_items(iv.take(i as int)).len(),
                        forall|k: int|
                            0 <= k < out@.len() ==> #[trigger] out@[k]@ == string_items(iv.take(i as int))[k],
                    decreases items@.len() - i,
                {
                    proof {
                        assert(iv.take(i + 1).drop_last() =~= iv.take(i as int));
                        assert(iv.take(i + 1).last() == iv[i as int]);
                    }
                    match items[i].as_str() {
                        Some(s) => {
                            out.push(String::from_str(s));
                        },
                        None => {},
                    }
                    i = i + 1;
                }
                proof {
                    assert(iv.take(i as int) =~= iv);
                }
            },
            _ => {},
        },
        None => {},
    }
    out
}

/// Merging `overlay` into `base`: mappings merge key by key, everything else is
/// replaced by the overlay.
pub open spec fn merge_view(base: YamlView, overlay: YamlView) -> YamlView
    decreases overlay, 0nat,
{
    match (base, overlay) {
        (YamlView::Mapping(bm), YamlView::Mapping(om)) => YamlView::Mapping(
            merge_entries(bm, om, om.len()),
        ),
        _ => overlay,
    }
}

/// A `timeline` entry present on both sides: two sequences concatenate, base
/// entries first; otherwise the overlay replaces the base.
pub open spec fn merge_timeline(base: YamlView, overlay: YamlView) -> YamlView {
    match (base, overlay) {
        (YamlView::Sequence(a), YamlView::Sequence(b)) => YamlView::Sequence(a + b),
        _ => overlay,
    }
}

/// Merging the first `n` overlay entries into `bm`, in order: a key already
/// present merges into its entry (concatenating for `timeline`), a new key is
/// appended.
pub open spec fn merge_entries(
    bm: Seq<(YamlView, YamlView)>,
    om: Seq<(YamlView, YamlView)>,
    n: nat,
) -> Seq<(YamlView, YamlView)>
    decreases om, n,
{
    if n == 0 || n > om.len() {
        bm
    } else {
        let b1 = merge_entries(bm, om, (n - 1) as nat);
        let k = om[n - 1].0;
        let ov = om[n - 1].1;
        match key_index(b1, k) {
            Some(j) => if as_str_view(k) == Some("timeline"@) {
                b1.update(j, (b1[j].0, merge_timeline(b1[j].1, ov)))
            } else {
                b1.update(j, (b1[j].0, merge_view(b1[j].1, ov)))
            },
            None => b1.push((k, ov)),
        }
    }
}

/// The position of `key` among `entries`, found by comparing each key.
fn find_key(entries: &Vec<(Yaml, Yaml)>, key: &Yaml) -> (r: Option<usize>)
    ensures
        match r {
            Some(j) => key_index(map_view(entries@), key.view_of()) == Some(j as int),
            None => key_index(map_view(entries@), key.view_of()) is None,
        },
{
    let ghost es = map_view(entries@);
    proof {
        lemma_entries_view(entries@, entries@.len());
        lemma_key_index(es, key.view_of());
    }
    let mut i: usize = 0;
    while i < entries.len()
        invariant
            i <= entries@.len() == es.len(),
            es == map_view(entries@),
            forall|k: int| 0 <= k < es.len() ==> #[trigger] es[k].0 == entries@[k].0.view_of(),
            forall|k: int| 0 <= k < i ==> #[trigger] es[k].0 != key.view_of(),
            match key_index(es, key.view_of()) {
                Some(j) => 0 <= j < es.len() && es[j].0 == key.view_of() && forall|k: int|
                    0 <= k < j ==> #[trigger] es[k].0 != key.view_of(),
                None => forall|k: int| 0 <= k < es.len() ==> #[trigger] es[k].0 != key.view_of(),
            },
        decreases entries@.len() - i,
    {
        if entries[i].0.same_as(key) {
            proof {
                assert(es[i as int].0 == key.view_of());
                match key_index(es, key.view_of()) {
                    Some(j) => {
                        if j < i {
                            assert(es[j].0 != key.view_of());
                        } else if j > i {
                            assert(es[i as int].0 != key.view_of());
                        }
                    },
                    None => {
                        assert(es[i as int].0 != key.view_of());
                    },
                }
            }
            return Some(i);
        }
        i = i + 1;
    }
    None
}

fn merged_timeline(base: Yaml, overlay: Yaml) -> (r: Yaml)
    ensures
        r.view_of() == merge_timeline(base.view_of(), overlay.view_of()),
{
    match overlay {
        Yaml::Sequence(extra) => match base {
            Yaml::Sequence(existing) => {
                let mut a = existing;
                let mut b = extra;
                let ghost a0 = a@;
                let ghost b0 = b@;
                a.append(&mut b);
                proof {
                    lemma_seq_view_concat(a0, b0);
                }
                Yaml::Sequence(a)
            },
            _ => Yaml::Sequence(extra),
        },
        other => other,
    }
}

fn is_timeline_key(k: &Yaml) -> (r: bool)
    ensures
        r == (as_str_view(k.view_of()) == Some("timeline"@)),
{
    match k.as_str() {
        Some(s) => str_eq(s, "timeline"),
        None => false,
    }
}

/// `overlay` merged into `base`. Mappings merge key by key; `timeline`
/// sequences concatenate (`base` entries first); everything else is replaced by
/// the overlay, as is a `timeline` whose two sides are not both sequences.
#[verifier::loop_isolation(false)]
pub fn merged(base: Yaml, overlay: Yaml) -> (r: Yaml)
    ensures
        r.view_of() == merge_view(base.view_of(), overlay.view_of()),
    decreases overlay,
{
    match overlay {
        Yaml::Mapping(om) => match base {
            Yaml::Mapping(bm) => {
                let ghost om0 = om@;
                let ghost omv = map_view(om@);
                let ghost bmv = map_view(bm@);
                proof {
                    lemma_entries_view(om@, om@.len());
                    assert(om0.subrange(0, om0.len() as int) =~= om0);
                }
                let mut b = bm;
                let mut rest = om;
                let n = rest.len();
                let mut i: usize = 0;
                while i < n
                    invariant
                        i <= n == om0.len(),
                        rest@ == om0.subrange(i as int, n as int),
                        map_view(b@) == merge_entries(bmv, omv, i as nat),
                    decreases n - i,
                {
                    let entry = rest.remove(0);
                    proof {
                        assert(entry == om0[i as int]);
                        assert(rest@ =~= om0.subrange(i + 1, n as int));
                        assert(omv[i as int] == (entry.0.view_of(), entry.1.view_of()));
                    }
                    let (k, ov) = entry;
                    let ghost b1 = b@;
                    match find_key(&b, &k) {
                        Some(j) => {
                            proof {
                                lemma_entries_view(b1, b1.len());
                                lemma_key_index(map_view(b1), k.view_of());
                            }
                            let timeline = is_timeline_key(&k);
                            let old_entry = b.remove(j);
                            let (bk, bv) = old_entry;
                            proof {
                                lemma_entries_view(b1, b1.len());
                                assert(map_view(b1)[j as int] == (bk.view_of(), bv.view_of()));
                            }
                            let nv = if timeline {
                                merged_timeline(bv, ov)
                            } else {
                                merged(bv, ov)
                            };
                            b.insert(j, (bk, nv));
                            proof {
                                assert(b@ =~= b1.update(j as int, (bk, nv)));
                                lemma_map_view_update(b1, j as int, (bk, nv));
                            }
                        },
                        None => {
                            b.push((k, ov));
                            proof {
                                lemma_map_view_push(b1, (k, ov));
                            }
                        },
                    }
                    i = i + 1;
                }
                Yaml::Mapping(b)
            },
            _ => Yaml::Mapping(om),
        },
        other => other,
    }
}

/// Deep-merges `overlay` into `base` (see `merged`).
pub fn deep_merge(base: &mut Yaml, overlay: Yaml)
    ensures
        final(base).view_of() == merge_view(old(base).view_of(), overlay.view_of()),
{
    let mut b = Yaml::Null;
    std::mem::swap(&mut b, base);
    *base = merged(b, overlay);
}

/// What reading one file gave.
#[derive(Debug)]
pub enum SourceRead {
    /// The file could not be read; the reason as text.
    Unreadable(String),
    /// The file is not valid YAML; the parser's message.
    Invalid(String),
    /// The document the file holds.
    Parsed(Yaml),
}

/// One file a scenario may reach through its includes: the path as the loader
/// names it, the same path made canonical (used to detect cycles), whether it
/// exists, and what reading it gave.
#[derive(Debug)]
pub struct SourceFile {
    pub path: String,
    pub canonical: String,
    pub exists: bool,
    pub read: SourceRead,
}

/// What reading a file gave, as a value.
pub enum ReadView {
    Unreadable(Seq<char>),
    Invalid(Seq<char>),
    Parsed(YamlView),
}

pub open spec fn read_view(r: SourceRead) -> ReadView {
    match r {
        SourceRead::Unreadable(e) => ReadView::Unreadable(e@),
        SourceRead::Invalid(e) => ReadView::Invalid(e@),
        SourceRead::Parsed(y) => ReadView::Parsed(y.view_of()),
    }
}

/// The first file of the table named `path`.
pub open spec fn file_index(table: Seq<SourceFile>, path: Seq<char>) -> Option<int>
    decreases table.len(),
{
    if table.len() == 0 {
        None
    } else {
        match file_index(table.drop_last(), path) {
            Some(i) => Some(i),
            None => if table.last().path@ == path {
                Some(table.len() - 1)
            } else {
                None
            },
        }
    }
}

pub proof fn lemma_file_index(table: Seq<SourceFile>, path: Seq<char>)
    ensures
        match file_index(table, path) {
            Some(i) => 0 <= i < table.len() && table[i].path@ == path && forall|k: int|
                0 <= k < i ==> #[trigger] table[k].path@ != path,
            None => forall|k: int| 0 <= k < table.len() ==> #[trigger] table[k].path@ != path,
        },
    decreases table.len(),
{
    if table.len() > 0 {
        lemma_file_index(table.drop_last(), path);
        match file_index(table.drop_last(), path) {
            Some(i) => {
                assert forall|k: int| 0 <= k < i implies #[trigger] table[k].path@ != path by {
                    assert(table[k] == table.drop_last()[k]);
                }
                assert(table[i] == table.drop_last()[i]);
            },
            None => {
                assert forall|k: int| 0 <= k < table.len() - 1 implies #[trigger] table[k].path@
                    != path by {
                    assert(table[k] == table.drop_last()[k]);
                }
            },
        }
    }
}

/// The canonical form of `path`: the table's, or the path itself when the table
/// does not know it.
pub open spec fn canonical_of(table: Seq<SourceFile>, path: Seq<char>) -> Seq<char> {
    match file_index(table, path) {
        Some(i) => table[i].canonical@,
        None => path,
    }
}

/// Whether `path` exists, as the table says; a path it does not hold does not.
pub open spec fn exists_in(table: Seq<SourceFile>, path: Seq<char>) -> bool {
    match file_index(table, path) {
        Some(i) => table[i].exists,
        None => false,
    }
}

/// An error located in `file`.
pub open spec fn file_error(code: Code, message: Seq<char>, file: Seq<char>) -> DiagView {
    DiagView { file: Some(file), ..error_view(code_of(code), message) }
}

/// The mapping with its `includes` entry taken out (its place filled by the
/// last entry); anything else unchanged.
pub open spec fn without_includes(v: YamlView) -> YamlView {
    match v {
        YamlView::Mapping(es) => match key_index(es, YamlView::Str("includes"@)) {
            Some(i) => YamlView::Mapping(es.update(i, es.last()).drop_last()),
            None => v,
        },
        _ => v,
    }
}

/// Loading `path` at include depth `depth` while the files in `visiting` are
/// being loaded: its includes merged in order, then the file itself over them,
/// `includes` removed. Fails when the chain is too deep, on a cycle, on an
/// unreadable or invalid file, or on a missing include.
pub open spec fn load_spec(table: Seq<SourceFile>, path: Seq<char>, depth: nat, visiting: Seq<Seq<char>>) -> Result<YamlView, DiagView>
    decreases 9 - depth, 0nat,
{
    if depth >= MAX_INCLUDE_DEPTH {
        Err(
            file_error(
                codes::INCLUDE_TOO_DEEP,
                "include depth exceeds the limit of "@ + decimal(MAX_INCLUDE_DEPTH as nat),
                path,
            ),
        )
    } else if visiting.contains(canonical_of(table, path)) {
        Err(file_error(codes::INCLUDE_CYCLE, "include cycle detected at "@ + path, path))
    } else {
        match file_index(table, path) {
            None => Err(file_error(codes::INCLUDE_NOT_FOUND, "cannot read "@ + path + ": "@, path)),
            Some(i) => match read_view(table[i].read) {
                ReadView::Unreadable(e) => Err(
                    file_error(codes::INCLUDE_NOT_FOUND, "cannot read "@ + path + ": "@ + e, path),
                ),
                ReadView::Invalid(e) => Err(file_error(codes::YAML_SYNTAX, "invalid YAML: "@ + e, path)),
                ReadView::Parsed(own) => {
                    let incs = include_list_spec(own);
                    let vis = visiting.push(canonical_of(table, path));
                    match children_spec(table, path, incs, incs.len(), depth, vis) {
                        Err(d) => Err(d),
                        Ok(m) => Ok(without_includes(merge_view(m, own))),
                    }
                },
            },
        }
    }
}

/// Merging the first `k` includes of `path`, in order, into an empty mapping.
pub open spec fn children_spec(
    table: Seq<SourceFile>,
    path: Seq<char>,
    incs: Seq<Seq<char>>,
    k: nat,
    depth: nat,
    visiting: Seq<Seq<char>>,
) -> Result<YamlView, DiagView>
    decreases 8 - depth, k,
{
    if k == 0 || k > incs.len() || depth >= MAX_INCLUDE_DEPTH {
        Ok(YamlView::Mapping(Seq::empty()))
    } else {
        match children_spec(table, path, incs, (k - 1) as nat, depth, visiting) {
            Err(d) => Err(d),
            Ok(m) => {
                let inc = incs[k - 1];
                let child = joined(base_dir_of(path), inc);
                if !exists_in(table, child) {
                    Err(file_error(codes::INCLUDE_NOT_FOUND, "included file not found: "@ + inc, path))
                } else {
                    match load_spec(table, child, depth + 1, visiting) {
                        Err(d) => Err(d),
                        Ok(c) => Ok(merge_view(m, c)),
                    }
                }
            },
        }
    }
}

/// Once merging the includes has failed, merging more of them fails the same way.
proof fn lemma_children_error_stays(
    table: Seq<SourceFile>,
    path: Seq<char>,
    incs: Seq<Seq<char>>,
    k: nat,
    n: nat,
    depth: nat,
    visiting: Seq<Seq<char>>,
)
    requires
        k <= n <= incs.len(),
        depth < MAX_INCLUDE_DEPTH,
        children_spec(table, path, incs, k, depth, visiting) is Err,
    ensures
        children_spec(table, path, incs, n, depth, visiting) == children_spec(
            table,
            path,
            incs,
            k,
            depth,
            visiting,
        ),
    decreases n - k,
{
    if k < n {
        lemma_children_error_stays(table, path, incs, k, (n - 1) as nat, depth, visiting);
    }
}

pub open spec fn strings_view(v: Seq<String>) -> Seq<Seq<char>> {
    Seq::new(v.len(), |i: int| v[i]@)
}

pub open spec fn loaded_view(r: Result<Yaml, Diagnostic>) -> Result<YamlView, DiagView> {
    match r {
        Ok(y) => Ok(y.view_of()),
        Err(d) => Err(d@),
    }
}

fn find_file(table: &[SourceFile], path: &str) -> (r: Option<usize>)
    ensures
        match r {
            Some(i) => file_index(table@, path@) == Some(i as int) && i < table@.len(),
            None => file_index(table@, path@) is None,
        },
{
    proof {
        lemma_file_index(table@, path@);
    }
    let mut i: usize = 0;
    while i < table.len()
        invariant
            i <= table@.len(),
            forall|k: int| 0 <= k < i ==> #[trigger] table@[k].path@ != path@,
            match file_index(table@, path@) {
                Some(j) => 0 <= j < table@.len() && table@[j].path@ == path@ && forall|k: int|
                    0 <= k < j ==> #[trigger] table@[k].path@ != path@,
                None => forall|k: int| 0 <= k < table@.len() ==> #[trigger] table@[k].path@ != path@,
            },
        decreases table@.len() - i,
    {
        if str_eq(table[i].path.as_str(), path) {
            proof {
                match file_index(table@, path@) {
                    Some(j) => {
                        if j < i {
                            assert(table@[j].path@ != path@);
                        } else if j > i {
                            assert(table@[i as int].path@ != path@);
                        }
                    },
                    None => {
                        assert(table@[i as int].path@ != path@);
                    },
                }
            }
            return Some(i);
        }
        i = i + 1;
    }
    None
}

fn contains_string(v: &Vec<String>, s: &str) -> (r: bool)
    ensures
        r == strings_view(v@).contains(s@),
{
    let mut i: usize = 0;
    while i < v.len()
        invariant
            i <= v@.len(),
            forall|k: int| 0 <= k < i ==> #[trigger] v@[k]@ != s@,
        decreases v@.len() - i,
    {
        if str_eq(v[i].as_str(), s) {
            proof {
                assert(strings_view(v@)[i as int] == s@);
            }
            return true;
        }
        i = i + 1;
    }
    proof {
        if strings_view(v@).contains(s@) {
            let k = choose|k: int| 0 <= k < strings_view(v@).len() && strings_view(v@)[k] == s@;
            assert(v@[k]@ == s@);
        }
    }
    false
}

fn remove_includes(v: Yaml) -> (r: Yaml)
    ensures
        r.view_of() == without_includes(v.view_of()),
{
    match v {
        Yaml::Mapping(entries) => {
            let key = Yaml::Str(String::from_str("includes"));
            proof {
                reveal_strlit("includes");
            }
            match find_key(&entries, &key) {
                Some(i) => {
                    let mut es = entries;
                    let ghost e0 = es@;
                    proof {
                        lemma_entries_view(e0, e0.len());
                        lemma_key_index(map_view(e0), key.view_of());
                    }
                    let _removed = es.swap_remove(i);
                    proof {
                        let t = map_view(e0).update(i as int, map_view(e0).last()).drop_last();
                        assert forall|k: int| 0 <= k < es@.len() implies (#[trigger] es@[k].0.view_of(), es@[k].1.view_of()) == t[k] by {
                            if k == i {
                                assert(es@[k] == e0.last());
                            } else {
                                assert(es@[k] == e0[k]);
                            }
                        }
                        lemma_map_view_ext(es@, t);
                    }
                    Yaml::Mapping(es)
                },
                None => Yaml::Mapping(entries),
            }
        },
        other => other,
    }
}

/// The includes of `path` merged in order into an empty mapping (the loop body of
/// loading a file).
fn load_children(
    table: &[SourceFile],
    path: &str,
    incs: &Vec<String>,
    depth: usize,
    visiting: &mut Vec<String>,
) -> (r: Result<Yaml, Diagnostic>)
    requires
        depth < MAX_INCLUDE_DEPTH,
    ensures
        loaded_view(r) == children_spec(
            table@,
            path@,
            strings_view(incs@),
            incs@.len() as nat,
            depth as nat,
            strings_view(old(visiting)@),
        ),
        r is Ok ==> final(visiting)@ == old(visiting)@,
    decreases 8 - depth, incs@.len(),
{
    let ghost iv = strings_view(incs@);
    let ghost vis = strings_view(visiting@);
    let ghost vis0 = visiting@;
    let dir = base_dir(path);
    let mut merged_so_far = Yaml::Mapping(Vec::new());
    let mut k: usize = 0;
    proof {
        assert(map_view(Seq::<(Yaml, Yaml)>::empty()) =~= Seq::<(YamlView, YamlView)>::empty());
    }
    while k < incs.len()
        invariant
            k <= incs@.len() == iv.len(),
            iv == strings_view(incs@),
            depth < MAX_INCLUDE_DEPTH,
            visiting@ == vis0,
            vis0 == old(visiting)@,
            vis == strings_view(vis0),
            dir@ == base_dir_of(path@),
            Ok::<YamlView, DiagView>(merged_so_far.view_of()) == children_spec(table@, path@, iv, k as nat, depth as nat, vis),
        decreases incs@.len() - k,
    {
        let child = join_path(dir.as_str(), incs[k].as_str());
        let found = find_file(table, child.as_str());
        let exists = match found {
            Some(i) => table[i].exists,
            None => false,
        };
        if !exists {
            proof {
                reveal_strlit("included file not found: ");
            }
            let mut msg = String::from_str("included file not found: ");
            msg.append(incs[k].as_str());
            let d = Diagnostic::error(codes::INCLUDE_NOT_FOUND, msg.as_str()).in_file(path);
            proof {
                assert(incs@[k as int]@ == iv[k as int]);
                assert(child@ == joined(base_dir_of(path@), iv[k as int]));
                assert(!exists_in(table@, child@));
                assert(d@ == file_error(codes::INCLUDE_NOT_FOUND, "included file not found: "@ + iv[k as int], path@));
                assert(children_spec(table@, path@, iv, (k + 1) as nat, depth as nat, vis) == Err::<YamlView, DiagView>(d@));
                lemma_children_error_stays(
                    table@,
                    path@,
                    iv,
                    (k + 1) as nat,
                    iv.len(),
                    depth as nat,
                    vis,
                );
            }
            return Err(d);
        }
        let c = load_recursive(table, child.as_str(), depth + 1, visiting);
        match c {
            Err(d) => {
                proof {
                    assert(incs@[k as int]@ == iv[k as int]);
                    assert(children_spec(table@, path@, iv, (k + 1) as nat, depth as nat, vis) == Err::<YamlView, DiagView>(d@));
                    lemma_children_error_stays(
                        table@,
                        path@,
                        iv,
                        (k + 1) as nat,
                        iv.len(),
                        depth as nat,
                        vis,
                    );
                }
                return Err(d);
            },
            Ok(c) => {
                merged_so_far = merged(merged_so_far, c);
            },
        }
        k = k + 1;
    }
    Ok(merged_so_far)
}

/// Loading one file of the include graph (see `load_spec`).
fn load_recursive(table: &[SourceFile], path: &str, depth: usize, visiting: &mut Vec<String>) -> (r: Result<Yaml, Diagnostic>)
    ensures
        loaded_view(r) == load_spec(table@, path@, depth as nat, strings_view(old(visiting)@)),
        r is Ok ==> final(visiting)@ == old(visiting)@,
    decreases 9 - depth, 0nat,
{
    if depth >= MAX_INCLUDE_DEPTH {
        proof {
            reveal_strlit("include depth exceeds the limit of ");
        }
        let mut msg = String::from_str("include depth exceeds the limit of ");
        append_decimal(&mut msg, MAX_INCLUDE_DEPTH as u64);
        return Err(Diagnostic::error(codes::INCLUDE_TOO_DEEP, msg.as_str()).in_file(path));
    }
    let found = find_file(table, path);
    let canonical = match found {
        Some(i) => table[i].canonical.clone(),
        None => String::from_str(path),
    };
    if contains_string(visiting, canonical.as_str()) {
        proof {
            reveal_strlit("include cycle detected at ");
        }
        let mut msg = String::from_str("include cycle detected at ");
        msg.append(path);
        return Err(Diagnostic::error(codes::INCLUDE_CYCLE, msg.as_str()).in_file(path));
    }
    match found {
        None => {
            proof {
                reveal_strlit("cannot read ");
                reveal_strlit(": ");
            }
            let mut msg = String::from_str("cannot read ");
            msg.append(path);
            msg.append(": ");
            Err(Diagnostic::error(codes::INCLUDE_NOT_FOUND, msg.as_str()).in_file(path))
        },
        Some(i) => match &table[i].read {
            SourceRead::Unreadable(e) => {
                proof {
                    reveal_strlit("cannot read ");
                    reveal_strlit(": ");
                }
                let mut msg = String::from_str("cannot read ");
                msg.append(path);
                msg.append(": ");
                msg.append(e.as_str());
                Err(Diagnostic::error(codes::INCLUDE_NOT_FOUND, msg.as_str()).in_file(path))
            },
            SourceRead::Invalid(e) => {
                proof {
                    reveal_strlit("invalid YAML: ");
                }
                let mut msg = String::from_str("invalid YAML: ");
                msg.append(e.as_str());
                Err(Diagnostic::error(codes::YAML_SYNTAX, msg.as_str()).in_file(path))
            },
            SourceRead::Parsed(own) => {
                let incs = include_list(own);
                proof {
                    assert(strings_view(incs@) =~= include_list_spec(own.view_of()));
                }
                let ghost v0 = visiting@;
                visiting.push(canonical);
                proof {
                    assert(strings_view(visiting@) =~= strings_view(v0).push(canonical_of(table@, path@)));
                }
                let children = load_children(table, path, &incs, depth, visiting);
                match children {
                    Err(d) => Err(d),
                    Ok(m) => {
                        visiting.pop();
                        proof {
                            assert(visiting@ =~= v0);
                        }
                        let whole = merged(m, own.duplicate());
                        Ok(remove_includes(whole))
                    },
                }
            },
        },
    }
}

/// Loads the scenario at `path` from the files in `table` (which holds every
/// file the include graph reaches, as the caller read them), merging everything
/// it includes, recursively, and removing the `includes:` key. The including file
/// always wins over what it includes; among several includes, a later one wins
/// over an earlier one; `timeline:` sequences concatenate (includes first).
pub fn load_merged(path: &str, table: &[SourceFile]) -> (r: Result<Yaml, Diagnostic>)
    ensures
        loaded_view(r) == load_spec(table@, path@, 0, Seq::empty()),
{
    let mut visiting: Vec<String> = Vec::new();
    proof {
        assert(strings_view(visiting@) =~= Seq::<Seq<char>>::empty());
    }
    load_recursive(table, path, 0, &mut visiting)
}

/// Where the file named `name` in the `includes:` of the file at `path` lives:
/// `name` taken relative to that file's directory.
pub fn include_path(path: &str, name: &str) -> (r: String)
    ensures
        r@ == joined(base_dir_of(path@), name@),
{
    let dir = base_dir(path);
    join_path(dir.as_str(), name)
}

/// The value of the first entry keyed `key`.
pub open spec fn lookup(es: Seq<(YamlView, YamlView)>, key: YamlView) -> Option<YamlView> {
    match key_index(es, key) {
        Some(i) => Some(es[i].1),
        None => None,
    }
}

/// What a key holds after merging: the overlay's value where only the overlay
/// has the key, the base's where only the base has it, and where both have it
/// the two merged (concatenated for `timeline`, key by key for mappings, the
/// overlay's otherwise).
pub open spec fn merged_value(key: YamlView, base: Option<YamlView>, overlay: Option<YamlView>) -> Option<YamlView> {
    match (base, overlay) {
        (None, None) => None,
        (Some(b), None) => Some(b),
        (None, Some(o)) => Some(o),
        (Some(b), Some(o)) => Some(
            if as_str_view(key) == Some("timeline"@) {
                merge_timeline(b, o)
            } else {
                merge_view(b, o)
            },
        ),
    }
}

proof fn lemma_key_index_push(es: Seq<(YamlView, YamlView)>, e: (YamlView, YamlView), key: YamlView)
    ensures
        key_index(es.push(e), key) == match key_index(es, key) {
            Some(i) => Some(i),
            None => if e.0 == key {
                Some(es.len() as int)
            } else {
                None
            },
        },
{
    assert(es.push(e).drop_last() =~= es);
}

proof fn lemma_key_index_update(es: Seq<(YamlView, YamlView)>, j: int, v: YamlView, key: YamlView)
    requires
        0 <= j < es.len(),
    ensures
        key_index(es.update(j, (es[j].0, v)), key) == key_index(es, key),
    decreases es.len(),
{
    let u = es.update(j, (es[j].0, v));
    if j == es.len() - 1 {
        assert(u.drop_last() =~= es.drop_last());
    } else {
        assert(u.drop_last() =~= es.drop_last().update(j, (es[j].0, v)));
        lemma_key_index_update(es.drop_last(), j, v, key);
    }
}

/// Merging an overlay mapping into a base mapping, key by key: each key of the
/// result holds `merged_value` of what the base and the overlay hold under it.
/// The overlay's keys are taken to be distinct, as a mapping's are.
pub proof fn lemma_merge_entries_lookup(
    bm: Seq<(YamlView, YamlView)>,
    om: Seq<(YamlView, YamlView)>,
    n: nat,
    key: YamlView,
)
    requires
        n <= om.len(),
        forall|i: int, j: int| 0 <= i < j < om.len() ==> om[i].0 != om[j].0,
    ensures
        lookup(merge_entries(bm, om, n), key) == merged_value(key, lookup(bm, key), lookup(om.take(n as int), key)),
    decreases n,
{
    if n == 0 {
        assert(om.take(0) =~= Seq::<(YamlView, YamlView)>::empty());
    } else {
        let b1 = merge_entries(bm, om, (n - 1) as nat);
        lemma_merge_entries_lookup(bm, om, (n - 1) as nat, key);
        let k = om[n - 1].0;
        let ov = om[n - 1].1;
        assert(om.take(n as int) =~= om.take(n - 1).push(om[n - 1]));
        lemma_key_index_push(om.take(n - 1), om[n - 1], key);
        lemma_key_index(om.take(n - 1), k);
        if key_index(om.take(n - 1), k) is Some {
            let i = key_index(om.take(n - 1), k).unwrap();
            assert(om.take(n - 1)[i] == om[i]);
            assert(false);
        }
        let t1 = om.take(n - 1);
        let tn = om.take(n as int);
        lemma_key_index(b1, key);
        lemma_key_index(b1, k);
        lemma_key_index(tn, key);
        lemma_key_index(t1, key);
        if key != k {
            assert(key_index(tn, key) == key_index(t1, key));
            if let Some(i) = key_index(t1, key) {
                assert(tn[i] == t1[i]);
            }
            assert(lookup(tn, key) == lookup(t1, key));
        } else {
            assert(key_index(t1, key) is None);
            assert(key_index(tn, key) == Some((n - 1) as int));
            assert(tn[n - 1] == om[n - 1]);
            assert(lookup(tn, key) == Some(ov));
        }
        match key_index(b1, k) {
            Some(j) => {
                let v = if as_str_view(k) == Some("timeline"@) {
                    merge_timeline(b1[j].1, ov)
                } else {
                    merge_view(b1[j].1, ov)
                };
                let r = b1.update(j, (b1[j].0, v));
                assert(merge_entries(bm, om, n) == r);
                lemma_key_index_update(b1, j, v, key);
                if key == k {
                    assert(lookup(r, key) == Some(v));
                    assert(lookup(b1, key) == Some(b1[j].1));
                } else {
                    if let Some(i) = key_index(b1, key) {
                        assert(i != j);
                        assert(r[i] == b1[i]);
                    }
                    assert(lookup(r, key) == lookup(b1, key));
                }
            },
            None => {
                let r = b1.push((k, ov));
                assert(merge_entries(bm, om, n) == r);
                lemma_key_index_push(b1, (k, ov), key);
                if key == k {
                    assert(lookup(r, key) == Some(ov));
                    assert(lookup(b1, key) is None);
                } else {
                    if let Some(i) = key_index(b1, key) {
                        assert(r[i] == b1[i]);
                    }
                    assert(lookup(r, key) == lookup(b1, key));
                }
            },
        }
    }
}

/// Includes merge key by key: in the merge of an overlay mapping (the including
/// file, or a later include) into a base mapping (what came before), each key
/// holds the overlay's value where only the overlay sets it, the base's where
/// only the base does, and where both do their merge: `timeline` sequences
/// concatenate base first, mappings merge recursively, and any other overlay
/// value replaces the base's.
pub proof fn lemma_overlay_merges_key_by_key(
    bm: Seq<(YamlView, YamlView)>,
    om: Seq<(YamlView, YamlView)>,
    key: YamlView,
)
    requires
        forall|i: int, j: int| 0 <= i < j < om.len() ==> om[i].0 != om[j].0,
    ensures
        merge_view(YamlView::Mapping(bm), YamlView::Mapping(om)) == YamlView::Mapping(
            merge_entries(bm, om, om.len()),
        ),
        lookup(merge_entries(bm, om, om.len()), key) == merged_value(key, lookup(bm, key), lookup(om, key)),
{
    lemma_merge_entries_lookup(bm, om, om.len(), key);
    assert(om.take(om.len() as int) =~= om);
}

} // verus!
