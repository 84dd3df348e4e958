//! Variables: `{{ name }}` placeholders in string values, filled from the
//! `variables:` mapping and a few built-ins.
use crate::codes;
use crate::diag::{code_of, error_view, hinted, opt_view, DiagView, Diagnostic};
use crate::text::{
    append_i64, decimal, decimal_string, signed_decimal, slice_range, str_chars, str_eq,
    string_from_chars, trim_chars, trimmed,
};
use crate::yaml::{
    as_str_view, as_u64_view, get_view, lemma_entries_view, lemma_items_view, lemma_map_view_ext,
    lemma_seq_view_ext, map_view, seq_view, Yaml, YamlView,
};
use vstd::prelude::*;

verus! {

/// The variables in scope, in the order they were set; a later setting of a name
/// replaces an earlier one.
#[derive(Debug)]
pub struct Variables {
    entries: Vec<(String, String)>,
}

/// The settings as a map, later ones winning.
pub open spec fn settings_map(s: Seq<(String, String)>) -> Map<Seq<char>, Seq<char>>
    decreases s.len(),
{
    if s.len() == 0 {
        Map::empty()
    } else {
        settings_map(s.drop_last()).insert(s.last().0@, s.last().1@)
    }
}

impl View for Variables {
    type V = Map<Seq<char>, Seq<char>>;

    closed spec fn view(&self) -> Map<Seq<char>, Seq<char>> {
        settings_map(self.entries@)
    }
}

impl Variables {
    pub fn new() -> (v: Variables)
        ensures
            v@ == Map::<Seq<char>, Seq<char>>::empty(),
    {
        Variables { entries: Vec::new() }
    }

    /// Sets `name` to `value`, replacing any earlier value.
    pub fn insert(&mut self, name: String, value: String)
        ensures
            final(self)@ == old(self)@.insert(name@, value@),
    {
        let ghost e0 = self.entries@;
        self.entries.push((name, value));
        proof {
            assert(self.entries@.drop_last() =~= e0);
        }
    }

    /// The value of `name`, if it is set.
    pub fn get(&self, name: &str) -> (r: Option<&str>)
        ensures
            match r {
                Some(v) => self@.contains_key(name@) && self@[name@] == v@,
                None => !self@.contains_key(name@),
            },
    {
        let mut i: usize = self.entries.len();
        while i > 0
            invariant
                i <= self.entries@.len(),
                forall|k: int| i <= k < self.entries@.len() ==> #[trigger] self.entries@[k].0@ != name@,
            decreases i,
        {
            if str_eq(self.entries[i - 1].0.as_str(), name) {
                proof {
                    lemma_settings_last_match(self.entries@, i as int, name@);
                }
                return Some(self.entries[i - 1].1.as_str());
            }
            i = i - 1;
        }
        proof {
            lemma_settings_absent(self.entries@, name@);
        }
        None
    }
}

/// When no later setting names `key`, the last setting at or before `i` decides.
proof fn lemma_settings_last_match(s: Seq<(String, String)>, i: int, key: Seq<char>)
    requires
        0 < i <= s.len(),
        s[i - 1].0@ == key,
        forall|k: int| i <= k < s.len() ==> #[trigger] s[k].0@ != key,
    ensures
        settings_map(s).contains_key(key),
        settings_map(s)[key] == s[i - 1].1@,
    decreases s.len() - i,
{
    if i == s.len() {
    } else {
        lemma_settings_last_match(s.drop_last(), i, key);
        assert(forall|k: int| i <= k < s.drop_last().len() ==> #[trigger] s.drop_last()[k] == s[k]);
        assert(s.drop_last()[i - 1] == s[i - 1]);
    }
}

/// A name no setting mentions is not set.
proof fn lemma_settings_absent(s: Seq<(String, String)>, key: Seq<char>)
    requires
        forall|k: int| 0 <= k < s.len() ==> #[trigger] s[k].0@ != key,
    ensures
        !settings_map(s).contains_key(key),
    decreases s.len(),
{
    if s.len() > 0 {
        assert(forall|k: int| 0 <= k < s.drop_last().len() ==> #[trigger] s.drop_last()[k] == s[k]);
        lemma_settings_absent(s.drop_last(), key);
    }
}

/// The first position at or after `i` where `a` is followed by `b`.
pub open spec fn find_pair(s: Seq<char>, a: char, b: char, i: int) -> Option<int>
    decreases s.len() - i,
{
    if i < 0 || i + 1 >= s.len() {
        None
    } else if s[i] == a && s[i + 1] == b {
        Some(i)
    } else {
        find_pair(s, a, b, i + 1)
    }
}

pub proof fn lemma_find_pair(s: Seq<char>, a: char, b: char, i: int)
    requires
        0 <= i,
    ensures
        match find_pair(s, a, b, i) {
            Some(j) => i <= j && j + 1 < s.len() && s[j] == a && s[j + 1] == b,
            None => true,
        },
    decreases s.len() - i,
{
    if i + 1 < s.len() && !(s[i] == a && s[i + 1] == b) {
        lemma_find_pair(s, a, b, i + 1);
    }
}

/// Expanding the placeholders of `s` from position `i` on: each `{{ name }}` is
/// replaced by the variable's value (the name trimmed); an opening `{{` with no
/// closing `}}` after it leaves the rest as it is; an unset name is the error.
pub open spec fn expand_from(s: Seq<char>, i: int, vars: Map<Seq<char>, Seq<char>>) -> Result<Seq<char>, Seq<char>>
    decreases s.len() - i,
{
    if i < 0 || i > s.len() {
        Ok(Seq::empty())
    } else {
        match find_pair(s, '{', '{', i) {
            None => Ok(s.subrange(i, s.len() as int)),
            Some(open) => match find_pair(s, '}', '}', open) {
                None => Ok(s.subrange(i, s.len() as int)),
                Some(close) => {
                    proof {
                        lemma_find_pair(s, '{', '{', i);
                        lemma_find_pair(s, '}', '}', open);
                    }
                    let name = trimmed(s.subrange(open + 2, close));
                    if !vars.contains_key(name) {
                        Err(name)
                    } else {
                        match expand_from(s, close + 2, vars) {
                            Ok(rest) => Ok(s.subrange(i, open) + vars[name] + rest),
                            Err(n) => Err(n),
                        }
                    }
                },
            },
        }
    }
}

/// The error for an unset variable.
pub open spec fn undefined_diag(name: Seq<char>) -> DiagView {
    hinted(
        error_view(code_of(codes::UNDEFINED_VARIABLE), "undefined variable `"@ + name + "`"@),
        "Declare it under `variables:`:\n\nvariables:\n  "@ + name + ": <value>"@,
    )
}

pub fn undefined_variable(name: &str) -> (d: Diagnostic)
    ensures
        d@ == undefined_diag(name@),
{
    proof {
        reveal_strlit("undefined variable `");
        reveal_strlit("`");
        reveal_strlit("Declare it under `variables:`:\n\nvariables:\n  ");
        reveal_strlit(": <value>");
    }
    let mut msg = String::from_str("undefined variable `");
    msg.append(name);
    msg.append("`");
    let mut hint = String::from_str("Declare it under `variables:`:\n\nvariables:\n  ");
    hint.append(name);
    hint.append(": <value>");
    Diagnostic::error(codes::UNDEFINED_VARIABLE, msg.as_str()).with_hint(hint.as_str())
}

fn find_pair_exec(s: &[char], a: char, b: char, i: usize) -> (r: Option<usize>)
    ensures
        match r {
            Some(j) => find_pair(s@, a, b, i as int) == Some(j as int) && i <= j && j + 1 < s@.len(),
            None => find_pair(s@, a, b, i as int) is None,
        },
    decreases s@.len() - i,
{
    if i >= s.len() || i + 1 >= s.len() {
        None
    } else if s[i] == a && s[i + 1] == b {
        Some(i)
    } else {
        find_pair_exec(s, a, b, i + 1)
    }
}

fn expand_chars(s: &[char], i: usize, vars: &Variables) -> (r: Result<Vec<char>, String>)
    requires
        i <= s@.len(),
    ensures
        match r {
            Ok(v) => expand_from(s@, i as int, vars@) == Ok::<Seq<char>, Seq<char>>(v@),
            Err(n) => expand_from(s@, i as int, vars@) == Err::<Seq<char>, Seq<char>>(n@),
        },
    decreases s@.len() - i,
{
    proof {
        lemma_find_pair(s@, '{', '{', i as int);
    }
    match find_pair_exec(s, '{', '{', i) {
        None => Ok(slice_range(s, i, s.len())),
        Some(open) => {
            proof {
                lemma_find_pair(s@, '}', '}', open as int);
            }
            match find_pair_exec(s, '}', '}', open) {
                None => Ok(slice_range(s, i, s.len())),
                Some(close) => {
                    let n = s.len();
                    assert(open <= close && close + 1 < n);
                    let inner = slice_range(s, open + 2, close);
                    let name_chars = trim_chars(inner.as_slice());
                    let name = string_from_chars(name_chars.as_slice());
                    match vars.get(name.as_str()) {
                        None => Err(name),
                        Some(value) => {
                            match expand_chars(s, close + 2, vars) {
                                Err(n) => Err(n),
                                Ok(rest) => {
                                    let mut out = slice_range(s, i, open);
                                    let vc = str_chars(value);
                                    let ghost o0 = out@;
                                    let mut k: usize = 0;
                                    while k < vc.len()
                                        invariant
                                            k <= vc@.len(),
                                            out@ == o0 + vc@.subrange(0, k as int),
                                        decreases vc@.len() - k,
                                    {
                                        out.push(vc[k]);
                                        k = k + 1;
                                        proof {
                                            assert(out@ =~= o0 + vc@.subrange(0, k as int));
                                        }
                                    }
                                    let ghost o1 = out@;
                                    let mut m: usize = 0;
                                    while m < rest.len()
                                        invariant
                                            m <= rest@.len(),
                                            out@ == o1 + rest@.subrange(0, m as int),
                                        decreases rest@.len() - m,
                                    {
                                        out.push(rest[m]);
                                        m = m + 1;
                                        proof {
                                            assert(out@ =~= o1 + rest@.subrange(0, m as int));
                                        }
                                    }
                                    proof {
                                        assert(vc@.subrange(0, vc@.len() as int) =~= vc@);
                                        assert(rest@.subrange(0, rest@.len() as int) =~= rest@);
                                    }
                                    Ok(out)
                                },
                            }
                        },
                    }
                },
            }
        },
    }
}

/// The placeholders of `input` filled in, or the error for the first unset name.
pub fn expand(input: &str, vars: &Variables) -> (r: Result<String, Diagnostic>)
    ensures
        match r {
            Ok(s) => expand_from(input@, 0, vars@) == Ok::<Seq<char>, Seq<char>>(s@),
            Err(d) => expand_from(input@, 0, vars@) matches Err(n) && d@ == undefined_diag(n),
        },
{
    let chars = str_chars(input);
    match expand_chars(chars.as_slice(), 0, vars) {
        Ok(v) => Ok(string_from_chars(v.as_slice())),
        Err(n) => Err(undefined_variable(n.as_str())),
    }
}

/// How a scalar variable value is written out: strings as they are, numbers in
/// decimal (floats as they display), booleans as `true` / `false`; other values
/// give nothing.
pub open spec fn render_scalar(v: YamlView) -> Option<Seq<char>> {
    match v {
        YamlView::Str(s) => Some(s),
        YamlView::PosInt(n) => Some(decimal(n as nat)),
        YamlView::NegInt(n) => Some(signed_decimal(n as int)),
        YamlView::Float(_, t) => Some(t),
        YamlView::Bool(b) => Some(
            if b {
                "true"@
            } else {
                "false"@
            },
        ),
        _ => None,
    }
}

/// The entries of a `variables:` mapping set in order over `m`: those with a
/// string key and a scalar value.
pub open spec fn user_settings(es: Seq<(YamlView, YamlView)>, m: Map<Seq<char>, Seq<char>>) -> Map<Seq<char>, Seq<char>>
    decreases es.len(),
{
    if es.len() == 0 {
        m
    } else {
        let m1 = user_settings(es.drop_last(), m);
        match (as_str_view(es.last().0), render_scalar(es.last().1)) {
            (Some(k), Some(v)) => m1.insert(k, v),
            _ => m1,
        }
    }
}

/// The built-in `scene.name`, `canvas.width` and `canvas.height`, then the
/// `variables:` mapping, whose entries win.
pub open spec fn collect_spec(v: YamlView) -> Map<Seq<char>, Seq<char>> {
    let m0 = Map::<Seq<char>, Seq<char>>::empty();
    let m1 = match get_view(v, "metadata"@) {
        Some(md) => match get_view(md, "name"@) {
            Some(n) => match as_str_view(n) {
                Some(s) => m0.insert("scene.name"@, s),
                None => m0,
            },
            None => m0,
        },
        None => m0,
    };
    let m2 = match get_view(v, "canvas"@) {
        Some(c) => {
            let a = match get_view(c, "width"@) {
                Some(w) => match as_u64_view(w) {
                    Some(n) => m1.insert("canvas.width"@, decimal(n as nat)),
                    None => m1,
                },
                None => m1,
            };
            match get_view(c, "height"@) {
                Some(h) => match as_u64_view(h) {
                    Some(n) => a.insert("canvas.height"@, decimal(n as nat)),
                    None => a,
                },
                None => a,
            }
        },
        None => m1,
    };
    match get_view(v, "variables"@) {
        Some(YamlView::Mapping(es)) => user_settings(es, m2),
        _ => m2,
    }
}

fn render(v: &Yaml) -> (r: Option<String>)
    ensures
        opt_view(r) == render_scalar(v.view_of()),
{
    proof {
        reveal_strlit("true");
        reveal_strlit("false");
    }
    match v {
        Yaml::Str(s) => Some(s.clone()),
        Yaml::PosInt(n) => Some(decimal_string(*n)),
        Yaml::NegInt(n) => {
            let mut s = String::new();
            append_i64(&mut s, *n);
            proof {
                assert(s@ =~= signed_decimal(*n as int));
            }
            Some(s)
        },
        Yaml::Float(_, t) => Some(t.clone()),
        Yaml::Bool(b) => Some(
            if *b {
                String::from_str("true")
            } else {
                String::from_str("false")
            },
        ),
        _ => None,
    }
}

/// Gathers the `variables:` mapping plus the built-ins. User entries win.
pub fn collect(value: &Yaml) -> (vars: Variables)
    ensures
        vars@ == collect_spec(value.view_of()),
{
    proof {
        reveal_strlit("metadata");
        reveal_strlit("name");
        reveal_strlit("scene.name");
        reveal_strlit("canvas");
        reveal_strlit("width");
        reveal_strlit("height");
        reveal_strlit("canvas.width");
        reveal_strlit("canvas.height");
        reveal_strlit("variables");
    }
    let mut vars = Variables::new();
    match value.get("metadata") {
        Some(md) => match md.get("name") {
            Some(n) => match n.as_str() {
                Some(s) => vars.insert(String::from_str("scene.name"), String::from_str(s)),
                None => {},
            },
            None => {},
        },
        None => {},
    }
    match value.get("canvas") {
        Some(c) => {
            match c.get("width") {
                Some(w) => match w.as_u64() {
                    Some(n) => vars.insert(String::from_str("canvas.width"), decimal_string(n)),
                    None => {},
                },
                None => {},
            }
            match c.get("height") {
                Some(h) => match h.as_u64() {
                    Some(n) => vars.insert(String::from_str("canvas.height"), decimal_string(n)),
                    None => {},
                },
                None => {},
            }
        },
        None => {},
    }
    let ghost m2 = vars@;
    match value.get("variables") {
        Some(Yaml::Mapping(entries)) => {
            let ghost es = map_view(entries@);
            proof {
                lemma_entries_view(entries@, entries@.len());
                assert(es.take(0) =~= Seq::<(YamlView, YamlView)>::empty());
            }
            let mut i: usize = 0;
            while i < entries.len()
                invariant
                    i <= entries@.len() == es.len(),
                    es == map_view(entries@),
                    forall|k: int|
                        0 <= k < es.len() ==> #[trigger] es[k] == (
                            entries@[k].0.view_of(),
                            entries@[k].1.view_of(),
                        ),
                    vars@ == user_settings(es.take(i as int), m2),
                decreases entries@.len() - i,
            {
                proof {
                    assert(es.take(i + 1).drop_last() =~= es.take(i as int));
                    assert(es.take(i + 1).last() == es[i as int]);
                }
                match entries[i].0.as_str() {
                    Some(k) => match render(&entries[i].1) {
                        Some(v) => vars.insert(String::from_str(k), v),
                        None => {},
                    },
                    None => {},
                }
                i = i + 1;
            }
            proof {
                assert(es.take(i as int) =~= es);
            }
        },
        _ => {},
    }
    vars
}

/// Filling the placeholders of every string in a document (mapping keys are left
/// alone, as are tagged values); the first unset name, in document order, is the
/// error.
pub open spec fn subst_spec(v: YamlView, vars: Map<Seq<char>, Seq<char>>) -> Result<YamlView, Seq<char>>
    decreases v, 0nat,
{
    match v {
        YamlView::Str(s) => match expand_from(s, 0, vars) {
            Ok(r) => Ok(YamlView::Str(r)),
            Err(n) => Err(n),
        },
        YamlView::Sequence(items) => match subst_items(items, vars, items.len()) {
            Ok(xs) => Ok(YamlView::Sequence(xs)),
            Err(n) => Err(n),
        },
        YamlView::Mapping(es) => match subst_values(es, vars, es.len()) {
            Ok(xs) => Ok(YamlView::Mapping(xs)),
            Err(n) => Err(n),
        },
        _ => Ok(v),
    }
}

/// The first `n` items with their placeholders filled.
pub open spec fn subst_items(items: Seq<YamlView>, vars: Map<Seq<char>, Seq<char>>, n: nat) -> Result<Seq<YamlView>, Seq<char>>
    decreases items, n,
{
    if n == 0 || n > items.len() {
        Ok(Seq::empty())
    } else {
        match subst_items(items, vars, (n - 1) as nat) {
            Err(e) => Err(e),
            Ok(xs) => match subst_spec(items[n - 1], vars) {
                Ok(x) => Ok(xs.push(x)),
                Err(e) => Err(e),
            },
        }
    }
}

/// The first `n` entries with the placeholders of their values filled.
pub open spec fn subst_values(es: Seq<(YamlView, YamlView)>, vars: Map<Seq<char>, Seq<char>>, n: nat) -> Result<Seq<(YamlView, YamlView)>, Seq<char>>
    decreases es, n,
{
    if n == 0 || n > es.len() {
        Ok(Seq::empty())
    } else {
        match subst_values(es, vars, (n - 1) as nat) {
            Err(e) => Err(e),
            Ok(xs) => match subst_spec(es[n - 1].1, vars) {
                Ok(x) => Ok(xs.push((es[n - 1].0, x))),
                Err(e) => Err(e),
            },
        }
    }
}

pub open spec fn subst_result_view(r: Result<Yaml, String>) -> Result<YamlView, Seq<char>> {
    match r {
        Ok(y) => Ok(y.view_of()),
        Err(n) => Err(n@),
    }
}

proof fn lemma_items_error_stays(items: Seq<YamlView>, vars: Map<Seq<char>, Seq<char>>, k: nat, n: nat)
    requires
        k <= n <= items.len(),
        subst_items(items, vars, k) is Err,
    ensures
        subst_items(items, vars, n) == subst_items(items, vars, k),
    decreases n - k,
{
    if k < n {
        lemma_items_error_stays(items, vars, k, (n - 1) as nat);
    }
}

proof fn lemma_values_error_stays(es: Seq<(YamlView, YamlView)>, vars: Map<Seq<char>, Seq<char>>, k: nat, n: nat)
    requires
        k <= n <= es.len(),
        subst_values(es, vars, k) is Err,
    ensures
        subst_values(es, vars, n) == subst_values(es, vars, k),
    decreases n - k,
{
    if k < n {
        lemma_values_error_stays(es, vars, k, (n - 1) as nat);
    }
}

/// `v` with its placeholders filled, or the first unset name.
#[verifier::loop_isolation(false)]
fn substituted(v: Yaml, vars: &Variables) -> (r: Result<Yaml, String>)
    ensures
        subst_result_view(r) == subst_spec(v.view_of(), vars@),
    decreases v,
{
    match v {
        Yaml::Str(s) => {
            let chars = str_chars(s.as_str());
            match expand_chars(chars.as_slice(), 0, vars) {
                Ok(out) => Ok(Yaml::Str(string_from_chars(out.as_slice()))),
                Err(n) => Err(n),
            }
        },
        Yaml::Sequence(items) => {
            let ghost it0 = items@;
            let ghost iv = seq_view(items@);
            proof {
                lemma_items_view(items@, items@.len());
                assert(it0.subrange(0, it0.len() as int) =~= it0);
            }
            let n = items.len();
            let mut rest = items;
            let mut out: Vec<Yaml> = Vec::new();
            let mut i: usize = 0;
            while i < n
                invariant
                    i <= n == it0.len() == iv.len(),
                    rest@ == it0.subrange(i as int, n as int),
                    subst_items(iv, vars@, i as nat) == Ok::<Seq<YamlView>, Seq<char>>(seq_view(out@)),
                decreases n - i,
            {
                let item = rest.remove(0);
                proof {
                    assert(item == it0[i as int]);
                    assert(rest@ =~= it0.subrange(i + 1, n as int));
                    assert(iv[i as int] == item.view_of());
                }
                let ghost o0 = out@;
                match substituted(item, vars) {
                    Ok(x) => {
                        out.push(x);
                        proof {
                            lemma_items_view(o0, o0.len());
                            lemma_seq_view_ext(out@, seq_view(o0).push(x.view_of()));
                        }
                    },
                    Err(e) => {
                        proof {
                            lemma_items_error_stays(iv, vars@, (i + 1) as nat, n as nat);
                        }
                        return Err(e);
                    },
                }
                i = i + 1;
            }
            Ok(Yaml::Sequence(out))
        },
        Yaml::Mapping(entries) => {
            let ghost e0 = entries@;
            let ghost ev = map_view(entries@);
            proof {
                lemma_entries_view(entries@, entries@.len());
                assert(e0.subrange(0, e0.len() as int) =~= e0);
            }
            let n = entries.len();
            let mut rest = entries;
            let mut out: Vec<(Yaml, Yaml)> = Vec::new();
            let mut i: usize = 0;
            while i < n
                invariant
                    i <= n == e0.len() == ev.len(),
                    rest@ == e0.subrange(i as int, n as int),
                    subst_values(ev, vars@, i as nat) == Ok::<Seq<(YamlView, YamlView)>, Seq<char>>(
                        map_view(out@),
                    ),
                decreases n - i,
            {
                let entry = rest.remove(0);
                proof {
                    assert(entry == e0[i as int]);
                    assert(rest@ =~= e0.subrange(i + 1, n as int));
                    assert(ev[i as int] == (entry.0.view_of(), entry.1.view_of()));
                }
                let (k, val) = entry;
                let ghost o0 = out@;
                match substituted(val, vars) {
                    Ok(x) => {
                        out.push((k, x));
                        proof {
                            lemma_entries_view(o0, o0.len());
                            lemma_map_view_ext(out@, map_view(o0).push((k.view_of(), x.view_of())));
                        }
                    },
                    Err(e) => {
                        proof {
                            lemma_values_error_stays(ev, vars@, (i + 1) as nat, n as nat);
                        }
                        return Err(e);
                    },
                }
                i = i + 1;
            }
            Ok(Yaml::Mapping(out))
        },
        other => Ok(other),
    }
}

/// Replaces every `{{ name }}` in every string scalar. Mapping keys are left
/// untouched: interpolating a key could silently rename a configuration field.
/// On an unset name the value is left as it was.
pub fn substitute(value: &mut Yaml, vars: &Variables) -> (r: Result<(), Diagnostic>)
    ensures
        match subst_spec(old(value).view_of(), vars@) {
            Ok(v) => r is Ok && final(value).view_of() == v,
            Err(n) => r matches Err(d) && d@ == undefined_diag(n) && final(value).view_of() == old(
                value,
            ).view_of(),
        },
{
    let copy = value.duplicate();
    match substituted(copy, vars) {
        Ok(v) => {
            *value = v;
            Ok(())
        },
        Err(n) => Err(undefined_variable(n.as_str())),
    }
}

/// User variables win: when the `variables:` entries set `key` (the last such
/// entry counts), the gathered variables hold that entry's value whatever the
/// built-ins (`m`) held.
pub proof fn lemma_user_variables_win(es: Seq<(YamlView, YamlView)>, m: Map<Seq<char>, Seq<char>>, i: int, key: Seq<char>)
    requires
        0 <= i < es.len(),
        as_str_view(es[i].0) == Some(key),
        render_scalar(es[i].1) is Some,
        forall|j: int| i < j < es.len() ==> as_str_view(#[trigger] es[j].0) != Some(key),
    ensures
        user_settings(es, m).contains_key(key),
        user_settings(es, m)[key] == render_scalar(es[i].1).unwrap(),
    decreases es.len(),
{
    let last = es.len() - 1;
    if i < last {
        assert forall|j: int| i < j < es.drop_last().len() implies as_str_view(
            #[trigger] es.drop_last()[j].0,
        ) != Some(key) by {
            assert(es.drop_last()[j] == es[j]);
        }
        assert(es.drop_last()[i] == es[i]);
        lemma_user_variables_win(es.drop_last(), m, i, key);
        assert(as_str_view(es[last].0) != Some(key));
    }
}

/// Numeric variables are usable: a `variables:` entry whose key is a string and
/// whose value is a non-negative integer `n` (the last entry for that key) makes
/// the gathered variables map the key to the decimal text of `n`, whatever the
/// built-ins hold.
pub proof fn lemma_integer_variables_are_their_decimal_text(
    v: YamlView,
    es: Seq<(YamlView, YamlView)>,
    i: int,
    key: Seq<char>,
    n: u64,
)
    requires
        get_view(v, "variables"@) == Some(YamlView::Mapping(es)),
        0 <= i < es.len(),
        as_str_view(es[i].0) == Some(key),
        es[i].1 == YamlView::PosInt(n),
        forall|j: int| i < j < es.len() ==> as_str_view(#[trigger] es[j].0) != Some(key),
    ensures
        collect_spec(v).contains_key(key),
        collect_spec(v)[key] == decimal(n as nat),
{
    let m0 = Map::<Seq<char>, Seq<char>>::empty();
    let m1 = match get_view(v, "metadata"@) {
        Some(md) => match get_view(md, "name"@) {
            Some(nm) => match as_str_view(nm) {
                Some(s) => m0.insert("scene.name"@, s),
                None => m0,
            },
            None => m0,
        },
        None => m0,
    };
    let m2 = match get_view(v, "canvas"@) {
        Some(c) => {
            let a = match get_view(c, "width"@) {
                Some(w) => match as_u64_view(w) {
                    Some(k) => m1.insert("canvas.width"@, decimal(k as nat)),
                    None => m1,
                },
                None => m1,
            };
            match get_view(c, "height"@) {
                Some(h) => match as_u64_view(h) {
                    Some(k) => a.insert("canvas.height"@, decimal(k as nat)),
                    None => a,
                },
                None => a,
            }
        },
        None => m1,
    };
    assert(collect_spec(v) == user_settings(es, m2));
    lemma_user_variables_win(es, m2, i, key);
}

} // verus!
