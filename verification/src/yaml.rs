//! A YAML document tree.
use crate::text::str_eq;
use vstd::prelude::*;

verus! {

/// A YAML value: scalars, sequences, and mappings whose entries keep their
/// order.
#[derive(Debug, PartialEq, Eq)]
pub enum Yaml {
    Null,
    Bool(bool),
    /// A non-negative integer.
    PosInt(u64),
    /// A negative integer.
    NegInt(i64),
    /// A floating-point number: its bit pattern and the text it displays as.
    Float(u64, String),
    Str(String),
    Sequence(Vec<Yaml>),
    Mapping(Vec<(Yaml, Yaml)>),
    Tagged(String, Box<Yaml>),
}

/// A YAML value as a mathematical value.
pub enum YamlView {
    Null,
    Bool(bool),
    PosInt(u64),
    NegInt(i64),
    Float(u64, Seq<char>),
    Str(Seq<char>),
    Sequence(Seq<YamlView>),
    Mapping(Seq<(YamlView, YamlView)>),
    Tagged(Seq<char>, Box<YamlView>),
}

/// The views of the first `n` items.
pub open spec fn items_view(s: Seq<Yaml>, n: nat) -> Seq<YamlView>
    decreases s, n,
{
    if n == 0 || n > s.len() {
        Seq::empty()
    } else {
        items_view(s, (n - 1) as nat).push(s[n - 1].view_of())
    }
}

/// The views of the first `n` entries.
pub open spec fn entries_view(s: Seq<(Yaml, Yaml)>, n: nat) -> Seq<(YamlView, YamlView)>
    decreases s, n,
{
    if n == 0 || n > s.len() {
        Seq::empty()
    } else {
        entries_view(s, (n - 1) as nat).push((s[n - 1].0.view_of(), s[n - 1].1.view_of()))
    }
}

impl Yaml {
    pub open spec fn view_of(self) -> YamlView
        decreases self, 0nat,
    {
        match self {
            Yaml::Null => YamlView::Null,
            Yaml::Bool(b) => YamlView::Bool(b),
            Yaml::PosInt(n) => YamlView::PosInt(n),
            Yaml::NegInt(n) => YamlView::NegInt(n),
            Yaml::Float(bits, text) => YamlView::Float(bits, text@),
            Yaml::Str(s) => YamlView::Str(s@),
            Yaml::Sequence(v) => YamlView::Sequence(items_view(v@, v@.len())),
            Yaml::Mapping(v) => YamlView::Mapping(entries_view(v@, v@.len())),
            Yaml::Tagged(t, inner) => YamlView::Tagged(t@, Box::new((*inner).view_of())),
        }
    }
}

/// `items_view` is the item-by-item view.
pub proof fn lemma_items_view(s: Seq<Yaml>, n: nat)
    requires
        n <= s.len(),
    ensures
        items_view(s, n).len() == n,
        forall|i: int| 0 <= i < n ==> #[trigger] items_view(s, n)[i] == s[i].view_of(),
    decreases n,
{
    if n > 0 {
        lemma_items_view(s, (n - 1) as nat);
    }
}

/// `entries_view` is the entry-by-entry view.
pub proof fn lemma_entries_view(s: Seq<(Yaml, Yaml)>, n: nat)
    requires
        n <= s.len(),
    ensures
        entries_view(s, n).len() == n,
        forall|i: int|
            0 <= i < n ==> #[trigger] entries_view(s, n)[i] == (s[i].0.view_of(), s[i].1.view_of()),
    decreases n,
{
    if n > 0 {
        lemma_entries_view(s, (n - 1) as nat);
    }
}

/// The view of a whole sequence of items.
pub open spec fn seq_view(s: Seq<Yaml>) -> Seq<YamlView> {
    items_view(s, s.len())
}

/// The view of a whole sequence of entries.
pub open spec fn map_view(s: Seq<(Yaml, Yaml)>) -> Seq<(YamlView, YamlView)> {
    entries_view(s, s.len())
}

/// Views are taken item by item, so they follow any rearrangement of the items.
pub proof fn lemma_seq_view_ext(s: Seq<Yaml>, t: Seq<YamlView>)
    requires
        s.len() == t.len(),
        forall|i: int| 0 <= i < s.len() ==> #[trigger] s[i].view_of() == t[i],
    ensures
        seq_view(s) == t,
{
    lemma_items_view(s, s.len());
    assert(seq_view(s) =~= t);
}

/// Views are taken entry by entry, so they follow any rearrangement of the entries.
pub proof fn lemma_map_view_ext(s: Seq<(Yaml, Yaml)>, t: Seq<(YamlView, YamlView)>)
    requires
        s.len() == t.len(),
        forall|i: int| 0 <= i < s.len() ==> (#[trigger] s[i].0.view_of(), s[i].1.view_of()) == t[i],
    ensures
        map_view(s) == t,
{
    lemma_entries_view(s, s.len());
    assert(map_view(s) =~= t);
}

/// The value under any tags.
pub open spec fn untag_view(v: YamlView) -> YamlView
    decreases v,
{
    match v {
        YamlView::Tagged(_, inner) => untag_view(*inner),
        _ => v,
    }
}

/// The position of the first entry whose key is `key`.
pub open spec fn key_index(es: Seq<(YamlView, YamlView)>, key: YamlView) -> Option<int>
    decreases es.len(),
{
    if es.len() == 0 {
        None
    } else {
        match key_index(es.drop_last(), key) {
            Some(i) => Some(i),
            None => if es.last().0 == key {
                Some(es.len() - 1)
            } else {
                None
            },
        }
    }
}

pub proof fn lemma_key_index(es: Seq<(YamlView, YamlView)>, key: YamlView)
    ensures
        match key_index(es, key) {
            Some(i) => 0 <= i < es.len() && es[i].0 == key && forall|k: int|
                0 <= k < i ==> #[trigger] es[k].0 != key,
            None => forall|k: int| 0 <= k < es.len() ==> #[trigger] es[k].0 != key,
        },
    decreases es.len(),
{
    if es.len() > 0 {
        lemma_key_index(es.drop_last(), key);
        match key_index(es.drop_last(), key) {
            Some(i) => {
                assert forall|k: int| 0 <= k < i implies #[trigger] es[k].0 != key by {
                    assert(es[k] == es.drop_last()[k]);
                }
                assert(es[i] == es.drop_last()[i]);
            },
            None => {
                assert forall|k: int| 0 <= k < es.len() - 1 implies #[trigger] es[k].0 != key by {
                    assert(es[k] == es.drop_last()[k]);
                }
            },
        }
    }
}

/// `value[key]` for a string key: the entry's value in a (possibly tagged)
/// mapping.
pub open spec fn get_view(v: YamlView, key: Seq<char>) -> Option<YamlView> {
    match untag_view(v) {
        YamlView::Mapping(es) => match key_index(es, YamlView::Str(key)) {
            Some(i) => Some(es[i].1),
            None => None,
        },
        _ => None,
    }
}

pub open spec fn as_u64_view(v: YamlView) -> Option<u64> {
    match untag_view(v) {
        YamlView::PosInt(n) => Some(n),
        _ => None,
    }
}

pub open spec fn as_str_view(v: YamlView) -> Option<Seq<char>> {
    match untag_view(v) {
        YamlView::Str(s) => Some(s),
        _ => None,
    }
}

pub open spec fn as_sequence_view(v: YamlView) -> Option<Seq<YamlView>> {
    match untag_view(v) {
        YamlView::Sequence(items) => Some(items),
        _ => None,
    }
}

impl Yaml {
    /// The value under any tags.
    pub fn untag(&self) -> (r: &Yaml)
        ensures
            r.view_of() == untag_view(self.view_of()),
        decreases self,
    {
        match self {
            Yaml::Tagged(_, inner) => inner.untag(),
            _ => self,
        }
    }

    /// The value stored under a string key of a mapping.
    pub fn get(&self, key: &str) -> (r: Option<&Yaml>)
        ensures
            match r {
                Some(y) => get_view(self.view_of(), key@) == Some(y.view_of()),
                None => get_view(self.view_of(), key@) is None,
            },
    {
        let u = self.untag();
        match u {
            Yaml::Mapping(entries) => {
                let ghost es = map_view(entries@);
                proof {
                    lemma_entries_view(entries@, entries@.len());
                    assert(u.view_of() == YamlView::Mapping(es));
                }
                let mut i: usize = 0;
                while i < entries.len()
                    invariant
                        i <= entries@.len() == es.len(),
                        es == map_view(entries@),
                        u.view_of() == YamlView::Mapping(es),
                        u.view_of() == untag_view(self.view_of()),
                        forall|k: int| 0 <= k < i ==> #[trigger] es[k].0 != YamlView::Str(key@),
                    decreases entries@.len() - i,
                {
                    let hit = match &entries[i].0 {
                        Yaml::Str(s) => str_eq(s.as_str(), key),
                        _ => false,
                    };
                    proof {
                        lemma_entries_view(entries@, entries@.len());
                        lemma_key_index(es, YamlView::Str(key@));
                        assert(es[i as int] == (entries@[i as int].0.view_of(), entries@[i as int].1.view_of()));
                    }
                    if hit {
                        proof {
                            assert(es[i as int].0 == YamlView::Str(key@));
                            assert(key_index(es, YamlView::Str(key@)) == Some(i as int));
                        }
                        return Some(&entries[i].1);
                    }
                    i = i + 1;
                }
                proof {
                    lemma_key_index(es, YamlView::Str(key@));
                }
                None
            },
            _ => None,
        }
    }

    pub fn as_u64(&self) -> (r: Option<u64>)
        ensures
            r == as_u64_view(self.view_of()),
    {
        match self.untag() {
            Yaml::PosInt(n) => Some(*n),
            _ => None,
        }
    }

    pub fn as_str(&self) -> (r: Option<&str>)
        ensures
            match r {
                Some(s) => as_str_view(self.view_of()) == Some(s@),
                None => as_str_view(self.view_of()) is None,
            },
    {
        match self.untag() {
            Yaml::Str(s) => Some(s.as_str()),
            _ => None,
        }
    }
}

impl Yaml {
    /// A copy with the same contents.
    #[verifier::loop_isolation(false)]
    pub fn duplicate(&self) -> (r: Yaml)
        ensures
            r.view_of() == self.view_of(),
        decreases self,
    {
        match self {
            Yaml::Null => Yaml::Null,
            Yaml::Bool(b) => Yaml::Bool(*b),
            Yaml::PosInt(n) => Yaml::PosInt(*n),
            Yaml::NegInt(n) => Yaml::NegInt(*n),
            Yaml::Float(bits, text) => Yaml::Float(*bits, text.clone()),
            Yaml::Str(s) => Yaml::Str(s.clone()),
            Yaml::Sequence(items) => {
                let mut out: Vec<Yaml> = Vec::new();
                let mut i: usize = 0;
                while i < items.len()
                    invariant
                        i <= items@.len(),
                        out@.len() == i,
                        forall|k: int| 0 <= k < i ==> #[trigger] out@[k].view_of() == items@[k].view_of(),
                    decreases items@.len() - i,
                {
                    let c = items[i].duplicate();
                    out.push(c);
                    i = i + 1;
                }
                proof {
                    lemma_items_view(items@, items@.len());
                    lemma_seq_view_ext(out@, seq_view(items@));
                }
                Yaml::Sequence(out)
            },
            Yaml::Mapping(entries) => {
                let mut out: Vec<(Yaml, Yaml)> = Vec::new();
                let mut i: usize = 0;
                while i < entries.len()
                    invariant
                        i <= entries@.len(),
                        out@.len() == i,
                        forall|k: int|
                            0 <= k < i ==> #[trigger] out@[k].0.view_of() == entries@[k].0.view_of()
                                && out@[k].1.view_of() == entries@[k].1.view_of(),
                    decreases entries@.len() - i,
                {
                    let k = entries[i].0.duplicate();
                    let v = entries[i].1.duplicate();
                    out.push((k, v));
                    i = i + 1;
                }
                proof {
                    lemma_entries_view(entries@, entries@.len());
                    lemma_map_view_ext(out@, map_view(entries@));
                }
                Yaml::Mapping(out)
            },
            Yaml::Tagged(tag, inner) => Yaml::Tagged(tag.clone(), Box::new(inner.duplicate())),
        }
    }

    /// Whether two values are equal.
    #[verifier::loop_isolation(false)]
    pub fn same_as(&self, other: &Yaml) -> (r: bool)
        ensures
            r == (self.view_of() == other.view_of()),
        decreases self,
    {
        match (self, other) {
            (Yaml::Null, Yaml::Null) => true,
            (Yaml::Bool(a), Yaml::Bool(b)) => *a == *b,
            (Yaml::PosInt(a), Yaml::PosInt(b)) => *a == *b,
            (Yaml::NegInt(a), Yaml::NegInt(b)) => *a == *b,
            (Yaml::Float(a, ta), Yaml::Float(b, tb)) => *a == *b && str_eq(ta.as_str(), tb.as_str()),
            (Yaml::Str(a), Yaml::Str(b)) => str_eq(a.as_str(), b.as_str()),
            (Yaml::Sequence(xs), Yaml::Sequence(ys)) => {
                proof {
                    lemma_items_view(xs@, xs@.len());
                    lemma_items_view(ys@, ys@.len());
                }
                if xs.len() != ys.len() {
                    return false;
                }
                let mut i: usize = 0;
                while i < xs.len()
                    invariant
                        i <= xs@.len() == ys@.len(),
                        forall|k: int| 0 <= k < i ==> #[trigger] xs@[k].view_of() == ys@[k].view_of(),
                    decreases xs@.len() - i,
                {
                    if !xs[i].same_as(&ys[i]) {
                        proof {
                            lemma_items_view(xs@, xs@.len());
                            lemma_items_view(ys@, ys@.len());
                            assert(seq_view(xs@)[i as int] != seq_view(ys@)[i as int]);
                        }
                        return false;
                    }
                    i = i + 1;
                }
                proof {
                    lemma_seq_view_ext(ys@, seq_view(xs@));
                }
                true
            },
            (Yaml::Mapping(xs), Yaml::Mapping(ys)) => {
                proof {
                    lemma_entries_view(xs@, xs@.len());
                    lemma_entries_view(ys@, ys@.len());
                }
                if xs.len() != ys.len() {
                    return false;
                }
                let mut i: usize = 0;
                while i < xs.len()
                    invariant
                        i <= xs@.len() == ys@.len(),
                        forall|k: int|
                            0 <= k < i ==> #[trigger] xs@[k].0.view_of() == ys@[k].0.view_of()
                                && xs@[k].1.view_of() == ys@[k].1.view_of(),
                    decreases xs@.len() - i,
                {
                    if !xs[i].0.same_as(&ys[i].0) || !xs[i].1.same_as(&ys[i].1) {
                        proof {
                            lemma_entries_view(xs@, xs@.len());
                            lemma_entries_view(ys@, ys@.len());
                            assert(map_view(xs@)[i as int] != map_view(ys@)[i as int]);
                        }
                        return false;
                    }
                    i = i + 1;
                }
                proof {
                    lemma_map_view_ext(ys@, map_view(xs@));
                }
                true
            },
            (Yaml::Tagged(ta, a), Yaml::Tagged(tb, b)) => str_eq(ta.as_str(), tb.as_str()) && a.same_as(b),
            _ => false,
        }
    }
}

/// Replacing one entry replaces its view.
pub proof fn lemma_map_view_update(s: Seq<(Yaml, Yaml)>, j: int, e: (Yaml, Yaml))
    requires
        0 <= j < s.len(),
    ensures
        map_view(s.update(j, e)) == map_view(s).update(j, (e.0.view_of(), e.1.view_of())),
{
    lemma_entries_view(s, s.len());
    lemma_map_view_ext(s.update(j, e), map_view(s).update(j, (e.0.view_of(), e.1.view_of())));
}

/// Appending an entry appends its view.
pub proof fn lemma_map_view_push(s: Seq<(Yaml, Yaml)>, e: (Yaml, Yaml))
    ensures
        map_view(s.push(e)) == map_view(s).push((e.0.view_of(), e.1.view_of())),
{
    lemma_entries_view(s, s.len());
    lemma_map_view_ext(s.push(e), map_view(s).push((e.0.view_of(), e.1.view_of())));
}

/// Concatenating items concatenates their views.
pub proof fn lemma_seq_view_concat(a: Seq<Yaml>, b: Seq<Yaml>)
    ensures
        seq_view(a + b) == seq_view(a) + seq_view(b),
{
    lemma_items_view(a, a.len());
    lemma_items_view(b, b.len());
    assert forall|i: int| 0 <= i < (a + b).len() implies #[trigger] (a + b)[i].view_of() == (seq_view(a) + seq_view(b))[i] by {
        if i < a.len() {
        } else {
            assert((a + b)[i] == b[i - a.len()]);
        }
    }
    lemma_seq_view_ext(a + b, seq_view(a) + seq_view(b));
}

} // verus!
