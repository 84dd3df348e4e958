//! Text styles and the interning table that maps them to small ids.
use crate::color::Color;
use vstd::prelude::*;

verus! {

/// Visual attributes of a run of text. Colors are already resolved to concrete
/// RGBA by the time a style reaches the grid.
#[derive(Debug, Clone, Copy, PartialEq, Eq, Hash, Structural)]
pub struct TextStyle {
    pub fg: Color,
    pub bg: Option<Color>,
    pub bold: bool,
    pub italic: bool,
    pub dim: bool,
    pub underline: bool,
}

/// White text, no background, no attributes.
pub open spec fn default_style() -> TextStyle {
    TextStyle {
        fg: Color { r: 255, g: 255, b: 255, a: 255 },
        bg: None,
        bold: false,
        italic: false,
        dim: false,
        underline: false,
    }
}

impl Default for TextStyle {
    fn default() -> (s: TextStyle)
        ensures
            s == default_style(),
    {
        TextStyle {
            fg: Color::white(),
            bg: None,
            bold: false,
            italic: false,
            dim: false,
            underline: false,
        }
    }
}

/// Index into a `StyleTable`. Kept small so a cell stays cheap to clone.
#[derive(Debug, Clone, Copy, PartialEq, Eq, Hash, Default, Structural)]
pub struct StyleId(pub u16);

impl StyleId {
    /// The id of the default style.
    pub fn default_id() -> (id: StyleId)
        ensures
            id.0 == 0,
    {
        StyleId(0)
    }

    pub fn from_index(index: u16) -> (id: StyleId)
        ensures
            id.0 == index,
    {
        StyleId(index)
    }

    pub fn index(self) -> (i: u16)
        ensures
            i == self.0,
    {
        self.0
    }
}

/// The id a style at position `i` of the table receives.
pub open spec fn id_for_position(i: int) -> u16 {
    if i > u16::MAX {
        u16::MAX
    } else {
        i as u16
    }
}

/// The style an id names in table contents `t`, or the default style.
pub open spec fn style_of(t: Seq<TextStyle>, id: StyleId) -> TextStyle {
    if (id.0 as int) < t.len() {
        t[id.0 as int]
    } else {
        default_style()
    }
}

/// Table contents are well formed: the default style first, no style twice.
pub open spec fn table_wf(t: Seq<TextStyle>) -> bool {
    &&& t.len() >= 1
    &&& t[0] == default_style()
    &&& forall|i: int, j: int| 0 <= i < j < t.len() ==> t[i] != t[j]
}

/// Interning `s` into table contents `t`: the table unchanged and the id of the
/// entry that already holds `s`, or `t` with `s` appended and the next id.
pub open spec fn intern_spec(t: Seq<TextStyle>, s: TextStyle) -> (Seq<TextStyle>, StyleId) {
    if t.contains(s) {
        (t, StyleId(id_for_position(t.index_of(s))))
    } else {
        (t.push(s), StyleId(id_for_position(t.len() as int)))
    }
}

/// Interns styles so the grid stores 2-byte ids instead of full style structs.
#[derive(Debug, PartialEq, Eq)]
pub struct StyleTable {
    styles: Vec<TextStyle>,
}

impl View for StyleTable {
    type V = Seq<TextStyle>;

    closed spec fn view(&self) -> Seq<TextStyle> {
        self.styles@
    }
}

impl StyleTable {
    /// The table stays well formed: the default style first, no style twice.
    #[verifier::type_invariant]
    spec fn inv(self) -> bool {
        table_wf(self.styles@)
    }

    pub fn new() -> (t: StyleTable)
        ensures
            t@ == seq![default_style()],
            table_wf(t@),
    {
        let d = TextStyle::default();
        let mut styles: Vec<TextStyle> = Vec::new();
        styles.push(d);
        StyleTable { styles }
    }

    /// A copy of the contents.
    fn contents(&self) -> (v: Vec<TextStyle>)
        ensures
            v@ == self@,
    {
        let mut styles: Vec<TextStyle> = Vec::new();
        let mut i: usize = 0;
        while i < self.styles.len()
            invariant
                i <= self.styles@.len(),
                styles@ == self.styles@.subrange(0, i as int),
            decreases self.styles@.len() - i,
        {
            styles.push(self.styles[i]);
            i = i + 1;
            proof {
                assert(styles@ =~= self.styles@.subrange(0, i as int));
            }
        }
        proof {
            assert(self.styles@.subrange(0, i as int) =~= self.styles@);
        }
        styles
    }

    /// A copy with the same contents.
    pub fn duplicate(&self) -> (t: StyleTable)
        ensures
            t@ == self@,
    {
        proof {
            use_type_invariant(self);
        }
        StyleTable { styles: self.contents() }
    }

    /// The id of `style`, adding it to the table when it is new. A style already
    /// present keeps its id; a new one is appended and gets the next id (ids past
    /// `u16::MAX` saturate there).
    pub fn intern(&mut self, style: TextStyle) -> (id: StyleId)
        ensures
            table_wf(final(self)@),
            (final(self)@, id) == intern_spec(old(self)@, style),
            exists|i: int|
                0 <= i < final(self)@.len() && final(self)@[i] == style && id.0 == id_for_position(
                    i,
                ),
            final(self)@.len() <= u16::MAX + 1 ==> style_of(final(self)@, id) == style,
    {
        proof {
            use_type_invariant(&*self);
        }
        let n = self.styles.len();
        let mut i: usize = 0;
        while i < n
            invariant
                n == self.styles@.len(),
                table_wf(self.styles@),
                i <= n,
                forall|k: int| 0 <= k < i ==> self.styles@[k] != style,
            decreases n - i,
        {
            if self.styles[i] == style {
                let id = if i > 65535 {
                    65535u16
                } else {
                    i as u16
                };
                proof {
                    assert(self@[i as int] == style);
                    assert(self@.contains(style));
                    assert(id == id_for_position(i as int));
                    let j = self@.index_of(style);
                    assert(0 <= j < self@.len() && self@[j] == style);
                    assert(j == i);
                }
                return StyleId(id);
            }
            i = i + 1;
        }
        proof {
            assert(!self.styles@.contains(style));
        }
        let id = if n > 65535 {
            65535u16
        } else {
            n as u16
        };
        let mut styles = self.contents();
        styles.push(style);
        proof {
            assert(styles@[n as int] == style);
        }
        self.styles = styles;
        proof {
            assert(self@[n as int] == style);
            assert(id == id_for_position(n as int));
        }
        StyleId(id)
    }

    /// The style `id` names, or the default style for an unknown id.
    pub fn get(&self, id: StyleId) -> (s: TextStyle)
        ensures
            s == style_of(self@, id),
    {
        if (id.0 as usize) < self.styles.len() {
            self.styles[id.0 as usize]
        } else {
            TextStyle::default()
        }
    }

    pub fn len(&self) -> (n: usize)
        ensures
            n == self@.len(),
    {
        self.styles.len()
    }

    /// Never empty: the table always holds the default style.
    pub fn is_empty(&self) -> (b: bool)
        ensures
            !b,
    {
        false
    }
}

impl Clone for StyleTable {
    fn clone(&self) -> (t: StyleTable)
        ensures
            t@ == self@,
    {
        self.duplicate()
    }
}

impl Default for StyleTable {
    fn default() -> (t: StyleTable)
        ensures
            t@ == seq![default_style()],
    {
        StyleTable::new()
    }
}

/// An interned style is found again under the same id, and distinct styles never
/// share an id while the table is below `u16::MAX` entries.
pub proof fn lemma_intern_ids_distinct(t: Seq<TextStyle>, i: int, j: int)
    requires
        table_wf(t),
        0 <= i < t.len(),
        0 <= j < t.len(),
        t.len() <= u16::MAX + 1,
        id_for_position(i) == id_for_position(j),
    ensures
        t[i] == t[j],
{
}


/// Interning is idempotent: interning a style a second time returns the id it
/// got the first time and leaves the table as it was.
pub proof fn lemma_intern_idempotent(t: Seq<TextStyle>, s: TextStyle)
    requires
        table_wf(t),
    ensures
        intern_spec(intern_spec(t, s).0, s) == intern_spec(t, s),
{
    let t2 = intern_spec(t, s).0;
    if !t.contains(s) {
        assert(t2[t.len() as int] == s);
        assert(t2.contains(s));
        let j = t2.index_of(s);
        assert(0 <= j < t2.len() && t2[j] == s);
        if j < t.len() {
            assert(t[j] == s);
        }
        assert(j == t.len());
    }
}

} // verus!
