//! Diagnostics: coded, located, hinted errors and their documented text form.
pub use crate::codes;
use crate::codes::Code;
use crate::text::{append_decimal, decimal};
use vstd::prelude::*;

verus! {

#[derive(Debug, Clone, Copy, PartialEq, Eq, Structural)]
pub struct Position {
    pub line: u32,
    pub column: u32,
}

#[derive(Debug, Clone, Copy, PartialEq, Eq, Structural)]
pub enum Severity {
    Error,
    Warning,
}

#[derive(Debug, PartialEq, Eq)]
pub struct Diagnostic {
    pub severity: Severity,
    pub code: Code,
    pub message: String,
    pub path: Option<String>,
    pub position: Option<Position>,
    pub file: Option<String>,
    pub hint: Option<String>,
}

impl Clone for Diagnostic {
    fn clone(&self) -> (d: Diagnostic)
        ensures
            d@ == self@,
    {
        Diagnostic {
            severity: self.severity,
            code: self.code,
            message: self.message.clone(),
            path: clone_opt(&self.path),
            position: self.position,
            file: clone_opt(&self.file),
            hint: clone_opt(&self.hint),
        }
    }
}

fn clone_opt(o: &Option<String>) -> (r: Option<String>)
    ensures
        opt_view(r) == opt_view(*o),
{
    match o {
        Some(s) => Some(s.clone()),
        None => None,
    }
}

/// A diagnostic as a value.
pub struct DiagView {
    pub severity: Severity,
    pub code: (Seq<char>, i32),
    pub message: Seq<char>,
    pub path: Option<Seq<char>>,
    pub position: Option<Position>,
    pub file: Option<Seq<char>>,
    pub hint: Option<Seq<char>>,
}

pub open spec fn opt_view(o: Option<String>) -> Option<Seq<char>> {
    match o {
        Some(s) => Some(s@),
        None => None,
    }
}

impl View for Diagnostic {
    type V = DiagView;

    open spec fn view(&self) -> DiagView {
        DiagView {
            severity: self.severity,
            code: (self.code.0@, self.code.1),
            message: self.message@,
            path: opt_view(self.path),
            position: self.position,
            file: opt_view(self.file),
            hint: opt_view(self.hint),
        }
    }
}

/// A fresh error diagnostic: no location, no hint.
pub open spec fn error_view(code: (Seq<char>, i32), message: Seq<char>) -> DiagView {
    DiagView {
        severity: Severity::Error,
        code,
        message,
        path: None,
        position: None,
        file: None,
        hint: None,
    }
}

/// A code as a value.
pub open spec fn code_of(c: Code) -> (Seq<char>, i32) {
    (c.0@, c.1)
}

/// An error at a document path.
pub open spec fn diag_at(c: Code, message: Seq<char>, path: Seq<char>) -> DiagView {
    DiagView { path: Some(path), ..error_view(code_of(c), message) }
}

/// A diagnostic with a hint added.
pub open spec fn hinted(d: DiagView, hint: Seq<char>) -> DiagView {
    DiagView { hint: Some(hint), ..d }
}

/// Appends a diagnostic to a list of them.
pub fn push_diag(errors: &mut Vec<Diagnostic>, d: Diagnostic)
    ensures
        diags_view(final(errors)@) == diags_view(old(errors)@).push(d@),
{
    let ghost d0 = diags_view(errors@);
    let ghost dv = d@;
    errors.push(d);
    proof {
        assert(diags_view(errors@) =~= d0.push(dv));
    }
}

/// The documented text form:
/// `error[CODE]:` / message / (` --> file:line:column`) / (`hint:` / hint).
pub open spec fn render_spec(d: DiagView) -> Seq<char> {
    let label = match d.severity {
        Severity::Error => "error"@,
        Severity::Warning => "warning"@,
    };
    let head = label + "["@ + d.code.0 + "]:\n"@ + d.message + "\n"@;
    let loc = match (d.file, d.position) {
        (Some(f), Some(p)) => "\n --> "@ + f + ":"@ + decimal(p.line as nat) + ":"@ + decimal(
            p.column as nat,
        ) + "\n"@,
        _ => Seq::empty(),
    };
    let hint = match d.hint {
        Some(h) => "\nhint:\n"@ + h + "\n"@,
        None => Seq::empty(),
    };
    head + loc + hint
}

impl Diagnostic {
    pub fn error(code: Code, message: &str) -> (d: Diagnostic)
        ensures
            d@ == error_view((code.0@, code.1), message@),
    {
        Diagnostic {
            severity: Severity::Error,
            code,
            message: String::from_str(message),
            path: None,
            position: None,
            file: None,
            hint: None,
        }
    }

    pub fn at_path(self, path: &str) -> (d: Diagnostic)
        ensures
            d@ == (DiagView { path: Some(path@), ..self@ }),
    {
        Diagnostic { path: Some(String::from_str(path)), ..self }
    }

    pub fn at(self, position: Position) -> (d: Diagnostic)
        ensures
            d@ == (DiagView { position: Some(position), ..self@ }),
    {
        Diagnostic { position: Some(position), ..self }
    }

    pub fn at_opt(self, position: Option<Position>) -> (d: Diagnostic)
        ensures
            d@ == (DiagView { position, ..self@ }),
    {
        Diagnostic { position, ..self }
    }

    pub fn in_file(self, file: &str) -> (d: Diagnostic)
        ensures
            d@ == (DiagView { file: Some(file@), ..self@ }),
    {
        Diagnostic { file: Some(String::from_str(file)), ..self }
    }

    pub fn with_hint(self, hint: &str) -> (d: Diagnostic)
        ensures
            d@ == (DiagView { hint: Some(hint@), ..self@ }),
    {
        Diagnostic { hint: Some(String::from_str(hint)), ..self }
    }

    pub fn exit_code(&self) -> (c: i32)
        ensures
            c == self.code.1,
    {
        self.code.1
    }

    /// The documented text form of this diagnostic.
    pub fn render(&self) -> (s: String)
        ensures
            s@ == render_spec(self@),
    {
        proof {
            reveal_strlit("error");
            reveal_strlit("warning");
            reveal_strlit("[");
            reveal_strlit("]:\n");
            reveal_strlit("\n");
            reveal_strlit("\n --> ");
            reveal_strlit(":");
            reveal_strlit("\nhint:\n");
        }
        let mut s = match self.severity {
            Severity::Error => String::from_str("error"),
            Severity::Warning => String::from_str("warning"),
        };
        s.append("[");
        s.append(self.code.0);
        s.append("]:\n");
        s.append(self.message.as_str());
        s.append("\n");
        match (&self.file, self.position) {
            (Some(f), Some(p)) => {
                s.append("\n --> ");
                s.append(f.as_str());
                s.append(":");
                append_decimal(&mut s, p.line as u64);
                s.append(":");
                append_decimal(&mut s, p.column as u64);
                s.append("\n");
            },
            _ => {},
        }
        match &self.hint {
            Some(h) => {
                s.append("\nhint:\n");
                s.append(h.as_str());
                s.append("\n");
            },
            None => {},
        }
        proof {
            assert(s@ =~= render_spec(self@));
        }
        s
    }
}

/// The most severe (largest) exit code among the diagnostics, or 1 if the list is
/// empty.
pub open spec fn max_exit_code(ds: Seq<DiagView>) -> i32
    decreases ds.len(),
{
    if ds.len() == 0 {
        1
    } else if ds.len() == 1 {
        ds[0].code.1
    } else {
        let rest = max_exit_code(ds.drop_first());
        if ds[0].code.1 >= rest {
            ds[0].code.1
        } else {
            rest
        }
    }
}

pub open spec fn diags_view(ds: Seq<Diagnostic>) -> Seq<DiagView> {
    Seq::new(ds.len(), |i: int| ds[i]@)
}

/// The most severe exit code among the diagnostics, or 1 if the list is empty.
pub fn exit_code_for(diagnostics: &[Diagnostic]) -> (c: i32)
    ensures
        c == max_exit_code(diags_view(diagnostics@)),
        diagnostics@.len() > 0 ==> exists|i: int|
            0 <= i < diagnostics@.len() && #[trigger] diagnostics@[i].code.1 == c,
        forall|i: int| 0 <= i < diagnostics@.len() ==> #[trigger] diagnostics@[i].code.1 <= c,
{
    let n = diagnostics.len();
    if n == 0 {
        return 1;
    }
    let mut best = diagnostics[n - 1].code.1;
    let mut i = n - 1;
    proof {
        assert(diags_view(diagnostics@).skip(i as int) =~= seq![diagnostics@[i as int]@]);
    }
    while i > 0
        invariant
            0 <= i < n == diagnostics@.len(),
            best == max_exit_code(diags_view(diagnostics@).skip(i as int)),
            exists|k: int| i <= k < n && #[trigger] diagnostics@[k].code.1 == best,
            forall|k: int| i <= k < n ==> #[trigger] diagnostics@[k].code.1 <= best,
        decreases i,
    {
        i = i - 1;
        let c = diagnostics[i].code.1;
        proof {
            let s = diags_view(diagnostics@).skip(i as int);
            assert(s.drop_first() =~= diags_view(diagnostics@).skip(i + 1));
            assert(s[0] == diagnostics@[i as int]@);
        }
        if c >= best {
            best = c;
        }
    }
    proof {
        assert(diags_view(diagnostics@).skip(0) =~= diags_view(diagnostics@));
    }
    best
}

} // verus!
