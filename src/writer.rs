//! The segment renderer: frames each field, tracks the row and column, and
//! gathers the messages of fields that fail.

use vstd::prelude::*;
use crate::fields::{Field, Sources, Body, field_body, field_text, body_view};
use crate::style::{Escapes, Paint, painted_bold};
use crate::text::views;

verus! {

/// One operation of a render pass.
pub enum Step {
    /// Writes one field as a bracketed segment.
    Section(Field),
    /// Ends the current row.
    Line,
    /// Writes the gathered error messages.
    Errors,
}

/// The renderer's state as a value: fields written in the current row, rows
/// ended, whether a separator has been written in this pass, the messages
/// gathered, and the text written so far.
pub struct WriterModel {
    pub column: nat,
    pub row: nat,
    pub separated: bool,
    pub log: Seq<Seq<char>>,
    pub out: Seq<char>,
}

/// The glyph that opens a segment: the first of the pass, the first of a later
/// row, or one further along a row.
pub open spec fn open_glyph(column: nat, row: nat) -> Seq<char> {
    if column != 0 {
        "["@
    } else if row == 0 {
        "┌─["@
    } else {
        "└─["@
    }
}

/// What goes between two segments of a row: wider the first time in a pass.
pub open spec fn separator(column: nat, separated: bool) -> Seq<char> {
    if column == 0 {
        Seq::<char>::empty()
    } else if !separated {
        " - "@
    } else {
        "-"@
    }
}

/// The glyph that closes a segment; the prompt marker's closes into `> `.
pub open spec fn close_glyph(field: Field) -> Seq<char> {
    if field == Field::Prompt {
        "]> "@
    } else {
        "]"@
    }
}

/// What a field contributes between its brackets: its text, or nothing on failure.
pub open spec fn shown(b: Body) -> Seq<char> {
    match b {
        Ok(t) => t,
        Err(_) => Seq::<char>::empty(),
    }
}

/// The text of one segment written at `column` of `row`, after a separator was
/// written earlier in the pass or not.
pub open spec fn section_text(esc: Escapes, column: nat, row: nat, separated: bool, field: Field, b: Body) -> Seq<char> {
    separator(column, separated)
        + painted_bold(esc.begin@, esc.end@, Paint::Blue, open_glyph(column, row))
        + shown(b)
        + painted_bold(esc.begin@, esc.end@, Paint::Blue, close_glyph(field))
}

/// The messages, one per line.
pub open spec fn joined(log: Seq<Seq<char>>) -> Seq<char>
    decreases log.len(),
{
    if log.len() == 0 {
        Seq::<char>::empty()
    } else if log.len() == 1 {
        log[0]
    } else {
        joined(log.drop_last()) + "\n"@ + log.last()
    }
}

/// The state after one step.
pub open spec fn step(esc: Escapes, exit: Option<i32>, src: Sources, m: WriterModel, s: Step) -> WriterModel {
    match s {
        Step::Section(f) => {
            let b = field_body(esc, exit, src, f);
            WriterModel {
                column: m.column + 1,
                row: m.row,
                separated: m.separated || m.column != 0,
                log: match b {
                    Ok(_) => m.log,
                    Err(msg) => m.log.push(msg),
                },
                out: m.out + section_text(esc, m.column, m.row, m.separated, f, b),
            }
        },
        Step::Line => WriterModel { column: 0, row: m.row + 1, out: m.out + "\n"@, ..m },
        Step::Errors => WriterModel {
            out: m.out + painted_bold(esc.begin@, esc.end@, Paint::Red, joined(m.log)),
            ..m
        },
    }
}

/// The state before anything is written.
pub open spec fn start() -> WriterModel {
    WriterModel { column: 0, row: 0, separated: false, log: Seq::empty(), out: Seq::empty() }
}

/// The state after the steps, taken in order from `m`.
pub open spec fn run(esc: Escapes, exit: Option<i32>, src: Sources, m: WriterModel, steps: Seq<Step>) -> WriterModel
    decreases steps.len(),
{
    if steps.len() == 0 {
        m
    } else {
        step(esc, exit, src, run(esc, exit, src, m, steps.drop_last()), steps.last())
    }
}

/// The text of one segment.
fn segment(esc: &Escapes, column: usize, row: usize, separated: bool, field: Field, body: &Result<String, String>) -> (r: String)
    ensures
        r@ == section_text(*esc, column as nat, row as nat, separated, field, body_view(*body)),
{
    let mut out = String::new();
    if column != 0 {
        if !separated {
            out.append(" - ");
        } else {
            out.append("-");
        }
    }
    let open: &str = if column != 0 {
        "["
    } else if row == 0 {
        "┌─["
    } else {
        "└─["
    };
    let g = esc.paint_bold(Paint::Blue, open);
    out.append(g.as_str());
    match body {
        Ok(t) => out.append(t.as_str()),
        Err(_) => {},
    }
    let close: &str = if matches!(field, Field::Prompt) { "]> " } else { "]" };
    let g2 = esc.paint_bold(Paint::Blue, close);
    out.append(g2.as_str());
    assert(out@ =~= section_text(*esc, column as nat, row as nat, separated, field, body_view(*body)));
    out
}

/// Writes fields into a text buffer, one render pass at a time.
pub struct FieldWriter {
    column_count: usize,
    errors: Vec<String>,
    exit_code: Option<i32>,
    row_count: usize,
    separated: bool,
    escapes: Escapes,
    sources: Sources,
    out: String,
}

impl FieldWriter {
    pub closed spec fn model(&self) -> WriterModel {
        WriterModel {
            column: self.column_count as nat,
            row: self.row_count as nat,
            separated: self.separated,
            log: views(self.errors@),
            out: self.out@,
        }
    }

    pub closed spec fn escapes(&self) -> Escapes {
        self.escapes
    }

    pub closed spec fn exit_code(&self) -> Option<i32> {
        self.exit_code
    }

    pub closed spec fn sources(&self) -> Sources {
        self.sources
    }

    /// Whether the writer's context is `esc`, `exit` and `src`.
    pub open spec fn context_is(&self, esc: Escapes, exit: Option<i32>, src: Sources) -> bool {
        self.escapes() == esc && self.exit_code() == exit && self.sources() == src
    }

    /// A writer at the start of a pass.
    pub fn new(escapes: Escapes, exit_code: Option<i32>, sources: Sources) -> (r: FieldWriter)
        ensures
            r.model() == start(),
            r.context_is(escapes, exit_code, sources),
    {
        let r = FieldWriter {
            column_count: 0,
            errors: Vec::new(),
            exit_code,
            row_count: 0,
            separated: false,
            escapes,
            sources,
            out: String::new(),
        };
        assert(views(r.errors@) =~= Seq::<Seq<char>>::empty());
        r
    }

    /// Ends the current row.
    pub fn print_line(&mut self)
        requires
            old(self).model().row < usize::MAX,
        ensures
            final(self).model() == step(old(self).escapes(), old(self).exit_code(), old(self).sources(), old(self).model(), Step::Line),
            final(self).context_is(old(self).escapes(), old(self).exit_code(), old(self).sources()),
    {
        self.out.append("\n");
        self.column_count = 0;
        self.row_count = self.row_count + 1;
    }

    /// Writes `field` as one segment. A field that fails leaves its brackets empty
    /// and adds its message to the log; the pass goes on.
    pub fn print_section(&mut self, field: Field)
        requires
            old(self).model().column < usize::MAX,
        ensures
            final(self).model() == step(old(self).escapes(), old(self).exit_code(), old(self).sources(), old(self).model(), Step::Section(field)),
            final(self).context_is(old(self).escapes(), old(self).exit_code(), old(self).sources()),
    {
        let body = field_text(&self.escapes, self.exit_code, &self.sources, field);
        let t = segment(&self.escapes, self.column_count, self.row_count, self.separated, field, &body);
        self.out.append(t.as_str());
        if self.column_count != 0 {
            self.separated = true;
        }
        match body {
            Ok(_) => {},
            Err(e) => {
                let ghost before = views(self.errors@);
                self.errors.push(e);
                assert(views(self.errors@) =~= before.push(e@));
            },
        }
        self.column_count = self.column_count + 1;
    }

    /// Writes the gathered messages, one per line, in bold red.
    pub fn print_errors(&mut self)
        ensures
            final(self).model() == step(old(self).escapes(), old(self).exit_code(), old(self).sources(), old(self).model(), Step::Errors),
            final(self).context_is(old(self).escapes(), old(self).exit_code(), old(self).sources()),
    {
        let mut all = String::new();
        let mut i: usize = 0;
        while i < self.errors.len()
            invariant
                i <= self.errors@.len(),
                all@ == joined(views(self.errors@).take(i as int)),
            decreases self.errors@.len() - i,
        {
            let ghost s = views(self.errors@).take(i + 1);
            assert(s.drop_last() =~= views(self.errors@).take(i as int));
            if i != 0 {
                all.append("\n");
            } else {
                assert(all@ =~= Seq::<char>::empty());
            }
            all.append(self.errors[i].as_str());
            assert(all@ =~= joined(s));
            i += 1;
        }
        assert(views(self.errors@).take(i as int) =~= views(self.errors@));
        let t = self.escapes.paint_bold(Paint::Red, all.as_str());
        self.out.append(t.as_str());
    }

    /// Whether any field has failed so far.
    pub fn has_errors(&self) -> (r: bool)
        ensures
            r == (self.model().log.len() > 0),
    {
        self.errors.len() != 0
    }

    /// The text written so far.
    pub fn output(self) -> (r: String)
        ensures
            r@ == self.model().out,
    {
        self.out
    }
}

} // verus!
