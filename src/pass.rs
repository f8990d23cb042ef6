//! One render pass: the identity row, the outcome row, the error block when a
//! field failed, and the prompt marker.

use vstd::prelude::*;
use crate::fields::{Field, Sources, field_body};
use crate::style::Escapes;
use crate::writer::{FieldWriter, Step, run, start};

verus! {

/// The fields of the two rows.
pub struct Layout {
    pub first_row: Vec<Field>,
    pub second_row: Vec<Field>,
}

/// A layout whose rows both hold a field.
pub open spec fn rows_filled(first: Seq<Field>, second: Seq<Field>) -> bool {
    first.len() > 0 && second.len() > 0
}

/// One segment step per field.
pub open spec fn sections(fs: Seq<Field>) -> Seq<Step> {
    fs.map_values(|f: Field| Step::Section(f))
}

/// The messages of the fields that fail, in order.
pub open spec fn failures(esc: Escapes, exit: Option<i32>, src: Sources, fs: Seq<Field>) -> Seq<Seq<char>>
    decreases fs.len(),
{
    if fs.len() == 0 {
        Seq::empty()
    } else {
        let prev = failures(esc, exit, src, fs.drop_last());
        match field_body(esc, exit, src, fs.last()) {
            Ok(_) => prev,
            Err(m) => prev.push(m),
        }
    }
}

/// The steps of a pass: the first row, a line break, the second row, the error
/// block between two line breaks when a field of the rows failed, and the prompt marker.
pub open spec fn pass_steps(esc: Escapes, exit: Option<i32>, src: Sources, first: Seq<Field>, second: Seq<Field>) -> Seq<Step> {
    let rows = sections(first) + seq![Step::Line] + sections(second);
    let block = if failures(esc, exit, src, first + second).len() > 0 {
        seq![Step::Line, Step::Errors, Step::Line]
    } else {
        Seq::empty()
    };
    rows + block + seq![Step::Section(Field::Prompt)]
}

/// The text of a pass.
pub open spec fn pass_text(esc: Escapes, exit: Option<i32>, src: Sources, first: Seq<Field>, second: Seq<Field>) -> Seq<char> {
    run(esc, exit, src, start(), pass_steps(esc, exit, src, first, second)).out
}

/// The default rows: who and where first, then the outcome.
pub open spec fn default_first_row() -> Seq<Field> {
    seq![Field::Whoami, Field::Pwd, Field::Ppid, Field::Time, Field::Platform, Field::Network]
}

pub open spec fn default_second_row() -> Seq<Field> {
    seq![Field::ExitCode, Field::Git]
}

impl Layout {
    /// The default layout.
    pub fn standard() -> (r: Layout)
        ensures
            r.first_row@ == default_first_row(),
            r.second_row@ == default_second_row(),
    {
        let first_row = vec![Field::Whoami, Field::Pwd, Field::Ppid, Field::Time, Field::Platform, Field::Network];
        let second_row = vec![Field::ExitCode, Field::Git];
        assert(first_row@ =~= default_first_row());
        assert(second_row@ =~= default_second_row());
        Layout { first_row, second_row }
    }
}

/// Writes the fields of one row, after the steps `base` that wrote the fields `seen`.
fn print_row(w: &mut FieldWriter, row: &Vec<Field>, Ghost(base): Ghost<Seq<Step>>, Ghost(seen): Ghost<Seq<Field>>)
    requires
        old(w).model() == run(old(w).escapes(), old(w).exit_code(), old(w).sources(), start(), base),
        old(w).model().log == failures(old(w).escapes(), old(w).exit_code(), old(w).sources(), seen),
        old(w).model().column == 0,
        row@.len() < usize::MAX,
    ensures
        final(w).context_is(old(w).escapes(), old(w).exit_code(), old(w).sources()),
        final(w).model() == run(old(w).escapes(), old(w).exit_code(), old(w).sources(), start(), base + sections(row@)),
        final(w).model().log == failures(old(w).escapes(), old(w).exit_code(), old(w).sources(), seen + row@),
        final(w).model().column == row@.len(),
        final(w).model().row == old(w).model().row,
{
    let ghost esc = w.escapes();
    let ghost exit = w.exit_code();
    let ghost src = w.sources();
    let ghost r0 = w.model().row;
    let mut i: usize = 0;
    assert(base + sections(row@.take(0)) =~= base);
    assert(seen + row@.take(0) =~= seen);
    while i < row.len()
        invariant
            row@.len() < usize::MAX,
            i <= row@.len(),
            w.context_is(esc, exit, src),
            w.model() == run(esc, exit, src, start(), base + sections(row@.take(i as int))),
            w.model().column == i,
            w.model().row == r0,
            w.model().log == failures(esc, exit, src, seen + row@.take(i as int)),
        decreases row@.len() - i,
    {
        w.print_section(row[i]);
        assert((base + sections(row@.take(i + 1))).drop_last() =~= base + sections(row@.take(i as int)));
        assert((seen + row@.take(i + 1)).drop_last() =~= seen + row@.take(i as int));
        i += 1;
    }
    assert(row@.take(i as int) =~= row@);
}

/// Writes the error block: a line break, the messages, a line break.
fn print_block(w: &mut FieldWriter, Ghost(rows): Ghost<Seq<Step>>)
    requires
        old(w).model() == run(old(w).escapes(), old(w).exit_code(), old(w).sources(), start(), rows),
        old(w).model().row + 2 < usize::MAX,
    ensures
        final(w).context_is(old(w).escapes(), old(w).exit_code(), old(w).sources()),
        final(w).model() == run(old(w).escapes(), old(w).exit_code(), old(w).sources(), start(),
            rows + seq![Step::Line, Step::Errors, Step::Line]),
{
    let ghost esc = w.escapes();
    let ghost exit = w.exit_code();
    let ghost src = w.sources();
    w.print_line();
    assert((rows + seq![Step::Line]).drop_last() =~= rows);
    assert(w.model() == run(esc, exit, src, start(), rows + seq![Step::Line]));
    w.print_errors();
    assert((rows + seq![Step::Line, Step::Errors]).drop_last() =~= rows + seq![Step::Line]);
    assert(w.model() == run(esc, exit, src, start(), rows + seq![Step::Line, Step::Errors]));
    w.print_line();
    assert((rows + seq![Step::Line, Step::Errors, Step::Line]).drop_last() =~= rows + seq![Step::Line, Step::Errors]);
}

/// Renders one pass with the given rows.
pub fn print_pass(layout: &Layout, escapes: Escapes, exit_code: Option<i32>, sources: Sources) -> (r: String)
    requires
        layout.first_row@.len() < usize::MAX,
        layout.second_row@.len() + 1 < usize::MAX,
    ensures
        r@ == pass_text(escapes, exit_code, sources, layout.first_row@, layout.second_row@),
{
    let ghost esc = escapes;
    let ghost src = sources;
    let ghost first = layout.first_row@;
    let ghost second = layout.second_row@;
    let mut w = FieldWriter::new(escapes, exit_code, sources);
    assert(failures(esc, exit_code, src, Seq::<Field>::empty()) =~= Seq::<Seq<char>>::empty());
    print_row(&mut w, &layout.first_row, Ghost(Seq::<Step>::empty()), Ghost(Seq::<Field>::empty()));
    assert(Seq::<Step>::empty() + sections(first) =~= sections(first));
    assert(Seq::<Field>::empty() + first =~= first);
    w.print_line();
    let ghost base = sections(first) + seq![Step::Line];
    assert(base.drop_last() =~= sections(first));
    print_row(&mut w, &layout.second_row, Ghost(base), Ghost(first));
    let ghost rows = base + sections(second);
    let ghost block = if failures(esc, exit_code, src, first + second).len() > 0 {
        seq![Step::Line, Step::Errors, Step::Line]
    } else {
        Seq::<Step>::empty()
    };
    if w.has_errors() {
        print_block(&mut w, Ghost(rows));
    } else {
        assert(rows + block =~= rows);
    }
    assert(w.model() == run(esc, exit_code, src, start(), rows + block));
    w.print_section(Field::Prompt);
    let ghost steps = pass_steps(esc, exit_code, src, first, second);
    assert(steps == rows + block + seq![Step::Section(Field::Prompt)]);
    assert(steps.drop_last() =~= rows + block);
    w.output()
}

/// Renders one pass with the default layout.
pub fn print_default(escapes: Escapes, exit_code: Option<i32>, sources: Sources) -> (r: String)
    ensures
        r@ == pass_text(escapes, exit_code, sources, default_first_row(), default_second_row()),
{
    let layout = Layout::standard();
    print_pass(&layout, escapes, exit_code, sources)
}

} // verus!
