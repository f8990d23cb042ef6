//! Facts about every render pass, proved over the step model that the
//! renderer's and the driver's contracts are stated in.

use vstd::prelude::*;
use crate::fields::{Field, Origin, Sources, WhoamiReading, field_body, whoami_body, user_at_host, prompt_body};
use crate::style::{Escapes, Paint, painted, painted_bold};
use crate::text::split_spaces;
use crate::writer::{Step, WriterModel, run, start, step, shown, close_glyph, section_text, joined, separator, open_glyph};
use crate::pass::{sections, failures, pass_steps, pass_text, rows_filled};

verus! {

proof fn lemma_run_push(esc: Escapes, exit: Option<i32>, src: Sources, steps: Seq<Step>, i: int)
    requires
        0 <= i < steps.len(),
    ensures
        run(esc, exit, src, start(), steps.take(i + 1))
            == step(esc, exit, src, run(esc, exit, src, start(), steps.take(i)), steps[i]),
{
    assert(steps.take(i + 1).drop_last() =~= steps.take(i));
}

proof fn lemma_sections_run(esc: Escapes, exit: Option<i32>, src: Sources, base: Seq<Step>, fs: Seq<Field>)
    ensures
        run(esc, exit, src, start(), base + sections(fs)).column
            == run(esc, exit, src, start(), base).column + fs.len(),
        run(esc, exit, src, start(), base + sections(fs)).row == run(esc, exit, src, start(), base).row,
    decreases fs.len(),
{
    if fs.len() == 0 {
        assert(base + sections(fs) =~= base);
    } else {
        lemma_sections_run(esc, exit, src, base, fs.drop_last());
        assert((base + sections(fs)).drop_last() =~= base + sections(fs.drop_last()));
    }
}

proof fn lemma_sections_log(esc: Escapes, exit: Option<i32>, src: Sources, base: Seq<Step>, fs: Seq<Field>)
    ensures
        run(esc, exit, src, start(), base + sections(fs)).log
            == run(esc, exit, src, start(), base).log + failures(esc, exit, src, fs),
    decreases fs.len(),
{
    if fs.len() == 0 {
        assert(base + sections(fs) =~= base);
        assert(run(esc, exit, src, start(), base).log + failures(esc, exit, src, fs) =~= run(esc, exit, src, start(), base).log);
    } else {
        lemma_sections_log(esc, exit, src, base, fs.drop_last());
        assert((base + sections(fs)).drop_last() =~= base + sections(fs.drop_last()));
        let l0 = run(esc, exit, src, start(), base).log;
        let prev = failures(esc, exit, src, fs.drop_last());
        assert(l0 + prev.push(field_body(esc, exit, src, fs.last())->Err_0)
            =~= (l0 + prev).push(field_body(esc, exit, src, fs.last())->Err_0));
    }
}

/// Every line break leaves the renderer at the start of a row. Every line break
/// but the one that closes the error block comes after at least one field of its
/// row (that one follows the messages, which are no field). When no field fails,
/// the pass has exactly one line break, the one between its two rows.
pub proof fn lemma_line_breaks(esc: Escapes, exit: Option<i32>, src: Sources, first: Seq<Field>, second: Seq<Field>)
    requires
        rows_filled(first, second),
    ensures
        forall|i: int|
            0 <= i < pass_steps(esc, exit, src, first, second).len()
                && (#[trigger] pass_steps(esc, exit, src, first, second)[i]) is Line ==> {
                &&& run(esc, exit, src, start(), pass_steps(esc, exit, src, first, second).take(i + 1)).column == 0
                &&& (i == 0 || !(pass_steps(esc, exit, src, first, second)[i - 1] is Errors)) ==>
                    run(esc, exit, src, start(), pass_steps(esc, exit, src, first, second).take(i)).column > 0
                &&& failures(esc, exit, src, first + second).len() == 0 ==> i == first.len()
            },
{
    let steps = pass_steps(esc, exit, src, first, second);
    let n1 = first.len() as int;
    let n2 = second.len() as int;
    let failed = failures(esc, exit, src, first + second).len() > 0;
    let base = sections(first) + seq![Step::Line];
    let rows = base + sections(second);
    assert(rows.len() == n1 + 1 + n2);
    assert forall|i: int| 0 <= i < steps.len() && (#[trigger] steps[i]) is Line implies {
        &&& run(esc, exit, src, start(), steps.take(i + 1)).column == 0
        &&& (i == 0 || !(steps[i - 1] is Errors)) ==> run(esc, exit, src, start(), steps.take(i)).column > 0
        &&& !failed ==> i == n1
    } by {
        lemma_run_push(esc, exit, src, steps, i);
        if i < n1 {
            assert(steps[i] == sections(first)[i]);
        } else if i > n1 && i < n1 + 1 + n2 {
            assert(steps[i] == sections(second)[i - n1 - 1]);
        } else if i == n1 + 1 + n2 + (if failed { 3int } else { 0int }) {
            assert(steps[i] == Step::Section(Field::Prompt));
        } else if failed && i == n1 + n2 + 2 {
            assert(steps[i] is Errors);
        }
        if i == n1 {
            assert(steps.take(i) =~= Seq::<Step>::empty() + sections(first));
            lemma_sections_run(esc, exit, src, Seq::<Step>::empty(), first);
        } else if i == n1 + n2 + 1 {
            assert(failed);
            assert(steps.take(i) =~= rows);
            lemma_sections_run(esc, exit, src, base, second);
        } else {
            assert(failed && i == n1 + n2 + 3);
            assert(steps[i - 1] is Errors);
        }
    }
}

/// A pass writes at most one error block, and writes one exactly when some field
/// of its rows failed.
pub proof fn lemma_error_block(esc: Escapes, exit: Option<i32>, src: Sources, first: Seq<Field>, second: Seq<Field>)
    ensures
        (exists|i: int|
            0 <= i < pass_steps(esc, exit, src, first, second).len()
                && (#[trigger] pass_steps(esc, exit, src, first, second)[i]) is Errors)
            == (failures(esc, exit, src, first + second).len() > 0),
        forall|i: int, j: int|
            0 <= i < pass_steps(esc, exit, src, first, second).len()
                && 0 <= j < pass_steps(esc, exit, src, first, second).len()
                && (#[trigger] pass_steps(esc, exit, src, first, second)[i]) is Errors
                && (#[trigger] pass_steps(esc, exit, src, first, second)[j]) is Errors ==> i == j,
        forall|i: int|
            0 <= i < pass_steps(esc, exit, src, first, second).len()
                && (#[trigger] pass_steps(esc, exit, src, first, second)[i]) is Errors ==>
                run(esc, exit, src, start(), pass_steps(esc, exit, src, first, second).take(i + 1)).out
                    == run(esc, exit, src, start(), pass_steps(esc, exit, src, first, second).take(i)).out
                        + painted_bold(esc.begin@, esc.end@, Paint::Red,
                            joined(failures(esc, exit, src, first + second))),
{
    let steps = pass_steps(esc, exit, src, first, second);
    let n1 = first.len() as int;
    let n2 = second.len() as int;
    let failed = failures(esc, exit, src, first + second).len() > 0;
    let rows = sections(first) + seq![Step::Line] + sections(second);
    assert(rows.len() == n1 + 1 + n2);
    assert forall|i: int| 0 <= i < steps.len() && (#[trigger] steps[i]) is Errors implies failed && i == n1 + n2 + 2 by {
        if i < n1 {
            assert(steps[i] == sections(first)[i]);
        } else if i == n1 {
            assert(steps[i] == Step::Line);
        } else if i < n1 + 1 + n2 {
            assert(steps[i] == sections(second)[i - n1 - 1]);
        } else if !failed {
            assert(steps[i] == Step::Section(Field::Prompt));
        } else if i != n1 + n2 + 2 {
            assert(steps[i] is Line || steps[i] is Section);
        }
    }
    if failed {
        let k = n1 + n2 + 2;
        assert(steps[k] is Errors);
        let base = sections(first) + seq![Step::Line];
        assert(steps.take(k) =~= rows + seq![Step::Line]);
        assert(rows =~= base + sections(second));
        lemma_run_push(esc, exit, src, steps, k);
        assert((rows + seq![Step::Line]).drop_last() =~= rows);
        lemma_sections_log(esc, exit, src, base, second);
        assert(base.drop_last() =~= Seq::<Step>::empty() + sections(first));
        lemma_sections_log(esc, exit, src, Seq::<Step>::empty(), first);
        assert(Seq::<Seq<char>>::empty() + failures(esc, exit, src, first) =~= failures(esc, exit, src, first));
        assert(Seq::<Step>::empty() + sections(first) =~= sections(first));
        lemma_failures_concat(esc, exit, src, first, second);
    }
}

proof fn lemma_failures_concat(esc: Escapes, exit: Option<i32>, src: Sources, a: Seq<Field>, b: Seq<Field>)
    ensures
        failures(esc, exit, src, a + b) == failures(esc, exit, src, a) + failures(esc, exit, src, b),
    decreases b.len(),
{
    if b.len() == 0 {
        assert(a + b =~= a);
        assert(failures(esc, exit, src, a) + failures(esc, exit, src, b) =~= failures(esc, exit, src, a));
    } else {
        lemma_failures_concat(esc, exit, src, a, b.drop_last());
        assert((a + b).drop_last() =~= a + b.drop_last());
        assert((a + b).last() == b.last());
        let fa = failures(esc, exit, src, a);
        let fb = failures(esc, exit, src, b.drop_last());
        assert(fa + fb.push(field_body(esc, exit, src, b.last())->Err_0)
            =~= (fa + fb).push(field_body(esc, exit, src, b.last())->Err_0));
    }
}

/// Whether step `i`, a segment, writes exactly `glyph` in bold blue, then the
/// field's text, then its closing glyph.
pub open spec fn opens_with(esc: Escapes, exit: Option<i32>, src: Sources, steps: Seq<Step>, i: int, glyph: Seq<char>) -> bool {
    let f = steps[i]->Section_0;
    run(esc, exit, src, start(), steps.take(i + 1)).out == run(esc, exit, src, start(), steps.take(i)).out
        + painted_bold(esc.begin@, esc.end@, Paint::Blue, glyph)
        + shown(field_body(esc, exit, src, f))
        + painted_bold(esc.begin@, esc.end@, Paint::Blue, close_glyph(f))
}

proof fn lemma_segment_at_row_start(esc: Escapes, exit: Option<i32>, src: Sources, steps: Seq<Step>, i: int)
    requires
        0 <= i < steps.len(),
        steps[i] is Section,
        run(esc, exit, src, start(), steps.take(i)).column == 0,
    ensures
        opens_with(esc, exit, src, steps, i, crate::writer::open_glyph(0, run(esc, exit, src, start(), steps.take(i)).row)),
{
    let f = steps[i]->Section_0;
    let b = field_body(esc, exit, src, f);
    lemma_run_push(esc, exit, src, steps, i);
    let m = run(esc, exit, src, start(), steps.take(i));
    let g = painted_bold(esc.begin@, esc.end@, Paint::Blue, crate::writer::open_glyph(0, m.row));
    let c = painted_bold(esc.begin@, esc.end@, Paint::Blue, close_glyph(f));
    assert(section_text(esc, 0, m.row, m.separated, f, b) == Seq::<char>::empty() + g + shown(b) + c);
    assert(m.out + (Seq::<char>::empty() + g + shown(b) + c) =~= m.out + g + shown(b) + c);
}

/// The first segment of any sequence of steps opens with `┌─[`, and every segment
/// that directly follows a line break opens with `└─[`, whatever the field.
pub proof fn lemma_opening_glyphs(esc: Escapes, exit: Option<i32>, src: Sources, steps: Seq<Step>)
    ensures
        steps.len() > 0 && steps[0] is Section ==> opens_with(esc, exit, src, steps, 0, "┌─["@),
        forall|i: int|
            0 < i < steps.len() && (#[trigger] steps[i]) is Section && steps[i - 1] is Line
                ==> opens_with(esc, exit, src, steps, i, "└─["@),
{
    if steps.len() > 0 && steps[0] is Section {
        assert(steps.take(0) =~= Seq::<Step>::empty());
        lemma_segment_at_row_start(esc, exit, src, steps, 0);
    }
    assert forall|i: int|
        0 < i < steps.len() && (#[trigger] steps[i]) is Section && steps[i - 1] is Line
            implies opens_with(esc, exit, src, steps, i, "└─["@) by {
        lemma_run_push(esc, exit, src, steps, i - 1);
        lemma_segment_at_row_start(esc, exit, src, steps, i);
    }
}

/// Without an SSH origin the user field is just `user@host` in cyan; an origin
/// whose port piece is missing makes the field fail with a message.
pub proof fn lemma_whoami_origin(esc: Escapes, w: WhoamiReading)
    ensures
        w.origin is Absent ==> whoami_body(esc, w) == Ok::<Seq<char>, Seq<char>>(
            painted(esc.begin@, esc.end@, Paint::Cyan, user_at_host(esc, w))),
        w.origin matches Origin::Present { connection, server_ip }
            && server_ip is Ok && split_spaces(connection@).len() == 3
            ==> whoami_body(esc, w) == Err::<Seq<char>, Seq<char>>("Missing server port"@),
{
}

proof fn lemma_failures_hold(esc: Escapes, exit: Option<i32>, src: Sources, fs: Seq<Field>, k: int)
    requires
        0 <= k < fs.len(),
        field_body(esc, exit, src, fs[k]) is Err,
    ensures
        failures(esc, exit, src, fs).contains(field_body(esc, exit, src, fs[k])->Err_0),
    decreases fs.len(),
{
    let prev = failures(esc, exit, src, fs.drop_last());
    if k == fs.len() - 1 {
        assert(failures(esc, exit, src, fs).last() == field_body(esc, exit, src, fs[k])->Err_0);
    } else {
        lemma_failures_hold(esc, exit, src, fs.drop_last(), k);
        let j = choose|j: int| 0 <= j < prev.len() && prev[j] == field_body(esc, exit, src, fs[k])->Err_0;
        assert(failures(esc, exit, src, fs)[j] == prev[j]);
    }
}

/// Every pass ends with the prompt marker's segment, closed by `]> `, whatever
/// failed before it.
pub proof fn lemma_pass_ends_with_prompt(esc: Escapes, exit: Option<i32>, src: Sources, first: Seq<Field>, second: Seq<Field>)
    ensures
        ({
            let steps = pass_steps(esc, exit, src, first, second);
            let m = run(esc, exit, src, start(), steps.drop_last());
            &&& steps.last() == Step::Section(Field::Prompt)
            &&& pass_text(esc, exit, src, first, second)
                == m.out + section_text(esc, m.column, m.row, m.separated, Field::Prompt, prompt_body(esc))
            &&& close_glyph(Field::Prompt) == "]> "@
        }),
{
    lemma_named_bodies(esc, exit, src);
}

proof fn lemma_out_prefix(esc: Escapes, exit: Option<i32>, src: Sources, steps: Seq<Step>, k: int)
    requires
        0 <= k <= steps.len(),
    ensures
        run(esc, exit, src, start(), steps).out.len() >= run(esc, exit, src, start(), steps.take(k)).out.len(),
        run(esc, exit, src, start(), steps).out.take(run(esc, exit, src, start(), steps.take(k)).out.len() as int)
            == run(esc, exit, src, start(), steps.take(k)).out,
    decreases steps.len(),
{
    if k == steps.len() {
        assert(steps.take(k) =~= steps);
        assert(run(esc, exit, src, start(), steps).out.take(run(esc, exit, src, start(), steps).out.len() as int)
            =~= run(esc, exit, src, start(), steps).out);
    } else {
        let d = steps.drop_last();
        lemma_out_prefix(esc, exit, src, d, k);
        assert(d.take(k) =~= steps.take(k));
        let pre = run(esc, exit, src, start(), steps.take(k)).out;
        let mid = run(esc, exit, src, start(), d).out;
        let whole = run(esc, exit, src, start(), steps).out;
        assert(whole.take(mid.len() as int) =~= mid);
        assert(whole.take(pre.len() as int) =~= mid.take(pre.len() as int));
    }
}

proof fn lemma_failures_exist(esc: Escapes, exit: Option<i32>, src: Sources, fs: Seq<Field>)
    ensures
        (failures(esc, exit, src, fs).len() > 0)
            == (exists|k: int| 0 <= k < fs.len() && (#[trigger] field_body(esc, exit, src, fs[k])) is Err),
    decreases fs.len(),
{
    if fs.len() > 0 {
        let d = fs.drop_last();
        lemma_failures_exist(esc, exit, src, d);
        if failures(esc, exit, src, d).len() > 0 {
            let k = choose|k: int| 0 <= k < d.len() && (#[trigger] field_body(esc, exit, src, d[k])) is Err;
            assert(fs[k] == d[k]);
        }
        if exists|k: int| 0 <= k < fs.len() && (#[trigger] field_body(esc, exit, src, fs[k])) is Err {
            let k = choose|k: int| 0 <= k < fs.len() && (#[trigger] field_body(esc, exit, src, fs[k])) is Err;
            if k < d.len() {
                assert(d[k] == fs[k]);
            }
        }
    }
}

/// Writing the fields `fs` one segment after another from a fresh writer
/// gathers exactly the messages of the fields that fail, in order; so the
/// writer reports errors exactly when one of them failed.
pub proof fn lemma_sections_errors(esc: Escapes, exit: Option<i32>, src: Sources, fs: Seq<Field>)
    ensures
        run(esc, exit, src, start(), sections(fs)).log == failures(esc, exit, src, fs),
        (run(esc, exit, src, start(), sections(fs)).log.len() > 0)
            == (exists|k: int| 0 <= k < fs.len() && (#[trigger] field_body(esc, exit, src, fs[k])) is Err),
{
    lemma_sections_log(esc, exit, src, Seq::<Step>::empty(), fs);
    assert(Seq::<Step>::empty() + sections(fs) =~= sections(fs));
    assert(Seq::<Seq<char>>::empty() + failures(esc, exit, src, fs) =~= failures(esc, exit, src, fs));
    lemma_failures_exist(esc, exit, src, fs);
}

proof fn lemma_named_bodies(esc: Escapes, exit: Option<i32>, src: Sources)
    ensures
        field_body(esc, exit, src, Field::Whoami) == whoami_body(esc, src.whoami),
        field_body(esc, exit, src, Field::Prompt) == prompt_body(esc),
{
    reveal(field_body);
}

proof fn lemma_failed_head(esc: Escapes, exit: Option<i32>, src: Sources, steps: Seq<Step>)
    requires
        steps.len() > 0,
        steps[0] == Step::Section(Field::Whoami),
        field_body(esc, exit, src, Field::Whoami) is Err,
    ensures
        ({
            let head = painted_bold(esc.begin@, esc.end@, Paint::Blue, "┌─["@)
                + painted_bold(esc.begin@, esc.end@, Paint::Blue, "]"@);
            run(esc, exit, src, start(), steps).out.take(head.len() as int) == head
        }),
{
    lemma_opening_glyphs(esc, exit, src, steps);
    assert(steps.take(0) =~= Seq::<Step>::empty());
    lemma_out_prefix(esc, exit, src, steps, 1);
    let head = painted_bold(esc.begin@, esc.end@, Paint::Blue, "┌─["@)
        + painted_bold(esc.begin@, esc.end@, Paint::Blue, "]"@);
    assert(run(esc, exit, src, start(), steps.take(1)).out =~= head);
}

proof fn lemma_prompt_row(esc: Escapes, exit: Option<i32>, src: Sources, steps: Seq<Step>)
    requires
        steps.len() >= 2,
        steps.last() == Step::Section(Field::Prompt),
        steps[steps.len() - 2] is Line,
    ensures
        run(esc, exit, src, start(), steps).out == run(esc, exit, src, start(), steps.drop_last()).out
            + painted_bold(esc.begin@, esc.end@, Paint::Blue, "└─["@)
            + painted_bold(esc.begin@, esc.end@, Paint::Magenta, "$"@)
            + painted_bold(esc.begin@, esc.end@, Paint::Blue, "]> "@),
{
    let n = steps.len() as int;
    lemma_named_bodies(esc, exit, src);
    lemma_opening_glyphs(esc, exit, src, steps);
    assert(steps[n - 1] is Section);
    assert(opens_with(esc, exit, src, steps, n - 1, "└─["@));
    assert(steps.take(n) =~= steps);
    assert(steps.take(n - 1) =~= steps.drop_last());
}

/// A missing port in the SSH origin is recorded among the failures of a pass that
/// shows the user field. When that field opens the pass, the pass starts with its
/// empty segment; and the pass still ends with the prompt marker, which opens a
/// row of its own after the error block.
pub proof fn lemma_missing_port_still_prompts(
    esc: Escapes,
    exit: Option<i32>,
    src: Sources,
    first: Seq<Field>,
    second: Seq<Field>,
)
    requires
        src.whoami.origin matches Origin::Present { connection, server_ip }
            && server_ip is Ok && split_spaces(connection@).len() == 3,
        (first + second).contains(Field::Whoami),
    ensures
        failures(esc, exit, src, first + second).contains("Missing server port"@),
        pass_steps(esc, exit, src, first, second).last() == Step::Section(Field::Prompt),
        first.len() > 0 && first[0] == Field::Whoami ==> {
            let head = painted_bold(esc.begin@, esc.end@, Paint::Blue, "┌─["@)
                + painted_bold(esc.begin@, esc.end@, Paint::Blue, "]"@);
            pass_text(esc, exit, src, first, second).take(head.len() as int) == head
        },
        ({
            let steps = pass_steps(esc, exit, src, first, second);
            pass_text(esc, exit, src, first, second) == run(esc, exit, src, start(), steps.drop_last()).out
                + painted_bold(esc.begin@, esc.end@, Paint::Blue, "└─["@)
                + painted_bold(esc.begin@, esc.end@, Paint::Magenta, "$"@)
                + painted_bold(esc.begin@, esc.end@, Paint::Blue, "]> "@)
        }),
{
    lemma_named_bodies(esc, exit, src);
    let fs = first + second;
    let k = choose|k: int| 0 <= k < fs.len() && fs[k] == Field::Whoami;
    lemma_whoami_origin(esc, src.whoami);
    lemma_failures_hold(esc, exit, src, fs, k);
    let steps = pass_steps(esc, exit, src, first, second);
    let rows = sections(first) + seq![Step::Line] + sections(second);
    assert(steps =~= rows + seq![Step::Line, Step::Errors, Step::Line] + seq![Step::Section(Field::Prompt)]);
    lemma_prompt_row(esc, exit, src, steps);
    if first.len() > 0 && first[0] == Field::Whoami {
        assert(steps[0] == Step::Section(Field::Whoami));
        lemma_failed_head(esc, exit, src, steps);
    }
}

/// Outside any repository the git field shows an empty segment and records no
/// failure, wherever it stands in the pass.
pub proof fn lemma_no_repository(esc: Escapes, exit: Option<i32>, src: Sources, m: WriterModel)
    requires
        src.git is NoRepository,
    ensures
        field_body(esc, exit, src, Field::Git) == Ok::<Seq<char>, Seq<char>>(Seq::empty()),
        step(esc, exit, src, m, Step::Section(Field::Git)).log == m.log,
        step(esc, exit, src, m, Step::Section(Field::Git)).out == m.out + separator(m.column, m.separated)
            + painted_bold(esc.begin@, esc.end@, Paint::Blue, open_glyph(m.column, m.row))
            + painted_bold(esc.begin@, esc.end@, Paint::Blue, "]"@),
{
    reveal(field_body);
    let s = separator(m.column, m.separated);
    let g = painted_bold(esc.begin@, esc.end@, Paint::Blue, open_glyph(m.column, m.row));
    let c = painted_bold(esc.begin@, esc.end@, Paint::Blue, "]"@);
    assert(m.out + (s + g + Seq::<char>::empty() + c) =~= m.out + s + g + c);
}

} // verus!
