use vstd::prelude::*;

use crate::instruction::{finalize, finalized, white, Instruction, Rgb};

verus! {

/// A piece of highlighted source: text in one style.
#[derive(Debug, Clone, PartialEq, Eq)]
pub struct StyledRun {
    pub text: String,
    pub foreground: Rgb,
    pub bold: bool,
}

pub open spec fn type_inst(c: char, bold: bool) -> Instruction {
    Instruction::Type(c, bold)
}

/// The characters of a run, typed in its weight.
pub open spec fn typed_chars(text: Seq<char>, bold: bool) -> Seq<Instruction>
    decreases text.len(),
{
    if text.len() == 0 {
        seq![]
    } else {
        typed_chars(text.drop_last(), bold).push(type_inst(text.last(), bold))
    }
}

/// A run, after text in colour `color`: a colour change only where the
/// colour differs, then its characters.
pub open spec fn run_insts(color: Rgb, run: StyledRun) -> Seq<Instruction> {
    let head = if run.foreground != color {
        seq![Instruction::SetForeground(run.foreground)]
    } else {
        seq![]
    };
    head + typed_chars(run.text@, run.bold)
}

/// The runs of one line, starting in colour `color`.
pub open spec fn line_insts(color: Rgb, runs: Seq<StyledRun>) -> Seq<Instruction>
    decreases runs.len(),
{
    if runs.len() == 0 {
        seq![]
    } else {
        run_insts(color, runs[0]) + line_insts(runs[0].foreground, runs.drop_first())
    }
}

/// The colour in force after a line's runs.
pub open spec fn color_after(color: Rgb, runs: Seq<StyledRun>) -> Rgb {
    if runs.len() == 0 { color } else { runs.last().foreground }
}

/// Lines in reading order, each closed by a newline back to column zero.
pub open spec fn compiled_from(color: Rgb, lines: Seq<Seq<StyledRun>>) -> Seq<Instruction>
    decreases lines.len(),
{
    if lines.len() == 0 {
        seq![]
    } else {
        line_insts(color, lines[0]) + seq![Instruction::Newline { x: 0 }] + compiled_from(
            color_after(color, lines[0]),
            lines.drop_first(),
        )
    }
}

/// The instructions for a highlighted source, starting from the editor's
/// default colour.
pub open spec fn compiled(lines: Seq<Seq<StyledRun>>) -> Seq<Instruction> {
    compiled_from(white(), lines)
}

pub open spec fn lines_view(lines: Seq<Vec<StyledRun>>) -> Seq<Seq<StyledRun>> {
    lines.map_values(|l: Vec<StyledRun>| l@)
}

proof fn lemma_typed_chars_push(s: Seq<char>, c: char, bold: bool)
    ensures
        typed_chars(s.push(c), bold) == typed_chars(s, bold).push(type_inst(c, bold)),
{
    assert(s.push(c).drop_last() =~= s);
}

proof fn lemma_line_insts_unfold(color: Rgb, runs: Seq<StyledRun>, k: int)
    requires
        0 <= k < runs.len(),
    ensures
        line_insts(color, runs.subrange(k, runs.len() as int)) == run_insts(color, runs[k])
            + line_insts(runs[k].foreground, runs.subrange(k + 1, runs.len() as int)),
{
    let rest = runs.subrange(k, runs.len() as int);
    assert(rest.drop_first() =~= runs.subrange(k + 1, runs.len() as int));
}

/// Appends the characters of `text`, typed in weight `bold`.
fn push_typed(out: &mut Vec<Instruction>, text: &str, bold: bool)
    ensures
        final(out)@ == old(out)@ + typed_chars(text@, bold),
{
    let chars = crate::text::chars_of(text);
    let ghost start = out@;
    let mut j: usize = 0;
    assert(typed_chars(chars@.subrange(0, 0), bold) =~= seq![]);
    assert(out@ =~= start + seq![]);
    while j < chars.len()
        invariant
            j <= chars@.len(),
            chars@ == text@,
            out@ == start + typed_chars(chars@.subrange(0, j as int), bold),
        decreases chars@.len() - j,
    {
        let ghost o = out@;
        let c = chars[j];
        out.push(Instruction::Type(c, bold));
        proof {
            assert(chars@.subrange(0, j + 1) =~= chars@.subrange(0, j as int).push(c));
            lemma_typed_chars_push(chars@.subrange(0, j as int), c, bold);
            assert(out@ =~= start + typed_chars(chars@.subrange(0, j + 1), bold));
        }
        j = j + 1;
    }
    assert(chars@.subrange(0, chars@.len() as int) =~= chars@);
}

/// Appends the instructions of one line, starting in colour `color`, and
/// returns the colour in force after it.
fn compile_line(out: &mut Vec<Instruction>, color: Rgb, runs: &Vec<StyledRun>) -> (r: Rgb)
    ensures
        final(out)@ == old(out)@ + line_insts(color, runs@),
        r == color_after(color, runs@),
{
    let ghost start = out@;
    let ghost n = runs@.len() as int;
    let mut current = color;
    let mut k: usize = 0;
    assert(runs@.subrange(0, n) =~= runs@);
    while k < runs.len()
        invariant
            k <= n,
            n == runs@.len(),
            out@ + line_insts(current, runs@.subrange(k as int, n)) == start + line_insts(
                color,
                runs@,
            ),
            k == 0 ==> current == color,
            k > 0 ==> current == runs@[k - 1].foreground,
        decreases n - k,
    {
        let run = &runs[k];
        proof { lemma_line_insts_unfold(current, runs@, k as int); }
        let ghost before = out@;
        if run.foreground != current {
            out.push(Instruction::SetForeground(run.foreground));
        }
        push_typed(out, run.text.as_str(), run.bold);
        assert(out@ =~= before + run_insts(current, *run));
        current = run.foreground;
        k = k + 1;
    }
    assert(runs@.subrange(n, n) =~= seq![]);
    proof {
        if n > 0 {
            assert(runs@.last() == runs@[n - 1]);
        }
    }
    current
}

/// Compiles highlighted source into editor instructions: characters in
/// reading order, a colour change before each character whose colour
/// differs from the last one set, and a newline to column zero after
/// every line.
pub fn compile(lines: &Vec<Vec<StyledRun>>) -> (r: Vec<Instruction>)
    ensures
        r@ == compiled(lines_view(lines@)),
{
    let ghost all = lines_view(lines@);
    let ghost n = all.len() as int;
    let mut out: Vec<Instruction> = Vec::new();
    let mut color = Rgb::white();
    let mut k: usize = 0;
    assert(all.subrange(0, n) =~= all);
    while k < lines.len()
        invariant
            k <= n,
            n == lines@.len(),
            all == lines_view(lines@),
            out@ + compiled_from(color, all.subrange(k as int, n)) == compiled(all),
        decreases n - k,
    {
        let ghost rest = all.subrange(k as int, n);
        assert(rest[0] == lines@[k as int]@);
        assert(rest.drop_first() =~= all.subrange(k + 1, n));
        let ghost before = out@;
        let next = compile_line(&mut out, color, &lines[k]);
        out.push(Instruction::Newline { x: 0 });
        assert(out@ =~= before + line_insts(color, rest[0]) + seq![Instruction::Newline { x: 0 }]);
        color = next;
        k = k + 1;
    }
    assert(all.subrange(n, n) =~= seq![]);
    out
}

/// The compiled instructions of any non-empty source end with the newline
/// after its last line: the instruction that a session drops.
pub proof fn lemma_compiled_ends_with_newline(color: Rgb, lines: Seq<Seq<StyledRun>>)
    requires
        lines.len() > 0,
    ensures
        compiled_from(color, lines).len() > 0,
        compiled_from(color, lines).last() == (Instruction::Newline { x: 0 }),
    decreases lines.len(),
{
    let head = line_insts(color, lines[0]) + seq![Instruction::Newline { x: 0 }];
    let rest = compiled_from(color_after(color, lines[0]), lines.drop_first());
    assert(compiled_from(color, lines) == head + rest);
    if lines.len() > 1 {
        lemma_compiled_ends_with_newline(color_after(color, lines[0]), lines.drop_first());
        assert((head + rest).last() == rest.last());
    } else {
        assert(rest =~= seq![]);
        assert(head + rest =~= head);
    }
}

/// The instructions of an editor session for a highlighted source: the
/// compiled ones, framed for playback.
pub fn insts(lines: &Vec<Vec<StyledRun>>) -> (r: Vec<Instruction>)
    ensures
        r@ == finalized(compiled(lines_view(lines@))),
{
    finalize(compile(lines))
}

/// For a non-empty source, the session drops the newline that closes the
/// last line, opens with a one-second pause and closes with a wait for the
/// key press that ends it: one instruction more than were compiled.
pub proof fn lemma_session_frame(lines: Seq<Seq<StyledRun>>)
    requires
        lines.len() > 0,
    ensures
        compiled(lines).last() == (Instruction::Newline { x: 0 }),
        finalized(compiled(lines)).len() == compiled(lines).len() - 1 + 2,
        finalized(compiled(lines))[0] == Instruction::Pause(1000),
        finalized(compiled(lines)).last() == Instruction::WaitForQuit,
        finalized(compiled(lines)).subrange(1, compiled(lines).len() as int) == compiled(
            lines,
        ).drop_last(),
{
    lemma_compiled_ends_with_newline(white(), lines);
    let c = compiled(lines);
    assert(finalized(c).subrange(1, c.len() as int) =~= c.drop_last());
}

} // verus!
