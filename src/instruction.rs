use vstd::prelude::*;

verus! {

/// A 24-bit colour.
#[derive(Debug, Clone, Copy, PartialEq, Eq, Structural)]
pub struct Rgb {
    pub r: u8,
    pub g: u8,
    pub b: u8,
}

pub open spec fn white() -> Rgb {
    Rgb { r: 255, g: 255, b: 255 }
}

impl Rgb {
    /// The colour of text that no style has touched.
    pub fn white() -> (r: Rgb)
        ensures
            r == white(),
    {
        Rgb { r: 255, g: 255, b: 255 }
    }
}

/// One step of an editor session.
#[derive(Debug, Clone, PartialEq, Eq)]
pub enum Instruction {
    /// Puts the cursor at column `0`, row `1`.
    MoveCursor(u16, u16),
    /// Inserts a character at the cursor, bold or not.
    Type(char, bool),
    /// Colours the characters typed from now on.
    SetForeground(Rgb),
    /// Moves to the next row, at column `x`.
    Newline { x: i32 },
    /// Moves to column `x` on the same row.
    SetX(i32),
    /// Waits this many milliseconds.
    Pause(u64),
    /// Waits for a key press.
    Wait,
    /// Waits for a key press, then ends the session.
    WaitForQuit,
    /// Focuses another file: its path, and the number of the
    /// acknowledgment channel that key presses go to from now on.
    UpdateState(String, usize),
    /// Stops drawing the cursor.
    HideCursor,
}

/// The session's instructions around what the compiler gave: the last
/// compiled instruction dropped, a one-second pause in front, and a final
/// wait for the key press that ends the session.
pub open spec fn finalized(compiled: Seq<Instruction>) -> Seq<Instruction> {
    let body = if compiled.len() > 0 { compiled.drop_last() } else { compiled };
    seq![Instruction::Pause(1000)] + body + seq![Instruction::WaitForQuit]
}

/// Frames compiled instructions for playback (see [`finalized`]).
pub fn finalize(compiled: Vec<Instruction>) -> (r: Vec<Instruction>)
    ensures
        r@ == finalized(compiled@),
{
    let mut body = compiled;
    let ghost c = body@;
    body.pop();
    let mut r: Vec<Instruction> = Vec::new();
    r.push(Instruction::Pause(1000));
    r.append(&mut body);
    r.push(Instruction::WaitForQuit);
    assert(r@ =~= finalized(c));
    r
}

/// A session of `n` compiled instructions plays `n + 1` of them: the last
/// compiled one is dropped, the rest are kept in order between the opening
/// pause and the closing wait.
pub proof fn lemma_finalized_shape(compiled: Seq<Instruction>)
    requires
        compiled.len() > 0,
    ensures
        finalized(compiled).len() == compiled.len() - 1 + 2,
        finalized(compiled)[0] == Instruction::Pause(1000),
        finalized(compiled).last() == Instruction::WaitForQuit,
        forall|i: int|
            0 <= i < compiled.len() - 1 ==> #[trigger] finalized(compiled)[i + 1] == compiled[i],
{
}

} // verus!
