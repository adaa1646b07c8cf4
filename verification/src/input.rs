//! Key input: the model of one key press, and the recorder that
//! accumulates presses into the in-progress command line. Escape
//! aborts the recording, Backspace removes the newest press, and
//! everything else is kept verbatim, chords included.

use vstd::prelude::*;

use crate::text::push_char;

verus! {

/// Modifier bit for a held Shift key.
pub const MOD_SHIFT: u8 = 1;

/// Modifier bit for a held Control key.
pub const MOD_CONTROL: u8 = 2;

/// Modifier bit for a held Alt key.
pub const MOD_ALT: u8 = 4;

/// What a key press carries: a printable character, one of the named
/// editing keys, or any other key by an opaque code the embedding
/// layer assigns.
#[derive(Clone, Copy, PartialEq, Eq, Structural, Debug)]
pub enum KeyCode {
    Char(char),
    Enter,
    Esc,
    Backspace,
    Other(u32),
}

/// One key press: its key and the modifier bits held with it.
#[derive(Clone, Copy, PartialEq, Eq, Structural, Debug)]
pub struct KeyInput {
    pub code: KeyCode,
    pub mods: u8,
}

/// The recording after one more press: Escape clears it, Backspace
/// drops the newest press, anything else is appended.
pub open spec fn append_model(s: Seq<KeyInput>, ev: KeyInput) -> Seq<KeyInput> {
    match ev.code {
        KeyCode::Esc => Seq::empty(),
        KeyCode::Backspace => if s.len() > 0 {
            s.drop_last()
        } else {
            s
        },
        _ => s.push(ev),
    }
}

/// The glyphs one press shows on the command line: a printable
/// character shows itself, prefixed with a caret when Control is
/// held; other keys show nothing at this layer.
pub open spec fn key_glyphs(k: KeyInput) -> Seq<char> {
    match k.code {
        KeyCode::Char(c) => if k.mods & MOD_CONTROL != 0 {
            seq!['^', c]
        } else {
            seq![c]
        },
        _ => Seq::empty(),
    }
}

/// The text a recording shows: each press's glyphs, in order.
pub open spec fn display_of(s: Seq<KeyInput>) -> Seq<char>
    decreases s.len(),
{
    if s.len() == 0 {
        Seq::empty()
    } else {
        display_of(s.drop_last()) + key_glyphs(s.last())
    }
}

/// Records key presses into the in-progress command line.
pub struct InputHandler {
    motion: Vec<KeyInput>,
}

impl View for InputHandler {
    type V = Seq<KeyInput>;

    closed spec fn view(&self) -> Seq<KeyInput> {
        self.motion@
    }
}

impl InputHandler {
    /// A recorder with nothing recorded.
    pub fn new() -> (r: InputHandler)
        ensures
            r@ == Seq::<KeyInput>::empty(),
    {
        InputHandler { motion: Vec::new() }
    }

    /// Empties the recording; used after a dispatch.
    pub fn clear(&mut self)
        ensures
            final(self)@ == Seq::<KeyInput>::empty(),
    {
        self.motion.clear();
    }

    /// Feeds one press into the recording: Escape aborts it,
    /// Backspace drops the newest press, anything else is appended
    /// verbatim, chords included.
    pub fn append(&mut self, ev: KeyInput)
        ensures
            final(self)@ == append_model(old(self)@, ev),
    {
        match ev.code {
            KeyCode::Esc => self.motion.clear(),
            KeyCode::Backspace => {
                let _popped = self.motion.pop();
                proof {
                    if old(self)@.len() > 0 {
                        assert(self@ =~= old(self)@.drop_last());
                    }
                }
            },
            _ => self.motion.push(ev),
        }
    }

    /// The recorded presses, oldest first.
    pub fn motion(&self) -> (r: &Vec<KeyInput>)
        ensures
            r@ == self@,
    {
        &self.motion
    }

    /// The command line as the user reads it: each printable press's
    /// glyph, caret-prefixed under Control.
    #[verifier::loop_isolation(false)]
    pub fn to_display_string(&self) -> (r: String)
        ensures
            r@ == display_of(self@),
    {
        let mut r = String::new();
        let mut i: usize = 0;
        while i < self.motion.len()
            invariant
                i <= self.motion.len(),
                r@ == display_of(self@.take(i as int)),
            decreases self.motion.len() - i,
        {
            let k = self.motion[i];
            match k.code {
                KeyCode::Char(c) => {
                    if k.mods & MOD_CONTROL != 0 {
                        push_char(&mut r, '^');
                    }
                    push_char(&mut r, c);
                },
                _ => {},
            }
            proof {
                let cur = self@.take(i + 1int);
                assert(cur.drop_last() =~= self@.take(i as int));
                assert(cur.last() == self@[i as int]);
                assert(r@ =~= display_of(cur));
            }
            i = i + 1;
        }
        proof {
            assert(self@.take(self.motion@.len() as int) =~= self@);
        }
        r
    }
}

} // verus!
