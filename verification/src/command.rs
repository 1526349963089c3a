//! Client commands and their serialization into PTY input bytes.

use vstd::prelude::*;
use vstd::utf8::encode_utf8;

verus! {

/// A command issued by a client over any transport.
#[derive(Debug)]
pub enum Command {
    /// Input sequences to forward to the PTY.
    Input(Vec<InputSeq>),
    /// A mouse event, serialized per the SGR protocol.
    Mouse(MouseEvent),
    /// Convenience: sends press then release.
    MouseClick(MouseEvent),
    /// Ask the session to fan out a snapshot event.
    Snapshot,
    /// Change the terminal size to (cols, rows).
    Resize(usize, usize),
}

/// One input sequence: a plain string, or a pair whose first form is sent
/// in normal cursor-key mode and whose second is sent in application mode.
#[derive(Debug, PartialEq)]
pub enum InputSeq {
    Standard(String),
    Cursor(String, String),
}

/// The bytes a single input sequence contributes, given the emulator's
/// cursor-key application mode at the moment of dispatch.
pub open spec fn seq_bytes(seq: InputSeq, app_mode: bool) -> Seq<u8> {
    match seq {
        InputSeq::Standard(s) => encode_utf8(s@),
        InputSeq::Cursor(normal, application) => if app_mode {
            encode_utf8(application@)
        } else {
            encode_utf8(normal@)
        },
    }
}

/// The bytes a list of input sequences contributes, in order.
pub open spec fn seqs_bytes(seqs: Seq<InputSeq>, app_mode: bool) -> Seq<u8>
    decreases seqs.len(),
{
    if seqs.len() == 0 {
        Seq::empty()
    } else {
        seqs_bytes(seqs.drop_last(), app_mode) + seq_bytes(seqs.last(), app_mode)
    }
}

/// Select the byte form of one sequence: a `Standard` sequence is itself;
/// a `Cursor` pair yields its first form in normal mode and its second in
/// application mode.
pub fn seq_as_bytes(seq: &InputSeq, app_mode: bool) -> (r: &[u8])
    ensures
        r@ == seq_bytes(*seq, app_mode),
{
    match (seq, app_mode) {
        (InputSeq::Standard(s), _) => s.as_str().as_bytes(),
        (InputSeq::Cursor(seq1, _seq2), false) => seq1.as_str().as_bytes(),
        (InputSeq::Cursor(_seq1, seq2), true) => seq2.as_str().as_bytes(),
    }
}

/// Serialize a list of input sequences into the single contiguous byte run
/// the PTY receives, respecting the cursor-key mode at dispatch time.
pub fn seqs_to_bytes(seqs: &[InputSeq], app_mode: bool) -> (r: Vec<u8>)
    ensures
        r@ == seqs_bytes(seqs@, app_mode),
{
    let mut bytes: Vec<u8> = Vec::new();
    let mut i: usize = 0;
    while i < seqs.len()
        invariant
            i <= seqs@.len(),
            bytes@ == seqs_bytes(seqs@.subrange(0, i as int), app_mode),
        decreases seqs@.len() - i,
    {
        let chunk = seq_as_bytes(&seqs[i], app_mode);
        append_bytes(&mut bytes, chunk);
        i = i + 1;
        proof {
            let prefix = seqs@.subrange(0, i as int);
            assert(prefix.drop_last() =~= seqs@.subrange(0, i - 1));
            assert(prefix.last() == seqs@[i - 1]);
        }
    }
    proof {
        assert(seqs@.subrange(0, seqs@.len() as int) =~= seqs@);
    }
    bytes
}

/// Append a byte slice to a byte vector.
pub fn append_bytes(out: &mut Vec<u8>, src: &[u8])
    ensures
        final(out)@ == old(out)@ + src@,
{
    let mut i: usize = 0;
    while i < src.len()
        invariant
            i <= src@.len(),
            out@ == old(out)@ + src@.subrange(0, i as int),
        decreases src@.len() - i,
    {
        out.push(src[i]);
        i = i + 1;
        assert(old(out)@ + src@.subrange(0, i as int) =~= (old(out)@ + src@.subrange(
            0,
            i - 1,
        )).push(src@[i - 1]));
    }
    assert(src@.subrange(0, src@.len() as int) =~= src@);
}

/// In cursor-key application mode a `Cursor` pair contributes exactly its
/// application form, and in normal mode exactly its normal form.
pub proof fn lemma_cursor_selection(normal: String, application: String, app_mode: bool)
    ensures
        seq_bytes(InputSeq::Cursor(normal, application), app_mode) == if app_mode {
            encode_utf8(application@)
        } else {
            encode_utf8(normal@)
        },
{
}

/// A mouse event to be serialized for the PTY.  Coordinates are 1-based.
#[derive(Debug, Clone)]
pub struct MouseEvent {
    pub event_type: MouseEventType,
    pub button: MouseButton,
    pub row: usize,
    pub col: usize,
    pub modifiers: MouseModifiers,
}

#[derive(Debug, Clone, Copy, PartialEq, Eq, Structural)]
pub enum MouseEventType {
    Press,
    Release,
    Drag,
}

#[derive(Debug, Clone, Copy, PartialEq, Eq, Structural)]
pub enum MouseButton {
    Left,
    Middle,
    Right,
    WheelUp,
    WheelDown,
}

#[derive(Debug, Clone, Copy, PartialEq, Eq, Structural)]
pub struct MouseModifiers {
    pub shift: bool,
    pub alt: bool,
    pub control: bool,
}

impl Default for MouseModifiers {
    /// No modifier held.
    fn default() -> (r: MouseModifiers)
        ensures
            r == (MouseModifiers { shift: false, alt: false, control: false }),
    {
        MouseModifiers { shift: false, alt: false, control: false }
    }
}

/// The decimal digits of `n`, most significant first, as ASCII bytes.
pub open spec fn dec_digits(n: nat) -> Seq<u8>
    decreases n,
{
    if n < 10 {
        seq![(n + 48) as u8]
    } else {
        dec_digits(n / 10) + seq![(n % 10 + 48) as u8]
    }
}

/// Append the decimal rendering of `n` to `out`.
pub fn push_dec(out: &mut Vec<u8>, n: usize)
    ensures
        final(out)@ == old(out)@ + dec_digits(n as nat),
    decreases n,
{
    if n < 10 {
        out.push((n as u8) + 48);
        assert(old(out)@ + dec_digits(n as nat) =~= old(out)@.push((n + 48) as u8));
    } else {
        assert(n / 10 < n && n % 10 < 10) by (nonlinear_arith)
            requires
                n >= 10,
        ;
        push_dec(out, n / 10);
        out.push((n % 10) as u8 + 48);
        assert(old(out)@ + dec_digits(n as nat) =~= (old(out)@ + dec_digits(
            (n / 10) as nat,
        )).push((n % 10 + 48) as u8));
    }
}

/// The SGR button code: the base button value plus modifier bits
/// (4 for shift, 8 for alt, 16 for control) plus 32 on drag motion.
pub open spec fn spec_button_code(e: MouseEvent) -> nat {
    (match e.button {
        MouseButton::Left => 0nat,
        MouseButton::Middle => 1nat,
        MouseButton::Right => 2nat,
        MouseButton::WheelUp => 64nat,
        MouseButton::WheelDown => 65nat,
    }) + (if e.modifiers.shift {
        4nat
    } else {
        0nat
    }) + (if e.modifiers.alt {
        8nat
    } else {
        0nat
    }) + (if e.modifiers.control {
        16nat
    } else {
        0nat
    }) + (if e.event_type is Drag {
        32nat
    } else {
        0nat
    })
}

/// The SGR terminator: `M` for press and drag, `m` for release.
pub open spec fn spec_terminator(t: MouseEventType) -> u8 {
    match t {
        MouseEventType::Press => 77u8,
        MouseEventType::Drag => 77u8,
        MouseEventType::Release => 109u8,
    }
}

/// The full SGR serialization of a mouse event:
/// `ESC [ < button ; col ; row` followed by the terminator.
pub open spec fn sgr_bytes(e: MouseEvent) -> Seq<u8> {
    seq![27u8, 91u8, 60u8] + dec_digits(spec_button_code(e)) + seq![59u8] + dec_digits(
        e.col as nat,
    ) + seq![59u8] + dec_digits(e.row as nat) + seq![spec_terminator(e.event_type)]
}

/// Serialize a mouse event per the SGR protocol:
/// `ESC [ < btn ; col ; row` ending in `M` for press or drag and `m` for
/// release, where `btn` is the base button code plus modifier and motion
/// bits.
pub fn mouse_to_bytes(event: &MouseEvent) -> (r: Vec<u8>)
    ensures
        r@ == sgr_bytes(*event),
{
    let mut btn: usize = match event.button {
        MouseButton::Left => 0,
        MouseButton::Middle => 1,
        MouseButton::Right => 2,
        MouseButton::WheelUp => 64,
        MouseButton::WheelDown => 65,
    };
    if event.modifiers.shift {
        btn = btn + 4;
    }
    if event.modifiers.alt {
        btn = btn + 8;
    }
    if event.modifiers.control {
        btn = btn + 16;
    }
    if matches!(event.event_type, MouseEventType::Drag) {
        btn = btn + 32;
    }
    assert(btn == spec_button_code(*event));

    let suffix: u8 = match event.event_type {
        MouseEventType::Press => 77,
        MouseEventType::Drag => 77,
        MouseEventType::Release => 109,
    };

    let mut out: Vec<u8> = Vec::new();
    out.push(27);
    out.push(91);
    out.push(60);
    assert(out@ =~= seq![27u8, 91u8, 60u8]);
    push_dec(&mut out, btn);
    out.push(59);
    push_dec(&mut out, event.col);
    out.push(59);
    push_dec(&mut out, event.row);
    out.push(suffix);
    proof {
        assert(out@ =~= sgr_bytes(*event));
    }
    out
}

/// The event with the same coordinates, button and modifiers whose type is
/// `Press`.
pub open spec fn press_of(e: MouseEvent) -> MouseEvent {
    MouseEvent { event_type: MouseEventType::Press, ..e }
}

/// The event with the same coordinates, button and modifiers whose type is
/// `Release`.
pub open spec fn release_of(e: MouseEvent) -> MouseEvent {
    MouseEvent { event_type: MouseEventType::Release, ..e }
}

/// The press and release serializations of one event agree on coordinates,
/// button and modifier bits: both use the same button code (no motion
/// bit), press ends in `M`, release in `m`.
pub proof fn lemma_click_pair(e: MouseEvent)
    ensures
        press_of(e).row == e.row && press_of(e).col == e.col,
        release_of(e).row == e.row && release_of(e).col == e.col,
        spec_button_code(press_of(e)) == spec_button_code(release_of(e)),
        sgr_bytes(press_of(e)) == seq![27u8, 91u8, 60u8] + dec_digits(
            spec_button_code(press_of(e)),
        ) + seq![59u8] + dec_digits(e.col as nat) + seq![59u8] + dec_digits(e.row as nat)
            + seq![77u8],
        sgr_bytes(release_of(e)) == seq![27u8, 91u8, 60u8] + dec_digits(
            spec_button_code(press_of(e)),
        ) + seq![59u8] + dec_digits(e.col as nat) + seq![59u8] + dec_digits(e.row as nat)
            + seq![109u8],
{
}

/// Whether a mouse event's 1-based coordinates lie inside a terminal of
/// the given size.  Out-of-range events are still serialized; the caller
/// only warns about them.
pub fn mouse_in_bounds(e: &MouseEvent, cols: usize, rows: usize) -> (r: bool)
    ensures
        r == (e.row <= rows && e.col <= cols),
{
    e.row <= rows && e.col <= cols
}

} // verus!
