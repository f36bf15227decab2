use vstd::prelude::*;

use crate::error::StreamError;

verus! {

// The header that opens a session is the fourteen ASCII bytes
// `stream <mode> <NN>s`: the mode is `sin` or `mic`, and NN is the length of
// the session in seconds, as two decimal digits.

// ASCII codes of the characters that headers are made of.
pub const LOWER_A: u8 = 97;
pub const LOWER_C: u8 = 99;
pub const LOWER_E: u8 = 101;
pub const LOWER_I: u8 = 105;
pub const LOWER_M: u8 = 109;
pub const LOWER_N: u8 = 110;
pub const LOWER_R: u8 = 114;
pub const LOWER_S: u8 = 115;
pub const LOWER_T: u8 = 116;
pub const SPACE: u8 = 32;
pub const DIGIT_ZERO: u8 = 48;
pub const DIGIT_NINE: u8 = 57;

/// Which producer feeds the session: a generated tone or the microphone.
#[derive(Clone, Copy, Debug, PartialEq, Eq, Structural)]
pub enum Mode {
    Sine,
    Mic,
}

/// What a session header carries.
#[derive(Clone, Copy, Debug, PartialEq, Eq, Structural)]
pub struct Handshake {
    pub mode: Mode,
    pub seconds: u8,
}

/// The mode that a three-byte token names, if any.
pub open spec fn mode_of_token(a: u8, b: u8, c: u8) -> Option<Mode> {
    if a == LOWER_S && b == LOWER_I && c == LOWER_N {
        Some(Mode::Sine)
    } else if a == LOWER_M && b == LOWER_I && c == LOWER_C {
        Some(Mode::Mic)
    } else {
        None
    }
}

/// The three-byte token of a mode.
pub open spec fn mode_token(m: Mode) -> Seq<u8> {
    match m {
        Mode::Sine => seq![LOWER_S, LOWER_I, LOWER_N],
        Mode::Mic => seq![LOWER_M, LOWER_I, LOWER_C],
    }
}

pub open spec fn is_digit(b: u8) -> bool {
    DIGIT_ZERO <= b <= DIGIT_NINE
}

/// The header that announces `h`.
pub open spec fn handshake_bytes(h: Handshake) -> Seq<u8> {
    seq![LOWER_S, LOWER_T, LOWER_R, LOWER_E, LOWER_A, LOWER_M, SPACE] + mode_token(h.mode) + seq![
        SPACE,
        (DIGIT_ZERO + h.seconds / 10) as u8,
        (DIGIT_ZERO + h.seconds % 10) as u8,
        LOWER_S,
    ]
}

/// What a header says, or `None` where it breaks the grammar.
pub open spec fn parse_spec(b: Seq<u8>) -> Option<Handshake> {
    if b.len() == 14 && b[0] == LOWER_S && b[1] == LOWER_T && b[2] == LOWER_R && b[3] == LOWER_E && b[4] == LOWER_A
        && b[5] == LOWER_M && b[6] == SPACE && mode_of_token(b[7], b[8], b[9]) is Some && b[10] == SPACE
        && is_digit(b[11]) && is_digit(b[12]) && b[13] == LOWER_S {
        Some(
            Handshake {
                mode: mode_of_token(b[7], b[8], b[9])->Some_0,
                seconds: (10 * (b[11] - DIGIT_ZERO) + (b[12] - DIGIT_ZERO)) as u8,
            },
        )
    } else {
        None
    }
}

impl Handshake {
    /// The header for a session in `mode`; a length beyond what two digits
    /// can say is cut to 99 seconds.
    pub fn new(mode: Mode, seconds: u32) -> (r: Handshake)
        ensures
            r.mode == mode,
            r.seconds == if seconds <= 99 { seconds } else { 99 },
    {
        let seconds = if seconds <= 99 { seconds as u8 } else { 99u8 };
        Handshake { mode, seconds }
    }

    /// The bytes of the header that announces this session.
    pub fn message(&self) -> (r: Vec<u8>)
        requires
            self.seconds <= 99,
        ensures
            r@ == handshake_bytes(*self),
    {
        let mut out: Vec<u8> = Vec::with_capacity(14);
        out.push(LOWER_S);
        out.push(LOWER_T);
        out.push(LOWER_R);
        out.push(LOWER_E);
        out.push(LOWER_A);
        out.push(LOWER_M);
        out.push(SPACE);
        match self.mode {
            Mode::Sine => {
                out.push(LOWER_S);
                out.push(LOWER_I);
                out.push(LOWER_N);
            },
            Mode::Mic => {
                out.push(LOWER_M);
                out.push(LOWER_I);
                out.push(LOWER_C);
            },
        }
        out.push(SPACE);
        out.push(DIGIT_ZERO + self.seconds / 10);
        out.push(DIGIT_ZERO + self.seconds % 10);
        out.push(LOWER_S);
        assert(out@ =~= handshake_bytes(*self));
        out
    }
}

/// Reads a session header. Anything but the exact grammar is refused as
/// malformed, before any session is set up.
pub fn parse_handshake(data: &[u8]) -> (r: Result<Handshake, StreamError>)
    ensures
        r == match parse_spec(data@) {
            Some(h) => Ok::<Handshake, StreamError>(h),
            None => Err(StreamError::MalformedHandshake),
        },
{
    if data.len() != 14 {
        return Err(StreamError::MalformedHandshake);
    }
    if !(data[0] == LOWER_S && data[1] == LOWER_T && data[2] == LOWER_R && data[3] == LOWER_E && data[4] == LOWER_A
        && data[5] == LOWER_M && data[6] == SPACE && data[10] == SPACE && data[13] == LOWER_S) {
        return Err(StreamError::MalformedHandshake);
    }
    let mode = if data[7] == LOWER_S && data[8] == LOWER_I && data[9] == LOWER_N {
        Mode::Sine
    } else if data[7] == LOWER_M && data[8] == LOWER_I && data[9] == LOWER_C {
        Mode::Mic
    } else {
        return Err(StreamError::MalformedHandshake);
    };
    let tens = data[11];
    let units = data[12];
    if !(DIGIT_ZERO <= tens && tens <= DIGIT_NINE && DIGIT_ZERO <= units && units <= DIGIT_NINE) {
        return Err(StreamError::MalformedHandshake);
    }
    Ok(Handshake { mode, seconds: 10 * (tens - DIGIT_ZERO) + (units - DIGIT_ZERO) })
}

/// The grammar and the headers agree: the header of any session of at most
/// 99 seconds reads back as that session, and a header that reads as a
/// session is that session's header, byte for byte.
pub proof fn lemma_handshake_round_trip(h: Handshake, b: Seq<u8>)
    requires
        h.seconds <= 99,
    ensures
        parse_spec(handshake_bytes(h)) == Some(h),
        parse_spec(b) == Some(h) ==> b == handshake_bytes(h),
{
    let m = handshake_bytes(h);
    assert(m.len() == 14);
    assert(m[7] == mode_token(h.mode)[0] && m[8] == mode_token(h.mode)[1] && m[9] == mode_token(h.mode)[2]);
    assert(10 * (h.seconds / 10) + h.seconds % 10 == h.seconds);
    if parse_spec(b) == Some(h) {
        assert(b =~= m);
    }
}

} // verus!
