//! The kind codec: a classification code (built-in or module-custom)
//! packed into 16 bits, and its fixed textual rendering.

use vstd::prelude::*;
use vstd::string::StringExecFns;

use crate::decimal::{dec_rep, u8_dec};

verus! {

/// Number of built-in kinds; codes at or past this render as unknown.
pub const NUM_BUILTIN_KINDS: u8 = 22;

pub const NOT_ALLOWED: u8 = 0;

pub const NOT_FOUND: u8 = 1;

pub const NOT_READY: u8 = 2;

pub const ACCESS_DENIED: u8 = 3;

pub const INTERNAL_ERR: u8 = 4;

pub const ALREADY_EXIST: u8 = 5;

pub const INVALID_VALUE: u8 = 6;

pub const NOT_AVAILABLE: u8 = 7;

pub const IN_USE: u8 = 8;

pub const UNREACHABLE: u8 = 9;

pub const NO_MEMORY: u8 = 10;

pub const DEFICIENCY: u8 = 11;

pub const TIMED_OUT: u8 = 12;

pub const INTERRUPTED: u8 = 13;

pub const TOO_MANY: u8 = 14;

pub const CHANGED: u8 = 15;

pub const NET_ERR: u8 = 16;

pub const IOERR: u8 = 17;

pub const DEVICE_ERR: u8 = 18;

pub const OSERR: u8 = 19;

pub const FFIERR: u8 = 20;

pub const REMOTE_ERR: u8 = 21;

/// The packed 16-bit encoding of a classification: bit 15 is the custom
/// flag, bits 4..11 hold the code, and the low 4 bits are always zero.
pub open spec fn spec_encode_code(code: u8, is_custom: bool) -> u16 {
    if is_custom {
        ((code as u16) << 4) | 0x8000
    } else {
        (code as u16) << 4
    }
}

/// The inverse of `spec_encode_code`.
pub open spec fn spec_decode_code(packed: u16) -> (u8, bool) {
    (((packed >> 4) as u8), (packed & 0x8000) != 0)
}

/// The low 4 bits of a packed kind are clear; this is what leaves room
/// for the representation's 2-bit tag without losing information.
pub open spec fn low_bits_clear(packed: u16) -> bool {
    packed & 0xF == 0
}

/// Law: packing a classification and unpacking it again gives back the
/// code and the custom flag, for every code and either flag.
pub proof fn lemma_codec_round_trip(code: u8, is_custom: bool)
    ensures
        spec_decode_code(spec_encode_code(code, is_custom)) == (code, is_custom),
{
    let packed = spec_encode_code(code, is_custom);
    assert((((((code as u16) << 4) | 0x8000) >> 4) as u8) == code) by (bit_vector);
    assert(((((code as u16) << 4) >> 4) as u8) == code) by (bit_vector);
    assert(((((code as u16) << 4) | 0x8000) & 0x8000) != 0) by (bit_vector);
    assert((((code as u16) << 4) & 0x8000) == 0) by (bit_vector);
}

/// Law: every packed kind has its low 4 bits clear.
pub proof fn lemma_encode_low_bits_clear(code: u8, is_custom: bool)
    ensures
        low_bits_clear(spec_encode_code(code, is_custom)),
{
    assert(((((code as u16) << 4) | 0x8000) & 0xF) == 0) by (bit_vector);
    assert((((code as u16) << 4) & 0xF) == 0) by (bit_vector);
}

/// A classification value: a code together with a built-in/custom flag,
/// held in its packed 16-bit form.
#[derive(Clone, Copy, Debug)]
pub struct RErrorKind(u16);

impl RErrorKind {
    /// The packed 16-bit form.
    pub closed spec fn packed(&self) -> u16 {
        self.0
    }

    /// Every kind that can be built has its low 4 bits clear.
    pub open spec fn wf(&self) -> bool {
        low_bits_clear(self.packed())
    }

    /// A built-in kind with the given code.
    pub fn new(code: u8) -> (r: Self)
        ensures
            r.packed() == spec_encode_code(code, false),
            r.wf(),
    {
        proof {
            lemma_encode_low_bits_clear(code, false);
        }
        RErrorKind(Self::encode_code(code, false))
    }

    /// A module-custom kind with the given code.
    pub fn new_custom(code: u8) -> (r: Self)
        ensures
            r.packed() == spec_encode_code(code, true),
            r.wf(),
    {
        proof {
            lemma_encode_low_bits_clear(code, true);
        }
        RErrorKind(Self::encode_code(code, true))
    }

    /// Packs a code and a custom flag into 16 bits.
    pub fn encode_code(code: u8, is_custom: bool) -> (r: u16)
        ensures
            r == spec_encode_code(code, is_custom),
    {
        if is_custom {
            ((code as u16) << 4) | 0x8000
        } else {
            (code as u16) << 4
        }
    }

    /// Unpacks a 16-bit encoding into its code and custom flag.
    pub fn decode_code(packed: u16) -> (r: (u8, bool))
        ensures
            r == spec_decode_code(packed),
    {
        let is_custom = (packed & 0x8000) != 0;
        ((packed >> 4) as u8, is_custom)
    }

    pub(crate) fn get_encode_code(&self) -> (r: u16)
        ensures
            r == self.packed(),
    {
        self.0
    }

    pub(crate) fn from_encode_code(packed: u16) -> (r: Self)
        requires
            low_bits_clear(packed),
        ensures
            r.packed() == packed,
            r.wf(),
    {
        RErrorKind(packed)
    }

    /// Renders this kind's classification text.
    pub fn render(&self) -> (r: String)
        ensures
            r@ == spec_kind_text(self.packed()),
    {
        let (code, is_custom) = Self::decode_code(self.0);
        let num = u8_dec(code);
        let mut s: String;
        if is_custom {
            s = String::from_str("MODULE ERROR (");
        } else if code < NUM_BUILTIN_KINDS {
            s = String::from_str(description(code));
            s.append(" (");
        } else {
            s = String::from_str("UNKNOWN ERROR (");
        }
        s.append(num.as_str());
        s.append(")");
        proof {
            assert(s@ =~= spec_kind_text(self.packed()));
        }
        s
    }
}

/// The fixed description of each built-in kind.
pub open spec fn spec_description(code: u8) -> Seq<char> {
    if code == 0 {
        "NOT ALLOWED"@
    } else if code == 1 {
        "NOT FOUND"@
    } else if code == 2 {
        "NOT ALREADY"@
    } else if code == 3 {
        "ACCESS DENIED"@
    } else if code == 4 {
        "INTERNAL ERROR"@
    } else if code == 5 {
        "ALREADY EXIST"@
    } else if code == 6 {
        "INVALID ARGUMENT"@
    } else if code == 7 {
        "NOT AVAILABLE"@
    } else if code == 8 {
        "IN USE"@
    } else if code == 9 {
        "UNREACHABLE"@
    } else if code == 10 {
        "NO MEMORY"@
    } else if code == 11 {
        "DEFICIENCY"@
    } else if code == 12 {
        "TIME OUT"@
    } else if code == 13 {
        "INTERRUPTED"@
    } else if code == 14 {
        "TOO MANY/MUCH"@
    } else if code == 15 {
        "SOMETHING CHANGED"@
    } else if code == 16 {
        "NETWORK ERROR"@
    } else if code == 17 {
        "IO ERROR"@
    } else if code == 18 {
        "DEVICE ERROR"@
    } else if code == 19 {
        "OS ERROR"@
    } else if code == 20 {
        "FFI ERROR"@
    } else {
        "REMOTE ERROR"@
    }
}

/// The rendered text of a packed kind: the fixed description and code for
/// built-in kinds in range, a generic text otherwise.
pub open spec fn spec_kind_text(packed: u16) -> Seq<char> {
    let (code, is_custom) = spec_decode_code(packed);
    if is_custom {
        "MODULE ERROR ("@ + dec_rep(code as nat) + ")"@
    } else if code < NUM_BUILTIN_KINDS {
        spec_description(code) + " ("@ + dec_rep(code as nat) + ")"@
    } else {
        "UNKNOWN ERROR ("@ + dec_rep(code as nat) + ")"@
    }
}

/// The fixed description of a built-in kind code.
pub fn description(code: u8) -> (r: &'static str)
    requires
        code < NUM_BUILTIN_KINDS,
    ensures
        r@ == spec_description(code),
{
    match code {
        0 => "NOT ALLOWED",
        1 => "NOT FOUND",
        2 => "NOT ALREADY",
        3 => "ACCESS DENIED",
        4 => "INTERNAL ERROR",
        5 => "ALREADY EXIST",
        6 => "INVALID ARGUMENT",
        7 => "NOT AVAILABLE",
        8 => "IN USE",
        9 => "UNREACHABLE",
        10 => "NO MEMORY",
        11 => "DEFICIENCY",
        12 => "TIME OUT",
        13 => "INTERRUPTED",
        14 => "TOO MANY/MUCH",
        15 => "SOMETHING CHANGED",
        16 => "NETWORK ERROR",
        17 => "IO ERROR",
        18 => "DEVICE ERROR",
        19 => "OS ERROR",
        20 => "FFI ERROR",
        _ => "REMOTE ERROR",
    }
}

} // verus!
