//! Measurement decoding: the payload's mode, range and flag bytes mapped
//! to their labels, and the whole payload decoded into one `Measurement`.
//!
//! Payload layout: byte 0 is the mode code, byte 1 the range code, bytes
//! 2 through 8 the display digits, the third-to-last byte the flag byte
//! (REL bit 0, HOLD bit 1, MIN/MAX as whole-byte values) and the
//! second-to-last byte the auto/manual indicator.  Every lookup is total:
//! a code outside its table yields the literal unknown marker `"?"` (or
//! the empty label for an inactive flag), never an error.  Only a display
//! text that fails the numeric parse invalidates the measurement.

use vstd::prelude::*;
use vstd::slice::slice_index_get;
use crate::display::{
    display_text, is_number, num_frac_digits, num_mantissa, num_negative, parse_display_ascii,
    parse_number, Number, body_ok, num_body, dot_index, is_ascii_digit,
};

verus! {

/// The label of each measurement mode code; codes outside the table map
/// to the unknown marker.
pub open spec fn mode_label(mode: u8) -> Seq<char> {
    match mode {
        0u8 => "V_AC"@,
        24u8 => "V_AC_LPF"@,
        2u8 => "V_DC"@,
        25u8 => "V_AC_DC"@,
        1u8 => "mV_AC"@,
        3u8 => "mV_DC"@,
        6u8 => "Resistance Ω"@,
        7u8 => "Continuity 🕪"@,
        8u8 => "Diode 𜰏"@,
        9u8 => "Capacitance 𜰓"@,
        4u8 => "Hz"@,
        5u8 => "%"@,
        18u8 => "Transistor gain 𜰐 β hFE"@,
        12u8 => "μA_DC"@,
        13u8 => "μA_AC"@,
        14u8 => "mA_DC"@,
        15u8 => "mA_AC"@,
        16u8 => "A_DC"@,
        17u8 => "A_AC"@,
        20u8 => "NCV"@,
        _ => "?"@,
    }
}

/// Maps a mode code to its label; any code outside the 19-entry table
/// yields the unknown marker.
pub fn parse_mode(mode: u8) -> (r: &'static str)
    ensures
        r@ == mode_label(mode),
{
    match mode {
        0 => "V_AC",
        24 => "V_AC_LPF",
        2 => "V_DC",
        25 => "V_AC_DC",
        1 => "mV_AC",
        3 => "mV_DC",
        6 => "Resistance Ω",
        7 => "Continuity 🕪",
        8 => "Diode 𜰏",
        9 => "Capacitance 𜰓",
        4 => "Hz",
        5 => "%",
        18 => "Transistor gain 𜰐 β hFE",
        12 => "μA_DC",
        13 => "μA_AC",
        14 => "mA_DC",
        15 => "mA_AC",
        16 => "A_DC",
        17 => "A_AC",
        20 => "NCV",
        _ => "?",
    }
}

/// The 20 mode codes that the mode table defines a label for.
pub open spec fn mode_defined(mode: u8) -> bool {
    ||| mode == 0
    ||| mode == 24
    ||| mode == 2
    ||| mode == 25
    ||| mode == 1
    ||| mode == 3
    ||| mode == 6
    ||| mode == 7
    ||| mode == 8
    ||| mode == 9
    ||| mode == 4
    ||| mode == 5
    ||| mode == 18
    ||| mode == 12
    ||| mode == 13
    ||| mode == 14
    ||| mode == 15
    ||| mode == 16
    ||| mode == 17
    ||| mode == 20
}

/// Law: the mode table is total over its domain — every defined code
/// maps to a real label, and every code outside the defined set maps to
/// the unknown marker, and to nothing else.
pub proof fn lemma_mode_table_total(mode: u8)
    ensures
        mode_defined(mode) ==> mode_label(mode) != "?"@,
        !mode_defined(mode) ==> mode_label(mode) == "?"@,
{
    reveal_strlit("V_AC");
    reveal_strlit("V_AC_LPF");
    reveal_strlit("V_DC");
    reveal_strlit("V_AC_DC");
    reveal_strlit("mV_AC");
    reveal_strlit("mV_DC");
    reveal_strlit("Resistance Ω");
    reveal_strlit("Continuity 🕪");
    reveal_strlit("Diode 𜰏");
    reveal_strlit("Capacitance 𜰓");
    reveal_strlit("Hz");
    reveal_strlit("%");
    reveal_strlit("Transistor gain 𜰐 β hFE");
    reveal_strlit("μA_DC");
    reveal_strlit("μA_AC");
    reveal_strlit("mA_DC");
    reveal_strlit("mA_AC");
    reveal_strlit("A_DC");
    reveal_strlit("A_AC");
    reveal_strlit("NCV");
    reveal_strlit("?");
    assert("?"@.len() == 1);
    assert("V_AC"@.len() != 1);
    assert("V_AC_LPF"@.len() != 1);
    assert("V_DC"@.len() != 1);
    assert("V_AC_DC"@.len() != 1);
    assert("mV_AC"@.len() != 1);
    assert("mV_DC"@.len() != 1);
    assert("Resistance Ω"@.len() != 1);
    assert("Continuity 🕪"@.len() != 1);
    assert("Diode 𜰏"@.len() != 1);
    assert("Capacitance 𜰓"@.len() != 1);
    assert("Hz"@.len() != 1);
    assert("Transistor gain 𜰐 β hFE"@.len() != 1);
    assert("μA_DC"@.len() != 1);
    assert("μA_AC"@.len() != 1);
    assert("mA_DC"@.len() != 1);
    assert("mA_AC"@.len() != 1);
    assert("A_DC"@.len() != 1);
    assert("A_AC"@.len() != 1);
    assert("NCV"@.len() != 1);
    assert("%"@.len() == 1 && "%"@[0] == '%' && "?"@[0] == '?');
}

/// The unit label of each (mode, range) pair; each mode accepts its own
/// range-code subset, and any pair outside the table maps to the unknown
/// marker.
pub open spec fn unit_label(mode: u8, range: u8) -> Seq<char> {
    match mode {
        0u8 | 24u8 | 2u8 | 25u8 => if 0x30 <= range <= 0x33 {
            "V"@
        } else {
            "?"@
        },
        1u8 | 3u8 => if range == 0x30 {
            "mV"@
        } else {
            "?"@
        },
        6u8 => if range == 0x30 {
            "Ω"@
        } else if 0x31 <= range <= 0x33 {
            "kΩ"@
        } else if 0x34 <= range <= 0x36 {
            "MΩ"@
        } else {
            "?"@
        },
        7u8 => if 0x30 <= range <= 0x36 {
            "Ω"@
        } else {
            "?"@
        },
        8u8 => if range == 0x30 {
            "V"@
        } else {
            "?"@
        },
        9u8 => if 0x30 <= range <= 0x31 {
            "nF"@
        } else if 0x32 <= range <= 0x34 {
            "μF"@
        } else if 0x35 <= range <= 0x36 {
            "mF"@
        } else {
            "?"@
        },
        4u8 => if 0x30 <= range <= 0x31 {
            "Hz"@
        } else if 0x32 <= range <= 0x34 {
            "kHz"@
        } else if 0x35 <= range <= 0x37 {
            "MHz"@
        } else {
            "?"@
        },
        5u8 => if range == 0x30 {
            "%"@
        } else {
            "?"@
        },
        18u8 => if range == 0x30 {
            "β"@
        } else {
            "?"@
        },
        12u8 | 13u8 => if 0x30 <= range <= 0x31 {
            "μA"@
        } else {
            "?"@
        },
        14u8 | 15u8 => if 0x30 <= range <= 0x31 {
            "mA"@
        } else {
            "?"@
        },
        16u8 | 17u8 => if range == 0x31 {
            "A"@
        } else {
            "?"@
        },
        20u8 => if range == 0x30 {
            "NCV"@
        } else {
            "?"@
        },
        _ => "?"@,
    }
}

/// Maps a (mode, range) pair to the unit label shown beside the reading;
/// range codes outside the mode's accepted subset, or an unrecognized
/// mode, yield the unknown marker.
pub fn parse_unit(mode: u8, range: u8) -> (r: &'static str)
    ensures
        r@ == unit_label(mode, range),
{
    match mode {
        0 | 24 | 2 | 25 => if 0x30 <= range && range <= 0x33 {
            "V"
        } else {
            "?"
        },
        1 | 3 => if range == 0x30 {
            "mV"
        } else {
            "?"
        },
        6 => if range == 0x30 {
            "Ω"
        } else if 0x31 <= range && range <= 0x33 {
            "kΩ"
        } else if 0x34 <= range && range <= 0x36 {
            "MΩ"
        } else {
            "?"
        },
        7 => if 0x30 <= range && range <= 0x36 {
            "Ω"
        } else {
            "?"
        },
        8 => if range == 0x30 {
            "V"
        } else {
            "?"
        },
        9 => if 0x30 <= range && range <= 0x31 {
            "nF"
        } else if 0x32 <= range && range <= 0x34 {
            "μF"
        } else if 0x35 <= range && range <= 0x36 {
            "mF"
        } else {
            "?"
        },
        4 => if 0x30 <= range && range <= 0x31 {
            "Hz"
        } else if 0x32 <= range && range <= 0x34 {
            "kHz"
        } else if 0x35 <= range && range <= 0x37 {
            "MHz"
        } else {
            "?"
        },
        5 => if range == 0x30 {
            "%"
        } else {
            "?"
        },
        18 => if range == 0x30 {
            "β"
        } else {
            "?"
        },
        12 | 13 => if 0x30 <= range && range <= 0x31 {
            "μA"
        } else {
            "?"
        },
        14 | 15 => if 0x30 <= range && range <= 0x31 {
            "mA"
        } else {
            "?"
        },
        16 | 17 => if range == 0x31 {
            "A"
        } else {
            "?"
        },
        20 => if range == 0x30 {
            "NCV"
        } else {
            "?"
        },
        _ => "?",
    }
}

/// The (mode, range) pairs that the unit table defines a unit for: each
/// mode's accepted range-code subset.
pub open spec fn unit_defined(mode: u8, range: u8) -> bool {
    match mode {
        0u8 | 24u8 | 2u8 | 25u8 => 0x30 <= range <= 0x33,
        1u8 | 3u8 => range == 0x30,
        6u8 => 0x30 <= range <= 0x36,
        7u8 => 0x30 <= range <= 0x36,
        8u8 => range == 0x30,
        9u8 => 0x30 <= range <= 0x36,
        4u8 => 0x30 <= range <= 0x37,
        5u8 => range == 0x30,
        18u8 => range == 0x30,
        12u8 | 13u8 | 14u8 | 15u8 => 0x30 <= range <= 0x31,
        16u8 | 17u8 => range == 0x31,
        20u8 => range == 0x30,
        _ => false,
    }
}

/// Law: the unit table is total over its domain — every pair inside a
/// mode's accepted range subset maps to a real unit, and every pair
/// outside it (an unaccepted range, or an unrecognized mode) maps to the
/// unknown marker, and to nothing else.
pub proof fn lemma_unit_table_total(mode: u8, range: u8)
    ensures
        unit_defined(mode, range) ==> unit_label(mode, range) != "?"@,
        !unit_defined(mode, range) ==> unit_label(mode, range) == "?"@,
{
    reveal_strlit("V");
    reveal_strlit("mV");
    reveal_strlit("Ω");
    reveal_strlit("kΩ");
    reveal_strlit("MΩ");
    reveal_strlit("nF");
    reveal_strlit("μF");
    reveal_strlit("mF");
    reveal_strlit("Hz");
    reveal_strlit("kHz");
    reveal_strlit("MHz");
    reveal_strlit("%");
    reveal_strlit("β");
    reveal_strlit("μA");
    reveal_strlit("mA");
    reveal_strlit("A");
    reveal_strlit("NCV");
    reveal_strlit("?");
    assert("?"@.len() == 1 && "?"@[0] == '?');
    assert("mV"@.len() != 1);
    assert("kΩ"@.len() != 1);
    assert("MΩ"@.len() != 1);
    assert("nF"@.len() != 1);
    assert("μF"@.len() != 1);
    assert("mF"@.len() != 1);
    assert("Hz"@.len() != 1);
    assert("kHz"@.len() != 1);
    assert("MHz"@.len() != 1);
    assert("μA"@.len() != 1);
    assert("mA"@.len() != 1);
    assert("NCV"@.len() != 1);
    assert("V"@.len() == 1 && "V"@[0] == 'V');
    assert("Ω"@.len() == 1 && "Ω"@[0] == 'Ω');
    assert("%"@.len() == 1 && "%"@[0] == '%');
    assert("β"@.len() == 1 && "β"@[0] == 'β');
    assert("A"@.len() == 1 && "A"@[0] == 'A');
}

/// The auto/manual label of the second-to-last payload byte: two literal
/// codes, anything else unknown.
pub open spec fn auto_manual_label(b: u8) -> Seq<char> {
    if b == 48 {
        "AUTO"@
    } else if b == 52 {
        "MANUAL"@
    } else {
        "?"@
    }
}

/// Maps the auto/manual indicator byte to its label.
pub fn parse_auto_manual(b: u8) -> (r: &'static str)
    ensures
        r@ == auto_manual_label(b),
{
    if b == 48 {
        "AUTO"
    } else if b == 52 {
        "MANUAL"
    } else {
        "?"
    }
}

/// The relative-measurement label: bit 0 of the flag byte, empty when
/// inactive.
pub open spec fn rel_label(flags: u8) -> Seq<char> {
    if flags & 0x01 != 0 {
        "REL"@
    } else {
        ""@
    }
}

/// Decodes the REL flag from bit 0 of the flag byte.
pub fn parse_rel(flags: u8) -> (r: &'static str)
    ensures
        r@ == rel_label(flags),
{
    if flags & 0x01 != 0 {
        "REL"
    } else {
        ""
    }
}

/// The hold label: bit 1 of the flag byte, empty when inactive.
pub open spec fn hold_label(flags: u8) -> Seq<char> {
    if flags & 0x02 != 0 {
        "HOLD"@
    } else {
        ""@
    }
}

/// Decodes the HOLD flag from bit 1 of the flag byte.
pub fn parse_hold(flags: u8) -> (r: &'static str)
    ensures
        r@ == hold_label(flags),
{
    if flags & 0x02 != 0 {
        "HOLD"
    } else {
        ""
    }
}

/// The MIN/MAX label: two whole-byte values of the flag byte, checked by
/// equality and so not exclusive with the REL/HOLD bits; empty otherwise.
pub open spec fn minmax_label(flags: u8) -> Seq<char> {
    if flags == 56 {
        "MAX"@
    } else if flags == 52 {
        "MIN"@
    } else {
        ""@
    }
}

/// Decodes the MIN/MAX indicator from the flag byte's whole value.
pub fn parse_minmax(flags: u8) -> (r: &'static str)
    ensures
        r@ == minmax_label(flags),
{
    if flags == 56 {
        "MAX"
    } else if flags == 52 {
        "MIN"
    } else {
        ""
    }
}

/// The mode code of a payload (byte 0).
pub open spec fn mode_code(p: Seq<u8>) -> u8 {
    if p.len() > 0 {
        p[0]
    } else {
        0
    }
}

/// The range code of a payload (byte 1).
pub open spec fn range_code(p: Seq<u8>) -> u8 {
    if p.len() > 1 {
        p[1]
    } else {
        0
    }
}

/// The auto/manual indicator byte: second to last.
pub open spec fn auto_manual_byte(p: Seq<u8>) -> u8 {
    if p.len() == 0 {
        0
    } else if p.len() <= 2 {
        p[0]
    } else {
        p[p.len() - 2]
    }
}

/// The flag byte: third to last.
pub open spec fn flags_byte(p: Seq<u8>) -> u8 {
    if p.len() == 0 {
        0
    } else if p.len() <= 3 {
        p[0]
    } else {
        p[p.len() - 3]
    }
}

/// A payload decodes to a measurement exactly when its display text
/// spells a number; every other byte decodes totally, to a label or the
/// unknown marker.
pub open spec fn measurement_ok(p: Seq<u8>) -> bool {
    is_number(display_text(p))
}

/// One decoded measurement: the numeric reading, its unit, the mode and
/// the status labels.  Flag fields hold the label when the flag is
/// active and the empty string otherwise.
#[derive(Clone, Debug)]
pub struct Measurement {
    /// The display reading, exact.
    pub value: Number,
    /// Unit label from the (mode, range) table, or `"?"`.
    pub unit: String,
    /// Mode label from the mode table, or `"?"`.
    pub mode: String,
    /// `"AUTO"`, `"MANUAL"` or `"?"`.
    pub auto_manual: String,
    /// `"REL"` or empty.
    pub rel: String,
    /// `"HOLD"` or empty.
    pub hold: String,
    /// `"MAX"`, `"MIN"` or empty.
    pub minmax: String,
}

/// Decodes one payload into a measurement.
///
/// Returns nothing exactly when the display text fails the numeric
/// parse (which covers any payload too short to hold a display field);
/// every other field decodes totally through its lookup table.
pub fn decode_measurement(payload: &[u8]) -> (r: Option<Measurement>)
    ensures
        r is Some <==> measurement_ok(payload@),
        r matches Some(m) ==> {
            let text = display_text(payload@);
            &&& m.value.negative == num_negative(text)
            &&& m.value.mantissa == num_mantissa(text)
            &&& m.value.frac_digits == num_frac_digits(text)
            &&& m.mode@ == mode_label(mode_code(payload@))
            &&& m.unit@ == unit_label(mode_code(payload@), range_code(payload@))
            &&& m.auto_manual@ == auto_manual_label(auto_manual_byte(payload@))
            &&& m.rel@ == rel_label(flags_byte(payload@))
            &&& m.hold@ == hold_label(flags_byte(payload@))
            &&& m.minmax@ == minmax_label(flags_byte(payload@))
        },
{
    let text = parse_display_ascii(payload);
    let num = match parse_number(text.as_slice()) {
        Some(n) => n,
        None => {
            return None;
        },
    };
    proof {
        lemma_question_mark_is_not_a_number();
        assert(payload@.len() >= 9);
    }
    let n = payload.len();
    let mode = *slice_index_get(payload, 0);
    let range = *slice_index_get(payload, 1);
    let am_byte = *slice_index_get(payload, n - 2);
    let fl_byte = *slice_index_get(payload, n - 3);
    Some(
        Measurement {
            value: num,
            unit: parse_unit(mode, range).to_owned(),
            mode: parse_mode(mode).to_owned(),
            auto_manual: parse_auto_manual(am_byte).to_owned(),
            rel: parse_rel(fl_byte).to_owned(),
            hold: parse_hold(fl_byte).to_owned(),
            minmax: parse_minmax(fl_byte).to_owned(),
        },
    )
}

proof fn lemma_question_mark_is_not_a_number()
    ensures
        !is_number(seq![63u8]),
{
    let q = seq![63u8];
    assert(q.subrange(1, 1) =~= Seq::<u8>::empty());
    assert(dot_index(Seq::<u8>::empty()) == 0);
    assert(dot_index(q) == 1);
    assert(num_body(q) == q);
    assert(q.subrange(0, 1) =~= q);
    assert(!is_ascii_digit(q[0]));
    assert(!body_ok(q));
}

/// Law: an all-blank display yields no measurement.  A payload whose
/// seven display bytes are all spaces strips to the empty text, fails
/// the numeric parse, and so decodes to nothing.
pub proof fn lemma_blank_display_no_measurement(payload: Seq<u8>)
    requires
        payload.len() >= 9,
        forall|i: int| 2 <= i < 9 ==> payload[i] == 32,
    ensures
        !measurement_ok(payload),
{
    crate::display::lemma_blank_display_no_number(payload);
    let t = display_text(payload);
    assert(num_body(t) == t);
    assert(!body_ok(t));
}

} // verus!
