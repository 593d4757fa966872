//! Passing records as the box reports them, in the FW 2.5 and FW 2.6 data formats.
use vstd::prelude::*;

use crate::error::{parsed_as_view, protocol_error_fields, Error};
use crate::firmware::{Fw25, Fw26};
use crate::text::{
    is_white_space, join, lemma_join_lacks, lemma_join_trimmed, lemma_split_join,
    lemma_split_no_sep, lemma_trim_fixed, push_char, split, split_fields, strings_view, trim,
    trim_str,
};
use crate::utils::{
    hex_digits, hex_fixed, hex_padded, hex_u16, hex_u32, hex_u64, hex_u8, lemma_hex_padded_parses,
    parse_i16_hex, signed_hex_value, parse_hex_u16,
    parse_hex_u32, parse_hex_u64, parse_hex_u8, parse_signed_hex_i8, push_hex, signed_hex_i8,
};

verus! {

/// Combined loop + 2.4 GHz strength byte (FW 2.5+), encoded as `XGGGLLLL`.
#[derive(Debug, Clone, Copy, PartialEq, Eq)]
pub struct StrengthCombined(pub u8);

impl StrengthCombined {
    /// 2.4 GHz RSSI in dBm: `-90 + 4 * GGG` where `GGG` are bits 4–6.
    pub fn rssi_dbm(self) -> (r: i16)
        ensures
            r == -90 + 4 * ((self.0 >> 4u8) & 0x07u8),
            -90 <= r <= -62,
    {
        let b: u8 = self.0;
        let g: u8 = (b >> 4u8) & 0x07u8;
        assert(g <= 7) by (bit_vector)
            requires
                g == (b >> 4u8) & 0x07u8,
        ;
        -90 + 4 * (g as i16)
    }

    /// 125 kHz loop strength as positive dB (1..=16).
    pub fn loop_strength_db(self) -> (r: u8)
        ensures
            r == 1 + (self.0 & 0x0fu8),
            1 <= r <= 16,
    {
        let b: u8 = self.0;
        let l: u8 = b & 0x0fu8;
        assert(l <= 15) by (bit_vector)
            requires
                l == b & 0x0fu8,
        ;
        1 + l
    }
}

/// The value a protocol id shows on the display: one more, saturating at 255.
pub open spec fn display_id(id: u8) -> u8 {
    if id == 255 {
        255
    } else {
        (id + 1) as u8
    }
}

fn display_id_exec(id: u8) -> (r: u8)
    ensures
        r == display_id(id),
{
    id.saturating_add(1)
}

/// Parsed passing record (FW 2.5 format).
///
/// Field layout: `[TransponderID];[WakeupCounter:4];[TimeStamp:8];[Hits:2];[Strength:2];
/// [Battery:2];[Temperature:2];[LoopOnly:1];[LoopID:1];[ChannelID:1];[Status:2];[InternalData:2]`
#[derive(Debug, Clone, PartialEq, Eq)]
pub struct PassingFw25 {
    pub transponder_id: String,
    /// Transponder wakeup counter for this passing.
    pub wakeup_counter: u16,
    /// Box timestamp in 256th-second ticks (32-bit).
    pub timestamp_ticks: u32,
    pub hits: u8,
    pub strength: StrengthCombined,
    /// Raw battery field from protocol.
    pub battery_raw: u8,
    /// Raw temperature field from protocol.
    pub temperature_raw: u8,
    pub loop_only: bool,
    /// Protocol loop id (0..=7); add 1 for display.
    pub loop_id: u8,
    /// Protocol channel id (0..=7); add 1 for display.
    pub channel_id: u8,
    /// Status / flags field (hex string preserved).
    pub status: String,
    pub internal_data: String,
}

/// The mathematical content of a [`PassingFw25`].
pub struct PassingFw25View {
    pub transponder_id: Seq<char>,
    pub wakeup_counter: u16,
    pub timestamp_ticks: u32,
    pub hits: u8,
    pub strength: u8,
    pub battery_raw: u8,
    pub temperature_raw: u8,
    pub loop_only: bool,
    pub loop_id: u8,
    pub channel_id: u8,
    pub status: Seq<char>,
    pub internal_data: Seq<char>,
}

impl View for PassingFw25 {
    type V = PassingFw25View;

    open spec fn view(&self) -> PassingFw25View {
        PassingFw25View {
            transponder_id: self.transponder_id@,
            wakeup_counter: self.wakeup_counter,
            timestamp_ticks: self.timestamp_ticks,
            hits: self.hits,
            strength: self.strength.0,
            battery_raw: self.battery_raw,
            temperature_raw: self.temperature_raw,
            loop_only: self.loop_only,
            loop_id: self.loop_id,
            channel_id: self.channel_id,
            status: self.status@,
            internal_data: self.internal_data@,
        }
    }
}

/// Whether the fields `f` of a FW 2.5 passing line all read as their types.
pub open spec fn fw25_fields_ok(f: Seq<Seq<char>>) -> bool {
    &&& f.len() == 12
    &&& hex_u16(f[1]) is Some
    &&& hex_u32(f[2]) is Some
    &&& hex_u8(f[3]) is Some
    &&& hex_u8(f[4]) is Some
    &&& hex_u8(f[5]) is Some
    &&& hex_u8(f[6]) is Some
    &&& hex_u8(f[7]) is Some
    &&& hex_u8(f[8]) is Some
    &&& hex_u8(f[9]) is Some
}

/// The passing that a FW 2.5 passing line denotes, if it is one: twelve `;`-separated
/// fields, the numeric ones in hexadecimal.
pub open spec fn spec_passing_fw25(line: Seq<char>) -> Option<PassingFw25View> {
    let f = split(line, ';');
    if fw25_fields_ok(f) {
        Some(
            PassingFw25View {
                transponder_id: f[0],
                wakeup_counter: hex_u16(f[1]).unwrap(),
                timestamp_ticks: hex_u32(f[2]).unwrap(),
                hits: hex_u8(f[3]).unwrap(),
                strength: hex_u8(f[4]).unwrap(),
                battery_raw: hex_u8(f[5]).unwrap(),
                temperature_raw: hex_u8(f[6]).unwrap(),
                loop_only: hex_u8(f[7]).unwrap() != 0,
                loop_id: hex_u8(f[8]).unwrap(),
                channel_id: hex_u8(f[9]).unwrap(),
                status: f[10],
                internal_data: f[11],
            },
        )
    } else {
        None
    }
}

/// The digit that `{}` writes for `u8::from(b)`.
pub open spec fn bool_digit(b: bool) -> Seq<char> {
    if b {
        seq!['1']
    } else {
        seq!['0']
    }
}

/// The fields of the line that displays a FW 2.5 passing.
pub open spec fn fw25_pieces(v: PassingFw25View) -> Seq<Seq<char>> {
    seq![
        v.transponder_id,
        hex_padded(v.wakeup_counter as nat, 4),
        hex_padded(v.timestamp_ticks as nat, 8),
        hex_padded(v.hits as nat, 2),
        hex_padded(v.strength as nat, 2),
        hex_padded(v.battery_raw as nat, 2),
        hex_padded(v.temperature_raw as nat, 2),
        bool_digit(v.loop_only),
        hex_padded(v.loop_id as nat, 0),
        hex_padded(v.channel_id as nat, 0),
        v.status,
        v.internal_data,
    ]
}

/// The line that displays a FW 2.5 passing:
/// `{};{:04x};{:08x};{:02x};{:02x};{:02x};{:02x};{};{:x};{:x};{};{}`.
pub open spec fn format_fw25(v: PassingFw25View) -> Seq<char> {
    join(fw25_pieces(v), ';')
}

/// Appends `;` and then `piece` to a line built so far from `pieces`.
fn push_piece(s: &mut String, Ghost(pieces): Ghost<Seq<Seq<char>>>, piece: &str)
    requires
        pieces.len() >= 1,
        old(s)@ == join(pieces, ';'),
    ensures
        final(s)@ == join(pieces.push(piece@), ';'),
{
    push_char(s, ';');
    s.append(piece);
    assert(pieces.push(piece@).drop_last() =~= pieces);
}

/// Appends `;` and then `v` in hexadecimal padded to `width` digits.
fn push_hex_piece(s: &mut String, Ghost(pieces): Ghost<Seq<Seq<char>>>, v: u64, width: usize)
    requires
        pieces.len() >= 1,
        old(s)@ == join(pieces, ';'),
    ensures
        final(s)@ == join(pieces.push(hex_padded(v as nat, width as nat)), ';'),
{
    push_char(s, ';');
    push_hex(s, v, width);
    assert(pieces.push(hex_padded(v as nat, width as nat)).drop_last() =~= pieces);
}

impl PassingFw25 {
    pub fn from_line(line: &str) -> (r: Result<Self, Error>)
        ensures
            parsed_as_view(r, spec_passing_fw25(line@)),
    {
        let fields = split_fields(line, ';');
        let ghost f = split(line@, ';');
        if fields.len() != 12 {
            return Err(
                protocol_error_fields("FW2.5 passing expected 12 fields", fields.len() as u64, line),
            );
        }
        proof {
            assert forall|i: int| 0 <= i < 12 implies (#[trigger] fields@[i])@ == f[i] by {
                assert(strings_view(fields@)[i] == fields@[i]@);
            }
        }
        let wakeup_counter = parse_hex_u16(fields[1].as_str())?;
        let timestamp_ticks = parse_hex_u32(fields[2].as_str())?;
        let hits = parse_hex_u8(fields[3].as_str())?;
        let strength = parse_hex_u8(fields[4].as_str())?;
        let battery_raw = parse_hex_u8(fields[5].as_str())?;
        let temperature_raw = parse_hex_u8(fields[6].as_str())?;
        let loop_only = parse_hex_u8(fields[7].as_str())?;
        let loop_id = parse_hex_u8(fields[8].as_str())?;
        let channel_id = parse_hex_u8(fields[9].as_str())?;
        Ok(
            PassingFw25 {
                transponder_id: fields[0].clone(),
                wakeup_counter,
                timestamp_ticks,
                hits,
                strength: StrengthCombined(strength),
                battery_raw,
                temperature_raw,
                loop_only: loop_only != 0,
                loop_id,
                channel_id,
                status: fields[10].clone(),
                internal_data: fields[11].clone(),
            },
        )
    }

    pub fn display_loop_id(&self) -> (r: u8)
        ensures
            r == display_id(self.loop_id),
    {
        display_id_exec(self.loop_id)
    }

    pub fn display_channel_id(&self) -> (r: u8)
        ensures
            r == display_id(self.channel_id),
    {
        display_id_exec(self.channel_id)
    }

    /// The line that `Display` writes for this passing.
    pub fn to_line(&self) -> (r: String)
        ensures
            r@ == format_fw25(self@),
    {
        let ghost v = self@;
        let ghost p = fw25_pieces(v);
        let mut s = String::from_str(self.transponder_id.as_str());
        proof {
            assert(join(p.take(1), ';') == p[0]);
        }
        push_hex_piece(&mut s, Ghost(p.take(1)), self.wakeup_counter as u64, 4);
        assert(p.take(1).push(p[1]) =~= p.take(2));
        push_hex_piece(&mut s, Ghost(p.take(2)), self.timestamp_ticks as u64, 8);
        assert(p.take(2).push(p[2]) =~= p.take(3));
        push_hex_piece(&mut s, Ghost(p.take(3)), self.hits as u64, 2);
        assert(p.take(3).push(p[3]) =~= p.take(4));
        push_hex_piece(&mut s, Ghost(p.take(4)), self.strength.0 as u64, 2);
        assert(p.take(4).push(p[4]) =~= p.take(5));
        push_hex_piece(&mut s, Ghost(p.take(5)), self.battery_raw as u64, 2);
        assert(p.take(5).push(p[5]) =~= p.take(6));
        push_hex_piece(&mut s, Ghost(p.take(6)), self.temperature_raw as u64, 2);
        assert(p.take(6).push(p[6]) =~= p.take(7));
        let flag = if self.loop_only {
            "1"
        } else {
            "0"
        };
        proof {
            reveal_strlit("1");
            reveal_strlit("0");
            assert(flag@ =~= bool_digit(v.loop_only));
        }
        push_piece(&mut s, Ghost(p.take(7)), flag);
        assert(p.take(7).push(p[7]) =~= p.take(8));
        push_hex_piece(&mut s, Ghost(p.take(8)), self.loop_id as u64, 0);
        assert(p.take(8).push(p[8]) =~= p.take(9));
        push_hex_piece(&mut s, Ghost(p.take(9)), self.channel_id as u64, 0);
        assert(p.take(9).push(p[9]) =~= p.take(10));
        push_piece(&mut s, Ghost(p.take(10)), self.status.as_str());
        assert(p.take(10).push(p[10]) =~= p.take(11));
        push_piece(&mut s, Ghost(p.take(11)), self.internal_data.as_str());
        assert(p.take(11).push(p[11]) =~= p);
        s
    }
}

/// Displaying a FW 2.5 passing and parsing the line again gives the same passing, as
/// long as its text fields hold no `;`.
pub proof fn lemma_fw25_line_roundtrip(v: PassingFw25View)
    requires
        !v.transponder_id.contains(';'),
        !v.status.contains(';'),
        !v.internal_data.contains(';'),
    ensures
        spec_passing_fw25(format_fw25(v)) == Some(v),
{
    let p = fw25_pieces(v);
    lemma_hex_padded_parses(v.wakeup_counter as nat, 4, 0xffff);
    lemma_hex_padded_parses(v.timestamp_ticks as nat, 8, 0xffff_ffff);
    lemma_hex_padded_parses(v.hits as nat, 2, 0xff);
    lemma_hex_padded_parses(v.strength as nat, 2, 0xff);
    lemma_hex_padded_parses(v.battery_raw as nat, 2, 0xff);
    lemma_hex_padded_parses(v.temperature_raw as nat, 2, 0xff);
    lemma_hex_padded_parses(v.loop_id as nat, 0, 0xff);
    lemma_hex_padded_parses(v.channel_id as nat, 0, 0xff);
    lemma_bool_digit(v.loop_only);
    assert forall|i: int| 0 <= i < p.len() implies !(#[trigger] p[i]).contains(';') by {}
    lemma_split_join(p, ';');
}

/// Each value of a FW 2.5 passing line comes from its own field (0-based, `;`-separated):
/// the text fields as they stand, the numbers in hexadecimal, and the loop-only flag set
/// exactly when field 7 is not zero.
pub proof fn lemma_fw25_fields(line: Seq<char>, v: PassingFw25View)
    requires
        spec_passing_fw25(line) == Some(v),
    ensures
        split(line, ';').len() == 12,
        split(line, ';')[0] == v.transponder_id,
        hex_u16(split(line, ';')[1]) == Some(v.wakeup_counter),
        hex_u32(split(line, ';')[2]) == Some(v.timestamp_ticks),
        hex_u8(split(line, ';')[3]) == Some(v.hits),
        hex_u8(split(line, ';')[4]) == Some(v.strength),
        hex_u8(split(line, ';')[5]) == Some(v.battery_raw),
        hex_u8(split(line, ';')[6]) == Some(v.temperature_raw),
        hex_u8(split(line, ';')[7]) matches Some(n) && v.loop_only == (n != 0),
        hex_u8(split(line, ';')[8]) == Some(v.loop_id),
        hex_u8(split(line, ';')[9]) == Some(v.channel_id),
        split(line, ';')[10] == v.status,
        split(line, ';')[11] == v.internal_data,
{
}

/// The line that displays a FW 2.5 passing holds each value in its own field, and writes
/// the loop-only flag as `1` when it is set and `0` when it is not.
pub proof fn lemma_fw25_line_fields(v: PassingFw25View)
    requires
        !v.transponder_id.contains(';'),
        !v.status.contains(';'),
        !v.internal_data.contains(';'),
    ensures
        split(format_fw25(v), ';').len() == 12,
        split(format_fw25(v), ';')[0] == v.transponder_id,
        hex_u16(split(format_fw25(v), ';')[1]) == Some(v.wakeup_counter),
        hex_u32(split(format_fw25(v), ';')[2]) == Some(v.timestamp_ticks),
        hex_u8(split(format_fw25(v), ';')[3]) == Some(v.hits),
        hex_u8(split(format_fw25(v), ';')[4]) == Some(v.strength),
        hex_u8(split(format_fw25(v), ';')[5]) == Some(v.battery_raw),
        hex_u8(split(format_fw25(v), ';')[6]) == Some(v.temperature_raw),
        split(format_fw25(v), ';')[7] == (if v.loop_only {
            seq!['1']
        } else {
            seq!['0']
        }),
        hex_u8(split(format_fw25(v), ';')[8]) == Some(v.loop_id),
        hex_u8(split(format_fw25(v), ';')[9]) == Some(v.channel_id),
        split(format_fw25(v), ';')[10] == v.status,
        split(format_fw25(v), ';')[11] == v.internal_data,
{
    lemma_fw25_line_roundtrip(v);
    lemma_fw25_fields(format_fw25(v), v);
    let p = fw25_pieces(v);
    lemma_hex_padded_parses(v.wakeup_counter as nat, 4, 0xffff);
    lemma_hex_padded_parses(v.timestamp_ticks as nat, 8, 0xffff_ffff);
    lemma_hex_padded_parses(v.hits as nat, 2, 0xff);
    lemma_hex_padded_parses(v.strength as nat, 2, 0xff);
    lemma_hex_padded_parses(v.battery_raw as nat, 2, 0xff);
    lemma_hex_padded_parses(v.temperature_raw as nat, 2, 0xff);
    lemma_hex_padded_parses(v.loop_id as nat, 0, 0xff);
    lemma_hex_padded_parses(v.channel_id as nat, 0, 0xff);
    lemma_bool_digit(v.loop_only);
    assert forall|i: int| 0 <= i < p.len() implies !(#[trigger] p[i]).contains(';') by {}
    lemma_split_join(p, ';');
}

/// The flag digit is the one-digit hexadecimal number 0 or 1.
pub proof fn lemma_bool_digit(b: bool)
    ensures
        bool_digit(b) == hex_padded(if b { 1nat } else { 0nat }, 0),
        hex_u8(bool_digit(b)) == Some(if b { 1u8 } else { 0u8 }),
        !bool_digit(b).contains(';'),
        !bool_digit(b).contains('='),
        trim(bool_digit(b)) == bool_digit(b),
{
    let n: nat = if b { 1 } else { 0 };
    assert(hex_fixed(n, 1) =~= bool_digit(b)) by {
        assert(hex_fixed(n / 16, 0) =~= Seq::<char>::empty());
    }
    lemma_hex_padded_parses(n, 0, 0xff);
}

/// Parsed passing record (FW 2.6 format, after `CONFSET;B3;1`).
///
/// Layout (14 fields, or 15 when a transponder reports an extra code):
/// `[TransponderID];[WakeupCounter:4];[TimeStamp:10];[Hits:2];[Strength:2];[Battery:2];
/// [Temperature:+2];[LoopOnly:1];[LoopID:1];[ChannelID:1];[Status:2];[InternalData:2];[RFU:2];
/// [Extra:2]` and optionally `;[ExtraCode]` (e.g. `A-1000`).
#[derive(Debug, Clone, PartialEq, Eq)]
pub struct PassingFw26 {
    pub transponder_id: String,
    pub wakeup_counter: u16,
    /// Box timestamp in 2048th-second ticks (40-bit, 10 hex digits, includes day adjustment).
    pub timestamp_ticks: u64,
    pub hits: u8,
    pub strength: StrengthCombined,
    pub battery_raw: u8,
    /// Signed temperature in °C (`+15`, `+1a`, …).
    pub temperature_celsius: i8,
    pub loop_only: bool,
    pub loop_id: u8,
    pub channel_id: u8,
    pub status: String,
    pub internal_data: String,
    /// Reserved field (`RFU`), typically `00`.
    pub rfu: String,
    /// Extra field before the optional extra code (e.g. `1` or `0`).
    pub extra: String,
    /// Optional transponder extra code (15-field records only), e.g. `A-1000`.
    pub extra_code: Option<String>,
}

/// The mathematical content of a [`PassingFw26`].
pub struct PassingFw26View {
    pub transponder_id: Seq<char>,
    pub wakeup_counter: u16,
    pub timestamp_ticks: u64,
    pub hits: u8,
    pub strength: u8,
    pub battery_raw: u8,
    pub temperature_celsius: i8,
    pub loop_only: bool,
    pub loop_id: u8,
    pub channel_id: u8,
    pub status: Seq<char>,
    pub internal_data: Seq<char>,
    pub rfu: Seq<char>,
    pub extra: Seq<char>,
    pub extra_code: Option<Seq<char>>,
}

pub open spec fn option_string_view(o: Option<String>) -> Option<Seq<char>> {
    match o {
        Some(s) => Some(s@),
        None => None,
    }
}

impl View for PassingFw26 {
    type V = PassingFw26View;

    open spec fn view(&self) -> PassingFw26View {
        PassingFw26View {
            transponder_id: self.transponder_id@,
            wakeup_counter: self.wakeup_counter,
            timestamp_ticks: self.timestamp_ticks,
            hits: self.hits,
            strength: self.strength.0,
            battery_raw: self.battery_raw,
            temperature_celsius: self.temperature_celsius,
            loop_only: self.loop_only,
            loop_id: self.loop_id,
            channel_id: self.channel_id,
            status: self.status@,
            internal_data: self.internal_data@,
            rfu: self.rfu@,
            extra: self.extra@,
            extra_code: option_string_view(self.extra_code),
        }
    }
}

/// A line without its optional checksum suffix (`=XX`): the text before the first
/// `=`, trimmed.
pub open spec fn spec_strip_line_checksum(line: Seq<char>) -> Seq<char> {
    trim(split(line, '=')[0])
}

/// The trimmed `;`-separated fields of a FW 2.6 passing line.
pub open spec fn fw26_fields(line: Seq<char>) -> Seq<Seq<char>> {
    split(spec_strip_line_checksum(line), ';').map_values(|p: Seq<char>| trim(p))
}

/// Whether the fields `f` of a FW 2.6 passing line all read as their types.
pub open spec fn fw26_fields_ok(f: Seq<Seq<char>>) -> bool {
    &&& (f.len() == 14 || f.len() == 15)
    &&& hex_u16(f[1]) is Some
    &&& hex_u64(f[2]) is Some
    &&& hex_u8(f[3]) is Some
    &&& hex_u8(f[4]) is Some
    &&& hex_u8(f[5]) is Some
    &&& signed_hex_i8(f[6]) is Some
    &&& hex_u8(f[7]) is Some
    &&& hex_u8(f[8]) is Some
    &&& hex_u8(f[9]) is Some
}

/// The passing that trimmed fields `f` of a FW 2.6 line denote, if any.
pub open spec fn spec_passing_fw26_fields(f: Seq<Seq<char>>) -> Option<PassingFw26View> {
    if fw26_fields_ok(f) {
        Some(
            PassingFw26View {
                transponder_id: f[0],
                wakeup_counter: hex_u16(f[1]).unwrap(),
                timestamp_ticks: hex_u64(f[2]).unwrap(),
                hits: hex_u8(f[3]).unwrap(),
                strength: hex_u8(f[4]).unwrap(),
                battery_raw: hex_u8(f[5]).unwrap(),
                temperature_celsius: signed_hex_i8(f[6]).unwrap(),
                loop_only: hex_u8(f[7]).unwrap() != 0,
                loop_id: hex_u8(f[8]).unwrap(),
                channel_id: hex_u8(f[9]).unwrap(),
                status: f[10],
                internal_data: f[11],
                rfu: f[12],
                extra: f[13],
                extra_code: if f.len() == 15 {
                    Some(f[14])
                } else {
                    None
                },
            },
        )
    } else {
        None
    }
}

/// The passing that a FW 2.6 passing line denotes, if it is one.
pub open spec fn spec_passing_fw26(line: Seq<char>) -> Option<PassingFw26View> {
    spec_passing_fw26_fields(fw26_fields(line))
}

/// The signed temperature field `[Temperature:+2]`: its sign, then the hexadecimal digits
/// of its magnitude (`+15`, `+5`, `-05` is written `-5`).
pub open spec fn signed_hex_piece(t: i8) -> Seq<char> {
    if t < 0 {
        seq!['-'] + hex_padded((-(t as int)) as nat, 0)
    } else {
        seq!['+'] + hex_padded(t as nat, 0)
    }
}

/// The fields of the line that displays a FW 2.6 passing.
pub open spec fn fw26_pieces(v: PassingFw26View) -> Seq<Seq<char>> {
    let base = seq![
        v.transponder_id,
        hex_padded(v.wakeup_counter as nat, 4),
        hex_padded(v.timestamp_ticks as nat, 10),
        hex_padded(v.hits as nat, 2),
        hex_padded(v.strength as nat, 2),
        hex_padded(v.battery_raw as nat, 2),
        signed_hex_piece(v.temperature_celsius),
        bool_digit(v.loop_only),
        hex_padded(v.loop_id as nat, 0),
        hex_padded(v.channel_id as nat, 0),
        v.status,
        v.internal_data,
        v.rfu,
        v.extra,
    ];
    match v.extra_code {
        Some(code) => base.push(code),
        None => base,
    }
}

/// The line that displays a FW 2.6 passing:
/// `{};{:04x};{:010x};{:02x};{:02x};{:02x};[Temperature:+2];{};{:x};{:x};{};{};{};{}` and `;{code}`
/// when there is an extra code.
pub open spec fn format_fw26(v: PassingFw26View) -> Seq<char> {
    join(fw26_pieces(v), ';')
}

/// Strips an optional per-line checksum suffix (`=XX`) before parsing.
pub fn strip_line_checksum(line: &str) -> (r: &str)
    ensures
        r@ == spec_strip_line_checksum(line@),
{
    let chars = crate::text::chars_of(line);
    let ranges = crate::text::split_ranges(&chars, '=');
    proof {
        crate::text::lemma_split_nonempty(chars@, '=');
    }
    let (a, b) = ranges[0];
    let (c, d) = crate::text::trim_range(&chars, a, b);
    line.substring_char(c, d)
}

/// Appends `;`, the sign of `t` and the hexadecimal digits of its magnitude.
fn push_signed_piece(s: &mut String, Ghost(pieces): Ghost<Seq<Seq<char>>>, t: i8)
    requires
        pieces.len() >= 1,
        old(s)@ == join(pieces, ';'),
    ensures
        final(s)@ == join(pieces.push(signed_hex_piece(t)), ';'),
{
    push_char(s, ';');
    if t < 0 {
        push_char(s, '-');
        push_hex(s, (-(t as i16)) as u64, 0);
    } else {
        push_char(s, '+');
        push_hex(s, t as u64, 0);
    }
    assert(pieces.push(signed_hex_piece(t)).drop_last() =~= pieces);
}

impl PassingFw26 {
    /// Parses a passing line, stripping an optional ASCII checksum suffix (`=XX`).
    pub fn from_line(line: &str) -> (r: Result<Self, Error>)
        ensures
            parsed_as_view(r, spec_passing_fw26(line@)),
    {
        let stripped = strip_line_checksum(line);
        let pieces = split_fields(stripped, ';');
        let mut fields: Vec<String> = Vec::new();
        for i in 0..pieces.len()
            invariant
                strings_view(pieces@) == split(stripped@, ';'),
                fields.len() == i,
                forall|j: int|
                    0 <= j < i ==> (#[trigger] fields@[j])@ == trim(split(stripped@, ';')[j]),
        {
            proof {
                assert(strings_view(pieces@)[i as int] == pieces@[i as int]@);
            }
            fields.push(String::from_str(trim_str(pieces[i].as_str())));
        }
        proof {
            assert(strings_view(fields@) =~= fw26_fields(line@));
        }
        Self::from_fields(&fields)
    }

    fn from_fields(fields: &Vec<String>) -> (r: Result<Self, Error>)
        ensures
            parsed_as_view(r, spec_passing_fw26_fields(strings_view(fields@))),
    {
        let ghost f = strings_view(fields@);
        let n = fields.len();
        if n != 14 && n != 15 {
            let mut joined = String::from_str("");
            for i in 0..n
                invariant
                    n == fields.len(),
            {
                if i > 0 {
                    joined.append(";");
                }
                joined.append(fields[i].as_str());
            }
            return Err(
                protocol_error_fields(
                    "FW2.6 passing expected 14 or 15 fields",
                    n as u64,
                    joined.as_str(),
                ),
            );
        }
        proof {
            assert forall|i: int| 0 <= i < n implies (#[trigger] fields@[i])@ == f[i] by {}
        }
        let wakeup_counter = parse_hex_u16(fields[1].as_str())?;
        let timestamp_ticks = parse_hex_u64(fields[2].as_str())?;
        let hits = parse_hex_u8(fields[3].as_str())?;
        let strength = parse_hex_u8(fields[4].as_str())?;
        let battery_raw = parse_hex_u8(fields[5].as_str())?;
        let temperature_celsius = parse_signed_hex_i8(fields[6].as_str())?;
        let loop_only = parse_hex_u8(fields[7].as_str())?;
        let loop_id = parse_hex_u8(fields[8].as_str())?;
        let channel_id = parse_hex_u8(fields[9].as_str())?;
        let extra_code = if n == 15 {
            Some(fields[14].clone())
        } else {
            None
        };
        Ok(
            PassingFw26 {
                transponder_id: fields[0].clone(),
                wakeup_counter,
                timestamp_ticks,
                hits,
                strength: StrengthCombined(strength),
                battery_raw,
                temperature_celsius,
                loop_only: loop_only != 0,
                loop_id,
                channel_id,
                status: fields[10].clone(),
                internal_data: fields[11].clone(),
                rfu: fields[12].clone(),
                extra: fields[13].clone(),
                extra_code,
            },
        )
    }

    pub fn display_loop_id(&self) -> (r: u8)
        ensures
            r == display_id(self.loop_id),
    {
        display_id_exec(self.loop_id)
    }

    pub fn display_channel_id(&self) -> (r: u8)
        ensures
            r == display_id(self.channel_id),
    {
        display_id_exec(self.channel_id)
    }

    /// The line that `Display` writes for this passing.
    pub fn to_line(&self) -> (r: String)
        ensures
            r@ == format_fw26(self@),
    {
        let ghost v = self@;
        let ghost p = fw26_pieces(v);
        let mut s = String::from_str(self.transponder_id.as_str());
        proof {
            assert(join(p.take(1), ';') == p[0]);
        }
        push_hex_piece(&mut s, Ghost(p.take(1)), self.wakeup_counter as u64, 4);
        assert(p.take(1).push(p[1]) =~= p.take(2));
        push_hex_piece(&mut s, Ghost(p.take(2)), self.timestamp_ticks, 10);
        assert(p.take(2).push(p[2]) =~= p.take(3));
        push_hex_piece(&mut s, Ghost(p.take(3)), self.hits as u64, 2);
        assert(p.take(3).push(p[3]) =~= p.take(4));
        push_hex_piece(&mut s, Ghost(p.take(4)), self.strength.0 as u64, 2);
        assert(p.take(4).push(p[4]) =~= p.take(5));
        push_hex_piece(&mut s, Ghost(p.take(5)), self.battery_raw as u64, 2);
        assert(p.take(5).push(p[5]) =~= p.take(6));
        push_signed_piece(&mut s, Ghost(p.take(6)), self.temperature_celsius);
        assert(p.take(6).push(p[6]) =~= p.take(7));
        let flag = if self.loop_only {
            "1"
        } else {
            "0"
        };
        proof {
            reveal_strlit("1");
            reveal_strlit("0");
            assert(flag@ =~= bool_digit(v.loop_only));
        }
        push_piece(&mut s, Ghost(p.take(7)), flag);
        assert(p.take(7).push(p[7]) =~= p.take(8));
        push_hex_piece(&mut s, Ghost(p.take(8)), self.loop_id as u64, 0);
        assert(p.take(8).push(p[8]) =~= p.take(9));
        push_hex_piece(&mut s, Ghost(p.take(9)), self.channel_id as u64, 0);
        assert(p.take(9).push(p[9]) =~= p.take(10));
        push_piece(&mut s, Ghost(p.take(10)), self.status.as_str());
        assert(p.take(10).push(p[10]) =~= p.take(11));
        push_piece(&mut s, Ghost(p.take(11)), self.internal_data.as_str());
        assert(p.take(11).push(p[11]) =~= p.take(12));
        push_piece(&mut s, Ghost(p.take(12)), self.rfu.as_str());
        assert(p.take(12).push(p[12]) =~= p.take(13));
        push_piece(&mut s, Ghost(p.take(13)), self.extra.as_str());
        assert(p.take(13).push(p[13]) =~= p.take(14));
        match &self.extra_code {
            Some(code) => {
                push_piece(&mut s, Ghost(p.take(14)), code.as_str());
                assert(p.take(14).push(p[14]) =~= p);
            },
            None => {
                assert(p.take(14) =~= p);
            },
        }
        s
    }
}

/// A signed temperature field reads back as the temperature it was written for.
pub proof fn lemma_signed_hex_piece(t: i8)
    ensures
        signed_hex_i8(signed_hex_piece(t)) == Some(t),
        !signed_hex_piece(t).contains(';'),
        !signed_hex_piece(t).contains('='),
        trim(signed_hex_piece(t)) == signed_hex_piece(t),
{
    let u: nat = if t < 0 {
        (-(t as int)) as nat
    } else {
        t as nat
    };
    let sign = if t < 0 {
        '-'
    } else {
        '+'
    };
    let h = hex_padded(u, 0);
    let sp = signed_hex_piece(t);
    assert(sp =~= seq![sign] + h);
    lemma_hex_padded_parses(u, 0, 0xff);
    assert(sp.drop_first() =~= h);
    assert(sp.last() == h.last());
    assert(!is_white_space(h[h.len() - 1])) by {
        lemma_trim_fixed(h);
    }
    lemma_trim_fixed(sp);
    assert(h[0] != '+' && h[0] != '-') by {
        crate::utils::lemma_hex_fixed(u, crate::utils::hex_len(u));
    }
    assert(hex_digits(h, 0x7fff) == Some(u));
    assert(parse_i16_hex(h) == Some(u as int));
    assert(signed_hex_value(sp) == Some(t as int));
    if sp.contains(';') {
        let k = choose|k: int| 0 <= k < sp.len() && sp[k] == ';';
        assert(h[k - 1] == ';');
    }
    if sp.contains('=') {
        let k = choose|k: int| 0 <= k < sp.len() && sp[k] == '=';
        assert(h[k - 1] == '=');
    }
}

/// A text field that survives a FW 2.6 line: no separator, no `=`, no white space
/// at either end.
pub open spec fn fw26_text_ok(t: Seq<char>) -> bool {
    &&& !t.contains(';')
    &&& !t.contains('=')
    &&& trim(t) == t
}

/// Displaying a FW 2.6 passing and parsing the line again gives the same passing, as
/// long as its text fields survive the line.
pub proof fn lemma_fw26_line_roundtrip(v: PassingFw26View)
    requires
        fw26_text_ok(v.transponder_id),
        fw26_text_ok(v.status),
        fw26_text_ok(v.internal_data),
        fw26_text_ok(v.rfu),
        fw26_text_ok(v.extra),
        v.extra_code matches Some(code) ==> fw26_text_ok(code),
    ensures
        spec_passing_fw26(format_fw26(v)) == Some(v),
{
    let p = fw26_pieces(v);
    let line = format_fw26(v);
    lemma_hex_padded_parses(v.wakeup_counter as nat, 4, 0xffff);
    lemma_hex_padded_parses(v.timestamp_ticks as nat, 10, 0xffff_ffff_ffff_ffff);
    lemma_hex_padded_parses(v.hits as nat, 2, 0xff);
    lemma_hex_padded_parses(v.strength as nat, 2, 0xff);
    lemma_hex_padded_parses(v.battery_raw as nat, 2, 0xff);
    lemma_hex_padded_parses(v.loop_id as nat, 0, 0xff);
    lemma_hex_padded_parses(v.channel_id as nat, 0, 0xff);
    lemma_signed_hex_piece(v.temperature_celsius);
    lemma_bool_digit(v.loop_only);
    assert forall|i: int| 0 <= i < p.len() implies fw26_text_ok(#[trigger] p[i]) by {}
    lemma_join_lacks(p, ';', '=');
    lemma_split_no_sep(line, '=');
    lemma_join_trimmed(p, ';');
    assert(spec_strip_line_checksum(line) == line);
    lemma_split_join(p, ';');
    assert(fw26_fields(line) =~= p);
}

/// Each value of a FW 2.6 passing line comes from its own trimmed field (0-based,
/// `;`-separated, checksum suffix removed): the text fields as they stand, the numbers in
/// hexadecimal, the temperature as signed hexadecimal, the loop-only flag set exactly when
/// field 7 is not zero, and the extra code present exactly when there is a fifteenth field.
pub proof fn lemma_fw26_fields(line: Seq<char>, v: PassingFw26View)
    requires
        spec_passing_fw26(line) == Some(v),
    ensures
        fw26_fields(line).len() == 14 || fw26_fields(line).len() == 15,
        fw26_fields(line)[0] == v.transponder_id,
        hex_u16(fw26_fields(line)[1]) == Some(v.wakeup_counter),
        hex_u64(fw26_fields(line)[2]) == Some(v.timestamp_ticks),
        hex_u8(fw26_fields(line)[3]) == Some(v.hits),
        hex_u8(fw26_fields(line)[4]) == Some(v.strength),
        hex_u8(fw26_fields(line)[5]) == Some(v.battery_raw),
        signed_hex_i8(fw26_fields(line)[6]) == Some(v.temperature_celsius),
        hex_u8(fw26_fields(line)[7]) matches Some(n) && v.loop_only == (n != 0),
        hex_u8(fw26_fields(line)[8]) == Some(v.loop_id),
        hex_u8(fw26_fields(line)[9]) == Some(v.channel_id),
        fw26_fields(line)[10] == v.status,
        fw26_fields(line)[11] == v.internal_data,
        fw26_fields(line)[12] == v.rfu,
        fw26_fields(line)[13] == v.extra,
        v.extra_code == (if fw26_fields(line).len() == 15 {
            Some(fw26_fields(line)[14])
        } else {
            None
        }),
{
}

/// The line that displays a FW 2.6 passing holds each value in its own field, and writes
/// the loop-only flag as `1` when it is set and `0` when it is not.
pub proof fn lemma_fw26_line_fields(v: PassingFw26View)
    requires
        fw26_text_ok(v.transponder_id),
        fw26_text_ok(v.status),
        fw26_text_ok(v.internal_data),
        fw26_text_ok(v.rfu),
        fw26_text_ok(v.extra),
        v.extra_code matches Some(code) ==> fw26_text_ok(code),
    ensures
        split(format_fw26(v), ';').len() == (if v.extra_code is Some {
            15int
        } else {
            14int
        }),
        split(format_fw26(v), ';')[0] == v.transponder_id,
        hex_u16(split(format_fw26(v), ';')[1]) == Some(v.wakeup_counter),
        hex_u64(split(format_fw26(v), ';')[2]) == Some(v.timestamp_ticks),
        hex_u8(split(format_fw26(v), ';')[3]) == Some(v.hits),
        hex_u8(split(format_fw26(v), ';')[4]) == Some(v.strength),
        hex_u8(split(format_fw26(v), ';')[5]) == Some(v.battery_raw),
        signed_hex_i8(split(format_fw26(v), ';')[6]) == Some(v.temperature_celsius),
        split(format_fw26(v), ';')[7] == (if v.loop_only {
            seq!['1']
        } else {
            seq!['0']
        }),
        hex_u8(split(format_fw26(v), ';')[8]) == Some(v.loop_id),
        hex_u8(split(format_fw26(v), ';')[9]) == Some(v.channel_id),
        split(format_fw26(v), ';')[10] == v.status,
        split(format_fw26(v), ';')[11] == v.internal_data,
        split(format_fw26(v), ';')[12] == v.rfu,
        split(format_fw26(v), ';')[13] == v.extra,
        v.extra_code matches Some(code) ==> split(format_fw26(v), ';')[14] == code,
{
    let p = fw26_pieces(v);
    let line = format_fw26(v);
    lemma_fw26_line_roundtrip(v);
    lemma_fw26_fields(line, v);
    lemma_bool_digit(v.loop_only);
    lemma_signed_hex_piece(v.temperature_celsius);
    lemma_hex_padded_parses(v.wakeup_counter as nat, 4, 0xffff);
    lemma_hex_padded_parses(v.timestamp_ticks as nat, 10, 0xffff_ffff_ffff_ffff);
    lemma_hex_padded_parses(v.hits as nat, 2, 0xff);
    lemma_hex_padded_parses(v.strength as nat, 2, 0xff);
    lemma_hex_padded_parses(v.battery_raw as nat, 2, 0xff);
    lemma_hex_padded_parses(v.loop_id as nat, 0, 0xff);
    lemma_hex_padded_parses(v.channel_id as nat, 0, 0xff);
    assert forall|i: int| 0 <= i < p.len() implies fw26_text_ok(#[trigger] p[i]) by {}
    lemma_join_lacks(p, ';', '=');
    lemma_split_no_sep(line, '=');
    lemma_join_trimmed(p, ';');
    assert(spec_strip_line_checksum(line) == line);
    lemma_split_join(p, ';');
    assert(fw26_fields(line) =~= p);
}

/// Associates a [`PassingFw25`] or [`PassingFw26`] type with a firmware marker.
pub trait FirmwarePassing {
    type Passing: Clone + core::fmt::Debug + PartialEq + Eq;
}

impl FirmwarePassing for Fw25 {
    type Passing = PassingFw25;
}

impl FirmwarePassing for Fw26 {
    type Passing = PassingFw26;
}

/// Resolves the passing type for firmware marker `F`.
pub type PassingOf<F> = <F as FirmwarePassing>::Passing;

/// Passing batch returned by [`crate::PassingGetResult`].
#[derive(Debug, Clone, PartialEq, Eq)]
pub struct PassingBatch<F: FirmwarePassing> {
    pub requested_start: u32,
    pub passings: Vec<PassingOf<F>>,
}

impl<F: FirmwarePassing> PassingBatch<F> {
    /// The index to ask for next: one past the last passing of this batch. Passing
    /// indices count modulo 2^32.
    pub fn next_start_index(&self) -> (r: u32)
        ensures
            r == ((self.requested_start + self.passings.len()) % 0x1_0000_0000int) as u32,
    {
        let len = (self.passings.len() as u64) % 0x1_0000_0000u64;
        let sum = self.requested_start as u64 + len;
        proof {
            let a = self.requested_start as int;
            let n = self.passings.len() as int;
            let m = 0x1_0000_0000int;
            vstd::arithmetic::div_mod::lemma_add_mod_noop_right(a, n, m);
        }
        (sum % 0x1_0000_0000u64) as u32
    }
}

} // verus!
