//! The decisions of a USB Timing Box client: connection settings, the command lines it
//! sends, how reply lines are cut from the received bytes and assembled into a reply,
//! and what each reply means. The serial port itself is driven by the application.
use std::time::Duration;
use vstd::prelude::*;

use crate::commands::{
    is_command_failed, spec_beacon_fw25, spec_beacon_fw26, spec_epoch_fw25, spec_epoch_fw26,
    spec_passing_info, BeaconRecordFw25, BeaconRecordFw26, CommandResponse, CommandResponseView,
    EpochReferenceFw25, EpochReferenceFw26, OperationMode, PassingInfo,
};
use crate::config_parameter::ConfigParameter;
use crate::error::{
    parsed_as, protocol_error, protocol_error_mismatch, protocol_error_number, Error,
};
use crate::info_parameter::InfoParameter;
use crate::text::{join, push_char, split, split_fields, strings_view, trim_end};
use crate::utils::{
    hex2, hex8, hex_padded, hex_u32, hex_u64, hex_u8, parse_hex_u32, parse_hex_u64, parse_hex_u8,
    push_decimal,
};

verus! {

/// `Duration::from_millis`, named: the duration of `ms` milliseconds.
pub uninterp spec fn duration_from_millis(ms: u64) -> Duration;

/// `Duration::from_millis(ms)`: the contract claims only that the result is the
/// duration that the name denotes for `ms`.
#[verifier::external_body]
fn millis(ms: u64) -> (d: Duration)
    ensures
        d == duration_from_millis(ms),
{
    Duration::from_millis(ms)
}

/// `Duration`'s `Clone`: `Duration` is `Copy`, so a clone is the same duration.
pub assume_specification[ <Duration as Clone>::clone ](d: &Duration) -> (r: Duration)
    ensures
        r == *d,
;

/// Settings for opening the serial connection to a box.
#[derive(Debug, Clone)]
pub struct UsbTimingBoxBuilder {
    port_name: String,
    baud_rate: u32,
    timeout: Duration,
    dtr_low_on_open: bool,
    rts_low_on_open: bool,
}

/// The content of a [`UsbTimingBoxBuilder`].
pub struct UsbTimingBoxBuilderView {
    pub port_name: Seq<char>,
    pub baud_rate: u32,
    pub timeout: Duration,
    pub dtr_low_on_open: bool,
    pub rts_low_on_open: bool,
}

impl View for UsbTimingBoxBuilder {
    type V = UsbTimingBoxBuilderView;

    closed spec fn view(&self) -> UsbTimingBoxBuilderView {
        UsbTimingBoxBuilderView {
            port_name: self.port_name@,
            baud_rate: self.baud_rate,
            timeout: self.timeout,
            dtr_low_on_open: self.dtr_low_on_open,
            rts_low_on_open: self.rts_low_on_open,
        }
    }
}

impl UsbTimingBoxBuilder {
    /// Settings for `port_name` with the defaults: 19200 baud, a 200 ms read timeout,
    /// and DTR and RTS driven low on open.
    pub fn new(port_name: &str) -> (r: Self)
        ensures
            r@.port_name == port_name@,
            r@.baud_rate == crate::DEFAULT_BAUD_RATE,
            r@.timeout == duration_from_millis(200),
            r@.dtr_low_on_open,
            r@.rts_low_on_open,
    {
        UsbTimingBoxBuilder {
            port_name: String::from_str(port_name),
            baud_rate: crate::DEFAULT_BAUD_RATE,
            timeout: millis(200),
            dtr_low_on_open: true,
            rts_low_on_open: true,
        }
    }

    pub fn baud_rate(self, baud_rate: u32) -> (r: Self)
        ensures
            r@.baud_rate == baud_rate,
            r@.port_name == self@.port_name,
            r@.timeout == self@.timeout,
            r@.dtr_low_on_open == self@.dtr_low_on_open,
            r@.rts_low_on_open == self@.rts_low_on_open,
    {
        UsbTimingBoxBuilder { baud_rate, ..self }
    }

    pub fn timeout(self, timeout: Duration) -> (r: Self)
        ensures
            r@.timeout == timeout,
            r@.port_name == self@.port_name,
            r@.baud_rate == self@.baud_rate,
            r@.dtr_low_on_open == self@.dtr_low_on_open,
            r@.rts_low_on_open == self@.rts_low_on_open,
    {
        UsbTimingBoxBuilder { timeout, ..self }
    }

    pub fn dtr_low_on_open(self, dtr_low_on_open: bool) -> (r: Self)
        ensures
            r@.dtr_low_on_open == dtr_low_on_open,
            r@.port_name == self@.port_name,
            r@.baud_rate == self@.baud_rate,
            r@.timeout == self@.timeout,
            r@.rts_low_on_open == self@.rts_low_on_open,
    {
        UsbTimingBoxBuilder { dtr_low_on_open, ..self }
    }

    pub fn rts_low_on_open(self, rts_low_on_open: bool) -> (r: Self)
        ensures
            r@.rts_low_on_open == rts_low_on_open,
            r@.port_name == self@.port_name,
            r@.baud_rate == self@.baud_rate,
            r@.timeout == self@.timeout,
            r@.dtr_low_on_open == self@.dtr_low_on_open,
    {
        UsbTimingBoxBuilder { rts_low_on_open, ..self }
    }

    pub fn port_name_str(&self) -> (r: &str)
        ensures
            r@ == self@.port_name,
    {
        self.port_name.as_str()
    }

    pub fn baud_rate_value(&self) -> (r: u32)
        ensures
            r == self@.baud_rate,
    {
        self.baud_rate
    }

    pub fn timeout_value(&self) -> (r: Duration)
        ensures
            r == self@.timeout,
    {
        self.timeout
    }

    pub fn dtr_low_on_open_value(&self) -> (r: bool)
        ensures
            r == self@.dtr_low_on_open,
    {
        self.dtr_low_on_open
    }

    pub fn rts_low_on_open_value(&self) -> (r: bool)
        ensures
            r == self@.rts_low_on_open,
    {
        self.rts_low_on_open
    }
}

/// A command line: the command, each argument after a `;`, and a final newline.
pub open spec fn spec_command_line(command: Seq<char>, args: Seq<Seq<char>>) -> Seq<char> {
    join(seq![command] + args, ';').push('\n')
}

/// A command line holds the command and its arguments as `;`-separated fields and
/// ends in its only newline, when none of them holds a `;` or a newline.
pub proof fn lemma_command_line_fields(command: Seq<char>, args: Seq<Seq<char>>)
    requires
        !command.contains(';'),
        !command.contains('\n'),
        forall|i: int| 0 <= i < args.len() ==> !(#[trigger] args[i]).contains(';'),
        forall|i: int| 0 <= i < args.len() ==> !(#[trigger] args[i]).contains('\n'),
    ensures
        spec_command_line(command, args).last() == '\n',
        split(spec_command_line(command, args).drop_last(), ';') == seq![command] + args,
        !spec_command_line(command, args).drop_last().contains('\n'),
{
    let pieces = seq![command] + args;
    assert forall|i: int| 0 <= i < pieces.len() implies !(#[trigger] pieces[i]).contains(';') by {
        if i > 0 {
            assert(pieces[i] == args[i - 1]);
        }
    }
    assert forall|i: int| 0 <= i < pieces.len() implies !(#[trigger] pieces[i]).contains('\n') by {
        if i > 0 {
            assert(pieces[i] == args[i - 1]);
        }
    }
    assert(spec_command_line(command, args).drop_last() =~= join(pieces, ';'));
    crate::text::lemma_split_join(pieces, ';');
    crate::text::lemma_join_lacks(pieces, ';', '\n');
}

/// The line that calls `command` with `args`.
pub fn command_line(command: &str, args: &[String]) -> (r: String)
    ensures
        r@ == spec_command_line(command@, strings_view(args@)),
{
    let ghost a = strings_view(args@);
    let mut s = String::from_str(command);
    proof {
        assert(seq![command@] + a.take(0) =~= seq![command@]);
    }
    for i in 0..args.len()
        invariant
            a == strings_view(args@),
            s@ == join(seq![command@] + a.take(i as int), ';'),
    {
        push_char(&mut s, ';');
        s.append(args[i].as_str());
        proof {
            assert((seq![command@] + a.take(i + 1)).drop_last() =~= seq![command@] + a.take(
                i as int,
            ));
            assert(a[i as int] == args@[i as int]@);
        }
    }
    proof {
        assert(a.take(args.len() as int) =~= a);
    }
    push_char(&mut s, '\n');
    s
}

/// A raw command line as written: the text and a final newline.
pub fn line_with_newline(line_without_newline: &str) -> (r: String)
    ensures
        r@ == line_without_newline@.push('\n'),
{
    let mut s = String::from_str(line_without_newline);
    push_char(&mut s, '\n');
    s
}

/// The command that a raw command line calls: the text before its first `;`.
pub fn command_name(line_without_newline: &str) -> (r: String)
    ensures
        r@ == split(line_without_newline@, ';')[0],
{
    let parts = split_fields(line_without_newline, ';');
    proof {
        crate::text::lemma_split_nonempty(line_without_newline@, ';');
        assert(strings_view(parts@)[0] == parts@[0]@);
    }
    parts[0].clone()
}

/// `CONFGET;[id]`.
pub fn conf_get_line(parameter: ConfigParameter) -> (r: String)
    ensures
        r@ == spec_command_line("CONFGET"@, seq![hex_padded(parameter.spec_id() as nat, 2)]),
{
    let args = vec![hex2(parameter.id())];
    proof {
        assert(strings_view(args@) =~= seq![hex_padded(parameter.spec_id() as nat, 2)]);
    }
    command_line("CONFGET", args.as_slice())
}

/// `CONFSET;[id];[value]`.
pub fn conf_set_line(parameter: ConfigParameter, value: u8) -> (r: String)
    ensures
        r@ == spec_command_line(
            "CONFSET"@,
            seq![hex_padded(parameter.spec_id() as nat, 2), hex_padded(value as nat, 2)],
        ),
{
    let args = vec![hex2(parameter.id()), hex2(value)];
    proof {
        assert(strings_view(args@) =~= seq![
            hex_padded(parameter.spec_id() as nat, 2),
            hex_padded(value as nat, 2),
        ]);
    }
    command_line("CONFSET", args.as_slice())
}

/// `INFOGET;[id]`.
pub fn info_get_line(parameter: InfoParameter) -> (r: String)
    ensures
        r@ == spec_command_line("INFOGET"@, seq![hex_padded(parameter.spec_id() as nat, 2)]),
{
    let args = vec![hex2(parameter.id())];
    proof {
        assert(strings_view(args@) =~= seq![hex_padded(parameter.spec_id() as nat, 2)]);
    }
    command_line("INFOGET", args.as_slice())
}

/// `EPOCHREFSET;[ComputerTime:8]`.
pub fn epoch_ref_set_line(epoch_seconds: u32) -> (r: String)
    ensures
        r@ == spec_command_line("EPOCHREFSET"@, seq![hex_padded(epoch_seconds as nat, 8)]),
{
    let args = vec![hex8(epoch_seconds)];
    proof {
        assert(strings_view(args@) =~= seq![hex_padded(epoch_seconds as nat, 8)]);
    }
    command_line("EPOCHREFSET", args.as_slice())
}

/// `PASSINGGET;[StartIndex:8]`.
pub fn passing_get_line(start_index: u32) -> (r: String)
    ensures
        r@ == spec_command_line("PASSINGGET"@, seq![hex_padded(start_index as nat, 8)]),
{
    let args = vec![hex8(start_index)];
    proof {
        assert(strings_view(args@) =~= seq![hex_padded(start_index as nat, 8)]);
    }
    command_line("PASSINGGET", args.as_slice())
}

/// The line that selects an operation mode.
pub fn set_mode_line(mode: OperationMode) -> (r: String)
    ensures
        r@ == spec_command_line(
            "CONFSET"@,
            seq![
                hex_padded(ConfigParameter::OperationMode.spec_id() as nat, 2),
                hex_padded(mode.spec_code() as nat, 2),
            ],
        ),
{
    conf_set_line(ConfigParameter::OperationMode, mode.code())
}

/// The line that sets the radio channel, when `channel` is at most 7.
pub open spec fn spec_channel_id_line(channel: u8) -> Option<Seq<char>> {
    if channel <= 7 {
        Some(
            spec_command_line(
                "CONFSET"@,
                seq![
                    hex_padded(ConfigParameter::ChannelId.spec_id() as nat, 2),
                    hex_padded(channel as nat, 2),
                ],
            ),
        )
    } else {
        None
    }
}

/// The line that sets the radio channel; channels above 7 are refused.
pub fn set_channel_id_line(channel: u8) -> (r: Result<String, Error>)
    ensures
        match r {
            Ok(line) => spec_channel_id_line(channel) == Some(line@),
            Err(e) => spec_channel_id_line(channel) is None && e is Protocol,
        },
{
    if channel > 0x07 {
        return Err(protocol_error_number("channel out of range", channel as u64));
    }
    Ok(conf_set_line(ConfigParameter::ChannelId, channel))
}

/// The line that sets the loop id, when `loop_id` is at most 7.
pub open spec fn spec_loop_id_line(loop_id: u8) -> Option<Seq<char>> {
    if loop_id <= 7 {
        Some(
            spec_command_line(
                "CONFSET"@,
                seq![
                    hex_padded(ConfigParameter::LoopId.spec_id() as nat, 2),
                    hex_padded(loop_id as nat, 2),
                ],
            ),
        )
    } else {
        None
    }
}

/// The line that sets the loop id; ids above 7 are refused.
pub fn set_loop_id_line(loop_id: u8) -> (r: Result<String, Error>)
    ensures
        match r {
            Ok(line) => spec_loop_id_line(loop_id) == Some(line@),
            Err(e) => spec_loop_id_line(loop_id) is None && e is Protocol,
        },
{
    if loop_id > 0x07 {
        return Err(protocol_error_number("loop id out of range", loop_id as u64));
    }
    Ok(conf_set_line(ConfigParameter::LoopId, loop_id))
}

/// The line that sets the loop power in percent, when `power_percent` is at most 100.
pub open spec fn spec_loop_power_line(power_percent: u8) -> Option<Seq<char>> {
    if power_percent <= 100 {
        Some(
            spec_command_line(
                "CONFSET"@,
                seq![
                    hex_padded(ConfigParameter::LoopPower.spec_id() as nat, 2),
                    hex_padded(power_percent as nat, 2),
                ],
            ),
        )
    } else {
        None
    }
}

/// The line that sets the loop power; more than 100 % is refused.
pub fn set_loop_power_line(power_percent: u8) -> (r: Result<String, Error>)
    ensures
        match r {
            Ok(line) => spec_loop_power_line(power_percent) == Some(line@),
            Err(e) => spec_loop_power_line(power_percent) is None && e is Protocol,
        },
{
    if power_percent > 100 {
        return Err(protocol_error_number("loop power out of range", power_percent as u64));
    }
    Ok(conf_set_line(ConfigParameter::LoopPower, power_percent))
}

/// The settings that are range-checked refuse exactly the values beyond their ranges
/// (channel and loop id above 7, loop power above 100 %), and set the documented parameter
/// (`06` channel, `07` loop id, `08` loop power) to the value otherwise.
pub proof fn lemma_setting_lines(value: u8)
    ensures
        spec_channel_id_line(value) is Some <==> value <= 7,
        spec_loop_id_line(value) is Some <==> value <= 7,
        spec_loop_power_line(value) is Some <==> value <= 100,
        spec_channel_id_line(value) matches Some(line) ==> line == spec_command_line(
            "CONFSET"@,
            seq![hex_padded(0x06, 2), hex_padded(value as nat, 2)],
        ),
        spec_loop_id_line(value) matches Some(line) ==> line == spec_command_line(
            "CONFSET"@,
            seq![hex_padded(0x07, 2), hex_padded(value as nat, 2)],
        ),
        spec_loop_power_line(value) matches Some(line) ==> line == spec_command_line(
            "CONFSET"@,
            seq![hex_padded(0x08, 2), hex_padded(value as nat, 2)],
        ),
{
}

/// The UNIX second that an epoch sync aims at: the next one, or `u32::MAX` itself.
pub open spec fn spec_sync_target(now: u32) -> u32 {
    if now == u32::MAX {
        now
    } else {
        (now + 1) as u32
    }
}

/// The UNIX second that an epoch sync aims at, from the current one.
pub fn sync_target(now: u32) -> (t: u32)
    ensures
        t == spec_sync_target(now),
{
    now.saturating_add(1)
}

/// Whether the clock has reached the sync target, so that the DTR pulse is due.
pub fn sync_target_reached(now: u32, target: u32) -> (r: bool)
    ensures
        r == (now >= target),
{
    now >= target
}

/// Whether a received line announces the end of the boot loader.
pub fn is_autoboot_line(line: &str) -> (r: bool)
    ensures
        r == (trim_end(line@) == "AUTOBOOT"@),
{
    let trimmed = crate::text::trim_end_str(line);
    let expected = "AUTOBOOT";
    proof {
        reveal_strlit("AUTOBOOT");
    }
    str_eq(trimmed, expected)
}

/// Whether two string slices hold the same characters.
fn str_eq(a: &str, b: &str) -> (r: bool)
    ensures
        r == (a@ == b@),
{
    let x = crate::text::chars_of(a);
    let y = crate::text::chars_of(b);
    if x.len() != y.len() {
        return false;
    }
    let mut i: usize = 0;
    while i < x.len()
        invariant
            x@ == a@,
            y@ == b@,
            x.len() == y.len(),
            i <= x.len(),
            forall|j: int| 0 <= j < i ==> x@[j] == y@[j],
        decreases x.len() - i,
    {
        if x[i] != y[i] {
            return false;
        }
        i = i + 1;
    }
    proof {
        assert(x@ =~= y@);
    }
    true
}

/// `String::from_utf8_lossy`, named: the text of `bytes` with invalid UTF-8 replaced.
pub uninterp spec fn utf8_lossy(bytes: Seq<u8>) -> Seq<char>;

/// `String::from_utf8_lossy(bytes)` made owned: the contract claims only that the result
/// is the text that the name denotes for these bytes.
///
/// Bytes that are valid UTF-8 come back unchanged; in particular ASCII bytes come back as
/// the characters with those codes.
#[verifier::external_body]
fn lossy_string(bytes: &[u8]) -> (r: String)
    ensures
        r@ == utf8_lossy(bytes@),
        is_ascii_bytes(bytes@) ==> r@ == ascii_chars(bytes@),
{
    String::from_utf8_lossy(bytes).into_owned()
}

/// Whether every byte is ASCII (below 128).
pub open spec fn is_ascii_bytes(b: Seq<u8>) -> bool {
    forall|i: int| 0 <= i < b.len() ==> b[i] < 128
}

/// The characters whose codes are the ASCII bytes `b`.
pub open spec fn ascii_chars(b: Seq<u8>) -> Seq<char> {
    Seq::new(b.len(), |i: int| b[i] as char)
}

/// The bytes of a received line without one trailing carriage return.
pub open spec fn strip_carriage_return(b: Seq<u8>) -> Seq<u8> {
    if b.len() > 0 && b.last() == 13 {
        b.drop_last()
    } else {
        b
    }
}

/// Takes the first complete line (up to its `\n`) out of the received bytes, without its
/// `\n` and one `\r` before it; `None`, and nothing taken, while no `\n` has arrived.
pub fn consume_line(scratch: &mut Vec<u8>) -> (r: Option<String>)
    ensures
        match r {
            None => final(scratch)@ == old(scratch)@ && forall|j: int|
                0 <= j < old(scratch)@.len() ==> old(scratch)@[j] != 10,
            Some(line) => {
                let pos = old(scratch)@.len() - final(scratch)@.len() - 1;
                &&& 0 <= pos < old(scratch)@.len()
                &&& old(scratch)@[pos] == 10
                &&& forall|j: int| 0 <= j < pos ==> old(scratch)@[j] != 10
                &&& final(scratch)@ == old(scratch)@.skip(pos + 1)
                &&& line@ == utf8_lossy(strip_carriage_return(old(scratch)@.take(pos)))
                &&& is_ascii_bytes(strip_carriage_return(old(scratch)@.take(pos))) ==> line@
                    == ascii_chars(strip_carriage_return(old(scratch)@.take(pos)))
            },
        },
{
    let ghost before = scratch@;
    let mut pos: usize = 0;
    while pos < scratch.len() && scratch[pos] != 10
        invariant
            scratch@ == before,
            pos <= scratch.len(),
            forall|j: int| 0 <= j < pos ==> scratch@[j] != 10,
        decreases scratch.len() - pos,
    {
        pos = pos + 1;
    }
    if pos == scratch.len() {
        return None;
    }
    let mut line_bytes = scratch.split_off(pos + 1);
    core::mem::swap(scratch, &mut line_bytes);
    line_bytes.truncate(pos);
    if line_bytes.len() > 0 && line_bytes[line_bytes.len() - 1] == 13 {
        line_bytes.pop();
    }
    proof {
        assert(before.subrange(0, pos + 1).subrange(0, pos as int) =~= before.take(pos as int));
        assert(before.subrange(pos + 1, before.len() as int) =~= before.skip(pos + 1));
        assert(line_bytes@ =~= strip_carriage_return(before.take(pos as int)));
    }
    Some(lossy_string(line_bytes.as_slice()))
}

/// Whether a line is passed over while waiting for a reply's header: empty lines and
/// `#` push messages.
pub open spec fn skipped_before_header(line: Seq<char>) -> bool {
    line.len() == 0 || line[0] == '#'
}

/// The command and return code of a reply header `[Command];[ReturnCode:2]` that echoes
/// `expected`.
pub open spec fn spec_reply_header(expected: Seq<char>, line: Seq<char>) -> Option<(Seq<char>, u8)> {
    let f = split(line, ';');
    if f[0] == expected && f.len() >= 2 && hex_u8(f[1]) is Some {
        Some((f[0], hex_u8(f[1]).unwrap()))
    } else {
        None
    }
}

/// Assembles a reply from the lines that follow a command: an echo of the command with
/// its return code, then data lines, then an empty line.
pub struct ReplyReader {
    expected_command: String,
    header: Option<(String, u8)>,
    data_lines: Vec<String>,
}

/// The content of a [`ReplyReader`].
pub struct ReplyReaderView {
    pub expected_command: Seq<char>,
    pub header: Option<(Seq<char>, u8)>,
    pub data_lines: Seq<Seq<char>>,
}

impl View for ReplyReader {
    type V = ReplyReaderView;

    closed spec fn view(&self) -> ReplyReaderView {
        ReplyReaderView {
            expected_command: self.expected_command@,
            header: match self.header {
                Some((c, code)) => Some((c@, code)),
                None => None,
            },
            data_lines: strings_view(self.data_lines@),
        }
    }
}

/// The state of a reader after it is fed `line`, when it asks for more lines.
pub open spec fn reply_reader_next(s: ReplyReaderView, line: Seq<char>) -> ReplyReaderView {
    match s.header {
        None => if skipped_before_header(line) {
            s
        } else {
            ReplyReaderView {
                header: spec_reply_header(s.expected_command, line),
                data_lines: Seq::empty(),
                ..s
            }
        },
        Some(_) => ReplyReaderView { data_lines: s.data_lines.push(line), ..s },
    }
}

impl ReplyReader {
    /// Data lines are never empty (an empty line ends a reply), and there are none
    /// before the header.
    #[verifier::type_invariant]
    spec fn well_formed(&self) -> bool {
        &&& forall|i: int| 0 <= i < self.data_lines@.len() ==> (#[trigger] self.data_lines@[i])@.len() > 0
        &&& self.header is None ==> self.data_lines@.len() == 0
    }

    /// A reader for the reply to `expected_command`.
    pub fn new(expected_command: &str) -> (r: Self)
        ensures
            r@.expected_command == expected_command@,
            r@.header is None,
            r@.data_lines == Seq::<Seq<char>>::empty(),
    {
        let r = ReplyReader {
            expected_command: String::from_str(expected_command),
            header: None,
            data_lines: Vec::new(),
        };
        proof {
            assert(strings_view(r.data_lines@) =~= Seq::<Seq<char>>::empty());
        }
        r
    }

    /// Feeds the next received line. `None` asks for more lines; `Some` is the reply, or
    /// the error that ends it (a header that echoes another command or has no readable
    /// return code). After a complete reply the reader waits for the next header; after
    /// an error it is as it was.
    pub fn feed(&mut self, line: &str) -> (r: Option<Result<CommandResponse, Error>>)
        ensures
            match old(self)@.header {
                None => if skipped_before_header(line@) {
                    r is None && final(self)@ == old(self)@
                } else {
                    match spec_reply_header(old(self)@.expected_command, line@) {
                        Some(_) => r is None && final(self)@ == reply_reader_next(old(self)@, line@),
                        None => r matches Some(Err(e)) && e is Protocol && final(self)@
                            == old(self)@,
                    }
                },
                Some((command, return_code)) => if line@.len() == 0 {
                    &&& r matches Some(Ok(resp))
                    &&& final(self)@ == (ReplyReaderView {
                        header: None,
                        data_lines: Seq::empty(),
                        ..old(self)@
                    })
                    &&& resp@ == (CommandResponseView {
                        command,
                        return_code,
                        data_lines: old(self)@.data_lines,
                    })
                    &&& forall|i: int|
                        0 <= i < resp@.data_lines.len() ==> (#[trigger] resp@.data_lines[i]).len()
                            > 0
                } else {
                    r is None && final(self)@ == reply_reader_next(old(self)@, line@)
                },
            },
    {
        proof {
            use_type_invariant(&*self);
        }
        match &self.header {
            None => {
                let chars = crate::text::chars_of(line);
                if chars.len() == 0 || chars[0] == '#' {
                    return None;
                }
                let parts = split_fields(line, ';');
                proof {
                    crate::text::lemma_split_nonempty(line@, ';');
                    assert(strings_view(parts@)[0] == parts@[0]@);
                }
                let command = parts[0].clone();
                if !str_eq(command.as_str(), self.expected_command.as_str()) {
                    let mut text = String::from_str("unexpected command echo: expected ");
                    text.append(self.expected_command.as_str());
                    text.append(", got ");
                    text.append(command.as_str());
                    return Some(Err(Error::Protocol(text)));
                }
                if parts.len() < 2 {
                    return Some(Err(protocol_error("missing return code in reply")));
                }
                proof {
                    assert(strings_view(parts@)[1] == parts@[1]@);
                }
                let return_code = match parse_hex_u8(parts[1].as_str()) {
                    Ok(code) => code,
                    Err(e) => {
                        return Some(Err(e));
                    },
                };
                self.header = Some((command, return_code));
                self.data_lines = Vec::new();
                proof {
                    assert(strings_view(self.data_lines@) =~= Seq::<Seq<char>>::empty());
                }
                None
            },
            Some((command, return_code)) => {
                if crate::text::chars_of(line).len() == 0 {
                    let command = command.clone();
                    let return_code = *return_code;
                    let mut data_lines: Vec<String> = Vec::new();
                    core::mem::swap(&mut data_lines, &mut self.data_lines);
                    self.header = None;
                    proof {
                        assert(strings_view(self.data_lines@) =~= Seq::<Seq<char>>::empty());
                    }
                    return Some(Ok(CommandResponse { command, return_code, data_lines }));
                }
                let mut lines: Vec<String> = Vec::new();
                core::mem::swap(&mut lines, &mut self.data_lines);
                lines.push(String::from_str(line));
                self.data_lines = lines;
                proof {
                    assert(strings_view(self.data_lines@) =~= old(self)@.data_lines.push(line@));
                }
                None
            },
        }
    }
}

/// The state of a reader after it is fed `lines` one by one, as long as it asks for more.
pub open spec fn reply_reader_after(s: ReplyReaderView, lines: Seq<Seq<char>>) -> ReplyReaderView
    decreases lines.len(),
{
    if lines.len() == 0 {
        s
    } else {
        reply_reader_next(reply_reader_after(s, lines.drop_last()), lines.last())
    }
}

/// Once a reader holds the header, the non-empty lines it is fed become the reply's data
/// lines, in the order they came.
pub proof fn lemma_reply_collects_lines(s: ReplyReaderView, lines: Seq<Seq<char>>)
    requires
        s.header is Some,
        forall|i: int| 0 <= i < lines.len() ==> (#[trigger] lines[i]).len() > 0,
    ensures
        reply_reader_after(s, lines) == (ReplyReaderView { data_lines: s.data_lines + lines, ..s }),
    decreases lines.len(),
{
    if lines.len() == 0 {
        assert(s.data_lines + lines =~= s.data_lines);
    } else {
        let init = lines.drop_last();
        assert forall|i: int| 0 <= i < init.len() implies (#[trigger] init[i]).len() > 0 by {
            assert(init[i] == lines[i]);
        }
        lemma_reply_collects_lines(s, init);
        assert((s.data_lines + init).push(lines.last()) =~= s.data_lines + lines);
    }
}

/// The lines of `v`, cloned.
fn clone_lines(v: &Vec<String>) -> (r: Vec<String>)
    ensures
        strings_view(r@) == strings_view(v@),
{
    let mut r: Vec<String> = Vec::new();
    for i in 0..v.len()
        invariant
            r.len() == i,
            forall|j: int| 0 <= j < i ==> (#[trigger] r@[j])@ == v@[j]@,
    {
        r.push(v[i].clone());
    }
    assert(strings_view(r@) =~= strings_view(v@));
    r
}

/// `Ok` when the reply carries the expected return code, else the failed command.
pub fn ensure_code(response: &CommandResponse, expected_code: u8) -> (r: Result<(), Error>)
    ensures
        match r {
            Ok(()) => response.return_code == expected_code,
            Err(e) => response.return_code != expected_code && is_command_failed(e, response@),
        },
{
    if response.return_code == expected_code {
        Ok(())
    } else {
        Err(
            Error::CommandFailed {
                command: response.command.clone(),
                return_code: response.return_code,
                data_lines: clone_lines(&response.data_lines),
            },
        )
    }
}

/// What a reply that carries one data line means, when `meaning` reads that line: a
/// failed command unless the code is `00`, a protocol error unless there is exactly one
/// data line, and otherwise what the line means.
pub open spec fn single_line_reply<T>(
    resp: CommandResponseView,
    r: Result<T, Error>,
    meaning: spec_fn(Seq<char>) -> Option<T>,
) -> bool {
    if resp.return_code != 0 {
        r matches Err(e) && is_command_failed(e, resp)
    } else if resp.data_lines.len() != 1 {
        r matches Err(e) && e is Protocol
    } else {
        parsed_as(r, meaning(resp.data_lines[0]))
    }
}

/// The data line of a successful single-line reply.
fn success_line(response: &CommandResponse) -> (r: Result<&str, Error>)
    ensures
        match r {
            Ok(line) => response.return_code == 0 && response@.data_lines.len() == 1 && line@
                == response@.data_lines[0],
            Err(e) => if response.return_code != 0 {
                is_command_failed(e, response@)
            } else {
                response@.data_lines.len() != 1 && e is Protocol
            },
        },
{
    ensure_code(response, 0)?;
    match response.single_data_line() {
        Some(line) => Ok(line),
        None => {
            let mut text = response.command.clone();
            text.append(" missing data line");
            Err(Error::Protocol(text))
        },
    }
}

/// The value of a `CONFGET` data line `[id:2];[value:2]` (the id must be hexadecimal too).
pub open spec fn spec_conf_value(line: Seq<char>) -> Option<u8> {
    let f = split(line, ';');
    if hex_u8(f[0]) is Some && f.len() >= 2 {
        hex_u8(f[1])
    } else {
        None
    }
}

/// The configured value that a `CONFGET` reply reports.
pub fn conf_get_value(response: &CommandResponse) -> (r: Result<u8, Error>)
    ensures
        single_line_reply(response@, r, |l: Seq<char>| spec_conf_value(l)),
{
    let line = success_line(response)?;
    let parts = split_fields(line, ';');
    proof {
        crate::text::lemma_split_nonempty(line@, ';');
        assert(strings_view(parts@)[0] == parts@[0]@);
    }
    parse_hex_u8(parts[0].as_str())?;
    if parts.len() < 2 {
        return Err(protocol_error("CONFGET missing value"));
    }
    proof {
        assert(strings_view(parts@)[1] == parts@[1]@);
    }
    parse_hex_u8(parts[1].as_str())
}

/// The raw value of an `INFOGET` data line `[id:2];[value]` whose id is `parameter_id`.
pub open spec fn spec_info_value(parameter_id: u8, line: Seq<char>) -> Option<Seq<char>> {
    let f = split(line, ';');
    if hex_u8(f[0]) == Some(parameter_id) && f.len() >= 2 {
        Some(f[1])
    } else {
        None
    }
}

/// The raw value text that an `INFOGET` reply reports for `parameter_id`.
pub fn info_get_value(parameter_id: u8, response: &CommandResponse) -> (r: Result<String, Error>)
    ensures
        response.return_code != 0 ==> (r matches Err(e) && is_command_failed(e, response@)),
        response.return_code == 0 ==> match r {
            Ok(v) => response@.data_lines.len() == 1 && spec_info_value(
                parameter_id,
                response@.data_lines[0],
            ) == Some(v@),
            Err(e) => e is Protocol && (response@.data_lines.len() != 1 || spec_info_value(
                parameter_id,
                response@.data_lines[0],
            ) is None),
        },
{
    let line = success_line(response)?;
    let parts = split_fields(line, ';');
    proof {
        crate::text::lemma_split_nonempty(line@, ';');
        assert(strings_view(parts@)[0] == parts@[0]@);
    }
    let id = parse_hex_u8(parts[0].as_str())?;
    if id != parameter_id {
        let mut text = String::from_str("INFOGET id mismatch: expected ");
        text.append(hex2(parameter_id).as_str());
        text.append(", got ");
        text.append(hex2(id).as_str());
        return Err(Error::Protocol(text));
    }
    if parts.len() < 2 {
        return Err(protocol_error("INFOGET missing value"));
    }
    proof {
        assert(strings_view(parts@)[1] == parts@[1]@);
    }
    Ok(parts[1].clone())
}

/// The buffer summary that a `PASSINGINFOGET` reply reports.
pub fn passing_info_from_response(response: &CommandResponse) -> (r: Result<PassingInfo, Error>)
    ensures
        single_line_reply(response@, r, |l: Seq<char>| spec_passing_info(l)),
{
    let line = success_line(response)?;
    PassingInfo::from_line(line)
}

/// The epoch reference that an `EPOCHREFGET`/`EPOCHREFSET` reply reports (FW 2.5).
pub fn epoch_fw25_from_response(response: &CommandResponse) -> (r: Result<EpochReferenceFw25, Error>)
    ensures
        single_line_reply(response@, r, |l: Seq<char>| spec_epoch_fw25(l)),
{
    let line = success_line(response)?;
    EpochReferenceFw25::parse(line)
}

/// The epoch reference that an `EPOCHREFGET`/`EPOCHREFSET` reply reports (FW 2.6).
pub fn epoch_fw26_from_response(response: &CommandResponse) -> (r: Result<EpochReferenceFw26, Error>)
    ensures
        single_line_reply(response@, r, |l: Seq<char>| spec_epoch_fw26(l)),
{
    let line = success_line(response)?;
    EpochReferenceFw26::parse(line)
}

/// The box timestamp that a `TIMESTAMPGET` reply reports (FW 2.5, 32 bits).
pub fn timestamp_fw25_from_response(response: &CommandResponse) -> (r: Result<u32, Error>)
    ensures
        single_line_reply(response@, r, |l: Seq<char>| hex_u32(l)),
{
    let line = success_line(response)?;
    parse_hex_u32(line)
}

/// The box timestamp that a `TIMESTAMPGET` reply reports (FW 2.6, 40 bits).
pub fn timestamp_fw26_from_response(response: &CommandResponse) -> (r: Result<u64, Error>)
    ensures
        single_line_reply(response@, r, |l: Seq<char>| hex_u64(l)),
{
    let line = success_line(response)?;
    parse_hex_u64(line)
}

/// The channel and noise that a `SITESURVEY` data line `[Channel:2];[Noise:2]` reports,
/// for a channel below 8.
pub open spec fn spec_survey_line(line: Seq<char>) -> Option<(u8, u8)> {
    let f = split(line, ';');
    if hex_u8(f[0]) is Some && f.len() >= 2 && hex_u8(f[1]) is Some && hex_u8(f[0]).unwrap() < 8 {
        Some((hex_u8(f[0]).unwrap(), hex_u8(f[1]).unwrap()))
    } else {
        None
    }
}

/// The noise table after the survey lines `lines`, each setting its channel's entry,
/// starting from all zeros.
pub open spec fn survey_table(lines: Seq<Seq<char>>) -> Option<Seq<u8>>
    decreases lines.len(),
{
    if lines.len() == 0 {
        Some(seq![0u8, 0u8, 0u8, 0u8, 0u8, 0u8, 0u8, 0u8])
    } else {
        match survey_table(lines.drop_last()) {
            Some(table) => match spec_survey_line(lines.last()) {
                Some((channel, noise)) => Some(table.update(channel as int, noise)),
                None => None,
            },
            None => None,
        }
    }
}

/// The noise per channel that a successful `SITESURVEY` reply reports: eight lines.
pub open spec fn spec_site_survey(lines: Seq<Seq<char>>) -> Option<Seq<u8>> {
    if lines.len() == 8 {
        survey_table(lines)
    } else {
        None
    }
}

proof fn lemma_survey_table_len(lines: Seq<Seq<char>>)
    ensures
        survey_table(lines) matches Some(t) ==> t.len() == 8,
    decreases lines.len(),
{
    if lines.len() > 0 {
        lemma_survey_table_len(lines.drop_last());
    }
}

proof fn lemma_survey_table_prefix(lines: Seq<Seq<char>>, i: int)
    requires
        0 <= i <= lines.len(),
        survey_table(lines.take(i)) is None,
    ensures
        survey_table(lines) is None,
    decreases lines.len(),
{
    if i < lines.len() {
        assert(lines.drop_last().take(i) =~= lines.take(i));
        lemma_survey_table_prefix(lines.drop_last(), i);
    } else {
        assert(lines.take(i) =~= lines);
    }
}

/// A reply header names the echoed command in its first field and the return code, in
/// hexadecimal, in its second.
pub proof fn lemma_reply_header_fields(expected: Seq<char>, line: Seq<char>)
    ensures
        spec_reply_header(expected, line) matches Some((command, code)) ==> {
            &&& command == expected
            &&& split(line, ';')[0] == expected
            &&& hex_u8(split(line, ';')[1]) == Some(code)
        },
{
}

/// A `CONFGET` line reports the value, in hexadecimal, in its second field; an
/// `INFOGET` line names the parameter in its first field and carries the raw value in
/// its second; a `SITESURVEY` line names the channel (below 8) in its first field and
/// the noise in its second.
pub proof fn lemma_value_line_fields(line: Seq<char>, parameter_id: u8)
    ensures
        spec_conf_value(line) matches Some(v) ==> hex_u8(split(line, ';')[1]) == Some(v),
        spec_info_value(parameter_id, line) matches Some(v) ==> hex_u8(split(line, ';')[0])
            == Some(parameter_id) && split(line, ';')[1] == v,
        spec_survey_line(line) matches Some((channel, noise)) ==> {
            &&& channel < 8
            &&& hex_u8(split(line, ';')[0]) == Some(channel)
            &&& hex_u8(split(line, ';')[1]) == Some(noise)
        },
{
}

/// The noise table of a site survey gives each channel the noise of the last line that
/// names it, and no noise to a channel that no line names.
pub proof fn lemma_survey_table_entries(lines: Seq<Seq<char>>, channel: int)
    requires
        survey_table(lines) is Some,
        0 <= channel < 8,
    ensures
        (forall|i: int| 0 <= i < lines.len() ==> (#[trigger] spec_survey_line(lines[i])).unwrap().0
            != channel) ==> survey_table(lines).unwrap()[channel] == 0,
        forall|i: int|
            0 <= i < lines.len() && spec_survey_line(lines[i]).unwrap().0 == channel && (forall|
                j: int,
            |
                i < j < lines.len() ==> (#[trigger] spec_survey_line(lines[j])).unwrap().0
                    != channel) ==> survey_table(lines).unwrap()[channel] == (#[trigger] spec_survey_line(
                lines[i],
            )).unwrap().1,
    decreases lines.len(),
{
    lemma_survey_table_len(lines);
    if lines.len() > 0 {
        let prev = lines.drop_last();
        assert(survey_table(prev) is Some);
        lemma_survey_table_len(prev);
        lemma_survey_table_entries(prev, channel);
        assert forall|i: int| 0 <= i < prev.len() implies prev[i] == lines[i] by {}
    }
}

/// The channel and the noise that one `SITESURVEY` data line reports.
fn survey_entry(line: &str) -> (r: Result<(u8, u8), Error>)
    ensures
        match r {
            Ok(entry) => spec_survey_line(line@) == Some(entry),
            Err(e) => spec_survey_line(line@) is None && e is Protocol,
        },
{
    let parts = split_fields(line, ';');
    proof {
        crate::text::lemma_split_nonempty(line@, ';');
        assert(strings_view(parts@)[0] == parts@[0]@);
    }
    let channel = parse_hex_u8(parts[0].as_str())?;
    if parts.len() < 2 {
        return Err(protocol_error("missing noise"));
    }
    proof {
        assert(strings_view(parts@)[1] == parts@[1]@);
    }
    let noise = parse_hex_u8(parts[1].as_str())?;
    if channel >= 8 {
        return Err(protocol_error_number("invalid channel in SITESURVEY", channel as u64));
    }
    Ok((channel, noise))
}

/// The noise of each of the eight 2.4 GHz channels that a `SITESURVEY` reply reports
/// (`00` = no noise, `0A` = channel fully blocked).
pub fn site_survey_from_response(response: &CommandResponse) -> (r: Result<[u8; 8], Error>)
    ensures
        response.return_code != 0 ==> (r matches Err(e) && is_command_failed(e, response@)),
        response.return_code == 0 ==> match r {
            Ok(table) => spec_site_survey(response@.data_lines) == Some(table@),
            Err(e) => spec_site_survey(response@.data_lines) is None && e is Protocol,
        },
{
    ensure_code(response, 0)?;
    if response.data_lines.len() != 8 {
        let mut text = String::from_str("SITESURVEY expected 8 data lines, got ");
        push_decimal(&mut text, response.data_lines.len() as u64);
        return Err(Error::Protocol(text));
    }
    let ghost lines = response@.data_lines;
    let mut table: [u8; 8] = [0u8, 0u8, 0u8, 0u8, 0u8, 0u8, 0u8, 0u8];
    proof {
        assert(lines.take(0) =~= Seq::<Seq<char>>::empty());
        assert(table@ =~= seq![0u8, 0u8, 0u8, 0u8, 0u8, 0u8, 0u8, 0u8]);
    }
    for i in 0..8usize
        invariant
            lines == response@.data_lines,
            response.return_code == 0,
            lines.len() == 8,
            response.data_lines.len() == 8,
            survey_table(lines.take(i as int)) == Some(table@),
    {
        proof {
            assert(lines.take(i + 1).drop_last() =~= lines.take(i as int));
            assert(lines[i as int] == response.data_lines@[i as int]@);
        }
        let line = response.data_lines[i].as_str();
        match survey_entry(line) {
            Ok((channel, noise)) => {
                table[channel as usize] = noise;
            },
            Err(e) => {
                proof {
                    assert(survey_table(lines.take(i + 1)) is None);
                    lemma_survey_table_prefix(lines, i + 1);
                }
                return Err(e);
            },
        }
    }
    proof {
        assert(lines.take(8) =~= lines);
    }
    Ok(table)
}

/// Whether a successful FW 2.5 `BEACONGET` reply is well formed: a count line, then that
/// many beacon lines.
pub open spec fn beacons_fw25_ok(lines: Seq<Seq<char>>) -> bool {
    &&& lines.len() >= 1
    &&& hex_u8(lines[0]) is Some
    &&& lines.len() - 1 == hex_u8(lines[0]).unwrap()
    &&& forall|i: int| 1 <= i < lines.len() ==> spec_beacon_fw25(#[trigger] lines[i]) is Some
}

/// Whether a successful FW 2.6 `BEACONGET` reply is well formed.
pub open spec fn beacons_fw26_ok(lines: Seq<Seq<char>>) -> bool {
    &&& lines.len() >= 1
    &&& hex_u8(lines[0]) is Some
    &&& lines.len() - 1 == hex_u8(lines[0]).unwrap()
    &&& forall|i: int| 1 <= i < lines.len() ==> spec_beacon_fw26(#[trigger] lines[i]) is Some
}

/// The beacons that a FW 2.5 `BEACONGET` reply reports.
pub fn beacons_fw25_from_response(response: &CommandResponse) -> (r: Result<
    Vec<BeaconRecordFw25>,
    Error,
>)
    ensures
        response.return_code != 0 ==> (r matches Err(e) && is_command_failed(e, response@)),
        response.return_code == 0 ==> match r {
            Ok(beacons) => {
                &&& beacons_fw25_ok(response@.data_lines)
                &&& beacons.len() == response@.data_lines.len() - 1
                &&& forall|i: int|
                    0 <= i < beacons.len() ==> spec_beacon_fw25(response@.data_lines[i + 1])
                        == Some(#[trigger] beacons[i])
            },
            Err(e) => !beacons_fw25_ok(response@.data_lines) && e is Protocol,
        },
{
    ensure_code(response, 0)?;
    let ghost lines = response@.data_lines;
    if response.data_lines.len() == 0 {
        return Err(protocol_error("BEACONGET missing count line"));
    }
    proof {
        assert(lines[0] == response.data_lines@[0]@);
    }
    let expected_count = parse_hex_u8(response.data_lines[0].as_str())?;
    let n = response.data_lines.len();
    let mut beacons: Vec<BeaconRecordFw25> = Vec::new();
    let mut i: usize = 1;
    while i < n
        invariant
            1 <= i <= n,
            n == lines.len(),
            lines == strings_view(response.data_lines@),
            response.return_code == 0,
            beacons.len() == i - 1,
            forall|j: int| 1 <= j < i ==> spec_beacon_fw25(#[trigger] lines[j]) is Some,
            forall|j: int|
                0 <= j < beacons.len() ==> spec_beacon_fw25(lines[j + 1]) == Some(
                    #[trigger] beacons[j],
                ),
        decreases n - i,
    {
        proof {
            assert(lines[i as int] == response.data_lines@[i as int]@);
        }
        let beacon = match BeaconRecordFw25::from_line(response.data_lines[i].as_str()) {
            Ok(b) => b,
            Err(e) => {
                proof {
                    assert(spec_beacon_fw25(lines[i as int]) is None);
                }
                return Err(e);
            },
        };
        beacons.push(beacon);
        i = i + 1;
    }
    if beacons.len() != expected_count as usize {
        return Err(
            protocol_error_mismatch(
                "BEACONGET count mismatch",
                expected_count as u64,
                "records",
                beacons.len() as u64,
            ),
        );
    }
    Ok(beacons)
}

/// The beacons that a FW 2.6 `BEACONGET` reply reports.
pub fn beacons_fw26_from_response(response: &CommandResponse) -> (r: Result<
    Vec<BeaconRecordFw26>,
    Error,
>)
    ensures
        response.return_code != 0 ==> (r matches Err(e) && is_command_failed(e, response@)),
        response.return_code == 0 ==> match r {
            Ok(beacons) => {
                &&& beacons_fw26_ok(response@.data_lines)
                &&& beacons.len() == response@.data_lines.len() - 1
                &&& forall|i: int|
                    0 <= i < beacons.len() ==> spec_beacon_fw26(response@.data_lines[i + 1])
                        == Some(#[trigger] beacons[i])
            },
            Err(e) => !beacons_fw26_ok(response@.data_lines) && e is Protocol,
        },
{
    ensure_code(response, 0)?;
    let ghost lines = response@.data_lines;
    if response.data_lines.len() == 0 {
        return Err(protocol_error("BEACONGET missing count line"));
    }
    proof {
        assert(lines[0] == response.data_lines@[0]@);
    }
    let expected_count = parse_hex_u8(response.data_lines[0].as_str())?;
    let n = response.data_lines.len();
    let mut beacons: Vec<BeaconRecordFw26> = Vec::new();
    let mut i: usize = 1;
    while i < n
        invariant
            1 <= i <= n,
            n == lines.len(),
            lines == strings_view(response.data_lines@),
            response.return_code == 0,
            beacons.len() == i - 1,
            forall|j: int| 1 <= j < i ==> spec_beacon_fw26(#[trigger] lines[j]) is Some,
            forall|j: int|
                0 <= j < beacons.len() ==> spec_beacon_fw26(lines[j + 1]) == Some(
                    #[trigger] beacons[j],
                ),
        decreases n - i,
    {
        proof {
            assert(lines[i as int] == response.data_lines@[i as int]@);
        }
        let beacon = match BeaconRecordFw26::from_line(response.data_lines[i].as_str()) {
            Ok(b) => b,
            Err(e) => {
                proof {
                    assert(spec_beacon_fw26(lines[i as int]) is None);
                }
                return Err(e);
            },
        };
        beacons.push(beacon);
        i = i + 1;
    }
    if beacons.len() != expected_count as usize {
        return Err(
            protocol_error_mismatch(
                "BEACONGET count mismatch",
                expected_count as u64,
                "records",
                beacons.len() as u64,
            ),
        );
    }
    Ok(beacons)
}

/// What the box reads from a `CONFSET` line is the parameter id and the value that
/// were written.
pub proof fn lemma_conf_set_line_reads_back(parameter: ConfigParameter, value: u8)
    ensures
        ({
            let line = spec_command_line(
                "CONFSET"@,
                seq![hex_padded(parameter.spec_id() as nat, 2), hex_padded(value as nat, 2)],
            );
            let f = split(line.drop_last(), ';');
            &&& f.len() == 3
            &&& f[0] == "CONFSET"@
            &&& hex_u8(f[1]) == Some(parameter.spec_id())
            &&& hex_u8(f[2]) == Some(value)
        }),
{
    reveal_strlit("CONFSET");
    let args = seq![hex_padded(parameter.spec_id() as nat, 2), hex_padded(value as nat, 2)];
    crate::utils::lemma_hex2_roundtrip(parameter.spec_id());
    crate::utils::lemma_hex2_roundtrip(value);
    lemma_hex_text(parameter.spec_id() as nat, 2);
    lemma_hex_text(value as nat, 2);
    assert(!"CONFSET"@.contains(';'));
    assert(!"CONFSET"@.contains('\n'));
    lemma_command_line_fields("CONFSET"@, args);
}

/// What the box reads from a `PASSINGGET` line is the start index that was written.
pub proof fn lemma_passing_get_line_reads_back(start_index: u32)
    ensures
        ({
            let line = spec_command_line("PASSINGGET"@, seq![hex_padded(start_index as nat, 8)]);
            let f = split(line.drop_last(), ';');
            &&& f.len() == 2
            &&& f[0] == "PASSINGGET"@
            &&& hex_u32(f[1]) == Some(start_index)
        }),
{
    reveal_strlit("PASSINGGET");
    crate::utils::lemma_hex8_roundtrip(start_index);
    lemma_hex_text(start_index as nat, 8);
    assert(!"PASSINGGET"@.contains(';'));
    assert(!"PASSINGGET"@.contains('\n'));
    lemma_command_line_fields("PASSINGGET"@, seq![hex_padded(start_index as nat, 8)]);
}

/// Hexadecimal text holds neither a separator nor a newline.
proof fn lemma_hex_text(v: nat, width: nat)
    ensures
        !hex_padded(v, width).contains(';'),
        !hex_padded(v, width).contains('\n'),
{
    crate::utils::lemma_hex_padded_parses(v, width, v);
    let s = hex_padded(v, width);
    if s.contains('\n') {
        let k = choose|k: int| 0 <= k < s.len() && s[k] == '\n';
        assert(crate::utils::is_hex_digit(s[k]));
    }
}

} // verus!
