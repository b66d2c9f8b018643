//! Encoding of commands into outbound 32-byte report buffers.
//!
//! Every report is 32 bytes: the 0x02 report-id marker, an opcode byte,
//! command-specific fields at fixed offsets, and zero padding. Overlay
//! text longer than one report decomposes into an ordered sequence of
//! chunk reports that the transport must send in order.

use vstd::prelude::*;
use crate::text::lemma_text_payload_len;
use crate::text::length_code;
use crate::text::make_text_payload;
use crate::text::text_payload;
use crate::text::utf16_unit_count;
use crate::text::utf16_units;
use crate::text::zeros;

verus! {

/// Size in bytes of every outbound report handed to the transport.
pub const OUTBOUND_REPORT_LEN: usize = 32;

/// A command prefix extended with zero bytes to the full 32-byte report.
pub open spec fn zero_padded_report(prefix: Seq<u8>) -> Seq<u8>
    recommends
        prefix.len() <= 32,
{
    prefix + zeros((32 - prefix.len()) as nat)
}

/// Copies `arr` into the front of a larger all-zero buffer.
pub fn pad_zeroes<const A: usize, const B: usize>(arr: [u8; A]) -> (r: [u8; B])
    requires
        A <= B,
    ensures
        r@ == arr@ + zeros((B - A) as nat),
{
    let mut b: [u8; B] = [0u8; B];
    let mut i: usize = 0;
    while i < A
        invariant
            i <= A <= B,
            forall|j: int| 0 <= j < i ==> b@[j] == arr@[j],
            forall|j: int| i <= j < B ==> b@[j] == 0u8,
        decreases A - i,
    {
        b[i] = arr[i];
        i = i + 1;
    }
    proof {
        assert(b@ =~= arr@ + zeros((B - A) as nat));
    }
    b
}

/// The first 32 bytes of a slice, as an owned report buffer.
pub fn to_array(a: &[u8]) -> (r: [u8; 32])
    requires
        a@.len() >= 32,
    ensures
        r@ == a@.take(32),
{
    let mut b: [u8; 32] = [0u8; 32];
    let mut i: usize = 0;
    while i < 32
        invariant
            i <= 32,
            a@.len() >= 32,
            forall|j: int| 0 <= j < i ==> b@[j] == a@[j],
        decreases 32 - i,
    {
        b[i] = a[i];
        i = i + 1;
    }
    proof {
        assert(b@ =~= a@.take(32));
    }
    b
}

/// Why an operation could not be encoded.
#[derive(Clone, Copy, Debug, PartialEq, Eq, Structural)]
pub enum EncodeError {
    /// Overlay text longer than the 32-character protocol limit.
    TextTooLong,
    /// A numeric field outside the range its wire field can carry.
    InvalidField,
}

/// Screen orientation, encoded on the wire as 1 through 4.
#[derive(Clone, Copy, Debug, PartialEq, Eq, Structural)]
pub enum ScreenOrientation {
    Rotate0,
    Rotate90,
    Rotate180,
    Rotate270,
}

impl ScreenOrientation {
    /// Wire code of this orientation.
    pub open spec fn spec_code(self) -> u8 {
        match self {
            ScreenOrientation::Rotate0 => 1,
            ScreenOrientation::Rotate90 => 2,
            ScreenOrientation::Rotate180 => 3,
            ScreenOrientation::Rotate270 => 4,
        }
    }

    pub fn code(self) -> (r: u8)
        ensures
            r == self.spec_code(),
    {
        match self {
            ScreenOrientation::Rotate0 => 1,
            ScreenOrientation::Rotate90 => 2,
            ScreenOrientation::Rotate180 => 3,
            ScreenOrientation::Rotate270 => 4,
        }
    }
}

/// Screen brightness, encoded on the wire as 0 (off) through 3 (full).
#[derive(Clone, Copy, Debug, PartialEq, Eq, Structural)]
pub enum ScreenBrightness {
    Off,
    Low,
    Medium,
    Full,
}

impl ScreenBrightness {
    /// Wire code of this brightness level.
    pub open spec fn spec_code(self) -> u8 {
        match self {
            ScreenBrightness::Off => 0,
            ScreenBrightness::Low => 1,
            ScreenBrightness::Medium => 2,
            ScreenBrightness::Full => 3,
        }
    }

    pub fn code(self) -> (r: u8)
        ensures
            r == self.spec_code(),
    {
        match self {
            ScreenBrightness::Off => 0,
            ScreenBrightness::Low => 1,
            ScreenBrightness::Medium => 2,
            ScreenBrightness::Full => 3,
        }
    }
}

/// Wheel rotation speed; the wire code is numerically inverted, 1 being
/// the fastest and 5 the slowest.
#[derive(Clone, Copy, Debug, PartialEq, Eq, Structural)]
pub enum WheelSpeed {
    Fastest,
    Faster,
    Normal,
    Slower,
    Slowest,
}

impl WheelSpeed {
    /// Wire code of this speed.
    pub open spec fn spec_code(self) -> u8 {
        match self {
            WheelSpeed::Fastest => 1,
            WheelSpeed::Faster => 2,
            WheelSpeed::Normal => 3,
            WheelSpeed::Slower => 4,
            WheelSpeed::Slowest => 5,
        }
    }

    pub fn code(self) -> (r: u8)
        ensures
            r == self.spec_code(),
    {
        match self {
            WheelSpeed::Fastest => 1,
            WheelSpeed::Faster => 2,
            WheelSpeed::Normal => 3,
            WheelSpeed::Slower => 4,
            WheelSpeed::Slowest => 5,
        }
    }
}

/// The report that subscribes to key and wheel events.
pub open spec fn spec_subscribe_to_key_events() -> Seq<u8> {
    zero_padded_report(seq![0x02u8, 0xb0u8, 0x04u8])
}

pub fn mkcmd_subscribe_to_key_events() -> (r: [u8; 32])
    ensures
        r@ == spec_subscribe_to_key_events(),
{
    let r = pad_zeroes([0x02u8, 0xb0u8, 0x04u8]);
    proof {
        assert(r@ =~= spec_subscribe_to_key_events());
    }
    r
}

/// The report that subscribes to battery reports.
pub open spec fn spec_subscribe_to_battery() -> Seq<u8> {
    zero_padded_report(seq![0x02u8, 0xb4u8, 0x10u8])
}

pub fn mkcmd_subscribe_to_battery() -> (r: [u8; 32])
    ensures
        r@ == spec_subscribe_to_battery(),
{
    let r = pad_zeroes([0x02u8, 0xb4u8, 0x10u8]);
    proof {
        assert(r@ =~= spec_subscribe_to_battery());
    }
    r
}

/// The report that rotates the screen.
pub open spec fn spec_rotate_screen(rot: ScreenOrientation) -> Seq<u8> {
    zero_padded_report(seq![0x02u8, 0xb1u8, rot.spec_code()])
}

pub fn mkcmd_rotate_screen(rot: ScreenOrientation) -> (r: [u8; 32])
    ensures
        r@ == spec_rotate_screen(rot),
{
    let r = pad_zeroes([0x02u8, 0xb1u8, rot.code()]);
    proof {
        assert(r@ =~= spec_rotate_screen(rot));
    }
    r
}

/// The report that sets the screen brightness.
pub open spec fn spec_set_screen_brightness(level: ScreenBrightness) -> Seq<u8> {
    zero_padded_report(seq![0x02u8, 0xb1u8, 0x0au8, 0x01u8, level.spec_code()])
}

pub fn mkcmd_set_screen_brightness(level: ScreenBrightness) -> (r: [u8; 32])
    ensures
        r@ == spec_set_screen_brightness(level),
{
    let r = pad_zeroes([0x02u8, 0xb1u8, 0x0au8, 0x01u8, level.code()]);
    proof {
        assert(r@ =~= spec_set_screen_brightness(level));
    }
    r
}

/// The report that sets the wheel rotation speed.
pub open spec fn spec_set_wheel_speed(speed: WheelSpeed) -> Seq<u8> {
    zero_padded_report(seq![0x02u8, 0xb4u8, 0x04u8, 0x01u8, 0x01u8, speed.spec_code()])
}

pub fn mkcmd_set_wheel_speed(speed: WheelSpeed) -> (r: [u8; 32])
    ensures
        r@ == spec_set_wheel_speed(speed),
{
    let r = pad_zeroes([0x02u8, 0xb4u8, 0x04u8, 0x01u8, 0x01u8, speed.code()]);
    proof {
        assert(r@ =~= spec_set_wheel_speed(speed));
    }
    r
}

/// The report that sets the sleep timeout, in minutes. The field layout is
/// provisional: it has not been confirmed against hardware.
pub open spec fn spec_set_sleep_timeout(minutes: u8) -> Seq<u8> {
    zero_padded_report(seq![0x02u8, 0xb4u8, 0x08u8, 0x01u8, minutes])
}

pub fn mkcmd_set_sleep_timeout(minutes: u8) -> (r: [u8; 32])
    ensures
        r@ == spec_set_sleep_timeout(minutes),
{
    let r = pad_zeroes([0x02u8, 0xb4u8, 0x08u8, 0x01u8, minutes]);
    proof {
        assert(r@ =~= spec_set_sleep_timeout(minutes));
    }
    r
}

/// The report that sets the wheel ring color to (r, g, b).
pub open spec fn spec_set_wheel_color(red: u8, green: u8, blue: u8) -> Seq<u8> {
    zero_padded_report(seq![0x02u8, 0xb4u8, 0x01u8, 0x01u8, 0x00u8, 0x00u8, red, green, blue])
}

pub fn mkcmd_set_wheel_color(r: u8, g: u8, b: u8) -> (res: [u8; 32])
    ensures
        res@ == spec_set_wheel_color(r, g, b),
{
    let res = pad_zeroes([0x02u8, 0xb4u8, 0x01u8, 0x01u8, 0x00u8, 0x00u8, r, g, b]);
    proof {
        assert(res@ =~= spec_set_wheel_color(r, g, b));
    }
    res
}

/// Law: the wheel-color report carries r, g, b at offsets 6, 7 and 8, and
/// every byte outside the marker, opcode and color fields is zero.
pub proof fn lemma_wheel_color_layout(red: u8, green: u8, blue: u8)
    ensures
        spec_set_wheel_color(red, green, blue).len() == 32,
        spec_set_wheel_color(red, green, blue)[0] == 0x02,
        spec_set_wheel_color(red, green, blue)[1] == 0xb4,
        spec_set_wheel_color(red, green, blue)[2] == 0x01,
        spec_set_wheel_color(red, green, blue)[3] == 0x01,
        spec_set_wheel_color(red, green, blue)[4] == 0x00,
        spec_set_wheel_color(red, green, blue)[5] == 0x00,
        spec_set_wheel_color(red, green, blue)[6] == red,
        spec_set_wheel_color(red, green, blue)[7] == green,
        spec_set_wheel_color(red, green, blue)[8] == blue,
        forall|i: int| 9 <= i < 32 ==> spec_set_wheel_color(red, green, blue)[i] == 0x00,
{
}

/// The report that labels key `key` with `text`. Byte 3 carries the
/// one-based key index, byte 5 the length code (fallback 16), and bytes
/// 16..32 the UTF-16LE text field.
pub open spec fn spec_set_key_text(key: u8, text: Seq<char>) -> Seq<u8> {
    seq![0x02u8, 0xb1u8, 0x00u8, (key + 1) as u8, 0x00u8,
        length_code(utf16_units(text).len(), 16)] + zeros(10) + text_payload(text)
}

/// Builds the key-label report. Text longer than 8 code units is silently
/// truncated to the first 8 units by the text field itself.
pub fn mkcmd_set_key_text(key: u8, text: &str) -> (r: [u8; 32])
    requires
        key < 255,
    ensures
        r@ == spec_set_key_text(key, text@),
{
    let units = utf16_unit_count(text);
    let code: u8 = if units <= 8 {
        (units * 2) as u8
    } else {
        16
    };
    let payload = make_text_payload(text);
    let mut b: [u8; 32] = [0u8; 32];
    b[0] = 0x02;
    b[1] = 0xb1;
    b[3] = key + 1;
    b[5] = code;
    let mut i: usize = 0;
    while i < 16
        invariant
            i <= 16,
            payload@ == text_payload(text@),
            payload@.len() == 16,
            b@.len() == 32,
            b@[0] == 0x02u8,
            b@[1] == 0xb1u8,
            b@[2] == 0x00u8,
            b@[3] == (key + 1) as u8,
            b@[4] == 0x00u8,
            b@[5] == length_code(utf16_units(text@).len(), 16),
            forall|j: int| 6 <= j < 16 ==> b@[j] == 0x00u8,
            forall|j: int| 0 <= j < i ==> b@[16 + j] == payload@[j],
        decreases 16 - i,
    {
        b[16 + i] = payload[i];
        i = i + 1;
    }
    proof {
        assert(b@ =~= spec_set_key_text(key, text@));
    }
    b
}

/// One overlay chunk report: opcode 0x06 for a continuation chunk, 0x05
/// for the first; duration at byte 3; length code (fallback 8) at byte 5;
/// the has-more flag at byte 6; the chunk's text field at bytes 16..32.
pub open spec fn spec_overlay_chunk(
    is_cont: bool,
    duration: u8,
    text: Seq<char>,
    has_more: bool,
) -> Seq<u8> {
    seq![0x02u8, 0xb1u8, if is_cont { 0x06u8 } else { 0x05u8 }, duration, 0x00u8,
        length_code(utf16_units(text).len(), 8), if has_more { 0x01u8 } else { 0x00u8 }]
        + zeros(9) + text_payload(text)
}

/// Builds one overlay chunk report.
pub fn mk_overlay_chunk(is_cont: bool, duration: u8, text: &str, has_more: bool) -> (r: [u8; 32])
    ensures
        r@ == spec_overlay_chunk(is_cont, duration, text@, has_more),
{
    let units = utf16_unit_count(text);
    let code: u8 = if units <= 8 {
        (units * 2) as u8
    } else {
        8
    };
    let payload = make_text_payload(text);
    let mut b: [u8; 32] = [0u8; 32];
    b[0] = 0x02;
    b[1] = 0xb1;
    b[2] = if is_cont {
        0x06
    } else {
        0x05
    };
    b[3] = duration;
    b[5] = code;
    b[6] = if has_more {
        0x01
    } else {
        0x00
    };
    let mut i: usize = 0;
    while i < 16
        invariant
            i <= 16,
            payload@ == text_payload(text@),
            payload@.len() == 16,
            b@.len() == 32,
            b@[0] == 0x02u8,
            b@[1] == 0xb1u8,
            b@[2] == (if is_cont { 0x06u8 } else { 0x05u8 }),
            b@[3] == duration,
            b@[4] == 0x00u8,
            b@[5] == length_code(utf16_units(text@).len(), 8),
            b@[6] == (if has_more { 0x01u8 } else { 0x00u8 }),
            forall|j: int| 7 <= j < 16 ==> b@[j] == 0x00u8,
            forall|j: int| 0 <= j < i ==> b@[16 + j] == payload@[j],
        decreases 16 - i,
    {
        b[16 + i] = payload[i];
        i = i + 1;
    }
    proof {
        assert(b@ =~= spec_overlay_chunk(is_cont, duration, text@, has_more));
    }
    b
}

/// Number of chunk reports an overlay text of `n` characters becomes.
pub open spec fn overlay_chunk_count(n: nat) -> nat {
    (n + 7) / 8
}

/// The characters of the `i`-th overlay chunk: an 8-character group,
/// shorter only in the final group.
pub open spec fn overlay_chunk_text(s: Seq<char>, i: int) -> Seq<char> {
    s.subrange(8 * i, if 8 * i + 8 <= s.len() { 8 * i + 8 } else { s.len() as int })
}

/// The ordered chunk reports of an overlay text: chunk i is a continuation
/// exactly when i > 0, and announces more chunks unless it is the last.
pub open spec fn overlay_reports(duration: u8, text: Seq<char>) -> Seq<Seq<u8>> {
    Seq::new(
        overlay_chunk_count(text.len()),
        |i: int|
            spec_overlay_chunk(
                i != 0,
                duration,
                overlay_chunk_text(text, i),
                i + 1 < overlay_chunk_count(text.len()),
            ),
    )
}

/// Encodes an overlay message of up to 32 characters as its ordered chunk
/// reports; longer text is rejected with `TextTooLong`, and text of
/// exactly 32 characters still succeeds. The chunks must reach the device
/// in order: it reassembles them from the continuation and has-more flags
/// alone.
pub fn mkcmd_show_overlay_text(duration: u8, text: &str) -> (r: Result<
    Vec<[u8; 32]>,
    EncodeError,
>)
    ensures
        match r {
            Ok(v) => text@.len() <= 32 && v@.len() == overlay_chunk_count(text@.len())
                && forall|i: int|
                    0 <= i < v@.len() ==> (#[trigger] v@[i])@ == overlay_reports(
                        duration,
                        text@,
                    )[i],
            Err(e) => text@.len() > 32 && e == EncodeError::TextTooLong,
        },
{
    let n = text.unicode_len();
    if n > 32 {
        return Err(EncodeError::TextTooLong);
    }
    let total = (n + 7) / 8;
    let mut res: Vec<[u8; 32]> = Vec::new();
    let mut i: usize = 0;
    while i < total
        invariant
            n == text@.len(),
            n <= 32,
            total == overlay_chunk_count(n as nat),
            i <= total,
            res@.len() == i,
            forall|j: int|
                0 <= j < i ==> (#[trigger] res@[j])@ == overlay_reports(duration, text@)[j],
        decreases total - i,
    {
        let start = 8 * i;
        let end = if start + 8 <= n {
            start + 8
        } else {
            n
        };
        let chunk = text.substring_char(start, end);
        proof {
            assert(chunk@ == overlay_chunk_text(text@, i as int));
        }
        let buf = mk_overlay_chunk(i != 0, duration, chunk, i + 1 < total);
        res.push(buf);
        i = i + 1;
    }
    Ok(res)
}

/// Law: an overlay text within the 32-character limit becomes one chunk
/// report per 8-character group, rounded up; only the first chunk carries
/// the non-continuation opcode 0x05, every later one 0x06; every chunk
/// carries the duration at byte 3; and exactly the last chunk clears the
/// has-more flag at byte 6.
pub proof fn lemma_overlay_chunk_structure(duration: u8, text: Seq<char>)
    requires
        text.len() <= 32,
    ensures
        overlay_reports(duration, text).len() == (text.len() + 7) / 8,
        forall|i: int|
            0 <= i < overlay_reports(duration, text).len()
                ==> (#[trigger] overlay_reports(duration, text)[i])[2] == (if i == 0 {
                0x05u8
            } else {
                0x06u8
            }),
        forall|i: int|
            0 <= i < overlay_reports(duration, text).len()
                ==> (#[trigger] overlay_reports(duration, text)[i])[3] == duration,
        forall|i: int|
            0 <= i < overlay_reports(duration, text).len()
                ==> (#[trigger] overlay_reports(duration, text)[i])[6] == (if i + 1
                == overlay_reports(duration, text).len() {
                0x00u8
            } else {
                0x01u8
            }),
{
}

/// The concatenation, in order, of the first `k` overlay chunk texts.
pub open spec fn overlay_text_prefix(s: Seq<char>, k: int) -> Seq<char>
    decreases k,
{
    if k <= 0 {
        Seq::empty()
    } else {
        overlay_text_prefix(s, k - 1) + overlay_chunk_text(s, k - 1)
    }
}

proof fn lemma_overlay_prefix_is_take(s: Seq<char>, k: int)
    requires
        0 <= k <= overlay_chunk_count(s.len()),
    ensures
        overlay_text_prefix(s, k) == s.take(
            if 8 * k <= s.len() {
                8 * k
            } else {
                s.len() as int
            },
        ),
    decreases k,
{
    if k == 0 {
        assert(overlay_text_prefix(s, 0) =~= s.take(0));
    } else {
        lemma_overlay_prefix_is_take(s, k - 1);
        assert(8 * (k - 1) <= s.len());
        assert(overlay_text_prefix(s, k) =~= s.take(
            if 8 * k <= s.len() {
                8 * k
            } else {
                s.len() as int
            },
        ));
    }
}

/// Law: the chunk texts of an overlay message, concatenated in order,
/// are exactly the original text: chunking drops and reorders nothing.
pub proof fn lemma_overlay_chunks_cover_text(s: Seq<char>)
    ensures
        overlay_text_prefix(s, overlay_chunk_count(s.len()) as int) == s,
{
    let total = overlay_chunk_count(s.len()) as int;
    lemma_overlay_prefix_is_take(s, total);
    assert(8 * total >= s.len());
    assert(s.take(s.len() as int) =~= s);
}

/// One device operation, as handed to `encode`.
#[derive(Clone, Debug)]
pub enum Command {
    SubscribeKeyEvents,
    SubscribeBattery,
    RotateScreen(ScreenOrientation),
    SetBrightness(ScreenBrightness),
    SetWheelSpeed(WheelSpeed),
    SetSleepTimeout(u8),
    SetWheelColor(u8, u8, u8),
    SetKeyText(u8, String),
    ShowOverlayText(u8, String),
}

/// The report sequence a command encodes to, or the error that rejects
/// it: overlay text over 32 characters, and a key index whose one-based
/// wire form does not fit a byte.
pub open spec fn spec_encode(cmd: Command) -> Result<Seq<Seq<u8>>, EncodeError> {
    match cmd {
        Command::SubscribeKeyEvents => Ok(seq![spec_subscribe_to_key_events()]),
        Command::SubscribeBattery => Ok(seq![spec_subscribe_to_battery()]),
        Command::RotateScreen(rot) => Ok(seq![spec_rotate_screen(rot)]),
        Command::SetBrightness(level) => Ok(seq![spec_set_screen_brightness(level)]),
        Command::SetWheelSpeed(speed) => Ok(seq![spec_set_wheel_speed(speed)]),
        Command::SetSleepTimeout(minutes) => Ok(seq![spec_set_sleep_timeout(minutes)]),
        Command::SetWheelColor(red, green, blue) => Ok(
            seq![spec_set_wheel_color(red, green, blue)],
        ),
        Command::SetKeyText(key, text) => if key == 255 {
            Err(EncodeError::InvalidField)
        } else {
            Ok(seq![spec_set_key_text(key, text@)])
        },
        Command::ShowOverlayText(duration, text) => if text@.len() > 32 {
            Err(EncodeError::TextTooLong)
        } else {
            Ok(overlay_reports(duration, text@))
        },
    }
}

/// Encodes one command into the ordered report sequence the transport
/// must send, or the error that rejects it.
pub fn encode(cmd: &Command) -> (r: Result<Vec<[u8; 32]>, EncodeError>)
    ensures
        match r {
            Ok(v) => spec_encode(*cmd) matches Ok(bufs) && v@.len() == bufs.len() && forall|
                i: int,
            |
                0 <= i < v@.len() ==> (#[trigger] v@[i])@ == bufs[i],
            Err(e) => spec_encode(*cmd) matches Err(e2) && e == e2,
        },
{
    match cmd {
        Command::SubscribeKeyEvents => Ok(single_report(mkcmd_subscribe_to_key_events())),
        Command::SubscribeBattery => Ok(single_report(mkcmd_subscribe_to_battery())),
        Command::RotateScreen(rot) => Ok(single_report(mkcmd_rotate_screen(*rot))),
        Command::SetBrightness(level) => Ok(single_report(mkcmd_set_screen_brightness(*level))),
        Command::SetWheelSpeed(speed) => Ok(single_report(mkcmd_set_wheel_speed(*speed))),
        Command::SetSleepTimeout(minutes) => Ok(single_report(mkcmd_set_sleep_timeout(*minutes))),
        Command::SetWheelColor(red, green, blue) => Ok(
            single_report(mkcmd_set_wheel_color(*red, *green, *blue)),
        ),
        Command::SetKeyText(key, text) => {
            if *key == 255 {
                Err(EncodeError::InvalidField)
            } else {
                Ok(single_report(mkcmd_set_key_text(*key, text.as_str())))
            }
        },
        Command::ShowOverlayText(duration, text) => mkcmd_show_overlay_text(
            *duration,
            text.as_str(),
        ),
    }
}

/// A one-report sequence.
fn single_report(buf: [u8; 32]) -> (v: Vec<[u8; 32]>)
    ensures
        v@ =~= seq![buf],
{
    let mut v: Vec<[u8; 32]> = Vec::new();
    v.push(buf);
    v
}

/// Law: every report of every successfully encoded command is exactly 32
/// bytes long and starts with the 0x02 report-id marker.
pub proof fn lemma_encode_reports_well_formed(cmd: Command)
    ensures
        spec_encode(cmd) matches Ok(bufs) ==> forall|i: int|
            0 <= i < bufs.len() ==> (#[trigger] bufs[i]).len() == 32 && bufs[i][0] == 0x02,
{
    match cmd {
        Command::SetKeyText(key, text) => {
            lemma_text_payload_len(text@);
        },
        Command::ShowOverlayText(duration, text) => {
            if text@.len() <= 32 {
                assert forall|i: int| 0 <= i < overlay_reports(duration, text@).len() implies (
                #[trigger] overlay_reports(duration, text@)[i]).len() == 32 && overlay_reports(
                    duration,
                    text@,
                )[i][0] == 0x02 by {
                    lemma_text_payload_len(overlay_chunk_text(text@, i));
                }
            }
        },
        _ => {},
    }
}

} // verus!
