//! Kitty graphics protocol: parsing of APC graphics commands, chunked transfers,
//! payload decoding and the list of image placements.
//!
//! Escape: `ESC _ G <control-data> ; <payload> ESC \`, where the control data is a
//! comma separated list of `key=value` pairs and the payload base64 data.
//! Uploading pixels to the GPU and reading image files are the caller's part: the
//! manager queues an [`ImageJob`] for each image that is complete.
use vstd::prelude::*;
use vstd::string::StringSliceAdditionalSpecFns;
use crate::text::{
    first_index_of, split_on, trim_ws, parse_unsigned, parse_i32, find_byte, copy_range, split_bytes,
    trim_bounds, parse_unsigned_exec, parse_i32_exec, decimal, lemma_decimal_len, lemma_decimal_value,
    lemma_parse_decimal, lemma_trim_visible, is_digit,
};

verus! {

#[derive(Debug, Clone, Copy, PartialEq, Eq, Structural)]
pub enum GraphicsFormat {
    Rgba,
    Rgb,
    Png,
}

#[derive(Debug, Clone, Copy, PartialEq, Eq, Structural)]
pub enum GraphicsAction {
    Transmit,
    TransmitDisplay,
    Display,
    Delete,
    Query,
}

#[derive(Debug, Clone, Copy, PartialEq, Eq, Structural)]
pub enum TransmissionType {
    Direct,
    File,
    TempFile,
    SharedMem,
}

impl Default for GraphicsFormat {
    fn default() -> (r: Self)
        ensures
            r == GraphicsFormat::Png,
    {
        GraphicsFormat::Png
    }
}

impl Default for TransmissionType {
    fn default() -> (r: Self)
        ensures
            r == TransmissionType::Direct,
    {
        TransmissionType::Direct
    }
}

/// Where an uploaded image is drawn on the terminal grid.
#[derive(Debug, Clone, Copy)]
pub struct ImagePlacement {
    pub image_id: u32,
    pub row: usize,
    pub col: usize,
    pub rows: u32,
    pub cols: u32,
    /// GPU texture holding the pixels.
    pub texture_id: u32,
    pub img_width: u32,
    pub img_height: u32,
    pub z_index: i32,
}

/// An image being received (possibly in chunks) or ready to be decoded.
#[derive(Debug)]
pub struct PendingImage {
    pub id: u32,
    pub action: Option<GraphicsAction>,
    pub format: GraphicsFormat,
    pub trans: TransmissionType,
    pub width: u32,
    pub height: u32,
    pub payload: Vec<u8>,
    pub row: usize,
    pub col: usize,
    pub rows: u32,
    pub cols: u32,
    pub quiet: u8,
    pub data_width: u32,
    pub data_height: u32,
    pub z_index: i32,
}

/// Abstract value of a [`PendingImage`].
pub struct PendingModel {
    pub id: u32,
    pub action: Option<GraphicsAction>,
    pub format: GraphicsFormat,
    pub trans: TransmissionType,
    pub width: u32,
    pub height: u32,
    pub payload: Seq<u8>,
    pub row: usize,
    pub col: usize,
    pub rows: u32,
    pub cols: u32,
    pub quiet: u8,
    pub data_width: u32,
    pub data_height: u32,
    pub z_index: i32,
}

impl View for PendingImage {
    type V = PendingModel;

    open spec fn view(&self) -> PendingModel {
        PendingModel {
            id: self.id,
            action: self.action,
            format: self.format,
            trans: self.trans,
            width: self.width,
            height: self.height,
            payload: self.payload@,
            row: self.row,
            col: self.col,
            rows: self.rows,
            cols: self.cols,
            quiet: self.quiet,
            data_width: self.data_width,
            data_height: self.data_height,
            z_index: self.z_index,
        }
    }
}

/// Work that a complete image needs from the caller.
#[derive(Debug)]
pub enum ImageJob {
    /// Decode `0.payload` (see [`decode_to_rgba`]), upload it and place it.
    Decode(PendingImage),
    /// Read the file at `path` (after `~` expansion, see [`expand_home`]); its bytes
    /// become the PNG-or-other encoded payload of `image`, which is then decoded.
    LoadFile { path: Vec<u8>, image: PendingImage },
}

pub enum JobModel {
    Decode(PendingModel),
    LoadFile { path: Seq<u8>, image: PendingModel },
}

impl View for ImageJob {
    type V = JobModel;

    open spec fn view(&self) -> JobModel {
        match self {
            ImageJob::Decode(p) => JobModel::Decode(p@),
            ImageJob::LoadFile { path, image } => JobModel::LoadFile { path: path@, image: image@ },
        }
    }
}

/// The settings an APC control string selects.
#[derive(Debug, Clone, Copy)]
pub struct ApcControl {
    pub action: GraphicsAction,
    pub format: GraphicsFormat,
    pub trans: TransmissionType,
    pub img_id: u32,
    pub data_width: u32,
    pub data_height: u32,
    pub img_width: u32,
    pub img_height: u32,
    pub cols: u32,
    pub rows: u32,
    pub more: bool,
    pub quiet: u8,
    pub z_index: i32,
}

pub open spec fn default_control() -> ApcControl {
    ApcControl {
        action: GraphicsAction::Transmit,
        format: GraphicsFormat::Png,
        trans: TransmissionType::Direct,
        img_id: 0,
        data_width: 0,
        data_height: 0,
        img_width: 0,
        img_height: 0,
        cols: 0,
        rows: 0,
        more: false,
        quiet: 0,
        z_index: 0,
    }
}

/// `parse::<u32>()` of `v`, 0 when it fails.
pub open spec fn u32_or_zero(v: Seq<u8>) -> u32 {
    match parse_unsigned(v, u32::MAX as nat) {
        Some(n) => n as u32,
        None => 0,
    }
}

/// Key and value of one `key=value` item: split at the first `=`, both trimmed.
pub open spec fn kv_parts(kv: Seq<u8>) -> (Seq<u8>, Seq<u8>) {
    match first_index_of(kv, 61) {
        Some(i) => (trim_ws(kv.take(i)), trim_ws(kv.skip(i + 1))),
        None => (trim_ws(kv), trim_ws(Seq::empty())),
    }
}

/// The control settings after one `key=value` item.
pub open spec fn apply_kv(c: ApcControl, kv: Seq<u8>) -> ApcControl {
    let k = kv_parts(kv).0;
    let v = kv_parts(kv).1;
    if k == seq![97u8] {
        ApcControl {
            action: if v == seq![116u8] {
                GraphicsAction::TransmitDisplay
            } else if v == seq![84u8] {
                GraphicsAction::Transmit
            } else if v == seq![112u8] {
                GraphicsAction::Display
            } else if v == seq![100u8] {
                GraphicsAction::Delete
            } else if v == seq![113u8] {
                GraphicsAction::Query
            } else {
                GraphicsAction::Transmit
            },
            ..c
        }
    } else if k == seq![102u8] {
        ApcControl {
            format: if v == seq![51u8, 50u8] {
                GraphicsFormat::Rgba
            } else if v == seq![50u8, 52u8] {
                GraphicsFormat::Rgb
            } else {
                GraphicsFormat::Png
            },
            ..c
        }
    } else if k == seq![116u8] {
        ApcControl {
            trans: if v == seq![100u8] {
                TransmissionType::Direct
            } else if v == seq![102u8] {
                TransmissionType::File
            } else if v == seq![116u8] {
                TransmissionType::TempFile
            } else if v == seq![115u8] {
                TransmissionType::SharedMem
            } else {
                TransmissionType::Direct
            },
            ..c
        }
    } else if k == seq![105u8] {
        ApcControl { img_id: u32_or_zero(v), ..c }
    } else if k == seq![115u8] {
        ApcControl { data_width: u32_or_zero(v), ..c }
    } else if k == seq![118u8] {
        ApcControl { data_height: u32_or_zero(v), ..c }
    } else if k == seq![119u8] {
        ApcControl { img_width: u32_or_zero(v), ..c }
    } else if k == seq![104u8] {
        ApcControl { img_height: u32_or_zero(v), ..c }
    } else if k == seq![99u8] {
        ApcControl { cols: u32_or_zero(v), ..c }
    } else if k == seq![114u8] {
        ApcControl { rows: u32_or_zero(v), ..c }
    } else if k == seq![109u8] {
        ApcControl { more: trim_ws(v) == seq![49u8], ..c }
    } else if k == seq![113u8] {
        ApcControl {
            quiet: match parse_unsigned(v, 255) {
                Some(n) => n as u8,
                None => 0,
            },
            ..c
        }
    } else if k == seq![122u8] {
        ApcControl {
            z_index: match parse_i32(v) {
                Some(n) => n as i32,
                None => 0,
            },
            ..c
        }
    } else {
        c
    }
}

/// The control settings after all items, applied in order.
pub open spec fn apply_kvs(c: ApcControl, kvs: Seq<Seq<u8>>) -> ApcControl
    decreases kvs.len(),
{
    if kvs.len() == 0 {
        c
    } else {
        apply_kv(apply_kvs(c, kvs.drop_last()), kvs.last())
    }
}

/// The settings a control string selects.
pub open spec fn parse_control(ctrl: Seq<u8>) -> ApcControl {
    apply_kvs(default_control(), split_on(ctrl, 44))
}

/// Control data and payload of an APC graphics command: split at the first `;`.
pub open spec fn apc_parts(apc: Seq<u8>) -> (Seq<u8>, Seq<u8>) {
    match first_index_of(apc, 59) {
        Some(i) => (apc.take(i), apc.skip(i + 1)),
        None => (apc, Seq::empty()),
    }
}

/// The 6-bit value of a base64 digit, 0xFF for any other byte.
pub open spec fn b64_value(b: u8) -> u8 {
    if 65 <= b <= 90 {
        (b - 65) as u8
    } else if 97 <= b <= 122 {
        (b - 71) as u8
    } else if 48 <= b <= 57 {
        (b + 4) as u8
    } else if b == 43 {
        62
    } else if b == 47 {
        63
    } else {
        0xFF
    }
}

/// The three bytes of one base64 quad (fewer when it ends with `=`).
pub open spec fn b64_quad(b0: u8, b1: u8, b2: u8, b3: u8) -> Seq<u8> {
    let c: u32 = ((b64_value(b0) as u32) << 18u32) | ((b64_value(b1) as u32) << 12u32) | ((b64_value(b2) as u32) << 6u32)
        | (b64_value(b3) as u32);
    seq![(c >> 16u32) as u8] + (if b2 != 61 { seq![(c >> 8u32) as u8] } else { Seq::empty() }) + (if b3 != 61 {
        seq![c as u8]
    } else {
        Seq::empty()
    })
}

/// Lenient base64 decoding from position `i`: whole quads only, stopping at a quad
/// that starts with `=` or whose first two digits are not base64.
pub open spec fn b64_decode_from(s: Seq<u8>, i: nat) -> Seq<u8>
    decreases s.len() - i,
{
    if i + 3 < s.len() {
        let b0 = s[i as int];
        let b1 = s[i + 1 as int];
        if b0 == 61 || b64_value(b0) == 0xFF || b64_value(b1) == 0xFF {
            Seq::empty()
        } else {
            b64_quad(b0, s[i + 1 as int], s[i + 2 as int], s[i + 3 as int]) + b64_decode_from(s, i + 4)
        }
    } else {
        Seq::empty()
    }
}

pub open spec fn b64_decode(s: Seq<u8>) -> Seq<u8> {
    b64_decode_from(s, 0)
}

/// The base64 digit (`A-Z`, `a-z`, `0-9`, `+`, `/`) of a 6-bit value.
pub open spec fn b64_digit(v: u8) -> u8 {
    if v < 26 {
        (v + 65) as u8
    } else if v < 52 {
        (v + 71) as u8
    } else if v < 62 {
        (v - 4) as u8
    } else if v == 62 {
        43
    } else {
        47
    }
}

/// Standard base64 text (RFC 4648, `=` padding) of `v`.
pub open spec fn b64_encode(v: Seq<u8>) -> Seq<u8>
    decreases v.len(),
{
    if v.len() == 0 {
        Seq::empty()
    } else if v.len() == 1 {
        seq![b64_digit(v[0] >> 2u8), b64_digit((v[0] & 3u8) << 4u8), 61u8, 61u8]
    } else if v.len() == 2 {
        seq![
            b64_digit(v[0] >> 2u8),
            b64_digit(((v[0] & 3u8) << 4u8) | (v[1] >> 4u8)),
            b64_digit((v[1] & 15u8) << 2u8),
            61u8,
        ]
    } else {
        seq![
            b64_digit(v[0] >> 2u8),
            b64_digit(((v[0] & 3u8) << 4u8) | (v[1] >> 4u8)),
            b64_digit(((v[1] & 15u8) << 2u8) | (v[2] >> 6u8)),
            b64_digit(v[2] & 63u8),
        ] + b64_encode(v.skip(3))
    }
}

proof fn lemma_digit_value(v: u8)
    requires
        v < 64,
    ensures
        b64_value(b64_digit(v)) == v,
        b64_digit(v) != 61,
{
}

proof fn lemma_sextets(a: u8, b: u8, c: u8) by (bit_vector)
    ensures
        a >> 2u8 < 64u8,
        ((a & 3u8) << 4u8) | (b >> 4u8) < 64u8,
        ((b & 15u8) << 2u8) | (c >> 6u8) < 64u8,
        (b & 15u8) << 2u8 < 64u8,
        (a & 3u8) << 4u8 < 64u8,
        c & 63u8 < 64u8,
{
}

proof fn lemma_quad_bits(a: u8, b: u8, c: u8) by (bit_vector)
    ensures
        ({
            let d0 = (a >> 2u8) as u32;
            let d1 = (((a & 3u8) << 4u8) | (b >> 4u8)) as u32;
            let d2 = (((b & 15u8) << 2u8) | (c >> 6u8)) as u32;
            let d3 = (c & 63u8) as u32;
            let w = (d0 << 18u32) | (d1 << 12u32) | (d2 << 6u32) | d3;
            (w >> 16u32) as u8 == a && (w >> 8u32) as u8 == b && w as u8 == c
        }),
        ({
            let d0 = (a >> 2u8) as u32;
            let d1 = (((a & 3u8) << 4u8) | (b >> 4u8)) as u32;
            let d2 = ((b & 15u8) << 2u8) as u32;
            let w = (d0 << 18u32) | (d1 << 12u32) | (d2 << 6u32) | 0xFFu32;
            (w >> 16u32) as u8 == a && (w >> 8u32) as u8 == b
        }),
        ({
            let d0 = (a >> 2u8) as u32;
            let d1 = ((a & 3u8) << 4u8) as u32;
            let w = (d0 << 18u32) | (d1 << 12u32) | (0xFFu32 << 6u32) | 0xFFu32;
            (w >> 16u32) as u8 == a
        }),
{
}

proof fn lemma_decode_shift(p: Seq<u8>, s: Seq<u8>, i: nat)
    requires
        i <= s.len(),
    ensures
        b64_decode_from(p + s, p.len() + i) == b64_decode_from(s, i),
    decreases s.len() - i,
{
    let t = p + s;
    if i + 3 < s.len() {
        let j = p.len() + i;
        assert(t[j as int] == s[i as int]);
        assert(t[j + 1 as int] == s[i + 1 as int]);
        assert(t[j + 2 as int] == s[i + 2 as int]);
        assert(t[j + 3 as int] == s[i + 3 as int]);
        lemma_decode_shift(p, s, i + 4);
        assert(p.len() + i + 4 == p.len() + (i + 4));
    }
}

/// Law: decoding the standard base64 text of any bytes gives the bytes back.
pub proof fn law_base64_round_trip(v: Seq<u8>)
    ensures
        b64_decode(b64_encode(v)) == v,
    decreases v.len(),
{
    let e = b64_encode(v);
    if v.len() == 0 {
    } else {
        let a = v[0];
        let b = if v.len() > 1 { v[1] } else { 0u8 };
        let c = if v.len() > 2 { v[2] } else { 0u8 };
        lemma_sextets(a, b, c);
        lemma_quad_bits(a, b, c);
        lemma_digit_value(a >> 2u8);
        lemma_digit_value(((a & 3u8) << 4u8) | (b >> 4u8));
        lemma_digit_value((a & 3u8) << 4u8);
        lemma_digit_value(((b & 15u8) << 2u8) | (c >> 6u8));
        lemma_digit_value((b & 15u8) << 2u8);
        lemma_digit_value(c & 63u8);
        if v.len() == 1 {
            assert(b64_decode_from(e, 4) == Seq::<u8>::empty());
            assert(b64_quad(e[0], e[1], e[2], e[3]) =~= v);
        } else if v.len() == 2 {
            assert(b64_decode_from(e, 4) == Seq::<u8>::empty());
            assert(b64_quad(e[0], e[1], e[2], e[3]) =~= v);
        } else {
            let q = e.take(4);
            let rest = b64_encode(v.skip(3));
            assert(e =~= q + rest);
            law_base64_round_trip(v.skip(3));
            lemma_decode_shift(q, rest, 0);
            assert(b64_quad(e[0], e[1], e[2], e[3]) =~= v.take(3));
            assert(v =~= v.take(3) + v.skip(3));
        }
    }
}

fn b64_value_exec(b: u8) -> (v: u8)
    ensures
        v == b64_value(b),
{
    if 65 <= b && b <= 90 {
        b - 65
    } else if 97 <= b && b <= 122 {
        b - 71
    } else if 48 <= b && b <= 57 {
        b + 4
    } else if b == 43 {
        62
    } else if b == 47 {
        63
    } else {
        0xFF
    }
}

/// Decodes base64 text leniently (see [`b64_decode_from`]).
pub fn decode_base64(s: &[u8]) -> (out: Vec<u8>)
    ensures
        out@ == b64_decode(s@),
{
    let n = s.len();
    let mut out: Vec<u8> = Vec::new();
    let mut i: usize = 0;
    let mut done = false;
    while !done && i < n && n - i > 3
        invariant
            n == s@.len(),
            i <= n,
            out@ + (if done { Seq::<u8>::empty() } else { b64_decode_from(s@, i as nat) }) == b64_decode(s@),
        decreases (n - i) * 2 + (if done { 0int } else { 1int }),
    {
        let b0 = s[i];
        let b1 = s[i + 1];
        let b2 = s[i + 2];
        let b3 = s[i + 3];
        let v0 = b64_value_exec(b0);
        let v1 = b64_value_exec(b1);
        if b0 == 61 || v0 == 0xFF || v1 == 0xFF {
            done = true;
            assert(out@ + Seq::<u8>::empty() =~= out@);
        } else {
            let v2 = b64_value_exec(b2);
            let v3 = b64_value_exec(b3);
            let combined: u32 = ((v0 as u32) << 18u32) | ((v1 as u32) << 12u32) | ((v2 as u32) << 6u32) | (v3 as u32);
            let ghost before = out@;
            out.push((combined >> 16u32) as u8);
            if b2 != 61 {
                out.push((combined >> 8u32) as u8);
            }
            if b3 != 61 {
                out.push(combined as u8);
            }
            assert(out@ =~= before + b64_quad(b0, b1, b2, b3));
            i = i + 4;
        }
    }
    if !done {
        assert(b64_decode_from(s@, i as nat) == Seq::<u8>::empty());
    }
    assert(out@ + Seq::<u8>::empty() =~= out@);
    out
}


/// `k` is the one-byte string `[a]`.
pub fn is_bytes1(k: &[u8], a: u8) -> (r: bool)
    ensures
        r == (k@ == seq![a]),
{
    let r = k.len() == 1 && k[0] == a;
    proof {
        if k@.len() == 1 && k@[0] == a {
            assert(k@ =~= seq![a]);
        }
    }
    r
}

/// `k` is the two-byte string `[a, b]`.
pub fn is_bytes2(k: &[u8], a: u8, b: u8) -> (r: bool)
    ensures
        r == (k@ == seq![a, b]),
{
    let r = k.len() == 2 && k[0] == a && k[1] == b;
    proof {
        if k@.len() == 2 && k@[0] == a && k@[1] == b {
            assert(k@ =~= seq![a, b]);
        }
    }
    r
}

fn u32_or_zero_exec(v: &[u8]) -> (r: u32)
    ensures
        r == u32_or_zero(v@),
{
    match parse_unsigned_exec(v, 0xFFFF_FFFF) {
        Some(n) => n as u32,
        None => 0,
    }
}

/// A copy of `s` without surrounding whitespace.
fn trimmed(s: &[u8]) -> (r: Vec<u8>)
    ensures
        r@ == trim_ws(s@),
{
    let (a, b) = trim_bounds(s);
    copy_range(s, a, b)
}

/// The control settings after one `key=value` item.
pub fn apply_kv_exec(c: ApcControl, kv: &[u8]) -> (r: ApcControl)
    ensures
        r == apply_kv(c, kv@),
{
    let n = kv.len();
    let (k, v) = match find_byte(kv, 61) {
        Some(i) => {
            let k0 = copy_range(kv, 0, i);
            let v0 = copy_range(kv, i + 1, n);
            assert(k0@ =~= kv@.take(i as int));
            assert(v0@ =~= kv@.skip(i + 1));
            (trimmed(k0.as_slice()), trimmed(v0.as_slice()))
        },
        None => {
            let e: Vec<u8> = Vec::new();
            assert(e@ =~= Seq::<u8>::empty());
            (trimmed(kv), trimmed(e.as_slice()))
        },
    };
    let k = k.as_slice();
    let v = v.as_slice();
    if is_bytes1(k, 97) {
        let action = if is_bytes1(v, 116) {
            GraphicsAction::TransmitDisplay
        } else if is_bytes1(v, 84) {
            GraphicsAction::Transmit
        } else if is_bytes1(v, 112) {
            GraphicsAction::Display
        } else if is_bytes1(v, 100) {
            GraphicsAction::Delete
        } else if is_bytes1(v, 113) {
            GraphicsAction::Query
        } else {
            GraphicsAction::Transmit
        };
        ApcControl { action, ..c }
    } else if is_bytes1(k, 102) {
        let format = if is_bytes2(v, 51, 50) {
            GraphicsFormat::Rgba
        } else if is_bytes2(v, 50, 52) {
            GraphicsFormat::Rgb
        } else {
            GraphicsFormat::Png
        };
        ApcControl { format, ..c }
    } else if is_bytes1(k, 116) {
        let trans = if is_bytes1(v, 100) {
            TransmissionType::Direct
        } else if is_bytes1(v, 102) {
            TransmissionType::File
        } else if is_bytes1(v, 116) {
            TransmissionType::TempFile
        } else if is_bytes1(v, 115) {
            TransmissionType::SharedMem
        } else {
            TransmissionType::Direct
        };
        ApcControl { trans, ..c }
    } else if is_bytes1(k, 105) {
        ApcControl { img_id: u32_or_zero_exec(v), ..c }
    } else if is_bytes1(k, 115) {
        ApcControl { data_width: u32_or_zero_exec(v), ..c }
    } else if is_bytes1(k, 118) {
        ApcControl { data_height: u32_or_zero_exec(v), ..c }
    } else if is_bytes1(k, 119) {
        ApcControl { img_width: u32_or_zero_exec(v), ..c }
    } else if is_bytes1(k, 104) {
        ApcControl { img_height: u32_or_zero_exec(v), ..c }
    } else if is_bytes1(k, 99) {
        ApcControl { cols: u32_or_zero_exec(v), ..c }
    } else if is_bytes1(k, 114) {
        ApcControl { rows: u32_or_zero_exec(v), ..c }
    } else if is_bytes1(k, 109) {
        let tv = trimmed(v);
        ApcControl { more: is_bytes1(tv.as_slice(), 49), ..c }
    } else if is_bytes1(k, 113) {
        let quiet = match parse_unsigned_exec(v, 255) {
            Some(n) => n as u8,
            None => 0,
        };
        ApcControl { quiet, ..c }
    } else if is_bytes1(k, 122) {
        let z_index = match parse_i32_exec(v) {
            Some(n) => n,
            None => 0,
        };
        ApcControl { z_index, ..c }
    } else {
        c
    }
}

/// The settings a control string selects.
pub fn parse_control_exec(ctrl: &[u8]) -> (r: ApcControl)
    ensures
        r == parse_control(ctrl@),
{
    let kvs = split_bytes(ctrl, 44);
    let ghost pieces = split_on(ctrl@, 44);
    let mut c = ApcControl {
        action: GraphicsAction::Transmit,
        format: GraphicsFormat::Png,
        trans: TransmissionType::Direct,
        img_id: 0,
        data_width: 0,
        data_height: 0,
        img_width: 0,
        img_height: 0,
        cols: 0,
        rows: 0,
        more: false,
        quiet: 0,
        z_index: 0,
    };
    let mut i: usize = 0;
    assert(pieces.take(0) =~= Seq::<Seq<u8>>::empty());
    while i < kvs.len()
        invariant
            i <= kvs@.len(),
            kvs@.len() == pieces.len(),
            forall|j: int| 0 <= j < kvs@.len() ==> (#[trigger] kvs@[j])@ == pieces[j],
            c == apply_kvs(default_control(), pieces.take(i as int)),
        decreases kvs@.len() - i,
    {
        assert(pieces.take(i + 1).drop_last() =~= pieces.take(i as int));
        c = apply_kv_exec(c, kvs[i].as_slice());
        i = i + 1;
    }
    assert(pieces.take(i as int) =~= pieces);
    c
}

/// Abstract state of a [`GraphicsManager`].
pub struct GraphicsModel {
    pub placements: Seq<ImagePlacement>,
    pub pending: Option<PendingModel>,
    pub next_id: u32,
    pub jobs: Seq<JobModel>,
}

/// Completing an image queues it for decoding when its data came inline; images
/// announced for shared memory are dropped (not supported).
pub open spec fn finalized(jobs: Seq<JobModel>, img: PendingModel) -> Seq<JobModel> {
    if img.trans == TransmissionType::Direct {
        jobs.push(JobModel::Decode(img))
    } else {
        jobs
    }
}

impl GraphicsModel {
    /// Handling of one APC graphics command received with the cursor at (`row`, `col`).
    pub open spec fn handled_apc(self, apc: Seq<u8>, row: usize, col: usize) -> GraphicsModel {
        let ctrl = apc_parts(apc).0;
        let b64 = apc_parts(apc).1;
        let c = parse_control(ctrl);
        let id: u32 = if c.img_id == 0 { self.next_id } else { c.img_id };
        let next_id: u32 = if c.img_id == 0 { (self.next_id + 1) as u32 } else { self.next_id };
        match self.pending {
            Some(p) => {
                let p2 = PendingModel { payload: p.payload + b64_decode(b64), ..p };
                if c.more {
                    GraphicsModel { pending: Some(p2), next_id, ..self }
                } else {
                    GraphicsModel { pending: None, next_id, jobs: finalized(self.jobs, p2), ..self }
                }
            },
            None => {
                if c.trans == TransmissionType::File || c.trans == TransmissionType::TempFile {
                    let path = trim_ws(b64);
                    if path.len() == 0 {
                        GraphicsModel { next_id, ..self }
                    } else {
                        let image = PendingModel {
                            id,
                            action: Some(c.action),
                            format: GraphicsFormat::Png,
                            trans: TransmissionType::Direct,
                            width: 0,
                            height: 0,
                            payload: Seq::empty(),
                            row,
                            col,
                            rows: c.rows,
                            cols: c.cols,
                            quiet: 0,
                            data_width: 0,
                            data_height: 0,
                            z_index: c.z_index,
                        };
                        GraphicsModel {
                            next_id,
                            jobs: self.jobs.push(JobModel::LoadFile { path, image }),
                            ..self
                        }
                    }
                } else {
                    let img = PendingModel {
                        id,
                        action: Some(c.action),
                        format: c.format,
                        trans: c.trans,
                        width: c.data_width,
                        height: c.data_height,
                        payload: b64_decode(b64),
                        row,
                        col,
                        rows: c.rows,
                        cols: c.cols,
                        quiet: c.quiet,
                        data_width: c.data_width,
                        data_height: c.data_height,
                        z_index: c.z_index,
                    };
                    if c.more {
                        GraphicsModel { pending: Some(img), next_id, ..self }
                    } else {
                        GraphicsModel { next_id, jobs: finalized(self.jobs, img), ..self }
                    }
                }
            },
        }
    }
}

/// Kitty graphics protocol state: placed images, a chunked transfer in progress and
/// the queue of images waiting for the caller.
pub struct GraphicsManager {
    pub placements: Vec<ImagePlacement>,
    pending: Option<PendingImage>,
    next_id: u32,
    jobs: Vec<ImageJob>,
}

impl View for GraphicsManager {
    type V = GraphicsModel;

    closed spec fn view(&self) -> GraphicsModel {
        GraphicsModel {
            placements: self.placements@,
            pending: match self.pending {
                Some(p) => Some(p@),
                None => None,
            },
            next_id: self.next_id,
            jobs: Seq::new(self.jobs@.len(), |i: int| self.jobs@[i]@),
        }
    }
}

impl GraphicsManager {
    pub fn new() -> (g: Self)
        ensures
            g@ == (GraphicsModel {
                placements: Seq::empty(),
                pending: None,
                next_id: 1,
                jobs: Seq::empty(),
            }),
    {
        let g = GraphicsManager { placements: Vec::new(), pending: None, next_id: 1, jobs: Vec::new() };
        assert(g@.jobs =~= Seq::<JobModel>::empty());
        g
    }

    /// The id the next command without an explicit `i=` gets.
    pub fn next_id(&self) -> (n: u32)
        ensures
            n == self@.next_id,
    {
        self.next_id
    }

    /// Handles one APC graphics command (the text between `ESC _ G` and `ESC \`)
    /// received with the cursor at (`cursor_row`, `cursor_col`).
    pub fn handle_apc(&mut self, apc_data: &str, cursor_row: usize, cursor_col: usize)
        requires
            old(self)@.next_id < u32::MAX,
        ensures
            final(self)@ == old(self)@.handled_apc(apc_data.spec_bytes(), cursor_row, cursor_col),
    {
        let bytes = apc_data.as_bytes();
        let n = bytes.len();
        let (ctrl, b64) = match find_byte(bytes, 59) {
            Some(pos) => {
                let a = copy_range(bytes, 0, pos);
                let b = copy_range(bytes, pos + 1, n);
                assert(a@ =~= bytes@.take(pos as int));
                assert(b@ =~= bytes@.skip(pos + 1));
                (a, b)
            },
            None => {
                let a = copy_range(bytes, 0, bytes.len());
                assert(a@ =~= bytes@);
                let e: Vec<u8> = Vec::new();
                assert(e@ =~= Seq::<u8>::empty());
                (a, e)
            },
        };
        let c = parse_control_exec(ctrl.as_slice());
        let mut img_id = c.img_id;
        if img_id == 0 {
            img_id = self.next_id;
            self.next_id = self.next_id + 1;
        }
        let ghost after_id = self@;
        if self.pending.is_some() {
            let mut p = self.pending.take().unwrap();
            let chunk = decode_base64(b64.as_slice());
            let mut i: usize = 0;
            let ghost p0 = p.payload@;
            let ghost pm = p@;
            assert(self@ == (GraphicsModel { pending: None, ..after_id }));
            while i < chunk.len()
                invariant
                    i <= chunk@.len(),
                    chunk@ == b64_decode(b64@),
                    p.payload@ == p0 + chunk@.take(i as int),
                    p@ == (PendingModel { payload: p.payload@, ..pm }),
                    self@ == (GraphicsModel { pending: None, ..after_id }),
                decreases chunk@.len() - i,
            {
                p.payload.push(chunk[i]);
                i = i + 1;
                assert(p.payload@ =~= p0 + chunk@.take(i as int));
            }
            assert(chunk@.take(chunk@.len() as int) =~= chunk@);
            if c.more {
                self.pending = Some(p);
            } else {
                self.finalize(p);
            }
            return;
        }
        if c.trans == TransmissionType::File || c.trans == TransmissionType::TempFile {
            let path = trimmed(b64.as_slice());
            if path.len() == 0 {
                return;
            }
            let image = PendingImage {
                id: img_id,
                action: Some(c.action),
                format: GraphicsFormat::Png,
                trans: TransmissionType::Direct,
                width: 0,
                height: 0,
                payload: Vec::new(),
                row: cursor_row,
                col: cursor_col,
                rows: c.rows,
                cols: c.cols,
                quiet: 0,
                data_width: 0,
                data_height: 0,
                z_index: c.z_index,
            };
            assert(image.payload@ =~= Seq::<u8>::empty());
            let ghost before = self.jobs@;
            self.jobs.push(ImageJob::LoadFile { path, image });
            assert(self@.jobs =~= after_id.jobs.push(JobModel::LoadFile { path: path@, image: image@ }));
            return;
        }
        let decoded = decode_base64(b64.as_slice());
        let img = PendingImage {
            id: img_id,
            action: Some(c.action),
            format: c.format,
            trans: c.trans,
            width: c.data_width,
            height: c.data_height,
            payload: decoded,
            row: cursor_row,
            col: cursor_col,
            rows: c.rows,
            cols: c.cols,
            quiet: c.quiet,
            data_width: c.data_width,
            data_height: c.data_height,
            z_index: c.z_index,
        };
        if c.more {
            self.pending = Some(img);
        } else {
            self.finalize(img);
        }
    }

    /// Queues a complete image (see [`finalized`]).
    fn finalize(&mut self, img: PendingImage)
        ensures
            final(self)@ == (GraphicsModel { jobs: finalized(old(self)@.jobs, img@), ..old(self)@ }),
    {
        if img.trans == TransmissionType::Direct {
            let ghost m = img@;
            self.jobs.push(ImageJob::Decode(img));
            assert(self@.jobs =~= old(self)@.jobs.push(JobModel::Decode(m)));
        }
    }

    /// Hands the queued images to the caller, oldest first.
    pub fn take_jobs(&mut self) -> (jobs: Vec<ImageJob>)
        ensures
            Seq::new(jobs@.len(), |i: int| jobs@[i]@) == old(self)@.jobs,
            final(self)@ == (GraphicsModel { jobs: Seq::empty(), ..old(self)@ }),
    {
        let mut jobs: Vec<ImageJob> = Vec::new();
        std::mem::swap(&mut jobs, &mut self.jobs);
        assert(self@.jobs =~= Seq::<JobModel>::empty());
        assert(Seq::new(jobs@.len(), |i: int| jobs@[i]@) =~= old(self)@.jobs);
        jobs
    }

    /// Places a decoded image uploaded as `texture_id`, replacing the placements of
    /// the same image id; returns the textures of the replaced placements, in order.
    pub fn place_image(&mut self, img: &PendingImage, texture_id: u32, img_w: u32, img_h: u32) -> (removed: Vec<u32>)
        ensures
            final(self)@ == (GraphicsModel {
                placements: old(self)@.placements.filter(|p: ImagePlacement| p.image_id != img.id).push(
                    ImagePlacement {
                        image_id: img.id,
                        row: img.row,
                        col: img.col,
                        rows: img.rows,
                        cols: img.cols,
                        texture_id,
                        img_width: img_w,
                        img_height: img_h,
                        z_index: img.z_index,
                    },
                ),
                ..old(self)@
            }),
            removed@ == old(self)@.placements.filter(|p: ImagePlacement| p.image_id == img.id).map_values(
                |p: ImagePlacement| p.texture_id,
            ),
    {
        let ghost old_p = self.placements@;
        let mut kept: Vec<ImagePlacement> = Vec::new();
        let mut removed: Vec<u32> = Vec::new();
        let mut i: usize = 0;
        while i < self.placements.len()
            invariant
                i <= self.placements@.len(),
                self.placements@ == old_p,
                kept@ == old_p.take(i as int).filter(|p: ImagePlacement| p.image_id != img.id),
                removed@ == old_p.take(i as int).filter(|p: ImagePlacement| p.image_id == img.id).map_values(
                    |p: ImagePlacement| p.texture_id,
                ),
            decreases self.placements@.len() - i,
        {
            let p = self.placements[i];
            proof {
                assert(old_p.take(i + 1).drop_last() =~= old_p.take(i as int));
                reveal_with_fuel(Seq::<ImagePlacement>::filter, 1);
            }
            if p.image_id == img.id {
                removed.push(p.texture_id);
            } else {
                kept.push(p);
            }
            i = i + 1;
            assert(kept@ =~= old_p.take(i as int).filter(|p: ImagePlacement| p.image_id != img.id));
            assert(removed@ =~= old_p.take(i as int).filter(|p: ImagePlacement| p.image_id == img.id).map_values(
                |p: ImagePlacement| p.texture_id));
        }
        assert(old_p.take(i as int) =~= old_p);
        kept.push(ImagePlacement {
            image_id: img.id,
            row: img.row,
            col: img.col,
            rows: img.rows,
            cols: img.cols,
            texture_id,
            img_width: img_w,
            img_height: img_h,
            z_index: img.z_index,
        });
        self.placements = kept;
        removed
    }

    /// Forgets every placement; returns their textures, in order, for the caller to free.
    pub fn clear(&mut self) -> (textures: Vec<u32>)
        ensures
            final(self)@ == (GraphicsModel { placements: Seq::empty(), ..old(self)@ }),
            textures@ == old(self)@.placements.map_values(|p: ImagePlacement| p.texture_id),
    {
        let mut textures: Vec<u32> = Vec::new();
        let mut i: usize = 0;
        while i < self.placements.len()
            invariant
                i <= self.placements@.len(),
                self.placements@ == old(self)@.placements,
                textures@ == old(self)@.placements.take(i as int).map_values(|p: ImagePlacement| p.texture_id),
            decreases self.placements@.len() - i,
        {
            textures.push(self.placements[i].texture_id);
            i = i + 1;
            assert(textures@ =~= old(self)@.placements.take(i as int).map_values(|p: ImagePlacement| p.texture_id));
        }
        assert(old(self)@.placements.take(i as int) =~= old(self)@.placements);
        self.placements.clear();
        textures
    }
}

/// What the `image` crate decodes `bytes` to: RGBA8 pixels with width and height, or
/// nothing when the format is not recognised or the data is invalid.
pub uninterp spec fn decoded_image(bytes: Seq<u8>) -> Option<(Seq<u8>, u32, u32)>;

/// Decodes an encoded image (PNG and the other formats the `image` crate guesses) to
/// RGBA8. Calls `image::load_from_memory`, then takes the dimensions and the pixels
/// converted with `to_rgba8`; the result is named [`decoded_image`].
#[verifier::external_body]
fn decode_image_bytes(bytes: &[u8]) -> (r: Option<(Vec<u8>, u32, u32)>)
    ensures
        match r {
            Some((v, w, h)) => decoded_image(bytes@) == Some((v@, w, h)),
            None => decoded_image(bytes@) is None,
        },
{
    let img = image::load_from_memory(bytes).ok()?;
    let (w, h) = image::GenericImageView::dimensions(&img);
    Some((img.to_rgba8().into_raw(), w, h))
}

/// Pixel size of raw image data: the `s`/`v` data size when given, else the `w`/`h` one.
pub open spec fn raw_dims(img: PendingModel) -> (u32, u32) {
    (
        if img.data_width > 0 { img.data_width } else { img.width },
        if img.data_height > 0 { img.data_height } else { img.height },
    )
}

/// RGB bytes to RGBA: every group of (up to) three bytes followed by an opaque alpha.
pub open spec fn rgb_to_rgba(p: Seq<u8>) -> Seq<u8>
    decreases p.len(),
{
    if p.len() == 0 {
        Seq::empty()
    } else if p.len() <= 3 {
        p.push(255u8)
    } else {
        p.take(3).push(255u8) + rgb_to_rgba(p.skip(3))
    }
}

/// The RGBA pixels, width and height an image payload decodes to.
pub open spec fn decode_result(img: PendingModel) -> Option<(Seq<u8>, u32, u32)> {
    let w = raw_dims(img).0;
    let h = raw_dims(img).1;
    if img.payload.len() == 0 {
        None
    } else {
        match img.format {
            GraphicsFormat::Png => decoded_image(img.payload),
            GraphicsFormat::Rgb => {
                if w == 0 || h == 0 || img.payload.len() < w * h * 3 {
                    None
                } else {
                    Some((rgb_to_rgba(img.payload), w, h))
                }
            },
            GraphicsFormat::Rgba => {
                if w == 0 || h == 0 || img.payload.len() < w * h * 4 {
                    None
                } else {
                    Some((img.payload, w, h))
                }
            },
        }
    }
}

/// The byte counts of raw pixel data fit the 32-bit arithmetic used to check them.
pub open spec fn raw_size_fits(img: PendingModel) -> bool {
    img.format == GraphicsFormat::Png || raw_dims(img).0 * raw_dims(img).1 * 4 <= u32::MAX
}

/// Decodes an image payload to RGBA pixels plus width and height (see [`decode_result`]).
pub fn decode_to_rgba(img: &PendingImage) -> (r: Option<(Vec<u8>, u32, u32)>)
    requires
        raw_size_fits(img@),
    ensures
        match r {
            Some((v, w, h)) => decode_result(img@) == Some((v@, w, h)),
            None => decode_result(img@) is None,
        },
{
    if img.payload.len() == 0 {
        return None;
    }
    match img.format {
        GraphicsFormat::Png => decode_image_bytes(img.payload.as_slice()),
        GraphicsFormat::Rgb => {
            let w = if img.data_width > 0 { img.data_width } else { img.width };
            let h = if img.data_height > 0 { img.data_height } else { img.height };
            if w == 0 || h == 0 {
                return None;
            }
            proof {
                assert(w * h * 3 <= w * h * 4) by (nonlinear_arith);
                assert(w * h >= 0) by (nonlinear_arith);
            }
            let expected = (w * h * 3) as usize;
            if img.payload.len() < expected {
                return None;
            }
            let mut rgba: Vec<u8> = Vec::with_capacity((w * h * 4) as usize);
            let p = &img.payload;
            let n = p.len();
            let mut i: usize = 0;
            assert(p@.skip(0) =~= p@);
            while i < n
                invariant
                    i <= n == p@.len(),
                    rgba@ + rgb_to_rgba(p@.skip(i as int)) == rgb_to_rgba(p@),
                decreases n - i,
            {
                let ghost before = rgba@;
                let ghost rest = p@.skip(i as int);
                let end = if n - i < 3 { n } else { i + 3 };
                let mut j = i;
                while j < end
                    invariant
                        i <= j <= end <= n == p@.len(),
                        rgba@ == before + p@.subrange(i as int, j as int),
                    decreases end - j,
                {
                    rgba.push(p[j]);
                    j = j + 1;
                    assert(rgba@ =~= before + p@.subrange(i as int, j as int));
                }
                rgba.push(255);
                proof {
                    if rest.len() <= 3 {
                        assert(rest =~= p@.subrange(i as int, end as int));
                        assert(p@.skip(end as int).len() == 0);
                        assert(rgb_to_rgba(p@.skip(end as int)) == Seq::<u8>::empty());
                        assert(rgba@ + rgb_to_rgba(p@.skip(end as int)) =~= before + rgb_to_rgba(rest));
                    } else {
                        assert(rest.take(3) =~= p@.subrange(i as int, end as int));
                        assert(rest.skip(3) =~= p@.skip(end as int));
                        assert(rgba@ + rgb_to_rgba(p@.skip(end as int)) =~= before + rgb_to_rgba(rest));
                    }
                }
                i = end;
            }
            assert(rgb_to_rgba(p@.skip(n as int)) == Seq::<u8>::empty());
            assert(rgba@ + Seq::<u8>::empty() =~= rgba@);
            Some((rgba, w, h))
        },
        GraphicsFormat::Rgba => {
            let w = if img.data_width > 0 { img.data_width } else { img.width };
            let h = if img.data_height > 0 { img.data_height } else { img.height };
            if w == 0 || h == 0 {
                return None;
            }
            let expected = (w * h * 4) as usize;
            if img.payload.len() < expected {
                return None;
            }
            let copy = copy_range(img.payload.as_slice(), 0, img.payload.len());
            assert(copy@ =~= img.payload@);
            Some((copy, w, h))
        },
    }
}

/// `s` with every `~` replaced by `home`.
pub open spec fn replace_tilde(s: Seq<u8>, home: Seq<u8>) -> Seq<u8>
    decreases s.len(),
{
    if s.len() == 0 {
        Seq::empty()
    } else {
        replace_tilde(s.drop_last(), home) + (if s.last() == 126 { home } else { seq![s.last()] })
    }
}

/// A file path as the graphics protocol takes it: kept when absolute, with every `~`
/// replaced by the home directory when it starts with `~`, else kept.
pub open spec fn expanded_path(path: Seq<u8>, home: Seq<u8>) -> Seq<u8> {
    if path.len() > 0 && path[0] == 47 {
        path
    } else if path.len() > 0 && path[0] == 126 {
        replace_tilde(path, home)
    } else {
        path
    }
}

/// Expands `~` in an image file path (see [`expanded_path`]).
pub fn expand_home(path: &[u8], home: &[u8]) -> (r: Vec<u8>)
    ensures
        r@ == expanded_path(path@, home@),
{
    let n = path.len();
    if n > 0 && path[0] == 126 {
        let mut out: Vec<u8> = Vec::new();
        let mut i: usize = 0;
        assert(path@.take(0) =~= Seq::<u8>::empty());
        while i < n
            invariant
                i <= n == path@.len(),
                out@ == replace_tilde(path@.take(i as int), home@),
            decreases n - i,
        {
            assert(path@.take(i + 1).drop_last() =~= path@.take(i as int));
            let ghost before = out@;
            if path[i] == 126 {
                let mut j: usize = 0;
                while j < home.len()
                    invariant
                        j <= home@.len(),
                        out@ == before + home@.take(j as int),
                    decreases home@.len() - j,
                {
                    out.push(home[j]);
                    j = j + 1;
                    assert(out@ =~= before + home@.take(j as int));
                }
                assert(home@.take(home@.len() as int) =~= home@);
            } else {
                out.push(path[i]);
                assert(out@ =~= before + seq![path@[i as int]]);
            }
            i = i + 1;
        }
        assert(path@.take(n as int) =~= path@);
        out
    } else {
        let out = copy_range(path, 0, n);
        assert(out@ =~= path@);
        out
    }
}

/// The key and value of `key=value` for a one-letter key and a value without `=`
/// that starts and ends with a visible ASCII character.
proof fn lemma_kv_split(key: u8, v: Seq<u8>)
    requires
        97 <= key <= 122,
        v.len() >= 1,
        33 <= v[0] <= 126,
        33 <= v.last() <= 126,
    ensures
        kv_parts(seq![key, 61u8] + v) == (seq![key], v),
{
    let kv = seq![key, 61u8] + v;
    assert(kv.drop_first()[0] == 61);
    assert(first_index_of(kv.drop_first(), 61) == Some(0int));
    assert(first_index_of(kv, 61) == Some(1int));
    assert(kv.take(1) =~= seq![key]);
    assert(kv.skip(2) =~= v);
    lemma_trim_visible(seq![key]);
    lemma_trim_visible(v);
}

/// The key and value of `key=N` for a one-letter key and a decimal number.
proof fn lemma_kv_number(key: u8, n: nat)
    requires
        97 <= key <= 122,
    ensures
        kv_parts(seq![key, 61u8] + decimal(n)) == (seq![key], decimal(n)),
{
    lemma_decimal_value(n);
    lemma_decimal_len(n);
    let d = decimal(n);
    assert(is_digit(d[0]) && is_digit(d.last()));
    lemma_kv_split(key, d);
}

/// Law: each numeric control item `key=N`, for every `u32` value `N` written in
/// decimal, sets exactly the setting its key names: `i` the image id, `s` and `v`
/// the width and height of the pixel data, `w` and `h` the width and height shown,
/// `c` and `r` the placement's width and height in cells; `q=N` sets the quiet
/// level for `N` up to 255.
pub proof fn law_numeric_keys(c: ApcControl, n: u32)
    ensures
        apply_kv(c, seq![105u8, 61u8] + decimal(n as nat)) == (ApcControl { img_id: n, ..c }),
        apply_kv(c, seq![115u8, 61u8] + decimal(n as nat)) == (ApcControl { data_width: n, ..c }),
        apply_kv(c, seq![118u8, 61u8] + decimal(n as nat)) == (ApcControl { data_height: n, ..c }),
        apply_kv(c, seq![119u8, 61u8] + decimal(n as nat)) == (ApcControl { img_width: n, ..c }),
        apply_kv(c, seq![104u8, 61u8] + decimal(n as nat)) == (ApcControl { img_height: n, ..c }),
        apply_kv(c, seq![99u8, 61u8] + decimal(n as nat)) == (ApcControl { cols: n, ..c }),
        apply_kv(c, seq![114u8, 61u8] + decimal(n as nat)) == (ApcControl { rows: n, ..c }),
        n <= 255 ==> apply_kv(c, seq![113u8, 61u8] + decimal(n as nat)) == (ApcControl { quiet: n as u8, ..c }),
{
    let keys = seq![105u8, 115u8, 118u8, 119u8, 104u8, 99u8, 114u8, 113u8, 97u8, 102u8, 116u8, 109u8, 122u8];
    assert forall|x: int, y: int| 0 <= x < keys.len() && 0 <= y < keys.len() && x != y implies seq![keys[x]]
        != seq![keys[y]] by {
        assert(seq![keys[x]][0] == keys[x]);
    }
    assert(keys[0] == 105u8 && keys[1] == 115u8 && keys[2] == 118u8 && keys[3] == 119u8 && keys[4] == 104u8);
    assert(keys[5] == 99u8 && keys[6] == 114u8 && keys[7] == 113u8 && keys[8] == 97u8 && keys[9] == 102u8);
    assert(keys[10] == 116u8 && keys[11] == 109u8 && keys[12] == 122u8);
    lemma_kv_number(105, n as nat);
    lemma_kv_number(115, n as nat);
    lemma_kv_number(118, n as nat);
    lemma_kv_number(119, n as nat);
    lemma_kv_number(104, n as nat);
    lemma_kv_number(99, n as nat);
    lemma_kv_number(114, n as nat);
    lemma_kv_number(113, n as nat);
    lemma_parse_decimal(n as nat, u32::MAX as nat);
    if n <= 255 {
        lemma_parse_decimal(n as nat, 255);
    }
}

/// Law: the action, format and chunking items. `a=t` transmits and displays, `a=T`
/// transmits, `a=p` displays, `a=d` deletes and `a=q` queries; `f=32` is RGBA,
/// `f=24` RGB and `f=100` PNG; `m=1` announces more chunks and `m=0` the last one.
/// Nothing else changes.
pub proof fn law_letter_keys(c: ApcControl)
    ensures
        apply_kv(c, seq![97u8, 61u8, 116u8]) == (ApcControl { action: GraphicsAction::TransmitDisplay, ..c }),
        apply_kv(c, seq![97u8, 61u8, 84u8]) == (ApcControl { action: GraphicsAction::Transmit, ..c }),
        apply_kv(c, seq![97u8, 61u8, 112u8]) == (ApcControl { action: GraphicsAction::Display, ..c }),
        apply_kv(c, seq![97u8, 61u8, 100u8]) == (ApcControl { action: GraphicsAction::Delete, ..c }),
        apply_kv(c, seq![97u8, 61u8, 113u8]) == (ApcControl { action: GraphicsAction::Query, ..c }),
        apply_kv(c, seq![102u8, 61u8, 51u8, 50u8]) == (ApcControl { format: GraphicsFormat::Rgba, ..c }),
        apply_kv(c, seq![102u8, 61u8, 50u8, 52u8]) == (ApcControl { format: GraphicsFormat::Rgb, ..c }),
        apply_kv(c, seq![102u8, 61u8, 49u8, 48u8, 48u8]) == (ApcControl { format: GraphicsFormat::Png, ..c }),
        apply_kv(c, seq![109u8, 61u8, 49u8]) == (ApcControl { more: true, ..c }),
        apply_kv(c, seq![109u8, 61u8, 48u8]) == (ApcControl { more: false, ..c }),
{
    let vals = seq![116u8, 84u8, 112u8, 100u8, 113u8];
    assert forall|x: int, y: int| 0 <= x < vals.len() && 0 <= y < vals.len() && x != y implies seq![vals[x]]
        != seq![vals[y]] by {
        assert(seq![vals[x]][0] == vals[x]);
    }
    assert(vals[0] == 116u8 && vals[1] == 84u8 && vals[2] == 112u8 && vals[3] == 100u8 && vals[4] == 113u8);
    assert(seq![97u8] != seq![102u8] && seq![109u8] != seq![97u8] && seq![109u8] != seq![102u8]) by {
        assert(seq![97u8][0] != seq![102u8][0]);
        assert(seq![109u8][0] != seq![97u8][0]);
        assert(seq![109u8][0] != seq![102u8][0]);
    }
    assert(seq![109u8] != seq![116u8] && seq![109u8] != seq![105u8] && seq![109u8] != seq![115u8]) by {
        assert(seq![109u8][0] != seq![116u8][0]);
        assert(seq![109u8][0] != seq![105u8][0]);
        assert(seq![109u8][0] != seq![115u8][0]);
    }
    assert(seq![109u8] != seq![118u8] && seq![109u8] != seq![119u8] && seq![109u8] != seq![104u8]) by {
        assert(seq![109u8][0] != seq![118u8][0]);
        assert(seq![109u8][0] != seq![119u8][0]);
        assert(seq![109u8][0] != seq![104u8][0]);
    }
    assert(seq![109u8] != seq![99u8] && seq![109u8] != seq![114u8]) by {
        assert(seq![109u8][0] != seq![99u8][0]);
        assert(seq![109u8][0] != seq![114u8][0]);
    }
    let fmt_rgba = seq![51u8, 50u8];
    let fmt_rgb = seq![50u8, 52u8];
    let fmt_png = seq![49u8, 48u8, 48u8];
    assert(fmt_rgb != fmt_rgba && fmt_png != fmt_rgba && fmt_png != fmt_rgb) by {
        assert(fmt_rgb[0] != fmt_rgba[0]);
        assert(fmt_png.len() != fmt_rgba.len());
        assert(fmt_png.len() != fmt_rgb.len());
    }
    assert(seq![48u8] != seq![49u8]) by {
        assert(seq![48u8][0] != seq![49u8][0]);
    }
    lemma_kv_split(97, seq![116u8]);
    lemma_kv_split(97, seq![84u8]);
    lemma_kv_split(97, seq![112u8]);
    lemma_kv_split(97, seq![100u8]);
    lemma_kv_split(97, seq![113u8]);
    assert(seq![97u8, 61u8] + seq![116u8] =~= seq![97u8, 61u8, 116u8]);
    assert(seq![97u8, 61u8] + seq![84u8] =~= seq![97u8, 61u8, 84u8]);
    assert(seq![97u8, 61u8] + seq![112u8] =~= seq![97u8, 61u8, 112u8]);
    assert(seq![97u8, 61u8] + seq![100u8] =~= seq![97u8, 61u8, 100u8]);
    assert(seq![97u8, 61u8] + seq![113u8] =~= seq![97u8, 61u8, 113u8]);
    lemma_kv_split(102, fmt_rgba);
    lemma_kv_split(102, fmt_rgb);
    lemma_kv_split(102, fmt_png);
    assert(seq![102u8, 61u8] + fmt_rgba =~= seq![102u8, 61u8, 51u8, 50u8]);
    assert(seq![102u8, 61u8] + fmt_rgb =~= seq![102u8, 61u8, 50u8, 52u8]);
    assert(seq![102u8, 61u8] + fmt_png =~= seq![102u8, 61u8, 49u8, 48u8, 48u8]);
    lemma_kv_split(109, seq![49u8]);
    lemma_kv_split(109, seq![48u8]);
    assert(seq![109u8, 61u8] + seq![49u8] =~= seq![109u8, 61u8, 49u8]);
    assert(seq![109u8, 61u8] + seq![48u8] =~= seq![109u8, 61u8, 48u8]);
    lemma_trim_visible(seq![49u8]);
    lemma_trim_visible(seq![48u8]);
}

/// Law: a chunked transfer. With no transfer in progress, a direct transmission
/// announcing more chunks (`m=1`) queues nothing; a following chunk that ends it
/// (`m=0`) queues exactly one image to decode, whose payload is the first chunk's
/// data decoded followed by the second's, placed where the cursor was at the first
/// chunk, with the size in cells the first chunk gave. A single command without
/// `m=1` queues its decoded payload at once.
pub proof fn law_chunked_transfer(g: GraphicsModel, a1: Seq<u8>, a2: Seq<u8>, r1: usize, c1: usize, r2: usize, c2: usize)
    requires
        g.pending is None,
        parse_control(apc_parts(a1).0).trans == TransmissionType::Direct,
        !parse_control(apc_parts(a2).0).more,
    ensures
        ({
            let first = parse_control(apc_parts(a1).0);
            let g1 = g.handled_apc(a1, r1, c1);
            let g2 = g1.handled_apc(a2, r2, c2);
            &&& first.more ==> g1.jobs == g.jobs
            &&& first.more ==> g2.pending is None && g2.jobs.len() == g.jobs.len() + 1
                && g2.jobs.drop_last() == g.jobs && (g2.jobs.last() matches JobModel::Decode(img) && img.payload
                == b64_decode(apc_parts(a1).1) + b64_decode(apc_parts(a2).1) && img.row == r1 && img.col == c1
                && img.cols == first.cols && img.rows == first.rows)
            &&& !first.more ==> g1.pending is None && g1.jobs.len() == g.jobs.len() + 1 && g1.jobs.drop_last()
                == g.jobs && (g1.jobs.last() matches JobModel::Decode(img) && img.payload == b64_decode(
                apc_parts(a1).1,
            ) && img.row == r1 && img.col == c1 && img.cols == first.cols && img.rows == first.rows)
        }),
{
    let g1 = g.handled_apc(a1, r1, c1);
    assert(g1.jobs.len() >= g.jobs.len());
    if parse_control(apc_parts(a1).0).more {
        let g2 = g1.handled_apc(a2, r2, c2);
        assert(g2.jobs.drop_last() =~= g.jobs);
    } else {
        assert(g1.jobs.drop_last() =~= g.jobs);
    }
}

/// Law: RGB data becomes RGBA pixel by pixel. Of `k` RGB pixels come `k` RGBA
/// pixels, each with the red, green and blue of its RGB pixel and full opacity.
pub proof fn law_rgb_pixels(p: Seq<u8>, k: nat)
    requires
        p.len() == 3 * k,
    ensures
        rgb_to_rgba(p).len() == 4 * k,
        forall|i: int, j: int|
            0 <= i < k && 0 <= j < 3 ==> #[trigger] rgb_to_rgba(p)[4 * i + j] == p[3 * i + j],
        forall|i: int| 0 <= i < k ==> #[trigger] rgb_to_rgba(p)[4 * i + 3] == 255,
    decreases k,
{
    if k == 1 {
        assert(rgb_to_rgba(p) == p.push(255u8));
    } else if k > 1 {
        let rest = p.skip(3);
        law_rgb_pixels(rest, (k - 1) as nat);
        let out = rgb_to_rgba(p);
        assert(out == p.take(3).push(255u8) + rgb_to_rgba(rest));
        assert forall|i: int, j: int| 0 <= i < k && 0 <= j < 3 implies #[trigger] out[4 * i + j] == p[3 * i + j] by {
            if i > 0 {
                assert(out[4 * i + j] == rgb_to_rgba(rest)[4 * (i - 1) + j]);
                assert(rest[3 * (i - 1) + j] == p[3 * i + j]);
            }
        }
        assert forall|i: int| 0 <= i < k implies #[trigger] out[4 * i + 3] == 255 by {
            if i > 0 {
                assert(out[4 * i + 3] == rgb_to_rgba(rest)[4 * (i - 1) + 3]);
            }
        }
    }
}
} // verus!
