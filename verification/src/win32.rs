use vstd::prelude::*;
use crate::unicode::{decode_utf16_lossy, encode_utf16, string_from_utf16, string_from_utf16_lossy, utf16_units, valid_utf16};

verus! {

broadcast use vstd::seq::group_seq_axioms;

/// Window handle.
pub type HWND = isize;
/// Font handle.
pub type HFONT = isize;
/// First message parameter.
pub type WPARAM = usize;
/// Second message parameter.
pub type LPARAM = isize;

pub const WM_CREATE: u32 = 0x0001;
pub const WM_DESTROY: u32 = 0x0002;
pub const WM_SIZE: u32 = 0x0005;
pub const WM_SETFOCUS: u32 = 0x0007;
pub const WM_CLOSE: u32 = 0x0010;
pub const WM_COMMAND: u32 = 0x0111;
pub const WM_CUT: u32 = 0x0300;
pub const WM_COPY: u32 = 0x0301;
pub const WM_PASTE: u32 = 0x0302;
pub const WM_CLEAR: u32 = 0x0303;
pub const WM_DROPFILES: u32 = 0x0233;
pub const WM_INITMENUPOPUP: u32 = 0x0117;
pub const WM_INITDIALOG: u32 = 0x0110;

pub const EM_UNDO: u32 = 0x00C7;
pub const EN_CHANGE: u32 = 0x0300;
pub const EN_UPDATE: u32 = 0x0400;

pub const WS_CHILD: u32 = 0x40000000;
pub const WS_VISIBLE: u32 = 0x10000000;
pub const WS_VSCROLL: u32 = 0x00200000;
pub const WS_HSCROLL: u32 = 0x00100000;

pub const ES_MULTILINE: u32 = 0x0004;
pub const ES_AUTOVSCROLL: u32 = 0x0040;
pub const ES_AUTOHSCROLL: u32 = 0x0080;
pub const ES_NOHIDESEL: u32 = 0x0100;
pub const ES_WANTRETURN: u32 = 0x1000;

pub const IDOK: i32 = 1;
pub const IDCANCEL: i32 = 2;
pub const IDYES: i32 = 6;
pub const IDNO: i32 = 7;

pub const MF_CHECKED: u32 = 0x00000008;
pub const MF_UNCHECKED: u32 = 0x00000000;
pub const MF_ENABLED: u32 = 0x00000000;
pub const MF_GRAYED: u32 = 0x00000001;

pub const MAX_PATH: usize = 260;

pub const FR_DOWN: u32 = 0x00000001;
pub const FR_MATCHCASE: u32 = 0x00000004;
pub const FR_FINDNEXT: u32 = 0x00000008;
pub const FR_REPLACE: u32 = 0x00000010;
pub const FR_REPLACEALL: u32 = 0x00000020;
pub const FR_DIALOGTERM: u32 = 0x00000040;

/// A rectangle in window coordinates.
#[derive(Clone, Copy, PartialEq, Eq, Structural, Debug)]
pub struct RECT {
    pub left: i32,
    pub top: i32,
    pub right: i32,
    pub bottom: i32,
}

/// A point in window coordinates.
#[derive(Clone, Copy, PartialEq, Eq, Structural, Debug)]
pub struct POINT {
    pub x: i32,
    pub y: i32,
}

/// A window message with its parameters.
#[derive(Clone, Copy, PartialEq, Eq, Structural, Debug)]
pub struct MSG {
    pub hwnd: HWND,
    pub message: u32,
    pub wParam: WPARAM,
    pub lParam: LPARAM,
    pub time: u32,
    pub pt: POINT,
}

/// Turns a numeric resource identifier into the value that stands in place of a
/// resource name (the address of the name pointer equals the identifier).
pub fn make_int_resource(id: u16) -> (r: usize)
    ensures
        r == id,
{
    id as usize
}

/// The NUL-terminated UTF-16 form of a string, as Win32 calls take it.
pub fn wide_from_str(s: &str) -> (r: Vec<u16>)
    ensures
        r@ == encode_utf16(s@).push(0),
{
    let mut r = utf16_units(s);
    r.push(0);
    r
}

/// The units of a buffer before its first NUL (all of them when there is none).
pub open spec fn until_nul(buf: Seq<u16>) -> Seq<u16> {
    if exists|i: int| 0 <= i < buf.len() && buf[i] == 0 {
        buf.take(choose|i: int| 0 <= i < buf.len() && buf[i] == 0 && forall|j: int| 0 <= j < i ==> buf[j] != 0)
    } else {
        buf
    }
}

/// The length of the text in a buffer: the index of its first NUL, or the
/// buffer's length when it holds none.
pub fn nul_position(buf: &[u16]) -> (r: usize)
    ensures
        r <= buf@.len(),
        buf@.take(r as int) == until_nul(buf@),
        forall|j: int| 0 <= j < r ==> buf@[j] != 0,
        r < buf@.len() ==> buf@[r as int] == 0,
{
    let mut i: usize = 0;
    while i < buf.len()
        invariant
            i <= buf@.len(),
            forall|j: int| 0 <= j < i ==> buf@[j] != 0,
        decreases buf@.len() - i,
    {
        if buf[i] == 0 {
            proof {
                let k = choose|k: int| 0 <= k < buf@.len() && buf@[k] == 0 && forall|j: int| 0 <= j < k ==> buf@[j] != 0;
                assert(k == i) by {
                    if k < i {
                    } else if k > i {
                        assert(buf@[i as int] != 0);
                    }
                }
            }
            return i;
        }
        i = i + 1;
    }
    assert(buf@.take(i as int) =~= buf@);
    i
}

/// The text of a NUL-terminated buffer, unpaired surrogates becoming U+FFFD.
pub fn string_from_wide_lossy(buf: &[u16]) -> (r: String)
    ensures
        r@ == decode_utf16_lossy(until_nul(buf@)),
{
    let end = nul_position(buf);
    string_from_utf16_lossy(&buf[0..end])
}

/// The text of a NUL-terminated buffer, or `None` when it holds an unpaired surrogate.
pub fn text_from_wide_buffer(buf: &[u16]) -> (r: Option<String>)
    ensures
        r is Some <==> valid_utf16(until_nul(buf@)),
        r matches Some(s) ==> s@ == decode_utf16_lossy(until_nul(buf@)),
{
    let end = nul_position(buf);
    string_from_utf16(&buf[0..end])
}

/// `w` cut or padded with NULs to exactly `n` units.
pub open spec fn fit_buffer(w: Seq<u16>, n: nat) -> Seq<u16> {
    Seq::new(n, |i: int| if i < w.len() { w[i] } else { 0u16 })
}

/// A buffer of `n` units that begins with as much of `w` as fits and is NUL
/// after it.
pub fn fit_to_buffer(w: &[u16], n: usize) -> (r: Vec<u16>)
    ensures
        r@ == fit_buffer(w@, n as nat),
{
    let mut r: Vec<u16> = Vec::new();
    let mut i: usize = 0;
    while i < n
        invariant
            i <= n,
            r@ == fit_buffer(w@, n as nat).take(i as int),
        decreases n - i,
    {
        if i < w.len() {
            r.push(w[i]);
        } else {
            r.push(0);
        }
        i = i + 1;
        assert(r@ =~= fit_buffer(w@, n as nat).take(i as int));
    }
    assert(r@ =~= fit_buffer(w@, n as nat));
    r
}

} // verus!
