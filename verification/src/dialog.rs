//! In-memory Win32 dialog templates (DLGTEMPLATE followed by
//! DLGITEMTEMPLATE entries): the first-run path dialog and the "directory
//! unavailable" notice. Multi-byte fields are little-endian, as on every
//! Windows target.

use vstd::prelude::*;
use crate::dib::le_u32;
use crate::input::{push_utf16, utf16_of, le_units};

verus! {

pub const WS_POPUP: u32 = 0x80000000;
pub const WS_VISIBLE: u32 = 0x10000000;
pub const WS_CAPTION: u32 = 0x00C00000;
pub const WS_SYSMENU: u32 = 0x00080000;
pub const WS_CHILD: u32 = 0x40000000;
pub const WS_BORDER: u32 = 0x00800000;
pub const WS_TABSTOP: u32 = 0x00010000;
pub const DS_MODALFRAME: u32 = 0x80;
pub const DS_CENTER: u32 = 0x800;
pub const DS_SETFONT: u32 = 0x40;
pub const BS_DEFPUSHBUTTON: u32 = 0x01;
pub const ES_AUTOHSCROLL: u32 = 0x80;
pub const SS_ICON: u32 = 0x00000003;

/// Predefined window class atoms.
pub const CLASS_BUTTON: u16 = 0x0080;
pub const CLASS_EDIT: u16 = 0x0081;
pub const CLASS_STATIC: u16 = 0x0082;

/// Control identifiers.
pub const IDOK: u16 = 1;
pub const IDCANCEL: u16 = 2;
pub const EDIT_WIN_DIR: u16 = 101;
pub const EDIT_CONTAINER_DIR: u16 = 102;
pub const IDSUPPRESS: u16 = 101;

/// Resource ordinal of the stock warning icon.
pub const IDI_WARNING: u16 = 103;

/// Style of both dialogs.
pub open spec fn dialog_style() -> u32 {
    WS_POPUP | WS_VISIBLE | WS_CAPTION | WS_SYSMENU | DS_MODALFRAME | DS_CENTER | DS_SETFONT
}

/// Little-endian bytes of a `u16`.
pub open spec fn le_u16(x: u16) -> Seq<u8> {
    seq![(x % 256) as u8, (x / 256) as u8]
}

/// Little-endian bytes of an `i16` (two's complement).
pub open spec fn le_i16(x: i16) -> Seq<u8> {
    le_u16(x as u16)
}

/// A NUL-terminated UTF-16 string.
pub open spec fn str16(s: Seq<char>) -> Seq<u8> {
    le_units(utf16_of(s).push(0u16))
}

/// `b` padded with zero bytes to a multiple of four.
pub open spec fn align4(b: Seq<u8>) -> Seq<u8> {
    b + Seq::new(((4 - b.len() % 4) % 4) as nat, |_i: int| 0u8)
}

/// The DLGTEMPLATE header with its menu, class, caption and font.
pub open spec fn dlg_header(items: u16, x: i16, y: i16, cx: i16, cy: i16, title: Seq<char>) -> Seq<u8> {
    le_u32(dialog_style()) + le_u32(0) + le_u16(items) + le_i16(x) + le_i16(y) + le_i16(cx)
        + le_i16(cy) + le_u16(0) + le_u16(0) + str16(title) + le_u16(9) + str16("Segoe UI"@)
}

/// One DLGITEMTEMPLATE: style, extended style, rectangle, id, predefined
/// class, the given title field, and empty creation data.
pub open spec fn dlg_item(
    style: u32,
    x: i16,
    y: i16,
    cx: i16,
    cy: i16,
    id: u16,
    class: u16,
    title: Seq<u8>,
) -> Seq<u8> {
    le_u32(style) + le_u32(0) + le_i16(x) + le_i16(y) + le_i16(cx) + le_i16(cy) + le_u16(id)
        + le_u16(0xFFFF) + le_u16(class) + title + le_u16(0)
}

/// An item appended to a template: first aligned, then the item.
pub open spec fn with_item(b: Seq<u8>, item: Seq<u8>) -> Seq<u8> {
    align4(b) + item
}

/// The first-run dialog: an explanation, the Windows-side label and edit
/// box, a mapping note, the container-side label and edit box, OK and
/// Cancel.
pub open spec fn first_run_template() -> Seq<u8> {
    let label = WS_CHILD | WS_VISIBLE;
    let edit = WS_CHILD | WS_VISIBLE | WS_BORDER | WS_TABSTOP | ES_AUTOHSCROLL;
    let h = dlg_header(8, 0, 0, 280, 120, "clipImg - 路径配置"@);
    let b1 = with_item(h, dlg_item(label, 7, 5, 260, 10, 0, CLASS_STATIC, str16("以下两个路径指向同一个物理目录（WSL2 挂载）"@)));
    let b2 = with_item(b1, dlg_item(label, 7, 20, 260, 10, 0, CLASS_STATIC, str16("Windows 侧（程序实际写入）："@)));
    let b3 = with_item(b2, dlg_item(edit, 7, 33, 260, 14, EDIT_WIN_DIR, CLASS_EDIT, le_u16(0)));
    let b4 = with_item(b3, dlg_item(label, 105, 50, 60, 10, 0, CLASS_STATIC, str16("↕ 挂载映射"@)));
    let b5 = with_item(b4, dlg_item(label, 7, 63, 260, 10, 0, CLASS_STATIC, str16("容器侧（粘贴到终端的路径）："@)));
    let b6 = with_item(b5, dlg_item(edit, 7, 76, 260, 14, EDIT_CONTAINER_DIR, CLASS_EDIT, le_u16(0)));
    let b7 = with_item(b6, dlg_item(WS_CHILD | WS_VISIBLE | WS_TABSTOP | BS_DEFPUSHBUTTON, 170, 98, 50, 14, IDOK, CLASS_BUTTON, str16("确定"@)));
    with_item(b7, dlg_item(WS_CHILD | WS_VISIBLE | WS_TABSTOP, 225, 98, 50, 14, IDCANCEL, CLASS_BUTTON, str16("取消"@)))
}

/// The "directory unavailable" notice: a warning icon, the message, OK
/// and "do not remind again".
pub open spec fn unavailable_template(msg: Seq<char>) -> Seq<u8> {
    let h = dlg_header(4, 0, 0, 300, 110, "clipImg"@);
    let b1 = with_item(h, dlg_item(WS_CHILD | WS_VISIBLE | SS_ICON, 10, 12, 32, 32, 0, CLASS_STATIC, le_u16(0xFFFF) + le_u16(IDI_WARNING)));
    let b2 = with_item(b1, dlg_item(WS_CHILD | WS_VISIBLE, 50, 10, 240, 55, 0, CLASS_STATIC, str16(msg)));
    let b3 = with_item(b2, dlg_item(WS_CHILD | WS_VISIBLE | WS_TABSTOP | BS_DEFPUSHBUTTON, 145, 80, 60, 20, IDOK, CLASS_BUTTON, str16("确定"@)));
    with_item(b3, dlg_item(WS_CHILD | WS_VISIBLE | WS_TABSTOP, 210, 80, 75, 20, IDSUPPRESS, CLASS_BUTTON, str16("不再提醒"@)))
}

fn push_u32(b: &mut Vec<u8>, x: u32)
    ensures
        final(b)@ == old(b)@ + le_u32(x),
{
    b.push((x % 256) as u8);
    b.push(((x / 256) % 256) as u8);
    b.push(((x / 65536) % 256) as u8);
    b.push((x / 16777216) as u8);
    assert(b@ =~= old(b)@ + le_u32(x));
}

fn push_u16(b: &mut Vec<u8>, x: u16)
    ensures
        final(b)@ == old(b)@ + le_u16(x),
{
    b.push((x % 256) as u8);
    b.push((x / 256) as u8);
    assert(b@ =~= old(b)@ + le_u16(x));
}

fn push_i16(b: &mut Vec<u8>, x: i16)
    ensures
        final(b)@ == old(b)@ + le_i16(x),
{
    push_u16(b, x as u16);
}

fn push_str16(b: &mut Vec<u8>, s: &str)
    ensures
        final(b)@ == old(b)@ + str16(s@),
{
    let mut units: Vec<u16> = Vec::new();
    push_utf16(&mut units, s);
    units.push(0u16);
    let ghost start = b@;
    let mut i: usize = 0;
    while i < units.len()
        invariant
            i <= units.len(),
            b@ == start + le_units(units@.take(i as int)),
        decreases units.len() - i,
    {
        push_u16(b, units[i]);
        assert(units@.take(i + 1).drop_last() =~= units@.take(i as int));
        assert(b@ =~= start + le_units(units@.take(i + 1)));
        i = i + 1;
    }
    assert(units@.take(units.len() as int) =~= units@);
    assert(units@ =~= utf16_of(s@).push(0u16));
}

fn align4_vec(b: &mut Vec<u8>)
    ensures
        final(b)@ == align4(old(b)@),
{
    let ghost start = b@;
    let ghost pad = ((4 - start.len() % 4) % 4) as nat;
    while b.len() % 4 != 0
        invariant
            start.len() <= b@.len() <= start.len() + pad,
            b@ == start + Seq::new((b@.len() - start.len()) as nat, |_i: int| 0u8),
            b@.len() % 4 == 0 ==> b@.len() == start.len() + pad,
            pad == ((4 - start.len() % 4) % 4) as nat,
        decreases start.len() + pad - b@.len(),
    {
        b.push(0u8);
        assert(b@ =~= start + Seq::new((b@.len() - start.len()) as nat, |_i: int| 0u8));
    }
    assert(b@ =~= align4(start));
}

fn push_header(b: &mut Vec<u8>, items: u16, x: i16, y: i16, cx: i16, cy: i16, title: &str)
    ensures
        final(b)@ == old(b)@ + dlg_header(items, x, y, cx, cy, title@),
{
    push_u32(b, WS_POPUP | WS_VISIBLE | WS_CAPTION | WS_SYSMENU | DS_MODALFRAME | DS_CENTER | DS_SETFONT);
    push_u32(b, 0);
    push_u16(b, items);
    push_i16(b, x);
    push_i16(b, y);
    push_i16(b, cx);
    push_i16(b, cy);
    push_u16(b, 0);
    push_u16(b, 0);
    push_str16(b, title);
    push_u16(b, 9);
    push_str16(b, "Segoe UI");
    assert(b@ =~= old(b)@ + dlg_header(items, x, y, cx, cy, title@));
}

/// Aligns, then writes an item's fixed part: everything before its title.
fn push_item_start(b: &mut Vec<u8>, style: u32, x: i16, y: i16, cx: i16, cy: i16, id: u16, class: u16)
    ensures
        final(b)@ == align4(old(b)@) + le_u32(style) + le_u32(0) + le_i16(x) + le_i16(y) + le_i16(cx)
            + le_i16(cy) + le_u16(id) + le_u16(0xFFFF) + le_u16(class),
{
    align4_vec(b);
    push_u32(b, style);
    push_u32(b, 0);
    push_i16(b, x);
    push_i16(b, y);
    push_i16(b, cx);
    push_i16(b, cy);
    push_u16(b, id);
    push_u16(b, 0xFFFF);
    push_u16(b, class);
}

/// Appends an item whose title is text.
fn push_text_item(b: &mut Vec<u8>, style: u32, x: i16, y: i16, cx: i16, cy: i16, id: u16, class: u16, title: &str)
    ensures
        final(b)@ == with_item(old(b)@, dlg_item(style, x, y, cx, cy, id, class, str16(title@))),
{
    push_item_start(b, style, x, y, cx, cy, id, class);
    push_str16(b, title);
    push_u16(b, 0);
    assert(b@ =~= with_item(old(b)@, dlg_item(style, x, y, cx, cy, id, class, str16(title@))));
}

/// Appends an item with an empty title.
fn push_untitled_item(b: &mut Vec<u8>, style: u32, x: i16, y: i16, cx: i16, cy: i16, id: u16, class: u16)
    ensures
        final(b)@ == with_item(old(b)@, dlg_item(style, x, y, cx, cy, id, class, le_u16(0))),
{
    push_item_start(b, style, x, y, cx, cy, id, class);
    push_u16(b, 0);
    push_u16(b, 0);
    assert(b@ =~= with_item(old(b)@, dlg_item(style, x, y, cx, cy, id, class, le_u16(0))));
}

/// Appends an item whose title is a resource ordinal.
fn push_ordinal_item(b: &mut Vec<u8>, style: u32, x: i16, y: i16, cx: i16, cy: i16, id: u16, class: u16, ordinal: u16)
    ensures
        final(b)@ == with_item(old(b)@, dlg_item(style, x, y, cx, cy, id, class, le_u16(0xFFFF) + le_u16(ordinal))),
{
    push_item_start(b, style, x, y, cx, cy, id, class);
    push_u16(b, 0xFFFF);
    push_u16(b, ordinal);
    push_u16(b, 0);
    assert(b@ =~= with_item(old(b)@, dlg_item(style, x, y, cx, cy, id, class, le_u16(0xFFFF) + le_u16(ordinal))));
}

/// The template of the first-run dialog that confirms the two directories.
pub fn build_template() -> (r: Vec<u8>)
    ensures
        r@ == first_run_template(),
{
    let label = WS_CHILD | WS_VISIBLE;
    let edit = WS_CHILD | WS_VISIBLE | WS_BORDER | WS_TABSTOP | ES_AUTOHSCROLL;
    let mut b: Vec<u8> = Vec::new();
    push_header(&mut b, 8, 0, 0, 280, 120, "clipImg - 路径配置");
    assert(b@ =~= dlg_header(8, 0, 0, 280, 120, "clipImg - 路径配置"@));
    push_text_item(&mut b, label, 7, 5, 260, 10, 0, CLASS_STATIC, "以下两个路径指向同一个物理目录（WSL2 挂载）");
    push_text_item(&mut b, label, 7, 20, 260, 10, 0, CLASS_STATIC, "Windows 侧（程序实际写入）：");
    push_untitled_item(&mut b, edit, 7, 33, 260, 14, EDIT_WIN_DIR, CLASS_EDIT);
    push_text_item(&mut b, label, 105, 50, 60, 10, 0, CLASS_STATIC, "↕ 挂载映射");
    push_text_item(&mut b, label, 7, 63, 260, 10, 0, CLASS_STATIC, "容器侧（粘贴到终端的路径）：");
    push_untitled_item(&mut b, edit, 7, 76, 260, 14, EDIT_CONTAINER_DIR, CLASS_EDIT);
    push_text_item(&mut b, WS_CHILD | WS_VISIBLE | WS_TABSTOP | BS_DEFPUSHBUTTON, 170, 98, 50, 14, IDOK, CLASS_BUTTON, "确定");
    push_text_item(&mut b, WS_CHILD | WS_VISIBLE | WS_TABSTOP, 225, 98, 50, 14, IDCANCEL, CLASS_BUTTON, "取消");
    b
}

/// The template of the notice shown when the capture directory cannot be
/// reached, carrying `msg`.
pub fn unavailable_dialog_template(msg: &str) -> (r: Vec<u8>)
    ensures
        r@ == unavailable_template(msg@),
{
    let mut b: Vec<u8> = Vec::new();
    push_header(&mut b, 4, 0, 0, 300, 110, "clipImg");
    assert(b@ =~= dlg_header(4, 0, 0, 300, 110, "clipImg"@));
    push_ordinal_item(&mut b, WS_CHILD | WS_VISIBLE | SS_ICON, 10, 12, 32, 32, 0, CLASS_STATIC, IDI_WARNING);
    push_text_item(&mut b, WS_CHILD | WS_VISIBLE, 50, 10, 240, 55, 0, CLASS_STATIC, msg);
    push_text_item(&mut b, WS_CHILD | WS_VISIBLE | WS_TABSTOP | BS_DEFPUSHBUTTON, 145, 80, 60, 20, IDOK, CLASS_BUTTON, "确定");
    push_text_item(&mut b, WS_CHILD | WS_VISIBLE | WS_TABSTOP, 210, 80, 75, 20, IDSUPPRESS, CLASS_BUTTON, "不再提醒");
    b
}

} // verus!
