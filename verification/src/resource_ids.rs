use vstd::prelude::*;

verus! {

/// Application icon.
pub const IDI_RETROPAD: u16 = 107;
/// Main menu and accelerator table.
pub const IDC_RETROPAD: u16 = 109;
/// About dialog.
pub const IDD_ABOUT: u16 = 103;
/// Go To Line dialog.
pub const IDD_GOTO: u16 = 104;
/// Line number field of the Go To Line dialog.
pub const IDC_GOTO_EDIT: u16 = 1001;

pub const IDM_FILE_NEW: u16 = 40001;
pub const IDM_FILE_OPEN: u16 = 40002;
pub const IDM_FILE_SAVE: u16 = 40003;
pub const IDM_FILE_SAVE_AS: u16 = 40004;
pub const IDM_FILE_PAGE_SETUP: u16 = 40005;
pub const IDM_FILE_PRINT: u16 = 40006;
pub const IDM_FILE_EXIT: u16 = 40007;

pub const IDM_EDIT_UNDO: u16 = 40010;
pub const IDM_EDIT_CUT: u16 = 40011;
pub const IDM_EDIT_COPY: u16 = 40012;
pub const IDM_EDIT_PASTE: u16 = 40013;
pub const IDM_EDIT_DELETE: u16 = 40014;
pub const IDM_EDIT_FIND: u16 = 40015;
pub const IDM_EDIT_FIND_NEXT: u16 = 40016;
pub const IDM_EDIT_REPLACE: u16 = 40017;
pub const IDM_EDIT_GOTO: u16 = 40018;
pub const IDM_EDIT_SELECT_ALL: u16 = 40019;
pub const IDM_EDIT_TIME_DATE: u16 = 40020;

pub const IDM_FORMAT_WORD_WRAP: u16 = 40030;
pub const IDM_FORMAT_FONT: u16 = 40031;

pub const IDM_VIEW_STATUS_BAR: u16 = 40040;

pub const IDM_HELP_VIEW_HELP: u16 = 40050;
pub const IDM_HELP_ABOUT: u16 = 40051;

} // verus!
