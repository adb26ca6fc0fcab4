use vstd::prelude::*;
use crate::file_io::TextEncoding;
use crate::search::{find_in_edit, opt_pair, replace_all_occurrences, spec_find_in_edit, spec_replace_all};
use crate::text::{decimal, digits, push_decimal, push_digits, push_str};
use crate::unicode::{
    chars_of, decode_utf16_lossy, encode_utf16, is_surrogate, lemma_decode_encode_prefix, string_from_chars,
    string_from_utf16, string_from_utf16_lossy, valid_utf16,
};
use crate::win32::{
    fit_buffer, fit_to_buffer, string_from_wide_lossy, until_nul, wide_from_str, EM_UNDO, EN_CHANGE, EN_UPDATE,
    ES_AUTOHSCROLL, ES_AUTOVSCROLL, ES_MULTILINE, ES_NOHIDESEL, ES_WANTRETURN, FR_DIALOGTERM, FR_DOWN, FR_FINDNEXT, FR_MATCHCASE, FR_REPLACE,
    FR_REPLACEALL, HFONT, HWND, IDCANCEL, IDNO, IDOK, IDYES, MF_CHECKED, MF_ENABLED, MF_GRAYED, MF_UNCHECKED, MSG,
    RECT, WM_CLEAR, WM_CLOSE, WM_COMMAND, WM_COPY, WM_CREATE, WM_CUT, WM_DESTROY, WM_DROPFILES, WM_INITDIALOG,
    WM_INITMENUPOPUP, WM_PASTE, WM_SETFOCUS, WM_SIZE, WS_CHILD, WS_HSCROLL, WS_VISIBLE, WS_VSCROLL,
};
use crate::resource_ids::{
    IDM_EDIT_COPY, IDM_EDIT_CUT, IDM_EDIT_DELETE, IDM_EDIT_FIND, IDM_EDIT_FIND_NEXT, IDM_EDIT_GOTO, IDM_EDIT_PASTE,
    IDM_EDIT_REPLACE, IDM_EDIT_SELECT_ALL, IDM_EDIT_TIME_DATE, IDM_EDIT_UNDO, IDM_FILE_EXIT, IDM_FILE_NEW,
    IDM_FILE_OPEN, IDM_FILE_PAGE_SETUP, IDM_FILE_PRINT, IDM_FILE_SAVE, IDM_FILE_SAVE_AS, IDM_FORMAT_FONT,
    IDM_FORMAT_WORD_WRAP, IDM_HELP_ABOUT, IDM_HELP_VIEW_HELP, IDM_VIEW_STATUS_BAR,
};

verus! {

broadcast use vstd::seq::group_seq_axioms;

/// Name of the application, shown in every window title.
pub const APP_TITLE: &'static str = "retropad";
/// Name shown for a document that has never been saved.
pub const UNTITLED_NAME: &'static str = "Untitled";
/// Length, in UTF-16 units, of the buffer a dropped file's path is read into.
pub const MAX_PATH_BUFFER: usize = 1024;
/// Initial width of the main window.
pub const DEFAULT_WIDTH: i32 = 640;
/// Initial height of the main window.
pub const DEFAULT_HEIGHT: i32 = 480;

/// Length, in UTF-16 units, of the find and replace text buffers.
pub const FIND_BUFFER_LEN: usize = 128;
/// Shown for the printing commands.
pub const PRINTING_NOTICE: &'static str = "Printing is not implemented in retropad.";
/// Shown for View Help.
pub const NO_HELP_NOTICE: &'static str = "No help file is available for retropad.";
/// Shown for Go To while word wrap is on.
pub const GOTO_UNAVAILABLE_NOTICE: &'static str = "Go To is unavailable when Word Wrap is on.";
/// Shown when the Go To dialog holds no usable line number.
pub const INVALID_LINE_NOTICE: &'static str = "Enter a valid line number.";
/// Shown when a search finds nothing.
pub const NOT_FOUND_NOTICE: &'static str = "Cannot find the text.";

/// The text buffers shared with the system's Find and Replace dialogs.
#[derive(Debug)]
pub struct FindReplaceData {
    pub find_text: Vec<u16>,
    pub replace_text: Vec<u16>,
}

/// Everything the main window remembers between messages.
pub struct AppState {
    pub hwnd_main: HWND,
    pub hwnd_edit: HWND,
    pub hwnd_status: HWND,
    pub hfont: HFONT,
    pub current_path: String,
    pub word_wrap: bool,
    pub status_visible: bool,
    pub status_before_wrap: bool,
    pub modified: bool,
    pub encoding: TextEncoding,
    pub find_flags: u32,
    pub hfind_dlg: HWND,
    pub hreplace_dlg: HWND,
    pub find_replace_data: Option<FindReplaceData>,
}

impl Default for AppState {
    fn default() -> (r: AppState)
        ensures
            r.hwnd_main == 0,
            r.hwnd_edit == 0,
            r.hwnd_status == 0,
            r.hfont == 0,
            r.current_path@ == Seq::<char>::empty(),
            !r.word_wrap,
            r.status_visible,
            r.status_before_wrap,
            !r.modified,
            r.encoding == TextEncoding::Utf8,
            r.find_flags == FR_DOWN,
            r.hfind_dlg == 0,
            r.hreplace_dlg == 0,
            r.find_replace_data is None,
    {
        AppState {
            hwnd_main: 0,
            hwnd_edit: 0,
            hwnd_status: 0,
            hfont: 0,
            current_path: String::new(),
            word_wrap: false,
            status_visible: true,
            status_before_wrap: true,
            modified: false,
            encoding: TextEncoding::Utf8,
            find_flags: FR_DOWN,
            hfind_dlg: 0,
            hreplace_dlg: 0,
            find_replace_data: None,
        }
    }
}

/// The window handles and the font are the same in both states.
pub open spec fn same_handles(a: AppState, b: AppState) -> bool {
    &&& a.hwnd_main == b.hwnd_main
    &&& a.hwnd_edit == b.hwnd_edit
    &&& a.hwnd_status == b.hwnd_status
    &&& a.hfont == b.hfont
}

/// The document (its path, encoding and modified flag) is the same in both states.
pub open spec fn same_document(a: AppState, b: AppState) -> bool {
    &&& a.current_path@ == b.current_path@
    &&& a.modified == b.modified
    &&& a.encoding == b.encoding
}

/// Word wrap and the status bar are the same in both states.
pub open spec fn same_view(a: AppState, b: AppState) -> bool {
    &&& a.word_wrap == b.word_wrap
    &&& a.status_visible == b.status_visible
    &&& a.status_before_wrap == b.status_before_wrap
}

/// The search settings, dialogs and their buffers are the same in both states.
pub open spec fn same_search(a: AppState, b: AppState) -> bool {
    &&& a.find_flags == b.find_flags
    &&& a.hfind_dlg == b.hfind_dlg
    &&& a.hreplace_dlg == b.hreplace_dlg
    &&& a.find_replace_data == b.find_replace_data
}

/// The view of an optional string.
pub open spec fn opt_text(o: Option<String>) -> Option<Seq<char>> {
    match o {
        Some(s) => Some(s@),
        None => None,
    }
}

/// A path separator on some platform, or a dot.
pub open spec fn is_separator_or_dot(c: char) -> bool {
    c == '/' || c == '\\' || c == '.'
}

/// The path has the verbatim prefix `\\?\`, under which '/' separates nothing.
pub open spec fn has_verbatim_prefix(path: Seq<char>) -> bool {
    path.len() >= 4 && path.take(4) == seq!['\\', '\\', '?', '\\']
}

/// What `Path::file_name` can give for `path` on every platform: a non-empty
/// run of the path's characters other than "." and "..", that starts the path
/// or follows a '/', '\' or ':', that only separators and dots follow, and that
/// holds a '/' only under the verbatim prefix.
pub open spec fn is_file_name_of(path: Seq<char>, name: Seq<char>) -> bool {
    &&& name.len() > 0
    &&& name != seq!['.']
    &&& name != seq!['.', '.']
    &&& name.contains('/') ==> has_verbatim_prefix(path)
    &&& exists|i: int|
        0 <= i && i + name.len() <= path.len() && #[trigger] path.subrange(i, i + name.len()) == name && (i == 0
            || path[i - 1] == '/' || path[i - 1] == '\\' || path[i - 1] == ':') && forall|j: int|
            i + name.len() <= j < path.len() ==> is_separator_or_dot(path[j])
}

/// A path that has a file name on every platform: it neither starts with a
/// separator nor ends with a separator, a dot or a ':'.
pub open spec fn surely_named(path: Seq<char>) -> bool {
    &&& path.len() > 0
    &&& path[0] != '/' && path[0] != '\\'
    &&& !is_separator_or_dot(path.last())
    &&& path.last() != ':'
}

/// A separator in the path syntax of Unix-like platforms (`windows` false) or
/// of Windows (`windows` true).
pub open spec fn is_platform_separator(c: char, windows: bool) -> bool {
    c == '/' || (windows && c == '\\')
}

/// Where the path's last segment starts: just after its last separator in the
/// given syntax, or at the start when it has none.
pub open spec fn last_segment_start(path: Seq<char>, windows: bool) -> int
    decreases path.len(),
{
    if path.len() == 0 {
        0
    } else if is_platform_separator(path.last(), windows) {
        path.len() as int
    } else {
        last_segment_start(path.drop_last(), windows)
    }
}

/// The path's characters after its last separator in the given syntax.
pub open spec fn last_segment(path: Seq<char>, windows: bool) -> Seq<char> {
    path.skip(last_segment_start(path, windows))
}

/// A path whose file name is its last segment in either syntax: it neither
/// starts with a separator nor ends with a separator or a dot, and its last
/// segment in the Windows syntax holds no ':' (so no drive prefix reaches it).
pub open spec fn plain_last_segment(path: Seq<char>) -> bool {
    &&& path.len() > 0
    &&& path[0] != '/' && path[0] != '\\'
    &&& !is_separator_or_dot(path.last())
    &&& !last_segment(path, true).contains(':')
}

/// What holds of `Path::file_name`'s result for `path` on every platform: a
/// name is one (see `is_file_name_of`), a surely named path has one, and for a
/// plain path it is the last segment in the Unix-like or the Windows syntax.
pub open spec fn file_name_outcome(path: Seq<char>, name: Option<Seq<char>>) -> bool {
    &&& name matches Some(n) ==> is_file_name_of(path, n)
    &&& surely_named(path) ==> name is Some
    &&& plain_last_segment(path) ==> (name == Some(last_segment(path, false)) || name == Some(
        last_segment(path, true),
    ))
}

/// `Path::file_name` of a path, as text: the path's last component, or `None`
/// when it has none (it ends in "..", or is only a root or prefix). Which
/// component that is follows the path syntax of the platform the program is
/// built for ('\' and a drive's ':' count on Windows only), so the contract
/// states what holds on every platform (see `file_name_outcome`); which of the
/// runs allowed there it is, is left unsaid.
#[verifier::external_body]
fn path_file_name(path: &str) -> (r: Option<String>)
    ensures
        file_name_outcome(path@, opt_text(r)),
{
    std::path::Path::new(path).file_name().and_then(|n| n.to_str()).map(|n| n.to_string())
}

/// The name a document is shown under: "Untitled" when it has no path, else the
/// path's file name, or the whole path when it has none.
pub open spec fn display_name(path: Seq<char>, file_name: Option<Seq<char>>) -> Seq<char> {
    if path.len() == 0 {
        UNTITLED_NAME@
    } else {
        match file_name {
            Some(n) => n,
            None => path,
        }
    }
}

/// A window title: a '*' when the document is modified, its name, " - " and the
/// application's name.
pub open spec fn title_text(modified: bool, name: Seq<char>) -> Seq<char> {
    (if modified {
        seq!['*']
    } else {
        Seq::<char>::empty()
    }) + name + " - "@ + APP_TITLE@
}

/// The window title for a document at `current_path` whose file name came out
/// as `file_name`.
pub fn title_for(modified: bool, current_path: &str, file_name: Option<String>) -> (r: String)
    ensures
        r@ == title_text(modified, display_name(current_path@, opt_text(file_name))),
{
    let mut out: Vec<char> = Vec::new();
    if modified {
        out.push('*');
    }
    if current_path.is_empty() {
        push_str(&mut out, UNTITLED_NAME);
    } else {
        match file_name {
            Some(n) => push_str(&mut out, n.as_str()),
            None => push_str(&mut out, current_path),
        }
    }
    push_str(&mut out, " - ");
    push_str(&mut out, APP_TITLE);
    assert(out@ =~= title_text(modified, display_name(current_path@, opt_text(file_name))));
    string_from_chars(out.as_slice())
}

impl AppState {
    /// The main window's title: "Untitled", or else the document's file name
    /// as `Path::file_name` gives it (the whole path when it has none), after a
    /// '*' when modified, then " - retropad".
    pub fn window_title(&self) -> (r: String)
        ensures
            self.current_path@.len() == 0 ==> r@ == title_text(self.modified, UNTITLED_NAME@),
            self.current_path@.len() > 0 ==> exists|name: Option<Seq<char>>|
                file_name_outcome(self.current_path@, name) && r@ == title_text(
                    self.modified,
                    display_name(self.current_path@, name),
                ),
            plain_last_segment(self.current_path@) ==> r@ == title_text(
                self.modified,
                last_segment(self.current_path@, false),
            ) || r@ == title_text(self.modified, last_segment(self.current_path@, true)),
    {
        let name = if self.current_path.as_str().is_empty() {
            None
        } else {
            path_file_name(self.current_path.as_str())
        };
        let r = title_for(self.modified, self.current_path.as_str(), name);
        proof {
            if self.current_path@.len() > 0 {
                assert(file_name_outcome(self.current_path@, opt_text(name)));
            }
        }
        r
    }
}

/// The question asked before a modified document is abandoned.
pub open spec fn save_prompt_text(name: Seq<char>) -> Seq<char> {
    "Do you want to save changes to "@ + name + "?"@
}

/// The name a document is asked about: its full path, or "Untitled".
pub open spec fn prompt_name(path: Seq<char>) -> Seq<char> {
    if path.len() == 0 {
        UNTITLED_NAME@
    } else {
        path
    }
}

/// What the user answered to the question whether to save changes.
#[derive(Clone, Copy, PartialEq, Eq, Structural, Debug)]
pub enum SaveAnswer {
    Save,
    Discard,
    Cancel,
}

/// The answer a message box result stands for: Yes saves, No discards, anything
/// else cancels.
pub fn save_answer(result: i32) -> (r: SaveAnswer)
    ensures
        result == IDYES ==> r == SaveAnswer::Save,
        result == IDNO ==> r == SaveAnswer::Discard,
        result != IDYES && result != IDNO ==> r == SaveAnswer::Cancel,
{
    if result == IDYES {
        SaveAnswer::Save
    } else if result == IDNO {
        SaveAnswer::Discard
    } else {
        SaveAnswer::Cancel
    }
}

/// Where a document is saved: at a path already known, or at one the user
/// picks in the Save As dialog.
#[derive(PartialEq, Eq, Debug)]
pub enum SaveTarget {
    Path(String),
    AskUser,
}

/// The path a File Open goes on to load: the one the dialog gave, provided the
/// question about unsaved changes let the command go on.
pub fn do_file_open(proceed: bool, chosen: Option<String>) -> (r: Option<String>)
    ensures
        r == (if proceed {
            chosen
        } else {
            None
        }),
{
    if proceed {
        chosen
    } else {
        None
    }
}

/// The state of the Format and View menu items and of File Save.
#[derive(Clone, Copy, PartialEq, Eq, Structural, Debug)]
pub struct MenuStates {
    pub word_wrap_check: u32,
    pub status_bar_check: u32,
    pub goto_enable: u32,
    pub status_bar_enable: u32,
    pub save_enable: u32,
}

/// The menu states for the given view: Word Wrap and Status Bar are checked
/// when on; Go To and Status Bar are grayed while Word Wrap is on; Save is
/// enabled only for a modified document.
pub fn menu_states(word_wrap: bool, status_visible: bool, modified: bool) -> (r: MenuStates)
    ensures
        r.word_wrap_check == (if word_wrap {
            MF_CHECKED
        } else {
            MF_UNCHECKED
        }),
        r.status_bar_check == (if status_visible {
            MF_CHECKED
        } else {
            MF_UNCHECKED
        }),
        r.goto_enable == (if word_wrap {
            MF_GRAYED
        } else {
            MF_ENABLED
        }),
        r.status_bar_enable == (if word_wrap {
            MF_GRAYED
        } else {
            MF_ENABLED
        }),
        r.save_enable == (if modified {
            MF_ENABLED
        } else {
            MF_GRAYED
        }),
{
    MenuStates {
        word_wrap_check: if word_wrap {
            MF_CHECKED
        } else {
            MF_UNCHECKED
        },
        status_bar_check: if status_visible {
            MF_CHECKED
        } else {
            MF_UNCHECKED
        },
        goto_enable: if word_wrap {
            MF_GRAYED
        } else {
            MF_ENABLED
        },
        status_bar_enable: if word_wrap {
            MF_GRAYED
        } else {
            MF_ENABLED
        },
        save_enable: if modified {
            MF_ENABLED
        } else {
            MF_GRAYED
        },
    }
}

/// Word wrap, status bar visibility, and whether the status bar comes back
/// when word wrap is turned off.
pub open spec fn view_state(s: AppState) -> (bool, bool, bool) {
    (s.word_wrap, s.status_visible, s.status_before_wrap)
}

/// The view after word wrap is set to `enabled`: nothing changes when it
/// already is; turning it on hides the status bar and remembers whether it was
/// shown; turning it off shows or hides it as remembered.
pub open spec fn wrapped_view(v: (bool, bool, bool), enabled: bool) -> (bool, bool, bool) {
    if v.0 == enabled {
        v
    } else if enabled {
        (true, false, v.1)
    } else {
        (false, v.2, v.2)
    }
}

/// While word wrap is on the status bar is hidden, and turning word wrap off
/// again restores the status bar to what it was before: shown if it was shown,
/// hidden if it was hidden.
pub proof fn lemma_wrap_hides_then_restores_status_bar(v: (bool, bool, bool))
    requires
        !v.0,
    ensures
        wrapped_view(v, true).0,
        !wrapped_view(v, true).1,
        !wrapped_view(wrapped_view(v, true), false).0,
        wrapped_view(wrapped_view(v, true), false).1 == v.1,
{
}

/// Setting word wrap to what it already is changes nothing.
pub proof fn lemma_wrap_setting_is_idempotent(v: (bool, bool, bool), enabled: bool)
    ensures
        wrapped_view(wrapped_view(v, enabled), enabled) == wrapped_view(v, enabled),
{
}

/// What switching word wrap leaves to be done on screen: the status bar shown
/// or hidden, and the Status Bar and Go To menu items enabled or grayed.
#[derive(Clone, Copy, PartialEq, Eq, Structural, Debug)]
pub struct WrapChange {
    pub status_visible: bool,
    pub menu_enable: u32,
}

impl AppState {
    /// The question to ask before the document is abandoned, or `None` when it
    /// has no unsaved changes.
    pub fn save_prompt(&self) -> (r: Option<String>)
        ensures
            !self.modified ==> r is None,
            self.modified ==> (r matches Some(p) && p@ == save_prompt_text(prompt_name(self.current_path@))),
    {
        if !self.modified {
            return None;
        }
        let mut out: Vec<char> = Vec::new();
        push_str(&mut out, "Do you want to save changes to ");
        if self.current_path.as_str().is_empty() {
            push_str(&mut out, UNTITLED_NAME);
        } else {
            push_str(&mut out, self.current_path.as_str());
        }
        push_str(&mut out, "?");
        assert(out@ =~= save_prompt_text(prompt_name(self.current_path@)));
        Some(string_from_chars(out.as_slice()))
    }

    /// Where File Save writes: the document's own path, unless it has none or
    /// Save As was chosen, in which case the user picks one.
    pub fn save_target(&self, save_as: bool) -> (r: SaveTarget)
        ensures
            save_as || self.current_path@.len() == 0 ==> r == SaveTarget::AskUser,
            !save_as && self.current_path@.len() > 0 ==> (r matches SaveTarget::Path(p) && p@
                == self.current_path@),
    {
        if save_as || self.current_path.as_str().is_empty() {
            SaveTarget::AskUser
        } else {
            SaveTarget::Path(self.current_path.clone())
        }
    }

    /// Records a document read from `path` in `encoding`, not modified.
    pub fn document_loaded(&mut self, path: &str, encoding: TextEncoding)
        ensures
            final(self).current_path@ == path@,
            final(self).encoding == encoding,
            !final(self).modified,
            same_handles(*final(self), *old(self)),
            same_view(*final(self), *old(self)),
            same_search(*final(self), *old(self)),
    {
        self.current_path = path.to_owned();
        self.encoding = encoding;
        self.modified = false;
    }

    /// Records that the document was written to `path`: that is now its path,
    /// and it is no longer modified.
    pub fn document_saved(&mut self, path: &str)
        ensures
            final(self).current_path@ == path@,
            final(self).encoding == old(self).encoding,
            !final(self).modified,
            same_handles(*final(self), *old(self)),
            same_view(*final(self), *old(self)),
            same_search(*final(self), *old(self)),
    {
        self.current_path = path.to_owned();
        self.modified = false;
    }

    /// Starts a new, empty document: no path, UTF-8, not modified.
    pub fn new_document(&mut self)
        ensures
            final(self).current_path@ == Seq::<char>::empty(),
            final(self).encoding == TextEncoding::Utf8,
            !final(self).modified,
            same_handles(*final(self), *old(self)),
            same_view(*final(self), *old(self)),
            same_search(*final(self), *old(self)),
    {
        self.current_path = String::new();
        self.encoding = TextEncoding::Utf8;
        self.modified = false;
    }

    /// Takes a newly created font for the edit control; gives back the font it
    /// replaces, which is then no longer used. A font that failed to be created
    /// (handle 0) changes nothing.
    pub fn replace_font(&mut self, new_font: HFONT) -> (r: Option<HFONT>)
        ensures
            new_font == 0 ==> r is None && final(self).hfont == old(self).hfont,
            new_font != 0 ==> final(self).hfont == new_font && r == (if old(self).hfont != 0 {
                Some(old(self).hfont)
            } else {
                None
            }),
            final(self).hwnd_main == old(self).hwnd_main,
            final(self).hwnd_edit == old(self).hwnd_edit,
            final(self).hwnd_status == old(self).hwnd_status,
            same_document(*final(self), *old(self)),
            same_view(*final(self), *old(self)),
            same_search(*final(self), *old(self)),
    {
        if new_font == 0 {
            return None;
        }
        let old_font = self.hfont;
        self.hfont = new_font;
        if old_font != 0 {
            Some(old_font)
        } else {
            None
        }
    }

    /// Records the status bar window once it was created; a failed creation
    /// (handle 0) leaves the state as it was.
    pub fn status_bar_created(&mut self, status: HWND)
        ensures
            final(self).hwnd_status == (if status != 0 {
                status
            } else {
                old(self).hwnd_status
            }),
            final(self).hwnd_main == old(self).hwnd_main,
            final(self).hwnd_edit == old(self).hwnd_edit,
            final(self).hfont == old(self).hfont,
            same_document(*final(self), *old(self)),
            same_view(*final(self), *old(self)),
            same_search(*final(self), *old(self)),
    {
        if status != 0 {
            self.hwnd_status = status;
        }
    }

    /// Shows or hides the status bar.
    pub fn set_status_visible(&mut self, visible: bool)
        ensures
            final(self).status_visible == visible,
            final(self).word_wrap == old(self).word_wrap,
            final(self).status_before_wrap == old(self).status_before_wrap,
            same_handles(*final(self), *old(self)),
            same_document(*final(self), *old(self)),
            same_search(*final(self), *old(self)),
    {
        self.status_visible = visible;
    }

    /// Switches word wrap on or off; `None` when it already is so. Turning it on
    /// hides the status bar and grays its menu item and Go To; turning it off
    /// restores the status bar to what it was before and enables both items.
    pub fn set_word_wrap(&mut self, enabled: bool) -> (r: Option<WrapChange>)
        ensures
            view_state(*final(self)) == wrapped_view(view_state(*old(self)), enabled),
            old(self).word_wrap == enabled ==> r is None,
            old(self).word_wrap != enabled ==> r == Some(
                WrapChange {
                    status_visible: final(self).status_visible,
                    menu_enable: if enabled {
                        MF_GRAYED
                    } else {
                        MF_ENABLED
                    },
                },
            ),
            same_handles(*final(self), *old(self)),
            same_document(*final(self), *old(self)),
            same_search(*final(self), *old(self)),
    {
        if self.word_wrap == enabled {
            return None;
        }
        let status_before = self.status_before_wrap;
        self.word_wrap = enabled;
        if enabled {
            self.status_before_wrap = self.status_visible;
            self.status_visible = false;
            Some(WrapChange { status_visible: false, menu_enable: MF_GRAYED })
        } else {
            self.status_visible = status_before;
            Some(WrapChange { status_visible: status_before, menu_enable: MF_ENABLED })
        }
    }
}

/// A character sequence without its trailing NUL characters.
pub open spec fn trim_trailing_nuls(s: Seq<char>) -> Seq<char>
    decreases s.len(),
{
    if s.len() > 0 && s.last() == '\0' {
        trim_trailing_nuls(s.drop_last())
    } else {
        s
    }
}

/// The characters with the NUL characters at their end removed.
pub fn trim_nuls(cs: &[char]) -> (r: Vec<char>)
    ensures
        r@ == trim_trailing_nuls(cs@),
{
    let mut end: usize = cs.len();
    assert(cs@.take(end as int) =~= cs@);
    while end > 0 && cs[end - 1] == '\0'
        invariant
            end <= cs@.len(),
            trim_trailing_nuls(cs@.take(end as int)) == trim_trailing_nuls(cs@),
        decreases end,
    {
        assert(cs@.take(end as int).drop_last() =~= cs@.take(end - 1));
        end = end - 1;
    }
    let mut r: Vec<char> = Vec::new();
    let mut i: usize = 0;
    while i < end
        invariant
            i <= end <= cs@.len(),
            r@ == cs@.take(i as int),
        decreases end - i,
    {
        r.push(cs[i]);
        i = i + 1;
        assert(r@ =~= cs@.take(i as int));
    }
    r
}

/// The text a dialog buffer held last time: its decoded units without trailing
/// NULs, or nothing when they do not decode.
pub open spec fn dialog_text(buf: Seq<u16>) -> Seq<char> {
    if valid_utf16(buf) {
        trim_trailing_nuls(decode_utf16_lossy(buf))
    } else {
        Seq::<char>::empty()
    }
}

/// The find text a new dialog starts with.
pub open spec fn prior_find_text(data: Option<FindReplaceData>) -> Seq<char> {
    match data {
        Some(d) => dialog_text(d.find_text@),
        None => Seq::<char>::empty(),
    }
}

/// The replacement text a new Replace dialog starts with.
pub open spec fn prior_replace_text(data: Option<FindReplaceData>) -> Seq<char> {
    match data {
        Some(d) => dialog_text(d.replace_text@),
        None => Seq::<char>::empty(),
    }
}

proof fn lemma_decode_zeros(k: nat)
    ensures
        decode_utf16_lossy(Seq::new(k, |i: int| 0u16)) == Seq::new(k, |i: int| '\0'),
        valid_utf16(Seq::new(k, |i: int| 0u16)),
    decreases k,
{
    if k > 0 {
        let z = Seq::new(k, |i: int| 0u16);
        let z1 = Seq::new((k - 1) as nat, |i: int| 0u16);
        lemma_decode_zeros((k - 1) as nat);
        assert(z.drop_first() =~= z1);
        assert(!is_surrogate(z[0]));
        assert(decode_utf16_lossy(z) =~= seq!['\0'] + decode_utf16_lossy(z1));
        assert(seq!['\0'] + Seq::new((k - 1) as nat, |i: int| '\0') =~= Seq::new(k, |i: int| '\0'));
    }
}

proof fn lemma_trim_appended_nuls(t: Seq<char>, k: nat)
    requires
        t.len() == 0 || t.last() != '\0',
    ensures
        trim_trailing_nuls(t + Seq::new(k, |i: int| '\0')) == t,
    decreases k,
{
    let s = t + Seq::new(k, |i: int| '\0');
    if k == 0 {
        assert(s =~= t);
    } else {
        assert(s.drop_last() =~= t + Seq::new((k - 1) as nat, |i: int| '\0'));
        lemma_trim_appended_nuls(t, (k - 1) as nat);
    }
}

/// The text a Find or Replace dialog is opened with comes back as the text the
/// next such dialog starts with, and as the text Find Next searches for, as long
/// as it fits the buffer and does not end in NUL.
pub proof fn lemma_dialog_text_round_trip(t: Seq<char>)
    requires
        encode_utf16(t).len() <= FIND_BUFFER_LEN,
        t.len() == 0 || t.last() != '\0',
    ensures
        dialog_text(fit_buffer(encode_utf16(t).push(0), FIND_BUFFER_LEN as nat)) == t,
        trim_trailing_nuls(decode_utf16_lossy(fit_buffer(encode_utf16(t).push(0), FIND_BUFFER_LEN as nat)))
            == t,
{
    let w = encode_utf16(t);
    let k = (FIND_BUFFER_LEN - w.len()) as nat;
    let buf = fit_buffer(w.push(0), FIND_BUFFER_LEN as nat);
    let zeros = Seq::new(k, |i: int| 0u16);
    assert(buf =~= w + zeros);
    lemma_decode_encode_prefix(t, zeros);
    lemma_decode_zeros(k);
    lemma_trim_appended_nuls(t, k);
}

/// The NUL-terminated UTF-16 form of `text`, cut or padded to a dialog buffer.
pub fn dialog_buffer(text: &[char]) -> (r: Vec<u16>)
    ensures
        r@ == fit_buffer(encode_utf16(text@).push(0), FIND_BUFFER_LEN as nat),
{
    let s = string_from_chars(text);
    let w = wide_from_str(s.as_str());
    fit_to_buffer(w.as_slice(), FIND_BUFFER_LEN)
}

/// The text a dialog buffer held last time (see `dialog_text`).
fn text_of_dialog_buffer(buf: &[u16]) -> (r: Vec<char>)
    ensures
        r@ == dialog_text(buf@),
{
    match string_from_utf16(buf) {
        Some(s) => {
            let cs = chars_of(s.as_str());
            trim_nuls(cs.as_slice())
        },
        None => Vec::new(),
    }
}

impl FindReplaceData {
    /// Buffers for a new Find dialog: the previous find text, and an empty
    /// replacement.
    pub fn for_find_dialog(prev: &Option<FindReplaceData>) -> (r: FindReplaceData)
        ensures
            r.find_text@ == fit_buffer(encode_utf16(prior_find_text(*prev)).push(0), FIND_BUFFER_LEN as nat),
            r.replace_text@ == fit_buffer(Seq::<u16>::empty(), FIND_BUFFER_LEN as nat),
    {
        let find = match prev {
            Some(d) => text_of_dialog_buffer(d.find_text.as_slice()),
            None => Vec::new(),
        };
        let empty: Vec<u16> = Vec::new();
        FindReplaceData {
            find_text: dialog_buffer(find.as_slice()),
            replace_text: fit_to_buffer(empty.as_slice(), FIND_BUFFER_LEN),
        }
    }

    /// Buffers for a new Replace dialog: the previous find and replacement texts.
    pub fn for_replace_dialog(prev: &Option<FindReplaceData>) -> (r: FindReplaceData)
        ensures
            r.find_text@ == fit_buffer(encode_utf16(prior_find_text(*prev)).push(0), FIND_BUFFER_LEN as nat),
            r.replace_text@ == fit_buffer(
                encode_utf16(prior_replace_text(*prev)).push(0),
                FIND_BUFFER_LEN as nat,
            ),
    {
        let (find, replace) = match prev {
            Some(d) => (
                text_of_dialog_buffer(d.find_text.as_slice()),
                text_of_dialog_buffer(d.replace_text.as_slice()),
            ),
            None => (Vec::new(), Vec::new()),
        };
        FindReplaceData { find_text: dialog_buffer(find.as_slice()), replace_text: dialog_buffer(replace.as_slice()) }
    }
}

/// What a Find or Replace command asks for: bring the open dialog to the front,
/// or open one with these buffers.
#[derive(Debug)]
pub enum DialogRequest {
    Focus(HWND),
    Open(FindReplaceData),
}

/// What Find Next does.
#[derive(Clone, Copy, PartialEq, Eq, Structural, Debug)]
pub enum FindStep {
    ShowFindDialog,
    Select(usize, usize),
    NotFound,
}

/// Whether the search runs down the text: as the flags say, or the other way
/// for a reverse search.
pub open spec fn search_down(flags: u32, reverse: bool) -> bool {
    if reverse {
        (flags & FR_DOWN) == 0
    } else {
        (flags & FR_DOWN) != 0
    }
}

/// Whether the flags ask for case to be matched.
pub open spec fn match_case_of(flags: u32) -> bool {
    (flags & FR_MATCHCASE) != 0
}

/// The view of an optional string slice.
pub open spec fn opt_str(o: Option<&str>) -> Option<Seq<char>> {
    match o {
        Some(s) => Some(s@),
        None => None,
    }
}

/// Where a search of the edit control's text lands; nowhere when its text could
/// not be read.
pub open spec fn edit_find(text: Option<Seq<char>>, needle: Seq<char>, match_case: bool, down: bool, start: int) -> Option<
    (int, int),
> {
    match text {
        Some(t) => spec_find_in_edit(t, needle, match_case, down, start),
        None => None,
    }
}

/// The Find Next step for a search result.
pub open spec fn find_step(o: Option<(int, int)>) -> FindStep {
    match o {
        Some((a, b)) => FindStep::Select(a as usize, b as usize),
        None => FindStep::NotFound,
    }
}

/// The text Find Next searches for: the find buffer decoded, unpaired
/// surrogates replaced, without trailing NULs.
pub open spec fn search_text(data: Option<FindReplaceData>) -> Seq<char> {
    match data {
        Some(d) => trim_trailing_nuls(decode_utf16_lossy(d.find_text@)),
        None => Seq::<char>::empty(),
    }
}

/// Searches the edit control's text, when it could be read.
fn edit_search(text: Option<&str>, needle: &str, match_case: bool, down: bool, start: usize) -> (r: Option<
    (usize, usize),
>)
    ensures
        opt_pair(r) == edit_find(opt_str(text), needle@, match_case, down, start as int),
{
    match text {
        Some(t) => find_in_edit(t, needle, match_case, down, start),
        None => None,
    }
}

/// What a message from the Find or Replace dialog does.
#[derive(Debug, PartialEq, Eq)]
pub enum FindReplaceStep {
    Nothing,
    Select(usize, usize),
    NotFound,
    Replace { start: usize, end: usize, replacement: String },
    ReplaceAll { new_text: Option<String>, count: usize },
}

/// The text a dialog field holds: its units up to the first NUL, decoded with
/// unpaired surrogates replaced.
pub open spec fn field_text(buf: Seq<u16>) -> Seq<char> {
    decode_utf16_lossy(until_nul(buf))
}

/// The Find Next step of the Find dialog for a search result.
pub open spec fn dialog_find_step(o: Option<(int, int)>) -> FindReplaceStep {
    match o {
        Some((a, b)) => FindReplaceStep::Select(a as usize, b as usize),
        None => FindReplaceStep::NotFound,
    }
}

/// What Replace All gives for the edit control's text: the new text and the
/// number of replacements, or no text and none when nothing is replaced or the
/// text could not be read.
pub open spec fn replace_all_outcome(text: Option<Seq<char>>, needle: Seq<char>, replacement: Seq<char>, match_case: bool) -> (
    Option<Seq<char>>,
    nat,
) {
    match text {
        Some(t) => match spec_replace_all(t, needle, replacement, match_case) {
            Some((s, c)) => (Some(s), c),
            None => (None, 0),
        },
        None => (None, 0),
    }
}

/// The message shown after Replace All.
pub open spec fn replace_all_message_text(count: nat) -> Seq<char> {
    "Replaced "@ + digits(count) + " occurrence"@ + (if count == 1 {
        ""@
    } else {
        "s"@
    }) + "."@
}

/// "Replaced N occurrence(s)." for `count` replacements.
pub fn replace_all_message(count: usize) -> (r: String)
    ensures
        r@ == replace_all_message_text(count as nat),
{
    let mut out: Vec<char> = Vec::new();
    push_str(&mut out, "Replaced ");
    push_digits(&mut out, count as u64);
    push_str(&mut out, " occurrence");
    if count == 1 {
        push_str(&mut out, "");
    } else {
        push_str(&mut out, "s");
    }
    push_str(&mut out, ".");
    assert(out@ =~= replace_all_message_text(count as nat));
    string_from_chars(out.as_slice())
}

impl AppState {
    /// What the Find command does: bring the open Find dialog forward, or open
    /// one that starts with the previous find text.
    pub fn show_find_dialog(&self) -> (r: DialogRequest)
        ensures
            self.hfind_dlg != 0 ==> (r matches DialogRequest::Focus(h) && h == self.hfind_dlg),
            self.hfind_dlg == 0 ==> (r matches DialogRequest::Open(d) && d.find_text@ == fit_buffer(
                encode_utf16(prior_find_text(self.find_replace_data)).push(0),
                FIND_BUFFER_LEN as nat,
            ) && d.replace_text@ == fit_buffer(Seq::<u16>::empty(), FIND_BUFFER_LEN as nat)),
    {
        if self.hfind_dlg != 0 {
            DialogRequest::Focus(self.hfind_dlg)
        } else {
            DialogRequest::Open(FindReplaceData::for_find_dialog(&self.find_replace_data))
        }
    }

    /// What the Replace command does: bring the open Replace dialog forward, or
    /// open one that starts with the previous find and replacement texts.
    pub fn show_replace_dialog(&self) -> (r: DialogRequest)
        ensures
            self.hreplace_dlg != 0 ==> (r matches DialogRequest::Focus(h) && h == self.hreplace_dlg),
            self.hreplace_dlg == 0 ==> (r matches DialogRequest::Open(d) && d.find_text@ == fit_buffer(
                encode_utf16(prior_find_text(self.find_replace_data)).push(0),
                FIND_BUFFER_LEN as nat,
            ) && d.replace_text@ == fit_buffer(
                encode_utf16(prior_replace_text(self.find_replace_data)).push(0),
                FIND_BUFFER_LEN as nat,
            )),
    {
        if self.hreplace_dlg != 0 {
            DialogRequest::Focus(self.hreplace_dlg)
        } else {
            DialogRequest::Open(FindReplaceData::for_replace_dialog(&self.find_replace_data))
        }
    }

    /// Records a Find (or, with `replace`, a Replace) dialog that was opened
    /// with `data` as its buffers.
    pub fn dialog_opened(&mut self, replace: bool, dlg: HWND, data: FindReplaceData)
        ensures
            final(self).hfind_dlg == (if replace {
                old(self).hfind_dlg
            } else {
                dlg
            }),
            final(self).hreplace_dlg == (if replace {
                dlg
            } else {
                old(self).hreplace_dlg
            }),
            final(self).find_replace_data == Some(data),
            final(self).find_flags == old(self).find_flags,
            same_handles(*final(self), *old(self)),
            same_document(*final(self), *old(self)),
            same_view(*final(self), *old(self)),
    {
        if replace {
            self.hreplace_dlg = dlg;
        } else {
            self.hfind_dlg = dlg;
        }
        self.find_replace_data = Some(data);
    }

    /// The text Find Next searches for (see `search_text`).
    pub fn find_text(&self) -> (r: String)
        ensures
            r@ == search_text(self.find_replace_data),
    {
        match &self.find_replace_data {
            Some(d) => {
                let s = string_from_utf16_lossy(d.find_text.as_slice());
                let cs = chars_of(s.as_str());
                let t = trim_nuls(cs.as_slice());
                string_from_chars(t.as_slice())
            },
            None => String::new(),
        }
    }

    /// Find Next (or, with `reverse`, Find Previous) over the edit control's
    /// `text` with the selection at `sel_start..sel_end`: with no find text it
    /// opens the Find dialog; else it searches with the remembered flags from the
    /// selection's end going down, or from its start going up.
    pub fn do_find_next(&self, reverse: bool, text: Option<&str>, sel_start: usize, sel_end: usize) -> (r:
        FindStep)
        ensures
            search_text(self.find_replace_data).len() == 0 ==> r == FindStep::ShowFindDialog,
            search_text(self.find_replace_data).len() > 0 ==> r == find_step(
                edit_find(
                    opt_str(text),
                    search_text(self.find_replace_data),
                    match_case_of(self.find_flags),
                    search_down(self.find_flags, reverse),
                    if search_down(self.find_flags, reverse) {
                        sel_end as int
                    } else {
                        sel_start as int
                    },
                ),
            ),
    {
        let needle = self.find_text();
        if needle.as_str().is_empty() {
            return FindStep::ShowFindDialog;
        }
        let match_case = (self.find_flags & FR_MATCHCASE) != 0;
        let down = if reverse {
            (self.find_flags & FR_DOWN) == 0
        } else {
            (self.find_flags & FR_DOWN) != 0
        };
        let start: usize = if down {
            sel_end
        } else {
            sel_start
        };
        match edit_search(text, needle.as_str(), match_case, down, start) {
            Some((a, b)) => FindStep::Select(a, b),
            None => FindStep::NotFound,
        }
    }
}

/// Runs Replace All over the edit control's text, when it could be read.
fn edit_replace_all(text: Option<&str>, needle: &str, replacement: &str, match_case: bool) -> (r: (
    Option<String>,
    usize,
))
    ensures
        (opt_text(r.0), r.1 as nat) == replace_all_outcome(opt_str(text), needle@, replacement@, match_case),
{
    match text {
        Some(t) => match replace_all_occurrences(t, needle, replacement, match_case) {
            Some((s, c)) => (Some(s), c),
            None => (None, 0),
        },
        None => (None, 0),
    }
}

impl AppState {
    /// Handles a message from the Find or Replace dialog, given its flags, the
    /// units of its find and replacement fields (empty where a field is
    /// missing), the edit control's text and its selection. Closing the dialog
    /// forgets both dialogs and their buffers. Otherwise the flags are
    /// remembered, and with a find text: Find Next searches as Find Next does;
    /// Replace searches from the selection's start and replaces the match;
    /// Replace All replaces every occurrence. Replacing marks the document
    /// modified (Replace All even when it replaced nothing).
    pub fn handle_find_replace(
        &mut self,
        flags: u32,
        find_buf: &[u16],
        replace_buf: &[u16],
        text: Option<&str>,
        sel_start: usize,
        sel_end: usize,
    ) -> (r: FindReplaceStep)
        ensures
            same_handles(*final(self), *old(self)),
            same_view(*final(self), *old(self)),
            final(self).current_path@ == old(self).current_path@,
            final(self).encoding == old(self).encoding,
            (flags & FR_DIALOGTERM) != 0 ==> {
                &&& r == FindReplaceStep::Nothing
                &&& final(self).hfind_dlg == 0
                &&& final(self).hreplace_dlg == 0
                &&& final(self).find_replace_data is None
                &&& final(self).find_flags == old(self).find_flags
                &&& final(self).modified == old(self).modified
            },
            (flags & FR_DIALOGTERM) == 0 ==> {
                let ft = field_text(find_buf@);
                let rt = field_text(replace_buf@);
                let mc = (flags & FR_MATCHCASE) != 0;
                let down = (flags & FR_DOWN) != 0;
                &&& final(self).find_flags == flags
                &&& final(self).hfind_dlg == old(self).hfind_dlg
                &&& final(self).hreplace_dlg == old(self).hreplace_dlg
                &&& final(self).find_replace_data == old(self).find_replace_data
                &&& (flags & FR_FINDNEXT) != 0 ==> {
                    &&& final(self).modified == old(self).modified
                    &&& ft.len() == 0 ==> r == FindReplaceStep::Nothing
                    &&& ft.len() > 0 ==> r == dialog_find_step(
                        edit_find(
                            opt_str(text),
                            ft,
                            mc,
                            down,
                            if down {
                                sel_end as int
                            } else {
                                sel_start as int
                            },
                        ),
                    )
                }
                &&& (flags & FR_FINDNEXT) == 0 && (flags & FR_REPLACE) != 0 ==> {
                    &&& ft.len() == 0 ==> r == FindReplaceStep::Nothing && final(self).modified
                        == old(self).modified
                    &&& ft.len() > 0 ==> match edit_find(opt_str(text), ft, mc, down, sel_start as int) {
                        Some((a, b)) => {
                            &&& r matches FindReplaceStep::Replace { start, end, replacement }
                            &&& start == a && end == b && replacement@ == rt
                            &&& final(self).modified
                        },
                        None => r == FindReplaceStep::NotFound && final(self).modified == old(
                            self,
                        ).modified,
                    }
                }
                &&& (flags & FR_FINDNEXT) == 0 && (flags & FR_REPLACE) == 0 && (flags & FR_REPLACEALL)
                    != 0 ==> {
                    &&& ft.len() == 0 ==> r == FindReplaceStep::Nothing && final(self).modified
                        == old(self).modified
                    &&& ft.len() > 0 ==> {
                        &&& r matches FindReplaceStep::ReplaceAll { new_text, count }
                        &&& (opt_text(new_text), count as nat) == replace_all_outcome(
                            opt_str(text),
                            ft,
                            rt,
                            mc,
                        )
                        &&& final(self).modified
                    }
                }
                &&& (flags & FR_FINDNEXT) == 0 && (flags & FR_REPLACE) == 0 && (flags & FR_REPLACEALL)
                    == 0 ==> r == FindReplaceStep::Nothing && final(self).modified == old(self).modified
            },
    {
        if (flags & FR_DIALOGTERM) != 0 {
            self.hfind_dlg = 0;
            self.hreplace_dlg = 0;
            self.find_replace_data = None;
            return FindReplaceStep::Nothing;
        }
        let match_case = (flags & FR_MATCHCASE) != 0;
        let down = (flags & FR_DOWN) != 0;
        let find_text = string_from_wide_lossy(find_buf);
        self.find_flags = flags;
        if (flags & FR_FINDNEXT) != 0 {
            if find_text.as_str().is_empty() {
                return FindReplaceStep::Nothing;
            }
            let start: usize = if down {
                sel_end
            } else {
                sel_start
            };
            match edit_search(text, find_text.as_str(), match_case, down, start) {
                Some((a, b)) => FindReplaceStep::Select(a, b),
                None => FindReplaceStep::NotFound,
            }
        } else if (flags & FR_REPLACE) != 0 {
            if find_text.as_str().is_empty() {
                return FindReplaceStep::Nothing;
            }
            let replace_text = string_from_wide_lossy(replace_buf);
            match edit_search(text, find_text.as_str(), match_case, down, sel_start) {
                Some((a, b)) => {
                    self.modified = true;
                    FindReplaceStep::Replace { start: a, end: b, replacement: replace_text }
                },
                None => FindReplaceStep::NotFound,
            }
        } else if (flags & FR_REPLACEALL) != 0 {
            if find_text.as_str().is_empty() {
                return FindReplaceStep::Nothing;
            }
            let replace_text = string_from_wide_lossy(replace_buf);
            let (new_text, count) = edit_replace_all(text, find_text.as_str(), replace_text.as_str(), match_case);
            self.modified = true;
            FindReplaceStep::ReplaceAll { new_text, count }
        } else {
            FindReplaceStep::Nothing
        }
    }
}

/// The window style of the edit control: a visible multi-line child that
/// scrolls vertically, keeps Enter and shows its selection unfocused, and
/// scrolls horizontally unless word wrap is on.
pub open spec fn edit_style_flags(word_wrap: bool) -> u32 {
    let base = WS_CHILD | WS_VISIBLE | WS_VSCROLL | ES_MULTILINE | ES_AUTOVSCROLL | ES_WANTRETURN | ES_NOHIDESEL;
    if word_wrap {
        base
    } else {
        base | WS_HSCROLL | ES_AUTOHSCROLL
    }
}

/// The style the edit control is created with (see `edit_style_flags`).
pub fn edit_control_style(word_wrap: bool) -> (r: u32)
    ensures
        r == edit_style_flags(word_wrap),
        ((r & WS_HSCROLL) != 0) == !word_wrap,
        (r & ES_MULTILINE) != 0,
{
    let mut style: u32 = WS_CHILD | WS_VISIBLE | WS_VSCROLL | ES_MULTILINE | ES_AUTOVSCROLL | ES_WANTRETURN | ES_NOHIDESEL;
    if !word_wrap {
        style = style | WS_HSCROLL | ES_AUTOHSCROLL;
    }
    assert(((style & 0x00100000u32) != 0) == !word_wrap && (style & 0x0004u32) != 0) by (bit_vector)
        requires
            word_wrap ==> style == 0x40000000u32 | 0x10000000u32 | 0x00200000u32 | 0x0004u32 | 0x0040u32
                | 0x1000u32 | 0x0100u32,
            !word_wrap ==> style == 0x40000000u32 | 0x10000000u32 | 0x00200000u32 | 0x0004u32 | 0x0040u32
                | 0x1000u32 | 0x0100u32 | 0x00100000u32 | 0x0080u32,
    ;
    style
}

/// Where a child window goes: its position and size.
#[derive(Clone, Copy, PartialEq, Eq, Structural, Debug)]
pub struct Placement {
    pub x: i32,
    pub y: i32,
    pub width: i32,
    pub height: i32,
}

/// Where the status bar (when shown) and the edit control go.
#[derive(Clone, Copy, PartialEq, Eq, Structural, Debug)]
pub struct Layout {
    pub status: Option<Placement>,
    pub edit: Placement,
}

/// The height the status bar takes: its own height when shown, else nothing.
pub open spec fn status_height(status_shown: bool, status_rect: RECT) -> int {
    if status_shown {
        status_rect.bottom - status_rect.top
    } else {
        0
    }
}

/// Lays out the client area: the status bar, when shown, keeps its height along
/// the bottom edge across the full width; the edit control fills the rest from
/// the top left corner.
pub fn compute_layout(client: RECT, status_shown: bool, status_rect: RECT) -> (r: Layout)
    requires
        i32::MIN <= status_height(status_shown, status_rect) <= i32::MAX,
        i32::MIN <= client.bottom - status_height(status_shown, status_rect) <= i32::MAX,
    ensures
        status_shown ==> (r.status matches Some(p) && p.x == 0 && p.y == client.bottom - status_height(
            status_shown,
            status_rect,
        ) && p.width == client.right && p.height == status_height(status_shown, status_rect)),
        !status_shown ==> r.status is None,
        r.edit.x == 0,
        r.edit.y == 0,
        r.edit.width == client.right,
        r.edit.height == client.bottom - status_height(status_shown, status_rect),
{
    let mut height: i32 = 0;
    let mut status: Option<Placement> = None;
    if status_shown {
        height = status_rect.bottom - status_rect.top;
        status = Some(Placement { x: 0, y: client.bottom - height, width: client.right, height });
    }
    Layout { status, edit: Placement { x: 0, y: 0, width: client.right, height: client.bottom - height } }
}

/// The caret's line and column, both counted from 1, from the selection start,
/// the index of the line holding it and the index of that line's first
/// character, each taken as a 32-bit value.
pub fn status_position(sel_start: usize, line_from_char: isize, line_index: isize) -> (r: (i32, i32))
    requires
        (line_from_char as i32) < i32::MAX,
        i32::MIN <= (sel_start as i32) - (line_index as i32) < i32::MAX,
    ensures
        r.0 == (line_from_char as i32) + 1,
        r.1 == (sel_start as i32) - (line_index as i32) + 1,
{
    let line: i32 = #[verifier::truncate] (line_from_char as i32) + 1;
    let col: i32 = #[verifier::truncate] (sel_start as i32) - #[verifier::truncate] (line_index as i32) + 1;
    (line, col)
}

/// The status bar text.
pub open spec fn status_text(line: int, col: int, lines: int) -> Seq<char> {
    "Ln "@ + decimal(line) + ", Col "@ + decimal(col) + "    Lines: "@ + decimal(lines)
}

/// "Ln L, Col C    Lines: N".
pub fn status_bar_text(line: i32, col: i32, lines: i32) -> (r: String)
    ensures
        r@ == status_text(line as int, col as int, lines as int),
{
    let mut out: Vec<char> = Vec::new();
    push_str(&mut out, "Ln ");
    push_decimal(&mut out, line as i64);
    push_str(&mut out, ", Col ");
    push_decimal(&mut out, col as i64);
    push_str(&mut out, "    Lines: ");
    push_decimal(&mut out, lines as i64);
    assert(out@ =~= status_text(line as int, col as int, lines as int));
    string_from_chars(out.as_slice())
}

/// `a - b`, or 0 when `b` is larger.
pub fn unsigned_sub(a: usize, b: usize) -> (r: usize)
    ensures
        r == (if a >= b {
            a - b
        } else {
            0
        }),
{
    a.saturating_sub(b)
}

/// The low word of a message parameter: a command's identifier.
pub fn command_of(wparam: usize) -> (r: u16)
    ensures
        r == wparam % 0x10000,
{
    let r: u16 = (wparam as u32 & 0xFFFF) as u16;
    assert(((wparam as u32) & 0xFFFFu32) as u16 == wparam % 0x10000) by (bit_vector);
    r
}

/// The high word of the low 32 bits of a message parameter: a control's
/// notification code.
pub fn notification_of(wparam: usize) -> (r: u32)
    ensures
        r == (wparam as int % 0x1_0000_0000int) / 0x10000,
{
    let r: u32 = (wparam as u32) >> 16;
    assert((wparam as u32) >> 16u32 == (wparam as int % 0x1_0000_0000int) / 0x10000) by (bit_vector);
    r
}

/// What a menu command or accelerator does.
#[derive(Clone, Copy, PartialEq, Eq, Structural, Debug)]
pub enum Command {
    FileNew,
    FileOpen,
    FileSave,
    FileSaveAs,
    PrintingNotice,
    Exit,
    /// Send this message to the edit control.
    EditMessage(u32),
    Find,
    FindNext,
    Replace,
    GotoUnavailable,
    GotoDialog,
    SelectAll,
    TimeDate,
    SetWordWrap(bool),
    ChooseFont,
    SetStatusBar(bool),
    ViewHelp,
    About,
    Ignore,
}

/// The table of commands: each menu identifier with what it does. Word Wrap
/// and Status Bar switch their setting; Go To is refused while word wrap is on.
pub open spec fn spec_command(cmd: u16, word_wrap: bool, status_visible: bool) -> Command {
    if cmd == IDM_FILE_NEW {
        Command::FileNew
    } else if cmd == IDM_FILE_OPEN {
        Command::FileOpen
    } else if cmd == IDM_FILE_SAVE {
        Command::FileSave
    } else if cmd == IDM_FILE_SAVE_AS {
        Command::FileSaveAs
    } else if cmd == IDM_FILE_PAGE_SETUP || cmd == IDM_FILE_PRINT {
        Command::PrintingNotice
    } else if cmd == IDM_FILE_EXIT {
        Command::Exit
    } else if cmd == IDM_EDIT_UNDO {
        Command::EditMessage(EM_UNDO)
    } else if cmd == IDM_EDIT_CUT {
        Command::EditMessage(WM_CUT)
    } else if cmd == IDM_EDIT_COPY {
        Command::EditMessage(WM_COPY)
    } else if cmd == IDM_EDIT_PASTE {
        Command::EditMessage(WM_PASTE)
    } else if cmd == IDM_EDIT_DELETE {
        Command::EditMessage(WM_CLEAR)
    } else if cmd == IDM_EDIT_FIND {
        Command::Find
    } else if cmd == IDM_EDIT_FIND_NEXT {
        Command::FindNext
    } else if cmd == IDM_EDIT_REPLACE {
        Command::Replace
    } else if cmd == IDM_EDIT_GOTO {
        if word_wrap {
            Command::GotoUnavailable
        } else {
            Command::GotoDialog
        }
    } else if cmd == IDM_EDIT_SELECT_ALL {
        Command::SelectAll
    } else if cmd == IDM_EDIT_TIME_DATE {
        Command::TimeDate
    } else if cmd == IDM_FORMAT_WORD_WRAP {
        Command::SetWordWrap(!word_wrap)
    } else if cmd == IDM_FORMAT_FONT {
        Command::ChooseFont
    } else if cmd == IDM_VIEW_STATUS_BAR {
        Command::SetStatusBar(!status_visible)
    } else if cmd == IDM_HELP_VIEW_HELP {
        Command::ViewHelp
    } else if cmd == IDM_HELP_ABOUT {
        Command::About
    } else {
        Command::Ignore
    }
}

/// The command table: File New, Open, Save and Save As do what they say, Page
/// Setup and Print give the printing notice, Exit quits; Undo, Cut, Copy, Paste
/// and Delete each send the edit control its own message (EM_UNDO, WM_CUT,
/// WM_COPY, WM_PASTE, WM_CLEAR), no two the same; Find, Find Next, Replace,
/// Select All, Time/Date, Font, View Help and About open what they name; Go To is
/// refused while word wrap is on; Word Wrap and Status Bar switch their setting.
pub proof fn lemma_command_table(word_wrap: bool, status_visible: bool)
    ensures
        spec_command(IDM_FILE_NEW, word_wrap, status_visible) == Command::FileNew,
        spec_command(IDM_FILE_OPEN, word_wrap, status_visible) == Command::FileOpen,
        spec_command(IDM_FILE_SAVE, word_wrap, status_visible) == Command::FileSave,
        spec_command(IDM_FILE_SAVE_AS, word_wrap, status_visible) == Command::FileSaveAs,
        spec_command(IDM_FILE_PAGE_SETUP, word_wrap, status_visible) == Command::PrintingNotice,
        spec_command(IDM_FILE_PRINT, word_wrap, status_visible) == Command::PrintingNotice,
        spec_command(IDM_FILE_EXIT, word_wrap, status_visible) == Command::Exit,
        spec_command(IDM_EDIT_UNDO, word_wrap, status_visible) == Command::EditMessage(EM_UNDO),
        spec_command(IDM_EDIT_CUT, word_wrap, status_visible) == Command::EditMessage(WM_CUT),
        spec_command(IDM_EDIT_COPY, word_wrap, status_visible) == Command::EditMessage(WM_COPY),
        spec_command(IDM_EDIT_PASTE, word_wrap, status_visible) == Command::EditMessage(WM_PASTE),
        spec_command(IDM_EDIT_DELETE, word_wrap, status_visible) == Command::EditMessage(WM_CLEAR),
        spec_command(IDM_EDIT_FIND, word_wrap, status_visible) == Command::Find,
        spec_command(IDM_EDIT_FIND_NEXT, word_wrap, status_visible) == Command::FindNext,
        spec_command(IDM_EDIT_REPLACE, word_wrap, status_visible) == Command::Replace,
        spec_command(IDM_EDIT_SELECT_ALL, word_wrap, status_visible) == Command::SelectAll,
        spec_command(IDM_EDIT_TIME_DATE, word_wrap, status_visible) == Command::TimeDate,
        spec_command(IDM_FORMAT_FONT, word_wrap, status_visible) == Command::ChooseFont,
        spec_command(IDM_HELP_VIEW_HELP, word_wrap, status_visible) == Command::ViewHelp,
        spec_command(IDM_HELP_ABOUT, word_wrap, status_visible) == Command::About,
        spec_command(IDM_EDIT_GOTO, word_wrap, status_visible) == (if word_wrap {
            Command::GotoUnavailable
        } else {
            Command::GotoDialog
        }),
        spec_command(IDM_FORMAT_WORD_WRAP, word_wrap, status_visible) == Command::SetWordWrap(!word_wrap),
        spec_command(IDM_VIEW_STATUS_BAR, word_wrap, status_visible) == Command::SetStatusBar(!status_visible),
        EM_UNDO != WM_CUT && EM_UNDO != WM_COPY && EM_UNDO != WM_PASTE && EM_UNDO != WM_CLEAR,
        WM_CUT != WM_COPY && WM_CUT != WM_PASTE && WM_CUT != WM_CLEAR,
        WM_COPY != WM_PASTE && WM_COPY != WM_CLEAR && WM_PASTE != WM_CLEAR,
{
}

/// What the command `cmd` does in the given view (see `spec_command`).
pub fn command_action(cmd: u16, word_wrap: bool, status_visible: bool) -> (r: Command)
    ensures
        r == spec_command(cmd, word_wrap, status_visible),
        cmd == IDM_FILE_NEW ==> r == Command::FileNew,
        cmd == IDM_FILE_OPEN ==> r == Command::FileOpen,
        cmd == IDM_FILE_SAVE ==> r == Command::FileSave,
        cmd == IDM_FILE_SAVE_AS ==> r == Command::FileSaveAs,
        cmd == IDM_FILE_PAGE_SETUP ==> r == Command::PrintingNotice,
        cmd == IDM_FILE_PRINT ==> r == Command::PrintingNotice,
        cmd == IDM_FILE_EXIT ==> r == Command::Exit,
        cmd == IDM_EDIT_UNDO ==> r == Command::EditMessage(EM_UNDO),
        cmd == IDM_EDIT_CUT ==> r == Command::EditMessage(WM_CUT),
        cmd == IDM_EDIT_COPY ==> r == Command::EditMessage(WM_COPY),
        cmd == IDM_EDIT_PASTE ==> r == Command::EditMessage(WM_PASTE),
        cmd == IDM_EDIT_DELETE ==> r == Command::EditMessage(WM_CLEAR),
        cmd == IDM_EDIT_FIND ==> r == Command::Find,
        cmd == IDM_EDIT_FIND_NEXT ==> r == Command::FindNext,
        cmd == IDM_EDIT_REPLACE ==> r == Command::Replace,
        cmd == IDM_EDIT_SELECT_ALL ==> r == Command::SelectAll,
        cmd == IDM_EDIT_TIME_DATE ==> r == Command::TimeDate,
        cmd == IDM_FORMAT_FONT ==> r == Command::ChooseFont,
        cmd == IDM_HELP_VIEW_HELP ==> r == Command::ViewHelp,
        cmd == IDM_HELP_ABOUT ==> r == Command::About,
        cmd == IDM_EDIT_GOTO && word_wrap ==> r == Command::GotoUnavailable,
        cmd == IDM_EDIT_GOTO && !word_wrap ==> r == Command::GotoDialog,
        cmd == IDM_FORMAT_WORD_WRAP ==> r == Command::SetWordWrap(!word_wrap),
        cmd == IDM_VIEW_STATUS_BAR ==> r == Command::SetStatusBar(!status_visible),
{
    if cmd == IDM_FILE_NEW {
        Command::FileNew
    } else if cmd == IDM_FILE_OPEN {
        Command::FileOpen
    } else if cmd == IDM_FILE_SAVE {
        Command::FileSave
    } else if cmd == IDM_FILE_SAVE_AS {
        Command::FileSaveAs
    } else if cmd == IDM_FILE_PAGE_SETUP || cmd == IDM_FILE_PRINT {
        Command::PrintingNotice
    } else if cmd == IDM_FILE_EXIT {
        Command::Exit
    } else if cmd == IDM_EDIT_UNDO {
        Command::EditMessage(EM_UNDO)
    } else if cmd == IDM_EDIT_CUT {
        Command::EditMessage(WM_CUT)
    } else if cmd == IDM_EDIT_COPY {
        Command::EditMessage(WM_COPY)
    } else if cmd == IDM_EDIT_PASTE {
        Command::EditMessage(WM_PASTE)
    } else if cmd == IDM_EDIT_DELETE {
        Command::EditMessage(WM_CLEAR)
    } else if cmd == IDM_EDIT_FIND {
        Command::Find
    } else if cmd == IDM_EDIT_FIND_NEXT {
        Command::FindNext
    } else if cmd == IDM_EDIT_REPLACE {
        Command::Replace
    } else if cmd == IDM_EDIT_GOTO {
        if word_wrap {
            Command::GotoUnavailable
        } else {
            Command::GotoDialog
        }
    } else if cmd == IDM_EDIT_SELECT_ALL {
        Command::SelectAll
    } else if cmd == IDM_EDIT_TIME_DATE {
        Command::TimeDate
    } else if cmd == IDM_FORMAT_WORD_WRAP {
        Command::SetWordWrap(!word_wrap)
    } else if cmd == IDM_FORMAT_FONT {
        Command::ChooseFont
    } else if cmd == IDM_VIEW_STATUS_BAR {
        Command::SetStatusBar(!status_visible)
    } else if cmd == IDM_HELP_VIEW_HELP {
        Command::ViewHelp
    } else if cmd == IDM_HELP_ABOUT {
        Command::About
    } else {
        Command::Ignore
    }
}

/// What a message to the main window is about.
#[derive(Clone, Copy, PartialEq, Eq, Structural, Debug)]
pub enum WindowEvent {
    /// A message from the Find or Replace dialog.
    FindReplace,
    Create,
    SetFocus,
    Size,
    DropFiles,
    /// The edit control's text changed.
    EditChanged,
    /// The edit control is about to redraw.
    EditUpdated,
    /// A menu command or accelerator with this identifier.
    Command(u16),
    InitMenuPopup,
    Close,
    Destroy,
    /// Left to the default window procedure.
    Default,
}

/// Sorts a message to the main window: the registered Find/Replace message
/// first, then by message; a WM_COMMAND from the edit control is its change or
/// update notification, any other WM_COMMAND a command.
pub fn classify_message(m: &MSG, find_msg: u32, edit: HWND) -> (r: WindowEvent)
    ensures
        m.message != 0 && m.message == find_msg ==> r == WindowEvent::FindReplace,
        !(m.message != 0 && m.message == find_msg) ==> r == (if m.message == WM_CREATE {
            WindowEvent::Create
        } else if m.message == WM_SETFOCUS {
            WindowEvent::SetFocus
        } else if m.message == WM_SIZE {
            WindowEvent::Size
        } else if m.message == WM_DROPFILES {
            WindowEvent::DropFiles
        } else if m.message == WM_COMMAND {
            let notification = (m.wParam as int % 0x1_0000_0000int) / 0x10000;
            if m.lParam == edit && notification == EN_CHANGE {
                WindowEvent::EditChanged
            } else if m.lParam == edit && notification == EN_UPDATE {
                WindowEvent::EditUpdated
            } else {
                WindowEvent::Command((m.wParam % 0x10000) as u16)
            }
        } else if m.message == WM_INITMENUPOPUP {
            WindowEvent::InitMenuPopup
        } else if m.message == WM_CLOSE {
            WindowEvent::Close
        } else if m.message == WM_DESTROY {
            WindowEvent::Destroy
        } else {
            WindowEvent::Default
        }),
{
    let msg: u32 = m.message;
    if msg != 0 && msg == find_msg {
        return WindowEvent::FindReplace;
    }
    if msg == WM_CREATE {
        WindowEvent::Create
    } else if msg == WM_SETFOCUS {
        WindowEvent::SetFocus
    } else if msg == WM_SIZE {
        WindowEvent::Size
    } else if msg == WM_DROPFILES {
        WindowEvent::DropFiles
    } else if msg == WM_COMMAND {
        let notification = notification_of(m.wParam);
        if m.lParam == edit && notification == EN_CHANGE {
            WindowEvent::EditChanged
        } else if m.lParam == edit && notification == EN_UPDATE {
            WindowEvent::EditUpdated
        } else {
            WindowEvent::Command(command_of(m.wParam))
        }
    } else if msg == WM_INITMENUPOPUP {
        WindowEvent::InitMenuPopup
    } else if msg == WM_CLOSE {
        WindowEvent::Close
    } else if msg == WM_DESTROY {
        WindowEvent::Destroy
    } else {
        WindowEvent::Default
    }
}

/// What a message to the Go To or About dialog is.
#[derive(Clone, Copy, PartialEq, Eq, Structural, Debug)]
pub enum DialogCommand {
    Init,
    Confirm,
    Cancel,
    OtherCommand,
    Unhandled,
}

/// Sorts a message to a modal dialog: its initialization, OK, Cancel, another
/// command, or a message the dialog leaves alone.
pub fn dialog_command(msg: u32, wparam: usize) -> (r: DialogCommand)
    ensures
        msg == WM_INITDIALOG ==> r == DialogCommand::Init,
        msg == WM_COMMAND ==> r == (if wparam % 0x10000 == IDOK {
            DialogCommand::Confirm
        } else if wparam % 0x10000 == IDCANCEL {
            DialogCommand::Cancel
        } else {
            DialogCommand::OtherCommand
        }),
        msg != WM_INITDIALOG && msg != WM_COMMAND ==> r == DialogCommand::Unhandled,
{
    if msg == WM_INITDIALOG {
        DialogCommand::Init
    } else if msg == WM_COMMAND {
        let cmd: u16 = command_of(wparam);
        if cmd as i32 == IDOK {
            DialogCommand::Confirm
        } else if cmd as i32 == IDCANCEL {
            DialogCommand::Cancel
        } else {
            DialogCommand::OtherCommand
        }
    } else {
        DialogCommand::Unhandled
    }
}

/// What OK in the Go To dialog does.
#[derive(Clone, Copy, PartialEq, Eq, Structural, Debug)]
pub enum GotoStep {
    /// The field holds no line number, or 0: warn and keep the dialog open.
    InvalidLine,
    /// Move to the start of the line with this index (counted from 0).
    LineIndex(usize),
}

/// The line the Go To dialog moves to: the number typed, no further than the
/// last line, as an index from 0 (a document reporting no lines gives index 0).
/// `number_read` is zero when the field did not hold a number.
pub fn goto_line(number_read: i32, line: u32, max_line: u32) -> (r: GotoStep)
    ensures
        number_read == 0 || line == 0 ==> r == GotoStep::InvalidLine,
        number_read != 0 && line != 0 ==> r == GotoStep::LineIndex(
            (if line <= max_line {
                line - 1
            } else if max_line >= 1 {
                max_line - 1
            } else {
                0
            }) as usize,
        ),
{
    if number_read == 0 || line == 0 {
        return GotoStep::InvalidLine;
    }
    let target: u32 = if line < max_line {
        line
    } else {
        max_line
    };
    GotoStep::LineIndex(unsigned_sub(target as usize, 1))
}

/// Where the caret goes for a line's first character index as the edit control
/// reported it: nowhere when it is negative as a 32-bit value.
pub fn goto_caret(char_index: isize) -> (r: Option<usize>)
    ensures
        r == (if (char_index as i32) >= 0 {
            Some((char_index as i32) as usize)
        } else {
            None
        }),
{
    let c: i32 = char_index as i32;
    if c >= 0 {
        Some(c as usize)
    } else {
        None
    }
}

/// The text Insert Time/Date types: the time, a space and the date, each taken
/// from its buffer up to the first NUL; NUL-terminated UTF-16.
pub fn time_date_stamp(time_buf: &[u16], date_buf: &[u16]) -> (r: Vec<u16>)
    ensures
        r@ == encode_utf16(field_text(time_buf@) + seq![' '] + field_text(date_buf@)).push(0),
{
    let time = string_from_wide_lossy(time_buf);
    let date = string_from_wide_lossy(date_buf);
    let mut out: Vec<char> = Vec::new();
    push_str(&mut out, time.as_str());
    out.push(' ');
    push_str(&mut out, date.as_str());
    assert(out@ =~= field_text(time_buf@) + seq![' '] + field_text(date_buf@));
    let stamp = string_from_chars(out.as_slice());
    wide_from_str(stamp.as_str())
}
} // verus!
