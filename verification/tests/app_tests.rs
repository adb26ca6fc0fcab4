use retropad::app::{
    classify_message, command_action, command_of, compute_layout, dialog_command, do_file_open,
    edit_control_style, goto_caret, goto_line, menu_states, notification_of, replace_all_message,
    save_answer, status_bar_text, status_position, time_date_stamp, title_for, trim_nuls, unsigned_sub,
    AppState, Command, DialogCommand, DialogRequest, FindReplaceData, FindReplaceStep, FindStep,
    GotoStep, SaveAnswer, SaveTarget, WindowEvent, WrapChange, FIND_BUFFER_LEN,
};
use retropad::file_io::TextEncoding;
use retropad::resource_ids::{
    IDM_EDIT_COPY, IDM_EDIT_GOTO, IDM_EDIT_UNDO, IDM_FILE_NEW, IDM_FILE_PRINT, IDM_FORMAT_WORD_WRAP,
    IDM_HELP_ABOUT, IDM_VIEW_STATUS_BAR,
};
use retropad::win32::{
    EM_UNDO, FR_DIALOGTERM, FR_DOWN, FR_FINDNEXT, FR_MATCHCASE, FR_REPLACE, FR_REPLACEALL, IDCANCEL,
    IDNO, IDOK, IDYES, MF_CHECKED, MF_ENABLED, MF_GRAYED, MF_UNCHECKED, MSG, POINT, RECT, WM_COPY,
    WM_COMMAND, WM_CREATE, WM_INITDIALOG, WM_SIZE, WS_HSCROLL,
};

fn wide(s: &str) -> Vec<u16> {
    s.encode_utf16().collect()
}

fn buffer(s: &str) -> Vec<u16> {
    let mut w = wide(s);
    w.resize(FIND_BUFFER_LEN, 0);
    w
}

fn state_with_find(text: &str, flags: u32) -> AppState {
    let mut s = AppState::default();
    s.find_flags = flags;
    s.find_replace_data = Some(FindReplaceData { find_text: buffer(text), replace_text: buffer("") });
    s
}

#[test]
fn default_state() {
    let s = AppState::default();
    assert_eq!(s.current_path, "");
    assert!(!s.word_wrap);
    assert!(s.status_visible);
    assert!(s.status_before_wrap);
    assert!(!s.modified);
    assert_eq!(s.encoding, TextEncoding::Utf8);
    assert_eq!(s.find_flags, FR_DOWN);
    assert!(s.find_replace_data.is_none());
    assert_eq!((s.hwnd_main, s.hwnd_edit, s.hwnd_status, s.hfont, s.hfind_dlg, s.hreplace_dlg), (0, 0, 0, 0, 0, 0));
}

#[test]
fn title_of_an_untitled_document() {
    assert_eq!(title_for(false, "", None), "Untitled - retropad");
    assert_eq!(title_for(true, "", None), "*Untitled - retropad");
}

#[test]
fn title_uses_the_file_name() {
    assert_eq!(title_for(false, "C:\\docs\\a.txt", Some("a.txt".to_string())), "a.txt - retropad");
    assert_eq!(title_for(true, "weird", None), "*weird - retropad");
}

#[test]
fn window_title_follows_the_state() {
    let mut s = AppState::default();
    assert_eq!(s.window_title(), "Untitled - retropad");
    s.document_loaded("docs/notes.txt", TextEncoding::Utf8);
    assert_eq!(s.window_title(), "notes.txt - retropad");
    s.modified = true;
    assert_eq!(s.window_title(), "*notes.txt - retropad");
    s.new_document();
    assert_eq!(s.window_title(), "Untitled - retropad");
}

#[test]
fn save_prompt_only_for_modified_documents() {
    let mut s = AppState::default();
    assert_eq!(s.save_prompt(), None);
    s.modified = true;
    assert_eq!(s.save_prompt(), Some("Do you want to save changes to Untitled?".to_string()));
    s.current_path = "C:\\a.txt".to_string();
    assert_eq!(s.save_prompt(), Some("Do you want to save changes to C:\\a.txt?".to_string()));
    s.document_saved("C:\\b.txt");
    assert_eq!(s.save_prompt(), None);
    assert_eq!(s.current_path, "C:\\b.txt");
}

#[test]
fn message_box_answers() {
    assert_eq!(save_answer(IDYES), SaveAnswer::Save);
    assert_eq!(save_answer(IDNO), SaveAnswer::Discard);
    assert_eq!(save_answer(IDCANCEL), SaveAnswer::Cancel);
    assert_eq!(save_answer(0), SaveAnswer::Cancel);
}

#[test]
fn save_target_asks_when_there_is_no_path() {
    let mut s = AppState::default();
    assert_eq!(s.save_target(false), SaveTarget::AskUser);
    s.current_path = "x.txt".to_string();
    assert_eq!(s.save_target(false), SaveTarget::Path("x.txt".to_string()));
    assert_eq!(s.save_target(true), SaveTarget::AskUser);
}

#[test]
fn file_open_goes_on_only_when_allowed() {
    assert_eq!(do_file_open(true, Some("a.txt".to_string())), Some("a.txt".to_string()));
    assert_eq!(do_file_open(false, Some("a.txt".to_string())), None);
    assert_eq!(do_file_open(true, None), None);
}

#[test]
fn loading_and_new_document_reset_the_document() {
    let mut s = AppState::default();
    s.modified = true;
    s.document_loaded("in.txt", TextEncoding::Utf16Le);
    assert_eq!(s.current_path, "in.txt");
    assert_eq!(s.encoding, TextEncoding::Utf16Le);
    assert!(!s.modified);
    s.modified = true;
    s.new_document();
    assert_eq!(s.current_path, "");
    assert_eq!(s.encoding, TextEncoding::Utf8);
    assert!(!s.modified);
}

#[test]
fn word_wrap_hides_and_restores_the_status_bar() {
    let mut s = AppState::default();
    assert_eq!(s.set_word_wrap(false), None);
    assert_eq!(s.set_word_wrap(true), Some(WrapChange { status_visible: false, menu_enable: MF_GRAYED }));
    assert!(s.word_wrap);
    assert!(!s.status_visible);
    assert_eq!(s.set_word_wrap(true), None);
    assert_eq!(s.set_word_wrap(false), Some(WrapChange { status_visible: true, menu_enable: MF_ENABLED }));
    assert!(!s.word_wrap);
    assert!(s.status_visible);
}

#[test]
fn word_wrap_keeps_a_hidden_status_bar_hidden() {
    let mut s = AppState::default();
    s.set_status_visible(false);
    assert_eq!(s.set_word_wrap(true), Some(WrapChange { status_visible: false, menu_enable: MF_GRAYED }));
    assert!(!s.status_before_wrap);
    assert_eq!(s.set_word_wrap(false), Some(WrapChange { status_visible: false, menu_enable: MF_ENABLED }));
    assert!(!s.status_visible);
}

#[test]
fn window_title_of_a_plain_file_name() {
    let mut s = AppState::default();
    s.document_loaded("notes", TextEncoding::Utf8);
    assert_eq!(s.window_title(), "notes - retropad");
    s.document_loaded("..", TextEncoding::Utf8);
    assert_eq!(s.window_title(), ".. - retropad");
}

#[test]
fn status_bar_creation_is_recorded() {
    let mut s = AppState::default();
    s.status_bar_created(0);
    assert_eq!(s.hwnd_status, 0);
    s.status_bar_created(42);
    assert_eq!(s.hwnd_status, 42);
}

#[test]
fn menu_states_follow_the_view() {
    let m = menu_states(false, true, true);
    assert_eq!((m.word_wrap_check, m.status_bar_check), (MF_UNCHECKED, MF_CHECKED));
    assert_eq!((m.goto_enable, m.status_bar_enable, m.save_enable), (MF_ENABLED, MF_ENABLED, MF_ENABLED));
    let m = menu_states(true, false, false);
    assert_eq!((m.word_wrap_check, m.status_bar_check), (MF_CHECKED, MF_UNCHECKED));
    assert_eq!((m.goto_enable, m.status_bar_enable, m.save_enable), (MF_GRAYED, MF_GRAYED, MF_GRAYED));
}

#[test]
fn trailing_nuls_are_trimmed() {
    assert_eq!(trim_nuls(&['a', '\0', 'b', '\0', '\0']), vec!['a', '\0', 'b']);
    assert_eq!(trim_nuls(&['\0']), Vec::<char>::new());
}

#[test]
fn new_find_dialog_starts_empty() {
    let s = AppState::default();
    match s.show_find_dialog() {
        DialogRequest::Open(d) => {
            assert_eq!(d.find_text, vec![0u16; FIND_BUFFER_LEN]);
            assert_eq!(d.replace_text, vec![0u16; FIND_BUFFER_LEN]);
        }
        other => panic!("unexpected {:?}", other),
    }
}

#[test]
fn open_dialog_is_brought_forward() {
    let mut s = AppState::default();
    s.hfind_dlg = 77;
    assert!(matches!(s.show_find_dialog(), DialogRequest::Focus(77)));
    s.hreplace_dlg = 78;
    assert!(matches!(s.show_replace_dialog(), DialogRequest::Focus(78)));
}

#[test]
fn next_dialog_starts_with_the_previous_texts() {
    let mut s = AppState::default();
    s.find_replace_data = Some(FindReplaceData { find_text: buffer("needle"), replace_text: buffer("thread") });
    match s.show_replace_dialog() {
        DialogRequest::Open(d) => {
            assert_eq!(d.find_text, buffer("needle"));
            assert_eq!(d.replace_text, buffer("thread"));
        }
        other => panic!("unexpected {:?}", other),
    }
    match s.show_find_dialog() {
        DialogRequest::Open(d) => {
            assert_eq!(d.find_text, buffer("needle"));
            assert_eq!(d.replace_text, vec![0u16; FIND_BUFFER_LEN]);
        }
        other => panic!("unexpected {:?}", other),
    }
}

#[test]
fn a_dialog_buffer_that_does_not_decode_starts_empty() {
    let mut s = AppState::default();
    let mut bad = buffer("ab");
    bad[1] = 0xD800;
    s.find_replace_data = Some(FindReplaceData { find_text: bad, replace_text: buffer("") });
    let d = FindReplaceData::for_find_dialog(&s.find_replace_data);
    assert_eq!(d.find_text, vec![0u16; FIND_BUFFER_LEN]);
}

#[test]
fn long_dialog_text_is_cut_to_the_buffer() {
    let long = "y".repeat(200);
    let mut s = AppState::default();
    let mut full = wide(&long);
    full.push(0);
    s.find_replace_data = Some(FindReplaceData { find_text: full, replace_text: vec![] });
    let d = FindReplaceData::for_find_dialog(&s.find_replace_data);
    assert_eq!(d.find_text.len(), FIND_BUFFER_LEN);
    assert!(d.find_text.iter().all(|&u| u == 'y' as u16));
}

#[test]
fn dialog_opened_records_the_dialog() {
    let mut s = AppState::default();
    s.dialog_opened(false, 5, FindReplaceData { find_text: buffer("a"), replace_text: buffer("") });
    assert_eq!((s.hfind_dlg, s.hreplace_dlg), (5, 0));
    s.dialog_opened(true, 6, FindReplaceData { find_text: buffer("b"), replace_text: buffer("c") });
    assert_eq!((s.hfind_dlg, s.hreplace_dlg), (5, 6));
    assert_eq!(s.find_text(), "b");
}

#[test]
fn find_next_without_text_opens_the_dialog() {
    let s = AppState::default();
    assert_eq!(s.do_find_next(false, Some("abc"), 0, 0), FindStep::ShowFindDialog);
    let s = state_with_find("", FR_DOWN);
    assert_eq!(s.do_find_next(false, Some("abc"), 0, 0), FindStep::ShowFindDialog);
}

#[test]
fn find_next_searches_from_the_selection() {
    let s = state_with_find("ab", FR_DOWN);
    assert_eq!(s.do_find_next(false, Some("ab ab ab"), 0, 2), FindStep::Select(3, 5));
    assert_eq!(s.do_find_next(true, Some("ab ab ab"), 3, 5), FindStep::Select(0, 2));
    let up = state_with_find("AB", 0);
    assert_eq!(up.do_find_next(false, Some("ab ab ab"), 6, 8), FindStep::Select(3, 5));
    let exact = state_with_find("AB", FR_DOWN | FR_MATCHCASE);
    assert_eq!(exact.do_find_next(false, Some("ab ab ab"), 0, 0), FindStep::NotFound);
    assert_eq!(s.do_find_next(false, None, 0, 0), FindStep::NotFound);
}

#[test]
fn dialog_close_forgets_the_dialogs() {
    let mut s = state_with_find("x", FR_DOWN);
    s.hfind_dlg = 3;
    s.hreplace_dlg = 4;
    let r = s.handle_find_replace(FR_DIALOGTERM, &buffer("x"), &[], Some("x"), 0, 0);
    assert_eq!(r, FindReplaceStep::Nothing);
    assert_eq!((s.hfind_dlg, s.hreplace_dlg), (0, 0));
    assert!(s.find_replace_data.is_none());
    assert_eq!(s.find_flags, FR_DOWN);
}

#[test]
fn dialog_find_next_selects_a_match() {
    let mut s = AppState::default();
    let r = s.handle_find_replace(FR_FINDNEXT | FR_DOWN, &buffer("lo"), &[], Some("hello lo"), 0, 4);
    assert_eq!(r, FindReplaceStep::Select(6, 8));
    assert_eq!(s.find_flags, FR_FINDNEXT | FR_DOWN);
    assert!(!s.modified);
    let r = s.handle_find_replace(FR_FINDNEXT, &buffer("zz"), &[], Some("hello"), 0, 0);
    assert_eq!(r, FindReplaceStep::NotFound);
    let r = s.handle_find_replace(FR_FINDNEXT, &buffer(""), &[], Some("hello"), 0, 0);
    assert_eq!(r, FindReplaceStep::Nothing);
}

#[test]
fn dialog_replace_replaces_from_the_selection_start() {
    let mut s = AppState::default();
    let r = s.handle_find_replace(FR_REPLACE | FR_DOWN, &buffer("cat"), &buffer("dog"), Some("cat cat"), 1, 1);
    assert_eq!(r, FindReplaceStep::Replace { start: 4, end: 7, replacement: "dog".to_string() });
    assert!(s.modified);
}

#[test]
fn dialog_replace_without_a_match_changes_nothing() {
    let mut s = AppState::default();
    let r = s.handle_find_replace(FR_REPLACE | FR_DOWN, &buffer("cow"), &buffer("dog"), Some("cat"), 0, 0);
    assert_eq!(r, FindReplaceStep::NotFound);
    assert!(!s.modified);
}

#[test]
fn dialog_replace_all_counts_replacements() {
    let mut s = AppState::default();
    let r = s.handle_find_replace(FR_REPLACEALL | FR_DOWN, &buffer("o"), &buffer("0"), Some("foo boo"), 0, 0);
    assert_eq!(r, FindReplaceStep::ReplaceAll { new_text: Some("f00 b00".to_string()), count: 4 });
    assert!(s.modified);
    let mut t = AppState::default();
    let r = t.handle_find_replace(FR_REPLACEALL, &buffer("q"), &buffer("0"), Some("foo"), 0, 0);
    assert_eq!(r, FindReplaceStep::ReplaceAll { new_text: None, count: 0 });
    assert!(t.modified);
}

#[test]
fn dialog_message_without_a_command_does_nothing() {
    let mut s = AppState::default();
    let r = s.handle_find_replace(FR_DOWN | FR_MATCHCASE, &buffer("a"), &[], Some("a"), 0, 0);
    assert_eq!(r, FindReplaceStep::Nothing);
    assert_eq!(s.find_flags, FR_DOWN | FR_MATCHCASE);
}

#[test]
fn replace_all_messages() {
    assert_eq!(replace_all_message(0), "Replaced 0 occurrences.");
    assert_eq!(replace_all_message(1), "Replaced 1 occurrence.");
    assert_eq!(replace_all_message(12), "Replaced 12 occurrences.");
}

#[test]
fn edit_control_scrolls_horizontally_only_without_wrap() {
    assert_eq!(edit_control_style(true), 0x5020_1144);
    assert_eq!(edit_control_style(false), 0x5030_11C4);
    assert_eq!(edit_control_style(false) & WS_HSCROLL, WS_HSCROLL);
}

#[test]
fn layout_with_and_without_status_bar() {
    let client = RECT { left: 0, top: 0, right: 640, bottom: 480 };
    let bar = RECT { left: 10, top: 700, right: 650, bottom: 722 };
    let l = compute_layout(client, true, bar);
    let s = l.status.unwrap();
    assert_eq!((s.x, s.y, s.width, s.height), (0, 458, 640, 22));
    assert_eq!((l.edit.x, l.edit.y, l.edit.width, l.edit.height), (0, 0, 640, 458));
    let l = compute_layout(client, false, bar);
    assert!(l.status.is_none());
    assert_eq!(l.edit.height, 480);
}

#[test]
fn status_bar_position_and_text() {
    assert_eq!(status_position(17, 2, 10), (3, 8));
    assert_eq!(status_bar_text(3, 8, 12), "Ln 3, Col 8    Lines: 12");
    assert_eq!(status_bar_text(1, 1, 1), "Ln 1, Col 1    Lines: 1");
}

#[test]
fn unsigned_sub_saturates() {
    assert_eq!(unsigned_sub(5, 3), 2);
    assert_eq!(unsigned_sub(3, 5), 0);
    assert_eq!(unsigned_sub(0, 1), 0);
}

#[test]
fn command_and_notification_words() {
    assert_eq!(command_of(0x1234_ABCD), 0xABCD);
    assert_eq!(notification_of(0x0300_0001), 0x0300);
    assert_eq!(notification_of(0xFFFF_0400_0001usize as usize), 0x0400);
}

#[test]
fn command_table() {
    assert_eq!(command_action(IDM_FILE_NEW, false, true), Command::FileNew);
    assert_eq!(command_action(IDM_FILE_PRINT, false, true), Command::PrintingNotice);
    assert_eq!(command_action(IDM_EDIT_UNDO, false, true), Command::EditMessage(EM_UNDO));
    assert_eq!(command_action(IDM_EDIT_COPY, false, true), Command::EditMessage(WM_COPY));
    assert_eq!(command_action(IDM_EDIT_GOTO, false, true), Command::GotoDialog);
    assert_eq!(command_action(IDM_EDIT_GOTO, true, false), Command::GotoUnavailable);
    assert_eq!(command_action(IDM_FORMAT_WORD_WRAP, false, true), Command::SetWordWrap(true));
    assert_eq!(command_action(IDM_VIEW_STATUS_BAR, false, true), Command::SetStatusBar(false));
    assert_eq!(command_action(IDM_HELP_ABOUT, false, true), Command::About);
    assert_eq!(command_action(1, false, true), Command::Ignore);
}

fn msg(message: u32, w: usize, l: isize) -> MSG {
    MSG { hwnd: 1, message, wParam: w, lParam: l, time: 0, pt: POINT { x: 0, y: 0 } }
}

#[test]
fn window_messages_are_sorted() {
    assert_eq!(classify_message(&msg(0xC123, 0, 0), 0xC123, 9), WindowEvent::FindReplace);
    assert_eq!(classify_message(&msg(WM_CREATE, 0, 0), 0xC123, 9), WindowEvent::Create);
    assert_eq!(classify_message(&msg(WM_SIZE, 0, 0), 0, 9), WindowEvent::Size);
    assert_eq!(classify_message(&msg(WM_COMMAND, 0x0300_0001, 9), 0, 9), WindowEvent::EditChanged);
    assert_eq!(classify_message(&msg(WM_COMMAND, 0x0400_0001, 9), 0, 9), WindowEvent::EditUpdated);
    assert_eq!(
        classify_message(&msg(WM_COMMAND, 0x0300_0000 | IDM_FILE_NEW as usize, 8), 0, 9),
        WindowEvent::Command(IDM_FILE_NEW)
    );
    assert_eq!(classify_message(&msg(0x0200, 0, 0), 0, 9), WindowEvent::Default);
}

#[test]
fn dialog_messages_are_sorted() {
    assert_eq!(dialog_command(WM_INITDIALOG, 0), DialogCommand::Init);
    assert_eq!(dialog_command(WM_COMMAND, IDOK as usize), DialogCommand::Confirm);
    assert_eq!(dialog_command(WM_COMMAND, IDCANCEL as usize), DialogCommand::Cancel);
    assert_eq!(dialog_command(WM_COMMAND, 1001), DialogCommand::OtherCommand);
    assert_eq!(dialog_command(WM_SIZE, 1), DialogCommand::Unhandled);
}

#[test]
fn go_to_line_is_clamped_to_the_document() {
    assert_eq!(goto_line(1, 3, 10), GotoStep::LineIndex(2));
    assert_eq!(goto_line(1, 30, 10), GotoStep::LineIndex(9));
    assert_eq!(goto_line(1, 5, 0), GotoStep::LineIndex(0));
    assert_eq!(goto_line(0, 3, 10), GotoStep::InvalidLine);
    assert_eq!(goto_line(1, 0, 10), GotoStep::InvalidLine);
}

#[test]
fn go_to_caret_skips_negative_indices() {
    assert_eq!(goto_caret(42), Some(42));
    assert_eq!(goto_caret(-1), None);
}

#[test]
fn time_date_stamp_puts_time_first() {
    let mut time = wide("10:30");
    time.resize(64, 0);
    let mut date = wide("1/2/2024");
    date.resize(64, 0);
    let mut expected = wide("10:30 1/2/2024");
    expected.push(0);
    assert_eq!(time_date_stamp(&time, &date), expected);
}

#[test]
fn replacing_the_font_hands_back_the_old_one() {
    let mut s = AppState::default();
    assert_eq!(s.replace_font(0), None);
    assert_eq!(s.replace_font(11), None);
    assert_eq!(s.hfont, 11);
    assert_eq!(s.replace_font(12), Some(11));
    assert_eq!(s.hfont, 12);
    assert_eq!(s.replace_font(0), None);
    assert_eq!(s.hfont, 12);
}
