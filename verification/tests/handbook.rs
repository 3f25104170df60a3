//! The handbook and the help panel.

use sdrapp_ui::handbook;
use sdrapp_ui::handbook::content::ContentBlock;
use sdrapp_ui::handbook::content::HandbookPage;
use sdrapp_ui::handbook::content::HandbookSection;
use sdrapp_ui::handbook::sections;
use sdrapp_ui::handbook::HandbookWindow;
use sdrapp_ui::help;
use sdrapp_ui::help::HelpPanel;
use sdrapp_ui::help::HelpTab;
use sdrapp_ui::midi::ActionBinding;
use sdrapp_ui::theme::Color;

fn make_section() -> HandbookSection {
    HandbookSection::new(
        "TEST",
        "Test Section",
        Color::from_rgb(255, 0, 0),
        vec![
            HandbookPage::new(vec![
                ContentBlock::Heading("Hello"),
                ContentBlock::Body("Some body text."),
                ContentBlock::Callout { icon: "💡", text: "A tip" },
                ContentBlock::KeyBinding { key: "F1", action: "Open handbook" },
                ContentBlock::BulletList(&["Item A", "Item B"]),
                ContentBlock::NumberedList(&["Step 1", "Step 2"]),
                ContentBlock::Divider,
                ContentBlock::Spacer,
            ]),
            HandbookPage::new(vec![
                ContentBlock::Subheading("Sub"),
                ContentBlock::Image { key: "full_layout", caption: Some("Caption") },
            ]),
        ],
    )
}

#[test]
fn section_has_pages() {
    let s = make_section();
    assert_eq!(s.page_count(), 2);
}

#[test]
fn pages_have_blocks() {
    let s = make_section();
    assert!(!s.pages[0].blocks.is_empty());
    assert!(!s.pages[1].blocks.is_empty());
}

#[test]
fn all_block_variants_constructible() {
    let blocks: Vec<ContentBlock> = vec![
        ContentBlock::Heading("H"),
        ContentBlock::Subheading("S"),
        ContentBlock::Body("B"),
        ContentBlock::Image { key: "k", caption: None },
        ContentBlock::Image { key: "k", caption: Some("c") },
        ContentBlock::Callout { icon: "⚠", text: "t" },
        ContentBlock::KeyBinding { key: "X", action: "a" },
        ContentBlock::BulletList(&[]),
        ContentBlock::NumberedList(&[]),
        ContentBlock::Divider,
        ContentBlock::Spacer,
    ];
    assert_eq!(blocks.len(), 11);
}

#[test]
fn tab_color_is_non_transparent() {
    let s = make_section();
    assert_eq!(s.tab_color.a(), 255, "tab colours must be fully opaque");
}

#[test]
fn default_section_and_page_are_zero() {
    let w = HandbookWindow::new(make_section(), make_section());
    assert_eq!(w.section, 0);
    assert_eq!(w.page, 0);
}

#[test]
fn with_state_clamps_out_of_bounds() {
    let w = HandbookWindow::with_state(999, 999, make_section(), make_section());
    assert!(w.section < w.sections.len());
    let max_page = w.sections[w.section].page_count();
    assert!(w.page < max_page);
}

#[test]
fn with_state_preserves_valid_indices() {
    let w = HandbookWindow::with_state(2, 1, make_section(), make_section());
    assert_eq!(w.section, 2);
    assert_eq!(w.page, 1);
}

#[test]
fn sections_count_matches_tabs() {
    let w = HandbookWindow::new(make_section(), make_section());
    assert_eq!(w.sections.len(), 6);
}

#[test]
fn the_last_section_is_kept() {
    let w = HandbookWindow::with_state(5, 3, make_section(), make_section());
    assert_eq!((w.section, w.page), (5, 3));
    assert_eq!(w.sections[5].title, "MIDI");
    let again = HandbookWindow::with_state(w.section, w.page, make_section(), make_section());
    assert_eq!((again.section, again.page), (5, 3));
}

#[test]
fn opens_at_the_last_page_of_what_there_is() {
    let w = HandbookWindow::open_at(vec![make_section()], 3, 7);
    assert_eq!((w.section, w.page), (0, 1));
    let w = HandbookWindow::open_at(vec![], 3, 7);
    assert_eq!((w.section, w.page), (0, 0));
    assert!(w.current_page().is_none());
    assert_eq!(w.page_label(), "  Page 1  /  1  ");
}

#[test]
fn pages_turn_within_a_section() {
    let mut w = HandbookWindow::open_at(vec![make_section(), make_section()], 0, 0);
    assert_eq!(w.buttons(), (false, true));
    assert_eq!(w.page_label(), "  Page 1  /  2  ");
    w.next_page();
    assert_eq!(w.page, 1);
    assert_eq!(w.buttons(), (true, false));
    assert!(matches!(w.current_page().unwrap().blocks[0], ContentBlock::Subheading("Sub")));
    w.next_page();
    assert_eq!(w.page, 1);
    w.prev_page();
    assert_eq!(w.page, 0);
    w.prev_page();
    assert_eq!(w.page, 0);
    w.next_page();
    w.open_section(1);
    assert_eq!((w.section, w.page), (1, 0));
}

#[test]
fn the_window_closes() {
    assert!(HandbookWindow::stays_open(true, false, false));
    assert!(!HandbookWindow::stays_open(true, true, false));
    assert!(!HandbookWindow::stays_open(true, false, true));
    assert!(!HandbookWindow::stays_open(true, true, true));
    assert!(!HandbookWindow::stays_open(false, false, true));
    assert!(!HandbookWindow::stays_open(false, false, false));
}

#[test]
fn closed_tabs_are_dimmed_as_in_single_precision() {
    for v in 0..=255u8 {
        let c = handbook::tab_fill(Color::from_rgb(v, 0, 255), false);
        assert_eq!(c.r(), (v as f32 * 0.6) as u8);
        assert_eq!(c.b(), (255f32 * 0.6) as u8);
    }
    let open = Color::from_rgb(1, 2, 3);
    assert_eq!(handbook::tab_fill(open, true), open);
}

#[test]
fn the_sections_have_their_pages() {
    let all = sections::all_sections(make_section(), make_section());
    let shape: Vec<(&str, &str, usize)> = all
        .iter()
        .map(|s| (s.title, s.full_title, s.page_count()))
        .collect();
    assert_eq!(
        shape,
        vec![
            ("Welcome", "Welcome to SDRApp", 3),
            ("Layout", "App Layout", 5),
            ("TEST", "Test Section", 2),
            ("TEST", "Test Section", 2),
            ("Controls", "Controls Reference", 6),
            ("MIDI", "MIDI & Shortcuts", 4),
        ]
    );
    for i in [0, 1, 4, 5] {
        for p in &all[i].pages {
            assert!(matches!(p.blocks[0], ContentBlock::Heading(_)));
        }
    }
    assert_eq!(all[0].tab_color, Color::from_rgb(160, 50, 50));
    assert_eq!(all[5].tab_color, Color::from_rgb(25, 120, 130));
    assert!(matches!(
        all[0].pages[0].blocks[5],
        ContentBlock::BulletList(list) if list.len() == 6
            && list[1] == "Aircraft position beacons (ADS-B at 1090 MHz)"
    ));
    match &all[0].pages[0].blocks[1] {
        ContentBlock::Body(text) => assert!(text.ends_with(
            "turn what's left into audio (or data). Traditionally, dedicated hardware chips \
             handled each step."
        )),
        other => panic!("{other:?}"),
    }
}

// ── Help ────────────────────────────────────────────────────────────────────

#[test]
fn help_opens_at_the_overview() {
    let mut p = HelpPanel::default();
    assert_eq!(p.tab, HelpTab::Overview);
    assert_eq!(HelpTab::default(), HelpTab::Overview);
    p.select(HelpTab::MidiMap);
    assert_eq!(p.tab, HelpTab::MidiMap);
    assert_eq!(p.tab.label(), "MIDI Map");
}

#[test]
fn help_lists_bindings_by_page() {
    let b = |page: usize, key: &str| ActionBinding {
        page,
        key: String::from(key),
        action: String::from("x"),
    };
    let table = vec![b(1, "CC 0"), b(0, "CC 1"), b(1, "CC 2")];
    assert_eq!(help::page_bindings(&table, 1), vec![0, 2]);
    assert_eq!(help::page_bindings(&table, 0), vec![1]);
    assert_eq!(help::page_bindings(&table, 2), Vec::<usize>::new());
    assert_eq!(help::page_heading(0), "Page 0: Tune");
    assert_eq!(help::page_heading(2), "Page 2: Record");
    assert_eq!(help::bullet("a"), "• a");
}

#[test]
fn help_tables_are_complete() {
    assert_eq!(help::antenna_table().len(), 9);
    assert_eq!(help::antenna_table()[3].band, "FM Broadcast");
    assert_eq!(help::key_table().len(), 7);
    assert_eq!(help::key_table()[6].action, "Open/close this help panel");
    assert_eq!(help::mode_table().len(), 3);
    assert_eq!(help::quick_start().len(), 6);
    assert_eq!(help::waterfall_tips().len(), 6);
    assert_eq!(help::rds_notes().len(), 5);
    assert_eq!(help::tuning_tips().len(), 5);
    assert!(help::overview().starts_with("A software-defined radio receiver"));
    assert!(help::antenna_ports().ends_with("per the SDRplay documentation."));
    assert!(help::antenna_tip().starts_with("Tip: A discone"));
}

#[test]
fn the_shortcut_overlay_lists_keys_gestures_and_controls() {
    let keys = help::shortcut_keys();
    assert_eq!((keys[0].key, keys[0].action), ("Space", "Start / Stop"));
    let gestures = help::shortcut_gestures();
    assert_eq!((gestures[0].key, gestures[0].action), ("Click spectrum", "Jump to frequency"));
    let controls = help::shortcut_controls();
    assert_eq!((controls[0].key, controls[0].action), ("CYCLE btn", "Next page"));
}
