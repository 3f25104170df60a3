//! Bookmarks: the list, its categories, and saving, recalling, editing and importing.

use vstd::arithmetic::power2::*;
use vstd::prelude::*;
use vstd::string::*;

use crate::app;
use crate::app::BookmarkEdit;
use crate::app::BookmarkPanel;
use crate::app::SdrApp;
use crate::config::AppConfig;
use crate::config::BookmarkConfig;
use crate::config::SourceConfig;
use crate::config::UiConfig;
use crate::decimal;
use crate::frequency;
use crate::frequency::FrequencyWidget;
use crate::left;
use crate::level;
use crate::level::Level;
use crate::receiver;
use crate::receiver::Bookmark;
use crate::receiver::Command;
use crate::receiver::DemodMode;
use crate::receiver::DemodState;
use crate::receiver::SharedState;
use crate::receiver::Station;
use crate::text;

verus! {

// ── Order of texts ──────────────────────────────────────────────────────────

/// `a` comes before `b` in the order of characters.
pub open spec fn text_before(a: Seq<char>, b: Seq<char>) -> bool
    decreases a.len(),
{
    if b.len() == 0 {
        false
    } else if a.len() == 0 {
        true
    } else if a[0] != b[0] {
        a[0] < b[0]
    } else {
        text_before(a.skip(1), b.skip(1))
    }
}

proof fn lemma_text_order_total(a: Seq<char>, b: Seq<char>)
    ensures
        text_before(a, b) || text_before(b, a) || a == b,
        !(text_before(a, b) && text_before(b, a)),
        text_before(a, b) ==> a != b,
    decreases a.len(),
{
    if a.len() == 0 {
        if b.len() == 0 {
            assert(a =~= b);
        }
    } else if b.len() > 0 && a[0] == b[0] {
        lemma_text_order_total(a.skip(1), b.skip(1));
        if a.skip(1) == b.skip(1) {
            assert(a =~= seq![a[0]] + a.skip(1));
            assert(b =~= seq![b[0]] + b.skip(1));
        }
    }
}

proof fn lemma_text_order_transitive(a: Seq<char>, b: Seq<char>, c: Seq<char>)
    requires
        text_before(a, b),
        text_before(b, c),
    ensures
        text_before(a, c),
    decreases a.len(),
{
    if a.len() > 0 && a[0] == b[0] && b[0] == c[0] {
        lemma_text_order_transitive(a.skip(1), b.skip(1), c.skip(1));
    }
}

fn is_before(a: &str, b: &str) -> (r: bool)
    ensures
        r == text_before(a@, b@),
{
    let v: Vec<char> = text::to_chars(a);
    let w: Vec<char> = text::to_chars(b);
    let mut i: usize = 0;
    assert(v@.skip(0) =~= v@);
    assert(w@.skip(0) =~= w@);
    while i < v.len() && i < w.len() && v[i] == w[i]
        invariant
            i <= v@.len(),
            i <= w@.len(),
            text_before(v@, w@) == text_before(v@.skip(i as int), w@.skip(i as int)),
        decreases v@.len() - i,
    {
        assert(v@.skip(i as int).skip(1) =~= v@.skip(i + 1));
        assert(w@.skip(i as int).skip(1) =~= w@.skip(i + 1));
        i += 1;
    }
    if i >= w.len() {
        return false;
    }
    if i >= v.len() {
        return true;
    }
    v[i] < w[i]
}

// ── Categories ──────────────────────────────────────────────────────────────

/// Texts in strictly ascending order.
pub open spec fn ascending(v: Seq<String>) -> bool {
    forall|i: int, j: int| 0 <= i < j < v.len() ==> text_before((#[trigger] v[i])@, (#[trigger] v[j])@)
}

pub open spec fn has_text(v: Seq<String>, s: Seq<char>) -> bool {
    exists|i: int| 0 <= i < v.len() && (#[trigger] v[i])@ == s
}

/// Whether some bookmark has the category `s`.
pub open spec fn has_category(v: Seq<Bookmark>, s: Seq<char>) -> bool {
    exists|i: int| 0 <= i < v.len() && (#[trigger] v[i]).category@ == s
}

/// Puts `s` into an ascending list, once.
fn insert_sorted(v: &mut Vec<String>, s: &str)
    requires
        ascending(old(v)@),
    ensures
        ascending(final(v)@),
        forall|t: Seq<char>| #[trigger]
            has_text(final(v)@, t) == (has_text(old(v)@, t) || t == s@),
{
    let ghost before = v@;
    let mut i: usize = 0;
    while i < v.len() && is_before(v[i].as_str(), s)
        invariant
            v@ == before,
            i <= v@.len(),
            forall|j: int| 0 <= j < i ==> text_before((#[trigger] v@[j])@, s@),
        decreases v@.len() - i,
    {
        i += 1;
    }
    if i < v.len() && text::same_text(v[i].as_str(), s) {
        assert forall|t: Seq<char>| #[trigger] has_text(v@, t) == (has_text(before, t) || t
            == s@) by {
            if t == s@ {
                assert(v@[i as int]@ == t);
            }
        }
        return;
    }
    let item: String = text::owned(s);
    v.insert(i, item);
    proof {
        assert forall|a: int, b: int| 0 <= a < b < v@.len() implies text_before(
            (#[trigger] v@[a])@,
            (#[trigger] v@[b])@,
        ) by {
            if b < i {
                assert(v@[a] == before[a] && v@[b] == before[b]);
            } else if b == i {
                assert(v@[a] == before[a]);
            } else {
                // v[b] is before[b - 1], at or after position i.
                assert(v@[b] == before[b - 1]);
                lemma_text_order_total(before[i as int]@, s@);
                assert(text_before(s@, before[i as int]@));
                if b - 1 > i {
                    assert(text_before(before[i as int]@, before[b - 1]@));
                    lemma_text_order_transitive(s@, before[i as int]@, before[b - 1]@);
                }
                if a < i {
                    assert(v@[a] == before[a]);
                } else if a > i {
                    assert(v@[a] == before[a - 1]);
                }
            }
        }
        assert forall|t: Seq<char>| #[trigger] has_text(v@, t) == (has_text(before, t) || t
            == s@) by {
            if has_text(before, t) {
                let k = choose|k: int| 0 <= k < before.len() && (#[trigger] before[k])@ == t;
                if k < i {
                    assert(v@[k]@ == t);
                } else {
                    assert(v@[k + 1]@ == t);
                }
            }
            if t == s@ {
                assert(v@[i as int]@ == t);
            }
            if has_text(v@, t) {
                let k = choose|k: int| 0 <= k < v@.len() && (#[trigger] v@[k])@ == t;
                if k < i {
                    assert(before[k]@ == t);
                } else if k > i {
                    assert(before[k - 1]@ == t);
                }
            }
        }
    }
}

/// `r` lists the categories in use of the bookmarks `v`.
pub open spec fn are_categories(r: Seq<String>, v: Seq<Bookmark>) -> bool {
    &&& r.len() >= 1
    &&& r[0]@ == Seq::<char>::empty()
    &&& ascending(r)
    &&& forall|t: Seq<char>| t.len() > 0 ==> #[trigger] has_text(r, t) == has_category(v, t)
}

/// The categories in use: the empty one, which stands for all, then the others in ascending order.
pub fn categories(bookmarks: &Vec<Bookmark>) -> (r: Vec<String>)
    ensures
        are_categories(r@, bookmarks@),
{
    let mut v: Vec<String> = Vec::new();
    v.push(String::new());
    assert(v@[0]@ =~= Seq::<char>::empty());
    let mut i: usize = 0;
    while i < bookmarks.len()
        invariant
            i <= bookmarks@.len(),
            ascending(v@),
            has_text(v@, Seq::<char>::empty()),
            forall|t: Seq<char>|
                t.len() > 0 ==> #[trigger] has_text(v@, t) == has_category(
                    bookmarks@.take(i as int),
                    t,
                ),
        decreases bookmarks@.len() - i,
    {
        let ghost before = v@;
        let cat: &String = &bookmarks[i].category;
        if !cat.as_str().is_empty() {
            insert_sorted(&mut v, cat.as_str());
        }
        proof {
            let b0 = bookmarks@.take(i as int);
            let b1 = bookmarks@.take(i + 1);
            assert forall|t: Seq<char>| t.len() > 0 implies #[trigger] has_text(v@, t)
                == has_category(b1, t) by {
                assert(has_text(before, t) == has_category(b0, t));
                if has_category(b0, t) {
                    let k = choose|k: int| 0 <= k < b0.len() && (#[trigger] b0[k]).category@ == t;
                    assert(b1[k].category@ == t);
                }
                if has_category(b1, t) {
                    let k = choose|k: int| 0 <= k < b1.len() && (#[trigger] b1[k]).category@ == t;
                    if k < i {
                        assert(b0[k].category@ == t);
                    } else {
                        assert(t == cat@);
                    }
                }
                if t == cat@ {
                    assert(b1[i as int].category@ == t);
                }
            }
            assert(has_text(before, Seq::<char>::empty()));
            assert(has_text(v@, Seq::<char>::empty()));
        }
        i += 1;
    }
    proof {
        assert(bookmarks@.take(bookmarks@.len() as int) =~= bookmarks@);
        let k = choose|k: int| 0 <= k < v@.len() && (#[trigger] v@[k])@ == Seq::<char>::empty();
        if k > 0 {
            // Nothing comes before the empty text.
            assert(text_before(v@[0]@, v@[k]@));
            assert(false);
        }
    }
    v
}

// ── The list ────────────────────────────────────────────────────────────────

/// A row comes before another: by frequency when sorted, ties and otherwise by position.
pub open spec fn row_before(v: Seq<Bookmark>, by_freq: bool, a: int, b: int) -> bool {
    if by_freq && v[a].freq_hz != v[b].freq_hz {
        v[a].freq_hz < v[b].freq_hz
    } else {
        a < b
    }
}

/// The rows of the list: the positions of the bookmarks of a category, each once, in order.
pub open spec fn is_listing(
    rows: Seq<usize>,
    v: Seq<Bookmark>,
    by_freq: bool,
    cat: Seq<char>,
) -> bool {
    &&& forall|i: int| 0 <= i < rows.len() ==> (#[trigger] rows[i]) < v.len() && left::in_category(
        v[rows[i] as int],
        cat,
    )
    &&& forall|k: int|
        0 <= k < v.len() && left::in_category(#[trigger] v[k], cat) ==> rows.contains(k as usize)
    &&& forall|i: int, j: int|
        0 <= i < j < rows.len() ==> row_before(
            v,
            by_freq,
            (#[trigger] rows[i]) as int,
            (#[trigger] rows[j]) as int,
        )
}

/// The rows of the bookmark list, by position in `bookmarks`.
pub fn listed(bookmarks: &Vec<Bookmark>, by_freq: bool, cat: &str) -> (rows: Vec<usize>)
    ensures
        is_listing(rows@, bookmarks@, by_freq, cat@),
{
    let mut rows: Vec<usize> = Vec::new();
    let mut k: usize = 0;
    while k < bookmarks.len()
        invariant
            k <= bookmarks@.len(),
            forall|i: int|
                0 <= i < rows@.len() ==> (#[trigger] rows@[i]) < k && left::in_category(
                    bookmarks@[rows@[i] as int],
                    cat@,
                ),
            forall|m: int|
                0 <= m < k && left::in_category(#[trigger] bookmarks@[m], cat@)
                    ==> rows@.contains(m as usize),
            forall|i: int, j: int|
                0 <= i < j < rows@.len() ==> row_before(
                    bookmarks@,
                    by_freq,
                    (#[trigger] rows@[i]) as int,
                    (#[trigger] rows@[j]) as int,
                ),
        decreases bookmarks@.len() - k,
    {
        let ghost before = rows@;
        if cat.is_empty() || text::same_text(bookmarks[k].category.as_str(), cat) {
            let mut at: usize = rows.len();
            while at > 0 && by_freq && bookmarks[k].freq_hz < bookmarks[rows[at - 1]].freq_hz
                invariant
                    rows@ == before,
                    k < bookmarks@.len(),
                    at <= rows@.len(),
                    forall|i: int| 0 <= i < rows@.len() ==> (#[trigger] rows@[i]) < k,
                    at < rows@.len() ==> by_freq,
                    forall|i: int|
                        at <= i < rows@.len() ==> bookmarks@[k as int].freq_hz
                            < bookmarks@[(#[trigger] rows@[i]) as int].freq_hz,
                decreases at,
            {
                at -= 1;
            }
            rows.insert(at, k);
            proof {
                assert forall|i: int, j: int| 0 <= i < j < rows@.len() implies row_before(
                    bookmarks@,
                    by_freq,
                    (#[trigger] rows@[i]) as int,
                    (#[trigger] rows@[j]) as int,
                ) by {
                    let pi = if i < at {
                        i
                    } else {
                        i - 1
                    };
                    let pj = if j < at {
                        j
                    } else {
                        j - 1
                    };
                    if i != at {
                        assert(rows@[i] == before[pi]);
                    }
                    if j != at {
                        assert(rows@[j] == before[pj]);
                    }
                    if j == at && at > 0 && by_freq {
                        // Rows up to `at` are not above the new frequency.
                        assert(before[at - 1] < k);
                        if i < at - 1 {
                            assert(row_before(
                                bookmarks@,
                                by_freq,
                                before[i] as int,
                                before[at - 1] as int,
                            ));
                        }
                    }
                }
                assert forall|m: int|
                    0 <= m < k + 1 && left::in_category(
                        #[trigger] bookmarks@[m],
                        cat@,
                    ) implies rows@.contains(m as usize) by {
                    if m < k {
                        let i = choose|i: int| 0 <= i < before.len() && before[i] == m as usize;
                        if i < at {
                            assert(rows@[i] == m as usize);
                        } else {
                            assert(rows@[i + 1] == m as usize);
                        }
                    } else {
                        assert(rows@[at as int] == k);
                    }
                }
                assert forall|i: int| 0 <= i < rows@.len() implies (#[trigger] rows@[i]) < k + 1
                    && left::in_category(bookmarks@[rows@[i] as int], cat@) by {
                    if i < at {
                        assert(rows@[i] == before[i]);
                    } else if i > at {
                        assert(rows@[i] == before[i - 1]);
                    }
                }
            }
        }
        k += 1;
    }
    rows
}

/// The hover text of a row.
pub open spec fn row_hover_text(b: Bookmark) -> Seq<char> {
    "Mode: "@ + b.mode.stored_name() + "  Category: "@ + (if b.category@.len() == 0 {
        "—"@
    } else {
        b.category@
    }) + "  Antenna: "@ + (match b.antenna {
        Some(a) => a@,
        None => "default"@,
    })
}

/// The hover text of a row.
pub fn row_hover(b: &Bookmark) -> (r: String)
    ensures
        r@ == row_hover_text(*b),
{
    let mut s: String = text::owned("Mode: ");
    s.append(b.mode.name());
    s.append("  Category: ");
    if b.category.as_str().is_empty() {
        s.append("—");
    } else {
        s.append(b.category.as_str());
    }
    s.append("  Antenna: ");
    match &b.antenna {
        Some(a) => s.append(a.as_str()),
        None => s.append("default"),
    }
    s
}

/// A row of the bookmark manager: name, frequency, antenna and category.
pub open spec fn manager_row_text(b: Bookmark) -> Seq<char> {
    left::bookmark_label_text(b.name@, b.freq_hz as nat) + (match b.antenna {
        Some(a) => " · Ant "@ + a@,
        None => Seq::empty(),
    }) + (if b.category@.len() == 0 {
        Seq::empty()
    } else {
        " · "@ + b.category@
    })
}

pub fn manager_row(b: &Bookmark) -> (r: String)
    ensures
        r@ == manager_row_text(*b),
{
    let mut s: String = left::bookmark_label(b.name.as_str(), b.freq_hz);
    if let Some(a) = &b.antenna {
        s.append(" · Ant ");
        s.append(a.as_str());
    }
    if !b.category.as_str().is_empty() {
        s.append(" · ");
        s.append(b.category.as_str());
    }
    assert(s@ =~= manager_row_text(*b));
    s
}

// ── Editing ─────────────────────────────────────────────────────────────────

/// The frequency that the edit form holds; 0 when it holds none.
pub open spec fn edited_freq(s: Seq<char>) -> nat {
    let t = text::trimmed(s);
    if frequency::is_whole_number(t) {
        text::dec_value(frequency::whole_number_digits(t))
    } else {
        0
    }
}

/// The frequency typed into the edit form; 0 when there is none.
pub fn edit_frequency(s: &str) -> (r: u64)
    ensures
        r == edited_freq(s@),
{
    let t: String = text::trim(s);
    let v: Vec<char> = text::to_chars(t.as_str());
    match frequency::parse_whole_number(&v) {
        Some(n) => n,
        None => 0,
    }
}

/// The edit form can be saved.
pub open spec fn edit_is_valid_spec(s: Seq<char>) -> bool {
    edited_freq(s) > 0
}

/// The edit form can be saved.
pub fn edit_is_valid(s: &str) -> (r: bool)
    ensures
        r == edit_is_valid_spec(s@),
{
    edit_frequency(s) > 0
}

/// The narrow-band settings of a mode: only narrow FM has them.
pub open spec fn narrow_only<T>(mode: DemodMode, x: T) -> Option<T> {
    if mode == DemodMode::Nfm {
        Some(x)
    } else {
        None
    }
}

/// The bookmark that an edit form describes.
pub open spec fn edited_bookmark(e: BookmarkEdit, freq: u64) -> Bookmark {
    Bookmark {
        name: e.name,
        freq_hz: freq,
        mode: e.mode,
        category: e.category,
        nfm_bandwidth_hz: narrow_only(e.mode, e.nfm_bandwidth_hz),
        squelch_threshold_dbfs: narrow_only(e.mode, e.squelch_dbfs),
        ctcss_enabled: narrow_only(e.mode, e.ctcss),
        antenna: e.antenna,
    }
}

/// `c` stores `b`.
pub open spec fn stores(c: BookmarkConfig, b: Bookmark) -> bool {
    &&& c.name == b.name
    &&& c.freq_hz == b.freq_hz
    &&& c.mode@ == b.mode.stored_name()
    &&& c.category == b.category
    &&& c.nfm_bandwidth_hz == b.nfm_bandwidth_hz
    &&& c.squelch_threshold_dbfs == b.squelch_threshold_dbfs
    &&& c.ctcss_enabled == b.ctcss_enabled
    &&& c.antenna == b.antenna
}

fn copy_text(s: &Option<String>) -> (r: Option<String>)
    ensures
        r == *s,
{
    match s {
        Some(t) => Some(t.clone()),
        None => None,
    }
}

// ── Recalling ───────────────────────────────────────────────────────────────

/// The commands that put a bookmark into effect, after its antenna.
pub open spec fn recall_commands(b: Bookmark) -> Seq<Command> {
    seq![Command::SetFrequency(b.freq_hz), Command::SetDemodMode(b.mode)] + if b.mode
        == DemodMode::Nfm {
        (match b.nfm_bandwidth_hz {
            Some(bw) => seq![Command::SetNfmBandwidth(bw)],
            None => Seq::empty(),
        }) + (match b.squelch_threshold_dbfs {
            Some(sq) => seq![Command::SetSquelchThreshold(sq)],
            None => Seq::empty(),
        }) + (match b.ctcss_enabled {
            Some(ct) => seq![Command::SetCtcssEnabled(ct)],
            None => Seq::empty(),
        })
    } else {
        Seq::empty()
    }
}

/// The antenna commands of a recall: the bookmark's port when it differs from the one in use; for
/// a bookmark without antenna, the port that an earlier bookmark displaced.
pub open spec fn recall_antenna_commands(a: &SdrApp, b: Bookmark) -> Seq<Command> {
    match b.antenna {
        Some(ant) => if a.config.source.antenna@ == ant@ {
            Seq::empty()
        } else {
            seq![Command::SetAntenna(app::port_number(ant@))]
        },
        None => match a.bookmarks.prev_antenna {
            Some(prev) => seq![Command::SetAntenna(app::port_number(prev@))],
            None => Seq::empty(),
        },
    }
}

/// The antenna in use and the one to go back to after a recall.
pub open spec fn recall_antennas(a: &SdrApp, b: Bookmark) -> (String, Option<String>) {
    match b.antenna {
        Some(ant) => if a.config.source.antenna@ == ant@ {
            (a.config.source.antenna, a.bookmarks.prev_antenna)
        } else {
            (ant, Some(a.config.source.antenna))
        },
        None => match a.bookmarks.prev_antenna {
            Some(prev) => (prev, None),
            None => (a.config.source.antenna, None),
        },
    }
}

/// What recalling a bookmark does.
pub open spec fn after_recall(a: &SdrApp, b: Bookmark, n: &SdrApp) -> bool {
    &&& n.outbox@ =~= a.outbox@ + recall_antenna_commands(a, b) + recall_commands(b)
    &&& app::is_fresh_widget(n.frequency_widget, b.freq_hz)
    &&& *n == (SdrApp {
        config: AppConfig {
            ui: UiConfig { frequency_hz: b.freq_hz, ..a.config.ui },
            source: SourceConfig { antenna: recall_antennas(a, b).0, ..a.config.source },
            ..a.config
        },
        config_dirty: true,
        outbox: n.outbox,
        frequency_widget: n.frequency_widget,
        bookmarks: BookmarkPanel { prev_antenna: recall_antennas(a, b).1, ..a.bookmarks },
        ..*a
    })
}

/// `c` stores what `shared` receives now.
pub open spec fn is_saved_from(c: BookmarkConfig, shared: SharedState) -> bool {
    let d = shared.demod;
    &&& c.name@ == decimal::quotient_text(shared.center_freq_hz as nat, 1_000_000, 3) + " MHz"@
    &&& c.freq_hz == shared.center_freq_hz
    &&& c.mode@ == d.demod_mode.stored_name()
    &&& c.category@ == Seq::<char>::empty()
    &&& c.nfm_bandwidth_hz == narrow_only(d.demod_mode, d.nfm_bandwidth_hz)
    &&& c.squelch_threshold_dbfs == narrow_only(d.demod_mode, d.squelch_threshold)
    &&& c.ctcss_enabled == narrow_only(d.demod_mode, d.ctcss_squelch_enabled)
    &&& c.antenna is None
}

/// The modes that a bookmark can be given, with their labels.
pub open spec fn edit_mode_offer(i: int) -> Option<(DemodMode, Seq<char>)> {
    if i == 0 {
        Some((DemodMode::Wbfm, "WBFM"@))
    } else if i == 1 {
        Some((DemodMode::Nfm, "NFM"@))
    } else if i == 2 {
        Some((DemodMode::Am, "AM"@))
    } else if i == 3 {
        Some((DemodMode::Usb, "USB"@))
    } else if i == 4 {
        Some((DemodMode::Lsb, "LSB"@))
    } else if i == 5 {
        Some((DemodMode::Dsb, "DSB"@))
    } else if i == 6 {
        Some((DemodMode::Cw, "CW"@))
    } else {
        None
    }
}

pub fn edit_mode_choice(i: usize) -> (r: Option<(DemodMode, &'static str)>)
    ensures
        match r {
            Some(c) => edit_mode_offer(i as int) == Some((c.0, c.1@)),
            None => edit_mode_offer(i as int) is None,
        },
{
    match i {
        0 => Some((DemodMode::Wbfm, "WBFM")),
        1 => Some((DemodMode::Nfm, "NFM")),
        2 => Some((DemodMode::Am, "AM")),
        3 => Some((DemodMode::Usb, "USB")),
        4 => Some((DemodMode::Lsb, "LSB")),
        5 => Some((DemodMode::Dsb, "DSB")),
        6 => Some((DemodMode::Cw, "CW")),
        _ => None,
    }
}

/// What removing a bookmark does.
pub open spec fn after_remove(a: &SdrApp, i: usize, n: &SdrApp) -> bool {
    &&& n.queued(a, seq![Command::RemoveBookmark(i)])
    &&& ({
        let stored = i < a.config.bookmarks@.len();
        &&& stored ==> n.config.bookmarks@ == a.config.bookmarks@.remove(i as int)
        &&& !stored ==> n.config.bookmarks == a.config.bookmarks
        &&& *n == (SdrApp {
            config: AppConfig {
                bookmarks: n.config.bookmarks,
                ..a.config
            },
            config_dirty: a.config_dirty || stored,
            outbox: n.outbox,
            bookmarks: BookmarkPanel { edit_idx: None, ..a.bookmarks },
            ..*a
        })
    })
}

/// What opening the edit form does.
pub open spec fn after_start_edit(a: &SdrApp, shared: &SharedState, i: usize, n: &SdrApp) -> bool {
    if i < shared.bookmarks@.len() {
        let b = shared.bookmarks@[i as int];
        let e = n.bookmarks.edit;
        &&& e == (BookmarkEdit {
            name: b.name,
            freq: e.freq,
            mode: b.mode,
            category: b.category,
            nfm_bandwidth_hz: if b.nfm_bandwidth_hz is Some {
                b.nfm_bandwidth_hz->0
            } else {
                12_500
            },
            squelch_dbfs: if b.squelch_threshold_dbfs is Some {
                b.squelch_threshold_dbfs->0
            } else {
                level::of(level::DEFAULT_SQUELCH_BITS)
            },
            ctcss: b.ctcss_enabled is Some && b.ctcss_enabled->0,
            antenna: b.antenna,
        })
        &&& e.freq@ == text::dec(b.freq_hz as nat)
        &&& *n == (SdrApp {
            bookmarks: BookmarkPanel { edit_idx: Some(i), edit: e, ..a.bookmarks },
            ..*a
        })
    } else {
        *n == *a
    }
}

/// What saving the edit form does.
pub open spec fn after_commit(a: &SdrApp, i: usize, n: &SdrApp) -> bool {
    let freq = edited_freq(a.bookmarks.edit.freq@) as u64;
    let b = edited_bookmark(a.bookmarks.edit, freq);
    let closed = BookmarkPanel { edit_idx: None, ..a.bookmarks };
    if freq > 0 {
        let stored = i < a.config.bookmarks@.len();
        &&& n.queued(a, seq![Command::EditBookmark(i, b)])
        &&& stored ==> {
            &&& stores(n.config.bookmarks@[i as int], b)
            &&& n.config.bookmarks@ == a.config.bookmarks@.update(
                i as int,
                n.config.bookmarks@[i as int],
            )
        }
        &&& !stored ==> n.config.bookmarks == a.config.bookmarks
        &&& *n == (SdrApp {
            config: AppConfig {
                bookmarks: n.config.bookmarks,
                ..a.config
            },
            config_dirty: a.config_dirty || stored,
            outbox: n.outbox,
            bookmarks: closed,
            ..*a
        })
    } else {
        *n == (SdrApp { bookmarks: closed, ..*a })
    }
}

/// What importing bookmarks does.
pub open spec fn after_import(
    a: &SdrApp,
    shared: &SharedState,
    imported: Vec<BookmarkConfig>,
    n: &SdrApp,
    shared_after: &SharedState,
) -> bool {
    if imported@.len() == 0 {
        *n == *a && *shared_after == *shared
    } else {
        &&& *n == (SdrApp {
            config: AppConfig { bookmarks: imported, ..a.config },
            config_dirty: true,
            ..*a
        })
        &&& *shared_after == (SharedState {
            bookmarks: shared_after.bookmarks,
            ..*shared
        })
        &&& shared_after.bookmarks@ == imported@.map_values(|c: BookmarkConfig| restored(c))
    }
}

/// The file that bookmarks are exported to and imported from.
pub open spec fn bookmarks_path_text(a: &SdrApp) -> Seq<char> {
    match a.config.bookmarks_file {
        Some(f) if f@.len() > 0 => f@,
        _ => a.config.bookmarks_export_path@,
    }
}

/// What closing the edit form does.
pub open spec fn after_cancel(a: &SdrApp, n: &SdrApp) -> bool {
    *n == (SdrApp {
        bookmarks: BookmarkPanel { edit_idx: None, ..a.bookmarks },
        ..*a
    })
}

/// What opening the manager does.
pub open spec fn after_open_manager(a: &SdrApp, n: &SdrApp) -> bool {
    *n == (SdrApp {
        bookmarks: BookmarkPanel {
            edit_idx: None,
            show_manager: true,
            ..a.bookmarks
        },
        ..*a
    })
}

/// What storing the current station does.
pub open spec fn after_save(a: &SdrApp, shared: &SharedState, n: &SdrApp) -> bool {
    let d = shared.demod;
    let saved = n.config.bookmarks@.last();
    &&& n.config.bookmarks@ == a.config.bookmarks@.push(saved)
    &&& saved.name@ == decimal::quotient_text(
        shared.center_freq_hz as nat,
        1_000_000,
        3,
    ) + " MHz"@
    &&& saved.freq_hz == shared.center_freq_hz
    &&& saved.mode@ == d.demod_mode.stored_name()
    &&& saved.category@ == Seq::<char>::empty()
    &&& saved.nfm_bandwidth_hz == narrow_only(d.demod_mode, d.nfm_bandwidth_hz)
    &&& saved.squelch_threshold_dbfs == narrow_only(d.demod_mode, d.squelch_threshold)
    &&& saved.ctcss_enabled == narrow_only(d.demod_mode, d.ctcss_squelch_enabled)
    &&& saved.antenna is None
    &&& is_saved_from(saved, *shared)
    &&& n.queued(a, seq![Command::AddBookmark(saved.name)])
    &&& *n == (SdrApp {
        config: AppConfig {
            bookmarks: n.config.bookmarks,
            ..a.config
        },
        config_dirty: true,
        outbox: n.outbox,
        ..*a
    })
}

impl SdrApp {
    /// The antenna part of a recall.
    fn recall_antenna(&mut self, b: &Bookmark)
        ensures
            final(self).outbox@ =~= old(self).outbox@ + recall_antenna_commands(old(self), *b),
            *final(self) == (SdrApp {
                config: AppConfig {
                    source: SourceConfig {
                        antenna: recall_antennas(old(self), *b).0,
                        ..old(self).config.source
                    },
                    ..old(self).config
                },
                config_dirty: final(self).config_dirty,
                outbox: final(self).outbox,
                bookmarks: BookmarkPanel {
                    prev_antenna: recall_antennas(old(self), *b).1,
                    ..old(self).bookmarks
                },
                ..*old(self)
            }),
    {
        match &b.antenna {
            Some(ant) => {
                if !text::same_text(self.config.source.antenna.as_str(), ant.as_str()) {
                    let port: u8 = app::antenna_port(ant.as_str());
                    self.bookmarks.prev_antenna = Some(self.config.source.antenna.clone());
                    self.config.source.antenna = ant.clone();
                    self.config_dirty = true;
                    self.send(Command::SetAntenna(port));
                }
            },
            None => {
                self.restore_bookmark_antenna();
            },
        }
    }

    /// The receiver part of a recall.
    fn recall_settings(&mut self, b: &Bookmark)
        ensures
            final(self).outbox@ =~= old(self).outbox@ + recall_commands(*b),
            *final(self) == (SdrApp { outbox: final(self).outbox, ..*old(self) }),
    {
        self.send(Command::SetFrequency(b.freq_hz));
        self.send(Command::SetDemodMode(b.mode));
        if b.mode == DemodMode::Nfm {
            if let Some(bw) = b.nfm_bandwidth_hz {
                self.send(Command::SetNfmBandwidth(bw));
            }
            if let Some(sq) = b.squelch_threshold_dbfs {
                self.send(Command::SetSquelchThreshold(sq));
            }
            if let Some(ct) = b.ctcss_enabled {
                self.send(Command::SetCtcssEnabled(ct));
            }
        }
    }

    /// Recalls the bookmark at position `i`.
    pub fn bookmark_recall(&mut self, shared: &mut SharedState, i: usize)
        requires
            i < old(shared).bookmarks@.len(),
        ensures
            *final(shared) == (SharedState { bookmark_cursor: i, ..*old(shared) }),
            after_recall(old(self), old(shared).bookmarks@[i as int], final(self)),
    {
        shared.bookmark_cursor = i;
        let b: &Bookmark = &shared.bookmarks[i];
        self.recall_antenna(b);
        self.recall_settings(b);
        self.config.ui.frequency_hz = b.freq_hz;
        self.frequency_widget = FrequencyWidget::new(b.freq_hz);
        self.config_dirty = true;
    }

    /// Stores what is received now as a new bookmark.
    pub fn bookmark_save_current(&mut self, shared: &SharedState)
        ensures
            after_save(old(self), shared, final(self)),
    {
        let mut name: String = String::new();
        decimal::push_quotient(&mut name, shared.center_freq_hz, 1_000_000, 3);
        name.append(" MHz");
        assert(name@ =~= decimal::quotient_text(shared.center_freq_hz as nat, 1_000_000, 3)
            + " MHz"@);
        self.send(Command::AddBookmark(name.clone()));
        let mode: DemodMode = shared.demod.demod_mode;
        let narrow: bool = mode == DemodMode::Nfm;
        self.config.bookmarks.push(
            BookmarkConfig {
                name,
                freq_hz: shared.center_freq_hz,
                mode: text::owned(mode.name()),
                category: String::new(),
                nfm_bandwidth_hz: if narrow {
                    Some(shared.demod.nfm_bandwidth_hz)
                } else {
                    None
                },
                squelch_threshold_dbfs: if narrow {
                    Some(shared.demod.squelch_threshold)
                } else {
                    None
                },
                ctcss_enabled: if narrow {
                    Some(shared.demod.ctcss_squelch_enabled)
                } else {
                    None
                },
                antenna: None,
            },
        );
        self.config_dirty = true;
    }

    /// Removes the bookmark at position `i`; an open edit form closes.
    pub fn bookmark_remove(&mut self, i: usize)
        ensures
            after_remove(old(self), i, final(self)),
    {
        self.bookmarks.edit_idx = None;
        self.send(Command::RemoveBookmark(i));
        if i < self.config.bookmarks.len() {
            self.config.bookmarks.remove(i);
            self.config_dirty = true;
        }
    }

    /// Opens the edit form on the bookmark at position `i`, if there is one.
    pub fn bookmark_start_edit(&mut self, shared: &SharedState, i: usize)
        ensures
            after_start_edit(old(self), shared, i, final(self)),
    {
        if i < shared.bookmarks.len() {
            let b: &Bookmark = &shared.bookmarks[i];
            self.bookmarks.edit = BookmarkEdit {
                name: b.name.clone(),
                freq: text::dec_text(b.freq_hz),
                mode: b.mode,
                category: b.category.clone(),
                nfm_bandwidth_hz: match b.nfm_bandwidth_hz {
                    Some(bw) => bw,
                    None => 12_500,
                },
                squelch_dbfs: match b.squelch_threshold_dbfs {
                    Some(sq) => sq,
                    None => level::of(level::DEFAULT_SQUELCH_BITS),
                },
                ctcss: match b.ctcss_enabled {
                    Some(ct) => ct,
                    None => false,
                },
                antenna: copy_text(&b.antenna),
            };
            self.bookmarks.edit_idx = Some(i);
        }
    }

    /// Takes over the edit form for the bookmark at position `i`. Without a frequency above zero
    /// only the form closes.
    pub fn bookmark_commit_edit(&mut self, i: usize)
        ensures
            after_commit(old(self), i, final(self)),
    {
        let freq: u64 = edit_frequency(self.bookmarks.edit.freq.as_str());
        if freq > 0 {
            let mode: DemodMode = self.bookmarks.edit.mode;
            let narrow: bool = mode == DemodMode::Nfm;
            let bw: Option<u32> = if narrow {
                Some(self.bookmarks.edit.nfm_bandwidth_hz)
            } else {
                None
            };
            let sq: Option<Level> = if narrow {
                Some(self.bookmarks.edit.squelch_dbfs)
            } else {
                None
            };
            let ct: Option<bool> = if narrow {
                Some(self.bookmarks.edit.ctcss)
            } else {
                None
            };
            let b: Bookmark = Bookmark {
                name: self.bookmarks.edit.name.clone(),
                freq_hz: freq,
                mode,
                category: self.bookmarks.edit.category.clone(),
                nfm_bandwidth_hz: bw,
                squelch_threshold_dbfs: sq,
                ctcss_enabled: ct,
                antenna: copy_text(&self.bookmarks.edit.antenna),
            };
            self.send(Command::EditBookmark(i, b));
            if i < self.config.bookmarks.len() {
                let c: BookmarkConfig = BookmarkConfig {
                    name: self.bookmarks.edit.name.clone(),
                    freq_hz: freq,
                    mode: text::owned(mode.name()),
                    category: self.bookmarks.edit.category.clone(),
                    nfm_bandwidth_hz: bw,
                    squelch_threshold_dbfs: sq,
                    ctcss_enabled: ct,
                    antenna: copy_text(&self.bookmarks.edit.antenna),
                };
                self.config.bookmarks.set(i, c);
                self.config_dirty = true;
            }
        }
        self.bookmarks.edit_idx = None;
    }

    /// Closes the edit form.
    pub fn bookmark_cancel_edit(&mut self)
        ensures
            after_cancel(old(self), final(self)),
    {
        self.bookmarks.edit_idx = None;
    }

    /// Opens the manager.
    pub fn open_bookmark_manager(&mut self)
        ensures
            after_open_manager(old(self), final(self)),
    {
        self.bookmarks.show_manager = true;
        self.bookmarks.edit_idx = None;
    }

    /// Takes over imported bookmarks in place of all others. An empty import changes nothing.
    pub fn bookmark_import(&mut self, shared: &mut SharedState, imported: Vec<BookmarkConfig>)
        ensures
            after_import(old(self), old(shared), imported, final(self), final(shared)),
    {
        if imported.len() == 0 {
            return;
        }
        let mut v: Vec<Bookmark> = Vec::new();
        let mut i: usize = 0;
        while i < imported.len()
            invariant
                i <= imported@.len(),
                v@ =~= imported@.take(i as int).map_values(|c: BookmarkConfig| restored(c)),
            decreases imported@.len() - i,
        {
            let c: &BookmarkConfig = &imported[i];
            v.push(
                Bookmark {
                    name: c.name.clone(),
                    freq_hz: c.freq_hz,
                    mode: receiver::parse_config_demod_mode(c.mode.as_str()),
                    category: c.category.clone(),
                    nfm_bandwidth_hz: c.nfm_bandwidth_hz,
                    squelch_threshold_dbfs: c.squelch_threshold_dbfs,
                    ctcss_enabled: c.ctcss_enabled,
                    antenna: copy_text(&c.antenna),
                },
            );
            i += 1;
        }
        assert(imported@.take(imported@.len() as int) =~= imported@);
        shared.bookmarks = v;
        self.config.bookmarks = imported;
        self.config_dirty = true;
    }

    /// The file that bookmarks are exported to and imported from.
    pub fn bookmarks_path(&self) -> (r: String)
        ensures
            r@ == bookmarks_path_text(self),
    {
        if let Some(f) = &self.config.bookmarks_file {
            if !f.as_str().is_empty() {
                return f.clone();
            }
        }
        self.config.bookmarks_export_path.clone()
    }
}

/// The bookmark that a stored entry restores.
pub open spec fn restored(c: BookmarkConfig) -> Bookmark {
    Bookmark {
        name: c.name,
        freq_hz: c.freq_hz,
        mode: receiver::stored_mode(c.mode@),
        category: c.category,
        nfm_bandwidth_hz: c.nfm_bandwidth_hz,
        squelch_threshold_dbfs: c.squelch_threshold_dbfs,
        ctcss_enabled: c.ctcss_enabled,
        antenna: c.antenna,
    }
}

// ── Laws ────────────────────────────────────────────────────────────────────

/// Recalling a bookmark with its own antenna and then tuning by hand leaves the antenna that was
/// in use before the recall.
pub proof fn law_tuning_away_restores_antenna(
    before: SdrApp,
    b: Bookmark,
    recalled: SdrApp,
    freq: u64,
    after: SdrApp,
)
    requires
        b.antenna is Some,
        before.config.source.antenna@ != b.antenna->0@,
        after_recall(&before, b, &recalled),
        app::after_apply_tune(&recalled, freq, &after),
    ensures
        after.config.source == before.config.source,
        after.bookmarks.prev_antenna is None,
        after.config.ui.frequency_hz == freq,
{
}

/// A stored bookmark that is imported again is the bookmark that was stored, its narrow-band
/// settings and its antenna with it.
pub proof fn law_import_restores_bookmark(b: Bookmark, c: BookmarkConfig)
    requires
        c.name == b.name,
        c.freq_hz == b.freq_hz,
        c.mode@ == b.mode.stored_name(),
        c.category == b.category,
        c.nfm_bandwidth_hz == b.nfm_bandwidth_hz,
        c.squelch_threshold_dbfs == b.squelch_threshold_dbfs,
        c.ctcss_enabled == b.ctcss_enabled,
        c.antenna == b.antenna,
    ensures
        restored(c) == b,
{
    receiver::law_mode_name_round_trip(b.mode);
}

/// Opening the edit form on a bookmark and saving it unchanged gives the bookmark back, for a
/// frequency above zero and a mode whose narrow-band settings the form shows.
pub proof fn law_untouched_edit_keeps_bookmark(b: Bookmark, e: BookmarkEdit)
    requires
        b.freq_hz > 0,
        e.name == b.name,
        e.freq@ == text::dec(b.freq_hz as nat),
        e.mode == b.mode,
        e.category == b.category,
        e.antenna == b.antenna,
        b.nfm_bandwidth_hz == narrow_only(b.mode, e.nfm_bandwidth_hz),
        b.squelch_threshold_dbfs == narrow_only(b.mode, e.squelch_dbfs),
        b.ctcss_enabled == narrow_only(b.mode, e.ctcss),
    ensures
        edited_bookmark(e, edited_freq(e.freq@) as u64) == b,
{
    lemma_dec_is_whole_number(b.freq_hz);
}

/// Decimal digits are read back by the edit form.
proof fn lemma_dec_is_whole_number(n: u64)
    ensures
        edited_freq(text::dec(n as nat)) == n,
{
    let s = text::dec(n as nat);
    text::lemma_dec_round_trip(n as nat);
    assert(text::is_digit(s[0]));
    assert(text::is_digit(s.last()));
    assert(text::trimmed(s) == s);
    assert(frequency::whole_number_digits(s) == s);
}

/// Carrying out the commands of a recall puts the bookmark into effect: its frequency and its mode,
/// and of a narrow FM bookmark each setting that it holds. Whatever it does not hold stays as it
/// was, and so does every narrow-band setting when the bookmark is not narrow FM.
pub proof fn law_recall_puts_bookmark_into_effect(b: Bookmark, s: Station)
    ensures
        ({
            let n = receiver::obeyed_all(s, recall_commands(b));
            let narrow = b.mode == DemodMode::Nfm;
            &&& n.freq_hz == b.freq_hz
            &&& n.demod.demod_mode == b.mode
            &&& n.demod.nfm_bandwidth_hz == (if narrow && b.nfm_bandwidth_hz is Some {
                b.nfm_bandwidth_hz->0
            } else {
                s.demod.nfm_bandwidth_hz
            })
            &&& n.demod.squelch_threshold == (if narrow && b.squelch_threshold_dbfs is Some {
                b.squelch_threshold_dbfs->0
            } else {
                s.demod.squelch_threshold
            })
            &&& n.demod.ctcss_squelch_enabled == (if narrow && b.ctcss_enabled is Some {
                b.ctcss_enabled->0
            } else {
                s.demod.ctcss_squelch_enabled
            })
            &&& n == (Station {
                freq_hz: b.freq_hz,
                demod: DemodState { tune_step_hz: s.demod.tune_step_hz, ..n.demod },
                ..s
            })
        }),
{
    lemma_recall_in_order(b, s);
    lemma_head(s, b.freq_hz, b.mode);
    let s1 = receiver::obeyed_all(s, head_commands(b));
    lemma_width(s1, b.nfm_bandwidth_hz);
    let s2 = receiver::obeyed_all(s1, width_commands(b.nfm_bandwidth_hz));
    lemma_squelch(s2, b.squelch_threshold_dbfs);
    let s3 = receiver::obeyed_all(s2, squelch_commands(b.squelch_threshold_dbfs));
    lemma_tone(s3, b.ctcss_enabled);
}

/// The parts of the commands of a recall.
spec fn head_commands(b: Bookmark) -> Seq<Command> {
    seq![Command::SetFrequency(b.freq_hz), Command::SetDemodMode(b.mode)]
}

spec fn width_commands(x: Option<u32>) -> Seq<Command> {
    match x {
        Some(bw) => seq![Command::SetNfmBandwidth(bw)],
        None => Seq::empty(),
    }
}

spec fn squelch_commands(x: Option<Level>) -> Seq<Command> {
    match x {
        Some(sq) => seq![Command::SetSquelchThreshold(sq)],
        None => Seq::empty(),
    }
}

spec fn tone_commands(x: Option<bool>) -> Seq<Command> {
    match x {
        Some(ct) => seq![Command::SetCtcssEnabled(ct)],
        None => Seq::empty(),
    }
}

proof fn lemma_recall_in_order(b: Bookmark, s: Station)
    ensures
        ({
            let s1 = receiver::obeyed_all(s, head_commands(b));
            let s2 = receiver::obeyed_all(s1, width_commands(b.nfm_bandwidth_hz));
            let s3 = receiver::obeyed_all(s2, squelch_commands(b.squelch_threshold_dbfs));
            let s4 = receiver::obeyed_all(s3, tone_commands(b.ctcss_enabled));
            receiver::obeyed_all(s, recall_commands(b)) == (if b.mode == DemodMode::Nfm {
                s4
            } else {
                s1
            })
        }),
{
    let head = head_commands(b);
    let width = width_commands(b.nfm_bandwidth_hz);
    let squelch = squelch_commands(b.squelch_threshold_dbfs);
    let tone = tone_commands(b.ctcss_enabled);
    let s1 = receiver::obeyed_all(s, head);
    if b.mode == DemodMode::Nfm {
        assert(recall_commands(b) == head + (width + squelch + tone));
        receiver::law_queue_in_order(s, head, width + squelch + tone);
        receiver::law_queue_in_order(s1, width + squelch, tone);
        receiver::law_queue_in_order(s1, width, squelch);
    } else {
        assert(recall_commands(b) =~= head);
    }
}

proof fn lemma_head(s: Station, hz: u64, mode: DemodMode)
    ensures
        receiver::obeyed_all(s, seq![Command::SetFrequency(hz), Command::SetDemodMode(mode)]) == (
        Station { freq_hz: hz, demod: DemodState { demod_mode: mode, ..s.demod }, ..s }),
{
    reveal(receiver::obeyed);
    lemma_obeyed_two(s, Command::SetFrequency(hz), Command::SetDemodMode(mode));
}

proof fn lemma_width(s: Station, x: Option<u32>)
    ensures
        receiver::obeyed_all(s, width_commands(x)) == (Station {
            demod: DemodState {
                nfm_bandwidth_hz: if x is Some {
                    x->0
                } else {
                    s.demod.nfm_bandwidth_hz
                },
                ..s.demod
            },
            ..s
        }),
{
    reveal(receiver::obeyed);
    if x is Some {
        lemma_obeyed_few(s, seq![Command::SetNfmBandwidth(x->0)]);
    }
}

proof fn lemma_squelch(s: Station, x: Option<Level>)
    ensures
        receiver::obeyed_all(s, squelch_commands(x)) == (Station {
            demod: DemodState {
                squelch_threshold: if x is Some {
                    x->0
                } else {
                    s.demod.squelch_threshold
                },
                ..s.demod
            },
            ..s
        }),
{
    reveal(receiver::obeyed);
    if x is Some {
        lemma_obeyed_few(s, seq![Command::SetSquelchThreshold(x->0)]);
    }
}

proof fn lemma_tone(s: Station, x: Option<bool>)
    ensures
        receiver::obeyed_all(s, tone_commands(x)) == (Station {
            demod: DemodState {
                ctcss_squelch_enabled: if x is Some {
                    x->0
                } else {
                    s.demod.ctcss_squelch_enabled
                },
                ..s.demod
            },
            ..s
        }),
{
    reveal(receiver::obeyed);
    if x is Some {
        lemma_obeyed_few(s, seq![Command::SetCtcssEnabled(x->0)]);
    }
}

proof fn lemma_obeyed_few(s: Station, queue: Seq<Command>)
    requires
        queue.len() <= 1,
    ensures
        queue.len() == 0 ==> receiver::obeyed_all(s, queue) == s,
        queue.len() == 1 ==> receiver::obeyed_all(s, queue) == receiver::obeyed(s, queue[0]),
{
    if queue.len() == 1 {
        assert(receiver::obeyed_all(s, queue.drop_last()) == s);
    }
}

proof fn lemma_obeyed_two(s: Station, a: Command, b: Command)
    ensures
        receiver::obeyed_all(s, seq![a, b]) == receiver::obeyed(receiver::obeyed(s, a), b),
{
    lemma_obeyed_few(s, seq![a]);
    assert(seq![a, b].drop_last() =~= seq![a]);
}

/// Each setting that a narrow FM bookmark holds is among the commands of its recall, behind those
/// that tune and set the mode; a bookmark of another mode sends no narrow-band setting.
pub proof fn law_recall_sends_every_setting(b: Bookmark)
    ensures
        recall_commands(b).len() >= 2,
        recall_commands(b)[0] == Command::SetFrequency(b.freq_hz),
        recall_commands(b)[1] == Command::SetDemodMode(b.mode),
        b.mode != DemodMode::Nfm ==> recall_commands(b).len() == 2,
        b.mode == DemodMode::Nfm && b.nfm_bandwidth_hz is Some ==> recall_commands(b).contains(
            Command::SetNfmBandwidth(b.nfm_bandwidth_hz->0),
        ),
        b.mode == DemodMode::Nfm && b.squelch_threshold_dbfs is Some ==> recall_commands(
            b,
        ).contains(Command::SetSquelchThreshold(b.squelch_threshold_dbfs->0)),
        b.mode == DemodMode::Nfm && b.ctcss_enabled is Some ==> recall_commands(b).contains(
            Command::SetCtcssEnabled(b.ctcss_enabled->0),
        ),
{
    let c = recall_commands(b);
    if b.mode == DemodMode::Nfm {
        let w = if b.nfm_bandwidth_hz is Some {
            1int
        } else {
            0
        };
        let q = if b.squelch_threshold_dbfs is Some {
            1int
        } else {
            0
        };
        if b.nfm_bandwidth_hz is Some {
            assert(c[2] == Command::SetNfmBandwidth(b.nfm_bandwidth_hz->0));
        }
        if b.squelch_threshold_dbfs is Some {
            assert(c[2 + w] == Command::SetSquelchThreshold(b.squelch_threshold_dbfs->0));
        }
        if b.ctcss_enabled is Some {
            assert(c[2 + w + q] == Command::SetCtcssEnabled(b.ctcss_enabled->0));
        }
    }
}

/// A recall as a whole: once the commands that it queued are carried out, the receiver is tuned to
/// the bookmark and demodulates as it says. The receiver listens to the antenna port that the
/// settings name if it did so before, and the settings name the bookmark's antenna if it has one.
pub proof fn law_recall_tunes_the_receiver(a: SdrApp, b: Bookmark, n: SdrApp, s: Station)
    requires
        after_recall(&a, b, &n),
        s.antenna == app::port_number(a.config.source.antenna@),
    ensures
        n.outbox@.len() >= a.outbox@.len(),
        n.outbox@.take(a.outbox@.len() as int) == a.outbox@,
        ({
            let r = receiver::obeyed_all(s, n.outbox@.skip(a.outbox@.len() as int));
            &&& r.freq_hz == b.freq_hz
            &&& r.freq_hz == n.config.ui.frequency_hz
            &&& r.freq_hz == n.frequency_widget.frequency_hz
            &&& r.demod.demod_mode == b.mode
            &&& b.mode == DemodMode::Nfm && b.nfm_bandwidth_hz is Some ==> r.demod.nfm_bandwidth_hz
                == b.nfm_bandwidth_hz->0
            &&& b.mode == DemodMode::Nfm && b.squelch_threshold_dbfs is Some
                ==> r.demod.squelch_threshold == b.squelch_threshold_dbfs->0
            &&& b.mode == DemodMode::Nfm && b.ctcss_enabled is Some
                ==> r.demod.ctcss_squelch_enabled == b.ctcss_enabled->0
            &&& r.antenna == app::port_number(n.config.source.antenna@)
            &&& b.antenna is Some ==> n.config.source.antenna@ == b.antenna->0@
        }),
{
    let sent = n.outbox@.skip(a.outbox@.len() as int);
    let ant = recall_antenna_commands(&a, b);
    assert(sent =~= ant + recall_commands(b));
    assert(n.outbox@.take(a.outbox@.len() as int) =~= a.outbox@);
    receiver::law_queue_in_order(s, ant, recall_commands(b));
    lemma_obeyed_few(s, ant);
    reveal(receiver::obeyed);
    law_recall_puts_bookmark_into_effect(b, receiver::obeyed_all(s, ant));
}

/// Saving what is received and recalling it later, whatever is received by then, goes back to the
/// frequency and the mode that were saved, and with narrow FM to its channel width, its squelch and
/// its tone squelch.
pub proof fn law_save_and_recall(shared: SharedState, c: BookmarkConfig, s: Station)
    requires
        is_saved_from(c, shared),
    ensures
        ({
            let r = receiver::obeyed_all(s, recall_commands(restored(c)));
            &&& r.freq_hz == shared.center_freq_hz
            &&& r.demod.demod_mode == shared.demod.demod_mode
            &&& shared.demod.demod_mode == DemodMode::Nfm ==> {
                &&& r.demod.nfm_bandwidth_hz == shared.demod.nfm_bandwidth_hz
                &&& r.demod.squelch_threshold == shared.demod.squelch_threshold
                &&& r.demod.ctcss_squelch_enabled == shared.demod.ctcss_squelch_enabled
            }
            &&& shared.demod.demod_mode != DemodMode::Nfm ==> r.demod == (DemodState {
                demod_mode: shared.demod.demod_mode,
                ..s.demod
            })
        }),
        shared.demod.demod_mode != DemodMode::Nfm ==> c.nfm_bandwidth_hz is None
            && c.squelch_threshold_dbfs is None && c.ctcss_enabled is None,
        restored(c).antenna is None,
{
    receiver::law_mode_name_round_trip(shared.demod.demod_mode);
    law_recall_puts_bookmark_into_effect(restored(c), s);
}

// ── Laws of the list ────────────────────────────────────────────────────────

/// Texts are ordered character by character: an empty text comes first, the first character that
/// differs decides, and what is common in front does not matter.
pub proof fn law_texts_by_character(x: char, y: char, a: Seq<char>, b: Seq<char>)
    ensures
        x < y ==> text_before(seq![x] + a, seq![y] + b) && !text_before(seq![y] + b, seq![x] + a),
        text_before(seq![x] + a, seq![x] + b) == text_before(a, b),
        text_before(Seq::empty(), seq![x] + a),
        !text_before(a, Seq::empty()),
        !text_before(a, a),
{
    let p = seq![x] + a;
    let q = seq![y] + b;
    let r = seq![x] + b;
    assert(p[0] == x && q[0] == y && r[0] == x);
    assert(p.skip(1) =~= a && q.skip(1) =~= b && r.skip(1) =~= b);
    lemma_text_order_total(a, a);
}

/// The list holds each bookmark of the category once and no other, all bookmarks for the empty
/// category; sorted, frequencies never descend from row to row, and otherwise, or where they are
/// equal, the order is that of the bookmarks.
pub proof fn law_list_is_sorted(rows: Seq<usize>, v: Seq<Bookmark>, by_freq: bool, cat: Seq<char>)
    requires
        is_listing(rows, v, by_freq, cat),
        v.len() <= usize::MAX,
    ensures
        forall|k: int|
            0 <= k < v.len() ==> (rows.contains(k as usize) <==> (cat.len() == 0 || (
            #[trigger] v[k]).category@ == cat)),
        rows.no_duplicates(),
        by_freq ==> forall|i: int, j: int|
            0 <= i < j < rows.len() ==> v[(#[trigger] rows[i]) as int].freq_hz <= v[(
            #[trigger] rows[j]) as int].freq_hz,
        forall|i: int, j: int|
            0 <= i < j < rows.len() && (!by_freq || v[rows[i] as int].freq_hz
                == v[rows[j] as int].freq_hz) ==> (#[trigger] rows[i]) < (#[trigger] rows[j]),
{
    assert forall|k: int| 0 <= k < v.len() implies (rows.contains(k as usize) <==> (cat.len() == 0
        || (#[trigger] v[k]).category@ == cat)) by {
        if rows.contains(k as usize) {
            let i = choose|i: int| 0 <= i < rows.len() && rows[i] == k as usize;
            assert(left::in_category(v[rows[i] as int], cat));
        }
        if left::in_category(v[k], cat) {
            assert(rows.contains(k as usize));
        }
    }
    assert forall|i: int, j: int| 0 <= i < rows.len() && 0 <= j < rows.len() && i != j implies rows[i]
        != rows[j] by {
        if i < j {
            assert(row_before(v, by_freq, rows[i] as int, rows[j] as int));
        } else {
            assert(row_before(v, by_freq, rows[j] as int, rows[i] as int));
        }
    }
    assert forall|i: int, j: int| 0 <= i < j < rows.len() implies row_before(
        v,
        by_freq,
        (#[trigger] rows[i]) as int,
        (#[trigger] rows[j]) as int,
    ) by {}
}

/// The rows of the manager and their hover texts name what a bookmark has: a category and an antenna
/// only where there is one.
pub proof fn law_manager_rows(b: Bookmark)
    ensures
        b.antenna is None && b.category@.len() == 0 ==> manager_row_text(b)
            == left::bookmark_label_text(b.name@, b.freq_hz as nat),
        b.antenna is Some ==> text::contains_text(manager_row_text(b), " · Ant "@ + b.antenna->0@),
        b.category@.len() > 0 ==> text::ends_with(manager_row_text(b), " · "@ + b.category@),
        text::ends_with(
            row_hover_text(b),
            if b.antenna is Some {
                b.antenna->0@
            } else {
                "default"@
            },
        ),
        text::starts_with(row_hover_text(b), "Mode: "@ + b.mode.stored_name()),
        text::contains_text(
            row_hover_text(b),
            "  Category: "@ + (if b.category@.len() > 0 {
                b.category@
            } else {
                "—"@
            }),
        ),
{
    let s = manager_row_text(b);
    let label = left::bookmark_label_text(b.name@, b.freq_hz as nat);
    if b.antenna is None && b.category@.len() == 0 {
        assert(s =~= label);
    }
    if b.antenna is Some {
        let part = " · Ant "@ + b.antenna->0@;
        let i = label.len() as int;
        assert(s.subrange(i, i + part.len()) =~= part);
    }
    if b.category@.len() > 0 {
        let part = " · "@ + b.category@;
        assert(s.skip(s.len() - part.len()) =~= part);
    }
    let h = row_hover_text(b);
    let tail = match b.antenna {
        Some(a) => a@,
        None => "default"@,
    };
    assert(h.skip(h.len() - tail.len()) =~= tail);
    let head = "Mode: "@ + b.mode.stored_name();
    assert(h.take(head.len() as int) =~= head);
    let cat = "  Category: "@ + (if b.category@.len() == 0 {
        "—"@
    } else {
        b.category@
    });
    assert(h.subrange(head.len() as int, (head.len() + cat.len()) as int) =~= cat);
}

// ── Laws of the edit form ───────────────────────────────────────────────────

/// The modes that a bookmark can be given are all seven, each once, under their names in capitals.
pub proof fn law_every_mode_is_offered(mode: DemodMode, i: int)
    ensures
        edit_mode_offer(i) is Some <==> 0 <= i < 7,
        edit_mode_offer(i) is Some ==> text::ascii_lower((edit_mode_offer(i)->0).1)
            == text::ascii_lower((edit_mode_offer(i)->0).0.stored_name()),
        exists|k: int| 0 <= k < 7 && (#[trigger] edit_mode_offer(k)->0).0 == mode,
        forall|j: int|
            0 <= i < 7 && 0 <= j < 7 && i != j ==> (#[trigger] edit_mode_offer(j)->0).0 != (
            edit_mode_offer(i)->0).0,
{
    reveal_strlit("WBFM");
    reveal_strlit("Wbfm");
    reveal_strlit("NFM");
    reveal_strlit("Nfm");
    reveal_strlit("AM");
    reveal_strlit("Am");
    reveal_strlit("USB");
    reveal_strlit("Usb");
    reveal_strlit("LSB");
    reveal_strlit("Lsb");
    reveal_strlit("DSB");
    reveal_strlit("Dsb");
    reveal_strlit("CW");
    reveal_strlit("Cw");
    if edit_mode_offer(i) is Some {
        assert(text::ascii_lower((edit_mode_offer(i)->0).1) =~= text::ascii_lower(
            (edit_mode_offer(i)->0).0.stored_name(),
        ));
    }
    let k = match mode {
        DemodMode::Wbfm => 0int,
        DemodMode::Nfm => 1,
        DemodMode::Am => 2,
        DemodMode::Usb => 3,
        DemodMode::Lsb => 4,
        DemodMode::Dsb => 5,
        DemodMode::Cw => 6,
    };
    assert((edit_mode_offer(k)->0).0 == mode);
}

/// The form opens with what the bookmark holds and, where it holds no narrow-band settings, with a
/// channel of 12.5 kHz, a squelch at -50 dBFS and no tone squelch. Where there is no such bookmark
/// it does not open.
pub proof fn law_form_shows_the_bookmark(a: SdrApp, shared: SharedState, i: usize, n: SdrApp)
    requires
        after_start_edit(&a, &shared, i, &n),
    ensures
        i >= shared.bookmarks@.len() ==> n == a,
        i < shared.bookmarks@.len() ==> {
            let b = shared.bookmarks@[i as int];
            let e = n.bookmarks.edit;
            &&& n.bookmarks.edit_idx == Some(i)
            &&& e.name == b.name && e.mode == b.mode && e.category == b.category && e.antenna
                == b.antenna
            &&& e.freq@ == text::dec(b.freq_hz as nat)
            &&& b.nfm_bandwidth_hz is Some ==> b.nfm_bandwidth_hz == Some(e.nfm_bandwidth_hz)
            &&& b.nfm_bandwidth_hz is None ==> e.nfm_bandwidth_hz == 12_500
            &&& b.squelch_threshold_dbfs is Some ==> b.squelch_threshold_dbfs == Some(
                e.squelch_dbfs,
            )
            &&& b.squelch_threshold_dbfs is None ==> level::number_of(e.squelch_dbfs.bits)
                == level::whole(-50)
            &&& b.ctcss_enabled is Some ==> b.ctcss_enabled == Some(e.ctcss)
            &&& b.ctcss_enabled is None ==> !e.ctcss
        },
{
    lemma2_to64();
    level::lemma_whole(0xC248_0000, -50, 18);
}

/// Saving the form closes it. With a frequency above zero the bookmark at its place, and no other,
/// becomes what the form says, narrow-band settings only for narrow FM, and the receiver is told;
/// without one nothing else happens.
pub proof fn law_form_is_saved(a: SdrApp, i: usize, n: SdrApp, hz: u64)
    requires
        after_commit(&a, i, &n),
        a.bookmarks.edit.freq@ == text::dec(hz as nat),
    ensures
        n.bookmarks.edit_idx is None,
        hz == 0 ==> n.config == a.config && n.outbox == a.outbox,
        hz > 0 ==> n.outbox@.len() == a.outbox@.len() + 1,
        hz > 0 ==> (n.outbox@.last() matches Command::EditBookmark(at, b) && {
            &&& at == i
            &&& b.freq_hz == hz
            &&& b.name == a.bookmarks.edit.name
            &&& b.mode == a.bookmarks.edit.mode
            &&& b.category == a.bookmarks.edit.category
            &&& b.antenna == a.bookmarks.edit.antenna
            &&& b.mode == DemodMode::Nfm ==> b.nfm_bandwidth_hz == Some(
                a.bookmarks.edit.nfm_bandwidth_hz,
            ) && b.squelch_threshold_dbfs == Some(a.bookmarks.edit.squelch_dbfs)
                && b.ctcss_enabled == Some(a.bookmarks.edit.ctcss)
            &&& b.mode != DemodMode::Nfm ==> b.nfm_bandwidth_hz is None
                && b.squelch_threshold_dbfs is None && b.ctcss_enabled is None
            &&& i < a.config.bookmarks@.len() ==> restored(n.config.bookmarks@[i as int]) == b
        }),
        n.config.bookmarks@.len() == a.config.bookmarks@.len(),
        forall|k: int|
            0 <= k < a.config.bookmarks@.len() && k != i ==> #[trigger] n.config.bookmarks@[k]
                == a.config.bookmarks@[k],
        edit_is_valid_spec(a.bookmarks.edit.freq@) == (hz > 0),
{
    lemma_dec_is_whole_number(hz);
    if hz > 0 && i < a.config.bookmarks@.len() {
        receiver::law_mode_name_round_trip(a.bookmarks.edit.mode);
    }
}

/// Removing a bookmark takes it, and only it, out of the stored ones, moves those behind it up, tells
/// the receiver and closes an open form.
pub proof fn law_removed_bookmark_is_gone(a: SdrApp, i: usize, n: SdrApp)
    requires
        after_remove(&a, i, &n),
    ensures
        n.outbox@ == a.outbox@.push(Command::RemoveBookmark(i)),
        n.bookmarks.edit_idx is None,
        i >= a.config.bookmarks@.len() ==> n.config == a.config,
        i < a.config.bookmarks@.len() ==> {
            &&& n.config.bookmarks@.len() == a.config.bookmarks@.len() - 1
            &&& forall|k: int|
                0 <= k < i ==> #[trigger] n.config.bookmarks@[k] == a.config.bookmarks@[k]
            &&& forall|k: int|
                i <= k < n.config.bookmarks@.len() ==> #[trigger] n.config.bookmarks@[k]
                    == a.config.bookmarks@[k + 1]
            &&& n.config_dirty
        },
{
}

/// An import replaces all bookmarks, in the settings and in the receiver's list alike, one for one
/// and in order; an empty one changes nothing.
pub proof fn law_import_replaces_all(
    a: SdrApp,
    before: SharedState,
    imported: Vec<BookmarkConfig>,
    n: SdrApp,
    after: SharedState,
)
    requires
        after_import(&a, &before, imported, &n, &after),
    ensures
        imported@.len() == 0 ==> n == a && after == before,
        imported@.len() > 0 ==> {
            &&& n.config.bookmarks == imported
            &&& n.config_dirty
            &&& after.bookmarks@.len() == imported@.len()
            &&& forall|k: int|
                #![trigger after.bookmarks@[k]]
                0 <= k < imported@.len() ==> after.bookmarks@[k].freq_hz == imported@[k].freq_hz
                    && after.bookmarks@[k].name == imported@[k].name && after.bookmarks@[k].antenna
                    == imported@[k].antenna && after.bookmarks@[k].squelch_threshold_dbfs
                    == imported@[k].squelch_threshold_dbfs
        },
{
}

/// Bookmarks go to the file that is set, if one with a name is set, and else to the default one.
pub proof fn law_bookmark_file(a: SdrApp)
    ensures
        a.config.bookmarks_file is Some && a.config.bookmarks_file->0@.len() > 0
            ==> bookmarks_path_text(&a) == a.config.bookmarks_file->0@,
        a.config.bookmarks_file is None || a.config.bookmarks_file->0@.len() == 0
            ==> bookmarks_path_text(&a) == a.config.bookmarks_export_path@,
{
}

/// The list of categories holds every category in use once, in the order of the texts, behind the
/// empty one that stands for all, and nothing else.
pub proof fn law_categories_in_use(r: Seq<String>, v: Seq<Bookmark>, i: int, k: int)
    requires
        are_categories(r, v),
        0 <= i < r.len(),
        0 <= k < v.len(),
    ensures
        v[k].category@.len() > 0 ==> exists|j: int|
            1 <= j < r.len() && (#[trigger] r[j])@ == v[k].category@,
        i > 0 ==> exists|j: int| 0 <= j < v.len() && (#[trigger] v[j]).category@ == r[i]@,
        i > 0 ==> r[i]@.len() > 0,
        r[0]@.len() == 0,
        i > 0 ==> text_before(r[i - 1]@, r[i]@),
{
    if v[k].category@.len() > 0 {
        let t = v[k].category@;
        assert(has_category(v, t));
        assert(has_text(r, t));
        let j = choose|j: int| 0 <= j < r.len() && (#[trigger] r[j])@ == t;
        assert(1 <= j);
    }
    if i > 0 {
        assert(text_before(r[0]@, r[i]@));
        lemma_text_order_total(r[0]@, r[i]@);
        assert(has_text(r, r[i]@));
        assert(has_category(v, r[i]@));
    }
}

/// Closing the form or opening the manager ends an edit and changes nothing else of the bookmarks.
pub proof fn law_edit_ends(a: SdrApp, b: SdrApp, c: SdrApp)
    requires
        after_cancel(&a, &b),
        after_open_manager(&a, &c),
    ensures
        b.bookmarks.edit_idx is None && c.bookmarks.edit_idx is None,
        b.bookmarks.show_manager == a.bookmarks.show_manager,
        c.bookmarks.show_manager,
        b.config == a.config && c.config == a.config,
        b.outbox == a.outbox && c.outbox == a.outbox,
        b.bookmarks.prev_antenna == a.bookmarks.prev_antenna,
{
}

/// Storing the current station adds one bookmark behind the stored ones, which stay, named after its
/// frequency in megahertz, and tells the receiver that name.
pub proof fn law_save_adds_one(a: SdrApp, shared: SharedState, n: SdrApp)
    requires
        after_save(&a, &shared, &n),
    ensures
        n.config.bookmarks@.len() == a.config.bookmarks@.len() + 1,
        n.config.bookmarks@.drop_last() == a.config.bookmarks@,
        is_saved_from(n.config.bookmarks@.last(), shared),
        n.outbox@ == a.outbox@.push(Command::AddBookmark(n.config.bookmarks@.last().name)),
        n.config_dirty,
        text::ends_with(n.config.bookmarks@.last().name@, " MHz"@),
        n.config.ui == a.config.ui && n.config.source == a.config.source,
{
    let name = n.config.bookmarks@.last().name@;
    assert(name.skip(name.len() - " MHz"@.len()) =~= " MHz"@);
    assert(n.config.bookmarks@.drop_last() =~= a.config.bookmarks@);
}

/// The antenna of a recall: a bookmark with another antenna than the one in use connects it and
/// remembers the one in use; one with the same changes nothing; one without an antenna goes back to
/// the remembered one, if any, and forgets it.
pub proof fn law_recall_antenna(a: SdrApp, b: Bookmark, n: SdrApp)
    requires
        after_recall(&a, b, &n),
    ensures
        b.antenna is Some && a.config.source.antenna@ != b.antenna->0@ ==> n.config.source.antenna
            == b.antenna->0 && n.bookmarks.prev_antenna == Some(a.config.source.antenna),
        b.antenna is Some && a.config.source.antenna@ == b.antenna->0@ ==> n.config.source
            == a.config.source && n.bookmarks.prev_antenna == a.bookmarks.prev_antenna,
        b.antenna is None && a.bookmarks.prev_antenna is Some ==> n.config.source.antenna
            == a.bookmarks.prev_antenna->0 && n.bookmarks.prev_antenna is None,
        b.antenna is None && a.bookmarks.prev_antenna is None ==> n.config.source == a.config.source
            && n.bookmarks.prev_antenna is None,
        n.config_dirty,
        n.config.ui == (UiConfig { frequency_hz: b.freq_hz, ..a.config.ui }),
        n.config.bookmarks == a.config.bookmarks,
{
}

} // verus!
