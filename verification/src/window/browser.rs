//! What the web browser does around a page. Fetching, laying out and running
//! a page is done by the program around this library; here is what is decided
//! before and after.

use vstd::prelude::*;
use vstd::string::*;

use crate::color::Color;
use crate::keys::{DecodedKey, KeyCode};
use crate::text;
use crate::theme;
use crate::window::documents;
use crate::window::draw;
use crate::window::draw::{fill, least, minus, most, plus, Cmd, DrawCmd};
use crate::window::files;
use crate::window::files::close_menu;
use crate::window::keyboard::BROWSER_ADDRESS_BAR;
use crate::window::manager;
use crate::window::manager::{Desktop, DesktopModel};
use crate::window::metrics;
use crate::window::mouse::{BROWSER_PADDING, BROWSER_WIDGET_BASE};
use crate::window::state;
use crate::window::state::{AppModel, AppState, Browser, BrowserModel, Window, WindowModel};
use crate::window::tick;
use crate::window::tick::BROWSER_CANVAS_H;
use crate::window::widget;
use crate::window::widget::{WinAction, Widget, WindowKind};

verus! {

/// Most addresses the Back button remembers.
pub const HISTORY_CAP: usize = 32;

/// One notch of scrolling, in pixels.
pub const SCROLL_STEP: usize = 64;

/// Most pictures a single page will fetch.
pub const MAX_PAGE_IMAGES: usize = 12;

/// How deep a chain of script-driven navigations may go before the browser
/// stops following it.
pub const MAX_SCRIPT_NAV: usize = 3;

/// How long a page's own scripts may take to arrive, all of them together, in
/// microseconds.
pub const SCRIPT_FETCH_BUDGET_MICROS: u64 = 6_000_000;

// ── The topmost browser ─────────────────────────────────────────────────────

/// The topmost browser's state, if there is one.
pub open spec fn front(d: DesktopModel) -> Option<BrowserModel> {
    let i = manager::last_of(d.wm, WindowKind::Browser);
    if i >= 0 {
        match d.wm.windows[i].app {
            AppModel::Browser(b) => Some(b),
            _ => None,
        }
    } else {
        None
    }
}

/// A browser's state changed, with its status in the footer.
pub open spec fn restated(w: WindowModel, b: BrowserModel) -> WindowModel {
    WindowModel { app: AppModel::Browser(b), footer: Some(b.status), ..w }
}

/// A message in the status line.
pub open spec fn stated(t: Seq<char>) -> spec_fn(WindowModel) -> WindowModel {
    |w: WindowModel|
        match w.app {
            AppModel::Browser(b) => restated(w, BrowserModel { status: t, ..b }),
            _ => w,
        }
}

fn set_status(win: &mut Window, t: &str)
    requires
        old(win)@.wf(),
    ensures
        final(win)@ == stated(t@)(old(win)@),
        final(win)@.wf(),
{
    match &mut win.app {
        AppState::Browser(b) => {
            b.status = t.to_owned();
        },
        _ => {
            return;
        },
    }
    win.footer = Some(t.to_owned());
}

/// Says something in the status line of the topmost browser.
pub fn browser_status(desk: &mut Desktop, message: &str)
    requires
        old(desk)@.wf(),
    ensures
        final(desk)@ == documents::on_top(old(desk)@, WindowKind::Browser, stated(message@)),
        final(desk)@.wf(),
{
    if let Some(i) = desk.wm.find_last_kind(WindowKind::Browser) {
        let ghost before = desk.wm.windows@;
        assert(desk@.wm.windows[i as int].wf());
        set_status(&mut desk.wm.windows[i], message);
        proof {
            manager::view_updated(before, i as int, desk.wm.windows@[i as int]);
        }
    }
    desk.dirty = true;
}

/// What stands in the address bar.
pub open spec fn address(w: WindowModel) -> Seq<char> {
    if w.widgets.len() > BROWSER_ADDRESS_BAR {
        match w.widgets[BROWSER_ADDRESS_BAR as int] {
            Widget::TextBox { text, .. } => text,
            _ => Seq::empty(),
        }
    } else {
        Seq::empty()
    }
}

fn browser_url(win: &Window) -> (r: String)
    ensures
        r@ == address(win@),
{
    if win.widgets.len() > BROWSER_ADDRESS_BAR {
        assert(win@.widgets[BROWSER_ADDRESS_BAR as int] == win.widgets@[BROWSER_ADDRESS_BAR as int]@);
        match &win.widgets[BROWSER_ADDRESS_BAR] {
            Widget::TextBox { text, .. } => text.as_str().to_owned(),
            _ => String::new(),
        }
    } else {
        String::new()
    }
}

pub open spec fn addressed(w: WindowModel, url: Seq<char>) -> WindowModel {
    if w.widgets.len() > BROWSER_ADDRESS_BAR && w.widgets[BROWSER_ADDRESS_BAR as int] is TextBox {
        WindowModel {
            widgets: w.widgets.update(
                BROWSER_ADDRESS_BAR as int,
                widget::with_text(w.widgets[BROWSER_ADDRESS_BAR as int], url),
            ),
            ..w
        }
    } else {
        w
    }
}

fn browser_set_url(win: &mut Window, url: &str)
    requires
        old(win)@.wf(),
    ensures
        final(win)@ == addressed(old(win)@, url@),
        final(win)@.wf(),
{
    if win.widgets.len() > BROWSER_ADDRESS_BAR {
        if let Widget::TextBox { text, .. } = &mut win.widgets[BROWSER_ADDRESS_BAR] {
            *text = url.to_owned();
        }
    }
    assert(win@.widgets =~= addressed(old(win)@, url@).widgets);
}

/// What the Go and Images buttons act on: what was typed in the topmost
/// browser's address bar.
pub fn typed_address(desk: &mut Desktop) -> (r: Option<String>)
    requires
        old(desk)@.wf(),
    ensures
        final(desk)@ == old(desk)@.redraw(),
        state::footer_view(r) == ({
            let i = manager::last_of(old(desk)@.wm, WindowKind::Browser);
            if i >= 0 {
                Some(address(old(desk)@.wm.windows[i]))
            } else {
                None
            }
        }),
{
    desk.dirty = true;
    match desk.wm.find_last_kind(WindowKind::Browser) {
        Some(i) => {
            assert(desk@.wm.windows[i as int] == desk.wm.windows@[i as int]@);
            Some(browser_url(&desk.wm.windows[i]))
        },
        None => None,
    }
}

/// The pictures to search for: an address in the bar is no search term.
pub fn browser_images(typed: &str, looks_like_url: bool) -> (r: String)
    ensures
        r@ == (if looks_like_url {
            Seq::empty()
        } else {
            typed@
        }),
{
    if looks_like_url {
        String::new()
    } else {
        typed.to_owned()
    }
}

/// The address to load again: that of the topmost browser's page.
pub fn browser_reload(desk: &mut Desktop) -> (r: Option<String>)
    requires
        old(desk)@.wf(),
    ensures
        final(desk)@ == old(desk)@.redraw(),
        state::footer_view(r) == (match front(old(desk)@) {
            Some(b) if b.current.len() > 0 => Some(b.current),
            _ => None,
        }),
{
    desk.dirty = true;
    match desk.wm.find_last_kind(WindowKind::Browser) {
        Some(i) => {
            assert(desk@.wm.windows[i as int] == desk.wm.windows@[i as int]@);
            match &desk.wm.windows[i].app {
                AppState::Browser(b) => if b.current.as_str().unicode_len() > 0 {
                    Some(b.current.as_str().to_owned())
                } else {
                    None
                },
                _ => None,
            }
        },
        None => None,
    }
}

// ── Navigating ──────────────────────────────────────────────────────────────

pub open spec fn loading_line(url: Seq<char>) -> Seq<char> {
    "Loading "@ + url + " ..."@
}

/// A navigation that has begun: where to, and what was on screen before it.
pub struct Trip {
    pub url: String,
    /// The address that was left; none without a browser.
    pub previous: Option<String>,
}

pub open spec fn trip_began(d: DesktopModel, url: Seq<char>) -> DesktopModel {
    documents::on_top(d, WindowKind::Browser, stated(loading_line(text::trimmed(url))))
}

/// The first half of a navigation, before anything is fetched: the status line
/// says that it has begun. An empty address leads nowhere.
pub fn browser_navigate(desk: &mut Desktop, url: &str) -> (r: Option<Trip>)
    requires
        old(desk)@.wf(),
    ensures
        final(desk)@.wf(),
        match r {
            None => text::trimmed(url@).len() == 0 && final(desk)@ == old(desk)@,
            Some(t) => {
                &&& text::trimmed(url@).len() > 0
                &&& final(desk)@ == trip_began(old(desk)@, url@)
                &&& t.url@ == text::trimmed(url@)
                &&& state::footer_view(t.previous) == (if manager::last_of(
                    old(desk)@.wm,
                    WindowKind::Browser,
                ) >= 0 {
                    Some(
                        match front(old(desk)@) {
                            Some(b) => b.current,
                            None => Seq::empty(),
                        },
                    )
                } else {
                    None
                })
            },
        },
{
    let url = text::trim(url);
    if url.as_str().unicode_len() == 0 {
        return None;
    }
    let previous = match desk.wm.find_last_kind(WindowKind::Browser) {
        Some(i) => {
            assert(desk@.wm.windows[i as int] == desk.wm.windows@[i as int]@);
            match &desk.wm.windows[i].app {
                AppState::Browser(b) => Some(b.current.as_str().to_owned()),
                _ => Some(String::new()),
            }
        },
        None => None,
    };
    let mut line = "Loading ".to_owned();
    line.append(url.as_str());
    line.append(" ...");
    browser_status(desk, line.as_str());
    Some(Trip { url, previous })
}

/// What came of fetching an address.
pub enum Reply<T = String> {
    /// A page the browser writes itself.
    Internal,
    /// Why nothing came.
    Failed(T),
    /// Something came: its status, its type, where it came from in the end,
    /// and its size if it is a picture that can be decoded.
    Came { status: u64, content_type: T, final_url: T, picture: Option<(u64, u64)> },
}

impl View for Reply {
    type V = Reply<Seq<char>>;

    open spec fn view(&self) -> Reply<Seq<char>> {
        match *self {
            Reply::Internal => Reply::Internal,
            Reply::Failed(e) => Reply::Failed(e@),
            Reply::Came { status, content_type, final_url, picture } => Reply::Came {
                status,
                content_type: content_type@,
                final_url: final_url@,
                picture,
            },
        }
    }
}

/// What is to be shown of it.
pub enum Show<T = String> {
    /// The page the browser writes itself.
    Internal { url: T },
    /// A page around a picture.
    Picture { url: T, width: u64, height: u64 },
    /// An error page.
    Error { url: T, title: T, detail: T, note: T },
    /// The document that came.
    Document { url: T, note: T },
}

impl View for Show {
    type V = Show<Seq<char>>;

    open spec fn view(&self) -> Show<Seq<char>> {
        match *self {
            Show::Internal { url } => Show::Internal { url: url@ },
            Show::Picture { url, width, height } => Show::Picture { url: url@, width, height },
            Show::Error { url, title, detail, note } => Show::Error {
                url: url@,
                title: title@,
                detail: detail@,
                note: note@,
            },
            Show::Document { url, note } => Show::Document { url: url@, note: note@ },
        }
    }
}

/// The middle of a navigation: a failure is shown as a page, so that the
/// previous document does not stay on screen implying it is still what the
/// address bar points at.
pub open spec fn shown_as(url: Seq<char>, reply: Reply<Seq<char>>) -> Show<Seq<char>> {
    match reply {
        Reply::Internal => Show::Internal { url },
        Reply::Failed(e) => Show::Error {
            url,
            title: "Cannot reach this page"@,
            detail: url + " could not be loaded: "@ + e,
            note: "Could not load "@ + url + ": "@ + e,
        },
        Reply::Came { status, content_type, final_url, picture } => if text::has_prefix(
            content_type,
            "image/"@,
        ) {
            match picture {
                Some((width, height)) => Show::Picture { url: final_url, width, height },
                None => Show::Error {
                    url,
                    title: "Unsupported picture"@,
                    detail: url + " is a "@ + content_type
                        + " picture, which this browser cannot decode."@,
                    note: Seq::empty(),
                },
            }
        } else {
            Show::Document { url: final_url, note: "HTTP "@ + text::decimal(status as nat) }
        },
    }
}

pub fn what_to_show(url: &str, reply: &Reply) -> (r: Show)
    ensures
        r@ == shown_as(url@, reply@),
{
    match reply {
        Reply::Internal => Show::Internal { url: url.to_owned() },
        Reply::Failed(e) => {
            let mut detail = url.to_owned();
            detail.append(" could not be loaded: ");
            detail.append(e.as_str());
            let mut note = "Could not load ".to_owned();
            note.append(url);
            note.append(": ");
            note.append(e.as_str());
            Show::Error {
                url: url.to_owned(),
                title: "Cannot reach this page".to_owned(),
                detail,
                note,
            }
        },
        Reply::Came { status, content_type, final_url, picture } => {
            if text::starts_with(content_type.as_str(), "image/") {
                match picture {
                    Some((width, height)) => Show::Picture {
                        url: final_url.as_str().to_owned(),
                        width: *width,
                        height: *height,
                    },
                    None => {
                        let mut detail = url.to_owned();
                        detail.append(" is a ");
                        detail.append(content_type.as_str());
                        detail.append(" picture, which this browser cannot decode.");
                        Show::Error {
                            url: url.to_owned(),
                            title: "Unsupported picture".to_owned(),
                            detail,
                            note: String::new(),
                        }
                    },
                }
            } else {
                let mut note = "HTTP ".to_owned();
                text::push_decimal(&mut note, *status);
                Show::Document { url: final_url.as_str().to_owned(), note }
            }
        },
    }
}

/// The page around a picture that was navigated to directly. The name and the
/// address are escaped already.
pub open spec fn picture_page(name: Seq<char>, url: Seq<char>, width: u64, height: u64) -> Seq<char> {
    "<html><head><title>"@ + name
        + "</title></head><body style=\"background-color:#0F172A; color:#94A3B8; padding:12px\"><p>"@
        + text::decimal(width as nat) + " × "@ + text::decimal(height as nat)
        + " — right-click to save it or make it the wallpaper.</p><img src=\""@ + url
        + "\" alt=\"picture\"></body></html>"@
}

pub fn browser_image_document(name: &str, url: &str, width: u64, height: u64) -> (r: String)
    ensures
        r@ == picture_page(name@, url@, width, height),
{
    let mut s = "<html><head><title>".to_owned();
    s.append(name);
    s.append(
        "</title></head><body style=\"background-color:#0F172A; color:#94A3B8; padding:12px\"><p>",
    );
    text::push_decimal(&mut s, width);
    s.append(" × ");
    text::push_decimal(&mut s, height);
    s.append(" — right-click to save it or make it the wallpaper.</p><img src=\"");
    s.append(url);
    s.append("\" alt=\"picture\"></body></html>");
    s
}

/// What to do about a first fetch that failed, and after that about a second.
#[derive(Debug, Clone, Copy, PartialEq, Eq, Structural)]
pub enum Recovery {
    /// Use what came.
    Accept,
    /// Ask again without encryption.
    Plain,
    /// Report the failure of the first fetch.
    GiveUp,
    /// Google's pages are programs: answer the query elsewhere.
    StandIn,
}

/// A host without encryption is asked again in the clear; if that fails too it
/// is the first failure that is reported, since that is the request the user
/// made. Whatever of Google's comes that is no picture is stood in for.
pub open spec fn recovery(
    first_ok: bool,
    has_plain: bool,
    plain_ok: Option<bool>,
    picture: bool,
    google: bool,
) -> Recovery {
    if !first_ok && !(has_plain && plain_ok == Some(true)) {
        if has_plain && plain_ok is None {
            Recovery::Plain
        } else {
            Recovery::GiveUp
        }
    } else if google && !picture {
        Recovery::StandIn
    } else {
        Recovery::Accept
    }
}

pub fn browser_fetch_page(
    first_ok: bool,
    has_plain: bool,
    plain_ok: Option<bool>,
    picture: bool,
    google: bool,
) -> (r: Recovery)
    ensures
        r == recovery(first_ok, has_plain, plain_ok, picture, google),
{
    if !first_ok {
        if !has_plain {
            return Recovery::GiveUp;
        }
        match plain_ok {
            None => {
                return Recovery::Plain;
            },
            Some(ok) => {
                if !ok {
                    return Recovery::GiveUp;
                }
            },
        }
    }
    if google && !picture {
        Recovery::StandIn
    } else {
        Recovery::Accept
    }
}

/// Which page stands in for one of Google's.
#[derive(Debug, Clone, Copy, PartialEq, Eq, Structural)]
pub enum Stand {
    /// The browser's own page, with a box to type in and suggestions.
    Own,
    /// Results from elsewhere, under a header that says so.
    Results,
}

/// Whether Google is asked what the user might mean, which takes a while and
/// is said meanwhile; without a query there is nothing to ask.
pub fn google_suggestions(desk: &mut Desktop, query: &str) -> (r: bool)
    requires
        old(desk)@.wf(),
    ensures
        r == (query@.len() > 0),
        final(desk)@ == (if r {
            documents::on_top(
                old(desk)@,
                WindowKind::Browser,
                stated("Google needs JavaScript — asking it what you might mean ..."@),
            )
        } else {
            old(desk)@
        }),
        final(desk)@.wf(),
{
    if query.unicode_len() == 0 {
        return false;
    }
    browser_status(desk, "Google needs JavaScript — asking it what you might mean ...");
    true
}

/// Whether results are looked for elsewhere, which is said meanwhile.
pub fn google_results(desk: &mut Desktop, query: &str) -> (r: bool)
    requires
        old(desk)@.wf(),
    ensures
        r == (query@.len() > 0),
        final(desk)@ == (if r {
            documents::on_top(
                old(desk)@,
                WindowKind::Browser,
                stated("Searching for "@ + query@ + " where results are HTML ..."@),
            )
        } else {
            old(desk)@
        }),
        final(desk)@.wf(),
{
    if query.unicode_len() == 0 {
        return false;
    }
    let mut line = "Searching for ".to_owned();
    line.append(query);
    line.append(" where results are HTML ...");
    browser_status(desk, line.as_str());
    true
}

/// Without a query there is nothing to look up; with one, results are shown if
/// they can be had.
pub fn google_page(query: &str, results: bool) -> (r: Stand)
    ensures
        r == (if query@.len() > 0 && results {
            Stand::Results
        } else {
            Stand::Own
        }),
{
    if query.unicode_len() > 0 && results {
        Stand::Results
    } else {
        Stand::Own
    }
}

/// Whether a page that came painted nothing and needs explaining.
pub fn needs_explaining(html: &str, visible: bool) -> (r: bool)
    ensures
        r == (html@.len() > 0 && !visible),
{
    html.unicode_len() > 0 && !visible
}

/// The notice above a page that painted nothing.
pub open spec fn blank_notice() -> Seq<char> {
    "Nothing on this page is written in the HTML, and running its JavaScript did not produce anything either — it is probably built from data this browser cannot fetch. <b>Type what you want in the address bar above</b> to search instead."@
}

/// The notice that a page is shown again with, if it needs explaining.
pub fn explanation(html: &str, visible: bool) -> (r: Option<&'static str>)
    ensures
        match r {
            Some(n) => html@.len() > 0 && !visible && n@ == blank_notice(),
            None => html@.len() == 0 || visible,
        },
{
    if needs_explaining(html, visible) {
        Some(
            "Nothing on this page is written in the HTML, and running its JavaScript did not produce anything either — it is probably built from data this browser cannot fetch. <b>Type what you want in the address bar above</b> to search instead.",
        )
    } else {
        None
    }
}

// ── Showing a document ──────────────────────────────────────────────────────

/// The status line of a page: a script's complaint comes first, then the title
/// and how long the page is.
pub open spec fn page_summary(
    title: Seq<char>,
    note: Seq<char>,
    height: usize,
    error: Option<Seq<char>>,
) -> Seq<char> {
    let rows = text::decimal((height / metrics::ROW_H) as nat);
    text::trim_start_of(
        match error {
            Some(e) => note + " — script error: "@ + e,
            None => if title.len() == 0 {
                note + " — "@ + rows + " lines"@
            } else {
                title + " — "@ + note + ", "@ + rows + " lines"@
            },
        },
        " — "@,
    )
}

pub fn summary_of(title: &str, note: &str, height: usize, error: &Option<String>) -> (r: String)
    ensures
        r@ == page_summary(title@, note@, height, state::footer_view(*error)),
{
    let mut s = String::new();
    match error {
        Some(e) => {
            s.append(note);
            s.append(" — script error: ");
            s.append(e.as_str());
        },
        None => {
            if title.unicode_len() > 0 {
                s.append(title);
                s.append(" — ");
                s.append(note);
                s.append(", ");
            } else {
                s.append(note);
                s.append(" — ");
            }
            text::push_decimal(&mut s, (height / metrics::row_h()) as u64);
            s.append(" lines");
        },
    }
    proof {
        let rows = text::decimal((height / metrics::ROW_H) as nat);
        let goal = match state::footer_view(*error) {
            Some(e) => note@ + " — script error: "@ + e,
            None => if title@.len() == 0 {
                note@ + " — "@ + rows + " lines"@
            } else {
                title@ + " — "@ + note@ + ", "@ + rows + " lines"@
            },
        };
        assert(s@ =~= goal);
    }
    text::trim_start_matches(s.as_str(), " — ")
}

/// The history once an address was left; a full one takes no more.
pub open spec fn recorded(
    history: Seq<Seq<char>>,
    previous: Option<Seq<char>>,
    record: bool,
) -> Seq<Seq<char>> {
    match previous {
        Some(p) if record && p.len() > 0 && history.len() < HISTORY_CAP => history.push(p),
        _ => history,
    }
}

/// A browser that shows a new page, from its top.
pub open spec fn arrived(
    url: Seq<char>,
    height: usize,
    summary: Seq<char>,
    previous: Option<Seq<char>>,
    record: bool,
) -> spec_fn(WindowModel) -> WindowModel {
    |w: WindowModel|
        {
            let w1 = files::menu_closed(w, BROWSER_WIDGET_BASE as int);
            addressed(
                match w1.app {
                    AppModel::Browser(b) => restated(
                        w1,
                        BrowserModel {
                            page: Some(height),
                            scroll: 0,
                            status: summary,
                            history: recorded(b.history, previous, record),
                            current: url,
                        },
                    ),
                    _ => w1,
                },
                url,
            )
        }
}

fn arrive(
    win: &mut Window,
    url: &str,
    height: usize,
    summary: &str,
    previous: &Option<String>,
    record: bool,
)
    requires
        old(win)@.wf(),
    ensures
        final(win)@ == arrived(
            url@,
            height,
            summary@,
            state::footer_view(*previous),
            record,
        )(old(win)@),
        final(win)@.wf(),
{
    close_menu(win, BROWSER_WIDGET_BASE);
    let shows = match &mut win.app {
        AppState::Browser(b) => {
            let ghost before = b.history@;
            b.page = Some(height);
            b.scroll = 0;
            if record && b.history.len() < HISTORY_CAP {
                if let Some(p) = previous {
                    if p.as_str().unicode_len() > 0 {
                        b.history.push(p.as_str().to_owned());
                        assert(text::strings(b.history@) =~= text::strings(before).push(p@));
                    }
                }
            }
            b.current = url.to_owned();
            b.status = summary.to_owned();
            true
        },
        _ => false,
    };
    if shows {
        win.footer = Some(summary.to_owned());
    }
    browser_set_url(win, url);
}

/// The end of a navigation: the page is laid out and its scripts have run.
pub fn browser_show_document(
    desk: &mut Desktop,
    url: &str,
    height: usize,
    summary: &str,
    previous: &Option<String>,
    record: bool,
)
    requires
        old(desk)@.wf(),
    ensures
        final(desk)@ == documents::on_top(
            old(desk)@,
            WindowKind::Browser,
            arrived(url@, height, summary@, state::footer_view(*previous), record),
        ),
        final(desk)@.wf(),
{
    if let Some(i) = desk.wm.find_last_kind(WindowKind::Browser) {
        let ghost before = desk.wm.windows@;
        assert(desk@.wm.windows[i as int].wf());
        arrive(&mut desk.wm.windows[i], url, height, summary, previous, record);
        proof {
            manager::view_updated(before, i as int, desk.wm.windows@[i as int]);
        }
    }
    desk.dirty = true;
}

/// Whether a page's own script is still to be fetched.
pub fn script_in_time(now: u64, deadline: u64) -> (r: bool)
    ensures
        r == (now < deadline),
{
    now < deadline
}

/// When a page's scripts are to have arrived.
pub fn script_deadline(now: u64) -> (r: u64)
    ensures
        r == (if now + SCRIPT_FETCH_BUDGET_MICROS <= u64::MAX {
            (now + SCRIPT_FETCH_BUDGET_MICROS) as u64
        } else {
            u64::MAX
        }),
{
    match now.checked_add(SCRIPT_FETCH_BUDGET_MICROS) {
        Some(t) => t,
        None => u64::MAX,
    }
}

/// Whether a page's own script is fetched, which is said meanwhile: one that is
/// late is passed over.
pub fn browser_fetch_script(desk: &mut Desktop, url: &str, now: u64, deadline: u64) -> (r: bool)
    requires
        old(desk)@.wf(),
    ensures
        r == (now < deadline),
        final(desk)@ == (if r {
            documents::on_top(
                old(desk)@,
                WindowKind::Browser,
                stated("Fetching script "@ + url@ + " ..."@),
            )
        } else {
            old(desk)@
        }),
        final(desk)@.wf(),
{
    if !script_in_time(now, deadline) {
        return false;
    }
    let mut line = "Fetching script ".to_owned();
    line.append(url);
    line.append(" ...");
    browser_status(desk, line.as_str());
    true
}

/// Whether what came as a script may be run: a login page served where a
/// script was expected would be a syntax error blamed on the site.
pub fn script_accepted(content_type: &str) -> (r: bool)
    ensures
        r == !(text::has_prefix(content_type@, "text/html"@) || text::has_prefix(
            content_type@,
            "image/"@,
        )),
{
    !(text::starts_with(content_type, "text/html") || text::starts_with(content_type, "image/"))
}

/// Whether a navigation that a script asked for is followed: two pages that
/// send each other the user would else never end.
pub fn browser_follow_script_navigation(desk: &mut Desktop, depth: usize) -> (r: bool)
    requires
        old(desk)@.wf(),
    ensures
        r == (depth < MAX_SCRIPT_NAV),
        final(desk)@ == (if r {
            old(desk)@
        } else {
            documents::on_top(
                old(desk)@,
                WindowKind::Browser,
                stated(
                    "A script kept redirecting this page, so the browser stopped following it."@,
                ),
            )
        }),
        final(desk)@.wf(),
{
    if depth >= MAX_SCRIPT_NAV {
        browser_status(
            desk,
            "A script kept redirecting this page, so the browser stopped following it.",
        );
        return false;
    }
    true
}

// ── Pictures ────────────────────────────────────────────────────────────────

pub open spec fn picture_progress(summary: Seq<char>, i: nat, n: nat) -> Seq<char> {
    summary + " — picture "@ + text::decimal(i) + " of "@ + text::decimal(n) + " ..."@
}

/// What is said while the `i`-th of `n` pictures is fetched.
pub fn picture_progress_line(summary: &str, i: u64, n: u64) -> (r: String)
    ensures
        r@ == picture_progress(summary@, i as nat, n as nat),
{
    let mut s = summary.to_owned();
    s.append(" — picture ");
    text::push_decimal(&mut s, i);
    s.append(" of ");
    text::push_decimal(&mut s, n);
    s.append(" ...");
    s
}

/// How many of a page's pictures are fetched.
pub fn pictures_wanted(n: usize) -> (r: usize)
    ensures
        r == (if n <= MAX_PAGE_IMAGES {
            n
        } else {
            MAX_PAGE_IMAGES
        }),
{
    if n <= MAX_PAGE_IMAGES {
        n
    } else {
        MAX_PAGE_IMAGES
    }
}

pub open spec fn pictures_line(summary: Seq<char>, shown: nat, wanted: nat) -> Seq<char> {
    summary + " — "@ + text::decimal(shown) + " of "@ + text::decimal(wanted) + " pictures"@
}

pub open spec fn illustrated(height: usize, line: Seq<char>) -> spec_fn(WindowModel) -> WindowModel {
    |w: WindowModel|
        match w.app {
            AppModel::Browser(b) if b.page is Some => restated(
                w,
                BrowserModel { page: Some(height), scroll: 0, status: line, ..b },
            ),
            _ => w,
        }
}

fn illustrate(win: &mut Window, height: usize, line: String)
    requires
        old(win)@.wf(),
    ensures
        final(win)@ == illustrated(height, line@)(old(win)@),
        final(win)@.wf(),
{
    match &mut win.app {
        AppState::Browser(b) => {
            if b.page.is_none() {
                return;
            }
            b.page = Some(height);
            b.scroll = 0;
            b.status = line.as_str().to_owned();
        },
        _ => {
            return;
        },
    }
    win.footer = Some(line);
}

/// A page's pictures have come, and it was laid out again.
pub fn browser_fetch_page_images(
    desk: &mut Desktop,
    summary: &str,
    height: usize,
    shown: u64,
    wanted: u64,
)
    requires
        old(desk)@.wf(),
    ensures
        final(desk)@ == documents::on_top(
            old(desk)@,
            WindowKind::Browser,
            illustrated(height, pictures_line(summary@, shown as nat, wanted as nat)),
        ),
        final(desk)@.wf(),
{
    let mut s = summary.to_owned();
    s.append(" — ");
    text::push_decimal(&mut s, shown);
    s.append(" of ");
    text::push_decimal(&mut s, wanted);
    s.append(" pictures");
    assert(s@ == pictures_line(summary@, shown as nat, wanted as nat));
    if let Some(i) = desk.wm.find_last_kind(WindowKind::Browser) {
        let ghost before = desk.wm.windows@;
        assert(desk@.wm.windows[i as int].wf());
        illustrate(&mut desk.wm.windows[i], height, s);
        proof {
            manager::view_updated(before, i as int, desk.wm.windows@[i as int]);
        }
    }
    desk.dirty = true;
}

/// How a picture is asked for.
#[derive(Debug, Clone, Copy, PartialEq, Eq, Structural)]
pub enum Route {
    Direct,
    Gateway,
}

/// A picture in the clear is asked for directly, any other through the
/// gateway; one that would not decode directly is asked for once more through
/// the gateway, which converts it.
pub open spec fn routes(url: Seq<char>) -> Seq<Route> {
    if text::has_prefix(url, "http://"@) {
        seq![Route::Direct, Route::Gateway]
    } else {
        seq![Route::Gateway]
    }
}

pub fn browser_fetch_image(url: &str, tried: usize) -> (r: Option<Route>)
    ensures
        r == (if tried < routes(url@).len() {
            Some(routes(url@)[tried as int])
        } else {
            None
        }),
{
    if text::starts_with(url, "http://") {
        match tried {
            0 => Some(Route::Direct),
            1 => Some(Route::Gateway),
            _ => None,
        }
    } else {
        match tried {
            0 => Some(Route::Gateway),
            _ => None,
        }
    }
}

/// The file extension of a picture that is saved.
pub open spec fn extension(content_type: Seq<char>) -> Seq<char> {
    if text::occurs(content_type, "png"@) {
        "png"@
    } else if text::occurs(content_type, "gif"@) {
        "gif"@
    } else {
        "jpg"@
    }
}

pub fn extension_for(content_type: &str) -> (r: &'static str)
    ensures
        r@ == extension(content_type@),
{
    if text::contains(content_type, "png") {
        "png"
    } else if text::contains(content_type, "gif") {
        "gif"
    } else {
        "jpg"
    }
}

/// What is said of a picture that was saved or not.
pub open spec fn save_note(r: Result<Seq<char>, Seq<char>>) -> Seq<char> {
    match r {
        Ok(path) => "Saved to "@ + path,
        Err(e) => "Could not save the picture: "@ + e,
    }
}

/// What is said of a picture that was to become the wallpaper; `shown` is why
/// it could not be, if so.
pub open spec fn hang_note(r: Result<Seq<char>, Seq<char>>, shown: Option<Seq<char>>) -> Seq<char> {
    match r {
        Ok(path) => match shown {
            None => "Wallpaper set from "@ + path,
            Some(e) => "Saved to "@ + path + ", but it could not be shown: "@ + e,
        },
        Err(e) => "Could not save the picture: "@ + e,
    }
}

pub open spec fn path_view(r: Result<String, String>) -> Result<Seq<char>, Seq<char>> {
    match r {
        Ok(s) => Ok(s@),
        Err(s) => Err(s@),
    }
}

pub fn browser_save_image_action(desk: &mut Desktop, saved: &Result<String, String>)
    requires
        old(desk)@.wf(),
    ensures
        final(desk)@ == documents::on_top(
            old(desk)@,
            WindowKind::Browser,
            stated(save_note(path_view(*saved))),
        ),
        final(desk)@.wf(),
{
    let mut s = String::new();
    match saved {
        Ok(path) => {
            s.append("Saved to ");
            s.append(path.as_str());
        },
        Err(e) => {
            s.append("Could not save the picture: ");
            s.append(e.as_str());
        },
    }
    assert(s@ =~= save_note(path_view(*saved)));
    browser_status(desk, s.as_str());
}

/// Saving the picture that the menu was opened over: its address, with a note
/// in the status line, unless there is none.
pub fn browser_save_menu_image(desk: &mut Desktop) -> (r: Result<String, String>)
    requires
        old(desk)@.wf(),
    ensures
        final(desk)@.wf(),
        match old(desk)@.menu_image {
            Some(url) => {
                &&& path_view(r) == Ok::<Seq<char>, Seq<char>>(url)
                &&& final(desk)@ == documents::on_top(
                    old(desk)@,
                    WindowKind::Browser,
                    stated("Saving "@ + url + " ..."@),
                )
            },
            None => {
                &&& path_view(r) == Err::<Seq<char>, Seq<char>>("no picture selected"@)
                &&& final(desk)@ == old(desk)@
            },
        },
{
    let url = match &desk.menu_image {
        Some(s) => s.as_str().to_owned(),
        None => {
            return Err("no picture selected".to_owned());
        },
    };
    let mut note = "Saving ".to_owned();
    note.append(url.as_str());
    note.append(" ...");
    browser_status(desk, note.as_str());
    Ok(url)
}

/// What the server's answer to that makes of it: the extension to save the
/// picture with, or what went wrong.
pub fn picture_answer(status: u16, content_type: &str) -> (r: Result<&'static str, String>)
    ensures
        match r {
            Ok(e) => status == 200 && e@ == extension(content_type@),
            Err(e) => status != 200 && e@ == "the server answered "@ + text::decimal(status as nat),
        },
{
    if status != 200 {
        let mut s = "the server answered ".to_owned();
        text::push_decimal(&mut s, status as u64);
        return Err(s);
    }
    Ok(extension_for(content_type))
}

/// Enter in a field: where to go, if the page's own handling of its form does
/// not keep the browser from it. `allowed` is what that said, where the field
/// belongs to a form.
pub fn browser_submit_field(allowed: Option<bool>, target: Option<String>) -> (r: Option<String>)
    ensures
        r == (if allowed == Some(false) {
            None
        } else {
            target
        }),
{
    match allowed {
        Some(yes) => if yes {
            target
        } else {
            None
        },
        None => target,
    }
}

pub fn browser_wallpaper_action(
    desk: &mut Desktop,
    saved: &Result<String, String>,
    shown: &Option<String>,
)
    requires
        old(desk)@.wf(),
    ensures
        final(desk)@ == documents::on_top(
            old(desk)@,
            WindowKind::Browser,
            stated(hang_note(path_view(*saved), state::footer_view(*shown))),
        ),
        final(desk)@.wf(),
{
    let mut s = String::new();
    match saved {
        Ok(path) => match shown {
            None => {
                s.append("Wallpaper set from ");
                s.append(path.as_str());
            },
            Some(e) => {
                s.append("Saved to ");
                s.append(path.as_str());
                s.append(", but it could not be shown: ");
                s.append(e.as_str());
            },
        },
        Err(e) => {
            s.append("Could not save the picture: ");
            s.append(e.as_str());
        },
    }
    assert(s@ =~= hang_note(path_view(*saved), state::footer_view(*shown)));
    browser_status(desk, s.as_str());
}

// ── The context menu ────────────────────────────────────────────────────────

pub open spec fn menu_items(image: bool, link: bool) -> Seq<(Seq<char>, WinAction)> {
    (if image {
        seq![
            ("Save picture"@, WinAction::BrowserSaveImage),
            ("Set as wallpaper"@, WinAction::BrowserImageWallpaper),
            ("Open picture"@, WinAction::BrowserOpenImage),
        ]
    } else if link {
        seq![("Open link"@, WinAction::BrowserOpenImage)]
    } else {
        Seq::empty()
    }) + seq![
        ("Reload"@, WinAction::BrowserReload),
        ("Back"@, WinAction::BrowserBack),
        ("Top of page"@, WinAction::BrowserScrollTo(0)),
    ]
}

/// Where the menu goes: at the pointer, but inside the window.
pub open spec fn menu_place(w: WindowModel, mx: int, my: int, n: nat) -> (int, int) {
    let lx = state::at_least(mx - files::origin(w).0, 0);
    let ly = state::at_least(my - files::origin(w).1, 0);
    (
        state::at_most(lx, state::less(w.w as int, 170)),
        state::at_most(ly, state::less(w.h as int, n as int * 26 + 54)),
    )
}

pub open spec fn menu_buttons(items: Seq<(Seq<char>, WinAction)>, x: int, y: int) -> Seq<
    Widget<Seq<char>>,
> {
    Seq::new(
        items.len(),
        |i: int|
            widget::button_of(x as usize, (y + i * 26) as usize, 160, 24, items[i].0, items[i].1),
    )
}

/// A browser with its menu open over a picture, a link or neither.
pub open spec fn with_menu(w: WindowModel, mx: int, my: int, image: bool, link: bool) -> WindowModel {
    let w1 = files::menu_closed(w, BROWSER_WIDGET_BASE as int);
    let items = menu_items(image, link);
    let (x, y) = menu_place(w, mx, my, items.len());
    WindowModel { widgets: w1.widgets + menu_buttons(items, x, y), ..w1 }
}

fn add_item(
    win: &mut Window,
    x: usize,
    y: usize,
    k: usize,
    label: &str,
    action: WinAction,
    items: Ghost<Seq<(Seq<char>, WinAction)>>,
    base: Ghost<WindowModel>,
)
    requires
        y <= state::SPAN,
        k < items@.len() <= 6,
        items@[k as int] == (label@, action),
        old(win)@ == (WindowModel {
            widgets: base@.widgets + menu_buttons(items@, x as int, y as int).take(k as int),
            ..base@
        }),
    ensures
        final(win)@ == (WindowModel {
            widgets: base@.widgets + menu_buttons(items@, x as int, y as int).take(k + 1),
            ..base@
        }),
{
    let b = Widget::button(x, y + k * 26, 160, 24, label, action);
    let ghost before = win@.widgets;
    win.widgets.push(b);
    proof {
        let all = menu_buttons(items@, x as int, y as int);
        assert(all[k as int] == b@);
        assert(all.take(k + 1) =~= all.take(k as int).push(b@));
        assert(win@.widgets =~= before.push(b@));
        assert(win@.widgets =~= base@.widgets + all.take(k + 1));
    }
}

fn open_menu(win: &mut Window, mx: i32, my: i32, image: bool, link: bool)
    requires
        old(win)@.wf(),
        manager::on_screen((mx, my)),
    ensures
        final(win)@ == with_menu(old(win)@, mx as int, my as int, image, link),
        final(win)@.wf(),
{
    close_menu(win, BROWSER_WIDGET_BASE);
    let ghost base = win@;
    let ghost items = menu_items(image, link);
    let (ox, oy) = win.content_origin();
    let n: usize = if image {
        6
    } else if link {
        4
    } else {
        3
    };
    let lx: usize = if mx > ox { (mx - ox) as usize } else { 0 };
    let ly: usize = if my > oy { (my - oy) as usize } else { 0 };
    let x = least(lx, minus(win.w, 170));
    let y = least(ly, minus(win.h, n * 26 + 54));
    let mut k: usize = 0;
    assert(base.widgets + menu_buttons(items, x as int, y as int).take(0) =~= base.widgets);
    if image {
        add_item(win, x, y, 0, "Save picture", WinAction::BrowserSaveImage, Ghost(items), Ghost(base));
        add_item(
            win,
            x,
            y,
            1,
            "Set as wallpaper",
            WinAction::BrowserImageWallpaper,
            Ghost(items),
            Ghost(base),
        );
        add_item(win, x, y, 2, "Open picture", WinAction::BrowserOpenImage, Ghost(items), Ghost(base));
        k = 3;
    } else if link {
        add_item(win, x, y, 0, "Open link", WinAction::BrowserOpenImage, Ghost(items), Ghost(base));
        k = 1;
    }
    add_item(win, x, y, k, "Reload", WinAction::BrowserReload, Ghost(items), Ghost(base));
    add_item(win, x, y, k + 1, "Back", WinAction::BrowserBack, Ghost(items), Ghost(base));
    add_item(
        win,
        x,
        y,
        k + 2,
        "Top of page",
        WinAction::BrowserScrollTo(0),
        Ghost(items),
        Ghost(base),
    );
    assert(menu_buttons(items, x as int, y as int).take(n as int) =~= menu_buttons(
        items,
        x as int,
        y as int,
    ));
}

/// The menu opened in the window in front, with what lies under the pointer
/// remembered for it.
pub open spec fn menu_opened(
    d: DesktopModel,
    image: Option<Seq<char>>,
    link: Option<Seq<char>>,
) -> DesktopModel {
    let top = d.wm.windows.len() - 1;
    let d1 = DesktopModel { menu_image: image, menu_link: link, ..d };
    if top >= 0 {
        d1.set_window(
            top,
            with_menu(
                d.wm.windows[top],
                d.wm.last_mouse.0 as int,
                d.wm.last_mouse.1 as int,
                image is Some,
                link is Some,
            ),
        ).redraw()
    } else {
        d1.redraw()
    }
}

/// A right-click on a page: what lies under the pointer was looked up.
pub fn browser_open_menu(desk: &mut Desktop, image: Option<String>, link: Option<String>)
    requires
        old(desk)@.wf(),
    ensures
        final(desk)@ == menu_opened(
            old(desk)@,
            state::footer_view(image),
            state::footer_view(link),
        ),
        final(desk)@.wf(),
{
    let (mx, my) = desk.wm.last_mouse;
    let has_image = image.is_some();
    let has_link = link.is_some();
    desk.menu_image = image;
    desk.menu_link = link;
    let n: usize = desk.wm.windows.len();
    if n > 0 {
        let ghost before = desk.wm.windows@;
        assert(desk@.wm.windows[n - 1].wf());
        open_menu(&mut desk.wm.windows[n - 1], mx, my, has_image, has_link);
        proof {
            manager::view_updated(before, n - 1, desk.wm.windows@[n - 1]);
        }
    }
    desk.dirty = true;
}

/// The menu of the browser in front closed.
pub open spec fn menu_dismissed(d: DesktopModel) -> DesktopModel {
    let t = manager::top(d.wm);
    if t >= 0 && d.wm.windows[t].kind == WindowKind::Browser {
        d.set_window(t, files::menu_closed(d.wm.windows[t], BROWSER_WIDGET_BASE as int))
    } else {
        d
    }
}

pub fn browser_close_top_menu(desk: &mut Desktop)
    requires
        old(desk)@.wf(),
    ensures
        final(desk)@ == menu_dismissed(old(desk)@),
        final(desk)@.wf(),
{
    if let Some(t) = desk.wm.topmost_idx() {
        assert(desk@.wm.windows[t as int] == desk.wm.windows@[t as int]@);
        assert(desk@.wm.windows[t as int].wf());
        if desk.wm.windows[t].kind == WindowKind::Browser {
            let ghost before = desk.wm.windows@;
            close_menu(&mut desk.wm.windows[t], BROWSER_WIDGET_BASE);
            proof {
                manager::view_updated(before, t as int, desk.wm.windows@[t as int]);
            }
        }
    }
}

/// What the menu opens: the picture it was opened over, or else the link.
pub open spec fn menu_target(d: DesktopModel) -> Option<Seq<char>> {
    match d.menu_image {
        Some(i) => Some(i),
        None => d.menu_link,
    }
}

pub fn browser_open_menu_target(desk: &mut Desktop) -> (r: Option<String>)
    requires
        old(desk)@.wf(),
    ensures
        final(desk)@ == menu_dismissed(old(desk)@),
        final(desk)@.wf(),
        state::footer_view(r) == menu_target(old(desk)@),
{
    browser_close_top_menu(desk);
    match &desk.menu_image {
        Some(s) => Some(s.as_str().to_owned()),
        None => match &desk.menu_link {
            Some(s) => Some(s.as_str().to_owned()),
            None => None,
        },
    }
}

// ── Back and scrolling ──────────────────────────────────────────────────────

/// Going back: the last address that was left, if there is one.
pub open spec fn gone_back(d: DesktopModel) -> (DesktopModel, Option<Seq<char>>) {
    match front(d) {
        Some(b) if b.history.len() > 0 => (
            documents::on_top(
                d,
                WindowKind::Browser,
                |w: WindowModel|
                    match w.app {
                        AppModel::Browser(b) => WindowModel {
                            app: AppModel::Browser(
                                BrowserModel { history: b.history.drop_last(), ..b },
                            ),
                            ..w
                        },
                        _ => w,
                    },
            ),
            Some(b.history.last()),
        ),
        _ => (
            documents::on_top(d, WindowKind::Browser, stated("No page to go back to."@)),
            None,
        ),
    }
}

fn pop_history(win: &mut Window) -> (r: Option<String>)
    requires
        old(win)@.wf(),
    ensures
        final(win)@.wf(),
        match old(win)@.app {
            AppModel::Browser(b) if b.history.len() > 0 => {
                &&& r is Some && r->0@ == b.history.last()
                &&& final(win)@ == (WindowModel {
                    app: AppModel::Browser(BrowserModel { history: b.history.drop_last(), ..b }),
                    ..old(win)@
                })
            },
            _ => r is None && final(win)@ == old(win)@,
        },
{
    match &mut win.app {
        AppState::Browser(b) => {
            let ghost before = b.history@;
            let r = b.history.pop();
            proof {
                if r is Some {
                    assert(text::strings(b.history@) =~= text::strings(before).drop_last());
                } else {
                    assert(text::strings(b.history@) =~= text::strings(before));
                }
            }
            r
        },
        _ => None,
    }
}

pub fn browser_back(desk: &mut Desktop) -> (r: Option<String>)
    requires
        old(desk)@.wf(),
    ensures
        (final(desk)@, state::footer_view(r)) == gone_back(old(desk)@),
        final(desk)@.wf(),
{
    if let Some(i) = desk.wm.find_last_kind(WindowKind::Browser) {
        let ghost before = desk.wm.windows@;
        assert(desk@.wm.windows[i as int] == before[i as int]@);
        assert(desk@.wm.windows[i as int].wf());
        let r = pop_history(&mut desk.wm.windows[i]);
        proof {
            manager::view_updated(before, i as int, desk.wm.windows@[i as int]);
            if r is None {
                assert(manager::windows_view(before).update(i as int, before[i as int]@)
                    =~= manager::windows_view(before));
            }
        }
        if r.is_some() {
            desk.dirty = true;
            return r;
        }
    }
    browser_status(desk, "No page to go back to.");
    None
}

/// The furthest a browser scrolls; without a page it does not.
pub open spec fn limit_of(b: BrowserModel) -> usize {
    match b.page {
        Some(h) => tick::scroll_limit(h) as usize,
        None => 0,
    }
}

fn browser_scroll_limit(b: &Browser) -> (r: usize)
    ensures
        r == limit_of(b@),
{
    match b.page {
        Some(h) => minus(h, BROWSER_CANVAS_H - 2 * BROWSER_PADDING),
        None => 0,
    }
}

pub open spec fn scrolled_to(offset: usize) -> spec_fn(WindowModel) -> WindowModel {
    |w: WindowModel|
        match w.app {
            AppModel::Browser(b) => WindowModel {
                app: AppModel::Browser(
                    BrowserModel { scroll: least(offset, limit_of(b)), ..b },
                ),
                ..w
            },
            _ => w,
        }
}

/// Where a scroll of so many notches leads; none is one down.
pub open spec fn scroll_target(scroll: usize, dir: i8) -> usize {
    let notches = if dir < 0 {
        -dir
    } else if dir == 0 {
        1
    } else {
        dir as int
    };
    let step = (SCROLL_STEP * notches) as usize;
    if dir < 0 {
        minus(scroll, step)
    } else {
        plus(scroll, step)
    }
}

pub open spec fn scrolled(dir: i8) -> spec_fn(WindowModel) -> WindowModel {
    |w: WindowModel|
        match w.app {
            AppModel::Browser(b) => scrolled_to(scroll_target(b.scroll, dir))(w),
            _ => w,
        }
}

fn scroll_window(win: &mut Window, dir: i8)
    requires
        old(win)@.wf(),
    ensures
        final(win)@ == scrolled(dir)(old(win)@),
        final(win)@.wf(),
{
    match &mut win.app {
        AppState::Browser(b) => {
            let limit = browser_scroll_limit(b);
            let notches: i64 = if dir < 0 {
                -(dir as i64)
            } else if dir == 0 {
                1
            } else {
                dir as i64
            };
            let step: usize = SCROLL_STEP * (notches as usize);
            let target = if dir < 0 {
                minus(b.scroll, step)
            } else {
                plus(b.scroll, step)
            };
            b.scroll = least(target, limit);
        },
        _ => {},
    }
}

fn scroll_window_to(win: &mut Window, offset: usize)
    requires
        old(win)@.wf(),
    ensures
        final(win)@ == scrolled_to(offset)(old(win)@),
        final(win)@.wf(),
{
    match &mut win.app {
        AppState::Browser(b) => {
            let limit = browser_scroll_limit(b);
            b.scroll = least(offset, limit);
        },
        _ => {},
    }
}

/// Scroll the page. `dir` is negative for up, positive for down; the
/// magnitude multiplies the step.
pub fn browser_scroll(desk: &mut Desktop, dir: i8)
    requires
        old(desk)@.wf(),
    ensures
        final(desk)@ == documents::on_top(old(desk)@, WindowKind::Browser, scrolled(dir)),
        final(desk)@.wf(),
{
    if let Some(i) = desk.wm.find_last_kind(WindowKind::Browser) {
        let ghost before = desk.wm.windows@;
        assert(desk@.wm.windows[i as int].wf());
        scroll_window(&mut desk.wm.windows[i], dir);
        proof {
            manager::view_updated(before, i as int, desk.wm.windows@[i as int]);
        }
    }
    desk.dirty = true;
}

/// Jump to an absolute offset. The greatest one lands at the bottom.
pub fn browser_scroll_to(desk: &mut Desktop, offset: usize)
    requires
        old(desk)@.wf(),
    ensures
        final(desk)@ == documents::on_top(old(desk)@, WindowKind::Browser, scrolled_to(offset)),
        final(desk)@.wf(),
{
    if let Some(i) = desk.wm.find_last_kind(WindowKind::Browser) {
        let ghost before = desk.wm.windows@;
        assert(desk@.wm.windows[i as int].wf());
        scroll_window_to(&mut desk.wm.windows[i], offset);
        proof {
            manager::view_updated(before, i as int, desk.wm.windows@[i as int]);
        }
    }
    desk.dirty = true;
}

// ── Clicks and keys on a page ───────────────────────────────────────────────

/// A point of the canvas as a point of the document.
pub fn page_point(rel_x: usize, rel_y: usize, scroll: usize) -> (r: (usize, usize))
    ensures
        r == (minus(rel_x, BROWSER_PADDING), plus(minus(rel_y, BROWSER_PADDING), scroll)),
{
    (minus(rel_x, BROWSER_PADDING), plus(minus(rel_y, BROWSER_PADDING), scroll))
}

/// A page after a click that its scripts heard of: it may be shorter than it
/// was, and a handler may have left a message.
pub open spec fn clicked(height: usize, message: Option<Seq<char>>) -> spec_fn(
    WindowModel,
) -> WindowModel {
    |w: WindowModel|
        match w.app {
            AppModel::Browser(b) => {
                let c = BrowserModel { page: Some(height), ..b };
                let status = match message {
                    Some(m) => m,
                    None => b.status,
                };
                WindowModel {
                    app: AppModel::Browser(
                        BrowserModel { scroll: least(b.scroll, limit_of(c)), status, ..c },
                    ),
                    footer: Some(status),
                    ..w
                }
            },
            _ => w,
        }
}

fn click_window(win: &mut Window, height: usize, message: Option<String>)
    requires
        old(win)@.wf(),
    ensures
        final(win)@ == clicked(height, state::footer_view(message))(old(win)@),
        final(win)@.wf(),
{
    let status = match &mut win.app {
        AppState::Browser(b) => {
            b.page = Some(height);
            let limit = browser_scroll_limit(b);
            b.scroll = least(b.scroll, limit);
            if let Some(m) = message {
                b.status = m;
            }
            b.status.as_str().to_owned()
        },
        _ => {
            return;
        },
    };
    win.footer = Some(status);
}

/// The page's handlers heard of a click. Where none of them refused it, what
/// lay under the pointer is followed; where one did, the page's last message
/// is shown in its place.
pub fn browser_click(
    desk: &mut Desktop,
    height: usize,
    allowed: bool,
    target: Option<String>,
    message: Option<String>,
) -> (r: Option<String>)
    requires
        old(desk)@.wf(),
    ensures
        final(desk)@ == documents::on_top(
            old(desk)@,
            WindowKind::Browser,
            clicked(
                height,
                if allowed {
                    None
                } else {
                    state::footer_view(message)
                },
            ),
        ),
        final(desk)@.wf(),
        state::footer_view(r) == (if allowed {
            state::footer_view(target)
        } else {
            None
        }),
{
    let message: Option<String> = if allowed {
        None
    } else {
        message
    };
    if let Some(i) = desk.wm.find_last_kind(WindowKind::Browser) {
        let ghost before = desk.wm.windows@;
        assert(desk@.wm.windows[i as int].wf());
        click_window(&mut desk.wm.windows[i], height, message);
        proof {
            manager::view_updated(before, i as int, desk.wm.windows@[i as int]);
        }
    }
    desk.dirty = true;
    if allowed {
        target
    } else {
        None
    }
}

/// What a keystroke does to the field that the caret is in.
#[derive(Clone, Copy, Debug, PartialEq, Eq, Structural)]
pub enum FieldEdit {
    Backspace,
    Insert(char),
    Left,
    Right,
    Home,
    End,
    /// Enter in a one-line field sends the form.
    Submit,
    /// Not a key for a field: the page may use it.
    Unused,
}

/// A keystroke for the focused field, which is a text area or a single line.
pub fn browser_field_key(k: DecodedKey, area: bool) -> (r: FieldEdit)
    ensures
        r == (match k {
            DecodedKey::Unicode(c) => if c == '\x08' {
                FieldEdit::Backspace
            } else if c == '\n' || c == '\r' {
                if area {
                    FieldEdit::Insert('\n')
                } else {
                    FieldEdit::Submit
                }
            } else {
                FieldEdit::Insert(c)
            },
            DecodedKey::RawKey(KeyCode::ArrowLeft) => FieldEdit::Left,
            DecodedKey::RawKey(KeyCode::ArrowRight) => FieldEdit::Right,
            DecodedKey::RawKey(KeyCode::Home) => FieldEdit::Home,
            DecodedKey::RawKey(KeyCode::End) => FieldEdit::End,
            _ => FieldEdit::Unused,
        }),
{
    match k {
        DecodedKey::Unicode(c) => if c == '\x08' {
            FieldEdit::Backspace
        } else if c == '\n' || c == '\r' {
            if area {
                FieldEdit::Insert('\n')
            } else {
                FieldEdit::Submit
            }
        } else {
            FieldEdit::Insert(c)
        },
        DecodedKey::RawKey(KeyCode::ArrowLeft) => FieldEdit::Left,
        DecodedKey::RawKey(KeyCode::ArrowRight) => FieldEdit::Right,
        DecodedKey::RawKey(KeyCode::Home) => FieldEdit::Home,
        DecodedKey::RawKey(KeyCode::End) => FieldEdit::End,
        _ => FieldEdit::Unused,
    }
}

/// The name and code that a page's handler knows a key by.
pub open spec fn key_known_as(k: DecodedKey) -> (Seq<char>, u32) {
    match k {
        DecodedKey::Unicode(c) => if c == '\x08' {
            ("Backspace"@, 8)
        } else if c == '\n' || c == '\r' {
            ("Enter"@, 13)
        } else if c == '\t' {
            ("Tab"@, 9)
        } else if c == '\x1b' {
            ("Escape"@, 27)
        } else {
            (seq![c], c as u32)
        },
        DecodedKey::RawKey(KeyCode::ArrowLeft) => ("ArrowLeft"@, 37),
        DecodedKey::RawKey(KeyCode::ArrowRight) => ("ArrowRight"@, 39),
        DecodedKey::RawKey(KeyCode::ArrowUp) => ("ArrowUp"@, 38),
        DecodedKey::RawKey(KeyCode::ArrowDown) => ("ArrowDown"@, 40),
        DecodedKey::RawKey(KeyCode::Home) => ("Home"@, 36),
        DecodedKey::RawKey(KeyCode::End) => ("End"@, 35),
        DecodedKey::RawKey(other) => (other.spec_name(), 0),
    }
}

/// A text with its quotes and backslashes escaped.
pub open spec fn escaped(s: Seq<char>) -> Seq<char>
    decreases s.len(),
{
    if s.len() == 0 {
        Seq::empty()
    } else if s[0] == '"' || s[0] == '\\' {
        seq!['\\', s[0]] + escaped(s.skip(1))
    } else {
        seq![s[0]] + escaped(s.skip(1))
    }
}

/// What a reader of JSON makes of an escaped text.
pub open spec fn unescaped(t: Seq<char>) -> Seq<char>
    decreases t.len(),
{
    if t.len() == 0 {
        Seq::empty()
    } else if t[0] == '\\' && t.len() > 1 {
        seq![t[1]] + unescaped(t.skip(2))
    } else {
        seq![t[0]] + unescaped(t.skip(1))
    }
}

/// No key can break out of the text that names it: a reader that undoes the
/// escapes finds the name again.
pub proof fn escapes_are_undone(s: Seq<char>)
    ensures
        unescaped(escaped(s)) == s,
    decreases s.len(),
{
    if s.len() > 0 {
        let rest = escaped(s.skip(1));
        escapes_are_undone(s.skip(1));
        if s[0] == '"' || s[0] == '\\' {
            assert((seq!['\\', s[0]] + rest).skip(2) =~= rest);
        } else {
            assert((seq![s[0]] + rest).skip(1) =~= rest);
        }
        assert(seq![s[0]] + s.skip(1) =~= s);
    }
}

pub open spec fn key_detail(k: DecodedKey) -> Seq<char> {
    let (name, code) = key_known_as(k);
    "{\"key\":\""@ + escaped(name) + "\",\"keyCode\":"@ + text::decimal(code as nat) + "}"@
}

fn push_escaped(out: &mut String, s: &str)
    ensures
        final(out)@ == old(out)@ + escaped(s@),
{
    let v = text::chars_of(s);
    let ghost goal = out@ + escaped(s@);
    let mut i: usize = 0;
    assert(v@.skip(0) =~= s@);
    while i < v.len()
        invariant
            i <= v@.len(),
            goal == out@ + escaped(v@.skip(i as int)),
        decreases v@.len() - i,
    {
        let ghost before = out@;
        let ghost rest = escaped(v@.skip(i + 1));
        assert(v@.skip(i as int).skip(1) =~= v@.skip(i + 1));
        if v[i] == '"' || v[i] == '\\' {
            out.push('\\');
            out.push(v[i]);
            assert(before + (seq!['\\', v@[i as int]] + rest) =~= out@ + rest);
        } else {
            out.push(v[i]);
            assert(before + (seq![v@[i as int]] + rest) =~= out@ + rest);
        }
        i = i + 1;
    }
    assert(goal =~= out@);
}

/// The `key` and `keyCode` a page's handler expects, as a JSON object.
pub fn browser_key_detail(k: DecodedKey) -> (r: String)
    ensures
        r@ == key_detail(k),
{
    let mut single = String::new();
    let (name, code): (&str, u32) = match k {
        DecodedKey::Unicode(c) => match c {
            '\x08' => ("Backspace", 8),
            '\n' => ("Enter", 13),
            '\r' => ("Enter", 13),
            '\t' => ("Tab", 9),
            '\x1b' => ("Escape", 27),
            _ => {
                single.push(c);
                (single.as_str(), c as u32)
            },
        },
        DecodedKey::RawKey(code) => match code {
            KeyCode::ArrowLeft => ("ArrowLeft", 37),
            KeyCode::ArrowRight => ("ArrowRight", 39),
            KeyCode::ArrowUp => ("ArrowUp", 38),
            KeyCode::ArrowDown => ("ArrowDown", 40),
            KeyCode::Home => ("Home", 36),
            KeyCode::End => ("End", 35),
            other => (other.name(), 0),
        },
    };
    assert(name@ =~= key_known_as(k).0);
    let mut s = "{\"key\":\"".to_owned();
    push_escaped(&mut s, name);
    s.append("\",\"keyCode\":");
    text::push_decimal(&mut s, code as u64);
    s.append("}");
    s
}

// ── Drawing a page ──────────────────────────────────────────────────────────

/// Width of the strip kept clear at the right for the scroll thumb.
pub const BROWSER_GUTTER: usize = 8;

pub const BROWSER_FIELD_BG: Color = 0xFFFFFF;

pub const BROWSER_FIELD_EDGE: Color = 0x94A3B8;

pub const BROWSER_FIELD_FOCUS: Color = 0x2F6FEB;

pub const BROWSER_FIELD_FLAT: Color = 0xF1F5F9;

pub const BROWSER_BUTTON_BG: Color = 0xE2E8F0;

/// The part of the screen that a page may be drawn on, and where on the
/// screen the page's own origin is.
pub struct Viewport {
    pub origin_x: i64,
    pub origin_y: i64,
    pub top: i64,
    pub bottom: i64,
    pub right: i64,
}

pub open spec fn near(n: int) -> bool {
    -0x1_0000_0000 <= n <= 0x1_0000_0000
}

impl Viewport {
    pub open spec fn wf(self) -> bool {
        &&& 0 <= self.origin_x <= 0x7fff_ffff
        &&& near(self.origin_y as int)
        &&& 0 <= self.top <= self.bottom <= 0x7fff_ffff
        &&& 0 <= self.right <= 0x7fff_ffff
    }
}

/// The view of a page scrolled by so much on the given area of the screen.
pub fn viewport(x: usize, y: usize, w: usize, h: usize, scroll: usize) -> (v: Viewport)
    requires
        x + w <= 0x7fff_0000,
        y + h <= 0x7fff_0000,
        scroll <= 0x7fff_0000,
        w >= BROWSER_GUTTER,
    ensures
        v == (Viewport {
            origin_x: (x + BROWSER_PADDING) as i64,
            origin_y: (y + BROWSER_PADDING - scroll) as i64,
            top: y as i64,
            bottom: (y + h) as i64,
            right: (x + w - BROWSER_GUTTER) as i64,
        }),
        v.wf(),
{
    Viewport {
        origin_x: (x + BROWSER_PADDING) as i64,
        origin_y: (y + BROWSER_PADDING) as i64 - scroll as i64,
        top: y as i64,
        bottom: (y + h) as i64,
        right: (x + w - BROWSER_GUTTER) as i64,
    }
}

/// The rows of something so high at `top` that are on view, if any are.
pub open spec fn visible(v: Viewport, top: int, height: int) -> Option<(int, int)> {
    if top + height <= v.top || top >= v.bottom {
        None
    } else {
        Some((state::at_least(top, v.top as int), state::at_most(top + height, v.bottom as int)))
    }
}

/// The part of a box of the page that is on view: left edge, top, width and
/// height on the screen.
pub open spec fn shown(v: Viewport, x: int, y: int, w: int, h: int) -> Option<
    (int, int, int, int),
> {
    let left = v.origin_x + state::at_least(x, 0);
    match visible(v, v.origin_y + y, state::at_least(h, 1)) {
        Some((from, to)) if left < v.right => Some(
            (left, from, state::at_most(state::at_least(w, 1), v.right - left), to - from),
        ),
        _ => None,
    }
}

/// Clip a box of the page to the canvas, rather than letting a tall one paint
/// over the window around it.
pub fn clip_box(v: &Viewport, x: i64, y: i64, w: i64, h: i64) -> (r: Option<
    (usize, usize, usize, usize),
>)
    requires
        v.wf(),
        near(x as int) && near(y as int) && near(w as int) && near(h as int),
    ensures
        match shown(*v, x as int, y as int, w as int, h as int) {
            Some(b) => {
                &&& r is Some
                &&& (r->0).0 == b.0 && (r->0).1 == b.1
                &&& (r->0).2 == b.2 && (r->0).3 == b.3
            },
            None => r is None,
        },
{
    let top: i64 = v.origin_y + y;
    let h: i64 = if h >= 1 { h } else { 1 };
    if top + h <= v.top || top >= v.bottom {
        return None;
    }
    let from: i64 = if top >= v.top { top } else { v.top };
    let to: i64 = if top + h <= v.bottom { top + h } else { v.bottom };
    let left: i64 = v.origin_x + (if x >= 0 { x } else { 0 });
    if left >= v.right {
        return None;
    }
    let w: i64 = if w >= 1 { w } else { 1 };
    let w: i64 = if w <= v.right - left { w } else { v.right - left };
    Some((left as usize, from as usize, w as usize, (to - from) as usize))
}

/// What is drawn of a page stays on its canvas.
pub proof fn pages_stay_on_their_canvas(v: Viewport, x: int, y: int, w: int, h: int)
    requires
        v.wf(),
        shown(v, x, y, w, h) is Some,
    ensures
        ({
            let b = shown(v, x, y, w, h)->0;
            &&& v.origin_x <= b.0 && b.0 + b.2 <= v.right && b.2 >= 1
            &&& v.top <= b.1 && b.1 + b.3 <= v.bottom
        }),
{
}

/// The height of the scroll thumb and its distance from the top of the track:
/// in proportion, but high enough to be seen and never off the track.
pub open spec fn thumb(track: int, view: int, total: int, scroll: int) -> (int, int) {
    let h = state::at_least(track * view / total, 12);
    let y = (track - h) * scroll / state::at_least(total - view, 1);
    (h, state::at_most(y, track - h))
}

/// Draw the scroll position down the right edge, where the page is longer
/// than its canvas.
pub open spec fn scrollbar_cmds(
    a: (usize, usize, usize, usize),
    height: usize,
    scroll: usize,
) -> Seq<Cmd> {
    let total = most(height, 1);
    let view = minus(a.3, 8);
    if total > view {
        let (h, y) = thumb(a.3 as int, view as int, total as int, scroll as int);
        let x = (a.0 + a.2 - 4) as usize;
        seq![
            draw::fill_of(x, a.1, 3, a.3, theme::FIELD_BG),
            draw::fill_of(x, (a.1 + y) as usize, 3, h as usize, theme::ACCENT),
        ]
    } else {
        Seq::empty()
    }
}

/// The thumb is on its track wherever the page is scrolled to, at the top for
/// the top of the page and at the bottom for its end.
pub proof fn the_thumb_stays_on_its_track(track: int, view: int, total: int, scroll: int)
    requires
        12 <= track,
        0 <= view <= track,
        view < total,
        0 <= scroll,
    ensures
        ({
            let (h, y) = thumb(track, view, total, scroll);
            &&& 12 <= h && 0 <= y && y + h <= track
            &&& scroll == 0 ==> y == 0
            &&& scroll >= total - view ==> y + h == track
        }),
{
    let h = state::at_least(track * view / total, 12);
    let room = track - h;
    let span = total - view;
    thumb_fits(track, view, total);
    assert(0 <= room);
    assert(0 <= room * scroll / span) by (nonlinear_arith)
        requires
            0 <= room,
            0 <= scroll,
            span >= 1,
    ;
    if scroll == 0 {
        assert(room * scroll / span == 0) by (nonlinear_arith)
            requires
                scroll == 0,
                span >= 1,
        ;
    }
    if scroll >= span {
        assert(room * scroll / span >= room) by (nonlinear_arith)
            requires
                0 <= room,
                scroll >= span,
                span >= 1,
        ;
    }
}

proof fn thumb_fits(track: int, view: int, total: int)
    requires
        12 <= track,
        0 <= view <= track,
        view < total,
    ensures
        0 <= track * view / total <= track,
{
    assert(0 <= track * view <= track * total) by (nonlinear_arith)
        requires
            12 <= track,
            0 <= view < total,
    ;
    assert(0 <= track * view / total <= track) by (nonlinear_arith)
        requires
            0 <= track * view <= track * total,
            total > 0,
    ;
}

pub fn draw_scrollbar(
    out: &mut Vec<DrawCmd>,
    x: usize,
    y: usize,
    w: usize,
    h: usize,
    height: usize,
    scroll: usize,
)
    requires
        x + w <= usize::MAX,
        y + h <= usize::MAX,
        w >= 4,
        h >= 12,
    ensures
        draw::drawn(final(out)@) == draw::drawn(old(out)@) + scrollbar_cmds(
            (x, y, w, h),
            height,
            scroll,
        ),
{
    let total = most(height, 1);
    let view = minus(h, 8);
    let ghost start = draw::drawn(out@);
    if total > view {
        proof {
            thumb_fits(h as int, view as int, total as int);
            the_thumb_stays_on_its_track(h as int, view as int, total as int, scroll as int);
            assert(h * view <= 0xffff_ffff_ffff_ffff * 0xffff_ffff_ffff_ffff) by (nonlinear_arith)
                requires
                    h <= 0xffff_ffff_ffff_ffff,
                    view <= 0xffff_ffff_ffff_ffff,
            ;
        }
        let share: u128 = (h as u128) * (view as u128) / (total as u128);
        let size: usize = if share >= 12 { share as usize } else { 12 };
        let room: usize = h - size;
        let span: usize = if total - view >= 1 { total - view } else { 1 };
        proof {
            assert(room * scroll <= 0xffff_ffff_ffff_ffff * 0xffff_ffff_ffff_ffff)
                by (nonlinear_arith)
                requires
                    room <= 0xffff_ffff_ffff_ffff,
                    scroll <= 0xffff_ffff_ffff_ffff,
            ;
        }
        let below: u128 = (room as u128) * (scroll as u128) / (span as u128);
        let down: usize = if below <= room as u128 { below as usize } else { room };
        let edge: usize = x + w - 4;
        fill(out, edge, y, 3, h, theme::FIELD_BG);
        fill(out, edge, y + down, 3, size, theme::ACCENT);
    }
    assert(draw::drawn(out@) =~= start + scrollbar_cmds((x, y, w, h), height, scroll));
}

/// The frame of a form field on view, edge by edge: one that straddles the
/// top of the view keeps its sides and loses only the edge that is off it.
pub open spec fn field_cmds(
    v: Viewport,
    b: (int, int, int, int),
    top: int,
    height: int,
    fill: Color,
    edge: Color,
) -> Seq<Cmd> {
    let row = |y: int|
        if v.top <= y < v.bottom {
            seq![draw::fill_of(b.0 as usize, y as usize, b.2 as usize, 1, edge)]
        } else {
            Seq::<Cmd>::empty()
        };
    seq![
        draw::fill_of(b.0 as usize, b.1 as usize, b.2 as usize, b.3 as usize, fill),
        draw::fill_of(b.0 as usize, b.1 as usize, 1, b.3 as usize, edge),
        draw::fill_of((b.0 + b.2 - 1) as usize, b.1 as usize, 1, b.3 as usize, edge),
    ] + row(top) + row(top + height - 1)
}

/// A field's fill and the colour of its frame. A control with no interface is
/// drawn flat, so that it reads as something that cannot be touched.
pub fn field_look(button: bool, supported: bool, focused: bool) -> (r: (Color, Color))
    ensures
        r.0 == (if button {
            BROWSER_BUTTON_BG
        } else if !supported {
            BROWSER_FIELD_FLAT
        } else {
            BROWSER_FIELD_BG
        }),
        r.1 == (if focused {
            BROWSER_FIELD_FOCUS
        } else {
            BROWSER_FIELD_EDGE
        }),
{
    (
        if button {
            BROWSER_BUTTON_BG
        } else if !supported {
            BROWSER_FIELD_FLAT
        } else {
            BROWSER_FIELD_BG
        },
        if focused {
            BROWSER_FIELD_FOCUS
        } else {
            BROWSER_FIELD_EDGE
        },
    )
}

/// Draw a field's box at the given place of the page, where any of it is on
/// view.
pub fn browser_draw_field(
    out: &mut Vec<DrawCmd>,
    v: &Viewport,
    x: i64,
    y: i64,
    w: i64,
    h: i64,
    colors: (Color, Color),
)
    requires
        v.wf(),
        near(x as int) && near(y as int) && near(w as int) && near(h as int),
    ensures
        draw::drawn(final(out)@) == draw::drawn(old(out)@) + (match shown(
            *v,
            x as int,
            y as int,
            w as int,
            h as int,
        ) {
            Some(b) => field_cmds(
                *v,
                b,
                v.origin_y + y,
                state::at_least(h as int, 1),
                colors.0,
                colors.1,
            ),
            None => Seq::empty(),
        }),
{
    let ghost start = draw::drawn(out@);
    if let Some((left, from, wide, high)) = clip_box(v, x, y, w, h) {
        let (ground, edge) = colors;
        let tall: i64 = if h >= 1 { h } else { 1 };
        let top: i64 = v.origin_y + y;
        let last: i64 = top + tall - 1;
        fill(out, left, from, wide, high, ground);
        fill(out, left, from, 1, high, edge);
        fill(out, left + wide - 1, from, 1, high, edge);
        if top >= v.top && top < v.bottom {
            fill(out, left, top as usize, wide, 1, edge);
        }
        if last >= v.top && last < v.bottom {
            fill(out, left, last as usize, wide, 1, edge);
        }
        assert(draw::drawn(out@) =~= start + field_cmds(
            *v,
            shown(*v, x as int, y as int, w as int, h as int)->0,
            v.origin_y + y,
            state::at_least(h as int, 1),
            ground,
            edge,
        ));
    } else {
        assert(draw::drawn(out@) =~= start + Seq::<Cmd>::empty());
    }
}

// ── Laws ────────────────────────────────────────────────────────────────────

/// A page that arrives is shown from its top, under its own address, which also
/// stands in the address bar; the address that was left can be gone back to.
pub proof fn pages_arrive_under_their_address(
    w: WindowModel,
    b: BrowserModel,
    url: Seq<char>,
    height: usize,
    summary: Seq<char>,
    previous: Seq<char>,
)
    requires
        w.app == AppModel::Browser(b),
        w.widgets.len() > 2,
        w.widgets[2] is TextBox,
        previous.len() > 0,
        b.history.len() < 32,
    ensures
        ({
            let v = arrived(url, height, summary, Some(previous), true)(w);
            &&& address(v) == url
            &&& v.footer == Some(summary)
            &&& v.app == AppModel::Browser(
                BrowserModel {
                    page: Some(height),
                    scroll: 0,
                    status: summary,
                    history: b.history.push(previous),
                    current: url,
                },
            )
        }),
        ({
            let v = arrived(url, height, summary, Some(previous), false)(w);
            v.app matches AppModel::Browser(c) && c.history == b.history
        }),
{
}

/// Going back leads to the address that was left last, and forgets it; with
/// none left it leads nowhere.
pub proof fn back_leads_to_the_last_address(d: DesktopModel, b: BrowserModel)
    requires
        front(d) == Some(b),
    ensures
        b.history.len() > 0 ==> {
            let (e, to) = gone_back(d);
            &&& to == Some(b.history.last())
            &&& front(e) == Some(BrowserModel { history: b.history.drop_last(), ..b })
        },
        b.history.len() == 0 ==> gone_back(d).1 is None,
{
    let i = manager::last_of(d.wm, WindowKind::Browser);
    let p = manager::of_kind(WindowKind::Browser);
    manager::last_where_bounds(d.wm.windows, p);
    if b.history.len() > 0 {
        let e = gone_back(d).0;
        assert(e.wm.windows[i].kind == WindowKind::Browser);
        assert forall|j: int| i < j < e.wm.windows.len() implies !p(#[trigger] e.wm.windows[j]) by {
            assert(e.wm.windows[j] == d.wm.windows[j]);
            if p(d.wm.windows[j]) {
                manager::windows_are_found_by_kind(d.wm, WindowKind::Browser, j);
            }
        }
        manager::last_where_at(e.wm.windows, p, i);
    }
}

/// Scrolling goes the way it is asked, sixty-four pixels a notch, stops at the
/// top and at the end of the page, and changes nothing else.
pub proof fn scrolling_stays_on_the_page(w: WindowModel, b: BrowserModel, dir: i8, height: usize)
    requires
        w.app == AppModel::Browser(b),
        b.page == Some(height),
        height <= 0x1000_0000,
        (height >= 416 ==> b.scroll <= height - 416),
        (height < 416 ==> b.scroll == 0),
        dir != 0,
    ensures
        ({
            let v = scrolled(dir)(w);
            let end = if height >= 416 {
                height - 416
            } else {
                0
            };
            let to = b.scroll + 64 * dir;
            &&& v.app == AppModel::Browser(
                BrowserModel {
                    scroll: (if to < 0 {
                        0
                    } else if to > end {
                        end
                    } else {
                        to
                    }) as usize,
                    ..b
                },
            )
            &&& v.widgets == w.widgets
        }),
{
}

/// A page jumped to lies within the document.
pub proof fn jumps_stay_on_the_page(w: WindowModel, b: BrowserModel, offset: usize, height: usize)
    requires
        w.app == AppModel::Browser(b),
        b.page == Some(height),
    ensures
        scrolled_to(offset)(w).app matches AppModel::Browser(c) && c.scroll <= offset && (height
            >= 416 ==> c.scroll <= height - 416) && (offset + 416 <= height ==> c.scroll == offset)
            && c.page == b.page && c.current == b.current && c.history == b.history,
{
}

/// The menu over a picture, a link or the bare page does what it says.
pub proof fn the_menu_does_what_it_says(image: bool, link: bool, i: int)
    requires
        0 <= i < menu_items(image, link).len(),
    ensures
        menu_items(image, link)[i].0 == "Reload"@ <==> menu_items(image, link)[i].1
            == WinAction::BrowserReload,
        menu_items(image, link)[i].0 == "Back"@ <==> menu_items(image, link)[i].1
            == WinAction::BrowserBack,
        menu_items(image, link)[i].0 == "Save picture"@ <==> menu_items(image, link)[i].1
            == WinAction::BrowserSaveImage,
        menu_items(image, link)[i].0 == "Set as wallpaper"@ <==> menu_items(image, link)[i].1
            == WinAction::BrowserImageWallpaper,
        menu_items(image, link)[i].0 == "Top of page"@ <==> menu_items(image, link)[i].1
            == WinAction::BrowserScrollTo(0),
        menu_items(image, link)[i].1 == WinAction::BrowserSaveImage ==> image,
        menu_items(image, link).len() == (if image {
            6nat
        } else if link {
            4
        } else {
            3
        }),
{
    menu_words();
}

proof fn menu_words()
    ensures
        "Save picture"@.len() == 12,
        "Set as wallpaper"@.len() == 16,
        "Open picture"@.len() == 12 && "Open picture"@[0] == 'O',
        "Save picture"@[0] == 'S',
        "Open link"@.len() == 9,
        "Reload"@.len() == 6,
        "Back"@.len() == 4,
        "Top of page"@.len() == 11,
{
    reveal_strlit("Save picture");
    reveal_strlit("Set as wallpaper");
    reveal_strlit("Open picture");
    reveal_strlit("Open link");
    reveal_strlit("Reload");
    reveal_strlit("Back");
    reveal_strlit("Top of page");
}

/// Something is shown only when something came; a failed fetch is tried once
/// more in the clear where that is possible, and only of what came of Google's
/// does another page stand in.
pub proof fn failures_are_tried_once_more(
    first_ok: bool,
    has_plain: bool,
    plain_ok: Option<bool>,
    picture: bool,
    google: bool,
)
    ensures
        ({
            let r = recovery(first_ok, has_plain, plain_ok, picture, google);
            let came = first_ok || (has_plain && plain_ok == Some(true));
            &&& r == Recovery::Accept <==> came && !(google && !picture)
            &&& r == Recovery::StandIn <==> came && google && !picture
            &&& r == Recovery::Plain <==> !first_ok && has_plain && plain_ok is None
            &&& r == Recovery::GiveUp <==> !came && !(has_plain && plain_ok is None)
        }),
{
}

/// What came is shown under the address it came from in the end, a picture as a
/// picture; what did not come is shown as an error under the address that was
/// asked for.
pub proof fn what_came_is_shown(
    url: Seq<char>,
    status: u64,
    content_type: Seq<char>,
    final_url: Seq<char>,
    size: (u64, u64),
    e: Seq<char>,
)
    ensures
        text::has_prefix(content_type, "image/"@) ==> shown_as(
            url,
            Reply::Came { status, content_type, final_url, picture: Some(size) },
        ) == (Show::Picture { url: final_url, width: size.0, height: size.1 }),
        text::has_prefix(content_type, "image/"@) ==> (shown_as(
            url,
            Reply::Came { status, content_type, final_url, picture: None },
        ) matches Show::Error { url: u, .. } && u == url),
        !text::has_prefix(content_type, "image/"@) ==> (shown_as(
            url,
            Reply::Came { status, content_type, final_url, picture: None },
        ) matches Show::Document { url: u, .. } && u == final_url),
        shown_as(url, Reply::Failed(e)) matches Show::Error { url: u, detail, .. } && u == url
            && text::occurs(detail, e),
{
    let head = url + " could not be loaded: "@;
    let detail = head + e;
    assert(detail.skip(head.len() as int).take(e.len() as int) =~= e);
}

/// A picture in the clear is asked for directly first; any other is never.
pub proof fn pictures_are_asked_for_by_their_scheme(x: Seq<char>)
    ensures
        routes("http://"@ + x) == seq![Route::Direct, Route::Gateway],
        routes("https://"@ + x) == seq![Route::Gateway],
        routes(x).len() > 0 && routes(x).last() == Route::Gateway,
{
    reveal_strlit("http://");
    reveal_strlit("https://");
    let a = "http://"@ + x;
    assert(a.take(7) =~= "http://"@);
    let b = "https://"@ + x;
    assert(b.take(7)[4] == 's');
    assert("http://"@[4] == ':');
}

/// The rows on view are exactly those of the box that lie within the view.
pub proof fn the_rows_on_view_are_those_within(v: Viewport, top: int, height: int, r: int)
    ensures
        match visible(v, top, height) {
            Some((a, b)) => a <= r < b <==> top <= r < top + height && v.top <= r < v.bottom,
            None => !(top <= r < top + height && v.top <= r < v.bottom),
        },
{
}

/// The menu opens what it was opened over: the picture where there is one, and
/// else the link.
pub proof fn the_menu_opens_what_is_under_it(d: DesktopModel, image: Option<Seq<char>>, link: Option<Seq<char>>)
    ensures
        menu_target(menu_opened(d, image, link)) == (if image is Some {
            image
        } else {
            link
        }),
{
}

} // verus!
