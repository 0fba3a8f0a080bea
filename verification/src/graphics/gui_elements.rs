//! The state of the user interface: theme, numeric entry buffer, the
//! action waiting to be applied, and the notifications on display.

use crate::graphics::vertex::Color;
use crate::numeric::string_push;
use vstd::prelude::*;
use vstd::string::StringExecFns;

verus! {

/// How long a notification stays on display, in milliseconds.
pub const NOTIFICATION_TTL: u64 = 5_000;

/// What the user interface holds between frames.
#[derive(Clone, Debug)]
pub struct UiState {
    pub theme: Theme,
    pub numeric_buff: String,
    pub numeric_active: bool,
    pub action: Option<UiAction>,
    pub notifications: Vec<Notification>,
}

/// A short message on display from `created_at` for `ttl` milliseconds.
#[derive(Clone, Debug)]
pub struct Notification {
    message: String,
    created_at: u64,
    ttl: u64,
}

/// A notification as the contracts speak of it.
pub struct NotificationView {
    pub message: Seq<char>,
    pub created_at: u64,
    pub ttl: u64,
}

/// What the user asked for through the user interface.
#[derive(Clone, Debug)]
pub enum UiAction {
    DrawLine,
    DrawCircle,
    /// Ask the user for a drawing to open.
    OpenFile,
    OpenFilePath(String),
    SaveFile,
    Input(String),
    ChangeTheme,
}

/// The colour schemes of the themes.
#[derive(Copy, Clone, Debug, PartialEq, Eq, Structural)]
pub enum ColorScheme {
    Light,
    Grey,
    Dark,
}

/// A colour scheme with its background colour, one byte per channel.
#[derive(Copy, Clone, Debug)]
pub struct Theme {
    pub color_scheme: ColorScheme,
    pub colors: [u8; 3],
}

/// The themes in the order in which they are cycled through.
pub open spec fn spec_theme(i: int) -> Theme {
    if i == 0 {
        Theme { color_scheme: ColorScheme::Dark, colors: [1u8, 1u8, 1u8] }
    } else if i == 1 {
        Theme { color_scheme: ColorScheme::Grey, colors: [5u8, 8u8, 12u8] }
    } else {
        Theme { color_scheme: ColorScheme::Light, colors: [255u8, 255u8, 255u8] }
    }
}

/// The place of a colour scheme among the themes.
pub open spec fn theme_index(scheme: ColorScheme) -> int {
    match scheme {
        ColorScheme::Dark => 0,
        ColorScheme::Grey => 1,
        ColorScheme::Light => 2,
    }
}

/// The theme that follows the one of the given scheme, the first after
/// the last.
pub open spec fn next_theme(scheme: ColorScheme) -> Theme {
    spec_theme((theme_index(scheme) + 1) % 3)
}

/// The `i`-th theme; the last for any `i` past the end.
pub fn theme(i: usize) -> (t: Theme)
    ensures
        t == spec_theme(i as int),
{
    if i == 0 {
        Theme { color_scheme: ColorScheme::Dark, colors: [1u8, 1u8, 1u8] }
    } else if i == 1 {
        Theme { color_scheme: ColorScheme::Grey, colors: [5u8, 8u8, 12u8] }
    } else {
        Theme { color_scheme: ColorScheme::Light, colors: [255u8, 255u8, 255u8] }
    }
}

impl ColorScheme {
    /// The colour in which an entity is painted under this scheme:
    /// the accent colour when selected, else the scheme's foreground.
    pub open spec fn paint(self, selected: bool) -> Color {
        if selected {
            Color::red()
        } else if self == ColorScheme::Light {
            Color::black()
        } else {
            Color::white()
        }
    }

    /// The colour in which an entity is painted under this scheme.
    pub fn paint_color(self, selected: bool) -> (c: Color)
        ensures
            c == self.paint(selected),
    {
        if selected {
            Color::red()
        } else if self == ColorScheme::Light {
            Color::black()
        } else {
            Color::white()
        }
    }
}

impl View for Notification {
    type V = NotificationView;

    closed spec fn view(&self) -> NotificationView {
        NotificationView { message: self.message@, created_at: self.created_at, ttl: self.ttl }
    }
}

impl NotificationView {
    /// The notification is still on display at time `now`: less than its
    /// time to live has passed since it was made.
    pub open spec fn live_at(self, now: u64) -> bool {
        now < self.created_at || now - self.created_at < self.ttl
    }
}

/// The notifications of a collection as the contracts speak of them.
pub open spec fn notification_views(notes: Seq<Notification>) -> Seq<NotificationView> {
    Seq::new(notes.len(), |i: int| notes[i]@)
}

impl Notification {
    /// A notification with the text `text`, made at `created_at` and on
    /// display for `ttl` milliseconds.
    pub fn new(text: &str, created_at: u64, ttl: u64) -> (note: Notification)
        ensures
            note@ == (NotificationView { message: text@, created_at, ttl }),
    {
        Notification { message: String::from_str(text), created_at, ttl }
    }

    /// The text of the notification.
    pub fn message(&self) -> (m: &String)
        ensures
            m@ == self@.message,
    {
        &self.message
    }

    /// When the notification was made, in milliseconds.
    pub fn created_at(&self) -> (t: u64)
        ensures
            t == self@.created_at,
    {
        self.created_at
    }

    /// How long the notification stays on display, in milliseconds.
    pub fn ttl(&self) -> (t: u64)
        ensures
            t == self@.ttl,
    {
        self.ttl
    }

    /// A notification with the same message and times.
    pub fn duplicate(&self) -> (note: Notification)
        ensures
            note@ == self@,
    {
        Notification {
            message: String::from_str(self.message.as_str()),
            created_at: self.created_at,
            ttl: self.ttl,
        }
    }

    /// Whether the notification is still on display at time `now`.
    pub fn is_live(&self, now: u64) -> (b: bool)
        ensures
            b == self@.live_at(now),
    {
        now < self.created_at || now - self.created_at < self.ttl
    }
}

/// An action as the contracts speak of it.
pub enum UiActionView {
    DrawLine,
    DrawCircle,
    OpenFile,
    OpenFilePath(Seq<char>),
    SaveFile,
    Input(Seq<char>),
    ChangeTheme,
}

impl View for UiAction {
    type V = UiActionView;

    open spec fn view(&self) -> UiActionView {
        match self {
            UiAction::DrawLine => UiActionView::DrawLine,
            UiAction::DrawCircle => UiActionView::DrawCircle,
            UiAction::OpenFile => UiActionView::OpenFile,
            UiAction::OpenFilePath(p) => UiActionView::OpenFilePath(p@),
            UiAction::SaveFile => UiActionView::SaveFile,
            UiAction::Input(v) => UiActionView::Input(v@),
            UiAction::ChangeTheme => UiActionView::ChangeTheme,
        }
    }
}

/// The state of the user interface as the contracts speak of it.
pub struct UiStateView {
    pub theme: Theme,
    pub numeric_buff: Seq<char>,
    pub numeric_active: bool,
    pub action: Option<UiActionView>,
    pub notifications: Seq<NotificationView>,
}

impl View for UiState {
    type V = UiStateView;

    open spec fn view(&self) -> UiStateView {
        UiStateView {
            theme: self.theme,
            numeric_buff: self.numeric_buff@,
            numeric_active: self.numeric_active,
            action: match self.action {
                Some(a) => Some(a@),
                None => None,
            },
            notifications: notification_views(self.notifications@),
        }
    }
}

impl UiState {
    /// The dark theme, an empty buffer, no action and no notification.
    pub fn new() -> (ui: UiState)
        ensures
            ui@ == (UiStateView {
                theme: spec_theme(0),
                numeric_buff: Seq::empty(),
                numeric_active: false,
                action: None,
                notifications: Seq::empty(),
            }),
    {
        let ui = UiState {
            theme: theme(0),
            numeric_buff: String::new(),
            numeric_active: false,
            action: None,
            notifications: Vec::new(),
        };
        assert(ui@.notifications =~= Seq::<NotificationView>::empty());
        ui
    }

    /// Puts the message `text` on display from `now` on.
    pub fn add_notification(&mut self, text: &str, now: u64)
        ensures
            final(self)@ == (UiStateView {
                notifications: old(self)@.notifications.push(
                    NotificationView { message: text@, created_at: now, ttl: NOTIFICATION_TTL },
                ),
                ..old(self)@
            }),
    {
        let note = Notification::new(text, now, NOTIFICATION_TTL);
        self.notifications.push(note);
        assert(final(self)@.notifications =~= old(self)@.notifications.push(note@));
    }

    /// Types the character `ch` into the numeric entry.
    pub fn push_digit(&mut self, ch: char)
        ensures
            final(self)@ == (UiStateView {
                numeric_active: true,
                numeric_buff: old(self)@.numeric_buff.push(ch),
                ..old(self)@
            }),
    {
        self.numeric_active = true;
        string_push(&mut self.numeric_buff, ch);
    }

    /// Takes off display the notifications that have outlived their time
    /// at `now`; the others stay in their order.
    pub fn expire_notifications(&mut self, now: u64)
        ensures
            final(self)@ == (UiStateView {
                notifications: old(self)@.notifications.filter(
                    |n: NotificationView| n.live_at(now),
                ),
                ..old(self)@
            }),
    {
        let ghost pred = |n: NotificationView| n.live_at(now);
        let ghost all = self@.notifications;
        let mut kept: Vec<Notification> = Vec::new();
        let n = self.notifications.len();
        let mut i: usize = 0;
        assert(all.take(0) =~= Seq::<NotificationView>::empty());
        while i < n
            invariant
                n == self.notifications@.len(),
                i <= n,
                *self == *old(self),
                all == self@.notifications,
                pred == |n: NotificationView| n.live_at(now),
                notification_views(kept@) == all.take(i as int).filter(pred),
            decreases n - i,
        {
            proof {
                assert(all.take(i + 1).drop_last() =~= all.take(i as int));
                assert(all.take(i + 1).last() == self.notifications@[i as int]@);
                reveal(Seq::filter);
            }
            if self.notifications[i].is_live(now) {
                let ghost before = notification_views(kept@);
                let note = self.notifications[i].duplicate();
                kept.push(note);
                assert(notification_views(kept@) =~= before.push(note@));
            }
            i += 1;
        }
        assert(all.take(n as int) =~= all);
        self.notifications = kept;
    }

    /// The toolbar's theme button: moves on to the next theme and asks
    /// for the drawing to be repainted in it.
    pub fn toggle_theme(&mut self)
        ensures
            final(self)@ == (UiStateView {
                theme: next_theme(old(self)@.theme.color_scheme),
                action: Some(UiActionView::ChangeTheme),
                ..old(self)@
            }),
    {
        let next = match self.theme.color_scheme {
            ColorScheme::Dark => theme(1),
            ColorScheme::Grey => theme(2),
            ColorScheme::Light => theme(0),
        };
        self.theme = next;
        self.action = Some(UiAction::ChangeTheme);
    }

    /// Enter in the numeric entry: hands the text typed so far over as
    /// an input action and empties the entry.
    pub fn commit_input(&mut self)
        ensures
            final(self)@ == (UiStateView {
                numeric_active: false,
                numeric_buff: Seq::empty(),
                action: Some(UiActionView::Input(old(self)@.numeric_buff)),
                ..old(self)@
            }),
    {
        self.numeric_active = false;
        let value = self.numeric_buff.clone();
        self.action = Some(UiAction::Input(value));
        self.numeric_buff = String::new();
    }
}

} // verus!
