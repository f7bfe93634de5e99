//! What the panel is told of the tray.

use crate::model::{Action, Link, Summary, TrayModel, TrayState, TrayView};
use crate::text::{join, joined, texts};
use vstd::prelude::*;
use vstd::string::*;

verus! {

/// The item's identity on the bus. Panels remember an icon's position by it.
pub const TRAY_ID: &'static str = "rclone-vfsmount-tray";

/// The item's title.
pub const TRAY_TITLE: &'static str = "rclone VFS mounts";

/// How much the panel should make of the item. There is no way to be hidden: an icon that
/// vanishes when everything is fine is one the user cannot find when it is not.
#[derive(Debug, Clone, Copy, PartialEq, Eq, Structural)]
pub enum Status {
    Active,
    NeedsAttention,
}

/// What is shown without opening anything.
#[derive(Debug, Clone, PartialEq, Eq)]
pub struct ToolTip<S = String> {
    pub icon_name: S,
    pub title: S,
    pub description: S,
}

impl View for ToolTip {
    type V = ToolTip<Seq<char>>;

    open spec fn view(&self) -> ToolTip<Seq<char>> {
        ToolTip {
            icon_name: self.icon_name@,
            title: self.title@,
            description: self.description@,
        }
    }
}

/// The lines that sum the mounts up.
pub open spec fn summary_lines(s: Summary) -> Seq<Seq<char>> {
    let l0 = seq![s.mounted_text()];
    let l1 = match s.pending_words() {
        Some(t) => l0.push(t),
        None => l0,
    };
    match s.rate_words() {
        Some(t) => l1.push(t),
        None => l1,
    }
}

/// The description in a tooltip: counts and fixed prose only. A panel may read it as markup,
/// so a mount name or a message must not reach it.
pub open spec fn tip_text(v: TrayView) -> Seq<char> {
    match v.link {
        Link::Connecting => "Connecting…"@,
        Link::Down(_) =>
            "The tray cannot reach the service.\nMounts already up are unaffected."@,
        Link::Up(_) => joined(summary_lines(v.sum()), "\n"@),
    }
}

/// The tooltip.
pub open spec fn tip_of(v: TrayView) -> ToolTip<Seq<char>> {
    ToolTip {
        icon_name: v.icon_state().icon(),
        title: TRAY_TITLE@ + " — "@ + v.icon_state().words(),
        description: tip_text(v),
    }
}

impl TrayModel {
    /// The item's identity, whatever it is showing.
    pub fn id(&self) -> (r: String)
        ensures
            r@ == TRAY_ID@,
    {
        TRAY_ID.to_owned()
    }

    /// The item's title.
    pub fn title(&self) -> (r: String)
        ensures
            r@ == TRAY_TITLE@,
    {
        TRAY_TITLE.to_owned()
    }

    /// The icon for the state.
    pub fn icon_name(&self) -> (r: String)
        ensures
            r@ == self@.icon_state().icon(),
    {
        self.state().icon_name().to_owned()
    }

    /// The icon shown instead while the item needs attention, whatever the state is.
    pub fn attention_icon_name(&self) -> (r: String)
        ensures
            r@ == TrayState::Attention.icon(),
    {
        TrayState::Attention.icon_name().to_owned()
    }

    /// How much the panel should make of the item.
    pub fn status(&self) -> (r: Status)
        ensures
            r == if self@.icon_state() == TrayState::Attention {
                Status::NeedsAttention
            } else {
                Status::Active
            },
    {
        if self.state().needs_attention() {
            Status::NeedsAttention
        } else {
            Status::Active
        }
    }

    /// The summary, without opening anything.
    pub fn tool_tip(&self) -> (r: ToolTip)
        ensures
            r@ == tip_of(self@),
    {
        let state = self.state();
        let description = match self.link() {
            Link::Connecting => "Connecting…".to_owned(),
            Link::Down(_) => {
                "The tray cannot reach the service.\nMounts already up are unaffected.".to_owned()
            },
            Link::Up(_) => {
                let s = self.summary();
                let mut lines: Vec<String> = Vec::new();
                lines.push(s.mounted_line());
                assert(texts(lines@) == seq![s.mounted_text()]);
                if let Some(t) = s.pending_line() {
                    let ghost before = lines@;
                    lines.push(t);
                    assert(texts(lines@) == texts(before).push(t@));
                }
                if let Some(t) = s.rate_line() {
                    let ghost before = lines@;
                    lines.push(t);
                    assert(texts(lines@) == texts(before).push(t@));
                }
                join(&lines, "\n")
            },
        };
        let mut title = TRAY_TITLE.to_owned();
        title.append(" — ");
        title.append(state.label());
        ToolTip { icon_name: state.icon_name().to_owned(), title, description }
    }

    /// What a left click means. There is no window to raise, so it re-reads from the
    /// service.
    pub fn activate(&self) -> (r: Action)
        ensures
            r@ is Refresh,
    {
        Action::Refresh
    }

    /// Whether to keep running with no panel to draw the icon. A desktop that restarts its
    /// shell would otherwise leave the user with no icon and no way to get one back.
    pub fn watcher_offline(&self) -> (r: bool)
        ensures
            r,
    {
        true
    }
}

/// A tooltip of a tray that cannot see its service says nothing of mounts: it is the same
/// whatever the tray held.
pub proof fn a_disconnected_tooltip_describes_the_link_alone(v: TrayView, w: TrayView)
    requires
        v.link is Down,
        w.link is Down,
    ensures
        tip_of(v) == tip_of(w),
{
}

} // verus!
