//! State of the terminal front end that is plain data: panel tabs and node
//! status labels.  Rendering lives outside the library.

use vstd::prelude::*;

verus! {

/// Liveness shown for a node in the list.
#[derive(Debug, Clone, Copy, PartialEq, Eq, Structural)]
pub enum NodeStatus {
    Online,
    Offline,
    Unknown,
}

impl NodeStatus {
    /// The label shown for this status.
    pub fn as_str(&self) -> (r: &'static str)
        ensures
            self is Online ==> r@ == "在线"@,
            self is Offline ==> r@ == "离线"@,
            self is Unknown ==> r@ == "未知"@,
    {
        match self {
            NodeStatus::Online => "在线",
            NodeStatus::Offline => "离线",
            NodeStatus::Unknown => "未知",
        }
    }
}

/// The three panels of the front end.
#[derive(Debug, Clone, Copy, PartialEq, Eq, Structural)]
pub enum AppTab {
    /// The device list.
    Panel1,
    /// The chat panel.
    Panel2,
    /// The file picker.
    Panel3,
}

impl AppTab {
    /// The panel's title.
    pub fn title(&self) -> (r: &'static str)
        ensures
            self is Panel1 ==> r@ == "[1] 设备列表"@,
            self is Panel2 ==> r@ == "[2] 聊天"@,
            self is Panel3 ==> r@ == "[3] 文件选择"@,
    {
        match self {
            AppTab::Panel1 => "[1] 设备列表",
            AppTab::Panel2 => "[2] 聊天",
            AppTab::Panel3 => "[3] 文件选择",
        }
    }

    /// All panels, in order.
    pub fn all() -> (r: Vec<AppTab>)
        ensures
            r@ == seq![AppTab::Panel1, AppTab::Panel2, AppTab::Panel3],
    {
        let mut v: Vec<AppTab> = Vec::new();
        v.push(AppTab::Panel1);
        v.push(AppTab::Panel2);
        v.push(AppTab::Panel3);
        proof {
            assert(v@ =~= seq![AppTab::Panel1, AppTab::Panel2, AppTab::Panel3]);
        }
        v
    }

    /// The panel's position.
    pub fn index(&self) -> (r: usize)
        ensures
            r == match self {
                AppTab::Panel1 => 0int,
                AppTab::Panel2 => 1int,
                AppTab::Panel3 => 2int,
            },
    {
        match self {
            AppTab::Panel1 => 0,
            AppTab::Panel2 => 1,
            AppTab::Panel3 => 2,
        }
    }

    /// The panel at a position, if any.
    pub fn from_index(index: usize) -> (r: Option<AppTab>)
        ensures
            r == match index {
                0usize => Some(AppTab::Panel1),
                1usize => Some(AppTab::Panel2),
                2usize => Some(AppTab::Panel3),
                _ => None::<AppTab>,
            },
    {
        match index {
            0 => Some(AppTab::Panel1),
            1 => Some(AppTab::Panel2),
            2 => Some(AppTab::Panel3),
            _ => None,
        }
    }

    /// The panel after this one, wrapping around.
    pub fn next(&self) -> (r: AppTab)
        ensures
            r == match self {
                AppTab::Panel1 => AppTab::Panel2,
                AppTab::Panel2 => AppTab::Panel3,
                AppTab::Panel3 => AppTab::Panel1,
            },
    {
        match self {
            AppTab::Panel1 => AppTab::Panel2,
            AppTab::Panel2 => AppTab::Panel3,
            AppTab::Panel3 => AppTab::Panel1,
        }
    }

    /// The panel before this one, wrapping around.
    pub fn previous(&self) -> (r: AppTab)
        ensures
            r == match self {
                AppTab::Panel1 => AppTab::Panel3,
                AppTab::Panel2 => AppTab::Panel1,
                AppTab::Panel3 => AppTab::Panel2,
            },
    {
        match self {
            AppTab::Panel1 => AppTab::Panel3,
            AppTab::Panel2 => AppTab::Panel1,
            AppTab::Panel3 => AppTab::Panel2,
        }
    }
}

/// The tab strip: which panel has focus.
#[derive(Debug, Clone, Copy, PartialEq, Eq, Structural)]
pub struct Tabs {
    /// The focused panel.
    pub current: AppTab,
}

impl Tabs {
    /// A tab strip focused on the given panel.
    pub fn new(current: AppTab) -> (r: Self)
        ensures
            r.current == current,
    {
        Self { current }
    }

    /// Focus the given panel.
    pub fn set_current(&mut self, tab: AppTab)
        ensures
            final(self).current == tab,
    {
        self.current = tab;
    }

    /// Focus the next panel.
    pub fn next(&mut self)
        ensures
            final(self).current == old(self).current.next_spec(),
    {
        self.current = self.current.next();
    }

    /// Focus the previous panel.
    pub fn previous(&mut self)
        ensures
            final(self).current == old(self).current.previous_spec(),
    {
        self.current = self.current.previous();
    }

    /// The titles of all panels, in order.
    pub fn titles(&self) -> (r: Vec<&'static str>)
        ensures
            r@.len() == 3,
    {
        let mut v: Vec<&'static str> = Vec::new();
        v.push(AppTab::Panel1.title());
        v.push(AppTab::Panel2.title());
        v.push(AppTab::Panel3.title());
        v
    }
}

impl AppTab {
    /// The successor relation of the panels.
    pub open spec fn next_spec(self) -> AppTab {
        match self {
            AppTab::Panel1 => AppTab::Panel2,
            AppTab::Panel2 => AppTab::Panel3,
            AppTab::Panel3 => AppTab::Panel1,
        }
    }

    /// The predecessor relation of the panels.
    pub open spec fn previous_spec(self) -> AppTab {
        match self {
            AppTab::Panel1 => AppTab::Panel3,
            AppTab::Panel2 => AppTab::Panel1,
            AppTab::Panel3 => AppTab::Panel2,
        }
    }
}

/// Errors of the front end.
#[derive(Debug)]
pub enum AppError {
    /// An I/O failure, with a description.
    Io(Vec<u8>),
    /// A channel send failed, with a description.
    Send(Vec<u8>),
    /// The discovery service failed, with a description.
    Mdns(Vec<u8>),
}

} // verus!
