//! The platform shells' own decisions: native menu commands, the font files
//! each system offers, and when the Windows shell re-applies its frameless
//! window chrome. Every call into the operating system is the host's.
use vstd::prelude::*;

use crate::text::owned;

verus! {

/// What a native context menu asks the shared UI to do.
#[derive(Debug, Clone, Copy, PartialEq, Eq, Structural)]
pub enum MenuCommand {
    OpenSettings,
    ChangePet,
    TogglePet,
    Quit,
}

/// The Win32 menu item id of a command.
pub open spec fn menu_command_id(c: MenuCommand) -> u32 {
    match c {
        MenuCommand::OpenSettings => 1,
        MenuCommand::ChangePet => 2,
        MenuCommand::TogglePet => 3,
        MenuCommand::Quit => 4,
    }
}

/// The command a Win32 menu item id stands for.
pub open spec fn command_for_id(id: u32) -> Option<MenuCommand> {
    if id == 1 {
        Some(MenuCommand::OpenSettings)
    } else if id == 2 {
        Some(MenuCommand::ChangePet)
    } else if id == 3 {
        Some(MenuCommand::TogglePet)
    } else if id == 4 {
        Some(MenuCommand::Quit)
    } else {
        None
    }
}

/// The command a Win32 menu item id stands for; other ids stand for none.
pub fn menu_command_from_id(id: u32) -> (r: Option<MenuCommand>)
    ensures
        r == command_for_id(id),
        match r {
            Some(c) => menu_command_id(c) == id,
            None => forall|c: MenuCommand| menu_command_id(c) != id,
        },
{
    match id {
        1 => Some(MenuCommand::OpenSettings),
        2 => Some(MenuCommand::ChangePet),
        3 => Some(MenuCommand::TogglePet),
        4 => Some(MenuCommand::Quit),
        _ => None,
    }
}

/// The commands among the ids a menu reported, in order; unknown ids are
/// skipped.
pub open spec fn commands_of(ids: Seq<u32>) -> Seq<MenuCommand>
    decreases ids.len(),
{
    if ids.len() == 0 {
        Seq::empty()
    } else {
        let rest = commands_of(ids.drop_last());
        match command_for_id(ids.last()) {
            Some(c) => rest.push(c),
            None => rest,
        }
    }
}

/// Turn the menu item ids picked since the last poll into commands.
pub fn poll_commands(ids: &Vec<u32>) -> (r: Vec<MenuCommand>)
    ensures
        r@ == commands_of(ids@),
{
    let mut out: Vec<MenuCommand> = Vec::new();
    let mut i: usize = 0;
    while i < ids.len()
        invariant
            i <= ids.len(),
            out@ == commands_of(ids@.subrange(0, i as int)),
        decreases ids.len() - i,
    {
        assert(ids@.subrange(0, i + 1).drop_last() =~= ids@.subrange(0, i as int));
        match menu_command_from_id(ids[i]) {
            Some(c) => out.push(c),
            None => {},
        }
        i = i + 1;
    }
    assert(ids@.subrange(0, ids.len() as int) =~= ids@);
    out
}

/// Host without a native backend: the UI falls back to its portable
/// behaviour.
#[derive(Debug, Default)]
pub struct PortableHost;

impl PortableHost {
    /// Short name, used in logs.
    pub fn name(&self) -> (r: &'static str)
        ensures
            r@ == "portable"@,
    {
        "portable"
    }
}

/// The macOS shell's host.
#[derive(Debug, Default)]
pub struct MacHost;

impl MacHost {
    pub fn new() -> (r: Self) {
        MacHost
    }

    /// Short name, used in logs.
    pub fn name(&self) -> (r: &'static str)
        ensures
            r@ == "macos"@,
    {
        "macos"
    }

    /// System CJK fonts, in the order they are tried.
    pub fn cjk_font_candidates(&self) -> (r: Vec<String>)
        ensures
            r@.len() == 3,
            r@[0]@ == "/System/Library/Fonts/PingFang.ttc"@,
            r@[1]@ == "/System/Library/Fonts/STHeiti Light.ttc"@,
            r@[2]@ == "/System/Library/Fonts/Hiragino Sans GB.ttc"@,
    {
        let mut r: Vec<String> = Vec::new();
        r.push(owned("/System/Library/Fonts/PingFang.ttc"));
        r.push(owned("/System/Library/Fonts/STHeiti Light.ttc"));
        r.push(owned("/System/Library/Fonts/Hiragino Sans GB.ttc"));
        r
    }
}

/// How long the Windows shell waits after a resize before it checks the
/// window chrome again, in milliseconds.
pub const CHROME_SETTLE_MS: u64 = 200;

/// What to do with the window chrome in one painted frame.
#[derive(Debug, Clone, Copy, PartialEq, Eq, Structural)]
pub enum ChromeStep {
    /// Apply the frameless chrome for the first time.
    FirstApply,
    /// A resize has settled: check whether Windows restored the frame.
    Settled,
    /// Leave the chrome alone.
    Steady,
}

/// Has a resize at `resize_at` settled by `now`?
pub open spec fn resize_settled(resize_at: Option<u64>, now: u64) -> bool {
    resize_at matches Some(at) && now >= at && now - at >= CHROME_SETTLE_MS
}

/// The Windows shell's host: whether the chrome was applied, and when the
/// window was last resized (worker clock, milliseconds).
#[derive(Debug)]
pub struct WindowsHost {
    pub ready: bool,
    pub resize_at: Option<u64>,
}

impl WindowsHost {
    pub fn new() -> (r: Self)
        ensures
            !r.ready,
            r.resize_at is None,
    {
        WindowsHost { ready: false, resize_at: None }
    }

    /// Short name, used in logs.
    pub fn name(&self) -> (r: &'static str)
        ensures
            r@ == "windows"@,
    {
        "windows"
    }

    /// System CJK fonts, in the order they are tried.
    pub fn cjk_font_candidates(&self) -> (r: Vec<String>)
        ensures
            r@.len() == 6,
            r@[0]@ == "C:\\Windows\\Fonts\\SourceHanSansCN.ttf"@,
            r@[1]@ == "C:\\Windows\\Fonts\\msyh.ttc"@,
            r@[2]@ == "C:\\Windows\\Fonts\\msyh.ttf"@,
            r@[3]@ == "C:\\Windows\\Fonts\\Deng.ttf"@,
            r@[4]@ == "C:\\Windows\\Fonts\\simhei.ttf"@,
            r@[5]@ == "C:\\Windows\\Fonts\\simsun.ttc"@,
    {
        let mut r: Vec<String> = Vec::new();
        r.push(owned("C:\\Windows\\Fonts\\SourceHanSansCN.ttf"));
        r.push(owned("C:\\Windows\\Fonts\\msyh.ttc"));
        r.push(owned("C:\\Windows\\Fonts\\msyh.ttf"));
        r.push(owned("C:\\Windows\\Fonts\\Deng.ttf"));
        r.push(owned("C:\\Windows\\Fonts\\simhei.ttf"));
        r.push(owned("C:\\Windows\\Fonts\\simsun.ttc"));
        r
    }

    /// Decide, at `now`, what the frame being painted does with the chrome:
    /// apply it once; after a resize, check it again once the resize has
    /// settled for `CHROME_SETTLE_MS` (and forget the resize); otherwise
    /// leave it alone. Applying marks the chrome ready.
    pub fn chrome_step(&mut self, now: u64) -> (r: ChromeStep)
        ensures
            !old(self).ready ==> r == ChromeStep::FirstApply && final(self).ready
                && final(self).resize_at == old(self).resize_at,
            old(self).ready && resize_settled(old(self).resize_at, now) ==> r == ChromeStep::Settled
                && final(self).ready && final(self).resize_at is None,
            old(self).ready && !resize_settled(old(self).resize_at, now) ==> r == ChromeStep::Steady
                && final(self).ready && final(self).resize_at == old(self).resize_at,
    {
        if !self.ready {
            self.ready = true;
            return ChromeStep::FirstApply;
        }
        let settled = match self.resize_at {
            Some(at) => now >= at && now - at >= CHROME_SETTLE_MS,
            None => false,
        };
        if settled {
            self.resize_at = None;
            ChromeStep::Settled
        } else {
            ChromeStep::Steady
        }
    }

    /// The window was resized at `now`.
    pub fn notify_window_resize(&mut self, now: u64)
        ensures
            final(self).resize_at == Some(now),
            final(self).ready == old(self).ready,
    {
        self.resize_at = Some(now);
    }
}

} // verus!
