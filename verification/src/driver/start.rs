//! Around the main loop: warnings, paths, the log, the clipboard and the
//! editor.

use vstd::prelude::*;

use crate::config::{is_loopback, loopback};
use crate::model::yank::YankBackend;
use crate::text::{cat3, opt_str, opt_text};

verus! {

/// A warning where the server is not on this machine.
pub fn server_warning(url: &str) -> (r: Option<String>)
    ensures
        opt_text(r) == if loopback(url@) {
            None
        } else {
            Some(
                "警告: 目标地址 "@ + url@
                    + " 不是 loopback，认证 cookie 将发送到非本机地址，请确认这是你信任的服务器。"@,
            )
        },
{
    if is_loopback(url) {
        None
    } else {
        Some(
            cat3(
                "警告: 目标地址 ",
                url,
                " 不是 loopback，认证 cookie 将发送到非本机地址，请确认这是你信任的服务器。",
            ),
        )
    }
}

/// A warning where the agent server is not on this machine.
pub fn monitor_warning(addr: &str) -> (r: Option<String>)
    ensures
        opt_text(r) == if loopback(addr@) {
            None
        } else {
            Some(
                "警告: agent-server 地址 "@ + addr@
                    + " 不是 loopback（默认仅连本机回环）。"@,
            )
        },
{
    if is_loopback(addr) {
        None
    } else {
        Some(
            cat3(
                "警告: agent-server 地址 ",
                addr,
                " 不是 loopback（默认仅连本机回环）。",
            ),
        )
    }
}

/// How large the log grows before it is put aside.
pub const LOG_ROTATE_BYTES: u64 = 5_242_880;

/// How much was written to the log.
#[derive(Debug, Clone, Copy, PartialEq, Eq, Structural)]
pub struct LogMeter {
    pub written: u64,
}

impl LogMeter {
    /// Whether the log has to be put aside before `len` bytes are written.
    pub fn is_full_for(&self, len: u64) -> (r: bool)
        ensures
            r == (self.written + len > LOG_ROTATE_BYTES),
    {
        self.written > LOG_ROTATE_BYTES || len > LOG_ROTATE_BYTES - self.written
    }

    /// The log begins anew.
    pub fn restart(&mut self)
        ensures
            final(self).written == 0,
    {
        self.written = 0;
    }

    /// `len` bytes were written.
    pub fn add(&mut self, len: u64)
        requires
            old(self).written + len <= u64::MAX,
        ensures
            final(self).written == old(self).written + len,
    {
        self.written = self.written + len;
    }
}

/// A log that is put aside when it is full never grows over its limit, as long
/// as no single entry does.
pub proof fn law_log_stays_small(m: LogMeter, len: u64)
    requires
        len <= LOG_ROTATE_BYTES,
    ensures
        ({
            let before = if m.written + len > LOG_ROTATE_BYTES {
                0int
            } else {
                m.written as int
            };
            before + len <= LOG_ROTATE_BYTES
        }),
{
}

/// Ways to hand text to a clipboard.
#[derive(Debug, Clone, Copy, PartialEq, Eq, Structural)]
pub enum ClipboardTry {
    System,
    Osc52,
    Tmux,
}

/// What comes next.
#[derive(Debug, Clone, Copy, PartialEq, Eq, Structural)]
pub enum ClipboardStep {
    Try(ClipboardTry),
    Done { backend: YankBackend, ok: bool },
}

/// Where text went that was handed over in a way.
pub open spec fn backend_of(t: ClipboardTry) -> YankBackend {
    match t {
        ClipboardTry::System => YankBackend::System,
        ClipboardTry::Osc52 => YankBackend::Osc52,
        ClipboardTry::Tmux => YankBackend::Tmux,
    }
}

/// The way that comes after one that failed.
pub open spec fn fallback(t: ClipboardTry) -> Option<ClipboardTry> {
    match t {
        ClipboardTry::System => Some(ClipboardTry::Osc52),
        ClipboardTry::Osc52 => Some(ClipboardTry::Tmux),
        ClipboardTry::Tmux => None,
    }
}

/// The way that is tried first: the system's clipboard.
pub fn clipboard_start() -> (r: ClipboardTry)
    ensures
        r == ClipboardTry::System,
{
    ClipboardTry::System
}

/// What comes after a way was tried.
pub fn clipboard_next(tried: ClipboardTry, worked: bool) -> (r: ClipboardStep)
    ensures
        r == if worked {
            ClipboardStep::Done { backend: backend_of(tried), ok: true }
        } else {
            match fallback(tried) {
                Some(t) => ClipboardStep::Try(t),
                None => ClipboardStep::Done { backend: YankBackend::Unavailable, ok: false },
            }
        },
        r is Done ==> (r->ok <==> r->backend != YankBackend::Unavailable),
{
    if worked {
        let backend = match tried {
            ClipboardTry::System => YankBackend::System,
            ClipboardTry::Osc52 => YankBackend::Osc52,
            ClipboardTry::Tmux => YankBackend::Tmux,
        };
        return ClipboardStep::Done { backend, ok: true };
    }
    match tried {
        ClipboardTry::System => ClipboardStep::Try(ClipboardTry::Osc52),
        ClipboardTry::Osc52 => ClipboardStep::Try(ClipboardTry::Tmux),
        ClipboardTry::Tmux => ClipboardStep::Done {
            backend: YankBackend::Unavailable,
            ok: false,
        },
    }
}

/// What happens to drafts at the start.
#[derive(Debug, Clone, Copy, PartialEq, Eq, Structural)]
pub enum DraftStart {
    /// They are not kept, or there are none.
    Leave,
    Clear,
    Load,
}

/// What happens to drafts at the start.
pub fn draft_start(enabled: bool, clear: bool, file_exists: bool) -> (r: DraftStart)
    ensures
        r == if !enabled {
            DraftStart::Leave
        } else if clear {
            DraftStart::Clear
        } else if file_exists {
            DraftStart::Load
        } else {
            DraftStart::Leave
        },
{
    if !enabled {
        DraftStart::Leave
    } else if clear {
        DraftStart::Clear
    } else if file_exists {
        DraftStart::Load
    } else {
        DraftStart::Leave
    }
}

/// The words for an editor that cannot be started.
pub fn editor_not_started(editor: &str, reason: &str) -> (r: String)
    ensures
        r@ == "无法启动编辑器 "@ + editor@ + ": "@ + reason@,
{
    let mut m = cat3("无法启动编辑器 ", editor, ": ");
    m.append(reason);
    m
}

/// The words for an editor that failed.
pub fn editor_failed(editor: &str, status: &str) -> (r: String)
    ensures
        r@ == "编辑器 "@ + editor@ + " 异常退出（"@ + status@ + "），草稿已保留可重试"@,
{
    let mut m = cat3("编辑器 ", editor, " 异常退出（");
    m.append(status);
    m.append("），草稿已保留可重试");
    m
}

/// Where the log stands: below the home directory, else below `temp`.
pub fn default_log_path(home: Option<&str>, temp: &str) -> (r: String)
    ensures
        r@ == crate::config_file::below(
            match opt_str(home) {
                Some(h) => h,
                None => temp@,
            },
            ".local/state/dshtui/dshtui.log"@,
        ),
{
    match home {
        Some(h) => crate::config_file::join_path(h, ".local/state/dshtui/dshtui.log"),
        None => crate::config_file::join_path(temp, ".local/state/dshtui/dshtui.log"),
    }
}

/// The ways to a clipboard are tried one after the other, each once, and text
/// went where the way that worked leads.
pub proof fn law_every_clipboard_is_tried(t: ClipboardTry)
    ensures
        fallback(ClipboardTry::System) == Some(ClipboardTry::Osc52),
        fallback(ClipboardTry::Osc52) == Some(ClipboardTry::Tmux),
        fallback(ClipboardTry::Tmux) is None,
        backend_of(t) == YankBackend::System <==> t == ClipboardTry::System,
        backend_of(t) == YankBackend::Osc52 <==> t == ClipboardTry::Osc52,
        backend_of(t) == YankBackend::Tmux <==> t == ClipboardTry::Tmux,
{
}

} // verus!
