//! Configuration, its merge with the command line, and command line parsing.
//!
//! The token selector of the command line names an environment variable; the
//! secret itself is never an argument. A token comes from the selected
//! variable, else from the default variable, else from the file.

use vstd::prelude::*;

use crate::text::{
    after_last, after_last_char, ascii_lower, ascii_lowered, before, before_char, cat3, chars_of,
    copy_opt, dec, decimal, find, find_from, is_blank, occurs_at, opt_text, same, slice_of,
    starts_with, trimmed, whitespace,
};
use crate::text_laws::{
    law_blank_texts_are_whitespace, law_lower_case_changes_capitals, law_search_finds_the_first,
    law_text_before_a_character, law_text_behind_a_character,
};

verus! {

/// What the command line asks for.
#[derive(Debug, Clone, Default, PartialEq, Eq)]
pub struct Cli {
    pub url: Option<String>,
    /// Name of the environment variable that holds the token.
    pub token_env: Option<String>,
    pub log_file: Option<String>,
    pub action: CliAction,
}

/// What to do.
#[derive(Debug, Clone, Default, PartialEq, Eq)]
pub enum CliAction {
    #[default]
    Run,
    Help,
    Version,
    /// Watch the agents of an agent server.
    Monitor { addr: Option<String> },
}

/// Mathematical command line.
pub struct CliView {
    pub url: Option<Seq<char>>,
    pub token_env: Option<Seq<char>>,
    pub log_file: Option<Seq<char>>,
    pub action: ActionView,
}

/// Mathematical action.
pub enum ActionView {
    Run,
    Help,
    Version,
    Monitor { addr: Option<Seq<char>> },
}

impl View for CliAction {
    type V = ActionView;

    open spec fn view(&self) -> ActionView {
        match *self {
            CliAction::Run => ActionView::Run,
            CliAction::Help => ActionView::Help,
            CliAction::Version => ActionView::Version,
            CliAction::Monitor { addr } => ActionView::Monitor { addr: opt_text(addr) },
        }
    }
}

impl View for Cli {
    type V = CliView;

    open spec fn view(&self) -> CliView {
        CliView {
            url: opt_text(self.url),
            token_env: opt_text(self.token_env),
            log_file: opt_text(self.log_file),
            action: self.action@,
        }
    }
}

/// Address of the session host and its token.
#[derive(Debug, PartialEq, Eq)]
pub struct ServerConfig {
    pub url: String,
    pub token: String,
}

/// Looks of the terminal interface.
#[derive(Debug, PartialEq, Eq)]
pub struct UiConfig {
    pub theme: String,
    /// Colours by role, in the order of the roles.
    pub palette: Vec<(String, String)>,
    pub sidebar_width_cells: u16,
    /// Width of the detail column, between thirty and sixty cells.
    pub details_width_cells: u16,
    pub show_turn_rail: bool,
    pub show_timeline: bool,
    /// Editor to fall back to.
    pub editor: Option<String>,
    /// Most images in one message.
    pub max_image_count: usize,
    /// Most bytes in one image.
    pub max_image_bytes: u64,
    pub tick_ms: u64,
}

/// Sizes of windows, pages and caches.
#[derive(Debug, Clone, Copy, PartialEq, Eq, Structural)]
pub struct PerfConfig {
    pub window_messages: usize,
    pub page_size: usize,
    pub cache_bytes: u64,
    pub rss_target_mb: u64,
}

/// Key overrides: for each mode the keys of commands, in the order of the
/// names. Unknown names are kept; they give a warning when keys are bound.
#[derive(Debug, Default, PartialEq, Eq)]
pub struct KeymapConfig {
    /// For each mode its commands and their keys: one key, two keys with a space
    /// between them, or `none` to free the key that the command has.
    pub modes: Vec<(String, Vec<(String, String)>)>,
}

/// Whether drafts are kept on disk, and whether they are cleared on start.
#[derive(Debug, Clone, Copy, PartialEq, Eq, Structural)]
pub struct DraftsConfig {
    pub enabled: bool,
    pub clear: bool,
}

/// Where exports go; an empty directory asks the user.
#[derive(Debug, Default, PartialEq, Eq)]
pub struct ExportConfig {
    pub default_dir: String,
}

/// Address of the agent server and how often it is asked.
#[derive(Debug, PartialEq, Eq)]
pub struct MonitorConfig {
    pub addr: String,
    pub poll_agents_ms: u64,
    pub poll_kb_ms: u64,
}

/// Everything that the configuration file holds.
#[derive(Debug, PartialEq, Eq)]
pub struct Config {
    pub server: ServerConfig,
    pub ui: UiConfig,
    pub perf: PerfConfig,
    pub keymap: KeymapConfig,
    pub monitor: MonitorConfig,
    pub drafts: DraftsConfig,
    pub export: ExportConfig,
}

/// The configuration in force: the file with the command line over it.
#[derive(Debug, PartialEq, Eq)]
pub struct Effective {
    pub url: String,
    pub token: Option<String>,
    pub ui: UiConfig,
    pub perf: PerfConfig,
    pub monitor: MonitorConfig,
    pub drafts: DraftsConfig,
    pub export: ExportConfig,
    /// Key overrides; none means the built-in keys.
    pub keymap: KeymapConfig,
}

/// Why a configuration cannot be used.
#[derive(Debug, Clone, PartialEq, Eq)]
pub enum ConfigError {
    Io { path: String, message: String },
    Toml { path: String, message: String },
    InvalidValue { path: String, message: String },
    /// The selected environment variable is not set or empty.
    TokenEnvMissing { name: String },
}

/// Mathematical looks.
pub struct UiView {
    pub theme: Seq<char>,
    pub palette: Seq<(Seq<char>, Seq<char>)>,
    pub sidebar_width_cells: u16,
    pub details_width_cells: u16,
    pub show_turn_rail: bool,
    pub show_timeline: bool,
    pub editor: Option<Seq<char>>,
    pub max_image_count: usize,
    pub max_image_bytes: u64,
    pub tick_ms: u64,
}

/// The views of pairs of texts.
pub open spec fn pair_views(pairs: Seq<(String, String)>) -> Seq<(Seq<char>, Seq<char>)> {
    pairs.map_values(|p: (String, String)| (p.0@, p.1@))
}

impl View for UiConfig {
    type V = UiView;

    open spec fn view(&self) -> UiView {
        UiView {
            theme: self.theme@,
            palette: pair_views(self.palette@),
            sidebar_width_cells: self.sidebar_width_cells,
            details_width_cells: self.details_width_cells,
            show_turn_rail: self.show_turn_rail,
            show_timeline: self.show_timeline,
            editor: opt_text(self.editor),
            max_image_count: self.max_image_count,
            max_image_bytes: self.max_image_bytes,
            tick_ms: self.tick_ms,
        }
    }
}

/// The bindings of one mode.
pub type ModeBinds = (Seq<char>, Seq<(Seq<char>, Seq<char>)>);

impl View for KeymapConfig {
    type V = Seq<ModeBinds>;

    open spec fn view(&self) -> Seq<ModeBinds> {
        self.modes@.map_values(
            |m: (String, Vec<(String, String)>)| (m.0@, pair_views(m.1@)),
        )
    }
}

/// Mathematical agent server settings.
pub struct MonitorView {
    pub addr: Seq<char>,
    pub poll_agents_ms: u64,
    pub poll_kb_ms: u64,
}

impl View for MonitorConfig {
    type V = MonitorView;

    open spec fn view(&self) -> MonitorView {
        MonitorView {
            addr: self.addr@,
            poll_agents_ms: self.poll_agents_ms,
            poll_kb_ms: self.poll_kb_ms,
        }
    }
}

/// Mathematical configuration.
pub struct ConfigView {
    pub url: Seq<char>,
    pub token: Seq<char>,
    pub ui: UiView,
    pub perf: PerfConfig,
    pub keymap: Seq<ModeBinds>,
    pub monitor: MonitorView,
    pub drafts: DraftsConfig,
    pub export_dir: Seq<char>,
}

impl View for Config {
    type V = ConfigView;

    open spec fn view(&self) -> ConfigView {
        ConfigView {
            url: self.server.url@,
            token: self.server.token@,
            ui: self.ui@,
            perf: self.perf,
            keymap: self.keymap@,
            monitor: self.monitor@,
            drafts: self.drafts,
            export_dir: self.export.default_dir@,
        }
    }
}

/// Mathematical configuration in force.
pub struct EffectiveView {
    pub url: Seq<char>,
    pub token: Option<Seq<char>>,
    pub ui: UiView,
    pub perf: PerfConfig,
    pub monitor: MonitorView,
    pub drafts: DraftsConfig,
    pub export_dir: Seq<char>,
    pub keymap: Seq<ModeBinds>,
}

impl View for Effective {
    type V = EffectiveView;

    open spec fn view(&self) -> EffectiveView {
        EffectiveView {
            url: self.url@,
            token: opt_text(self.token),
            ui: self.ui@,
            perf: self.perf,
            monitor: self.monitor@,
            drafts: self.drafts,
            export_dir: self.export.default_dir@,
            keymap: self.keymap@,
        }
    }
}

pub const DEFAULT_URL: &'static str = "http://127.0.0.1:3080";

pub const DEFAULT_TOKEN_ENV: &'static str = "DSH_TOKEN";

pub const DEFAULT_MONITOR_ADDR: &'static str = "http://127.0.0.1:8799";

/// Bytes that cached images may take.
pub const DEFAULT_CACHE_BYTES: u64 = 33_554_432;

/// Narrowest and widest detail column.
pub const DETAILS_WIDTH_CELLS_MIN: u16 = 30;

pub const DETAILS_WIDTH_CELLS_MAX: u16 = 60;

/// A copy of pairs of texts.
fn copy_pairs(pairs: &Vec<(String, String)>) -> (r: Vec<(String, String)>)
    ensures
        pair_views(r@) == pair_views(pairs@),
{
    let mut out: Vec<(String, String)> = Vec::new();
    let mut i: usize = 0;
    while i < pairs.len()
        invariant
            i <= pairs@.len(),
            out@.len() == i,
            forall|k: int| 0 <= k < i ==> (#[trigger] out@[k]) == pairs@[k],
        decreases pairs@.len() - i,
    {
        let pair = &pairs[i];
        out.push((pair.0.clone(), pair.1.clone()));
        i = i + 1;
    }
    assert(out@ =~= pairs@);
    out
}

impl Clone for UiConfig {
    fn clone(&self) -> (r: Self)
        ensures
            r@ == self@,
    {
        UiConfig {
            theme: self.theme.clone(),
            palette: copy_pairs(&self.palette),
            sidebar_width_cells: self.sidebar_width_cells,
            details_width_cells: self.details_width_cells,
            show_turn_rail: self.show_turn_rail,
            show_timeline: self.show_timeline,
            editor: copy_opt(&self.editor),
            max_image_count: self.max_image_count,
            max_image_bytes: self.max_image_bytes,
            tick_ms: self.tick_ms,
        }
    }
}

impl Clone for KeymapConfig {
    fn clone(&self) -> (r: Self)
        ensures
            r@ == self@,
    {
        let mut modes: Vec<(String, Vec<(String, String)>)> = Vec::new();
        let mut i: usize = 0;
        while i < self.modes.len()
            invariant
                i <= self.modes@.len(),
                modes@.len() == i,
                forall|k: int| 0 <= k < i ==> (#[trigger] modes@[k]).0@ == self.modes@[k].0@,
                forall|k: int|
                    0 <= k < i ==> pair_views((#[trigger] modes@[k]).1@) == pair_views(
                        self.modes@[k].1@,
                    ),
            decreases self.modes@.len() - i,
        {
            let mode = &self.modes[i];
            modes.push((mode.0.clone(), copy_pairs(&mode.1)));
            i = i + 1;
        }
        let r = KeymapConfig { modes };
        assert(r@ =~= self@);
        r
    }
}

impl Clone for MonitorConfig {
    fn clone(&self) -> (r: Self)
        ensures
            r@ == self@,
    {
        MonitorConfig {
            addr: self.addr.clone(),
            poll_agents_ms: self.poll_agents_ms,
            poll_kb_ms: self.poll_kb_ms,
        }
    }
}

impl Clone for ExportConfig {
    fn clone(&self) -> (r: Self)
        ensures
            r.default_dir@ == self.default_dir@,
    {
        ExportConfig { default_dir: self.default_dir.clone() }
    }
}

impl Default for ServerConfig {
    fn default() -> (r: Self)
        ensures
            r.url@ == DEFAULT_URL@,
            r.token@.len() == 0,
    {
        ServerConfig { url: DEFAULT_URL.to_owned(), token: String::new() }
    }
}

/// The built-in looks.
pub open spec fn default_ui() -> UiView {
    UiView {
        theme: "dark"@,
        palette: Seq::empty(),
        sidebar_width_cells: 32,
        details_width_cells: 45,
        show_turn_rail: false,
        show_timeline: false,
        editor: None,
        max_image_count: 10,
        max_image_bytes: 20_971_520,
        tick_ms: 33,
    }
}

impl Default for UiConfig {
    fn default() -> (r: Self)
        ensures
            r@ == default_ui(),
    {
        let r = UiConfig {
            theme: "dark".to_owned(),
            palette: Vec::new(),
            sidebar_width_cells: 32,
            details_width_cells: 45,
            show_turn_rail: false,
            show_timeline: false,
            editor: None,
            max_image_count: 10,
            max_image_bytes: 20_971_520,
            tick_ms: 33,
        };
        assert(r@.palette =~= Seq::<(Seq<char>, Seq<char>)>::empty());
        r
    }
}

/// The built-in sizes.
pub open spec fn default_perf() -> PerfConfig {
    PerfConfig {
        window_messages: 200,
        page_size: 50,
        cache_bytes: DEFAULT_CACHE_BYTES,
        rss_target_mb: 80,
    }
}

impl Default for PerfConfig {
    fn default() -> (r: Self)
        ensures
            r == default_perf(),
    {
        PerfConfig {
            window_messages: 200,
            page_size: 50,
            cache_bytes: DEFAULT_CACHE_BYTES,
            rss_target_mb: 80,
        }
    }
}

impl Default for DraftsConfig {
    fn default() -> (r: Self)
        ensures
            r == (DraftsConfig { enabled: true, clear: false }),
    {
        DraftsConfig { enabled: true, clear: false }
    }
}

impl Default for MonitorConfig {
    fn default() -> (r: Self)
        ensures
            r@ == (MonitorView {
                addr: DEFAULT_MONITOR_ADDR@,
                poll_agents_ms: 2000,
                poll_kb_ms: 30000,
            }),
    {
        MonitorConfig {
            addr: DEFAULT_MONITOR_ADDR.to_owned(),
            poll_agents_ms: 2000,
            poll_kb_ms: 30000,
        }
    }
}

/// The built-in configuration.
pub open spec fn default_config() -> ConfigView {
    ConfigView {
        url: DEFAULT_URL@,
        token: Seq::empty(),
        ui: default_ui(),
        perf: default_perf(),
        keymap: Seq::empty(),
        monitor: MonitorView {
            addr: DEFAULT_MONITOR_ADDR@,
            poll_agents_ms: 2000,
            poll_kb_ms: 30000,
        },
        drafts: DraftsConfig { enabled: true, clear: false },
        export_dir: Seq::empty(),
    }
}

impl Default for Config {
    fn default() -> (r: Self)
        ensures
            r@ == default_config(),
    {
        let r = Config {
            server: ServerConfig::default(),
            ui: UiConfig::default(),
            perf: PerfConfig::default(),
            keymap: KeymapConfig { modes: Vec::new() },
            monitor: MonitorConfig::default(),
            drafts: DraftsConfig::default(),
            export: ExportConfig { default_dir: String::new() },
        };
        assert(r@.keymap =~= Seq::<ModeBinds>::empty());
        assert(r@.token =~= Seq::<char>::empty());
        r
    }
}

/// `n` brought into the range of detail column widths.
pub open spec fn clamped_width(n: u16) -> u16 {
    if n < DETAILS_WIDTH_CELLS_MIN {
        DETAILS_WIDTH_CELLS_MIN
    } else if n > DETAILS_WIDTH_CELLS_MAX {
        DETAILS_WIDTH_CELLS_MAX
    } else {
        n
    }
}

/// What is wrong with a configuration.
pub open spec fn config_fault(c: ConfigView) -> Option<Seq<char>> {
    if c.perf.window_messages == 0 {
        Some("perf.window_messages 必须 > 0"@)
    } else if c.perf.page_size == 0 {
        Some("perf.page_size 必须 > 0"@)
    } else if c.monitor.poll_agents_ms == 0 || c.monitor.poll_kb_ms == 0 {
        Some("monitor.poll_agents_ms / monitor.poll_kb_ms 必须 > 0"@)
    } else {
        None
    }
}

/// The token: that of the selected variable, which must be set; else that of
/// the default variable; else that of the file.
pub open spec fn token_of(
    selector: Option<Seq<char>>,
    selected: Option<Seq<char>>,
    default_env: Option<Seq<char>>,
    file_token: Seq<char>,
) -> Option<Seq<char>> {
    if selector is Some {
        selected
    } else if default_env is Some && default_env->0.len() > 0 {
        default_env
    } else if file_token.len() > 0 {
        Some(file_token)
    } else {
        None
    }
}

/// Whether a variable has a value.
pub open spec fn has_value(v: Option<Seq<char>>) -> bool {
    v is Some && v->0.len() > 0
}

/// The configuration in force.
pub open spec fn resolved(
    c: ConfigView,
    cli: CliView,
    selected: Option<Seq<char>>,
    default_env: Option<Seq<char>>,
) -> EffectiveView {
    EffectiveView {
        url: match cli.url {
            Some(u) => u,
            None => if trimmed(c.url).len() == 0 {
                DEFAULT_URL@
            } else {
                c.url
            },
        },
        token: token_of(cli.token_env, selected, default_env, c.token),
        ui: c.ui,
        perf: c.perf,
        monitor: MonitorView {
            addr: match cli.action {
                ActionView::Monitor { addr: Some(a) } => a,
                _ => c.monitor.addr,
            },
            ..c.monitor
        },
        drafts: c.drafts,
        export_dir: c.export_dir,
        keymap: c.keymap,
    }
}

impl Config {
    /// The configuration with its detail column in range, where its numbers
    /// make sense.
    pub fn validate(self) -> (r: Result<Config, ConfigError>)
        ensures
            match r {
                Ok(c) => {
                    &&& config_fault(self@) is None
                    &&& c@ == (ConfigView {
                        ui: UiView {
                            details_width_cells: clamped_width(self@.ui.details_width_cells),
                            ..self@.ui
                        },
                        ..self@
                    })
                },
                Err(ConfigError::InvalidValue { path, message }) => {
                    path@.len() == 0 && config_fault(self@) == Some(message@)
                },
                Err(_) => false,
            },
    {
        if self.perf.window_messages == 0 {
            return Err(
                ConfigError::InvalidValue {
                    path: String::new(),
                    message: "perf.window_messages 必须 > 0".to_owned(),
                },
            );
        }
        if self.perf.page_size == 0 {
            return Err(
                ConfigError::InvalidValue {
                    path: String::new(),
                    message: "perf.page_size 必须 > 0".to_owned(),
                },
            );
        }
        if self.monitor.poll_agents_ms == 0 || self.monitor.poll_kb_ms == 0 {
            return Err(
                ConfigError::InvalidValue {
                    path: String::new(),
                    message: "monitor.poll_agents_ms / monitor.poll_kb_ms 必须 > 0".to_owned(),
                },
            );
        }
        let mut out = self;
        if out.ui.details_width_cells < DETAILS_WIDTH_CELLS_MIN {
            out.ui.details_width_cells = DETAILS_WIDTH_CELLS_MIN;
        } else if out.ui.details_width_cells > DETAILS_WIDTH_CELLS_MAX {
            out.ui.details_width_cells = DETAILS_WIDTH_CELLS_MAX;
        }
        Ok(out)
    }

    /// Merges the command line over the file. `selected` is the value of the
    /// environment variable that the command line names, `default_env` that of
    /// the default variable.
    pub fn resolve(
        &self,
        cli: &Cli,
        selected: Option<String>,
        default_env: Option<String>,
    ) -> (r: Result<Effective, ConfigError>)
        ensures
            match r {
                Ok(e) => {
                    &&& cli@.token_env is None || has_value(opt_text(selected))
                    &&& e@ == resolved(self@, cli@, opt_text(selected), opt_text(default_env))
                },
                Err(ConfigError::TokenEnvMissing { name }) => {
                    cli@.token_env == Some(name@) && !has_value(opt_text(selected))
                },
                Err(_) => false,
            },
    {
        let url = match &cli.url {
            Some(u) => u.clone(),
            None => if is_blank(self.server.url.as_str()) {
                DEFAULT_URL.to_owned()
            } else {
                self.server.url.clone()
            },
        };
        let token = match &cli.token_env {
            Some(name) => match selected {
                Some(v) => {
                    if v.as_str().is_empty() {
                        return Err(ConfigError::TokenEnvMissing { name: name.clone() });
                    }
                    Some(v)
                },
                None => {
                    return Err(ConfigError::TokenEnvMissing { name: name.clone() });
                },
            },
            None => {
                let from_env = match default_env {
                    Some(v) => if v.as_str().is_empty() {
                        None
                    } else {
                        Some(v)
                    },
                    None => None,
                };
                match from_env {
                    Some(v) => Some(v),
                    None => if self.server.token.as_str().is_empty() {
                        None
                    } else {
                        Some(self.server.token.clone())
                    },
                }
            },
        };
        let mut monitor = self.monitor.clone();
        if let CliAction::Monitor { addr: Some(addr) } = &cli.action {
            monitor.addr = addr.clone();
        }
        Ok(
            Effective {
                url,
                token,
                ui: self.ui.clone(),
                perf: self.perf,
                monitor,
                drafts: self.drafts,
                export: self.export.clone(),
                keymap: self.keymap.clone(),
            },
        )
    }
}

/// Whether a character may stand in the name of a token variable.
pub open spec fn name_char(c: char) -> bool {
    ('A' <= c <= 'Z') || ('0' <= c <= '9') || c == '_'
}

/// Whether a text can be no name of a variable and may be a secret: longer than
/// sixty-four characters, or with a character that such a name has not.
pub open spec fn secret_like(v: Seq<char>) -> bool {
    v.len() > 64 || exists|i: int| 0 <= i < v.len() && !name_char(#[trigger] v[i])
}

/// Whether a text may be a secret.
fn looks_like_secret(v: &str) -> (r: bool)
    ensures
        r == secret_like(v@),
{
    let cs = chars_of(v);
    if cs.len() > 64 {
        return true;
    }
    let mut i: usize = 0;
    while i < cs.len()
        invariant
            i <= cs@.len(),
            cs@ == v@,
            forall|k: int| 0 <= k < i ==> name_char(#[trigger] v@[k]),
        decreases cs@.len() - i,
    {
        let c = cs[i];
        let ok = ('A' <= c && c <= 'Z') || ('0' <= c && c <= '9') || c == '_';
        if !ok {
            assert(!name_char(v@[i as int]));
            return true;
        }
        i = i + 1;
    }
    false
}

/// The complaint about an argument that nobody knows.
pub open spec fn unknown_argument(a: Seq<char>) -> Seq<char> {
    "未知参数: "@ + a + "（--help 查看用法）"@
}

/// What the arguments of a plain run make of `cli`.
pub open spec fn run_args(args: Seq<Seq<char>>, cli: CliView) -> Result<CliView, Seq<char>>
    decreases args.len(),
{
    if args.len() == 0 {
        Ok(cli)
    } else {
        let a = args[0];
        if a == "--help"@ || a == "-h"@ {
            run_args(args.skip(1), CliView { action: ActionView::Help, ..cli })
        } else if a == "--version"@ || a == "-V"@ {
            run_args(args.skip(1), CliView { action: ActionView::Version, ..cli })
        } else if a == "--url"@ {
            if args.len() < 2 {
                Err("--url 需要一个 URL 参数"@)
            } else {
                run_args(args.skip(2), CliView { url: Some(args[1]), ..cli })
            }
        } else if a == "--token"@ {
            if args.len() < 2 {
                Err("--token 需要一个环境变量名参数"@)
            } else if secret_like(args[1]) {
                Err(
                    "--token 是环境变量名选择器（如 DSH_TOKEN），不接受 secret 本身："@
                        + args[1],
                )
            } else {
                run_args(args.skip(2), CliView { token_env: Some(args[1]), ..cli })
            }
        } else if a == "--log"@ {
            if args.len() < 2 {
                Err("--log 需要一个文件路径参数"@)
            } else {
                run_args(args.skip(2), CliView { log_file: Some(args[1]), ..cli })
            }
        } else {
            Err(unknown_argument(a))
        }
    }
}

/// What the arguments of `monitor` make of `cli`; `addr` is the address so far.
pub open spec fn monitor_args(
    args: Seq<Seq<char>>,
    cli: CliView,
    addr: Option<Seq<char>>,
) -> Result<CliView, Seq<char>>
    decreases args.len(),
{
    if args.len() == 0 {
        if cli.action is Help || cli.action is Version {
            Ok(cli)
        } else {
            Ok(CliView { action: ActionView::Monitor { addr }, ..cli })
        }
    } else {
        let a = args[0];
        if a == "--help"@ || a == "-h"@ {
            monitor_args(args.skip(1), CliView { action: ActionView::Help, ..cli }, addr)
        } else if a == "--version"@ || a == "-V"@ {
            monitor_args(args.skip(1), CliView { action: ActionView::Version, ..cli }, addr)
        } else if a == "--addr"@ {
            if args.len() < 2 {
                Err("--addr 需要一个地址参数"@)
            } else {
                monitor_args(args.skip(2), cli, Some(args[1]))
            }
        } else if a == "--log"@ {
            if args.len() < 2 {
                Err("--log 需要一个文件路径参数"@)
            } else {
                monitor_args(args.skip(2), CliView { log_file: Some(args[1]), ..cli }, addr)
            }
        } else {
            Err(unknown_argument(a))
        }
    }
}

/// The command line with nothing on it.
pub open spec fn empty_cli() -> CliView {
    CliView { url: None, token_env: None, log_file: None, action: ActionView::Run }
}

/// The arguments without the name of the program: a first argument that does
/// not start with a dash.
pub open spec fn without_program(args: Seq<Seq<char>>) -> Seq<Seq<char>> {
    if args.len() > 0 && !(args[0].len() > 0 && args[0][0] == '-') {
        args.skip(1)
    } else {
        args
    }
}

/// What a command line asks for, or what is wrong with it.
pub open spec fn cli_of(args: Seq<Seq<char>>) -> Result<CliView, Seq<char>> {
    let rest = without_program(args);
    if rest.len() > 0 && rest[0] == "monitor"@ {
        monitor_args(rest.skip(1), empty_cli(), None)
    } else {
        run_args(rest, empty_cli())
    }
}

/// The view of the outcome of parsing.
pub open spec fn cli_result(r: Result<Cli, String>) -> Result<CliView, Seq<char>> {
    match r {
        Ok(c) => Ok(c@),
        Err(m) => Err(m@),
    }
}

fn unknown_arg(a: &str) -> (r: String)
    ensures
        r@ == unknown_argument(a@),
{
    cat3("未知参数: ", a, "（--help 查看用法）")
}

/// Parses the arguments of `monitor` from index `start`.
fn parse_monitor(args: &Vec<String>, start: usize) -> (r: Result<Cli, String>)
    requires
        start <= args@.len(),
    ensures
        cli_result(r) == monitor_args(
            crate::text::texts(args@).skip(start as int),
            empty_cli(),
            None,
        ),
{
    let ghost views = crate::text::texts(args@);
    let mut cli = Cli { url: None, token_env: None, log_file: None, action: CliAction::Run };
    let mut addr: Option<String> = None;
    let mut i: usize = start;
    while i < args.len()
        invariant
            i <= args@.len(),
            views == crate::text::texts(args@),
            monitor_args(views.skip(i as int), cli@, opt_text(addr)) == monitor_args(
                views.skip(start as int),
                empty_cli(),
                None,
            ),
        decreases args@.len() - i,
    {
        let arg = args[i].as_str();
        proof {
            let rest = views.skip(i as int);
            assert(rest[0] == arg@);
            assert(rest.skip(1) =~= views.skip(i + 1));
            assert(rest.len() >= 2 ==> rest.skip(2) =~= views.skip(i + 2));
            assert(rest.len() >= 2 ==> rest[1] == views[i + 1]);
        }
        if same(arg, "--help") || same(arg, "-h") {
            cli.action = CliAction::Help;
            i = i + 1;
        } else if same(arg, "--version") || same(arg, "-V") {
            cli.action = CliAction::Version;
            i = i + 1;
        } else if same(arg, "--addr") {
            if args.len() - i < 2 {
                return Err("--addr 需要一个地址参数".to_owned());
            }
            addr = Some(args[i + 1].clone());
            i = i + 2;
        } else if same(arg, "--log") {
            if args.len() - i < 2 {
                return Err("--log 需要一个文件路径参数".to_owned());
            }
            cli.log_file = Some(args[i + 1].clone());
            i = i + 2;
        } else {
            return Err(unknown_arg(arg));
        }
    }
    match cli.action {
        CliAction::Help | CliAction::Version => Ok(cli),
        _ => {
            cli.action = CliAction::Monitor { addr };
            Ok(cli)
        },
    }
}

/// Parses the arguments of a plain run from index `start`.
fn parse_run(args: &Vec<String>, start: usize) -> (r: Result<Cli, String>)
    requires
        start <= args@.len(),
    ensures
        cli_result(r) == run_args(crate::text::texts(args@).skip(start as int), empty_cli()),
{
    let ghost views = crate::text::texts(args@);
    let mut cli = Cli { url: None, token_env: None, log_file: None, action: CliAction::Run };
    let mut i: usize = start;
    while i < args.len()
        invariant
            i <= args@.len(),
            views == crate::text::texts(args@),
            run_args(views.skip(i as int), cli@) == run_args(
                views.skip(start as int),
                empty_cli(),
            ),
        decreases args@.len() - i,
    {
        let arg = args[i].as_str();
        proof {
            let rest = views.skip(i as int);
            assert(rest[0] == arg@);
            assert(rest.skip(1) =~= views.skip(i + 1));
            assert(rest.len() >= 2 ==> rest.skip(2) =~= views.skip(i + 2));
            assert(rest.len() >= 2 ==> rest[1] == views[i + 1]);
        }
        if same(arg, "--help") || same(arg, "-h") {
            cli.action = CliAction::Help;
            i = i + 1;
        } else if same(arg, "--version") || same(arg, "-V") {
            cli.action = CliAction::Version;
            i = i + 1;
        } else if same(arg, "--url") {
            if args.len() - i < 2 {
                return Err("--url 需要一个 URL 参数".to_owned());
            }
            cli.url = Some(args[i + 1].clone());
            i = i + 2;
        } else if same(arg, "--token") {
            if args.len() - i < 2 {
                return Err("--token 需要一个环境变量名参数".to_owned());
            }
            let name = &args[i + 1];
            if looks_like_secret(name.as_str()) {
                return Err(
                    crate::text::cat(
                        "--token 是环境变量名选择器（如 DSH_TOKEN），不接受 secret 本身：",
                        name.as_str(),
                    ),
                );
            }
            cli.token_env = Some(name.clone());
            i = i + 2;
        } else if same(arg, "--log") {
            if args.len() - i < 2 {
                return Err("--log 需要一个文件路径参数".to_owned());
            }
            cli.log_file = Some(args[i + 1].clone());
            i = i + 2;
        } else {
            return Err(unknown_arg(arg));
        }
    }
    Ok(cli)
}

/// Parses a command line. A first argument without a dash is the name of the
/// program; `monitor` behind it selects the monitor.
pub fn parse_cli(args: Vec<String>) -> (r: Result<Cli, String>)
    ensures
        cli_result(r) == cli_of(crate::text::texts(args@)),
{
    let ghost views = crate::text::texts(args@);
    let mut start: usize = 0;
    proof {
        reveal_strlit("-");
        assert(views.skip(0) =~= views);
    }
    if args.len() > 0 {
        assert(views[0] == args@[0]@);
        let dashed = starts_with(args[0].as_str(), "-");
        assert(dashed == (views[0].len() > 0 && views[0][0] == '-')) by {
            if views[0].len() > 0 {
                assert(views[0].subrange(0, 1) =~= seq![views[0][0]]);
                assert("-"@ =~= seq!['-']);
                assert(seq![views[0][0]][0] == views[0][0]);
                assert(seq!['-'][0] == '-');
            }
        }
        if !dashed {
            start = 1;
        }
    }
    assert(without_program(views) == views.skip(start as int));
    if start < args.len() && same(args[start].as_str(), "monitor") {
        assert(views.skip(start as int).skip(1) =~= views.skip(start + 1));
        parse_monitor(&args, start + 1)
    } else {
        parse_run(&args, start)
    }
}

/// The host in a URL: what stands between the first `://` and the next one (the
/// whole where there is none), up to the first slash, behind the last `@`; of a
/// bracketed host what the brackets hold, else what stands before the colon.
pub open spec fn host_in(url: Seq<char>) -> Seq<char> {
    let rest = match find_from(url, "://"@, 0) {
        Some(i) => match find_from(url, "://"@, i + 3) {
            Some(j) => url.subrange(i + 3, j),
            None => url.skip(i + 3),
        },
        None => url,
    };
    let hostport = after_last_char(before_char(rest, '/'), '@');
    if hostport.len() > 0 && hostport[0] == '[' {
        before_char(hostport.skip(1), ']')
    } else {
        before_char(hostport, ':')
    }
}

/// Whether a URL points at this machine.
pub open spec fn loopback(url: Seq<char>) -> bool {
    let host = ascii_lowered(host_in(url));
    host == "127.0.0.1"@ || host == "localhost"@ || host == "::1"@
}

/// The host in a URL.
fn host_of(url: &str) -> (r: Vec<char>)
    ensures
        r@ == host_in(url@),
{
    let u = chars_of(url);
    let mark = chars_of("://");
    proof {
        reveal_strlit("://");
        assert(mark@.len() == 3);
    }
    let rest: Vec<char> = match find(&u, &mark, 0) {
        Some(i) => match find(&u, &mark, i + 3) {
            Some(j) => slice_of(&u, i + 3, j),
            None => slice_of(&u, i + 3, u.len()),
        },
        None => u,
    };
    let authority = before(&rest, '/');
    let hostport = after_last(&authority, '@');
    if hostport.len() > 0 && hostport[0] == '[' {
        let inner = slice_of(&hostport, 1, hostport.len());
        before(&inner, ']')
    } else {
        before(&hostport, ':')
    }
}

/// Whether a URL points at this machine; one that does not needs a warning.
pub fn is_loopback(url: &str) -> (r: bool)
    ensures
        r == loopback(url@),
{
    let host = host_of(url);
    let lowered = ascii_lower(&host);
    let h = lowered.as_str();
    same(h, "127.0.0.1") || same(h, "localhost") || same(h, "::1")
}

/// The summary of a configuration: of a token it says only that there is one.
pub open spec fn summary_of(e: EffectiveView) -> Seq<char> {
    "url="@ + e.url + " token="@ + (if e.token is Some {
        "***"@
    } else {
        "<none>"@
    }) + " window_messages="@ + decimal(e.perf.window_messages as nat) + " page_size="@ + decimal(
        e.perf.page_size as nat,
    ) + " tick_ms="@ + decimal(e.ui.tick_ms as nat)
}

/// The summary of a configuration for logs; the token is never in it.
pub fn redact_summary(eff: &Effective) -> (r: String)
    ensures
        r@ == summary_of(eff@),
{
    let mut out = "url=".to_owned();
    out.append(eff.url.as_str());
    out.append(" token=");
    out.append(
        if eff.token.is_some() {
            "***"
        } else {
            "<none>"
        },
    );
    out.append(" window_messages=");
    let window = dec(eff.perf.window_messages as u64);
    out.append(window.as_str());
    out.append(" page_size=");
    let page = dec(eff.perf.page_size as u64);
    out.append(page.as_str());
    out.append(" tick_ms=");
    let tick = dec(eff.ui.tick_ms);
    out.append(tick.as_str());
    out
}

/// A token never shows: two configurations that differ in nothing but the
/// token they hold have one summary.
pub proof fn law_summary_hides_token(e: EffectiveView, token: Seq<char>)
    requires
        e.token is Some,
    ensures
        summary_of(EffectiveView { token: Some(token), ..e }) == summary_of(e),
{
}

/// No secret is an argument: a command line that parses has a token selector
/// that can be the name of a variable.
pub proof fn law_selector_is_a_name(args: Seq<Seq<char>>, cli: CliView)
    requires
        cli.token_env is Some ==> !secret_like(cli.token_env->0),
        run_args(args, cli) is Ok,
    ensures
        ({
            let out = run_args(args, cli)->Ok_0;
            out.token_env is Some ==> !secret_like(out.token_env->0)
        }),
    decreases args.len(),
{
    if args.len() > 0 {
        let a = args[0];
        if a == "--help"@ || a == "-h"@ {
            law_selector_is_a_name(args.skip(1), CliView { action: ActionView::Help, ..cli });
        } else if a == "--version"@ || a == "-V"@ {
            law_selector_is_a_name(args.skip(1), CliView { action: ActionView::Version, ..cli });
        } else if a == "--url"@ {
            law_selector_is_a_name(args.skip(2), CliView { url: Some(args[1]), ..cli });
        } else if a == "--token"@ {
            law_selector_is_a_name(args.skip(2), CliView { token_env: Some(args[1]), ..cli });
        } else if a == "--log"@ {
            law_selector_is_a_name(args.skip(2), CliView { log_file: Some(args[1]), ..cli });
        }
    }
}

/// The command line goes before the file: the address that it names is used,
/// else that of the file, else the built-in one where the file has none.
/// Everything else is that of the file.
pub proof fn law_command_line_goes_first(
    c: ConfigView,
    cli: CliView,
    selected: Option<Seq<char>>,
    default_env: Option<Seq<char>>,
    k: int,
)
    ensures
        ({
            let e = resolved(c, cli, selected, default_env);
            &&& cli.url is Some ==> e.url == cli.url->0
            &&& cli.url is None && 0 <= k < c.url.len() && !whitespace(c.url[k]) ==> e.url == c.url
            &&& cli.url is None && (forall|i: int| 0 <= i < c.url.len() ==> whitespace(
                #[trigger] c.url[i],
            )) ==> e.url == DEFAULT_URL@
            &&& cli.action is Monitor && cli.action->addr is Some ==> e.monitor.addr
                == cli.action->addr->0
            &&& !(cli.action is Monitor && cli.action->addr is Some) ==> e.monitor.addr
                == c.monitor.addr
            &&& e.monitor.poll_agents_ms == c.monitor.poll_agents_ms
            &&& e.monitor.poll_kb_ms == c.monitor.poll_kb_ms
            &&& e.ui == c.ui && e.perf == c.perf && e.drafts == c.drafts
            &&& e.export_dir == c.export_dir && e.keymap == c.keymap
        }),
{
    law_blank_texts_are_whitespace(c.url);
}

/// The token is that of the variable that was selected; without a selection
/// that of the default variable, unless it is empty; else that of the file,
/// unless it is empty.
pub proof fn law_tokens_have_their_order(
    c: ConfigView,
    cli: CliView,
    selected: Option<Seq<char>>,
    default_env: Option<Seq<char>>,
)
    ensures
        ({
            let t = resolved(c, cli, selected, default_env).token;
            &&& cli.token_env is Some ==> t == selected
            &&& cli.token_env is None && default_env is Some && default_env->0.len() > 0 ==> t
                == default_env
            &&& cli.token_env is None && (default_env is None || default_env->0.len() == 0)
                && c.token.len() > 0 ==> t == Some(c.token)
            &&& cli.token_env is None && (default_env is None || default_env->0.len() == 0)
                && c.token.len() == 0 ==> t is None
        }),
{
}

/// A configuration makes sense exactly where the window, the pages and both
/// polls are not nothing.
pub proof fn law_zero_sizes_are_refused(c: ConfigView)
    ensures
        config_fault(c) is None <==> c.perf.window_messages > 0 && c.perf.page_size > 0
            && c.monitor.poll_agents_ms > 0 && c.monitor.poll_kb_ms > 0,
{
}

/// A width within its limits stays; one beyond them becomes the nearer limit.
pub proof fn law_widths_stay_within_limits(n: u16)
    ensures
        30 <= clamped_width(n) <= 60,
        30 <= n <= 60 ==> clamped_width(n) == n,
        n < 30 ==> clamped_width(n) == 30,
        n > 60 ==> clamped_width(n) == 60,
{
}

/// What may be the name of a variable is no longer than such names are and
/// made of capitals, digits and underscores; anything else may be a secret.
pub proof fn law_names_are_no_secrets(v: Seq<char>, i: int)
    ensures
        secret_like(v) <== v.len() > 64,
        secret_like(v) <== 0 <= i < v.len() && !(('A' <= v[i] <= 'Z') || ('0' <= v[i] <= '9')
            || v[i] == '_'),
        !secret_like(v) <== v.len() <= 64 && forall|k: int|
            0 <= k < v.len() ==> ('A' <= (#[trigger] v[k]) <= 'Z') || ('0' <= v[k] <= '9') || v[k]
                == '_',
{
}

proof fn lemma_option_words()
    ensures
        "--help"@.len() == 6 && "-h"@.len() == 2 && "--version"@.len() == 9 && "-V"@.len() == 2,
        "--url"@.len() == 5 && "--token"@.len() == 7 && "--log"@.len() == 5 && "--addr"@.len()
            == 6,
        "--help"@[2] == 'h' && "--addr"@[2] == 'a' && "--url"@[2] == 'u' && "--log"@[2] == 'l',
        "-h"@[1] == 'h' && "-V"@[1] == 'V',
        "monitor"@.len() == 7 && "monitor"@[0] == 'm' && "--token"@[0] == '-',
{
    reveal_strlit("--help");
    reveal_strlit("-h");
    reveal_strlit("--version");
    reveal_strlit("-V");
    reveal_strlit("--url");
    reveal_strlit("--token");
    reveal_strlit("--log");
    reveal_strlit("--addr");
    reveal_strlit("monitor");
}

/// Each option of a plain run takes the value behind it and leaves the rest to
/// be read; one without its value is refused, and so is a secret in place of a
/// name.
pub proof fn law_options_take_their_value(v: Seq<char>, rest: Seq<Seq<char>>, cli: CliView)
    ensures
        run_args(seq!["--url"@, v] + rest, cli) == run_args(
            rest,
            CliView { url: Some(v), ..cli },
        ),
        run_args(seq!["--log"@, v] + rest, cli) == run_args(
            rest,
            CliView { log_file: Some(v), ..cli },
        ),
        !secret_like(v) ==> run_args(seq!["--token"@, v] + rest, cli) == run_args(
            rest,
            CliView { token_env: Some(v), ..cli },
        ),
        secret_like(v) ==> run_args(seq!["--token"@, v] + rest, cli) is Err,
        run_args(seq!["--help"@] + rest, cli) == run_args(
            rest,
            CliView { action: ActionView::Help, ..cli },
        ),
        run_args(seq!["-h"@] + rest, cli) == run_args(
            rest,
            CliView { action: ActionView::Help, ..cli },
        ),
        run_args(seq!["--version"@] + rest, cli) == run_args(
            rest,
            CliView { action: ActionView::Version, ..cli },
        ),
        run_args(seq!["-V"@] + rest, cli) == run_args(
            rest,
            CliView { action: ActionView::Version, ..cli },
        ),
        run_args(seq!["--url"@], cli) is Err,
        run_args(seq!["--log"@], cli) is Err,
        run_args(seq!["--token"@], cli) is Err,
        run_args(Seq::empty(), cli) == Ok::<CliView, Seq<char>>(cli),
{
    lemma_option_words();
    assert((seq!["--url"@, v] + rest).skip(2) =~= rest);
    assert((seq!["--log"@, v] + rest).skip(2) =~= rest);
    assert((seq!["--token"@, v] + rest).skip(2) =~= rest);
    assert((seq!["--help"@] + rest).skip(1) =~= rest);
    assert((seq!["-h"@] + rest).skip(1) =~= rest);
    assert((seq!["--version"@] + rest).skip(1) =~= rest);
    assert((seq!["-V"@] + rest).skip(1) =~= rest);
}

/// The monitor takes its address and its log, whatever stands behind them; help
/// and the version go before it.
pub proof fn law_monitor_takes_its_options(
    v: Seq<char>,
    rest: Seq<Seq<char>>,
    cli: CliView,
    addr: Option<Seq<char>>,
)
    ensures
        monitor_args(seq!["--addr"@, v] + rest, cli, addr) == monitor_args(rest, cli, Some(v)),
        monitor_args(seq!["--log"@, v] + rest, cli, addr) == monitor_args(
            rest,
            CliView { log_file: Some(v), ..cli },
            addr,
        ),
        monitor_args(seq!["--help"@] + rest, cli, addr) == monitor_args(
            rest,
            CliView { action: ActionView::Help, ..cli },
            addr,
        ),
        monitor_args(seq!["--version"@] + rest, cli, addr) == monitor_args(
            rest,
            CliView { action: ActionView::Version, ..cli },
            addr,
        ),
        monitor_args(seq!["--url"@, v] + rest, cli, addr) is Err,
        monitor_args(seq!["--token"@, v] + rest, cli, addr) is Err,
        cli.action is Run ==> monitor_args(Seq::empty(), cli, addr) == Ok::<CliView, Seq<char>>(
            CliView { action: ActionView::Monitor { addr }, ..cli },
        ),
        cli.action is Help || cli.action is Version ==> monitor_args(Seq::empty(), cli, addr)
            == Ok::<CliView, Seq<char>>(cli),
{
    lemma_option_words();
    assert((seq!["--addr"@, v] + rest).skip(2) =~= rest);
    assert((seq!["--log"@, v] + rest).skip(2) =~= rest);
    assert((seq!["--help"@] + rest).skip(1) =~= rest);
    assert((seq!["--version"@] + rest).skip(1) =~= rest);
}

/// An argument that nobody knows is refused.
pub proof fn law_unknown_arguments_are_refused(a: Seq<char>, rest: Seq<Seq<char>>, cli: CliView)
    requires
        a != "--help"@,
        a != "-h"@,
        a != "--version"@,
        a != "-V"@,
        a != "--url"@,
        a != "--token"@,
        a != "--log"@,
    ensures
        run_args(seq![a] + rest, cli) is Err,
        a != "--addr"@ ==> monitor_args(seq![a] + rest, cli, None) is Err,
{
}

/// The name of the program is passed over, and `monitor` behind it selects the
/// monitor; anything else is a plain run that begins with nothing set.
pub proof fn law_program_name_is_passed_over(name: Seq<char>, rest: Seq<Seq<char>>)
    requires
        name.len() > 0,
        name[0] != '-',
    ensures
        cli_of(seq![name, "monitor"@] + rest) == monitor_args(
            rest,
            CliView { url: None, token_env: None, log_file: None, action: ActionView::Run },
            None,
        ),
        rest.len() == 0 || rest[0] != "monitor"@ ==> cli_of(seq![name] + rest) == run_args(
            rest,
            CliView { url: None, token_env: None, log_file: None, action: ActionView::Run },
        ),
{
    assert((seq![name, "monitor"@] + rest).skip(1).skip(1) =~= rest);
    assert((seq![name] + rest).skip(1) =~= rest);
}

/// The host of an address is what stands behind the scheme and the user, up to
/// the path.
pub proof fn law_host_stands_between_scheme_and_path(
    scheme: Seq<char>,
    user: Seq<char>,
    host: Seq<char>,
    path: Seq<char>,
)
    requires
        !scheme.contains(':'),
        user.len() == 0 || user.last() == '@',
        !user.contains(':'),
        !user.contains('/'),
        host.len() > 0,
        host[0] != '[',
        !host.contains('/'),
        !host.contains('@'),
        !host.contains(':'),
        path.len() == 0 || path[0] == '/',
        !path.contains(':'),
    ensures
        host_in(scheme + "://"@ + user + host + path) == host,
{
    let sep = "://"@;
    reveal_strlit("://");
    assert(sep.len() == 3 && sep[0] == ':');
    let url = scheme + sep + user + host + path;
    let n = scheme.len() as int;
    assert(url.subrange(n, n + 3) =~= sep);
    assert(occurs_at(url, sep, n));
    law_search_finds_the_first(url, sep, 0);
    let i = find_from(url, sep, 0)->0;
    assert(i == n) by {
        if i < n {
            assert(url.subrange(i, i + 3)[0] == url[i]);
            assert(url[i] == scheme[i]);
            assert(scheme.contains(':'));
        }
    }
    law_search_finds_the_first(url, sep, n + 3);
    assert(find_from(url, sep, n + 3) is None) by {
        if find_from(url, sep, n + 3) is Some {
            let j = find_from(url, sep, n + 3)->0;
            assert(url.subrange(j, j + 3)[0] == url[j]);
            assert(url[j] == ':');
            let at = j - n - 3;
            if at < user.len() {
                assert(user[at] == ':');
            } else if at < user.len() + host.len() {
                assert(host[at - user.len()] == ':');
            } else {
                assert(path[at - user.len() - host.len()] == ':');
            }
        }
    }
    let rest = url.skip(n + 3);
    assert(rest =~= user + host + path);
    let front = before_char(rest, '/');
    law_text_before_a_character(rest, '/');
    let whole = user + host;
    assert(front =~= whole) by {
        assert(front =~= rest.take(front.len() as int));
        if front.len() < whole.len() {
            assert(rest[front.len() as int] == whole[front.len() as int]);
            if front.len() < user.len() {
                assert(user[front.len() as int] == '/');
            } else {
                assert(host[front.len() - user.len()] == '/');
            }
        }
        if front.len() > whole.len() {
            assert(front[whole.len() as int] == path[0]);
            assert(front.contains('/'));
        }
        assert(whole =~= rest.take(whole.len() as int));
    }
    let behind = after_last_char(whole, '@');
    law_text_behind_a_character(whole, '@');
    assert(behind =~= host) by {
        if behind.len() < host.len() {
            assert(whole[whole.len() - behind.len() - 1] == host[host.len() - behind.len() - 1]);
            assert(host.contains('@'));
        }
        if behind.len() > host.len() {
            assert(whole[user.len() - 1] == '@');
            let at = user.len() - 1 - (whole.len() - behind.len());
            assert(behind[at] == whole[user.len() - 1]);
            assert(behind.contains('@'));
        }
        assert(whole.skip(whole.len() - host.len()) =~= host);
    }
    law_text_before_a_character(host, ':');
    let last = before_char(host, ':');
    assert(last =~= host) by {
        if last.len() < host.len() {
            assert(host[last.len() as int] == ':');
        }
        assert(last =~= host.take(last.len() as int));
    }
}

/// Only the names of this machine are taken for it, letter case aside; a user
/// or a path that looks like one changes nothing.
pub proof fn law_only_this_machine_is_loopback(
    scheme: Seq<char>,
    user: Seq<char>,
    host: Seq<char>,
    path: Seq<char>,
)
    requires
        !scheme.contains(':'),
        user.len() == 0 || user.last() == '@',
        !user.contains(':'),
        !user.contains('/'),
        host.len() > 0,
        host[0] != '[',
        !host.contains('/'),
        !host.contains('@'),
        !host.contains(':'),
        path.len() == 0 || path[0] == '/',
        !path.contains(':'),
    ensures
        loopback(scheme + "://"@ + user + host + path) <==> ascii_lowered(host) == "127.0.0.1"@
            || ascii_lowered(host) == "localhost"@,
{
    law_host_stands_between_scheme_and_path(scheme, user, host, path);
    reveal_strlit("::1");
    if ascii_lowered(host) == "::1"@ {
        assert("::1"@[0] == ':');
        law_lower_case_changes_capitals(host, 0);
        assert(host[0] == ':');
    }
}

} // verus!
