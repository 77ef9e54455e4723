//! The configuration file: where it stands, how it is written anew, and the
//! words around it.

use vstd::prelude::*;

use crate::config::{ConfigError, DEFAULT_MONITOR_ADDR, DEFAULT_TOKEN_ENV};
use crate::text::{cat, cat3, chars_of, is_before, opt_str, same, sorts_before};
use crate::toml_doc::{
    find_member, lemma_table_view, member, member_index, member_views, parse, print, printable,
    toml_parsed, toml_text, Toml, TomlView,
};

verus! {

/// A path below another: a slash stands between the two, unless the first is
/// empty or ends with one.
pub open spec fn below(base: Seq<char>, rest: Seq<char>) -> Seq<char> {
    if base.len() == 0 {
        rest
    } else if base.last() == '/' {
        base + rest
    } else {
        base + "/"@ + rest
    }
}

pub(crate) fn join_path(base: &str, rest: &str) -> (r: String)
    ensures
        r@ == below(base@, rest@),
{
    let cs = chars_of(base);
    if cs.len() == 0 {
        rest.to_owned()
    } else if cs[cs.len() - 1] == '/' {
        cat(base, rest)
    } else {
        cat3(base, "/", rest)
    }
}

/// Where a file of the program stands: below the directory that the user set,
/// else below the home directory, else below the current one.
pub open spec fn place(
    set: Option<Seq<char>>,
    home: Option<Seq<char>>,
    in_set: Seq<char>,
    in_home: Seq<char>,
) -> Seq<char> {
    if set is Some && set->0.len() > 0 {
        below(set->0, in_set)
    } else if home is Some {
        below(home->0, in_home)
    } else {
        in_home
    }
}

fn place_of(set: Option<&str>, home: Option<&str>, in_set: &str, in_home: &str) -> (r: String)
    ensures
        r@ == place(opt_str(set), opt_str(home), in_set@, in_home@),
{
    if let Some(x) = set {
        if !x.is_empty() {
            return join_path(x, in_set);
        }
    }
    match home {
        Some(h) => join_path(h, in_home),
        None => in_home.to_owned(),
    }
}

/// Where the configuration stands. `xdg` is the value of `XDG_CONFIG_HOME`,
/// `home` that of `HOME`.
pub fn default_config_path(xdg: Option<&str>, home: Option<&str>) -> (r: String)
    ensures
        r@ == place(
            opt_str(xdg),
            opt_str(home),
            "dshtui/config.toml"@,
            ".config/dshtui/config.toml"@,
        ),
{
    place_of(xdg, home, "dshtui/config.toml", ".config/dshtui/config.toml")
}

/// Where the drafts stand. `xdg` is the value of `XDG_STATE_HOME`, `home` that
/// of `HOME`.
pub fn default_state_path(xdg: Option<&str>, home: Option<&str>) -> (r: String)
    ensures
        r@ == place(
            opt_str(xdg),
            opt_str(home),
            "dshtui/drafts.toml"@,
            ".local/state/dshtui/drafts.toml"@,
        ),
{
    place_of(xdg, home, "dshtui/drafts.toml", ".local/state/dshtui/drafts.toml")
}

impl ConfigError {
    /// The words for an error.
    pub fn message(&self) -> (r: String)
        ensures
            r@ == match *self {
                ConfigError::Io { path, message } => "读取配置失败 "@ + path@ + ": "@ + message@,
                ConfigError::Toml { path, message } => "解析配置失败 "@ + path@ + ": "@ + message@,
                ConfigError::InvalidValue { path, message } => "配置值非法: "@ + message@,
                ConfigError::TokenEnvMissing { name } => "环境变量 "@ + name@
                    + " 未设置或为空（--token 是环境变量名选择器）"@,
            },
    {
        match self {
            ConfigError::Io { path, message } => {
                let mut m = cat3("读取配置失败 ", path.as_str(), ": ");
                m.append(message.as_str());
                m
            },
            ConfigError::Toml { path, message } => {
                let mut m = cat3("解析配置失败 ", path.as_str(), ": ");
                m.append(message.as_str());
                m
            },
            ConfigError::InvalidValue { message, .. } => cat("配置值非法: ", message.as_str()),
            ConfigError::TokenEnvMissing { name } => cat3(
                "环境变量 ",
                name.as_str(),
                " 未设置或为空（--token 是环境变量名选择器）",
            ),
        }
    }
}

/// How the program is used.
pub fn usage_text(version: &str) -> (r: String)
    ensures
        r@ == "dshtui "@ + version@ + " — 官方 dsh web Remote API 的 Rust TUI 客户端\n\n用法: dshtui [--url <url>] [--token <env-name>] [--log <file>] [--help] [--version]\n      dshtui monitor [--addr <agent-server>] [--log <file>]\n\n选项:\n  --url <url>       dsh web 地址（默认 http://127.0.0.1:3080）\n  --token <env>     环境变量名选择器（默认 "@ + DEFAULT_TOKEN_ENV@ + "），secret 不出现在 argv\n  --log <file>      日志文件路径（默认 ~/.local/state/dshtui/dshtui.log，轮转 5MB）\n  -h, --help        显示本帮助\n  -V, --version     显示版本\n\n子命令:\n  monitor           Agent Town 监控面板：直连本机 OTR agent-server，\n                    2s 轮询 /agents、30s 轮询 /kb-stats，kitty 终端渲染像素小镇。\n    --addr <url>    agent-server 地址（默认 "@ + DEFAULT_MONITOR_ADDR@ + "）\n\nkitty 快捷键（可选，写入 ~/.config/kitty/kitty.conf）:\n  map ctrl+shift+a new_tab_with_cwd\n  map ctrl+shift+m launch --type=tab --cwd=current dshtui monitor\n\ntoken 来源优先级: --token <env> > 环境变量 "@ + DEFAULT_TOKEN_ENV@ + " > 配置文件 > 交互粘贴\n"@,
{
    let mut out = "dshtui ".to_owned();
    out.append(version);
    out.append(" — 官方 dsh web Remote API 的 Rust TUI 客户端\n\n用法: dshtui [--url <url>] [--token <env-name>] [--log <file>] [--help] [--version]\n      dshtui monitor [--addr <agent-server>] [--log <file>]\n\n选项:\n  --url <url>       dsh web 地址（默认 http://127.0.0.1:3080）\n  --token <env>     环境变量名选择器（默认 ");
    out.append(DEFAULT_TOKEN_ENV);
    out.append("），secret 不出现在 argv\n  --log <file>      日志文件路径（默认 ~/.local/state/dshtui/dshtui.log，轮转 5MB）\n  -h, --help        显示本帮助\n  -V, --version     显示版本\n\n子命令:\n  monitor           Agent Town 监控面板：直连本机 OTR agent-server，\n                    2s 轮询 /agents、30s 轮询 /kb-stats，kitty 终端渲染像素小镇。\n    --addr <url>    agent-server 地址（默认 ");
    out.append(DEFAULT_MONITOR_ADDR);
    out.append("）\n\nkitty 快捷键（可选，写入 ~/.config/kitty/kitty.conf）:\n  map ctrl+shift+a new_tab_with_cwd\n  map ctrl+shift+m launch --type=tab --cwd=current dshtui monitor\n\ntoken 来源优先级: --token <env> > 环境变量 ");
    out.append(DEFAULT_TOKEN_ENV);
    out.append(" > 配置文件 > 交互粘贴\n");
    out
}

/// The members of a table with one under a key: in place of the one there, else
/// before the first that comes after it.
pub open spec fn with_member(es: Seq<(Seq<char>, TomlView)>, k: Seq<char>, v: TomlView) -> Seq<
    (Seq<char>, TomlView),
>
    decreases es.len(),
{
    if es.len() == 0 || sorts_before(k, es[0].0) {
        seq![(k, v)] + es
    } else if es[0].0 == k {
        seq![(k, v)] + es.skip(1)
    } else {
        seq![es[0]] + with_member(es.skip(1), k, v)
    }
}

proof fn lemma_with_member(es: Seq<(Seq<char>, TomlView)>, k: Seq<char>, v: TomlView, i: int)
    requires
        0 <= i <= es.len(),
        forall|j: int|
            0 <= j < i ==> !sorts_before(k, (#[trigger] es[j]).0) && es[j].0 != k,
        i < es.len() ==> sorts_before(k, es[i].0) || es[i].0 == k,
    ensures
        i < es.len() && es[i].0 == k && !sorts_before(k, es[i].0) ==> with_member(es, k, v)
            == es.update(i, (k, v)),
        i >= es.len() || sorts_before(k, es[i].0) ==> with_member(es, k, v) == es.insert(
            i,
            (k, v),
        ),
    decreases i,
{
    if i > 0 {
        assert(!sorts_before(k, es[0].0) && es[0].0 != k);
        let rest = es.skip(1);
        assert forall|j: int| 0 <= j < i - 1 implies !sorts_before(k, (#[trigger] rest[j]).0)
            && rest[j].0 != k by {
            assert(rest[j] == es[j + 1]);
        }
        lemma_with_member(rest, k, v, i - 1);
        assert(seq![es[0]] + rest.insert(i - 1, (k, v)) =~= es.insert(i, (k, v)));
        if i < es.len() {
            assert(seq![es[0]] + rest.update(i - 1, (k, v)) =~= es.update(i, (k, v)));
        }
    } else {
        assert(seq![(k, v)] + es =~= es.insert(0, (k, v)));
        if es.len() > 0 {
            assert(seq![(k, v)] + es.skip(1) =~= es.update(0, (k, v)));
        }
    }
}

proof fn lemma_index_in_range(es: Seq<(Seq<char>, TomlView)>, k: Seq<char>)
    ensures
        0 <= member_index(es, k) <= es.len(),
    decreases es.len(),
{
    if es.len() > 0 && es[0].0 != k {
        lemma_index_in_range(es.skip(1), k);
    }
}

proof fn lemma_member_step(es: Seq<(Seq<char>, TomlView)>, k: Seq<char>)
    requires
        es.len() > 0,
    ensures
        member(es, k) == if es[0].0 == k {
            Some(es[0].1)
        } else {
            member(es.skip(1), k)
        },
{
    lemma_index_in_range(es.skip(1), k);
}

/// A member that is put in is found, and every other is found as before.
pub proof fn law_member_is_found(
    es: Seq<(Seq<char>, TomlView)>,
    k: Seq<char>,
    v: TomlView,
    x: Seq<char>,
)
    ensures
        member(with_member(es, k, v), x) == if x == k {
            Some(v)
        } else {
            member(es, x)
        },
    decreases es.len(),
{
    let r = with_member(es, k, v);
    lemma_member_step(r, x);
    if es.len() > 0 {
        lemma_member_step(es, x);
    }
    if es.len() == 0 || sorts_before(k, es[0].0) {
        assert(r.skip(1) =~= es);
    } else if es[0].0 == k {
        assert(r.skip(1) =~= es.skip(1));
    } else {
        assert(r.skip(1) =~= with_member(es.skip(1), k, v));
        law_member_is_found(es.skip(1), k, v, x);
    }
}

fn put_member(es: &mut Vec<(String, Toml)>, k: &str, v: Toml)
    ensures
        member_views(final(es)@) == with_member(member_views(old(es)@), k@, v@),
{
    let ghost views = member_views(es@);
    let ghost added = v@;
    let mut i: usize = 0;
    while i < es.len() && !is_before(k, es[i].0.as_str()) && !same(es[i].0.as_str(), k)
        invariant
            i <= es@.len(),
            views == member_views(es@),
            forall|j: int|
                0 <= j < i ==> !sorts_before(k@, (#[trigger] views[j]).0) && views[j].0 != k@,
        decreases es@.len() - i,
    {
        assert(views[i as int].0 == es@[i as int].0@);
        i = i + 1;
    }
    proof {
        if i < es@.len() {
            assert(views[i as int].0 == es@[i as int].0@);
            crate::text::lemma_sorts_total(k@, views[i as int].0);
        }
        lemma_with_member(views, k@, added, i as int);
    }
    if i < es.len() && same(es[i].0.as_str(), k) {
        es.set(i, (k.to_owned(), v));
        assert(member_views(es@) =~= views.update(i as int, (k@, added)));
    } else {
        es.insert(i, (k.to_owned(), v));
        assert(member_views(es@) =~= views.insert(i as int, (k@, added)));
    }
}

/// The members of a table; none where a value is no table.
pub open spec fn table_of(v: TomlView) -> Seq<(Seq<char>, TomlView)> {
    match v {
        TomlView::Table(es) => es,
        _ => Seq::empty(),
    }
}

fn members_of(v: &Toml) -> (r: Vec<(String, Toml)>)
    ensures
        member_views(r@) == table_of(v@),
{
    let copy = v.dup();
    match copy {
        Toml::Table(es) => {
            proof {
                lemma_table_view(es);
            }
            es
        },
        _ => {
            let r: Vec<(String, Toml)> = Vec::new();
            assert(member_views(r@) =~= Seq::empty());
            r
        },
    }
}

/// The section of a document under a name; empty where there is none.
pub open spec fn section(doc: TomlView, name: Seq<char>) -> Seq<(Seq<char>, TomlView)> {
    match member(table_of(doc), name) {
        Some(v) => table_of(v),
        None => Seq::empty(),
    }
}

/// A document with another section under a name.
pub open spec fn with_section(
    doc: TomlView,
    name: Seq<char>,
    new: Seq<(Seq<char>, TomlView)>,
) -> TomlView {
    TomlView::Table(with_member(table_of(doc), name, TomlView::Table(new)))
}

fn read_section(doc: &Toml, name: &str) -> (r: Vec<(String, Toml)>)
    ensures
        member_views(r@) == section(doc@, name@),
{
    let root = members_of(doc);
    let at: usize = find_member(&root, name);
    if at < root.len() {
        assert(member_views(root@)[at as int].1 == root@[at as int].1@);
        members_of(&root[at].1)
    } else {
        let r: Vec<(String, Toml)> = Vec::new();
        assert(member_views(r@) =~= Seq::empty());
        r
    }
}

fn write_section(doc: &Toml, name: &str, new: Vec<(String, Toml)>) -> (r: Toml)
    ensures
        r@ == with_section(doc@, name@, member_views(new@)),
{
    let mut root = members_of(doc);
    proof {
        lemma_table_view(new);
    }
    put_member(&mut root, name, Toml::Table(new));
    proof {
        lemma_table_view(root);
    }
    Toml::Table(root)
}

/// Pairs of texts.
pub open spec fn pairs(v: Seq<(String, String)>) -> Seq<(Seq<char>, Seq<char>)> {
    v.map_values(|p: (String, String)| (p.0@, p.1@))
}

/// A table of the first `n` pairs; of pairs with one key the last counts.
pub open spec fn text_table(v: Seq<(Seq<char>, Seq<char>)>, n: int) -> Seq<(Seq<char>, TomlView)>
    decreases n,
{
    if n <= 0 {
        Seq::empty()
    } else {
        with_member(text_table(v, n - 1), v[n - 1].0, TomlView::Text(v[n - 1].1))
    }
}

fn make_text_table(v: &Vec<(String, String)>) -> (r: Vec<(String, Toml)>)
    ensures
        member_views(r@) == text_table(pairs(v@), v@.len() as int),
{
    let ghost all = pairs(v@);
    let mut r: Vec<(String, Toml)> = Vec::new();
    let mut i: usize = 0;
    assert(member_views(r@) =~= Seq::empty());
    while i < v.len()
        invariant
            i <= v@.len(),
            all == pairs(v@),
            member_views(r@) == text_table(all, i as int),
        decreases v@.len() - i,
    {
        assert(all[i as int] == (v@[i as int].0@, v@[i as int].1@));
        put_member(&mut r, v[i].0.as_str(), Toml::Text(v[i].1.clone()));
        i = i + 1;
    }
    r
}

/// Keys of commands by mode.
pub open spec fn mode_pairs(v: Seq<(String, Vec<(String, String)>)>) -> Seq<
    (Seq<char>, Seq<(Seq<char>, Seq<char>)>),
> {
    v.map_values(|m: (String, Vec<(String, String)>)| (m.0@, pairs(m.1@)))
}

/// A table of the keys of the first `n` modes.
pub open spec fn mode_table(v: Seq<(Seq<char>, Seq<(Seq<char>, Seq<char>)>)>, n: int) -> Seq<
    (Seq<char>, TomlView),
>
    decreases n,
{
    if n <= 0 {
        Seq::empty()
    } else {
        with_member(
            mode_table(v, n - 1),
            v[n - 1].0,
            TomlView::Table(text_table(v[n - 1].1, v[n - 1].1.len() as int)),
        )
    }
}

fn make_mode_table(v: &Vec<(String, Vec<(String, String)>)>) -> (r: Vec<(String, Toml)>)
    ensures
        member_views(r@) == mode_table(mode_pairs(v@), v@.len() as int),
{
    let ghost all = mode_pairs(v@);
    let mut r: Vec<(String, Toml)> = Vec::new();
    let mut i: usize = 0;
    assert(member_views(r@) =~= Seq::empty());
    while i < v.len()
        invariant
            i <= v@.len(),
            all == mode_pairs(v@),
            member_views(r@) == mode_table(all, i as int),
        decreases v@.len() - i,
    {
        assert(all[i as int] == (v@[i as int].0@, pairs(v@[i as int].1@)));
        let t = make_text_table(&v[i].1);
        proof {
            lemma_table_view(t);
        }
        put_member(&mut r, v[i].0.as_str(), Toml::Table(t));
        i = i + 1;
    }
    r
}

/// A document with a theme and its colours.
pub open spec fn themed(
    doc: TomlView,
    theme: Seq<char>,
    palette: Seq<(Seq<char>, Seq<char>)>,
) -> TomlView {
    let ui = with_member(section(doc, "ui"@), "theme"@, TomlView::Text(theme));
    with_section(
        doc,
        "ui"@,
        with_member(
            ui,
            "palette"@,
            TomlView::Table(text_table(palette, palette.len() as int)),
        ),
    )
}

/// A document with a theme and its colours; all else stays.
pub fn with_theme(doc: &Toml, theme: &str, palette: &Vec<(String, String)>) -> (r: Toml)
    ensures
        r@ == themed(doc@, theme@, pairs(palette@)),
{
    let mut ui = read_section(doc, "ui");
    put_member(&mut ui, "theme", Toml::Text(theme.to_owned()));
    let colours = make_text_table(palette);
    proof {
        lemma_table_view(colours);
    }
    put_member(&mut ui, "palette", Toml::Table(colours));
    write_section(doc, "ui", ui)
}

/// A document with the keys of commands.
pub open spec fn keyed(
    doc: TomlView,
    modes: Seq<(Seq<char>, Seq<(Seq<char>, Seq<char>)>)>,
) -> TomlView {
    with_section(
        doc,
        "keymap"@,
        with_member(
            section(doc, "keymap"@),
            "modes"@,
            TomlView::Table(mode_table(modes, modes.len() as int)),
        ),
    )
}

/// A document with the keys of commands; all else stays.
pub fn with_keys(doc: &Toml, modes: &Vec<(String, Vec<(String, String)>)>) -> (r: Toml)
    ensures
        r@ == keyed(doc@, mode_pairs(modes@)),
{
    let mut keymap = read_section(doc, "keymap");
    let table = make_mode_table(modes);
    proof {
        lemma_table_view(table);
    }
    put_member(&mut keymap, "modes", Toml::Table(table));
    write_section(doc, "keymap", keymap)
}

/// The document that a file says; an empty one where there is no file.
pub open spec fn document_of(raw: Option<Seq<char>>) -> Result<TomlView, Seq<char>> {
    match raw {
        Some(t) => toml_parsed(t),
        None => Ok(TomlView::Table(Seq::empty())),
    }
}

fn read_document(path: &str, raw: Option<&str>) -> (r: Result<Toml, ConfigError>)
    ensures
        match document_of(opt_str(raw)) {
            Ok(v) => r is Ok && r->Ok_0@ == v,
            Err(m) => r is Err && r->Err_0 is Toml && r->Err_0->Toml_path@ == path@
                && r->Err_0->Toml_message@ == m,
        },
{
    match raw {
        Some(t) => match parse(t) {
            Ok(v) => Ok(v),
            Err(message) => Err(ConfigError::Toml { path: path.to_owned(), message }),
        },
        None => {
            let es: Vec<(String, Toml)> = Vec::new();
            proof {
                lemma_table_view(es);
                assert(member_views(es@) =~= Seq::empty());
            }
            Ok(Toml::Table(es))
        },
    }
}

/// Whether a result is that of writing a document: its text, nothing where a
/// text in it has too many quotes in a row to be written, or an error.
pub open spec fn is_written(r: Result<Option<String>, ConfigError>, path: Seq<char>, v: TomlView) -> bool {
    match r {
        Ok(None) => !printable(v),
        Ok(Some(t)) => printable(v) && toml_text(v) is Ok && toml_text(v)->Ok_0 == t@,
        Err(ConfigError::Toml { path: p, message }) => {
            printable(v) && p@ == path && toml_text(v) is Err && toml_text(v)->Err_0 == message@
        },
        Err(_) => false,
    }
}

fn write_document(path: &str, doc: &Toml) -> (r: Result<Option<String>, ConfigError>)
    ensures
        is_written(r, path@, doc@),
{
    if !doc.is_printable() {
        return Ok(None);
    }
    match print(doc) {
        Ok(t) => Ok(Some(t)),
        Err(message) => Err(ConfigError::Toml { path: path.to_owned(), message }),
    }
}

/// Whether a result says that a document could not be read.
pub open spec fn is_unread(
    r: Result<Option<String>, ConfigError>,
    path: Seq<char>,
    why: Seq<char>,
) -> bool {
    r is Err && r->Err_0 is Toml && r->Err_0->Toml_path@ == path && r->Err_0->Toml_message@ == why
}

/// The text of the configuration file with a theme and its colours. `raw` is
/// the text of the file, where there is one.
pub fn save_theme_config(
    path: &str,
    raw: Option<&str>,
    theme: &str,
    palette: &Vec<(String, String)>,
) -> (r: Result<Option<String>, ConfigError>)
    ensures
        match document_of(opt_str(raw)) {
            Ok(v) => is_written(r, path@, themed(v, theme@, pairs(palette@))),
            Err(m) => is_unread(r, path@, m),
        },
{
    match read_document(path, raw) {
        Ok(doc) => write_document(path, &with_theme(&doc, theme, palette)),
        Err(e) => Err(e),
    }
}

/// The text of the configuration file with the keys of commands. `raw` is the
/// text of the file, where there is one.
pub fn save_keymap_config(
    path: &str,
    raw: Option<&str>,
    modes: &Vec<(String, Vec<(String, String)>)>,
) -> (r: Result<Option<String>, ConfigError>)
    ensures
        match document_of(opt_str(raw)) {
            Ok(v) => is_written(r, path@, keyed(v, mode_pairs(modes@))),
            Err(m) => is_unread(r, path@, m),
        },
{
    match read_document(path, raw) {
        Ok(doc) => write_document(path, &with_keys(&doc, modes)),
        Err(e) => Err(e),
    }
}

/// A theme that is saved is found, and every other section, and all else in the
/// section, stays as it was.
pub proof fn law_saved_theme_leaves_the_rest(
    doc: TomlView,
    theme: Seq<char>,
    palette: Seq<(Seq<char>, Seq<char>)>,
    other: Seq<char>,
    x: Seq<char>,
)
    requires
        other != "ui"@,
        x != "theme"@,
        x != "palette"@,
    ensures
        ({
            let new = themed(doc, theme, palette);
            &&& member(table_of(new), other) == member(table_of(doc), other)
            &&& member(section(new, "ui"@), "theme"@) == Some(TomlView::Text(theme))
            &&& member(section(new, "ui"@), "palette"@) == Some(
                TomlView::Table(text_table(palette, palette.len() as int)),
            )
            &&& member(section(new, "ui"@), x) == member(section(doc, "ui"@), x)
        }),
{
    reveal_strlit("theme");
    reveal_strlit("palette");
    assert("theme"@.len() == 5 && "palette"@.len() == 7);
    let old_ui = section(doc, "ui"@);
    let ui = with_member(old_ui, "theme"@, TomlView::Text(theme));
    let colours = TomlView::Table(text_table(palette, palette.len() as int));
    let all = with_member(ui, "palette"@, colours);
    law_member_is_found(table_of(doc), "ui"@, TomlView::Table(all), other);
    law_member_is_found(table_of(doc), "ui"@, TomlView::Table(all), "ui"@);
    law_member_is_found(ui, "palette"@, colours, "theme"@);
    law_member_is_found(ui, "palette"@, colours, "palette"@);
    law_member_is_found(ui, "palette"@, colours, x);
    law_member_is_found(old_ui, "theme"@, TomlView::Text(theme), "theme"@);
    law_member_is_found(old_ui, "theme"@, TomlView::Text(theme), x);
}

/// Keys that are saved are found, and every other section, and all else in the
/// section, stays as it was.
pub proof fn law_saved_keys_leave_the_rest(
    doc: TomlView,
    modes: Seq<(Seq<char>, Seq<(Seq<char>, Seq<char>)>)>,
    other: Seq<char>,
    x: Seq<char>,
)
    requires
        other != "keymap"@,
        x != "modes"@,
    ensures
        ({
            let new = keyed(doc, modes);
            &&& member(table_of(new), other) == member(table_of(doc), other)
            &&& member(section(new, "keymap"@), "modes"@) == Some(
                TomlView::Table(mode_table(modes, modes.len() as int)),
            )
            &&& member(section(new, "keymap"@), x) == member(section(doc, "keymap"@), x)
        }),
{
    let old_keys = section(doc, "keymap"@);
    let table = TomlView::Table(mode_table(modes, modes.len() as int));
    let all = with_member(old_keys, "modes"@, table);
    law_member_is_found(table_of(doc), "keymap"@, TomlView::Table(all), other);
    law_member_is_found(table_of(doc), "keymap"@, TomlView::Table(all), "keymap"@);
    law_member_is_found(old_keys, "modes"@, table, "modes"@);
    law_member_is_found(old_keys, "modes"@, table, x);
}

/// A path below another begins with it, ends with what is below it, and has a
/// slash between the two.
pub proof fn law_paths_are_joined_by_a_slash(base: Seq<char>, rest: Seq<char>)
    ensures
        base.len() == 0 ==> below(base, rest) == rest,
        base.len() > 0 && base.last() == '/' ==> below(base, rest) == base + rest,
        base.len() > 0 && base.last() != '/' ==> below(base, rest) == base.push('/') + rest,
{
    reveal_strlit("/");
    assert("/"@ =~= seq!['/']);
    assert(base + "/"@ + rest =~= base.push('/') + rest);
}

/// A file stands below the directory that the user set, unless that is empty;
/// else below the home directory; else below the current one.
pub proof fn law_files_stand_where_the_user_said(
    set: Option<Seq<char>>,
    home: Option<Seq<char>>,
    in_set: Seq<char>,
    in_home: Seq<char>,
)
    ensures
        set is Some && set->0.len() > 0 ==> place(set, home, in_set, in_home) == below(
            set->0,
            in_set,
        ),
        (set is None || set->0.len() == 0) && home is Some ==> place(set, home, in_set, in_home)
            == below(home->0, in_home),
        (set is None || set->0.len() == 0) && home is None ==> place(set, home, in_set, in_home)
            == in_home,
{
}

/// A table of pairs holds under each key the last text that was given for it.
pub proof fn law_last_pair_counts(v: Seq<(Seq<char>, Seq<char>)>, n: int, k: int)
    requires
        0 <= k < n <= v.len(),
        forall|i: int| k < i < n ==> (#[trigger] v[i]).0 != v[k].0,
    ensures
        member(text_table(v, n), v[k].0) == Some(TomlView::Text(v[k].1)),
    decreases n,
{
    law_member_is_found(
        text_table(v, n - 1),
        v[n - 1].0,
        TomlView::Text(v[n - 1].1),
        v[k].0,
    );
    if k < n - 1 {
        law_last_pair_counts(v, n - 1, k);
    }
}

/// A table of pairs holds no key that was not given.
pub proof fn law_only_given_keys_are_held(v: Seq<(Seq<char>, Seq<char>)>, n: int, x: Seq<char>)
    requires
        0 <= n <= v.len(),
        forall|i: int| 0 <= i < n ==> (#[trigger] v[i]).0 != x,
    ensures
        member(text_table(v, n), x) is None,
    decreases n,
{
    if n > 0 {
        law_member_is_found(text_table(v, n - 1), v[n - 1].0, TomlView::Text(v[n - 1].1), x);
        law_only_given_keys_are_held(v, n - 1, x);
    }
}

/// The keys of a mode are those that were given last for it.
pub proof fn law_last_mode_counts(
    v: Seq<(Seq<char>, Seq<(Seq<char>, Seq<char>)>)>,
    n: int,
    k: int,
)
    requires
        0 <= k < n <= v.len(),
        forall|i: int| k < i < n ==> (#[trigger] v[i]).0 != v[k].0,
    ensures
        member(mode_table(v, n), v[k].0) == Some(
            TomlView::Table(text_table(v[k].1, v[k].1.len() as int)),
        ),
    decreases n,
{
    law_member_is_found(
        mode_table(v, n - 1),
        v[n - 1].0,
        TomlView::Table(text_table(v[n - 1].1, v[n - 1].1.len() as int)),
        v[k].0,
    );
    if k < n - 1 {
        law_last_mode_counts(v, n - 1, k);
    }
}

/// A table of modes holds no mode that was not given.
pub proof fn law_only_given_modes_are_held(
    v: Seq<(Seq<char>, Seq<(Seq<char>, Seq<char>)>)>,
    n: int,
    x: Seq<char>,
)
    requires
        0 <= n <= v.len(),
        forall|i: int| 0 <= i < n ==> (#[trigger] v[i]).0 != x,
    ensures
        member(mode_table(v, n), x) is None,
    decreases n,
{
    if n > 0 {
        law_member_is_found(
            mode_table(v, n - 1),
            v[n - 1].0,
            TomlView::Table(text_table(v[n - 1].1, v[n - 1].1.len() as int)),
            x,
        );
        law_only_given_modes_are_held(v, n - 1, x);
    }
}

/// A colour that is saved for a role is the one that is found for it.
pub proof fn law_saved_colours_are_found(
    doc: TomlView,
    theme: Seq<char>,
    palette: Seq<(Seq<char>, Seq<char>)>,
    k: int,
)
    requires
        0 <= k < palette.len(),
        forall|i: int| k < i < palette.len() ==> (#[trigger] palette[i]).0 != palette[k].0,
    ensures
        ({
            let ui = section(themed(doc, theme, palette), "ui"@);
            &&& member(ui, "theme"@) == Some(TomlView::Text(theme))
            &&& member(ui, "palette"@) is Some
            &&& member(table_of(member(ui, "palette"@)->0), palette[k].0) == Some(
                TomlView::Text(palette[k].1),
            )
        }),
{
    lemma_config_words();
    law_saved_theme_leaves_the_rest(doc, theme, palette, Seq::empty(), Seq::empty());
    law_last_pair_counts(palette, palette.len() as int, k);
}

/// A key that is saved for a command of a mode is the one that is found for it.
pub proof fn law_saved_keys_are_found(
    doc: TomlView,
    modes: Seq<(Seq<char>, Seq<(Seq<char>, Seq<char>)>)>,
    m: int,
    k: int,
)
    requires
        0 <= m < modes.len(),
        forall|i: int| m < i < modes.len() ==> (#[trigger] modes[i]).0 != modes[m].0,
        0 <= k < modes[m].1.len(),
        forall|i: int|
            k < i < modes[m].1.len() ==> (#[trigger] modes[m].1[i]).0 != modes[m].1[k].0,
    ensures
        ({
            let saved = section(keyed(doc, modes), "keymap"@);
            &&& member(saved, "modes"@) is Some
            &&& member(table_of(member(saved, "modes"@)->0), modes[m].0) is Some
            &&& member(
                table_of(member(table_of(member(saved, "modes"@)->0), modes[m].0)->0),
                modes[m].1[k].0,
            ) == Some(TomlView::Text(modes[m].1[k].1))
        }),
{
    lemma_config_words();
    law_saved_keys_leave_the_rest(doc, modes, Seq::empty(), Seq::empty());
    law_last_mode_counts(modes, modes.len() as int, m);
    law_last_pair_counts(modes[m].1, modes[m].1.len() as int, k);
}

proof fn lemma_config_words()
    ensures
        "ui"@.len() > 0,
        "theme"@.len() > 0,
        "palette"@.len() > 0,
        "keymap"@.len() > 0,
        "modes"@.len() > 0,
{
    reveal_strlit("ui");
    reveal_strlit("theme");
    reveal_strlit("palette");
    reveal_strlit("keymap");
    reveal_strlit("modes");
}

/// Where there is no file there is a document without sections.
pub proof fn law_no_file_is_an_empty_document(name: Seq<char>)
    ensures
        document_of(None) is Ok,
        section(document_of(None)->Ok_0, name).len() == 0,
{
}

} // verus!
