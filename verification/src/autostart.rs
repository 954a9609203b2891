//! Starting at login, as something the user turns on: one XDG autostart
//! entry, written when "Start at login" is switched on and removed when it is
//! switched off. Hyprland, sway and niri don't run those unless the session
//! was started through systemd (uwsm), so a line in the compositor's own
//! config that starts `asst-gtk --background` counts as on and is left for
//! the user to remove.

use vstd::prelude::*;
use vstd::string::*;

use crate::text::{
    ascii_upper_text, chars, contains, glue, glue3, has, has_prefix, is_white, lines, pieces, same,
    same_chars, split, split_lines, starts_with, text, texts, trim, trim_front, trim_start, trimmed,
    upper_ascii, white,
};

verus! {

/// What a compositor config runs to start asst in the tray.
pub const COMMAND: &'static str = "asst-gtk --background";

/// The configs of compositors, under the config folder.
pub const COMPOSITOR_CONFIGS: [&'static str; 4] = [
    "hypr/hyprland.lua",
    "hypr/hyprland.conf",
    "sway/config",
    "niri/config.kdl",
];

/// Desktops whose session manager reads `~/.config/autostart` by itself.
pub const READS_AUTOSTART: [&'static str; 12] = [
    "GNOME",
    "KDE",
    "XFCE",
    "X-Cinnamon",
    "MATE",
    "LXQt",
    "LXDE",
    "Budgie",
    "Pantheon",
    "Unity",
    "Deepin",
    "COSMIC",
];

// -- paths ------------------------------------------------------------------------------

/// A relative path under a folder.
pub open spec fn under(dir: Seq<char>, rel: Seq<char>) -> Seq<char> {
    if dir.len() == 0 || dir.last() == '/' {
        dir + rel
    } else {
        dir + "/"@ + rel
    }
}

/// A relative path under a folder.
pub fn join_path(dir: &str, rel: &str) -> (r: String)
    ensures
        r@ == under(dir@, rel@),
{
    let d = chars(dir);
    if d.len() == 0 || d[d.len() - 1] == '/' {
        glue(dir, rel)
    } else {
        glue3(dir, "/", rel)
    }
}

/// The config folder: what the environment names when that is absolute, and
/// `.config` in the home folder otherwise.
pub fn config_home(xdg: Option<&str>, home: &str) -> (r: String)
    ensures
        r@ == (match xdg {
            Some(p) if starts_with(p@, "/"@) => p@,
            _ => under(home@, ".config"@),
        }),
{
    match xdg {
        Some(p) => if has_prefix(p, "/") {
            String::from_str(p)
        } else {
            join_path(home, ".config")
        },
        None => join_path(home, ".config"),
    }
}

/// The autostart entry of an app.
pub fn entry(config_home: &str, app_id: &str) -> (r: String)
    ensures
        r@ == under(under(config_home@, "autostart"@), app_id@ + ".desktop"@),
{
    let name = glue(app_id, ".desktop");
    join_path(join_path(config_home, "autostart").as_str(), name.as_str())
}

/// What is left of a path without a folder that it starts with.
pub uninterp spec fn path_below(path: Seq<char>, dir: Seq<char>) -> Option<Seq<char>>;

/// `Path::strip_prefix`, which goes by whole components, and how the rest
/// displays.
#[verifier::external_body]
pub(crate) fn strip_dir(path: &str, dir: &str) -> (r: Option<String>)
    ensures
        match r {
            Some(s) => path_below(path@, dir@) == Some(s@),
            None => path_below(path@, dir@) is None,
        },
{
    let rest = std::path::Path::new(path).strip_prefix(dir);
    rest.ok().map(|p| p.display().to_string())
}

/// A path as it is shown, given what is left of it without the home folder.
pub open spec fn tilde_of(path: Seq<char>, home: Seq<char>, rest: Option<Seq<char>>) -> Seq<char> {
    match rest {
        Some(r) if home.len() > 0 => "~/"@ + r,
        _ => path,
    }
}

/// A path as it is shown, given what is left of it without the home folder.
pub fn tilde_with(path: &str, home: &str, rest: Option<String>) -> (r: String)
    ensures
        r@ == tilde_of(
            path@,
            home@,
            match rest {
                Some(s) => Some(s@),
                None => None,
            },
        ),
{
    match rest {
        Some(s) => if home.is_empty() {
            String::from_str(path)
        } else {
            glue("~/", s.as_str())
        },
        None => String::from_str(path),
    }
}

/// `~/…` for a path in the home folder.
pub fn tilde(path: &str, home: &str) -> (r: String)
    ensures
        r@ == tilde_of(path@, home@, path_below(path@, home@)),
{
    tilde_with(path, home, strip_dir(path, home))
}

// -- compositors ------------------------------------------------------------------------

/// A line of a config that starts asst: one that runs the command and is no
/// comment. Whole-line comments only: Lua's comment marker can follow the
/// command.
pub open spec fn runs_asst(line: Seq<char>) -> bool {
    let l = trim_start(line);
    contains(l, COMMAND@) && !starts_with(l, "--"@) && !starts_with(l, "#"@)
        && !starts_with(l, "//"@)
}

fn line_runs_asst(line: &str) -> (r: bool)
    ensures
        r == runs_asst(line@),
{
    let l = text(&trim_front(&chars(line)));
    has(l.as_str(), COMMAND) && !has_prefix(l.as_str(), "--") && !has_prefix(
        l.as_str(),
        "#",
    ) && !has_prefix(l.as_str(), "//")
}

/// Whether a compositor's config starts asst.
pub fn starts_asst(config: &str) -> (r: bool)
    ensures
        r == exists|i: int| 0 <= i < lines(config@).len() && runs_asst(#[trigger] lines(config@)[i]),
{
    let v = split_lines(config);
    let ghost l = texts(v@);
    for i in 0..v.len()
        invariant
            l == texts(v@),
            l == lines(config@),
            forall|j: int| 0 <= j < i ==> !runs_asst(#[trigger] l[j]),
    {
        assert(l[i as int] == v@[i as int]@);
        if line_runs_asst(v[i].as_str()) {
            return true;
        }
    }
    false
}

// -- the entry --------------------------------------------------------------------------

/// Some white space in a path.
pub open spec fn spaced(s: Seq<char>) -> bool {
    exists|i: int| 0 <= i < s.len() && white(#[trigger] s[i])
}

/// A path in a command: in quotes when there is white space in it.
pub open spec fn quoted(s: Seq<char>) -> Seq<char> {
    if spaced(s) {
        "\""@ + s + "\""@
    } else {
        s
    }
}

/// A path in a command: in quotes when there is white space in it.
pub fn quote(path: &str) -> (r: String)
    ensures
        r@ == quoted(path@),
{
    let s = chars(path);
    for i in 0..s.len()
        invariant
            s@ == path@,
            forall|j: int| 0 <= j < i ==> !white(#[trigger] s@[j]),
    {
        if is_white(s[i]) {
            return glue3("\"", path, "\"");
        }
    }
    String::from_str(path)
}

/// Where asst may be installed, in the order they are tried: a session's
/// startup commands often run without `~/.local/bin` on PATH.
pub fn installed(home: &str) -> (r: (String, &'static str))
    ensures
        r.0@ == under(home@, ".local/bin/asst-gtk"@),
        r.1@ == "/usr/bin/asst-gtk"@,
{
    (join_path(home, ".local/bin/asst-gtk"), "/usr/bin/asst-gtk")
}

/// The command of the entry: an absolute path when there is one.
pub open spec fn command_of(exe: Option<Seq<char>>) -> Seq<char> {
    (match exe {
        Some(p) => quoted(p),
        None => "asst-gtk"@,
    }) + " --background"@
}

/// The command of the entry: an absolute path when there is one.
pub fn command(exe: Option<&str>) -> (r: String)
    ensures
        r@ == command_of(
            match exe {
                Some(p) => Some(p@),
                None => None,
            },
        ),
{
    let name = match exe {
        Some(p) => quote(p),
        None => String::from_str("asst-gtk"),
    };
    glue(name.as_str(), " --background")
}

pub fn entry_text(command: &str, icon: &str) -> (r: String)
    ensures
        r@
            == "[Desktop Entry]\nType=Application\nName=asst\nComment=Tasks and reminders, from the tray\nExec="@
            + command@ + "\nIcon="@ + icon@
            + "\nTerminal=false\nNoDisplay=true\nX-GNOME-Autostart-enabled=true\n"@,
{
    let mut s = glue(
        "[Desktop Entry]\nType=Application\nName=asst\nComment=Tasks and reminders, from the tray\nExec=",
        command,
    );
    s.append("\nIcon=");
    s.append(icon);
    s.append("\nTerminal=false\nNoDisplay=true\nX-GNOME-Autostart-enabled=true\n");
    s
}

/// A line that switches an entry off.
pub open spec fn hides(line: Seq<char>) -> bool {
    ascii_upper_text(trim(line)) == "HIDDEN=TRUE"@
}

/// Whether an entry is switched off by a line of it.
pub open spec fn hidden(entry: Seq<char>) -> bool {
    exists|i: int| 0 <= i < lines(entry).len() && hides(#[trigger] lines(entry)[i])
}

/// Whether asst starts at login: from a compositor's config, or from an entry
/// that is there and not hidden.
pub fn is_enabled(by_compositor: bool, entry: Option<&str>) -> (r: bool)
    ensures
        r == (by_compositor || (entry matches Some(t) && !hidden(t@))),
{
    if by_compositor {
        return true;
    }
    match entry {
        None => false,
        Some(t) => {
            let v = split_lines(t);
            let ghost l = texts(v@);
            for i in 0..v.len()
                invariant
                    l == texts(v@),
                    l == lines(t@),
                    !by_compositor,
                    entry == Some(t),
                    forall|j: int| 0 <= j < i ==> !hides(#[trigger] l[j]),
            {
                assert(l[i as int] == v@[i as int]@);
                let u = upper_ascii(&trimmed(&chars(v[i].as_str())));
                if same_chars(&u, &chars("HIDDEN=TRUE")) {
                    return false;
                }
            }
            true
        },
    }
}

/// A desktop whose session manager reads autostart entries.
pub open spec fn reads_autostart(d: Seq<char>) -> bool {
    exists|i: int| 0 <= i < 12 && #[trigger] READS_AUTOSTART@[i]@ == d
}

/// Whether this session runs autostart entries, given whether systemd runs
/// them and the names of the desktop. False means "not sure".
pub fn session_reads_autostart(by_systemd: bool, desktop: &str) -> (r: bool)
    ensures
        r == (by_systemd || exists|i: int|
            0 <= i < pieces(desktop@, ':').len() && reads_autostart(
                #[trigger] pieces(desktop@, ':')[i],
            )),
{
    if by_systemd {
        return true;
    }
    let v = split(&chars(desktop), ':');
    let ghost p = texts(v@);
    let known = READS_AUTOSTART;
    for i in 0..v.len()
        invariant
            p == texts(v@),
            p == pieces(desktop@, ':'),
            !by_systemd,
            known@ == READS_AUTOSTART@,
            forall|j: int| 0 <= j < i ==> !reads_autostart(#[trigger] p[j]),
    {
        assert(p[i as int] == v@[i as int]@);
        for k in 0..12usize
            invariant
                p == texts(v@),
                p == pieces(desktop@, ':'),
                !by_systemd,
                0 <= i < v@.len(),
                p[i as int] == v@[i as int]@,
                known@ == READS_AUTOSTART@,
                forall|j: int| 0 <= j < k ==> #[trigger] READS_AUTOSTART@[j]@ != p[i as int],
        {
            if same(known[k], v[i].as_str()) {
                assert(READS_AUTOSTART@[k as int]@ == p[i as int]);
                assert(reads_autostart(p[i as int]));
                return true;
            }
        }
    }
    false
}

} // verus!
