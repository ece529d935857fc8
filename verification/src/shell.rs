//! Desktop shell names, the shell subcommand's arguments and menu answers,
//! and the command that starts a shell.
use vstd::prelude::*;
use crate::rebuild::{owned, texts};
use crate::text::{all_ascii, ascii_lower, is_white_space, trim_start, trim_end, chars_of, eq_str, lowercase, to_lowercase, trim, trim_chars, trim_str, string_of};

verus! {

/// The text of an optional string slice.
pub open spec fn opt_str(o: Option<&str>) -> Option<Seq<char>> {
    match o {
        Some(s) => Some(s@),
        None => None,
    }
}

/// The shell that a lowercase name or number stands for.
pub open spec fn shell_alias(s: Seq<char>) -> Option<Seq<char>> {
    if s == "end4-pc"@ || s == "end4"@ || s == "ii"@ || s == "illogical-impulse"@ || s == "1"@ {
        Some("end4-pC"@)
    } else if s == "midnight"@ || s == "midnight-shell"@ || s == "caelestia"@ || s == "2"@ {
        Some("midnight"@)
    } else if s == "dms"@ || s == "dankmaterialshell"@ || s == "dank-material-shell"@ || s == "3"@ {
        Some("dms"@)
    } else if s == "none"@ || s == "off"@ || s == "disabled"@ || s == "4"@ {
        Some("none"@)
    } else {
        None
    }
}

/// A shell's own name stands for that shell: the name a shell is normalized
/// to is ASCII, and lowercasing and normalizing it again gives the same
/// shell, so a shell name that was kept reads back as the shell chosen.
pub proof fn law_shell_name_settles(name: Seq<char>, shell: Seq<char>)
    requires
        shell_alias(name) == Some(shell),
    ensures
        all_ascii(shell),
        shell_alias(shell.map_values(|c: char| ascii_lower(c))) == Some(shell),
{
    reveal_strlit("end4-pC");
    reveal_strlit("end4-pc");
    reveal_strlit("midnight");
    reveal_strlit("dms");
    reveal_strlit("none");
    reveal_strlit("end4");
    reveal_strlit("ii");
    reveal_strlit("illogical-impulse");
    reveal_strlit("1");
    reveal_strlit("midnight-shell");
    reveal_strlit("caelestia");
    reveal_strlit("2");
    reveal_strlit("dankmaterialshell");
    reveal_strlit("dank-material-shell");
    reveal_strlit("3");
    reveal_strlit("off");
    reveal_strlit("disabled");
    reveal_strlit("4");
    let low = shell.map_values(|c: char| ascii_lower(c));
    if shell == "end4-pC"@ {
        assert(low =~= "end4-pc"@);
        assert(shell_alias(low) == Some(shell));
    } else if shell == "midnight"@ {
        assert(low =~= "midnight"@);
        assert(shell_alias(low) == Some(shell));
    } else if shell == "dms"@ {
        assert(low =~= "dms"@);
        assert(shell_alias(low) == Some(shell));
    } else {
        assert(shell == "none"@);
        assert("none"@[0] != "end4"@[0]);
        assert(low =~= "none"@);
        assert(shell_alias(low) == Some(shell));
    }
}

/// The shells that the menu lists, numbered from 1 in this order.
pub open spec fn menu_shells() -> Seq<Seq<char>> {
    seq!["end4-pC"@, "midnight"@, "dms"@, "none"@]
}

/// The one-digit text of the menu number `n` (1 to 9).
pub open spec fn menu_number_text(n: int) -> Seq<char> {
    seq![((n + 48) as u32) as char]
}

/// Every number that the shell menu lists names the shell listed beside it:
/// 1, 2, 3 and 4 stand for end4-pC, midnight, dms and none, and a number is
/// its own lowercase, so normalizing it (or answering it at the menu) picks
/// that shell.
pub proof fn law_menu_numbers_name_their_shells(n: int)
    requires
        1 <= n <= 4,
    ensures
        shell_alias(menu_number_text(n)) == Some(menu_shells()[n - 1]),
        all_ascii(menu_number_text(n)),
        menu_number_text(n).map_values(|c: char| ascii_lower(c)) == menu_number_text(n),
{
    reveal_strlit("1");
    reveal_strlit("2");
    reveal_strlit("3");
    reveal_strlit("4");
    reveal_strlit("end4-pc");
    reveal_strlit("end4");
    reveal_strlit("ii");
    reveal_strlit("illogical-impulse");
    reveal_strlit("midnight");
    reveal_strlit("midnight-shell");
    reveal_strlit("caelestia");
    reveal_strlit("dms");
    reveal_strlit("dankmaterialshell");
    reveal_strlit("dank-material-shell");
    reveal_strlit("none");
    reveal_strlit("off");
    reveal_strlit("disabled");
    let d = menu_number_text(n);
    assert(d.map_values(|c: char| ascii_lower(c)) =~= d);
    if n == 1 {
        assert(d =~= "1"@);
        assert(shell_alias(d) == Some("end4-pC"@));
    } else if n == 2 {
        assert(d =~= "2"@);
        assert("2"@[0] != "1"@[0]);
        assert(shell_alias(d) == Some("midnight"@));
    } else if n == 3 {
        assert(d =~= "3"@);
        assert("3"@[0] != "1"@[0] && "3"@[0] != "2"@[0]);
        assert(shell_alias(d) == Some("dms"@));
    } else {
        assert(d =~= "4"@);
        assert("4"@[0] != "1"@[0] && "4"@[0] != "2"@[0] && "4"@[0] != "3"@[0]);
        assert(shell_alias(d) == Some("none"@));
    }
}

/// The shell that an already lowercased name or number stands for.
pub fn normalize_lowercased_shell_name(lower: &str) -> (r: Option<&'static str>)
    ensures
        opt_str(r) == shell_alias(lower@),
{
    let s = chars_of(lower);
    let s = s.as_slice();
    if eq_str(s, "end4-pc") || eq_str(s, "end4") || eq_str(s, "ii") || eq_str(
        s,
        "illogical-impulse",
    ) || eq_str(s, "1") {
        Some("end4-pC")
    } else if eq_str(s, "midnight") || eq_str(s, "midnight-shell") || eq_str(s, "caelestia")
        || eq_str(s, "2") {
        Some("midnight")
    } else if eq_str(s, "dms") || eq_str(s, "dankmaterialshell") || eq_str(
        s,
        "dank-material-shell",
    ) || eq_str(s, "3") {
        Some("dms")
    } else if eq_str(s, "none") || eq_str(s, "off") || eq_str(s, "disabled") || eq_str(s, "4") {
        Some("none")
    } else {
        None
    }
}

/// The shell that a name or number stands for, whatever its case.
pub fn normalize_shell_name(name: &str) -> (r: Option<&'static str>)
    ensures
        opt_str(r) == shell_alias(lowercase(name@)),
        all_ascii(name@) ==> opt_str(r) == shell_alias(name@.map_values(|c: char| ascii_lower(c))),
{
    let lower = to_lowercase(name);
    normalize_lowercased_shell_name(lower.as_str())
}

//=========================================#
//            SHELL SUBCOMMAND             #
//=========================================#

/// What the shell subcommand was asked to do.
#[derive(Debug)]
pub enum ShellRequest {
    Menu,
    List,
    Status,
    Restart,
    Autostart,
    Switch(&'static str),
    Unknown(String),
}

/// The value of a `ShellRequest`.
pub enum ShellRequestView {
    Menu,
    List,
    Status,
    Restart,
    Autostart,
    Switch(Seq<char>),
    Unknown(Seq<char>),
}

impl View for ShellRequest {
    type V = ShellRequestView;

    open spec fn view(&self) -> ShellRequestView {
        match self {
            ShellRequest::Menu => ShellRequestView::Menu,
            ShellRequest::List => ShellRequestView::List,
            ShellRequest::Status => ShellRequestView::Status,
            ShellRequest::Restart => ShellRequestView::Restart,
            ShellRequest::Autostart => ShellRequestView::Autostart,
            ShellRequest::Switch(s) => ShellRequestView::Switch(s@),
            ShellRequest::Unknown(s) => ShellRequestView::Unknown(s@),
        }
    }
}

/// What a trimmed argument of the shell subcommand asks for.
pub open spec fn shell_word_request(t: Seq<char>) -> ShellRequestView {
    if t == "list"@ || t == "ls"@ || t == "--list"@ {
        ShellRequestView::List
    } else if t == "status"@ || t == "current"@ || t == "--status"@ {
        ShellRequestView::Status
    } else if t == "restart"@ || t == "reload"@ || t == "--restart"@ {
        ShellRequestView::Restart
    } else if t == "autostart"@ {
        ShellRequestView::Autostart
    } else if t == "menu"@ {
        ShellRequestView::Menu
    } else {
        match shell_alias(lowercase(t)) {
            Some(n) => ShellRequestView::Switch(n),
            None => ShellRequestView::Unknown(t),
        }
    }
}

/// What a trimmed ASCII argument of the shell subcommand asks for (so that
/// lowercasing it is ASCII lowercasing).
pub open spec fn shell_word_request_ascii(t: Seq<char>) -> ShellRequestView {
    if t == "list"@ || t == "ls"@ || t == "--list"@ {
        ShellRequestView::List
    } else if t == "status"@ || t == "current"@ || t == "--status"@ {
        ShellRequestView::Status
    } else if t == "restart"@ || t == "reload"@ || t == "--restart"@ {
        ShellRequestView::Restart
    } else if t == "autostart"@ {
        ShellRequestView::Autostart
    } else if t == "menu"@ {
        ShellRequestView::Menu
    } else {
        match shell_alias(t.map_values(|c: char| ascii_lower(c))) {
            Some(n) => ShellRequestView::Switch(n),
            None => ShellRequestView::Unknown(t),
        }
    }
}

/// The shell subcommand takes the menu's numbers too: `orbit shell <n>`
/// (n from 1 to 4) switches to the `n`-th shell the menu lists.
pub proof fn law_shell_numbers_switch_to_listed_shells(n: int)
    requires
        1 <= n <= 4,
    ensures
        shell_word_request_ascii(menu_number_text(n)) == ShellRequestView::Switch(menu_shells()[n - 1]),
{
    law_menu_numbers_name_their_shells(n);
    reveal_strlit("list");
    reveal_strlit("ls");
    reveal_strlit("--list");
    reveal_strlit("status");
    reveal_strlit("current");
    reveal_strlit("--status");
    reveal_strlit("restart");
    reveal_strlit("reload");
    reveal_strlit("--restart");
    reveal_strlit("autostart");
    reveal_strlit("menu");
}

/// What the shell subcommand asks for: the menu without an argument, else
/// what its trimmed argument names.
pub open spec fn shell_request_of(arg: Option<Seq<char>>) -> ShellRequestView {
    match arg {
        None => ShellRequestView::Menu,
        Some(a) => shell_word_request(trim(a)),
    }
}

/// Reads the argument of the shell subcommand.
pub fn shell_request(arg: Option<String>) -> (r: ShellRequest)
    ensures
        r@ == shell_request_of(crate::rebuild::opt_text(arg)),
        match arg {
            Some(a) => all_ascii(trim(a@)) ==> r@ == shell_word_request_ascii(trim(a@)),
            None => true,
        },
{
    match arg {
        None => ShellRequest::Menu,
        Some(a) => {
            let t = trim_str(a.as_str());
            let w = t.as_slice();
            if eq_str(w, "list") || eq_str(w, "ls") || eq_str(w, "--list") {
                ShellRequest::List
            } else if eq_str(w, "status") || eq_str(w, "current") || eq_str(w, "--status") {
                ShellRequest::Status
            } else if eq_str(w, "restart") || eq_str(w, "reload") || eq_str(w, "--restart") {
                ShellRequest::Restart
            } else if eq_str(w, "autostart") {
                ShellRequest::Autostart
            } else if eq_str(w, "menu") {
                ShellRequest::Menu
            } else {
                let name = string_of(w);
                match normalize_shell_name(name.as_str()) {
                    Some(n) => ShellRequest::Switch(n),
                    None => ShellRequest::Unknown(name),
                }
            }
        },
    }
}

//=========================================#
//            INTERACTIVE MENU             #
//=========================================#

/// An answer to the shell menu.
#[derive(Debug)]
pub enum MenuChoice {
    Quit,
    Switch(&'static str),
    Invalid(String),
}

/// The value of a `MenuChoice`.
pub enum MenuChoiceView {
    Quit,
    Switch(Seq<char>),
    Invalid(Seq<char>),
}

impl View for MenuChoice {
    type V = MenuChoiceView;

    open spec fn view(&self) -> MenuChoiceView {
        match self {
            MenuChoice::Quit => MenuChoiceView::Quit,
            MenuChoice::Switch(s) => MenuChoiceView::Switch(s@),
            MenuChoice::Invalid(s) => MenuChoiceView::Invalid(s@),
        }
    }
}

/// What a line typed at the shell menu chooses: quit on `q` (either case)
/// or nothing, else the shell the trimmed text names.
pub open spec fn menu_choice_of(input: Seq<char>) -> MenuChoiceView {
    let c = trim(input);
    if c == "q"@ || c == "Q"@ || c.len() == 0 {
        MenuChoiceView::Quit
    } else {
        match shell_alias(lowercase(c)) {
            Some(n) => MenuChoiceView::Switch(n),
            None => MenuChoiceView::Invalid(c),
        }
    }
}

/// What a line typed at the shell menu asks for when its trimmed text is
/// ASCII (so that lowercasing it is ASCII lowercasing).
pub open spec fn menu_choice_ascii(input: Seq<char>) -> MenuChoiceView {
    let c = trim(input);
    if c == "q"@ || c == "Q"@ || c.len() == 0 {
        MenuChoiceView::Quit
    } else {
        match shell_alias(c.map_values(|ch: char| ascii_lower(ch))) {
            Some(n) => MenuChoiceView::Switch(n),
            None => MenuChoiceView::Invalid(c),
        }
    }
}

/// Every answer the shell menu offers picks the shell listed beside it:
/// typing the number `n` (1 to 4) switches to the `n`-th listed shell.
pub proof fn law_menu_answers_pick_listed_shells(n: int)
    requires
        1 <= n <= 4,
    ensures
        all_ascii(trim(menu_number_text(n))),
        menu_choice_ascii(menu_number_text(n)) == MenuChoiceView::Switch(menu_shells()[n - 1]),
{
    law_menu_numbers_name_their_shells(n);
    reveal_strlit("q");
    reveal_strlit("Q");
    let d = menu_number_text(n);
    assert(!is_white_space(d[0]));
    assert(d.drop_first().len() == 0);
    assert(trim_start(d) == d);
    assert(d.last() == d[0]);
    assert(trim_end(d) == d);
    assert(trim(d) == d);
    assert(d[0] != "q"@[0] && d[0] != "Q"@[0]);
}

/// Reads a line typed at the shell menu.
pub fn menu_choice(input: &str) -> (r: MenuChoice)
    ensures
        r@ == menu_choice_of(input@),
        all_ascii(trim(input@)) ==> r@ == menu_choice_ascii(input@),
{
    let c = trim_str(input);
    let w = c.as_slice();
    if eq_str(w, "q") || eq_str(w, "Q") || c.len() == 0 {
        return MenuChoice::Quit;
    }
    let name = string_of(w);
    match normalize_shell_name(name.as_str()) {
        Some(n) => MenuChoice::Switch(n),
        None => MenuChoice::Invalid(name),
    }
}

//=========================================#
//            SHELL STATE AND LAUNCH       #
//=========================================#

/// The active shell recorded in the state file: its trimmed content, or
/// `end4-pC` when the file is missing, unreadable or blank.
pub open spec fn current_shell_of(content: Option<Seq<char>>) -> Seq<char> {
    match content {
        Some(c) => if trim(c).len() > 0 {
            trim(c)
        } else {
            "end4-pC"@
        },
        None => "end4-pC"@,
    }
}

/// The active shell, from the content of the state file (if it was read).
pub fn current_shell_from(content: Option<String>) -> (r: String)
    ensures
        r@ == current_shell_of(crate::rebuild::opt_text(content)),
{
    match content {
        Some(c) => {
            let t = trim_str(c.as_str());
            if t.len() > 0 {
                string_of(t.as_slice())
            } else {
                owned("end4-pC")
            }
        },
        None => owned("end4-pC"),
    }
}

/// The command that starts a shell: Quickshell with the shell's config for
/// end4-pC and midnight; for dms, `dms run` when the `dms` program exists,
/// else Quickshell with the dms config; none for any other name.
pub open spec fn shell_launch_argv(shell: Seq<char>, dms_available: bool) -> Option<Seq<Seq<char>>> {
    if shell == "end4-pC"@ {
        Some(seq!["qs"@, "-c"@, "end4-pC"@])
    } else if shell == "midnight"@ {
        Some(seq!["qs"@, "-c"@, "midnight"@])
    } else if shell == "dms"@ {
        if dms_available {
            Some(seq!["dms"@, "run"@])
        } else {
            Some(seq!["qs"@, "-c"@, "dms"@])
        }
    } else {
        None
    }
}

/// The command that starts a shell.
pub fn shell_launch_command(shell: &str, dms_available: bool) -> (r: Option<Vec<String>>)
    ensures
        match shell_launch_argv(shell@, dms_available) {
            Some(a) => r matches Some(v) && texts(v@) == a,
            None => r is None,
        },
{
    let s = chars_of(shell);
    let w = s.as_slice();
    let mut cmd: Vec<String> = Vec::new();
    if eq_str(w, "end4-pC") {
        cmd.push(owned("qs"));
        cmd.push(owned("-c"));
        cmd.push(owned("end4-pC"));
    } else if eq_str(w, "midnight") {
        cmd.push(owned("qs"));
        cmd.push(owned("-c"));
        cmd.push(owned("midnight"));
    } else if eq_str(w, "dms") {
        if dms_available {
            cmd.push(owned("dms"));
            cmd.push(owned("run"));
        } else {
            cmd.push(owned("qs"));
            cmd.push(owned("-c"));
            cmd.push(owned("dms"));
        }
    } else {
        return None;
    }
    assert(texts(cmd@) =~= shell_launch_argv(shell@, dms_available).unwrap());
    Some(cmd)
}

/// Whether a shell runs from a Quickshell config directory of its own.
pub fn uses_quickshell_config(shell: &str) -> (r: bool)
    ensures
        r == (shell@ == "end4-pC"@ || shell@ == "midnight"@),
{
    let s = chars_of(shell);
    eq_str(s.as_slice(), "end4-pC") || eq_str(s.as_slice(), "midnight")
}

/// Whether the shell name turns the desktop shell off.
pub fn is_no_shell(shell: &str) -> (r: bool)
    ensures
        r == (shell@ == "none"@),
{
    let s = chars_of(shell);
    eq_str(s.as_slice(), "none")
}

/// Whether launching the shell depends on whether the `dms` program exists.
pub fn launch_checks_dms(shell: &str) -> (r: bool)
    ensures
        r == (shell@ == "dms"@),
{
    let s = chars_of(shell);
    eq_str(s.as_slice(), "dms")
}

} // verus!
