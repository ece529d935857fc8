//! The target user (from sudo, the environment and the passwd database),
//! the host name, yes/no answers, and the NixOS check on os-release.
use vstd::prelude::*;
use crate::rebuild::{owned, opt_text};
use crate::text::{
    chars_of, eq_str, eq_chars, string_of, trim, trim_str, trim_chars, lowercase, to_lowercase,
    split_on, split_chars, text_lines, lines_of, decimal_value, parse_decimal, has_prefix,
    starts_with_str,
};

verus! {

//=========================================#
//            TARGET USER                  #
//=========================================#

/// The user that the program acts for. The home directory is held as the
/// text of its path.
#[derive(Debug, Clone)]
pub struct UserInfo {
    pub username: String,
    pub uid: u32,
    pub gid: u32,
    pub home_dir: String,
}

/// The value of a `UserInfo`.
pub struct UserInfoView {
    pub username: Seq<char>,
    pub uid: u32,
    pub gid: u32,
    pub home_dir: Seq<char>,
}

impl View for UserInfo {
    type V = UserInfoView;

    open spec fn view(&self) -> UserInfoView {
        UserInfoView {
            username: self.username@,
            uid: self.uid,
            gid: self.gid,
            home_dir: self.home_dir@,
        }
    }
}

/// Whether an optional variable is set and not empty.
pub open spec fn set_nonempty(o: Option<Seq<char>>) -> bool {
    match o {
        Some(s) => s.len() > 0,
        None => false,
    }
}

/// The target user name: `SUDO_USER` if set and not empty, else `USER` if
/// set and not empty, else `user`.
pub open spec fn target_name(sudo_user: Option<Seq<char>>, user: Option<Seq<char>>) -> Seq<char> {
    if set_nonempty(sudo_user) {
        sudo_user.unwrap()
    } else if set_nonempty(user) {
        user.unwrap()
    } else {
        "user"@
    }
}

/// The fields of the first passwd line, among `lines`, that has at least
/// seven `:`-separated fields and names `user` in the first.
pub open spec fn passwd_fields(lines: Seq<Seq<char>>, user: Seq<char>) -> Option<Seq<Seq<char>>>
    decreases lines.len(),
{
    if lines.len() == 0 {
        None
    } else {
        let parts = split_on(lines[0], ':');
        if parts.len() >= 7 && parts[0] == user {
            Some(parts)
        } else {
            passwd_fields(lines.drop_first(), user)
        }
    }
}

/// A passwd id field read as a `u32`, or `default` when it is not one.
pub open spec fn id_or(t: Seq<char>, default: u32) -> u32 {
    match decimal_value(t) {
        Some(v) => if v <= u32::MAX {
            v as u32
        } else {
            default
        },
        None => default,
    }
}

/// The target user: from its passwd line if the database was read and has
/// one (uid 1000 and gid 100 where those fields are not numbers), else uid
/// 1000, gid 100 and home `/root` for root or `/home/<name>`.
pub open spec fn user_info_of(name: Seq<char>, passwd: Option<Seq<char>>) -> UserInfoView {
    let found = match passwd {
        Some(p) => passwd_fields(text_lines(p), name),
        None => None,
    };
    match found {
        Some(parts) => UserInfoView {
            username: name,
            uid: id_or(parts[2], 1000),
            gid: id_or(parts[3], 100),
            home_dir: parts[5],
        },
        None => UserInfoView {
            username: name,
            uid: 1000,
            gid: 100,
            home_dir: if name == "root"@ {
                "/root"@
            } else {
                "/home/"@ + name
            },
        },
    }
}

/// A passwd id field read as a `u32`, or `default`.
fn read_id(t: &Vec<char>, default: u32) -> (r: u32)
    ensures
        r == id_or(t@, default),
{
    match parse_decimal(t.as_slice(), 0xffff_ffff) {
        Some(v) => v as u32,
        None => default,
    }
}

/// The target user name from `SUDO_USER` and `USER`.
pub fn target_username(sudo_user: Option<String>, user: Option<String>) -> (r: String)
    ensures
        r@ == target_name(opt_text(sudo_user), opt_text(user)),
{
    match sudo_user {
        Some(s) if !s.as_str().is_empty() => {
            return s;
        },
        _ => {},
    }
    match user {
        Some(u) if !u.as_str().is_empty() => u,
        _ => owned("user"),
    }
}

/// The target user, from `SUDO_USER`, `USER` and the content of the passwd
/// database (if it was read).
pub fn target_user_info(sudo_user: Option<String>, user: Option<String>, passwd: Option<String>) -> (r:
    UserInfo)
    ensures
        r@ == user_info_of(target_name(opt_text(sudo_user), opt_text(user)), opt_text(passwd)),
{
    let ghost want = target_name(opt_text(sudo_user), opt_text(user));
    let name = target_username(sudo_user, user);
    let name_chars = chars_of(name.as_str());
    if let Some(p) = &passwd {
        assert(opt_text(passwd) == Some(p@));
        let pc = chars_of(p.as_str());
        let lines = lines_of(pc.as_slice());
        let ghost all = lines@.map_values(|v: Vec<char>| v@);
        assert(all == text_lines(p@));
        let mut i: usize = 0;
        assert(all.skip(0) =~= all);
        while i < lines.len()
            invariant
                i <= lines.len(),
                all == lines@.map_values(|v: Vec<char>| v@),
                name_chars@ == name@,
                name@ == want,
                want == target_name(opt_text(sudo_user), opt_text(user)),
                all == text_lines(p@),
                opt_text(passwd) == Some(p@),
                passwd_fields(all, name@) == passwd_fields(all.skip(i as int), name@),
            decreases lines.len() - i,
        {
            assert(all.skip(i as int).drop_first() =~= all.skip(i + 1));
            assert(all.skip(i as int)[0] == lines@[i as int]@);
            let parts = split_chars(lines[i].as_slice(), ':');
            let ghost pv = parts@.map_values(|v: Vec<char>| v@);
            if parts.len() >= 7 && eq_chars(parts[0].as_slice(), name_chars.as_slice()) {
                assert(pv[0] == parts@[0]@);
                assert(pv == split_on(all.skip(i as int)[0], ':'));
                assert(passwd_fields(all.skip(i as int), name@) == Some(pv));
                let uid = read_id(&parts[2], 1000);
                let gid = read_id(&parts[3], 100);
                let home = string_of(parts[5].as_slice());
                assert(pv[2] == parts@[2]@ && pv[3] == parts@[3]@ && pv[5] == parts@[5]@);
                let r = UserInfo { username: name, uid, gid, home_dir: home };
                assert(passwd_fields(all, name@) == Some(pv));
                assert(opt_text(passwd) == Some(p@));
                assert(r@.uid == id_or(pv[2], 1000));
                assert(r@.home_dir == pv[5]);
                assert(r@ == user_info_of(name@, Some(p@)));
                assert(r@ == user_info_of(want, opt_text(passwd)));
                return r;
            }
            i = i + 1;
        }
    }
    let is_root = eq_str(name_chars.as_slice(), "root");
    let home = if is_root {
        owned("/root")
    } else {
        let mut h = chars_of("/home/");
        let mut n = chars_of(name.as_str());
        h.append(&mut n);
        string_of(h.as_slice())
    };
    UserInfo { username: name, uid: 1000, gid: 100, home_dir: home }
}

//=========================================#
//            FLAKE DIRECTORY              #
//=========================================#

/// Why no flake directory could be chosen.
#[derive(Debug)]
pub enum FlakeDirError {
    /// The directory given on the command line does not exist.
    Missing(String),
    /// No place holds a flake.
    NotFound,
}

/// The value of a `FlakeDirError`.
pub enum FlakeDirErrorView {
    Missing(Seq<char>),
    NotFound,
}

impl View for FlakeDirError {
    type V = FlakeDirErrorView;

    open spec fn view(&self) -> FlakeDirErrorView {
        match self {
            FlakeDirError::Missing(p) => FlakeDirErrorView::Missing(p@),
            FlakeDirError::NotFound => FlakeDirErrorView::NotFound,
        }
    }
}

impl FlakeDirError {
    /// The message that reports the error.
    pub fn message(&self) -> (r: String)
        ensures
            r@ == flake_dir_error_text(self@),
    {
        match self {
            FlakeDirError::Missing(p) => {
                let mut m = chars_of("Specified flake path does not exist: ");
                let mut pc = chars_of(p.as_str());
                m.append(&mut pc);
                string_of(m.as_slice())
            },
            FlakeDirError::NotFound => owned(
                "Could not automatically determine flake directory (checked /orbitos, /etc/nixos, and current directory). Specify via --flake <path>.",
            ),
        }
    }
}

/// The text of a flake directory error.
pub open spec fn flake_dir_error_text(e: FlakeDirErrorView) -> Seq<char> {
    match e {
        FlakeDirErrorView::Missing(p) => "Specified flake path does not exist: "@ + p,
        FlakeDirErrorView::NotFound => "Could not automatically determine flake directory (checked /orbitos, /etc/nixos, and current directory). Specify via --flake <path>."@,
    }
}

/// The first place that is marked, if any.
pub open spec fn first_marked(places: Seq<(Seq<char>, bool)>) -> Option<Seq<char>>
    decreases places.len(),
{
    if places.len() == 0 {
        None
    } else if places[0].1 {
        Some(places[0].0)
    } else {
        first_marked(places.drop_first())
    }
}

/// The texts and marks of a list of places.
pub open spec fn places_view(places: Seq<(String, bool)>) -> Seq<(Seq<char>, bool)> {
    places.map_values(|p: (String, bool)| (p.0@, p.1))
}

/// The flake directory: the one given on the command line (an error when it
/// does not exist); else the one that `ORBIT_FLAKE` (or, unset,
/// `FLAKE_DIR`) names, if it exists; else the first of the working
/// directory and its ancestors, in that order, that holds a `flake.nix`
/// file; else `/orbitos`, then `/etc/nixos`, when it is a directory; else an
/// error.
pub open spec fn flake_dir_choice(
    explicit: Option<(Seq<char>, bool)>,
    env: Option<(Seq<char>, bool)>,
    places: Seq<(Seq<char>, bool)>,
    orbitos_is_dir: bool,
    nixos_is_dir: bool,
) -> Result<Seq<char>, FlakeDirErrorView> {
    match explicit {
        Some((p, exists)) => if exists {
            Ok(p)
        } else {
            Err(FlakeDirErrorView::Missing(p))
        },
        None => match env {
            Some((e, true)) => Ok(e),
            _ => match first_marked(places) {
                Some(p) => Ok(p),
                None => if orbitos_is_dir {
                    Ok("/orbitos"@)
                } else if nixos_is_dir {
                    Ok("/etc/nixos"@)
                } else {
                    Err(FlakeDirErrorView::NotFound)
                },
            },
        },
    }
}

/// The value of an optional place.
pub open spec fn opt_place(o: Option<(String, bool)>) -> Option<(Seq<char>, bool)> {
    match o {
        Some(p) => Some((p.0@, p.1)),
        None => None,
    }
}

/// Chooses the flake directory from what is known of the places it may be:
/// the directory given on the command line and whether it exists, the one
/// the environment names and whether it exists, the working directory and
/// its ancestors each with whether it holds a `flake.nix` file, and whether
/// `/orbitos` and `/etc/nixos` are directories.
pub fn choose_flake_dir(
    explicit: Option<(String, bool)>,
    env: Option<(String, bool)>,
    places: Vec<(String, bool)>,
    orbitos_is_dir: bool,
    nixos_is_dir: bool,
) -> (r: Result<String, FlakeDirError>)
    ensures
        match flake_dir_choice(
            opt_place(explicit),
            opt_place(env),
            places_view(places@),
            orbitos_is_dir,
            nixos_is_dir,
        ) {
            Ok(p) => r matches Ok(d) && d@ == p,
            Err(e) => r matches Err(f) && f@ == e,
        },
{
    match explicit {
        Some((p, exists)) => {
            return if exists {
                Ok(p)
            } else {
                Err(FlakeDirError::Missing(p))
            };
        },
        None => {},
    }
    match env {
        Some((e, true)) => {
            return Ok(e);
        },
        _ => {},
    }
    let ghost all = places_view(places@);
    let mut rest = places;
    let ghost mut k: int = 0;
    assert(all.skip(0) =~= all);
    while rest.len() > 0
        invariant
            0 <= k <= all.len(),
            places_view(rest@) == all.skip(k),
            first_marked(all) == first_marked(all.skip(k)),
            all == places_view(places@),
            opt_place(explicit) is None,
            match opt_place(env) {
                Some(e) => !e.1,
                None => true,
            },
        decreases rest.len(),
    {
        let place = rest.remove(0);
        let ghost before = all.skip(k);
        assert(before[0] == (place.0@, place.1));
        assert(before.drop_first() =~= all.skip(k + 1));
        if place.1 {
            return Ok(place.0);
        }
        assert(places_view(rest@) =~= all.skip(k + 1));
        proof {
            k = k + 1;
        }
    }
    if orbitos_is_dir {
        Ok(owned("/orbitos"))
    } else if nixos_is_dir {
        Ok(owned("/etc/nixos"))
    } else {
        Err(FlakeDirError::NotFound)
    }
}

//=========================================#
//            HOST NAME                    #
//=========================================#

/// The trimmed text when it is not blank.
pub open spec fn nonblank(s: Seq<char>) -> Option<Seq<char>> {
    if trim(s).len() > 0 {
        Some(trim(s))
    } else {
        None
    }
}

/// The trimmed text of `s` when it is not blank.
pub fn nonblank_trimmed(s: &str) -> (r: Option<String>)
    ensures
        opt_text(r) == nonblank(s@),
{
    let t = trim_str(s);
    if t.len() > 0 {
        Some(string_of(t.as_slice()))
    } else {
        None
    }
}

/// The trimmed text of an optional string when it is not blank.
pub open spec fn opt_nonblank(o: Option<Seq<char>>) -> Option<Seq<char>> {
    match o {
        Some(s) => nonblank(s),
        None => None,
    }
}

/// The host name: the trimmed hostname file if not blank, else the
/// trimmed output of the `hostname` command if not blank, else `HOSTNAME`
/// as it is, else `nixos`.
pub open spec fn hostname_of(
    file: Option<Seq<char>>,
    command: Option<Seq<char>>,
    env: Option<Seq<char>>,
) -> Seq<char> {
    match opt_nonblank(file) {
        Some(h) => h,
        None => match opt_nonblank(command) {
            Some(h) => h,
            None => match env {
                Some(e) => e,
                None => "nixos"@,
            },
        },
    }
}

/// The host name, from the hostname file, the output of the `hostname`
/// command and the `HOSTNAME` variable (each when it could be had).
pub fn hostname_from(file: Option<String>, command: Option<String>, env: Option<String>) -> (r: String)
    ensures
        r@ == hostname_of(opt_text(file), opt_text(command), opt_text(env)),
{
    if let Some(f) = &file {
        if let Some(h) = nonblank_trimmed(f.as_str()) {
            return h;
        }
    }
    if let Some(c) = &command {
        if let Some(h) = nonblank_trimmed(c.as_str()) {
            return h;
        }
    }
    match env {
        Some(e) => e,
        None => owned("nixos"),
    }
}

//=========================================#
//            YES / NO                     #
//=========================================#

/// The answer to a yes/no question: the default when nothing could be read
/// or the answer is blank; else yes exactly for `y` or `yes` in any case.
pub open spec fn confirm_of(input: Option<Seq<char>>, default_yes: bool) -> bool {
    match input {
        None => default_yes,
        Some(s) => {
            let t = lowercase(trim(s));
            if t.len() == 0 {
                default_yes
            } else {
                t == "y"@ || t == "yes"@
            }
        },
    }
}

/// Reads the answer to a yes/no question (`None` when reading failed).
pub fn confirm_answer(input: Option<&str>, default_yes: bool) -> (r: bool)
    ensures
        r == confirm_of(crate::shell::opt_str(input), default_yes),
{
    match input {
        None => default_yes,
        Some(s) => {
            let t = trim_str(s);
            let ts = string_of(t.as_slice());
            let low = to_lowercase(ts.as_str());
            let lc = chars_of(low.as_str());
            if lc.len() == 0 {
                default_yes
            } else {
                eq_str(lc.as_slice(), "y") || eq_str(lc.as_slice(), "yes")
            }
        },
    }
}

//=========================================#
//            NIXOS CHECK                  #
//=========================================#

/// Whether a trimmed os-release line says the system is NixOS.
pub open spec fn is_nixos_id_line(t: Seq<char>) -> bool {
    t == "ID=nixos"@ || t == "ID=\"nixos\""@ || has_prefix(t, "ID=nixos"@)
}

/// Whether some line of the os-release content says the system is NixOS.
pub open spec fn os_release_says_nixos(content: Seq<char>) -> bool {
    exists|i: int| 0 <= i < text_lines(content).len() && is_nixos_id_line(trim(#[trigger] text_lines(content)[i]))
}

/// Whether the os-release content says the system is NixOS.
pub fn os_release_is_nixos(content: &str) -> (r: bool)
    ensures
        r == os_release_says_nixos(content@),
{
    let cs = chars_of(content);
    let lines = lines_of(cs.as_slice());
    let ghost all = lines@.map_values(|v: Vec<char>| v@);
    assert(all == text_lines(content@));
    let mut i: usize = 0;
    while i < lines.len()
        invariant
            i <= lines.len(),
            all == lines@.map_values(|v: Vec<char>| v@),
            all == text_lines(content@),
            forall|j: int| 0 <= j < i ==> !is_nixos_id_line(trim(#[trigger] all[j])),
        decreases lines.len() - i,
    {
        let t = trim_chars(lines[i].as_slice());
        assert(all[i as int] == lines@[i as int]@);
        let w = t.as_slice();
        if eq_str(w, "ID=nixos") || eq_str(w, "ID=\"nixos\"") || starts_with_str(w, "ID=nixos") {
            return true;
        }
        i = i + 1;
    }
    false
}

} // verus!
